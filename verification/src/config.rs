//! `portal.toml`, and the very little of this that is worth configuring.
//!
//! Read from `$XDG_CONFIG_HOME/wlrix/portal.toml` (or `~/.config/wlrix/portal.toml`), falling
//! back to `/etc/wlrix/portal.toml`. The first file found is used whole rather than merged.

use crate::paths::{inside, is_absolute, join, said, usable};
use crate::text::glue3;
use vstd::prelude::*;
use vstd::string::*;

verus! {

/// The file that serves every user.
pub const SYSTEM_PATH: &'static str = "/etc/wlrix/portal.toml";

/// How the picker's thumbnails are produced.
#[derive(Debug)]
pub struct Preview {
    /// How often *one* source is captured, in milliseconds. Not the refresh rate of a tile:
    /// sources take turns.
    pub tick: u64,
    /// Thumbnail size in pixels, as width and height.
    pub tile: (u32, u32),
}

/// How frames are got out of the compositor.
#[derive(Debug)]
pub struct Capture {
    /// Offer GPU memory as well as shared memory. Safe to switch on, since a consumer that cannot
    /// import a dmabuf falls back; off by default.
    pub dmabuf: bool,
}

/// What the session looks like.
#[derive(Debug)]
pub struct Appearance {
    /// The color scheme, by name. `None` means the default one.
    pub palette: Option<String>,
}

#[derive(Debug)]
pub struct Config {
    pub preview: Preview,
    pub capture: Capture,
    pub appearance: Appearance,
}

impl Default for Preview {
    fn default() -> (preview: Self)
        ensures
            preview.tick == 100,
            preview.tile == (320u32, 180u32),
    {
        Preview { tick: 100, tile: (320, 180) }
    }
}

impl Default for Capture {
    fn default() -> (capture: Self)
        ensures
            !capture.dmabuf,
    {
        Capture { dmabuf: false }
    }
}

impl Default for Appearance {
    fn default() -> (appearance: Self)
        ensures
            appearance.palette is None,
    {
        Appearance { palette: None }
    }
}

impl Default for Config {
    fn default() -> (config: Self)
        ensures
            config.is_default(),
    {
        Config {
            preview: Preview::default(),
            capture: Capture::default(),
            appearance: Appearance::default(),
        }
    }
}

/// The tick that a number of milliseconds in the file stands for.
pub open spec fn tick_of(ms: u64) -> u64 {
    if ms == 0 {
        1
    } else {
        ms
    }
}

/// A tick from the file. Zero would busy-loop the capture; there is no sane reading of it.
pub fn milliseconds(ms: u64) -> (tick: u64)
    ensures
        tick == tick_of(ms),
{
    if ms == 0 {
        1
    } else {
        ms
    }
}

/// How reading a config file went.
#[derive(Debug)]
pub enum Reading {
    /// It could not be read, and why.
    Unreadable(String),
    /// It is not a valid config, and why.
    Invalid(String),
    Valid(Config),
}

/// Say whether a candidate file would be accepted, and if not, why not.
///
/// Not what [`Config::load`] does: that carries on with defaults, which is right for a
/// bus-activated backend and wrong where the question is whether the file is acceptable.
pub fn check(path: &str, reading: Reading) -> (verdict: Result<(), String>)
    ensures
        match reading {
            Reading::Valid(_) => verdict is Ok,
            Reading::Invalid(why) => verdict == Err::<(), String>(why),
            Reading::Unreadable(why) => verdict matches Err(text) && text@ == "could not read "@
                + path@ + ": "@ + why@,
        },
{
    match reading {
        Reading::Valid(_) => Ok(()),
        Reading::Invalid(why) => Err(why),
        Reading::Unreadable(why) => {
            let mut text = glue3("could not read ", path, ": ");
            text.append(why.as_str());
            Err(text)
        },
    }
}

/// The directory a user's own configuration is in, where the environment says.
pub open spec fn user_directory(config_home: Option<Seq<u8>>, home: Option<Seq<u8>>) -> Option<
    Seq<u8>,
> {
    match usable(config_home) {
        Some(dir) => Some(dir),
        None => match home {
            Some(home) => Some(inside(home, ".config".spec_bytes())),
            None => None,
        },
    }
}

/// Where a user's own file would be.
pub open spec fn user_file(config_home: Option<Seq<u8>>, home: Option<Seq<u8>>) -> Option<
    Seq<u8>,
> {
    match user_directory(config_home, home) {
        Some(dir) => Some(
            inside(inside(dir, "wlrix".spec_bytes()), "portal.toml".spec_bytes()),
        ),
        None => None,
    }
}

/// Where a user's own file would be.
pub fn user_path(config_home: Option<&[u8]>, home: Option<&[u8]>) -> (path: Option<Vec<u8>>)
    ensures
        match path {
            Some(path) => user_file(said(config_home), said(home)) == Some(path@),
            None => user_file(said(config_home), said(home)) is None,
        },
{
    let trusted = match config_home {
        Some(dir) => is_absolute(dir),
        None => false,
    };
    let dir = if trusted {
        match config_home {
            Some(dir) => {
                let mut copy: Vec<u8> = Vec::new();
                copy.extend_from_slice(dir);
                assert(copy@ =~= dir@);
                Some(copy)
            },
            None => None,
        }
    } else {
        match home {
            Some(home) => Some(join(home, ".config".as_bytes())),
            None => None,
        }
    };
    match dir {
        Some(dir) => Some(
            join(
                join(dir.as_slice(), "wlrix".as_bytes()).as_slice(),
                "portal.toml".as_bytes(),
            ),
        ),
        None => None,
    }
}

/// Which file is read: the user's own where it exists, else the one that serves every user where
/// that exists.
pub open spec fn chosen_file(
    config_home: Option<Seq<u8>>,
    home: Option<Seq<u8>>,
    user_exists: bool,
    system_exists: bool,
) -> Option<Seq<u8>> {
    match user_file(config_home, home) {
        Some(path) if user_exists => Some(path),
        _ => if system_exists {
            Some(SYSTEM_PATH.spec_bytes())
        } else {
            None
        },
    }
}

impl Config {
    /// Whether these are the defaults everything was tuned with.
    pub open spec fn is_default(self) -> bool {
        &&& self.preview.tick == 100 && self.preview.tile == (320u32, 180u32)
        &&& !self.capture.dmabuf
        &&& self.appearance.palette is None
    }

    /// The config there is, or the defaults.
    ///
    /// A file that cannot be read or is malformed is ignored rather than fatal: refusing to start
    /// would make every screen share fail with nothing on screen to explain why.
    pub fn load(reading: Option<Reading>) -> (config: Self)
        ensures
            match reading {
                Some(Reading::Valid(read)) => config == read,
                _ => config.is_default(),
            },
    {
        match reading {
            Some(Reading::Valid(config)) => config,
            _ => Config::default(),
        }
    }

    /// Which file to read, given which of the two exist.
    pub fn path(
        config_home: Option<&[u8]>,
        home: Option<&[u8]>,
        user_exists: bool,
        system_exists: bool,
    ) -> (path: Option<Vec<u8>>)
        ensures
            match path {
                Some(path) => chosen_file(
                    said(config_home),
                    said(home),
                    user_exists,
                    system_exists,
                ) == Some(path@),
                None => chosen_file(said(config_home), said(home), user_exists, system_exists)
                    is None,
            },
    {
        if user_exists {
            if let Some(path) = user_path(config_home, home) {
                return Some(path);
            }
        }
        if system_exists {
            Some(SYSTEM_PATH.as_bytes_vec())
        } else {
            None
        }
    }
}

/// The two names below a configuration directory, put together, and that neither is absolute.
proof fn lemma_names()
    ensures
        "wlrix".spec_bytes().len() == 5 && "wlrix".spec_bytes()[0] == 119
            && "wlrix".spec_bytes()[4] == 120,
        "portal.toml".spec_bytes().len() == 11 && "portal.toml".spec_bytes()[0] == 112,
        ".config".spec_bytes().len() == 7 && ".config".spec_bytes()[0] == 46
            && ".config".spec_bytes()[6] == 103,
        "/wlrix/portal.toml".spec_bytes() == seq![47u8] + "wlrix".spec_bytes() + seq![47u8]
            + "portal.toml".spec_bytes(),
        "/.config/wlrix/portal.toml".spec_bytes() == seq![47u8] + ".config".spec_bytes()
            + seq![47u8] + "wlrix".spec_bytes() + seq![47u8] + "portal.toml".spec_bytes(),
{
    reveal_strlit("wlrix");
    reveal_strlit("portal.toml");
    reveal_strlit(".config");
    reveal_strlit("/wlrix/portal.toml");
    reveal_strlit("/.config/wlrix/portal.toml");
    vstd::utf8::is_ascii_chars_encode_utf8("wlrix"@);
    vstd::utf8::is_ascii_chars_encode_utf8("portal.toml"@);
    vstd::utf8::is_ascii_chars_encode_utf8(".config"@);
    vstd::utf8::is_ascii_chars_encode_utf8("/wlrix/portal.toml"@);
    vstd::utf8::is_ascii_chars_encode_utf8("/.config/wlrix/portal.toml"@);
    assert("/wlrix/portal.toml".spec_bytes() =~= seq![47u8] + "wlrix".spec_bytes() + seq![47u8]
        + "portal.toml".spec_bytes());
    assert("/.config/wlrix/portal.toml".spec_bytes() =~= seq![47u8] + ".config".spec_bytes()
        + seq![47u8] + "wlrix".spec_bytes() + seq![47u8] + "portal.toml".spec_bytes());
}

/// A user's own file is `wlrix/portal.toml` below the directory the environment names, where that
/// is absolute, and below `.config` in the home directory otherwise.
pub proof fn a_users_file_is_where_it_says(config_home: Seq<u8>, home: Seq<u8>)
    ensures
        config_home.len() > 0 && config_home[0] == 47 && config_home[config_home.len() - 1] != 47
            ==> user_file(Some(config_home), Some(home)) == Some(
            config_home + "/wlrix/portal.toml".spec_bytes(),
        ) && user_file(Some(config_home), None) == Some(
            config_home + "/wlrix/portal.toml".spec_bytes(),
        ),
        home.len() > 0 && home[home.len() - 1] != 47 ==> user_file(None, Some(home)) == Some(
            home + "/.config/wlrix/portal.toml".spec_bytes(),
        ),
        home.len() > 0 && home[home.len() - 1] != 47 && (config_home.len() == 0 || config_home[0]
            != 47) ==> user_file(Some(config_home), Some(home)) == Some(
            home + "/.config/wlrix/portal.toml".spec_bytes(),
        ),
        config_home.len() == 0 || config_home[0] != 47 ==> user_file(Some(config_home), None)
            is None,
        user_file(None, None) is None,
{
    lemma_names();
    let w = "wlrix".spec_bytes();
    let p = "portal.toml".spec_bytes();
    let c = ".config".spec_bytes();
    if config_home.len() > 0 && config_home[config_home.len() - 1] != 47 {
        assert(inside(inside(config_home, w), p) =~= config_home
            + "/wlrix/portal.toml".spec_bytes());
    }
    if home.len() > 0 && home[home.len() - 1] != 47 {
        assert(inside(inside(inside(home, c), w), p) =~= home
            + "/.config/wlrix/portal.toml".spec_bytes());
    }
}

/// The user's own file comes before the one that serves every user, and a file is read only where
/// it exists.
pub proof fn the_users_file_comes_first(
    config_home: Option<Seq<u8>>,
    home: Option<Seq<u8>>,
    user_exists: bool,
    system_exists: bool,
)
    ensures
        user_exists && user_file(config_home, home) is Some ==> chosen_file(
            config_home,
            home,
            user_exists,
            system_exists,
        ) == user_file(config_home, home),
        !user_exists || user_file(config_home, home) is None ==> chosen_file(
            config_home,
            home,
            user_exists,
            system_exists,
        ) == if system_exists {
            Some("/etc/wlrix/portal.toml".spec_bytes())
        } else {
            None
        },
{
}

/// A tick is never zero, and every other number stands for itself.
pub proof fn a_tick_is_never_zero(ms: u64)
    ensures
        tick_of(ms) > 0,
        ms > 0 ==> tick_of(ms) == ms,
        ms == 0 ==> tick_of(ms) == 1,
{
}

/// What everything was tuned with: a thumbnail every tenth of a second, 320 by 180, no GPU memory
/// and the default colors.
pub proof fn the_defaults_are_these(config: Config)
    requires
        config.is_default(),
    ensures
        config.preview.tick == 100 && config.preview.tile.0 == 320 && config.preview.tile.1 == 180,
        !config.capture.dmabuf,
        config.appearance.palette is None,
{
}

} // verus!
