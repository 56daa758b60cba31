//! Live thumbnails for the source picker.
//!
//! The picker binds no Wayland protocols at all. So this side captures every candidate source and
//! publishes a small image of each into the runtime directory; the picker maps those files and
//! draws them. A file is a small header followed by pixels.
//!
//! A capture arrives at the source's full size, so one source is captured per tick and the turn
//! moves on.

use crate::config::Preview;
use crate::list::{first, position, retain, some_element};
use crate::paths::{inside, is_absolute, join, said, usable};
use crate::text::{ascii_alphanumeric, glue3, is_ascii_alphanumeric, same};
use crate::wayland::capture::{is_for, Capture, Constraints, Outcome, Purpose};
use crate::wayland::inventory::Inventory;
use crate::wayland::shm;
use crate::wayland::Wayland;
use vstd::arithmetic::div_mod::lemma_fundamental_div_mod_converse;
use vstd::prelude::*;
use vstd::string::*;
use vstd::utf8::*;

verus! {

/// Magic at the head of a preview file: `WLRX`, little-endian. The picker checks it before
/// trusting anything else.
pub const MAGIC: u32 = 0x5852_4c57;

/// Bumped if the layout ever changes, so an old picker refuses a new file.
pub const VERSION: u32 = 1;

/// Bytes before the pixels: eight numbers.
pub const HEADER: usize = 32;

/// What is said where there is no runtime directory.
pub const NOWHERE: &'static str = "XDG_RUNTIME_DIR is not set; cannot publish previews";

/// One candidate source, and the file its thumbnail is published in.
#[derive(Debug)]
pub struct Tile {
    pub source_id: String,
    /// Where the picker reads it from.
    pub path: Vec<u8>,
    /// Bumped either side of a write, so a reader can tell a torn image from a settled one. Odd
    /// means "being written".
    pub seq: u32,
}

/// The thumbnails for one picker run.
#[derive(Debug)]
pub struct Previews {
    /// Removed when the picker is done.
    pub dir: Vec<u8>,
    pub tiles: Vec<Tile>,
    /// Whose turn it is.
    pub cursor: usize,
    /// When a source was last asked for, in nanoseconds. `None` before the first.
    pub last_tick: Option<u64>,
    /// Milliseconds between two turns.
    pub tick: u64,
    pub tile_size: (u32, u32),
    /// How much memory there is for the full-size capture, before it is scaled down. One piece,
    /// used again: only one capture is ever in flight.
    pub scratch: Option<usize>,
}

/// What is written into a tile's file, in this order.
#[derive(Debug)]
pub struct Publication {
    /// The header that says a write is in progress.
    pub writing: Vec<u8>,
    /// The pixels, which go after the header.
    pub pixels: Vec<u8>,
    /// The header that says the image is settled.
    pub settled: Vec<u8>,
}

/// A frame to ask the compositor for.
#[derive(Debug, Clone, Copy, PartialEq, Eq, Structural)]
pub struct Ask {
    /// Which capture, by its place.
    pub capture: usize,
    pub constraints: Constraints,
    /// How much memory the frame takes.
    pub needed: usize,
    /// Whether there is not that much yet.
    pub grow: bool,
}

/// A character that is safe in a filename, or an underscore for one that is not.
pub open spec fn safe(c: char) -> char {
    if ascii_alphanumeric(c) || c == '-' || c == '_' {
        c
    } else {
        '_'
    }
}

/// A source id made safe to put in a filename.
pub open spec fn sanitized(id: Seq<char>) -> Seq<char> {
    Seq::new(id.len(), |i: int| safe(id[i]))
}

/// Make a source id safe to put in a filename.
///
/// Neither window identifiers nor output names are promised to be free of slashes. Anything not
/// plainly safe becomes an underscore, which can collide, harmlessly: two sources then share a
/// tile file.
pub fn sanitize(id: &str) -> (name: String)
    ensures
        name@ == sanitized(id@),
{
    let mut name = String::new();
    for c in it: id.chars()
        invariant
            it.seq() == id@,
            name@ == sanitized(id@).take(it.index() as int),
    {
        let ghost k = it.index() as int;
        if is_ascii_alphanumeric(c) || c == '-' || c == '_' {
            name.push(c);
        } else {
            name.push('_');
        }
        assert(name@ =~= sanitized(id@).take(k + 1));
    }
    assert(sanitized(id@).take(id@.len() as int) =~= sanitized(id@));
    name
}

/// What a source's preview file is called.
pub open spec fn preview_name(id: Seq<char>) -> Seq<char> {
    "preview-"@ + sanitized(id) + ".raw"@
}

/// A number as four bytes, lowest first.
pub open spec fn le_bytes(n: u32) -> Seq<u8> {
    seq![
        (n % 0x100) as u8,
        (n / 0x100 % 0x100) as u8,
        (n / 0x1_0000 % 0x100) as u8,
        (n / 0x100_0000) as u8,
    ]
}

/// The eight numbers of a header. The format is always the same 32-bit one, and the last number
/// is the source's own size, which the picker uses to letterbox a tile.
pub open spec fn header_fields(seq: u32, source: (u32, u32), tile: (u32, u32)) -> Seq<u32> {
    seq![
        MAGIC,
        VERSION,
        tile.0,
        tile.1,
        (tile.0 * 4) as u32,
        0u32,
        seq,
        (source.0 << 16u32) | (source.1 & 0xffff),
    ]
}

/// Numbers as bytes, one after the other.
pub open spec fn all_le_bytes(fields: Seq<u32>) -> Seq<u8> {
    Seq::new(fields.len() * 4, |i: int| le_bytes(fields[i / 4])[i % 4])
}

/// A header, as the file has it.
pub open spec fn header_bytes(seq: u32, source: (u32, u32), tile: (u32, u32)) -> Seq<u8> {
    all_le_bytes(header_fields(seq, source, tile))
}

/// Write a header.
pub fn header(seq: u32, source: (u32, u32), tile: (u32, u32)) -> (bytes: Vec<u8>)
    requires
        tile.0 * 4 <= u32::MAX,
    ensures
        bytes@ == header_bytes(seq, source, tile),
        bytes@.len() == HEADER,
{
    let mut fields: Vec<u32> = Vec::new();
    fields.push(MAGIC);
    fields.push(VERSION);
    fields.push(tile.0);
    fields.push(tile.1);
    fields.push(tile.0 * 4);
    fields.push(0);
    fields.push(seq);
    fields.push((source.0 << 16u32) | (source.1 & 0xffff));
    assert(fields@ =~= header_fields(seq, source, tile));
    let mut bytes: Vec<u8> = Vec::new();
    let mut i: usize = 0;
    while i < fields.len()
        invariant
            i <= fields@.len(),
            fields@.len() == 8,
            bytes@ == all_le_bytes(fields@).take(i * 4),
        decreases fields.len() - i,
    {
        let n = fields[i];
        bytes.push((n % 0x100) as u8);
        bytes.push((n / 0x100 % 0x100) as u8);
        bytes.push((n / 0x1_0000 % 0x100) as u8);
        bytes.push((n / 0x100_0000) as u8);
        i += 1;
        assert(bytes@ =~= all_le_bytes(fields@).take(i * 4));
    }
    assert(all_le_bytes(fields@).take(32) =~= all_le_bytes(fields@));
    bytes
}

/// The sequence number while a write is in progress.
pub open spec fn writing_seq(seq: u32) -> u32 {
    seq.wrapping_add(1) | 1
}

/// The sequence number once the write is done.
pub open spec fn settled_seq(seq: u32) -> u32 {
    writing_seq(seq).wrapping_add(1)
}

/// The source coordinate nearest to a tile's one.
pub open spec fn nearest(at: int, source: int, tile: int) -> int {
    let exact = (at * source + source / 2) / tile;
    if exact < source - 1 {
        exact
    } else {
        source - 1
    }
}

/// Where in the source's memory the pixel for a place in the tile starts.
pub open spec fn sampled_from(source: (u32, u32), tile: (u32, u32), x: int, y: int) -> int {
    (nearest(y, source.1 as int, tile.1 as int) * source.0 + nearest(
        x,
        source.0 as int,
        tile.0 as int,
    )) * 4
}

/// One byte of a scaled image: of the nearest source pixel, where there is such a pixel.
pub open spec fn scaled_byte(
    pixels: Seq<u8>,
    source: (u32, u32),
    tile: (u32, u32),
    x: int,
    y: int,
    channel: int,
) -> u8 {
    let from = sampled_from(source, tile, x, y);
    if source.0 == 0 || source.1 == 0 || from + 4 > pixels.len() {
        0
    } else {
        pixels[from + channel]
    }
}

/// An image scaled to a tile: row after row, four bytes to the pixel.
pub open spec fn scaled(pixels: Seq<u8>, source: (u32, u32), tile: (u32, u32)) -> Seq<u8> {
    Seq::new(
        (tile.0 * tile.1 * 4) as nat,
        |k: int|
            scaled_byte(
                pixels,
                source,
                tile,
                k / 4 % (tile.0 as int),
                k / 4 / (tile.0 as int),
                k % 4,
            ),
    )
}

/// Whether images of these sizes can be told apart byte by byte on this machine.
pub open spec fn scalable(source: (u32, u32), tile: (u32, u32)) -> bool {
    &&& tile.0 * tile.1 * 4 <= usize::MAX
    &&& source.0 * source.1 * 4 <= usize::MAX
    &&& tile.0 * source.0 + source.0 <= usize::MAX
    &&& tile.1 * source.1 + source.1 <= usize::MAX
}

/// Whether images of these sizes can be told apart byte by byte on this machine.
pub fn is_scalable(source: (u32, u32), tile: (u32, u32)) -> (is: bool)
    ensures
        is == scalable(source, tile),
{
    let most: u128 = usize::MAX as u128;
    let (sw, sh, tw, th) = (source.0 as u128, source.1 as u128, tile.0 as u128, tile.1 as u128);
    proof {
        assert(tw * th <= 0xffff_ffff * 0xffff_ffff) by (nonlinear_arith)
            requires
                tw <= 0xffff_ffff,
                th <= 0xffff_ffff,
        ;
        assert(sw * sh <= 0xffff_ffff * 0xffff_ffff) by (nonlinear_arith)
            requires
                sw <= 0xffff_ffff,
                sh <= 0xffff_ffff,
        ;
        assert(tw * sw <= 0xffff_ffff * 0xffff_ffff) by (nonlinear_arith)
            requires
                tw <= 0xffff_ffff,
                sw <= 0xffff_ffff,
        ;
        assert(th * sh <= 0xffff_ffff * 0xffff_ffff) by (nonlinear_arith)
            requires
                th <= 0xffff_ffff,
                sh <= 0xffff_ffff,
        ;
    }
    tw * th * 4 <= most && sw * sh * 4 <= most && tw * sw + sw <= most && th * sh + sh <= most
}

/// The source coordinate nearest to a tile's one.
fn nearest_to(at: usize, source: u32, tile: u32) -> (place: usize)
    requires
        at < tile,
        source > 0,
        tile * source + source <= usize::MAX,
    ensures
        place == nearest(at as int, source as int, tile as int),
        place < source,
{
    assert(at * source + source / 2 <= tile * source + source) by (nonlinear_arith)
        requires
            at < tile,
            source > 0,
    ;
    assert(0 <= at * source <= tile * source + source) by (nonlinear_arith)
        requires
            at < tile,
            source > 0,
            at >= 0,
    ;
    let exact: usize = (at * source as usize + source as usize / 2) / tile as usize;
    if exact < source as usize - 1 {
        exact
    } else {
        source as usize - 1
    }
}

/// Nearest-neighbor downscale. Good enough for a thumbnail, and cheap.
pub fn scale(pixels: &[u8], source: (u32, u32), tile: (u32, u32)) -> (out: Vec<u8>)
    requires
        scalable(source, tile),
    ensures
        out@ == scaled(pixels@, source, tile),
{
    let ghost tw = tile.0 as int;
    let ghost th = tile.1 as int;
    let mut out: Vec<u8> = Vec::new();
    let mut y: usize = 0;
    while y < tile.1 as usize
        invariant
            y <= tile.1,
            tw == tile.0,
            th == tile.1,
            scalable(source, tile),
            out@.len() == y * tw * 4,
            y * tw * 4 <= tw * th * 4,
            forall|k: int|
                0 <= k < out@.len() ==> #[trigger] out@[k] == scaled(pixels@, source, tile)[k],
        decreases tile.1 - y,
    {
        let sy: usize = if source.0 == 0 || source.1 == 0 {
            0
        } else {
            nearest_to(y, source.1, tile.1)
        };
        let mut x: usize = 0;
        while x < tile.0 as usize
            invariant
                y < tile.1,
                x <= tile.0,
                tw == tile.0,
                th == tile.1,
                scalable(source, tile),
                source.0 != 0 && source.1 != 0 ==> sy == nearest(y as int, source.1 as int, th)
                    && sy < source.1,
                out@.len() == (y * tw + x) * 4,
                forall|k: int|
                    0 <= k < out@.len() ==> #[trigger] out@[k] == scaled(pixels@, source, tile)[k],
            decreases tile.0 - x,
        {
            let ghost before = out@;
            let ghost p = y * tw + x;
            proof {
                lemma_fundamental_div_mod_converse(p, tw, y as int, x as int);
                assert((y * tw + x) * 4 + 4 <= tw * th * 4) by (nonlinear_arith)
                    requires
                        y + 1 <= th,
                        x + 1 <= tw,
                        y >= 0,
                        x >= 0,
                ;
            }
            let mut from: usize = 0;
            let mut present = false;
            if source.0 != 0 && source.1 != 0 {
                let sx = nearest_to(x, source.0, tile.0);
                proof {
                    let (sw, sh) = (source.0 as int, source.1 as int);
                    assert(sy * sw + sx <= sw * sh - 1) by (nonlinear_arith)
                        requires
                            0 <= sy <= sh - 1,
                            0 <= sx <= sw - 1,
                            sw > 0,
                    ;
                    assert(0 <= sy * sw) by (nonlinear_arith)
                        requires
                            sy >= 0,
                            sw > 0,
                    ;
                }
                from = (sy * source.0 as usize + sx) * 4;
                assert(from == sampled_from(source, tile, x as int, y as int));
                present = from + 4 <= pixels.len();
            }
            if present {
                out.push(pixels[from]);
                out.push(pixels[from + 1]);
                out.push(pixels[from + 2]);
                out.push(pixels[from + 3]);
            } else {
                out.push(0);
                out.push(0);
                out.push(0);
                out.push(0);
            }
            proof {
                assert forall|k: int| 0 <= k < out@.len() implies #[trigger] out@[k] == scaled(
                    pixels@,
                    source,
                    tile,
                )[k] by {
                    if k < before.len() {
                        assert(out@[k] == before[k]);
                    } else {
                        let c = k - p * 4;
                        assert(0 <= c < 4);
                        assert(k / 4 == p && k % 4 == c);
                        assert(out@[k] == scaled_byte(
                            pixels@,
                            source,
                            tile,
                            x as int,
                            y as int,
                            c,
                        ));
                    }
                }
                assert((y * tw + x) * 4 + 4 == (y * tw + (x + 1)) * 4);
            }
            x += 1;
        }
        proof {
            assert((y * tw + tw) * 4 == (y + 1) * tw * 4) by (nonlinear_arith);
            assert((y + 1) * tw * 4 <= tw * th * 4) by (nonlinear_arith)
                requires
                    y + 1 <= th,
                    tw >= 0,
            ;
        }
        y += 1;
    }
    proof {
        assert(th * tw * 4 == tw * th * 4) by (nonlinear_arith);
        assert(out@ =~= scaled(pixels@, source, tile));
    }
    out
}

impl Tile {
    /// The tile once a frame has been published in it.
    pub open spec fn after_publish(self) -> Self {
        Tile { seq: settled_seq(self.seq), ..self }
    }

    /// Whether this is what is written when a frame is published.
    pub open spec fn is_publication(
        self,
        pixels: Seq<u8>,
        source: (u32, u32),
        tile: (u32, u32),
        publication: Publication,
    ) -> bool {
        &&& publication.writing@ == header_bytes(writing_seq(self.seq), source, tile)
        &&& publication.pixels@ == scaled(pixels, source, tile)
        &&& publication.settled@ == header_bytes(settled_seq(self.seq), source, tile)
    }

    /// The tile once so many captures have been published.
    pub open spec fn after_publishes(self, writes: nat) -> Self
        decreases writes,
    {
        if writes == 0 {
            self
        } else {
            self.after_publishes((writes - 1) as nat).after_publish()
        }
    }

    /// Scale a capture down for this tile's file.
    ///
    /// The sequence number is odd before the pixels and even after, so a reader that sees an odd
    /// value, or a different value either side of its read, knows to try again.
    pub fn publish(&mut self, pixels: &[u8], source: (u32, u32), tile: (u32, u32)) -> (publication:
        Publication)
        requires
            scalable(source, tile),
            tile.0 * 4 <= u32::MAX,
        ensures
            *final(self) == old(self).after_publish(),
            old(self).is_publication(pixels@, source, tile, publication),
    {
        self.seq = self.seq.wrapping_add(1) | 1;
        let writing = header(self.seq, source, tile);
        let pixels = scale(pixels, source, tile);
        self.seq = self.seq.wrapping_add(1);
        let settled = header(self.seq, source, tile);
        Publication { writing, pixels, settled }
    }
}

/// The tiles of this source.
pub open spec fn tile_of(source_id: Seq<char>) -> spec_fn(Tile) -> bool {
    |t: Tile| t.source_id@ == source_id
}

/// Captures that are not for previews.
pub open spec fn not_preview() -> spec_fn(Capture) -> bool {
    |c: Capture| c.purpose != Purpose::Preview
}

/// Captures for previews with a frame outstanding.
pub open spec fn preview_in_flight() -> spec_fn(Capture) -> bool {
    |c: Capture| c.purpose == Purpose::Preview && c.frame is Some
}

/// The captures once one tile's outcome has been collected.
pub open spec fn collected_one(captures: Seq<Capture>, id: Seq<char>) -> Seq<Capture> {
    match first(captures, is_for(Purpose::Preview, id)) {
        Some(i) => captures.update(i, captures[i].after_take_outcome()),
        None => captures,
    }
}

/// The captures once the first `n` tiles' outcomes have been collected.
pub open spec fn collected(tiles: Seq<Tile>, captures: Seq<Capture>, n: int) -> Seq<Capture>
    decreases n,
{
    if n <= 0 {
        captures
    } else {
        collected_one(collected(tiles, captures, n - 1), tiles[n - 1].source_id@)
    }
}

/// The size of the frame that a tile has to publish, if it has one.
pub open spec fn frame_for(captures: Seq<Capture>, id: Seq<char>) -> Option<(u32, u32)> {
    match first(captures, is_for(Purpose::Preview, id)) {
        Some(i) => match (captures[i].outcome, captures[i].constraints) {
            (Some(Outcome::Ready), Some(c)) => Some((c.width, c.height)),
            _ => None,
        },
        None => None,
    }
}

/// Whether every frame these captures can bring is one that can be scaled into such a tile.
pub open spec fn frames_fit(captures: Seq<Capture>, tile: (u32, u32)) -> bool {
    forall|i: int|
        0 <= i < captures.len() ==> match (#[trigger] captures[i]).constraints {
            Some(c) => scalable((c.width, c.height), tile) && frame_bytes(c) <= usize::MAX,
            None => true,
        }
}

/// How much memory a frame takes.
pub open spec fn frame_bytes(constraints: Constraints) -> int {
    shm::Buffer::bytes_for(
        constraints.width as i32 as usize as int,
        constraints.height as i32 as usize as int,
    )
}

/// Whether a source can be captured as things stand.
pub open spec fn capturable(wayland: Wayland, id: Seq<char>) -> bool {
    match wayland.inventory.spec_monitor(id) {
        Some(_) => wayland.output_sources,
        None => wayland.inventory.spec_window(id) is Some && wayland.toplevel_sources,
    }
}

/// The sources, of the first `n` tiles, that a capture is opened for: those that have none yet
/// and can be captured.
pub open spec fn opened(tiles: Seq<Tile>, n: int, captures: Seq<Capture>, wayland: Wayland) -> Seq<
    Seq<char>,
>
    decreases n,
{
    if n <= 0 {
        Seq::empty()
    } else {
        let before = opened(tiles, n - 1, captures, wayland);
        let id = tiles[n - 1].source_id@;
        if before.contains(id) || some_element(captures, is_for(Purpose::Preview, id))
            || !capturable(wayland, id) {
            before
        } else {
            before.push(id)
        }
    }
}

/// Whether these captures were just opened for the previews of these sources. A source is taken for
/// a monitor if there is one of that name.
pub open spec fn fresh_previews(
    captures: Seq<Capture>,
    ids: Seq<Seq<char>>,
    inventory: Inventory,
) -> bool {
    &&& captures.len() == ids.len()
    &&& forall|i: int|
        0 <= i < ids.len() ==> {
            let c = #[trigger] captures[i];
            c.is_fresh() && c.source_id@ == ids[i] && c.purpose == Purpose::Preview
                && !c.with_cursor && c.is_monitor == (inventory.spec_monitor(ids[i]) is Some)
        }
}

/// Whether the compositor is to be asked for this frame.
pub open spec fn goes(wayland: Wayland, ask: Ask, allocated: bool) -> bool {
    let capture = wayland.captures@[ask.capture as int];
    (!ask.grow || allocated) && wayland.shm && capture.frame is None && !capture.stopped
}

/// Which of so many tiles has the turn at a place in the rotation.
pub open spec fn tile_at(place: int, tiles: int) -> int {
    place % tiles
}

/// The turn after so many more.
pub open spec fn advanced(cursor: usize, turns: nat) -> usize
    decreases turns,
{
    if turns == 0 {
        cursor
    } else {
        advanced(cursor, (turns - 1) as nat).wrapping_add(1)
    }
}

impl Previews {
    /// Whether these are the thumbnails of these sources before anything has happened.
    pub open spec fn is_new(
        self,
        dir: Seq<u8>,
        sources: Seq<(String, bool)>,
        config: Preview,
    ) -> bool {
        &&& self.dir@ == dir
        &&& self.cursor == 0 && self.last_tick is None && self.scratch is None
        &&& self.tick == config.tick && self.tile_size == config.tile
        &&& self.tiles@.len() == sources.len()
        &&& forall|i: int|
            0 <= i < sources.len() ==> {
                let t = #[trigger] self.tiles@[i];
                &&& t.source_id == sources[i].0
                &&& t.path@ == inside(dir, encode_utf8(preview_name(sources[i].0@)))
                &&& t.seq == 0
            }
    }

    /// Plan the directory and one file per source.
    ///
    /// The runtime directory is required rather than falling back to a temporary one: it is owned
    /// by one user and cleaned up at logout.
    pub fn new(
        runtime_dir: Option<&[u8]>,
        session: &str,
        sources: &[(String, bool)],
        config: &Preview,
    ) -> (previews: Result<Self, &'static str>)
        ensures
            match previews {
                Ok(previews) => usable(said(runtime_dir)) matches Some(dir) && previews.is_new(
                    inside(
                        inside(dir, crate::shot::DIRECTORY.spec_bytes()),
                        session.spec_bytes(),
                    ),
                    sources@,
                    *config,
                ),
                Err(why) => usable(said(runtime_dir)) is None && why@ == NOWHERE@,
            },
    {
        let base = match runtime_dir {
            Some(dir) => if is_absolute(dir) {
                dir
            } else {
                return Err(NOWHERE);
            },
            None => {
                return Err(NOWHERE);
            },
        };
        let dir = join(
            join(base, crate::shot::DIRECTORY.as_bytes()).as_slice(),
            session.as_bytes(),
        );
        let mut tiles: Vec<Tile> = Vec::new();
        let mut i: usize = 0;
        while i < sources.len()
            invariant
                i <= sources.len(),
                tiles@.len() == i,
                forall|j: int|
                    0 <= j < i ==> {
                        let t = #[trigger] tiles@[j];
                        &&& t.source_id == sources@[j].0
                        &&& t.path@ == inside(
                            dir@,
                            encode_utf8(preview_name(sources@[j].0@)),
                        )
                        &&& t.seq == 0
                    },
            decreases sources.len() - i,
        {
            let name = glue3("preview-", sanitize(sources[i].0.as_str()).as_str(), ".raw");
            tiles.push(
                Tile {
                    source_id: sources[i].0.clone(),
                    path: join(dir.as_slice(), name.as_str().as_bytes()),
                    seq: 0,
                },
            );
            i += 1;
        }
        Ok(
            Previews {
                dir,
                tiles,
                cursor: 0,
                last_tick: None,
                tick: config.tick,
                tile_size: config.tile,
                scratch: None,
            },
        )
    }

    /// How long each file is: the header, and the pixels of one tile. The files are made at full
    /// size up front, so the picker can map every one of them at startup.
    pub fn file_length(&self) -> (length: usize)
        requires
            HEADER + self.tile_size.0 * self.tile_size.1 * 4 <= usize::MAX,
        ensures
            length == HEADER + self.tile_size.0 * self.tile_size.1 * 4,
    {
        let w = self.tile_size.0 as usize;
        let h = self.tile_size.1 as usize;
        assert(0 <= w * h <= w * h * 4) by (nonlinear_arith)
            requires
                w >= 0,
                h >= 0,
        ;
        HEADER + w * h * 4
    }

    /// Where the picker should look for a source's thumbnail.
    pub fn path_for(&self, source_id: &str) -> (path: Option<&Vec<u8>>)
        ensures
            match path {
                Some(path) => first(self.tiles@, tile_of(source_id@)) matches Some(i)
                    && self.tiles@[i].path == *path,
                None => first(self.tiles@, tile_of(source_id@)) is None,
            },
    {
        let test = |t: &Tile| -> (r: bool)
            ensures
                r == (t.source_id@ == source_id@),
            { same(t.source_id.as_str(), source_id) };
        match position(self.tiles.as_slice(), test, Ghost(tile_of(source_id@))) {
            Some(i) => Some(&self.tiles[i].path),
            None => None,
        }
    }

    /// Whether the next turn has come.
    pub open spec fn due(self, now: u64) -> bool {
        match self.last_tick {
            Some(last) => now - last >= self.tick * 1_000_000,
            None => true,
        }
    }

    /// Whether the next turn has come, at this many nanoseconds.
    fn is_due(&self, now: u64) -> (due: bool)
        ensures
            due == self.due(now),
    {
        match self.last_tick {
            Some(last) => {
                let wait: u128 = self.tick as u128 * 1_000_000;
                now >= last && (now - last) as u128 >= wait
            },
            None => true,
        }
    }

    /// Whether every frame the captures can bring is one that can be published: its size is one
    /// this machine can count in bytes.
    pub fn fits(&self, wayland: &Wayland) -> (fits: bool)
        ensures
            fits == (frames_fit(wayland.captures@, self.tile_size) && self.tile_size.0 * 4
                <= u32::MAX),
    {
        if self.tile_size.0 > u32::MAX / 4 {
            return false;
        }
        let mut i: usize = 0;
        while i < wayland.captures.len()
            invariant
                i <= wayland.captures@.len(),
                forall|j: int|
                    0 <= j < i ==> match (#[trigger] wayland.captures@[j]).constraints {
                        Some(c) => scalable((c.width, c.height), self.tile_size) && frame_bytes(c)
                            <= usize::MAX,
                        None => true,
                    },
            decreases wayland.captures.len() - i,
        {
            if let Some(c) = wayland.captures[i].constraints {
                let width: i32 = #[verifier::truncate] (c.width as i32);
                let height: i32 = #[verifier::truncate] (c.height as i32);
                let w: usize = #[verifier::truncate] (width as usize);
                let h: usize = #[verifier::truncate] (height as usize);
                assert(w * h <= 0xffff_ffff_ffff_ffff * 0xffff_ffff_ffff_ffff) by (nonlinear_arith)
                    requires
                        0 <= w <= 0xffff_ffff_ffff_ffff,
                        0 <= h <= 0xffff_ffff_ffff_ffff,
                ;
                let area: u128 = w as u128 * h as u128;
                let fits = is_scalable((c.width, c.height), self.tile_size) && area
                    <= (usize::MAX / 4) as u128;
                if !fits {
                    assert(wayland.captures@[i as int].constraints == Some(c));
                    return false;
                }
            }
            i += 1;
        }
        true
    }

    /// Whether this is what collecting does: each tile's outcome is taken, in turn, and where it
    /// is a frame, that is published.
    pub open spec fn is_collected(
        self,
        captures: Seq<Capture>,
        pixels: Seq<u8>,
        after: Self,
        captures_after: Seq<Capture>,
        published: Seq<Option<Publication>>,
    ) -> bool {
        if self.scratch is None {
            after == self && captures_after == captures && published.len() == 0
        } else {
            &&& after == Previews { tiles: after.tiles, ..self }
            &&& after.tiles@.len() == self.tiles@.len()
            &&& captures_after == collected(self.tiles@, captures, self.tiles@.len() as int)
            &&& published.len() == self.tiles@.len()
            &&& forall|k: int|
                0 <= k < self.tiles@.len() ==> self.is_collected_at(
                    captures,
                    pixels,
                    after.tiles@,
                    #[trigger] published[k],
                    k,
                )
        }
    }

    /// What collecting does to one tile.
    pub open spec fn is_collected_at(
        self,
        captures: Seq<Capture>,
        pixels: Seq<u8>,
        tiles: Seq<Tile>,
        published: Option<Publication>,
        k: int,
    ) -> bool {
        match frame_for(collected(self.tiles@, captures, k), self.tiles@[k].source_id@) {
            Some(size) => {
                &&& tiles[k] == self.tiles@[k].after_publish()
                &&& published matches Some(publication) && self.tiles@[k].is_publication(
                    pixels,
                    size,
                    self.tile_size,
                    publication,
                )
            },
            None => tiles[k] == self.tiles@[k] && published is None,
        }
    }

    /// Publish whatever finished since the last look. `pixels` is what the compositor wrote.
    pub fn collect(&mut self, wayland: &mut Wayland, pixels: &[u8]) -> (published: Vec<
        Option<Publication>,
    >)
        requires
            frames_fit(old(wayland).captures@, old(self).tile_size),
            old(self).tile_size.0 * 4 <= u32::MAX,
        ensures
            *final(wayland) == (Wayland { captures: final(wayland).captures, ..*old(wayland) }),
            old(self).is_collected(
                old(wayland).captures@,
                pixels@,
                *final(self),
                final(wayland).captures@,
                published@,
            ),
            frames_fit(final(wayland).captures@, old(self).tile_size),
    {
        let mut published: Vec<Option<Publication>> = Vec::new();
        if self.scratch.is_none() {
            return published;
        }
        let ghost start = *self;
        let ghost captures = wayland.captures@;
        let ghost world = *wayland;
        let mut k: usize = 0;
        while k < self.tiles.len()
            invariant
                k <= start.tiles@.len(),
                *self == (Previews { tiles: self.tiles, ..start }),
                self.tiles@.len() == start.tiles@.len(),
                forall|j: int| k <= j < start.tiles@.len() ==> self.tiles@[j] == start.tiles@[j],
                *wayland == (Wayland { captures: wayland.captures, ..world }),
                wayland.captures@ == collected(start.tiles@, captures, k as int),
                frames_fit(wayland.captures@, start.tile_size),
                start.tile_size.0 * 4 <= u32::MAX,
                published@.len() == k,
                forall|j: int|
                    0 <= j < k ==> start.is_collected_at(
                        captures,
                        pixels@,
                        self.tiles@,
                        #[trigger] published@[j],
                        j,
                    ),
            decreases start.tiles@.len() - k,
        {
            let ghost tiles_before = self.tiles@;
            let ghost captures_before = wayland.captures@;
            let ghost id = self.tiles@[k as int].source_id@;
            let found = {
                let source_id = self.tiles[k].source_id.as_str();
                let test = |c: &Capture| -> (r: bool)
                    ensures
                        r == (c.purpose == Purpose::Preview && c.source_id@ == source_id@),
                    { c.purpose == Purpose::Preview && same(c.source_id.as_str(), source_id) };
                position(
                    wayland.captures.as_slice(),
                    test,
                    Ghost(is_for(Purpose::Preview, source_id@)),
                )
            };
            let mut frame: Option<(u32, u32)> = None;
            if let Some(i) = found {
                let outcome = wayland.captures[i].take_outcome();
                let constraints = wayland.captures[i].constraints;
                if let Some(Outcome::Ready) = outcome {
                    if let Some(c) = constraints {
                        frame = Some((c.width, c.height));
                    }
                }
                proof {
                    let now = wayland.captures@;
                    assert(now =~= captures_before.update(
                        i as int,
                        captures_before[i as int].after_take_outcome(),
                    ));
                    assert(frames_fit(now, start.tile_size)) by {
                        assert forall|j: int| 0 <= j < now.len() implies match (
                        #[trigger] now[j]).constraints {
                            Some(c) => scalable((c.width, c.height), start.tile_size)
                                && frame_bytes(c) <= usize::MAX,
                            None => true,
                        } by {
                            assert(now[j].constraints == captures_before[j].constraints);
                        }
                    }
                }
            }
            assert(frame == frame_for(captures_before, id));
            match frame {
                Some(size) => {
                    let publication = self.tiles[k].publish(pixels, size, self.tile_size);
                    published.push(Some(publication));
                },
                None => {
                    published.push(None);
                },
            }
            proof {
                assert forall|j: int| 0 <= j <= k implies start.is_collected_at(
                    captures,
                    pixels@,
                    self.tiles@,
                    #[trigger] published@[j],
                    j,
                ) by {
                    if j < k {
                        assert(self.tiles@[j] == tiles_before[j]);
                    }
                }
            }
            k += 1;
        }
        published
    }

    /// The capture and size that a tile's turn would ask for, if it can be asked.
    pub open spec fn ready_at(self, captures: Seq<Capture>, index: int) -> Option<
        (int, Constraints),
    > {
        match first(captures, is_for(Purpose::Preview, self.tiles@[index].source_id@)) {
            Some(i) => match captures[i].constraints {
                Some(c) => Some((i, c)),
                None => None,
            },
            None => None,
        }
    }

    /// Which tile has the turn, so many turns on.
    pub open spec fn turn(self, turns: nat) -> int {
        advanced(self.cursor, turns) as int % self.tiles@.len() as int
    }

    /// Whether no tile can be asked within so many turns.
    pub open spec fn none_ready(self, captures: Seq<Capture>, turns: nat) -> bool {
        forall|k: nat|
            k < turns ==> self.ready_at(captures, #[trigger] self.turn(k)) is None
    }

    /// Whether this is what the turn comes to: the first tile that can be asked, each being tried
    /// once, and the turn after it.
    pub open spec fn is_next(self, captures: Seq<Capture>, ask: Option<Ask>, after: Self) -> bool {
        match ask {
            Some(ask) => exists|k: nat|
                {
                    &&& k < self.tiles@.len()
                    &&& self.none_ready(captures, k)
                    &&& self.ready_at(captures, #[trigger] self.turn(k)) == Some(
                        (ask.capture as int, ask.constraints),
                    )
                    &&& ask.needed == frame_bytes(ask.constraints)
                    &&& ask.grow == match self.scratch {
                        Some(length) => length < ask.needed,
                        None => true,
                    }
                    &&& after == Previews { cursor: advanced(self.cursor, k + 1), ..self }
                },
            None => {
                &&& self.none_ready(captures, self.tiles@.len())
                &&& after == Previews {
                    cursor: advanced(self.cursor, self.tiles@.len()),
                    ..self
                }
            },
        }
    }

    /// Work out which frame to ask for next.
    ///
    /// Each tile is tried once, so a source whose capture cannot be opened does not stop the
    /// rotation on itself forever.
    pub fn request_next(&mut self, wayland: &Wayland) -> (ask: Option<Ask>)
        requires
            frames_fit(wayland.captures@, old(self).tile_size),
        ensures
            old(self).is_next(wayland.captures@, ask, *final(self)),
            ask matches Some(ask) ==> ask.capture < wayland.captures@.len(),
    {
        let ghost start = *self;
        let ghost captures = wayland.captures@;
        let n = self.tiles.len();
        let mut k: usize = 0;
        while k < n
            invariant
                k <= n,
                n == start.tiles@.len(),
                captures == wayland.captures@,
                start == *old(self),
                frames_fit(captures, start.tile_size),
                *self == (Previews { cursor: advanced(start.cursor, k as nat), ..start }),
                start.none_ready(captures, k as nat),
            decreases n - k,
        {
            let index = self.cursor % n;
            assert(index == start.turn(k as nat));
            self.cursor = self.cursor.wrapping_add(1);
            assert(self.cursor == advanced(start.cursor, (k + 1) as nat));
            let found = {
                let source_id = self.tiles[index].source_id.as_str();
                let test = |c: &Capture| -> (r: bool)
                    ensures
                        r == (c.purpose == Purpose::Preview && c.source_id@ == source_id@),
                    { c.purpose == Purpose::Preview && same(c.source_id.as_str(), source_id) };
                position(
                    wayland.captures.as_slice(),
                    test,
                    Ghost(is_for(Purpose::Preview, source_id@)),
                )
            };
            if let Some(i) = found {
                if let Some(constraints) = wayland.captures[i].constraints {
                    assert(captures[i as int].constraints == Some(constraints));
                    let width = #[verifier::truncate] (constraints.width as i32);
                    let height = #[verifier::truncate] (constraints.height as i32);
                    let needed = shm::Buffer::size_for(width, height);
                    let grow = match self.scratch {
                        Some(length) => length < needed,
                        None => true,
                    };
                    assert(start.ready_at(captures, start.turn(k as nat)) == Some(
                        (i as int, constraints),
                    ));
                    let ask = Ask { capture: i, constraints, needed, grow };
                    proof {
                        let turns = k as nat;
                        assert(start.none_ready(captures, turns));
                        assert(ask.needed == frame_bytes(ask.constraints));
                        assert(*self == (Previews {
                            cursor: advanced(start.cursor, turns + 1),
                            ..start
                        }));
                        assert(start.ready_at(captures, start.turn(turns)) == Some(
                            (ask.capture as int, ask.constraints),
                        ));
                    }
                    return Some(ask);
                }
            }
            proof {
                assert(start.ready_at(captures, start.turn(k as nat)) is None);
                assert forall|j: nat| j < k + 1 implies start.ready_at(
                    captures,
                    #[trigger] start.turn(j),
                ) is None by {
                    if j < k {
                        assert(start.ready_at(captures, start.turn(j)) is None);
                    }
                }
            }
            k += 1;
        }
        None
    }

    /// Whether this is what asking for the frame comes to. The capture hears of it where there is
    /// memory to capture into and a way to share it.
    pub open spec fn is_asked(
        self,
        wayland: Wayland,
        ask: Ask,
        allocated: bool,
        after: Self,
        left: Wayland,
    ) -> bool {
        &&& after == Previews {
            scratch: if ask.grow && allocated {
                Some(ask.needed)
            } else {
                self.scratch
            },
            ..self
        }
        &&& left == Wayland { captures: left.captures, ..wayland }
        &&& left.captures@ == if (!ask.grow || allocated) && wayland.shm {
            wayland.captures@.update(
                ask.capture as int,
                wayland.captures@[ask.capture as int].after_request(),
            )
        } else {
            wayland.captures@
        }
    }

    /// Whether this is what a whole turn comes to, with memory to be had: one frame worked out and
    /// asked for, or none.
    pub open spec fn is_turn(
        self,
        wayland: Wayland,
        ask: Option<Ask>,
        after: Self,
        left: Wayland,
    ) -> bool {
        let middle = Previews { cursor: after.cursor, ..self };
        &&& self.is_next(wayland.captures@, ask, middle)
        &&& match ask {
            Some(ask) => middle.is_asked(wayland, ask, true, after, left),
            None => after == middle && left == wayland,
        }
    }

    /// The tiles that can be asked.
    pub open spec fn ready_tiles(self, captures: Seq<Capture>) -> Set<int> {
        Set::new(|t: int| 0 <= t < self.tiles@.len() && self.ready_at(captures, t) is Some)
    }

    /// Whether every tile that can be asked has a capture that is free to take a frame.
    pub open spec fn all_idle(self, wayland: Wayland) -> bool {
        &&& wayland.shm
        &&& forall|t: int|
            0 <= t < self.tiles@.len() ==> match #[trigger] self.ready_at(wayland.captures@, t) {
                Some((i, _)) => wayland.captures@[i].frame is None && !wayland.captures@[i].stopped,
                None => true,
            }
    }

    /// The tile that had the last turn.
    pub open spec fn last_turn(self) -> int {
        tile_at(self.cursor - 1, self.tiles@.len() as int)
    }

    /// Ask for the frame, once there is memory for it. `allocated` says whether there is, where
    /// there was not enough. Says whether the compositor is to be asked.
    pub fn asked(&mut self, wayland: &mut Wayland, ask: &Ask, allocated: bool) -> (asked: bool)
        requires
            ask.capture < old(wayland).captures@.len(),
        ensures
            asked == goes(*old(wayland), *ask, allocated),
            old(self).is_asked(*old(wayland), *ask, allocated, *final(self), *final(wayland)),
    {
        if ask.grow {
            if !allocated {
                return false;
            }
            self.scratch = Some(ask.needed);
        }
        if !wayland.shm {
            return false;
        }
        wayland.captures[ask.capture].request()
    }

    /// Whether the turn comes, given the captures as they are once everything has been collected.
    pub open spec fn takes_turn(self, captures: Seq<Capture>, now: u64) -> bool {
        &&& self.tiles@.len() > 0
        &&& self.due(now)
        &&& !some_element(captures, preview_in_flight())
    }

    /// Collect any finished capture and work out the next one to ask for.
    ///
    /// Does nothing between ticks, and nothing while a capture is outstanding: one at a time is
    /// the whole point.
    pub fn pump(&mut self, wayland: &mut Wayland, pixels: &[u8], now: u64) -> (done: (
        Vec<Option<Publication>>,
        Option<Ask>,
    ))
        requires
            frames_fit(old(wayland).captures@, old(self).tile_size),
            old(self).tile_size.0 * 4 <= u32::MAX,
        ensures
            *final(wayland) == (Wayland { captures: final(wayland).captures, ..*old(wayland) }),
            ({
                let middle = Previews {
                    cursor: old(self).cursor,
                    last_tick: old(self).last_tick,
                    ..*final(self)
                };
                &&& old(self).is_collected(
                    old(wayland).captures@,
                    pixels@,
                    middle,
                    final(wayland).captures@,
                    done.0@,
                )
                &&& if middle.takes_turn(final(wayland).captures@, now) {
                    (Previews { last_tick: Some(now), ..middle }).is_next(
                        final(wayland).captures@,
                        done.1,
                        *final(self),
                    )
                } else {
                    *final(self) == middle && done.1 is None
                }
            }),
            done.1 matches Some(ask) ==> ask.capture < final(wayland).captures@.len(),
    {
        let published = self.collect(wayland, pixels);
        let ghost middle = *self;
        let test = |c: &Capture| -> (r: bool)
            ensures
                r == (c.purpose == Purpose::Preview && c.frame is Some),
            { c.purpose == Purpose::Preview && c.frame.is_some() };
        let busy = position(wayland.captures.as_slice(), test, Ghost(preview_in_flight()));
        proof {
            crate::list::lemma_first(wayland.captures@, preview_in_flight());
        }
        if self.tiles.len() == 0 || !self.is_due(now) || busy.is_some() {
            return (published, None);
        }
        self.last_tick = Some(now);
        let ask = self.request_next(wayland);
        assert((Previews {
            cursor: old(self).cursor,
            last_tick: old(self).last_tick,
            ..*self
        }) == middle);
        (published, ask)
    }

    /// Open capture sessions for every source being previewed.
    ///
    /// Never with the cursor: a thumbnail is for recognizing a window.
    pub fn open_captures(&self, wayland: &mut Wayland)
        ensures
            *final(wayland) == (Wayland { captures: final(wayland).captures, ..*old(wayland) }),
            ({
                let before = old(wayland).captures@;
                let after = final(wayland).captures@;
                let ids = if old(wayland).copy {
                    opened(self.tiles@, self.tiles@.len() as int, before, *old(wayland))
                } else {
                    Seq::empty()
                };
                &&& after.len() == before.len() + ids.len()
                &&& after.take(before.len() as int) == before
                &&& fresh_previews(after.skip(before.len() as int), ids, old(wayland).inventory)
            }),
    {
        let ghost world = *wayland;
        let ghost before = wayland.captures@;
        if !wayland.copy {
            assert(before.take(before.len() as int) =~= before);
            return ;
        }
        let mut k: usize = 0;
        let ghost mut ids: Seq<Seq<char>> = Seq::empty();
        assert(before.take(before.len() as int) =~= before);
        while k < self.tiles.len()
            invariant
                k <= self.tiles@.len(),
                *wayland == (Wayland { captures: wayland.captures, ..world }),
                before == world.captures@,
                ids == opened(self.tiles@, k as int, before, world),
                wayland.captures@.len() == before.len() + ids.len(),
                wayland.captures@.take(before.len() as int) == before,
                fresh_previews(
                    wayland.captures@.skip(before.len() as int),
                    ids,
                    world.inventory,
                ),
            decreases self.tiles.len() - k,
        {
            let ghost now = wayland.captures@;
            let source_id = self.tiles[k].source_id.as_str();
            let test = |c: &Capture| -> (r: bool)
                ensures
                    r == (c.purpose == Purpose::Preview && c.source_id@ == source_id@),
                { c.purpose == Purpose::Preview && same(c.source_id.as_str(), source_id) };
            let existing = position(
                wayland.captures.as_slice(),
                test,
                Ghost(is_for(Purpose::Preview, source_id@)),
            );
            proof {
                lemma_existing(before, now, ids, source_id@, world.inventory);
                crate::list::lemma_first(now, is_for(Purpose::Preview, source_id@));
            }
            let is_monitor = wayland.inventory.monitor(source_id).is_some();
            let can = if is_monitor {
                wayland.output_sources
            } else {
                wayland.inventory.window(source_id).is_some() && wayland.toplevel_sources
            };
            assert(can == capturable(world, source_id@));
            if existing.is_none() && can {
                wayland.captures.push(
                    Capture::new(
                        self.tiles[k].source_id.clone(),
                        is_monitor,
                        Purpose::Preview,
                        false,
                    ),
                );
                proof {
                    let after = wayland.captures@;
                    assert(after.take(before.len() as int) =~= now.take(before.len() as int));
                    assert(after.skip(before.len() as int) =~= now.skip(before.len() as int).push(
                        after.last(),
                    ));
                    ids = ids.push(source_id@);
                }
            }
            k += 1;
        }
    }

    /// Stop previewing. What is returned is the directory to take away.
    pub fn close(self, wayland: &mut Wayland) -> (dir: Vec<u8>)
        ensures
            dir == self.dir,
            *final(wayland) == (Wayland { captures: final(wayland).captures, ..*old(wayland) }),
            final(wayland).captures@ == old(wayland).captures@.filter(not_preview()),
    {
        let keep = |c: &Capture| -> (r: bool)
            ensures
                r == (c.purpose != Purpose::Preview),
            { c.purpose != Purpose::Preview };
        retain(&mut wayland.captures, keep, Ghost(not_preview()));
        self.dir
    }
}

/// A source has a preview capture where it had one before or one was just opened for it.
proof fn lemma_existing(
    before: Seq<Capture>,
    now: Seq<Capture>,
    ids: Seq<Seq<char>>,
    id: Seq<char>,
    inventory: Inventory,
)
    requires
        now.len() == before.len() + ids.len(),
        now.take(before.len() as int) == before,
        fresh_previews(now.skip(before.len() as int), ids, inventory),
    ensures
        some_element(now, is_for(Purpose::Preview, id)) == (some_element(
            before,
            is_for(Purpose::Preview, id),
        ) || ids.contains(id)),
{
    let p = is_for(Purpose::Preview, id);
    let n = before.len() as int;
    assert forall|i: int| 0 <= i < n implies now[i] == #[trigger] before[i] by {
        assert(now.take(n)[i] == now[i]);
    }
    assert forall|i: int| 0 <= i < ids.len() implies p(#[trigger] now[n + i]) == (ids[i] == id) by {
        assert(now.skip(n)[i] == now[n + i]);
    }
    if some_element(now, p) {
        let i = choose|i: int| 0 <= i < now.len() && p(#[trigger] now[i]);
        if i < n {
            assert(p(before[i]));
        } else {
            assert(p(now[n + (i - n)]));
            assert(ids[i - n] == id);
        }
    }
    if some_element(before, p) {
        let i = choose|i: int| 0 <= i < before.len() && p(#[trigger] before[i]);
        assert(p(now[i]));
    }
    if ids.contains(id) {
        let i = choose|i: int| 0 <= i < ids.len() && ids[i] == id;
        assert(p(now[n + i]));
    }
}

/// The sequence number is odd while a write is in progress and even once it is settled, and each
/// write moves it on, so a reader that saw the same even number before and after has seen one
/// image. From an even number a write goes through the next one to the one after.
pub proof fn the_sequence_is_a_seqlock(seq: u32)
    ensures
        seq % 2 == 0 ==> writing_seq(seq) == seq.wrapping_add(1) && settled_seq(seq)
            == seq.wrapping_add(2),
        writing_seq(seq) % 2 == 1,
        settled_seq(seq) % 2 == 0,
        writing_seq(seq) != seq,
        settled_seq(seq) != seq,
        settled_seq(seq) != writing_seq(seq),
{
    let next = seq.wrapping_add(1);
    assert((next | 1) % 2 == 1) by (bit_vector);
    assert((next | 1) == next || (next | 1) == next + 1) by (bit_vector);
    assert(next % 2 == 1 ==> (next | 1) == next) by (bit_vector);
    assert(next % 2 == 0 ==> (next | 1) == next + 1) by (bit_vector);
}

/// After so many writes from an even number the sequence number is two further for each, in the 32
/// bits there are for it. A tile starts at zero.
pub proof fn each_write_moves_the_sequence_by_two(tile: Tile, writes: nat)
    requires
        tile.seq % 2 == 0,
    ensures
        tile.after_publishes(writes).seq == (tile.seq + 2 * writes) % 0x1_0000_0000,
        tile.after_publishes(writes).seq % 2 == 0,
    decreases writes,
{
    if writes > 0 {
        each_write_moves_the_sequence_by_two(tile, (writes - 1) as nat);
        the_sequence_is_a_seqlock(tile.after_publishes((writes - 1) as nat).seq);
    }
}

/// The number that four bytes stand for, lowest first.
pub open spec fn number_at(bytes: Seq<u8>, at: int) -> int {
    bytes[at] + bytes[at + 1] * 0x100 + bytes[at + 2] * 0x1_0000 + bytes[at + 3] * 0x100_0000
}

/// A reader finds each of a header's numbers where the layout says it is.
pub proof fn a_header_reads_back(seq: u32, source: (u32, u32), tile: (u32, u32), field: int)
    requires
        0 <= field < 8,
    ensures
        header_bytes(seq, source, tile).len() == HEADER,
        number_at(header_bytes(seq, source, tile), field * 4) == header_fields(
            seq,
            source,
            tile,
        )[field],
{
    let bytes = header_bytes(seq, source, tile);
    let n = header_fields(seq, source, tile)[field];
    assert(bytes[field * 4] == le_bytes(n)[0]);
    assert(bytes[field * 4 + 1] == le_bytes(n)[1]);
    assert(bytes[field * 4 + 2] == le_bytes(n)[2]);
    assert(bytes[field * 4 + 3] == le_bytes(n)[3]);
}

/// The nearest coordinate is always one the source has.
pub proof fn the_nearest_pixel_is_in_the_source(at: int, source: int, tile: int)
    requires
        0 <= at < tile,
        source > 0,
    ensures
        0 <= nearest(at, source, tile) < source,
{
    assert(at * source + source / 2 >= 0) by (nonlinear_arith)
        requires
            at >= 0,
            source > 0,
    ;
    vstd::arithmetic::div_mod::lemma_div_pos_is_pos(at * source + source / 2, tile);
}

/// Scaling to the size an image already has changes nothing.
pub proof fn scaling_to_the_same_size_changes_nothing(pixels: Seq<u8>, size: (u32, u32))
    requires
        pixels.len() == size.0 * size.1 * 4,
    ensures
        scaled(pixels, size, size) == pixels,
{
    let w = size.0 as int;
    let h = size.1 as int;
    assert forall|k: int| 0 <= k < pixels.len() implies #[trigger] scaled(pixels, size, size)[k]
        == pixels[k] by {
        assert(w > 0 && h > 0) by (nonlinear_arith)
            requires
                0 < w * h * 4,
                w >= 0,
                h >= 0,
        ;
        let p = k / 4;
        let x = p % w;
        let y = p / w;
        assert(p < w * h);
        assert(0 <= y < h) by {
            vstd::arithmetic::div_mod::lemma_multiply_divide_lt(p, w, h);
            vstd::arithmetic::div_mod::lemma_div_pos_is_pos(p, w);
            assert(h * w == w * h) by (nonlinear_arith);
        }
        vstd::arithmetic::div_mod::lemma_mod_bound(p, w);
        lemma_nearest_is_itself(x, w);
        lemma_nearest_is_itself(y, h);
        vstd::arithmetic::div_mod::lemma_fundamental_div_mod(p, w);
        assert(w * y == y * w) by (nonlinear_arith);
        assert(sampled_from(size, size, x, y) == p * 4);
        assert(p * 4 + 4 <= pixels.len());
    }
    assert(scaled(pixels, size, size).len() == pixels.len());
    assert(scaled(pixels, size, size) =~= pixels);
}

proof fn lemma_nearest_is_itself(at: int, size: int)
    requires
        0 <= at < size,
    ensures
        nearest(at, size, size) == at,
{
    vstd::arithmetic::div_mod::lemma_fundamental_div_mod_converse(
        at * size + size / 2,
        size,
        at,
        size / 2,
    );
}

/// The sources take turns: within one round no tile has two.
pub proof fn the_tiles_take_turns(previews: Previews, j: nat, k: nat)
    requires
        j < k < previews.tiles@.len(),
        previews.cursor + previews.tiles@.len() <= usize::MAX,
    ensures
        previews.turn(j) != previews.turn(k),
        0 <= previews.turn(j) < previews.tiles@.len(),
{
    let n = previews.tiles@.len() as int;
    let c = previews.cursor as int;
    lemma_advanced(previews.cursor, j);
    lemma_advanced(previews.cursor, k);
    vstd::arithmetic::div_mod::lemma_mod_bound(c + j, n);
    lemma_places_differ(c + j, c + k, n);
}

/// No source is left out: every tile has a turn within one round.
pub proof fn every_tile_has_a_turn(previews: Previews, tile: int)
    requires
        0 <= tile < previews.tiles@.len(),
        previews.cursor + previews.tiles@.len() <= usize::MAX,
    ensures
        exists|k: nat| k < previews.tiles@.len() && #[trigger] previews.turn(k) == tile,
{
    let place = lemma_place(previews.cursor as int, previews.tiles@.len() as int, tile);
    let k = (place - previews.cursor) as nat;
    lemma_advanced(previews.cursor, k);
    assert(previews.turn(k) == tile);
}

/// Where a tile ahead can be asked, a turn goes no further than that tile.
proof fn lemma_turn_reaches(
    previews: Previews,
    captures: Seq<Capture>,
    ask: Option<Ask>,
    after: Previews,
    ahead: int,
)
    requires
        previews.is_next(captures, ask, after),
        previews.cursor <= ahead < previews.cursor + previews.tiles@.len(),
        ahead < usize::MAX,
        previews.ready_at(captures, tile_at(ahead, previews.tiles@.len() as int)) is Some,
    ensures
        ask is Some,
        previews.cursor < after.cursor <= ahead + 1,
        after.tiles == previews.tiles,
        0 <= after.last_turn() < previews.tiles@.len(),
        previews.ready_at(captures, after.last_turn()) == Some(
            (ask->0.capture as int, ask->0.constraints),
        ),
        forall|y: int|
            previews.cursor <= y < after.cursor - 1 ==> previews.ready_at(
                captures,
                #[trigger] tile_at(y, previews.tiles@.len() as int),
            ) is None,
{
    let n = previews.tiles@.len() as int;
    let c = previews.cursor as int;
    let reach = (ahead - c) as nat;
    lemma_advanced(previews.cursor, reach);
    assert(previews.turn(reach) == ahead % n);
    match ask {
        Some(ask) => {
            let k = choose|k: nat|
                {
                    &&& k < previews.tiles@.len()
                    &&& previews.none_ready(captures, k)
                    &&& previews.ready_at(captures, #[trigger] previews.turn(k)) == Some(
                        (ask.capture as int, ask.constraints),
                    )
                    &&& ask.needed == frame_bytes(ask.constraints)
                    &&& ask.grow == match previews.scratch {
                        Some(length) => length < ask.needed,
                        None => true,
                    }
                    &&& after == Previews {
                        cursor: advanced(previews.cursor, k + 1),
                        ..previews
                    }
                };
            assert(k <= reach);
            lemma_advanced(previews.cursor, k);
            lemma_advanced(previews.cursor, k + 1);
            assert(after.last_turn() == previews.turn(k));
            vstd::arithmetic::div_mod::lemma_mod_bound(c + k, n);
            assert forall|y: int| c <= y < after.cursor - 1 implies previews.ready_at(
                captures,
                #[trigger] tile_at(y, n),
            ) is None by {
                let j = (y - c) as nat;
                lemma_advanced(previews.cursor, j);
                assert(previews.turn(j) == y % n);
            }
        },
        None => {
            assert(reach < previews.tiles@.len());
        },
    }
}

/// A tile comes up within one round from anywhere.
proof fn lemma_place(from: int, tiles: int, tile: int) -> (place: int)
    requires
        0 <= tile < tiles,
        from >= 0,
    ensures
        from <= place < from + tiles,
        tile_at(place, tiles) == tile,
{
    let r = from % tiles;
    let q = from / tiles;
    vstd::arithmetic::div_mod::lemma_fundamental_div_mod(from, tiles);
    vstd::arithmetic::div_mod::lemma_mod_bound(from, tiles);
    assert(tiles * q == q * tiles) by (nonlinear_arith);
    if tile >= r {
        lemma_fundamental_div_mod_converse(from + tile - r, tiles, q, tile);
        from + tile - r
    } else {
        assert((q + 1) * tiles == q * tiles + tiles) by (nonlinear_arith);
        lemma_fundamental_div_mod_converse(from + tile - r + tiles, tiles, q + 1, tile);
        from + tile - r + tiles
    }
}

/// Two places less than a round apart are different tiles.
proof fn lemma_places_differ(a: int, b: int, tiles: int)
    requires
        a < b < a + tiles,
    ensures
        tile_at(a, tiles) != tile_at(b, tiles),
{
    if a % tiles == b % tiles {
        vstd::arithmetic::div_mod::lemma_fundamental_div_mod(a, tiles);
        vstd::arithmetic::div_mod::lemma_fundamental_div_mod(b, tiles);
        let x = a / tiles;
        let y = b / tiles;
        assert(tiles * (y - x) == tiles * y - tiles * x) by (nonlinear_arith);
        assert(false) by (nonlinear_arith)
            requires
                tiles * (y - x) == b - a,
                0 < b - a,
                b - a < tiles,
        ;
    }
}

/// What a turn asks for, where every capture is free: one frame if any tile can be asked, of the
/// first such tile from the cursor on, with the cursor left just past it. Nothing otherwise. A
/// tile that cannot be asked holds up none of the others.
pub proof fn a_turn_asks_the_next_ready_source(
    previews: Previews,
    wayland: Wayland,
    ask: Option<Ask>,
    after: Previews,
    left: Wayland,
)
    requires
        previews.is_turn(wayland, ask, after, left),
        previews.all_idle(wayland),
        previews.cursor + previews.tiles@.len() <= usize::MAX,
    ensures
        ask is None <==> previews.ready_tiles(wayland.captures@) == Set::<int>::empty(),
        ask is None ==> left == wayland,
        ask matches Some(ask) ==> {
            let ready = previews.ready_tiles(wayland.captures@);
            let before = wayland.captures@[ask.capture as int];
            &&& previews.cursor < after.cursor <= previews.cursor + previews.tiles@.len()
            &&& ready.contains(after.last_turn())
            &&& forall|y: int|
                previews.cursor <= y < after.cursor - 1 ==> !ready.contains(
                    #[trigger] tile_at(y, previews.tiles@.len() as int),
                )
            &&& previews.ready_at(wayland.captures@, after.last_turn()) == Some(
                (ask.capture as int, ask.constraints),
            )
            &&& goes(wayland, ask, true)
            &&& before.frame is None && before.after_request().frame is Some
            &&& left.captures@ == wayland.captures@.update(
                ask.capture as int,
                before.after_request(),
            )
        },
{
    let captures = wayland.captures@;
    let ready = previews.ready_tiles(captures);
    let n = previews.tiles@.len() as int;
    let middle = Previews { cursor: after.cursor, ..previews };
    if ready =~= Set::<int>::empty() {
        if ask is Some {
            let k = choose|k: nat|
                k < previews.tiles@.len() && previews.ready_at(
                    captures,
                    #[trigger] previews.turn(k),
                ) is Some;
            lemma_advanced(previews.cursor, k);
            vstd::arithmetic::div_mod::lemma_mod_bound(previews.cursor + k, n);
            assert(ready.contains(previews.turn(k)));
        }
    } else {
        let tile = choose|tile: int| ready.contains(tile);
        assert(ready.contains(tile));
        let place = lemma_place(previews.cursor as int, n, tile);
        lemma_turn_reaches(previews, captures, ask, middle, place);
        assert(middle.last_turn() == after.last_turn());
    }
}

/// Whether these are turns one after the other, with memory to be had and the same tiles ready
/// and free at each.
pub open spec fn are_turns(
    starts: Seq<Previews>,
    waylands: Seq<Wayland>,
    asks: Seq<Option<Ask>>,
    afters: Seq<Previews>,
    lefts: Seq<Wayland>,
    ready: Set<int>,
) -> bool {
    &&& starts.len() == waylands.len() == asks.len() == afters.len() == lefts.len()
    &&& forall|i: int|
        0 <= i < starts.len() ==> {
            &&& (#[trigger] starts[i]).is_turn(waylands[i], asks[i], afters[i], lefts[i])
            &&& starts[i].all_idle(waylands[i])
            &&& starts[i].tiles@.len() == starts[0].tiles@.len()
            &&& starts[i].ready_tiles(waylands[i].captures@) == ready
        }
    // Each turn goes on where the one before it stopped.
    &&& forall|i: int|
        0 < i < starts.len() ==> (#[trigger] starts[i]).cursor == afters[i - 1].cursor
}

/// The tiles that had these turns.
pub open spec fn turns_had(afters: Seq<Previews>) -> Seq<int> {
    Seq::new(afters.len(), |i: int| afters[i].last_turn())
}

/// Whether a turn from one place in the rotation to another stops just past the first ready tile,
/// if there is one ahead.
spec fn stops_past_ready(tiles: int, ready: Set<int>, from: int, to: int) -> bool {
    forall|ahead: int|
        from <= ahead < from + tiles && ahead < usize::MAX && ready.contains(
            #[trigger] tile_at(ahead, tiles),
        ) ==> {
            &&& from < to <= ahead + 1
            &&& ready.contains(tile_at(to - 1, tiles))
            &&& none_between(tiles, ready, from, to - 1)
        }
}

spec fn none_between(tiles: int, ready: Set<int>, from: int, to: int) -> bool {
    forall|y: int| from <= y < to ==> !ready.contains(#[trigger] tile_at(y, tiles))
}

/// The tiles just before each of these places but the first.
spec fn passed(places: Seq<int>, tiles: int) -> Seq<int> {
    Seq::new((places.len() - 1) as nat, |i: int| tile_at(places[i + 1] - 1, tiles))
}

/// Turns that each stop past the next ready tile pass different tiles, as long as there are ready
/// ones left, and between them leave none out.
proof fn lemma_round(places: Seq<int>, tiles: int, ready: Set<int>)
    requires
        places.len() > 0,
        places.len() - 1 <= ready.len(),
        ready.finite(),
        forall|t: int| ready.contains(t) ==> 0 <= t < tiles,
        0 <= places[0],
        0 <= tiles,
        places[0] + tiles <= usize::MAX,
        forall|i: int|
            0 <= i < places.len() - 1 ==> stops_past_ready(
                tiles,
                ready,
                #[trigger] places[i],
                places[i + 1],
            ),
    ensures
        places[0] <= places.last() <= places[0] + tiles,
        passed(places, tiles).no_duplicates(),
        forall|t: int| passed(places, tiles).contains(t) ==> ready.contains(t),
        forall|i: int| 0 < i < places.len() ==> places[0] < #[trigger] places[i] <= places.last(),
        forall|y: int|
            places[0] <= y < places.last() && ready.contains(#[trigger] tile_at(y, tiles))
                ==> passed(places, tiles).contains(tile_at(y, tiles)),
        forall|i: int|
            0 <= i < places.len() - 1 ==> places[0] <= #[trigger] places[i] < places[i + 1],
    decreases places.len(),
{
    let all = passed(places, tiles);
    if places.len() > 1 {
        let before = places.drop_last();
        let had = passed(before, tiles);
        assert forall|i: int| 0 <= i < before.len() - 1 implies stops_past_ready(
            tiles,
            ready,
            #[trigger] before[i],
            before[i + 1],
        ) by {
            assert(before[i] == places[i] && before[i + 1] == places[i + 1]);
        }
        lemma_round(before, tiles, ready);
        let from = before.last();
        let to = places.last();
        assert(from == places[places.len() - 2]);
        let tile = lemma_one_left(had, ready);
        let place = lemma_place(places[0], tiles, tile);
        assert(tile_at(place, tiles) == tile);
        assert(place >= from);
        assert(stops_past_ready(tiles, ready, from, to));
        assert(from < to <= place + 1);
        assert(all =~= had.push(tile_at(to - 1, tiles)));
        assert(all[had.len() as int] == tile_at(to - 1, tiles));
        assert forall|i: int| 0 <= i < had.len() implies had[i] != tile_at(to - 1, tiles) by {
            assert(had[i] == tile_at(before[i + 1] - 1, tiles));
            assert(places[0] < before[i + 1] <= from);
            lemma_places_differ(before[i + 1] - 1, to - 1, tiles);
        }
        assert forall|t: int| all.contains(t) implies ready.contains(t) by {
            let i = choose|i: int| 0 <= i < all.len() && all[i] == t;
            if i < had.len() {
                assert(had[i] == t);
                assert(had.contains(t));
            }
        }
        assert forall|i: int| 0 <= i < places.len() - 1 implies places[0] <= #[trigger] places[i]
            < places[i + 1] by {
            if i < before.len() - 1 {
                assert(places[i] == before[i] && places[i + 1] == before[i + 1]);
            }
        }
        assert forall|i: int| 0 < i < places.len() implies places[0] < #[trigger] places[i]
            <= to by {
            if i < before.len() {
                assert(places[i] == before[i]);
            }
        }
        assert forall|y: int|
            places[0] <= y < to && ready.contains(#[trigger] tile_at(y, tiles)) implies all.contains(
            tile_at(y, tiles),
        ) by {
            if y < from {
                assert(had.contains(tile_at(y, tiles)));
                let i = choose|i: int| 0 <= i < had.len() && had[i] == tile_at(y, tiles);
                assert(all[i] == had[i]);
            } else {
                assert(none_between(tiles, ready, from, to - 1));
                assert(y == to - 1);
            }
        }
    }
}

/// With fewer tiles had than are ready, one is left.
proof fn lemma_one_left(had: Seq<int>, ready: Set<int>) -> (tile: int)
    requires
        ready.finite(),
        had.len() < ready.len(),
    ensures
        ready.contains(tile),
        !had.contains(tile),
{
    had.lemma_cardinality_of_set();
    vstd::seq_lib::seq_to_set_is_finite(had);
    if !exists|t: int| ready.contains(t) && !had.contains(t) {
        assert(ready.subset_of(had.to_set()));
        vstd::set_lib::lemma_len_subset(ready, had.to_set());
    }
    choose|t: int| ready.contains(t) && !had.contains(t)
}

/// A turn stops past the first ready tile ahead.
proof fn lemma_turn_stops(
    previews: Previews,
    captures: Seq<Capture>,
    ask: Option<Ask>,
    after: Previews,
)
    requires
        previews.is_next(captures, ask, after),
    ensures
        stops_past_ready(
            previews.tiles@.len() as int,
            previews.ready_tiles(captures),
            previews.cursor as int,
            after.cursor as int,
        ),
{
    let n = previews.tiles@.len() as int;
    let ready = previews.ready_tiles(captures);
    let from = previews.cursor as int;
    let to = after.cursor as int;
    assert forall|ahead: int|
        from <= ahead < from + n && ahead < usize::MAX && ready.contains(
            #[trigger] tile_at(ahead, n),
        ) implies {
        &&& from < to <= ahead + 1
        &&& ready.contains(tile_at(to - 1, n))
        &&& none_between(n, ready, from, to - 1)
    } by {
        lemma_turn_reaches(previews, captures, ask, after, ahead);
        assert(tile_at(to - 1, n) == after.last_turn());
    }
}

proof fn lemma_ready_is_finite(previews: Previews, captures: Seq<Capture>)
    ensures
        previews.ready_tiles(captures).finite(),
{
    let all = vstd::set_lib::set_int_range(0, previews.tiles@.len() as int);
    vstd::set_lib::lemma_int_range(0, previews.tiles@.len() as int);
    assert(previews.ready_tiles(captures).subset_of(all));
    vstd::set_lib::lemma_set_subset_finite(all, previews.ready_tiles(captures));
}

/// As many turns in a row as there are tiles that can be asked ask each of them exactly once,
/// whatever the others are doing: a frame of each is asked for, of its own source, and no other
/// capture is touched.
pub proof fn a_round_asks_every_ready_source_once(
    starts: Seq<Previews>,
    waylands: Seq<Wayland>,
    asks: Seq<Option<Ask>>,
    afters: Seq<Previews>,
    lefts: Seq<Wayland>,
    ready: Set<int>,
)
    requires
        are_turns(starts, waylands, asks, afters, lefts, ready),
        0 < starts.len() == ready.len(),
        starts[0].cursor + starts[0].tiles@.len() <= usize::MAX,
    ensures
        turns_had(afters).no_duplicates(),
        turns_had(afters).to_set() == ready,
        forall|i: int|
            0 <= i < starts.len() ==> {
                let captures = waylands[i].captures@;
                &&& (#[trigger] asks[i]) matches Some(ask) && {
                    &&& 0 <= ask.capture < captures.len()
                    &&& captures[ask.capture as int].purpose == Purpose::Preview
                    &&& captures[ask.capture as int].source_id@
                        == starts[i].tiles@[turns_had(afters)[i]].source_id@
                    &&& goes(waylands[i], ask, true)
                    &&& captures[ask.capture as int].after_request().frame is Some
                    &&& lefts[i].captures@ == captures.update(
                        ask.capture as int,
                        captures[ask.capture as int].after_request(),
                    )
                }
            },
{
    let m = starts.len() as int;
    let n = starts[0].tiles@.len() as int;
    let had = turns_had(afters);
    let places = Seq::new(
        starts.len() + 1,
        |i: int|
            if i == 0 {
                starts[0].cursor as int
            } else {
                afters[i - 1].cursor as int
            },
    );
    lemma_ready_is_finite(starts[0], waylands[0].captures@);
    assert(starts[0].ready_tiles(waylands[0].captures@) == ready);
    assert forall|i: int| 0 <= i < places.len() - 1 implies stops_past_ready(
        n,
        ready,
        #[trigger] places[i],
        places[i + 1],
    ) by {
        lemma_turn_stops(
            starts[i],
            waylands[i].captures@,
            asks[i],
            Previews { cursor: afters[i].cursor, ..starts[i] },
        );
    }
    lemma_round(places, n, ready);
    assert forall|i: int| 0 <= i < m implies #[trigger] had[i] == passed(places, n)[i] by {
        assert(starts[i].is_turn(waylands[i], asks[i], afters[i], lefts[i]));
        assert(afters[i].tiles == starts[i].tiles);
    }
    assert(had =~= passed(places, n));
    had.unique_seq_to_set();
    vstd::seq_lib::seq_to_set_is_finite(had);
    vstd::set_lib::lemma_subset_equality(had.to_set(), ready);
    assert forall|i: int| 0 <= i < m implies {
        let captures = waylands[i].captures@;
        &&& (#[trigger] asks[i]) matches Some(ask) && {
            &&& 0 <= ask.capture < captures.len()
            &&& captures[ask.capture as int].purpose == Purpose::Preview
            &&& captures[ask.capture as int].source_id@ == starts[i].tiles@[had[i]].source_id@
            &&& goes(waylands[i], ask, true)
            &&& captures[ask.capture as int].after_request().frame is Some
            &&& lefts[i].captures@ == captures.update(
                ask.capture as int,
                captures[ask.capture as int].after_request(),
            )
        }
    } by {
        let captures = waylands[i].captures@;
        assert(had[i] == afters[i].last_turn());
        assert(starts[i].is_turn(waylands[i], asks[i], afters[i], lefts[i]));
        assert(had.contains(had[i]));
        assert(starts[i].ready_tiles(waylands[i].captures@).contains(had[i]));
        assert(places[i] < places[i + 1] <= places.last());
        lemma_turn_reaches(
            starts[i],
            captures,
            asks[i],
            Previews { cursor: afters[i].cursor, ..starts[i] },
            afters[i].cursor - 1,
        );
        assert(starts[i].all_idle(waylands[i]));
        crate::list::lemma_first(
            captures,
            is_for(Purpose::Preview, starts[i].tiles@[had[i]].source_id@),
        );
    }
}

proof fn lemma_advanced(cursor: usize, turns: nat)
    requires
        cursor + turns <= usize::MAX,
    ensures
        advanced(cursor, turns) == cursor + turns,
    decreases turns,
{
    if turns > 0 {
        lemma_advanced(cursor, (turns - 1) as nat);
    }
}

/// What goes into a filename is plainly safe: letters, digits, dashes and underscores. So a
/// preview's file is right inside its directory.
pub proof fn a_sanitized_id_is_safe(id: Seq<char>)
    ensures
        sanitized(id).len() == id.len(),
        forall|i: int|
            0 <= i < id.len() ==> {
                let c = #[trigger] sanitized(id)[i];
                ascii_alphanumeric(c) || c == '-' || c == '_'
            },
        sanitized(sanitized(id)) == sanitized(id),
{
    assert(sanitized(sanitized(id)) =~= sanitized(id));
}

/// Once the previews are closed, nothing is captured for them any more, and everything else still
/// is.
pub proof fn closing_leaves_the_casts(captures: Seq<Capture>)
    ensures
        forall|i: int|
            0 <= i < captures.filter(not_preview()).len() ==> (#[trigger] captures.filter(
                not_preview(),
            )[i]).purpose == Purpose::Cast,
        forall|i: int|
            0 <= i < captures.len() && (#[trigger] captures[i]).purpose == Purpose::Cast
                ==> captures.filter(not_preview()).contains(captures[i]),
{
    crate::list::lemma_filter_members(captures, not_preview());
    let left = captures.filter(not_preview());
    assert forall|i: int| 0 <= i < left.len() implies (#[trigger] left[i]).purpose
        == Purpose::Cast by {
        assert(not_preview()(left[i]));
    }
    assert forall|i: int|
        0 <= i < captures.len() && (#[trigger] captures[i]).purpose == Purpose::Cast implies left.contains(
        captures[i],
    ) by {
        assert(not_preview()(captures[i]));
    }
}

/// A reader finds in a header the four letters it looks for, the version, the tile's width and
/// height, how many bytes a row takes, the format, the sequence number, and the source's own width
/// and height, in that order.
pub proof fn a_header_says_what_it_is_of(seq: u32, source: (u32, u32), tile: (u32, u32))
    requires
        tile.0 * 4 <= u32::MAX,
    ensures
        ({
            let bytes = header_bytes(seq, source, tile);
            &&& bytes.len() == 32
            &&& bytes[0] == 87 && bytes[1] == 76 && bytes[2] == 82 && bytes[3] == 88
            &&& number_at(bytes, 4) == 1
            &&& number_at(bytes, 8) == tile.0
            &&& number_at(bytes, 12) == tile.1
            &&& number_at(bytes, 16) == 4 * tile.0
            &&& number_at(bytes, 20) == 0
            &&& number_at(bytes, 24) == seq
            &&& number_at(bytes, 28) == (source.0 as int % 65536) * 65536 + source.1 as int % 65536
        }),
{
    let bytes = header_bytes(seq, source, tile);
    let fields = header_fields(seq, source, tile);
    assert(bytes[0] == 87 && bytes[1] == 76 && bytes[2] == 82 && bytes[3] == 88) by {
        lemma_header_byte(seq, source, tile, 0, 0);
        lemma_header_byte(seq, source, tile, 0, 1);
        lemma_header_byte(seq, source, tile, 0, 2);
        lemma_header_byte(seq, source, tile, 0, 3);
        assert(le_bytes(0x5852_4c57) =~= seq![87u8, 76, 82, 88]);
    }
    assert(number_at(bytes, 4) == fields[1]) by {
        a_header_reads_back(seq, source, tile, 1);
    }
    assert(number_at(bytes, 8) == fields[2]) by {
        a_header_reads_back(seq, source, tile, 2);
    }
    assert(number_at(bytes, 12) == fields[3]) by {
        a_header_reads_back(seq, source, tile, 3);
    }
    assert(number_at(bytes, 16) == fields[4]) by {
        a_header_reads_back(seq, source, tile, 4);
    }
    assert(number_at(bytes, 20) == fields[5]) by {
        a_header_reads_back(seq, source, tile, 5);
    }
    assert(number_at(bytes, 24) == fields[6]) by {
        a_header_reads_back(seq, source, tile, 6);
    }
    assert(number_at(bytes, 28) == fields[7]) by {
        a_header_reads_back(seq, source, tile, 7);
    }
    lemma_packed(source.0, source.1);
}

/// Where each byte of a header comes from.
proof fn lemma_header_byte(seq: u32, source: (u32, u32), tile: (u32, u32), field: int, byte: int)
    requires
        0 <= field < 8,
        0 <= byte < 4,
    ensures
        header_bytes(seq, source, tile)[field * 4 + byte] == le_bytes(
            header_fields(seq, source, tile)[field],
        )[byte],
{
}

/// Two sizes in one number: the lower half of the second below that of the first.
proof fn lemma_packed(w: u32, h: u32)
    ensures
        ((w << 16u32) | (h & 0xffff)) == (w as int % 65536) * 65536 + h as int % 65536,
{
    assert(((w << 16u32) | (h & 0xffff)) == (w % 65536) * 65536 + h % 65536) by (bit_vector);
}

/// The nearest source coordinate is the one that the middle of the source, stretched over the
/// tile, puts there; it is the last one where that would be past the end; and it never goes back
/// as the tile's goes on.
pub proof fn the_nearest_pixel_is_where_it_would_be(
    at: int,
    later: int,
    source: int,
    tile: int,
)
    requires
        0 <= at <= later < tile,
        source > 0,
    ensures
        ({
            let n = nearest(at, source, tile);
            &&& n * tile <= at * source + source / 2
            &&& n < source - 1 ==> at * source + source / 2 < (n + 1) * tile
            &&& n <= nearest(later, source, tile)
        }),
{
    let x = at * source + source / 2;
    let y = later * source + source / 2;
    assert(0 <= x <= y) by {
        assert(0 <= at * source <= later * source) by (nonlinear_arith)
            requires
                0 <= at <= later,
                source > 0,
        ;
    }
    vstd::arithmetic::div_mod::lemma_fundamental_div_mod(x, tile);
    vstd::arithmetic::div_mod::lemma_mod_bound(x, tile);
    vstd::arithmetic::div_mod::lemma_div_is_ordered(x, y, tile);
    let q = x / tile;
    let n = nearest(at, source, tile);
    assert(n <= q);
    assert(n * tile <= q * tile) by (nonlinear_arith)
        requires
            n <= q,
            tile > 0,
    ;
    assert(q * tile == tile * q) by (nonlinear_arith);
    assert((q + 1) * tile == tile * q + tile) by (nonlinear_arith);
}

/// Each byte of a tile is that of the source pixel nearest to it, in the same channel: row `y`,
/// column `x` of the tile is the source's row nearest to `y` and column nearest to `x`.
pub proof fn a_tile_shows_the_nearest_pixels(
    pixels: Seq<u8>,
    source: (u32, u32),
    tile: (u32, u32),
    x: int,
    y: int,
    channel: int,
)
    requires
        0 <= x < tile.0,
        0 <= y < tile.1,
        0 <= channel < 4,
        source.0 > 0 && source.1 > 0,
        pixels.len() >= source.0 * source.1 * 4,
    ensures
        ({
            let row = nearest(y, source.1 as int, tile.1 as int);
            let column = nearest(x, source.0 as int, tile.0 as int);
            let at = (y * tile.0 + x) * 4 + channel;
            &&& 0 <= at < scaled(pixels, source, tile).len()
            &&& scaled(pixels, source, tile)[at] == pixels[(row * source.0 + column) * 4 + channel]
        }),
        scaled(pixels, source, tile).len() == tile.0 * tile.1 * 4,
{
    let (tw, th) = (tile.0 as int, tile.1 as int);
    let (sw, sh) = (source.0 as int, source.1 as int);
    let at = (y * tw + x) * 4 + channel;
    let row = nearest(y, sh, th);
    let column = nearest(x, sw, tw);
    the_nearest_pixel_is_in_the_source(y, sh, th);
    the_nearest_pixel_is_in_the_source(x, sw, tw);
    assert(0 <= y * tw && y * tw + x < tw * th) by (nonlinear_arith)
        requires
            0 <= x < tw,
            0 <= y < th,
    ;
    assert(0 <= tw * th * 4);
    assert(at / 4 == y * tw + x && at % 4 == channel);
    lemma_fundamental_div_mod_converse(y * tw + x, tw, y, x);
    assert(row * sw + column < sw * sh) by (nonlinear_arith)
        requires
            0 <= column < sw,
            0 <= row < sh,
    ;
    assert(0 <= row * sw) by (nonlinear_arith)
        requires
            0 <= row,
            0 <= sw,
    ;
    assert(sampled_from(source, tile, x, y) == (row * sw + column) * 4);
}

/// Where the source has no pixel there is black: all of it for an empty source.
pub proof fn a_tile_of_nothing_is_black(
    pixels: Seq<u8>,
    source: (u32, u32),
    tile: (u32, u32),
    at: int,
)
    requires
        0 <= at < scaled(pixels, source, tile).len(),
        source.0 == 0 || source.1 == 0 || pixels.len() == 0,
    ensures
        scaled(pixels, source, tile)[at] == 0,
{
    if source.0 > 0 && source.1 > 0 {
        let (tw, th) = (tile.0 as int, tile.1 as int);
        let x = at / 4 % tw;
        let y = at / 4 / tw;
        assert(tw * th * 4 > 0);
        assert(tw > 0 && th > 0) by (nonlinear_arith)
            requires
                tw * th * 4 > 0,
                tw >= 0,
                th >= 0,
        ;
        vstd::arithmetic::div_mod::lemma_mod_bound(at / 4, tw);
        vstd::arithmetic::div_mod::lemma_div_pos_is_pos(at / 4, tw);
        assert(at / 4 < tw * th);
        assert(tw * th == th * tw) by (nonlinear_arith);
        vstd::arithmetic::div_mod::lemma_div_by_multiple_is_strongly_ordered(
            at / 4,
            th * tw,
            th,
            tw,
        );
        vstd::arithmetic::div_mod::lemma_div_by_multiple(th, tw);
        the_nearest_pixel_is_in_the_source(x, source.0 as int, tw);
        the_nearest_pixel_is_in_the_source(y, source.1 as int, th);
        let row = nearest(y, source.1 as int, th);
        let sw = source.0 as int;
        assert(0 <= row * sw) by (nonlinear_arith)
            requires
                0 <= row,
                0 <= sw,
        ;
    }
}

/// What is published is one image between two headers that differ in nothing but their sequence
/// numbers, the first of which says that a write is going on and the second that it is over.
pub proof fn a_publication_brackets_its_pixels(
    before: Tile,
    pixels: Seq<u8>,
    source: (u32, u32),
    tile: (u32, u32),
    publication: Publication,
)
    requires
        before.is_publication(pixels, source, tile, publication),
        tile.0 * 4 <= u32::MAX,
    ensures
        publication.writing@.len() == 32 && publication.settled@.len() == 32,
        publication.pixels@.len() == tile.0 * tile.1 * 4,
        number_at(publication.writing@, 24) % 2 == 1,
        number_at(publication.settled@, 24) % 2 == 0,
        number_at(publication.settled@, 24) == (number_at(publication.writing@, 24) + 1)
            % 0x1_0000_0000,
        number_at(publication.settled@, 24) == before.after_publish().seq,
        number_at(publication.writing@, 8) == tile.0 && number_at(publication.settled@, 8)
            == tile.0,
        number_at(publication.writing@, 12) == tile.1 && number_at(publication.settled@, 12)
            == tile.1,
        before.after_publish().source_id == before.source_id && before.after_publish().path
            == before.path,
{
    let (a, b) = (writing_seq(before.seq), settled_seq(before.seq));
    assert(number_at(publication.writing@, 24) == a && number_at(publication.writing@, 8) == tile.0
        && number_at(publication.writing@, 12) == tile.1 && publication.writing@.len() == 32) by {
        a_header_says_what_it_is_of(a, source, tile);
    }
    assert(number_at(publication.settled@, 24) == b && number_at(publication.settled@, 8) == tile.0
        && number_at(publication.settled@, 12) == tile.1 && publication.settled@.len() == 32) by {
        a_header_says_what_it_is_of(b, source, tile);
    }
    the_sequence_is_a_seqlock(before.seq);
    assert(0 <= tile.0 * tile.1) by (nonlinear_arith);
}

/// A letter, a digit, a dash and an underscore are kept in a filename, and everything else is an
/// underscore.
pub proof fn only_what_is_unsafe_is_replaced(id: Seq<char>, i: int)
    requires
        0 <= i < id.len(),
    ensures
        sanitized(id).len() == id.len(),
        'a' <= id[i] <= 'z' || 'A' <= id[i] <= 'Z' || '0' <= id[i] <= '9' || id[i] == '-' || id[i]
            == '_' ==> sanitized(id)[i] == id[i],
        !('a' <= id[i] <= 'z' || 'A' <= id[i] <= 'Z' || '0' <= id[i] <= '9' || id[i] == '-')
            ==> sanitized(id)[i] == '_',
        preview_name(id) == "preview-"@ + sanitized(id) + ".raw"@,
{
}

/// The thumbnails start out with the first source's turn, nothing asked for, nothing written and
/// the configured tick and size; and each source has its own file right below the directory.
pub proof fn the_thumbnails_start_out_so(
    previews: Previews,
    dir: Seq<u8>,
    sources: Seq<(String, bool)>,
    config: Preview,
    i: int,
)
    requires
        previews.is_new(dir, sources, config),
        0 <= i < sources.len(),
    ensures
        previews.dir@ == dir,
        previews.cursor == 0 && previews.last_tick is None && previews.scratch is None,
        previews.tick == config.tick && previews.tile_size.0 == config.tile.0
            && previews.tile_size.1 == config.tile.1,
        previews.tiles@.len() == sources.len(),
        previews.tiles@[i].source_id@ == sources[i].0@,
        previews.tiles@[i].path@ == inside(
            dir,
            encode_utf8("preview-"@ + sanitized(sources[i].0@) + ".raw"@),
        ),
        previews.tiles@[i].seq == 0,
        previews.due(0),
{
}

/// The next turn comes when the tick, in milliseconds, has passed since the last.
pub proof fn a_turn_comes_with_the_tick(previews: Previews, now: u64)
    ensures
        previews.last_tick is None ==> previews.due(now),
        previews.last_tick matches Some(last) ==> (previews.due(now) <==> now >= last
            + previews.tick * 1000000),
{
}

/// The turn comes where there is a tile, the tick has passed and no thumbnail is being captured.
pub proof fn one_thumbnail_is_captured_at_a_time(
    previews: Previews,
    captures: Seq<Capture>,
    now: u64,
    i: int,
)
    ensures
        previews.takes_turn(captures, now) ==> previews.tiles@.len() > 0 && previews.due(now),
        0 <= i < captures.len() && captures[i].purpose == Purpose::Preview && captures[i].frame
            is Some ==> !previews.takes_turn(captures, now),
        previews.tiles@.len() > 0 && previews.due(now) && (forall|j: int|
            0 <= j < captures.len() ==> (#[trigger] captures[j]).purpose == Purpose::Cast
                || captures[j].frame is None) ==> previews.takes_turn(captures, now),
{
    let p = preview_in_flight();
    if 0 <= i < captures.len() && captures[i].purpose == Purpose::Preview && captures[i].frame
        is Some {
        assert(p(captures[i]));
    }
}

/// What a tile has to publish is the frame of its own capture, at the size that capture has
/// settled on; and only one that came.
pub proof fn a_tile_publishes_its_own_frame(captures: Seq<Capture>, id: Seq<char>, i: int)
    requires
        0 <= i < captures.len(),
        captures[i].purpose == Purpose::Preview && captures[i].source_id@ == id,
        forall|j: int|
            0 <= j < i ==> (#[trigger] captures[j]).purpose != Purpose::Preview
                || captures[j].source_id@ != id,
    ensures
        captures[i].outcome == Some(Outcome::Ready) ==> (captures[i].constraints matches Some(c)
            ==> frame_for(captures, id) == Some((c.width, c.height))),
        captures[i].outcome != Some(Outcome::Ready) ==> frame_for(captures, id) is None,
        captures[i].constraints is None ==> frame_for(captures, id) is None,
        collected_one(captures, id).len() == captures.len(),
        collected_one(captures, id)[i].outcome is None,
        captures[i].outcome is Some ==> collected_one(captures, id)[i].frame is None,
{
    let p = is_for(Purpose::Preview, id);
    assert forall|j: int| 0 <= j < i implies !p(#[trigger] captures[j]) by {}
    crate::list::lemma_first_is(captures, p, i);
}

/// Collecting takes the outcomes of thumbnails and of nothing else: a cast is left as it was, and
/// what a thumbnail is of never changes.
pub proof fn collecting_leaves_the_casts(
    tiles: Seq<Tile>,
    captures: Seq<Capture>,
    n: int,
    i: int,
)
    requires
        0 <= n <= tiles.len(),
        0 <= i < captures.len(),
    ensures
        collected(tiles, captures, n).len() == captures.len(),
        captures[i].purpose == Purpose::Cast ==> collected(tiles, captures, n)[i] == captures[i],
        collected(tiles, captures, n)[i] == captures[i] || collected(tiles, captures, n)[i]
            == captures[i].after_take_outcome(),
        collected(tiles, captures, n)[i].source_id == captures[i].source_id && collected(
            tiles,
            captures,
            n,
        )[i].purpose == captures[i].purpose && collected(tiles, captures, n)[i].constraints
            == captures[i].constraints,
    decreases n,
{
    if n > 0 {
        collecting_leaves_the_casts(tiles, captures, n - 1, i);
        let before = collected(tiles, captures, n - 1);
        let p = is_for(Purpose::Preview, tiles[n - 1].source_id@);
        crate::list::lemma_first(before, p);
    }
}

/// A frame takes four bytes for each of its pixels.
pub proof fn a_frame_takes_four_bytes_a_pixel(constraints: Constraints)
    requires
        constraints.width <= i32::MAX,
        constraints.height <= i32::MAX,
    ensures
        frame_bytes(constraints) == constraints.width * constraints.height * 4,
{
}

/// Images of any ordinary size can be scaled.
pub proof fn ordinary_sizes_can_be_scaled(source: (u32, u32), tile: (u32, u32))
    requires
        source.0 <= 16384 && source.1 <= 16384,
        tile.0 <= 16384 && tile.1 <= 16384,
    ensures
        scalable(source, tile),
{
    assert(tile.0 * tile.1 <= 16384 * 16384) by (nonlinear_arith)
        requires
            0 <= tile.0 <= 16384,
            0 <= tile.1 <= 16384,
    ;
    assert(source.0 * source.1 <= 16384 * 16384) by (nonlinear_arith)
        requires
            0 <= source.0 <= 16384,
            0 <= source.1 <= 16384,
    ;
    assert(tile.0 * source.0 <= 16384 * 16384) by (nonlinear_arith)
        requires
            0 <= tile.0 <= 16384,
            0 <= source.0 <= 16384,
    ;
    assert(tile.1 * source.1 <= 16384 * 16384) by (nonlinear_arith)
        requires
            0 <= tile.1 <= 16384,
            0 <= source.1 <= 16384,
    ;
}

/// A source can be captured where the compositor can make a source of its kind: a monitor's where
/// one is offered under the id, and a window's otherwise.
pub proof fn a_source_is_captured_as_what_it_is(wayland: Wayland, id: Seq<char>, i: int)
    ensures
        0 <= i < wayland.inventory.monitors@.len() && wayland.inventory.monitors@[i].ready
            && wayland.inventory.monitors@[i].name@ == id ==> capturable(wayland, id)
            == wayland.output_sources,
        (forall|j: int|
            0 <= j < wayland.inventory.monitors@.len() ==> !((
            #[trigger] wayland.inventory.monitors@[j]).ready
                && wayland.inventory.monitors@[j].name@ == id)) && 0 <= i
            < wayland.inventory.windows@.len() && wayland.inventory.windows@[i].ready
            && wayland.inventory.windows@[i].identifier@ == id ==> capturable(wayland, id)
            == wayland.toplevel_sources,
        (forall|j: int|
            0 <= j < wayland.inventory.monitors@.len() ==> !((
            #[trigger] wayland.inventory.monitors@[j]).ready
                && wayland.inventory.monitors@[j].name@ == id)) && (forall|j: int|
            0 <= j < wayland.inventory.windows@.len() ==> !((
            #[trigger] wayland.inventory.windows@[j]).ready
                && wayland.inventory.windows@[j].identifier@ == id)) ==> !capturable(wayland, id),
{
    crate::wayland::inventory::a_source_is_found_by_its_id(wayland.inventory, id, i);
    if let Some(found) = wayland.inventory.spec_monitor(id) {
        let k = choose|k: int|
            0 <= k < wayland.inventory.monitors@.len() && wayland.inventory.monitors@[k] == found;
        assert(wayland.inventory.monitors@[k].ready);
    }
    if let Some(found) = wayland.inventory.spec_window(id) {
        let k = choose|k: int|
            0 <= k < wayland.inventory.windows@.len() && wayland.inventory.windows@[k] == found;
        assert(wayland.inventory.windows@[k].ready);
    }
}

/// A capture is opened for every tile's source that can be captured and has none, once, and for no
/// other.
pub proof fn a_capture_is_opened_where_there_is_none(
    tiles: Seq<Tile>,
    captures: Seq<Capture>,
    wayland: Wayland,
    n: int,
    id: Seq<char>,
)
    requires
        0 <= n <= tiles.len(),
    ensures
        opened(tiles, n, captures, wayland).contains(id) <==> capturable(wayland, id) && (exists|
            t: int,
        |
            0 <= t < n && (#[trigger] tiles[t]).source_id@ == id) && (forall|c: int|
            0 <= c < captures.len() ==> (#[trigger] captures[c]).purpose != Purpose::Preview
                || captures[c].source_id@ != id),
        opened(tiles, n, captures, wayland).no_duplicates(),
    decreases n,
{
    let now = opened(tiles, n, captures, wayland);
    if n > 0 {
        let before = opened(tiles, n - 1, captures, wayland);
        let last = tiles[n - 1].source_id@;
        a_capture_is_opened_where_there_is_none(tiles, captures, wayland, n - 1, id);
        let p = is_for(Purpose::Preview, id);
        if some_element(captures, p) {
            let c = choose|c: int| 0 <= c < captures.len() && p(#[trigger] captures[c]);
            assert(captures[c].purpose == Purpose::Preview);
        } else {
            assert forall|c: int| 0 <= c < captures.len() implies (
            #[trigger] captures[c]).purpose != Purpose::Preview || captures[c].source_id@ != id by {
                assert(!p(captures[c]));
            }
        }
        assert forall|a: Seq<char>| before.contains(a) implies now.contains(a) by {
            let k = choose|k: int| 0 <= k < before.len() && before[k] == a;
            assert(now[k] == a);
        }
        if now.contains(id) && !before.contains(id) {
            assert(id == last);
            assert(tiles[n - 1].source_id@ == id);
        }
        if last == id && now != before {
            assert(now.last() == id);
        }
        if before.contains(id) {
            let t = choose|t: int| 0 <= t < n - 1 && (#[trigger] tiles[t]).source_id@ == id;
            assert(0 <= t < n && tiles[t].source_id@ == id);
        }
    }
}

/// What a turn asks for is the frame of its tile's own capture, at the size that has settled on,
/// with the memory that takes; more is wanted exactly where there is too little.
pub proof fn a_turn_asks_for_enough_memory(
    previews: Previews,
    captures: Seq<Capture>,
    ask: Ask,
    after: Previews,
)
    requires
        previews.is_next(captures, Some(ask), after),
    ensures
        0 <= ask.capture < captures.len(),
        captures[ask.capture as int].purpose == Purpose::Preview,
        captures[ask.capture as int].constraints == Some(ask.constraints),
        ask.needed == frame_bytes(ask.constraints),
        previews.scratch is None ==> ask.grow,
        previews.scratch matches Some(had) ==> (ask.grow <==> had < ask.needed),
        after.tiles == previews.tiles && after.scratch == previews.scratch && after.dir
            == previews.dir && after.tick == previews.tick && after.last_tick
            == previews.last_tick,
{
    let k = choose|k: nat|
        {
            &&& k < previews.tiles@.len()
            &&& previews.none_ready(captures, k)
            &&& previews.ready_at(captures, #[trigger] previews.turn(k)) == Some(
                (ask.capture as int, ask.constraints),
            )
            &&& ask.needed == frame_bytes(ask.constraints)
            &&& ask.grow == match previews.scratch {
                Some(length) => length < ask.needed,
                None => true,
            }
            &&& after == Previews { cursor: advanced(previews.cursor, k + 1), ..previews }
        };
    let p = is_for(Purpose::Preview, previews.tiles@[previews.turn(k)].source_id@);
    crate::list::lemma_first(captures, p);
}

/// Asking goes to the compositor where there is memory for the frame and a way to share it, and
/// the memory that was made is remembered; without it nothing happens.
pub proof fn asking_takes_memory(
    previews: Previews,
    wayland: Wayland,
    ask: Ask,
    allocated: bool,
    after: Previews,
    left: Wayland,
    i: int,
)
    requires
        previews.is_asked(wayland, ask, allocated, after, left),
        ask.capture < wayland.captures@.len(),
        0 <= i < wayland.captures@.len(),
    ensures
        ask.grow && allocated ==> after.scratch == Some(ask.needed),
        !ask.grow || !allocated ==> after.scratch == previews.scratch,
        after.tiles == previews.tiles && after.cursor == previews.cursor,
        left.captures@.len() == wayland.captures@.len() && left.inventory == wayland.inventory,
        i != ask.capture ==> left.captures@[i] == wayland.captures@[i],
        ask.grow && !allocated || !wayland.shm ==> left.captures@ == wayland.captures@ && !goes(
            wayland,
            ask,
            allocated,
        ),
        goes(wayland, ask, allocated) ==> wayland.captures@[ask.capture as int].frame is None
            && left.captures@[ask.capture as int].frame is Some,
        !goes(wayland, ask, allocated) ==> left.captures@ == wayland.captures@,
{
    let before = wayland.captures@[ask.capture as int];
    if !goes(wayland, ask, allocated) {
        assert(left.captures@ =~= wayland.captures@);
    }
}

/// The captures that are opened for thumbnails are of their sources, never with the cursor, and
/// have not been told anything yet.
pub proof fn a_thumbnail_never_shows_the_cursor(
    captures: Seq<Capture>,
    ids: Seq<Seq<char>>,
    inventory: Inventory,
    i: int,
)
    requires
        fresh_previews(captures, ids, inventory),
        0 <= i < ids.len(),
    ensures
        captures.len() == ids.len(),
        captures[i].source_id@ == ids[i],
        captures[i].purpose == Purpose::Preview && !captures[i].with_cursor,
        captures[i].is_monitor == (inventory.spec_monitor(ids[i]) is Some),
        captures[i].constraints is None && captures[i].frame is None && !captures[i].stopped,
{
    assert(captures[i].is_fresh());
}

/// Collecting publishes, for each tile whose own frame came, that frame at its size, and nothing for
/// any other tile; without memory that anything could have been captured into it does nothing.
pub proof fn each_tile_publishes_what_came_for_it(
    before: Previews,
    captures: Seq<Capture>,
    pixels: Seq<u8>,
    after: Previews,
    captures_after: Seq<Capture>,
    published: Seq<Option<Publication>>,
    k: int,
    c: int,
)
    requires
        before.is_collected(captures, pixels, after, captures_after, published),
        0 <= k < before.tiles@.len(),
        0 <= c < captures.len(),
        captures[c].purpose == Purpose::Preview,
        captures[c].source_id@ == before.tiles@[k].source_id@,
        forall|d: int|
            0 <= d < captures.len() && d != c ==> (#[trigger] captures[d]).purpose
                != Purpose::Preview || captures[d].source_id@ != captures[c].source_id@,
        forall|j: int|
            0 <= j < before.tiles@.len() && j != k ==> (#[trigger] before.tiles@[j]).source_id@
                != before.tiles@[k].source_id@,
    ensures
        before.scratch is None ==> published.len() == 0 && captures_after == captures
            && after.tiles@ == before.tiles@,
        before.scratch is Some ==> {
            &&& published.len() == before.tiles@.len() && after.tiles@.len()
                == before.tiles@.len()
            &&& captures[c].outcome == Some(Outcome::Ready) ==> (captures[c].constraints matches
                Some(size) ==> (published[k] matches Some(publication)
                && before.tiles@[k].is_publication(
                pixels,
                (size.width, size.height),
                before.tile_size,
                publication,
            ) && after.tiles@[k] == before.tiles@[k].after_publish()))
            &&& captures[c].outcome != Some(Outcome::Ready) ==> published[k] is None
                && after.tiles@[k] == before.tiles@[k]
        },
        after.cursor == before.cursor && after.last_tick == before.last_tick && after.scratch
            == before.scratch && after.tile_size == before.tile_size,
{
    if before.scratch is Some {
        let now = collected(before.tiles@, captures, k);
        lemma_untouched(before.tiles@, captures, k, c);
        assert(now[c] == captures[c]);
        let p = is_for(Purpose::Preview, before.tiles@[k].source_id@);
        assert forall|d: int| 0 <= d < c implies !p(#[trigger] now[d]) by {
            collecting_leaves_the_casts(before.tiles@, captures, k, d);
            assert(captures[d].purpose != Purpose::Preview || captures[d].source_id@
                != captures[c].source_id@);
        }
        crate::list::lemma_first_is(now, p, c);
        assert(before.is_collected_at(captures, pixels, after.tiles@, published[k], k));
    }
}

/// Collecting for other tiles leaves a capture alone.
proof fn lemma_untouched(tiles: Seq<Tile>, captures: Seq<Capture>, n: int, c: int)
    requires
        0 <= n <= tiles.len(),
        0 <= c < captures.len(),
        forall|j: int| 0 <= j < n ==> (#[trigger] tiles[j]).source_id@ != captures[c].source_id@,
    ensures
        collected(tiles, captures, n).len() == captures.len(),
        collected(tiles, captures, n)[c] == captures[c],
    decreases n,
{
    if n > 0 {
        lemma_untouched(tiles, captures, n - 1, c);
        let before = collected(tiles, captures, n - 1);
        let p = is_for(Purpose::Preview, tiles[n - 1].source_id@);
        crate::list::lemma_first(before, p);
        assert(!p(before[c]));
    }
}

/// The frames fit exactly where each size that a capture has settled on can be scaled and counted.
pub proof fn frames_fit_where_each_does(captures: Seq<Capture>, more: Capture, tile: (u32, u32))
    ensures
        frames_fit(Seq::empty(), tile),
        more.constraints is None ==> (frames_fit(captures.push(more), tile) <==> frames_fit(
            captures,
            tile,
        )),
        more.constraints matches Some(c) ==> (frames_fit(captures.push(more), tile) <==> frames_fit(
            captures,
            tile,
        ) && scalable((c.width, c.height), tile) && frame_bytes(c) <= usize::MAX),
{
    let all = captures.push(more);
    let n = captures.len() as int;
    if frames_fit(all, tile) {
        assert forall|i: int| 0 <= i < n implies match (#[trigger] captures[i]).constraints {
            Some(c) => scalable((c.width, c.height), tile) && frame_bytes(c) <= usize::MAX,
            None => true,
        } by {
            assert(all[i] == captures[i]);
        }
        assert(all[n] == more);
    }
}

} // verus!
