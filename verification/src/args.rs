//! The command line.
//!
//! Almost nothing: this is started by D-Bus or by systemd and never by a person, so there is
//! hardly an audience for options.

use crate::text::{glue, same};
use vstd::prelude::*;

verus! {

/// What the command line asked for.
#[derive(Debug)]
pub struct Args {
    /// Take the bus name from whoever already holds it.
    pub replace: bool,
    /// List what can be captured, capture one of each, and exit.
    pub probe: bool,
    /// Say whether this file would be accepted as `portal.toml`, and exit.
    pub check_config: Option<String>,
}

/// What the program is to do.
#[derive(Debug)]
pub enum Command {
    Run(Args),
    Version,
    Help,
}

/// What a command line says.
pub ghost enum Reading {
    Means(Command),
    Wrong(Seq<char>),
}

/// What the command line says from the `i`th argument on, where this is what it has said so far.
///
/// The arguments are read from left to right, and the first that asks for the version or the help,
/// or makes no sense, decides.
pub open spec fn reading(argv: Seq<String>, i: int, args: Args) -> Reading
    decreases argv.len() - i,
{
    if i >= argv.len() {
        Reading::Means(Command::Run(args))
    } else if argv[i]@ == "--replace"@ {
        reading(argv, i + 1, Args { replace: true, ..args })
    } else if argv[i]@ == "--probe"@ {
        reading(argv, i + 1, Args { probe: true, ..args })
    } else if argv[i]@ == "--check-config"@ {
        if i + 1 < argv.len() {
            reading(argv, i + 2, Args { check_config: Some(argv[i + 1]), ..args })
        } else {
            Reading::Wrong("--check-config needs a path"@)
        }
    } else if argv[i]@ == "--version"@ || argv[i]@ == "-V"@ {
        Reading::Means(Command::Version)
    } else if argv[i]@ == "--help"@ || argv[i]@ == "-h"@ {
        Reading::Means(Command::Help)
    } else {
        Reading::Wrong("unknown option "@ + argv[i]@)
    }
}

/// Read the command line, without the program's own name.
pub fn parse_args(argv: &[String]) -> (command: Result<Command, String>)
    ensures
        ({
            let nothing = Args { replace: false, probe: false, check_config: None };
            match command {
                Ok(command) => reading(argv@, 0, nothing) == Reading::Means(command),
                Err(why) => reading(argv@, 0, nothing) == Reading::Wrong(why@),
            }
        }),
{
    let ghost nothing = Args { replace: false, probe: false, check_config: None };
    let mut args = Args { replace: false, probe: false, check_config: None };
    let mut i: usize = 0;
    while i < argv.len()
        invariant
            i <= argv.len(),
            nothing == (Args { replace: false, probe: false, check_config: None }),
            reading(argv@, 0, nothing) == reading(argv@, i as int, args),
        decreases argv.len() - i,
    {
        let arg = argv[i].as_str();
        if same(arg, "--replace") {
            args.replace = true;
        } else if same(arg, "--probe") {
            args.probe = true;
        } else if same(arg, "--check-config") {
            if argv.len() - i < 2 {
                return Err("--check-config needs a path".to_owned());
            }
            i += 1;
            args.check_config = Some(argv[i].clone());
        } else if same(arg, "--version") || same(arg, "-V") {
            return Ok(Command::Version);
        } else if same(arg, "--help") || same(arg, "-h") {
            return Ok(Command::Help);
        } else {
            return Err(glue("unknown option ", arg));
        }
        i += 1;
    }
    Ok(Command::Run(args))
}

/// Whether every argument of a stretch is one of the two flags.
pub open spec fn flags(argv: Seq<String>, from: int, to: int) -> bool {
    forall|j: int|
        from <= j < to ==> (#[trigger] argv[j])@ == "--replace"@ || argv[j]@ == "--probe"@
}

/// Whether this word is among the arguments of a stretch.
pub open spec fn among(argv: Seq<String>, from: int, to: int, word: Seq<char>) -> bool {
    exists|j: int| from <= j < to && (#[trigger] argv[j])@ == word
}

/// The words that are understood are all different.
proof fn lemma_words_differ()
    ensures
        "--replace"@ != "--probe"@,
        "--replace"@ != "--check-config"@,
        "--probe"@ != "--check-config"@,
        "--version"@ != "--replace"@ && "--version"@ != "--probe"@ && "--version"@
            != "--check-config"@,
        "-V"@ != "--replace"@ && "-V"@ != "--probe"@ && "-V"@ != "--check-config"@,
        "--help"@ != "--replace"@ && "--help"@ != "--probe"@ && "--help"@ != "--check-config"@,
        "-h"@ != "--replace"@ && "-h"@ != "--probe"@ && "-h"@ != "--check-config"@,
        "--version"@ != "--help"@ && "--version"@ != "-h"@,
        "-V"@ != "--help"@ && "-V"@ != "-h"@,
{
    reveal_strlit("--replace");
    reveal_strlit("--probe");
    reveal_strlit("--check-config");
    reveal_strlit("--version");
    reveal_strlit("-V");
    reveal_strlit("--help");
    reveal_strlit("-h");
    assert("--replace"@[2] == 'r');
    assert("--probe"@[2] == 'p');
    assert("--check-config"@[2] == 'c');
    assert("--version"@[2] == 'v');
    assert("--help"@[2] == 'h');
    assert("-V"@[1] == 'V');
    assert("-h"@[1] == 'h');
    assert("--replace"@.len() == 9 && "-V"@.len() == 2 && "-h"@.len() == 2);
}

/// A stretch of flags sets those that are in it and leaves the rest to what follows.
proof fn lemma_flags(argv: Seq<String>, from: int, to: int, args: Args)
    requires
        0 <= from <= to <= argv.len(),
        flags(argv, from, to),
    ensures
        reading(argv, from, args) == reading(
            argv,
            to,
            Args {
                replace: args.replace || among(argv, from, to, "--replace"@),
                probe: args.probe || among(argv, from, to, "--probe"@),
                ..args
            },
        ),
    decreases to - from,
{
    lemma_words_differ();
    if from < to {
        let word = argv[from]@;
        assert(word == "--replace"@ || word == "--probe"@);
        let next = if word == "--replace"@ {
            Args { replace: true, ..args }
        } else {
            Args { probe: true, ..args }
        };
        assert(reading(argv, from, args) == reading(argv, from + 1, next));
        lemma_flags(argv, from + 1, to, next);
        assert forall|which: Seq<char>|
            among(argv, from, to, which) == (word == which || among(
                argv,
                from + 1,
                to,
                which,
            )) by {
            if word == which {
                assert(argv[from]@ == which);
            }
            if among(argv, from + 1, to, which) {
                let j = choose|j: int| from + 1 <= j < to && (#[trigger] argv[j])@ == which;
                assert(from <= j < to && argv[j]@ == which);
            }
        }
        assert(among(argv, from, to, "--replace"@) == (word == "--replace"@ || among(
            argv,
            from + 1,
            to,
            "--replace"@,
        )));
        assert(among(argv, from, to, "--probe"@) == (word == "--probe"@ || among(
            argv,
            from + 1,
            to,
            "--probe"@,
        )));
    }
}

/// A command line of nothing but flags runs the program with exactly those that are on it, in any
/// order and however often.
pub proof fn a_flag_is_set_where_it_is_given(argv: Seq<String>, none: Args)
    requires
        flags(argv, 0, argv.len() as int),
        !none.replace && !none.probe && none.check_config is None,
    ensures
        reading(argv, 0, none) matches Reading::Means(Command::Run(args)) && args.replace == among(
            argv,
            0,
            argv.len() as int,
            "--replace"@,
        ) && args.probe == among(argv, 0, argv.len() as int, "--probe"@)
            && args.check_config is None,
{
    lemma_flags(argv, 0, argv.len() as int, none);
}

/// The file to check is the argument after the one that asks for it, whatever that argument looks
/// like, and the flags on either side still count.
pub proof fn the_file_to_check_is_the_next_argument(argv: Seq<String>, none: Args, at: int)
    requires
        !none.replace && !none.probe && none.check_config is None,
        0 <= at < argv.len(),
        flags(argv, 0, at),
        argv[at]@ == "--check-config"@,
        flags(argv, at + 2, argv.len() as int),
    ensures
        at + 1 == argv.len() ==> reading(argv, 0, none) == Reading::Wrong(
            "--check-config needs a path"@,
        ),
        at + 1 < argv.len() ==> (reading(argv, 0, none) matches Reading::Means(
            Command::Run(args),
        ) && args.check_config == Some(argv[at + 1]) && args.replace == (among(
            argv,
            0,
            at,
            "--replace"@,
        ) || among(argv, at + 2, argv.len() as int, "--replace"@)) && args.probe == (among(
            argv,
            0,
            at,
            "--probe"@,
        ) || among(argv, at + 2, argv.len() as int, "--probe"@))),
{
    lemma_words_differ();
    lemma_flags(argv, 0, at, none);
    let so_far = Args {
        replace: none.replace || among(argv, 0, at, "--replace"@),
        probe: none.probe || among(argv, 0, at, "--probe"@),
        ..none
    };
    if at + 1 < argv.len() {
        let found = Args { check_config: Some(argv[at + 1]), ..so_far };
        assert(reading(argv, at, so_far) == reading(argv, at + 2, found));
        lemma_flags(argv, at + 2, argv.len() as int, found);
    }
}

/// The first argument that is no flag decides, and nothing after it is read: asking for the
/// version or the help is answered so, and what is not understood is named.
pub proof fn the_first_other_argument_decides(argv: Seq<String>, none: Args, at: int)
    requires
        0 <= at < argv.len(),
        flags(argv, 0, at),
    ensures
        argv[at]@ == "--version"@ || argv[at]@ == "-V"@ ==> reading(argv, 0, none)
            == Reading::Means(Command::Version),
        argv[at]@ == "--help"@ || argv[at]@ == "-h"@ ==> reading(argv, 0, none)
            == Reading::Means(Command::Help),
        argv[at]@ != "--replace"@ && argv[at]@ != "--probe"@ && argv[at]@ != "--check-config"@
            && argv[at]@ != "--version"@ && argv[at]@ != "-V"@ && argv[at]@ != "--help"@
            && argv[at]@ != "-h"@ ==> reading(argv, 0, none) == Reading::Wrong(
            "unknown option "@ + argv[at]@,
        ),
{
    lemma_words_differ();
    lemma_flags(argv, 0, at, none);
}

} // verus!
