//! The command-line flags the tray answers before doing anything else.

use vstd::prelude::*;

use crate::text::{chars_of, range_eq, strings_text};

verus! {

/// What the command line asks for.
#[derive(Clone, Copy, PartialEq, Eq, Structural, Debug)]
pub enum FlagRequest {
    /// `-V` or `--version`: print the version and exit.
    Version,
    /// `-h` or `--help`: print the help and exit.
    Help,
    /// Neither: run the tray. Unrecognised arguments are ignored.
    Run,
}

/// The request one argument makes, if it is a flag the tray knows.
pub open spec fn flag_of(arg: Seq<char>) -> Option<FlagRequest> {
    if arg == "-V"@ || arg == "--version"@ {
        Some(FlagRequest::Version)
    } else if arg == "-h"@ || arg == "--help"@ {
        Some(FlagRequest::Help)
    } else {
        None
    }
}

/// The request of the first known flag among `args`, or `Run` when there is none.
pub open spec fn first_flag(args: Seq<Seq<char>>) -> FlagRequest
    decreases args.len(),
{
    if args.len() == 0 {
        FlagRequest::Run
    } else {
        match flag_of(args[0]) {
            Some(f) => f,
            None => first_flag(args.drop_first()),
        }
    }
}

/// Whether `arg` is exactly `w`.
fn is_word(arg: &String, w: &str) -> (b: bool)
    ensures
        b == (arg@ == w@),
{
    let c = chars_of(arg.as_str());
    assert(c@.subrange(0, c@.len() as int) =~= c@);
    range_eq(&c, 0, c.len(), w)
}

/// What the arguments after the program name ask for: the first `--version`
/// or `--help` (or their short forms) wins.
pub fn flag_request(args: &Vec<String>) -> (r: FlagRequest)
    ensures
        r == first_flag(strings_text(args@)),
{
    let ghost all = strings_text(args@);
    let mut k: usize = 0;
    assert(all.skip(0) =~= all);
    while k < args.len()
        invariant
            k <= args.len(),
            all == strings_text(args@),
            first_flag(all.skip(k as int)) == first_flag(all),
        decreases args.len() - k,
    {
        let arg = &args[k];
        assert(all.skip(k as int)[0] == arg@);
        assert(all.skip(k as int).drop_first() =~= all.skip(k + 1));
        if is_word(arg, "-V") || is_word(arg, "--version") {
            return FlagRequest::Version;
        }
        if is_word(arg, "-h") || is_word(arg, "--help") {
            return FlagRequest::Help;
        }
        k = k + 1;
    }
    assert(all.skip(k as int) =~= Seq::<Seq<char>>::empty());
    FlagRequest::Run
}

/// The first known flag wins: `-V` or `--version` in first place asks for
/// the version, `-h` or `--help` for the help, whatever follows; an unknown
/// argument is skipped; with no flag at all the tray runs.
pub proof fn lemma_first_flag_wins(arg: Seq<char>, rest: Seq<Seq<char>>)
    ensures
        first_flag(Seq::empty()) == FlagRequest::Run,
        arg == "-V"@ || arg == "--version"@ ==> first_flag(seq![arg] + rest) == FlagRequest::Version,
        arg == "-h"@ || arg == "--help"@ ==> first_flag(seq![arg] + rest) == FlagRequest::Help,
        arg != "-V"@ && arg != "--version"@ && arg != "-h"@ && arg != "--help"@ ==> first_flag(
            seq![arg] + rest,
        ) == first_flag(rest),
{
    reveal_strlit("-V");
    reveal_strlit("-h");
    reveal_strlit("--version");
    reveal_strlit("--help");
    assert("-V"@[1] != "-h"@[1]);
    assert("-V"@ != "-h"@);
    assert("--version"@.len() != "--help"@.len());
    assert("--version"@.len() != "-h"@.len());
    assert("-V"@.len() != "--help"@.len());
    assert((seq![arg] + rest)[0] == arg);
    assert((seq![arg] + rest).drop_first() =~= rest);
}

} // verus!
