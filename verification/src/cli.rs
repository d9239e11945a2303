//! Reading the command line: which benchmark to run and how many units.

use crate::text::{is_digit, parse_count, parse_count_spec, without_sign};
use vstd::prelude::*;
use vstd::string::*;

verus! {

/// The number of units where the command line names none.
pub const DEFAULT_TASK_COUNT: usize = 10;

/// The workload of a run.
#[derive(Debug, Clone, Copy, PartialEq, Eq, Structural)]
pub enum Mode {
    /// Numeric work, one unit after the other.
    Cpu,
    /// Small files and simulated network delays, all units at once.
    Io,
    /// As `Io`, with large files that are hashed and compressed.
    IoHeavy,
}

/// What the command line asks for.
#[derive(Debug, Clone, Copy, PartialEq, Eq, Structural)]
pub struct Config {
    /// How many units to run.
    pub task_count: usize,
    /// Whether the token `io` was given.
    pub is_io_mode: bool,
    /// Whether the token `heavy` was given.
    pub is_heavy_mode: bool,
}

/// Whether one of the arguments after the program's name is `token`.
pub open spec fn names_token(args: Seq<Seq<char>>, token: Seq<char>) -> bool {
    exists|i: int| 1 <= i < args.len() && #[trigger] args[i] == token
}

/// The count that the arguments ask for: that of the last argument after
/// the program's name that reads as a count, or the default.
pub open spec fn requested_count(args: Seq<Seq<char>>) -> nat
    decreases args.len(),
{
    if args.len() <= 1 {
        DEFAULT_TASK_COUNT as nat
    } else {
        match parse_count_spec(args.last()) {
            Some(n) => n,
            None => requested_count(args.drop_last()),
        }
    }
}

/// The workload that two flags select: the heavy variant only where both
/// are set.
pub open spec fn selected_mode(is_io_mode: bool, is_heavy_mode: bool) -> Mode {
    if is_io_mode && is_heavy_mode {
        Mode::IoHeavy
    } else if is_io_mode {
        Mode::Io
    } else {
        Mode::Cpu
    }
}

/// The texts of a list of arguments.
pub open spec fn texts(args: Seq<String>) -> Seq<Seq<char>> {
    Seq::new(args.len(), |i: int| args[i]@)
}

impl Config {
    /// The workload that the configuration selects.
    pub open spec fn mode_spec(self) -> Mode {
        selected_mode(self.is_io_mode, self.is_heavy_mode)
    }

    /// The workload that the configuration selects.
    pub fn mode(&self) -> (mode: Mode)
        ensures
            mode == self.mode_spec(),
    {
        if self.is_io_mode && self.is_heavy_mode {
            Mode::IoHeavy
        } else if self.is_io_mode {
            Mode::Io
        } else {
            Mode::Cpu
        }
    }
}

/// The two flags differ, and neither reads as a count.
pub proof fn lemma_flags_are_no_counts()
    ensures
        "io"@ != "heavy"@,
        parse_count_spec("io"@) is None,
        parse_count_spec("heavy"@) is None,
{
    reveal_strlit("io");
    reveal_strlit("heavy");
    assert(!is_digit("io"@[0]));
    assert(!is_digit("heavy"@[0]));
    assert(without_sign("io"@) == "io"@);
    assert(without_sign("heavy"@) == "heavy"@);
}

/// One more argument is named by the list if it is the token itself or the
/// list named the token before.
proof fn lemma_names_token_push(args: Seq<Seq<char>>, last: Seq<char>, token: Seq<char>)
    requires
        args.len() >= 1,
    ensures
        names_token(args.push(last), token) == (names_token(args, token) || last == token),
{
    let after = args.push(last);
    if names_token(args, token) {
        let k = choose|k: int| 1 <= k < args.len() && #[trigger] args[k] == token;
        assert(after[k] == token);
    }
    if last == token {
        assert(after[args.len() as int] == token);
    }
    if names_token(after, token) {
        let k = choose|k: int| 1 <= k < after.len() && #[trigger] after[k] == token;
        if k < args.len() {
            assert(args[k] == token);
        }
    }
}

/// Reads the arguments of the program, the first of which is its name.
/// Tokens that are neither a flag nor a count are passed over.
pub fn parse_args(args: &Vec<String>) -> (config: Config)
    ensures
        config.is_io_mode == names_token(texts(args@), "io"@),
        config.is_heavy_mode == names_token(texts(args@), "heavy"@),
        config.task_count == requested_count(texts(args@)),
{
    let io_token = String::from_str("io");
    let heavy_token = String::from_str("heavy");
    let mut task_count: usize = DEFAULT_TASK_COUNT;
    let mut is_io_mode = false;
    let mut is_heavy_mode = false;
    let ghost all = texts(args@);
    if args.len() == 0 {
        return Config { task_count, is_io_mode, is_heavy_mode };
    }
    let mut i: usize = 1;
    proof {
        lemma_flags_are_no_counts();
    }
    while i < args.len()
        invariant
            1 <= i <= args.len(),
            all == texts(args@),
            io_token@ == "io"@,
            heavy_token@ == "heavy"@,
            "io"@ != "heavy"@,
            parse_count_spec("io"@) is None,
            parse_count_spec("heavy"@) is None,
            is_io_mode == names_token(all.take(i as int), "io"@),
            is_heavy_mode == names_token(all.take(i as int), "heavy"@),
            task_count == requested_count(all.take(i as int)),
        decreases args.len() - i,
    {
        proof {
            let before = all.take(i as int);
            let after = all.take(i + 1);
            assert(after =~= before.push(args[i as int]@));
            assert(after.drop_last() =~= before);
            lemma_names_token_push(before, args[i as int]@, "io"@);
            lemma_names_token_push(before, args[i as int]@, "heavy"@);
        }
        if args[i] == io_token {
            is_io_mode = true;
        } else if args[i] == heavy_token {
            is_heavy_mode = true;
        } else {
            match parse_count(args[i].as_str()) {
                Some(count) => {
                    task_count = count;
                },
                None => {},
            }
        }
        i = i + 1;
    }
    assert(all.take(args.len() as int) =~= all);
    Config { task_count, is_io_mode, is_heavy_mode }
}

} // verus!
