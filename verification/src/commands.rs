use vstd::prelude::*;

use crate::string_util::{
    contains_char, find_char, find_from, has_char, lemma_find_from_some, str_equal,
};

verus! {

/// A command read from the terminal.
#[derive(Clone, Copy, Debug, PartialEq, Eq, Structural)]
pub enum Command {
    /// An empty line: nothing to do.
    Empty,
    /// `q`: leave the command loop.
    Quit,
    /// `k`: stop the running timer.
    Kill,
    /// `s <minutes>`: start a timer for that many minutes.
    Start { minutes: u64 },
}

/// Why a command line was rejected.
#[derive(Clone, Copy, Debug, PartialEq, Eq, Structural)]
pub enum CommandError {
    /// The command word is not one of the known commands.
    Invalid,
    /// More than two space-separated tokens.
    TooManyArguments,
    /// The `s` command's argument is not a number a timer can use.
    InvalidArgument,
}

impl CommandError {
    /// The message the loop shows for this error: an unrecognized command and
    /// one with too many tokens both read `invalid command`; only a bad `s`
    /// argument gets its own message.
    pub open spec fn message_spec(&self) -> Seq<char> {
        match self {
            CommandError::Invalid => "invalid command"@,
            CommandError::TooManyArguments => "invalid command"@,
            CommandError::InvalidArgument => "invalid argument"@,
        }
    }

    /// The message shown to the user for this error.
    pub fn message(&self) -> (r: &'static str)
        ensures
            r@ == self.message_spec(),
    {
        match self {
            CommandError::Invalid => "invalid command",
            CommandError::TooManyArguments => "invalid command",
            CommandError::InvalidArgument => "invalid argument",
        }
    }
}

/// `c` is a decimal digit.
pub open spec fn is_digit(c: char) -> bool {
    '0' as u32 <= c as u32 && c as u32 <= '9' as u32
}

/// The numeric value of a decimal digit character.
pub open spec fn digit_value(c: char) -> int {
    c as u32 - '0' as u32
}

/// All characters of `s` are decimal digits.
pub open spec fn all_digits(s: Seq<char>) -> bool {
    forall|i: int| 0 <= i < s.len() ==> is_digit(#[trigger] s[i])
}

/// The numeric value of a string of decimal digits.
pub open spec fn dec_value(s: Seq<char>) -> int
    decreases s.len(),
{
    if s.len() == 0 {
        0
    } else {
        dec_value(s.drop_last()) * 10 + digit_value(s.last())
    }
}

/// What parsing a non-negative decimal integer yields: the digits' value, when
/// the string is one or more digits after an optional leading `+` and the value
/// fits in a u64; nothing otherwise.
pub open spec fn parse_u64_spec(s: Seq<char>) -> Option<u64> {
    let digits = if s.len() > 0 && s[0] == '+' {
        s.skip(1)
    } else {
        s
    };
    if digits.len() > 0 && all_digits(digits) && dec_value(digits) <= u64::MAX {
        Some(dec_value(digits) as u64)
    } else {
        None
    }
}

/// A string of digits is worth no less than any of its prefixes.
proof fn lemma_dec_value_prefix(s: Seq<char>, k: int)
    requires
        0 <= k <= s.len(),
        all_digits(s),
    ensures
        0 <= dec_value(s.subrange(0, k)) <= dec_value(s),
    decreases s.len() - k,
{
    lemma_dec_value_nonneg(s.subrange(0, k));
    if k == s.len() {
        assert(s.subrange(0, k) =~= s);
    } else {
        lemma_dec_value_prefix(s, k + 1);
        let longer = s.subrange(0, k + 1);
        assert(longer.drop_last() =~= s.subrange(0, k));
        assert(longer.last() == s[k]);
    }
}

/// A string of digits has a non-negative value.
proof fn lemma_dec_value_nonneg(s: Seq<char>)
    requires
        all_digits(s),
    ensures
        dec_value(s) >= 0,
    decreases s.len(),
{
    if s.len() > 0 {
        assert(all_digits(s.drop_last())) by {
            assert(forall|i: int|
                0 <= i < s.len() - 1 ==> #[trigger] s.drop_last()[i] == s[i]);
        }
        lemma_dec_value_nonneg(s.drop_last());
    }
}

/// Parses a non-negative decimal integer: an optional leading `+`, then one or
/// more digits, with a value of at most `u64::MAX`.
pub fn parse_u64(s: &str) -> (r: Option<u64>)
    ensures
        r == parse_u64_spec(s@),
{
    let n = s.unicode_len();
    let start: usize = if n > 0 && s.get_char(0) == '+' {
        1
    } else {
        0
    };
    let ghost digits = if s@.len() > 0 && s@[0] == '+' {
        s@.skip(1)
    } else {
        s@
    };
    proof {
        assert(digits =~= s@.subrange(start as int, n as int));
    }
    if start >= n {
        return None;
    }
    let mut v: u64 = 0;
    let mut j: usize = start;
    while j < n
        invariant
            n == s@.len(),
            start <= j <= n,
            start <= 1,
            digits == (if s@.len() > 0 && s@[0] == '+' {
                s@.skip(1)
            } else {
                s@
            }),
            digits =~= s@.subrange(start as int, n as int),
            all_digits(digits.subrange(0, j - start)),
            v == dec_value(digits.subrange(0, j - start)),
        decreases n - j,
    {
        let c = s.get_char(j);
        let u = c as u32;
        let ghost prefix = digits.subrange(0, j - start);
        let ghost longer = digits.subrange(0, j + 1 - start);
        proof {
            assert(digits[j - start] == s@[j as int]);
            assert(longer.drop_last() =~= prefix);
            assert(longer.last() == digits[j - start]);
        }
        if u < 48 || u > 57 {
            proof {
                assert(s@[j as int] == c);
                assert(c as u32 == u);
                assert(!is_digit(digits[j - start]));
                assert(!all_digits(digits));
                assert(parse_u64_spec(s@) is None);
            }
            return None;
        }
        let d = (u - 48) as u64;
        proof {
            assert(is_digit(s@[j as int]));
            assert(d == digit_value(digits[j - start]));
            assert(dec_value(longer) == v * 10 + d);
        }
        if v > (u64::MAX - d) / 10 {
            proof {
                assert(v * 10 + d > u64::MAX) by {
                    assert(v >= (u64::MAX - d) / 10 + 1);
                    assert(((u64::MAX - d) / 10 + 1) * 10 >= u64::MAX - d + 1) by (nonlinear_arith);
                    assert(v * 10 >= ((u64::MAX - d) / 10 + 1) * 10) by (nonlinear_arith)
                        requires
                            v >= (u64::MAX - d) / 10 + 1,
                    ;
                }
                if all_digits(digits) {
                    lemma_dec_value_prefix(digits, j + 1 - start);
                    assert(dec_value(digits) > u64::MAX);
                }
                assert(parse_u64_spec(s@) is None);
            }
            return None;
        }
        v = v * 10 + d;
        j += 1;
    }
    proof {
        assert(digits.subrange(0, n - start) =~= digits);
    }
    Some(v)
}

/// What parsing one (already trimmed) command line yields: the command, or why
/// the line is rejected. A line with no space is the bare command word; a line
/// with one space is a command and its argument; more spaces are too many.
pub open spec fn parse_command_spec(line: Seq<char>) -> Result<Command, CommandError> {
    match find_from(line, seq![' '], 0) {
        None => {
            if line.len() == 0 {
                Ok(Command::Empty)
            } else if line == "q"@ {
                Ok(Command::Quit)
            } else if line == "k"@ {
                Ok(Command::Kill)
            } else {
                Err(CommandError::Invalid)
            }
        },
        Some(i) => {
            let word = line.subrange(0, i);
            let arg = line.subrange(i + 1, line.len() as int);
            if has_char(arg, ' ') {
                Err(CommandError::TooManyArguments)
            } else if word == "s"@ {
                match parse_u64_spec(arg) {
                    Some(m) => Ok(Command::Start { minutes: m }),
                    None => Err(CommandError::InvalidArgument),
                }
            } else {
                Err(CommandError::Invalid)
            }
        },
    }
}

/// Parses one (already trimmed) command line.
pub fn parse_command(line: &str) -> (r: Result<Command, CommandError>)
    ensures
        r == parse_command_spec(line@),
{
    proof {
        reveal_strlit(" ");
        assert(" "@ =~= seq![' ']);
    }
    match find_char(line, ' ') {
        None => {
            if line.unicode_len() == 0 {
                Ok(Command::Empty)
            } else if str_equal(line, "q") {
                Ok(Command::Quit)
            } else if str_equal(line, "k") {
                Ok(Command::Kill)
            } else {
                Err(CommandError::Invalid)
            }
        },
        Some(i) => {
            let n = line.unicode_len();
            proof {
                lemma_find_from_some(line@, seq![' '], 0, i as int);
            }
            let word = line.substring_char(0, i);
            let arg = line.substring_char(i + 1, n);
            if contains_char(arg, ' ') {
                Err(CommandError::TooManyArguments)
            } else if str_equal(word, "s") {
                match parse_u64(arg) {
                    Some(m) => Ok(Command::Start { minutes: m }),
                    None => Err(CommandError::InvalidArgument),
                }
            } else {
                Err(CommandError::Invalid)
            }
        },
    }
}

/// The loop's output for one (trimmed) input line: the error message and a
/// newline when the line is rejected, nothing otherwise.
pub open spec fn line_output(line: Seq<char>) -> Seq<char> {
    match parse_command_spec(line) {
        Ok(_) => Seq::empty(),
        Err(e) => e.message_spec() + "\n"@,
    }
}

/// Everything the command loop writes for a sequence of (trimmed) input lines:
/// it reports each rejected line and stops at the first quit command.
pub open spec fn loop_output(lines: Seq<Seq<char>>) -> Seq<char>
    decreases lines.len(),
{
    if lines.len() == 0 {
        Seq::empty()
    } else if parse_command_spec(lines[0]) == Ok::<Command, CommandError>(Command::Quit) {
        Seq::empty()
    } else {
        line_output(lines[0]) + loop_output(lines.skip(1))
    }
}

/// Processes command lines as the interactive loop does and collects what the
/// loop writes: one message per rejected line, stopping at the first quit.
pub fn process_command_lines(lines: &Vec<String>) -> (out: String)
    ensures
        out@ == loop_output(lines@.map_values(|l: String| l@)),
{
    let ghost views = lines@.map_values(|l: String| l@);
    let mut out = String::new();
    let mut i: usize = 0;
    proof {
        assert(out@ =~= Seq::<char>::empty());
        assert(views.skip(0) =~= views);
        assert(out@ + loop_output(views) =~= loop_output(views));
    }
    while i < lines.len()
        invariant
            views == lines@.map_values(|l: String| l@),
            views.len() == lines@.len(),
            0 <= i <= lines.len(),
            loop_output(views) == out@ + loop_output(views.skip(i as int)),
        decreases lines.len() - i,
    {
        let ghost rest = views.skip(i as int);
        proof {
            assert(rest[0] == views[i as int]);
            assert(rest.skip(1) =~= views.skip(i as int + 1));
        }
        let line = &lines[i];
        match parse_command(line.as_str()) {
            Ok(Command::Quit) => {
                proof {
                    assert(loop_output(rest) == Seq::<char>::empty());
                    assert(out@ =~= out@ + Seq::<char>::empty());
                }
                return out;
            },
            Ok(_) => {
                proof {
                    assert(line_output(rest[0]) == Seq::<char>::empty());
                    assert(out@ + loop_output(rest) =~= out@ + (Seq::<char>::empty()
                        + loop_output(rest.skip(1))));
                    assert(out@ + (Seq::<char>::empty() + loop_output(rest.skip(1))) =~= out@
                        + loop_output(views.skip(i as int + 1)));
                }
            },
            Err(e) => {
                let ghost before = out@;
                let msg = e.message();
                out.append(msg);
                out.append("\n");
                proof {
                    assert(loop_output(rest) == (e.message_spec() + "\n"@) + loop_output(
                        rest.skip(1),
                    ));
                    assert(before + loop_output(rest) =~= out@ + loop_output(
                        views.skip(i as int + 1),
                    ));
                }
            },
        }
        i += 1;
    }
    proof {
        assert(views.skip(views.len() as int) =~= Seq::<Seq<char>>::empty());
        assert(out@ =~= out@ + Seq::<char>::empty());
    }
    out
}

} // verus!
