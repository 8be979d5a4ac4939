//! Run options taken from the command line: the worker count and the
//! compression level.
use vstd::prelude::*;
use crate::text::same_text;

verus! {

/// The compression level when none, or none usable, is given.
pub const DEFAULT_LEVEL: u32 = 6;

/// The highest gzip compression level.
pub const MAX_LEVEL: u32 = 9;

/// The most workers used when no count is given.
pub const MAX_DEFAULT_WORKERS: usize = 12;

/// A decimal digit.
pub open spec fn is_digit(c: char) -> bool {
    '0' <= c && c <= '9'
}

/// The value of a digit.
pub open spec fn digit_value(c: char) -> nat {
    (c as u32 - '0' as u32) as nat
}

/// The value of a string of decimal digits.
pub open spec fn decimal_value(s: Seq<char>) -> nat
    decreases s.len(),
{
    if s.len() == 0 {
        0
    } else {
        decimal_value(s.drop_last()) * 10 + digit_value(s.last())
    }
}

/// A non-empty string of decimal digits.
pub open spec fn is_decimal(s: Seq<char>) -> bool {
    s.len() > 0 && forall|i: int| 0 <= i < s.len() ==> is_digit(#[trigger] s[i])
}

/// An unsigned integer written in decimal, with an optional leading `+`, if
/// its value is at most `max`.
pub open spec fn parsed_unsigned(s: Seq<char>, max: nat) -> Option<nat> {
    let digits = if s.len() > 0 && s[0] == '+' {
        s.drop_first()
    } else {
        s
    };
    if is_decimal(digits) && decimal_value(digits) <= max {
        Some(decimal_value(digits))
    } else {
        None
    }
}

/// The position of the first argument equal to `flag`.
pub open spec fn first_index_of(args: Seq<Seq<char>>, flag: Seq<char>) -> Option<int>
    decreases args.len(),
{
    if args.len() == 0 {
        None
    } else if args[0] == flag {
        Some(0)
    } else {
        match first_index_of(args.drop_first(), flag) {
            Some(i) => Some(i + 1),
            None => None,
        }
    }
}

/// The number that follows the first occurrence of `flag`, if there is one,
/// it parses, and it is at most `max`.
pub open spec fn option_value(args: Seq<Seq<char>>, flag: Seq<char>, max: nat) -> Option<nat> {
    match first_index_of(args, flag) {
        Some(i) => if i + 1 < args.len() {
            parsed_unsigned(args[i + 1], max)
        } else {
            None
        },
        None => None,
    }
}

pub open spec fn workers_flag() -> Seq<char> {
    seq!['-', '-', 'w', 'o', 'r', 'k', 'e', 'r', 's']
}

pub open spec fn level_flag() -> Seq<char> {
    seq!['-', '-', 'l', 'e', 'v', 'e', 'l']
}

pub open spec fn min_nat(a: nat, b: nat) -> nat {
    if a <= b {
        a
    } else {
        b
    }
}

proof fn lemma_prefix_value_bounded(s: Seq<char>, i: int)
    requires
        0 <= i <= s.len(),
    ensures
        decimal_value(s.take(i)) <= decimal_value(s),
    decreases s.len() - i,
{
    if i < s.len() {
        lemma_prefix_value_bounded(s, i + 1);
        assert(s.take(i + 1).drop_last() =~= s.take(i));
    } else {
        assert(s.take(i) =~= s);
    }
}

/// Reads an unsigned decimal number with an optional leading `+`; `None` when
/// the text is not such a number or its value exceeds `max`.
pub fn parse_unsigned(s: &str, max: u64) -> (r: Option<u64>)
    ensures
        r matches Some(v) ==> parsed_unsigned(s@, max as nat) == Some(v as nat),
        r is None ==> parsed_unsigned(s@, max as nat) is None,
{
    let n = s.unicode_len();
    let mut start: usize = 0;
    if n > 0 && s.get_char(0) == '+' {
        start = 1;
    }
    let ghost digits = if s@.len() > 0 && s@[0] == '+' {
        s@.drop_first()
    } else {
        s@
    };
    assert(digits =~= s@.subrange(start as int, n as int));
    if start >= n {
        return None;
    }
    let mut value: u64 = 0;
    let mut i: usize = start;
    while i < n
        invariant
            start <= i <= n,
            n == s@.len(),
            digits == s@.subrange(start as int, n as int),
            digits == (if s@.len() > 0 && s@[0] == '+' {
                s@.drop_first()
            } else {
                s@
            }),
            value as nat == decimal_value(digits.take(i - start)),
            value <= max,
            forall|j: int| 0 <= j < i - start ==> is_digit(#[trigger] digits[j]),
        decreases n - i,
    {
        let c = s.get_char(i);
        if !('0' <= c && c <= '9') {
            assert(!is_digit(digits[i - start]));
            assert(!is_decimal(digits));
            return None;
        }
        let d = (c as u32 - '0' as u32) as u64;
        assert(digits.take(i - start + 1).drop_last() =~= digits.take(i - start));
        assert(digits.take(i - start + 1).last() == c);
        if d > max || value > (max - d) / 10 {
            assert(decimal_value(digits.take(i - start + 1)) > max) by (nonlinear_arith)
                requires
                    d > max || value > (max - d) / 10,
                    decimal_value(digits.take(i - start + 1)) == value * 10 + d,
            {
            }
            proof {
                lemma_prefix_value_bounded(digits, i - start + 1);
            }
            return None;
        }
        assert(value * 10 + d <= max) by (nonlinear_arith)
            requires
                value <= (max - d) / 10,
                d <= 9,
        {
        }
        value = value * 10 + d;
        i = i + 1;
    }
    assert(digits.take(n - start) =~= digits);
    Some(value)
}

proof fn lemma_first_index(args: Seq<Seq<char>>, flag: Seq<char>, i: int)
    requires
        0 <= i <= args.len(),
        forall|j: int| 0 <= j < i ==> #[trigger] args[j] != flag,
    ensures
        i < args.len() && args[i] == flag ==> first_index_of(args, flag) == Some(i),
        i == args.len() ==> first_index_of(args, flag) is None,
    decreases i,
{
    if i > 0 {
        let rest = args.drop_first();
        assert forall|j: int| 0 <= j < i - 1 implies #[trigger] rest[j] != flag by {
            assert(rest[j] == args[j + 1]);
        }
        assert(args[0] != flag);
        lemma_first_index(rest, flag, i - 1);
        if i < args.len() {
            assert(rest[i - 1] == args[i]);
        }
    } else if args.len() > 0 && args[0] != flag {
        assert(i < args.len());
    }
}

/// The position of the first argument equal to `flag`.
pub fn find_flag(args: &Vec<String>, flag: &str) -> (r: Option<usize>)
    ensures
        r matches Some(i) ==> first_index_of(args.deep_view(), flag@) == Some(i as int),
        r matches Some(i) ==> i < args.len(),
        r is None ==> first_index_of(args.deep_view(), flag@) is None,
{
    let mut i: usize = 0;
    while i < args.len()
        invariant
            i <= args.len(),
            forall|j: int| 0 <= j < i ==> #[trigger] args.deep_view()[j] != flag@,
        decreases args.len() - i,
    {
        if same_text(args[i].as_str(), flag) {
            proof {
                lemma_first_index(args.deep_view(), flag@, i as int);
            }
            return Some(i);
        }
        i = i + 1;
    }
    proof {
        lemma_first_index(args.deep_view(), flag@, i as int);
    }
    None
}

/// The number that follows the first occurrence of `flag`: `None` when the
/// flag is absent or last, or what follows it is no unsigned decimal number
/// of at most `max`.
pub fn option_number(args: &Vec<String>, flag: &str, max: u64) -> (r: Option<u64>)
    ensures
        r matches Some(v) ==> option_value(args.deep_view(), flag@, max as nat) == Some(v as nat),
        r is None ==> option_value(args.deep_view(), flag@, max as nat) is None,
{
    match find_flag(args, flag) {
        Some(i) => {
            if i + 1 < args.len() {
                parse_unsigned(args[i + 1].as_str(), max)
            } else {
                None
            }
        },
        None => None,
    }
}

/// Relies on num_cpus::get: the number of CPUs this process may use, which
/// its documentation promises to be at least 1.
#[verifier::external_body]
fn available_cpus() -> (r: usize)
    ensures
        r >= 1,
{
    num_cpus::get()
}

/// The options of a run.
#[derive(Debug, Clone, Copy, PartialEq, Eq, Structural)]
pub struct Options {
    /// How many jobs run at once.
    pub workers: usize,
    /// The gzip compression level, from 0 to 9.
    pub level: u32,
}

impl Options {
    /// The options given by `args`, with `cpus` CPUs available: `--workers N`
    /// sets the worker count, by default the lesser of `cpus` and
    /// [`MAX_DEFAULT_WORKERS`]; `--level N` sets the compression level, by
    /// default [`DEFAULT_LEVEL`], also when `N` is above [`MAX_LEVEL`]. Only
    /// the first occurrence of a flag counts; a value that does not parse
    /// counts as absent.
    pub fn with_cpus(args: &Vec<String>, cpus: usize) -> (r: Options)
        ensures
            r.workers == match option_value(args.deep_view(), workers_flag(), usize::MAX as nat) {
                Some(n) => n,
                None => min_nat(cpus as nat, MAX_DEFAULT_WORKERS as nat),
            },
            r.level == match option_value(args.deep_view(), level_flag(), MAX_LEVEL as nat) {
                Some(n) => n,
                None => DEFAULT_LEVEL as nat,
            },
            r.level <= MAX_LEVEL,
    {
        proof {
            reveal_strlit("--workers");
            reveal_strlit("--level");
            assert("--workers"@ =~= workers_flag());
            assert("--level"@ =~= level_flag());
        }
        let workers = match option_number(args, "--workers", usize::MAX as u64) {
            Some(n) => n as usize,
            None => if cpus <= MAX_DEFAULT_WORKERS {
                cpus
            } else {
                MAX_DEFAULT_WORKERS
            },
        };
        let level = match option_number(args, "--level", MAX_LEVEL as u64) {
            Some(n) => n as u32,
            None => DEFAULT_LEVEL,
        };
        Options { workers, level }
    }

    /// The options given by `args`, as [`Options::with_cpus`] says, with the
    /// number of CPUs this process may use.
    pub fn from_args(args: &Vec<String>) -> (r: Options)
        ensures
            option_value(args.deep_view(), workers_flag(), usize::MAX as nat) matches Some(n)
                ==> r.workers == n,
            option_value(args.deep_view(), workers_flag(), usize::MAX as nat) is None ==> 1
                <= r.workers <= MAX_DEFAULT_WORKERS,
            r.level == match option_value(args.deep_view(), level_flag(), MAX_LEVEL as nat) {
                Some(n) => n,
                None => DEFAULT_LEVEL as nat,
            },
            r.level <= MAX_LEVEL,
    {
        proof {
            reveal_strlit("--workers");
            assert("--workers"@ =~= workers_flag());
        }
        let cpus = if option_number(args, "--workers", usize::MAX as u64).is_some() {
            1
        } else {
            available_cpus()
        };
        Options::with_cpus(args, cpus)
    }
}

} // verus!
