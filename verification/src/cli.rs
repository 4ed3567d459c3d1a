//! The command-line surface: turning a raw argument list into a
//! validated configuration, a help or version request, or a usage
//! error.
//!
//! Options may come in any order and the last occurrence of an option
//! wins. Each option takes its value as the following argument:
//! `-t`/`--type` (`v4` or `v7`), `-c`/`--count` (a non-negative
//! integer), `-f`/`--format` (`lower-dash`, `upper-dash`,
//! `lower-nodash`, `upper-nodash` or `all`); `-q`/`--quiet` is a bare
//! flag, and `-h`/`--help` and `-V`/`--version` end parsing at once.

use vstd::prelude::*;
use vstd::string::*;
use crate::config::{default_config_spec, Config, OutputFormat, UuidType};

verus! {

/// What went wrong with the argument list.
#[derive(Copy, Clone, PartialEq, Eq, Structural, Debug)]
pub enum UsageKind {
    /// An argument is not a recognized option.
    UnknownOption,
    /// An option that takes a value stands last, with no value after
    /// it.
    MissingValue,
    /// The value given for the UUID type is not a known type name.
    InvalidType,
    /// The value given for the count is not a non-negative integer in
    /// range.
    InvalidCount,
    /// The value given for the format is not a known format name.
    InvalidFormat,
}

/// A usage error: what went wrong, and the argument it went wrong on.
pub struct UsageError {
    /// What went wrong.
    pub kind: UsageKind,
    /// The offending argument: the unknown option, the option missing
    /// its value, or the bad value.
    pub arg: String,
}

/// What a parsed argument list asks for.
pub enum Command {
    /// Generate and print identifiers under this configuration.
    Run(Config),
    /// Print the usage text and exit successfully.
    Help,
    /// Print the version line and exit successfully.
    Version,
}

/// The parse result at the specification level, with the offending
/// argument of a usage error as a character sequence.
pub enum ParseOutcome {
    Run(Config),
    Help,
    Version,
    Usage(UsageKind, Seq<char>),
}

/// The specification-level reading of an executable parse result.
pub open spec fn parse_result_view(r: Result<Command, UsageError>) -> ParseOutcome {
    match r {
        Ok(Command::Run(c)) => ParseOutcome::Run(c),
        Ok(Command::Help) => ParseOutcome::Help,
        Ok(Command::Version) => ParseOutcome::Version,
        Err(e) => ParseOutcome::Usage(e.kind, e.arg@),
    }
}

/// The UUID type a value names, if any.
pub open spec fn type_value_of(s: Seq<char>) -> Option<UuidType> {
    if s == "v4"@ {
        Some(UuidType::V4)
    } else if s == "v7"@ {
        Some(UuidType::V7)
    } else {
        None
    }
}

/// The output format a value names, if any.
pub open spec fn format_value_of(s: Seq<char>) -> Option<OutputFormat> {
    if s == "lower-dash"@ {
        Some(OutputFormat::LowerDash)
    } else if s == "upper-dash"@ {
        Some(OutputFormat::UpperDash)
    } else if s == "lower-nodash"@ {
        Some(OutputFormat::LowerNoDash)
    } else if s == "upper-nodash"@ {
        Some(OutputFormat::UpperNoDash)
    } else if s == "all"@ {
        Some(OutputFormat::All)
    } else {
        None
    }
}

/// A decimal digit.
pub open spec fn is_digit(c: char) -> bool {
    '0' <= c && c <= '9'
}

/// The value of a decimal digit.
pub open spec fn digit_val(c: char) -> int
    recommends
        is_digit(c),
{
    c as u32 - '0' as u32
}

/// The value of a string of decimal digits, most significant first.
pub open spec fn digits_val(s: Seq<char>) -> int
    decreases s.len(),
{
    if s.len() == 0 {
        0
    } else {
        digits_val(s.drop_last()) * 10 + digit_val(s.last())
    }
}

/// A well-formed count value: at least one digit, nothing but digits,
/// and a value that the machine can hold.
pub open spec fn is_count_value(s: Seq<char>) -> bool {
    &&& s.len() > 0
    &&& forall|j: int| 0 <= j < s.len() ==> is_digit(#[trigger] s[j])
    &&& digits_val(s) <= usize::MAX
}

/// What parsing decides from argument `i` on, the options before it
/// already folded into `cfg`.
pub open spec fn parse_from(args: Seq<Seq<char>>, i: int, cfg: Config) -> ParseOutcome
    decreases args.len() - i,
{
    if i < 0 || i >= args.len() {
        ParseOutcome::Run(cfg)
    } else {
        let t = args[i];
        if t == "-h"@ || t == "--help"@ {
            ParseOutcome::Help
        } else if t == "-V"@ || t == "--version"@ {
            ParseOutcome::Version
        } else if t == "-q"@ || t == "--quiet"@ {
            parse_from(
                args,
                i + 1,
                Config { uuid_type: cfg.uuid_type, count: cfg.count, format: cfg.format, quiet: true },
            )
        } else if t == "-t"@ || t == "--type"@ {
            if i + 1 >= args.len() {
                ParseOutcome::Usage(UsageKind::MissingValue, t)
            } else {
                match type_value_of(args[i + 1]) {
                    Some(tp) => parse_from(
                        args,
                        i + 2,
                        Config {
                            uuid_type: tp,
                            count: cfg.count,
                            format: cfg.format,
                            quiet: cfg.quiet,
                        },
                    ),
                    None => ParseOutcome::Usage(UsageKind::InvalidType, args[i + 1]),
                }
            }
        } else if t == "-c"@ || t == "--count"@ {
            if i + 1 >= args.len() {
                ParseOutcome::Usage(UsageKind::MissingValue, t)
            } else if is_count_value(args[i + 1]) {
                parse_from(
                    args,
                    i + 2,
                    Config {
                        uuid_type: cfg.uuid_type,
                        count: digits_val(args[i + 1]) as usize,
                        format: cfg.format,
                        quiet: cfg.quiet,
                    },
                )
            } else {
                ParseOutcome::Usage(UsageKind::InvalidCount, args[i + 1])
            }
        } else if t == "-f"@ || t == "--format"@ {
            if i + 1 >= args.len() {
                ParseOutcome::Usage(UsageKind::MissingValue, t)
            } else {
                match format_value_of(args[i + 1]) {
                    Some(f) => parse_from(
                        args,
                        i + 2,
                        Config {
                            uuid_type: cfg.uuid_type,
                            count: cfg.count,
                            format: f,
                            quiet: cfg.quiet,
                        },
                    ),
                    None => ParseOutcome::Usage(UsageKind::InvalidFormat, args[i + 1]),
                }
            }
        } else {
            ParseOutcome::Usage(UsageKind::UnknownOption, t)
        }
    }
}

/// What a whole argument list (without the program name) decides.
pub open spec fn parse_spec(args: Seq<Seq<char>>) -> ParseOutcome {
    parse_from(args, 0, default_config_spec())
}

/// Character-by-character string equality.
fn str_eq(a: &str, b: &str) -> (r: bool)
    ensures
        r == (a@ == b@),
{
    let la = a.unicode_len();
    let lb = b.unicode_len();
    if la != lb {
        proof {
            assert(a@ != b@);
        }
        return false;
    }
    let mut i: usize = 0;
    while i < la
        invariant
            i <= la,
            la == a@.len(),
            la == b@.len(),
            forall|j: int| 0 <= j < i ==> a@[j] == b@[j],
        decreases la - i,
    {
        if a.get_char(i) != b.get_char(i) {
            return false;
        }
        i = i + 1;
    }
    proof {
        assert(a@ =~= b@);
    }
    true
}

/// The UUID type a value names, if any, as executable code.
fn type_value(s: &str) -> (r: Option<UuidType>)
    ensures
        r == type_value_of(s@),
{
    if str_eq(s, "v4") {
        Some(UuidType::V4)
    } else if str_eq(s, "v7") {
        Some(UuidType::V7)
    } else {
        None
    }
}

/// The output format a value names, if any, as executable code.
fn format_value(s: &str) -> (r: Option<OutputFormat>)
    ensures
        r == format_value_of(s@),
{
    if str_eq(s, "lower-dash") {
        Some(OutputFormat::LowerDash)
    } else if str_eq(s, "upper-dash") {
        Some(OutputFormat::UpperDash)
    } else if str_eq(s, "lower-nodash") {
        Some(OutputFormat::LowerNoDash)
    } else if str_eq(s, "upper-nodash") {
        Some(OutputFormat::UpperNoDash)
    } else if str_eq(s, "all") {
        Some(OutputFormat::All)
    } else {
        None
    }
}

proof fn lemma_digits_step(s: Seq<char>, k: int)
    requires
        0 <= k < s.len(),
    ensures
        digits_val(s.take(k + 1)) == digits_val(s.take(k)) * 10 + digit_val(s[k]),
{
    assert(s.take(k + 1).drop_last() =~= s.take(k));
    assert(s.take(k + 1).last() == s[k]);
}

proof fn lemma_digits_nonneg(s: Seq<char>)
    requires
        forall|j: int| 0 <= j < s.len() ==> is_digit(#[trigger] s[j]),
    ensures
        digits_val(s) >= 0,
    decreases s.len(),
{
    if s.len() > 0 {
        lemma_digits_nonneg(s.drop_last());
    }
}

/// Digits to the right only grow the value of a digit string.
proof fn lemma_digits_monotone(s: Seq<char>, k: int)
    requires
        0 <= k <= s.len(),
        forall|j: int| 0 <= j < s.len() ==> is_digit(#[trigger] s[j]),
    ensures
        digits_val(s) >= digits_val(s.take(k)),
    decreases s.len() - k,
{
    if k == s.len() {
        assert(s.take(k) =~= s);
    } else {
        lemma_digits_step(s, k);
        assert(s.take(k).len() == k);
        assert(forall|j: int| 0 <= j < k ==> is_digit(#[trigger] s.take(k)[j]));
        lemma_digits_nonneg(s.take(k));
        lemma_digits_monotone(s, k + 1);
    }
}

/// A count value parsed from a decimal string; nothing when the
/// string is empty, holds a non-digit, or names a value the machine
/// cannot hold.
fn parse_count(s: &str) -> (r: Option<usize>)
    ensures
        r is Some <==> is_count_value(s@),
        r matches Some(n) ==> n == digits_val(s@),
{
    let len = s.unicode_len();
    if len == 0 {
        return None;
    }
    let mut val: usize = 0;
    let mut i: usize = 0;
    while i < len
        invariant
            0 < len == s@.len(),
            i <= len,
            forall|j: int| 0 <= j < i ==> is_digit(#[trigger] s@[j]),
            val == digits_val(s@.take(i as int)),
        decreases len - i,
    {
        let c = s.get_char(i);
        if c < '0' || c > '9' {
            proof {
                assert(!is_digit(s@[i as int]));
            }
            return None;
        }
        let d: usize = (c as u32 - 48) as usize;
        proof {
            lemma_digits_step(s@, i as int);
        }
        let stepped = match val.checked_mul(10) {
            Some(p) => p.checked_add(d),
            None => None,
        };
        match stepped {
            Some(q) => {
                val = q;
            },
            None => {
                proof {
                    assert(digits_val(s@.take(i + 1)) > usize::MAX);
                    if forall|j: int| 0 <= j < s@.len() ==> is_digit(#[trigger] s@[j]) {
                        lemma_digits_monotone(s@, i + 1);
                        assert(digits_val(s@) > usize::MAX);
                    }
                }
                return None;
            },
        }
        i = i + 1;
    }
    proof {
        assert(s@.take(len as int) =~= s@);
    }
    Some(val)
}

/// Parse an argument list (without the program name) into the command
/// it asks for, or the first usage error in it, exactly as
/// `parse_spec` reads the list.
pub fn parse_args(args: &Vec<String>) -> (r: Result<Command, UsageError>)
    ensures
        parse_result_view(r) == parse_spec(args.deep_view()),
{
    let ghost dv = args.deep_view();
    let mut cfg = Config::default_config();
    let mut i: usize = 0;
    while i < args.len()
        invariant
            i <= args.len(),
            dv == args.deep_view(),
            dv.len() == args.len(),
            parse_spec(dv) == parse_from(dv, i as int, cfg),
        decreases args.len() - i,
    {
        proof {
            assert(dv[i as int] == args@[i as int]@);
        }
        let t: &String = &args[i];
        if str_eq(t.as_str(), "-h") || str_eq(t.as_str(), "--help") {
            return Ok(Command::Help);
        } else if str_eq(t.as_str(), "-V") || str_eq(t.as_str(), "--version") {
            return Ok(Command::Version);
        } else if str_eq(t.as_str(), "-q") || str_eq(t.as_str(), "--quiet") {
            cfg = Config { uuid_type: cfg.uuid_type, count: cfg.count, format: cfg.format, quiet: true };
            i = i + 1;
        } else if str_eq(t.as_str(), "-t") || str_eq(t.as_str(), "--type") {
            if i + 1 >= args.len() {
                return Err(UsageError { kind: UsageKind::MissingValue, arg: t.clone() });
            }
            proof {
                assert(dv[i + 1] == args@[i + 1]@);
            }
            let v: &String = &args[i + 1];
            match type_value(v.as_str()) {
                Some(tp) => {
                    cfg = Config {
                        uuid_type: tp,
                        count: cfg.count,
                        format: cfg.format,
                        quiet: cfg.quiet,
                    };
                    i = i + 2;
                },
                None => {
                    return Err(UsageError { kind: UsageKind::InvalidType, arg: v.clone() });
                },
            }
        } else if str_eq(t.as_str(), "-c") || str_eq(t.as_str(), "--count") {
            if i + 1 >= args.len() {
                return Err(UsageError { kind: UsageKind::MissingValue, arg: t.clone() });
            }
            proof {
                assert(dv[i + 1] == args@[i + 1]@);
            }
            let v: &String = &args[i + 1];
            match parse_count(v.as_str()) {
                Some(n) => {
                    cfg = Config {
                        uuid_type: cfg.uuid_type,
                        count: n,
                        format: cfg.format,
                        quiet: cfg.quiet,
                    };
                    i = i + 2;
                },
                None => {
                    return Err(UsageError { kind: UsageKind::InvalidCount, arg: v.clone() });
                },
            }
        } else if str_eq(t.as_str(), "-f") || str_eq(t.as_str(), "--format") {
            if i + 1 >= args.len() {
                return Err(UsageError { kind: UsageKind::MissingValue, arg: t.clone() });
            }
            proof {
                assert(dv[i + 1] == args@[i + 1]@);
            }
            let v: &String = &args[i + 1];
            match format_value(v.as_str()) {
                Some(f) => {
                    cfg = Config {
                        uuid_type: cfg.uuid_type,
                        count: cfg.count,
                        format: f,
                        quiet: cfg.quiet,
                    };
                    i = i + 2;
                },
                None => {
                    return Err(UsageError { kind: UsageKind::InvalidFormat, arg: v.clone() });
                },
            }
        } else {
            return Err(UsageError { kind: UsageKind::UnknownOption, arg: t.clone() });
        }
    }
    Ok(Command::Run(cfg))
}

} // verus!
