//! Command-line grammar of the tool, as a verified parser over plain tokens.
//!
//! The grammar: an optional positional path (default `.`), `--depth`/`-d`
//! with a decimal value (default 1), `--min-size`/`-m` with a decimal value,
//! and the mutually exclusive switches `--dirs-only` and `--files-only`.

use vstd::prelude::*;
use vstd::string::StringExecFns;
use vstd::string::StrSliceExecFns;
use vstd::arithmetic::div_mod::lemma_fundamental_div_mod;

verus! {

/// The numeric value of a decimal digit character.
pub open spec fn digit_val(c: char) -> int {
    c as u32 - 48
}

/// True for the ten decimal digit characters.
pub open spec fn is_digit(c: char) -> bool {
    48 <= c as u32 <= 57
}

/// Every character of the text is a decimal digit.
pub open spec fn all_digits(s: Seq<char>) -> bool {
    forall|i: int| 0 <= i < s.len() ==> is_digit(#[trigger] s[i])
}

/// The number that a text of decimal digits denotes, most significant first.
pub open spec fn digits_value(s: Seq<char>) -> int
    decreases s.len(),
{
    if s.len() == 0 {
        0
    } else {
        10 * digits_value(s.drop_last()) + digit_val(s.last())
    }
}

/// A digit text denotes a number at least 0.
proof fn lemma_digits_nonneg(s: Seq<char>)
    requires
        all_digits(s),
    ensures
        digits_value(s) >= 0,
    decreases s.len(),
{
    if s.len() > 0 {
        assert(all_digits(s.drop_last())) by {
            assert(forall|i: int|
                0 <= i < s.len() - 1 ==> #[trigger] s.drop_last()[i] == s[i]);
        }
        lemma_digits_nonneg(s.drop_last());
    }
}

/// A prefix of a digit text denotes at most what the whole text denotes.
proof fn lemma_digits_prefix_bound(s: Seq<char>, k: int)
    requires
        all_digits(s),
        0 <= k <= s.len(),
    ensures
        digits_value(s.take(k)) <= digits_value(s),
    decreases s.len() - k,
{
    if k == s.len() {
        assert(s.take(k) =~= s);
    } else {
        assert(s.take(k + 1).drop_last() =~= s.take(k));
        assert(s.take(k + 1).last() == s[k]);
        assert(all_digits(s.take(k))) by {
            assert(forall|i: int| 0 <= i < k ==> #[trigger] s.take(k)[i] == s[i]);
        }
        lemma_digits_nonneg(s.take(k));
        assert(digits_value(s.take(k + 1)) == 10 * digits_value(s.take(k)) + digit_val(s[k]));
        lemma_digits_prefix_bound(s, k + 1);
    }
}

/// Reads a whole text as an unsigned decimal number.
///
/// Returns the denoted value exactly when the text is non-empty, consists of
/// decimal digits only, and the value fits in 64 bits; returns nothing
/// otherwise.
pub fn parse_u64(s: &str) -> (r: Option<u64>)
    ensures
        r matches Some(v) ==> s@.len() > 0 && all_digits(s@) && digits_value(s@) == v,
        r is None ==> !(s@.len() > 0 && all_digits(s@) && digits_value(s@) <= u64::MAX),
{
    let n = s.unicode_len();
    if n == 0 {
        return None;
    }
    let mut v: u64 = 0;
    let mut i: usize = 0;
    while i < n
        invariant
            n == s@.len(),
            i <= n,
            all_digits(s@.take(i as int)),
            v == digits_value(s@.take(i as int)),
        decreases n - i,
    {
        let c = s.get_char(i);
        let d: u32 = c as u32;
        if d < 48 || d > 57 {
            proof {
                if all_digits(s@) {
                    assert(is_digit(s@[i as int]));
                }
            }
            return None;
        }
        let d64: u64 = (d - 48) as u64;
        proof {
            lemma_fundamental_div_mod((u64::MAX - d64) as int, 10);
        }
        if v > (u64::MAX - d64) / 10 {
            proof {
                assert(10 * (v as int) + d64 > u64::MAX);
                assert(s@.take(i as int + 1).drop_last() =~= s@.take(i as int));
                assert(s@.take(i as int + 1).last() == s@[i as int]);
                if all_digits(s@) {
                    lemma_digits_prefix_bound(s@, i as int + 1);
                    assert(digits_value(s@.take(i as int + 1)) == 10 * (v as int) + d64);
                }
            }
            return None;
        }
        proof {
            assert(10 * (v as int) + d64 <= u64::MAX);
            assert(s@.take(i as int + 1).drop_last() =~= s@.take(i as int));
            assert(s@.take(i as int + 1).last() == s@[i as int]);
            assert(forall|j: int|
                0 <= j < i ==> #[trigger] s@.take(i as int + 1)[j] == s@.take(i as int)[j]);
        }
        v = v * 10 + d64;
        i = i + 1;
    }
    proof {
        assert(s@.take(n as int) =~= s@);
    }
    Some(v)
}

/// What the user asked for on the command line.
pub struct CliOptions {
    /// Directory to analyze; `.` when none was given.
    pub path: String,
    /// Maximum directory depth to analyze; 1 when none was given.
    pub depth: usize,
    /// Minimum size threshold in bytes, when one was given.
    pub min_size: Option<u64>,
    /// Show only directories.
    pub dirs_only: bool,
    /// Show only files.
    pub files_only: bool,
}

/// Why the command line was rejected.
#[derive(Debug)]
pub enum CliError {
    /// A value-taking flag stood last, with no value after it.
    MissingValue(String),
    /// A value that is not a plain decimal number, or does not fit.
    InvalidNumber(String),
    /// `--dirs-only` together with `--files-only`.
    ConflictingFilters,
    /// A flag the tool does not know.
    UnknownFlag(String),
    /// A second positional path.
    UnexpectedArgument(String),
}

impl CliError {
    /// A human-readable description of the rejection.
    pub fn message(&self) -> String {
        match self {
            CliError::MissingValue(f) => {
                let mut m = String::from_str("missing value for '");
                m.append(f.as_str());
                m.append("'");
                m
            },
            CliError::InvalidNumber(t) => {
                let mut m = String::from_str("invalid number '");
                m.append(t.as_str());
                m.append("'");
                m
            },
            CliError::ConflictingFilters => String::from_str(
                "'--dirs-only' cannot be used with '--files-only'",
            ),
            CliError::UnknownFlag(f) => {
                let mut m = String::from_str("unknown flag '");
                m.append(f.as_str());
                m.append("'");
                m
            },
            CliError::UnexpectedArgument(t) => {
                let mut m = String::from_str("unexpected argument '");
                m.append(t.as_str());
                m.append("'");
                m
            },
        }
    }
}

/// True when the argument reads exactly as the given text.
fn arg_is(a: &String, lit: &str) -> (r: bool)
    ensures
        r == (a@ == lit@),
{
    *a == String::from_str(lit)
}

/// Which rule rejected a command line.
pub enum CliFault {
    MissingValue,
    InvalidNumber,
    ConflictingFilters,
    UnknownFlag,
    UnexpectedArgument,
}

/// The rule behind a concrete rejection.
pub open spec fn fault_of(e: CliError) -> CliFault {
    match e {
        CliError::MissingValue(_) => CliFault::MissingValue,
        CliError::InvalidNumber(_) => CliFault::InvalidNumber,
        CliError::ConflictingFilters => CliFault::ConflictingFilters,
        CliError::UnknownFlag(_) => CliFault::UnknownFlag,
        CliError::UnexpectedArgument(_) => CliFault::UnexpectedArgument,
    }
}

/// The text of an optional argument.
pub open spec fn opt_text(o: Option<String>) -> Option<Seq<char>> {
    match o {
        Option::Some(p) => Option::Some(p@),
        Option::None => Option::None,
    }
}

/// The command-line grammar itself: what parsing the tokens from position `i`
/// onward yields, starting from the given partial state. Flags may come in
/// any order and a later value-taking flag overrides an earlier one; the
/// positional path may be given once; the two type filters together are
/// rejected once all tokens are read.
pub open spec fn parse_model(
    args: Seq<Seq<char>>,
    i: int,
    path: Option<Seq<char>>,
    depth: int,
    min_size: Option<u64>,
    dirs_only: bool,
    files_only: bool,
) -> Result<(Seq<char>, int, Option<u64>, bool, bool), CliFault>
    decreases args.len() - i,
{
    if i >= args.len() {
        if dirs_only && files_only {
            Err(CliFault::ConflictingFilters)
        } else {
            Ok(
                (
                    match path {
                        Option::Some(p) => p,
                        Option::None => "."@,
                    },
                    depth,
                    min_size,
                    dirs_only,
                    files_only,
                ),
            )
        }
    } else {
        let a = args[i];
        if a == "--depth"@ || a == "-d"@ {
            if i + 1 >= args.len() {
                Err(CliFault::MissingValue)
            } else {
                let v = args[i + 1];
                if v.len() > 0 && all_digits(v) && digits_value(v) <= usize::MAX {
                    parse_model(args, i + 2, path, digits_value(v), min_size, dirs_only, files_only)
                } else {
                    Err(CliFault::InvalidNumber)
                }
            }
        } else if a == "--min-size"@ || a == "-m"@ {
            if i + 1 >= args.len() {
                Err(CliFault::MissingValue)
            } else {
                let v = args[i + 1];
                if v.len() > 0 && all_digits(v) && digits_value(v) <= u64::MAX {
                    parse_model(
                        args,
                        i + 2,
                        path,
                        depth,
                        Option::Some(digits_value(v) as u64),
                        dirs_only,
                        files_only,
                    )
                } else {
                    Err(CliFault::InvalidNumber)
                }
            }
        } else if a == "--dirs-only"@ {
            parse_model(args, i + 1, path, depth, min_size, true, files_only)
        } else if a == "--files-only"@ {
            parse_model(args, i + 1, path, depth, min_size, dirs_only, true)
        } else if a.len() > 0 && a[0] == '-' {
            Err(CliFault::UnknownFlag)
        } else if path is Some {
            Err(CliFault::UnexpectedArgument)
        } else {
            parse_model(args, i + 1, Option::Some(a), depth, min_size, dirs_only, files_only)
        }
    }
}

/// Parses the program's arguments, the program name first.
///
/// With no arguments beyond the program name, the defaults are returned: the
/// current directory, depth 1, no size threshold, no type filter. The two
/// type filters are mutually exclusive: asking for both is rejected, and an
/// accepted command line never carries both.
pub fn parse_args(args: &Vec<String>) -> (r: Result<CliOptions, CliError>)
    ensures
        ({
            let m = parse_model(
                args@.map_values(|s: String| s@),
                1,
                Option::None,
                1,
                Option::None,
                false,
                false,
            );
            &&& (r matches Ok(o) ==> m matches Ok(t) && o.path@ == t.0 && o.depth as int == t.1
                && o.min_size == t.2 && o.dirs_only == t.3 && o.files_only == t.4)
            &&& (r matches Err(e) ==> m matches Err(k) && fault_of(e) == k)
        }),
        args@.len() <= 1 ==> (r matches Ok(o) && o.path@ == "."@ && o.depth == 1 && o.min_size
            is None && !o.dirs_only && !o.files_only),
        r matches Ok(o) ==> !(o.dirs_only && o.files_only),
{
    let ghost views = args@.map_values(|s: String| s@);
    let ghost whole = parse_model(views, 1, Option::None, 1, Option::None, false, false);
    let mut path: Option<String> = None;
    let mut depth: usize = 1;
    let mut min_size: Option<u64> = None;
    let mut dirs_only = false;
    let mut files_only = false;
    let mut i: usize = 1;
    while i < args.len()
        invariant
            i >= 1,
            views == args@.map_values(|s: String| s@),
            whole == parse_model(views, 1, Option::None, 1, Option::None, false, false),
            whole == parse_model(
                views,
                i as int,
                opt_text(path),
                depth as int,
                min_size,
                dirs_only,
                files_only,
            ),
            args@.len() <= 1 ==> (path is None && depth == 1 && min_size is None && !dirs_only
                && !files_only),
        decreases args@.len() - i,
    {
        let a = &args[i];
        proof {
            assert(views[i as int] == a@);
            assert(i < views.len());
        }
        if arg_is(a, "--depth") || arg_is(a, "-d") {
            if i + 1 >= args.len() {
                proof {
                    assert(whole == Result::<
                        (Seq<char>, int, Option<u64>, bool, bool),
                        CliFault,
                    >::Err(CliFault::MissingValue));
                }
                return Err(CliError::MissingValue(a.clone()));
            }
            let value = &args[i + 1];
            proof {
                assert(views[i as int + 1] == value@);
            }
            match parse_u64(value.as_str()) {
                Some(v) => {
                    if v > usize::MAX as u64 {
                        return Err(CliError::InvalidNumber(value.clone()));
                    }
                    depth = v as usize;
                },
                None => {
                    proof {
                        assert(usize::MAX as u64 <= u64::MAX);
                    }
                    return Err(CliError::InvalidNumber(value.clone()));
                },
            }
            i = i + 2;
        } else if arg_is(a, "--min-size") || arg_is(a, "-m") {
            if i + 1 >= args.len() {
                return Err(CliError::MissingValue(a.clone()));
            }
            let value = &args[i + 1];
            proof {
                assert(views[i as int + 1] == value@);
            }
            match parse_u64(value.as_str()) {
                Some(v) => {
                    min_size = Some(v);
                },
                None => {
                    return Err(CliError::InvalidNumber(value.clone()));
                },
            }
            i = i + 2;
        } else if arg_is(a, "--dirs-only") {
            dirs_only = true;
            i = i + 1;
        } else if arg_is(a, "--files-only") {
            files_only = true;
            i = i + 1;
        } else {
            let starts_dash = if a.as_str().is_empty() {
                false
            } else {
                a.as_str().get_char(0) == '-'
            };
            if starts_dash {
                return Err(CliError::UnknownFlag(a.clone()));
            }
            if path.is_some() {
                return Err(CliError::UnexpectedArgument(a.clone()));
            }
            path = Some(a.clone());
            i = i + 1;
        }
    }
    if dirs_only && files_only {
        return Err(CliError::ConflictingFilters);
    }
    let path = match path {
        Some(p) => p,
        None => String::from_str("."),
    };
    Ok(CliOptions { path, depth, min_size, dirs_only, files_only })
}

} // verus!
