//! Severity classification of sanitized log lines.
//!
//! Policy: anything on stderr is an error. A stdout line is scanned
//! case-insensitively for the keywords `FAIL` or `ERROR` (an error),
//! then `WARN` (a warning); otherwise it is informational.

use vstd::prelude::*;
use vstd::string::StrSliceExecFns;

verus! {

/// Severity attached to one log line.
#[derive(Clone, Copy, Debug, PartialEq, Eq, Structural)]
pub enum LogLevel {
    Info,
    Warn,
    Error,
}

/// Which process stream a line arrived on.
#[derive(Clone, Copy, Debug, PartialEq, Eq, Structural)]
pub enum LogSource {
    Stdout,
    Stderr,
}

/// True when `msg` carries, at offset `i`, the keyword whose uppercase
/// spelling is `upper` and lowercase spelling is `lower`, with letters of
/// either case mixing freely.
pub open spec fn matches_keyword_at(
    msg: Seq<char>,
    upper: Seq<char>,
    lower: Seq<char>,
    i: int,
) -> bool {
    &&& 0 <= i
    &&& i + upper.len() <= msg.len()
    &&& forall|j: int| 0 <= j < upper.len() ==> msg[i + j] == upper[j] || msg[i + j] == lower[j]
}

/// True when `msg` contains the keyword anywhere, case-insensitively.
pub open spec fn contains_keyword(msg: Seq<char>, upper: Seq<char>, lower: Seq<char>) -> bool {
    exists|i: int| matches_keyword_at(msg, upper, lower, i)
}

pub open spec fn fail_upper() -> Seq<char> {
    seq!['F', 'A', 'I', 'L']
}

pub open spec fn fail_lower() -> Seq<char> {
    seq!['f', 'a', 'i', 'l']
}

pub open spec fn error_upper() -> Seq<char> {
    seq!['E', 'R', 'R', 'O', 'R']
}

pub open spec fn error_lower() -> Seq<char> {
    seq!['e', 'r', 'r', 'o', 'r']
}

pub open spec fn warn_upper() -> Seq<char> {
    seq!['W', 'A', 'R', 'N']
}

pub open spec fn warn_lower() -> Seq<char> {
    seq!['w', 'a', 'r', 'n']
}

/// True when the text reads as a failure: it contains `FAIL` or `ERROR`
/// in any case.
pub open spec fn is_error_text(msg: Seq<char>) -> bool {
    contains_keyword(msg, fail_upper(), fail_lower()) || contains_keyword(
        msg,
        error_upper(),
        error_lower(),
    )
}

/// True when the text contains `WARN` in any case.
pub open spec fn is_warn_text(msg: Seq<char>) -> bool {
    contains_keyword(msg, warn_upper(), warn_lower())
}

/// The severity the classifier owes a line: stderr is always an error;
/// stdout falls through failure keywords, then the warning keyword.
pub open spec fn spec_classify(source: LogSource, msg: Seq<char>) -> LogLevel {
    if source is Stderr {
        LogLevel::Error
    } else if is_error_text(msg) {
        LogLevel::Error
    } else if is_warn_text(msg) {
        LogLevel::Warn
    } else {
        LogLevel::Info
    }
}

/// Whether the keyword spelled `upper`/`lower` stands in `msg` at offset `i`.
fn keyword_match_at(msg: &str, upper: &str, lower: &str, i: usize) -> (r: bool)
    requires
        upper@.len() == lower@.len(),
        i + upper@.len() <= msg@.len(),
        i + upper@.len() <= usize::MAX,
    ensures
        r == matches_keyword_at(msg@, upper@, lower@, i as int),
{
    let n = upper.unicode_len();
    let mut j: usize = 0;
    while j < n
        invariant
            n == upper@.len(),
            upper@.len() == lower@.len(),
            i + n <= msg@.len(),
            i + n <= usize::MAX,
            j <= n,
            forall|k: int| 0 <= k < j ==> msg@[i + k] == upper@[k] || msg@[i + k] == lower@[k],
        decreases n - j,
    {
        let c = msg.get_char(i + j);
        let cu = upper.get_char(j);
        let cl = lower.get_char(j);
        if c != cu && c != cl {
            return false;
        }
        j = j + 1;
    }
    true
}

/// Case-insensitive substring scan for one keyword.
fn contains_keyword_exec(msg: &str, upper: &str, lower: &str) -> (r: bool)
    requires
        upper@.len() == lower@.len(),
        upper@.len() >= 1,
    ensures
        r == contains_keyword(msg@, upper@, lower@),
{
    let m = msg.unicode_len();
    let n = upper.unicode_len();
    if n > m {
        return false;
    }
    let mut i: usize = 0;
    while i <= m - n
        invariant
            n == upper@.len(),
            upper@.len() == lower@.len(),
            m == msg@.len(),
            n <= m,
            i <= m - n + 1,
            forall|k: int| 0 <= k < i ==> !matches_keyword_at(msg@, upper@, lower@, k),
        decreases m - n + 1 - i,
    {
        if keyword_match_at(msg, upper, lower, i) {
            return true;
        }
        i = i + 1;
    }
    false
}

/// Assigns a severity to one sanitized line.
///
/// Every line from stderr is an error regardless of content. A stdout
/// line containing `FAIL` or `ERROR` in any case is an error; failing
/// that, one containing `WARN` in any case is a warning; all other
/// stdout lines are informational.
pub fn classify_level(source: LogSource, message: &str) -> (level: LogLevel)
    ensures
        level == spec_classify(source, message@),
        source is Stderr ==> level == LogLevel::Error,
        source is Stdout && is_error_text(message@) ==> level == LogLevel::Error,
        source is Stdout && !is_error_text(message@) && is_warn_text(message@) ==> level
            == LogLevel::Warn,
        source is Stdout && !is_error_text(message@) && !is_warn_text(message@) ==> level
            == LogLevel::Info,
{
    match source {
        LogSource::Stderr => LogLevel::Error,
        LogSource::Stdout => {
            proof {
                reveal_strlit("FAIL");
                reveal_strlit("fail");
                reveal_strlit("ERROR");
                reveal_strlit("error");
                reveal_strlit("WARN");
                reveal_strlit("warn");
                assert("FAIL"@ =~= fail_upper());
                assert("fail"@ =~= fail_lower());
                assert("ERROR"@ =~= error_upper());
                assert("error"@ =~= error_lower());
                assert("WARN"@ =~= warn_upper());
                assert("warn"@ =~= warn_lower());
            }
            if contains_keyword_exec(message, "FAIL", "fail") || contains_keyword_exec(
                message,
                "ERROR",
                "error",
            ) {
                LogLevel::Error
            } else if contains_keyword_exec(message, "WARN", "warn") {
                LogLevel::Warn
            } else {
                LogLevel::Info
            }
        },
    }
}

} // verus!
