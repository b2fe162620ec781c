use vstd::prelude::*;

use crate::config::Config;

verus! {

/// The letters that `time_format` accepts after a `%` in a format.
pub open spec fn is_format_specifier(c: char) -> bool {
    ||| c == 'a' || c == 'A' || c == 'b' || c == 'B' || c == 'c' || c == 'C'
    ||| c == 'd' || c == 'D' || c == 'e' || c == 'F' || c == 'g' || c == 'G'
    ||| c == 'h' || c == 'H' || c == 'I' || c == 'j' || c == 'k' || c == 'l'
    ||| c == 'm' || c == 'M' || c == 'n' || c == 'p' || c == 'P' || c == 'r'
    ||| c == 'R' || c == 's' || c == 'S' || c == 't' || c == 'T' || c == 'u'
    ||| c == 'U' || c == 'V' || c == 'w' || c == 'W' || c == 'x' || c == 'X'
    ||| c == 'y' || c == 'Y' || c == 'z' || c == 'Z' || c == '%' || c == 'E'
    ||| c == 'O' || c == '+'
}

/// Whether every `%` of `s`, read from the left, is followed by an accepted letter
/// (the pair is then skipped).
pub open spec fn specifiers_accepted(s: Seq<char>) -> bool
    decreases s.len(),
{
    if s.len() == 0 {
        true
    } else if s[0] == '%' {
        s.len() >= 2 && is_format_specifier(s[1]) && specifiers_accepted(s.subrange(2, s.len() as int))
    } else {
        specifiers_accepted(s.drop_first())
    }
}

/// How many times `c` occurs in `s`.
pub open spec fn char_count(s: Seq<char>, c: char) -> nat {
    s.filter(|x: char| x == c).len()
}

/// Whether `time_format` accepts `s` as a format: it is not empty, holds no NUL
/// character, every `%` is followed by an accepted letter, and it has as many
/// `{` as `}`.
pub open spec fn time_format_accepted(s: Seq<char>) -> bool {
    &&& s.len() > 0
    &&& !s.contains('\0')
    &&& specifiers_accepted(s)
    &&& char_count(s, '{') == char_count(s, '}')
}

/// Calls `time_format::strftime_local`: formats the UNIX time `ts` in the
/// machine's local time zone with the strftime `format`; an error of the formatter
/// gives `None`. The function checks the format first (`validate_format`) and
/// fails on one it does not accept; it succeeds only when `strftime` wrote at
/// least one byte, so a text it returns is never empty. That is all that is
/// claimed: the text itself depends on the time zone and locale of the machine,
/// and whether an accepted format and time succeed is left unsaid.
#[verifier::external_body]
fn strftime_local(format: &str, ts: i64) -> (r: Option<String>)
    ensures
        !time_format_accepted(format@) ==> r is None,
        r matches Some(t) ==> t@.len() > 0,
{
    time_format::strftime_local(format, ts).ok()
}

/// The clock text of the bar for the UNIX time `ts`, in the configured format and
/// the local time zone; `None` when the formatter fails, as it does for every
/// format it does not accept; a text it returns is never empty.
pub fn get_current_time_label(config: &Config, ts: i64) -> (label: Option<String>)
    ensures
        !time_format_accepted(config.time_format@) ==> label is None,
        label matches Some(t) ==> t@.len() > 0,
{
    strftime_local(config.time_format.as_str(), ts)
}

} // verus!
