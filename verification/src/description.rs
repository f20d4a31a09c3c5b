//! The annotation attached to each rule: who opened it, from which machine, and when.

use vstd::prelude::*;
use crate::text::{chars_of, copy_range, is_alphanumeric_char, string_of};

verus! {

/// The longest user or host segment that a description carries, in characters.
pub const SEGMENT_LIMIT: usize = 80;

/// The longest description that the remote API accepts, in characters.
pub const DESCRIPTION_LIMIT: usize = 255;

/// The punctuation that a description may hold besides letters and digits.
pub open spec fn is_allowed_punctuation(c: char) -> bool {
    ||| c == '.'
    ||| c == '_'
    ||| c == '-'
    ||| c == ':'
    ||| c == '/'
    ||| c == '('
    ||| c == ')'
    ||| c == '#'
    ||| c == ','
    ||| c == '@'
    ||| c == '['
    ||| c == ']'
    ||| c == '+'
    ||| c == '='
    ||| c == '&'
    ||| c == ';'
    ||| c == '{'
    ||| c == '}'
    ||| c == '!'
    ||| c == '$'
    ||| c == '*'
}

/// The characters that a description may hold.
pub open spec fn is_description_char(c: char) -> bool {
    is_alphanumeric_char(c) || is_allowed_punctuation(c)
}

/// `text` with every character dropped that a description may not hold.
pub open spec fn sanitized(text: Seq<char>) -> Seq<char> {
    text.filter(|c: char| is_description_char(c))
}

/// `text` cut down to its first `limit` characters.
pub open spec fn truncated(text: Seq<char>, limit: nat) -> Seq<char> {
    if text.len() <= limit {
        text
    } else {
        text.take(limit as int)
    }
}

/// The name under which the user appears: `user`, or `alternate` where `user` is empty.
pub open spec fn user_identifier(user: Seq<char>, alternate: Seq<char>) -> Seq<char> {
    if user.len() == 0 {
        alternate
    } else {
        user
    }
}

/// The description before sanitization: `<user> on <host> at <timestamp>`, with
/// user and host cut down to the segment limit.
pub open spec fn composed(user: Seq<char>, host: Seq<char>, timestamp: Seq<char>) -> Seq<char> {
    truncated(user, SEGMENT_LIMIT as nat) + " on "@ + truncated(host, SEGMENT_LIMIT as nat)
        + " at "@ + timestamp
}

/// The description that accompanies a rule.
pub open spec fn machine_description(
    user: Seq<char>,
    alternate: Seq<char>,
    host: Seq<char>,
    timestamp: Seq<char>,
) -> Seq<char> {
    sanitized(composed(user_identifier(user, alternate), host, timestamp))
}

/// Whether a description may hold `c`.
pub fn allows(c: char) -> (allowed: bool)
    ensures
        allowed == is_description_char(c),
{
    c.is_alphanumeric() || is_punctuation_allowed(c)
}

/// Whether `c` is punctuation that a description may hold.
fn is_punctuation_allowed(c: char) -> (allowed: bool)
    ensures
        allowed == is_allowed_punctuation(c),
{
    match c {
        '.' | '_' | '-' | ':' | '/' | '(' | ')' | '#' | ',' | '@' => true,
        '[' | ']' | '+' | '=' | '&' | ';' | '{' | '}' | '!' | '$' | '*' => true,
        _ => false,
    }
}

/// Drops from `text` every character that a description may not hold.
pub fn sanitize(text: &str) -> (clean: String)
    ensures
        clean@ == sanitized(text@),
{
    let chars = chars_of(text);
    let mut kept: Vec<char> = Vec::new();
    let ghost keep = |c: char| is_description_char(c);
    let mut i: usize = 0;
    assert(chars@.take(0).filter(keep) =~= Seq::<char>::empty()) by {
        reveal(Seq::filter);
    }
    while i < chars.len()
        invariant
            i <= chars.len(),
            keep == |c: char| is_description_char(c),
            kept@ == chars@.take(i as int).filter(keep),
        decreases chars.len() - i,
    {
        let c = chars[i];
        proof {
            assert(chars@.take(i + 1) =~= chars@.take(i as int).push(c));
            chars@.take(i as int).lemma_filter_push(c, keep);
        }
        if allows(c) {
            kept.push(c);
        }
        i += 1;
    }
    assert(chars@.take(chars.len() as int) =~= chars@);
    string_of(&kept)
}

/// Cuts `text` down to its first `limit` characters.
pub fn truncate(text: &str, limit: usize) -> (cut: String)
    ensures
        cut@ == truncated(text@, limit as nat),
{
    let chars = chars_of(text);
    if chars.len() <= limit {
        string_of(&chars)
    } else {
        let head = copy_range(&chars, 0, limit);
        assert(chars@.subrange(0, limit as int) =~= chars@.take(limit as int));
        string_of(&head)
    }
}

/// Composes `<user> on <host> at <timestamp>`, with user and host cut down to the
/// segment limit.
pub fn compose_description(user: &str, host: &str, timestamp: &str) -> (text: String)
    ensures
        text@ == composed(user@, host@, timestamp@),
{
    let mut text = truncate(user, SEGMENT_LIMIT);
    let host_segment = truncate(host, SEGMENT_LIMIT);
    text.append(" on ");
    text.append(host_segment.as_str());
    text.append(" at ");
    text.append(timestamp);
    text
}

/// Builds the description that accompanies a rule from the user's name, the
/// alternate identity to use where that name is empty, the host's name and the
/// time of the run, already rendered.
pub fn describe_machine(user: &str, alternate: &str, host: &str, timestamp: &str) -> (text: String)
    ensures
        text@ == machine_description(user@, alternate@, host@, timestamp@),
{
    let composed = if user.unicode_len() == 0 {
        compose_description(alternate, host, timestamp)
    } else {
        compose_description(user, host, timestamp)
    };
    sanitize(composed.as_str())
}

/// The strftime pattern of a run's time: date and time of day, to the minute.
pub open spec fn minute_pattern() -> Seq<char> {
    "%Y-%m-%d %H:%M"@
}

/// What chrono renders for the UTC time `unix_seconds` seconds after the epoch
/// under the strftime pattern `pattern`; `None` where chrono cannot represent
/// that time.
pub uninterp spec fn utc_rendering(unix_seconds: i64, pattern: Seq<char>) -> Option<Seq<char>>;

/// The last second of the year 9999, in seconds after the epoch.
pub const LAST_FOUR_DIGIT_SECOND: i64 = 253_402_300_799;

/// How many characters the minute pattern renders for a year of four digits.
pub const MINUTE_TEXT_LENGTH: usize = 16;

/// `DateTime::from_timestamp` and `DateTime::format` of chrono: the time
/// `unix_seconds` seconds after the epoch, in UTC, rendered under `pattern`. The
/// rendering depends on these two values alone and is given the name
/// [`utc_rendering`]. Only the minute pattern is admitted, which chrono renders
/// without failing. From the epoch to the end of the year 9999 chrono has a
/// date for every second, and renders its year in four digits and month, day,
/// hour and minute in two digits each: sixteen characters with the four marks
/// between them.
#[verifier::external_body]
fn render_utc(unix_seconds: i64, pattern: &str) -> (text: Option<String>)
    requires
        pattern@ == minute_pattern(),
    ensures
        text is Some <==> utc_rendering(unix_seconds, pattern@) is Some,
        text is Some ==> text.unwrap()@ == utc_rendering(unix_seconds, pattern@).unwrap(),
        0 <= unix_seconds <= LAST_FOUR_DIGIT_SECOND ==> text is Some && text.unwrap()@.len()
            == MINUTE_TEXT_LENGTH,
{
    match chrono::DateTime::from_timestamp(unix_seconds, 0) {
        Some(time) => Some(time.format(pattern).to_string()),
        None => None,
    }
}

/// Builds the description that accompanies a rule from the user's name, the
/// alternate identity to use where that name is empty, the host's name and the
/// time of the run in seconds after the epoch. Every time from the epoch to the
/// end of the year 9999 has a description, of at most `DESCRIPTION_LIMIT`
/// characters; there is none for a time that cannot be rendered.
pub fn get_machine_description(
    user: &str,
    alternate: &str,
    host: &str,
    unix_seconds: i64,
) -> (text: Option<String>)
    ensures
        match utc_rendering(unix_seconds, minute_pattern()) {
            Some(timestamp) => text is Some && text.unwrap()@ == machine_description(
                user@,
                alternate@,
                host@,
                timestamp,
            ),
            None => text is None,
        },
        0 <= unix_seconds <= LAST_FOUR_DIGIT_SECOND ==> text is Some && text.unwrap()@.len()
            <= DESCRIPTION_LIMIT,
{
    match render_utc(unix_seconds, "%Y-%m-%d %H:%M") {
        Some(timestamp) => {
            proof {
                lemma_segments_bounded(user@, alternate@, host@, timestamp@);
            }
            Some(describe_machine(user, alternate, host, timestamp.as_str()))
        },
        None => None,
    }
}

/// A text in which every character satisfies `keep` is left whole by the filter.
proof fn lemma_filter_keeps_all(text: Seq<char>, keep: spec_fn(char) -> bool)
    requires
        forall|i: int| 0 <= i < text.len() ==> keep(#[trigger] text[i]),
    ensures
        text.filter(keep) == text,
    decreases text.len(),
{
    reveal(Seq::filter);
    if text.len() > 0 {
        lemma_filter_keeps_all(text.drop_last(), keep);
        assert(text.drop_last().push(text.last()) =~= text);
    }
}

/// Sanitization leaves only characters that a description may hold.
pub proof fn lemma_sanitized_is_clean(text: Seq<char>)
    ensures
        forall|i: int| 0 <= i < sanitized(text).len() ==> is_description_char(
            #[trigger] sanitized(text)[i],
        ),
        sanitized(text).len() <= text.len(),
{
    let keep = |c: char| is_description_char(c);
    text.lemma_filter_len(keep);
    assert forall|i: int| 0 <= i < sanitized(text).len() implies is_description_char(
        #[trigger] sanitized(text)[i],
    ) by {
        text.lemma_filter_pred(keep, i);
    }
}

/// Sanitization is idempotent: sanitizing a sanitized text changes nothing.
pub proof fn lemma_sanitize_idempotent(text: Seq<char>)
    ensures
        sanitized(sanitized(text)) == sanitized(text),
{
    lemma_sanitized_is_clean(text);
    lemma_filter_keeps_all(sanitized(text), |c: char| is_description_char(c));
}

/// Before sanitization the user and host segments of a description hold at most
/// `SEGMENT_LIMIT` characters each, each is the beginning of the name it was cut
/// from, and sanitization does not lengthen the whole: a timestamp of at most 87
/// characters keeps the description within `DESCRIPTION_LIMIT`.
pub proof fn lemma_segments_bounded(
    user: Seq<char>,
    alternate: Seq<char>,
    host: Seq<char>,
    timestamp: Seq<char>,
)
    ensures
        truncated(user_identifier(user, alternate), SEGMENT_LIMIT as nat).len() <= SEGMENT_LIMIT,
        truncated(host, SEGMENT_LIMIT as nat).len() <= SEGMENT_LIMIT,
        truncated(user_identifier(user, alternate), SEGMENT_LIMIT as nat).is_prefix_of(
            user_identifier(user, alternate),
        ),
        truncated(host, SEGMENT_LIMIT as nat).is_prefix_of(host),
        composed(user_identifier(user, alternate), host, timestamp).len() == truncated(
            user_identifier(user, alternate),
            SEGMENT_LIMIT as nat,
        ).len() + truncated(host, SEGMENT_LIMIT as nat).len() + timestamp.len() + 8,
        machine_description(user, alternate, host, timestamp).len() <= 2 * SEGMENT_LIMIT + 8
            + timestamp.len(),
        timestamp.len() <= 87 ==> machine_description(user, alternate, host, timestamp).len()
            <= DESCRIPTION_LIMIT,
{
    reveal_strlit(" on ");
    reveal_strlit(" at ");
    lemma_sanitized_is_clean(composed(user_identifier(user, alternate), host, timestamp));
}

} // verus!
