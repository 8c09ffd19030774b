//! What the history views show of a stored request: the colour of its
//! status, the words of its command, and how long ago it ran.

use vstd::prelude::*;
use crate::numbers::{parse_u64, parse_u64_of};
use crate::text::{cut_pieces, cut_text, first_n, join_texts, join_with, same_text, texts, Cut};

verus! {

/// The status codes, by number and by name, shown in green.
pub open spec fn green_codes() -> Seq<Seq<char>> {
    seq!["0"@, "OK"@]
}

/// The status codes shown in red: the client's mistakes, and a missing login.
pub open spec fn red_codes() -> Seq<Seq<char>> {
    seq![
        "1"@, "CANCELLED"@, "2"@, "UNKNOWN"@, "3"@, "INVALID_ARGUMENT"@, "4"@,
        "DEADLINE_EXCEEDED"@, "5"@, "NOT_FOUND"@, "6"@, "ALREADY_EXISTS"@, "7"@,
        "PERMISSION_DENIED"@, "8"@, "RESOURCE_EXHAUSTED"@, "9"@, "FAILED_PRECONDITION"@,
        "10"@, "ABORTED"@, "11"@, "OUT_OF_RANGE"@, "12"@, "UNIMPLEMENTED"@, "16"@,
        "UNAUTHENTICATED"@,
    ]
}

/// The status codes shown in orange: the server's failures.
pub open spec fn orange_codes() -> Seq<Seq<char>> {
    seq!["13"@, "INTERNAL"@, "14"@, "UNAVAILABLE"@, "15"@, "DATA_LOSS"@]
}

/// The colour of a status; any other status, or none, is yellow.
pub open spec fn status_color(status: Option<Seq<char>>) -> Seq<char> {
    match status {
        Some(s) => if green_codes().contains(s) {
            "green"@
        } else if red_codes().contains(s) {
            "red"@
        } else if orange_codes().contains(s) {
            "orange"@
        } else {
            "yellow"@
        },
        None => "yellow"@,
    }
}

pub open spec fn str_views(v: Seq<&str>) -> Seq<Seq<char>> {
    v.map_values(|t: &str| t@)
}

/// Whether `s` is one of `names`.
fn listed(s: &str, names: &Vec<&str>) -> (r: bool)
    ensures
        r == str_views(names@).contains(s@),
{
    let mut i: usize = 0;
    while i < names.len()
        invariant
            i <= names@.len(),
            forall|j: int| 0 <= j < i ==> names@[j]@ != s@,
        decreases names@.len() - i,
    {
        if same_text(names[i], s) {
            assert(str_views(names@)[i as int] == s@);
            return true;
        }
        i += 1;
    }
    assert(!str_views(names@).contains(s@)) by {
        if str_views(names@).contains(s@) {
            let k = choose|k: int| 0 <= k < str_views(names@).len() && str_views(names@)[k] == s@;
            assert(names@[k]@ == s@);
        }
    }
    false
}

/// The colour in which a status is shown.
pub fn get_status_color(status: &Option<String>) -> (r: String)
    ensures
        r@ == status_color(match status {
            Some(s) => Some(s@),
            None => None,
        }),
{
    match status {
        None => String::from_str("yellow"),
        Some(s) => {
            let s = s.as_str();
            let green = vec!["0", "OK"];
            assert(str_views(green@) =~= green_codes());
            let red = vec![
                "1", "CANCELLED", "2", "UNKNOWN", "3", "INVALID_ARGUMENT", "4",
                "DEADLINE_EXCEEDED", "5", "NOT_FOUND", "6", "ALREADY_EXISTS", "7",
                "PERMISSION_DENIED", "8", "RESOURCE_EXHAUSTED", "9", "FAILED_PRECONDITION", "10",
                "ABORTED", "11", "OUT_OF_RANGE", "12", "UNIMPLEMENTED", "16", "UNAUTHENTICATED",
            ];
            assert(str_views(red@) =~= red_codes());
            let orange = vec!["13", "INTERNAL", "14", "UNAVAILABLE", "15", "DATA_LOSS"];
            assert(str_views(orange@) =~= orange_codes());
            if listed(s, &green) {
                String::from_str("green")
            } else if listed(s, &red) {
                String::from_str("red")
            } else if listed(s, &orange) {
                String::from_str("orange")
            } else {
                String::from_str("yellow")
            }
        },
    }
}

/// The words of a command that are not flags, joined by single spaces.
pub open spec fn service_name(command: Seq<char>) -> Seq<char> {
    join_with(cut_pieces(command, Cut::PlainWords), ' ')
}

/// The words of `command` that are not flags (do not begin with `-`), joined
/// by single spaces.
pub fn get_service_name(command: &String) -> (r: String)
    ensures
        r@ == service_name(command@),
{
    let words = cut_text(command.as_str(), Cut::PlainWords);
    join_texts(&words, ' ')
}

/// How `humantime` renders a span of this many milliseconds.
pub uninterp spec fn humantime_text(millis: u64) -> Seq<char>;

/// Relies on `humantime::format_duration`: renders a span as units from
/// years down to nanoseconds, the non-zero ones separated by single spaces.
#[verifier::external_body]
fn duration_text(millis: u64) -> (r: String)
    ensures
        r@ == humantime_text(millis),
{
    humantime::format_duration(std::time::Duration::from_millis(millis)).to_string()
}

/// The first `n` words of a text, joined by single spaces.
pub open spec fn leading_words_of(text: Seq<char>, n: nat) -> Seq<char> {
    join_with(first_n(cut_pieces(text, Cut::Words), n), ' ')
}

/// The first `n` words of `text`, joined by single spaces.
pub fn leading_words(text: &str, n: usize) -> (r: String)
    ensures
        r@ == leading_words_of(text@, n as nat),
{
    let words = cut_text(text, Cut::Words);
    let ghost all = texts(words@);
    let mut kept: Vec<String> = Vec::new();
    let mut j: usize = 0;
    while j < words.len() && j < n
        invariant
            all == texts(words@),
            j <= words@.len(),
            j <= n,
            texts(kept@) == all.take(j as int),
        decreases words@.len() - j,
    {
        let ghost before = texts(kept@);
        kept.push(words[j].clone());
        assert(texts(kept@) =~= before.push(words@[j as int]@));
        assert(texts(kept@) =~= all.take(j + 1));
        j += 1;
    }
    if words.len() <= n {
        assert(all.take(j as int) =~= all);
    }
    join_texts(&kept, ' ')
}

/// Why a stored date cannot be shown as an age.
#[derive(PartialEq, Eq, Structural, Clone, Copy, Debug)]
pub enum DateError {
    /// The date is not a decimal number of milliseconds.
    NotANumber,
    /// The date lies after the present moment.
    InFuture,
}

/// The span from a stored date to `now_ms`: none for no date, zero.
pub open spec fn age_of(date: Option<Seq<char>>, now_ms: u64) -> Result<u64, DateError> {
    match date {
        None => Ok(0),
        Some(d) => match parse_u64_of(d) {
            None => Err(DateError::NotANumber),
            Some(t) => if t > now_ms {
                Err(DateError::InFuture)
            } else {
                Ok((now_ms - t) as u64)
            },
        },
    }
}

/// How long ago a stored date lies before `now_ms`: the first three words of
/// the rendered span.
pub fn humanize_date(date: Option<String>, now_ms: u64) -> (r: Result<String, DateError>)
    ensures
        match age_of(
            match date {
                Some(d) => Some(d@),
                None => None,
            },
            now_ms,
        ) {
            Ok(span) => r matches Ok(t) && t@ == leading_words_of(humantime_text(span), 3),
            Err(e) => r == Err::<String, DateError>(e),
        },
{
    let span = match date {
        None => 0,
        Some(d) => match parse_u64(d.as_str()) {
            None => return Err(DateError::NotANumber),
            Some(t) => if t > now_ms {
                return Err(DateError::InFuture);
            } else {
                now_ms - t
            },
        },
    };
    let text = duration_text(span);
    Ok(leading_words(text.as_str(), 3))
}

} // verus!
