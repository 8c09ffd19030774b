//! The rows that the history and account stores keep, and the text forms of
//! their fields.

use vstd::prelude::*;
use crate::numbers::{i32_text, int_text, is_digit, lemma_parse_int_text, parse_i32, parse_i32_of};
use crate::text::{
    breaks, cut_pieces, cut_text, free_of, join_texts, join_with, lemma_cut_joined_commas,
    lemma_trim_of_trimmed, texts, trim, trim_text, Cut,
};

verus! {

/// A stored request: the flat row that the history store keeps for one
/// attempt. `date` is the decimal text of milliseconds since the epoch.
#[derive(Clone, Debug)]
pub struct Request {
    pub id: Option<i32>,
    pub user_email: Option<String>,
    pub command: String,
    pub status: Option<String>,
    pub method: Option<String>,
    pub date: String,
    pub hidden: bool,
}

/// An account row; `favorites` lists the ids of favorite requests.
#[derive(Clone, Debug)]
pub struct User {
    pub username: String,
    pub email: String,
    pub password: String,
    pub favorites: Option<Vec<i32>>,
    pub date: Option<String>,
    pub deleted: bool,
}

/// The stored text of a favorites list: the numbers joined by commas, and
/// the empty text for no list.
pub open spec fn favorites_text(favorites: Option<Seq<i32>>) -> Seq<char> {
    match favorites {
        Some(v) => join_with(v.map_values(|n: i32| int_text(n as int)), ','),
        None => seq![],
    }
}

/// The numbers that the pieces spell, trimmed; a piece that is no number is
/// skipped.
pub open spec fn parsed_numbers(pieces: Seq<Seq<char>>) -> Seq<i32>
    decreases pieces.len(),
{
    if pieces.len() == 0 {
        seq![]
    } else {
        let rest = parsed_numbers(pieces.drop_last());
        match parse_i32_of(trim(pieces.last())) {
            Some(n) => rest.push(n),
            None => rest,
        }
    }
}

/// The favorites list that a stored text holds: none for no text or an empty
/// one, else the numbers among its comma-separated pieces.
pub open spec fn favorites_of(text: Option<Seq<char>>) -> Option<Seq<i32>> {
    match text {
        None => None,
        Some(t) => if t.len() == 0 {
            None
        } else {
            Some(parsed_numbers(cut_pieces(t, Cut::Commas)))
        },
    }
}

pub open spec fn opt_vec_view(v: Option<Vec<i32>>) -> Option<Seq<i32>> {
    match v {
        Some(x) => Some(x@),
        None => None,
    }
}

pub open spec fn opt_text_view(t: Option<String>) -> Option<Seq<char>> {
    match t {
        Some(x) => Some(x@),
        None => None,
    }
}

proof fn lemma_parsed_int_texts(v: Seq<i32>)
    ensures
        parsed_numbers(v.map_values(|n: i32| int_text(n as int))) == v,
    decreases v.len(),
{
    let parts = v.map_values(|n: i32| int_text(n as int));
    if v.len() > 0 {
        lemma_parsed_int_texts(v.drop_last());
        assert(parts.drop_last() =~= v.drop_last().map_values(|n: i32| int_text(n as int)));
        let t = int_text(v.last() as int);
        assert(parts.last() == t);
        lemma_parse_int_text(v.last());
        lemma_trim_of_trimmed(t);
        assert(v.drop_last().push(v.last()) =~= v);
    } else {
        assert(v =~= Seq::<i32>::empty());
    }
}

/// A non-empty favorites list survives storage: reading back its stored text
/// gives the same list. (The empty list is stored as the empty text, which
/// reads back as no list.)
pub proof fn lemma_favorites_round_trip(v: Seq<i32>)
    requires
        v.len() > 0,
    ensures
        favorites_of(Some(favorites_text(Some(v)))) == Some(v),
{
    let parts = v.map_values(|n: i32| int_text(n as int));
    assert forall|k: int| 0 <= k < parts.len() implies free_of(
        #[trigger] parts[k],
        breaks(Cut::Commas),
    ) by {
        lemma_parse_int_text(v[k]);
        let t = parts[k];
        assert forall|i: int| 0 <= i < t.len() implies !(breaks(Cut::Commas))(#[trigger] t[i]) by {
            assert(t[i] == '-' || is_digit(t[i]));
        }
    }
    lemma_cut_joined_commas(parts);
    lemma_parsed_int_texts(v);
    let text = join_with(parts, ',');
    lemma_parse_int_text(v.last());
    if parts.len() == 1 {
        assert(text == parts[0]);
    } else {
        assert(text.len() >= parts.last().len());
    }
    assert(text.len() > 0);
}

/// The stored text of a favorites list.
pub fn serialize_favorites_for_db(favorites: &Option<Vec<i32>>) -> (r: String)
    ensures
        r@ == favorites_text(opt_vec_view(*favorites)),
{
    match favorites {
        Some(v) => {
            let ghost want = v@.map_values(|n: i32| int_text(n as int));
            let mut parts: Vec<String> = Vec::new();
            let mut j: usize = 0;
            while j < v.len()
                invariant
                    j <= v@.len(),
                    want == v@.map_values(|n: i32| int_text(n as int)),
                    texts(parts@) == want.take(j as int),
                decreases v@.len() - j,
            {
                let t = i32_text(v[j]);
                let ghost before = texts(parts@);
                parts.push(t);
                assert(texts(parts@) =~= before.push(t@));
                assert(want[j as int] == int_text(v@[j as int] as int));
                assert(texts(parts@) =~= want.take(j + 1));
                j += 1;
            }
            assert(want.take(j as int) =~= want);
            join_texts(&parts, ',')
        },
        None => String::new(),
    }
}

/// The favorites list that a stored text holds.
pub fn deserialize_favorites_for_db(favorites_str: Option<String>) -> (r: Option<Vec<i32>>)
    ensures
        opt_vec_view(r) == favorites_of(opt_text_view(favorites_str)),
{
    match favorites_str {
        None => None,
        Some(t) => {
            if t.as_str().is_empty() {
                return None;
            }
            let pieces = cut_text(t.as_str(), Cut::Commas);
            let ghost all = texts(pieces@);
            let mut out: Vec<i32> = Vec::new();
            let mut j: usize = 0;
            while j < pieces.len()
                invariant
                    j <= pieces@.len(),
                    all == texts(pieces@),
                    out@ == parsed_numbers(all.take(j as int)),
                decreases pieces@.len() - j,
            {
                assert(all.take(j + 1).drop_last() =~= all.take(j as int));
                assert(all.take(j + 1).last() == pieces@[j as int]@);
                let trimmed = trim_text(pieces[j].as_str());
                match parse_i32(trimmed.as_str()) {
                    Some(n) => out.push(n),
                    None => {},
                }
                j += 1;
            }
            assert(all.take(j as int) =~= all);
            Some(out)
        },
    }
}

/// The stored form of a flag.
pub fn serialize_bool_for_db(value: bool) -> (r: u8)
    ensures
        r == (if value {
            1u8
        } else {
            0u8
        }),
{
    if value {
        1
    } else {
        0
    }
}

/// The flag that a stored byte holds: only `1` is true.
pub fn deserialize_bool_for_db(value: u8) -> (r: bool)
    ensures
        r == (value == 1),
{
    value == 1
}

} // verus!
