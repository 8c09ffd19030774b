//! Character-level helpers over string views.

use vstd::prelude::*;
use vstd::std_specs::iter::IteratorSpec;

verus! {

/// Unicode `White_Space`: the characters that `char::is_whitespace` accepts.
pub open spec fn is_white_space(c: char) -> bool {
    let u = c as u32;
    (0x09 <= u && u <= 0x0d) || u == 0x20 || u == 0x85 || u == 0xa0 || u == 0x1680 || (0x2000
        <= u && u <= 0x200a) || u == 0x2028 || u == 0x2029 || u == 0x202f || u == 0x205f || u
        == 0x3000
}

pub fn white_space(c: char) -> (r: bool)
    ensures
        r == is_white_space(c),
{
    let u = c as u32;
    (0x09 <= u && u <= 0x0d) || u == 0x20 || u == 0x85 || u == 0xa0 || u == 0x1680 || (0x2000
        <= u && u <= 0x200a) || u == 0x2028 || u == 0x2029 || u == 0x202f || u == 0x205f || u
        == 0x3000
}

/// `pat` occurs in `hay` starting at position `i`.
pub open spec fn occurs_at(hay: Seq<char>, pat: Seq<char>, i: int) -> bool {
    0 <= i && i + pat.len() <= hay.len() && hay.subrange(i, i + pat.len()) == pat
}

/// `pat` is a contiguous part of `hay`.
pub open spec fn has_substring(hay: Seq<char>, pat: Seq<char>) -> bool {
    exists|i: int| occurs_at(hay, pat, i)
}

/// Relies on `String::push`: appends one character.
#[verifier::external_body]
pub fn push_char(s: &mut String, c: char)
    ensures
        final(s)@ == old(s)@.push(c),
{
    s.push(c)
}

/// The characters of `s`, in order.
pub fn chars_of(s: &str) -> (r: Vec<char>)
    ensures
        r@ == s@,
{
    let mut out: Vec<char> = Vec::new();
    let mut it = s.chars();
    loop
        invariant
            it.obeys_prophetic_iter_laws(),
            out@ + it.remaining() == s@,
        ensures
            out@ == s@,
        decreases s@.len() - out@.len(),
    {
        match it.next() {
            Some(c) => {
                out.push(c);
            },
            None => {
                assert(out@ + it.remaining() =~= out@);
                break;
            },
        }
    }
    out
}

/// Whether `p` occurs in `h` at position `i`.
fn matches_at(h: &Vec<char>, p: &Vec<char>, i: usize) -> (r: bool)
    ensures
        r == occurs_at(h@, p@, i as int),
{
    if i > h.len() || p.len() > h.len() - i {
        return false;
    }
    let mut k: usize = 0;
    while k < p.len()
        invariant
            i + p.len() <= h.len(),
            k <= p@.len(),
            forall|j: int| 0 <= j < k ==> h@[i + j] == p@[j],
        decreases p@.len() - k,
    {
        if h[i + k] != p[k] {
            assert(h@.subrange(i as int, i + p@.len())[k as int] != p@[k as int]);
            return false;
        }
        k += 1;
    }
    assert(h@.subrange(i as int, i + p@.len()) =~= p@);
    true
}

/// Whether `pat` occurs anywhere in `hay` (`str::contains`).
pub fn contains(hay: &str, pat: &str) -> (r: bool)
    ensures
        r == has_substring(hay@, pat@),
{
    let h = chars_of(hay);
    let p = chars_of(pat);
    if p.len() > h.len() {
        return false;
    }
    let last = h.len() - p.len();
    let mut i: usize = 0;
    loop
        invariant
            last == h@.len() - p@.len(),
            i <= last,
            h@ == hay@,
            p@ == pat@,
            forall|j: int| 0 <= j < i ==> !occurs_at(h@, p@, j),
        decreases last - i,
    {
        if matches_at(&h, &p, i) {
            return true;
        }
        if i == last {
            return false;
        }
        i += 1;
    }
}

/// Whether two strings hold the same characters.
pub fn same_text(a: &str, b: &str) -> (r: bool)
    ensures
        r == (a@ == b@),
{
    let x = chars_of(a);
    let y = chars_of(b);
    if x.len() != y.len() {
        return false;
    }
    let mut i: usize = 0;
    while i < x.len()
        invariant
            x@ == a@,
            y@ == b@,
            x@.len() == y@.len(),
            forall|j: int| 0 <= j < i ==> x@[j] == y@[j],
        decreases x@.len() - i,
    {
        if x[i] != y[i] {
            assert(x@[i as int] != y@[i as int]);
            return false;
        }
        i += 1;
    }
    assert(x@ =~= y@);
    true
}

/// `p` without its leading white space.
pub open spec fn trim_start(p: Seq<char>) -> Seq<char>
    decreases p.len(),
{
    if p.len() > 0 && is_white_space(p[0]) {
        trim_start(p.drop_first())
    } else {
        p
    }
}

/// `p` without its trailing white space.
pub open spec fn trim_end(p: Seq<char>) -> Seq<char>
    decreases p.len(),
{
    if p.len() > 0 && is_white_space(p.last()) {
        trim_end(p.drop_last())
    } else {
        p
    }
}

/// `p` without white space at either end (`str::trim`).
pub open spec fn trim(p: Seq<char>) -> Seq<char> {
    trim_end(trim_start(p))
}

/// The bounds, within `c`, of the trimmed range `lo..hi`.
pub fn trim_range(c: &Vec<char>, lo: usize, hi: usize) -> (r: (usize, usize))
    requires
        lo <= hi <= c@.len(),
    ensures
        lo <= r.0 <= r.1 <= hi,
        c@.subrange(r.0 as int, r.1 as int) == trim(c@.subrange(lo as int, hi as int)),
{
    let mut a = lo;
    while a < hi && white_space(c[a])
        invariant
            lo <= a <= hi <= c@.len(),
            trim_start(c@.subrange(lo as int, hi as int)) == trim_start(
                c@.subrange(a as int, hi as int),
            ),
        decreases hi - a,
    {
        assert(c@.subrange(a as int, hi as int).drop_first() =~= c@.subrange(a + 1, hi as int));
        a += 1;
    }
    let mut b = hi;
    while b > a && white_space(c[b - 1])
        invariant
            a <= b <= hi <= c@.len(),
            trim_end(c@.subrange(a as int, hi as int)) == trim_end(c@.subrange(a as int, b as int)),
        decreases b - a,
    {
        assert(c@.subrange(a as int, b as int).drop_last() =~= c@.subrange(a as int, b - 1));
        b -= 1;
    }
    (a, b)
}

/// `s` without white space at either end.
pub fn trim_text(s: &str) -> (r: String)
    ensures
        r@ == trim(s@),
{
    let c = chars_of(s);
    let (a, b) = trim_range(&c, 0, c.len());
    assert(c@.subrange(0, c@.len() as int) =~= s@);
    String::from_str(s.substring_char(a, b))
}

/// The characters after the last break in `s`.
pub open spec fn open_piece(s: Seq<char>, brk: spec_fn(char) -> bool) -> Seq<char>
    decreases s.len(),
{
    if s.len() == 0 {
        seq![]
    } else if brk(s.last()) {
        seq![]
    } else {
        open_piece(s.drop_last(), brk).push(s.last())
    }
}

/// What `keep` makes of each piece of `s` that a break closes, in order.
pub open spec fn closed_pieces(
    s: Seq<char>,
    brk: spec_fn(char) -> bool,
    keep: spec_fn(Seq<char>) -> Seq<Seq<char>>,
) -> Seq<Seq<char>>
    decreases s.len(),
{
    if s.len() == 0 {
        seq![]
    } else if brk(s.last()) {
        closed_pieces(s.drop_last(), brk, keep) + keep(open_piece(s.drop_last(), brk))
    } else {
        closed_pieces(s.drop_last(), brk, keep)
    }
}

/// `s` cut at every character that `brk` accepts, each piece passed through
/// `keep` (which drops it, or keeps some form of it).
pub open spec fn pieces(
    s: Seq<char>,
    brk: spec_fn(char) -> bool,
    keep: spec_fn(Seq<char>) -> Seq<Seq<char>>,
) -> Seq<Seq<char>> {
    closed_pieces(s, brk, keep) + keep(open_piece(s, brk))
}

/// The views of a sequence of strings.
pub open spec fn texts(v: Seq<String>) -> Seq<Seq<char>> {
    v.map_values(|t: String| t@)
}

/// The ways in which a text is cut into pieces.
pub enum Cut {
    /// At `\n` and `;`, each piece trimmed, empty ones dropped.
    Fields,
    /// At white space, empty pieces dropped (`str::split_whitespace`).
    Words,
    /// As `Words`, dropping also the words that begin with `-`.
    PlainWords,
    /// At `,`, every piece kept as it is.
    Commas,
}

pub open spec fn breaks(cut: Cut) -> spec_fn(char) -> bool {
    match cut {
        Cut::Fields => |c: char| c == '\n' || c == ';',
        Cut::Words | Cut::PlainWords => |c: char| is_white_space(c),
        Cut::Commas => |c: char| c == ',',
    }
}

pub open spec fn keeps(cut: Cut) -> spec_fn(Seq<char>) -> Seq<Seq<char>> {
    match cut {
        Cut::Fields => |p: Seq<char>|
            if trim(p).len() > 0 {
                seq![trim(p)]
            } else {
                seq![]
            },
        Cut::Words => |p: Seq<char>|
            if p.len() > 0 {
                seq![p]
            } else {
                seq![]
            },
        Cut::PlainWords => |p: Seq<char>|
            if p.len() > 0 && p[0] != '-' {
                seq![p]
            } else {
                seq![]
            },
        Cut::Commas => |p: Seq<char>| seq![p],
    }
}

/// The pieces of `s` under `cut`.
pub open spec fn cut_pieces(s: Seq<char>, cut: Cut) -> Seq<Seq<char>> {
    pieces(s, breaks(cut), keeps(cut))
}

proof fn lemma_closed_fields_nonempty(s: Seq<char>)
    ensures
        forall|k: int|
            0 <= k < closed_pieces(s, breaks(Cut::Fields), keeps(Cut::Fields)).len()
                ==> (#[trigger] closed_pieces(s, breaks(Cut::Fields), keeps(Cut::Fields))[k]).len()
                > 0,
    decreases s.len(),
{
    if s.len() > 0 {
        lemma_closed_fields_nonempty(s.drop_last());
        let prev = closed_pieces(s.drop_last(), breaks(Cut::Fields), keeps(Cut::Fields));
        let p = open_piece(s.drop_last(), breaks(Cut::Fields));
        let kept = (keeps(Cut::Fields))(p);
        if (breaks(Cut::Fields))(s.last()) {
            let all = closed_pieces(s, breaks(Cut::Fields), keeps(Cut::Fields));
            assert(all == prev + kept);
            assert forall|k: int| 0 <= k < all.len() implies (#[trigger] all[k]).len() > 0 by {
                if k >= prev.len() {
                    assert(kept == seq![trim(p)]);
                    assert(all[k] == kept[k - prev.len()]);
                } else {
                    assert(all[k] == prev[k]);
                }
            }
        }
    }
}

/// Every field of a text is non-empty.
pub proof fn lemma_fields_nonempty(s: Seq<char>)
    ensures
        forall|k: int|
            0 <= k < cut_pieces(s, Cut::Fields).len() ==> (#[trigger] cut_pieces(
                s,
                Cut::Fields,
            )[k]).len() > 0,
{
    lemma_closed_fields_nonempty(s);
}

/// No character of `t` is one that `brk` accepts.
pub open spec fn free_of(t: Seq<char>, brk: spec_fn(char) -> bool) -> bool {
    forall|i: int| 0 <= i < t.len() ==> !brk(#[trigger] t[i])
}

proof fn lemma_append_free(
    s: Seq<char>,
    t: Seq<char>,
    brk: spec_fn(char) -> bool,
    keep: spec_fn(Seq<char>) -> Seq<Seq<char>>,
)
    requires
        free_of(t, brk),
    ensures
        closed_pieces(s + t, brk, keep) == closed_pieces(s, brk, keep),
        open_piece(s + t, brk) == open_piece(s, brk) + t,
    decreases t.len(),
{
    if t.len() == 0 {
        assert(s + t =~= s);
        assert(open_piece(s, brk) + t =~= open_piece(s, brk));
    } else {
        let u = t.drop_last();
        assert forall|i: int| 0 <= i < u.len() implies !brk(#[trigger] u[i]) by {
            assert(u[i] == t[i]);
        }
        lemma_append_free(s, u, brk, keep);
        assert((s + t).drop_last() =~= s + u);
        assert((s + t).last() == t.last());
        assert(!brk(t[t.len() - 1]));
        assert(open_piece(s + t, brk) == open_piece(s + u, brk).push(t.last()));
        assert((open_piece(s, brk) + u).push(t.last()) =~= open_piece(s, brk) + t);
    }
}

/// Cutting at commas undoes joining with commas, for one or more parts that
/// hold no comma.
pub proof fn lemma_cut_joined_commas(parts: Seq<Seq<char>>)
    requires
        parts.len() > 0,
        forall|k: int| 0 <= k < parts.len() ==> free_of(#[trigger] parts[k], breaks(Cut::Commas)),
    ensures
        cut_pieces(join_with(parts, ','), Cut::Commas) == parts,
    decreases parts.len(),
{
    let brk = breaks(Cut::Commas);
    let keep = keeps(Cut::Commas);
    let empty = Seq::<char>::empty();
    if parts.len() == 1 {
        lemma_append_free(empty, parts[0], brk, keep);
        assert(empty + parts[0] =~= parts[0]);
        assert(closed_pieces(empty, brk, keep) == Seq::<Seq<char>>::empty());
        assert(open_piece(empty, brk) == empty);
        assert(open_piece(empty, brk) + parts[0] =~= parts[0]);
        assert(cut_pieces(join_with(parts, ','), Cut::Commas) =~= parts);
    } else {
        let init = parts.drop_last();
        assert forall|k: int| 0 <= k < init.len() implies free_of(
            #[trigger] init[k],
            breaks(Cut::Commas),
        ) by {
            assert(init[k] == parts[k]);
        }
        lemma_cut_joined_commas(init);
        let j = join_with(init, ',');
        let last = parts.last();
        assert(free_of(parts[parts.len() - 1], brk));
        lemma_append_free(j.push(','), last, brk, keep);
        assert(j.push(',').drop_last() =~= j);
        assert(brk(j.push(',').last()));
        assert(open_piece(j.push(','), brk) == empty);
        assert(empty + last =~= last);
        assert(cut_pieces(join_with(parts, ','), Cut::Commas) =~= cut_pieces(j, Cut::Commas) + seq![
            last,
        ]);
        assert(init + seq![last] =~= parts);
    }
}

/// A text that neither begins nor ends with white space is its own trim.
pub proof fn lemma_trim_of_trimmed(p: Seq<char>)
    requires
        p.len() > 0,
        !is_white_space(p[0]),
        !is_white_space(p.last()),
    ensures
        trim(p) == p,
{
}

/// No character of `t` is a field break.
pub open spec fn unbroken(t: Seq<char>) -> bool {
    forall|i: int| 0 <= i < t.len() ==> !(breaks(Cut::Fields))(#[trigger] t[i])
}

proof fn lemma_open_piece_unbroken(s: Seq<char>)
    ensures
        unbroken(open_piece(s, breaks(Cut::Fields))),
    decreases s.len(),
{
    if s.len() > 0 {
        lemma_open_piece_unbroken(s.drop_last());
        let prev = open_piece(s.drop_last(), breaks(Cut::Fields));
        if !(breaks(Cut::Fields))(s.last()) {
            let o = open_piece(s, breaks(Cut::Fields));
            assert(o == prev.push(s.last()));
            assert forall|i: int| 0 <= i < o.len() implies !(breaks(Cut::Fields))(#[trigger] o[i]) by {
                if i < prev.len() {
                    assert(o[i] == prev[i]);
                }
            }
        }
    }
}

proof fn lemma_trim_start_is_suffix(p: Seq<char>)
    ensures
        trim_start(p).len() <= p.len(),
        trim_start(p) == p.skip(p.len() - trim_start(p).len()),
    decreases p.len(),
{
    if p.len() > 0 && is_white_space(p[0]) {
        lemma_trim_start_is_suffix(p.drop_first());
        assert(p.drop_first().skip(p.drop_first().len() - trim_start(p).len()) =~= p.skip(
            p.len() - trim_start(p).len(),
        ));
    } else {
        assert(p.skip(0) =~= p);
    }
}

proof fn lemma_trim_end_is_prefix(p: Seq<char>)
    ensures
        trim_end(p).len() <= p.len(),
        trim_end(p) == p.take(trim_end(p).len() as int),
    decreases p.len(),
{
    if p.len() > 0 && is_white_space(p.last()) {
        lemma_trim_end_is_prefix(p.drop_last());
        assert(p.drop_last().take(trim_end(p).len() as int) =~= p.take(trim_end(p).len() as int));
    } else {
        assert(p.take(p.len() as int) =~= p);
    }
}

proof fn lemma_trim_unbroken(p: Seq<char>)
    requires
        unbroken(p),
    ensures
        unbroken(trim(p)),
{
    lemma_trim_start_is_suffix(p);
    let a = trim_start(p);
    let k = p.len() - a.len();
    assert forall|i: int| 0 <= i < a.len() implies !(breaks(Cut::Fields))(#[trigger] a[i]) by {
        assert(a[i] == p[k + i]);
    }
    lemma_trim_end_is_prefix(a);
    let b = trim_end(a);
    assert forall|i: int| 0 <= i < b.len() implies !(breaks(Cut::Fields))(#[trigger] b[i]) by {
        assert(b[i] == a[i]);
    }
}

proof fn lemma_closed_fields_unbroken(s: Seq<char>)
    ensures
        forall|k: int|
            0 <= k < closed_pieces(s, breaks(Cut::Fields), keeps(Cut::Fields)).len() ==> unbroken(
                #[trigger] closed_pieces(s, breaks(Cut::Fields), keeps(Cut::Fields))[k],
            ),
    decreases s.len(),
{
    if s.len() > 0 {
        lemma_closed_fields_unbroken(s.drop_last());
        let prev = closed_pieces(s.drop_last(), breaks(Cut::Fields), keeps(Cut::Fields));
        let p = open_piece(s.drop_last(), breaks(Cut::Fields));
        let kept = (keeps(Cut::Fields))(p);
        if (breaks(Cut::Fields))(s.last()) {
            lemma_open_piece_unbroken(s.drop_last());
            lemma_trim_unbroken(p);
            let all = closed_pieces(s, breaks(Cut::Fields), keeps(Cut::Fields));
            assert(all == prev + kept);
            assert forall|k: int| 0 <= k < all.len() implies unbroken(#[trigger] all[k]) by {
                if k >= prev.len() {
                    assert(kept == seq![trim(p)]);
                    assert(all[k] == kept[k - prev.len()]);
                } else {
                    assert(all[k] == prev[k]);
                }
            }
        }
    }
}

/// No field of a text holds a field break: each is one whole piece.
pub proof fn lemma_fields_unbroken(s: Seq<char>)
    ensures
        forall|k: int|
            0 <= k < cut_pieces(s, Cut::Fields).len() ==> unbroken(
                #[trigger] cut_pieces(s, Cut::Fields)[k],
            ),
{
    lemma_closed_fields_unbroken(s);
    lemma_open_piece_unbroken(s);
    let p = open_piece(s, breaks(Cut::Fields));
    lemma_trim_unbroken(p);
    let prev = closed_pieces(s, breaks(Cut::Fields), keeps(Cut::Fields));
    let all = cut_pieces(s, Cut::Fields);
    let kept = (keeps(Cut::Fields))(p);
    assert(all == prev + kept);
    assert forall|k: int| 0 <= k < all.len() implies unbroken(#[trigger] all[k]) by {
        if k >= prev.len() {
            assert(kept == seq![trim(p)]);
            assert(all[k] == kept[k - prev.len()]);
        } else {
            assert(all[k] == prev[k]);
        }
    }
}

fn is_break(c: char, cut: &Cut) -> (r: bool)
    ensures
        r == (breaks(*cut))(c),
{
    match cut {
        Cut::Fields => c == '\n' || c == ';',
        Cut::Words | Cut::PlainWords => white_space(c),
        Cut::Commas => c == ',',
    }
}

/// Appends to `out` what `cut` keeps of the piece `lo..hi` of `s`.
fn keep_piece(s: &str, c: &Vec<char>, lo: usize, hi: usize, cut: &Cut, out: &mut Vec<String>)
    requires
        c@ == s@,
        lo <= hi <= c@.len(),
    ensures
        texts(final(out)@) == texts(old(out)@) + (keeps(*cut))(c@.subrange(lo as int, hi as int)),
{
    let ghost p = c@.subrange(lo as int, hi as int);
    let (a, b) = match cut {
        Cut::Fields => trim_range(c, lo, hi),
        _ => (lo, hi),
    };
    let keep = match cut {
        Cut::Fields => a < b,
        Cut::Words => lo < hi,
        Cut::PlainWords => lo < hi && c[lo] != '-',
        Cut::Commas => true,
    };
    if keep {
        let piece = String::from_str(s.substring_char(a, b));
        out.push(piece);
        assert(texts(out@) =~= texts(old(out)@) + seq![piece@]);
    } else {
        assert(texts(out@) =~= texts(old(out)@) + seq![]);
    }
}

/// The pieces of `s` under `cut`, in order.
pub fn cut_text(s: &str, cut: Cut) -> (r: Vec<String>)
    ensures
        texts(r@) == cut_pieces(s@, cut),
{
    let c = chars_of(s);
    let mut out: Vec<String> = Vec::new();
    let mut start: usize = 0;
    let mut i: usize = 0;
    while i < c.len()
        invariant
            c@ == s@,
            start <= i <= c@.len(),
            texts(out@) == closed_pieces(c@.take(i as int), breaks(cut), keeps(cut)),
            c@.subrange(start as int, i as int) == open_piece(c@.take(i as int), breaks(cut)),
        decreases c@.len() - i,
    {
        let ghost t = c@.take(i + 1);
        assert(t.drop_last() =~= c@.take(i as int));
        assert(t.last() == c@[i as int]);
        if is_break(c[i], &cut) {
            keep_piece(s, &c, start, i, &cut, &mut out);
            start = i + 1;
            assert(c@.subrange(start as int, i + 1) =~= seq![]);
        } else {
            assert(c@.subrange(start as int, i + 1) =~= c@.subrange(start as int, i as int).push(
                c@[i as int],
            ));
        }
        i += 1;
    }
    assert(c@.take(i as int) =~= c@);
    keep_piece(s, &c, start, i, &cut, &mut out);
    out
}

/// `parts` joined, with `sep` between each two.
pub open spec fn join_with(parts: Seq<Seq<char>>, sep: char) -> Seq<char>
    decreases parts.len(),
{
    if parts.len() == 0 {
        seq![]
    } else if parts.len() == 1 {
        parts[0]
    } else {
        join_with(parts.drop_last(), sep).push(sep) + parts.last()
    }
}

/// The strings of `parts` joined, with `sep` between each two.
pub fn join_texts(parts: &Vec<String>, sep: char) -> (r: String)
    ensures
        r@ == join_with(texts(parts@), sep),
{
    let ghost all = texts(parts@);
    let mut out = String::new();
    let mut j: usize = 0;
    while j < parts.len()
        invariant
            all == texts(parts@),
            j <= parts@.len(),
            out@ == join_with(all.take(j as int), sep),
        decreases parts@.len() - j,
    {
        assert(all.take(j + 1).drop_last() =~= all.take(j as int));
        if j > 0 {
            push_char(&mut out, sep);
        } else {
            assert(out@ =~= seq![]);
        }
        out.append(parts[j].as_str());
        assert(all.take(j + 1).last() == parts@[j as int]@);
        j += 1;
    }
    assert(all.take(j as int) =~= all);
    out
}

/// The first `n` elements of `s`, or all of them when there are fewer.
pub open spec fn first_n<A>(s: Seq<A>, n: nat) -> Seq<A> {
    if s.len() <= n {
        s
    } else {
        s.take(n as int)
    }
}

} // verus!
