//! Verified string helpers: scanning, splitting on a separator,
//! joining with a separator, and trimming, together with the spec-level
//! functions that the rest of the library's contracts are stated over.

use vstd::prelude::*;

verus! {

/// The views of a sequence of strings, as a sequence of character sequences.
pub open spec fn views_of(v: Seq<String>) -> Seq<Seq<char>> {
    v.map_values(|x: String| x@)
}

/// Splitting on a separator, defined character by character from the front:
/// a separator ends the current piece; any other character extends it.
pub open spec fn split_spec(s: Seq<char>, c: char) -> Seq<Seq<char>>
    decreases s.len(),
{
    if s.len() == 0 {
        seq![s]
    } else if s[0] == c {
        seq![Seq::<char>::empty()] + split_spec(s.drop_first(), c)
    } else {
        let rest = split_spec(s.drop_first(), c);
        seq![seq![s[0]] + rest[0]] + rest.drop_first()
    }
}

/// A split yields at least one piece.
pub proof fn lemma_split_len_pos(s: Seq<char>, c: char)
    ensures
        split_spec(s, c).len() >= 1,
    decreases s.len(),
{
    if s.len() > 0 {
        lemma_split_len_pos(s.drop_first(), c);
    }
}

/// A string without the separator splits into the single piece that it is.
pub proof fn lemma_split_no_sep(s: Seq<char>, c: char)
    requires
        forall|j: int| 0 <= j < s.len() ==> s[j] != c,
    ensures
        split_spec(s, c) == seq![s],
    decreases s.len(),
{
    if s.len() > 0 {
        assert(forall|j: int| 0 <= j < s.drop_first().len() ==> s.drop_first()[j] != c);
        lemma_split_no_sep(s.drop_first(), c);
        lemma_split_len_pos(s.drop_first(), c);
        assert(seq![s[0]] + s.drop_first() =~= s);
        assert(split_spec(s, c) =~= seq![s]);
    }
}

/// Splitting at the first separator: the piece before it, then the split
/// of what follows it.
pub proof fn lemma_split_at_first(s: Seq<char>, c: char, i: int)
    requires
        0 <= i < s.len(),
        s[i] == c,
        forall|j: int| 0 <= j < i ==> s[j] != c,
    ensures
        split_spec(s, c) == seq![s.take(i)] + split_spec(s.skip(i + 1), c),
    decreases i,
{
    if i == 0 {
        assert(s.take(0) =~= Seq::<char>::empty());
        assert(s.skip(1) =~= s.drop_first());
        assert(split_spec(s, c) =~= seq![s.take(0)] + split_spec(s.skip(1), c));
    } else {
        let d = s.drop_first();
        assert(forall|j: int| 0 <= j < i - 1 ==> d[j] != c);
        lemma_split_at_first(d, c, i - 1);
        lemma_split_len_pos(d.skip(i), c);
        assert(d.take(i - 1) =~= s.subrange(1, i));
        assert(seq![s[0]] + s.subrange(1, i) =~= s.take(i));
        assert(d.skip(i) =~= s.skip(i + 1));
        assert((seq![d.take(i - 1)] + split_spec(d.skip(i), c))[0] == d.take(i - 1));
        assert(split_spec(s, c) =~= seq![s.take(i)] + split_spec(s.skip(i + 1), c));
    }
}

/// The least position of `c` in `s`, if any.
pub fn str_index_of(s: &str, c: char) -> (r: Option<usize>)
    ensures
        match r {
            Some(i) => i < s@.len() && s@[i as int] == c && (forall|j: int|
                0 <= j < i ==> s@[j] != c),
            None => forall|j: int| 0 <= j < s@.len() ==> s@[j] != c,
        },
{
    let n = s.unicode_len();
    let mut i: usize = 0;
    while i < n
        invariant
            i <= n,
            n == s@.len(),
            forall|j: int| 0 <= j < i ==> s@[j] != c,
        decreases n - i,
    {
        if s.get_char(i) == c {
            return Some(i);
        }
        i = i + 1;
    }
    None
}

/// Character-for-character equality of two string slices.
pub fn str_eq(a: &str, b: &str) -> (r: bool)
    ensures
        r == (a@ == b@),
{
    let na = a.unicode_len();
    let nb = b.unicode_len();
    if na != nb {
        assert(a@ != b@);
        return false;
    }
    let mut i: usize = 0;
    while i < na
        invariant
            i <= na,
            na == a@.len(),
            na == b@.len(),
            forall|j: int| 0 <= j < i ==> a@[j] == b@[j],
        decreases na - i,
    {
        if a.get_char(i) != b.get_char(i) {
            return false;
        }
        i = i + 1;
    }
    assert(a@ =~= b@);
    true
}

/// Whether `s` begins with `prefix`.
pub fn str_starts_with(s: &str, prefix: &str) -> (r: bool)
    ensures
        r == (s@.len() >= prefix@.len() && s@.take(prefix@.len() as int) == prefix@),
{
    let n = s.unicode_len();
    let np = prefix.unicode_len();
    if n < np {
        return false;
    }
    let mut i: usize = 0;
    while i < np
        invariant
            i <= np,
            np <= n,
            n == s@.len(),
            np == prefix@.len(),
            forall|j: int| 0 <= j < i ==> s@[j] == prefix@[j],
        decreases np - i,
    {
        if s.get_char(i) != prefix.get_char(i) {
            assert(s@.take(np as int)[i as int] != prefix@[i as int]);
            return false;
        }
        i = i + 1;
    }
    assert(s@.take(np as int) =~= prefix@);
    true
}

/// Splits into the pieces between occurrences of `c`; empty pieces kept.
pub fn split_str(s: &str, c: char) -> (r: Vec<String>)
    ensures
        views_of(r@) == split_spec(s@, c),
{
    let mut pieces: Vec<String> = Vec::new();
    let mut rest: &str = s;
    let ghost whole = s@;
    loop
        invariant
            whole == s@,
            split_spec(whole, c) =~= views_of(pieces@) + split_spec(rest@, c),
        decreases rest@.len(),
    {
        match str_index_of(rest, c) {
            Some(i) => {
                let n = rest.unicode_len();
                let piece = rest.substring_char(0, i);
                let tail = rest.substring_char(i + 1, n);
                proof {
                    lemma_split_at_first(rest@, c, i as int);
                    assert(rest@.take(i as int) == piece@);
                }
                pieces.push(piece.to_owned());
                proof {
                    assert(views_of(pieces@) =~= views_of(pieces@.drop_last()) + seq![piece@]);
                }
                rest = tail;
            },
            None => {
                proof {
                    lemma_split_no_sep(rest@, c);
                }
                pieces.push(rest.to_owned());
                proof {
                    assert(views_of(pieces@) =~= views_of(pieces@.drop_last()) + seq![rest@]);
                    assert(views_of(pieces@) =~= split_spec(whole, c));
                }
                return pieces;
            },
        }
    }
}

/// Joining pieces with a separator put between neighbours.
pub open spec fn join_spec(pieces: Seq<Seq<char>>, sep: Seq<char>) -> Seq<char>
    decreases pieces.len(),
{
    if pieces.len() == 0 {
        Seq::<char>::empty()
    } else if pieces.len() == 1 {
        pieces[0]
    } else {
        pieces[0] + sep + join_spec(pieces.drop_first(), sep)
    }
}

/// Joins the pieces, with `sep` between neighbouring pieces.
pub fn join_str(pieces: &Vec<String>, sep: &str) -> (r: String)
    ensures
        r@ == join_spec(views_of(pieces@), sep@),
{
    let mut out = String::new();
    let n = pieces.len();
    if n == 0 {
        return out;
    }
    let mut i: usize = 0;
    while i < n
        invariant
            0 < n == pieces@.len(),
            i <= n,
            i > 0 ==> out@ =~= join_spec(views_of(pieces@.take(i as int)), sep@),
            i == 0 ==> out@ =~= Seq::<char>::empty(),
        decreases n - i,
    {
        if i > 0 {
            out.append(sep);
        }
        out.append(pieces[i].as_str());
        proof {
            let pre = views_of(pieces@.take(i as int));
            let now = views_of(pieces@.take(i + 1 as int));
            assert(now =~= pre + seq![pieces@[i as int]@]);
            lemma_join_snoc(pre, seq![pieces@[i as int]@], sep@);
        }
        i = i + 1;
    }
    proof {
        assert(pieces@.take(n as int) =~= pieces@);
    }
    out
}

/// Appending one more piece extends the join by a separator and the piece.
pub proof fn lemma_join_snoc(pieces: Seq<Seq<char>>, last: Seq<Seq<char>>, sep: Seq<char>)
    requires
        last.len() == 1,
    ensures
        join_spec(pieces + last, sep) == if pieces.len() == 0 {
            last[0]
        } else {
            join_spec(pieces, sep) + sep + last[0]
        },
    decreases pieces.len(),
{
    if pieces.len() == 0 {
        assert(pieces + last =~= last);
        assert(join_spec(pieces + last, sep) == last[0]);
    } else if pieces.len() == 1 {
        assert((pieces + last).len() == 2);
        assert((pieces + last)[0] == pieces[0]);
        assert((pieces + last).drop_first() =~= last);
        assert(join_spec(pieces + last, sep) == pieces[0] + sep + join_spec(last, sep));
        assert(join_spec(last, sep) == last[0]);
        assert(join_spec(pieces, sep) == pieces[0]);
        assert(join_spec(pieces + last, sep) == join_spec(pieces, sep) + sep + last[0]);
    } else {
        lemma_join_snoc(pieces.drop_first(), last, sep);
        assert((pieces + last).drop_first() =~= pieces.drop_first() + last);
        assert(join_spec(pieces + last, sep) == pieces[0] + sep + join_spec(
            pieces.drop_first() + last,
            sep,
        ));
        assert(pieces[0] + sep + (join_spec(pieces.drop_first(), sep) + sep + last[0]) =~= (
        pieces[0] + sep + join_spec(pieces.drop_first(), sep)) + sep + last[0]);
    }
}

/// The pieces that are not empty, in order.
pub open spec fn nonempty_pieces(pieces: Seq<Seq<char>>) -> Seq<Seq<char>> {
    pieces.filter(|p: Seq<char>| p.len() != 0)
}

/// The nonempty `/`-separated segments of a path string.
pub open spec fn segments_spec(s: Seq<char>) -> Seq<Seq<char>> {
    nonempty_pieces(split_spec(s, '/'))
}

/// The nonempty pieces between the `/` separators of `s`, in order.
pub fn path_segments(s: &str) -> (r: Vec<String>)
    ensures
        views_of(r@) == segments_spec(s@),
{
    let pieces = split_str(s, '/');
    let mut out: Vec<String> = Vec::new();
    let n = pieces.len();
    let mut i: usize = 0;
    proof {
        assert(views_of(pieces@).take(0) =~= Seq::<Seq<char>>::empty());
        assert(Seq::<Seq<char>>::empty().filter(|p: Seq<char>| p.len() != 0)
            =~= Seq::<Seq<char>>::empty());
    }
    while i < n
        invariant
            i <= n,
            n == pieces@.len(),
            views_of(pieces@) == split_spec(s@, '/'),
            views_of(out@) =~= nonempty_pieces(views_of(pieces@).take(i as int)),
        decreases n - i,
    {
        let ghost pre = views_of(pieces@).take(i as int);
        let ghost cur = pieces@[i as int]@;
        proof {
            assert(views_of(pieces@).take(i + 1 as int) =~= pre.push(cur));
            reveal(Seq::filter);
            assert(pre.push(cur).drop_last() =~= pre);
            assert(nonempty_pieces(pre.push(cur)) == if cur.len() != 0 {
                nonempty_pieces(pre).push(cur)
            } else {
                nonempty_pieces(pre)
            });
        }
        if !pieces[i].as_str().is_empty() {
            out.push(pieces[i].clone());
            proof {
                assert(views_of(out@) =~= views_of(out@.drop_last()).push(cur));
            }
        }
        i = i + 1;
    }
    proof {
        assert(views_of(pieces@).take(n as int) =~= views_of(pieces@));
    }
    out
}

/// An equal copy of a vector of strings.
pub fn clone_string_vec(v: &Vec<String>) -> (r: Vec<String>)
    ensures
        r@ == v@,
{
    let r = v.clone();
    proof {
        assert forall|i: int| 0 <= i < v@.len() implies r@[i] == v@[i] by {
            assert(vstd::pervasive::cloned::<String>(v@[i], r@[i]));
        }
        assert(r@ =~= v@);
    }
    r
}

/// Whether `c` occurs nowhere in `p`.
pub open spec fn no_sep(p: Seq<char>, c: char) -> bool {
    forall|j: int| 0 <= j < p.len() ==> p[j] != c
}

/// No piece of a split contains the separator.
pub proof fn lemma_split_pieces_no_sep(s: Seq<char>, c: char)
    ensures
        forall|i: int|
            0 <= i < split_spec(s, c).len() ==> no_sep(#[trigger] split_spec(s, c)[i], c),
    decreases s.len(),
{
    if s.len() == 0 {
    } else if s[0] == c {
        lemma_split_pieces_no_sep(s.drop_first(), c);
        let pieces = split_spec(s, c);
        let rest = split_spec(s.drop_first(), c);
        assert forall|i: int| 0 <= i < pieces.len() implies no_sep(pieces[i], c) by {
            if i > 0 {
                assert(pieces[i] == rest[i - 1]);
            }
        }
    } else {
        lemma_split_pieces_no_sep(s.drop_first(), c);
        lemma_split_len_pos(s.drop_first(), c);
        let pieces = split_spec(s, c);
        let rest = split_spec(s.drop_first(), c);
        assert forall|i: int| 0 <= i < pieces.len() implies no_sep(pieces[i], c) by {
            if i == 0 {
                assert(pieces[0] == seq![s[0]] + rest[0]);
                assert(no_sep(rest[0], c));
                assert forall|j: int| 0 <= j < pieces[0].len() implies pieces[0][j] != c by {
                    if j > 0 {
                        assert(pieces[0][j] == rest[0][j - 1]);
                    }
                }
            } else {
                assert(pieces[i] == rest.drop_first()[i - 1]);
                assert(rest.drop_first()[i - 1] == rest[i]);
            }
        }
    }
}

/// Every piece that the nonempty filter keeps came from the given pieces.
pub proof fn lemma_nonempty_pieces_member(pieces: Seq<Seq<char>>, i: int)
    requires
        0 <= i < nonempty_pieces(pieces).len(),
    ensures
        exists|j: int| 0 <= j < pieces.len() && pieces[j] == nonempty_pieces(pieces)[i],
    decreases pieces.len(),
{
    reveal(Seq::filter);
    if pieces.len() > 0 {
        let d = pieces.drop_last();
        if i < nonempty_pieces(d).len() {
            lemma_nonempty_pieces_member(d, i);
            let j = choose|j: int| 0 <= j < d.len() && d[j] == nonempty_pieces(d)[i];
            assert(pieces[j] == nonempty_pieces(pieces)[i]);
        } else {
            assert(pieces[pieces.len() - 1] == nonempty_pieces(pieces)[i]);
        }
    }
}

/// Every segment of a path is nonempty and free of the separator.
pub proof fn lemma_segments_good(s: Seq<char>)
    ensures
        forall|i: int|
            0 <= i < segments_spec(s).len() ==> (#[trigger] segments_spec(s)[i]).len() > 0
                && no_sep(segments_spec(s)[i], '/'),
{
    broadcast use vstd::seq_lib::group_filter_ensures;

    lemma_split_pieces_no_sep(s, '/');
    let pieces = split_spec(s, '/');
    let segs = segments_spec(s);
    assert forall|i: int| 0 <= i < segs.len() implies segs[i].len() > 0 && no_sep(segs[i], '/') by {
        lemma_nonempty_pieces_member(pieces, i);
    }
}

/// Filtering keeps pieces that are all nonempty unchanged.
pub proof fn lemma_nonempty_pieces_identity(pieces: Seq<Seq<char>>)
    requires
        forall|i: int| 0 <= i < pieces.len() ==> (#[trigger] pieces[i]).len() != 0,
    ensures
        nonempty_pieces(pieces) == pieces,
    decreases pieces.len(),
{
    reveal(Seq::filter);
    if pieces.len() > 0 {
        let d = pieces.drop_last();
        lemma_nonempty_pieces_identity(d);
        assert(nonempty_pieces(pieces) =~= pieces);
    } else {
        assert(nonempty_pieces(pieces) =~= pieces);
    }
}

/// Splitting a join of nonempty, separator-free pieces gives them back.
pub proof fn lemma_split_join_roundtrip(pieces: Seq<Seq<char>>, c: char)
    requires
        pieces.len() >= 1,
        forall|i: int|
            0 <= i < pieces.len() ==> (#[trigger] pieces[i]).len() > 0 && no_sep(pieces[i], c),
    ensures
        split_spec(join_spec(pieces, seq![c]), c) == pieces,
    decreases pieces.len(),
{
    if pieces.len() == 1 {
        lemma_split_no_sep(pieces[0], c);
        assert(seq![pieces[0]] =~= pieces);
    } else {
        let p0 = pieces[0];
        let rest = pieces.drop_first();
        let tail = join_spec(rest, seq![c]);
        let j = join_spec(pieces, seq![c]);
        assert(j == p0 + seq![c] + tail);
        assert forall|k: int| 0 <= k < p0.len() implies j[k] != c by {
            assert(j[k] == p0[k]);
        }
        assert(j[p0.len() as int] == c);
        lemma_split_at_first(j, c, p0.len() as int);
        assert(j.take(p0.len() as int) =~= p0);
        assert(j.skip(p0.len() as int + 1) =~= tail);
        lemma_split_join_roundtrip(rest, c);
        assert(seq![p0] + rest =~= pieces);
    }
}

/// A leading separator contributes one empty piece in front.
pub proof fn lemma_split_sep_prefix(x: Seq<char>, c: char)
    ensures
        split_spec(seq![c] + x, c) == seq![Seq::<char>::empty()] + split_spec(x, c),
{
    let s = seq![c] + x;
    assert(s[0] == c);
    assert(s.drop_first() =~= x);
}

/// The canonical path written as a slash followed by the pieces joined
/// with slashes has exactly those pieces as its segments.
pub proof fn lemma_canonical_segments(pieces: Seq<Seq<char>>)
    requires
        forall|i: int|
            0 <= i < pieces.len() ==> (#[trigger] pieces[i]).len() > 0 && no_sep(pieces[i], '/'),
    ensures
        segments_spec(seq!['/'] + join_spec(pieces, seq!['/'])) == pieces,
{
    reveal_with_fuel(Seq::filter, 3);
    let e = Seq::<char>::empty();
    assert(seq![e].drop_last() =~= Seq::<Seq<char>>::empty());
    assert(nonempty_pieces(seq![e]) =~= Seq::<Seq<char>>::empty());
    if pieces.len() == 0 {
        let s = seq!['/'] + join_spec(pieces, seq!['/']);
        assert(s =~= seq!['/']);
        assert(s[0] == '/');
        assert(s.drop_first() =~= e);
        assert(split_spec(s.drop_first(), '/') =~= seq![e]);
        assert(split_spec(s, '/') =~= seq![e] + seq![e]);
        assert((seq![e] + seq![e]).drop_last() =~= seq![e]);
        assert(nonempty_pieces(seq![e] + seq![e]) =~= pieces);
    } else {
        lemma_split_join_roundtrip(pieces, '/');
        lemma_split_sep_prefix(join_spec(pieces, seq!['/']), '/');
        Seq::filter_distributes_over_add(
            seq![e],
            split_spec(join_spec(pieces, seq!['/']), '/'),
            |p: Seq<char>| p.len() != 0,
        );
        lemma_nonempty_pieces_identity(pieces);
        assert(segments_spec(seq!['/'] + join_spec(pieces, seq!['/'])) =~= pieces);
    }
}

/// The whitespace characters that header fields are trimmed of.
pub open spec fn is_ws(c: char) -> bool {
    c == ' ' || c == '\t' || c == '\r' || c == '\n'
}

/// `s` without its leading whitespace.
pub open spec fn trim_start_spec(s: Seq<char>) -> Seq<char>
    decreases s.len(),
{
    if s.len() > 0 && is_ws(s[0]) {
        trim_start_spec(s.drop_first())
    } else {
        s
    }
}

/// `s` without its trailing whitespace.
pub open spec fn trim_end_spec(s: Seq<char>) -> Seq<char>
    decreases s.len(),
{
    if s.len() > 0 && is_ws(s[s.len() - 1]) {
        trim_end_spec(s.drop_last())
    } else {
        s
    }
}

/// `s` without leading and trailing whitespace.
pub open spec fn trim_spec(s: Seq<char>) -> Seq<char> {
    trim_end_spec(trim_start_spec(s))
}

proof fn lemma_trim_start_skip(s: Seq<char>, a: int)
    requires
        0 <= a <= s.len(),
        forall|j: int| 0 <= j < a ==> is_ws(s[j]),
        a < s.len() ==> !is_ws(s[a]),
    ensures
        trim_start_spec(s) == s.skip(a),
    decreases a,
{
    if a == 0 {
        assert(s.skip(0) =~= s);
    } else {
        lemma_trim_start_skip(s.drop_first(), a - 1);
        assert(s.drop_first().skip(a - 1) =~= s.skip(a));
    }
}

proof fn lemma_trim_end_take(s: Seq<char>, b: int)
    requires
        0 <= b <= s.len(),
        forall|j: int| b <= j < s.len() ==> is_ws(s[j]),
        b > 0 ==> !is_ws(s[b - 1]),
    ensures
        trim_end_spec(s) == s.take(b),
    decreases s.len() - b,
{
    if b == s.len() {
        assert(s.take(b) =~= s);
    } else {
        lemma_trim_end_take(s.drop_last(), b);
        assert(s.drop_last().take(b) =~= s.take(b));
    }
}

/// Whether `c` is one of the whitespace characters that trimming removes.
pub fn is_ws_char(c: char) -> (r: bool)
    ensures
        r == is_ws(c),
{
    c == ' ' || c == '\t' || c == '\r' || c == '\n'
}

/// `s` with whitespace removed from both ends.
pub fn trim_str(s: &str) -> (r: &str)
    ensures
        r@ == trim_spec(s@),
{
    let n = s.unicode_len();
    let mut a: usize = 0;
    while a < n && is_ws_char(s.get_char(a))
        invariant
            a <= n,
            n == s@.len(),
            forall|j: int| 0 <= j < a ==> is_ws(s@[j]),
        decreases n - a,
    {
        a = a + 1;
    }
    let mut b: usize = n;
    while b > a && is_ws_char(s.get_char(b - 1))
        invariant
            a <= b <= n,
            n == s@.len(),
            forall|j: int| 0 <= j < a ==> is_ws(s@[j]),
            forall|j: int| b <= j < n ==> is_ws(s@[j]),
        decreases b,
    {
        b = b - 1;
    }
    let r = s.substring_char(a, b);
    proof {
        lemma_trim_start_skip(s@, a as int);
        let t = s@.skip(a as int);
        if b == a {
            lemma_trim_end_take(t, 0);
        } else {
            lemma_trim_end_take(t, b - a);
        }
        assert(t.take(b - a) =~= s@.subrange(a as int, b as int));
    }
    r
}

/// Splits at the first occurrence of `c`: the part before it and the part
/// after it, or nothing if `c` does not occur.
pub fn split_once_str(s: &str, c: char) -> (r: Option<(String, String)>)
    ensures
        match r {
            Some(pair) => exists|i: int|
                {
                    &&& 0 <= i < s@.len()
                    &&& s@[i] == c
                    &&& (forall|j: int| 0 <= j < i ==> s@[j] != c)
                    &&& pair.0@ == s@.take(i)
                    &&& pair.1@ == s@.skip(i + 1)
                },
            None => forall|j: int| 0 <= j < s@.len() ==> s@[j] != c,
        },
{
    match str_index_of(s, c) {
        Some(i) => {
            let n = s.unicode_len();
            let before = s.substring_char(0, i).to_owned();
            let after = s.substring_char(i + 1, n).to_owned();
            proof {
                assert(s@.subrange(0, i as int) =~= s@.take(i as int));
                assert(s@.subrange(i + 1, n as int) =~= s@.skip(i + 1));
            }
            Some((before, after))
        },
        None => None,
    }
}

} // verus!
