//! Strings as sequences of characters: the few operations that the rest of the
//! library needs, each stated over `Seq<char>`.

use vstd::prelude::*;
use vstd::string::*;

verus! {

/// The pieces of `s` between the occurrences of `sep`. There is always at least
/// one piece; two separators in a row, or one at either end, give an empty piece.
pub open spec fn split(s: Seq<char>, sep: char) -> Seq<Seq<char>>
    decreases s.len(),
{
    match s.index_of_first(sep) {
        Some(i) => if 0 <= i < s.len() {
            seq![s.subrange(0, i)] + split(s.subrange(i + 1, s.len() as int), sep)
        } else {
            seq![s]
        },
        None => seq![s],
    }
}

/// `pieces` put together again, with `sep` between each two neighbours.
pub open spec fn join(pieces: Seq<Seq<char>>, sep: char) -> Seq<char>
    decreases pieces.len(),
{
    if pieces.len() == 0 {
        Seq::empty()
    } else if pieces.len() == 1 {
        pieces[0]
    } else {
        pieces[0] + seq![sep] + join(pieces.drop_first(), sep)
    }
}

/// `s` without one `lead` in front, if it begins with one.
pub open spec fn strip_one(s: Seq<char>, lead: char) -> Seq<char> {
    if s.len() > 0 && s[0] == lead {
        s.subrange(1, s.len() as int)
    } else {
        s
    }
}

/// `k` is the first place of `c` in `s` once `c` is known to be there and
/// nowhere before.
pub proof fn lemma_first_index(s: Seq<char>, c: char, k: int)
    requires
        0 <= k < s.len(),
        s[k] == c,
        forall|j: int| 0 <= j < k ==> s[j] != c,
    ensures
        s.index_of_first(c) == Some(k),
{
    s.index_of_first_ensures(c);
    assert(s.contains(c));
}

/// `k` is the last place of `c` in `s` once `c` is known to be there and
/// nowhere after.
pub proof fn lemma_last_index(s: Seq<char>, c: char, k: int)
    requires
        0 <= k < s.len(),
        s[k] == c,
        forall|j: int| k < j < s.len() ==> s[j] != c,
    ensures
        s.index_of_last(c) == Some(k),
{
    s.index_of_last_ensures(c);
    assert(s.contains(c));
}

/// A character that occurs nowhere in `s` has no first and no last place in it.
pub proof fn lemma_no_index(s: Seq<char>, c: char)
    requires
        forall|j: int| 0 <= j < s.len() ==> s[j] != c,
    ensures
        s.index_of_first(c) is None,
        s.index_of_last(c) is None,
{
    s.index_of_first_ensures(c);
    s.index_of_last_ensures(c);
}

/// Splitting loses nothing and leaves no separator behind: there is at least
/// one piece, no piece holds `sep`, and the pieces joined by `sep` are `s` again.
pub proof fn lemma_split_join(s: Seq<char>, sep: char)
    ensures
        split(s, sep).len() >= 1,
        forall|i: int| 0 <= i < split(s, sep).len() ==> !(#[trigger] split(s, sep)[i]).contains(sep),
        join(split(s, sep), sep) == s,
    decreases s.len(),
{
    s.index_of_first_ensures(sep);
    match s.index_of_first(sep) {
        Some(at) => {
            let head = s.subrange(0, at);
            let rest = s.subrange(at + 1, s.len() as int);
            let pieces = split(s, sep);
            lemma_split_join(rest, sep);
            assert(pieces.drop_first() == split(rest, sep));
            assert(pieces[0] == head);
            assert(head + seq![sep] + rest == s);
            assert forall|i: int| 0 <= i < pieces.len() implies !(#[trigger] pieces[i]).contains(
                sep,
            ) by {
                if i > 0 {
                    assert(pieces[i] == split(rest, sep)[i - 1]);
                }
            }
        },
        None => {},
    }
}

/// The characters of `s`, one by one.
pub fn chars_of(s: &str) -> (r: Vec<char>)
    ensures
        r@ == s@,
{
    let mut out: Vec<char> = Vec::new();
    for c in it: s.chars()
        invariant
            it.seq() == s@,
            out@ == s@.take(it.index() as int),
    {
        out.push(c);
    }
    out
}

/// The characters of `s` from `from` up to, not including, `to`.
pub fn slice(s: &str, from: usize, to: usize) -> (r: String)
    requires
        from <= to <= s@.len(),
    ensures
        r@ == s@.subrange(from as int, to as int),
{
    s.substring_char(from, to).to_owned()
}

/// Whether two strings hold the same characters.
pub fn same_text(a: &str, b: &str) -> (r: bool)
    ensures
        r == (a@ == b@),
{
    let left = a.to_owned();
    let right = b.to_owned();
    left.eq(&right)
}

/// `s` without one leading `lead`.
pub fn strip_leading(s: &str, lead: char) -> (r: String)
    ensures
        r@ == strip_one(s@, lead),
{
    let n: usize = s.unicode_len();
    if n > 0 && s.get_char(0) == lead {
        slice(s, 1, n)
    } else {
        s.to_owned()
    }
}

/// Splits `s` at every `sep`.
pub fn split_at_each(s: &str, sep: char) -> (r: Vec<String>)
    ensures
        r.deep_view() == split(s@, sep),
{
    let chars = chars_of(s);
    let n: usize = chars.len();
    let mut pieces: Vec<String> = Vec::new();
    let mut start: usize = 0;
    let mut i: usize = 0;
    proof {
        assert(s@.subrange(0, n as int) == s@);
        assert(pieces.deep_view() + split(s@, sep) == split(s@, sep));
    }
    while i < n
        invariant
            chars@ == s@,
            n == s@.len(),
            start <= i <= n,
            forall|k: int| start <= k < i ==> s@[k] != sep,
            split(s@, sep) == pieces.deep_view() + split(s@.subrange(start as int, n as int), sep),
        decreases n - i,
    {
        if chars[i] == sep {
            let piece = slice(s, start, i);
            proof {
                let rest = s@.subrange(start as int, n as int);
                lemma_first_index(rest, sep, i - start);
                assert(rest.subrange(0, i - start) == s@.subrange(start as int, i as int));
                assert(rest.subrange(i - start + 1, rest.len() as int) == s@.subrange(
                    i + 1,
                    n as int,
                ));
                assert(pieces.deep_view().push(piece@) + split(s@.subrange(i + 1, n as int), sep)
                    == pieces.deep_view() + split(rest, sep));
            }
            let ghost before = pieces.deep_view();
            pieces.push(piece);
            assert(pieces.deep_view() == before.push(piece@));
            start = i + 1;
        }
        i = i + 1;
    }
    let last = slice(s, start, n);
    proof {
        let rest = s@.subrange(start as int, n as int);
        lemma_no_index(rest, sep);
        assert(pieces.deep_view().push(last@) == pieces.deep_view() + split(rest, sep));
    }
    let ghost before = pieces.deep_view();
    pieces.push(last);
    assert(pieces.deep_view() == before.push(last@));
    pieces
}

} // verus!
