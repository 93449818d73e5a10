//! Character sequences: finding a separator and splitting at it.
//!
//! Every parser of this crate reads its input as a sequence of characters and
//! cuts it at single separator characters. The `spec` functions here say
//! what those cuts are; the executable functions compute them.

use vstd::prelude::*;
use vstd::std_specs::iter::IteratorSpec;

verus! {

/// `String::push` of the standard library appends one character to the end
/// of the string and leaves the characters before it as they were.
pub assume_specification[ String::push ](s: &mut String, ch: char)
    ensures
        final(s)@ == old(s)@.push(ch),
;

/// Index of the first element of `s` that equals `x`, or `s.len()` when no
/// element does.
pub open spec fn first_index<A>(s: Seq<A>, x: A) -> int
    decreases s.len(),
{
    if s.len() == 0 || s[0] == x {
        0
    } else {
        1 + first_index(s.drop_first(), x)
    }
}

/// `first_index` stays within the sequence, names an occurrence when there
/// is one, and nothing before it equals `x`.
pub proof fn lemma_first_index<A>(s: Seq<A>, x: A)
    ensures
        0 <= first_index(s, x) <= s.len(),
        first_index(s, x) < s.len() ==> s[first_index(s, x)] == x,
        forall|j: int| 0 <= j < first_index(s, x) ==> s[j] != x,
        first_index(s, x) < s.len() <==> s.contains(x),
    decreases s.len(),
{
    if s.len() == 0 || s[0] == x {
    } else {
        let t = s.drop_first();
        lemma_first_index(t, x);
        let k = first_index(t, x);
        assert forall|j: int| 0 <= j < k + 1 implies s[j] != x by {
            if j > 0 {
                assert(s[j] == t[j - 1]);
            }
        }
        if k < t.len() {
            assert(s[k + 1] == t[k]);
        }
        if s.contains(x) {
            let i = choose|i: int| 0 <= i < s.len() && s[i] == x;
            assert(t[i - 1] == x);
        }
    }
}

/// An index that is in range, names an occurrence unless it is the length,
/// and has no occurrence before it, is `first_index`.
pub proof fn lemma_first_index_is<A>(s: Seq<A>, x: A, i: int)
    requires
        0 <= i <= s.len(),
        i < s.len() ==> s[i] == x,
        forall|j: int| 0 <= j < i ==> s[j] != x,
    ensures
        first_index(s, x) == i,
{
    lemma_first_index(s, x);
    let k = first_index(s, x);
    if k < i {
        assert(s[k] == x);
    } else if i < k {
        assert(s[i] == x);
    }
}

/// The pieces of `s` between the occurrences of `sep`, in order. A sequence
/// with `n` separators has `n + 1` pieces, some of them possibly empty; the
/// empty sequence has one empty piece.
pub open spec fn split(s: Seq<char>, sep: char) -> Seq<Seq<char>>
    decreases s.len(),
{
    let i = first_index(s, sep);
    if 0 <= i < s.len() {
        seq![s.take(i)] + split(s.skip(i + 1), sep)
    } else {
        seq![s]
    }
}

/// No piece of a split holds the separator, and there is at least one piece.
pub proof fn lemma_split_pieces(s: Seq<char>, sep: char)
    ensures
        split(s, sep).len() >= 1,
        forall|k: int| 0 <= k < split(s, sep).len() ==> !(#[trigger] split(s, sep)[k]).contains(sep),
    decreases s.len(),
{
    lemma_first_index(s, sep);
    let i = first_index(s, sep);
    if 0 <= i < s.len() {
        let head = s.take(i);
        let rest = split(s.skip(i + 1), sep);
        lemma_split_pieces(s.skip(i + 1), sep);
        assert(!head.contains(sep)) by {
            if head.contains(sep) {
                let j = choose|j: int| 0 <= j < head.len() && head[j] == sep;
                assert(s[j] == sep);
            }
        }
        assert forall|k: int| 0 <= k < split(s, sep).len() implies !(#[trigger] split(
            s,
            sep,
        )[k]).contains(sep) by {
            if k > 0 {
                assert(split(s, sep)[k] == rest[k - 1]);
            }
        }
    }
}

/// The pieces put together again, with `sep` between each two of them.
pub open spec fn join(pieces: Seq<Seq<char>>, sep: char) -> Seq<char>
    decreases pieces.len(),
{
    if pieces.len() == 0 {
        Seq::empty()
    } else if pieces.len() == 1 {
        pieces[0]
    } else {
        pieces[0] + seq![sep] + join(pieces.drop_first(), sep)
    }
}

/// Splitting loses nothing: the pieces, joined, are the sequence again.
pub proof fn lemma_split_join(s: Seq<char>, sep: char)
    ensures
        join(split(s, sep), sep) == s,
    decreases s.len(),
{
    lemma_first_index(s, sep);
    let i = first_index(s, sep);
    if 0 <= i < s.len() {
        let rest = split(s.skip(i + 1), sep);
        lemma_split_pieces(s.skip(i + 1), sep);
        lemma_split_join(s.skip(i + 1), sep);
        let pieces = split(s, sep);
        assert(pieces.drop_first() == rest);
        assert(pieces[0] == s.take(i));
        assert(s.take(i) + seq![sep] + s.skip(i + 1) == s);
    }
}

/// Splitting finds the pieces that were joined: for one piece or more, none
/// of which holds the separator, the split of their join is the pieces.
pub proof fn lemma_join_split(pieces: Seq<Seq<char>>, sep: char)
    requires
        pieces.len() >= 1,
        forall|k: int| 0 <= k < pieces.len() ==> !(#[trigger] pieces[k]).contains(sep),
    ensures
        split(join(pieces, sep), sep) == pieces,
    decreases pieces.len(),
{
    let s = join(pieces, sep);
    let head = pieces[0];
    assert(!head.contains(sep));
    if pieces.len() == 1 {
        lemma_first_index(s, sep);
        assert(pieces == seq![s]);
    } else {
        let tail = pieces.drop_first();
        assert forall|k: int| 0 <= k < tail.len() implies !(#[trigger] tail[k]).contains(sep) by {
            assert(tail[k] == pieces[k + 1]);
        }
        lemma_join_split(tail, sep);
        let i = head.len() as int;
        assert(s[i] == sep);
        assert forall|j: int| 0 <= j < i implies s[j] != sep by {
            assert(s[j] == head[j]);
        }
        lemma_first_index_is(s, sep, i);
        assert(s.take(i) == head);
        assert(s.skip(i + 1) == join(tail, sep));
        assert(seq![head] + tail == pieces);
    }
}

/// The characters of `s`, in order.
pub fn chars_of(s: &str) -> (v: Vec<char>)
    ensures
        v@ == s@,
{
    let mut v: Vec<char> = Vec::new();
    for c in it: s.chars()
        invariant
            v@ == it.seq().take(it.index()),
            it.seq() == s@,
    {
        v.push(c);
    }
    v
}

/// The string made of the characters `chars[from..to]`.
pub fn string_of(chars: &Vec<char>, from: usize, to: usize) -> (s: String)
    requires
        from <= to <= chars.len(),
    ensures
        s@ == chars@.subrange(from as int, to as int),
{
    let mut s = String::new();
    let mut i: usize = from;
    while i < to
        invariant
            from <= i <= to <= chars.len(),
            s@ == chars@.subrange(from as int, i as int),
        decreases to - i,
    {
        s.push(chars[i]);
        i += 1;
    }
    s
}

/// A copy of the characters `chars[from..to]`.
pub fn copy_range(chars: &Vec<char>, from: usize, to: usize) -> (v: Vec<char>)
    requires
        from <= to <= chars.len(),
    ensures
        v@ == chars@.subrange(from as int, to as int),
{
    let mut v: Vec<char> = Vec::new();
    let mut i: usize = from;
    while i < to
        invariant
            from <= i <= to <= chars.len(),
            v@ == chars@.subrange(from as int, i as int),
        decreases to - i,
    {
        v.push(chars[i]);
        i += 1;
    }
    v
}

/// Whether two character vectors hold the same characters.
pub fn same_chars(a: &Vec<char>, b: &Vec<char>) -> (same: bool)
    ensures
        same == (a@ == b@),
{
    if a.len() != b.len() {
        return false;
    }
    let mut i: usize = 0;
    while i < a.len()
        invariant
            i <= a.len(),
            a.len() == b.len(),
            a@.take(i as int) == b@.take(i as int),
        decreases a.len() - i,
    {
        if a[i] != b[i] {
            return false;
        }
        assert(a@.take(i + 1) == a@.take(i as int).push(a@[i as int]));
        assert(b@.take(i + 1) == b@.take(i as int).push(b@[i as int]));
        i += 1;
    }
    assert(a@ == a@.take(a.len() as int));
    assert(b@ == b@.take(b.len() as int));
    true
}

/// Position of the first `c` at or after `from`, or `chars.len()` when the
/// rest of `chars` holds none.
pub fn find_from(chars: &Vec<char>, from: usize, c: char) -> (at: usize)
    requires
        from <= chars.len(),
    ensures
        at == from + first_index(chars@.skip(from as int), c),
        from <= at <= chars.len(),
{
    let mut i: usize = from;
    while i < chars.len() && chars[i] != c
        invariant
            from <= i <= chars.len(),
            forall|j: int| from <= j < i ==> chars@[j] != c,
        decreases chars.len() - i,
    {
        i += 1;
    }
    proof {
        lemma_first_index_is(chars@.skip(from as int), c, i - from);
    }
    i
}

/// The deep view of a vector of character vectors lists their views.
pub proof fn lemma_pieces_view(pieces: Vec<Vec<char>>)
    ensures
        pieces.deep_view().len() == pieces.len(),
        forall|k: int| 0 <= k < pieces.len() ==> #[trigger] pieces.deep_view()[k] == pieces@[k]@,
{
    assert forall|k: int| 0 <= k < pieces.len() implies #[trigger] pieces.deep_view()[k]
        == pieces@[k]@ by {
        assert(pieces@[k].deep_view() =~= pieces@[k]@);
    }
}

/// Cuts `chars` at every `sep`.
pub fn split_chars(chars: &Vec<char>, sep: char) -> (pieces: Vec<Vec<char>>)
    ensures
        pieces.deep_view() == split(chars@, sep),
{
    let mut pieces: Vec<Vec<char>> = Vec::new();
    let mut start: usize = 0;
    proof {
        lemma_pieces_view(pieces);
        assert(chars@.skip(0) == chars@);
        assert(pieces.deep_view() + split(chars@, sep) == split(chars@, sep));
    }
    loop
        invariant_except_break
            start <= chars.len(),
            split(chars@, sep) == pieces.deep_view() + split(chars@.skip(start as int), sep),
        ensures
            pieces.deep_view() == split(chars@, sep),
        decreases chars.len() - start,
    {
        let ghost rest = chars@.skip(start as int);
        let ghost before = pieces;
        let at = find_from(chars, start, sep);
        let piece = copy_range(chars, start, at);
        assert(piece@ == rest.take(at - start));
        pieces.push(piece);
        proof {
            lemma_pieces_view(before);
            lemma_pieces_view(pieces);
            assert(pieces.deep_view() == before.deep_view().push(piece@));
        }
        if at == chars.len() {
            assert(rest.take(at - start) == rest);
            break;
        }
        assert(rest.skip(at - start + 1) == chars@.skip(at + 1));
        start = at + 1;
    }
    pieces
}

} // verus!
