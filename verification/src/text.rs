//! Splitting and trimming of text, over bytes and over characters.

use crate::views::views_of;
use vstd::prelude::*;
use vstd::slice::*;
use vstd::string::*;
use vstd::utf8::*;

verus! {

/// The pieces of `s` between the occurrences of `sep`, in order.
///
/// A text with `n` separators has `n + 1` pieces; a piece is empty where two
/// separators meet, and at either end of the text where a separator
/// stands there.
pub open spec fn split_on<T>(s: Seq<T>, sep: T) -> Seq<Seq<T>>
    decreases s.len(),
{
    if s.len() == 0 {
        seq![Seq::<T>::empty()]
    } else {
        let before = split_on(s.drop_last(), sep);
        if s.last() == sep {
            before.push(Seq::<T>::empty())
        } else {
            before.drop_last().push(before.last().push(s.last()))
        }
    }
}

/// The pieces of `pieces`, put together again with `sep` between them.
pub open spec fn join_with<T>(pieces: Seq<Seq<T>>, sep: T) -> Seq<T>
    decreases pieces.len(),
{
    if pieces.len() == 0 {
        Seq::<T>::empty()
    } else if pieces.len() == 1 {
        pieces[0]
    } else {
        join_with(pieces.drop_last(), sep).push(sep) + pieces.last()
    }
}

/// Splitting never gives an empty list of pieces.
pub proof fn lemma_split_on_nonempty<T>(s: Seq<T>, sep: T)
    ensures
        split_on(s, sep).len() >= 1,
    decreases s.len(),
{
    if s.len() > 0 {
        lemma_split_on_nonempty(s.drop_last(), sep);
    }
}

/// No piece of a split holds the separator, and the pieces joined with the
/// separator are the text that was split.
pub proof fn lemma_split_on_inverts_join<T>(s: Seq<T>, sep: T)
    ensures
        forall|i: int, j: int|
            0 <= i < split_on(s, sep).len() && 0 <= j < split_on(s, sep)[i].len()
                ==> split_on(s, sep)[i][j] != sep,
        join_with(split_on(s, sep), sep) == s,
    decreases s.len(),
{
    lemma_split_on_nonempty(s, sep);
    if s.len() == 0 {
    } else {
        let front = s.drop_last();
        let before = split_on(front, sep);
        lemma_split_on_inverts_join(front, sep);
        lemma_split_on_nonempty(front, sep);
        if s.last() == sep {
            let now = before.push(Seq::<T>::empty());
            assert(now.drop_last() == before);
            assert(join_with(now, sep) == join_with(before, sep).push(sep) + Seq::<T>::empty());
            assert(join_with(now, sep) == s);
        } else {
            let grown = before.last().push(s.last());
            let now = before.drop_last().push(grown);
            assert(now.drop_last() == before.drop_last());
            if before.len() == 1 {
                assert(join_with(before, sep) == before[0]);
                assert(join_with(now, sep) == grown);
                assert(join_with(now, sep) == s);
            } else {
                assert(join_with(before, sep) == join_with(before.drop_last(), sep).push(sep)
                    + before.last());
                let head = join_with(before.drop_last(), sep).push(sep);
                assert(now.last() == grown);
                assert(join_with(now, sep) == head + grown);
                assert(head + grown =~= (head + before.last()).push(s.last()));
                assert(front.push(s.last()) =~= s);
            }
        }
    }
}

/// There is one way only to cut a text at its separators: pieces that hold
/// no separator and that give the text when they are joined with the
/// separator are the pieces of the split.
pub proof fn lemma_split_on_is_the_only_split<T>(pieces: Seq<Seq<T>>, s: Seq<T>, sep: T)
    requires
        pieces.len() >= 1,
        forall|i: int, j: int|
            0 <= i < pieces.len() && 0 <= j < pieces[i].len() ==> pieces[i][j] != sep,
        join_with(pieces, sep) == s,
    ensures
        pieces == split_on(s, sep),
    decreases s.len(),
{
    let front = pieces.drop_last();
    let last = pieces.last();
    if pieces.len() == 1 {
        assert(s == last);
    } else {
        assert(s == join_with(front, sep).push(sep) + last);
    }
    if last.len() == 0 {
        assert(last =~= Seq::<T>::empty());
        if pieces.len() == 1 {
            assert(pieces =~= seq![Seq::<T>::empty()]);
        } else {
            assert(s =~= join_with(front, sep).push(sep));
            assert(s.drop_last() =~= join_with(front, sep));
            assert forall|i: int, j: int|
                0 <= i < front.len() && 0 <= j < front[i].len() implies front[i][j] != sep by {
                assert(front[i] == pieces[i]);
            }
            lemma_split_on_is_the_only_split(front, s.drop_last(), sep);
            assert(pieces =~= front.push(Seq::<T>::empty()));
        }
    } else {
        let shorter = front.push(last.drop_last());
        assert(last[last.len() - 1] != sep);
        assert(s.last() == last.last());
        assert(shorter.drop_last() =~= front);
        if pieces.len() == 1 {
            assert(join_with(shorter, sep) == last.drop_last());
            assert(s.drop_last() =~= last.drop_last());
        } else {
            assert(join_with(shorter, sep) == join_with(front, sep).push(sep) + last.drop_last());
            assert(s.drop_last() =~= join_with(front, sep).push(sep) + last.drop_last());
        }
        assert forall|i: int, j: int|
            0 <= i < shorter.len() && 0 <= j < shorter[i].len() implies shorter[i][j] != sep by {
            if i < front.len() {
                assert(shorter[i] == pieces[i]);
            } else {
                assert(shorter[i][j] == last[j]);
            }
        }
        lemma_split_on_is_the_only_split(shorter, s.drop_last(), sep);
        assert(last.drop_last().push(s.last()) =~= last);
        assert(pieces =~= front.push(last));
    }
}

/// Whether `b` is a space, a tab or a carriage return.
pub open spec fn is_blank(b: u8) -> bool {
    b == 0x20 || b == 0x09 || b == 0x0d
}

/// `s` without the blanks it starts with.
pub open spec fn trim_start(s: Seq<u8>) -> Seq<u8>
    decreases s.len(),
{
    if s.len() > 0 && is_blank(s[0]) {
        trim_start(s.drop_first())
    } else {
        s
    }
}

/// `s` without the blanks it ends with.
pub open spec fn trim_end(s: Seq<u8>) -> Seq<u8>
    decreases s.len(),
{
    if s.len() > 0 && is_blank(s.last()) {
        trim_end(s.drop_last())
    } else {
        s
    }
}

/// `s` without the blanks at either end.
pub open spec fn trim(s: Seq<u8>) -> Seq<u8> {
    trim_end(trim_start(s))
}

/// What is trimmed from the start of a text are blanks, and all of them:
/// the text is cut at `cut`, before the first byte that is no blank.
pub proof fn lemma_trim_start_cuts_blanks(s: Seq<u8>) -> (cut: int)
    ensures
        0 <= cut <= s.len(),
        trim_start(s) == s.subrange(cut, s.len() as int),
        forall|i: int| 0 <= i < cut ==> is_blank(s[i]),
        cut < s.len() ==> !is_blank(s[cut]),
    decreases s.len(),
{
    if s.len() > 0 && is_blank(s[0]) {
        let rest = s.drop_first();
        let inner = lemma_trim_start_cuts_blanks(rest);
        assert(rest.subrange(inner, rest.len() as int) =~= s.subrange(inner + 1, s.len() as int));
        assert forall|i: int| 0 <= i < inner + 1 implies is_blank(s[i]) by {
            if i > 0 {
                assert(s[i] == rest[i - 1]);
            }
        }
        if inner + 1 < s.len() {
            assert(s[inner + 1] == rest[inner]);
        }
        inner + 1
    } else {
        assert(s.subrange(0, s.len() as int) =~= s);
        0
    }
}

/// What is trimmed from the end of a text are blanks, and all of them: the
/// text is cut at `cut`, behind the last byte that is no blank.
pub proof fn lemma_trim_end_cuts_blanks(s: Seq<u8>) -> (cut: int)
    ensures
        0 <= cut <= s.len(),
        trim_end(s) == s.subrange(0, cut),
        forall|i: int| cut <= i < s.len() ==> is_blank(s[i]),
        cut > 0 ==> !is_blank(s[cut - 1]),
    decreases s.len(),
{
    if s.len() > 0 && is_blank(s.last()) {
        let front = s.drop_last();
        let inner = lemma_trim_end_cuts_blanks(front);
        assert(front.subrange(0, inner) =~= s.subrange(0, inner));
        assert forall|i: int| inner <= i < s.len() implies is_blank(s[i]) by {
            if i < front.len() {
                assert(s[i] == front[i]);
            }
        }
        if inner > 0 {
            assert(s[inner - 1] == front[inner - 1]);
        }
        inner
    } else {
        assert(s.subrange(0, s.len() as int) =~= s);
        s.len() as int
    }
}

/// A trimmed text is the middle of the text it was made from: it runs from
/// `ends.0` to `ends.1`, it neither starts nor ends with a blank, and what
/// was cut off at either end are blanks.
pub proof fn lemma_trim_cuts_blanks(s: Seq<u8>) -> (ends: (int, int))
    ensures
        0 <= ends.0 <= ends.1 <= s.len(),
        trim(s) == s.subrange(ends.0, ends.1),
        forall|i: int| 0 <= i < ends.0 || ends.1 <= i < s.len() ==> is_blank(s[i]),
        ends.0 < ends.1 ==> !is_blank(s[ends.0]) && !is_blank(s[ends.1 - 1]),
{
    let from = lemma_trim_start_cuts_blanks(s);
    let middle = s.subrange(from, s.len() as int);
    let to = lemma_trim_end_cuts_blanks(middle);
    assert(middle.subrange(0, to) =~= s.subrange(from, from + to));
    assert forall|i: int| 0 <= i < from || from + to <= i < s.len() implies is_blank(s[i]) by {
        if i >= from + to {
            assert(s[i] == middle[i - from]);
        }
    }
    if to > 0 {
        assert(middle[to - 1] == s[from + to - 1]);
        assert(middle[0] == s[from]);
    }
    (from, from + to)
}

/// The index of the first `b` in `s`, or the length of `s` where it holds none.
pub open spec fn position_of(s: Seq<u8>, b: u8) -> int
    decreases s.len(),
{
    if s.len() == 0 || s[0] == b {
        0
    } else {
        1 + position_of(s.drop_first(), b)
    }
}

/// `position_of` lies within the text, finds `b` where it stops short of the
/// end, and passes over no `b` on its way.
pub proof fn lemma_position_of(s: Seq<u8>, b: u8)
    ensures
        0 <= position_of(s, b) <= s.len(),
        position_of(s, b) < s.len() ==> s[position_of(s, b)] == b,
        forall|i: int| 0 <= i < position_of(s, b) ==> s[i] != b,
    decreases s.len(),
{
    if s.len() == 0 || s[0] == b {
    } else {
        let rest = s.drop_first();
        lemma_position_of(rest, b);
        assert forall|i: int| 0 <= i < position_of(s, b) implies s[i] != b by {
            if i > 0 {
                assert(s[i] == rest[i - 1]);
            }
        }
    }
}

/// Tells whether `b` is a blank.
pub fn is_blank_byte(b: u8) -> (r: bool)
    ensures
        r == is_blank(b),
{
    b == 0x20 || b == 0x09 || b == 0x0d
}

/// Cuts `bytes` at every `sep`.
pub fn split_bytes(bytes: &[u8], sep: u8) -> (pieces: Vec<Vec<u8>>)
    ensures
        views_of(pieces@) == split_on(bytes@, sep),
{
    let mut pieces: Vec<Vec<u8>> = Vec::new();
    let mut current: Vec<u8> = Vec::new();
    let mut i: usize = 0;
    assert(views_of(pieces@).push(current@) =~= seq![Seq::<u8>::empty()]);
    while i < bytes.len()
        invariant
            i <= bytes.len(),
            split_on(bytes@.take(i as int), sep) == views_of(pieces@).push(current@),
        decreases bytes.len() - i,
    {
        let b = bytes[i];
        proof {
            let upto = bytes@.take(i + 1);
            assert(upto.drop_last() == bytes@.take(i as int));
            assert(upto.last() == b);
        }
        let ghost before = views_of(pieces@);
        if b == sep {
            let ghost done = current@;
            pieces.push(current);
            current = Vec::new();
            assert(views_of(pieces@) =~= before.push(done));
        } else {
            let ghost grown = current@.push(b);
            current.push(b);
            assert(views_of(pieces@) =~= before);
            assert(before.push(current@).drop_last().push(grown) == before.push(grown));
        }
        i += 1;
    }
    assert(bytes@.take(i as int) == bytes@);
    let ghost before = views_of(pieces@);
    let ghost last = current@;
    pieces.push(current);
    assert(views_of(pieces@) =~= before.push(last));
    pieces
}

/// Cuts `text` at every `sep`.
pub fn split_text(text: &str, sep: char) -> (pieces: Vec<String>)
    ensures
        views_of(pieces@) == split_on(text@, sep),
{
    let n = text.unicode_len();
    let mut pieces: Vec<String> = Vec::new();
    let mut start: usize = 0;
    let mut i: usize = 0;
    assert(text@.subrange(0, 0) =~= Seq::<char>::empty());
    assert(views_of(pieces@).push(Seq::<char>::empty()) =~= seq![Seq::<char>::empty()]);
    assert(text@.take(0) =~= Seq::<char>::empty());
    while i < n
        invariant
            start <= i <= n,
            n == text@.len(),
            split_on(text@.take(i as int), sep) == views_of(pieces@).push(
                text@.subrange(start as int, i as int),
            ),
        decreases n - i,
    {
        let c = text.get_char(i);
        proof {
            let upto = text@.take(i + 1);
            assert(upto.drop_last() == text@.take(i as int));
            assert(upto.last() == c);
        }
        let ghost before = views_of(pieces@);
        let ghost current = text@.subrange(start as int, i as int);
        if c == sep {
            let piece = String::from_str(text.substring_char(start, i));
            pieces.push(piece);
            start = i + 1;
            assert(views_of(pieces@) =~= before.push(current));
            assert(text@.subrange(start as int, i + 1) == Seq::<char>::empty());
        } else {
            assert(text@.subrange(start as int, i + 1) == current.push(c));
            assert(before.push(current).drop_last().push(current.push(c)) == before.push(
                current.push(c),
            ));
        }
        i += 1;
    }
    assert(text@.take(i as int) == text@);
    let ghost before = views_of(pieces@);
    let piece = String::from_str(text.substring_char(start, n));
    pieces.push(piece);
    assert(views_of(pieces@) =~= before.push(text@.subrange(start as int, n as int)));
    pieces
}

/// The part of `s` that is left when the blanks at its start are dropped.
pub fn trim_start_bytes<'a>(s: &'a [u8]) -> (r: &'a [u8])
    ensures
        r@ == trim_start(s@),
{
    let mut i: usize = 0;
    assert(s@.subrange(0, s@.len() as int) =~= s@);
    while i < s.len() && is_blank_byte(s[i])
        invariant
            i <= s.len(),
            trim_start(s@) == trim_start(s@.subrange(i as int, s@.len() as int)),
        decreases s.len() - i,
    {
        proof {
            let rest = s@.subrange(i as int, s@.len() as int);
            assert(rest[0] == s@[i as int]);
            assert(rest.drop_first() == s@.subrange(i + 1, s@.len() as int));
        }
        i += 1;
    }
    proof {
        let rest = s@.subrange(i as int, s@.len() as int);
        if i < s.len() {
            assert(rest[0] == s@[i as int]);
        }
    }
    slice_subrange(s, i, s.len())
}

/// The part of `s` that is left when the blanks at its end are dropped.
pub fn trim_end_bytes<'a>(s: &'a [u8]) -> (r: &'a [u8])
    ensures
        r@ == trim_end(s@),
{
    let mut n: usize = s.len();
    assert(s@.subrange(0, s@.len() as int) =~= s@);
    while n > 0 && is_blank_byte(s[n - 1])
        invariant
            n <= s.len(),
            trim_end(s@) == trim_end(s@.subrange(0, n as int)),
        decreases n,
    {
        proof {
            let front = s@.subrange(0, n as int);
            assert(front.last() == s@[n - 1]);
            assert(front.drop_last() == s@.subrange(0, n - 1));
        }
        n -= 1;
    }
    proof {
        let front = s@.subrange(0, n as int);
        if n > 0 {
            assert(front.last() == s@[n - 1]);
        }
    }
    slice_subrange(s, 0, n)
}

/// The part of `s` that is left when the blanks at both ends are dropped.
pub fn trim_bytes<'a>(s: &'a [u8]) -> (r: &'a [u8])
    ensures
        r@ == trim(s@),
{
    trim_end_bytes(trim_start_bytes(s))
}

/// The index of the first `b` in `s`, or the length of `s` where it holds none.
pub fn find_byte(s: &[u8], b: u8) -> (at: usize)
    ensures
        at == position_of(s@, b),
{
    let mut i: usize = 0;
    assert(s@.subrange(0, s@.len() as int) =~= s@);
    while i < s.len() && s[i] != b
        invariant
            i <= s.len(),
            position_of(s@, b) == i + position_of(s@.subrange(i as int, s@.len() as int), b),
        decreases s.len() - i,
    {
        proof {
            let rest = s@.subrange(i as int, s@.len() as int);
            assert(rest[0] == s@[i as int]);
            assert(rest.drop_first() == s@.subrange(i + 1, s@.len() as int));
        }
        i += 1;
    }
    proof {
        let rest = s@.subrange(i as int, s@.len() as int);
        if i < s.len() {
            assert(rest[0] == s@[i as int]);
        }
    }
    i
}

/// Tells whether two runs of bytes hold the same bytes.
pub fn bytes_equal(a: &[u8], b: &[u8]) -> (r: bool)
    ensures
        r == (a@ == b@),
{
    if a.len() != b.len() {
        return false;
    }
    let mut i: usize = 0;
    while i < a.len()
        invariant
            i <= a.len(),
            a.len() == b.len(),
            forall|k: int| 0 <= k < i ==> a@[k] == b@[k],
        decreases a.len() - i,
    {
        if a[i] != b[i] {
            return false;
        }
        i += 1;
    }
    assert(a@ =~= b@);
    true
}

/// Tells whether two texts are the same.
pub fn same_text(a: &str, b: &str) -> (r: bool)
    ensures
        r == (a@ == b@),
{
    let left = String::from_str(a);
    let right = String::from_str(b);
    left == right
}

/// Reads `bytes` as UTF-8 text.
///
/// Trusted: this is `String::from_utf8`, which gives the text that the
/// bytes encode where they are well-formed UTF-8, and an error where they
/// are not.
#[verifier::external_body]
pub(crate) fn text_of_bytes(bytes: Vec<u8>) -> (r: Option<String>)
    ensures
        r is Some <==> valid_utf8(bytes@),
        r matches Some(s) ==> s@ == decode_utf8(bytes@),
{
    String::from_utf8(bytes).ok()
}

} // verus!
