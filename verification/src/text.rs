//! Character-level helpers shared by the other modules.
//!
//! Strings are handled as sequences of `char`; every function here is stated
//! over `Seq<char>`.

use vstd::prelude::*;

verus! {

/// `String::push` appends exactly one character.
pub assume_specification[ String::push ](s: &mut String, c: char)
    ensures
        final(s)@ == old(s)@.push(c),
;

/// The views of a vector of character vectors, row by row.
pub open spec fn rows(v: Seq<Vec<char>>) -> Seq<Seq<char>> {
    Seq::new(v.len(), |i: int| v[i]@)
}

/// Unicode `White_Space`: the characters that trimming removes.
pub open spec fn is_space(c: char) -> bool {
    let u = c as u32;
    (0x09 <= u <= 0x0D) || u == 0x20 || u == 0x85 || u == 0xA0 || u == 0x1680 || (0x2000 <= u
        <= 0x200A) || u == 0x2028 || u == 0x2029 || u == 0x202F || u == 0x205F || u == 0x3000
}

/// `s` without its leading whitespace.
pub open spec fn trim_start_of(s: Seq<char>) -> Seq<char>
    decreases s.len(),
{
    if s.len() > 0 && is_space(s[0]) {
        trim_start_of(s.drop_first())
    } else {
        s
    }
}

/// `s` without its trailing whitespace.
pub open spec fn trim_end_of(s: Seq<char>) -> Seq<char>
    decreases s.len(),
{
    if s.len() > 0 && is_space(s.last()) {
        trim_end_of(s.drop_last())
    } else {
        s
    }
}

/// `s` without leading and trailing whitespace.
pub open spec fn trimmed(s: Seq<char>) -> Seq<char> {
    trim_end_of(trim_start_of(s))
}

/// The pieces of `s` between occurrences of `sep`. There is always at least
/// one piece; `n` separators give `n + 1` pieces, some of them possibly empty.
pub open spec fn split_on(s: Seq<char>, sep: char) -> Seq<Seq<char>>
    decreases s.len(),
{
    if s.len() == 0 {
        seq![Seq::<char>::empty()]
    } else {
        let before = split_on(s.drop_last(), sep);
        if s.last() == sep {
            before.push(Seq::<char>::empty())
        } else {
            before.drop_last().push(before.last().push(s.last()))
        }
    }
}

/// The pieces that are not empty, in order.
pub open spec fn non_empty(pieces: Seq<Seq<char>>) -> Seq<Seq<char>> {
    pieces.filter(|p: Seq<char>| p.len() > 0)
}

/// The lines of `s`: its pieces between line feeds, without the empty piece
/// that a final line feed leaves behind.
pub open spec fn lines_of(s: Seq<char>) -> Seq<Seq<char>> {
    let pieces = split_on(s, '\n');
    if pieces.last().len() == 0 {
        pieces.drop_last()
    } else {
        pieces
    }
}

/// The parts written one after another with `sep` between each two.
pub open spec fn joined(parts: Seq<Seq<char>>, sep: Seq<char>) -> Seq<char>
    decreases parts.len(),
{
    if parts.len() == 0 {
        Seq::<char>::empty()
    } else if parts.len() == 1 {
        parts[0]
    } else {
        joined(parts.drop_last(), sep) + sep + parts.last()
    }
}

/// Splitting never yields an empty list of pieces.
pub proof fn lemma_split_on_nonempty(s: Seq<char>, sep: char)
    ensures
        split_on(s, sep).len() >= 1,
    decreases s.len(),
{
    if s.len() > 0 {
        lemma_split_on_nonempty(s.drop_last(), sep);
    }
}

/// A text without the separator is a single piece.
pub proof fn lemma_split_without_separator(s: Seq<char>, sep: char)
    requires
        forall|i: int| 0 <= i < s.len() ==> s[i] != sep,
    ensures
        split_on(s, sep) == seq![s],
    decreases s.len(),
{
    if s.len() > 0 {
        let before = split_on(s.drop_last(), sep);
        assert forall|i: int| 0 <= i < s.drop_last().len() implies s.drop_last()[i] != sep by {
            assert(s.drop_last()[i] == s[i]);
        }
        lemma_split_without_separator(s.drop_last(), sep);
        assert(before == seq![s.drop_last()]);
        assert(s.last() == s[s.len() - 1]);
        assert(before.last().push(s.last()) == s);
        assert(before.drop_last() == Seq::<Seq<char>>::empty());
        assert(Seq::<Seq<char>>::empty().push(s) == seq![s]);
    } else {
        assert(s == Seq::<char>::empty());
    }
}

/// Around a separator the pieces are those before it, then those after it.
pub proof fn lemma_split_at_separator(a: Seq<char>, b: Seq<char>, sep: char)
    ensures
        split_on(a.push(sep) + b, sep) == split_on(a, sep) + split_on(b, sep),
    decreases b.len(),
{
    let whole = a.push(sep) + b;
    let x = split_on(a, sep);
    if b.len() == 0 {
        assert(whole == a.push(sep));
        assert(whole.drop_last() == a);
        assert(x.push(Seq::<char>::empty()) == x + seq![Seq::<char>::empty()]);
    } else {
        let y = split_on(b.drop_last(), sep);
        lemma_split_at_separator(a, b.drop_last(), sep);
        lemma_split_on_nonempty(b.drop_last(), sep);
        assert(whole.drop_last() == a.push(sep) + b.drop_last());
        assert(whole.last() == b.last());
        if b.last() == sep {
            assert((x + y).push(Seq::<char>::empty()) == x + y.push(Seq::<char>::empty()));
        } else {
            let z = y.last().push(b.last());
            assert((x + y).drop_last() == x + y.drop_last());
            assert((x + y).last() == y.last());
            assert((x + y.drop_last()).push(z) == x + y.drop_last().push(z));
        }
    }
}

/// No piece holds the separator.
pub proof fn lemma_pieces_have_no_separator(s: Seq<char>, sep: char)
    ensures
        forall|k: int, i: int|
            0 <= k < split_on(s, sep).len() && 0 <= i < split_on(s, sep)[k].len()
                ==> #[trigger] split_on(s, sep)[k][i] != sep,
    decreases s.len(),
{
    if s.len() > 0 {
        lemma_pieces_have_no_separator(s.drop_last(), sep);
        lemma_split_on_nonempty(s.drop_last(), sep);
    }
}

/// Joining the pieces with the separator gives the text back.
pub proof fn lemma_join_split(s: Seq<char>, sep: char)
    ensures
        joined(split_on(s, sep), seq![sep]) == s,
    decreases s.len(),
{
    if s.len() > 0 {
        let before = split_on(s.drop_last(), sep);
        lemma_join_split(s.drop_last(), sep);
        lemma_split_on_nonempty(s.drop_last(), sep);
        assert(s.drop_last().push(s.last()) == s);
        if s.last() == sep {
            let now = before.push(Seq::<char>::empty());
            assert(now.drop_last() == before);
            assert(joined(now, seq![sep]) == joined(before, seq![sep]) + seq![sep]
                + Seq::<char>::empty());
            assert(joined(now, seq![sep]) =~= s);
        } else {
            let now = before.drop_last().push(before.last().push(s.last()));
            assert(now.drop_last() == before.drop_last());
            if before.len() == 1 {
                assert(joined(now, seq![sep]) =~= s);
            } else {
                assert(joined(now, seq![sep]) == joined(before.drop_last(), seq![sep]) + seq![sep]
                    + before.last().push(s.last()));
                assert(joined(before, seq![sep]) == joined(before.drop_last(), seq![sep])
                    + seq![sep] + before.last());
                assert(joined(now, seq![sep]) =~= s);
            }
        }
    } else {
        assert(joined(split_on(s, sep), seq![sep]) =~= s);
    }
}

/// A text that neither begins nor ends with whitespace is its own trimming.
pub proof fn lemma_trimmed_unchanged(s: Seq<char>)
    requires
        s.len() > 0 ==> !is_space(s[0]) && !is_space(s.last()),
    ensures
        trimmed(s) == s,
{
}

/// Whether a character is whitespace.
pub fn is_space_char(c: char) -> (r: bool)
    ensures
        r == is_space(c),
{
    let u: u32 = c as u32;
    (0x09 <= u && u <= 0x0D) || u == 0x20 || u == 0x85 || u == 0xA0 || u == 0x1680 || (0x2000 <= u
        && u <= 0x200A) || u == 0x2028 || u == 0x2029 || u == 0x202F || u == 0x205F || u == 0x3000
}

/// The characters of a string slice, in order.
pub fn chars_of(s: &str) -> (out: Vec<char>)
    ensures
        out@ == s@,
{
    let mut out: Vec<char> = Vec::new();
    for c in it: s.chars()
        invariant
            it.seq() == s@,
            out@ == it.seq().take(it.index()),
    {
        out.push(c);
    }
    out
}

/// The string made of the given characters, in order.
pub fn string_of(chars: &Vec<char>) -> (out: String)
    ensures
        out@ == chars@,
{
    let mut out = String::new();
    let mut i: usize = 0;
    while i < chars.len()
        invariant
            i <= chars.len(),
            out@ == chars@.take(i as int),
        decreases chars.len() - i,
    {
        out.push(chars[i]);
        i += 1;
    }
    out
}

/// A copy of the characters at positions `lo..hi`.
pub fn slice_of(s: &Vec<char>, lo: usize, hi: usize) -> (out: Vec<char>)
    requires
        lo <= hi <= s.len(),
    ensures
        out@ == s@.subrange(lo as int, hi as int),
{
    let mut out: Vec<char> = Vec::new();
    let mut i: usize = lo;
    while i < hi
        invariant
            lo <= i <= hi <= s.len(),
            out@ == s@.subrange(lo as int, i as int),
        decreases hi - i,
    {
        out.push(s[i]);
        i += 1;
    }
    out
}

/// Appends the characters of `tail` to `head`.
pub fn append_chars(head: &mut Vec<char>, tail: &Vec<char>)
    ensures
        final(head)@ == old(head)@ + tail@,
{
    let mut i: usize = 0;
    while i < tail.len()
        invariant
            i <= tail.len(),
            head@ == old(head)@ + tail@.take(i as int),
        decreases tail.len() - i,
    {
        head.push(tail[i]);
        i += 1;
    }
    assert(tail@.take(tail.len() as int) == tail@);
}

/// Whether two character vectors hold the same characters.
pub fn same_chars(a: &Vec<char>, b: &Vec<char>) -> (r: bool)
    ensures
        r == (a@ == b@),
{
    if a.len() != b.len() {
        return false;
    }
    let mut i: usize = 0;
    while i < a.len()
        invariant
            i <= a.len(),
            a.len() == b.len(),
            a@.take(i as int) == b@.take(i as int),
        decreases a.len() - i,
    {
        if a[i] != b[i] {
            return false;
        }
        assert(a@.take(i + 1) == a@.take(i as int).push(a@[i as int]));
        assert(b@.take(i + 1) == b@.take(i as int).push(b@[i as int]));
        i += 1;
    }
    assert(a@.take(a.len() as int) == a@);
    assert(b@.take(b.len() as int) == b@);
    true
}

/// Whether `s` spells exactly `word`.
pub fn is_word(s: &Vec<char>, word: &str) -> (r: bool)
    ensures
        r == (s@ == word@),
{
    let w = chars_of(word);
    same_chars(s, &w)
}

/// Whether `s` begins with `prefix`.
pub fn starts_with(s: &Vec<char>, prefix: &str) -> (r: bool)
    ensures
        r == prefix@.is_prefix_of(s@),
{
    let p = chars_of(prefix);
    if p.len() > s.len() {
        return false;
    }
    let head = slice_of(s, 0, p.len());
    same_chars(&head, &p)
}

/// Removes leading and trailing whitespace.
pub fn trim(s: &Vec<char>) -> (out: Vec<char>)
    ensures
        out@ == trimmed(s@),
{
    let mut lo: usize = 0;
    assert(s@.skip(0) == s@);
    while lo < s.len() && is_space_char(s[lo])
        invariant
            lo <= s.len(),
            trim_start_of(s@) == trim_start_of(s@.skip(lo as int)),
        decreases s.len() - lo,
    {
        assert(s@.skip(lo as int).drop_first() == s@.skip(lo + 1));
        lo += 1;
    }
    assert(s@.skip(lo as int) == s@.subrange(lo as int, s.len() as int));
    let mut hi: usize = s.len();
    while hi > lo && is_space_char(s[hi - 1])
        invariant
            lo <= hi <= s.len(),
            trimmed(s@) == trim_end_of(s@.subrange(lo as int, hi as int)),
        decreases hi - lo,
    {
        assert(s@.subrange(lo as int, hi as int).drop_last() == s@.subrange(lo as int, hi - 1));
        hi -= 1;
    }
    slice_of(s, lo, hi)
}

/// Splits at every occurrence of `sep`.
pub fn split(s: &Vec<char>, sep: char) -> (out: Vec<Vec<char>>)
    ensures
        rows(out@) == split_on(s@, sep),
{
    let mut out: Vec<Vec<char>> = Vec::new();
    let mut piece: Vec<char> = Vec::new();
    let mut i: usize = 0;
    assert(s@.take(0) == Seq::<char>::empty());
    assert(rows(out@).push(piece@) == seq![Seq::<char>::empty()]);
    while i < s.len()
        invariant
            i <= s.len(),
            rows(out@).push(piece@) == split_on(s@.take(i as int), sep),
        decreases s.len() - i,
    {
        let ghost before = rows(out@).push(piece@);
        assert(s@.take(i + 1).drop_last() == s@.take(i as int));
        assert(before.drop_last() == rows(out@));
        if s[i] == sep {
            out.push(piece);
            piece = Vec::new();
            assert(rows(out@).push(piece@) == before.push(Seq::<char>::empty()));
        } else {
            piece.push(s[i]);
        }
        i += 1;
    }
    assert(s@.take(s.len() as int) == s@);
    let ghost done = rows(out@);
    out.push(piece);
    assert(rows(out@) == done.push(piece@));
    out
}

/// Splits into lines at every line feed; a final line feed ends the last
/// line and starts no new one.
pub fn lines(s: &Vec<char>) -> (out: Vec<Vec<char>>)
    ensures
        rows(out@) == lines_of(s@),
{
    let mut out = split(s, '\n');
    proof {
        lemma_split_on_nonempty(s@, '\n');
    }
    let ghost pieces = rows(out@);
    if out[out.len() - 1].len() == 0 {
        out.pop();
        assert(rows(out@) == pieces.drop_last());
    }
    out
}

/// Writes the parts one after another with `sep` between each two.
pub fn join(parts: &Vec<Vec<char>>, sep: &str) -> (out: Vec<char>)
    ensures
        out@ == joined(rows(parts@), sep@),
{
    let mut out: Vec<char> = Vec::new();
    let between = chars_of(sep);
    let mut i: usize = 0;
    assert(rows(parts@).take(0) == Seq::<Seq<char>>::empty());
    while i < parts.len()
        invariant
            i <= parts.len(),
            between@ == sep@,
            out@ == joined(rows(parts@).take(i as int), sep@),
        decreases parts.len() - i,
    {
        let ghost next = rows(parts@).take(i + 1);
        assert(next.drop_last() == rows(parts@).take(i as int));
        assert(next.last() == parts@[i as int]@);
        if i > 0 {
            append_chars(&mut out, &between);
        }
        append_chars(&mut out, &parts[i]);
        assert(out@ == joined(next, sep@)) by {
            if i == 0 {
                assert(next.len() == 1);
                assert(out@ =~= next[0]);
            }
        }
        i += 1;
    }
    assert(rows(parts@).take(parts.len() as int) == rows(parts@));
    out
}

} // verus!
