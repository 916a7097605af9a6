//! Character sequences: the vocabulary in which the zone-file grammar is
//! stated, together with executable counterparts on `char` slices.

use vstd::prelude::*;

verus! {

// ---------------------------------------------------------------------------
// Characters
// ---------------------------------------------------------------------------

/// The code points that carry the Unicode `White_Space` property.
pub open spec fn is_whitespace_spec(c: char) -> bool {
    let n = c as u32;
    ||| 0x09 <= n <= 0x0D
    ||| n == 0x20
    ||| n == 0x85
    ||| n == 0xA0
    ||| n == 0x1680
    ||| 0x2000 <= n <= 0x200A
    ||| n == 0x2028
    ||| n == 0x2029
    ||| n == 0x202F
    ||| n == 0x205F
    ||| n == 0x3000
}

/// Whether the character is white space.
pub fn is_whitespace(c: char) -> (r: bool)
    ensures
        r == is_whitespace_spec(c),
{
    let n: u32 = c as u32;
    (0x09 <= n && n <= 0x0D) || n == 0x20 || n == 0x85 || n == 0xA0 || n == 0x1680 || (0x2000 <= n
        && n <= 0x200A) || n == 0x2028 || n == 0x2029 || n == 0x202F || n == 0x205F || n == 0x3000
}

/// An ASCII decimal digit.
pub open spec fn is_digit_spec(c: char) -> bool {
    48 <= c as u32 <= 57
}

/// The views of a vector of character vectors.
pub open spec fn views(v: Seq<Vec<char>>) -> Seq<Seq<char>> {
    v.map_values(|x: Vec<char>| x@)
}

// ---------------------------------------------------------------------------
// Strings and character vectors
// ---------------------------------------------------------------------------

/// The characters of a string slice, in order.
pub fn to_chars(s: &str) -> (out: Vec<char>)
    ensures
        out@ == s@,
{
    let mut out: Vec<char> = Vec::new();
    for c in it: s.chars()
        invariant
            out@ == it.seq().take(it.index() as int),
            it.seq() == s@,
    {
        out.push(c);
    }
    out
}

/// `String::push`: the string grows by exactly the given character at its
/// end.
#[verifier::external_body]
fn push_char(s: &mut String, c: char)
    ensures
        final(s)@ == old(s)@.push(c),
{
    s.push(c)
}

/// The string made of the given characters, in order.
pub fn from_chars(v: &[char]) -> (out: String)
    ensures
        out@ == v@,
{
    let mut out = String::new();
    let mut i: usize = 0;
    while i < v.len()
        invariant
            i <= v.len(),
            out@ == v@.take(i as int),
        decreases v.len() - i,
    {
        push_char(&mut out, v[i]);
        i += 1;
    }
    out
}

/// Appends `src` to `out`.
pub fn append_chars(out: &mut Vec<char>, src: &[char])
    ensures
        final(out)@ == old(out)@ + src@,
{
    let mut i: usize = 0;
    while i < src.len()
        invariant
            i <= src.len(),
            out@ == old(out)@ + src@.take(i as int),
        decreases src.len() - i,
    {
        out.push(src[i]);
        i += 1;
    }
}

/// Appends the characters of `s` to `out`.
pub fn push_str(out: &mut Vec<char>, s: &str)
    ensures
        final(out)@ == old(out)@ + s@,
{
    let chars = to_chars(s);
    append_chars(out, chars.as_slice());
}

/// A copy of a character slice.
pub fn copy_chars(src: &[char]) -> (out: Vec<char>)
    ensures
        out@ == src@,
{
    let mut out: Vec<char> = Vec::new();
    append_chars(&mut out, src);
    out
}

/// Whether two slices hold the same characters.
pub fn chars_eq(a: &[char], b: &[char]) -> (r: bool)
    ensures
        r == (a@ == b@),
{
    if a.len() != b.len() {
        return false;
    }
    let mut i: usize = 0;
    while i < a.len()
        invariant
            i <= a.len(),
            a.len() == b.len(),
            forall|j: int| 0 <= j < i ==> a@[j] == b@[j],
        decreases a.len() - i,
    {
        if a[i] != b[i] {
            return false;
        }
        i += 1;
    }
    assert(a@ =~= b@);
    true
}

// ---------------------------------------------------------------------------
// Searching and replacing
// ---------------------------------------------------------------------------

/// `pat` stands in `text` at position `i`.
pub open spec fn occurs_at(text: Seq<char>, i: int, pat: Seq<char>) -> bool {
    0 <= i && i + pat.len() <= text.len() && text.subrange(i, i + pat.len()) == pat
}

/// Whether `pat` stands in `text` at position `i`.
pub fn matches_at(text: &[char], i: usize, pat: &[char]) -> (r: bool)
    requires
        i <= text.len(),
    ensures
        r == occurs_at(text@, i as int, pat@),
{
    if pat.len() > text.len() - i {
        return false;
    }
    let mut k: usize = 0;
    while k < pat.len()
        invariant
            k <= pat.len(),
            i + pat.len() <= text.len(),
            forall|j: int| 0 <= j < k ==> text@[i + j] == pat@[j],
        decreases pat.len() - k,
    {
        if text[i + k] != pat[k] {
            assert(text@.subrange(i as int, i + pat@.len())[k as int] != pat@[k as int]);
            return false;
        }
        k += 1;
    }
    assert(text@.subrange(i as int, i + pat@.len()) =~= pat@);
    true
}

/// `text` begins with `prefix`.
pub open spec fn starts_with_spec(text: Seq<char>, prefix: Seq<char>) -> bool {
    occurs_at(text, 0, prefix)
}

/// Every occurrence of `from` in `text`, found left to right and without
/// overlap, gives way to `to`. An empty `from` occurs before every character
/// and at the end.
pub open spec fn replace_spec(text: Seq<char>, from: Seq<char>, to: Seq<char>) -> Seq<char>
    decreases text.len(),
{
    if from.len() == 0 {
        if text.len() == 0 {
            to
        } else {
            to + seq![text[0]] + replace_spec(text.skip(1), from, to)
        }
    } else if occurs_at(text, 0, from) {
        to + replace_spec(text.skip(from.len() as int), from, to)
    } else if text.len() == 0 {
        text
    } else {
        seq![text[0]] + replace_spec(text.skip(1), from, to)
    }
}

/// Replaces every occurrence; see `replace_spec`.
pub fn replace(text: &[char], from: &[char], to: &[char]) -> (out: Vec<char>)
    ensures
        out@ == replace_spec(text@, from@, to@),
{
    let mut out: Vec<char> = Vec::new();
    let mut i: usize = 0;
    assert(text@.skip(0) =~= text@);
    assert(out@ + replace_spec(text@, from@, to@) =~= replace_spec(text@, from@, to@));
    while i < text.len()
        invariant
            i <= text.len(),
            out@ + replace_spec(text@.skip(i as int), from@, to@) == replace_spec(
                text@,
                from@,
                to@,
            ),
        decreases text.len() - i,
    {
        let ghost rest = text@.skip(i as int);
        let ghost before = out@;
        assert(rest.len() > 0 && rest[0] == text@[i as int]);
        if from.len() == 0 {
            append_chars(&mut out, to);
            out.push(text[i]);
            assert(rest.skip(1) =~= text@.skip(i + 1));
            assert(out@ =~= before + (to@ + seq![rest[0]]));
            i += 1;
        } else if matches_at(text, i, from) {
            assert(rest.subrange(0, from@.len() as int) =~= text@.subrange(
                i as int,
                i + from@.len(),
            ));
            assert(occurs_at(rest, 0, from@));
            append_chars(&mut out, to);
            assert(rest.skip(from@.len() as int) =~= text@.skip(i + from@.len()));
            i += from.len();
        } else {
            assert(!occurs_at(rest, 0, from@)) by {
                if i + from@.len() <= text@.len() {
                    assert(rest.subrange(0, from@.len() as int) =~= text@.subrange(
                        i as int,
                        i + from@.len(),
                    ));
                }
            }
            out.push(text[i]);
            assert(rest.skip(1) =~= text@.skip(i + 1));
            assert(out@ =~= before + seq![rest[0]]);
            i += 1;
        }
    }
    assert(text@.skip(i as int).len() == 0);
    if from.len() == 0 {
        append_chars(&mut out, to);
    } else {
        assert(out@ + Seq::<char>::empty() =~= out@);
    }
    out
}

/// The leftmost occurrence of `from` in `text` gives way to `to`; a text
/// without one stays as it is.
pub open spec fn replace_first_spec(text: Seq<char>, from: Seq<char>, to: Seq<char>) -> Seq<char>
    decreases text.len(),
{
    if occurs_at(text, 0, from) {
        to + text.skip(from.len() as int)
    } else if text.len() == 0 {
        text
    } else {
        seq![text[0]] + replace_first_spec(text.skip(1), from, to)
    }
}

/// Replaces the leftmost occurrence; see `replace_first_spec`.
pub fn replace_first(text: &[char], from: &[char], to: &[char]) -> (out: Vec<char>)
    ensures
        out@ == replace_first_spec(text@, from@, to@),
{
    let mut out: Vec<char> = Vec::new();
    let mut i: usize = 0;
    assert(text@.skip(0) =~= text@);
    assert(out@ + replace_first_spec(text@, from@, to@) =~= replace_first_spec(text@, from@, to@));
    loop
        invariant_except_break
            i <= text.len(),
            out@ + replace_first_spec(text@.skip(i as int), from@, to@) == replace_first_spec(
                text@,
                from@,
                to@,
            ),
        ensures
            out@ == replace_first_spec(text@, from@, to@),
        decreases text.len() - i,
    {
        let ghost rest = text@.skip(i as int);
        let ghost before = out@;
        if matches_at(text, i, from) {
            assert(rest.subrange(0, from@.len() as int) =~= text@.subrange(
                i as int,
                i + from@.len(),
            ));
            assert(occurs_at(rest, 0, from@));
            append_chars(&mut out, to);
            let mut k: usize = i + from.len();
            assert(rest.skip(from@.len() as int) =~= text@.skip(k as int));
            while k < text.len()
                invariant
                    i + from.len() <= k <= text.len(),
                    out@ == before + to@ + text@.subrange(i + from@.len(), k as int),
                decreases text.len() - k,
            {
                out.push(text[k]);
                k += 1;
            }
            assert(text@.subrange(i + from@.len(), k as int) =~= text@.skip(i + from@.len()));
            assert(out@ =~= before + (to@ + rest.skip(from@.len() as int)));
            break ;
        }
        assert(!occurs_at(rest, 0, from@)) by {
            if i + from@.len() <= text@.len() {
                assert(rest.subrange(0, from@.len() as int) =~= text@.subrange(
                    i as int,
                    i + from@.len(),
                ));
            }
        }
        if i == text.len() {
            assert(out@ + Seq::<char>::empty() =~= out@);
            break ;
        }
        assert(rest.len() > 0 && rest[0] == text@[i as int]);
        out.push(text[i]);
        assert(rest.skip(1) =~= text@.skip(i + 1));
        assert(out@ =~= before + seq![rest[0]]);
        i += 1;
    }
    out
}

/// The parts, with `sep` between each two neighbours.
pub open spec fn join_spec(parts: Seq<Seq<char>>, sep: Seq<char>) -> Seq<char>
    decreases parts.len(),
{
    if parts.len() == 0 {
        Seq::empty()
    } else if parts.len() == 1 {
        parts[0]
    } else {
        join_spec(parts.drop_last(), sep) + sep + parts.last()
    }
}

/// Joins `parts[from..]` with `sep`.
pub fn join_from(parts: &Vec<Vec<char>>, from: usize, sep: &[char]) -> (out: Vec<char>)
    requires
        from <= parts.len(),
    ensures
        out@ == join_spec(views(parts@).skip(from as int), sep@),
{
    let ghost all = views(parts@).skip(from as int);
    let mut out: Vec<char> = Vec::new();
    let mut i: usize = from;
    while i < parts.len()
        invariant
            from <= i <= parts.len(),
            all == views(parts@).skip(from as int),
            out@ == join_spec(all.take(i - from), sep@),
        decreases parts.len() - i,
    {
        let ghost prefix = all.take(i - from);
        let ghost next = all.take(i + 1 - from);
        assert(next.drop_last() =~= prefix);
        assert(next.last() == parts@[i as int]@);
        if i > from {
            append_chars(&mut out, sep);
        }
        append_chars(&mut out, parts[i].as_slice());
        i += 1;
    }
    assert(all.take(i - from) =~= all);
    out
}

// ---------------------------------------------------------------------------
// Lines
// ---------------------------------------------------------------------------

/// Finished pieces and the piece under way, as a left-to-right scan sees
/// them.
pub struct Pieces {
    pub done: Seq<Seq<char>>,
    pub cur: Seq<char>,
}

/// A line loses one carriage return at its end, if it has one.
pub open spec fn strip_cr(line: Seq<char>) -> Seq<char> {
    if line.len() > 0 && line.last() == '\r' {
        line.drop_last()
    } else {
        line
    }
}

/// One character of the scan for lines: a line feed ends the line under
/// way, any other character joins it.
pub open spec fn line_step(st: Pieces, c: char) -> Pieces {
    if c == '\n' {
        Pieces { done: st.done.push(strip_cr(st.cur)), cur: Seq::empty() }
    } else {
        Pieces { done: st.done, cur: st.cur.push(c) }
    }
}

/// The scan of a text for its lines.
pub open spec fn scan_lines(text: Seq<char>) -> Pieces
    decreases text.len(),
{
    if text.len() == 0 {
        Pieces { done: Seq::empty(), cur: Seq::empty() }
    } else {
        line_step(scan_lines(text.drop_last()), text.last())
    }
}

/// The lines of a text. A line ends at a line feed, or at a carriage return
/// directly followed by one; a last line need not be ended, and keeps a
/// carriage return at its end.
pub open spec fn lines_spec(text: Seq<char>) -> Seq<Seq<char>> {
    let st = scan_lines(text);
    if st.cur.len() > 0 {
        st.done.push(st.cur)
    } else {
        st.done
    }
}

/// The lines of a text; see `lines_spec`.
pub fn lines(text: &[char]) -> (out: Vec<Vec<char>>)
    ensures
        views(out@) == lines_spec(text@),
{
    let mut done: Vec<Vec<char>> = Vec::new();
    let mut cur: Vec<char> = Vec::new();
    let mut i: usize = 0;
    while i < text.len()
        invariant
            i <= text.len(),
            views(done@) == scan_lines(text@.take(i as int)).done,
            cur@ == scan_lines(text@.take(i as int)).cur,
        decreases text.len() - i,
    {
        let c = text[i];
        assert(text@.take(i + 1).drop_last() =~= text@.take(i as int));
        assert(text@.take(i + 1).last() == c);
        if c == '\n' {
            let n = cur.len();
            if n > 0 && cur[n - 1] == '\r' {
                cur.pop();
            }
            let ghost before = done@;
            let ghost line = cur@;
            done.push(cur);
            assert(views(done@) =~= views(before).push(line));
            cur = Vec::new();
        } else {
            cur.push(c);
        }
        i += 1;
    }
    assert(text@.take(i as int) =~= text@);
    if cur.len() > 0 {
        let ghost before = done@;
        let ghost line = cur@;
        done.push(cur);
        assert(views(done@) =~= views(before).push(line));
    }
    done
}

/// Every character is white space (an empty sequence is blank).
pub open spec fn is_blank_spec(s: Seq<char>) -> bool {
    forall|i: int| 0 <= i < s.len() ==> is_whitespace_spec(#[trigger] s[i])
}

/// Whether every character is white space.
pub fn is_blank(s: &[char]) -> (r: bool)
    ensures
        r == is_blank_spec(s@),
{
    let mut i: usize = 0;
    while i < s.len()
        invariant
            i <= s.len(),
            forall|j: int| 0 <= j < i ==> is_whitespace_spec(#[trigger] s@[j]),
        decreases s.len() - i,
    {
        if !is_whitespace(s[i]) {
            return false;
        }
        i += 1;
    }
    true
}

// ---------------------------------------------------------------------------
// Splitting at white space
// ---------------------------------------------------------------------------

/// One character of the scan for words: white space ends the word under
/// way, any other character joins it.
pub open spec fn word_step(st: Pieces, c: char) -> Pieces {
    if is_whitespace_spec(c) {
        if st.cur.len() > 0 {
            Pieces { done: st.done.push(st.cur), cur: Seq::empty() }
        } else {
            st
        }
    } else {
        Pieces { done: st.done, cur: st.cur.push(c) }
    }
}

/// The scan of a text for its words.
pub open spec fn scan_words(text: Seq<char>) -> Pieces
    decreases text.len(),
{
    if text.len() == 0 {
        Pieces { done: Seq::empty(), cur: Seq::empty() }
    } else {
        word_step(scan_words(text.drop_last()), text.last())
    }
}

/// The maximal runs of characters that are not white space, in order.
pub open spec fn split_whitespace_spec(text: Seq<char>) -> Seq<Seq<char>> {
    let st = scan_words(text);
    if st.cur.len() > 0 {
        st.done.push(st.cur)
    } else {
        st.done
    }
}

/// The words of a text; see `split_whitespace_spec`.
pub fn split_whitespace(text: &[char]) -> (out: Vec<Vec<char>>)
    ensures
        views(out@) == split_whitespace_spec(text@),
{
    let mut done: Vec<Vec<char>> = Vec::new();
    let mut cur: Vec<char> = Vec::new();
    let mut i: usize = 0;
    while i < text.len()
        invariant
            i <= text.len(),
            views(done@) == scan_words(text@.take(i as int)).done,
            cur@ == scan_words(text@.take(i as int)).cur,
        decreases text.len() - i,
    {
        let c = text[i];
        assert(text@.take(i + 1).drop_last() =~= text@.take(i as int));
        assert(text@.take(i + 1).last() == c);
        if is_whitespace(c) {
            if cur.len() > 0 {
                let ghost before = done@;
                let ghost word = cur@;
                done.push(cur);
                assert(views(done@) =~= views(before).push(word));
                cur = Vec::new();
            }
        } else {
            cur.push(c);
        }
        i += 1;
    }
    assert(text@.take(i as int) =~= text@);
    if cur.len() > 0 {
        let ghost before = done@;
        let ghost word = cur@;
        done.push(cur);
        assert(views(done@) =~= views(before).push(word));
    }
    done
}

} // verus!
