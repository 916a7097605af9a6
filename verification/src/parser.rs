//! From zone-file text to a zone: comment stripping, quote-aware
//! tokenizing, and the reading of one record per line.

use crate::dns_structs::{
    record_views, serial_spec, A, Aaaa, Caa, Cname, DnsRecord, Ds, GetName, Kind, Mx, Ns, Ptr,
    RData, RecordView, Serial, Soa, SoaView, Spf, Srv, Txt, ZoneView,
};
use crate::engine::{capture_first_group, first_group, replace_all, replaced_all};
use crate::number::{parse_u16, parse_u16_spec, parse_u32, parse_u32_spec, parse_u8, parse_u8_spec};
use crate::text::{
    append_chars, chars_eq, copy_chars, from_chars, is_blank, is_blank_spec, is_whitespace,
    is_whitespace_spec, join_from, join_spec, lines, lines_spec, matches_at, replace_first,
    replace_first_spec, split_whitespace, split_whitespace_spec, starts_with_spec, to_chars, views,
};
use regex::Regex;
use vstd::prelude::*;

verus! {

// ---------------------------------------------------------------------------
// Tokenizer
// ---------------------------------------------------------------------------

/// What a left-to-right scan of a line knows: the tokens it has finished,
/// the token under way, and whether it stands inside double or single
/// quotes.
pub struct TokenScan {
    pub done: Seq<Seq<char>>,
    pub cur: Seq<char>,
    pub dq: bool,
    pub sq: bool,
}

/// With a separator given, that character separates; with none, any white
/// space does.
pub open spec fn is_separator(c: char, sep: Option<char>) -> bool {
    match sep {
        Some(s) => c == s,
        None => is_whitespace_spec(c),
    }
}

/// One character of the scan. A double quote outside single quotes toggles
/// the double-quote state, and a single quote outside double quotes the
/// single-quote state; either is kept in the token only if `keep_quotes`.
/// A separator outside quotes ends the token under way, if there is one.
/// Every other character joins the token under way.
pub open spec fn token_step(
    st: TokenScan,
    c: char,
    sep: Option<char>,
    keep_quotes: bool,
) -> TokenScan {
    if c == '"' && !st.sq {
        TokenScan {
            dq: !st.dq,
            cur: if keep_quotes {
                st.cur.push(c)
            } else {
                st.cur
            },
            ..st
        }
    } else if c == '\'' && !st.dq {
        TokenScan {
            sq: !st.sq,
            cur: if keep_quotes {
                st.cur.push(c)
            } else {
                st.cur
            },
            ..st
        }
    } else if is_separator(c, sep) && !st.dq && !st.sq {
        if st.cur.len() > 0 {
            TokenScan { done: st.done.push(st.cur), cur: Seq::empty(), ..st }
        } else {
            st
        }
    } else {
        TokenScan { cur: st.cur.push(c), ..st }
    }
}

/// The scan of a line from its first character to its last.
pub open spec fn scan_tokens(input: Seq<char>, sep: Option<char>, keep_quotes: bool) -> TokenScan
    decreases input.len(),
{
    if input.len() == 0 {
        TokenScan { done: Seq::empty(), cur: Seq::empty(), dq: false, sq: false }
    } else {
        token_step(scan_tokens(input.drop_last(), sep, keep_quotes), input.last(), sep, keep_quotes)
    }
}

/// The tokens of a line. The token under way at the end of the line counts
/// if it is not empty; where it is empty and the line ends with the given
/// separator, one empty token closes the list.
pub open spec fn split_args_spec(input: Seq<char>, sep: Option<char>, keep_quotes: bool) -> Seq<
    Seq<char>,
> {
    let st = scan_tokens(input, sep, keep_quotes);
    if st.cur.len() > 0 {
        st.done.push(st.cur)
    } else if sep is Some && input.len() > 0 && input.last() == sep->0 {
        st.done.push(Seq::empty())
    } else {
        st.done
    }
}

/// The views of a list of strings.
pub open spec fn strs(v: Seq<String>) -> Seq<Seq<char>> {
    v.map_values(|s: String| s@)
}

/// The tokens of a line of characters.
pub fn tokenize(input: &[char], sep: Option<char>, keep_quotes: bool) -> (out: Vec<Vec<char>>)
    ensures
        views(out@) == split_args_spec(input@, sep, keep_quotes),
{
    let mut done: Vec<Vec<char>> = Vec::new();
    let mut cur: Vec<char> = Vec::new();
    let mut dq = false;
    let mut sq = false;
    let mut i: usize = 0;
    while i < input.len()
        invariant
            i <= input.len(),
            views(done@) == scan_tokens(input@.take(i as int), sep, keep_quotes).done,
            cur@ == scan_tokens(input@.take(i as int), sep, keep_quotes).cur,
            dq == scan_tokens(input@.take(i as int), sep, keep_quotes).dq,
            sq == scan_tokens(input@.take(i as int), sep, keep_quotes).sq,
        decreases input.len() - i,
    {
        let c = input[i];
        assert(input@.take(i + 1).drop_last() =~= input@.take(i as int));
        assert(input@.take(i + 1).last() == c);
        let is_sep = match sep {
            Some(s) => c == s,
            None => is_whitespace(c),
        };
        if c == '"' && !sq {
            dq = !dq;
            if keep_quotes {
                cur.push(c);
            }
        } else if c == '\'' && !dq {
            sq = !sq;
            if keep_quotes {
                cur.push(c);
            }
        } else if is_sep && !dq && !sq {
            if cur.len() > 0 {
                let ghost before = done@;
                let ghost token = cur@;
                done.push(cur);
                assert(views(done@) =~= views(before).push(token));
                cur = Vec::new();
            }
        } else {
            cur.push(c);
        }
        i += 1;
    }
    assert(input@.take(i as int) =~= input@);
    let ghost before = done@;
    if cur.len() > 0 {
        let ghost token = cur@;
        done.push(cur);
        assert(views(done@) =~= views(before).push(token));
    } else {
        let n = input.len();
        let ends_with_sep = match sep {
            Some(s) => n > 0 && input[n - 1] == s,
            None => false,
        };
        if ends_with_sep {
            done.push(Vec::new());
            assert(views(done@) =~= views(before).push(Seq::<char>::empty()));
        }
    }
    done
}

/// Splits a line into its tokens; see `split_args_spec`.
pub fn split_args(input: &str, sep: Option<char>, keep_quotes: bool) -> (out: Vec<String>)
    ensures
        strs(out@) == split_args_spec(input@, sep, keep_quotes),
{
    let chars = to_chars(input);
    let tokens = tokenize(chars.as_slice(), sep, keep_quotes);
    let mut out: Vec<String> = Vec::new();
    let mut i: usize = 0;
    while i < tokens.len()
        invariant
            i <= tokens.len(),
            strs(out@) == views(tokens@).take(i as int),
        decreases tokens.len() - i,
    {
        let ghost before = out@;
        let token = from_chars(tokens[i].as_slice());
        out.push(token);
        assert(strs(out@) =~= strs(before).push(tokens@[i as int]@));
        assert(views(tokens@).take(i + 1) =~= views(tokens@).take(i as int).push(
            tokens@[i as int]@,
        ));
        i += 1;
    }
    assert(views(tokens@).take(i as int) =~= views(tokens@));
    out
}

// ---------------------------------------------------------------------------
// Comment stripper
// ---------------------------------------------------------------------------

/// What a left-to-right scan for a comment knows: the text kept so far, the
/// quote state, and whether a comment has begun.
pub struct StripScan {
    pub out: Seq<char>,
    pub dq: bool,
    pub sq: bool,
    pub stopped: bool,
}

/// One character of the scan. Quotes toggle as they do for tokens, and are
/// kept. A semicolon outside quotes that directly follows a backslash takes
/// the place of that backslash; any other semicolon outside quotes begins
/// the comment, and nothing after it is kept.
pub open spec fn strip_step(st: StripScan, c: char) -> StripScan {
    if st.stopped {
        st
    } else if c == '"' && !st.sq {
        StripScan { out: st.out.push(c), dq: !st.dq, ..st }
    } else if c == '\'' && !st.dq {
        StripScan { out: st.out.push(c), sq: !st.sq, ..st }
    } else if c == ';' && !st.dq && !st.sq {
        if st.out.len() > 0 && st.out.last() == '\\' {
            StripScan { out: st.out.drop_last().push(';'), ..st }
        } else {
            StripScan { stopped: true, ..st }
        }
    } else {
        StripScan { out: st.out.push(c), ..st }
    }
}

/// The scan of a line for its comment, from its first character to its
/// last.
pub open spec fn scan_comment(line: Seq<char>) -> StripScan
    decreases line.len(),
{
    if line.len() == 0 {
        StripScan { out: Seq::empty(), dq: false, sq: false, stopped: false }
    } else {
        strip_step(scan_comment(line.drop_last()), line.last())
    }
}

/// A line without its comment.
pub open spec fn strip_comment_spec(line: Seq<char>) -> Seq<char> {
    scan_comment(line).out
}

/// The first character of the line that is not white space is a semicolon.
pub open spec fn is_comment_line(line: Seq<char>) -> bool {
    exists|i: int| 0 <= i < line.len() && line[i] == ';' && is_blank_spec(#[trigger] line.take(i))
}

/// What a line leaves behind: nothing if it is a comment line, else the line
/// without its comment, ended by a line feed.
pub open spec fn comment_free_line(line: Seq<char>) -> Seq<char> {
    if is_comment_line(line) {
        Seq::empty()
    } else {
        strip_comment_spec(line).push('\n')
    }
}

/// What the lines leave behind, one after the other.
pub open spec fn comment_free_lines(lines: Seq<Seq<char>>) -> Seq<char>
    decreases lines.len(),
{
    if lines.len() == 0 {
        Seq::empty()
    } else {
        comment_free_lines(lines.drop_last()) + comment_free_line(lines.last())
    }
}

/// A text without its comments, line by line.
pub open spec fn remove_comments_spec(text: Seq<char>) -> Seq<char> {
    comment_free_lines(lines_spec(text))
}

/// Whether the line is a comment line.
pub fn starts_comment(line: &[char]) -> (r: bool)
    ensures
        r == is_comment_line(line@),
{
    let mut i: usize = 0;
    while i < line.len()
        invariant
            i <= line.len(),
            is_blank_spec(line@.take(i as int)),
        decreases line.len() - i,
    {
        if !is_whitespace(line[i]) {
            let r = line[i] == ';';
            proof {
                if !r {
                    assert forall|j: int|
                        0 <= j < line@.len() && line@[j] == ';' implies !is_blank_spec(
                        #[trigger] line@.take(j),
                    ) by {
                        if j > i {
                            assert(line@.take(j)[i as int] == line@[i as int]);
                        } else {
                            assert(j < i);
                            assert(line@.take(i as int)[j] == line@[j]);
                        }
                    }
                }
            }
            return r;
        }
        assert forall|j: int| 0 <= j < i + 1 implies is_whitespace_spec(
            #[trigger] line@.take(i + 1)[j],
        ) by {
            if j < i {
                assert(line@.take(i as int)[j] == line@[j]);
            }
        }
        i += 1;
    }
    proof {
        assert(line@.take(i as int) =~= line@);
        assert forall|j: int| 0 <= j < line@.len() && line@[j] == ';' implies !is_blank_spec(
            #[trigger] line@.take(j),
        ) by {
            assert(is_whitespace_spec(line@[j]));
        }
    }
    false
}

/// Appends to `out` what `line` holds before its comment.
pub fn strip_comment(out: &mut Vec<char>, line: &[char])
    ensures
        final(out)@ == old(out)@ + strip_comment_spec(line@),
{
    let ghost base = out@;
    let mut dq = false;
    let mut sq = false;
    let mut kept: usize = 0;
    let mut i: usize = 0;
    while i < line.len()
        invariant
            i <= line.len(),
            !scan_comment(line@.take(i as int)).stopped,
            base == old(out)@,
            out@ == base + scan_comment(line@.take(i as int)).out,
            kept == scan_comment(line@.take(i as int)).out.len(),
            kept <= i,
            dq == scan_comment(line@.take(i as int)).dq,
            sq == scan_comment(line@.take(i as int)).sq,
        decreases line.len() - i,
    {
        let c = line[i];
        let ghost before = scan_comment(line@.take(i as int));
        assert(line@.take(i + 1).drop_last() =~= line@.take(i as int));
        assert(line@.take(i + 1).last() == c);
        if c == '"' && !sq {
            dq = !dq;
            out.push(c);
            kept += 1;
        } else if c == '\'' && !dq {
            sq = !sq;
            out.push(c);
            kept += 1;
        } else if c == ';' && !dq && !sq {
            let n = out.len();
            if kept > 0 && out[n - 1] == '\\' {
                assert(out@[n - 1] == before.out.last());
                out.pop();
                out.push(c);
                assert(out@ =~= base + before.out.drop_last().push(';'));
            } else {
                proof {
                    if kept > 0 {
                        assert(out@[n - 1] == before.out.last());
                    }
                    lemma_stopped_stays(line@, i + 1);
                }
                return ;
            }
        } else {
            out.push(c);
            kept += 1;
        }
        assert(out@ =~= base + scan_comment(line@.take(i + 1)).out);
        i += 1;
    }
    assert(line@.take(i as int) =~= line@);
}

/// Once a comment has begun, the rest of the line changes nothing.
pub proof fn lemma_stopped_stays(line: Seq<char>, k: int)
    requires
        0 <= k <= line.len(),
        scan_comment(line.take(k)).stopped,
    ensures
        scan_comment(line) == scan_comment(line.take(k)),
    decreases line.len(),
{
    if k == line.len() {
        assert(line.take(k) =~= line);
    } else {
        assert(line.drop_last().take(k) =~= line.take(k));
        lemma_stopped_stays(line.drop_last(), k);
    }
}

/// Removes the comments of a text; see `remove_comments_spec`.
pub fn remove_comments(text: &str) -> (out: String)
    ensures
        out@ == remove_comments_spec(text@),
{
    let chars = to_chars(text);
    let all = lines(chars.as_slice());
    let mut out: Vec<char> = Vec::new();
    let mut i: usize = 0;
    while i < all.len()
        invariant
            i <= all.len(),
            out@ == comment_free_lines(views(all@).take(i as int)),
        decreases all.len() - i,
    {
        let ghost next = views(all@).take(i + 1);
        assert(next.drop_last() =~= views(all@).take(i as int));
        assert(next.last() == all@[i as int]@);
        let line = all[i].as_slice();
        if !starts_comment(line) {
            let ghost before = out@;
            strip_comment(&mut out, line);
            out.push('\n');
            assert(out@ =~= before + strip_comment_spec(line@).push('\n'));
        } else {
            assert(out@ + Seq::<char>::empty() =~= out@);
        }
        i += 1;
    }
    assert(views(all@).take(i as int) =~= views(all@));
    from_chars(out.as_slice())
}

// ---------------------------------------------------------------------------
// Record normalizer
// ---------------------------------------------------------------------------

/// What the shape of a line tells before its record is read.
pub struct NormalizedView {
    /// The token at `type_index`, or nothing where the line has no such
    /// token.
    pub rr_type: Seq<char>,
    pub tokens: Seq<Seq<char>>,
    /// The line begins with an owner name.
    pub has_name: bool,
    /// The token after the owner name, or the first token where there is
    /// no owner name, denotes a number that fits 32 bits.
    pub has_ttl: bool,
    /// Where the record's type stands among the tokens.
    pub type_index: nat,
}

/// Where a time to live stands, if the line has one.
pub open spec fn ttl_slot(has_name: bool) -> int {
    if has_name {
        1
    } else {
        0
    }
}

/// A line has an owner name if it is not empty and does not begin with
/// white space. The token in the slot after it is the time to live if it
/// denotes a number; the class `IN` may follow; the next token names the
/// record's type.
pub open spec fn normalize_spec(rr: Seq<char>) -> NormalizedView {
    let tokens = split_args_spec(rr, None, true);
    let has_name = rr.len() > 0 && !is_whitespace_spec(rr[0]);
    let slot = ttl_slot(has_name);
    let has_ttl = slot < tokens.len() && parse_u32_spec(tokens[slot]) is Some;
    let after_ttl = if has_ttl {
        slot + 1
    } else {
        slot
    };
    let type_index = if after_ttl < tokens.len() && tokens[after_ttl] == "IN"@ {
        after_ttl + 1
    } else {
        after_ttl
    };
    NormalizedView {
        rr_type: if type_index < tokens.len() {
            tokens[type_index]
        } else {
            Seq::empty()
        },
        tokens,
        has_name,
        has_ttl,
        type_index: type_index as nat,
    }
}

/// A line, split into tokens, with what its shape tells.
#[derive(Debug)]
pub struct NormalizedRR {
    rr_type: Vec<char>,
    tokens: Vec<Vec<char>>,
    has_name: bool,
    has_ttl: bool,
    type_index: usize,
}

impl View for NormalizedRR {
    type V = NormalizedView;

    closed spec fn view(&self) -> NormalizedView {
        NormalizedView {
            rr_type: self.rr_type@,
            tokens: views(self.tokens@),
            has_name: self.has_name,
            has_ttl: self.has_ttl,
            type_index: self.type_index as nat,
        }
    }
}

impl NormalizedRR {
    /// The token that names the type of the record.
    pub fn rr_type(&self) -> (r: String)
        ensures
            r@ == self@.rr_type,
    {
        from_chars(self.rr_type.as_slice())
    }

    /// The tokens of the line.
    pub fn tokens(&self) -> (r: Vec<String>)
        ensures
            strs(r@) == self@.tokens,
    {
        let mut out: Vec<String> = Vec::new();
        let mut i: usize = 0;
        while i < self.tokens.len()
            invariant
                i <= self.tokens.len(),
                strs(out@) == views(self.tokens@).take(i as int),
            decreases self.tokens.len() - i,
        {
            let ghost before = out@;
            let token = from_chars(self.tokens[i].as_slice());
            out.push(token);
            assert(strs(out@) =~= strs(before).push(self.tokens@[i as int]@));
            assert(views(self.tokens@).take(i + 1) =~= views(self.tokens@).take(i as int).push(
                self.tokens@[i as int]@,
            ));
            i += 1;
        }
        assert(views(self.tokens@).take(i as int) =~= views(self.tokens@));
        out
    }

    /// Whether the line begins with an owner name.
    pub fn has_name(&self) -> (r: bool)
        ensures
            r == self@.has_name,
    {
        self.has_name
    }

    /// Whether the line has a time to live.
    pub fn has_ttl(&self) -> (r: bool)
        ensures
            r == self@.has_ttl,
    {
        self.has_ttl
    }

    /// Where the type of the record stands among the tokens.
    pub fn type_index(&self) -> (r: usize)
        ensures
            r == self@.type_index,
    {
        self.type_index
    }
}

/// Whether the characters spell the word.
fn is_word(s: &[char], word: &str) -> (r: bool)
    ensures
        r == (s@ == word@),
{
    let w = to_chars(word);
    chars_eq(s, w.as_slice())
}

/// Normalizes a line of characters; see `normalize_spec`.
pub fn normalize_line(rr: &[char]) -> (r: NormalizedRR)
    ensures
        r@ == normalize_spec(rr@),
{
    let tokens = tokenize(rr, None, true);
    let has_name = rr.len() > 0 && !is_whitespace(rr[0]);
    let slot: usize = if has_name {
        1
    } else {
        0
    };
    let has_ttl = slot < tokens.len() && parse_u32(tokens[slot].as_slice()).is_some();
    let mut type_index: usize = slot;
    if has_ttl {
        type_index += 1;
    }
    if type_index < tokens.len() && is_word(tokens[type_index].as_slice(), "IN") {
        type_index += 1;
    }
    let rr_type = if type_index < tokens.len() {
        copy_chars(tokens[type_index].as_slice())
    } else {
        Vec::new()
    };
    NormalizedRR { rr_type, tokens, has_name, has_ttl, type_index }
}

/// Normalizes a line; see `normalize_spec`.
pub fn normalize_rr(rr: &str) -> (r: NormalizedRR)
    ensures
        r@ == normalize_spec(rr@),
{
    let chars = to_chars(rr);
    normalize_line(chars.as_slice())
}

// ---------------------------------------------------------------------------
// Field extractors
// ---------------------------------------------------------------------------

/// The owner of a record: the first token where the line has an owner name,
/// else the owner of the last record of its kind, else `@`.
pub open spec fn owner_name(n: NormalizedView, prev: Seq<RecordView>) -> Seq<char> {
    if n.has_name {
        n.tokens[0]
    } else if prev.len() > 0 {
        prev.last().name
    } else {
        "@"@
    }
}

/// The time to live of a record: the number in the slot for it, where the
/// line has one.
pub open spec fn record_ttl(n: NormalizedView) -> Option<u32> {
    if n.has_ttl {
        parse_u32_spec(n.tokens[ttl_slot(n.has_name)])
    } else {
        None
    }
}

/// The `k`-th token counted from the end of the line, the last being the
/// first.
pub open spec fn from_end(n: NormalizedView, k: int) -> Seq<char> {
    n.tokens[n.tokens.len() - k]
}

/// The number of 32 bits that a token denotes, or zero.
pub open spec fn u32_or_zero(token: Seq<char>) -> u32 {
    match parse_u32_spec(token) {
        Some(v) => v,
        None => 0,
    }
}

/// The number of 16 bits that a token denotes, or zero.
pub open spec fn u16_or_zero(token: Seq<char>) -> u16 {
    match parse_u16_spec(token) {
        Some(v) => v,
        None => 0,
    }
}

/// The number of 8 bits that a token denotes, or zero.
pub open spec fn u8_or_zero(token: Seq<char>) -> u8 {
    match parse_u8_spec(token) {
        Some(v) => v,
        None => 0,
    }
}

/// The tokens after the record's type, joined by single spaces.
pub open spec fn trailing_text(n: NormalizedView) -> Seq<char> {
    join_spec(n.tokens.skip(n.type_index as int + 1), " "@)
}

/// The data of a record of the given kind. Fields of fixed number are
/// counted from the end of the line; a numeric field whose token denotes no
/// number of its width is zero.
pub open spec fn record_data(
    kind: Kind,
    n: NormalizedView,
    name: Seq<char>,
    origin: Seq<char>,
) -> RData {
    match kind {
        Kind::Ns => RData::Ns { host: from_end(n, 1) },
        Kind::A => RData::A { ip: from_end(n, 1) },
        Kind::Aaaa => RData::Aaaa { ip: from_end(n, 1) },
        Kind::Cname => RData::Cname { alias: from_end(n, 1) },
        Kind::Mx => RData::Mx { preference: u16_or_zero(from_end(n, 2)), host: from_end(n, 1) },
        Kind::Txt => RData::Txt { txt: trailing_text(n) },
        Kind::Ptr => RData::Ptr { fullname: name + "."@ + origin, host: from_end(n, 1) },
        Kind::Srv => RData::Srv {
            priority: u16_or_zero(from_end(n, 4)),
            weight: u16_or_zero(from_end(n, 3)),
            port: u16_or_zero(from_end(n, 2)),
            target: from_end(n, 1),
        },
        Kind::Spf => RData::Spf { data: trailing_text(n) },
        Kind::Caa => RData::Caa {
            flags: u8_or_zero(from_end(n, 3)),
            tag: from_end(n, 2),
            value: from_end(n, 1),
        },
        Kind::Ds => RData::Ds {
            key_tag: from_end(n, 4),
            algorithm: from_end(n, 3),
            digest_type: from_end(n, 2),
            digest: from_end(n, 1),
        },
    }
}

/// The record that a line holds, given the records of its kind that came
/// before it and the origin in force.
pub open spec fn extract_record(
    kind: Kind,
    n: NormalizedView,
    prev: Seq<RecordView>,
    origin: Seq<char>,
) -> RecordView {
    let name = owner_name(n, prev);
    RecordView { name, ttl: record_ttl(n), data: record_data(kind, n, name, origin) }
}

/// How many tokens the data of a record takes at least.
pub open spec fn data_arity(kind: Kind) -> nat {
    match kind {
        Kind::Mx => 2,
        Kind::Caa => 3,
        Kind::Srv => 4,
        Kind::Ds => 4,
        _ => 1,
    }
}

/// The kinds whose data is free text.
pub open spec fn is_text_kind(kind: Kind) -> bool {
    kind == Kind::Txt || kind == Kind::Spf
}

/// The line has the tokens that a record of the given kind is read from.
pub open spec fn fits(n: NormalizedView, kind: Kind) -> bool {
    &&& n.tokens.len() >= data_arity(kind)
    &&& n.has_ttl ==> ttl_slot(n.has_name) < n.tokens.len()
    &&& is_text_kind(kind) ==> n.type_index < n.tokens.len()
}

/// The owner name of the record on a line; see `owner_name`.
pub fn get_name<R: GetName>(rr_data: &NormalizedRR, records_so_far: &[R]) -> (r: String)
    requires
        rr_data@.has_name ==> rr_data@.tokens.len() > 0,
    ensures
        r@ == owner_name(rr_data@, record_views(records_so_far@)),
{
    if rr_data.has_name {
        from_chars(rr_data.tokens[0].as_slice())
    } else {
        let n = records_so_far.len();
        if n > 0 {
            records_so_far[n - 1].get_name().to_owned()
        } else {
            "@".to_owned()
        }
    }
}

/// The time to live of the record on a line; see `record_ttl`.
fn read_ttl(rr_data: &NormalizedRR) -> (r: Option<u32>)
    requires
        rr_data@.has_ttl ==> ttl_slot(rr_data@.has_name) < rr_data@.tokens.len(),
    ensures
        r == record_ttl(rr_data@),
{
    if rr_data.has_ttl {
        let slot: usize = if rr_data.has_name {
            1
        } else {
            0
        };
        parse_u32(rr_data.tokens[slot].as_slice())
    } else {
        None
    }
}

/// The number of 32 bits that a token denotes, or zero.
fn read_u32(token: &[char]) -> (r: u32)
    ensures
        r == u32_or_zero(token@),
{
    match parse_u32(token) {
        Some(v) => v,
        None => 0,
    }
}

/// The number of 16 bits that a token denotes, or zero.
fn read_u16(token: &[char]) -> (r: u16)
    ensures
        r == u16_or_zero(token@),
{
    match parse_u16(token) {
        Some(v) => v,
        None => 0,
    }
}

/// The number of 8 bits that a token denotes, or zero.
fn read_u8(token: &[char]) -> (r: u8)
    ensures
        r == u8_or_zero(token@),
{
    match parse_u8(token) {
        Some(v) => v,
        None => 0,
    }
}

/// The `k`-th token from the end, as a string.
fn field(rr_data: &NormalizedRR, k: usize) -> (r: String)
    requires
        1 <= k <= rr_data@.tokens.len(),
    ensures
        r@ == from_end(rr_data@, k as int),
{
    let l = rr_data.tokens.len();
    from_chars(rr_data.tokens[l - k].as_slice())
}

/// The tokens after the type, joined by single spaces.
fn text_after_type(rr_data: &NormalizedRR) -> (r: String)
    requires
        rr_data@.type_index < rr_data@.tokens.len(),
    ensures
        r@ == trailing_text(rr_data@),
{
    let sep = to_chars(" ");
    assert(rr_data@.tokens.len() == rr_data.tokens@.len());
    assert(rr_data.type_index < rr_data.tokens.len());
    let joined = join_from(&rr_data.tokens, rr_data.type_index + 1, sep.as_slice());
    from_chars(joined.as_slice())
}

/// The start of authority that a line of white-space separated tokens
/// holds. The owner is the first token; the seven data fields are the last
/// seven tokens; the second token is the time to live where it is none of
/// those seven and denotes a number.
pub open spec fn soa_spec(tokens: Seq<Seq<char>>) -> SoaView
    recommends
        tokens.len() >= 7,
{
    let l = tokens.len();
    SoaView {
        name: tokens[0],
        ttl: if l >= 9 {
            parse_u32_spec(tokens[1])
        } else {
            None
        },
        mname: tokens[l - 7],
        rname: tokens[l - 6],
        serial: serial_spec(tokens[l - 5]),
        refresh: u32_or_zero(tokens[l - 4]),
        retry: u32_or_zero(tokens[l - 3]),
        expire: u32_or_zero(tokens[l - 2]),
        minimum: u32_or_zero(tokens[l - 1]),
    }
}

/// Reads a start of authority from the tokens of its line; see `soa_spec`.
pub fn parse_soa(rr_tokens: &Vec<Vec<char>>) -> (r: Soa)
    requires
        rr_tokens@.len() >= 7,
    ensures
        r@ == soa_spec(views(rr_tokens@)),
{
    let l = rr_tokens.len();
    let serial = match parse_u32(rr_tokens[l - 5].as_slice()) {
        Some(n) => Serial::Number(n),
        None => Serial::String(from_chars(rr_tokens[l - 5].as_slice())),
    };
    Soa {
        name: from_chars(rr_tokens[0].as_slice()),
        mname: from_chars(rr_tokens[l - 7].as_slice()),
        rname: from_chars(rr_tokens[l - 6].as_slice()),
        serial,
        refresh: read_u32(rr_tokens[l - 4].as_slice()),
        retry: read_u32(rr_tokens[l - 3].as_slice()),
        expire: read_u32(rr_tokens[l - 2].as_slice()),
        minimum: read_u32(rr_tokens[l - 1].as_slice()),
        ttl: if l >= 9 {
            parse_u32(rr_tokens[1].as_slice())
        } else {
            None
        },
    }
}

/// Reads an NS record; see `extract_record`.
pub fn parse_ns(rr_data: &NormalizedRR, records_so_far: &[Ns]) -> (r: Ns)
    requires
        fits(rr_data@, Kind::Ns),
    ensures
        r@ == extract_record(Kind::Ns, rr_data@, record_views(records_so_far@), Seq::empty()),
{
    let name = get_name(rr_data, records_so_far);
    Ns { name, host: field(rr_data, 1), ttl: read_ttl(rr_data) }
}

/// Reads an A record; see `extract_record`.
pub fn parse_a(rr_data: &NormalizedRR, records_so_far: &[A]) -> (r: A)
    requires
        fits(rr_data@, Kind::A),
    ensures
        r@ == extract_record(Kind::A, rr_data@, record_views(records_so_far@), Seq::empty()),
{
    let name = get_name(rr_data, records_so_far);
    A { name, ip: field(rr_data, 1), ttl: read_ttl(rr_data) }
}

/// Reads an AAAA record; see `extract_record`.
pub fn parse_aaaa(rr_data: &NormalizedRR, records_so_far: &[Aaaa]) -> (r: Aaaa)
    requires
        fits(rr_data@, Kind::Aaaa),
    ensures
        r@ == extract_record(Kind::Aaaa, rr_data@, record_views(records_so_far@), Seq::empty()),
{
    let name = get_name(rr_data, records_so_far);
    Aaaa { name, ip: field(rr_data, 1), ttl: read_ttl(rr_data) }
}

/// Reads a CNAME record; see `extract_record`.
pub fn parse_cname(rr_data: &NormalizedRR, records_so_far: &[Cname]) -> (r: Cname)
    requires
        fits(rr_data@, Kind::Cname),
    ensures
        r@ == extract_record(Kind::Cname, rr_data@, record_views(records_so_far@), Seq::empty()),
{
    let name = get_name(rr_data, records_so_far);
    Cname { name, alias: field(rr_data, 1), ttl: read_ttl(rr_data) }
}

/// Reads an MX record; see `extract_record`.
pub fn parse_mx(rr_data: &NormalizedRR, records_so_far: &[Mx]) -> (r: Mx)
    requires
        fits(rr_data@, Kind::Mx),
    ensures
        r@ == extract_record(Kind::Mx, rr_data@, record_views(records_so_far@), Seq::empty()),
{
    let name = get_name(rr_data, records_so_far);
    let l = rr_data.tokens.len();
    Mx {
        name,
        preference: read_u16(rr_data.tokens[l - 2].as_slice()),
        host: field(rr_data, 1),
        ttl: read_ttl(rr_data),
    }
}

/// Reads a TXT record; see `extract_record`.
pub fn parse_txt(rr_data: &NormalizedRR, records_so_far: &[Txt]) -> (r: Txt)
    requires
        fits(rr_data@, Kind::Txt),
    ensures
        r@ == extract_record(Kind::Txt, rr_data@, record_views(records_so_far@), Seq::empty()),
{
    let name = get_name(rr_data, records_so_far);
    Txt { name, txt: text_after_type(rr_data), ttl: read_ttl(rr_data) }
}

/// Reads a PTR record under the origin in force; see `extract_record`.
pub fn parse_ptr(rr_data: &NormalizedRR, records_so_far: &[Ptr], current_origin: &str) -> (r: Ptr)
    requires
        fits(rr_data@, Kind::Ptr),
    ensures
        r@ == extract_record(Kind::Ptr, rr_data@, record_views(records_so_far@), current_origin@),
{
    let name = get_name(rr_data, records_so_far);
    let mut fullname = to_chars(name.as_str());
    fullname.push('.');
    let origin = to_chars(current_origin);
    append_chars(&mut fullname, origin.as_slice());
    proof {
        reveal_strlit(".");
        assert("."@ =~= seq!['.']);
        assert(fullname@ =~= name@ + "."@ + current_origin@);
    }
    Ptr {
        fullname: from_chars(fullname.as_slice()),
        name,
        host: field(rr_data, 1),
        ttl: read_ttl(rr_data),
    }
}

/// Reads an SRV record; see `extract_record`.
pub fn parse_srv(rr_data: &NormalizedRR, records_so_far: &[Srv]) -> (r: Srv)
    requires
        fits(rr_data@, Kind::Srv),
    ensures
        r@ == extract_record(Kind::Srv, rr_data@, record_views(records_so_far@), Seq::empty()),
{
    let name = get_name(rr_data, records_so_far);
    let l = rr_data.tokens.len();
    Srv {
        name,
        target: field(rr_data, 1),
        priority: read_u16(rr_data.tokens[l - 4].as_slice()),
        weight: read_u16(rr_data.tokens[l - 3].as_slice()),
        port: read_u16(rr_data.tokens[l - 2].as_slice()),
        ttl: read_ttl(rr_data),
    }
}

/// Reads an SPF record; see `extract_record`.
pub fn parse_spf(rr_data: &NormalizedRR, records_so_far: &[Spf]) -> (r: Spf)
    requires
        fits(rr_data@, Kind::Spf),
    ensures
        r@ == extract_record(Kind::Spf, rr_data@, record_views(records_so_far@), Seq::empty()),
{
    let name = get_name(rr_data, records_so_far);
    Spf { name, data: text_after_type(rr_data), ttl: read_ttl(rr_data) }
}

/// Reads a CAA record; see `extract_record`.
pub fn parse_caa(rr_data: &NormalizedRR, records_so_far: &[Caa]) -> (r: Caa)
    requires
        fits(rr_data@, Kind::Caa),
    ensures
        r@ == extract_record(Kind::Caa, rr_data@, record_views(records_so_far@), Seq::empty()),
{
    let name = get_name(rr_data, records_so_far);
    let l = rr_data.tokens.len();
    Caa {
        name,
        flags: read_u8(rr_data.tokens[l - 3].as_slice()),
        tag: field(rr_data, 2),
        value: field(rr_data, 1),
        ttl: read_ttl(rr_data),
    }
}

/// Reads a DS record; see `extract_record`.
pub fn parse_ds(rr_data: &NormalizedRR, records_so_far: &[Ds]) -> (r: Ds)
    requires
        fits(rr_data@, Kind::Ds),
    ensures
        r@ == extract_record(Kind::Ds, rr_data@, record_views(records_so_far@), Seq::empty()),
{
    let name = get_name(rr_data, records_so_far);
    Ds {
        name,
        key_tag: field(rr_data, 4),
        algorithm: field(rr_data, 3),
        digest_type: field(rr_data, 2),
        digest: field(rr_data, 1),
        ttl: read_ttl(rr_data),
    }
}

// ---------------------------------------------------------------------------
// Zone accumulator
// ---------------------------------------------------------------------------

/// The keyword that names a kind of record.
pub open spec fn keyword(kind: Kind) -> Seq<char> {
    match kind {
        Kind::Ns => "NS"@,
        Kind::A => "A"@,
        Kind::Aaaa => "AAAA"@,
        Kind::Cname => "CNAME"@,
        Kind::Mx => "MX"@,
        Kind::Txt => "TXT"@,
        Kind::Ptr => "PTR"@,
        Kind::Srv => "SRV"@,
        Kind::Spf => "SPF"@,
        Kind::Caa => "CAA"@,
        Kind::Ds => "DS"@,
    }
}

/// The kind of record that a type token names, if any.
pub open spec fn kind_of(rr_type: Seq<char>) -> Option<Kind> {
    if rr_type == "NS"@ {
        Some(Kind::Ns)
    } else if rr_type == "A"@ {
        Some(Kind::A)
    } else if rr_type == "AAAA"@ {
        Some(Kind::Aaaa)
    } else if rr_type == "CNAME"@ {
        Some(Kind::Cname)
    } else if rr_type == "MX"@ {
        Some(Kind::Mx)
    } else if rr_type == "TXT"@ {
        Some(Kind::Txt)
    } else if rr_type == "PTR"@ {
        Some(Kind::Ptr)
    } else if rr_type == "SRV"@ {
        Some(Kind::Srv)
    } else if rr_type == "SPF"@ {
        Some(Kind::Spf)
    } else if rr_type == "CAA"@ {
        Some(Kind::Caa)
    } else if rr_type == "DS"@ {
        Some(Kind::Ds)
    } else {
        None
    }
}

/// No keyword is empty.
pub proof fn lemma_keyword_not_empty(rr_type: Seq<char>)
    requires
        rr_type == "SOA"@ || kind_of(rr_type) is Some,
    ensures
        rr_type.len() > 0,
{
    reveal_strlit("SOA");
    reveal_strlit("NS");
    reveal_strlit("A");
    reveal_strlit("AAAA");
    reveal_strlit("CNAME");
    reveal_strlit("MX");
    reveal_strlit("TXT");
    reveal_strlit("PTR");
    reveal_strlit("SRV");
    reveal_strlit("SPF");
    reveal_strlit("CAA");
    reveal_strlit("DS");
}

/// The kind that a type token names, if any.
fn classify(rr_type: &[char]) -> (r: Option<Kind>)
    ensures
        r == kind_of(rr_type@),
{
    if is_word(rr_type, "NS") {
        Some(Kind::Ns)
    } else if is_word(rr_type, "A") {
        Some(Kind::A)
    } else if is_word(rr_type, "AAAA") {
        Some(Kind::Aaaa)
    } else if is_word(rr_type, "CNAME") {
        Some(Kind::Cname)
    } else if is_word(rr_type, "MX") {
        Some(Kind::Mx)
    } else if is_word(rr_type, "TXT") {
        Some(Kind::Txt)
    } else if is_word(rr_type, "PTR") {
        Some(Kind::Ptr)
    } else if is_word(rr_type, "SRV") {
        Some(Kind::Srv)
    } else if is_word(rr_type, "SPF") {
        Some(Kind::Spf)
    } else if is_word(rr_type, "CAA") {
        Some(Kind::Caa)
    } else if is_word(rr_type, "DS") {
        Some(Kind::Ds)
    } else {
        None
    }
}

/// The second token of a directive line, if it has one.
pub open spec fn directive_value(line: Seq<char>) -> Option<Seq<char>> {
    let tokens = split_args_spec(line, None, true);
    if tokens.len() > 1 {
        Some(tokens[1])
    } else {
        None
    }
}

/// The origin in force: the zone's, or nothing where it has none yet.
pub open spec fn origin_or_empty(z: ZoneView) -> Seq<char> {
    match z.origin {
        Some(o) => o,
        None => Seq::empty(),
    }
}

/// The zone with one more record at the end of the list of its kind; a kind
/// seen for the first time gets its list.
pub open spec fn with_record(z: ZoneView, rec: RecordView) -> ZoneView {
    ZoneView { lists: z.lists.insert(rec.kind(), z.records(rec.kind()).push(rec)), ..z }
}

/// What one line does to a zone. A blank line does nothing. A line that
/// begins with `$ORIGIN` or `$TTL` sets that directive from its second
/// token. A line whose type is `SOA` and that has seven tokens or more sets
/// the start of authority. A line whose type names a listed kind, and that
/// has the tokens for its data, adds a record to that list. Any other line
/// does nothing.
pub open spec fn accumulate_line_spec(z: ZoneView, line: Seq<char>) -> ZoneView {
    if is_blank_spec(line) {
        z
    } else if starts_with_spec(line, "$ORIGIN"@) {
        ZoneView { origin: directive_value(line), ..z }
    } else if starts_with_spec(line, "$TTL"@) {
        ZoneView {
            ttl: match directive_value(line) {
                Some(t) => parse_u32_spec(t),
                None => None,
            },
            ..z
        }
    } else {
        let n = normalize_spec(line);
        if n.rr_type == "SOA"@ {
            let words = split_whitespace_spec(line);
            if words.len() >= 7 {
                ZoneView { soa: Some(soa_spec(words)), ..z }
            } else {
                z
            }
        } else {
            match kind_of(n.rr_type) {
                Some(kind) => if n.tokens.len() >= data_arity(kind) {
                    with_record(z, extract_record(kind, n, z.records(kind), origin_or_empty(z)))
                } else {
                    z
                },
                None => z,
            }
        }
    }
}

/// What lines do to a zone, one after the other.
pub open spec fn accumulate(z: ZoneView, lines: Seq<Seq<char>>) -> ZoneView
    decreases lines.len(),
{
    if lines.len() == 0 {
        z
    } else {
        accumulate_line_spec(accumulate(z, lines.drop_last()), lines.last())
    }
}

/// The zone that a text without comments holds, read line by line from the
/// empty zone.
pub open spec fn parse_rrs_spec(text: Seq<char>) -> ZoneView {
    accumulate(ZoneView::empty(), lines_spec(text))
}

/// A line whose type names a kind has a token for that type; of what a
/// record of the kind is read from, only the number of data tokens is left
/// to check.
pub proof fn lemma_normalized_fits(line: Seq<char>, kind: Kind)
    requires
        kind_of(normalize_spec(line).rr_type) == Some(kind),
    ensures
        normalize_spec(line).type_index < normalize_spec(line).tokens.len(),
        normalize_spec(line).tokens.len() >= data_arity(kind) ==> fits(normalize_spec(line), kind),
{
    lemma_keyword_not_empty(normalize_spec(line).rr_type);
}

/// Reads the NS record of the line and adds it to the zone.
fn add_ns(zone: &mut DnsRecord, nrr: &NormalizedRR)
    requires
        fits(nrr@, Kind::Ns),
    ensures
        final(zone)@ == with_record(
            old(zone)@,
            extract_record(
                Kind::Ns,
                nrr@,
                old(zone)@.records(Kind::Ns),
                origin_or_empty(old(zone)@),
            ),
        ),
{
    let mut records = match zone.ns.take() {
        Some(v) => v,
        None => Vec::new(),
    };
    let ghost before = records@;
    assert(record_views(before) =~= old(zone)@.records(Kind::Ns));
    let rec = parse_ns(nrr, records.as_slice());
    let ghost rv = rec@;
    records.push(rec);
    assert(record_views(records@) =~= record_views(before).push(rv));
    zone.ns = Some(records);
    assert(zone@.lists =~= old(zone)@.lists.insert(Kind::Ns, record_views(before).push(rv)));
}

/// Reads the A record of the line and adds it to the zone.
fn add_a(zone: &mut DnsRecord, nrr: &NormalizedRR)
    requires
        fits(nrr@, Kind::A),
    ensures
        final(zone)@ == with_record(
            old(zone)@,
            extract_record(
                Kind::A,
                nrr@,
                old(zone)@.records(Kind::A),
                origin_or_empty(old(zone)@),
            ),
        ),
{
    let mut records = match zone.a.take() {
        Some(v) => v,
        None => Vec::new(),
    };
    let ghost before = records@;
    assert(record_views(before) =~= old(zone)@.records(Kind::A));
    let rec = parse_a(nrr, records.as_slice());
    let ghost rv = rec@;
    records.push(rec);
    assert(record_views(records@) =~= record_views(before).push(rv));
    zone.a = Some(records);
    assert(zone@.lists =~= old(zone)@.lists.insert(Kind::A, record_views(before).push(rv)));
}

/// Reads the AAAA record of the line and adds it to the zone.
fn add_aaaa(zone: &mut DnsRecord, nrr: &NormalizedRR)
    requires
        fits(nrr@, Kind::Aaaa),
    ensures
        final(zone)@ == with_record(
            old(zone)@,
            extract_record(
                Kind::Aaaa,
                nrr@,
                old(zone)@.records(Kind::Aaaa),
                origin_or_empty(old(zone)@),
            ),
        ),
{
    let mut records = match zone.aaaa.take() {
        Some(v) => v,
        None => Vec::new(),
    };
    let ghost before = records@;
    assert(record_views(before) =~= old(zone)@.records(Kind::Aaaa));
    let rec = parse_aaaa(nrr, records.as_slice());
    let ghost rv = rec@;
    records.push(rec);
    assert(record_views(records@) =~= record_views(before).push(rv));
    zone.aaaa = Some(records);
    assert(zone@.lists =~= old(zone)@.lists.insert(Kind::Aaaa, record_views(before).push(rv)));
}

/// Reads the CNAME record of the line and adds it to the zone.
fn add_cname(zone: &mut DnsRecord, nrr: &NormalizedRR)
    requires
        fits(nrr@, Kind::Cname),
    ensures
        final(zone)@ == with_record(
            old(zone)@,
            extract_record(
                Kind::Cname,
                nrr@,
                old(zone)@.records(Kind::Cname),
                origin_or_empty(old(zone)@),
            ),
        ),
{
    let mut records = match zone.cname.take() {
        Some(v) => v,
        None => Vec::new(),
    };
    let ghost before = records@;
    assert(record_views(before) =~= old(zone)@.records(Kind::Cname));
    let rec = parse_cname(nrr, records.as_slice());
    let ghost rv = rec@;
    records.push(rec);
    assert(record_views(records@) =~= record_views(before).push(rv));
    zone.cname = Some(records);
    assert(zone@.lists =~= old(zone)@.lists.insert(Kind::Cname, record_views(before).push(rv)));
}

/// Reads the MX record of the line and adds it to the zone.
fn add_mx(zone: &mut DnsRecord, nrr: &NormalizedRR)
    requires
        fits(nrr@, Kind::Mx),
    ensures
        final(zone)@ == with_record(
            old(zone)@,
            extract_record(
                Kind::Mx,
                nrr@,
                old(zone)@.records(Kind::Mx),
                origin_or_empty(old(zone)@),
            ),
        ),
{
    let mut records = match zone.mx.take() {
        Some(v) => v,
        None => Vec::new(),
    };
    let ghost before = records@;
    assert(record_views(before) =~= old(zone)@.records(Kind::Mx));
    let rec = parse_mx(nrr, records.as_slice());
    let ghost rv = rec@;
    records.push(rec);
    assert(record_views(records@) =~= record_views(before).push(rv));
    zone.mx = Some(records);
    assert(zone@.lists =~= old(zone)@.lists.insert(Kind::Mx, record_views(before).push(rv)));
}

/// Reads the TXT record of the line and adds it to the zone.
fn add_txt(zone: &mut DnsRecord, nrr: &NormalizedRR)
    requires
        fits(nrr@, Kind::Txt),
    ensures
        final(zone)@ == with_record(
            old(zone)@,
            extract_record(
                Kind::Txt,
                nrr@,
                old(zone)@.records(Kind::Txt),
                origin_or_empty(old(zone)@),
            ),
        ),
{
    let mut records = match zone.txt.take() {
        Some(v) => v,
        None => Vec::new(),
    };
    let ghost before = records@;
    assert(record_views(before) =~= old(zone)@.records(Kind::Txt));
    let rec = parse_txt(nrr, records.as_slice());
    let ghost rv = rec@;
    records.push(rec);
    assert(record_views(records@) =~= record_views(before).push(rv));
    zone.txt = Some(records);
    assert(zone@.lists =~= old(zone)@.lists.insert(Kind::Txt, record_views(before).push(rv)));
}

/// Reads the PTR record of the line and adds it to the zone.
fn add_ptr(zone: &mut DnsRecord, nrr: &NormalizedRR)
    requires
        fits(nrr@, Kind::Ptr),
    ensures
        final(zone)@ == with_record(
            old(zone)@,
            extract_record(
                Kind::Ptr,
                nrr@,
                old(zone)@.records(Kind::Ptr),
                origin_or_empty(old(zone)@),
            ),
        ),
{
    let mut records = match zone.ptr.take() {
        Some(v) => v,
        None => Vec::new(),
    };
    let ghost before = records@;
    assert(record_views(before) =~= old(zone)@.records(Kind::Ptr));
    proof {
        reveal_strlit("");
        assert(""@ =~= Seq::<char>::empty());
    }
    let rec = match &zone.origin {
        Some(o) => parse_ptr(nrr, records.as_slice(), o.as_str()),
        None => parse_ptr(nrr, records.as_slice(), ""),
    };
    let ghost rv = rec@;
    records.push(rec);
    assert(record_views(records@) =~= record_views(before).push(rv));
    zone.ptr = Some(records);
    assert(zone@.lists =~= old(zone)@.lists.insert(Kind::Ptr, record_views(before).push(rv)));
}

/// Reads the SRV record of the line and adds it to the zone.
fn add_srv(zone: &mut DnsRecord, nrr: &NormalizedRR)
    requires
        fits(nrr@, Kind::Srv),
    ensures
        final(zone)@ == with_record(
            old(zone)@,
            extract_record(
                Kind::Srv,
                nrr@,
                old(zone)@.records(Kind::Srv),
                origin_or_empty(old(zone)@),
            ),
        ),
{
    let mut records = match zone.srv.take() {
        Some(v) => v,
        None => Vec::new(),
    };
    let ghost before = records@;
    assert(record_views(before) =~= old(zone)@.records(Kind::Srv));
    let rec = parse_srv(nrr, records.as_slice());
    let ghost rv = rec@;
    records.push(rec);
    assert(record_views(records@) =~= record_views(before).push(rv));
    zone.srv = Some(records);
    assert(zone@.lists =~= old(zone)@.lists.insert(Kind::Srv, record_views(before).push(rv)));
}

/// Reads the SPF record of the line and adds it to the zone.
fn add_spf(zone: &mut DnsRecord, nrr: &NormalizedRR)
    requires
        fits(nrr@, Kind::Spf),
    ensures
        final(zone)@ == with_record(
            old(zone)@,
            extract_record(
                Kind::Spf,
                nrr@,
                old(zone)@.records(Kind::Spf),
                origin_or_empty(old(zone)@),
            ),
        ),
{
    let mut records = match zone.spf.take() {
        Some(v) => v,
        None => Vec::new(),
    };
    let ghost before = records@;
    assert(record_views(before) =~= old(zone)@.records(Kind::Spf));
    let rec = parse_spf(nrr, records.as_slice());
    let ghost rv = rec@;
    records.push(rec);
    assert(record_views(records@) =~= record_views(before).push(rv));
    zone.spf = Some(records);
    assert(zone@.lists =~= old(zone)@.lists.insert(Kind::Spf, record_views(before).push(rv)));
}

/// Reads the CAA record of the line and adds it to the zone.
fn add_caa(zone: &mut DnsRecord, nrr: &NormalizedRR)
    requires
        fits(nrr@, Kind::Caa),
    ensures
        final(zone)@ == with_record(
            old(zone)@,
            extract_record(
                Kind::Caa,
                nrr@,
                old(zone)@.records(Kind::Caa),
                origin_or_empty(old(zone)@),
            ),
        ),
{
    let mut records = match zone.caa.take() {
        Some(v) => v,
        None => Vec::new(),
    };
    let ghost before = records@;
    assert(record_views(before) =~= old(zone)@.records(Kind::Caa));
    let rec = parse_caa(nrr, records.as_slice());
    let ghost rv = rec@;
    records.push(rec);
    assert(record_views(records@) =~= record_views(before).push(rv));
    zone.caa = Some(records);
    assert(zone@.lists =~= old(zone)@.lists.insert(Kind::Caa, record_views(before).push(rv)));
}

/// Reads the DS record of the line and adds it to the zone.
fn add_ds(zone: &mut DnsRecord, nrr: &NormalizedRR)
    requires
        fits(nrr@, Kind::Ds),
    ensures
        final(zone)@ == with_record(
            old(zone)@,
            extract_record(
                Kind::Ds,
                nrr@,
                old(zone)@.records(Kind::Ds),
                origin_or_empty(old(zone)@),
            ),
        ),
{
    let mut records = match zone.ds.take() {
        Some(v) => v,
        None => Vec::new(),
    };
    let ghost before = records@;
    assert(record_views(before) =~= old(zone)@.records(Kind::Ds));
    let rec = parse_ds(nrr, records.as_slice());
    let ghost rv = rec@;
    records.push(rec);
    assert(record_views(records@) =~= record_views(before).push(rv));
    zone.ds = Some(records);
    assert(zone@.lists =~= old(zone)@.lists.insert(Kind::Ds, record_views(before).push(rv)));
}

/// Reads one line into the zone; see `accumulate_line_spec`.
pub fn accumulate_line(zone: &mut DnsRecord, line: &[char])
    ensures
        final(zone)@ == accumulate_line_spec(old(zone)@, line@),
{
    if is_blank(line) {
        return ;
    }
    let origin_word = to_chars("$ORIGIN");
    let ttl_word = to_chars("$TTL");
    if matches_at(line, 0, origin_word.as_slice()) {
        let tokens = tokenize(line, None, true);
        zone.origin = if tokens.len() > 1 {
            Some(from_chars(tokens[1].as_slice()))
        } else {
            None
        };
        assert(zone@.lists =~= old(zone)@.lists);
    } else if matches_at(line, 0, ttl_word.as_slice()) {
        let tokens = tokenize(line, None, true);
        zone.ttl = if tokens.len() > 1 {
            parse_u32(tokens[1].as_slice())
        } else {
            None
        };
        assert(zone@.lists =~= old(zone)@.lists);
    } else {
        let nrr = normalize_line(line);
        if is_word(nrr.rr_type.as_slice(), "SOA") {
            let words = split_whitespace(line);
            if words.len() >= 7 {
                zone.soa = Some(parse_soa(&words));
                assert(zone@.lists =~= old(zone)@.lists);
            }
        } else {
            let kind = classify(nrr.rr_type.as_slice());
            let count = nrr.tokens.len();
            proof {
                if kind is Some {
                    lemma_normalized_fits(line@, kind->0);
                }
            }
            match kind {
                Some(Kind::Ns) => add_ns(zone, &nrr),
                Some(Kind::A) => add_a(zone, &nrr),
                Some(Kind::Aaaa) => add_aaaa(zone, &nrr),
                Some(Kind::Cname) => add_cname(zone, &nrr),
                Some(Kind::Mx) => if count >= 2 {
                    add_mx(zone, &nrr)
                },
                Some(Kind::Txt) => add_txt(zone, &nrr),
                Some(Kind::Ptr) => add_ptr(zone, &nrr),
                Some(Kind::Srv) => if count >= 4 {
                    add_srv(zone, &nrr)
                },
                Some(Kind::Spf) => add_spf(zone, &nrr),
                Some(Kind::Caa) => if count >= 3 {
                    add_caa(zone, &nrr)
                },
                Some(Kind::Ds) => if count >= 4 {
                    add_ds(zone, &nrr)
                },
                None => {},
            }
        }
    }
}

/// Reads the records of a text that holds no comments and no record that
/// spans lines; see `parse_rrs_spec`.
pub fn parse_rrs(text: &str) -> (zone: DnsRecord)
    ensures
        zone@ == parse_rrs_spec(text@),
{
    let chars = to_chars(text);
    let all = lines(chars.as_slice());
    let mut zone = DnsRecord::default();
    let mut i: usize = 0;
    while i < all.len()
        invariant
            i <= all.len(),
            zone@ == accumulate(ZoneView::empty(), views(all@).take(i as int)),
        decreases all.len() - i,
    {
        let ghost next = views(all@).take(i + 1);
        assert(next.drop_last() =~= views(all@).take(i as int));
        assert(next.last() == all@[i as int]@);
        accumulate_line(&mut zone, all[i].as_slice());
        i += 1;
    }
    assert(views(all@).take(i as int) =~= views(all@));
    zone
}

// ---------------------------------------------------------------------------
// Start of authority across lines
// ---------------------------------------------------------------------------

/// A text without its parentheses.
pub open spec fn without_parens(s: Seq<char>) -> Seq<char>
    decreases s.len(),
{
    if s.len() == 0 {
        s
    } else if s.last() == '(' || s.last() == ')' {
        without_parens(s.drop_last())
    } else {
        without_parens(s.drop_last()).push(s.last())
    }
}

/// The text in which the block that holds the start of authority stands on
/// one line: where the block first occurs, it gives way to its collapsed
/// form without the parentheses.
pub open spec fn splice_flattened_spec(
    text: Seq<char>,
    block: Seq<char>,
    collapsed: Seq<char>,
) -> Seq<char> {
    replace_first_spec(text, block, without_parens(collapsed))
}

/// Puts the collapsed form of a block in the place of the block; see
/// `splice_flattened_spec`.
pub fn splice_flattened(text: &str, block: &str, collapsed: &str) -> (out: String)
    ensures
        out@ == splice_flattened_spec(text@, block@, collapsed@),
{
    let collapsed_chars = to_chars(collapsed);
    let mut line: Vec<char> = Vec::new();
    let mut i: usize = 0;
    while i < collapsed_chars.len()
        invariant
            i <= collapsed_chars.len(),
            line@ == without_parens(collapsed_chars@.take(i as int)),
        decreases collapsed_chars.len() - i,
    {
        let c = collapsed_chars[i];
        assert(collapsed_chars@.take(i + 1).drop_last() =~= collapsed_chars@.take(i as int));
        assert(collapsed_chars@.take(i + 1).last() == c);
        if c != '(' && c != ')' {
            line.push(c);
        }
        i += 1;
    }
    assert(collapsed_chars@.take(i as int) =~= collapsed_chars@);
    let text_chars = to_chars(text);
    let block_chars = to_chars(block);
    let out = replace_first(text_chars.as_slice(), block_chars.as_slice(), line.as_slice());
    from_chars(out.as_slice())
}

/// A text in which the start of authority stands on one line. The block is
/// what `re` captures first in the text; its collapsed form is what
/// `re_whitespace` makes of it with a single space for each match. A text
/// in which `re` captures nothing stays as it is.
pub open spec fn flatten_soa_spec(re: Regex, re_whitespace: Regex, text: Seq<char>) -> Seq<char> {
    match first_group(re, text) {
        Some(block) => splice_flattened_spec(text, block, replaced_all(re_whitespace, block, " "@)),
        None => text,
    }
}

/// Puts a start of authority that spans lines on one line; see
/// `flatten_soa_spec`.
pub fn flatten_soa(re: &Regex, re_whitespace: &Regex, text: &str) -> (out: String)
    ensures
        out@ == flatten_soa_spec(*re, *re_whitespace, text@),
{
    match capture_first_group(re, text) {
        Some(block) => {
            let collapsed = replace_all(re_whitespace, block.as_str(), " ");
            splice_flattened(text, block.as_str(), collapsed.as_str())
        },
        None => text.to_owned(),
    }
}

// ---------------------------------------------------------------------------
// Parsing a zone file
// ---------------------------------------------------------------------------

/// The zone of a text that holds no comments and no record that spans
/// lines, or the error for a text that holds nothing.
pub open spec fn parse_flat_spec(text: Seq<char>) -> Result<ZoneView, Seq<char>> {
    let zone = parse_rrs_spec(text);
    if zone.is_empty() {
        Err("Invalid DNS Zonefile"@)
    } else {
        Ok(zone)
    }
}

/// The outcome of parsing a zone file: comments go, the start of authority
/// is put on one line, and the records are read line by line.
pub open spec fn parse_spec(re_ws: Regex, re_soa: Regex, text: Seq<char>) -> Result<
    ZoneView,
    Seq<char>,
> {
    parse_flat_spec(flatten_soa_spec(re_soa, re_ws, remove_comments_spec(text)))
}

/// The view of an outcome of parsing.
pub open spec fn outcome_view(r: Result<DnsRecord, String>) -> Result<ZoneView, Seq<char>> {
    match r {
        Ok(zone) => Ok(zone@),
        Err(e) => Err(e@),
    }
}

/// Parses a text that holds no comments and no record that spans lines; see
/// `parse_flat_spec`.
pub fn parse_flat(text: &str) -> (r: Result<DnsRecord, String>)
    ensures
        outcome_view(r) == parse_flat_spec(text@),
{
    let zone = parse_rrs(text);
    if zone.is_empty() {
        Err("Invalid DNS Zonefile".to_owned())
    } else {
        Ok(zone)
    }
}

/// Parses a zone file; see `parse_spec`.
pub fn parse(re_ws: &Regex, re_soa: &Regex, text: &str) -> (r: Result<DnsRecord, String>)
    ensures
        outcome_view(r) == parse_spec(*re_ws, *re_soa, text@),
{
    let without_comments = remove_comments(text);
    let flattened = flatten_soa(re_soa, re_ws, without_comments.as_str());
    parse_flat(flattened.as_str())
}

} // verus!
