//! Reading back what was written: the line of a record, read as a line of a
//! zone file, gives the record.

use crate::dns_structs::{serial_text, Kind, RData, RecordView, SerialView, SoaView, ZoneView};
use crate::generator::{data_fields, render_record, render_records};
use crate::number::{decimal_spec, lemma_decimal_round_trip, parse_u32_spec};
use crate::parser::{
    accumulate, accumulate_line_spec, comment_free_line, comment_free_lines, data_arity,
    extract_record, is_comment_line, keyword, kind_of, lemma_keyword_not_empty, normalize_spec,
    origin_or_empty, owner_name, parse_rrs_spec, record_data, remove_comments_spec, scan_comment,
    scan_tokens, soa_spec, split_args_spec, strip_comment_spec, token_step, with_record,
    NormalizedView, StripScan, TokenScan,
};
use crate::text::{
    is_blank_spec, is_digit_spec, is_whitespace_spec, join_spec, lines_spec, scan_lines,
    split_whitespace_spec, starts_with_spec, strip_cr, Pieces,
};
use vstd::prelude::*;

verus! {

// ---------------------------------------------------------------------------
// Tokens of a text that is put together from parts
// ---------------------------------------------------------------------------

/// The scan of the text ends outside quotes.
pub open spec fn ends_outside_quotes(text: Seq<char>) -> bool {
    !scan_tokens(text, None, true).dq && !scan_tokens(text, None, true).sq
}

/// The text is not empty, and is read as one token, itself, which ends
/// outside quotes.
pub open spec fn is_token(text: Seq<char>) -> bool {
    &&& text.len() > 0
    &&& scan_tokens(text, None, true) == (TokenScan {
        done: Seq::empty(),
        cur: text,
        dq: false,
        sq: false,
    })
}

/// The text is read as the given tokens and ends outside quotes.
pub open spec fn reads_as(text: Seq<char>, tokens: Seq<Seq<char>>) -> bool {
    split_args_spec(text, None, true) == tokens && ends_outside_quotes(text)
}

/// The text holds no line feed, no carriage return, and no semicolon
/// outside quotes: nothing that ends a line or begins a comment.
pub open spec fn is_plain(text: Seq<char>) -> bool {
    &&& forall|i: int| 0 <= i < text.len() ==> text[i] != '\n' && text[i] != '\r'
    &&& forall|i: int|
        0 <= i < text.len() && text[i] == ';' ==> !ends_outside_quotes(#[trigger] text.take(i))
}

/// After a text that ends between tokens and outside quotes, a scan goes on
/// as from the start, with the tokens of that text before its own.
pub proof fn lemma_scan_after_break(first: Seq<char>, rest: Seq<char>)
    requires
        ends_outside_quotes(first),
        scan_tokens(first, None, true).cur.len() == 0,
    ensures
        scan_tokens(first + rest, None, true) == (TokenScan {
            done: scan_tokens(first, None, true).done + scan_tokens(rest, None, true).done,
            ..scan_tokens(rest, None, true)
        }),
    decreases rest.len(),
{
    let a = scan_tokens(first, None, true);
    if rest.len() == 0 {
        assert(first + rest =~= first);
        assert(a.done + Seq::<Seq<char>>::empty() =~= a.done);
        assert(a.cur =~= Seq::<char>::empty());
    } else {
        lemma_scan_after_break(first, rest.drop_last());
        assert((first + rest).drop_last() =~= first + rest.drop_last());
        assert((first + rest).last() == rest.last());
        let before = scan_tokens(rest.drop_last(), None, true);
        let framed = TokenScan { done: a.done + before.done, ..before };
        let stepped = token_step(before, rest.last(), None, true);
        assert(token_step(framed, rest.last(), None, true).done =~= a.done + stepped.done);
    }
}

/// Two texts with one white-space character between them are read as the
/// tokens of the first and then the tokens of the second, where the first
/// ends outside quotes.
pub proof fn lemma_split_at_space(first: Seq<char>, c: char, rest: Seq<char>)
    requires
        ends_outside_quotes(first),
        is_whitespace_spec(c),
    ensures
        split_args_spec(first.push(c) + rest, None, true) == split_args_spec(first, None, true)
            + split_args_spec(rest, None, true),
        ends_outside_quotes(first.push(c) + rest) == ends_outside_quotes(rest),
        scan_tokens(first.push(c) + rest, None, true).dq == scan_tokens(rest, None, true).dq,
        scan_tokens(first.push(c) + rest, None, true).sq == scan_tokens(rest, None, true).sq,
{
    let a = scan_tokens(first, None, true);
    let b = scan_tokens(rest, None, true);
    assert(first.push(c).drop_last() =~= first);
    assert(c != '"' && c != '\'');
    lemma_scan_after_break(first.push(c), rest);
    if b.cur.len() > 0 {
        assert(split_args_spec(first, None, true) + b.done.push(b.cur) =~= (split_args_spec(
            first,
            None,
            true,
        ) + b.done).push(b.cur));
    }
}

/// Joining adds the read, and keeps what is plain plain.
pub proof fn lemma_reads_join(
    first: Seq<char>,
    first_tokens: Seq<Seq<char>>,
    c: char,
    rest: Seq<char>,
    rest_tokens: Seq<Seq<char>>,
)
    requires
        reads_as(first, first_tokens),
        c == ' ' || c == '\t',
        reads_as(rest, rest_tokens),
    ensures
        reads_as(first.push(c) + rest, first_tokens + rest_tokens),
        is_plain(first) && is_plain(rest) ==> is_plain(first.push(c) + rest),
{
    lemma_split_at_space(first, c, rest);
    let joined = first.push(c) + rest;
    if is_plain(first) && is_plain(rest) {
        assert forall|i: int|
            0 <= i < joined.len() && joined[i] == ';' implies !ends_outside_quotes(
            #[trigger] joined.take(i),
        ) by {
            if i < first.len() {
                assert(joined.take(i) =~= first.take(i));
                assert(first[i] == ';');
            } else {
                let j = i - first.len() - 1;
                assert(rest[j] == ';');
                assert(joined.take(i) =~= first.push(c) + rest.take(j));
                lemma_split_at_space(first, c, rest.take(j));
            }
        }
    }
}

/// A token is read as itself.
pub proof fn lemma_reads_token(text: Seq<char>)
    requires
        is_token(text),
    ensures
        reads_as(text, seq![text]),
{
    assert(Seq::<Seq<char>>::empty().push(text) =~= seq![text]);
}

/// A text without white space and without quotes is a token.
pub proof fn lemma_plain_text_is_token(text: Seq<char>)
    requires
        text.len() > 0,
        forall|i: int|
            0 <= i < text.len() ==> !is_whitespace_spec(#[trigger] text[i]) && text[i] != '"'
                && text[i] != '\'',
    ensures
        is_token(text),
{
    lemma_plain_scan(text);
}

/// The scan of a text without white space and quotes holds the text as the
/// token under way.
proof fn lemma_plain_scan(text: Seq<char>)
    requires
        forall|i: int|
            0 <= i < text.len() ==> !is_whitespace_spec(#[trigger] text[i]) && text[i] != '"'
                && text[i] != '\'',
    ensures
        scan_tokens(text, None, true) == (TokenScan {
            done: Seq::empty(),
            cur: text,
            dq: false,
            sq: false,
        }),
    decreases text.len(),
{
    if text.len() == 0 {
        assert(text =~= Seq::<char>::empty());
    } else {
        assert forall|i: int| 0 <= i < text.drop_last().len() implies !is_whitespace_spec(
            #[trigger] text.drop_last()[i],
        ) && text.drop_last()[i] != '"' && text.drop_last()[i] != '\'' by {
            assert(text.drop_last()[i] == text[i]);
        }
        lemma_plain_scan(text.drop_last());
        assert(!is_whitespace_spec(text[text.len() - 1]));
        assert(text.drop_last().push(text.last()) =~= text);
    }
}

/// A decimal numeral is a token, and plain.
pub proof fn lemma_numeral_is_token(n: nat)
    ensures
        is_token(decimal_spec(n)),
        is_plain(decimal_spec(n)),
{
    lemma_decimal_round_trip(n);
    let s = decimal_spec(n);
    assert forall|i: int| 0 <= i < s.len() implies !is_whitespace_spec(#[trigger] s[i]) && s[i]
        != '"' && s[i] != '\'' by {
        assert(is_digit_spec(s[i]));
    }
    lemma_plain_text_is_token(s);
}

/// What a scan holds, counted in characters.
pub open spec fn held(done: Seq<Seq<char>>) -> nat
    decreases done.len(),
{
    if done.len() == 0 {
        0
    } else {
        held(done.drop_last()) + done.last().len()
    }
}

/// A scan holds no more characters than it has seen, and fewer where the
/// text begins with white space.
proof fn lemma_scan_holds(text: Seq<char>)
    ensures
        held(scan_tokens(text, None, true).done) + scan_tokens(text, None, true).cur.len()
            <= text.len(),
        text.len() > 0 && is_whitespace_spec(text[0]) ==> held(
            scan_tokens(text, None, true).done,
        ) + scan_tokens(text, None, true).cur.len() < text.len(),
    decreases text.len(),
{
    if text.len() > 0 {
        lemma_scan_holds(text.drop_last());
        let before = scan_tokens(text.drop_last(), None, true);
        let after = scan_tokens(text, None, true);
        if after.done.len() > before.done.len() {
            assert(after.done.drop_last() =~= before.done);
        }
        if text.len() > 1 {
            assert(text.drop_last()[0] == text[0]);
        } else {
            assert(text.drop_last() =~= Seq::<char>::empty());
        }
    }
}

/// A token does not begin with white space.
pub proof fn lemma_token_begins_with_no_space(text: Seq<char>)
    requires
        is_token(text),
    ensures
        !is_whitespace_spec(text[0]),
{
    lemma_scan_holds(text);
    assert(held(Seq::<Seq<char>>::empty()) == 0);
}

// ---------------------------------------------------------------------------
// Keywords
// ---------------------------------------------------------------------------

/// Each keyword names its own kind and no other, and none is `SOA`.
pub proof fn lemma_keyword_names_its_kind(kind: Kind)
    ensures
        kind_of(keyword(kind)) == Some(kind),
        keyword(kind) != "SOA"@,
        is_token(keyword(kind)),
        is_plain(keyword(kind)),
        is_token("IN"@),
        is_plain("IN"@),
        parse_u32_spec("IN"@) is None,
{
    reveal_strlit("SOA");
    reveal_strlit("IN");
    reveal_strlit("NS");
    reveal_strlit("A");
    reveal_strlit("AAAA");
    reveal_strlit("CNAME");
    reveal_strlit("MX");
    reveal_strlit("TXT");
    reveal_strlit("PTR");
    reveal_strlit("SRV");
    reveal_strlit("SPF");
    reveal_strlit("CAA");
    reveal_strlit("DS");
    assert("SOA"@[0] == 'S' && "SOA"@[1] == 'O');
    assert("NS"@[0] == 'N' && "NS"@[1] == 'S');
    assert("MX"@[0] == 'M' && "MX"@[1] == 'X');
    assert("DS"@[0] == 'D' && "DS"@[1] == 'S');
    assert("TXT"@[0] == 'T' && "TXT"@[1] == 'X');
    assert("PTR"@[0] == 'P' && "PTR"@[1] == 'T');
    assert("SRV"@[0] == 'S' && "SRV"@[1] == 'R');
    assert("SPF"@[0] == 'S' && "SPF"@[1] == 'P');
    assert("CAA"@[0] == 'C' && "CAA"@[1] == 'A');
    assert("IN"@[0] == 'I' && "IN"@[1] == 'N');
    assert(!is_digit_spec("IN"@[0]));
    lemma_plain_text_is_token("IN"@);
    lemma_plain_text_is_token(keyword(kind));
}

// ---------------------------------------------------------------------------
// The line of a record, read back
// ---------------------------------------------------------------------------

/// A text for a TXT or SPF record as reading leaves it: its tokens with
/// single spaces between them, ending outside quotes.
pub open spec fn is_spaced_text(text: Seq<char>) -> bool {
    ends_outside_quotes(text) && join_spec(split_args_spec(text, None, true), " "@) == text
}

/// The data of a record in the form that reading gives it: each field of a
/// fixed number is a token, and the text of a TXT or SPF record is spaced.
pub open spec fn is_read_form(data: RData) -> bool {
    match data {
        RData::Ns { host } => is_token(host),
        RData::A { ip } => is_token(ip),
        RData::Aaaa { ip } => is_token(ip),
        RData::Cname { alias } => is_token(alias),
        RData::Mx { preference, host } => is_token(host),
        RData::Txt { txt } => is_spaced_text(txt),
        RData::Ptr { fullname, host } => is_token(host),
        RData::Srv { priority, weight, port, target } => is_token(target),
        RData::Spf { data } => is_spaced_text(data),
        RData::Caa { flags, tag, value } => is_token(tag) && is_token(value),
        RData::Ds { key_tag, algorithm, digest_type, digest } => is_token(key_tag) && is_token(
            algorithm,
        ) && is_token(digest_type) && is_token(digest),
    }
}

/// No field of the data holds what ends a line or begins a comment.
pub open spec fn is_plain_data(data: RData) -> bool {
    match data {
        RData::Ns { host } => is_plain(host),
        RData::A { ip } => is_plain(ip),
        RData::Aaaa { ip } => is_plain(ip),
        RData::Cname { alias } => is_plain(alias),
        RData::Mx { preference, host } => is_plain(host),
        RData::Txt { txt } => is_plain(txt),
        RData::Ptr { fullname, host } => is_plain(host),
        RData::Srv { priority, weight, port, target } => is_plain(target),
        RData::Spf { data } => is_plain(data),
        RData::Caa { flags, tag, value } => is_plain(tag) && is_plain(value),
        RData::Ds { key_tag, algorithm, digest_type, digest } => is_plain(key_tag) && is_plain(
            algorithm,
        ) && is_plain(digest_type) && is_plain(digest),
    }
}

/// The tokens that the data of a record is written as.
pub open spec fn data_tokens(data: RData) -> Seq<Seq<char>> {
    match data {
        RData::Ns { host } => seq![host],
        RData::A { ip } => seq![ip],
        RData::Aaaa { ip } => seq![ip],
        RData::Cname { alias } => seq![alias],
        RData::Mx { preference, host } => seq![decimal_spec(preference as nat), host],
        RData::Txt { txt } => split_args_spec(txt, None, true),
        RData::Ptr { fullname, host } => seq![host],
        RData::Srv { priority, weight, port, target } => seq![
            decimal_spec(priority as nat),
            decimal_spec(weight as nat),
            decimal_spec(port as nat),
            target,
        ],
        RData::Spf { data } => split_args_spec(data, None, true),
        RData::Caa { flags, tag, value } => seq![decimal_spec(flags as nat), tag, value],
        RData::Ds { key_tag, algorithm, digest_type, digest } => seq![
            key_tag,
            algorithm,
            digest_type,
            digest,
        ],
    }
}

/// Two tokens with a tab between them are read as those two tokens.
proof fn lemma_reads_tab(
    first: Seq<char>,
    first_tokens: Seq<Seq<char>>,
    token: Seq<char>,
)
    requires
        reads_as(first, first_tokens),
        is_token(token),
    ensures
        reads_as(first + "\t"@ + token, first_tokens.push(token)),
        is_plain(first) && is_plain(token) ==> is_plain(first + "\t"@ + token),
{
    reveal_strlit("\t");
    lemma_reads_token(token);
    lemma_reads_join(first, first_tokens, '\t', token, seq![token]);
    assert(first + "\t"@ + token =~= first.push('\t') + token);
    assert(first_tokens + seq![token] =~= first_tokens.push(token));
}

/// The data of a record in read form is read as its tokens.
pub proof fn lemma_data_reads(data: RData)
    requires
        is_read_form(data),
    ensures
        reads_as(data_fields(data), data_tokens(data)),
        is_plain_data(data) ==> is_plain(data_fields(data)),
{
    match data {
        RData::Ns { host } => {
            lemma_reads_token(host);
        },
        RData::A { ip } => {
            lemma_reads_token(ip);
        },
        RData::Aaaa { ip } => {
            lemma_reads_token(ip);
        },
        RData::Cname { alias } => {
            lemma_reads_token(alias);
        },
        RData::Mx { preference, host } => {
            let p = decimal_spec(preference as nat);
            lemma_numeral_is_token(preference as nat);
            lemma_reads_token(p);
            lemma_reads_tab(p, seq![p], host);
            assert(seq![p].push(host) =~= seq![p, host]);
        },
        RData::Txt { txt } => {},
        RData::Ptr { fullname, host } => {
            lemma_reads_token(host);
        },
        RData::Srv { priority, weight, port, target } => {
            let p = decimal_spec(priority as nat);
            let w = decimal_spec(weight as nat);
            let o = decimal_spec(port as nat);
            lemma_numeral_is_token(priority as nat);
            lemma_numeral_is_token(weight as nat);
            lemma_numeral_is_token(port as nat);
            lemma_reads_token(p);
            lemma_reads_tab(p, seq![p], w);
            lemma_reads_tab(p + "\t"@ + w, seq![p].push(w), o);
            lemma_reads_tab(p + "\t"@ + w + "\t"@ + o, seq![p].push(w).push(o), target);
            assert(seq![p].push(w).push(o).push(target) =~= seq![p, w, o, target]);
        },
        RData::Spf { data } => {},
        RData::Caa { flags, tag, value } => {
            let f = decimal_spec(flags as nat);
            lemma_numeral_is_token(flags as nat);
            lemma_reads_token(f);
            lemma_reads_tab(f, seq![f], tag);
            lemma_reads_tab(f + "\t"@ + tag, seq![f].push(tag), value);
            assert(seq![f].push(tag).push(value) =~= seq![f, tag, value]);
        },
        RData::Ds { key_tag, algorithm, digest_type, digest } => {
            lemma_reads_token(key_tag);
            lemma_reads_tab(key_tag, seq![key_tag], algorithm);
            lemma_reads_tab(
                key_tag + "\t"@ + algorithm,
                seq![key_tag].push(algorithm),
                digest_type,
            );
            lemma_reads_tab(
                key_tag + "\t"@ + algorithm + "\t"@ + digest_type,
                seq![key_tag].push(algorithm).push(digest_type),
                digest,
            );
            assert(seq![key_tag].push(algorithm).push(digest_type).push(digest) =~= seq![
                key_tag,
                algorithm,
                digest_type,
                digest,
            ]);
        },
    }
}

/// The tokens that a record line begins with: the owner, the time to live
/// if there is one, the class and the type.
pub open spec fn head_tokens(name: Seq<char>, ttl: Option<u32>, word: Seq<char>) -> Seq<Seq<char>> {
    match ttl {
        Some(t) => seq![name, decimal_spec(t as nat), "IN"@, word],
        None => seq![name, "IN"@, word],
    }
}

/// The head of a record line: the owner, the time to live if there is one,
/// the class and the type, with tabs between them.
pub open spec fn head_text(name: Seq<char>, ttl: Option<u32>, word: Seq<char>) -> Seq<char> {
    match ttl {
        Some(t) => name + "\t"@ + decimal_spec(t as nat) + "\t"@ + "IN"@ + "\t"@ + word,
        None => name + "\t"@ + "IN"@ + "\t"@ + word,
    }
}

/// The head of a record line is read as its tokens.
proof fn lemma_head_reads(name: Seq<char>, ttl: Option<u32>, word: Seq<char>)
    requires
        is_token(name),
        is_token(word),
        is_token("IN"@),
        is_plain("IN"@),
    ensures
        reads_as(head_text(name, ttl, word), head_tokens(name, ttl, word)),
        is_plain(name) && is_plain(word) ==> is_plain(head_text(name, ttl, word)),
{
    lemma_reads_token(name);
    match ttl {
        Some(t) => {
            let numeral = decimal_spec(t as nat);
            lemma_numeral_is_token(t as nat);
            lemma_reads_tab(name, seq![name], numeral);
            lemma_reads_tab(name + "\t"@ + numeral, seq![name].push(numeral), "IN"@);
            lemma_reads_tab(
                name + "\t"@ + numeral + "\t"@ + "IN"@,
                seq![name].push(numeral).push("IN"@),
                word,
            );
            assert(seq![name].push(numeral).push("IN"@).push(word) =~= head_tokens(
                name,
                ttl,
                word,
            ));
        },
        None => {
            lemma_reads_tab(name, seq![name], "IN"@);
            lemma_reads_tab(name + "\t"@ + "IN"@, seq![name].push("IN"@), word);
            assert(seq![name].push("IN"@).push(word) =~= head_tokens(name, ttl, word));
        },
    }
}

/// The line of a record is its head, a tab, its data and a line feed.
proof fn lemma_record_line_parts(r: RecordView)
    requires
        r.name.len() > 0,
    ensures
        render_record(r) == (head_text(r.name, r.ttl, keyword(r.kind())).push('\t') + data_fields(
            r.data,
        )).push('\n'),
        render_record(r).drop_last() == head_text(r.name, r.ttl, keyword(r.kind())).push('\t')
            + data_fields(r.data),
        head_text(r.name, r.ttl, keyword(r.kind())).len() > r.name.len(),
        head_text(r.name, r.ttl, keyword(r.kind()))[r.name.len() as int] == '\t',
        forall|i: int|
            0 <= i < r.name.len() ==> head_text(r.name, r.ttl, keyword(r.kind()))[i] == r.name[i],
{
    reveal_strlit("\t");
    reveal_strlit("\n");
    reveal_strlit("IN\t");
    reveal_strlit("IN");
    assert("IN\t"@ =~= "IN"@ + "\t"@);
    let head = head_text(r.name, r.ttl, keyword(r.kind()));
    let line = head.push('\t') + data_fields(r.data);
    assert(render_record(r) =~= line.push('\n'));
    assert(line.push('\n').drop_last() =~= line);
}

/// The line of a record without its line feed is read as the tokens of its
/// head and then the tokens of its data.
pub proof fn lemma_record_line_tokens(r: RecordView)
    requires
        is_token(r.name),
        is_read_form(r.data),
    ensures
        render_record(r).len() > 0,
        render_record(r).last() == '\n',
        render_record(r).drop_last()[0] == r.name[0],
        render_record(r).drop_last().len() > r.name.len(),
        render_record(r).drop_last()[r.name.len() as int] == '\t',
        forall|i: int| 0 <= i < r.name.len() ==> render_record(r).drop_last()[i] == r.name[i],
        split_args_spec(render_record(r).drop_last(), None, true) == head_tokens(
            r.name,
            r.ttl,
            keyword(r.kind()),
        ) + data_tokens(r.data),
        is_plain(r.name) && is_plain_data(r.data) ==> is_plain(render_record(r).drop_last()),
{
    let word = keyword(r.kind());
    let head = head_text(r.name, r.ttl, word);
    let data = data_fields(r.data);
    lemma_keyword_names_its_kind(r.kind());
    lemma_data_reads(r.data);
    lemma_head_reads(r.name, r.ttl, word);
    lemma_record_line_parts(r);
    lemma_reads_join(head, head_tokens(r.name, r.ttl, word), '\t', data, data_tokens(r.data));
    let line = head.push('\t') + data;
    assert forall|i: int| 0 <= i < r.name.len() implies line[i] == r.name[i] by {
        assert(line[i] == head[i]);
    }
    assert(line[r.name.len() as int] == head[r.name.len() as int]);
    assert(line[0] == head[0]);
}

/// A line that begins with a token and a tab is no directive unless the
/// token begins as one.
proof fn lemma_line_is_no_directive(line: Seq<char>, name: Seq<char>)
    requires
        name.len() < line.len(),
        forall|i: int| 0 <= i < name.len() ==> line[i] == name[i],
        line[name.len() as int] == '\t',
        !starts_with_spec(name, "$ORIGIN"@),
        !starts_with_spec(name, "$TTL"@),
    ensures
        !starts_with_spec(line, "$ORIGIN"@),
        !starts_with_spec(line, "$TTL"@),
{
    reveal_strlit("$ORIGIN");
    reveal_strlit("$TTL");
    if starts_with_spec(line, "$ORIGIN"@) {
        let word = "$ORIGIN"@;
        assert forall|i: int| 0 <= i < 7 implies line[i] == word[i] by {
            assert(line.subrange(0, 7)[i] == line[i]);
        }
        if name.len() >= 7 {
            assert(name.subrange(0, 7) =~= word);
        } else {
            assert(line[name.len() as int] == word[name.len() as int]);
        }
    }
    if starts_with_spec(line, "$TTL"@) {
        let word = "$TTL"@;
        assert forall|i: int| 0 <= i < 4 implies line[i] == word[i] by {
            assert(line.subrange(0, 4)[i] == line[i]);
        }
        if name.len() >= 4 {
            assert(name.subrange(0, 4) =~= word);
        } else {
            assert(line[name.len() as int] == word[name.len() as int]);
        }
    }
}

/// A record in the form that reading gives it: the owner is a token and
/// begins no directive, the data is in read form, and the full name of a PTR
/// record is its owner under the given origin.
pub open spec fn is_read_record(r: RecordView, origin: Seq<char>) -> bool {
    &&& is_token(r.name)
    &&& !starts_with_spec(r.name, "$ORIGIN"@)
    &&& !starts_with_spec(r.name, "$TTL"@)
    &&& is_read_form(r.data)
    &&& match r.data {
        RData::Ptr { fullname, host } => fullname == r.name + "."@ + origin,
        _ => true,
    }
}

/// What the shape of the line of a record tells: an owner name, a time to
/// live if the record has one, and the type behind the class.
pub open spec fn line_shape(r: RecordView) -> NormalizedView {
    NormalizedView {
        rr_type: keyword(r.kind()),
        tokens: head_tokens(r.name, r.ttl, keyword(r.kind())) + data_tokens(r.data),
        has_name: true,
        has_ttl: r.ttl is Some,
        type_index: if r.ttl is Some {
            3
        } else {
            2
        },
    }
}

/// The line of a record has the shape of that record.
pub proof fn lemma_line_has_shape(r: RecordView)
    requires
        is_token(r.name),
        is_read_form(r.data),
    ensures
        normalize_spec(render_record(r).drop_last()) == line_shape(r),
{
    let line = render_record(r).drop_last();
    let word = keyword(r.kind());
    let n = normalize_spec(line);
    lemma_record_line_tokens(r);
    lemma_keyword_names_its_kind(r.kind());
    lemma_token_begins_with_no_space(r.name);
    let head = head_tokens(r.name, r.ttl, word);
    let data = data_tokens(r.data);
    assert(n.tokens == head + data);
    assert(n.has_name);
    match r.ttl {
        Some(t) => {
            lemma_decimal_round_trip(t as nat);
            assert(n.tokens[1] == decimal_spec(t as nat));
            assert(parse_u32_spec(n.tokens[1]) == Some(t));
            assert(n.tokens[2] == "IN"@);
            assert(n.tokens[3] == word);
        },
        None => {
            assert(n.tokens[1] == "IN"@);
            assert(n.tokens[2] == word);
        },
    }
}

/// From the shape of its line, a record in read form is read back.
pub proof fn lemma_shape_gives_record(r: RecordView, prev: Seq<RecordView>, origin: Seq<char>)
    requires
        is_read_record(r, origin),
    ensures
        line_shape(r).tokens.len() >= data_arity(r.kind()),
        extract_record(r.kind(), line_shape(r), prev, origin) == r,
{
    let n = line_shape(r);
    let word = keyword(r.kind());
    let head = head_tokens(r.name, r.ttl, word);
    let data = data_tokens(r.data);
    let l = n.tokens.len() as int;
    assert(n.tokens[0] == r.name);
    match r.ttl {
        Some(t) => {
            lemma_decimal_round_trip(t as nat);
            assert(n.tokens[1] == decimal_spec(t as nat));
        },
        None => {},
    }
    assert(n.tokens.skip(n.type_index as int + 1) =~= data);
    let back = extract_record(r.kind(), n, prev, origin);
    assert(back.name == r.name);
    assert(back.ttl == r.ttl);
    match r.data {
        RData::Mx { preference, host } => {
            lemma_decimal_round_trip(preference as nat);
            assert(n.tokens[l - 2] == data[0]);
            assert(n.tokens[l - 1] == data[1]);
        },
        RData::Srv { priority, weight, port, target } => {
            lemma_decimal_round_trip(priority as nat);
            lemma_decimal_round_trip(weight as nat);
            lemma_decimal_round_trip(port as nat);
            assert(n.tokens[l - 4] == data[0]);
            assert(n.tokens[l - 3] == data[1]);
            assert(n.tokens[l - 2] == data[2]);
            assert(n.tokens[l - 1] == data[3]);
        },
        RData::Caa { flags, tag, value } => {
            lemma_decimal_round_trip(flags as nat);
            assert(n.tokens[l - 3] == data[0]);
            assert(n.tokens[l - 2] == data[1]);
            assert(n.tokens[l - 1] == data[2]);
        },
        RData::Ds { key_tag, algorithm, digest_type, digest } => {
            assert(n.tokens[l - 4] == data[0]);
            assert(n.tokens[l - 3] == data[1]);
            assert(n.tokens[l - 2] == data[2]);
            assert(n.tokens[l - 1] == data[3]);
        },
        RData::Txt { txt } => {},
        RData::Spf { data } => {},
        _ => {
            assert(n.tokens[l - 1] == data[0]);
        },
    }
    assert(back.data == r.data);
}

/// Round trip of a record. The line that is written for a record in read
/// form, read as a line of a zone file, adds that very record to the zone.
pub proof fn lemma_record_round_trip(z: ZoneView, r: RecordView)
    requires
        is_read_record(r, origin_or_empty(z)),
    ensures
        accumulate_line_spec(z, render_record(r).drop_last()) == with_record(z, r),
{
    let line = render_record(r).drop_last();
    let kind = r.kind();
    lemma_record_line_tokens(r);
    lemma_keyword_names_its_kind(kind);
    lemma_token_begins_with_no_space(r.name);
    lemma_line_is_no_directive(line, r.name);
    assert(!is_blank_spec(line)) by {
        assert(!is_whitespace_spec(line[0]));
    }
    lemma_line_has_shape(r);
    lemma_shape_gives_record(r, z.records(kind), origin_or_empty(z));
}

// ---------------------------------------------------------------------------
// What reading gives is in read form
// ---------------------------------------------------------------------------

/// Every token that a scan has finished is a token, and the token under way
/// is read as itself, up to the quote state of the scan.
pub proof fn lemma_scan_gives_tokens(text: Seq<char>)
    ensures
        forall|i: int|
            0 <= i < scan_tokens(text, None, true).done.len() ==> is_token(
                #[trigger] scan_tokens(text, None, true).done[i],
            ),
        scan_tokens(scan_tokens(text, None, true).cur, None, true) == (TokenScan {
            done: Seq::empty(),
            ..scan_tokens(text, None, true)
        }),
    decreases text.len(),
{
    let st = scan_tokens(text, None, true);
    if text.len() == 0 {
        assert(st.cur =~= Seq::<char>::empty());
    } else {
        lemma_scan_gives_tokens(text.drop_last());
        let before = scan_tokens(text.drop_last(), None, true);
        let c = text.last();
        if st.cur.len() > 0 && st.cur != before.cur {
            assert(st.cur == before.cur.push(c));
            assert(st.cur.drop_last() =~= before.cur);
        }
        assert forall|i: int| 0 <= i < st.done.len() implies is_token(#[trigger] st.done[i]) by {
            if i < before.done.len() {
                assert(st.done[i] == before.done[i]);
            }
        }
    }
}

/// The tokens of a line that ends outside quotes are tokens.
pub proof fn lemma_tokens_are_tokens(text: Seq<char>)
    requires
        ends_outside_quotes(text),
    ensures
        forall|i: int|
            0 <= i < split_args_spec(text, None, true).len() ==> is_token(
                #[trigger] split_args_spec(text, None, true)[i],
            ),
{
    lemma_scan_gives_tokens(text);
    let st = scan_tokens(text, None, true);
    let tokens = split_args_spec(text, None, true);
    assert forall|i: int| 0 <= i < tokens.len() implies is_token(#[trigger] tokens[i]) by {
        if i < st.done.len() {
            assert(tokens[i] == st.done[i]);
        }
    }
}

/// Tokens with single spaces between them are read as those tokens.
pub proof fn lemma_spaced_tokens_read(tokens: Seq<Seq<char>>)
    requires
        forall|i: int| 0 <= i < tokens.len() ==> is_token(#[trigger] tokens[i]),
    ensures
        reads_as(join_spec(tokens, " "@), tokens),
        is_spaced_text(join_spec(tokens, " "@)),
        (forall|i: int| 0 <= i < tokens.len() ==> is_plain(#[trigger] tokens[i])) ==> is_plain(
            join_spec(tokens, " "@),
        ),
    decreases tokens.len(),
{
    reveal_strlit(" ");
    if tokens.len() == 0 {
        assert(tokens =~= Seq::<Seq<char>>::empty());
    } else if tokens.len() == 1 {
        lemma_reads_token(tokens[0]);
        assert(tokens =~= seq![tokens[0]]);
    } else {
        let front = tokens.drop_last();
        assert forall|i: int| 0 <= i < front.len() implies is_token(#[trigger] front[i]) by {
            assert(front[i] == tokens[i]);
        }
        lemma_spaced_tokens_read(front);
        if forall|i: int| 0 <= i < tokens.len() ==> is_plain(#[trigger] tokens[i]) {
            assert forall|i: int| 0 <= i < front.len() implies is_plain(#[trigger] front[i]) by {
                assert(front[i] == tokens[i]);
            }
            assert(is_plain(tokens[tokens.len() - 1]));
        }
        lemma_reads_token(tokens.last());
        lemma_reads_join(join_spec(front, " "@), front, ' ', tokens.last(), seq![tokens.last()]);
        assert(join_spec(front, " "@) + " "@ + tokens.last() =~= join_spec(front, " "@).push(' ')
            + tokens.last());
        assert(front + seq![tokens.last()] =~= tokens);
    }
}

/// The first token of a line that begins with no white space stands at the
/// beginning of the line.
pub proof fn lemma_first_token_begins_line(text: Seq<char>)
    requires
        text.len() > 0,
        !is_whitespace_spec(text[0]),
    ensures
        split_args_spec(text, None, true).len() > 0,
        starts_with_spec(text, split_args_spec(text, None, true)[0]),
{
    lemma_first_token_scan(text);
    let st = scan_tokens(text, None, true);
    if st.done.len() == 0 {
        assert(text.subrange(0, text.len() as int) =~= text);
    }
}

/// While a scan has finished no token, the token under way is the text so
/// far; the first token it finishes stands at the beginning of the text.
proof fn lemma_first_token_scan(text: Seq<char>)
    requires
        text.len() > 0,
        !is_whitespace_spec(text[0]),
    ensures
        ({
            let st = scan_tokens(text, None, true);
            if st.done.len() == 0 {
                st.cur == text
            } else {
                starts_with_spec(text, st.done[0])
            }
        }),
    decreases text.len(),
{
    let st = scan_tokens(text, None, true);
    let front = text.drop_last();
    let before = scan_tokens(front, None, true);
    if text.len() == 1 {
        assert(front =~= Seq::<char>::empty());
        assert(before.cur.push(text[0]) =~= text);
    } else {
        assert(front[0] == text[0]);
        lemma_first_token_scan(front);
        if before.done.len() == 0 {
            assert(before.cur == front);
            if st.done.len() == 0 {
                assert(front.push(text.last()) =~= text);
            } else {
                assert(st.done[0] == front);
                assert(text.subrange(0, front.len() as int) =~= front);
            }
        } else {
            assert(st.done[0] == before.done[0]);
            let first = before.done[0];
            assert(text.subrange(0, first.len() as int) =~= front.subrange(0, first.len() as int));
        }
    }
}

/// An owner name that a record line can begin with: a token that begins no
/// directive.
pub open spec fn is_owner(name: Seq<char>) -> bool {
    is_token(name) && !starts_with_spec(name, "$ORIGIN"@) && !starts_with_spec(name, "$TTL"@)
}

/// A text that begins with a directive word begins with it still when more
/// follows.
proof fn lemma_prefix_of_prefix(text: Seq<char>, first: Seq<char>, word: Seq<char>)
    requires
        starts_with_spec(text, first),
        starts_with_spec(first, word),
    ensures
        starts_with_spec(text, word),
{
    assert(text.subrange(0, word.len() as int) =~= first.subrange(0, word.len() as int)) by {
        assert forall|i: int| 0 <= i < word.len() implies text[i] == first[i] by {
            assert(text.subrange(0, first.len() as int)[i] == text[i]);
        }
    }
}

/// The data that is read from tokens is in read form, and plain where the
/// tokens are plain.
proof fn lemma_data_from_tokens(kind: Kind, n: NormalizedView, name: Seq<char>, origin: Seq<char>)
    requires
        forall|i: int| 0 <= i < n.tokens.len() ==> is_token(#[trigger] n.tokens[i]),
        n.tokens.len() >= data_arity(kind),
        n.type_index < n.tokens.len(),
    ensures
        is_read_form(record_data(kind, n, name, origin)),
        (forall|i: int| 0 <= i < n.tokens.len() ==> is_plain(#[trigger] n.tokens[i]))
            ==> is_plain_data(record_data(kind, n, name, origin)),
{
    let l = n.tokens.len() as int;
    let all_plain = forall|i: int| 0 <= i < n.tokens.len() ==> is_plain(#[trigger] n.tokens[i]);
    match kind {
        Kind::Txt | Kind::Spf => {
            let rest = n.tokens.skip(n.type_index as int + 1);
            assert forall|i: int| 0 <= i < rest.len() implies is_token(#[trigger] rest[i]) by {
                assert(rest[i] == n.tokens[n.type_index as int + 1 + i]);
            }
            if all_plain {
                assert forall|i: int| 0 <= i < rest.len() implies is_plain(#[trigger] rest[i]) by {
                    assert(rest[i] == n.tokens[n.type_index as int + 1 + i]);
                }
            }
            lemma_spaced_tokens_read(rest);
        },
        Kind::Caa => {
            assert(is_token(n.tokens[l - 1]) && is_token(n.tokens[l - 2]));
            if all_plain {
                assert(is_plain(n.tokens[l - 1]) && is_plain(n.tokens[l - 2]));
            }
        },
        Kind::Ds => {
            assert(is_token(n.tokens[l - 1]) && is_token(n.tokens[l - 2]));
            assert(is_token(n.tokens[l - 3]) && is_token(n.tokens[l - 4]));
            if all_plain {
                assert(is_plain(n.tokens[l - 1]) && is_plain(n.tokens[l - 2]));
                assert(is_plain(n.tokens[l - 3]) && is_plain(n.tokens[l - 4]));
            }
        },
        _ => {
            assert(is_token(n.tokens[l - 1]));
            if all_plain {
                assert(is_plain(n.tokens[l - 1]));
            }
        },
    }
}

/// The owner that is read from a line that is no directive is an owner
/// name, where the owner that the line would inherit is one.
proof fn lemma_owner_from_line(line: Seq<char>, prev: Seq<RecordView>)
    requires
        ends_outside_quotes(line),
        !starts_with_spec(line, "$ORIGIN"@),
        !starts_with_spec(line, "$TTL"@),
        prev.len() > 0 ==> is_owner(prev.last().name),
    ensures
        is_owner(owner_name(normalize_spec(line), prev)),
        is_plain(line) && (prev.len() > 0 ==> is_plain(prev.last().name)) ==> is_plain(
            owner_name(normalize_spec(line), prev),
        ),
{
    let n = normalize_spec(line);
    let name = owner_name(n, prev);
    if n.has_name {
        lemma_tokens_are_tokens(line);
        lemma_first_token_begins_line(line);
        assert(is_token(n.tokens[0]));
        if starts_with_spec(name, "$ORIGIN"@) {
            lemma_prefix_of_prefix(line, name, "$ORIGIN"@);
        }
        if starts_with_spec(name, "$TTL"@) {
            lemma_prefix_of_prefix(line, name, "$TTL"@);
        }
        if is_plain(line) {
            lemma_tokens_of_plain_line(line);
            assert(is_plain(n.tokens[0]));
        }
    } else if prev.len() == 0 {
        reveal_strlit("@");
        reveal_strlit("$ORIGIN");
        reveal_strlit("$TTL");
        lemma_plain_text_is_token("@"@);
    }
}

/// What a record line gives is in read form. Let a line end outside quotes,
/// be no directive, and hold a record of some kind; let the owner that it
/// would inherit, if any, be an owner name. Then the record that is read
/// from it is in read form.
pub proof fn lemma_read_record_is_in_read_form(
    line: Seq<char>,
    kind: Kind,
    prev: Seq<RecordView>,
    origin: Seq<char>,
)
    requires
        ends_outside_quotes(line),
        !starts_with_spec(line, "$ORIGIN"@),
        !starts_with_spec(line, "$TTL"@),
        kind_of(normalize_spec(line).rr_type) == Some(kind),
        normalize_spec(line).tokens.len() >= data_arity(kind),
        prev.len() > 0 ==> is_owner(prev.last().name),
    ensures
        is_read_record(extract_record(kind, normalize_spec(line), prev, origin), origin),
{
    let n = normalize_spec(line);
    lemma_tokens_are_tokens(line);
    lemma_keyword_not_empty(n.rr_type);
    lemma_owner_from_line(line, prev);
    lemma_data_from_tokens(kind, n, owner_name(n, prev), origin);
}

/// Idempotence, line by line. Whatever record a line adds to a zone, the
/// line that is written for that record adds the same record again. This
/// holds of every record line that ends outside quotes, in a zone whose
/// last record of that kind, if there is one, has an owner name.
pub proof fn lemma_reading_is_idempotent(z: ZoneView, line: Seq<char>, kind: Kind)
    requires
        ends_outside_quotes(line),
        !starts_with_spec(line, "$ORIGIN"@),
        !starts_with_spec(line, "$TTL"@),
        kind_of(normalize_spec(line).rr_type) == Some(kind),
        normalize_spec(line).tokens.len() >= data_arity(kind),
        z.records(kind).len() > 0 ==> is_owner(z.records(kind).last().name),
    ensures
        ({
            let read = extract_record(
                kind,
                normalize_spec(line),
                z.records(kind),
                origin_or_empty(z),
            );
            &&& accumulate_line_spec(z, line) == with_record(z, read)
            &&& accumulate_line_spec(z, render_record(read).drop_last()) == with_record(z, read)
        }),
{
    let n = normalize_spec(line);
    let read = extract_record(kind, n, z.records(kind), origin_or_empty(z));
    lemma_read_record_is_in_read_form(line, kind, z.records(kind), origin_or_empty(z));
    lemma_record_round_trip(z, read);
    lemma_keyword_names_its_kind(kind);
    lemma_keyword_not_empty(n.rr_type);
    assert(!is_blank_spec(line)) by {
        if is_blank_spec(line) {
            crate::laws::lemma_blank_line_has_no_tokens(line);
        }
    }
    assert(n.rr_type != "SOA"@) by {
        crate::laws::lemma_soa_names_no_kind();
    }
}

// ---------------------------------------------------------------------------
// The lines of a list, read back
// ---------------------------------------------------------------------------

/// A plain line has no comment to lose.
pub proof fn lemma_plain_line_keeps_all(line: Seq<char>)
    requires
        is_plain(line),
    ensures
        scan_comment(line) == (StripScan {
            out: line,
            dq: scan_tokens(line, None, true).dq,
            sq: scan_tokens(line, None, true).sq,
            stopped: false,
        }),
        strip_comment_spec(line) == line,
    decreases line.len(),
{
    if line.len() == 0 {
        assert(line =~= Seq::<char>::empty());
    } else {
        let front = line.drop_last();
        assert(is_plain(front)) by {
            assert forall|i: int|
                0 <= i < front.len() && front[i] == ';' implies !ends_outside_quotes(
                #[trigger] front.take(i),
            ) by {
                assert(front.take(i) =~= line.take(i));
                assert(line[i] == ';');
            }
            assert forall|i: int| 0 <= i < front.len() implies front[i] != '\n' && front[i]
                != '\r' by {
                assert(front[i] == line[i]);
            }
        }
        lemma_plain_line_keeps_all(front);
        assert(line.take(line.len() - 1) =~= front);
        assert(front.push(line.last()) =~= line);
        assert(line[line.len() - 1] == line.last());
    }
}

/// A plain line that begins with no white space is no comment line, and
/// what it leaves behind is itself and a line feed.
pub proof fn lemma_plain_line_stays(line: Seq<char>)
    requires
        line.len() > 0,
        !is_whitespace_spec(line[0]),
        is_plain(line),
    ensures
        !is_comment_line(line),
        comment_free_line(line) == line.push('\n'),
{
    lemma_plain_line_keeps_all(line);
    assert forall|i: int| 0 <= i < line.len() && line[i] == ';' implies !is_blank_spec(
        #[trigger] line.take(i),
    ) by {
        if i == 0 {
            assert(line.take(0) =~= Seq::<char>::empty());
        } else {
            assert(line.take(i)[0] == line[0]);
        }
    }
}

/// A scan for lines keeps on with the line under way while no line feed
/// comes.
proof fn lemma_scan_lines_within_line(before: Seq<char>, line: Seq<char>)
    requires
        forall|i: int| 0 <= i < line.len() ==> line[i] != '\n',
    ensures
        scan_lines(before + line) == (Pieces {
            done: scan_lines(before).done,
            cur: scan_lines(before).cur + line,
        }),
    decreases line.len(),
{
    if line.len() == 0 {
        assert(before + line =~= before);
        assert(scan_lines(before).cur + line =~= scan_lines(before).cur);
    } else {
        let front = line.drop_last();
        assert forall|i: int| 0 <= i < front.len() implies front[i] != '\n' by {
            assert(front[i] == line[i]);
        }
        lemma_scan_lines_within_line(before, front);
        assert((before + line).drop_last() =~= before + front);
        assert((before + line).last() == line.last());
        assert(line[line.len() - 1] != '\n');
        assert((scan_lines(before).cur + front).push(line.last()) =~= scan_lines(before).cur
            + line);
    }
}

/// A text that ends its last line, then one more line and a line feed,
/// has the lines of the text and then that line.
pub proof fn lemma_lines_with_one_more(before: Seq<char>, line: Seq<char>)
    requires
        scan_lines(before).cur.len() == 0,
        forall|i: int| 0 <= i < line.len() ==> line[i] != '\n' && line[i] != '\r',
    ensures
        lines_spec(before + line.push('\n')) == lines_spec(before).push(line),
        scan_lines(before + line.push('\n')).cur.len() == 0,
{
    lemma_scan_lines_within_line(before, line);
    let whole = before + line.push('\n');
    assert(whole.drop_last() =~= before + line);
    assert(whole.last() == '\n');
    assert(scan_lines(before).cur + line =~= line);
    if line.len() > 0 {
        assert(line[line.len() - 1] != '\r');
    }
    assert(strip_cr(line) == line);
}

/// The zone with the given records added, one after the other.
pub open spec fn add_records(z: ZoneView, rs: Seq<RecordView>) -> ZoneView
    decreases rs.len(),
{
    if rs.len() == 0 {
        z
    } else {
        with_record(add_records(z, rs.drop_last()), rs.last())
    }
}

/// A record that can be written and read back: it is in read form under the
/// given origin, and nothing in it ends a line or begins a comment.
pub open spec fn is_writable_record(r: RecordView, origin: Seq<char>) -> bool {
    is_read_record(r, origin) && is_plain(r.name) && is_plain_data(r.data)
}

/// Adding records leaves the origin as it is.
proof fn lemma_add_records_keeps_origin(z: ZoneView, rs: Seq<RecordView>)
    ensures
        origin_or_empty(add_records(z, rs)) == origin_or_empty(z),
    decreases rs.len(),
{
    if rs.len() > 0 {
        lemma_add_records_keeps_origin(z, rs.drop_last());
    }
}

/// Round trip of a list. The lines that are written for a list of writable
/// records lose nothing when comments are removed, and reading them adds
/// those very records, in order.
pub proof fn lemma_list_round_trip(z: ZoneView, rs: Seq<RecordView>)
    requires
        forall|i: int|
            0 <= i < rs.len() ==> is_writable_record(#[trigger] rs[i], origin_or_empty(z)),
    ensures
        scan_lines(render_records(rs)).cur.len() == 0,
        comment_free_lines(lines_spec(render_records(rs))) == render_records(rs),
        remove_comments_spec(render_records(rs)) == render_records(rs),
        accumulate(z, lines_spec(render_records(rs))) == add_records(z, rs),
        accumulate(z, lines_spec(remove_comments_spec(render_records(rs)))) == add_records(z, rs),
    decreases rs.len(),
{
    if rs.len() == 0 {
        assert(lines_spec(render_records(rs)) =~= Seq::<Seq<char>>::empty());
    } else {
        let front = rs.drop_last();
        let r = rs.last();
        assert forall|i: int| 0 <= i < front.len() implies is_writable_record(
            #[trigger] front[i],
            origin_or_empty(z),
        ) by {
            assert(front[i] == rs[i]);
        }
        lemma_list_round_trip(z, front);
        assert(is_writable_record(rs[rs.len() - 1], origin_or_empty(z)));
        let before = render_records(front);
        let line = render_record(r).drop_last();
        lemma_record_line_tokens(r);
        lemma_token_begins_with_no_space(r.name);
        assert(render_record(r) =~= line.push('\n'));
        lemma_lines_with_one_more(before, line);
        lemma_plain_line_stays(line);
        let lines = lines_spec(render_records(rs));
        assert(lines == lines_spec(before).push(line));
        assert(lines.drop_last() =~= lines_spec(before));
        let zone = add_records(z, front);
        lemma_add_records_keeps_origin(z, front);
        lemma_record_round_trip(zone, r);
    }
}

/// Round trip of a list through the reader: see `lemma_list_round_trip`.
pub proof fn lemma_written_list_parses_back(rs: Seq<RecordView>)
    requires
        forall|i: int| 0 <= i < rs.len() ==> is_writable_record(#[trigger] rs[i], Seq::empty()),
    ensures
        parse_rrs_spec(remove_comments_spec(render_records(rs))) == add_records(
            ZoneView::empty(),
            rs,
        ),
{
    lemma_list_round_trip(ZoneView::empty(), rs);
}

// ---------------------------------------------------------------------------
// What is read from plain lines can be written and read back
// ---------------------------------------------------------------------------

/// The tokens of a plain text are plain.
proof fn lemma_scan_of_plain_text(text: Seq<char>)
    requires
        is_plain(text),
    ensures
        forall|i: int|
            0 <= i < scan_tokens(text, None, true).done.len() ==> is_plain(
                #[trigger] scan_tokens(text, None, true).done[i],
            ),
        is_plain(scan_tokens(text, None, true).cur),
    decreases text.len(),
{
    let st = scan_tokens(text, None, true);
    if text.len() > 0 {
        let front = text.drop_last();
        let c = text.last();
        assert(is_plain(front)) by {
            assert forall|i: int|
                0 <= i < front.len() && front[i] == ';' implies !ends_outside_quotes(
                #[trigger] front.take(i),
            ) by {
                assert(front.take(i) =~= text.take(i));
                assert(text[i] == ';');
            }
            assert forall|i: int| 0 <= i < front.len() implies front[i] != '\n' && front[i]
                != '\r' by {
                assert(front[i] == text[i]);
            }
        }
        lemma_scan_of_plain_text(front);
        lemma_scan_gives_tokens(front);
        let before = scan_tokens(front, None, true);
        assert(text[text.len() - 1] == c);
        assert(text.take(text.len() - 1) =~= front);
        if st.cur.len() > 0 && st.cur != before.cur {
            assert(st.cur == before.cur.push(c));
            assert forall|j: int|
                0 <= j < st.cur.len() && st.cur[j] == ';' implies !ends_outside_quotes(
                #[trigger] st.cur.take(j),
            ) by {
                if j < before.cur.len() {
                    assert(st.cur.take(j) =~= before.cur.take(j));
                    assert(before.cur[j] == ';');
                } else {
                    assert(st.cur.take(j) =~= before.cur);
                }
            }
        }
        assert forall|i: int| 0 <= i < st.done.len() implies is_plain(#[trigger] st.done[i]) by {
            if i < before.done.len() {
                assert(st.done[i] == before.done[i]);
            }
        }
    }
}

/// The tokens of a plain line are plain.
pub proof fn lemma_tokens_of_plain_line(text: Seq<char>)
    requires
        is_plain(text),
    ensures
        forall|i: int|
            0 <= i < split_args_spec(text, None, true).len() ==> is_plain(
                #[trigger] split_args_spec(text, None, true)[i],
            ),
{
    lemma_scan_of_plain_text(text);
    let st = scan_tokens(text, None, true);
    let tokens = split_args_spec(text, None, true);
    assert forall|i: int| 0 <= i < tokens.len() implies is_plain(#[trigger] tokens[i]) by {
        if i < st.done.len() {
            assert(tokens[i] == st.done[i]);
        }
    }
}

/// What a plain record line gives can be written and read back. Let a line
/// be plain, end outside quotes, be no directive, and hold a record of some
/// kind; let the owner that it would inherit, if any, be a plain owner
/// name. Then the record that is read from it is writable.
pub proof fn lemma_read_record_is_writable(
    line: Seq<char>,
    kind: Kind,
    prev: Seq<RecordView>,
    origin: Seq<char>,
)
    requires
        is_plain(line),
        ends_outside_quotes(line),
        !starts_with_spec(line, "$ORIGIN"@),
        !starts_with_spec(line, "$TTL"@),
        kind_of(normalize_spec(line).rr_type) == Some(kind),
        normalize_spec(line).tokens.len() >= data_arity(kind),
        prev.len() > 0 ==> is_owner(prev.last().name) && is_plain(prev.last().name),
    ensures
        is_writable_record(extract_record(kind, normalize_spec(line), prev, origin), origin),
{
    let n = normalize_spec(line);
    lemma_tokens_are_tokens(line);
    lemma_tokens_of_plain_line(line);
    lemma_keyword_not_empty(n.rr_type);
    lemma_owner_from_line(line, prev);
    lemma_data_from_tokens(kind, n, owner_name(n, prev), origin);
}

/// A record whose owner and data are fit to be written and read back,
/// whatever the origin.
pub open spec fn is_sound_record(r: RecordView) -> bool {
    is_owner(r.name) && is_plain(r.name) && is_read_form(r.data) && is_plain_data(r.data)
}

/// Every record of the zone is sound.
pub open spec fn is_sound_zone(z: ZoneView) -> bool {
    forall|k: Kind, i: int|
        0 <= i < z.records(k).len() ==> is_sound_record(#[trigger] z.records(k)[i])
}

/// Reading a plain line that ends outside quotes keeps a zone sound.
pub proof fn lemma_plain_line_keeps_zone_sound(z: ZoneView, line: Seq<char>)
    requires
        is_sound_zone(z),
        is_plain(line),
        ends_outside_quotes(line),
    ensures
        is_sound_zone(accumulate_line_spec(z, line)),
{
    let after = accumulate_line_spec(z, line);
    let n = normalize_spec(line);
    if after != z && !starts_with_spec(line, "$ORIGIN"@) && !starts_with_spec(line, "$TTL"@)
        && n.rr_type != "SOA"@ {
        let kind = kind_of(n.rr_type)->0;
        let prev = z.records(kind);
        let r = extract_record(kind, n, prev, origin_or_empty(z));
        if prev.len() > 0 {
            assert(is_sound_record(prev[prev.len() - 1]));
        }
        lemma_read_record_is_writable(line, kind, prev, origin_or_empty(z));
        assert(after == with_record(z, r));
        assert forall|k: Kind, i: int| 0 <= i < after.records(k).len() implies is_sound_record(
            #[trigger] after.records(k)[i],
        ) by {
            if k == kind {
                if i < prev.len() {
                    assert(after.records(k)[i] == z.records(k)[i]);
                }
            } else {
                assert(after.records(k) == z.records(k));
            }
        }
    } else {
        assert forall|k: Kind| after.records(k) == z.records(k) by {}
    }
}

/// Reading plain lines that end outside quotes gives a sound zone.
pub proof fn lemma_plain_lines_give_sound_zone(z: ZoneView, lines: Seq<Seq<char>>)
    requires
        is_sound_zone(z),
        forall|i: int|
            0 <= i < lines.len() ==> is_plain(#[trigger] lines[i]) && ends_outside_quotes(lines[i]),
    ensures
        is_sound_zone(accumulate(z, lines)),
    decreases lines.len(),
{
    if lines.len() > 0 {
        let front = lines.drop_last();
        assert forall|i: int| 0 <= i < front.len() implies is_plain(#[trigger] front[i])
            && ends_outside_quotes(front[i]) by {
            assert(front[i] == lines[i]);
        }
        lemma_plain_lines_give_sound_zone(z, front);
        assert(is_plain(lines[lines.len() - 1]) && ends_outside_quotes(lines[lines.len() - 1]));
        lemma_plain_line_keeps_zone_sound(accumulate(z, front), lines.last());
    }
}

/// Each list holds records of its own kind only.
pub open spec fn is_sorted_zone(z: ZoneView) -> bool {
    forall|k: Kind, i: int| 0 <= i < z.records(k).len() ==> (#[trigger] z.records(k)[i]).kind() == k
}

/// Reading keeps each record in the list of its kind.
pub proof fn lemma_lists_hold_their_kind(z: ZoneView, lines: Seq<Seq<char>>)
    requires
        is_sorted_zone(z),
    ensures
        is_sorted_zone(accumulate(z, lines)),
    decreases lines.len(),
{
    if lines.len() > 0 {
        lemma_lists_hold_their_kind(z, lines.drop_last());
        let before = accumulate(z, lines.drop_last());
        let after = accumulate_line_spec(before, lines.last());
        let n = normalize_spec(lines.last());
        assert forall|k: Kind, i: int| 0 <= i < after.records(k).len() implies (
        #[trigger] after.records(k)[i]).kind() == k by {
            if after.records(k) != before.records(k) {
                let r = extract_record(
                    kind_of(n.rr_type)->0,
                    n,
                    before.records(k),
                    origin_or_empty(before),
                );
                assert(after == with_record(before, r));
                if i < before.records(k).len() {
                    assert(after.records(k)[i] == before.records(k)[i]);
                }
            }
        }
    }
}

/// Idempotence of a list. Read a zone from plain lines that end outside
/// quotes; write the list of one kind other than PTR; read the written
/// lines. The records that this adds are the records of the list.
pub proof fn lemma_list_is_idempotent(lines: Seq<Seq<char>>, kind: Kind, again: ZoneView)
    requires
        forall|i: int|
            0 <= i < lines.len() ==> is_plain(#[trigger] lines[i]) && ends_outside_quotes(lines[i]),
        kind != Kind::Ptr,
    ensures
        ({
            let zone = accumulate(ZoneView::empty(), lines);
            let written = render_records(zone.records(kind));
            accumulate(again, lines_spec(remove_comments_spec(written))) == add_records(
                again,
                zone.records(kind),
            )
        }),
{
    let zone = accumulate(ZoneView::empty(), lines);
    assert(is_sound_zone(ZoneView::empty()));
    lemma_plain_lines_give_sound_zone(ZoneView::empty(), lines);
    lemma_lists_hold_their_kind(ZoneView::empty(), lines);
    let rs = zone.records(kind);
    assert forall|i: int| 0 <= i < rs.len() implies is_writable_record(
        #[trigger] rs[i],
        origin_or_empty(again),
    ) by {
        assert(is_sound_record(zone.records(kind)[i]));
    }
    lemma_list_round_trip(again, rs);
}

// ---------------------------------------------------------------------------
// The start of authority, read back
// ---------------------------------------------------------------------------

/// The tokens that a start of authority is written as, in the order of the
/// line: the owner, the time to live if there is one, the class, the type,
/// the two names, the serial and the four timers.
pub open spec fn soa_tokens(s: SoaView) -> Seq<Seq<char>> {
    let data = seq![
        "IN"@,
        "SOA"@,
        s.mname,
        s.rname,
        serial_text(s.serial),
        decimal_spec(s.refresh as nat),
        decimal_spec(s.retry as nat),
        decimal_spec(s.expire as nat),
        decimal_spec(s.minimum as nat),
    ];
    match s.ttl {
        Some(t) => seq![s.name, decimal_spec(t as nat)] + data,
        None => seq![s.name] + data,
    }
}

/// Round trip of the start of authority. A line that begins with no white
/// space, that is no directive, and whose tokens, with or without regard to
/// quotes, are the ones that a start of authority is written as, sets that
/// very start of authority. A serial that is kept as text must be a text
/// that denotes no number, for else it is read as a number.
pub proof fn lemma_soa_line_round_trip(z: ZoneView, line: Seq<char>, s: SoaView)
    requires
        line.len() > 0,
        !is_whitespace_spec(line[0]),
        !starts_with_spec(line, "$ORIGIN"@),
        !starts_with_spec(line, "$TTL"@),
        split_args_spec(line, None, true) == soa_tokens(s),
        split_whitespace_spec(line) == soa_tokens(s),
        match s.serial {
            SerialView::Text(t) => parse_u32_spec(t) is None,
            SerialView::Number(n) => true,
        },
    ensures
        accumulate_line_spec(z, line) == (ZoneView { soa: Some(s), ..z }),
{
    let tokens = soa_tokens(s);
    let n = normalize_spec(line);
    lemma_keyword_names_its_kind(Kind::Ns);
    lemma_decimal_round_trip(s.refresh as nat);
    lemma_decimal_round_trip(s.retry as nat);
    lemma_decimal_round_trip(s.expire as nat);
    lemma_decimal_round_trip(s.minimum as nat);
    match s.serial {
        SerialView::Number(v) => {
            lemma_decimal_round_trip(v as nat);
        },
        SerialView::Text(t) => {},
    }
    assert(!is_blank_spec(line)) by {
        assert(!is_whitespace_spec(line[0]));
    }
    match s.ttl {
        Some(t) => {
            lemma_decimal_round_trip(t as nat);
            assert(tokens.len() == 11);
            assert(tokens[1] == decimal_spec(t as nat));
            assert(tokens[2] == "IN"@);
            assert(tokens[3] == "SOA"@);
            assert(n.rr_type == "SOA"@);
        },
        None => {
            assert(tokens.len() == 10);
            assert(tokens[1] == "IN"@);
            assert(tokens[2] == "SOA"@);
            assert(n.rr_type == "SOA"@);
        },
    }
    let l = tokens.len() as int;
    assert(tokens[0] == s.name);
    assert(tokens[l - 7] == s.mname);
    assert(tokens[l - 6] == s.rname);
    assert(tokens[l - 5] == serial_text(s.serial));
    assert(tokens[l - 4] == decimal_spec(s.refresh as nat));
    assert(tokens[l - 3] == decimal_spec(s.retry as nat));
    assert(tokens[l - 2] == decimal_spec(s.expire as nat));
    assert(tokens[l - 1] == decimal_spec(s.minimum as nat));
    assert(soa_spec(tokens) == s);
}

} // verus!
