//! What holds of reading a zone file, whatever the text.

use crate::dns_structs::{Kind, ZoneView};
use crate::engine::first_group;
use crate::number::parse_u32_spec;
use crate::parser::{
    accumulate, accumulate_line_spec, comment_free_line, comment_free_lines, data_arity,
    extract_record, is_comment_line, kind_of, normalize_spec, origin_or_empty, parse_flat_spec,
    parse_rrs_spec, parse_spec, record_ttl, remove_comments_spec, scan_comment, strip_comment_spec,
    ttl_slot, with_record,
};
use crate::text::{
    is_blank_spec, is_whitespace_spec, lines_spec, scan_lines, starts_with_spec, strip_cr,
};
use regex::Regex;
use vstd::prelude::*;

verus! {

// ---------------------------------------------------------------------------
// Lines that begin with white space
// ---------------------------------------------------------------------------

/// A line that begins with white space is no directive.
pub proof fn lemma_indented_line_is_no_directive(line: Seq<char>)
    requires
        line.len() > 0,
        is_whitespace_spec(line[0]),
    ensures
        !starts_with_spec(line, "$ORIGIN"@),
        !starts_with_spec(line, "$TTL"@),
{
    reveal_strlit("$ORIGIN");
    reveal_strlit("$TTL");
    if starts_with_spec(line, "$ORIGIN"@) {
        assert(line.subrange(0, 7)[0] == '$');
    }
    if starts_with_spec(line, "$TTL"@) {
        assert(line.subrange(0, 4)[0] == '$');
    }
}

/// The keyword of the start of authority names no listed kind.
pub proof fn lemma_soa_names_no_kind()
    ensures
        kind_of("SOA"@) is None,
{
    reveal_strlit("SOA");
    reveal_strlit("NS");
    reveal_strlit("A");
    reveal_strlit("AAAA");
    reveal_strlit("CNAME");
    reveal_strlit("MX");
    reveal_strlit("TXT");
    reveal_strlit("PTR");
    reveal_strlit("SRV");
    reveal_strlit("SPF");
    reveal_strlit("CAA");
    reveal_strlit("DS");
    assert("SOA"@[0] == 'S' && "SOA"@[1] == 'O');
    assert("TXT"@[0] == 'T');
    assert("PTR"@[0] == 'P');
    assert("SRV"@[1] == 'R');
    assert("SPF"@[1] == 'P');
    assert("CAA"@[0] == 'C');
}

/// Owner-name inheritance. A record line that begins with white space adds
/// one record to the list of its kind, and to no other list; the owner of
/// that record is the owner of the record that was last in that list, or
/// `@` where the list had none.
pub proof fn lemma_owner_name_inherited(z: ZoneView, line: Seq<char>, kind: Kind)
    requires
        line.len() > 0,
        is_whitespace_spec(line[0]),
        kind_of(normalize_spec(line).rr_type) == Some(kind),
        normalize_spec(line).tokens.len() >= data_arity(kind),
    ensures
        ({
            let after = accumulate_line_spec(z, line);
            let added = after.records(kind).last();
            &&& after.records(kind) == z.records(kind).push(added)
            &&& added.name == if z.records(kind).len() > 0 {
                z.records(kind).last().name
            } else {
                "@"@
            }
            &&& forall|k: Kind|
                k != kind ==> after.lists.dom().contains(k) == z.lists.dom().contains(k)
                    && after.records(k) == z.records(k)
            &&& after.origin == z.origin && after.ttl == z.ttl && after.soa == z.soa
        }),
{
    let n = normalize_spec(line);
    lemma_indented_line_is_no_directive(line);
    lemma_soa_names_no_kind();
    crate::parser::lemma_keyword_not_empty(n.rr_type);
    assert(!is_blank_spec(line)) by {
        // A blank line has no tokens, so no token names its type.
        if is_blank_spec(line) {
            lemma_blank_line_has_no_tokens(line);
        }
    }
    let rec = extract_record(kind, n, z.records(kind), origin_or_empty(z));
    assert(rec.kind() == kind);
    assert(accumulate_line_spec(z, line) == with_record(z, rec));
}

/// A blank line has no tokens.
pub proof fn lemma_blank_line_has_no_tokens(line: Seq<char>)
    requires
        is_blank_spec(line),
    ensures
        crate::parser::split_args_spec(line, None, true).len() == 0,
        normalize_spec(line).rr_type.len() == 0,
{
    lemma_blank_scan(line);
}

/// The scan of a blank line finishes no token and has none under way.
proof fn lemma_blank_scan(line: Seq<char>)
    requires
        is_blank_spec(line),
    ensures
        crate::parser::scan_tokens(line, None, true) == (crate::parser::TokenScan {
            done: Seq::empty(),
            cur: Seq::empty(),
            dq: false,
            sq: false,
        }),
    decreases line.len(),
{
    if line.len() > 0 {
        assert(is_blank_spec(line.drop_last())) by {
            assert forall|i: int| 0 <= i < line.drop_last().len() implies is_whitespace_spec(
                #[trigger] line.drop_last()[i],
            ) by {
                assert(line.drop_last()[i] == line[i]);
            }
        }
        lemma_blank_scan(line.drop_last());
        assert(is_whitespace_spec(line[line.len() - 1]));
        assert(line.last() != '"' && line.last() != '\'');
    }
}

// ---------------------------------------------------------------------------
// The time to live
// ---------------------------------------------------------------------------

/// Detection of the time to live. The token in the slot after the owner
/// name is taken for the time to live exactly when it denotes a number that
/// fits 32 bits; the record then has that number, and the type is looked for
/// behind it. Any other token in that slot is taken for the class or the
/// type, and the record has no time to live.
pub proof fn lemma_ttl_detection(line: Seq<char>)
    ensures
        ({
            let n = normalize_spec(line);
            let slot = ttl_slot(n.has_name);
            &&& n.has_ttl <==> (slot < n.tokens.len() && parse_u32_spec(n.tokens[slot]) is Some)
            &&& n.has_ttl ==> record_ttl(n) == parse_u32_spec(n.tokens[slot])
                && record_ttl(n) is Some && n.type_index > slot
            &&& !n.has_ttl ==> record_ttl(n) is None
            &&& !n.has_ttl && slot < n.tokens.len() ==> if n.tokens[slot] == "IN"@ {
                n.type_index == slot + 1
            } else {
                n.type_index == slot && n.rr_type == n.tokens[slot]
            }
        }),
{
}

// ---------------------------------------------------------------------------
// Lines that are passed over
// ---------------------------------------------------------------------------

/// Tolerance of unknown types. A line that is no directive and whose type
/// is neither `SOA` nor the keyword of a listed kind leaves the zone as it
/// is.
pub proof fn lemma_unknown_type_ignored(z: ZoneView, line: Seq<char>)
    requires
        !starts_with_spec(line, "$ORIGIN"@),
        !starts_with_spec(line, "$TTL"@),
        normalize_spec(line).rr_type != "SOA"@,
        kind_of(normalize_spec(line).rr_type) is None,
    ensures
        accumulate_line_spec(z, line) == z,
{
}

/// Reading lines one after the other is reading a first part and then the
/// rest.
pub proof fn lemma_accumulate_append(z: ZoneView, first: Seq<Seq<char>>, rest: Seq<Seq<char>>)
    ensures
        accumulate(z, first + rest) == accumulate(accumulate(z, first), rest),
    decreases rest.len(),
{
    if rest.len() == 0 {
        assert(first + rest =~= first);
    } else {
        lemma_accumulate_append(z, first, rest.drop_last());
        assert((first + rest).drop_last() =~= first + rest.drop_last());
        assert((first + rest).last() == rest.last());
    }
}

/// A line of unknown type changes nothing for the lines around it: the zone
/// is the one that the other lines give without it.
pub proof fn lemma_unknown_type_leaves_neighbours(
    z: ZoneView,
    before: Seq<Seq<char>>,
    line: Seq<char>,
    after: Seq<Seq<char>>,
)
    requires
        !starts_with_spec(line, "$ORIGIN"@),
        !starts_with_spec(line, "$TTL"@),
        normalize_spec(line).rr_type != "SOA"@,
        kind_of(normalize_spec(line).rr_type) is None,
    ensures
        accumulate(z, before.push(line) + after) == accumulate(z, before + after),
{
    lemma_accumulate_append(z, before.push(line), after);
    lemma_accumulate_append(z, before, after);
    assert(before.push(line).drop_last() =~= before);
    lemma_unknown_type_ignored(accumulate(z, before), line);
}

// ---------------------------------------------------------------------------
// Texts that hold nothing
// ---------------------------------------------------------------------------

/// Blank lines leave a zone as it is.
pub proof fn lemma_blank_lines_ignored(z: ZoneView, lines: Seq<Seq<char>>)
    requires
        forall|i: int| 0 <= i < lines.len() ==> is_blank_spec(#[trigger] lines[i]),
    ensures
        accumulate(z, lines) == z,
    decreases lines.len(),
{
    if lines.len() > 0 {
        assert forall|i: int| 0 <= i < lines.drop_last().len() implies is_blank_spec(
            #[trigger] lines.drop_last()[i],
        ) by {
            assert(lines.drop_last()[i] == lines[i]);
        }
        lemma_blank_lines_ignored(z, lines.drop_last());
        assert(is_blank_spec(lines[lines.len() - 1]));
    }
}

/// The lines of a text that is all white space are blank.
pub proof fn lemma_lines_of_blank_text(text: Seq<char>)
    requires
        is_blank_spec(text),
    ensures
        forall|i: int|
            0 <= i < lines_spec(text).len() ==> is_blank_spec(#[trigger] lines_spec(text)[i]),
{
    lemma_scan_of_blank_text(text);
}

/// A scan for lines holds only white space where the text does.
proof fn lemma_scan_of_blank_text(text: Seq<char>)
    requires
        is_blank_spec(text),
    ensures
        is_blank_spec(scan_lines(text).cur),
        forall|i: int|
            0 <= i < scan_lines(text).done.len() ==> is_blank_spec(
                #[trigger] scan_lines(text).done[i],
            ),
    decreases text.len(),
{
    if text.len() > 0 {
        assert forall|i: int| 0 <= i < text.drop_last().len() implies is_whitespace_spec(
            #[trigger] text.drop_last()[i],
        ) by {
            assert(text.drop_last()[i] == text[i]);
        }
        lemma_scan_of_blank_text(text.drop_last());
        let before = scan_lines(text.drop_last());
        assert(is_whitespace_spec(text[text.len() - 1]));
        assert forall|i: int| 0 <= i < strip_cr(before.cur).len() implies is_whitespace_spec(
            #[trigger] strip_cr(before.cur)[i],
        ) by {
            assert(strip_cr(before.cur)[i] == before.cur[i]);
        }
    }
}

/// A line that is all white space has no comment to lose.
pub proof fn lemma_blank_line_keeps_all(line: Seq<char>)
    requires
        is_blank_spec(line),
    ensures
        scan_comment(line) == (crate::parser::StripScan {
            out: line,
            dq: false,
            sq: false,
            stopped: false,
        }),
    decreases line.len(),
{
    if line.len() > 0 {
        assert forall|i: int| 0 <= i < line.drop_last().len() implies is_whitespace_spec(
            #[trigger] line.drop_last()[i],
        ) by {
            assert(line.drop_last()[i] == line[i]);
        }
        lemma_blank_line_keeps_all(line.drop_last());
        assert(is_whitespace_spec(line[line.len() - 1]));
        assert(line.drop_last().push(line.last()) =~= line);
    } else {
        assert(line =~= Seq::<char>::empty());
    }
}

/// What is left of lines that are comment lines or blank is all white
/// space.
pub proof fn lemma_comment_free_lines_blank(lines: Seq<Seq<char>>)
    requires
        forall|i: int|
            0 <= i < lines.len() ==> is_comment_line(#[trigger] lines[i]) || is_blank_spec(
                lines[i],
            ),
    ensures
        is_blank_spec(comment_free_lines(lines)),
    decreases lines.len(),
{
    if lines.len() > 0 {
        assert forall|i: int| 0 <= i < lines.drop_last().len() implies is_comment_line(
            #[trigger] lines.drop_last()[i],
        ) || is_blank_spec(lines.drop_last()[i]) by {
            assert(lines.drop_last()[i] == lines[i]);
        }
        lemma_comment_free_lines_blank(lines.drop_last());
        let last = lines[lines.len() - 1];
        assert(is_comment_line(last) || is_blank_spec(last));
        if !is_comment_line(last) {
            lemma_blank_line_keeps_all(last);
            assert(strip_comment_spec(last) == last);
        }
        let head = comment_free_lines(lines.drop_last());
        let tail = comment_free_line(lines.last());
        assert forall|i: int| 0 <= i < (head + tail).len() implies is_whitespace_spec(
            #[trigger] (head + tail)[i],
        ) by {
            if i < head.len() {
                assert((head + tail)[i] == head[i]);
            } else {
                assert((head + tail)[i] == tail[i - head.len()]);
                if i - head.len() < last.len() {
                    assert(tail[i - head.len()] == last[i - head.len()]);
                }
            }
        }
    }
}

/// Rejection of texts that hold nothing. Of a text in which every line is a
/// comment line or blank (the empty text is one), nothing but white space
/// is left once the comments are gone, and reading the rest gives the
/// error. So does parsing the text, where the expression for the start of
/// authority captures nothing in what is left.
pub proof fn lemma_comment_only_text_rejected(re_ws: Regex, re_soa: Regex, text: Seq<char>)
    requires
        forall|i: int|
            0 <= i < lines_spec(text).len() ==> is_comment_line(#[trigger] lines_spec(text)[i])
                || is_blank_spec(lines_spec(text)[i]),
    ensures
        is_blank_spec(remove_comments_spec(text)),
        parse_rrs_spec(remove_comments_spec(text)).is_empty(),
        parse_flat_spec(remove_comments_spec(text)) is Err,
        first_group(re_soa, remove_comments_spec(text)) is None ==> parse_spec(
            re_ws,
            re_soa,
            text,
        ) is Err,
{
    let left = remove_comments_spec(text);
    lemma_comment_free_lines_blank(lines_spec(text));
    lemma_lines_of_blank_text(left);
    lemma_blank_lines_ignored(ZoneView::empty(), lines_spec(left));
}

} // verus!
