//! From a zone to zone-file text: one line for each record, put into a
//! template.

use crate::clock::{
    rfc3339, rfc3339_text, since_epoch, subsec_nanos, system_now, whole_seconds,
    NANOS_PER_SECOND,
};
use crate::dns_structs::{
    opt_records, record_views, serial_text, A, Aaaa, Caa, Cname, DnsRecord, Ds, Kind, Mx, Ns, Ptr,
    RData, RecordView, Soa, SoaView, Spf, Srv, Txt, ZoneView, DEFAULT_TEMPLATE,
};
use crate::engine::{replace_all, replaced_all};
use crate::number::{decimal_spec, push_decimal};
use crate::parser::keyword;
use crate::text::{from_chars, push_str, replace, replace_spec, to_chars};
use regex::Regex;
use vstd::prelude::*;

verus! {

// ---------------------------------------------------------------------------
// One line for each record
// ---------------------------------------------------------------------------

/// An owner name as it is written: `@` stands for the empty name.
pub open spec fn name_or_at(name: Seq<char>) -> Seq<char> {
    if name.len() == 0 {
        "@"@
    } else {
        name
    }
}

/// The field for a time to live: the number and a tab, or nothing.
pub open spec fn ttl_field(ttl: Option<u32>) -> Seq<char> {
    match ttl {
        Some(t) => decimal_spec(t as nat) + "\t"@,
        None => Seq::empty(),
    }
}

/// A record line up to its data: the owner, the time to live if any, the
/// class `IN` and the record's type, each followed by a tab.
pub open spec fn line_start(name: Seq<char>, ttl: Option<u32>, word: Seq<char>) -> Seq<char> {
    name_or_at(name) + "\t"@ + ttl_field(ttl) + "IN\t"@ + word + "\t"@
}

/// The data of a record, its fields separated by tabs.
pub open spec fn data_fields(data: RData) -> Seq<char> {
    match data {
        RData::Ns { host } => host,
        RData::A { ip } => ip,
        RData::Aaaa { ip } => ip,
        RData::Cname { alias } => alias,
        RData::Mx { preference, host } => decimal_spec(preference as nat) + "\t"@ + host,
        RData::Txt { txt } => txt,
        RData::Ptr { fullname, host } => host,
        RData::Srv { priority, weight, port, target } => decimal_spec(priority as nat) + "\t"@
            + decimal_spec(weight as nat) + "\t"@ + decimal_spec(port as nat) + "\t"@ + target,
        RData::Spf { data } => data,
        RData::Caa { flags, tag, value } => decimal_spec(flags as nat) + "\t"@ + tag + "\t"@
            + value,
        RData::Ds { key_tag, algorithm, digest_type, digest } => key_tag + "\t"@ + algorithm
            + "\t"@ + digest_type + "\t"@ + digest,
    }
}

/// The line of a record, ended by a line feed.
pub open spec fn render_record(r: RecordView) -> Seq<char> {
    line_start(r.name, r.ttl, keyword(r.kind())) + data_fields(r.data) + "\n"@
}

/// The lines of a list of records, in order.
pub open spec fn render_records(rs: Seq<RecordView>) -> Seq<char>
    decreases rs.len(),
{
    if rs.len() == 0 {
        Seq::empty()
    } else {
        render_records(rs.drop_last()) + render_record(rs.last())
    }
}

/// Appends the beginning of a record line to `out`; see `line_start`.
fn push_line_start(out: &mut Vec<char>, name: &str, ttl: Option<u32>, word: &str)
    ensures
        final(out)@ == old(out)@ + line_start(name@, ttl, word@),
{
    if name.is_empty() {
        push_str(out, "@");
    } else {
        push_str(out, name);
    }
    push_str(out, "\t");
    match ttl {
        Some(t) => {
            push_decimal(out, t as u64);
            push_str(out, "\t");
        },
        None => {},
    }
    push_str(out, "IN\t");
    push_str(out, word);
    push_str(out, "\t");
    assert(out@ =~= old(out)@ + line_start(name@, ttl, word@));
}

/// A record that can be written as a line of a zone file.
pub trait Render: View<V = RecordView> + Sized {
    /// Appends the line of the record to `out`.
    fn render(&self, out: &mut Vec<char>)
        ensures
            final(out)@ == old(out)@ + render_record(self@),
    ;
}

impl Render for Ns {
    fn render(&self, out: &mut Vec<char>) {
        push_line_start(out, self.name.as_str(), self.ttl, "NS");
        push_str(out, self.host.as_str());
        push_str(out, "\n");
        assert(out@ =~= old(out)@ + render_record(self@));
    }
}

impl Render for A {
    fn render(&self, out: &mut Vec<char>) {
        push_line_start(out, self.name.as_str(), self.ttl, "A");
        push_str(out, self.ip.as_str());
        push_str(out, "\n");
        assert(out@ =~= old(out)@ + render_record(self@));
    }
}

impl Render for Aaaa {
    fn render(&self, out: &mut Vec<char>) {
        push_line_start(out, self.name.as_str(), self.ttl, "AAAA");
        push_str(out, self.ip.as_str());
        push_str(out, "\n");
        assert(out@ =~= old(out)@ + render_record(self@));
    }
}

impl Render for Cname {
    fn render(&self, out: &mut Vec<char>) {
        push_line_start(out, self.name.as_str(), self.ttl, "CNAME");
        push_str(out, self.alias.as_str());
        push_str(out, "\n");
        assert(out@ =~= old(out)@ + render_record(self@));
    }
}

impl Render for Mx {
    fn render(&self, out: &mut Vec<char>) {
        push_line_start(out, self.name.as_str(), self.ttl, "MX");
        push_decimal(out, self.preference as u64);
        push_str(out, "\t");
        push_str(out, self.host.as_str());
        push_str(out, "\n");
        assert(out@ =~= old(out)@ + render_record(self@));
    }
}

impl Render for Ptr {
    fn render(&self, out: &mut Vec<char>) {
        push_line_start(out, self.name.as_str(), self.ttl, "PTR");
        push_str(out, self.host.as_str());
        push_str(out, "\n");
        assert(out@ =~= old(out)@ + render_record(self@));
    }
}

impl Render for Txt {
    fn render(&self, out: &mut Vec<char>) {
        push_line_start(out, self.name.as_str(), self.ttl, "TXT");
        push_str(out, self.txt.as_str());
        push_str(out, "\n");
        assert(out@ =~= old(out)@ + render_record(self@));
    }
}

impl Render for Srv {
    fn render(&self, out: &mut Vec<char>) {
        push_line_start(out, self.name.as_str(), self.ttl, "SRV");
        push_decimal(out, self.priority as u64);
        push_str(out, "\t");
        push_decimal(out, self.weight as u64);
        push_str(out, "\t");
        push_decimal(out, self.port as u64);
        push_str(out, "\t");
        push_str(out, self.target.as_str());
        push_str(out, "\n");
        assert(out@ =~= old(out)@ + render_record(self@));
    }
}

impl Render for Spf {
    fn render(&self, out: &mut Vec<char>) {
        push_line_start(out, self.name.as_str(), self.ttl, "SPF");
        push_str(out, self.data.as_str());
        push_str(out, "\n");
        assert(out@ =~= old(out)@ + render_record(self@));
    }
}

impl Render for Caa {
    fn render(&self, out: &mut Vec<char>) {
        push_line_start(out, self.name.as_str(), self.ttl, "CAA");
        push_decimal(out, self.flags as u64);
        push_str(out, "\t");
        push_str(out, self.tag.as_str());
        push_str(out, "\t");
        push_str(out, self.value.as_str());
        push_str(out, "\n");
        assert(out@ =~= old(out)@ + render_record(self@));
    }
}

impl Render for Ds {
    fn render(&self, out: &mut Vec<char>) {
        push_line_start(out, self.name.as_str(), self.ttl, "DS");
        push_str(out, self.key_tag.as_str());
        push_str(out, "\t");
        push_str(out, self.algorithm.as_str());
        push_str(out, "\t");
        push_str(out, self.digest_type.as_str());
        push_str(out, "\t");
        push_str(out, self.digest.as_str());
        push_str(out, "\n");
        assert(out@ =~= old(out)@ + render_record(self@));
    }
}

// ---------------------------------------------------------------------------
// Filling the template
// ---------------------------------------------------------------------------

/// The placeholder for the list of a kind.
pub open spec fn placeholder(kind: Kind) -> Seq<char> {
    match kind {
        Kind::Ns => "{ns}"@,
        Kind::A => "{a}"@,
        Kind::Aaaa => "{aaaa}"@,
        Kind::Cname => "{cname}"@,
        Kind::Mx => "{mx}"@,
        Kind::Txt => "{txt}"@,
        Kind::Ptr => "{ptr}"@,
        Kind::Srv => "{srv}"@,
        Kind::Spf => "{spf}"@,
        Kind::Caa => "{caa}"@,
        Kind::Ds => "{ds}"@,
    }
}

/// The template with the lines of a list in the place of its placeholder.
pub open spec fn fill_list(template: Seq<char>, kind: Kind, rs: Seq<RecordView>) -> Seq<char> {
    replace_spec(template, placeholder(kind), render_records(rs))
}

/// The template with the origin directive, or nothing, in the place of
/// `{$origin}`.
pub open spec fn fill_origin(template: Seq<char>, origin: Option<Seq<char>>) -> Seq<char> {
    replace_spec(
        template,
        "{$origin}"@,
        match origin {
            Some(o) => "$ORIGIN "@ + o,
            None => Seq::empty(),
        },
    )
}

/// The template with the directive for the default time to live, or
/// nothing, in the place of `{$ttl}`.
pub open spec fn fill_ttl(template: Seq<char>, ttl: Option<u32>) -> Seq<char> {
    replace_spec(
        template,
        "{$ttl}"@,
        match ttl {
            Some(t) => "$TTL "@ + decimal_spec(t as nat),
            None => Seq::empty(),
        },
    )
}

/// The nine fields of a start of authority, each followed by a tab, put in
/// the place of their placeholders, one placeholder after the other. A
/// template stays as it is where there is no start of authority.
pub open spec fn fill_soa(template: Seq<char>, soa: Option<SoaView>) -> Seq<char> {
    match soa {
        Some(s) => {
            let t = replace_spec(template, "{name}"@, name_or_at(s.name) + "\t"@);
            let t = replace_spec(
                t,
                "{ttl}"@,
                match s.ttl {
                    Some(v) => decimal_spec(v as nat),
                    None => Seq::empty(),
                } + "\t"@,
            );
            let t = replace_spec(t, "{mname}"@, s.mname + "\t"@);
            let t = replace_spec(t, "{rname}"@, s.rname + "\t"@);
            let t = replace_spec(t, "{serial}"@, serial_text(s.serial) + "\t"@);
            let t = replace_spec(t, "{refresh}"@, decimal_spec(s.refresh as nat) + "\t"@);
            let t = replace_spec(t, "{retry}"@, decimal_spec(s.retry as nat) + "\t"@);
            let t = replace_spec(t, "{expire}"@, decimal_spec(s.expire as nat) + "\t"@);
            replace_spec(t, "{minimum}"@, decimal_spec(s.minimum as nat) + "\t"@)
        },
        None => template,
    }
}

/// The name that stands for the zone: its origin, else the owner of its
/// start of authority, else nothing.
pub open spec fn zone_name(zone: ZoneView) -> Seq<char> {
    match zone.origin {
        Some(o) => o,
        None => match zone.soa {
            Some(s) => s.name,
            None => Seq::empty(),
        },
    }
}

/// The date and time that is written for an instant: nothing for an instant
/// that the calendar does not reach.
pub open spec fn datetime_text(secs: u64, nanos: u32) -> Seq<char> {
    if secs <= 0x7FFF_FFFF_FFFF_FFFF {
        match rfc3339_text(secs as i64, nanos) {
            Some(s) => s,
            None => Seq::empty(),
        }
    } else {
        Seq::empty()
    }
}

/// The template with the zone's name in the place of `{zone}`, then the
/// date and time of an instant in the place of `{datetime}`, then its
/// seconds since the start of 1970 in the place of `{time}`.
pub open spec fn fill_values(template: Seq<char>, zone: ZoneView, secs: u64, nanos: u32) -> Seq<
    char,
> {
    let t = replace_spec(template, "{zone}"@, zone_name(zone));
    let t = replace_spec(t, "{datetime}"@, datetime_text(secs, nanos));
    replace_spec(t, "{time}"@, decimal_spec(secs as nat))
}

/// The template with the directives and the start of authority of a zone
/// filled in.
pub open spec fn fill_head(template: Seq<char>, zone: ZoneView) -> Seq<char> {
    fill_soa(fill_ttl(fill_origin(template, zone.origin), zone.ttl), zone.soa)
}

/// The template with the lists of a zone filled in, in the order NS, A,
/// AAAA, CNAME, MX, PTR, TXT, SRV, SPF, CAA, DS. A list that the zone does
/// not have is filled in as an empty one.
pub open spec fn fill_lists(template: Seq<char>, zone: ZoneView) -> Seq<char> {
    let t = fill_list(template, Kind::Ns, zone.records(Kind::Ns));
    let t = fill_list(t, Kind::A, zone.records(Kind::A));
    let t = fill_list(t, Kind::Aaaa, zone.records(Kind::Aaaa));
    let t = fill_list(t, Kind::Cname, zone.records(Kind::Cname));
    let t = fill_list(t, Kind::Mx, zone.records(Kind::Mx));
    let t = fill_list(t, Kind::Ptr, zone.records(Kind::Ptr));
    let t = fill_list(t, Kind::Txt, zone.records(Kind::Txt));
    let t = fill_list(t, Kind::Srv, zone.records(Kind::Srv));
    let t = fill_list(t, Kind::Spf, zone.records(Kind::Spf));
    let t = fill_list(t, Kind::Caa, zone.records(Kind::Caa));
    fill_list(t, Kind::Ds, zone.records(Kind::Ds))
}

/// The template, filled from a zone: the directives and the start of
/// authority, then the lists, then the values of the moment.
pub open spec fn fill_template(template: Seq<char>, zone: ZoneView, secs: u64, nanos: u32) -> Seq<
    char,
> {
    fill_values(fill_lists(fill_head(template, zone), zone), zone, secs, nanos)
}

/// The template to fill: the one given, or the default.
pub open spec fn template_or_default(template: Option<&str>) -> Seq<char> {
    match template {
        Some(t) => t@,
        None => DEFAULT_TEMPLATE@,
    }
}

/// The text of a zone at an instant: the filled template, in which `re`
/// has put two line feeds for each of its matches.
pub open spec fn generate_spec(
    re: Regex,
    zone: ZoneView,
    template: Seq<char>,
    secs: u64,
    nanos: u32,
) -> Seq<char> {
    replaced_all(re, fill_template(template, zone, secs, nanos), "\n\n"@)
}

/// The template with `value` in the place of `placeholder`.
fn substitute(template: String, placeholder: &str, value: &[char]) -> (r: String)
    ensures
        r@ == replace_spec(template@, placeholder@, value@),
{
    let text = to_chars(template.as_str());
    let from = to_chars(placeholder);
    let out = replace(text.as_slice(), from.as_slice(), value);
    from_chars(out.as_slice())
}

/// The template with the lines of `data` in the place of `placeholder`.
fn substitute_list<R: Render>(data: &[R], placeholder: &str, template: String) -> (r: String)
    ensures
        r@ == replace_spec(template@, placeholder@, render_records(record_views(data@))),
{
    let mut block: Vec<char> = Vec::new();
    let mut i: usize = 0;
    while i < data.len()
        invariant
            i <= data.len(),
            block@ == render_records(record_views(data@).take(i as int)),
        decreases data.len() - i,
    {
        let ghost next = record_views(data@).take(i + 1);
        assert(next.drop_last() =~= record_views(data@).take(i as int));
        assert(next.last() == data@[i as int]@);
        data[i].render(&mut block);
        i += 1;
    }
    assert(record_views(data@).take(i as int) =~= record_views(data@));
    substitute(template, placeholder, block.as_slice())
}

/// Fills in the origin directive; see `fill_origin`.
pub fn process_origin(data: Option<&str>, template: String) -> (r: String)
    ensures
        r@ == fill_origin(
            template@,
            match data {
                Some(d) => Some(d@),
                None => None,
            },
        ),
{
    let mut value: Vec<char> = Vec::new();
    match data {
        Some(d) => {
            push_str(&mut value, "$ORIGIN ");
            push_str(&mut value, d);
        },
        None => {},
    }
    substitute(template, "{$origin}", value.as_slice())
}

/// Fills in the directive for the default time to live; see `fill_ttl`.
pub fn process_ttl(data: Option<u32>, template: String) -> (r: String)
    ensures
        r@ == fill_ttl(template@, data),
{
    let mut value: Vec<char> = Vec::new();
    match data {
        Some(d) => {
            push_str(&mut value, "$TTL ");
            push_decimal(&mut value, d as u64);
        },
        None => {},
    }
    substitute(template, "{$ttl}", value.as_slice())
}

/// The template with the decimal numeral of `n` and a tab in the place of
/// `placeholder`.
fn substitute_number(template: String, placeholder: &str, n: u32) -> (r: String)
    ensures
        r@ == replace_spec(template@, placeholder@, decimal_spec(n as nat) + "\t"@),
{
    let mut value: Vec<char> = Vec::new();
    push_decimal(&mut value, n as u64);
    push_str(&mut value, "\t");
    substitute(template, placeholder, value.as_slice())
}

/// The template with `text` and a tab in the place of `placeholder`.
fn substitute_text(template: String, placeholder: &str, text: &str) -> (r: String)
    ensures
        r@ == replace_spec(template@, placeholder@, text@ + "\t"@),
{
    let mut value: Vec<char> = Vec::new();
    push_str(&mut value, text);
    push_str(&mut value, "\t");
    substitute(template, placeholder, value.as_slice())
}

/// Fills in the start of authority; see `fill_soa`.
pub fn process_soa(data: Option<&Soa>, template: String) -> (r: String)
    ensures
        r@ == fill_soa(
            template@,
            match data {
                Some(s) => Some(s@),
                None => None,
            },
        ),
{
    match data {
        Some(soa) => {
            let name = if soa.name.as_str().is_empty() {
                "@"
            } else {
                soa.name.as_str()
            };
            let mut ttl: Vec<char> = Vec::new();
            match soa.ttl {
                Some(t) => push_decimal(&mut ttl, t as u64),
                None => {},
            }
            push_str(&mut ttl, "\t");
            let serial = soa.serial.to_text();
            let template = substitute_text(template, "{name}", name);
            let template = substitute(template, "{ttl}", ttl.as_slice());
            let template = substitute_text(template, "{mname}", soa.mname.as_str());
            let template = substitute_text(template, "{rname}", soa.rname.as_str());
            let template = substitute_text(template, "{serial}", serial.as_str());
            let template = substitute_number(template, "{refresh}", soa.refresh);
            let template = substitute_number(template, "{retry}", soa.retry);
            let template = substitute_number(template, "{expire}", soa.expire);
            substitute_number(template, "{minimum}", soa.minimum)
        },
        None => template,
    }
}

/// Fills in the NS records; see `fill_list`.
pub fn process_ns(data: &[Ns], template: String) -> (r: String)
    ensures
        r@ == fill_list(template@, Kind::Ns, record_views(data@)),
{
    substitute_list(data, "{ns}", template)
}

/// Fills in the A records; see `fill_list`.
pub fn process_a(data: &[A], template: String) -> (r: String)
    ensures
        r@ == fill_list(template@, Kind::A, record_views(data@)),
{
    substitute_list(data, "{a}", template)
}

/// Fills in the AAAA records; see `fill_list`.
pub fn process_aaaa(data: &[Aaaa], template: String) -> (r: String)
    ensures
        r@ == fill_list(template@, Kind::Aaaa, record_views(data@)),
{
    substitute_list(data, "{aaaa}", template)
}

/// Fills in the CNAME records; see `fill_list`.
pub fn process_cname(data: &[Cname], template: String) -> (r: String)
    ensures
        r@ == fill_list(template@, Kind::Cname, record_views(data@)),
{
    substitute_list(data, "{cname}", template)
}

/// Fills in the MX records; see `fill_list`.
pub fn process_mx(data: &[Mx], template: String) -> (r: String)
    ensures
        r@ == fill_list(template@, Kind::Mx, record_views(data@)),
{
    substitute_list(data, "{mx}", template)
}

/// Fills in the PTR records; see `fill_list`.
pub fn process_ptr(data: &[Ptr], template: String) -> (r: String)
    ensures
        r@ == fill_list(template@, Kind::Ptr, record_views(data@)),
{
    substitute_list(data, "{ptr}", template)
}

/// Fills in the TXT records; see `fill_list`.
pub fn process_txt(data: &[Txt], template: String) -> (r: String)
    ensures
        r@ == fill_list(template@, Kind::Txt, record_views(data@)),
{
    substitute_list(data, "{txt}", template)
}

/// Fills in the SRV records; see `fill_list`.
pub fn process_srv(data: &[Srv], template: String) -> (r: String)
    ensures
        r@ == fill_list(template@, Kind::Srv, record_views(data@)),
{
    substitute_list(data, "{srv}", template)
}

/// Fills in the SPF records; see `fill_list`.
pub fn process_spf(data: &[Spf], template: String) -> (r: String)
    ensures
        r@ == fill_list(template@, Kind::Spf, record_views(data@)),
{
    substitute_list(data, "{spf}", template)
}

/// Fills in the CAA records; see `fill_list`.
pub fn process_caa(data: &[Caa], template: String) -> (r: String)
    ensures
        r@ == fill_list(template@, Kind::Caa, record_views(data@)),
{
    substitute_list(data, "{caa}", template)
}

/// Fills in the DS records; see `fill_list`.
pub fn process_ds(data: &[Ds], template: String) -> (r: String)
    ensures
        r@ == fill_list(template@, Kind::Ds, record_views(data@)),
{
    substitute_list(data, "{ds}", template)
}

/// Fills in the values of a given instant; see `fill_values`.
pub fn process_values_at(options: &DnsRecord, template: String, secs: u64, nanos: u32) -> (r:
    String)
    ensures
        r@ == fill_values(template@, options@, secs, nanos),
{
    let zone: &str = match &options.origin {
        Some(o) => o.as_str(),
        None => match &options.soa {
            Some(s) => s.name.as_str(),
            None => "",
        },
    };
    proof {
        reveal_strlit("");
        assert(""@ =~= Seq::<char>::empty());
    }
    let zone_chars = to_chars(zone);
    let datetime = if secs <= 0x7FFF_FFFF_FFFF_FFFF {
        match rfc3339(secs as i64, nanos) {
            Some(s) => s,
            None => String::new(),
        }
    } else {
        String::new()
    };
    let datetime_chars = to_chars(datetime.as_str());
    let mut time: Vec<char> = Vec::new();
    push_decimal(&mut time, secs);
    let template = substitute(template, "{zone}", zone_chars.as_slice());
    let template = substitute(template, "{datetime}", datetime_chars.as_slice());
    substitute(template, "{time}", time.as_slice())
}

/// The seconds and nanoseconds that the system clock stands after the start
/// of 1970; zero for a clock that stands before it. Which instant that is
/// depends on the moment of the call; whichever it is, its nanoseconds are
/// part of a second.
fn unix_time() -> (r: (u64, u32))
    ensures
        r.1 < NANOS_PER_SECOND,
{
    let now = system_now();
    match since_epoch(&now) {
        Some(d) => (whole_seconds(&d), subsec_nanos(&d)),
        None => (0, 0),
    }
}

/// Fills in the values of the present moment: the result is what
/// `fill_values` gives for some instant whose nanoseconds are part of a
/// second.
pub fn process_values(options: &DnsRecord, template: String) -> (r: String)
    ensures
        exists|secs: u64, nanos: u32|
            nanos < NANOS_PER_SECOND && r@ == fill_values(template@, options@, secs, nanos),
{
    let (secs, nanos) = unix_time();
    process_values_at(options, template, secs, nanos)
}

/// Fills in the directives and the start of authority; see `fill_head`.
fn process_head(options: &DnsRecord, template: String) -> (r: String)
    ensures
        r@ == fill_head(template@, options@),
{
    let template = process_origin(
        match &options.origin {
            Some(o) => Some(o.as_str()),
            None => None,
        },
        template,
    );
    let template = process_ttl(options.ttl, template);
    process_soa(options.soa.as_ref(), template)
}

/// The records of a list, or those of the empty list where there is none.
fn records_or_none<'a, R: View<V = RecordView>>(list: &'a Option<Vec<R>>, none: &'a Vec<R>) -> (r:
    &'a [R])
    requires
        none@.len() == 0,
    ensures
        record_views(r@) == match opt_records(*list) {
            Some(l) => l,
            None => Seq::empty(),
        },
{
    match list {
        Some(v) => v.as_slice(),
        None => {
            assert(record_views(none@) =~= Seq::empty());
            none.as_slice()
        },
    }
}

/// Fills in the lists; see `fill_lists`.
fn process_lists(options: &DnsRecord, template: String) -> (r: String)
    ensures
        r@ == fill_lists(template@, options@),
{
    let none_ns: Vec<Ns> = Vec::new();
    let none_a: Vec<A> = Vec::new();
    let none_aaaa: Vec<Aaaa> = Vec::new();
    let none_cname: Vec<Cname> = Vec::new();
    let none_mx: Vec<Mx> = Vec::new();
    let none_ptr: Vec<Ptr> = Vec::new();
    let none_txt: Vec<Txt> = Vec::new();
    let none_srv: Vec<Srv> = Vec::new();
    let none_spf: Vec<Spf> = Vec::new();
    let none_caa: Vec<Caa> = Vec::new();
    let none_ds: Vec<Ds> = Vec::new();
    proof {
        options.lemma_records_of_lists();
    }
    let template = process_ns(records_or_none(&options.ns, &none_ns), template);
    let template = process_a(records_or_none(&options.a, &none_a), template);
    let template = process_aaaa(records_or_none(&options.aaaa, &none_aaaa), template);
    let template = process_cname(records_or_none(&options.cname, &none_cname), template);
    let template = process_mx(records_or_none(&options.mx, &none_mx), template);
    let template = process_ptr(records_or_none(&options.ptr, &none_ptr), template);
    let template = process_txt(records_or_none(&options.txt, &none_txt), template);
    let template = process_srv(records_or_none(&options.srv, &none_srv), template);
    let template = process_spf(records_or_none(&options.spf, &none_spf), template);
    let template = process_caa(records_or_none(&options.caa, &none_caa), template);
    process_ds(records_or_none(&options.ds, &none_ds), template)
}

/// Writes the zone as it is written at a given instant; see
/// `generate_spec`.
pub fn generate_at(
    re: &Regex,
    options: &DnsRecord,
    template: Option<&str>,
    secs: u64,
    nanos: u32,
) -> (r: String)
    ensures
        r@ == generate_spec(*re, options@, template_or_default(template), secs, nanos),
{
    let template = match template {
        Some(t) => t,
        None => DEFAULT_TEMPLATE,
    };
    let filled = process_head(options, template.to_owned());
    let filled = process_lists(options, filled);
    let filled = process_values_at(options, filled, secs, nanos);
    replace_all(re, filled.as_str(), "\n\n")
}

/// Writes the zone as it is written now: the result is what
/// `generate_spec` gives for some instant whose nanoseconds are part of a
/// second.
pub fn generate(re: &Regex, options: &DnsRecord, template: Option<&str>) -> (r: String)
    ensures
        exists|secs: u64, nanos: u32|
            nanos < NANOS_PER_SECOND && r@ == generate_spec(
                *re,
                options@,
                template_or_default(template),
                secs,
                nanos,
            ),
{
    let (secs, nanos) = unix_time();
    generate_at(re, options, template, secs, nanos)
}

} // verus!
