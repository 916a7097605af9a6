//! The records of a zone and their mathematical views.

use crate::number::{decimal, decimal_spec, parse_u32, parse_u32_spec};
use crate::text::{from_chars, to_chars};
use vstd::prelude::*;

verus! {

/// The kinds of record that are kept in lists.
#[derive(Debug, PartialEq, Eq, Clone, Copy, Structural)]
pub enum Kind {
    Ns,
    A,
    Aaaa,
    Cname,
    Mx,
    Txt,
    Ptr,
    Srv,
    Spf,
    Caa,
    Ds,
}

/// What a record holds besides its owner name and its time to live.
pub enum RData {
    Ns { host: Seq<char> },
    A { ip: Seq<char> },
    Aaaa { ip: Seq<char> },
    Cname { alias: Seq<char> },
    Mx { preference: u16, host: Seq<char> },
    Txt { txt: Seq<char> },
    Ptr { fullname: Seq<char>, host: Seq<char> },
    Srv { priority: u16, weight: u16, port: u16, target: Seq<char> },
    Spf { data: Seq<char> },
    Caa { flags: u8, tag: Seq<char>, value: Seq<char> },
    Ds { key_tag: Seq<char>, algorithm: Seq<char>, digest_type: Seq<char>, digest: Seq<char> },
}

/// A listed record as a mathematical value.
pub struct RecordView {
    pub name: Seq<char>,
    pub ttl: Option<u32>,
    pub data: RData,
}

impl RecordView {
    /// The kind of the record, as its data tells.
    pub open spec fn kind(self) -> Kind {
        match self.data {
            RData::Ns { .. } => Kind::Ns,
            RData::A { .. } => Kind::A,
            RData::Aaaa { .. } => Kind::Aaaa,
            RData::Cname { .. } => Kind::Cname,
            RData::Mx { .. } => Kind::Mx,
            RData::Txt { .. } => Kind::Txt,
            RData::Ptr { .. } => Kind::Ptr,
            RData::Srv { .. } => Kind::Srv,
            RData::Spf { .. } => Kind::Spf,
            RData::Caa { .. } => Kind::Caa,
            RData::Ds { .. } => Kind::Ds,
        }
    }
}

/// The views of a list of records.
pub open spec fn record_views<R: View<V = RecordView>>(v: Seq<R>) -> Seq<RecordView> {
    v.map_values(|r: R| r@)
}

/// The serial of a start of authority as a mathematical value.
pub enum SerialView {
    Number(u32),
    Text(Seq<char>),
}

/// A serial is a number where its token denotes one that fits 32 bits, and
/// the token itself otherwise.
pub open spec fn serial_spec(token: Seq<char>) -> SerialView {
    match parse_u32_spec(token) {
        Some(n) => SerialView::Number(n),
        None => SerialView::Text(token),
    }
}

/// The text that stands for a serial.
pub open spec fn serial_text(serial: SerialView) -> Seq<char> {
    match serial {
        SerialView::Number(n) => decimal_spec(n as nat),
        SerialView::Text(s) => s,
    }
}

/// The serial of a start of authority: a number, or any other text.
#[derive(Debug, PartialEq, Clone)]
pub enum Serial {
    Number(u32),
    String(String),
}

impl View for Serial {
    type V = SerialView;

    open spec fn view(&self) -> SerialView {
        match self {
            Serial::Number(n) => SerialView::Number(*n),
            Serial::String(s) => SerialView::Text(s@),
        }
    }
}

impl Default for Serial {
    fn default() -> (r: Self)
        ensures
            r@ == SerialView::Number(0),
    {
        Serial::Number(0)
    }
}

impl Serial {
    /// Reads a serial from its token.
    pub fn parse(s: &str) -> (r: Self)
        ensures
            r@ == serial_spec(s@),
    {
        let chars = to_chars(s);
        match parse_u32(chars.as_slice()) {
            Some(n) => Serial::Number(n),
            None => Serial::String(from_chars(chars.as_slice())),
        }
    }

    /// The text that stands for the serial in a zone file.
    pub fn to_text(&self) -> (r: String)
        ensures
            r@ == serial_text(self@),
    {
        match self {
            Serial::Number(n) => {
                let digits = decimal(*n as u64);
                from_chars(digits.as_slice())
            },
            Serial::String(s) => s.clone(),
        }
    }
}

impl std::str::FromStr for Serial {
    type Err = ();

    fn from_str(s: &str) -> (r: Result<Self, ()>)
        ensures
            r matches Ok(serial) && serial@ == serial_spec(s@),
    {
        Ok(Serial::parse(s))
    }
}

/// A start of authority as a mathematical value.
pub struct SoaView {
    pub name: Seq<char>,
    pub ttl: Option<u32>,
    pub mname: Seq<char>,
    pub rname: Seq<char>,
    pub serial: SerialView,
    pub refresh: u32,
    pub retry: u32,
    pub expire: u32,
    pub minimum: u32,
}

/// The start of authority of a zone.
#[derive(Debug, PartialEq, Clone)]
pub struct Soa {
    pub name: String,
    pub ttl: Option<u32>,
    pub mname: String,
    pub rname: String,
    pub serial: Serial,
    pub refresh: u32,
    pub retry: u32,
    pub expire: u32,
    pub minimum: u32,
}

impl View for Soa {
    type V = SoaView;

    open spec fn view(&self) -> SoaView {
        SoaView {
            name: self.name@,
            ttl: self.ttl,
            mname: self.mname@,
            rname: self.rname@,
            serial: self.serial@,
            refresh: self.refresh,
            retry: self.retry,
            expire: self.expire,
            minimum: self.minimum,
        }
    }
}

/// The start of authority that holds nothing: empty names, no time to live,
/// serial zero and zero timers.
pub open spec fn blank_soa() -> SoaView {
    SoaView {
        name: Seq::empty(),
        ttl: None,
        mname: Seq::empty(),
        rname: Seq::empty(),
        serial: SerialView::Number(0),
        refresh: 0,
        retry: 0,
        expire: 0,
        minimum: 0,
    }
}

impl Default for Soa {
    fn default() -> (r: Self)
        ensures
            r@ == blank_soa(),
    {
        Soa {
            name: String::new(),
            ttl: None,
            mname: String::new(),
            rname: String::new(),
            serial: Serial::Number(0),
            refresh: 0,
            retry: 0,
            expire: 0,
            minimum: 0,
        }
    }
}

impl Soa {
    /// A start of authority for the owner `@`, with a time to live and a
    /// serial kept as text.
    pub fn new(
        ttl: u32,
        mname: String,
        rname: String,
        serial: String,
        refresh: u32,
        retry: u32,
        expire: u32,
        minimum: u32,
    ) -> (r: Self)
        ensures
            r@ == (SoaView {
                name: "@"@,
                ttl: Some(ttl),
                mname: mname@,
                rname: rname@,
                serial: SerialView::Text(serial@),
                refresh,
                retry,
                expire,
                minimum,
            }),
    {
        Soa {
            name: "@".to_owned(),
            ttl: Some(ttl),
            mname,
            rname,
            serial: Serial::String(serial),
            refresh,
            retry,
            expire,
            minimum,
        }
    }
}

/// A record that has an owner name.
pub trait GetName: View<V = RecordView> + Sized {
    /// The owner name of the record.
    fn get_name(&self) -> (r: &str)
        ensures
            r@ == self@.name,
    ;
}

/// A name server of the zone.
#[derive(Debug, Default, PartialEq, Clone)]
pub struct Ns {
    pub name: String,
    pub host: String,
    pub ttl: Option<u32>,
}

impl View for Ns {
    type V = RecordView;

    open spec fn view(&self) -> RecordView {
        RecordView { name: self.name@, ttl: self.ttl, data: RData::Ns { host: self.host@ } }
    }
}

impl GetName for Ns {
    fn get_name(&self) -> (r: &str) {
        self.name.as_str()
    }
}

/// An IPv4 address, kept as written.
#[derive(Debug, Default, PartialEq, Clone)]
pub struct A {
    pub name: String,
    pub ip: String,
    pub ttl: Option<u32>,
}

impl View for A {
    type V = RecordView;

    open spec fn view(&self) -> RecordView {
        RecordView { name: self.name@, ttl: self.ttl, data: RData::A { ip: self.ip@ } }
    }
}

impl GetName for A {
    fn get_name(&self) -> (r: &str) {
        self.name.as_str()
    }
}

/// An IPv6 address, kept as written.
#[derive(Debug, Default, PartialEq, Clone)]
pub struct Aaaa {
    pub name: String,
    pub ip: String,
    pub ttl: Option<u32>,
}

impl View for Aaaa {
    type V = RecordView;

    open spec fn view(&self) -> RecordView {
        RecordView { name: self.name@, ttl: self.ttl, data: RData::Aaaa { ip: self.ip@ } }
    }
}

impl GetName for Aaaa {
    fn get_name(&self) -> (r: &str) {
        self.name.as_str()
    }
}

/// An alias for another name.
#[derive(Debug, Default, PartialEq, Clone)]
pub struct Cname {
    pub name: String,
    pub alias: String,
    pub ttl: Option<u32>,
}

impl View for Cname {
    type V = RecordView;

    open spec fn view(&self) -> RecordView {
        RecordView { name: self.name@, ttl: self.ttl, data: RData::Cname { alias: self.alias@ } }
    }
}

impl GetName for Cname {
    fn get_name(&self) -> (r: &str) {
        self.name.as_str()
    }
}

/// A mail exchanger with its preference.
#[derive(Debug, Default, PartialEq, Clone)]
pub struct Mx {
    pub name: String,
    pub preference: u16,
    pub host: String,
    pub ttl: Option<u32>,
}

impl View for Mx {
    type V = RecordView;

    open spec fn view(&self) -> RecordView {
        RecordView {
            name: self.name@,
            ttl: self.ttl,
            data: RData::Mx {
                preference: self.preference,
                host: self.host@,
            },
        }
    }
}

impl GetName for Mx {
    fn get_name(&self) -> (r: &str) {
        self.name.as_str()
    }
}

/// Free text: the tokens of the record, joined by single spaces.
#[derive(Debug, Default, PartialEq, Clone)]
pub struct Txt {
    pub name: String,
    pub txt: String,
    pub ttl: Option<u32>,
}

impl View for Txt {
    type V = RecordView;

    open spec fn view(&self) -> RecordView {
        RecordView { name: self.name@, ttl: self.ttl, data: RData::Txt { txt: self.txt@ } }
    }
}

impl GetName for Txt {
    fn get_name(&self) -> (r: &str) {
        self.name.as_str()
    }
}

/// A pointer to a host; `fullname` is the owner name under the origin.
#[derive(Debug, Default, PartialEq, Clone)]
pub struct Ptr {
    pub name: String,
    pub fullname: String,
    pub host: String,
    pub ttl: Option<u32>,
}

impl View for Ptr {
    type V = RecordView;

    open spec fn view(&self) -> RecordView {
        RecordView {
            name: self.name@,
            ttl: self.ttl,
            data: RData::Ptr {
                fullname: self.fullname@,
                host: self.host@,
            },
        }
    }
}

impl GetName for Ptr {
    fn get_name(&self) -> (r: &str) {
        self.name.as_str()
    }
}

/// The location of a service.
#[derive(Debug, Default, PartialEq, Clone)]
pub struct Srv {
    pub name: String,
    pub target: String,
    pub priority: u16,
    pub weight: u16,
    pub port: u16,
    pub ttl: Option<u32>,
}

impl View for Srv {
    type V = RecordView;

    open spec fn view(&self) -> RecordView {
        RecordView {
            name: self.name@,
            ttl: self.ttl,
            data: RData::Srv {
                target: self.target@,
                priority: self.priority,
                weight: self.weight,
                port: self.port,
            },
        }
    }
}

impl GetName for Srv {
    fn get_name(&self) -> (r: &str) {
        self.name.as_str()
    }
}

/// Sender policy text: the tokens of the record, joined by single spaces.
#[derive(Debug, Default, PartialEq, Clone)]
pub struct Spf {
    pub name: String,
    pub data: String,
    pub ttl: Option<u32>,
}

impl View for Spf {
    type V = RecordView;

    open spec fn view(&self) -> RecordView {
        RecordView { name: self.name@, ttl: self.ttl, data: RData::Spf { data: self.data@ } }
    }
}

impl GetName for Spf {
    fn get_name(&self) -> (r: &str) {
        self.name.as_str()
    }
}

/// A certification authority authorisation.
#[derive(Debug, Default, PartialEq, Clone)]
pub struct Caa {
    pub name: String,
    pub flags: u8,
    pub tag: String,
    pub value: String,
    pub ttl: Option<u32>,
}

impl View for Caa {
    type V = RecordView;

    open spec fn view(&self) -> RecordView {
        RecordView {
            name: self.name@,
            ttl: self.ttl,
            data: RData::Caa {
                flags: self.flags,
                tag: self.tag@,
                value: self.value@,
            },
        }
    }
}

impl GetName for Caa {
    fn get_name(&self) -> (r: &str) {
        self.name.as_str()
    }
}

/// A delegation signer; its fields are kept as written.
#[derive(Debug, Default, PartialEq, Clone)]
pub struct Ds {
    pub name: String,
    pub key_tag: String,
    pub algorithm: String,
    pub digest_type: String,
    pub digest: String,
    pub ttl: Option<u32>,
}

impl View for Ds {
    type V = RecordView;

    open spec fn view(&self) -> RecordView {
        RecordView {
            name: self.name@,
            ttl: self.ttl,
            data: RData::Ds {
                key_tag: self.key_tag@,
                algorithm: self.algorithm@,
                digest_type: self.digest_type@,
                digest: self.digest@,
            },
        }
    }
}

impl GetName for Ds {
    fn get_name(&self) -> (r: &str) {
        self.name.as_str()
    }
}

/// A zone as a mathematical value. A kind of record has an entry in `lists`
/// exactly when the zone has a list of that kind, empty or not.
pub struct ZoneView {
    pub origin: Option<Seq<char>>,
    pub ttl: Option<u32>,
    pub soa: Option<SoaView>,
    pub lists: Map<Kind, Seq<RecordView>>,
}

impl ZoneView {
    /// The zone that holds nothing at all.
    pub open spec fn empty() -> ZoneView {
        ZoneView { origin: None, ttl: None, soa: None, lists: Map::empty() }
    }

    /// No origin, no default time to live, no start of authority, and no
    /// list of any kind.
    pub open spec fn is_empty(self) -> bool {
        &&& self.origin is None
        &&& self.ttl is None
        &&& self.soa is None
        &&& forall|k: Kind| !self.lists.dom().contains(k)
    }

    /// The records of one kind seen so far: none where the zone has no such
    /// list.
    pub open spec fn records(self, kind: Kind) -> Seq<RecordView> {
        if self.lists.dom().contains(kind) {
            self.lists[kind]
        } else {
            Seq::empty()
        }
    }
}

/// A zone: its directives, its start of authority, and one list for each
/// kind of record that it holds.
#[derive(Debug, PartialEq, Clone)]
pub struct DnsRecord {
    pub origin: Option<String>,
    pub ttl: Option<u32>,
    pub soa: Option<Soa>,
    pub ns: Option<Vec<Ns>>,
    pub a: Option<Vec<A>>,
    pub aaaa: Option<Vec<Aaaa>>,
    pub cname: Option<Vec<Cname>>,
    pub mx: Option<Vec<Mx>>,
    pub txt: Option<Vec<Txt>>,
    pub ptr: Option<Vec<Ptr>>,
    pub srv: Option<Vec<Srv>>,
    pub spf: Option<Vec<Spf>>,
    pub caa: Option<Vec<Caa>>,
    pub ds: Option<Vec<Ds>>,
}

/// The view of an optional string.
pub open spec fn opt_text(o: Option<String>) -> Option<Seq<char>> {
    match o {
        Some(s) => Some(s@),
        None => None,
    }
}

/// The view of an optional list of records.
pub open spec fn opt_records<R: View<V = RecordView>>(o: Option<Vec<R>>) -> Option<
    Seq<RecordView>,
> {
    match o {
        Some(v) => Some(record_views(v@)),
        None => None,
    }
}

impl DnsRecord {
    /// The list of one kind, as views.
    pub open spec fn list(&self, kind: Kind) -> Option<Seq<RecordView>> {
        match kind {
            Kind::Ns => opt_records(self.ns),
            Kind::A => opt_records(self.a),
            Kind::Aaaa => opt_records(self.aaaa),
            Kind::Cname => opt_records(self.cname),
            Kind::Mx => opt_records(self.mx),
            Kind::Txt => opt_records(self.txt),
            Kind::Ptr => opt_records(self.ptr),
            Kind::Srv => opt_records(self.srv),
            Kind::Spf => opt_records(self.spf),
            Kind::Caa => opt_records(self.caa),
            Kind::Ds => opt_records(self.ds),
        }
    }
}

impl DnsRecord {
    /// The records of a kind in the view of the zone are those of its list,
    /// and none where it has no such list.
    pub proof fn lemma_records_of_lists(&self)
        ensures
            forall|k: Kind|
                #[trigger] self@.records(k) == match self.list(k) {
                    Some(l) => l,
                    None => Seq::empty(),
                },
    {
    }
}

impl View for DnsRecord {
    type V = ZoneView;

    open spec fn view(&self) -> ZoneView {
        ZoneView {
            origin: opt_text(self.origin),
            ttl: self.ttl,
            soa: match self.soa {
                Some(s) => Some(s@),
                None => None,
            },
            lists: Map::new(|k: Kind| self.list(k) is Some, |k: Kind| self.list(k)->0),
        }
    }
}

impl Default for DnsRecord {
    fn default() -> (r: Self)
        ensures
            r@ == ZoneView::empty(),
    {
        let r = DnsRecord {
            origin: None,
            ttl: None,
            soa: None,
            ns: None,
            a: None,
            aaaa: None,
            cname: None,
            mx: None,
            txt: None,
            ptr: None,
            srv: None,
            spf: None,
            caa: None,
            ds: None,
        };
        assert(r@.lists =~= Map::empty());
        r
    }
}

impl DnsRecord {
    /// A zone for `domain_name` without records. A missing time to live
    /// becomes 3600, a missing start of authority the blank one.
    pub fn new(domain_name: String, ttl: Option<u32>, soa: Option<Soa>) -> (r: Self)
        ensures
            r@ == (ZoneView {
                origin: Some(domain_name@),
                ttl: Some(
                    match ttl {
                        Some(t) => t,
                        None => 3600u32,
                    },
                ),
                soa: Some(
                    match soa {
                        Some(s) => s@,
                        None => blank_soa(),
                    },
                ),
                lists: Map::empty(),
            }),
    {
        let r = DnsRecord {
            origin: Some(domain_name),
            ttl: match ttl {
                Some(t) => Some(t),
                None => Some(3600),
            },
            soa: match soa {
                Some(s) => Some(s),
                None => Some(Soa::default()),
            },
            ns: None,
            a: None,
            aaaa: None,
            cname: None,
            mx: None,
            txt: None,
            ptr: None,
            srv: None,
            spf: None,
            caa: None,
            ds: None,
        };
        assert(r@.lists =~= Map::empty());
        r
    }

    /// Whether the zone holds nothing: no directive, no start of authority
    /// and no list, not even an empty one.
    pub fn is_empty(&self) -> (r: bool)
        ensures
            r == self@.is_empty(),
    {
        let r = self.origin.is_none() && self.ttl.is_none() && self.soa.is_none()
            && self.ns.is_none() && self.a.is_none() && self.aaaa.is_none()
            && self.cname.is_none() && self.mx.is_none() && self.txt.is_none()
            && self.ptr.is_none() && self.srv.is_none() && self.spf.is_none()
            && self.caa.is_none() && self.ds.is_none();
        proof {
            if r {
                assert forall|k: Kind| !self@.lists.dom().contains(k) by {
                    assert(self.list(k) is None);
                }
            } else if self.origin.is_none() && self.ttl.is_none() && self.soa.is_none() {
                let k = if self.ns.is_some() {
                    Kind::Ns
                } else if self.a.is_some() {
                    Kind::A
                } else if self.aaaa.is_some() {
                    Kind::Aaaa
                } else if self.cname.is_some() {
                    Kind::Cname
                } else if self.mx.is_some() {
                    Kind::Mx
                } else if self.txt.is_some() {
                    Kind::Txt
                } else if self.ptr.is_some() {
                    Kind::Ptr
                } else if self.srv.is_some() {
                    Kind::Srv
                } else if self.spf.is_some() {
                    Kind::Spf
                } else if self.caa.is_some() {
                    Kind::Caa
                } else {
                    Kind::Ds
                };
                assert(self.list(k) is Some);
                assert(self@.lists.dom().contains(k));
            }
        }
        r
    }
}

/// The template that `generate` fills where it is given none.
pub const DEFAULT_TEMPLATE: &'static str = "\
; Zone: {zone}\n\
; Exported  (yyyy-mm-ddThh:mm:ss.sssZ): {datetime}\n\
\n\
{$origin}\n\
{$ttl}\n\
\n\
; SOA Record\n\
{name} {ttl}\tIN\tSOA\t{mname}{rname}(\n\
{serial} ;serial\n\
{refresh} ;refresh\n\
{retry} ;retry\n\
{expire} ;expire\n\
{minimum} ;minimum ttl\n\
)\n\
\n\
; NS Records\n\
{ns}\n\
\n\
; MX Records\n\
{mx}\n\
\n\
; A Records\n\
{a}\n\
\n\
; AAAA Records\n\
{aaaa}\n\
\n\
; CNAME Records\n\
{cname}\n\
\n\
; PTR Records\n\
{ptr}\n\
\n\
; TXT Records\n\
{txt}\n\
\n\
; SRV Records\n\
{srv}\n\
\n\
; SPF Records\n\
{spf}\n\
\n\
; CAA Records\n\
{caa}\n\
\n\
; DS Records\n\
{ds}\n\
\n\
";

} // verus!
