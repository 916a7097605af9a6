use dns_zonefile::{
    A, Aaaa, Caa, Cname, DnsRecord, DnsZonefile, Ds, Mx, Ns, Serial, Soa, Spf, Srv, Txt,
};

const FORWARD_ZONE_TEXT: &str = "; Zone: SOMEDOMAIN.COM.
; Exported  (yyyy-mm-ddThh:mm:ss.sssZ): 2014-09-22T21:10:36.697Z

$ORIGIN MYDOMAIN.COM.
$TTL 3600

; SOA Record
@\t \t\tIN\tSOA\tNS1.NAMESERVER.NET.\tHOSTMASTER.MYDOMAIN.COM.\t(
1406291485\t ;serial
3600\t ;refresh
600\t ;retry
604800\t ;expire
86400\t ;minimum ttl
)

; NS Records
@\tIN\tNS\tNS1.NAMESERVER.NET.
@\tIN\tNS\tNS2.NAMESERVER.NET.

; MX Records
@\tIN\tMX\t0\tmail1
@\tIN\tMX\t10\tmail2

; A Records
    IN  A    2.2.2.2
    A    1.1.1.1
@\tIN\tA\t127.0.0.1
www\tIN\tA\t127.0.0.1
mail\tIN\tA\t127.0.0.1
\t\t\tA 1.2.3.4
tst 300 IN A 101.228.10.127;this is a comment

; AAAA Records
@\tIN\tAAAA\t::1
mail\tIN\tAAAA\t2001:db8::1
A  200 AAAA  2001:db8::1

; CNAME Records
mail1\tIN\tCNAME\tmail
mail2\tIN\tCNAME\tmail
CNAME   CNAME   CNAME

; TXT Records
treefrog.ca. IN TXT \"v=spf1 a mx a:mail.treefrog.ca a:webmail.treefrog.ca ip4:76.75.250.33 ?all\" \"asdfsdaf\" \"sdfsadfdasf\"
treemonkey.ca. IN TXT \"v=DKIM1\\; k=rsa\\; p=MIGf...\"

; SRV Records
_foobar._tcp    200 IN SRV 0 1 9 old-slow-box.example.com.
                 SRV 0 3 9 new-fast-box.example.com.
; if neither old-slow-box or new-fast-box is up, switch to
; using the sysdmin's box and the server
                 SRV 1 0 9 sysadmins-box.example.com.
                 SRV 1 0 9 server.example.com.
*._tcp          SRV  0 0 0 .
*._udp          SRV  0 0 0 .

; SPF Records
test\tIN\tSPF\t\"v=spf1\" \"mx:gcloud-node.com.\" \"-all\"
test1    SPF    \"v=spf2\" \"mx:gcloud-node.com.\" \"-all\"

; CAA Records
@\tIN\tCAA\t0\tissue\t\"ca.example.net; account=230123\"
@\tIN\tCAA\t0\tiodef\t\"mailto:security@example.com\"
@\tIN\tCAA\t0\tiodef\t\"http://iodef.example.com/\"

; DS Records
secure.example.\tIN\tDS\ttag=12345\talg=3\tdigest_type=1\t<foofoo>
secure.example.\tIN\tDS\ttag=12345\talg=3\tdigest_type=1\t\"<foofoo>\"
";

fn s(text: &str) -> String {
    text.to_string()
}

fn a(name: &str, ip: &str, ttl: Option<u32>) -> A {
    A { name: s(name), ip: s(ip), ttl }
}

fn srv(name: &str, ttl: Option<u32>, priority: u16, weight: u16, port: u16, target: &str) -> Srv {
    Srv { name: s(name), target: s(target), priority, weight, port, ttl }
}

fn caa(tag: &str, value: &str) -> Caa {
    Caa { name: s("@"), flags: 0, tag: s(tag), value: s(value), ttl: None }
}

fn ds(digest: &str) -> Ds {
    Ds {
        name: s("secure.example."),
        key_tag: s("tag=12345"),
        algorithm: s("alg=3"),
        digest_type: s("digest_type=1"),
        digest: s(digest),
        ttl: None,
    }
}

fn forward_zone() -> DnsRecord {
    DnsRecord {
        origin: Some(s("MYDOMAIN.COM.")),
        ttl: Some(3600),
        soa: Some(Soa {
            name: s("@"),
            ttl: None,
            mname: s("NS1.NAMESERVER.NET."),
            rname: s("HOSTMASTER.MYDOMAIN.COM."),
            serial: Serial::Number(1406291485),
            refresh: 3600,
            retry: 600,
            expire: 604800,
            minimum: 86400,
        }),
        ns: Some(vec![
            Ns { name: s("@"), host: s("NS1.NAMESERVER.NET."), ttl: None },
            Ns { name: s("@"), host: s("NS2.NAMESERVER.NET."), ttl: None },
        ]),
        a: Some(vec![
            a("@", "2.2.2.2", None),
            a("@", "1.1.1.1", None),
            a("@", "127.0.0.1", None),
            a("www", "127.0.0.1", None),
            a("mail", "127.0.0.1", None),
            a("mail", "1.2.3.4", None),
            a("tst", "101.228.10.127", Some(300)),
        ]),
        aaaa: Some(vec![
            Aaaa { name: s("@"), ip: s("::1"), ttl: None },
            Aaaa { name: s("mail"), ip: s("2001:db8::1"), ttl: None },
            Aaaa { name: s("A"), ip: s("2001:db8::1"), ttl: Some(200) },
        ]),
        cname: Some(vec![
            Cname { name: s("mail1"), alias: s("mail"), ttl: None },
            Cname { name: s("mail2"), alias: s("mail"), ttl: None },
            Cname { name: s("CNAME"), alias: s("CNAME"), ttl: None },
        ]),
        mx: Some(vec![
            Mx { name: s("@"), preference: 0, host: s("mail1"), ttl: None },
            Mx { name: s("@"), preference: 10, host: s("mail2"), ttl: None },
        ]),
        txt: Some(vec![
            Txt {
                name: s("treefrog.ca."),
                txt: s("\"v=spf1 a mx a:mail.treefrog.ca a:webmail.treefrog.ca ip4:76.75.250.33 ?all\" \"asdfsdaf\" \"sdfsadfdasf\""),
                ttl: None,
            },
            Txt { name: s("treemonkey.ca."), txt: s("\"v=DKIM1\\; k=rsa\\; p=MIGf...\""), ttl: None },
        ]),
        ptr: None,
        srv: Some(vec![
            srv("_foobar._tcp", Some(200), 0, 1, 9, "old-slow-box.example.com."),
            srv("_foobar._tcp", None, 0, 3, 9, "new-fast-box.example.com."),
            srv("_foobar._tcp", None, 1, 0, 9, "sysadmins-box.example.com."),
            srv("_foobar._tcp", None, 1, 0, 9, "server.example.com."),
            srv("*._tcp", None, 0, 0, 0, "."),
            srv("*._udp", None, 0, 0, 0, "."),
        ]),
        spf: Some(vec![
            Spf { name: s("test"), data: s("\"v=spf1\" \"mx:gcloud-node.com.\" \"-all\""), ttl: None },
            Spf { name: s("test1"), data: s("\"v=spf2\" \"mx:gcloud-node.com.\" \"-all\""), ttl: None },
        ]),
        caa: Some(vec![
            caa("issue", "\"ca.example.net; account=230123\""),
            caa("iodef", "\"mailto:security@example.com\""),
            caa("iodef", "\"http://iodef.example.com/\""),
        ]),
        ds: Some(vec![ds("<foofoo>"), ds("\"<foofoo>\"")]),
    }
}

fn get_forward_zone_json() -> DnsRecord {
    forward_zone()
}

fn get_expected_forward_zone_json() -> DnsRecord {
    forward_zone()
}

fn get_parsed_forward_zone() -> DnsRecord {
    let dns_zonefile = DnsZonefile::default();
    dns_zonefile.parse(FORWARD_ZONE_TEXT).unwrap()
}

#[test]
fn test_generate_global_info() {
    let dns_zonefile = DnsZonefile::default();
    let json = get_forward_zone_json();
    let generated = dns_zonefile.generate(&json, None);
    assert!(generated.contains("$ORIGIN MYDOMAIN.COM."));
    assert!(generated.contains("$TTL 3600"));
    assert!(generated.contains("IN\tSOA\tNS1.NAMESERVER.NET.\tHOSTMASTER.MYDOMAIN.COM."));
    assert!(generated.contains("1406291485\t ;serial"));
    assert!(generated.contains("3600\t ;refresh"));
    assert!(generated.contains("@\tIN\tNS\tNS1.NAMESERVER.NET."));
    assert!(generated.contains("@\tIN\tNS\tNS2.NAMESERVER.NET."));
    assert!(generated.contains("@\tIN\tMX\t0\tmail1"));
    assert!(generated.contains("@\tIN\tMX\t10\tmail2"));
    assert!(generated.contains("@\tIN\tA\t2.2.2.2"));
    assert!(generated.contains("@\tIN\tA\t1.1.1.1"));
    assert!(generated.contains("@\tIN\tA\t127.0.0.1"));
    assert!(generated.contains("www\tIN\tA\t127.0.0.1"));
    assert!(generated.contains("mail\tIN\tA\t127.0.0.1"));
    assert!(generated.contains("mail\tIN\tA\t1.2.3.4"));
    assert!(generated.contains("tst\t300\tIN\tA\t101.228.10.127"));
    assert!(generated.contains("@\tIN\tAAAA\t::1"));
    assert!(generated.contains("mail\tIN\tAAAA\t2001:db8::1"));
    assert!(generated.contains("A\t200\tIN\tAAAA\t2001:db8::1"));
    assert!(generated.contains("mail1\tIN\tCNAME\tmail"));
    assert!(generated.contains("mail2\tIN\tCNAME\tmail"));
    assert!(generated.contains("CNAME\tIN\tCNAME\tCNAME"));
    assert!(generated.contains(r#"treefrog.ca.	IN	TXT	"v=spf1 a mx a:mail.treefrog.ca a:webmail.treefrog.ca ip4:76.75.250.33 ?all" "asdfsdaf" "sdfsadfdasf""#));
    assert!(generated.contains(r#"treemonkey.ca.	IN	TXT	"v=DKIM1\; k=rsa\; p=MIGf...""#));
    assert!(generated.contains("_foobar._tcp\t200\tIN\tSRV\t0\t1\t9\told-slow-box.example.com."));
    assert!(generated.contains("_foobar._tcp\tIN\tSRV\t0\t3\t9\tnew-fast-box.example.com."));
    assert!(generated.contains("_foobar._tcp\tIN\tSRV\t1\t0\t9\tsysadmins-box.example.com."));
    assert!(generated.contains("_foobar._tcp\tIN\tSRV\t1\t0\t9\tserver.example.com."));
    assert!(generated.contains("*._tcp\tIN\tSRV\t0\t0\t0\t."));
    assert!(generated.contains("*._udp\tIN\tSRV\t0\t0\t0\t."));
    assert!(generated.contains(r#"test	IN	SPF	"v=spf1" "mx:gcloud-node.com." "-all""#));
    assert!(generated.contains(r#"test1	IN	SPF	"v=spf2" "mx:gcloud-node.com." "-all""#));
    assert!(generated.contains(r#"@	IN	CAA	0	issue	"ca.example.net; account=230123""#));
    assert!(generated.contains(r#"@	IN	CAA	0	iodef	"mailto:security@example.com""#));
    assert!(generated.contains(r#"@	IN	CAA	0	iodef	"http://iodef.example.com/""#));
    assert!(generated.contains("secure.example.\tIN\tDS\ttag=12345\talg=3\tdigest_type=1\t<foofoo>"));
    assert!(generated.contains(r#"secure.example.	IN	DS	tag=12345	alg=3	digest_type=1	"<foofoo>""#));
}

#[test]
fn test_generate_forward_zone() {
    let json_data = get_expected_forward_zone_json();
    let dns_zonefile = DnsZonefile::default();
    let generated_text = dns_zonefile.generate(&json_data, None);

    assert!(generated_text.contains("$ORIGIN MYDOMAIN.COM."));
    assert!(generated_text.contains("IN\tSOA\tNS1.NAMESERVER.NET."));
    assert!(generated_text.contains("tst\t300\tIN\tA\t101.228.10.127"));
}

#[test]
fn test_parse_global_info() {
    let parsed = get_parsed_forward_zone();
    let expected = get_expected_forward_zone_json();
    assert_eq!(parsed.origin, expected.origin);
    assert_eq!(parsed.ttl, expected.ttl);
    assert_eq!(parsed.soa, expected.soa);
    assert_eq!(parsed.ns, expected.ns);
    assert_eq!(parsed.mx, expected.mx);
    assert_eq!(parsed.a, expected.a);
    assert_eq!(parsed.aaaa, expected.aaaa);
    assert_eq!(parsed.cname, expected.cname);
    assert_eq!(parsed.txt, expected.txt);
    assert_eq!(parsed.srv, expected.srv);
    assert_eq!(parsed.spf, expected.spf);
    assert_eq!(parsed.caa, expected.caa);
    assert_eq!(parsed.ds, expected.ds);
}

#[test]
fn test_forward_idempotence() {
    let zone_text = FORWARD_ZONE_TEXT;
    let dns_zonefile = DnsZonefile::default();

    let json1 = dns_zonefile.parse(zone_text).expect("correct!");
    let generated_text = dns_zonefile.generate(&json1, None);
    let json2 = dns_zonefile.parse(&generated_text).expect("json");

    assert_eq!(json1, json2, "Parsed objects should be equal after a generate/parse cycle.");
}

#[test]
fn test_empty_struct() {
    let dns_record = DnsRecord::default();
    assert_eq!(dns_record.is_empty(), true);
}

#[test]
fn generated_forward_zone_is_exact() {
    let dns_zonefile = DnsZonefile::default();
    let generated = dns_zonefile.generate_at(&forward_zone(), None, 1411420236, 697000000);
    let expected = "; Zone: MYDOMAIN.COM.
; Exported  (yyyy-mm-ddThh:mm:ss.sssZ): 2014-09-22T21:10:36.697+00:00

$ORIGIN MYDOMAIN.COM.
$TTL 3600

; SOA Record
@\t \t\tIN\tSOA\tNS1.NAMESERVER.NET.\tHOSTMASTER.MYDOMAIN.COM.\t(
1406291485\t ;serial
3600\t ;refresh
600\t ;retry
604800\t ;expire
86400\t ;minimum ttl
)

; NS Records
@\tIN\tNS\tNS1.NAMESERVER.NET.
@\tIN\tNS\tNS2.NAMESERVER.NET.

; MX Records
@\tIN\tMX\t0\tmail1
@\tIN\tMX\t10\tmail2

; A Records
@\tIN\tA\t2.2.2.2
@\tIN\tA\t1.1.1.1
@\tIN\tA\t127.0.0.1
www\tIN\tA\t127.0.0.1
mail\tIN\tA\t127.0.0.1
mail\tIN\tA\t1.2.3.4
tst\t300\tIN\tA\t101.228.10.127

; AAAA Records
@\tIN\tAAAA\t::1
mail\tIN\tAAAA\t2001:db8::1
A\t200\tIN\tAAAA\t2001:db8::1

; CNAME Records
mail1\tIN\tCNAME\tmail
mail2\tIN\tCNAME\tmail
CNAME\tIN\tCNAME\tCNAME

; PTR Records

; TXT Records
treefrog.ca.\tIN\tTXT\t\"v=spf1 a mx a:mail.treefrog.ca a:webmail.treefrog.ca ip4:76.75.250.33 ?all\" \"asdfsdaf\" \"sdfsadfdasf\"
treemonkey.ca.\tIN\tTXT\t\"v=DKIM1\\; k=rsa\\; p=MIGf...\"

; SRV Records
_foobar._tcp\t200\tIN\tSRV\t0\t1\t9\told-slow-box.example.com.
_foobar._tcp\tIN\tSRV\t0\t3\t9\tnew-fast-box.example.com.
_foobar._tcp\tIN\tSRV\t1\t0\t9\tsysadmins-box.example.com.
_foobar._tcp\tIN\tSRV\t1\t0\t9\tserver.example.com.
*._tcp\tIN\tSRV\t0\t0\t0\t.
*._udp\tIN\tSRV\t0\t0\t0\t.

; SPF Records
test\tIN\tSPF\t\"v=spf1\" \"mx:gcloud-node.com.\" \"-all\"
test1\tIN\tSPF\t\"v=spf2\" \"mx:gcloud-node.com.\" \"-all\"

; CAA Records
@\tIN\tCAA\t0\tissue\t\"ca.example.net; account=230123\"
@\tIN\tCAA\t0\tiodef\t\"mailto:security@example.com\"
@\tIN\tCAA\t0\tiodef\t\"http://iodef.example.com/\"

; DS Records
secure.example.\tIN\tDS\ttag=12345\talg=3\tdigest_type=1\t<foofoo>
secure.example.\tIN\tDS\ttag=12345\talg=3\tdigest_type=1\t\"<foofoo>\"

";
    assert_eq!(generated, expected);
}

#[test]
fn generated_text_parses_back_to_the_zone() {
    let dns_zonefile = DnsZonefile::default();
    let zone = forward_zone();
    let generated = dns_zonefile.generate_at(&zone, None, 0, 0);
    assert_eq!(dns_zonefile.parse(&generated), Ok(zone));
}

#[test]
fn clone_of_codec_parses_alike() {
    let dns_zonefile = DnsZonefile::default();
    let copy = dns_zonefile.clone();
    assert_eq!(copy.parse(FORWARD_ZONE_TEXT), dns_zonefile.parse(FORWARD_ZONE_TEXT));
}
