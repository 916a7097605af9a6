use dns_zonefile::generator::{
    generate, generate_at, process_a, process_aaaa, process_caa, process_cname, process_ds,
    process_mx, process_ns, process_origin, process_ptr, process_soa, process_spf, process_srv,
    process_ttl, process_txt, process_values, process_values_at,
};
use dns_zonefile::parser::{parse_rrs, remove_comments};
use dns_zonefile::{
    A, Aaaa, Caa, Cname, DnsRecord, DnsZonefile, Ds, Mx, Ns, Ptr, Serial, Soa, Spf, Srv, Txt,
    BLANK_LINES_PATTERN, DEFAULT_TEMPLATE,
};
use regex::Regex;

fn s(text: &str) -> String {
    text.to_string()
}

fn soa() -> Soa {
    Soa {
        name: s("example.com."),
        ttl: Some(7200),
        mname: s("ns1."),
        rname: s("admin."),
        serial: Serial::Number(2024010101),
        refresh: 1,
        retry: 2,
        expire: 3,
        minimum: 4,
    }
}

#[test]
fn origin_and_ttl_directives() {
    assert_eq!(process_origin(Some("example.com."), s("a {$origin} b")), "a $ORIGIN example.com. b");
    assert_eq!(process_origin(None, s("a {$origin} b")), "a  b");
    assert_eq!(process_ttl(Some(3600), s("{$ttl}\n{$ttl}")), "$TTL 3600\n$TTL 3600");
    assert_eq!(process_ttl(Some(0), s("{$ttl}")), "$TTL 0");
    assert_eq!(process_ttl(None, s("x{$ttl}y")), "xy");
    assert_eq!(process_ttl(Some(1), s("no placeholder")), "no placeholder");
}

#[test]
fn start_of_authority_fields() {
    let template = s("{name} {ttl}\tIN\tSOA\t{mname}{rname}(\n{serial} ;serial\n{refresh} {retry} {expire} {minimum}\n)");
    assert_eq!(
        process_soa(Some(&soa()), template.clone()),
        "example.com.\t 7200\t\tIN\tSOA\tns1.\tadmin.\t(\n2024010101\t ;serial\n1\t 2\t 3\t 4\t\n)"
    );
    assert_eq!(process_soa(None, template.clone()), template);
    let mut blank = Soa::default();
    blank.serial = Serial::String(s("v2"));
    assert_eq!(
        process_soa(Some(&blank), s("{name}|{ttl}|{mname}|{serial}|{minimum}")),
        "@\t|\t|\t|v2\t|0\t"
    );
}

#[test]
fn lists_of_one_data_field() {
    let ns = vec![
        Ns { name: s("@"), host: s("ns1."), ttl: None },
        Ns { name: s(""), host: s("ns2."), ttl: Some(60) },
    ];
    assert_eq!(process_ns(&ns, s("<{ns}>")), "<@\tIN\tNS\tns1.\n@\t60\tIN\tNS\tns2.\n>");
    assert_eq!(process_ns(&[], s("<{ns}>")), "<>");
    assert_eq!(process_a(&[A { name: s("www"), ip: s("1.2.3.4"), ttl: Some(300) }], s("{a}")), "www\t300\tIN\tA\t1.2.3.4\n");
    assert_eq!(process_aaaa(&[Aaaa { name: s("m"), ip: s("::1"), ttl: None }], s("{aaaa}")), "m\tIN\tAAAA\t::1\n");
    assert_eq!(process_cname(&[Cname { name: s("c"), alias: s("d"), ttl: None }], s("{cname}")), "c\tIN\tCNAME\td\n");
    assert_eq!(
        process_ptr(&[Ptr { name: s("1"), fullname: s("1.x."), host: s("h."), ttl: None }], s("{ptr}")),
        "1\tIN\tPTR\th.\n"
    );
    assert_eq!(process_txt(&[Txt { name: s("t"), txt: s("\"a b\" c"), ttl: Some(5) }], s("{txt}")), "t\t5\tIN\tTXT\t\"a b\" c\n");
    assert_eq!(process_spf(&[Spf { name: s("t"), data: s("\"v=spf1\""), ttl: None }], s("{spf}")), "t\tIN\tSPF\t\"v=spf1\"\n");
}

#[test]
fn lists_with_numbers() {
    assert_eq!(
        process_mx(&[Mx { name: s("@"), preference: 10, host: s("mail"), ttl: None }], s("{mx}")),
        "@\tIN\tMX\t10\tmail\n"
    );
    assert_eq!(
        process_srv(
            &[Srv { name: s("_s._tcp"), target: s("box."), priority: 1, weight: 65535, port: 443, ttl: Some(9) }],
            s("{srv}")
        ),
        "_s._tcp\t9\tIN\tSRV\t1\t65535\t443\tbox.\n"
    );
    assert_eq!(
        process_caa(&[Caa { name: s("@"), flags: 255, tag: s("issue"), value: s("\"ca\""), ttl: None }], s("{caa}")),
        "@\tIN\tCAA\t255\tissue\t\"ca\"\n"
    );
    assert_eq!(
        process_ds(
            &[Ds { name: s("d."), key_tag: s("1"), algorithm: s("2"), digest_type: s("3"), digest: s("AB"), ttl: None }],
            s("{ds}")
        ),
        "d.\tIN\tDS\t1\t2\t3\tAB\n"
    );
}

#[test]
fn values_of_an_instant() {
    let mut zone = DnsRecord::default();
    zone.soa = Some(soa());
    assert_eq!(
        process_values_at(&zone, s("{zone} {datetime} {time}"), 1411420236, 697000000),
        "example.com. 2014-09-22T21:10:36.697+00:00 1411420236"
    );
    zone.origin = Some(s("o."));
    assert_eq!(
        process_values_at(&zone, s("{zone} {datetime} {time}"), 0, 0),
        "o. 1970-01-01T00:00:00+00:00 0"
    );
    assert_eq!(process_values_at(&DnsRecord::default(), s("[{zone}]"), 0, 0), "[]");
    assert_eq!(
        process_values_at(&DnsRecord::default(), s("{datetime}|{time}"), u64::MAX, 0),
        "|18446744073709551615"
    );
}

#[test]
fn values_of_the_present_moment() {
    let out = process_values(&DnsRecord::default(), s("{zone}|{datetime}|{time}"));
    let parts: Vec<&str> = out.split('|').collect();
    assert_eq!(parts.len(), 3);
    assert_eq!(parts[0], "");
    assert!(parts[1].ends_with("+00:00"));
    assert!(parts[2].parse::<u64>().unwrap() > 1_600_000_000);
}

#[test]
fn runs_of_line_feeds_collapse_to_one_blank_line() {
    let re = Regex::new(BLANK_LINES_PATTERN).unwrap();
    let zone = DnsRecord::default();
    assert_eq!(generate_at(&re, &zone, Some("a\n\n\n\nb\nc\n\nd\n\n\n"), 0, 0), "a\n\nb\nc\n\nd\n\n");
    assert_eq!(generate_at(&re, &zone, Some(""), 0, 0), "");
    assert_eq!(generate(&re, &zone, Some("x\n\n\ny")), "x\n\ny");
}

#[test]
fn a_template_of_ones_own() {
    let dns = DnsZonefile::default();
    let mut zone = DnsRecord::new(s("example.com."), None, Some(soa()));
    zone.a = Some(vec![A { name: s("www"), ip: s("1.2.3.4"), ttl: None }]);
    assert_eq!(
        dns.generate_at(&zone, Some("{zone}@{time}\n{$origin}\n{$ttl}\n{serial}\n{a}{ns}{a}"), 7, 0),
        "example.com.@7\n$ORIGIN example.com.\n$TTL 3600\n2024010101\t\nwww\tIN\tA\t1.2.3.4\nwww\tIN\tA\t1.2.3.4\n"
    );
}

#[test]
fn a_zone_without_records_leaves_blocks_empty() {
    let dns = DnsZonefile::default();
    let out = dns.generate_at(&DnsRecord::default(), None, 0, 0);
    assert!(out.starts_with("; Zone: \n; Exported  (yyyy-mm-ddThh:mm:ss.sssZ): 1970-01-01T00:00:00+00:00\n\n; SOA Record\n{name} {ttl}\tIN\tSOA\t{mname}{rname}(\n{serial} ;serial\n"));
    assert!(out.ends_with("; CAA Records\n\n; DS Records\n\n"));
    assert!(!out.contains("\n\n\n"));
    assert!(!out.contains("{ns}"));
}

#[test]
fn the_default_template_names_every_placeholder() {
    for name in [
        "{zone}", "{datetime}", "{$origin}", "{$ttl}", "{name}", "{ttl}", "{mname}", "{rname}",
        "{serial}", "{refresh}", "{retry}", "{expire}", "{minimum}", "{ns}", "{mx}", "{a}",
        "{aaaa}", "{cname}", "{ptr}", "{txt}", "{srv}", "{spf}", "{caa}", "{ds}",
    ] {
        assert!(DEFAULT_TEMPLATE.contains(name), "{}", name);
    }
    assert!(DEFAULT_TEMPLATE.starts_with("; Zone: {zone}\n"));
}

#[test]
fn serials_read_and_write() {
    assert_eq!(Serial::parse("2024"), Serial::Number(2024));
    assert_eq!(Serial::parse("4294967296"), Serial::String(s("4294967296")));
    assert_eq!(Serial::parse("v1"), Serial::String(s("v1")));
    assert_eq!(Serial::parse(""), Serial::String(s("")));
    assert_eq!(Serial::Number(17).to_text(), "17");
    assert_eq!(Serial::String(s("v1")).to_text(), "v1");
    assert_eq!(Serial::default(), Serial::Number(0));
    assert_eq!("12".parse::<Serial>(), Ok(Serial::Number(12)));
    assert_eq!("x".parse::<Serial>(), Ok(Serial::String(s("x"))));
}

#[test]
fn constructors() {
    let soa = Soa::new(60, s("m."), s("r."), s("2024"), 1, 2, 3, 4);
    assert_eq!(
        soa,
        Soa {
            name: s("@"),
            ttl: Some(60),
            mname: s("m."),
            rname: s("r."),
            serial: Serial::String(s("2024")),
            refresh: 1,
            retry: 2,
            expire: 3,
            minimum: 4
        }
    );
    let zone = DnsRecord::new(s("example.com."), None, None);
    assert_eq!(zone.origin, Some(s("example.com.")));
    assert_eq!(zone.ttl, Some(3600));
    assert_eq!(zone.soa, Some(Soa::default()));
    assert_eq!(zone.ns, None);
    assert!(!zone.is_empty());
    let zone = DnsRecord::new(s("e."), Some(5), Some(soa.clone()));
    assert_eq!(zone.ttl, Some(5));
    assert_eq!(zone.soa, Some(soa));
    assert_eq!(Soa::default().name, "");
    assert_eq!(Soa::default().serial, Serial::Number(0));
}

#[test]
fn a_zone_with_one_empty_list_is_not_empty() {
    let mut zone = DnsRecord::default();
    assert!(zone.is_empty());
    zone.ds = Some(vec![]);
    assert!(!zone.is_empty());
    let mut zone = DnsRecord::default();
    zone.ttl = Some(0);
    assert!(!zone.is_empty());
}

#[test]
fn written_lines_read_back() {
    let mx = vec![
        Mx { name: s("@"), preference: 0, host: s("mail1"), ttl: None },
        Mx { name: s("shop"), preference: 65535, host: s("mail2."), ttl: Some(4294967295) },
    ];
    let txt = vec![
        Txt { name: s("t"), txt: s("\"v=spf1 a;b\" 'c  d' e"), ttl: Some(0) },
        Txt { name: s("u"), txt: s(""), ttl: None },
    ];
    let caa = vec![Caa { name: s("IN"), flags: 7, tag: s("issue"), value: s("\"x y\""), ttl: None }];
    let text = process_caa(&caa, process_txt(&txt, process_mx(&mx, s("{mx}{txt}{caa}"))));
    assert_eq!(remove_comments(&text), text);
    let zone = parse_rrs(&remove_comments(&text));
    let mut expected = DnsRecord::default();
    expected.mx = Some(mx);
    expected.txt = Some(txt);
    expected.caa = Some(caa);
    assert_eq!(zone, expected);
}

#[test]
fn a_bare_semicolon_does_not_read_back() {
    let first = parse_rrs(&remove_comments("a TXT foo\\;bar\n"));
    assert_eq!(first.txt, Some(vec![Txt { name: s("a"), txt: s("foo;bar"), ttl: None }]));
    let text = process_txt(first.txt.as_ref().unwrap(), s("{txt}"));
    assert_eq!(text, "a\tIN\tTXT\tfoo;bar\n");
    let second = parse_rrs(&remove_comments(&text));
    assert_eq!(second.txt, Some(vec![Txt { name: s("a"), txt: s("foo"), ttl: None }]));
}
