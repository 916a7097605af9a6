use dns_zonefile::parser::{
    flatten_soa, normalize_rr, parse, parse_a, parse_aaaa, parse_caa, parse_cname, parse_ds,
    parse_flat, parse_mx, parse_ns, parse_ptr, parse_rrs, parse_soa, parse_spf, parse_srv,
    parse_txt, remove_comments, splice_flattened, split_args, get_name,
};
use dns_zonefile::{
    A, Aaaa, Caa, Cname, DnsRecord, DnsZonefile, Ds, Mx, Ns, Ptr, Serial, Soa, Spf, Srv, Txt,
    SOA_PATTERN, WHITESPACE_PATTERN,
};
use regex::Regex;

fn s(text: &str) -> String {
    text.to_string()
}

fn cs(text: &str) -> Vec<char> {
    text.chars().collect()
}

// ----- tokenizer -----

#[test]
fn tokens_split_at_whitespace_and_keep_quotes() {
    assert_eq!(split_args("a  b\tc", None, true), vec!["a", "b", "c"]);
    assert_eq!(split_args("  lead and trail  ", None, true), vec!["lead", "and", "trail"]);
    assert_eq!(split_args("@ IN TXT \"a b\" 'c d'", None, true), vec!["@", "IN", "TXT", "\"a b\"", "'c d'"]);
    assert_eq!(split_args("x\"y z\"w", None, true), vec!["x\"y z\"w"]);
    assert_eq!(split_args("", None, true), Vec::<String>::new());
    assert_eq!(split_args(" \t ", None, true), Vec::<String>::new());
}

#[test]
fn tokens_can_drop_their_quotes() {
    assert_eq!(split_args("@ TXT \"a b\" 'c d'", None, false), vec!["@", "TXT", "a b", "c d"]);
    assert_eq!(split_args("\"\" x", None, false), vec!["x"]);
    assert_eq!(split_args("\"\" x", None, true), vec!["\"\"", "x"]);
}

#[test]
fn a_quote_of_one_kind_is_plain_inside_the_other() {
    assert_eq!(split_args("\"it's here\" x", None, true), vec!["\"it's here\"", "x"]);
    assert_eq!(split_args("'say \"hi\" now' x", None, true), vec!["'say \"hi\" now'", "x"]);
    assert_eq!(split_args("\"open to the end", None, true), vec!["\"open to the end"]);
}

#[test]
fn tokens_split_at_a_given_separator() {
    assert_eq!(split_args("a;b", Some(';'), true), vec!["a", "b"]);
    assert_eq!(split_args("a;", Some(';'), true), vec!["a", ""]);
    assert_eq!(split_args("a;;b", Some(';'), true), vec!["a", "b"]);
    assert_eq!(split_args("a \"x;y\" ;c", Some(';'), true), vec!["a \"x;y\" ", "c"]);
    assert_eq!(split_args(";", Some(';'), true), vec![""]);
    assert_eq!(split_args("", Some(';'), true), Vec::<String>::new());
    assert_eq!(split_args("a b", Some(';'), true), vec!["a b"]);
}

// ----- comment stripper -----

#[test]
fn comments_go_and_quoted_semicolons_stay() {
    assert_eq!(remove_comments("@ IN TXT \"a;b\" ;real comment"), "@ IN TXT \"a;b\" \n");
    assert_eq!(remove_comments("foo\\; bar ; comment"), "foo; bar \n");
    assert_eq!(remove_comments("a 'x;y' z;c"), "a 'x;y' z\n");
}

#[test]
fn comment_lines_leave_nothing() {
    assert_eq!(remove_comments("; only a comment"), "");
    assert_eq!(remove_comments("   \t; indented comment\nx\n"), "x\n");
    assert_eq!(remove_comments(""), "");
    assert_eq!(remove_comments("\n"), "\n");
    assert_eq!(remove_comments("a\r\n;b\r\nc"), "a\nc\n");
}

#[test]
fn an_escaped_semicolon_loses_its_backslash() {
    assert_eq!(remove_comments("a\\;b"), "a;b\n");
    assert_eq!(remove_comments("a\\;"), "a;\n");
    assert_eq!(remove_comments("a\\\\;b"), "a\\;b\n");
    assert_eq!(remove_comments("a\\;\\;b;c"), "a;;b\n");
    assert_eq!(remove_comments("a\\;;b"), "a;\n");
    assert_eq!(remove_comments("\"a\\;b\";c"), "\"a\\;b\"\n");
    assert_eq!(remove_comments("x \\;"), "x ;\n");
}

// ----- normalizer -----

#[test]
fn a_line_with_name_ttl_and_class() {
    let n = normalize_rr("tst 300 IN A 101.228.10.127");
    assert_eq!(n.rr_type(), "A");
    assert_eq!(n.tokens(), vec!["tst", "300", "IN", "A", "101.228.10.127"]);
    assert!(n.has_name());
    assert!(n.has_ttl());
    assert_eq!(n.type_index(), 3);
}

#[test]
fn a_token_that_is_no_number_is_no_ttl() {
    let n = normalize_rr("www IN A 127.0.0.1");
    assert!(n.has_name());
    assert!(!n.has_ttl());
    assert_eq!(n.type_index(), 2);
    assert_eq!(n.rr_type(), "A");

    let n = normalize_rr("www A 127.0.0.1");
    assert!(!n.has_ttl());
    assert_eq!(n.type_index(), 1);
    assert_eq!(n.rr_type(), "A");

    let n = normalize_rr("www 4294967296 A 127.0.0.1");
    assert!(!n.has_ttl());
    assert_eq!(n.type_index(), 1);
    assert_eq!(n.rr_type(), "4294967296");

    let n = normalize_rr("www -5 A 127.0.0.1");
    assert!(!n.has_ttl());
    assert_eq!(n.rr_type(), "-5");
}

#[test]
fn a_line_without_name() {
    let n = normalize_rr("    IN  A    2.2.2.2");
    assert!(!n.has_name());
    assert!(!n.has_ttl());
    assert_eq!(n.type_index(), 1);
    assert_eq!(n.rr_type(), "A");

    let n = normalize_rr("\t600 IN NS ns1.example.");
    assert!(!n.has_name());
    assert!(n.has_ttl());
    assert_eq!(n.type_index(), 2);
    assert_eq!(n.rr_type(), "NS");

    let n = normalize_rr("  A 1.1.1.1");
    assert_eq!(n.type_index(), 0);
    assert_eq!(n.rr_type(), "A");
}

#[test]
fn a_line_that_ends_before_its_type() {
    let n = normalize_rr("www 300 IN");
    assert_eq!(n.type_index(), 3);
    assert_eq!(n.rr_type(), "");
    let n = normalize_rr("");
    assert!(!n.has_name());
    assert!(!n.has_ttl());
    assert_eq!(n.type_index(), 0);
    assert_eq!(n.rr_type(), "");
    assert_eq!(n.tokens(), Vec::<String>::new());
}

// ----- extractors -----

#[test]
fn the_owner_is_named_or_inherited() {
    let prev = vec![
        Ns { name: s("first"), host: s("h1"), ttl: None },
        Ns { name: s("second"), host: s("h2"), ttl: None },
    ];
    assert_eq!(get_name(&normalize_rr("own NS h"), &prev), "own");
    assert_eq!(get_name(&normalize_rr("  NS h"), &prev), "second");
    assert_eq!(get_name(&normalize_rr("  NS h"), &prev[..1]), "first");
    assert_eq!(get_name(&normalize_rr("  NS h"), &Vec::<Ns>::new()), "@");
}

#[test]
fn records_of_one_data_field() {
    assert_eq!(
        parse_ns(&normalize_rr("@ 60 IN NS ns1.example."), &[]),
        Ns { name: s("@"), host: s("ns1.example."), ttl: Some(60) }
    );
    assert_eq!(
        parse_a(&normalize_rr("www A 127.0.0.1"), &[]),
        A { name: s("www"), ip: s("127.0.0.1"), ttl: None }
    );
    assert_eq!(
        parse_aaaa(&normalize_rr("A  200 AAAA  2001:db8::1"), &[]),
        Aaaa { name: s("A"), ip: s("2001:db8::1"), ttl: Some(200) }
    );
    assert_eq!(
        parse_cname(&normalize_rr("CNAME   CNAME   CNAME"), &[]),
        Cname { name: s("CNAME"), alias: s("CNAME"), ttl: None }
    );
}

#[test]
fn a_ttl_is_read_from_its_slot_without_a_name() {
    let prev = vec![A { name: s("mail"), ip: s("1.1.1.1"), ttl: None }];
    assert_eq!(
        parse_a(&normalize_rr("   300 IN A 1.2.3.4"), &prev),
        A { name: s("mail"), ip: s("1.2.3.4"), ttl: Some(300) }
    );
}

#[test]
fn records_with_numbers() {
    assert_eq!(
        parse_mx(&normalize_rr("@ IN MX 10 mail2"), &[]),
        Mx { name: s("@"), preference: 10, host: s("mail2"), ttl: None }
    );
    assert_eq!(
        parse_srv(&normalize_rr("_foobar._tcp 200 IN SRV 0 1 9 old-slow-box.example.com."), &[]),
        Srv {
            name: s("_foobar._tcp"),
            target: s("old-slow-box.example.com."),
            priority: 0,
            weight: 1,
            port: 9,
            ttl: Some(200)
        }
    );
    assert_eq!(
        parse_caa(&normalize_rr("@ IN CAA 128 issue \"ca.example.net; account=230123\""), &[]),
        Caa {
            name: s("@"),
            flags: 128,
            tag: s("issue"),
            value: s("\"ca.example.net; account=230123\""),
            ttl: None
        }
    );
    assert_eq!(
        parse_ds(&normalize_rr("secure.example. IN DS tag=12345 alg=3 digest_type=1 <foofoo>"), &[]),
        Ds {
            name: s("secure.example."),
            key_tag: s("tag=12345"),
            algorithm: s("alg=3"),
            digest_type: s("digest_type=1"),
            digest: s("<foofoo>"),
            ttl: None
        }
    );
}

#[test]
fn a_number_that_does_not_parse_is_zero() {
    assert_eq!(parse_mx(&normalize_rr("@ IN MX ten mail"), &[]).preference, 0);
    assert_eq!(parse_mx(&normalize_rr("@ IN MX 65536 mail"), &[]).preference, 0);
    assert_eq!(parse_mx(&normalize_rr("@ IN MX 65535 mail"), &[]).preference, 65535);
    assert_eq!(parse_caa(&normalize_rr("@ CAA 256 issue x"), &[]).flags, 0);
    assert_eq!(parse_caa(&normalize_rr("@ CAA 255 issue x"), &[]).flags, 255);
    let srv = parse_srv(&normalize_rr("@ SRV a -1 70000 t"), &[]);
    assert_eq!((srv.priority, srv.weight, srv.port), (0, 0, 0));
    assert_eq!(parse_mx(&normalize_rr("a MX 10"), &[]), Mx { name: s("a"), preference: 0, host: s("10"), ttl: None });
}

#[test]
fn text_records_join_their_tokens() {
    assert_eq!(
        parse_txt(&normalize_rr("t IN TXT \"v=spf1 a\"   \"b\"\tc"), &[]),
        Txt { name: s("t"), txt: s("\"v=spf1 a\" \"b\" c"), ttl: None }
    );
    assert_eq!(parse_txt(&normalize_rr("t 5 TXT"), &[]), Txt { name: s("t"), txt: s(""), ttl: Some(5) });
    assert_eq!(
        parse_spf(&normalize_rr("test1    SPF    \"v=spf2\" \"-all\""), &[]),
        Spf { name: s("test1"), data: s("\"v=spf2\" \"-all\""), ttl: None }
    );
}

#[test]
fn a_pointer_has_its_full_name() {
    assert_eq!(
        parse_ptr(&normalize_rr("1 IN PTR host.example.com."), &[], "example.com."),
        Ptr { name: s("1"), fullname: s("1.example.com."), host: s("host.example.com."), ttl: None }
    );
    assert_eq!(parse_ptr(&normalize_rr("1 PTR h"), &[], "").fullname, "1.");
    let prev = vec![Ptr { name: s("7"), fullname: s("7.x."), host: s("h"), ttl: None }];
    assert_eq!(parse_ptr(&normalize_rr("  PTR h2"), &prev, "rev.").fullname, "7.rev.");
}

#[test]
fn a_start_of_authority_is_read_from_the_end() {
    let tokens: Vec<Vec<char>> =
        ["@", "IN", "SOA", "ns.", "admin.", "2024", "1", "2", "3", "4"].iter().map(|t| cs(t)).collect();
    assert_eq!(
        parse_soa(&tokens),
        Soa {
            name: s("@"),
            ttl: None,
            mname: s("ns."),
            rname: s("admin."),
            serial: Serial::Number(2024),
            refresh: 1,
            retry: 2,
            expire: 3,
            minimum: 4
        }
    );
    let tokens: Vec<Vec<char>> =
        ["z.", "900", "IN", "SOA", "ns.", "admin.", "v1-beta", "x", "2", "3", "4"].iter().map(|t| cs(t)).collect();
    let soa = parse_soa(&tokens);
    assert_eq!(soa.ttl, Some(900));
    assert_eq!(soa.serial, Serial::String(s("v1-beta")));
    assert_eq!(soa.refresh, 0);
    assert_eq!(soa.name, "z.");
}

#[test]
fn the_second_token_is_no_ttl_when_it_is_a_data_field() {
    let eight: Vec<Vec<char>> = ["SOA", "7", "r.", "1", "2", "3", "4", "5"].iter().map(|t| cs(t)).collect();
    let soa = parse_soa(&eight);
    assert_eq!(soa.ttl, None);
    assert_eq!(soa.mname, "7");
    let seven: Vec<Vec<char>> = ["9", "8", "1", "2", "3", "4", "5"].iter().map(|t| cs(t)).collect();
    let soa = parse_soa(&seven);
    assert_eq!(soa.ttl, None);
    assert_eq!(soa.name, "9");
    assert_eq!(soa.mname, "9");
    assert_eq!(soa.rname, "8");
    let nine: Vec<Vec<char>> = ["@", "8", "SOA", "m", "r", "1", "2", "3", "4"].iter().map(|t| cs(t)).collect();
    assert_eq!(parse_soa(&nine).ttl, Some(8));
}

// ----- accumulator -----

#[test]
fn names_are_inherited_within_a_kind() {
    let zone = parse_rrs("  A 1.1.1.1\nwww A 2.2.2.2\nmail MX 5 mx1\n  A 3.3.3.3\n  MX 6 mx2\n  NS ns1\n");
    assert_eq!(
        zone.a,
        Some(vec![
            A { name: s("@"), ip: s("1.1.1.1"), ttl: None },
            A { name: s("www"), ip: s("2.2.2.2"), ttl: None },
            A { name: s("www"), ip: s("3.3.3.3"), ttl: None },
        ])
    );
    assert_eq!(
        zone.mx,
        Some(vec![
            Mx { name: s("mail"), preference: 5, host: s("mx1"), ttl: None },
            Mx { name: s("mail"), preference: 6, host: s("mx2"), ttl: None },
        ])
    );
    assert_eq!(zone.ns, Some(vec![Ns { name: s("@"), host: s("ns1"), ttl: None }]));
    assert_eq!(zone.aaaa, None);
}

#[test]
fn the_origin_in_force_names_pointers() {
    let zone = parse_rrs("1 PTR a.\n$ORIGIN example.com.\n1 PTR b.\n$ORIGIN 10.in-addr.arpa.\n  PTR c.\n");
    assert_eq!(
        zone.ptr,
        Some(vec![
            Ptr { name: s("1"), fullname: s("1."), host: s("a."), ttl: None },
            Ptr { name: s("1"), fullname: s("1.example.com."), host: s("b."), ttl: None },
            Ptr { name: s("1"), fullname: s("1.10.in-addr.arpa."), host: s("c."), ttl: None },
        ])
    );
    assert_eq!(zone.origin, Some(s("10.in-addr.arpa.")));
}

#[test]
fn directives_set_origin_and_ttl() {
    let zone = parse_rrs("$ORIGIN example.com.\n$TTL 3600\n");
    assert_eq!(zone.origin, Some(s("example.com.")));
    assert_eq!(zone.ttl, Some(3600));
    assert!(!zone.is_empty());

    let zone = parse_rrs("$TTL soon\n");
    assert_eq!(zone.ttl, None);
    assert!(zone.is_empty());

    let zone = parse_rrs("$TTL 5\n$TTL\n$ORIGIN a.\n$ORIGIN\n");
    assert_eq!(zone.ttl, None);
    assert_eq!(zone.origin, None);

    let zone = parse_rrs(" $ORIGIN example.com.\n");
    assert!(zone.is_empty());
}

#[test]
fn unknown_types_are_passed_over() {
    let with = parse_rrs("www A 1.1.1.1\nhost HINFO \"PC\" \"Linux\"\n  A 2.2.2.2\n");
    let without = parse_rrs("www A 1.1.1.1\n  A 2.2.2.2\n");
    assert_eq!(with, without);
    assert_eq!(
        with.a,
        Some(vec![
            A { name: s("www"), ip: s("1.1.1.1"), ttl: None },
            A { name: s("www"), ip: s("2.2.2.2"), ttl: None },
        ])
    );
    assert_eq!(parse_flat("host HINFO \"PC\" \"Linux\"\n"), Err(s("Invalid DNS Zonefile")));
    assert!(parse_rrs("host 60 IN HINFO x y\n").is_empty());
    assert!(parse_rrs("www a 1.1.1.1\n").is_empty());
}

#[test]
fn lines_too_short_for_their_data_are_passed_over() {
    assert!(parse_rrs(" MX\n").is_empty());
    assert!(parse_rrs(" SRV 1 2\n").is_empty());
    assert!(parse_rrs(" CAA 0\n").is_empty());
    assert!(parse_rrs(" DS a b\n").is_empty());
    assert!(parse_rrs("@ SOA ns. admin. 1 2\n").is_empty());
    assert_eq!(parse_rrs("@ SOA ns. admin. 1 2 3\n").soa.unwrap().mname, "@");
    assert_eq!(parse_rrs(" A\n").a, Some(vec![A { name: s("@"), ip: s("A"), ttl: None }]));
    assert_eq!(
        parse_rrs("m MX\n").mx,
        Some(vec![Mx { name: s("m"), preference: 0, host: s("MX"), ttl: None }])
    );
}

#[test]
fn the_last_start_of_authority_stays() {
    let zone = parse_rrs("@ SOA a. b. 1 2 3 4 5\n@ 60 IN SOA c. d. x 7 8 9 10\n");
    assert_eq!(
        zone.soa,
        Some(Soa {
            name: s("@"),
            ttl: Some(60),
            mname: s("c."),
            rname: s("d."),
            serial: Serial::String(s("x")),
            refresh: 7,
            retry: 8,
            expire: 9,
            minimum: 10
        })
    );
}

#[test]
fn quoted_text_with_semicolon_survives_parsing() {
    let dns = DnsZonefile::default();
    let zone = dns.parse("@ IN TXT \"a;b\" ;real comment").unwrap();
    assert_eq!(zone.txt, Some(vec![Txt { name: s("@"), txt: s("\"a;b\""), ttl: None }]));
    let zone = dns.parse("@ IN TXT foo\\; bar ; comment").unwrap();
    assert_eq!(zone.txt, Some(vec![Txt { name: s("@"), txt: s("foo; bar"), ttl: None }]));
}

#[test]
fn pointer_full_name_under_the_origin() {
    let dns = DnsZonefile::default();
    let zone = dns.parse("$ORIGIN example.com.\n1 IN PTR host.example.com.\n").unwrap();
    assert_eq!(zone.ptr.unwrap()[0].fullname, "1.example.com.");
}

// ----- parse -----

#[test]
fn a_text_that_holds_nothing_is_rejected() {
    let dns = DnsZonefile::default();
    assert_eq!(dns.parse(""), Err(s("Invalid DNS Zonefile")));
    assert_eq!(dns.parse("; just a comment\n   ; and another\n"), Err(s("Invalid DNS Zonefile")));
    assert_eq!(dns.parse("\n\n  \n"), Err(s("Invalid DNS Zonefile")));
    assert_eq!(parse_flat(""), Err(s("Invalid DNS Zonefile")));
    assert_eq!(parse_flat("   \n\t\n"), Err(s("Invalid DNS Zonefile")));
    assert!(dns.parse("$TTL 1").is_ok());
}

#[test]
fn a_start_of_authority_across_lines_reads_as_on_one_line() {
    let dns = DnsZonefile::default();
    let across = "@ IN SOA ns1.example.com. admin.example.com. (
        2024010101 ; serial
        7200       ; refresh
        3600       ; retry
        1209600    ; expire
        86400      ; minimum
)
";
    let on_one = "@ IN SOA ns1.example.com. admin.example.com. 2024010101 7200 3600 1209600 86400\n";
    let a = dns.parse(across).unwrap();
    let b = dns.parse(on_one).unwrap();
    assert_eq!(a.soa, b.soa);
    assert_eq!(
        a.soa,
        Some(Soa {
            name: s("@"),
            ttl: None,
            mname: s("ns1.example.com."),
            rname: s("admin.example.com."),
            serial: Serial::Number(2024010101),
            refresh: 7200,
            retry: 3600,
            expire: 1209600,
            minimum: 86400
        })
    );
    assert_eq!(a, b);
}

#[test]
fn the_block_is_put_on_one_line() {
    let re_ws = Regex::new(WHITESPACE_PATTERN).unwrap();
    let re_soa = Regex::new(SOA_PATTERN).unwrap();
    let text = "$TTL 5\n@ IN soa a. b. (\n 1\n 2 3\n\t4 5 )\nwww A 1.1.1.1\n";
    assert_eq!(flatten_soa(&re_soa, &re_ws, text), "$TTL 5\n@ IN soa a. b.  1 2 3 4 5 \nwww A 1.1.1.1\n");
    assert_eq!(flatten_soa(&re_soa, &re_ws, "www A 1.1.1.1\n"), "www A 1.1.1.1\n");
    assert_eq!(flatten_soa(&re_soa, &re_ws, ""), "");
}

#[test]
fn splice_replaces_the_first_occurrence_only() {
    assert_eq!(splice_flattened("x (a\nb) y (a\nb)", "(a\nb)", "(a b)"), "x a b y (a\nb)");
    assert_eq!(splice_flattened("abc", "zz", "(q)"), "abc");
    assert_eq!(splice_flattened("abc", "b", "((()))"), "ac");
    assert_eq!(splice_flattened("abc", "", "-"), "-abc");
}

#[test]
fn parse_with_given_expressions() {
    let re_ws = Regex::new(WHITESPACE_PATTERN).unwrap();
    let re_soa = Regex::new(SOA_PATTERN).unwrap();
    let zone = parse(&re_ws, &re_soa, "www 60 A 1.1.1.1 ; web\n").unwrap();
    let mut expected = DnsRecord::default();
    expected.a = Some(vec![A { name: s("www"), ip: s("1.1.1.1"), ttl: Some(60) }]);
    assert_eq!(zone, expected);
    assert_eq!(parse(&re_ws, &re_soa, ";\n"), Err(s("Invalid DNS Zonefile")));
}
