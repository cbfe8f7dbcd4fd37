use subconverter::line::parse_line;
use subconverter::source::{parse_txt, process_file, process_txt, process_url, SourceError};

fn parse(line: &str, default_port: u16) -> Option<(String, String)> {
    let cs: Vec<char> = line.chars().collect();
    parse_line(&cs, default_port)
        .map(|(a, p)| (a.into_iter().collect::<String>(), p.into_iter().collect::<String>()))
}

fn pair(a: &str, p: &str) -> Option<(String, String)> {
    Some((a.to_string(), p.to_string()))
}

#[test]
fn line_forms_give_address_and_port() {
    assert_eq!(parse("1.2.3.4,443", 80), pair("1.2.3.4", "443"));
    assert_eq!(parse("1.2.3.4 443", 80), pair("1.2.3.4", "443"));
    assert_eq!(parse("1.2.3.4:443", 80), pair("1.2.3.4", "443"));
    assert_eq!(parse("[2606:4700::1]:443", 80), pair("[2606:4700::1]", "443"));
    assert_eq!(parse("example.com:8443", 80), pair("example.com", "8443"));
    assert_eq!(parse("1.2.3.4, 2053", 80), pair("1.2.3.4", "2053"));
}

#[test]
fn bare_address_takes_default_port() {
    assert_eq!(parse("1.2.3.4", 2096), pair("1.2.3.4", "2096"));
    assert_eq!(parse("example.com", 0), pair("example.com", "0"));
}

#[test]
fn ipv6_forms_get_brackets() {
    assert_eq!(parse("2606:4700::1 443", 80), pair("[2606:4700::1]", "443"));
    assert_eq!(parse("2606:4700::1, 443", 80), pair("[2606:4700::1]", "443"));
    assert_eq!(parse("2606:4700::1 , 443", 80), pair("[2606:4700::1]", "443"));
    assert_eq!(parse("2606:4700::1,443", 80), pair("[2606:4700::1]", "443"));
}

#[test]
fn bare_ipv6_is_unparseable() {
    assert_eq!(parse("2606:4700::1", 443), None);
}

#[test]
fn whitespace_and_comma_splits() {
    assert_eq!(parse("example.com 8443", 80), pair("example.com", "8443"));
    assert_eq!(parse("example.com\t \t8443", 80), pair("example.com", "8443"));
    assert_eq!(parse("[::1],443", 80), pair("[::1]", "443"));
}

#[test]
fn two_spellings_collapse_to_one_record() {
    let recs = parse_txt("1.2.3.4 443\n1.2.3.4,443\n1.2.3.4:443\n", 80);
    assert_eq!(recs.len(), 1);
    assert_eq!(recs[0].addr, "1.2.3.4");
    assert_eq!(recs[0].port, Some(443));
}

#[test]
fn text_list_skips_cidr_blank_and_repeats() {
    let text = "  1.1.1.1 443 \r\n\n10.0.0.0/8\n2.2.2.2\n1.1.1.1 443\n3.3.3.3 99999\n:80\n";
    let recs = parse_txt(text, 8443);
    let got: Vec<(String, Option<u16>)> = recs.iter().map(|r| (r.addr.clone(), r.port)).collect();
    assert_eq!(
        got,
        vec![
            ("1.1.1.1".to_string(), Some(443)),
            ("2.2.2.2".to_string(), Some(8443)),
            ("3.3.3.3".to_string(), None),
        ]
    );
    assert_eq!(recs[0].colo, "");
}

#[test]
fn empty_text_gives_no_records() {
    assert!(parse_txt("", 443).is_empty());
    assert!(parse_txt("\n \n", 443).is_empty());
}

#[test]
fn port_text_with_plus_sign_is_read() {
    let recs = parse_txt("1.2.3.4:+443\n5.6.7.8:65535\n", 80);
    assert_eq!(recs[0].port, Some(443));
    assert_eq!(recs[1].port, Some(65535));
}

#[test]
fn skipped_list_name_is_an_error() {
    assert_eq!(process_txt("ipv6.txt", "1.1.1.1", 443).err(), Some(SourceError::SkippedFile));
    assert_eq!(process_txt("ips-v4.txt", "1.1.1.1", 443).err(), Some(SourceError::SkippedFile));
    assert_eq!(process_txt("data/ip.txt", "1.1.1.1", 443).map(|v| v.len()).ok(), Some(1));
}

#[test]
fn file_kind_follows_extension() {
    assert_eq!(process_file("data/list.json", "1.1.1.1", 443).err(), Some(SourceError::UnsupportedFile));
    assert_eq!(process_file("data/.txt", "1.1.1.1", 443).err(), Some(SourceError::UnsupportedFile));
    assert_eq!(process_file("data/list", "1.1.1.1", 443).err(), Some(SourceError::UnsupportedFile));
    let txt = process_file("data/list.txt", "1.1.1.1\n", 443).ok().unwrap();
    assert_eq!(txt[0].port, Some(443));
    let csv = process_file("data/list.csv", "IP,PORT\n1.1.1.1,2053\n", 443).ok().unwrap();
    assert_eq!(csv[0].port, Some(2053));
}

#[test]
fn link_kind_ignores_case() {
    let recs = process_url("https://example.com/IP.TXT", "1.1.1.1 443", 80).ok().unwrap();
    assert_eq!(recs.len(), 1);
    assert_eq!(recs[0].addr, "1.1.1.1");
    let table = process_url("https://example.com/Result.CSV", "ip,port\n2.2.2.2,8443\n", 80).ok().unwrap();
    assert_eq!(table[0].port, Some(8443));
    assert_eq!(process_url("https://example.com/a.json", "", 80).err(), Some(SourceError::UnsupportedLink));
}

#[test]
fn ipv6_pattern_decides_brackets() {
    assert_eq!(parse("a:b:c 443", 80), pair("a:b:c", "443"));
    assert_eq!(parse("fe80::1%eth0 443", 80), pair("[fe80::1%eth0]", "443"));
    assert_eq!(parse("1:2:3:4:5:6:7:8 443", 80), pair("[1:2:3:4:5:6:7:8]", "443"));
    assert_eq!(parse(":: 443", 80), pair("[::]", "443"));
    assert_eq!(parse("12345::1 443", 80), pair("12345::1", "443"));
}

#[test]
fn comma_form_is_found_anywhere() {
    assert_eq!(parse("host 2606:4700::1, 443", 80), pair("[2606:4700::1]", "443"));
    assert_eq!(parse("abc 1:2,443 tail", 80), pair("[1:2]", "443"));
}
