use subconverter::source::map_table;
use subconverter::collect::{process_network_data, read_files_data, SourceFile};
use subconverter::source::{process_csv, SourceError};

#[test]
fn headers_match_without_case_and_by_alias() {
    for header in ["IP,PORT,colo", "ip,port,COLO", "IP地址,端口,数据中心", " Ip , Port ,IATA"] {
        let text = format!("{}\n1.1.1.1,2053,SJC\n", header);
        let recs = process_csv(&text, 443).ok().unwrap();
        assert_eq!(recs.len(), 1, "{}", header);
        assert_eq!(recs[0].addr, "1.1.1.1");
        assert_eq!(recs[0].port, Some(2053));
        assert_eq!(recs[0].colo, "SJC");
    }
}

#[test]
fn earlier_alias_wins() {
    let recs = process_csv("网络地址,IP\nA,B\n", 443).ok().unwrap();
    assert_eq!(recs[0].addr, "B");
}

#[test]
fn row_without_address_is_skipped_and_port_defaults() {
    let text = "IP,PORT,city,region,Country Code\n,443,x,y,z\n1.1.1.1,abc,Tokyo,Asia,JP\n2.2.2.2,,Paris,Europe,FR\n";
    let recs = process_csv(text, 8443).ok().unwrap();
    assert_eq!(recs.len(), 2);
    assert_eq!(recs[0].port, Some(8443));
    assert_eq!(recs[0].city, "Tokyo");
    assert_eq!(recs[0].region, "Asia");
    assert_eq!(recs[0].loc, "JP");
    assert_eq!(recs[1].port, Some(8443));
}

#[test]
fn missing_columns_are_empty() {
    let recs = process_csv("IP\n1.1.1.1\n", 443).ok().unwrap();
    assert_eq!(recs[0].port, Some(443));
    assert_eq!(recs[0].colo, "");
    let none = process_csv("name,value\nx,y\n", 443).ok().unwrap();
    assert!(none.is_empty());
}

#[test]
fn ragged_table_is_malformed() {
    assert_eq!(
        process_csv("IP,PORT\n1.1.1.1,443,extra\n", 443).err(),
        Some(SourceError::MalformedTable)
    );
}

fn file(name: &str, text: &str) -> SourceFile {
    SourceFile { name: name.to_string(), text: text.to_string() }
}

#[test]
fn files_merge_dedup_and_cap() {
    let files = vec![
        file("d/a.csv", "IP,PORT,colo\n1.1.1.1,443,SJC\n2.2.2.2,443,LAX\n"),
        file("d/b.txt", "1.1.1.1 443\n3.3.3.3\n4.4.4.4 2053\n"),
        file("d/c.json", "5.5.5.5"),
    ];
    let got = read_files_data("colo", 443, 3, &files);
    let keys: Vec<(String, Option<u16>, String)> =
        got.iter().map(|d| (d.addr.clone(), d.port, d.alias.clone())).collect();
    assert_eq!(
        keys,
        vec![
            ("1.1.1.1".to_string(), Some(443), "SJC".to_string()),
            ("2.2.2.2".to_string(), Some(443), "LAX".to_string()),
            ("3.3.3.3".to_string(), Some(443), "".to_string()),
        ]
    );
    assert!(read_files_data("colo", 443, 0, &files).is_empty());
}

#[test]
fn unknown_alias_column_gives_empty_alias() {
    let files = vec![file("d/a.csv", "IP,colo\n1.1.1.1,SJC\n")];
    let got = read_files_data("asn", 443, 10, &files);
    assert_eq!(got[0].alias, "");
}

#[test]
fn network_source_needs_https() {
    let body = "IP,PORT,cca2\n1.1.1.1,443,US\n1.1.1.1,443,US\n";
    let got = process_network_data("loc", 443, 10, "HTTPS://example.com/r.csv", body);
    assert_eq!(got.len(), 1);
    assert_eq!(got[0].alias, "US");
    assert!(process_network_data("loc", 443, 10, "http://example.com/r.csv", body).is_empty());
    assert!(process_network_data("loc", 443, 10, "https://example.com/r.json", body).is_empty());
}

#[test]
fn table_rows_map_to_records() {
    let headers = vec!["IP".to_string(), "region".to_string()];
    let rows = vec![
        vec!["9.9.9.9".to_string(), "EU".to_string()],
        vec!["".to_string(), "US".to_string()],
    ];
    let recs = map_table(&headers, &rows, 2087);
    assert_eq!(recs.len(), 1);
    assert_eq!(recs[0].region, "EU");
    assert_eq!(recs[0].port, Some(2087));
}
