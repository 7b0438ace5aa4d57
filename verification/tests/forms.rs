use ifconfig_rs::helpers::{gen_response, Config, Protocol, Request};
use ifconfig_rs::json::{json, json_pretty, json_text};
use ifconfig_rs::present::{entry_line, labeled, lines, plain};
use ifconfig_rs::ssr::Beautifier;

fn service() -> Config {
    Config {
        host: false,
        serve_path: "/srv".to_string(),
        css_file: "styles.min.css".to_string(),
        bind_ip: "127.0.0.1".to_string(),
        port: 8080,
    }
}

fn asked(headers: &[(&str, &[u8])]) -> Request {
    Request {
        peer: Some("203.0.113.7".to_string()),
        method: "GET".to_string(),
        protocol: Protocol::Http11,
        headers: headers.iter().map(|(name, value)| (name.to_string(), value.to_vec())).collect(),
    }
}

fn entries(list: &[(&str, &str)]) -> Vec<(String, String)> {
    list.iter().map(|(key, value)| (key.to_string(), value.to_string())).collect()
}

fn sample() -> Vec<(String, String)> {
    gen_response(
        &asked(&[("host", b"example.org"), ("accept", b"*/*"), ("user-agent", b"curl/8.0")]),
        &service(),
    )
}

#[test]
fn a_line_is_key_colon_space_value() {
    assert_eq!(entry_line("host", "example.org"), "host: example.org");
    assert_eq!(entry_line("", ""), ": ");
    assert_eq!(entry_line("a: b", "c: d"), "a: b: c: d");
}

#[test]
fn lines_come_one_for_each_entry() {
    assert_eq!(
        lines(&sample()),
        vec![
            "ip_address: 203.0.113.7",
            "accept: */*",
            "user-agent: curl/8.0",
            "host: example.org",
            "version: HTTP/1.1",
            "method: GET",
        ]
    );
    assert_eq!(lines(&entries(&[])), Vec::<String>::new());
}

#[test]
fn plain_text_ends_every_line() {
    assert_eq!(
        plain(&sample()),
        "ip_address: 203.0.113.7\naccept: */*\nuser-agent: curl/8.0\nhost: example.org\nversion: HTTP/1.1\nmethod: GET\n"
    );
    assert_eq!(plain(&entries(&[])), "");
    assert_eq!(plain(&entries(&[("a", "b")])), "a: b\n");
}

#[test]
fn rows_carry_labels() {
    assert_eq!(
        labeled(&sample()),
        entries(&[
            ("IP Address", "203.0.113.7"),
            ("Accept", "*/*"),
            ("User Agent", "curl/8.0"),
            ("Host", "example.org"),
            ("Version", "HTTP/1.1"),
            ("Method", "GET"),
        ])
    );
    assert_eq!(labeled(&entries(&[])), entries(&[]));
}

#[test]
fn json_text_keeps_the_order_of_the_list() {
    assert_eq!(
        json_text(&sample()),
        "{\"ip_address\":\"203.0.113.7\",\"accept\":\"*/*\",\"user-agent\":\"curl/8.0\",\"host\":\"example.org\",\"version\":\"HTTP/1.1\",\"method\":\"GET\"}"
    );
}

#[test]
fn json_text_of_nothing_is_an_empty_object() {
    assert_eq!(json_text(&entries(&[])), "{}");
    assert_eq!(json_pretty(&entries(&[])), "{}");
}

#[test]
fn json_pretty_puts_each_member_on_a_line() {
    assert_eq!(
        json_pretty(&entries(&[("ip_address", "203.0.113.7"), ("method", "GET")])),
        "{\n  \"ip_address\": \"203.0.113.7\",\n  \"method\": \"GET\"\n}"
    );
}

#[test]
fn json_is_an_object_of_strings() {
    let body = json(&sample());
    let object = body.as_object().unwrap();
    assert_eq!(object.len(), 6);
    for (key, value) in sample().iter() {
        assert_eq!(object.get(key.as_str()).unwrap().as_str(), Some(value.as_str()));
    }
    let order: Vec<&str> = object.keys().map(|key| key.as_str()).collect();
    assert_eq!(order, vec!["ip_address", "accept", "user-agent", "host", "version", "method"]);
}

#[test]
fn json_sets_a_key_that_comes_twice_in_its_first_place() {
    let list = entries(&[("a", "1"), ("b", "2"), ("a", "3"), ("c", "4"), ("b", "5")]);
    assert_eq!(json_text(&list), "{\"a\":\"3\",\"b\":\"5\",\"c\":\"4\"}");
}

#[test]
fn json_text_can_be_read_back() {
    let list = entries(&[("user-agent", "a \"quoted\" \\ agent\t"), ("host", "h\u{e9}")]);
    let read: serde_json::Value = serde_json::from_str(&json_text(&list)).unwrap();
    assert_eq!(read, json(&list));
    assert_eq!(read["user-agent"].as_str(), Some("a \"quoted\" \\ agent\t"));
    let read: serde_json::Value = serde_json::from_str(&json_pretty(&list)).unwrap();
    assert_eq!(read, json(&list));
}

#[test]
fn the_three_forms_show_the_same_keys_in_the_same_order() {
    let requests = [
        asked(&[]),
        asked(&[("server", b"s"), ("accept", b"a"), ("cookie", b"c"), ("host", b"")]),
        asked(&[
            ("accept-ranges", b"bytes"),
            ("accept-charset", b"utf-8"),
            ("accept-language", b"en"),
            ("accept-encoding", b"gzip"),
            ("version", b"HTTP/2"),
        ]),
    ];
    for req in requests.iter() {
        let list = gen_response(req, &service());
        let keys: Vec<String> = list.iter().map(|(key, _)| key.clone()).collect();

        let text = plain(&list);
        let from_text: Vec<String> =
            text.lines().map(|l| l.split(": ").next().unwrap().to_string()).collect();
        assert_eq!(from_text, keys);

        let body = json(&list);
        let from_json: Vec<String> = body.as_object().unwrap().keys().cloned().collect();
        assert_eq!(from_json, keys);

        let from_rows: Vec<String> = labeled(&list).into_iter().map(|(label, _)| label).collect();
        let labels: Vec<String> = keys.iter().map(|key| key.as_pretty()).collect();
        assert_eq!(from_rows, labels);

        let values: Vec<String> = list.iter().map(|(_, value)| value.clone()).collect();
        let row_values: Vec<String> = labeled(&list).into_iter().map(|(_, value)| value).collect();
        assert_eq!(row_values, values);
    }
}

#[test]
fn what_is_left_out_of_the_list_is_in_no_form() {
    let req = asked(&[("accept", b""), ("cookie", b"secret=1"), ("host", b"example.org")]);
    let list = gen_response(&req, &service());
    let text = plain(&list);
    assert!(!text.contains("accept"));
    assert!(!text.contains("cookie"));
    assert!(!text.contains("secret"));
    let compact = json_text(&list);
    assert!(!compact.contains("accept"));
    assert!(!compact.contains("cookie"));
    assert!(!compact.contains("secret"));
    for (label, value) in labeled(&list) {
        assert_ne!(label, "Accept");
        assert_ne!(label, "Cookie");
        assert_ne!(value, "secret=1");
    }
}
