use actix_http::header::{
    HeaderValue, ACCEPT, ACCEPT_CHARSET, ACCEPT_ENCODING, ACCEPT_LANGUAGE, ACCEPT_RANGES, HOST,
    SERVER, USER_AGENT,
};
use actix_http::Version;
use actix_web::http::header::ContentType;
use actix_web::test::TestRequest;
use actix_web::HttpRequest;
use ifconfig_rs::helpers::{gen_response, header_list, protocol_name, Config, Protocol, Request};
use ifconfig_rs::routes::{index, index_all_json, Reply};
use ifconfig_rs::ssr::{page, Page};
use ifconfig_rs::text::visible_text;

fn as_the_server_reads(bytes: &[u8]) -> Option<String> {
    HeaderValue::from_bytes(bytes).ok().and_then(|value| value.to_str().ok().map(String::from))
}

fn local() -> Config {
    Config {
        host: false,
        serve_path: "/srv".to_string(),
        css_file: "styles.min.css".to_string(),
        bind_ip: "127.0.0.1".to_string(),
        port: 8080,
    }
}

fn blank_page() -> Page {
    let req = Request {
        peer: None,
        method: "GET".to_string(),
        protocol: Protocol::Http11,
        headers: Vec::new(),
    };
    page(&req, &local(), String::new())
}

fn seen(req: &HttpRequest) -> Request {
    let version = req.version();
    Request {
        peer: req.connection_info().realip_remote_addr().map(str::to_owned),
        method: req.method().as_str().to_owned(),
        protocol: if version == Version::HTTP_09 {
            Protocol::Http09
        } else if version == Version::HTTP_10 {
            Protocol::Http10
        } else if version == Version::HTTP_2 {
            Protocol::Http2
        } else if version == Version::HTTP_3 {
            Protocol::Http3
        } else {
            Protocol::Http11
        },
        headers: req
            .headers()
            .iter()
            .map(|(name, value)| (name.as_str().to_owned(), value.as_bytes().to_vec()))
            .collect(),
    }
}

#[test]
fn header_values_read_as_the_server_reads_them() {
    for byte in 0..=255u8 {
        assert_eq!(visible_text(&vec![byte]), as_the_server_reads(&[byte]), "byte {}", byte);
        assert_eq!(
            visible_text(&vec![b'a', byte, b'z']),
            as_the_server_reads(&[b'a', byte, b'z']),
            "byte {}",
            byte
        );
    }
    assert_eq!(visible_text(&b"text/html;q=0.9".to_vec()), as_the_server_reads(b"text/html;q=0.9"));
    assert_eq!(visible_text(&Vec::new()), as_the_server_reads(b""));
}

#[test]
fn reported_headers_go_by_their_standard_names() {
    let standard = vec![
        ACCEPT.as_str(),
        ACCEPT_ENCODING.as_str(),
        ACCEPT_LANGUAGE.as_str(),
        ACCEPT_CHARSET.as_str(),
        ACCEPT_RANGES.as_str(),
        USER_AGENT.as_str(),
        HOST.as_str(),
        SERVER.as_str(),
    ];
    assert_eq!(header_list(), standard);
}

#[test]
fn protocols_are_written_as_the_server_writes_them() {
    assert_eq!(protocol_name(Protocol::Http09), format!("{:?}", Version::HTTP_09));
    assert_eq!(protocol_name(Protocol::Http10), format!("{:?}", Version::HTTP_10));
    assert_eq!(protocol_name(Protocol::Http11), format!("{:?}", Version::HTTP_11));
    assert_eq!(protocol_name(Protocol::Http2), format!("{:?}", Version::HTTP_2));
    assert_eq!(protocol_name(Protocol::Http3), format!("{:?}", Version::HTTP_3));
}

#[test]
fn content_types_are_the_standard_ones() {
    assert_eq!(Reply::Text(String::new()).content_type(), ContentType::plaintext().to_string());
    assert_eq!(Reply::Json(String::new()).content_type(), ContentType::json().to_string());
    assert_eq!(Reply::Page(blank_page()).content_type(), ContentType::html().to_string());
}

#[test]
fn a_request_without_a_peer_is_answered_with_the_bind_address() {
    let req = TestRequest::default()
        .insert_header((USER_AGENT, "curl"))
        .insert_header((ACCEPT, "*/*"))
        .insert_header((HOST, local().bind_ip))
        .to_http_request();
    match index(&seen(&req), &local()) {
        Reply::Text(body) => assert_eq!(body.as_bytes(), format!("{}\n", local().bind_ip).as_bytes()),
        other => panic!("no text: {:?}", other),
    }
}

#[test]
fn a_request_with_a_peer_is_answered_with_its_address() {
    let req = TestRequest::default()
        .insert_header((USER_AGENT, "curl/8.0"))
        .peer_addr("203.0.113.7:4711".parse().unwrap())
        .to_http_request();
    match index(&seen(&req), &local()) {
        Reply::Text(body) => assert_eq!(body, "203.0.113.7\n"),
        other => panic!("no text: {:?}", other),
    }
}

#[test]
fn a_forwarded_request_is_answered_with_the_address_it_came_from() {
    let req = TestRequest::default()
        .insert_header((USER_AGENT, "curl/8.0"))
        .insert_header(("x-forwarded-for", "198.51.100.4"))
        .peer_addr("10.0.0.1:4711".parse().unwrap())
        .to_http_request();
    let list = gen_response(&seen(&req), &local());
    assert_eq!(list[0], ("ip_address".to_string(), "198.51.100.4".to_string()));
    assert!(list.iter().all(|(key, _)| key != "x-forwarded-for"));
}

#[test]
fn a_request_of_a_browser_is_answered_with_a_page() {
    let req = TestRequest::default()
        .insert_header((USER_AGENT, "Mozilla/5.0"))
        .insert_header((ACCEPT, "text/html"))
        .insert_header((HOST, local().bind_ip))
        .to_http_request();
    match index(&seen(&req), &local()) {
        Reply::Page(shown) => {
            assert_eq!(shown.ip, local().bind_ip);
            assert_eq!(
                shown.details,
                vec![
                    ("IP Address".to_string(), "127.0.0.1".to_string()),
                    ("Accept".to_string(), "text/html".to_string()),
                    ("User Agent".to_string(), "Mozilla/5.0".to_string()),
                    ("Host".to_string(), "127.0.0.1".to_string()),
                    ("Version".to_string(), "HTTP/1.1".to_string()),
                    ("Method".to_string(), "GET".to_string()),
                ]
            );
        },
        other => panic!("no page: {:?}", other),
    }
}

#[test]
fn the_headers_of_a_request_are_listed_whatever_their_case() {
    let req = TestRequest::post()
        .insert_header(("Accept-Language", "en-US,en;q=0.9"))
        .insert_header(("VERSION", "HTTP/2"))
        .insert_header(("Cookie", "a=b"))
        .version(Version::HTTP_10)
        .to_http_request();
    match index_all_json(&seen(&req), &local()) {
        Reply::Json(body) => assert_eq!(
            body,
            "{\"ip_address\":\"127.0.0.1\",\"accept-language\":\"en-US,en;q=0.9\",\"version\":\"HTTP/2\",\"method\":\"POST\"}"
        ),
        other => panic!("no object: {:?}", other),
    }
}
