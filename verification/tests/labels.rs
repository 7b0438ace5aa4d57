use ifconfig_rs::ssr::Beautifier;

fn label(key: &str) -> String {
    key.to_string().as_pretty()
}

#[test]
fn label_of_ip_address() {
    assert_eq!(label("ip_address"), "IP Address");
}

#[test]
fn label_of_accept_language() {
    assert_eq!(label("accept-language"), "Accept Language");
}

#[test]
fn label_of_method() {
    assert_eq!(label("method"), "Method");
}

#[test]
fn label_of_every_reported_key() {
    assert_eq!(label("accept"), "Accept");
    assert_eq!(label("accept-encoding"), "Accept Encoding");
    assert_eq!(label("accept-charset"), "Accept Charset");
    assert_eq!(label("accept-ranges"), "Accept Ranges");
    assert_eq!(label("user-agent"), "User Agent");
    assert_eq!(label("host"), "Host");
    assert_eq!(label("server"), "Server");
    assert_eq!(label("version"), "Version");
}

#[test]
fn label_of_nothing_is_nothing() {
    assert_eq!(label(""), "");
}

#[test]
fn ip_is_an_acronym_only_where_a_word_starts() {
    assert_eq!(label("ip"), "IP");
    assert_eq!(label("my_ip"), "My IP");
    assert_eq!(label("x-ip-y"), "X IP Y");
    assert_eq!(label("zip"), "Zip");
    assert_eq!(label("ipip"), "IPip");
    assert_eq!(label("tip_top"), "Tip Top");
}

#[test]
fn a_lone_i_is_a_letter_like_any_other() {
    assert_eq!(label("i"), "I");
    assert_eq!(label("in"), "In");
    assert_eq!(label("i_p"), "I P");
}

#[test]
fn breaks_become_spaces_one_for_one() {
    assert_eq!(label("a--b"), "A  B");
    assert_eq!(label("-ip"), " IP");
    assert_eq!(label("_"), " ");
    assert_eq!(label("a_"), "A ");
}

#[test]
fn what_is_no_letter_is_copied_and_starts_no_word() {
    assert_eq!(label("1abc"), "1Abc");
    assert_eq!(label("a b"), "A b");
    assert_eq!(label("q=0.9"), "Q=0.9");
    assert_eq!(label("\u{e9}_x"), "\u{e9} X");
    assert_eq!(label("\u{e9}t\u{e9}"), "\u{e9}T\u{e9}");
}

#[test]
fn upper_case_stays_upper_case() {
    assert_eq!(label("HOST"), "HOST");
    assert_eq!(label("IP_ADDRESS"), "IP ADDRESS");
}

#[test]
fn a_label_is_its_own_label() {
    for text in ["IP Address", "Accept Language", "Method", "User Agent", " IP", "1Abc", "A  B"] {
        assert_eq!(label(text), text);
    }
}

#[test]
fn labelling_twice_is_labelling_once() {
    for key in [
        "ip_address",
        "accept-language",
        "method",
        "",
        "ip",
        "-ip",
        "zip",
        "ipip",
        "1ip",
        "a b",
        " a",
        "x-forwarded-for",
        "\u{e9}_ip",
        "__init__",
    ] {
        let once = label(key);
        assert_eq!(label(&once), once);
    }
}

#[test]
fn breakline_ends_the_line() {
    let mut text = String::from("127.0.0.1");
    text.breakline();
    assert_eq!(text, "127.0.0.1\n");
    text.breakline();
    assert_eq!(text, "127.0.0.1\n\n");
}
