//! Labels for keys, and the page that shows a request to a person.

use crate::build_id::{build_label, running_label};
use crate::helpers::{
    address_of, gen_response, header, header_text, lemma_response_list, response_list, Config,
    Request, RequestView,
};
use crate::json::{json_pretty, lemma_object_of_distinct, pretty_json};
use crate::present::{labeled, labels_of, lines, lines_of};
use crate::routes::{ALL, ALL_JSON};
use crate::text::{char_is_letter, char_upper, chars_of, is_letter, second_of, second_piece, upper};
use vstd::prelude::*;

verus! {

/// The label of a key, read from its first character on. `capitalize` says
/// whether the next letter starts a word.
///
/// A `-` or `_` becomes a space, and the letter after it starts a word. A
/// letter that starts a word is put in upper case; where the word starts with
/// `ip`, both letters are. Every other character stays as it is.
pub open spec fn beautify_with(key: Seq<char>, capitalize: bool) -> Seq<char>
    decreases key.len(),
{
    if key.len() == 0 {
        Seq::empty()
    } else if key[0] == '-' || key[0] == '_' {
        seq![' '] + beautify_with(key.drop_first(), true)
    } else if capitalize && key[0] == 'i' && key.len() >= 2 && key[1] == 'p' {
        seq!['I', 'P'] + beautify_with(key.skip(2), false)
    } else if capitalize && is_letter(key[0]) {
        seq![upper(key[0])] + beautify_with(key.drop_first(), false)
    } else {
        seq![key[0]] + beautify_with(key.drop_first(), capitalize)
    }
}

/// The label of a key: `ip_address` reads `IP Address`.
pub open spec fn beautify(key: Seq<char>) -> Seq<char> {
    beautify_with(key, true)
}

/// Text that can end a line and be shown as a label.
pub trait Beautifier: View<V = Seq<char>> {
    /// Ends the line: a line feed is put after the text.
    fn breakline(&mut self)
        ensures
            final(self)@ == old(self)@.push('\n'),
    ;

    /// The text as a label.
    fn as_pretty(&self) -> (label: String)
        ensures
            label@ == beautify(self@),
    ;
}

impl Beautifier for String {
    fn breakline(&mut self) {
        self.push('\n');
    }

    fn as_pretty(&self) -> (label: String) {
        let key = chars_of(self.as_str());
        let n = key.len();
        let mut label = String::new();
        let mut capitalize = true;
        let mut i: usize = 0;
        proof {
            assert(key@.skip(0) =~= key@);
        }
        while i < n
            invariant
                n == key@.len(),
                key@ == self@,
                i <= n,
                beautify(key@) == label@ + beautify_with(key@.skip(i as int), capitalize),
            decreases n - i,
        {
            let c = key[i];
            let ghost rest = key@.skip(i as int);
            proof {
                assert(rest.drop_first() =~= key@.skip(i + 1));
            }
            if c == '-' || c == '_' {
                label.push(' ');
                capitalize = true;
                i += 1;
            } else if capitalize && c == 'i' && i + 1 < n && key[i + 1] == 'p' {
                label.push('I');
                label.push('P');
                capitalize = false;
                proof {
                    assert(rest.skip(2) =~= key@.skip(i + 2));
                }
                i += 2;
            } else if capitalize && char_is_letter(c) {
                label.push(char_upper(c));
                capitalize = false;
                i += 1;
            } else {
                label.push(c);
                i += 1;
            }
        }
        label
    }
}

/// No character of `label` is a `-` or a `_`.
pub open spec fn has_no_break(label: Seq<char>) -> bool {
    forall|k: int| 0 <= k < label.len() ==> label[k] != '-' && label[k] != '_'
}

/// The first letter of `label`, where it has one, is in upper case.
pub open spec fn starts_upper(label: Seq<char>) -> bool
    decreases label.len(),
{
    if label.len() == 0 {
        true
    } else if is_letter(label[0]) {
        'A' <= label[0] && label[0] <= 'Z'
    } else {
        starts_upper(label.drop_first())
    }
}

/// A label holds neither `-` nor `_`.
pub proof fn lemma_label_has_no_break(key: Seq<char>, capitalize: bool)
    ensures
        has_no_break(beautify_with(key, capitalize)),
    decreases key.len(),
{
    if key.len() == 0 {
    } else if key[0] == '-' || key[0] == '_' {
        lemma_label_has_no_break(key.drop_first(), true);
    } else if capitalize && key[0] == 'i' && key.len() >= 2 && key[1] == 'p' {
        lemma_label_has_no_break(key.skip(2), false);
    } else if capitalize && is_letter(key[0]) {
        lemma_label_has_no_break(key.drop_first(), false);
    } else {
        lemma_label_has_no_break(key.drop_first(), capitalize);
    }
}

/// The first letter of a label is in upper case.
pub proof fn lemma_label_starts_upper(key: Seq<char>)
    ensures
        starts_upper(beautify_with(key, true)),
    decreases key.len(),
{
    let label = beautify_with(key, true);
    if key.len() > 0 && !is_letter(key[0]) {
        lemma_label_starts_upper(key.drop_first());
        assert(label.drop_first() =~= beautify_with(key.drop_first(), true));
    }
}

/// Past its first letter, text without `-` and `_` is its own label.
pub proof fn lemma_rest_is_kept(label: Seq<char>)
    requires
        has_no_break(label),
    ensures
        beautify_with(label, false) == label,
    decreases label.len(),
{
    if label.len() > 0 {
        lemma_rest_is_kept(label.drop_first());
    }
}

/// Text that holds neither `-` nor `_` and whose first letter is in upper
/// case is its own label.
pub proof fn lemma_beautify_keeps_labels(label: Seq<char>)
    requires
        has_no_break(label),
        starts_upper(label),
    ensures
        beautify(label) == label,
    decreases label.len(),
{
    if label.len() > 0 {
        if is_letter(label[0]) {
            lemma_rest_is_kept(label.drop_first());
        } else {
            lemma_beautify_keeps_labels(label.drop_first());
        }
    }
}

/// The label of a label is that label.
pub proof fn lemma_beautify_idempotent(key: Seq<char>)
    ensures
        beautify(beautify(key)) == beautify(key),
{
    lemma_label_has_no_break(key, true);
    lemma_label_starts_upper(key);
    lemma_beautify_keeps_labels(beautify(key));
}

/// A command a reader can run, and what it would print for this request.
#[derive(Clone, Debug)]
pub struct Example {
    /// What to type after the name of the tool: the host, then the path.
    pub command: String,
    /// The answer, line by line.
    pub output: Vec<String>,
}

/// An example as the contracts see it.
pub struct ExampleView {
    pub command: Seq<char>,
    pub output: Seq<Seq<char>>,
}

impl View for Example {
    type V = ExampleView;

    open spec fn view(&self) -> ExampleView {
        ExampleView { command: self.command@, output: self.output.deep_view() }
    }
}

/// What the page for a person shows. Markup and style are left to whoever draws it.
#[derive(Clone, Debug)]
pub struct Page {
    /// The language of the page.
    pub lang: String,
    /// Where the style sheet is served.
    pub stylesheet: String,
    /// The client's address, the one thing the page is for.
    pub ip: String,
    /// The request, entry by entry, each under its label.
    pub details: Vec<(String, String)>,
    /// How to ask for the same by program.
    pub examples: Vec<Example>,
    /// The build that serves the page.
    pub build_id: String,
}

/// A page as the contracts see it.
pub struct PageView {
    pub lang: Seq<char>,
    pub stylesheet: Seq<char>,
    pub ip: Seq<char>,
    pub details: Seq<(Seq<char>, Seq<char>)>,
    pub examples: Seq<ExampleView>,
    pub build_id: Seq<char>,
}

impl View for Page {
    type V = PageView;

    open spec fn view(&self) -> PageView {
        PageView {
            lang: self.lang@,
            stylesheet: self.stylesheet@,
            ip: self.ip@,
            details: self.details.deep_view(),
            examples: Seq::new(self.examples@.len(), |i: int| self.examples@[i]@),
            build_id: self.build_id@,
        }
    }
}

/// The language of the page: the second of the pieces of what the request
/// accepts, which in `en-US,en;q=0.9` is `en`. English where the request
/// names no language or only one.
pub open spec fn language_of(accepted: Option<Seq<char>>) -> Seq<char> {
    match accepted {
        Some(t) => match second_piece(t) {
            Some(piece) => piece,
            None => "en"@,
        },
        None => "en"@,
    }
}

/// The host the examples name: the one the request was sent to, or the
/// address the service is bound to where the request names none.
pub open spec fn host_of(req: RequestView, bind_ip: Seq<char>) -> Seq<char> {
    match header_text(req.headers, "host"@) {
        Some(host) => host,
        None => bind_ip,
    }
}

/// Where the style sheet is served: under its file name, at the root.
pub open spec fn stylesheet_of(css_file: Seq<char>) -> Seq<char> {
    seq!['/'] + css_file
}

/// The page for a request.
///
/// It shows the client's address, the entries of the answer list under their
/// labels, and three examples: the bare host, which prints the address; the
/// host with `/all`, which prints the list line by line; and the host with
/// `/all.json`, which prints the list as a JSON object.
pub open spec fn page_of(
    req: RequestView,
    bind_ip: Seq<char>,
    css_file: Seq<char>,
    build: Seq<char>,
) -> PageView {
    let list = response_list(req, bind_ip);
    let host = host_of(req, bind_ip);
    PageView {
        lang: language_of(header_text(req.headers, "accept-language"@)),
        stylesheet: stylesheet_of(css_file),
        ip: address_of(req.peer, bind_ip),
        details: labels_of(list),
        examples: seq![
            ExampleView { command: host, output: seq![address_of(req.peer, bind_ip)] },
            ExampleView { command: host + ALL@, output: lines_of(list) },
            ExampleView { command: host + ALL_JSON@, output: seq![pretty_json(list)] },
        ],
        build_id: build,
    }
}

/// Picks the language of the page.
pub fn language(req: &Request) -> (lang: String)
    ensures
        lang@ == language_of(header_text(req@.headers, "accept-language"@)),
{
    match header(req, "accept-language") {
        Some(t) => match second_of(t.as_str()) {
            Some(piece) => piece,
            None => "en".to_owned(),
        },
        None => "en".to_owned(),
    }
}

/// Where the style sheet is served.
pub fn stylesheet(config: &Config) -> (path: String)
    ensures
        path@ == stylesheet_of(config.css_file@),
{
    let mut path = String::new();
    path.push('/');
    path.append(config.css_file.as_str());
    path
}

/// Lays out the page for a request, served by the build named `build`.
pub fn page(req: &Request, config: &Config, build: String) -> (page: Page)
    ensures
        page@ == page_of(req@, config.bind_ip@, config.css_file@, build@),
{
    let list = gen_response(req, config);
    proof {
        lemma_response_list(req@, config.bind_ip@);
        lemma_object_of_distinct(list.deep_view());
    }
    let ip = list[0].1.clone();
    let host = match header(req, "host") {
        Some(host) => host,
        None => config.bind_ip.clone(),
    };
    let mut all = host.clone();
    all.append(ALL);
    let mut all_json = host.clone();
    all_json.append(ALL_JSON);
    let mut address_only: Vec<String> = Vec::new();
    address_only.push(ip.clone());
    let mut object: Vec<String> = Vec::new();
    object.push(json_pretty(&list));
    let mut examples: Vec<Example> = Vec::new();
    examples.push(Example { command: host, output: address_only });
    examples.push(Example { command: all, output: lines(&list) });
    examples.push(Example { command: all_json, output: object });
    let page = Page {
        lang: language(req),
        stylesheet: stylesheet(config),
        ip,
        details: labeled(&list),
        examples,
        build_id: build,
    };
    proof {
        let want = page_of(req@, config.bind_ip@, config.css_file@, build@);
        assert(page@.examples[0].output =~= want.examples[0].output);
        assert(page@.examples[2].output =~= want.examples[2].output);
        assert(page@.examples =~= want.examples);
    }
    page
}

/// Lays out the page for a request, served by the running build. The build is
/// named by its identifier, or as unknown where the program carries none.
pub fn render(req: &Request, config: &Config) -> (page: Page)
    ensures
        exists|id: Option<Seq<u8>>|
            page@ == page_of(req@, config.bind_ip@, config.css_file@, build_label(id)),
{
    let build = running_label();
    page(req, config, build)
}

} // verus!
