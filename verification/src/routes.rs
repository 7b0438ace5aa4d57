//! The answers of the service, one for each of its paths.

use crate::build_id::build_label;
use crate::helpers::{
    address_of, gen_response, header, header_text, lemma_response_list, resolve_address,
    response_list, Config, Request, RequestView, IP_ADDRESS,
};
use crate::json::{compact_json, json_text, lemma_object_of_distinct, object_of};
use crate::present::{plain, plain_text};
use crate::ssr::{page_of, render, Beautifier, Page};
use crate::text::{contains, occurs_in};
use vstd::prelude::*;

verus! {

/// The path that answers with the address, or with the page.
pub const ROOT: &'static str = "/";

/// The path that answers with the whole list as text.
pub const ALL: &'static str = "/all";

/// The path that answers with the whole list as a JSON object.
pub const ALL_JSON: &'static str = "/all.json";

/// What a command-line client calls itself.
pub const CLI_AGENT: &'static str = "curl";

/// An answer: what is sent back, and as what kind of content.
#[derive(Clone, Debug)]
pub enum Reply {
    /// Plain text.
    Text(String),
    /// The text of a JSON object.
    Json(String),
    /// A page, still to be drawn.
    Page(Page),
}

/// The content type of each kind of answer.
pub open spec fn content_type_of(reply: Reply) -> Seq<char> {
    match reply {
        Reply::Text(_) => "text/plain; charset=utf-8"@,
        Reply::Json(_) => "application/json"@,
        Reply::Page(_) => "text/html; charset=utf-8"@,
    }
}

impl Reply {
    /// The content type the answer is sent under.
    pub fn content_type(&self) -> (name: &'static str)
        ensures
            name@ == content_type_of(*self),
    {
        match self {
            Reply::Text(_) => "text/plain; charset=utf-8",
            Reply::Json(_) => "application/json",
            Reply::Page(_) => "text/html; charset=utf-8",
        }
    }
}

/// Whether a request comes from a command-line client: it names its agent,
/// and the name holds `curl`, in lower case. A request that names no agent
/// comes from a person.
pub open spec fn is_cli(req: RequestView) -> bool {
    match header_text(req.headers, "user-agent"@) {
        Some(agent) => occurs_in(CLI_AGENT@, agent),
        None => false,
    }
}

/// Tells a command-line client from a person.
pub fn from_cli(req: &Request) -> (cli: bool)
    ensures
        cli == is_cli(req@),
{
    match header(req, "user-agent") {
        Some(agent) => contains(agent.as_str(), CLI_AGENT),
        None => false,
    }
}

/// Answers `/`: a command-line client gets its address and a line feed, as
/// plain text; anyone else gets the page.
pub fn index(req: &Request, config: &Config) -> (reply: Reply)
    ensures
        match reply {
            Reply::Text(body) => is_cli(req@) && body@ == address_of(
                req@.peer,
                config.bind_ip@,
            ).push('\n'),
            Reply::Page(page) => !is_cli(req@) && exists|id: Option<Seq<u8>>|
                page@ == page_of(req@, config.bind_ip@, config.css_file@, build_label(id)),
            Reply::Json(_) => false,
        },
{
    if from_cli(req) {
        let mut body = resolve_address(&req.peer, config.bind_ip.as_str());
        body.breakline();
        Reply::Text(body)
    } else {
        Reply::Page(render(req, config))
    }
}

/// Answers `/all`: the whole list as plain text, a line for each entry.
pub fn index_all(req: &Request, config: &Config) -> (reply: Reply)
    ensures
        reply matches Reply::Text(body) && body@ == plain_text(
            response_list(req@, config.bind_ip@),
        ),
{
    let list = gen_response(req, config);
    Reply::Text(plain(&list))
}

/// Answers `/all.json`: the whole list as one JSON object, the entries as its
/// members in the order of the list.
pub fn index_all_json(req: &Request, config: &Config) -> (reply: Reply)
    ensures
        reply matches Reply::Json(body) && body@ == compact_json(
            response_list(req@, config.bind_ip@),
        ),
{
    let list = gen_response(req, config);
    proof {
        lemma_response_list(req@, config.bind_ip@);
        lemma_object_of_distinct(list.deep_view());
    }
    Reply::Json(json_text(&list))
}

/// The object that `/all.json` writes names the address that `/` reports:
/// its first member, and no other, goes by `ip_address`, and holds the very
/// address that a command-line client is sent.
pub proof fn lemma_object_names_the_address(req: RequestView, fallback: Seq<char>)
    ensures
        object_of(response_list(req, fallback)).len() >= 3,
        object_of(response_list(req, fallback))[0] == (IP_ADDRESS@, address_of(req.peer, fallback)),
        forall|i: int|
            0 < i < object_of(response_list(req, fallback)).len() ==> (#[trigger] object_of(
                response_list(req, fallback),
            )[i]).0 != IP_ADDRESS@,
{
    lemma_response_list(req, fallback);
    lemma_object_of_distinct(response_list(req, fallback));
}

} // verus!
