//! The list of entries as lines of text and as labelled rows.

use crate::helpers::{distinct_keys, lemma_response_list, response_list, RequestView};
use crate::json::{lemma_object_of_distinct, object_of};
use crate::ssr::{beautify, Beautifier};
use vstd::prelude::*;

verus! {

/// An entry as a line: the key, a colon, a space, the value.
pub open spec fn line_of(entry: (Seq<char>, Seq<char>)) -> Seq<char> {
    entry.0 + seq![':', ' '] + entry.1
}

/// The lines of a list, one for each entry, in the order of the list.
pub open spec fn lines_of(list: Seq<(Seq<char>, Seq<char>)>) -> Seq<Seq<char>> {
    Seq::new(list.len(), |i: int| line_of(list[i]))
}

/// The list as plain text: its lines in order, each ended by a line feed.
pub open spec fn plain_text(list: Seq<(Seq<char>, Seq<char>)>) -> Seq<char>
    decreases list.len(),
{
    if list.len() == 0 {
        Seq::empty()
    } else {
        plain_text(list.drop_last()) + line_of(list.last()) + seq!['\n']
    }
}

/// The rows of a list: each entry with the label of its key in place of the key.
pub open spec fn labels_of(list: Seq<(Seq<char>, Seq<char>)>) -> Seq<(Seq<char>, Seq<char>)> {
    Seq::new(list.len(), |i: int| (beautify(list[i].0), list[i].1))
}

/// Writes one entry as a line, without a line feed.
pub fn entry_line(key: &str, value: &str) -> (text: String)
    ensures
        text@ == line_of((key@, value@)),
{
    let mut text = key.to_owned();
    text.push(':');
    text.push(' ');
    text.append(value);
    text
}

/// Writes each entry as a line of its own.
pub fn lines(list: &Vec<(String, String)>) -> (out: Vec<String>)
    ensures
        out.deep_view() == lines_of(list.deep_view()),
{
    let mut out: Vec<String> = Vec::new();
    let n = list.len();
    let mut i: usize = 0;
    while i < n
        invariant
            n == list@.len(),
            i <= n,
            out@.len() == i,
            forall|k: int| 0 <= k < i ==> out@[k]@ == line_of((list@[k].0@, list@[k].1@)),
        decreases n - i,
    {
        out.push(entry_line(list[i].0.as_str(), list[i].1.as_str()));
        i += 1;
    }
    out
}

/// Writes the list as plain text, a line for each entry.
pub fn plain(list: &Vec<(String, String)>) -> (body: String)
    ensures
        body@ == plain_text(list.deep_view()),
{
    let mut body = String::new();
    let n = list.len();
    let mut i: usize = 0;
    while i < n
        invariant
            n == list@.len(),
            i <= n,
            body@ == plain_text(list.deep_view().take(i as int)),
        decreases n - i,
    {
        let text = entry_line(list[i].0.as_str(), list[i].1.as_str());
        proof {
            assert(list.deep_view().take(i + 1).drop_last() =~= list.deep_view().take(i as int));
        }
        body.append(text.as_str());
        body.push('\n');
        i += 1;
    }
    proof {
        assert(list.deep_view().take(n as int) =~= list.deep_view());
    }
    body
}

/// Labels the list: the same entries in the same order, each key as a label.
pub fn labeled(list: &Vec<(String, String)>) -> (rows: Vec<(String, String)>)
    ensures
        rows.deep_view() == labels_of(list.deep_view()),
{
    let mut rows: Vec<(String, String)> = Vec::new();
    let n = list.len();
    let mut i: usize = 0;
    while i < n
        invariant
            n == list@.len(),
            i <= n,
            rows@.len() == i,
            forall|k: int|
                0 <= k < i ==> rows@[k].0@ == beautify(list@[k].0@) && rows@[k].1@ == list@[k].1@,
        decreases n - i,
    {
        rows.push((list[i].0.as_pretty(), list[i].1.clone()));
        i += 1;
    }
    rows
}

/// The three forms of a list show the same entries in the same order: where
/// no two entries share a key, the line, the member of the JSON object and the
/// row at each place are those of the entry at that place.
pub proof fn lemma_forms_agree(list: Seq<(Seq<char>, Seq<char>)>)
    requires
        distinct_keys(list),
    ensures
        lines_of(list).len() == list.len(),
        object_of(list).len() == list.len(),
        labels_of(list).len() == list.len(),
        forall|i: int|
            0 <= i < list.len() ==> {
                &&& (#[trigger] lines_of(list)[i]) == list[i].0 + seq![':', ' '] + list[i].1
                &&& object_of(list)[i] == list[i]
                &&& labels_of(list)[i] == (beautify(list[i].0), list[i].1)
            },
{
    lemma_object_of_distinct(list);
}

/// Whatever the request, its three answers show the same entries in the same order.
pub proof fn lemma_answers_agree(req: RequestView, fallback: Seq<char>)
    ensures
        object_of(response_list(req, fallback)) == response_list(req, fallback),
        lines_of(response_list(req, fallback)).len() == response_list(req, fallback).len(),
        labels_of(response_list(req, fallback)).len() == response_list(req, fallback).len(),
        forall|i: int|
            0 <= i < response_list(req, fallback).len() ==> {
                let entry = response_list(req, fallback)[i];
                &&& (#[trigger] lines_of(response_list(req, fallback))[i]) == entry.0 + seq![
                    ':',
                    ' ',
                ] + entry.1
                &&& labels_of(response_list(req, fallback))[i] == (beautify(entry.0), entry.1)
            },
{
    lemma_response_list(req, fallback);
    lemma_object_of_distinct(response_list(req, fallback));
}

} // verus!
