//! Reading the service's answer: the status, the envelope and the words.

use crate::json::{
    decode_json, deref_opt, find_member, json_decoded, member_of, nth_element, opt_element,
    opt_member, opt_text, JsonValue,
};
use crate::{views, RequestError};
use vstd::prelude::*;

verus! {

/// Whether an HTTP status is in the success range.
pub open spec fn is_success(status: u16) -> bool {
    200 <= status <= 299
}

/// `candidates[0].content.parts[0].text` of the envelope, when it is a string.
pub open spec fn envelope_text_of(envelope: JsonValue) -> Option<Seq<char>> {
    let c = opt_element(member_of(envelope, "candidates"@), 0);
    let parts = opt_member(opt_member(c, "content"@), "parts"@);
    opt_text(opt_member(opt_element(parts, 0), "text"@))
}

/// The `keyword` string of an entry, if it has one.
pub open spec fn keyword_of(entry: JsonValue) -> Option<Seq<char>> {
    opt_text(member_of(entry, "keyword"@))
}

/// The keywords of the entries, in order, skipping entries without one.
pub open spec fn keywords_in(entries: Seq<JsonValue>) -> Seq<Seq<char>>
    decreases entries.len(),
{
    if entries.len() == 0 {
        Seq::empty()
    } else {
        let rest = keywords_in(entries.drop_last());
        match keyword_of(entries.last()) {
            Some(k) => rest.push(k),
            None => rest,
        }
    }
}

/// The keywords of a decoded array; nothing when the value is not an array.
pub open spec fn words_of(decoded: JsonValue) -> Option<Seq<Seq<char>>> {
    match decoded {
        JsonValue::Array(entries) => Some(keywords_in(entries@)),
        _ => None,
    }
}

/// The words carried by a response body, or nothing when it is malformed.
pub open spec fn related_words_of(body: Seq<char>) -> Option<Seq<Seq<char>>> {
    match json_decoded(body) {
        Some(envelope) => match envelope_text_of(envelope) {
            Some(text) => match json_decoded(text) {
                Some(decoded) => words_of(decoded),
                None => None,
            },
            None => None,
        },
        None => None,
    }
}

/// The characters of a string that may be absent.
pub open spec fn string_opt_view(o: Option<String>) -> Option<Seq<char>> {
    match o {
        Some(s) => Some(s@),
        None => None,
    }
}

/// Accepts a success status and turns any other into `RequestFailed`.
pub fn check_status(status: u16) -> (r: Result<(), RequestError>)
    ensures
        is_success(status) ==> r is Ok,
        !is_success(status) ==> r == Err::<(), RequestError>(RequestError::RequestFailed { status }),
{
    if 200 <= status && status <= 299 {
        Ok(())
    } else {
        Err(RequestError::RequestFailed { status })
    }
}

fn string_value(v: Option<&JsonValue>) -> (r: Option<String>)
    ensures
        string_opt_view(r) == opt_text(deref_opt(v)),
{
    match v {
        Some(JsonValue::Str(s)) => Some(s.clone()),
        _ => None,
    }
}

/// The text field of an answer envelope, `candidates[0].content.parts[0].text`.
pub fn envelope_text(envelope: &JsonValue) -> (r: Option<String>)
    ensures
        string_opt_view(r) == envelope_text_of(*envelope),
{
    let candidates = String::from_str("candidates");
    let content = String::from_str("content");
    let parts = String::from_str("parts");
    let text = String::from_str("text");
    let c = match find_member(envelope, &candidates) {
        Some(v) => nth_element(v, 0),
        None => None,
    };
    let p = match c {
        Some(v) => find_member(v, &content),
        None => None,
    };
    let p = match p {
        Some(v) => find_member(v, &parts),
        None => None,
    };
    let p0 = match p {
        Some(v) => nth_element(v, 0),
        None => None,
    };
    let t = match p0 {
        Some(v) => find_member(v, &text),
        None => None,
    };
    string_value(t)
}

/// The `keyword` strings of a decoded array, in order, skipping entries that
/// have none; nothing when the value is not an array.
pub fn keywords(decoded: &JsonValue) -> (r: Option<Vec<String>>)
    ensures
        match words_of(*decoded) {
            Some(ws) => r is Some && views(r->Some_0@) == ws,
            None => r is None,
        },
{
    match decoded {
        JsonValue::Array(entries) => {
            let key = String::from_str("keyword");
            let mut out: Vec<String> = Vec::new();
            let n = entries.len();
            let mut i: usize = 0;
            while i < n
                invariant
                    n == entries@.len(),
                    key@ == "keyword"@,
                    i <= n,
                    views(out@) == keywords_in(entries@.subrange(0, i as int)),
                decreases n - i,
            {
                assert(entries@.subrange(0, i + 1).drop_last() =~= entries@.subrange(0, i as int));
                let k = string_value(find_member(&entries[i], &key));
                assert(entries@.subrange(0, i + 1).last() == entries@[i as int]);
                assert(string_opt_view(k) == keyword_of(entries@[i as int]));
                let ghost before = out@;
                if let Some(word) = k {
                    out.push(word);
                    assert(views(out@) =~= views(before).push(word@));
                }
                assert(views(out@) =~= keywords_in(entries@.subrange(0, i + 1)));
                i = i + 1;
            }
            assert(entries@.subrange(0, n as int) =~= entries@);
            Some(out)
        },
        _ => None,
    }
}

/// The related words carried by a response body: its envelope's text field,
/// decoded as JSON, with the keywords of that array taken out in order.
pub fn extract_related_words(body: &str) -> (r: Result<Vec<String>, RequestError>)
    ensures
        match related_words_of(body@) {
            Some(ws) => r is Ok && views(r->Ok_0@) == ws,
            None => r == Err::<Vec<String>, RequestError>(RequestError::MalformedResponse),
        },
{
    let envelope = match decode_json(body) {
        Some(v) => v,
        None => return Err(RequestError::MalformedResponse),
    };
    let text = match envelope_text(&envelope) {
        Some(t) => t,
        None => return Err(RequestError::MalformedResponse),
    };
    let decoded = match decode_json(text.as_str()) {
        Some(v) => v,
        None => return Err(RequestError::MalformedResponse),
    };
    match keywords(&decoded) {
        Some(words) => Ok(words),
        None => Err(RequestError::MalformedResponse),
    }
}

} // verus!
