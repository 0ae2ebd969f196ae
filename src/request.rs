//! Building the request: the instruction text, the JSON payload and the
//! endpoint address.

use crate::{views, RequestError};
use vstd::prelude::*;

verus! {

/// The instruction text before the candidate list.
pub open spec fn prompt_head() -> Seq<char> {
    "Which words from this list ["@
}

/// The instruction text between the candidate list and the prompt.
pub open spec fn prompt_middle() -> Seq<char> {
    "] is most closely related to this prompt '"@
}

/// The instruction text after the prompt.
pub open spec fn prompt_tail() -> Seq<char> {
    "', Just return the three most related words, nothing else. Make sure that the returned words exist in the list I provided"@
}

/// What stands between two candidates in the list.
pub open spec fn separator() -> Seq<char> {
    ", "@
}

/// The candidates joined with `", "`.
pub open spec fn joined(cs: Seq<Seq<char>>) -> Seq<char>
    decreases cs.len(),
{
    if cs.len() == 0 {
        Seq::empty()
    } else if cs.len() == 1 {
        cs[0]
    } else {
        joined(cs.drop_last()) + separator() + cs.last()
    }
}

/// The instruction sent to the service for a prompt and a candidate list.
pub open spec fn rendered_prompt(prompt: Seq<char>, cs: Seq<Seq<char>>) -> Seq<char> {
    prompt_head() + joined(cs) + prompt_middle() + prompt + prompt_tail()
}

/// The payload up to the instruction text.
pub open spec fn payload_head() -> Seq<char> {
    "{\"contents\":[{\"parts\":[{\"text\":"@
}

/// The payload after the instruction text: it closes the content block and
/// declares that the answer is a JSON array of objects with a string field
/// `keyword`.
pub open spec fn payload_tail() -> Seq<char> {
    "}]}],\"generationConfig\":{\"responseMimeType\":\"application/json\",\"responseSchema\":{\"type\":\"ARRAY\",\"items\":{\"type\":\"OBJECT\",\"properties\":{\"keyword\":{\"type\":\"STRING\"}}}}}}"@
}

/// The JSON string literal that serde_json writes for a text.
pub uninterp spec fn json_string_literal(text: Seq<char>) -> Seq<char>;

/// The request body for a prompt and a candidate list.
pub open spec fn payload_for(prompt: Seq<char>, cs: Seq<Seq<char>>) -> Seq<char> {
    payload_head() + json_string_literal(rendered_prompt(prompt, cs)) + payload_tail()
}

/// The endpoint address, up to the credential.
pub open spec fn endpoint_prefix() -> Seq<char> {
    "https://generativelanguage.googleapis.com/v1beta/models/gemini-1.5-flash:generateContent?key="@
}

/// Relies on `serde_json::to_string` on a `str`: it writes the text as one
/// escaped JSON string literal into a `Vec<u8>`, and that write cannot fail.
#[verifier::external_body]
fn quote_json(text: &str) -> (r: Option<String>)
    ensures
        r is Some,
        r->Some_0@ == json_string_literal(text@),
{
    serde_json::to_string(text).ok()
}

/// A request ready to be posted.
#[derive(Debug, PartialEq, Eq)]
pub struct ProviderRequest {
    /// The endpoint address with the credential as its `key` query parameter.
    pub url: String,
    /// The value of the `Content-Type` header.
    pub content_type: String,
    /// The JSON payload.
    pub body: String,
}

/// Joins the candidates with `", "`.
pub fn join_candidates(candidates: &Vec<String>) -> (r: String)
    ensures
        r@ == joined(views(candidates@)),
{
    let mut out = String::new();
    let n = candidates.len();
    let mut i: usize = 0;
    while i < n
        invariant
            n == candidates@.len(),
            i <= n,
            out@ == joined(views(candidates@.subrange(0, i as int))),
        decreases n - i,
    {
        let ghost done = views(candidates@.subrange(0, i + 1));
        assert(done.drop_last() =~= views(candidates@.subrange(0, i as int)));
        assert(done.last() == candidates@[i as int]@);
        if i > 0 {
            out.append(", ");
        }
        out.append(candidates[i].as_str());
        i = i + 1;
    }
    assert(candidates@.subrange(0, n as int) =~= candidates@);
    out
}

/// The instruction text: the candidate list in brackets, then the prompt in
/// quotes, inside a fixed request for the three most related words.
pub fn render_prompt(prompt: &str, candidates: &Vec<String>) -> (r: String)
    ensures
        r@ == rendered_prompt(prompt@, views(candidates@)),
{
    let list = join_candidates(candidates);
    let r = String::from_str("Which words from this list [");
    let r = r.concat(list.as_str());
    let r = r.concat("] is most closely related to this prompt '");
    let r = r.concat(prompt);
    r.concat(
        "', Just return the three most related words, nothing else. Make sure that the returned words exist in the list I provided",
    )
}

/// The payload around an instruction text already written as a JSON string
/// literal.
pub fn frame_payload(quoted: &str) -> (r: String)
    ensures
        r@ == payload_head() + quoted@ + payload_tail(),
{
    let r = String::from_str("{\"contents\":[{\"parts\":[{\"text\":");
    let r = r.concat(quoted);
    r.concat(
        "}]}],\"generationConfig\":{\"responseMimeType\":\"application/json\",\"responseSchema\":{\"type\":\"ARRAY\",\"items\":{\"type\":\"OBJECT\",\"properties\":{\"keyword\":{\"type\":\"STRING\"}}}}}}",
    )
}

/// The JSON payload for a prompt and a candidate list.
pub fn build_payload(prompt: &str, candidates: &Vec<String>) -> (r: String)
    ensures
        r@ == payload_for(prompt@, views(candidates@)),
{
    let text = render_prompt(prompt, candidates);
    let quoted = quote_json(text.as_str()).unwrap();
    frame_payload(quoted.as_str())
}

/// The request for a prompt and a candidate list, with the credential
/// appended to the endpoint address; `MissingCredential` when there is none.
pub fn build_request(credential: Option<&str>, prompt: &str, candidates: &Vec<String>) -> (r:
    Result<ProviderRequest, RequestError>)
    ensures
        credential is None ==> r == Err::<ProviderRequest, RequestError>(
            RequestError::MissingCredential,
        ),
        credential is Some ==> r is Ok,
        r is Ok ==> {
            let req = r->Ok_0;
            &&& req.url@ == endpoint_prefix() + credential->Some_0@
            &&& req.content_type@ == "application/json"@
            &&& req.body@ == payload_for(prompt@, views(candidates@))
        },
{
    let key = match credential {
        Some(k) => k,
        None => return Err(RequestError::MissingCredential),
    };
    let url = String::from_str(
        "https://generativelanguage.googleapis.com/v1beta/models/gemini-1.5-flash:generateContent?key=",
    );
    let url = url.concat(key);
    Ok(ProviderRequest {
        url,
        content_type: String::from_str("application/json"),
        body: build_payload(prompt, candidates),
    })
}

/// Where the `i`-th candidate starts in the joined list.
pub open spec fn candidate_offset(cs: Seq<Seq<char>>, i: int) -> int
    decreases i,
{
    if i <= 0 {
        0
    } else {
        candidate_offset(cs, i - 1) + cs[i - 1].len() + 2
    }
}

proof fn lemma_offset_prefix(cs: Seq<Seq<char>>, i: int)
    requires
        0 <= i < cs.len(),
    ensures
        candidate_offset(cs.drop_last(), i) == candidate_offset(cs, i),
    decreases i,
{
    if i > 0 {
        lemma_offset_prefix(cs, i - 1);
    }
}

proof fn lemma_offset_grows(cs: Seq<Seq<char>>, i: int, j: int)
    requires
        0 <= i <= j,
    ensures
        candidate_offset(cs, i) + 2 * (j - i) <= candidate_offset(cs, j),
    decreases j,
{
    if i < j {
        lemma_offset_grows(cs, i, j - 1);
    }
}

proof fn lemma_joined_layout(cs: Seq<Seq<char>>)
    requires
        cs.len() > 0,
    ensures
        joined(cs).len() == candidate_offset(cs, cs.len() as int) - 2,
        forall|i: int|
            0 <= i < cs.len() ==> #[trigger] joined(cs).subrange(
                candidate_offset(cs, i),
                candidate_offset(cs, i) + cs[i].len(),
            ) == cs[i],
        forall|i: int|
            0 <= i < cs.len() - 1 ==> #[trigger] joined(cs).subrange(
                candidate_offset(cs, i) + cs[i].len(),
                candidate_offset(cs, i + 1),
            ) == separator(),
    decreases cs.len(),
{
    reveal_strlit(", ");
    let n = cs.len() as int;
    if n == 1 {
        assert(candidate_offset(cs, 0) == 0);
        assert(joined(cs).subrange(0, cs[0].len() as int) =~= cs[0]);
    } else {
        let p = cs.drop_last();
        lemma_joined_layout(p);
        let jp = joined(p);
        let j = joined(cs);
        assert(j == jp + separator() + cs.last());
        lemma_offset_prefix(cs, n - 1);
        assert forall|i: int| 0 <= i < n implies #[trigger] j.subrange(
            candidate_offset(cs, i),
            candidate_offset(cs, i) + cs[i].len(),
        ) == cs[i] by {
            if i < n - 1 {
                lemma_offset_prefix(cs, i);
                lemma_offset_grows(p, i + 1, n - 1);
                lemma_offset_grows(p, 0, i);
                assert(p[i] == cs[i]);
                assert(jp.subrange(candidate_offset(p, i), candidate_offset(p, i) + p[i].len()) == p[i]);
                assert(j.subrange(candidate_offset(cs, i), candidate_offset(cs, i) + cs[i].len())
                    =~= jp.subrange(candidate_offset(p, i), candidate_offset(p, i) + p[i].len()));
            } else {
                assert(j.subrange(candidate_offset(cs, i), candidate_offset(cs, i) + cs[i].len())
                    =~= cs.last());
            }
        }
        assert forall|i: int| 0 <= i < n - 1 implies #[trigger] j.subrange(
            candidate_offset(cs, i) + cs[i].len(),
            candidate_offset(cs, i + 1),
        ) == separator() by {
            lemma_offset_prefix(cs, i);
            assert(p[i] == cs[i]);
            if i < n - 2 {
                lemma_offset_prefix(cs, i + 1);
                lemma_offset_grows(p, i + 1, n - 1);
                lemma_offset_grows(p, 0, i);
                assert(jp.subrange(candidate_offset(p, i) + p[i].len(), candidate_offset(p, i + 1))
                    == separator());
                assert(j.subrange(candidate_offset(cs, i) + cs[i].len(), candidate_offset(cs, i + 1))
                    =~= jp.subrange(candidate_offset(p, i) + p[i].len(), candidate_offset(p, i + 1)));
            } else {
                assert(j.subrange(candidate_offset(cs, i) + cs[i].len(), candidate_offset(cs, i + 1))
                    =~= separator());
            }
        }
    }
}

/// The instruction text holds the whole candidate list, joined with `", "`,
/// right after its fixed opening: each candidate stands there verbatim, in
/// list order, and each but the last is followed by `", "`.
pub proof fn lemma_prompt_lists_candidates(prompt: Seq<char>, cs: Seq<Seq<char>>)
    requires
        cs.len() > 0,
    ensures
        ({
            let text = rendered_prompt(prompt, cs);
            let start = prompt_head().len() as int;
            &&& text.subrange(start, start + joined(cs).len()) == joined(cs)
            &&& forall|i: int|
                0 <= i < cs.len() ==> #[trigger] text.subrange(
                    start + candidate_offset(cs, i),
                    start + candidate_offset(cs, i) + cs[i].len(),
                ) == cs[i]
            &&& forall|i: int|
                0 <= i < cs.len() - 1 ==> #[trigger] text.subrange(
                    start + candidate_offset(cs, i) + cs[i].len(),
                    start + candidate_offset(cs, i + 1),
                ) == separator()
        }),
{
    lemma_joined_layout(cs);
    let text = rendered_prompt(prompt, cs);
    let start = prompt_head().len() as int;
    let j = joined(cs);
    assert(text == prompt_head() + (j + (prompt_middle() + prompt + prompt_tail()))) by {
        assert(text =~= prompt_head() + (j + (prompt_middle() + prompt + prompt_tail())));
    }
    assert(text.subrange(start, start + j.len()) =~= j);
    assert forall|i: int| 0 <= i < cs.len() implies #[trigger] text.subrange(
        start + candidate_offset(cs, i),
        start + candidate_offset(cs, i) + cs[i].len(),
    ) == cs[i] by {
        lemma_offset_grows(cs, i + 1, cs.len() as int);
        lemma_offset_grows(cs, 0, i);
        assert(j.subrange(candidate_offset(cs, i), candidate_offset(cs, i) + cs[i].len()) == cs[i]);
        assert(text.subrange(start + candidate_offset(cs, i), start + candidate_offset(cs, i) + cs[i].len())
            =~= j.subrange(candidate_offset(cs, i), candidate_offset(cs, i) + cs[i].len()));
    }
    assert forall|i: int| 0 <= i < cs.len() - 1 implies #[trigger] text.subrange(
        start + candidate_offset(cs, i) + cs[i].len(),
        start + candidate_offset(cs, i + 1),
    ) == separator() by {
        lemma_offset_grows(cs, i + 1, cs.len() as int);
        lemma_offset_grows(cs, 0, i);
        assert(j.subrange(candidate_offset(cs, i) + cs[i].len(), candidate_offset(cs, i + 1))
            == separator());
        assert(text.subrange(start + candidate_offset(cs, i) + cs[i].len(), start + candidate_offset(cs, i + 1))
            =~= j.subrange(candidate_offset(cs, i) + cs[i].len(), candidate_offset(cs, i + 1)));
    }
}

/// Any two payloads share the same opening and the same closing, the part
/// that declares the answer's schema; they differ only in the quoted
/// instruction text between them.
pub proof fn lemma_payload_schema_fixed(
    prompt1: Seq<char>,
    cs1: Seq<Seq<char>>,
    prompt2: Seq<char>,
    cs2: Seq<Seq<char>>,
)
    ensures
        ({
            let a = payload_for(prompt1, cs1);
            let b = payload_for(prompt2, cs2);
            let h = payload_head().len() as int;
            let t = payload_tail().len() as int;
            &&& a.subrange(0, h) == b.subrange(0, h)
            &&& a.subrange(a.len() - t, a.len() as int) == b.subrange(b.len() - t, b.len() as int)
            &&& a.subrange(0, h) == payload_head()
            &&& a.subrange(a.len() - t, a.len() as int) == payload_tail()
            &&& a.subrange(h, a.len() - t) == json_string_literal(rendered_prompt(prompt1, cs1))
            &&& b.subrange(h, b.len() - t) == json_string_literal(rendered_prompt(prompt2, cs2))
        }),
{
    let a = payload_for(prompt1, cs1);
    let b = payload_for(prompt2, cs2);
    let h = payload_head().len() as int;
    let t = payload_tail().len() as int;
    assert(a.subrange(0, h) =~= payload_head());
    assert(b.subrange(0, h) =~= payload_head());
    assert(a.subrange(a.len() - t, a.len() as int) =~= payload_tail());
    assert(b.subrange(b.len() - t, b.len() as int) =~= payload_tail());
    assert(a.subrange(h, a.len() - t) =~= json_string_literal(rendered_prompt(prompt1, cs1)));
    assert(b.subrange(h, b.len() - t) =~= json_string_literal(rendered_prompt(prompt2, cs2)));
}

} // verus!
