//! The decisions of the demo back end: what a request asks for (store a
//! posted item under the hash of its JSON, read one item, list them) and the
//! API Gateway responses it answers with.
use vstd::prelude::*;
use sha2::{Digest, Sha256};
use crate::json::{
    compact_json_text, entry_views, json_text, json_view, lemma_entry_views, parse_json_text, parsed_json,
    JsonValue, JsonView,
};

verus! {

/// The SHA-256 digest of a text's UTF-8 bytes, in lower-case hexadecimal.
pub uninterp spec fn sha256_hex(text: Seq<char>) -> Seq<char>;

/// `Sha256::digest` of the text's bytes, written with `{:x}`; named by
/// `sha256_hex`. The digest has 32 bytes, two hexadecimal digits each.
#[verifier::external_body]
fn sha256_text_hex(text: &str) -> (r: String)
    ensures
        r@ == sha256_hex(text@),
        r@.len() == 64,
{
    format!("{:x}", Sha256::digest(text.as_bytes()))
}

/// A JSON response: the status code, the JSON content type and the body text.
pub open spec fn json_response_view(status_code: u64, body: Seq<char>) -> JsonView {
    JsonView::Object(
        seq![
            ("body"@, JsonView::Str(body)),
            ("headers"@, JsonView::Object(seq![("Content-Type"@, JsonView::Str("application/json"@))])),
            ("statusCode"@, JsonView::PosInt(status_code)),
        ],
    )
}

/// A JSON object of text fields.
pub open spec fn text_object(fields: Seq<(Seq<char>, Seq<char>)>) -> JsonView {
    JsonView::Object(fields.map_values(|f: (Seq<char>, Seq<char>)| (f.0, JsonView::Str(f.1))))
}

fn json_response(status_code: u64, body: String) -> (r: JsonValue)
    ensures
        json_view(r) == json_response_view(status_code, body@),
{
    let ghost b = body@;
    let mut headers: Vec<(String, JsonValue)> = Vec::new();
    headers.push((String::from_str("Content-Type"), JsonValue::Str(String::from_str("application/json"))));
    let ghost hv = headers@;
    proof {
        lemma_entry_views(hv, 1);
        assert(entry_views(hv, 1) =~= seq![("Content-Type"@, JsonView::Str("application/json"@))]);
    }
    let mut top: Vec<(String, JsonValue)> = Vec::new();
    top.push((String::from_str("body"), JsonValue::Str(body)));
    top.push((String::from_str("headers"), JsonValue::Object(headers)));
    top.push((String::from_str("statusCode"), JsonValue::PosInt(status_code)));
    let ghost tv = top@;
    proof {
        lemma_entry_views(tv, 3);
        assert(entry_views(tv, 3) =~= match json_response_view(status_code, b) {
            JsonView::Object(x) => x,
            _ => Seq::empty(),
        });
    }
    JsonValue::Object(top)
}

/// The compact JSON text of an object of text fields.
fn text_object_json(fields: Vec<(String, String)>) -> (r: String)
    ensures
        r@ == json_text(text_object(crate::pairs::pairs_view(fields@))),
{
    let ghost fv = crate::pairs::pairs_view(fields@);
    let mut entries: Vec<(String, JsonValue)> = Vec::new();
    let mut i: usize = 0;
    while i < fields.len()
        invariant
            i <= fields@.len(),
            fv == crate::pairs::pairs_view(fields@),
            entries@.len() == i,
            forall|k: int|
                0 <= k < i ==> (#[trigger] entries@[k]).0@ == fields@[k].0@ && entries@[k].1 == JsonValue::Str(
                    fields@[k].1,
                ),
        decreases fields@.len() - i,
    {
        entries.push((fields[i].0.clone(), JsonValue::Str(fields[i].1.clone())));
        i = i + 1;
    }
    let ghost ev = entries@;
    proof {
        lemma_entry_views(ev, ev.len() as int);
        assert(entry_views(ev, ev.len() as int) =~= fv.map_values(
            |f: (Seq<char>, Seq<char>)| (f.0, JsonView::Str(f.1)),
        ));
    }
    compact_json_text(&JsonValue::Object(entries))
}

/// What the back end does with a request.
pub enum BackendAction {
    /// Answer right away with this response.
    Respond(JsonValue),
    /// Store the posted body under `id`, then answer with `written_response`.
    Write { id: String, body: JsonValue },
    /// Read the item `id`, then answer with `read_response`.
    Read { id: String },
    /// List the items, then answer with `list_response`.
    List,
    /// The method is neither `POST` nor `GET`: the request fails.
    Unsupported,
}

/// The answer to a `POST` without a body.
pub open spec fn missing_body_view() -> JsonView {
    json_response_view(400, json_text(text_object(seq![("error"@, "Missing request body"@)])))
}

/// The answer to a `POST` whose body is not JSON, with the parser's message.
pub open spec fn invalid_body_view(details: Seq<char>) -> JsonView {
    json_response_view(
        400,
        json_text(text_object(seq![("details"@, details), ("error"@, "Invalid JSON in request body"@)])),
    )
}

/// Decides a request from its method, its body and its `id` path parameter:
/// a `POST` body is parsed as JSON and stored under the SHA-256 of its
/// compact text (a missing or unreadable body is answered with 400); a `GET`
/// reads the item `id`, or lists all items without one.
pub fn plan_request(http_method: &str, body: &Option<String>, path_id: Option<&String>) -> (a: BackendAction)
    ensures
        http_method@ == "POST"@ ==> match body {
            None => a matches BackendAction::Respond(r) && json_view(r) == missing_body_view(),
            Some(text) => match parsed_json(text@) {
                Ok(v) => a matches BackendAction::Write { id, body: b } && json_view(b) == v && id@
                    == sha256_hex(json_text(v)),
                Err(e) => a matches BackendAction::Respond(r) && json_view(r) == invalid_body_view(e),
            },
        },
        http_method@ == "GET"@ ==> match path_id {
            Some(id) => a matches BackendAction::Read { id: i } && i@ == id@,
            None => a is List,
        },
        http_method@ != "POST"@ && http_method@ != "GET"@ ==> a is Unsupported,
{
    proof {
        reveal_strlit("POST");
        reveal_strlit("GET");
        assert("GET"@.len() != "POST"@.len());
    }
    if crate::text::str_eq(http_method, "POST") {
        match body {
            None => {
                let mut fields: Vec<(String, String)> = Vec::new();
                fields.push((String::from_str("error"), String::from_str("Missing request body")));
                let ghost fv = crate::pairs::pairs_view(fields@);
                assert(fv =~= seq![("error"@, "Missing request body"@)]);
                BackendAction::Respond(json_response(400, text_object_json(fields)))
            },
            Some(text) => match parse_json_text(text.as_str()) {
                Ok(v) => {
                    let id = sha256_text_hex(compact_json_text(&v).as_str());
                    BackendAction::Write { id, body: v }
                },
                Err(e) => {
                    let mut fields: Vec<(String, String)> = Vec::new();
                    fields.push((String::from_str("details"), e));
                    fields.push((String::from_str("error"), String::from_str("Invalid JSON in request body")));
                    let ghost fv = crate::pairs::pairs_view(fields@);
                    assert(fv =~= seq![("details"@, fields@[0].1@), ("error"@, "Invalid JSON in request body"@)]);
                    BackendAction::Respond(json_response(400, text_object_json(fields)))
                },
            },
        }
    } else if crate::text::str_eq(http_method, "GET") {
        match path_id {
            Some(id) => BackendAction::Read { id: id.clone() },
            None => BackendAction::List,
        }
    } else {
        BackendAction::Unsupported
    }
}

/// The answer after a posted item is stored: 200, with the message, what was
/// received and the time it was stored at.
pub open spec fn written_view(received: JsonView, timestamp: Seq<char>) -> JsonView {
    json_response_view(
        200,
        json_text(
            JsonView::Object(
                seq![
                    ("message"@, JsonView::Str("Item successfully written to DynamoDB"@)),
                    ("received"@, received),
                    ("timestamp"@, JsonView::Str(timestamp)),
                ],
            ),
        ),
    )
}

pub fn written_response(received: JsonValue, timestamp: String) -> (r: JsonValue)
    ensures
        json_view(r) == written_view(json_view(received), timestamp@),
{
    let ghost rv = json_view(received);
    let ghost tv = timestamp@;
    let mut entries: Vec<(String, JsonValue)> = Vec::new();
    entries.push(
        (String::from_str("message"), JsonValue::Str(String::from_str("Item successfully written to DynamoDB"))),
    );
    entries.push((String::from_str("received"), received));
    entries.push((String::from_str("timestamp"), JsonValue::Str(timestamp)));
    let ghost ev = entries@;
    proof {
        lemma_entry_views(ev, 3);
        assert(entry_views(ev, 3) =~= seq![
            ("message"@, JsonView::Str("Item successfully written to DynamoDB"@)),
            ("received"@, rv),
            ("timestamp"@, JsonView::Str(tv)),
        ]);
    }
    json_response(200, compact_json_text(&JsonValue::Object(entries)))
}

/// The answer to a read: 200 with the item's JSON text, or 404 with
/// `{"message":"Item not found"}`.
pub open spec fn read_view(item: Option<JsonView>) -> JsonView {
    match item {
        Some(v) => json_response_view(200, json_text(v)),
        None => json_response_view(404, json_text(text_object(seq![("message"@, "Item not found"@)]))),
    }
}

pub fn read_response(item: Option<JsonValue>) -> (r: JsonValue)
    ensures
        json_view(r) == read_view(match item {
            Some(v) => Some(json_view(v)),
            None => None,
        }),
{
    match item {
        Some(v) => json_response(200, compact_json_text(&v)),
        None => {
            let mut fields: Vec<(String, String)> = Vec::new();
            fields.push((String::from_str("message"), String::from_str("Item not found")));
            let ghost fv = crate::pairs::pairs_view(fields@);
            assert(fv =~= seq![("message"@, "Item not found"@)]);
            json_response(404, text_object_json(fields))
        },
    }
}

/// The answer to a listing: 200 with the JSON text of the items' array.
pub fn list_response(items: Vec<JsonValue>) -> (r: JsonValue)
    ensures
        json_view(r) == json_response_view(200, json_text(json_view(JsonValue::Array(items)))),
{
    let a = JsonValue::Array(items);
    json_response(200, compact_json_text(&a))
}

} // verus!
