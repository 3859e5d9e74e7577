//! The client's half of JSON-RPC: the body of a request and the meaning of a
//! response.

use vstd::prelude::*;

use crate::json;
use crate::json::{Json, JsonObject, JsonView};
use crate::text;

verus! {

/// The error in a response.
#[derive(Debug)]
pub struct RpcErr {
    pub code: i32,
    pub message: String,
}

/// The body of a request.
pub open spec fn request(method: Seq<char>, params: JsonView) -> JsonView {
    let m = json::with_member(Seq::empty(), "jsonrpc"@, JsonView::Text("2.0"@));
    let m = json::with_member(m, "id"@, JsonView::Int(1));
    let m = json::with_member(m, "method"@, JsonView::Text(method));
    JsonView::Object(json::with_member(m, "params"@, params))
}

/// The body of a request.
pub fn request_body(method: &str, params: Json) -> (j: Json)
    ensures
        j@ == request(method@, params@),
{
    let mut o = JsonObject::new();
    o.insert("jsonrpc".to_owned(), Json::Text("2.0".to_owned()));
    o.insert("id".to_owned(), Json::UInt(1));
    o.insert("method".to_owned(), Json::Text(method.to_owned()));
    o.insert("params".to_owned(), params);
    Json::Object(o)
}

/// What a response means.
pub open spec fn meaning(result: Option<JsonView>, error: Option<(int, Seq<char>)>) -> Result<
    JsonView,
    Seq<char>,
> {
    match (error, result) {
        (Some((code, message)), _) => Err(
            "coord error "@ + text::signed_decimal(code) + ": "@ + message,
        ),
        (None, Some(v)) => Ok(v),
        (None, None) => Err("empty response"@),
    }
}

/// What a response means: its error where it has one, else its result, which
/// must be there.
pub fn read_response(result: Option<Json>, error: Option<RpcErr>) -> (r: Result<Json, String>)
    ensures
        match (error, result) {
            (Some(e), _) => r matches Err(msg) && msg@ == "coord error "@ + text::signed_decimal(
                e.code as int,
            ) + ": "@ + e.message@,
            (None, Some(v)) => r matches Ok(j) && j@ == v@,
            (None, None) => r matches Err(msg) && msg@ == "empty response"@,
        },
        json::read_view(r) == meaning(
            json::opt_view(result),
            match error {
                Some(e) => Some((e.code as int, e.message@)),
                None => None,
            },
        ),
{
    match error {
        Some(e) => {
            let mut msg = "coord error ".to_owned();
            msg.append(text::signed_decimal_text(e.code as i64).as_str());
            msg.append(": ");
            msg.append(e.message.as_str());
            Err(msg)
        },
        None => match result {
            Some(v) => Ok(v),
            None => Err("empty response".to_owned()),
        },
    }
}

/// A request names its method and carries its parameters as they are.
pub proof fn lemma_request(method: Seq<char>, params: JsonView)
    ensures
        ({
            let j = request(method, params);
            &&& json::member(j, "jsonrpc"@) == Some(JsonView::Text("2.0"@))
            &&& json::member(j, "id"@) == Some(JsonView::Int(1))
            &&& json::member(j, "method"@) == Some(JsonView::Text(method))
            &&& json::member(j, "params"@) == Some(params)
        }),
{
    reveal_strlit("jsonrpc");
    reveal_strlit("id");
    reveal_strlit("method");
    reveal_strlit("params");
    assert("jsonrpc"@.len() == 7 && "id"@.len() == 2);
    assert("method"@[0] != "params"@[0]);
    assert("method"@.len() == 6 && "params"@.len() == 6);
    let m0 = Seq::<(Seq<char>, JsonView)>::empty();
    json::lemma_member_set(m0, "jsonrpc"@, JsonView::Text("2.0"@));
    let m1 = json::with_member(m0, "jsonrpc"@, JsonView::Text("2.0"@));
    json::lemma_member_set(m1, "id"@, JsonView::Int(1));
    let m2 = json::with_member(m1, "id"@, JsonView::Int(1));
    json::lemma_member_set(m2, "method"@, JsonView::Text(method));
    let m3 = json::with_member(m2, "method"@, JsonView::Text(method));
    json::lemma_member_set(m3, "params"@, params);
}

/// A response with an error is a failure whatever else it holds, and the
/// failure tells the error's message; one without is its result, and a failure
/// where it has none.
pub proof fn lemma_meaning(result: Option<JsonView>, code: int, message: Seq<char>)
    ensures
        meaning(result, Some((code, message))) matches Err(msg) && text::has_suffix(msg, message)
            && text::occurs_in(text::signed_decimal(code), msg),
        (result matches Some(v) ==> meaning(result, None) == Ok::<JsonView, Seq<char>>(v)),
        result is None ==> meaning(result, None) is Err,
{
    let msg = meaning(result, Some((code, message)))->Err_0;
    assert(msg.skip(msg.len() - message.len()) =~= message);
    assert(msg =~= ("coord error "@ + text::signed_decimal(code)) + (": "@ + message));
    text::lemma_occurs(text::signed_decimal(code), msg);
}

} // verus!
