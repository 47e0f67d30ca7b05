//! Replies: a status, headers and a body.
use vstd::prelude::*;

use crate::json::{json_bool, json_content, json_object, json_pretty, json_pretty_text, json_set};
use crate::json::{json_text, JsonView};
use serde_json::Value;

verus! {

/// The body of a reply.
#[derive(Clone, Debug)]
pub enum ReplyBody {
    Text(String),
    Bytes(Vec<u8>),
}

/// A reply to a request.
#[derive(Clone, Debug)]
pub struct Reply {
    pub status: u16,
    pub headers: Vec<(&'static str, String)>,
    pub body: ReplyBody,
}

/// What the headers are, in order.
pub open spec fn header_views(headers: Seq<(&'static str, String)>) -> Seq<(Seq<char>, Seq<char>)> {
    headers.map_values(|h: (&'static str, String)| (h.0@, h.1@))
}

impl Reply {
    /// The reply has this status, these headers and this text for its body.
    pub open spec fn is_text(
        self,
        status: u16,
        headers: Seq<(Seq<char>, Seq<char>)>,
        text: Seq<char>,
    ) -> bool {
        &&& self.status == status
        &&& header_views(self.headers@) == headers
        &&& self.body matches ReplyBody::Text(t) && t@ == text
    }

    /// The reply has this status, these headers and these bytes for its body.
    pub open spec fn is_bytes(
        self,
        status: u16,
        headers: Seq<(Seq<char>, Seq<char>)>,
        bytes: Seq<u8>,
    ) -> bool {
        &&& self.status == status
        &&& header_views(self.headers@) == headers
        &&& self.body matches ReplyBody::Bytes(b) && b@ == bytes
    }

    /// The reply is the printed JSON value.
    pub open spec fn is_json(self, status: u16, v: JsonView) -> bool {
        self.is_text(
            status,
            seq![("Content-Type"@, "application/json; charset=utf-8"@)],
            json_pretty_text(v),
        )
    }
}

/// The reply with a text of JSON; with an empty one where there is none.
pub fn json_text_reply(status: u16, text: Option<String>) -> (r: Reply)
    ensures
        r.is_text(
            status,
            seq![("Content-Type"@, "application/json; charset=utf-8"@)],
            match text {
                Some(t) => t@,
                None => Seq::empty(),
            },
        ),
{
    let text: String = match text {
        Some(t) => t,
        None => String::new(),
    };
    let mut headers: Vec<(&'static str, String)> = Vec::new();
    headers.push(("Content-Type", "application/json; charset=utf-8".to_owned()));
    assert(header_views(headers@) =~= seq![
        ("Content-Type"@, "application/json; charset=utf-8"@),
    ]);
    Reply { status, headers, body: ReplyBody::Text(text) }
}

/// The reply of the printed JSON value.
pub fn print_reply(status: u16, body: &Value) -> (r: Reply)
    ensures
        r.is_json(status, json_content(*body)),
{
    json_text_reply(status, json_pretty(body))
}

/// A body with the marks of success put into it, and the storage where it has a name.
pub open spec fn marked_success(
    body: Map<Seq<char>, JsonView>,
    storage_name: Option<String>,
) -> Map<Seq<char>, JsonView> {
    let marked = body.insert("error"@, JsonView::Bool(false)).insert(
        "message"@,
        JsonView::Text("success"@),
    );
    match storage_name {
        Some(name) => marked.insert("storage"@, JsonView::Text(name@)),
        None => marked,
    }
}

/// The reply that says success, with what `body` holds.
pub(crate) fn json_response(body: Value, storage_name: &Option<String>) -> (r: Reply)
    requires
        json_content(body) is Object,
    ensures
        r.is_json(
            200,
            JsonView::Object(marked_success(json_content(body)->Object_0, *storage_name)),
        ),
{
    let mut body: Value = body;
    json_set(&mut body, "error", json_bool(false));
    json_set(&mut body, "message", json_text("success"));
    match storage_name {
        Some(name) => {
            json_set(&mut body, "storage", json_text(name.as_str()));
        },
        None => {},
    }
    print_reply(200, &body)
}

/// The reply says success, with `data` as its data.
pub open spec fn tells_data(reply: Reply, data: JsonView, storage_name: Option<String>) -> bool {
    reply.is_json(
        200,
        JsonView::Object(marked_success(Map::empty().insert("data"@, data), storage_name)),
    )
}

/// The reply that says success, with `data` as its data.
pub fn api_response(data: Value, storage_name: &Option<String>) -> (r: Reply)
    ensures
        tells_data(r, json_content(data), *storage_name),
{
    let mut body: Value = json_object();
    json_set(&mut body, "data", data);
    json_response(body, storage_name)
}

// ===================== Laws =====================
/// A reply of success says that there was no error, and names the storage where it has a
/// name; all else is what the body held.
pub proof fn law_success_is_marked(
    body: Map<Seq<char>, JsonView>,
    storage_name: Option<String>,
    key: Seq<char>,
)
    ensures
        marked_success(body, storage_name).contains_pair("error"@, JsonView::Bool(false)),
        marked_success(body, storage_name).contains_pair("message"@, JsonView::Text("success"@)),
        storage_name matches Some(name) ==> marked_success(body, storage_name).contains_pair(
            "storage"@,
            JsonView::Text(name@),
        ),
        key != "error"@ && key != "message"@ && (key != "storage"@ || storage_name is None) ==> {
            &&& marked_success(body, storage_name).contains_key(key) == body.contains_key(key)
            &&& body.contains_key(key) ==> marked_success(body, storage_name)[key] == body[key]
        },
{
    reveal_strlit("error");
    reveal_strlit("message");
    reveal_strlit("storage");
    assert("error"@.len() == 5 && "message"@.len() == 7);
    assert("message"@[0] == 'm' && "storage"@[0] == 's');
}

/// A reply has the status, the headers and the body that are said of it.
pub proof fn law_reply_is_as_said(
    reply: Reply,
    status: u16,
    headers: Seq<(Seq<char>, Seq<char>)>,
    text: Seq<char>,
    bytes: Seq<u8>,
    v: JsonView,
)
    ensures
        reply.is_text(status, headers, text) ==> {
            &&& reply.status == status
            &&& header_views(reply.headers@) == headers
            &&& reply.body matches ReplyBody::Text(t) && t@ == text
        },
        reply.is_bytes(status, headers, bytes) ==> {
            &&& reply.status == status
            &&& header_views(reply.headers@) == headers
            &&& reply.body matches ReplyBody::Bytes(b) && b@ == bytes
        },
        reply.is_json(status, v) ==> {
            &&& reply.status == status
            &&& header_views(reply.headers@).len() == 1
            &&& header_views(reply.headers@)[0] == (
                "Content-Type"@,
                "application/json; charset=utf-8"@,
            )
            &&& reply.body matches ReplyBody::Text(t) && t@ == json_pretty_text(v)
        },
{
}

/// The headers of a reply are those that it holds, in order.
pub proof fn law_headers_in_order(headers: Seq<(&'static str, String)>, i: int)
    requires
        0 <= i < headers.len(),
    ensures
        header_views(headers).len() == headers.len(),
        header_views(headers)[i].0 == headers[i].0@,
        header_views(headers)[i].1 == headers[i].1@,
{
}

/// A reply with data holds just the data, the marks of success, and the name of the storage
/// where it has one.
pub proof fn law_data_is_told(reply: Reply, data: JsonView, storage_name: Option<String>)
    requires
        tells_data(reply, data, storage_name),
    ensures
        exists|body: Map<Seq<char>, JsonView>|
            {
                &&& #[trigger] reply.is_json(200, JsonView::Object(body))
                &&& body.contains_pair("data"@, data)
                &&& body.contains_pair("error"@, JsonView::Bool(false))
                &&& body.contains_pair("message"@, JsonView::Text("success"@))
                &&& storage_name matches Some(s) ==> body.contains_pair(
                    "storage"@,
                    JsonView::Text(s@),
                )
                &&& forall|key: Seq<char>| #[trigger]
                    body.contains_key(key) ==> key == "error"@ || key == "message"@ || key
                        == "data"@ || key == "storage"@ && storage_name is Some
            },
{
    reveal_strlit("data");
    reveal_strlit("error");
    reveal_strlit("message");
    reveal_strlit("storage");
    assert("data"@.len() == 4 && "error"@.len() == 5 && "message"@.len() == 7);
    assert("storage"@.len() == 7);
    let plain = Map::<Seq<char>, JsonView>::empty().insert("data"@, data);
    law_success_is_marked(plain, storage_name, "data"@);
    assert(reply.is_json(200, JsonView::Object(marked_success(plain, storage_name))));
}

} // verus!
