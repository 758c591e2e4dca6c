//! The JSON documents that carry HTTP requests and answers through the
//! tunnel, as far as the tunnel reads and writes them.
use crate::buffers::{bytes_copy_from_slice, bytes_view};
use crate::http::{
    headers_view, opt_view, reply_status, text_entries, text_headers, LocalResponse, BAD_GATEWAY,
};
use crate::types::ProtocolError;
use vstd::prelude::*;
use vstd::utf8::encode_utf8;

verus! {

/// A field of a JSON object, as the tunnel reads it: text, an unsigned
/// integer, an object whose values are kept when they are text, or anything
/// else.
#[derive(Debug, Clone)]
pub enum JsonField {
    Text(String),
    Unsigned(u64),
    Object(Vec<(String, Option<String>)>),
    Other,
}

/// A field as a mathematical value.
pub ghost enum JsonFieldView {
    Text(Seq<char>),
    Unsigned(u64),
    Object(Seq<(Seq<char>, Option<Seq<char>>)>),
    Other,
}

impl View for JsonField {
    type V = JsonFieldView;

    open spec fn view(&self) -> JsonFieldView {
        match self {
            JsonField::Text(s) => JsonFieldView::Text(s@),
            JsonField::Unsigned(n) => JsonFieldView::Unsigned(*n),
            JsonField::Object(h) => JsonFieldView::Object(headers_view(h@)),
            JsonField::Other => JsonFieldView::Other,
        }
    }
}

/// The views of the fields of an object.
pub open spec fn fields_view(fs: Seq<(String, JsonField)>) -> Seq<(Seq<char>, JsonFieldView)> {
    fs.map_values(|p: (String, JsonField)| (p.0@, p.1@))
}

/// The fields `serde_json` reads from `payload`: the members of the
/// top-level object (none when the document is no object), or `None` when
/// `serde_json` refuses `payload` as a JSON document.
pub uninterp spec fn json_fields(payload: Seq<u8>) -> Option<Seq<(Seq<char>, JsonFieldView)>>;

/// `serde_json::from_slice::<serde_json::Value>`: parses `payload` and hands
/// out the members of its top-level object, each converted to a `JsonField`.
#[verifier::external_body]
fn parse_fields(payload: &[u8]) -> (r: Result<Vec<(String, JsonField)>, serde_json::Error>)
    ensures
        match r {
            Ok(fs) => json_fields(payload@) == Some(fields_view(fs@)),
            Err(_) => json_fields(payload@) is None,
        },
{
    let object = match serde_json::from_slice::<serde_json::Value>(payload)? {
        serde_json::Value::Object(m) => m,
        _ => serde_json::Map::new(),
    };
    Ok(object.into_iter().map(|(k, v)| (k, match v {
        serde_json::Value::String(s) => JsonField::Text(s),
        serde_json::Value::Number(n) => n.as_u64().map_or(JsonField::Other, JsonField::Unsigned),
        serde_json::Value::Object(m) => JsonField::Object(
            m.into_iter().map(|(k, v)| (k, v.as_str().map(str::to_string))).collect(),
        ),
        _ => JsonField::Other,
    })).collect())
}

/// The JSON text `serde_json` writes for the object with these fields.
pub uninterp spec fn json_text(fields: Seq<(Seq<char>, JsonFieldView)>) -> Seq<char>;

/// No two fields share a name.
pub open spec fn distinct_keys(fs: Seq<(Seq<char>, JsonFieldView)>) -> bool {
    forall|i: int, j: int| 0 <= i < fs.len() && 0 <= j < fs.len() && i != j ==> fs[i].0 != fs[j].0
}

/// Reading `g` gives back the text and unsigned fields of `fs`, name by name.
pub open spec fn reads_back(g: Seq<(Seq<char>, JsonFieldView)>, fs: Seq<(Seq<char>, JsonFieldView)>) -> bool {
    forall|k: Seq<char>|
        #![trigger field_of(g, k)]
        text_of(field_of(g, k)) == text_of(field_of(fs, k)) && unsigned_of(field_of(g, k))
            == unsigned_of(field_of(fs, k))
}

/// `serde_json::to_string` of the object with `fields` (object values that
/// are missing are written as `null`). The second clause states that
/// `serde_json` reads the text back: when the names are distinct, every
/// text and every unsigned integer comes back under its name (strings are
/// escaped and unescaped losslessly, and a `u64` is written in decimal and
/// read as a `u64`). The order of members, and the members of nested
/// objects, are left unsaid. Writing a `Value` never fails: its map keys
/// are strings and its `Serialize` impl reports no error, which the first
/// clause states.
#[verifier::external_body]
fn write_fields(fields: Vec<(String, JsonField)>) -> (r: Result<String, serde_json::Error>)
    ensures
        r is Ok,
        r matches Ok(s) ==> s@ == json_text(fields_view(fields@)),
        r matches Ok(s) ==> distinct_keys(fields_view(fields@)) ==> (json_fields(encode_utf8(s@)) matches Some(g)
            && reads_back(g, fields_view(fields@))),
{
    serde_json::to_string(&serde_json::Value::Object(fields.into_iter().map(|(k, f)| (k, match f {
        JsonField::Text(s) => serde_json::Value::String(s),
        JsonField::Unsigned(n) => serde_json::Value::from(n),
        JsonField::Object(h) => serde_json::Value::Object(
            h.into_iter().map(|(k, v)| (k, v.map_or(serde_json::Value::Null, serde_json::Value::String))).collect(),
        ),
        JsonField::Other => serde_json::Value::Null,
    })).collect()))
}

} // verus!

verus! {

/// `i` is where the first field named `key` sits.
pub open spec fn first_field(fs: Seq<(Seq<char>, JsonFieldView)>, key: Seq<char>, i: int) -> bool {
    &&& 0 <= i < fs.len()
    &&& fs[i].0 == key
    &&& forall|j: int| 0 <= j < i ==> fs[j].0 != key
}

/// The field named `key`, as `value[key]` finds it.
pub open spec fn field_of(fs: Seq<(Seq<char>, JsonFieldView)>, key: Seq<char>) -> Option<JsonFieldView> {
    if exists|i: int| first_field(fs, key, i) {
        Some(fs[choose|i: int| first_field(fs, key, i)].1)
    } else {
        None
    }
}

/// `as_str` of a field.
pub open spec fn text_of(f: Option<JsonFieldView>) -> Option<Seq<char>> {
    match f {
        Some(JsonFieldView::Text(s)) => Some(s),
        _ => None,
    }
}

/// `as_u64` of a field.
pub open spec fn unsigned_of(f: Option<JsonFieldView>) -> Option<u64> {
    match f {
        Some(JsonFieldView::Unsigned(n)) => Some(n),
        _ => None,
    }
}

/// The members of a field that is an object, none otherwise.
pub open spec fn members_of(f: Option<JsonFieldView>) -> Seq<(Seq<char>, Option<Seq<char>>)> {
    match f {
        Some(JsonFieldView::Object(h)) => h,
        _ => Seq::empty(),
    }
}

/// Where the field named `key` first sits, if anywhere.
fn find_field(fs: &Vec<(String, JsonField)>, key: &str) -> (r: Option<usize>)
    ensures
        match r {
            Some(i) => first_field(fields_view(fs@), key@, i as int),
            None => !exists|i: int| first_field(fields_view(fs@), key@, i),
        },
{
    let mut i: usize = 0;
    while i < fs.len()
        invariant
            i <= fs@.len(),
            forall|j: int| 0 <= j < i ==> fields_view(fs@)[j].0 != key@,
        decreases fs@.len() - i,
    {
        if crate::text::str_equal(fs[i].0.as_str(), key) {
            return Some(i);
        }
        i = i + 1;
    }
    None
}

/// The field named `key`.
fn get_field<'a>(fs: &'a Vec<(String, JsonField)>, key: &str) -> (r: Option<&'a JsonField>)
    ensures
        match r {
            Some(f) => field_of(fields_view(fs@), key@) == Some(f@),
            None => field_of(fields_view(fs@), key@) is None,
        },
{
    match find_field(fs, key) {
        Some(i) => {
            proof {
                let c: int = choose|c: int| first_field(fields_view(fs@), key@, c);
                assert(c == i);
            }
            Some(&fs[i].1)
        },
        None => None,
    }
}

/// `as_str` of a field, copied.
fn text_field(f: Option<&JsonField>) -> (r: Option<String>)
    ensures
        opt_view(r) == text_of(match f {
            Some(f) => Some(f@),
            None => None,
        }),
{
    match f {
        Some(JsonField::Text(s)) => Some(s.clone()),
        _ => None,
    }
}

/// A copy of an object's members.
fn copy_members(h: &Vec<(String, Option<String>)>) -> (r: Vec<(String, Option<String>)>)
    ensures
        headers_view(r@) == headers_view(h@),
{
    let mut r: Vec<(String, Option<String>)> = Vec::new();
    let mut i: usize = 0;
    while i < h.len()
        invariant
            i <= h@.len(),
            r@.len() == i,
            forall|j: int| 0 <= j < i ==> #[trigger] r@[j].0@ == h@[j].0@ && opt_view(r@[j].1)
                == opt_view(h@[j].1),
        decreases h@.len() - i,
    {
        let v: Option<String> = match &h[i].1 {
            Some(s) => Some(s.clone()),
            None => None,
        };
        r.push((h[i].0.clone(), v));
        i = i + 1;
    }
    assert(headers_view(r@) =~= headers_view(h@));
    r
}

/// The members of a field that is an object, copied.
fn members_field(f: Option<&JsonField>) -> (r: Vec<(String, Option<String>)>)
    ensures
        headers_view(r@) == members_of(match f {
            Some(f) => Some(f@),
            None => None,
        }),
{
    match f {
        Some(JsonField::Object(h)) => copy_members(h),
        _ => {
            let r: Vec<(String, Option<String>)> = Vec::new();
            assert(headers_view(r@) =~= Seq::empty());
            r
        },
    }
}

} // verus!

verus! {

/// The bytes of a JSON text.
fn text_bytes(s: String) -> (b: bytes::Bytes)
    ensures
        bytes_view(b) == encode_utf8(s@),
{
    bytes_copy_from_slice(s.as_str().as_bytes())
}

/// Writes the object with `fields` as a frame payload.
fn fields_payload(fields: Vec<(String, JsonField)>) -> (r: Result<bytes::Bytes, ProtocolError>)
    ensures
        r is Ok,
        match r {
            Ok(b) => bytes_view(b) == encode_utf8(json_text(fields_view(fields@))),
            Err(e) => e is Json,
        },
        r matches Ok(b) ==> distinct_keys(fields_view(fields@)) ==> (json_fields(bytes_view(b)) matches Some(g)
            && reads_back(g, fields_view(fields@))),
{
    match write_fields(fields) {
        Ok(s) => Ok(text_bytes(s)),
        Err(e) => Err(ProtocolError::Json(e)),
    }
}

/// The `method` of a visitor request document, when it is text.
pub open spec fn request_method_of(fs: Seq<(Seq<char>, JsonFieldView)>) -> Option<Seq<char>> {
    text_of(field_of(fs, "method"@))
}

/// The `uri` of a visitor request document, when it is text.
pub open spec fn request_uri_of(fs: Seq<(Seq<char>, JsonFieldView)>) -> Option<Seq<char>> {
    text_of(field_of(fs, "uri"@))
}

/// A visitor request as the client reads it from an `HttpRequest` frame:
/// the `method` and `uri` fields when they are text, and the members of the
/// `headers` object.
pub struct VisitorRequest {
    pub method: Option<String>,
    pub uri: Option<String>,
    pub headers: Vec<(String, Option<String>)>,
}

impl VisitorRequest {
    /// Reads the payload of an `HttpRequest` frame; a payload that is no
    /// JSON document is a `Json` error.
    pub fn from_payload(payload: &[u8]) -> (r: Result<VisitorRequest, ProtocolError>)
        ensures
            match json_fields(payload@) {
                None => r matches Err(ProtocolError::Json(_)),
                Some(fs) => r matches Ok(v) && opt_view(v.method) == request_method_of(fs) && opt_view(
                    v.uri,
                ) == request_uri_of(fs) && headers_view(v.headers@) == members_of(
                    field_of(fs, "headers"@),
                ),
            },
    {
        match parse_fields(payload) {
            Ok(fs) => Ok(VisitorRequest {
                method: text_field(get_field(&fs, "method")),
                uri: text_field(get_field(&fs, "uri")),
                headers: members_field(get_field(&fs, "headers")),
            }),
            Err(e) => Err(ProtocolError::Json(e)),
        }
    }
}

/// Header pairs as object members, each value present.
pub open spec fn present_values(h: Seq<(Seq<char>, Seq<char>)>) -> Seq<(Seq<char>, Option<Seq<char>>)> {
    h.map_values(|p: (Seq<char>, Seq<char>)| (p.0, Some(p.1)))
}

/// The fields of the document the server sends for a visitor request.
pub open spec fn request_fields(
    method: Seq<char>,
    uri: Seq<char>,
    headers: Seq<(Seq<char>, Seq<char>)>,
    visitor: Seq<char>,
) -> Seq<(Seq<char>, JsonFieldView)> {
    seq![
        ("method"@, JsonFieldView::Text(method)),
        ("uri"@, JsonFieldView::Text(uri)),
        ("headers"@, JsonFieldView::Object(present_values(headers))),
        ("visitor"@, JsonFieldView::Text(visitor)),
    ]
}

/// The payload of the `HttpRequest` frame the server sends for a visitor
/// request: `{"method", "uri", "headers", "visitor"}`.
pub fn request_payload(method: &str, uri: &str, headers: &Vec<(String, String)>, visitor: &str) -> (r:
    Result<bytes::Bytes, ProtocolError>)
    ensures
        r is Ok,
        match r {
            Ok(b) => bytes_view(b) == encode_utf8(
                json_text(
                    request_fields(
                        method@,
                        uri@,
                        headers@.map_values(|p: (String, String)| (p.0@, p.1@)),
                        visitor@,
                    ),
                ),
            ),
            Err(e) => e is Json,
        },
        r matches Ok(b) ==> (json_fields(bytes_view(b)) matches Some(g) && text_of(
            field_of(g, "method"@),
        ) == Some(method@) && text_of(field_of(g, "uri"@)) == Some(uri@)),
{
    let mut members: Vec<(String, Option<String>)> = Vec::new();
    let mut i: usize = 0;
    while i < headers.len()
        invariant
            i <= headers@.len(),
            members@.len() == i,
            forall|j: int| 0 <= j < i ==> #[trigger] members@[j].0@ == headers@[j].0@ && opt_view(
                members@[j].1,
            ) == Some(headers@[j].1@),
        decreases headers@.len() - i,
    {
        let k = headers[i].0.clone();
        let v = headers[i].1.clone();
        members.push((k, Some(v)));
        assert(members@[i as int].0@ == headers@[i as int].0@);
        i = i + 1;
    }
    let ghost hv = headers@.map_values(|p: (String, String)| (p.0@, p.1@));
    assert(headers_view(members@) =~= present_values(hv));
    let mut fields: Vec<(String, JsonField)> = Vec::new();
    fields.push(("method".to_owned(), JsonField::Text(method.to_owned())));
    fields.push(("uri".to_owned(), JsonField::Text(uri.to_owned())));
    fields.push(("headers".to_owned(), JsonField::Object(members)));
    fields.push(("visitor".to_owned(), JsonField::Text(visitor.to_owned())));
    assert(fields_view(fields@) =~= request_fields(method@, uri@, hv, visitor@));
    proof {
        lemma_request_fields(method@, uri@, hv, visitor@);
    }
    fields_payload(fields)
}

/// The fields of the document the client sends back for a visitor request.
pub open spec fn reply_fields(status: u16, body: Seq<char>) -> Seq<(Seq<char>, JsonFieldView)> {
    seq![
        ("status"@, JsonFieldView::Unsigned(status as u64)),
        ("headers"@, JsonFieldView::Object(Seq::empty())),
        ("body"@, JsonFieldView::Text(body)),
    ]
}

/// The fields of a reply have distinct names, and `status` and `body` are
/// found where they were put.
pub proof fn lemma_reply_fields(status: u16, body: Seq<char>)
    ensures
        distinct_keys(reply_fields(status, body)),
        field_of(reply_fields(status, body), "status"@) == Some(JsonFieldView::Unsigned(status as u64)),
        field_of(reply_fields(status, body), "body"@) == Some(JsonFieldView::Text(body)),
{
    reveal_strlit("status");
    reveal_strlit("headers");
    reveal_strlit("body");
    assert("status"@.len() == 6 && "headers"@.len() == 7 && "body"@.len() == 4);
    let fs = reply_fields(status, body);
    assert(fs[0].0 != fs[1].0 && fs[0].0 != fs[2].0 && fs[1].0 != fs[2].0);
    assert(first_field(fs, "status"@, 0));
    assert(first_field(fs, "body"@, 2));
    let c: int = choose|c: int| first_field(fs, "status"@, c);
    assert(c == 0);
    let d: int = choose|d: int| first_field(fs, "body"@, d);
    assert(d == 2);
}

/// The fields of a visitor request have distinct names, and `method` and
/// `uri` are found where they were put.
pub proof fn lemma_request_fields(
    method: Seq<char>,
    uri: Seq<char>,
    headers: Seq<(Seq<char>, Seq<char>)>,
    visitor: Seq<char>,
)
    ensures
        distinct_keys(request_fields(method, uri, headers, visitor)),
        field_of(request_fields(method, uri, headers, visitor), "method"@) == Some(
            JsonFieldView::Text(method),
        ),
        field_of(request_fields(method, uri, headers, visitor), "uri"@) == Some(
            JsonFieldView::Text(uri),
        ),
{
    reveal_strlit("method");
    reveal_strlit("uri");
    reveal_strlit("headers");
    reveal_strlit("visitor");
    assert("method"@.len() == 6 && "uri"@.len() == 3 && "headers"@.len() == 7 && "visitor"@.len()
        == 7);
    assert("headers"@[0] == 'h' && "visitor"@[0] == 'v');
    let fs = request_fields(method, uri, headers, visitor);
    assert(fs[0].0 != fs[1].0 && fs[0].0 != fs[2].0 && fs[0].0 != fs[3].0);
    assert(fs[1].0 != fs[2].0 && fs[1].0 != fs[3].0 && fs[2].0 != fs[3].0);
    assert(first_field(fs, "method"@, 0));
    assert(first_field(fs, "uri"@, 1));
    let c: int = choose|c: int| first_field(fs, "method"@, c);
    assert(c == 0);
    let d: int = choose|d: int| first_field(fs, "uri"@, d);
    assert(d == 1);
}

impl LocalResponse {
    /// The payload of the `HttpResponse` frame carrying this answer:
    /// `{"status", "headers": {}, "body"}`. Read back, it gives the same
    /// status and body.
    pub fn payload(&self) -> (r: Result<bytes::Bytes, ProtocolError>)
        ensures
            r is Ok,
            match r {
                Ok(b) => bytes_view(b) == encode_utf8(json_text(reply_fields(self.status, self.body@))),
                Err(e) => e is Json,
            },
            r matches Ok(b) ==> (json_fields(bytes_view(b)) matches Some(g) && unsigned_of(
                field_of(g, "status"@),
            ) == Some(self.status as u64) && text_of(field_of(g, "body"@)) == Some(self.body@)),
    {
        proof {
            lemma_reply_fields(self.status, self.body@);
        }
        let no_members: Vec<(String, Option<String>)> = Vec::new();
        assert(headers_view(no_members@) =~= Seq::empty());
        let mut fields: Vec<(String, JsonField)> = Vec::new();
        fields.push(("status".to_owned(), JsonField::Unsigned(self.status as u64)));
        fields.push(("headers".to_owned(), JsonField::Object(no_members)));
        fields.push(("body".to_owned(), JsonField::Text(self.body.clone())));
        assert(fields_view(fields@) =~= reply_fields(self.status, self.body@));
        fields_payload(fields)
    }
}

/// The status the server answers a visitor with, from the client's reply
/// document: its `status` number cut to 16 bits, 502 when there is none.
pub open spec fn reply_status_of(fs: Seq<(Seq<char>, JsonFieldView)>) -> u16 {
    match unsigned_of(field_of(fs, "status"@)) {
        Some(n) => n as u16,
        None => BAD_GATEWAY,
    }
}

/// The body the server answers a visitor with: the reply's `body` text,
/// empty when there is none.
pub open spec fn reply_body_of(fs: Seq<(Seq<char>, JsonFieldView)>) -> Seq<char> {
    match text_of(field_of(fs, "body"@)) {
        Some(b) => b,
        None => ""@,
    }
}

/// The client's answer to a visitor request, as the server reads it: the
/// status to answer with, the text-valued headers, and the body.
pub struct ClientReply {
    pub status: u16,
    pub headers: Vec<(String, String)>,
    pub body: String,
}

impl ClientReply {
    /// Reads the payload of an `HttpResponse` frame: the `status` number cut
    /// to 16 bits (502 when missing), the text-valued members of `headers`,
    /// and the `body` text (empty when missing). A payload that is no JSON
    /// document is a `Json` error.
    pub fn from_payload(payload: &[u8]) -> (r: Result<ClientReply, ProtocolError>)
        ensures
            match json_fields(payload@) {
                None => r matches Err(ProtocolError::Json(_)),
                Some(fs) => r matches Ok(c) && c.status == reply_status_of(fs) && c.body@
                    == reply_body_of(fs) && c.headers@.map_values(|p: (String, String)| (p.0@, p.1@))
                    == text_entries(members_of(field_of(fs, "headers"@))),
            },
    {
        match parse_fields(payload) {
            Ok(fs) => {
                let status_field = get_field(&fs, "status");
                let status: u16 = reply_status(
                    match status_field {
                        Some(JsonField::Unsigned(n)) => Some(*n),
                        _ => None,
                    },
                );
                let body = match text_field(get_field(&fs, "body")) {
                    Some(b) => b,
                    None => "".to_owned(),
                };
                let headers = text_headers(&members_field(get_field(&fs, "headers")));
                Ok(ClientReply { status, headers, body })
            },
            Err(e) => Err(ProtocolError::Json(e)),
        }
    }
}

} // verus!

verus! {

/// The request document carries every visitor header, in order: its
/// `headers` member has one member per visitor header, with the header's
/// name and its value.
pub proof fn lemma_request_carries_headers(
    method: Seq<char>,
    uri: Seq<char>,
    headers: Seq<(Seq<char>, Seq<char>)>,
    visitor: Seq<char>,
)
    ensures
        members_of(field_of(request_fields(method, uri, headers, visitor), "headers"@)).len()
            == headers.len(),
        forall|i: int|
            0 <= i < headers.len() ==> #[trigger] members_of(
                field_of(request_fields(method, uri, headers, visitor), "headers"@),
            )[i] == (headers[i].0, Some(headers[i].1)),
{
    reveal_strlit("method");
    reveal_strlit("uri");
    reveal_strlit("headers");
    assert("method"@.len() == 6 && "uri"@.len() == 3 && "headers"@.len() == 7);
    let fs = request_fields(method, uri, headers, visitor);
    assert(fs[0].0 != "headers"@ && fs[1].0 != "headers"@);
    assert(first_field(fs, "headers"@, 2));
    let c: int = choose|c: int| first_field(fs, "headers"@, c);
    assert(c == 2);
}

/// A visitor is answered with the status and body the local server gave:
/// the document `LocalResponse::payload` writes reads back, through
/// `ClientReply::from_payload`, as that status and body.
pub proof fn lemma_reply_relayed(status: u16, body: Seq<char>, g: Seq<(Seq<char>, JsonFieldView)>)
    requires
        unsigned_of(field_of(g, "status"@)) == Some(status as u64),
        text_of(field_of(g, "body"@)) == Some(body),
    ensures
        reply_status_of(g) == status,
        reply_body_of(g) == body,
{
}

/// The client replays the visitor's own method and target: the document
/// `request_payload` writes reads back, through
/// `VisitorRequest::from_payload`, as that method and URI.
pub proof fn lemma_request_relayed(method: Seq<char>, uri: Seq<char>, g: Seq<(Seq<char>, JsonFieldView)>)
    requires
        text_of(field_of(g, "method"@)) == Some(method),
        text_of(field_of(g, "uri"@)) == Some(uri),
    ensures
        request_method_of(g) == Some(method),
        request_uri_of(g) == Some(uri),
{
}

} // verus!
