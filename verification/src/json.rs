//! JSON documents, as far as a schema reads them. The text is parsed by
//! `serde_json`; the library works on a tree of its own.

use vstd::prelude::*;

verus! {

/// A document as `serde_json` parsed it. Nothing is known of it but what
/// `json_content` names.
#[verifier::external_body]
pub struct JsonDoc {
    inner: serde_json::Value,
}

/// A JSON value. Numbers and arrays have no meaning in a schema, so only
/// their presence is kept. The members of an object stand in the order in
/// which `serde_json` hands them out.
#[derive(Debug, PartialEq, Eq)]
pub enum Json {
    Null,
    Bool(bool),
    Number,
    Str(String),
    Array,
    Object(Vec<(String, Json)>),
}

/// What a `Json` holds.
pub enum JsonView {
    Null,
    Bool(bool),
    Number,
    Str(Seq<char>),
    Array,
    Object(Seq<(Seq<char>, JsonView)>),
}

/// The views of the members of an object.
pub open spec fn members_view(members: Seq<(String, Json)>) -> Seq<(Seq<char>, JsonView)>
    decreases members, 0int,
{
    if members.len() == 0 {
        Seq::empty()
    } else {
        members_view(members.drop_last()).push((members.last().0@, json_view(members.last().1)))
    }
}

/// The view of a JSON value.
pub open spec fn json_view(j: Json) -> JsonView
    decreases j, 1int,
{
    match j {
        Json::Null => JsonView::Null,
        Json::Bool(b) => JsonView::Bool(b),
        Json::Number => JsonView::Number,
        Json::Str(s) => JsonView::Str(s@),
        Json::Array => JsonView::Array,
        Json::Object(members) => JsonView::Object(members_view(members@)),
    }
}

/// The view of the members is taken member by member.
pub proof fn lemma_members_view(members: Seq<(String, Json)>)
    ensures
        members_view(members).len() == members.len(),
        forall|i: int|
            0 <= i < members.len() ==> (#[trigger] members_view(members)[i]) == (
                members[i].0@,
                json_view(members[i].1),
            ),
    decreases members.len(),
{
    if members.len() > 0 {
        lemma_members_view(members.drop_last());
    }
}

impl View for Json {
    type V = JsonView;

    open spec fn view(&self) -> JsonView {
        json_view(*self)
    }
}

/// One level of a parsed document: what kind of value it is, with its
/// contents where it has any, and the members of an object as documents of
/// their own.
pub enum JsonNode {
    Null,
    Bool(bool),
    Number,
    Str(String),
    Array,
    Object(Vec<(String, JsonDoc)>),
}

/// What a `JsonNode` holds, with each member taken by its content.
pub open spec fn node_view(node: JsonNode) -> JsonView {
    match node {
        JsonNode::Null => JsonView::Null,
        JsonNode::Bool(b) => JsonView::Bool(b),
        JsonNode::Number => JsonView::Number,
        JsonNode::Str(s) => JsonView::Str(s@),
        JsonNode::Array => JsonView::Array,
        JsonNode::Object(members) => JsonView::Object(
            Seq::new(members@.len(), |i: int| (members@[i].0@, json_content(members@[i].1))),
        ),
    }
}

/// How deep objects lie in objects: 0 for a value that is no object.
pub open spec fn json_depth(v: JsonView) -> nat
    decreases v, 1int,
{
    match v {
        JsonView::Object(members) => 1 + members_depth(members),
        _ => 0,
    }
}

/// The greatest depth among the members of an object.
pub open spec fn members_depth(members: Seq<(Seq<char>, JsonView)>) -> nat
    decreases members, 0int,
{
    if members.len() == 0 {
        0
    } else {
        let before = members_depth(members.drop_last());
        let last = json_depth(members.last().1);
        if before >= last {
            before
        } else {
            last
        }
    }
}

/// The deepest document that `json_from_str` copies.
pub const JSON_DEPTH_LIMIT: usize = 128;

/// The JSON value that `serde_json` reads from a text, if the text is JSON.
pub uninterp spec fn json_of_text(text: Seq<char>) -> Option<JsonView>;

/// What a parsed document holds.
pub uninterp spec fn json_content(doc: JsonDoc) -> JsonView;

/// Calls `serde_json::from_str` for a `serde_json::Value`. The result
/// depends on the text alone.
#[verifier::external_body]
fn json_parse(text: &str) -> (r: Option<JsonDoc>)
    ensures
        match r {
            Some(doc) => json_of_text(text@) == Some(json_content(doc)),
            None => json_of_text(text@) is None,
        },
{
    match serde_json::from_str::<serde_json::Value>(text) {
        Ok(v) => Some(JsonDoc { inner: v }),
        Err(_) => None,
    }
}

/// Tells the variants of a `serde_json::Value` apart and hands out what the
/// variant holds; the members of an object come in the order of
/// `serde_json::Map::iter`, each value as a document of its own.
#[verifier::external_body]
fn json_node(doc: &JsonDoc) -> (r: JsonNode)
    ensures
        node_view(r) == json_content(*doc),
{
    match &doc.inner {
        serde_json::Value::Null => JsonNode::Null,
        serde_json::Value::Bool(b) => JsonNode::Bool(*b),
        serde_json::Value::Number(_) => JsonNode::Number,
        serde_json::Value::String(s) => JsonNode::Str(s.clone()),
        serde_json::Value::Array(_) => JsonNode::Array,
        serde_json::Value::Object(m) => JsonNode::Object(
            m.iter().map(|(k, c)| (k.clone(), JsonDoc { inner: c.clone() })).collect(),
        ),
    }
}

proof fn lemma_depth_stays(members: Seq<(Seq<char>, JsonView)>, i: int)
    requires
        0 <= i <= members.len(),
    ensures
        members_depth(members) >= members_depth(members.take(i)),
    decreases members.len() - i,
{
    if i < members.len() {
        assert(members.take(i + 1).drop_last() =~= members.take(i));
        lemma_depth_stays(members, i + 1);
    } else {
        assert(members.take(i) =~= members);
    }
}

/// Copies a parsed document into a `Json`, as far down as `fuel` levels of
/// objects.
fn json_from_doc(doc: &JsonDoc, fuel: usize) -> (r: Option<Json>)
    ensures
        match r {
            Some(j) => j@ == json_content(*doc) && json_depth(j@) <= fuel,
            None => json_depth(json_content(*doc)) > fuel,
        },
    decreases fuel,
{
    match json_node(doc) {
        JsonNode::Null => Some(Json::Null),
        JsonNode::Bool(b) => Some(Json::Bool(b)),
        JsonNode::Number => Some(Json::Number),
        JsonNode::Str(s) => Some(Json::Str(s)),
        JsonNode::Array => Some(Json::Array),
        JsonNode::Object(members) => {
            if fuel == 0 {
                return None;
            }
            let ghost content = Seq::new(
                members@.len(),
                |i: int| (members@[i].0@, json_content(members@[i].1)),
            );
            let mut out: Vec<(String, Json)> = Vec::new();
            let n: usize = members.len();
            let mut i: usize = 0;
            assert(content.take(0) =~= members_view(out@));
            while i < n
                invariant
                    n == members@.len(),
                    i <= n,
                    fuel > 0,
                    content == Seq::new(
                        members@.len(),
                        |i: int| (members@[i].0@, json_content(members@[i].1)),
                    ),
                    json_content(*doc) == JsonView::Object(content),
                    members_view(out@) == content.take(i as int),
                    members_depth(content.take(i as int)) <= fuel - 1,
                decreases n - i,
            {
                assert(content.take(i + 1).drop_last() =~= content.take(i as int));
                assert(content.take(i + 1).last() == content[i as int]);
                match json_from_doc(&members[i].1, fuel - 1) {
                    Some(child) => {
                        let ghost before = out@;
                        out.push((members[i].0.clone(), child));
                        assert(out@.drop_last() =~= before);
                    },
                    None => {
                        proof {
                            lemma_depth_stays(content, i + 1);
                            assert(members_depth(content.take(i + 1)) >= json_depth(
                                content[i as int].1,
                            ));
                        }
                        return None;
                    },
                }
                i = i + 1;
            }
            assert(content.take(n as int) =~= content);
            Some(Json::Object(out))
        },
    }
}

/// The JSON value of a text as `json_from_str` gives it: none where the text
/// is no JSON or objects lie deeper in objects than `JSON_DEPTH_LIMIT`.
pub open spec fn json_of_str(text: Seq<char>) -> Option<JsonView> {
    match json_of_text(text) {
        Some(v) if json_depth(v) <= JSON_DEPTH_LIMIT => Some(v),
        _ => None,
    }
}

/// Reads a JSON text.
pub fn json_from_str(text: &str) -> (r: Option<Json>)
    ensures
        match r {
            Some(j) => json_of_str(text@) == Some(j@),
            None => json_of_str(text@) is None,
        },
{
    match json_parse(text) {
        Some(doc) => json_from_doc(&doc, JSON_DEPTH_LIMIT),
        None => None,
    }
}

} // verus!
