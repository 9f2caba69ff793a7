//! Tools that a model may call.

use vstd::prelude::*;
use crate::content::option_view;
use crate::json::{member_views, Json, JsonView};
use crate::schema::{optional_member, optional_string, put_optional, schema_doc, Schema};

verus! {

/// The tool call structure
#[derive(Debug, Clone, PartialEq, Eq)]
pub struct Tool {
    pub name: String,
    pub description: Option<String>,
    pub parameters: Schema,
}

/// The members of the definition of a tool, its schema under `schema_key`.
pub open spec fn tool_members(tool: Tool, schema_key: Seq<char>) -> Seq<(Seq<char>, JsonView)> {
    seq![("name"@, JsonView::Text(tool.name@))] + optional_member(
        "description"@,
        optional_string(tool.description),
    ) + seq![(schema_key, schema_doc(tool.parameters))]
}

/// The definition of a tool as a request of the wire family carries it. In
/// the delta family it is wrapped as a function; in the event family its
/// schema goes under `input_schema` in place of `parameters`.
pub open spec fn tool_doc(anthropic: bool, tool: Tool) -> JsonView {
    if anthropic {
        JsonView::Object(tool_members(tool, "input_schema"@))
    } else {
        JsonView::Object(
            seq![
                ("type"@, JsonView::Text("function"@)),
                ("function"@, JsonView::Object(tool_members(tool, "parameters"@))),
            ],
        )
    }
}

impl Tool {
    /// Creates a new tool call; an empty description is none.
    pub fn new(name: &str, descr: &str, schema: Schema) -> (r: Self)
        ensures
            r.name@ == name@,
            option_view(r.description) == if descr@.len() > 0 {
                Some(descr@)
            } else {
                None
            },
            r.parameters == schema,
    {
        Tool {
            name: String::from_str(name),
            description: if descr.unicode_len() > 0 {
                Some(String::from_str(descr))
            } else {
                None
            },
            parameters: schema,
        }
    }

    /// The definition of the tool, its schema under `schema_key`.
    fn definition(&self, schema_key: &str) -> (r: Json)
        ensures
            r@ == JsonView::Object(tool_members(*self, schema_key@)),
    {
        let description = match &self.description {
            Some(text) => Some(Json::text(text.as_str())),
            None => None,
        };
        let mut members: Vec<(String, Json)> = Vec::new();
        assert(member_views(members@) =~= Seq::empty());
        Json::put(&mut members, "name", Json::text(self.name.as_str()));
        assert(member_views(members@) =~= seq![("name"@, JsonView::Text(self.name@))]);
        put_optional(&mut members, "description", description);
        let ghost before = member_views(members@);
        Json::put(&mut members, schema_key, self.parameters.to_json());
        assert(member_views(members@) =~= before + seq![
            (schema_key@, schema_doc(self.parameters)),
        ]);
        Json::object(members)
    }

    /// The definition of the tool as a request of the wire family carries
    /// it.
    pub fn to_json(&self, anthropic: bool) -> (r: Json)
        ensures
            r@ == tool_doc(anthropic, *self),
    {
        if anthropic {
            self.definition("input_schema")
        } else {
            let mut members: Vec<(String, Json)> = Vec::new();
            assert(member_views(members@) =~= Seq::empty());
            Json::put(&mut members, "type", Json::text("function"));
            Json::put(&mut members, "function", self.definition("parameters"));
            assert(member_views(members@) =~= seq![
                ("type"@, JsonView::Text("function"@)),
                ("function"@, JsonView::Object(tool_members(*self, "parameters"@))),
            ]);
            Json::object(members)
        }
    }
}

impl Default for Tool {
    /// A tool without a name, with the schema that sets nothing.
    fn default() -> (r: Self)
        ensures
            r.name@ == Seq::<char>::empty(),
            r.description is None,
            r.parameters.plain(crate::schema::SchemaKind::Object, Seq::empty()),
            r.parameters.additional_properties is None,
    {
        Tool { name: String::new(), description: None, parameters: Schema::default() }
    }
}

} // verus!
