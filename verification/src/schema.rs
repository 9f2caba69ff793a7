//! JSON schemas, for structured replies and for the parameters of tools.

use vstd::prelude::*;
use crate::content::option_view;
use crate::json::{member_views, views, Json, JsonView, Number};

verus! {

/// The JSON-schema kind
#[derive(Debug, Clone, Copy, PartialEq, Eq, Hash, Structural)]
pub enum SchemaKind {
    Object,
    Array,
    String,
    Number,
    Integer,
    Boolean,
    Null,
}

impl Default for SchemaKind {
    fn default() -> (r: Self)
        ensures
            r == SchemaKind::Object,
    {
        SchemaKind::Object
    }
}

impl SchemaKind {
    /// The name of the kind in a schema document.
    pub open spec fn name(self) -> Seq<char> {
        match self {
            SchemaKind::Object => "object"@,
            SchemaKind::Array => "array"@,
            SchemaKind::String => "string"@,
            SchemaKind::Number => "number"@,
            SchemaKind::Integer => "integer"@,
            SchemaKind::Boolean => "boolean"@,
            SchemaKind::Null => "null"@,
        }
    }

    /// The lower-case name under which the kind is written into a schema.
    pub fn as_str(&self) -> (r: &'static str)
        ensures
            r@ == self.name(),
    {
        match self {
            SchemaKind::Object => "object",
            SchemaKind::Array => "array",
            SchemaKind::String => "string",
            SchemaKind::Number => "number",
            SchemaKind::Integer => "integer",
            SchemaKind::Boolean => "boolean",
            SchemaKind::Null => "null",
        }
    }
}

/// The JSON-schema property
#[derive(Debug, PartialEq, Eq)]
pub struct Schema {
    /// The schema type
    pub kind: SchemaKind,
    /// The schema description
    pub description: Option<String>,
    /// The string value variants
    pub variants: Vec<String>,
    /// The minimum value for number
    pub minimum: Option<Number>,
    /// The maximum value for number
    pub maximum: Option<Number>,
    /// The array items type
    pub items_schema: Option<Box<Schema>>,
    /// The object properties, each under its name, in the order in which
    /// the names were first set
    pub properties: Vec<(String, Schema)>,
    /// The required object properties
    pub required: Vec<String>,
    /// Whether an object may have other properties than those listed
    pub additional_properties: Option<bool>,
}

/// A member that is written only where it has a value.
pub open spec fn optional_member(key: Seq<char>, value: Option<JsonView>) -> Seq<
    (Seq<char>, JsonView),
> {
    match value {
        Some(value) => seq![(key, value)],
        None => Seq::empty(),
    }
}

/// Texts as an array of strings.
pub open spec fn text_array(texts: Seq<String>) -> JsonView {
    JsonView::Array(Seq::new(texts.len(), |i: int| JsonView::Text(texts[i]@)))
}

/// A list that is written only where it is not empty.
pub open spec fn optional_texts(texts: Seq<String>) -> Option<JsonView> {
    if texts.len() > 0 {
        Some(text_array(texts))
    } else {
        None
    }
}

/// A text that is written only where it is set.
pub open spec fn optional_string(text: Option<String>) -> Option<JsonView> {
    match text {
        Some(text) => Some(JsonView::Text(text@)),
        None => None,
    }
}

/// A flag that is written only where it is set.
pub open spec fn optional_flag(flag: Option<bool>) -> Option<JsonView> {
    match flag {
        Some(b) => Some(JsonView::Bool(b)),
        None => None,
    }
}

/// A number that is written only where it is set.
pub open spec fn optional_number(number: Option<Number>) -> Option<JsonView> {
    match number {
        Some(n) => Some(JsonView::Number(n)),
        None => None,
    }
}

/// The members of the document of a schema, given the documents of its
/// items and of its properties. A member is left out where the schema does
/// not set it: a missing description, an empty list, an unset bound.
pub open spec fn schema_members(
    schema: Schema,
    items: Option<JsonView>,
    properties: Option<JsonView>,
) -> Seq<(Seq<char>, JsonView)> {
    seq![("type"@, JsonView::Text(schema.kind.name()))] + optional_member(
        "description"@,
        optional_string(schema.description),
    ) + optional_member("enum"@, optional_texts(schema.variants@)) + optional_member(
        "minimum"@,
        optional_number(schema.minimum),
    ) + optional_member("maximum"@, optional_number(schema.maximum)) + optional_member(
        "items"@,
        items,
    ) + optional_member("properties"@, properties) + optional_member(
        "required"@,
        optional_texts(schema.required@),
    ) + optional_member("additionalProperties"@, optional_flag(schema.additional_properties))
}

/// The documents of the properties of a schema, each under its name.
pub open spec fn property_docs(schema: Schema) -> Seq<(Seq<char>, JsonView)>
    decreases schema, 0nat,
{
    Seq::new(
        schema.properties@.len(),
        |i: int|
            if 0 <= i < schema.properties@.len() {
                (schema.properties@[i].0@, schema_doc(schema.properties@[i].1))
            } else {
                (Seq::empty(), JsonView::Null)
            },
    )
}

/// The document of a schema.
pub open spec fn schema_doc(schema: Schema) -> JsonView
    decreases schema, 1nat,
{
    JsonView::Object(
        schema_members(
            schema,
            if schema.items_schema is Some {
                Some(schema_doc(*schema.items_schema->0))
            } else {
                None
            },
            if schema.properties@.len() > 0 {
                Some(JsonView::Object(property_docs(schema)))
            } else {
                None
            },
        ),
    )
}

/// Adds a member to the members of an object where it has a value.
pub fn put_optional(members: &mut Vec<(String, Json)>, key: &str, value: Option<Json>)
    ensures
        member_views(final(members)@) == member_views(old(members)@) + optional_member(
            key@,
            match value {
                Some(v) => Some(v@),
                None => None,
            },
        ),
{
    match value {
        Some(v) => {
            Json::put(members, key, v);
            assert(member_views(members@) =~= member_views(old(members)@) + seq![(key@, v@)]);
        },
        None => {
            assert(member_views(members@) =~= member_views(old(members)@) + Seq::empty());
        },
    }
}

/// Texts as an array document.
pub fn texts_json(texts: &Vec<String>) -> (r: Json)
    ensures
        r@ == text_array(texts@),
{
    let mut items: Vec<Json> = Vec::new();
    let mut i: usize = 0;
    while i < texts.len()
        invariant
            i <= texts@.len(),
            views(items@).len() == i,
            forall|j: int| 0 <= j < i ==> views(items@)[j] == JsonView::Text(texts@[j]@),
        decreases texts@.len() - i,
    {
        let ghost before = views(items@);
        Json::add(&mut items, Json::text(texts[i].as_str()));
        assert(forall|j: int| 0 <= j < i ==> views(items@)[j] == before[j]);
        i += 1;
    }
    let r = Json::array(items);
    assert(r@->Array_0 =~= text_array(texts@)->Array_0);
    r
}

impl Schema {
    /// The document of the schema.
    pub fn to_json(&self) -> (r: Json)
        ensures
            r@ == schema_doc(*self),
        decreases self,
    {
        let items = match &self.items_schema {
            Some(items) => Some(items.to_json()),
            None => None,
        };
        let properties = if self.properties.len() > 0 {
            let mut props: Vec<(String, Json)> = Vec::new();
            let mut i: usize = 0;
            while i < self.properties.len()
                invariant
                    i <= self.properties@.len(),
                    member_views(props@).len() == i,
                    forall|j: int|
                        0 <= j < i ==> member_views(props@)[j] == (
                            self.properties@[j].0@,
                            schema_doc(self.properties@[j].1),
                        ),
                decreases self.properties@.len() - i,
            {
                let ghost before = member_views(props@);
                let doc = self.properties[i].1.to_json();
                Json::put(&mut props, self.properties[i].0.as_str(), doc);
                assert(forall|j: int| 0 <= j < i ==> member_views(props@)[j] == before[j]);
                i += 1;
            }
            assert(member_views(props@) =~= property_docs(*self));
            Some(Json::object(props))
        } else {
            None
        };
        let description = match &self.description {
            Some(text) => Some(Json::text(text.as_str())),
            None => None,
        };
        let variants = if self.variants.len() > 0 {
            Some(texts_json(&self.variants))
        } else {
            None
        };
        let minimum = match self.minimum {
            Some(n) => Some(Json::Number(n)),
            None => None,
        };
        let maximum = match self.maximum {
            Some(n) => Some(Json::Number(n)),
            None => None,
        };
        let required = if self.required.len() > 0 {
            Some(texts_json(&self.required))
        } else {
            None
        };
        let additional = match self.additional_properties {
            Some(b) => Some(Json::Bool(b)),
            None => None,
        };
        let mut members: Vec<(String, Json)> = Vec::new();
        assert(member_views(members@) =~= Seq::empty());
        Json::put(&mut members, "type", Json::text(self.kind.as_str()));
        assert(member_views(members@) =~= seq![("type"@, JsonView::Text(self.kind.name()))]);
        put_optional(&mut members, "description", description);
        put_optional(&mut members, "enum", variants);
        put_optional(&mut members, "minimum", minimum);
        put_optional(&mut members, "maximum", maximum);
        put_optional(&mut members, "items", items);
        put_optional(&mut members, "properties", properties);
        put_optional(&mut members, "required", required);
        put_optional(&mut members, "additionalProperties", additional);
        Json::object(members)
    }
}

/// The names and schemas of properties.
pub open spec fn property_views(properties: Seq<(String, Schema)>) -> Seq<(Seq<char>, Schema)> {
    Seq::new(properties.len(), |i: int| (properties[i].0@, properties[i].1))
}

/// The values of texts.
pub open spec fn text_views(texts: Seq<String>) -> Seq<Seq<char>> {
    Seq::new(texts.len(), |i: int| texts[i]@)
}

/// The place of the first property of this name, or the number of
/// properties where none has it.
pub open spec fn name_slot(properties: Seq<(Seq<char>, Schema)>, name: Seq<char>) -> int
    decreases properties.len(),
{
    if properties.len() == 0 || properties[0].0 == name {
        0
    } else {
        1 + name_slot(properties.drop_first(), name)
    }
}

/// `name_slot` is the least place at which the name stands.
pub proof fn lemma_name_slot(properties: Seq<(Seq<char>, Schema)>, name: Seq<char>)
    ensures
        0 <= name_slot(properties, name) <= properties.len(),
        forall|j: int| 0 <= j < name_slot(properties, name) ==> properties[j].0 != name,
        name_slot(properties, name) < properties.len() ==> properties[name_slot(
            properties,
            name,
        )].0 == name,
    decreases properties.len(),
{
    if properties.len() == 0 || properties[0].0 == name {
    } else {
        let rest = properties.drop_first();
        lemma_name_slot(rest, name);
        assert forall|j: int| 0 <= j < name_slot(properties, name) implies properties[j].0
            != name by {
            if j > 0 {
                assert(properties[j] == rest[j - 1]);
            }
        }
    }
}

/// The least place at which the name stands is `name_slot`.
pub proof fn lemma_name_slot_is(properties: Seq<(Seq<char>, Schema)>, name: Seq<char>, at: int)
    requires
        0 <= at <= properties.len(),
        forall|j: int| 0 <= j < at ==> properties[j].0 != name,
        at < properties.len() ==> properties[at].0 == name,
    ensures
        name_slot(properties, name) == at,
{
    lemma_name_slot(properties, name);
    let s = name_slot(properties, name);
    if s < at {
        assert(properties[s].0 != name);
    } else if at < s {
        assert(properties[at].0 != name);
    }
}

/// The properties after one was set: the schema replaces that of the
/// property of the same name, or the property is added at the end.
pub open spec fn put_property(
    properties: Seq<(Seq<char>, Schema)>,
    name: Seq<char>,
    schema: Schema,
) -> Seq<(Seq<char>, Schema)> {
    let at = name_slot(properties, name);
    if at < properties.len() {
        properties.update(at, (name, schema))
    } else {
        properties.push((name, schema))
    }
}

/// The properties after several were set, in order.
pub open spec fn put_properties(
    properties: Seq<(Seq<char>, Schema)>,
    more: Seq<(Seq<char>, Schema)>,
) -> Seq<(Seq<char>, Schema)>
    decreases more.len(),
{
    if more.len() == 0 {
        properties
    } else {
        put_property(put_properties(properties, more.drop_last()), more.last().0, more.last().1)
    }
}

/// No two properties have the same name.
pub open spec fn distinct_names(properties: Seq<(Seq<char>, Schema)>) -> bool {
    forall|i: int, j: int|
        0 <= i < j < properties.len() ==> (#[trigger] properties[i]).0 != (
        #[trigger] properties[j]).0
}

/// Where no two properties had the same name, none have after one was set.
pub proof fn lemma_put_property_distinct(
    properties: Seq<(Seq<char>, Schema)>,
    name: Seq<char>,
    schema: Schema,
)
    requires
        distinct_names(properties),
    ensures
        distinct_names(put_property(properties, name, schema)),
{
    lemma_name_slot(properties, name);
    let after = put_property(properties, name, schema);
    let at = name_slot(properties, name);
    assert forall|i: int, j: int| 0 <= i < j < after.len() implies (#[trigger] after[i]).0 != (
    #[trigger] after[j]).0 by {
        if at < properties.len() {
            assert(properties[i].0 != properties[j].0);
        } else if j < properties.len() {
            assert(properties[i].0 != properties[j].0);
        }
    }
}

/// The required names after one was asked for: it is added unless it is
/// there already.
pub open spec fn with_required(required: Seq<Seq<char>>, name: Seq<char>) -> Seq<Seq<char>> {
    if required.contains(name) {
        required
    } else {
        required.push(name)
    }
}

/// The description that a text gives: none where the text is empty.
pub open spec fn description_of(descr: Seq<char>) -> Option<Seq<char>> {
    if descr.len() > 0 {
        Some(descr)
    } else {
        None
    }
}

impl Schema {
    /// No two properties of the schema have the same name. It holds of a new
    /// schema, and setting properties keeps it.
    pub open spec fn wf(&self) -> bool {
        distinct_names(property_views(self.properties@))
    }

    /// A schema of a kind that sets nothing but its description.
    pub open spec fn plain(&self, kind: SchemaKind, descr: Seq<char>) -> bool {
        &&& self.kind == kind
        &&& option_view(self.description) == description_of(descr)
        &&& self.variants@.len() == 0
        &&& self.minimum is None
        &&& self.maximum is None
        &&& self.items_schema is None
        &&& self.properties@.len() == 0
        &&& self.required@.len() == 0
    }

    fn blank(kind: SchemaKind, descr: &str) -> (r: Self)
        ensures
            r.plain(kind, descr@),
            r.additional_properties is None,
    {
        Schema {
            kind,
            description: if descr.unicode_len() > 0 {
                Some(String::from_str(descr))
            } else {
                None
            },
            variants: Vec::new(),
            minimum: None,
            maximum: None,
            items_schema: None,
            properties: Vec::new(),
            required: Vec::new(),
            additional_properties: None,
        }
    }

    /// Creates an object schema, which admits no other properties than
    /// those that are set.
    pub fn object(descr: &str) -> (r: Self)
        ensures
            r.plain(SchemaKind::Object, descr@),
            r.additional_properties == Some(false),
    {
        let mut r = Schema::blank(SchemaKind::Object, descr);
        r.additional_properties = Some(false);
        r
    }

    /// Creates an array schema
    pub fn array(descr: &str) -> (r: Self)
        ensures
            r.plain(SchemaKind::Array, descr@),
            r.additional_properties is None,
    {
        Schema::blank(SchemaKind::Array, descr)
    }

    /// Creates a string schema
    pub fn string(descr: &str) -> (r: Self)
        ensures
            r.plain(SchemaKind::String, descr@),
            r.additional_properties is None,
    {
        Schema::blank(SchemaKind::String, descr)
    }

    /// Creates a number schema
    pub fn number(descr: &str) -> (r: Self)
        ensures
            r.plain(SchemaKind::Number, descr@),
            r.additional_properties is None,
    {
        Schema::blank(SchemaKind::Number, descr)
    }

    /// Creates an integer schema
    pub fn integer(descr: &str) -> (r: Self)
        ensures
            r.plain(SchemaKind::Integer, descr@),
            r.additional_properties is None,
    {
        Schema::blank(SchemaKind::Integer, descr)
    }

    /// Creates a boolean schema
    pub fn boolean(descr: &str) -> (r: Self)
        ensures
            r.plain(SchemaKind::Boolean, descr@),
            r.additional_properties is None,
    {
        Schema::blank(SchemaKind::Boolean, descr)
    }

    /// Creates a null schema
    pub fn null(descr: &str) -> (r: Self)
        ensures
            r.plain(SchemaKind::Null, descr@),
            r.additional_properties is None,
    {
        Schema::blank(SchemaKind::Null, descr)
    }

    /// Sets the description
    pub fn description(self, descr: &str) -> (r: Self)
        ensures
            r == (Schema { description: r.description, ..self }),
            option_view(r.description) == Some(descr@),
    {
        let mut r = self;
        r.description = Some(String::from_str(descr));
        r
    }

    /// Sets the description
    pub fn set_description(&mut self, descr: &str)
        ensures
            *final(self) == (Schema { description: final(self).description, ..*old(self) }),
            option_view(final(self).description) == Some(descr@),
    {
        self.description = Some(String::from_str(descr));
    }

    /// Sets string value variants
    pub fn variants(self, vars: Vec<String>) -> (r: Self)
        ensures
            r == (Schema { variants: vars, ..self }),
    {
        let mut r = self;
        r.variants = vars;
        r
    }

    /// Sets string value variants
    pub fn set_variants(&mut self, vars: Vec<String>)
        ensures
            *final(self) == (Schema { variants: vars, ..*old(self) }),
    {
        self.variants = vars;
    }

    /// Sets the minimum number value
    pub fn minimum(self, min: Number) -> (r: Self)
        ensures
            r == (Schema { minimum: Some(min), ..self }),
    {
        let mut r = self;
        r.minimum = Some(min);
        r
    }

    /// Sets the minimum number value
    pub fn set_minimum(&mut self, min: Number)
        ensures
            *final(self) == (Schema { minimum: Some(min), ..*old(self) }),
    {
        self.minimum = Some(min);
    }

    /// Sets the maximum number value
    pub fn maximum(self, max: Number) -> (r: Self)
        ensures
            r == (Schema { maximum: Some(max), ..self }),
    {
        let mut r = self;
        r.maximum = Some(max);
        r
    }

    /// Sets the maximum number value
    pub fn set_maximum(&mut self, max: Number)
        ensures
            *final(self) == (Schema { maximum: Some(max), ..*old(self) }),
    {
        self.maximum = Some(max);
    }

    /// Sets the array items schema
    pub fn items_schema(self, schema: Schema) -> (r: Self)
        ensures
            r == (Schema { items_schema: Some(Box::new(schema)), ..self }),
    {
        let mut r = self;
        r.items_schema = Some(Box::new(schema));
        r
    }

    /// Sets the array items schema
    pub fn set_items_schema(&mut self, schema: Schema)
        ensures
            *final(self) == (Schema { items_schema: Some(Box::new(schema)), ..*old(self) }),
    {
        self.items_schema = Some(Box::new(schema));
    }

    /// Sets one property in a list of properties.
    fn put(properties: &mut Vec<(String, Schema)>, name: String, schema: Schema)
        ensures
            property_views(final(properties)@) == put_property(
                property_views(old(properties)@),
                name@,
                schema,
            ),
    {
        let ghost before = property_views(properties@);
        let mut at: usize = 0;
        while at < properties.len() && !properties[at].0.as_str().eq(name.as_str())
            invariant
                at <= properties@.len(),
                before == property_views(properties@),
                *properties == *old(properties),
                forall|j: int| 0 <= j < at ==> before[j].0 != name@,
            decreases properties@.len() - at,
        {
            at += 1;
        }
        proof {
            lemma_name_slot_is(before, name@, at as int);
        }
        if at < properties.len() {
            let _ = properties.remove(at);
            properties.insert(at, (name, schema));
            assert(property_views(properties@) =~= before.update(at as int, (name@, schema)));
        } else {
            properties.push((name, schema));
            assert(property_views(properties@) =~= before.push((name@, schema)));
        }
    }

    /// Adds the object properties schema, each as `set_property` adds one
    /// that is not required.
    pub fn properties(self, props: Vec<(String, Schema)>) -> (r: Self)
        ensures
            r == (Schema { properties: r.properties, ..self }),
            property_views(r.properties@) == put_properties(
                property_views(self.properties@),
                property_views(props@),
            ),
            self.wf() ==> r.wf(),
    {
        let mut r = self;
        r.set_properties(props);
        r
    }

    /// Adds the object properties schema, each as `set_property` adds one
    /// that is not required.
    pub fn set_properties(&mut self, props: Vec<(String, Schema)>)
        ensures
            *final(self) == (Schema { properties: final(self).properties, ..*old(self) }),
            property_views(final(self).properties@) == put_properties(
                property_views(old(self).properties@),
                property_views(props@),
            ),
            old(self).wf() ==> final(self).wf(),
    {
        let ghost start = property_views(self.properties@);
        let ghost more = property_views(props@);
        assert(more.take(0) =~= Seq::empty());
        for pair in it: props
            invariant
                it.seq() == props@,
                more == property_views(props@),
                *self == (Schema { properties: self.properties, ..*old(self) }),
                property_views(self.properties@) == put_properties(
                    start,
                    more.take(it.index() as int),
                ),
                old(self).wf() ==> self.wf(),
        {
            proof {
                assert(more.take(it.index() + 1).drop_last() =~= more.take(it.index() as int));
                assert(more.take(it.index() + 1).last() == (pair.0@, pair.1));
                if self.wf() {
                    lemma_put_property_distinct(property_views(self.properties@), pair.0@, pair.1);
                }
            }
            let (name, schema) = pair;
            Schema::put(&mut self.properties, name, schema);
        }
        assert(more.take(more.len() as int) =~= more);
    }

    /// Whether a name is among texts.
    fn has_text(texts: &Vec<String>, name: &str) -> (r: bool)
        ensures
            r == text_views(texts@).contains(name@),
    {
        let mut i: usize = 0;
        while i < texts.len()
            invariant
                i <= texts@.len(),
                forall|j: int| 0 <= j < i ==> text_views(texts@)[j] != name@,
            decreases texts@.len() - i,
        {
            if texts[i].as_str().eq(name) {
                assert(text_views(texts@)[i as int] == name@);
                return true;
            }
            i += 1;
        }
        false
    }

    /// Adds the object property schema: the schema replaces that of the
    /// property of the same name, or the property is added. A required
    /// property is listed as required unless it is already.
    pub fn property(self, name: &str, schema: Schema, required: bool) -> (r: Self)
        ensures
            r == (Schema { properties: r.properties, required: r.required, ..self }),
            property_views(r.properties@) == put_property(
                property_views(self.properties@),
                name@,
                schema,
            ),
            text_views(r.required@) == if required {
                with_required(text_views(self.required@), name@)
            } else {
                text_views(self.required@)
            },
            !required ==> r.required == self.required,
            self.wf() ==> r.wf(),
    {
        let mut r = self;
        r.set_property(name, schema, required);
        r
    }

    /// Adds the object property schema: the schema replaces that of the
    /// property of the same name, or the property is added. A required
    /// property is listed as required unless it is already.
    pub fn set_property(&mut self, name: &str, schema: Schema, required: bool)
        ensures
            *final(self) == (Schema {
                properties: final(self).properties,
                required: final(self).required,
                ..*old(self)
            }),
            property_views(final(self).properties@) == put_property(
                property_views(old(self).properties@),
                name@,
                schema,
            ),
            text_views(final(self).required@) == if required {
                with_required(text_views(old(self).required@), name@)
            } else {
                text_views(old(self).required@)
            },
            !required ==> final(self).required == old(self).required,
            old(self).wf() ==> final(self).wf(),
    {
        if required && !Schema::has_text(&self.required, name) {
            self.required.push(String::from_str(name));
            assert(text_views(self.required@) =~= text_views(old(self).required@).push(name@));
        }
        proof {
            if old(self).wf() {
                lemma_put_property_distinct(property_views(old(self).properties@), name@, schema);
            }
        }
        Schema::put(&mut self.properties, String::from_str(name), schema);
    }

    /// Adds the required property schema
    pub fn required_property(self, name: &str, schema: Schema) -> (r: Self)
        ensures
            r == (Schema { properties: r.properties, required: r.required, ..self }),
            property_views(r.properties@) == put_property(
                property_views(self.properties@),
                name@,
                schema,
            ),
            text_views(r.required@) == with_required(text_views(self.required@), name@),
            self.wf() ==> r.wf(),
    {
        self.property(name, schema, true)
    }

    /// Adds the required property schema
    pub fn set_required_property(&mut self, name: &str, schema: Schema)
        ensures
            *final(self) == (Schema {
                properties: final(self).properties,
                required: final(self).required,
                ..*old(self)
            }),
            property_views(final(self).properties@) == put_property(
                property_views(old(self).properties@),
                name@,
                schema,
            ),
            text_views(final(self).required@) == with_required(
                text_views(old(self).required@),
                name@,
            ),
            old(self).wf() ==> final(self).wf(),
    {
        self.set_property(name, schema, true);
    }

    /// Adds the optional property schema
    pub fn optional_property(self, name: &str, schema: Schema) -> (r: Self)
        ensures
            r == (Schema { properties: r.properties, ..self }),
            property_views(r.properties@) == put_property(
                property_views(self.properties@),
                name@,
                schema,
            ),
            self.wf() ==> r.wf(),
    {
        self.property(name, schema, false)
    }

    /// Adds the optional property schema
    pub fn set_optional_property(&mut self, name: &str, schema: Schema)
        ensures
            *final(self) == (Schema { properties: final(self).properties, ..*old(self) }),
            property_views(final(self).properties@) == put_property(
                property_views(old(self).properties@),
                name@,
                schema,
            ),
            old(self).wf() ==> final(self).wf(),
    {
        self.set_property(name, schema, false);
    }

    /// Adds the required object properties
    pub fn requires_all(self, reqs: Vec<String>) -> (r: Self)
        ensures
            r == (Schema { required: r.required, ..self }),
            r.required@ == self.required@ + reqs@,
    {
        let mut r = self;
        let mut more = reqs;
        r.required.append(&mut more);
        r
    }

    /// Adds the required object properties
    pub fn set_requires(&mut self, reqs: Vec<String>)
        ensures
            *final(self) == (Schema { required: final(self).required, ..*old(self) }),
            final(self).required@ == old(self).required@ + reqs@,
    {
        let mut more = reqs;
        self.required.append(&mut more);
    }

    /// Adds the required object property
    pub fn require(self, req: &str) -> (r: Self)
        ensures
            r == (Schema { required: r.required, ..self }),
            text_views(r.required@) == text_views(self.required@).push(req@),
    {
        let mut r = self;
        r.set_require(req);
        r
    }

    /// Adds the required object property
    pub fn set_require(&mut self, req: &str)
        ensures
            *final(self) == (Schema { required: final(self).required, ..*old(self) }),
            text_views(final(self).required@) == text_views(old(self).required@).push(req@),
    {
        self.required.push(String::from_str(req));
        assert(text_views(self.required@) =~= text_views(old(self).required@).push(req@));
    }
}

/// A copy of texts.
fn copy_texts(texts: &Vec<String>) -> (r: Vec<String>)
    ensures
        text_views(r@) == text_views(texts@),
{
    let mut out: Vec<String> = Vec::new();
    let mut i: usize = 0;
    while i < texts.len()
        invariant
            i <= texts@.len(),
            out@.len() == i,
            forall|j: int| 0 <= j < i ==> out@[j]@ == texts@[j]@,
        decreases texts@.len() - i,
    {
        out.push(texts[i].clone());
        i += 1;
    }
    assert(text_views(out@) =~= text_views(texts@));
    out
}

/// Texts of the same values make the same array.
pub proof fn lemma_text_array_by_views(a: Seq<String>, b: Seq<String>)
    requires
        text_views(a) == text_views(b),
    ensures
        optional_texts(a) == optional_texts(b),
{
    assert(a.len() == text_views(a).len());
    assert(b.len() == text_views(b).len());
    assert forall|i: int| 0 <= i < a.len() implies a[i]@ == b[i]@ by {
        assert(text_views(a)[i] == text_views(b)[i]);
    }
    assert(text_array(a)->Array_0 =~= text_array(b)->Array_0);
}

impl Clone for Schema {
    /// A copy of the schema: it stands for the same document.
    fn clone(&self) -> (r: Self)
        ensures
            schema_doc(r) == schema_doc(*self),
            r.kind == self.kind,
        decreases self,
    {
        let items_schema = match &self.items_schema {
            Some(items) => Some(Box::new((**items).clone())),
            None => None,
        };
        let mut properties: Vec<(String, Schema)> = Vec::new();
        let mut i: usize = 0;
        while i < self.properties.len()
            invariant
                i <= self.properties@.len(),
                properties@.len() == i,
                forall|j: int|
                    0 <= j < i ==> properties@[j].0@ == self.properties@[j].0@ && schema_doc(
                        properties@[j].1,
                    ) == schema_doc(self.properties@[j].1),
            decreases self.properties@.len() - i,
        {
            let copy = self.properties[i].1.clone();
            properties.push((self.properties[i].0.clone(), copy));
            i += 1;
        }
        let r = Schema {
            kind: self.kind,
            description: match &self.description {
                Some(text) => Some(text.clone()),
                None => None,
            },
            variants: copy_texts(&self.variants),
            minimum: self.minimum,
            maximum: self.maximum,
            items_schema,
            properties,
            required: copy_texts(&self.required),
            additional_properties: self.additional_properties,
        };
        proof {
            lemma_text_array_by_views(r.variants@, self.variants@);
            lemma_text_array_by_views(r.required@, self.required@);
            assert(property_docs(r) =~= property_docs(*self));
            assert(optional_string(r.description) == optional_string(self.description));
        }
        r
    }
}

impl Default for Schema {
    /// An object schema that sets nothing.
    fn default() -> (r: Self)
        ensures
            r.plain(SchemaKind::Object, Seq::empty()),
            r.additional_properties is None,
    {
        let r = Schema::blank(SchemaKind::Object, "");
        proof {
            reveal_strlit("");
            assert(""@ =~= Seq::<char>::empty());
        }
        r
    }
}

} // verus!
