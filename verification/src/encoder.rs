//! Encoding records against a versioned binary record schema: the
//! schema model (named fields, each nullable or not), the
//! reconciliation of a record against a schema's field list, and the
//! encoding of the reconciled record to the schema's wire format
//! through the Avro library.
//!
//! Reconciliation walks the schema's fields in declared order: a field
//! the record carries is copied, a missing nullable field becomes a
//! null, and a missing non-nullable field fails validation with that
//! field's name. Fields of the record that the schema does not declare
//! are dropped. The wire format requires exactly this order and
//! nullability discipline.

use apache_avro::types::Value as AvroValue;

use vstd::prelude::*;

use crate::errors::{EncodeError, SchemaError};
use crate::records::{fields_view, FieldValue, FieldValueView};

verus! {

/// One field of a record schema: its name, and whether its type is a
/// union that includes the null variant.
#[derive(Debug, PartialEq, Eq)]
pub struct SchemaField {
    pub name: String,
    pub nullable: bool,
}

impl View for SchemaField {
    type V = (Seq<char>, bool);

    open spec fn view(&self) -> (Seq<char>, bool) {
        (self.name@, self.nullable)
    }
}

/// The model of a record schema: its fields in declared order.
#[derive(Debug, PartialEq, Eq)]
pub struct RecordSchema {
    pub fields: Vec<SchemaField>,
}

impl View for RecordSchema {
    type V = Seq<(Seq<char>, bool)>;

    open spec fn view(&self) -> Seq<(Seq<char>, bool)> {
        Seq::new(self.fields@.len(), |i: int| self.fields@[i]@)
    }
}

/// One node of a structured-text tree: what the schema guard below
/// reads off a definition text. A number is reduced to the one thing
/// the guard asks of it — whether it is an integer above the signed
/// 64-bit range.
pub enum JsonNode {
    Null,
    Bool(bool),
    /// true exactly where the number is an integer above the signed
    /// 64-bit range
    Number(bool),
    Text(String),
    List(Vec<JsonNode>),
    Object(Vec<(String, JsonNode)>),
}

/// The tree a schema definition text parses to as structured text, or
/// nothing where it is not structured text.
pub uninterp spec fn json_tree_of(text: Seq<char>) -> Option<JsonNode>;

/// A character that may open a name segment.
pub open spec fn spec_name_start(c: char) -> bool {
    ('a' <= c && c <= 'z') || ('A' <= c && c <= 'Z') || c == '_'
}

/// A character that may continue a name segment.
pub open spec fn spec_name_char(c: char) -> bool {
    spec_name_start(c) || ('0' <= c && c <= '9')
}

/// The Avro name grammar, slightly narrowed: dot-separated segments,
/// each opening with a letter or underscore and continuing with
/// letters, digits, or underscores. (The grammar also admits a single
/// leading dot, an explicitly empty namespace; such names are turned
/// away here, which only rejects more texts, never fewer.)
pub open spec fn spec_avro_name_ok(s: Seq<char>) -> bool {
    &&& s.len() > 0
    &&& spec_name_start(s[0])
    &&& forall|i: int| 0 <= i < s.len() ==> (spec_name_char(#[trigger] s[i]) || s[i] == '.')
    &&& forall|i: int|
        0 <= i < s.len() && #[trigger] s[i] == '.' ==> (i + 1 < s.len() && spec_name_start(
            s[i + 1],
        ))
}

/// Whether a name obeys the Avro name grammar.
pub fn avro_name_ok(s: &str) -> (r: bool)
    ensures
        r == spec_avro_name_ok(s@),
{
    let n = s.unicode_len();
    if n == 0 {
        return false;
    }
    let mut i: usize = 0;
    while i < n
        invariant
            i <= n,
            n >= 1,
            n == s@.len(),
            i >= 1 ==> spec_name_start(s@[0]),
            forall|j: int| 0 <= j < i ==> (spec_name_char(#[trigger] s@[j]) || s@[j] == '.'),
            forall|j: int|
                0 <= j < i && #[trigger] s@[j] == '.' ==> (j + 1 < n && spec_name_start(
                    s@[j + 1],
                )),
        decreases n - i,
    {
        let c = s.get_char(i);
        let starts = ('a' <= c && c <= 'z') || ('A' <= c && c <= 'Z') || c == '_';
        if i == 0 && !starts {
            return false;
        }
        if c == '.' {
            if i + 1 >= n {
                return false;
            }
            let nx = s.get_char(i + 1);
            if !(('a' <= nx && nx <= 'z') || ('A' <= nx && nx <= 'Z') || nx == '_') {
                return false;
            }
        } else if !(starts || ('0' <= c && c <= '9')) {
            return false;
        }
        i += 1;
    }
    true
}

/// Whether one object entry marks its object as a named type (a
/// record, enum, or fixed declaration), whose aliases the Avro library
/// reads as names.
pub open spec fn spec_named_type_marker(e: (String, JsonNode)) -> bool {
    e.0@ == "type"@ && (e.1 matches JsonNode::Text(t) && (t@ == "record"@ || t@ == "enum"@
        || t@ == "fixed"@))
}

/// Whether an object declares a named type.
pub open spec fn spec_is_named_type(entries: Seq<(String, JsonNode)>) -> bool {
    exists|j: int| 0 <= j < entries.len() && spec_named_type_marker(#[trigger] entries[j])
}

/// Every text element of an alias list, from position `i` on, obeys
/// the name grammar (elements that are not text the library skips).
pub open spec fn spec_aliases_from(al: Vec<JsonNode>, i: int) -> bool
    decreases al@.len() - i,
{
    if i < 0 || i >= al@.len() {
        true
    } else {
        (al[i] matches JsonNode::Text(s) ==> spec_avro_name_ok(s@)) && spec_aliases_from(al, i + 1)
    }
}

/// An alias entry that is a list may name only grammatical names in
/// its text elements.
pub open spec fn spec_alias_list_ok(v: JsonNode) -> bool {
    v matches JsonNode::List(al) ==> spec_aliases_from(al, 0)
}

/// The guard one object entry must pass; `is_named` says whether the
/// entry's object declares a named type. A name entry must be
/// grammatical where it is text; type positions are guarded
/// recursively; a size, precision, or scale must not be an integer
/// above the signed 64-bit range; a named type's aliases must be
/// grammatical.
pub open spec fn spec_entry_guard(is_named: bool, k: Seq<char>, v: JsonNode) -> bool
    decreases v, 1int,
{
    &&& (k == "name"@ ==> (v matches JsonNode::Text(s) ==> spec_avro_name_ok(s@)))
    &&& ((k == "type"@ || k == "items"@ || k == "values"@ || k == "fields"@) ==> spec_guard(v))
    &&& ((k == "size"@ || k == "precision"@ || k == "scale"@) ==> v != JsonNode::Number(true))
    &&& ((is_named && k == "aliases"@) ==> spec_alias_list_ok(v))
}

/// The guard every object entry from position `i` on must pass.
pub open spec fn spec_entries_guard(entries: Vec<(String, JsonNode)>, i: int) -> bool
    decreases entries, entries@.len() - i + 2,
{
    if i < 0 || i >= entries@.len() {
        true
    } else {
        spec_entry_guard(spec_is_named_type(entries@), entries[i].0@, entries[i].1)
            && spec_entries_guard(entries, i + 1)
    }
}

/// The guard every list element from position `i` on must pass.
pub open spec fn spec_list_guard(items: Vec<JsonNode>, i: int) -> bool
    decreases items, items@.len() - i + 2,
{
    if i < 0 || i >= items@.len() {
        true
    } else {
        spec_guard(items[i]) && spec_list_guard(items, i + 1)
    }
}

/// The guard a schema text's tree must pass before the Avro library
/// sees the text: every name in a type position obeys the name
/// grammar, and no size, precision, or scale carries an integer above
/// the signed 64-bit range. On either point the library aborts the
/// process instead of reporting an error — names at parse time, and
/// such an integer when a schema holding one is rendered back into an
/// error message — so offending texts are turned away up front.
pub open spec fn spec_guard(n: JsonNode) -> bool
    decreases n, 0int,
{
    match n {
        JsonNode::Text(s) => spec_avro_name_ok(s@),
        JsonNode::List(items) => spec_list_guard(items, 0),
        JsonNode::Object(entries) => spec_entries_guard(entries, 0),
        _ => true,
    }
}

/// The text-level guard: text that is not structured text passes, for
/// the Avro library to reject itself; a tree must pass `spec_guard`.
pub open spec fn spec_text_guard(text: Seq<char>) -> bool {
    match json_tree_of(text) {
        Some(t) => spec_guard(t),
        None => true,
    }
}

/// What the guarded parse reads off a definition text passing the
/// guard: the record's field list, or nothing where the text does not
/// parse to a record schema.
pub uninterp spec fn guarded_record_schema_of(text: Seq<char>) -> Option<Seq<(Seq<char>, bool)>>;

/// What reading a schema definition text yields: the record's field
/// list, or nothing where the text fails the guard or does not parse
/// to a record schema.
pub open spec fn record_schema_of(text: Seq<char>) -> Option<Seq<(Seq<char>, bool)>> {
    if spec_text_guard(text) {
        guarded_record_schema_of(text)
    } else {
        None
    }
}

/// The bytes the guarded encode produces for one record, given as
/// named values in schema order, against the schema parsed from a
/// definition text passing the guard; nothing where parsing or
/// encoding fails.
pub uninterp spec fn guarded_avro_datum_of(
    schema_text: Seq<char>,
    fields: Seq<(Seq<char>, FieldValueView)>,
) -> Option<Seq<u8>>;

/// The bytes encoding one record, given as named values in schema
/// order, against the schema read from the given definition text;
/// nothing where the text fails the guard or does not read, or the
/// values do not fit the schema.
pub open spec fn avro_datum_of(
    schema_text: Seq<char>,
    fields: Seq<(Seq<char>, FieldValueView)>,
) -> Option<Seq<u8>> {
    if spec_text_guard(schema_text) {
        guarded_avro_datum_of(schema_text, fields)
    } else {
        None
    }
}

#[verifier::external_type_specification]
#[verifier::external_body]
pub struct ExJsonValue(serde_json::Value);

/// Relies on serde_json::Value: carries one node of a parsed text into
/// the library's own tree, one node for one node — object keys and
/// order kept, strings moved, and each number reduced to whether it is
/// an integer above the signed 64-bit range.
#[verifier::external_body]
fn to_json_node(v: &serde_json::Value) -> JsonNode {
    match v {
        serde_json::Value::Null => JsonNode::Null,
        serde_json::Value::Bool(b) => JsonNode::Bool(*b),
        serde_json::Value::Number(n) => JsonNode::Number(
            n.as_i64().is_none() && n.as_u64().is_some(),
        ),
        serde_json::Value::String(s) => JsonNode::Text(s.clone()),
        serde_json::Value::Array(a) => JsonNode::List(a.iter().map(to_json_node).collect()),
        serde_json::Value::Object(m) => JsonNode::Object(
            m.iter().map(|(k, x)| (k.clone(), to_json_node(x))).collect(),
        ),
    }
}

/// Relies on serde_json::from_str: reads a schema definition text into
/// the library's own tree, so the guard can walk it in verified code;
/// nothing where the text is not structured text. The result depends
/// on the text alone.
#[verifier::external_body]
fn json_tree(text: &str) -> (r: Option<JsonNode>)
    ensures
        r == json_tree_of(text@),
{
    match serde_json::from_str::<serde_json::Value>(text) {
        Ok(v) => Some(to_json_node(&v)),
        Err(_) => None,
    }
}

proof fn lemma_aliases_from(al: Vec<JsonNode>, i: int)
    requires
        0 <= i <= al@.len(),
        forall|j: int| 0 <= j < i ==> ((#[trigger] al[j]) matches JsonNode::Text(s)
            ==> spec_avro_name_ok(s@)),
    ensures
        spec_aliases_from(al, 0) == spec_aliases_from(al, i),
    decreases i,
{
    if i > 0 {
        lemma_aliases_from(al, i - 1);
    }
}

proof fn lemma_entries_guard_from(entries: Vec<(String, JsonNode)>, i: int)
    requires
        0 <= i <= entries@.len(),
        forall|j: int|
            0 <= j < i ==> spec_entry_guard(
                spec_is_named_type(entries@),
                (#[trigger] entries[j]).0@,
                entries[j].1,
            ),
    ensures
        spec_entries_guard(entries, 0) == spec_entries_guard(entries, i),
    decreases i,
{
    if i > 0 {
        lemma_entries_guard_from(entries, i - 1);
    }
}

proof fn lemma_list_guard_from(items: Vec<JsonNode>, i: int)
    requires
        0 <= i <= items@.len(),
        forall|j: int| 0 <= j < i ==> spec_guard(#[trigger] items[j]),
    ensures
        spec_list_guard(items, 0) == spec_list_guard(items, i),
    decreases i,
{
    if i > 0 {
        lemma_list_guard_from(items, i - 1);
    }
}

/// Whether an object's entries declare a named type.
fn is_named_type(entries: &Vec<(String, JsonNode)>) -> (r: bool)
    ensures
        r == spec_is_named_type(entries@),
{
    let type_key = String::from_str("type");
    let record_text = String::from_str("record");
    let enum_text = String::from_str("enum");
    let fixed_text = String::from_str("fixed");
    let n = entries.len();
    let mut i: usize = 0;
    while i < n
        invariant
            i <= n,
            n == entries@.len(),
            type_key@ == "type"@,
            record_text@ == "record"@,
            enum_text@ == "enum"@,
            fixed_text@ == "fixed"@,
            forall|j: int| 0 <= j < i ==> !spec_named_type_marker(#[trigger] entries@[j]),
        decreases n - i,
    {
        let entry = &entries[i];
        if entry.0 == type_key {
            match &entry.1 {
                JsonNode::Text(t) => {
                    if *t == record_text || *t == enum_text || *t == fixed_text {
                        proof {
                            assert(spec_named_type_marker(entries@[i as int]));
                        }
                        return true;
                    }
                },
                _ => {},
            }
        }
        proof {
            assert(!spec_named_type_marker(entries@[i as int]));
        }
        i += 1;
    }
    false
}

/// Whether every text element of an alias list obeys the grammar.
fn aliases_ok(al: &Vec<JsonNode>) -> (r: bool)
    ensures
        r == spec_aliases_from(*al, 0),
{
    let n = al.len();
    let mut i: usize = 0;
    while i < n
        invariant
            i <= n,
            n == al@.len(),
            forall|j: int|
                0 <= j < i ==> ((#[trigger] al@[j]) matches JsonNode::Text(s)
                    ==> spec_avro_name_ok(s@)),
        decreases n - i,
    {
        match &al[i] {
            JsonNode::Text(s) => {
                if !avro_name_ok(s.as_str()) {
                    proof {
                        lemma_aliases_from(*al, i as int);
                        assert(!spec_aliases_from(*al, i as int));
                    }
                    return false;
                }
            },
            _ => {},
        }
        i += 1;
    }
    proof {
        lemma_aliases_from(*al, n as int);
    }
    true
}

/// Whether an alias entry passes the guard.
fn alias_list_ok(v: &JsonNode) -> (r: bool)
    ensures
        r == spec_alias_list_ok(*v),
{
    match v {
        JsonNode::List(al) => aliases_ok(al),
        _ => true,
    }
}

/// Whether every entry of an object passes the guard.
fn object_guard(entries: &Vec<(String, JsonNode)>) -> (r: bool)
    ensures
        r == spec_entries_guard(*entries, 0),
    decreases *entries, entries@.len() + 3int,
{
    let is_named = is_named_type(entries);
    let name_key = String::from_str("name");
    let type_key = String::from_str("type");
    let items_key = String::from_str("items");
    let values_key = String::from_str("values");
    let fields_key = String::from_str("fields");
    let size_key = String::from_str("size");
    let precision_key = String::from_str("precision");
    let scale_key = String::from_str("scale");
    let aliases_key = String::from_str("aliases");
    let n = entries.len();
    let mut i: usize = 0;
    while i < n
        invariant
            i <= n,
            n == entries@.len(),
            is_named == spec_is_named_type(entries@),
            name_key@ == "name"@,
            type_key@ == "type"@,
            items_key@ == "items"@,
            values_key@ == "values"@,
            fields_key@ == "fields"@,
            size_key@ == "size"@,
            precision_key@ == "precision"@,
            scale_key@ == "scale"@,
            aliases_key@ == "aliases"@,
            forall|j: int|
                0 <= j < i ==> spec_entry_guard(
                    spec_is_named_type(entries@),
                    (#[trigger] entries@[j]).0@,
                    entries@[j].1,
                ),
        decreases n - i,
    {
        let key = &entries[i].0;
        let value = &entries[i].1;
        let name_entry_ok = if *key == name_key {
            match value {
                JsonNode::Text(s) => avro_name_ok(s.as_str()),
                _ => true,
            }
        } else {
            true
        };
        let child_ok = if *key == type_key || *key == items_key || *key == values_key || *key
            == fields_key {
            schema_tree_guard(value)
        } else {
            true
        };
        let size_ok = if *key == size_key || *key == precision_key || *key == scale_key {
            !(matches!(value, JsonNode::Number(true)))
        } else {
            true
        };
        let alias_ok = if is_named && *key == aliases_key {
            alias_list_ok(value)
        } else {
            true
        };
        if !(name_entry_ok && child_ok && size_ok && alias_ok) {
            proof {
                assert(!spec_entry_guard(
                    spec_is_named_type(entries@),
                    entries@[i as int].0@,
                    entries@[i as int].1,
                ));
                lemma_entries_guard_from(*entries, i as int);
            }
            return false;
        }
        proof {
            assert(spec_entry_guard(
                spec_is_named_type(entries@),
                entries@[i as int].0@,
                entries@[i as int].1,
            ));
        }
        i += 1;
    }
    proof {
        lemma_entries_guard_from(*entries, n as int);
    }
    true
}

/// Whether every element of a list passes the guard.
fn list_guard(items: &Vec<JsonNode>) -> (r: bool)
    ensures
        r == spec_list_guard(*items, 0),
    decreases *items, items@.len() + 3int,
{
    let n = items.len();
    let mut i: usize = 0;
    while i < n
        invariant
            i <= n,
            n == items@.len(),
            forall|j: int| 0 <= j < i ==> spec_guard(#[trigger] items@[j]),
        decreases n - i,
    {
        if !schema_tree_guard(&items[i]) {
            proof {
                lemma_list_guard_from(*items, i as int);
            }
            return false;
        }
        i += 1;
    }
    proof {
        lemma_list_guard_from(*items, n as int);
    }
    true
}

/// Whether a schema tree passes the guard.
pub fn schema_tree_guard(n: &JsonNode) -> (r: bool)
    ensures
        r == spec_guard(*n),
    decreases *n, 0int,
{
    match n {
        JsonNode::Text(s) => avro_name_ok(s.as_str()),
        JsonNode::List(items) => list_guard(items),
        JsonNode::Object(entries) => object_guard(entries),
        _ => true,
    }
}

/// Whether a definition text passes the guard: text that is not
/// structured text passes, for the Avro library to reject itself.
fn text_guard_ok(text: &str) -> (r: bool)
    ensures
        r == spec_text_guard(text@),
{
    match json_tree(text) {
        Some(tree) => schema_tree_guard(&tree),
        None => true,
    }
}

/// Relies on apache_avro::Schema::parse_str: parses an Avro schema
/// definition text; the requires keeps away the texts on which the
/// library would abort the process instead of reporting an error. A
/// record schema's field names are read off the parsed form in
/// declared order, and a field counts as nullable when its type is a
/// union among whose variants is the null schema. The result is a
/// function of the text alone under the library's default name
/// validators: the library offers process-global hooks to replace
/// them, which nothing in this program touches.
#[verifier::external_body]
fn parse_record_schema_text(text: &str) -> (r: Result<RecordSchema, String>)
    requires
        spec_text_guard(text@),
    ensures
        r matches Ok(s) ==> guarded_record_schema_of(text@) == Some(s@),
        r is Err ==> guarded_record_schema_of(text@) is None,
{
    match apache_avro::Schema::parse_str(text) {
        Ok(apache_avro::Schema::Record(rs)) => Ok(RecordSchema {
            fields: rs.fields.iter().map(|f| SchemaField {
                name: f.name.clone(),
                nullable: matches!(&f.schema, apache_avro::Schema::Union(u)
                        if u.variants().iter().any(|v| matches!(v, apache_avro::Schema::Null))),
            }).collect(),
        }),
        Ok(_) => Err("schema is not a record".to_string()),
        Err(e) => Err(e.to_string()),
    }
}

#[verifier::external_type_specification]
#[verifier::external_body]
pub struct ExAvroValue(AvroValue);

/// Relies on apache_avro::types::Value: carries a record's named
/// values in the wire library's own form, one for one.
#[verifier::external_body]
fn to_avro_record(fields: &Vec<(String, FieldValue)>) -> (r: apache_avro::types::Value) {
    AvroValue::Record(fields.iter().map(|(n, v)| (n.clone(), match v {
        FieldValue::Null => AvroValue::Null,
        FieldValue::Boolean(b) => AvroValue::Boolean(*b),
        FieldValue::Int(i) => AvroValue::Int(*i),
        FieldValue::Long(l) => AvroValue::Long(*l),
        FieldValue::Text(s) => AvroValue::String(s.clone()),
    })).collect())
}

/// Relies on apache_avro::Schema::parse_str, apache_avro::types::Value::resolve
/// and apache_avro::to_avro_datum: encodes one record, given as named
/// values in schema order, against the schema parsed from
/// `schema_text`; the requires keeps away the texts on which the
/// library would abort the process. Resolving picks each union-typed
/// field's branch and puts its index on the wire beside the value, as
/// the format requires. The result is a function of the text and the
/// values alone, under the library's default name validators as above.
#[verifier::external_body]
fn encode_avro_datum(schema_text: &str, fields: &Vec<(String, FieldValue)>) -> (r: Result<
    Vec<u8>,
    String,
>)
    requires
        spec_text_guard(schema_text@),
    ensures
        r matches Ok(b) ==> guarded_avro_datum_of(schema_text@, fields_view(fields@)) == Some(b@),
        r is Err ==> guarded_avro_datum_of(schema_text@, fields_view(fields@)) is None,
{
    let schema = match apache_avro::Schema::parse_str(schema_text) {
        Ok(s) => s,
        Err(e) => return Err(e.to_string()),
    };
    let resolved = match to_avro_record(fields).resolve(&schema) {
        Ok(v) => v,
        Err(e) => return Err(e.to_string()),
    };
    apache_avro::to_avro_datum(&schema, resolved).map_err(|e| e.to_string())
}

/// A parsed schema: the definition text it came from, and the field
/// model read off it.
#[derive(Debug, PartialEq, Eq)]
pub struct Schema {
    pub definition: String,
    pub record: RecordSchema,
}

impl Schema {
    /// The model is exactly what the definition text parses to.
    pub open spec fn wf(&self) -> bool {
        record_schema_of(self.definition@) == Some(self.record@)
    }

    /// Parses a definition text; succeeds exactly where the Avro
    /// library reads a record schema off a text passing the guard.
    pub fn parse(text: &str) -> (r: Result<Schema, SchemaError>)
        ensures
            r matches Ok(s) ==> s.wf() && s.definition@ == text@ && record_schema_of(text@)
                == Some(s.record@),
            r is Err <==> record_schema_of(text@) is None,
            r matches Err(e) ==> e is Parse,
    {
        if !text_guard_ok(text) {
            return Err(SchemaError::Parse(String::from_str(
                "schema text holds a name or integer size the wire library cannot take",
            )));
        }
        match parse_record_schema_text(text) {
            Ok(record) => Ok(Schema { definition: text.to_owned(), record }),
            Err(m) => Err(SchemaError::Parse(m)),
        }
    }
}

/// The first value stored under `name`, scanning front to back.
pub open spec fn spec_lookup(
    fields: Seq<(Seq<char>, FieldValueView)>,
    name: Seq<char>,
) -> Option<FieldValueView>
    decreases fields.len(),
{
    if fields.len() == 0 {
        None
    } else if fields.first().0 == name {
        Some(fields.first().1)
    } else {
        spec_lookup(fields.drop_first(), name)
    }
}

/// What a schema field receives at reconciliation: the record's value
/// where it has one, a null otherwise.
pub open spec fn spec_reconciled_value(
    fields: Seq<(Seq<char>, FieldValueView)>,
    sf: (Seq<char>, bool),
) -> FieldValueView {
    match spec_lookup(fields, sf.0) {
        Some(v) => v,
        None => FieldValueView::Null,
    }
}

/// The reconciled record: one value per schema field, in schema order.
pub open spec fn spec_reconciled(
    fields: Seq<(Seq<char>, FieldValueView)>,
    schema: Seq<(Seq<char>, bool)>,
) -> Seq<(Seq<char>, FieldValueView)> {
    Seq::new(schema.len(), |i: int| (schema[i].0, spec_reconciled_value(fields, schema[i])))
}

/// The first schema index, at or after `i`, of a non-nullable field
/// the record has no value for.
pub open spec fn spec_first_missing(
    fields: Seq<(Seq<char>, FieldValueView)>,
    schema: Seq<(Seq<char>, bool)>,
    i: int,
) -> Option<int>
    decreases schema.len() - i,
{
    if i < 0 || i >= schema.len() {
        None
    } else if !schema[i].1 && spec_lookup(fields, schema[i].0) is None {
        Some(i)
    } else {
        spec_first_missing(fields, schema, i + 1)
    }
}

proof fn lemma_lookup_at(fields: Seq<(Seq<char>, FieldValueView)>, name: Seq<char>, i: int)
    requires
        0 <= i < fields.len(),
        fields[i].0 == name,
        forall|j: int| 0 <= j < i ==> fields[j].0 != name,
    ensures
        spec_lookup(fields, name) == Some(fields[i].1),
    decreases fields.len(),
{
    if i > 0 {
        lemma_lookup_at(fields.drop_first(), name, i - 1);
    }
}

proof fn lemma_lookup_absent(fields: Seq<(Seq<char>, FieldValueView)>, name: Seq<char>)
    requires
        forall|j: int| 0 <= j < fields.len() ==> fields[j].0 != name,
    ensures
        spec_lookup(fields, name) is None,
    decreases fields.len(),
{
    if fields.len() > 0 {
        lemma_lookup_absent(fields.drop_first(), name);
    }
}

proof fn lemma_first_missing_from(
    fields: Seq<(Seq<char>, FieldValueView)>,
    schema: Seq<(Seq<char>, bool)>,
    i: int,
)
    requires
        0 <= i <= schema.len(),
        forall|j: int|
            0 <= j < i ==> (schema[j].1 || spec_lookup(fields, #[trigger] schema[j].0) is Some),
    ensures
        spec_first_missing(fields, schema, 0) == spec_first_missing(fields, schema, i),
    decreases i,
{
    if i > 0 {
        lemma_first_missing_from(fields, schema, i - 1);
        assert(spec_first_missing(fields, schema, i - 1) == spec_first_missing(
            fields,
            schema,
            i,
        ));
    }
}

/// The first value stored under `name` in the record, if any.
fn lookup_field<'a>(fields: &'a Vec<(String, FieldValue)>, name: &String) -> (r: Option<
    &'a FieldValue,
>)
    ensures
        r matches Some(v) ==> spec_lookup(fields_view(fields@), name@) == Some(v@),
        r is None ==> spec_lookup(fields_view(fields@), name@) is None,
{
    let n = fields.len();
    let mut i: usize = 0;
    while i < n
        invariant
            i <= n,
            n == fields@.len(),
            forall|j: int| 0 <= j < i ==> fields_view(fields@)[j].0 != name@,
        decreases n - i,
    {
        if fields[i].0 == *name {
            proof {
                lemma_lookup_at(fields_view(fields@), name@, i as int);
            }
            return Some(&fields[i].1);
        }
        i += 1;
    }
    proof {
        lemma_lookup_absent(fields_view(fields@), name@);
    }
    None
}

/// The record-against-schema reconciler and encoder.
pub struct AvroParser;

impl AvroParser {
    /// Reconciles a record against a schema's field list: one value
    /// per schema field in declared order, nulls for missing nullable
    /// fields, failure naming the first missing non-nullable field,
    /// and undeclared record fields dropped.
    pub fn validate(&self, fields: &Vec<(String, FieldValue)>, schema: &RecordSchema) -> (r:
        Result<Vec<(String, FieldValue)>, EncodeError>)
        ensures
            r is Ok <==> spec_first_missing(fields_view(fields@), schema@, 0) is None,
            r matches Ok(out) ==> fields_view(out@) == spec_reconciled(
                fields_view(fields@),
                schema@,
            ),
            r matches Err(e) ==> (e matches EncodeError::Validation { missing_field }
                && spec_first_missing(fields_view(fields@), schema@, 0) matches Some(i)
                && missing_field@ == schema@[i].0),
    {
        let n = schema.fields.len();
        let mut out: Vec<(String, FieldValue)> = Vec::new();
        let mut i: usize = 0;
        while i < n
            invariant
                i <= n,
                n == schema@.len(),
                out@.len() == i as int,
                forall|j: int|
                    0 <= j < i ==> (schema@[j].1 || spec_lookup(
                        fields_view(fields@),
                        #[trigger] schema@[j].0,
                    ) is Some),
                forall|j: int|
                    0 <= j < i ==> #[trigger] fields_view(out@)[j] == (
                        schema@[j].0,
                        spec_reconciled_value(fields_view(fields@), schema@[j]),
                    ),
            decreases n - i,
        {
            let sf = &schema.fields[i];
            let ghost pre = out@;
            proof {
                assert(schema@[i as int] == (sf.name@, sf.nullable));
            }
            match lookup_field(fields, &sf.name) {
                Some(v) => {
                    let dup = v.duplicate();
                    proof {
                        assert(spec_reconciled_value(fields_view(fields@), schema@[i as int])
                            == dup@);
                    }
                    out.push((sf.name.clone(), dup));
                    proof {
                        assert(fields_view(out@)[i as int] == (
                            schema@[i as int].0,
                            spec_reconciled_value(fields_view(fields@), schema@[i as int]),
                        ));
                    }
                },
                None => {
                    if sf.nullable {
                        out.push((sf.name.clone(), FieldValue::Null));
                        proof {
                            assert(fields_view(out@)[i as int] == (
                                schema@[i as int].0,
                                spec_reconciled_value(fields_view(fields@), schema@[i as int]),
                            ));
                        }
                    } else {
                        proof {
                            lemma_first_missing_from(fields_view(fields@), schema@, i as int);
                        }
                        return Err(EncodeError::Validation { missing_field: sf.name.clone() });
                    }
                },
            }
            i += 1;
            proof {
                assert forall|j: int| 0 <= j < i implies #[trigger] fields_view(out@)[j] == (
                    schema@[j].0,
                    spec_reconciled_value(fields_view(fields@), schema@[j]),
                ) by {
                    if j < i - 1 {
                        assert(out@[j] == pre[j]);
                        assert(fields_view(pre)[j] == (
                            schema@[j].0,
                            spec_reconciled_value(fields_view(fields@), schema@[j]),
                        ));
                    }
                }
            }
        }
        proof {
            lemma_first_missing_from(fields_view(fields@), schema@, n as int);
            assert(fields_view(out@) =~= spec_reconciled(fields_view(fields@), schema@));
        }
        Ok(out)
    }

    /// Reconciles the record against the schema, then encodes the
    /// reconciled record to the schema's wire format.
    pub fn parse_and_encode(&self, fields: &Vec<(String, FieldValue)>, schema: &Schema) -> (r:
        Result<Vec<u8>, EncodeError>)
        ensures
            r matches Ok(b) ==> (spec_first_missing(fields_view(fields@), schema.record@, 0)
                is None && avro_datum_of(
                schema.definition@,
                spec_reconciled(fields_view(fields@), schema.record@),
            ) == Some(b@)),
            spec_first_missing(fields_view(fields@), schema.record@, 0) matches Some(i) ==> (
            r matches Err(e) && e matches EncodeError::Validation { missing_field }
                && missing_field@ == schema.record@[i].0),
            r matches Err(e) ==> (e is Encode ==> (spec_first_missing(
                fields_view(fields@),
                schema.record@,
                0,
            ) is None && avro_datum_of(
                schema.definition@,
                spec_reconciled(fields_view(fields@), schema.record@),
            ) is None)),
            r is Err ==> (spec_first_missing(fields_view(fields@), schema.record@, 0) is Some
                || avro_datum_of(
                schema.definition@,
                spec_reconciled(fields_view(fields@), schema.record@),
            ) is None),
    {
        let reconciled = self.validate(fields, &schema.record)?;
        if !text_guard_ok(schema.definition.as_str()) {
            return Err(EncodeError::Encode(String::from_str(
                "schema text holds a name or integer size the wire library cannot take",
            )));
        }
        match encode_avro_datum(schema.definition.as_str(), &reconciled) {
            Ok(b) => Ok(b),
            Err(m) => Err(EncodeError::Encode(m)),
        }
    }
}

/// A record that carries every non-nullable field of the schema
/// reconciles successfully, and each nullable field it misses comes
/// out as a null in schema order.
pub proof fn lemma_nullable_missing_becomes_null(
    fields: Seq<(Seq<char>, FieldValueView)>,
    schema: Seq<(Seq<char>, bool)>,
)
    requires
        forall|i: int|
            0 <= i < schema.len() && !schema[i].1 ==> spec_lookup(
                fields,
                #[trigger] schema[i].0,
            ) is Some,
    ensures
        spec_first_missing(fields, schema, 0) is None,
        forall|i: int|
            0 <= i < schema.len() && spec_lookup(fields, #[trigger] schema[i].0) is None
                ==> spec_reconciled(fields, schema)[i].1 == FieldValueView::Null,
{
    lemma_first_missing_from(fields, schema, schema.len() as int);
}

/// A record that misses some non-nullable field of the schema fails
/// validation: the first such field is reported.
pub proof fn lemma_required_missing_fails(
    fields: Seq<(Seq<char>, FieldValueView)>,
    schema: Seq<(Seq<char>, bool)>,
    i: int,
)
    requires
        0 <= i < schema.len(),
        !schema[i].1,
        spec_lookup(fields, schema[i].0) is None,
    ensures
        spec_first_missing(fields, schema, 0) is Some,
        ({
            let m = spec_first_missing(fields, schema, 0)->Some_0;
            &&& 0 <= m <= i
            &&& !schema[m].1
            &&& spec_lookup(fields, schema[m].0) is None
        }),
{
    lemma_first_missing_bounds(fields, schema, 0, i);
}

proof fn lemma_first_missing_bounds(
    fields: Seq<(Seq<char>, FieldValueView)>,
    schema: Seq<(Seq<char>, bool)>,
    lo: int,
    i: int,
)
    requires
        0 <= lo <= i < schema.len(),
        !schema[i].1,
        spec_lookup(fields, schema[i].0) is None,
    ensures
        spec_first_missing(fields, schema, lo) is Some,
        ({
            let m = spec_first_missing(fields, schema, lo)->Some_0;
            &&& lo <= m <= i
            &&& !schema[m].1
            &&& spec_lookup(fields, schema[m].0) is None
        }),
    decreases i - lo,
{
    if lo < i {
        if !(!schema[lo].1 && spec_lookup(fields, schema[lo].0) is None) {
            lemma_first_missing_bounds(fields, schema, lo + 1, i);
        }
    }
}

} // verus!
