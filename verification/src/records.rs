//! The event records the publisher carries: a record is a list of
//! named field values in declaration order, with its serialized size
//! measured on the structured-text rendering.

use vstd::prelude::*;
use vstd::utf8::encode_utf8;

use crate::json::{
    bool_text_bytes, json_string_bytes, null_text_bytes, push_bool_text, push_json_string,
    push_null_text,
};
use crate::numeric::{dec_bytes_signed, push_dec_bytes_signed};

verus! {

/// One field value of a record.
#[derive(Debug, PartialEq, Eq)]
pub enum FieldValue {
    Null,
    Boolean(bool),
    Int(i32),
    Long(i64),
    Text(String),
}

/// The mathematical value of a `FieldValue`.
pub enum FieldValueView {
    Null,
    Boolean(bool),
    Int(i32),
    Long(i64),
    Text(Seq<char>),
}

impl View for FieldValue {
    type V = FieldValueView;

    open spec fn view(&self) -> FieldValueView {
        match self {
            FieldValue::Null => FieldValueView::Null,
            FieldValue::Boolean(b) => FieldValueView::Boolean(*b),
            FieldValue::Int(i) => FieldValueView::Int(*i),
            FieldValue::Long(l) => FieldValueView::Long(*l),
            FieldValue::Text(s) => FieldValueView::Text(s@),
        }
    }
}

impl FieldValue {
    /// An owned copy with the same mathematical value.
    pub fn duplicate(&self) -> (r: FieldValue)
        ensures
            r@ == self@,
    {
        match self {
            FieldValue::Null => FieldValue::Null,
            FieldValue::Boolean(b) => FieldValue::Boolean(*b),
            FieldValue::Int(i) => FieldValue::Int(*i),
            FieldValue::Long(l) => FieldValue::Long(*l),
            FieldValue::Text(s) => FieldValue::Text(s.clone()),
        }
    }
}

/// The rendering of one bare field value.
pub open spec fn json_value_bytes(v: FieldValueView) -> Seq<u8> {
    match v {
        FieldValueView::Null => null_text_bytes(),
        FieldValueView::Boolean(b) => bool_text_bytes(b),
        FieldValueView::Int(i) => dec_bytes_signed(i as int),
        FieldValueView::Long(l) => dec_bytes_signed(l as int),
        FieldValueView::Text(s) => json_string_bytes(encode_utf8(s)),
    }
}

/// The mathematical values of a record's fields, in order.
pub open spec fn fields_view(s: Seq<(String, FieldValue)>) -> Seq<(Seq<char>, FieldValueView)> {
    Seq::new(s.len(), |i: int| (s[i].0@, s[i].1@))
}

/// The rendering of one named field.
pub open spec fn field_bytes(f: (Seq<char>, FieldValueView)) -> Seq<u8> {
    json_string_bytes(encode_utf8(f.0)) + seq![58u8] + json_value_bytes(f.1)
}

/// The comma-separated body of a record.
pub open spec fn record_body_bytes(fields: Seq<(Seq<char>, FieldValueView)>) -> Seq<u8>
    decreases fields.len(),
{
    if fields.len() == 0 {
        Seq::empty()
    } else if fields.len() == 1 {
        field_bytes(fields[0])
    } else {
        record_body_bytes(fields.drop_last()) + seq![44u8] + field_bytes(fields.last())
    }
}

/// The full rendering of a record.
pub open spec fn record_json_bytes(fields: Seq<(Seq<char>, FieldValueView)>) -> Seq<u8> {
    seq![123u8] + record_body_bytes(fields) + seq![125u8]
}

fn push_field(out: &mut Vec<u8>, name: &String, value: &FieldValue)
    ensures
        final(out)@ == old(out)@ + field_bytes((name@, value@)),
{
    push_json_string(out, name.as_str());
    out.push(58);
    match value {
        FieldValue::Null => push_null_text(out),
        FieldValue::Boolean(b) => push_bool_text(out, *b),
        FieldValue::Int(i) => push_dec_bytes_signed(out, *i as i64),
        FieldValue::Long(l) => push_dec_bytes_signed(out, *l),
        FieldValue::Text(s) => push_json_string(out, s.as_str()),
    }
    proof {
        assert(final(out)@ =~= old(out)@ + field_bytes((name@, value@)));
    }
}

/// Renders a record to its structured-text bytes.
pub fn record_json(fields: &Vec<(String, FieldValue)>) -> (r: Vec<u8>)
    ensures
        r@ == record_json_bytes(fields_view(fields@)),
{
    let n = fields.len();
    let mut out: Vec<u8> = Vec::new();
    out.push(123);
    let mut i: usize = 0;
    while i < n
        invariant
            i <= n,
            n == fields@.len(),
            out@ == seq![123u8] + record_body_bytes(fields_view(fields@).take(i as int)),
        decreases n - i,
    {
        if i > 0 {
            out.push(44);
        }
        let pair = &fields[i];
        push_field(&mut out, &pair.0, &pair.1);
        i += 1;
        proof {
            let fv = fields_view(fields@);
            assert(fv.take(i as int).drop_last() =~= fv.take(i as int - 1));
            assert(fv.take(i as int).last() == (fields@[i as int - 1].0@, fields@[i as int - 1].1@));
            assert(out@ =~= seq![123u8] + record_body_bytes(fv.take(i as int)));
        }
    }
    out.push(125);
    proof {
        assert(fields_view(fields@).take(n as int) =~= fields_view(fields@));
        assert(out@ =~= record_json_bytes(fields_view(fields@)));
    }
    out
}

/// The serialized size of a record, in bytes of its rendering.
pub fn record_data_len(fields: &Vec<(String, FieldValue)>) -> (r: usize)
    ensures
        r == record_json_bytes(fields_view(fields@)).len(),
{
    let rendered = record_json(fields);
    rendered.len()
}

/// The test-statistics record shape the application publishes.
#[derive(Debug, PartialEq, Eq)]
pub struct TestStats {
    pub event_type: String,
    pub created_at: String,
    pub app_pkg: Option<String>,
    pub guid: Option<String>,
    pub country: Option<String>,
    pub player_version: Option<String>,
    pub oem: Option<String>,
    pub machine_id: Option<String>,
    pub version_machine_id: Option<String>,
    pub instance: Option<String>,
    pub image_name: Option<String>,
    pub arg1: Option<String>,
    pub arg2: Option<String>,
    pub arg3: Option<String>,
    pub arg4: Option<String>,
    pub source: Option<String>,
    pub count: Option<i32>,
    pub ad_refresh_rate: Option<i32>,
}

/// An optional text field: absent means null.
pub open spec fn opt_text_view(o: Option<String>) -> FieldValueView {
    match o {
        Some(s) => FieldValueView::Text(s@),
        None => FieldValueView::Null,
    }
}

/// An optional integer field: absent means null.
pub open spec fn opt_int_view(o: Option<i32>) -> FieldValueView {
    match o {
        Some(i) => FieldValueView::Int(i),
        None => FieldValueView::Null,
    }
}

/// The named fields of a test-statistics record, in declaration order.
pub open spec fn spec_test_stats_fields(s: TestStats) -> Seq<(Seq<char>, FieldValueView)> {
    seq![
        ("event_type"@, FieldValueView::Text(s.event_type@)),
        ("created_at"@, FieldValueView::Text(s.created_at@)),
        ("app_pkg"@, opt_text_view(s.app_pkg)),
        ("guid"@, opt_text_view(s.guid)),
        ("country"@, opt_text_view(s.country)),
        ("player_version"@, opt_text_view(s.player_version)),
        ("oem"@, opt_text_view(s.oem)),
        ("machine_id"@, opt_text_view(s.machine_id)),
        ("version_machine_id"@, opt_text_view(s.version_machine_id)),
        ("instance"@, opt_text_view(s.instance)),
        ("image_name"@, opt_text_view(s.image_name)),
        ("arg1"@, opt_text_view(s.arg1)),
        ("arg2"@, opt_text_view(s.arg2)),
        ("arg3"@, opt_text_view(s.arg3)),
        ("arg4"@, opt_text_view(s.arg4)),
        ("source"@, opt_text_view(s.source)),
        ("count"@, opt_int_view(s.count)),
        ("ad_refresh_rate"@, opt_int_view(s.ad_refresh_rate)),
    ]
}

fn opt_text_value(o: &Option<String>) -> (r: FieldValue)
    ensures
        r@ == opt_text_view(*o),
{
    match o {
        Some(s) => FieldValue::Text(s.clone()),
        None => FieldValue::Null,
    }
}

fn opt_int_value(o: &Option<i32>) -> (r: FieldValue)
    ensures
        r@ == opt_int_view(*o),
{
    match o {
        Some(i) => FieldValue::Int(*i),
        None => FieldValue::Null,
    }
}

impl TestStats {
    /// The record's named fields, in declaration order, with absent
    /// optional fields carried as nulls.
    pub fn to_fields(&self) -> (r: Vec<(String, FieldValue)>)
        ensures
            fields_view(r@) == spec_test_stats_fields(*self),
    {
        let mut out: Vec<(String, FieldValue)> = Vec::new();
        out.push((String::from_str("event_type"), FieldValue::Text(self.event_type.clone())));
        out.push((String::from_str("created_at"), FieldValue::Text(self.created_at.clone())));
        out.push((String::from_str("app_pkg"), opt_text_value(&self.app_pkg)));
        out.push((String::from_str("guid"), opt_text_value(&self.guid)));
        out.push((String::from_str("country"), opt_text_value(&self.country)));
        out.push((String::from_str("player_version"), opt_text_value(&self.player_version)));
        out.push((String::from_str("oem"), opt_text_value(&self.oem)));
        out.push((String::from_str("machine_id"), opt_text_value(&self.machine_id)));
        out.push(
            (String::from_str("version_machine_id"), opt_text_value(&self.version_machine_id)),
        );
        out.push((String::from_str("instance"), opt_text_value(&self.instance)));
        out.push((String::from_str("image_name"), opt_text_value(&self.image_name)));
        out.push((String::from_str("arg1"), opt_text_value(&self.arg1)));
        out.push((String::from_str("arg2"), opt_text_value(&self.arg2)));
        out.push((String::from_str("arg3"), opt_text_value(&self.arg3)));
        out.push((String::from_str("arg4"), opt_text_value(&self.arg4)));
        out.push((String::from_str("source"), opt_text_value(&self.source)));
        out.push((String::from_str("count"), opt_int_value(&self.count)));
        out.push((String::from_str("ad_refresh_rate"), opt_int_value(&self.ad_refresh_rate)));
        proof {
            assert(fields_view(out@) =~= spec_test_stats_fields(*self));
        }
        out
    }

    /// The serialized size of this record.
    pub fn data_len(&self) -> (r: usize)
        ensures
            r == record_json_bytes(spec_test_stats_fields(*self)).len(),
    {
        let fields = self.to_fields();
        record_data_len(&fields)
    }
}

impl Default for TestStats {
    /// A record with empty required fields and every optional field
    /// absent.
    fn default() -> (r: TestStats)
        ensures
            r.event_type@ == Seq::<char>::empty(),
            r.created_at@ == Seq::<char>::empty(),
            r.app_pkg is None,
            r.guid is None,
            r.country is None,
            r.player_version is None,
            r.oem is None,
            r.machine_id is None,
            r.version_machine_id is None,
            r.instance is None,
            r.image_name is None,
            r.arg1 is None,
            r.arg2 is None,
            r.arg3 is None,
            r.arg4 is None,
            r.source is None,
            r.count is None,
            r.ad_refresh_rate is None,
    {
        TestStats {
            event_type: String::new(),
            created_at: String::new(),
            app_pkg: None,
            guid: None,
            country: None,
            player_version: None,
            oem: None,
            machine_id: None,
            version_machine_id: None,
            instance: None,
            image_name: None,
            arg1: None,
            arg2: None,
            arg3: None,
            arg4: None,
            source: None,
            count: None,
            ad_refresh_rate: None,
        }
    }
}

} // verus!
