//! Audit-log records and their document-store wire format. The store
//! speaks a typed JSON document shape (`stringValue`, `integerValue`,
//! `arrayValue`, `mapValue` wrappers); the marshaling here maps each
//! domain field to its known wire shape explicitly, and the
//! serializer/deserializer pair is proved lossless for log entries.

use vstd::prelude::*;

use vstd::multiset::Multiset;

use crate::json::{spec_get, spec_json_view, spec_lookup, JsonObject, JsonSpec, JsonValue};
use crate::text::{
    i32_to_string, lemma_lex_le_total, lemma_lex_le_trans, lemma_parse_render_roundtrip,
    lower_of, lowercase, parse_i32, prefix_before_char, spec_after_last_index, spec_char_index,
    spec_clamp_i32, spec_contains_seq, spec_i64_string, spec_lex_le, spec_parse_i64, str_contains,
    str_eq, str_lex_le, suffix_after_last_char,
};

verus! {

broadcast use vstd::std_specs::vec::group_vec_axioms, vstd::string::group_string_axioms;

/// The payload of one audit record: which product and variant changed,
/// at which shop, by how much.
#[derive(Debug, Clone)]
pub struct LogData {
    pub id: String,
    pub variant: String,
    pub negozio: String,
    pub inventory_item_id: String,
    pub nome: String,
    pub prezzo: String,
    pub rettifica: i32,
    pub images: Vec<String>,
}

/// Mathematical image of a [`LogData`].
#[verifier::ext_equal]
pub ghost struct LogDataView {
    pub id: Seq<char>,
    pub variant: Seq<char>,
    pub negozio: Seq<char>,
    pub inventory_item_id: Seq<char>,
    pub nome: Seq<char>,
    pub prezzo: Seq<char>,
    pub rettifica: int,
    pub images: Seq<Seq<char>>,
}

impl View for LogData {
    type V = LogDataView;

    open spec fn view(&self) -> LogDataView {
        LogDataView {
            id: self.id@,
            variant: self.variant@,
            negozio: self.negozio@,
            inventory_item_id: self.inventory_item_id@,
            nome: self.nome@,
            prezzo: self.prezzo@,
            rettifica: self.rettifica as int,
            images: self.images@.map_values(|s: String| s@),
        }
    }
}

/// One audit record: the kind of operation, its payload, and the
/// timestamp string the caller supplies.
#[derive(Debug, Clone)]
pub struct LogEntry {
    pub request_type: String,
    pub data: LogData,
    pub timestamp: String,
}

/// Mathematical image of a [`LogEntry`].
#[verifier::ext_equal]
pub ghost struct LogEntryView {
    pub request_type: Seq<char>,
    pub data: LogDataView,
    pub timestamp: Seq<char>,
}

impl View for LogEntry {
    type V = LogEntryView;

    open spec fn view(&self) -> LogEntryView {
        LogEntryView { request_type: self.request_type@, data: self.data@, timestamp: self.timestamp@ }
    }
}

/// Builds the payload of one audit record.
pub fn create_inventory_log_data(
    product_id: String,
    variant_title: String,
    negozio: String,
    inventory_item_id: String,
    product_name: String,
    price: String,
    adjustment: i32,
    images: Vec<String>,
) -> (r: LogData)
    ensures
        r.id == product_id,
        r.variant == variant_title,
        r.negozio == negozio,
        r.inventory_item_id == inventory_item_id,
        r.nome == product_name,
        r.prezzo == price,
        r.rettifica == adjustment,
        r.images == images,
{
    LogData {
        id: product_id,
        variant: variant_title,
        negozio,
        inventory_item_id,
        nome: product_name,
        prezzo: price,
        rettifica: adjustment,
        images,
    }
}

/// The wire wrapper of a string value.
pub open spec fn spec_sv(s: Seq<char>) -> JsonSpec {
    JsonSpec::Object(seq![("stringValue"@, JsonSpec::Str(s))])
}

/// The wire wrapper of an integer value, which travels as a decimal
/// string.
pub open spec fn spec_iv(s: Seq<char>) -> JsonSpec {
    JsonSpec::Object(seq![("integerValue"@, JsonSpec::Str(s))])
}

/// The wire document of one audit record.
pub open spec fn spec_log_doc_of(e: LogEntryView) -> JsonSpec {
    JsonSpec::Object(
        seq![
            (
                "fields"@,
                JsonSpec::Object(
                    seq![
                        ("requestType"@, spec_sv(e.request_type)),
                        ("timestamp"@, spec_sv(e.timestamp)),
                        (
                            "data"@,
                            JsonSpec::Object(
                                seq![
                                    (
                                        "mapValue"@,
                                        JsonSpec::Object(
                                            seq![
                                                (
                                                    "fields"@,
                                                    JsonSpec::Object(spec_log_data_fields(e.data)),
                                                ),
                                            ],
                                        ),
                                    ),
                                ],
                            ),
                        ),
                    ],
                ),
            ),
        ],
    )
}

/// The wire fields of the audit payload, in marshaling order.
pub open spec fn spec_log_data_fields(d: LogDataView) -> Seq<(Seq<char>, JsonSpec)> {
    seq![
        ("id"@, spec_sv(d.id)),
        ("variant"@, spec_sv(d.variant)),
        ("negozio"@, spec_sv(d.negozio)),
        ("inventory_item_id"@, spec_sv(d.inventory_item_id)),
        ("nome"@, spec_sv(d.nome)),
        ("prezzo"@, spec_sv(d.prezzo)),
        ("rettifica"@, spec_iv(spec_i64_string(d.rettifica))),
        (
            "images"@,
            JsonSpec::Object(
                seq![
                    (
                        "arrayValue"@,
                        JsonSpec::Object(
                            seq![
                                (
                                    "values"@,
                                    JsonSpec::Array(
                                        d.images.map_values(|s: Seq<char>| spec_sv(s)),
                                    ),
                                ),
                            ],
                        ),
                    ),
                ],
            ),
        ),
    ]
}

fn sv(s: &str) -> (r: JsonValue)
    ensures
        r@ == spec_sv(s@),
{
    let mut o = JsonObject::new();
    o.push("stringValue", JsonValue::string(s));
    let r = o.build();
    proof {
        assert(r@ =~~= spec_sv(s@));
    }
    r
}

fn iv_string(s: String) -> (r: JsonValue)
    ensures
        r@ == spec_iv(s@),
{
    let mut o = JsonObject::new();
    o.push("integerValue", JsonValue::Str(s));
    let r = o.build();
    proof {
        assert(r@ =~~= spec_iv(s@));
    }
    r
}

fn wrap_object(key: &str, value: JsonValue) -> (r: JsonValue)
    ensures
        r@ == JsonSpec::Object(seq![(key@, value@)]),
{
    let mut o = JsonObject::new();
    let ghost vview = value@;
    o.push(key, value);
    let r = o.build();
    proof {
        assert(r@ =~~= JsonSpec::Object(seq![(key@, vview)]));
    }
    r
}

fn string_values_array(strings: &Vec<String>) -> (r: JsonValue)
    ensures
        r@ == JsonSpec::Array(strings@.map_values(|s: String| s@).map_values(
            |s: Seq<char>| spec_sv(s),
        )),
{
    let ghost target = strings@.map_values(|s: String| s@).map_values(|s: Seq<char>| spec_sv(s));
    let mut values: Vec<JsonValue> = Vec::new();
    let mut i: usize = 0;
    while i < strings.len()
        invariant
            i <= strings@.len(),
            target == strings@.map_values(|s: String| s@).map_values(|s: Seq<char>| spec_sv(s)),
            target.len() == strings@.len(),
            values@.map_values(|x: JsonValue| x@) =~= target.take(i as int),
        decreases strings@.len() - i,
    {
        let v = sv(strings[i].as_str());
        let ghost vv = v@;
        let ghost prev = values@;
        values.push(v);
        proof {
            assert(vv == spec_sv(strings@[i as int]@));
            assert(vv == target[i as int]);
            assert(values@.map_values(|x: JsonValue| x@) =~= prev.map_values(
                |x: JsonValue| x@,
            ).push(vv));
            assert(values@.map_values(|x: JsonValue| x@) =~= target.take(i + 1 as int));
        }
        i += 1;
    }
    let ghost final_views = values@.map_values(|x: JsonValue| x@);
    let r = JsonValue::Array(values);
    proof {
        crate::json::lemma_json_views_map(r->Array_0@);
        assert(r->Array_0@.map_values(|x: JsonValue| crate::json::spec_json_view(x))
            =~= final_views);
        assert(target.take(strings@.len() as int) =~= target);
        assert(final_views =~= target);
        assert(r@ == JsonSpec::Array(crate::json::spec_json_views(r->Array_0@)));
        assert(crate::json::spec_json_views(r->Array_0@) =~= target);
    }
    r
}

/// Marshals one audit record into its wire document.
pub fn log_entry_to_firestore_doc(log_entry: &LogEntry) -> (r: JsonValue)
    ensures
        r@ == spec_log_doc_of(log_entry@),
{
    let ghost e = log_entry@;
    let mut data_fields = JsonObject::new();
    data_fields.push("id", sv(log_entry.data.id.as_str()));
    data_fields.push("variant", sv(log_entry.data.variant.as_str()));
    data_fields.push("negozio", sv(log_entry.data.negozio.as_str()));
    data_fields.push("inventory_item_id", sv(log_entry.data.inventory_item_id.as_str()));
    data_fields.push("nome", sv(log_entry.data.nome.as_str()));
    data_fields.push("prezzo", sv(log_entry.data.prezzo.as_str()));
    data_fields.push("rettifica", iv_string(i32_to_string(log_entry.data.rettifica)));
    data_fields.push(
        "images",
        wrap_object("arrayValue", wrap_object("values", string_values_array(&log_entry.data.images))),
    );
    let ghost dfv = data_fields.fviews();
    proof {
        assert(dfv =~~= spec_log_data_fields(e.data));
    }
    let data_value = wrap_object("mapValue", wrap_object("fields", data_fields.build()));

    let mut fields = JsonObject::new();
    fields.push("requestType", sv(log_entry.request_type.as_str()));
    fields.push("timestamp", sv(log_entry.timestamp.as_str()));
    fields.push("data", data_value);
    let ghost fv = fields.fviews();
    let r = wrap_object("fields", fields.build());
    proof {
        assert(fv =~~= seq![
            ("requestType"@, spec_sv(e.request_type)),
            ("timestamp"@, spec_sv(e.timestamp)),
            (
                "data"@,
                JsonSpec::Object(
                    seq![
                        (
                            "mapValue"@,
                            JsonSpec::Object(
                                seq![("fields"@, JsonSpec::Object(spec_log_data_fields(e.data)))],
                            ),
                        ),
                    ],
                ),
            ),
        ]);
        assert(r@ =~~= spec_log_doc_of(e));
    }
    r
}

/// The string under a wire `stringValue` wrapper at a key.
pub open spec fn spec_str_field(fields: JsonSpec, key: Seq<char>) -> Option<Seq<char>> {
    match spec_get(fields, key) {
        Some(f) => match spec_get(f, "stringValue"@) {
            Some(JsonSpec::Str(s)) => Some(s),
            _ => None,
        },
        _ => None,
    }
}

/// The digit string under a wire `integerValue` wrapper at a key.
pub open spec fn spec_int_field(fields: JsonSpec, key: Seq<char>) -> Option<Seq<char>> {
    match spec_get(fields, key) {
        Some(f) => match spec_get(f, "integerValue"@) {
            Some(JsonSpec::Str(s)) => Some(s),
            _ => None,
        },
        _ => None,
    }
}

/// The string-or-integer variant used for the inventory item
/// identifier, which older records stored as an integer.
pub open spec fn spec_str_or_int_field(fields: JsonSpec, key: Seq<char>) -> Option<Seq<char>> {
    match spec_str_field(fields, key) {
        Some(s) => Some(s),
        None => spec_int_field(fields, key),
    }
}

fn get_str_field<'a>(fields: &'a JsonValue, key: &str) -> (r: Option<&'a str>)
    ensures
        match r {
            Some(s) => spec_str_field(fields@, key@) == Some(s@),
            None => spec_str_field(fields@, key@) is None,
        },
{
    match fields.get(key) {
        Some(f) => match f.get("stringValue") {
            Some(v) => v.as_str(),
            None => None,
        },
        None => None,
    }
}

fn get_int_field<'a>(fields: &'a JsonValue, key: &str) -> (r: Option<&'a str>)
    ensures
        match r {
            Some(s) => spec_int_field(fields@, key@) == Some(s@),
            None => spec_int_field(fields@, key@) is None,
        },
{
    match fields.get(key) {
        Some(f) => match f.get("integerValue") {
            Some(v) => v.as_str(),
            None => None,
        },
        None => None,
    }
}

/// The images list of a wire payload: the strings among the
/// `arrayValue` entries, or empty when the field is missing.
pub open spec fn spec_images_of(fields: JsonSpec) -> Seq<Seq<char>> {
    match spec_get(fields, "images"@) {
        Some(f) => match spec_get(f, "arrayValue"@) {
            Some(av) => match spec_get(av, "values"@) {
                Some(JsonSpec::Array(vs)) => vs.filter_map(
                    |v: JsonSpec|
                        match spec_get(v, "stringValue"@) {
                            Some(JsonSpec::Str(s)) => Some(s),
                            _ => None,
                        },
                ),
                _ => Seq::empty(),
            },
            _ => Seq::empty(),
        },
        _ => Seq::empty(),
    }
}

fn parse_images(fields: &JsonValue) -> (r: Vec<String>)
    ensures
        r@.map_values(|s: String| s@) == spec_images_of(fields@),
{
    let mut out: Vec<String> = Vec::new();
    let arr = match fields.get("images") {
        Some(f) => match f.get("arrayValue") {
            Some(av) => match av.get("values") {
                Some(vsv) => match vsv.as_array() {
                    Some(vs) => Some(vs),
                    None => None,
                },
                None => None,
            },
            None => None,
        },
        None => None,
    };
    match arr {
        None => {
            proof {
                assert(out@.map_values(|s: String| s@) =~= spec_images_of(fields@));
            }
            out
        },
        Some(vs) => {
            let ghost vviews = vs@.map_values(|x: JsonValue| x@);
            let ghost f = |v: JsonSpec|
                match spec_get(v, "stringValue"@) {
                    Some(JsonSpec::Str(s)) => Some(s),
                    _ => None,
                };
            let mut i: usize = 0;
            while i < vs.len()
                invariant
                    i <= vs@.len(),
                    vviews == vs@.map_values(|x: JsonValue| x@),
                    vviews.len() == vs@.len(),
                    f == (|v: JsonSpec|
                        match spec_get(v, "stringValue"@) {
                            Some(JsonSpec::Str(s)) => Some(s),
                            _ => None,
                        }),
                    out@.map_values(|s: String| s@) =~= vviews.take(i as int).filter_map(f),
                decreases vs@.len() - i,
            {
                proof {
                    assert(vviews.take(i + 1 as int).drop_last() =~= vviews.take(i as int));
                    assert(vviews.take(i + 1 as int).last() == vviews[i as int]);
                }
                match vs[i].get("stringValue") {
                    Some(v) => match v.as_str() {
                        Some(s) => {
                            out.push(String::from_str(s));
                            proof {
                                assert(out@.map_values(|s: String| s@) =~= vviews.take(
                                    i + 1 as int,
                                ).filter_map(f));
                            }
                        },
                        None => {
                            proof {
                                assert(f(vviews[i as int]) is None);
                            }
                        },
                    },
                    None => {
                        proof {
                            assert(f(vviews[i as int]) is None);
                        }
                    },
                }
                i += 1;
            }
            proof {
                assert(vviews.take(vs@.len() as int) =~= vviews);
                assert(spec_images_of(fields@) == vviews.filter_map(f));
            }
            out
        },
    }
}

/// A wire document holds a well-formed audit record: the required
/// fields are present with their expected shapes.
pub open spec fn spec_log_doc_wf(doc: JsonSpec) -> bool {
    match spec_get(doc, "fields"@) {
        Some(fields) => {
            &&& spec_str_field(fields, "requestType"@) is Some
            &&& spec_str_field(fields, "timestamp"@) is Some
            &&& match spec_get(fields, "data"@) {
                Some(dv) => match spec_get(dv, "mapValue"@) {
                    Some(mv) => match spec_get(mv, "fields"@) {
                        Some(dm) => {
                            &&& spec_str_field(dm, "id"@) is Some
                            &&& spec_str_field(dm, "variant"@) is Some
                            &&& spec_str_field(dm, "negozio"@) is Some
                            &&& spec_str_or_int_field(dm, "inventory_item_id"@) is Some
                            &&& spec_str_field(dm, "nome"@) is Some
                            &&& spec_str_field(dm, "prezzo"@) is Some
                            &&& (match spec_int_field(dm, "rettifica"@) {
                                Some(s) => (spec_parse_i64(s) matches Some(n) && i32::MIN <= n
                                    <= i32::MAX),
                                None => false,
                            })
                        },
                        None => false,
                    },
                    None => false,
                },
                None => false,
            }
        },
        None => false,
    }
}

/// The audit record a well-formed wire document denotes.
pub open spec fn spec_log_entry_of(doc: JsonSpec) -> LogEntryView {
    let fields = spec_get(doc, "fields"@)->0;
    let dm = spec_get(spec_get(spec_get(fields, "data"@)->0, "mapValue"@)->0, "fields"@)->0;
    LogEntryView {
        request_type: spec_str_field(fields, "requestType"@)->0,
        timestamp: spec_str_field(fields, "timestamp"@)->0,
        data: LogDataView {
            id: spec_str_field(dm, "id"@)->0,
            variant: spec_str_field(dm, "variant"@)->0,
            negozio: spec_str_field(dm, "negozio"@)->0,
            inventory_item_id: spec_str_or_int_field(dm, "inventory_item_id"@)->0,
            nome: spec_str_field(dm, "nome"@)->0,
            prezzo: spec_str_field(dm, "prezzo"@)->0,
            rettifica: spec_parse_i64(spec_int_field(dm, "rettifica"@)->0)->0,
            images: spec_images_of(dm),
        },
    }
}

/// Unmarshals one wire document into an audit record; an error names
/// the first missing or malformed field. Succeeds exactly on
/// well-formed documents.
pub fn parse_firestore_document(doc: &JsonValue) -> (r: Result<LogEntry, String>)
    ensures
        r is Ok <==> spec_log_doc_wf(doc@),
        r matches Ok(e) ==> e@ == spec_log_entry_of(doc@),
{
    let fields = match doc.get("fields") {
        Some(f) => f,
        None => {
            return Err(String::from_str("Invalid document format: missing fields"));
        },
    };
    let request_type = match get_str_field(fields, "requestType") {
        Some(s) => String::from_str(s),
        None => {
            return Err(String::from_str("Missing requestType"));
        },
    };
    let timestamp = match get_str_field(fields, "timestamp") {
        Some(s) => String::from_str(s),
        None => {
            return Err(String::from_str("Missing timestamp"));
        },
    };
    let dm = match fields.get("data") {
        Some(dv) => match dv.get("mapValue") {
            Some(mv) => match mv.get("fields") {
                Some(dm) => dm,
                None => {
                    return Err(String::from_str("Missing data map"));
                },
            },
            None => {
                return Err(String::from_str("Missing data map"));
            },
        },
        None => {
            return Err(String::from_str("Missing data map"));
        },
    };
    let id = match get_str_field(dm, "id") {
        Some(s) => String::from_str(s),
        None => {
            return Err(String::from_str("Missing data.id"));
        },
    };
    let variant = match get_str_field(dm, "variant") {
        Some(s) => String::from_str(s),
        None => {
            return Err(String::from_str("Missing data.variant"));
        },
    };
    let negozio = match get_str_field(dm, "negozio") {
        Some(s) => String::from_str(s),
        None => {
            return Err(String::from_str("Missing data.negozio"));
        },
    };
    let inventory_item_id = match get_str_field(dm, "inventory_item_id") {
        Some(s) => String::from_str(s),
        None => match get_int_field(dm, "inventory_item_id") {
            Some(s) => String::from_str(s),
            None => {
                return Err(String::from_str("Missing data.inventory_item_id"));
            },
        },
    };
    let nome = match get_str_field(dm, "nome") {
        Some(s) => String::from_str(s),
        None => {
            return Err(String::from_str("Missing data.nome"));
        },
    };
    let prezzo = match get_str_field(dm, "prezzo") {
        Some(s) => String::from_str(s),
        None => {
            return Err(String::from_str("Missing data.prezzo"));
        },
    };
    let rettifica = match get_int_field(dm, "rettifica") {
        Some(s) => match parse_i32(s) {
            Some(n) => n,
            None => {
                return Err(String::from_str("Missing or invalid data.rettifica"));
            },
        },
        None => {
            return Err(String::from_str("Missing or invalid data.rettifica"));
        },
    };
    let images = parse_images(dm);
    Ok(
        LogEntry {
            request_type,
            data: LogData {
                id,
                variant,
                negozio,
                inventory_item_id,
                nome,
                prezzo,
                rettifica,
                images,
            },
            timestamp,
        },
    )
}

proof fn lemma_images_roundtrip(imgs: Seq<Seq<char>>)
    ensures
        imgs.map_values(|s: Seq<char>| spec_sv(s)).filter_map(
            |v: JsonSpec|
                match spec_get(v, "stringValue"@) {
                    Some(JsonSpec::Str(s)) => Some(s),
                    _ => None,
                },
        ) =~= imgs,
    decreases imgs.len(),
{
    let f = |v: JsonSpec|
        match spec_get(v, "stringValue"@) {
            Some(JsonSpec::Str(s)) => Some(s),
            _ => None,
        };
    if imgs.len() == 0 {
    } else {
        lemma_images_roundtrip(imgs.drop_last());
        let m = imgs.map_values(|s: Seq<char>| spec_sv(s));
        assert(m.drop_last() =~= imgs.drop_last().map_values(|s: Seq<char>| spec_sv(s)));
        assert(m.last() == spec_sv(imgs.last()));
        assert(f(m.last()) == Some(imgs.last()));
    }
}

/// Law: the wire marshaling pair is lossless — unmarshaling the
/// marshaled form of any audit record yields the record back, and the
/// marshaled form is always well formed.
pub proof fn lemma_log_doc_roundtrip(e: LogEntryView)
    requires
        i32::MIN <= e.data.rettifica <= i32::MAX,
    ensures
        spec_log_doc_wf(spec_log_doc_of(e)),
        spec_log_entry_of(spec_log_doc_of(e)) == e,
{
    reveal_strlit("fields");
    reveal_strlit("requestType");
    reveal_strlit("timestamp");
    reveal_strlit("data");
    reveal_strlit("mapValue");
    reveal_strlit("stringValue");
    reveal_strlit("integerValue");
    reveal_strlit("arrayValue");
    reveal_strlit("values");
    reveal_strlit("id");
    reveal_strlit("variant");
    reveal_strlit("negozio");
    reveal_strlit("inventory_item_id");
    reveal_strlit("nome");
    reveal_strlit("prezzo");
    reveal_strlit("rettifica");
    reveal_strlit("images");
    reveal_with_fuel(spec_lookup, 12);
    assert("fields"@.len() == 6);
    assert("requestType"@.len() == 11);
    assert("timestamp"@.len() == 9);
    assert("data"@.len() == 4);
    assert("mapValue"@.len() == 8);
    assert("stringValue"@.len() == 11);
    assert("integerValue"@.len() == 12);
    assert("arrayValue"@.len() == 10);
    assert("values"@.len() == 6);
    assert("id"@.len() == 2);
    assert("variant"@.len() == 7);
    assert("negozio"@.len() == 7);
    assert("inventory_item_id"@.len() == 17);
    assert("nome"@.len() == 4);
    assert("prezzo"@.len() == 6);
    assert("rettifica"@.len() == 9);
    assert("images"@.len() == 6);
    assert("variant"@ != "negozio"@) by {
        assert("variant"@[0] == 'v');
        assert("negozio"@[0] == 'n');
    }
    assert("prezzo"@ != "images"@) by {
        assert("prezzo"@[0] == 'p');
        assert("images"@[0] == 'i');
    }
    assert("prezzo"@ != "values"@) by {
        assert("prezzo"@[0] == 'p');
        assert("values"@[0] == 'v');
    }
    assert("images"@ != "values"@) by {
        assert("images"@[0] == 'i');
        assert("values"@[0] == 'v');
    }
    assert("nome"@ != "data"@) by {
        assert("nome"@[0] == 'n');
        assert("data"@[0] == 'd');
    }
    assert("timestamp"@ != "rettifica"@) by {
        assert("timestamp"@[0] == 't');
        assert("rettifica"@[0] == 'r');
    }
    lemma_parse_render_roundtrip(e.data.rettifica);
    lemma_images_roundtrip(e.data.images);
    let doc = spec_log_doc_of(e);
    let fields = spec_get(doc, "fields"@)->0;
    assert(spec_str_field(fields, "requestType"@) == Some(e.request_type));
    assert(spec_str_field(fields, "timestamp"@) == Some(e.timestamp));
    let dm = spec_get(spec_get(spec_get(fields, "data"@)->0, "mapValue"@)->0, "fields"@)->0;
    assert(dm == spec_log_data_fields_obj(e.data));
    assert(spec_str_field(dm, "id"@) == Some(e.data.id));
    assert(spec_str_field(dm, "variant"@) == Some(e.data.variant));
    assert(spec_str_field(dm, "negozio"@) == Some(e.data.negozio));
    assert(spec_str_or_int_field(dm, "inventory_item_id"@) == Some(e.data.inventory_item_id));
    assert(spec_str_field(dm, "nome"@) == Some(e.data.nome));
    assert(spec_str_field(dm, "prezzo"@) == Some(e.data.prezzo));
    assert(spec_int_field(dm, "rettifica"@) == Some(spec_i64_string(e.data.rettifica)));
    assert(spec_images_of(dm) =~= e.data.images);
    assert(spec_log_entry_of(spec_log_doc_of(e)) =~~= e);
}

/// The wire payload object, for stating lookups against it.
pub open spec fn spec_log_data_fields_obj(d: LogDataView) -> JsonSpec {
    JsonSpec::Object(spec_log_data_fields(d))
}

/// The document identifier at the end of a document's resource path,
/// or `"unknown"` when the response carries no path.
pub fn extract_document_id(response: &JsonValue) -> (r: String)
    ensures
        match spec_get(response@, "name"@) {
            Some(JsonSpec::Str(name)) => r@ == name.skip(spec_after_last_index(name, '/')),
            _ => r@ == "unknown"@,
        },
{
    match response.get("name") {
        Some(n) => match n.as_str() {
            Some(name) => suffix_after_last_char(name, '/'),
            None => String::from_str("unknown"),
        },
        None => String::from_str("unknown"),
    }
}

/// The wire form of one field filter of a structured query.
pub open spec fn spec_field_filter(path: Seq<char>, op: Seq<char>, value: Seq<char>) -> JsonSpec {
    JsonSpec::Object(
        seq![
            (
                "fieldFilter"@,
                JsonSpec::Object(
                    seq![
                        ("field"@, JsonSpec::Object(seq![("fieldPath"@, JsonSpec::Str(path))])),
                        ("op"@, JsonSpec::Str(op)),
                        ("value"@, spec_sv(value)),
                    ],
                ),
            ),
        ],
    )
}

fn field_filter(path: &str, op: &str, value: &str) -> (r: JsonValue)
    ensures
        r@ == spec_field_filter(path@, op@, value@),
{
    let mut inner = JsonObject::new();
    inner.push("field", wrap_object("fieldPath", JsonValue::string(path)));
    inner.push("op", JsonValue::string(op));
    inner.push("value", sv(value));
    let ghost iv = inner.fviews();
    let r = wrap_object("fieldFilter", inner.build());
    proof {
        assert(iv =~~= seq![
            ("field"@, JsonSpec::Object(seq![("fieldPath"@, JsonSpec::Str(path@))])),
            ("op"@, JsonSpec::Str(op@)),
            ("value"@, spec_sv(value@)),
        ]);
        assert(r@ =~~= spec_field_filter(path@, op@, value@));
    }
    r
}

/// The wire form of a structured query over the log collection: the
/// conjunction of the given filters, newest records first, up to the
/// given count.
pub open spec fn spec_logs_structured_query(filters: Seq<JsonSpec>, limit: int) -> JsonSpec {
    JsonSpec::Object(
        seq![
            (
                "structuredQuery"@,
                JsonSpec::Object(
                    seq![
                        (
                            "from"@,
                            JsonSpec::Array(
                                seq![
                                    JsonSpec::Object(
                                        seq![("collectionId"@, JsonSpec::Str("logs"@))],
                                    ),
                                ],
                            ),
                        ),
                        (
                            "where"@,
                            JsonSpec::Object(
                                seq![
                                    (
                                        "compositeFilter"@,
                                        JsonSpec::Object(
                                            seq![
                                                ("op"@, JsonSpec::Str("AND"@)),
                                                ("filters"@, JsonSpec::Array(filters)),
                                            ],
                                        ),
                                    ),
                                ],
                            ),
                        ),
                        ("orderBy"@, spec_order_by_timestamp_desc()),
                        ("limit"@, JsonSpec::Int(limit)),
                    ],
                ),
            ),
        ],
    )
}

/// The wire form of the newest-first ordering on timestamps.
pub open spec fn spec_order_by_timestamp_desc() -> JsonSpec {
    JsonSpec::Array(
        seq![
            JsonSpec::Object(
                seq![
                    ("field"@, JsonSpec::Object(seq![("fieldPath"@, JsonSpec::Str("timestamp"@))])),
                    ("direction"@, JsonSpec::Str("DESCENDING"@)),
                ],
            ),
        ],
    )
}

fn order_by_timestamp_desc() -> (r: JsonValue)
    ensures
        r@ == spec_order_by_timestamp_desc(),
{
    let mut o = JsonObject::new();
    o.push("field", wrap_object("fieldPath", JsonValue::string("timestamp")));
    o.push("direction", JsonValue::string("DESCENDING"));
    let ghost ov = o.fviews();
    let mut items: Vec<JsonValue> = Vec::new();
    items.push(o.build());
    let r = JsonValue::Array(items);
    proof {
        assert(ov =~~= seq![
            ("field"@, JsonSpec::Object(seq![("fieldPath"@, JsonSpec::Str("timestamp"@))])),
            ("direction"@, JsonSpec::Str("DESCENDING"@)),
        ]);
        crate::json::lemma_json_views_map(r->Array_0@);
        assert(r->Array_0@.map_values(|x: JsonValue| spec_json_view(x)) =~= seq![
            JsonSpec::Object(ov),
        ]);
        assert(r@ =~~= spec_order_by_timestamp_desc());
    }
    r
}

fn logs_structured_query(filters: Vec<JsonValue>, limit: i64) -> (r: JsonValue)
    ensures
        r@ == spec_logs_structured_query(
            filters@.map_values(|f: JsonValue| f@),
            limit as int,
        ),
{
    let ghost fviews = filters@.map_values(|f: JsonValue| f@);
    let mut from_items: Vec<JsonValue> = Vec::new();
    from_items.push(wrap_object("collectionId", JsonValue::string("logs")));
    let from = JsonValue::Array(from_items);
    proof {
        crate::json::lemma_json_views_map(from->Array_0@);
        assert(from->Array_0@.map_values(|x: JsonValue| spec_json_view(x)) =~= seq![
            JsonSpec::Object(seq![("collectionId"@, JsonSpec::Str("logs"@))]),
        ]);
        assert(from@ =~~= JsonSpec::Array(
            seq![JsonSpec::Object(seq![("collectionId"@, JsonSpec::Str("logs"@))])],
        ));
    }
    let ghost from_view = from@;
    let filters_value = JsonValue::Array(filters);
    proof {
        crate::json::lemma_json_views_map(filters_value->Array_0@);
        assert(filters_value->Array_0@.map_values(|x: JsonValue| spec_json_view(x))
            =~= filters_value->Array_0@.map_values(|f: JsonValue| f@));
        assert(filters_value@ =~~= JsonSpec::Array(fviews));
    }
    let mut composite = JsonObject::new();
    composite.push("op", JsonValue::string("AND"));
    composite.push("filters", filters_value);
    let ghost cv = composite.fviews();
    let where_value = wrap_object("compositeFilter", composite.build());
    proof {
        assert(cv =~~= seq![("op"@, JsonSpec::Str("AND"@)), ("filters"@, JsonSpec::Array(fviews))]);
    }
    let mut q = JsonObject::new();
    q.push("from", from);
    q.push("where", where_value);
    q.push("orderBy", order_by_timestamp_desc());
    q.push("limit", JsonValue::Int(limit));
    let ghost qv = q.fviews();
    let r = wrap_object("structuredQuery", q.build());
    proof {
        assert(qv =~~= seq![
            ("from"@, from_view),
            (
                "where"@,
                JsonSpec::Object(
                    seq![
                        (
                            "compositeFilter"@,
                            JsonSpec::Object(
                                seq![
                                    ("op"@, JsonSpec::Str("AND"@)),
                                    ("filters"@, JsonSpec::Array(fviews)),
                                ],
                            ),
                        ),
                    ],
                ),
            ),
            ("orderBy"@, spec_order_by_timestamp_desc()),
            ("limit"@, JsonSpec::Int(limit as int)),
        ]);
        assert(r@ =~~= spec_logs_structured_query(fviews, limit as int));
    }
    r
}

/// A timestamp raised just past every string that extends the given
/// prefix: the prefix followed by the largest code unit the store
/// compares by.
pub fn upper_bound_string(s: &str) -> (r: String)
    ensures
        r@ == s@ + "\u{ffff}"@,
{
    let mut u = String::from_str(s);
    u.append("\u{ffff}");
    u
}

/// The day query: records of one shop whose timestamps fall on the
/// given day, newest first, up to 100.
pub open spec fn spec_logs_query(today: Seq<char>, negozio: Seq<char>) -> JsonSpec {
    spec_logs_structured_query(
        seq![
            spec_field_filter("timestamp"@, "GREATER_THAN_OR_EQUAL"@, today),
            spec_field_filter("timestamp"@, "LESS_THAN"@, today + "\u{ffff}"@),
            spec_field_filter("data.negozio"@, "EQUAL"@, negozio),
        ],
        100,
    )
}

/// Builds the day query for the log collection.
pub fn build_logs_query(today: &str, negozio: &str) -> (r: JsonValue)
    ensures
        r@ == spec_logs_query(today@, negozio@),
{
    let upper = upper_bound_string(today);
    let mut filters: Vec<JsonValue> = Vec::new();
    filters.push(field_filter("timestamp", "GREATER_THAN_OR_EQUAL", today));
    filters.push(field_filter("timestamp", "LESS_THAN", upper.as_str()));
    filters.push(field_filter("data.negozio", "EQUAL", negozio));
    let ghost fviews = filters@.map_values(|f: JsonValue| f@);
    let r = logs_structured_query(filters, 100);
    proof {
        assert(fviews =~= seq![
            spec_field_filter("timestamp"@, "GREATER_THAN_OR_EQUAL"@, today@),
            spec_field_filter("timestamp"@, "LESS_THAN"@, today@ + "\u{ffff}"@),
            spec_field_filter("data.negozio"@, "EQUAL"@, negozio@),
        ]);
    }
    r
}

/// The date-range query: records of one shop between two dates,
/// newest first, up to 500.
pub open spec fn spec_logs_date_range_query(
    negozio: Seq<char>,
    start_date: Seq<char>,
    end_date: Seq<char>,
) -> JsonSpec {
    spec_logs_structured_query(
        seq![
            spec_field_filter("timestamp"@, "GREATER_THAN_OR_EQUAL"@, start_date),
            spec_field_filter("timestamp"@, "LESS_THAN"@, end_date + "\u{ffff}"@),
            spec_field_filter("data.negozio"@, "EQUAL"@, negozio),
        ],
        500,
    )
}

/// Builds the date-range query for the log collection.
pub fn build_logs_date_range_query(negozio: &str, start_date: &str, end_date: &str) -> (r:
    JsonValue)
    ensures
        r@ == spec_logs_date_range_query(negozio@, start_date@, end_date@),
{
    let upper = upper_bound_string(end_date);
    let mut filters: Vec<JsonValue> = Vec::new();
    filters.push(field_filter("timestamp", "GREATER_THAN_OR_EQUAL", start_date));
    filters.push(field_filter("timestamp", "LESS_THAN", upper.as_str()));
    filters.push(field_filter("data.negozio", "EQUAL", negozio));
    let ghost fviews = filters@.map_values(|f: JsonValue| f@);
    let r = logs_structured_query(filters, 500);
    proof {
        assert(fviews =~= seq![
            spec_field_filter("timestamp"@, "GREATER_THAN_OR_EQUAL"@, start_date@),
            spec_field_filter("timestamp"@, "LESS_THAN"@, end_date@ + "\u{ffff}"@),
            spec_field_filter("data.negozio"@, "EQUAL"@, negozio@),
        ]);
    }
    r
}

/// The per-product query: records of one product at one shop within a
/// date range, newest first, up to 100.
pub open spec fn spec_logs_by_product_query(
    product_id: Seq<char>,
    location: Seq<char>,
    start_date: Seq<char>,
    end_date: Seq<char>,
) -> JsonSpec {
    spec_logs_structured_query(
        seq![
            spec_field_filter("data.id"@, "EQUAL"@, product_id),
            spec_field_filter("data.negozio"@, "EQUAL"@, location),
            spec_field_filter("timestamp"@, "GREATER_THAN_OR_EQUAL"@, start_date),
            spec_field_filter("timestamp"@, "LESS_THAN"@, end_date + "\u{ffff}"@),
        ],
        100,
    )
}

/// Builds the per-product query for the log collection.
pub fn build_logs_by_product_query(
    product_id: &str,
    location: &str,
    start_date: &str,
    end_date: &str,
) -> (r: JsonValue)
    ensures
        r@ == spec_logs_by_product_query(product_id@, location@, start_date@, end_date@),
{
    let upper = upper_bound_string(end_date);
    let mut filters: Vec<JsonValue> = Vec::new();
    filters.push(field_filter("data.id", "EQUAL", product_id));
    filters.push(field_filter("data.negozio", "EQUAL", location));
    filters.push(field_filter("timestamp", "GREATER_THAN_OR_EQUAL", start_date));
    filters.push(field_filter("timestamp", "LESS_THAN", upper.as_str()));
    let ghost fviews = filters@.map_values(|f: JsonValue| f@);
    let r = logs_structured_query(filters, 100);
    proof {
        assert(fviews =~= seq![
            spec_field_filter("data.id"@, "EQUAL"@, product_id@),
            spec_field_filter("data.negozio"@, "EQUAL"@, location@),
            spec_field_filter("timestamp"@, "GREATER_THAN_OR_EQUAL"@, start_date@),
            spec_field_filter("timestamp"@, "LESS_THAN"@, end_date@ + "\u{ffff}"@),
        ]);
    }
    r
}

/// The check-request query: every request whose location list holds
/// the given location, newest first.
pub open spec fn spec_check_requests_query(location: Seq<char>) -> JsonSpec {
    JsonSpec::Object(
        seq![
            (
                "structuredQuery"@,
                JsonSpec::Object(
                    seq![
                        (
                            "from"@,
                            JsonSpec::Array(
                                seq![
                                    JsonSpec::Object(
                                        seq![("collectionId"@, JsonSpec::Str("checks"@))],
                                    ),
                                ],
                            ),
                        ),
                        (
                            "where"@,
                            spec_field_filter("location"@, "ARRAY_CONTAINS"@, location),
                        ),
                        ("orderBy"@, spec_order_by_timestamp_desc()),
                    ],
                ),
            ),
        ],
    )
}

/// Builds the check-request query.
pub fn build_check_requests_query(location: &str) -> (r: JsonValue)
    ensures
        r@ == spec_check_requests_query(location@),
{
    let mut from_items: Vec<JsonValue> = Vec::new();
    from_items.push(wrap_object("collectionId", JsonValue::string("checks")));
    let from = JsonValue::Array(from_items);
    proof {
        crate::json::lemma_json_views_map(from->Array_0@);
        assert(from->Array_0@.map_values(|x: JsonValue| spec_json_view(x)) =~= seq![
            JsonSpec::Object(seq![("collectionId"@, JsonSpec::Str("checks"@))]),
        ]);
        assert(from@ =~~= JsonSpec::Array(
            seq![JsonSpec::Object(seq![("collectionId"@, JsonSpec::Str("checks"@))])],
        ));
    }
    let ghost from_view = from@;
    let mut q = JsonObject::new();
    q.push("from", from);
    q.push("where", field_filter("location", "ARRAY_CONTAINS", location));
    q.push("orderBy", order_by_timestamp_desc());
    let ghost qv = q.fviews();
    let r = wrap_object("structuredQuery", q.build());
    proof {
        assert(qv =~~= seq![
            ("from"@, from_view),
            ("where"@, spec_field_filter("location"@, "ARRAY_CONTAINS"@, location@)),
            ("orderBy"@, spec_order_by_timestamp_desc()),
        ]);
        assert(r@ =~~= spec_check_requests_query(location@));
    }
    r
}

/// The patch document that closes or reopens a check request: the new
/// status and closing notes, the derived checked flag, and the time of
/// the check.
pub open spec fn spec_check_update_document(
    status: Seq<char>,
    closing_notes: Seq<char>,
    checked_at: Seq<char>,
) -> JsonSpec {
    JsonSpec::Object(
        seq![
            (
                "fields"@,
                JsonSpec::Object(
                    seq![
                        ("status"@, spec_sv(status)),
                        ("closing_notes"@, spec_sv(closing_notes)),
                        (
                            "checked"@,
                            JsonSpec::Object(
                                seq![("booleanValue"@, JsonSpec::Bool(status == "completed"@))],
                            ),
                        ),
                        ("checked_at"@, spec_sv(checked_at)),
                    ],
                ),
            ),
        ],
    )
}

/// Builds the patch document for a check-request update. The request
/// counts as checked exactly when the new status is `completed`.
pub fn build_check_update_document(status: &str, closing_notes: &str, checked_at: &str) -> (r:
    JsonValue)
    ensures
        r@ == spec_check_update_document(status@, closing_notes@, checked_at@),
{
    let completed = crate::text::str_eq(status, "completed");
    let mut fields = JsonObject::new();
    fields.push("status", sv(status));
    fields.push("closing_notes", sv(closing_notes));
    fields.push("checked", wrap_object("booleanValue", JsonValue::Bool(completed)));
    fields.push("checked_at", sv(checked_at));
    let ghost fv = fields.fviews();
    let r = wrap_object("fields", fields.build());
    proof {
        assert(fv =~~= seq![
            ("status"@, spec_sv(status@)),
            ("closing_notes"@, spec_sv(closing_notes@)),
            (
                "checked"@,
                JsonSpec::Object(seq![("booleanValue"@, JsonSpec::Bool(status@ == "completed"@))]),
            ),
            ("checked_at"@, spec_sv(checked_at@)),
        ]);
        assert(r@ =~~= spec_check_update_document(status@, closing_notes@, checked_at@));
    }
    r
}

/// A request that shop staff physically verify a product's stock.
#[derive(Debug, Clone)]
pub struct CheckRequest {
    pub check_all: bool,
    pub checked: bool,
    pub checked_at: Option<String>,
    pub checked_by: Option<String>,
    pub location: Vec<String>,
    pub notes: String,
    pub priority: String,
    pub product_id: i64,
    pub product_name: String,
    pub requested_by: String,
    pub status: String,
    pub timestamp: String,
    pub variant_id: Option<i64>,
    pub variant_name: Option<String>,
    pub image_url: Option<String>,
}

/// A stored check request together with its document identifier.
#[derive(Debug, Clone)]
pub struct CheckRequestWithId {
    pub id: String,
    pub check_all: bool,
    pub checked: bool,
    pub checked_at: Option<String>,
    pub checked_by: Option<String>,
    pub location: Vec<String>,
    pub notes: String,
    pub priority: String,
    pub product_id: i64,
    pub product_name: String,
    pub requested_by: String,
    pub status: String,
    pub timestamp: String,
    pub variant_id: Option<i64>,
    pub variant_name: Option<String>,
    pub closing_notes: Option<String>,
    pub image_url: Option<String>,
}

pub open spec fn spec_opt_view(o: Option<String>) -> Option<Seq<char>> {
    match o {
        Some(s) => Some(s@),
        None => None,
    }
}

/// The wire fields of a check request, in marshaling order; optional
/// fields appear only when set. The flags travel as strings, as the
/// first writer of this collection chose.
pub open spec fn spec_check_request_fields(c: CheckRequest) -> Seq<(Seq<char>, JsonSpec)> {
    seq![("check_all"@, spec_sv(crate::text::spec_bool_str(c.check_all)))]
        + seq![("checked"@, spec_sv(crate::text::spec_bool_str(c.checked)))] + (match c.checked_at {
        Some(s) => seq![("checked_at"@, spec_sv(s@))],
        None => Seq::empty(),
    }) + (match c.checked_by {
        Some(s) => seq![("checked_by"@, spec_sv(s@))],
        None => Seq::empty(),
    }) + seq![
        (
            "location"@,
            JsonSpec::Object(
                seq![
                    (
                        "arrayValue"@,
                        JsonSpec::Object(
                            seq![
                                (
                                    "values"@,
                                    JsonSpec::Array(
                                        c.location@.map_values(|s: String| s@).map_values(
                                            |s: Seq<char>| spec_sv(s),
                                        ),
                                    ),
                                ),
                            ],
                        ),
                    ),
                ],
            ),
        ),
    ] + seq![("notes"@, spec_sv(c.notes@))] + seq![("priority"@, spec_sv(c.priority@))] + seq![
        ("product_id"@, spec_iv(spec_i64_string(c.product_id as int))),
    ] + seq![("product_name"@, spec_sv(c.product_name@))] + seq![
        ("requested_by"@, spec_sv(c.requested_by@)),
    ] + seq![("status"@, spec_sv(c.status@))] + seq![("timestamp"@, spec_sv(c.timestamp@))] + (
    match c.variant_id {
        Some(n) => seq![("variant_id"@, spec_iv(spec_i64_string(n as int)))],
        None => Seq::empty(),
    }) + (match c.variant_name {
        Some(s) => seq![("variant_name"@, spec_sv(s@))],
        None => Seq::empty(),
    }) + (match c.image_url {
        Some(s) => seq![("image_url"@, spec_sv(s@))],
        None => Seq::empty(),
    })
}

/// The wire document of a check request.
pub open spec fn spec_check_request_doc_of(c: CheckRequest) -> JsonSpec {
    JsonSpec::Object(seq![("fields"@, JsonSpec::Object(spec_check_request_fields(c)))])
}

/// Marshals one check request into its wire document.
#[verifier::rlimit(60)]
pub fn check_request_to_firestore_doc(check_request: &CheckRequest) -> (r: JsonValue)
    ensures
        r@ == spec_check_request_doc_of(*check_request),
{
    let mut fields = JsonObject::new();
    fields.push("check_all", sv(crate::text::bool_str(check_request.check_all)));
    fields.push("checked", sv(crate::text::bool_str(check_request.checked)));
    match &check_request.checked_at {
        Some(s) => {
            fields.push("checked_at", sv(s.as_str()));
        },
        None => {},
    }
    match &check_request.checked_by {
        Some(s) => {
            fields.push("checked_by", sv(s.as_str()));
        },
        None => {},
    }
    fields.push(
        "location",
        wrap_object("arrayValue", wrap_object("values", string_values_array(&check_request.location))),
    );
    fields.push("notes", sv(check_request.notes.as_str()));
    fields.push("priority", sv(check_request.priority.as_str()));
    fields.push("product_id", iv_string(crate::text::i64_to_string(check_request.product_id)));
    fields.push("product_name", sv(check_request.product_name.as_str()));
    fields.push("requested_by", sv(check_request.requested_by.as_str()));
    fields.push("status", sv(check_request.status.as_str()));
    fields.push("timestamp", sv(check_request.timestamp.as_str()));
    match &check_request.variant_id {
        Some(n) => {
            fields.push("variant_id", iv_string(crate::text::i64_to_string(*n)));
        },
        None => {},
    }
    match &check_request.variant_name {
        Some(s) => {
            fields.push("variant_name", sv(s.as_str()));
        },
        None => {},
    }
    match &check_request.image_url {
        Some(s) => {
            fields.push("image_url", sv(s.as_str()));
        },
        None => {},
    }
    let ghost fv = fields.fviews();
    let r = wrap_object("fields", fields.build());
    proof {
        assert(fv =~~= spec_check_request_fields(*check_request));
        assert(r@ =~~= spec_check_request_doc_of(*check_request));
    }
    r
}

/// The wire `booleanValue` under a key, taken as false when absent or
/// malformed.
pub open spec fn spec_bool_field(fields: JsonSpec, key: Seq<char>) -> bool {
    match spec_get(fields, key) {
        Some(f) => match spec_get(f, "booleanValue"@) {
            Some(JsonSpec::Bool(b)) => b,
            _ => false,
        },
        _ => false,
    }
}

fn get_bool_field(fields: &JsonValue, key: &str) -> (r: bool)
    ensures
        r == spec_bool_field(fields@, key@),
{
    match fields.get(key) {
        Some(f) => match f.get("booleanValue") {
            Some(v) => match v.as_bool() {
                Some(b) => b,
                None => false,
            },
            None => false,
        },
        None => false,
    }
}

/// The strings among a wire string array's entries, or empty when the
/// field is absent.
pub open spec fn spec_string_array_of(fields: JsonSpec, key: Seq<char>) -> Seq<Seq<char>> {
    match spec_get(fields, key) {
        Some(f) => match spec_get(f, "arrayValue"@) {
            Some(av) => match spec_get(av, "values"@) {
                Some(JsonSpec::Array(vs)) => vs.filter_map(
                    |v: JsonSpec|
                        match spec_get(v, "stringValue"@) {
                            Some(JsonSpec::Str(s)) => Some(s),
                            _ => None,
                        },
                ),
                _ => Seq::empty(),
            },
            _ => Seq::empty(),
        },
        _ => Seq::empty(),
    }
}

fn parse_string_array(fields: &JsonValue, key: &str) -> (r: Vec<String>)
    ensures
        r@.map_values(|s: String| s@) == spec_string_array_of(fields@, key@),
{
    let mut out: Vec<String> = Vec::new();
    let arr = match fields.get(key) {
        Some(f) => match f.get("arrayValue") {
            Some(av) => match av.get("values") {
                Some(vsv) => match vsv.as_array() {
                    Some(vs) => Some(vs),
                    None => None,
                },
                None => None,
            },
            None => None,
        },
        None => None,
    };
    match arr {
        None => {
            proof {
                assert(out@.map_values(|s: String| s@) =~= spec_string_array_of(fields@, key@));
            }
            out
        },
        Some(vs) => {
            let ghost vviews = vs@.map_values(|x: JsonValue| x@);
            let ghost f = |v: JsonSpec|
                match spec_get(v, "stringValue"@) {
                    Some(JsonSpec::Str(s)) => Some(s),
                    _ => None,
                };
            let mut i: usize = 0;
            while i < vs.len()
                invariant
                    i <= vs@.len(),
                    vviews == vs@.map_values(|x: JsonValue| x@),
                    vviews.len() == vs@.len(),
                    f == (|v: JsonSpec|
                        match spec_get(v, "stringValue"@) {
                            Some(JsonSpec::Str(s)) => Some(s),
                            _ => None,
                        }),
                    out@.map_values(|s: String| s@) =~= vviews.take(i as int).filter_map(f),
                decreases vs@.len() - i,
            {
                proof {
                    assert(vviews.take(i + 1 as int).drop_last() =~= vviews.take(i as int));
                    assert(vviews.take(i + 1 as int).last() == vviews[i as int]);
                }
                match vs[i].get("stringValue") {
                    Some(v) => match v.as_str() {
                        Some(s) => {
                            out.push(String::from_str(s));
                            proof {
                                assert(out@.map_values(|s: String| s@) =~= vviews.take(
                                    i + 1 as int,
                                ).filter_map(f));
                            }
                        },
                        None => {
                            proof {
                                assert(f(vviews[i as int]) is None);
                            }
                        },
                    },
                    None => {
                        proof {
                            assert(f(vviews[i as int]) is None);
                        }
                    },
                }
                i += 1;
            }
            proof {
                assert(vviews.take(vs@.len() as int) =~= vviews);
                assert(spec_string_array_of(fields@, key@) == vviews.filter_map(f));
            }
            out
        },
    }
}

/// A stored check-request document is well formed: the required
/// strings, the product identifier, and at least one location entry.
pub open spec fn spec_check_doc_wf(doc: JsonSpec) -> bool {
    match spec_get(doc, "fields"@) {
        Some(fields) => {
            &&& spec_str_field(fields, "priority"@) is Some
            &&& spec_str_field(fields, "product_name"@) is Some
            &&& spec_str_field(fields, "requested_by"@) is Some
            &&& spec_str_field(fields, "status"@) is Some
            &&& spec_str_field(fields, "timestamp"@) is Some
            &&& (match spec_int_field(fields, "product_id"@) {
                Some(s) => spec_parse_i64(s) is Some,
                None => false,
            })
            &&& spec_string_array_of(fields, "location"@).len() > 0
        },
        None => false,
    }
}

/// The document identifier a stored document carries, or `"unknown"`.
pub open spec fn spec_doc_id_of(doc: JsonSpec) -> Seq<char> {
    match spec_get(doc, "name"@) {
        Some(JsonSpec::Str(name)) => name.skip(spec_after_last_index(name, '/')),
        _ => "unknown"@,
    }
}

fn get_optional_string(fields: &JsonValue, key: &str) -> (r: Option<String>)
    ensures
        spec_opt_view(r) == spec_str_field(fields@, key@),
{
    match get_str_field(fields, key) {
        Some(s) => Some(String::from_str(s)),
        None => None,
    }
}

fn get_optional_i64(fields: &JsonValue, key: &str) -> (r: Option<i64>)
    ensures
        match r {
            Some(n) => (spec_int_field(fields@, key@) matches Some(s) && spec_parse_i64(s)
                == Some(n as int)),
            None => (match spec_int_field(fields@, key@) {
                Some(s) => spec_parse_i64(s) is None,
                None => true,
            }),
        },
{
    match get_int_field(fields, key) {
        Some(s) => crate::text::parse_i64(s),
        None => None,
    }
}

/// Unmarshals one stored check-request document. Succeeds exactly on
/// well-formed documents; flags absent or malformed read as false,
/// notes default to empty, and the identifier is the tail of the
/// document's resource path.
pub fn parse_firestore_check_request_document(doc: &JsonValue) -> (r: Result<
    CheckRequestWithId,
    String,
>)
    ensures
        r is Ok <==> spec_check_doc_wf(doc@),
        r matches Ok(c) ==> {
            let fields = spec_get(doc@, "fields"@)->0;
            &&& c.id@ == spec_doc_id_of(doc@)
            &&& c.check_all == spec_bool_field(fields, "check_all"@)
            &&& c.checked == spec_bool_field(fields, "checked"@)
            &&& spec_opt_view(c.checked_at) == spec_str_field(fields, "checked_at"@)
            &&& spec_opt_view(c.checked_by) == spec_str_field(fields, "checked_by"@)
            &&& c.location@.map_values(|s: String| s@) == spec_string_array_of(
                fields,
                "location"@,
            )
            &&& c.notes@ == (match spec_str_field(fields, "notes"@) {
                Some(s) => s,
                None => Seq::<char>::empty(),
            })
            &&& Some(c.priority@) == spec_str_field(fields, "priority"@)
            &&& Some(c.product_id as int) == spec_parse_i64(
                spec_int_field(fields, "product_id"@)->0,
            )
            &&& Some(c.product_name@) == spec_str_field(fields, "product_name"@)
            &&& Some(c.requested_by@) == spec_str_field(fields, "requested_by"@)
            &&& Some(c.status@) == spec_str_field(fields, "status"@)
            &&& Some(c.timestamp@) == spec_str_field(fields, "timestamp"@)
            &&& spec_opt_view(c.variant_name) == spec_str_field(fields, "variant_name"@)
            &&& spec_opt_view(c.closing_notes) == spec_str_field(fields, "closing_notes"@)
            &&& spec_opt_view(c.image_url) == spec_str_field(fields, "image_url"@)
        },
{
    let fields = match doc.get("fields") {
        Some(f) => f,
        None => {
            return Err(String::from_str("Document missing fields"));
        },
    };
    let id = extract_document_id(doc);
    let check_all = get_bool_field(fields, "check_all");
    let checked = get_bool_field(fields, "checked");
    let checked_at = get_optional_string(fields, "checked_at");
    let checked_by = get_optional_string(fields, "checked_by");
    let location = parse_string_array(fields, "location");
    if location.len() == 0 {
        return Err(String::from_str("location array is empty"));
    }
    let notes = match get_str_field(fields, "notes") {
        Some(s) => String::from_str(s),
        None => String::new(),
    };
    let priority = match get_str_field(fields, "priority") {
        Some(s) => String::from_str(s),
        None => {
            return Err(String::from_str("Missing or invalid priority field"));
        },
    };
    let product_id = match get_int_field(fields, "product_id") {
        Some(s) => match crate::text::parse_i64(s) {
            Some(n) => n,
            None => {
                return Err(String::from_str("Missing or invalid product_id field"));
            },
        },
        None => {
            return Err(String::from_str("Missing or invalid product_id field"));
        },
    };
    let product_name = match get_str_field(fields, "product_name") {
        Some(s) => String::from_str(s),
        None => {
            return Err(String::from_str("Missing or invalid product_name field"));
        },
    };
    let requested_by = match get_str_field(fields, "requested_by") {
        Some(s) => String::from_str(s),
        None => {
            return Err(String::from_str("Missing or invalid requested_by field"));
        },
    };
    let status = match get_str_field(fields, "status") {
        Some(s) => String::from_str(s),
        None => {
            return Err(String::from_str("Missing or invalid status field"));
        },
    };
    let timestamp = match get_str_field(fields, "timestamp") {
        Some(s) => String::from_str(s),
        None => {
            return Err(String::from_str("Missing or invalid timestamp field"));
        },
    };
    let variant_id = get_optional_i64(fields, "variant_id");
    let variant_name = get_optional_string(fields, "variant_name");
    let closing_notes = get_optional_string(fields, "closing_notes");
    let image_url = get_optional_string(fields, "image_url");
    Ok(
        CheckRequestWithId {
            id,
            check_all,
            checked,
            checked_at,
            checked_by,
            location,
            notes,
            priority,
            product_id,
            product_name,
            requested_by,
            status,
            timestamp,
            variant_id,
            variant_name,
            closing_notes,
            image_url,
        },
    )
}

/// Whether a record passes the client-side product-name filter: no
/// filter, or the lowercase name contains the lowercase query.
pub open spec fn spec_query_matches(e: LogEntryView, q: Option<Seq<char>>) -> bool {
    match q {
        None => true,
        Some(qs) => spec_contains_seq(lower_of(e.data.nome), lower_of(qs)),
    }
}

/// The records a query response yields, in response order: each array
/// item's well-formed document that passes the name filter.
pub open spec fn spec_collected_logs(items: Seq<JsonSpec>, q: Option<Seq<char>>) -> Seq<
    LogEntryView,
> {
    items.filter_map(
        |it: JsonSpec|
            match spec_get(it, "document"@) {
                Some(d) => if spec_log_doc_wf(d) && spec_query_matches(spec_log_entry_of(d), q) {
                    Some(spec_log_entry_of(d))
                } else {
                    None
                },
                None => None,
            },
    )
}

/// Newest first: every later record's timestamp is at most every
/// earlier one's.
pub open spec fn spec_sorted_newest_first(logs: Seq<LogEntryView>) -> bool {
    forall|i: int, j: int|
        0 <= i < j < logs.len() ==> spec_lex_le(
            (#[trigger] logs[j]).timestamp,
            (#[trigger] logs[i]).timestamp,
        )
}

/// Sorts audit records newest first by timestamp, keeping exactly the
/// given records.
pub fn sort_logs_newest_first(logs: Vec<LogEntry>) -> (r: Vec<LogEntry>)
    ensures
        r@.map_values(|e: LogEntry| e@).to_multiset() == logs@.map_values(
            |e: LogEntry| e@,
        ).to_multiset(),
        spec_sorted_newest_first(r@.map_values(|e: LogEntry| e@)),
{
    broadcast use vstd::seq_lib::group_to_multiset_ensures, vstd::multiset::group_multiset_axioms;

    let ghost orig = logs@.map_values(|e: LogEntry| e@);
    let mut input = logs;
    let mut out: Vec<LogEntry> = Vec::new();
    proof {
        assert(out@.map_values(|e: LogEntry| e@).to_multiset() =~= Multiset::empty());
    }
    while input.len() > 0
        invariant
            input@.map_values(|e: LogEntry| e@).to_multiset().add(
                out@.map_values(|e: LogEntry| e@).to_multiset(),
            ) =~= orig.to_multiset(),
            spec_sorted_newest_first(out@.map_values(|e: LogEntry| e@)),
        decreases input@.len(),
    {
        let ghost in_before = input@.map_values(|e: LogEntry| e@);
        let x = match input.pop() {
            Some(x) => x,
            None => {
                proof {
                    assert(false);
                }
                continue ;
            },
        };
        proof {
            assert(in_before =~= input@.map_values(|e: LogEntry| e@).push(x@));
            vstd::seq_lib::to_multiset_build(input@.map_values(|e: LogEntry| e@), x@);
        }
        let ghost ov = out@.map_values(|e: LogEntry| e@);
        let mut p: usize = 0;
        while p < out.len() && str_lex_le(x.timestamp.as_str(), out[p].timestamp.as_str())
            invariant
                ov == out@.map_values(|e: LogEntry| e@),
                p <= out@.len(),
                forall|i: int| 0 <= i < p ==> spec_lex_le(x@.timestamp, (#[trigger] ov[i]).timestamp),
            decreases out@.len() - p,
        {
            p += 1;
        }
        let ghost stop_le = p < out@.len() ==> spec_lex_le(ov[p as int].timestamp, x@.timestamp);
        proof {
            if p < out@.len() {
                lemma_lex_le_total(x@.timestamp, ov[p as int].timestamp);
            }
        }
        out.insert(p, x);
        proof {
            let nv = out@.map_values(|e: LogEntry| e@);
            assert(nv =~= ov.take(p as int) + seq![x@] + ov.skip(p as int));
            assert(nv.to_multiset() =~= ov.to_multiset().insert(x@)) by {
                assert(nv =~= ov.insert(p as int, x@));
                assert(p <= ov.len());
                vstd::seq_lib::to_multiset_insert(ov, p as int, x@);
            }
            assert(spec_sorted_newest_first(nv)) by {
                assert forall|i: int, j: int| 0 <= i < j < nv.len() implies spec_lex_le(
                    (#[trigger] nv[j]).timestamp,
                    (#[trigger] nv[i]).timestamp,
                ) by {
                    let sorted_old = spec_sorted_newest_first(ov);
                    if j < p {
                        assert(nv[i] == ov[i] && nv[j] == ov[j]);
                    } else if j == p {
                        assert(nv[j] == x@);
                        assert(nv[i] == ov[i]);
                        assert(spec_lex_le(x@.timestamp, ov[i].timestamp));
                    } else if i < p {
                        assert(nv[i] == ov[i] && nv[j] == ov[j - 1]);
                    } else if i == p {
                        assert(nv[i] == x@ && nv[j] == ov[j - 1]);
                        assert(j - 1 >= p);
                        if j - 1 == p {
                            assert(spec_lex_le(ov[p as int].timestamp, x@.timestamp));
                        } else {
                            assert(spec_lex_le(ov[j - 1].timestamp, ov[p as int].timestamp));
                            lemma_lex_le_trans(
                                ov[j - 1].timestamp,
                                ov[p as int].timestamp,
                                x@.timestamp,
                            );
                        }
                    } else {
                        assert(nv[i] == ov[i - 1] && nv[j] == ov[j - 1]);
                    }
                }
            }
        }
    }
    proof {
        assert(input@.map_values(|e: LogEntry| e@).to_multiset() =~= Multiset::empty());
        assert(out@.map_values(|e: LogEntry| e@).to_multiset() =~= orig.to_multiset());
    }
    out
}

/// Collects the audit records out of a structured-query response:
/// unmarshals each returned document, applies the optional client-side
/// product-name filter, and orders the result newest first. Fails
/// exactly when the response is not an array.
pub fn parse_firestore_runquery_response(response: &JsonValue, query_param: &Option<String>) -> (r:
    Result<Vec<LogEntry>, String>)
    ensures
        r is Ok <==> response@ is Array,
        r matches Ok(logs) ==> {
            let collected = spec_collected_logs(
                response@->Array_0,
                match query_param {
                    Some(q) => Some(q@),
                    None => None,
                },
            );
            &&& logs@.map_values(|e: LogEntry| e@).to_multiset() == collected.to_multiset()
            &&& spec_sorted_newest_first(logs@.map_values(|e: LogEntry| e@))
        },
{
    let items = match response.as_array() {
        Some(items) => items,
        None => {
            return Err(String::from_str("Response is not an array"));
        },
    };
    let ghost iviews = items@.map_values(|x: JsonValue| x@);
    let ghost qview: Option<Seq<char>> = match query_param {
        Some(q) => Some(q@),
        None => None,
    };
    let ghost f = |it: JsonSpec|
        match spec_get(it, "document"@) {
            Some(d) => if spec_log_doc_wf(d) && spec_query_matches(spec_log_entry_of(d), qview) {
                Some(spec_log_entry_of(d))
            } else {
                None
            },
            None => None,
        };
    let lowered_query: Option<String> = match query_param {
        Some(q) => Some(lowercase(q.as_str())),
        None => None,
    };
    let mut collected: Vec<LogEntry> = Vec::new();
    let mut i: usize = 0;
    while i < items.len()
        invariant
            i <= items@.len(),
            iviews == items@.map_values(|x: JsonValue| x@),
            iviews.len() == items@.len(),
            f == (|it: JsonSpec|
                match spec_get(it, "document"@) {
                    Some(d) => if spec_log_doc_wf(d) && spec_query_matches(
                        spec_log_entry_of(d),
                        qview,
                    ) {
                        Some(spec_log_entry_of(d))
                    } else {
                        None
                    },
                    None => None,
                }),
            match (query_param, &lowered_query) {
                (Some(q), Some(lq)) => lq@ == lower_of(q@) && qview == Some(q@),
                (None, None) => qview is None,
                _ => false,
            },
            collected@.map_values(|e: LogEntry| e@) =~= iviews.take(i as int).filter_map(f),
        decreases items@.len() - i,
    {
        proof {
            assert(iviews.take(i + 1 as int).drop_last() =~= iviews.take(i as int));
            assert(iviews.take(i + 1 as int).last() == iviews[i as int]);
        }
        match items[i].get("document") {
            Some(d) => {
                match parse_firestore_document(d) {
                    Ok(entry) => {
                        let keep: bool = match &lowered_query {
                            Some(lq) => {
                                let lowered_name = lowercase(entry.data.nome.as_str());
                                str_contains(lowered_name.as_str(), lq.as_str())
                            },
                            None => true,
                        };
                        proof {
                            assert(keep == spec_query_matches(entry@, qview));
                        }
                        if keep {
                            collected.push(entry);
                            proof {
                                assert(collected@.map_values(|e: LogEntry| e@) =~= iviews.take(
                                    i + 1 as int,
                                ).filter_map(f));
                            }
                        } else {
                            proof {
                                assert(f(iviews[i as int]) is None);
                            }
                        }
                    },
                    Err(_) => {
                        proof {
                            assert(f(iviews[i as int]) is None);
                        }
                    },
                }
            },
            None => {
                proof {
                    assert(f(iviews[i as int]) is None);
                }
            },
        }
        i += 1;
    }
    proof {
        assert(iviews.take(items@.len() as int) =~= iviews);
        assert(response@ == JsonSpec::Array(iviews));
        assert(spec_collected_logs(iviews, qview) == iviews.filter_map(f));
    }
    let sorted = sort_logs_newest_first(collected);
    Ok(sorted)
}

/// One line of the modification history: when, from where, by how
/// much, and why.
#[derive(Debug, Clone)]
pub struct ModificationDetail {
    pub timestamp: String,
    pub source: String,
    pub change: i32,
    pub reason: Option<String>,
}

/// Mathematical image of a [`ModificationDetail`].
#[verifier::ext_equal]
pub ghost struct DetailView {
    pub timestamp: Seq<char>,
    pub source: Seq<char>,
    pub change: int,
    pub reason: Option<Seq<char>>,
}

impl View for ModificationDetail {
    type V = DetailView;

    open spec fn view(&self) -> DetailView {
        DetailView {
            timestamp: self.timestamp@,
            source: self.source@,
            change: self.change as int,
            reason: match self.reason {
                Some(ref s) => Some(s@),
                None => None,
            },
        }
    }
}

/// One day's worth of app-originated modifications.
#[derive(Debug, Clone)]
pub struct DailyModificationGroup {
    pub date: String,
    pub app_net_change: i32,
    pub app_details: Vec<ModificationDetail>,
}

/// Mathematical image of a [`DailyModificationGroup`].
#[verifier::ext_equal]
pub ghost struct GroupView {
    pub date: Seq<char>,
    pub app_net_change: int,
    pub app_details: Seq<DetailView>,
}

impl View for DailyModificationGroup {
    type V = GroupView;

    open spec fn view(&self) -> GroupView {
        GroupView {
            date: self.date@,
            app_net_change: self.app_net_change as int,
            app_details: self.app_details@.map_values(|d: ModificationDetail| d@),
        }
    }
}

/// The history line one audit record contributes.
pub open spec fn spec_detail_of(e: LogEntryView) -> DetailView {
    DetailView {
        timestamp: e.timestamp,
        source: "app"@,
        change: e.data.rettifica,
        reason: Some(e.request_type),
    }
}

/// The day an audit record belongs to: the date part of its RFC 3339
/// timestamp.
pub open spec fn spec_day_of(e: LogEntryView) -> Seq<char> {
    e.timestamp.take(spec_char_index(e.timestamp, 'T'))
}

/// Sum of a day's changes.
pub open spec fn spec_sum_changes(ds: Seq<DetailView>) -> int
    decreases ds.len(),
{
    if ds.len() == 0 {
        0
    } else {
        spec_sum_changes(ds.drop_last()) + ds.last().change
    }
}

/// The history lines of the records that fall on one day, in record
/// order.
pub open spec fn spec_day_details(logs: Seq<LogEntryView>, day: Seq<char>) -> Seq<DetailView> {
    logs.filter_map(
        |e: LogEntryView|
            if spec_day_of(e) == day {
                Some(spec_detail_of(e))
            } else {
                None
            },
    )
}

fn details_for_day(logs: &Vec<LogEntry>, day: &str) -> (r: (Vec<ModificationDetail>, i32))
    ensures
        r.0@.map_values(|d: ModificationDetail| d@) == spec_day_details(
            logs@.map_values(|e: LogEntry| e@),
            day@,
        ),
        r.1 == spec_clamp_i32(
            spec_sum_changes(spec_day_details(logs@.map_values(|e: LogEntry| e@), day@)),
        ),
{
    let ghost lviews = logs@.map_values(|e: LogEntry| e@);
    let ghost f = |e: LogEntryView|
        if spec_day_of(e) == day@ {
            Some(spec_detail_of(e))
        } else {
            None
        };
    let mut details: Vec<ModificationDetail> = Vec::new();
    let mut sum: i128 = 0;
    let mut i: usize = 0;
    while i < logs.len()
        invariant
            i <= logs@.len(),
            lviews == logs@.map_values(|e: LogEntry| e@),
            lviews.len() == logs@.len(),
            f == (|e: LogEntryView|
                if spec_day_of(e) == day@ {
                    Some(spec_detail_of(e))
                } else {
                    None
                }),
            details@.map_values(|d: ModificationDetail| d@) =~= lviews.take(i as int).filter_map(
                f,
            ),
            sum == spec_sum_changes(lviews.take(i as int).filter_map(f)),
            -0x8000_0000i128 * (i as i128) <= sum <= 0x8000_0000i128 * (i as i128),
        decreases logs@.len() - i,
    {
        proof {
            assert(lviews.take(i + 1 as int).drop_last() =~= lviews.take(i as int));
            assert(lviews.take(i + 1 as int).last() == lviews[i as int]);
            assert(-0x8000_0000i128 * ((i + 1) as i128) <= sum - 0x8000_0000
                && sum + 0x8000_0000 <= 0x8000_0000i128 * ((i + 1) as i128)) by (nonlinear_arith)
                requires
                    -0x8000_0000i128 * (i as i128) <= sum <= 0x8000_0000i128 * (i as i128),
            ;
        }
        let entry = &logs[i];
        let log_day = prefix_before_char(entry.timestamp.as_str(), 'T');
        if str_eq(log_day.as_str(), day) {
            let detail = ModificationDetail {
                timestamp: entry.timestamp.clone(),
                source: String::from_str("app"),
                change: entry.data.rettifica,
                reason: Some(entry.request_type.clone()),
            };
            proof {
                assert(detail@ == spec_detail_of(lviews[i as int]));
            }
            details.push(detail);
            sum = sum + (entry.data.rettifica as i128);
            proof {
                assert(details@.map_values(|d: ModificationDetail| d@) =~= lviews.take(
                    i + 1 as int,
                ).filter_map(f));
                let nd = lviews.take(i + 1 as int).filter_map(f);
                assert(nd.drop_last() =~= lviews.take(i as int).filter_map(f));
                assert(nd.last() == spec_detail_of(lviews[i as int]));
                assert(spec_sum_changes(nd) == spec_sum_changes(nd.drop_last())
                    + nd.last().change);
            }
        } else {
            proof {
                assert(f(lviews[i as int]) is None);
            }
        }
        i += 1;
    }
    proof {
        assert(lviews.take(logs@.len() as int) =~= lviews);
    }
    let net: i32 = if sum > 0x7fff_ffffi128 {
        0x7fff_ffffi32
    } else if sum < -0x8000_0000i128 {
        -0x8000_0000i32
    } else {
        sum as i32
    };
    (details, net)
}

/// A day list ordered newest first.
pub open spec fn spec_days_newest_first(ds: Seq<Seq<char>>) -> bool {
    forall|i: int, j: int|
        0 <= i < j < ds.len() ==> spec_lex_le(#[trigger] ds[j], #[trigger] ds[i])
}

/// Sorts a list of distinct day strings newest first.
fn sort_days_newest_first(days: Vec<String>) -> (r: Vec<String>)
    ensures
        r@.map_values(|s: String| s@).to_multiset() == days@.map_values(
            |s: String| s@,
        ).to_multiset(),
        spec_days_newest_first(r@.map_values(|s: String| s@)),
{
    broadcast use vstd::seq_lib::group_to_multiset_ensures, vstd::multiset::group_multiset_axioms;

    let ghost orig = days@.map_values(|s: String| s@);
    let mut input = days;
    let mut out: Vec<String> = Vec::new();
    proof {
        assert(out@.map_values(|s: String| s@).to_multiset() =~= Multiset::empty());
    }
    while input.len() > 0
        invariant
            input@.map_values(|s: String| s@).to_multiset().add(
                out@.map_values(|s: String| s@).to_multiset(),
            ) =~= orig.to_multiset(),
            spec_days_newest_first(out@.map_values(|s: String| s@)),
        decreases input@.len(),
    {
        let ghost in_before = input@.map_values(|s: String| s@);
        let x = match input.pop() {
            Some(x) => x,
            None => {
                proof {
                    assert(false);
                }
                continue ;
            },
        };
        proof {
            assert(in_before =~= input@.map_values(|s: String| s@).push(x@));
            vstd::seq_lib::to_multiset_build(input@.map_values(|s: String| s@), x@);
        }
        let ghost ov = out@.map_values(|s: String| s@);
        let mut p: usize = 0;
        while p < out.len() && str_lex_le(x.as_str(), out[p].as_str())
            invariant
                ov == out@.map_values(|s: String| s@),
                p <= out@.len(),
                forall|i: int| 0 <= i < p ==> spec_lex_le(x@, #[trigger] ov[i]),
            decreases out@.len() - p,
        {
            p += 1;
        }
        proof {
            if p < out@.len() {
                lemma_lex_le_total(x@, ov[p as int]);
            }
        }
        out.insert(p, x);
        proof {
            let nv = out@.map_values(|s: String| s@);
            assert(nv =~= ov.take(p as int) + seq![x@] + ov.skip(p as int));
            assert(nv.to_multiset() =~= ov.to_multiset().insert(x@)) by {
                assert(nv =~= ov.insert(p as int, x@));
                assert(p <= ov.len());
                vstd::seq_lib::to_multiset_insert(ov, p as int, x@);
            }
            assert forall|i: int, j: int| 0 <= i < j < nv.len() implies spec_lex_le(
                #[trigger] nv[j],
                #[trigger] nv[i],
            ) by {
                if j < p {
                } else if j == p {
                    assert(nv[j] == x@ && nv[i] == ov[i]);
                } else if i < p {
                    assert(nv[i] == ov[i] && nv[j] == ov[j - 1]);
                } else if i == p {
                    assert(nv[i] == x@ && nv[j] == ov[j - 1]);
                    if j - 1 > p {
                        lemma_lex_le_trans(ov[j - 1], ov[p as int], x@);
                    }
                } else {
                    assert(nv[i] == ov[i - 1] && nv[j] == ov[j - 1]);
                }
            }
        }
    }
    proof {
        assert(input@.map_values(|s: String| s@).to_multiset() =~= Multiset::empty());
        assert(out@.map_values(|s: String| s@).to_multiset() =~= orig.to_multiset());
    }
    out
}

/// Some group of the list carries the given day.
pub open spec fn spec_has_group_for(gs: Seq<GroupView>, day: Seq<char>) -> bool {
    exists|k: int| 0 <= k < gs.len() && (#[trigger] gs[k]).date == day
}

/// Groups a variant's audit records by calendar day, most recent day
/// first. Every record lands in the group of its timestamp's date;
/// each group carries the day's lines in record order and their net
/// change, squeezed into the 32-bit range.
pub fn group_modifications_by_date(logs: &Vec<LogEntry>) -> (r: Vec<DailyModificationGroup>)
    ensures
        forall|k: int|
            0 <= k < r@.len() ==> (#[trigger] r@[k])@.app_details == spec_day_details(
                logs@.map_values(|e: LogEntry| e@),
                r@[k]@.date,
            ),
        forall|k: int|
            0 <= k < r@.len() ==> (#[trigger] r@[k])@.app_net_change == spec_clamp_i32(
                spec_sum_changes(
                    spec_day_details(logs@.map_values(|e: LogEntry| e@), r@[k]@.date),
                ),
            ),
        forall|i: int|
            0 <= i < logs@.len() ==> spec_has_group_for(
                r@.map_values(|g: DailyModificationGroup| g@),
                spec_day_of((#[trigger] logs@[i])@),
            ),
        forall|i: int, j: int|
            0 <= i < j < r@.len() ==> spec_lex_le((#[trigger] r@[j])@.date, (#[trigger] r@[i])@.date)
                && r@[i]@.date != r@[j]@.date,
{
    let ghost lviews = logs@.map_values(|e: LogEntry| e@);
    // Collect the distinct days, in first-seen order.
    let mut days: Vec<String> = Vec::new();
    let mut i: usize = 0;
    while i < logs.len()
        invariant
            i <= logs@.len(),
            lviews == logs@.map_values(|e: LogEntry| e@),
            lviews.len() == logs@.len(),
            forall|a: int, b: int|
                0 <= a < b < days@.len() ==> (#[trigger] days@[a])@ != (#[trigger] days@[b])@,
            forall|t: int|
                0 <= t < i ==> exists|w: int|
                    0 <= w < days@.len() && (#[trigger] days@[w])@ == spec_day_of(
                        #[trigger] lviews[t],
                    ),
        decreases logs@.len() - i,
    {
        let entry = &logs[i];
        let day = prefix_before_char(entry.timestamp.as_str(), 'T');
        proof {
            assert(day@ == spec_day_of(lviews[i as int]));
        }
        let mut found = false;
        let mut k: usize = 0;
        while k < days.len()
            invariant
                k <= days@.len(),
                !found ==> forall|a: int| 0 <= a < k ==> (#[trigger] days@[a])@ != day@,
                found ==> exists|w: int| 0 <= w < days@.len() && (#[trigger] days@[w])@ == day@,
            decreases days@.len() - k,
        {
            if str_eq(days[k].as_str(), day.as_str()) {
                proof {
                    assert((days@[k as int])@ == day@);
                }
                found = true;
                k = days.len();
            } else {
                k += 1;
            }
        }
        if !found {
            let ghost before = days@;
            days.push(day);
            proof {
                assert(days@ =~= before.push(days@.last()));
                assert((days@[days@.len() - 1])@ == spec_day_of(lviews[i as int]));
                assert forall|t: int| 0 <= t < i + 1 implies exists|w: int|
                    0 <= w < days@.len() && (#[trigger] days@[w])@ == spec_day_of(
                    #[trigger] lviews[t],
                ) by {
                    if t < i {
                        let w = choose|w: int|
                            0 <= w < before.len() && (#[trigger] before[w])@ == spec_day_of(
                                lviews[t],
                            );
                        assert((days@[w])@ == spec_day_of(lviews[t]));
                    } else {
                        assert((days@[days@.len() - 1])@ == spec_day_of(lviews[t]));
                    }
                }
            }
        } else {
            proof {
                assert forall|t: int| 0 <= t < i + 1 implies exists|w: int|
                    0 <= w < days@.len() && (#[trigger] days@[w])@ == spec_day_of(
                    #[trigger] lviews[t],
                ) by {
                    if t == i {
                        let w = choose|w: int|
                            0 <= w < days@.len() && (#[trigger] days@[w])@ == day@;
                        assert((days@[w])@ == spec_day_of(lviews[t]));
                    }
                }
            }
        }
        i += 1;
    }
    // Order the days, newest first.
    let ghost raw_days = days@;
    let ghost unsorted_days = days@.map_values(|s: String| s@);
    proof {
        assert forall|a: int, b: int|
            0 <= a < b < unsorted_days.len() implies (#[trigger] unsorted_days[a])
            != (#[trigger] unsorted_days[b]) by {
            assert((days@[a])@ != (days@[b])@);
        }
    }
    let days = sort_days_newest_first(days);
    let ghost sorted_days = days@.map_values(|s: String| s@);
    proof {
        broadcast use vstd::seq_lib::group_to_multiset_ensures;

        assert forall|t: int| 0 <= t < lviews.len() implies sorted_days.contains(
            spec_day_of(#[trigger] lviews[t]),
        ) by {
            let w0 = choose|w0: int|
                0 <= w0 < raw_days.len() && (#[trigger] raw_days[w0])@ == spec_day_of(lviews[t]);
            assert(unsorted_days[w0] == spec_day_of(lviews[t]));
            assert(unsorted_days.contains(spec_day_of(lviews[t])));
            assert(unsorted_days.to_multiset().count(spec_day_of(lviews[t])) > 0);
            assert(sorted_days.to_multiset().count(spec_day_of(lviews[t])) > 0);
        }
        assert forall|a: int, b: int|
            0 <= a < b < sorted_days.len() implies (#[trigger] sorted_days[a])
            != (#[trigger] sorted_days[b]) by {
            if sorted_days[a] == sorted_days[b] {
                assert(unsorted_days.no_duplicates());
                unsorted_days.lemma_multiset_has_no_duplicates();
                assert(sorted_days.to_multiset().count(sorted_days[a]) >= 2) by {
                    assert(sorted_days.remove(a).to_multiset() =~= sorted_days.to_multiset().remove(
                        sorted_days[a],
                    ));
                    assert(sorted_days.remove(a)[b - 1] == sorted_days[b]);
                    assert(sorted_days.remove(a).to_multiset().count(sorted_days[b]) > 0) by {
                        assert(sorted_days.remove(a).contains(sorted_days[b]));
                    }
                }
                assert(unsorted_days.to_multiset().count(sorted_days[a]) >= 2);
                assert(false);
            }
        }
    }
    // Build one group per day.
    let mut groups: Vec<DailyModificationGroup> = Vec::new();
    let mut k: usize = 0;
    while k < days.len()
        invariant
            k <= days@.len(),
            lviews == logs@.map_values(|e: LogEntry| e@),
            lviews.len() == logs@.len(),
            sorted_days == days@.map_values(|s: String| s@),
            sorted_days.len() == days@.len(),
            groups@.len() == k,
            forall|t: int|
                0 <= t < k ==> ((#[trigger] groups@[t])@.date == sorted_days[t]
                    && groups@[t]@.app_details == spec_day_details(lviews, sorted_days[t])
                    && groups@[t]@.app_net_change == spec_clamp_i32(
                    spec_sum_changes(spec_day_details(lviews, sorted_days[t])),
                )),
            forall|t: int|
                0 <= t < lviews.len() ==> sorted_days.contains(spec_day_of(#[trigger] lviews[t])),
            forall|a: int, b: int|
                0 <= a < b < sorted_days.len() ==> (#[trigger] sorted_days[a])
                    != (#[trigger] sorted_days[b]),
            spec_days_newest_first(sorted_days),
        decreases days@.len() - k,
    {
        let (details, net) = details_for_day(logs, days[k].as_str());
        let group = DailyModificationGroup {
            date: days[k].clone(),
            app_net_change: net,
            app_details: details,
        };
        proof {
            assert(group@.date == sorted_days[k as int]);
        }
        groups.push(group);
        k += 1;
    }
    proof {
        let gviews = groups@.map_values(|g: DailyModificationGroup| g@);
        assert forall|t: int| 0 <= t < logs@.len() implies spec_has_group_for(
            gviews,
            spec_day_of((#[trigger] logs@[t])@),
        ) by {
            assert(lviews[t] == logs@[t]@);
            assert(sorted_days.contains(spec_day_of(lviews[t])));
            let w = choose|w: int|
                0 <= w < sorted_days.len() && #[trigger] sorted_days[w] == spec_day_of(lviews[t]);
            assert(gviews[w] == (groups@[w])@);
            assert(gviews[w].date == spec_day_of(lviews[t]));
        }
    }
    groups
}

/// The period a history report covers.
#[derive(Debug, Clone)]
pub struct DateRange {
    pub start_date: String,
    pub end_date: String,
    pub days_back: i32,
}

/// The modification history of one variant: its net app-originated
/// change over the period, its current stock, and the daily breakdown.
#[derive(Debug, Clone)]
pub struct VariantModificationHistory {
    pub variant_title: String,
    pub inventory_item_id: String,
    pub app_net_change: i32,
    pub current_quantity: i32,
    pub daily_modifications: Vec<DailyModificationGroup>,
}

/// The modification history of one product at one shop.
#[derive(Debug, Clone)]
pub struct ProductModificationHistory {
    pub product_id: String,
    pub location: String,
    pub date_range: DateRange,
    pub variants: Vec<VariantModificationHistory>,
}

/// The audit records of one variant: those whose payload names its
/// title.
pub open spec fn spec_variant_logs(logs: Seq<LogEntryView>, title: Seq<char>) -> Seq<
    LogEntryView,
> {
    logs.filter(|e: LogEntryView| e.data.variant == title)
}

/// Net change a list of records reports.
pub open spec fn spec_sum_rettifica(logs: Seq<LogEntryView>) -> int
    decreases logs.len(),
{
    if logs.len() == 0 {
        0
    } else {
        spec_sum_rettifica(logs.drop_last()) + logs.last().data.rettifica
    }
}

fn filter_logs_by_variant(logs: &Vec<LogEntry>, title: &str) -> (r: Vec<LogEntry>)
    ensures
        r@.map_values(|e: LogEntry| e@) == spec_variant_logs(
            logs@.map_values(|e: LogEntry| e@),
            title@,
        ),
{
    broadcast use vstd::seq_lib::group_filter_ensures;

    let ghost lviews = logs@.map_values(|e: LogEntry| e@);
    let ghost f = |e: LogEntryView| e.data.variant == title@;
    let mut out: Vec<LogEntry> = Vec::new();
    let mut i: usize = 0;
    proof {
        reveal(Seq::filter);
    }
    while i < logs.len()
        invariant
            i <= logs@.len(),
            lviews == logs@.map_values(|e: LogEntry| e@),
            lviews.len() == logs@.len(),
            f == (|e: LogEntryView| e.data.variant == title@),
            out@.map_values(|e: LogEntry| e@) =~= lviews.take(i as int).filter(f),
        decreases logs@.len() - i,
    {
        proof {
            reveal(Seq::filter);
            assert(lviews.take(i + 1 as int).drop_last() =~= lviews.take(i as int));
            assert(lviews.take(i + 1 as int).last() == lviews[i as int]);
        }
        if str_eq(logs[i].data.variant.as_str(), title) {
            let e = &logs[i];
            let copy = LogEntry {
                request_type: e.request_type.clone(),
                data: LogData {
                    id: e.data.id.clone(),
                    variant: e.data.variant.clone(),
                    negozio: e.data.negozio.clone(),
                    inventory_item_id: e.data.inventory_item_id.clone(),
                    nome: e.data.nome.clone(),
                    prezzo: e.data.prezzo.clone(),
                    rettifica: e.data.rettifica,
                    images: clone_strings(&e.data.images),
                },
                timestamp: e.timestamp.clone(),
            };
            proof {
                assert(copy@ =~~= lviews[i as int]);
            }
            out.push(copy);
            proof {
                assert(out@.map_values(|e: LogEntry| e@) =~= lviews.take(i + 1 as int).filter(f));
            }
        } else {
            proof {
                assert(!f(lviews[i as int]));
            }
        }
        i += 1;
    }
    proof {
        assert(lviews.take(logs@.len() as int) =~= lviews);
    }
    out
}

fn clone_strings(v: &Vec<String>) -> (r: Vec<String>)
    ensures
        r@.map_values(|s: String| s@) == v@.map_values(|s: String| s@),
{
    let mut out: Vec<String> = Vec::new();
    let mut i: usize = 0;
    while i < v.len()
        invariant
            i <= v@.len(),
            out@.map_values(|s: String| s@) =~= v@.map_values(|s: String| s@).take(i as int),
        decreases v@.len() - i,
    {
        let ghost prev = out@.map_values(|s: String| s@);
        out.push(v[i].clone());
        proof {
            assert(out@.map_values(|s: String| s@) =~= prev.push(v@[i as int]@));
            assert(v@.map_values(|s: String| s@).take(i + 1 as int) =~= v@.map_values(
                |s: String| s@,
            ).take(i as int).push(v@[i as int]@));
            assert(out@.map_values(|s: String| s@) =~= v@.map_values(|s: String| s@).take(
                i + 1 as int,
            ));
        }
        i += 1;
    }
    proof {
        assert(v@.map_values(|s: String| s@).take(v@.len() as int) =~= v@.map_values(
            |s: String| s@,
        ));
    }
    out
}

fn sum_rettifica_clamped(logs: &Vec<LogEntry>) -> (r: i32)
    ensures
        r == spec_clamp_i32(spec_sum_rettifica(logs@.map_values(|e: LogEntry| e@))),
{
    let ghost lviews = logs@.map_values(|e: LogEntry| e@);
    let mut sum: i128 = 0;
    let mut i: usize = 0;
    while i < logs.len()
        invariant
            i <= logs@.len(),
            lviews == logs@.map_values(|e: LogEntry| e@),
            lviews.len() == logs@.len(),
            sum == spec_sum_rettifica(lviews.take(i as int)),
            -0x8000_0000i128 * (i as i128) <= sum <= 0x8000_0000i128 * (i as i128),
        decreases logs@.len() - i,
    {
        proof {
            assert(lviews.take(i + 1 as int).drop_last() =~= lviews.take(i as int));
            assert(lviews.take(i + 1 as int).last() == lviews[i as int]);
            assert(-0x8000_0000i128 * ((i + 1) as i128) <= sum - 0x8000_0000 && sum + 0x8000_0000
                <= 0x8000_0000i128 * ((i + 1) as i128)) by (nonlinear_arith)
                requires
                    -0x8000_0000i128 * (i as i128) <= sum <= 0x8000_0000i128 * (i as i128),
            ;
        }
        sum = sum + (logs[i].data.rettifica as i128);
        i += 1;
    }
    proof {
        assert(lviews.take(logs@.len() as int) =~= lviews);
    }
    if sum > 0x7fff_ffffi128 {
        0x7fff_ffffi32
    } else if sum < -0x8000_0000i128 {
        -0x8000_0000i32
    } else {
        sum as i32
    }
}

/// The per-day properties every built history satisfies, stated over
/// the variant's own records.
pub open spec fn spec_daily_groups_ok(
    groups: Seq<GroupView>,
    vlogs: Seq<LogEntryView>,
) -> bool {
    &&& forall|k: int|
        0 <= k < groups.len() ==> (#[trigger] groups[k]).app_details == spec_day_details(
            vlogs,
            groups[k].date,
        )
    &&& forall|k: int|
        0 <= k < groups.len() ==> (#[trigger] groups[k]).app_net_change == spec_clamp_i32(
            spec_sum_changes(spec_day_details(vlogs, groups[k].date)),
        )
    &&& forall|i: int|
        0 <= i < vlogs.len() ==> spec_has_group_for(groups, spec_day_of(#[trigger] vlogs[i]))
    &&& forall|i: int, j: int|
        0 <= i < j < groups.len() ==> spec_lex_le(
            (#[trigger] groups[j]).date,
            (#[trigger] groups[i]).date,
        ) && groups[i].date != groups[j].date
}

/// Builds one variant's modification history out of the product's
/// records: only the records naming the variant count, their net
/// change is squeezed into 32 bits, and the daily breakdown groups
/// them by calendar day, newest day first.
pub fn build_variant_modification_history(
    variant_title: &String,
    inventory_item_id: &String,
    logs: &Vec<LogEntry>,
    current_quantity: i32,
) -> (r: VariantModificationHistory)
    ensures
        r.variant_title == variant_title,
        r.inventory_item_id == inventory_item_id,
        r.current_quantity == current_quantity,
        r.app_net_change == spec_clamp_i32(
            spec_sum_rettifica(
                spec_variant_logs(logs@.map_values(|e: LogEntry| e@), variant_title@),
            ),
        ),
        spec_daily_groups_ok(
            r.daily_modifications@.map_values(|g: DailyModificationGroup| g@),
            spec_variant_logs(logs@.map_values(|e: LogEntry| e@), variant_title@),
        ),
{
    let variant_logs = filter_logs_by_variant(logs, variant_title.as_str());
    let app_net_change = sum_rettifica_clamped(&variant_logs);
    let daily_modifications = group_modifications_by_date(&variant_logs);
    proof {
        let gviews = daily_modifications@.map_values(|g: DailyModificationGroup| g@);
        let vlogs = spec_variant_logs(logs@.map_values(|e: LogEntry| e@), variant_title@);
        assert forall|k: int| 0 <= k < gviews.len() implies (#[trigger] gviews[k]).app_details
            == spec_day_details(vlogs, gviews[k].date) by {
            assert(gviews[k] == daily_modifications@[k]@);
        }
        assert forall|i: int| 0 <= i < vlogs.len() implies spec_has_group_for(
            gviews,
            spec_day_of(#[trigger] vlogs[i]),
        ) by {
            assert(variant_logs@.map_values(|e: LogEntry| e@)[i] == vlogs[i]);
            assert(variant_logs@[i]@ == vlogs[i]);
        }
    }
    VariantModificationHistory {
        variant_title: variant_title.clone(),
        inventory_item_id: inventory_item_id.clone(),
        app_net_change,
        current_quantity,
        daily_modifications,
    }
}

} // verus!
