use vstd::prelude::*;

use crate::archive::{extraction, get_file_content, metadata_path, ArchiveError};

verus! {

#[verifier::external_type_specification]
#[verifier::external_body]
pub struct ExJsonValue(serde_json::Value);

#[verifier::external_type_specification]
#[verifier::external_body]
pub struct ExJsonError(serde_json::Error);

/// The JSON document that `bytes` parse to, if they parse.
pub uninterp spec fn json_doc(bytes: Seq<u8>) -> Option<serde_json::Value>;

/// The member of a JSON object by name; none where `v` is no object or has
/// no such member.
pub uninterp spec fn json_member(v: serde_json::Value, key: Seq<char>) -> Option<serde_json::Value>;

/// Whether a JSON value is null.
pub uninterp spec fn json_is_null(v: serde_json::Value) -> bool;

/// The text of a JSON string; none for any other value.
pub uninterp spec fn json_text(v: serde_json::Value) -> Option<Seq<char>>;

/// A JSON integer that fits in `i64`; none for any other value.
pub uninterp spec fn json_i64(v: serde_json::Value) -> Option<i64>;

/// Relies on `serde_json::from_slice`: parses a JSON document.
#[verifier::external_body]
fn parse_json(bytes: &[u8]) -> (r: Result<serde_json::Value, serde_json::Error>)
    ensures
        r is Ok <==> json_doc(bytes@) is Some,
        r matches Ok(v) ==> v == json_doc(bytes@)->Some_0,
{
    serde_json::from_slice(bytes)
}

/// Relies on serde_json's `Value::get` with a string key: the member of an
/// object by that name, none for anything else.
#[verifier::external_body]
fn member<'v>(record: &'v serde_json::Value, key: &str) -> (r: Option<&'v serde_json::Value>)
    ensures
        r is Some <==> json_member(*record, key@) is Some,
        r matches Some(m) ==> *m == json_member(*record, key@)->Some_0,
{
    record.get(key)
}

/// Relies on serde_json's `Value::is_null`.
pub assume_specification[ serde_json::Value::is_null ](v: &serde_json::Value) -> (r: bool)
    ensures
        r == json_is_null(*v),
;

/// Relies on serde_json's `Value::as_str`: the text of a JSON string.
pub assume_specification<'v>[ serde_json::Value::as_str ](v: &'v serde_json::Value) -> (r: Option<&'v str>)
    ensures
        r is Some <==> json_text(*v) is Some,
        r matches Some(s) ==> s@ == json_text(*v)->Some_0,
;

/// Relies on serde_json's `Value::as_i64`: a JSON integer that fits in `i64`.
pub assume_specification[ serde_json::Value::as_i64 ](v: &serde_json::Value) -> (r: Option<i64>)
    ensures
        r == json_i64(*v),
;

/// One field of a metadata record as found in its text.
#[derive(Debug)]
pub enum RawField<T> {
    Absent,
    Null,
    Present(T),
    Mistyped,
}

/// The fields of a metadata record before the format's defaults apply.
pub struct RawMetadata {
    pub author: RawField<String>,
    pub timestamp: RawField<i64>,
    pub timestamp_human: RawField<String>,
    pub comment: RawField<String>,
    pub tool_version: RawField<String>,
    pub format_version: RawField<String>,
}

/// The metadata record of a snapshot.
#[derive(Debug)]
pub struct VeghMetadata {
    pub author: String,
    pub timestamp: i64,
    pub timestamp_human: Option<String>,
    pub comment: String,
    pub tool_version: String,
    pub format_version: String,
}

/// The format version of a record written before the field existed.
pub open spec fn oldest_format_version() -> Seq<char> {
    seq!['1']
}

pub fn default_format_version() -> (r: String)
    ensures
        r@ == oldest_format_version(),
{
    let v = "1".to_owned();
    proof {
        reveal_strlit("1");
        assert(v@ =~= oldest_format_version());
    }
    v
}

/// The fields of a record, their text seen as character sequences: author,
/// timestamp, readable timestamp, comment, tool version, format version.
pub type FieldsModel = (
    RawField<Seq<char>>,
    RawField<i64>,
    RawField<Seq<char>>,
    RawField<Seq<char>>,
    RawField<Seq<char>>,
    RawField<Seq<char>>,
);

pub open spec fn text_view(f: RawField<String>) -> RawField<Seq<char>> {
    match f {
        RawField::Absent => RawField::Absent,
        RawField::Null => RawField::Null,
        RawField::Present(s) => RawField::Present(s@),
        RawField::Mistyped => RawField::Mistyped,
    }
}

pub open spec fn raw_fields(raw: RawMetadata) -> FieldsModel {
    (
        text_view(raw.author),
        raw.timestamp,
        text_view(raw.timestamp_human),
        text_view(raw.comment),
        text_view(raw.tool_version),
        text_view(raw.format_version),
    )
}

/// Whether every field is acceptable: the four structural fields are present
/// with the right type, the readable timestamp is absent, null or a string,
/// and the format version is absent or a string.
pub open spec fn raw_is_valid(f: FieldsModel) -> bool {
    f.0 is Present && f.1 is Present && f.3 is Present && f.4 is Present && !(f.2 is Mistyped) && (
    f.5 is Absent || f.5 is Present)
}

/// The record that valid fields resolve to.
pub open spec fn resolves_to(f: FieldsModel, m: VeghMetadata) -> bool {
    &&& m.author@ == f.0->Present_0
    &&& m.timestamp == f.1->Present_0
    &&& m.comment@ == f.3->Present_0
    &&& m.tool_version@ == f.4->Present_0
    &&& (match f.2 {
        RawField::Present(s) => m.timestamp_human matches Some(t) && t@ == s,
        _ => m.timestamp_human is None,
    })
    &&& m.format_version@ == (match f.5 {
        RawField::Present(s) => s,
        _ => oldest_format_version(),
    })
}

/// A text field of a JSON object as found: absent, null, a string or else.
pub open spec fn text_field_of(doc: serde_json::Value, key: Seq<char>) -> RawField<Seq<char>> {
    match json_member(doc, key) {
        None => RawField::Absent,
        Some(v) => if json_is_null(v) {
            RawField::Null
        } else {
            match json_text(v) {
                Some(s) => RawField::Present(s),
                None => RawField::Mistyped,
            }
        },
    }
}

/// An integer field of a JSON object as found.
pub open spec fn integer_field_of(doc: serde_json::Value, key: Seq<char>) -> RawField<i64> {
    match json_member(doc, key) {
        None => RawField::Absent,
        Some(v) => if json_is_null(v) {
            RawField::Null
        } else {
            match json_i64(v) {
                Some(t) => RawField::Present(t),
                None => RawField::Mistyped,
            }
        },
    }
}

/// The fields of the metadata record held in a parsed JSON document.
pub open spec fn fields_of(doc: serde_json::Value) -> FieldsModel {
    (
        text_field_of(doc, "author"@),
        integer_field_of(doc, "timestamp"@),
        text_field_of(doc, "timestamp_human"@),
        text_field_of(doc, "comment"@),
        text_field_of(doc, "tool_version"@),
        text_field_of(doc, "format_version"@),
    )
}

/// Whether `bytes` hold a metadata record: they parse as JSON and their
/// fields are valid.
pub open spec fn holds_metadata(bytes: Seq<u8>) -> bool {
    json_doc(bytes) is Some && raw_is_valid(fields_of(json_doc(bytes)->Some_0))
}

/// Applies the format's defaults to the fields of a record: an absent or
/// null readable timestamp is unset, an absent format version is the oldest.
pub fn resolve_metadata(raw: RawMetadata) -> (r: Result<VeghMetadata, ArchiveError>)
    ensures
        r is Ok <==> raw_is_valid(raw_fields(raw)),
        r matches Ok(m) ==> resolves_to(raw_fields(raw), m),
        r matches Err(e) ==> e == ArchiveError::Parse,
{
    let RawMetadata { author, timestamp, timestamp_human, comment, tool_version, format_version } =
        raw;
    let author = match author {
        RawField::Present(s) => s,
        _ => {
            return Err(ArchiveError::Parse);
        },
    };
    let timestamp = match timestamp {
        RawField::Present(t) => t,
        _ => {
            return Err(ArchiveError::Parse);
        },
    };
    let comment = match comment {
        RawField::Present(s) => s,
        _ => {
            return Err(ArchiveError::Parse);
        },
    };
    let tool_version = match tool_version {
        RawField::Present(s) => s,
        _ => {
            return Err(ArchiveError::Parse);
        },
    };
    let timestamp_human = match timestamp_human {
        RawField::Present(s) => Some(s),
        RawField::Mistyped => {
            return Err(ArchiveError::Parse);
        },
        _ => None,
    };
    let format_version = match format_version {
        RawField::Present(s) => s,
        RawField::Absent => default_format_version(),
        _ => {
            return Err(ArchiveError::Parse);
        },
    };
    Ok(VeghMetadata { author, timestamp, timestamp_human, comment, tool_version, format_version })
}

fn text_field(record: &serde_json::Value, key: &str) -> (r: RawField<String>)
    ensures
        text_view(r) == text_field_of(*record, key@),
{
    match member(record, key) {
        None => RawField::Absent,
        Some(v) => {
            if v.is_null() {
                RawField::Null
            } else {
                match v.as_str() {
                    Some(s) => RawField::Present(s.to_owned()),
                    None => RawField::Mistyped,
                }
            }
        },
    }
}

fn integer_field(record: &serde_json::Value, key: &str) -> (r: RawField<i64>)
    ensures
        r == integer_field_of(*record, key@),
{
    match member(record, key) {
        None => RawField::Absent,
        Some(v) => {
            if v.is_null() {
                RawField::Null
            } else {
                match v.as_i64() {
                    Some(t) => RawField::Present(t),
                    None => RawField::Mistyped,
                }
            }
        },
    }
}

/// Decodes the text of a metadata entry into a record.
pub fn parse_metadata(bytes: &[u8]) -> (r: Result<VeghMetadata, ArchiveError>)
    ensures
        r is Ok <==> holds_metadata(bytes@),
        r matches Ok(m) ==> resolves_to(fields_of(json_doc(bytes@)->Some_0), m),
        r matches Err(e) ==> e == ArchiveError::Parse,
{
    let record = match parse_json(bytes) {
        Ok(v) => v,
        Err(_) => {
            return Err(ArchiveError::Parse);
        },
    };
    let raw = RawMetadata {
        author: text_field(&record, "author"),
        timestamp: integer_field(&record, "timestamp"),
        timestamp_human: text_field(&record, "timestamp_human"),
        comment: text_field(&record, "comment"),
        tool_version: text_field(&record, "tool_version"),
        format_version: text_field(&record, "format_version"),
    };
    proof {
        assert(raw_fields(raw) == fields_of(record));
    }
    resolve_metadata(raw)
}

/// The metadata record of the archive `data`: the payload of the first entry
/// at the reserved path, decoded.
pub fn get_metadata(data: &[u8]) -> (r: Result<VeghMetadata, ArchiveError>)
    ensures
        extraction(data@, metadata_path()) matches Err(e) ==> r matches Err(e2) && e2 == e,
        extraction(data@, metadata_path()) matches Ok(b) ==> (r is Ok <==> holds_metadata(b)),
        extraction(data@, metadata_path()) matches Ok(b) ==> (r matches Ok(m) ==> resolves_to(
            fields_of(json_doc(b)->Some_0),
            m,
        )),
        extraction(data@, metadata_path()) is Ok ==> (r matches Err(e) ==> e
            == ArchiveError::Parse),
{
    let reserved = ".vegh.json";
    proof {
        reveal_strlit(".vegh.json");
        assert(reserved@ =~= metadata_path());
    }
    let bytes = match get_file_content(data, reserved) {
        Ok(b) => b,
        Err(e) => {
            return Err(e);
        },
    };
    parse_metadata(bytes.as_slice())
}

} // verus!
