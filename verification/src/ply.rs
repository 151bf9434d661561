//! The PLY reader that the mesh loader is built on.
//!
//! Reading the format itself is left to the `ply_rs` crate. This module
//! declares the types of that crate that pass through the loader, and gives
//! each call into the crate a function of its own with a contract. Those
//! contracts are not proved: they say what the source of the crate shows.

use vstd::prelude::*;

verus! {

/// `ply_rs::ply::Property`: one typed value of a record.
#[verifier::external_type_specification]
#[verifier::external_body]
pub struct ExProperty(ply_rs::ply::Property);

/// `linked_hash_map::LinkedHashMap`: the map that `ply_rs` stores a record in.
#[verifier::external_type_specification]
#[verifier::external_body]
#[verifier::reject_recursive_types(K)]
#[verifier::reject_recursive_types(V)]
#[verifier::reject_recursive_types(S)]
pub struct ExLinkedHashMap<K, V, S>(linked_hash_map::LinkedHashMap<K, V, S>);

/// `std::io::Error`: the error of every reading function of `ply_rs`.
#[verifier::external_type_specification]
#[verifier::external_body]
pub struct ExIoError(std::io::Error);

/// A typed value of a record, as far as a mesh reads it.
#[derive(Clone, Debug, PartialEq, Eq)]
pub enum Value {
    /// A 32-bit float, as its IEEE 754 bit pattern.
    Float(u32),
    /// A list of unsigned 32-bit integers.
    ListUInt(Vec<u32>),
    /// A value of any other type.
    Other,
}

/// What a [`Value`] holds.
pub enum ValueView {
    Float(u32),
    ListUInt(Seq<u32>),
    Other,
}

impl View for Value {
    type V = ValueView;

    open spec fn view(&self) -> ValueView {
        match self {
            Value::Float(bits) => ValueView::Float(*bits),
            Value::ListUInt(list) => ValueView::ListUInt(list@),
            Value::Other => ValueView::Other,
        }
    }
}

/// The keys of a record, in the order in which they were stored.
pub uninterp spec fn record_keys(record: ply_rs::ply::DefaultElement) -> Seq<Seq<char>>;

/// The values of a record, by key.
pub uninterp spec fn record_values(record: ply_rs::ply::DefaultElement) -> Map<
    Seq<char>,
    ValueView,
>;

/// The value under `key`; `Other` where there is none.
pub open spec fn value_in(values: Map<Seq<char>, ValueView>, key: Seq<char>) -> ValueView {
    if values.contains_key(key) {
        values[key]
    } else {
        ValueView::Other
    }
}

/// The float under `key`, if there is one.
pub open spec fn float_in(values: Map<Seq<char>, ValueView>, key: Seq<char>) -> Option<u32> {
    match value_in(values, key) {
        ValueView::Float(bits) => Some(bits),
        _ => None,
    }
}

/// The list of unsigned integers under `key`, if there is one.
pub open spec fn uint_list_in(values: Map<Seq<char>, ValueView>, key: Seq<char>) -> Option<
    Seq<u32>,
> {
    match value_in(values, key) {
        ValueView::ListUInt(list) => Some(list),
        _ => None,
    }
}

/// `LinkedHashMap::keys` on a record: the keys in stored order, which are the
/// keys that the record has a value for.
#[verifier::external_body]
pub(crate) fn keys_of(record: &ply_rs::ply::DefaultElement) -> (keys: Vec<String>)
    ensures
        keys.deep_view() == record_keys(*record),
        keys.deep_view().to_set() == record_values(*record).dom(),
{
    record.keys().cloned().collect()
}

/// `PropertyAccess::get_float` on a record: the float stored under `key`, as
/// its bit pattern, or `None` where the record has no such key or holds a
/// value of another type under it.
#[verifier::external_body]
pub(crate) fn float_of(record: &ply_rs::ply::DefaultElement, key: &str) -> (value: Option<u32>)
    ensures
        value == float_in(record_values(*record), key@),
{
    match ply_rs::ply::PropertyAccess::get_float(record, &key.to_string()) {
        Some(v) => Some(v.to_bits()),
        None => None,
    }
}

/// `PropertyAccess::get_list_uint` on a record: a copy of the list stored
/// under `key`, or `None` where the record has no such key or holds a value
/// of another type under it.
#[verifier::external_body]
pub(crate) fn uint_list_of(record: &ply_rs::ply::DefaultElement, key: &str) -> (list: Option<
    Vec<u32>,
>)
    ensures
        list.is_some() == uint_list_in(record_values(*record), key@).is_some(),
        list matches Some(l) ==> uint_list_in(record_values(*record), key@) == Some(l@),
{
    match ply_rs::ply::PropertyAccess::get_list_uint(record, &key.to_string()) {
        Some(l) => Some(l.to_vec()),
        None => None,
    }
}

/// The value that `record` holds under `key`.
pub fn value_of(record: &ply_rs::ply::DefaultElement, key: &str) -> (value: Value)
    ensures
        value@ == value_in(record_values(*record), key@),
{
    match float_of(record, key) {
        Some(bits) => Value::Float(bits),
        None => match uint_list_of(record, key) {
            Some(list) => Value::ListUInt(list),
            None => Value::Other,
        },
    }
}

/// What a record holds: its keys in stored order, and its values by key.
pub struct RecordView {
    pub keys: Seq<Seq<char>>,
    pub values: Map<Seq<char>, ValueView>,
}

/// What `record` holds.
pub open spec fn record_view(record: ply_rs::ply::DefaultElement) -> RecordView {
    RecordView { keys: record_keys(record), values: record_values(record) }
}

/// What each of `records` holds.
pub open spec fn records_view(records: Seq<ply_rs::ply::DefaultElement>) -> Seq<RecordView> {
    records.map_values(|record: ply_rs::ply::DefaultElement| record_view(record))
}

/// What `Parser::read_header` makes of the file `input`: the elements that
/// the header declares, in the order of the file and each with its name and
/// the number of its records, and the number of bytes that the header takes
/// up; or `None` where the crate reports an error.
pub uninterp spec fn parsed_header(input: Seq<u8>) -> Option<(Seq<(Seq<char>, usize)>, usize)>;

/// What `Parser::read_payload_for_element` makes of the bytes of the file
/// `input` from `start` on, read as the records of the element at `index` of
/// its header: what the records hold, and the position behind them; or `None`
/// where the crate reports an error.
pub uninterp spec fn parsed_payload(input: Seq<u8>, index: int, start: int) -> Option<
    (Seq<RecordView>, usize),
>;

/// `Parser::read_header` on a reader over `input`, which starts at the first
/// byte: name and `count` of each of the `elements` of the header, in the
/// order of that map, and the position of the reader behind the header, which
/// is not behind the end of `input`. The crate stops abruptly on a number of
/// a `format` or `element` line that does not fit in 64 bits, so the input is
/// to hold none.
#[verifier::external_body]
pub(crate) fn read_header(input: &[u8]) -> (result: Result<
    (Vec<(String, usize)>, usize),
    std::io::Error,
>)
    requires
        crate::header::numbers_fit(input@),
    ensures
        match result {
            Ok(found) => parsed_header(input@) == Some((found.0.deep_view(), found.1))
                && found.1 <= input.len(),
            Err(_) => parsed_header(input@).is_none(),
        },
{
    let mut reader = std::io::Cursor::new(input);
    let parser = ply_rs::parser::Parser::<ply_rs::ply::DefaultElement>::new();
    let header = parser.read_header(&mut reader)?;
    let elements = header.elements.values().map(|e| (e.name.clone(), e.count)).collect();
    Ok((elements, reader.position() as usize))
}

/// `Parser::read_payload_for_element` on a reader over `input` that stands at
/// `start`, for the element at `index` of the header of `input`, which
/// `Parser::read_header` reads first: the records, and the position of the
/// reader behind them, which is neither before `start` nor behind the end of
/// `input`. The crate reads as many records as the element declares, each
/// from at least one byte unless the element has no properties, so the
/// element is to declare no more records than there are bytes from `start`
/// on.
#[verifier::external_body]
pub(crate) fn read_payload(input: &[u8], index: usize, start: usize) -> (result: Result<
    (Vec<ply_rs::ply::DefaultElement>, usize),
    std::io::Error,
>)
    requires
        crate::header::numbers_fit(input@),
        start <= input.len(),
        parsed_header(input@) matches Some(header) && index < header.0.len()
            && header.0[index as int].1 <= input.len() - start,
    ensures
        match result {
            Ok(found) => parsed_payload(input@, index as int, start as int) == Some(
                (records_view(found.0@), found.1),
            ) && start <= found.1 <= input.len(),
            Err(_) => parsed_payload(input@, index as int, start as int).is_none(),
        },
{
    let mut reader = std::io::Cursor::new(input);
    let parser = ply_rs::parser::Parser::<ply_rs::ply::DefaultElement>::new();
    let header = parser.read_header(&mut reader)?;
    let element = header.elements.values().nth(index).unwrap();
    reader.set_position(start as u64);
    let records = parser.read_payload_for_element(&mut reader, element, &header)?;
    Ok((records, reader.position() as usize))
}

} // verus!
