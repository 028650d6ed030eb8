//! Building one structured value per record: header names zipped with field
//! values, position by position, into an ordered map.

use vstd::prelude::*;
use vstd::string::*;
use crate::assets::{OutputFormat, Record};
use crate::headers::names;

verus! {

#[verifier::external_type_specification]
#[verifier::external_body]
pub struct ExJsonValue(serde_json::Value);

#[verifier::external_type_specification]
#[verifier::external_body]
#[verifier::reject_recursive_types(K)]
#[verifier::reject_recursive_types(V)]
pub struct ExJsonMap<K, V>(serde_json::Map<K, V>);

#[verifier::external_type_specification]
#[verifier::external_body]
pub struct ExYamlValue(serde_yaml::Value);

#[verifier::external_type_specification]
#[verifier::external_body]
pub struct ExYamlMapping(serde_yaml::Mapping);

/// The entry at position `i`, or the empty string past the end.
pub open spec fn cell(s: Seq<Seq<char>>, i: int) -> Seq<char> {
    if 0 <= i < s.len() {
        s[i]
    } else {
        Seq::empty()
    }
}

/// The header names that a record with `field_count` fields consumes.
pub open spec fn consumed(headers: Seq<Seq<char>>, field_count: nat) -> Seq<Seq<char>> {
    if field_count < headers.len() {
        headers.take(field_count as int)
    } else {
        headers
    }
}

/// The key/value pairs of one record, position by position, until both the
/// consumed headers and the values are exhausted; a missing side is "".
pub open spec fn zipped(headers: Seq<Seq<char>>, values: Seq<Seq<char>>, field_count: nat) -> Seq<
    (Seq<char>, Seq<char>),
> {
    let keys = consumed(headers, field_count);
    let n = if keys.len() >= values.len() {
        keys.len()
    } else {
        values.len()
    };
    Seq::new(n, |i: int| (cell(keys, i), cell(values, i)))
}

/// The keys of an ordered list of entries.
pub open spec fn keys_of(entries: Seq<(Seq<char>, Seq<char>)>) -> Seq<Seq<char>> {
    entries.map_values(|e: (Seq<char>, Seq<char>)| e.0)
}

/// Insertion into an insertion-ordered map: a present key keeps its place and
/// takes the new value; a new key goes last.
pub open spec fn entry_insert(entries: Seq<(Seq<char>, Seq<char>)>, k: Seq<char>, v: Seq<char>) -> Seq<
    (Seq<char>, Seq<char>),
> {
    if keys_of(entries).contains(k) {
        entries.update(keys_of(entries).index_of(k), (k, v))
    } else {
        entries.push((k, v))
    }
}

/// The ordered map obtained by inserting `pairs` one after another into an
/// empty map.
pub open spec fn inserted_all(pairs: Seq<(Seq<char>, Seq<char>)>) -> Seq<(Seq<char>, Seq<char>)>
    decreases pairs.len(),
{
    if pairs.len() == 0 {
        seq![]
    } else {
        entry_insert(inserted_all(pairs.drop_last()), pairs.last().0, pairs.last().1)
    }
}

/// The entries of the structured value built from `headers` and `record`.
pub open spec fn built(headers: Seq<Seq<char>>, record: Record) -> Seq<(Seq<char>, Seq<char>)> {
    inserted_all(zipped(headers, record.values(), record.field_count as nat))
}

proof fn lemma_inserted_all_distinct(pairs: Seq<(Seq<char>, Seq<char>)>)
    requires
        keys_of(pairs).no_duplicates(),
    ensures
        inserted_all(pairs) == pairs,
    decreases pairs.len(),
{
    if pairs.len() > 0 {
        let init = pairs.drop_last();
        assert(keys_of(init) =~= keys_of(pairs).drop_last());
        lemma_inserted_all_distinct(init);
        if keys_of(init).contains(pairs.last().0) {
            let k = choose|k: int| 0 <= k < keys_of(init).len() && keys_of(init)[k] == pairs.last().0;
            assert(keys_of(pairs)[k] == keys_of(pairs)[pairs.len() - 1]);
        }
        assert(init.push(pairs.last()) =~= pairs);
    }
}

/// Building never merges keys that differ: when the keys that a record
/// produces are pairwise distinct, the structured value holds every pair in
/// position order, so its key count is the larger of the number of headers
/// consumed and the number of field values ("" standing in on the shorter
/// side). For a record whose field count is its number of values, that count is
/// the field count.
pub proof fn lemma_build_key_count(headers: Seq<Seq<char>>, record: Record)
    requires
        keys_of(zipped(headers, record.values(), record.field_count as nat)).no_duplicates(),
    ensures
        built(headers, record) == zipped(headers, record.values(), record.field_count as nat),
        built(headers, record).len() == if consumed(headers, record.field_count as nat).len()
            >= record.values().len() {
            consumed(headers, record.field_count as nat).len()
        } else {
            record.values().len()
        },
        record.data@.len() == record.field_count ==> built(headers, record).len()
            == record.field_count,
{
    lemma_inserted_all_distinct(zipped(headers, record.values(), record.field_count as nat));
}

/// A record paired with a duplicate-free header snapshot at least as long as
/// its field count, as normalization pairs them, builds a value holding one
/// key per field, in header order.
pub proof fn lemma_normalized_key_count(headers: Seq<Seq<char>>, record: Record)
    requires
        headers.no_duplicates(),
        record.data@.len() == record.field_count,
        record.field_count <= headers.len(),
    ensures
        keys_of(zipped(headers, record.values(), record.field_count as nat)) == headers.take(
            record.field_count as int,
        ),
        built(headers, record).len() == record.field_count,
{
    let fc = record.field_count as nat;
    let z = zipped(headers, record.values(), fc);
    assert(consumed(headers, fc) =~= headers.take(fc as int));
    assert(keys_of(z) =~= headers.take(fc as int));
    lemma_build_key_count(headers, record);
}

/// What a JSON object map holds, as string keys and string values in order.
pub uninterp spec fn json_map_entries(m: serde_json::Map<String, serde_json::Value>) -> Seq<
    (Seq<char>, Seq<char>),
>;

/// What a JSON object value holds, as string keys and string values in order.
pub uninterp spec fn json_object_entries(v: serde_json::Value) -> Seq<(Seq<char>, Seq<char>)>;

/// What a YAML mapping holds, as string keys and string values in order.
pub uninterp spec fn yaml_mapping_entries(m: serde_yaml::Mapping) -> Seq<(Seq<char>, Seq<char>)>;

/// What a YAML mapping value holds, as string keys and string values in order.
pub uninterp spec fn yaml_value_entries(v: serde_yaml::Value) -> Seq<(Seq<char>, Seq<char>)>;

/// Relies on serde_json::Map::new: the new map is empty.
#[verifier::external_body]
fn json_map_new() -> (m: serde_json::Map<String, serde_json::Value>)
    ensures
        json_map_entries(m) == Seq::<(Seq<char>, Seq<char>)>::empty(),
{
    serde_json::Map::new()
}

/// Relies on serde_json::Map::insert (insertion-ordered under the
/// `preserve_order` feature): a present key keeps its place and takes the new
/// value, a new key goes last. The value is stored as a JSON string.
#[verifier::external_body]
fn json_map_insert(m: &mut serde_json::Map<String, serde_json::Value>, k: String, v: String)
    ensures
        json_map_entries(*final(m)) == entry_insert(json_map_entries(*old(m)), k@, v@),
{
    m.insert(k, serde_json::Value::String(v));
}

/// Relies on serde_json::Value::Object: the value holds the map as it is.
#[verifier::external_body]
fn json_object(m: serde_json::Map<String, serde_json::Value>) -> (v: serde_json::Value)
    ensures
        json_object_entries(v) == json_map_entries(m),
{
    serde_json::Value::Object(m)
}

/// Relies on serde_yaml::Mapping::new: the new mapping is empty.
#[verifier::external_body]
fn yaml_mapping_new() -> (m: serde_yaml::Mapping)
    ensures
        yaml_mapping_entries(m) == Seq::<(Seq<char>, Seq<char>)>::empty(),
{
    serde_yaml::Mapping::new()
}

/// Relies on serde_yaml::Mapping::insert (an insertion-ordered map): a present
/// key keeps its place and takes the new value, a new key goes last. Key and
/// value are stored as YAML strings.
#[verifier::external_body]
fn yaml_mapping_insert(m: &mut serde_yaml::Mapping, k: String, v: String)
    ensures
        yaml_mapping_entries(*final(m)) == entry_insert(yaml_mapping_entries(*old(m)), k@, v@),
{
    m.insert(serde_yaml::Value::String(k), serde_yaml::Value::String(v));
}

/// Relies on serde_yaml::Value::Mapping: the value holds the mapping as it is.
#[verifier::external_body]
fn yaml_mapping(m: serde_yaml::Mapping) -> (v: serde_yaml::Value)
    ensures
        yaml_value_entries(v) == yaml_mapping_entries(m),
{
    serde_yaml::Value::Mapping(m)
}

/// The string at position `i`, or a new empty string past the end.
fn cell_at(v: &Vec<String>, i: usize, bound: usize) -> (r: String)
    ensures
        r@ == cell(names(v@).take(if bound < v@.len() { bound as int } else { v@.len() as int }), i as int),
{
    if i < v.len() && i < bound {
        v[i].clone()
    } else {
        String::new()
    }
}

/// The key/value pairs of a record against a header list.
pub fn zip_fields(hdr: &Vec<String>, record: &Record) -> (r: Vec<(String, String)>)
    ensures
        r@.map_values(|p: (String, String)| (p.0@, p.1@)) == zipped(
            names(hdr@),
            record.values(),
            record.field_count as nat,
        ),
{
    let ghost z = zipped(names(hdr@), record.values(), record.field_count as nat);
    let take: usize = if record.field_count < hdr.len() as u64 {
        record.field_count as usize
    } else {
        hdr.len()
    };
    let n: usize = if take >= record.data.len() {
        take
    } else {
        record.data.len()
    };
    assert(consumed(names(hdr@), record.field_count as nat) =~= names(hdr@).take(take as int));
    assert(record.values().take(record.data@.len() as int) =~= record.values());
    let mut r: Vec<(String, String)> = Vec::new();
    let mut i: usize = 0;
    while i < n
        invariant
            i <= n,
            z == zipped(names(hdr@), record.values(), record.field_count as nat),
            n == z.len(),
            take <= hdr@.len(),
            consumed(names(hdr@), record.field_count as nat) == names(hdr@).take(take as int),
            record.values().take(record.data@.len() as int) == record.values(),
            r@.len() == i,
            forall|j: int|
                0 <= j < i ==> (#[trigger] r@[j]).0@ == z[j].0 && r@[j].1@ == z[j].1,
        decreases n - i,
    {
        let k = cell_at(hdr, i, take);
        let v = cell_at(&record.data, i, record.data.len());
        r.push((k, v));
        i = i + 1;
    }
    assert(r@.map_values(|p: (String, String)| (p.0@, p.1@)) =~= z);
    r
}

/// The JSON object map holding `pairs`, inserted in order.
pub(crate) fn json_map_of(pairs: &Vec<(String, String)>) -> (m: serde_json::Map<String, serde_json::Value>)
    ensures
        json_map_entries(m) == inserted_all(pairs@.map_values(|p: (String, String)| (p.0@, p.1@))),
{
    let ghost z = pairs@.map_values(|p: (String, String)| (p.0@, p.1@));
    let mut output = json_map_new();
    let mut i: usize = 0;
    while i < pairs.len()
        invariant
            i <= pairs@.len(),
            z == pairs@.map_values(|p: (String, String)| (p.0@, p.1@)),
            json_map_entries(output) == inserted_all(z.take(i as int)),
        decreases pairs.len() - i,
    {
        let k = pairs[i].0.clone();
        let v = pairs[i].1.clone();
        assert(z.take(i + 1).drop_last() =~= z.take(i as int));
        json_map_insert(&mut output, k, v);
        i = i + 1;
    }
    assert(z.take(pairs@.len() as int) =~= z);
    output
}

/// Builds the JSON object of one record: header names as keys, field values as
/// string values, in header order.
pub fn build_json(hdr: Vec<String>, record: Record) -> (r: serde_json::Value)
    ensures
        json_object_entries(r) == built(names(hdr@), record),
{
    let pairs = zip_fields(&hdr, &record);
    json_object(json_map_of(&pairs))
}

/// Builds the YAML mapping of one record: header names as keys, field values as
/// string values, in header order.
pub fn build_yaml(hdr: Vec<String>, record: Record) -> (r: serde_yaml::Value)
    ensures
        yaml_value_entries(r) == built(names(hdr@), record),
{
    let pairs = zip_fields(&hdr, &record);
    let ghost z = pairs@.map_values(|p: (String, String)| (p.0@, p.1@));
    let mut output = yaml_mapping_new();
    let mut i: usize = 0;
    while i < pairs.len()
        invariant
            i <= pairs@.len(),
            z == pairs@.map_values(|p: (String, String)| (p.0@, p.1@)),
            yaml_mapping_entries(output) == inserted_all(z.take(i as int)),
        decreases pairs.len() - i,
    {
        let k = pairs[i].0.clone();
        let v = pairs[i].1.clone();
        assert(z.take(i + 1).drop_last() =~= z.take(i as int));
        yaml_mapping_insert(&mut output, k, v);
        i = i + 1;
    }
    assert(z.take(pairs@.len() as int) =~= z);
    yaml_mapping(output)
}

/// One fully built record, in the shape that the chosen format serializes.
pub enum Output {
    Json(serde_json::Value),
    Yaml(serde_yaml::Value),
}

/// Builds the structured value of one record for the chosen output format:
/// a JSON object for either JSON format, a YAML mapping for YAML.
pub fn build_output(format: OutputFormat, hdr: Vec<String>, record: Record) -> (r: Output)
    ensures
        match (format, r) {
            (OutputFormat::Yaml, Output::Yaml(v)) => yaml_value_entries(v) == built(
                names(hdr@),
                record,
            ),
            (OutputFormat::Json, Output::Json(v)) => json_object_entries(v) == built(
                names(hdr@),
                record,
            ),
            (OutputFormat::JsonPretty, Output::Json(v)) => json_object_entries(v) == built(
                names(hdr@),
                record,
            ),
            _ => false,
        },
{
    match format {
        OutputFormat::Json => Output::Json(build_json(hdr, record)),
        OutputFormat::JsonPretty => Output::Json(build_json(hdr, record)),
        OutputFormat::Yaml => Output::Yaml(build_yaml(hdr, record)),
    }
}

} // verus!
