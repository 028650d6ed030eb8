//! Whole-source conversion: all rows of a source gathered first, the header
//! row padded once to the widest row, every row turned into a JSON object.

use vstd::prelude::*;
use vstd::string::*;
use crate::config::ProgramArgs;
use crate::headers::{decimal, names, push_decimal};
use crate::pipeline::{RowRead, well_formed};
use crate::assets::Record;
use crate::structured::{inserted_all, json_map_entries, json_map_of, zip_fields, zipped};

verus! {

/// The synthesized name `FIELD_{n}` of the column at 1-based position `n`.
pub open spec fn field_placeholder(n: nat) -> Seq<char> {
    seq!['F', 'I', 'E', 'L', 'D', '_'] + decimal(n)
}

/// The length of the widest row.
pub open spec fn widest(rows: Seq<Seq<Seq<char>>>) -> nat
    decreases rows.len(),
{
    if rows.len() == 0 {
        0
    } else if widest(rows.drop_last()) >= rows.last().len() {
        widest(rows.drop_last())
    } else {
        rows.last().len()
    }
}

/// The header row padded to `max` columns with `FIELD_{n}` names.
pub open spec fn padded(h: Seq<Seq<char>>, max: nat) -> Seq<Seq<char>> {
    if max <= h.len() {
        h
    } else {
        h + Seq::new((max - h.len()) as nat, |i: int| field_placeholder((h.len() + i + 1) as nat))
    }
}

fn field_name(n: u64) -> (r: String)
    ensures
        r@ == field_placeholder(n as nat),
{
    let mut r = String::from_str("FIELD_");
    proof {
        reveal_strlit("FIELD_");
    }
    assert(r@ =~= seq!['F', 'I', 'E', 'L', 'D', '_']);
    push_decimal(&mut r, n);
    r
}

/// Gathers the rows of one source: malformed rows are dropped, and the header
/// row is padded with `FIELD_{n}` names up to the widest remaining row.
pub fn tabulate(header_row: Vec<String>, rows: Vec<RowRead>) -> (r: (Vec<String>, Vec<Vec<String>>))
    ensures
        r.1@.map_values(|f: Vec<String>| names(f@)) == well_formed(
            rows@.map_values(|x: RowRead| x@),
        ),
        names(r.0@) == padded(
            names(header_row@),
            widest(well_formed(rows@.map_values(|x: RowRead| x@))),
        ),
{
    let ghost rv = rows@.map_values(|x: RowRead| x@);
    let mut kept: Vec<Vec<String>> = Vec::new();
    let mut highest: u64 = 0;
    let mut i: usize = 0;
    let mut rows = rows;
    let ghost orig = rows@;
    let n = rows.len();
    while i < n
        invariant
            i <= n,
            n == orig.len(),
            rows@ == orig,
            rv == orig.map_values(|x: RowRead| x@),
            kept@.map_values(|f: Vec<String>| names(f@)) == well_formed(rv.take(i as int)),
            highest == widest(well_formed(rv.take(i as int))),
        decreases n - i,
    {
        proof {
            assert(rv.take(i + 1).drop_last() =~= rv.take(i as int));
            assert(rv.take(i + 1).last() == orig[i as int]@);
        }
        match &rows[i] {
            RowRead::Fields(f) => {
                let ghost before = kept@.map_values(|f: Vec<String>| names(f@));
                let len = f.len() as u64;
                if len > highest {
                    highest = len;
                }
                proof {
                    let prev = well_formed(rv.take(i as int));
                    assert(well_formed(rv.take(i + 1)) == prev.push(names(f@)));
                    assert(prev.push(names(f@)).drop_last() =~= prev);
                }
                kept.push(f.clone());
                assert(kept@.map_values(|f: Vec<String>| names(f@)) =~= before.push(names(f@)));
            },
            RowRead::Malformed => {},
        }
        i = i + 1;
    }
    assert(rv.take(n as int) =~= rv);
    let ghost hv = names(header_row@);
    let mut headers = header_row;
    if highest > headers.len() as u64 {
        let mut k: u64 = headers.len() as u64;
        while k < highest
            invariant
                hv.len() <= k <= highest,
                headers@.len() == k,
                forall|j: int| 0 <= j < hv.len() ==> names(headers@)[j] == hv[j],
                forall|j: int|
                    hv.len() <= j < headers@.len() ==> names(headers@)[j] == field_placeholder(
                        (j + 1) as nat,
                    ),
            decreases highest - k,
        {
            let ghost before = names(headers@);
            headers.push(field_name(k + 1));
            assert(names(headers@) =~= before.push(field_placeholder((k + 1) as nat)));
            k = k + 1;
        }
        assert(names(headers@) =~= padded(hv, highest as nat));
    } else {
        assert(names(headers@) =~= padded(hv, highest as nat));
    }
    (headers, kept)
}

/// Turns gathered rows into JSON object maps: each row's values keyed by the
/// header names position by position, "" standing in on the shorter side.
pub fn compose(_opts: &ProgramArgs, data: (Vec<String>, Vec<Vec<String>>)) -> (r: Vec<
    serde_json::Map<String, serde_json::Value>,
>)
    ensures
        r@.len() == data.1@.len(),
        forall|i: int|
            0 <= i < r@.len() ==> json_map_entries(#[trigger] r@[i]) == inserted_all(
                zipped(names(data.0@), names(data.1@[i]@), data.0@.len()),
            ),
{
    let (header, record_list) = data;
    let mut out: Vec<serde_json::Map<String, serde_json::Value>> = Vec::new();
    let mut i: usize = 0;
    while i < record_list.len()
        invariant
            i <= record_list@.len(),
            record_list@ == data.1@,
            header@ == data.0@,
            out@.len() == i,
            forall|j: int|
                0 <= j < i ==> json_map_entries(#[trigger] out@[j]) == inserted_all(
                    zipped(names(header@), names(record_list@[j]@), header@.len()),
                ),
        decreases record_list.len() - i,
    {
        let record = Record { data: record_list[i].clone(), field_count: header.len() as u64 };
        let pairs = zip_fields(&header, &record);
        out.push(json_map_of(&pairs));
        i = i + 1;
    }
    out
}

} // verus!
