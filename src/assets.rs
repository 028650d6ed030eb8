//! The values that flow between the stages of a conversion.

use vstd::prelude::*;
use vstd::string::*;
use crate::headers::names;

verus! {

/// One row's field values and the field count of the row it came from.
pub struct Record {
    pub data: Vec<String>,
    pub field_count: u64,
}

impl Record {
    /// The record of one parsed row: its fields in order, counted.
    pub fn from_fields(data: Vec<String>) -> (r: Record)
        ensures
            r.data@ == data@,
            r.field_count == data@.len(),
    {
        let field_count = data.len() as u64;
        Record { data, field_count }
    }

    /// The field values as character sequences.
    pub open spec fn values(&self) -> Seq<Seq<char>> {
        names(self.data@)
    }
}

/// The serialization chosen for every output document.
#[derive(Clone, Copy, Debug, PartialEq, Eq, Structural)]
pub enum OutputFormat {
    Json,
    JsonPretty,
    Yaml,
}

impl OutputFormat {
    /// The human-readable name of the format.
    pub fn label(&self) -> (r: String)
        ensures
            r@ == match self {
                OutputFormat::Json => "Json"@,
                OutputFormat::JsonPretty => "Pretty Json"@,
                OutputFormat::Yaml => "Yaml"@,
            },
    {
        match self {
            OutputFormat::Json => String::from_str("Json"),
            OutputFormat::JsonPretty => String::from_str("Pretty Json"),
            OutputFormat::Yaml => String::from_str("Yaml"),
        }
    }
}

/// A cursor over a sequence that tells, with each item, whether it is the
/// first and whether it is the last.
pub struct FirstLast<T> {
    first: bool,
    /// The items still to come, last item first.
    rest: Vec<T>,
}

impl<T> View for FirstLast<T> {
    type V = (bool, Seq<T>);

    /// Whether nothing has been taken yet, and the items still to come in order.
    closed spec fn view(&self) -> (bool, Seq<T>) {
        (self.first, self.rest@.reverse())
    }
}

impl<T> FirstLast<T> {
    /// The next item as (is first, is last, item), or `None` once all are taken.
    pub fn next(&mut self) -> (r: Option<(bool, bool, T)>)
        ensures
            old(self)@.1.len() == 0 ==> r is None && final(self)@ == old(self)@,
            old(self)@.1.len() > 0 ==> r == Some((old(self)@.0, old(self)@.1.len() == 1, old(self)@.1[0]))
                && final(self)@ == (false, old(self)@.1.drop_first()),
    {
        let first = self.first;
        let len = self.rest.len();
        match self.rest.pop() {
            Some(item) => {
                self.first = false;
                proof {
                    assert(old(self)@.1[0] == old(self).rest@[len - 1]);
                    assert(self.rest@.reverse() =~= old(self)@.1.drop_first());
                }
                Some((first, len == 1, item))
            },
            None => None,
        }
    }
}

/// Walking a sequence while telling its first and last items apart.
pub trait IdentifyFirstLast<T>: Sized {
    spec fn items(&self) -> Seq<T>;

    fn identify_first_last(self) -> (r: FirstLast<T>)
        ensures
            r@ == (true, self.items());
}

impl<T> IdentifyFirstLast<T> for Vec<T> {
    open spec fn items(&self) -> Seq<T> {
        self@
    }

    fn identify_first_last(self) -> (r: FirstLast<T>)
        ensures
            r@ == (true, self@),
    {
        let ghost orig = self@;
        let mut src = self;
        let mut rest: Vec<T> = Vec::new();
        while src.len() > 0
            invariant
                src@ + rest@.reverse() == orig,
            decreases src.len(),
        {
            let ghost before = src@;
            let ghost rb = rest@;
            let item = src.pop().unwrap();
            rest.push(item);
            assert(rest@.reverse() =~= seq![item] + rb.reverse());
            assert(before =~= src@.push(item));
            assert(src@ + rest@.reverse() =~= before + rb.reverse());
        }
        assert(rest@.reverse() =~= orig);
        FirstLast { first: true, rest }
    }
}

} // verus!
