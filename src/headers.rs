//! Header reconciliation: keeping column names stable and unique while rows widen.

use vstd::prelude::*;
use vstd::string::*;

verus! {

/// The decimal spelling of one digit.
pub open spec fn digit_char(d: nat) -> char {
    if d == 0 { '0' }
    else if d == 1 { '1' }
    else if d == 2 { '2' }
    else if d == 3 { '3' }
    else if d == 4 { '4' }
    else if d == 5 { '5' }
    else if d == 6 { '6' }
    else if d == 7 { '7' }
    else if d == 8 { '8' }
    else { '9' }
}

/// The decimal spelling of a natural number, without leading zeros.
pub open spec fn decimal(n: nat) -> Seq<char>
    decreases n,
{
    if n < 10 {
        seq![digit_char(n)]
    } else {
        decimal(n / 10).push(digit_char(n % 10))
    }
}

/// The prefix of every synthesized column name.
pub open spec fn placeholder_prefix() -> Seq<char> {
    seq!['_', '_', 'H', 'E', 'A', 'D', 'E', 'R', '_', '_']
}

/// The synthesized name of the column at 1-based position `n`.
pub open spec fn placeholder(n: nat) -> Seq<char> {
    placeholder_prefix() + decimal(n)
}

fn digit_str(d: u64) -> (r: &'static str)
    requires
        d < 10,
    ensures
        r@ == seq![digit_char(d as nat)],
{
    proof {
        reveal_strlit("0");
        reveal_strlit("1");
        reveal_strlit("2");
        reveal_strlit("3");
        reveal_strlit("4");
        reveal_strlit("5");
        reveal_strlit("6");
        reveal_strlit("7");
        reveal_strlit("8");
        reveal_strlit("9");
    }
    if d == 0 { "0" }
    else if d == 1 { "1" }
    else if d == 2 { "2" }
    else if d == 3 { "3" }
    else if d == 4 { "4" }
    else if d == 5 { "5" }
    else if d == 6 { "6" }
    else if d == 7 { "7" }
    else if d == 8 { "8" }
    else { "9" }
}

/// Appends the decimal spelling of `n` to `out`.
pub(crate) fn push_decimal(out: &mut String, n: u64)
    ensures
        final(out)@ == old(out)@ + decimal(n as nat),
    decreases n,
{
    if n < 10 {
        out.append(digit_str(n));
    } else {
        push_decimal(out, n / 10);
        out.append(digit_str(n % 10));
        assert(decimal(n as nat) == decimal((n / 10) as nat).push(digit_char((n % 10) as nat)));
        assert(final(out)@ =~= old(out)@ + decimal(n as nat));
    }
}

/// Builds the synthesized name `__HEADER__{n}` for 1-based position `n`.
pub fn placeholder_name(n: u64) -> (r: String)
    ensures
        r@ == placeholder(n as nat),
{
    let mut r = String::from_str("__HEADER__");
    proof {
        reveal_strlit("__HEADER__");
    }
    assert(r@ =~= placeholder_prefix());
    push_decimal(&mut r, n);
    r
}


/// The column names held by a vector of strings.
pub open spec fn names(v: Seq<String>) -> Seq<Seq<char>> {
    v.map_values(|s: String| s@)
}

/// The header list widened to `max` columns: positions past the old end get
/// synthesized names; a list at least `max` long is left as it is.
pub open spec fn widened(list: Seq<Seq<char>>, max: nat) -> Seq<Seq<char>> {
    if max <= list.len() {
        list
    } else {
        list + Seq::new((max - list.len()) as nat, |i: int| placeholder((list.len() + i + 1) as nat))
    }
}

/// One step of the left-to-right de-duplication walk: a name already emitted is
/// replaced by the synthesized name of its 1-based position.
pub open spec fn dedup_step(out: Seq<Seq<char>>, h: Seq<char>) -> Seq<Seq<char>> {
    if out.contains(h) {
        out.push(placeholder((out.len() + 1) as nat))
    } else {
        out.push(h)
    }
}

/// The de-duplicated header list. The names seen so far during the walk are
/// exactly the names emitted so far, replacements included.
pub open spec fn dedup(list: Seq<Seq<char>>) -> Seq<Seq<char>>
    decreases list.len(),
{
    if list.len() == 0 {
        seq![]
    } else {
        dedup_step(dedup(list.drop_last()), list.last())
    }
}

/// The 1-based positions whose names the de-duplication walk replaces.
pub open spec fn duplicate_positions(list: Seq<Seq<char>>) -> Seq<nat>
    decreases list.len(),
{
    if list.len() == 0 {
        seq![]
    } else if dedup(list.drop_last()).contains(list.last()) {
        duplicate_positions(list.drop_last()).push(list.len())
    } else {
        duplicate_positions(list.drop_last())
    }
}

/// No synthesized replacement collides with a name emitted before it.
pub open spec fn collision_free(list: Seq<Seq<char>>) -> bool
    decreases list.len(),
{
    list.len() == 0 || (collision_free(list.drop_last()) && (dedup(list.drop_last()).contains(
        list.last(),
    ) ==> !dedup(list.drop_last()).contains(placeholder(list.len()))))
}

/// The header list after reconciling it against a maximum field count.
pub open spec fn reconciled(list: Seq<Seq<char>>, max: nat) -> Seq<Seq<char>> {
    dedup(widened(list, max))
}

pub proof fn lemma_dedup_len(list: Seq<Seq<char>>)
    ensures
        dedup(list).len() == list.len(),
    decreases list.len(),
{
    if list.len() > 0 {
        lemma_dedup_len(list.drop_last());
    }
}

proof fn lemma_push_no_duplicates(out: Seq<Seq<char>>, x: Seq<char>)
    ensures
        out.push(x).no_duplicates() <==> (out.no_duplicates() && !out.contains(x)),
{
    let p = out.push(x);
    if p.no_duplicates() {
        assert forall|i: int, j: int| 0 <= i < out.len() && 0 <= j < out.len() && i != j implies out[i]
            != out[j] by {
            assert(p[i] == out[i] && p[j] == out[j]);
        }
        if out.contains(x) {
            let k = choose|k: int| 0 <= k < out.len() && out[k] == x;
            assert(p[k] == p[out.len() as int]);
        }
    }
    if out.no_duplicates() && !out.contains(x) {
        assert forall|i: int, j: int| 0 <= i < p.len() && 0 <= j < p.len() && i != j implies p[i]
            != p[j] by {
            if i == out.len() {
                assert(out[j] != x);
            } else if j == out.len() {
                assert(out[i] != x);
            }
        }
    }
}

proof fn lemma_dedup_distinct(list: Seq<Seq<char>>)
    ensures
        dedup(list).no_duplicates() <==> collision_free(list),
    decreases list.len(),
{
    if list.len() > 0 {
        let init = list.drop_last();
        lemma_dedup_distinct(init);
        lemma_dedup_len(init);
        let prev = dedup(init);
        if prev.contains(list.last()) {
            lemma_push_no_duplicates(prev, placeholder((prev.len() + 1) as nat));
        } else {
            lemma_push_no_duplicates(prev, list.last());
        }
    }
}

/// Reconciliation never shortens the header list and always covers `max`
/// columns; its result has pairwise distinct names exactly when no synthesized
/// replacement collides with a name emitted before it.
pub proof fn lemma_reconcile_grows_and_dedups(list: Seq<Seq<char>>, max: nat)
    ensures
        reconciled(list, max).len() >= list.len(),
        reconciled(list, max).len() >= max,
        reconciled(list, max).no_duplicates() <==> collision_free(widened(list, max)),
{
    lemma_dedup_len(widened(list, max));
    lemma_dedup_distinct(widened(list, max));
}

/// Reconciling a list of pairwise distinct names against a count it already
/// covers changes nothing and renames nothing.
pub proof fn lemma_reconcile_unique_is_identity(list: Seq<Seq<char>>, max: nat)
    requires
        list.no_duplicates(),
        max <= list.len(),
    ensures
        reconciled(list, max) == list,
        duplicate_positions(widened(list, max)).len() == 0,
    decreases list.len(),
{
    if list.len() > 0 {
        let init = list.drop_last();
        assert(init.no_duplicates());
        lemma_reconcile_unique_is_identity(init, 0);
        assert(widened(init, 0) == init);
        if init.contains(list.last()) {
            let k = choose|k: int| 0 <= k < init.len() && init[k] == list.last();
            assert(list[k] == list[list.len() - 1]);
        }
        assert(init.push(list.last()) =~= list);
    }
}

/// Whether `v` holds a string equal to `s`.
fn contains_name(v: &Vec<String>, s: &String) -> (r: bool)
    ensures
        r == names(v@).contains(s@),
{
    let mut i: usize = 0;
    while i < v.len()
        invariant
            i <= v.len(),
            forall|j: int| 0 <= j < i ==> v@[j]@ != s@,
        decreases v.len() - i,
    {
        if v[i] == *s {
            assert(names(v@)[i as int] == s@);
            return true;
        }
        i = i + 1;
    }
    proof {
        if names(v@).contains(s@) {
            let j = choose|j: int| 0 <= j < names(v@).len() && names(v@)[j] == s@;
            assert(v@[j]@ == s@);
        }
    }
    false
}

/// The evolving column-name list of one source.
pub struct Headers {
    list: Vec<String>,
    length: usize,
}

impl View for Headers {
    type V = Seq<Seq<char>>;

    closed spec fn view(&self) -> Seq<Seq<char>> {
        names(self.list@)
    }
}

impl Clone for Headers {
    fn clone(&self) -> (r: Headers)
        ensures
            r@ == self@,
    {
        proof {
            use_type_invariant(self);
        }
        Headers { list: self.list.clone(), length: self.length }
    }
}

impl Headers {
    #[verifier::type_invariant]
    spec fn inv(&self) -> bool {
        self.length == self.list.len()
    }

    /// Seeds the header list from the literal header row of a source.
    pub fn new(unparsed_list: Vec<String>) -> (r: Headers)
        ensures
            r@ == names(unparsed_list@),
    {
        let length = unparsed_list.len();
        Headers { list: unparsed_list, length }
    }

    /// The number of columns currently named.
    pub fn length(&self) -> (r: u64)
        ensures
            r == self@.len(),
    {
        proof {
            use_type_invariant(self);
        }
        self.length as u64
    }

    /// A snapshot of the current column names.
    pub fn list_copy(&self) -> (r: Vec<String>)
        ensures
            names(r@) == self@,
    {
        self.list.clone()
    }

    /// Reconciles the header list against `max_fields`: widens it with
    /// synthesized names up to `max_fields` columns, then replaces every repeated
    /// name by the synthesized name of its position. Returns the 1-based
    /// positions that were renamed, in order, so that the caller can report them.
    pub fn extend(&mut self, max_fields: u64) -> (renamed: Vec<u64>)
        ensures
            final(self)@ == reconciled(old(self)@, max_fields as nat),
            final(self)@.len() >= old(self)@.len(),
            final(self)@.len() >= max_fields,
            renamed@.map_values(|p: u64| p as nat) == duplicate_positions(
                widened(old(self)@, max_fields as nat),
            ),
    {
        proof {
            use_type_invariant(&*self);
        }
        let ghost w = widened(self@, max_fields as nat);
        let mut ext: Vec<String> = self.list.clone();
        if max_fields > self.length() {
            let mut n: u64 = self.length();
            while n < max_fields
                invariant
                    self@.len() <= n <= max_fields,
                    ext@.len() == n,
                    forall|j: int| 0 <= j < self@.len() ==> names(ext@)[j] == self@[j],
                    forall|j: int|
                        self@.len() <= j < ext@.len() ==> names(ext@)[j] == placeholder(
                            (j + 1) as nat,
                        ),
                decreases max_fields - n,
            {
                let ghost before = names(ext@);
                let name = placeholder_name(n + 1);
                ext.push(name);
                assert(names(ext@) =~= before.push(placeholder((n + 1) as nat)));
                n = n + 1;
            }
            assert(names(ext@) =~= w);
        } else {
            assert(names(ext@) =~= w);
        }
        let mut out: Vec<String> = Vec::new();
        let mut renamed: Vec<u64> = Vec::new();
        let mut i: usize = 0;
        while i < ext.len()
            invariant
                i <= ext.len(),
                names(ext@) == w,
                names(out@) == dedup(w.take(i as int)),
                renamed@.map_values(|p: u64| p as nat) == duplicate_positions(w.take(i as int)),
            decreases ext.len() - i,
        {
            proof {
                lemma_dedup_len(w.take(i as int));
                assert(w.take(i + 1).drop_last() =~= w.take(i as int));
            }
            let h = ext[i].clone();
            let pos = i as u64 + 1;
            if contains_name(&out, &h) {
                out.push(placeholder_name(pos));
                renamed.push(pos);
            } else {
                out.push(h);
            }
            assert(names(out@) =~= dedup(w.take(i + 1)));
            assert(renamed@.map_values(|p: u64| p as nat) =~= duplicate_positions(w.take(i + 1)));
            i = i + 1;
        }
        assert(w.take(ext.len() as int) =~= w);
        proof {
            lemma_dedup_len(w);
        }
        self.transmute(out);
        renamed
    }

    /// Replaces the stored list and its length in one step.
    fn transmute(&mut self, replacement: Vec<String>)
        ensures
            final(self)@ == names(replacement@),
    {
        let new_length = replacement.len();
        *self = Headers { list: replacement, length: new_length };
    }
}

} // verus!
