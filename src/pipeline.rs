//! The decisions of the reader stage: seeding a fresh header list for each
//! source, normalizing each row against it, skipping malformed rows, and
//! moving from one source to the next until the supply of sources ends.

use vstd::prelude::*;
use crate::assets::Record;
use crate::error::{Joined, settled};
use crate::headers::{
    Headers,
    dedup,
    duplicate_positions,
    lemma_reconcile_grows_and_dedups,
    names,
    reconciled,
    widened,
};

verus! {

/// One row as the tabular reader hands it over.
pub enum RowRead {
    /// A row that parsed, with its fields in order.
    Fields(Vec<String>),
    /// A row that the parser configuration rejects.
    Malformed,
}

impl View for RowRead {
    type V = Option<Seq<Seq<char>>>;

    open spec fn view(&self) -> Option<Seq<Seq<char>>> {
        match self {
            RowRead::Fields(f) => Some(names(f@)),
            RowRead::Malformed => None,
        }
    }
}

/// The header list after a row has been accounted for: a wider row
/// reconciles the list against its field count; other rows leave it alone.
pub open spec fn row_headers(h: Seq<Seq<char>>, row: Option<Seq<Seq<char>>>) -> Seq<Seq<char>> {
    match row {
        Some(f) => if h.len() < f.len() {
            reconciled(h, f.len())
        } else {
            h
        },
        None => h,
    }
}

/// The positions renamed while accounting for a row.
pub open spec fn row_renames(h: Seq<Seq<char>>, row: Option<Seq<Seq<char>>>) -> Seq<nat> {
    match row {
        Some(f) => if h.len() < f.len() {
            duplicate_positions(widened(h, f.len()))
        } else {
            seq![]
        },
        None => seq![],
    }
}

/// A record paired with the header snapshot valid when it was normalized.
pub struct Normalized {
    pub headers: Vec<String>,
    pub record: Record,
    /// The 1-based header positions renamed while normalizing this record.
    pub renamed: Vec<u64>,
}

/// Normalizes one parsed row: reconciles the header list first when the row
/// is wider than it, then pairs a copy of the list with the row's record.
pub fn normalize(headers: &mut Headers, fields: Vec<String>) -> (r: Normalized)
    ensures
        final(headers)@ == row_headers(old(headers)@, Some(names(fields@))),
        names(r.headers@) == final(headers)@,
        r.record.data@ == fields@,
        r.record.field_count == fields@.len(),
        r.renamed@.map_values(|p: u64| p as nat) == row_renames(
            old(headers)@,
            Some(names(fields@)),
        ),
{
    let record = Record::from_fields(fields);
    let mut renamed: Vec<u64> = Vec::new();
    if headers.length() < record.field_count {
        renamed = headers.extend(record.field_count);
    } else {
        assert(renamed@.map_values(|p: u64| p as nat) =~= Seq::<nat>::empty());
    }
    Normalized { headers: headers.list_copy(), record, renamed }
}

/// An event observed by the reader stage.
pub enum ReaderEvent {
    /// A new source arrived; its header row was read.
    Source(Vec<String>),
    /// The next row of the current source.
    Row(RowRead),
    /// The current source is exhausted.
    SourceEnd,
    /// The supply of sources is closed.
    SupplyEnd,
}

/// The reader stage's events, as values.
pub enum EventModel {
    Source(Seq<Seq<char>>),
    Row(Option<Seq<Seq<char>>>),
    SourceEnd,
    SupplyEnd,
}

impl View for ReaderEvent {
    type V = EventModel;

    open spec fn view(&self) -> EventModel {
        match self {
            ReaderEvent::Source(h) => EventModel::Source(names(h@)),
            ReaderEvent::Row(r) => EventModel::Row(r@),
            ReaderEvent::SourceEnd => EventModel::SourceEnd,
            ReaderEvent::SupplyEnd => EventModel::SupplyEnd,
        }
    }
}

/// What the reader stage asks its driver to do next.
pub enum ReaderAction {
    /// Open a fresh data channel for the new source and hand its receiving end
    /// downstream; report the header positions renamed in its header row.
    OpenChannel(Vec<u64>),
    /// Send this record, with its header snapshot, on the current data channel.
    Forward(Normalized),
    /// Drop the malformed row with a warning.
    Skip,
    /// Close the current data channel.
    CloseChannel,
    /// Close the channel of channels and join the downstream stage.
    Finish,
    /// The event does not fit the stage's state; nothing changes.
    Ignore,
}

/// The reader stage's actions, as values.
pub enum ActionModel {
    Open,
    Forward(Seq<Seq<char>>, Seq<Seq<char>>),
    Skip,
    Close,
    Finish,
    Ignore,
}

impl View for ReaderAction {
    type V = ActionModel;

    open spec fn view(&self) -> ActionModel {
        match self {
            ReaderAction::OpenChannel(_) => ActionModel::Open,
            ReaderAction::Forward(n) => ActionModel::Forward(names(n.headers@), n.record.values()),
            ReaderAction::Skip => ActionModel::Skip,
            ReaderAction::CloseChannel => ActionModel::Close,
            ReaderAction::Finish => ActionModel::Finish,
            ReaderAction::Ignore => ActionModel::Ignore,
        }
    }
}

/// The reader stage's state: the header list of the source being drained, if
/// any, and whether the supply of sources has ended.
pub struct StageModel {
    pub current: Option<Seq<Seq<char>>>,
    pub done: bool,
}

/// The state in which the stage awaits its first source.
pub open spec fn awaiting() -> StageModel {
    StageModel { current: None, done: false }
}

/// One transition of the reader stage.
pub open spec fn stage_step(s: StageModel, e: EventModel) -> (StageModel, ActionModel) {
    if s.done {
        (s, ActionModel::Ignore)
    } else {
        match e {
            EventModel::Source(h) => match s.current {
                None => (StageModel { current: Some(dedup(h)), done: false }, ActionModel::Open),
                Some(_) => (s, ActionModel::Ignore),
            },
            EventModel::Row(r) => match s.current {
                Some(h) => {
                    let h2 = row_headers(h, r);
                    (
                        StageModel { current: Some(h2), done: false },
                        match r {
                            Some(f) => ActionModel::Forward(h2, f),
                            None => ActionModel::Skip,
                        },
                    )
                },
                None => (s, ActionModel::Ignore),
            },
            EventModel::SourceEnd => match s.current {
                Some(_) => (StageModel { current: None, done: false }, ActionModel::Close),
                None => (s, ActionModel::Ignore),
            },
            EventModel::SupplyEnd => match s.current {
                None => (StageModel { current: None, done: true }, ActionModel::Finish),
                Some(_) => (s, ActionModel::Ignore),
            },
        }
    }
}

/// The state reached and the actions taken over a sequence of events.
pub open spec fn run(s: StageModel, events: Seq<EventModel>) -> (StageModel, Seq<ActionModel>)
    decreases events.len(),
{
    if events.len() == 0 {
        (s, seq![])
    } else {
        let prev = run(s, events.drop_last());
        let next = stage_step(prev.0, events.last());
        (next.0, prev.1.push(next.1))
    }
}

/// The events of one source: its header row, its rows in order, its end.
pub open spec fn source_events(h: Seq<Seq<char>>, rows: Seq<Option<Seq<Seq<char>>>>) -> Seq<
    EventModel,
> {
    seq![EventModel::Source(h)] + rows.map_values(|r: Option<Seq<Seq<char>>>| EventModel::Row(r))
        + seq![EventModel::SourceEnd]
}

/// The events of several sources submitted one after another.
pub open spec fn sources_events(sources: Seq<(Seq<Seq<char>>, Seq<Option<Seq<Seq<char>>>>)>) -> Seq<
    EventModel,
>
    decreases sources.len(),
{
    if sources.len() == 0 {
        seq![]
    } else {
        sources_events(sources.drop_last()) + source_events(sources.last().0, sources.last().1)
    }
}

/// The actions of independent single-source runs, one after another.
pub open spec fn independent_actions(
    sources: Seq<(Seq<Seq<char>>, Seq<Option<Seq<Seq<char>>>>)>,
) -> Seq<ActionModel>
    decreases sources.len(),
{
    if sources.len() == 0 {
        seq![]
    } else {
        independent_actions(sources.drop_last()) + run(
            awaiting(),
            source_events(sources.last().0, sources.last().1),
        ).1
    }
}

/// The header list after a sequence of rows.
pub open spec fn headers_after(h: Seq<Seq<char>>, rows: Seq<Option<Seq<Seq<char>>>>) -> Seq<
    Seq<char>,
>
    decreases rows.len(),
{
    if rows.len() == 0 {
        h
    } else {
        row_headers(headers_after(h, rows.drop_last()), rows.last())
    }
}

/// The actions taken on a sequence of rows, starting from header list `h`.
pub open spec fn row_actions(h: Seq<Seq<char>>, rows: Seq<Option<Seq<Seq<char>>>>) -> Seq<
    ActionModel,
>
    decreases rows.len(),
{
    if rows.len() == 0 {
        seq![]
    } else {
        let h2 = row_headers(headers_after(h, rows.drop_last()), rows.last());
        row_actions(h, rows.drop_last()).push(
            match rows.last() {
                Some(f) => ActionModel::Forward(h2, f),
                None => ActionModel::Skip,
            },
        )
    }
}

/// The rows that parsed, in order.
pub open spec fn well_formed(rows: Seq<Option<Seq<Seq<char>>>>) -> Seq<Seq<Seq<char>>>
    decreases rows.len(),
{
    if rows.len() == 0 {
        seq![]
    } else {
        match rows.last() {
            Some(f) => well_formed(rows.drop_last()).push(f),
            None => well_formed(rows.drop_last()),
        }
    }
}

/// The records forwarded by a sequence of actions, each with its header
/// snapshot, in order.
pub open spec fn forwarded(actions: Seq<ActionModel>) -> Seq<(Seq<Seq<char>>, Seq<Seq<char>>)>
    decreases actions.len(),
{
    if actions.len() == 0 {
        seq![]
    } else {
        match actions.last() {
            ActionModel::Forward(h, f) => forwarded(actions.drop_last()).push((h, f)),
            _ => forwarded(actions.drop_last()),
        }
    }
}

/// The number of rows skipped by a sequence of actions.
pub open spec fn skipped(actions: Seq<ActionModel>) -> nat
    decreases actions.len(),
{
    if actions.len() == 0 {
        0
    } else {
        skipped(actions.drop_last()) + match actions.last() {
            ActionModel::Skip => 1nat,
            _ => 0nat,
        }
    }
}

/// The number of data channels opened by a sequence of actions.
pub open spec fn opened(actions: Seq<ActionModel>) -> nat
    decreases actions.len(),
{
    if actions.len() == 0 {
        0
    } else {
        opened(actions.drop_last()) + match actions.last() {
            ActionModel::Open => 1nat,
            _ => 0nat,
        }
    }
}

proof fn lemma_run_concat(s: StageModel, a: Seq<EventModel>, b: Seq<EventModel>)
    ensures
        run(s, a + b) == (run(run(s, a).0, b).0, run(s, a).1 + run(run(s, a).0, b).1),
    decreases b.len(),
{
    if b.len() == 0 {
        assert(a + b =~= a);
        assert(run(s, a).1 + seq![] =~= run(s, a).1);
    } else {
        lemma_run_concat(s, a, b.drop_last());
        assert((a + b).drop_last() =~= a + b.drop_last());
        let mid = run(s, a);
        let rest = run(mid.0, b.drop_last());
        assert(mid.1 + rest.1.push(stage_step(rest.0, b.last()).1) =~= (mid.1 + rest.1).push(
            stage_step(rest.0, b.last()).1,
        ));
    }
}

proof fn lemma_run_rows(h: Seq<Seq<char>>, rows: Seq<Option<Seq<Seq<char>>>>)
    ensures
        run(
            StageModel { current: Some(h), done: false },
            rows.map_values(|r: Option<Seq<Seq<char>>>| EventModel::Row(r)),
        ) == (StageModel { current: Some(headers_after(h, rows)), done: false }, row_actions(
            h,
            rows,
        )),
    decreases rows.len(),
{
    let evs = rows.map_values(|r: Option<Seq<Seq<char>>>| EventModel::Row(r));
    if rows.len() > 0 {
        let init = rows.drop_last();
        assert(evs.drop_last() =~= init.map_values(
            |r: Option<Seq<Seq<char>>>| EventModel::Row(r),
        ));
        lemma_run_rows(h, init);
    } else {
        assert(evs.len() == 0);
    }
}

/// The run of one source from the awaiting state: one channel opened, one
/// action per row, the channel closed, and the stage awaiting again.
pub proof fn lemma_single_source(h: Seq<Seq<char>>, rows: Seq<Option<Seq<Seq<char>>>>)
    ensures
        run(awaiting(), source_events(h, rows)) == (
            awaiting(),
            seq![ActionModel::Open] + row_actions(dedup(h), rows) + seq![ActionModel::Close],
        ),
{
    let start = seq![EventModel::Source(h)];
    let evs = rows.map_values(|r: Option<Seq<Seq<char>>>| EventModel::Row(r));
    let end = seq![EventModel::SourceEnd];
    assert(source_events(h, rows) == start + evs + end);
    lemma_run_concat(awaiting(), start + evs, end);
    lemma_run_concat(awaiting(), start, evs);
    reveal_with_fuel(run, 2);
    assert(start.drop_last() =~= Seq::<EventModel>::empty());
    assert(run(awaiting(), start).1 =~= seq![ActionModel::Open]);
    lemma_run_rows(dedup(h), rows);
    let mid = run(awaiting(), start + evs);
    assert(end.drop_last() =~= Seq::<EventModel>::empty());
    assert(run(mid.0, end).1 =~= seq![ActionModel::Close]);
}

/// Sources submitted one after another are converted exactly as independent
/// single-source runs would convert them: the header widening of one source
/// never reaches another, and the stage awaits a new source after each one.
pub proof fn lemma_sources_independent(sources: Seq<(Seq<Seq<char>>, Seq<Option<Seq<Seq<char>>>>)>)
    ensures
        run(awaiting(), sources_events(sources)) == (awaiting(), independent_actions(sources)),
    decreases sources.len(),
{
    if sources.len() > 0 {
        let init = sources.drop_last();
        lemma_sources_independent(init);
        lemma_run_concat(
            awaiting(),
            sources_events(init),
            source_events(sources.last().0, sources.last().1),
        );
        lemma_single_source(sources.last().0, sources.last().1);
    } else {
        assert(run(awaiting(), seq![]).1 =~= independent_actions(sources));
    }
}

proof fn lemma_forwarded_concat(a: Seq<ActionModel>, b: Seq<ActionModel>)
    ensures
        forwarded(a + b) == forwarded(a) + forwarded(b),
        skipped(a + b) == skipped(a) + skipped(b),
        opened(a + b) == opened(a) + opened(b),
    decreases b.len(),
{
    if b.len() == 0 {
        assert(a + b =~= a);
        assert(forwarded(a) + seq![] =~= forwarded(a));
    } else {
        lemma_forwarded_concat(a, b.drop_last());
        assert((a + b).drop_last() =~= a + b.drop_last());
        match b.last() {
            ActionModel::Forward(h, f) => {
                assert(forwarded(a) + forwarded(b.drop_last()).push((h, f)) =~= (forwarded(a)
                    + forwarded(b.drop_last())).push((h, f)));
            },
            _ => {},
        }
    }
}

proof fn lemma_row_actions_counts(h: Seq<Seq<char>>, rows: Seq<Option<Seq<Seq<char>>>>)
    ensures
        forwarded(row_actions(h, rows)).map_values(
            |x: (Seq<Seq<char>>, Seq<Seq<char>>)| x.1,
        ) == well_formed(rows),
        forwarded(row_actions(h, rows)).len() == well_formed(rows).len(),
        skipped(row_actions(h, rows)) + well_formed(rows).len() == rows.len(),
        opened(row_actions(h, rows)) == 0,
    decreases rows.len(),
{
    if rows.len() > 0 {
        let init = rows.drop_last();
        lemma_row_actions_counts(h, init);
        let prev = forwarded(row_actions(h, init));
        assert(row_actions(h, rows).drop_last() =~= row_actions(h, init));
        match rows.last() {
            Some(f) => {
                let h2 = row_headers(headers_after(h, init), rows.last());
                assert(prev.push((h2, f)).map_values(
                    |x: (Seq<Seq<char>>, Seq<Seq<char>>)| x.1,
                ) =~= prev.map_values(|x: (Seq<Seq<char>>, Seq<Seq<char>>)| x.1).push(f));
            },
            None => {},
        }
    }
}

/// Within one source, records come out in the order of the rows that parsed,
/// each with the header snapshot valid when it was normalized; a malformed
/// row is skipped, never fatal, and the stage goes on to await the next source.
pub proof fn lemma_source_rows(h: Seq<Seq<char>>, rows: Seq<Option<Seq<Seq<char>>>>)
    ensures
        forwarded(run(awaiting(), source_events(h, rows)).1).map_values(
            |x: (Seq<Seq<char>>, Seq<Seq<char>>)| x.1,
        ) == well_formed(rows),
        forwarded(run(awaiting(), source_events(h, rows)).1).len() == well_formed(rows).len(),
        skipped(run(awaiting(), source_events(h, rows)).1) + well_formed(rows).len()
            == rows.len(),
        opened(run(awaiting(), source_events(h, rows)).1) == 1,
        run(awaiting(), source_events(h, rows)).0 == awaiting(),
{
    lemma_single_source(h, rows);
    let ra = row_actions(dedup(h), rows);
    lemma_row_actions_counts(dedup(h), rows);
    lemma_forwarded_concat(seq![ActionModel::Open], ra);
    lemma_forwarded_concat(seq![ActionModel::Open] + ra, seq![ActionModel::Close]);
    reveal_with_fuel(forwarded, 2);
    reveal_with_fuel(skipped, 2);
    reveal_with_fuel(opened, 2);
    let one = seq![ActionModel::Open];
    assert(one.drop_last() =~= Seq::<ActionModel>::empty());
    let close = seq![ActionModel::Close];
    assert(close.drop_last() =~= Seq::<ActionModel>::empty());
    assert(forwarded(one) =~= Seq::<(Seq<Seq<char>>, Seq<Seq<char>>)>::empty());
    assert(forwarded(close) =~= Seq::<(Seq<Seq<char>>, Seq<Seq<char>>)>::empty());
    assert(forwarded(one) + forwarded(ra) + forwarded(close) =~= forwarded(ra));
}

/// A supply of sources that closes before any source is submitted ends the
/// stage at once: no data channel is opened, the stage finishes, and when the
/// stage downstream returns success the run settles as a success.
pub proof fn lemma_no_sources(joining: String)
    ensures
        settled(joining, Joined::Returned(Ok(()))) is Ok,
        run(awaiting(), seq![EventModel::SupplyEnd]) == (
            StageModel { current: None, done: true },
            seq![ActionModel::Finish],
        ),
        opened(run(awaiting(), seq![EventModel::SupplyEnd]).1) == 0,
{
    reveal_with_fuel(run, 2);
    reveal_with_fuel(opened, 2);
    let evs = seq![EventModel::SupplyEnd];
    assert(evs.drop_last() =~= Seq::<EventModel>::empty());
    assert(run(awaiting(), evs).1 =~= seq![ActionModel::Finish]);
    let acts = seq![ActionModel::Finish];
    assert(acts.drop_last() =~= Seq::<ActionModel>::empty());
}

/// The header list of a source never shrinks, and after each row it names at
/// least as many columns as every row that parsed so far.
pub proof fn lemma_headers_cover_rows(h: Seq<Seq<char>>, rows: Seq<Option<Seq<Seq<char>>>>)
    ensures
        headers_after(h, rows).len() >= h.len(),
        forall|i: int|
            0 <= i < well_formed(rows).len() ==> headers_after(h, rows).len() >= (#[trigger] well_formed(
                rows,
            )[i]).len(),
    decreases rows.len(),
{
    if rows.len() > 0 {
        let init = rows.drop_last();
        lemma_headers_cover_rows(h, init);
        let prev = headers_after(h, init);
        match rows.last() {
            Some(f) => {
                if prev.len() < f.len() {
                    lemma_reconcile_grows_and_dedups(prev, f.len());
                }
                assert(well_formed(rows) == well_formed(init).push(f));
            },
            None => {},
        }
    }
}

/// The reader stage of a conversion run.
pub struct ReaderStage {
    headers: Headers,
    open: bool,
    done: bool,
}

impl View for ReaderStage {
    type V = StageModel;

    closed spec fn view(&self) -> StageModel {
        StageModel {
            current: if self.open {
                Some(self.headers@)
            } else {
                None
            },
            done: self.done,
        }
    }
}

impl ReaderStage {
    /// A stage awaiting its first source.
    pub fn new() -> (r: ReaderStage)
        ensures
            r@ == awaiting(),
    {
        ReaderStage { headers: Headers::new(Vec::new()), open: false, done: false }
    }

    /// Takes one event and says what to do about it.
    pub fn step(&mut self, event: ReaderEvent) -> (action: ReaderAction)
        ensures
            (final(self)@, action@) == stage_step(old(self)@, event@),
            match (event@, action) {
                (EventModel::Source(h), ReaderAction::OpenChannel(renamed)) => renamed@.map_values(
                    |p: u64| p as nat,
                ) == duplicate_positions(h),
                (EventModel::Row(row), ReaderAction::Forward(n)) => {
                    &&& n.record.field_count == n.record.data@.len()
                    &&& n.renamed@.map_values(|p: u64| p as nat) == row_renames(
                        old(self)@.current.unwrap(),
                        row,
                    )
                },
                _ => true,
            },
    {
        if self.done {
            return ReaderAction::Ignore;
        }
        match event {
            ReaderEvent::Source(h) => {
                if self.open {
                    ReaderAction::Ignore
                } else {
                    let ghost hv = names(h@);
                    let mut headers = Headers::new(h);
                    let renamed = headers.extend(0);
                    proof {
                        assert(widened(hv, 0) == hv);
                    }
                    self.headers = headers;
                    self.open = true;
                    ReaderAction::OpenChannel(renamed)
                }
            },
            ReaderEvent::Row(row) => {
                if !self.open {
                    ReaderAction::Ignore
                } else {
                    match row {
                        RowRead::Fields(f) => ReaderAction::Forward(normalize(&mut self.headers, f)),
                        RowRead::Malformed => ReaderAction::Skip,
                    }
                }
            },
            ReaderEvent::SourceEnd => {
                if self.open {
                    self.open = false;
                    ReaderAction::CloseChannel
                } else {
                    ReaderAction::Ignore
                }
            },
            ReaderEvent::SupplyEnd => {
                if self.open {
                    ReaderAction::Ignore
                } else {
                    self.done = true;
                    ReaderAction::Finish
                }
            },
        }
    }
}

} // verus!
