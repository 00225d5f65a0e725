//! The diff event router: a commit's diff arrives as one ordered stream of
//! file-boundary and line events, and is regrouped into one finalized change
//! record per announced file.
//!
//! The router keeps a single current-path cursor and an order-preserving
//! buffer of pending lines. A boundary event first flushes the buffer into a
//! record for the previous path (when that path is non-empty), then moves the
//! cursor; the end of the stream flushes once more. A boundary whose new path
//! is unavailable is modelled as an empty path: it still triggers the flush,
//! but no record is ever created for it.

use vstd::prelude::*;
use crate::language::{Language, language_of, detect_language};

verus! {

/// One event of a commit's diff traversal.
#[derive(Debug, Clone, PartialEq)]
pub enum DiffEvent {
    /// Announces the file the following line events belong to. An empty path
    /// stands for a boundary whose new path is unavailable.
    FileBoundary { path: String },
    /// One diff line: an addition when `is_addition`, otherwise a deletion.
    Line { is_addition: bool, content: String },
}

/// The mathematical shape of one diff event.
pub enum EventModel {
    Boundary { path: Seq<char> },
    Line { is_addition: bool, content: Seq<char> },
}

impl View for DiffEvent {
    type V = EventModel;

    open spec fn view(&self) -> EventModel {
        match self {
            DiffEvent::FileBoundary { path } => EventModel::Boundary { path: path@ },
            DiffEvent::Line { is_addition, content } => EventModel::Line {
                is_addition: *is_addition,
                content: content@,
            },
        }
    }
}

impl DeepView for DiffEvent {
    type V = EventModel;

    open spec fn deep_view(&self) -> EventModel {
        self.view()
    }
}

/// The finalized changes of one file within one commit.
#[derive(Debug, Clone, PartialEq)]
pub struct FileChange {
    pub file_path: String,
    pub additions: Vec<String>,
    pub deletions: Vec<String>,
    pub language: Language,
}

/// The mathematical shape of one change record.
pub struct FileChangeModel {
    pub file_path: Seq<char>,
    pub additions: Seq<Seq<char>>,
    pub deletions: Seq<Seq<char>>,
    pub language: Language,
}

impl View for FileChange {
    type V = FileChangeModel;

    open spec fn view(&self) -> FileChangeModel {
        FileChangeModel {
            file_path: self.file_path@,
            additions: self.additions.deep_view(),
            deletions: self.deletions.deep_view(),
            language: self.language,
        }
    }
}

impl DeepView for FileChange {
    type V = FileChangeModel;

    open spec fn deep_view(&self) -> FileChangeModel {
        self.view()
    }
}

/// The added lines of a pending buffer, in arrival order.
pub open spec fn split_additions(buf: Seq<(bool, Seq<char>)>) -> Seq<Seq<char>>
    decreases buf.len(),
{
    if buf.len() == 0 {
        Seq::empty()
    } else {
        let rest = split_additions(buf.drop_last());
        if buf.last().0 {
            rest.push(buf.last().1)
        } else {
            rest
        }
    }
}

/// The removed lines of a pending buffer, in arrival order.
pub open spec fn split_deletions(buf: Seq<(bool, Seq<char>)>) -> Seq<Seq<char>>
    decreases buf.len(),
{
    if buf.len() == 0 {
        Seq::empty()
    } else {
        let rest = split_deletions(buf.drop_last());
        if !buf.last().0 {
            rest.push(buf.last().1)
        } else {
            rest
        }
    }
}

/// The record flushed for `path` from a pending buffer.
pub open spec fn change_of(path: Seq<char>, buf: Seq<(bool, Seq<char>)>) -> FileChangeModel {
    FileChangeModel {
        file_path: path,
        additions: split_additions(buf),
        deletions: split_deletions(buf),
        language: language_of(path),
    }
}

/// The records still to come when `events` remain, the cursor holds `current`
/// and the pending lines are `buf`.
pub open spec fn route_from(
    events: Seq<EventModel>,
    current: Seq<char>,
    buf: Seq<(bool, Seq<char>)>,
) -> Seq<FileChangeModel>
    decreases events.len(),
{
    if events.len() == 0 {
        if current.len() > 0 {
            seq![change_of(current, buf)]
        } else {
            Seq::empty()
        }
    } else {
        match events.first() {
            EventModel::Boundary { path } => if current.len() > 0 {
                seq![change_of(current, buf)] + route_from(events.drop_first(), path, Seq::empty())
            } else {
                route_from(events.drop_first(), path, buf)
            },
            EventModel::Line { is_addition, content } => route_from(
                events.drop_first(),
                current,
                buf.push((is_addition, content)),
            ),
        }
    }
}

/// The change records of a whole event stream.
pub open spec fn route_spec(events: Seq<EventModel>) -> Seq<FileChangeModel> {
    route_from(events, Seq::empty(), Seq::empty())
}

/// The file paths of a list of change records, in order.
pub open spec fn record_paths(changes: Seq<FileChangeModel>) -> Seq<Seq<char>> {
    changes.map_values(|c: FileChangeModel| c.file_path)
}

/// The non-empty boundary paths of an event stream, in arrival order.
pub open spec fn boundary_paths(events: Seq<EventModel>) -> Seq<Seq<char>>
    decreases events.len(),
{
    if events.len() == 0 {
        Seq::empty()
    } else {
        match events.first() {
            EventModel::Boundary { path } => if path.len() > 0 {
                seq![path] + boundary_paths(events.drop_first())
            } else {
                boundary_paths(events.drop_first())
            },
            EventModel::Line { .. } => boundary_paths(events.drop_first()),
        }
    }
}

/// Splitting a buffer never loses or invents a line: the additions and the
/// deletions together number exactly the buffered lines.
pub proof fn lemma_split_lengths(buf: Seq<(bool, Seq<char>)>)
    ensures
        split_additions(buf).len() + split_deletions(buf).len() == buf.len(),
    decreases buf.len(),
{
    if buf.len() > 0 {
        lemma_split_lengths(buf.drop_last());
    }
}

/// Marks a buffered line as an addition.
pub open spec fn addition_pred() -> spec_fn((bool, Seq<char>)) -> bool {
    |p: (bool, Seq<char>)| p.0
}

/// Marks a buffered line as a deletion.
pub open spec fn deletion_pred() -> spec_fn((bool, Seq<char>)) -> bool {
    |p: (bool, Seq<char>)| !p.0
}

/// The text of a buffered line.
pub open spec fn pair_content() -> spec_fn((bool, Seq<char>)) -> Seq<char> {
    |p: (bool, Seq<char>)| p.1
}

/// The split lists keep arrival order: the additions are exactly the
/// buffered lines marked as additions, in buffer order, and the deletions
/// are exactly the rest, in buffer order.
pub proof fn lemma_split_keeps_arrival_order(buf: Seq<(bool, Seq<char>)>)
    ensures
        split_additions(buf) == buf.filter(addition_pred()).map_values(pair_content()),
        split_deletions(buf) == buf.filter(deletion_pred()).map_values(pair_content()),
    decreases buf.len(),
{
    reveal(Seq::filter);
    if buf.len() == 0 {
        assert(buf.filter(addition_pred()).map_values(pair_content()) =~= Seq::<Seq<char>>::empty());
        assert(buf.filter(deletion_pred()).map_values(pair_content()) =~= Seq::<Seq<char>>::empty());
    } else {
        lemma_split_keeps_arrival_order(buf.drop_last());
        if buf.last().0 {
            assert(split_additions(buf) == split_additions(buf.drop_last()).push(buf.last().1));
            assert(split_deletions(buf) == split_deletions(buf.drop_last()));
            assert(buf.filter(addition_pred()) == buf.drop_last().filter(addition_pred()).push(
                buf.last(),
            ));
            assert(buf.filter(deletion_pred()) == buf.drop_last().filter(deletion_pred()));
            assert(buf.filter(addition_pred()).map_values(pair_content()) =~= buf.drop_last()
                .filter(addition_pred()).map_values(pair_content()).push(buf.last().1));
        } else {
            assert(split_deletions(buf) == split_deletions(buf.drop_last()).push(buf.last().1));
            assert(split_additions(buf) == split_additions(buf.drop_last()));
            assert(buf.filter(deletion_pred()) == buf.drop_last().filter(deletion_pred()).push(
                buf.last(),
            ));
            assert(buf.filter(addition_pred()) == buf.drop_last().filter(addition_pred()));
            assert(buf.filter(deletion_pred()).map_values(pair_content()) =~= buf.drop_last()
                .filter(deletion_pred()).map_values(pair_content()).push(buf.last().1));
        }
    }
}

/// Every flushed record accounts for each line routed to its file exactly
/// once: additions and deletions together number the buffered line events,
/// and each list is built by appending in arrival order.
pub proof fn lemma_change_accounts_all_lines(path: Seq<char>, buf: Seq<(bool, Seq<char>)>)
    ensures
        change_of(path, buf).additions.len() + change_of(path, buf).deletions.len() == buf.len(),
{
    lemma_split_lengths(buf);
}

proof fn lemma_route_from_paths(
    events: Seq<EventModel>,
    current: Seq<char>,
    buf: Seq<(bool, Seq<char>)>,
)
    ensures
        record_paths(route_from(events, current, buf)) == (if current.len() > 0 {
            seq![current]
        } else {
            Seq::<Seq<char>>::empty()
        }) + boundary_paths(events),
    decreases events.len(),
{
    let ghost head: Seq<Seq<char>> = if current.len() > 0 {
        seq![current]
    } else {
        Seq::empty()
    };
    if events.len() == 0 {
        if current.len() > 0 {
            assert(record_paths(seq![change_of(current, buf)]) =~= head + boundary_paths(events));
        } else {
            assert(record_paths(Seq::empty()) =~= head + boundary_paths(events));
        }
    } else {
        match events.first() {
            EventModel::Boundary { path } => {
                if current.len() > 0 {
                    lemma_route_from_paths(events.drop_first(), path, Seq::empty());
                    assert(record_paths(
                        seq![change_of(current, buf)] + route_from(
                            events.drop_first(),
                            path,
                            Seq::empty(),
                        ),
                    ) =~= seq![current] + record_paths(
                        route_from(events.drop_first(), path, Seq::empty()),
                    ));
                    assert(seq![current] + ((if path.len() > 0 {
                        seq![path]
                    } else {
                        Seq::<Seq<char>>::empty()
                    }) + boundary_paths(events.drop_first())) =~= head + boundary_paths(events));
                } else {
                    lemma_route_from_paths(events.drop_first(), path, buf);
                    assert((if path.len() > 0 {
                        seq![path]
                    } else {
                        Seq::<Seq<char>>::empty()
                    }) + boundary_paths(events.drop_first()) =~= head + boundary_paths(events));
                }
            },
            EventModel::Line { is_addition, content } => {
                lemma_route_from_paths(events.drop_first(), current, buf.push((is_addition, content)));
                assert(head + boundary_paths(events.drop_first()) =~= head + boundary_paths(events));
            },
        }
    }
}

/// One record per announced file: the file paths of the routed records are
/// exactly the non-empty boundary paths of the stream, in arrival order; in
/// particular the number of records equals the number of non-empty boundary
/// paths.
pub proof fn lemma_record_paths(events: Seq<EventModel>)
    ensures
        record_paths(route_spec(events)) == boundary_paths(events),
        route_spec(events).len() == boundary_paths(events).len(),
{
    lemma_route_from_paths(events, Seq::empty(), Seq::empty());
    assert(Seq::<Seq<char>>::empty() + boundary_paths(events) =~= boundary_paths(events));
    assert(record_paths(route_spec(events)).len() == route_spec(events).len());
}

/// When the stream announces each non-empty path at most once — as a
/// tree-to-tree diff does — no two routed records share a file path.
pub proof fn lemma_no_duplicate_paths(events: Seq<EventModel>)
    requires
        forall|i: int, j: int|
            0 <= i < j < boundary_paths(events).len() ==> boundary_paths(events)[i]
                != boundary_paths(events)[j],
    ensures
        forall|i: int, j: int|
            0 <= i < j < route_spec(events).len() ==> #[trigger] route_spec(events)[i].file_path
                != #[trigger] route_spec(events)[j].file_path,
{
    lemma_record_paths(events);
    assert(forall|i: int|
        0 <= i < route_spec(events).len() ==> #[trigger] route_spec(events)[i].file_path
            == record_paths(route_spec(events))[i]);
}

/// Routing is deterministic: identical event streams always produce identical
/// record lists, so re-running an aggregation reproduces the same records.
pub proof fn lemma_route_deterministic(e1: Seq<EventModel>, e2: Seq<EventModel>)
    requires
        e1 == e2,
    ensures
        route_spec(e1) == route_spec(e2),
{
}

/// Builds the record flushed for `path` from the pending buffer `buf`,
/// splitting the buffered lines into additions and deletions in arrival order.
fn make_change(path: &String, buf: &Vec<(bool, String)>) -> (r: FileChange)
    ensures
        r.deep_view() == change_of(path@, buf.deep_view()),
{
    let ghost bdv = buf.deep_view();
    let mut additions: Vec<String> = Vec::new();
    let mut deletions: Vec<String> = Vec::new();
    let n = buf.len();
    let mut i: usize = 0;
    while i < n
        invariant
            i <= n,
            n == buf.len(),
            bdv == buf.deep_view(),
            bdv.len() == n,
            additions.deep_view() == split_additions(bdv.take(i as int)),
            deletions.deep_view() == split_deletions(bdv.take(i as int)),
        decreases n - i,
    {
        let ghost adv = additions.deep_view();
        let ghost ddv = deletions.deep_view();
        let (is_add, content) = &buf[i];
        if *is_add {
            additions.push(content.clone());
            proof {
                assert(additions.deep_view() =~= adv.push(content@));
            }
        } else {
            deletions.push(content.clone());
            proof {
                assert(deletions.deep_view() =~= ddv.push(content@));
            }
        }
        proof {
            assert(bdv.take(i + 1 as int).drop_last() =~= bdv.take(i as int));
            assert(bdv.take(i + 1 as int).last() == bdv[i as int]);
            assert(bdv[i as int] == (buf[i as int].0, buf[i as int].1@));
        }
        i += 1;
    }
    proof {
        assert(bdv.take(n as int) =~= bdv);
    }
    FileChange {
        file_path: path.clone(),
        additions,
        deletions,
        language: detect_language(path.as_str()),
    }
}

/// Routes a commit's diff event stream into its list of change records: the
/// result is exactly `route_spec` of the stream.
pub fn route_events(events: Vec<DiffEvent>) -> (changes: Vec<FileChange>)
    ensures
        changes.deep_view() == route_spec(events.deep_view()),
{
    let ghost all: Seq<EventModel> = events.deep_view();
    let mut changes: Vec<FileChange> = Vec::new();
    let mut current: String = String::new();
    let mut buf: Vec<(bool, String)> = Vec::new();
    let n = events.len();
    let mut i: usize = 0;
    proof {
        assert(all.skip(0) =~= all);
        assert(changes.deep_view() =~= Seq::<FileChangeModel>::empty());
        assert(buf.deep_view() =~= Seq::<(bool, Seq<char>)>::empty());
        assert(Seq::<FileChangeModel>::empty() + route_from(all, current@, buf.deep_view())
            =~= route_from(all, current@, buf.deep_view()));
    }
    while i < n
        invariant
            i <= n,
            n == events.len(),
            all == events.deep_view(),
            all.len() == n,
            route_spec(all) == changes.deep_view() + route_from(
                all.skip(i as int),
                current@,
                buf.deep_view(),
            ),
        decreases n - i,
    {
        let ghost rest = all.skip(i as int);
        let ghost cdv = changes.deep_view();
        let ghost bdv = buf.deep_view();
        proof {
            assert(rest.first() == all[i as int]);
            assert(rest.drop_first() =~= all.skip(i + 1 as int));
        }
        match &events[i] {
            DiffEvent::FileBoundary { path } => {
                if current.as_str().unicode_len() > 0 {
                    let change = make_change(&current, &buf);
                    changes.push(change);
                    buf = Vec::new();
                    proof {
                        assert(changes.deep_view() =~= cdv.push(change_of(current@, bdv)));
                        assert(cdv.push(change_of(current@, bdv)) =~= cdv + seq![
                            change_of(current@, bdv),
                        ]);
                        assert(buf.deep_view() =~= Seq::<(bool, Seq<char>)>::empty());
                        assert((cdv + seq![change_of(current@, bdv)]) + route_from(
                            all.skip(i + 1 as int),
                            all[i as int]->Boundary_path,
                            Seq::empty(),
                        ) =~= cdv + (seq![change_of(current@, bdv)] + route_from(
                            all.skip(i + 1 as int),
                            all[i as int]->Boundary_path,
                            Seq::empty(),
                        )));
                    }
                } else {
                    proof {
                        assert(current@.len() == 0);
                    }
                }
                current = path.clone();
            },
            DiffEvent::Line { is_addition, content } => {
                buf.push((*is_addition, content.clone()));
                proof {
                    assert(buf.deep_view() =~= bdv.push((*is_addition, content@)));
                }
            },
        }
        i += 1;
    }
    proof {
        assert(all.skip(n as int) =~= Seq::<EventModel>::empty());
    }
    if current.as_str().unicode_len() > 0 {
        let ghost cdv = changes.deep_view();
        let change = make_change(&current, &buf);
        changes.push(change);
        proof {
            assert(changes.deep_view() =~= cdv.push(change_of(current@, buf.deep_view())));
            assert(cdv.push(change_of(current@, buf.deep_view())) =~= cdv + seq![
                change_of(current@, buf.deep_view()),
            ]);
        }
    } else {
        proof {
            assert(current@.len() == 0);
            assert(changes.deep_view() + Seq::<FileChangeModel>::empty() =~= changes.deep_view());
        }
    }
    changes
}

} // verus!
