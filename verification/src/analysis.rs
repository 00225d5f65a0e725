//! The commit aggregator: it owns the ordered list of analyzed commits,
//! appends one immutable record per traversed commit, and answers read-only
//! queries — selection by index, per-commit totals and per-language totals.

use vstd::prelude::*;
use crate::router::{EventModel, FileChange, FileChangeModel, route_events, route_spec};
use crate::gitdiff::collect_diff_events;

verus! {

/// One analyzed commit: identity, metadata and its finalized change records.
#[derive(Debug, Clone, PartialEq)]
pub struct CommitInfo {
    pub id: String,
    pub timestamp: i64,
    pub message: String,
    pub author: String,
    pub code_changes: Vec<FileChange>,
}

/// The mathematical shape of one commit record.
pub struct CommitInfoModel {
    pub id: Seq<char>,
    pub timestamp: i64,
    pub message: Seq<char>,
    pub author: Seq<char>,
    pub code_changes: Seq<FileChangeModel>,
}

impl View for CommitInfo {
    type V = CommitInfoModel;

    open spec fn view(&self) -> CommitInfoModel {
        CommitInfoModel {
            id: self.id@,
            timestamp: self.timestamp,
            message: self.message@,
            author: self.author@,
            code_changes: self.code_changes.deep_view(),
        }
    }
}

impl DeepView for CommitInfo {
    type V = CommitInfoModel;

    open spec fn deep_view(&self) -> CommitInfoModel {
        self.view()
    }
}

/// The mathematical shape of the aggregator.
pub struct AnalysisModel {
    pub claude_api_key: Seq<char>,
    pub commits: Seq<CommitInfoModel>,
}

/// The aggregator: the key for the generative-text collaborator and the
/// ordered, append-only list of analyzed commits.
#[derive(Debug)]
pub struct CommitAnalysis {
    claude_api_key: String,
    commits: Vec<CommitInfo>,
}

impl View for CommitAnalysis {
    type V = AnalysisModel;

    closed spec fn view(&self) -> AnalysisModel {
        AnalysisModel { claude_api_key: self.claude_api_key@, commits: self.commits.deep_view() }
    }
}

impl CommitAnalysis {
    /// A fresh aggregator holding no commits.
    pub fn new(api_key: String) -> (r: CommitAnalysis)
        ensures
            r@.claude_api_key == api_key@,
            r@.commits == Seq::<CommitInfoModel>::empty(),
    {
        let r = CommitAnalysis { claude_api_key: api_key, commits: Vec::new() };
        proof {
            assert(r.commits.deep_view() =~= Seq::<CommitInfoModel>::empty());
        }
        r
    }

    /// The key handed to the generative-text collaborator.
    pub fn api_key(&self) -> (r: &String)
        ensures
            r@ == self@.claude_api_key,
    {
        &self.claude_api_key
    }

    /// How many commits have been analyzed so far.
    pub fn commit_count(&self) -> (r: usize)
        ensures
            r == self@.commits.len(),
    {
        self.commits.len()
    }

    /// Selection by index, validated: `Some` exactly when `index` is in
    /// bounds, and never a read past the end of the list.
    pub fn get_commit(&self, index: usize) -> (r: Option<&CommitInfo>)
        ensures
            index < self@.commits.len() ==> (r matches Some(c) && c@ == self@.commits[index as int]),
            index >= self@.commits.len() ==> r is None,
    {
        if index < self.commits.len() {
            Some(&self.commits[index])
        } else {
            None
        }
    }

    /// Appends one already-analyzed commit record. The caller guarantees each
    /// commit is added at most once; no duplicate detection is performed.
    pub fn add_record(&mut self, commit: CommitInfo)
        ensures
            final(self)@.claude_api_key == old(self)@.claude_api_key,
            final(self)@.commits == old(self)@.commits.push(commit@),
    {
        let ghost before: Seq<CommitInfoModel> = self.commits.deep_view();
        let ghost cm: CommitInfoModel = commit@;
        self.commits.push(commit);
        proof {
            assert(self.commits.deep_view() =~= before.push(cm));
        }
    }

    /// Walks the commit's diff and appends the analyzed commit record. On a
    /// traversal error nothing is appended and the error is handed back; on
    /// success exactly the routed change records of the diff's event stream
    /// are stored, after the commits already held.
    pub fn add_commit(
        &mut self,
        id: String,
        timestamp: i64,
        message: String,
        author: String,
        diff: &git2::Diff,
    ) -> (r: Result<(), git2::Error>)
        ensures
            final(self)@.claude_api_key == old(self)@.claude_api_key,
            r is Err ==> final(self)@ == old(self)@,
            r is Ok ==> exists|events: Seq<EventModel>|
                final(self)@.commits == old(self)@.commits.push(
                    (CommitInfoModel {
                        id: id@,
                        timestamp: timestamp,
                        message: message@,
                        author: author@,
                        code_changes: #[trigger] route_spec(events),
                    }),
                ),
    {
        match collect_diff_events(diff) {
            Err(e) => Err(e),
            Ok(events) => {
                let ghost evs: Seq<EventModel> = events.deep_view();
                let ghost before: Seq<CommitInfoModel> = self.commits.deep_view();
                let changes = route_events(events);
                let record = CommitInfo { id, timestamp, message, author, code_changes: changes };
                self.commits.push(record);
                proof {
                    assert(self.commits.deep_view() =~= before.push(
                        (CommitInfoModel {
                            id: record.id@,
                            timestamp: timestamp,
                            message: record.message@,
                            author: record.author@,
                            code_changes: route_spec(evs),
                        }),
                    ));
                }
                Ok(())
            },
        }
    }
}

} // verus!
