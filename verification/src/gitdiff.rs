//! The boundary to the version-control collaborator: the one call that walks
//! an already-computed tree-to-tree diff and reports it as a flat stream of
//! file-boundary and line events.

use vstd::prelude::*;
use crate::router::DiffEvent;

verus! {

#[verifier::external_type_specification]
#[verifier::external_body]
pub struct ExGitDiff<'repo>(git2::Diff<'repo>);

#[verifier::external_type_specification]
#[verifier::external_body]
pub struct ExGitError(git2::Error);

/// Relies on git2::Diff::foreach: it reports each file delta once, in
/// traversal order, through the file callback, and each diff line through the
/// line callback, and returns its error when the traversal fails. Each file
/// callback becomes a boundary event carrying the delta's new path (empty
/// when unavailable); each line callback becomes a line event, an addition
/// exactly when the line's origin sigil is `+`. Which events arrive depends
/// on the diff alone, which is opaque here, so nothing is promised of them.
#[verifier::external_body]
pub(crate) fn collect_diff_events(diff: &git2::Diff) -> (r: Result<Vec<DiffEvent>, git2::Error>) {
    let events = std::cell::RefCell::new(Vec::new());
    diff.foreach(
        &mut |delta, _| {
            let path = delta.new_file().path().map(|p| p.to_string_lossy().into_owned()).unwrap_or_default();
            events.borrow_mut().push(DiffEvent::FileBoundary { path });
            true
        },
        None, None,
        Some(&mut |_, _, line| {
            let content = String::from_utf8_lossy(line.content()).into_owned();
            events.borrow_mut().push(DiffEvent::Line { is_addition: line.origin() == '+', content });
            true
        }),
    )?;
    Ok(events.into_inner())
}

} // verus!
