use commit_mentor::analysis::CommitAnalysis;
use commit_mentor::analysis::CommitInfo;
use commit_mentor::router::DiffEvent;
use commit_mentor::router::FileChange;
use commit_mentor::router::route_events;
use commit_mentor::language::Language;

fn boundary(path: &str) -> DiffEvent {
    DiffEvent::FileBoundary { path: path.to_string() }
}

fn line(is_addition: bool, content: &str) -> DiffEvent {
    DiffEvent::Line { is_addition, content: content.to_string() }
}

fn change(path: &str, additions: &[&str], deletions: &[&str], language: Language) -> FileChange {
    FileChange {
        file_path: path.to_string(),
        additions: additions.iter().map(|s| s.to_string()).collect(),
        deletions: deletions.iter().map(|s| s.to_string()).collect(),
        language,
    }
}

fn commit(id: &str, timestamp: i64, message: &str, author: &str, changes: Vec<FileChange>) -> CommitInfo {
    CommitInfo {
        id: id.to_string(),
        timestamp,
        message: message.to_string(),
        author: author.to_string(),
        code_changes: changes,
    }
}

#[test]
fn routes_two_files_in_order() {
    let events = vec![
        boundary("a.rs"),
        line(true, "fn main() {}"),
        line(true, "// done"),
        boundary("b.py"),
        line(false, "print('x')"),
    ];
    let changes = route_events(events);
    assert_eq!(changes.len(), 2);
    assert_eq!(changes[0].file_path, "a.rs");
    assert_eq!(changes[0].additions, vec!["fn main() {}", "// done"]);
    assert!(changes[0].deletions.is_empty());
    assert_eq!(changes[0].language, Language::Rust);
    assert_eq!(changes[1].file_path, "b.py");
    assert!(changes[1].additions.is_empty());
    assert_eq!(changes[1].deletions, vec!["print('x')"]);
    assert_eq!(changes[1].language, Language::Python);
}

#[test]
fn empty_stream_yields_no_changes() {
    let changes = route_events(Vec::new());
    assert!(changes.is_empty());
}

#[test]
fn line_order_within_a_file_is_arrival_order() {
    let events = vec![
        boundary("x.js"),
        line(true, "first"),
        line(false, "gone1"),
        line(true, "second"),
        line(false, "gone2"),
        line(true, "third"),
    ];
    let changes = route_events(events);
    assert_eq!(changes.len(), 1);
    assert_eq!(changes[0].additions, vec!["first", "second", "third"]);
    assert_eq!(changes[0].deletions, vec!["gone1", "gone2"]);
    assert_eq!(
        changes[0].additions.len() + changes[0].deletions.len(),
        5
    );
}

#[test]
fn boundary_without_lines_still_makes_a_record() {
    let events = vec![boundary("a.rs"), boundary("b.rs"), line(true, "x")];
    let changes = route_events(events);
    assert_eq!(changes.len(), 2);
    assert_eq!(changes[0].file_path, "a.rs");
    assert!(changes[0].additions.is_empty());
    assert!(changes[0].deletions.is_empty());
    assert_eq!(changes[1].file_path, "b.rs");
    assert_eq!(changes[1].additions, vec!["x"]);
}

#[test]
fn empty_path_boundary_flushes_but_makes_no_record() {
    let events = vec![boundary("a.rs"), line(true, "kept"), boundary(""), line(true, "dropped")];
    let changes = route_events(events);
    assert_eq!(changes.len(), 1);
    assert_eq!(changes[0].file_path, "a.rs");
    assert_eq!(changes[0].additions, vec!["kept"]);
}

#[test]
fn lines_before_first_boundary_go_to_first_flush() {
    let events = vec![line(true, "early"), boundary("a.rs"), line(true, "late")];
    let changes = route_events(events);
    assert_eq!(changes.len(), 1);
    assert_eq!(changes[0].additions, vec!["early", "late"]);
}

#[test]
fn extensionless_path_routes_as_unknown() {
    let events = vec![boundary("Makefile"), line(true, "all:")];
    let changes = route_events(events);
    assert_eq!(changes.len(), 1);
    assert_eq!(changes[0].language, Language::Unknown);
}

#[test]
fn each_nonempty_boundary_yields_one_record() {
    let events = vec![
        boundary("a.rs"),
        boundary(""),
        boundary("b.rs"),
        line(true, "x"),
        boundary("c.rs"),
    ];
    let changes = route_events(events);
    assert_eq!(changes.len(), 3);
    let paths: Vec<&str> = changes.iter().map(|c| c.file_path.as_str()).collect();
    assert_eq!(paths, vec!["a.rs", "b.rs", "c.rs"]);
}

#[test]
fn rerouting_the_same_stream_is_identical() {
    let make = || {
        vec![
            boundary("a.rs"),
            line(true, "x"),
            line(false, "y"),
            boundary("b.c"),
            line(true, "z"),
        ]
    };
    let first = route_events(make());
    let second = route_events(make());
    assert_eq!(first, second);
}

#[test]
fn per_commit_stats_sums_across_files() {
    let c = commit(
        "c1",
        0,
        "msg",
        "me",
        vec![
            change("a.rs", &["l1", "l2"], &[], Language::Rust),
            change("b.py", &[], &["l3"], Language::Python),
        ],
    );
    let (adds, dels, files) = c.per_commit_stats();
    assert_eq!(adds, 2);
    assert_eq!(dels, 1);
    assert_eq!(files, 2);
}

#[test]
fn empty_diff_commit_has_empty_stats() {
    let c = commit("c0", 0, "root", "me", Vec::new());
    let (adds, dels, files) = c.per_commit_stats();
    assert_eq!(adds, 0);
    assert_eq!(dels, 0);
    assert_eq!(files, 0);
    let stats = c.per_language_stats();
    assert!(stats.is_empty());
}

#[test]
fn per_language_stats_folds_repeated_languages() {
    let c = commit(
        "c1",
        0,
        "msg",
        "me",
        vec![
            change("a.rs", &["a1", "a2"], &[], Language::Rust),
            change("b.py", &["b1"], &["b2"], Language::Python),
            change("c.rs", &["c1", "c2", "c3"], &["c4"], Language::Rust),
        ],
    );
    let stats = c.per_language_stats();
    assert_eq!(stats.len(), 2);
    assert_eq!(stats[0].language, Language::Rust);
    assert_eq!(stats[0].additions, 5);
    assert_eq!(stats[0].deletions, 1);
    assert_eq!(stats[1].language, Language::Python);
    assert_eq!(stats[1].additions, 1);
    assert_eq!(stats[1].deletions, 1);
}

#[test]
fn per_language_stats_ignore_file_order() {
    let files = vec![
        change("a.rs", &["a1", "a2"], &[], Language::Rust),
        change("b.py", &["b1"], &["b2"], Language::Python),
        change("c.rs", &["c1", "c2", "c3"], &["c4"], Language::Rust),
    ];
    let mut reordered = files.clone();
    reordered.reverse();
    let c1 = commit("c1", 0, "m", "a", files);
    let c2 = commit("c1", 0, "m", "a", reordered);
    let s1 = c1.per_language_stats();
    let s2 = c2.per_language_stats();
    for s in &s1 {
        let other = s2.iter().find(|t| t.language == s.language).unwrap();
        assert_eq!(s.additions, other.additions);
        assert_eq!(s.deletions, other.deletions);
    }
    assert_eq!(s1.len(), s2.len());
}

#[test]
fn selection_is_bounds_checked() {
    let mut analysis = CommitAnalysis::new("key".to_string());
    assert_eq!(analysis.commit_count(), 0);
    assert!(analysis.get_commit(0).is_none());
    analysis.add_record(commit("c1", 10, "first", "a", Vec::new()));
    analysis.add_record(commit("c2", 20, "second", "b", Vec::new()));
    assert_eq!(analysis.commit_count(), 2);
    assert_eq!(analysis.get_commit(0).unwrap().id, "c1");
    assert_eq!(analysis.get_commit(1).unwrap().id, "c2");
    assert!(analysis.get_commit(2).is_none());
    assert!(analysis.get_commit(usize::MAX).is_none());
    assert_eq!(analysis.api_key(), "key");
}

#[test]
fn scenario_two_file_commit_end_to_end() {
    let events = vec![
        boundary("a.rs"),
        line(true, "add one"),
        line(true, "add two"),
        boundary("b.py"),
        line(false, "removed"),
    ];
    let changes = route_events(events);
    assert_eq!(changes.len(), 2);
    assert_eq!(changes[0].language, Language::Rust);
    assert_eq!(changes[1].language, Language::Python);
    let c = commit("deadbeef", 1700000000, "Two files", "dev", changes);
    let (adds, dels, files) = c.per_commit_stats();
    assert_eq!((adds, dels, files), (2, 1, 2));
}

#[test]
fn scenario_empty_diff_commit_is_added() {
    let changes = route_events(Vec::new());
    let mut analysis = CommitAnalysis::new("key".to_string());
    analysis.add_record(commit("root", 0, "initial", "dev", changes));
    assert_eq!(analysis.commit_count(), 1);
    let c = analysis.get_commit(0).unwrap();
    assert!(c.code_changes.is_empty());
    assert_eq!(c.per_commit_stats(), (0, 0, 0));
}
