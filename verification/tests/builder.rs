use commit_mentor::analysis::CommitInfo;
use commit_mentor::router::FileChange;
use commit_mentor::language::Language;
use commit_mentor::detect_language;
use commit_mentor::build_prompt;
use commit_mentor::parse_review_reply;
use commit_mentor::review_text_or_fallback;
use commit_mentor::summary_line;
use commit_mentor::commit_time_label;

#[test]
fn classifier_matches_the_table() {
    assert_eq!(detect_language("index.js"), Language::JavaScript);
    assert_eq!(detect_language("app.ts"), Language::TypeScript);
    assert_eq!(detect_language("tool.py"), Language::Python);
    assert_eq!(detect_language("main.rs"), Language::Rust);
    assert_eq!(detect_language("svc.go"), Language::Go);
    assert_eq!(detect_language("App.java"), Language::Java);
    assert_eq!(detect_language("a.cpp"), Language::Cpp);
    assert_eq!(detect_language("a.cc"), Language::Cpp);
    assert_eq!(detect_language("a.cxx"), Language::Cpp);
    assert_eq!(detect_language("a.c"), Language::C);
    assert_eq!(detect_language("page.html"), Language::Html);
    assert_eq!(detect_language("style.css"), Language::Css);
    assert_eq!(detect_language("site.php"), Language::Php);
    assert_eq!(detect_language("job.rb"), Language::Ruby);
    assert_eq!(detect_language("ios.swift"), Language::Swift);
    assert_eq!(detect_language("android.kt"), Language::Kotlin);
}

#[test]
fn classifier_is_total_and_deterministic() {
    assert_eq!(detect_language("src/deep/path/main.rs"), Language::Rust);
    assert_eq!(detect_language("main.rs"), detect_language("main.rs"));
    assert_eq!(detect_language(""), Language::Unknown);
    assert_eq!(detect_language("Makefile"), Language::Unknown);
    assert_eq!(detect_language("archive.tar.gz"), Language::Unknown);
    assert_eq!(detect_language("noext."), Language::Unknown);
    assert_eq!(detect_language("case.RS"), Language::Unknown);
    assert_eq!(detect_language("a.unheard"), Language::Unknown);
}

#[test]
fn language_labels() {
    assert_eq!(Language::JavaScript.label(), "JavaScript");
    assert_eq!(Language::Cpp.label(), "C++");
    assert_eq!(Language::Unknown.label(), "Unknown");
    assert_eq!(Language::JavaScript.lower_label(), "javascript");
    assert_eq!(Language::Cpp.lower_label(), "c++");
    assert_eq!(Language::Html.label(), "HTML");
    assert_eq!(Language::Html.lower_label(), "html");
}

#[test]
fn summary_takes_the_first_line_trimmed() {
    assert_eq!(summary_line("Fix bug\n\nLong body here"), "Fix bug");
    assert_eq!(summary_line("  padded  \nrest"), "padded");
    assert_eq!(summary_line("plain"), "plain");
    assert_eq!(summary_line(""), "");
    assert_eq!(summary_line("\nsecond"), "");
    assert_eq!(summary_line("crlf line\r\nbody"), "crlf line");
}

#[test]
fn summary_truncates_past_fifty_characters() {
    let long = "abcdefghij".repeat(6);
    let out = summary_line(&long);
    assert_eq!(out.chars().count(), 50);
    let expected = format!("{}...", &long[..47]);
    assert_eq!(out, expected);
    let exactly_fifty = "a".repeat(50);
    assert_eq!(summary_line(&exactly_fifty), exactly_fifty);
}

#[test]
fn prompt_follows_the_template() {
    let commit = CommitInfo {
        id: "c1".to_string(),
        timestamp: 0,
        message: "Add feature".to_string(),
        author: "dev".to_string(),
        code_changes: vec![
            FileChange {
                file_path: "a.rs".to_string(),
                additions: vec!["let x = 1;".to_string(), "use it;".to_string()],
                deletions: vec!["old line".to_string()],
                language: Language::Rust,
            },
            FileChange {
                file_path: "b.py".to_string(),
                additions: vec![],
                deletions: vec!["gone".to_string()],
                language: Language::Python,
            },
        ],
    };
    let prompt = build_prompt(&commit);
    let section_a = "## File: a.rs (Rust)\n\n```rust\n// Removed:\nold line\n\n// Added:\nlet x = 1;\nuse it;\n```\n";
    let section_b = "## File: b.py (Python)\n\n```python\n// Removed:\ngone\n\n// Added:\n\n```\n";
    let expected = format!(
        "Analyze the following code changes from commit: '{}'\n\nPlease provide a code review in markdown format. Focus on:\n\n1. Summary of Changes\n- Brief overview of what changed\n- Impact and purpose\n\n2. Code Analysis (for each file):\n- Key improvements or concerns\n- Potential bugs\n- Performance implications\n\n3. Recommendations:\n- Specific code improvements (with examples in markdown code blocks)\n- Best practices for the used languages\n- Testing and documentation needs\n\nFormat your response in markdown with:\n- Clear headings (##, ###)\n- Code blocks with language tags (```language)\n- Bullet points for lists\n- Bold and italic for emphasis\n\nHere are the changes:\n\n{}\n{}",
        "Add feature", section_a, section_b
    );
    assert_eq!(prompt, expected);
}

#[test]
fn prompt_for_commit_without_changes_has_no_sections() {
    let commit = CommitInfo {
        id: "c0".to_string(),
        timestamp: 0,
        message: "empty".to_string(),
        author: "dev".to_string(),
        code_changes: vec![],
    };
    let prompt = build_prompt(&commit);
    assert!(prompt.starts_with("Analyze the following code changes from commit: 'empty'\n\n"));
    assert!(prompt.ends_with("Here are the changes:\n\n"));
}

#[test]
fn fallback_is_exactly_the_fixed_notice() {
    assert_eq!(review_text_or_fallback(None), "Unable to get AI insights");
    assert_eq!(review_text_or_fallback(Some("Looks good.".to_string())), "Looks good.");
}

#[test]
fn reply_text_is_extracted_from_the_field_path() {
    let reply: serde_json::Value =
        serde_json::from_str("{\"content\":[{\"type\":\"text\",\"text\":\"Nice refactor.\"}]}")
            .unwrap();
    assert_eq!(parse_review_reply(&reply), "Nice refactor.");
}

#[test]
fn degraded_reply_shapes_fall_back() {
    let missing_field: serde_json::Value =
        serde_json::from_str("{\"error\":{\"message\":\"overloaded\"}}").unwrap();
    assert_eq!(parse_review_reply(&missing_field), "Unable to get AI insights");

    let empty_content: serde_json::Value = serde_json::from_str("{\"content\":[]}").unwrap();
    assert_eq!(parse_review_reply(&empty_content), "Unable to get AI insights");

    let not_text: serde_json::Value =
        serde_json::from_str("{\"content\":[{\"text\":42}]}").unwrap();
    assert_eq!(parse_review_reply(&not_text), "Unable to get AI insights");

    let null_reply: serde_json::Value = serde_json::from_str("null").unwrap();
    assert_eq!(parse_review_reply(&null_reply), "Unable to get AI insights");
}

#[test]
fn timestamps_render_in_utc_minutes() {
    assert_eq!(commit_time_label(0), "1970-01-01 00:00");
    assert_eq!(commit_time_label(1700000000), "2023-11-14 22:13");
    assert_eq!(commit_time_label(86399), "1970-01-01 23:59");
    assert_eq!(commit_time_label(-1), "1969-12-31 23:59");
}

#[test]
fn unrepresentable_timestamps_get_the_placeholder() {
    assert_eq!(commit_time_label(i64::MAX), "unknown time");
    assert_eq!(commit_time_label(i64::MIN), "unknown time");
    assert_eq!(commit_time_label(8210266876800), "unknown time");
    assert_eq!(commit_time_label(-8334601228801), "unknown time");
    assert_ne!(commit_time_label(8210266876799), "unknown time");
    assert_ne!(commit_time_label(-8334601228800), "unknown time");
}
