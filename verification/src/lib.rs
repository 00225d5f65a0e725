//! Verified core of a commit-history review tool: it reshapes a commit's diff
//! event stream into per-file change records, aggregates per-commit and
//! per-language statistics, and builds the review request sent to a
//! generative-text service.

pub mod analysis;
pub mod gitdiff;
pub mod language;
pub mod prompt;
pub mod review;
pub mod router;
pub mod stats;
pub mod text;
pub mod timefmt;

pub use analysis::CommitAnalysis;
pub use analysis::CommitInfo;
pub use language::Language;
pub use language::detect_language;
pub use router::DiffEvent;
pub use router::FileChange;
pub use router::route_events;
pub use prompt::build_prompt;
pub use review::parse_review_reply;
pub use review::review_text_or_fallback;
pub use stats::LanguageStat;
pub use text::summary_line;
pub use timefmt::commit_time_label;
