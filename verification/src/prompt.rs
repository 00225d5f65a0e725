//! The review request builder: serializes one commit's change records into
//! the natural-language prompt handed to the generative-text collaborator.
//! Per file, a fixed template section holds the path, the language, and the
//! removed and added lines joined by newlines; the sections are joined with
//! blank-line separation and prefixed by a fixed instructional template
//! parameterized by the commit's message.

use vstd::prelude::*;
use crate::router::{FileChange, FileChangeModel};
use crate::analysis::CommitInfo;

verus! {

/// `parts` joined by `sep`.
pub open spec fn joined(parts: Seq<Seq<char>>, sep: Seq<char>) -> Seq<char>
    decreases parts.len(),
{
    if parts.len() == 0 {
        Seq::empty()
    } else if parts.len() == 1 {
        parts[0]
    } else {
        joined(parts.drop_last(), sep) + sep + parts.last()
    }
}

/// The prompt section describing one file's changes.
pub open spec fn section_spec(c: FileChangeModel) -> Seq<char> {
    "## File: "@ + c.file_path + " ("@ + c.language.label_spec() + ")\n\n```"@
        + c.language.lower_label_spec() + "\n// Removed:\n"@ + joined(c.deletions, "\n"@)
        + "\n\n// Added:\n"@ + joined(c.additions, "\n"@) + "\n```\n"@
}

/// The sections of all change records, in record order.
pub open spec fn sections_spec(changes: Seq<FileChangeModel>) -> Seq<Seq<char>> {
    changes.map_values(|c: FileChangeModel| section_spec(c))
}

/// The whole prompt for one commit: the instructional template around the
/// commit's message, followed by the joined per-file sections.
pub open spec fn prompt_spec(message: Seq<char>, changes: Seq<FileChangeModel>) -> Seq<char> {
    "Analyze the following code changes from commit: '"@ + message
        + "'\n\nPlease provide a code review in markdown format. Focus on:\n\n1. Summary of Changes\n- Brief overview of what changed\n- Impact and purpose\n\n2. Code Analysis (for each file):\n- Key improvements or concerns\n- Potential bugs\n- Performance implications\n\n3. Recommendations:\n- Specific code improvements (with examples in markdown code blocks)\n- Best practices for the used languages\n- Testing and documentation needs\n\nFormat your response in markdown with:\n- Clear headings (##, ###)\n- Code blocks with language tags (```language)\n- Bullet points for lists\n- Bold and italic for emphasis\n\nHere are the changes:\n\n"@
        + joined(sections_spec(changes), "\n"@)
}

/// Joins the parts with the separator, in order.
fn join_strings(parts: &Vec<String>, sep: &str) -> (r: String)
    ensures
        r@ == joined(parts.deep_view(), sep@),
{
    let ghost pdv = parts.deep_view();
    let mut s = String::new();
    let n = parts.len();
    let mut i: usize = 0;
    proof {
        assert(pdv.take(0) =~= Seq::<Seq<char>>::empty());
    }
    while i < n
        invariant
            i <= n,
            n == parts.len(),
            pdv == parts.deep_view(),
            pdv.len() == n,
            s@ == joined(pdv.take(i as int), sep@),
        decreases n - i,
    {
        proof {
            assert(pdv[i as int] == parts[i as int]@);
            assert(pdv.take(i + 1 as int).drop_last() =~= pdv.take(i as int));
            assert(pdv.take(i + 1 as int).last() == pdv[i as int]);
        }
        if i > 0 {
            s.append(sep);
        }
        s.append(parts[i].as_str());
        proof {
            if i == 0 {
                assert(s@ =~= joined(pdv.take(1), sep@));
            }
        }
        i += 1;
    }
    proof {
        assert(pdv.take(n as int) =~= pdv);
    }
    s
}

/// Builds the template section for one change record.
fn build_section(c: &FileChange) -> (r: String)
    ensures
        r@ == section_spec(c.deep_view()),
{
    let mut s = String::from_str("## File: ");
    s.append(c.file_path.as_str());
    s.append(" (");
    let lab = c.language.label();
    s.append(lab.as_str());
    s.append(")\n\n```");
    let low = c.language.lower_label();
    s.append(low.as_str());
    s.append("\n// Removed:\n");
    let dels = join_strings(&c.deletions, "\n");
    s.append(dels.as_str());
    s.append("\n\n// Added:\n");
    let adds = join_strings(&c.additions, "\n");
    s.append(adds.as_str());
    s.append("\n```\n");
    s
}

/// Builds the whole review prompt for one commit.
pub fn build_prompt(commit: &CommitInfo) -> (r: String)
    ensures
        r@ == prompt_spec(commit@.message, commit@.code_changes),
{
    let ghost cdv = commit.code_changes.deep_view();
    let mut sections: Vec<String> = Vec::new();
    let n = commit.code_changes.len();
    let mut i: usize = 0;
    proof {
        assert(sections.deep_view() =~= sections_spec(cdv.take(0)));
    }
    while i < n
        invariant
            i <= n,
            n == commit.code_changes.len(),
            cdv == commit.code_changes.deep_view(),
            cdv.len() == n,
            sections.deep_view() == sections_spec(cdv.take(i as int)),
        decreases n - i,
    {
        let ghost prev = sections.deep_view();
        let sec = build_section(&commit.code_changes[i]);
        sections.push(sec);
        proof {
            assert(cdv[i as int] == commit.code_changes[i as int].deep_view());
            assert(sections.deep_view() =~= prev.push(sec@));
            assert(sections.deep_view() =~= sections_spec(cdv.take(i + 1 as int)));
        }
        i += 1;
    }
    proof {
        assert(cdv.take(n as int) =~= cdv);
    }
    let changes_text = join_strings(&sections, "\n");
    let mut s = String::from_str("Analyze the following code changes from commit: '");
    s.append(commit.message.as_str());
    s.append(
        "'\n\nPlease provide a code review in markdown format. Focus on:\n\n1. Summary of Changes\n- Brief overview of what changed\n- Impact and purpose\n\n2. Code Analysis (for each file):\n- Key improvements or concerns\n- Potential bugs\n- Performance implications\n\n3. Recommendations:\n- Specific code improvements (with examples in markdown code blocks)\n- Best practices for the used languages\n- Testing and documentation needs\n\nFormat your response in markdown with:\n- Clear headings (##, ###)\n- Code blocks with language tags (```language)\n- Bullet points for lists\n- Bold and italic for emphasis\n\nHere are the changes:\n\n",
    );
    s.append(changes_text.as_str());
    s
}

} // verus!
