//! Language classification: a file path is mapped to a coarse language label
//! by the extension after the last `.` of the path, case-sensitively; a path
//! without a `.`, or an extension outside the fixed table, is `Unknown`.

use vstd::prelude::*;

verus! {

/// The fixed set of language labels the classifier can produce.
#[derive(Clone, Copy, Debug, PartialEq, Eq, Structural)]
pub enum Language {
    JavaScript,
    TypeScript,
    Python,
    Rust,
    Go,
    Java,
    Cpp,
    C,
    Html,
    Css,
    Php,
    Ruby,
    Swift,
    Kotlin,
    Unknown,
}

/// The characters after the last `.` of `path`, or `None` when `path` has no `.`.
pub open spec fn extension_of(path: Seq<char>) -> Option<Seq<char>>
    decreases path.len(),
{
    if path.len() == 0 {
        None
    } else if path.last() == '.' {
        Some(Seq::empty())
    } else {
        match extension_of(path.drop_last()) {
            None => None,
            Some(e) => Some(e.push(path.last())),
        }
    }
}

/// The classification table: extension text to label, `Unknown` off the table.
pub open spec fn label_for_extension(ext: Seq<char>) -> Language {
    if ext == "js"@ {
        Language::JavaScript
    } else if ext == "ts"@ {
        Language::TypeScript
    } else if ext == "py"@ {
        Language::Python
    } else if ext == "rs"@ {
        Language::Rust
    } else if ext == "go"@ {
        Language::Go
    } else if ext == "java"@ {
        Language::Java
    } else if ext == "cpp"@ || ext == "cc"@ || ext == "cxx"@ {
        Language::Cpp
    } else if ext == "c"@ {
        Language::C
    } else if ext == "html"@ {
        Language::Html
    } else if ext == "css"@ {
        Language::Css
    } else if ext == "php"@ {
        Language::Php
    } else if ext == "rb"@ {
        Language::Ruby
    } else if ext == "swift"@ {
        Language::Swift
    } else if ext == "kt"@ {
        Language::Kotlin
    } else {
        Language::Unknown
    }
}

/// The label for a whole path: every path has one, so the classifier is total.
pub open spec fn language_of(path: Seq<char>) -> Language {
    match extension_of(path) {
        None => Language::Unknown,
        Some(e) => label_for_extension(e),
    }
}

/// A path without any `.` has no extension.
proof fn lemma_extension_none(path: Seq<char>)
    requires
        forall|j: int| 0 <= j < path.len() ==> path[j] != '.',
    ensures
        extension_of(path) is None,
    decreases path.len(),
{
    if path.len() > 0 {
        lemma_extension_none(path.drop_last());
    }
}

/// When `d` is the last `.` of `path`, the extension is exactly the suffix
/// after `d`.
proof fn lemma_extension_after_dot(path: Seq<char>, d: int)
    requires
        0 <= d < path.len(),
        path[d] == '.',
        forall|j: int| d < j < path.len() ==> path[j] != '.',
    ensures
        extension_of(path) == Some(path.subrange(d + 1, path.len() as int)),
    decreases path.len(),
{
    if d == path.len() - 1 {
        assert(path.subrange(d + 1, path.len() as int) =~= Seq::empty());
    } else {
        lemma_extension_after_dot(path.drop_last(), d);
        assert(path.drop_last().subrange(d + 1, path.len() - 1).push(path.last()) =~= path.subrange(
            d + 1,
            path.len() as int,
        ));
    }
}

/// Character-by-character string equality, settled against the views.
fn str_eq(a: &str, b: &str) -> (r: bool)
    ensures
        r == (a@ == b@),
{
    let na = a.unicode_len();
    let nb = b.unicode_len();
    if na != nb {
        return false;
    }
    let mut i: usize = 0;
    while i < na
        invariant
            i <= na,
            na == a@.len(),
            na == b@.len(),
            forall|j: int| 0 <= j < i ==> a@[j] == b@[j],
        decreases na - i,
    {
        if a.get_char(i) != b.get_char(i) {
            return false;
        }
        i += 1;
    }
    proof {
        assert(a@ =~= b@);
    }
    true
}

/// Classifies a file path. Total and deterministic: the result is a function
/// of the path text alone.
pub fn detect_language(path: &str) -> (r: Language)
    ensures
        r == language_of(path@),
{
    let n = path.unicode_len();
    let mut i: usize = 0;
    let mut dot: Option<usize> = None;
    while i < n
        invariant
            i <= n,
            n == path@.len(),
            match dot {
                None => forall|j: int| 0 <= j < i ==> path@[j] != '.',
                Some(d) => d < i && path@[d as int] == '.' && forall|j: int|
                    d < j < i ==> path@[j] != '.',
            },
        decreases n - i,
    {
        if path.get_char(i) == '.' {
            dot = Some(i);
        }
        i += 1;
    }
    match dot {
        None => {
            proof {
                lemma_extension_none(path@);
            }
            Language::Unknown
        },
        Some(d) => {
            let ext = path.substring_char(d + 1, n);
            proof {
                lemma_extension_after_dot(path@, d as int);
            }
            if str_eq(ext, "js") {
                Language::JavaScript
            } else if str_eq(ext, "ts") {
                Language::TypeScript
            } else if str_eq(ext, "py") {
                Language::Python
            } else if str_eq(ext, "rs") {
                Language::Rust
            } else if str_eq(ext, "go") {
                Language::Go
            } else if str_eq(ext, "java") {
                Language::Java
            } else if str_eq(ext, "cpp") || str_eq(ext, "cc") || str_eq(ext, "cxx") {
                Language::Cpp
            } else if str_eq(ext, "c") {
                Language::C
            } else if str_eq(ext, "html") {
                Language::Html
            } else if str_eq(ext, "css") {
                Language::Css
            } else if str_eq(ext, "php") {
                Language::Php
            } else if str_eq(ext, "rb") {
                Language::Ruby
            } else if str_eq(ext, "swift") {
                Language::Swift
            } else if str_eq(ext, "kt") {
                Language::Kotlin
            } else {
                Language::Unknown
            }
        },
    }
}

impl Language {
    /// The display text of the label.
    pub open spec fn label_spec(self) -> Seq<char> {
        match self {
            Language::JavaScript => "JavaScript"@,
            Language::TypeScript => "TypeScript"@,
            Language::Python => "Python"@,
            Language::Rust => "Rust"@,
            Language::Go => "Go"@,
            Language::Java => "Java"@,
            Language::Cpp => "C++"@,
            Language::C => "C"@,
            Language::Html => "HTML"@,
            Language::Css => "CSS"@,
            Language::Php => "PHP"@,
            Language::Ruby => "Ruby"@,
            Language::Swift => "Swift"@,
            Language::Kotlin => "Kotlin"@,
            Language::Unknown => "Unknown"@,
        }
    }

    /// The lower-case text used for markdown code fences.
    pub open spec fn lower_label_spec(self) -> Seq<char> {
        match self {
            Language::JavaScript => "javascript"@,
            Language::TypeScript => "typescript"@,
            Language::Python => "python"@,
            Language::Rust => "rust"@,
            Language::Go => "go"@,
            Language::Java => "java"@,
            Language::Cpp => "c++"@,
            Language::C => "c"@,
            Language::Html => "html"@,
            Language::Css => "css"@,
            Language::Php => "php"@,
            Language::Ruby => "ruby"@,
            Language::Swift => "swift"@,
            Language::Kotlin => "kotlin"@,
            Language::Unknown => "unknown"@,
        }
    }

    /// The display text of the label.
    pub fn label(&self) -> (r: String)
        ensures
            r@ == self.label_spec(),
    {
        match self {
            Language::JavaScript => String::from_str("JavaScript"),
            Language::TypeScript => String::from_str("TypeScript"),
            Language::Python => String::from_str("Python"),
            Language::Rust => String::from_str("Rust"),
            Language::Go => String::from_str("Go"),
            Language::Java => String::from_str("Java"),
            Language::Cpp => String::from_str("C++"),
            Language::C => String::from_str("C"),
            Language::Html => String::from_str("HTML"),
            Language::Css => String::from_str("CSS"),
            Language::Php => String::from_str("PHP"),
            Language::Ruby => String::from_str("Ruby"),
            Language::Swift => String::from_str("Swift"),
            Language::Kotlin => String::from_str("Kotlin"),
            Language::Unknown => String::from_str("Unknown"),
        }
    }

    /// The lower-case text used for markdown code fences.
    pub fn lower_label(&self) -> (r: String)
        ensures
            r@ == self.lower_label_spec(),
    {
        match self {
            Language::JavaScript => String::from_str("javascript"),
            Language::TypeScript => String::from_str("typescript"),
            Language::Python => String::from_str("python"),
            Language::Rust => String::from_str("rust"),
            Language::Go => String::from_str("go"),
            Language::Java => String::from_str("java"),
            Language::Cpp => String::from_str("c++"),
            Language::C => String::from_str("c"),
            Language::Html => String::from_str("html"),
            Language::Css => String::from_str("css"),
            Language::Php => String::from_str("php"),
            Language::Ruby => String::from_str("ruby"),
            Language::Swift => String::from_str("swift"),
            Language::Kotlin => String::from_str("kotlin"),
            Language::Unknown => String::from_str("unknown"),
        }
    }
}

/// The classifier is deterministic: equal path texts always get equal labels.
pub proof fn lemma_classifier_deterministic(p1: Seq<char>, p2: Seq<char>)
    requires
        p1 == p2,
    ensures
        language_of(p1) == language_of(p2),
{
}

/// A path without any `.` is always classified `Unknown`.
pub proof fn lemma_no_extension_unknown(path: Seq<char>)
    requires
        forall|j: int| 0 <= j < path.len() ==> path[j] != '.',
    ensures
        language_of(path) == Language::Unknown,
{
    lemma_extension_none(path);
}

} // verus!
