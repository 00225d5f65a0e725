//! Per-commit and per-language statistics over a commit's change records:
//! totals of added and removed lines, file counts, and the fold of records by
//! language label. Totals are folds over the record list, so they do not
//! depend on the order of the records.

use vstd::prelude::*;
use vstd::seq_lib::{commutative_foldl, lemma_fold_left_permutation};
use crate::language::Language;
use crate::router::{FileChange, FileChangeModel};
use crate::analysis::CommitInfo;

verus! {

/// Folding step for the total of added lines.
pub open spec fn add_step() -> spec_fn(int, FileChangeModel) -> int {
    |acc: int, c: FileChangeModel| acc + c.additions.len()
}

/// Folding step for the total of removed lines.
pub open spec fn del_step() -> spec_fn(int, FileChangeModel) -> int {
    |acc: int, c: FileChangeModel| acc + c.deletions.len()
}

/// All added lines of a commit's change records.
pub open spec fn total_additions(changes: Seq<FileChangeModel>) -> int {
    changes.fold_left(0int, add_step())
}

/// All removed lines of a commit's change records.
pub open spec fn total_deletions(changes: Seq<FileChangeModel>) -> int {
    changes.fold_left(0int, del_step())
}

/// Folding step for the added lines of records labelled `lang`.
pub open spec fn lang_add_step(lang: Language) -> spec_fn(int, FileChangeModel) -> int {
    |acc: int, c: FileChangeModel|
        if c.language == lang {
            acc + c.additions.len()
        } else {
            acc
        }
}

/// Folding step for the removed lines of records labelled `lang`.
pub open spec fn lang_del_step(lang: Language) -> spec_fn(int, FileChangeModel) -> int {
    |acc: int, c: FileChangeModel|
        if c.language == lang {
            acc + c.deletions.len()
        } else {
            acc
        }
}

/// The added lines of the records labelled `lang`.
pub open spec fn additions_for(changes: Seq<FileChangeModel>, lang: Language) -> int {
    changes.fold_left(0int, lang_add_step(lang))
}

/// The removed lines of the records labelled `lang`.
pub open spec fn deletions_for(changes: Seq<FileChangeModel>, lang: Language) -> int {
    changes.fold_left(0int, lang_del_step(lang))
}

/// The distinct languages of a record list, in order of first appearance.
pub open spec fn languages_in_order(changes: Seq<FileChangeModel>) -> Seq<Language>
    decreases changes.len(),
{
    if changes.len() == 0 {
        Seq::empty()
    } else {
        let rest = languages_in_order(changes.drop_last());
        if rest.contains(changes.last().language) {
            rest
        } else {
            rest.push(changes.last().language)
        }
    }
}

/// A language has a per-language entry exactly when some change record
/// carries it.
pub proof fn lemma_languages_in_order_complete(changes: Seq<FileChangeModel>, lang: Language)
    ensures
        languages_in_order(changes).contains(lang) <==> exists|i: int|
            #![trigger changes[i]]
            0 <= i < changes.len() && changes[i].language == lang,
    decreases changes.len(),
{
    if changes.len() > 0 {
        lemma_languages_in_order_complete(changes.drop_last(), lang);
        let rest = languages_in_order(changes.drop_last());
        let cur = languages_in_order(changes);
        let lastlang = changes.last().language;
        assert(forall|i: int|
            0 <= i < changes.len() - 1 ==> #[trigger] changes.drop_last()[i] == changes[i]);
        assert(forall|k: int| 0 <= k < rest.len() ==> #[trigger] cur[k] == rest[k]);
        if cur.contains(lang) {
            let k = choose|k: int| 0 <= k < cur.len() && cur[k] == lang;
            if k < rest.len() {
                assert(rest.contains(lang));
                let i = choose|i: int|
                    #![trigger changes.drop_last()[i]]
                    0 <= i < changes.drop_last().len() && changes.drop_last()[i].language == lang;
                assert(changes[i].language == lang);
            } else {
                assert(lang == lastlang);
                assert(changes[changes.len() - 1].language == lang);
            }
        }
        if exists|i: int| #![trigger changes[i]] 0 <= i < changes.len() && changes[i].language
            == lang {
            let i = choose|i: int|
                #![trigger changes[i]]
                0 <= i < changes.len() && changes[i].language == lang;
            if i < changes.len() - 1 {
                assert(changes.drop_last()[i].language == lang);
                assert(rest.contains(lang));
            } else {
                assert(lang == lastlang);
            }
            if rest.contains(lang) {
                let k = choose|k: int| 0 <= k < rest.len() && rest[k] == lang;
                assert(cur[k] == lang);
                assert(cur.contains(lang));
            } else {
                assert(lang == lastlang);
                assert(cur[rest.len() as int] == lang);
                assert(cur.contains(lang));
            }
        }
    }
}

/// No language is listed twice among the per-language entries.
pub proof fn lemma_languages_in_order_distinct(changes: Seq<FileChangeModel>)
    ensures
        forall|i: int, j: int|
            0 <= i < j < languages_in_order(changes).len() ==> languages_in_order(changes)[i]
                != languages_in_order(changes)[j],
    decreases changes.len(),
{
    if changes.len() > 0 {
        lemma_languages_in_order_distinct(changes.drop_last());
        let rest = languages_in_order(changes.drop_last());
        if !rest.contains(changes.last().language) {
            assert(forall|i: int| 0 <= i < rest.len() ==> #[trigger] rest[i] != changes.last().language);
            assert(forall|i: int|
                0 <= i < rest.len() ==> languages_in_order(changes)[i] == rest[i]);
        }
    }
}

/// Per-language totals ignore the order of a commit's change records: any two
/// record lists holding the same records, however arranged, give every
/// language the same totals.
pub proof fn lemma_language_totals_reorder(
    c1: Seq<FileChangeModel>,
    c2: Seq<FileChangeModel>,
    lang: Language,
)
    requires
        c1.to_multiset() == c2.to_multiset(),
    ensures
        additions_for(c1, lang) == additions_for(c2, lang),
        deletions_for(c1, lang) == deletions_for(c2, lang),
{
    assert(commutative_foldl(lang_add_step(lang)));
    assert(commutative_foldl(lang_del_step(lang)));
    lemma_fold_left_permutation(c1, c2, lang_add_step(lang), 0int);
    lemma_fold_left_permutation(c1, c2, lang_del_step(lang), 0int);
}

/// Per-commit totals ignore the order of the change records as well.
pub proof fn lemma_commit_totals_reorder(c1: Seq<FileChangeModel>, c2: Seq<FileChangeModel>)
    requires
        c1.to_multiset() == c2.to_multiset(),
    ensures
        total_additions(c1) == total_additions(c2),
        total_deletions(c1) == total_deletions(c2),
{
    assert(commutative_foldl(add_step()));
    assert(commutative_foldl(del_step()));
    lemma_fold_left_permutation(c1, c2, add_step(), 0int);
    lemma_fold_left_permutation(c1, c2, del_step(), 0int);
}

/// Sums the added and removed lines of all records.
fn sum_lines(changes: &Vec<FileChange>) -> (r: (u128, u128))
    ensures
        r.0 == total_additions(changes.deep_view()),
        r.1 == total_deletions(changes.deep_view()),
{
    let ghost cdv = changes.deep_view();
    let mut adds: u128 = 0;
    let mut dels: u128 = 0;
    let n = changes.len();
    let mut i: usize = 0;
    proof {
        assert(cdv.take(0) =~= Seq::<FileChangeModel>::empty());
    }
    while i < n
        invariant
            i <= n,
            n == changes.len(),
            cdv == changes.deep_view(),
            cdv.len() == n,
            adds == total_additions(cdv.take(i as int)),
            dels == total_deletions(cdv.take(i as int)),
            adds <= i * (usize::MAX as int),
            dels <= i * (usize::MAX as int),
        decreases n - i,
    {
        let a = changes[i].additions.len();
        let d = changes[i].deletions.len();
        proof {
            assert(cdv[i as int] == changes[i as int].deep_view());
            assert((i + 1) * (usize::MAX as int) == i * (usize::MAX as int) + (usize::MAX as int))
                by (nonlinear_arith);
            assert(n * (usize::MAX as int) <= (usize::MAX as int) * (usize::MAX as int))
                by (nonlinear_arith)
                requires
                    n <= usize::MAX as int,
            ;
            assert((usize::MAX as int) * (usize::MAX as int) < u128::MAX as int)
                by (nonlinear_arith)
                requires
                    usize::MAX as int <= u64::MAX as int,
            ;
            assert((i + 1) * (usize::MAX as int) <= n * (usize::MAX as int)) by (nonlinear_arith)
                requires
                    i + 1 <= n,
            ;
            assert(cdv.take(i + 1 as int).drop_last() =~= cdv.take(i as int));
            assert(cdv.take(i + 1 as int).last() == cdv[i as int]);
        }
        adds = adds + (a as u128);
        dels = dels + (d as u128);
        i += 1;
    }
    proof {
        assert(cdv.take(n as int) =~= cdv);
    }
    (adds, dels)
}

/// Sums the added and removed lines of the records labelled `lang`.
fn sum_lines_for(changes: &Vec<FileChange>, lang: Language) -> (r: (u128, u128))
    ensures
        r.0 == additions_for(changes.deep_view(), lang),
        r.1 == deletions_for(changes.deep_view(), lang),
{
    let ghost cdv = changes.deep_view();
    let mut adds: u128 = 0;
    let mut dels: u128 = 0;
    let n = changes.len();
    let mut i: usize = 0;
    proof {
        assert(cdv.take(0) =~= Seq::<FileChangeModel>::empty());
    }
    while i < n
        invariant
            i <= n,
            n == changes.len(),
            cdv == changes.deep_view(),
            cdv.len() == n,
            adds == additions_for(cdv.take(i as int), lang),
            dels == deletions_for(cdv.take(i as int), lang),
            adds <= i * (usize::MAX as int),
            dels <= i * (usize::MAX as int),
        decreases n - i,
    {
        proof {
            assert(cdv[i as int] == changes[i as int].deep_view());
            assert((i + 1) * (usize::MAX as int) == i * (usize::MAX as int) + (usize::MAX as int))
                by (nonlinear_arith);
            assert(n * (usize::MAX as int) <= (usize::MAX as int) * (usize::MAX as int))
                by (nonlinear_arith)
                requires
                    n <= usize::MAX as int,
            ;
            assert((usize::MAX as int) * (usize::MAX as int) < u128::MAX as int)
                by (nonlinear_arith)
                requires
                    usize::MAX as int <= u64::MAX as int,
            ;
            assert((i + 1) * (usize::MAX as int) <= n * (usize::MAX as int)) by (nonlinear_arith)
                requires
                    i + 1 <= n,
            ;
            assert(cdv.take(i + 1 as int).drop_last() =~= cdv.take(i as int));
            assert(cdv.take(i + 1 as int).last() == cdv[i as int]);
        }
        if changes[i].language == lang {
            let a = changes[i].additions.len();
            let d = changes[i].deletions.len();
            adds = adds + (a as u128);
            dels = dels + (d as u128);
        }
        i += 1;
    }
    proof {
        assert(cdv.take(n as int) =~= cdv);
    }
    (adds, dels)
}

/// Is `lang` already among the collected languages?
fn contains_language(langs: &Vec<Language>, lang: Language) -> (r: bool)
    ensures
        r == langs@.contains(lang),
{
    let mut i: usize = 0;
    while i < langs.len()
        invariant
            i <= langs@.len(),
            forall|j: int| 0 <= j < i ==> langs@[j] != lang,
        decreases langs@.len() - i,
    {
        if langs[i] == lang {
            return true;
        }
        i += 1;
    }
    false
}

/// The totals of one language within one commit.
#[derive(Debug, Clone, Copy, PartialEq)]
pub struct LanguageStat {
    pub language: Language,
    pub additions: u128,
    pub deletions: u128,
}

impl CommitInfo {
    /// Per-commit totals: all added lines, all removed lines, and the number
    /// of touched files.
    pub fn per_commit_stats(&self) -> (r: (u128, u128, usize))
        ensures
            r.0 == total_additions(self@.code_changes),
            r.1 == total_deletions(self@.code_changes),
            r.2 == self@.code_changes.len(),
    {
        let (adds, dels) = sum_lines(&self.code_changes);
        (adds, dels, self.code_changes.len())
    }

    /// Per-language totals: one entry per distinct language of the commit's
    /// change records, in order of first appearance, each holding that
    /// language's added and removed line totals.
    pub fn per_language_stats(&self) -> (r: Vec<LanguageStat>)
        ensures
            r@.map_values(|s: LanguageStat| s.language) == languages_in_order(self@.code_changes),
            forall|j: int| #![trigger r@[j]]
                0 <= j < r@.len() ==> r@[j].additions == additions_for(
                    self@.code_changes,
                    r@[j].language,
                ) && r@[j].deletions == deletions_for(self@.code_changes, r@[j].language),
    {
        let ghost cdv = self.code_changes.deep_view();
        let mut langs: Vec<Language> = Vec::new();
        let n = self.code_changes.len();
        let mut i: usize = 0;
        proof {
            assert(cdv.take(0) =~= Seq::<FileChangeModel>::empty());
        }
        while i < n
            invariant
                i <= n,
                n == self.code_changes.len(),
                cdv == self.code_changes.deep_view(),
                cdv.len() == n,
                langs@ == languages_in_order(cdv.take(i as int)),
            decreases n - i,
        {
            proof {
                assert(cdv[i as int] == self.code_changes[i as int].deep_view());
                assert(cdv.take(i + 1 as int).drop_last() =~= cdv.take(i as int));
                assert(cdv.take(i + 1 as int).last() == cdv[i as int]);
            }
            let lang = self.code_changes[i].language;
            if !contains_language(&langs, lang) {
                langs.push(lang);
            }
            i += 1;
        }
        proof {
            assert(cdv.take(n as int) =~= cdv);
        }
        let mut stats: Vec<LanguageStat> = Vec::new();
        let mut k: usize = 0;
        while k < langs.len()
            invariant
                k <= langs@.len(),
                cdv == self.code_changes.deep_view(),
                langs@ == languages_in_order(cdv),
                stats@.len() == k,
                forall|j: int| #![trigger stats@[j]] 0 <= j < k ==> stats@[j].language == langs@[j],
                forall|j: int| #![trigger stats@[j]]
                    0 <= j < k ==> stats@[j].additions == additions_for(
                        cdv,
                        stats@[j].language,
                    ) && stats@[j].deletions == deletions_for(cdv, stats@[j].language),
            decreases langs@.len() - k,
        {
            let lang = langs[k];
            let (adds, dels) = sum_lines_for(&self.code_changes, lang);
            let ghost prev = stats@;
            stats.push(LanguageStat { language: lang, additions: adds, deletions: dels });
            proof {
                assert(forall|j: int| 0 <= j < k ==> #[trigger] stats@[j] == prev[j]);
                assert(stats@[k as int].language == lang);
            }
            k += 1;
        }
        proof {
            assert(stats@.map_values(|s: LanguageStat| s.language) =~= languages_in_order(
                self@.code_changes,
            ));
        }
        stats
    }
}

} // verus!
