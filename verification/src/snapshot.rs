//! The app snapshot copier's rules: which top-level entries of a
//! framework source tree are materialized into a staging directory.
//!
//! Entries named on a fixed denylist — smoke-test scripts, the build
//! descriptor and container descriptors — are skipped at the top level of
//! the framework directory only.  A directory that survives the filter is
//! copied in full, so a same-named file nested one level deeper is copied.
//! The recursive copy itself happens outside the library and follows this
//! plan.

use vstd::prelude::*;

use crate::HarnessError;
use crate::text::str_eq_chars;

verus! {

/// One entry of a directory listing: its name and whether it is itself a
/// directory.
#[derive(Clone, Debug)]
pub struct FsEntry {
    pub name: String,
    pub is_dir: bool,
}

/// The mathematical content of an [`FsEntry`].
pub struct FsEntryV {
    pub name: Seq<char>,
    pub is_dir: bool,
}

impl View for FsEntry {
    type V = FsEntryV;

    open spec fn view(&self) -> FsEntryV {
        FsEntryV { name: self.name@, is_dir: self.is_dir }
    }
}

impl DeepView for FsEntry {
    type V = FsEntryV;

    open spec fn deep_view(&self) -> FsEntryV {
        self.view()
    }
}

/// The fixed exclusion list: a name is excluded iff it is one of the
/// smoke-test scripts, the build descriptor, or the container descriptors.
pub open spec fn excluded_name(n: Seq<char>) -> bool {
    ||| n == "smoke.py"@
    ||| n == "smoke"@
    ||| n == "Makefile"@
    ||| n == ".dockerignore"@
    ||| n == "Dockerfile"@
}

/// Decides [`excluded_name`].
pub fn is_excluded(name: &str) -> (r: bool)
    ensures
        r == excluded_name(name@),
{
    str_eq_chars(name, "smoke.py") || str_eq_chars(name, "smoke") || str_eq_chars(name, "Makefile")
        || str_eq_chars(name, ".dockerignore") || str_eq_chars(name, "Dockerfile")
}

/// The entries the copier materializes: the listing with every excluded
/// name removed, in listing order.
pub open spec fn copy_plan_of(entries: Seq<FsEntryV>) -> Seq<FsEntryV> {
    entries.filter(|e: FsEntryV| !excluded_name(e.name))
}

/// Plans the snapshot of one framework subtree.  `source_exists` says
/// whether `app_dir/framework/` was found; without it there is nothing to
/// copy and the plan fails with [`HarnessError::NotFound`].  Otherwise the
/// plan is the listing of that directory with the excluded names removed.
pub fn plan_snapshot(source_exists: bool, entries: &Vec<FsEntry>) -> (r: Result<
    Vec<FsEntry>,
    HarnessError,
>)
    ensures
        match r {
            Ok(plan) => source_exists && plan.deep_view() =~= copy_plan_of(entries.deep_view()),
            Err(e) => !source_exists && e == HarnessError::NotFound,
        },
{
    if !source_exists {
        return Err(HarnessError::NotFound);
    }
    let mut out: Vec<FsEntry> = Vec::new();
    let mut i: usize = 0;
    proof {
        reveal(Seq::filter);
        assert(entries.deep_view().take(0) =~= Seq::<FsEntryV>::empty());
        assert(out.deep_view() =~= copy_plan_of(entries.deep_view().take(0)));
    }
    while i < entries.len()
        invariant
            0 <= i <= entries.len(),
            entries.deep_view().len() == entries.len(),
            out.deep_view() =~= copy_plan_of(entries.deep_view().take(i as int)),
        decreases entries.len() - i,
    {
        proof {
            reveal(Seq::filter);
            assert(entries.deep_view().take(i + 1).drop_last() =~= entries.deep_view().take(
                i as int,
            ));
            assert(entries.deep_view().take(i + 1).last() == entries.deep_view()[i as int]);
        }
        if !is_excluded(entries[i].name.as_str()) {
            let kept = FsEntry { name: entries[i].name.clone(), is_dir: entries[i].is_dir };
            let ghost dv = out.deep_view();
            out.push(kept);
            proof {
                assert(kept@ == entries.deep_view()[i as int]);
                assert(out.deep_view() =~= dv.push(entries.deep_view()[i as int]));
            }
        }
        i += 1;
    }
    proof {
        assert(entries.deep_view().take(entries.len() as int) =~= entries.deep_view());
    }
    Ok(out)
}

/// The copier's exclusion law, at the level it filters: no planned entry
/// carries an excluded name, and every entry whose name is not excluded is
/// planned.  The plan is consulted only at the top level of a framework
/// source tree; a surviving directory is copied in full, nested names
/// included.
pub proof fn lemma_snapshot_exclusions(entries: Seq<FsEntryV>)
    ensures
        forall|i: int|
            0 <= i < copy_plan_of(entries).len() ==> !excluded_name(
                #[trigger] copy_plan_of(entries)[i].name,
            ),
        forall|i: int|
            0 <= i < entries.len() && !excluded_name((#[trigger] entries[i]).name) ==> copy_plan_of(
                entries,
            ).contains(entries[i]),
{
    let pred = |e: FsEntryV| !excluded_name(e.name);
    entries.filter_lemma(pred);
    assert forall|i: int|
        0 <= i < entries.len() && !excluded_name((#[trigger] entries[i]).name) implies copy_plan_of(
        entries,
    ).contains(entries[i]) by {
        assert(pred(entries[i]));
    }
}

} // verus!
