//! The directory discoverer: which of the entries a filesystem walk
//! visited mark a benchmarked application, and how the benchmark listing
//! derives its `layer / app / framework` rows from them.
//!
//! A directory is a benchmarked application exactly when it directly
//! contains a regular file named as the marker.  The walk itself happens
//! outside the library; it hands over one [`WalkEntry`] per visited entry,
//! and the functions here decide everything about them.

use vstd::prelude::*;

use crate::text::{after_prefix, path_components, split_components, str_eq_chars,
    strip_prefix_chars};

verus! {

/// One visited entry of a filesystem walk: the directory that holds the
/// entry, the entry's own name, and whether it is a regular file.
#[derive(Clone, Debug)]
pub struct WalkEntry {
    pub parent: String,
    pub name: String,
    pub is_file: bool,
}

/// The mathematical content of a [`WalkEntry`].
pub struct WalkEntryV {
    pub parent: Seq<char>,
    pub name: Seq<char>,
    pub is_file: bool,
}

impl View for WalkEntry {
    type V = WalkEntryV;

    open spec fn view(&self) -> WalkEntryV {
        WalkEntryV { parent: self.parent@, name: self.name@, is_file: self.is_file }
    }
}

impl DeepView for WalkEntry {
    type V = WalkEntryV;

    open spec fn deep_view(&self) -> WalkEntryV {
        self.view()
    }
}

/// The marker file whose presence makes a directory a benchmarked
/// application.
pub open spec fn marker_name() -> Seq<char> {
    "Makefile"@
}

/// Whether an entry is a marker: a regular file named as the marker.
pub open spec fn is_marker(e: WalkEntryV) -> bool {
    e.is_file && e.name == marker_name()
}

/// The directories of the marker entries, in walk order.
pub open spec fn marker_dirs(entries: Seq<WalkEntryV>) -> Seq<Seq<char>>
    decreases entries.len(),
{
    if entries.len() == 0 {
        Seq::<Seq<char>>::empty()
    } else {
        let rest = marker_dirs(entries.skip(1));
        if is_marker(entries[0]) {
            seq![entries[0].parent] + rest
        } else {
            rest
        }
    }
}

pub proof fn lemma_marker_dirs_snoc(entries: Seq<WalkEntryV>, e: WalkEntryV)
    ensures
        marker_dirs(entries.push(e)) =~= if is_marker(e) {
            marker_dirs(entries).push(e.parent)
        } else {
            marker_dirs(entries)
        },
    decreases entries.len(),
{
    if entries.len() == 0 {
        assert(entries.push(e)[0] == e);
        assert(entries.push(e).skip(1) =~= entries);
        if is_marker(e) {
            assert(seq![e.parent] + marker_dirs(entries) =~= marker_dirs(entries).push(e.parent));
        }
    } else {
        assert(entries.push(e)[0] == entries[0]);
        assert(entries.push(e).skip(1) =~= entries.skip(1).push(e));
        lemma_marker_dirs_snoc(entries.skip(1), e);
        if is_marker(entries[0]) && is_marker(e) {
            assert(seq![entries[0].parent] + marker_dirs(entries.skip(1)).push(e.parent)
                =~= (seq![entries[0].parent] + marker_dirs(entries.skip(1))).push(e.parent));
        }
    }
}

/// Discovers the application directories among the walked entries: the
/// parent directory of every marker entry, in walk order.
pub fn find_app_dirs(entries: &Vec<WalkEntry>) -> (r: Vec<String>)
    ensures
        r.deep_view() =~= marker_dirs(entries.deep_view()),
{
    let mut out: Vec<String> = Vec::new();
    let mut i: usize = 0;
    proof {
        assert(entries.deep_view().take(0) =~= Seq::<WalkEntryV>::empty());
        assert(out.deep_view() =~= marker_dirs(entries.deep_view().take(0)));
    }
    while i < entries.len()
        invariant
            0 <= i <= entries.len(),
            entries.deep_view().len() == entries.len(),
            out.deep_view() =~= marker_dirs(entries.deep_view().take(i as int)),
        decreases entries.len() - i,
    {
        proof {
            assert(entries.deep_view().take(i + 1) =~= entries.deep_view().take(i as int).push(
                entries.deep_view()[i as int],
            ));
            lemma_marker_dirs_snoc(entries.deep_view().take(i as int), entries.deep_view()[i as int]);
        }
        if entries[i].is_file && str_eq_chars(entries[i].name.as_str(), "Makefile") {
            let dir = entries[i].parent.clone();
            let ghost dv = out.deep_view();
            out.push(dir);
            proof {
                assert(out.deep_view() =~= dv.push(entries.deep_view()[i as int].parent));
            }
        }
        i += 1;
    }
    proof {
        assert(entries.deep_view().take(entries.len() as int) =~= entries.deep_view());
    }
    out
}

/// The set of directories that hold a marker entry, with no regard to
/// walk order.
pub open spec fn dirs_with_marker(entries: Seq<WalkEntryV>) -> Set<Seq<char>> {
    Set::new(
        |p: Seq<char>|
            exists|j: int| 0 <= j < entries.len() && is_marker(#[trigger] entries[j])
                && entries[j].parent == p,
    )
}

/// Discovery is exact: a directory is discovered if and only if some
/// walked entry is a marker file directly inside it.  The right-hand side
/// does not depend on the order of the walk, so any two walks that visit
/// the same entries discover the same set of directories.
pub proof fn lemma_discovery_exact(entries: Seq<WalkEntryV>)
    ensures
        marker_dirs(entries).to_set() == dirs_with_marker(entries),
    decreases entries.len(),
{
    if entries.len() == 0 {
        assert forall|p: Seq<char>| !marker_dirs(entries).to_set().contains(p) by {
            assert(marker_dirs(entries).len() == 0);
        }
        assert(marker_dirs(entries).to_set() =~= dirs_with_marker(entries));
    } else {
        let tail = entries.skip(1);
        lemma_discovery_exact(tail);
        let dirs = marker_dirs(entries);
        let rest = marker_dirs(tail);
        assert forall|p: Seq<char>| dirs.to_set().contains(p) implies dirs_with_marker(
            entries,
        ).contains(p) by {
            let i = choose|i: int| 0 <= i < dirs.len() && dirs[i] == p;
            if is_marker(entries[0]) && i == 0 {
                assert(is_marker(entries[0]) && entries[0].parent == p);
            } else {
                let k: int = if is_marker(entries[0]) {
                    i - 1
                } else {
                    i
                };
                assert(0 <= k < rest.len() && rest[k] == p);
                assert(rest.to_set().contains(p));
                assert(dirs_with_marker(tail).contains(p));
                let j = choose|j: int|
                    0 <= j < tail.len() && is_marker(#[trigger] tail[j]) && tail[j].parent == p;
                assert(entries[j + 1] == tail[j]);
                assert(is_marker(entries[j + 1]) && entries[j + 1].parent == p);
            }
        }
        assert forall|p: Seq<char>| dirs_with_marker(entries).contains(p) implies dirs.to_set()
            .contains(p) by {
            let j = choose|j: int|
                0 <= j < entries.len() && is_marker(#[trigger] entries[j]) && entries[j].parent
                    == p;
            if j == 0 {
                assert(dirs[0] == p);
            } else {
                assert(tail[j - 1] == entries[j]);
                assert(dirs_with_marker(tail).contains(p));
                assert(rest.to_set().contains(p));
                let i = choose|i: int| 0 <= i < rest.len() && rest[i] == p;
                if is_marker(entries[0]) {
                    assert(dirs[i + 1] == p);
                } else {
                    assert(dirs[i] == p);
                }
            }
        }
        assert(dirs.to_set() =~= dirs_with_marker(entries));
    }
}

/// One row of the benchmark listing: a discovered application's layer,
/// app and framework names and its directory.
#[derive(Clone, Debug)]
pub struct BenchRow {
    pub layer: String,
    pub app: String,
    pub framework: String,
    pub path: String,
}

/// The mathematical content of a [`BenchRow`].
pub struct BenchRowV {
    pub layer: Seq<char>,
    pub app: Seq<char>,
    pub framework: Seq<char>,
    pub path: Seq<char>,
}

impl View for BenchRow {
    type V = BenchRowV;

    open spec fn view(&self) -> BenchRowV {
        BenchRowV {
            layer: self.layer@,
            app: self.app@,
            framework: self.framework@,
            path: self.path@,
        }
    }
}

impl DeepView for BenchRow {
    type V = BenchRowV;

    open spec fn deep_view(&self) -> BenchRowV {
        self.view()
    }
}

/// The listing row an application directory yields: its path relative to
/// the benchmark root must consist of exactly three components, the
/// layer, the app and the framework.  Any other discovered directory is
/// left out of the listing.
pub open spec fn row_of_dir(root: Seq<char>, dir: Seq<char>) -> Option<BenchRowV> {
    match after_prefix(dir, root) {
        None => None,
        Some(rel) => {
            let parts = path_components(rel);
            if parts.len() == 3 {
                Some(BenchRowV { layer: parts[0], app: parts[1], framework: parts[2], path: dir })
            } else {
                None
            }
        },
    }
}

/// The listing row a walked entry yields, if any: the entry must be a
/// marker and its directory must sit three components under the root.
pub open spec fn row_of_entry(root: Seq<char>, e: WalkEntryV) -> Option<BenchRowV> {
    if is_marker(e) {
        row_of_dir(root, e.parent)
    } else {
        None
    }
}

/// The rows of the benchmark listing, in walk order.
pub open spec fn bench_rows(root: Seq<char>, entries: Seq<WalkEntryV>) -> Seq<BenchRowV>
    decreases entries.len(),
{
    if entries.len() == 0 {
        Seq::<BenchRowV>::empty()
    } else {
        let rest = bench_rows(root, entries.skip(1));
        match row_of_entry(root, entries[0]) {
            Some(row) => seq![row] + rest,
            None => rest,
        }
    }
}

pub proof fn lemma_bench_rows_snoc(root: Seq<char>, entries: Seq<WalkEntryV>, e: WalkEntryV)
    ensures
        bench_rows(root, entries.push(e)) =~= match row_of_entry(root, e) {
            Some(row) => bench_rows(root, entries).push(row),
            None => bench_rows(root, entries),
        },
    decreases entries.len(),
{
    if entries.len() == 0 {
        assert(entries.push(e)[0] == e);
        assert(entries.push(e).skip(1) =~= entries);
        if row_of_entry(root, e) is Some {
            let row = row_of_entry(root, e).unwrap();
            assert(seq![row] + bench_rows(root, entries) =~= bench_rows(root, entries).push(row));
        }
    } else {
        assert(entries.push(e)[0] == entries[0]);
        assert(entries.push(e).skip(1) =~= entries.skip(1).push(e));
        lemma_bench_rows_snoc(root, entries.skip(1), e);
        if row_of_entry(root, entries[0]) is Some && row_of_entry(root, e) is Some {
            let head = row_of_entry(root, entries[0]).unwrap();
            let row = row_of_entry(root, e).unwrap();
            assert(seq![head] + bench_rows(root, entries.skip(1)).push(row) =~= (seq![head]
                + bench_rows(root, entries.skip(1))).push(row));
        }
    }
}

/// Computes the benchmark listing: one row per marker entry whose
/// directory sits exactly three components under the benchmark root.
pub fn list_rows(bench_root: &str, entries: &Vec<WalkEntry>) -> (r: Vec<BenchRow>)
    ensures
        r.deep_view() =~= bench_rows(bench_root@, entries.deep_view()),
{
    let mut out: Vec<BenchRow> = Vec::new();
    let mut i: usize = 0;
    proof {
        assert(entries.deep_view().take(0) =~= Seq::<WalkEntryV>::empty());
        assert(out.deep_view() =~= bench_rows(bench_root@, entries.deep_view().take(0)));
    }
    while i < entries.len()
        invariant
            0 <= i <= entries.len(),
            entries.deep_view().len() == entries.len(),
            out.deep_view() =~= bench_rows(bench_root@, entries.deep_view().take(i as int)),
        decreases entries.len() - i,
    {
        proof {
            assert(entries.deep_view().take(i + 1) =~= entries.deep_view().take(i as int).push(
                entries.deep_view()[i as int],
            ));
            lemma_bench_rows_snoc(
                bench_root@,
                entries.deep_view().take(i as int),
                entries.deep_view()[i as int],
            );
        }
        if entries[i].is_file && str_eq_chars(entries[i].name.as_str(), "Makefile") {
            match strip_prefix_chars(entries[i].parent.as_str(), bench_root) {
                Some(rel) => {
                    let parts = split_components(rel.as_str());
                    if parts.len() == 3 {
                        let row = BenchRow {
                            layer: parts[0].clone(),
                            app: parts[1].clone(),
                            framework: parts[2].clone(),
                            path: entries[i].parent.clone(),
                        };
                        let ghost dv = out.deep_view();
                        proof {
                            assert(row@ == row_of_entry(
                                bench_root@,
                                entries.deep_view()[i as int],
                            ).unwrap());
                        }
                        out.push(row);
                        proof {
                            assert(out.deep_view() =~= dv.push(row@));
                        }
                    }
                },
                None => {},
            }
        }
        i += 1;
    }
    proof {
        assert(entries.deep_view().take(entries.len() as int) =~= entries.deep_view());
    }
    out
}

} // verus!
