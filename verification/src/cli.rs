//! The argument records of the benchmark subcommands, and how they resolve
//! to the directory a walk starts from.

use vstd::prelude::*;

use crate::text::{join_path, spec_join_path};

verus! {

/// The request of a benchmark listing.
#[derive(Clone, Debug)]
pub struct BenchListArgs {
    pub root: String,
    pub layer: Option<String>,
}

/// The request of a benchmark test run.
#[derive(Clone, Debug)]
pub struct BenchTestArgs {
    pub root: String,
    pub layer: Option<String>,
    pub dry_run: bool,
}

/// The benchmark root under the repository root, and the directory the
/// listing walks: the root itself, or one layer under it when the request
/// names one.
pub fn bench_list_base(args: &BenchListArgs) -> (r: (String, String))
    ensures
        r.0@ == spec_join_path(args.root@, "benchmark"@),
        args.layer is Some ==> r.1@ == spec_join_path(r.0@, (args.layer->0)@),
        args.layer is None ==> r.1@ == r.0@,
{
    let bench_root = join_path(args.root.as_str(), "benchmark");
    let base = match &args.layer {
        Some(l) => join_path(bench_root.as_str(), l.as_str()),
        None => bench_root.clone(),
    };
    (bench_root, base)
}

/// The directory a benchmark test run walks: the benchmark root itself,
/// or one layer under it when the request names one.
pub fn bench_test_base(args: &BenchTestArgs) -> (r: String)
    ensures
        args.layer is Some ==> r@ == spec_join_path(args.root@, (args.layer->0)@),
        args.layer is None ==> r@ == args.root@,
{
    match &args.layer {
        Some(l) => join_path(args.root.as_str(), l.as_str()),
        None => args.root.clone(),
    }
}

} // verus!
