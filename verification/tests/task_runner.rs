use scarf::tasks::{classify_run, sort_report, CommandOutput, TaskOutcome, TaskResult};

fn output(exit_ok: bool, stdout: &str, stderr: &str) -> CommandOutput {
    CommandOutput { exit_ok, stdout: stdout.to_string(), stderr: stderr.to_string() }
}

#[test]
fn classify_judges_each_run_from_its_own_observations() {
    let ok = classify_run("b/l/a/f1", true, Some(&output(true, "all tests passed", "")));
    assert_eq!(ok.dir, "b/l/a/f1");
    assert!(matches!(ok.outcome, TaskOutcome::Success { ref stdout } if stdout == "all tests passed"));

    let failed = classify_run("b/l/a/f2", true, Some(&output(false, "", "2 tests failed")));
    assert!(matches!(failed.outcome, TaskOutcome::Failure { ref stderr } if stderr == "2 tests failed"));

    let no_marker = classify_run("b/l/a/f3", false, None);
    assert!(matches!(
        no_marker.outcome,
        TaskOutcome::Error { ref cause } if cause == "no Makefile found in the provided directory: b/l/a/f3"
    ));

    let no_spawn = classify_run("b/l/a/f4", true, None);
    assert!(matches!(
        no_spawn.outcome,
        TaskOutcome::Error { ref cause } if cause == "failed to execute the test command in b/l/a/f4"
    ));
}

#[test]
fn one_erroring_directory_among_five_still_yields_all_five_outcomes() {
    // Five discovered directories; the fourth has no executable test
    // target.  The runner still reports one outcome per directory.
    let dirs = ["b/l/a/f5", "b/l/a/f2", "b/l/a/f4", "b/l/a/f1", "b/l/a/f3"];
    let mut results: Vec<TaskResult> = Vec::new();
    for (i, dir) in dirs.iter().enumerate() {
        let r = if *dir == "b/l/a/f4" {
            classify_run(dir, false, None)
        } else if i % 2 == 0 {
            classify_run(dir, true, Some(&output(true, "ok", "")))
        } else {
            classify_run(dir, true, Some(&output(false, "", "boom")))
        };
        results.push(r);
    }

    let report = sort_report(results);
    assert_eq!(report.len(), 5);

    let errors = report.iter().filter(|r| matches!(r.outcome, TaskOutcome::Error { .. })).count();
    let finished = report
        .iter()
        .filter(|r| !matches!(r.outcome, TaskOutcome::Error { .. }))
        .count();
    assert_eq!(errors, 1);
    assert_eq!(finished, 4);

    // The report is sorted by path, whatever order the results arrived in.
    let paths: Vec<&str> = report.iter().map(|r| r.dir.as_str()).collect();
    assert_eq!(paths, vec!["b/l/a/f1", "b/l/a/f2", "b/l/a/f3", "b/l/a/f4", "b/l/a/f5"]);
}

#[test]
fn report_order_does_not_depend_on_completion_order() {
    let a = TaskResult {
        dir: "b/z".to_string(),
        outcome: TaskOutcome::Success { stdout: String::new() },
    };
    let b = TaskResult {
        dir: "b/a".to_string(),
        outcome: TaskOutcome::Failure { stderr: String::new() },
    };
    let c = TaskResult {
        dir: "b/m".to_string(),
        outcome: TaskOutcome::Success { stdout: String::new() },
    };

    let one = sort_report(vec![a.clone(), b.clone(), c.clone()]);
    let other = sort_report(vec![c, a, b]);

    let dirs_one: Vec<&str> = one.iter().map(|r| r.dir.as_str()).collect();
    let dirs_other: Vec<&str> = other.iter().map(|r| r.dir.as_str()).collect();
    assert_eq!(dirs_one, vec!["b/a", "b/m", "b/z"]);
    assert_eq!(dirs_one, dirs_other);
}

#[test]
fn outcome_labels_match_the_report_vocabulary() {
    let s = TaskOutcome::Success { stdout: String::new() };
    let f = TaskOutcome::Failure { stderr: String::new() };
    let e = TaskOutcome::Error { cause: String::new() };
    assert_eq!(s.label(), "Success");
    assert_eq!(f.label(), "Failure");
    assert_eq!(e.label(), "Error");
}
