use rustfilelooper::rename::Rename;
use rustfilelooper::run::{common_of_listing, plan_run, remove_arg_of, Plan, RemoveArg, Report};

fn strings(v: &[&str]) -> Vec<String> {
    v.iter().map(|s| s.to_string()).collect()
}

fn reports() -> Vec<String> {
    strings(&["report_v1.txt", "report_v2.txt", "report_v3.txt"])
}

#[test]
fn listing_common_substring_ignores_extensions() {
    assert_eq!(common_of_listing(&reports()), Some("report_v".to_string()));
}

#[test]
fn empty_listing_with_nameloop_finds_nothing() {
    for remove in [RemoveArg::Unset, RemoveArg::UseCommon] {
        let plan = plan_run(&[], true, &remove);
        assert_eq!(plan, Plan { report: Report::NoCommon, renames: vec![], remove_ignored: false });
    }
}

#[test]
fn nameloop_reports_common_substring() {
    let plan = plan_run(&reports(), true, &RemoveArg::Unset);
    assert_eq!(plan, Plan { report: Report::Common("report_v".to_string()), renames: vec![], remove_ignored: false });
}

#[test]
fn nameloop_with_remove_takes_common_substring_out() {
    let plan = plan_run(&reports(), true, &RemoveArg::UseCommon);
    assert_eq!(plan.report, Report::Common("report_v".to_string()));
    assert!(!plan.remove_ignored);
    assert_eq!(
        plan.renames,
        vec![
            Rename { from: "report_v1.txt".to_string(), to: "1.txt".to_string() },
            Rename { from: "report_v2.txt".to_string(), to: "2.txt".to_string() },
            Rename { from: "report_v3.txt".to_string(), to: "3.txt".to_string() },
        ]
    );
}

#[test]
fn nameloop_ignores_explicit_remove_value() {
    let plan = plan_run(&reports(), true, &RemoveArg::Explicit("v1".to_string()));
    assert_eq!(plan, Plan { report: Report::Common("report_v".to_string()), renames: vec![], remove_ignored: true });
    let plan = plan_run(&[], true, &RemoveArg::Explicit("v1".to_string()));
    assert_eq!(plan, Plan { report: Report::NoCommon, renames: vec![], remove_ignored: true });
}

#[test]
fn explicit_remove_renames_without_report() {
    let plan = plan_run(&reports(), false, &RemoveArg::Explicit("_v2".to_string()));
    assert_eq!(
        plan,
        Plan {
            report: Report::Silent,
            renames: vec![Rename { from: "report_v2.txt".to_string(), to: "report.txt".to_string() }],
            remove_ignored: false,
        }
    );
}

#[test]
fn remove_without_value_or_nameloop_does_nothing() {
    let plan = plan_run(&reports(), false, &RemoveArg::UseCommon);
    assert_eq!(plan, Plan { report: Report::Silent, renames: vec![], remove_ignored: false });
}

#[test]
fn no_options_lists_the_files() {
    let plan = plan_run(&reports(), false, &RemoveArg::Unset);
    assert_eq!(plan, Plan { report: Report::Listing, renames: vec![], remove_ignored: false });
}

#[test]
fn remove_option_from_raw_value() {
    assert_eq!(remove_arg_of(None), RemoveArg::Unset);
    assert_eq!(remove_arg_of(Some(String::new())), RemoveArg::UseCommon);
    assert_eq!(remove_arg_of(Some("v1".to_string())), RemoveArg::Explicit("v1".to_string()));
}
