use univention_maintenance_mode::cycle::{snapshot, MissingSource};
use univention_maintenance_mode::details::{latest_reading, pmstatus_fields, sub_step};
use univention_maintenance_mode::plan::UpdatePlan;
use univention_maintenance_mode::progress::{aggregate, Aggregate, POINTS_PER_VERSION};
use univention_maintenance_mode::publish::render_document;
use univention_maintenance_mode::status::parse_status;

fn overall(aggregate: Aggregate, sub_step_percentage: f64) -> f64 {
    match aggregate {
        Aggregate::Complete => 100.0,
        Aggregate::Partial { earned, shares } => (earned as f64 + sub_step_percentage) / shares as f64,
    }
}

#[test]
fn one_of_two_versions_done_and_half_of_the_next() {
    let status = parse_status("current_version=1.0\ntarget_version=3.0\n");
    let plan = UpdatePlan::build("1.0,2.0,3.0", &status);
    let whole = aggregate(&status, &plan);
    assert_eq!(whole, Aggregate::Partial { earned: 100, shares: 2 });
    assert_eq!(overall(whole, 50.0), 75.0);
}

#[test]
fn nothing_done_of_four_versions_and_a_fifth_of_the_first() {
    let status = parse_status("target_version=5.0\n");
    let plan = UpdatePlan::build("1.0,2.0,3.0,4.0,5.0", &status);
    assert_eq!(plan.ordered_versions.len(), 4);
    let whole = aggregate(&status, &plan);
    assert_eq!(whole, Aggregate::Partial { earned: 0, shares: 4 });
    assert_eq!(overall(whole, 20.0), 5.0);
}

#[test]
fn at_the_target_the_aggregate_is_complete() {
    let status = parse_status("current_version=3.0\ntarget_version=3.0\n");
    for manifest in ["", "1.0,2.0,3.0", "3.0", "7.0,8.0"] {
        let plan = UpdatePlan::build(manifest, &status);
        let whole = aggregate(&status, &plan);
        assert_eq!(whole, Aggregate::Complete);
        assert_eq!(overall(whole, -5.0), 100.0);
        assert_eq!(overall(whole, 250.0), 100.0);
        assert_eq!(overall(whole, 0.0), 100.0);
    }
}

#[test]
fn two_unknown_versions_do_not_complete_anything() {
    let status = parse_status("status=RUNNING\n");
    let plan = UpdatePlan::build("1.0,2.0", &status);
    assert_eq!(aggregate(&status, &plan), Aggregate::Partial { earned: 0, shares: 2 });
}

#[test]
fn an_empty_plan_passes_the_sub_step_through() {
    let status = parse_status("current_version=1.0\ntarget_version=2.0\n");
    let plan = UpdatePlan::build("", &status);
    let whole = aggregate(&status, &plan);
    assert_eq!(whole, Aggregate::Partial { earned: 0, shares: 1 });
    assert_eq!(overall(whole, 37.5), 37.5);
    assert_eq!(overall(whole, 0.0), 0.0);
}

#[test]
fn earned_points_grow_with_the_finished_count() {
    let mut last = 0;
    for current in ["0.9", "1.0", "2.0", "3.0"] {
        let status = parse_status(&format!("current_version={}\ntarget_version=4.0\n", current));
        let plan = UpdatePlan::build("1.0,2.0,3.0,4.0", &status);
        match aggregate(&status, &plan) {
            Aggregate::Partial { earned, shares } => {
                assert_eq!(shares, 3);
                assert_eq!(earned, POINTS_PER_VERSION * plan.finished_count as u128);
                assert!(earned >= last);
                last = earned;
            }
            Aggregate::Complete => panic!("the target is not installed"),
        }
    }
    assert_eq!(last, 300);
}

#[test]
fn aggregate_takes_a_plan_as_it_is_given() {
    let status = parse_status("");
    let plan = UpdatePlan { ordered_versions: vec!["a".to_string(), "b".to_string()], finished_count: 2 };
    assert_eq!(aggregate(&status, &plan), Aggregate::Partial { earned: 200, shares: 2 });
}

#[test]
fn a_whole_cycle_from_three_texts_to_the_document() {
    let status = parse_status("current_version=4.3-0\nnext_version=4.3-1\ntarget_version=4.3-2\ntype=NET\nstatus=RUNNING\n");
    let fields = pmstatus_fields("pmstatus:dpkg-exec:12.5:Running dpkg\npmstatus:libc6:50:Installing\npmstatus:libc6:oops\n");
    let parsed: Vec<Option<f64>> = fields.iter().map(|field| field.parse::<f64>().ok()).collect();
    let percentage = sub_step(&status, latest_reading(parsed, 0.0), 0.0);
    let plan = UpdatePlan::build("4.3-0,4.3-1,4.3-2,4.4-0\n", &status);
    let value = overall(aggregate(&status, &plan), percentage);
    assert_eq!(value, 75.0);
    assert_eq!(render_document(&format!("{:?}", value)), "{\"v1\":{\"percentage\":75.0}}");
}

#[test]
fn a_done_updater_counts_no_sub_step() {
    let status = parse_status("current_version=1.0\ntarget_version=3.0\nstatus=DONE\n");
    let fields = pmstatus_fields("pmstatus:x:88\n");
    let parsed: Vec<Option<f64>> = fields.iter().map(|field| field.parse::<f64>().ok()).collect();
    let percentage = sub_step(&status, latest_reading(parsed, 0.0), 0.0);
    assert_eq!(percentage, 0.0);
    let plan = UpdatePlan::build("1.0,2.0,3.0", &status);
    assert_eq!(overall(aggregate(&status, &plan), percentage), 50.0);
}

#[test]
fn document_has_the_exact_shape() {
    assert_eq!(render_document("5.0"), "{\"v1\":{\"percentage\":5.0}}");
    assert_eq!(render_document("100.0"), "{\"v1\":{\"percentage\":100.0}}");
    assert_eq!(render_document("-0.5"), "{\"v1\":{\"percentage\":-0.5}}");
    assert_eq!(render_document(""), "{\"v1\":{\"percentage\":}}");
}

#[test]
fn a_cycle_needs_all_three_texts() {
    assert_eq!(snapshot(None, Some(""), Some("")).err(), Some(MissingSource::Status));
    assert_eq!(snapshot(None, None, None).err(), Some(MissingSource::Status));
    assert_eq!(snapshot(Some(""), None, Some("")).err(), Some(MissingSource::Details));
    assert_eq!(snapshot(Some(""), None, None).err(), Some(MissingSource::Details));
    assert_eq!(snapshot(Some(""), Some(""), None).err(), Some(MissingSource::Manifest));
    assert!(snapshot(Some(""), Some(""), Some("")).is_ok());
}

#[test]
fn a_cycle_of_empty_texts_finds_nothing() {
    let found = snapshot(Some(""), Some(""), Some("")).unwrap();
    assert_eq!(found.status.current_version, None);
    assert_eq!(found.readings, Vec::<String>::new());
    assert_eq!(found.plan.ordered_versions, Vec::<String>::new());
    assert_eq!(found.plan.finished_count, 0);
    assert_eq!(found.aggregate, Aggregate::Partial { earned: 0, shares: 1 });
}

#[test]
fn a_cycle_gathers_status_readings_plan_and_aggregate() {
    let found = snapshot(
        Some("current_version=2.0\ntarget_version=4.0\nstatus=RUNNING\n"),
        Some("pmstatus:a:10\nnoise\npmstatus:a:40.5\n"),
        Some("1.0,2.0,3.0,4.0,5.0\n"),
    )
    .unwrap();
    assert_eq!(found.status.current_version, Some("2.0".to_string()));
    assert_eq!(found.status.target_version, Some("4.0".to_string()));
    assert_eq!(found.readings, vec!["10".to_string(), "40.5".to_string()]);
    assert_eq!(found.plan.ordered_versions, vec!["1.0".to_string(), "2.0".to_string(), "3.0".to_string()]);
    assert_eq!(found.plan.finished_count, 2);
    assert_eq!(found.aggregate, Aggregate::Partial { earned: 200, shares: 3 });
    assert_eq!(overall(found.aggregate, 40.5), 80.16666666666667);
}
