use univention_maintenance_mode::details::{latest_reading, pmstatus_fields, reading_field, sub_step};
use univention_maintenance_mode::status::parse_status;

fn numbers(fields: &[String]) -> Vec<Option<f64>> {
    fields.iter().map(|field| field.parse::<f64>().ok()).collect()
}

#[test]
fn only_marked_lines_with_three_fields_report() {
    let fields = pmstatus_fields(
        "dlstatus:1:10:fetching\npmstatus:dpkg-exec:12.5:Running dpkg\npmstatus:short\npmstatus:a:\nother\n\npmstatus:b:83.3333:x:y:z\n",
    );
    assert_eq!(fields, vec!["12.5".to_string(), "".to_string(), "83.3333".to_string()]);
}

#[test]
fn no_lines_no_readings() {
    assert_eq!(pmstatus_fields(""), Vec::<String>::new());
    assert_eq!(pmstatus_fields("\n\n"), Vec::<String>::new());
    assert_eq!(pmstatus_fields("pmstatus"), Vec::<String>::new());
    assert_eq!(pmstatus_fields("pmstatus:x"), Vec::<String>::new());
}

#[test]
fn the_marker_must_be_the_whole_first_field() {
    assert_eq!(pmstatus_fields(" pmstatus:x:1\npmstatus2:x:2\nPMSTATUS:x:3\n:pmstatus:x:4"), Vec::<String>::new());
}

#[test]
fn reading_field_takes_the_third_field() {
    let line: Vec<char> = "pmstatus:pkg:42:rest:more".chars().collect();
    assert_eq!(reading_field(&line), Some("42".to_string()));
    let two: Vec<char> = "pmstatus:pkg".chars().collect();
    assert_eq!(reading_field(&two), None);
    let other: Vec<char> = "status:pkg:42".chars().collect();
    assert_eq!(reading_field(&other), None);
    let empty_third: Vec<char> = "pmstatus::".chars().collect();
    assert_eq!(reading_field(&empty_third), Some(String::new()));
}

#[test]
fn a_malformed_reading_keeps_the_one_before() {
    let fields = pmstatus_fields("pmstatus:x:30\npmstatus:x:abc");
    assert_eq!(fields, vec!["30".to_string(), "abc".to_string()]);
    let value = latest_reading(numbers(&fields), 0.0);
    assert_eq!(value, 30.0);
}

#[test]
fn the_last_number_stands() {
    let fields = pmstatus_fields("pmstatus:a:10\npmstatus:a:20.5\nnoise\npmstatus:a:\npmstatus:a:7.25\npmstatus:a:x\n");
    assert_eq!(latest_reading(numbers(&fields), 0.0), 7.25);
}

#[test]
fn without_any_number_the_initial_value_stands() {
    assert_eq!(latest_reading(Vec::<Option<f64>>::new(), 0.0), 0.0);
    assert_eq!(latest_reading(vec![None, None], 1.5), 1.5);
    let fields = pmstatus_fields("pmstatus:a:x\npmstatus:a:y");
    assert_eq!(latest_reading(numbers(&fields), 0.0), 0.0);
}

#[test]
fn latest_reading_works_on_any_type() {
    assert_eq!(latest_reading(vec![Some(1u8), None, Some(3u8), None], 9), 3);
    assert_eq!(latest_reading(vec![Some("a"), Some("b")], "z"), "b");
    assert_eq!(latest_reading(vec![None, Some(4i64)], 0), 4);
}

#[test]
fn done_forces_the_sub_step_to_zero() {
    let done = parse_status("status=DONE\n");
    let fields = pmstatus_fields("pmstatus:x:64.5\n");
    let reading = latest_reading(numbers(&fields), 0.0);
    assert_eq!(reading, 64.5);
    assert_eq!(sub_step(&done, reading, 0.0), 0.0);
}

#[test]
fn a_running_updater_keeps_its_reading() {
    let running = parse_status("status=RUNNING\n");
    assert_eq!(sub_step(&running, 64.5, 0.0), 64.5);
    let silent = parse_status("");
    assert_eq!(sub_step(&silent, 12.0, 0.0), 12.0);
}
