use if_newer::{should_run, Timestamp};

fn entries(list: &[(&str, i128)]) -> Vec<(String, Timestamp)> {
    list.iter()
        .map(|(p, t)| (p.to_string(), Timestamp { nanos: *t }))
        .collect()
}

#[test]
fn absent_output_always_runs() {
    let d = should_run(&entries(&[("a", 5), ("b", 1)]), "out", None);
    assert!(d.run);
    assert_eq!(d.reason, "out not found");
    let d = should_run(&entries(&[("a", -7)]), "out", None);
    assert!(d.run);
}

#[test]
fn runs_iff_latest_input_is_newer() {
    let ins = entries(&[("a", 10), ("b", 30), ("c", 20)]);
    assert!(should_run(&ins, "o", Some(Timestamp { nanos: 25 })).run);
    assert!(should_run(&ins, "o", Some(Timestamp { nanos: 5 })).run);
    assert!(!should_run(&ins, "o", Some(Timestamp { nanos: 35 })).run);
}

#[test]
fn equal_times_skip() {
    let ins = entries(&[("a", 10), ("b", 30)]);
    let d = should_run(&ins, "o", Some(Timestamp { nanos: 30 }));
    assert!(!d.run);
    assert_eq!(d.reason, "o is newer than all input files");
}

#[test]
fn reason_cites_first_newer_input() {
    let ins = entries(&[("a", 10), ("b", 40), ("c", 30)]);
    let d = should_run(&ins, "o", Some(Timestamp { nanos: 20 }));
    assert!(d.run);
    assert_eq!(d.reason, "b is newer than o");
}

#[test]
fn second_run_skips_once_output_written() {
    let ins = entries(&[("a", 10), ("b", 20)]);
    let first = should_run(&ins, "o", Some(Timestamp { nanos: 15 }));
    assert!(first.run);
    let second = should_run(&ins, "o", Some(Timestamp { nanos: 50 }));
    assert!(!second.run);
    let third = should_run(&ins, "o", Some(Timestamp { nanos: 50 }));
    assert!(!third.run);
}
