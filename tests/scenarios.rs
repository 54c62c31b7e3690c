use if_newer::check::{Check, Probe};
use if_newer::inputs::{resolve_inputs, InputSource};
use if_newer::{AppError, Decision, Timestamp};
use std::collections::HashMap;

/// Runs the check against a simulated file system: path -> modification time.
fn run(designator: &str, stdin: &str, files: &HashMap<&str, i128>) -> Result<Decision, AppError> {
    let source = InputSource::from_designator(designator);
    let inputs = resolve_inputs(&source, stdin)?;
    let mut check = Check::new(inputs, "output".to_string());
    let mut probes = 0;
    loop {
        let path = check.next_path();
        probes += 1;
        assert!(probes < 100);
        let probe = match files.get(path.as_str()) {
            Some(t) => Probe::Present(Timestamp { nanos: *t }),
            None => Probe::Absent,
        };
        if let Some(outcome) = check.advance(probe) {
            return outcome;
        }
    }
}

#[test]
fn missing_input_and_output() {
    let files = HashMap::new();
    let e = run("input", "", &files).unwrap_err();
    assert_eq!(e.message(), "file not found: input");
}

#[test]
fn present_input_absent_output() {
    let files = HashMap::from([("input", 1)]);
    let d = run("input", "", &files).unwrap();
    assert!(d.run);
    assert_eq!(d.reason, "output not found");
}

#[test]
fn output_newer_than_input() {
    let files = HashMap::from([("input", 1), ("output", 2)]);
    assert!(!run("input", "", &files).unwrap().run);
}

#[test]
fn input_touched_after_output() {
    let files = HashMap::from([("input", 3), ("output", 2)]);
    let d = run("input", "", &files).unwrap();
    assert!(d.run);
    assert_eq!(d.reason, "input is newer than output");
}

#[test]
fn stdin_list_with_second_missing() {
    let files = HashMap::from([("input1", 1), ("output", 5)]);
    let e = run("-", "input1 input2", &files).unwrap_err();
    assert_eq!(e.message(), "file not found: input2");
}

#[test]
fn stdin_list_first_missing_is_reported() {
    let files = HashMap::new();
    let e = run("-", "input1 input2", &files).unwrap_err();
    assert_eq!(e.message(), "file not found: input1");
}

#[test]
fn stdin_list_runs_then_skips_then_cites_second() {
    let mut files = HashMap::from([("input1", 1), ("input2", 2)]);
    assert!(run("-", "input1 input2", &files).unwrap().run);
    files.insert("output", 3);
    assert!(!run("-", "input1 input2", &files).unwrap().run);
    files.insert("input2", 4);
    let d = run("-", "input1 input2", &files).unwrap();
    assert!(d.run);
    assert_eq!(d.reason, "input2 is newer than output");
}

#[test]
fn probe_failure_passes_its_message() {
    let source = InputSource::from_designator("a");
    let inputs = resolve_inputs(&source, "").unwrap();
    let mut check = Check::new(inputs, "o".to_string());
    let e = check.advance(Probe::Failed("permission denied".to_string())).unwrap().unwrap_err();
    assert_eq!(e.message(), "permission denied");

    let mut check = Check::new(vec!["a".to_string()], "o".to_string());
    assert!(check.advance(Probe::Present(Timestamp { nanos: 1 })).is_none());
    assert_eq!(check.next_path(), "o");
    let e = check.advance(Probe::Failed("io".to_string())).unwrap().unwrap_err();
    assert_eq!(e.message(), "io");
}

#[test]
fn simple() {
    let mut files = HashMap::new();
    let e = run("input", "", &files).unwrap_err();
    assert_eq!(format!("ERROR: {}\n", e.message()), "ERROR: file not found: input\n");

    files.insert("input", 10);
    assert!(run("input", "", &files).unwrap().run);

    files.insert("output", 20);
    assert!(!run("input", "", &files).unwrap().run);

    files.insert("input", 30);
    assert!(run("input", "", &files).unwrap().run);
}

#[test]
fn multiple_input_files() {
    let mut files = HashMap::new();
    let e = run("-", "input1 input2", &files).unwrap_err();
    assert_eq!(format!("ERROR: {}\n", e.message()), "ERROR: file not found: input1\n");

    files.insert("input1", 10);
    let e = run("-", "input1 input2", &files).unwrap_err();
    assert_eq!(format!("ERROR: {}\n", e.message()), "ERROR: file not found: input2\n");

    files.insert("input2", 20);
    assert!(run("-", "input1 input2", &files).unwrap().run);

    files.insert("output", 30);
    assert!(!run("-", "input1 input2", &files).unwrap().run);

    files.insert("input1", 40);
    assert!(run("-", "input1 input2", &files).unwrap().run);

    files.insert("output", 50);
    files.insert("input2", 60);
    assert!(run("-", "input1 input2", &files).unwrap().run);
}
