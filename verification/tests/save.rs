use std::path::PathBuf;
use tinny::save::TEMP_EXTENSION;
use tinny::{Can, Loaded, SaveStep};

fn new_can() -> Can {
    Can::open_or_create(PathBuf::from("can.json"), Loaded::NotFound).unwrap().0
}

#[test]
fn the_can_file_is_replaced_last() {
    let can = new_can();
    let mut saving = Some(can.save_atomic());
    let mut steps = Vec::new();
    while let Some(s) = saving {
        assert_eq!(s.can.path(), can.path());
        steps.push(s.step);
        saving = s.advance(true, "can.json", "can.json.tmp").unwrap();
    }
    assert_eq!(steps, [SaveStep::Create, SaveStep::Write, SaveStep::Sync, SaveStep::Replace]);
}

#[test]
fn the_temporary_file_has_its_own_extension() {
    let temp = new_can().path().with_extension(TEMP_EXTENSION);
    assert_eq!(temp, PathBuf::from("can.json.tmp"));
}

#[test]
fn a_failed_step_ends_the_saving() {
    let can = new_can();
    let expected = [
        "failed to create temp file: can.json.tmp",
        "failed to write temp file: can.json.tmp",
        "failed to sync temp file: can.json.tmp",
        "failed to atomically replace can.json with can.json.tmp",
    ];
    for (failing, message) in expected.iter().enumerate() {
        let mut saving = can.save_atomic();
        for _ in 0..failing {
            saving = saving.advance(true, "can.json", "can.json.tmp").unwrap().unwrap();
        }
        let e = saving.advance(false, "can.json", "can.json.tmp").unwrap_err();
        assert_eq!(e.message(), *message);
    }
}
