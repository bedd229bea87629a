use bela::error::Error;
use bela::task::{AuxiliaryTask, Lifecycle, Priority};

#[test]
fn priority_accepts_exactly_belas_range() {
    assert_eq!(Priority::new(0).map(|p| p.get()), Some(0));
    assert_eq!(Priority::new(99).map(|p| p.get()), Some(99));
    assert_eq!(Priority::new(100), None);
}

#[test]
fn audio_priority_matches_bela() {
    assert_eq!(Priority::audio().get(), 95);
}

#[test]
fn tasks_cannot_be_created_during_a_teardown() {
    let mut lifecycle = Lifecycle::new();
    let priority = Priority::new(50).expect("50 is within Bela's priority range");

    lifecycle.begin_teardown();
    let error = AuxiliaryTask::new("report", priority, &lifecycle, || {}).unwrap_err();
    assert_eq!(error, Error::TaskCreateWhileStopping, "creating a task during a teardown must fail");
    lifecycle.end_teardown();

    let error = AuxiliaryTask::new("report", priority, &lifecycle, || {}).unwrap_err();
    assert_ne!(
        error,
        Error::TaskCreateWhileStopping,
        "creation should be accepted again once the teardown is over"
    );
}

#[test]
fn a_name_with_an_interior_nul_is_rejected() {
    let lifecycle = Lifecycle::new();
    let priority = Priority::new(50).expect("50 is within Bela's priority range");
    let error = AuxiliaryTask::new("no\0pe", priority, &lifecycle, || {}).unwrap_err();
    assert_eq!(error, Error::TaskName, "expected the name to be rejected");
}

#[test]
fn tasks_cannot_be_created_off_device() {
    let lifecycle = Lifecycle::new();
    let priority = Priority::new(50).expect("50 is within Bela's priority range");
    let error = AuxiliaryTask::new("report", priority, &lifecycle, || {}).unwrap_err();
    assert_eq!(
        error,
        Error::TaskCreate,
        "off-device there is no audio system to create a task in"
    );
}

#[test]
fn a_teardown_moves_to_a_new_generation() {
    let mut lifecycle = Lifecycle::new();
    assert_eq!(lifecycle.generation(), 0);
    assert!(lifecycle.is_accepting());
    lifecycle.begin_teardown();
    assert_eq!(lifecycle.generation(), 1);
    assert!(!lifecycle.is_accepting());
    lifecycle.end_teardown();
    assert_eq!(lifecycle.generation(), 1);
    assert!(lifecycle.is_accepting());
}

#[test]
fn tearing_down_the_audio_system_retires_the_handles() {
    let mut lifecycle = Lifecycle::new();
    let task = AuxiliaryTask::created(true, &lifecycle).expect("Bela gave a task");
    assert!(task.is_current(&lifecycle), "a fresh handle should be live");

    lifecycle.begin_teardown();
    assert!(
        !task.is_current(&lifecycle),
        "handles must be retired before anything can delete the tasks"
    );
    lifecycle.end_teardown();

    assert!(!task.is_current(&lifecycle), "and stay retired afterwards");
}

#[test]
fn a_later_audio_system_does_not_revive_an_earlier_handle() {
    let mut lifecycle = Lifecycle::new();
    let old = AuxiliaryTask::created(true, &lifecycle).expect("Bela gave a task");
    lifecycle.begin_teardown();
    lifecycle.end_teardown();
    // Stands in for a task created for the next audio system.
    let new = AuxiliaryTask::created(true, &lifecycle).expect("Bela gave a task");

    assert!(
        !old.is_current(&lifecycle),
        "a handle from the previous audio system must stay retired"
    );
    assert!(new.is_current(&lifecycle), "the new handle should be live");
    assert!(new.schedule(&lifecycle), "a live handle's schedule reaches Bela");
    assert!(!old.schedule(&lifecycle), "a retired one's does nothing");
}

#[test]
fn a_task_bela_did_not_create_is_an_error() {
    let lifecycle = Lifecycle::new();
    assert_eq!(AuxiliaryTask::created(false, &lifecycle).unwrap_err(), Error::TaskCreate);
}
