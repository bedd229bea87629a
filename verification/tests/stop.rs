use bela::stop_requested;

#[test]
fn a_stop_is_never_requested_off_the_device() {
    assert!(
        !stop_requested(),
        "off-device there is no audio system for anything to have stopped"
    );
}
