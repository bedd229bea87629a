use bela::level::Channel;

#[test]
fn all_channels_is_belas_negative_channel() {
    assert_eq!(Channel::All.to_c_int(), -1);
}

#[test]
fn a_channel_number_is_passed_through() {
    assert_eq!(Channel::One(0).to_c_int(), 0);
    assert_eq!(Channel::One(1).to_c_int(), 1);
    assert_eq!(Channel::One(i32::MAX as usize).to_c_int(), i32::MAX);
}

#[test]
fn a_channel_number_too_large_for_a_c_int_saturates() {
    for channel in [i32::MAX as usize + 1, usize::MAX] {
        assert!(
            Channel::One(channel).to_c_int() > 0,
            "channel {channel} must not arrive as a request to set every channel"
        );
    }
}
