use bela::error::Error;
use bela::fft::{check_forward, check_inverse, FftLength};

#[test]
fn the_lengths_that_corrupt_memory_are_not_lengths() {
    assert_eq!(FftLength::new(2), None);
    assert_eq!(FftLength::new(4), None);
    assert_eq!(FftLength::min_value().get(), 8);
}

#[test]
fn rounding_up_lands_on_a_supported_length() {
    for (asked, expected) in [
        (0, 8),
        (1, 8),
        (2, 8),
        (5, 8),
        (8, 8),
        (9, 16),
        (1000, 1024),
        (65536, 65536),
    ] {
        assert_eq!(
            FftLength::rounded_up(asked).map(FftLength::get),
            Some(expected),
            "rounding {asked} up"
        );
    }
    assert_eq!(FftLength::rounded_up(65537), None);
    assert_eq!(FftLength::rounded_up(usize::MAX), None);
}

#[test]
fn a_spectrum_holds_dc_nyquist_and_what_is_between() {
    assert_eq!(FftLength::min_value().spectrum_len(), 5);
    assert_eq!(
        FftLength::new(1024).expect("1024 is supported").spectrum_len(),
        513
    );
    assert_eq!(FftLength::max_value().spectrum_len(), 32769);
}

#[test]
fn a_length_converts_both_ways() {
    let length = FftLength::new(256).expect("256 is supported");
    assert_eq!(usize::from(length), 256);
    assert_eq!(FftLength::try_from(256_usize), Ok(length));
    assert_eq!(FftLength::try_from(3_usize), Err(Error::FftLength { value: 3 }));
    assert_eq!(length.to_string(), "256");
}

#[test]
fn only_powers_of_two_in_range_are_lengths() {
    assert_eq!(FftLength::new(8).map(FftLength::get), Some(8));
    assert_eq!(FftLength::new(65536).map(FftLength::get), Some(65536));
    assert_eq!(FftLength::new(131072), None);
    assert_eq!(FftLength::new(1000), None);
    assert_eq!(FftLength::new(0), None);
}

#[test]
fn a_buffer_of_the_wrong_length_is_refused_and_says_which() {
    let length = FftLength::new(64).expect("64 is supported");
    assert_eq!(
        check_forward(length, 63, 33),
        Err(Error::FftSignalLen { expected: 64, actual: 63 })
    );
    assert_eq!(
        check_forward(length, 64, 32),
        Err(Error::FftSpectrumLen { expected: 33, actual: 32 })
    );
    assert_eq!(
        check_inverse(length, 32, 64),
        Err(Error::FftSpectrumLen { expected: 33, actual: 32 })
    );
    assert_eq!(
        check_inverse(length, 33, 63),
        Err(Error::FftSignalLen { expected: 64, actual: 63 })
    );
    assert_eq!(check_forward(length, 64, 33), Ok(()));
    assert_eq!(check_inverse(length, 33, 64), Ok(()));
}

#[test]
fn fft_the_check_order_follows_the_argument_order() {
    let length = FftLength::new(64).expect("64 is supported");
    assert!(
        matches!(check_forward(length, 8, 8), Err(Error::FftSignalLen { .. })),
        "forward takes the signal first"
    );
    assert!(
        matches!(check_inverse(length, 8, 8), Err(Error::FftSpectrumLen { .. })),
        "inverse takes the spectrum first"
    );
}

#[test]
fn a_length_is_a_power_of_two_in_range() {
    for length in [8, 16, 1024, 65536] {
        assert_eq!(
            FftLength::new(length).map(FftLength::get),
            Some(length),
            "{length} is supported"
        );
    }
    for length in [0, 1, 3, 7, 9, 1000, 131_072] {
        assert_eq!(FftLength::new(length), None, "{length} is not");
    }
}

#[test]
fn a_longer_buffer_is_refused_as_well() {
    let length = FftLength::new(64).expect("64 is supported");

    assert!(matches!(
        check_forward(length, 65, 34),
        Err(Error::FftSignalLen { actual: 65, .. })
    ));
    assert!(matches!(
        check_inverse(length, 34, 65),
        Err(Error::FftSpectrumLen { actual: 34, .. })
    ));
}
