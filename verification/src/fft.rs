//! Transform lengths for the real FFT: what NE10 can plan without
//! corrupting memory, and how many bins a spectrum of one has.

use vstd::prelude::*;
use vstd::std_specs::convert::FromSpecImpl;
use vstd::std_specs::convert::TryFromSpecImpl;

use crate::error::Error;
use crate::text::{decimal, decimal_string};

verus! {

/// Whether `n` is a power of two.
pub open spec fn is_power_of_two(n: nat) -> bool
    decreases n,
{
    if n == 0 {
        false
    } else if n == 1 {
        true
    } else {
        n % 2 == 0 && is_power_of_two(n / 2)
    }
}

/// The shortest length NE10 transforms without corrupting memory.
pub const MIN_LENGTH: usize = 8;

/// The longest length NE10 plans.
pub const MAX_LENGTH: usize = 65536;

/// Whether `n` is a length a plan can be made for: a power of two from
/// 8 to 65536.
pub open spec fn is_fft_length(n: nat) -> bool {
    &&& is_power_of_two(n)
    &&& MIN_LENGTH <= n <= MAX_LENGTH
}

/// A transform length: a power of two from 8 to 65536.
#[derive(Debug, Clone, Copy, PartialEq, Eq, PartialOrd, Ord, Hash)]
pub struct FftLength(usize);

impl View for FftLength {
    type V = usize;

    closed spec fn view(&self) -> usize {
        self.0
    }
}

/// Doubling a power of two gives a power of two.
proof fn lemma_double_power_of_two(n: nat)
    requires
        is_power_of_two(n),
    ensures
        is_power_of_two(n * 2),
{
    assert((n * 2) / 2 == n);
    assert((n * 2) % 2 == 0);
}

impl FftLength {
    #[verifier::type_invariant]
    closed spec fn inv(self) -> bool {
        is_fft_length(self.0 as nat)
    }

    /// The shortest supported length, 8.
    pub fn min_value() -> (length: Self)
        ensures
            length@ == 8,
    {
        proof { reveal_with_fuel(is_power_of_two, 4); }
        Self(8)
    }

    /// The longest supported length, 65536.
    pub fn max_value() -> (length: Self)
        ensures
            length@ == 65536,
    {
        proof { reveal_with_fuel(is_power_of_two, 17); }
        Self(65536)
    }

    /// A length, or `None` for anything but a power of two from 8 to
    /// 65536.
    pub fn new(length: usize) -> (result: Option<Self>)
        ensures
            result is Some <==> is_fft_length(length as nat),
            result matches Some(l) ==> l@ == length,
    {
        if length < MIN_LENGTH || length > MAX_LENGTH {
            return None;
        }
        let mut m = length;
        while m > 1 && m % 2 == 0
            invariant
                1 <= m <= length,
                is_power_of_two(m as nat) == is_power_of_two(length as nat),
            decreases m,
        {
            m = m / 2;
        }
        if m != 1 {
            return None;
        }
        Some(Self(length))
    }

    /// The shortest supported length of at least `length`: 8 for
    /// anything up to 8, the next power of two above that, and `None`
    /// above 65536.
    pub fn rounded_up(length: usize) -> (result: Option<Self>)
        ensures
            result is Some <==> length <= MAX_LENGTH,
            result matches Some(l) ==> {
                &&& l@ >= length
                &&& is_fft_length(l@ as nat)
                &&& (l@ == MIN_LENGTH || l@ / 2 < length)
            },
    {
        if length > MAX_LENGTH {
            return None;
        }
        let mut p: usize = MIN_LENGTH;
        proof { reveal_with_fuel(is_power_of_two, 4); }
        while p < length
            invariant
                MIN_LENGTH <= p <= MAX_LENGTH,
                length <= MAX_LENGTH,
                is_power_of_two(p as nat),
                p == MIN_LENGTH || p / 2 < length,
            decreases MAX_LENGTH - p,
        {
            proof {
                lemma_double_power_of_two(p as nat);
                // A power of two below 65536 is at most half of it.
                assert(p * 2 <= MAX_LENGTH) by {
                    reveal_with_fuel(is_power_of_two, 17);
                    lemma_power_of_two_below(p as nat, MAX_LENGTH as nat);
                }
            }
            p = p * 2;
        }
        Some(Self(p))
    }

    /// The length, in samples.
    pub fn get(self) -> (length: usize)
        ensures
            length == self@,
            is_fft_length(length as nat),
    {
        proof { use_type_invariant(self); }
        self.0
    }

    /// How many bins a spectrum of this length has: DC, Nyquist and
    /// what is between, `length / 2 + 1`.
    pub fn spectrum_len(self) -> (bins: usize)
        ensures
            bins == self@ / 2 + 1,
    {
        proof { use_type_invariant(self); }
        self.0 / 2 + 1
    }

    /// The length in decimal.
    pub fn to_string(&self) -> (text: String)
        ensures
            text@ == decimal(self@ as nat),
    {
        decimal_string(self.0 as u64)
    }
}

/// A power of two below another is at most half of it.
proof fn lemma_power_of_two_below(p: nat, n: nat)
    requires
        is_power_of_two(p),
        is_power_of_two(n),
        p < n,
    ensures
        p * 2 <= n,
    decreases p,
{
    if p > 1 {
        assert(n > 1);
        lemma_power_of_two_below(p / 2, n / 2);
    }
}

impl From<FftLength> for usize {
    fn from(length: FftLength) -> (r: usize) {
        length.0
    }
}

impl FromSpecImpl<FftLength> for usize {
    open spec fn obeys_from_spec() -> bool {
        true
    }

    open spec fn from_spec(v: FftLength) -> usize {
        v@
    }
}

impl TryFrom<usize> for FftLength {
    type Error = Error;

    /// A length, or [`Error::FftLength`] carrying what was given.
    fn try_from(length: usize) -> (r: Result<Self, Error>) {
        match Self::new(length) {
            Some(l) => Ok(l),
            None => Err(Error::FftLength { value: length }),
        }
    }
}

impl TryFromSpecImpl<usize> for FftLength {
    open spec fn obeys_try_from_spec() -> bool {
        true
    }

    closed spec fn try_from_spec(v: usize) -> Result<Self, Error> {
        if is_fft_length(v as nat) {
            Ok(FftLength(v))
        } else {
            Err(Error::FftLength { value: v })
        }
    }
}

/// Whether a signal of `actual` samples is what a transform of `length`
/// takes.
pub fn check_signal_len(length: FftLength, actual: usize) -> (result: Result<(), Error>)
    ensures
        actual == length@ ==> result == Ok::<(), Error>(()),
        actual != length@ ==> result == Err::<(), Error>(
            Error::FftSignalLen { expected: length@ as usize, actual },
        ),
{
    let expected = length.get();
    if actual == expected {
        Ok(())
    } else {
        Err(Error::FftSignalLen { expected, actual })
    }
}

/// Whether a spectrum of `actual` bins is what a transform of `length`
/// gives: DC, Nyquist and what lies between.
pub fn check_spectrum_len(length: FftLength, actual: usize) -> (result: Result<(), Error>)
    ensures
        actual == length@ / 2 + 1 ==> result == Ok::<(), Error>(()),
        actual != length@ / 2 + 1 ==> result == Err::<(), Error>(
            Error::FftSpectrumLen { expected: (length@ / 2 + 1) as usize, actual },
        ),
{
    let expected = length.spectrum_len();
    if actual == expected {
        Ok(())
    } else {
        Err(Error::FftSpectrumLen { expected, actual })
    }
}

/// The checks a forward transform makes before it runs, in the order
/// of its arguments: the signal, then the spectrum.
pub fn check_forward(length: FftLength, signal_len: usize, spectrum_len: usize) -> (result: Result<(), Error>)
    ensures
        signal_len != length@ ==> result == check_signal_len_spec(length, signal_len),
        signal_len == length@ ==> result == check_spectrum_len_spec(length, spectrum_len),
{
    match check_signal_len(length, signal_len) {
        Err(e) => Err(e),
        Ok(()) => check_spectrum_len(length, spectrum_len),
    }
}

/// The checks an inverse transform makes before it runs, in the order
/// of its arguments: the spectrum, then the signal.
pub fn check_inverse(length: FftLength, spectrum_len: usize, signal_len: usize) -> (result: Result<(), Error>)
    ensures
        spectrum_len != length@ / 2 + 1 ==> result == check_spectrum_len_spec(length, spectrum_len),
        spectrum_len == length@ / 2 + 1 ==> result == check_signal_len_spec(length, signal_len),
{
    match check_spectrum_len(length, spectrum_len) {
        Err(e) => Err(e),
        Ok(()) => check_signal_len(length, signal_len),
    }
}

/// What [`check_signal_len`] answers.
pub open spec fn check_signal_len_spec(length: FftLength, actual: usize) -> Result<(), Error> {
    if actual == length@ {
        Ok(())
    } else {
        Err(Error::FftSignalLen { expected: length@ as usize, actual })
    }
}

/// What [`check_spectrum_len`] answers.
pub open spec fn check_spectrum_len_spec(length: FftLength, actual: usize) -> Result<(), Error> {
    if actual == length@ / 2 + 1 {
        Ok(())
    } else {
        Err(Error::FftSpectrumLen { expected: (length@ / 2 + 1) as usize, actual })
    }
}

} // verus!
