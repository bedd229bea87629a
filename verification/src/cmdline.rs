//! Bela's standard command-line options: the arguments, held the way
//! libbela's parser will read them.

use vstd::prelude::*;

use crate::error::Error;

verus! {

/// Whether `arg` holds a NUL byte, which no C string can carry.
pub open spec fn spec_has_nul(arg: Seq<u8>) -> bool {
    exists|i: int| 0 <= i < arg.len() && arg[i] == 0
}

/// Whether any of `args` holds a NUL byte.
pub open spec fn spec_any_nul(args: Seq<Vec<u8>>) -> bool {
    exists|k: int| 0 <= k < args.len() && spec_has_nul(args[k]@)
}

/// Whether `arg` holds a NUL byte.
pub fn has_nul(arg: &Vec<u8>) -> (found: bool)
    ensures
        found == spec_has_nul(arg@),
{
    let mut i: usize = 0;
    while i < arg.len()
        invariant
            i <= arg@.len(),
            forall|j: int| 0 <= j < i ==> arg@[j] != 0,
        decreases arg@.len() - i,
    {
        if arg[i] == 0 {
            return true;
        }
        i = i + 1;
    }
    false
}

/// Command-line arguments, in order, as the bytes a C `argv` would hold.
pub struct Arguments {
    storage: Vec<Vec<u8>>,
}

impl Arguments {
    /// The arguments, in order.
    pub closed spec fn spec_args(&self) -> Seq<Vec<u8>> {
        self.storage@
    }

    /// Holds `args` for libbela's parser.
    ///
    /// # Errors
    /// Returns [`Error::CommandLineNul`] when an argument holds a NUL
    /// byte: a C string cannot carry it, and cutting the argument there
    /// would change what was asked for.
    pub fn new(args: Vec<Vec<u8>>) -> (arguments: Result<Self, Error>)
        ensures
            spec_any_nul(args@) ==> arguments == Err::<Self, Error>(Error::CommandLineNul),
            !spec_any_nul(args@) ==> (arguments matches Ok(a) && a.spec_args() == args@),
    {
        let mut k: usize = 0;
        while k < args.len()
            invariant
                k <= args@.len(),
                forall|j: int| 0 <= j < k ==> !spec_has_nul(#[trigger] args@[j]@),
            decreases args@.len() - k,
        {
            if has_nul(&args[k]) {
                return Err(Error::CommandLineNul);
            }
            k = k + 1;
        }
        Ok(Self { storage: args })
    }

    /// How many arguments there are, as the C `int` libbela takes: the
    /// count, or `i32::MAX` for more than that.
    pub fn argc(&self) -> (argc: i32)
        ensures
            argc == (if self.spec_args().len() <= i32::MAX {
                self.spec_args().len() as i32
            } else {
                i32::MAX
            }),
    {
        let n = self.storage.len();
        if n <= i32::MAX as usize {
            n as i32
        } else {
            i32::MAX
        }
    }

    /// The arguments, in order.
    pub fn args(&self) -> (args: &Vec<Vec<u8>>)
        ensures
            args@ == self.spec_args(),
    {
        &self.storage
    }
}

/// What libbela's option parser answers becomes: a negative answer is
/// the end of the options, anything else the option it could not take.
pub fn parse_result(ret: i32) -> (result: Result<(), Error>)
    ensures
        ret < 0 ==> result == Ok::<(), Error>(()),
        ret >= 0 ==> result == Err::<(), Error>(Error::CommandLine(ret)),
{
    if ret < 0 {
        Ok(())
    } else {
        Err(Error::CommandLine(ret))
    }
}

} // verus!
