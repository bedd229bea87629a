//! Auxiliary tasks: work moved off the audio thread.
//!
//! Tearing an audio system down frees every task at once and leaves
//! the handles dangling. Each handle records the generation of the
//! [`Lifecycle`] it was created in, and every teardown moves to a new
//! generation, so a handle from an earlier audio system stays dead even
//! after a later one creates tasks of its own. While a teardown is under
//! way no task can be created at all.

use vstd::prelude::*;

use crate::error::Error;

verus! {

/// The highest real-time priority Bela accepts.
pub const MAX_PRIORITY: u8 = 99;

/// A real-time priority Bela accepts for an auxiliary task: 0 to 99.
#[derive(Debug, Clone, Copy, PartialEq, Eq, PartialOrd, Ord, Hash)]
pub struct Priority(u8);

impl Priority {
    /// The priority's value.
    pub closed spec fn spec_get(&self) -> u8 {
        self.0
    }

    /// A priority, or [`None`] above 99.
    pub fn new(priority: u8) -> (result: Option<Self>)
        ensures
            result is Some <==> priority <= MAX_PRIORITY,
            result matches Some(p) ==> p.spec_get() == priority,
    {
        if priority > MAX_PRIORITY {
            return None;
        }
        Some(Self(priority))
    }

    /// Priority of the audio thread. Auxiliary tasks should run below
    /// it, otherwise they preempt audio rendering.
    pub fn audio() -> (p: Self)
        ensures
            p.spec_get() == 95,
    {
        Self(95)
    }

    /// The priority's value, 0 to 99.
    pub fn get(&self) -> (priority: u8)
        ensures
            priority == self.spec_get(),
            priority <= MAX_PRIORITY,
    {
        proof {
            use_type_invariant(self);
        }
        self.0
    }

    #[verifier::type_invariant]
    spec fn in_range(&self) -> bool {
        self.0 <= MAX_PRIORITY
    }
}

/// Which set of tasks libbela currently holds, and whether tasks may be
/// created at the moment.
pub struct Lifecycle {
    generation: u64,
    accepting: bool,
}

impl Lifecycle {
    /// How many teardowns have begun.
    pub closed spec fn spec_generation(&self) -> u64 {
        self.generation
    }

    /// Whether tasks may be created at the moment.
    pub closed spec fn spec_accepting(&self) -> bool {
        self.accepting
    }

    /// The lifecycle of a process that has not torn an audio system down.
    pub fn new() -> (lifecycle: Self)
        ensures
            lifecycle.spec_generation() == 0,
            lifecycle.spec_accepting(),
    {
        Self { generation: 0, accepting: true }
    }

    /// Opens a teardown: every existing handle is retired, and no task
    /// can be created until [`end_teardown`](Lifecycle::end_teardown).
    pub fn begin_teardown(&mut self)
        requires
            old(self).spec_generation() < u64::MAX,
        ensures
            final(self).spec_generation() == old(self).spec_generation() + 1,
            !final(self).spec_accepting(),
    {
        self.accepting = false;
        self.generation = self.generation + 1;
    }

    /// Closes a teardown: tasks may be created again, into the new
    /// generation.
    pub fn end_teardown(&mut self)
        ensures
            final(self).spec_generation() == old(self).spec_generation(),
            final(self).spec_accepting(),
    {
        self.accepting = true;
    }

    /// Whether tasks may be created at the moment.
    pub fn is_accepting(&self) -> (accepting: bool)
        ensures
            accepting == self.spec_accepting(),
    {
        self.accepting
    }

    /// How many teardowns have begun.
    pub fn generation(&self) -> (generation: u64)
        ensures
            generation == self.spec_generation(),
    {
        self.generation
    }
}

/// Whether `name` has a NUL character, which no thread name can carry.
pub open spec fn spec_has_nul(name: Seq<char>) -> bool {
    exists|i: int| 0 <= i < name.len() && name[i] == '\0'
}

/// Whether `name` has a NUL character.
pub fn has_nul(name: &str) -> (found: bool)
    ensures
        found == spec_has_nul(name@),
{
    let n: usize = name.unicode_len();
    let mut i: usize = 0;
    while i < n
        invariant
            n == name@.len(),
            i <= n,
            forall|j: int| 0 <= j < i ==> name@[j] != '\0',
        decreases n - i,
    {
        if name.get_char(i) == '\0' {
            return true;
        }
        i = i + 1;
    }
    false
}

/// A task that runs a callback on a lower-priority thread when the
/// audio thread asks it to.
///
/// The handle records the generation of the [`Lifecycle`] it was created
/// in; once that audio system is torn down, the handle is retired and
/// scheduling it does nothing.
#[derive(Debug)]
pub struct AuxiliaryTask {
    generation: u64,
}

/// Why creating a task in `lifecycle` under `name` fails before anything
/// is asked of libbela, if it does.
pub open spec fn spec_creation_refused(name: Seq<char>, accepting: bool) -> Option<Error> {
    if spec_has_nul(name) {
        Some(Error::TaskName)
    } else if !accepting {
        Some(Error::TaskCreateWhileStopping)
    } else {
        None
    }
}

impl AuxiliaryTask {
    /// The generation the task was created in.
    pub closed spec fn spec_generation(&self) -> u64 {
        self.generation
    }

    /// Creates a task that runs `callback` each time it is scheduled.
    ///
    /// # Errors
    /// Returns [`Error::TaskName`] when `name` contains a NUL byte,
    /// [`Error::TaskCreateWhileStopping`] when an audio system is being
    /// torn down, and [`Error::TaskCreate`] when Bela could not create the
    /// task, which is what always happens away from a board, where there
    /// is no audio system to create it in.
    pub fn new<F: FnMut()>(name: &str, priority: Priority, lifecycle: &Lifecycle, callback: F) -> (task: Result<Self, Error>)
        ensures
            spec_creation_refused(name@, lifecycle.spec_accepting()) matches Some(e) ==> task
                == Err::<Self, Error>(e),
            spec_creation_refused(name@, lifecycle.spec_accepting()) is None ==> task == Err::<
                Self,
                Error,
            >(Error::TaskCreate),
    {
        if has_nul(name) {
            return Err(Error::TaskName);
        }
        if !lifecycle.accepting {
            return Err(Error::TaskCreateWhileStopping);
        }
        // Away from a board there is no libbela to create the task in.
        Self::created(false, lifecycle)
    }

    /// What creating a task in `lifecycle` becomes once Bela has
    /// answered: `created` says whether `Bela_createAuxiliaryTask` gave
    /// back a task. A task it gave is a handle of the lifecycle's current
    /// generation, live until the next teardown.
    ///
    /// # Errors
    /// Returns [`Error::TaskCreate`] when Bela gave back no task.
    pub fn created(created: bool, lifecycle: &Lifecycle) -> (task: Result<Self, Error>)
        ensures
            !created ==> task == Err::<Self, Error>(Error::TaskCreate),
            created ==> (task matches Ok(t) && t.spec_generation() == lifecycle.spec_generation()),
    {
        if !created {
            return Err(Error::TaskCreate);
        }
        Ok(Self { generation: lifecycle.generation })
    }

    /// Whether the task behind this handle still exists.
    pub fn is_current(&self, lifecycle: &Lifecycle) -> (current: bool)
        ensures
            current == (self.spec_generation() == lifecycle.spec_generation()),
    {
        self.generation == lifecycle.generation
    }

    /// Asks for the callback to run, returning whether the request went
    /// to libbela: a handle retired by a teardown does nothing.
    pub fn schedule(&self, lifecycle: &Lifecycle) -> (asked: bool)
        ensures
            asked == (self.spec_generation() == lifecycle.spec_generation()),
    {
        self.is_current(lifecycle)
    }
}

/// A teardown retires every handle created before it, and no later
/// teardown revives one: the generation a later lifecycle is in is never
/// that of a handle created before a teardown began.
pub proof fn lemma_a_retired_handle_stays_retired(task: AuxiliaryTask, before: Lifecycle, after: Lifecycle)
    requires
        task.spec_generation() <= before.spec_generation(),
        before.spec_generation() < after.spec_generation(),
    ensures
        task.spec_generation() != after.spec_generation(),
{
}

} // verus!
