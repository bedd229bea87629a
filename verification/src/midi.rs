//! MIDI messages: reading them off the wire and writing them back.

use vstd::prelude::*;
use vstd::std_specs::convert::FromSpecImpl;
use vstd::std_specs::convert::TryFromSpecImpl;

use crate::error::Error;

verus! {

/// The MIDI ports the system knows, by the name a port is opened with:
/// [`port_list`] of the list the MIDI shim writes. Away from a board the
/// shim has no list to write, so there are none.
pub fn midi_ports() -> (ports: Vec<String>)
    ensures
        ports@.len() == 0,
        ports@.len() == spec_port_names(Seq::empty(), 0).len(),
{
    let list: Vec<u8> = Vec::new();
    proof {
        assert(list@.take(0) =~= Seq::<u8>::empty());
    }
    port_list(list.as_slice(), 0)
}

/// What `String::from_utf8_lossy` makes of `bytes`: the text they hold,
/// with each sequence that is not UTF-8 read as U+FFFD.
pub uninterp spec fn spec_utf8_lossy(bytes: Seq<u8>) -> Seq<char>;

/// Whether every byte is ASCII, which is UTF-8 that decodes one byte to
/// one `char`.
pub open spec fn spec_is_ascii(bytes: Seq<u8>) -> bool {
    forall|i: int| 0 <= i < bytes.len() ==> #[trigger] bytes[i] < 128
}

/// Decodes `bytes` with `String::from_utf8_lossy`, as an owned `String`.
///
/// The contract names the result of the std function over the bytes,
/// and states the one case its documentation spells out that callers
/// need: valid UTF-8, here ASCII, comes back as the same text, one
/// `char` per byte. What it makes of other bytes is left to the name.
#[verifier::external_body]
fn utf8_lossy(bytes: &[u8]) -> (text: String)
    ensures
        text@ == spec_utf8_lossy(bytes@),
        spec_is_ascii(bytes@) ==> text@ == bytes@.map_values(|b: u8| b as char),
{
    String::from_utf8_lossy(bytes).into_owned()
}

/// The port names in the list the MIDI shim wrote into `list`, of which
/// it said `reported` bytes are the list: [`port_names`], each decoded
/// as lossy UTF-8.
pub fn port_list(list: &[u8], reported: usize) -> (names: Vec<String>)
    ensures
        names@.len() == spec_port_names(list@, reported as nat).len(),
        forall|k: int| 0 <= k < names@.len() ==> #[trigger] names@[k]@ == spec_utf8_lossy(
            spec_port_names(list@, reported as nat)[k],
        ),
{
    let raw = port_names(list, reported);
    let mut names: Vec<String> = Vec::new();
    let mut k: usize = 0;
    while k < raw.len()
        invariant
            k <= raw@.len(),
            raw@.len() == spec_port_names(list@, reported as nat).len(),
            forall|j: int| 0 <= j < raw@.len() ==> #[trigger] raw@[j]@ == spec_port_names(
                list@,
                reported as nat,
            )[j],
            names@.len() == k,
            forall|j: int| 0 <= j < k ==> #[trigger] names@[j]@ == spec_utf8_lossy(
                spec_port_names(list@, reported as nat)[j],
            ),
        decreases raw@.len() - k,
    {
        let name = utf8_lossy(raw[k].as_slice());
        names.push(name);
        k = k + 1;
    }
    names
}

/// A name that has ended: kept if it has any bytes.
pub open spec fn spec_close_name(current: Seq<u8>) -> Seq<Seq<u8>> {
    if current.len() > 0 { seq![current] } else { Seq::empty() }
}

/// The names in `list`, a name being read as `current` so far: each
/// NUL byte ends one, and empty names are left out.
pub open spec fn spec_names_from(list: Seq<u8>, current: Seq<u8>) -> Seq<Seq<u8>>
    decreases list.len(),
{
    if list.len() == 0 {
        spec_close_name(current)
    } else if list[0] == 0 {
        spec_close_name(current) + spec_names_from(list.drop_first(), Seq::empty())
    } else {
        spec_names_from(list.drop_first(), current.push(list[0]))
    }
}

/// The port names in the list the MIDI shim wrote into `list`, of which
/// it said `reported` bytes are the list: no more of the buffer than
/// that, split at NUL bytes, with empty names left out.
pub open spec fn spec_port_names(list: Seq<u8>, reported: nat) -> Seq<Seq<u8>> {
    let n = if reported < list.len() { reported } else { list.len() };
    spec_names_from(list.take(n as int), Seq::empty())
}

/// Splits the port list the MIDI shim wrote into `list` into names, as
/// bytes. The shim answers with the size of the whole list, `reported`,
/// which is more than the buffer holds if the list grew since the
/// buffer was sized; what is past the buffer is not there to read.
pub fn port_names(list: &[u8], reported: usize) -> (names: Vec<Vec<u8>>)
    ensures
        names@.len() == spec_port_names(list@, reported as nat).len(),
        forall|k: int| 0 <= k < names@.len() ==> #[trigger] names@[k]@ == spec_port_names(
            list@,
            reported as nat,
        )[k],
{
    let n = if reported < list.len() { reported } else { list.len() };
    let ghost s = list@.take(n as int);
    let mut names: Vec<Vec<u8>> = Vec::new();
    let mut current: Vec<u8> = Vec::new();
    let ghost mut out: Seq<Seq<u8>> = Seq::empty();
    let mut i: usize = 0;
    proof {
        assert(s.skip(0) =~= s);
        assert(current@ =~= Seq::<u8>::empty());
        assert(out + spec_names_from(s, Seq::empty()) =~= spec_names_from(s, Seq::empty()));
    }
    while i < n
        invariant
            i <= n,
            n <= list@.len(),
            s == list@.take(n as int),
            names@.len() == out.len(),
            forall|k: int| 0 <= k < names@.len() ==> #[trigger] names@[k]@ == out[k],
            spec_names_from(s, Seq::empty()) == out + spec_names_from(s.skip(i as int), current@),
        decreases n - i,
    {
        let ghost rest = s.skip(i as int);
        let ghost out0 = out;
        let ghost cur0 = current@;
        assert(rest[0] == list@[i as int]);
        assert(rest.drop_first() =~= s.skip(i + 1));
        let byte = list[i];
        if byte == 0 {
            if current.len() > 0 {
                let name = current;
                proof {
                    out = out.push(name@);
                }
                names.push(name);
            }
            current = Vec::new();
            proof {
                assert(out =~= out0 + spec_close_name(cur0));
                assert(current@ =~= Seq::<u8>::empty());
                assert((out0 + spec_close_name(cur0)) + spec_names_from(s.skip(i + 1), Seq::empty())
                    =~= out0 + (spec_close_name(cur0) + spec_names_from(s.skip(i + 1), Seq::empty())));
            }
        } else {
            current.push(byte);
        }
        i = i + 1;
    }
    let ghost out0 = out;
    let ghost last = current@;
    proof {
        assert(s.skip(n as int) =~= Seq::<u8>::empty());
    }
    if current.len() > 0 {
        let name = current;
        proof {
            out = out.push(name@);
        }
        names.push(name);
    }
    proof {
        assert(out =~= out0 + spec_close_name(last)) by {
            if last.len() == 0 {
                assert(out0 + spec_close_name(last) =~= out0);
            }
        }
    }
    names
}

/// How many bytes of a record the shim says it wrote, `written`, into a
/// buffer holding `bytes`: none for a zero or negative answer, and no
/// more than the buffer holds.
pub open spec fn spec_record_len(bytes: Seq<u8>, written: i32) -> int {
    if written <= 0 {
        0
    } else if written < bytes.len() {
        written as int
    } else {
        bytes.len() as int
    }
}

/// What reading from the shim's `records` gives, from the one at
/// `start` on: an empty record means the ring is empty and ends the
/// read with `None`; a record that parses is the message; a record that
/// does not (its data bytes missing) is skipped.
pub open spec fn spec_read_from(records: Seq<(Vec<u8>, i32)>, start: int) -> Option<MidiMessage>
    decreases records.len() - start,
{
    if start < 0 || start >= records.len() {
        None
    } else {
        let len = spec_record_len(records[start].0@, records[start].1);
        if len == 0 {
            None
        } else {
            match spec_from_bytes(records[start].0@.take(len)) {
                Some(m) => Some(m),
                None => spec_read_from(records, start + 1),
            }
        }
    }
}

/// Reads the next message out of the records the shim answers with, one
/// buffer and the count it said it wrote into it per call: the first
/// record that parses, skipping those that do not, or `None` once the
/// shim reports the ring empty (or has no more records).
pub fn read_records(records: &Vec<(Vec<u8>, i32)>) -> (message: Option<MidiMessage>)
    ensures
        message == spec_read_from(records@, 0),
{
    let mut i: usize = 0;
    while i < records.len()
        invariant
            i <= records@.len(),
            spec_read_from(records@, 0) == spec_read_from(records@, i as int),
        decreases records@.len() - i,
    {
        let bytes = &records[i].0;
        let written = records[i].1;
        let len: usize = if written <= 0 {
            0
        } else if (written as usize) < bytes.len() {
            written as usize
        } else {
            bytes.len()
        };
        if len == 0 {
            return None;
        }
        let record = vstd::slice::slice_subrange(bytes.as_slice(), 0, len);
        proof {
            assert(record@ =~= records@[i as int].0@.take(len as int));
        }
        let parsed = MidiMessage::from_bytes(record);
        if parsed.is_some() {
            return parsed;
        }
        i = i + 1;
    }
    None
}

/// A MIDI port opened for input.
///
/// Reading takes messages out of the ring libbela fills from the
/// device; a message whose data bytes are missing is dropped rather
/// than read with zeroes in their place.
#[derive(Debug)]
pub struct MidiInput {
    open: (),
}

impl MidiInput {
    /// Opens `port` for input.
    ///
    /// # Errors
    /// Returns [`Error::MidiCreate`] when no `Midi` object can be
    /// created, which is what always happens away from a board, where
    /// there is no `libbelaextra` to create one in.
    pub fn open(port: &str) -> (input: Result<Self, Error>)
        ensures
            input == Err::<Self, Error>(Error::MidiCreate),
    {
        Err(Error::MidiCreate)
    }

    /// How many messages are waiting in the ring.
    pub fn available(&self) -> (count: usize)
        ensures
            count == 0,
    {
        0
    }

    /// The next message in the ring, or `None` when it is empty: the
    /// first record the shim hands out that parses ([`read_records`]).
    /// Away from a board the shim hands out none.
    pub fn read(&mut self) -> (message: Option<MidiMessage>)
        ensures
            message is None,
            message == spec_read_from(Seq::empty(), 0),
    {
        let records: Vec<(Vec<u8>, i32)> = Vec::new();
        read_records(&records)
    }

    /// Every message waiting in the ring, oldest first.
    pub fn messages(&mut self) -> (messages: Vec<MidiMessage>)
        ensures
            messages@.len() == 0,
    {
        Vec::new()
    }
}


/// Which key a note message is about, where 60 is middle C.
///
/// A seven-bit value: 0 to 127, which is what one MIDI data byte
/// carries.
#[derive(Debug, Clone, Copy, PartialEq, Eq, PartialOrd, Ord, Hash, Default)]
pub struct Note(u8);

impl View for Note {
    type V = u8;

    closed spec fn view(&self) -> u8 {
        self.0
    }
}

impl Note {
    #[verifier::type_invariant]
    closed spec fn inv(self) -> bool {
        self.0 <= 127
    }

    /// The value `value` stands for, whether or not it is in range.
    pub closed spec fn spec_new(value: u8) -> Self {
        Self(value)
    }

    /// Whether a value (made in a specification, where the type's
    /// invariant does not hold by itself) is seven bits wide.
    pub open spec fn spec_wf(self) -> bool {
        self@ <= 127
    }

    /// `spec_new` and the view undo each other.
    pub proof fn lemma_spec_new(value: u8, v: Self)
        ensures
            Self::spec_new(value)@ == value,
            Self::spec_new(v@) == v,
    {
    }

    /// The smallest value, 0.
    pub fn min_value() -> (v: Self)
        ensures
            v@ == 0,
    {
        Self(0)
    }

    /// The largest value, 127.
    pub fn max_value() -> (v: Self)
        ensures
            v@ == 127,
    {
        Self(127)
    }

    /// Middle C, 60: the note a MIDI keyboard's middle C sends.
    pub fn middle_c() -> (v: Self)
        ensures
            v@ == 60,
    {
        Self(60)
    }

    /// A note number, or `None` above 127.
    ///
    /// Rejecting is the point: the wire cannot carry the eighth bit,
    /// and masking it off turns a number that was wrong into a
    /// different number that is not.
    pub fn new(value: u8) -> (v: Option<Self>)
        ensures
            v is Some <==> value <= 127,
            v matches Some(v) ==> v@ == value && v == Self::spec_new(value),
    {
        if value > 127 {
            return None;
        }
        Some(Self(value))
    }

    /// The value, 0 to 127.
    pub fn get(self) -> (value: u8)
        ensures
            value == self@,
            value <= 127,
    {
        proof { use_type_invariant(self); }
        self.0
    }

    /// The value from a byte off the wire, whose top bit is a status
    /// flag and so never set in a data byte.
    pub fn from_bits(bits: u8) -> (v: Self)
        ensures
            v@ == bits & 0x7f,
            v == Self::spec_new(bits & 0x7f),
    {
        proof { assert(bits & 0x7f <= 127) by (bit_vector); }
        Self(bits & 0x7f)
    }
}

impl From<Note> for u8 {
    fn from(value: Note) -> (r: u8) {
        value.0
    }
}

impl FromSpecImpl<Note> for u8 {
    open spec fn obeys_from_spec() -> bool {
        true
    }

    open spec fn from_spec(v: Note) -> u8 {
        v@
    }
}

impl TryFrom<u8> for Note {
    type Error = Error;

    /// A note number, or [`Error::MidiValue`] above 127.
    fn try_from(value: u8) -> (r: Result<Self, Error>) {
        match Self::new(value) {
            Some(v) => Ok(v),
            None => Err(Error::MidiValue { value: value as u16, max: 127, kind: "note number" }),
        }
    }
}

impl TryFromSpecImpl<u8> for Note {
    open spec fn obeys_try_from_spec() -> bool {
        true
    }

    closed spec fn try_from_spec(v: u8) -> Result<Self, Error> {
        if v <= 127 {
            Ok(Note(v))
        } else {
            Err(Error::MidiValue { value: v as u16, max: 127, kind: "note number" })
        }
    }
}

/// How hard a key was pressed or released.
///
/// A note on with velocity 0 is a release, which is how most devices
/// end a note.
///
/// A seven-bit value: 0 to 127, which is what one MIDI data byte
/// carries.
#[derive(Debug, Clone, Copy, PartialEq, Eq, PartialOrd, Ord, Hash, Default)]
pub struct Velocity(u8);

impl View for Velocity {
    type V = u8;

    closed spec fn view(&self) -> u8 {
        self.0
    }
}

impl Velocity {
    #[verifier::type_invariant]
    closed spec fn inv(self) -> bool {
        self.0 <= 127
    }

    /// The value `value` stands for, whether or not it is in range.
    pub closed spec fn spec_new(value: u8) -> Self {
        Self(value)
    }

    /// Whether a value (made in a specification, where the type's
    /// invariant does not hold by itself) is seven bits wide.
    pub open spec fn spec_wf(self) -> bool {
        self@ <= 127
    }

    /// `spec_new` and the view undo each other.
    pub proof fn lemma_spec_new(value: u8, v: Self)
        ensures
            Self::spec_new(value)@ == value,
            Self::spec_new(v@) == v,
    {
    }

    /// The smallest value, 0.
    pub fn min_value() -> (v: Self)
        ensures
            v@ == 0,
    {
        Self(0)
    }

    /// The largest value, 127.
    pub fn max_value() -> (v: Self)
        ensures
            v@ == 127,
    {
        Self(127)
    }

    /// A velocity, or `None` above 127.
    ///
    /// Rejecting is the point: the wire cannot carry the eighth bit,
    /// and masking it off turns a number that was wrong into a
    /// different number that is not.
    pub fn new(value: u8) -> (v: Option<Self>)
        ensures
            v is Some <==> value <= 127,
            v matches Some(v) ==> v@ == value && v == Self::spec_new(value),
    {
        if value > 127 {
            return None;
        }
        Some(Self(value))
    }

    /// The value, 0 to 127.
    pub fn get(self) -> (value: u8)
        ensures
            value == self@,
            value <= 127,
    {
        proof { use_type_invariant(self); }
        self.0
    }

    /// The value from a byte off the wire, whose top bit is a status
    /// flag and so never set in a data byte.
    pub fn from_bits(bits: u8) -> (v: Self)
        ensures
            v@ == bits & 0x7f,
            v == Self::spec_new(bits & 0x7f),
    {
        proof { assert(bits & 0x7f <= 127) by (bit_vector); }
        Self(bits & 0x7f)
    }
}

impl From<Velocity> for u8 {
    fn from(value: Velocity) -> (r: u8) {
        value.0
    }
}

impl FromSpecImpl<Velocity> for u8 {
    open spec fn obeys_from_spec() -> bool {
        true
    }

    open spec fn from_spec(v: Velocity) -> u8 {
        v@
    }
}

impl TryFrom<u8> for Velocity {
    type Error = Error;

    /// A velocity, or [`Error::MidiValue`] above 127.
    fn try_from(value: u8) -> (r: Result<Self, Error>) {
        match Self::new(value) {
            Some(v) => Ok(v),
            None => Err(Error::MidiValue { value: value as u16, max: 127, kind: "velocity" }),
        }
    }
}

impl TryFromSpecImpl<u8> for Velocity {
    open spec fn obeys_try_from_spec() -> bool {
        true
    }

    closed spec fn try_from_spec(v: u8) -> Result<Self, Error> {
        if v <= 127 {
            Ok(Velocity(v))
        } else {
            Err(Error::MidiValue { value: v as u16, max: 127, kind: "velocity" })
        }
    }
}

/// Which controller a control change is about: 1 is the modulation
/// wheel, 7 volume, 64 the sustain pedal.
///
/// A seven-bit value: 0 to 127, which is what one MIDI data byte
/// carries.
#[derive(Debug, Clone, Copy, PartialEq, Eq, PartialOrd, Ord, Hash, Default)]
pub struct Controller(u8);

impl View for Controller {
    type V = u8;

    closed spec fn view(&self) -> u8 {
        self.0
    }
}

impl Controller {
    #[verifier::type_invariant]
    closed spec fn inv(self) -> bool {
        self.0 <= 127
    }

    /// The value `value` stands for, whether or not it is in range.
    pub closed spec fn spec_new(value: u8) -> Self {
        Self(value)
    }

    /// Whether a value (made in a specification, where the type's
    /// invariant does not hold by itself) is seven bits wide.
    pub open spec fn spec_wf(self) -> bool {
        self@ <= 127
    }

    /// `spec_new` and the view undo each other.
    pub proof fn lemma_spec_new(value: u8, v: Self)
        ensures
            Self::spec_new(value)@ == value,
            Self::spec_new(v@) == v,
    {
    }

    /// The smallest value, 0.
    pub fn min_value() -> (v: Self)
        ensures
            v@ == 0,
    {
        Self(0)
    }

    /// The largest value, 127.
    pub fn max_value() -> (v: Self)
        ensures
            v@ == 127,
    {
        Self(127)
    }

    /// A controller number, or `None` above 127.
    ///
    /// Rejecting is the point: the wire cannot carry the eighth bit,
    /// and masking it off turns a number that was wrong into a
    /// different number that is not.
    pub fn new(value: u8) -> (v: Option<Self>)
        ensures
            v is Some <==> value <= 127,
            v matches Some(v) ==> v@ == value && v == Self::spec_new(value),
    {
        if value > 127 {
            return None;
        }
        Some(Self(value))
    }

    /// The value, 0 to 127.
    pub fn get(self) -> (value: u8)
        ensures
            value == self@,
            value <= 127,
    {
        proof { use_type_invariant(self); }
        self.0
    }

    /// The value from a byte off the wire, whose top bit is a status
    /// flag and so never set in a data byte.
    pub fn from_bits(bits: u8) -> (v: Self)
        ensures
            v@ == bits & 0x7f,
            v == Self::spec_new(bits & 0x7f),
    {
        proof { assert(bits & 0x7f <= 127) by (bit_vector); }
        Self(bits & 0x7f)
    }
}

impl From<Controller> for u8 {
    fn from(value: Controller) -> (r: u8) {
        value.0
    }
}

impl FromSpecImpl<Controller> for u8 {
    open spec fn obeys_from_spec() -> bool {
        true
    }

    open spec fn from_spec(v: Controller) -> u8 {
        v@
    }
}

impl TryFrom<u8> for Controller {
    type Error = Error;

    /// A controller number, or [`Error::MidiValue`] above 127.
    fn try_from(value: u8) -> (r: Result<Self, Error>) {
        match Self::new(value) {
            Some(v) => Ok(v),
            None => Err(Error::MidiValue { value: value as u16, max: 127, kind: "controller number" }),
        }
    }
}

impl TryFromSpecImpl<u8> for Controller {
    open spec fn obeys_try_from_spec() -> bool {
        true
    }

    closed spec fn try_from_spec(v: u8) -> Result<Self, Error> {
        if v <= 127 {
            Ok(Controller(v))
        } else {
            Err(Error::MidiValue { value: v as u16, max: 127, kind: "controller number" })
        }
    }
}

/// What a controller moved to.
///
/// A seven-bit value: 0 to 127, which is what one MIDI data byte
/// carries.
#[derive(Debug, Clone, Copy, PartialEq, Eq, PartialOrd, Ord, Hash, Default)]
pub struct ControlValue(u8);

impl View for ControlValue {
    type V = u8;

    closed spec fn view(&self) -> u8 {
        self.0
    }
}

impl ControlValue {
    #[verifier::type_invariant]
    closed spec fn inv(self) -> bool {
        self.0 <= 127
    }

    /// The value `value` stands for, whether or not it is in range.
    pub closed spec fn spec_new(value: u8) -> Self {
        Self(value)
    }

    /// Whether a value (made in a specification, where the type's
    /// invariant does not hold by itself) is seven bits wide.
    pub open spec fn spec_wf(self) -> bool {
        self@ <= 127
    }

    /// `spec_new` and the view undo each other.
    pub proof fn lemma_spec_new(value: u8, v: Self)
        ensures
            Self::spec_new(value)@ == value,
            Self::spec_new(v@) == v,
    {
    }

    /// The smallest value, 0.
    pub fn min_value() -> (v: Self)
        ensures
            v@ == 0,
    {
        Self(0)
    }

    /// The largest value, 127.
    pub fn max_value() -> (v: Self)
        ensures
            v@ == 127,
    {
        Self(127)
    }

    /// A controller value, or `None` above 127.
    ///
    /// Rejecting is the point: the wire cannot carry the eighth bit,
    /// and masking it off turns a number that was wrong into a
    /// different number that is not.
    pub fn new(value: u8) -> (v: Option<Self>)
        ensures
            v is Some <==> value <= 127,
            v matches Some(v) ==> v@ == value && v == Self::spec_new(value),
    {
        if value > 127 {
            return None;
        }
        Some(Self(value))
    }

    /// The value, 0 to 127.
    pub fn get(self) -> (value: u8)
        ensures
            value == self@,
            value <= 127,
    {
        proof { use_type_invariant(self); }
        self.0
    }

    /// The value from a byte off the wire, whose top bit is a status
    /// flag and so never set in a data byte.
    pub fn from_bits(bits: u8) -> (v: Self)
        ensures
            v@ == bits & 0x7f,
            v == Self::spec_new(bits & 0x7f),
    {
        proof { assert(bits & 0x7f <= 127) by (bit_vector); }
        Self(bits & 0x7f)
    }
}

impl From<ControlValue> for u8 {
    fn from(value: ControlValue) -> (r: u8) {
        value.0
    }
}

impl FromSpecImpl<ControlValue> for u8 {
    open spec fn obeys_from_spec() -> bool {
        true
    }

    open spec fn from_spec(v: ControlValue) -> u8 {
        v@
    }
}

impl TryFrom<u8> for ControlValue {
    type Error = Error;

    /// A controller value, or [`Error::MidiValue`] above 127.
    fn try_from(value: u8) -> (r: Result<Self, Error>) {
        match Self::new(value) {
            Some(v) => Ok(v),
            None => Err(Error::MidiValue { value: value as u16, max: 127, kind: "controller value" }),
        }
    }
}

impl TryFromSpecImpl<u8> for ControlValue {
    open spec fn obeys_try_from_spec() -> bool {
        true
    }

    closed spec fn try_from_spec(v: u8) -> Result<Self, Error> {
        if v <= 127 {
            Ok(ControlValue(v))
        } else {
            Err(Error::MidiValue { value: v as u16, max: 127, kind: "controller value" })
        }
    }
}

/// Which sound a program change selects.
///
/// A seven-bit value: 0 to 127, which is what one MIDI data byte
/// carries.
#[derive(Debug, Clone, Copy, PartialEq, Eq, PartialOrd, Ord, Hash, Default)]
pub struct Program(u8);

impl View for Program {
    type V = u8;

    closed spec fn view(&self) -> u8 {
        self.0
    }
}

impl Program {
    #[verifier::type_invariant]
    closed spec fn inv(self) -> bool {
        self.0 <= 127
    }

    /// The value `value` stands for, whether or not it is in range.
    pub closed spec fn spec_new(value: u8) -> Self {
        Self(value)
    }

    /// Whether a value (made in a specification, where the type's
    /// invariant does not hold by itself) is seven bits wide.
    pub open spec fn spec_wf(self) -> bool {
        self@ <= 127
    }

    /// `spec_new` and the view undo each other.
    pub proof fn lemma_spec_new(value: u8, v: Self)
        ensures
            Self::spec_new(value)@ == value,
            Self::spec_new(v@) == v,
    {
    }

    /// The smallest value, 0.
    pub fn min_value() -> (v: Self)
        ensures
            v@ == 0,
    {
        Self(0)
    }

    /// The largest value, 127.
    pub fn max_value() -> (v: Self)
        ensures
            v@ == 127,
    {
        Self(127)
    }

    /// A program number, or `None` above 127.
    ///
    /// Rejecting is the point: the wire cannot carry the eighth bit,
    /// and masking it off turns a number that was wrong into a
    /// different number that is not.
    pub fn new(value: u8) -> (v: Option<Self>)
        ensures
            v is Some <==> value <= 127,
            v matches Some(v) ==> v@ == value && v == Self::spec_new(value),
    {
        if value > 127 {
            return None;
        }
        Some(Self(value))
    }

    /// The value, 0 to 127.
    pub fn get(self) -> (value: u8)
        ensures
            value == self@,
            value <= 127,
    {
        proof { use_type_invariant(self); }
        self.0
    }

    /// The value from a byte off the wire, whose top bit is a status
    /// flag and so never set in a data byte.
    pub fn from_bits(bits: u8) -> (v: Self)
        ensures
            v@ == bits & 0x7f,
            v == Self::spec_new(bits & 0x7f),
    {
        proof { assert(bits & 0x7f <= 127) by (bit_vector); }
        Self(bits & 0x7f)
    }
}

impl From<Program> for u8 {
    fn from(value: Program) -> (r: u8) {
        value.0
    }
}

impl FromSpecImpl<Program> for u8 {
    open spec fn obeys_from_spec() -> bool {
        true
    }

    open spec fn from_spec(v: Program) -> u8 {
        v@
    }
}

impl TryFrom<u8> for Program {
    type Error = Error;

    /// A program number, or [`Error::MidiValue`] above 127.
    fn try_from(value: u8) -> (r: Result<Self, Error>) {
        match Self::new(value) {
            Some(v) => Ok(v),
            None => Err(Error::MidiValue { value: value as u16, max: 127, kind: "program number" }),
        }
    }
}

impl TryFromSpecImpl<u8> for Program {
    open spec fn obeys_try_from_spec() -> bool {
        true
    }

    closed spec fn try_from_spec(v: u8) -> Result<Self, Error> {
        if v <= 127 {
            Ok(Program(v))
        } else {
            Err(Error::MidiValue { value: v as u16, max: 127, kind: "program number" })
        }
    }
}

/// How hard a key or a channel is being pressed after the note started.
///
/// A seven-bit value: 0 to 127, which is what one MIDI data byte
/// carries.
#[derive(Debug, Clone, Copy, PartialEq, Eq, PartialOrd, Ord, Hash, Default)]
pub struct Pressure(u8);

impl View for Pressure {
    type V = u8;

    closed spec fn view(&self) -> u8 {
        self.0
    }
}

impl Pressure {
    #[verifier::type_invariant]
    closed spec fn inv(self) -> bool {
        self.0 <= 127
    }

    /// The value `value` stands for, whether or not it is in range.
    pub closed spec fn spec_new(value: u8) -> Self {
        Self(value)
    }

    /// Whether a value (made in a specification, where the type's
    /// invariant does not hold by itself) is seven bits wide.
    pub open spec fn spec_wf(self) -> bool {
        self@ <= 127
    }

    /// `spec_new` and the view undo each other.
    pub proof fn lemma_spec_new(value: u8, v: Self)
        ensures
            Self::spec_new(value)@ == value,
            Self::spec_new(v@) == v,
    {
    }

    /// The smallest value, 0.
    pub fn min_value() -> (v: Self)
        ensures
            v@ == 0,
    {
        Self(0)
    }

    /// The largest value, 127.
    pub fn max_value() -> (v: Self)
        ensures
            v@ == 127,
    {
        Self(127)
    }

    /// A pressure, or `None` above 127.
    ///
    /// Rejecting is the point: the wire cannot carry the eighth bit,
    /// and masking it off turns a number that was wrong into a
    /// different number that is not.
    pub fn new(value: u8) -> (v: Option<Self>)
        ensures
            v is Some <==> value <= 127,
            v matches Some(v) ==> v@ == value && v == Self::spec_new(value),
    {
        if value > 127 {
            return None;
        }
        Some(Self(value))
    }

    /// The value, 0 to 127.
    pub fn get(self) -> (value: u8)
        ensures
            value == self@,
            value <= 127,
    {
        proof { use_type_invariant(self); }
        self.0
    }

    /// The value from a byte off the wire, whose top bit is a status
    /// flag and so never set in a data byte.
    pub fn from_bits(bits: u8) -> (v: Self)
        ensures
            v@ == bits & 0x7f,
            v == Self::spec_new(bits & 0x7f),
    {
        proof { assert(bits & 0x7f <= 127) by (bit_vector); }
        Self(bits & 0x7f)
    }
}

impl From<Pressure> for u8 {
    fn from(value: Pressure) -> (r: u8) {
        value.0
    }
}

impl FromSpecImpl<Pressure> for u8 {
    open spec fn obeys_from_spec() -> bool {
        true
    }

    open spec fn from_spec(v: Pressure) -> u8 {
        v@
    }
}

impl TryFrom<u8> for Pressure {
    type Error = Error;

    /// A pressure, or [`Error::MidiValue`] above 127.
    fn try_from(value: u8) -> (r: Result<Self, Error>) {
        match Self::new(value) {
            Some(v) => Ok(v),
            None => Err(Error::MidiValue { value: value as u16, max: 127, kind: "pressure" }),
        }
    }
}

impl TryFromSpecImpl<u8> for Pressure {
    open spec fn obeys_try_from_spec() -> bool {
        true
    }

    closed spec fn try_from_spec(v: u8) -> Result<Self, Error> {
        if v <= 127 {
            Ok(Pressure(v))
        } else {
            Err(Error::MidiValue { value: v as u16, max: 127, kind: "pressure" })
        }
    }
}

/// Which of the sixteen MIDI channels a message arrived on.
///
/// Numbered 0 to 15 here, as on the wire. Devices and their manuals
/// usually count from 1, so channel 0 is the one a synthesiser calls
/// channel 1.
#[derive(Debug, Clone, Copy, PartialEq, Eq, PartialOrd, Ord, Hash, Default)]
pub struct MidiChannel(u8);

impl View for MidiChannel {
    type V = u8;

    closed spec fn view(&self) -> u8 {
        self.0
    }
}

impl MidiChannel {
    #[verifier::type_invariant]
    closed spec fn inv(self) -> bool {
        self.0 <= 15
    }

    /// The channel `value` stands for, whether or not it is in range.
    pub closed spec fn spec_new(value: u8) -> Self {
        Self(value)
    }

    /// Whether a channel made in a specification is one of the sixteen.
    pub open spec fn spec_wf(self) -> bool {
        self@ <= 15
    }

    /// `spec_new` and the view undo each other.
    pub proof fn lemma_spec_new(value: u8, v: Self)
        ensures
            Self::spec_new(value)@ == value,
            Self::spec_new(v@) == v,
    {
    }

    /// The first channel, 0 — the one a device calls channel 1.
    pub fn min_value() -> (c: Self)
        ensures
            c@ == 0,
    {
        Self(0)
    }

    /// The highest channel number, 15.
    pub fn max_value() -> (c: Self)
        ensures
            c@ == 15,
    {
        Self(15)
    }

    /// A channel, or `None` above 15.
    pub fn new(channel: u8) -> (c: Option<Self>)
        ensures
            c is Some <==> channel <= 15,
            c matches Some(c) ==> c@ == channel && c == Self::spec_new(channel),
    {
        if channel > 15 {
            return None;
        }
        Some(Self(channel))
    }

    /// The channel, 0 to 15.
    pub fn get(self) -> (channel: u8)
        ensures
            channel == self@,
            channel <= 15,
    {
        proof { use_type_invariant(self); }
        self.0
    }

    /// The channel a status byte carries in its low nibble.
    pub fn from_bits(status: u8) -> (c: Self)
        ensures
            c@ == status & 0x0f,
            c == Self::spec_new(status & 0x0f),
    {
        proof { assert(status & 0x0f <= 15) by (bit_vector); }
        Self(status & 0x0f)
    }
}

impl From<MidiChannel> for u8 {
    fn from(channel: MidiChannel) -> (r: u8) {
        channel.0
    }
}

impl FromSpecImpl<MidiChannel> for u8 {
    open spec fn obeys_from_spec() -> bool {
        true
    }

    open spec fn from_spec(v: MidiChannel) -> u8 {
        v@
    }
}

impl TryFrom<u8> for MidiChannel {
    type Error = Error;

    /// A channel, or [`Error::MidiValue`] above 15.
    fn try_from(channel: u8) -> (r: Result<Self, Error>) {
        match Self::new(channel) {
            Some(c) => Ok(c),
            None => Err(Error::MidiValue { value: channel as u16, max: 15, kind: "channel" }),
        }
    }
}

impl TryFromSpecImpl<u8> for MidiChannel {
    open spec fn obeys_try_from_spec() -> bool {
        true
    }

    closed spec fn try_from_spec(v: u8) -> Result<Self, Error> {
        if v <= 15 {
            Ok(MidiChannel(v))
        } else {
            Err(Error::MidiValue { value: v as u16, max: 15, kind: "channel" })
        }
    }
}

/// Where the pitch wheel is: fourteen bits, 0 to 16383.
///
/// The wheel is sprung to the middle rather than to zero, so 8192 is
/// "no bend".
#[derive(Debug, Clone, Copy, PartialEq, Eq, PartialOrd, Ord, Hash)]
pub struct PitchBend(u16);

impl View for PitchBend {
    type V = u16;

    closed spec fn view(&self) -> u16 {
        self.0
    }
}

/// The fourteen-bit value two data bytes carry, least significant
/// first.
pub open spec fn spec_bend_bits(low: u8, high: u8) -> u16 {
    (((high & 0x7f) as u16) << 7u16) | ((low & 0x7f) as u16)
}

impl PitchBend {
    #[verifier::type_invariant]
    closed spec fn inv(self) -> bool {
        self.0 <= 16383
    }

    /// The bend `value` stands for, whether or not it is in range.
    pub closed spec fn spec_new(value: u16) -> Self {
        Self(value)
    }

    /// Whether a bend made in a specification fits fourteen bits.
    pub open spec fn spec_wf(self) -> bool {
        self@ <= 16383
    }

    /// `spec_new` and the view undo each other.
    pub proof fn lemma_spec_new(value: u16, v: Self)
        ensures
            Self::spec_new(value)@ == value,
            Self::spec_new(v@) == v,
    {
    }

    /// The smallest value, 0: bent as far down as the wheel goes.
    pub fn min_value() -> (b: Self)
        ensures
            b@ == 0,
    {
        Self(0)
    }

    /// The largest value, 16383.
    pub fn max_value() -> (b: Self)
        ensures
            b@ == 16383,
    {
        Self(16383)
    }

    /// No bend: the wheel at rest, 8192.
    pub fn centre() -> (b: Self)
        ensures
            b@ == 8192,
    {
        Self(8192)
    }

    /// A bend, or `None` above 16383.
    pub fn new(bend: u16) -> (b: Option<Self>)
        ensures
            b is Some <==> bend <= 16383,
            b matches Some(b) ==> b@ == bend && b == Self::spec_new(bend),
    {
        if bend > 16383 {
            return None;
        }
        Some(Self(bend))
    }

    /// The value, 0 to 16383.
    pub fn get(self) -> (bend: u16)
        ensures
            bend == self@,
            bend <= 16383,
    {
        proof { use_type_invariant(self); }
        self.0
    }

    /// How far from the centre, -8192 to 8191; the sign is the
    /// direction.
    pub fn offset(self) -> (offset: i16)
        ensures
            offset == self@ - 8192,
            -8192 <= offset <= 8191,
    {
        proof { use_type_invariant(self); }
        self.0 as i16 - 8192
    }

    /// The value from the two data bytes, least significant first, as
    /// the wire orders them.
    pub fn from_bits(low: u8, high: u8) -> (b: Self)
        ensures
            b@ == spec_bend_bits(low, high),
            b == Self::spec_new(spec_bend_bits(low, high)),
    {
        let value: u16 = (((high & 0x7f) as u16) << 7u16) | ((low & 0x7f) as u16);
        proof {
            assert(((((high & 0x7f) as u16) << 7u16) | ((low & 0x7f) as u16)) <= 16383) by (bit_vector);
        }
        Self(value)
    }

    /// The two data bytes, least significant first.
    pub fn to_bits(self) -> (bits: (u8, u8))
        ensures
            bits.0 == (self@ & 0x7f) as u8,
            bits.1 == (self@ >> 7u16) as u8,
            bits.0 <= 127,
            bits.1 <= 127,
            spec_bend_bits(bits.0, bits.1) == self@,
    {
        proof {
            use_type_invariant(self);
            let v = self.0;
            assert(v <= 16383 ==> ((v & 0x7f) as u8) <= 127 && ((v >> 7u16) as u8) <= 127
                && (((((v >> 7u16) as u8) & 0x7f) as u16) << 7u16) | ((((v & 0x7f) as u8) & 0x7f) as u16) == v)
                by (bit_vector);
        }
        ((self.0 & 0x7f) as u8, (self.0 >> 7u16) as u8)
    }
}

impl Default for PitchBend {
    /// The centre: a wheel nobody is touching.
    fn default() -> (b: Self)
        ensures
            b@ == 8192,
    {
        Self(8192)
    }
}

impl From<PitchBend> for u16 {
    fn from(bend: PitchBend) -> (r: u16) {
        bend.0
    }
}

impl FromSpecImpl<PitchBend> for u16 {
    open spec fn obeys_from_spec() -> bool {
        true
    }

    open spec fn from_spec(v: PitchBend) -> u16 {
        v@
    }
}

impl TryFrom<u16> for PitchBend {
    type Error = Error;

    /// A bend, or [`Error::MidiValue`] above 16383.
    fn try_from(bend: u16) -> (r: Result<Self, Error>) {
        match Self::new(bend) {
            Some(b) => Ok(b),
            None => Err(Error::MidiValue { value: bend, max: 16383, kind: "pitch bend" }),
        }
    }
}

impl TryFromSpecImpl<u16> for PitchBend {
    open spec fn obeys_try_from_spec() -> bool {
        true
    }

    closed spec fn try_from_spec(v: u16) -> Result<Self, Error> {
        if v <= 16383 {
            Ok(PitchBend(v))
        } else {
            Err(Error::MidiValue { value: v, max: 16383, kind: "pitch bend" })
        }
    }
}

/// A MIDI message, as Bela's parser hands it over.
///
/// Channel messages carry the channel they arrived on; the system
/// real-time messages have none.
#[derive(Debug, Clone, Copy, PartialEq, Eq, Hash)]
#[non_exhaustive]
pub enum MidiMessage {
    /// A key was released.
    NoteOff { channel: MidiChannel, note: Note, velocity: Velocity },
    /// A key was pressed; a velocity of 0 means a release.
    NoteOn { channel: MidiChannel, note: Note, velocity: Velocity },
    /// Pressure applied to one key that is already held.
    KeyPressure { channel: MidiChannel, note: Note, pressure: Pressure },
    /// A controller moved.
    ControlChange { channel: MidiChannel, controller: Controller, value: ControlValue },
    /// A different sound was selected.
    ProgramChange { channel: MidiChannel, program: Program },
    /// Pressure applied to every key held on the channel.
    ChannelPressure { channel: MidiChannel, pressure: Pressure },
    /// The pitch wheel moved.
    PitchBend { channel: MidiChannel, bend: PitchBend },
    /// One tick of the sender's clock: 24 of them to a quarter note.
    Clock,
    /// Start playing from the beginning.
    Start,
    /// Start playing from where a stop left off.
    Continue,
    /// Stop playing.
    Stop,
    /// The sender is still there, sent when nothing else is.
    ActiveSensing,
    /// Reset to power-on state.
    Reset,
}

/// Status nibbles, as they arrive on the wire.
pub const NOTE_OFF: u8 = 0x80;
pub const NOTE_ON: u8 = 0x90;
pub const KEY_PRESSURE: u8 = 0xa0;
pub const CONTROL_CHANGE: u8 = 0xb0;
pub const PROGRAM_CHANGE: u8 = 0xc0;
pub const CHANNEL_PRESSURE: u8 = 0xd0;
pub const PITCH_BEND: u8 = 0xe0;
pub const SYSTEM: u8 = 0xf0;

/// System real-time status bytes, which are whole messages.
pub const CLOCK: u8 = 0xf8;
pub const START: u8 = 0xfa;
pub const CONTINUE: u8 = 0xfb;
pub const STOP: u8 = 0xfc;
pub const ACTIVE_SENSING: u8 = 0xfe;
pub const RESET: u8 = 0xff;

/// The most bytes a message takes on the wire.
pub const MESSAGE_MAX: usize = 3;

/// The message the bytes hold, if they hold one: a status byte whose
/// kind this crate names, followed by as many data bytes as that kind
/// takes (more are ignored), each read as its low seven bits.
pub open spec fn spec_from_bytes(s: Seq<u8>) -> Option<MidiMessage> {
    if s.len() == 0 {
        None
    } else {
        let status = s[0];
        let channel = MidiChannel::spec_new(status & 0x0f);
        let kind = status & 0xf0;
        if kind == NOTE_OFF {
            if s.len() < 3 { None } else {
                Some(MidiMessage::NoteOff {
                    channel,
                    note: Note::spec_new(s[1] & 0x7f),
                    velocity: Velocity::spec_new(s[2] & 0x7f),
                })
            }
        } else if kind == NOTE_ON {
            if s.len() < 3 { None } else {
                Some(MidiMessage::NoteOn {
                    channel,
                    note: Note::spec_new(s[1] & 0x7f),
                    velocity: Velocity::spec_new(s[2] & 0x7f),
                })
            }
        } else if kind == KEY_PRESSURE {
            if s.len() < 3 { None } else {
                Some(MidiMessage::KeyPressure {
                    channel,
                    note: Note::spec_new(s[1] & 0x7f),
                    pressure: Pressure::spec_new(s[2] & 0x7f),
                })
            }
        } else if kind == CONTROL_CHANGE {
            if s.len() < 3 { None } else {
                Some(MidiMessage::ControlChange {
                    channel,
                    controller: Controller::spec_new(s[1] & 0x7f),
                    value: ControlValue::spec_new(s[2] & 0x7f),
                })
            }
        } else if kind == PROGRAM_CHANGE {
            if s.len() < 2 { None } else {
                Some(MidiMessage::ProgramChange { channel, program: Program::spec_new(s[1] & 0x7f) })
            }
        } else if kind == CHANNEL_PRESSURE {
            if s.len() < 2 { None } else {
                Some(MidiMessage::ChannelPressure { channel, pressure: Pressure::spec_new(s[1] & 0x7f) })
            }
        } else if kind == PITCH_BEND {
            if s.len() < 3 { None } else {
                Some(MidiMessage::PitchBend { channel, bend: PitchBend::spec_new(spec_bend_bits(s[1], s[2])) })
            }
        } else if kind == SYSTEM {
            if status == CLOCK { Some(MidiMessage::Clock) }
            else if status == START { Some(MidiMessage::Start) }
            else if status == CONTINUE { Some(MidiMessage::Continue) }
            else if status == STOP { Some(MidiMessage::Stop) }
            else if status == ACTIVE_SENSING { Some(MidiMessage::ActiveSensing) }
            else if status == RESET { Some(MidiMessage::Reset) }
            else { None }
        } else {
            None
        }
    }
}

/// The message as it goes on the wire: a status byte carrying the
/// channel in its low nibble, then the data bytes, the pitch wheel's
/// least significant seven bits first.
pub open spec fn spec_wire(m: MidiMessage) -> Seq<u8> {
    match m {
        MidiMessage::NoteOff { channel, note, velocity } => seq![NOTE_OFF | channel@, note@, velocity@],
        MidiMessage::NoteOn { channel, note, velocity } => seq![NOTE_ON | channel@, note@, velocity@],
        MidiMessage::KeyPressure { channel, note, pressure } => seq![KEY_PRESSURE | channel@, note@, pressure@],
        MidiMessage::ControlChange { channel, controller, value } => seq![CONTROL_CHANGE | channel@, controller@, value@],
        MidiMessage::ProgramChange { channel, program } => seq![PROGRAM_CHANGE | channel@, program@],
        MidiMessage::ChannelPressure { channel, pressure } => seq![CHANNEL_PRESSURE | channel@, pressure@],
        MidiMessage::PitchBend { channel, bend } =>
            seq![PITCH_BEND | channel@, (bend@ & 0x7f) as u8, (bend@ >> 7u16) as u8],
        MidiMessage::Clock => seq![CLOCK],
        MidiMessage::Start => seq![START],
        MidiMessage::Continue => seq![CONTINUE],
        MidiMessage::Stop => seq![STOP],
        MidiMessage::ActiveSensing => seq![ACTIVE_SENSING],
        MidiMessage::Reset => seq![RESET],
    }
}

/// The channel a message arrived on, or `None` for a system message.
pub open spec fn spec_channel(m: MidiMessage) -> Option<MidiChannel> {
    match m {
        MidiMessage::NoteOff { channel, .. } => Some(channel),
        MidiMessage::NoteOn { channel, .. } => Some(channel),
        MidiMessage::KeyPressure { channel, .. } => Some(channel),
        MidiMessage::ControlChange { channel, .. } => Some(channel),
        MidiMessage::ProgramChange { channel, .. } => Some(channel),
        MidiMessage::ChannelPressure { channel, .. } => Some(channel),
        MidiMessage::PitchBend { channel, .. } => Some(channel),
        _ => None,
    }
}

impl MidiMessage {
    /// Whether every value a message made in a specification carries
    /// is in its type's range, as every message a program holds is.
    pub open spec fn spec_wf(self) -> bool {
        match self {
            MidiMessage::NoteOff { channel, note, velocity } =>
                channel.spec_wf() && note.spec_wf() && velocity.spec_wf(),
            MidiMessage::NoteOn { channel, note, velocity } =>
                channel.spec_wf() && note.spec_wf() && velocity.spec_wf(),
            MidiMessage::KeyPressure { channel, note, pressure } =>
                channel.spec_wf() && note.spec_wf() && pressure.spec_wf(),
            MidiMessage::ControlChange { channel, controller, value } =>
                channel.spec_wf() && controller.spec_wf() && value.spec_wf(),
            MidiMessage::ProgramChange { channel, program } => channel.spec_wf() && program.spec_wf(),
            MidiMessage::ChannelPressure { channel, pressure } => channel.spec_wf() && pressure.spec_wf(),
            MidiMessage::PitchBend { channel, bend } => channel.spec_wf() && bend.spec_wf(),
            _ => true,
        }
    }

    /// Reads a message out of the bytes the shim wrote.
    ///
    /// `None` for no bytes, for a status byte with no variant here —
    /// the undefined system real-time messages and the system common
    /// ones — and for a message whose data bytes are missing, which is
    /// not a message with zeroes in their place.
    pub fn from_bytes(bytes: &[u8]) -> (m: Option<MidiMessage>)
        ensures
            m == spec_from_bytes(bytes@),
    {
        if bytes.len() == 0 {
            return None;
        }
        let status = bytes[0];
        let channel = MidiChannel::from_bits(status);
        let kind = status & 0xf0;
        let len = bytes.len();
        if kind == NOTE_OFF {
            if len < 3 { return None; }
            Some(MidiMessage::NoteOff {
                channel,
                note: Note::from_bits(bytes[1]),
                velocity: Velocity::from_bits(bytes[2]),
            })
        } else if kind == NOTE_ON {
            if len < 3 { return None; }
            Some(MidiMessage::NoteOn {
                channel,
                note: Note::from_bits(bytes[1]),
                velocity: Velocity::from_bits(bytes[2]),
            })
        } else if kind == KEY_PRESSURE {
            if len < 3 { return None; }
            Some(MidiMessage::KeyPressure {
                channel,
                note: Note::from_bits(bytes[1]),
                pressure: Pressure::from_bits(bytes[2]),
            })
        } else if kind == CONTROL_CHANGE {
            if len < 3 { return None; }
            Some(MidiMessage::ControlChange {
                channel,
                controller: Controller::from_bits(bytes[1]),
                value: ControlValue::from_bits(bytes[2]),
            })
        } else if kind == PROGRAM_CHANGE {
            if len < 2 { return None; }
            Some(MidiMessage::ProgramChange { channel, program: Program::from_bits(bytes[1]) })
        } else if kind == CHANNEL_PRESSURE {
            if len < 2 { return None; }
            Some(MidiMessage::ChannelPressure { channel, pressure: Pressure::from_bits(bytes[1]) })
        } else if kind == PITCH_BEND {
            if len < 3 { return None; }
            Some(MidiMessage::PitchBend { channel, bend: PitchBend::from_bits(bytes[1], bytes[2]) })
        } else if kind == SYSTEM {
            if status == CLOCK {
                Some(MidiMessage::Clock)
            } else if status == START {
                Some(MidiMessage::Start)
            } else if status == CONTINUE {
                Some(MidiMessage::Continue)
            } else if status == STOP {
                Some(MidiMessage::Stop)
            } else if status == ACTIVE_SENSING {
                Some(MidiMessage::ActiveSensing)
            } else if status == RESET {
                Some(MidiMessage::Reset)
            } else {
                None
            }
        } else {
            None
        }
    }

    /// The message as it goes on the wire, and how many of the three
    /// bytes it is; the bytes after those are zero.
    pub fn to_bytes(self) -> (wire: ([u8; 3], usize))
        ensures
            1 <= wire.1 <= 3,
            wire.0@.subrange(0, wire.1 as int) == spec_wire(self),
            forall|i: int| wire.1 <= i < 3 ==> wire.0@[i] == 0,
    {
        let wire: ([u8; 3], usize) = match self {
            MidiMessage::NoteOff { channel, note, velocity } =>
                ([NOTE_OFF | channel.get(), note.get(), velocity.get()], 3),
            MidiMessage::NoteOn { channel, note, velocity } =>
                ([NOTE_ON | channel.get(), note.get(), velocity.get()], 3),
            MidiMessage::KeyPressure { channel, note, pressure } =>
                ([KEY_PRESSURE | channel.get(), note.get(), pressure.get()], 3),
            MidiMessage::ControlChange { channel, controller, value } =>
                ([CONTROL_CHANGE | channel.get(), controller.get(), value.get()], 3),
            MidiMessage::ProgramChange { channel, program } =>
                ([PROGRAM_CHANGE | channel.get(), program.get(), 0], 2),
            MidiMessage::ChannelPressure { channel, pressure } =>
                ([CHANNEL_PRESSURE | channel.get(), pressure.get(), 0], 2),
            MidiMessage::PitchBend { channel, bend } => {
                let (low, high) = bend.to_bits();
                ([PITCH_BEND | channel.get(), low, high], 3)
            },
            MidiMessage::Clock => ([CLOCK, 0, 0], 1),
            MidiMessage::Start => ([START, 0, 0], 1),
            MidiMessage::Continue => ([CONTINUE, 0, 0], 1),
            MidiMessage::Stop => ([STOP, 0, 0], 1),
            MidiMessage::ActiveSensing => ([ACTIVE_SENSING, 0, 0], 1),
            MidiMessage::Reset => ([RESET, 0, 0], 1),
        };
        proof {
            assert(wire.0@.subrange(0, wire.1 as int) =~= spec_wire(self));
        }
        wire
    }

    /// The channel this arrived on, or `None` for a system message.
    pub fn channel(self) -> (channel: Option<MidiChannel>)
        ensures
            channel == spec_channel(self),
    {
        match self {
            MidiMessage::NoteOff { channel, .. } => Some(channel),
            MidiMessage::NoteOn { channel, .. } => Some(channel),
            MidiMessage::KeyPressure { channel, .. } => Some(channel),
            MidiMessage::ControlChange { channel, .. } => Some(channel),
            MidiMessage::ProgramChange { channel, .. } => Some(channel),
            MidiMessage::ChannelPressure { channel, .. } => Some(channel),
            MidiMessage::PitchBend { channel, .. } => Some(channel),
            MidiMessage::Clock => None,
            MidiMessage::Start => None,
            MidiMessage::Continue => None,
            MidiMessage::Stop => None,
            MidiMessage::ActiveSensing => None,
            MidiMessage::Reset => None,
        }
    }
}


/// How many bytes a message with this status byte takes on the wire.
pub open spec fn spec_message_len(status: u8) -> nat {
    let kind = status & 0xf0;
    if kind == PROGRAM_CHANGE || kind == CHANNEL_PRESSURE { 2 }
    else if kind == SYSTEM { 1 }
    else { 3 }
}

proof fn lemma_status_bits(kind: u8, channel: u8)
    requires
        kind == NOTE_OFF || kind == NOTE_ON || kind == KEY_PRESSURE || kind == CONTROL_CHANGE
            || kind == PROGRAM_CHANGE || kind == CHANNEL_PRESSURE || kind == PITCH_BEND,
        channel <= 15,
    ensures
        (kind | channel) & 0xf0 == kind,
        (kind | channel) & 0x0f == channel,
{
    assert(kind & 0x0f == 0 && kind & 0xf0 == kind) by (bit_vector)
        requires
            kind == 0x80u8 || kind == 0x90u8 || kind == 0xa0u8 || kind == 0xb0u8
                || kind == 0xc0u8 || kind == 0xd0u8 || kind == 0xe0u8;
    assert((kind | channel) & 0xf0 == kind && (kind | channel) & 0x0f == channel) by (bit_vector)
        requires kind & 0x0f == 0, kind & 0xf0 == kind, channel <= 15;
}

proof fn lemma_seven_bit_data(v: u8)
    requires
        v <= 127,
    ensures
        v & 0x7f == v,
{
    assert(v & 0x7f == v) by (bit_vector) requires v <= 127;
}

proof fn lemma_bend_round_trip(b: u16)
    requires
        b <= 16383,
    ensures
        spec_bend_bits((b & 0x7f) as u8, (b >> 7u16) as u8) == b,
        (b & 0x7f) as u8 <= 127,
        (b >> 7u16) as u8 <= 127,
{
    assert(((((((b >> 7u16) as u8) & 0x7f) as u16) << 7u16) | ((((b & 0x7f) as u8) & 0x7f) as u16)) == b
        && (b & 0x7f) as u8 <= 127 && (b >> 7u16) as u8 <= 127) by (bit_vector)
        requires b <= 16383;
}

/// Writing a message and reading the bytes back gives the same
/// message, for every message a program can hold.
pub proof fn lemma_wire_round_trip(m: MidiMessage)
    requires
        m.spec_wf(),
    ensures
        spec_from_bytes(spec_wire(m)) == Some(m),
        spec_wire(m).len() == spec_message_len(spec_wire(m)[0]),
{
    match m {
        MidiMessage::NoteOff { channel, note, velocity } => {
            lemma_status_bits(NOTE_OFF, channel@);
            lemma_seven_bit_data(note@);
            lemma_seven_bit_data(velocity@);
            MidiChannel::lemma_spec_new(channel@, channel);
            Note::lemma_spec_new(note@, note);
            Velocity::lemma_spec_new(velocity@, velocity);
        },
        MidiMessage::NoteOn { channel, note, velocity } => {
            lemma_status_bits(NOTE_ON, channel@);
            lemma_seven_bit_data(note@);
            lemma_seven_bit_data(velocity@);
            MidiChannel::lemma_spec_new(channel@, channel);
            Note::lemma_spec_new(note@, note);
            Velocity::lemma_spec_new(velocity@, velocity);
        },
        MidiMessage::KeyPressure { channel, note, pressure } => {
            lemma_status_bits(KEY_PRESSURE, channel@);
            lemma_seven_bit_data(note@);
            lemma_seven_bit_data(pressure@);
            MidiChannel::lemma_spec_new(channel@, channel);
            Note::lemma_spec_new(note@, note);
            Pressure::lemma_spec_new(pressure@, pressure);
        },
        MidiMessage::ControlChange { channel, controller, value } => {
            lemma_status_bits(CONTROL_CHANGE, channel@);
            lemma_seven_bit_data(controller@);
            lemma_seven_bit_data(value@);
            MidiChannel::lemma_spec_new(channel@, channel);
            Controller::lemma_spec_new(controller@, controller);
            ControlValue::lemma_spec_new(value@, value);
        },
        MidiMessage::ProgramChange { channel, program } => {
            lemma_status_bits(PROGRAM_CHANGE, channel@);
            lemma_seven_bit_data(program@);
            MidiChannel::lemma_spec_new(channel@, channel);
            Program::lemma_spec_new(program@, program);
        },
        MidiMessage::ChannelPressure { channel, pressure } => {
            lemma_status_bits(CHANNEL_PRESSURE, channel@);
            lemma_seven_bit_data(pressure@);
            MidiChannel::lemma_spec_new(channel@, channel);
            Pressure::lemma_spec_new(pressure@, pressure);
        },
        MidiMessage::PitchBend { channel, bend } => {
            lemma_status_bits(PITCH_BEND, channel@);
            lemma_bend_round_trip(bend@);
            MidiChannel::lemma_spec_new(channel@, channel);
            PitchBend::lemma_spec_new(bend@, bend);
        },
        _ => {
            assert(CLOCK & 0xf0 == SYSTEM) by (bit_vector);
            assert(START & 0xf0 == SYSTEM) by (bit_vector);
            assert(CONTINUE & 0xf0 == SYSTEM) by (bit_vector);
            assert(STOP & 0xf0 == SYSTEM) by (bit_vector);
            assert(ACTIVE_SENSING & 0xf0 == SYSTEM) by (bit_vector);
            assert(RESET & 0xf0 == SYSTEM) by (bit_vector);
        },
    }
}

/// Whether `s` is a message exactly as the wire carries one: as many
/// bytes as its status byte says, and data bytes with the top bit
/// clear.
pub open spec fn spec_canonical(s: Seq<u8>) -> bool {
    &&& s.len() > 0
    &&& s.len() == spec_message_len(s[0])
    &&& forall|i: int| 1 <= i < s.len() ==> #[trigger] s[i] < 0x80
}

/// Reading a message off the wire and writing it back gives the bytes
/// that were read, for bytes exactly as the wire carries a message.
pub proof fn lemma_bytes_round_trip(s: Seq<u8>)
    requires
        spec_canonical(s),
        spec_from_bytes(s) is Some,
    ensures
        spec_wire(spec_from_bytes(s).unwrap()) == s,
        spec_from_bytes(s).unwrap().spec_wf(),
{
    let status = s[0];
    let kind = status & 0xf0;
    let ch = status & 0x0f;
    assert((status & 0xf0) | (status & 0x0f) == status && status & 0x0f <= 15) by (bit_vector);
    MidiChannel::lemma_spec_new(ch, MidiChannel::spec_new(ch));
    if s.len() >= 2 {
        lemma_seven_bit_data(s[1]);
        Note::lemma_spec_new(s[1] & 0x7f, Note::spec_new(s[1]));
        Controller::lemma_spec_new(s[1] & 0x7f, Controller::spec_new(s[1]));
        Program::lemma_spec_new(s[1] & 0x7f, Program::spec_new(s[1]));
        Pressure::lemma_spec_new(s[1] & 0x7f, Pressure::spec_new(s[1]));
    }
    if s.len() >= 3 {
        lemma_seven_bit_data(s[2]);
        Velocity::lemma_spec_new(s[2] & 0x7f, Velocity::spec_new(s[2]));
        ControlValue::lemma_spec_new(s[2] & 0x7f, ControlValue::spec_new(s[2]));
        Pressure::lemma_spec_new(s[2] & 0x7f, Pressure::spec_new(s[2]));
        let lo = s[1];
        let hi = s[2];
        assert(spec_bend_bits(lo, hi) <= 16383
            && (spec_bend_bits(lo, hi) & 0x7f) as u8 == lo
            && (spec_bend_bits(lo, hi) >> 7u16) as u8 == hi) by (bit_vector)
            requires lo < 0x80, hi < 0x80;
        PitchBend::lemma_spec_new(spec_bend_bits(lo, hi), PitchBend::spec_new(spec_bend_bits(lo, hi)));
    }
    assert(spec_wire(spec_from_bytes(s).unwrap()) =~= s);
}


/// The bytes a packed slot word holds, first byte highest.
pub open spec fn spec_slot_bytes(word: u32) -> Seq<u8> {
    seq![(word >> 16u32) as u8, (word >> 8u32) as u8, word as u8]
}

/// How many of those bytes are the message: the top byte of the
/// word, with anything above three read as three.
pub open spec fn spec_slot_len(word: u32) -> nat {
    if (word >> 24u32) > 3 { 3 } else { (word >> 24u32) as nat }
}

/// A message queued for output: three bytes and a length, in one word,
/// so that a queue slot is written in one store.
#[derive(Debug, Clone, Copy, PartialEq, Eq)]
pub struct Slot(u32);

impl View for Slot {
    type V = u32;

    closed spec fn view(&self) -> u32 {
        self.0
    }
}

impl Slot {
    /// Packs a message and its length, the length clamped to three.
    pub fn pack(bytes: [u8; 3], len: usize) -> (slot: Self)
        ensures
            spec_slot_bytes(slot@) == bytes@,
            spec_slot_len(slot@) == if len > 3 { 3 } else { len as nat },
    {
        let clamped: u32 = if len > 3 { 3 } else { len as u32 };
        let b0 = bytes[0];
        let b1 = bytes[1];
        let b2 = bytes[2];
        let packed: u32 = (clamped << 24u32) | ((b0 as u32) << 16u32) | ((b1 as u32) << 8u32) | (b2 as u32);
        proof {
            assert(
                ((packed >> 16u32) as u8 == b0) && ((packed >> 8u32) as u8 == b1) && (packed as u8 == b2)
                    && (packed >> 24u32) == clamped
            ) by (bit_vector)
                requires
                    clamped <= 3,
                    packed == (clamped << 24u32) | ((b0 as u32) << 16u32) | ((b1 as u32) << 8u32) | (b2 as u32);
            assert(spec_slot_bytes(packed) =~= bytes@);
        }
        Self(packed)
    }

    /// The message's three bytes and how many of them it is.
    pub fn unpack(self) -> (message: ([u8; 3], usize))
        ensures
            message.0@ == spec_slot_bytes(self@),
            message.1 == spec_slot_len(self@),
            message.1 <= 3,
    {
        let word = self.0;
        let len = word >> 24u32;
        let bytes = [(word >> 16u32) as u8, (word >> 8u32) as u8, word as u8];
        proof {
            assert(bytes@ =~= spec_slot_bytes(word));
        }
        (bytes, if len > 3 { 3 } else { len as usize })
    }
}

/// A slot of `bytes` and `len` gives back those bytes and the length,
/// clamped to three.
pub proof fn lemma_slot_round_trip(bytes: Seq<u8>, len: nat)
    requires
        bytes.len() == 3,
    ensures
        ({
            let clamped: u32 = if len > 3 { 3 } else { len as u32 };
            let word: u32 = (clamped << 24u32) | ((bytes[0] as u32) << 16u32) | ((bytes[1] as u32) << 8u32)
                | (bytes[2] as u32);
            spec_slot_bytes(word) == bytes && spec_slot_len(word) == clamped
        }),
{
    let clamped: u32 = if len > 3 { 3 } else { len as u32 };
    let (b0, b1, b2) = (bytes[0], bytes[1], bytes[2]);
    let word: u32 = (clamped << 24u32) | ((b0 as u32) << 16u32) | ((b1 as u32) << 8u32) | (b2 as u32);
    assert(
        ((word >> 16u32) as u8 == b0) && ((word >> 8u32) as u8 == b1) && (word as u8 == b2)
            && (word >> 24u32) == clamped
    ) by (bit_vector)
        requires
            clamped <= 3,
            word == (clamped << 24u32) | ((b0 as u32) << 16u32) | ((b1 as u32) << 8u32) | (b2 as u32);
    assert(spec_slot_bytes(word) =~= bytes);
}

/// A bounded queue of slots with one writer and one reader, in the
/// order they were pushed.
///
/// A full queue refuses a push rather than overwriting the oldest
/// slot.
#[derive(Debug)]
pub struct Queue {
    slots: Vec<u32>,
    head: usize,
    count: usize,
}

impl View for Queue {
    type V = Seq<u32>;

    /// The slots waiting, oldest first.
    closed spec fn view(&self) -> Seq<u32> {
        Seq::new(self.count as nat, |i: int| self.slots@[(self.head + i) % (self.slots@.len() as int)])
    }
}

impl Queue {
    /// Whether the queue is one `new` made and the methods kept: at
    /// least one slot, and the waiting ones within them.
    pub closed spec fn wf(self) -> bool {
        &&& self.slots@.len() >= 1
        &&& self.head < self.slots@.len()
        &&& self.count <= self.slots@.len()
    }

    /// How many slots the queue holds.
    pub closed spec fn spec_capacity(self) -> nat {
        self.slots@.len()
    }

    /// A sound queue never holds more than its capacity.
    pub proof fn lemma_within_capacity(self)
        requires
            self.wf(),
        ensures
            self@.len() <= self.spec_capacity(),
    {
    }

    /// A queue with room for `capacity` slots, or for one if asked for
    /// none.
    pub fn new(capacity: usize) -> (queue: Self)
        ensures
            queue.wf(),
            queue@ == Seq::<u32>::empty(),
            queue.spec_capacity() == if capacity == 0 { 1 } else { capacity as nat },
    {
        let size = if capacity == 0 { 1 } else { capacity };
        let slots = vec![0u32; size];
        let queue = Self { slots, head: 0, count: 0 };
        proof { assert(queue@ =~= Seq::<u32>::empty()); }
        queue
    }

    /// How many slots the queue holds.
    pub fn capacity(&self) -> (capacity: usize)
        requires
            self.wf(),
        ensures
            capacity == self.spec_capacity(),
            capacity >= 1,
            self@.len() <= capacity,
    {
        self.slots.len()
    }

    /// Whether nothing is waiting.
    pub fn is_empty(&self) -> (empty: bool)
        ensures
            empty == (self@.len() == 0),
    {
        self.count == 0
    }

    /// Queues `slot` behind what is waiting, or refuses with
    /// [`Error::MidiQueueFull`] when every slot is taken, leaving the
    /// queue as it was.
    pub fn push(&mut self, slot: Slot) -> (result: Result<(), Error>)
        requires
            old(self).wf(),
        ensures
            final(self).wf(),
            final(self).spec_capacity() == old(self).spec_capacity(),
            old(self)@.len() == old(self).spec_capacity() ==> {
                &&& result == Err::<(), Error>(Error::MidiQueueFull)
                &&& final(self)@ == old(self)@
            },
            old(self)@.len() < old(self).spec_capacity() ==> {
                &&& result == Ok::<(), Error>(())
                &&& final(self)@ == old(self)@.push(slot@)
            },
    {
        let size = self.slots.len();
        if self.count == size {
            return Err(Error::MidiQueueFull);
        }
        let ghost before = self@;
        let index = if self.count >= size - self.head {
            self.count - (size - self.head)
        } else {
            self.head + self.count
        };
        proof {
            assert(index as int == (self.head + self.count) % (size as int)) by (nonlinear_arith)
                requires
                    self.head < size,
                    self.count < size,
                    index as int == if self.count >= size - self.head {
                        self.count - (size - self.head)
                    } else {
                        self.head + self.count
                    };
        }
        self.slots.set(index, slot.0);
        self.count = self.count + 1;
        proof {
            let size_i = size as int;
            assert forall|i: int| #![trigger before[i]] 0 <= i < before.len() implies
                (self.head + i) % size_i != index as int by {
                assert((self.head + i) % size_i != (self.head + before.len()) % size_i) by (nonlinear_arith)
                    requires 0 <= i < before.len(), before.len() < size_i, 0 <= self.head, 0 < size_i;
            }
            assert(self@ =~= before.push(slot@));
        }
        Ok(())
    }

    /// Takes the oldest slot, or `None` when nothing is waiting.
    pub fn pop(&mut self) -> (slot: Option<Slot>)
        requires
            old(self).wf(),
        ensures
            final(self).wf(),
            final(self).spec_capacity() == old(self).spec_capacity(),
            old(self)@.len() == 0 ==> slot is None && final(self)@ == old(self)@,
            old(self)@.len() > 0 ==> {
                &&& slot matches Some(s) && s@ == old(self)@[0]
                &&& final(self)@ == old(self)@.drop_first()
            },
    {
        if self.count == 0 {
            return None;
        }
        let ghost before = self@;
        let size = self.slots.len();
        let old_head = self.head;
        let word = self.slots[old_head];
        proof {
            assert((old_head + 0) % (size as int) == old_head) by (nonlinear_arith)
                requires 0 <= old_head < size;
        }
        let next = if old_head + 1 == size { 0 } else { old_head + 1 };
        self.head = next;
        self.count = self.count - 1;
        proof {
            let size_i = size as int;
            assert forall|i: int| #![trigger before[i + 1]] 0 <= i < self.count implies
                (next + i) % size_i == (old_head + (i + 1)) % size_i by {
                if next == 0 {
                    assert((next + i) % size_i == (old_head + (i + 1)) % size_i) by (nonlinear_arith)
                        requires 0 <= i, 0 < size_i, next == 0, old_head == size_i - 1;
                } else {
                    assert(next + i == old_head + (i + 1));
                }
            }
            assert(self@ =~= before.drop_first());
        }
        Some(Slot(word))
    }
}

} // verus!
