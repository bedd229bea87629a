//! Messages for real-time safe printing from the audio thread.
//!
//! A message is assembled in a buffer of fixed size, so nothing
//! allocates while it is formatted. Text that does not fit is cut on a
//! `char` boundary and marked with `...`, so that truncation is visible
//! in the output rather than silent, and a finished message never
//! exceeds [`MESSAGE_CAPACITY`] bytes.

use vstd::prelude::*;

use vstd::string::StringSliceAdditionalSpecFns;
use vstd::utf8::*;

verus! {

/// Maximum length in bytes of a single message, excluding the
/// terminator.
pub const MESSAGE_CAPACITY: usize = 256;

/// The byte `.`, three of which mark a message that did not fit.
pub const DOT: u8 = 46;

/// The byte `\n`.
pub const NEWLINE: u8 = 10;

/// Appended to a message that did not fit.
pub open spec fn spec_marker() -> Seq<u8> {
    seq![DOT, DOT, DOT]
}

/// Whether `byte` continues a UTF-8 sequence rather than starting one.
pub open spec fn spec_is_continuation(byte: u8) -> bool {
    byte & 0xc0u8 == 0x80u8
}

/// `index` rounded down to a `char` boundary of the UTF-8 `bytes`: the
/// nearest position at or below it that is the start, the end or past
/// the end, or that does not hold a continuation byte.
pub open spec fn spec_floor(bytes: Seq<u8>, index: int) -> int
    decreases index,
{
    if index <= 0 || index >= bytes.len() || !spec_is_continuation(bytes[index]) {
        index
    } else {
        spec_floor(bytes, index - 1)
    }
}

/// `bytes` up to the first NUL, which is where a C string ends.
pub open spec fn spec_until_nul(bytes: Seq<u8>) -> Seq<u8>
    decreases bytes.len(),
{
    if bytes.len() == 0 {
        bytes
    } else if bytes[0] == 0 {
        Seq::empty()
    } else {
        seq![bytes[0]] + spec_until_nul(bytes.drop_first())
    }
}

/// How many bytes of `piece` fit after `used` bytes of text.
pub open spec fn spec_fitting(used: int, piece: Seq<u8>) -> int {
    let room = MESSAGE_CAPACITY - used;
    if piece.len() <= room {
        piece.len() as int
    } else {
        spec_floor(piece, room)
    }
}

/// A message's text when it is finished, before the C string ends it at
/// its first NUL: the text, cut so that the marker (if anything was cut)
/// and the newline (if asked for) fit, then those.
pub open spec fn spec_finished(text: Seq<u8>, truncated: bool, newline: bool) -> Seq<u8> {
    let newline_len: int = if newline { 1 } else { 0 };
    let cut = truncated || text.len() + newline_len > MESSAGE_CAPACITY;
    let tail: int = if cut { 3 + newline_len } else { newline_len };
    let kept = if text.len() + tail > MESSAGE_CAPACITY {
        text.take(spec_floor(text, MESSAGE_CAPACITY - tail))
    } else {
        text
    };
    kept + (if cut { spec_marker() } else { Seq::empty() }) + (if newline {
        seq![NEWLINE]
    } else {
        Seq::empty()
    })
}

/// What a [`Message`] holds: the text assembled so far, and whether any
/// was dropped.
pub struct MessageModel {
    /// The text assembled so far.
    pub text: Seq<u8>,
    /// Whether something did not fit.
    pub truncated: bool,
}

proof fn lemma_floor_bounds(bytes: Seq<u8>, index: int)
    requires
        0 <= index,
    ensures
        0 <= spec_floor(bytes, index) <= index,
        spec_floor(bytes, index) == 0 || spec_floor(bytes, index) >= bytes.len()
            || !spec_is_continuation(bytes[spec_floor(bytes, index)]),
        forall|j: int|
            spec_floor(bytes, index) < j <= index && j < bytes.len() ==> spec_is_continuation(
                #[trigger] bytes[j],
            ),
    decreases index,
{
    if !(index <= 0 || index >= bytes.len() || !spec_is_continuation(bytes[index])) {
        lemma_floor_bounds(bytes, index - 1);
    }
}

/// Rounds `index` down to a `char` boundary of the UTF-8 text in the
/// first `len` bytes of `bytes`.
pub fn floor_char_boundary(bytes: &[u8], len: usize, index: usize) -> (boundary: usize)
    requires
        len <= bytes@.len(),
    ensures
        boundary == spec_floor(bytes@.take(len as int), index as int),
        boundary <= index,
{
    let ghost text = bytes@.take(len as int);
    let mut i = index;
    while i > 0 && i < len && bytes[i] & 0xc0u8 == 0x80u8
        invariant
            i <= index,
            len <= bytes@.len(),
            text == bytes@.take(len as int),
            spec_floor(text, i as int) == spec_floor(text, index as int),
        decreases i,
    {
        assert(text[i as int] == bytes@[i as int]);
        i = i - 1;
    }
    proof {
        if i > 0 && i < len {
            assert(text[i as int] == bytes@[i as int]);
        }
    }
    i
}

/// A message being assembled in a buffer of [`MESSAGE_CAPACITY`] bytes
/// of text plus the NUL the C side needs.
pub struct Message {
    bytes: Vec<u8>,
    len: usize,
    truncated: bool,
}

impl View for Message {
    type V = MessageModel;

    closed spec fn view(&self) -> MessageModel {
        MessageModel { text: self.bytes@.take(self.len as int), truncated: self.truncated }
    }
}

impl Message {
    /// The message's invariant: the buffer has its fixed size, and the
    /// text fits in it.
    pub closed spec fn wf(&self) -> bool {
        self.bytes@.len() == MESSAGE_CAPACITY + 1 && self.len <= MESSAGE_CAPACITY
    }

    /// An empty message.
    pub fn new() -> (message: Self)
        ensures
            message.wf(),
            message@.text == Seq::<u8>::empty(),
            !message@.truncated,
    {
        let mut bytes: Vec<u8> = Vec::new();
        let mut i: usize = 0;
        while i < MESSAGE_CAPACITY + 1
            invariant
                i <= MESSAGE_CAPACITY + 1,
                bytes@.len() == i,
            decreases MESSAGE_CAPACITY + 1 - i,
        {
            bytes.push(0);
            i = i + 1;
        }
        let message = Self { bytes, len: 0, truncated: false };
        assert(message@.text =~= Seq::<u8>::empty());
        message
    }

    /// Whether something did not fit. Once it is set, nothing more
    /// needs to be formatted into the message.
    pub fn is_truncated(&self) -> (truncated: bool)
        ensures
            truncated == self@.truncated,
    {
        self.truncated
    }

    /// How many bytes of text the message holds.
    pub fn len(&self) -> (len: usize)
        requires
            self.wf(),
        ensures
            len == self@.text.len(),
    {
        self.len
    }

    /// Writes `piece` at the end of the text, which it is known to fit
    /// after.
    fn put(&mut self, piece: &[u8], count: usize)
        requires
            old(self).wf(),
            count <= piece@.len(),
            old(self).len + count <= MESSAGE_CAPACITY,
        ensures
            final(self).wf(),
            final(self)@.text == old(self)@.text + piece@.take(count as int),
            final(self)@.truncated == old(self)@.truncated,
    {
        let start = self.len;
        let mut i: usize = 0;
        while i < count
            invariant
                self.bytes@.len() == MESSAGE_CAPACITY + 1,
                self.len == start,
                start + count <= MESSAGE_CAPACITY,
                i <= count,
                count <= piece@.len(),
                self.truncated == old(self).truncated,
                self.bytes@.take(start as int) == old(self)@.text,
                forall|j: int| 0 <= j < i ==> self.bytes@[start + j] == piece@[j],
            decreases count - i,
        {
            proof {
                assert(self.bytes@.update(start + i, piece@[i as int]).take(start as int)
                    =~= self.bytes@.take(start as int));
            }
            self.bytes.set(start + i, piece[i]);
            i = i + 1;
        }
        self.len = start + count;
        assert(self.bytes@.take(self.len as int) =~= old(self)@.text + piece@.take(count as int));
    }

    /// Appends as much of `s` as fits, cutting on a `char` boundary and
    /// recording that something was dropped.
    pub fn append(&mut self, s: &str)
        requires
            old(self).wf(),
        ensures
            final(self).wf(),
            final(self)@.text == old(self)@.text + s.spec_bytes().take(
                spec_fitting(old(self)@.text.len() as int, s.spec_bytes()),
            ),
            final(self)@.truncated == (old(self)@.truncated || s.spec_bytes().len()
                > MESSAGE_CAPACITY - old(self)@.text.len()),
    {
        let piece = s.as_bytes();
        let room = MESSAGE_CAPACITY - self.len;
        let end = if piece.len() <= room {
            piece.len()
        } else {
            self.truncated = true;
            proof {
                lemma_floor_bounds(piece@, room as int);
                assert(piece@.take(piece@.len() as int) =~= piece@);
            }
            floor_char_boundary(piece, piece.len(), room)
        };
        proof {
            assert(piece@.take(piece@.len() as int) =~= piece@);
        }
        self.put(piece, end);
    }

    /// Appends bytes known to fit.
    fn push_bytes(&mut self, byte: u8, times: usize)
        requires
            old(self).wf(),
            old(self).len + times <= MESSAGE_CAPACITY,
        ensures
            final(self).wf(),
            final(self)@.text == old(self)@.text + Seq::new(times as nat, |i: int| byte),
            final(self)@.truncated == old(self)@.truncated,
            final(self).len == old(self).len + times,
    {
        let mut i: usize = 0;
        while i < times
            invariant
                self.wf(),
                i <= times,
                self.len == old(self).len + i,
                old(self).len + times <= MESSAGE_CAPACITY,
                self.truncated == old(self)@.truncated,
                self@.text == old(self)@.text + Seq::new(i as nat, |k: int| byte),
            decreases times - i,
        {
            let at = self.len;
            proof {
                assert(self.bytes@.update(at as int, byte).take(at + 1) =~= self@.text.push(byte));
                assert(old(self)@.text + Seq::new((i + 1) as nat, |k: int| byte) =~= (old(self)@.text
                    + Seq::new(i as nat, |k: int| byte)).push(byte));
            }
            self.bytes.set(at, byte);
            self.len = at + 1;
            i = i + 1;
        }
    }

    /// Terminates the message, appending the truncation marker and an
    /// optional newline, and returns it as the C side will read it: up to
    /// its first NUL.
    ///
    /// Both are made to fit by giving back text from the end of the
    /// message, cut on a `char` boundary, so the result never exceeds
    /// [`MESSAGE_CAPACITY`] bytes.
    pub fn finish(&mut self, newline: bool) -> (out: Vec<u8>)
        requires
            old(self).wf(),
        ensures
            final(self).wf(),
            final(self)@.text == spec_finished(old(self)@.text, old(self)@.truncated, newline),
            out@ == spec_until_nul(final(self)@.text),
    {
        let ghost text = self@.text;
        let newline_len: usize = if newline { 1 } else { 0 };
        if self.len + newline_len > MESSAGE_CAPACITY {
            self.truncated = true;
        }
        let tail: usize = if self.truncated { 3 + newline_len } else { newline_len };
        if self.len + tail > MESSAGE_CAPACITY {
            proof {
                lemma_floor_bounds(text, (MESSAGE_CAPACITY - tail) as int);
            }
            let kept = floor_char_boundary(self.bytes.as_slice(), self.len, MESSAGE_CAPACITY - tail);
            assert(self.bytes@.take(kept as int) =~= text.take(kept as int));
            self.len = kept;
        }
        let ghost kept_text = self@.text;
        if self.truncated {
            self.push_bytes(DOT, 3);
        }
        if newline {
            self.push_bytes(NEWLINE, 1);
        }
        proof {
            let marker = if self.truncated { spec_marker() } else { Seq::<u8>::empty() };
            let nl = if newline { seq![NEWLINE] } else { Seq::<u8>::empty() };
            assert(Seq::new(3, |i: int| DOT) =~= spec_marker());
            assert(Seq::new(1, |i: int| NEWLINE) =~= seq![NEWLINE]);
            assert(self@.text =~= kept_text + marker + nl);
        }
        let at = self.len;
        proof {
            assert(self.bytes@.update(at as int, 0u8).take(at as int) =~= self@.text);
        }
        self.bytes.set(at, 0);
        until_nul(self.bytes.as_slice(), self.len)
    }
}

/// The first `len` bytes of `bytes`, up to their first NUL.
fn until_nul(bytes: &[u8], len: usize) -> (out: Vec<u8>)
    requires
        len <= bytes@.len(),
    ensures
        out@ == spec_until_nul(bytes@.take(len as int)),
{
    let mut out: Vec<u8> = Vec::new();
    let mut i: usize = 0;
    assert(bytes@.take(len as int).skip(0) =~= bytes@.take(len as int));
    assert(out@ + spec_until_nul(bytes@.take(len as int)) =~= spec_until_nul(bytes@.take(len as int)));
    while i < len && bytes[i] != 0
        invariant
            i <= len,
            len <= bytes@.len(),
            out@ + spec_until_nul(bytes@.take(len as int).skip(i as int)) == spec_until_nul(
                bytes@.take(len as int),
            ),
        decreases len - i,
    {
        let ghost rest = bytes@.take(len as int).skip(i as int);
        assert(rest.drop_first() =~= bytes@.take(len as int).skip(i + 1));
        assert(out@.push(bytes@[i as int]) + spec_until_nul(rest.drop_first()) =~= out@ + (seq![
            rest[0],
        ] + spec_until_nul(rest.drop_first())));
        out.push(bytes[i]);
        i = i + 1;
    }
    proof {
        let rest = bytes@.take(len as int).skip(i as int);
        assert(spec_until_nul(rest) =~= Seq::<u8>::empty());
        assert(out@ + Seq::<u8>::empty() =~= out@);
    }
    out
}

/// The bytes printed for `text`, with a newline when `newline` is set:
/// the text whole when it fits, cut on a `char` boundary and marked
/// `...` when it does not, ended at its first NUL. What comes out is
/// valid UTF-8, as the text was.
pub fn message_bytes(text: &str, newline: bool) -> (out: Vec<u8>)
    ensures
        valid_utf8(out@),
        out@ == spec_until_nul(
            spec_finished(
                text.spec_bytes().take(spec_fitting(0, text.spec_bytes())),
                text.spec_bytes().len() > MESSAGE_CAPACITY,
                newline,
            ),
        ),
{
    let mut message = Message::new();
    message.append(text);
    proof {
        let bytes = text.spec_bytes();
        let fitted = bytes.take(spec_fitting(0, bytes));
        assert(Seq::<u8>::empty() + fitted =~= fitted);
        encode_utf8_valid_utf8(text@);
        assert(valid_utf8(Seq::<u8>::empty()));
        lemma_messages_stay_valid_utf8(Seq::<u8>::empty(), bytes, false, newline);
        assert(fitted.len() <= MESSAGE_CAPACITY) by {
            lemma_floor_bounds(bytes, MESSAGE_CAPACITY as int);
        }
        lemma_messages_stay_valid_utf8(fitted, Seq::<u8>::empty(), bytes.len() > MESSAGE_CAPACITY, newline);
    }
    message.finish(newline)
}

/// A finished message never exceeds [`MESSAGE_CAPACITY`] bytes, and
/// one that had text cut from it ends with the marker, then the newline
/// if one was asked for.
pub proof fn lemma_a_finished_message_fits(text: Seq<u8>, truncated: bool, newline: bool)
    requires
        text.len() <= MESSAGE_CAPACITY,
    ensures
        spec_finished(text, truncated, newline).len() <= MESSAGE_CAPACITY,
        truncated ==> {
            let out = spec_finished(text, truncated, newline);
            let n: int = if newline { 1 } else { 0 };
            out.subrange(out.len() - 3 - n, out.len() - n) == spec_marker()
        },
        newline ==> spec_finished(text, truncated, newline).last() == NEWLINE,
{
    let newline_len: int = if newline { 1 } else { 0 };
    let cut = truncated || text.len() + newline_len > MESSAGE_CAPACITY;
    let tail: int = if cut { 3 + newline_len } else { newline_len };
    lemma_floor_bounds(text, MESSAGE_CAPACITY - tail);
    let out = spec_finished(text, truncated, newline);
    if truncated {
        let kept = if text.len() + tail > MESSAGE_CAPACITY {
            text.take(spec_floor(text, MESSAGE_CAPACITY - tail))
        } else {
            text
        };
        let nl = if newline { seq![NEWLINE] } else { Seq::<u8>::empty() };
        assert(out =~= kept + spec_marker() + nl);
        assert(out.subrange(out.len() - 3 - newline_len, out.len() - newline_len) =~= spec_marker());
    }
}

/// A text that fits, newline included, is printed as it is: nothing is
/// cut and no marker is added.
pub proof fn lemma_a_message_that_fits_is_left_alone(text: Seq<u8>, newline: bool)
    requires
        text.len() + (if newline { 1int } else { 0int }) <= MESSAGE_CAPACITY,
    ensures
        spec_finished(text, false, newline) == text + (if newline {
            seq![NEWLINE]
        } else {
            Seq::empty()
        }),
{
    assert(text + Seq::<u8>::empty() =~= text);
}

/// Text is only ever cut where a `char` begins: the cut lands on the
/// start or the end of the text, or before a byte that does not continue
/// a UTF-8 sequence, so no character is split.
pub proof fn lemma_text_is_cut_on_a_char_boundary(bytes: Seq<u8>, index: int)
    requires
        0 <= index,
    ensures
        0 <= spec_floor(bytes, index) <= index,
        spec_floor(bytes, index) == 0 || spec_floor(bytes, index) >= bytes.len()
            || !spec_is_continuation(bytes[spec_floor(bytes, index)]),
{
    lemma_floor_bounds(bytes, index);
}

proof fn lemma_continuation_agrees(byte: u8)
    ensures
        spec_is_continuation(byte) == is_continuation_byte(byte),
{
    assert((byte & 0xc0u8 == 0x80u8) == (0x80u8 <= byte && byte <= 0xbfu8)) by (bit_vector);
}

/// A first scalar is decided by its own bytes: another sequence that
/// starts with the same bytes starts with the same scalar.
proof fn lemma_first_scalar_same(x: Seq<u8>, y: Seq<u8>)
    requires
        valid_first_scalar(x),
        length_of_first_scalar(x) <= y.len(),
        forall|i: int| 0 <= i < length_of_first_scalar(x) ==> #[trigger] y[i] == x[i],
    ensures
        valid_first_scalar(y),
        length_of_first_scalar(y) == length_of_first_scalar(x),
{
    let n = length_of_first_scalar(x);
    assert(y[0] == x[0]);
    if n >= 2 {
        assert(y[1] == x[1]);
    }
    if n >= 3 {
        assert(y[2] == x[2]);
    }
    if n >= 4 {
        assert(y[3] == x[3]);
    }
}

/// Cutting valid UTF-8 where a `char` begins leaves valid UTF-8.
proof fn lemma_cut_keeps_utf8(bytes: Seq<u8>, at: int)
    requires
        valid_utf8(bytes),
        0 <= at <= bytes.len(),
        at == 0 || at == bytes.len() || !is_continuation_byte(bytes[at]),
    ensures
        valid_utf8(bytes.take(at)),
    decreases bytes.len(),
{
    if at == 0 {
        assert(bytes.take(0) =~= Seq::<u8>::empty());
    } else if at == bytes.len() {
        assert(bytes.take(at) =~= bytes);
    } else {
        let n = length_of_first_scalar(bytes);
        if at < n {
            assert(is_continuation_byte(bytes[at]));
        }
        let cut = bytes.take(at);
        lemma_first_scalar_same(bytes, cut);
        let rest = pop_first_scalar(bytes);
        assert(rest[at - n] == bytes[at]);
        lemma_cut_keeps_utf8(rest, at - n);
        assert(pop_first_scalar(cut) =~= rest.take(at - n));
    }
}

/// Valid UTF-8 followed by valid UTF-8 is valid UTF-8.
proof fn lemma_concat_keeps_utf8(a: Seq<u8>, b: Seq<u8>)
    requires
        valid_utf8(a),
        valid_utf8(b),
    ensures
        valid_utf8(a + b),
    decreases a.len(),
{
    if a.len() == 0 {
        assert(a + b =~= b);
    } else {
        let n = length_of_first_scalar(a);
        lemma_first_scalar_same(a, a + b);
        lemma_concat_keeps_utf8(pop_first_scalar(a), b);
        assert(pop_first_scalar(a + b) =~= pop_first_scalar(a) + b);
    }
}

/// One ASCII byte is valid UTF-8.
proof fn lemma_ascii_byte(byte: u8)
    requires
        byte <= 0x7f,
    ensures
        valid_utf8(seq![byte]),
{
    let b = seq![byte];
    assert((byte & 0x7Fu8) as u32 <= 0x7f) by (bit_vector);
    assert(is_leading_byte_width_1(b[0]));
    assert(valid_leading_and_continuation_bytes_first_codepoint(b));
    assert(length_of_first_codepoint(b) == 1);
    assert(decode_first_codepoint(b) <= 0x7f);
    assert(valid_first_scalar(b));
    assert(pop_first_scalar(b) =~= Seq::<u8>::empty());
    assert(valid_utf8(Seq::<u8>::empty()));
}

/// Where the first NUL of `bytes` is, or its length if it has none.
pub open spec fn spec_nul_index(bytes: Seq<u8>) -> int
    decreases bytes.len(),
{
    if bytes.len() == 0 {
        0
    } else if bytes[0] == 0 {
        0
    } else {
        1 + spec_nul_index(bytes.drop_first())
    }
}

proof fn lemma_until_nul_is_a_prefix(bytes: Seq<u8>)
    ensures
        0 <= spec_nul_index(bytes) <= bytes.len(),
        spec_until_nul(bytes) == bytes.take(spec_nul_index(bytes)),
        spec_nul_index(bytes) < bytes.len() ==> bytes[spec_nul_index(bytes)] == 0,
    decreases bytes.len(),
{
    if bytes.len() > 0 && bytes[0] != 0 {
        let rest = bytes.drop_first();
        lemma_until_nul_is_a_prefix(rest);
        assert(seq![bytes[0]] + rest.take(spec_nul_index(rest)) =~= bytes.take(spec_nul_index(bytes)));
        if spec_nul_index(bytes) < bytes.len() {
            assert(bytes[spec_nul_index(bytes)] == rest[spec_nul_index(rest)]);
        }
    } else if bytes.len() > 0 {
        assert(bytes.take(0) =~= Seq::<u8>::empty());
    } else {
        assert(bytes.take(0) =~= bytes);
    }
}

/// Text that is valid UTF-8 stays valid UTF-8 as it is appended, cut to
/// fit, marked and ended: no character is ever split.
pub proof fn lemma_messages_stay_valid_utf8(text: Seq<u8>, piece: Seq<u8>, truncated: bool, newline: bool)
    requires
        valid_utf8(text),
        valid_utf8(piece),
        text.len() <= MESSAGE_CAPACITY,
    ensures
        valid_utf8(text + piece.take(spec_fitting(text.len() as int, piece))),
        valid_utf8(spec_until_nul(spec_finished(text, truncated, newline))),
{
    let room = MESSAGE_CAPACITY - text.len();
    let fit = spec_fitting(text.len() as int, piece);
    if piece.len() > room {
        lemma_floor_bounds(piece, room);
        if 0 < fit && fit < piece.len() {
            lemma_continuation_agrees(piece[fit]);
        }
        lemma_cut_keeps_utf8(piece, fit);
    } else {
        assert(piece.take(fit) =~= piece);
    }
    lemma_concat_keeps_utf8(text, piece.take(fit));

    let newline_len: int = if newline { 1 } else { 0 };
    let cut = truncated || text.len() + newline_len > MESSAGE_CAPACITY;
    let tail: int = if cut { 3 + newline_len } else { newline_len };
    let kept = if text.len() + tail > MESSAGE_CAPACITY {
        text.take(spec_floor(text, MESSAGE_CAPACITY - tail))
    } else {
        text
    };
    if text.len() + tail > MESSAGE_CAPACITY {
        let at = spec_floor(text, MESSAGE_CAPACITY - tail);
        lemma_floor_bounds(text, MESSAGE_CAPACITY - tail);
        if 0 < at && at < text.len() {
            lemma_continuation_agrees(text[at]);
        }
        lemma_cut_keeps_utf8(text, at);
    }
    lemma_ascii_byte(DOT);
    lemma_ascii_byte(NEWLINE);
    lemma_concat_keeps_utf8(seq![DOT], seq![DOT]);
    lemma_concat_keeps_utf8(seq![DOT] + seq![DOT], seq![DOT]);
    assert(seq![DOT] + seq![DOT] + seq![DOT] =~= spec_marker());
    let marker = if cut { spec_marker() } else { Seq::<u8>::empty() };
    let nl = if newline { seq![NEWLINE] } else { Seq::<u8>::empty() };
    lemma_concat_keeps_utf8(kept, marker);
    lemma_concat_keeps_utf8(kept + marker, nl);
    let finished = spec_finished(text, truncated, newline);
    assert(finished == kept + marker + nl);
    lemma_until_nul_is_a_prefix(finished);
    let end = spec_nul_index(finished);
    if end < finished.len() {
        assert(!is_continuation_byte(finished[end]));
    }
    lemma_cut_keeps_utf8(finished, end);
}

} // verus!
