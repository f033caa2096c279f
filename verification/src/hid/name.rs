//! The name of a device, feature 0x0005 (DEVICE_NAME_AND_TYPE).
//!
//! The device tells the length of its name in bytes; the bytes are then read three
//! at a time.

use crate::device_map::display_name;
use crate::hid::error::HidError;
use crate::hid::exchange::Reply;
use crate::hid::protocol::{request_msg, ShortMsg};
use crate::text::{decimal, law_decimal_value, number_of, push_decimal};
use vstd::prelude::*;
use vstd::utf8::{
    decode_utf8, decode_utf8_encode_utf8, encode_utf8, encode_utf8_decode_utf8,
    encode_utf8_valid_utf8, pop_first_scalar, valid_utf8,
};

verus! {

/// The id of DEVICE_NAME_AND_TYPE.
pub const DEVICE_NAME: u16 = 0x0005;

/// The text that `String::from_utf8_lossy` of std makes of bytes.
pub uninterp spec fn utf8_lossy(bytes: Seq<u8>) -> Seq<char>;

/// `String::from_utf8_lossy` of std, as an owned string: the result is a function of
/// the bytes, and where the bytes are valid UTF-8 it is the text that they encode.
/// What stands for invalid bytes is left unsaid.
#[verifier::external_body]
pub(crate) fn from_utf8_lossy(bytes: &[u8]) -> (text: String)
    ensures
        text@ == utf8_lossy(bytes@),
        valid_utf8(bytes@) ==> text@ == decode_utf8(bytes@),
{
    String::from_utf8_lossy(bytes).into_owned()
}

/// The text that bytes spell: what they encode where they are valid UTF-8, and what
/// std makes of them elsewhere.
pub open spec fn text_of(bytes: Seq<u8>) -> Seq<char> {
    if valid_utf8(bytes) {
        decode_utf8(bytes)
    } else {
        utf8_lossy(bytes)
    }
}

/// `s` without the NUL characters at its end.
pub open spec fn trim_nul(s: Seq<char>) -> Seq<char>
    decreases s.len(),
{
    if s.len() > 0 && s.last() == '\0' {
        trim_nul(s.drop_last())
    } else {
        s
    }
}

/// The name that a device's bytes spell.
pub open spec fn name_of(bytes: Seq<u8>) -> Seq<char> {
    trim_nul(text_of(bytes))
}

/// The name shown for a device that gives none.
pub open spec fn fallback_name(slot: u8) -> Seq<char> {
    "Logitech Device (index "@ + decimal(slot as nat) + ")"@
}

/// `s` without the NUL characters at its end.
pub fn trim_end_nul(s: &str) -> (trimmed: String)
    ensures
        trimmed@ == trim_nul(s@),
{
    let chars: Vec<char> = crate::text::chars_of(s);
    let mut len: usize = chars.len();
    assert(s@.take(len as int) =~= s@);
    while len > 0 && chars[len - 1] == '\0'
        invariant
            chars@ == s@,
            len <= s@.len(),
            trim_nul(s@) == trim_nul(s@.take(len as int)),
        decreases len,
    {
        assert(s@.take(len as int).drop_last() =~= s@.take(len - 1));
        len -= 1;
    }
    s.substring_char(0, len).to_owned()
}

/// The display name that a device's bytes spell.
pub fn spell_name(bytes: &[u8]) -> (name: String)
    ensures
        name@ == name_of(bytes@),
{
    let text: String = from_utf8_lossy(bytes);
    let name: String = trim_end_nul(text.as_str());
    // A prettier name in the device map is preferred.
    display_name(name.as_str())
}

/// The name shown for a device that gives none.
pub fn default_name(slot: u8) -> (name: String)
    ensures
        name@ == fallback_name(slot),
{
    let mut name: String = "Logitech Device (index ".to_owned();
    push_decimal(&mut name, slot as u64);
    name.append(")");
    name
}

/// Where the reading of a name stands.
#[derive(Clone, Copy, Debug, PartialEq, Eq, Structural)]
pub enum NamePhase {
    /// The length is asked for.
    Length,
    /// The next bytes of a name of `len` bytes are asked for.
    Chunk { len: u8 },
    Done,
    Failed(HidError),
}

/// The reading of a device's name.
#[derive(Debug)]
pub struct NameRead {
    pub slot: u8,
    /// The index of the name feature in the device's table.
    pub name_idx: u8,
    /// The bytes read so far.
    pub bytes: Vec<u8>,
    pub phase: NamePhase,
}

/// The reading of a name as plain values.
#[verifier::ext_equal]
pub struct NameView {
    pub slot: u8,
    pub name_idx: u8,
    pub bytes: Seq<u8>,
    pub phase: NamePhase,
}

impl View for NameRead {
    type V = NameView;

    open spec fn view(&self) -> NameView {
        NameView {
            slot: self.slot,
            name_idx: self.name_idx,
            bytes: self.bytes@,
            phase: self.phase,
        }
    }
}

/// The smaller of two lengths.
pub open spec fn at_most(a: int, b: int) -> int {
    if a < b {
        a
    } else {
        b
    }
}

impl NameView {
    /// Before anything was asked. A device without a name feature has failed already.
    pub open spec fn start(slot: u8, name_idx: Option<u8>) -> NameView {
        match name_idx {
            Some(idx) => NameView {
                slot,
                name_idx: idx,
                bytes: Seq::empty(),
                phase: NamePhase::Length,
            },
            None => NameView {
                slot,
                name_idx: 0,
                bytes: Seq::empty(),
                phase: NamePhase::Failed(HidError::NameMissing),
            },
        }
    }

    /// No more bytes than the name has.
    pub open spec fn wf(self) -> bool {
        match self.phase {
            NamePhase::Length => self.bytes.len() == 0,
            NamePhase::Chunk { len } => self.bytes.len() < len,
            _ => true,
        }
    }

    pub open spec fn over(self) -> bool {
        self.phase is Done || self.phase is Failed
    }

    /// The request that is due, if any.
    pub open spec fn ask(self) -> Option<ShortMsg> {
        match self.phase {
            NamePhase::Length => Some(request_msg(self.slot, self.name_idx, 0, 0)),
            NamePhase::Chunk { .. } => Some(
                request_msg(self.slot, self.name_idx, 1, self.bytes.len() as u8),
            ),
            _ => None,
        }
    }

    /// The reading after the reply to the request that was due.
    pub open spec fn after_reply(self, reply: Reply) -> NameView {
        match (self.phase, reply) {
            (NamePhase::Done, _) => self,
            (NamePhase::Failed(_), _) => self,
            (_, Err(err)) => NameView { phase: NamePhase::Failed(err), ..self },
            (NamePhase::Length, Ok(header)) => NameView {
                phase: if header[4] == 0 {
                    NamePhase::Failed(HidError::NameEmpty)
                } else {
                    NamePhase::Chunk { len: header[4] }
                },
                ..self
            },
            (NamePhase::Chunk { len }, Ok(header)) => {
                let all = self.bytes + seq![header[4], header[5], header[6]];
                let bytes = all.take(at_most(len as int, all.len() as int));
                NameView {
                    bytes,
                    phase: if bytes.len() < len {
                        NamePhase::Chunk { len }
                    } else {
                        NamePhase::Done
                    },
                    ..self
                }
            },
        }
    }

    /// The reading after a series of replies.
    pub open spec fn after_replies(self, replies: Seq<Reply>) -> NameView
        decreases replies.len(),
    {
        if replies.len() == 0 {
            self
        } else {
            self.after_replies(replies.drop_last()).after_reply(replies.last())
        }
    }

    /// At most this many replies are still asked for.
    pub open spec fn replies_left(self) -> nat {
        match self.phase {
            NamePhase::Length => 256,
            NamePhase::Chunk { len } => (len - self.bytes.len()) as nat,
            _ => 0,
        }
    }

    /// The name to show once the reading is over.
    pub open spec fn name(self) -> Seq<char> {
        if self.phase is Done {
            name_of(self.bytes)
        } else {
            fallback_name(self.slot)
        }
    }
}

impl NameRead {
    /// Start reading the name of the device at `slot`, whose name feature stands at
    /// `name_idx` in its table, if it has one.
    pub fn start(slot: u8, name_idx: Option<u8>) -> (read: NameRead)
        ensures
            read@ == NameView::start(slot, name_idx),
            read@.wf(),
    {
        match name_idx {
            Some(idx) => NameRead {
                slot,
                name_idx: idx,
                bytes: Vec::new(),
                phase: NamePhase::Length,
            },
            None => NameRead {
                slot,
                name_idx: 0,
                bytes: Vec::new(),
                phase: NamePhase::Failed(HidError::NameMissing),
            },
        }
    }

    /// The request that is due, if any.
    pub fn ask(&self) -> (ask: Option<ShortMsg>)
        ensures
            ask == self@.ask(),
    {
        match self.phase {
            NamePhase::Length => Some(
                ShortMsg::new(self.slot, self.name_idx, 0x00, [0x00, 0x00, 0x00]),
            ),
            NamePhase::Chunk { .. } => {
                let offset: u8 = self.bytes.len() as u8;
                Some(ShortMsg::new(self.slot, self.name_idx, 0x01, [offset, 0x00, 0x00]))
            },
            _ => None,
        }
    }

    /// The reply to the request that was due has come, or the request failed.
    pub fn on_reply(&mut self, reply: Reply)
        ensures
            final(self)@ == old(self)@.after_reply(reply),
            old(self)@.wf() ==> final(self)@.wf(),
    {
        match (self.phase, reply) {
            (NamePhase::Done, _) => {},
            (NamePhase::Failed(_), _) => {},
            (_, Err(err)) => {
                self.phase = NamePhase::Failed(err);
            },
            (NamePhase::Length, Ok(header)) => {
                let len: u8 = header[4];
                self.phase =
                if len == 0 {
                    NamePhase::Failed(HidError::NameEmpty)
                } else {
                    NamePhase::Chunk { len }
                };
            },
            (NamePhase::Chunk { len }, Ok(header)) => {
                self.bytes.push(header[4]);
                self.bytes.push(header[5]);
                self.bytes.push(header[6]);
                assert(self.bytes@ =~= old(self).bytes@ + seq![header[4], header[5], header[6]]);
                self.bytes.truncate(len as usize);
                self.phase =
                if self.bytes.len() < len as usize {
                    NamePhase::Chunk { len }
                } else {
                    NamePhase::Done
                };
            },
        }
    }

    /// The name to show once the reading is over: what the device spelled, or a
    /// default.
    pub fn name(&self) -> (name: String)
        ensures
            name@ == self@.name(),
    {
        match self.phase {
            NamePhase::Done => spell_name(self.bytes.as_slice()),
            _ => default_name(self.slot),
        }
    }
}

/// The name bytes that a series of replies carries, three in each.
pub open spec fn chunk_bytes(chunks: Seq<[u8; 7]>) -> Seq<u8> {
    Seq::new(3 * chunks.len(), |i: int| chunks[i / 3][4 + i % 3])
}

/// The replies of a device that answers every request for its name.
pub open spec fn name_replies(length: [u8; 7], chunks: Seq<[u8; 7]>) -> Seq<Reply> {
    seq![Ok::<[u8; 7], HidError>(length)] + chunks.map_values(
        |header: [u8; 7]| Ok::<[u8; 7], HidError>(header),
    )
}

/// A device that answers every request is read to the end of its name and no
/// further: the bytes are those of the chunks, in order, cut to the length that the
/// device told, and nothing is asked for once they are all there.
pub proof fn law_answered_name(
    slot: u8,
    name_idx: u8,
    length: [u8; 7],
    chunks: Seq<[u8; 7]>,
)
    requires
        length[4] > 0,
        3 * chunks.len() < length[4] + 3,
    ensures
        NameView::start(slot, Some(name_idx)).after_replies(name_replies(length, chunks)) == (
        NameView {
            slot,
            name_idx,
            bytes: chunk_bytes(chunks).take(at_most(length[4] as int, (3 * chunks.len()) as int)),
            phase: if 3 * chunks.len() < length[4] {
                NamePhase::Chunk { len: length[4] }
            } else {
                NamePhase::Done
            },
        }),
    decreases chunks.len(),
{
    let start = NameView::start(slot, Some(name_idx));
    let replies = name_replies(length, chunks);
    if chunks.len() == 0 {
        assert(replies.drop_last() =~= Seq::<Reply>::empty());
        assert(replies.last() == Ok::<[u8; 7], HidError>(length));
        assert(start.after_replies(Seq::empty()) == start);
        assert(chunk_bytes(chunks).take(0) =~= Seq::<u8>::empty());
    } else {
        let before = chunks.drop_last();
        let last = chunks.last();
        law_answered_name(slot, name_idx, length, before);
        assert(replies.drop_last() =~= name_replies(length, before));
        assert(replies.last() == Ok::<[u8; 7], HidError>(last));
        let n = 3 * before.len();
        assert(chunk_bytes(before).take(n as int) =~= chunk_bytes(before));
        assert(chunk_bytes(chunks) =~= chunk_bytes(before) + seq![last[4], last[5], last[6]]);
        let mid = start.after_replies(name_replies(length, before));
        assert(mid.bytes == chunk_bytes(before));
        assert(start.after_replies(replies) == mid.after_reply(Ok(last)));
    }
}

/// Every reply brings the reading of a name closer to its end, and a reply is asked
/// for exactly until then.
pub proof fn law_name_progress(view: NameView, reply: Reply)
    requires
        view.wf(),
    ensures
        view.after_reply(reply).wf(),
        !view.over() ==> view.after_reply(reply).replies_left() < view.replies_left(),
        view.replies_left() <= 256,
        view.over() <==> view.ask() is None,
        view.over() ==> view.after_reply(reply) == view,
{
}

/// A name that was read does not end in NUL, and only NUL characters were cut off.
pub proof fn law_trimmed_name(s: Seq<char>)
    ensures
        trim_nul(s).len() > 0 ==> trim_nul(s).last() != '\0',
        trim_nul(s) == s.take(trim_nul(s).len() as int),
        trim_nul(s).len() <= s.len(),
        forall|i: int| trim_nul(s).len() <= i < s.len() ==> s[i] == '\0',
    decreases s.len(),
{
    if s.len() > 0 && s.last() == '\0' {
        law_trimmed_name(s.drop_last());
        assert(s.drop_last().take(trim_nul(s).len() as int) =~= s.take(trim_nul(s).len() as int));
        assert forall|i: int| trim_nul(s).len() <= i < s.len() implies s[i] == '\0' by {
            if i < s.len() - 1 {
                assert(s.drop_last()[i] == s[i]);
            }
        }
    } else {
        assert(s.take(s.len() as int) =~= s);
    }
}

/// Bytes below 0x80 spell the characters with those numbers.
pub proof fn law_ascii_text(bytes: Seq<u8>)
    requires
        forall|i: int| 0 <= i < bytes.len() ==> #[trigger] bytes[i] < 0x80,
    ensures
        valid_utf8(bytes),
        text_of(bytes) == bytes.map_values(|b: u8| b as char),
    decreases bytes.len(),
{
    if bytes.len() > 0 {
        let first = bytes[0];
        let rest = pop_first_scalar(bytes);
        assert(first < 0x80 ==> first & 0x7f == first) by (bit_vector);
        assert(rest =~= bytes.skip(1));
        assert forall|i: int| 0 <= i < rest.len() implies #[trigger] rest[i] < 0x80 by {
            assert(rest[i] == bytes[i + 1]);
        }
        law_ascii_text(rest);
        assert(text_of(bytes) =~= bytes.map_values(|b: u8| b as char));
    } else {
        assert(text_of(bytes) =~= bytes.map_values(|b: u8| b as char));
    }
}

/// A text comes back from its UTF-8 bytes.
pub proof fn law_text_of_encoded(chars: Seq<char>)
    ensures
        text_of(encode_utf8(chars)) == chars,
{
    encode_utf8_valid_utf8(chars);
    encode_utf8_decode_utf8(chars);
}

/// So many NUL characters.
pub open spec fn nuls(n: nat) -> Seq<char> {
    Seq::new(n, |i: int| '\0')
}

/// So many zero bytes.
pub open spec fn zeros(n: nat) -> Seq<u8> {
    Seq::new(n, |i: int| 0u8)
}

proof fn lemma_encode_nul(chars: Seq<char>)
    ensures
        encode_utf8(chars.push('\0')) == encode_utf8(chars).push(0u8),
    decreases chars.len(),
{
    reveal_with_fuel(encode_utf8, 2);
    let longer = chars.push('\0');
    assert(0u32 & 0x7F == 0u32) by (bit_vector);
    if chars.len() == 0 {
        assert(longer.drop_first() =~= Seq::<char>::empty());
        assert(encode_utf8(longer) =~= seq![0u8]);
    } else {
        lemma_encode_nul(chars.drop_first());
        assert(longer.drop_first() =~= chars.drop_first().push('\0'));
        assert(longer[0] == chars[0]);
        assert(encode_utf8(longer) =~= encode_utf8(chars).push(0u8));
    }
}

proof fn lemma_encode_nuls(chars: Seq<char>, n: nat)
    ensures
        encode_utf8(chars + nuls(n)) == encode_utf8(chars) + zeros(n),
    decreases n,
{
    if n == 0 {
        assert(chars + nuls(0) =~= chars);
        assert(encode_utf8(chars) + zeros(0) =~= encode_utf8(chars));
    } else {
        let m = (n - 1) as nat;
        lemma_encode_nuls(chars, m);
        lemma_encode_nul(chars + nuls(m));
        assert(chars + nuls(n) =~= (chars + nuls(m)).push('\0'));
        assert(encode_utf8(chars) + zeros(n) =~= (encode_utf8(chars) + zeros(m)).push(0u8));
    }
}

proof fn lemma_trim_nuls(chars: Seq<char>, n: nat)
    requires
        chars.len() == 0 || chars.last() != '\0',
    ensures
        trim_nul(chars + nuls(n)) == chars,
    decreases n,
{
    if n == 0 {
        assert(chars + nuls(0) =~= chars);
    } else {
        lemma_trim_nuls(chars, (n - 1) as nat);
        assert((chars + nuls(n)).drop_last() =~= chars + nuls((n - 1) as nat));
    }
}

/// A name comes back from its bytes in full, whatever its length and however many zero
/// bytes follow it.
pub proof fn law_name_comes_back(name: Seq<char>, n: nat)
    requires
        name.len() == 0 || name.last() != '\0',
    ensures
        name_of(encode_utf8(name) + zeros(n)) == name,
        name_of(encode_utf8(name)) == name,
{
    lemma_encode_nuls(name, n);
    law_text_of_encoded(name + nuls(n));
    lemma_trim_nuls(name, n);
    law_text_of_encoded(name);
    lemma_trim_nuls(name, 0);
    assert(name + nuls(0) =~= name);
}

/// A name is the text of its bytes, up to the NUL characters at its end and no further,
/// also where the bytes are no valid UTF-8; there std decides what they stand for.
pub proof fn law_name_is_the_text(bytes: Seq<u8>)
    ensures
        name_of(bytes).len() <= text_of(bytes).len(),
        name_of(bytes) == text_of(bytes).take(name_of(bytes).len() as int),
        forall|i: int|
            name_of(bytes).len() <= i < text_of(bytes).len() ==> #[trigger] text_of(bytes)[i]
                == '\0',
        name_of(bytes).len() > 0 ==> name_of(bytes).last() != '\0',
        !valid_utf8(bytes) ==> text_of(bytes) == utf8_lossy(bytes),
        valid_utf8(bytes) ==> encode_utf8(text_of(bytes)) == bytes,
{
    law_trimmed_name(text_of(bytes));
    if valid_utf8(bytes) {
        decode_utf8_encode_utf8(bytes);
    }
}

/// What is asked for a name: function 0 of the name feature for the length, then function
/// 1 with the number of bytes that are there already.
pub proof fn law_name_requests(view: NameView)
    requires
        view.wf(),
    ensures
        view.phase is Length ==> view.ask() == Some(request_msg(view.slot, view.name_idx, 0, 0)),
        view.phase is Chunk ==> view.ask() is Some && view.ask()->0.device_index == view.slot
            && view.ask()->0.feature_index == view.name_idx && view.ask()->0.function_id == 1
            && view.ask()->0.params[0] == view.bytes.len() && view.ask()->0.params[1] == 0
            && view.ask()->0.params[2] == 0,
{
}

/// A device that answers every request with the bytes of its name is shown under that
/// name, whatever it puts behind them in its last reply.
pub proof fn law_device_name_is_shown(
    slot: u8,
    name_idx: u8,
    name: Seq<char>,
    length: [u8; 7],
    chunks: Seq<[u8; 7]>,
)
    requires
        name.len() > 0,
        name.last() != '\0',
        length[4] == encode_utf8(name).len(),
        length[4] <= 3 * chunks.len() < length[4] + 3,
        chunk_bytes(chunks).take(length[4] as int) == encode_utf8(name),
    ensures
        ({
            let end = NameView::start(slot, Some(name_idx)).after_replies(
                name_replies(length, chunks),
            );
            end.phase is Done && end.name() == name
        }),
{
    reveal_with_fuel(encode_utf8, 2);
    law_answered_name(slot, name_idx, length, chunks);
    law_name_comes_back(name, 0);
}

/// The bytes of the replies: three in each, from byte 4 on, in order.
pub proof fn law_chunk_bytes(chunks: Seq<[u8; 7]>, k: int, i: int)
    requires
        0 <= k < chunks.len(),
        0 <= i < 3,
    ensures
        chunk_bytes(chunks).len() == 3 * chunks.len(),
        chunk_bytes(chunks)[3 * k + i] == chunks[k][4 + i],
{
}

/// A device whose name cannot be read is shown under a name that tells its slot, whatever
/// went wrong.
pub proof fn law_default_name(view: NameView, slot: u8, err: HidError)
    ensures
        view.phase is Failed ==> view.name() == fallback_name(view.slot),
        !view.over() ==> view.after_reply(Err(err)).phase == NamePhase::Failed(err),
        !view.over() ==> view.after_reply(Err(err)).name() == fallback_name(view.slot),
        NameView::start(slot, None).phase == NamePhase::Failed(HidError::NameMissing),
        NameView::start(slot, None).name() == fallback_name(slot),
        number_of(fallback_name(slot).subrange(23, fallback_name(slot).len() - 1), 10) == slot,
        fallback_name(slot).take(23) == "Logitech Device (index "@,
        fallback_name(slot).last() == ')',
{
    reveal_strlit("Logitech Device (index ");
    reveal_strlit(")");
    law_decimal_value(slot as nat);
    let name = fallback_name(slot);
    assert(name.subrange(23, name.len() - 1) =~= decimal(slot as nat));
    assert(name.take(23) =~= "Logitech Device (index "@);
}

/// A device that tells a length of 0 has no name; any other length is read to its end.
pub proof fn law_name_length(view: NameView, header: [u8; 7])
    requires
        view.phase is Length,
    ensures
        header[4] == 0 ==> view.after_reply(Ok(header)).phase == NamePhase::Failed(
            HidError::NameEmpty,
        ),
        header[4] > 0 ==> view.after_reply(Ok(header)) == (NameView {
            phase: NamePhase::Chunk { len: header[4] },
            ..view
        }),
{
}

} // verus!
