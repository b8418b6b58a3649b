//! Identifiers: time-based UUIDs, drawn from a clock reading, a clock
//! sequence and the caller's identity.

use crate::text::Text;
use vstd::prelude::*;

verus! {

/// The number of bytes of a caller's identity that go into an identifier.
pub const NODE_BYTES: usize = 6;

/// The text of the version 1 UUID that the `uuid` crate builds from a clock
/// sequence counter, a time in seconds and nanoseconds, and six node bytes.
pub uninterp spec fn uuid_v1_text(sequence: u16, seconds: u64, nanos: u32, node: Seq<u8>) -> Text;

/// Whether `c` is a digit or a letter from `a` to `f`.
pub open spec fn is_hex_digit(c: char) -> bool {
    ('0' <= c <= '9') || ('a' <= c <= 'f')
}

/// Whether `text` has the shape of an identifier: 36 characters, hyphens at
/// the positions 8, 13, 18 and 23, and lower-case hexadecimal digits elsewhere.
pub open spec fn identifier_shaped(text: Text) -> bool {
    &&& text.len() == 36
    &&& forall|i: int|
        0 <= i < 36 ==> if i == 8 || i == 13 || i == 18 || i == 23 {
            #[trigger] text[i] == '-'
        } else {
            is_hex_digit(text[i])
        }
}

/// Builds a version 1 UUID and writes it out in its hyphenated lower-case form.
///
/// The calls are `ContextV1::new`, `Timestamp::from_unix`, `Uuid::new_v1` and
/// the `Display` of `Uuid`. A context that was just made from `sequence` hands
/// that counter to the timestamp, so the text depends on the four arguments
/// alone. Its shape is that of every hyphenated UUID.
#[verifier::external_body]
fn v1_text(sequence: u16, seconds: u64, subsec_nanos: u32, node: &[u8; 6]) -> (text: String)
    ensures
        text@ == uuid_v1_text(sequence, seconds, subsec_nanos, node@),
        identifier_shaped(text@),
{
    let context = uuid::ContextV1::new(sequence);
    let timestamp = uuid::Timestamp::from_unix(&context, seconds, subsec_nanos);
    uuid::Uuid::new_v1(timestamp, node).to_string()
}

/// The clock sequence counter that follows `sequence`: one more, and zero
/// after the largest.
pub open spec fn sequence_after(sequence: u16) -> u16 {
    if sequence == u16::MAX {
        0
    } else {
        (sequence + 1) as u16
    }
}

/// The clock sequence counter that a generator starts from at `time`: the
/// low sixteen bits of the reading.
pub open spec fn sequence_seed(time: u64) -> u16 {
    (time % 0x1_0000) as u16
}

/// The identifier drawn at `time` with the counter at `sequence`. The reading
/// serves as the seconds, and its low thirty-two bits as the nanoseconds.
pub open spec fn identifier_at(sequence: u16, time: u64, node: Seq<u8>) -> Text {
    uuid_v1_text(sequence, time, (time % 0x1_0000_0000) as u32, node)
}

/// A source of identifiers for one caller.
///
/// It holds the clock sequence counter, which moves on by one with every
/// identifier drawn and starts again from zero after the largest, as the
/// counter of one `ContextV1` behind all the draws would. Two draws at the
/// same clock reading so differ in their clock sequence.
pub struct IdGenerator {
    sequence: u16,
    node: [u8; 6],
}

impl IdGenerator {
    /// The clock sequence counter of the next identifier.
    pub closed spec fn sequence(&self) -> u16 {
        self.sequence
    }

    /// The node bytes of every identifier drawn.
    pub closed spec fn node(&self) -> Seq<u8> {
        self.node@
    }

    /// A generator for the caller `node_id`, seeded from the clock reading
    /// `time`. Only the first six bytes of the identity are used.
    pub fn new(time: u64, node_id: &[u8]) -> (generator: IdGenerator)
        requires
            node_id.len() >= NODE_BYTES,
        ensures
            generator.sequence() == sequence_seed(time),
            generator.node() == node_id@.subrange(0, NODE_BYTES as int),
    {
        let node: [u8; 6] = [
            node_id[0],
            node_id[1],
            node_id[2],
            node_id[3],
            node_id[4],
            node_id[5],
        ];
        IdGenerator { sequence: (time % 0x1_0000) as u16, node }
    }

    /// Draws the next identifier at the clock reading `time`, and moves the
    /// clock sequence counter on.
    pub fn next_id(&mut self, time: u64) -> (id: String)
        ensures
            id@ == identifier_at(old(self).sequence(), time, old(self).node()),
            identifier_shaped(id@),
            final(self).sequence() == sequence_after(old(self).sequence()),
            final(self).node() == old(self).node(),
    {
        let id = v1_text(self.sequence, time, (time % 0x1_0000_0000) as u32, &self.node);
        self.sequence = if self.sequence == u16::MAX {
            0
        } else {
            self.sequence + 1
        };
        id
    }
}

} // verus!
