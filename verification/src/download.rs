//! The bytes of a download, never more than the cap.

use crate::text::{chars_of, digit_value, lemma_value_of_prefix, number_of, value_of};
use vstd::prelude::*;

verus! {

/// The most bytes that are kept of one download.
pub const MAX_PAYLOAD: usize = 10_000_000;

/// `body` cut off at the cap: all of it where it is short enough, else its
/// first `MAX_PAYLOAD` bytes.
pub open spec fn capped(body: Seq<u8>) -> Seq<u8> {
    if body.len() <= MAX_PAYLOAD {
        body
    } else {
        body.take(MAX_PAYLOAD as int)
    }
}

/// What is kept is the beginning of the body and as long as the body or
/// the cap, whichever is less.
pub proof fn lemma_capped_prefix(body: Seq<u8>)
    ensures
        capped(body).is_prefix_of(body),
        capped(body).len() == if body.len() <= MAX_PAYLOAD {
            body.len()
        } else {
            MAX_PAYLOAD as nat
        },
{
}

/// Cutting off part by part gives what cutting off the whole gives: the
/// order in which the bytes arrive in chunks does not matter.
pub proof fn lemma_capped_in_parts(first: Seq<u8>, second: Seq<u8>)
    ensures
        capped(capped(first) + second) == capped(first + second),
{
}

/// The length that a header declares: the number that `header` writes in
/// decimal digits, or `usize::MAX` where that number is greater; 0 where
/// there is no header or it holds anything but digits.
pub open spec fn declared(header: Option<Seq<char>>) -> nat {
    match header {
        Some(text) => match number_of(text) {
            Some(length) => if length <= usize::MAX {
                length
            } else {
                usize::MAX as nat
            },
            None => 0,
        },
        None => 0,
    }
}

/// What is declared, by its characters.
pub open spec fn header_view(header: Option<&str>) -> Option<Seq<char>> {
    match header {
        Some(text) => Some(text@),
        None => None,
    }
}

/// How many bytes the answer says its body has, going by the text of its
/// length header. A header that is missing or is no number declares nothing,
/// which counts as 0; the body is read all the same.
pub fn declared_length(header: Option<&str>) -> (length: usize)
    ensures
        length == declared(header_view(header)),
{
    let text = match header {
        Some(text) => text,
        None => {
            return 0;
        },
    };
    let chars = chars_of(text);
    if chars.len() == 0 {
        return 0;
    }
    let mut length: usize = 0;
    let mut i: usize = 0;
    while i < chars.len()
        invariant
            header == Some(text),
            chars@ == text@,
            chars.len() > 0,
            i <= chars.len(),
            value_of(chars@.take(i as int)) matches Some(value) && length == if value
                <= usize::MAX {
                value
            } else {
                usize::MAX as nat
            },
        decreases chars.len() - i,
    {
        assert(chars@.take(i + 1).drop_last() =~= chars@.take(i as int));
        assert(chars@.take(i + 1).last() == chars@[i as int]);
        match digit_value(chars[i]) {
            Some(digit) => {
                length = if length > (usize::MAX - digit) / 10 {
                    usize::MAX
                } else {
                    length * 10 + digit
                };
            },
            None => {
                proof {
                    lemma_value_of_prefix(chars@, i + 1);
                }
                return 0;
            },
        }
        i += 1;
    }
    assert(chars@.take(chars.len() as int) =~= chars@);
    length
}

/// The bytes kept of one download: what has arrived, cut off at the cap.
pub struct Payload {
    bytes: Vec<u8>,
}

impl View for Payload {
    type V = Seq<u8>;

    closed spec fn view(&self) -> Seq<u8> {
        self.bytes@
    }
}

impl Payload {
    #[verifier::type_invariant]
    spec fn within_cap(self) -> bool {
        self.bytes@.len() <= MAX_PAYLOAD
    }

    /// A payload of which nothing has arrived.
    pub fn new() -> (payload: Self)
        ensures
            payload@ == Seq::<u8>::empty(),
    {
        Payload { bytes: Vec::new() }
    }

    /// A payload of which nothing has arrived, with room set aside for the
    /// `expected` bytes of the body, though never for more than the cap.
    pub fn with_capacity(expected: usize) -> (payload: Self)
        ensures
            payload@ == Seq::<u8>::empty(),
    {
        let room = if expected < MAX_PAYLOAD {
            expected
        } else {
            MAX_PAYLOAD
        };
        Payload { bytes: Vec::with_capacity(room) }
    }

    /// How many bytes are kept.
    pub fn len(&self) -> (len: usize)
        ensures
            len == self@.len(),
            len <= MAX_PAYLOAD,
    {
        proof {
            use_type_invariant(self);
        }
        self.bytes.len()
    }

    /// Whether the cap is reached, so that nothing more will be kept.
    pub fn is_full(&self) -> (full: bool)
        ensures
            full == (self@.len() == MAX_PAYLOAD),
    {
        self.len() == MAX_PAYLOAD
    }

    /// Takes in the next chunk of the body: as many of its bytes as the cap
    /// leaves room for are kept, the rest is dropped without complaint.
    pub fn accept(self, chunk: &[u8]) -> (grown: Self)
        ensures
            grown@ == capped(self@ + chunk@),
    {
        proof {
            use_type_invariant(&self);
        }
        let mut bytes = self.bytes;
        let ghost before = bytes@;
        let room = MAX_PAYLOAD - bytes.len();
        let kept = if chunk.len() < room {
            chunk.len()
        } else {
            room
        };
        let mut i: usize = 0;
        while i < kept
            invariant
                i <= kept,
                kept <= chunk@.len(),
                before.len() + kept <= MAX_PAYLOAD,
                bytes@ == before + chunk@.take(i as int),
            decreases kept - i,
        {
            bytes.push(chunk[i]);
            i += 1;
        }
        Payload { bytes }
    }

    /// Gives up the payload for its bytes.
    pub fn into_bytes(self) -> (bytes: Vec<u8>)
        ensures
            bytes@ == self@,
            bytes@.len() <= MAX_PAYLOAD,
    {
        proof {
            use_type_invariant(&self);
        }
        self.bytes
    }
}

/// Cuts `body` off at the cap.
pub fn cap_payload(body: &[u8]) -> (kept: Vec<u8>)
    ensures
        kept@ == capped(body@),
{
    let payload = Payload::new().accept(body);
    payload.into_bytes()
}

} // verus!
