//! Feeding a content hash: the streaming hasher `xxhash_rust::xxh3::Xxh3` and
//! the framing of what is fed to it.

use vstd::prelude::*;
use vstd::string::*;
use vstd::utf8::encode_utf8;
use xxhash_rust::xxh3::Xxh3;

verus! {

/// `xxhash_rust::xxh3::Xxh3`, the state of a streaming hash. Opaque here.
#[verifier::external_type_specification]
#[verifier::external_body]
pub struct ExXxh3(Xxh3);

/// The bytes that a hasher has been given since it was made, in the order in
/// which they came. Its digest is a function of its seed and of these bytes,
/// however they were cut into calls.
pub uninterp spec fn absorbed(hasher: Xxh3) -> Seq<u8>;

/// Calls `Xxh3::update`. Trusted: the hasher takes `bytes` in after what it had
/// taken in before, and nothing else about it changes.
#[verifier::external_body]
pub(crate) fn feed(hasher: &mut Xxh3, bytes: &[u8])
    ensures
        absorbed(*final(hasher)) == absorbed(*old(hasher)) + bytes@,
{
    hasher.update(bytes);
}

/// The 64-bit XXH3 hash of `input`, with the default seed and secret: what
/// `xxhash_rust::xxh3::xxh3_64` computes.
pub uninterp spec fn xxh3_64_of(input: Seq<u8>) -> u64;

/// Calls `xxhash_rust::xxh3::xxh3_64`. Trusted: the result is the XXH3 hash of
/// the bytes given, a function of these bytes alone.
#[verifier::external_body]
pub(crate) fn xxh3_64_digest(input: &[u8]) -> (digest: u64)
    ensures
        digest == xxh3_64_of(input@),
{
    xxhash_rust::xxh3::xxh3_64(input)
}

/// A text as it is fed to a hash: its UTF-8 bytes, closed by `0xff`, a byte
/// that no UTF-8 text holds.
pub open spec fn framed_text(text: Seq<char>) -> Seq<u8> {
    encode_utf8(text).push(0xffu8)
}

/// The eight bytes that say whether an optional value is there: the number
/// one or zero, lowest byte first.
pub open spec fn presence_tag(present: bool) -> Seq<u8> {
    seq![if present { 1u8 } else { 0u8 }, 0u8, 0u8, 0u8, 0u8, 0u8, 0u8, 0u8]
}

/// An optional text as it is fed to a hash: the tag, then the framed text
/// where there is one.
pub open spec fn framed_optional_text(text: Option<Seq<char>>) -> Seq<u8> {
    match text {
        Some(t) => presence_tag(true) + framed_text(t),
        None => presence_tag(false),
    }
}

/// Appends the frame of `text` to `buffer`.
pub fn push_framed_text(buffer: &mut Vec<u8>, text: &str)
    ensures
        final(buffer)@ == old(buffer)@ + framed_text(text@),
{
    let ghost before = buffer@;
    buffer.extend_from_slice(text.as_bytes());
    buffer.push(0xffu8);
    proof {
        assert(buffer@ =~= before + framed_text(text@));
    }
}

/// Appends the tag for `present` to `buffer`.
fn push_presence_tag(buffer: &mut Vec<u8>, present: bool)
    ensures
        final(buffer)@ == old(buffer)@ + presence_tag(present),
{
    let ghost before = buffer@;
    buffer.push(if present { 1u8 } else { 0u8 });
    let mut i: usize = 1;
    while i < 8
        invariant
            1 <= i <= 8,
            buffer@.len() == before.len() + i,
            forall|j: int| 0 <= j < before.len() ==> buffer@[j] == before[j],
            buffer@[before.len() as int] == if present { 1u8 } else { 0u8 },
            forall|j: int| before.len() < j < buffer@.len() ==> buffer@[j] == 0u8,
        decreases 8 - i,
    {
        buffer.push(0u8);
        i = i + 1;
    }
    proof {
        assert(buffer@ =~= before + presence_tag(present));
    }
}

/// Appends the frame of the optional `text` to `buffer`.
pub fn push_framed_optional_text(buffer: &mut Vec<u8>, text: &Option<String>)
    ensures
        final(buffer)@ == old(buffer)@ + framed_optional_text(
            match *text {
                Some(t) => Some(t@),
                None => None,
            },
        ),
{
    let ghost before = buffer@;
    match text {
        Some(t) => {
            push_presence_tag(buffer, true);
            push_framed_text(buffer, t.as_str());
            proof {
                assert(buffer@ =~= before + (presence_tag(true) + framed_text(t@)));
            }
        },
        None => {
            push_presence_tag(buffer, false);
        },
    }
}

} // verus!
