//! The calls this library makes into code it does not verify. Each item states
//! what is taken on trust of the function it names.

use futures_channel::mpsc::{UnboundedReceiver, UnboundedSender};
use std::collections::hash_map::DefaultHasher;
use std::hash::Hash;
use vstd::prelude::*;
use vstd::utf8::{decode_utf8, valid_utf8};
use x25519_dalek::{EphemeralSecret, PublicKey};

verus! {

/// The sending end of an unbounded channel of `futures_channel::mpsc`.
#[verifier::external_type_specification]
#[verifier::external_body]
#[verifier::reject_recursive_types(T)]
pub struct ExUnboundedSender<T>(UnboundedSender<T>);

/// The receiving end of an unbounded channel of `futures_channel::mpsc`.
#[verifier::external_type_specification]
#[verifier::external_body]
#[verifier::reject_recursive_types(T)]
pub struct ExUnboundedReceiver<T>(UnboundedReceiver<T>);

/// `futures_channel::mpsc::unbounded`: a new channel, as its two ends.
#[verifier::external_body]
pub(crate) fn new_channel<T>() -> (ends: (UnboundedSender<T>, UnboundedReceiver<T>)) {
    futures_channel::mpsc::unbounded()
}

/// `Clone::clone` of an `UnboundedSender`: another sending end of the same
/// channel. Nothing is claimed of it.
pub assume_specification<T>[ <UnboundedSender<T> as Clone>::clone ](
    sink: &UnboundedSender<T>,
) -> UnboundedSender<T>
;

/// `UnboundedSender::unbounded_send`: queues the item unless the receiving end
/// has closed the channel, and says which. Nothing is promised of the answer:
/// it depends on what the receiver has done. The call does not block; it stops
/// the process once the queue holds more items than its counter can count.
#[verifier::external_body]
pub(crate) fn channel_send<T>(sink: &UnboundedSender<T>, item: T) -> (sent: bool) {
    sink.unbounded_send(item).is_ok()
}

/// `chrono::Utc::now()` followed by `DateTime::timestamp_millis()`: the system
/// clock in milliseconds since the Unix epoch. `Utc::now` takes the time elapsed
/// since the epoch, so the value is never negative; it stops the process if the
/// system clock stands before the epoch.
#[verifier::external_body]
pub(crate) fn clock_millis() -> (millis: i64)
    ensures
        millis >= 0,
{
    chrono::Utc::now().timestamp_millis()
}

/// A one-time X25519 secret key of `x25519_dalek`.
#[verifier::external_type_specification]
#[verifier::external_body]
pub struct ExEphemeralSecret(EphemeralSecret);

/// `EphemeralSecret::diffie_hellman`, with the other side's key made by
/// `PublicKey::from` of its 32 bytes and the result taken by
/// `SharedSecret::to_bytes`: the key that both sides of the exchange arrive at.
/// The secret is used up.
#[verifier::external_body]
pub(crate) fn diffie_hellman(
    secret: EphemeralSecret,
    their_public: [u8; 32],
) -> (shared: [u8; 32]) {
    secret.diffie_hellman(&PublicKey::from(their_public)).to_bytes()
}

/// The bits of a version-4 identifier that are not random: the version, 4, and
/// the variant, binary 10.
pub open spec fn is_random_uuid(bits: u128) -> bool {
    bits & 0x0000_0000_0000_f000_c000_0000_0000_0000 == 0x0000_0000_0000_4000_8000_0000_0000_0000
}

/// `Uuid::new_v4` followed by `Uuid::as_u128`: a random identifier as a
/// number. The version and variant fields are set as version 4 demands; the
/// other 122 bits are random. The call stops the process if the system has no
/// random bytes to give.
#[verifier::external_body]
pub(crate) fn fresh_uuid() -> (bits: u128)
    ensures
        is_random_uuid(bits),
{
    uuid::Uuid::new_v4().as_u128()
}

/// `String::from_utf8`: the text whose UTF-8 form the bytes are, or nothing
/// where the bytes are not UTF-8.
#[verifier::external_body]
pub(crate) fn text_from_utf8(bytes: Vec<u8>) -> (text: Option<String>)
    ensures
        match text {
            Some(t) => valid_utf8(bytes@) && t@ == decode_utf8(bytes@),
            None => !valid_utf8(bytes@),
        },
{
    String::from_utf8(bytes).ok()
}

/// What `<String as Hash>::hash` writes into a hasher for a text, as the
/// sequence of its writes.
pub uninterp spec fn hashed_writes(text: Seq<char>) -> Seq<Seq<u8>>;

/// `<String as Hash>::hash`: feeds the text to the hasher. What is written
/// depends on the text alone.
#[verifier::external_body]
pub(crate) fn hash_text(text: &String, state: &mut DefaultHasher)
    ensures
        final(state)@ == old(state)@ + hashed_writes(text@),
{
    text.hash(state)
}

} // verus!
