//! Gossip messages: thirty-two random bytes, written in Base58.

use vstd::prelude::*;
use crate::lines::{format_addresses, quoted_list, sending, spec_sending};
use crate::manager::MESSAGE_LIMIT;
use crate::table::{finalized_of, PeerTable};

verus! {

/// The generator that the random bytes of a message are drawn from.
#[verifier::external_type_specification]
#[verifier::external_body]
pub struct ExMcg128Xsl64(rand_pcg::Mcg128Xsl64);

/// How many random bytes a message is made of.
pub const MESSAGE_ENTROPY: usize = 32;

/// The Base58 text of a byte string, in the Bitcoin alphabet.
pub uninterp spec fn base58(input: Seq<u8>) -> Seq<u8>;

/// Calls `RngCore::fill_bytes` of the generator on a block of thirty-two
/// bytes. Nothing is claimed of the bytes that come out.
#[verifier::external_body]
fn random_block(rng: &mut rand_pcg::Mcg128Xsl64) -> (block: [u8; 32]) {
    let mut block = [0u8; 32];
    rand::RngCore::fill_bytes(rng, &mut block);
    block
}

/// Calls `bs58::encode` on `input` and takes the text with `into_string`.
/// The text depends on the input alone. The encoder works in a buffer of one
/// and a half times the input's length, rounded up, so the text is no longer
/// than that.
#[verifier::external_body]
fn base58_encode(input: &[u8]) -> (v: Vec<u8>)
    ensures
        v@ == base58(input@),
        v@.len() <= input@.len() + (input@.len() + 1) / 2,
{
    bs58::encode(input).into_string().into_bytes()
}

/// The message that is made of the given random bytes.
pub fn encode_message(block: &[u8; 32]) -> (message: Vec<u8>)
    ensures
        message@ == base58(block@),
        message@.len() <= MESSAGE_LIMIT,
{
    base58_encode(block.as_slice())
}

/// Draws thirty-two bytes from `rng` and returns them as a message. Whatever
/// the bytes are, a receiver can read the message whole.
pub fn generate_random_message(rng: &mut rand_pcg::Mcg128Xsl64) -> (message: Vec<u8>)
    ensures
        exists|block: Seq<u8>| block.len() == MESSAGE_ENTROPY && message@ == base58(block),
        message@.len() <= MESSAGE_LIMIT,
{
    let block = random_block(rng);
    encode_message(&block)
}

/// What one tick of the gossip loop sends.
#[derive(Debug, PartialEq, Eq)]
pub struct Gossip {
    /// The message to publish on the broadcast bus.
    pub message: Vec<u8>,
    /// The line to log before publishing.
    pub line: Vec<u8>,
}

/// The line that announces `message` to the finalized peers, or nothing when
/// no peer is finalized.
pub fn announce(peers: &PeerTable, message: &[u8]) -> (line: Option<Vec<u8>>)
    ensures
        finalized_of(peers@).len() == 0 ==> line is None,
        finalized_of(peers@).len() > 0 ==> line is Some && line->Some_0@ == spec_sending(
            message@,
            quoted_list(finalized_of(peers@)),
        ),
{
    let finalized = peers.snapshot_finalized();
    if finalized.len() == 0 {
        None
    } else {
        let formatted = format_addresses(finalized.as_slice());
        Some(sending(message, formatted.as_slice()))
    }
}

/// One tick of the gossip loop. With no finalized peer the tick is skipped
/// and nothing is drawn from `rng`; otherwise a fresh random message is to be
/// logged and published.
pub fn gossip_tick(peers: &PeerTable, rng: &mut rand_pcg::Mcg128Xsl64) -> (g: Option<Gossip>)
    ensures
        finalized_of(peers@).len() == 0 ==> g is None && *final(rng) == *old(rng),
        finalized_of(peers@).len() > 0 ==> g is Some && (exists|block: Seq<u8>|
            block.len() == MESSAGE_ENTROPY && g->Some_0.message@ == base58(block))
            && g->Some_0.message@.len() <= MESSAGE_LIMIT && g->Some_0.line@ == spec_sending(
            g->Some_0.message@,
            quoted_list(finalized_of(peers@)),
        ),
{
    let finalized = peers.snapshot_finalized();
    if finalized.len() == 0 {
        return None;
    }
    let message = generate_random_message(rng);
    let formatted = format_addresses(finalized.as_slice());
    let line = sending(message.as_slice(), formatted.as_slice());
    Some(Gossip { message, line })
}

} // verus!
