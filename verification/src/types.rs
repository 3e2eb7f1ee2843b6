//! Plain value types shared by the whole library.
//!
//! The protocol works with 64-bit slot and epoch counters, 32-byte roots and
//! 48-byte BLS public keys. The logic in this library only ever compares
//! roots and keys for equality and orders slots and epochs, so a root and a
//! key are each modelled by the 64-bit value that identifies them; the
//! conversion to and from the wire encodings lives outside the verified
//! library.

use vstd::prelude::*;

verus! {

/// A block slot number.
#[derive(Clone, Copy, Debug, PartialEq, Eq, Structural)]
pub struct Slot(pub u64);

impl Slot {
    pub fn new(slot: u64) -> (s: Slot)
        ensures
            s.0 == slot,
    {
        Slot(slot)
    }

    pub fn as_u64(&self) -> (n: u64)
        ensures
            n == self.0,
    {
        self.0
    }

    /// The epoch a slot belongs to: slots are grouped into epochs of
    /// `slots_per_epoch` consecutive slots.
    pub fn epoch(&self, slots_per_epoch: u64) -> (e: Epoch)
        requires
            slots_per_epoch > 0,
        ensures
            e.0 == self.0 / slots_per_epoch,
    {
        Epoch(self.0 / slots_per_epoch)
    }
}

/// An attestation epoch number.
#[derive(Clone, Copy, Debug, PartialEq, Eq, Structural)]
pub struct Epoch(pub u64);

impl Epoch {
    pub fn new(epoch: u64) -> (e: Epoch)
        ensures
            e.0 == epoch,
    {
        Epoch(epoch)
    }

    pub fn as_u64(&self) -> (n: u64)
        ensures
            n == self.0,
    {
        self.0
    }
}

/// A 32-byte root (a signing root, or the genesis validators root),
/// identified by its distinguishing 64-bit value.
#[derive(Clone, Copy, Debug, PartialEq, Eq, Structural)]
pub struct Hash256(pub u64);

impl Hash256 {
    /// The root whose low eight bytes hold `n` in big-endian order.
    pub fn from_low_u64_be(n: u64) -> (h: Hash256)
        ensures
            h.0 == n,
    {
        Hash256(n)
    }
}

/// A validator's BLS public key: the stable identity under which all
/// signing history is recorded.
#[derive(Clone, Copy, Debug, PartialEq, Eq, Structural)]
pub struct PublicKey(pub u64);

/// A validator's BLS secret key. In this model a key pair is identified by
/// one value: the public key of a secret key is the same identifier.
#[derive(Clone, Copy, Debug, PartialEq, Eq, Structural)]
pub struct SecretKey(pub u64);

impl SecretKey {
    /// The public key belonging to this secret key.
    pub fn public_key(&self) -> (pk: PublicKey)
        ensures
            pk.0 == self.0,
    {
        PublicKey(self.0)
    }
}

/// An index of a committee within a slot.
pub type CommitteeIndex = u64;

} // verus!
