//! The record of the RSA decryptions made with the client's key.
use vstd::prelude::*;

verus! {

/// The RSA decryptions made with a key, in order: each ciphertext handed to PKCS#1 v1.5
/// decryption and the plaintext it gave (`None` when it failed). Only the decryption call
/// adds to it; a new record is empty.
pub struct RsaDecryptions {
    tried: Ghost<Seq<(Seq<u8>, Option<Seq<u8>>)>>,
}

impl RsaDecryptions {
    pub closed spec fn tried(&self) -> Seq<(Seq<u8>, Option<Seq<u8>>)> {
        self.tried@
    }

    /// A record of no decryption.
    pub fn new() -> (r: Self)
        ensures
            r.tried().len() == 0,
    {
        RsaDecryptions { tried: Ghost(Seq::empty()) }
    }
}

} // verus!
