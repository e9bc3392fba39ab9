//! Cryptographic algorithms.

use vstd::prelude::*;

verus! {

/// Algorithms that authenticate packets.
#[derive(Clone, Copy, Debug, PartialEq, Eq, Structural)]
pub enum CryptoAlgo {
    ClearText,
    Md5,
    HmacSha1,
    HmacSha256,
    HmacSha384,
    HmacSha512,
}

/// The size of the digest of each algorithm, in octets.
#[derive(Clone, Copy, Debug, PartialEq, Eq, Structural)]
pub struct DigestSizes {
    pub clear_text: u8,
    pub md5: u8,
    pub hmac_sha1: u8,
    pub hmac_sha256: u8,
    pub hmac_sha384: u8,
    pub hmac_sha512: u8,
}

impl DigestSizes {
    pub open spec fn of(self, algo: CryptoAlgo) -> u8 {
        match algo {
            CryptoAlgo::ClearText => self.clear_text,
            CryptoAlgo::Md5 => self.md5,
            CryptoAlgo::HmacSha1 => self.hmac_sha1,
            CryptoAlgo::HmacSha256 => self.hmac_sha256,
            CryptoAlgo::HmacSha384 => self.hmac_sha384,
            CryptoAlgo::HmacSha512 => self.hmac_sha512,
        }
    }

    pub fn size(&self, algo: CryptoAlgo) -> (n: u8)
        ensures
            n == self.of(algo),
    {
        match algo {
            CryptoAlgo::ClearText => self.clear_text,
            CryptoAlgo::Md5 => self.md5,
            CryptoAlgo::HmacSha1 => self.hmac_sha1,
            CryptoAlgo::HmacSha256 => self.hmac_sha256,
            CryptoAlgo::HmacSha384 => self.hmac_sha384,
            CryptoAlgo::HmacSha512 => self.hmac_sha512,
        }
    }
}

} // verus!
