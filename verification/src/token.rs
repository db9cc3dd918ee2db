//! Asset identifiers and their well-formedness rule.
//!
//! An asset identifier is a byte string of the shape `TICKER-rrrrrr`: a
//! ticker of 3 to 10 uppercase alphanumeric bytes, a dash, and 6 lowercase
//! alphanumeric bytes. The administrative setters accept only well-formed
//! identifiers.

use vstd::prelude::*;

verus! {

/// The byte `'A'`.
pub const UPPER_A: u8 = 65;

/// The byte `'Z'`.
pub const UPPER_Z: u8 = 90;

/// The byte `'a'`.
pub const LOWER_A: u8 = 97;

/// The byte `'z'`.
pub const LOWER_Z: u8 = 122;

/// The byte `'0'`.
pub const DIGIT_0: u8 = 48;

/// The byte `'9'`.
pub const DIGIT_9: u8 = 57;

/// The byte `'-'`.
pub const DASH: u8 = 45;

/// An uppercase letter or a digit, as allowed in a ticker.
pub open spec fn is_ticker_char(c: u8) -> bool {
    (UPPER_A <= c && c <= UPPER_Z) || (DIGIT_0 <= c && c <= DIGIT_9)
}

/// A lowercase letter or a digit, as allowed in the random suffix.
pub open spec fn is_random_char(c: u8) -> bool {
    (LOWER_A <= c && c <= LOWER_Z) || (DIGIT_0 <= c && c <= DIGIT_9)
}

/// A well-formed asset identifier: `TICKER-rrrrrr`, with a ticker of 3 to 10
/// uppercase alphanumeric bytes and a random suffix of exactly 6 lowercase
/// alphanumeric bytes.
pub open spec fn valid_asset_id(s: Seq<u8>) -> bool {
    &&& 10 <= s.len() <= 17
    &&& forall|i: int| 0 <= i < s.len() - 7 ==> is_ticker_char(#[trigger] s[i])
    &&& s[s.len() - 7] == DASH
    &&& forall|i: int| s.len() - 6 <= i < s.len() ==> is_random_char(#[trigger] s[i])
}

/// An opaque identifier for a fungible asset type, compared by value.
pub struct TokenId {
    bytes: Vec<u8>,
}

impl View for TokenId {
    type V = Seq<u8>;

    closed spec fn view(&self) -> Seq<u8> {
        self.bytes@
    }
}

impl TokenId {
    /// Wraps raw identifier bytes; no well-formedness is demanded here, the
    /// administrative setters check it.
    pub fn new(bytes: Vec<u8>) -> (r: TokenId)
        ensures
            r@ == bytes@,
    {
        TokenId { bytes }
    }

    /// The raw identifier bytes.
    pub fn as_bytes(&self) -> (r: &Vec<u8>)
        ensures
            r@ == self@,
    {
        &self.bytes
    }

    /// Whether two identifiers denote the same asset.
    pub fn same_id(&self, other: &TokenId) -> (r: bool)
        ensures
            r == (self@ == other@),
    {
        if self.bytes.len() != other.bytes.len() {
            return false;
        }
        let n = self.bytes.len();
        let mut i: usize = 0;
        while i < n
            invariant
                n == self.bytes.len(),
                n == other.bytes.len(),
                i <= n,
                forall|j: int| 0 <= j < i ==> self.bytes@[j] == other.bytes@[j],
            decreases n - i,
        {
            if self.bytes[i] != other.bytes[i] {
                return false;
            }
            i += 1;
        }
        proof {
            assert(self@ =~= other@);
        }
        true
    }

    /// Whether the identifier is well-formed, byte for byte.
    pub fn is_valid_esdt_identifier(&self) -> (r: bool)
        ensures
            r == valid_asset_id(self@),
    {
        let n = self.bytes.len();
        if n < 10 || n > 17 {
            return false;
        }
        let ticker_len = n - 7;
        let mut i: usize = 0;
        while i < ticker_len
            invariant
                n == self.bytes.len(),
                10 <= n <= 17,
                ticker_len == n - 7,
                i <= ticker_len,
                forall|j: int| 0 <= j < i ==> is_ticker_char(#[trigger] self.bytes@[j]),
            decreases ticker_len - i,
        {
            let c = self.bytes[i];
            if !((UPPER_A <= c && c <= UPPER_Z) || (DIGIT_0 <= c && c <= DIGIT_9)) {
                return false;
            }
            i += 1;
        }
        if self.bytes[ticker_len] != DASH {
            return false;
        }
        let mut k: usize = n - 6;
        while k < n
            invariant
                n == self.bytes.len(),
                10 <= n <= 17,
                ticker_len == n - 7,
                self.bytes@[ticker_len as int] == DASH,
                forall|j: int| 0 <= j < ticker_len ==> is_ticker_char(#[trigger] self.bytes@[j]),
                n - 6 <= k <= n,
                forall|j: int| n - 6 <= j < k ==> is_random_char(#[trigger] self.bytes@[j]),
            decreases n - k,
        {
            let c = self.bytes[k];
            if !((LOWER_A <= c && c <= LOWER_Z) || (DIGIT_0 <= c && c <= DIGIT_9)) {
                return false;
            }
            k += 1;
        }
        true
    }
}

} // verus!
