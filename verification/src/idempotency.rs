use vstd::prelude::*;
use vstd::string::*;

verus! {

/// Longest token the ledger accepts, counted in characters. Bounding the key
/// bounds the storage a client can claim and keeps the primary key small.
pub const MAX_KEY_LENGTH: usize = 50;

/// Why a raw token was rejected.
#[derive(Clone, Copy, Debug, PartialEq, Eq)]
pub enum KeyError {
    Empty,
    TooLong,
}

/// A client-supplied idempotency token: a non-empty string of at most
/// [`MAX_KEY_LENGTH`] characters. A value of this type never holds an invalid
/// token; construction goes through [`IdempotencyKey::parse`], which fails
/// with a [`KeyError`] instead.
pub struct IdempotencyKey {
    key: String,
}

impl IdempotencyKey {
    /// The token itself, as a sequence of characters.
    pub closed spec fn view(&self) -> Seq<char> {
        self.key@
    }

    /// A token is well formed when it is non-empty and within the length bound.
    pub open spec fn wf(&self) -> bool {
        0 < self@.len() <= MAX_KEY_LENGTH
    }

    /// Validates a raw token. No normalization is applied: the accepted string
    /// is the key, character for character.
    pub fn parse(raw: String) -> (r: Result<IdempotencyKey, KeyError>)
        ensures
            r is Ok <==> 0 < raw@.len() <= MAX_KEY_LENGTH,
            r matches Ok(k) ==> k@ == raw@ && k.wf(),
            r matches Err(e) ==> (e == KeyError::Empty <==> raw@.len() == 0),
            r matches Err(e) ==> (e == KeyError::TooLong <==> raw@.len() > MAX_KEY_LENGTH),
    {
        let n = raw.as_str().unicode_len();
        if n == 0 {
            Err(KeyError::Empty)
        } else if n > MAX_KEY_LENGTH {
            Err(KeyError::TooLong)
        } else {
            Ok(IdempotencyKey { key: raw })
        }
    }

    /// The validated token.
    pub fn as_str(&self) -> (r: &str)
        ensures
            r@ == self@,
    {
        self.key.as_str()
    }
}

impl Clone for IdempotencyKey {
    fn clone(&self) -> (r: Self)
        ensures
            r@ == self@,
    {
        IdempotencyKey { key: self.key.clone() }
    }
}

} // verus!
