use vstd::prelude::*;
use vstd::string::StringExecFns;
use vstd::string::StringSliceAdditionalSpecFns;
use vstd::utf8::{encode_utf8, is_ascii_chars};

verus! {

/// The hashid that the `harsh` crate produces for `values`, with its default
/// alphabet, the salt `salt` and the minimum length `length`.
pub uninterp spec fn hashid_encode(salt: Seq<char>, length: nat, values: Seq<u64>) -> Seq<char>;

/// The values that the `harsh` crate decodes from the hashid `hash`, with
/// its default alphabet, the salt `salt` and the minimum length `length`;
/// `None` where it reports an error.
pub uninterp spec fn hashid_decode(salt: Seq<char>, length: nat, hash: Seq<char>) -> Option<
    Seq<u64>,
>;

/// The largest minimum hash length `harsh` is used with here. `encode` pads
/// short hashes and measures the excess in `i32`, with up to 44 characters
/// more than the minimum length.
pub const MAX_HASH_LENGTH: usize = 2147483583;

/// The longest hash, in bytes, that is decoded at all.
pub const MAX_DECODED_HASH_BYTES: usize = 12;

/// `44^11`: ids below it have at most 11 digits in harsh's 44-letter
/// alphabet, so their hashes (with a minimum length of at most 12) are at
/// most 12 bytes long and decode again.
pub const ROUND_TRIP_ID_LIMIT: u64 = 1196683881290399744;

/// Calls `harsh::HarshBuilder::{new, salt, length, build}` and then
/// `harsh::Harsh::encode` on the single value `id`.
/// Claims, from harsh's source: the result is `hashid_encode` of the
/// configuration and `[id]`; `decode` gives `[id]` back (decode inverts the
/// digits and accepts a hash only if it re-encodes to it); the result is
/// ASCII (all of harsh's alphabets are); and it is the lottery letter and
/// the base-44 digits of `id`, padded up to the minimum length, so at most
/// 12 characters when both `id < 44^11` and `length <= 12`.
/// `build` only fails for a caller-given alphabet, so with the default
/// alphabet the error arm is never taken. `requires`: larger lengths
/// overflow `encode`'s `i32` arithmetic.
#[verifier::external_body]
fn harsh_encode(salt: &str, length: usize, id: u64) -> (r: String)
    requires
        length <= MAX_HASH_LENGTH,
    ensures
        r@ == hashid_encode(salt@, length as nat, seq![id]),
        hashid_decode(salt@, length as nat, r@) == Some(seq![id]),
        is_ascii_chars(r@),
        length <= MAX_DECODED_HASH_BYTES && id < ROUND_TRIP_ID_LIMIT ==> r@.len()
            <= MAX_DECODED_HASH_BYTES,
{
    match harsh::HarshBuilder::new().salt(salt).length(length).build() {
        Ok(h) => h.encode(&[id]),
        Err(_) => String::new(),
    }
}

/// Calls `harsh::HarshBuilder::{new, salt, length, build}` and then
/// `harsh::Harsh::decode` on `hash`, keeping the values of an `Ok`.
/// Claims that the result is `hashid_decode` of the configuration and the
/// input, and that a successful decode re-encodes to the input: the source
/// of `decode` returns `Ok` only after checking exactly that.
/// `requires`: `decode` sums digit values in `u64` without a check; at most
/// 12 bytes of input (11 digits in an alphabet of 44) cannot overflow it;
/// and `decode` re-encodes, with the length bound of `harsh_encode`.
#[verifier::external_body]
fn harsh_decode(salt: &str, length: usize, hash: &str) -> (r: Option<Vec<u64>>)
    requires
        length <= MAX_HASH_LENGTH,
        hash.spec_bytes().len() <= MAX_DECODED_HASH_BYTES,
    ensures
        match r {
            Some(v) => hashid_decode(salt@, length as nat, hash@) == Some(v@),
            None => hashid_decode(salt@, length as nat, hash@) is None,
        },
        r matches Some(v) ==> hashid_encode(salt@, length as nat, v@) == hash@,
{
    match harsh::HarshBuilder::new().salt(salt).length(length).build() {
        Ok(h) => h.decode(hash).ok(),
        Err(_) => None,
    }
}

/// The match id that decoded values name: the value when there is exactly
/// one.
pub open spec fn spec_single_id(decoded: Option<Seq<u64>>) -> Option<u64> {
    match decoded {
        Some(v) => if v.len() == 1 {
            Some(v[0])
        } else {
            None
        },
        None => None,
    }
}

/// The match id that decoded values name: the value when there is exactly
/// one.
pub fn single_id(decoded: Option<Vec<u64>>) -> (r: Option<u64>)
    ensures
        r == spec_single_id(match decoded {
            Some(v) => Some(v@),
            None => None,
        }),
{
    match decoded {
        Some(ids) => {
            if ids.len() == 1 {
                Some(ids[0])
            } else {
                None
            }
        },
        None => None,
    }
}

/// The match id that `hash` names: the single value it decodes to, if it is
/// at most `MAX_DECODED_HASH_BYTES` bytes long.
pub open spec fn spec_decode_id(salt: Seq<char>, length: nat, hash: Seq<char>) -> Option<u64> {
    if encode_utf8(hash).len() > MAX_DECODED_HASH_BYTES {
        None
    } else {
        spec_single_id(hashid_decode(salt, length, hash))
    }
}

/// Turns match ids into short public hashes and back.
#[derive(Debug)]
pub struct MatchIDHasher {
    salt: String,
    length: usize,
}

impl MatchIDHasher {
    #[verifier::type_invariant]
    closed spec fn length_in_range(self) -> bool {
        self.length <= MAX_HASH_LENGTH
    }

    /// The salt the hashes are made with.
    pub closed spec fn salt_view(&self) -> Seq<char> {
        self.salt@
    }

    /// The minimum length of the hashes.
    pub closed spec fn length_view(&self) -> nat {
        self.length as nat
    }

    /// The hash of `id` under this hasher.
    pub open spec fn spec_encode(&self, id: u64) -> Seq<char> {
        hashid_encode(self.salt_view(), self.length_view(), seq![id])
    }

    /// The id that `hash` names under this hasher.
    pub open spec fn spec_decode(&self, hash: Seq<char>) -> Option<u64> {
        spec_decode_id(self.salt_view(), self.length_view(), hash)
    }

    /// A hasher with this salt and minimum hash length.
    pub fn new(salt: &str, length: usize) -> (r: Self)
        requires
            length <= MAX_HASH_LENGTH,
        ensures
            r.salt_view() == salt@,
            r.length_view() == length,
    {
        MatchIDHasher { salt: String::from_str(salt), length }
    }

    /// The public hash of a match id; `harsh` decodes it to the id again,
    /// so different ids get different hashes. With a minimum length of at
    /// most 12, every id below `ROUND_TRIP_ID_LIMIT` is found again from its
    /// hash by `decode`.
    pub fn encode(&self, id: u64) -> (r: String)
        ensures
            r@ == self.spec_encode(id),
            hashid_decode(self.salt_view(), self.length_view(), r@) == Some(seq![id]),
            self.length_view() <= MAX_DECODED_HASH_BYTES && id < ROUND_TRIP_ID_LIMIT
                ==> self.spec_decode(r@) == Some(id),
    {
        proof {
            use_type_invariant(self);
        }
        let r = harsh_encode(self.salt.as_str(), self.length, id);
        proof {
            vstd::utf8::is_ascii_chars_encode_utf8(r@);
        }
        r
    }

    /// The match id that `hash` names, if it names one. Hashes longer than
    /// `MAX_DECODED_HASH_BYTES` bytes are not decoded: they are the hashes
    /// of ids of at least `ROUND_TRIP_ID_LIMIT` or of a minimum length
    /// above 12.
    pub fn decode(&self, hash: &str) -> (r: Option<u64>)
        ensures
            r == self.spec_decode(hash@),
            r matches Some(id) ==> self.spec_encode(id) == hash@,
    {
        proof {
            use_type_invariant(self);
        }
        if hash.as_bytes().len() > MAX_DECODED_HASH_BYTES {
            return None;
        }
        let decoded = harsh_decode(self.salt.as_str(), self.length, hash);
        proof {
            if let Some(ref v) = decoded {
                if v@.len() == 1 {
                    assert(v@ =~= seq![v@[0]]);
                }
            }
        }
        single_id(decoded)
    }
}

impl Default for MatchIDHasher {
    fn default() -> (r: Self)
        ensures
            r.salt_view() == "tak.garden"@,
            r.length_view() == 6,
    {
        MatchIDHasher::new("tak.garden", 6)
    }
}

} // verus!
