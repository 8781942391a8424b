use vstd::prelude::*;
use vstd::utf8::encode_utf8;
use crate::address::Address;
use crate::address::AddressKind;
use crate::error::Error;
use crate::table::Key;
use soroban_sdk::xdr::AccountId;
use soroban_sdk::xdr::PublicKey;
use soroban_sdk::xdr::ScAddress;
use soroban_sdk::xdr::ToXdr;
use soroban_sdk::xdr::Uint256;
use soroban_sdk::Bytes;
use soroban_sdk::Env;
use soroban_sdk::TryFromVal;

verus! {

/// Longest salt or idempotency key, in bytes of UTF-8, that the library
/// hands to the ledger host.
pub const MAX_TEXT_BYTES: usize = 4096;

/// Longest byte string that the library hands to the host's digest.
pub const MAX_PREIMAGE_BYTES: usize = 8192;

/// The bytes that the ledger host serializes an address value to.
pub uninterp spec fn address_xdr(a: Address) -> Seq<u8>;

/// The bytes that the ledger host serializes a signed 128-bit value to.
pub uninterp spec fn amount_xdr(amount: int) -> Seq<u8>;

/// The bytes that the ledger host serializes a string value to.
pub uninterp spec fn text_xdr(text: Seq<char>) -> Seq<u8>;

/// The SHA-256 digest that the ledger host computes of a byte string.
pub uninterp spec fn sha256(data: Seq<u8>) -> Seq<u8>;

/// Calls `soroban_sdk::xdr::ToXdr::to_xdr` on the `soroban_sdk::Address`
/// that has the kind and the 32-byte identifier of `a`. Trusted: the bytes
/// that come back depend on `a` alone; they are named `address_xdr(a)`.
#[verifier::external_body]
fn encode_address(a: &Address) -> (out: Vec<u8>)
    ensures
        out@ == address_xdr(*a),
{
    let env = Env::default();
    let mut key = [0u8; 32];
    key[..16].copy_from_slice(&a.hi.to_be_bytes());
    key[16..].copy_from_slice(&a.lo.to_be_bytes());
    let sc = match a.kind {
        AddressKind::Account => ScAddress::Account(
            AccountId(PublicKey::PublicKeyTypeEd25519(Uint256(key))),
        ),
        AddressKind::Contract => ScAddress::Contract(soroban_sdk::xdr::Hash(key)),
    };
    let bytes = soroban_sdk::Address::try_from_val(&env, &sc).unwrap().to_xdr(&env);
    let mut out = vec![0u8; bytes.len() as usize];
    bytes.copy_into_slice(&mut out);
    out
}

/// Calls `soroban_sdk::xdr::ToXdr::to_xdr` on an `i128`. Trusted: the bytes
/// that come back depend on `amount` alone; they are named
/// `amount_xdr(amount)`.
#[verifier::external_body]
fn encode_amount(amount: i128) -> (out: Vec<u8>)
    ensures
        out@ == amount_xdr(amount as int),
{
    let env = Env::default();
    let bytes = amount.to_xdr(&env);
    let mut out = vec![0u8; bytes.len() as usize];
    bytes.copy_into_slice(&mut out);
    out
}

/// Calls `soroban_sdk::xdr::ToXdr::to_xdr` on the `soroban_sdk::String` made
/// of `text` by `soroban_sdk::String::from_str`. Trusted: the bytes that
/// come back depend on `text` alone; they are named `text_xdr(text@)`. The
/// host meters its work, so the length of `text` is bounded.
#[verifier::external_body]
fn encode_text(text: &String) -> (out: Vec<u8>)
    requires
        encode_utf8(text@).len() <= MAX_TEXT_BYTES,
    ensures
        out@ == text_xdr(text@),
{
    let env = Env::default();
    let bytes = soroban_sdk::String::from_str(&env, text.as_str()).to_xdr(&env);
    let mut out = vec![0u8; bytes.len() as usize];
    bytes.copy_into_slice(&mut out);
    out
}

/// Calls `soroban_sdk::crypto::Crypto::sha256` on `data`. Trusted: the 32
/// bytes that come back depend on `data` alone; they are named
/// `sha256(data@)`. The host meters its work, so the length of `data` is
/// bounded.
#[verifier::external_body]
fn sha256_of(data: &Vec<u8>) -> (out: [u8; 32])
    requires
        data@.len() <= MAX_PREIMAGE_BYTES,
    ensures
        out@ == sha256(data@),
{
    let env = Env::default();
    env.crypto().sha256(&Bytes::from_slice(&env, data.as_slice())).to_array()
}

/// The content address of a redemption request.
#[derive(Clone, Copy, Debug)]
pub struct RedemptionHash {
    bytes: [u8; 32],
}

impl View for RedemptionHash {
    type V = Seq<u8>;

    closed spec fn view(&self) -> Seq<u8> {
        self.bytes@
    }
}

impl RedemptionHash {
    pub fn from_bytes(bytes: [u8; 32]) -> (h: RedemptionHash)
        ensures
            h@ == bytes@,
    {
        RedemptionHash { bytes }
    }

    pub fn to_bytes(&self) -> (b: [u8; 32])
        ensures
            b@ == self@,
    {
        self.bytes
    }
}

impl Key for RedemptionHash {
    type Id = Seq<u8>;

    open spec fn id(&self) -> Seq<u8> {
        self@
    }

    fn same(&self, other: &Self) -> (b: bool) {
        let mut i: usize = 0;
        while i < 32
            invariant
                i <= 32,
                forall|j: int| 0 <= j < i ==> self.bytes@[j] == other.bytes@[j],
            decreases 32 - i,
        {
            if self.bytes[i] != other.bytes[i] {
                return false;
            }
            i += 1;
        }
        assert(self.bytes@ =~= other.bytes@);
        true
    }

    fn duplicate(&self) -> (k: Self) {
        RedemptionHash { bytes: self.bytes }
    }
}

/// The bytes that a redemption request is hashed from: the serialized token,
/// account, amount and salt, in this order.
pub open spec fn redemption_preimage(
    token: Address,
    from: Address,
    amount: int,
    salt: Seq<char>,
) -> Seq<u8> {
    address_xdr(token) + address_xdr(from) + amount_xdr(amount) + text_xdr(salt)
}

/// The content address of the request `(token, from, amount, salt)`.
pub open spec fn redemption_hash(
    token: Address,
    from: Address,
    amount: int,
    salt: Seq<char>,
) -> Seq<u8> {
    sha256(redemption_preimage(token, from, amount, salt))
}

/// Whether a request is short enough to be hashed.
pub open spec fn hashable(token: Address, from: Address, amount: int, salt: Seq<char>) -> bool {
    encode_utf8(salt).len() <= MAX_TEXT_BYTES && redemption_preimage(token, from, amount, salt).len()
        <= MAX_PREIMAGE_BYTES
}

/// The digest of a preimage that has been assembled and measured.
pub fn digest_preimage(preimage: &Vec<u8>) -> (h: RedemptionHash)
    requires
        preimage@.len() <= MAX_PREIMAGE_BYTES,
    ensures
        h@ == sha256(preimage@),
{
    RedemptionHash { bytes: sha256_of(preimage) }
}

/// The content address of the request `(token, from, amount, salt)`, or
/// `TextTooLong` for a request that is too long to be hashed.
pub fn compute_redemption_hash(token: &Address, from: &Address, amount: i128, salt: &String) -> (r:
    Result<RedemptionHash, Error>)
    ensures
        match r {
            Ok(h) => hashable(*token, *from, amount as int, salt@) && h@ == redemption_hash(
                *token,
                *from,
                amount as int,
                salt@,
            ),
            Err(e) => !hashable(*token, *from, amount as int, salt@) && e == Error::TextTooLong,
        },
{
    if salt.as_str().as_bytes().len() > MAX_TEXT_BYTES {
        return Err(Error::TextTooLong);
    }
    let mut buf = encode_address(token);
    let mut part = encode_address(from);
    buf.append(&mut part);
    let mut part = encode_amount(amount);
    buf.append(&mut part);
    let mut part = encode_text(salt);
    buf.append(&mut part);
    if buf.len() > MAX_PREIMAGE_BYTES {
        return Err(Error::TextTooLong);
    }
    Ok(digest_preimage(&buf))
}

} // verus!
