//! The two computations this library takes from the `solana_program` crate:
//! the Keccak-256 digest and the base-58 text of an address. Their contracts
//! are believed, not proved.

use vstd::prelude::*;
use vstd::string::*;

verus! {

/// An address: thirty-two raw bytes.
pub type Pubkey = [u8; 32];

/// The Keccak-256 digest of a byte string, as `solana_program::keccak::hashv`
/// computes it for a single slice.
pub uninterp spec fn keccak256_digest(data: Seq<u8>) -> Seq<u8>;

/// The text that `solana_program::pubkey::Pubkey` displays for an address:
/// its thirty-two bytes in base 58.
pub uninterp spec fn base58_text(key: Seq<u8>) -> Seq<char>;

/// Calls `solana_program::keccak::hashv` on the one slice `data`. The digest
/// depends on the bytes of `data` alone; nothing else is claimed of it.
#[verifier::external_body]
pub(crate) fn keccak256(data: &[u8]) -> (digest: [u8; 32])
    ensures
        digest@ == keccak256_digest(data@),
{
    solana_program::keccak::hashv(&[data]).to_bytes()
}

/// Formats `key` through the `Display` impl of
/// `solana_program::pubkey::Pubkey`. The text depends on the bytes of `key`
/// alone; nothing else is claimed of it.
#[verifier::external_body]
fn pubkey_to_string(key: &Pubkey) -> (text: String)
    ensures
        text@ == base58_text(key@),
{
    solana_program::pubkey::Pubkey::new_from_array(*key).to_string()
}

/// An optional address as it stands in diagnostics: `Some(..)` round its
/// base-58 text, or `None`.
pub open spec fn optional_base58_text(key: Option<Pubkey>) -> Seq<char> {
    match key {
        Some(k) => "Some("@ + base58_text(k@) + ")"@,
        None => "None"@,
    }
}

/// Appends an address in base 58 to `out`.
pub fn push_pubkey(out: &mut String, key: &Pubkey)
    ensures
        final(out)@ == old(out)@ + base58_text(key@),
{
    let text = pubkey_to_string(key);
    out.append(text.as_str());
}

/// Appends an optional address to `out`.
pub fn push_optional_pubkey(out: &mut String, key: &Option<Pubkey>)
    ensures
        final(out)@ == old(out)@ + optional_base58_text(*key),
{
    match key {
        Some(k) => {
            out.append("Some(");
            push_pubkey(out, k);
            out.append(")");
        },
        None => {
            out.append("None");
        },
    }
}

} // verus!
