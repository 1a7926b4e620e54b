use crate::state::Identity;
use vstd::prelude::*;

verus! {

/// The address that the ledger's program-address derivation returns for a
/// two-part seed (`tag`, `base`) under `program_id`. The derivation is a
/// one-way hash; no short formula states it, so its result carries this
/// name and every contract speaks through it.
pub uninterp spec fn derived_address(tag: Seq<u8>, base: Seq<u8>, program_id: Seq<u8>) -> Seq<u8>;

/// The fixed tag that begins every wallet's derivation seeds: the bytes of
/// `"MultiSigWallet"`.
pub open spec fn wallet_seed_tag() -> Seq<u8> {
    seq![77u8, 117u8, 108u8, 116u8, 105u8, 83u8, 105u8, 103u8, 87u8, 97u8, 108u8, 108u8, 101u8, 116u8]
}

/// The storage address of the wallet that `base` creates under program
/// `program_id`. The binding is immutable: every call that targets an
/// existing wallet recomputes this value and compares it with the address
/// the caller supplied.
pub open spec fn spec_wallet_address(base: Seq<u8>, program_id: Seq<u8>) -> Seq<u8> {
    derived_address(wallet_seed_tag(), base, program_id)
}

/// Relies on `solana_program::pubkey::Pubkey::find_program_address`: the
/// address it returns is a deterministic function of the seed slices and the
/// program id alone. A seed slice longer than 32 bytes makes the call panic,
/// so the tag is bounded here. (Beyond that, the call panics only in the
/// statistically unreachable case that no bump seed yields an off-curve
/// address.)
#[verifier::external_body]
fn find_derived_address(tag: &[u8], base: &Identity, program_id: &Identity) -> (r: Identity)
    requires
        tag@.len() <= 32,
    ensures
        r@ == derived_address(tag@, base@, program_id@),
{
    let base_key = solana_program::pubkey::Pubkey::new_from_array(base.bytes);
    let program_key = solana_program::pubkey::Pubkey::new_from_array(program_id.bytes);
    let (address, _bump) = solana_program::pubkey::Pubkey::find_program_address(
        &[tag, base_key.as_ref()],
        &program_key,
    );
    Identity { bytes: address.to_bytes() }
}

/// The executable seed tag, equal to [`wallet_seed_tag`].
fn wallet_seed_tag_bytes() -> (r: Vec<u8>)
    ensures
        r@ == wallet_seed_tag(),
{
    let mut v: Vec<u8> = Vec::new();
    v.push(77);
    v.push(117);
    v.push(108);
    v.push(116);
    v.push(105);
    v.push(83);
    v.push(105);
    v.push(103);
    v.push(87);
    v.push(97);
    v.push(108);
    v.push(108);
    v.push(101);
    v.push(116);
    proof {
        assert(v@ =~= wallet_seed_tag());
    }
    v
}

/// Recomputes the storage address that binds a wallet to its creator.
pub fn derive_wallet_address(base: &Identity, program_id: &Identity) -> (r: Identity)
    ensures
        r@ == spec_wallet_address(base@, program_id@),
{
    let tag = wallet_seed_tag_bytes();
    find_derived_address(tag.as_slice(), base, program_id)
}

} // verus!
