use vstd::prelude::*;

use crate::records::bytes_of;

verus! {

/// What `Pubkey::try_find_program_address` returns for the given seeds
/// and program id: the derived address with its nonce, or `None` when
/// the bounded search finds no address.  The whole outcome — whether
/// the search lands, and on what — is a pure function of its arguments:
/// the same seeds under the same program always derive the same result,
/// which is what lets the address serve as the uniqueness key.
pub uninterp spec fn derivation_of(seeds: Seq<Seq<u8>>, program_id: Seq<u8>) -> Option<
    (Seq<u8>, u8),
>;

/// A derived record address together with the nonce needed to
/// reconstruct and verify it.
pub struct Derivation {
    /// The 32-byte storage address.
    pub address: Vec<u8>,
    /// The nonce the bounded search settled on.
    pub bump: u8,
}

/// Relies on `anchor_lang::prelude::Pubkey::try_find_program_address`:
/// the derived address and nonce depend on the seeds and the program id
/// alone, the address is 32 bytes, and `None` comes only when the
/// bounded search is exhausted or a seed oversteps the host's limits.
/// The call returns for every input and never panics.
#[verifier::external_body]
fn try_derive(seeds: &Vec<Vec<u8>>, program_id: &[u8; 32]) -> (r: Option<(Vec<u8>, u8)>)
    ensures
        (match r {
            Some(p) => Some((p.0@, p.1)),
            None => None::<(Seq<u8>, u8)>,
        }) == derivation_of(seeds.deep_view(), program_id@),
        r matches Some(p) ==> p.0@.len() == 32,
{
    let seed_slices: Vec<&[u8]> = seeds.iter().map(|s| s.as_slice()).collect();
    let program = anchor_lang::prelude::Pubkey::new_from_array(*program_id);
    anchor_lang::prelude::Pubkey::try_find_program_address(&seed_slices, &program)
        .map(|(address, bump)| (address.to_bytes().to_vec(), bump))
}

/// The seed label under which the singleton configuration record lives.
pub open spec fn config_label() -> Seq<u8> {
    seq![0x63u8, 0x6fu8, 0x6eu8, 0x66u8, 0x69u8, 0x67u8, 0x32u8]
}

/// The seed label under which every payment-request record lives.
pub open spec fn request_label() -> Seq<u8> {
    seq![
        0x70u8, 0x61u8, 0x79u8, 0x6du8, 0x65u8, 0x6eu8, 0x74u8, 0x5fu8, 0x72u8, 0x65u8, 0x71u8,
        0x75u8, 0x65u8, 0x73u8, 0x74u8,
    ]
}

/// The configuration label as stored bytes.
pub fn config_seed() -> (r: Vec<u8>)
    ensures
        r@ == config_label(),
{
    let mut v: Vec<u8> = Vec::new();
    v.push(0x63u8);
    v.push(0x6fu8);
    v.push(0x6eu8);
    v.push(0x66u8);
    v.push(0x69u8);
    v.push(0x67u8);
    v.push(0x32u8);
    proof {
        assert(v@ =~= config_label());
    }
    v
}

/// The payment-request label as stored bytes.
pub fn request_seed() -> (r: Vec<u8>)
    ensures
        r@ == request_label(),
{
    let mut v: Vec<u8> = Vec::new();
    v.push(0x70u8);
    v.push(0x61u8);
    v.push(0x79u8);
    v.push(0x6du8);
    v.push(0x65u8);
    v.push(0x6eu8);
    v.push(0x74u8);
    v.push(0x5fu8);
    v.push(0x72u8);
    v.push(0x65u8);
    v.push(0x71u8);
    v.push(0x75u8);
    v.push(0x65u8);
    v.push(0x73u8);
    v.push(0x74u8);
    proof {
        assert(v@ =~= request_label());
    }
    v
}

/// Derives the singleton configuration record's address under the given
/// program.  Deterministic: equal inputs always derive the equal
/// outcome, so the address is found exactly when the bounded search
/// lands for these seeds.  `None` surfaces an exhausted search and is
/// not retried.
pub fn derive_config_address(program_id: &[u8; 32]) -> (r: Option<Derivation>)
    ensures
        (match r {
            Some(d) => Some((d.address@, d.bump)),
            None => None::<(Seq<u8>, u8)>,
        }) == derivation_of(seq![config_label()], program_id@),
        r matches Some(d) ==> d.address@.len() == 32,
{
    let mut seeds: Vec<Vec<u8>> = Vec::new();
    seeds.push(config_seed());
    proof {
        assert(seeds.deep_view() =~~= seq![config_label()]);
    }
    match try_derive(&seeds, program_id) {
        None => None,
        Some((address, bump)) => Some(Derivation { address: address, bump: bump }),
    }
}

/// Derives a payment-request record's address from its request
/// identifier, whose byte encoding is embedded in the seeds: the address
/// is the identifier's uniqueness key.  The outcome equals the
/// derivation for exactly these seeds; `None` surfaces an exhausted
/// search or an identifier the host's seed limits reject.
pub fn derive_request_address(request_id: &String, program_id: &[u8; 32]) -> (r: Option<Derivation>)
    ensures
        (match r {
            Some(d) => Some((d.address@, d.bump)),
            None => None::<(Seq<u8>, u8)>,
        }) == derivation_of(seq![request_label(), bytes_of(request_id@)], program_id@),
        r matches Some(d) ==> d.address@.len() == 32,
{
    let mut seeds: Vec<Vec<u8>> = Vec::new();
    seeds.push(request_seed());
    seeds.push(request_id.as_str().as_bytes_vec());
    proof {
        assert(seeds.deep_view() =~~= seq![request_label(), bytes_of(request_id@)]);
    }
    match try_derive(&seeds, program_id) {
        None => None,
        Some((address, bump)) => Some(Derivation { address: address, bump: bump }),
    }
}

} // verus!
