//! Derivation and verification of program-derived addresses.
use vstd::prelude::*;
use anchor_lang::prelude::Pubkey;
use crate::error::ErrorCode;

verus! {

/// The 32 bytes of an account address.
#[derive(Debug, Clone, Copy)]
pub struct Address {
    pub bytes: [u8; 32],
}

impl Address {
    pub open spec fn view(self) -> Seq<u8> {
        self.bytes@
    }

    /// Whether the two addresses hold the same bytes.
    pub fn same(&self, other: &Address) -> (r: bool)
        ensures
            r == (self@ == other@),
    {
        let mut i: usize = 0;
        while i < 32
            invariant
                i <= 32,
                self@.len() == 32,
                other@.len() == 32,
                forall|j: int| 0 <= j < i ==> self@[j] == other@[j],
            decreases 32 - i,
        {
            if self.bytes[i] != other.bytes[i] {
                return false;
            }
            i = i + 1;
        }
        assert(self@ =~= other@);
        true
    }
}

impl PartialEq for Address {
    fn eq(&self, other: &Address) -> (r: bool) {
        self.same(other)
    }
}

impl vstd::std_specs::cmp::PartialEqSpecImpl for Address {
    open spec fn obeys_eq_spec() -> bool {
        true
    }

    open spec fn eq_spec(&self, other: &Address) -> bool {
        self@ == other@
    }
}

impl Eq for Address {}

/// What a search for a program address yields for the given seeds under the
/// given program id: the first address off the ed25519 curve, with its bump,
/// trying bumps from 255 downwards.
pub uninterp spec fn pda_search(seeds: Seq<Seq<u8>>, program_id: Seq<u8>) -> Option<(Seq<u8>, u8)>;

/// The address that the given seeds (the bump included) make under the given
/// program id, if they make a valid one.
pub uninterp spec fn pda_create(seeds: Seq<Seq<u8>>, program_id: Seq<u8>) -> Option<Seq<u8>>;

/// The seed values as byte sequences.
pub open spec fn seeds_view(seeds: Seq<Vec<u8>>) -> Seq<Seq<u8>> {
    seeds.map_values(|s: Vec<u8>| s@)
}

/// Relies on `Pubkey::try_find_program_address`: it tries each bump from 255
/// downwards with `create_program_address` and returns the first address made,
/// with that bump; `None` when no bump works.
#[verifier::external_body]
fn try_find_program_address(seeds: &Vec<Vec<u8>>, program_id: &Address) -> (r: Option<(Address, u8)>)
    ensures
        match r {
            Some((a, b)) => pda_search(seeds_view(seeds@), program_id@) == Some((a@, b))
                && pda_create(seeds_view(seeds@).push(seq![b]), program_id@) == Some(a@),
            None => pda_search(seeds_view(seeds@), program_id@) is None,
        },
{
    let parts: Vec<&[u8]> = seeds.iter().map(|s| s.as_slice()).collect();
    let program = Pubkey::new_from_array(program_id.bytes);
    Pubkey::try_find_program_address(&parts, &program).map(|(a, b)| (Address { bytes: a.to_bytes() }, b))
}

/// Relies on `Pubkey::create_program_address`: the address that the seeds make,
/// or an error when they make none.
#[verifier::external_body]
fn create_program_address(seeds: &Vec<Vec<u8>>, program_id: &Address) -> (r: Option<Address>)
    ensures
        match r {
            Some(a) => pda_create(seeds_view(seeds@), program_id@) == Some(a@),
            None => pda_create(seeds_view(seeds@), program_id@) is None,
        },
{
    let parts: Vec<&[u8]> = seeds.iter().map(|s| s.as_slice()).collect();
    let program = Pubkey::new_from_array(program_id.bytes);
    Pubkey::create_program_address(&parts, &program).ok().map(|a| Address { bytes: a.to_bytes() })
}

/// The seeds of a derivation: the label, then the seed values.
pub open spec fn labelled(label: Seq<u8>, seeds: Seq<Seq<u8>>) -> Seq<Seq<u8>> {
    seq![label] + seeds
}

impl Address {
    /// The address bytes as a vector, for use as a seed value.
    pub fn to_vec(&self) -> (r: Vec<u8>)
        ensures
            r@ == self@,
    {
        let mut v: Vec<u8> = Vec::new();
        let mut i: usize = 0;
        while i < 32
            invariant
                i <= 32,
                self@.len() == 32,
                v@ == self@.subrange(0, i as int),
            decreases 32 - i,
        {
            v.push(self.bytes[i]);
            i = i + 1;
            assert(v@ =~= self@.subrange(0, i as int));
        }
        assert(self@.subrange(0, 32) =~= self@);
        v
    }
}

fn copy_bytes(b: &Vec<u8>) -> (r: Vec<u8>)
    ensures
        r@ == b@,
{
    let mut v: Vec<u8> = Vec::new();
    let mut i: usize = 0;
    while i < b.len()
        invariant
            i <= b@.len(),
            v@ == b@.subrange(0, i as int),
        decreases b@.len() - i,
    {
        v.push(b[i]);
        i = i + 1;
        assert(v@ =~= b@.subrange(0, i as int));
    }
    assert(b@.subrange(0, b@.len() as int) =~= b@);
    v
}

/// The label followed by the seed values, as one list of seeds.
fn labelled_seeds(label: &Vec<u8>, seeds: &Vec<Vec<u8>>) -> (r: Vec<Vec<u8>>)
    ensures
        seeds_view(r@) == labelled(label@, seeds_view(seeds@)),
{
    let mut all: Vec<Vec<u8>> = Vec::new();
    all.push(copy_bytes(label));
    let mut i: usize = 0;
    while i < seeds.len()
        invariant
            i <= seeds@.len(),
            seeds_view(all@) == labelled(label@, seeds_view(seeds@.subrange(0, i as int))),
        decreases seeds@.len() - i,
    {
        let s = copy_bytes(&seeds[i]);
        let ghost prev = all@;
        all.push(s);
        assert(seeds_view(all@) =~= seeds_view(prev).push(seeds@[i as int]@));
        assert(seeds@.subrange(0, i + 1) =~= seeds@.subrange(0, i as int).push(seeds@[i as int]));
        assert(seeds_view(seeds@.subrange(0, i + 1)) =~= seeds_view(seeds@.subrange(0, i as int)).push(seeds@[i as int]@));
        i = i + 1;
        assert(seeds_view(all@) =~= labelled(label@, seeds_view(seeds@.subrange(0, i as int))));
    }
    assert(seeds@.subrange(0, seeds@.len() as int) =~= seeds@);
    all
}

/// Derives the address and bump for a label and seed values under a program
/// id. The derivation depends on its inputs alone. Fails when the label is
/// empty or no address can be derived (too many or too long seeds).
pub fn derive_address(program_id: &Address, label: &Vec<u8>, seeds: &Vec<Vec<u8>>) -> (r: Result<(Address, u8), ErrorCode>)
    ensures
        match r {
            Ok((a, b)) => label@.len() > 0
                && pda_search(labelled(label@, seeds_view(seeds@)), program_id@) == Some((a@, b))
                && pda_create(labelled(label@, seeds_view(seeds@)).push(seq![b]), program_id@) == Some(a@),
            Err(e) => e == ErrorCode::InvalidParameter && (label@.len() == 0
                || pda_search(labelled(label@, seeds_view(seeds@)), program_id@) is None),
        },
{
    if label.len() == 0 {
        return Err(ErrorCode::InvalidParameter);
    }
    let all = labelled_seeds(label, seeds);
    match try_find_program_address(&all, program_id) {
        Some((a, b)) => Ok((a, b)),
        None => Err(ErrorCode::InvalidParameter),
    }
}

/// Whether the label, seed values and bump make exactly the claimed address
/// under the program id.
pub fn verify_address(program_id: &Address, label: &Vec<u8>, seeds: &Vec<Vec<u8>>, bump: u8, claimed: &Address) -> (r: bool)
    ensures
        r == (label@.len() > 0
            && pda_create(labelled(label@, seeds_view(seeds@)).push(seq![bump]), program_id@) == Some(claimed@)),
{
    if label.len() == 0 {
        return false;
    }
    let mut all = labelled_seeds(label, seeds);
    let mut b: Vec<u8> = Vec::new();
    b.push(bump);
    assert(b@ =~= seq![bump]);
    all.push(b);
    assert(seeds_view(all@) =~= labelled(label@, seeds_view(seeds@)).push(seq![bump]));
    match create_program_address(&all, program_id) {
        Some(a) => a.same(claimed),
        None => false,
    }
}

/// Deriving twice from the same label, seed values and program id gives the
/// same address and bump.
pub proof fn lemma_derive_deterministic(
    program_id: Seq<u8>,
    label: Seq<u8>,
    seeds: Seq<Seq<u8>>,
    program_id2: Seq<u8>,
    label2: Seq<u8>,
    seeds2: Seq<Seq<u8>>,
)
    requires
        program_id == program_id2,
        label == label2,
        seeds == seeds2,
    ensures
        pda_search(labelled(label, seeds), program_id) == pda_search(labelled(label2, seeds2), program_id2),
{
}

} // verus!
