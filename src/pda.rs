//! Seeds from which the programs derive the identities that sign for them.
use vstd::prelude::*;

verus! {

/// The program whose derived identity signs.
pub enum PDAResolver {
    IBPort,
    LUPort,
    Gravity,
}

/// The seed of each program: "ibport", "luport" or "gravity".
pub open spec fn seed_of(p: PDAResolver) -> Seq<u8> {
    match p {
        PDAResolver::IBPort => seq![105u8, 98, 112, 111, 114, 116],
        PDAResolver::LUPort => seq![108u8, 117, 112, 111, 114, 116],
        PDAResolver::Gravity => seq![103u8, 114, 97, 118, 105, 116, 121],
    }
}

impl PDAResolver {
    /// The seed bytes of this program.
    pub fn bump_seeds(&self) -> (r: Vec<u8>)
        ensures
            r@ == seed_of(*self),
    {
        let r = match self {
            PDAResolver::IBPort => vec![105u8, 98, 112, 111, 114, 116],
            PDAResolver::LUPort => vec![108u8, 117, 112, 111, 114, 116],
            PDAResolver::Gravity => vec![103u8, 114, 97, 118, 105, 116, 121],
        };
        assert(r@ =~= seed_of(*self));
        r
    }
}

} // verus!
