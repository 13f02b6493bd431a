//! Multisig accounts and the check that enough of their signers signed.
use vstd::prelude::*;
use crate::codec::{
    all_keys_sized, bytes_eq, clone_bytes, clone_keys, flatten, keys_at, keys_view,
};
use crate::error::ProgramError;

verus! {

/// Most signers a multisig account holds.
pub const MAX_SIGNERS: usize = 11;

/// Size of a multisig account's data.
pub const MULTISIG_LEN: usize = 355;

/// The fields of a multisig account: `m` of the first `n` signers must sign.
pub struct Multisig {
    pub m: u8,
    pub n: u8,
    pub is_initialized: bool,
    pub signers: Vec<Vec<u8>>,
}

/// An account handed to an instruction: its key and whether it signed.
pub struct SignerInfo {
    pub key: Vec<u8>,
    pub is_signer: bool,
}

/// An account as a program sees it: its key, the program that owns it,
/// whether it signed, and its data.
pub struct AccountView {
    pub key: Vec<u8>,
    pub owner: Vec<u8>,
    pub is_signer: bool,
    pub data: Vec<u8>,
}

/// The stored form of a multisig account: `m | n | is_initialized |
/// signers[11]`.
pub open spec fn multisig_bytes(m: u8, n: u8, is_initialized: bool, signers: Seq<Seq<u8>>) -> Seq<u8> {
    seq![m, n, if is_initialized { 1u8 } else { 0u8 }] + flatten(signers)
}

/// The bytes hold a multisig account, initialized or not.
pub open spec fn multisig_readable(data: Seq<u8>) -> bool {
    data.len() == MULTISIG_LEN && data[2] <= 1
}

/// `ms` is what `data` holds.
pub open spec fn multisig_read(ms: Multisig, data: Seq<u8>) -> bool {
    &&& ms.m == data[0]
    &&& ms.n == data[1]
    &&& ms.is_initialized == (data[2] == 1)
    &&& keys_view(ms.signers@) == keys_at(data, 3, MAX_SIGNERS as nat)
}

/// Relies on spl_token's `Multisig::unpack_unchecked`: on 355 bytes whose
/// third byte is 0 or 1 it reads `m`, `n`, the initialized flag and the
/// eleven 32-byte signer keys in that order; any other input is refused.
#[verifier::external_body]
fn unpack_multisig_unchecked(data: &[u8]) -> (r: Option<Multisig>)
    ensures
        r is Some <==> multisig_readable(data@),
        r matches Some(ms) ==> multisig_read(ms, data@),
{
    <spl_token::state::Multisig as solana_program::program_pack::Pack>::unpack_unchecked(data).ok().map(
        |ms| Multisig {
            m: ms.m,
            n: ms.n,
            is_initialized: ms.is_initialized,
            signers: ms.signers.iter().map(|k| k.to_bytes().to_vec()).collect(),
        },
    )
}

/// Relies on spl_token's `Multisig::pack`: into 355 bytes it writes `m`,
/// `n`, the initialized flag as 0 or 1, and the eleven signer keys.
#[verifier::external_body]
fn pack_multisig(ms: &Multisig, dst: &mut Vec<u8>)
    requires
        old(dst)@.len() == MULTISIG_LEN,
        ms.signers@.len() == MAX_SIGNERS,
        all_keys_sized(keys_view(ms.signers@)),
    ensures
        final(dst)@ == multisig_bytes(ms.m, ms.n, ms.is_initialized, keys_view(ms.signers@)),
{
    let keys: Vec<solana_program::pubkey::Pubkey> = ms.signers.iter().map(
        |k| solana_program::pubkey::Pubkey::try_from(k.as_slice()).unwrap(),
    ).collect();
    let packed = spl_token::state::Multisig {
        m: ms.m,
        n: ms.n,
        is_initialized: ms.is_initialized,
        signers: keys.try_into().unwrap(),
    };
    let _ = <spl_token::state::Multisig as solana_program::program_pack::Pack>::pack(
        packed,
        dst.as_mut_slice(),
    );
}

/// Some signing candidate carries `key`.
pub open spec fn signs_for(cands: Seq<SignerInfo>, key: Seq<u8>) -> bool {
    exists|i: int| 0 <= i < cands.len() && cands[i].is_signer && cands[i].key@ == key
}

/// How many of the first `k` signer positions a signing candidate matches.
/// Each position counts once, however many candidates match it.
pub open spec fn signed_count(signers: Seq<Seq<u8>>, cands: Seq<SignerInfo>, k: int) -> nat
    decreases k,
{
    if k <= 0 {
        0
    } else {
        signed_count(signers, cands, k - 1) + if signs_for(cands, signers[k - 1]) {
            1nat
        } else {
            0nat
        }
    }
}

pub proof fn lemma_signed_count_bound(signers: Seq<Seq<u8>>, cands: Seq<SignerInfo>, k: int)
    requires
        0 <= k,
    ensures
        signed_count(signers, cands, k) <= k,
    decreases k,
{
    if k > 0 {
        lemma_signed_count_bound(signers, cands, k - 1);
    }
}

/// The signer positions below `k` that a signing candidate matches.
pub open spec fn signed_positions(signers: Seq<Seq<u8>>, cands: Seq<SignerInfo>, k: int) -> Set<int> {
    Set::new(|i: int| 0 <= i < k && signs_for(cands, signers[i]))
}

/// The count of signed positions is the size of the set of distinct
/// positions that a signing candidate matches: each position counts once.
pub proof fn lemma_signed_count_is_distinct_positions(signers: Seq<Seq<u8>>, cands: Seq<SignerInfo>, k: int)
    requires
        0 <= k,
    ensures
        signed_positions(signers, cands, k).finite(),
        signed_positions(signers, cands, k).len() == signed_count(signers, cands, k),
    decreases k,
{
    if k == 0 {
        assert(signed_positions(signers, cands, 0) =~= Set::<int>::empty());
    } else {
        lemma_signed_count_is_distinct_positions(signers, cands, k - 1);
        let prev = signed_positions(signers, cands, k - 1);
        if signs_for(cands, signers[k - 1]) {
            assert(signed_positions(signers, cands, k) =~= prev.insert(k - 1));
            assert(!prev.contains(k - 1));
        } else {
            assert(signed_positions(signers, cands, k) =~= prev);
        }
    }
}

/// The positions that a multisig account checks: the first `n`, and no more
/// than it holds.
pub open spec fn checked_positions(data: Seq<u8>) -> int {
    if (data[1] as int) < MAX_SIGNERS {
        data[1] as int
    } else {
        MAX_SIGNERS as int
    }
}

/// The multisig account in `data` is satisfied: at least `m` of its
/// distinct signer positions have a signing candidate.
pub open spec fn multisig_satisfied(data: Seq<u8>, cands: Seq<SignerInfo>) -> bool {
    signed_count(keys_at(data, 3, MAX_SIGNERS as nat), cands, checked_positions(data)) >= data[0]
}

/// A multisig account is satisfied only when at least `m` distinct signer
/// positions among its first `n` are matched by signing candidates.
pub proof fn lemma_satisfied_needs_m_positions(data: Seq<u8>, cands: Seq<SignerInfo>)
    requires
        data.len() == MULTISIG_LEN,
        multisig_satisfied(data, cands),
    ensures
        signed_positions(keys_at(data, 3, MAX_SIGNERS as nat), cands, checked_positions(data)).len()
            >= data[0],
        forall|i: int|
            signed_positions(keys_at(data, 3, MAX_SIGNERS as nat), cands, checked_positions(data)).contains(i)
                ==> 0 <= i < data[1] && signs_for(cands, data.subrange(3 + 32 * i, 35 + 32 * i)),
{
    lemma_signed_count_is_distinct_positions(
        keys_at(data, 3, MAX_SIGNERS as nat),
        cands,
        checked_positions(data),
    );
}

/// The owner account passes: it is the expected one, and either it is an
/// initialized multisig account of `program_id` that its signers satisfy,
/// or it is not a multisig account of `program_id` and it signed itself.
pub open spec fn owner_accepts(
    program_id: Seq<u8>,
    expected_owner: Seq<u8>,
    owner: AccountView,
    cands: Seq<SignerInfo>,
) -> bool {
    &&& expected_owner == owner.key@
    &&& if owner.owner@ == program_id && owner.data@.len() == MULTISIG_LEN {
        owner.data@[2] == 1 && multisig_satisfied(owner.data@, cands)
    } else {
        owner.is_signer
    }
}

/// The error with which the owner check fails.
pub open spec fn owner_error(
    program_id: Seq<u8>,
    expected_owner: Seq<u8>,
    owner: AccountView,
) -> ProgramError {
    if expected_owner != owner.key@ {
        ProgramError::OwnerMismatch
    } else if owner.owner@ == program_id && owner.data@.len() == MULTISIG_LEN && owner.data@[2]
        == 0 {
        ProgramError::UninitializedAccount
    } else if owner.owner@ == program_id && owner.data@.len() == MULTISIG_LEN && owner.data@[2]
        > 1 {
        ProgramError::InvalidAccountData
    } else {
        ProgramError::MissingRequiredSignature
    }
}

/// True iff one of the candidates signed with `key`.
pub fn has_signature(cands: &Vec<SignerInfo>, key: &[u8]) -> (r: bool)
    ensures
        r == signs_for(cands@, key@),
{
    let mut i: usize = 0;
    while i < cands.len()
        invariant
            0 <= i <= cands@.len(),
            forall|j: int| 0 <= j < i ==> !(cands@[j].is_signer && cands@[j].key@ == key@),
        decreases cands.len() - i,
    {
        if cands[i].is_signer && bytes_eq(cands[i].key.as_slice(), key) {
            return true;
        }
        i = i + 1;
    }
    false
}

/// Number of the first `n` signer positions that a signing candidate matches.
pub fn count_signed_positions(signers: &Vec<Vec<u8>>, n: usize, cands: &Vec<SignerInfo>) -> (r: usize)
    requires
        n <= signers@.len(),
    ensures
        r == signed_count(keys_view(signers@), cands@, n as int),
{
    let mut count: usize = 0;
    let mut k: usize = 0;
    while k < n
        invariant
            n <= signers@.len(),
            0 <= k <= n,
            count == signed_count(keys_view(signers@), cands@, k as int),
        decreases n - k,
    {
        proof {
            lemma_signed_count_bound(keys_view(signers@), cands@, k as int);
        }
        if has_signature(cands, signers[k].as_slice()) {
            count = count + 1;
        }
        k = k + 1;
    }
    count
}

pub struct MiscProcessor;

/// What multisig initialization writes: threshold `m`, the given signers in
/// the first positions and the old keys in the rest, marked initialized.
pub open spec fn initialized_multisig(old_data: Seq<u8>, signers: Seq<Seq<u8>>, m: u8) -> Seq<u8> {
    multisig_bytes(
        m,
        signers.len() as u8,
        true,
        signers + keys_at(old_data, 3 + 32 * (signers.len() as int), (MAX_SIGNERS - signers.len()) as nat),
    )
}

/// Outcome of initializing the multisig account in `data` with `n` signers
/// and threshold `m`.
pub open spec fn init_multisig_outcome(data: Seq<u8>, n: nat, m: u8) -> Result<(), ProgramError> {
    if !multisig_readable(data) {
        Err(ProgramError::InvalidAccountData)
    } else if data[2] == 1 {
        Err(ProgramError::MultisigAlreadyInUse)
    } else if !(1 <= n <= MAX_SIGNERS) {
        Err(ProgramError::InvalidNumberOfProvidedSigners)
    } else if !(1 <= m <= MAX_SIGNERS) {
        Err(ProgramError::InvalidNumberOfRequiredSigners)
    } else {
        Ok(())
    }
}

impl MiscProcessor {
    /// Sets up an unused multisig account, given as its data, with threshold
    /// `minimum_bft` over `signer_pubkeys`.
    pub fn process_init_multisig(
        multisig_data: &mut Vec<u8>,
        signer_pubkeys: &Vec<Vec<u8>>,
        minimum_bft: u8,
    ) -> (r: Result<(), ProgramError>)
        requires
            all_keys_sized(keys_view(signer_pubkeys@)),
        ensures
            r == init_multisig_outcome(old(multisig_data)@, signer_pubkeys@.len(), minimum_bft),
            r is Err ==> *final(multisig_data) == *old(multisig_data),
            r is Ok ==> final(multisig_data)@ == initialized_multisig(
                old(multisig_data)@,
                keys_view(signer_pubkeys@),
                minimum_bft,
            ),
    {
        let ms = match unpack_multisig_unchecked(multisig_data.as_slice()) {
            Some(ms) => ms,
            None => {
                return Err(ProgramError::InvalidAccountData);
            },
        };
        assert(keys_view(ms.signers@).len() == ms.signers@.len());
        if ms.is_initialized {
            return Err(ProgramError::MultisigAlreadyInUse);
        }
        if signer_pubkeys.len() < 1 || signer_pubkeys.len() > MAX_SIGNERS {
            return Err(ProgramError::InvalidNumberOfProvidedSigners);
        }
        if minimum_bft < 1 || minimum_bft as usize > MAX_SIGNERS {
            return Err(ProgramError::InvalidNumberOfRequiredSigners);
        }
        let ghost old_data = multisig_data@;
        let ghost given = keys_view(signer_pubkeys@);
        let len = signer_pubkeys.len();
        let mut signers = clone_keys(signer_pubkeys);
        let mut i: usize = len;
        while i < MAX_SIGNERS
            invariant
                len == given.len(),
                len <= i <= MAX_SIGNERS,
                ms.signers@.len() == MAX_SIGNERS,
                keys_view(ms.signers@) == keys_at(old_data, 3, MAX_SIGNERS as nat),
                keys_view(signers@) == given + keys_at(old_data, 3 + 32 * (len as int), (i - len) as nat),
                old_data.len() == MULTISIG_LEN,
            decreases MAX_SIGNERS - i,
        {
            let ghost before = keys_view(signers@);
            signers.push(clone_bytes(ms.signers[i].as_slice()));
            proof {
                assert(keys_view(ms.signers@)[i as int] == ms.signers@[i as int]@);
                assert(keys_view(signers@) =~= before.push(ms.signers@[i as int]@));
                assert(keys_view(signers@) =~= given + keys_at(
                    old_data,
                    3 + 32 * (len as int),
                    (i + 1 - len) as nat,
                ));
            }
            i = i + 1;
        }
        let updated = Multisig {
            m: minimum_bft,
            n: len as u8,
            is_initialized: true,
            signers,
        };
        proof {
            assert forall|j: int| 0 <= j < keys_view(updated.signers@).len() implies (#[trigger] keys_view(updated.signers@)[j]).len() == 32 by {
                if j >= len {
                    assert(keys_view(updated.signers@)[j] == old_data.subrange(3 + 32 * j, 3 + 32 * j + 32));
                }
            }
        }
        pack_multisig(&updated, multisig_data);
        Ok(())
    }

    /// Checks that the owner account is `expected_owner`, and then: where it
    /// is a multisig account of `program_id`, that it is initialized and at
    /// least `m` of its first `n` signer positions have a signing candidate;
    /// else that the owner account itself signed.
    pub fn validate_owner(
        program_id: &[u8],
        expected_owner: &[u8],
        owner: &AccountView,
        signers: &Vec<SignerInfo>,
    ) -> (r: Result<(), ProgramError>)
        ensures
            r is Ok <==> owner_accepts(program_id@, expected_owner@, *owner, signers@),
            r is Err ==> r == Err::<(), ProgramError>(
                owner_error(program_id@, expected_owner@, *owner),
            ),
    {
        if !bytes_eq(expected_owner, owner.key.as_slice()) {
            return Err(ProgramError::OwnerMismatch);
        }
        if bytes_eq(owner.owner.as_slice(), program_id) && owner.data.len() == MULTISIG_LEN {
            let ms = match unpack_multisig_unchecked(owner.data.as_slice()) {
                Some(ms) => ms,
                None => {
                    return Err(ProgramError::InvalidAccountData);
                },
            };
            assert(keys_view(ms.signers@).len() == ms.signers@.len());
            if !ms.is_initialized {
                return Err(ProgramError::UninitializedAccount);
            }
            let n: usize = if (ms.n as usize) < MAX_SIGNERS {
                ms.n as usize
            } else {
                MAX_SIGNERS
            };
            let num_signers = count_signed_positions(&ms.signers, n, signers);
            if num_signers < ms.m as usize {
                return Err(ProgramError::MissingRequiredSignature);
            }
            Ok(())
        } else {
            if !owner.is_signer {
                return Err(ProgramError::MissingRequiredSignature);
            }
            Ok(())
        }
    }

    /// The first `n` signer keys of an initialized multisig account, given as
    /// its data.
    pub fn multisig_signers(multisig_data: &[u8]) -> (r: Result<Vec<Vec<u8>>, ProgramError>)
        ensures
            !multisig_readable(multisig_data@) ==> r == Err::<Vec<Vec<u8>>, ProgramError>(
                ProgramError::InvalidAccountData,
            ),
            multisig_readable(multisig_data@) && multisig_data@[2] == 0 ==> r == Err::<
                Vec<Vec<u8>>,
                ProgramError,
            >(ProgramError::UninitializedAccount),
            r matches Ok(ks) ==> multisig_readable(multisig_data@) && multisig_data@[2] == 1
                && keys_view(ks@) == keys_at(multisig_data@, 3, checked_positions(multisig_data@) as nat),
            multisig_readable(multisig_data@) && multisig_data@[2] == 1 ==> r is Ok,
    {
        let ms = match unpack_multisig_unchecked(multisig_data) {
            Some(ms) => ms,
            None => {
                return Err(ProgramError::InvalidAccountData);
            },
        };
        assert(keys_view(ms.signers@).len() == ms.signers@.len());
        if !ms.is_initialized {
            return Err(ProgramError::UninitializedAccount);
        }
        let n: usize = if (ms.n as usize) < MAX_SIGNERS {
            ms.n as usize
        } else {
            MAX_SIGNERS
        };
        let mut r: Vec<Vec<u8>> = Vec::new();
        let mut i: usize = 0;
        while i < n
            invariant
                n <= MAX_SIGNERS,
                ms.signers@.len() == MAX_SIGNERS,
                keys_view(ms.signers@) == keys_at(multisig_data@, 3, MAX_SIGNERS as nat),
                0 <= i <= n,
                r@.len() == i,
                forall|j: int| 0 <= j < i ==> r@[j]@ == ms.signers@[j]@,
            decreases n - i,
        {
            r.push(clone_bytes(ms.signers[i].as_slice()));
            i = i + 1;
        }
        proof {
            assert forall|j: int| 0 <= j < n implies keys_view(r@)[j] == keys_at(multisig_data@, 3, n as nat)[j] by {
                assert(keys_view(ms.signers@)[j] == ms.signers@[j]@);
            }
            assert(keys_view(r@) =~= keys_at(multisig_data@, 3, n as nat));
        }
        Ok(r)
    }
}

} // verus!
