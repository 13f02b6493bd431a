//! Byte-level helpers: emptiness checks, field ranges, and little-endian scalars.
use vstd::prelude::*;
use std::ops::Range;

verus! {

/// A zero-filled buffer is an account that nobody has initialized.
pub open spec fn all_zero(s: Seq<u8>) -> bool {
    forall|i: int| 0 <= i < s.len() ==> s[i] == 0u8
}

/// True iff every byte of the buffer is zero.
pub fn is_contract_empty(target_contract: &[u8]) -> (r: bool)
    ensures
        r == all_zero(target_contract@),
{
    let mut i: usize = 0;
    while i < target_contract.len()
        invariant
            0 <= i <= target_contract@.len(),
            forall|j: int| 0 <= j < i ==> target_contract@[j] == 0u8,
        decreases target_contract.len() - i,
    {
        if target_contract[i] != 0 {
            return false;
        }
        i = i + 1;
    }
    true
}

/// Sum of the first `k` field widths: where field `k` starts.
pub open spec fn offset_of(allocs: Seq<usize>, k: int) -> int
    decreases k,
{
    if k <= 0 {
        0
    } else {
        offset_of(allocs, k - 1) + allocs[k - 1]
    }
}

pub proof fn lemma_offset_monotone(allocs: Seq<usize>, j: int, k: int)
    requires
        0 <= j <= k,
    ensures
        offset_of(allocs, j) <= offset_of(allocs, k),
    decreases k - j,
{
    if j < k {
        lemma_offset_monotone(allocs, j, k - 1);
    }
}

/// Half-open ranges `[w0, w0+w1, ...)` for consecutive fields of the given widths.
pub fn build_range_from_alloc(allocs: &Vec<usize>) -> (res: Vec<Range<usize>>)
    requires
        offset_of(allocs@, allocs@.len() as int) <= usize::MAX,
    ensures
        res@.len() == allocs@.len(),
        forall|k: int|
            0 <= k < res@.len() ==> res@[k].start == offset_of(allocs@, k) && res@[k].end
                == offset_of(allocs@, k + 1),
{
    let mut res: Vec<Range<usize>> = Vec::new();
    let n = allocs.len();
    let mut i: usize = 0;
    let mut start_index: usize = 0;
    while i < n
        invariant
            n == allocs@.len(),
            0 <= i <= n,
            res@.len() == i,
            start_index == offset_of(allocs@, i as int),
            offset_of(allocs@, n as int) <= usize::MAX,
            forall|k: int|
                0 <= k < i ==> res@[k].start == offset_of(allocs@, k) && res@[k].end
                    == offset_of(allocs@, k + 1),
        decreases n - i,
    {
        proof {
            lemma_offset_monotone(allocs@, i + 1, n as int);
        }
        let current = allocs[i];
        let end = start_index + current;
        res.push(Range { start: start_index, end });
        start_index = end;
        i = i + 1;
    }
    res
}

/// The bytes of `input` within `index`, or `ExtractionError` when the range
/// does not lie inside the input.
pub fn extract_from_range(input: &[u8], index: Range<usize>) -> (r: Result<Vec<u8>, crate::error::ValidationError>)
    ensures
        (index.start <= index.end && index.end <= input@.len()) <==> r is Ok,
        r is Err ==> r == Err::<Vec<u8>, crate::error::ValidationError>(
            crate::error::ValidationError::ExtractionError,
        ),
        r is Ok ==> r->Ok_0@ == input@.subrange(index.start as int, index.end as int),
{
    if index.start <= index.end && index.end <= input.len() {
        Ok(copy_range(input, index.start, index.end))
    } else {
        Err(crate::error::ValidationError::ExtractionError)
    }
}

/// A copy of `input[start..end]`.
pub fn copy_range(input: &[u8], start: usize, end: usize) -> (r: Vec<u8>)
    requires
        start <= end <= input@.len(),
    ensures
        r@ == input@.subrange(start as int, end as int),
{
    let mut r: Vec<u8> = Vec::new();
    let mut i: usize = start;
    while i < end
        invariant
            start <= i <= end <= input@.len(),
            r@ == input@.subrange(start as int, i as int),
        decreases end - i,
    {
        r.push(input[i]);
        proof {
            assert(r@ =~= input@.subrange(start as int, i + 1));
        }
        i = i + 1;
    }
    r
}

/// A copy of the bytes.
pub fn clone_bytes(src: &[u8]) -> (r: Vec<u8>)
    ensures
        r@ == src@,
{
    let r = copy_range(src, 0, src.len());
    assert(src@.subrange(0, src@.len() as int) =~= src@);
    r
}

/// The byte strings of a list of keys.
pub open spec fn keys_view(ks: Seq<Vec<u8>>) -> Seq<Seq<u8>> {
    Seq::new(ks.len(), |i: int| ks[i]@)
}

/// A copy of a list of keys.
pub fn clone_keys(ks: &Vec<Vec<u8>>) -> (r: Vec<Vec<u8>>)
    ensures
        keys_view(r@) == keys_view(ks@),
{
    let mut r: Vec<Vec<u8>> = Vec::new();
    let mut i: usize = 0;
    while i < ks.len()
        invariant
            0 <= i <= ks@.len(),
            r@.len() == i,
            forall|j: int| 0 <= j < i ==> r@[j]@ == ks@[j]@,
        decreases ks.len() - i,
    {
        r.push(clone_bytes(ks[i].as_slice()));
        i = i + 1;
    }
    assert(keys_view(r@) =~= keys_view(ks@));
    r
}

/// Appends `src` to `dst`.
pub fn append_bytes(dst: &mut Vec<u8>, src: &[u8])
    ensures
        final(dst)@ == old(dst)@ + src@,
{
    let mut i: usize = 0;
    while i < src.len()
        invariant
            0 <= i <= src@.len(),
            dst@ == old(dst)@ + src@.subrange(0, i as int),
        decreases src.len() - i,
    {
        dst.push(src[i]);
        proof {
            assert(dst@ =~= old(dst)@ + src@.subrange(0, i + 1));
        }
        i = i + 1;
    }
    proof {
        assert(src@.subrange(0, src@.len() as int) =~= src@);
    }
}

/// True iff the two byte strings are equal.
pub fn bytes_eq(a: &[u8], b: &[u8]) -> (r: bool)
    ensures
        r == (a@ == b@),
{
    if a.len() != b.len() {
        return false;
    }
    let mut i: usize = 0;
    while i < a.len()
        invariant
            a@.len() == b@.len(),
            0 <= i <= a@.len(),
            forall|j: int| 0 <= j < i ==> a@[j] == b@[j],
        decreases a.len() - i,
    {
        if a[i] != b[i] {
            return false;
        }
        i = i + 1;
    }
    proof {
        assert(a@ =~= b@);
    }
    true
}

/// The unsigned value of little-endian bytes.
pub open spec fn le_value(s: Seq<u8>) -> nat
    decreases s.len(),
{
    if s.len() == 0 {
        0
    } else {
        s[0] as nat + 256 * le_value(s.drop_first())
    }
}

/// The `n` little-endian bytes of `v` (the bytes above `n` dropped).
pub open spec fn le_bytes(v: nat, n: nat) -> Seq<u8>
    decreases n,
{
    if n == 0 {
        Seq::empty()
    } else {
        seq![(v % 256) as u8] + le_bytes(v / 256, (n - 1) as nat)
    }
}

pub open spec fn pow256(n: nat) -> nat
    decreases n,
{
    if n == 0 {
        1
    } else {
        256 * pow256((n - 1) as nat)
    }
}

pub proof fn lemma_le_bytes_len(v: nat, n: nat)
    ensures
        le_bytes(v, n).len() == n,
    decreases n,
{
    if n > 0 {
        lemma_le_bytes_len(v / 256, (n - 1) as nat);
    }
}

/// Reading back `n` written bytes gives the value, when it fits.
pub proof fn lemma_le_value_of_bytes(v: nat, n: nat)
    requires
        v < pow256(n),
    ensures
        le_value(le_bytes(v, n)) == v,
    decreases n,
{
    if n > 0 {
        let rest = le_bytes(v / 256, (n - 1) as nat);
        assert(v / 256 < pow256((n - 1) as nat)) by (nonlinear_arith)
            requires
                v < 256 * pow256((n - 1) as nat),
        ;
        lemma_le_value_of_bytes(v / 256, (n - 1) as nat);
        let s = le_bytes(v, n);
        assert(s.drop_first() =~= rest);
        assert(v == v % 256 + 256 * (v / 256)) by (nonlinear_arith);
    }
}

/// Writing back the value of `s` gives `s`.
pub proof fn lemma_le_bytes_of_value(s: Seq<u8>)
    ensures
        le_bytes(le_value(s), s.len()) == s,
        le_value(s) < pow256(s.len()),
    decreases s.len(),
{
    if s.len() > 0 {
        let t = s.drop_first();
        lemma_le_bytes_of_value(t);
        let a = s[0] as nat;
        let b = le_value(t);
        assert((a + 256 * b) % 256 == a && (a + 256 * b) / 256 == b) by (nonlinear_arith)
            requires
                a < 256,
        ;
        assert(a + 256 * b < 256 * pow256(t.len())) by (nonlinear_arith)
            requires
                a < 256,
                b < pow256(t.len()),
        ;
        assert(le_bytes(le_value(s), s.len()) =~= s);
    }
}

pub proof fn lemma_pow256_8()
    ensures
        pow256(8) == 0x1_0000_0000_0000_0000nat,
{
    reveal_with_fuel(pow256, 9);
}

pub proof fn lemma_le_value_step(s: Seq<u8>, i: int)
    requires
        0 <= i < s.len(),
    ensures
        le_value(s.subrange(i, s.len() as int)) == s[i] as nat + 256 * le_value(
            s.subrange(i + 1, s.len() as int),
        ),
{
    assert(s.subrange(i, s.len() as int).drop_first() =~= s.subrange(i + 1, s.len() as int));
}

/// The `u64` stored little-endian at `input[pos..pos + 8]`.
pub fn read_u64_le(input: &[u8], pos: usize) -> (r: u64)
    requires
        pos + 8 <= input@.len(),
    ensures
        r as nat == le_value(input@.subrange(pos as int, pos + 8)),
{
    let ghost s = input@.subrange(pos as int, pos + 8);
    let mut r: u64 = 0;
    let mut i: usize = 8;
    let len = input.len();
    proof {
        lemma_pow256_8();
    }
    while i > 0
        invariant
            s == input@.subrange(pos as int, pos + 8),
            pos + 8 <= input@.len(),
            len == input@.len(),
            0 <= i <= 8,
            r as nat == le_value(s.subrange(i as int, 8)),
            pow256(8) == 0x1_0000_0000_0000_0000nat,
        decreases i,
    {
        i = i - 1;
        proof {
            lemma_le_value_step(s, i as int);
            lemma_le_bytes_of_value(s.subrange(i + 1, 8));
            assert(pow256((8 - i - 1) as nat) * 256 <= pow256(8)) by {
                lemma_pow256_mono((8 - i) as nat, 8);
            }
            assert(r as nat * 256 + 255 < pow256(8)) by (nonlinear_arith)
                requires
                    r < pow256((8 - i - 1) as nat),
                    pow256((8 - i - 1) as nat) * 256 <= pow256(8),
            ;
        }
        r = r * 256 + input[pos + i] as u64;
    }
    proof {
        assert(s.subrange(0, 8) =~= s);
    }
    r
}

pub proof fn lemma_pow256_mono(a: nat, b: nat)
    requires
        a <= b,
    ensures
        pow256(a) <= pow256(b),
        a > 0 ==> pow256(a) == 256 * pow256((a - 1) as nat),
    decreases b - a,
{
    if a < b {
        lemma_pow256_mono(a, (b - 1) as nat);
    }
}

/// Appends the eight little-endian bytes of `v`.
pub fn write_u64_le(dst: &mut Vec<u8>, v: u64)
    ensures
        final(dst)@ == old(dst)@ + le_bytes(v as nat, 8),
{
    let mut x: u64 = v;
    let mut k: usize = 0;
    while k < 8
        invariant
            0 <= k <= 8,
            dst@ + le_bytes(x as nat, (8 - k) as nat) == old(dst)@ + le_bytes(v as nat, 8),
        decreases 8 - k,
    {
        let ghost before = dst@;
        dst.push((x % 256) as u8);
        proof {
            assert(dst@ + le_bytes((x / 256) as nat, (8 - k - 1) as nat) =~= before + le_bytes(
                x as nat,
                (8 - k) as nat,
            ));
        }
        x = x / 256;
        k = k + 1;
    }
    proof {
        assert(dst@ + le_bytes(x as nat, 0) =~= dst@);
    }
}

/// Width of a public key.
pub const PUBKEY_LEN: usize = 32;

/// The keys laid end to end.
pub open spec fn flatten(ks: Seq<Seq<u8>>) -> Seq<u8>
    decreases ks.len(),
{
    if ks.len() == 0 {
        Seq::empty()
    } else {
        flatten(ks.drop_last()) + ks.last()
    }
}

/// Every key is 32 bytes long.
pub open spec fn all_keys_sized(ks: Seq<Seq<u8>>) -> bool {
    forall|i: int| 0 <= i < ks.len() ==> (#[trigger] ks[i]).len() == 32
}

/// The `n` consecutive 32-byte keys of `b` from `start` on.
pub open spec fn keys_at(b: Seq<u8>, start: int, n: nat) -> Seq<Seq<u8>> {
    Seq::new(n, |i: int| b.subrange(start + 32 * i, start + 32 * i + 32))
}

pub proof fn lemma_flatten_len(ks: Seq<Seq<u8>>)
    requires
        all_keys_sized(ks),
    ensures
        flatten(ks).len() == 32 * ks.len(),
    decreases ks.len(),
{
    if ks.len() > 0 {
        assert(all_keys_sized(ks.drop_last()));
        lemma_flatten_len(ks.drop_last());
    }
}

/// Cutting flattened keys back into 32-byte pieces gives the keys.
pub proof fn lemma_keys_at_flatten(pre: Seq<u8>, ks: Seq<Seq<u8>>, post: Seq<u8>)
    requires
        all_keys_sized(ks),
    ensures
        keys_at(pre + flatten(ks) + post, pre.len() as int, ks.len()) == ks,
    decreases ks.len(),
{
    if ks.len() > 0 {
        let d = ks.drop_last();
        assert(all_keys_sized(d));
        lemma_flatten_len(d);
        let b = pre + flatten(ks) + post;
        let post2 = ks.last() + post;
        assert(b =~= pre + flatten(d) + post2);
        lemma_keys_at_flatten(pre, d, post2);
        let n = ks.len() as int;
        assert forall|i: int| 0 <= i < n implies #[trigger] keys_at(b, pre.len() as int, ks.len())[i] == ks[i] by {
            if i < n - 1 {
                assert(keys_at(pre + flatten(d) + post2, pre.len() as int, d.len())[i] == d[i]);
            } else {
                assert(b.subrange(pre.len() + 32 * i, pre.len() + 32 * i + 32) =~= ks.last());
            }
        }
        assert(keys_at(b, pre.len() as int, ks.len()) =~= ks);
    }
}

/// Flattening the keys found in `b` gives back that stretch of `b`.
pub proof fn lemma_flatten_keys_at(b: Seq<u8>, start: int, n: nat)
    requires
        0 <= start,
        start + 32 * n <= b.len(),
    ensures
        flatten(keys_at(b, start, n)) == b.subrange(start, start + 32 * n),
        all_keys_sized(keys_at(b, start, n)),
    decreases n,
{
    if n > 0 {
        let k = keys_at(b, start, n);
        let d = keys_at(b, start, (n - 1) as nat);
        assert(k.drop_last() =~= d);
        lemma_flatten_keys_at(b, start, (n - 1) as nat);
        assert(b.subrange(start, start + 32 * n) =~= b.subrange(start, start + 32 * (n - 1))
            + b.subrange(start + 32 * (n - 1), start + 32 * n));
    }
}

/// Reads `n` consecutive 32-byte keys from `start` on.
pub fn read_keys(input: &[u8], start: usize, n: usize) -> (r: Vec<Vec<u8>>)
    requires
        start + 32 * n <= input@.len(),
    ensures
        keys_view(r@) == keys_at(input@, start as int, n as nat),
{
    let mut r: Vec<Vec<u8>> = Vec::new();
    let mut i: usize = 0;
    let len = input.len();
    while i < n
        invariant
            start + 32 * n <= input@.len(),
            len == input@.len(),
            0 <= i <= n,
            r@.len() == i,
            forall|j: int| 0 <= j < i ==> r@[j]@ == input@.subrange(start + 32 * j, start + 32 * j + 32),
        decreases n - i,
    {
        let from = start + 32 * i;
        r.push(copy_range(input, from, from + 32));
        i = i + 1;
    }
    assert(keys_view(r@) =~= keys_at(input@, start as int, n as nat));
    r
}

/// The `bft` keys that lie at the start of `range` within `bytes`, or
/// `ExtractionError` when the range does not lie inside the bytes or is too
/// short for them.
pub fn retrieve_oracles(bytes: &[u8], range: Range<usize>, bft: u8) -> (r: Result<Vec<Vec<u8>>, crate::error::ValidationError>)
    ensures
        r is Ok <==> (range.start <= range.end && range.end <= bytes@.len() && range.start + 32
            * bft <= range.end),
        r matches Ok(ks) ==> keys_view(ks@) == keys_at(bytes@, range.start as int, bft as nat),
        r is Err ==> r == Err::<Vec<Vec<u8>>, crate::error::ValidationError>(
            crate::error::ValidationError::ExtractionError,
        ),
{
    if range.start <= range.end && range.end <= bytes.len() && 32 * (bft as usize) <= range.end - range.start {
        Ok(read_keys(bytes, range.start, bft as usize))
    } else {
        Err(crate::error::ValidationError::ExtractionError)
    }
}

/// Appends the keys end to end.
pub fn write_keys(dst: &mut Vec<u8>, ks: &Vec<Vec<u8>>)
    ensures
        final(dst)@ == old(dst)@ + flatten(keys_view(ks@)),
{
    let mut i: usize = 0;
    while i < ks.len()
        invariant
            0 <= i <= ks@.len(),
            dst@ == old(dst)@ + flatten(keys_view(ks@.subrange(0, i as int))),
        decreases ks.len() - i,
    {
        append_bytes(dst, ks[i].as_slice());
        proof {
            let a = keys_view(ks@.subrange(0, i + 1));
            assert(a.drop_last() =~= keys_view(ks@.subrange(0, i as int)));
            assert(dst@ =~= old(dst)@ + flatten(a));
        }
        i = i + 1;
    }
    assert(ks@.subrange(0, ks@.len() as int) =~= ks@);
}

/// The eight bytes of a `u64` read back as it.
pub proof fn lemma_u64_round_trip(v: u64)
    ensures
        le_bytes(v as nat, 8).len() == 8,
        le_value(le_bytes(v as nat, 8)) == v,
{
    lemma_pow256_8();
    lemma_le_bytes_len(v as nat, 8);
    lemma_le_value_of_bytes(v as nat, 8);
}

/// Eight bytes written back from their value give the bytes.
pub proof fn lemma_u64_bytes_round_trip(s: Seq<u8>)
    requires
        s.len() == 8,
    ensures
        le_value(s) < 0x1_0000_0000_0000_0000nat,
        le_bytes(le_value(s), 8) == s,
{
    lemma_pow256_8();
    lemma_le_bytes_of_value(s);
}

} // verus!
