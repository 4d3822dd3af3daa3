//! Fixed-width little-endian primitives shared by every record layout.
use vstd::prelude::*;
use vstd::bytes::*;
use crate::error::ProcessError;
use crate::key::Key;

verus! {

broadcast use vstd::array::group_array_axioms;

pub open spec fn bool_byte(b: bool) -> u8 {
    if b { 1u8 } else { 0u8 }
}

pub open spec fn zeros(n: nat) -> Seq<u8> {
    Seq::new(n, |i: int| 0u8)
}

pub open spec fn le_u16(x: u16) -> Seq<u8> {
    spec_u16_to_le_bytes(x)
}

pub open spec fn le_u64(x: u64) -> Seq<u8> {
    spec_u64_to_le_bytes(x)
}

/// An `i64` is stored as the two's-complement bits of the same width.
pub open spec fn le_i64(x: i64) -> Seq<u8> {
    spec_u64_to_le_bytes(x as u64)
}

pub open spec fn u16_at(s: Seq<u8>, off: int) -> u16 {
    spec_u16_from_le_bytes(s.subrange(off, off + 2))
}

pub open spec fn u64_at(s: Seq<u8>, off: int) -> u64 {
    spec_u64_from_le_bytes(s.subrange(off, off + 8))
}

pub open spec fn i64_at(s: Seq<u8>, off: int) -> i64 {
    u64_at(s, off) as i64
}

pub open spec fn key_at(s: Seq<u8>, off: int) -> Seq<u8> {
    s.subrange(off, off + 32)
}

/// A boolean byte is valid only when it is 0 or 1.
pub open spec fn bool_valid(s: Seq<u8>, off: int) -> bool {
    s[off] == 0 || s[off] == 1
}

pub open spec fn bool_at(s: Seq<u8>, off: int) -> bool {
    s[off] == 1
}

/// Reading back what `le_u16` wrote gives the value again.
pub proof fn lemma_u16_round_trip(s: Seq<u8>, off: int, x: u16)
    requires
        0 <= off,
        off + 2 <= s.len(),
        s.subrange(off, off + 2) == le_u16(x),
    ensures
        u16_at(s, off) == x,
{
    lemma_auto_spec_u16_to_from_le_bytes();
    assert(spec_u16_to_le_bytes(x).len() == 2);
}

/// Reading back what `le_u64` wrote gives the value again.
pub proof fn lemma_u64_round_trip(s: Seq<u8>, off: int, x: u64)
    requires
        0 <= off,
        off + 8 <= s.len(),
        s.subrange(off, off + 8) == le_u64(x),
    ensures
        u64_at(s, off) == x,
{
    lemma_auto_spec_u64_to_from_le_bytes();
}

/// Reading back what `le_i64` wrote gives the value again.
pub proof fn lemma_i64_round_trip(s: Seq<u8>, off: int, x: i64)
    requires
        0 <= off,
        off + 8 <= s.len(),
        s.subrange(off, off + 8) == le_i64(x),
    ensures
        i64_at(s, off) == x,
{
    lemma_auto_spec_u64_to_from_le_bytes();
    assert((x as u64) as i64 == x) by (bit_vector);
}

pub proof fn lemma_le_lengths(a: u16, b: u64, c: i64)
    ensures
        le_u16(a).len() == 2,
        le_u64(b).len() == 8,
        le_i64(c).len() == 8,
{
    lemma_auto_spec_u16_to_from_le_bytes();
    lemma_auto_spec_u64_to_from_le_bytes();
}

pub fn append_u16(out: &mut Vec<u8>, x: u16)
    ensures
        final(out)@ == old(out)@ + le_u16(x),
{
    let mut b = u16_to_le_bytes(x);
    out.append(&mut b);
}

pub fn append_u64(out: &mut Vec<u8>, x: u64)
    ensures
        final(out)@ == old(out)@ + le_u64(x),
{
    let mut b = u64_to_le_bytes(x);
    out.append(&mut b);
}

pub fn append_i64(out: &mut Vec<u8>, x: i64)
    ensures
        final(out)@ == old(out)@ + le_i64(x),
{
    let mut b = u64_to_le_bytes(#[verifier::truncate] (x as u64));
    out.append(&mut b);
}

pub fn append_bool(out: &mut Vec<u8>, b: bool)
    ensures
        final(out)@ == old(out)@.push(bool_byte(b)),
{
    if b {
        out.push(1u8);
    } else {
        out.push(0u8);
    }
}

pub fn append_key(out: &mut Vec<u8>, k: &Key)
    ensures
        final(out)@ == old(out)@ + k@,
{
    let ghost start = out@;
    let mut i: usize = 0;
    while i < 32
        invariant
            i <= 32,
            k@.len() == 32,
            out@ == start + k@.subrange(0, i as int),
        decreases 32 - i,
    {
        out.push(k.bytes[i]);
        i = i + 1;
        assert(out@ =~= start + k@.subrange(0, i as int));
    }
    assert(k@.subrange(0, 32) =~= k@);
}

pub fn append_zeros(out: &mut Vec<u8>, n: usize)
    ensures
        final(out)@ == old(out)@ + zeros(n as nat),
{
    let ghost start = out@;
    let mut i: usize = 0;
    while i < n
        invariant
            i <= n,
            out@ == start + zeros(i as nat),
        decreases n - i,
    {
        out.push(0u8);
        i = i + 1;
        assert(out@ =~= start + zeros(i as nat));
    }
}

pub fn read_u16(src: &[u8], off: usize) -> (r: u16)
    requires
        off + 2 <= src@.len(),
    ensures
        r == u16_at(src@, off as int),
{
    let _len = src.len();
    u16_from_le_bytes(&src[off..off + 2])
}

pub fn read_u64(src: &[u8], off: usize) -> (r: u64)
    requires
        off + 8 <= src@.len(),
    ensures
        r == u64_at(src@, off as int),
{
    let _len = src.len();
    u64_from_le_bytes(&src[off..off + 8])
}

pub fn read_i64(src: &[u8], off: usize) -> (r: i64)
    requires
        off + 8 <= src@.len(),
    ensures
        r == i64_at(src@, off as int),
{
    let _len = src.len();
    let u = u64_from_le_bytes(&src[off..off + 8]);
    #[verifier::truncate]
    (u as i64)
}

pub fn read_key(src: &[u8], off: usize) -> (r: Key)
    requires
        off + 32 <= src@.len(),
    ensures
        r@ == key_at(src@, off as int),
{
    let _len = src.len();
    let mut bytes = [0u8; 32];
    let mut i: usize = 0;
    while i < 32
        invariant
            i <= 32,
            off + 32 <= src@.len(),
            _len == src@.len(),
            forall|j: int| 0 <= j < i ==> bytes@[j] == src@[off + j],
        decreases 32 - i,
    {
        bytes[i] = src[off + i];
        i = i + 1;
    }
    let r = Key { bytes };
    assert(r@ =~= key_at(src@, off as int));
    r
}

/// Decodes a boolean byte; any value but 0 or 1 is rejected.
pub fn read_bool(src: &[u8], off: usize) -> (r: Result<bool, ProcessError>)
    requires
        off < src@.len(),
    ensures
        r is Ok <==> bool_valid(src@, off as int),
        r matches Ok(b) ==> b == bool_at(src@, off as int),
        r matches Err(e) ==> e == ProcessError::InvalidAccountData,
{
    let b = [src[off]];
    proof {
        assert(b@[0] == src@[off as int]);
    }
    unpack_bool(&b)
}

/// Writes a boolean as one byte, 1 for true and 0 for false.
pub fn pack_bool(boolean: bool, dst: &mut [u8; 1])
    ensures
        final(dst)@ == seq![bool_byte(boolean)],
{
    dst[0] = if boolean { 1u8 } else { 0u8 };
    assert(dst@ =~= seq![bool_byte(boolean)]);
}

/// Reads a boolean byte; any value but 0 or 1 is rejected.
pub fn unpack_bool(src: &[u8; 1]) -> (r: Result<bool, ProcessError>)
    ensures
        r is Ok <==> bool_valid(src@, 0),
        r matches Ok(b) ==> b == bool_at(src@, 0),
        r matches Err(e) ==> e == ProcessError::InvalidAccountData,
{
    let b = src[0];
    if b == 0 {
        Ok(false)
    } else if b == 1 {
        Ok(true)
    } else {
        Err(ProcessError::InvalidAccountData)
    }
}

/// Copies `src` over the front of `dst`, leaving the rest of `dst` as it was.
pub fn copy_prefix(dst: &mut [u8], src: &Vec<u8>)
    requires
        src@.len() <= old(dst)@.len(),
    ensures
        final(dst)@.len() == old(dst)@.len(),
        final(dst)@.subrange(0, src@.len() as int) == src@,
        final(dst)@.subrange(src@.len() as int, old(dst)@.len() as int)
            == old(dst)@.subrange(src@.len() as int, old(dst)@.len() as int),
{
    let ghost start = dst@;
    let n = src.len();
    let mut i: usize = 0;
    while i < n
        invariant
            i <= n,
            n == src@.len(),
            n <= start.len(),
            dst@.len() == start.len(),
            forall|j: int| 0 <= j < i ==> dst@[j] == src@[j],
            forall|j: int| i <= j < start.len() ==> dst@[j] == start[j],
        decreases n - i,
    {
        dst[i] = src[i];
        i = i + 1;
    }
    assert(dst@.subrange(0, n as int) =~= src@);
    assert(dst@.subrange(n as int, start.len() as int) =~= start.subrange(n as int, start.len() as int));
}

} // verus!

verus! {

/// Keys laid end to end, 32 bytes each, with no count or padding.
pub open spec fn keys_bytes(ks: Seq<Seq<u8>>) -> Seq<u8>
    decreases ks.len(),
{
    if ks.len() == 0 {
        Seq::empty()
    } else {
        keys_bytes(ks.drop_last()) + ks.last()
    }
}

/// The `n` keys stored back to back from `off`.
pub open spec fn keys_from(s: Seq<u8>, off: int, n: nat) -> Seq<Seq<u8>> {
    Seq::new(n, |i: int| key_at(s, off + 32 * i))
}

pub open spec fn all_keys_sized(ks: Seq<Seq<u8>>) -> bool {
    forall|i: int| 0 <= i < ks.len() ==> (#[trigger] ks[i]).len() == 32
}

pub open spec fn key_views(ks: Seq<Key>) -> Seq<Seq<u8>> {
    ks.map_values(|k: Key| k@)
}

pub proof fn lemma_key_views_sized(ks: Seq<Key>)
    ensures
        all_keys_sized(key_views(ks)),
        key_views(ks).len() == ks.len(),
{
}

pub proof fn lemma_keys_bytes(ks: Seq<Seq<u8>>)
    requires
        all_keys_sized(ks),
    ensures
        keys_bytes(ks).len() == 32 * ks.len(),
        forall|i: int|
            0 <= i < ks.len() ==> #[trigger] keys_bytes(ks).subrange(32 * i, 32 * i + 32) == ks[i],
    decreases ks.len(),
{
    if ks.len() > 0 {
        let init = ks.drop_last();
        lemma_keys_bytes(init);
        let p = keys_bytes(init);
        assert forall|i: int| 0 <= i < ks.len() implies #[trigger] keys_bytes(ks).subrange(
            32 * i,
            32 * i + 32,
        ) == ks[i] by {
            if i < ks.len() - 1 {
                assert(keys_bytes(ks).subrange(32 * i, 32 * i + 32) =~= p.subrange(
                    32 * i,
                    32 * i + 32,
                ));
                assert(init[i] == ks[i]);
            } else {
                assert(keys_bytes(ks).subrange(32 * i, 32 * i + 32) =~= ks.last());
            }
        }
    }
}

/// A buffer whose bytes from `off` are the encoding of `ks` holds `ks` there.
pub proof fn lemma_keys_round_trip(s: Seq<u8>, off: int, ks: Seq<Seq<u8>>)
    requires
        all_keys_sized(ks),
        0 <= off,
        off + 32 * ks.len() <= s.len(),
        s.subrange(off, off + 32 * ks.len()) == keys_bytes(ks),
    ensures
        keys_from(s, off, ks.len()) == ks,
{
    lemma_keys_bytes(ks);
    assert forall|i: int| 0 <= i < ks.len() implies #[trigger] keys_from(s, off, ks.len())[i]
        == ks[i] by {
        assert(key_at(s, off + 32 * i) =~= keys_bytes(ks).subrange(32 * i, 32 * i + 32));
    }
    assert(keys_from(s, off, ks.len()) =~= ks);
}

pub fn append_keys(out: &mut Vec<u8>, ks: &Vec<Key>)
    ensures
        final(out)@ == old(out)@ + keys_bytes(key_views(ks@)),
{
    let ghost start = out@;
    let mut i: usize = 0;
    while i < ks.len()
        invariant
            i <= ks@.len(),
            out@ == start + keys_bytes(key_views(ks@.subrange(0, i as int))),
        decreases ks@.len() - i,
    {
        let ghost before = out@;
        append_key(out, &ks[i]);
        proof {
            let prev = key_views(ks@.subrange(0, i as int));
            let next = key_views(ks@.subrange(0, i + 1));
            assert(next.drop_last() =~= prev);
            assert(next.last() == ks@[i as int]@);
            assert(out@ =~= start + keys_bytes(next));
        }
        i = i + 1;
    }
    assert(ks@.subrange(0, ks@.len() as int) =~= ks@);
}

pub fn read_keys(src: &[u8], off: usize, n: usize) -> (r: Vec<Key>)
    requires
        off + 32 * n <= src@.len(),
    ensures
        key_views(r@) == keys_from(src@, off as int, n as nat),
        r@.len() == n,
{
    let _len = src.len();
    let mut r: Vec<Key> = Vec::with_capacity(n);
    let mut i: usize = 0;
    while i < n
        invariant
            i <= n,
            off + 32 * n <= src@.len(),
            _len == src@.len(),
            r@.len() == i,
            key_views(r@) == keys_from(src@, off as int, i as nat),
        decreases n - i,
    {
        let k = read_key(src, off + 32 * i);
        let ghost prev = r@;
        r.push(k);
        assert(key_views(r@) =~= key_views(prev).push(k@));
        i = i + 1;
        assert(key_views(r@) =~= keys_from(src@, off as int, i as nat));
    }
    r
}

/// Linear scan for a key.
pub fn contains_key(ks: &Vec<Key>, k: &Key) -> (r: bool)
    ensures
        r == key_views(ks@).contains(k@),
{
    let mut i: usize = 0;
    while i < ks.len()
        invariant
            i <= ks@.len(),
            forall|j: int| 0 <= j < i ==> ks@[j]@ != k@,
        decreases ks@.len() - i,
    {
        if ks[i].same_as(k) {
            assert(key_views(ks@)[i as int] == k@);
            return true;
        }
        i = i + 1;
    }
    proof {
        if key_views(ks@).contains(k@) {
            let j = choose|j: int| 0 <= j < key_views(ks@).len() && key_views(ks@)[j] == k@;
            assert(ks@[j]@ == k@);
        }
    }
    false
}

/// Index of the first occurrence of a key.
pub fn position_of(ks: &Vec<Key>, k: &Key) -> (r: Option<usize>)
    ensures
        r is None <==> !key_views(ks@).contains(k@),
        r matches Some(i) ==> i < ks@.len() && ks@[i as int]@ == k@ && forall|j: int|
            0 <= j < i ==> ks@[j]@ != k@,
{
    let mut i: usize = 0;
    while i < ks.len()
        invariant
            i <= ks@.len(),
            forall|j: int| 0 <= j < i ==> ks@[j]@ != k@,
        decreases ks@.len() - i,
    {
        if ks[i].same_as(k) {
            assert(key_views(ks@)[i as int] == k@);
            return Some(i);
        }
        i = i + 1;
    }
    proof {
        if key_views(ks@).contains(k@) {
            let j = choose|j: int| 0 <= j < key_views(ks@).len() && key_views(ks@)[j] == k@;
            assert(ks@[j]@ == k@);
        }
    }
    None
}

} // verus!
