//! The compact form of a sequence: the count of its entries in eight bytes,
//! least significant first, and then the entries' own bytes, one after the
//! other. This is how the arithmetic library's serialization writes a `Vec`.

use vstd::prelude::*;

verus! {

/// The eight bytes of the count `n`, least significant first.
pub open spec fn count_bytes(n: nat) -> Seq<u8> {
    let n1 = n / 256;
    let n2 = n1 / 256;
    let n3 = n2 / 256;
    let n4 = n3 / 256;
    let n5 = n4 / 256;
    let n6 = n5 / 256;
    let n7 = n6 / 256;
    seq![
        (n % 256) as u8,
        (n1 % 256) as u8,
        (n2 % 256) as u8,
        (n3 % 256) as u8,
        (n4 % 256) as u8,
        (n5 % 256) as u8,
        (n6 % 256) as u8,
        (n7 % 256) as u8,
    ]
}

/// The count that the first eight bytes of `b` spell.
pub open spec fn count_of(b: Seq<u8>) -> nat
    recommends
        b.len() >= 8,
{
    b[0] as nat + 256 * (b[1] as nat + 256 * (b[2] as nat + 256 * (b[3] as nat + 256 * (b[4] as nat
        + 256 * (b[5] as nat + 256 * (b[6] as nat + 256 * (b[7] as nat)))))))
}

/// The bytes of the entries, one entry after the other.
pub open spec fn concat(parts: Seq<Seq<u8>>) -> Seq<u8>
    decreases parts.len(),
{
    if parts.len() == 0 {
        Seq::<u8>::empty()
    } else {
        concat(parts.drop_last()) + parts.last()
    }
}

/// The compact form of a sequence with the entries `parts`.
pub open spec fn framed(parts: Seq<Seq<u8>>) -> Seq<u8> {
    count_bytes(parts.len()) + concat(parts)
}

/// The bytes of entry `i` where every entry takes `size` bytes.
pub open spec fn entry(bytes: Seq<u8>, size: nat, i: int) -> Seq<u8> {
    bytes.subrange(8 + i * size, 8 + (i + 1) * size)
}

/// The entries of `size` bytes each that the compact form `bytes` holds:
/// as many as its count says. `None` where the bytes are too few for the
/// count; bytes behind the last entry are not read.
pub open spec fn split_spec(bytes: Seq<u8>, size: nat) -> Option<Seq<Seq<u8>>> {
    if bytes.len() < 8 {
        None
    } else if bytes.len() < 8 + count_of(bytes) * size {
        None
    } else {
        Some(Seq::new(count_of(bytes), |i: int| entry(bytes, size, i)))
    }
}

/// The byte sequences that a vector of byte vectors holds.
pub open spec fn parts_view(parts: Seq<Vec<u8>>) -> Seq<Seq<u8>> {
    Seq::new(parts.len(), |i: int| parts[i]@)
}

/// A count below two to the sixty-four is read back from its eight bytes.
pub proof fn lemma_count_round_trip(n: nat)
    requires
        n < 0x1_0000_0000_0000_0000,
    ensures
        count_bytes(n).len() == 8,
        count_of(count_bytes(n)) == n,
{
    let n1 = n / 256;
    let n2 = n1 / 256;
    let n3 = n2 / 256;
    let n4 = n3 / 256;
    let n5 = n4 / 256;
    let n6 = n5 / 256;
    let n7 = n6 / 256;
    assert(n7 < 256);
    let b = count_bytes(n);
    assert(b[0] as nat == n % 256);
    assert(b[1] as nat == n1 % 256);
    assert(b[2] as nat == n2 % 256);
    assert(b[3] as nat == n3 % 256);
    assert(b[4] as nat == n4 % 256);
    assert(b[5] as nat == n5 % 256);
    assert(b[6] as nat == n6 % 256);
    assert(b[7] as nat == n7);
    assert(n6 == b[6] as nat + 256 * n7);
    assert(n5 == b[5] as nat + 256 * n6);
    assert(n4 == b[4] as nat + 256 * n5);
    assert(n3 == b[3] as nat + 256 * n4);
    assert(n2 == b[2] as nat + 256 * n3);
    assert(n1 == b[1] as nat + 256 * n2);
    assert(n == b[0] as nat + 256 * n1);
}

/// Entries of one size take the product of their number and the size.
pub proof fn lemma_concat_len(parts: Seq<Seq<u8>>, size: nat)
    requires
        forall|i: int| 0 <= i < parts.len() ==> (#[trigger] parts[i]).len() == size,
    ensures
        concat(parts).len() == parts.len() * size,
    decreases parts.len(),
{
    if parts.len() > 0 {
        let head = parts.drop_last();
        assert forall|i: int| 0 <= i < head.len() implies (#[trigger] head[i]).len() == size by {
            assert(head[i] == parts[i]);
        }
        lemma_concat_len(head, size);
        assert(parts.len() * size == head.len() * size + size) by (nonlinear_arith)
            requires
                parts.len() == head.len() + 1,
        ;
    } else {
        assert(parts.len() * size == 0) by (nonlinear_arith)
            requires
                parts.len() == 0,
        ;
    }
}

/// Among entries of one size, entry `i` lies at `i` times the size.
pub proof fn lemma_concat_entry(parts: Seq<Seq<u8>>, size: nat, i: int)
    requires
        forall|k: int| 0 <= k < parts.len() ==> (#[trigger] parts[k]).len() == size,
        0 <= i < parts.len(),
    ensures
        i * size >= 0,
        (i + 1) * size <= concat(parts).len(),
        concat(parts).subrange(i * size, (i + 1) * size) == parts[i],
    decreases parts.len(),
{
    let head = parts.drop_last();
    assert forall|k: int| 0 <= k < head.len() implies (#[trigger] head[k]).len() == size by {
        assert(head[k] == parts[k]);
    }
    lemma_concat_len(head, size);
    lemma_concat_len(parts, size);
    assert(i * size >= 0 && (i + 1) * size == i * size + size && (i + 1) * size <= parts.len()
        * size) by (nonlinear_arith)
        requires
            0 <= i < parts.len(),
    ;
    if i == parts.len() - 1 {
        assert(concat(parts).subrange(i * size, (i + 1) * size) =~= parts[i]);
    } else {
        lemma_concat_entry(head, size, i);
        assert(head[i] == parts[i]);
        assert(concat(parts).subrange(i * size, (i + 1) * size) =~= concat(head).subrange(
            i * size,
            (i + 1) * size,
        ));
    }
}

/// Round trip: the compact form of entries of one size is split into those
/// very entries.
pub proof fn lemma_split_framed(parts: Seq<Seq<u8>>, size: nat)
    requires
        parts.len() < 0x1_0000_0000_0000_0000,
        forall|i: int| 0 <= i < parts.len() ==> (#[trigger] parts[i]).len() == size,
    ensures
        split_spec(framed(parts), size) == Some(parts),
{
    let b = framed(parts);
    lemma_count_round_trip(parts.len());
    lemma_concat_len(parts, size);
    assert(count_of(b) == count_of(count_bytes(parts.len()))) by {
        assert(b.subrange(0, 8) =~= count_bytes(parts.len()));
        assert(forall|k: int| 0 <= k < 8 ==> b[k] == count_bytes(parts.len())[k]);
    }
    let got = Seq::new(count_of(b), |i: int| entry(b, size, i));
    assert forall|i: int| 0 <= i < parts.len() implies got[i] == parts[i] by {
        lemma_concat_entry(parts, size, i);
        let lo = i * size;
        let hi = (i + 1) * size;
        assert(lo <= hi) by (nonlinear_arith)
            requires
                lo == i * size,
                hi == (i + 1) * size,
        ;
        assert(b.subrange(8 + lo, 8 + hi) =~= concat(parts).subrange(lo, hi));
    }
    assert(got =~= parts);
}

/// The bytes of the entries `parts`, one entry after the other.
pub fn join(parts: &Vec<Vec<u8>>) -> (r: Vec<u8>)
    ensures
        r@ == concat(parts_view(parts@)),
{
    let mut out: Vec<u8> = Vec::new();
    append_all(&mut out, parts);
    assert(out@ =~= concat(parts_view(parts@)));
    out
}

/// Puts the bytes of the entries `parts` behind what `out` holds.
fn append_all(out: &mut Vec<u8>, parts: &Vec<Vec<u8>>)
    ensures
        final(out)@ == old(out)@ + concat(parts_view(parts@)),
{
    let n: usize = parts.len();
    let ghost before = out@;
    let mut i: usize = 0;
    proof {
        assert(parts_view(parts@).subrange(0, 0) =~= Seq::<Seq<u8>>::empty());
        assert(out@ =~= before + concat(parts_view(parts@).subrange(0, 0)));
    }
    while i < n
        invariant
            i <= n,
            n == parts.len(),
            out@ == before + concat(parts_view(parts@).subrange(0, i as int)),
        decreases n - i,
    {
        let mut piece: Vec<u8> = parts[i].clone();
        proof {
            let next = parts_view(parts@).subrange(0, i + 1);
            assert(next.drop_last() =~= parts_view(parts@).subrange(0, i as int));
            assert(next.last() == parts@[i as int]@);
        }
        out.append(&mut piece);
        assert(out@ =~= before + concat(parts_view(parts@).subrange(0, i + 1)));
        i = i + 1;
    }
    proof {
        assert(parts_view(parts@).subrange(0, n as int) =~= parts_view(parts@));
    }
}

/// The compact form of a sequence with the entries `parts`.
pub fn frame(parts: &Vec<Vec<u8>>) -> (r: Vec<u8>)
    ensures
        r@ == framed(parts_view(parts@)),
{
    let n: usize = parts.len();
    let c: u64 = n as u64;
    let c1: u64 = c / 256;
    let c2: u64 = c1 / 256;
    let c3: u64 = c2 / 256;
    let c4: u64 = c3 / 256;
    let c5: u64 = c4 / 256;
    let c6: u64 = c5 / 256;
    let c7: u64 = c6 / 256;
    let mut out: Vec<u8> = vec![
        (c % 256) as u8,
        (c1 % 256) as u8,
        (c2 % 256) as u8,
        (c3 % 256) as u8,
        (c4 % 256) as u8,
        (c5 % 256) as u8,
        (c6 % 256) as u8,
        (c7 % 256) as u8,
    ];
    assert(out@ =~= count_bytes(n as nat));
    append_all(&mut out, parts);
    out
}

/// Splits the compact form `bytes` into its entries of `size` bytes each.
pub fn split(bytes: &[u8], size: usize) -> (r: Option<Vec<Vec<u8>>>)
    requires
        size > 0,
    ensures
        match split_spec(bytes@, size as nat) {
            None => r.is_none(),
            Some(s) => r.is_some() && parts_view(r.unwrap()@) == s,
        },
{
    if bytes.len() < 8 {
        return None;
    }
    let v7: u64 = bytes[7] as u64;
    let v6: u64 = bytes[6] as u64 + 256 * v7;
    let v5: u64 = bytes[5] as u64 + 256 * v6;
    let v4: u64 = bytes[4] as u64 + 256 * v5;
    let v3: u64 = bytes[3] as u64 + 256 * v4;
    let v2: u64 = bytes[2] as u64 + 256 * v3;
    let v1: u64 = bytes[1] as u64 + 256 * v2;
    let count: u64 = bytes[0] as u64 + 256 * v1;
    assert(count == count_of(bytes@));
    let room: usize = (bytes.len() - 8) / size;
    assert((bytes@.len() < 8 + count * size) == (room < count)) by (nonlinear_arith)
        requires
            size > 0,
            count >= 0,
            bytes@.len() >= 8,
            room == (bytes@.len() - 8) / (size as int),
    ;
    if (room as u64) < count {
        return None;
    }
    let n: usize = count as usize;
    let total: usize = bytes.len();
    let mut out: Vec<Vec<u8>> = Vec::new();
    let mut i: usize = 0;
    while i < n
        invariant
            i <= n,
            n == count_of(bytes@),
            size > 0,
            total == bytes@.len(),
            total >= 8 + n * size,
            out.len() == i,
            forall|k: int| 0 <= k < i ==> (#[trigger] out[k])@ == entry(bytes@, size as nat, k),
        decreases n - i,
    {
        assert(0 <= i * size <= n * size && (i + 1) * size <= n * size && (i + 1) * size == i
            * size + size) by (nonlinear_arith)
            requires
                0 <= i < n,
                size > 0,
        ;
        let start: usize = 8 + i * size;
        let piece: Vec<u8> = vstd::slice::slice_to_vec(
            vstd::slice::slice_subrange(bytes, start, start + size),
        );
        out.push(piece);
        i = i + 1;
    }
    assert(parts_view(out@) =~= Seq::new(count_of(bytes@), |k: int| entry(bytes@, size as nat, k)));
    Some(out)
}

} // verus!
