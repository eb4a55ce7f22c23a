//! Big-endian integers and byte ranges.

use vstd::prelude::*;

verus! {

/// The `width` low-order base-256 digits of `n`, most significant first.
pub open spec fn be_bytes(n: nat, width: nat) -> Seq<u8>
    decreases width,
{
    if width == 0 {
        Seq::empty()
    } else {
        be_bytes(n / 256, (width - 1) as nat).push((n % 256) as u8)
    }
}

/// The number that a byte string writes in base 256, most significant byte first.
pub open spec fn be_value(s: Seq<u8>) -> nat
    decreases s.len(),
{
    if s.len() == 0 {
        0
    } else {
        be_value(s.drop_last()) * 256 + s.last() as nat
    }
}

/// `256` to the power `width`.
pub open spec fn pow256(width: nat) -> nat
    decreases width,
{
    if width == 0 {
        1
    } else {
        256 * pow256((width - 1) as nat)
    }
}

pub proof fn lemma_be_bytes_len(n: nat, width: nat)
    ensures
        be_bytes(n, width).len() == width,
    decreases width,
{
    if width > 0 {
        lemma_be_bytes_len(n / 256, (width - 1) as nat);
    }
}

pub proof fn lemma_be_value_bound(s: Seq<u8>)
    ensures
        be_value(s) < pow256(s.len()),
    decreases s.len(),
{
    if s.len() > 0 {
        lemma_be_value_bound(s.drop_last());
    }
}

/// Reading back what was written gives the number modulo the width.
pub proof fn lemma_be_roundtrip(n: nat, width: nat)
    requires
        n < pow256(width),
    ensures
        be_value(be_bytes(n, width)) == n,
    decreases width,
{
    if width > 0 {
        lemma_be_roundtrip(n / 256, (width - 1) as nat);
        let s = be_bytes(n, width);
        assert(s.drop_last() =~= be_bytes(n / 256, (width - 1) as nat));
    }
}

pub proof fn lemma_pow256_values()
    ensures
        pow256(1) == 0x100,
        pow256(2) == 0x1_0000,
        pow256(4) == 0x1_0000_0000,
        pow256(8) == 0x1_0000_0000_0000_0000,
{
    reveal_with_fuel(pow256, 9);
}

/// Appends the `width` low-order bytes of `n`, most significant first.
pub fn push_be(buf: &mut Vec<u8>, n: u64, width: usize)
    ensures
        final(buf)@ == old(buf)@ + be_bytes(n as nat, width as nat),
    decreases width,
{
    if width > 0 {
        push_be(buf, n / 256, width - 1);
        buf.push((n % 256) as u8);
    }
}

/// The big-endian number held by `data[from..to]`.
pub fn read_be(data: &[u8], from: usize, to: usize) -> (r: u64)
    requires
        from <= to <= data@.len(),
        to - from <= 8,
    ensures
        r as nat == be_value(data@.subrange(from as int, to as int)),
        (r as nat) < pow256((to - from) as nat),
{
    let mut acc: u64 = 0;
    let mut i: usize = from;
    while i < to
        invariant
            from <= i <= to <= data@.len(),
            to - from <= 8,
            acc as nat == be_value(data@.subrange(from as int, i as int)),
        decreases to - i,
    {
        proof {
            let s = data@.subrange(from as int, i + 1);
            assert(s.drop_last() =~= data@.subrange(from as int, i as int));
            lemma_be_value_bound(s);
            lemma_pow256_monotone(s.len(), 8);
            lemma_pow256_values();
        }
        acc = acc * 256 + data[i] as u64;
        i = i + 1;
    }
    proof {
        lemma_be_value_bound(data@.subrange(from as int, to as int));
    }
    acc
}

pub proof fn lemma_pow256_monotone(a: nat, b: nat)
    requires
        a <= b,
    ensures
        0 < pow256(a) <= pow256(b),
    decreases b,
{
    if a < b {
        lemma_pow256_monotone(a, (b - 1) as nat);
    } else if b > 0 {
        lemma_pow256_monotone((a - 1) as nat, (b - 1) as nat);
    }
}

/// A copy of `data[from..to]`.
pub fn copy_range(data: &[u8], from: usize, to: usize) -> (r: Vec<u8>)
    requires
        from <= to <= data@.len(),
    ensures
        r@ == data@.subrange(from as int, to as int),
{
    let mut out: Vec<u8> = Vec::new();
    let mut i: usize = from;
    while i < to
        invariant
            from <= i <= to <= data@.len(),
            out@ == data@.subrange(from as int, i as int),
        decreases to - i,
    {
        out.push(data[i]);
        i = i + 1;
        assert(out@ =~= data@.subrange(from as int, i as int));
    }
    out
}

/// Appends `bytes` to `buf`.
pub fn append_bytes(buf: &mut Vec<u8>, bytes: &[u8])
    ensures
        final(buf)@ == old(buf)@ + bytes@,
{
    let mut i: usize = 0;
    let ghost start = buf@;
    assert(bytes@.take(0) =~= Seq::<u8>::empty());
    assert(buf@ =~= start + bytes@.take(0));
    while i < bytes.len()
        invariant
            i <= bytes@.len(),
            buf@ == start + bytes@.take(i as int),
        decreases bytes@.len() - i,
    {
        buf.push(bytes[i]);
        i = i + 1;
        assert(buf@ =~= start + bytes@.take(i as int));
    }
    assert(bytes@.take(i as int) =~= bytes@);
}

/// The four bytes from `from` on.
pub fn array4(data: &[u8], from: usize) -> (r: [u8; 4])
    requires
        from + 4 <= data@.len(),
    ensures
        r@ == data@.subrange(from as int, from + 4),
{
    let r = [data[from], data[from + 1], data[from + 2], data[from + 3]];
    assert(r@ =~= data@.subrange(from as int, from + 4));
    r
}

/// The eight bytes from `from` on.
pub fn array8(data: &[u8], from: usize) -> (r: [u8; 8])
    requires
        from + 8 <= data@.len(),
    ensures
        r@ == data@.subrange(from as int, from + 8),
{
    let r = [
        data[from],
        data[from + 1],
        data[from + 2],
        data[from + 3],
        data[from + 4],
        data[from + 5],
        data[from + 6],
        data[from + 7],
    ];
    assert(r@ =~= data@.subrange(from as int, from + 8));
    r
}

/// The thirty-two bytes from `from` on.
pub fn array32(data: &[u8], from: usize) -> (r: [u8; 32])
    requires
        from + 32 <= data@.len(),
    ensures
        r@ == data@.subrange(from as int, from + 32),
{
    let mut r: [u8; 32] = [0u8; 32];
    let mut i: usize = 0;
    let len: usize = data.len();
    while i < 32
        invariant
            i <= 32,
            from + 32 <= len,
            len == data@.len(),
            forall|j: int| 0 <= j < i ==> r@[j] == data@[from + j],
        decreases 32 - i,
    {
        r[i] = data[from + i];
        i = i + 1;
    }
    assert(r@ =~= data@.subrange(from as int, from + 32));
    r
}

/// The sixty-four bytes from `from` on.
pub fn array64(data: &[u8], from: usize) -> (r: [u8; 64])
    requires
        from + 64 <= data@.len(),
    ensures
        r@ == data@.subrange(from as int, from + 64),
{
    let mut r: [u8; 64] = [0u8; 64];
    let mut i: usize = 0;
    let len: usize = data.len();
    while i < 64
        invariant
            i <= 64,
            from + 64 <= len,
            len == data@.len(),
            forall|j: int| 0 <= j < i ==> r@[j] == data@[from + j],
        decreases 64 - i,
    {
        r[i] = data[from + i];
        i = i + 1;
    }
    assert(r@ =~= data@.subrange(from as int, from + 64));
    r
}

/// Reading from the middle of a longer string what was written there.
pub proof fn lemma_be_read_back(s: Seq<u8>, from: int, n: nat, width: nat)
    requires
        0 <= from,
        from + width <= s.len(),
        s.subrange(from, from + width) == be_bytes(n, width),
        n < pow256(width),
    ensures
        be_value(s.subrange(from, from + width)) == n,
{
    lemma_be_roundtrip(n, width);
}

/// Writing the number that was read gives the bytes back.
pub proof fn lemma_be_write_back(s: Seq<u8>)
    ensures
        be_bytes(be_value(s), s.len()) == s,
    decreases s.len(),
{
    if s.len() > 0 {
        lemma_be_write_back(s.drop_last());
        assert(be_bytes(be_value(s), s.len()) =~= s);
    } else {
        assert(be_bytes(be_value(s), s.len()) =~= s);
    }
}

/// Whether two byte strings are equal.
pub fn same_bytes(a: &[u8], b: &[u8]) -> (r: bool)
    ensures
        r == (a@ == b@),
{
    if a.len() != b.len() {
        return false;
    }
    let mut i: usize = 0;
    while i < a.len()
        invariant
            i <= a@.len(),
            a@.len() == b@.len(),
            a@.subrange(0, i as int) == b@.subrange(0, i as int),
        decreases a@.len() - i,
    {
        if a[i] != b[i] {
            return false;
        }
        i = i + 1;
        assert(a@.subrange(0, i as int) =~= a@.subrange(0, i - 1).push(a@[i - 1]));
        assert(b@.subrange(0, i as int) =~= b@.subrange(0, i - 1).push(b@[i - 1]));
    }
    assert(a@ =~= a@.subrange(0, a@.len() as int));
    assert(b@ =~= b@.subrange(0, b@.len() as int));
    true
}

/// Numbers are written with the most significant byte first: each further byte makes what was read so far
/// 256 times as much and adds its own value.
pub proof fn law_bytes_count_from_the_most_significant(
    data: &[u8],
    from: usize,
    to: usize,
    few: u64,
    more: u64,
    next: usize,
    none: u64,
)
    requires
        from <= to < data@.len(),
        next == to + 1,
        next - from <= 8,
        call_ensures(read_be, (data, from, to), few),
        call_ensures(read_be, (data, from, next), more),
        call_ensures(read_be, (data, from, from), none),
    ensures
        none == 0,
        more == few * 256 + data@[to as int],
{
    let s = data@.subrange(from as int, next as int);
    assert(s.drop_last() =~= data@.subrange(from as int, to as int));
    assert(data@.subrange(from as int, from as int) =~= Seq::<u8>::empty());
}

/// A number that is written is read back where it fits into the width, from where it was written; what was
/// there before stays.
pub proof fn law_number_is_read_back(
    buf: &mut Vec<u8>,
    n: u64,
    width: usize,
    data: &[u8],
    from: usize,
    to: usize,
    r: u64,
)
    requires
        width <= 8,
        n < pow256(width as nat),
        call_ensures(push_be, (buf, n, width), ()),
        data@ == final(buf)@,
        from == old(buf)@.len(),
        to == from + width,
        call_ensures(read_be, (data, from, to), r),
    ensures
        r == n,
        data@.len() == old(buf)@.len() + width,
        data@.take(from as int) == old(buf)@,
{
    lemma_be_bytes_len(n as nat, width as nat);
    assert(data@.subrange(from as int, to as int) =~= be_bytes(n as nat, width as nat));
    lemma_be_read_back(data@, from as int, n as nat, width as nat);
    assert(data@.take(from as int) =~= old(buf)@);
}

} // verus!
