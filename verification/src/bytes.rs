//! Byte sequences: big-endian numbers, the order of equally long byte strings, and copies
//! between vectors and fixed-size arrays.

use vstd::prelude::*;

use std::cmp::Ordering;

verus! {

/// The number that `bytes` spells in base 256, most significant byte first.
pub open spec fn big_endian(bytes: Seq<u8>) -> nat
    decreases bytes.len(),
{
    if bytes.len() == 0 {
        0
    } else {
        big_endian(bytes.drop_last()) * 256 + bytes.last() as nat
    }
}

/// The eight bytes of `value`, most significant first.
pub open spec fn be64(value: u64) -> Seq<u8> {
    seq![
        (value >> 56) as u8,
        (value >> 48) as u8,
        (value >> 40) as u8,
        (value >> 32) as u8,
        (value >> 24) as u8,
        (value >> 16) as u8,
        (value >> 8) as u8,
        value as u8,
    ]
}

/// The number in eight bytes, most significant first.
pub open spec fn of_be64(bytes: Seq<u8>) -> u64 {
    (bytes[0] as u64) << 56 | (bytes[1] as u64) << 48 | (bytes[2] as u64) << 40
        | (bytes[3] as u64) << 32 | (bytes[4] as u64) << 24 | (bytes[5] as u64) << 16
        | (bytes[6] as u64) << 8 | (bytes[7] as u64)
}

/// Writing a number as eight bytes and reading it back gives the number.
pub proof fn be64_round_trip(value: u64)
    ensures
        be64(value).len() == 8,
        of_be64(be64(value)) == value,
{
    assert(((value >> 56) as u8 as u64) << 56 | ((value >> 48) as u8 as u64) << 48
        | ((value >> 40) as u8 as u64) << 40 | ((value >> 32) as u8 as u64) << 32
        | ((value >> 24) as u8 as u64) << 24 | ((value >> 16) as u8 as u64) << 16
        | ((value >> 8) as u8 as u64) << 8 | (value as u8 as u64) == value) by (bit_vector);
}

/// Different numbers have different bytes.
pub proof fn be64_injective(a: u64, b: u64)
    requires
        be64(a) == be64(b),
    ensures
        a == b,
{
    be64_round_trip(a);
    be64_round_trip(b);
}

proof fn next_byte(value: u64, shift: u64)
    by (bit_vector)
    requires
        shift <= 48,
    ensures
        value >> shift == (value >> ((shift + 8) as u64)) * 256 + ((value >> shift) as u8),
{
}

/// The eight bytes of a number spell the number.
pub proof fn be64_spells(value: u64)
    ensures
        big_endian(be64(value)) == value,
{
    reveal_with_fuel(big_endian, 10);
    let b = be64(value);
    assert(value >> 0 == value && (value >> 56) as u8 == value >> 56) by (bit_vector);
    next_byte(value, 0);
    next_byte(value, 8);
    next_byte(value, 16);
    next_byte(value, 24);
    next_byte(value, 32);
    next_byte(value, 40);
    next_byte(value, 48);
    assert(b.take(0) =~= Seq::<u8>::empty());
    assert(b.take(1).drop_last() =~= b.take(0));
    assert(b.take(2).drop_last() =~= b.take(1));
    assert(b.take(3).drop_last() =~= b.take(2));
    assert(b.take(4).drop_last() =~= b.take(3));
    assert(b.take(5).drop_last() =~= b.take(4));
    assert(b.take(6).drop_last() =~= b.take(5));
    assert(b.take(7).drop_last() =~= b.take(6));
    assert(b.take(8).drop_last() =~= b.take(7));
    assert(b.take(8) =~= b);
    assert(big_endian(b.take(1)) == value >> 56);
    assert(big_endian(b.take(2)) == value >> 48);
    assert(big_endian(b.take(3)) == value >> 40);
    assert(big_endian(b.take(4)) == value >> 32);
    assert(big_endian(b.take(5)) == value >> 24);
    assert(big_endian(b.take(6)) == value >> 16);
    assert(big_endian(b.take(7)) == value >> 8);
}

/// The eight big-endian bytes of `value`.
pub fn to_be64(value: u64) -> (bytes: [u8; 8])
    ensures
        bytes@ == be64(value),
{
    let bytes: [u8; 8] = [
        (value >> 56) as u8,
        (value >> 48) as u8,
        (value >> 40) as u8,
        (value >> 32) as u8,
        (value >> 24) as u8,
        (value >> 16) as u8,
        (value >> 8) as u8,
        value as u8,
    ];
    assert(bytes@ =~= be64(value));
    bytes
}

/// The number in the eight bytes of `bytes` that start at `start`.
pub fn from_be64(bytes: &[u8], start: usize) -> (value: u64)
    requires
        start + 8 <= bytes@.len(),
    ensures
        value == of_be64(bytes@.subrange(start as int, start + 8)),
{
    (bytes[start] as u64) << 56 | (bytes[start + 1] as u64) << 48 | (bytes[start + 2] as u64) << 40
        | (bytes[start + 3] as u64) << 32 | (bytes[start + 4] as u64) << 24 | (bytes[start
        + 5] as u64) << 16 | (bytes[start + 6] as u64) << 8 | (bytes[start + 7] as u64)
}

/// Two byte strings of one length that first differ at `i` are ordered as their numbers are.
pub proof fn first_difference_orders(a: Seq<u8>, b: Seq<u8>, i: int)
    requires
        a.len() == b.len(),
        0 <= i < a.len(),
        forall|j: int| 0 <= j < i ==> a[j] == b[j],
        a[i] < b[i],
    ensures
        big_endian(a) < big_endian(b),
    decreases a.len(),
{
    if i == a.len() - 1 {
        assert(a.drop_last() =~= b.drop_last());
    } else {
        first_difference_orders(a.drop_last(), b.drop_last(), i);
    }
}

/// Byte strings of one length with the same number are the same.
pub proof fn big_endian_injective(a: Seq<u8>, b: Seq<u8>)
    requires
        a.len() == b.len(),
        big_endian(a) == big_endian(b),
    ensures
        a == b,
    decreases a.len(),
{
    if a.len() == 0 {
        assert(a =~= b);
    } else {
        big_endian_injective(a.drop_last(), b.drop_last());
        assert(a =~= a.drop_last().push(a.last()));
        assert(b =~= b.drop_last().push(b.last()));
    }
}

/// Joined byte strings are ordered by their first parts, and by their second parts where the first
/// ones agree.
pub proof fn joined_order(a: Seq<u8>, x: Seq<u8>, b: Seq<u8>, y: Seq<u8>)
    requires
        a.len() == b.len(),
        x.len() == y.len(),
    ensures
        big_endian(a + x) < big_endian(b + y) <==> big_endian(a) < big_endian(b) || (a == b
            && big_endian(x) < big_endian(y)),
    decreases x.len(),
{
    if x.len() == 0 {
        assert(a + x =~= a);
        assert(b + y =~= b);
    } else {
        let (x1, y1) = (x.drop_last(), y.drop_last());
        assert((a + x).drop_last() =~= a + x1);
        assert((b + y).drop_last() =~= b + y1);
        joined_order(a, x1, b, y1);
        joined_order(b, y1, a, x1);
        if big_endian(a + x1) == big_endian(b + y1) {
            big_endian_injective(a + x1, b + y1);
            assert((a + x1).take(a.len() as int) =~= a);
            assert((b + y1).take(a.len() as int) =~= b);
            assert((a + x1).skip(a.len() as int) =~= x1);
            assert((b + y1).skip(a.len() as int) =~= y1);
        }
        if big_endian(x1) == big_endian(y1) {
            big_endian_injective(x1, y1);
        }
        if a == b && x1 == y1 {
            assert(a + x1 == b + y1);
        }
    }
}

/// How two byte strings of one length stand to each other.
#[derive(Clone, Copy, Debug, PartialEq, Eq, Structural)]
pub enum ByteOrder {
    Before,
    Same,
    After,
}

/// Orders two byte strings of one length as the numbers that they spell.
pub fn byte_order(a: &[u8], b: &[u8]) -> (order: ByteOrder)
    requires
        a@.len() == b@.len(),
    ensures
        order == (if big_endian(a@) < big_endian(b@) {
            ByteOrder::Before
        } else if big_endian(a@) == big_endian(b@) {
            ByteOrder::Same
        } else {
            ByteOrder::After
        }),
        order is Same <==> a@ == b@,
{
    let mut i: usize = 0;
    while i < a.len()
        invariant
            i <= a@.len(),
            a@.len() == b@.len(),
            forall|j: int| 0 <= j < i ==> a@[j] == b@[j],
        decreases a@.len() - i,
    {
        if a[i] < b[i] {
            proof {
                first_difference_orders(a@, b@, i as int);
            }
            return ByteOrder::Before;
        }
        if b[i] < a[i] {
            proof {
                first_difference_orders(b@, a@, i as int);
            }
            return ByteOrder::After;
        }
        i += 1;
    }
    assert(a@ =~= b@);
    ByteOrder::Same
}

/// Whether two byte strings hold the same bytes.
pub fn same_bytes(a: &[u8], b: &[u8]) -> (same: bool)
    ensures
        same == (a@ == b@),
{
    if a.len() != b.len() {
        return false;
    }
    let mut i: usize = 0;
    while i < a.len()
        invariant
            i <= a@.len(),
            a@.len() == b@.len(),
            forall|j: int| 0 <= j < i ==> a@[j] == b@[j],
        decreases a@.len() - i,
    {
        if a[i] != b[i] {
            return false;
        }
        i += 1;
    }
    assert(a@ =~= b@);
    true
}

/// The `N` bytes of `bytes` that start at `start`.
pub fn array_at<const N: usize>(bytes: &[u8], start: usize) -> (array: [u8; N])
    requires
        start + N <= bytes@.len(),
    ensures
        array@ == bytes@.subrange(start as int, start + N),
{
    let mut array: [u8; N] = [0u8; N];
    let length: usize = bytes.len();
    let mut i: usize = 0;
    while i < N
        invariant
            i <= N,
            length == bytes@.len(),
            array@.len() == N,
            start + N <= bytes@.len(),
            forall|j: int| 0 <= j < i ==> array@[j] == bytes@[start + j],
        decreases N - i,
    {
        array[i] = bytes[start + i];
        i += 1;
    }
    assert(array@ =~= bytes@.subrange(start as int, start + N));
    array
}

/// `bytes` as an array, where it has exactly `N` bytes.
pub fn to_array<const N: usize>(bytes: &[u8]) -> (array: Option<[u8; N]>)
    ensures
        match array {
            Some(array) => array@ == bytes@ && array == array_with::<N>(bytes@),
            None => bytes@.len() != N,
        },
{
    if bytes.len() != N {
        return None;
    }
    let array: [u8; N] = array_at::<N>(bytes, 0);
    proof {
        assert(bytes@.subrange(0, N as int) =~= bytes@);
        array_with_is(array);
    }
    Some(array)
}

/// The array with these bytes.
pub open spec fn array_with<const N: usize>(bytes: Seq<u8>) -> [u8; N] {
    choose|array: [u8; N]| array@ == bytes
}

/// An array is the one with its bytes.
pub proof fn array_with_is<const N: usize>(array: [u8; N])
    ensures
        array_with::<N>(array@) == array,
{
    let other = array_with::<N>(array@);
    assert(other@ == array@);
    assert(other =~= array);
}

/// The bytes from `start` to `end`.
pub fn bytes_between(bytes: &[u8], start: usize, end: usize) -> (part: Vec<u8>)
    requires
        start <= end <= bytes@.len(),
    ensures
        part@ == bytes@.subrange(start as int, end as int),
{
    let mut part: Vec<u8> = Vec::new();
    let mut i: usize = start;
    while i < end
        invariant
            start <= i <= end <= bytes@.len(),
            part@ == bytes@.subrange(start as int, i as int),
        decreases end - i,
    {
        part.push(bytes[i]);
        i += 1;
        assert(part@ =~= bytes@.subrange(start as int, i as int));
    }
    part
}

/// A vector with the bytes of `bytes`.
pub fn to_vec(bytes: &[u8]) -> (copy: Vec<u8>)
    ensures
        copy@ == bytes@,
{
    let copy: Vec<u8> = bytes_between(bytes, 0, bytes.len());
    assert(bytes@.subrange(0, bytes@.len() as int) =~= bytes@);
    copy
}

/// Appends `tail` to `bytes`.
pub fn append(bytes: &mut Vec<u8>, tail: &[u8])
    ensures
        final(bytes)@ == old(bytes)@ + tail@,
{
    bytes.extend_from_slice(tail);
    assert(bytes@ =~= old(bytes)@ + tail@);
}

/// Whether a byte string stands before another of its length: at the first place where they differ it
/// has the smaller byte.
pub open spec fn lexicographically_before(a: Seq<u8>, b: Seq<u8>) -> bool {
    exists|i: int|
        0 <= i < a.len() && #[trigger] a[i] < b[i] && a.take(i) == b.take(i)
}

/// How two byte strings of one length are ordered: byte by byte, from the front.
pub open spec fn byte_ordering(a: Seq<u8>, b: Seq<u8>) -> Ordering {
    if a == b {
        Ordering::Equal
    } else if lexicographically_before(a, b) {
        Ordering::Less
    } else {
        Ordering::Greater
    }
}

/// Orders two byte strings of one length byte by byte, from the front.
pub fn order_bytes(a: &[u8], b: &[u8]) -> (ordering: Ordering)
    requires
        a@.len() == b@.len(),
    ensures
        ordering == byte_ordering(a@, b@),
{
    proof {
        ordering_spells(a@, b@);
    }
    match byte_order(a, b) {
        ByteOrder::Before => Ordering::Less,
        ByteOrder::Same => Ordering::Equal,
        ByteOrder::After => Ordering::Greater,
    }
}

proof fn first_difference(a: Seq<u8>, b: Seq<u8>) -> (i: int)
    requires
        a.len() == b.len(),
        a != b,
    ensures
        0 <= i < a.len(),
        a[i] != b[i],
        a.take(i) == b.take(i),
    decreases a.len(),
{
    if a.len() > 0 && a.drop_last() != b.drop_last() {
        let i = first_difference(a.drop_last(), b.drop_last());
        assert(a.take(i) =~= a.drop_last().take(i));
        assert(b.take(i) =~= b.drop_last().take(i));
        i
    } else {
        if a.len() == 0 || a.last() == b.last() {
            assert(a =~= b) by {
                if a.len() > 0 {
                    assert(a =~= a.drop_last().push(a.last()));
                    assert(b =~= b.drop_last().push(b.last()));
                }
            }
        }
        assert(a.take(a.len() - 1) =~= a.drop_last());
        assert(b.take(b.len() - 1) =~= b.drop_last());
        a.len() - 1
    }
}

/// Byte strings of one length are ordered byte by byte as the numbers are that they spell.
pub proof fn ordering_spells(a: Seq<u8>, b: Seq<u8>)
    requires
        a.len() == b.len(),
    ensures
        lexicographically_before(a, b) <==> big_endian(a) < big_endian(b),
{
    if lexicographically_before(a, b) {
        let i = choose|i: int| 0 <= i < a.len() && #[trigger] a[i] < b[i] && a.take(i) == b.take(i);
        assert forall|j: int| 0 <= j < i implies a[j] == b[j] by {
            assert(a.take(i)[j] == b.take(i)[j]);
        }
        first_difference_orders(a, b, i);
    } else if a != b {
        let i = first_difference(a, b);
        assert forall|j: int| 0 <= j < i implies a[j] == b[j] by {
            assert(a.take(i)[j] == b.take(i)[j]);
        }
        assert(b[i] < a[i]);
        first_difference_orders(b, a, i);
    }
}

} // verus!
