//! Byte strings: comparison, big-endian numbers, fixed-size arrays and an
//! in-memory source of incoming bytes.

use vstd::prelude::*;
use crate::failure::Failure;

verus! {

broadcast use vstd::array::group_array_axioms;

/// The number that `bytes` write in base 256, most significant byte first.
pub open spec fn big_endian_value(bytes: Seq<u8>) -> nat
    decreases bytes.len(),
{
    if bytes.len() == 0 {
        0
    } else {
        big_endian_value(bytes.drop_last()) * 256 + bytes.last() as nat
    }
}

/// The `width` bytes that write `value` in base 256, most significant byte
/// first; digits beyond `width` are dropped.
pub open spec fn big_endian_bytes(value: nat, width: nat) -> Seq<u8>
    decreases width,
{
    if width == 0 {
        seq![]
    } else {
        big_endian_bytes(value / 256, (width - 1) as nat).push((value % 256) as u8)
    }
}

/// How many numbers `width` bytes can write.
pub open spec fn byte_capacity(width: nat) -> nat
    decreases width,
{
    if width == 0 {
        1
    } else {
        byte_capacity((width - 1) as nat) * 256
    }
}

/// A byte string writes a number below its capacity.
pub proof fn big_endian_value_is_bounded(bytes: Seq<u8>)
    ensures
        big_endian_value(bytes) < byte_capacity(bytes.len()),
    decreases bytes.len(),
{
    if bytes.len() > 0 {
        big_endian_value_is_bounded(bytes.drop_last());
    }
}

/// A wider byte string can write at least as many numbers.
proof fn byte_capacity_grows(narrow: nat, wide: nat)
    requires
        narrow <= wide,
    ensures
        byte_capacity(narrow) <= byte_capacity(wide),
        1 <= byte_capacity(narrow),
    decreases wide,
{
    if narrow < wide {
        byte_capacity_grows(narrow, (wide - 1) as nat);
    } else if narrow > 0 {
        byte_capacity_grows((narrow - 1) as nat, (wide - 1) as nat);
    }
}

proof fn capacity_of_sixteen_bytes()
    ensures
        byte_capacity(16) == 0x1_0000_0000_0000_0000_0000_0000_0000_0000,
        byte_capacity(8) == 0x1_0000_0000_0000_0000,
{
    reveal_with_fuel(byte_capacity, 17);
}

/// Writing a number and reading it back gives the number again, where the
/// width can hold it.
pub proof fn big_endian_round_trip(value: nat, width: nat)
    requires
        value < byte_capacity(width),
    ensures
        big_endian_bytes(value, width).len() == width,
        big_endian_value(big_endian_bytes(value, width)) == value,
    decreases width,
{
    if width > 0 {
        let shorter: nat = (width - 1) as nat;
        assert(value / 256 < byte_capacity(shorter));
        big_endian_round_trip(value / 256, shorter);
        let bytes = big_endian_bytes(value, width);
        assert(bytes.drop_last() =~= big_endian_bytes(value / 256, shorter));
    }
}

/// Reading a byte string as a number and writing that number in the same
/// width gives the byte string again.
pub proof fn big_endian_is_faithful(bytes: Seq<u8>)
    ensures
        big_endian_bytes(big_endian_value(bytes), bytes.len()) == bytes,
    decreases bytes.len(),
{
    if bytes.len() > 0 {
        big_endian_is_faithful(bytes.drop_last());
        let value = big_endian_value(bytes);
        assert(value / 256 == big_endian_value(bytes.drop_last()));
        assert(value % 256 == bytes.last() as nat);
        assert(big_endian_bytes(value, bytes.len()) =~= bytes);
    } else {
        assert(big_endian_bytes(0, 0) =~= bytes);
    }
}

/// The number written by at most sixteen bytes, most significant byte first.
pub fn from_big_endian(bytes: &[u8]) -> (value: u128)
    requires
        bytes@.len() <= 16,
    ensures
        value == big_endian_value(bytes@),
{
    let mut value: u128 = 0;
    let mut read: usize = 0;
    assert(bytes@.take(0) =~= seq![]);
    while read < bytes.len()
        invariant
            read <= bytes.len() <= 16,
            value == big_endian_value(bytes@.take(read as int)),
        decreases bytes.len() - read,
    {
        proof {
            let next = bytes@.take(read + 1);
            assert(next.drop_last() =~= bytes@.take(read as int));
            big_endian_value_is_bounded(next);
            byte_capacity_grows(next.len(), 16);
            capacity_of_sixteen_bytes();
        }
        value = value * 256 + bytes[read] as u128;
        read += 1;
    }
    assert(bytes@.take(read as int) =~= bytes@);
    value
}

/// The eight bytes that write `value`, most significant byte first.
pub fn to_big_endian(value: u64) -> (bytes: [u8; 8])
    ensures
        bytes@ == big_endian_bytes(value as nat, 8),
{
    let mut bytes: [u8; 8] = [0u8; 8];
    let mut rest: u64 = value;
    let mut left: usize = 8;
    assert(big_endian_bytes(value as nat, 8) =~= big_endian_bytes(rest as nat, 8)
        + bytes@.skip(8));
    while left > 0
        invariant
            left <= 8,
            big_endian_bytes(value as nat, 8) == big_endian_bytes(rest as nat, left as nat)
                + bytes@.skip(left as int),
        decreases left,
    {
        let digit: u8 = (rest % 256) as u8;
        let ghost before = bytes@;
        left -= 1;
        bytes[left] = digit;
        proof {
            let higher = big_endian_bytes((rest / 256) as nat, left as nat);
            assert(big_endian_bytes(rest as nat, (left + 1) as nat) == higher.push(digit));
            assert(bytes@.skip(left as int) =~= seq![digit] + before.skip(left + 1));
            assert(higher + bytes@.skip(left as int) =~= higher.push(digit) + before.skip(
                left + 1,
            ));
        }
        rest = rest / 256;
    }
    assert(bytes@.skip(0) =~= bytes@);
    assert(big_endian_bytes(rest as nat, 0) + bytes@ =~= bytes@);
    bytes
}

/// Whether two byte strings are the same.
pub fn same_bytes(one: &[u8], other: &[u8]) -> (same: bool)
    ensures
        same == (one@ == other@),
{
    if one.len() != other.len() {
        return false;
    }
    let mut checked: usize = 0;
    while checked < one.len()
        invariant
            checked <= one.len(),
            one@.len() == other@.len(),
            forall|i: int| 0 <= i < checked ==> one@[i] == other@[i],
        decreases one.len() - checked,
    {
        if one[checked] != other[checked] {
            return false;
        }
        checked += 1;
    }
    assert(one@ =~= other@);
    true
}

/// `bytes` followed by zeros, `width` bytes in all.
pub open spec fn padded(bytes: Seq<u8>, width: nat) -> Seq<u8> {
    bytes + Seq::new((width - bytes.len()) as nat, |i: int| 0u8)
}

/// Copies `bytes` to the front of an array and fills what is left with zeros.
pub fn fixed<const N: usize>(bytes: &[u8]) -> (out: [u8; N])
    requires
        bytes@.len() <= N,
    ensures
        out@ == padded(bytes@, N as nat),
{
    let mut out: [u8; N] = [0u8; N];
    let mut copied: usize = 0;
    while copied < bytes.len()
        invariant
            copied <= bytes.len() <= N,
            forall|i: int| 0 <= i < copied ==> out@[i] == bytes@[i],
            forall|i: int| copied <= i < N ==> out@[i] == 0,
        decreases bytes.len() - copied,
    {
        out[copied] = bytes[copied];
        copied += 1;
    }
    assert(out@ =~= padded(bytes@, N as nat));
    out
}

/// The array that holds exactly `bytes`.
pub fn exact<const N: usize>(bytes: &[u8]) -> (out: [u8; N])
    requires
        bytes@.len() == N,
    ensures
        out@ == bytes@,
{
    let out: [u8; N] = fixed(bytes);
    assert(out@ =~= bytes@);
    out
}

/// Appends `more` to `bytes`.
pub fn extend(bytes: &mut Vec<u8>, more: &[u8])
    ensures
        final(bytes)@ == old(bytes)@ + more@,
{
    bytes.extend_from_slice(more);
    assert(bytes@ =~= old(bytes)@ + more@);
}

/// Incoming bytes that have not been read yet.
#[derive(Debug)]
pub struct ByteStream {
    rest: Vec<u8>,
}

impl View for ByteStream {
    type V = Seq<u8>;

    closed spec fn view(&self) -> Seq<u8> {
        self.rest@
    }
}

impl ByteStream {
    /// A stream that delivers `bytes` and then ends.
    pub fn new(bytes: Vec<u8>) -> (stream: ByteStream)
        ensures
            stream@ == bytes@,
    {
        ByteStream { rest: bytes }
    }

    /// The number of bytes that are left.
    pub fn len(&self) -> (length: usize)
        ensures
            length == self@.len(),
    {
        self.rest.len()
    }

    /// Takes the next `count` bytes. A stream that ends before has nothing
    /// left afterwards.
    pub fn read_exact(&mut self, count: usize) -> (taken: Result<Vec<u8>, Failure>)
        ensures
            match taken {
                Ok(bytes) => {
                    &&& count <= old(self)@.len()
                    &&& bytes@ == old(self)@.take(count as int)
                    &&& final(self)@ == old(self)@.skip(count as int)
                },
                Err(error) => {
                    &&& old(self)@.len() < count
                    &&& error == Failure::UnexpectedEnd
                    &&& final(self)@ == Seq::<u8>::empty()
                },
            },
    {
        if self.rest.len() < count {
            self.rest.clear();
            return Err(Failure::UnexpectedEnd);
        }
        let mut taken: Vec<u8> = self.rest.split_off(count);
        std::mem::swap(&mut taken, &mut self.rest);
        assert(taken@ =~= old(self)@.take(count as int));
        assert(self@ =~= old(self)@.skip(count as int));
        Ok(taken)
    }
}

/// What is padded keeps every byte in its place, and nothing but zeros follows.
pub proof fn padding_adds_zeros_only(bytes: Seq<u8>, width: nat)
    requires
        bytes.len() <= width,
    ensures
        padded(bytes, width).len() == width,
        forall|i: int| 0 <= i < bytes.len() ==> #[trigger] padded(bytes, width)[i] == bytes[i],
        forall|i: int| bytes.len() <= i < width ==> #[trigger] padded(bytes, width)[i] == 0,
{
}

/// The first byte of a number counts most: it stands for as many as the bytes
/// behind it can write.
pub proof fn first_bytes_count_most(bytes: Seq<u8>)
    requires
        bytes.len() > 0,
    ensures
        big_endian_value(bytes) == bytes[0] as nat * byte_capacity((bytes.len() - 1) as nat)
            + big_endian_value(bytes.skip(1)),
    decreases bytes.len(),
{
    if bytes.len() == 1 {
        reveal_with_fuel(big_endian_value, 2);
        reveal_with_fuel(byte_capacity, 2);
        assert(bytes.drop_last() =~= Seq::<u8>::empty());
        assert(bytes.skip(1) =~= Seq::<u8>::empty());
    } else {
        let shorter = bytes.drop_last();
        first_bytes_count_most(shorter);
        assert(bytes.skip(1).drop_last() =~= shorter.skip(1));
        let first: int = bytes[0] as int;
        let capacity: int = byte_capacity((bytes.len() - 2) as nat) as int;
        let rest: int = big_endian_value(shorter.skip(1)) as int;
        assert((first * capacity + rest) * 256 == first * (capacity * 256) + rest * 256)
            by (nonlinear_arith);
    }
}

} // verus!
