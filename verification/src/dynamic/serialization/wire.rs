//! The primitives of the wire: numbers as bytes, and alignment.

use byteorder::ByteOrder;
use vstd::prelude::*;

verus! {

/// The `n` bytes of number `x`, least significant first.
pub open spec fn le_bytes(x: nat, n: nat) -> Seq<u8>
    decreases n,
{
    if n == 0 {
        Seq::empty()
    } else {
        seq![(x % 256) as u8] + le_bytes(x / 256, (n - 1) as nat)
    }
}

/// The number that `b` writes, least significant byte first.
pub open spec fn le_value(b: Seq<u8>) -> nat
    decreases b.len(),
{
    if b.len() == 0 {
        0
    } else {
        b[0] as nat + 256 * le_value(b.skip(1))
    }
}

/// The number that `b` writes, in the byte order given.
pub open spec fn bytes_value(big: bool, b: Seq<u8>) -> nat {
    if big {
        le_value(b.reverse())
    } else {
        le_value(b)
    }
}

/// The least number that does not fit in `n` bytes.
pub open spec fn byte_range(n: nat) -> nat
    decreases n,
{
    if n == 0 {
        1
    } else {
        256 * byte_range((n - 1) as nat)
    }
}

/// A number comes back from its bytes.
pub proof fn le_round_trip(x: nat, n: nat)
    requires
        x < byte_range(n),
    ensures
        le_bytes(x, n).len() == n,
        le_value(le_bytes(x, n)) == x,
    decreases n,
{
    if n > 0 {
        assert(x / 256 < byte_range((n - 1) as nat)) by (nonlinear_arith)
            requires
                x < 256 * byte_range((n - 1) as nat),
        ;
        le_round_trip(x / 256, (n - 1) as nat);
        assert(le_bytes(x, n).skip(1) =~= le_bytes(x / 256, (n - 1) as nat));
    }
}

pub proof fn byte_ranges()
    ensures
        byte_range(1) == 0x100,
        byte_range(2) == 0x1_0000,
        byte_range(4) == 0x1_0000_0000,
        byte_range(8) == 0x1_0000_0000_0000_0000,
{
    reveal_with_fuel(byte_range, 9);
}

/// `LittleEndian::write_u16` of byteorder: the two bytes of `n`, least
/// significant first.
#[verifier::external_body]
pub(crate) fn put_u16(n: u16) -> (r: [u8; 2])
    ensures
        r@ == le_bytes(n as nat, 2),
{
    let mut buf = [0u8; 2];
    byteorder::LittleEndian::write_u16(&mut buf, n);
    buf
}

/// `LittleEndian::write_u32` of byteorder: the four bytes of `n`, least
/// significant first.
#[verifier::external_body]
pub(crate) fn put_u32(n: u32) -> (r: [u8; 4])
    ensures
        r@ == le_bytes(n as nat, 4),
{
    let mut buf = [0u8; 4];
    byteorder::LittleEndian::write_u32(&mut buf, n);
    buf
}

/// `LittleEndian::write_u64` of byteorder: the eight bytes of `n`, least
/// significant first.
#[verifier::external_body]
pub(crate) fn put_u64(n: u64) -> (r: [u8; 8])
    ensures
        r@ == le_bytes(n as nat, 8),
{
    let mut buf = [0u8; 8];
    byteorder::LittleEndian::write_u64(&mut buf, n);
    buf
}

/// `LittleEndian::read_u16` of byteorder: the number that the first two bytes
/// write. It panics on fewer.
#[verifier::external_body]
fn get_u16_little(buf: &[u8]) -> (r: u16)
    requires
        buf@.len() >= 2,
    ensures
        r == le_value(buf@.take(2)),
{
    byteorder::LittleEndian::read_u16(buf)
}

/// `LittleEndian::read_u32` of byteorder: the number that the first four bytes
/// write. It panics on fewer.
#[verifier::external_body]
fn get_u32_little(buf: &[u8]) -> (r: u32)
    requires
        buf@.len() >= 4,
    ensures
        r == le_value(buf@.take(4)),
{
    byteorder::LittleEndian::read_u32(buf)
}

/// `LittleEndian::read_u64` of byteorder: the number that the first eight bytes
/// write. It panics on fewer.
#[verifier::external_body]
fn get_u64_little(buf: &[u8]) -> (r: u64)
    requires
        buf@.len() >= 8,
    ensures
        r == le_value(buf@.take(8)),
{
    byteorder::LittleEndian::read_u64(buf)
}

/// `BigEndian::read_u16` of byteorder: the number that the first two bytes
/// write, most significant first. It panics on fewer.
#[verifier::external_body]
fn get_u16_big(buf: &[u8]) -> (r: u16)
    requires
        buf@.len() >= 2,
    ensures
        r == le_value(buf@.take(2).reverse()),
{
    byteorder::BigEndian::read_u16(buf)
}

/// `BigEndian::read_u32` of byteorder: the number that the first four bytes
/// write, most significant first. It panics on fewer.
#[verifier::external_body]
fn get_u32_big(buf: &[u8]) -> (r: u32)
    requires
        buf@.len() >= 4,
    ensures
        r == le_value(buf@.take(4).reverse()),
{
    byteorder::BigEndian::read_u32(buf)
}

/// `BigEndian::read_u64` of byteorder: the number that the first eight bytes
/// write, most significant first. It panics on fewer.
#[verifier::external_body]
fn get_u64_big(buf: &[u8]) -> (r: u64)
    requires
        buf@.len() >= 8,
    ensures
        r == le_value(buf@.take(8).reverse()),
{
    byteorder::BigEndian::read_u64(buf)
}

/// How many bytes lie between position `pos` and the next multiple of `n`.
pub open spec fn gap(pos: nat, n: nat) -> nat {
    if pos % n == 0 {
        0
    } else {
        (n - pos % n) as nat
    }
}

/// The payload `out`, filled with zeros up to a multiple of `n`.
pub open spec fn padded(out: Seq<u8>, n: nat) -> Seq<u8> {
    out + Seq::new(gap(out.len(), n), |i: int| 0u8)
}

/// Fills the payload with zeros up to a multiple of `n`.
pub fn write_padding(out: &mut Vec<u8>, n: usize)
    requires
        n == 2 || n == 4 || n == 8,
    ensures
        final(out)@ == padded(old(out)@, n as nat),
{
    let rest: usize = out.len() % n;
    let count: usize = if rest == 0 { 0 } else { n - rest };
    let mut i: usize = 0;
    while i < count
        invariant
            i <= count,
            out@ == old(out)@ + Seq::new(i as nat, |j: int| 0u8),
        decreases count - i,
    {
        let ghost before = out@;
        out.push(0);
        i = i + 1;
        assert(out@ =~= old(out)@ + Seq::new(i as nat, |j: int| 0u8));
    }
    assert(out@ =~= padded(old(out)@, n as nat));
}

pub fn write_u16(out: &mut Vec<u8>, x: u16)
    ensures
        final(out)@ == padded(old(out)@, 2) + le_bytes(x as nat, 2),
{
    write_padding(out, 2);
    let b = put_u16(x);
    out.extend_from_slice(b.as_slice());
    assert(out@ =~= padded(old(out)@, 2) + le_bytes(x as nat, 2));
}

pub fn write_u32(out: &mut Vec<u8>, x: u32)
    ensures
        final(out)@ == padded(old(out)@, 4) + le_bytes(x as nat, 4),
{
    write_padding(out, 4);
    let b = put_u32(x);
    out.extend_from_slice(b.as_slice());
    assert(out@ =~= padded(old(out)@, 4) + le_bytes(x as nat, 4));
}

pub fn write_u64(out: &mut Vec<u8>, x: u64)
    ensures
        final(out)@ == padded(old(out)@, 8) + le_bytes(x as nat, 8),
{
    write_padding(out, 8);
    let b = put_u64(x);
    out.extend_from_slice(b.as_slice());
    assert(out@ =~= padded(old(out)@, 8) + le_bytes(x as nat, 8));
}

/// Reads a payload from its start.
pub struct Reader<'a> {
    pub data: &'a [u8],
    pub pos: usize,
    /// Whether numbers stand with their most significant byte first.
    pub big: bool,
}

/// The number of `n` bytes at the next multiple of `n` from `pos` on, and the
/// position after it.
pub open spec fn number_at(big: bool, data: Seq<u8>, pos: nat, n: nat) -> Option<(nat, nat)> {
    let start = pos + gap(pos, n);
    if start + n > data.len() {
        None
    } else {
        Some(
            (bytes_value(big, data.subrange(start as int, (start + n) as int)), start + n),
        )
    }
}

impl<'a> Reader<'a> {
    pub open spec fn wf(&self) -> bool {
        self.pos <= self.data@.len()
    }

    /// Whether `after` is this reader, moved on to `pos`.
    pub open spec fn moved_to(&self, after: &Self, pos: nat) -> bool {
        after.data@ == self.data@ && after.big == self.big && after.pos == pos && after.wf()
    }

    /// How many bytes are left.
    pub fn remaining(&self) -> (r: usize)
        requires
            self.wf(),
        ensures
            r == self.data@.len() - self.pos,
    {
        self.data.len() - self.pos
    }

    /// Moves on by `n` bytes, from a multiple of `n`, and returns them.
    fn step(&mut self, n: usize) -> (r: Option<&'a [u8]>)
        requires
            old(self).wf(),
            n == 1 || n == 2 || n == 4 || n == 8,
        ensures
            match r {
                Some(b) => {
                    let start = old(self).pos + gap(old(self).pos as nat, n as nat);
                    &&& start + n <= old(self).data@.len()
                    &&& b@ == old(self).data@.subrange(start as int, (start + n) as int)
                    &&& old(self).moved_to(final(self), (start + n) as nat)
                },
                None => {
                    &&& old(self).pos + gap(old(self).pos as nat, n as nat) + n
                        > old(self).data@.len()
                    &&& old(self).moved_to(final(self), old(self).pos as nat)
                },
            },
    {
        let rest: usize = self.pos % n;
        let skip: usize = if rest == 0 { 0 } else { n - rest };
        let left: usize = self.data.len() - self.pos;
        if left < n || left - n < skip {
            return None;
        }
        let start: usize = self.pos + skip;
        let b = vstd::slice::slice_subrange(self.data, start, start + n);
        self.pos = start + n;
        Some(b)
    }

    pub fn read_u8(&mut self) -> (r: Option<u8>)
        requires
            old(self).wf(),
        ensures
            match r {
                Some(x) => {
                    &&& old(self).pos < old(self).data@.len()
                    &&& x == old(self).data@[old(self).pos as int]
                    &&& old(self).moved_to(final(self), old(self).pos as nat + 1)
                },
                None => {
                    &&& old(self).pos == old(self).data@.len()
                    &&& old(self).moved_to(final(self), old(self).pos as nat)
                },
            },
    {
        if self.pos == self.data.len() {
            return None;
        }
        let x: u8 = self.data[self.pos];
        self.pos = self.pos + 1;
        Some(x)
    }

    pub fn read_u16(&mut self) -> (r: Option<u16>)
        requires
            old(self).wf(),
        ensures
            match r {
                Some(x) => {
                    &&& number_at(old(self).big, old(self).data@, old(self).pos as nat, 2) == Some(
                        (x as nat, final(self).pos as nat),
                    )
                    &&& old(self).moved_to(final(self), final(self).pos as nat)
                },
                None => {
                    &&& number_at(old(self).big, old(self).data@, old(self).pos as nat, 2) is None
                    &&& old(self).moved_to(final(self), old(self).pos as nat)
                },
            },
    {
        match self.step(2) {
            Some(b) => {
                assert(b@.take(2) =~= b@);
                if self.big {
                    Some(get_u16_big(b))
                } else {
                    Some(get_u16_little(b))
                }
            },
            None => None,
        }
    }

    pub fn read_u32(&mut self) -> (r: Option<u32>)
        requires
            old(self).wf(),
        ensures
            match r {
                Some(x) => {
                    &&& number_at(old(self).big, old(self).data@, old(self).pos as nat, 4) == Some(
                        (x as nat, final(self).pos as nat),
                    )
                    &&& old(self).moved_to(final(self), final(self).pos as nat)
                },
                None => {
                    &&& number_at(old(self).big, old(self).data@, old(self).pos as nat, 4) is None
                    &&& old(self).moved_to(final(self), old(self).pos as nat)
                },
            },
    {
        match self.step(4) {
            Some(b) => {
                assert(b@.take(4) =~= b@);
                if self.big {
                    Some(get_u32_big(b))
                } else {
                    Some(get_u32_little(b))
                }
            },
            None => None,
        }
    }

    pub fn read_u64(&mut self) -> (r: Option<u64>)
        requires
            old(self).wf(),
        ensures
            match r {
                Some(x) => {
                    &&& number_at(old(self).big, old(self).data@, old(self).pos as nat, 8) == Some(
                        (x as nat, final(self).pos as nat),
                    )
                    &&& old(self).moved_to(final(self), final(self).pos as nat)
                },
                None => {
                    &&& number_at(old(self).big, old(self).data@, old(self).pos as nat, 8) is None
                    &&& old(self).moved_to(final(self), old(self).pos as nat)
                },
            },
    {
        match self.step(8) {
            Some(b) => {
                assert(b@.take(8) =~= b@);
                if self.big {
                    Some(get_u64_big(b))
                } else {
                    Some(get_u64_little(b))
                }
            },
            None => None,
        }
    }

    /// The next `n` bytes.
    pub fn read_bytes(&mut self, n: usize) -> (r: Option<Vec<u8>>)
        requires
            old(self).wf(),
        ensures
            match r {
                Some(b) => {
                    &&& old(self).pos + n <= old(self).data@.len()
                    &&& b@ == old(self).data@.subrange(
                        old(self).pos as int,
                        old(self).pos + n,
                    )
                    &&& old(self).moved_to(final(self), (old(self).pos + n) as nat)
                },
                None => {
                    &&& old(self).pos + n > old(self).data@.len()
                    &&& old(self).moved_to(final(self), old(self).pos as nat)
                },
            },
    {
        if self.data.len() - self.pos < n {
            return None;
        }
        let slice = vstd::slice::slice_subrange(self.data, self.pos, self.pos + n);
        let mut b: Vec<u8> = Vec::new();
        b.extend_from_slice(slice);
        assert(b@ =~= slice@);
        self.pos = self.pos + n;
        Some(b)
    }
}

/// What a number written at the end of a payload reads as.
pub proof fn written_number_reads_back(out: Seq<u8>, x: nat, n: nat, data: Seq<u8>)
    requires
        n == 2 || n == 4 || n == 8,
        x < byte_range(n),
        (padded(out, n) + le_bytes(x, n)).is_prefix_of(data),
    ensures
        number_at(false, data, out.len(), n) == Some(
            (x, (padded(out, n) + le_bytes(x, n)).len()),
        ),
{
    le_round_trip(x, n);
    let start = out.len() + gap(out.len(), n);
    assert(padded(out, n).len() == start);
    let whole = padded(out, n) + le_bytes(x, n);
    assert(data.subrange(start as int, (start + n) as int) =~= le_bytes(x, n)) by {
        assert forall|i: int| 0 <= i < n implies data.subrange(
            start as int,
            (start + n) as int,
        )[i] == le_bytes(x, n)[i] by {
            assert(data[start + i] == whole[start + i]);
        }
    }
}

} // verus!
