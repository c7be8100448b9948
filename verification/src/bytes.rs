//! Integers as bytes, in either order.

use byteorder::{BigEndian, ByteOrder};
use vstd::prelude::*;

verus! {

/// The lowest `len` bytes of a number, most significant first.
pub open spec fn be_bytes(n: nat, len: nat) -> Seq<u8>
    decreases len,
{
    if len == 0 {
        Seq::<u8>::empty()
    } else {
        be_bytes(n / 256, (len - 1) as nat).push((n % 256) as u8)
    }
}

/// The number that bytes denote, most significant first.
pub open spec fn be_value(s: Seq<u8>) -> nat
    decreases s.len(),
{
    if s.len() == 0 {
        0
    } else {
        be_value(s.drop_last()) * 256 + s.last() as nat
    }
}

/// How many numbers `len` bytes can tell apart.
pub open spec fn byte_range(len: nat) -> nat
    decreases len,
{
    if len == 0 {
        1
    } else {
        byte_range((len - 1) as nat) * 256
    }
}

/// The lowest `len` bytes of a number, least significant first.
pub open spec fn le_bytes(n: nat, len: nat) -> Seq<u8> {
    be_bytes(n, len).reverse()
}

/// The number that bytes denote, least significant first.
pub open spec fn le_value(s: Seq<u8>) -> nat {
    be_value(s.reverse())
}

pub proof fn be_bytes_len(n: nat, len: nat)
    ensures
        be_bytes(n, len).len() == len,
    decreases len,
{
    if len > 0 {
        be_bytes_len(n / 256, (len - 1) as nat);
    }
}

/// A number that fits is read back from its bytes.
pub proof fn be_value_inverts_be_bytes(n: nat, len: nat)
    requires
        n < byte_range(len),
    ensures
        be_bytes(n, len).len() == len,
        be_value(be_bytes(n, len)) == n,
    decreases len,
{
    if len > 0 {
        let short = (len - 1) as nat;
        assert(n / 256 < byte_range(short)) by (nonlinear_arith)
            requires
                n < byte_range(short) * 256,
        ;
        be_value_inverts_be_bytes(n / 256, short);
        assert(be_bytes(n, len).drop_last() == be_bytes(n / 256, short));
    }
}

/// Bytes are written back from the number they denote.
pub proof fn be_bytes_inverts_be_value(s: Seq<u8>)
    ensures
        be_bytes(be_value(s), s.len()) == s,
    decreases s.len(),
{
    if s.len() > 0 {
        be_bytes_inverts_be_value(s.drop_last());
        assert(be_value(s) / 256 == be_value(s.drop_last()));
        assert(s.drop_last().push(s.last()) == s);
    }
}

/// The ranges of the integer types on the wire.
pub proof fn byte_ranges()
    ensures
        byte_range(2) == 0x1_0000,
        byte_range(4) == 0x1_0000_0000,
        byte_range(8) == 0x1_0000_0000_0000_0000,
{
    reveal_with_fuel(byte_range, 9);
}

/// Appends bytes to a buffer.
pub fn push_all(buf: &mut Vec<u8>, bytes: &[u8])
    ensures
        final(buf)@ == old(buf)@ + bytes@,
{
    let ghost before = buf@;
    buf.extend_from_slice(bytes);
    assert(buf@ == before + bytes@);
}

/// The four bytes of a number, most significant first.
pub fn be_u32(n: u32) -> (r: [u8; 4])
    ensures
        r@ == be_bytes(n as nat, 4),
{
    let a: u32 = n / 256;
    let b: u32 = a / 256;
    let c: u32 = b / 256;
    let r: [u8; 4] = [(c % 256) as u8, (b % 256) as u8, (a % 256) as u8, (n % 256) as u8];
    proof {
        reveal_with_fuel(be_bytes, 5);
        assert(r@ == be_bytes(n as nat, 4));
    }
    r
}

/// Reads four bytes at the given place, most significant first.
pub fn read_be_u32(buf: &[u8], at: usize) -> (r: u32)
    requires
        at + 4 <= buf@.len(),
    ensures
        r as nat == be_value(buf@.subrange(at as int, at + 4)),
{
    let ghost s = buf@.subrange(at as int, at + 4);
    proof {
        reveal_with_fuel(be_value, 5);
        assert(s.drop_last().drop_last().drop_last().drop_last().len() == 0);
    }
    let a: u32 = buf[at] as u32;
    let b: u32 = a * 256 + buf[at + 1] as u32;
    let c: u32 = b * 256 + buf[at + 2] as u32;
    c * 256 + buf[at + 3] as u32
}

/// The eight bytes that `byteorder`'s `BigEndian::write_u64` writes: the number, most significant
/// byte first.
#[verifier::external_body]
pub(crate) fn be_u64(n: u64) -> (r: Vec<u8>)
    ensures
        r@ == be_bytes(n as nat, 8),
{
    let mut buf = [0u8; 8];
    BigEndian::write_u64(&mut buf, n);
    buf.to_vec()
}

/// The two bytes that `byteorder`'s `BigEndian::write_u16` writes: the number, most significant
/// byte first.
#[verifier::external_body]
pub(crate) fn be_u16(n: u16) -> (r: Vec<u8>)
    ensures
        r@ == be_bytes(n as nat, 2),
{
    let mut buf = [0u8; 2];
    BigEndian::write_u16(&mut buf, n);
    buf.to_vec()
}

/// The number that `byteorder`'s `BigEndian::read_u64` reads from the first eight bytes, which
/// must be there: most significant byte first.
#[verifier::external_body]
pub(crate) fn read_be_u64(buf: &[u8]) -> (r: u64)
    requires
        buf@.len() >= 8,
    ensures
        r as nat == be_value(buf@.take(8)),
{
    BigEndian::read_u64(buf)
}

/// The number that `byteorder`'s `BigEndian::read_u16` reads from the first two bytes, which must
/// be there: most significant byte first.
#[verifier::external_body]
pub(crate) fn read_be_u16(buf: &[u8]) -> (r: u16)
    requires
        buf@.len() >= 2,
    ensures
        r as nat == be_value(buf@.take(2)),
{
    BigEndian::read_u16(buf)
}

/// Bytes in network order weigh the more the earlier they stand.
pub proof fn network_order_weighs_early_bytes_most(s: Seq<u8>)
    ensures
        s.len() == 2 ==> be_value(s) == s[0] * 0x100 + s[1],
        s.len() == 4 ==> be_value(s) == s[0] * 0x100_0000 + s[1] * 0x1_0000 + s[2] * 0x100 + s[3],
        s.len() == 8 ==> be_value(s) == s[0] * 0x100_0000_0000_0000 + s[1] * 0x1_0000_0000_0000
            + s[2] * 0x100_0000_0000 + s[3] * 0x1_0000_0000 + s[4] * 0x100_0000 + s[5] * 0x1_0000
            + s[6] * 0x100 + s[7],
{
    reveal_with_fuel(be_value, 9);
}

/// The bytes of a number in network order weigh up to the number.
pub proof fn written_bytes_weigh_up_to_the_number(n: nat)
    ensures
        n < 0x1_0000 ==> {
            let s = be_bytes(n, 2);
            s.len() == 2 && n == s[0] * 0x100 + s[1]
        },
        n < 0x1_0000_0000 ==> {
            let s = be_bytes(n, 4);
            s.len() == 4 && n == s[0] * 0x100_0000 + s[1] * 0x1_0000 + s[2] * 0x100 + s[3]
        },
        n < 0x1_0000_0000_0000_0000 ==> {
            let s = be_bytes(n, 8);
            s.len() == 8 && n == s[0] * 0x100_0000_0000_0000 + s[1] * 0x1_0000_0000_0000 + s[2]
                * 0x100_0000_0000 + s[3] * 0x1_0000_0000 + s[4] * 0x100_0000 + s[5] * 0x1_0000
                + s[6] * 0x100 + s[7]
        },
{
    byte_ranges();
    if n < 0x1_0000 {
        be_value_inverts_be_bytes(n, 2);
        network_order_weighs_early_bytes_most(be_bytes(n, 2));
    }
    if n < 0x1_0000_0000 {
        be_value_inverts_be_bytes(n, 4);
        network_order_weighs_early_bytes_most(be_bytes(n, 4));
    }
    if n < 0x1_0000_0000_0000_0000 {
        be_value_inverts_be_bytes(n, 8);
        network_order_weighs_early_bytes_most(be_bytes(n, 8));
    }
}

/// In the other order bytes weigh the more the later they stand, in reading and in writing.
pub proof fn little_order_weighs_late_bytes_most(s: Seq<u8>, n: nat)
    ensures
        s.len() == 4 ==> le_value(s) == s[0] + s[1] * 0x100 + s[2] * 0x1_0000 + s[3] * 0x100_0000,
        n < 0x1_0000_0000 ==> {
            let w = le_bytes(n, 4);
            w.len() == 4 && n == w[0] + w[1] * 0x100 + w[2] * 0x1_0000 + w[3] * 0x100_0000
        },
{
    if s.len() == 4 {
        network_order_weighs_early_bytes_most(s.reverse());
    }
    if n < 0x1_0000_0000 {
        written_bytes_weigh_up_to_the_number(n);
    }
}

} // verus!
