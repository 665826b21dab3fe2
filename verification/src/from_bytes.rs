//! Reading a job's result bytes back as a value of its data type.

use vstd::prelude::*;
use vstd::endian::{Endian, endianness};

verus! {

/// The unsigned value of four bytes read least significant byte first.
pub open spec fn le_word(b: Seq<u8>) -> int {
    b[0] + 256 * b[1] + 65536 * b[2] + 16777216 * b[3]
}

/// The unsigned value of four bytes read most significant byte first.
pub open spec fn be_word(b: Seq<u8>) -> int {
    b[3] + 256 * b[2] + 65536 * b[1] + 16777216 * b[0]
}

/// The two's complement reading of a 32-bit unsigned value.
pub open spec fn signed_word(w: int) -> int {
    if w < 0x8000_0000 {
        w
    } else {
        w - 0x1_0000_0000
    }
}

/// `r` is the four bytes `b` read as an `i32` in one of the two byte orders.
pub open spec fn reads_i32(b: Seq<u8>, r: i32) -> bool {
    r as int == signed_word(le_word(b)) || r as int == signed_word(be_word(b))
}

/// The unsigned value of four bytes read in the byte order of the machine
/// that runs the code (`vstd::endian::endianness`).
pub open spec fn native_word(b: Seq<u8>) -> int {
    match endianness() {
        Endian::Little => le_word(b),
        Endian::Big => be_word(b),
    }
}

/// `r` is the four bytes `b` read as an `i32` in the machine's byte order.
pub open spec fn reads_native_i32(b: Seq<u8>, r: i32) -> bool {
    r as int == signed_word(native_word(b))
}

/// The four bytes of `x` in the machine's byte order, as `x.to_ne_bytes()`
/// gives them.
pub open spec fn native_bytes(x: i32) -> Seq<u8> {
    let u: int = if x >= 0 {
        x as int
    } else {
        x + 0x1_0000_0000
    };
    let le = seq![
        (u % 256) as u8,
        ((u / 256) % 256) as u8,
        ((u / 65536) % 256) as u8,
        (u / 16777216) as u8,
    ];
    match endianness() {
        Endian::Little => le,
        Endian::Big => seq![le[3], le[2], le[1], le[0]],
    }
}

/// `i32::from_ne_bytes`.
///
/// Its documentation says it reads the bytes in the machine's native byte
/// order; claimed here is that the result is the bytes read in the byte
/// order that `vstd::endian::endianness` stands for, the order of the
/// machine that runs the code, which is one of the two byte orders.
#[verifier::external_body]
fn i32_from_ne_bytes(bytes: [u8; 4]) -> (r: i32)
    ensures
        reads_native_i32(bytes@, r),
        reads_i32(bytes@, r),
{
    i32::from_ne_bytes(bytes)
}

/// A data type that a job's result bytes are read back into.
pub trait FromBytes: Sized {
    /// How many leading bytes a value is read from.
    spec fn width() -> nat;

    /// The number of leading bytes a value is read from.
    fn byte_width() -> (n: usize)
        ensures
            n == Self::width(),
    ;

    fn from_bytes(bytes: &[u8]) -> (r: Self)
        requires
            bytes@.len() >= Self::width(),
    ;
}

impl FromBytes for i32 {
    open spec fn width() -> nat {
        4
    }

    fn byte_width() -> (n: usize) {
        4
    }

    /// Reads the first four bytes in the machine's byte order.
    fn from_bytes(bytes: &[u8]) -> (r: i32)
        ensures
            reads_native_i32(bytes@.take(4), r),
            reads_i32(bytes@.take(4), r),
    {
        let arr: [u8; 4] = [bytes[0], bytes[1], bytes[2], bytes[3]];
        assert(arr@ =~= bytes@.take(4));
        i32_from_ne_bytes(arr)
    }
}

/// Every input is read in one and the same byte order: either the first
/// four bytes of both inputs are read least significant byte first, or
/// both most significant byte first.
pub proof fn lemma_one_byte_order(b1: Seq<u8>, r1: i32, b2: Seq<u8>, r2: i32)
    requires
        reads_native_i32(b1, r1),
        reads_native_i32(b2, r2),
    ensures
        (r1 as int == signed_word(le_word(b1)) && r2 as int == signed_word(le_word(b2))) || (r1 as int
            == signed_word(be_word(b1)) && r2 as int == signed_word(be_word(b2))),
{
}

/// Reading back the bytes that `to_ne_bytes` gives for `x` yields `x`.
pub proof fn lemma_native_round_trip(x: i32, r: i32)
    requires
        reads_native_i32(native_bytes(x), r),
    ensures
        r == x,
{
    let u: int = if x >= 0 {
        x as int
    } else {
        x + 0x1_0000_0000
    };
    let b0 = u % 256;
    let q1 = u / 256;
    let b1 = q1 % 256;
    let q2 = q1 / 256;
    let b2 = q2 % 256;
    let b3 = q2 / 256;
    assert(u == b0 + 256 * q1) by (nonlinear_arith)
        requires
            b0 == u % 256,
            q1 == u / 256,
    ;
    assert(q1 == b1 + 256 * q2) by (nonlinear_arith)
        requires
            b1 == q1 % 256,
            q2 == q1 / 256,
    ;
    assert(q2 == b2 + 256 * b3) by (nonlinear_arith)
        requires
            b2 == q2 % 256,
            b3 == q2 / 256,
    ;
    assert((u / 256) % 256 == b1);
    assert(u / 65536 == q2) by (nonlinear_arith)
        requires
            q1 == u / 256,
            q2 == q1 / 256,
            0 <= u,
    ;
    assert(u / 16777216 == b3) by (nonlinear_arith)
        requires
            q2 == u / 65536,
            b3 == q2 / 256,
            0 <= u,
    ;
    assert(0 <= b0 < 256 && 0 <= b1 < 256 && 0 <= b2 < 256);
    assert(0 <= b3 < 256) by (nonlinear_arith)
        requires
            0 <= u < 0x1_0000_0000,
            b3 == u / 16777216,
    ;
    let bytes = native_bytes(x);
    assert(native_word(bytes) == b0 + 256 * b1 + 65536 * b2 + 16777216 * b3);
    assert(native_word(bytes) == u);
}

} // verus!
