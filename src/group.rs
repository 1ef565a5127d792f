//! Scalars modulo the group order and elements of the Ristretto group, held
//! as their canonical 32-byte encodings.
use curve25519_dalek::ristretto::CompressedRistretto;
use vstd::arithmetic::power2::pow2;
use vstd::prelude::*;

verus! {

/// The order of the Ristretto group: 2^252 + 27742317777372353535851937790883648493.
pub open spec fn group_order() -> nat {
    pow2(252) + 27742317777372353535851937790883648493nat
}

/// The integer that a byte string encodes in little-endian order.
pub open spec fn le_value(s: Seq<u8>) -> nat
    decreases s.len(),
{
    if s.len() == 0 {
        0
    } else {
        s[0] as nat + 256 * le_value(s.drop_first())
    }
}

/// Whether 32 bytes are the canonical encoding of a group element.
pub uninterp spec fn decompresses(b: Seq<u8>) -> bool;

/// The encoding of the sum of the elements encoded by `a` and `b`.
pub uninterp spec fn point_sum(a: Seq<u8>, b: Seq<u8>) -> Seq<u8>;

/// The encoding of the difference of the elements encoded by `a` and `b`.
pub uninterp spec fn point_difference(a: Seq<u8>, b: Seq<u8>) -> Seq<u8>;

/// The encoding of `k` times the element encoded by `p`.
pub uninterp spec fn point_multiple(k: nat, p: Seq<u8>) -> Seq<u8>;

/// The encoding of `k` times the Ristretto base point.
pub uninterp spec fn base_multiple(k: nat) -> Seq<u8>;

/// An integer modulo the group order, held as its canonical little-endian bytes.
#[derive(Clone, Copy, PartialEq, Eq, Debug)]
pub struct Scalar {
    pub(crate) bytes: [u8; 32],
}

/// A group element, held as its canonical compressed encoding.
#[derive(Clone, Copy, PartialEq, Eq, Debug)]
pub struct Point {
    pub(crate) bytes: [u8; 32],
}

impl View for Scalar {
    type V = Seq<u8>;

    closed spec fn view(&self) -> Seq<u8> {
        self.bytes@
    }
}

impl View for Point {
    type V = Seq<u8>;

    closed spec fn view(&self) -> Seq<u8> {
        self.bytes@
    }
}

impl Scalar {
    /// The integer this scalar stands for.
    pub open spec fn value(&self) -> nat {
        le_value(self@)
    }

    /// The bytes are the canonical encoding of an integer below the group order.
    pub open spec fn wf(&self) -> bool {
        self.value() < group_order()
    }

    /// Reads a scalar from its canonical encoding; `None` where the bytes
    /// encode an integer not below the group order.
    pub fn from_canonical_bytes(bytes: [u8; 32]) -> (r: Option<Scalar>)
        ensures
            r is Some <==> le_value(bytes@) < group_order(),
            r matches Some(s) ==> s@ == bytes@ && s.wf(),
    {
        if scalar_bytes_canonical(&bytes) {
            Some(Scalar { bytes })
        } else {
            None
        }
    }

    /// The canonical encoding of this scalar.
    pub fn to_bytes(&self) -> (r: [u8; 32])
        ensures
            r@ == self@,
    {
        self.bytes
    }

    /// Sum modulo the group order.
    pub fn add(&self, other: &Scalar) -> (r: Scalar)
        requires
            self.wf(),
            other.wf(),
        ensures
            r.value() == (self.value() + other.value()) % group_order(),
            r.wf(),
    {
        scalar_add(self, other)
    }

    /// Product modulo the group order.
    pub fn mul(&self, other: &Scalar) -> (r: Scalar)
        requires
            self.wf(),
            other.wf(),
        ensures
            r.value() == (self.value() * other.value()) % group_order(),
            r.wf(),
    {
        scalar_mul(self, other)
    }
}

impl Point {
    /// The bytes decode to a group element.
    pub open spec fn wf(&self) -> bool {
        decompresses(self@)
    }

    /// Reads a group element from its canonical encoding; `None` where the
    /// bytes are not one.
    pub fn from_bytes(bytes: [u8; 32]) -> (r: Option<Point>)
        ensures
            r is Some <==> decompresses(bytes@),
            r matches Some(p) ==> p@ == bytes@ && p.wf(),
    {
        if point_bytes_canonical(&bytes) {
            Some(Point { bytes })
        } else {
            None
        }
    }

    /// The canonical encoding of this element.
    pub fn to_bytes(&self) -> (r: [u8; 32])
        ensures
            r@ == self@,
    {
        self.bytes
    }
}

/// Relies on `Scalar::from_canonical_bytes`: it accepts exactly the
/// little-endian encodings of integers below the group order.
#[verifier::external_body]
pub(crate) fn scalar_bytes_canonical(b: &[u8; 32]) -> (r: bool)
    ensures
        r == (le_value(b@) < group_order()),
{
    bool::from(curve25519_dalek::scalar::Scalar::from_canonical_bytes(*b).is_some())
}

/// Relies on `CompressedRistretto::decompress`: whether the bytes encode a
/// group element.
#[verifier::external_body]
pub(crate) fn point_bytes_canonical(b: &[u8; 32]) -> (r: bool)
    ensures
        r == decompresses(b@),
{
    CompressedRistretto(*b).decompress().is_some()
}

/// Relies on `Scalar + Scalar`: addition modulo the group order, with a
/// canonical result.
#[verifier::external_body]
fn scalar_add(a: &Scalar, b: &Scalar) -> (r: Scalar)
    requires
        a.wf(),
        b.wf(),
    ensures
        r.value() == (a.value() + b.value()) % group_order(),
{
    let x = curve25519_dalek::scalar::Scalar::from_bytes_mod_order(a.bytes);
    let y = curve25519_dalek::scalar::Scalar::from_bytes_mod_order(b.bytes);
    Scalar { bytes: (x + y).to_bytes() }
}

/// Relies on `Scalar * Scalar`: multiplication modulo the group order, with
/// a canonical result.
#[verifier::external_body]
fn scalar_mul(a: &Scalar, b: &Scalar) -> (r: Scalar)
    requires
        a.wf(),
        b.wf(),
    ensures
        r.value() == (a.value() * b.value()) % group_order(),
{
    let x = curve25519_dalek::scalar::Scalar::from_bytes_mod_order(a.bytes);
    let y = curve25519_dalek::scalar::Scalar::from_bytes_mod_order(b.bytes);
    Scalar { bytes: (x * y).to_bytes() }
}

/// Relies on `RistrettoPoint + RistrettoPoint` and `compress`: the group
/// sum, canonically encoded; subtracting `b` again gives back `a`.
#[verifier::external_body]
pub(crate) fn point_add(a: &Point, b: &Point) -> (r: Point)
    requires
        a.wf(),
        b.wf(),
    ensures
        r@ == point_sum(a@, b@),
        r.wf(),
        point_difference(r@, b@) == a@,
{
    let x = CompressedRistretto(a.bytes).decompress().unwrap();
    let y = CompressedRistretto(b.bytes).decompress().unwrap();
    Point { bytes: (x + y).compress().to_bytes() }
}

/// Relies on `RistrettoPoint - RistrettoPoint` and `compress`: the group
/// difference, canonically encoded.
#[verifier::external_body]
pub(crate) fn point_sub(a: &Point, b: &Point) -> (r: Point)
    requires
        a.wf(),
        b.wf(),
    ensures
        r@ == point_difference(a@, b@),
        r.wf(),
{
    let x = CompressedRistretto(a.bytes).decompress().unwrap();
    let y = CompressedRistretto(b.bytes).decompress().unwrap();
    Point { bytes: (x - y).compress().to_bytes() }
}

/// Relies on `Scalar * RistrettoPoint` and `compress`: the scalar multiple,
/// canonically encoded.
#[verifier::external_body]
pub(crate) fn point_mul(k: &Scalar, p: &Point) -> (r: Point)
    requires
        k.wf(),
        p.wf(),
    ensures
        r@ == point_multiple(k.value(), p@),
        r.wf(),
{
    let s = curve25519_dalek::scalar::Scalar::from_bytes_mod_order(k.bytes);
    let x = CompressedRistretto(p.bytes).decompress().unwrap();
    Point { bytes: (s * x).compress().to_bytes() }
}

/// Relies on `RistrettoPoint::mul_base` and `compress`: the multiple of the
/// base point, canonically encoded.
#[verifier::external_body]
pub(crate) fn base_mul(k: &Scalar) -> (r: Point)
    requires
        k.wf(),
    ensures
        r@ == base_multiple(k.value()),
        r.wf(),
{
    let s = curve25519_dalek::scalar::Scalar::from_bytes_mod_order(k.bytes);
    Point { bytes: curve25519_dalek::ristretto::RistrettoPoint::mul_base(&s).compress().to_bytes() }
}

/// Builds a scalar from bytes already known to be canonical.
pub(crate) fn scalar_from_canonical(bytes: [u8; 32]) -> (r: Scalar)
    requires
        le_value(bytes@) < group_order(),
    ensures
        r@ == bytes@,
        r.wf(),
{
    Scalar { bytes }
}

/// Builds a point from bytes already known to decode.
pub(crate) fn point_from_canonical(bytes: [u8; 32]) -> (r: Point)
    requires
        decompresses(bytes@),
    ensures
        r@ == bytes@,
        r.wf(),
{
    Point { bytes }
}

/// Two scalars with the same encoding are the same value.
pub proof fn lemma_scalar_view_injective(a: Scalar, b: Scalar)
    requires
        a@ == b@,
    ensures
        a == b,
{
    broadcast use vstd::array::group_array_axioms;
    assert(a.bytes =~= b.bytes);
}

/// Two points with the same encoding are the same value.
pub proof fn lemma_point_view_injective(a: Point, b: Point)
    requires
        a@ == b@,
    ensures
        a == b,
{
    broadcast use vstd::array::group_array_axioms;
    assert(a.bytes =~= b.bytes);
}

/// A scalar's encoding is 32 bytes long.
pub proof fn lemma_scalar_view_len(a: Scalar)
    ensures
        a@.len() == 32,
{
}

/// A point's encoding is 32 bytes long.
pub proof fn lemma_point_view_len(a: Point)
    ensures
        a@.len() == 32,
{
}

} // verus!
