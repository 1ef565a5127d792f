//! The fixed-width wire format: a structure is the concatenation of its
//! fields' 32-byte canonical encodings, in declared order, with no padding.
use crate::error::CredentialError;
use crate::group::{
    decompresses, group_order, le_value, point_bytes_canonical, point_from_canonical,
    scalar_bytes_canonical, scalar_from_canonical, Point, Scalar,
};
use vstd::prelude::*;

verus! {

/// The `i`-th 32-byte field of an encoding.
pub open spec fn field_at(b: Seq<u8>, i: int) -> Seq<u8> {
    b.subrange(32 * i, 32 * i + 32)
}

/// The fields laid end to end.
pub open spec fn concat_fields(fs: Seq<Seq<u8>>) -> Seq<u8>
    decreases fs.len(),
{
    if fs.len() == 0 {
        Seq::empty()
    } else {
        concat_fields(fs.drop_last()) + fs.last()
    }
}

/// Whether one field is a canonical point (`is_point`) or scalar encoding.
pub open spec fn field_valid(f: Seq<u8>, is_point: bool) -> bool {
    if is_point {
        decompresses(f)
    } else {
        le_value(f) < group_order()
    }
}

/// Whether `b` is a well-formed encoding of a structure whose fields have the
/// given kinds (`true` for a point, `false` for a scalar).
pub open spec fn fields_valid(b: Seq<u8>, kinds: Seq<bool>) -> bool {
    &&& b.len() == 32 * kinds.len()
    &&& forall|i: int| 0 <= i < kinds.len() ==> #[trigger] field_valid(field_at(b, i), kinds[i])
}

/// The fields that a well-formed encoding of `n` fields holds.
pub open spec fn split_fields(b: Seq<u8>, n: nat) -> Seq<Seq<u8>> {
    Seq::new(n, |i: int| field_at(b, i))
}

/// The views of a list of 32-byte arrays.
pub open spec fn array_views(a: Seq<[u8; 32]>) -> Seq<Seq<u8>> {
    a.map_values(|x: [u8; 32]| x@)
}

/// Laying out fields of 32 bytes and cutting the result at every 32 bytes
/// gives back the fields.
pub proof fn lemma_concat_split(fs: Seq<Seq<u8>>)
    requires
        forall|i: int| 0 <= i < fs.len() ==> (#[trigger] fs[i]).len() == 32,
    ensures
        concat_fields(fs).len() == 32 * fs.len(),
        forall|i: int| 0 <= i < fs.len() ==> field_at(concat_fields(fs), i) == fs[i],
        split_fields(concat_fields(fs), fs.len()) == fs,
    decreases fs.len(),
{
    if fs.len() > 0 {
        let init = fs.drop_last();
        assert forall|i: int| 0 <= i < init.len() implies (#[trigger] init[i]).len() == 32 by {
            assert(init[i] == fs[i]);
        }
        lemma_concat_split(init);
        let c = concat_fields(fs);
        assert(c == concat_fields(init) + fs.last());
        assert forall|i: int| 0 <= i < fs.len() implies field_at(c, i) == fs[i] by {
            if i < init.len() {
                assert(field_at(c, i) =~= field_at(concat_fields(init), i));
                assert(field_at(concat_fields(init), i) == init[i]);
                assert(init[i] == fs[i]);
            } else {
                assert(field_at(c, i) =~= fs.last());
            }
        }
    }
    assert(split_fields(concat_fields(fs), fs.len()) =~= fs);
}

/// Copies the `i`-th 32-byte field out of `b`.
pub(crate) fn read_field(b: &[u8], i: usize) -> (r: [u8; 32])
    requires
        32 * i + 32 <= b@.len(),
    ensures
        r@ == field_at(b@, i as int),
{
    let n = b.len();
    let mut out = [0u8; 32];
    let start = 32 * i;
    let mut j: usize = 0;
    while j < 32
        invariant
            start == 32 * i,
            start + 32 <= b@.len(),
            j <= 32,
            forall|k: int| 0 <= k < j ==> out@[k] == b@[start + k],
        decreases 32 - j,
    {
        out[j] = b[start + j];
        j = j + 1;
    }
    assert(out@ =~= field_at(b@, i as int));
    out
}

/// Splits `b` into fields of the given kinds, checking that each is a
/// canonical encoding of its kind.
pub(crate) fn decode_fields(b: &[u8], kinds: &Vec<bool>) -> (r: Result<Vec<[u8; 32]>, CredentialError>)
    requires
        kinds@.len() <= 64,
    ensures
        r is Ok <==> fields_valid(b@, kinds@),
        r matches Ok(v) ==> array_views(v@) == split_fields(b@, kinds@.len()),
        r matches Err(e) ==> e == CredentialError::MalformedEncoding,
{
    if b.len() != 32 * kinds.len() {
        return Err(CredentialError::MalformedEncoding);
    }
    let mut out: Vec<[u8; 32]> = Vec::new();
    let mut i: usize = 0;
    while i < kinds.len()
        invariant
            b@.len() == 32 * kinds@.len(),
            kinds@.len() <= 64,
            i <= kinds@.len(),
            out@.len() == i,
            forall|k: int| 0 <= k < i ==> #[trigger] field_valid(field_at(b@, k), kinds@[k]),
            forall|k: int| 0 <= k < i ==> (#[trigger] out@[k])@ == field_at(b@, k),
        decreases kinds@.len() - i,
    {
        let f = read_field(b, i);
        let ok = if kinds[i] {
            point_bytes_canonical(&f)
        } else {
            scalar_bytes_canonical(&f)
        };
        if !ok {
            assert(!field_valid(field_at(b@, i as int), kinds@[i as int]));
            return Err(CredentialError::MalformedEncoding);
        }
        out.push(f);
        i = i + 1;
    }
    assert(array_views(out@) =~= split_fields(b@, kinds@.len()));
    Ok(out)
}

/// Lays the fields end to end.
pub(crate) fn encode_fields(fs: &Vec<[u8; 32]>) -> (r: Vec<u8>)
    ensures
        r@ == concat_fields(array_views(fs@)),
{
    let mut out: Vec<u8> = Vec::new();
    let mut i: usize = 0;
    while i < fs.len()
        invariant
            i <= fs@.len(),
            out@ == concat_fields(array_views(fs@.subrange(0, i as int))),
        decreases fs@.len() - i,
    {
        let f = fs[i];
        let mut j: usize = 0;
        let ghost before = out@;
        while j < 32
            invariant
                j <= 32,
                out@ == before + f@.subrange(0, j as int),
            decreases 32 - j,
        {
            out.push(f[j]);
            j = j + 1;
            assert(out@ =~= before + f@.subrange(0, j as int));
        }
        proof {
            let next = array_views(fs@.subrange(0, i + 1));
            assert(next.drop_last() =~= array_views(fs@.subrange(0, i as int)));
            assert(f@.subrange(0, 32) =~= f@);
        }
        i = i + 1;
    }
    assert(fs@.subrange(0, fs@.len() as int) =~= fs@);
    out
}

/// Takes the `i`-th decoded field, known to be a scalar.
pub(crate) fn scalar_field(
    v: &Vec<[u8; 32]>,
    i: usize,
    Ghost(b): Ghost<Seq<u8>>,
    Ghost(kinds): Ghost<Seq<bool>>,
) -> (r: Scalar)
    requires
        fields_valid(b, kinds),
        array_views(v@) == split_fields(b, kinds.len()),
        i < kinds.len(),
        !kinds[i as int],
    ensures
        r@ == field_at(b, i as int),
        r.wf(),
{
    proof {
        assert(field_valid(field_at(b, i as int), kinds[i as int]));
        assert(array_views(v@).len() == v@.len());
        assert(array_views(v@)[i as int] == v@[i as int]@);
        assert(array_views(v@)[i as int] == split_fields(b, kinds.len())[i as int]);
    }
    scalar_from_canonical(v[i])
}

/// Takes the `i`-th decoded field, known to be a point.
pub(crate) fn point_field(
    v: &Vec<[u8; 32]>,
    i: usize,
    Ghost(b): Ghost<Seq<u8>>,
    Ghost(kinds): Ghost<Seq<bool>>,
) -> (r: Point)
    requires
        fields_valid(b, kinds),
        array_views(v@) == split_fields(b, kinds.len()),
        i < kinds.len(),
        kinds[i as int],
    ensures
        r@ == field_at(b, i as int),
        r.wf(),
{
    proof {
        assert(field_valid(field_at(b, i as int), kinds[i as int]));
        assert(array_views(v@).len() == v@.len());
        assert(array_views(v@)[i as int] == v@[i as int]@);
        assert(array_views(v@)[i as int] == split_fields(b, kinds.len())[i as int]);
    }
    point_from_canonical(v[i])
}

} // verus!
