//! The fixed set of generators shared by issuer and verifier.
use crate::encoding::{
    array_views, concat_fields, decode_fields, encode_fields, field_at, field_valid,
    fields_valid, lemma_concat_split, point_field, split_fields,
};
use crate::error::CredentialError;
use crate::group::{lemma_point_view_injective, lemma_point_view_len, Point};
use vstd::prelude::*;

verus! {

/// The generators, in declared order.
#[derive(Clone, Copy, PartialEq, Eq, Debug)]
pub struct SystemParams {
    pub G_w: Point,
    pub G_wprime: Point,
    pub G_x0: Point,
    pub G_x1: Point,
    pub G_y1: Point,
    pub G_y2: Point,
    pub G_y3: Point,
    pub G_y4: Point,
    pub G_m1: Point,
    pub G_m2: Point,
    pub G_m3: Point,
    pub G_m4: Point,
    pub G_V: Point,
    pub G_z: Point,
}

/// The agreed encoding of the generators that the fixed derivation gives.
pub const SYSTEM_HARDCODED: [u8; 448] = [
    0x9a, 0xe7, 0xc8, 0xe5, 0xed, 0x77, 0x9b, 0x11, 0x4a, 0xe7, 0x70, 0x8a,
    0xa2, 0xf7, 0x94, 0x67, 0xa, 0xdd, 0xa3, 0x24, 0x98, 0x7b, 0x65, 0x99,
    0x13, 0x12, 0x2c, 0x35, 0x50, 0x5b, 0x10, 0x5e, 0x6c, 0xa3, 0x10, 0x25,
    0xd2, 0xd7, 0x6b, 0xe7, 0xfd, 0x34, 0x94, 0x4f, 0x98, 0xf7, 0xfa, 0xe,
    0x37, 0xba, 0xbb, 0x2c, 0x8b, 0x98, 0xbb, 0xbd, 0xbd, 0x3d, 0xd1, 0xbf,
    0x13, 0xc, 0xca, 0x2c, 0x8a, 0x9a, 0x3b, 0xdf, 0xaa, 0xa2, 0xb6, 0xb3,
    0x22, 0xd4, 0x6b, 0x93, 0xec, 0xa7, 0xb0, 0xd5, 0x1c, 0x86, 0xa3, 0xc8,
    0x39, 0xe1, 0x14, 0x66, 0x35, 0x82, 0x58, 0xa6, 0xc1, 0xc, 0x57, 0x7f,
    0xc2, 0xbf, 0xfd, 0x34, 0xcd, 0x99, 0x16, 0x4c, 0x9a, 0x6c, 0xd2, 0x9f,
    0xab, 0x55, 0xd9, 0x1f, 0xf9, 0x26, 0x93, 0x22, 0xec, 0x34, 0x58, 0x60,
    0x3c, 0xc9, 0x6a, 0xd, 0x47, 0xf7, 0x4, 0x5, 0x82, 0x88, 0xf6, 0x2e,
    0xe0, 0xac, 0xed, 0xb8, 0xaa, 0x23, 0x24, 0x21, 0x21, 0xd9, 0x89, 0x65,
    0xa9, 0xbb, 0x29, 0x91, 0x25, 0xc, 0x11, 0x75, 0x80, 0x95, 0xec, 0xe0,
    0xfd, 0x2b, 0x33, 0x28, 0x52, 0x86, 0xfe, 0x1f, 0xcb, 0x5, 0x61, 0x3,
    0xb6, 0x8, 0x17, 0x44, 0xb9, 0x75, 0xf5, 0x50, 0xd0, 0x85, 0x21, 0x56,
    0x8d, 0xd3, 0xd8, 0x61, 0x8f, 0x25, 0xc1, 0x40, 0x37, 0x5a, 0xf, 0x40,
    0x24, 0xc3, 0xaa, 0x23, 0xbd, 0xff, 0xfb, 0x27, 0xfb, 0xd9, 0x82, 0x20,
    0x8d, 0x3e, 0xcd, 0x1f, 0xd3, 0xbc, 0xb7, 0xac, 0xc, 0x3a, 0x14, 0xb1,
    0x9, 0x80, 0x4f, 0xc7, 0x48, 0xd7, 0xfa, 0x45, 0x6c, 0xff, 0xb4, 0x93,
    0x4f, 0x98, 0xb, 0x6e, 0x9, 0xa2, 0x48, 0xa6, 0xf, 0x44, 0xa6, 0x15,
    0xa, 0xe6, 0xc1, 0x3d, 0x7e, 0x3c, 0x6, 0x26, 0x1d, 0x7e, 0x4e, 0xed,
    0x37, 0xf3, 0x9f, 0x60, 0xcc, 0x60, 0x37, 0xdc, 0x31, 0xc2, 0xe8, 0xd4,
    0x47, 0x4f, 0xb5, 0x19, 0x58, 0x7a, 0x44, 0x86, 0x93, 0x18, 0x2a, 0xd9,
    0xd6, 0xd8, 0x6b, 0x53, 0x59, 0x57, 0x85, 0x8f, 0x54, 0x7b, 0x93, 0x40,
    0x12, 0x7d, 0xa7, 0x5f, 0x80, 0x74, 0xca, 0xee, 0x94, 0x4a, 0xc3, 0x6c,
    0xa, 0xc6, 0x62, 0xd3, 0x8c, 0x9b, 0x3c, 0xcc, 0xe0, 0x3a, 0x9, 0x3f,
    0xcd, 0x96, 0x44, 0x4, 0x73, 0x98, 0xb8, 0x6b, 0x6e, 0x83, 0x37, 0x2f,
    0xf1, 0x4f, 0xb8, 0xbb, 0xd, 0xea, 0x65, 0x53, 0x12, 0x52, 0xac, 0x70,
    0xd5, 0x8a, 0x4a, 0x8, 0x10, 0xd6, 0x82, 0xa0, 0xe7, 0x9, 0xc9, 0x22,
    0x7b, 0x30, 0xef, 0x6c, 0x8e, 0x17, 0xc5, 0x91, 0x5d, 0x52, 0x72, 0x21,
    0xbb, 0x0, 0xda, 0x81, 0x75, 0xcd, 0x64, 0x89, 0xaa, 0x8a, 0xa4, 0x92,
    0xa5, 0x0, 0xf9, 0xab, 0xee, 0x56, 0x90, 0xb9, 0xdf, 0xca, 0x88, 0x55,
    0x4, 0xb6, 0x16, 0xc7, 0x6, 0xc8, 0xc, 0x75, 0x6c, 0x11, 0xa3, 0x1,
    0x6b, 0xbf, 0xb6, 0x9, 0x77, 0xf4, 0x64, 0x8b, 0x5f, 0x23, 0x95, 0xa4,
    0xb4, 0x28, 0xb7, 0x21, 0x19, 0x40, 0x81, 0x3e, 0x3a, 0xfd, 0xe2, 0xb8,
    0x7a, 0xa9, 0xc2, 0xc3, 0x7b, 0xf7, 0x16, 0xe2, 0x57, 0x8f, 0x95, 0x65,
    0x6d, 0xf1, 0x2c, 0x2f, 0xb6, 0xf5, 0xd0, 0x63, 0x1f, 0x6f, 0x71, 0xe2,
    0xc3, 0x19, 0x3f, 0x6d,
];

/// The generators that the embedded encoding holds, where it is well formed.
pub open spec fn hardcoded_generators() -> Seq<Seq<u8>> {
    split_fields(SYSTEM_HARDCODED@, 14)
}

/// Whether the embedded encoding holds fourteen group elements.
pub open spec fn hardcoded_valid() -> bool {
    fields_valid(SYSTEM_HARDCODED@, SystemParams::kinds())
}

impl SystemParams {
    /// Builds the parameters from the fourteen points that the derivation
    /// draws, in declared order.
    pub fn generate(points: [Point; 14]) -> (r: SystemParams)
        requires
            forall|i: int| 0 <= i < 14 ==> (#[trigger] points[i]).wf(),
        ensures
            r.wf(),
            r.fields() == array_views_points(points@),
    {
        let G_w = points[0];
        let G_wprime = points[1];
        let G_x0 = points[2];
        let G_x1 = points[3];
        let G_y1 = points[4];
        let G_y2 = points[5];
        let G_y3 = points[6];
        let G_y4 = points[7];
        let G_m1 = points[8];
        let G_m2 = points[9];
        let G_m3 = points[10];
        let G_m4 = points[11];
        let G_V = points[12];
        let G_z = points[13];
        let r = SystemParams { G_w, G_wprime, G_x0, G_x1, G_y1, G_y2, G_y3, G_y4, G_m1, G_m2, G_m3, G_m4, G_V, G_z };
        proof {
            assert(points[0].wf());
            assert(points[1].wf());
            assert(points[2].wf());
            assert(points[3].wf());
            assert(points[4].wf());
            assert(points[5].wf());
            assert(points[6].wf());
            assert(points[7].wf());
            assert(points[8].wf());
            assert(points[9].wf());
            assert(points[10].wf());
            assert(points[11].wf());
            assert(points[12].wf());
            assert(points[13].wf());
            assert(r.fields() =~= array_views_points(points@));
        }
        r
    }

    /// Decodes the embedded encoding; `ParameterMismatch` where it does not
    /// hold fourteen group elements.
    pub fn get_hardcoded() -> (r: Result<SystemParams, CredentialError>)
        ensures
            r is Ok <==> hardcoded_valid(),
            r matches Ok(p) ==> p.wf() && p.fields() == hardcoded_generators(),
            r matches Err(e) ==> e == CredentialError::ParameterMismatch,
    {
        match SystemParams::from_bytes(SYSTEM_HARDCODED.as_slice()) {
            Ok(p) => Ok(p),
            Err(_) => Err(CredentialError::ParameterMismatch),
        }
    }
}

/// The encodings of a list of points.
pub open spec fn array_views_points(a: Seq<Point>) -> Seq<Seq<u8>> {
    a.map_values(|p: Point| p@)
}

impl SystemParams {
    /// Every field holds a canonical encoding.
    pub open spec fn wf(&self) -> bool {
        &&& self.G_w.wf()
        &&& self.G_wprime.wf()
        &&& self.G_x0.wf()
        &&& self.G_x1.wf()
        &&& self.G_y1.wf()
        &&& self.G_y2.wf()
        &&& self.G_y3.wf()
        &&& self.G_y4.wf()
        &&& self.G_m1.wf()
        &&& self.G_m2.wf()
        &&& self.G_m3.wf()
        &&& self.G_m4.wf()
        &&& self.G_V.wf()
        &&& self.G_z.wf()
    }

    /// The encodings of the fields, in declared order.
    pub open spec fn fields(&self) -> Seq<Seq<u8>> {
        seq![self.G_w@, self.G_wprime@, self.G_x0@, self.G_x1@, self.G_y1@, self.G_y2@, self.G_y3@, self.G_y4@, self.G_m1@, self.G_m2@, self.G_m3@, self.G_m4@, self.G_V@, self.G_z@]
    }

    /// The kind of each field in declared order: `true` for a point, `false` for a scalar.
    pub open spec fn kinds() -> Seq<bool> {
        seq![true, true, true, true, true, true, true, true, true, true, true, true, true, true]
    }

    /// The wire encoding: the fields' encodings end to end, 448 bytes.
    pub open spec fn encoding(&self) -> Seq<u8> {
        concat_fields(self.fields())
    }

    /// Encodes the system parameters.
    pub fn to_bytes(&self) -> (r: Vec<u8>)
        ensures
            r@ == self.encoding(),
    {
        let fs: Vec<[u8; 32]> = vec![
            self.G_w.to_bytes(),
            self.G_wprime.to_bytes(),
            self.G_x0.to_bytes(),
            self.G_x1.to_bytes(),
            self.G_y1.to_bytes(),
            self.G_y2.to_bytes(),
            self.G_y3.to_bytes(),
            self.G_y4.to_bytes(),
            self.G_m1.to_bytes(),
            self.G_m2.to_bytes(),
            self.G_m3.to_bytes(),
            self.G_m4.to_bytes(),
            self.G_V.to_bytes(),
            self.G_z.to_bytes(),
        ];
        proof {
            assert(array_views(fs@) =~= self.fields());
        }
        encode_fields(&fs)
    }

    /// Decodes the system parameters, refusing bytes of another length or a field that
    /// is not a canonical encoding.
    pub fn from_bytes(b: &[u8]) -> (r: Result<SystemParams, CredentialError>)
        ensures
            r is Ok <==> fields_valid(b@, Self::kinds()),
            r matches Ok(x) ==> x.wf() && x.fields() == split_fields(b@, 14),
            r matches Err(e) ==> e == CredentialError::MalformedEncoding,
    {
        let kinds: Vec<bool> = vec![true, true, true, true, true, true, true, true, true, true, true, true, true, true];
        proof {
            assert(kinds@ =~= Self::kinds());
        }
        let v = match decode_fields(b, &kinds) {
            Ok(v) => v,
            Err(e) => return Err(e),
        };
        let ghost kinds = Self::kinds();
        let G_w = point_field(&v, 0, Ghost(b@), Ghost(kinds));
        let G_wprime = point_field(&v, 1, Ghost(b@), Ghost(kinds));
        let G_x0 = point_field(&v, 2, Ghost(b@), Ghost(kinds));
        let G_x1 = point_field(&v, 3, Ghost(b@), Ghost(kinds));
        let G_y1 = point_field(&v, 4, Ghost(b@), Ghost(kinds));
        let G_y2 = point_field(&v, 5, Ghost(b@), Ghost(kinds));
        let G_y3 = point_field(&v, 6, Ghost(b@), Ghost(kinds));
        let G_y4 = point_field(&v, 7, Ghost(b@), Ghost(kinds));
        let G_m1 = point_field(&v, 8, Ghost(b@), Ghost(kinds));
        let G_m2 = point_field(&v, 9, Ghost(b@), Ghost(kinds));
        let G_m3 = point_field(&v, 10, Ghost(b@), Ghost(kinds));
        let G_m4 = point_field(&v, 11, Ghost(b@), Ghost(kinds));
        let G_V = point_field(&v, 12, Ghost(b@), Ghost(kinds));
        let G_z = point_field(&v, 13, Ghost(b@), Ghost(kinds));
        let x = SystemParams { G_w, G_wprime, G_x0, G_x1, G_y1, G_y2, G_y3, G_y4, G_m1, G_m2, G_m3, G_m4, G_V, G_z };
        proof {
            assert(x.fields() =~= split_fields(b@, 14));
        }
        Ok(x)
    }
}

/// Decoding the encoding of a well-formed the system parameters succeeds and gives back that same value.
pub proof fn lemma_system_params_round_trip(x: SystemParams)
    requires
        x.wf(),
    ensures
        fields_valid(x.encoding(), SystemParams::kinds()),
        forall|y: SystemParams| #[trigger] y.fields() == split_fields(x.encoding(), 14) ==> y == x,
{
    lemma_point_view_len(x.G_w);
    lemma_point_view_len(x.G_wprime);
    lemma_point_view_len(x.G_x0);
    lemma_point_view_len(x.G_x1);
    lemma_point_view_len(x.G_y1);
    lemma_point_view_len(x.G_y2);
    lemma_point_view_len(x.G_y3);
    lemma_point_view_len(x.G_y4);
    lemma_point_view_len(x.G_m1);
    lemma_point_view_len(x.G_m2);
    lemma_point_view_len(x.G_m3);
    lemma_point_view_len(x.G_m4);
    lemma_point_view_len(x.G_V);
    lemma_point_view_len(x.G_z);
    let fs = x.fields();
    assert forall|i: int| 0 <= i < 14 implies (#[trigger] fs[i]).len() == 32 by {
        if i == 0 {} else if i == 1 {} else if i == 2 {} else if i == 3 {} else if i == 4 {} else if i == 5 {} else if i == 6 {} else if i == 7 {} else if i == 8 {} else if i == 9 {} else if i == 10 {} else if i == 11 {} else if i == 12 {} else if i == 13 {}
    }
    lemma_concat_split(fs);
    assert forall|i: int| 0 <= i < 14 implies #[trigger] field_valid(field_at(x.encoding(), i), SystemParams::kinds()[i]) by {
        assert(field_at(x.encoding(), i) == fs[i]);
        if i == 0 {} else if i == 1 {} else if i == 2 {} else if i == 3 {} else if i == 4 {} else if i == 5 {} else if i == 6 {} else if i == 7 {} else if i == 8 {} else if i == 9 {} else if i == 10 {} else if i == 11 {} else if i == 12 {} else if i == 13 {}
    }
    assert forall|y: SystemParams| #[trigger] y.fields() == split_fields(x.encoding(), 14) implies y == x by {
        assert(y.fields() == fs);
        assert(y.fields()[0] == fs[0]);
        lemma_point_view_injective(y.G_w, x.G_w);
        assert(y.fields()[1] == fs[1]);
        lemma_point_view_injective(y.G_wprime, x.G_wprime);
        assert(y.fields()[2] == fs[2]);
        lemma_point_view_injective(y.G_x0, x.G_x0);
        assert(y.fields()[3] == fs[3]);
        lemma_point_view_injective(y.G_x1, x.G_x1);
        assert(y.fields()[4] == fs[4]);
        lemma_point_view_injective(y.G_y1, x.G_y1);
        assert(y.fields()[5] == fs[5]);
        lemma_point_view_injective(y.G_y2, x.G_y2);
        assert(y.fields()[6] == fs[6]);
        lemma_point_view_injective(y.G_y3, x.G_y3);
        assert(y.fields()[7] == fs[7]);
        lemma_point_view_injective(y.G_y4, x.G_y4);
        assert(y.fields()[8] == fs[8]);
        lemma_point_view_injective(y.G_m1, x.G_m1);
        assert(y.fields()[9] == fs[9]);
        lemma_point_view_injective(y.G_m2, x.G_m2);
        assert(y.fields()[10] == fs[10]);
        lemma_point_view_injective(y.G_m3, x.G_m3);
        assert(y.fields()[11] == fs[11]);
        lemma_point_view_injective(y.G_m4, x.G_m4);
        assert(y.fields()[12] == fs[12]);
        lemma_point_view_injective(y.G_V, x.G_V);
        assert(y.fields()[13] == fs[13]);
        lemma_point_view_injective(y.G_z, x.G_z);
    }
}

} // verus!
