//! The credential structures handed out by issuance, and the requester's
//! inputs to blind issuance.
use crate::encoding::{
    array_views, concat_fields, decode_fields, encode_fields, field_at, field_valid,
    fields_valid, lemma_concat_split, point_field, scalar_field, split_fields,
};
use crate::error::CredentialError;
use crate::group::{
    lemma_point_view_injective, lemma_point_view_len, lemma_scalar_view_injective,
    lemma_scalar_view_len, Point, Scalar,
};
use vstd::prelude::*;

verus! {

/// The two attribute points that stand for a principal's identifier.
#[derive(Clone, Copy, PartialEq, Eq, Debug)]
pub struct UidStruct {
    pub M1: Point,
    pub M2: Point,
}

/// The requester's public key `Y` for blind issuance.
#[derive(Clone, Copy, PartialEq, Eq, Debug)]
pub struct RequestPublicKey {
    pub Y: Point,
}

/// The two-part ciphertext, under the requester's key, of the hidden attribute.
#[derive(Clone, Copy, PartialEq, Eq, Debug)]
pub struct RequestCiphertext {
    pub D1: Point,
    pub E1: Point,
    pub D2: Point,
    pub E2: Point,
}

/// A MAC over an identifier and a validity window.
#[derive(Clone, Copy, PartialEq, Eq, Debug)]
pub struct AuthCredential {
    pub t: Scalar,
    pub U: Point,
    pub V: Point,
}

/// A MAC over an identifier and a profile key commitment.
#[derive(Clone, Copy, PartialEq, Eq, Debug)]
pub struct ProfileKeyCredential {
    pub t: Scalar,
    pub U: Point,
    pub V: Point,
}

/// The issuer's result of blind issuance, still holding the blinding nonce.
#[derive(Clone, Copy, PartialEq, Eq, Debug)]
pub struct BlindedProfileKeyCredentialWithSecretNonce {
    pub rprime: Scalar,
    pub t: Scalar,
    pub U: Point,
    pub S1: Point,
    pub S2: Point,
}

/// The form of a blindly issued credential that is sent to the requester.
#[derive(Clone, Copy, PartialEq, Eq, Debug)]
pub struct BlindedProfileKeyCredential {
    pub t: Scalar,
    pub U: Point,
    pub S1: Point,
    pub S2: Point,
}

impl UidStruct {
    /// Both points are group elements.
    pub open spec fn wf(&self) -> bool {
        self.M1.wf() && self.M2.wf()
    }
}

impl RequestPublicKey {
    /// The key is a group element.
    pub open spec fn wf(&self) -> bool {
        self.Y.wf()
    }
}

impl RequestCiphertext {
    /// All four components are group elements.
    pub open spec fn wf(&self) -> bool {
        self.D1.wf() && self.E1.wf() && self.D2.wf() && self.E2.wf()
    }
}

impl BlindedProfileKeyCredentialWithSecretNonce {
    /// Drops the blinding nonce, giving what may be sent to the requester.
    pub fn get_blinded_profile_key_credential(&self) -> (r: BlindedProfileKeyCredential)
        ensures
            r.t == self.t,
            r.U == self.U,
            r.S1 == self.S1,
            r.S2 == self.S2,
    {
        BlindedProfileKeyCredential { t: self.t, U: self.U, S1: self.S1, S2: self.S2 }
    }
}

impl AuthCredential {
    /// Every field holds a canonical encoding.
    pub open spec fn wf(&self) -> bool {
        &&& self.t.wf()
        &&& self.U.wf()
        &&& self.V.wf()
    }

    /// The encodings of the fields, in declared order.
    pub open spec fn fields(&self) -> Seq<Seq<u8>> {
        seq![self.t@, self.U@, self.V@]
    }

    /// The kind of each field in declared order: `true` for a point, `false` for a scalar.
    pub open spec fn kinds() -> Seq<bool> {
        seq![false, true, true]
    }

    /// The wire encoding: the fields' encodings end to end, 96 bytes.
    pub open spec fn encoding(&self) -> Seq<u8> {
        concat_fields(self.fields())
    }

    /// Encodes an auth credential.
    pub fn to_bytes(&self) -> (r: Vec<u8>)
        ensures
            r@ == self.encoding(),
    {
        let fs: Vec<[u8; 32]> = vec![
            self.t.to_bytes(),
            self.U.to_bytes(),
            self.V.to_bytes(),
        ];
        proof {
            assert(array_views(fs@) =~= self.fields());
        }
        encode_fields(&fs)
    }

    /// Decodes an auth credential, refusing bytes of another length or a field that
    /// is not a canonical encoding.
    pub fn from_bytes(b: &[u8]) -> (r: Result<AuthCredential, CredentialError>)
        ensures
            r is Ok <==> fields_valid(b@, Self::kinds()),
            r matches Ok(x) ==> x.wf() && x.fields() == split_fields(b@, 3),
            r matches Err(e) ==> e == CredentialError::MalformedEncoding,
    {
        let kinds: Vec<bool> = vec![false, true, true];
        proof {
            assert(kinds@ =~= Self::kinds());
        }
        let v = match decode_fields(b, &kinds) {
            Ok(v) => v,
            Err(e) => return Err(e),
        };
        let ghost kinds = Self::kinds();
        let t = scalar_field(&v, 0, Ghost(b@), Ghost(kinds));
        let U = point_field(&v, 1, Ghost(b@), Ghost(kinds));
        let V = point_field(&v, 2, Ghost(b@), Ghost(kinds));
        let x = AuthCredential { t, U, V };
        proof {
            assert(x.fields() =~= split_fields(b@, 3));
        }
        Ok(x)
    }
}

/// Decoding the encoding of a well-formed auth credential succeeds and gives back that same value.
pub proof fn lemma_auth_credential_round_trip(x: AuthCredential)
    requires
        x.wf(),
    ensures
        fields_valid(x.encoding(), AuthCredential::kinds()),
        forall|y: AuthCredential| #[trigger] y.fields() == split_fields(x.encoding(), 3) ==> y == x,
{
    lemma_scalar_view_len(x.t);
    lemma_point_view_len(x.U);
    lemma_point_view_len(x.V);
    let fs = x.fields();
    assert forall|i: int| 0 <= i < 3 implies (#[trigger] fs[i]).len() == 32 by {
        if i == 0 {} else if i == 1 {} else if i == 2 {}
    }
    lemma_concat_split(fs);
    assert forall|i: int| 0 <= i < 3 implies #[trigger] field_valid(field_at(x.encoding(), i), AuthCredential::kinds()[i]) by {
        assert(field_at(x.encoding(), i) == fs[i]);
        if i == 0 {} else if i == 1 {} else if i == 2 {}
    }
    assert forall|y: AuthCredential| #[trigger] y.fields() == split_fields(x.encoding(), 3) implies y == x by {
        assert(y.fields() == fs);
        assert(y.fields()[0] == fs[0]);
        lemma_scalar_view_injective(y.t, x.t);
        assert(y.fields()[1] == fs[1]);
        lemma_point_view_injective(y.U, x.U);
        assert(y.fields()[2] == fs[2]);
        lemma_point_view_injective(y.V, x.V);
    }
}

impl ProfileKeyCredential {
    /// Every field holds a canonical encoding.
    pub open spec fn wf(&self) -> bool {
        &&& self.t.wf()
        &&& self.U.wf()
        &&& self.V.wf()
    }

    /// The encodings of the fields, in declared order.
    pub open spec fn fields(&self) -> Seq<Seq<u8>> {
        seq![self.t@, self.U@, self.V@]
    }

    /// The kind of each field in declared order: `true` for a point, `false` for a scalar.
    pub open spec fn kinds() -> Seq<bool> {
        seq![false, true, true]
    }

    /// The wire encoding: the fields' encodings end to end, 96 bytes.
    pub open spec fn encoding(&self) -> Seq<u8> {
        concat_fields(self.fields())
    }

    /// Encodes a profile key credential.
    pub fn to_bytes(&self) -> (r: Vec<u8>)
        ensures
            r@ == self.encoding(),
    {
        let fs: Vec<[u8; 32]> = vec![
            self.t.to_bytes(),
            self.U.to_bytes(),
            self.V.to_bytes(),
        ];
        proof {
            assert(array_views(fs@) =~= self.fields());
        }
        encode_fields(&fs)
    }

    /// Decodes a profile key credential, refusing bytes of another length or a field that
    /// is not a canonical encoding.
    pub fn from_bytes(b: &[u8]) -> (r: Result<ProfileKeyCredential, CredentialError>)
        ensures
            r is Ok <==> fields_valid(b@, Self::kinds()),
            r matches Ok(x) ==> x.wf() && x.fields() == split_fields(b@, 3),
            r matches Err(e) ==> e == CredentialError::MalformedEncoding,
    {
        let kinds: Vec<bool> = vec![false, true, true];
        proof {
            assert(kinds@ =~= Self::kinds());
        }
        let v = match decode_fields(b, &kinds) {
            Ok(v) => v,
            Err(e) => return Err(e),
        };
        let ghost kinds = Self::kinds();
        let t = scalar_field(&v, 0, Ghost(b@), Ghost(kinds));
        let U = point_field(&v, 1, Ghost(b@), Ghost(kinds));
        let V = point_field(&v, 2, Ghost(b@), Ghost(kinds));
        let x = ProfileKeyCredential { t, U, V };
        proof {
            assert(x.fields() =~= split_fields(b@, 3));
        }
        Ok(x)
    }
}

/// Decoding the encoding of a well-formed profile key credential succeeds and gives back that same value.
pub proof fn lemma_profile_key_credential_round_trip(x: ProfileKeyCredential)
    requires
        x.wf(),
    ensures
        fields_valid(x.encoding(), ProfileKeyCredential::kinds()),
        forall|y: ProfileKeyCredential| #[trigger] y.fields() == split_fields(x.encoding(), 3) ==> y == x,
{
    lemma_scalar_view_len(x.t);
    lemma_point_view_len(x.U);
    lemma_point_view_len(x.V);
    let fs = x.fields();
    assert forall|i: int| 0 <= i < 3 implies (#[trigger] fs[i]).len() == 32 by {
        if i == 0 {} else if i == 1 {} else if i == 2 {}
    }
    lemma_concat_split(fs);
    assert forall|i: int| 0 <= i < 3 implies #[trigger] field_valid(field_at(x.encoding(), i), ProfileKeyCredential::kinds()[i]) by {
        assert(field_at(x.encoding(), i) == fs[i]);
        if i == 0 {} else if i == 1 {} else if i == 2 {}
    }
    assert forall|y: ProfileKeyCredential| #[trigger] y.fields() == split_fields(x.encoding(), 3) implies y == x by {
        assert(y.fields() == fs);
        assert(y.fields()[0] == fs[0]);
        lemma_scalar_view_injective(y.t, x.t);
        assert(y.fields()[1] == fs[1]);
        lemma_point_view_injective(y.U, x.U);
        assert(y.fields()[2] == fs[2]);
        lemma_point_view_injective(y.V, x.V);
    }
}

impl BlindedProfileKeyCredentialWithSecretNonce {
    /// Every field holds a canonical encoding.
    pub open spec fn wf(&self) -> bool {
        &&& self.rprime.wf()
        &&& self.t.wf()
        &&& self.U.wf()
        &&& self.S1.wf()
        &&& self.S2.wf()
    }

    /// The encodings of the fields, in declared order.
    pub open spec fn fields(&self) -> Seq<Seq<u8>> {
        seq![self.rprime@, self.t@, self.U@, self.S1@, self.S2@]
    }

    /// The kind of each field in declared order: `true` for a point, `false` for a scalar.
    pub open spec fn kinds() -> Seq<bool> {
        seq![false, false, true, true, true]
    }

    /// The wire encoding: the fields' encodings end to end, 160 bytes.
    pub open spec fn encoding(&self) -> Seq<u8> {
        concat_fields(self.fields())
    }

    /// Encodes a blinded credential with its nonce.
    pub fn to_bytes(&self) -> (r: Vec<u8>)
        ensures
            r@ == self.encoding(),
    {
        let fs: Vec<[u8; 32]> = vec![
            self.rprime.to_bytes(),
            self.t.to_bytes(),
            self.U.to_bytes(),
            self.S1.to_bytes(),
            self.S2.to_bytes(),
        ];
        proof {
            assert(array_views(fs@) =~= self.fields());
        }
        encode_fields(&fs)
    }

    /// Decodes a blinded credential with its nonce, refusing bytes of another length or a field that
    /// is not a canonical encoding.
    pub fn from_bytes(b: &[u8]) -> (r: Result<BlindedProfileKeyCredentialWithSecretNonce, CredentialError>)
        ensures
            r is Ok <==> fields_valid(b@, Self::kinds()),
            r matches Ok(x) ==> x.wf() && x.fields() == split_fields(b@, 5),
            r matches Err(e) ==> e == CredentialError::MalformedEncoding,
    {
        let kinds: Vec<bool> = vec![false, false, true, true, true];
        proof {
            assert(kinds@ =~= Self::kinds());
        }
        let v = match decode_fields(b, &kinds) {
            Ok(v) => v,
            Err(e) => return Err(e),
        };
        let ghost kinds = Self::kinds();
        let rprime = scalar_field(&v, 0, Ghost(b@), Ghost(kinds));
        let t = scalar_field(&v, 1, Ghost(b@), Ghost(kinds));
        let U = point_field(&v, 2, Ghost(b@), Ghost(kinds));
        let S1 = point_field(&v, 3, Ghost(b@), Ghost(kinds));
        let S2 = point_field(&v, 4, Ghost(b@), Ghost(kinds));
        let x = BlindedProfileKeyCredentialWithSecretNonce { rprime, t, U, S1, S2 };
        proof {
            assert(x.fields() =~= split_fields(b@, 5));
        }
        Ok(x)
    }
}

/// Decoding the encoding of a well-formed blinded credential with its nonce succeeds and gives back that same value.
pub proof fn lemma_blinded_with_nonce_round_trip(x: BlindedProfileKeyCredentialWithSecretNonce)
    requires
        x.wf(),
    ensures
        fields_valid(x.encoding(), BlindedProfileKeyCredentialWithSecretNonce::kinds()),
        forall|y: BlindedProfileKeyCredentialWithSecretNonce| #[trigger] y.fields() == split_fields(x.encoding(), 5) ==> y == x,
{
    lemma_scalar_view_len(x.rprime);
    lemma_scalar_view_len(x.t);
    lemma_point_view_len(x.U);
    lemma_point_view_len(x.S1);
    lemma_point_view_len(x.S2);
    let fs = x.fields();
    assert forall|i: int| 0 <= i < 5 implies (#[trigger] fs[i]).len() == 32 by {
        if i == 0 {} else if i == 1 {} else if i == 2 {} else if i == 3 {} else if i == 4 {}
    }
    lemma_concat_split(fs);
    assert forall|i: int| 0 <= i < 5 implies #[trigger] field_valid(field_at(x.encoding(), i), BlindedProfileKeyCredentialWithSecretNonce::kinds()[i]) by {
        assert(field_at(x.encoding(), i) == fs[i]);
        if i == 0 {} else if i == 1 {} else if i == 2 {} else if i == 3 {} else if i == 4 {}
    }
    assert forall|y: BlindedProfileKeyCredentialWithSecretNonce| #[trigger] y.fields() == split_fields(x.encoding(), 5) implies y == x by {
        assert(y.fields() == fs);
        assert(y.fields()[0] == fs[0]);
        lemma_scalar_view_injective(y.rprime, x.rprime);
        assert(y.fields()[1] == fs[1]);
        lemma_scalar_view_injective(y.t, x.t);
        assert(y.fields()[2] == fs[2]);
        lemma_point_view_injective(y.U, x.U);
        assert(y.fields()[3] == fs[3]);
        lemma_point_view_injective(y.S1, x.S1);
        assert(y.fields()[4] == fs[4]);
        lemma_point_view_injective(y.S2, x.S2);
    }
}

impl BlindedProfileKeyCredential {
    /// Every field holds a canonical encoding.
    pub open spec fn wf(&self) -> bool {
        &&& self.t.wf()
        &&& self.U.wf()
        &&& self.S1.wf()
        &&& self.S2.wf()
    }

    /// The encodings of the fields, in declared order.
    pub open spec fn fields(&self) -> Seq<Seq<u8>> {
        seq![self.t@, self.U@, self.S1@, self.S2@]
    }

    /// The kind of each field in declared order: `true` for a point, `false` for a scalar.
    pub open spec fn kinds() -> Seq<bool> {
        seq![false, true, true, true]
    }

    /// The wire encoding: the fields' encodings end to end, 128 bytes.
    pub open spec fn encoding(&self) -> Seq<u8> {
        concat_fields(self.fields())
    }

    /// Encodes a blinded credential.
    pub fn to_bytes(&self) -> (r: Vec<u8>)
        ensures
            r@ == self.encoding(),
    {
        let fs: Vec<[u8; 32]> = vec![
            self.t.to_bytes(),
            self.U.to_bytes(),
            self.S1.to_bytes(),
            self.S2.to_bytes(),
        ];
        proof {
            assert(array_views(fs@) =~= self.fields());
        }
        encode_fields(&fs)
    }

    /// Decodes a blinded credential, refusing bytes of another length or a field that
    /// is not a canonical encoding.
    pub fn from_bytes(b: &[u8]) -> (r: Result<BlindedProfileKeyCredential, CredentialError>)
        ensures
            r is Ok <==> fields_valid(b@, Self::kinds()),
            r matches Ok(x) ==> x.wf() && x.fields() == split_fields(b@, 4),
            r matches Err(e) ==> e == CredentialError::MalformedEncoding,
    {
        let kinds: Vec<bool> = vec![false, true, true, true];
        proof {
            assert(kinds@ =~= Self::kinds());
        }
        let v = match decode_fields(b, &kinds) {
            Ok(v) => v,
            Err(e) => return Err(e),
        };
        let ghost kinds = Self::kinds();
        let t = scalar_field(&v, 0, Ghost(b@), Ghost(kinds));
        let U = point_field(&v, 1, Ghost(b@), Ghost(kinds));
        let S1 = point_field(&v, 2, Ghost(b@), Ghost(kinds));
        let S2 = point_field(&v, 3, Ghost(b@), Ghost(kinds));
        let x = BlindedProfileKeyCredential { t, U, S1, S2 };
        proof {
            assert(x.fields() =~= split_fields(b@, 4));
        }
        Ok(x)
    }
}

/// Decoding the encoding of a well-formed blinded credential succeeds and gives back that same value.
pub proof fn lemma_blinded_credential_round_trip(x: BlindedProfileKeyCredential)
    requires
        x.wf(),
    ensures
        fields_valid(x.encoding(), BlindedProfileKeyCredential::kinds()),
        forall|y: BlindedProfileKeyCredential| #[trigger] y.fields() == split_fields(x.encoding(), 4) ==> y == x,
{
    lemma_scalar_view_len(x.t);
    lemma_point_view_len(x.U);
    lemma_point_view_len(x.S1);
    lemma_point_view_len(x.S2);
    let fs = x.fields();
    assert forall|i: int| 0 <= i < 4 implies (#[trigger] fs[i]).len() == 32 by {
        if i == 0 {} else if i == 1 {} else if i == 2 {} else if i == 3 {}
    }
    lemma_concat_split(fs);
    assert forall|i: int| 0 <= i < 4 implies #[trigger] field_valid(field_at(x.encoding(), i), BlindedProfileKeyCredential::kinds()[i]) by {
        assert(field_at(x.encoding(), i) == fs[i]);
        if i == 0 {} else if i == 1 {} else if i == 2 {} else if i == 3 {}
    }
    assert forall|y: BlindedProfileKeyCredential| #[trigger] y.fields() == split_fields(x.encoding(), 4) implies y == x by {
        assert(y.fields() == fs);
        assert(y.fields()[0] == fs[0]);
        lemma_scalar_view_injective(y.t, x.t);
        assert(y.fields()[1] == fs[1]);
        lemma_point_view_injective(y.U, x.U);
        assert(y.fields()[2] == fs[2]);
        lemma_point_view_injective(y.S1, x.S1);
        assert(y.fields()[3] == fs[3]);
        lemma_point_view_injective(y.S2, x.S2);
    }
}

} // verus!
