//! The issuer's key pair, the algebraic MAC shared by every credential, and
//! direct and blind issuance.
use crate::credentials::{
    AuthCredential, BlindedProfileKeyCredentialWithSecretNonce, RequestCiphertext,
    RequestPublicKey, UidStruct,
};
use crate::encoding::{
    array_views, concat_fields, decode_fields, encode_fields, field_at, field_valid,
    fields_valid, lemma_concat_split, point_field, scalar_field, split_fields,
};
use crate::error::CredentialError;
use crate::group::{
    base_mul, base_multiple, group_order, lemma_point_view_injective, lemma_point_view_len,
    lemma_scalar_view_injective, lemma_scalar_view_len, point_add, point_difference, point_mul,
    point_multiple, point_sub, point_sum, Point, Scalar,
};
use crate::params::{array_views_points, hardcoded_generators, hardcoded_valid, SystemParams};
use vstd::arithmetic::div_mod::{lemma_add_mod_noop_right, lemma_small_mod};
use vstd::prelude::*;

verus! {

/// The issuer's secret scalars with the points derived from them.
#[derive(Clone, Copy, PartialEq, Eq, Debug)]
pub struct KeyPair {
    pub w: Scalar,
    pub wprime: Scalar,
    pub W: Point,
    pub x0: Scalar,
    pub x1: Scalar,
    pub y1: Scalar,
    pub y2: Scalar,
    pub y3: Scalar,
    pub y4: Scalar,
    pub C_W: Point,
    pub I: Point,
}

/// What a verifier knows of the issuer.
#[derive(Clone, Copy, PartialEq, Eq, Debug)]
pub struct PublicKey {
    pub C_W: Point,
    pub I: Point,
}

/// The term `(x0 + x1·t)·U` of the MAC.
pub open spec fn x_term(kp: KeyPair, t: nat, u: Seq<u8>) -> Seq<u8> {
    point_multiple((kp.x0.value() + kp.x1.value() * t) % group_order(), u)
}

/// The secret scalar `y(i+1)` that weighs the attribute at index `i`.
pub open spec fn y_value(kp: KeyPair, i: int) -> nat {
    if i == 0 {
        kp.y1.value()
    } else if i == 1 {
        kp.y2.value()
    } else if i == 2 {
        kp.y3.value()
    } else {
        kp.y4.value()
    }
}

/// The term `y(i+1)·M[i]` of the MAC.
pub open spec fn attribute_term(kp: KeyPair, ms: Seq<Seq<u8>>, i: int) -> Seq<u8> {
    point_multiple(y_value(kp, i), ms[i])
}

/// `W + (x0 + x1·t)·U + y1·M[0] + ... + yn·M[n-1]`, added from left to right.
pub open spec fn mac_prefix(kp: KeyPair, ms: Seq<Seq<u8>>, t: nat, u: Seq<u8>, n: nat) -> Seq<u8>
    decreases n,
{
    if n == 0 {
        point_sum(kp.W@, x_term(kp, t, u))
    } else {
        point_sum(mac_prefix(kp, ms, t, u, (n - 1) as nat), attribute_term(kp, ms, n - 1))
    }
}

/// The MAC value `V` over all the attribute points `ms`.
pub open spec fn mac_value(kp: KeyPair, ms: Seq<Seq<u8>>, t: nat, u: Seq<u8>) -> Seq<u8> {
    mac_prefix(kp, ms, t, u, ms.len())
}

/// `v` less the first `n` attribute terms, the last one subtracted first.
pub open spec fn strip_attributes(kp: KeyPair, ms: Seq<Seq<u8>>, v: Seq<u8>, n: nat) -> Seq<u8>
    decreases n,
{
    if n == 0 {
        v
    } else {
        strip_attributes(
            kp,
            ms,
            point_difference(v, attribute_term(kp, ms, n - 1)),
            (n - 1) as nat,
        )
    }
}

/// `I = G_V - x0·G_x0 - x1·G_x1 - y1·G_y1 - y2·G_y2 - y3·G_y3`, less
/// `y4·G_y4` in the four-attribute mode, over the generators `gens` in
/// declared order.
pub open spec fn issuer_i(kp: KeyPair, gens: Seq<Seq<u8>>, four: bool) -> Seq<u8> {
    let i3 = point_difference(
        point_difference(
            point_difference(
                point_difference(
                    point_difference(gens[12], point_multiple(kp.x0.value(), gens[2])),
                    point_multiple(kp.x1.value(), gens[3]),
                ),
                point_multiple(kp.y1.value(), gens[4]),
            ),
            point_multiple(kp.y2.value(), gens[5]),
        ),
        point_multiple(kp.y3.value(), gens[6]),
    );
    if four {
        point_difference(i3, point_multiple(kp.y4.value(), gens[7]))
    } else {
        i3
    }
}

/// The derived points of `kp` are those that its scalars give over the
/// generators `gens`, for the given attribute count.
pub open spec fn derived_from(kp: KeyPair, gens: Seq<Seq<u8>>, num_attributes: usize) -> bool {
    &&& kp.W@ == point_multiple(kp.w.value(), gens[0])
    &&& kp.C_W@ == point_sum(
        point_multiple(kp.w.value(), gens[0]),
        point_multiple(kp.wprime.value(), gens[1]),
    )
    &&& kp.I@ == issuer_i(kp, gens, num_attributes == 4)
}

/// `S1 = rprime·B + y3·D1 + y4·E1`, with `B` the base point.
pub open spec fn blinded_s1(kp: KeyPair, rprime: nat, c: RequestCiphertext) -> Seq<u8> {
    point_sum(
        point_sum(base_multiple(rprime), point_multiple(kp.y3.value(), c.D1@)),
        point_multiple(kp.y4.value(), c.E1@),
    )
}

/// `S2 = rprime·Y + V' + y3·D2 + y4·E2`.
pub open spec fn blinded_s2(
    kp: KeyPair,
    rprime: nat,
    y: Seq<u8>,
    vprime: Seq<u8>,
    c: RequestCiphertext,
) -> Seq<u8> {
    point_sum(
        point_sum(
            point_sum(point_multiple(rprime, y), vprime),
            point_multiple(kp.y3.value(), c.D2@),
        ),
        point_multiple(kp.y4.value(), c.E2@),
    )
}

/// The attribute points of an auth credential: the identifier's two points
/// and the encoded validity window times `G_m3`.
pub open spec fn auth_attributes(uid: UidStruct, redemption_time: nat, gens: Seq<Seq<u8>>) -> Seq<
    Seq<u8>,
> {
    seq![uid.M1@, uid.M2@, point_multiple(redemption_time, gens[10])]
}

/// The attribute points of an auth credential, with `G_m3` taken from the
/// embedded system parameters.
fn convert_to_points_uid_struct(uid: &UidStruct, redemption_time: &Scalar) -> (r: Result<
    Vec<Point>,
    CredentialError,
>)
    requires
        uid.wf(),
        redemption_time.wf(),
    ensures
        r is Ok <==> hardcoded_valid(),
        r matches Err(e) ==> e == CredentialError::ParameterMismatch,
        r matches Ok(m) ==> {
            &&& m@.len() == 3
            &&& forall|i: int| 0 <= i < 3 ==> (#[trigger] m@[i]).wf()
            &&& array_views_points(m@) == auth_attributes(
                *uid,
                redemption_time.value(),
                hardcoded_generators(),
            )
        },
{
    let system = match SystemParams::get_hardcoded() {
        Ok(p) => p,
        Err(e) => return Err(e),
    };
    proof {
        assert(system.fields()[10] == hardcoded_generators()[10]);
    }
    let m3 = point_mul(redemption_time, &system.G_m3);
    let m: Vec<Point> = vec![uid.M1, uid.M2, m3];
    proof {
        assert(array_views_points(m@) =~= auth_attributes(
            *uid,
            redemption_time.value(),
            hardcoded_generators(),
        ));
    }
    Ok(m)
}

/// Taking the attribute terms off the prefix sums one at a time, last
/// first, leaves the first partial sum.
proof fn lemma_strip_prefix(kp: KeyPair, ms: Seq<Seq<u8>>, t: nat, u: Seq<u8>, n: nat)
    requires
        forall|k: nat|
            k < n ==> point_difference(
                #[trigger] mac_prefix(kp, ms, t, u, k + 1),
                attribute_term(kp, ms, k as int),
            ) == mac_prefix(kp, ms, t, u, k),
    ensures
        strip_attributes(kp, ms, mac_prefix(kp, ms, t, u, n), n) == mac_prefix(kp, ms, t, u, 0),
    decreases n,
{
    if n > 0 {
        let k = (n - 1) as nat;
        assert(point_difference(mac_prefix(kp, ms, t, u, k + 1), attribute_term(kp, ms, k as int))
            == mac_prefix(kp, ms, t, u, k));
        lemma_strip_prefix(kp, ms, t, u, k);
    }
}

impl KeyPair {
    /// Derives a key pair from the eight secret scalars drawn in the order
    /// `w, wprime, x0, x1, y1, y2, y3, y4`, for three or four attributes.
    pub fn generate(draws: [Scalar; 8], num_attributes: usize) -> (r: Result<KeyPair, CredentialError>)
        requires
            forall|i: int| 0 <= i < 8 ==> (#[trigger] draws[i]).wf(),
        ensures
            !(3 <= num_attributes <= 4) ==> r == Err::<KeyPair, CredentialError>(
                CredentialError::InvalidAttributeMode,
            ),
            3 <= num_attributes <= 4 && !hardcoded_valid() ==> r == Err::<KeyPair, CredentialError>(
                CredentialError::ParameterMismatch,
            ),
            3 <= num_attributes <= 4 && hardcoded_valid() ==> r is Ok,
            r matches Ok(kp) ==> {
                &&& kp.wf()
                &&& kp.w == draws[0]
                &&& kp.wprime == draws[1]
                &&& kp.x0 == draws[2]
                &&& kp.x1 == draws[3]
                &&& kp.y1 == draws[4]
                &&& kp.y2 == draws[5]
                &&& kp.y3 == draws[6]
                &&& kp.y4 == draws[7]
                &&& derived_from(kp, hardcoded_generators(), num_attributes)
            },
    {
        if num_attributes < 3 || num_attributes > 4 {
            return Err(CredentialError::InvalidAttributeMode);
        }
        let system = match SystemParams::get_hardcoded() {
            Ok(p) => p,
            Err(e) => return Err(e),
        };
        proof {
            assert(draws[0].wf() && draws[1].wf() && draws[2].wf() && draws[3].wf());
            assert(draws[4].wf() && draws[5].wf() && draws[6].wf() && draws[7].wf());
        }
        let w = draws[0];
        let W = point_mul(&w, &system.G_w);
        let wprime = draws[1];
        let x0 = draws[2];
        let x1 = draws[3];
        let y1 = draws[4];
        let y2 = draws[5];
        let y3 = draws[6];
        let y4 = draws[7];

        let C_W = point_add(&W, &point_mul(&wprime, &system.G_wprime));
        let mut I = point_sub(&system.G_V, &point_mul(&x0, &system.G_x0));
        I = point_sub(&I, &point_mul(&x1, &system.G_x1));
        I = point_sub(&I, &point_mul(&y1, &system.G_y1));
        I = point_sub(&I, &point_mul(&y2, &system.G_y2));
        I = point_sub(&I, &point_mul(&y3, &system.G_y3));
        if num_attributes > 3 {
            I = point_sub(&I, &point_mul(&y4, &system.G_y4));
        }
        let kp = KeyPair { w, wprime, W, x0, x1, y1, y2, y3, y4, C_W, I };
        proof {
            let gens = hardcoded_generators();
            assert(system.fields()[0] == gens[0]);
            assert(system.fields()[1] == gens[1]);
            assert(system.fields()[2] == gens[2]);
            assert(system.fields()[3] == gens[3]);
            assert(system.fields()[4] == gens[4]);
            assert(system.fields()[5] == gens[5]);
            assert(system.fields()[6] == gens[6]);
            assert(system.fields()[7] == gens[7]);
            assert(system.fields()[12] == gens[12]);
        }
        Ok(kp)
    }

    /// The public part of the key: `C_W` and `I`.
    pub fn get_public_key(&self) -> (r: PublicKey)
        ensures
            r.C_W == self.C_W,
            r.I == self.I,
    {
        PublicKey { C_W: self.C_W, I: self.I }
    }

    /// The MAC over two to four attribute points, with `t` and `U` drawn
    /// fresh for this credential.
    fn mac_core(&self, M: &Vec<Point>, t: &Scalar, U: &Point) -> (V: Point)
        requires
            self.wf(),
            2 <= M@.len() <= 4,
            forall|i: int| 0 <= i < M@.len() ==> (#[trigger] M@[i]).wf(),
            t.wf(),
            U.wf(),
        ensures
            V.wf(),
            V@ == mac_value(*self, array_views_points(M@), t.value(), U@),
            point_difference(
                strip_attributes(*self, array_views_points(M@), V@, M@.len()),
                x_term(*self, t.value(), U@),
            ) == self.W@,
    {
        let ghost ms = array_views_points(M@);
        let ghost kp = *self;
        let ghost tv = t.value();
        let xt = self.x0.add(&self.x1.mul(t));
        proof {
            lemma_add_mod_noop_right(self.x0.value() as int, (self.x1.value() * tv) as int, group_order() as int);
        }
        assert(xt.value() == (self.x0.value() + self.x1.value() * tv) % group_order());
        let mut V = point_add(&self.W, &point_mul(&xt, U));
        assert(V@ == mac_prefix(kp, ms, tv, U@, 0));
        proof {
            assert(M@[0].wf() && M@[1].wf());
            assert(ms[0] == M@[0]@ && ms[1] == M@[1]@);
        }
        V = point_add(&V, &point_mul(&self.y1, &M[0]));
        assert(V@ == mac_prefix(kp, ms, tv, U@, 1));
        V = point_add(&V, &point_mul(&self.y2, &M[1]));
        assert(V@ == mac_prefix(kp, ms, tv, U@, 2));
        if M.len() > 2 {
            proof {
                assert(M@[2].wf());
                assert(ms[2] == M@[2]@);
            }
            V = point_add(&V, &point_mul(&self.y3, &M[2]));
            assert(V@ == mac_prefix(kp, ms, tv, U@, 3));
        }
        if M.len() > 3 {
            proof {
                assert(M@[3].wf());
                assert(ms[3] == M@[3]@);
            }
            V = point_add(&V, &point_mul(&self.y4, &M[3]));
            assert(V@ == mac_prefix(kp, ms, tv, U@, 4));
        }
        proof {
            assert forall|k: nat| k < M@.len() implies point_difference(
                #[trigger] mac_prefix(kp, ms, tv, U@, k + 1),
                attribute_term(kp, ms, k as int),
            ) == mac_prefix(kp, ms, tv, U@, k) by {}
            lemma_strip_prefix(kp, ms, tv, U@, M@.len());
        }
        V
    }

    /// The MAC `V = W + (x0 + x1·t)·U + y1·M[0] + y2·M[1] [+ y3·M[2]] [+ y4·M[3]]`
    /// over the attribute points `M`, with `t` and `U` drawn fresh for this
    /// credential; more than four points are refused.
    pub fn credential_core(&self, M: &Vec<Point>, t: &Scalar, U: &Point) -> (r: Result<
        Point,
        CredentialError,
    >)
        requires
            self.wf(),
            2 <= M@.len(),
            forall|i: int| 0 <= i < M@.len() ==> (#[trigger] M@[i]).wf(),
            t.wf(),
            U.wf(),
        ensures
            r is Err <==> M@.len() > 4,
            r matches Err(e) ==> e == CredentialError::TooManyAttributes,
            r matches Ok(V) ==> {
                &&& V.wf()
                &&& V@ == mac_value(*self, array_views_points(M@), t.value(), U@)
                &&& point_difference(
                    strip_attributes(*self, array_views_points(M@), V@, M@.len()),
                    x_term(*self, t.value(), U@),
                ) == self.W@
            },
    {
        if M.len() > 4 {
            return Err(CredentialError::TooManyAttributes);
        }
        Ok(self.mac_core(M, t, U))
    }

    /// Issues a credential over an identifier and an encoded validity window:
    /// the MAC over `[uid.M1, uid.M2, redemption_time·G_m3]`.
    pub fn create_auth_credential(
        &self,
        uid: &UidStruct,
        redemption_time: &Scalar,
        t: &Scalar,
        U: &Point,
    ) -> (r: Result<AuthCredential, CredentialError>)
        requires
            self.wf(),
            uid.wf(),
            redemption_time.wf(),
            t.wf(),
            U.wf(),
        ensures
            r is Ok <==> hardcoded_valid(),
            r matches Err(e) ==> e == CredentialError::ParameterMismatch,
            r matches Ok(c) ==> {
                &&& c.wf()
                &&& c.t == *t
                &&& c.U == *U
                &&& c.V@ == mac_value(
                    *self,
                    auth_attributes(*uid, redemption_time.value(), hardcoded_generators()),
                    t.value(),
                    U@,
                )
            },
    {
        let M = match convert_to_points_uid_struct(uid, redemption_time) {
            Ok(m) => m,
            Err(e) => return Err(e),
        };
        let V = self.mac_core(&M, t, U);
        Ok(AuthCredential { t: *t, U: *U, V })
    }

    /// Issues a credential whose hidden attribute reaches the issuer only as
    /// the ciphertext `(D1, E1, D2, E2)` under the requester's key `Y`. The
    /// MAC `V'` over the identifier alone is encrypted under `Y` with the
    /// nonce `rprime`, and `y3`, `y4` are applied to the ciphertext:
    /// `S1 = rprime·B + y3·D1 + y4·E1`, `S2 = rprime·Y + V' + y3·D2 + y4·E2`.
    pub fn create_blinded_profile_key_credential(
        &self,
        uid: &UidStruct,
        public_key: &RequestPublicKey,
        ciphertext: &RequestCiphertext,
        t: &Scalar,
        U: &Point,
        rprime: &Scalar,
    ) -> (r: BlindedProfileKeyCredentialWithSecretNonce)
        requires
            self.wf(),
            uid.wf(),
            public_key.wf(),
            ciphertext.wf(),
            t.wf(),
            U.wf(),
            rprime.wf(),
        ensures
            r.wf(),
            r.rprime == *rprime,
            r.t == *t,
            r.U == *U,
            r.S1@ == blinded_s1(*self, rprime.value(), *ciphertext),
            r.S2@ == blinded_s2(
                *self,
                rprime.value(),
                public_key.Y@,
                mac_value(*self, seq![uid.M1@, uid.M2@], t.value(), U@),
                *ciphertext,
            ),
    {
        let M: Vec<Point> = vec![uid.M1, uid.M2];
        proof {
            assert(array_views_points(M@) =~= seq![uid.M1@, uid.M2@]);
        }
        let Vprime = self.mac_core(&M, t, U);
        let R1 = base_mul(rprime);
        let R2 = point_add(&point_mul(rprime, &public_key.Y), &Vprime);
        let S1 = point_add(
            &point_add(&R1, &point_mul(&self.y3, &ciphertext.D1)),
            &point_mul(&self.y4, &ciphertext.E1),
        );
        let S2 = point_add(
            &point_add(&R2, &point_mul(&self.y3, &ciphertext.D2)),
            &point_mul(&self.y4, &ciphertext.E2),
        );
        BlindedProfileKeyCredentialWithSecretNonce { rprime: *rprime, t: *t, U: *U, S1, S2 }
    }
}

impl KeyPair {
    /// Every field holds a canonical encoding.
    pub open spec fn wf(&self) -> bool {
        &&& self.w.wf()
        &&& self.wprime.wf()
        &&& self.W.wf()
        &&& self.x0.wf()
        &&& self.x1.wf()
        &&& self.y1.wf()
        &&& self.y2.wf()
        &&& self.y3.wf()
        &&& self.y4.wf()
        &&& self.C_W.wf()
        &&& self.I.wf()
    }

    /// The encodings of the fields, in declared order.
    pub open spec fn fields(&self) -> Seq<Seq<u8>> {
        seq![self.w@, self.wprime@, self.W@, self.x0@, self.x1@, self.y1@, self.y2@, self.y3@, self.y4@, self.C_W@, self.I@]
    }

    /// The kind of each field in declared order: `true` for a point, `false` for a scalar.
    pub open spec fn kinds() -> Seq<bool> {
        seq![false, false, true, false, false, false, false, false, false, true, true]
    }

    /// The wire encoding: the fields' encodings end to end, 352 bytes.
    pub open spec fn encoding(&self) -> Seq<u8> {
        concat_fields(self.fields())
    }

    /// Encodes a key pair.
    pub fn to_bytes(&self) -> (r: Vec<u8>)
        ensures
            r@ == self.encoding(),
    {
        let fs: Vec<[u8; 32]> = vec![
            self.w.to_bytes(),
            self.wprime.to_bytes(),
            self.W.to_bytes(),
            self.x0.to_bytes(),
            self.x1.to_bytes(),
            self.y1.to_bytes(),
            self.y2.to_bytes(),
            self.y3.to_bytes(),
            self.y4.to_bytes(),
            self.C_W.to_bytes(),
            self.I.to_bytes(),
        ];
        proof {
            assert(array_views(fs@) =~= self.fields());
        }
        encode_fields(&fs)
    }

    /// Decodes a key pair, refusing bytes of another length or a field that
    /// is not a canonical encoding.
    pub fn from_bytes(b: &[u8]) -> (r: Result<KeyPair, CredentialError>)
        ensures
            r is Ok <==> fields_valid(b@, Self::kinds()),
            r matches Ok(x) ==> x.wf() && x.fields() == split_fields(b@, 11),
            r matches Err(e) ==> e == CredentialError::MalformedEncoding,
    {
        let kinds: Vec<bool> = vec![false, false, true, false, false, false, false, false, false, true, true];
        proof {
            assert(kinds@ =~= Self::kinds());
        }
        let v = match decode_fields(b, &kinds) {
            Ok(v) => v,
            Err(e) => return Err(e),
        };
        let ghost kinds = Self::kinds();
        let w = scalar_field(&v, 0, Ghost(b@), Ghost(kinds));
        let wprime = scalar_field(&v, 1, Ghost(b@), Ghost(kinds));
        let W = point_field(&v, 2, Ghost(b@), Ghost(kinds));
        let x0 = scalar_field(&v, 3, Ghost(b@), Ghost(kinds));
        let x1 = scalar_field(&v, 4, Ghost(b@), Ghost(kinds));
        let y1 = scalar_field(&v, 5, Ghost(b@), Ghost(kinds));
        let y2 = scalar_field(&v, 6, Ghost(b@), Ghost(kinds));
        let y3 = scalar_field(&v, 7, Ghost(b@), Ghost(kinds));
        let y4 = scalar_field(&v, 8, Ghost(b@), Ghost(kinds));
        let C_W = point_field(&v, 9, Ghost(b@), Ghost(kinds));
        let I = point_field(&v, 10, Ghost(b@), Ghost(kinds));
        let x = KeyPair { w, wprime, W, x0, x1, y1, y2, y3, y4, C_W, I };
        proof {
            assert(x.fields() =~= split_fields(b@, 11));
        }
        Ok(x)
    }
}

/// Decoding the encoding of a well-formed key pair succeeds and gives back that same value.
pub proof fn lemma_key_pair_round_trip(x: KeyPair)
    requires
        x.wf(),
    ensures
        fields_valid(x.encoding(), KeyPair::kinds()),
        forall|y: KeyPair| #[trigger] y.fields() == split_fields(x.encoding(), 11) ==> y == x,
{
    lemma_scalar_view_len(x.w);
    lemma_scalar_view_len(x.wprime);
    lemma_point_view_len(x.W);
    lemma_scalar_view_len(x.x0);
    lemma_scalar_view_len(x.x1);
    lemma_scalar_view_len(x.y1);
    lemma_scalar_view_len(x.y2);
    lemma_scalar_view_len(x.y3);
    lemma_scalar_view_len(x.y4);
    lemma_point_view_len(x.C_W);
    lemma_point_view_len(x.I);
    let fs = x.fields();
    assert forall|i: int| 0 <= i < 11 implies (#[trigger] fs[i]).len() == 32 by {
        if i == 0 {} else if i == 1 {} else if i == 2 {} else if i == 3 {} else if i == 4 {} else if i == 5 {} else if i == 6 {} else if i == 7 {} else if i == 8 {} else if i == 9 {} else if i == 10 {}
    }
    lemma_concat_split(fs);
    assert forall|i: int| 0 <= i < 11 implies #[trigger] field_valid(field_at(x.encoding(), i), KeyPair::kinds()[i]) by {
        assert(field_at(x.encoding(), i) == fs[i]);
        if i == 0 {} else if i == 1 {} else if i == 2 {} else if i == 3 {} else if i == 4 {} else if i == 5 {} else if i == 6 {} else if i == 7 {} else if i == 8 {} else if i == 9 {} else if i == 10 {}
    }
    assert forall|y: KeyPair| #[trigger] y.fields() == split_fields(x.encoding(), 11) implies y == x by {
        assert(y.fields() == fs);
        assert(y.fields()[0] == fs[0]);
        lemma_scalar_view_injective(y.w, x.w);
        assert(y.fields()[1] == fs[1]);
        lemma_scalar_view_injective(y.wprime, x.wprime);
        assert(y.fields()[2] == fs[2]);
        lemma_point_view_injective(y.W, x.W);
        assert(y.fields()[3] == fs[3]);
        lemma_scalar_view_injective(y.x0, x.x0);
        assert(y.fields()[4] == fs[4]);
        lemma_scalar_view_injective(y.x1, x.x1);
        assert(y.fields()[5] == fs[5]);
        lemma_scalar_view_injective(y.y1, x.y1);
        assert(y.fields()[6] == fs[6]);
        lemma_scalar_view_injective(y.y2, x.y2);
        assert(y.fields()[7] == fs[7]);
        lemma_scalar_view_injective(y.y3, x.y3);
        assert(y.fields()[8] == fs[8]);
        lemma_scalar_view_injective(y.y4, x.y4);
        assert(y.fields()[9] == fs[9]);
        lemma_point_view_injective(y.C_W, x.C_W);
        assert(y.fields()[10] == fs[10]);
        lemma_point_view_injective(y.I, x.I);
    }
}

impl PublicKey {
    /// Every field holds a canonical encoding.
    pub open spec fn wf(&self) -> bool {
        &&& self.C_W.wf()
        &&& self.I.wf()
    }

    /// The encodings of the fields, in declared order.
    pub open spec fn fields(&self) -> Seq<Seq<u8>> {
        seq![self.C_W@, self.I@]
    }

    /// The kind of each field in declared order: `true` for a point, `false` for a scalar.
    pub open spec fn kinds() -> Seq<bool> {
        seq![true, true]
    }

    /// The wire encoding: the fields' encodings end to end, 64 bytes.
    pub open spec fn encoding(&self) -> Seq<u8> {
        concat_fields(self.fields())
    }

    /// Encodes a public key.
    pub fn to_bytes(&self) -> (r: Vec<u8>)
        ensures
            r@ == self.encoding(),
    {
        let fs: Vec<[u8; 32]> = vec![
            self.C_W.to_bytes(),
            self.I.to_bytes(),
        ];
        proof {
            assert(array_views(fs@) =~= self.fields());
        }
        encode_fields(&fs)
    }

    /// Decodes a public key, refusing bytes of another length or a field that
    /// is not a canonical encoding.
    pub fn from_bytes(b: &[u8]) -> (r: Result<PublicKey, CredentialError>)
        ensures
            r is Ok <==> fields_valid(b@, Self::kinds()),
            r matches Ok(x) ==> x.wf() && x.fields() == split_fields(b@, 2),
            r matches Err(e) ==> e == CredentialError::MalformedEncoding,
    {
        let kinds: Vec<bool> = vec![true, true];
        proof {
            assert(kinds@ =~= Self::kinds());
        }
        let v = match decode_fields(b, &kinds) {
            Ok(v) => v,
            Err(e) => return Err(e),
        };
        let ghost kinds = Self::kinds();
        let C_W = point_field(&v, 0, Ghost(b@), Ghost(kinds));
        let I = point_field(&v, 1, Ghost(b@), Ghost(kinds));
        let x = PublicKey { C_W, I };
        proof {
            assert(x.fields() =~= split_fields(b@, 2));
        }
        Ok(x)
    }
}

/// Decoding the encoding of a well-formed public key succeeds and gives back that same value.
pub proof fn lemma_public_key_round_trip(x: PublicKey)
    requires
        x.wf(),
    ensures
        fields_valid(x.encoding(), PublicKey::kinds()),
        forall|y: PublicKey| #[trigger] y.fields() == split_fields(x.encoding(), 2) ==> y == x,
{
    lemma_point_view_len(x.C_W);
    lemma_point_view_len(x.I);
    let fs = x.fields();
    assert forall|i: int| 0 <= i < 2 implies (#[trigger] fs[i]).len() == 32 by {
        if i == 0 {} else if i == 1 {}
    }
    lemma_concat_split(fs);
    assert forall|i: int| 0 <= i < 2 implies #[trigger] field_valid(field_at(x.encoding(), i), PublicKey::kinds()[i]) by {
        assert(field_at(x.encoding(), i) == fs[i]);
        if i == 0 {} else if i == 1 {}
    }
    assert forall|y: PublicKey| #[trigger] y.fields() == split_fields(x.encoding(), 2) implies y == x by {
        assert(y.fields() == fs);
        assert(y.fields()[0] == fs[0]);
        lemma_point_view_injective(y.C_W, x.C_W);
        assert(y.fields()[1] == fs[1]);
        lemma_point_view_injective(y.I, x.I);
    }
}

} // verus!
