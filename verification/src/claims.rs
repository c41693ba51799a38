//! Claim sets and the builder that is the only way to obtain one.
//!
//! A claim set carries the identity fields of a token together with three
//! mandatory timestamps. The builder enforces that an expiry was chosen, that
//! the expiry lies strictly after the not-before time, and that extension
//! claims neither collide with each other nor shadow a fixed field.

use vstd::prelude::*;
use crate::clock::now_timestamp;
use crate::error::HeimdallrError;

verus! {

/// Distinguishes short-lived access tokens from long-lived refresh tokens.
#[derive(PartialEq, Eq, Structural, Clone, Copy, Debug)]
pub enum JwtType {
    AccessToken,
    RefreshToken,
}

/// The mathematical content of a claim set.
#[verifier::ext_equal]
pub ghost struct ClaimsView {
    pub exp: i64,
    pub nbf: i64,
    pub iat: i64,
    pub iss: Option<Seq<char>>,
    pub sub: Option<Seq<char>>,
    pub aud: Option<Seq<char>>,
    pub jti: Option<Seq<char>>,
    pub extra: Seq<(Seq<char>, Seq<char>)>,
}

/// The payload of a token. Immutable once built; construct it through
/// [`JwtClaimsBuilder`], which establishes [`claims_wf`].
#[derive(Debug)]
pub struct JwtClaims {
    /// Time after which the token expires.
    pub exp: i64,
    /// Time before which the token must not be accepted.
    pub nbf: i64,
    /// Time at which the token was issued.
    pub iat: i64,
    /// Issuer of the token.
    pub iss: Option<String>,
    /// Subject of the token (the user).
    pub sub: Option<String>,
    /// Recipient for which the token is intended.
    pub aud: Option<String>,
    /// Unique identifier; lets a revocation store recognise a replayed token.
    pub jti: Option<String>,
    /// Free-form extension claims.
    pub extra: Vec<(String, String)>,
}

impl View for JwtClaims {
    type V = ClaimsView;

    open spec fn view(&self) -> ClaimsView {
        ClaimsView {
            exp: self.exp,
            nbf: self.nbf,
            iat: self.iat,
            iss: self.iss.deep_view(),
            sub: self.sub.deep_view(),
            aud: self.aud.deep_view(),
            jti: self.jti.deep_view(),
            extra: self.extra.deep_view(),
        }
    }
}

/// The names of the fixed claim fields, which an extension claim may not use.
pub open spec fn reserved_claim_name(s: Seq<char>) -> bool {
    ||| s == "exp"@
    ||| s == "nbf"@
    ||| s == "iat"@
    ||| s == "iss"@
    ||| s == "sub"@
    ||| s == "aud"@
    ||| s == "jti"@
}

/// Extension keys are pairwise distinct and none shadows a fixed field.
pub open spec fn extension_keys_ok(extra: Seq<(Seq<char>, Seq<char>)>) -> bool {
    &&& forall|i: int, j: int|
        #![trigger extra[i].0, extra[j].0]
        0 <= i < j < extra.len() ==> extra[i].0 != extra[j].0
    &&& forall|i: int| 0 <= i < extra.len() ==> !reserved_claim_name(#[trigger] extra[i].0)
}

/// What the builder guarantees of every claim set it produces.
pub open spec fn claims_wf(c: ClaimsView) -> bool {
    &&& c.nbf < c.exp
    &&& extension_keys_ok(c.extra)
}

impl JwtClaims {
    /// A zeroed claim set, as a plain value; it does not satisfy
    /// [`claims_wf`] and cannot be signed into a valid token.
    pub fn new() -> (r: Self)
        ensures
            r@ == (ClaimsView {
                exp: 0,
                nbf: 0,
                iat: 0,
                iss: None,
                sub: None,
                aud: None,
                jti: None,
                extra: Seq::empty(),
            }),
    {
        let r = JwtClaims {
            exp: 0,
            nbf: 0,
            iat: 0,
            iss: None,
            sub: None,
            aud: None,
            jti: None,
            extra: Vec::new(),
        };
        proof {
            assert(r@ =~= (ClaimsView {
                exp: 0,
                nbf: 0,
                iat: 0,
                iss: None,
                sub: None,
                aud: None,
                jti: None,
                extra: Seq::empty(),
            }));
        }
        r
    }

    /// Starts a builder.
    pub fn build() -> (r: JwtClaimsBuilder)
        ensures
            r@ == empty_builder(),
    {
        JwtClaimsBuilder::new()
    }
}

/// The mathematical content of a builder.
#[verifier::ext_equal]
pub ghost struct BuilderView {
    pub exp: Option<i64>,
    pub nbf: Option<i64>,
    pub iat: Option<i64>,
    pub iss: Option<Seq<char>>,
    pub sub: Option<Seq<char>>,
    pub aud: Option<Seq<char>>,
    pub jti: Option<Seq<char>>,
    pub extra: Seq<(Seq<char>, Seq<char>)>,
}

/// The builder every chain starts from: nothing set, no extensions.
pub open spec fn empty_builder() -> BuilderView {
    BuilderView {
        exp: None,
        nbf: None,
        iat: None,
        iss: None,
        sub: None,
        aud: None,
        jti: None,
        extra: Seq::empty(),
    }
}

/// The first position holding key `k`, or `-1`.
pub open spec fn key_index(s: Seq<(Seq<char>, Seq<char>)>, k: Seq<char>) -> int
    decreases s.len(),
{
    if s.len() == 0 {
        -1
    } else if s[0].0 == k {
        0
    } else {
        let r = key_index(s.drop_first(), k);
        if r < 0 {
            -1
        } else {
            r + 1
        }
    }
}

/// Last-write-wins insertion: an existing key keeps its position and takes
/// the new value; a new key goes to the end.
pub open spec fn upsert(
    s: Seq<(Seq<char>, Seq<char>)>,
    k: Seq<char>,
    v: Seq<char>,
) -> Seq<(Seq<char>, Seq<char>)> {
    let i = key_index(s, k);
    if i < 0 {
        s.push((k, v))
    } else {
        s.update(i, (k, v))
    }
}

/// `key_index` finds the first occurrence, and `-1` means absence.
pub proof fn lemma_key_index(s: Seq<(Seq<char>, Seq<char>)>, k: Seq<char>)
    ensures
        key_index(s, k) >= 0 ==> {
            &&& key_index(s, k) < s.len()
            &&& s[key_index(s, k)].0 == k
            &&& forall|j: int| 0 <= j < key_index(s, k) ==> (#[trigger] s[j].0) != k
        },
        key_index(s, k) < 0 ==> forall|j: int| 0 <= j < s.len() ==> (#[trigger] s[j].0) != k,
    decreases s.len(),
{
    if s.len() > 0 && s[0].0 != k {
        lemma_key_index(s.drop_first(), k);
        assert forall|j: int| 1 <= j < s.len() implies s.drop_first()[j - 1] == s[j] by {}
    }
}

/// Upserting preserves distinctness of the keys.
pub proof fn lemma_upsert_keys(s: Seq<(Seq<char>, Seq<char>)>, k: Seq<char>, v: Seq<char>)
    requires
        forall|i: int, j: int|
            #![trigger s[i].0, s[j].0]
            0 <= i < j < s.len() ==> s[i].0 != s[j].0,
    ensures
        forall|i: int, j: int|
            #![trigger upsert(s, k, v)[i].0, upsert(s, k, v)[j].0]
            0 <= i < j < upsert(s, k, v).len() ==> upsert(s, k, v)[i].0 != upsert(s, k, v)[j].0,
{
    lemma_key_index(s, k);
}

/// Accumulates the optional claim fields and produces a validated
/// [`JwtClaims`] on [`build`](Self::build).
pub struct JwtClaimsBuilder {
    exp: Option<i64>,
    nbf: Option<i64>,
    iat: Option<i64>,
    iss: Option<String>,
    sub: Option<String>,
    aud: Option<String>,
    jti: Option<String>,
    extra: Vec<(String, String)>,
}

impl View for JwtClaimsBuilder {
    type V = BuilderView;

    closed spec fn view(&self) -> BuilderView {
        BuilderView {
            exp: self.exp,
            nbf: self.nbf,
            iat: self.iat,
            iss: self.iss.deep_view(),
            sub: self.sub.deep_view(),
            aud: self.aud.deep_view(),
            jti: self.jti.deep_view(),
            extra: self.extra.deep_view(),
        }
    }
}

impl JwtClaimsBuilder {
    #[verifier::type_invariant]
    spec fn inv(self) -> bool {
        forall|i: int, j: int|
            #![trigger self@.extra[i].0, self@.extra[j].0]
            0 <= i < j < self@.extra.len() ==> self@.extra[i].0 != self@.extra[j].0
    }

    /// A builder with nothing set.
    pub fn new() -> (r: Self)
        ensures
            r@ == empty_builder(),
    {
        let r = JwtClaimsBuilder {
            exp: None,
            nbf: None,
            iat: None,
            iss: None,
            sub: None,
            aud: None,
            jti: None,
            extra: Vec::new(),
        };
        proof {
            assert(r@ =~= empty_builder());
        }
        r
    }

    /// Sets the issuer claim.
    pub fn issuer(self, value: String) -> (r: Self)
        ensures
            r@ == (BuilderView { iss: Some(value@), ..self@ }),
    {
        proof {
            use_type_invariant(&self);
        }
        JwtClaimsBuilder { iss: Some(value), ..self }
    }

    /// Sets the subject claim.
    pub fn subject(self, value: String) -> (r: Self)
        ensures
            r@ == (BuilderView { sub: Some(value@), ..self@ }),
    {
        proof {
            use_type_invariant(&self);
        }
        JwtClaimsBuilder { sub: Some(value), ..self }
    }

    /// Sets the audience claim.
    pub fn audience(self, value: String) -> (r: Self)
        ensures
            r@ == (BuilderView { aud: Some(value@), ..self@ }),
    {
        proof {
            use_type_invariant(&self);
        }
        JwtClaimsBuilder { aud: Some(value), ..self }
    }

    /// Sets the unique token identifier claim.
    pub fn token_id(self, value: String) -> (r: Self)
        ensures
            r@ == (BuilderView { jti: Some(value@), ..self@ }),
    {
        proof {
            use_type_invariant(&self);
        }
        JwtClaimsBuilder { jti: Some(value), ..self }
    }

    /// Sets the expiry claim directly.
    pub fn expires(self, expires: i64) -> (r: Self)
        ensures
            r@ == (BuilderView { exp: Some(expires), ..self@ }),
    {
        proof {
            use_type_invariant(&self);
        }
        JwtClaimsBuilder { exp: Some(expires), ..self }
    }

    /// Sets the expiry claim to the current time plus `secs`, saturating at
    /// the ends of the timestamp range. `t` below is whatever the clock read.
    pub fn expires_in(self, secs: i64) -> (r: Self)
        ensures
            exists|t: i64|
                r@ == (BuilderView {
                    exp: Some(#[trigger] spec_sat_add_i64(t as int, secs as int)),
                    ..self@
                }),
    {
        proof {
            use_type_invariant(&self);
        }
        let now = now_timestamp();
        let exp = sat_add_i64(now, secs);
        let r = JwtClaimsBuilder { exp: Some(exp), ..self };
        proof {
            assert(r@ == (BuilderView {
                exp: Some(spec_sat_add_i64(now as int, secs as int)),
                ..self@
            }));
        }
        r
    }

    /// Sets the not-before claim.
    pub fn not_before(self, not_before: i64) -> (r: Self)
        ensures
            r@ == (BuilderView { nbf: Some(not_before), ..self@ }),
    {
        proof {
            use_type_invariant(&self);
        }
        JwtClaimsBuilder { nbf: Some(not_before), ..self }
    }

    /// Sets the issued-at claim.
    pub fn issued_at(self, issued_at: i64) -> (r: Self)
        ensures
            r@ == (BuilderView { iat: Some(issued_at), ..self@ }),
    {
        proof {
            use_type_invariant(&self);
        }
        JwtClaimsBuilder { iat: Some(issued_at), ..self }
    }

    /// Adds an extension claim; a repeated key takes the last value written.
    #[verifier::loop_isolation(false)]
    pub fn add_claim(self, key: String, value: String) -> (r: Self)
        ensures
            r@ == (BuilderView { extra: upsert(self@.extra, key@, value@), ..self@ }),
    {
        proof {
            use_type_invariant(&self);
        }
        let ghost orig = self@.extra;
        let JwtClaimsBuilder { exp, nbf, iat, iss, sub, aud, jti, mut extra } = self;
        let mut i: usize = 0;
        while i < extra.len()
            invariant
                i <= extra.len(),
                extra.deep_view() == orig,
                forall|j: int| 0 <= j < i ==> (#[trigger] orig[j].0) != key@,
                forall|p: int, q: int|
                    #![trigger orig[p].0, orig[q].0]
                    0 <= p < q < orig.len() ==> orig[p].0 != orig[q].0,
            decreases extra.len() - i,
        {
            if extra[i].0 == key {
                proof {
                    assert(orig[i as int].0 == key@);
                    lemma_key_index(orig, key@);
                    if key_index(orig, key@) < 0 {
                        assert(orig[i as int].0 != key@);
                    }
                    if key_index(orig, key@) < i {
                        assert(orig[key_index(orig, key@)].0 != key@);
                    }
                    if key_index(orig, key@) > i {
                        assert(orig[i as int].0 != key@);
                    }
                    assert(key_index(orig, key@) == i);
                    lemma_upsert_keys(orig, key@, value@);
                }
                extra.set(i, (key, value));
                proof {
                    assert(extra.deep_view() =~= upsert(orig, key@, value@));
                }
                return JwtClaimsBuilder { exp, nbf, iat, iss, sub, aud, jti, extra };
            }
            i += 1;
        }
        proof {
            lemma_key_index(orig, key@);
            if key_index(orig, key@) >= 0 {
                assert(orig[key_index(orig, key@)].0 != key@);
            }
            lemma_upsert_keys(orig, key@, value@);
        }
        extra.push((key, value));
        proof {
            assert(extra.deep_view() =~= upsert(orig, key@, value@));
        }
        JwtClaimsBuilder { exp, nbf, iat, iss, sub, aud, jti, extra }
    }

    /// Produces the claim set, or says why the configuration is unusable:
    /// no expiry was chosen, the expiry does not lie strictly after the
    /// not-before time, or an extension claim shadows a fixed field. An
    /// unset not-before or issued-at defaults to the build-time clock.
    #[verifier::loop_isolation(false)]
    pub fn build(&self) -> (r: Result<JwtClaims, HeimdallrError>)
        ensures
            build_ok(*self, r),
            build_err(*self, r),
    {
        let exp: i64 = match self.exp {
            Some(v) => v,
            None => {
                return Err(HeimdallrError::JwtError("Expiration must be initialized"));
            },
        };
        let now = now_timestamp();
        let nbf: i64 = match self.nbf {
            Some(v) => v,
            None => now,
        };
        let iat: i64 = match self.iat {
            Some(v) => v,
            None => now,
        };
        if nbf >= exp {
            return Err(HeimdallrError::JwtError("Expiration must lie after the not-before time"));
        }
        let mut extra: Vec<(String, String)> = Vec::new();
        let mut i: usize = 0;
        proof {
            use_type_invariant(self);
        }
        while i < self.extra.len()
            invariant
                i <= self.extra.len(),
                extra.deep_view() == self@.extra.take(i as int),
                forall|j: int| 0 <= j < i ==> !reserved_claim_name(#[trigger] self@.extra[j].0),
            decreases self.extra.len() - i,
        {
            let (k, v) = (&self.extra[i].0, &self.extra[i].1);
            proof {
                assert(self@.extra[i as int] == (k@, v@));
            }
            if is_reserved_claim_name(k) {
                proof {
                    assert(reserved_claim_name(self@.extra[i as int].0));
                    assert(!extension_keys_ok(self@.extra));
                }
                return Err(HeimdallrError::JwtError("Extension claims may not use a fixed field name"));
            }
            extra.push((k.clone(), v.clone()));
            proof {
                assert(extra.deep_view() =~= self@.extra.take(i as int + 1));
            }
            i += 1;
        }
        proof {
            use_type_invariant(self);
            assert(extra.deep_view() =~= self@.extra);
        }
        Ok(JwtClaims {
            exp,
            nbf,
            iat,
            iss: clone_opt(&self.iss),
            sub: clone_opt(&self.sub),
            aud: clone_opt(&self.aud),
            jti: clone_opt(&self.jti),
            extra,
        })
    }

    /// Produces the claim set; the same contract as [`build`](Self::build).
    pub fn finish(self) -> (r: Result<JwtClaims, HeimdallrError>)
        ensures
            build_ok(self, r),
            build_err(self, r),
    {
        self.build()
    }
}

/// What a successful build says: every field set in the builder is carried
/// over, defaults agree with each other, and the result is well formed.
pub open spec fn build_ok(b: JwtClaimsBuilder, r: Result<JwtClaims, HeimdallrError>) -> bool {
    r matches Ok(c) ==> {
        &&& b@.exp is Some
        &&& c@.exp == b@.exp.unwrap()
        &&& (b@.nbf is Some ==> c@.nbf == b@.nbf.unwrap())
        &&& (b@.iat is Some ==> c@.iat == b@.iat.unwrap())
        &&& (b@.nbf is None && b@.iat is None ==> c@.nbf == c@.iat)
        &&& c@.iss == b@.iss
        &&& c@.sub == b@.sub
        &&& c@.aud == b@.aud
        &&& c@.jti == b@.jti
        &&& c@.extra == b@.extra
        &&& claims_wf(c@)
    }
}

/// When a build fails, and when success is owed. A build with an explicit
/// not-before below the expiry and clean extension keys always succeeds; one
/// that leaves not-before to the clock can fail only if the clock has reached
/// the expiry.
pub open spec fn build_err(b: JwtClaimsBuilder, r: Result<JwtClaims, HeimdallrError>) -> bool {
    &&& (b@.exp is None ==> (r matches Err(HeimdallrError::JwtError(m)) && m@
        == "Expiration must be initialized"@))
    &&& (r is Err ==> b@.exp is None || !extension_keys_ok(b@.extra) || !(b@.nbf matches Some(n)
        && n < b@.exp.unwrap()))
    &&& ((b@.exp matches Some(x) && b@.nbf matches Some(n) && n < x && extension_keys_ok(b@.extra))
        ==> r is Ok)
}

impl Default for JwtClaimsBuilder {
    /// A builder with nothing set.
    fn default() -> (r: Self)
        ensures
            r@ == empty_builder(),
    {
        JwtClaimsBuilder::new()
    }
}

/// Checks a key against the fixed claim field names.
fn is_reserved_claim_name(s: &String) -> (r: bool)
    ensures
        r == reserved_claim_name(s@),
{
    *s == String::from_str("exp") || *s == String::from_str("nbf") || *s == String::from_str("iat")
        || *s == String::from_str("iss") || *s == String::from_str("sub") || *s
        == String::from_str("aud") || *s == String::from_str("jti")
}

/// Clones an optional string, field for field.
fn clone_opt(o: &Option<String>) -> (r: Option<String>)
    ensures
        r.deep_view() == o.deep_view(),
{
    match o {
        Some(s) => Some(s.clone()),
        None => None,
    }
}

/// Addition on timestamps that saturates at the ends of the range.
pub open spec fn spec_sat_add_i64(a: int, b: int) -> i64 {
    if a + b > i64::MAX {
        i64::MAX
    } else if a + b < i64::MIN {
        i64::MIN
    } else {
        (a + b) as i64
    }
}

/// Computes [`spec_sat_add_i64`].
pub fn sat_add_i64(a: i64, b: i64) -> (r: i64)
    ensures
        r == spec_sat_add_i64(a as int, b as int),
{
    let s: i128 = a as i128 + b as i128;
    if s > i64::MAX as i128 {
        i64::MAX
    } else if s < i64::MIN as i128 {
        i64::MIN
    } else {
        s as i64
    }
}

} // verus!
