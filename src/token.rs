use hmac::Mac;
use vstd::bytes::*;
use vstd::prelude::*;
use vstd::slice::{slice_subrange, slice_to_vec};
use crate::crypto::CryptoService;
use crate::hex::{hex_decode, hex_encode, is_hex_of, lemma_hex_injective};

verus! {

/// Lifetime of an issued token, in seconds.
pub const TOKEN_TTL_SECS: u64 = 86400;

/// Length in bytes of the signed part of a token.
pub const CLAIMS_LEN: usize = 24;

/// Length in bytes of a token's signature.
pub const SIG_LEN: usize = 32;

/// The claim set a token carries: the user it names and the second at which
/// it stops being valid.
#[derive(Clone, Copy, Debug, PartialEq, Eq, Structural)]
pub struct Claims {
    pub sub: u128,
    pub exp: u64,
}

/// The one error kind that identity resolution reports, and a failure to
/// sign when issuing.
#[derive(Clone, Copy, Debug, PartialEq, Eq, Structural)]
pub enum AuthError {
    NotAuthorized,
    SigningFailed,
}

/// HMAC-SHA256 tag of `msg` under `key`; `None` where the key is refused.
pub uninterp spec fn hmac_sha256_of(key: Seq<char>, msg: Seq<u8>) -> Option<Seq<u8>>;

/// Relies on hmac::Hmac<sha2::Sha256>: new_from_slice, update and finalize
/// give a tag that depends on key and message alone, of SHA-256's 32 bytes.
#[verifier::external_body]
fn hmac_sha256(key: &str, msg: &Vec<u8>) -> (r: Option<Vec<u8>>)
    ensures
        r is Some <==> hmac_sha256_of(key@, msg@) is Some,
        r is Some ==> hmac_sha256_of(key@, msg@) == Some(r->Some_0@),
        r is Some ==> r->Some_0@.len() == SIG_LEN,
{
    match <hmac::Hmac<sha2::Sha256> as hmac::Mac>::new_from_slice(key.as_bytes()) {
        Ok(mut m) => {
            m.update(msg);
            Some(m.finalize().into_bytes().to_vec())
        },
        Err(_) => None,
    }
}

/// Relies on str::chars, collected: the characters of `s` in order.
#[verifier::external_body]
fn chars_of(s: &str) -> (r: Vec<char>)
    ensures
        r@ == s@,
{
    s.chars().collect()
}

/// Relies on String's FromIterator<char>: the string of these characters.
#[verifier::external_body]
fn string_of(cs: Vec<char>) -> (r: String)
    ensures
        r@ == cs@,
{
    cs.into_iter().collect()
}

/// The signed bytes of a claim set: subject then expiry, little-endian.
pub open spec fn claims_bytes(c: Claims) -> Seq<u8> {
    spec_u128_to_le_bytes(c.sub) + spec_u64_to_le_bytes(c.exp)
}

/// `token` is the text issued for `c` under `key`: the hexadecimal form of
/// the claim bytes followed by their tag.
pub open spec fn is_token_for(token: Seq<char>, c: Claims, key: Seq<char>) -> bool {
    exists|sig: Seq<u8>|
        sig.len() == SIG_LEN && hmac_sha256_of(key, claims_bytes(c)) == Some(sig) && #[trigger] is_hex_of(
            token,
            claims_bytes(c) + sig,
        )
}

/// The claims that `token` carries with a valid signature under `key`.
pub open spec fn signed_claims(token: Seq<char>, key: Seq<char>) -> Option<Claims> {
    if exists|c: Claims| is_token_for(token, c, key) {
        Some(choose|c: Claims| is_token_for(token, c, key))
    } else {
        None
    }
}

/// What validation yields for decoded claims at time `now`.
pub open spec fn claims_outcome(decoded: Option<Claims>, now: u64) -> Result<u128, AuthError> {
    match decoded {
        Some(c) => if now < c.exp {
            Ok(c.sub)
        } else {
            Err(AuthError::NotAuthorized)
        },
        None => Err(AuthError::NotAuthorized),
    }
}

proof fn lemma_claims_bytes(c: Claims)
    ensures
        claims_bytes(c).len() == CLAIMS_LEN,
        spec_u128_from_le_bytes(claims_bytes(c).subrange(0, 16)) == c.sub,
        spec_u64_from_le_bytes(claims_bytes(c).subrange(16, 24)) == c.exp,
{
    lemma_auto_spec_u128_to_from_le_bytes();
    lemma_auto_spec_u64_to_from_le_bytes();
    let a = spec_u128_to_le_bytes(c.sub);
    let b = spec_u64_to_le_bytes(c.exp);
    assert(claims_bytes(c).subrange(0, 16) =~= a);
    assert(claims_bytes(c).subrange(16, 24) =~= b);
}

/// A text is a valid token for at most one claim set under a key.
pub proof fn lemma_token_unique(token: Seq<char>, c1: Claims, c2: Claims, key: Seq<char>)
    requires
        is_token_for(token, c1, key),
        is_token_for(token, c2, key),
    ensures
        c1 == c2,
{
    let s1 = choose|sig: Seq<u8>|
        hmac_sha256_of(key, claims_bytes(c1)) == Some(sig) && #[trigger] is_hex_of(
            token,
            claims_bytes(c1) + sig,
        );
    let s2 = choose|sig: Seq<u8>|
        hmac_sha256_of(key, claims_bytes(c2)) == Some(sig) && #[trigger] is_hex_of(
            token,
            claims_bytes(c2) + sig,
        );
    lemma_hex_injective(token, claims_bytes(c1) + s1, claims_bytes(c2) + s2);
    lemma_claims_bytes(c1);
    lemma_claims_bytes(c2);
    assert((claims_bytes(c1) + s1).subrange(0, 24) =~= claims_bytes(c1));
    assert((claims_bytes(c2) + s2).subrange(0, 24) =~= claims_bytes(c2));
}

/// A token issued for `c` under `key` carries exactly `c`.
pub proof fn lemma_signed_claims_of_token(token: Seq<char>, c: Claims, key: Seq<char>)
    requires
        is_token_for(token, c, key),
    ensures
        signed_claims(token, key) == Some(c),
{
    let d = choose|d: Claims| is_token_for(token, d, key);
    lemma_token_unique(token, c, d, key);
}

/// Decides the outcome of validation from decoded claims and the time: the
/// subject while the token has not expired, otherwise not authorized.
pub fn check_claims(decoded: Option<Claims>, now: u64) -> (r: Result<u128, AuthError>)
    ensures
        r == claims_outcome(decoded, now),
{
    match decoded {
        Some(c) => if now < c.exp {
            Ok(c.sub)
        } else {
            Err(AuthError::NotAuthorized)
        },
        None => Err(AuthError::NotAuthorized),
    }
}

/// Compares two tags of equal length without stopping at the first
/// difference.
fn tags_equal(a: &[u8], b: &[u8]) -> (r: bool)
    requires
        a@.len() == b@.len(),
    ensures
        r == (a@ == b@),
{
    let mut same = true;
    let mut i: usize = 0;
    assert(a@.subrange(0, 0) =~= b@.subrange(0, 0));
    while i < a.len()
        invariant
            i <= a@.len(),
            a@.len() == b@.len(),
            same == (a@.subrange(0, i as int) == b@.subrange(0, i as int)),
        decreases a@.len() - i,
    {
        proof {
            assert(a@.subrange(0, i + 1) =~= a@.subrange(0, i as int).push(a@[i as int]));
            assert(b@.subrange(0, i + 1) =~= b@.subrange(0, i as int).push(b@[i as int]));
            if a@.subrange(0, i + 1) == b@.subrange(0, i + 1) {
                assert(a@.subrange(0, i + 1)[i as int] == b@.subrange(0, i + 1)[i as int]);
                assert(a@.subrange(0, i as int) =~= a@.subrange(0, i + 1).drop_last());
                assert(b@.subrange(0, i as int) =~= b@.subrange(0, i + 1).drop_last());
            }
        }
        let eq = a[i] == b[i];
        same = same && eq;
        i = i + 1;
    }
    assert(a@.subrange(0, a@.len() as int) =~= a@);
    assert(b@.subrange(0, b@.len() as int) =~= b@);
    same
}

/// Reads the claims out of a token with a valid signature under `key`.
fn decode_signed(token: &str, key: &str) -> (r: Option<Claims>)
    ensures
        r == signed_claims(token@, key@),
{
    let cs = chars_of(token);
    let decoded = hex_decode(&cs);
    let bytes = match decoded {
        Some(b) => b,
        None => {
            proof {
                assert forall|c: Claims| !is_token_for(token@, c, key@) by {
                    if is_token_for(token@, c, key@) {
                        let sig = choose|sig: Seq<u8>|
                            sig.len() == SIG_LEN && hmac_sha256_of(key@, claims_bytes(c)) == Some(sig)
                                && #[trigger] is_hex_of(token@, claims_bytes(c) + sig);
                        assert(!is_hex_of(cs@, claims_bytes(c) + sig));
                    }
                }
            }
            return None;
        },
    };
    if bytes.len() != CLAIMS_LEN + SIG_LEN {
        proof {
            assert forall|c: Claims| !is_token_for(token@, c, key@) by {
                if is_token_for(token@, c, key@) {
                    let sig = choose|sig: Seq<u8>|
                        sig.len() == SIG_LEN && hmac_sha256_of(key@, claims_bytes(c)) == Some(sig)
                            && #[trigger] is_hex_of(token@, claims_bytes(c) + sig);
                    lemma_hex_injective(token@, claims_bytes(c) + sig, bytes@);
                    lemma_claims_bytes(c);
                }
            }
        }
        return None;
    }
    let all: &[u8] = bytes.as_slice();
    let claim_part: &[u8] = slice_subrange(all, 0, CLAIMS_LEN);
    let tag_part: &[u8] = slice_subrange(all, CLAIMS_LEN, CLAIMS_LEN + SIG_LEN);
    let sub = u128_from_le_bytes(slice_subrange(claim_part, 0, 16));
    let exp = u64_from_le_bytes(slice_subrange(claim_part, 16, 24));
    let c = Claims { sub, exp };
    let msg = slice_to_vec(claim_part);
    proof {
        lemma_auto_spec_u128_to_from_le_bytes();
        lemma_auto_spec_u64_to_from_le_bytes();
        assert(claim_part@ =~= bytes@.subrange(0, 24));
        assert(claim_part@.subrange(0, 16) =~= bytes@.subrange(0, 16));
        assert(claim_part@.subrange(16, 24) =~= bytes@.subrange(16, 24));
        assert(claims_bytes(c) =~= msg@);
        assert(bytes@ =~= msg@ + tag_part@);
    }
    let tag = hmac_sha256(key, &msg);
    match tag {
        Some(t) => {
            if tags_equal(t.as_slice(), tag_part) {
                proof {
                    assert(is_token_for(token@, c, key@));
                    lemma_signed_claims_of_token(token@, c, key@);
                }
                Some(c)
            } else {
                proof {
                    assert forall|d: Claims| !is_token_for(token@, d, key@) by {
                        if is_token_for(token@, d, key@) {
                            let sig = choose|sig: Seq<u8>|
                                sig.len() == SIG_LEN && hmac_sha256_of(key@, claims_bytes(d)) == Some(sig)
                                    && #[trigger] is_hex_of(token@, claims_bytes(d) + sig);
                            lemma_hex_injective(token@, claims_bytes(d) + sig, bytes@);
                            lemma_claims_bytes(d);
                            assert((claims_bytes(d) + sig).subrange(0, 24) =~= claims_bytes(d));
                            assert((claims_bytes(d) + sig).subrange(24, 56) =~= sig);
                            assert(bytes@.subrange(24, 56) =~= tag_part@);
                            assert(bytes@.subrange(0, 24) =~= msg@);
                        }
                    }
                }
                None
            }
        },
        None => {
            proof {
                assert forall|d: Claims| !is_token_for(token@, d, key@) by {
                    if is_token_for(token@, d, key@) {
                        let sig = choose|sig: Seq<u8>|
                            sig.len() == SIG_LEN && hmac_sha256_of(key@, claims_bytes(d)) == Some(sig)
                                && #[trigger] is_hex_of(token@, claims_bytes(d) + sig);
                        lemma_hex_injective(token@, claims_bytes(d) + sig, bytes@);
                        lemma_claims_bytes(d);
                        assert((claims_bytes(d) + sig).subrange(0, 24) =~= claims_bytes(d));
                        assert(bytes@.subrange(0, 24) =~= msg@);
                    }
                }
            }
            None
        },
    }
}

impl CryptoService {
    /// Issues a token for `user_id` at time `now` that expires
    /// `TOKEN_TTL_SECS` later, signed with the signing key.
    pub fn issue(&self, user_id: u128, now: u64) -> (r: Result<String, AuthError>)
        requires
            now <= u64::MAX - TOKEN_TTL_SECS,
        ensures
            ({
                let c = Claims { sub: user_id, exp: (now + TOKEN_TTL_SECS) as u64 };
                match r {
                    Ok(t) => is_token_for(t@, c, (*self.jwt_secret)@),
                    Err(e) => e == AuthError::SigningFailed && hmac_sha256_of(
                        (*self.jwt_secret)@,
                        claims_bytes(c),
                    ) is None,
                }
            }),
    {
        let c = Claims { sub: user_id, exp: now + TOKEN_TTL_SECS };
        let mut msg = u128_to_le_bytes(user_id);
        let mut tail = u64_to_le_bytes(c.exp);
        msg.append(&mut tail);
        assert(msg@ =~= claims_bytes(c));
        let key: &String = &self.jwt_secret;
        match hmac_sha256(key.as_str(), &msg) {
            Some(sig) => {
                let mut all = msg.clone();
                let mut s = sig.clone();
                all.append(&mut s);
                let cs = hex_encode(&all);
                let t = string_of(cs);
                assert(is_hex_of(t@, claims_bytes(c) + sig@));
                Ok(t)
            },
            None => Err(AuthError::SigningFailed),
        }
    }

    /// Resolves a token to the user it names: `Ok(user_id)` when its
    /// signature verifies under the signing key and it has not expired at
    /// `now`; `NotAuthorized` for every other text.
    pub fn validate(&self, token: &str, now: u64) -> (r: Result<u128, AuthError>)
        ensures
            r == claims_outcome(signed_claims(token@, (*self.jwt_secret)@), now),
    {
        let key: &String = &self.jwt_secret;
        let decoded = decode_signed(token, key.as_str());
        check_claims(decoded, now)
    }
}

/// A token validates to its subject at any time before its expiry.
pub proof fn law_issued_token_validates(token: Seq<char>, c: Claims, key: Seq<char>, now: u64)
    requires
        is_token_for(token, c, key),
        now < c.exp,
    ensures
        claims_outcome(signed_claims(token, key), now) == Ok::<u128, AuthError>(c.sub),
{
    lemma_signed_claims_of_token(token, c, key);
}

/// A validly signed token is refused once its expiry has been reached.
pub proof fn law_expired_token_refused(token: Seq<char>, c: Claims, key: Seq<char>, now: u64)
    requires
        is_token_for(token, c, key),
        c.exp <= now,
    ensures
        claims_outcome(signed_claims(token, key), now) == Err::<u128, AuthError>(
            AuthError::NotAuthorized,
        ),
{
    lemma_signed_claims_of_token(token, c, key);
}

/// A token signed under one key is refused under another key, for every
/// claim set whose tag differs between the two keys.
pub proof fn law_other_key_refused(
    token: Seq<char>,
    c: Claims,
    key: Seq<char>,
    other: Seq<char>,
    now: u64,
)
    requires
        is_token_for(token, c, key),
        forall|d: Claims| #[trigger]
            hmac_sha256_of(other, claims_bytes(d)) != hmac_sha256_of(key, claims_bytes(d)),
    ensures
        claims_outcome(signed_claims(token, other), now) == Err::<u128, AuthError>(
            AuthError::NotAuthorized,
        ),
{
    if exists|d: Claims| is_token_for(token, d, other) {
        let d = choose|d: Claims| is_token_for(token, d, other);
        let s1 = choose|sig: Seq<u8>|
            sig.len() == SIG_LEN && hmac_sha256_of(key, claims_bytes(c)) == Some(sig) && #[trigger] is_hex_of(
                token,
                claims_bytes(c) + sig,
            );
        let s2 = choose|sig: Seq<u8>|
            sig.len() == SIG_LEN && hmac_sha256_of(other, claims_bytes(d)) == Some(sig) && #[trigger] is_hex_of(
                token,
                claims_bytes(d) + sig,
            );
        lemma_hex_injective(token, claims_bytes(c) + s1, claims_bytes(d) + s2);
        lemma_claims_bytes(c);
        lemma_claims_bytes(d);
        assert((claims_bytes(c) + s1).subrange(0, 24) =~= claims_bytes(c));
        assert((claims_bytes(d) + s2).subrange(0, 24) =~= claims_bytes(d));
        assert((claims_bytes(c) + s1).subrange(24, (claims_bytes(c) + s1).len() as int) =~= s1);
        assert((claims_bytes(d) + s2).subrange(24, (claims_bytes(d) + s2).len() as int) =~= s2);
        assert(hmac_sha256_of(other, claims_bytes(d)) != hmac_sha256_of(key, claims_bytes(d)));
    }
}

} // verus!
