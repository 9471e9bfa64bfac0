//! Token validation: a token is a self-contained, locally verifiable
//! credential of the form `account.name.issued.signature`, checked against a
//! shared secret and an expiry window without contacting the issuing
//! authority. Validity is a pure function of the token text, the secret and
//! the current time.

use vstd::prelude::*;
use crate::text::{all_digits, decimal_val, parse_decimal};
use crate::text::concat_strs;

verus! {

/// Modulus of the rolling signature hash.
pub const SIG_MODULUS: u64 = 1_000_000_007;

/// Why a token was rejected.
#[derive(Clone, Copy, Debug, PartialEq, Eq, Structural)]
pub enum TokenError {
    /// The token does not have the `account.name.issued.signature` shape.
    Malformed,
    /// The embedded signature does not match the payload and secret.
    SignatureInvalid,
    /// The embedded issue time is older than the configured expiry window.
    Expired,
    /// The embedded account id is not the claimed one.
    AccountMismatch,
}

/// The reason text for each kind of token rejection.
pub open spec fn spec_error_message(e: TokenError) -> Seq<char> {
    match e {
        TokenError::Malformed => "malformed token"@,
        TokenError::SignatureInvalid => "invalid token signature"@,
        TokenError::Expired => "expired token, please log in again"@,
        TokenError::AccountMismatch => "token belongs to a different account"@,
    }
}

impl TokenError {
    /// Human-readable reason, sent to the client in a login-failure packet.
    pub fn error_message(&self) -> (r: String)
        ensures
            r@ == spec_error_message(*self),
    {
        match *self {
            TokenError::Malformed => "malformed token".to_owned(),
            TokenError::SignatureInvalid => "invalid token signature".to_owned(),
            TokenError::Expired => "expired token, please log in again".to_owned(),
            TokenError::AccountMismatch => "token belongs to a different account".to_owned(),
        }
    }
}

/// Rolling polynomial hash of `s`, seeded with `h0`.
pub open spec fn poly_hash_from(s: Seq<char>, h0: nat) -> nat
    decreases s.len(),
{
    if s.len() == 0 {
        h0
    } else {
        (poly_hash_from(s.drop_last(), h0) * 31 + s.last() as nat) % (SIG_MODULUS as nat)
    }
}

/// The signature of a token payload under a shared secret: the rolling hash
/// of the payload, continued through the secret.
pub open spec fn spec_signature(payload: Seq<char>, secret: Seq<char>) -> nat {
    poly_hash_from(secret, poly_hash_from(payload, 0))
}

/// Index of the first `'.'` at or after `i`, or `s.len()` if there is none.
pub open spec fn first_dot_at(s: Seq<char>, i: int) -> int
    decreases s.len() - i
        when 0 <= i <= s.len()
{
    if i >= s.len() {
        s.len() as int
    } else if s[i] == '.' {
        i
    } else {
        first_dot_at(s, i + 1)
    }
}

/// Index of the last `'.'` strictly before `i`, or `-1` if there is none.
pub open spec fn last_dot_before(s: Seq<char>, i: int) -> int
    decreases i
        when 0 <= i <= s.len()
{
    if i <= 0 {
        -1
    } else if s[i - 1] == '.' {
        i - 1
    } else {
        last_dot_before(s, i - 1)
    }
}

/// The decoded fields of a token.
pub struct TokenParts {
    /// Account id embedded in the token.
    pub account: nat,
    /// Display name embedded in the token.
    pub name: Seq<char>,
    /// Issue time embedded in the token, in seconds.
    pub issued: nat,
    /// Signature embedded in the token.
    pub sig: nat,
    /// The signed part: everything before the final separator.
    pub payload: Seq<char>,
}

/// Decode a token: the part before the first dot is the account id, the part
/// after the last dot is the signature, the part before that dot and after
/// the second-to-last is the issue time, and whatever lies between belongs to
/// the display name.
pub open spec fn parse_token(s: Seq<char>) -> Option<TokenParts> {
    let d1 = first_dot_at(s, 0);
    let d3 = last_dot_before(s, s.len() as int);
    if !(1 <= d1 && d1 < s.len() && 1 <= d3) {
        None
    } else {
        let d2 = last_dot_before(s, d3);
        if !(d1 < d2 && d2 < d3) {
            None
        } else {
            let id_s = s.take(d1);
            let name = s.subrange(d1 + 1, d2);
            let issued_s = s.subrange(d2 + 1, d3);
            let sig_s = s.subrange(d3 + 1, s.len() as int);
            if all_digits(id_s) && decimal_val(id_s) <= i32::MAX && name.len() > 0 && issued_s.len()
                > 0 && all_digits(issued_s) && decimal_val(issued_s) <= u64::MAX && sig_s.len() > 0
                && all_digits(sig_s) && decimal_val(sig_s) <= u64::MAX {
                Some(
                    TokenParts {
                        account: decimal_val(id_s),
                        name,
                        issued: decimal_val(issued_s),
                        sig: decimal_val(sig_s),
                        payload: s.take(d3),
                    },
                )
            } else {
                None
            }
        }
    }
}

/// The token's issue time lies further in the past than the expiry window.
pub open spec fn token_expired(issued: nat, now: nat, expiry: nat) -> bool {
    now > issued + expiry
}

/// What validation returns, as a pure function of the token text, the claimed
/// account, the current time, the shared secret, and the expiry window.
pub open spec fn spec_validate(
    s: Seq<char>,
    account_id: int,
    now: nat,
    secret: Seq<char>,
    expiry: nat,
) -> Result<Seq<char>, TokenError> {
    match parse_token(s) {
        Option::None => Result::Err(TokenError::Malformed),
        Option::Some(p) => {
            if p.sig != spec_signature(p.payload, secret) {
                Result::Err(TokenError::SignatureInvalid)
            } else if token_expired(p.issued, now, expiry) {
                Result::Err(TokenError::Expired)
            } else if p.account != account_id {
                Result::Err(TokenError::AccountMismatch)
            } else {
                Result::Ok(p.name)
            }
        },
    }
}

/// Continue the rolling hash over the characters of `s`, starting from `h0`.
fn hash_chars_from(s: &str, h0: u64) -> (r: u64)
    requires
        h0 < SIG_MODULUS,
    ensures
        r == poly_hash_from(s@, h0 as nat),
        r < SIG_MODULUS,
{
    let n = s.unicode_len();
    let mut h: u64 = h0;
    let mut i: usize = 0;
    while i < n
        invariant
            0 <= i <= n,
            n == s@.len(),
            h == poly_hash_from(s@.take(i as int), h0 as nat),
            h < SIG_MODULUS,
        decreases n - i,
    {
        let c = s.get_char(i);
        let cu = c as u64;
        h = (h * 31 + cu) % SIG_MODULUS;
        proof {
            assert(s@.take(i + 1).drop_last() =~= s@.take(i as int));
        }
        i = i + 1;
    }
    proof {
        assert(s@.take(n as int) =~= s@);
    }
    h
}

/// Signature of `payload` under `secret`.
pub fn token_signature(payload: &str, secret: &str) -> (r: u64)
    ensures
        r == spec_signature(payload@, secret@),
{
    let h = hash_chars_from(payload, 0);
    hash_chars_from(secret, h)
}

/// Index of the first `'.'` in `s`, or its length if there is none.
fn find_first_dot(s: &str) -> (r: usize)
    ensures
        r as int == first_dot_at(s@, 0),
        r <= s@.len(),
{
    let n = s.unicode_len();
    let mut i: usize = 0;
    while i < n
        invariant
            0 <= i <= n,
            n == s@.len(),
            first_dot_at(s@, 0) == first_dot_at(s@, i as int),
        decreases n - i,
    {
        let c = s.get_char(i);
        if c == '.' {
            return i;
        }
        i = i + 1;
    }
    n
}

/// Index of the last `'.'` strictly before `end`, if any.
fn find_last_dot_before(s: &str, end: usize) -> (r: Option<usize>)
    requires
        end <= s@.len(),
    ensures
        match r {
            Some(k) => k as int == last_dot_before(s@, end as int) && k < end,
            None => last_dot_before(s@, end as int) == -1,
        },
{
    let mut j: usize = end;
    while j > 0
        invariant
            0 <= j <= end,
            end <= s@.len(),
            last_dot_before(s@, end as int) == last_dot_before(s@, j as int),
        decreases j,
    {
        let c = s.get_char(j - 1);
        if c == '.' {
            return Some(j - 1);
        }
        j = j - 1;
    }
    None
}

/// Validate a client-supplied token against the claimed account id, the
/// current time, the shared secret and the configured expiry window. On
/// success the embedded display name is returned; every failure is reported
/// with the reason the decision procedure found first: shape, then signature,
/// then expiry, then account.
pub fn validate(
    account_id: i32,
    token: &str,
    now: u64,
    secret: &str,
    token_expiry: u64,
) -> (r: Result<String, TokenError>)
    ensures
        match r {
            Result::Ok(name) => spec_validate(
                token@,
                account_id as int,
                now as nat,
                secret@,
                token_expiry as nat,
            ) == Result::<Seq<char>, TokenError>::Ok(name@),
            Result::Err(e) => spec_validate(
                token@,
                account_id as int,
                now as nat,
                secret@,
                token_expiry as nat,
            ) == Result::<Seq<char>, TokenError>::Err(e),
        },
{
    let n = token.unicode_len();
    let d1 = find_first_dot(token);
    if !(1 <= d1 && d1 < n) {
        return Err(TokenError::Malformed);
    }
    let d3 = match find_last_dot_before(token, n) {
        Some(k) => k,
        None => {
            return Err(TokenError::Malformed);
        },
    };
    if d3 < 1 {
        return Err(TokenError::Malformed);
    }
    let d2 = match find_last_dot_before(token, d3) {
        Some(k) => k,
        None => {
            return Err(TokenError::Malformed);
        },
    };
    if !(d1 < d2 && d2 < d3) {
        return Err(TokenError::Malformed);
    }
    let id_str = token.substring_char(0, d1);
    let issued_str = token.substring_char(d2 + 1, d3);
    let sig_str = token.substring_char(d3 + 1, n);
    if d2 - d1 <= 1 {
        // empty display name
        return Err(TokenError::Malformed);
    }
    let id_val = match parse_decimal(id_str) {
        Some(v) => v,
        None => {
            return Err(TokenError::Malformed);
        },
    };
    if id_val > i32::MAX as u64 {
        return Err(TokenError::Malformed);
    }
    let issued = match parse_decimal(issued_str) {
        Some(v) => v,
        None => {
            return Err(TokenError::Malformed);
        },
    };
    let sig = match parse_decimal(sig_str) {
        Some(v) => v,
        None => {
            return Err(TokenError::Malformed);
        },
    };
    let payload = token.substring_char(0, d3);
    let expected = token_signature(payload, secret);
    if sig != expected {
        return Err(TokenError::SignatureInvalid);
    }
    if now > issued && now - issued > token_expiry {
        return Err(TokenError::Expired);
    }
    if !(account_id >= 0 && id_val == account_id as u64) {
        return Err(TokenError::AccountMismatch);
    }
    let name_str = token.substring_char(d1 + 1, d2);
    Ok(name_str.to_owned())
}

/// The rolling hash stays below the modulus whenever it starts below it.
pub proof fn lemma_poly_hash_bound(s: Seq<char>, h0: nat)
    requires
        h0 < SIG_MODULUS,
    ensures
        poly_hash_from(s, h0) < SIG_MODULUS,
    decreases s.len(),
{
    if s.len() > 0 {
        lemma_poly_hash_bound(s.drop_last(), h0);
    }
}

/// If position `k` holds the first dot at or after `i`, the search finds it.
proof fn lemma_first_dot_found(s: Seq<char>, i: int, k: int)
    requires
        0 <= i <= k < s.len(),
        s[k] == '.',
        forall|j: int| i <= j < k ==> s[j] != '.',
    ensures
        first_dot_at(s, i) == k,
    decreases k - i,
{
    if i < k {
        lemma_first_dot_found(s, i + 1, k);
    }
}

/// If position `k` holds the last dot before `end`, the search finds it.
proof fn lemma_last_dot_found(s: Seq<char>, end: int, k: int)
    requires
        0 <= k < end <= s.len(),
        s[k] == '.',
        forall|j: int| k < j < end ==> s[j] != '.',
    ensures
        last_dot_before(s, end) == k,
    decreases end - k,
{
    if k < end - 1 {
        lemma_last_dot_found(s, end - 1, k);
    }
}

/// Round trip: a token assembled from an account id, a non-empty display name
/// and an issue time, and signed with a secret, always validates under the
/// same secret for that account, at any time within the expiry window — and
/// yields the name verbatim.
pub proof fn lemma_issue_validate_round_trip(
    account: nat,
    name: Seq<char>,
    issued: nat,
    secret: Seq<char>,
    now: nat,
    expiry: nat,
)
    requires
        0 < account <= i32::MAX,
        issued <= u64::MAX,
        name.len() > 0,
        now <= issued + expiry,
    ensures
        ({
            let payload = crate::text::decimal_seq(account) + "."@ + name + "."@
                + crate::text::decimal_seq(issued);
            let token = payload + "."@ + crate::text::decimal_seq(spec_signature(payload, secret));
            spec_validate(token, account as int, now, secret, expiry)
                == Result::<Seq<char>, TokenError>::Ok(name)
        }),
{
    reveal_strlit(".");
    let id_s = crate::text::decimal_seq(account);
    let issued_s = crate::text::decimal_seq(issued);
    let sig = spec_signature(payload_of(account, name, issued), secret);
    let sig_s = crate::text::decimal_seq(sig);
    let payload = payload_of(account, name, issued);
    let token = payload + "."@ + sig_s;
    crate::text::lemma_decimal_seq_digits(account);
    crate::text::lemma_decimal_seq_digits(issued);
    crate::text::lemma_decimal_seq_digits(sig);
    crate::text::lemma_decimal_seq_value(account);
    crate::text::lemma_decimal_seq_value(issued);
    crate::text::lemma_decimal_seq_value(sig);
    lemma_poly_hash_bound(payload, 0);
    lemma_poly_hash_bound(secret, poly_hash_from(payload, 0));
    let d1 = id_s.len() as int;
    let d2 = d1 + 1 + name.len() as int;
    let d3 = d2 + 1 + issued_s.len() as int;
    let n = token.len() as int;
    assert(token[d1] == '.');
    assert(token[d2] == '.');
    assert(token[d3] == '.');
    assert forall|j: int| 0 <= j < d1 implies token[j] != '.' by {
        assert(token[j] == id_s[j]);
        assert(crate::text::is_digit(id_s[j]));
    }
    assert forall|j: int| d2 < j < d3 implies token[j] != '.' by {
        assert(token[j] == issued_s[j - d2 - 1]);
        assert(crate::text::is_digit(issued_s[j - d2 - 1]));
    }
    assert forall|j: int| d3 < j < n implies token[j] != '.' by {
        assert(token[j] == sig_s[j - d3 - 1]);
        assert(crate::text::is_digit(sig_s[j - d3 - 1]));
    }
    lemma_first_dot_found(token, 0, d1);
    lemma_last_dot_found(token, n, d3);
    lemma_last_dot_found(token, d3, d2);
    assert(token.take(d1) =~= id_s);
    assert(token.subrange(d1 + 1, d2) =~= name);
    assert(token.subrange(d2 + 1, d3) =~= issued_s);
    assert(token.subrange(d3 + 1, n) =~= sig_s);
    assert(token.take(d3) =~= payload);
    assert(parse_token(token) is Some);
    assert(!token_expired(issued, now, expiry));
}

/// The signed part of a token built from these fields.
pub open spec fn payload_of(account: nat, name: Seq<char>, issued: nat) -> Seq<char> {
    crate::text::decimal_seq(account) + "."@ + name + "."@ + crate::text::decimal_seq(issued)
}

/// Assemble a token for `account_id`, `name` and `issued`, signed with
/// `secret`. This is what the issuing authority produces; the server itself
/// only validates. The result always decodes back to its inputs provided the
/// name is non-empty and free of separator dots.
pub fn issue_token(account_id: i32, name: &str, issued: u64, secret: &str) -> (r: String)
    requires
        account_id >= 0,
    ensures
        ({
            let payload = payload_of(account_id as nat, name@, issued as nat);
            r@ == payload + "."@ + crate::text::decimal_seq(
                spec_signature(payload, secret@) as nat,
            )
        }),
{
    let id_str = crate::text::render_decimal(account_id as u64);
    let issued_str = crate::text::render_decimal(issued);
    let a = concat_strs(id_str.as_str(), ".");
    let b = concat_strs(a.as_str(), name);
    let c = concat_strs(b.as_str(), ".");
    let payload = concat_strs(c.as_str(), issued_str.as_str());
    let sig = token_signature(payload.as_str(), secret);
    let sig_str = crate::text::render_decimal(sig);
    let d = concat_strs(payload.as_str(), ".");
    let r = concat_strs(d.as_str(), sig_str.as_str());
    r
}

} // verus!
