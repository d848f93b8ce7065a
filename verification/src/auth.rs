//! Sign-in tokens: HS256 JSON Web Tokens carrying the role (and the class of
//! a class teacher), valid for a number of hours.
use vstd::prelude::*;

verus! {

/// The claims of an administrator token.
#[derive(Debug, Clone)]
pub struct AdminClaims {
    pub role: String,
    pub exp: usize,
}

/// The claims of a class-teacher token. Grade 0, class 0 is the teacher of
/// the graduates.
#[derive(Debug, Clone)]
pub struct TeacherClaims {
    pub role: String,
    pub grade: i64,
    pub class_no: i64,
    pub exp: usize,
}

/// The teacher in charge of graduates rather than of a class.
pub fn is_grad_teacher(claims: &TeacherClaims) -> (b: bool)
    ensures
        b == (claims.grade == 0 && claims.class_no == 0),
{
    claims.grade == 0 && claims.class_no == 0
}

/// The current time in seconds since the Unix epoch
/// (`jsonwebtoken::get_current_timestamp`). Nothing is claimed of the value:
/// it is the clock's.
#[verifier::external_body]
fn current_timestamp() -> u64 {
    jsonwebtoken::get_current_timestamp()
}

/// The expiry `hours` hours after `now` (seconds since the epoch); the largest
/// `usize` when that moment does not fit.
pub open spec fn expiry_spec(now: u64, hours: u64) -> usize {
    if now + hours * 3600 <= usize::MAX {
        (now + hours * 3600) as usize
    } else {
        usize::MAX
    }
}

/// The expiry `hours` hours after `now` (seconds since the epoch); the
/// largest value when that moment does not fit.
pub fn expiry_after(now: u64, hours: u64) -> (r: usize)
    ensures
        now + hours * 3600 <= usize::MAX ==> r == now + hours * 3600,
        now + hours * 3600 > usize::MAX ==> r == usize::MAX,
        r == expiry_spec(now, hours),
{
    if hours > (usize::MAX as u64) / 3600 {
        return usize::MAX;
    }
    let add: u64 = hours * 3600;
    if now > (usize::MAX as u64) - add {
        return usize::MAX;
    }
    (now + add) as usize
}

/// The expiry `hours` hours from now (the clock's reading).
pub fn expiry_secs(hours: u64) -> (r: usize)
    ensures
        hours * 3600 <= usize::MAX ==> r >= hours * 3600,
        exists|now: u64| r == #[trigger] expiry_spec(now, hours),
{
    expiry_after(current_timestamp(), hours)
}

/// The byte of an ASCII character.
pub open spec fn ascii_byte(c: char) -> u8 {
    (c as u32) as u8
}

/// The bytes of ASCII text.
pub open spec fn ascii_bytes(s: Seq<char>) -> Seq<u8> {
    s.map_values(|c: char| ascii_byte(c))
}

/// All characters are ASCII.
pub open spec fn all_ascii(s: Seq<char>) -> bool {
    forall|k: int| 0 <= k < s.len() ==> (#[trigger] s[k] as u32) < 128
}

fn push_ascii(out: &mut Vec<u8>, s: &Vec<char>)
    requires
        all_ascii(s@),
    ensures
        final(out)@ == old(out)@ + ascii_bytes(s@),
{
    let ghost start = out@;
    let mut i: usize = 0;
    while i < s.len()
        invariant
            i <= s@.len(),
            all_ascii(s@),
            out@ == start + ascii_bytes(s@.take(i as int)),
        decreases s@.len() - i,
    {
        let c = s[i];
        assert((c as u32) < 128);
        out.push((c as u32) as u8);
        i = i + 1;
        assert(ascii_bytes(s@.take(i as int)) =~= ascii_bytes(s@.take(i - 1)).push(ascii_byte(c)));
        assert(out@ =~= start + ascii_bytes(s@.take(i as int)));
    }
    assert(s@.take(s@.len() as int) =~= s@);
}

/// The base64url alphabet.
pub open spec fn b64_char(v: int) -> char {
    if v < 26 {
        (65 + v) as char
    } else if v < 52 {
        (97 + v - 26) as char
    } else if v < 62 {
        (48 + v - 52) as char
    } else if v == 62 {
        '-'
    } else {
        '_'
    }
}

/// Base64url without padding (RFC 4648 §5), as `URL_SAFE_NO_PAD` writes it.
pub open spec fn b64url(b: Seq<u8>) -> Seq<char>
    decreases b.len(),
{
    if b.len() == 0 {
        Seq::empty()
    } else {
        let x = b[0] as int;
        let y = if b.len() > 1 { b[1] as int } else { 0 };
        let z = if b.len() > 2 { b[2] as int } else { 0 };
        if b.len() == 1 {
            seq![b64_char(x / 4), b64_char((x % 4) * 16)]
        } else if b.len() == 2 {
            seq![b64_char(x / 4), b64_char((x % 4) * 16 + y / 16), b64_char((y % 16) * 4)]
        } else {
            seq![b64_char(x / 4), b64_char((x % 4) * 16 + y / 16), b64_char((y % 16) * 4 + z / 64), b64_char(z % 64)]
                + b64url(b.subrange(3, b.len() as int))
        }
    }
}

fn b64_digit(v: u8) -> (c: char)
    requires
        v < 64,
    ensures
        c == b64_char(v as int),
{
    if v < 26 {
        (65 + v) as char
    } else if v < 52 {
        (97 + v - 26) as char
    } else if v < 62 {
        (48 + v - 52) as char
    } else if v == 62 {
        '-'
    } else {
        '_'
    }
}

/// Encodes bytes in base64url without padding.
pub fn b64url_encode(b: &Vec<u8>) -> (r: Vec<char>)
    ensures
        r@ == b64url(b@),
{
    let n = b.len();
    let mut out: Vec<char> = Vec::new();
    let mut i: usize = 0;
    assert(b@.subrange(0, n as int) =~= b@);
    while i < n
        invariant
            n == b@.len(),
            i <= n,
            out@ + b64url(b@.subrange(i as int, n as int)) == b64url(b@),
        decreases n - i,
    {
        let ghost rest = b@.subrange(i as int, n as int);
        let x = b[i];
        if n - i == 1 {
            out.push(b64_digit(x / 4));
            out.push(b64_digit((x % 4) * 16));
            i = n;
            assert(b@.subrange(i as int, n as int) =~= Seq::<u8>::empty());
            assert(out@ =~= b64url(b@));
        } else if n - i == 2 {
            let y = b[i + 1];
            out.push(b64_digit(x / 4));
            out.push(b64_digit((x % 4) * 16 + y / 16));
            out.push(b64_digit((y % 16) * 4));
            i = n;
            assert(b@.subrange(i as int, n as int) =~= Seq::<u8>::empty());
            assert(out@ =~= b64url(b@));
        } else {
            let y = b[i + 1];
            let z = b[i + 2];
            let ghost before = out@;
            out.push(b64_digit(x / 4));
            out.push(b64_digit((x % 4) * 16 + y / 16));
            out.push(b64_digit((y % 16) * 4 + z / 64));
            out.push(b64_digit(z % 64));
            assert(rest.subrange(3, rest.len() as int) =~= b@.subrange(i + 3, n as int));
            i = i + 3;
            assert(out@ + b64url(b@.subrange(i as int, n as int)) =~= before + b64url(rest));
        }
    }
    assert(b@.subrange(n as int, n as int) =~= Seq::<u8>::empty());
    assert(out@ =~= b64url(b@));
    out
}

/// The HS256 signature of a message with a secret, in base64url: what
/// `jsonwebtoken::crypto::sign` returns for HS256 (HMAC-SHA-256, then
/// base64url without padding). A function of its arguments alone.
pub uninterp spec fn hs256_signature(message: Seq<u8>, secret: Seq<char>) -> Seq<char>;

/// Signs with HS256 (`jsonwebtoken::crypto::sign` with a key made by
/// `EncodingKey::from_secret` from the secret's bytes). The crate's source
/// returns `Ok` for HS256 with an HMAC key; the contract claims only that the
/// result is the signature of this message with this secret.
#[verifier::external_body]
fn sign_hs256(message: &Vec<u8>, secret: &str) -> (r: String)
    ensures
        r@ == hs256_signature(message@, secret@),
{
    let key = jsonwebtoken::EncodingKey::from_secret(secret.as_bytes());
    match jsonwebtoken::crypto::sign(message.as_slice(), &key, jsonwebtoken::Algorithm::HS256) {
        Ok(s) => s,
        Err(_) => String::new(),
    }
}

/// The JSON of the default header: `{"typ":"JWT","alg":"HS256"}`.
pub open spec fn header_json() -> Seq<char> {
    "{\"typ\":\"JWT\",\"alg\":\"HS256\"}"@
}

/// The JSON of administrator claims.
pub open spec fn admin_json(exp: usize) -> Seq<char> {
    "{\"role\":\"admin\",\"exp\":"@ + crate::text::decimal(exp as nat) + "}"@
}

/// The JSON of class-teacher claims.
pub open spec fn teacher_json(grade: i64, class_no: i64, exp: usize) -> Seq<char> {
    "{\"role\":\"teacher\",\"grade\":"@ + crate::text::int_text(grade as int) + ",\"class_no\":"@ + crate::text::int_text(
        class_no as int,
    ) + ",\"exp\":"@ + crate::text::decimal(exp as nat) + "}"@
}

/// A token: header and claims in base64url, joined by dots, then the
/// signature of those two parts.
pub open spec fn token_text(claims_json: Seq<char>, secret: Seq<char>) -> Seq<char> {
    let message = b64url(ascii_bytes(header_json())) + "."@ + b64url(ascii_bytes(claims_json));
    message + "."@ + hs256_signature(ascii_bytes(message), secret)
}

proof fn lemma_decimal_ascii(n: nat)
    ensures
        all_ascii(crate::text::decimal(n)),
{
    crate::text::lemma_decimal_digits(n);
    let d = crate::text::decimal(n);
    assert forall|k: int| 0 <= k < d.len() implies (#[trigger] d[k] as u32) < 128 by {
        assert(crate::text::is_digit(d[k]));
    }
}

proof fn lemma_int_ascii(v: int)
    ensures
        all_ascii(crate::text::int_text(v)),
{
    if v < 0 {
        lemma_decimal_ascii((-v) as nat);
        let t = crate::text::int_text(v);
        assert forall|k: int| 0 <= k < t.len() implies (#[trigger] t[k] as u32) < 128 by {
            if k > 0 {
                assert(t[k] == crate::text::decimal((-v) as nat)[k - 1]);
            }
        }
    } else {
        lemma_decimal_ascii(v as nat);
    }
}

proof fn lemma_concat_ascii(a: Seq<char>, b: Seq<char>)
    requires
        all_ascii(a),
        all_ascii(b),
    ensures
        all_ascii(a + b),
        ascii_bytes(a + b) == ascii_bytes(a) + ascii_bytes(b),
{
    assert forall|k: int| 0 <= k < (a + b).len() implies (#[trigger] (a + b)[k] as u32) < 128 by {
        if k < a.len() {
            assert((a + b)[k] == a[k]);
        } else {
            assert((a + b)[k] == b[k - a.len()]);
        }
    }
    assert(ascii_bytes(a + b) =~= ascii_bytes(a) + ascii_bytes(b));
}

fn sign_token(claims_json: &Vec<char>, secret: &str) -> (t: String)
    requires
        all_ascii(claims_json@),
    ensures
        t@ == token_text(claims_json@, secret@),
{
    let header = crate::text::chars_of("{\"typ\":\"JWT\",\"alg\":\"HS256\"}");
    proof {
        reveal_strlit("{\"typ\":\"JWT\",\"alg\":\"HS256\"}");
        assert(all_ascii(header@));
    }
    let mut hb: Vec<u8> = Vec::new();
    push_ascii(&mut hb, &header);
    let mut cb: Vec<u8> = Vec::new();
    push_ascii(&mut cb, claims_json);
    assert(hb@ =~= ascii_bytes(header_json()));
    assert(cb@ =~= ascii_bytes(claims_json@));
    let mut message = b64url_encode(&hb);
    message.push('.');
    let enc_claims = b64url_encode(&cb);
    crate::text::push_all(&mut message, &enc_claims);
    proof {
        let hpart = b64url(hb@);
        let cpart = b64url(cb@);
        lemma_b64_ascii(hb@);
        lemma_b64_ascii(cb@);
        reveal_strlit(".");
        assert(all_ascii(seq!['.']));
        lemma_concat_ascii(hpart, seq!['.']);
        lemma_concat_ascii(hpart + seq!['.'], cpart);
        assert(message@ =~= hpart + seq!['.'] + cpart);
    }
    let mut mb: Vec<u8> = Vec::new();
    push_ascii(&mut mb, &message);
    let sig = sign_hs256(&mb, secret);
    let ghost msg = message@;
    proof {
        reveal_strlit(".");
        assert(msg =~= b64url(ascii_bytes(header_json())) + "."@ + b64url(ascii_bytes(claims_json@)));
        assert(mb@ =~= ascii_bytes(msg));
    }
    let mut t = message;
    t.push('.');
    crate::text::push_all(&mut t, &crate::text::chars_of(sig.as_str()));
    proof {
        reveal_strlit(".");
        assert(t@ =~= msg + "."@ + sig@);
        assert(t@ =~= token_text(claims_json@, secret@));
    }
    crate::text::string_of(&t)
}

proof fn lemma_b64_ascii(b: Seq<u8>)
    ensures
        all_ascii(b64url(b)),
    decreases b.len(),
{
    let r = b64url(b);
    if b.len() >= 3 {
        lemma_b64_ascii(b.subrange(3, b.len() as int));
        let rest = b64url(b.subrange(3, b.len() as int));
        assert forall|k: int| 0 <= k < r.len() implies (#[trigger] r[k] as u32) < 128 by {
            if k >= 4 {
                assert(r[k] == rest[k - 4]);
            }
        }
    }
}

/// The administrator token issued at `now` (seconds since the epoch), expiring
/// 12 hours later.
pub fn encode_admin_token_at(now: u64, secret: &str) -> (t: String)
    ensures
        t@ == token_text(admin_json(expiry_spec(now, 12)), secret@),
{
    let exp = expiry_after(now, 12);
    let mut j = crate::text::chars_of("{\"role\":\"admin\",\"exp\":");
    crate::text::push_decimal(&mut j, exp as u64);
    j.push('}');
    proof {
        reveal_strlit("{\"role\":\"admin\",\"exp\":");
        reveal_strlit("}");
        lemma_decimal_ascii(exp as nat);
        assert(j@ =~= admin_json(exp));
        let p = "{\"role\":\"admin\",\"exp\":"@;
        assert(all_ascii(p));
        lemma_concat_ascii(p, crate::text::decimal(exp as nat));
        lemma_concat_ascii(p + crate::text::decimal(exp as nat), seq!['}']);
    }
    sign_token(&j, secret)
}

/// A token for the administrator, valid for 12 hours from the clock's reading.
pub fn encode_admin_token(secret: &str) -> (t: String)
    ensures
        exists|now: u64| t@ == token_text(admin_json(#[trigger] expiry_spec(now, 12)), secret@),
{
    encode_admin_token_at(current_timestamp(), secret)
}

/// The token of the teacher of a class (grade 0, class 0: the graduates) issued
/// at `now`, expiring 12 hours later.
pub fn encode_teacher_token_at(grade: i64, class_no: i64, now: u64, secret: &str) -> (t: String)
    ensures
        t@ == token_text(teacher_json(grade, class_no, expiry_spec(now, 12)), secret@),
{
    let exp = expiry_after(now, 12);
    let mut j = crate::text::chars_of("{\"role\":\"teacher\",\"grade\":");
    crate::text::push_all(&mut j, &crate::text::i64_text(grade));
    crate::text::append_str(&mut j, ",\"class_no\":");
    crate::text::push_all(&mut j, &crate::text::i64_text(class_no));
    crate::text::append_str(&mut j, ",\"exp\":");
    crate::text::push_decimal(&mut j, exp as u64);
    j.push('}');
    proof {
        let a = "{\"role\":\"teacher\",\"grade\":"@;
        let b = ",\"class_no\":"@;
        let c = ",\"exp\":"@;
        reveal_strlit("{\"role\":\"teacher\",\"grade\":");
        reveal_strlit(",\"class_no\":");
        reveal_strlit(",\"exp\":");
        reveal_strlit("}");
        assert(j@ =~= teacher_json(grade, class_no, exp));
        assert(all_ascii(a) && all_ascii(b) && all_ascii(c) && all_ascii(seq!['}']));
        lemma_int_ascii(grade as int);
        lemma_int_ascii(class_no as int);
        lemma_decimal_ascii(exp as nat);
        let g = crate::text::int_text(grade as int);
        let cl = crate::text::int_text(class_no as int);
        let e = crate::text::decimal(exp as nat);
        lemma_concat_ascii(a, g);
        lemma_concat_ascii(a + g, b);
        lemma_concat_ascii(a + g + b, cl);
        lemma_concat_ascii(a + g + b + cl, c);
        lemma_concat_ascii(a + g + b + cl + c, e);
        lemma_concat_ascii(a + g + b + cl + c + e, seq!['}']);
    }
    sign_token(&j, secret)
}

/// A token for the teacher of a class (grade 0, class 0: the graduates),
/// valid for 12 hours from the clock's reading.
pub fn encode_teacher_token(grade: i64, class_no: i64, secret: &str) -> (t: String)
    ensures
        exists|now: u64| t@ == token_text(teacher_json(grade, class_no, #[trigger] expiry_spec(now, 12)), secret@),
{
    encode_teacher_token_at(grade, class_no, current_timestamp(), secret)
}

/// The claims found in a token whose signature and expiry checked out, each field
/// present only when the token's JSON holds it with the right type.
#[derive(Debug, Clone)]
pub struct DecodedClaims {
    pub role: Option<String>,
    pub grade: Option<i64>,
    pub class_no: Option<i64>,
    pub exp: Option<u64>,
}

/// Decoded claims as plain values: `(role, grade, class_no, exp)`.
pub open spec fn claims_view(d: DecodedClaims) -> (Option<Seq<char>>, Option<i64>, Option<i64>, Option<u64>) {
    (
        match d.role {
            Some(r) => Some(r@),
            None => None,
        },
        d.grade,
        d.class_no,
        d.exp,
    )
}

/// The claims that a token's payload holds, read as `jsonwebtoken::decode` reads
/// them (the middle part of the token, base64url-decoded and parsed as JSON) and
/// picked field by field: a function of the token's text alone.
pub uninterp spec fn token_claims(token: Seq<char>) -> (Option<Seq<char>>, Option<i64>, Option<i64>, Option<u64>);

/// `jsonwebtoken::decode` with a key made by `DecodingKey::from_secret` and the
/// default validation (HS256, signature, and expiry against the clock), the claims
/// read as JSON and their fields picked. Whether a token is accepted rests on the
/// clock (the expiry), so success is not stated. What the crate's source shows of
/// an accepted token is stated: the token is a message, a dot, and the HS256
/// signature of the message's bytes with this secret (`verify_signature` re-signs
/// the message with HS256, the only algorithm the default validation admits, and
/// compares); the message is ASCII, its two parts having been read as base64url.
/// The claims of an accepted token are the named claims of its payload; for a
/// token written as `token_text` writes it, they are the fields of the claims
/// JSON it wrote (the crate splits the token at its dots, decodes the middle
/// part from base64url and parses it as JSON). A wrong signature, an expired or
/// a malformed token gives `Err` with the crate's message.
#[verifier::external_body]
fn decode_claims(token: &str, secret: &str) -> (r: Result<DecodedClaims, String>)
    ensures
        r is Ok ==> signed_with(token@, secret@),
        r matches Ok(d) ==> claims_view(d) == token_claims(token@),
        r matches Ok(d) ==> forall|e: usize|
            token@ == #[trigger] token_text(admin_json(e), secret@) ==> claims_view(d) == (
                Some("admin"@),
                None::<i64>,
                None::<i64>,
                Some(e as u64),
            ),
        r matches Ok(d) ==> forall|g: i64, c: i64, e: usize|
            token@ == #[trigger] token_text(teacher_json(g, c, e), secret@) ==> claims_view(d) == (
                Some("teacher"@),
                Some(g),
                Some(c),
                Some(e as u64),
            ),
{
    let key = jsonwebtoken::DecodingKey::from_secret(secret.as_bytes());
    let data = jsonwebtoken::decode::<serde_json::Value>(token, &key, &jsonwebtoken::Validation::default())
        .map_err(|e| e.to_string())?;
    let c = &data.claims;
    Ok(DecodedClaims {
        role: c.get("role").and_then(|v| v.as_str()).map(String::from),
        grade: c.get("grade").and_then(|v| v.as_i64()),
        class_no: c.get("class_no").and_then(|v| v.as_i64()),
        exp: c.get("exp").and_then(|v| v.as_u64()),
    })
}

/// The token is a message and its HS256 signature with `secret`, joined by a dot.
pub open spec fn signed_with(token: Seq<char>, secret: Seq<char>) -> bool {
    exists|m: Seq<char>| all_ascii(m) && token == m + "."@ + #[trigger] hs256_signature(ascii_bytes(m), secret)
}

/// The administrator claims in decoded claims: the role must be `admin` and the
/// expiry must be present (and fit a `usize`).
pub open spec fn admin_claims_spec(d: (Option<Seq<char>>, Option<i64>, Option<i64>, Option<u64>)) -> Result<(Seq<char>, u64), Seq<char>> {
    match (d.0, d.3) {
        (Some(role), Some(exp)) => if exp > usize::MAX {
            Err("invalid claims"@)
        } else if role == "admin"@ {
            Ok((role, exp))
        } else {
            Err("not admin token"@)
        },
        _ => Err("invalid claims"@),
    }
}

/// The class-teacher claims in decoded claims: role `teacher`, with grade, class
/// number and expiry present.
pub open spec fn teacher_claims_spec(d: (Option<Seq<char>>, Option<i64>, Option<i64>, Option<u64>)) -> Result<(Seq<char>, i64, i64, u64), Seq<char>> {
    match d {
        (Some(role), Some(g), Some(c), Some(exp)) => if exp > usize::MAX {
            Err("invalid claims"@)
        } else if role == "teacher"@ {
            Ok((role, g, c, exp))
        } else {
            Err("not teacher token"@)
        },
        _ => Err("invalid claims"@),
    }
}

fn err_text(s: &str) -> (r: String)
    ensures
        r@ == s@,
{
    crate::text::string_of(&crate::text::chars_of(s))
}

/// Reads administrator claims out of decoded claims.
pub fn admin_claims_of(d: DecodedClaims) -> (r: Result<AdminClaims, String>)
    ensures
        match admin_claims_spec(claims_view(d)) {
            Ok((role, exp)) => r matches Ok(c) && c.role@ == role && c.exp == exp,
            Err(m) => r matches Err(e) && e@ == m,
        },
{
    match (d.role, d.exp) {
        (Some(role), Some(exp)) => {
            if exp > usize::MAX as u64 {
                Err(err_text("invalid claims"))
            } else if crate::text::str_is(role.as_str(), "admin") {
                Ok(AdminClaims { role, exp: exp as usize })
            } else {
                Err(err_text("not admin token"))
            }
        },
        _ => Err(err_text("invalid claims")),
    }
}

/// Reads class-teacher claims out of decoded claims.
pub fn teacher_claims_of(d: DecodedClaims) -> (r: Result<TeacherClaims, String>)
    ensures
        match teacher_claims_spec(claims_view(d)) {
            Ok((role, g, c, exp)) => r matches Ok(t) && t.role@ == role && t.grade == g && t.class_no == c
                && t.exp == exp,
            Err(m) => r matches Err(e) && e@ == m,
        },
{
    match (d.role, d.grade, d.class_no, d.exp) {
        (Some(role), Some(g), Some(c), Some(exp)) => {
            if exp > usize::MAX as u64 {
                Err(err_text("invalid claims"))
            } else if crate::text::str_is(role.as_str(), "teacher") {
                Ok(TeacherClaims { role, grade: g, class_no: c, exp: exp as usize })
            } else {
                Err(err_text("not teacher token"))
            }
        },
        _ => Err(err_text("invalid claims")),
    }
}

/// Checks an administrator token: signature and expiry, then the claims.
pub fn decode_admin_token(token: &str, secret: &str) -> (r: Result<AdminClaims, String>)
    ensures
        r matches Ok(c) ==> c.role@ == "admin"@ && signed_with(token@, secret@) && admin_claims_spec(token_claims(token@))
            == Ok::<(Seq<char>, u64), Seq<char>>((c.role@, c.exp as u64)),
        admin_claims_spec(token_claims(token@)) is Err ==> r is Err,
        r matches Ok(c) ==> forall|e: usize| token@ == #[trigger] token_text(admin_json(e), secret@) ==> c.exp == e,
        forall|g: i64, k: i64, e: usize| token@ == #[trigger] token_text(teacher_json(g, k, e), secret@) ==> r is Err,
{
    proof {
        reveal_strlit("admin");
        reveal_strlit("teacher");
        assert("admin"@ != "teacher"@) by {
            assert("admin"@.len() != "teacher"@.len());
        }
    }
    match decode_claims(token, secret) {
        Ok(d) => admin_claims_of(d),
        Err(e) => Err(e),
    }
}

/// Checks a class-teacher token: signature and expiry, then the claims.
pub fn decode_teacher_token(token: &str, secret: &str) -> (r: Result<TeacherClaims, String>)
    ensures
        r matches Ok(c) ==> c.role@ == "teacher"@ && signed_with(token@, secret@) && teacher_claims_spec(
            token_claims(token@),
        ) == Ok::<(Seq<char>, i64, i64, u64), Seq<char>>((c.role@, c.grade, c.class_no, c.exp as u64)),
        teacher_claims_spec(token_claims(token@)) is Err ==> r is Err,
        r matches Ok(c) ==> forall|g: i64, k: i64, e: usize|
            token@ == #[trigger] token_text(teacher_json(g, k, e), secret@) ==> c.grade == g && c.class_no == k
                && c.exp == e,
        forall|e: usize| token@ == #[trigger] token_text(admin_json(e), secret@) ==> r is Err,
{
    match decode_claims(token, secret) {
        Ok(d) => teacher_claims_of(d),
        Err(e) => Err(e),
    }
}

} // verus!
