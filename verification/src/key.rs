//! Scoped idempotency-key derivation.

use crate::error::IdempotencyError;
use vstd::prelude::*;
use vstd::string::is_ascii_spec_bytes;

verus! {

/// Characters a scope may hold: `[a-z0-9_.-]`.
pub open spec fn is_scope_char(c: char) -> bool {
    'a' <= c <= 'z' || '0' <= c <= '9' || c == '_' || c == '.' || c == '-'
}

/// Scopes match `[a-z0-9_.-]{1,64}`.
pub open spec fn valid_scope(scope: Seq<char>) -> bool {
    &&& 1 <= scope.len() <= 64
    &&& forall|i: int| 0 <= i < scope.len() ==> is_scope_char(#[trigger] scope[i])
}

/// The lowercase hexadecimal digit of `n`, for `n` below sixteen.
pub open spec fn hex_digit(n: int) -> char {
    if n < 10 {
        ('0' as int + n) as char
    } else {
        ('a' as int + n - 10) as char
    }
}

/// `bytes` in lowercase hexadecimal: two digits per byte, the high one first.
pub open spec fn hex_text(bytes: Seq<u8>) -> Seq<char> {
    Seq::new(
        bytes.len() * 2,
        |i: int|
            hex_digit(
                if i % 2 == 0 {
                    bytes[i / 2] as int / 16
                } else {
                    bytes[i / 2] as int % 16
                },
            ),
    )
}

/// Lowercase hexadecimal digits: `[0-9a-f]`.
pub open spec fn is_hex_char(c: char) -> bool {
    '0' <= c <= '9' || 'a' <= c <= 'f'
}

/// The text of a 256-bit digest: 64 lowercase hexadecimal digits.
pub open spec fn valid_hex(hex: Seq<char>) -> bool {
    &&& hex.len() == 64
    &&& forall|i: int| 0 <= i < hex.len() ==> is_hex_char(#[trigger] hex[i])
}

/// A key in its stored and transported form: `"{scope}:{hex}"`.
pub open spec fn key_text(scope: Seq<char>, hex: Seq<char>) -> Seq<char> {
    scope + seq![':'] + hex
}

/// The BLAKE3-256 digest of `bytes`.
pub uninterp spec fn blake3_digest(bytes: Seq<u8>) -> Seq<u8>;

/// Calls `blake3::hash`, the unkeyed BLAKE3 hash with 32 bytes of output.
/// Trusted: the digest depends on the input bytes alone, and
/// [`blake3_digest`] names it.
#[verifier::external_body]
fn blake3_hash(bytes: &[u8]) -> (digest: [u8; 32])
    ensures
        digest@ == blake3_digest(bytes@),
{
    *blake3::hash(bytes).as_bytes()
}

/// Calls `hex::encode`. Trusted: every byte is written as two lowercase
/// hexadecimal digits, the high one first.
#[verifier::external_body]
fn hex_encode(bytes: &[u8]) -> (text: String)
    ensures
        text@ == hex_text(bytes@),
{
    hex::encode(bytes)
}

/// Whether `scope` matches `[a-z0-9_.-]{1,64}`.
///
/// The charset keeps keys safe as Redis key fragments, URL path segments,
/// and database identifiers without escaping, and excludes the `':'` that
/// separates the scope from the digest.
pub fn is_valid_scope(scope: &str) -> (valid: bool)
    ensures
        valid == valid_scope(scope@),
{
    broadcast use is_ascii_spec_bytes;

    if !scope.is_ascii() {
        return false;
    }
    let bytes = scope.as_bytes();
    if bytes.len() < 1 || bytes.len() > 64 {
        return false;
    }
    let mut i: usize = 0;
    while i < bytes.len()
        invariant
            i <= bytes@.len() == scope@.len(),
            forall|j: int| 0 <= j < scope@.len() ==> bytes@[j] == scope@[j] as u8,
            forall|j: int| 0 <= j < scope@.len() ==> '\0' <= #[trigger] scope@[j] <= '\u{7f}',
            forall|j: int| 0 <= j < i ==> is_scope_char(#[trigger] scope@[j]),
        decreases bytes.len() - i,
    {
        let c = bytes[i] as char;
        assert(c == scope@[i as int]);
        if !matches!(c, 'a'..='z' | '0'..='9' | '_' | '.' | '-') {
            return false;
        }
        i = i + 1;
    }
    true
}

/// The mathematical value of an [`IdempotencyKey`].
pub struct KeyView {
    /// The scope the key was derived under.
    pub scope: Seq<char>,
    /// The digest of the request bytes, in hexadecimal.
    pub hex: Seq<char>,
}

impl KeyView {
    /// What derivation promises of the parts of a key.
    pub open spec fn wf(self) -> bool {
        valid_scope(self.scope) && valid_hex(self.hex)
    }

    /// The key as stored and transported.
    pub open spec fn text(self) -> Seq<char> {
        key_text(self.scope, self.hex)
    }
}

/// The key derived from a scope and the digest of the request bytes.
pub open spec fn derived_key(scope: Seq<char>, digest: Seq<u8>) -> KeyView {
    KeyView { scope, hex: hex_text(digest) }
}

/// A derived idempotency key: `"{scope}:{blake3-hex}"`.
///
/// Derivation is deterministic: the same scope and request bytes always
/// produce the same key, so independent processes (or retries after a crash)
/// converge on the same claim without sharing pre-derived secrets.
#[derive(Debug, PartialEq, Eq, Hash, PartialOrd, Ord)]
pub struct IdempotencyKey {
    /// The full `"{scope}:{hex}"` form.
    rendered: String,
    /// The validated scope.
    scope: String,
}

impl View for IdempotencyKey {
    type V = KeyView;

    closed spec fn view(&self) -> KeyView {
        KeyView { scope: self.scope@, hex: self.rendered@.skip(self.scope@.len() as int + 1) }
    }
}

impl IdempotencyKey {
    /// The scope is valid, and the rendered form is the scope, a colon and
    /// 64 hexadecimal digits.
    #[verifier::type_invariant]
    spec fn rendered_from_parts(self) -> bool {
        self@.wf() && self.rendered@ == self@.text()
    }

    /// Derive a key from a scope and the canonical request bytes.
    ///
    /// The digest is BLAKE3-256 over `request_bytes`, hex-encoded (64
    /// lowercase hex characters), prefixed with the scope. Callers should
    /// hash over a *canonical* serialization of the request (stable field
    /// order, normalized types) so semantically identical requests map to
    /// the same key.
    ///
    /// # Errors
    ///
    /// [`IdempotencyError::InvalidScope`], with the rejected scope, unless
    /// `scope` matches `[a-z0-9_.-]{1,64}`.
    pub fn derive(scope: &str, request_bytes: &[u8]) -> (derived: Result<Self, IdempotencyError>)
        ensures
            match derived {
                Ok(key) => {
                    &&& valid_scope(scope@)
                    &&& key@ == derived_key(scope@, blake3_digest(request_bytes@))
                    &&& key@.scope == scope@
                    &&& key@.hex == hex_text(blake3_digest(request_bytes@))
                    &&& key@.wf()
                },
                Err(error) => {
                    &&& !valid_scope(scope@)
                    &&& error matches IdempotencyError::InvalidScope { scope: rejected }
                    &&& rejected@ == scope@
                },
            },
    {
        if !is_valid_scope(scope) {
            return Err(IdempotencyError::InvalidScope { scope: scope.to_owned() });
        }
        let digest = blake3_hash(request_bytes);
        Ok(Self::from_digest(scope, &digest))
    }

    /// The key for a valid scope and the digest of the request bytes.
    pub fn from_digest(scope: &str, digest: &[u8; 32]) -> (key: Self)
        requires
            valid_scope(scope@),
        ensures
            key@ == derived_key(scope@, digest@),
            key@.scope == scope@,
            key@.hex == hex_text(digest@),
            key@.wf(),
    {
        let hex = hex_encode(digest.as_slice());
        let mut rendered = scope.to_owned();
        rendered.append(":");
        rendered.append(hex.as_str());
        proof {
            reveal_strlit(":");
            lemma_hex_text_valid(digest@);
            assert(":"@ =~= seq![':']);
            assert(rendered@.skip(scope@.len() as int + 1) =~= hex@);
        }
        IdempotencyKey { rendered, scope: scope.to_owned() }
    }

    /// The full key as stored and transported: `"{scope}:{hex}"`.
    #[must_use]
    pub fn as_str(&self) -> (text: &str)
        ensures
            text@ == self@.text(),
            self@.wf(),
    {
        proof {
            use_type_invariant(self);
        }
        self.rendered.as_str()
    }

    /// The validated scope this key was derived under.
    #[must_use]
    pub fn scope(&self) -> (scope: &str)
        ensures
            scope@ == self@.scope,
            valid_scope(scope@),
    {
        proof {
            use_type_invariant(self);
        }
        self.scope.as_str()
    }

    /// The hex-encoded BLAKE3 digest (64 lowercase hex characters).
    #[must_use]
    pub fn hex(&self) -> (hex: &str)
        ensures
            hex@ == self@.hex,
            valid_hex(hex@),
    {
        broadcast use is_ascii_spec_bytes;

        proof {
            use_type_invariant(self);
        }
        let rendered = self.rendered.as_str();
        let scope = self.scope.as_str();
        assert(scope.is_ascii());
        assert(rendered.is_ascii());
        let hex = rendered.substring_ascii(scope.len() + 1, rendered.len());
        assert(hex@ =~= self@.hex);
        hex
    }

    /// The key as an owned string, in its stored and transported form.
    pub fn to_string(&self) -> (text: String)
        ensures
            text@ == self@.text(),
    {
        self.as_str().to_owned()
    }
}

impl Clone for IdempotencyKey {
    fn clone(&self) -> (copy: Self)
        ensures
            copy@ == self@,
    {
        proof {
            use_type_invariant(self);
        }
        IdempotencyKey { rendered: self.rendered.clone(), scope: self.scope.clone() }
    }
}

/// Hexadecimal text of 32 bytes is 64 lowercase hexadecimal digits.
proof fn lemma_hex_text_valid(digest: Seq<u8>)
    requires
        digest.len() == 32,
    ensures
        valid_hex(hex_text(digest)),
{
    assert forall|i: int| 0 <= i < 64 implies is_hex_char(#[trigger] hex_text(digest)[i]) by {
        let byte = digest[i / 2];
        assert(0 <= byte as int / 16 < 16);
        assert(0 <= byte as int % 16 < 16);
    }
}

/// Hexadecimal text determines the bytes it was written from.
proof fn lemma_hex_text_injective(a: Seq<u8>, b: Seq<u8>)
    requires
        hex_text(a) == hex_text(b),
    ensures
        a == b,
{
    assert(hex_text(a).len() == a.len() * 2);
    assert(hex_text(b).len() == b.len() * 2);
    assert forall|i: int| 0 <= i < a.len() implies a[i] == b[i] by {
        assert(hex_text(a)[2 * i] == hex_digit(a[i] as int / 16));
        assert(hex_text(b)[2 * i] == hex_digit(b[i] as int / 16));
        assert(hex_text(a)[2 * i + 1] == hex_digit(a[i] as int % 16));
        assert(hex_text(b)[2 * i + 1] == hex_digit(b[i] as int % 16));
    }
    assert(a =~= b);
}

/// A key's text determines its scope and its digest: keys derived under
/// different scopes never share a claim, whatever the request.
pub proof fn law_text_determines_key(a: KeyView, b: KeyView)
    requires
        a.wf(),
        b.wf(),
        a.text() == b.text(),
    ensures
        a.scope == b.scope,
        a.hex == b.hex,
{
    assert(a.text().len() == a.scope.len() + 65);
    assert(b.text().len() == b.scope.len() + 65);
    assert(a.scope =~= a.text().take(a.scope.len() as int));
    assert(b.scope =~= b.text().take(a.scope.len() as int));
    assert(a.hex =~= a.text().skip(a.scope.len() + 1int));
    assert(b.hex =~= b.text().skip(a.scope.len() + 1int));
}

/// Under one scope, two requests have the same key if and only if their
/// digests are the same.
pub proof fn law_digest_determines_key(scope: Seq<char>, a: Seq<u8>, b: Seq<u8>)
    requires
        valid_scope(scope),
        a.len() == 32,
        b.len() == 32,
    ensures
        derived_key(scope, a).wf(),
        (derived_key(scope, a).text() == derived_key(scope, b).text()) <==> a == b,
{
    lemma_hex_text_valid(a);
    lemma_hex_text_valid(b);
    if derived_key(scope, a).text() == derived_key(scope, b).text() {
        law_text_determines_key(derived_key(scope, a), derived_key(scope, b));
        lemma_hex_text_injective(a, b);
    }
}

/// The shape of a key: the scope, one colon, 64 hexadecimal digits. All its
/// characters but that colon are in `[a-z0-9_.-]`. It takes at most 129
/// characters, and at most 128 under any scope shorter than the longest.
pub proof fn law_key_shape(key: KeyView)
    requires
        key.wf(),
    ensures
        key.text().len() == key.scope.len() + 1 + 64,
        key.text().len() <= 129,
        key.scope.len() < 64 ==> key.text().len() <= 128,
        key.text().take(key.scope.len() as int) == key.scope,
        key.text()[key.scope.len() as int] == ':',
        forall|i: int|
            0 <= i < key.text().len() && i != key.scope.len() ==> is_scope_char(
                #[trigger] key.text()[i],
            ),
{
    let n = key.scope.len() as int;
    assert(key.text().take(n) =~= key.scope);
    assert forall|i: int| 0 <= i < key.text().len() && i != n implies is_scope_char(
        #[trigger] key.text()[i],
    ) by {
        if i < n {
            assert(is_scope_char(key.scope[i]));
        } else {
            assert(is_hex_char(key.hex[i - n - 1]));
        }
    }
}

/// Which scopes are accepted, character by character: 1 to 64 lowercase ASCII
/// letters, ASCII digits, underscores, dots and hyphens.
pub proof fn law_accepted_scopes(scope: &str, valid: bool)
    requires
        call_ensures(is_valid_scope, (scope,), valid),
    ensures
        valid <==> (1 <= scope@.len() <= 64 && forall|i: int|
            #![trigger scope@[i]]
            0 <= i < scope@.len() ==> ('a' <= scope@[i] <= 'z' || '0' <= scope@[i] <= '9'
                || scope@[i] == '_' || scope@[i] == '.' || scope@[i] == '-')),
{
    if valid {
        assert(forall|i: int| 0 <= i < scope@.len() ==> is_scope_char(#[trigger] scope@[i]));
    }
}

/// A key is well-formed if and only if its scope is an accepted one and its
/// digest is 64 lowercase hexadecimal digits.
pub proof fn law_well_formed_keys(key: KeyView)
    ensures
        key.wf() <==> (1 <= key.scope.len() <= 64 && key.hex.len() == 64 && (forall|i: int|
            #![trigger key.scope[i]]
            0 <= i < key.scope.len() ==> ('a' <= key.scope[i] <= 'z' || '0' <= key.scope[i] <= '9'
                || key.scope[i] == '_' || key.scope[i] == '.' || key.scope[i] == '-')) && (forall|
            i: int,
        |
            #![trigger key.hex[i]]
            0 <= i < key.hex.len() ==> ('0' <= key.hex[i] <= '9' || 'a' <= key.hex[i] <= 'f'))),
{
    if key.wf() {
        assert(forall|i: int| 0 <= i < key.scope.len() ==> is_scope_char(#[trigger] key.scope[i]));
        assert(forall|i: int| 0 <= i < key.hex.len() ==> is_hex_char(#[trigger] key.hex[i]));
    }
}

/// Every byte is written as two lowercase hexadecimal digits: the one for its
/// high half, then the one for its low half.
pub proof fn law_hex_digits(bytes: Seq<u8>, i: int)
    requires
        0 <= i < bytes.len(),
    ensures
        hex_text(bytes).len() == 2 * bytes.len(),
        hex_text(bytes)[2 * i] == "0123456789abcdef"@[bytes[i] as int / 16],
        hex_text(bytes)[2 * i + 1] == "0123456789abcdef"@[bytes[i] as int % 16],
{
    reveal_strlit("0123456789abcdef");
    assert((2 * i + 1) / 2 == i);
    assert(0 <= bytes[i] as int / 16 < 16);
    assert(0 <= bytes[i] as int % 16 < 16);
}

/// Derivation keeps the scope whole and appends the whole digest: the text is
/// the scope, a colon and the digest in hexadecimal. It fails if and only if
/// the scope is not an accepted one, and reports that very scope.
pub proof fn law_derivation(
    scope: &str,
    request_bytes: &[u8],
    derived: Result<IdempotencyKey, IdempotencyError>,
)
    requires
        call_ensures(IdempotencyKey::derive, (scope, request_bytes), derived),
    ensures
        match derived {
            Ok(key) => {
                &&& key@.scope == scope@
                &&& key@.hex == hex_text(blake3_digest(request_bytes@))
                &&& key@.text() == scope@ + seq![':'] + hex_text(blake3_digest(request_bytes@))
                &&& key@.wf()
            },
            Err(error) => {
                &&& error matches IdempotencyError::InvalidScope { scope: rejected }
                &&& rejected@ == scope@
            },
        },
        derived is Ok <==> (1 <= scope@.len() <= 64 && forall|i: int|
            #![trigger scope@[i]]
            0 <= i < scope@.len() ==> ('a' <= scope@[i] <= 'z' || '0' <= scope@[i] <= '9'
                || scope@[i] == '_' || scope@[i] == '.' || scope@[i] == '-')),
{
    if derived is Ok {
        assert(forall|i: int| 0 <= i < scope@.len() ==> is_scope_char(#[trigger] scope@[i]));
    }
}

/// A key made from a digest keeps the scope whole and the digest whole.
pub proof fn law_key_from_digest(scope: &str, digest: &[u8; 32], key: IdempotencyKey)
    requires
        call_ensures(IdempotencyKey::from_digest, (scope, digest), key),
    ensures
        key@.scope == scope@,
        key@.hex == hex_text(digest@),
        key@.text() == scope@ + seq![':'] + hex_text(digest@),
{
}

/// What the accessors hand out fits together: the text is the scope, a colon
/// and the digest, and a copy is the same key.
pub proof fn law_key_parts(
    key: &IdempotencyKey,
    text: &str,
    scope: &str,
    hex: &str,
    owned: String,
    copy: IdempotencyKey,
)
    requires
        call_ensures(IdempotencyKey::as_str, (key,), text),
        call_ensures(IdempotencyKey::scope, (key,), scope),
        call_ensures(IdempotencyKey::hex, (key,), hex),
        call_ensures(IdempotencyKey::to_string, (key,), owned),
        call_ensures(<IdempotencyKey as Clone>::clone, (key,), copy),
    ensures
        text@ == scope@ + seq![':'] + hex@,
        owned@ == text@,
        scope@ == key@.scope,
        hex@ == key@.hex,
        hex@.len() == 64,
        1 <= scope@.len() <= 64,
        copy@.scope == scope@,
        copy@.hex == hex@,
{
}

/// Scopes namespace keys: what two derivations make is the same key if and
/// only if they were given the same scope and requests with the same digest.
/// So different scopes never share a claim, and derivation is deterministic.
pub proof fn law_scopes_namespace_keys(
    scope_a: &str,
    bytes_a: &[u8],
    a: IdempotencyKey,
    scope_b: &str,
    bytes_b: &[u8],
    b: IdempotencyKey,
)
    requires
        call_ensures(
            IdempotencyKey::derive,
            (scope_a, bytes_a),
            Ok::<IdempotencyKey, IdempotencyError>(a),
        ),
        call_ensures(
            IdempotencyKey::derive,
            (scope_b, bytes_b),
            Ok::<IdempotencyKey, IdempotencyError>(b),
        ),
    ensures
        scope_a@ != scope_b@ ==> a@.text() != b@.text(),
        a@.text() == b@.text() <==> (scope_a@ == scope_b@ && blake3_digest(bytes_a@)
            == blake3_digest(bytes_b@)),
{
    if a@.text() == b@.text() {
        law_text_determines_key(a@, b@);
        lemma_hex_text_injective(blake3_digest(bytes_a@), blake3_digest(bytes_b@));
    }
}

/// The same of keys made from digests.
pub proof fn law_scopes_namespace_digests(
    scope_a: Seq<char>,
    digest_a: Seq<u8>,
    scope_b: Seq<char>,
    digest_b: Seq<u8>,
)
    requires
        valid_scope(scope_a),
        valid_scope(scope_b),
        digest_a.len() == 32,
        digest_b.len() == 32,
    ensures
        derived_key(scope_a, digest_a).scope == scope_a,
        derived_key(scope_a, digest_a).hex == hex_text(digest_a),
        (derived_key(scope_a, digest_a).text() == derived_key(scope_b, digest_b).text()) <==> (
        scope_a == scope_b && digest_a == digest_b),
{
    lemma_hex_text_valid(digest_a);
    lemma_hex_text_valid(digest_b);
    if derived_key(scope_a, digest_a).text() == derived_key(scope_b, digest_b).text() {
        law_text_determines_key(derived_key(scope_a, digest_a), derived_key(scope_b, digest_b));
        lemma_hex_text_injective(digest_a, digest_b);
    }
}

} // verus!
