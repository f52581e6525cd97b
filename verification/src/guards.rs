//! The values that a request carries in its headers, and how each header is
//! checked before a request is served.

use vstd::prelude::*;

use crate::error::ApiError;
use crate::hex_codec::{hex_digit_value, decode_text, decode_to_key, encode_lower, hex_decoding, hex_encoding, is_hex_text};

verus! {

/// The text of a header, if the request has it.
pub open spec fn header_text(header: Option<&str>) -> Option<Seq<char>> {
    match header {
        Some(s) => Some(s@),
        None => None,
    }
}

// ---------------------------------------------------------------------------
// Authentication keys
// ---------------------------------------------------------------------------

/// A 32-byte authentication key; it identifies a user and guards the vault.
#[derive(Clone, Copy)]
pub struct AuthKey(pub [u8; 32]);

/// A replacement authentication key, sent beside the current one.
#[derive(Clone, Copy)]
pub struct NewAuthKey(pub [u8; 32]);

/// What a key header gives: missing, not 64 hex digits, or the 32 bytes the
/// digits stand for.
pub open spec fn key_header_outcome(
    header: Option<Seq<char>>,
) -> Result<Seq<u8>, ApiError> {
    match header {
        None => Err(ApiError::AuthKeyMissing),
        Some(s) => if s.len() == 64 && is_hex_text(s) {
            Ok(hex_decoding(s))
        } else {
            Err(ApiError::AuthKeyInvalid)
        },
    }
}

/// Reads a key from the text of a key header.
fn key_bytes_from_header(header: Option<&str>) -> (r: Result<[u8; 32], ApiError>)
    ensures
        r matches Ok(k) ==> key_header_outcome(header_text(header)) == Ok::<Seq<u8>, ApiError>(k@),
        r matches Err(e) ==> key_header_outcome(header_text(header)) == Err::<Seq<u8>, ApiError>(e),
{
    match header {
        Some(key_str) => {
            let mut key_bytes = [0u8; 32];
            match decode_to_key(key_str, &mut key_bytes) {
                Ok(()) => Ok(key_bytes),
                Err(_) => Err(ApiError::AuthKeyInvalid),
            }
        },
        None => Err(ApiError::AuthKeyMissing),
    }
}

impl AuthKey {
    /// Checks the `x-auth-key` header: missing gives `AuthKeyMissing`,
    /// anything but 64 hex digits (of either case) gives `AuthKeyInvalid`.
    pub fn from_header(header: Option<&str>) -> (r: Result<AuthKey, ApiError>)
        ensures
            r matches Ok(k) ==> key_header_outcome(header_text(header)) == Ok::<Seq<u8>, ApiError>(k.0@),
            r matches Err(e) ==> key_header_outcome(header_text(header)) == Err::<Seq<u8>, ApiError>(e),
    {
        match key_bytes_from_header(header) {
            Ok(bytes) => Ok(AuthKey(bytes)),
            Err(e) => Err(e),
        }
    }

    /// The key as it is stored: 64 lowercase hex digits.
    pub fn to_hex(&self) -> (text: String)
        ensures
            text@ == hex_encoding(self.0@),
    {
        encode_lower(&self.0)
    }
}

impl NewAuthKey {
    /// Checks the `x-new-auth-key` header, as `AuthKey::from_header` does.
    pub fn from_header(header: Option<&str>) -> (r: Result<NewAuthKey, ApiError>)
        ensures
            r matches Ok(k) ==> key_header_outcome(header_text(header)) == Ok::<Seq<u8>, ApiError>(k.0@),
            r matches Err(e) ==> key_header_outcome(header_text(header)) == Err::<Seq<u8>, ApiError>(e),
    {
        match key_bytes_from_header(header) {
            Ok(bytes) => Ok(NewAuthKey(bytes)),
            Err(e) => Err(e),
        }
    }

    /// The key as it is stored: 64 lowercase hex digits.
    pub fn to_hex(&self) -> (text: String)
        ensures
            text@ == hex_encoding(self.0@),
    {
        encode_lower(&self.0)
    }
}

// ---------------------------------------------------------------------------
// Vaults
// ---------------------------------------------------------------------------

/// A user's encrypted vault, kept as hex text.
#[derive(Clone)]
pub struct Vault(pub String);

/// What an `x-vault` header gives: missing, not hex, or the text itself.
pub open spec fn vault_header_outcome(
    header: Option<Seq<char>>,
) -> Result<Seq<char>, ApiError> {
    match header {
        None => Err(ApiError::VaultMissing),
        Some(s) => if is_hex_text(s) {
            Ok(s)
        } else {
            Err(ApiError::VaultInvalid)
        },
    }
}

impl Vault {
    /// Checks the `x-vault` header: missing gives `VaultMissing`, text that
    /// does not decode as hex gives `VaultInvalid`; otherwise the text is kept
    /// as it came.
    pub fn from_header(header: Option<&str>) -> (r: Result<Vault, ApiError>)
        ensures
            r matches Ok(v) ==> vault_header_outcome(header_text(header)) == Ok::<Seq<char>, ApiError>(v.0@),
            r matches Err(e) ==> vault_header_outcome(header_text(header)) == Err::<Seq<char>, ApiError>(e),
    {
        match header {
            Some(vault_str) => {
                if decode_text(vault_str).is_ok() {
                    Ok(Vault(vault_str.to_owned()))
                } else {
                    Err(ApiError::VaultInvalid)
                }
            },
            None => Err(ApiError::VaultMissing),
        }
    }
}

// ---------------------------------------------------------------------------
// E-mail addresses
// ---------------------------------------------------------------------------

/// A user's e-mail address, which names the account.
pub struct Email(pub String);

/// How many times `c` occurs in `s`.
pub open spec fn count_of(s: Seq<char>, c: char) -> nat
    decreases s.len(),
{
    if s.len() == 0 {
        0
    } else {
        count_of(s.drop_last(), c) + if s.last() == c {
            1nat
        } else {
            0nat
        }
    }
}

/// An address of the shape `local@domain.tld`: it splits at '@' into exactly
/// two parts, and the part after the '@' splits at '.' into exactly two.
pub open spec fn is_valid_email(s: Seq<char>) -> bool {
    exists|i: int|
        0 <= i < s.len() && #[trigger] s[i] == '@' && count_of(s.take(i), '@') == 0 && count_of(
            s.skip(i + 1),
            '@',
        ) == 0 && count_of(s.skip(i + 1), '.') == 1
}

/// What an `x-email` header gives: missing, malformed, or the address.
pub open spec fn email_header_outcome(
    header: Option<Seq<char>>,
) -> Result<Seq<char>, ApiError> {
    match header {
        None => Err(ApiError::EmailMissing),
        Some(s) => if is_valid_email(s) {
            Ok(s)
        } else {
            Err(ApiError::EmailInvalid)
        },
    }
}

/// Counting over a concatenation adds the counts.
pub proof fn lemma_count_of_add(a: Seq<char>, b: Seq<char>, c: char)
    ensures
        count_of(a + b, c) == count_of(a, c) + count_of(b, c),
    decreases b.len(),
{
    if b.len() == 0 {
        assert(a + b =~= a);
    } else {
        lemma_count_of_add(a, b.drop_last(), c);
        assert((a + b).drop_last() =~= a + b.drop_last());
    }
}

/// A character that occurs somewhere is counted.
pub proof fn lemma_count_of_positive(s: Seq<char>, k: int, c: char)
    requires
        0 <= k < s.len(),
        s[k] == c,
    ensures
        count_of(s, c) >= 1,
    decreases s.len(),
{
    if k < s.len() - 1 {
        lemma_count_of_positive(s.drop_last(), k, c);
    }
}

/// Extending a prefix by one character counts that character.
proof fn lemma_count_of_step(s: Seq<char>, lo: int, hi: int, c: char)
    requires
        0 <= lo <= hi < s.len(),
    ensures
        count_of(s.subrange(lo, hi + 1), c) == count_of(s.subrange(lo, hi), c) + if s[hi] == c {
            1nat
        } else {
            0nat
        },
{
    assert(s.subrange(lo, hi + 1).drop_last() =~= s.subrange(lo, hi));
}

/// Capped at two: the checks only ask for "none", "one" or "more".
spec fn capped(n: nat) -> nat {
    if n < 2 {
        n
    } else {
        2
    }
}

/// Tells whether `s` is an address of the shape `local@domain.tld`.
pub fn check_email(s: &str) -> (valid: bool)
    ensures
        valid == is_valid_email(s@),
{
    let ghost text = s@;
    let mut ats: u8 = 0;
    let mut dots_after: u8 = 0;
    let ghost mut at_pos: int = 0;
    for c in it: s.chars()
        invariant
            it.seq() == text,
            0 <= it.index() <= text.len(),
            ats as nat == capped(count_of(text.take(it.index()), '@')),
            ats == 0 ==> dots_after == 0,
            ats >= 1 ==> {
                &&& 0 <= at_pos < it.index()
                &&& text[at_pos] == '@'
                &&& count_of(text.take(at_pos), '@') == 0
                &&& dots_after as nat == capped(count_of(text.subrange(at_pos + 1, it.index()), '.'))
            },
            ats >= 2 ==> count_of(text.subrange(at_pos + 1, it.index()), '@') >= 1,
            ats == 1 ==> count_of(text.subrange(at_pos + 1, it.index()), '@') == 0,
    {
        let ghost i = it.index();
        proof {
            lemma_count_of_step(text, 0, i, '@');
            assert(text.take(i) =~= text.subrange(0, i));
            assert(text.take(i + 1) =~= text.subrange(0, i + 1));
            if ats >= 1 {
                lemma_count_of_step(text, at_pos + 1, i, '.');
                lemma_count_of_step(text, at_pos + 1, i, '@');
            }
        }
        if c == '@' {
            if ats == 0 {
                proof {
                    at_pos = i;
                    assert(text.subrange(at_pos + 1, i + 1).len() == 0);
                }
            }
            if ats < 2 {
                ats = ats + 1;
            }
        } else if c == '.' && ats >= 1 {
            if dots_after < 2 {
                dots_after = dots_after + 1;
            }
        }
    }
    proof {
        assert(text.take(text.len() as int) =~= text);
        if ats == 1 && dots_after == 1 {
            assert(text.subrange(at_pos + 1, text.len() as int) =~= text.skip(at_pos + 1));
            assert(text[at_pos] == '@');
        }
        if is_valid_email(text) {
            let i = choose|i: int|
                0 <= i < text.len() && #[trigger] text[i] == '@' && count_of(text.take(i), '@') == 0
                    && count_of(text.skip(i + 1), '@') == 0 && count_of(text.skip(i + 1), '.') == 1;
            assert(text =~= text.take(i) + seq!['@'] + text.skip(i + 1));
            lemma_count_of_add(text.take(i) + seq!['@'], text.skip(i + 1), '@');
            lemma_count_of_add(text.take(i), seq!['@'], '@');
            assert(count_of(seq!['@'], '@') == 1) by {
                assert(seq!['@'].drop_last() =~= Seq::<char>::empty());
                reveal_with_fuel(count_of, 2);
            }
            assert(ats == 1);
            if at_pos < i {
                lemma_count_of_positive(text.take(i), at_pos, '@');
            }
            if i < at_pos {
                lemma_count_of_positive(text.take(at_pos), i, '@');
            }
            assert(at_pos == i);
            assert(text.subrange(at_pos + 1, text.len() as int) =~= text.skip(at_pos + 1));
        }
    }
    ats == 1 && dots_after == 1
}

impl Email {
    /// Checks the `x-email` header: missing gives `EmailMissing`, an address
    /// not of the shape `local@domain.tld` gives `EmailInvalid`.
    pub fn from_header(header: Option<&str>) -> (r: Result<Email, ApiError>)
        ensures
            r matches Ok(e) ==> email_header_outcome(header_text(header)) == Ok::<Seq<char>, ApiError>(e.0@),
            r matches Err(e) ==> email_header_outcome(header_text(header)) == Err::<Seq<char>, ApiError>(e),
    {
        match header {
            Some(email_str) => {
                if check_email(email_str) {
                    Ok(Email(email_str.to_owned()))
                } else {
                    Err(ApiError::EmailInvalid)
                }
            },
            None => Err(ApiError::EmailMissing),
        }
    }
}

// ---------------------------------------------------------------------------
// Laws of the header checks
// ---------------------------------------------------------------------------

/// `ch` does not occur in `s`.
pub open spec fn free_of(s: Seq<char>, ch: char) -> bool {
    forall|k: int| 0 <= k < s.len() ==> s[k] != ch
}

proof fn lemma_count_of_zero(s: Seq<char>, ch: char)
    requires
        free_of(s, ch),
    ensures
        count_of(s, ch) == 0,
    decreases s.len(),
{
    if s.len() > 0 {
        assert(s.last() == s[s.len() - 1]);
        assert forall|k: int| 0 <= k < s.drop_last().len() implies s.drop_last()[k] != ch by {
            assert(s.drop_last()[k] == s[k]);
        }
        lemma_count_of_zero(s.drop_last(), ch);
    }
}

proof fn lemma_count_of_free(s: Seq<char>, ch: char)
    requires
        count_of(s, ch) == 0,
    ensures
        free_of(s, ch),
{
    assert forall|k: int| 0 <= k < s.len() implies s[k] != ch by {
        if s[k] == ch {
            lemma_count_of_positive(s, k, ch);
        }
    }
}

proof fn lemma_count_of_found(s: Seq<char>, ch: char) -> (k: int)
    requires
        count_of(s, ch) > 0,
    ensures
        0 <= k < s.len(),
        s[k] == ch,
    decreases s.len(),
{
    if s.last() == ch {
        s.len() - 1
    } else {
        let k = lemma_count_of_found(s.drop_last(), ch);
        assert(s.drop_last()[k] == s[k]);
        k
    }
}

proof fn lemma_count_of_single(x: char, ch: char)
    ensures
        count_of(seq![x], ch) == if x == ch { 1nat } else { 0nat },
{
    assert(seq![x].drop_last() =~= Seq::<char>::empty());
    reveal_with_fuel(count_of, 2);
}

/// Every address `local@domain.tld` is accepted as it came, whatever other
/// characters (letters, digits, punctuation) its parts hold, provided the
/// '@' is its only '@' and the '.' its only '.' after the '@'.
pub proof fn law_email_of_shape(local: Seq<char>, domain: Seq<char>, tld: Seq<char>)
    requires
        free_of(local, '@'),
        free_of(domain, '@'),
        free_of(domain, '.'),
        free_of(tld, '@'),
        free_of(tld, '.'),
    ensures
        email_header_outcome(Some(local + seq!['@'] + domain + seq!['.'] + tld)) == Ok::<
            Seq<char>,
            ApiError,
        >(local + seq!['@'] + domain + seq!['.'] + tld),
{
    let s = local + seq!['@'] + domain + seq!['.'] + tld;
    let i = local.len() as int;
    let rest = domain + seq!['.'] + tld;
    assert(s.take(i) =~= local);
    assert(s.skip(i + 1) =~= rest);
    assert(s[i] == '@');
    lemma_count_of_zero(local, '@');
    lemma_count_of_zero(domain, '@');
    lemma_count_of_zero(tld, '@');
    lemma_count_of_zero(domain, '.');
    lemma_count_of_zero(tld, '.');
    lemma_count_of_single('.', '@');
    lemma_count_of_single('.', '.');
    lemma_count_of_add(domain, seq!['.'], '@');
    lemma_count_of_add(domain, seq!['.'], '.');
    lemma_count_of_add(domain + seq!['.'], tld, '@');
    lemma_count_of_add(domain + seq!['.'], tld, '.');
}

/// Every accepted address is of the shape `local@domain.tld`: its only '@'
/// splits it into a local part and a domain, and the domain holds exactly
/// one '.'.
pub proof fn law_email_has_shape(s: Seq<char>) -> (parts: (Seq<char>, Seq<char>, Seq<char>))
    requires
        email_header_outcome(Some(s)) is Ok,
    ensures
        s == parts.0 + seq!['@'] + parts.1 + seq!['.'] + parts.2,
        free_of(parts.0, '@'),
        free_of(parts.1, '@'),
        free_of(parts.1, '.'),
        free_of(parts.2, '@'),
        free_of(parts.2, '.'),
{
    let i = choose|i: int|
        0 <= i < s.len() && #[trigger] s[i] == '@' && count_of(s.take(i), '@') == 0 && count_of(
            s.skip(i + 1),
            '@',
        ) == 0 && count_of(s.skip(i + 1), '.') == 1;
    let local = s.take(i);
    let rest = s.skip(i + 1);
    let k = lemma_count_of_found(rest, '.');
    let domain = rest.take(k);
    let tld = rest.skip(k + 1);
    assert(rest =~= domain + seq!['.'] + tld);
    assert(s =~= local + seq!['@'] + rest);
    lemma_count_of_single('.', '@');
    lemma_count_of_single('.', '.');
    lemma_count_of_add(domain, seq!['.'], '@');
    lemma_count_of_add(domain, seq!['.'], '.');
    lemma_count_of_add(domain + seq!['.'], tld, '@');
    lemma_count_of_add(domain + seq!['.'], tld, '.');
    lemma_count_of_free(local, '@');
    lemma_count_of_free(domain, '@');
    lemma_count_of_free(domain, '.');
    lemma_count_of_free(tld, '@');
    lemma_count_of_free(tld, '.');
    (local, domain, tld)
}

/// A hexadecimal digit of either case.
pub open spec fn is_hex_char(c: char) -> bool {
    ||| 48 <= c as u32 <= 57
    ||| 97 <= c as u32 <= 102
    ||| 65 <= c as u32 <= 70
}

/// A vault is kept as it came exactly when it has an even number of
/// characters, all hexadecimal digits of either case: no length is too long.
pub proof fn law_vault_is_any_hex(s: Seq<char>)
    ensures
        (s.len() % 2 == 0 && forall|i: int| 0 <= i < s.len() ==> is_hex_char(#[trigger] s[i]))
            ==> vault_header_outcome(Some(s)) == Ok::<Seq<char>, ApiError>(s),
        !(s.len() % 2 == 0 && forall|i: int| 0 <= i < s.len() ==> is_hex_char(#[trigger] s[i]))
            ==> vault_header_outcome(Some(s)) == Err::<Seq<char>, ApiError>(ApiError::VaultInvalid),
        vault_header_outcome(None) == Err::<Seq<char>, ApiError>(ApiError::VaultMissing),
{
    if !(s.len() % 2 == 0 && forall|i: int| 0 <= i < s.len() ==> is_hex_char(#[trigger] s[i])) {
        if s.len() % 2 == 0 {
            let i = choose|i: int| 0 <= i < s.len() && !is_hex_char(#[trigger] s[i]);
            assert(hex_digit_value(s[i]) < 0);
        }
    }
}

/// The hex text of any bytes, of any length, is kept as a vault.
pub proof fn law_vault_accepts_any_encoding(bytes: Seq<u8>)
    ensures
        vault_header_outcome(Some(hex_encoding(bytes))) == Ok::<Seq<char>, ApiError>(
            hex_encoding(bytes),
        ),
{
    crate::hex_codec::lemma_hex_roundtrip(bytes);
}

/// A key header is accepted exactly when it holds 64 hexadecimal digits of
/// either case; the key it gives is stored as the same digits in lower case.
pub proof fn law_key_header(s: Seq<char>)
    ensures
        key_header_outcome(None) == Err::<Seq<u8>, ApiError>(ApiError::AuthKeyMissing),
        key_header_outcome(Some(s)) is Ok <==> (s.len() == 64 && forall|i: int|
            0 <= i < s.len() ==> is_hex_char(#[trigger] s[i])),
        key_header_outcome(Some(s)) is Err ==> key_header_outcome(Some(s)) == Err::<
            Seq<u8>,
            ApiError,
        >(ApiError::AuthKeyInvalid),
        key_header_outcome(Some(s)) matches Ok(k) ==> k.len() == 32 && forall|i: int|
            0 <= i < 64 ==> #[trigger] hex_encoding(k)[i] == if 65 <= s[i] as u32 <= 70 {
                ((s[i] as u32) + 32) as char
            } else {
                s[i]
            },
{
    if s.len() == 64 && !(forall|i: int| 0 <= i < s.len() ==> is_hex_char(#[trigger] s[i])) {
        let i = choose|i: int| 0 <= i < s.len() && !is_hex_char(#[trigger] s[i]);
        assert(hex_digit_value(s[i]) < 0);
    }
    if s.len() == 64 && is_hex_text(s) {
        let k = hex_decoding(s);
        assert forall|i: int| 0 <= i < 64 implies #[trigger] hex_encoding(k)[i] == if 65 <= s[i] as u32 <= 70 {
            ((s[i] as u32) + 32) as char
        } else {
            s[i]
        } by {
            let m = i / 2;
            let hi = hex_digit_value(s[2 * m]);
            let lo = hex_digit_value(s[2 * m + 1]);
            assert(0 <= hi < 16 && 0 <= lo < 16);
            assert(k[m] as int == hi * 16 + lo);
            assert((hi * 16 + lo) / 16 == hi && (hi * 16 + lo) % 16 == lo) by (nonlinear_arith)
                requires 0 <= hi < 16, 0 <= lo < 16;
            let c = s[i];
            let v = hex_digit_value(c);
            assert(0 <= v < 16);
            if i % 2 == 0 {
                assert(i == 2 * m);
            } else {
                assert(i == 2 * m + 1);
            }
            assert(hex_encoding(k)[i] == crate::hex_codec::lower_hex_digit(v));
            vstd::utf8::char_u32_cast(c, c as u32);
        }
    }
}

/// A missing e-mail header is `EmailMissing`; a present one is either kept
/// as it came or refused with `EmailInvalid`.
pub proof fn law_email_outcomes(s: Seq<char>)
    ensures
        email_header_outcome(None) == Err::<Seq<char>, ApiError>(ApiError::EmailMissing),
        email_header_outcome(Some(s)) == Ok::<Seq<char>, ApiError>(s) || email_header_outcome(
            Some(s),
        ) == Err::<Seq<char>, ApiError>(ApiError::EmailInvalid),
{
}

} // verus!
