//! Distinct request, observation, trace, intent and correlation identities.
use vstd::prelude::*;
use vstd::utf8::{encode_utf8, is_ascii_chars};

use crate::protocol::value::is_lower_hex;
use crate::text::{hex_char, is_digit_char, owned, str_equal};

verus! {

broadcast use vstd::seq::group_seq_axioms;

/// Reports invalid protocol identity values.
#[derive(Clone, Copy, Debug, PartialEq, Eq, Structural)]
pub enum IdentityError {
    /// The UUID is not lowercase hyphenated form.
    InvalidUuid,
    /// The idempotency key is empty.
    EmptyIdempotencyKey,
    /// The idempotency key is longer than 128 bytes.
    IdempotencyKeyTooLong,
    /// The idempotency key contains a non-ASCII byte.
    NonAsciiIdempotencyKey,
}

/// The human-readable explanation of an identity error.
pub open spec fn identity_error_text(e: IdentityError) -> Seq<char> {
    match e {
        IdentityError::InvalidUuid => "UUID must use lowercase hyphenated form"@,
        IdentityError::EmptyIdempotencyKey => "idempotency key must not be empty"@,
        IdentityError::IdempotencyKeyTooLong => "idempotency key exceeds 128 bytes"@,
        IdentityError::NonAsciiIdempotencyKey => "idempotency key must contain only ASCII bytes"@,
    }
}

impl IdentityError {
    /// Returns the human-readable explanation of this error.
    pub fn message(&self) -> (r: &'static str)
        ensures
            r@ == identity_error_text(*self),
    {
        match self {
            IdentityError::InvalidUuid => "UUID must use lowercase hyphenated form",
            IdentityError::EmptyIdempotencyKey => "idempotency key must not be empty",
            IdentityError::IdempotencyKeyTooLong => "idempotency key exceeds 128 bytes",
            IdentityError::NonAsciiIdempotencyKey => "idempotency key must contain only ASCII bytes",
        }
    }
}

// ---------------------------------------------------------------------------------------------
// Lowercase hyphenated UUID text
// ---------------------------------------------------------------------------------------------

/// Whether `i` is one of the four hyphen positions of a hyphenated UUID.
pub open spec fn is_uuid_hyphen_position(i: int) -> bool {
    i == 8 || i == 13 || i == 18 || i == 23
}

/// A lowercase hyphenated UUID: 8-4-4-4-12 lowercase hexadecimal digits.
pub open spec fn is_uuid_text(v: Seq<char>) -> bool {
    &&& v.len() == 36
    &&& forall|i: int|
        0 <= i < 36 ==> if is_uuid_hyphen_position(i) {
            #[trigger] v[i] == '-'
        } else {
            is_lower_hex(v[i])
        }
}

/// The value of a lowercase hexadecimal digit.
pub open spec fn hex_digit_value(c: char) -> nat {
    if is_digit_char(c) {
        ((c as u32) - 48) as nat
    } else {
        ((c as u32) - 87) as nat
    }
}

/// The value of a text of lowercase hexadecimal digits.
pub open spec fn hex_text_value(h: Seq<char>) -> nat
    decreases h.len(),
{
    if h.len() == 0 {
        0
    } else {
        hex_text_value(h.drop_last()) * 16 + hex_digit_value(h.last())
    }
}

/// The 32 hexadecimal digits of a hyphenated UUID text.
pub open spec fn uuid_hex_digits(v: Seq<char>) -> Seq<char> {
    v.take(8) + v.subrange(9, 13) + v.subrange(14, 18) + v.subrange(19, 23) + v.subrange(24, 36)
}

/// The 128-bit value written by a hyphenated UUID text.
pub open spec fn uuid_text_value(v: Seq<char>) -> nat {
    hex_text_value(uuid_hex_digits(v))
}

/// The last `n` lowercase hexadecimal digits of `value`, most significant first.
pub open spec fn hex_digits_of(value: nat, n: nat) -> Seq<char>
    decreases n,
{
    if n == 0 {
        Seq::empty()
    } else {
        hex_digits_of(value / 16, (n - 1) as nat).push(hex_char(value % 16))
    }
}

/// The lowercase hyphenated text of a 128-bit UUID value.
pub open spec fn uuid_text(value: nat) -> Seq<char> {
    let h = hex_digits_of(value, 32);
    h.take(8) + seq!['-'] + h.subrange(8, 12) + seq!['-'] + h.subrange(12, 16) + seq!['-']
        + h.subrange(16, 20) + seq!['-'] + h.subrange(20, 32)
}

/// Sixteen to the power `n`.
pub open spec fn pow16(n: nat) -> nat
    decreases n,
{
    if n == 0 {
        1
    } else {
        16 * pow16((n - 1) as nat)
    }
}

proof fn lemma_hex_digits_of(value: nat, n: nat)
    ensures
        hex_digits_of(value, n).len() == n,
        forall|i: int| 0 <= i < n ==> is_lower_hex(#[trigger] hex_digits_of(value, n)[i]),
    decreases n,
{
    if n > 0 {
        lemma_hex_digits_of(value / 16, (n - 1) as nat);
        assert(is_lower_hex(hex_char(value % 16)));
    }
}

proof fn lemma_hex_round_trip(h: Seq<char>)
    requires
        forall|i: int| 0 <= i < h.len() ==> is_lower_hex(#[trigger] h[i]),
    ensures
        hex_digits_of(hex_text_value(h), h.len()) == h,
    decreases h.len(),
{
    if h.len() > 0 {
        let t = h.drop_last();
        lemma_hex_round_trip(t);
        let v = hex_text_value(t);
        let d = hex_digit_value(h.last());
        assert(is_lower_hex(h.last()));
        assert(d < 16);
        assert((v * 16 + d) / 16 == v && (v * 16 + d) % 16 == d) by (nonlinear_arith)
            requires
                d < 16,
        ;
        assert(hex_char(d) == h.last());
        assert(hex_digits_of(hex_text_value(h), h.len()) =~= t.push(h.last()));
    }
}

/// Rendering any value gives a lowercase hyphenated UUID text.
proof fn lemma_uuid_text_is_canonical(value: nat)
    ensures
        is_uuid_text(uuid_text(value)),
{
    lemma_hex_digits_of(value, 32);
    let h = hex_digits_of(value, 32);
    let t = uuid_text(value);
    assert(t.len() == 36);
    assert forall|i: int| 0 <= i < 36 implies if is_uuid_hyphen_position(i) {
        #[trigger] t[i] == '-'
    } else {
        is_lower_hex(t[i])
    } by {
        if i < 8 {
            assert(t[i] == h[i]);
        } else if i == 8 {
        } else if i < 13 {
            assert(t[i] == h[i - 1]);
        } else if i == 13 {
        } else if i < 18 {
            assert(t[i] == h[i - 2]);
        } else if i == 18 {
        } else if i < 23 {
            assert(t[i] == h[i - 3]);
        } else if i == 23 {
        } else {
            assert(t[i] == h[i - 4]);
        }
    }
}

/// A version 4 UUID text: version digit 4, variant digit one of 8, 9, a, b.
pub open spec fn is_uuid_v4_text(v: Seq<char>) -> bool {
    &&& is_uuid_text(v)
    &&& v[14] == '4'
    &&& (v[19] == '8' || v[19] == '9' || v[19] == 'a' || v[19] == 'b')
}

proof fn lemma_hex_digit_at(value: nat, n: nat, i: int)
    requires
        0 <= i < n,
    ensures
        hex_digits_of(value, n)[i] == hex_char((value / pow16((n - 1 - i) as nat)) % 16),
    decreases n,
{
    lemma_hex_digits_of(value, n);
    if i == n - 1 {
        assert(pow16(0) == 1);
        assert(value / 1 == value);
    } else {
        lemma_hex_digits_of(value / 16, (n - 1) as nat);
        lemma_hex_digit_at(value / 16, (n - 1) as nat, i);
        let k = (n - 2 - i) as nat;
        assert(pow16((n - 1 - i) as nat) == 16 * pow16(k));
        lemma_pow16_positive(k);
        vstd::arithmetic::div_mod::lemma_div_denominator(value as int, 16, pow16(k) as int);
        assert(hex_digits_of(value, n)[i] == hex_digits_of(value / 16, (n - 1) as nat)[i]);
    }
}

proof fn lemma_pow16_positive(n: nat)
    ensures
        pow16(n) > 0,
    decreases n,
{
    if n > 0 {
        lemma_pow16_positive((n - 1) as nat);
    }
}

/// Rendering the value written by a canonical text gives the text back.
proof fn lemma_uuid_text_round_trip(v: Seq<char>)
    requires
        is_uuid_text(v),
    ensures
        uuid_text(uuid_text_value(v)) == v,
{
    let h = uuid_hex_digits(v);
    assert(h.len() == 32);
    assert forall|i: int| 0 <= i < h.len() implies is_lower_hex(#[trigger] h[i]) by {
        if i < 8 {
            assert(h[i] == v[i]);
        } else if i < 12 {
            assert(h[i] == v[i + 1]);
        } else if i < 16 {
            assert(h[i] == v[i + 2]);
        } else if i < 20 {
            assert(h[i] == v[i + 3]);
        } else {
            assert(h[i] == v[i + 4]);
        }
    }
    lemma_hex_round_trip(h);
    let t = uuid_text(uuid_text_value(v));
    assert forall|i: int| 0 <= i < 36 implies #[trigger] t[i] == v[i] by {
        if i < 8 {
            assert(t[i] == h[i]);
        } else if i == 8 {
        } else if i < 13 {
            assert(t[i] == h[i - 1]);
        } else if i == 13 {
        } else if i < 18 {
            assert(t[i] == h[i - 2]);
        } else if i == 18 {
        } else if i < 23 {
            assert(t[i] == h[i - 3]);
        } else if i == 23 {
        } else {
            assert(t[i] == h[i - 4]);
        }
    }
    assert(t =~= v);
}

/// Parses a UUID with the `uuid` crate (`Uuid::parse_str`) and returns its 128-bit value
/// (`Uuid::as_u128`). The crate accepts several spellings (simple, hyphenated, braced, URN,
/// either case); this contract states only that a lowercase hyphenated text parses to the
/// value its hexadecimal digits write. What other inputs give is left unsaid.
#[verifier::external_body]
fn uuid_parse_str(value: &str) -> (r: Option<u128>)
    ensures
        is_uuid_text(value@) ==> r is Some && r.unwrap() as nat == uuid_text_value(value@),
{
    match uuid::Uuid::parse_str(value) {
        Ok(parsed) => Some(parsed.as_u128()),
        Err(_) => None,
    }
}

/// Formats a 128-bit value as a lowercase hyphenated UUID with the `uuid` crate
/// (`Uuid::from_u128(..).hyphenated().to_string()`), which writes the 32 hexadecimal digits of
/// the big-endian value in lowercase, grouped 8-4-4-4-12.
#[verifier::external_body]
fn uuid_hyphenated(value: u128) -> (r: String)
    ensures
        r@ == uuid_text(value as nat),
{
    uuid::Uuid::from_u128(value).hyphenated().to_string()
}

/// Draws a random version 4 UUID with the `uuid` crate (`Uuid::new_v4().as_u128()`). The value
/// is random; the crate fixes its version digit to 4 and its variant digit to one of 8, 9, a, b.
#[verifier::external_body]
fn uuid_new_v4() -> (r: u128)
    ensures
        (r as nat / pow16(19)) % 16 == 4,
        8 <= (r as nat / pow16(15)) % 16 <= 11,
{
    uuid::Uuid::new_v4().as_u128()
}

/// Parses a lowercase hyphenated UUID text.
fn parse_uuid_text(value: &str) -> (r: Result<String, IdentityError>)
    ensures
        match r {
            Ok(s) => is_uuid_text(value@) && s@ == value@,
            Err(e) => !is_uuid_text(value@) && e == IdentityError::InvalidUuid,
        },
{
    match uuid_parse_str(value) {
        None => Err(IdentityError::InvalidUuid),
        Some(parsed) => {
            let text = uuid_hyphenated(parsed);
            proof {
                lemma_uuid_text_is_canonical(parsed as nat);
                if is_uuid_text(value@) {
                    lemma_uuid_text_round_trip(value@);
                }
            }
            if !str_equal(text.as_str(), value) {
                return Err(IdentityError::InvalidUuid);
            }
            Ok(owned(value))
        },
    }
}

/// A fresh random lowercase hyphenated version 4 UUID text.
fn fresh_uuid_text() -> (r: String)
    ensures
        is_uuid_v4_text(r@),
{
    let value = uuid_new_v4();
    proof {
        lemma_uuid_text_is_canonical(value as nat);
        let h = hex_digits_of(value as nat, 32);
        let t = uuid_text(value as nat);
        lemma_hex_digits_of(value as nat, 32);
        lemma_hex_digit_at(value as nat, 32, 12);
        lemma_hex_digit_at(value as nat, 32, 16);
        assert(t[14] == h[12]);
        assert(t[19] == h[16]);
        let variant = (value as nat / pow16(15)) % 16;
        assert(hex_char(4) == '4');
        assert(variant == 8 || variant == 9 || variant == 10 || variant == 11);
    }
    uuid_hyphenated(value)
}

/// Identifies a caller-created proposal request.
#[derive(Debug, PartialEq, Eq, Hash, PartialOrd, Ord)]
pub struct RequestId(String);

impl View for RequestId {
    type V = Seq<char>;

    closed spec fn view(&self) -> Seq<char> {
        self.0@
    }
}

impl Clone for RequestId {
    fn clone(&self) -> (r: Self)
        ensures
            r == *self,
    {
        proof {
            use_type_invariant(self);
        }
        RequestId(self.0.clone())
    }
}

impl Default for RequestId {
    fn default() -> (r: Self)
        ensures
            is_uuid_v4_text(r@),
    {
        Self::new()
    }
}

impl RequestId {
    #[verifier::type_invariant]
    spec fn well_formed(self) -> bool {
        is_uuid_text(self.0@)
    }

    /// Creates a random UUID v4 identity.
    pub fn new() -> (r: Self)
        ensures
            is_uuid_v4_text(r@),
    {
        RequestId(fresh_uuid_text())
    }

    /// Parses a lowercase hyphenated UUID.
    pub fn parse(value: &str) -> (r: Result<Self, IdentityError>)
        ensures
            match r {
                Ok(id) => is_uuid_text(value@) && id@ == value@,
                Err(e) => !is_uuid_text(value@) && e == IdentityError::InvalidUuid,
            },
    {
        let text = parse_uuid_text(value)?;
        Ok(RequestId(text))
    }

    /// Returns the lowercase hyphenated UUID.
    pub fn as_str(&self) -> (r: &str)
        ensures
            r@ == self@,
            is_uuid_text(r@),
    {
        proof {
            use_type_invariant(self);
        }
        self.0.as_str()
    }

    /// Compares two identities by text.
    pub fn same_as(&self, other: &Self) -> (r: bool)
        ensures
            r == (self@ == other@),
    {
        str_equal(self.0.as_str(), other.0.as_str())
    }
}

/// Identifies an observation constructed by NautilusTrader.
#[derive(Debug, PartialEq, Eq, Hash, PartialOrd, Ord)]
pub struct ObservationId(String);

impl View for ObservationId {
    type V = Seq<char>;

    closed spec fn view(&self) -> Seq<char> {
        self.0@
    }
}

impl Clone for ObservationId {
    fn clone(&self) -> (r: Self)
        ensures
            r == *self,
    {
        proof {
            use_type_invariant(self);
        }
        ObservationId(self.0.clone())
    }
}

impl Default for ObservationId {
    fn default() -> (r: Self)
        ensures
            is_uuid_v4_text(r@),
    {
        Self::new()
    }
}

impl ObservationId {
    #[verifier::type_invariant]
    spec fn well_formed(self) -> bool {
        is_uuid_text(self.0@)
    }

    /// Creates a random UUID v4 identity.
    pub fn new() -> (r: Self)
        ensures
            is_uuid_v4_text(r@),
    {
        ObservationId(fresh_uuid_text())
    }

    /// Parses a lowercase hyphenated UUID.
    pub fn parse(value: &str) -> (r: Result<Self, IdentityError>)
        ensures
            match r {
                Ok(id) => is_uuid_text(value@) && id@ == value@,
                Err(e) => !is_uuid_text(value@) && e == IdentityError::InvalidUuid,
            },
    {
        let text = parse_uuid_text(value)?;
        Ok(ObservationId(text))
    }

    /// Returns the lowercase hyphenated UUID.
    pub fn as_str(&self) -> (r: &str)
        ensures
            r@ == self@,
            is_uuid_text(r@),
    {
        proof {
            use_type_invariant(self);
        }
        self.0.as_str()
    }

    /// Compares two identities by text.
    pub fn same_as(&self, other: &Self) -> (r: bool)
        ensures
            r == (self@ == other@),
    {
        str_equal(self.0.as_str(), other.0.as_str())
    }
}

/// Identifies an agent-side trace.
#[derive(Debug, PartialEq, Eq, Hash, PartialOrd, Ord)]
pub struct TraceId(String);

impl View for TraceId {
    type V = Seq<char>;

    closed spec fn view(&self) -> Seq<char> {
        self.0@
    }
}

impl Clone for TraceId {
    fn clone(&self) -> (r: Self)
        ensures
            r == *self,
    {
        proof {
            use_type_invariant(self);
        }
        TraceId(self.0.clone())
    }
}

impl Default for TraceId {
    fn default() -> (r: Self)
        ensures
            is_uuid_v4_text(r@),
    {
        Self::new()
    }
}

impl TraceId {
    #[verifier::type_invariant]
    spec fn well_formed(self) -> bool {
        is_uuid_text(self.0@)
    }

    /// Creates a random UUID v4 identity.
    pub fn new() -> (r: Self)
        ensures
            is_uuid_v4_text(r@),
    {
        TraceId(fresh_uuid_text())
    }

    /// Parses a lowercase hyphenated UUID.
    pub fn parse(value: &str) -> (r: Result<Self, IdentityError>)
        ensures
            match r {
                Ok(id) => is_uuid_text(value@) && id@ == value@,
                Err(e) => !is_uuid_text(value@) && e == IdentityError::InvalidUuid,
            },
    {
        let text = parse_uuid_text(value)?;
        Ok(TraceId(text))
    }

    /// Returns the lowercase hyphenated UUID.
    pub fn as_str(&self) -> (r: &str)
        ensures
            r@ == self@,
            is_uuid_text(r@),
    {
        proof {
            use_type_invariant(self);
        }
        self.0.as_str()
    }

    /// Compares two identities by text.
    pub fn same_as(&self, other: &Self) -> (r: bool)
        ensures
            r == (self@ == other@),
    {
        str_equal(self.0.as_str(), other.0.as_str())
    }
}

/// Identifies an intent accepted by NautilusTrader.
#[derive(Debug, PartialEq, Eq, Hash, PartialOrd, Ord)]
pub struct IntentId(String);

impl View for IntentId {
    type V = Seq<char>;

    closed spec fn view(&self) -> Seq<char> {
        self.0@
    }
}

impl Clone for IntentId {
    fn clone(&self) -> (r: Self)
        ensures
            r == *self,
    {
        proof {
            use_type_invariant(self);
        }
        IntentId(self.0.clone())
    }
}

impl Default for IntentId {
    fn default() -> (r: Self)
        ensures
            is_uuid_v4_text(r@),
    {
        Self::new()
    }
}

impl IntentId {
    #[verifier::type_invariant]
    spec fn well_formed(self) -> bool {
        is_uuid_text(self.0@)
    }

    /// Creates a random UUID v4 identity.
    pub fn new() -> (r: Self)
        ensures
            is_uuid_v4_text(r@),
    {
        IntentId(fresh_uuid_text())
    }

    /// Parses a lowercase hyphenated UUID.
    pub fn parse(value: &str) -> (r: Result<Self, IdentityError>)
        ensures
            match r {
                Ok(id) => is_uuid_text(value@) && id@ == value@,
                Err(e) => !is_uuid_text(value@) && e == IdentityError::InvalidUuid,
            },
    {
        let text = parse_uuid_text(value)?;
        Ok(IntentId(text))
    }

    /// Returns the lowercase hyphenated UUID.
    pub fn as_str(&self) -> (r: &str)
        ensures
            r@ == self@,
            is_uuid_text(r@),
    {
        proof {
            use_type_invariant(self);
        }
        self.0.as_str()
    }

    /// Compares two identities by text.
    pub fn same_as(&self, other: &Self) -> (r: bool)
        ensures
            r == (self@ == other@),
    {
        str_equal(self.0.as_str(), other.0.as_str())
    }
}

/// Identifies public correlation or causation metadata.
#[derive(Debug, PartialEq, Eq, Hash, PartialOrd, Ord)]
pub struct CorrelationId(String);

impl View for CorrelationId {
    type V = Seq<char>;

    closed spec fn view(&self) -> Seq<char> {
        self.0@
    }
}

impl Clone for CorrelationId {
    fn clone(&self) -> (r: Self)
        ensures
            r == *self,
    {
        proof {
            use_type_invariant(self);
        }
        CorrelationId(self.0.clone())
    }
}

impl Default for CorrelationId {
    fn default() -> (r: Self)
        ensures
            is_uuid_v4_text(r@),
    {
        Self::new()
    }
}

impl CorrelationId {
    #[verifier::type_invariant]
    spec fn well_formed(self) -> bool {
        is_uuid_text(self.0@)
    }

    /// Creates a random UUID v4 identity.
    pub fn new() -> (r: Self)
        ensures
            is_uuid_v4_text(r@),
    {
        CorrelationId(fresh_uuid_text())
    }

    /// Parses a lowercase hyphenated UUID.
    pub fn parse(value: &str) -> (r: Result<Self, IdentityError>)
        ensures
            match r {
                Ok(id) => is_uuid_text(value@) && id@ == value@,
                Err(e) => !is_uuid_text(value@) && e == IdentityError::InvalidUuid,
            },
    {
        let text = parse_uuid_text(value)?;
        Ok(CorrelationId(text))
    }

    /// Returns the lowercase hyphenated UUID.
    pub fn as_str(&self) -> (r: &str)
        ensures
            r@ == self@,
            is_uuid_text(r@),
    {
        proof {
            use_type_invariant(self);
        }
        self.0.as_str()
    }

    /// Compares two identities by text.
    pub fn same_as(&self, other: &Self) -> (r: bool)
        ensures
            r == (self@ == other@),
    {
        str_equal(self.0.as_str(), other.0.as_str())
    }
}

/// Why a text is not an idempotency key: empty, longer than 128 bytes, or not ASCII (checked in
/// that order).
pub open spec fn idempotency_key_fault(v: Seq<char>) -> Option<IdentityError> {
    if v.len() == 0 {
        Some(IdentityError::EmptyIdempotencyKey)
    } else if encode_utf8(v).len() > 128 {
        Some(IdentityError::IdempotencyKeyTooLong)
    } else if !is_ascii_chars(v) {
        Some(IdentityError::NonAsciiIdempotencyKey)
    } else {
        None
    }
}

/// Carries a caller-supplied key that NautilusTrader scopes to the authenticated principal.
#[derive(Debug, PartialEq, Eq, Hash, PartialOrd, Ord)]
pub struct IdempotencyKey(String);

impl View for IdempotencyKey {
    type V = Seq<char>;

    closed spec fn view(&self) -> Seq<char> {
        self.0@
    }
}

impl Clone for IdempotencyKey {
    fn clone(&self) -> (r: Self)
        ensures
            r == *self,
    {
        proof {
            use_type_invariant(self);
        }
        IdempotencyKey(self.0.clone())
    }
}

impl IdempotencyKey {
    #[verifier::type_invariant]
    spec fn well_formed(self) -> bool {
        idempotency_key_fault(self.0@) is None
    }

    /// Creates a checked idempotency key.
    pub fn new(value: &str) -> (r: Result<Self, IdentityError>)
        ensures
            match r {
                Ok(k) => idempotency_key_fault(value@) is None && k@ == value@,
                Err(e) => idempotency_key_fault(value@) == Some(e),
            },
    {
        Self::parse(value)
    }

    /// Parses an opaque ASCII idempotency key of 1 to 128 bytes.
    pub fn parse(value: &str) -> (r: Result<Self, IdentityError>)
        ensures
            match r {
                Ok(k) => idempotency_key_fault(value@) is None && k@ == value@,
                Err(e) => idempotency_key_fault(value@) == Some(e),
            },
    {
        if value.is_empty() {
            return Err(IdentityError::EmptyIdempotencyKey);
        }
        if value.as_bytes().len() > 128 {
            return Err(IdentityError::IdempotencyKeyTooLong);
        }
        if !value.is_ascii() {
            return Err(IdentityError::NonAsciiIdempotencyKey);
        }
        Ok(IdempotencyKey(owned(value)))
    }

    /// Returns the opaque key.
    pub fn as_str(&self) -> (r: &str)
        ensures
            r@ == self@,
            idempotency_key_fault(r@) is None,
    {
        proof {
            use_type_invariant(self);
        }
        self.0.as_str()
    }

    /// Compares two keys by text.
    pub fn same_as(&self, other: &Self) -> (r: bool)
        ensures
            r == (self@ == other@),
    {
        str_equal(self.0.as_str(), other.0.as_str())
    }
}

impl core::str::FromStr for RequestId {
    type Err = IdentityError;

    fn from_str(value: &str) -> (r: Result<Self, IdentityError>)
        ensures
            match r {
                Ok(id) => is_uuid_text(value@) && id@ == value@,
                Err(e) => !is_uuid_text(value@) && e == IdentityError::InvalidUuid,
            },
    {
        Self::parse(value)
    }
}

impl core::str::FromStr for ObservationId {
    type Err = IdentityError;

    fn from_str(value: &str) -> (r: Result<Self, IdentityError>)
        ensures
            match r {
                Ok(id) => is_uuid_text(value@) && id@ == value@,
                Err(e) => !is_uuid_text(value@) && e == IdentityError::InvalidUuid,
            },
    {
        Self::parse(value)
    }
}

impl core::str::FromStr for TraceId {
    type Err = IdentityError;

    fn from_str(value: &str) -> (r: Result<Self, IdentityError>)
        ensures
            match r {
                Ok(id) => is_uuid_text(value@) && id@ == value@,
                Err(e) => !is_uuid_text(value@) && e == IdentityError::InvalidUuid,
            },
    {
        Self::parse(value)
    }
}

impl core::str::FromStr for IntentId {
    type Err = IdentityError;

    fn from_str(value: &str) -> (r: Result<Self, IdentityError>)
        ensures
            match r {
                Ok(id) => is_uuid_text(value@) && id@ == value@,
                Err(e) => !is_uuid_text(value@) && e == IdentityError::InvalidUuid,
            },
    {
        Self::parse(value)
    }
}

impl core::str::FromStr for CorrelationId {
    type Err = IdentityError;

    fn from_str(value: &str) -> (r: Result<Self, IdentityError>)
        ensures
            match r {
                Ok(id) => is_uuid_text(value@) && id@ == value@,
                Err(e) => !is_uuid_text(value@) && e == IdentityError::InvalidUuid,
            },
    {
        Self::parse(value)
    }
}

impl core::str::FromStr for IdempotencyKey {
    type Err = IdentityError;

    fn from_str(value: &str) -> (r: Result<Self, IdentityError>)
        ensures
            match r {
                Ok(k) => idempotency_key_fault(value@) is None && k@ == value@,
                Err(e) => idempotency_key_fault(value@) == Some(e),
            },
    {
        Self::parse(value)
    }
}

} // verus!
