//! Strict protocol-native scalar values.
use vstd::prelude::*;
use vstd::utf8::*;

use crate::protocol::decimal::{
    all_digits, compare_digits, decimal_remainder, digits_value, is_trimmed, lemma_value_pad, pow10,
    trim_zeroes, zeros,
};
use crate::text::{
    chars_of, contains_control, decimal_chars, digit_char, hex_char, is_control_char,
    is_digit_char, nibble_to_char, owned, push_char, str_equal,
};

verus! {

broadcast use vstd::seq::group_seq_axioms;

/// The largest number of fractional digits a quantity may carry.
pub const DECIMAL_MAX_PRECISION: usize = 16;

/// The largest UTF-8 length of an identifier, in bytes.
pub const IDENTIFIER_MAX_BYTES: usize = 255;

/// Reports invalid protocol scalar values.
#[derive(Clone, Copy, Debug, PartialEq, Eq, Hash, Structural)]
pub enum ValueError {
    /// An identifier is empty.
    EmptyIdentifier,
    /// An identifier exceeds 255 UTF-8 bytes.
    IdentifierTooLong,
    /// An identifier contains a control character.
    IdentifierControlCharacter,
    /// A quantity is empty.
    EmptyQuantity,
    /// A quantity includes a sign.
    QuantitySign,
    /// A quantity uses exponent notation.
    QuantityExponent,
    /// A quantity contains an invalid character or decimal point.
    QuantityCharacter,
    /// A quantity uses a redundant leading zero.
    QuantityLeadingZero,
    /// A quantity has an empty fractional component.
    QuantityEmptyFraction,
    /// A quantity uses a redundant trailing zero.
    QuantityTrailingZero,
    /// A quantity is zero.
    QuantityZero,
    /// A quantity exceeds the protocol decimal precision.
    QuantityPrecision,
    /// A timestamp string is empty.
    EmptyTimestamp,
    /// A timestamp is not a canonical unsigned decimal string.
    TimestampFormat,
    /// A timestamp does not fit in an unsigned 64-bit value.
    TimestampRange,
    /// A content digest does not use the required SHA-256 form.
    DigestFormat,
    /// A field path is not a valid RFC 6901 JSON Pointer.
    FieldPathFormat,
}

/// The human-readable explanation of a value error.
pub open spec fn value_error_text(e: ValueError) -> Seq<char> {
    match e {
        ValueError::EmptyIdentifier => "identifier must not be empty"@,
        ValueError::IdentifierTooLong => "identifier exceeds 255 UTF-8 bytes"@,
        ValueError::IdentifierControlCharacter => "identifier contains a control character"@,
        ValueError::EmptyQuantity => "quantity must not be empty"@,
        ValueError::QuantitySign => "quantity must not include a sign"@,
        ValueError::QuantityExponent => "quantity must not use exponent notation"@,
        ValueError::QuantityCharacter => "quantity must contain only digits and at most one decimal point"@,
        ValueError::QuantityLeadingZero => "quantity must not contain redundant leading zeroes"@,
        ValueError::QuantityEmptyFraction => "quantity must include digits after the decimal point"@,
        ValueError::QuantityTrailingZero => "quantity must not contain redundant trailing zeroes"@,
        ValueError::QuantityZero => "quantity must be strictly positive"@,
        ValueError::QuantityPrecision => "quantity exceeds 16 decimal places"@,
        ValueError::EmptyTimestamp => "timestamp must not be empty"@,
        ValueError::TimestampFormat => "timestamp must be a canonical unsigned decimal string"@,
        ValueError::TimestampRange => "timestamp exceeds the unsigned 64-bit range"@,
        ValueError::DigestFormat => "content digest must use sha256 followed by 64 lowercase hexadecimal digits"@,
        ValueError::FieldPathFormat => "field path must be an RFC 6901 JSON Pointer"@,
    }
}

impl ValueError {
    /// Returns the human-readable explanation of this error.
    pub fn message(&self) -> (r: &'static str)
        ensures
            r@ == value_error_text(*self),
    {
        match self {
            ValueError::EmptyIdentifier => "identifier must not be empty",
            ValueError::IdentifierTooLong => "identifier exceeds 255 UTF-8 bytes",
            ValueError::IdentifierControlCharacter => "identifier contains a control character",
            ValueError::EmptyQuantity => "quantity must not be empty",
            ValueError::QuantitySign => "quantity must not include a sign",
            ValueError::QuantityExponent => "quantity must not use exponent notation",
            ValueError::QuantityCharacter => "quantity must contain only digits and at most one decimal point",
            ValueError::QuantityLeadingZero => "quantity must not contain redundant leading zeroes",
            ValueError::QuantityEmptyFraction => "quantity must include digits after the decimal point",
            ValueError::QuantityTrailingZero => "quantity must not contain redundant trailing zeroes",
            ValueError::QuantityZero => "quantity must be strictly positive",
            ValueError::QuantityPrecision => "quantity exceeds 16 decimal places",
            ValueError::EmptyTimestamp => "timestamp must not be empty",
            ValueError::TimestampFormat => "timestamp must be a canonical unsigned decimal string",
            ValueError::TimestampRange => "timestamp exceeds the unsigned 64-bit range",
            ValueError::DigestFormat => "content digest must use sha256 followed by 64 lowercase hexadecimal digits",
            ValueError::FieldPathFormat => "field path must be an RFC 6901 JSON Pointer",
        }
    }
}

// ---------------------------------------------------------------------------------------------
// Identifiers
// ---------------------------------------------------------------------------------------------

/// Why a text is not a valid identifier: empty, longer than 255 UTF-8 bytes, or holding a
/// control character (checked in that order).
pub open spec fn identifier_fault(v: Seq<char>) -> Option<ValueError> {
    if v.len() == 0 {
        Some(ValueError::EmptyIdentifier)
    } else if encode_utf8(v).len() > 255 {
        Some(ValueError::IdentifierTooLong)
    } else if exists|i: int| 0 <= i < v.len() && is_control_char(#[trigger] v[i]) {
        Some(ValueError::IdentifierControlCharacter)
    } else {
        None
    }
}

fn check_identifier(value: &str) -> (r: Result<(), ValueError>)
    ensures
        match r {
            Ok(()) => identifier_fault(value@) is None,
            Err(e) => identifier_fault(value@) == Some(e),
        },
{
    if value.is_empty() {
        return Err(ValueError::EmptyIdentifier);
    }
    if value.as_bytes().len() > IDENTIFIER_MAX_BYTES {
        return Err(ValueError::IdentifierTooLong);
    }
    if contains_control(value) {
        return Err(ValueError::IdentifierControlCharacter);
    }
    Ok(())
}

/// Identifies an instrument without exposing engine types.
#[derive(Debug, PartialEq, Eq, Hash, PartialOrd, Ord)]
pub struct InstrumentId(String);

impl Clone for InstrumentId {
    fn clone(&self) -> (r: Self)
        ensures
            r == *self,
    {
        proof {
            use_type_invariant(self);
        }
        InstrumentId(self.0.clone())
    }
}

impl View for InstrumentId {
    type V = Seq<char>;

    closed spec fn view(&self) -> Seq<char> {
        self.0@
    }
}

impl InstrumentId {
    #[verifier::type_invariant]
    spec fn well_formed(self) -> bool {
        identifier_fault(self.0@) is None
    }

    /// Creates a checked identifier.
    pub fn new(value: &str) -> (r: Result<Self, ValueError>)
        ensures
            match r {
                Ok(id) => identifier_fault(value@) is None && id@ == value@,
                Err(e) => identifier_fault(value@) == Some(e),
            },
    {
        Self::parse(value)
    }

    /// Parses a non-empty identifier with no control characters.
    pub fn parse(value: &str) -> (r: Result<Self, ValueError>)
        ensures
            match r {
                Ok(id) => identifier_fault(value@) is None && id@ == value@,
                Err(e) => identifier_fault(value@) == Some(e),
            },
    {
        check_identifier(value)?;
        Ok(InstrumentId(owned(value)))
    }

    /// Returns the identifier text.
    pub fn as_str(&self) -> (r: &str)
        ensures
            r@ == self@,
            identifier_fault(r@) is None,
    {
        proof {
            use_type_invariant(self);
        }
        self.0.as_str()
    }

    /// Compares two identifiers by text.
    pub fn same_as(&self, other: &Self) -> (r: bool)
        ensures
            r == (self@ == other@),
    {
        proof {
            use_type_invariant(self);
        }
        str_equal(self.0.as_str(), other.0.as_str())
    }
}

/// Identifies a position without exposing engine types.
#[derive(Debug, PartialEq, Eq, Hash, PartialOrd, Ord)]
pub struct PositionId(String);

impl Clone for PositionId {
    fn clone(&self) -> (r: Self)
        ensures
            r == *self,
    {
        proof {
            use_type_invariant(self);
        }
        PositionId(self.0.clone())
    }
}

impl View for PositionId {
    type V = Seq<char>;

    closed spec fn view(&self) -> Seq<char> {
        self.0@
    }
}

impl PositionId {
    #[verifier::type_invariant]
    spec fn well_formed(self) -> bool {
        identifier_fault(self.0@) is None
    }

    /// Creates a checked identifier.
    pub fn new(value: &str) -> (r: Result<Self, ValueError>)
        ensures
            match r {
                Ok(id) => identifier_fault(value@) is None && id@ == value@,
                Err(e) => identifier_fault(value@) == Some(e),
            },
    {
        Self::parse(value)
    }

    /// Parses a non-empty identifier with no control characters.
    pub fn parse(value: &str) -> (r: Result<Self, ValueError>)
        ensures
            match r {
                Ok(id) => identifier_fault(value@) is None && id@ == value@,
                Err(e) => identifier_fault(value@) == Some(e),
            },
    {
        check_identifier(value)?;
        Ok(PositionId(owned(value)))
    }

    /// Returns the identifier text.
    pub fn as_str(&self) -> (r: &str)
        ensures
            r@ == self@,
            identifier_fault(r@) is None,
    {
        proof {
            use_type_invariant(self);
        }
        self.0.as_str()
    }

    /// Compares two identifiers by text.
    pub fn same_as(&self, other: &Self) -> (r: bool)
        ensures
            r == (self@ == other@),
    {
        proof {
            use_type_invariant(self);
        }
        str_equal(self.0.as_str(), other.0.as_str())
    }
}

// ---------------------------------------------------------------------------------------------
// Quantities
// ---------------------------------------------------------------------------------------------

/// The index of the first decimal point, or the length when there is none.
pub open spec fn dot_index(v: Seq<char>) -> int
    decreases v.len(),
{
    if v.len() == 0 {
        0
    } else if v[0] == '.' {
        0
    } else {
        1 + dot_index(v.drop_first())
    }
}

/// The integer component of a decimal text.
pub open spec fn integer_part(v: Seq<char>) -> Seq<char> {
    v.take(dot_index(v))
}

/// The fractional component of a decimal text (empty when there is no decimal point).
pub open spec fn fraction_part(v: Seq<char>) -> Seq<char> {
    if dot_index(v) < v.len() {
        v.skip(dot_index(v) + 1)
    } else {
        Seq::empty()
    }
}

/// The digit values of a text of ASCII digits.
pub open spec fn char_digits(v: Seq<char>) -> Seq<u8> {
    v.map_values(|c: char| ((c as u32) - 48) as u8)
}

/// The number of fractional digits of a quantity text.
pub open spec fn quantity_scale(v: Seq<char>) -> nat {
    fraction_part(v).len()
}

/// The integer formed by every digit of a quantity text (its value times ten to its scale).
pub open spec fn quantity_units(v: Seq<char>) -> nat {
    digits_value(char_digits(integer_part(v) + fraction_part(v)))
}

/// The value of a quantity text expressed in units of ten to the minus `scale`.
pub open spec fn units_at_scale(v: Seq<char>, scale: nat) -> nat {
    quantity_units(v) * pow10((scale - quantity_scale(v)) as nat)
}

/// The common scale at which two quantities are compared.
pub open spec fn common_scale(a: Seq<char>, b: Seq<char>) -> nat {
    if quantity_scale(a) >= quantity_scale(b) {
        quantity_scale(a)
    } else {
        quantity_scale(b)
    }
}

/// Two distinct decimal points occur in the text.
pub open spec fn has_two_dots(v: Seq<char>) -> bool {
    exists|i: int, j: int| 0 <= i < j < v.len() && v[i] == '.' && v[j] == '.'
}

/// Why a text is not a strictly positive canonical decimal quantity (checked in this order).
pub open spec fn quantity_fault(v: Seq<char>) -> Option<ValueError> {
    if v.len() == 0 {
        Some(ValueError::EmptyQuantity)
    } else if v[0] == '+' || v[0] == '-' {
        Some(ValueError::QuantitySign)
    } else if v.contains('e') || v.contains('E') {
        Some(ValueError::QuantityExponent)
    } else if !(forall|i: int| 0 <= i < v.len() ==> is_digit_char(#[trigger] v[i]) || v[i] == '.')
        || has_two_dots(v) {
        Some(ValueError::QuantityCharacter)
    } else if dot_index(v) == 0 {
        Some(ValueError::QuantityCharacter)
    } else if dot_index(v) > 1 && v[0] == '0' {
        Some(ValueError::QuantityLeadingZero)
    } else if dot_index(v) < v.len() {
        if fraction_part(v).len() == 0 {
            Some(ValueError::QuantityEmptyFraction)
        } else if fraction_part(v).len() > 16 {
            Some(ValueError::QuantityPrecision)
        } else if fraction_part(v).last() == '0' {
            Some(ValueError::QuantityTrailingZero)
        } else {
            None
        }
    } else if v == seq!['0'] {
        Some(ValueError::QuantityZero)
    } else {
        None
    }
}

proof fn lemma_dot_index(v: Seq<char>, i: int)
    requires
        0 <= i <= v.len(),
        forall|j: int| 0 <= j < i ==> v[j] != '.',
        i == v.len() || v[i] == '.',
    ensures
        dot_index(v) == i,
    decreases i,
{
    if i > 0 {
        lemma_dot_index(v.drop_first(), i - 1);
    }
}

fn validate_quantity(value: &str) -> (r: Result<(), ValueError>)
    ensures
        match r {
            Ok(()) => quantity_fault(value@) is None,
            Err(e) => quantity_fault(value@) == Some(e),
        },
{
    let v = chars_of(value);
    let n = v.len();
    if n == 0 {
        return Err(ValueError::EmptyQuantity);
    }
    if v[0] == '+' || v[0] == '-' {
        return Err(ValueError::QuantitySign);
    }
    let mut exponent = false;
    let mut allowed = true;
    let mut dots: usize = 0;
    let mut first_dot: usize = n;
    let mut i: usize = 0;
    while i < n
        invariant
            v@ == value@,
            n == v@.len(),
            i <= n,
            exponent == exists|j: int| 0 <= j < i && (v@[j] == 'e' || v@[j] == 'E'),
            allowed == forall|j: int| 0 <= j < i ==> is_digit_char(#[trigger] v@[j]) || v@[j] == '.',
            dots <= 2,
            dots == 0 ==> forall|j: int| 0 <= j < i ==> v@[j] != '.',
            dots == 0 ==> first_dot == n,
            dots >= 1 ==> first_dot < i && v@[first_dot as int] == '.' && forall|j: int| 0 <= j < first_dot ==> v@[j] != '.',
            dots == 1 ==> forall|j: int| first_dot < j < i ==> v@[j] != '.',
            dots == 2 ==> has_two_dots(v@),
        decreases n - i,
    {
        let c = v[i];
        if c == 'e' || c == 'E' {
            exponent = true;
        }
        if !(('0' <= c && c <= '9') || c == '.') {
            allowed = false;
        }
        if c == '.' {
            if dots == 0 {
                first_dot = i;
                dots = 1;
            } else if dots == 1 {
                assert(v@[first_dot as int] == '.' && v@[i as int] == '.');
                dots = 2;
            }
        }
        i = i + 1;
    }
    proof {
        if exponent {
            let j = choose|j: int| 0 <= j < n && (v@[j] == 'e' || v@[j] == 'E');
            if v@[j] == 'e' {
                assert(v@.contains('e'));
            } else {
                assert(v@.contains('E'));
            }
        } else {
            assert(!v@.contains('e'));
            assert(!v@.contains('E'));
        }
        if dots < 2 {
            assert(!has_two_dots(v@));
        }
        lemma_dot_index(v@, first_dot as int);
    }
    if exponent {
        return Err(ValueError::QuantityExponent);
    }
    if !allowed || dots > 1 {
        return Err(ValueError::QuantityCharacter);
    }
    if first_dot == 0 {
        return Err(ValueError::QuantityCharacter);
    }
    if first_dot > 1 && v[0] == '0' {
        return Err(ValueError::QuantityLeadingZero);
    }
    if first_dot < n {
        let fraction_len = n - first_dot - 1;
        assert(fraction_part(v@).len() == fraction_len);
        if fraction_len == 0 {
            return Err(ValueError::QuantityEmptyFraction);
        }
        if fraction_len > DECIMAL_MAX_PRECISION {
            return Err(ValueError::QuantityPrecision);
        }
        assert(fraction_part(v@).last() == v@[n - 1]);
        if v[n - 1] == '0' {
            return Err(ValueError::QuantityTrailingZero);
        }
        return Ok(());
    }
    if n == 1 && v[0] == '0' {
        assert(v@ =~= seq!['0']);
        return Err(ValueError::QuantityZero);
    }
    assert(v@ != seq!['0']);
    Ok(())
}

/// Stores a strictly positive canonical decimal quantity.
#[derive(Debug, PartialEq, Eq, Hash)]
pub struct Quantity(String);

impl View for Quantity {
    type V = Seq<char>;

    closed spec fn view(&self) -> Seq<char> {
        self.0@
    }
}

impl Clone for Quantity {
    fn clone(&self) -> (r: Self)
        ensures
            r == *self,
    {
        proof {
            use_type_invariant(self);
        }
        Quantity(self.0.clone())
    }
}

impl Quantity {
    #[verifier::type_invariant]
    spec fn well_formed(self) -> bool {
        quantity_fault(self.0@) is None
    }

    /// Creates a checked canonical decimal quantity.
    pub fn new(value: &str) -> (r: Result<Self, ValueError>)
        ensures
            match r {
                Ok(q) => quantity_fault(value@) is None && q@ == value@,
                Err(e) => quantity_fault(value@) == Some(e),
            },
    {
        Self::parse(value)
    }

    /// Parses a strictly positive canonical decimal quantity.
    pub fn parse(value: &str) -> (r: Result<Self, ValueError>)
        ensures
            match r {
                Ok(q) => quantity_fault(value@) is None && q@ == value@,
                Err(e) => quantity_fault(value@) == Some(e),
            },
    {
        validate_quantity(value)?;
        Ok(Quantity(owned(value)))
    }

    /// Returns the canonical decimal text.
    pub fn as_str(&self) -> (r: &str)
        ensures
            r@ == self@,
            quantity_fault(r@) is None,
    {
        proof {
            use_type_invariant(self);
        }
        self.0.as_str()
    }

    /// Compares two quantities by text.
    pub fn same_as(&self, other: &Self) -> (r: bool)
        ensures
            r == (self@ == other@),
    {
        str_equal(self.0.as_str(), other.0.as_str())
    }

    /// The number of fractional digits.
    fn scale(&self) -> (r: usize)
        ensures
            r == quantity_scale(self@),
    {
        proof {
            use_type_invariant(self);
        }
        let v = chars_of(self.0.as_str());
        let n = v.len();
        let mut i: usize = 0;
        while i < n && v[i] != '.'
            invariant
                v@ == self@,
                n == v@.len(),
                i <= n,
                forall|j: int| 0 <= j < i ==> v@[j] != '.',
            decreases n - i,
        {
            i = i + 1;
        }
        proof {
            lemma_dot_index(v@, i as int);
        }
        if i < n {
            n - i - 1
        } else {
            0
        }
    }

    /// The digits of this quantity scaled to `scale` fractional digits, without leading zeroes.
    fn digits_at(&self, scale: usize) -> (r: Vec<u8>)
        requires
            scale >= quantity_scale(self@),
        ensures
            all_digits(r@),
            is_trimmed(r@),
            digits_value(r@) == units_at_scale(self@, scale as nat),
    {
        proof {
            use_type_invariant(self);
        }
        let v = chars_of(self.0.as_str());
        let n = v.len();
        let mut digits: Vec<u8> = Vec::new();
        let mut i: usize = 0;
        let mut fraction: usize = 0;
        let mut seen_dot = false;
        let ghost d = dot_index(v@);
        proof {
            lemma_dot_props(v@);
        }
        while i < n
            invariant
                v@ == self@,
                quantity_fault(v@) is None,
                n == v@.len(),
                d == dot_index(v@),
                0 <= d <= n,
                d < n ==> v@[d] == '.',
                i <= n,
                seen_dot == (i > d),
                !seen_dot ==> fraction == 0,
                !seen_dot ==> digits@ == char_digits(v@.take(i as int)),
                seen_dot ==> fraction == i - d - 1,
                seen_dot ==> digits@ == char_digits(
                    integer_part(v@) + v@.subrange(d + 1, i as int),
                ),
                all_digits(digits@),
            decreases n - i,
        {
            let c = v[i];
            assert(is_digit_char(v@[i as int]) || v@[i as int] == '.');
            if c == '.' {
                proof {
                    lemma_single_dot(v@, i as int);
                    assert(v@.subrange(d + 1, i + 1) =~= Seq::<char>::empty());
                    assert(integer_part(v@) + v@.subrange(d + 1, i + 1) =~= v@.take(i as int));
                }
                seen_dot = true;
            } else {
                let code: u32 = c as u32;
                let digit: u8 = (code - 48) as u8;
                digits.push(digit);
                proof {
                    if !seen_dot {
                        assert(i < d);
                        assert(char_digits(v@.take(i + 1)) =~= char_digits(v@.take(i as int)).push(
                            digit,
                        ));
                    } else {
                        assert(char_digits(integer_part(v@) + v@.subrange(d + 1, i + 1))
                            =~= char_digits(integer_part(v@) + v@.subrange(d + 1, i as int)).push(
                            digit,
                        ));
                    }
                }
                if seen_dot {
                    fraction = fraction + 1;
                }
            }
            i = i + 1;
        }
        proof {
            if d < n {
                assert(v@.subrange(d + 1, n as int) =~= fraction_part(v@));
            } else {
                assert(v@.take(n as int) =~= integer_part(v@) + fraction_part(v@));
            }
            assert(fraction == quantity_scale(v@));
        }
        let ghost unpadded = digits@;
        let mut pad = scale - fraction;
        proof {
            assert(unpadded + zeros(0) =~= unpadded);
        }
        while pad > 0
            invariant
                all_digits(digits@),
                fraction <= scale,
                pad <= scale - fraction,
                digits@ == unpadded + zeros((scale - fraction - pad) as nat),
            decreases pad,
        {
            digits.push(0);
            pad = pad - 1;
            assert(digits@ =~= unpadded + zeros((scale - fraction - pad) as nat));
        }
        proof {
            lemma_value_pad(unpadded, (scale - fraction) as nat);
        }
        trim_zeroes(&digits)
    }
}

proof fn lemma_dot_props(v: Seq<char>)
    ensures
        0 <= dot_index(v) <= v.len(),
        dot_index(v) < v.len() ==> v[dot_index(v)] == '.',
        forall|j: int| 0 <= j < dot_index(v) ==> v[j] != '.',
    decreases v.len(),
{
    if v.len() > 0 && v[0] != '.' {
        lemma_dot_props(v.drop_first());
        assert forall|j: int| 0 <= j < dot_index(v) implies v[j] != '.' by {
            if j > 0 {
                assert(v[j] == v.drop_first()[j - 1]);
            }
        }
    }
}

proof fn lemma_single_dot(v: Seq<char>, i: int)
    requires
        quantity_fault(v) is None,
        0 <= i < v.len(),
        v[i] == '.',
    ensures
        i == dot_index(v),
{
    lemma_dot_props(v);
    let d = dot_index(v);
    if i > d {
        assert(v[d] == '.' && v[i] == '.');
        assert(has_two_dots(v));
    }
}

impl Quantity {
    /// Three-way numeric comparison at the common scale: -1, 0 or 1.
    pub(crate) fn order_against(&self, other: &Self) -> (r: i8)
        ensures
            r == -1 <==> units_at_scale(self@, common_scale(self@, other@)) < units_at_scale(
                other@,
                common_scale(self@, other@),
            ),
            r == 0 <==> units_at_scale(self@, common_scale(self@, other@)) == units_at_scale(
                other@,
                common_scale(self@, other@),
            ),
            r == 1 <==> units_at_scale(self@, common_scale(self@, other@)) > units_at_scale(
                other@,
                common_scale(self@, other@),
            ),
    {
        let a = self.scale();
        let b = other.scale();
        let scale = if a >= b {
            a
        } else {
            b
        };
        let left = self.digits_at(scale);
        let right = other.digits_at(scale);
        compare_digits(&left, &right)
    }

    /// Returns whether this quantity is a whole multiple of `increment`.
    pub(crate) fn is_multiple_of(&self, increment: &Self) -> (r: bool)
        ensures
            r == (units_at_scale(self@, common_scale(self@, increment@)) % units_at_scale(
                increment@,
                common_scale(self@, increment@),
            ) == 0),
    {
        proof {
            use_type_invariant(increment);
        }
        let a = self.scale();
        let b = increment.scale();
        let scale = if a >= b {
            a
        } else {
            b
        };
        let value = self.digits_at(scale);
        let divisor = increment.digits_at(scale);
        proof {
            lemma_quantity_positive(increment@);
            crate::protocol::decimal::lemma_pow10_positive((scale - quantity_scale(increment@)) as nat);
            let u = quantity_units(increment@);
            let p = pow10((scale - quantity_scale(increment@)) as nat);
            assert(u > 0 && p >= 1 ==> u * p > 0) by (nonlinear_arith);
        }
        let remainder = decimal_remainder(&value, &divisor);
        proof {
            if remainder@.len() > 0 {
                crate::protocol::decimal::lemma_value_positive(remainder@, 0);
            }
        }
        remainder.len() == 0
    }
}

/// Expressing a quantity at a finer scale multiplies its units by the extra power of ten.
pub proof fn lemma_units_rescale(a: Seq<char>, s: nat, t: nat)
    requires
        quantity_scale(a) <= s <= t,
    ensures
        units_at_scale(a, t) == units_at_scale(a, s) * pow10((t - s) as nat),
{
    let d1 = (s - quantity_scale(a)) as nat;
    let d2 = (t - s) as nat;
    crate::protocol::decimal::lemma_pow10_add(d1, d2);
    assert((t - quantity_scale(a)) as nat == d1 + d2);
    let u = quantity_units(a);
    let p1 = pow10(d1);
    let p2 = pow10(d2);
    assert(u * (p1 * p2) == (u * p1) * p2) by (nonlinear_arith);
}

/// Two quantities compare at any scale at least their common scale as they do at the common
/// scale.
pub proof fn lemma_compare_at_scale(a: Seq<char>, b: Seq<char>, t: nat)
    requires
        t >= common_scale(a, b),
    ensures
        (units_at_scale(a, common_scale(a, b)) < units_at_scale(b, common_scale(a, b))) == (
        units_at_scale(a, t) < units_at_scale(b, t)),
        (units_at_scale(a, common_scale(a, b)) == units_at_scale(b, common_scale(a, b))) == (
        units_at_scale(a, t) == units_at_scale(b, t)),
{
    let s = common_scale(a, b);
    lemma_units_rescale(a, s, t);
    lemma_units_rescale(b, s, t);
    crate::protocol::decimal::lemma_pow10_positive((t - s) as nat);
    let p = pow10((t - s) as nat);
    let x = units_at_scale(a, s);
    let y = units_at_scale(b, s);
    assert(p >= 1 ==> ((x < y) == (x * p < y * p))) by (nonlinear_arith);
    assert(p >= 1 ==> ((x == y) == (x * p == y * p))) by (nonlinear_arith);
}

proof fn lemma_canonical_parts(v: Seq<char>)
    requires
        quantity_fault(v) is None,
    ensures
        1 <= dot_index(v) <= v.len(),
        integer_part(v).len() == dot_index(v),
        forall|i: int| 0 <= i < integer_part(v).len() ==> is_digit_char(#[trigger] integer_part(v)[i]),
        dot_index(v) >= 2 ==> integer_part(v)[0] != '0',
        forall|i: int|
            0 <= i < fraction_part(v).len() ==> is_digit_char(#[trigger] fraction_part(v)[i]),
        fraction_part(v).len() > 0 ==> fraction_part(v).last() != '0',
        fraction_part(v).len() == 0 ==> v == integer_part(v),
        fraction_part(v).len() > 0 ==> v == integer_part(v) + seq!['.'] + fraction_part(v),
{
    lemma_dot_props(v);
    let d = dot_index(v);
    let ip = integer_part(v);
    assert forall|i: int| 0 <= i < ip.len() implies is_digit_char(#[trigger] ip[i]) by {
        assert(ip[i] == v[i]);
        assert(is_digit_char(v[i]) || v[i] == '.');
    }
    if d < v.len() {
        let f = fraction_part(v);
        assert forall|i: int| 0 <= i < f.len() implies is_digit_char(#[trigger] f[i]) by {
            assert(f[i] == v[d + 1 + i]);
            assert(is_digit_char(v[d + 1 + i]) || v[d + 1 + i] == '.');
            if v[d + 1 + i] == '.' {
                assert(v[d] == '.');
                assert(has_two_dots(v));
            }
        }
        assert(v =~= ip + seq!['.'] + f);
    } else {
        assert(v =~= ip);
    }
}

proof fn lemma_char_digits_of_digits(v: Seq<char>)
    requires
        forall|i: int| 0 <= i < v.len() ==> is_digit_char(#[trigger] v[i]),
    ensures
        all_digits(char_digits(v)),
        char_digits(v).len() == v.len(),
{
    assert forall|i: int| 0 <= i < char_digits(v).len() implies #[trigger] char_digits(v)[i] < 10 by {
        assert(is_digit_char(v[i]));
    }
}

proof fn lemma_char_digits_injective(v: Seq<char>, w: Seq<char>)
    requires
        forall|i: int| 0 <= i < v.len() ==> is_digit_char(#[trigger] v[i]),
        forall|i: int| 0 <= i < w.len() ==> is_digit_char(#[trigger] w[i]),
        char_digits(v) == char_digits(w),
    ensures
        v == w,
{
    assert(v.len() == w.len()) by {
        assert(char_digits(v).len() == v.len());
        assert(char_digits(w).len() == w.len());
    }
    assert forall|i: int| 0 <= i < v.len() implies v[i] == w[i] by {
        let cv = v[i];
        let cw = w[i];
        let xv = cv as u32;
        let xw = cw as u32;
        assert(is_digit_char(cv) && is_digit_char(cw));
        assert(char_digits(v)[i] == ((xv - 48) as u8));
        assert(char_digits(w)[i] == ((xw - 48) as u8));
        assert(48 <= xv <= 57 && 48 <= xw <= 57);
        assert(xv == xw);
        vstd::utf8::char_u32_cast(cv, xv);
        vstd::utf8::char_u32_cast(cw, xw);
    }
    assert(v =~= w);
}

proof fn lemma_split_units(x1: nat, y1: nat, x2: nat, y2: nat, p: nat)
    requires
        y1 < p,
        y2 < p,
        x1 * p + y1 == x2 * p + y2,
    ensures
        x1 == x2,
        y1 == y2,
{
    if x1 < x2 {
        assert(x1 * p + y1 < x2 * p + y2) by (nonlinear_arith)
            requires
                x1 < x2,
                y1 < p,
        ;
    } else if x2 < x1 {
        assert(x2 * p + y2 < x1 * p + y1) by (nonlinear_arith)
            requires
                x2 < x1,
                y2 < p,
        ;
    }
}

/// The value of a canonical quantity, split into its integer and fractional digits.
proof fn lemma_units_split(v: Seq<char>)
    requires
        quantity_fault(v) is None,
    ensures
        quantity_units(v) == digits_value(char_digits(integer_part(v))) * pow10(quantity_scale(v))
            + digits_value(char_digits(fraction_part(v))),
        digits_value(char_digits(fraction_part(v))) < pow10(quantity_scale(v)),
{
    lemma_canonical_parts(v);
    let ip = integer_part(v);
    let fp = fraction_part(v);
    let all = char_digits(ip + fp);
    assert(all.take(ip.len() as int) =~= char_digits(ip));
    assert(all.skip(ip.len() as int) =~= char_digits(fp));
    crate::protocol::decimal::lemma_value_split(all, ip.len() as int);
    lemma_char_digits_of_digits(fp);
    crate::protocol::decimal::lemma_value_upper(char_digits(fp));
}

/// The last digit of a canonical quantity with a fraction is not zero.
proof fn lemma_units_last_digit(v: Seq<char>)
    requires
        quantity_fault(v) is None,
        quantity_scale(v) > 0,
    ensures
        quantity_units(v) % 10 != 0,
{
    lemma_canonical_parts(v);
    let all = char_digits(integer_part(v) + fraction_part(v));
    let f = fraction_part(v);
    assert(all.last() == char_digits(f).last());
    assert(is_digit_char(f.last()));
    assert(all.last() != 0);
    assert(digits_value(all) == digits_value(all.drop_last()) * 10 + all.last() as nat);
    assert(all.last() < 10);
}

/// Two canonical integer parts with one value are equal.
proof fn lemma_integer_parts_equal(a: Seq<char>, b: Seq<char>)
    requires
        quantity_fault(a) is None,
        quantity_fault(b) is None,
        digits_value(char_digits(integer_part(a))) == digits_value(char_digits(integer_part(b))),
        integer_part(a).len() <= integer_part(b).len(),
    ensures
        integer_part(a) == integer_part(b),
{
    lemma_canonical_parts(a);
    lemma_canonical_parts(b);
    let ia = integer_part(a);
    let ib = integer_part(b);
    lemma_char_digits_of_digits(ia);
    lemma_char_digits_of_digits(ib);
    if ia.len() < ib.len() {
        let db = char_digits(ib);
        assert(db[0] != 0) by {
            assert(ib[0] != '0');
            assert(is_digit_char(ib[0]));
        }
        crate::protocol::decimal::lemma_value_lower(db);
        crate::protocol::decimal::lemma_value_upper(char_digits(ia));
        crate::protocol::decimal::lemma_pow10_monotone(ia.len(), (ib.len() - 1) as nat);
        assert(false);
    }
    crate::protocol::decimal::lemma_value_injective(char_digits(ia), char_digits(ib));
    lemma_char_digits_injective(ia, ib);
}

/// A canonical quantity text is determined by its value: two canonical quantities that compare
/// equal have the same text.
pub proof fn lemma_canonical_quantity_unique(a: Seq<char>, b: Seq<char>)
    requires
        quantity_fault(a) is None,
        quantity_fault(b) is None,
        units_at_scale(a, common_scale(a, b)) == units_at_scale(b, common_scale(a, b)),
    ensures
        a == b,
{
    let sa = quantity_scale(a);
    let sb = quantity_scale(b);
    if sa != sb {
        let (lo, hi) = if sa < sb {
            (a, b)
        } else {
            (b, a)
        };
        let k = (quantity_scale(hi) - quantity_scale(lo)) as nat;
        assert(common_scale(a, b) == quantity_scale(hi));
        assert(units_at_scale(hi, quantity_scale(hi)) == quantity_units(hi) * pow10(0));
        assert(pow10(0) == 1);
        assert(units_at_scale(hi, quantity_scale(hi)) == quantity_units(hi)) by (nonlinear_arith)
            requires
                units_at_scale(hi, quantity_scale(hi)) == quantity_units(hi) * pow10(0),
                pow10(0) == 1,
        ;
        lemma_units_last_digit(hi);
        assert(pow10(k) == 10 * pow10((k - 1) as nat));
        let u = quantity_units(lo);
        let p = pow10((k - 1) as nat);
        assert(units_at_scale(lo, quantity_scale(hi)) == u * (10 * p));
        assert(u * (10 * p) == (u * p) * 10) by (nonlinear_arith);
        vstd::arithmetic::div_mod::lemma_mod_multiples_basic((u * p) as int, 10);
        assert(false);
    }
    assert(common_scale(a, b) == sa);
    assert(pow10(0) == 1);
    assert(units_at_scale(a, sa) == quantity_units(a)) by (nonlinear_arith)
        requires
            units_at_scale(a, sa) == quantity_units(a) * pow10(0),
            pow10(0) == 1,
    ;
    assert(units_at_scale(b, sa) == quantity_units(b)) by (nonlinear_arith)
        requires
            units_at_scale(b, sa) == quantity_units(b) * pow10(0),
            pow10(0) == 1,
    ;
    lemma_units_split(a);
    lemma_units_split(b);
    lemma_split_units(
        digits_value(char_digits(integer_part(a))),
        digits_value(char_digits(fraction_part(a))),
        digits_value(char_digits(integer_part(b))),
        digits_value(char_digits(fraction_part(b))),
        pow10(sa),
    );
    lemma_canonical_parts(a);
    lemma_canonical_parts(b);
    lemma_char_digits_of_digits(fraction_part(a));
    lemma_char_digits_of_digits(fraction_part(b));
    crate::protocol::decimal::lemma_value_injective(
        char_digits(fraction_part(a)),
        char_digits(fraction_part(b)),
    );
    lemma_char_digits_injective(fraction_part(a), fraction_part(b));
    if integer_part(a).len() <= integer_part(b).len() {
        lemma_integer_parts_equal(a, b);
    } else {
        lemma_integer_parts_equal(b, a);
    }
}

// ---------------------------------------------------------------------------------------------
// The canonical decimal grammar
// ---------------------------------------------------------------------------------------------

/// Every character is an ASCII decimal digit.
pub open spec fn digits_only(s: Seq<char>) -> bool {
    forall|i: int| 0 <= i < s.len() ==> is_digit_char(#[trigger] s[i])
}

/// `0`, or a digit run without a leading zero.
pub open spec fn canonical_integer_text(s: Seq<char>) -> bool {
    s == seq!['0'] || (s.len() >= 1 && s[0] != '0' && digits_only(s))
}

/// One to sixteen digits that do not end in zero.
pub open spec fn canonical_fraction_text(f: Seq<char>) -> bool {
    1 <= f.len() <= 16 && digits_only(f) && f.last() != '0'
}

/// The canonical decimal grammar `[1-9][0-9]* | (0|[1-9][0-9]*)\.[0-9]{0,15}[1-9]`.
pub open spec fn canonical_decimal_text(v: Seq<char>) -> bool {
    ||| (v.len() >= 1 && v[0] != '0' && digits_only(v))
    ||| exists|d: int|
        0 <= d < v.len() && #[trigger] v[d] == '.' && canonical_integer_text(v.take(d))
            && canonical_fraction_text(v.skip(d + 1))
}

/// A text is a valid quantity exactly when it is in the canonical decimal grammar.
pub proof fn lemma_quantity_grammar(v: Seq<char>)
    ensures
        (quantity_fault(v) is None) == canonical_decimal_text(v),
{
    if quantity_fault(v) is None {
        lemma_canonical_parts(v);
        let d = dot_index(v);
        let ip = integer_part(v);
        let fp = fraction_part(v);
        if fp.len() == 0 {
            assert(v[0] != '0') by {
                if v.len() == 1 && v[0] == '0' {
                    assert(v =~= seq!['0']);
                }
            }
            assert(digits_only(v));
        } else {
            assert(v[d] == '.') by {
                lemma_dot_props(v);
            }
            assert(v.take(d) == ip);
            assert(v.skip(d + 1) == fp);
            assert(canonical_integer_text(ip)) by {
                if d == 1 && ip[0] == '0' {
                    assert(ip =~= seq!['0']);
                }
            }
            assert(fp.len() <= 16);
        }
    } else if canonical_decimal_text(v) {
        if v.len() >= 1 && v[0] != '0' && digits_only(v) {
            assert forall|j: int| 0 <= j < v.len() implies v[j] != '.' by {
                assert(is_digit_char(v[j]));
            }
            lemma_dot_index(v, v.len() as int);
            assert(!v.contains('e') && !v.contains('E')) by {
                assert forall|i: int| 0 <= i < v.len() implies v[i] != 'e' && v[i] != 'E' by {
                    assert(is_digit_char(v[i]));
                }
            }
            assert(!has_two_dots(v)) by {
                assert forall|i: int, j: int| 0 <= i < j < v.len() implies !(v[i] == '.' && v[j]
                    == '.') by {
                    assert(is_digit_char(v[i]));
                }
            }
            assert(v != seq!['0']) by {
                if v == seq!['0'] {
                    assert(v[0] == '0');
                }
            }
        } else {
            let d = choose|d: int|
                0 <= d < v.len() && #[trigger] v[d] == '.' && canonical_integer_text(v.take(d))
                    && canonical_fraction_text(v.skip(d + 1));
            let ip = v.take(d);
            let fp = v.skip(d + 1);
            assert(ip.len() >= 1) by {
                if ip == seq!['0'] {
                    assert(ip.len() == 1);
                }
            }
            assert(digits_only(ip)) by {
                if ip == seq!['0'] {
                    assert(is_digit_char(ip[0]));
                }
            }
            assert forall|j: int| 0 <= j < v.len() && j != d implies is_digit_char(#[trigger] v[j]) by {
                if j < d {
                    assert(v[j] == ip[j]);
                } else {
                    assert(v[j] == fp[j - d - 1]);
                }
            }
            assert forall|j: int| 0 <= j < d implies v[j] != '.' by {
                assert(is_digit_char(v[j]));
            }
            lemma_dot_index(v, d);
            assert(!v.contains('e') && !v.contains('E')) by {
                assert forall|i: int| 0 <= i < v.len() implies v[i] != 'e' && v[i] != 'E' by {
                    if i != d {
                        assert(is_digit_char(v[i]));
                    }
                }
            }
            assert(forall|i: int| 0 <= i < v.len() ==> is_digit_char(#[trigger] v[i]) || v[i] == '.');
            assert(!has_two_dots(v)) by {
                assert forall|i: int, j: int| 0 <= i < j < v.len() implies !(v[i] == '.' && v[j]
                    == '.') by {
                    if i != d {
                        assert(is_digit_char(v[i]));
                    } else {
                        assert(is_digit_char(v[j]));
                    }
                }
            }
            assert(v[0] == ip[0]);
            assert(is_digit_char(v[0]));
            assert(fraction_part(v) == fp);
            assert(d > 1 ==> v[0] != '0') by {
                if d > 1 {
                    assert(ip != seq!['0']) by {
                        assert(ip.len() > 1);
                    }
                }
            }
        }
    }
}

proof fn lemma_decimal_chars_canonical(n: nat)
    ensures
        decimal_chars(n).len() >= 1,
        digits_only(decimal_chars(n)),
        n >= 1 ==> decimal_chars(n)[0] != '0',
        decimal_chars(n).len() > 1 ==> decimal_chars(n)[0] != '0',
        decimal_text_value(decimal_chars(n)) == n,
    decreases n,
{
    let c = digit_char(n % 10);
    assert(is_digit_char(c) && ((c as u32) - 48) as u8 == n % 10 && (n % 10 != 0 ==> c != '0')) by {
        assert(48 <= n % 10 + 48 < 58);
    }
    if n < 10 {
        let t = decimal_chars(n);
        assert(t == seq![c]);
        assert(char_digits(t) =~= seq![(n % 10) as u8]);
        crate::protocol::decimal::lemma_value_single((n % 10) as u8);
    } else {
        lemma_decimal_chars_canonical(n / 10);
        let s = decimal_chars(n / 10);
        let t = decimal_chars(n);
        assert(t == s.push(c));
        assert(t[0] == s[0]);
        assert(digits_only(t)) by {
            assert forall|i: int| 0 <= i < t.len() implies is_digit_char(#[trigger] t[i]) by {
                if i < s.len() {
                    assert(t[i] == s[i]);
                }
            }
        }
        assert(char_digits(t) =~= char_digits(s).push((n % 10) as u8));
        crate::protocol::decimal::lemma_value_push(char_digits(s), (n % 10) as u8);
    }
}

/// The decimal text of every positive integer is a canonical quantity; parsing it keeps the text.
pub proof fn lemma_integer_quantity_text(n: nat)
    requires
        n >= 1,
    ensures
        quantity_fault(decimal_chars(n)) is None,
        canonical_decimal_text(decimal_chars(n)),
{
    lemma_decimal_chars_canonical(n);
    lemma_quantity_grammar(decimal_chars(n));
}

/// The decimal text of a whole number is a quantity of scale zero whose units are the number.
pub proof fn lemma_integer_quantity_units(n: nat)
    ensures
        quantity_scale(decimal_chars(n)) == 0,
        quantity_units(decimal_chars(n)) == n,
{
    let v = decimal_chars(n);
    lemma_decimal_chars_canonical(n);
    assert forall|j: int| 0 <= j < v.len() implies v[j] != '.' by {
        assert(is_digit_char(v[j]));
    }
    lemma_dot_index(v, v.len() as int);
    assert(integer_part(v) =~= v);
    assert(fraction_part(v) =~= Seq::<char>::empty());
    assert(integer_part(v) + fraction_part(v) =~= v);
}

proof fn lemma_canonical_digits_unique(s: Seq<char>, t: Seq<char>)
    requires
        s.len() >= 1,
        t.len() >= 1,
        digits_only(s),
        digits_only(t),
        s.len() > 1 ==> s[0] != '0',
        t.len() > 1 ==> t[0] != '0',
        s.len() <= t.len(),
        decimal_text_value(s) == decimal_text_value(t),
    ensures
        s == t,
{
    lemma_char_digits_of_digits(s);
    lemma_char_digits_of_digits(t);
    if s.len() < t.len() {
        let dt = char_digits(t);
        assert(dt[0] != 0) by {
            assert(is_digit_char(t[0]));
        }
        crate::protocol::decimal::lemma_value_lower(dt);
        crate::protocol::decimal::lemma_value_upper(char_digits(s));
        crate::protocol::decimal::lemma_pow10_monotone(s.len(), (t.len() - 1) as nat);
        assert(false);
    }
    crate::protocol::decimal::lemma_value_injective(char_digits(s), char_digits(t));
    lemma_char_digits_injective(s, t);
}

/// Every `u64` has a canonical timestamp text, its decimal text, which parses back to it; and
/// that is the only text that does.
pub proof fn lemma_timestamp_text_round_trip(value: u64, text: Seq<char>)
    ensures
        timestamp_fault(decimal_chars(value as nat)) is None,
        decimal_text_value(decimal_chars(value as nat)) == value,
        (timestamp_fault(text) is None && decimal_text_value(text) == value) == (text
            == decimal_chars(value as nat)),
{
    let d = decimal_chars(value as nat);
    lemma_decimal_chars_canonical(value as nat);
    if timestamp_fault(text) is None && decimal_text_value(text) == value {
        if text.len() <= d.len() {
            lemma_canonical_digits_unique(text, d);
        } else {
            lemma_canonical_digits_unique(d, text);
        }
    }
}

/// A canonical quantity is strictly positive.
pub proof fn lemma_quantity_positive(v: Seq<char>)
    requires
        quantity_fault(v) is None,
    ensures
        quantity_units(v) > 0,
{
    lemma_dot_props(v);
    let d = dot_index(v);
    let all = integer_part(v) + fraction_part(v);
    let ds = char_digits(all);
    if d < v.len() {
        let f = fraction_part(v);
        assert(all[all.len() - 1] == f.last());
        assert(ds[ds.len() - 1] != 0) by {
            assert(is_digit_char(f.last()));
        }
        crate::protocol::decimal::lemma_value_positive(ds, ds.len() - 1);
    } else {
        assert(all =~= v);
        assert(v[0] != '0') by {
            if v[0] == '0' {
                if v.len() == 1 {
                    assert(v =~= seq!['0']);
                }
            }
        }
        assert(is_digit_char(v[0]));
        assert(ds[0] != 0);
        crate::protocol::decimal::lemma_value_positive(ds, 0);
    }
}

// ---------------------------------------------------------------------------------------------
// Timestamps
// ---------------------------------------------------------------------------------------------

/// The value of a text of ASCII decimal digits.
pub open spec fn decimal_text_value(v: Seq<char>) -> nat {
    digits_value(char_digits(v))
}

/// Why a text is not canonical unsigned 64-bit decimal nanoseconds (checked in this order).
pub open spec fn timestamp_fault(v: Seq<char>) -> Option<ValueError> {
    if v.len() == 0 {
        Some(ValueError::EmptyTimestamp)
    } else if !(forall|i: int| 0 <= i < v.len() ==> is_digit_char(#[trigger] v[i])) || (v.len() > 1
        && v[0] == '0') {
        Some(ValueError::TimestampFormat)
    } else if decimal_text_value(v) > u64::MAX {
        Some(ValueError::TimestampRange)
    } else {
        None
    }
}

/// Stores unsigned Unix nanoseconds.
#[derive(Clone, Copy, Debug, PartialEq, Eq, Hash, PartialOrd, Ord, Structural)]
pub struct TimestampNs(u64);

impl View for TimestampNs {
    type V = u64;

    closed spec fn view(&self) -> u64 {
        self.0
    }
}

impl TimestampNs {
    /// Creates an unsigned Unix nanosecond timestamp.
    pub fn new(value: u64) -> (r: Self)
        ensures
            r@ == value,
    {
        TimestampNs(value)
    }

    /// Parses canonical unsigned Unix nanoseconds.
    pub fn parse(value: &str) -> (r: Result<Self, ValueError>)
        ensures
            match r {
                Ok(t) => timestamp_fault(value@) is None && t@ == decimal_text_value(value@),
                Err(e) => timestamp_fault(value@) == Some(e),
            },
    {
        let v = chars_of(value);
        let n = v.len();
        if n == 0 {
            return Err(ValueError::EmptyTimestamp);
        }
        let mut i: usize = 0;
        while i < n
            invariant
                v@ == value@,
                n == v@.len(),
                i <= n,
                forall|j: int| 0 <= j < i ==> is_digit_char(#[trigger] v@[j]),
            decreases n - i,
        {
            if !('0' <= v[i] && v[i] <= '9') {
                return Err(ValueError::TimestampFormat);
            }
            i = i + 1;
        }
        if n > 1 && v[0] == '0' {
            return Err(ValueError::TimestampFormat);
        }
        let mut acc: u64 = 0;
        let mut k: usize = 0;
        proof {
            assert(char_digits(v@.take(0)) =~= Seq::<u8>::empty());
        }
        while k < n
            invariant
                v@ == value@,
                n == v@.len(),
                k <= n,
                forall|j: int| 0 <= j < n ==> is_digit_char(#[trigger] v@[j]),
                !(n > 1 && v@[0] == '0'),
                acc == digits_value(char_digits(v@.take(k as int))),
            decreases n - k,
        {
            let code: u32 = v[k] as u32;
            let digit: u8 = (code - 48) as u8;
            proof {
                assert(char_digits(v@.take(k + 1)) =~= char_digits(v@.take(k as int)).push(digit));
                crate::protocol::decimal::lemma_value_push(char_digits(v@.take(k as int)), digit);
            }
            let next = match acc.checked_mul(10) {
                Some(t) => t.checked_add(digit as u64),
                None => None,
            };
            match next {
                Some(t) => {
                    acc = t;
                },
                None => {
                    proof {
                        lemma_prefix_bounds_value(char_digits(v@), k + 1);
                        assert(char_digits(v@).take(k + 1) =~= char_digits(v@.take(k + 1)));
                    }
                    return Err(ValueError::TimestampRange);
                },
            }
            k = k + 1;
        }
        proof {
            assert(v@.take(n as int) =~= v@);
        }
        Ok(TimestampNs(acc))
    }

    /// Returns the timestamp as an unsigned integer.
    pub fn as_u64(self) -> (r: u64)
        ensures
            r == self@,
    {
        self.0
    }
}

proof fn lemma_prefix_bounds_value(s: Seq<u8>, k: int)
    requires
        0 <= k <= s.len(),
    ensures
        digits_value(s.take(k)) <= digits_value(s),
{
    crate::protocol::decimal::lemma_value_split(s, k);
    crate::protocol::decimal::lemma_pow10_positive((s.len() - k) as nat);
    let h = digits_value(s.take(k));
    let p = pow10((s.len() - k) as nat);
    assert(p >= 1 ==> h * p >= h) by (nonlinear_arith);
}

// ---------------------------------------------------------------------------------------------
// Content digests
// ---------------------------------------------------------------------------------------------

/// The `sha256:` prefix of a content digest.
pub open spec fn digest_prefix() -> Seq<char> {
    seq!['s', 'h', 'a', '2', '5', '6', ':']
}

/// A lowercase hexadecimal digit.
pub open spec fn is_lower_hex(c: char) -> bool {
    is_digit_char(c) || ('a' <= c && c <= 'f')
}

/// `sha256:` followed by exactly 64 lowercase hexadecimal digits.
pub open spec fn digest_format(v: Seq<char>) -> bool {
    &&& v.len() == 71
    &&& v.take(7) == digest_prefix()
    &&& forall|i: int| 7 <= i < 71 ==> is_lower_hex(#[trigger] v[i])
}

/// Two lowercase hexadecimal digits per byte, most significant nibble first.
pub open spec fn hex_pairs(b: Seq<u8>) -> Seq<char>
    decreases b.len(),
{
    if b.len() == 0 {
        Seq::empty()
    } else {
        hex_pairs(b.drop_last()) + seq![
            hex_char((b.last() / 16) as nat),
            hex_char((b.last() % 16) as nat),
        ]
    }
}

/// The digest text for 32 SHA-256 bytes.
pub open spec fn digest_text(b: Seq<u8>) -> Seq<char> {
    digest_prefix() + hex_pairs(b)
}

proof fn lemma_hex_pairs(b: Seq<u8>)
    ensures
        hex_pairs(b).len() == 2 * b.len(),
        forall|i: int| 0 <= i < hex_pairs(b).len() ==> is_lower_hex(#[trigger] hex_pairs(b)[i]),
    decreases b.len(),
{
    if b.len() > 0 {
        lemma_hex_pairs(b.drop_last());
        let hi = (b.last() / 16) as nat;
        let lo = (b.last() % 16) as nat;
        assert(is_lower_hex(hex_char(hi)));
        assert(is_lower_hex(hex_char(lo)));
    }
}

/// Stores a lowercase SHA-256 content digest.
#[derive(Debug, PartialEq, Eq, Hash, PartialOrd, Ord)]
pub struct ContentDigest(String);

impl View for ContentDigest {
    type V = Seq<char>;

    closed spec fn view(&self) -> Seq<char> {
        self.0@
    }
}

impl Clone for ContentDigest {
    fn clone(&self) -> (r: Self)
        ensures
            r == *self,
    {
        proof {
            use_type_invariant(self);
        }
        ContentDigest(self.0.clone())
    }
}

impl ContentDigest {
    #[verifier::type_invariant]
    spec fn well_formed(self) -> bool {
        digest_format(self.0@)
    }

    /// Creates a digest from 32 SHA-256 bytes.
    pub fn new(bytes: [u8; 32]) -> (r: Self)
        ensures
            r@ == digest_text(bytes@),
    {
        let mut value = String::new();
        push_char(&mut value, 's');
        push_char(&mut value, 'h');
        push_char(&mut value, 'a');
        push_char(&mut value, '2');
        push_char(&mut value, '5');
        push_char(&mut value, '6');
        push_char(&mut value, ':');
        let mut i: usize = 0;
        proof {
            assert(value@ =~= digest_prefix());
            assert(bytes@.take(0) =~= Seq::<u8>::empty());
            assert(digest_prefix() + hex_pairs(Seq::<u8>::empty()) =~= digest_prefix());
        }
        while i < 32
            invariant
                i <= 32,
                bytes@.len() == 32,
                value@ == digest_prefix() + hex_pairs(bytes@.take(i as int)),
            decreases 32 - i,
        {
            let byte = bytes[i];
            let hi = nibble_to_char(byte / 16);
            let lo = nibble_to_char(byte % 16);
            push_char(&mut value, hi);
            push_char(&mut value, lo);
            proof {
                assert(bytes@.take(i + 1).drop_last() =~= bytes@.take(i as int));
                assert(value@ =~= digest_prefix() + hex_pairs(bytes@.take(i + 1)));
            }
            i = i + 1;
        }
        proof {
            assert(bytes@.take(32) =~= bytes@);
            lemma_hex_pairs(bytes@);
            assert(value@.take(7) =~= digest_prefix());
            assert forall|k: int| 7 <= k < 71 implies is_lower_hex(#[trigger] value@[k]) by {
                assert(value@[k] == hex_pairs(bytes@)[k - 7]);
            }
        }
        ContentDigest(value)
    }

    /// Parses a lowercase SHA-256 digest.
    pub fn parse(value: &str) -> (r: Result<Self, ValueError>)
        ensures
            match r {
                Ok(d) => digest_format(value@) && d@ == value@,
                Err(e) => !digest_format(value@) && e == ValueError::DigestFormat,
            },
    {
        let v = chars_of(value);
        if v.len() != 71 {
            return Err(ValueError::DigestFormat);
        }
        let prefix = ['s', 'h', 'a', '2', '5', '6', ':'];
        let mut i: usize = 0;
        while i < 7
            invariant
                v@ == value@,
                v@.len() == 71,
                i <= 7,
                prefix@ == digest_prefix(),
                forall|j: int| 0 <= j < i ==> v@[j] == digest_prefix()[j],
            decreases 7 - i,
        {
            if v[i] != prefix[i] {
                assert(v@.take(7)[i as int] != digest_prefix()[i as int]);
                return Err(ValueError::DigestFormat);
            }
            i = i + 1;
        }
        assert(v@.take(7) =~= digest_prefix());
        while i < 71
            invariant
                v@ == value@,
                v@.take(7) == digest_prefix(),
                v@.len() == 71,
                7 <= i <= 71,
                forall|j: int| 7 <= j < i ==> is_lower_hex(#[trigger] v@[j]),
            decreases 71 - i,
        {
            let c = v[i];
            if !(('0' <= c && c <= '9') || ('a' <= c && c <= 'f')) {
                return Err(ValueError::DigestFormat);
            }
            i = i + 1;
        }
        Ok(ContentDigest(owned(value)))
    }

    /// Returns the prefixed digest text.
    pub fn as_str(&self) -> (r: &str)
        ensures
            r@ == self@,
            digest_format(r@),
    {
        proof {
            use_type_invariant(self);
        }
        self.0.as_str()
    }

    /// Compares two digests by text.
    pub fn same_as(&self, other: &Self) -> (r: bool)
        ensures
            r == (self@ == other@),
    {
        str_equal(self.0.as_str(), other.0.as_str())
    }
}

// ---------------------------------------------------------------------------------------------
// Field paths
// ---------------------------------------------------------------------------------------------

/// Every `~` is followed by `0` or `1` (the escaped character is consumed with the tilde).
pub open spec fn pointer_escapes_ok(v: Seq<char>) -> bool
    decreases v.len(),
{
    if v.len() == 0 {
        true
    } else if v[0] == '~' {
        v.len() >= 2 && (v[1] == '0' || v[1] == '1') && pointer_escapes_ok(v.skip(2))
    } else {
        pointer_escapes_ok(v.skip(1))
    }
}

/// An RFC 6901 JSON Pointer: empty, or starting with `/`, with only `~0` and `~1` escapes.
pub open spec fn field_path_format(v: Seq<char>) -> bool {
    (v.len() == 0 || v[0] == '/') && pointer_escapes_ok(v)
}

proof fn lemma_no_tilde_escapes_ok(v: Seq<char>)
    requires
        forall|i: int| 0 <= i < v.len() ==> v[i] != '~',
    ensures
        pointer_escapes_ok(v),
    decreases v.len(),
{
    if v.len() > 0 {
        assert(v[0] != '~');
        let rest = v.skip(1);
        assert forall|i: int| 0 <= i < rest.len() implies rest[i] != '~' by {
            assert(rest[i] == v[i + 1]);
        }
        lemma_no_tilde_escapes_ok(rest);
    }
}

/// A text that is empty or starts with `/`, and holds no `~`, is a JSON Pointer.
pub proof fn lemma_plain_pointer(v: Seq<char>)
    requires
        v.len() == 0 || v[0] == '/',
        forall|i: int| 0 <= i < v.len() ==> v[i] != '~',
    ensures
        field_path_format(v),
{
    lemma_no_tilde_escapes_ok(v);
}

/// Stores an RFC 6901 JSON Pointer.
#[derive(Debug, PartialEq, Eq, Hash, PartialOrd, Ord)]
pub struct FieldPath(String);

impl View for FieldPath {
    type V = Seq<char>;

    closed spec fn view(&self) -> Seq<char> {
        self.0@
    }
}

impl Clone for FieldPath {
    fn clone(&self) -> (r: Self)
        ensures
            r == *self,
    {
        proof {
            use_type_invariant(self);
        }
        FieldPath(self.0.clone())
    }
}

impl FieldPath {
    #[verifier::type_invariant]
    spec fn well_formed(self) -> bool {
        field_path_format(self.0@)
    }

    /// Creates a checked JSON Pointer.
    pub fn new(value: &str) -> (r: Result<Self, ValueError>)
        ensures
            match r {
                Ok(p) => field_path_format(value@) && p@ == value@,
                Err(e) => !field_path_format(value@) && e == ValueError::FieldPathFormat,
            },
    {
        Self::parse(value)
    }

    /// Parses an RFC 6901 JSON Pointer.
    pub fn parse(value: &str) -> (r: Result<Self, ValueError>)
        ensures
            match r {
                Ok(p) => field_path_format(value@) && p@ == value@,
                Err(e) => !field_path_format(value@) && e == ValueError::FieldPathFormat,
            },
    {
        let v = chars_of(value);
        let n = v.len();
        if n > 0 && v[0] != '/' {
            return Err(ValueError::FieldPathFormat);
        }
        let mut i: usize = 0;
        assert(v@.skip(0) =~= v@);
        while i < n
            invariant
                v@ == value@,
                n == v@.len(),
                i <= n,
                pointer_escapes_ok(v@) == pointer_escapes_ok(v@.skip(i as int)),
            decreases n - i,
        {
            let rest = Ghost(v@.skip(i as int));
            if v[i] == '~' {
                if i + 1 < n && (v[i + 1] == '0' || v[i + 1] == '1') {
                    assert(rest@.skip(2) =~= v@.skip(i + 2));
                    i = i + 2;
                } else {
                    assert(rest@[0] == '~');
                    assert(i + 1 < n ==> rest@[1] == v@[i + 1]);
                    return Err(ValueError::FieldPathFormat);
                }
            } else {
                assert(rest@.skip(1) =~= v@.skip(i + 1));
                i = i + 1;
            }
        }
        proof {
            assert(v@.skip(i as int) =~= Seq::<char>::empty());
        }
        Ok(FieldPath(owned(value)))
    }

    /// Returns the JSON Pointer text.
    pub fn as_str(&self) -> (r: &str)
        ensures
            r@ == self@,
            field_path_format(r@),
    {
        proof {
            use_type_invariant(self);
        }
        self.0.as_str()
    }

    /// Compares two paths by text.
    pub fn same_as(&self, other: &Self) -> (r: bool)
        ensures
            r == (self@ == other@),
    {
        str_equal(self.0.as_str(), other.0.as_str())
    }
}

impl core::str::FromStr for InstrumentId {
    type Err = ValueError;

    fn from_str(value: &str) -> (r: Result<Self, ValueError>)
        ensures
            match r {
                Ok(id) => identifier_fault(value@) is None && id@ == value@,
                Err(e) => identifier_fault(value@) == Some(e),
            },
    {
        Self::parse(value)
    }
}

impl core::str::FromStr for PositionId {
    type Err = ValueError;

    fn from_str(value: &str) -> (r: Result<Self, ValueError>)
        ensures
            match r {
                Ok(id) => identifier_fault(value@) is None && id@ == value@,
                Err(e) => identifier_fault(value@) == Some(e),
            },
    {
        Self::parse(value)
    }
}

impl core::str::FromStr for Quantity {
    type Err = ValueError;

    fn from_str(value: &str) -> (r: Result<Self, ValueError>)
        ensures
            match r {
                Ok(q) => quantity_fault(value@) is None && q@ == value@,
                Err(e) => quantity_fault(value@) == Some(e),
            },
    {
        Self::parse(value)
    }
}

impl core::str::FromStr for TimestampNs {
    type Err = ValueError;

    fn from_str(value: &str) -> (r: Result<Self, ValueError>)
        ensures
            match r {
                Ok(t) => timestamp_fault(value@) is None && t@ == decimal_text_value(value@),
                Err(e) => timestamp_fault(value@) == Some(e),
            },
    {
        Self::parse(value)
    }
}

impl core::str::FromStr for ContentDigest {
    type Err = ValueError;

    fn from_str(value: &str) -> (r: Result<Self, ValueError>)
        ensures
            match r {
                Ok(d) => digest_format(value@) && d@ == value@,
                Err(e) => !digest_format(value@) && e == ValueError::DigestFormat,
            },
    {
        Self::parse(value)
    }
}

impl core::str::FromStr for FieldPath {
    type Err = ValueError;

    fn from_str(value: &str) -> (r: Result<Self, ValueError>)
        ensures
            match r {
                Ok(p) => field_path_format(value@) && p@ == value@,
                Err(e) => !field_path_format(value@) && e == ValueError::FieldPathFormat,
            },
    {
        Self::parse(value)
    }
}

} // verus!
