//! Text helpers shared by the protocol values: decimal and hexadecimal rendering,
//! string comparison and character classes.
use vstd::prelude::*;
use vstd::utf8::*;

verus! {

broadcast use vstd::seq::group_seq_axioms;

/// The ASCII decimal digit for a value below ten.
pub open spec fn digit_char(d: nat) -> char {
    ((d + 48) as u32) as char
}

/// The lowercase hexadecimal digit for a value below sixteen.
pub open spec fn hex_char(d: nat) -> char {
    if d < 10 {
        ((d + 48) as u32) as char
    } else {
        ((d + 87) as u32) as char
    }
}

/// The canonical decimal text of a natural number (no sign, no leading zero).
pub open spec fn decimal_chars(n: nat) -> Seq<char>
    decreases n,
{
    if n < 10 {
        seq![digit_char(n)]
    } else {
        decimal_chars(n / 10).push(digit_char(n % 10))
    }
}

/// The ASCII bytes of [`decimal_chars`].
pub open spec fn decimal_bytes(n: nat) -> Seq<u8>
    decreases n,
{
    if n < 10 {
        seq![(n + 48) as u8]
    } else {
        decimal_bytes(n / 10).push((n % 10 + 48) as u8)
    }
}

/// Whether a character belongs to the Unicode `Cc` (control) category.
pub open spec fn is_control_char(c: char) -> bool {
    (c as u32) < 0x20 || (0x7f <= (c as u32) && (c as u32) <= 0x9f)
}

/// Whether a character is an ASCII decimal digit.
pub open spec fn is_digit_char(c: char) -> bool {
    '0' <= c && c <= '9'
}

/// Appends one character to a `String` (std `String::push`).
#[verifier::external_body]
pub(crate) fn push_char(s: &mut String, c: char)
    ensures
        final(s)@ == old(s)@.push(c),
{
    s.push(c);
}

/// Converts a value below ten to its decimal digit character.
pub fn digit_to_char(d: u8) -> (c: char)
    requires
        d < 10,
    ensures
        c == digit_char(d as nat),
{
    let code: u8 = d + 48;
    code as char
}

/// Converts a value below sixteen to its lowercase hexadecimal digit character.
pub fn nibble_to_char(d: u8) -> (c: char)
    requires
        d < 16,
    ensures
        c == hex_char(d as nat),
{
    if d < 10 {
        let code: u8 = d + 48;
        code as char
    } else {
        let code: u8 = d + 87;
        code as char
    }
}

/// Appends the decimal text of `n` to `out`.
pub fn push_decimal(out: &mut String, n: u128)
    ensures
        final(out)@ == old(out)@ + decimal_chars(n as nat),
    decreases n,
{
    if n >= 10 {
        push_decimal(out, n / 10);
    }
    let d: u8 = (n % 10) as u8;
    let c = digit_to_char(d);
    push_char(out, c);
    proof {
        reveal_with_fuel(decimal_chars, 2);
        if n >= 10 {
            assert(decimal_chars(n as nat) == decimal_chars((n / 10) as nat).push(digit_char((n % 10) as nat)));
        } else {
            assert(decimal_chars(n as nat) == seq![digit_char(n as nat)]);
        }
    }
}

/// Appends the decimal ASCII bytes of `n` to `out`.
pub fn push_decimal_bytes(out: &mut Vec<u8>, n: u128)
    ensures
        final(out)@ == old(out)@ + decimal_bytes(n as nat),
    decreases n,
{
    if n >= 10 {
        push_decimal_bytes(out, n / 10);
    }
    let d: u8 = (n % 10) as u8;
    out.push(d + 48);
    proof {
        if n >= 10 {
            assert(decimal_bytes(n as nat) == decimal_bytes((n / 10) as nat).push(((n % 10) as nat + 48) as u8));
        } else {
            assert(decimal_bytes(n as nat) == seq![(n as nat + 48) as u8]);
        }
    }
}

/// Returns a fresh `String` holding the decimal text of `n`.
pub fn decimal_string(n: u128) -> (s: String)
    ensures
        s@ == decimal_chars(n as nat),
{
    let mut s = String::new();
    push_decimal(&mut s, n);
    assert(s@ =~= decimal_chars(n as nat));
    s
}

/// Two character sequences are equal exactly when their UTF-8 encodings are.
pub proof fn lemma_encode_utf8_injective(a: Seq<char>, b: Seq<char>)
    ensures
        (encode_utf8(a) == encode_utf8(b)) == (a == b),
{
    encode_utf8_decode_utf8(a);
    encode_utf8_decode_utf8(b);
}

/// Compares two string slices by content.
pub fn str_equal(a: &str, b: &str) -> (r: bool)
    ensures
        r == (a@ == b@),
{
    let x = a.as_bytes();
    let y = b.as_bytes();
    proof {
        lemma_encode_utf8_injective(a@, b@);
    }
    if x.len() != y.len() {
        return false;
    }
    let mut i: usize = 0;
    while i < x.len()
        invariant
            x@ == encode_utf8(a@),
            y@ == encode_utf8(b@),
            x@.len() == y@.len(),
            i <= x@.len(),
            forall|j: int| 0 <= j < i ==> x@[j] == y@[j],
        decreases x@.len() - i,
    {
        if x[i] != y[i] {
            return false;
        }
        i = i + 1;
    }
    assert(x@ =~= y@);
    true
}

/// Copies a string slice into an owned `String`.
pub fn owned(s: &str) -> (r: String)
    ensures
        r@ == s@,
{
    s.to_owned()
}

/// Collects the characters of a string slice.
pub fn chars_of(s: &str) -> (r: Vec<char>)
    ensures
        r@ == s@,
{
    let mut out: Vec<char> = Vec::new();
    for c in it: s.chars()
        invariant
            it.seq() == s@,
            out@ == s@.take(it.index() as int),
    {
        out.push(c);
        assert(out@ =~= s@.take(it.index() + 1));
    }
    assert(out@ =~= s@);
    out
}

/// The text that `{:?}` renders for a string: std's `<str as Debug>::fmt`, which quotes the
/// text and escapes quotes, backslashes and characters it does not print.
pub uninterp spec fn str_debug_text(s: Seq<char>) -> Seq<char>;

/// Renders a string slice as `{:?}` does (std `<str as Debug>::fmt`).
#[verifier::external_body]
pub(crate) fn debug_str(s: &str) -> (r: String)
    ensures
        r@ == str_debug_text(s@),
{
    format!("{:?}", s)
}

/// Compares collected characters with the characters of a string slice.
pub fn chars_equal(a: &Vec<char>, b: &str) -> (r: bool)
    ensures
        r == (a@ == b@),
{
    let c = chars_of(b);
    if a.len() != c.len() {
        return false;
    }
    let mut i: usize = 0;
    while i < a.len()
        invariant
            c@ == b@,
            a@.len() == c@.len(),
            i <= a@.len(),
            forall|j: int| 0 <= j < i ==> a@[j] == c@[j],
        decreases a@.len() - i,
    {
        if a[i] != c[i] {
            return false;
        }
        i = i + 1;
    }
    assert(a@ =~= c@);
    true
}

/// Returns whether any character is a Unicode control character.
pub fn contains_control(value: &str) -> (r: bool)
    ensures
        r == exists|i: int| 0 <= i < value@.len() && is_control_char(#[trigger] value@[i]),
{
    let mut found = false;
    for c in it: value.chars()
        invariant
            it.seq() == value@,
            found == exists|i: int| 0 <= i < it.index() && is_control_char(#[trigger] value@[i]),
    {
        let code = c as u32;
        if code < 0x20 || (0x7f <= code && code <= 0x9f) {
            found = true;
        }
    }
    found
}

} // verus!
