//! Small computations around the store: random password generation and the
//! lexicographic ordering of service listings.
//!
//! Prompting, clipboard access and directory walking are the caller's
//! part; what is decided here — which characters a generated password may
//! hold, and in which order services are listed — is verified.

use vstd::prelude::*;
use vstd::utf8::decode_utf8;
use vstd::utf8::encode_utf8;
use vstd::utf8::encode_utf8_decode_utf8;
use vstd::utf8::encode_utf8_valid_utf8;
use vstd::utf8::is_ascii_chars;
use vstd::utf8::is_ascii_chars_encode_utf8;
use vstd::utf8::valid_utf8;

use crate::error::IoErrorKind;
use crate::error::PassmanError;
use crate::storage::bytes_to_string;

use rand::Rng;

verus! {

/// Relies on `rand::rng` and `rand::Rng::random_range`: the drawn index
/// lies in `[0, bound)`.  Nothing more is stated — the draw is random.
#[verifier::external_body]
fn random_index(bound: usize) -> (r: usize)
    requires
        bound > 0,
    ensures
        r < bound,
{
    let mut rng = rand::rng();
    rng.random_range(0..bound)
}

/// The bytes a generated password may consist of: the ASCII letters
/// `A`-`Z` and `a`-`z`, the digits `0`-`9`, and the punctuation
/// `!@#$%^&*()_+-=[]{}|;:,.<>?`.
pub open spec fn password_charset_bytes() -> Seq<u8> {
    seq![
        0x41u8, 0x42u8, 0x43u8, 0x44u8, 0x45u8, 0x46u8, 0x47u8, 0x48u8, 0x49u8, 0x4Au8, 0x4Bu8,
        0x4Cu8, 0x4Du8, 0x4Eu8, 0x4Fu8, 0x50u8, 0x51u8, 0x52u8, 0x53u8, 0x54u8, 0x55u8, 0x56u8,
        0x57u8, 0x58u8, 0x59u8, 0x5Au8, 0x61u8, 0x62u8, 0x63u8, 0x64u8, 0x65u8, 0x66u8, 0x67u8,
        0x68u8, 0x69u8, 0x6Au8, 0x6Bu8, 0x6Cu8, 0x6Du8, 0x6Eu8, 0x6Fu8, 0x70u8, 0x71u8, 0x72u8,
        0x73u8, 0x74u8, 0x75u8, 0x76u8, 0x77u8, 0x78u8, 0x79u8, 0x7Au8, 0x30u8, 0x31u8, 0x32u8,
        0x33u8, 0x34u8, 0x35u8, 0x36u8, 0x37u8, 0x38u8, 0x39u8, 0x21u8, 0x40u8, 0x23u8, 0x24u8,
        0x25u8, 0x5Eu8, 0x26u8, 0x2Au8, 0x28u8, 0x29u8, 0x5Fu8, 0x2Bu8, 0x2Du8, 0x3Du8, 0x5Bu8,
        0x5Du8, 0x7Bu8, 0x7Du8, 0x7Cu8, 0x3Bu8, 0x3Au8, 0x2Cu8, 0x2Eu8, 0x3Cu8, 0x3Eu8, 0x3Fu8,
    ]
}

/// The characters a generated password may consist of.
pub open spec fn password_charset() -> Seq<char> {
    Seq::new(password_charset_bytes().len(), |i: int| password_charset_bytes()[i] as char)
}

/// A sequence of bytes below 0x80 is valid UTF-8 and decodes byte by byte.
proof fn lemma_ascii_bytes_decode(bytes: Seq<u8>)
    requires
        forall|i: int| 0 <= i < bytes.len() ==> bytes[i] < 0x80,
    ensures
        valid_utf8(bytes),
        decode_utf8(bytes).len() == bytes.len(),
        forall|i: int| 0 <= i < bytes.len() ==> decode_utf8(bytes)[i] == bytes[i] as char,
{
    let chars = Seq::new(bytes.len(), |i: int| bytes[i] as char);
    assert(is_ascii_chars(chars));
    is_ascii_chars_encode_utf8(chars);
    assert(encode_utf8(chars) =~= bytes);
    encode_utf8_valid_utf8(chars);
    encode_utf8_decode_utf8(chars);
}

/// Generate a random password of the given length, drawn character by
/// character from [`password_charset`].
#[verifier::rlimit(30)]
pub fn generate_random_password(length: usize) -> (r: String)
    ensures
        r@.len() == length,
        forall|i: int| 0 <= i < r@.len() ==> password_charset().contains(#[trigger] r@[i]),
{
    let charset: Vec<u8> = vec![
        0x41u8, 0x42u8, 0x43u8, 0x44u8, 0x45u8, 0x46u8, 0x47u8, 0x48u8, 0x49u8, 0x4Au8, 0x4Bu8,
        0x4Cu8, 0x4Du8, 0x4Eu8, 0x4Fu8, 0x50u8, 0x51u8, 0x52u8, 0x53u8, 0x54u8, 0x55u8, 0x56u8,
        0x57u8, 0x58u8, 0x59u8, 0x5Au8, 0x61u8, 0x62u8, 0x63u8, 0x64u8, 0x65u8, 0x66u8, 0x67u8,
        0x68u8, 0x69u8, 0x6Au8, 0x6Bu8, 0x6Cu8, 0x6Du8, 0x6Eu8, 0x6Fu8, 0x70u8, 0x71u8, 0x72u8,
        0x73u8, 0x74u8, 0x75u8, 0x76u8, 0x77u8, 0x78u8, 0x79u8, 0x7Au8, 0x30u8, 0x31u8, 0x32u8,
        0x33u8, 0x34u8, 0x35u8, 0x36u8, 0x37u8, 0x38u8, 0x39u8, 0x21u8, 0x40u8, 0x23u8, 0x24u8,
        0x25u8, 0x5Eu8, 0x26u8, 0x2Au8, 0x28u8, 0x29u8, 0x5Fu8, 0x2Bu8, 0x2Du8, 0x3Du8, 0x5Bu8,
        0x5Du8, 0x7Bu8, 0x7Du8, 0x7Cu8, 0x3Bu8, 0x3Au8, 0x2Cu8, 0x2Eu8, 0x3Cu8, 0x3Eu8, 0x3Fu8,
    ];
    proof {
        assert(charset@ =~= password_charset_bytes());
        assert(forall|k: int|
            0 <= k < password_charset_bytes().len() ==> password_charset_bytes()[k] < 0x80);
    }
    let mut pw: Vec<u8> = Vec::new();
    let mut i: usize = 0;
    while i < length
        invariant
            pw@.len() == i,
            i <= length,
            charset@ == password_charset_bytes(),
            forall|j: int|
                0 <= j < i ==> password_charset_bytes().contains(#[trigger] pw@[j]),
        decreases length - i,
    {
        let idx = random_index(charset.len());
        let c = charset[idx];
        proof {
            assert(password_charset_bytes()[idx as int] == c);
            assert(password_charset_bytes().contains(c));
        }
        pw.push(c);
        i += 1;
    }
    proof {
        assert(forall|j: int| 0 <= j < pw@.len() ==> pw@[j] < 0x80) by {
            assert(forall|k: int|
                0 <= k < password_charset_bytes().len() ==> password_charset_bytes()[k] < 0x80);
        }
        lemma_ascii_bytes_decode(pw@);
        assert(forall|j: int|
            0 <= j < pw@.len() ==> password_charset().contains(
                #[trigger] decode_utf8(pw@)[j],
            )) by {
            assert forall|j: int| 0 <= j < pw@.len() implies password_charset().contains(
                decode_utf8(pw@)[j],
            ) by {
                let b = pw@[j];
                let k = choose|k: int|
                    0 <= k < password_charset_bytes().len() && password_charset_bytes()[k] == b;
                assert(password_charset()[k] == b as char);
            }
        }
    }
    match bytes_to_string(pw) {
        Ok(s) => s,
        Err(_) => {
            proof {
                assert(false);
            }
            String::new()
        },
    }
}

/// Whether a byte is an ASCII decimal digit.
pub open spec fn is_digit_byte(b: u8) -> bool {
    0x30 <= b <= 0x39
}

/// Whether every byte of a sequence is an ASCII decimal digit.
pub open spec fn all_digits(s: Seq<u8>) -> bool {
    forall|i: int| 0 <= i < s.len() ==> is_digit_byte(#[trigger] s[i])
}

/// The number an ASCII digit sequence denotes in decimal.
pub open spec fn decimal_value(s: Seq<u8>) -> int
    decreases s.len(),
{
    if s.len() == 0 {
        0
    } else {
        decimal_value(s.drop_last()) * 10 + (s.last() - 0x30)
    }
}

/// The digit part of a selection input: unsigned decimal parsing accepts
/// one optional leading `+`.
pub open spec fn selection_digits(s: Seq<u8>) -> Seq<u8> {
    if s.len() > 0 && s[0] == 0x2B {
        s.drop_first()
    } else {
        s
    }
}

/// Whether a selection input names an entry of a listing of `count`
/// services: a nonempty decimal number between 1 and `count`.
pub open spec fn valid_selection(s: Seq<u8>, count: int) -> bool {
    let d = selection_digits(s);
    d.len() > 0 && all_digits(d) && 1 <= decimal_value(d) <= count
}

/// A digit sequence denotes a nonnegative number.
proof fn lemma_decimal_value_nonneg(s: Seq<u8>)
    requires
        all_digits(s),
    ensures
        decimal_value(s) >= 0,
    decreases s.len(),
{
    if s.len() > 0 {
        assert(all_digits(s.drop_last()));
        lemma_decimal_value_nonneg(s.drop_last());
    }
}

/// Reading further digits never shrinks the number read so far.
proof fn lemma_decimal_prefix_le(s: Seq<u8>, i: int)
    requires
        all_digits(s),
        0 <= i <= s.len(),
    ensures
        decimal_value(s.take(i)) <= decimal_value(s),
    decreases s.len() - i,
{
    if i == s.len() {
        assert(s.take(i) =~= s);
    } else {
        assert(s.take(i + 1).drop_last() =~= s.take(i));
        assert(all_digits(s.take(i)));
        lemma_decimal_value_nonneg(s.take(i));
        lemma_decimal_prefix_le(s, i + 1);
    }
}

/// Resolve a user's selection input against a service listing: the input,
/// read as a 1-based decimal index, picks the service it names; anything
/// else — no digits, a non-digit, zero, or a number past the end of the
/// listing — is an invalid-input error.
pub fn select_service(services: &[String], input: &str) -> (r: Result<String, PassmanError>)
    ensures
        valid_selection(encode_utf8(input@), services@.len() as int) ==> r is Ok && r->Ok_0
            == services@[decimal_value(selection_digits(encode_utf8(input@))) - 1],
        !valid_selection(encode_utf8(input@), services@.len() as int) ==> r == Err::<
            String,
            PassmanError,
        >(PassmanError::IoError(IoErrorKind::InvalidInput)),
{
    let bytes = input.as_bytes();
    let n = bytes.len();
    let start: usize = if n > 0 && bytes[0] == 0x2B {
        1
    } else {
        0
    };
    proof {
        assert(selection_digits(bytes@) =~= bytes@.subrange(start as int, n as int));
    }
    if n == start {
        return Err(PassmanError::IoError(IoErrorKind::InvalidInput));
    }
    let count = services.len();
    let ghost digits = bytes@.subrange(start as int, n as int);
    let mut value: u128 = 0;
    let mut i: usize = start;
    while i < n
        invariant
            start <= i <= n,
            n == bytes@.len(),
            bytes@ == encode_utf8(input@),
            digits == bytes@.subrange(start as int, n as int),
            digits == selection_digits(encode_utf8(input@)),
            count == services@.len(),
            forall|j: int| start <= j < i ==> is_digit_byte(#[trigger] bytes@[j]),
            value == decimal_value(bytes@.subrange(start as int, i as int)),
            value <= count,
        decreases n - i,
    {
        let b = bytes[i];
        if b < 0x30 || b > 0x39 {
            proof {
                assert(digits[i - start] == bytes@[i as int]);
                assert(!all_digits(digits));
            }
            return Err(PassmanError::IoError(IoErrorKind::InvalidInput));
        }
        let d = (b - 0x30) as u128;
        let v2: u128 = value * 10 + d;
        proof {
            let pre = bytes@.subrange(start as int, i as int);
            let ext = bytes@.subrange(start as int, i as int + 1);
            assert(ext.drop_last() =~= pre);
            assert(ext.last() == bytes@[i as int]);
        }
        if v2 > count as u128 {
            proof {
                if all_digits(digits) {
                    assert(digits.take(i + 1 - start) =~= bytes@.subrange(
                        start as int,
                        i as int + 1,
                    ));
                    lemma_decimal_prefix_le(digits, i + 1 - start);
                }
            }
            return Err(PassmanError::IoError(IoErrorKind::InvalidInput));
        }
        value = v2;
        i += 1;
    }
    proof {
        assert(bytes@.subrange(start as int, n as int) =~= digits);
        assert(forall|k: int| 0 <= k < digits.len() ==> digits[k] == bytes@[k + start]);
        assert(all_digits(digits));
    }
    if value == 0 {
        return Err(PassmanError::IoError(IoErrorKind::InvalidInput));
    }
    let idx = value as usize;
    Ok(services[idx - 1].clone())
}

/// Lexicographic order on byte sequences: the order in which service
/// listings are presented (on UTF-8 bytes it coincides with the scalar
/// order of the characters).
pub open spec fn lex_le(a: Seq<u8>, b: Seq<u8>) -> bool
    decreases a.len(),
{
    if a.len() == 0 {
        true
    } else if b.len() == 0 {
        false
    } else if a[0] < b[0] {
        true
    } else if a[0] > b[0] {
        false
    } else {
        lex_le(a.drop_first(), b.drop_first())
    }
}

/// One service name precedes another when its UTF-8 bytes do.
pub open spec fn service_le(a: Seq<char>, b: Seq<char>) -> bool {
    lex_le(encode_utf8(a), encode_utf8(b))
}

/// A service listing is sorted when every earlier name precedes every
/// later one.
pub open spec fn services_sorted(s: Seq<String>) -> bool {
    forall|i: int, j: int| 0 <= i < j < s.len() ==> #[trigger] service_le(s[i]@, s[j]@)
}

/// The lexicographic order is total.
pub proof fn lemma_lex_le_total(a: Seq<u8>, b: Seq<u8>)
    ensures
        lex_le(a, b) || lex_le(b, a),
    decreases a.len(),
{
    if a.len() > 0 && b.len() > 0 && a[0] == b[0] {
        lemma_lex_le_total(a.drop_first(), b.drop_first());
    }
}

/// The lexicographic order is transitive.
pub proof fn lemma_lex_le_trans(a: Seq<u8>, b: Seq<u8>, c: Seq<u8>)
    requires
        lex_le(a, b),
        lex_le(b, c),
    ensures
        lex_le(a, c),
    decreases a.len(),
{
    if a.len() > 0 && b.len() > 0 && c.len() > 0 && a[0] == b[0] && b[0] == c[0] {
        lemma_lex_le_trans(a.drop_first(), b.drop_first(), c.drop_first());
    }
}

/// Dropping a common prefix does not change the lexicographic comparison.
proof fn lemma_lex_le_skip(a: Seq<u8>, b: Seq<u8>, i: int)
    requires
        0 <= i <= a.len(),
        i <= b.len(),
        forall|j: int| 0 <= j < i ==> a[j] == b[j],
    ensures
        lex_le(a, b) == lex_le(a.skip(i), b.skip(i)),
    decreases i,
{
    if i > 0 {
        assert(a.drop_first() =~= a.skip(1));
        assert(b.drop_first() =~= b.skip(1));
        lemma_lex_le_skip(a.skip(1), b.skip(1), i - 1);
        assert(a.skip(1).skip(i - 1) =~= a.skip(i));
        assert(b.skip(1).skip(i - 1) =~= b.skip(i));
    } else {
        assert(a.skip(0) =~= a);
        assert(b.skip(0) =~= b);
    }
}

/// Compare two byte slices lexicographically.
fn bytes_le(a: &[u8], b: &[u8]) -> (r: bool)
    ensures
        r == lex_le(a@, b@),
{
    let alen = a.len();
    let blen = b.len();
    let min: usize = if alen < blen {
        alen
    } else {
        blen
    };
    let mut i: usize = 0;
    while i < min
        invariant
            0 <= i <= min,
            min <= a@.len(),
            min <= b@.len(),
            forall|j: int| 0 <= j < i ==> a@[j] == b@[j],
        decreases min - i,
    {
        if a[i] < b[i] {
            proof {
                lemma_lex_le_skip(a@, b@, i as int);
            }
            return true;
        }
        if a[i] > b[i] {
            proof {
                lemma_lex_le_skip(a@, b@, i as int);
            }
            return false;
        }
        i += 1;
    }
    proof {
        lemma_lex_le_skip(a@, b@, min as int);
    }
    alen <= blen
}

/// Compare two service names in listing order.
fn string_le(a: &String, b: &String) -> (r: bool)
    ensures
        r == service_le(a@, b@),
{
    bytes_le(a.as_str().as_bytes(), b.as_str().as_bytes())
}

/// Inserting an element anywhere in a sequence adds exactly it to the
/// sequence's multiset.
proof fn lemma_to_multiset_insert<A>(s: Seq<A>, j: int, x: A)
    requires
        0 <= j <= s.len(),
    ensures
        s.insert(j, x).to_multiset() == s.to_multiset().insert(x),
{
    broadcast use vstd::seq_lib::group_to_multiset_ensures;
    broadcast use vstd::multiset::group_multiset_axioms;

    let left = s.subrange(0, j);
    let right = s.subrange(j, s.len() as int);
    assert(s.insert(j, x) =~= left.push(x) + right);
    vstd::seq_lib::lemma_multiset_commutative(left.push(x), right);
    vstd::seq_lib::lemma_multiset_commutative(left, right);
    assert(left + right =~= s);
    assert(s.insert(j, x).to_multiset() =~= s.to_multiset().insert(x));
}

/// Sort a service listing lexicographically, keeping exactly its names.
pub fn sort_service_names(names: Vec<String>) -> (r: Vec<String>)
    ensures
        services_sorted(r@),
        r@.to_multiset() == names@.to_multiset(),
{
    broadcast use vstd::seq_lib::group_to_multiset_ensures;

    let mut out: Vec<String> = Vec::new();
    let mut i: usize = 0;
    proof {
        assert(names@.subrange(0, 0) =~= Seq::<String>::empty());
        assert(Seq::<String>::empty().to_multiset() =~= out@.to_multiset());
    }
    while i < names.len()
        invariant
            0 <= i <= names@.len(),
            services_sorted(out@),
            out@.to_multiset() == names@.subrange(0, i as int).to_multiset(),
        decreases names@.len() - i,
    {
        let x = names[i].clone();
        let mut j: usize = 0;
        while j < out.len() && string_le(&out[j], &x)
            invariant
                0 <= j <= out@.len(),
                services_sorted(out@),
                forall|k: int| 0 <= k < j ==> #[trigger] service_le(out@[k]@, x@),
            decreases out@.len() - j,
        {
            j += 1;
        }
        proof {
            assert forall|k: int| j <= k < out@.len() implies #[trigger] service_le(
                x@,
                out@[k]@,
            ) by {
                lemma_lex_le_total(encode_utf8(out@[j as int]@), encode_utf8(x@));
                if k > j {
                    assert(service_le(out@[j as int]@, out@[k]@));
                    lemma_lex_le_trans(
                        encode_utf8(x@),
                        encode_utf8(out@[j as int]@),
                        encode_utf8(out@[k]@),
                    );
                }
            }
        }
        let ghost pre = out@;
        out.insert(j, x);
        proof {
            assert forall|p: int, q: int| 0 <= p < q < out@.len() implies #[trigger] service_le(
                out@[p]@,
                out@[q]@,
            ) by {
                let ji = j as int;
                assert(out@ =~= pre.subrange(0, ji).push(x) + pre.subrange(
                    ji,
                    pre.len() as int,
                ));
                if p < ji {
                    assert(out@[p] == pre[p]);
                }
                if p > ji {
                    assert(out@[p] == pre[p - 1]);
                }
                if q < ji {
                    assert(out@[q] == pre[q]);
                }
                if q > ji {
                    assert(out@[q] == pre[q - 1]);
                }
            }
            lemma_to_multiset_insert(pre, j as int, x);
            assert(names@.subrange(0, i as int + 1) =~= names@.subrange(0, i as int).push(
                names@[i as int],
            ));
            names@.subrange(0, i as int).to_multiset_ensures();
            assert(names@.subrange(0, i as int).push(names@[i as int]).to_multiset()
                =~= names@.subrange(0, i as int).to_multiset().insert(names@[i as int]));
            assert(out@.to_multiset() =~= names@.subrange(0, i as int + 1).to_multiset());
        }
        i += 1;
    }
    proof {
        assert(names@.subrange(0, names@.len() as int) =~= names@);
    }
    out
}

} // verus!
