//! Letter prefixes of proposal modules: module number `n` gets the
//! bijective base-26 numeral of `n + 1` written with `A`..`Z`
//! (0 is "A", 25 is "Z", 26 is "AA", 27 is "AB", ...).

use vstd::prelude::*;
use vstd::utf8::*;

use vstd::string::StringExecFns;

verus! {

/// The upper-case letter with the given position in the alphabet.
pub open spec fn letter(d: nat) -> char {
    ((d + 65) as u8) as char
}

/// Bijective base-26 numeral of `m` (most significant letter first);
/// the empty sequence for zero.
pub open spec fn bijective_letters(m: nat) -> Seq<char>
    decreases m,
{
    if m == 0 {
        seq![]
    } else {
        bijective_letters(((m - 1) as nat) / 26).push(letter(((m - 1) as nat) % 26))
    }
}

/// The prefix that module number `n` receives.
pub open spec fn module_prefix(n: nat) -> Seq<char> {
    bijective_letters(n + 1)
}

/// True when every character is one of `A`..`Z`.
pub open spec fn all_upper_letters(s: Seq<char>) -> bool {
    forall|i: int| 0 <= i < s.len() ==> 'A' <= #[trigger] s[i] <= 'Z'
}

proof fn lemma_letter_injective(a: nat, b: nat)
    requires
        a < 26,
        b < 26,
        letter(a) == letter(b),
    ensures
        a == b,
{
}

/// Numerals of positive numbers are non-empty upper-case words.
pub proof fn lemma_bijective_letters_shape(m: nat)
    ensures
        m > 0 ==> bijective_letters(m).len() > 0,
        all_upper_letters(bijective_letters(m)),
    decreases m,
{
    if m > 0 {
        lemma_bijective_letters_shape(((m - 1) as nat) / 26);
        let s = bijective_letters(m);
        assert forall|i: int| 0 <= i < s.len() implies 'A' <= #[trigger] s[i] <= 'Z' by {
            if i < s.len() - 1 {
                assert(s[i] == bijective_letters(((m - 1) as nat) / 26)[i]);
            }
        }
    }
}

/// Different numbers have different numerals.
pub proof fn lemma_bijective_letters_injective(a: nat, b: nat)
    requires
        bijective_letters(a) == bijective_letters(b),
    ensures
        a == b,
    decreases a + b,
{
    if a == 0 || b == 0 {
        lemma_bijective_letters_shape(a);
        lemma_bijective_letters_shape(b);
    } else {
        let sa = bijective_letters(a);
        let sb = bijective_letters(b);
        let qa = ((a - 1) as nat) / 26;
        let qb = ((b - 1) as nat) / 26;
        let ra = ((a - 1) as nat) % 26;
        let rb = ((b - 1) as nat) % 26;
        assert(sa.last() == letter(ra));
        assert(sb.last() == letter(rb));
        lemma_letter_injective(ra, rb);
        assert(bijective_letters(qa) =~= sa.drop_last());
        assert(bijective_letters(qb) =~= sb.drop_last());
        lemma_bijective_letters_injective(qa, qb);
    }
}

/// No two proposal modules ever receive the same prefix.
pub proof fn law_module_prefixes_distinct(n: nat, m: nat)
    requires
        n != m,
    ensures
        module_prefix(n) != module_prefix(m),
{
    if module_prefix(n) == module_prefix(m) {
        lemma_bijective_letters_injective(n + 1, m + 1);
    }
}

/// Every prefix is a non-empty word of upper-case letters.
pub proof fn law_module_prefix_shape(n: nat)
    ensures
        module_prefix(n).len() > 0,
        all_upper_letters(module_prefix(n)),
{
    lemma_bijective_letters_shape(n + 1);
}

/// `std::str::Utf8Error`, the error of a failed UTF-8 decoding.
#[verifier::external_type_specification]
#[verifier::external_body]
pub struct ExUtf8Error(std::str::Utf8Error);

/// `std::str::from_utf8`: decodes the bytes when they are valid UTF-8
/// and fails exactly when they are not.
#[verifier::external_body]
fn utf8_to_str(bytes: &[u8]) -> (r: Result<&str, std::str::Utf8Error>)
    ensures
        match r {
            Ok(s) => valid_utf8(bytes@) && s@ == decode_utf8(bytes@),
            Err(_) => !valid_utf8(bytes@),
        },
{
    std::str::from_utf8(bytes)
}

proof fn lemma_ascii_byte_is_utf8(b: u8)
    requires
        b < 128,
    ensures
        valid_utf8(seq![b]),
        decode_utf8(seq![b]) == seq![b as char],
{
    let c = b as char;
    let cs = seq![c];
    let v: u32 = c as u32;
    assert(v == b as u32);
    assert(v & 0x7F == v) by (bit_vector)
        requires
            v < 128,
    ;
    assert(encode_utf8(cs.drop_first()) =~= Seq::<u8>::empty());
    assert(encode_utf8(cs) =~= seq![b]);
    encode_utf8_valid_utf8(cs);
    encode_utf8_decode_utf8(cs);
}

/// Prefix of the proposal module with the given number (the count of
/// modules registered before it).
pub fn derive_proposal_module_prefix(dividend: usize) -> (r: Result<String, std::str::Utf8Error>)
    requires
        dividend < usize::MAX,
    ensures
        r matches Ok(s) && s@ == module_prefix(dividend as nat),
{
    let mut d: usize = dividend + 1;
    // letters, least significant first
    let mut digits: Vec<u8> = Vec::new();
    let ghost total: nat = (dividend + 1) as nat;
    loop
        invariant_except_break
            d > 0,
            bijective_letters(total) =~= bijective_letters(d as nat) + digits@.reverse().map_values(
                |x: u8| letter(x as nat),
            ),
            forall|i: int| 0 <= i < digits@.len() ==> #[trigger] digits@[i] < 26,
        ensures
            bijective_letters(total) =~= digits@.reverse().map_values(|x: u8| letter(x as nat)),
            forall|i: int| 0 <= i < digits@.len() ==> #[trigger] digits@[i] < 26,
        decreases d,
    {
        let remainder = (d - 1) % 26;
        let ghost old_digits = digits@;
        let ghost old_d = d as nat;
        d = (d - remainder) / 26;
        assert(d as nat == ((old_d - 1) as nat) / 26);
        digits.push(remainder as u8);
        proof {
            let f = |x: u8| letter(x as nat);
            assert(digits@.reverse() =~= seq![remainder as u8] + old_digits.reverse());
            assert(bijective_letters(old_d) =~= bijective_letters(d as nat).push(letter(remainder as nat)));
            assert(digits@.reverse().map_values(f) =~= seq![letter(remainder as nat)] + old_digits.reverse().map_values(f));
        }
        if d == 0 {
            break;
        }
    }
    let mut prefix = String::new();
    let n = digits.len();
    let mut j = n;
    while j > 0
        invariant
            j <= n,
            n == digits@.len(),
            forall|i: int| 0 <= i < digits@.len() ==> #[trigger] digits@[i] < 26,
            prefix@ =~= digits@.subrange(j as int, n as int).reverse().map_values(
                |x: u8| letter(x as nat),
            ),
        decreases j,
    {
        j = j - 1;
        let code: u8 = digits[j] + 65;
        let mut one: Vec<u8> = Vec::new();
        one.push(code);
        proof {
            assert(one@ =~= seq![code]);
            lemma_ascii_byte_is_utf8(code);
        }
        let piece = utf8_to_str(one.as_slice());
        match piece {
            Ok(s) => {
                let ghost before = prefix@;
                prefix.append(s);
                proof {
                    let f = |x: u8| letter(x as nat);
                    assert(s@ =~= seq![letter(digits@[j as int] as nat)]);
                    assert(digits@.subrange(j as int, n as int).reverse() =~= digits@.subrange(
                        j + 1,
                        n as int,
                    ).reverse().push(digits@[j as int]));
                }
            },
            Err(e) => {
                return Err(e);
            },
        }
    }
    assert(digits@.subrange(0, n as int) =~= digits@);
    Ok(prefix)
}

} // verus!
