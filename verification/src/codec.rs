//! Positional encoding of unsigned integers over the 62-symbol identifier
//! alphabet (digits, then lowercase, then uppercase letters).
//!
//! Paste identifiers are integers rendered in base 62; the view context
//! renders ordinary decimal numbers with the same machinery (base 10 uses
//! the first ten symbols of the alphabet).

use vstd::prelude::*;

verus! {

/// The symbol for digit value `d` of the identifier alphabet:
/// `0`-`9` for 0..10, `a`-`z` for 10..36, `A`-`Z` for 36..62.
pub open spec fn digit_char(d: nat) -> char {
    if d < 10 {
        (48 + d) as char  // '0' is 48
    } else if d < 36 {
        (87 + d) as char  // 'a' is 97
    } else {
        (29 + d) as char  // 'A' is 65
    }
}

/// The shortest base-`b` rendering of `n`, most significant digit first;
/// 0 renders as the single symbol `0`.
pub open spec fn radix_of(n: nat, b: nat) -> Seq<char>
    decreases n,
    when 2 <= b
    via radix_of_decreases
{
    if n < b {
        seq![digit_char(n)]
    } else {
        radix_of(n / b, b).push(digit_char(n % b))
    }
}

#[via_fn]
proof fn radix_of_decreases(n: nat, b: nat) {
    if n >= b {
        vstd::arithmetic::div_mod::lemma_div_decreases(n as int, b as int);
    }
}

/// Base-62 rendering, used for paste identifiers.
pub open spec fn base62_of(n: nat) -> Seq<char> {
    radix_of(n, 62)
}

/// Ordinary decimal rendering, used for numbers shown in view contexts.
pub open spec fn decimal_of(n: nat) -> Seq<char> {
    radix_of(n, 10)
}

/// The number of decimal digits of `n`.
pub open spec fn dec_len(n: nat) -> nat
    decreases n,
{
    if n < 10 {
        1
    } else {
        1 + dec_len(n / 10)
    }
}

/// Relies on `String::push`: appends exactly the one character `c`.
#[verifier::external_body]
fn push_char(s: &mut String, c: char)
    ensures
        final(s)@ == old(s)@.push(c),
{
    s.push(c);
}

fn digit_char_exec(d: u64) -> (c: char)
    requires
        d < 62,
    ensures
        c == digit_char(d as nat),
{
    if d < 10 {
        ((48 + d) as u8) as char
    } else if d < 36 {
        ((87 + d) as u8) as char
    } else {
        ((29 + d) as u8) as char
    }
}

/// Renders `v` in base `base`, most significant digit first, with no
/// leading padding; 0 comes out as `"0"`.
pub fn encode_radix(v: u64, base: u64) -> (r: String)
    requires
        2 <= base <= 62,
    ensures
        r@ == radix_of(v as nat, base as nat),
{
    let mut digits: Vec<char> = Vec::new();
    let mut cur = v;
    while cur >= base
        invariant
            2 <= base <= 62,
            radix_of(v as nat, base as nat) == radix_of(cur as nat, base as nat) + digits@.reverse(),
        decreases cur,
    {
        let ghost prev = digits@;
        let d = cur % base;
        digits.push(digit_char_exec(d));
        proof {
            vstd::arithmetic::div_mod::lemma_div_decreases(cur as int, base as int);
            assert(digits@.reverse() =~= seq![digit_char((cur % base) as nat)] + prev.reverse());
            assert(radix_of(cur as nat, base as nat)
                == radix_of((cur / base) as nat, base as nat).push(digit_char((cur % base) as nat)));
            assert(radix_of((cur / base) as nat, base as nat) + digits@.reverse()
                =~= radix_of(cur as nat, base as nat) + prev.reverse());
        }
        cur = cur / base;
    }
    let mut r = String::new();
    push_char(&mut r, digit_char_exec(cur));
    proof {
        assert(r@ =~= seq![digit_char(cur as nat)]);
        assert(radix_of(cur as nat, base as nat) == seq![digit_char(cur as nat)]);
    }
    let n = digits.len();
    let ghost top = cur;
    let mut k: usize = 0;
    while k < n
        invariant
            n == digits@.len(),
            k <= n,
            radix_of(v as nat, base as nat) == seq![digit_char(top as nat)] + digits@.reverse(),
            r@ == seq![digit_char(top as nat)] + digits@.reverse().take(k as int),
        decreases n - k,
    {
        push_char(&mut r, digits[n - 1 - k]);
        proof {
            assert(digits@.reverse().take(k + 1int)
                =~= digits@.reverse().take(k as int).push(digits@[n - 1 - (k as int)]));
            assert(r@ =~= seq![digit_char(top as nat)] + digits@.reverse().take(k + 1int));
        }
        k = k + 1;
    }
    proof {
        assert(digits@.reverse().take(n as int) =~= digits@.reverse());
        assert(r@ =~= radix_of(v as nat, base as nat));
    }
    r
}

/// Renders `v` as a paste identifier in base 62.
pub fn encode_base62(v: u64) -> (r: String)
    ensures
        r@ == base62_of(v as nat),
{
    encode_radix(v, 62)
}

/// Renders `v` in decimal, as shown in view contexts.
pub fn decimal_string(v: usize) -> (r: String)
    ensures
        r@ == decimal_of(v as nat),
{
    encode_radix(v as u64, 10)
}

proof fn lemma_digit_char_injective(a: nat, b: nat)
    requires
        a < 62,
        b < 62,
        digit_char(a) == digit_char(b),
    ensures
        a == b,
{
}

/// A rendering always has at least one symbol, and more than one once the
/// value reaches the base.
proof fn lemma_radix_len(n: nat, b: nat)
    requires
        2 <= b,
    ensures
        radix_of(n, b).len() >= 1,
        n >= b ==> radix_of(n, b).len() >= 2,
{
    if n >= b {
        // either branch of the definition at n / b yields a nonempty rendering
        assert(radix_of(n / b, b).len() >= 1) by {
            if n / b < b {
            } else {
            }
        }
    }
}

/// The positional encoding is injective: distinct values render as
/// distinct strings of symbols, in any one base.
pub proof fn lemma_radix_injective(a: nat, b: nat, base: nat)
    requires
        2 <= base <= 62,
        radix_of(a, base) == radix_of(b, base),
    ensures
        a == b,
    decreases a,
{
    lemma_radix_len(a, base);
    lemma_radix_len(b, base);
    if a < base && b < base {
        assert(radix_of(a, base)[0] == digit_char(a));
        assert(radix_of(b, base)[0] == digit_char(b));
        lemma_digit_char_injective(a, b);
    } else if a < base || b < base {
        // one rendering has one symbol, the other at least two
        assert(false);
    } else {
        let qa = a / base;
        let ra = a % base;
        let qb = b / base;
        let rb = b % base;
        assert(radix_of(a, base).last() == digit_char(ra));
        assert(radix_of(b, base).last() == digit_char(rb));
        lemma_digit_char_injective(ra, rb);
        assert(radix_of(a, base).drop_last() =~= radix_of(qa, base));
        assert(radix_of(b, base).drop_last() =~= radix_of(qb, base));
        vstd::arithmetic::div_mod::lemma_div_decreases(a as int, base as int);
        lemma_radix_injective(qa, qb, base);
        vstd::arithmetic::div_mod::lemma_fundamental_div_mod(a as int, base as int);
        vstd::arithmetic::div_mod::lemma_fundamental_div_mod(b as int, base as int);
    }
}

/// The identifier encoding is injective: no two distinct integers share a
/// base-62 string.
pub proof fn lemma_base62_injective(a: nat, b: nat)
    requires
        base62_of(a) == base62_of(b),
    ensures
        a == b,
{
    lemma_radix_injective(a, b, 62);
}

/// Does `c` belong to the 62-symbol identifier alphabet?
pub open spec fn is_id_char(c: char) -> bool {
    let v = c as int;
    (48 <= v <= 57)  // '0' to '9'
     || (97 <= v <= 122)  // 'a' to 'z'
     || (65 <= v <= 90)  // 'A' to 'Z'

}

/// A well-formed identifier: nonempty, identifier symbols only.
pub open spec fn spec_valid_id(s: Seq<char>) -> bool {
    s.len() > 0 && forall|i: int| 0 <= i < s.len() ==> is_id_char(s[i])
}

/// Checks that `s` could have come out of the identifier encoding:
/// nonempty and over the identifier alphabet alone. A request path
/// segment that fails this test names no stored paste, and is never safe
/// to use as a file name.
pub fn is_valid_id(s: &str) -> (r: bool)
    ensures
        r == spec_valid_id(s@),
{
    let n = s.unicode_len();
    if n == 0 {
        return false;
    }
    let mut i: usize = 0;
    while i < n
        invariant
            n == s@.len(),
            i <= n,
            forall|j: int| 0 <= j < i ==> is_id_char(s@[j]),
        decreases n - i,
    {
        let v = s.get_char(i) as u32;
        if !((48 <= v && v <= 57) || (97 <= v && v <= 122) || (65 <= v && v <= 90)) {
            return false;
        }
        i = i + 1;
    }
    true
}

/// Every rendering stays inside the identifier alphabet, so an encoded
/// identifier always passes `is_valid_id`.
pub proof fn lemma_radix_valid_id(n: nat, b: nat)
    requires
        2 <= b <= 62,
    ensures
        spec_valid_id(radix_of(n, b)),
    decreases n,
{
    if n < b {
    } else {
        vstd::arithmetic::div_mod::lemma_div_decreases(n as int, b as int);
        lemma_radix_valid_id(n / b, b);
    }
}

/// The decimal rendering of `n` has exactly `dec_len(n)` symbols.
pub proof fn lemma_decimal_len(n: nat)
    ensures
        decimal_of(n).len() == dec_len(n),
    decreases n,
{
    if n >= 10 {
        lemma_decimal_len(n / 10);
    }
}

/// The integer 0 encodes as the single symbol `"0"`.
pub proof fn lemma_base62_zero()
    ensures
        base62_of(0) == "0"@,
{
    reveal_strlit("0");
    assert(base62_of(0) =~= "0"@);
}

proof fn lemma_dec_len_bound(n: nat)
    ensures
        dec_len(n) <= n + 1,
        n >= 1 ==> dec_len(n) <= n,
    decreases n,
{
    if n >= 10 {
        lemma_dec_len_bound(n / 10);
    }
}

/// Counts the decimal digits of `v`.
pub fn decimal_width(v: usize) -> (r: usize)
    ensures
        r == dec_len(v as nat),
{
    let mut cur = v;
    let mut w: usize = 1;
    proof {
        lemma_dec_len_bound(v as nat);
    }
    while cur >= 10
        invariant
            1 <= w,
            cur <= v,
            w + dec_len(cur as nat) == 1 + dec_len(v as nat),
            v >= 1 ==> dec_len(v as nat) <= v,
        decreases cur,
    {
        proof {
            assert(dec_len(cur as nat) == 1 + dec_len((cur / 10) as nat));
            assert(dec_len((cur / 10) as nat) >= 1);
        }
        cur = cur / 10;
        w = w + 1;
    }
    w
}

} // verus!
