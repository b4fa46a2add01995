//! Character and string helpers shared by the filesystem and the shell:
//! building `String`s one character at a time, extracting the characters of a
//! `&str`, case-insensitive name folding, and decimal rendering of sizes.

use vstd::prelude::*;

verus! {

/// Relies on `String::push`: appends exactly the given character.
#[verifier::external_body]
pub fn push_char(s: &mut String, c: char)
    ensures
        final(s)@ == old(s)@.push(c),
{
    s.push(c);
}

/// Builds an owned `String` holding exactly the given characters.
pub fn string_of_chars(v: &Vec<char>) -> (r: String)
    ensures
        r@ == v@,
{
    let mut r = String::new();
    let mut i: usize = 0;
    while i < v.len()
        invariant
            i <= v.len(),
            r@ == v@.subrange(0, i as int),
        decreases v.len() - i,
    {
        push_char(&mut r, v[i]);
        i = i + 1;
        assert(v@.subrange(0, i as int) =~= v@.subrange(0, i - 1).push(v@[i - 1]));
    }
    assert(v@.subrange(0, v@.len() as int) =~= v@);
    r
}

/// Collects the characters of a string slice into a vector.
pub fn str_chars(s: &str) -> (r: Vec<char>)
    ensures
        r@ == s@,
{
    let n = s.unicode_len();
    let mut r: Vec<char> = Vec::new();
    let mut i: usize = 0;
    while i < n
        invariant
            i <= n,
            n == s@.len(),
            r@ == s@.subrange(0, i as int),
        decreases n - i,
    {
        let c = s.get_char(i);
        r.push(c);
        i = i + 1;
        assert(s@.subrange(0, i as int) =~= s@.subrange(0, i - 1).push(s@[i - 1]));
    }
    assert(s@.subrange(0, n as int) =~= s@);
    r
}

/// The code point of a character with ASCII lower-case letters raised to
/// upper case; all other characters are left as they are.
pub open spec fn spec_fold_char(c: char) -> u32 {
    if 97 <= c as u32 && c as u32 <= 122 {
        ((c as u32) - 32) as u32
    } else {
        c as u32
    }
}

/// Case-folds one character to its comparison key.
pub fn fold_char(c: char) -> (r: u32)
    ensures
        r == spec_fold_char(c),
{
    let u = c as u32;
    if 97 <= u && u <= 122 {
        u - 32
    } else {
        u
    }
}

/// The comparison key of a name: `.` is ignored and ASCII case is folded,
/// so `AUTOEXEC.BAT` and `autoexecbat` have the same key.
pub open spec fn spec_folded_name(s: Seq<char>) -> Seq<u32>
    decreases s.len(),
{
    if s.len() == 0 {
        Seq::empty()
    } else {
        let rest = spec_folded_name(s.drop_last());
        if s.last() == '.' {
            rest
        } else {
            rest.push(spec_fold_char(s.last()))
        }
    }
}

/// Computes the comparison key of a name given as characters.
pub fn folded_name(v: &Vec<char>) -> (r: Vec<u32>)
    ensures
        r@ == spec_folded_name(v@),
{
    let mut r: Vec<u32> = Vec::new();
    let mut i: usize = 0;
    while i < v.len()
        invariant
            i <= v.len(),
            r@ == spec_folded_name(v@.subrange(0, i as int)),
        decreases v.len() - i,
    {
        let c = v[i];
        if c != '.' {
            r.push(fold_char(c));
        }
        i = i + 1;
        assert(v@.subrange(0, i as int).drop_last() =~= v@.subrange(0, i - 1));
    }
    assert(v@.subrange(0, v@.len() as int) =~= v@);
    r
}

/// Whether two vectors of code points hold the same values.
pub fn keys_equal(a: &Vec<u32>, b: &Vec<u32>) -> (r: bool)
    ensures
        r == (a@ == b@),
{
    if a.len() != b.len() {
        assert(a@ != b@);
        return false;
    }
    let mut i: usize = 0;
    while i < a.len()
        invariant
            i <= a.len(),
            a@.len() == b@.len(),
            forall|j: int| 0 <= j < i ==> a@[j] == b@[j],
        decreases a.len() - i,
    {
        if a[i] != b[i] {
            return false;
        }
        i = i + 1;
    }
    assert(a@ =~= b@);
    true
}

/// File bytes rendered as terminal text: carriage returns and null bytes are
/// dropped; every other byte is its character, so a line feed stays the
/// newline character.
pub open spec fn spec_rendered(data: Seq<u8>) -> Seq<char>
    decreases data.len(),
{
    if data.len() == 0 {
        Seq::empty()
    } else {
        let rest = spec_rendered(data.drop_last());
        if data.last() == 13 || data.last() == 0 {
            rest
        } else {
            rest.push(data.last() as char)
        }
    }
}

/// Renders file bytes as terminal text.
pub fn render_text(data: &Vec<u8>) -> (r: String)
    ensures
        r@ == spec_rendered(data@),
{
    let mut r = String::new();
    let mut i: usize = 0;
    while i < data.len()
        invariant
            i <= data.len(),
            r@ == spec_rendered(data@.subrange(0, i as int)),
        decreases data.len() - i,
    {
        let b = data[i];
        if b != 13 && b != 0 {
            push_char(&mut r, b as char);
        }
        i = i + 1;
        assert(data@.subrange(0, i as int).drop_last() =~= data@.subrange(0, i - 1));
    }
    assert(data@.subrange(0, data@.len() as int) =~= data@);
    r
}

/// Whether two vectors of characters hold the same text.
pub fn chars_equal(a: &Vec<char>, b: &Vec<char>) -> (r: bool)
    ensures
        r == (a@ == b@),
{
    if a.len() != b.len() {
        assert(a@ != b@);
        return false;
    }
    let mut i: usize = 0;
    while i < a.len()
        invariant
            i <= a.len(),
            a@.len() == b@.len(),
            forall|j: int| 0 <= j < i ==> a@[j] == b@[j],
        decreases a.len() - i,
    {
        if a[i] != b[i] {
            return false;
        }
        i = i + 1;
    }
    assert(a@ =~= b@);
    true
}

/// The decimal digits of `n`, most significant first.
pub open spec fn spec_decimal(n: nat) -> Seq<char>
    decreases n,
{
    if n < 10 {
        seq![spec_digit_char(n)]
    } else {
        spec_decimal(n / 10).push(spec_digit_char(n % 10))
    }
}

/// The character for a single decimal digit.
pub open spec fn spec_digit_char(d: nat) -> char {
    (48 + d) as char
}

/// Renders a number in decimal, most significant digit first.
pub fn decimal_chars(n: u32) -> (r: Vec<char>)
    ensures
        r@ == spec_decimal(n as nat),
{
    let mut digits: Vec<char> = Vec::new();
    let mut m: u32 = n;
    // Collect digits least significant first.
    loop
        invariant_except_break
            spec_decimal(n as nat) == spec_decimal(m as nat) + digits@.reverse(),
        ensures
            spec_decimal(n as nat) == digits@.reverse(),
        decreases m,
    {
        let ghost od = digits@;
        let d: u8 = (m % 10) as u8;
        let c = (48 + d) as char;
        assert(c == spec_digit_char((m % 10) as nat));
        digits.push(c);
        proof {
            assert(digits@.reverse() =~= seq![c] + od.reverse());
            if m >= 10 {
                assert(spec_decimal(m as nat) == spec_decimal((m / 10) as nat).push(
                    spec_digit_char((m % 10) as nat),
                ));
                assert(spec_decimal((m / 10) as nat).push(c) + od.reverse()
                    =~= spec_decimal((m / 10) as nat) + digits@.reverse());
            } else {
                assert(spec_decimal(m as nat) =~= seq![c]);
                assert(seq![c] + od.reverse() =~= digits@.reverse());
            }
        }
        if m < 10 {
            break;
        }
        m = m / 10;
    }
    let mut r: Vec<char> = Vec::new();
    let mut i: usize = digits.len();
    while i > 0
        invariant
            i <= digits.len(),
            r@ == digits@.subrange(i as int, digits@.len() as int).reverse(),
        decreases i,
    {
        i = i - 1;
        r.push(digits[i]);
        proof {
            let tail = digits@.subrange(i as int, digits@.len() as int);
            assert(tail.reverse() =~= digits@.subrange(i + 1, digits@.len() as int).reverse().push(
                digits@[i as int],
            ));
        }
    }
    proof {
        assert(digits@.subrange(0, digits@.len() as int) =~= digits@);
    }
    r
}

} // verus!
