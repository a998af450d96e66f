//! Verified text utilities: case folding, string equality, trimming,
//! decimal and hexadecimal digit parsing and formatting.

use vstd::prelude::*;
use vstd::string::*;

verus! {

/// ASCII case folding of a single character.
pub open spec fn spec_lower_char(c: char) -> char {
    if 'A' <= c && c <= 'Z' {
        ((c as u8) + 32) as char
    } else {
        c
    }
}

pub fn lower_char(c: char) -> (r: char)
    ensures
        r == spec_lower_char(c),
{
    if 'A' <= c && c <= 'Z' {
        ((c as u8) + 32) as char
    } else {
        c
    }
}

/// Equality of two string slices, decided character by character.
pub fn str_eq(a: &str, b: &str) -> (r: bool)
    ensures
        r == (a@ == b@),
{
    let alen = a.unicode_len();
    let blen = b.unicode_len();
    if alen != blen {
        return false;
    }
    let mut i: usize = 0;
    while i < alen
        invariant
            alen == a@.len(),
            alen == b@.len(),
            i <= alen,
            forall|k: int| 0 <= k < i ==> a@[k] == b@[k],
        decreases alen - i,
    {
        if a.get_char(i) != b.get_char(i) {
            return false;
        }
        i += 1;
    }
    proof {
        assert(a@ =~= b@);
    }
    true
}

/// Relies on String::push: appends exactly one character at the end.
#[verifier::external_body]
pub(crate) fn push_char(s: &mut String, c: char)
    ensures
        final(s)@ == old(s)@.push(c),
{
    s.push(c);
}

pub open spec fn spec_digit_char(d: int) -> char {
    ((48 + d) as u8) as char
}

/// The decimal digits of a nonnegative number, most significant first.
pub open spec fn spec_digits(n: int) -> Seq<char>
    decreases n,
{
    if n < 10 {
        seq![spec_digit_char(n)]
    } else {
        spec_digits(n / 10).push(spec_digit_char(n % 10))
    }
}

pub fn u64_digits(n: u64) -> (r: String)
    ensures
        r@ == spec_digits(n as int),
    decreases n,
{
    if n < 10 {
        let mut s = String::new();
        push_char(&mut s, (48 + (n as u8)) as char);
        s
    } else {
        let mut s = u64_digits(n / 10);
        push_char(&mut s, (48 + ((n % 10) as u8)) as char);
        s
    }
}

/// Decimal rendering of a signed number, with a leading minus when negative.
pub open spec fn spec_i32_str(n: int) -> Seq<char> {
    if n < 0 {
        seq!['-'] + spec_digits(-n)
    } else {
        spec_digits(n)
    }
}

pub fn i32_str(n: i32) -> (r: String)
    ensures
        r@ == spec_i32_str(n as int),
{
    if n < 0 {
        let mut s = String::new();
        push_char(&mut s, '-');
        let m: u64 = (-(n as i64)) as u64;
        let d = u64_digits(m);
        s.append(d.as_str());
        proof {
            assert(s@ =~= spec_i32_str(n as int));
        }
        s
    } else {
        u64_digits(n as u64)
    }
}

pub open spec fn spec_hex_digit_char(d: int) -> char {
    if d < 10 {
        spec_digit_char(d)
    } else {
        ((55 + d) as u8) as char
    }
}

/// Uppercase hexadecimal digits of a nonnegative number, no leading zeros.
pub open spec fn spec_hex_digits(n: int) -> Seq<char>
    decreases n,
{
    if n < 16 {
        seq![spec_hex_digit_char(n)]
    } else {
        spec_hex_digits(n / 16).push(spec_hex_digit_char(n % 16))
    }
}

pub fn u32_hex_digits(n: u32) -> (r: String)
    ensures
        r@ == spec_hex_digits(n as int),
    decreases n,
{
    let d: u32 = n % 16;
    let c: char = if d < 10 {
        (48 + (d as u8)) as char
    } else {
        (55 + (d as u8)) as char
    };
    if n < 16 {
        let mut s = String::new();
        push_char(&mut s, c);
        s
    } else {
        let mut s = u32_hex_digits(n / 16);
        push_char(&mut s, c);
        s
    }
}

/// The value of one hexadecimal digit, either case.
pub open spec fn spec_hex_digit_val(c: char) -> Option<int> {
    if '0' <= c && c <= '9' {
        Some(c as int - 48)
    } else if 'a' <= c && c <= 'f' {
        Some(c as int - 87)
    } else if 'A' <= c && c <= 'F' {
        Some(c as int - 55)
    } else {
        None
    }
}

pub open spec fn spec_hex_val_rec(s: Seq<char>, i: int, acc: int) -> Option<int>
    decreases s.len() - i,
{
    if i >= s.len() {
        Some(acc)
    } else {
        match spec_hex_digit_val(s[i]) {
            Option::None => None,
            Option::Some(d) => {
                if acc * 16 + d > 0xFFFF_FFFF_FFFF_FFFF {
                    None
                } else {
                    spec_hex_val_rec(s, i + 1, acc * 16 + d)
                }
            },
        }
    }
}

/// The value of a hexadecimal literal: at least one digit, all digits,
/// and a value no larger than a 64-bit word can hold.
pub open spec fn spec_hex_val(s: Seq<char>) -> Option<int> {
    if s.len() == 0 {
        None
    } else {
        spec_hex_val_rec(s, 0, 0)
    }
}

fn hex_digit_val(c: char) -> (r: Option<u8>)
    ensures
        match r {
            Option::Some(d) => spec_hex_digit_val(c) == Some(d as int),
            Option::None => spec_hex_digit_val(c) is None,
        },
{
    if '0' <= c && c <= '9' {
        Some((c as u8) - 48)
    } else if 'a' <= c && c <= 'f' {
        Some((c as u8) - 87)
    } else if 'A' <= c && c <= 'F' {
        Some((c as u8) - 55)
    } else {
        None
    }
}

/// Parses a hexadecimal literal given as a range of a string slice.
pub fn hex_val_range(s: &str, from: usize, to: usize) -> (r: Option<u64>)
    requires
        from <= to <= s@.len(),
    ensures
        match r {
            Option::Some(v) => spec_hex_val(s@.subrange(from as int, to as int)) == Some(v as int),
            Option::None => spec_hex_val(s@.subrange(from as int, to as int)) is None,
        },
{
    let ghost sub: Seq<char> = s@.subrange(from as int, to as int);
    if from == to {
        return None;
    }
    let mut acc: u64 = 0;
    let mut i: usize = from;
    while i < to
        invariant
            from <= i <= to <= s@.len(),
            sub == s@.subrange(from as int, to as int),
            spec_hex_val_rec(sub, i - from, acc as int) == spec_hex_val_rec(sub, 0, 0),
        decreases to - i,
    {
        let c = s.get_char(i);
        proof {
            assert(sub[i - from] == c);
        }
        match hex_digit_val(c) {
            Option::None => {
                return None;
            },
            Option::Some(d) => {
                let wide: u128 = (acc as u128) * 16 + (d as u128);
                if wide > 0xFFFF_FFFF_FFFF_FFFFu128 {
                    return None;
                }
                acc = wide as u64;
            },
        }
        i += 1;
    }
    Some(acc)
}

pub open spec fn spec_is_digit(c: char) -> bool {
    '0' <= c && c <= '9'
}

pub open spec fn spec_dec_val_rec(s: Seq<char>, i: int, j: int, acc: int) -> Option<int>
    decreases j - i,
{
    if i >= j {
        Some(acc)
    } else if !spec_is_digit(s[i]) {
        None
    } else {
        if acc * 10 + (s[i] as int - 48) > 0xFFFF_FFFF_FFFF_FFFF {
            None
        } else {
            spec_dec_val_rec(s, i + 1, j, acc * 10 + (s[i] as int - 48))
        }
    }
}

/// The value of a run of decimal digits: at least one digit, digits only,
/// and a value no larger than a 64-bit word can hold.
pub open spec fn spec_dec_val(s: Seq<char>, i: int, j: int) -> Option<int> {
    if i >= j {
        None
    } else {
        spec_dec_val_rec(s, i, j, 0)
    }
}

/// Parses a run of decimal digits given as a range of a string slice.
pub fn dec_val_range(s: &str, from: usize, to: usize) -> (r: Option<u64>)
    requires
        from <= to <= s@.len(),
    ensures
        match r {
            Option::Some(v) => spec_dec_val(s@, from as int, to as int) == Some(v as int),
            Option::None => spec_dec_val(s@, from as int, to as int) is None,
        },
{
    if from == to {
        return None;
    }
    let mut acc: u64 = 0;
    let mut i: usize = from;
    while i < to
        invariant
            from <= i <= to <= s@.len(),
            spec_dec_val_rec(s@, i as int, to as int, acc as int) == spec_dec_val_rec(
                s@,
                from as int,
                to as int,
                0,
            ),
        decreases to - i,
    {
        let c = s.get_char(i);
        if !('0' <= c && c <= '9') {
            return None;
        }
        let wide: u128 = (acc as u128) * 10 + (((c as u8) - 48) as u128);
        if wide > 0xFFFF_FFFF_FFFF_FFFFu128 {
            return None;
        }
        acc = wide as u64;
        i += 1;
    }
    Some(acc)
}

/// The end of the run of decimal digits that starts at `i`.
pub open spec fn spec_digits_end(s: Seq<char>, i: int) -> int
    decreases s.len() - i,
{
    if 0 <= i < s.len() && spec_is_digit(s[i]) {
        spec_digits_end(s, i + 1)
    } else {
        i
    }
}

pub proof fn lemma_digits_end_bounds(s: Seq<char>, i: int)
    requires
        0 <= i <= s.len(),
    ensures
        i <= spec_digits_end(s, i) <= s.len(),
    decreases s.len() - i,
{
    if i < s.len() && spec_is_digit(s[i]) {
        lemma_digits_end_bounds(s, i + 1);
    }
}

fn is_digit_at(s: &str, i: usize) -> (r: bool)
    requires
        i < s@.len(),
    ensures
        r == spec_is_digit(s@[i as int]),
{
    let c = s.get_char(i);
    '0' <= c && c <= '9'
}

pub fn digits_end(s: &str, from: usize) -> (r: usize)
    requires
        from <= s@.len(),
    ensures
        r == spec_digits_end(s@, from as int),
        from <= r <= s@.len(),
{
    let len = s.unicode_len();
    let mut i: usize = from;
    while i < len && is_digit_at(s, i)
        invariant
            from <= i <= len,
            len == s@.len(),
            spec_digits_end(s@, from as int) == spec_digits_end(s@, i as int),
        decreases len - i,
    {
        i += 1;
    }
    i
}

/// The value of a signed integer literal: an optional sign, then digits,
/// within the range of a 32-bit signed integer.
pub open spec fn spec_parse_i32_text(s: Seq<char>) -> Option<int> {
    let start: int = if s.len() > 0 && (s[0] == '-' || s[0] == '+') {
        1
    } else {
        0
    };
    let neg = s.len() > 0 && s[0] == '-';
    match spec_dec_val(s, start, s.len() as int) {
        Option::None => None,
        Option::Some(v) => {
            if neg {
                if -v >= -0x8000_0000 {
                    Some(-v)
                } else {
                    None
                }
            } else {
                if v <= 0x7FFF_FFFF {
                    Some(v)
                } else {
                    None
                }
            }
        },
    }
}

pub fn parse_i32_text(s: &str) -> (r: Option<i32>)
    ensures
        match r {
            Option::Some(v) => spec_parse_i32_text(s@) == Some(v as int),
            Option::None => spec_parse_i32_text(s@) is None,
        },
{
    let len = s.unicode_len();
    let mut start: usize = 0;
    let mut neg: bool = false;
    if len > 0 {
        let c = s.get_char(0);
        if c == '-' {
            start = 1;
            neg = true;
        } else if c == '+' {
            start = 1;
        }
    }
    match dec_val_range(s, start, len) {
        Option::None => None,
        Option::Some(v) => {
            if neg {
                if v <= 0x8000_0000u64 {
                    Some((-(v as i64)) as i32)
                } else {
                    None
                }
            } else {
                if v <= 0x7FFF_FFFFu64 {
                    Some(v as i32)
                } else {
                    None
                }
            }
        },
    }
}

pub open spec fn spec_is_ws(c: char) -> bool {
    c == ' ' || c == '\t' || c == '\n' || c == '\r'
}

pub open spec fn spec_ws_front(s: Seq<char>, i: int) -> int
    decreases s.len() - i,
{
    if 0 <= i < s.len() && spec_is_ws(s[i]) {
        spec_ws_front(s, i + 1)
    } else {
        i
    }
}

pub open spec fn spec_ws_back(s: Seq<char>, j: int) -> int
    decreases j,
{
    if 0 < j <= s.len() && spec_is_ws(s[j - 1]) {
        spec_ws_back(s, j - 1)
    } else {
        j
    }
}

/// The string with the whitespace at both ends removed.
pub open spec fn spec_trim(s: Seq<char>) -> Seq<char> {
    let a = spec_ws_front(s, 0);
    let b = spec_ws_back(s, s.len() as int);
    if a < b {
        s.subrange(a, b)
    } else {
        Seq::empty()
    }
}

proof fn lemma_ws_front_bounds(s: Seq<char>, i: int)
    requires
        0 <= i <= s.len(),
    ensures
        i <= spec_ws_front(s, i) <= s.len(),
    decreases s.len() - i,
{
    if i < s.len() && spec_is_ws(s[i]) {
        lemma_ws_front_bounds(s, i + 1);
    }
}

proof fn lemma_ws_back_bounds(s: Seq<char>, j: int)
    requires
        0 <= j <= s.len(),
    ensures
        0 <= spec_ws_back(s, j) <= j,
    decreases j,
{
    if 0 < j && spec_is_ws(s[j - 1]) {
        lemma_ws_back_bounds(s, j - 1);
    }
}

fn is_ws_at(s: &str, i: usize) -> (r: bool)
    requires
        i < s@.len(),
    ensures
        r == spec_is_ws(s@[i as int]),
{
    let c = s.get_char(i);
    c == ' ' || c == '\t' || c == '\n' || c == '\r'
}

/// Removes leading and trailing whitespace, as the status files carry a
/// trailing newline.
pub fn trim_str(s: &str) -> (r: String)
    ensures
        r@ == spec_trim(s@),
{
    let len = s.unicode_len();
    let mut a: usize = 0;
    while a < len && is_ws_at(s, a)
        invariant
            0 <= a <= len,
            len == s@.len(),
            spec_ws_front(s@, 0) == spec_ws_front(s@, a as int),
        decreases len - a,
    {
        a += 1;
    }
    let mut b: usize = len;
    while b > 0 && is_ws_at(s, b - 1)
        invariant
            0 <= b <= len,
            len == s@.len(),
            spec_ws_back(s@, len as int) == spec_ws_back(s@, b as int),
        decreases b,
    {
        b -= 1;
    }
    proof {
        assert(spec_ws_front(s@, a as int) == a as int);
        assert(spec_ws_back(s@, b as int) == b as int);
    }
    if a < b {
        let sub = s.substring_char(a, b);
        sub.to_owned()
    } else {
        proof {
            assert(spec_trim(s@) =~= Seq::<char>::empty());
        }
        String::new()
    }
}

} // verus!
