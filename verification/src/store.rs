//! The saved-profile data model: one profile holds the expected outputs and
//! the commands to run after it is applied.

use vstd::prelude::*;
use vstd::string::*;

use crate::text::{
    dec_val_range, digits_end, push_char, spec_dec_val, spec_dec_val_rec, spec_digits,
    spec_digits_end, u64_digits,
};

verus! {

/// Screen transform applied to an output: a rotation, or a flip combined
/// with a rotation. The plain rotation by zero is the identity.
#[derive(Clone, Copy, Debug, PartialEq, Eq, Structural)]
pub enum Transform {
    Rotation(i32),
    FlippedRotation(i32),
}

/// The transform named by a directive token; every unrecognized token means
/// no transform at all, so that a typo degrades gracefully instead of
/// failing the parse.
pub open spec fn spec_transform_from_str(s: Seq<char>) -> Transform {
    if s == "90"@ {
        Transform::Rotation(90)
    } else if s == "180"@ {
        Transform::Rotation(180)
    } else if s == "270"@ {
        Transform::Rotation(270)
    } else if s == "flipped"@ {
        Transform::FlippedRotation(0)
    } else if s == "flipped-90"@ {
        Transform::FlippedRotation(90)
    } else if s == "flipped-180"@ {
        Transform::FlippedRotation(180)
    } else if s == "flipped-270"@ {
        Transform::FlippedRotation(270)
    } else {
        Transform::Rotation(0)
    }
}

impl Transform {
    pub fn from_str(s: &str) -> (r: Transform)
        ensures
            r == spec_transform_from_str(s@),
    {
        if crate::text::str_eq(s, "90") {
            Transform::Rotation(90)
        } else if crate::text::str_eq(s, "180") {
            Transform::Rotation(180)
        } else if crate::text::str_eq(s, "270") {
            Transform::Rotation(270)
        } else if crate::text::str_eq(s, "flipped") {
            Transform::FlippedRotation(0)
        } else if crate::text::str_eq(s, "flipped-90") {
            Transform::FlippedRotation(90)
        } else if crate::text::str_eq(s, "flipped-180") {
            Transform::FlippedRotation(180)
        } else if crate::text::str_eq(s, "flipped-270") {
            Transform::FlippedRotation(270)
        } else {
            Transform::Rotation(0)
        }
    }
}

impl Default for Transform {
    fn default() -> (r: Transform)
        ensures
            r == Transform::Rotation(0),
    {
        Transform::Rotation(0)
    }
}

/// An exact decimal number: `mantissa / 10^exponent`, negated when
/// `negative` holds. It stands in for the fractional refresh-rate and
/// scale values without rounding.
#[derive(Clone, Copy, Debug, PartialEq, Eq, Structural)]
pub struct Decimal {
    pub negative: bool,
    pub mantissa: u64,
    pub exponent: u32,
}

impl Decimal {
    /// The unset value.
    pub open spec fn spec_zero() -> Decimal {
        Decimal { negative: false, mantissa: 0, exponent: 0 }
    }

    pub fn zero() -> (r: Decimal)
        ensures
            r == Decimal::spec_zero(),
    {
        Decimal { negative: false, mantissa: 0, exponent: 0 }
    }

    /// Whether the value is strictly greater than zero.
    pub open spec fn spec_is_positive(self) -> bool {
        !self.negative && self.mantissa > 0
    }

    pub fn is_positive(&self) -> (r: bool)
        ensures
            r == self.spec_is_positive(),
    {
        !self.negative && self.mantissa > 0
    }
}

/// Repeated zeros, used to pad a fraction.
pub open spec fn spec_zeros(n: int) -> Seq<char>
    decreases n,
{
    if n <= 0 {
        Seq::empty()
    } else {
        spec_zeros(n - 1).push('0')
    }
}

/// Places the decimal point `e` digits from the right of the digit run
/// `ds`, padding with zeros when the fraction is wider than the run.
pub open spec fn spec_point_str(ds: Seq<char>, e: int) -> Seq<char> {
    if e <= 0 {
        ds
    } else if e >= ds.len() {
        seq!['0', '.'] + spec_zeros(e - ds.len()) + ds
    } else {
        ds.subrange(0, ds.len() - e) + seq!['.'] + ds.subrange(ds.len() - e, ds.len() as int)
    }
}

/// Decimal rendering: sign, integer part, and the fraction when present.
pub open spec fn spec_dec_str(d: Decimal) -> Seq<char> {
    let body = spec_point_str(spec_digits(d.mantissa as int), d.exponent as int);
    if d.negative {
        seq!['-'] + body
    } else {
        body
    }
}

/// Renders a decimal value the way the directive language writes it.
pub fn dec_str(d: &Decimal) -> (r: String)
    ensures
        r@ == spec_dec_str(*d),
{
    let ds = u64_digits(d.mantissa);
    let dslen = ds.as_str().unicode_len();
    let mut s = String::new();
    if d.negative {
        push_char(&mut s, '-');
    }
    let ghost sign: Seq<char> = s@;
    if d.exponent == 0 {
        s.append(ds.as_str());
    } else if d.exponent as usize >= dslen {
        push_char(&mut s, '0');
        push_char(&mut s, '.');
        let mut k: usize = dslen;
        while k < d.exponent as usize
            invariant
                dslen <= k <= d.exponent,
                s@ == sign + seq!['0', '.'] + spec_zeros(k - dslen),
            decreases d.exponent - k,
        {
            push_char(&mut s, '0');
            proof {
                assert(s@ =~= sign + seq!['0', '.'] + spec_zeros(k + 1 - dslen));
            }
            k += 1;
        }
        s.append(ds.as_str());
    } else {
        let cut = dslen - d.exponent as usize;
        let head = ds.as_str().substring_char(0, cut);
        s.append(head);
        push_char(&mut s, '.');
        let tail = ds.as_str().substring_char(cut, dslen);
        s.append(tail);
    }
    proof {
        assert(s@ =~= spec_dec_str(*d));
    }
    s
}

/// Strips trailing zeros from the fraction so that, for example, one and a
/// half written with a trailing zero still renders the short way.
pub open spec fn spec_dec_normalize(m: int, e: int) -> (int, int)
    decreases e,
{
    if e <= 0 || m % 10 != 0 {
        (m, e)
    } else {
        spec_dec_normalize(m / 10, e - 1)
    }
}

/// A decimal literal: an optional sign, an integer part, and optionally a
/// point followed by at least one fraction digit; the digits together must
/// fit a 64-bit word.
pub open spec fn spec_parse_dec(s: Seq<char>) -> Option<Decimal> {
    let start: int = if s.len() > 0 && (s[0] == '-' || s[0] == '+') {
        1
    } else {
        0
    };
    let neg = s.len() > 0 && s[0] == '-';
    let j = spec_digits_end(s, start);
    if j == start {
        None
    } else if j == s.len() {
        match spec_dec_val(s, start, j) {
            Option::None => None,
            Option::Some(v) => Some(Decimal { negative: neg, mantissa: v as u64, exponent: 0 }),
        }
    } else if s[j] == '.' {
        let k = spec_digits_end(s, j + 1);
        if k != s.len() || k == j + 1 {
            None
        } else {
            match spec_dec_val(s.subrange(start, j) + s.subrange(j + 1, k), 0, k - 1 - start) {
                Option::None => None,
                Option::Some(v) => {
                    let (m, e) = spec_dec_normalize(v, k - (j + 1));
                    Some(Decimal { negative: neg, mantissa: m as u64, exponent: e as u32 })
                },
            }
        }
    } else {
        None
    }
}

/// Parses a decimal literal.
pub fn parse_dec(w: &str) -> (r: Option<Decimal>)
    ensures
        match r {
            Option::Some(d) => spec_parse_dec(w@) == Some(d),
            Option::None => spec_parse_dec(w@) is None,
        },
{
    let len = w.unicode_len();
    let mut start: usize = 0;
    let mut neg: bool = false;
    if len > 0 {
        let c = w.get_char(0);
        if c == '-' {
            neg = true;
            start = 1;
        } else if c == '+' {
            start = 1;
        }
    }
    let j = digits_end(w, start);
    if j == start {
        return None;
    }
    if j == len {
        match dec_val_range(w, start, j) {
            Option::None => None,
            Option::Some(v) => Some(Decimal { negative: neg, mantissa: v, exponent: 0 }),
        }
    } else if w.get_char(j) == '.' {
        let k = digits_end(w, j + 1);
        if k != len || k == j + 1 {
            return None;
        }
        let ghost cat = w@.subrange(start as int, j as int) + w@.subrange(j + 1, k as int);
        let catlen: usize = (j - start) + (k - j - 1);
        proof {
            assert(cat.len() == catlen as int);
        }
        let mut acc: u64 = 0;
        let mut idx: usize = 0;
        while idx < catlen
            invariant
                start <= j < k <= len,
                len == w@.len(),
                start as int == (if w@.len() > 0 && (w@[0] == '-' || w@[0] == '+') {
                    1int
                } else {
                    0int
                }),
                neg == (w@.len() > 0 && w@[0] == '-'),
                j as int == spec_digits_end(w@, start as int),
                j != start,
                w@[j as int] == '.',
                k as int == spec_digits_end(w@, j + 1),
                k == len,
                k > j + 1,
                catlen as int == cat.len(),
                cat == w@.subrange(start as int, j as int) + w@.subrange(j + 1, k as int),
                idx <= catlen,
                spec_dec_val_rec(cat, idx as int, catlen as int, acc as int) == spec_dec_val_rec(
                    cat,
                    0,
                    catlen as int,
                    0,
                ),
            decreases catlen - idx,
        {
            let c = if idx < j - start {
                w.get_char(start + idx)
            } else {
                w.get_char(j + 1 + (idx - (j - start)))
            };
            proof {
                assert(cat[idx as int] == c);
            }
            if !('0' <= c && c <= '9') {
                proof {
                    assert(spec_dec_val(cat, 0, catlen as int) is None);
                    assert(catlen as int == k - 1 - start);
                    assert(spec_parse_dec(w@) is None);
                }
                return None;
            }
            let wide: u128 = (acc as u128) * 10 + (((c as u8) - 48) as u128);
            if wide > 0xFFFF_FFFF_FFFF_FFFFu128 {
                proof {
                    assert(spec_dec_val(cat, 0, catlen as int) is None);
                    assert(catlen as int == k - 1 - start);
                    assert(spec_parse_dec(w@) is None);
                }
                return None;
            }
            acc = wide as u64;
            idx += 1;
        }
        proof {
            assert(spec_dec_val_rec(cat, catlen as int, catlen as int, acc as int) == Some(
                acc as int,
            ));
            assert(spec_dec_val(cat, 0, catlen as int) == Some(acc as int));
        }
        let ghost m0: int = acc as int;
        let ghost e0: int = k as int - (j + 1);
        let mut m: u64 = acc;
        let mut e: usize = k - (j + 1);
        while e > 0 && m % 10 == 0
            invariant
                start <= j < k <= len,
                len == w@.len(),
                start as int == (if w@.len() > 0 && (w@[0] == '-' || w@[0] == '+') {
                    1int
                } else {
                    0int
                }),
                neg == (w@.len() > 0 && w@[0] == '-'),
                j as int == spec_digits_end(w@, start as int),
                j != start,
                w@[j as int] == '.',
                k as int == spec_digits_end(w@, j + 1),
                k == len,
                k > j + 1,
                catlen as int == cat.len(),
                cat == w@.subrange(start as int, j as int) + w@.subrange(j + 1, k as int),
                spec_dec_val(cat, 0, catlen as int) == Some(m0),
                m0 == acc as int,
                e0 == k as int - (j + 1),
                spec_dec_normalize(m0, e0) == spec_dec_normalize(m as int, e as int),
            decreases e,
        {
            m = m / 10;
            e = e - 1;
        }
        proof {
            assert(spec_dec_normalize(m as int, e as int) == (m as int, e as int));
        }
        Some(Decimal { negative: neg, mantissa: m, exponent: #[verifier::truncate] (e as u32) })
    } else {
        None
    }
}

/// One expected output inside a profile: the identity patterns it must
/// match and the state to apply to it.
#[derive(Debug)]
pub struct SavedOutput {
    pub name: String,
    pub vendor: String,
    pub product: String,
    pub serial: String,
    pub enabled: bool,
    pub width: i32,
    pub height: i32,
    pub rate: Decimal,
    pub x: i32,
    pub y: i32,
    pub transform: Transform,
    pub primary: bool,
    pub scale: Decimal,
}

/// Mathematical image of a `SavedOutput`.
pub struct SavedOutputV {
    pub name: Seq<char>,
    pub vendor: Seq<char>,
    pub product: Seq<char>,
    pub serial: Seq<char>,
    pub enabled: bool,
    pub width: int,
    pub height: int,
    pub rate: Decimal,
    pub x: int,
    pub y: int,
    pub transform: Transform,
    pub primary: bool,
    pub scale: Decimal,
}

impl View for SavedOutput {
    type V = SavedOutputV;

    open spec fn view(&self) -> SavedOutputV {
        SavedOutputV {
            name: self.name@,
            vendor: self.vendor@,
            product: self.product@,
            serial: self.serial@,
            enabled: self.enabled,
            width: self.width as int,
            height: self.height as int,
            rate: self.rate,
            x: self.x as int,
            y: self.y as int,
            transform: self.transform,
            primary: self.primary,
            scale: self.scale,
        }
    }
}

/// The output every field of which is unset.
pub open spec fn spec_default_output() -> SavedOutputV {
    SavedOutputV {
        name: Seq::empty(),
        vendor: Seq::empty(),
        product: Seq::empty(),
        serial: Seq::empty(),
        enabled: false,
        width: 0,
        height: 0,
        rate: Decimal::spec_zero(),
        x: 0,
        y: 0,
        transform: Transform::Rotation(0),
        primary: false,
        scale: Decimal::spec_zero(),
    }
}

impl Default for SavedOutput {
    fn default() -> (r: SavedOutput)
        ensures
            r@ == spec_default_output(),
    {
        SavedOutput {
            name: String::new(),
            vendor: String::new(),
            product: String::new(),
            serial: String::new(),
            enabled: false,
            width: 0,
            height: 0,
            rate: Decimal::zero(),
            x: 0,
            y: 0,
            transform: Transform::Rotation(0),
            primary: false,
            scale: Decimal::zero(),
        }
    }
}

impl Clone for SavedOutput {
    fn clone(&self) -> (r: SavedOutput)
        ensures
            r@ == self@,
    {
        SavedOutput {
            name: self.name.clone(),
            vendor: self.vendor.clone(),
            product: self.product.clone(),
            serial: self.serial.clone(),
            enabled: self.enabled,
            width: self.width,
            height: self.height,
            rate: self.rate,
            x: self.x,
            y: self.y,
            transform: self.transform,
            primary: self.primary,
            scale: self.scale,
        }
    }
}

/// One profile: the outputs expected to be attached, and the commands to
/// launch after the profile is applied.
#[derive(Debug)]
pub struct SavedConfiguration {
    pub outputs: Vec<SavedOutput>,
    pub exec_cmds: Vec<Vec<String>>,
}

/// Mathematical image of a `SavedConfiguration`.
pub struct SavedConfigurationV {
    pub outputs: Seq<SavedOutputV>,
    pub exec_cmds: Seq<Seq<Seq<char>>>,
}

impl View for SavedConfiguration {
    type V = SavedConfigurationV;

    open spec fn view(&self) -> SavedConfigurationV {
        SavedConfigurationV {
            outputs: self.outputs@.map_values(|o: SavedOutput| o@),
            exec_cmds: self.exec_cmds@.map_values(|e: Vec<String>| e@.map_values(|s: String| s@)),
        }
    }
}

impl Default for SavedConfiguration {
    fn default() -> (r: SavedConfiguration)
        ensures
            r@.outputs.len() == 0,
            r@.exec_cmds.len() == 0,
    {
        SavedConfiguration { outputs: Vec::new(), exec_cmds: Vec::new() }
    }
}

impl Clone for SavedConfiguration {
    fn clone(&self) -> (r: SavedConfiguration)
        ensures
            r@ == self@,
    {
        let mut outputs: Vec<SavedOutput> = Vec::new();
        let mut i: usize = 0;
        while i < self.outputs.len()
            invariant
                i <= self.outputs.len(),
                outputs@.len() == i as int,
                forall|k: int| 0 <= k < i ==> #[trigger] outputs@[k]@ == self.outputs@[k]@,
            decreases self.outputs.len() - i,
        {
            outputs.push(self.outputs[i].clone());
            i += 1;
        }
        let mut cmds: Vec<Vec<String>> = Vec::new();
        let mut j: usize = 0;
        while j < self.exec_cmds.len()
            invariant
                j <= self.exec_cmds.len(),
                cmds@.len() == j as int,
                forall|a: int| 0 <= a < j ==> #[trigger] cmds@[a]@.len() == self.exec_cmds@[a]@.len(),
                forall|a: int, b: int|
                    0 <= a < j && 0 <= b < self.exec_cmds@[a]@.len() ==> #[trigger] cmds@[a]@[b]@
                        == self.exec_cmds@[a]@[b]@,
            decreases self.exec_cmds.len() - j,
        {
            let mut cmd: Vec<String> = Vec::new();
            let mut k: usize = 0;
            while k < self.exec_cmds[j].len()
                invariant
                    j < self.exec_cmds.len(),
                    k <= self.exec_cmds@[j as int]@.len(),
                    cmd@.len() == k as int,
                    forall|b: int| 0 <= b < k ==> #[trigger] cmd@[b]@ == self.exec_cmds@[j as int]@[b]@,
                decreases self.exec_cmds@[j as int]@.len() - k,
            {
                cmd.push(self.exec_cmds[j][k].clone());
                k += 1;
            }
            cmds.push(cmd);
            j += 1;
        }
        let r = SavedConfiguration { outputs, exec_cmds: cmds };
        proof {
            assert(r@.outputs =~= self@.outputs);
            assert forall|a: int| 0 <= a < self.exec_cmds@.len() implies r@.exec_cmds[a]
                =~= self@.exec_cmds[a] by {
                assert(r@.exec_cmds[a] == cmds@[a]@.map_values(|s: String| s@));
            }
            assert(r@.exec_cmds =~~= self@.exec_cmds);
        }
        r
    }
}

/// Reads the yes/no wording used by the legacy profile format.
pub fn parse_bool(s: &str) -> (r: bool)
    ensures
        r == (s@ == "yes"@),
{
    crate::text::str_eq(s, "yes")
}

} // verus!
