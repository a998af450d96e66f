//! Attached displays: the identity record of one connected output, and the
//! pure parts of the sysfs enumeration (name filtering, status reading, and
//! decoding the identity block).

use vstd::prelude::*;
use vstd::string::*;

use crate::text::{push_char, spec_hex_digits, spec_trim, str_eq, trim_str, u32_hex_digits};

verus! {

/// A currently connected display: its connector name and the identity data
/// decoded from its EDID block.
#[derive(Debug)]
pub struct ConnectedOutput {
    pub name: String,
    pub vendor: String,
    pub product: u16,
    pub serial: u32,
    pub product_text: Option<String>,
    pub serial_text: Option<String>,
}

/// Mathematical image of a `ConnectedOutput`.
pub struct ConnectedOutputV {
    pub name: Seq<char>,
    pub vendor: Seq<char>,
    pub product: u16,
    pub serial: u32,
    pub product_text: Option<Seq<char>>,
    pub serial_text: Option<Seq<char>>,
}

impl View for ConnectedOutput {
    type V = ConnectedOutputV;

    open spec fn view(&self) -> ConnectedOutputV {
        ConnectedOutputV {
            name: self.name@,
            vendor: self.vendor@,
            product: self.product,
            serial: self.serial,
            product_text: match self.product_text {
                Option::Some(s) => Some(s@),
                Option::None => None,
            },
            serial_text: match self.serial_text {
                Option::Some(s) => Some(s@),
                Option::None => None,
            },
        }
    }
}

impl Clone for ConnectedOutput {
    fn clone(&self) -> (r: ConnectedOutput)
        ensures
            r@ == self@,
    {
        ConnectedOutput {
            name: self.name.clone(),
            vendor: self.vendor.clone(),
            product: self.product,
            serial: self.serial,
            product_text: match &self.product_text {
                Option::Some(s) => Some(s.clone()),
                Option::None => None,
            },
            serial_text: match &self.serial_text {
                Option::Some(s) => Some(s.clone()),
                Option::None => None,
            },
        }
    }
}

/// A numeric code printed the way the identity block reports it: a hex
/// literal with the two-character prefix and uppercase digits.
pub open spec fn spec_hex_literal(n: int) -> Seq<char> {
    seq!['0', 'x'] + spec_hex_digits(n)
}

/// The product descriptor: the human-readable product name when the
/// identity block carries one, else the product code as a hex literal.
pub open spec fn spec_product_str(v: ConnectedOutputV) -> Seq<char> {
    match v.product_text {
        Option::Some(t) => t,
        Option::None => spec_hex_literal(v.product as int),
    }
}

/// The serial descriptor: the human-readable serial text when the identity
/// block carries one, else the serial code as a hex literal.
pub open spec fn spec_serial_str(v: ConnectedOutputV) -> Seq<char> {
    match v.serial_text {
        Option::Some(t) => t,
        Option::None => spec_hex_literal(v.serial as int),
    }
}

fn hex_literal(n: u32) -> (r: String)
    ensures
        r@ == spec_hex_literal(n as int),
{
    let mut s = String::new();
    push_char(&mut s, '0');
    push_char(&mut s, 'x');
    let d = u32_hex_digits(n);
    s.append(d.as_str());
    proof {
        assert(s@ =~= spec_hex_literal(n as int));
    }
    s
}

impl ConnectedOutput {
    /// The vendor code: three letters.
    pub fn vendor(&self) -> (r: String)
        ensures
            r@ == self@.vendor,
    {
        self.vendor.clone()
    }

    /// The product descriptor used for literal pattern comparison.
    pub fn product(&self) -> (r: String)
        ensures
            r@ == spec_product_str(self@),
    {
        match &self.product_text {
            Option::Some(s) => s.clone(),
            Option::None => hex_literal(self.product as u32),
        }
    }

    /// The serial descriptor used for literal pattern comparison.
    pub fn serial(&self) -> (r: String)
        ensures
            r@ == spec_serial_str(self@),
    {
        match &self.serial_text {
            Option::Some(s) => s.clone(),
            Option::None => hex_literal(self.serial),
        }
    }

    /// One-line description of the display identity for diagnostics.
    pub fn describe(&self) -> (r: String)
        ensures
            r@ == "output "@ + self@.name + " vendor "@ + self@.vendor + " product "@
                + spec_product_str(self@) + " serial "@ + spec_serial_str(self@),
    {
        let mut s = String::new();
        s.append("output ");
        s.append(self.name.as_str());
        s.append(" vendor ");
        s.append(self.vendor.as_str());
        s.append(" product ");
        let p = self.product();
        s.append(p.as_str());
        s.append(" serial ");
        let n = self.serial();
        s.append(n.as_str());
        proof {
            assert(s@ =~= "output "@ + self@.name + " vendor "@ + self@.vendor + " product "@
                + spec_product_str(self@) + " serial "@ + spec_serial_str(self@));
        }
        s
    }
}

/// Whether `p` occurs at position `i` of `s`.
pub open spec fn spec_has_prefix_at(s: Seq<char>, i: int, p: Seq<char>) -> bool {
    i + p.len() <= s.len() && s.subrange(i, i + p.len()) == p
}

fn has_prefix_at(s: &str, from: usize, p: &str) -> (r: bool)
    requires
        from <= s@.len(),
    ensures
        r == spec_has_prefix_at(s@, from as int, p@),
{
    let slen = s.unicode_len();
    let plen = p.unicode_len();
    if slen - from < plen {
        proof {
            assert(!spec_has_prefix_at(s@, from as int, p@));
        }
        return false;
    }
    let mut i: usize = 0;
    while i < plen
        invariant
            from + plen <= slen,
            slen == s@.len(),
            plen == p@.len(),
            i <= plen,
            forall|k: int| 0 <= k < i ==> s@[from + k] == p@[k],
        decreases plen - i,
    {
        if s.get_char(from + i) != p.get_char(i) {
            proof {
                assert(s@.subrange(from as int, from + p@.len())[i as int] != p@[i as int]);
            }
            return false;
        }
        i += 1;
    }
    proof {
        assert(s@.subrange(from as int, from + p@.len()) =~= p@);
    }
    true
}

/// The position after every repetition of the connector file prefix has
/// been stripped from the front.
pub open spec fn spec_strip_prefix_all(s: Seq<char>, i: int, p: Seq<char>) -> int
    decreases s.len() - i
        when 0 <= i <= s.len() && p.len() > 0
{
    if 0 <= i <= s.len() && p.len() > 0 && spec_has_prefix_at(s, i, p) {
        spec_strip_prefix_all(s, i + p.len(), p)
    } else {
        i
    }
}

/// Enumerates sysfs display entries. The directory walking itself is plain
/// input handled by the caller; the name filtering, status test and
/// identity decoding below are the verified part.
pub struct SysFsBackend;

impl SysFsBackend {
    /// The connector name of a device directory entry: entries that do not
    /// carry the card prefix are not outputs; the prefix (however often it
    /// repeats) is stripped from those that do.
    pub fn entry_output_name(file_name: &str) -> (r: Option<String>)
        ensures
            match r {
                Option::Some(n) => spec_has_prefix_at(file_name@, 0, "card0-"@) && n@
                    == file_name@.subrange(
                    spec_strip_prefix_all(file_name@, 0, "card0-"@),
                    file_name@.len() as int,
                ),
                Option::None => !spec_has_prefix_at(file_name@, 0, "card0-"@),
            },
    {
        proof {
            reveal_strlit("card0-");
        }
        if !has_prefix_at(file_name, 0, "card0-") {
            return None;
        }
        let len = file_name.unicode_len();
        let mut i: usize = 0;
        while has_prefix_at(file_name, i, "card0-")
            invariant
                0 <= i <= file_name@.len(),
                len == file_name@.len(),
                spec_strip_prefix_all(file_name@, 0, "card0-"@) == spec_strip_prefix_all(
                    file_name@,
                    i as int,
                    "card0-"@,
                ),
            decreases file_name@.len() - i,
        {
            proof {
                reveal_strlit("card0-");
            }
            i += 6;
        }
        proof {
            assert(spec_strip_prefix_all(file_name@, i as int, "card0-"@) == i as int);
        }
        let sub = file_name.substring_char(i, len);
        Some(sub.to_owned())
    }

    /// Whether a connector status file reports a connected display.
    pub fn status_is_connected(status: &str) -> (r: bool)
        ensures
            r == (spec_trim(status@) == "connected"@),
    {
        let t = trim_str(status);
        str_eq(t.as_str(), "connected")
    }

    /// The display record encoded by a connector's raw identity block, or
    /// nothing when the block does not decode.
    pub fn parse_connected_output(name: String, raw: &Vec<u8>) -> (r: Option<ConnectedOutput>)
        ensures
            match r {
                Option::Some(o) => o@.name == name@,
                Option::None => true,
            },
    {
        match edid_parse(raw) {
            Option::None => None,
            Option::Some(e) => {
                let (v0, v1, v2, product, serial, descs) = edid_parts(e);
                let mut texts: Vec<DescriptorText> = Vec::new();
                let mut i: usize = 0;
                while i < descs.len()
                    decreases descs.len() - i,
                {
                    texts.push(descriptor_text(&descs[i]));
                    i += 1;
                }
                Some(build_output(name, v0, v1, v2, product, serial, texts))
            },
        }
    }
}

#[verifier::external_type_specification]
#[verifier::external_body]
pub struct ExEDID(edid::EDID);

#[verifier::external_type_specification]
#[verifier::external_body]
pub struct ExDescriptor(edid::Descriptor);

/// Relies on edid::parse: decodes one identity block from its raw bytes,
/// or fails on a malformed block.
#[verifier::external_body]
fn edid_parse(buf: &Vec<u8>) -> (r: Option<edid::EDID>) {
    let res = edid::parse(buf.as_slice());
    if res.is_done() {
        Some(res.unwrap().1)
    } else {
        None
    }
}

/// Relies on the public `header` and `descriptors` fields of edid::EDID:
/// the vendor letters, the product and serial codes, and the descriptor
/// list of the block.
#[verifier::external_body]
fn edid_parts(e: edid::EDID) -> (r: (char, char, char, u16, u32, Vec<edid::Descriptor>)) {
    (
        e.header.vendor[0],
        e.header.vendor[1],
        e.header.vendor[2],
        e.header.product,
        e.header.serial,
        e.descriptors,
    )
}

/// The text a descriptor carries, when it is one of the two kinds the
/// matcher reads.
#[derive(Debug)]
pub enum DescriptorText {
    ProductName(String),
    SerialNumber(String),
    Other,
}

/// Relies on the variants of edid::Descriptor: moves the text out of a
/// product-name or serial-number descriptor, one arm per kind read.
#[verifier::external_body]
fn descriptor_text(d: &edid::Descriptor) -> (r: DescriptorText) {
    match d {
        edid::Descriptor::ProductName(s) => DescriptorText::ProductName(s.clone()),
        edid::Descriptor::SerialNumber(s) => DescriptorText::SerialNumber(s.clone()),
        _ => DescriptorText::Other,
    }
}

/// The first product-name text at or after `i`.
pub open spec fn spec_first_product(ts: Seq<DescriptorText>, i: int) -> Option<Seq<char>>
    decreases ts.len() - i
        when 0 <= i
{
    if i >= ts.len() {
        None
    } else {
        match ts[i] {
            DescriptorText::ProductName(s) => Some(s@),
            _ => spec_first_product(ts, i + 1),
        }
    }
}

/// The first serial-number text at or after `i`.
pub open spec fn spec_first_serial(ts: Seq<DescriptorText>, i: int) -> Option<Seq<char>>
    decreases ts.len() - i
        when 0 <= i
{
    if i >= ts.len() {
        None
    } else {
        match ts[i] {
            DescriptorText::SerialNumber(s) => Some(s@),
            _ => spec_first_serial(ts, i + 1),
        }
    }
}

/// Assembles the display record from the decoded identity fields: the
/// vendor letters joined, and the first descriptor text of each kind.
pub fn build_output(
    name: String,
    v0: char,
    v1: char,
    v2: char,
    product: u16,
    serial: u32,
    texts: Vec<DescriptorText>,
) -> (r: ConnectedOutput)
    ensures
        r@.name == name@,
        r@.vendor == seq![v0, v1, v2],
        r@.product == product,
        r@.serial == serial,
        r@.product_text == spec_first_product(texts@, 0),
        r@.serial_text == spec_first_serial(texts@, 0),
{
    let mut vendor = String::new();
    push_char(&mut vendor, v0);
    push_char(&mut vendor, v1);
    push_char(&mut vendor, v2);
    proof {
        assert(vendor@ =~= seq![v0, v1, v2]);
    }
    let product_text = first_product(&texts);
    let serial_text = first_serial(&texts);
    ConnectedOutput { name, vendor, product, serial, product_text, serial_text }
}

fn first_product(texts: &Vec<DescriptorText>) -> (r: Option<String>)
    ensures
        match r {
            Option::Some(s) => spec_first_product(texts@, 0) == Some(s@),
            Option::None => spec_first_product(texts@, 0) is None,
        },
{
    let mut i: usize = 0;
    while i < texts.len()
        invariant
            i <= texts.len(),
            spec_first_product(texts@, 0) == spec_first_product(texts@, i as int),
        decreases texts.len() - i,
    {
        match &texts[i] {
            DescriptorText::ProductName(s) => {
                return Some(s.clone());
            },
            _ => {},
        }
        i += 1;
    }
    None
}

fn first_serial(texts: &Vec<DescriptorText>) -> (r: Option<String>)
    ensures
        match r {
            Option::Some(s) => spec_first_serial(texts@, 0) == Some(s@),
            Option::None => spec_first_serial(texts@, 0) is None,
        },
{
    let mut k: usize = 0;
    while k < texts.len()
        invariant
            k <= texts.len(),
            spec_first_serial(texts@, 0) == spec_first_serial(texts@, k as int),
        decreases texts.len() - k,
    {
        match &texts[k] {
            DescriptorText::SerialNumber(s) => {
                return Some(s.clone());
            },
            _ => {},
        }
        k += 1;
    }
    None
}

} // verus!
