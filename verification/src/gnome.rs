//! The legacy profile source: an XML monitor-configuration document, as
//! some desktop environments write it. The XML tree itself comes from an
//! outside reader; walking the tree and building the profile entries is
//! the verified part. An entry with no width or no height counts as
//! disabled, and its patterns are always literal text.

use vstd::prelude::*;
use vstd::string::*;

use crate::store::{
    parse_dec, spec_parse_dec, Decimal, SavedConfiguration, SavedOutput, SavedOutputV, Transform,
};
use crate::text::{parse_i32_text, spec_parse_i32_text, spec_trim, str_eq, trim_str};

verus! {

#[verifier::external_type_specification]
#[verifier::external_body]
pub struct ExElement(xmltree::Element);

/// Relies on xmltree::Element::parse: reads one XML document from a byte
/// buffer, or fails on malformed XML.
#[verifier::external_body]
fn xml_parse(buf: &Vec<u8>) -> (r: Option<xmltree::Element>) {
    xmltree::Element::parse(buf.as_slice()).ok()
}

/// Relies on the public `name` field of xmltree::Element: the tag name.
#[verifier::external_body]
fn element_name(e: &xmltree::Element) -> (r: String) {
    e.name.clone()
}

/// Relies on the public `text` field of xmltree::Element: the text data.
#[verifier::external_body]
fn element_text(e: &xmltree::Element) -> (r: Option<String>) {
    e.text.clone()
}

/// Relies on HashMap::get over the public `attributes` field of
/// xmltree::Element: the value of one attribute.
#[verifier::external_body]
fn element_attr(e: &xmltree::Element, key: &str) -> (r: Option<String>) {
    e.attributes.get(key).cloned()
}

/// Relies on the public `children` field of xmltree::Element and its
/// derived Clone: the child elements in document order.
#[verifier::external_body]
fn element_children(e: &xmltree::Element) -> (r: Vec<xmltree::Element>) {
    e.children.clone()
}

/// Why loading the legacy document failed. Each of these is fatal for the
/// load: no partial profile list is returned.
#[derive(Clone, Copy, Debug, PartialEq, Eq, Structural)]
pub enum GnomeError {
    /// The document is not well-formed XML.
    BadXml,
    /// A required attribute, child element or text node is missing.
    MissingField,
    /// A numeric field does not parse.
    BadNumber,
}

/// The first child with the given tag name, in document order.
fn find_child<'a>(children: &'a Vec<xmltree::Element>, name: &str) -> (r: Option<
    &'a xmltree::Element,
>) {
    let mut i: usize = 0;
    while i < children.len()
        decreases children.len() - i,
    {
        let n = element_name(&children[i]);
        if str_eq(n.as_str(), name) {
            return Some(&children[i]);
        }
        i += 1;
    }
    None
}

/// The text of the first child with the given tag name: none when there is
/// no such child, an error when the child has no text.
fn child_text(children: &Vec<xmltree::Element>, name: &str) -> (r: Result<
    Option<String>,
    GnomeError,
>) {
    match find_child(children, name) {
        Option::Some(c) => match element_text(c) {
            Option::Some(t) => Ok(Some(t)),
            Option::None => Err(GnomeError::MissingField),
        },
        Option::None => Ok(None),
    }
}

/// The rotation wording of the legacy document, trimmed; anything outside
/// the recognized set means no rotation.
pub open spec fn spec_gnome_rotation(s: Seq<char>) -> Transform {
    let t = spec_trim(s);
    if t == "right"@ {
        Transform::Rotation(90)
    } else if t == "inverted"@ {
        Transform::Rotation(180)
    } else if t == "left"@ {
        Transform::Rotation(270)
    } else {
        Transform::Rotation(0)
    }
}

fn gnome_rotation(s: &str) -> (r: Transform)
    ensures
        r == spec_gnome_rotation(s@),
{
    let t = trim_str(s);
    if str_eq(t.as_str(), "right") {
        Transform::Rotation(90)
    } else if str_eq(t.as_str(), "inverted") {
        Transform::Rotation(180)
    } else if str_eq(t.as_str(), "left") {
        Transform::Rotation(270)
    } else {
        Transform::Rotation(0)
    }
}

/// The profile entry described by one output element's fields, or nothing
/// when a numeric field is malformed. A missing geometry field counts as
/// zero, and the entry is enabled exactly when both width and height are
/// set and nonzero.
pub open spec fn spec_gnome_output(
    name: Seq<char>,
    vendor: Seq<char>,
    product: Seq<char>,
    serial: Seq<char>,
    width: Option<Seq<char>>,
    height: Option<Seq<char>>,
    rate: Option<Seq<char>>,
    x: Option<Seq<char>>,
    y: Option<Seq<char>>,
    rotation: Option<Seq<char>>,
    primary: Option<Seq<char>>,
) -> Option<SavedOutputV> {
    let w = match width {
        Option::Some(t) => spec_parse_i32_text(t),
        Option::None => Some(0),
    };
    let h = match height {
        Option::Some(t) => spec_parse_i32_text(t),
        Option::None => Some(0),
    };
    let xx = match x {
        Option::Some(t) => spec_parse_i32_text(t),
        Option::None => Some(0),
    };
    let yy = match y {
        Option::Some(t) => spec_parse_i32_text(t),
        Option::None => Some(0),
    };
    let rt = match rate {
        Option::Some(t) => spec_parse_dec(t),
        Option::None => Some(Decimal::spec_zero()),
    };
    if w is None || h is None || xx is None || yy is None || rt is None {
        None
    } else {
        Some(
            SavedOutputV {
                name,
                vendor,
                product,
                serial,
                enabled: w.unwrap() != 0 && h.unwrap() != 0,
                width: w.unwrap(),
                height: h.unwrap(),
                rate: rt.unwrap(),
                x: xx.unwrap(),
                y: yy.unwrap(),
                transform: match rotation {
                    Option::Some(t) => spec_gnome_rotation(t),
                    Option::None => Transform::Rotation(0),
                },
                primary: match primary {
                    Option::Some(t) => t == "yes"@,
                    Option::None => false,
                },
                scale: Decimal::spec_zero(),
            },
        )
    }
}

pub open spec fn spec_opt_view(o: Option<String>) -> Option<Seq<char>> {
    match o {
        Option::Some(s) => Some(s@),
        Option::None => None,
    }
}

/// Builds one profile entry from the plain field values of an output
/// element.
pub fn build_gnome_output(
    name: String,
    vendor: String,
    product: String,
    serial: String,
    width: Option<String>,
    height: Option<String>,
    rate: Option<String>,
    x: Option<String>,
    y: Option<String>,
    rotation: Option<String>,
    primary: Option<String>,
) -> (r: Result<SavedOutput, GnomeError>)
    ensures
        match r {
            Result::Ok(o) => spec_gnome_output(
                name@,
                vendor@,
                product@,
                serial@,
                spec_opt_view(width),
                spec_opt_view(height),
                spec_opt_view(rate),
                spec_opt_view(x),
                spec_opt_view(y),
                spec_opt_view(rotation),
                spec_opt_view(primary),
            ) == Some(o@),
            Result::Err(e) => e == GnomeError::BadNumber && spec_gnome_output(
                name@,
                vendor@,
                product@,
                serial@,
                spec_opt_view(width),
                spec_opt_view(height),
                spec_opt_view(rate),
                spec_opt_view(x),
                spec_opt_view(y),
                spec_opt_view(rotation),
                spec_opt_view(primary),
            ) is None,
        },
{
    let w: i32 = match &width {
        Option::Some(t) => match parse_i32_text(t.as_str()) {
            Option::Some(v) => v,
            Option::None => {
                return Err(GnomeError::BadNumber);
            },
        },
        Option::None => 0,
    };
    let h: i32 = match &height {
        Option::Some(t) => match parse_i32_text(t.as_str()) {
            Option::Some(v) => v,
            Option::None => {
                return Err(GnomeError::BadNumber);
            },
        },
        Option::None => 0,
    };
    let xx: i32 = match &x {
        Option::Some(t) => match parse_i32_text(t.as_str()) {
            Option::Some(v) => v,
            Option::None => {
                return Err(GnomeError::BadNumber);
            },
        },
        Option::None => 0,
    };
    let yy: i32 = match &y {
        Option::Some(t) => match parse_i32_text(t.as_str()) {
            Option::Some(v) => v,
            Option::None => {
                return Err(GnomeError::BadNumber);
            },
        },
        Option::None => 0,
    };
    let rt: Decimal = match &rate {
        Option::Some(t) => match parse_dec(t.as_str()) {
            Option::Some(v) => v,
            Option::None => {
                return Err(GnomeError::BadNumber);
            },
        },
        Option::None => Decimal::zero(),
    };
    let transform = match &rotation {
        Option::Some(t) => gnome_rotation(t.as_str()),
        Option::None => Transform::Rotation(0),
    };
    let primary_flag = match &primary {
        Option::Some(t) => crate::store::parse_bool(t.as_str()),
        Option::None => false,
    };
    Ok(
        SavedOutput {
            name,
            vendor,
            product,
            serial,
            enabled: w != 0 && h != 0,
            width: w,
            height: h,
            rate: rt,
            x: xx,
            y: yy,
            transform,
            primary: primary_flag,
            scale: Decimal::zero(),
        },
    )
}

/// Reads profiles from the legacy XML document. Loading the file is the
/// caller's affair; decoding the tree is done here.
pub struct GnomeStore;

impl GnomeStore {
    /// Decodes the document: one profile per configuration element, one
    /// entry per output element. The promise every entry keeps: it is
    /// enabled exactly when both width and height are set and nonzero,
    /// and the legacy source declares no post-apply commands.
    pub fn parse_configurations(buf: &Vec<u8>) -> (r: Result<Vec<SavedConfiguration>, GnomeError>)
        ensures
            match r {
                Result::Ok(cfgs) => forall|i: int, k: int|
                    0 <= i < cfgs@.len() && 0 <= k < (#[trigger] cfgs@[i]@).outputs.len() ==> {
                        let o = #[trigger] cfgs@[i]@.outputs[k];
                        o.enabled == (o.width != 0 && o.height != 0) && cfgs@[i]@.exec_cmds.len()
                            == 0
                    },
                Result::Err(e) => true,
            },
    {
        let root = match xml_parse(buf) {
            Option::Some(e) => e,
            Option::None => {
                return Err(GnomeError::BadXml);
            },
        };
        let children = element_children(&root);
        let mut cfgs: Vec<SavedConfiguration> = Vec::new();
        let mut i: usize = 0;
        while i < children.len()
            invariant
                forall|a: int, k: int|
                    0 <= a < cfgs@.len() && 0 <= k < (#[trigger] cfgs@[a]@).outputs.len() ==> {
                        let o = #[trigger] cfgs@[a]@.outputs[k];
                        o.enabled == (o.width != 0 && o.height != 0) && cfgs@[a]@.exec_cmds.len()
                            == 0
                    },
            decreases children.len() - i,
        {
            let n = element_name(&children[i]);
            if str_eq(n.as_str(), "configuration") {
                let conf_children = element_children(&children[i]);
                let mut outs: Vec<SavedOutput> = Vec::new();
                let mut k: usize = 0;
                while k < conf_children.len()
                    invariant
                        i < children.len(),
                        forall|b: int|
                            0 <= b < outs@.len() ==> {
                                let o = #[trigger] outs@[b]@;
                                o.enabled == (o.width != 0 && o.height != 0)
                            },
                    decreases conf_children.len() - k,
                {
                    let cn = element_name(&conf_children[k]);
                    if str_eq(cn.as_str(), "output") {
                        let oc = element_children(&conf_children[k]);
                        let name_attr = match element_attr(&conf_children[k], "name") {
                            Option::Some(s) => s,
                            Option::None => {
                                return Err(GnomeError::MissingField);
                            },
                        };
                        let vendor = match child_text(&oc, "vendor") {
                            Result::Ok(Option::Some(s)) => s,
                            Result::Ok(Option::None) => {
                                return Err(GnomeError::MissingField);
                            },
                            Result::Err(e) => {
                                return Err(e);
                            },
                        };
                        let product = match child_text(&oc, "product") {
                            Result::Ok(Option::Some(s)) => s,
                            Result::Ok(Option::None) => {
                                return Err(GnomeError::MissingField);
                            },
                            Result::Err(e) => {
                                return Err(e);
                            },
                        };
                        let serial = match child_text(&oc, "serial") {
                            Result::Ok(Option::Some(s)) => s,
                            Result::Ok(Option::None) => {
                                return Err(GnomeError::MissingField);
                            },
                            Result::Err(e) => {
                                return Err(e);
                            },
                        };
                        let width = match child_text(&oc, "width") {
                            Result::Ok(v) => v,
                            Result::Err(e) => {
                                return Err(e);
                            },
                        };
                        let height = match child_text(&oc, "height") {
                            Result::Ok(v) => v,
                            Result::Err(e) => {
                                return Err(e);
                            },
                        };
                        let rate = match child_text(&oc, "rate") {
                            Result::Ok(v) => v,
                            Result::Err(e) => {
                                return Err(e);
                            },
                        };
                        let x = match child_text(&oc, "x") {
                            Result::Ok(v) => v,
                            Result::Err(e) => {
                                return Err(e);
                            },
                        };
                        let y = match child_text(&oc, "y") {
                            Result::Ok(v) => v,
                            Result::Err(e) => {
                                return Err(e);
                            },
                        };
                        let rotation = match child_text(&oc, "rotation") {
                            Result::Ok(v) => v,
                            Result::Err(e) => {
                                return Err(e);
                            },
                        };
                        let primary = match child_text(&oc, "primary") {
                            Result::Ok(v) => v,
                            Result::Err(e) => {
                                return Err(e);
                            },
                        };
                        let o = match build_gnome_output(
                            name_attr,
                            vendor,
                            product,
                            serial,
                            width,
                            height,
                            rate,
                            x,
                            y,
                            rotation,
                            primary,
                        ) {
                            Result::Ok(o) => o,
                            Result::Err(e) => {
                                return Err(e);
                            },
                        };
                        outs.push(o);
                    }
                    k += 1;
                }
                cfgs.push(SavedConfiguration { outputs: outs, exec_cmds: Vec::new() });
            }
            i += 1;
        }
        Ok(cfgs)
    }
}

} // verus!
