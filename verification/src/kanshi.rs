//! The profile-definition language: blocks of directives between braces.
//! A block holds `output` directives (a target and its arguments) and
//! `exec` directives (a command line to launch after applying). The parser
//! is total: it either returns every profile of the source or one
//! position-bearing error, never a partial result.

use vstd::prelude::*;
use vstd::string::*;

use crate::store::{
    spec_default_output, spec_parse_dec, spec_transform_from_str, SavedConfiguration,
    SavedConfigurationV, SavedOutput, SavedOutputV, Transform,
};
use crate::text::{spec_dec_val, spec_digits_end, str_eq};

verus! {

// ------------------------------------------------------------------
// Tokens
// ------------------------------------------------------------------
/// Space and tab separate tokens on a line.
pub open spec fn spec_is_blank(c: char) -> bool {
    c == ' ' || c == '\t'
}

/// A line break ends a directive.
pub open spec fn spec_is_break(c: char) -> bool {
    c == '\n' || c == '\r'
}

/// Word characters: everything that does not separate tokens; braces
/// delimit themselves.
pub open spec fn spec_is_word_char(c: char) -> bool {
    !spec_is_blank(c) && !spec_is_break(c) && c != '{' && c != '}'
}

/// The end of the word that starts at `i`.
pub open spec fn spec_word_end(s: Seq<char>, i: int) -> int
    decreases s.len() - i
        when 0 <= i
{
    if i < s.len() && spec_is_word_char(s[i]) {
        spec_word_end(s, i + 1)
    } else {
        i
    }
}

pub proof fn lemma_word_end_bounds(s: Seq<char>, i: int)
    requires
        0 <= i <= s.len(),
    ensures
        i <= spec_word_end(s, i) <= s.len(),
        i < s.len() && spec_is_word_char(s[i]) ==> i + 1 <= spec_word_end(s, i),
    decreases s.len() - i,
{
    if i < s.len() && spec_is_word_char(s[i]) {
        lemma_word_end_bounds(s, i + 1);
    }
}

/// One token of the profile source.
#[derive(Debug)]
pub enum TokKind {
    LBrace,
    RBrace,
    Newline,
    Word(String),
    End,
}

/// Mathematical image of a token kind.
pub enum TokKindV {
    LBrace,
    RBrace,
    Newline,
    Word(Seq<char>),
    End,
}

impl View for TokKind {
    type V = TokKindV;

    open spec fn view(&self) -> TokKindV {
        match self {
            TokKind::LBrace => TokKindV::LBrace,
            TokKind::RBrace => TokKindV::RBrace,
            TokKind::Newline => TokKindV::Newline,
            TokKind::Word(s) => TokKindV::Word(s@),
            TokKind::End => TokKindV::End,
        }
    }
}

/// A token and the source position where it starts.
#[derive(Debug)]
pub struct Tok {
    pub kind: TokKind,
    pub pos: usize,
}

/// Mathematical image of a token.
pub struct TokV {
    pub kind: TokKindV,
    pub pos: int,
}

impl View for Tok {
    type V = TokV;

    open spec fn view(&self) -> TokV {
        TokV { kind: self.kind@, pos: self.pos as int }
    }
}

pub open spec fn spec_tok_views(ts: Seq<Tok>) -> Seq<TokV> {
    ts.map_values(|t: Tok| t@)
}

/// The token sequence of the source from position `p` on: blanks vanish,
/// breaks and braces stand alone, maximal words hold the rest, and one
/// end marker closes the sequence.
pub open spec fn spec_tokenize(s: Seq<char>, p: int) -> Seq<TokV>
    decreases s.len() - p
        when 0 <= p via spec_tokenize_dec
{
    if p >= s.len() {
        seq![TokV { kind: TokKindV::End, pos: p }]
    } else if spec_is_blank(s[p]) {
        spec_tokenize(s, p + 1)
    } else if spec_is_break(s[p]) {
        seq![TokV { kind: TokKindV::Newline, pos: p }] + spec_tokenize(s, p + 1)
    } else if s[p] == '{' {
        seq![TokV { kind: TokKindV::LBrace, pos: p }] + spec_tokenize(s, p + 1)
    } else if s[p] == '}' {
        seq![TokV { kind: TokKindV::RBrace, pos: p }] + spec_tokenize(s, p + 1)
    } else {
        let e = spec_word_end(s, p);
        seq![TokV { kind: TokKindV::Word(s.subrange(p, e)), pos: p }] + spec_tokenize(s, e)
    }
}

#[via_fn]
proof fn spec_tokenize_dec(s: Seq<char>, p: int) {
    if 0 <= p < s.len() && spec_is_word_char(s[p]) {
        lemma_word_end_bounds(s, p);
    }
}

/// A well-formed token sequence: the end marker stands last and only last.
pub open spec fn spec_toks_wf(t: Seq<TokV>) -> bool {
    &&& t.len() >= 1
    &&& t[t.len() - 1].kind is End
    &&& forall|i: int| 0 <= i < t.len() - 1 ==> !((#[trigger] t[i]).kind is End)
}

pub proof fn lemma_tokenize_wf(s: Seq<char>, p: int)
    requires
        0 <= p,
    ensures
        spec_toks_wf(spec_tokenize(s, p)),
    decreases s.len() - p,
{
    if p >= s.len() {
    } else if spec_is_blank(s[p]) {
        lemma_tokenize_wf(s, p + 1);
    } else if spec_is_break(s[p]) || s[p] == '{' || s[p] == '}' {
        lemma_tokenize_wf(s, p + 1);
        let rest = spec_tokenize(s, p + 1);
        let whole = spec_tokenize(s, p);
        assert(whole.len() == 1 + rest.len());
        assert(whole[whole.len() - 1] == rest[rest.len() - 1]);
        assert forall|i: int| 0 <= i < whole.len() - 1 implies !((#[trigger] whole[i]).kind
            is End) by {
            if i > 0 {
                assert(whole[i] == rest[i - 1]);
            }
        }
    } else {
        lemma_word_end_bounds(s, p);
        let e = spec_word_end(s, p);
        lemma_tokenize_wf(s, e);
        let rest = spec_tokenize(s, e);
        let whole = spec_tokenize(s, p);
        assert(whole.len() == 1 + rest.len());
        assert(whole[whole.len() - 1] == rest[rest.len() - 1]);
        assert forall|i: int| 0 <= i < whole.len() - 1 implies !((#[trigger] whole[i]).kind
            is End) by {
            if i > 0 {
                assert(whole[i] == rest[i - 1]);
            }
        }
    }
}

fn char_class(c: char) -> (r: u8)
    ensures
        r == 0 <==> spec_is_blank(c),
        r == 1 <==> spec_is_break(c),
        r == 2 <==> c == '{',
        r == 3 <==> c == '}',
        r == 4 <==> spec_is_word_char(c),
{
    if c == ' ' || c == '\t' {
        0
    } else if c == '\n' || c == '\r' {
        1
    } else if c == '{' {
        2
    } else if c == '}' {
        3
    } else {
        4
    }
}

/// Splits the source into its tokens.
fn tokenize(s: &str) -> (r: Vec<Tok>)
    ensures
        spec_tok_views(r@) == spec_tokenize(s@, 0),
{
    let len = s.unicode_len();
    let mut toks: Vec<Tok> = Vec::new();
    let mut p: usize = 0;
    while p < len
        invariant
            p <= len,
            len == s@.len(),
            spec_tokenize(s@, 0) == spec_tok_views(toks@) + spec_tokenize(s@, p as int),
        decreases len - p,
    {
        let ghost toks_pre = spec_tok_views(toks@);
        let c = s.get_char(p);
        let cls = char_class(c);
        if cls == 0 {
            p += 1;
        } else if cls == 1 {
            toks.push(Tok { kind: TokKind::Newline, pos: p });
            proof {
                assert(spec_tok_views(toks@) =~= toks_pre + seq![
                    TokV { kind: TokKindV::Newline, pos: p as int },
                ]);
                assert(toks_pre + (seq![TokV { kind: TokKindV::Newline, pos: p as int }]
                    + spec_tokenize(s@, p + 1)) =~= spec_tok_views(toks@) + spec_tokenize(
                    s@,
                    p + 1,
                ));
            }
            p += 1;
        } else if cls == 2 {
            toks.push(Tok { kind: TokKind::LBrace, pos: p });
            proof {
                assert(spec_tok_views(toks@) =~= toks_pre + seq![
                    TokV { kind: TokKindV::LBrace, pos: p as int },
                ]);
                assert(toks_pre + (seq![TokV { kind: TokKindV::LBrace, pos: p as int }]
                    + spec_tokenize(s@, p + 1)) =~= spec_tok_views(toks@) + spec_tokenize(
                    s@,
                    p + 1,
                ));
            }
            p += 1;
        } else if cls == 3 {
            toks.push(Tok { kind: TokKind::RBrace, pos: p });
            proof {
                assert(spec_tok_views(toks@) =~= toks_pre + seq![
                    TokV { kind: TokKindV::RBrace, pos: p as int },
                ]);
                assert(toks_pre + (seq![TokV { kind: TokKindV::RBrace, pos: p as int }]
                    + spec_tokenize(s@, p + 1)) =~= spec_tok_views(toks@) + spec_tokenize(
                    s@,
                    p + 1,
                ));
            }
            p += 1;
        } else {
            // a word: scan to its end
            let mut e: usize = p;
            while e < len && is_word_char_at(s, e)
                invariant
                    p <= e <= len,
                    len == s@.len(),
                    spec_word_end(s@, p as int) == spec_word_end(s@, e as int),
                decreases len - e,
            {
                e += 1;
            }
            proof {
                assert(spec_word_end(s@, e as int) == e as int);
            }
            let w = s.substring_char(p, e);
            toks.push(Tok { kind: TokKind::Word(w.to_owned()), pos: p });
            proof {
                assert(spec_tok_views(toks@) =~= toks_pre + seq![
                    TokV {
                        kind: TokKindV::Word(s@.subrange(p as int, e as int)),
                        pos: p as int,
                    },
                ]);
                assert(toks_pre + (seq![
                    TokV { kind: TokKindV::Word(s@.subrange(p as int, e as int)), pos: p as int },
                ] + spec_tokenize(s@, e as int)) =~= spec_tok_views(toks@) + spec_tokenize(
                    s@,
                    e as int,
                ));
            }
            p = e;
        }
    }
    let ghost toks_pre = spec_tok_views(toks@);
    toks.push(Tok { kind: TokKind::End, pos: p });
    proof {
        assert(spec_tok_views(toks@) =~= toks_pre + seq![
            TokV { kind: TokKindV::End, pos: p as int },
        ]);
        assert(spec_tokenize(s@, p as int) =~= seq![TokV { kind: TokKindV::End, pos: p as int }]);
        assert(spec_tok_views(toks@) =~= spec_tokenize(s@, 0));
    }
    toks
}

fn is_word_char_at(s: &str, i: usize) -> (r: bool)
    requires
        i < s@.len(),
    ensures
        r == spec_is_word_char(s@[i as int]),
{
    let c = s.get_char(i);
    !(c == ' ' || c == '\t' || c == '\n' || c == '\r' || c == '{' || c == '}')
}

// ------------------------------------------------------------------
// Parse errors
// ------------------------------------------------------------------
/// Why a parse failed.
#[derive(Clone, Copy, Debug, PartialEq, Eq, Structural)]
pub enum ErrKind {
    /// Something other than a block open stands at the top level.
    ExpectedBlock,
    /// A block open without its matching close.
    UnterminatedBlock,
    /// A directive keyword that is neither `output` nor `exec`.
    UnknownDirective,
    /// An output argument keyword outside the recognized set.
    UnknownOutputArg,
    /// A directive or argument keyword without its required value.
    MissingArgument,
    /// A malformed integer literal.
    BadInt,
    /// A malformed decimal literal.
    BadFloat,
}

/// A parse failure and the source position (in characters) where it was
/// detected.
#[derive(Clone, Copy, Debug, PartialEq, Eq, Structural)]
pub struct ParseError {
    pub pos: usize,
    pub kind: ErrKind,
}

// ------------------------------------------------------------------
// The grammar over tokens
// ------------------------------------------------------------------
/// The word carried by token `i`, when it is a word.
pub open spec fn sp_word_at(t: Seq<TokV>, i: int) -> Option<Seq<char>> {
    if 0 <= i < t.len() {
        match t[i].kind {
            TokKindV::Word(w) => Some(w),
            _ => None,
        }
    } else {
        None
    }
}

/// The source position of token `i`, falling back to the end marker.
pub open spec fn sp_pos(t: Seq<TokV>, i: int) -> int {
    if 0 <= i < t.len() {
        t[i].pos
    } else if t.len() > 0 {
        t[t.len() - 1].pos
    } else {
        0
    }
}

pub open spec fn sp_err(t: Seq<TokV>, i: int, kind: ErrKind) -> ParseError {
    ParseError { pos: sp_pos(t, i) as usize, kind }
}

/// Skips line breaks between directives and between blocks.
pub open spec fn sp_skip_nl(t: Seq<TokV>, i: int) -> int
    decreases t.len() - i
        when 0 <= i
{
    if i < t.len() && t[i].kind is Newline {
        sp_skip_nl(t, i + 1)
    } else {
        i
    }
}

proof fn lemma_skip_nl_bounds(t: Seq<TokV>, i: int)
    requires
        0 <= i,
    ensures
        i <= sp_skip_nl(t, i),
        i <= t.len() ==> sp_skip_nl(t, i) <= t.len(),
    decreases t.len() - i,
{
    if i < t.len() && t[i].kind is Newline {
        lemma_skip_nl_bounds(t, i + 1);
    }
}

/// Two integers joined by a separator, as in a resolution or a position;
/// each must fit a 32-bit signed integer.
pub open spec fn spec_parse_dim(w: Seq<char>, sep: char) -> Option<(int, int)> {
    let j = spec_digits_end(w, 0);
    if 0 < j && j < w.len() && w[j] == sep {
        let k = spec_digits_end(w, j + 1);
        if k == w.len() && k > j + 1 {
            match spec_dec_val(w, 0, j) {
                Option::Some(a) => match spec_dec_val(w, j + 1, k) {
                    Option::Some(b) => if a <= 0x7FFF_FFFF && b <= 0x7FFF_FFFF {
                        Some((a, b))
                    } else {
                        None
                    },
                    Option::None => None,
                },
                Option::None => None,
            }
        } else {
            None
        }
    } else {
        None
    }
}

/// The fresh profile entry an output directive starts from: the target
/// name, enabled, everything else unset.
pub open spec fn sp_output_start(name: Seq<char>) -> SavedOutputV {
    SavedOutputV { name, enabled: true, ..spec_default_output() }
}

/// The arguments of an output directive, applied left to right onto `o`
/// (so a repeated argument lets the last occurrence win); the directive
/// ends at a line break, a block close or the end of input.
pub open spec fn sp_output_args(t: Seq<TokV>, i: int, o: SavedOutputV) -> Result<
    (SavedOutputV, int),
    ParseError,
>
    decreases t.len() - i
        when 0 <= i
{
    if i >= t.len() {
        Ok((o, i))
    } else {
        match t[i].kind {
            TokKindV::Newline => Ok((o, i)),
            TokKindV::RBrace => Ok((o, i)),
            TokKindV::End => Ok((o, i)),
            TokKindV::LBrace => Err(sp_err(t, i, ErrKind::UnknownOutputArg)),
            TokKindV::Word(w) => {
                if w == "vendor"@ {
                    match sp_word_at(t, i + 1) {
                        Option::Some(v) => sp_output_args(t, i + 2, SavedOutputV { vendor: v, ..o }),
                        Option::None => Err(sp_err(t, i + 1, ErrKind::MissingArgument)),
                    }
                } else if w == "product"@ {
                    match sp_word_at(t, i + 1) {
                        Option::Some(v) => sp_output_args(
                            t,
                            i + 2,
                            SavedOutputV { product: v, ..o },
                        ),
                        Option::None => Err(sp_err(t, i + 1, ErrKind::MissingArgument)),
                    }
                } else if w == "serial"@ {
                    match sp_word_at(t, i + 1) {
                        Option::Some(v) => sp_output_args(t, i + 2, SavedOutputV { serial: v, ..o }),
                        Option::None => Err(sp_err(t, i + 1, ErrKind::MissingArgument)),
                    }
                } else if w == "disable"@ {
                    sp_output_args(t, i + 1, SavedOutputV { enabled: false, ..o })
                } else if w == "resolution"@ {
                    match sp_word_at(t, i + 1) {
                        Option::Some(v) => match spec_parse_dim(v, 'x') {
                            Option::Some((a, b)) => sp_output_args(
                                t,
                                i + 2,
                                SavedOutputV { width: a, height: b, ..o },
                            ),
                            Option::None => Err(sp_err(t, i + 1, ErrKind::BadInt)),
                        },
                        Option::None => Err(sp_err(t, i + 1, ErrKind::MissingArgument)),
                    }
                } else if w == "position"@ {
                    match sp_word_at(t, i + 1) {
                        Option::Some(v) => match spec_parse_dim(v, ',') {
                            Option::Some((a, b)) => sp_output_args(
                                t,
                                i + 2,
                                SavedOutputV { x: a, y: b, ..o },
                            ),
                            Option::None => Err(sp_err(t, i + 1, ErrKind::BadInt)),
                        },
                        Option::None => Err(sp_err(t, i + 1, ErrKind::MissingArgument)),
                    }
                } else if w == "transform"@ {
                    match sp_word_at(t, i + 1) {
                        Option::Some(v) => sp_output_args(
                            t,
                            i + 2,
                            SavedOutputV { transform: spec_transform_from_str(v), ..o },
                        ),
                        Option::None => Err(sp_err(t, i + 1, ErrKind::MissingArgument)),
                    }
                } else if w == "scale"@ {
                    match sp_word_at(t, i + 1) {
                        Option::Some(v) => match spec_parse_dec(v) {
                            Option::Some(d) => sp_output_args(
                                t,
                                i + 2,
                                SavedOutputV { scale: d, ..o },
                            ),
                            Option::None => Err(sp_err(t, i + 1, ErrKind::BadFloat)),
                        },
                        Option::None => Err(sp_err(t, i + 1, ErrKind::MissingArgument)),
                    }
                } else {
                    Err(sp_err(t, i, ErrKind::UnknownOutputArg))
                }
            },
        }
    }
}

proof fn lemma_output_args_bounds(t: Seq<TokV>, i: int, o: SavedOutputV)
    requires
        0 <= i <= t.len(),
    ensures
        match sp_output_args(t, i, o) {
            Result::Ok((o2, k)) => i <= k <= t.len(),
            Result::Err(e) => true,
        },
    decreases t.len() - i,
{
    if i >= t.len() {
    } else {
        match t[i].kind {
            TokKindV::Word(w) => {
                if w == "vendor"@ {
                    match sp_word_at(t, i + 1) {
                        Option::Some(v) => lemma_output_args_bounds(
                            t,
                            i + 2,
                            SavedOutputV { vendor: v, ..o },
                        ),
                        Option::None => {},
                    }
                } else if w == "product"@ {
                    match sp_word_at(t, i + 1) {
                        Option::Some(v) => lemma_output_args_bounds(
                            t,
                            i + 2,
                            SavedOutputV { product: v, ..o },
                        ),
                        Option::None => {},
                    }
                } else if w == "serial"@ {
                    match sp_word_at(t, i + 1) {
                        Option::Some(v) => lemma_output_args_bounds(
                            t,
                            i + 2,
                            SavedOutputV { serial: v, ..o },
                        ),
                        Option::None => {},
                    }
                } else if w == "disable"@ {
                    lemma_output_args_bounds(t, i + 1, SavedOutputV { enabled: false, ..o });
                } else if w == "resolution"@ {
                    match sp_word_at(t, i + 1) {
                        Option::Some(v) => match spec_parse_dim(v, 'x') {
                            Option::Some((a, b)) => lemma_output_args_bounds(
                                t,
                                i + 2,
                                SavedOutputV { width: a, height: b, ..o },
                            ),
                            Option::None => {},
                        },
                        Option::None => {},
                    }
                } else if w == "position"@ {
                    match sp_word_at(t, i + 1) {
                        Option::Some(v) => match spec_parse_dim(v, ',') {
                            Option::Some((a, b)) => lemma_output_args_bounds(
                                t,
                                i + 2,
                                SavedOutputV { x: a, y: b, ..o },
                            ),
                            Option::None => {},
                        },
                        Option::None => {},
                    }
                } else if w == "transform"@ {
                    match sp_word_at(t, i + 1) {
                        Option::Some(v) => lemma_output_args_bounds(
                            t,
                            i + 2,
                            SavedOutputV { transform: spec_transform_from_str(v), ..o },
                        ),
                        Option::None => {},
                    }
                } else if w == "scale"@ {
                    match sp_word_at(t, i + 1) {
                        Option::Some(v) => match spec_parse_dec(v) {
                            Option::Some(d) => lemma_output_args_bounds(
                                t,
                                i + 2,
                                SavedOutputV { scale: d, ..o },
                            ),
                            Option::None => {},
                        },
                        Option::None => {},
                    }
                } else {
                }
            },
            _ => {},
        }
    }
}

/// The words of an exec directive up to the end of its line.
pub open spec fn sp_exec_args(t: Seq<TokV>, i: int) -> (Seq<Seq<char>>, int)
    decreases t.len() - i
        when 0 <= i
{
    if i >= t.len() {
        (Seq::empty(), i)
    } else {
        match t[i].kind {
            TokKindV::Word(w) => {
                let (rest, j) = sp_exec_args(t, i + 1);
                (seq![w] + rest, j)
            },
            _ => (Seq::empty(), i),
        }
    }
}

proof fn lemma_exec_args_bounds(t: Seq<TokV>, i: int)
    requires
        0 <= i <= t.len(),
    ensures
        i <= sp_exec_args(t, i).1 <= t.len(),
    decreases t.len() - i,
{
    if i < t.len() {
        match t[i].kind {
            TokKindV::Word(w) => {
                lemma_exec_args_bounds(t, i + 1);
            },
            _ => {},
        }
    }
}

/// An empty profile.
pub open spec fn sp_empty_config() -> SavedConfigurationV {
    SavedConfigurationV { outputs: Seq::empty(), exec_cmds: Seq::empty() }
}

/// The body of a block: directives in any order and quantity until the
/// block close; outputs and hooks each keep their declaration order. An
/// end of input inside the body is an unterminated block.
pub open spec fn sp_body(t: Seq<TokV>, i: int) -> Result<(SavedConfigurationV, int), ParseError>
    decreases t.len() - i
        when 0 <= i via sp_body_dec
{
    let j = sp_skip_nl(t, i);
    if j >= t.len() {
        Err(sp_err(t, j, ErrKind::UnterminatedBlock))
    } else {
        match t[j].kind {
            TokKindV::RBrace => Ok((sp_empty_config(), j + 1)),
            TokKindV::End => Err(sp_err(t, j, ErrKind::UnterminatedBlock)),
            TokKindV::LBrace => Err(sp_err(t, j, ErrKind::UnknownDirective)),
            TokKindV::Newline => Err(sp_err(t, j, ErrKind::UnknownDirective)),
            TokKindV::Word(w) => {
                if w == "output"@ {
                    match sp_word_at(t, j + 1) {
                        Option::Some(name0) => {
                            let name = if name0 == "*"@ {
                                Seq::empty()
                            } else {
                                name0
                            };
                            match sp_output_args(t, j + 2, sp_output_start(name)) {
                                Result::Ok((o, k)) => match sp_body(t, k) {
                                    Result::Ok((c, m)) => Ok(
                                        (
                                            SavedConfigurationV {
                                                outputs: seq![o] + c.outputs,
                                                exec_cmds: c.exec_cmds,
                                            },
                                            m,
                                        ),
                                    ),
                                    Result::Err(e) => Err(e),
                                },
                                Result::Err(e) => Err(e),
                            }
                        },
                        Option::None => Err(sp_err(t, j + 1, ErrKind::MissingArgument)),
                    }
                } else if w == "exec"@ {
                    let (words, k) = sp_exec_args(t, j + 1);
                    if words.len() == 0 {
                        Err(sp_err(t, j + 1, ErrKind::MissingArgument))
                    } else {
                        match sp_body(t, k) {
                            Result::Ok((c, m)) => Ok(
                                (
                                    SavedConfigurationV {
                                        outputs: c.outputs,
                                        exec_cmds: seq![words] + c.exec_cmds,
                                    },
                                    m,
                                ),
                            ),
                            Result::Err(e) => Err(e),
                        }
                    }
                } else {
                    Err(sp_err(t, j, ErrKind::UnknownDirective))
                }
            },
        }
    }
}

#[via_fn]
proof fn sp_body_dec(t: Seq<TokV>, i: int) {
    lemma_skip_nl_bounds(t, i);
    let j = sp_skip_nl(t, i);
    if j < t.len() {
        match t[j].kind {
            TokKindV::Word(w) => {
                if w == "output"@ {
                    match sp_word_at(t, j + 1) {
                        Option::Some(name0) => {
                            let name = if name0 == "*"@ {
                                Seq::<char>::empty()
                            } else {
                                name0
                            };
                            lemma_output_args_bounds(t, j + 2, sp_output_start(name));
                        },
                        Option::None => {},
                    }
                } else if w == "exec"@ {
                    lemma_exec_args_bounds(t, j + 1);
                }
            },
            _ => {},
        }
    }
}

/// The whole document: blocks separated by arbitrary whitespace, parsed
/// until the end of input; anything else at the top level fails.
pub open spec fn sp_document(t: Seq<TokV>, i: int) -> Result<Seq<SavedConfigurationV>, ParseError>
    decreases t.len() - i
        when 0 <= i via sp_document_dec
{
    let j = sp_skip_nl(t, i);
    if j >= t.len() {
        Ok(Seq::empty())
    } else {
        match t[j].kind {
            TokKindV::End => Ok(Seq::empty()),
            TokKindV::LBrace => match sp_body(t, j + 1) {
                Result::Ok((c, k)) => match sp_document(t, k) {
                    Result::Ok(rest) => Ok(seq![c] + rest),
                    Result::Err(e) => Err(e),
                },
                Result::Err(e) => Err(e),
            },
            _ => Err(sp_err(t, j, ErrKind::ExpectedBlock)),
        }
    }
}

#[via_fn]
proof fn sp_document_dec(t: Seq<TokV>, i: int) {
    lemma_skip_nl_bounds(t, i);
    let j = sp_skip_nl(t, i);
    if j < t.len() && t[j].kind is LBrace {
        lemma_body_bounds(t, j + 1);
    }
}

proof fn lemma_body_bounds(t: Seq<TokV>, i: int)
    requires
        0 <= i <= t.len(),
    ensures
        match sp_body(t, i) {
            Result::Ok((c, k)) => i < k <= t.len(),
            Result::Err(e) => true,
        },
    decreases t.len() - i,
{
    lemma_skip_nl_bounds(t, i);
    let j = sp_skip_nl(t, i);
    if j < t.len() {
        match t[j].kind {
            TokKindV::Word(w) => {
                if w == "output"@ {
                    match sp_word_at(t, j + 1) {
                        Option::Some(name0) => {
                            let name = if name0 == "*"@ {
                                Seq::<char>::empty()
                            } else {
                                name0
                            };
                            lemma_output_args_bounds(t, j + 2, sp_output_start(name));
                            match sp_output_args(t, j + 2, sp_output_start(name)) {
                                Result::Ok((o, k)) => {
                                    lemma_body_bounds(t, k);
                                },
                                Result::Err(e) => {},
                            }
                        },
                        Option::None => {},
                    }
                } else if w == "exec"@ {
                    lemma_exec_args_bounds(t, j + 1);
                    let (words, k) = sp_exec_args(t, j + 1);
                    if words.len() > 0 {
                        lemma_body_bounds(t, k);
                    }
                }
            },
            _ => {},
        }
    }
}

/// The parse of a whole profile source.
pub open spec fn spec_parse_document(s: Seq<char>) -> Result<Seq<SavedConfigurationV>, ParseError> {
    sp_document(spec_tokenize(s, 0), 0)
}

// ------------------------------------------------------------------
// The executable parser
// ------------------------------------------------------------------
fn parse_dim(w: &str, sep: char) -> (r: Option<(i32, i32)>)
    ensures
        match r {
            Option::Some((a, b)) => spec_parse_dim(w@, sep) == Some((a as int, b as int)),
            Option::None => spec_parse_dim(w@, sep) is None,
        },
{
    let len = w.unicode_len();
    let j = crate::text::digits_end(w, 0);
    if !(0 < j && j < len) {
        return None;
    }
    if w.get_char(j) != sep {
        return None;
    }
    let k = crate::text::digits_end(w, j + 1);
    if !(k == len && k > j + 1) {
        return None;
    }
    match crate::text::dec_val_range(w, 0, j) {
        Option::None => None,
        Option::Some(a) => match crate::text::dec_val_range(w, j + 1, k) {
            Option::None => None,
            Option::Some(b) => {
                if a <= 0x7FFF_FFFFu64 && b <= 0x7FFF_FFFFu64 {
                    Some((a as i32, b as i32))
                } else {
                    None
                }
            },
        },
    }
}

fn word_at(t: &Vec<Tok>, i: usize) -> (r: Option<String>)
    ensures
        match r {
            Option::Some(w) => sp_word_at(spec_tok_views(t@), i as int) == Some(w@) && i
                < t@.len(),
            Option::None => sp_word_at(spec_tok_views(t@), i as int) is None,
        },
{
    if i < t.len() {
        match &t[i].kind {
            TokKind::Word(w) => Some(w.clone()),
            _ => None,
        }
    } else {
        None
    }
}

fn p_pos(t: &Vec<Tok>, i: usize) -> (r: usize)
    requires
        t@.len() > 0,
    ensures
        r as int == sp_pos(spec_tok_views(t@), i as int),
{
    if i < t.len() {
        t[i].pos
    } else {
        t[t.len() - 1].pos
    }
}

fn tok_is_nl(t: &Vec<Tok>, j: usize) -> (r: bool)
    requires
        j < t@.len(),
    ensures
        r == (spec_tok_views(t@)[j as int].kind is Newline),
{
    match &t[j].kind {
        TokKind::Newline => true,
        _ => false,
    }
}

fn skip_nl(t: &Vec<Tok>, i: usize) -> (r: usize)
    requires
        i <= t@.len(),
    ensures
        r as int == sp_skip_nl(spec_tok_views(t@), i as int),
        i <= r <= t@.len(),
{
    let ghost tv = spec_tok_views(t@);
    let mut j = i;
    while j < t.len() && tok_is_nl(t, j)
        invariant
            i <= j <= t@.len(),
            tv == spec_tok_views(t@),
            sp_skip_nl(tv, i as int) == sp_skip_nl(tv, j as int),
        decreases t@.len() - j,
    {
        j += 1;
    }
    j
}

fn p_output_args(t: &Vec<Tok>, i: usize, o: SavedOutput) -> (r: Result<
    (SavedOutput, usize),
    ParseError,
>)
    requires
        i <= t@.len(),
        t@.len() > 0,
    ensures
        match r {
            Result::Ok((o2, k)) => sp_output_args(spec_tok_views(t@), i as int, o@)
                == Ok::<_, ParseError>((o2@, k as int)) && k <= t@.len(),
            Result::Err(e) => sp_output_args(spec_tok_views(t@), i as int, o@) == Err::<(SavedOutputV, int), ParseError>(e),
        },
    decreases t@.len() - i,
{
    let ghost tv = spec_tok_views(t@);
    if i >= t.len() {
        return Ok((o, i));
    }
    match &t[i].kind {
        TokKind::Newline => Ok((o, i)),
        TokKind::RBrace => Ok((o, i)),
        TokKind::End => Ok((o, i)),
        TokKind::LBrace => Err(
            ParseError { pos: p_pos(t, i), kind: ErrKind::UnknownOutputArg },
        ),
        TokKind::Word(w) => {
            if str_eq(w.as_str(), "vendor") {
                match word_at(t, i + 1) {
                    Option::Some(v) => {
                        let mut o2 = o;
                        o2.vendor = v;
                        p_output_args(t, i + 2, o2)
                    },
                    Option::None => Err(
                        ParseError { pos: p_pos(t, i + 1), kind: ErrKind::MissingArgument },
                    ),
                }
            } else if str_eq(w.as_str(), "product") {
                match word_at(t, i + 1) {
                    Option::Some(v) => {
                        let mut o2 = o;
                        o2.product = v;
                        p_output_args(t, i + 2, o2)
                    },
                    Option::None => Err(
                        ParseError { pos: p_pos(t, i + 1), kind: ErrKind::MissingArgument },
                    ),
                }
            } else if str_eq(w.as_str(), "serial") {
                match word_at(t, i + 1) {
                    Option::Some(v) => {
                        let mut o2 = o;
                        o2.serial = v;
                        p_output_args(t, i + 2, o2)
                    },
                    Option::None => Err(
                        ParseError { pos: p_pos(t, i + 1), kind: ErrKind::MissingArgument },
                    ),
                }
            } else if str_eq(w.as_str(), "disable") {
                let mut o2 = o;
                o2.enabled = false;
                p_output_args(t, i + 1, o2)
            } else if str_eq(w.as_str(), "resolution") {
                match word_at(t, i + 1) {
                    Option::Some(v) => match parse_dim(v.as_str(), 'x') {
                        Option::Some((a, b)) => {
                            let mut o2 = o;
                            o2.width = a;
                            o2.height = b;
                            p_output_args(t, i + 2, o2)
                        },
                        Option::None => Err(
                            ParseError { pos: p_pos(t, i + 1), kind: ErrKind::BadInt },
                        ),
                    },
                    Option::None => Err(
                        ParseError { pos: p_pos(t, i + 1), kind: ErrKind::MissingArgument },
                    ),
                }
            } else if str_eq(w.as_str(), "position") {
                match word_at(t, i + 1) {
                    Option::Some(v) => match parse_dim(v.as_str(), ',') {
                        Option::Some((a, b)) => {
                            let mut o2 = o;
                            o2.x = a;
                            o2.y = b;
                            p_output_args(t, i + 2, o2)
                        },
                        Option::None => Err(
                            ParseError { pos: p_pos(t, i + 1), kind: ErrKind::BadInt },
                        ),
                    },
                    Option::None => Err(
                        ParseError { pos: p_pos(t, i + 1), kind: ErrKind::MissingArgument },
                    ),
                }
            } else if str_eq(w.as_str(), "transform") {
                match word_at(t, i + 1) {
                    Option::Some(v) => {
                        let mut o2 = o;
                        o2.transform = Transform::from_str(v.as_str());
                        p_output_args(t, i + 2, o2)
                    },
                    Option::None => Err(
                        ParseError { pos: p_pos(t, i + 1), kind: ErrKind::MissingArgument },
                    ),
                }
            } else if str_eq(w.as_str(), "scale") {
                match word_at(t, i + 1) {
                    Option::Some(v) => match crate::store::parse_dec(v.as_str()) {
                        Option::Some(d) => {
                            let mut o2 = o;
                            o2.scale = d;
                            p_output_args(t, i + 2, o2)
                        },
                        Option::None => Err(
                            ParseError { pos: p_pos(t, i + 1), kind: ErrKind::BadFloat },
                        ),
                    },
                    Option::None => Err(
                        ParseError { pos: p_pos(t, i + 1), kind: ErrKind::MissingArgument },
                    ),
                }
            } else {
                Err(ParseError { pos: p_pos(t, i), kind: ErrKind::UnknownOutputArg })
            }
        },
    }
}

fn p_exec_args(t: &Vec<Tok>, i: usize) -> (r: (Vec<String>, usize))
    requires
        i <= t@.len(),
    ensures
        ({
            let (ws, k) = sp_exec_args(spec_tok_views(t@), i as int);
            r.0@.map_values(|s: String| s@) == ws && r.1 as int == k && i <= r.1 <= t@.len()
        }),
    decreases t@.len() - i,
{
    if i >= t.len() {
        let empty: Vec<String> = Vec::new();
        proof {
            assert(empty@.map_values(|s: String| s@) =~= Seq::<Seq<char>>::empty());
        }
        return (empty, i);
    }
    match &t[i].kind {
        TokKind::Word(w) => {
            let word = w.clone();
            let pair = p_exec_args(t, i + 1);
            let mut rest = pair.0;
            let k = pair.1;
            let ghost rest_pre = rest@.map_values(|s: String| s@);
            rest.insert(0, word);
            proof {
                assert(rest@.map_values(|s: String| s@) =~= seq![w@] + rest_pre);
            }
            (rest, k)
        },
        _ => {
            let empty: Vec<String> = Vec::new();
            proof {
                assert(empty@.map_values(|s: String| s@) =~= Seq::<Seq<char>>::empty());
            }
            (empty, i)
        },
    }
}

fn p_body(t: &Vec<Tok>, i: usize) -> (r: Result<(SavedConfiguration, usize), ParseError>)
    requires
        i <= t@.len(),
        t@.len() > 0,
    ensures
        match r {
            Result::Ok((c, k)) => sp_body(spec_tok_views(t@), i as int) == Ok::<_, ParseError>(
                (c@, k as int),
            ) && k <= t@.len(),
            Result::Err(e) => sp_body(spec_tok_views(t@), i as int) == Err::<(SavedConfigurationV, int), ParseError>(e),
        },
    decreases t@.len() - i,
{
    let ghost tv = spec_tok_views(t@);
    let j = skip_nl(t, i);
    if j >= t.len() {
        return Err(ParseError { pos: p_pos(t, j), kind: ErrKind::UnterminatedBlock });
    }
    match &t[j].kind {
        TokKind::RBrace => {
            let c = SavedConfiguration { outputs: Vec::new(), exec_cmds: Vec::new() };
            proof {
                assert(c@.outputs =~= sp_empty_config().outputs);
                assert(c@.exec_cmds =~= sp_empty_config().exec_cmds);
            }
            Ok((c, j + 1))
        },
        TokKind::End => Err(ParseError { pos: p_pos(t, j), kind: ErrKind::UnterminatedBlock }),
        TokKind::LBrace => Err(ParseError { pos: p_pos(t, j), kind: ErrKind::UnknownDirective }),
        TokKind::Newline => Err(ParseError { pos: p_pos(t, j), kind: ErrKind::UnknownDirective }),
        TokKind::Word(w) => {
            if str_eq(w.as_str(), "output") {
                match word_at(t, j + 1) {
                    Option::Some(name0) => {
                        let name = if str_eq(name0.as_str(), "*") {
                            String::new()
                        } else {
                            name0
                        };
                        let mut o = SavedOutput::default();
                        o.name = name;
                        o.enabled = true;
                        match p_output_args(t, j + 2, o) {
                            Result::Ok((o2, k)) => {
                                proof {
                                    lemma_output_args_bounds(
                                        tv,
                                        j + 2,
                                        sp_output_args_start_of(tv, j + 1),
                                    );
                                }
                                match p_body(t, k) {
                                    Result::Ok((c, m)) => {
                                        let mut c2 = c;
                                        let ghost outs_pre = c2@.outputs;
                                        c2.outputs.insert(0, o2);
                                        proof {
                                            assert(c2@.outputs =~= seq![o2@] + outs_pre);
                                        }
                                        Ok((c2, m))
                                    },
                                    Result::Err(e) => Err(e),
                                }
                            },
                            Result::Err(e) => Err(e),
                        }
                    },
                    Option::None => Err(
                        ParseError { pos: p_pos(t, j + 1), kind: ErrKind::MissingArgument },
                    ),
                }
            } else if str_eq(w.as_str(), "exec") {
                let pair = p_exec_args(t, j + 1);
                let words = pair.0;
                let k = pair.1;
                if words.len() == 0 {
                    Err(ParseError { pos: p_pos(t, j + 1), kind: ErrKind::MissingArgument })
                } else {
                    match p_body(t, k) {
                        Result::Ok((c, m)) => {
                            let mut c2 = c;
                            let ghost cmds_pre = c2@.exec_cmds;
                            let ghost words_view = words@.map_values(|s: String| s@);
                            c2.exec_cmds.insert(0, words);
                            proof {
                                assert(c2@.exec_cmds =~= seq![words_view] + cmds_pre);
                            }
                            Ok((c2, m))
                        },
                        Result::Err(e) => Err(e),
                    }
                }
            } else {
                Err(ParseError { pos: p_pos(t, j), kind: ErrKind::UnknownDirective })
            }
        },
    }
}

/// The entry the output directive at `j` starts from, used only to apply
/// the bounds lemma at the right argument.
pub open spec fn sp_output_args_start_of(t: Seq<TokV>, i: int) -> SavedOutputV {
    match sp_word_at(t, i) {
        Option::Some(name0) => sp_output_start(
            if name0 == "*"@ {
                Seq::empty()
            } else {
                name0
            },
        ),
        Option::None => sp_output_start(Seq::empty()),
    }
}

fn p_document(t: &Vec<Tok>, i: usize) -> (r: Result<Vec<SavedConfiguration>, ParseError>)
    requires
        i <= t@.len(),
        t@.len() > 0,
    ensures
        match r {
            Result::Ok(v) => sp_document(spec_tok_views(t@), i as int) == Ok::<_, ParseError>(
                v@.map_values(|c: SavedConfiguration| c@),
            ),
            Result::Err(e) => sp_document(spec_tok_views(t@), i as int) == Err::<Seq<SavedConfigurationV>, ParseError>(e),
        },
    decreases t@.len() - i,
{
    let ghost tv = spec_tok_views(t@);
    let j = skip_nl(t, i);
    if j >= t.len() {
        let empty: Vec<SavedConfiguration> = Vec::new();
        proof {
            assert(empty@.map_values(|c: SavedConfiguration| c@) =~= Seq::<
                SavedConfigurationV,
            >::empty());
        }
        return Ok(empty);
    }
    match &t[j].kind {
        TokKind::End => {
            let empty: Vec<SavedConfiguration> = Vec::new();
            proof {
                assert(empty@.map_values(|c: SavedConfiguration| c@) =~= Seq::<
                    SavedConfigurationV,
                >::empty());
            }
            Ok(empty)
        },
        TokKind::LBrace => {
            match p_body(t, j + 1) {
                Result::Ok((c, k)) => {
                    proof {
                        lemma_body_bounds(tv, j + 1);
                    }
                    match p_document(t, k) {
                        Result::Ok(rest) => {
                            let mut rest2 = rest;
                            let ghost rest_pre = rest2@.map_values(|c: SavedConfiguration| c@);
                            rest2.insert(0, c);
                            proof {
                                assert(rest2@.map_values(|c: SavedConfiguration| c@) =~= seq![c@]
                                    + rest_pre);
                            }
                            Ok(rest2)
                        },
                        Result::Err(e) => Err(e),
                    }
                },
                Result::Err(e) => Err(e),
            }
        },
        _ => Err(ParseError { pos: p_pos(t, j), kind: ErrKind::ExpectedBlock }),
    }
}

/// The number of line breaks strictly before position `p`.
pub open spec fn spec_newlines_before(s: Seq<char>, p: int) -> int
    decreases p
        when 0 <= p
{
    if p <= 0 {
        0
    } else {
        spec_newlines_before(s, p - 1) + (if p - 1 < s.len() && s[p - 1] == '\n' {
            1int
        } else {
            0int
        })
    }
}

/// The one-based line of a source position, for diagnostics.
pub fn line_of(src: &str, pos: usize) -> (r: usize)
    requires
        src@.len() < usize::MAX,
    ensures
        r as int == 1 + spec_newlines_before(src@, pos as int),
{
    let len = src.unicode_len();
    let stop = if pos < len {
        pos
    } else {
        len
    };
    let mut count: usize = 0;
    let mut i: usize = 0;
    while i < stop
        invariant
            i <= stop <= len,
            len == src@.len(),
            stop == (if pos < len {
                pos as int
            } else {
                len as int
            }),
            count as int == spec_newlines_before(src@, i as int),
            count <= i,
        decreases stop - i,
    {
        if src.get_char(i) == '\n' {
            count += 1;
        }
        i += 1;
    }
    proof {
        lemma_newlines_stable(src@, stop as int, pos as int);
    }
    count + 1
}

proof fn lemma_newlines_stable(s: Seq<char>, a: int, b: int)
    requires
        0 <= a <= b,
        s.len() <= b ==> a == if b < s.len() {
            b
        } else {
            s.len() as int
        },
        b < s.len() ==> a == b,
    ensures
        spec_newlines_before(s, a) == spec_newlines_before(s, b),
    decreases b - a,
{
    if a < b {
        lemma_newlines_stable(s, a, b - 1);
    }
}

/// Reads profiles written in the directive language. Opening the file is
/// the caller's affair; parsing its text is the verified part.
pub struct KanshiStore;

impl KanshiStore {
    /// Parses a whole profile source: the ordered profiles on success, a
    /// position-bearing error otherwise — never a partial result.
    pub fn parse_configurations(src: &str) -> (r: Result<Vec<SavedConfiguration>, ParseError>)
        ensures
            match r {
                Result::Ok(v) => spec_parse_document(src@) == Ok::<_, ParseError>(
                    v@.map_values(|c: SavedConfiguration| c@),
                ),
                Result::Err(e) => spec_parse_document(src@) == Err::<Seq<SavedConfigurationV>, ParseError>(e),
            },
    {
        let toks = tokenize(src);
        proof {
            lemma_tokenize_wf(src@, 0);
            assert(spec_tok_views(toks@).len() == toks@.len());
        }
        p_document(&toks, 0)
    }
}

} // verus!
