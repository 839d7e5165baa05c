//! The reference grammar: a mathematical reading of the surface syntax as
//! spec functions over character sequences. Each function gives the one
//! result the grammar assigns to a buffer position — the parsed value and
//! the position after it, or the failure position and the expected token.
//! The executable parser's contracts state that it returns exactly these
//! results.

use vstd::prelude::*;
use crate::ast::{Argument, ArraySize, MethodOrTypedef, VStruct, VStructOrEnum, VType, VTypeExt};
use crate::names::{is_name_char, valid_name};

verus! {

/// A syntax failure: the offset where parsing stops and the expected
/// token.
pub struct GErr {
    pub at: int,
    pub expected: Seq<char>,
}

/// A base type as the grammar reads it.
pub enum GType {
    Bool,
    Int8,
    UInt8,
    Int16,
    UInt16,
    Int32,
    UInt32,
    Int64,
    UInt64,
    Float32,
    Float64,
    VString,
    Typename(Seq<char>),
    Struct(GStruct),
    Enum(Seq<Seq<char>>),
}

/// A type with its modifiers.
pub struct GTypeExt {
    pub vtype: GType,
    pub nullable: bool,
    pub isarray: Option<ArraySize>,
}

/// A field with its alternatives.
pub struct GArg {
    pub name: Seq<char>,
    pub vtypes: Seq<GTypeExt>,
}

/// A struct body.
pub struct GStruct {
    pub elts: Seq<GArg>,
}

/// A typedef body.
pub enum GElt {
    Struct(GStruct),
    Enum(Seq<Seq<char>>),
}

/// One member of an interface block.
pub enum GMember {
    Typedef { name: Seq<char>, elt: GElt },
    Method { name: Seq<char>, input: GStruct, output: GStruct, stream: bool },
}

/// One interface block: its name and its members in declaration order.
pub struct GBlock {
    pub name: Seq<char>,
    pub members: Seq<GMember>,
}

/// The failure marking a recursion step that consumed no input. No run of
/// the grammar returns it — every step below consumes at least one
/// character, as the executable parser's contracts show — but it bounds
/// the recursion visibly.
pub open spec fn g_stuck(p: int) -> GErr {
    GErr { at: p, expected: ""@ }
}

// --- the views of the executable syntax tree under the grammar ---

pub open spec fn g_of_tags(v: Seq<String>) -> Seq<Seq<char>>
    decreases v.len(),
{
    if v.len() == 0 {
        Seq::empty()
    } else {
        g_of_tags(v.drop_last()).push(v.last()@)
    }
}

pub open spec fn g_of_vtype(t: VType) -> GType
    decreases t,
{
    match t {
        VType::Bool => GType::Bool,
        VType::Int8 => GType::Int8,
        VType::UInt8 => GType::UInt8,
        VType::Int16 => GType::Int16,
        VType::UInt16 => GType::UInt16,
        VType::Int32 => GType::Int32,
        VType::UInt32 => GType::UInt32,
        VType::Int64 => GType::Int64,
        VType::UInt64 => GType::UInt64,
        VType::Float32 => GType::Float32,
        VType::Float64 => GType::Float64,
        VType::VString => GType::VString,
        VType::VTypename(s) => GType::Typename(s@),
        VType::VStruct(b) => GType::Struct(g_of_vstruct(*b)),
        VType::VEnum(tags) => GType::Enum(g_of_tags(tags@)),
    }
}

pub open spec fn g_of_ext(t: VTypeExt) -> GTypeExt
    decreases t,
{
    GTypeExt { vtype: g_of_vtype(t.vtype), nullable: t.nullable, isarray: t.isarray }
}

pub open spec fn g_of_exts(v: Seq<VTypeExt>) -> Seq<GTypeExt>
    decreases v,
{
    if v.len() == 0 {
        Seq::empty()
    } else {
        g_of_exts(v.drop_last()).push(g_of_ext(v.last()))
    }
}

pub open spec fn g_of_arg(a: Argument) -> GArg
    decreases a,
{
    GArg { name: a.name@, vtypes: g_of_exts(a.vtypes@) }
}

pub open spec fn g_of_args(v: Seq<Argument>) -> Seq<GArg>
    decreases v,
{
    if v.len() == 0 {
        Seq::empty()
    } else {
        g_of_args(v.drop_last()).push(g_of_arg(v.last()))
    }
}

pub open spec fn g_of_vstruct(s: VStruct) -> GStruct
    decreases s,
{
    GStruct { elts: g_of_args(s.elts@) }
}

pub open spec fn g_of_elt(e: VStructOrEnum) -> GElt {
    match e {
        VStructOrEnum::VStruct(s) => GElt::Struct(g_of_vstruct(s)),
        VStructOrEnum::VEnum(tags) => GElt::Enum(g_of_tags(tags@)),
    }
}

pub open spec fn g_of_member(m: MethodOrTypedef) -> GMember {
    match m {
        MethodOrTypedef::Typedef(t) => GMember::Typedef { name: t.name@, elt: g_of_elt(t.elt) },
        MethodOrTypedef::Method(x) => GMember::Method {
            name: x.name@,
            input: g_of_vstruct(x.input),
            output: g_of_vstruct(x.output),
            stream: x.stream,
        },
    }
}

pub open spec fn g_of_members(v: Seq<MethodOrTypedef>) -> Seq<GMember>
    decreases v.len(),
{
    if v.len() == 0 {
        Seq::empty()
    } else {
        g_of_members(v.drop_last()).push(g_of_member(v.last()))
    }
}

// --- character classes ---

pub open spec fn g_wsc(c: char) -> bool {
    c == ' ' || c == '\t' || c == '\n' || c == '\r'
}

pub open spec fn g_digit(c: char) -> bool {
    48 <= c as int && c as int <= 57
}

pub open spec fn g_ident_start(c: char) -> bool {
    (97 <= c as int && c as int <= 122) || (65 <= c as int && c as int <= 90) || c as int == 95
}

pub open spec fn g_ident_char(c: char) -> bool {
    g_ident_start(c) || g_digit(c)
}

// --- whitespace, comments, token scans ---

/// The position of the `*/` that closes a comment scanned from `q`.
pub open spec fn g_comment_end(s: Seq<char>, q: int) -> Result<int, GErr>
    decreases s.len() - q,
{
    if s.len() - q < 2 {
        Err(GErr { at: s.len() as int, expected: "*/"@ })
    } else if s[q] == '*' && s[q + 1] == '/' {
        Ok(q)
    } else {
        g_comment_end(s, q + 1)
    }
}

/// The position after the whitespace and comments starting at `p`.
pub open spec fn g_ws(s: Seq<char>, p: int) -> Result<int, GErr>
    decreases s.len() - p,
{
    if p < 0 || p >= s.len() {
        Ok(p)
    } else if g_wsc(s[p]) {
        g_ws(s, p + 1)
    } else if s[p] == '/' && p + 1 < s.len() && s[p + 1] == '*' {
        match g_comment_end(s, p + 2) {
            Err(e) => Err(e),
            Ok(q) => if q < p || q + 2 > s.len() {
                Err(g_stuck(q))
            } else {
                g_ws(s, q + 2)
            },
        }
    } else {
        Ok(p)
    }
}

pub open spec fn g_ident_rest(s: Seq<char>, e: int) -> int
    decreases s.len() - e,
{
    if 0 <= e < s.len() && g_ident_char(s[e]) {
        g_ident_rest(s, e + 1)
    } else {
        e
    }
}

/// The end of the identifier starting at `pos`; `pos` itself when none
/// starts there.
pub open spec fn g_ident_end(s: Seq<char>, pos: int) -> int {
    if 0 <= pos < s.len() && g_ident_start(s[pos]) {
        g_ident_rest(s, pos + 1)
    } else {
        pos
    }
}

/// The end of the run of interface-name characters starting at `pos`.
pub open spec fn g_name_end(s: Seq<char>, pos: int) -> int
    decreases s.len() - pos,
{
    if 0 <= pos < s.len() && is_name_char(s[pos]) {
        g_name_end(s, pos + 1)
    } else {
        pos
    }
}

// --- the array suffix ---

pub open spec fn g_array_rec(s: Seq<char>, p: int, val: nat, any: bool) -> Result<
    (ArraySize, int),
    GErr,
>
    decreases s.len() - p,
{
    if 0 <= p < s.len() && g_digit(s[p]) {
        let d = (s[p] as int - 48) as nat;
        if val > ((u64::MAX - d) as nat) / 10 {
            Err(GErr { at: p, expected: "]"@ })
        } else {
            g_array_rec(s, p + 1, val * 10 + d, true)
        }
    } else if 0 <= p < s.len() && s[p] == ']' {
        if any {
            Ok((ArraySize::Fixed(val as u64), p + 1))
        } else {
            Ok((ArraySize::Unbounded, p + 1))
        }
    } else {
        Err(GErr { at: p, expected: "[0-9]"@ })
    }
}

/// The array suffix scanned from just after its `[`: a digit run, then
/// `]`; anything else — whitespace included — fails at its own position.
pub open spec fn g_array(s: Seq<char>, pos: int) -> Result<(ArraySize, int), GErr> {
    g_array_rec(s, pos, 0, false)
}

/// The base type an identifier denotes: a scalar keyword or a type name.
pub open spec fn g_keyword(w: Seq<char>) -> GType {
    if w == "bool"@ {
        GType::Bool
    } else if w == "int8"@ {
        GType::Int8
    } else if w == "uint8"@ {
        GType::UInt8
    } else if w == "int16"@ {
        GType::Int16
    } else if w == "uint16"@ {
        GType::UInt16
    } else if w == "int32"@ {
        GType::Int32
    } else if w == "uint32"@ {
        GType::UInt32
    } else if w == "int64"@ {
        GType::Int64
    } else if w == "uint64"@ {
        GType::UInt64
    } else if w == "float32"@ {
        GType::Float32
    } else if w == "float64"@ {
        GType::Float64
    } else if w == "string"@ {
        GType::VString
    } else {
        GType::Typename(w)
    }
}

/// The modifiers after a base type: an optional array suffix, then an
/// optional `?`, with no whitespace between the parts.
pub open spec fn g_mods(s: Seq<char>, p: int, gt: GType) -> Result<(GTypeExt, int), GErr> {
    if 0 <= p < s.len() && s[p] == '[' {
        match g_array(s, p + 1) {
            Err(e) => Err(e),
            Ok((a, p2)) => if 0 <= p2 < s.len() && s[p2] == '?' {
                Ok((GTypeExt { vtype: gt, nullable: true, isarray: Some(a) }, p2 + 1))
            } else {
                Ok((GTypeExt { vtype: gt, nullable: false, isarray: Some(a) }, p2))
            },
        }
    } else if 0 <= p < s.len() && s[p] == '?' {
        Ok((GTypeExt { vtype: gt, nullable: true, isarray: None }, p + 1))
    } else {
        Ok((GTypeExt { vtype: gt, nullable: false, isarray: None }, p))
    }
}

// --- the recursive type grammar ---

/// A parenthesized body: an empty struct, a struct of fields, or an enum
/// tag list — an identifier followed by `:` opens a struct, by `,` or `)`
/// an enum.
pub open spec fn g_struct_or_enum(s: Seq<char>, pos: int) -> Result<(GElt, int), GErr>
    decreases s.len() - pos, 0int,
{
    if !(0 <= pos < s.len() && s[pos] == '(') {
        Err(GErr { at: pos, expected: "("@ })
    } else {
        match g_ws(s, pos + 1) {
            Err(e) => Err(e),
            Ok(p) => if 0 <= p < s.len() && s[p] == ')' {
                Ok((GElt::Struct(GStruct { elts: Seq::empty() }), p + 1))
            } else {
                let e = g_ident_end(s, p);
                if e == p {
                    Err(GErr { at: p, expected: ")"@ })
                } else {
                    let first = s.subrange(p, e);
                    match g_ws(s, e) {
                        Err(x) => Err(x),
                        Ok(p2) => if 0 <= p2 < s.len() && s[p2] == ':' {
                            if !(p2 > pos) {
                                Err(g_stuck(p2))
                            } else {
                                match g_fields(s, p2, Seq::empty(), first) {
                                    Err(x) => Err(x),
                                    Ok((gs, p3)) => Ok((GElt::Struct(gs), p3)),
                                }
                            }
                        } else if 0 <= p2 < s.len() && (s[p2] == ',' || s[p2] == ')') {
                            if !(p2 > pos) {
                                Err(g_stuck(p2))
                            } else {
                                g_tags(s, p2, seq![first])
                            }
                        } else {
                            Err(GErr { at: p2, expected: ":"@ })
                        },
                    }
                }
            },
        }
    }
}

/// One type use: a base type, then its modifiers.
pub open spec fn g_type_use(s: Seq<char>, pos: int) -> Result<(GTypeExt, int), GErr>
    decreases s.len() - pos, 1int,
{
    if 0 <= pos < s.len() && s[pos] == '(' {
        match g_struct_or_enum(s, pos) {
            Err(e) => Err(e),
            Ok((ge, p2)) => {
                let gt = match ge {
                    GElt::Struct(gs) => GType::Struct(gs),
                    GElt::Enum(ts) => GType::Enum(ts),
                };
                g_mods(s, p2, gt)
            },
        }
    } else {
        let e = g_ident_end(s, pos);
        if e == pos {
            Err(GErr { at: pos, expected: "type"@ })
        } else {
            g_mods(s, e, g_keyword(s.subrange(pos, e)))
        }
    }
}

/// The remaining alternatives of a field after the ones in `acc`: a `|`
/// continues the union, anything else closes it at the position after the
/// surrounding whitespace.
pub open spec fn g_alts(s: Seq<char>, q: int, acc: Seq<GTypeExt>) -> Result<
    (Seq<GTypeExt>, int),
    GErr,
>
    decreases s.len() - q, 2int,
{
    match g_ws(s, q) {
        Err(e) => Err(e),
        Ok(w) => if 0 <= w < s.len() && s[w] == '|' {
            match g_ws(s, w + 1) {
                Err(e) => Err(e),
                Ok(w2) => if !(w2 > q && w2 <= s.len()) {
                    Err(g_stuck(w2))
                } else {
                    match g_type_use(s, w2) {
                        Err(e) => Err(e),
                        Ok((t, q3)) => if !(q3 > q && q3 <= s.len()) {
                            Err(g_stuck(q3))
                        } else {
                            g_alts(s, q3, acc.push(t))
                        },
                    }
                },
            }
        } else {
            Ok((acc, w))
        },
    }
}

/// The fields of a struct from a position holding the `:` of the next
/// field, whose name is `fname`; the fields already read are in `acc`.
pub open spec fn g_fields(s: Seq<char>, p: int, acc: Seq<GArg>, fname: Seq<char>) -> Result<
    (GStruct, int),
    GErr,
>
    decreases s.len() - p, 3int,
{
    match g_ws(s, p + 1) {
        Err(e) => Err(e),
        Ok(q0) => if !(q0 > p && q0 <= s.len()) {
            Err(g_stuck(q0))
        } else {
            match g_type_use(s, q0) {
                Err(e) => Err(e),
                Ok((t0, q1)) => if !(q1 > p && q1 <= s.len()) {
                    Err(g_stuck(q1))
                } else {
                    match g_alts(s, q1, seq![t0]) {
                        Err(e) => Err(e),
                        Ok((alts, q)) => {
                            let acc2 = acc.push(GArg { name: fname, vtypes: alts });
                            if 0 <= q < s.len() && s[q] == ',' {
                                match g_ws(s, q + 1) {
                                    Err(e) => Err(e),
                                    Ok(q2) => {
                                        let e2 = g_ident_end(s, q2);
                                        if e2 == q2 {
                                            Err(GErr { at: q2, expected: ")"@ })
                                        } else {
                                            match g_ws(s, e2) {
                                                Err(e) => Err(e),
                                                Ok(q3) => if !(0 <= q3 < s.len() && s[q3]
                                                    == ':') {
                                                    Err(GErr { at: q3, expected: ":"@ })
                                                } else if !(q3 > p) {
                                                    Err(g_stuck(q3))
                                                } else {
                                                    g_fields(s, q3, acc2, s.subrange(q2, e2))
                                                },
                                            }
                                        }
                                    },
                                }
                            } else if 0 <= q < s.len() && s[q] == ')' {
                                Ok((GStruct { elts: acc2 }, q + 1))
                            } else {
                                Err(GErr { at: q, expected: ")"@ })
                            }
                        },
                    }
                },
            }
        },
    }
}

/// The tags of an enum from a position holding `,` or `)`; the tags
/// already read are in `acc`.
pub open spec fn g_tags(s: Seq<char>, p: int, acc: Seq<Seq<char>>) -> Result<(GElt, int), GErr>
    decreases s.len() - p, 0int,
{
    if !(0 <= p < s.len()) {
        Err(GErr { at: p, expected: ")"@ })
    } else if s[p] == ')' {
        Ok((GElt::Enum(acc), p + 1))
    } else if s[p] != ',' {
        Err(GErr { at: p, expected: ")"@ })
    } else {
        match g_ws(s, p + 1) {
            Err(e) => Err(e),
            Ok(q) => {
                let e2 = g_ident_end(s, q);
                if e2 == q {
                    Err(GErr { at: q, expected: ")"@ })
                } else {
                    match g_ws(s, e2) {
                        Err(e) => Err(e),
                        Ok(q2) => if !(q2 < s.len()) {
                            Err(GErr { at: q2, expected: ")"@ })
                        } else if !(q2 > p) {
                            Err(g_stuck(q2))
                        } else {
                            g_tags(s, q2, acc.push(s.subrange(q, e2)))
                        },
                    }
                }
            },
        }
    }
}

// --- members, blocks, the document ---

/// One member: `type` opens a typedef; any other identifier opens a
/// method, whose bodies must be structs and whose call operator `->` or
/// `=>` fixes the streaming flag.
pub open spec fn g_member(s: Seq<char>, pos: int) -> Result<(GMember, int), GErr> {
    let e = g_ident_end(s, pos);
    if e == pos {
        Err(GErr { at: pos, expected: "}"@ })
    } else {
        let w = s.subrange(pos, e);
        if w == "type"@ {
            match g_ws(s, e) {
                Err(x) => Err(x),
                Ok(p) => {
                    let e2 = g_ident_end(s, p);
                    if e2 == p {
                        Err(GErr { at: p, expected: "identifier"@ })
                    } else {
                        match g_ws(s, e2) {
                            Err(x) => Err(x),
                            Ok(p2) => match g_struct_or_enum(s, p2) {
                                Err(x) => Err(x),
                                Ok((body, p3)) => Ok((
                                    GMember::Typedef { name: s.subrange(p, e2), elt: body },
                                    p3,
                                )),
                            },
                        }
                    }
                },
            }
        } else {
            match g_ws(s, e) {
                Err(x) => Err(x),
                Ok(p) => match g_struct_or_enum(s, p) {
                    Err(x) => Err(x),
                    Ok((inp, p2)) => match inp {
                        GElt::Enum(_) => Err(GErr { at: p, expected: ":"@ }),
                        GElt::Struct(input) => match g_ws(s, p2) {
                            Err(x) => Err(x),
                            Ok(p3) => if !(p3 < s.len()) {
                                Err(GErr { at: p3, expected: "->"@ })
                            } else if s[p3] != '-' && s[p3] != '=' {
                                Err(GErr { at: p3, expected: "->"@ })
                            } else if !(p3 + 1 < s.len() && s[p3 + 1] == '>') {
                                Err(GErr { at: p3, expected: "->"@ })
                            } else {
                                match g_ws(s, p3 + 2) {
                                    Err(x) => Err(x),
                                    Ok(p4) => match g_struct_or_enum(s, p4) {
                                        Err(x) => Err(x),
                                        Ok((outp, p5)) => match outp {
                                            GElt::Enum(_) => Err(
                                                GErr { at: p4, expected: ":"@ },
                                            ),
                                            GElt::Struct(output) => Ok((
                                                GMember::Method {
                                                    name: w,
                                                    input,
                                                    output,
                                                    stream: s[p3] == '=',
                                                },
                                                p5,
                                            )),
                                        },
                                    },
                                }
                            },
                        },
                    },
                },
            }
        }
    }
}

/// The members of a block up to its closing `}`; a member may be closed
/// by an optional `;`.
pub open spec fn g_block_members(s: Seq<char>, p: int, acc: Seq<GMember>) -> Result<
    (Seq<GMember>, int),
    GErr,
>
    decreases s.len() - p,
{
    if 0 <= p < s.len() && s[p] == '}' {
        Ok((acc, p + 1))
    } else if p >= s.len() {
        Err(GErr { at: p, expected: "}"@ })
    } else {
        match g_member(s, p) {
            Err(e) => Err(e),
            Ok((m, p2)) => match g_ws(s, p2) {
                Err(e) => Err(e),
                Ok(p3) => {
                    let after = if 0 <= p3 < s.len() && s[p3] == ';' {
                        g_ws(s, p3 + 1)
                    } else {
                        Ok(p3)
                    };
                    match after {
                        Err(e) => Err(e),
                        Ok(p4) => if !(p4 > p && p4 <= s.len()) {
                            Err(g_stuck(p4))
                        } else {
                            g_block_members(s, p4, acc.push(m))
                        },
                    }
                },
            },
        }
    }
}

/// One interface block: a valid dotted name, `{`, members, `}`. A
/// malformed name is a syntax error at the name's start.
pub open spec fn g_block(s: Seq<char>, pos: int) -> Result<(GBlock, int), GErr> {
    let e = g_name_end(s, pos);
    let name = s.subrange(pos, e);
    if !valid_name(name) {
        Err(GErr { at: pos, expected: "interface name"@ })
    } else {
        match g_ws(s, e) {
            Err(x) => Err(x),
            Ok(p) => if !(0 <= p < s.len() && s[p] == '{') {
                Err(GErr { at: p, expected: "{"@ })
            } else {
                match g_ws(s, p + 1) {
                    Err(x) => Err(x),
                    Ok(p2) => match g_block_members(s, p2, Seq::empty()) {
                        Err(x) => Err(x),
                        Ok((members, p3)) => Ok((GBlock { name, members }, p3)),
                    },
                }
            },
        }
    }
}

pub open spec fn g_blocks(s: Seq<char>, p: int, acc: Seq<GBlock>) -> Result<Seq<GBlock>, GErr>
    decreases s.len() - p,
{
    if p >= s.len() {
        Ok(acc)
    } else {
        match g_block(s, p) {
            Err(e) => Err(e),
            Ok((b, p2)) => match g_ws(s, p2) {
                Err(e) => Err(e),
                Ok(p3) => if !(p3 > p && p3 <= s.len()) {
                    Err(g_stuck(p3))
                } else {
                    g_blocks(s, p3, acc.push(b))
                },
            },
        }
    }
}

/// The whole buffer: surrounding whitespace and comments, then zero or
/// more interface blocks.
pub open spec fn g_document(s: Seq<char>) -> Result<Seq<GBlock>, GErr> {
    match g_ws(s, 0) {
        Err(e) => Err(e),
        Ok(p) => g_blocks(s, p, Seq::empty()),
    }
}

} // verus!
