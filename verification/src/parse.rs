//! The recursive-descent parser for the surface syntax: interface blocks
//! holding typedefs and methods, with comments allowed between tokens, and
//! syntax errors reported with a 1-based line and column and the token
//! expected at that point.

use vstd::prelude::*;
use crate::assemble::{assemble_errs, assemble_ms, assemble_tds, doc_errs, doc_map, no_method_msg_s};
use crate::keyed::key_map;
use crate::ast::{Argument, ArraySize, Interface, Method, MethodOrTypedef, Typedef, VStruct, VStructOrEnum,
    VType, VTypeExt, Varlink, doc_wf, iface_wf};
use crate::grammar::{GBlock, GElt, GErr, GMember, g_array, g_array_rec, g_block, g_block_members,
    g_blocks, g_comment_end, g_digit, g_document, g_ident_end, g_ident_rest, g_ident_start,
    g_keyword, g_member, g_name_end, g_of_arg, g_of_args, g_of_elt, g_of_ext, g_of_exts, g_of_member, g_of_members,
    g_of_tags, g_of_vstruct, g_of_vtype, g_struct_or_enum, g_tags, g_type_use, g_alts, g_fields,
    g_mods, g_ws, g_wsc};
use crate::names::{check_name, is_name_char, valid_name};
use crate::text::{dec_str, join_nl, sorted_strs, str_eq, strs, u64_dec};

verus! {

/// A syntax failure: the character offset where parsing stopped, and the
/// token expected there.
pub struct PErr {
    pub at: usize,
    pub expected: &'static str,
}

/// The failure as the reference grammar states it.
pub open spec fn g_err_of(e: PErr) -> GErr {
    GErr { at: e.at as int, expected: e.expected@ }
}

/// The 1-based line number of a character offset.
pub open spec fn line_of(s: Seq<char>, pos: int) -> nat
    decreases pos,
{
    if pos <= 0 {
        1
    } else {
        line_of(s, pos - 1) + if s[pos - 1] == '\n' {
            1nat
        } else {
            0nat
        }
    }
}

/// The 1-based column of a character offset within its line.
pub open spec fn col_of(s: Seq<char>, pos: int) -> nat
    decreases pos,
{
    if pos <= 0 {
        1
    } else if s[pos - 1] == '\n' {
        1
    } else {
        col_of(s, pos - 1) + 1
    }
}

/// The text of a syntax-error report.
pub open spec fn err_msg_s(line: nat, col: nat, tok: Seq<char>) -> Seq<char> {
    "error at "@ + dec_str(line) + ":"@ + dec_str(col) + ": expected `"@ + tok + "`"@
}

fn line_col(s: &str, pos: usize) -> (r: (usize, usize))
    requires
        pos <= s@.len(),
        s@.len() < usize::MAX,
    ensures
        r.0 == line_of(s@, pos as int),
        r.1 == col_of(s@, pos as int),
{
    let mut line: usize = 1;
    let mut col: usize = 1;
    let mut j: usize = 0;
    while j < pos
        invariant
            j <= pos <= s@.len() < usize::MAX,
            line == line_of(s@, j as int),
            col == col_of(s@, j as int),
            line <= j + 1,
            col <= j + 1,
        decreases pos - j,
    {
        if s.get_char(j) == '\n' {
            line = line + 1;
            col = 1;
        } else {
            col = col + 1;
        }
        j = j + 1;
    }
    (line, col)
}

fn err_msg(s: &str, at: usize, expected: &str) -> (r: String)
    requires
        at <= s@.len(),
        s@.len() < usize::MAX,
    ensures
        r@ == err_msg_s(line_of(s@, at as int), col_of(s@, at as int), expected@),
{
    let (line, col) = line_col(s, at);
    let mut r = String::from_str("error at ");
    let ld = u64_dec(line as u64);
    r.append(ld.as_str());
    r.append(":");
    let cd = u64_dec(col as u64);
    r.append(cd.as_str());
    r.append(": expected `");
    r.append(expected);
    r.append("`");
    proof {
        assert(r@ =~= err_msg_s(line_of(s@, at as int), col_of(s@, at as int), expected@));
    }
    r
}

fn is_ws(c: char) -> (r: bool)
    ensures
        r == g_wsc(c),
{
    c == ' ' || c == '\t' || c == '\n' || c == '\r'
}

/// Skips whitespace and `/* ... */` comments; an unterminated comment is a
/// syntax error.
fn skip_ws(s: &str, pos: usize) -> (r: Result<usize, PErr>)
    requires
        pos <= s@.len(),
    ensures
        match r {
            Ok(p) => pos <= p <= s@.len() && g_ws(s@, pos as int) == Ok::<int, GErr>(p as int),
            Err(e) => e.at <= s@.len() && g_ws(s@, pos as int) == Err::<int, GErr>(g_err_of(e)),
        },
{
    let n = s.unicode_len();
    let mut p = pos;
    loop
        invariant
            pos <= p <= n,
            n == s@.len(),
            g_ws(s@, pos as int) == g_ws(s@, p as int),
        ensures
            pos <= p <= n,
            g_ws(s@, pos as int) == g_ws(s@, p as int),
            p == n || (!g_wsc(s@[p as int]) && !(s@[p as int] == '/' && p + 1 < n && s@[p as int
                + 1] == '*')),
        decreases n - p,
    {
        if p == n {
            break;
        }
        let c = s.get_char(p);
        if is_ws(c) {
            p = p + 1;
        } else if c == '/' && p + 1 < n && s.get_char(p + 1) == '*' {
            let mut q = p + 2;
            loop
                invariant
                    p + 2 <= q <= n,
                    n == s@.len(),
                    pos <= p < n,
                    g_ws(s@, pos as int) == g_ws(s@, p as int),
                    !g_wsc(s@[p as int]),
                    s@[p as int] == '/',
                    s@[p as int + 1] == '*',
                    g_comment_end(s@, p + 2) == g_comment_end(s@, q as int),
                ensures
                    p + 2 <= q <= n,
                    q + 2 <= n,
                    g_comment_end(s@, p + 2) == Ok::<int, GErr>(q as int),
                decreases n - q,
            {
                if n - q < 2 {
                    proof {
                        assert(g_comment_end(s@, q as int) == Err::<int, GErr>(
                            GErr { at: s@.len() as int, expected: "*/"@ },
                        ));
                    }
                    return Err(PErr { at: n, expected: "*/" });
                }
                if s.get_char(q) == '*' && s.get_char(q + 1) == '/' {
                    break;
                }
                q = q + 1;
            }
            p = q + 2;
        } else {
            break;
        }
    }
    proof {
        assert(g_ws(s@, p as int) == Ok::<int, GErr>(p as int));
    }
    Ok(p)
}

/// Scans an identifier (a letter or underscore, then letters, digits and
/// underscores) and returns the offset just past it, which is the start
/// offset when no identifier begins there.
fn scan_ident(s: &str, pos: usize) -> (end: usize)
    requires
        pos <= s@.len(),
    ensures
        pos <= end <= s@.len(),
        end == g_ident_end(s@, pos as int),
{
    let n = s.unicode_len();
    if pos == n {
        return pos;
    }
    let u = s.get_char(pos) as u32;
    if !((97 <= u && u <= 122) || (65 <= u && u <= 90) || u == 95) {
        proof {
            assert(!g_ident_start(s@[pos as int]));
        }
        return pos;
    }
    let mut e = pos + 1;
    loop
        invariant
            pos < e <= n,
            n == s@.len(),
            g_ident_start(s@[pos as int]),
            g_ident_rest(s@, e as int) == g_ident_rest(s@, pos + 1),
        ensures
            pos < e <= n,
            g_ident_rest(s@, pos + 1) == e,
        decreases n - e,
    {
        if e == n {
            break;
        }
        let u = s.get_char(e) as u32;
        if (97 <= u && u <= 122) || (65 <= u && u <= 90) || (48 <= u && u <= 57) || u == 95 {
            e = e + 1;
        } else {
            proof {
                assert(!crate::grammar::g_ident_char(s@[e as int]));
                assert(g_ident_rest(s@, e as int) == e as int);
            }
            break;
        }
    }
    e
}

/// Scans the longest run of interface-name characters.
fn scan_name(s: &str, pos: usize) -> (end: usize)
    requires
        pos <= s@.len(),
    ensures
        pos <= end <= s@.len(),
        end == g_name_end(s@, pos as int),
{
    let n = s.unicode_len();
    let mut e = pos;
    loop
        invariant
            pos <= e <= n,
            n == s@.len(),
            g_name_end(s@, e as int) == g_name_end(s@, pos as int),
        ensures
            pos <= e <= n,
            g_name_end(s@, pos as int) == e,
        decreases n - e,
    {
        if e == n {
            break;
        }
        let u = s.get_char(e) as u32;
        if (97 <= u && u <= 122) || (48 <= u && u <= 57) || u == 45 || u == 46 {
            proof {
                assert(is_name_char(s@[e as int]));
            }
            e = e + 1;
        } else {
            proof {
                assert(!is_name_char(s@[e as int]));
                assert(g_name_end(s@, e as int) == e as int);
            }
            break;
        }
    }
    e
}

/// Parses an array suffix from just after its `[`: a digit run, then `]`.
/// Whitespace inside the brackets is a syntax error.
fn parse_array(s: &str, pos: usize) -> (r: Result<(ArraySize, usize), PErr>)
    requires
        pos <= s@.len(),
    ensures
        match r {
            Ok((a, p)) => pos <= p <= s@.len() && g_array(s@, pos as int) == Ok::<
                (ArraySize, int),
                GErr,
            >((a, p as int)),
            Err(e) => e.at <= s@.len() && g_array(s@, pos as int) == Err::<
                (ArraySize, int),
                GErr,
            >(g_err_of(e)),
        },
{
    let n = s.unicode_len();
    let mut p = pos;
    let mut val: u64 = 0;
    let mut any = false;
    loop
        invariant
            pos <= p <= n,
            n == s@.len(),
            g_array_rec(s@, pos as int, 0nat, false) == g_array_rec(
                s@,
                p as int,
                val as nat,
                any,
            ),
        ensures
            pos <= p <= n,
            g_array_rec(s@, pos as int, 0nat, false) == g_array_rec(
                s@,
                p as int,
                val as nat,
                any,
            ),
            p < n ==> !g_digit(s@[p as int]),
        decreases n - p,
    {
        if p == n {
            break;
        }
        let u = s.get_char(p) as u32;
        if 48 <= u && u <= 57 {
            let d = (u - 48) as u64;
            if val > (u64::MAX - d) / 10 {
                proof {
                    assert(g_array_rec(s@, p as int, val as nat, any) == Err::<
                        (ArraySize, int),
                        GErr,
                    >(GErr { at: p as int, expected: "]"@ }));
                }
                return Err(PErr { at: p, expected: "]" });
            }
            proof {
                assert(val * 10 + d <= u64::MAX) by (nonlinear_arith)
                    requires
                        val <= (u64::MAX - d) / 10,
                        d <= 9,
                ;
            }
            val = val * 10 + d;
            any = true;
            p = p + 1;
        } else {
            break;
        }
    }
    if p < n && s.get_char(p) == ']' {
        if any {
            Ok((ArraySize::Fixed(val), p + 1))
        } else {
            Ok((ArraySize::Unbounded, p + 1))
        }
    } else {
        Err(PErr { at: p, expected: "[0-9]" })
    }
}

fn vtype_of_ident(w: String) -> (r: VType)
    ensures
        g_of_vtype(r) == g_keyword(w@),
{
    if str_eq(w.as_str(), "bool") {
        VType::Bool
    } else if str_eq(w.as_str(), "int8") {
        VType::Int8
    } else if str_eq(w.as_str(), "uint8") {
        VType::UInt8
    } else if str_eq(w.as_str(), "int16") {
        VType::Int16
    } else if str_eq(w.as_str(), "uint16") {
        VType::UInt16
    } else if str_eq(w.as_str(), "int32") {
        VType::Int32
    } else if str_eq(w.as_str(), "uint32") {
        VType::UInt32
    } else if str_eq(w.as_str(), "int64") {
        VType::Int64
    } else if str_eq(w.as_str(), "uint64") {
        VType::UInt64
    } else if str_eq(w.as_str(), "float32") {
        VType::Float32
    } else if str_eq(w.as_str(), "float64") {
        VType::Float64
    } else if str_eq(w.as_str(), "string") {
        VType::VString
    } else {
        VType::VTypename(w)
    }
}

/// Parses one type use: a base type, an optional array suffix, then an
/// optional `?`. No whitespace is allowed between the three parts.
fn parse_type_use(s: &str, pos: usize) -> (r: Result<(VTypeExt, usize), PErr>)
    requires
        pos <= s@.len(),
    ensures
        match r {
            Ok((t, p)) => pos < p <= s@.len() && g_type_use(s@, pos as int) == Ok::<
                (crate::grammar::GTypeExt, int),
                GErr,
            >((g_of_ext(t), p as int)),
            Err(e) => e.at <= s@.len() && g_type_use(s@, pos as int) == Err::<
                (crate::grammar::GTypeExt, int),
                GErr,
            >(g_err_of(e)),
        },
    decreases s@.len() - pos, 1int,
{
    let n = s.unicode_len();
    let vtype: VType;
    let mut p: usize;
    if pos < n && s.get_char(pos) == '(' {
        let (se, p2) = match parse_struct_or_enum(s, pos) {
            Ok(x) => x,
            Err(e) => {
                proof {
                    assert(g_type_use(s@, pos as int) == Err::<
                        (crate::grammar::GTypeExt, int),
                        GErr,
                    >(g_err_of(e)));
                }
                return Err(e);
            },
        };
        let ghost ge = g_of_elt(se);
        vtype = match se {
            VStructOrEnum::VStruct(v) => VType::VStruct(Box::new(v)),
            VStructOrEnum::VEnum(t) => VType::VEnum(t),
        };
        p = p2;
        proof {
            assert(g_of_vtype(vtype) == (match ge {
                GElt::Struct(gs) => crate::grammar::GType::Struct(gs),
                GElt::Enum(ts) => crate::grammar::GType::Enum(ts),
            }));
            assert(g_type_use(s@, pos as int) == g_mods(s@, p as int, g_of_vtype(vtype)));
        }
    } else {
        let e = scan_ident(s, pos);
        if e == pos {
            proof {
                assert(g_type_use(s@, pos as int) == Err::<
                    (crate::grammar::GTypeExt, int),
                    GErr,
                >(GErr { at: pos as int, expected: "type"@ }));
            }
            return Err(PErr { at: pos, expected: "type" });
        }
        let w = s.substring_char(pos, e).to_owned();
        vtype = vtype_of_ident(w);
        p = e;
        proof {
            assert(g_type_use(s@, pos as int) == g_mods(s@, p as int, g_of_vtype(vtype)));
        }
    }
    let ghost p0 = p as int;
    let ghost gt = g_of_vtype(vtype);
    let mut isarray: Option<ArraySize> = None;
    if p < n && s.get_char(p) == '[' {
        match parse_array(s, p + 1) {
            Ok((a, p2)) => {
                isarray = Some(a);
                p = p2;
            },
            Err(e) => {
                proof {
                    assert(g_mods(s@, p0, gt) == Err::<
                        (crate::grammar::GTypeExt, int),
                        GErr,
                    >(g_err_of(e)));
                }
                return Err(e);
            },
        }
    }
    let mut nullable = false;
    if p < n && s.get_char(p) == '?' {
        nullable = true;
        p = p + 1;
    }
    let t = VTypeExt { vtype, nullable, isarray };
    proof {
        assert(g_mods(s@, p0, gt) == Ok::<(crate::grammar::GTypeExt, int), GErr>((
            g_of_ext(t),
            p as int,
        )));
    }
    Ok((t, p))
}

/// Parses the remaining alternatives of a field after those in `alts`.
fn parse_alts(s: &str, q: usize, alts: Vec<VTypeExt>) -> (r: Result<
    (Vec<VTypeExt>, usize),
    PErr,
>)
    requires
        q <= s@.len(),
    ensures
        match r {
            Ok((v, w)) => q <= w <= s@.len() && g_alts(s@, q as int, g_of_exts(alts@)) == Ok::<
                (Seq<crate::grammar::GTypeExt>, int),
                GErr,
            >((g_of_exts(v@), w as int)),
            Err(e) => e.at <= s@.len() && g_alts(s@, q as int, g_of_exts(alts@)) == Err::<
                (Seq<crate::grammar::GTypeExt>, int),
                GErr,
            >(g_err_of(e)),
        },
    decreases s@.len() - q, 2int,
{
    let n = s.unicode_len();
    let ghost acc0 = g_of_exts(alts@);
    let w = match skip_ws(s, q) {
        Ok(x) => x,
        Err(e) => {
            return Err(e);
        },
    };
    if w < n && s.get_char(w) == '|' {
        let w2 = match skip_ws(s, w + 1) {
            Ok(x) => x,
            Err(e) => {
                return Err(e);
            },
        };
        let (t, q3) = match parse_type_use(s, w2) {
            Ok(x) => x,
            Err(e) => {
                return Err(e);
            },
        };
        let ghost gt = g_of_ext(t);
        let mut alts = alts;
        let ghost apre = alts@;
        alts.push(t);
        proof {
            assert(alts@.drop_last() =~= apre);
            assert(g_of_exts(alts@) == acc0.push(gt));
            assert(g_alts(s@, q as int, acc0) == g_alts(s@, q3 as int, g_of_exts(alts@)));
        }
        parse_alts(s, q3, alts)
    } else {
        proof {
            assert(g_alts(s@, q as int, acc0) == Ok::<
                (Seq<crate::grammar::GTypeExt>, int),
                GErr,
            >((acc0, w as int)));
        }
        Ok((alts, w))
    }
}

/// Parses the fields of a struct from the `:` of the next field, named
/// `fname`; the fields already read are in `elts`.
fn parse_fields(s: &str, p: usize, elts: Vec<Argument>, fname: String) -> (r: Result<
    (VStruct, usize),
    PErr,
>)
    requires
        p < s@.len(),
    ensures
        match r {
            Ok((st, pp)) => p < pp <= s@.len() && g_fields(
                s@,
                p as int,
                g_of_args(elts@),
                fname@,
            ) == Ok::<(crate::grammar::GStruct, int), GErr>((g_of_vstruct(st), pp as int)),
            Err(e) => e.at <= s@.len() && g_fields(s@, p as int, g_of_args(elts@), fname@)
                == Err::<(crate::grammar::GStruct, int), GErr>(g_err_of(e)),
        },
    decreases s@.len() - p, 3int,
{
    let n = s.unicode_len();
    let ghost acc0 = g_of_args(elts@);
    let ghost fname0 = fname@;
    let q0 = match skip_ws(s, p + 1) {
        Ok(x) => x,
        Err(e) => {
            return Err(e);
        },
    };
    let (t0, q1) = match parse_type_use(s, q0) {
        Ok(x) => x,
        Err(e) => {
            return Err(e);
        },
    };
    let ghost gt0 = g_of_ext(t0);
    let mut alts0: Vec<VTypeExt> = Vec::new();
    alts0.push(t0);
    proof {
        assert(alts0@.drop_last() =~= Seq::<VTypeExt>::empty());
        assert(alts0@.last() == t0);
        assert(g_of_exts(Seq::<VTypeExt>::empty()) == Seq::<crate::grammar::GTypeExt>::empty());
        assert(g_of_exts(alts0@) == g_of_exts(alts0@.drop_last()).push(g_of_ext(alts0@.last())));
        assert(g_of_exts(alts0@) =~= seq![gt0]);
        assert(g_of_exts(alts0@) == seq![gt0]);
    }
    let (altsv, q) = match parse_alts(s, q1, alts0) {
        Ok(x) => x,
        Err(e) => {
            return Err(e);
        },
    };
    let ghost galts = g_of_exts(altsv@);
    let mut elts = elts;
    let ghost epre = elts@;
    elts.push(Argument { name: fname, vtypes: altsv });
    proof {
        assert(elts@.drop_last() =~= epre);
        assert(g_of_arg(elts@.last()) == (crate::grammar::GArg { name: fname0, vtypes: galts }));
        assert(g_of_args(elts@) == acc0.push(
            crate::grammar::GArg { name: fname0, vtypes: galts },
        ));
    }
    if q < n && s.get_char(q) == ',' {
        let q2 = match skip_ws(s, q + 1) {
            Ok(x) => x,
            Err(e) => {
                return Err(e);
            },
        };
        let e2 = scan_ident(s, q2);
        if e2 == q2 {
            return Err(PErr { at: q2, expected: ")" });
        }
        let fname2 = s.substring_char(q2, e2).to_owned();
        let q3 = match skip_ws(s, e2) {
            Ok(x) => x,
            Err(e) => {
                return Err(e);
            },
        };
        if !(q3 < n && s.get_char(q3) == ':') {
            return Err(PErr { at: q3, expected: ":" });
        }
        proof {
            assert(g_fields(s@, p as int, acc0, fname0) == g_fields(
                s@,
                q3 as int,
                g_of_args(elts@),
                fname2@,
            ));
        }
        parse_fields(s, q3, elts, fname2)
    } else if q < n && s.get_char(q) == ')' {
        let st = VStruct { elts };
        proof {
            assert(g_fields(s@, p as int, acc0, fname0) == Ok::<
                (crate::grammar::GStruct, int),
                GErr,
            >((g_of_vstruct(st), q as int + 1)));
        }
        Ok((st, q + 1))
    } else {
        Err(PErr { at: q, expected: ")" })
    }
}

/// Parses the tags of an enum from a position holding `,` or `)`.
fn parse_tags(s: &str, p: usize, tags: Vec<String>) -> (r: Result<(VStructOrEnum, usize), PErr>)
    requires
        p <= s@.len(),
    ensures
        match r {
            Ok((v, pp)) => p < pp <= s@.len() && g_tags(s@, p as int, g_of_tags(tags@)) == Ok::<
                (GElt, int),
                GErr,
            >((g_of_elt(v), pp as int)),
            Err(e) => e.at <= s@.len() && g_tags(s@, p as int, g_of_tags(tags@)) == Err::<
                (GElt, int),
                GErr,
            >(g_err_of(e)),
        },
    decreases s@.len() - p, 0int,
{
    let n = s.unicode_len();
    let ghost acc0 = g_of_tags(tags@);
    if !(p < n) {
        return Err(PErr { at: p, expected: ")" });
    }
    let c = s.get_char(p);
    if c == ')' {
        let v = VStructOrEnum::VEnum(tags);
        proof {
            assert(g_of_elt(v) == GElt::Enum(acc0));
        }
        return Ok((v, p + 1));
    }
    if c != ',' {
        return Err(PErr { at: p, expected: ")" });
    }
    let q = match skip_ws(s, p + 1) {
        Ok(x) => x,
        Err(e) => {
            return Err(e);
        },
    };
    let e2 = scan_ident(s, q);
    if e2 == q {
        return Err(PErr { at: q, expected: ")" });
    }
    let mut tags = tags;
    let ghost tpre = tags@;
    tags.push(s.substring_char(q, e2).to_owned());
    proof {
        assert(tags@.drop_last() =~= tpre);
        assert(g_of_tags(tags@) == acc0.push(s@.subrange(q as int, e2 as int)));
    }
    let q2 = match skip_ws(s, e2) {
        Ok(x) => x,
        Err(e) => {
            return Err(e);
        },
    };
    if !(q2 < n) {
        return Err(PErr { at: q2, expected: ")" });
    }
    proof {
        assert(g_tags(s@, p as int, acc0) == g_tags(s@, q2 as int, g_of_tags(tags@)));
    }
    parse_tags(s, q2, tags)
}

/// Parses a parenthesized body from its `(`: an empty struct, a struct of
/// fields, or an enum tag list.
fn parse_struct_or_enum(s: &str, pos: usize) -> (r: Result<(VStructOrEnum, usize), PErr>)
    requires
        pos <= s@.len(),
    ensures
        match r {
            Ok((v, p)) => pos < p <= s@.len() && g_struct_or_enum(s@, pos as int) == Ok::<
                (GElt, int),
                GErr,
            >((g_of_elt(v), p as int)),
            Err(e) => e.at <= s@.len() && g_struct_or_enum(s@, pos as int) == Err::<
                (GElt, int),
                GErr,
            >(g_err_of(e)),
        },
    decreases s@.len() - pos, 0int,
{
    let n = s.unicode_len();
    if !(pos < n && s.get_char(pos) == '(') {
        return Err(PErr { at: pos, expected: "(" });
    }
    let p = match skip_ws(s, pos + 1) {
        Ok(p) => p,
        Err(e) => {
            return Err(e);
        },
    };
    if p < n && s.get_char(p) == ')' {
        let v = VStructOrEnum::VStruct(VStruct { elts: Vec::new() });
        proof {
            assert(g_of_args(Seq::<Argument>::empty()) =~= Seq::<crate::grammar::GArg>::empty());
            assert(g_of_elt(v) == GElt::Struct(
                crate::grammar::GStruct { elts: Seq::<crate::grammar::GArg>::empty() },
            ));
        }
        return Ok((v, p + 1));
    }
    let e = scan_ident(s, p);
    if e == p {
        return Err(PErr { at: p, expected: ")" });
    }
    let first = s.substring_char(p, e).to_owned();
    let p2 = match skip_ws(s, e) {
        Ok(q) => q,
        Err(e) => {
            return Err(e);
        },
    };
    if p2 < n && s.get_char(p2) == ':' {
        let r2 = parse_fields(s, p2, Vec::new(), first);
        proof {
            assert(g_of_args(Seq::<Argument>::empty()) =~= Seq::<crate::grammar::GArg>::empty());
        }
        match r2 {
            Ok((st, pp)) => {
                let v = VStructOrEnum::VStruct(st);
                proof {
                    assert(g_struct_or_enum(s@, pos as int) == Ok::<(GElt, int), GErr>((
                        g_of_elt(v),
                        pp as int,
                    )));
                }
                Ok((v, pp))
            },
            Err(e) => {
                proof {
                    assert(g_struct_or_enum(s@, pos as int) == Err::<(GElt, int), GErr>(
                        g_err_of(e),
                    ));
                }
                Err(e)
            },
        }
    } else if p2 < n && (s.get_char(p2) == ',' || s.get_char(p2) == ')') {
        let ghost first0 = first@;
        let mut tg: Vec<String> = Vec::new();
        tg.push(first);
        proof {
            assert(tg@.drop_last() =~= Seq::<String>::empty());
            assert(g_of_tags(Seq::<String>::empty()) == Seq::<Seq<char>>::empty());
            assert(g_of_tags(tg@) == g_of_tags(tg@.drop_last()).push(tg@.last()@));
            assert(g_of_tags(tg@) =~= seq![first0]);
            assert(g_of_tags(tg@) == seq![first0]);
        }
        parse_tags(s, p2, tg)
    } else {
        Err(PErr { at: p2, expected: ":" })
    }
}

/// How a parsed document corresponds to the blocks the reference grammar
/// reads: one interface per block, carrying the block's name, assembled
/// from members whose grammar reading is exactly the block's member list,
/// with first-definition-wins maps and the recorded error set.
pub open spec fn blocks_match(
    blocks: Seq<GBlock>,
    ifs: Seq<Interface>,
    mts: Seq<Seq<MethodOrTypedef>>,
) -> bool {
    &&& ifs.len() == blocks.len()
    &&& mts.len() == blocks.len()
    &&& forall|k: int|
        0 <= k < blocks.len() ==> {
            &&& (#[trigger] blocks[k]).name == ifs[k].name@
            &&& blocks[k].members == g_of_members(mts[k])
            &&& iface_wf(ifs[k])
            &&& valid_name(ifs[k].name@)
            &&& key_map(ifs[k].typedefs@) == assemble_tds(mts[k])
            &&& key_map(ifs[k].methods@) == assemble_ms(mts[k])
            &&& strs(ifs[k].error@) == (if ifs[k].methods@.len() == 0 {
                assemble_errs(ifs[k].name@, mts[k]).insert(no_method_msg_s(ifs[k].name@))
            } else {
                assemble_errs(ifs[k].name@, mts[k])
            })
        }
}

/// Parses one member of an interface block: a typedef or a method.
fn parse_member(s: &str, pos: usize) -> (r: Result<(MethodOrTypedef, usize), PErr>)
    requires
        pos <= s@.len(),
    ensures
        match r {
            Ok((m, p)) => pos < p <= s@.len() && g_member(s@, pos as int) == Ok::<
                (GMember, int),
                GErr,
            >((g_of_member(m), p as int)),
            Err(e) => e.at <= s@.len() && g_member(s@, pos as int) == Err::<
                (GMember, int),
                GErr,
            >(g_err_of(e)),
        },
{
    let n = s.unicode_len();
    let e = scan_ident(s, pos);
    if e == pos {
        return Err(PErr { at: pos, expected: "}" });
    }
    let w = s.substring_char(pos, e);
    if str_eq(w, "type") {
        let p = match skip_ws(s, e) {
            Ok(x) => x,
            Err(e) => {
                return Err(e);
            },
        };
        let e2 = scan_ident(s, p);
        if e2 == p {
            return Err(PErr { at: p, expected: "identifier" });
        }
        let name = s.substring_char(p, e2).to_owned();
        let p2 = match skip_ws(s, e2) {
            Ok(x) => x,
            Err(e) => {
                return Err(e);
            },
        };
        let (body, p3) = match parse_struct_or_enum(s, p2) {
            Ok(x) => x,
            Err(e) => {
                return Err(e);
            },
        };
        let m = MethodOrTypedef::Typedef(Typedef { name, elt: body });
        proof {
            assert(g_member(s@, pos as int) == Ok::<(GMember, int), GErr>((
                g_of_member(m),
                p3 as int,
            )));
        }
        Ok((m, p3))
    } else {
        let name = w.to_owned();
        let p = match skip_ws(s, e) {
            Ok(x) => x,
            Err(e) => {
                return Err(e);
            },
        };
        let (inp, p2) = match parse_struct_or_enum(s, p) {
            Ok(x) => x,
            Err(e) => {
                return Err(e);
            },
        };
        let input = match inp {
            VStructOrEnum::VStruct(v) => v,
            VStructOrEnum::VEnum(_) => {
                return Err(PErr { at: p, expected: ":" });
            },
        };
        let p3 = match skip_ws(s, p2) {
            Ok(x) => x,
            Err(e) => {
                return Err(e);
            },
        };
        if !(p3 < n) {
            return Err(PErr { at: p3, expected: "->" });
        }
        let c = s.get_char(p3);
        let stream = if c == '-' {
            false
        } else if c == '=' {
            true
        } else {
            return Err(PErr { at: p3, expected: "->" });
        };
        if !(p3 + 1 < n && s.get_char(p3 + 1) == '>') {
            return Err(PErr { at: p3, expected: "->" });
        }
        let p4 = match skip_ws(s, p3 + 2) {
            Ok(x) => x,
            Err(e) => {
                return Err(e);
            },
        };
        let (outp, p5) = match parse_struct_or_enum(s, p4) {
            Ok(x) => x,
            Err(e) => {
                return Err(e);
            },
        };
        let output = match outp {
            VStructOrEnum::VStruct(v) => v,
            VStructOrEnum::VEnum(_) => {
                return Err(PErr { at: p4, expected: ":" });
            },
        };
        let m = MethodOrTypedef::Method(Method { name, input, output, stream });
        proof {
            assert(g_member(s@, pos as int) == Ok::<(GMember, int), GErr>((
                g_of_member(m),
                p5 as int,
            )));
        }
        Ok((m, p5))
    }
}

/// Parses one interface block: a valid dotted name, then braced members,
/// assembled by `Interface::from_token`.
fn parse_interface(s: &str, pos: usize) -> (r: Result<(Interface, usize), PErr>)
    requires
        pos <= s@.len(),
    ensures
        match r {
            Ok((i, p)) => pos < p <= s@.len() && iface_wf(i) && valid_name(i.name@) && (exists|
                mt: Seq<MethodOrTypedef>,
            |
                #![trigger g_of_members(mt)]
                {
                    &&& g_block(s@, pos as int) == Ok::<(GBlock, int), GErr>((
                        (GBlock { name: i.name@, members: g_of_members(mt) }),
                        p as int,
                    ))
                    &&& key_map(i.typedefs@) == assemble_tds(mt)
                    &&& key_map(i.methods@) == assemble_ms(mt)
                    &&& strs(i.error@) == (if i.methods@.len() == 0 {
                        assemble_errs(i.name@, mt).insert(no_method_msg_s(i.name@))
                    } else {
                        assemble_errs(i.name@, mt)
                    })
                }),
            Err(e) => e.at <= s@.len() && g_block(s@, pos as int) == Err::<
                (GBlock, int),
                GErr,
            >(g_err_of(e)),
        },
{
    let n = s.unicode_len();
    let e = scan_name(s, pos);
    let nm = s.substring_char(pos, e);
    if !check_name(nm) {
        return Err(PErr { at: pos, expected: "interface name" });
    }
    let name = nm.to_owned();
    let mut p = match skip_ws(s, e) {
        Ok(x) => x,
        Err(e) => {
            return Err(e);
        },
    };
    if !(p < n && s.get_char(p) == '{') {
        return Err(PErr { at: p, expected: "{" });
    }
    p = match skip_ws(s, p + 1) {
        Ok(x) => x,
        Err(e) => {
            return Err(e);
        },
    };
    let ghost pm0 = p as int;
    let ghost bm_target = g_block_members(s@, pm0, Seq::<GMember>::empty());
    proof {
        assert(g_block(s@, pos as int) == (match bm_target {
            Ok((ms, pp)) => Ok::<(GBlock, int), GErr>((GBlock { name: name@, members: ms }, pp)),
            Err(x) => Err::<(GBlock, int), GErr>(x),
        }));
        assert(g_of_members(Seq::<MethodOrTypedef>::empty()) == Seq::<GMember>::empty());
    }
    let mut members: Vec<MethodOrTypedef> = Vec::new();
    loop
        invariant
            pos < p <= n,
            n == s@.len(),
            valid_name(name@),
            bm_target == g_block_members(s@, pm0, Seq::<GMember>::empty()),
            g_block_members(s@, p as int, g_of_members(members@)) == bm_target,
            g_block(s@, pos as int) == (match bm_target {
                Ok((ms, pp)) => Ok::<(GBlock, int), GErr>((
                    (GBlock { name: name@, members: ms }),
                    pp,
                )),
                Err(x) => Err::<(GBlock, int), GErr>(x),
            }),
        decreases n - p,
    {
        if p < n && s.get_char(p) == '}' {
            proof {
                assert(bm_target == Ok::<(Seq<GMember>, int), GErr>((
                    g_of_members(members@),
                    p as int + 1,
                )));
            }
            let ghost mt0 = members@;
            let iface = Interface::from_token(name, members);
            proof {
                assert(g_block(s@, pos as int) == Ok::<(GBlock, int), GErr>((
                    (GBlock { name: iface.name@, members: g_of_members(mt0) }),
                    p as int + 1,
                )));
            }
            return Ok(((iface, p + 1)));
        }
        if p == n {
            return Err(PErr { at: p, expected: "}" });
        }
        let (m, p2) = match parse_member(s, p) {
            Ok(x) => x,
            Err(e) => {
                return Err(e);
            },
        };
        let ghost pstep = p as int;
        let ghost mpre = members@;
        members.push(m);
        proof {
            assert(members@.drop_last() =~= mpre);
            assert(g_of_members(members@) == g_of_members(mpre).push(g_of_member(m)));
        }
        p = match skip_ws(s, p2) {
            Ok(x) => x,
            Err(e) => {
                return Err(e);
            },
        };
        // An optional `;` may close a member, as in the canonical form.
        if p < n && s.get_char(p) == ';' {
            p = match skip_ws(s, p + 1) {
                Ok(x) => x,
                Err(e) => {
                    return Err(e);
                },
            };
        }
        proof {
            assert(g_block_members(s@, pstep, g_of_members(mpre)) == g_block_members(
                s@,
                p as int,
                g_of_members(members@),
            ));
        }
    }
}

/// A parsed interface list is the one the reference grammar assigns to
/// the buffer: the grammar accepts it, and the interfaces are assembled
/// from exactly the grammar's blocks.
pub open spec fn doc_matches(s: Seq<char>, ifs: Seq<Interface>) -> bool {
    &&& g_document(s) is Ok
    &&& exists|mts: Seq<Seq<MethodOrTypedef>>|
        #![trigger blocks_match(g_document(s)->Ok_0, ifs, mts)]
        blocks_match(g_document(s)->Ok_0, ifs, mts)
}

/// Parses a whole buffer: zero or more interface blocks.
#[verifier::rlimit(100)]
pub fn parse_document(s: &str) -> (r: Result<Vec<Interface>, PErr>)
    ensures
        r is Ok ==> doc_matches(s@, (r->Ok_0)@),
        r is Err ==> (r->Err_0).at <= s@.len() && g_document(s@) == Err::<Seq<GBlock>, GErr>(
            g_err_of(r->Err_0),
        ),
{
    let n = s.unicode_len();
    let mut out: Vec<Interface> = Vec::new();
    let mut p = match skip_ws(s, 0) {
        Ok(x) => x,
        Err(e) => {
            return Err(e);
        },
    };
    let ghost p0 = p as int;
    let ghost mut gblocks: Seq<GBlock> = Seq::empty();
    let ghost mut gmts: Seq<Seq<MethodOrTypedef>> = Seq::empty();
    proof {
        assert(g_document(s@) == g_blocks(s@, p0, Seq::<GBlock>::empty()));
    }
    while p < n
        invariant
            p <= n,
            n == s@.len(),
            g_document(s@) == g_blocks(s@, p0, Seq::<GBlock>::empty()),
            g_blocks(s@, p as int, gblocks) == g_blocks(s@, p0, Seq::<GBlock>::empty()),
            blocks_match(gblocks, out@, gmts),
            forall|i: int| 0 <= i < out@.len() ==> iface_wf(#[trigger] out@[i]) && valid_name(
                out@[i].name@,
            ),
        decreases n - p,
    {
        let ghost pstep = p as int;
        let ghost bpre = gblocks;
        let (iface, p2) = match parse_interface(s, p) {
            Ok(x) => x,
            Err(e) => {
                return Err(e);
            },
        };
        proof {
            let mt = choose|mt: Seq<MethodOrTypedef>|
                #![trigger g_of_members(mt)]
                {
                    &&& g_block(s@, pstep) == Ok::<(GBlock, int), GErr>((
                        (GBlock { name: iface.name@, members: g_of_members(mt) }),
                        p2 as int,
                    ))
                    &&& key_map(iface.typedefs@) == assemble_tds(mt)
                    &&& key_map(iface.methods@) == assemble_ms(mt)
                    &&& strs(iface.error@) == (if iface.methods@.len() == 0 {
                        assemble_errs(iface.name@, mt).insert(no_method_msg_s(iface.name@))
                    } else {
                        assemble_errs(iface.name@, mt)
                    })
                };
            gblocks = gblocks.push(
                GBlock { name: iface.name@, members: g_of_members(mt) },
            );
            gmts = gmts.push(mt);
        }
        out.push(iface);
        p = match skip_ws(s, p2) {
            Ok(x) => x,
            Err(e) => {
                return Err(e);
            },
        };
        proof {
            assert(g_blocks(s@, pstep, bpre) == g_blocks(s@, p as int, gblocks));
            assert(blocks_match(gblocks, out@, gmts));
        }
    }
    proof {
        assert(g_blocks(s@, p as int, gblocks) == Ok::<Seq<GBlock>, GErr>(gblocks));
        assert(g_document(s@) == Ok::<Seq<GBlock>, GErr>(gblocks));
        assert(g_document(s@)->Ok_0 == gblocks);
        assert(blocks_match(g_document(s@)->Ok_0, out@, gmts));
        assert(doc_matches(s@, out@));
    }
    Ok(out)
}

impl Varlink {
    /// Parses a buffer into a document. The reference grammar `g_document`
    /// fixes which buffers parse and what they parse to. A grammar failure
    /// is reported as one message positioned at the failure; a buffer that
    /// parses but breaks a semantic rule is reported as the distinct rule
    /// messages, sorted and newline-joined; the document itself — the
    /// grammar's blocks assembled first-definition-wins — is returned
    /// exactly when neither happens, and then every interface is well
    /// formed, carries a valid name, and records no error.
    #[verifier::rlimit(100)]
    pub fn from_string(s: &str) -> (r: Result<Varlink, String>)
        requires
            s@.len() < usize::MAX,
        ensures
            match r {
                Ok(v) => doc_wf(v) && (forall|i: int|
                    0 <= i < v.interfaces@.len() ==> valid_name(
                        #[trigger] v.interfaces@[i].name@,
                    ) && v.interfaces@[i].error@.len() == 0) && g_document(s@) is Ok && (exists|
                    ifs: Seq<Interface>,
                    mts: Seq<Seq<MethodOrTypedef>>,
                |
                    #![trigger blocks_match(g_document(s@)->Ok_0, ifs, mts)]
                    {
                        &&& blocks_match(g_document(s@)->Ok_0, ifs, mts)
                        &&& doc_errs(ifs) == Set::<Seq<char>>::empty()
                        &&& key_map(v.interfaces@) == doc_map(ifs)
                    }),
                Err(e) => (g_document(s@) is Err && e@ == err_msg_s(
                    line_of(s@, g_document(s@)->Err_0.at),
                    col_of(s@, g_document(s@)->Err_0.at),
                    g_document(s@)->Err_0.expected,
                )) || (g_document(s@) is Ok && exists|
                    ifs: Seq<Interface>,
                    mts: Seq<Seq<MethodOrTypedef>>,
                    log: Seq<String>,
                |
                    #![trigger blocks_match(g_document(s@)->Ok_0, ifs, mts), sorted_strs(log)]
                    {
                        &&& blocks_match(g_document(s@)->Ok_0, ifs, mts)
                        &&& doc_errs(ifs) != Set::<Seq<char>>::empty()
                        &&& sorted_strs(log)
                        &&& strs(log) == doc_errs(ifs)
                        &&& e@ == join_nl(log)
                    }),
            },
    {
        let ifaces = match parse_document(s) {
            Ok(v) => v,
            Err(e) => {
                let msg = err_msg(s, e.at, e.expected);
                proof {
                    assert(g_document(s@)->Err_0 == g_err_of(e));
                }
                return Err(msg);
            },
        };
        let ghost ifs = ifaces@;
        let ghost blocks = g_document(s@)->Ok_0;
        let ghost mts = choose|mts: Seq<Seq<MethodOrTypedef>>|
            #![trigger blocks_match(g_document(s@)->Ok_0, ifs, mts)]
            blocks_match(g_document(s@)->Ok_0, ifs, mts);
        proof {
            assert(blocks_match(blocks, ifs, mts));
            assert forall|i: int| 0 <= i < ifs.len() implies iface_wf(#[trigger] ifs[i])
                && valid_name(ifs[i].name@) by {
                assert((blocks[i]).name == ifs[i].name@);
            }
        }
        match Varlink::from_interfaces(ifaces) {
            Ok(v) => {
                proof {
                    lemma_doc_errs_cover(ifs);
                    crate::keyed::lemma_key_map_dom(v.interfaces@);
                    assert forall|i: int| 0 <= i < v.interfaces@.len() implies valid_name(
                        #[trigger] v.interfaces@[i].name@,
                    ) && v.interfaces@[i].error@.len() == 0 by {
                        crate::keyed::lemma_key_map_value(v.interfaces@, i);
                        let f = v.interfaces@[i];
                        assert(doc_map(ifs).contains_key(f.name@));
                        assert(doc_map(ifs)[f.name@] == f);
                        lemma_doc_map_values(ifs, f.name@);
                        let j = choose|j: int|
                            0 <= j < ifs.len() && ifs[j] == doc_map(ifs)[f.name@];
                        assert(valid_name(f.name@));
                        if f.error@.len() > 0 {
                            assert(strs(f.error@).contains(f.error@[0]@));
                            assert(doc_errs(ifs).contains(f.error@[0]@));
                        }
                    }
                }
                Ok(v)
            },
            Err(e) => {
                proof {
                    let log = choose|log: Seq<String>|
                        sorted_strs(log) && strs(log) == doc_errs(ifs) && e@ == join_nl(log);
                    assert(blocks_match(g_document(s@)->Ok_0, ifs, mts) && doc_errs(ifs)
                        != Set::<Seq<char>>::empty() && sorted_strs(log) && strs(log) == doc_errs(
                        ifs,
                    ) && e@ == join_nl(log));
                }
                Err(e)
            },
        }
    }
}

/// Every value of the document mapping is one of the assembled interfaces.
proof fn lemma_doc_map_values(ifs: Seq<Interface>, k: Seq<char>)
    requires
        doc_map(ifs).contains_key(k),
    ensures
        exists|j: int| 0 <= j < ifs.len() && ifs[j] == doc_map(ifs)[k],
    decreases ifs.len(),
{
    if ifs.len() > 0 {
        if doc_map(ifs.drop_last()).contains_key(k) {
            lemma_doc_map_values(ifs.drop_last(), k);
            let j = choose|j: int|
                0 <= j < ifs.drop_last().len() && ifs.drop_last()[j] == doc_map(
                    ifs.drop_last(),
                )[k];
            assert(ifs[j] == doc_map(ifs)[k]);
        } else {
            assert(ifs[ifs.len() - 1] == doc_map(ifs)[k]);
        }
    }
}

/// The document's error set covers each interface's own error set.
proof fn lemma_doc_errs_cover(ifs: Seq<Interface>)
    ensures
        forall|j: int, x: Seq<char>|
            0 <= j < ifs.len() && strs(#[trigger] ifs[j].error@).contains(x)
                ==> #[trigger] doc_errs(ifs).contains(x),
    decreases ifs.len(),
{
    if ifs.len() > 0 {
        lemma_doc_errs_cover(ifs.drop_last());
        assert forall|j: int, x: Seq<char>|
            0 <= j < ifs.len() && strs(#[trigger] ifs[j].error@).contains(x) implies #[trigger]
        doc_errs(ifs).contains(x) by {
            if j < ifs.len() - 1 {
                assert(ifs.drop_last()[j] == ifs[j]);
                assert(doc_errs(ifs.drop_last()).contains(x));
            }
        }
    }
}

} // verus!
