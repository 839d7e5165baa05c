//! The binding generator: walks an interface and emits target-language
//! declarations — one record per typedef, reply and argument carriers per
//! method, hoisted declarations for the anonymous enums met on the way,
//! and one trait collecting the method signatures.

use vstd::prelude::*;
use crate::ast::{Argument, Interface, Method, Typedef, VStruct, VStructOrEnum, VType, VTypeExt};
use crate::keyed::{Keyed, find_keyed, insert_keyed, key_map, lemma_key_map_dom, sorted_keyed};

verus! {

/// An anonymous enum hoisted to a top-level declaration, filed under its
/// synthesized context name.
pub struct EnumDecl {
    pub name: String,
    pub tags: Vec<String>,
}

impl Keyed for EnumDecl {
    open spec fn skey(&self) -> Seq<char> {
        self.name@
    }

    fn key_ref(&self) -> (r: &str) {
        self.name.as_str()
    }
}

/// The views of a tag list.
pub open spec fn tagviews(tags: Seq<String>) -> Seq<Seq<char>> {
    tags.map_values(|t: String| t@)
}

/// The target-language text of a base type: integers widen to `i64`,
/// floats to `f64`, and an anonymous struct or enum stands under its
/// synthesized context name.
pub open spec fn gen_vtype(t: VType, parent: Seq<char>) -> Seq<char> {
    match t {
        VType::Bool => "bool"@,
        VType::Int8 => "i64"@,
        VType::UInt8 => "i64"@,
        VType::Int16 => "i64"@,
        VType::UInt16 => "i64"@,
        VType::Int32 => "i64"@,
        VType::UInt32 => "i64"@,
        VType::Int64 => "i64"@,
        VType::UInt64 => "i64"@,
        VType::Float32 => "f64"@,
        VType::Float64 => "f64"@,
        VType::VString => "String"@,
        VType::VTypename(s) => s@,
        VType::VStruct(_) => parent,
        VType::VEnum(_) => parent,
    }
}

/// The target-language text of a type use: an array becomes a vector.
pub open spec fn gen_vtypeext(t: VTypeExt, parent: Seq<char>) -> Seq<char> {
    if t.isarray is Some {
        "Vec<"@ + gen_vtype(t.vtype, parent) + ">"@
    } else {
        gen_vtype(t.vtype, parent)
    }
}

/// The element type of a field: its first alternative.
pub open spec fn gen_first(a: Argument, parent: Seq<char>) -> Seq<char> {
    if a.vtypes@.len() == 0 {
        Seq::<char>::empty()
    } else {
        gen_vtypeext(a.vtypes@[0], parent)
    }
}

/// The synthesized context name of a field of a typedef.
pub open spec fn ctx(tname: Seq<char>, fname: Seq<char>) -> Seq<char> {
    tname + "_"@ + fname
}

/// One generated field: always optional in the carrier.
pub open spec fn gen_field(a: Argument, parent: Seq<char>) -> Seq<char> {
    "    pub "@ + a.name@ + ": Option<"@ + gen_first(a, parent) + ">,\n"@
}

/// The fields of a typedef struct, each under its own context.
pub open spec fn gen_td_fields(tname: Seq<char>, args: Seq<Argument>) -> Seq<char>
    decreases args.len(),
{
    if args.len() == 0 {
        Seq::<char>::empty()
    } else {
        gen_td_fields(tname, args.drop_last()) + gen_field(
            args.last(),
            ctx(tname, args.last().name@),
        )
    }
}

/// The fields of a method carrier, all under the interface's own context.
pub open spec fn gen_fields_fixed(parent: Seq<char>, args: Seq<Argument>) -> Seq<char>
    decreases args.len(),
{
    if args.len() == 0 {
        Seq::<char>::empty()
    } else {
        gen_fields_fixed(parent, args.drop_last()) + gen_field(args.last(), parent)
    }
}

pub open spec fn derive_line() -> Seq<char> {
    "#[derive(Serialize, Deserialize, Debug)]\n"@
}

/// The body lines of an enum declaration.
pub open spec fn enum_body(tags: Seq<String>) -> Seq<char>
    decreases tags.len(),
{
    if tags.len() == 0 {
        Seq::<char>::empty()
    } else if tags.len() == 1 {
        "    "@ + tags[0]@
    } else {
        enum_body(tags.drop_last()) + ",\n    "@ + tags.last()@
    }
}

/// One typedef declaration.
pub open spec fn gen_typedef(t: Typedef) -> Seq<char> {
    derive_line() + match t.elt {
        VStructOrEnum::VStruct(s) => "pub struct "@ + t.name@ + " {\n"@ + gen_td_fields(
            t.name@,
            s.elts@,
        ) + "}\n\n"@,
        VStructOrEnum::VEnum(tags) => "pub enum "@ + t.name@ + " {\n"@ + enum_body(tags@)
            + "\n}\n\n"@,
    }
}

pub open spec fn gen_typedefs(ts: Seq<Typedef>) -> Seq<char>
    decreases ts.len(),
{
    if ts.len() == 0 {
        Seq::<char>::empty()
    } else {
        gen_typedefs(ts.drop_last()) + gen_typedef(ts.last())
    }
}

/// The reply and argument carriers of one method, each emitted only when
/// it would have fields.
pub open spec fn gen_carrier(iface: Seq<char>, m: Method) -> Seq<char> {
    (if m.output.elts@.len() > 0 {
        derive_line() + "pub struct "@ + m.name@ + "Reply {\n"@ + gen_fields_fixed(
            iface,
            m.output.elts@,
        ) + "}\n\n"@
    } else {
        Seq::<char>::empty()
    }) + (if m.input.elts@.len() > 0 {
        derive_line() + "pub struct "@ + m.name@ + "Args {\n"@ + gen_fields_fixed(
            iface,
            m.input.elts@,
        ) + "}\n\n"@
    } else {
        Seq::<char>::empty()
    })
}

pub open spec fn gen_carriers(iface: Seq<char>, ms: Seq<Method>) -> Seq<char>
    decreases ms.len(),
{
    if ms.len() == 0 {
        Seq::<char>::empty()
    } else {
        gen_carriers(iface, ms.drop_last()) + gen_carrier(iface, ms.last())
    }
}

/// One hoisted enum declaration.
pub open spec fn gen_enum_decl(e: EnumDecl) -> Seq<char> {
    "pub enum "@ + e.name@ + " {\n"@ + enum_body(e.tags@) + "\n}\n\n"@
}

pub open spec fn gen_enums(ds: Seq<EnumDecl>) -> Seq<char>
    decreases ds.len(),
{
    if ds.len() == 0 {
        Seq::<char>::empty()
    } else {
        gen_enums(ds.drop_last()) + gen_enum_decl(ds.last())
    }
}

/// An upper-case ASCII letter lowered; any other character unchanged.
pub open spec fn lc_char(c: char) -> char {
    if c == 'A' { 'a' } else if c == 'B' { 'b' } else if c == 'C' { 'c' }
    else if c == 'D' { 'd' } else if c == 'E' { 'e' } else if c == 'F' { 'f' }
    else if c == 'G' { 'g' } else if c == 'H' { 'h' } else if c == 'I' { 'i' }
    else if c == 'J' { 'j' } else if c == 'K' { 'k' } else if c == 'L' { 'l' }
    else if c == 'M' { 'm' } else if c == 'N' { 'n' } else if c == 'O' { 'o' }
    else if c == 'P' { 'p' } else if c == 'Q' { 'q' } else if c == 'R' { 'r' }
    else if c == 'S' { 's' } else if c == 'T' { 't' } else if c == 'U' { 'u' }
    else if c == 'V' { 'v' } else if c == 'W' { 'w' } else if c == 'X' { 'x' }
    else if c == 'Y' { 'y' } else if c == 'Z' { 'z' } else { c }
}

/// A name with its first character lowered.
pub open spec fn lc_first_s(s: Seq<char>) -> Seq<char> {
    if s.len() == 0 {
        s
    } else {
        seq![lc_char(s[0])] + s.drop_first()
    }
}

/// The method's parameters, one per input field, by value.
pub open spec fn gen_params(iface: Seq<char>, args: Seq<Argument>) -> Seq<char>
    decreases args.len(),
{
    if args.len() == 0 {
        Seq::<char>::empty()
    } else {
        gen_params(iface, args.drop_last()) + ", "@ + args.last().name@ + " : "@ + gen_first(
            args.last(),
            iface,
        )
    }
}

/// One generated method signature: the result wraps the reply carrier, or
/// the unit type for a method without output.
pub open spec fn gen_sig(iface: Seq<char>, m: Method) -> Seq<char> {
    "    fn "@ + lc_first_s(m.name@) + "(&self"@ + gen_params(iface, m.input.elts@)
        + ") -> Result<"@ + (if m.output.elts@.len() > 0 {
        m.name@ + "Reply"@
    } else {
        "()"@
    }) + ", Error>;\n"@
}

pub open spec fn gen_sigs(iface: Seq<char>, ms: Seq<Method>) -> Seq<char>
    decreases ms.len(),
{
    if ms.len() == 0 {
        Seq::<char>::empty()
    } else {
        gen_sigs(iface, ms.drop_last()) + gen_sig(iface, ms.last())
    }
}

/// The trait declaration collecting every method signature.
pub open spec fn gen_trait(iface: Seq<char>, ms: Seq<Method>) -> Seq<char> {
    "pub trait Interface: VarlinkInterface {\n"@ + gen_sigs(iface, ms) + "}\n\n"@
}

/// Whether a field's first alternative is an anonymous enum.
pub open spec fn first_alt_enum(a: Argument) -> bool {
    a.vtypes@.len() > 0 && a.vtypes@[0].vtype is VEnum
}

/// The tags of that enum.
pub open spec fn alt_tags(a: Argument) -> Seq<Seq<char>> {
    tagviews(a.vtypes@[0].vtype->VEnum_0@)
}

pub open spec fn td_struct(i: Interface, t: int) -> VStruct {
    i.typedefs@[t].elt->VStruct_0
}

/// An anonymous enum stands at field `f` of typedef `t`.
pub open spec fn td_enum_at(i: Interface, t: int, f: int) -> bool {
    &&& 0 <= t < i.typedefs@.len()
    &&& i.typedefs@[t].elt is VStruct
    &&& 0 <= f < td_struct(i, t).elts@.len()
    &&& first_alt_enum(td_struct(i, t).elts@[f])
}

pub open spec fn td_enum_ctx(i: Interface, t: int, f: int) -> Seq<char> {
    ctx(i.typedefs@[t].name@, td_struct(i, t).elts@[f].name@)
}

/// An anonymous enum stands at output field `f` of method `m`.
pub open spec fn out_enum_at(i: Interface, m: int, f: int) -> bool {
    &&& 0 <= m < i.methods@.len()
    &&& 0 <= f < i.methods@[m].output.elts@.len()
    &&& first_alt_enum(i.methods@[m].output.elts@[f])
}

/// An anonymous enum stands at input field `f` of method `m`.
pub open spec fn in_enum_at(i: Interface, m: int, f: int) -> bool {
    &&& 0 <= m < i.methods@.len()
    &&& 0 <= f < i.methods@[m].input.elts@.len()
    &&& first_alt_enum(i.methods@[m].input.elts@[f])
}

/// A hoisted declaration is a discovery: some field of the interface holds
/// an anonymous enum with exactly these tags under this context name.
pub open spec fn is_discovery(i: Interface, name: Seq<char>, tags: Seq<Seq<char>>) -> bool {
    ||| exists|t: int, f: int|
        #[trigger] td_enum_at(i, t, f) && name == td_enum_ctx(i, t, f) && tags == alt_tags(
            td_struct(i, t).elts@[f],
        )
    ||| exists|m: int, f: int|
        #[trigger] out_enum_at(i, m, f) && name == i.name@ && tags == alt_tags(
            i.methods@[m].output.elts@[f],
        )
    ||| exists|m: int, f: int|
        #[trigger] in_enum_at(i, m, f) && name == i.name@ && tags == alt_tags(
            i.methods@[m].input.elts@[f],
        )
}

fn lc_first(s: &str) -> (r: String)
    ensures
        r@ == lc_first_s(s@),
{
    let n = s.unicode_len();
    if n == 0 {
        let r = String::new();
        proof {
            assert(r@ =~= lc_first_s(s@));
        }
        return r;
    }
    let c = s.get_char(0);
    let u = c as u32;
    let mut r: String;
    if 65 <= u && u <= 90 {
        let lowered: &'static str = if c == 'A' { "a" } else if c == 'B' { "b" }
        else if c == 'C' { "c" } else if c == 'D' { "d" } else if c == 'E' { "e" }
        else if c == 'F' { "f" } else if c == 'G' { "g" } else if c == 'H' { "h" }
        else if c == 'I' { "i" } else if c == 'J' { "j" } else if c == 'K' { "k" }
        else if c == 'L' { "l" } else if c == 'M' { "m" } else if c == 'N' { "n" }
        else if c == 'O' { "o" } else if c == 'P' { "p" } else if c == 'Q' { "q" }
        else if c == 'R' { "r" } else if c == 'S' { "s" } else if c == 'T' { "t" }
        else if c == 'U' { "u" } else if c == 'V' { "v" } else if c == 'W' { "w" }
        else if c == 'X' { "x" } else if c == 'Y' { "y" } else { "z" };
        r = String::from_str(lowered);
        proof {
            reveal_strlit("a"); reveal_strlit("b"); reveal_strlit("c"); reveal_strlit("d");
            reveal_strlit("e"); reveal_strlit("f"); reveal_strlit("g"); reveal_strlit("h");
            reveal_strlit("i"); reveal_strlit("j"); reveal_strlit("k"); reveal_strlit("l");
            reveal_strlit("m"); reveal_strlit("n"); reveal_strlit("o"); reveal_strlit("p");
            reveal_strlit("q"); reveal_strlit("r"); reveal_strlit("s"); reveal_strlit("t");
            reveal_strlit("u"); reveal_strlit("v"); reveal_strlit("w"); reveal_strlit("x");
            reveal_strlit("y"); reveal_strlit("z");
            assert(r@ =~= seq![lc_char(s@[0])]);
        }
    } else {
        r = String::new();
        let head = s.substring_char(0, 1);
        r.append(head);
        proof {
            assert(s@.subrange(0, 1) =~= seq![s@[0]]);
            assert(lc_char(s@[0]) == s@[0]);
            assert(r@ =~= seq![lc_char(s@[0])]);
        }
    }
    let rest = s.substring_char(1, n);
    r.append(rest);
    proof {
        assert(s@.subrange(1, s@.len() as int) =~= s@.drop_first());
        assert(r@ =~= lc_first_s(s@));
    }
    r
}

/// The enum tags of a field's first alternative, when there are any.
fn enum_tags_of(a: &Argument) -> (r: Option<&Vec<String>>)
    ensures
        match r {
            Some(ts) => first_alt_enum(*a) && a.vtypes@[0].vtype == VType::VEnum(*ts),
            None => !first_alt_enum(*a),
        },
{
    if a.vtypes.len() == 0 {
        return None;
    }
    match &a.vtypes[0].vtype {
        VType::VEnum(ts) => Some(ts),
        _ => None,
    }
}

fn copy_tags(v: &Vec<String>) -> (r: Vec<String>)
    ensures
        tagviews(r@) == tagviews(v@),
{
    let mut r: Vec<String> = Vec::new();
    let mut i: usize = 0;
    while i < v.len()
        invariant
            i <= v@.len(),
            r@.len() == i,
            forall|j: int| 0 <= j < i ==> r@[j]@ == v@[j]@,
        decreases v@.len() - i,
    {
        r.push(v[i].clone());
        i = i + 1;
    }
    proof {
        assert(tagviews(r@) =~= tagviews(v@));
    }
    r
}

fn push_vtype_gen(out: &mut String, t: &VType, parent: &str)
    ensures
        final(out)@ == old(out)@ + gen_vtype(*t, parent@),
{
    match t {
        VType::Bool => out.append("bool"),
        VType::Int8 => out.append("i64"),
        VType::UInt8 => out.append("i64"),
        VType::Int16 => out.append("i64"),
        VType::UInt16 => out.append("i64"),
        VType::Int32 => out.append("i64"),
        VType::UInt32 => out.append("i64"),
        VType::Int64 => out.append("i64"),
        VType::UInt64 => out.append("i64"),
        VType::Float32 => out.append("f64"),
        VType::Float64 => out.append("f64"),
        VType::VString => out.append("String"),
        VType::VTypename(s) => out.append(s.as_str()),
        VType::VStruct(_) => out.append(parent),
        VType::VEnum(_) => out.append(parent),
    }
}

fn push_first(out: &mut String, a: &Argument, parent: &str)
    ensures
        final(out)@ == old(out)@ + gen_first(*a, parent@),
{
    if a.vtypes.len() == 0 {
        proof {
            assert(out@ =~= old(out)@ + gen_first(*a, parent@));
        }
        return ;
    }
    let t = &a.vtypes[0];
    if t.isarray.is_some() {
        out.append("Vec<");
        push_vtype_gen(out, &t.vtype, parent);
        out.append(">");
    } else {
        push_vtype_gen(out, &t.vtype, parent);
    }
    proof {
        assert(out@ =~= old(out)@ + gen_first(*a, parent@));
    }
}

fn push_field(out: &mut String, a: &Argument, parent: &str)
    ensures
        final(out)@ == old(out)@ + gen_field(*a, parent@),
{
    out.append("    pub ");
    out.append(a.name.as_str());
    out.append(": Option<");
    push_first(out, a, parent);
    out.append(">,\n");
    proof {
        assert(out@ =~= old(out)@ + gen_field(*a, parent@));
    }
}

fn push_enum_body(out: &mut String, tags: &Vec<String>)
    ensures
        final(out)@ == old(out)@ + enum_body(tags@),
{
    let mut i: usize = 0;
    proof {
        assert(tags@.take(0) =~= Seq::<String>::empty());
    }
    while i < tags.len()
        invariant
            i <= tags@.len(),
            out@ == old(out)@ + enum_body(tags@.take(i as int)),
        decreases tags@.len() - i,
    {
        if i == 0 {
            out.append("    ");
        } else {
            out.append(",\n    ");
        }
        out.append(tags[i].as_str());
        proof {
            let b = tags@.take(i + 1);
            assert(b.drop_last() =~= tags@.take(i as int));
            assert(b.last() == tags@[i as int]);
            assert(out@ =~= old(out)@ + enum_body(b));
        }
        i = i + 1;
    }
    proof {
        assert(tags@.take(tags@.len() as int) =~= tags@);
    }
}

fn ctx_string(tname: &str, fname: &str) -> (r: String)
    ensures
        r@ == ctx(tname@, fname@),
{
    let mut r = String::from_str(tname);
    r.append("_");
    r.append(fname);
    proof {
        assert(r@ =~= ctx(tname@, fname@));
    }
    r
}

/// Records a discovered anonymous enum under its context name; the first
/// discovery of a name is kept.
fn record_enum(decls: &mut Vec<EnumDecl>, name: String, tags: &Vec<String>)
    requires
        sorted_keyed(old(decls)@),
    ensures
        sorted_keyed(final(decls)@),
        key_map(final(decls)@).dom() == key_map(old(decls)@).dom().insert(name@),
        forall|p: int| 0 <= p < final(decls)@.len() ==> (old(decls)@.contains(
            #[trigger] final(decls)@[p],
        ) || (final(decls)@[p].name@ == name@ && tagviews(final(decls)@[p].tags@) == tagviews(
            tags@,
        ))),
{
    proof {
        lemma_key_map_dom(decls@);
    }
    match find_keyed(decls, name.as_str()) {
        Some(_) => {
            proof {
                assert(key_map(decls@).contains_key(name@));
                assert(key_map(decls@).dom() =~= key_map(decls@).dom().insert(name@));
                assert forall|p: int| 0 <= p < decls@.len() implies old(decls)@.contains(
                    #[trigger] decls@[p],
                ) by {}
            }
        },
        None => {
            let d = EnumDecl { name, tags: copy_tags(tags) };
            insert_keyed(decls, d);
            proof {
                assert(key_map(decls@).dom() =~= key_map(old(decls)@).dom().insert(d.name@));
            }
        },
    }
}

/// Emits the typedef declarations and records the anonymous enums found in
/// typedef fields.
#[verifier::loop_isolation(false)]
#[verifier::rlimit(100)]
fn gen_tds_x(out: &mut String, decls: &mut Vec<EnumDecl>, i: &Interface)
    requires
        sorted_keyed(old(decls)@),
        forall|j: int| 0 <= j < old(decls)@.len() ==> is_discovery(
            *i,
            #[trigger] old(decls)@[j].name@,
            tagviews(old(decls)@[j].tags@),
        ),
    ensures
        final(out)@ == old(out)@ + gen_typedefs(i.typedefs@),
        sorted_keyed(final(decls)@),
        forall|j: int| 0 <= j < final(decls)@.len() ==> is_discovery(
            *i,
            #[trigger] final(decls)@[j].name@,
            tagviews(final(decls)@[j].tags@),
        ),
        forall|k: Seq<char>| key_map(old(decls)@).contains_key(k) ==> key_map(
            final(decls)@,
        ).contains_key(k),
        forall|t: int, f: int| #[trigger] td_enum_at(*i, t, f) ==> key_map(
            final(decls)@,
        ).contains_key(td_enum_ctx(*i, t, f)),
{
    let mut t: usize = 0;
    proof {
        assert(i.typedefs@.take(0) =~= Seq::<Typedef>::empty());
        assert(out@ =~= old(out)@ + gen_typedefs(i.typedefs@.take(0)));
    }
    while t < i.typedefs.len()
        invariant
            t <= i.typedefs@.len(),
            out@ == old(out)@ + gen_typedefs(i.typedefs@.take(t as int)),
            sorted_keyed(decls@),
            forall|j: int| 0 <= j < decls@.len() ==> is_discovery(
                *i,
                #[trigger] decls@[j].name@,
                tagviews(decls@[j].tags@),
            ),
            forall|k: Seq<char>| key_map(old(decls)@).contains_key(k) ==> key_map(
                decls@,
            ).contains_key(k),
            forall|t2: int, f2: int|
                #[trigger] td_enum_at(*i, t2, f2) && t2 < t ==> key_map(decls@).contains_key(
                    td_enum_ctx(*i, t2, f2),
                ),
        decreases i.typedefs@.len() - t,
    {
        let td = &i.typedefs[t];
        out.append("#[derive(Serialize, Deserialize, Debug)]\n");
        match &td.elt {
            VStructOrEnum::VStruct(st) => {
                out.append("pub struct ");
                out.append(td.name.as_str());
                out.append(" {\n");
                let ghost mark = out@;
                let mut f: usize = 0;
                proof {
                    assert(st.elts@.take(0) =~= Seq::<Argument>::empty());
                    assert(out@ =~= mark + gen_td_fields(td.name@, st.elts@.take(0)));
                }
                while f < st.elts.len()
                    invariant
                        f <= st.elts@.len(),
                        out@ == mark + gen_td_fields(td.name@, st.elts@.take(f as int)),
                        sorted_keyed(decls@),
                        forall|j: int| 0 <= j < decls@.len() ==> is_discovery(
                            *i,
                            #[trigger] decls@[j].name@,
                            tagviews(decls@[j].tags@),
                        ),
                        forall|k: Seq<char>| key_map(old(decls)@).contains_key(k) ==> key_map(
                            decls@,
                        ).contains_key(k),
                        forall|t2: int, f2: int|
                            #[trigger] td_enum_at(*i, t2, f2) && (t2 < t || (t2 == t && f2 < f))
                                ==> key_map(decls@).contains_key(td_enum_ctx(*i, t2, f2)),
                    decreases st.elts@.len() - f,
                {
                    let a = &st.elts[f];
                    let parent = ctx_string(td.name.as_str(), a.name.as_str());
                    match enum_tags_of(a) {
                        Some(ts) => {
                            let ghost before = decls@;
                            record_enum(decls, parent.clone(), ts);
                            proof {
                                assert(td_enum_at(*i, t as int, f as int));
                                assert(td_enum_ctx(*i, t as int, f as int) == parent@);
                                assert(alt_tags(st.elts@[f as int]) == tagviews(ts@));
                                assert forall|j: int| 0 <= j < decls@.len() implies is_discovery(
                                    *i,
                                    #[trigger] decls@[j].name@,
                                    tagviews(decls@[j].tags@),
                                ) by {
                                    if !before.contains(decls@[j]) {
                                        assert(decls@[j].name@ == parent@);
                                    } else {
                                        let q = choose|q: int|
                                            0 <= q < before.len() && before[q] == decls@[j];
                                    }
                                }
                            }
                        },
                        None => (),
                    }
                    push_field(out, a, parent.as_str());
                    proof {
                        let b = st.elts@.take(f + 1);
                        assert(b.drop_last() =~= st.elts@.take(f as int));
                        assert(b.last() == st.elts@[f as int]);
                        assert(out@ =~= mark + gen_td_fields(td.name@, b));
                    }
                    f = f + 1;
                }
                out.append("}\n\n");
                proof {
                    assert(st.elts@.take(st.elts@.len() as int) =~= st.elts@);
                }
            },
            VStructOrEnum::VEnum(tags) => {
                out.append("pub enum ");
                out.append(td.name.as_str());
                out.append(" {\n");
                push_enum_body(out, tags);
                out.append("\n}\n\n");
            },
        }
        proof {
            let b = i.typedefs@.take(t + 1);
            assert(b.drop_last() =~= i.typedefs@.take(t as int));
            assert(b.last() == i.typedefs@[t as int]);
            assert(out@ =~= old(out)@ + gen_typedefs(b));
            assert forall|t2: int, f2: int|
                #[trigger] td_enum_at(*i, t2, f2) && t2 < t + 1 implies key_map(
                decls@,
            ).contains_key(td_enum_ctx(*i, t2, f2)) by {
                if t2 == t {
                    assert(i.typedefs@[t2].elt is VStruct);
                }
            }
        }
        t = t + 1;
    }
    proof {
        assert(i.typedefs@.take(i.typedefs@.len() as int) =~= i.typedefs@);
    }
}

/// Emits the fields of one method carrier and records the anonymous enums
/// found among them, all under the interface's own context name.
#[verifier::loop_isolation(false)]
#[verifier::rlimit(100)]
fn gen_mfields_x(
    out: &mut String,
    decls: &mut Vec<EnumDecl>,
    i: &Interface,
    elts: &Vec<Argument>,
)
    requires
        sorted_keyed(old(decls)@),
        forall|j: int| 0 <= j < old(decls)@.len() ==> is_discovery(
            *i,
            #[trigger] old(decls)@[j].name@,
            tagviews(old(decls)@[j].tags@),
        ),
        exists|m: int|
            0 <= m < i.methods@.len() && (elts@ == i.methods@[m].output.elts@ || elts@
                == i.methods@[m].input.elts@),
    ensures
        final(out)@ == old(out)@ + gen_fields_fixed(i.name@, elts@),
        sorted_keyed(final(decls)@),
        forall|j: int| 0 <= j < final(decls)@.len() ==> is_discovery(
            *i,
            #[trigger] final(decls)@[j].name@,
            tagviews(final(decls)@[j].tags@),
        ),
        forall|k: Seq<char>| key_map(old(decls)@).contains_key(k) ==> key_map(
            final(decls)@,
        ).contains_key(k),
        (exists|f: int| 0 <= f < elts@.len() && first_alt_enum(#[trigger] elts@[f])) ==> key_map(
            final(decls)@,
        ).contains_key(i.name@),
{
    let ghost m = choose|m: int|
        0 <= m < i.methods@.len() && (elts@ == i.methods@[m].output.elts@ || elts@
            == i.methods@[m].input.elts@);
    let mut f: usize = 0;
    proof {
        assert(elts@.take(0) =~= Seq::<Argument>::empty());
        assert(out@ =~= old(out)@ + gen_fields_fixed(i.name@, elts@.take(0)));
    }
    while f < elts.len()
        invariant
            f <= elts@.len(),
            out@ == old(out)@ + gen_fields_fixed(i.name@, elts@.take(f as int)),
            sorted_keyed(decls@),
            forall|j: int| 0 <= j < decls@.len() ==> is_discovery(
                *i,
                #[trigger] decls@[j].name@,
                tagviews(decls@[j].tags@),
            ),
            forall|k: Seq<char>| key_map(old(decls)@).contains_key(k) ==> key_map(
                decls@,
            ).contains_key(k),
            forall|f2: int|
                0 <= f2 < f && first_alt_enum(#[trigger] elts@[f2]) ==> key_map(
                    decls@,
                ).contains_key(i.name@),
        decreases elts@.len() - f,
    {
        let a = &elts[f];
        match enum_tags_of(a) {
            Some(ts) => {
                let ghost before = decls@;
                record_enum(decls, i.name.clone(), ts);
                proof {
                    if elts@ == i.methods@[m].output.elts@ {
                        assert(out_enum_at(*i, m, f as int));
                        assert(alt_tags(i.methods@[m].output.elts@[f as int]) == tagviews(ts@));
                    } else {
                        assert(in_enum_at(*i, m, f as int));
                        assert(alt_tags(i.methods@[m].input.elts@[f as int]) == tagviews(ts@));
                    }
                    assert forall|j: int| 0 <= j < decls@.len() implies is_discovery(
                        *i,
                        #[trigger] decls@[j].name@,
                        tagviews(decls@[j].tags@),
                    ) by {
                        if !before.contains(decls@[j]) {
                            assert(decls@[j].name@ == i.name@);
                        } else {
                            let q = choose|q: int| 0 <= q < before.len() && before[q] == decls@[j];
                        }
                    }
                }
            },
            None => (),
        }
        push_field(out, a, i.name.as_str());
        proof {
            let b = elts@.take(f + 1);
            assert(b.drop_last() =~= elts@.take(f as int));
            assert(b.last() == elts@[f as int]);
            assert(out@ =~= old(out)@ + gen_fields_fixed(i.name@, b));
        }
        f = f + 1;
    }
    proof {
        assert(elts@.take(elts@.len() as int) =~= elts@);
    }
}

/// Emits the reply and argument carriers of one method, recording the
/// anonymous enums found in their fields.
#[verifier::loop_isolation(false)]
#[verifier::rlimit(100)]
fn gen_one_carrier_x(out: &mut String, decls: &mut Vec<EnumDecl>, i: &Interface, md: &Method)
    requires
        sorted_keyed(old(decls)@),
        forall|j: int| 0 <= j < old(decls)@.len() ==> is_discovery(
            *i,
            #[trigger] old(decls)@[j].name@,
            tagviews(old(decls)@[j].tags@),
        ),
        exists|m: int| 0 <= m < i.methods@.len() && i.methods@[m] == *md,
    ensures
        final(out)@ == old(out)@ + gen_carrier(i.name@, *md),
        sorted_keyed(final(decls)@),
        forall|j: int| 0 <= j < final(decls)@.len() ==> is_discovery(
            *i,
            #[trigger] final(decls)@[j].name@,
            tagviews(final(decls)@[j].tags@),
        ),
        forall|k: Seq<char>| key_map(old(decls)@).contains_key(k) ==> key_map(
            final(decls)@,
        ).contains_key(k),
        (exists|f: int|
            0 <= f < md.output.elts@.len() && first_alt_enum(#[trigger] md.output.elts@[f]))
            ==> key_map(final(decls)@).contains_key(i.name@),
        (exists|f: int|
            0 <= f < md.input.elts@.len() && first_alt_enum(#[trigger] md.input.elts@[f]))
            ==> key_map(final(decls)@).contains_key(i.name@),
{
    let ghost m = choose|m: int| 0 <= m < i.methods@.len() && i.methods@[m] == *md;
    if md.output.len_gt_zero() {
        out.append("#[derive(Serialize, Deserialize, Debug)]\n");
        out.append("pub struct ");
        out.append(md.name.as_str());
        out.append("Reply {\n");
        proof {
            assert(0 <= m < i.methods@.len() && md.output.elts@
                == i.methods@[m].output.elts@);
        }
        gen_mfields_x(out, decls, i, &md.output.elts);
        out.append("}\n\n");
    }
    let ghost half = decls@;
    if md.input.len_gt_zero() {
        out.append("#[derive(Serialize, Deserialize, Debug)]\n");
        out.append("pub struct ");
        out.append(md.name.as_str());
        out.append("Args {\n");
        proof {
            assert(0 <= m < i.methods@.len() && md.input.elts@
                == i.methods@[m].input.elts@);
        }
        gen_mfields_x(out, decls, i, &md.input.elts);
        out.append("}\n\n");
    }
    proof {
        assert(out@ =~= old(out)@ + gen_carrier(i.name@, *md));
        if exists|f: int|
            0 <= f < md.output.elts@.len() && first_alt_enum(#[trigger] md.output.elts@[f]) {
            assert(key_map(half).contains_key(i.name@));
            assert(key_map(decls@).contains_key(i.name@));
        }
    }
}

/// Emits the reply and argument carriers of every method, recording the
/// anonymous enums found in their fields.
#[verifier::loop_isolation(false)]
#[verifier::rlimit(100)]
fn gen_carriers_x(out: &mut String, decls: &mut Vec<EnumDecl>, i: &Interface)
    requires
        sorted_keyed(old(decls)@),
        forall|j: int| 0 <= j < old(decls)@.len() ==> is_discovery(
            *i,
            #[trigger] old(decls)@[j].name@,
            tagviews(old(decls)@[j].tags@),
        ),
    ensures
        final(out)@ == old(out)@ + gen_carriers(i.name@, i.methods@),
        sorted_keyed(final(decls)@),
        forall|j: int| 0 <= j < final(decls)@.len() ==> is_discovery(
            *i,
            #[trigger] final(decls)@[j].name@,
            tagviews(final(decls)@[j].tags@),
        ),
        forall|k: Seq<char>| key_map(old(decls)@).contains_key(k) ==> key_map(
            final(decls)@,
        ).contains_key(k),
        forall|m: int, f: int| #[trigger] out_enum_at(*i, m, f) ==> key_map(
            final(decls)@,
        ).contains_key(i.name@),
        forall|m: int, f: int| #[trigger] in_enum_at(*i, m, f) ==> key_map(
            final(decls)@,
        ).contains_key(i.name@),
{
    let mut m: usize = 0;
    proof {
        assert(i.methods@.take(0) =~= Seq::<Method>::empty());
        assert(out@ =~= old(out)@ + gen_carriers(i.name@, i.methods@.take(0)));
    }
    while m < i.methods.len()
        invariant
            m <= i.methods@.len(),
            out@ == old(out)@ + gen_carriers(i.name@, i.methods@.take(m as int)),
            sorted_keyed(decls@),
            forall|j: int| 0 <= j < decls@.len() ==> is_discovery(
                *i,
                #[trigger] decls@[j].name@,
                tagviews(decls@[j].tags@),
            ),
            forall|k: Seq<char>| key_map(old(decls)@).contains_key(k) ==> key_map(
                decls@,
            ).contains_key(k),
            forall|m2: int, f2: int|
                #[trigger] out_enum_at(*i, m2, f2) && m2 < m ==> key_map(decls@).contains_key(
                    i.name@,
                ),
            forall|m2: int, f2: int|
                #[trigger] in_enum_at(*i, m2, f2) && m2 < m ==> key_map(decls@).contains_key(
                    i.name@,
                ),
        decreases i.methods@.len() - m,
    {
        let md = &i.methods[m];
        proof {
            assert(0 <= m < i.methods@.len() && i.methods@[m as int] == *md);
        }
        gen_one_carrier_x(out, decls, i, md);
        proof {
            let b = i.methods@.take(m + 1);
            assert(b.drop_last() =~= i.methods@.take(m as int));
            assert(b.last() == i.methods@[m as int]);
            assert(out@ =~= old(out)@ + gen_carriers(i.name@, b));
            assert forall|m2: int, f2: int|
                #[trigger] out_enum_at(*i, m2, f2) && m2 < m + 1 implies key_map(
                decls@,
            ).contains_key(i.name@) by {
                if m2 == m {
                    assert(first_alt_enum(i.methods@[m as int].output.elts@[f2]));
                }
            }
            assert forall|m2: int, f2: int|
                #[trigger] in_enum_at(*i, m2, f2) && m2 < m + 1 implies key_map(
                decls@,
            ).contains_key(i.name@) by {
                if m2 == m {
                    assert(first_alt_enum(i.methods@[m as int].input.elts@[f2]));
                }
            }
        }
        m = m + 1;
    }
    proof {
        assert(i.methods@.take(i.methods@.len() as int) =~= i.methods@);
    }
}

/// Emits the hoisted enum declarations in the order they are held.
fn push_enums(out: &mut String, ds: &Vec<EnumDecl>)
    ensures
        final(out)@ == old(out)@ + gen_enums(ds@),
{
    let mut d: usize = 0;
    proof {
        assert(ds@.take(0) =~= Seq::<EnumDecl>::empty());
        assert(out@ =~= old(out)@ + gen_enums(ds@.take(0)));
    }
    while d < ds.len()
        invariant
            d <= ds@.len(),
            out@ == old(out)@ + gen_enums(ds@.take(d as int)),
        decreases ds@.len() - d,
    {
        let e = &ds[d];
        out.append("pub enum ");
        out.append(e.name.as_str());
        out.append(" {\n");
        push_enum_body(out, &e.tags);
        out.append("\n}\n\n");
        proof {
            let b = ds@.take(d + 1);
            assert(b.drop_last() =~= ds@.take(d as int));
            assert(b.last() == ds@[d as int]);
            assert(out@ =~= old(out)@ + gen_enums(b));
        }
        d = d + 1;
    }
    proof {
        assert(ds@.take(ds@.len() as int) =~= ds@);
    }
}

/// Emits the trait declaration with one signature per method.
#[verifier::rlimit(100)]
fn push_trait(out: &mut String, i: &Interface)
    ensures
        final(out)@ == old(out)@ + gen_trait(i.name@, i.methods@),
{
    out.append("pub trait Interface: VarlinkInterface {\n");
    let ghost head = old(out)@ + "pub trait Interface: VarlinkInterface {\n"@;
    let mut m: usize = 0;
    proof {
        assert(i.methods@.take(0) =~= Seq::<Method>::empty());
        assert(out@ =~= head + gen_sigs(i.name@, i.methods@.take(0)));
    }
    while m < i.methods.len()
        invariant
            m <= i.methods@.len(),
            head == old(out)@ + "pub trait Interface: VarlinkInterface {\n"@,
            out@ == head + gen_sigs(i.name@, i.methods@.take(m as int)),
        decreases i.methods@.len() - m,
    {
        let md = &i.methods[m];
        out.append("    fn ");
        let fname = lc_first(md.name.as_str());
        out.append(fname.as_str());
        out.append("(&self");
        let ghost mark = out@;
        let mut f: usize = 0;
        proof {
            assert(md.input.elts@.take(0) =~= Seq::<Argument>::empty());
            assert(out@ =~= mark + gen_params(i.name@, md.input.elts@.take(0)));
        }
        while f < md.input.elts.len()
            invariant
                f <= md.input.elts@.len(),
                out@ == mark + gen_params(i.name@, md.input.elts@.take(f as int)),
                mark == head + gen_sigs(i.name@, i.methods@.take(m as int)) + "    fn "@
                    + lc_first_s(i.methods@[m as int].name@) + "(&self"@,
                m < i.methods@.len(),
                md == i.methods@[m as int],
            decreases md.input.elts@.len() - f,
        {
            let a = &md.input.elts[f];
            out.append(", ");
            out.append(a.name.as_str());
            out.append(" : ");
            push_first(out, a, i.name.as_str());
            proof {
                let b = md.input.elts@.take(f + 1);
                assert(b.drop_last() =~= md.input.elts@.take(f as int));
                assert(b.last() == md.input.elts@[f as int]);
                assert(out@ =~= mark + gen_params(i.name@, b));
            }
            f = f + 1;
        }
        proof {
            assert(md.input.elts@.take(md.input.elts@.len() as int) =~= md.input.elts@);
        }
        out.append(") -> Result<");
        if md.output.len_gt_zero() {
            out.append(md.name.as_str());
            out.append("Reply");
        } else {
            out.append("()");
        }
        out.append(", Error>;\n");
        proof {
            let b = i.methods@.take(m + 1);
            assert(b.drop_last() =~= i.methods@.take(m as int));
            assert(b.last() == i.methods@[m as int]);
            assert(out@ =~= head + gen_sigs(i.name@, b));
        }
        m = m + 1;
    }
    proof {
        assert(i.methods@.take(i.methods@.len() as int) =~= i.methods@);
    }
    out.append("}\n\n");
    proof {
        assert(out@ =~= old(out)@ + gen_trait(i.name@, i.methods@));
    }
}

impl Interface {
    /// The generated bindings: one declaration per typedef, the reply and
    /// argument carriers of each method, every hoisted anonymous enum
    /// (sorted by context name; each one is a discovery made in some
    /// field, and every context discovered anywhere is hoisted), and the
    /// trait of method signatures. Anonymous enums never render inline: a
    /// field's type text is only the context name.
    pub fn to_rust(&self) -> (r: String)
        ensures
            exists|ds: Seq<EnumDecl>|
                #![trigger gen_enums(ds)]
                {
                    &&& sorted_keyed(ds)
                    &&& forall|j: int| 0 <= j < ds.len() ==> is_discovery(
                        *self,
                        #[trigger] ds[j].name@,
                        tagviews(ds[j].tags@),
                    )
                    &&& forall|t: int, f: int| #[trigger] td_enum_at(*self, t, f) ==> key_map(
                        ds,
                    ).contains_key(td_enum_ctx(*self, t, f))
                    &&& forall|m: int, f: int| #[trigger] out_enum_at(*self, m, f) ==> key_map(
                        ds,
                    ).contains_key(self.name@)
                    &&& forall|m: int, f: int| #[trigger] in_enum_at(*self, m, f) ==> key_map(
                        ds,
                    ).contains_key(self.name@)
                    &&& r@ == gen_typedefs(self.typedefs@) + gen_carriers(
                        self.name@,
                        self.methods@,
                    ) + gen_enums(ds) + gen_trait(self.name@, self.methods@)
                },
    {
        let mut out = String::new();
        let mut decls: Vec<EnumDecl> = Vec::new();
        gen_tds_x(&mut out, &mut decls, self);
        gen_carriers_x(&mut out, &mut decls, self);
        let ghost mid = decls@;
        push_enums(&mut out, &decls);
        push_trait(&mut out, self);
        proof {
            let ds = decls@;
            assert forall|t: int, f: int| #[trigger] td_enum_at(*self, t, f) implies key_map(
                ds,
            ).contains_key(td_enum_ctx(*self, t, f)) by {}
            assert(out@ =~= gen_typedefs(self.typedefs@) + gen_carriers(self.name@, self.methods@)
                + gen_enums(ds) + gen_trait(self.name@, self.methods@));
        }
        out
    }
}

impl VStruct {
    /// Whether the struct has any field.
    pub fn len_gt_zero(&self) -> (r: bool)
        ensures
            r == (self.elts@.len() > 0),
    {
        self.elts.len() > 0
    }
}

} // verus!
