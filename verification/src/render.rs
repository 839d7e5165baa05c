//! The canonical serializer: renders an interface back into the surface
//! syntax, typedefs first and methods second, each group in name-sorted
//! order when the interface was assembled by `Interface::from_token`.

use vstd::prelude::*;
use crate::ast::{Argument, ArraySize, Interface, Method, Typedef, VStruct, VStructOrEnum, VType,
    VTypeExt};
use crate::keyed::Keyed;
use crate::text::{dec_str, u64_dec};

verus! {

/// The rendering of a base type.
pub open spec fn rs_vtype(t: VType) -> Seq<char>
    decreases t,
{
    match t {
        VType::Bool => "bool"@,
        VType::Int8 => "int8"@,
        VType::UInt8 => "uint8"@,
        VType::Int16 => "int16"@,
        VType::UInt16 => "uint16"@,
        VType::Int32 => "int32"@,
        VType::UInt32 => "uint32"@,
        VType::Int64 => "int64"@,
        VType::UInt64 => "uint64"@,
        VType::Float32 => "float32"@,
        VType::Float64 => "float64"@,
        VType::VString => "string"@,
        VType::VTypename(s) => s@,
        VType::VStruct(b) => rs_vstruct(*b),
        VType::VEnum(tags) => rs_tags(tags@),
    }
}

/// The tags of an enum in declaration order, separated by `", "`.
pub open spec fn rs_tags_inner(tags: Seq<String>) -> Seq<char>
    decreases tags.len(),
{
    if tags.len() == 0 {
        Seq::<char>::empty()
    } else if tags.len() == 1 {
        tags[0]@
    } else {
        rs_tags_inner(tags.drop_last()) + ", "@ + tags.last()@
    }
}

/// The rendering of an enum tag list: the tags in declaration order,
/// comma-separated, parenthesized.
pub open spec fn rs_tags(tags: Seq<String>) -> Seq<char> {
    "("@ + rs_tags_inner(tags) + ")"@
}

/// The rendering of a type with its modifiers: the array suffix first,
/// then the optional marker.
pub open spec fn rs_vtypeext(t: VTypeExt) -> Seq<char>
    decreases t,
{
    rs_vtype(t.vtype) + (match t.isarray {
        Option::None => Seq::<char>::empty(),
        Option::Some(ArraySize::Unbounded) => "[]"@,
        Option::Some(ArraySize::Fixed(n)) => "["@ + dec_str(n as nat) + "]"@,
    }) + (if t.nullable {
        "?"@
    } else {
        Seq::<char>::empty()
    })
}

/// The rendering of the alternatives of a field, separated by `" | "`.
pub open spec fn rs_alts(alts: Seq<VTypeExt>) -> Seq<char>
    decreases alts,
{
    if alts.len() == 0 {
        Seq::<char>::empty()
    } else if alts.len() == 1 {
        rs_vtypeext(alts[0])
    } else {
        rs_alts(alts.drop_last()) + " | "@ + rs_vtypeext(alts.last())
    }
}

/// The rendering of a field. A field without alternatives renders as
/// nothing at all; assembled fields always have at least one.
pub open spec fn rs_arg(a: Argument) -> Seq<char>
    decreases a,
{
    if a.vtypes@.len() == 0 {
        Seq::<char>::empty()
    } else {
        a.name@ + ": "@ + rs_alts(a.vtypes@)
    }
}

/// The rendering of the fields of a struct, separated by `", "`.
pub open spec fn rs_args(args: Seq<Argument>) -> Seq<char>
    decreases args,
{
    if args.len() == 0 {
        Seq::<char>::empty()
    } else if args.len() == 1 {
        rs_arg(args[0])
    } else {
        rs_args(args.drop_last()) + ", "@ + rs_arg(args.last())
    }
}

/// The rendering of a struct: its fields in declaration order,
/// parenthesized.
pub open spec fn rs_vstruct(s: VStruct) -> Seq<char>
    decreases s,
{
    "("@ + rs_args(s.elts@) + ")"@
}

/// The rendering of a typedef body.
pub open spec fn rs_elt(e: VStructOrEnum) -> Seq<char> {
    match e {
        VStructOrEnum::VStruct(s) => rs_vstruct(s),
        VStructOrEnum::VEnum(tags) => rs_tags(tags@),
    }
}

/// The rendering of one typedef line.
pub open spec fn rs_typedef(t: Typedef) -> Seq<char> {
    "  type "@ + t.name@ + " "@ + rs_elt(t.elt) + ";\n"@
}

/// The rendering of one method line; a streaming method uses `=>`.
pub open spec fn rs_method(m: Method) -> Seq<char> {
    "  "@ + m.name@ + rs_vstruct(m.input) + (if m.stream {
        " => "@
    } else {
        " -> "@
    }) + rs_vstruct(m.output) + ";\n"@
}

/// The typedef lines, in the order the interface holds them.
pub open spec fn rs_typedefs(ts: Seq<Typedef>) -> Seq<char>
    decreases ts.len(),
{
    if ts.len() == 0 {
        Seq::<char>::empty()
    } else {
        rs_typedefs(ts.drop_last()) + rs_typedef(ts.last())
    }
}

/// The method lines, in the order the interface holds them.
pub open spec fn rs_methods(ms: Seq<Method>) -> Seq<char>
    decreases ms.len(),
{
    if ms.len() == 0 {
        Seq::<char>::empty()
    } else {
        rs_methods(ms.drop_last()) + rs_method(ms.last())
    }
}

/// The canonical rendering of a whole interface: its name, every typedef
/// line, every method line, in the interface's own member order.
pub open spec fn rs_interface(i: Interface) -> Seq<char> {
    i.name@ + " {\n"@ + rs_typedefs(i.typedefs@) + rs_methods(i.methods@) + "}\n"@
}

fn push_vtype(out: &mut String, t: &VType)
    ensures
        final(out)@ == old(out)@ + rs_vtype(*t),
    decreases *t,
{
    match t {
        VType::Bool => out.append("bool"),
        VType::Int8 => out.append("int8"),
        VType::UInt8 => out.append("uint8"),
        VType::Int16 => out.append("int16"),
        VType::UInt16 => out.append("uint16"),
        VType::Int32 => out.append("int32"),
        VType::UInt32 => out.append("uint32"),
        VType::Int64 => out.append("int64"),
        VType::UInt64 => out.append("uint64"),
        VType::Float32 => out.append("float32"),
        VType::Float64 => out.append("float64"),
        VType::VString => out.append("string"),
        VType::VTypename(s) => out.append(s.as_str()),
        VType::VStruct(b) => push_vstruct(out, b),
        VType::VEnum(tags) => push_tags(out, tags),
    }
}

fn push_tags(out: &mut String, tags: &Vec<String>)
    ensures
        final(out)@ == old(out)@ + rs_tags(tags@),
{
    out.append("(");
    let mut i: usize = 0;
    proof {
        assert(tags@.take(0) =~= Seq::<String>::empty());
        assert(out@ =~= old(out)@ + "("@ + rs_tags_inner(tags@.take(0)));
    }
    while i < tags.len()
        invariant
            i <= tags@.len(),
            out@ == old(out)@ + "("@ + rs_tags_inner(tags@.take(i as int)),
        decreases tags@.len() - i,
    {
        if i > 0 {
            out.append(", ");
        }
        out.append(tags[i].as_str());
        proof {
            let b = tags@.take(i + 1);
            assert(b.drop_last() =~= tags@.take(i as int));
            assert(b.last() == tags@[i as int]);
            assert(out@ =~= old(out)@ + "("@ + rs_tags_inner(b));
        }
        i = i + 1;
    }
    out.append(")");
    proof {
        assert(tags@.take(tags@.len() as int) =~= tags@);
        assert(out@ =~= old(out)@ + rs_tags(tags@));
    }
}

fn push_vtypeext(out: &mut String, t: &VTypeExt)
    ensures
        final(out)@ == old(out)@ + rs_vtypeext(*t),
    decreases *t,
{
    push_vtype(out, &t.vtype);
    match &t.isarray {
        Option::None => (),
        Option::Some(ArraySize::Unbounded) => out.append("[]"),
        Option::Some(ArraySize::Fixed(n)) => {
            out.append("[");
            let d = u64_dec(*n);
            out.append(d.as_str());
            out.append("]");
        },
    }
    if t.nullable {
        out.append("?");
    }
    proof {
        assert(out@ =~= old(out)@ + rs_vtypeext(*t));
    }
}

fn push_argument(out: &mut String, a: &Argument)
    ensures
        final(out)@ == old(out)@ + rs_arg(*a),
    decreases *a,
{
    if a.vtypes.len() == 0 {
        return ;
    }
    out.append(a.name.as_str());
    out.append(": ");
    let mut i: usize = 0;
    proof {
        assert(a.vtypes@.take(0) =~= Seq::<VTypeExt>::empty());
        assert(out@ =~= old(out)@ + a.name@ + ": "@ + rs_alts(a.vtypes@.take(0)));
    }
    while i < a.vtypes.len()
        invariant
            i <= a.vtypes@.len(),
            out@ == old(out)@ + a.name@ + ": "@ + rs_alts(a.vtypes@.take(i as int)),
        decreases a.vtypes@.len() - i,
    {
        if i > 0 {
            out.append(" | ");
        }
        push_vtypeext(out, &a.vtypes[i]);
        proof {
            let b = a.vtypes@.take(i + 1);
            assert(b.drop_last() =~= a.vtypes@.take(i as int));
            assert(b.last() == a.vtypes@[i as int]);
            assert(out@ =~= old(out)@ + a.name@ + ": "@ + rs_alts(b));
        }
        i = i + 1;
    }
    proof {
        assert(a.vtypes@.take(a.vtypes@.len() as int) =~= a.vtypes@);
        assert(out@ =~= old(out)@ + rs_arg(*a));
    }
}

fn push_vstruct(out: &mut String, s: &VStruct)
    ensures
        final(out)@ == old(out)@ + rs_vstruct(*s),
    decreases *s,
{
    out.append("(");
    let mut i: usize = 0;
    proof {
        assert(s.elts@.take(0) =~= Seq::<Argument>::empty());
        assert(out@ =~= old(out)@ + "("@ + rs_args(s.elts@.take(0)));
    }
    while i < s.elts.len()
        invariant
            i <= s.elts@.len(),
            out@ == old(out)@ + "("@ + rs_args(s.elts@.take(i as int)),
        decreases s.elts@.len() - i,
    {
        if i > 0 {
            out.append(", ");
        }
        push_argument(out, &s.elts[i]);
        proof {
            let b = s.elts@.take(i + 1);
            assert(b.drop_last() =~= s.elts@.take(i as int));
            assert(b.last() == s.elts@[i as int]);
            assert(out@ =~= old(out)@ + "("@ + rs_args(b));
        }
        i = i + 1;
    }
    out.append(")");
    proof {
        assert(s.elts@.take(s.elts@.len() as int) =~= s.elts@);
        assert(out@ =~= old(out)@ + rs_vstruct(*s));
    }
}

impl VType {
    /// The surface-syntax text of this base type.
    pub fn to_text(&self) -> (r: String)
        ensures
            r@ == rs_vtype(*self),
    {
        let mut out = String::new();
        push_vtype(&mut out, self);
        out
    }
}

impl VTypeExt {
    /// The surface-syntax text of this type with its modifiers.
    pub fn to_text(&self) -> (r: String)
        ensures
            r@ == rs_vtypeext(*self),
    {
        let mut out = String::new();
        push_vtypeext(&mut out, self);
        out
    }
}

impl Argument {
    /// The surface-syntax text of this field.
    pub fn to_text(&self) -> (r: String)
        ensures
            r@ == rs_arg(*self),
    {
        let mut out = String::new();
        push_argument(&mut out, self);
        out
    }
}

impl VStruct {
    /// The surface-syntax text of this struct.
    pub fn to_text(&self) -> (r: String)
        ensures
            r@ == rs_vstruct(*self),
    {
        let mut out = String::new();
        push_vstruct(&mut out, self);
        out
    }
}

fn push_typedef(out: &mut String, t: &Typedef)
    ensures
        final(out)@ == old(out)@ + rs_typedef(*t),
{
    out.append("  type ");
    out.append(t.name.as_str());
    out.append(" ");
    match &t.elt {
        VStructOrEnum::VStruct(s) => push_vstruct(out, s),
        VStructOrEnum::VEnum(tags) => push_tags(out, tags),
    }
    out.append(";\n");
    proof {
        assert(out@ =~= old(out)@ + rs_typedef(*t));
    }
}

fn push_method(out: &mut String, m: &Method)
    ensures
        final(out)@ == old(out)@ + rs_method(*m),
{
    out.append("  ");
    out.append(m.name.as_str());
    push_vstruct(out, &m.input);
    if m.stream {
        out.append(" => ");
    } else {
        out.append(" -> ");
    }
    push_vstruct(out, &m.output);
    out.append(";\n");
    proof {
        assert(out@ =~= old(out)@ + rs_method(*m));
    }
}

impl Interface {
    /// The canonical rendering of the interface: typedefs first, then
    /// methods, each in the order the interface holds them — name-sorted,
    /// for an interface assembled by `Interface::from_token`.
    pub fn to_text(&self) -> (r: String)
        ensures
            r@ == rs_interface(*self),
    {
        let mut out = String::new();
        out.append(self.name.as_str());
        out.append(" {\n");
        let mut i: usize = 0;
        proof {
            assert(self.typedefs@.take(0) =~= Seq::<Typedef>::empty());
            assert(out@ =~= self.name@ + " {\n"@ + rs_typedefs(self.typedefs@.take(0)));
        }
        while i < self.typedefs.len()
            invariant
                i <= self.typedefs@.len(),
                out@ == self.name@ + " {\n"@ + rs_typedefs(self.typedefs@.take(i as int)),
            decreases self.typedefs@.len() - i,
        {
            push_typedef(&mut out, &self.typedefs[i]);
            proof {
                let b = self.typedefs@.take(i + 1);
                assert(b.drop_last() =~= self.typedefs@.take(i as int));
                assert(b.last() == self.typedefs@[i as int]);
                assert(out@ =~= self.name@ + " {\n"@ + rs_typedefs(b));
            }
            i = i + 1;
        }
        proof {
            assert(self.typedefs@.take(self.typedefs@.len() as int) =~= self.typedefs@);
        }
        let ghost mid = out@;
        let mut j: usize = 0;
        proof {
            assert(self.methods@.take(0) =~= Seq::<Method>::empty());
            assert(out@ =~= mid + rs_methods(self.methods@.take(0)));
        }
        while j < self.methods.len()
            invariant
                j <= self.methods@.len(),
                out@ == mid + rs_methods(self.methods@.take(j as int)),
                mid == self.name@ + " {\n"@ + rs_typedefs(self.typedefs@),
            decreases self.methods@.len() - j,
        {
            push_method(&mut out, &self.methods[j]);
            proof {
                let b = self.methods@.take(j + 1);
                assert(b.drop_last() =~= self.methods@.take(j as int));
                assert(b.last() == self.methods@[j as int]);
                assert(out@ =~= mid + rs_methods(b));
            }
            j = j + 1;
        }
        proof {
            assert(self.methods@.take(self.methods@.len() as int) =~= self.methods@);
        }
        out.append("}\n");
        proof {
            assert(out@ =~= rs_interface(*self));
        }
        out
    }
}

/// Law: typedefs and methods render in name-sorted order regardless of
/// their declaration order. `Interface::from_token` returns a well-formed
/// interface for members given in any order, `rs_interface` lists members
/// exactly in the order the interface holds them, and in a well-formed
/// interface any two held members stand in strict name order.
pub proof fn lemma_sorted_render_order(i: Interface, p: int, q: int)
    requires
        crate::ast::iface_wf(i),
    ensures
        0 <= p < q < i.typedefs@.len() ==> crate::text::lex_lt(
            i.typedefs@[p].name@,
            i.typedefs@[q].name@,
        ),
        0 <= p < q < i.methods@.len() ==> crate::text::lex_lt(
            i.methods@[p].name@,
            i.methods@[q].name@,
        ),
{
    if 0 <= p < q < i.typedefs@.len() {
        assert(crate::text::lex_lt(i.typedefs@[p].skey(), i.typedefs@[q].skey()));
    }
    if 0 <= p < q < i.methods@.len() {
        assert(crate::text::lex_lt(i.methods@[p].skey(), i.methods@[q].skey()));
    }
}

} // verus!
