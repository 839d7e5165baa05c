//! The abstract syntax tree of the interface-definition language: type
//! expressions, fields, structs, typedefs, methods, interfaces, and the
//! document that collects the interfaces of one source buffer.

use vstd::prelude::*;
use crate::keyed::{Keyed, sorted_keyed};
use crate::text::sorted_strs;

verus! {

/// A base type: a scalar, a reference to a named typedef, an anonymous
/// struct, or an anonymous enum given by its tags.
pub enum VType {
    Bool,
    Int8,
    UInt8,
    Int16,
    UInt16,
    Int32,
    UInt32,
    Int64,
    UInt64,
    Float32,
    Float64,
    VString,
    VTypename(String),
    VStruct(Box<VStruct>),
    VEnum(Vec<String>),
}

/// The bound of an array suffix: `[]` leaves it open, `[n]` fixes it.
pub enum ArraySize {
    Unbounded,
    Fixed(u64),
}

/// A base type with its modifiers. The array suffix precedes the optional
/// marker in the surface syntax.
pub struct VTypeExt {
    pub vtype: VType,
    pub nullable: bool,
    pub isarray: Option<ArraySize>,
}

/// A named field. Ordinary fields have one alternative; a union field
/// lists several, of which a value must match exactly one.
pub struct Argument {
    pub name: String,
    pub vtypes: Vec<VTypeExt>,
}

/// An ordered sequence of fields, in surface-syntax order.
pub struct VStruct {
    pub elts: Vec<Argument>,
}

/// The body of a typedef: a struct or an enum tag list.
pub enum VStructOrEnum {
    VStruct(VStruct),
    VEnum(Vec<String>),
}

/// A named, reusable type declaration scoped to one interface.
pub struct Typedef {
    pub name: String,
    pub elt: VStructOrEnum,
}

/// A method signature: input and output structs, and whether the call
/// streams multiple replies.
pub struct Method {
    pub name: String,
    pub input: VStruct,
    pub output: VStruct,
    pub stream: bool,
}

/// One member of an interface block, in declaration order.
pub enum MethodOrTypedef {
    Typedef(Typedef),
    Method(Method),
}

/// A named collection of typedefs and methods, each sorted strictly by
/// name, with the semantic errors recorded while assembling it.
pub struct Interface {
    pub name: String,
    pub typedefs: Vec<Typedef>,
    pub methods: Vec<Method>,
    pub error: Vec<String>,
}

/// A parsed document: its interfaces, sorted strictly by name.
pub struct Varlink {
    pub interfaces: Vec<Interface>,
}

impl Keyed for Typedef {
    open spec fn skey(&self) -> Seq<char> {
        self.name@
    }

    fn key_ref(&self) -> (r: &str) {
        self.name.as_str()
    }
}

impl Keyed for Method {
    open spec fn skey(&self) -> Seq<char> {
        self.name@
    }

    fn key_ref(&self) -> (r: &str) {
        self.name.as_str()
    }
}

impl Keyed for Interface {
    open spec fn skey(&self) -> Seq<char> {
        self.name@
    }

    fn key_ref(&self) -> (r: &str) {
        self.name.as_str()
    }
}

/// Well-formedness of an assembled interface: members and errors are held
/// strictly sorted, so rendering and reporting are deterministic.
pub open spec fn iface_wf(i: Interface) -> bool {
    &&& sorted_keyed(i.typedefs@)
    &&& sorted_keyed(i.methods@)
    &&& sorted_strs(i.error@)
}

/// Well-formedness of a document: interfaces sorted strictly by name and
/// each interface well formed.
pub open spec fn doc_wf(v: Varlink) -> bool {
    &&& sorted_keyed(v.interfaces@)
    &&& forall|i: int| 0 <= i < v.interfaces@.len() ==> iface_wf(v.interfaces@[i])
}

impl Interface {
    /// Looks a method up by name.
    pub fn get_method(&self, name: &str) -> (r: Option<&Method>)
        ensures
            match r {
                Some(m) => exists|i: int|
                    0 <= i < self.methods@.len() && self.methods@[i] == *m && m.name@ == name@,
                None => forall|i: int| 0 <= i < self.methods@.len()
                    ==> self.methods@[i].name@ != name@,
            },
    {
        match crate::keyed::find_keyed(&self.methods, name) {
            Some(i) => Some(&self.methods[i]),
            None => None,
        }
    }

    /// Looks a typedef up by name.
    pub fn get_typedef(&self, name: &str) -> (r: Option<&Typedef>)
        ensures
            match r {
                Some(t) => exists|i: int|
                    0 <= i < self.typedefs@.len() && self.typedefs@[i] == *t && t.name@ == name@,
                None => forall|i: int| 0 <= i < self.typedefs@.len()
                    ==> self.typedefs@[i].name@ != name@,
            },
    {
        match crate::keyed::find_keyed(&self.typedefs, name) {
            Some(i) => Some(&self.typedefs[i]),
            None => None,
        }
    }
}

impl Varlink {
    /// Looks an interface up by name.
    pub fn get_interface(&self, name: &str) -> (r: Option<&Interface>)
        ensures
            match r {
                Some(f) => exists|i: int|
                    0 <= i < self.interfaces@.len() && self.interfaces@[i] == *f
                        && f.name@ == name@,
                None => forall|i: int| 0 <= i < self.interfaces@.len()
                    ==> self.interfaces@[i].name@ != name@,
            },
    {
        match crate::keyed::find_keyed(&self.interfaces, name) {
            Some(i) => Some(&self.interfaces[i]),
            None => None,
        }
    }
}

} // verus!
