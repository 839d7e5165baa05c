use varlink::ast::{
    Argument, ArraySize, Interface, Method, MethodOrTypedef, Typedef, VStruct, VStructOrEnum,
    VType, VTypeExt, Varlink,
};

fn empty_struct() -> VStruct {
    VStruct { elts: Vec::new() }
}

fn typedef(name: &str) -> MethodOrTypedef {
    MethodOrTypedef::Typedef(Typedef {
        name: name.to_string(),
        elt: VStructOrEnum::VStruct(empty_struct()),
    })
}

fn method(name: &str) -> MethodOrTypedef {
    MethodOrTypedef::Method(Method {
        name: name.to_string(),
        input: empty_struct(),
        output: empty_struct(),
        stream: false,
    })
}

/// Assembling members keeps the first definition of a name, sorts both
/// maps, and records one message per collision.
#[test]
fn from_token_duplicates() {
    let i = Interface::from_token(
        "foo.bar".to_string(),
        vec![
            typedef("Zeta"),
            typedef("Alpha"),
            typedef("Zeta"),
            method("Walk"),
            method("Crawl"),
            method("Walk"),
        ],
    );
    let names: Vec<&str> = i.typedefs.iter().map(|t| t.name.as_str()).collect();
    assert_eq!(names, ["Alpha", "Zeta"]);
    let mnames: Vec<&str> = i.methods.iter().map(|m| m.name.as_str()).collect();
    assert_eq!(mnames, ["Crawl", "Walk"]);
    assert_eq!(
        i.error,
        [
            "Interface `foo.bar´: multiple definitions of type `Walk´!",
            "Interface `foo.bar´: multiple definitions of type `Zeta´!",
        ]
    );
}

/// An interface without methods records exactly the no-method message.
#[test]
fn from_token_no_method() {
    let i = Interface::from_token("foo.bar".to_string(), vec![typedef("T")]);
    assert_eq!(i.error, ["Interface `foo.bar´: no method defined!"]);
}

/// A repeated interface name makes the document fail with the collected,
/// sorted messages.
#[test]
fn from_interfaces_duplicate_name() {
    let a = Interface::from_token("foo.bar".to_string(), vec![method("F")]);
    let b = Interface::from_token("foo.bar".to_string(), vec![method("G")]);
    let e = Varlink::from_interfaces(vec![a, b]).err().unwrap();
    assert_eq!(e, "Multiple definitions of interface `foo.bar´!");
}

/// A clean list of interfaces assembles into a document.
#[test]
fn from_interfaces_ok() {
    let a = Interface::from_token("foo.bar".to_string(), vec![method("F")]);
    let v = Varlink::from_interfaces(vec![a]).unwrap();
    assert!(v.get_interface("foo.bar").is_some());
    assert!(v.get_interface("foo.baz").is_none());
}

/// The typedef lookup finds members by name.
#[test]
fn get_typedef_lookup() {
    let v = Varlink::from_string("foo.bar{ type I (b: bool) F()->() }").unwrap();
    let iface = v.get_interface("foo.bar").unwrap();
    assert!(iface.get_typedef("I").is_some());
    assert!(iface.get_typedef("J").is_none());
    assert!(iface.get_method("F").is_some());
    assert!(iface.get_method("I").is_none());
}

/// Type expressions render their modifiers in surface order.
#[test]
fn type_use_rendering() {
    let t = VTypeExt {
        vtype: VType::Bool,
        nullable: true,
        isarray: Some(ArraySize::Fixed(7)),
    };
    assert_eq!(t.to_text(), "bool[7]?");
    let u = VTypeExt {
        vtype: VType::VTypename("Pair".to_string()),
        nullable: false,
        isarray: Some(ArraySize::Unbounded),
    };
    assert_eq!(u.to_text(), "Pair[]");
    assert_eq!(VType::UInt16.to_text(), "uint16");
    let a = Argument { name: "u".to_string(), vtypes: vec![t, u] };
    assert_eq!(a.to_text(), "u: bool[7]? | Pair[]");
    let s = VStruct { elts: vec![a] };
    assert_eq!(s.to_text(), "(u: bool[7]? | Pair[])");
}
