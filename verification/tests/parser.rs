use varlink::ast::Varlink;

#[test]
fn test_standard() {
    let v = Varlink::from_string(
        "
/**
 * The Varlink Service Interface is added to every varlink service. It provides
 * the Introspect method to be called by a client to retrieve the bootstrap
 * information from a service.
 */
org.varlink.service {
  type Type (name: string, typestring: string)
  type Method (
    name: string,
    monitor: bool,
    type_in: string,
    type_out: string
  )
  type Interface (name: string, types: Type[], methods: Method[])
  type Property (key: string, value: string)
  type InterfaceDescription (
    description: string,
    types: string[],
    methods: string[]
  )

  /**
   * Returns the machine readable information about a service. It contains the service
   * name, all available interfaces with their defined method calls and types.
   */
  Introspect(version: uint64) -> (name: string, interfaces: Interface[])

  /**
   * Returns the human readable description of a service.
   */
  Help() -> (
    description: string,
    properties: Property[],
    interfaces: InterfaceDescription[]
  )
}
",
    )
    .unwrap();
    assert!(v.get_interface("org.varlink.service").is_some());
    assert_eq!(
        v.get_interface("org.varlink.service").unwrap().to_text(),
        "\
org.varlink.service {
  type Interface (name: string, types: Type[], methods: Method[]);
  type InterfaceDescription (description: string, types: string[], methods: string[]);
  type Method (name: string, monitor: bool, type_in: string, type_out: string);
  type Property (key: string, value: string);
  type Type (name: string, typestring: string);
  Help() -> (description: string, properties: Property[], interfaces: InterfaceDescription[]);
  Introspect(version: uint64) -> (name: string, interfaces: Interface[]);
}
"
    );
}

#[test]
fn test_one_method() {
    let v = Varlink::from_string("/* comment */ foo.bar{ Foo()->() }").unwrap();
    assert!(
        v.get_interface("foo.bar")
            .unwrap()
            .get_method("Foo")
            .unwrap()
            .stream
            == false
    );
}

#[test]
fn test_one_method_stream() {
    let v = Varlink::from_string("foo.bar{ Foo()=>() }").unwrap();
    assert!(v.get_interface("foo.bar").unwrap().get_method("Foo").unwrap().stream);
}

#[test]
fn test_one_method_no_type() {
    assert!(Varlink::from_string("foo.bar{ Foo()->(b:) }").is_err());
}

#[test]
fn test_domainnames() {
    assert!(Varlink::from_string("org.varlink.service {F()->()}").is_ok());
    assert!(Varlink::from_string("com.example.0example {F()->()}").is_ok());
    assert!(Varlink::from_string("com.example.example-dash {F()->()}").is_ok());
    assert!(Varlink::from_string("xn--lgbbat1ad8j.example.algeria {F()->()}").is_ok());
    assert!(Varlink::from_string("com.-example.leadinghyphen {F()->()}").is_err());
    assert!(Varlink::from_string("com.example-.danglinghyphen- {F()->()}").is_err());
    assert!(Varlink::from_string("Com.example.uppercase-toplevel {F()->()}").is_err());
    assert!(Varlink::from_string("Co9.example.number-toplevel {F()->()}").is_err());
    assert!(Varlink::from_string("1om.example.number-toplevel {F()->()}").is_err());
    assert!(Varlink::from_string("com.Example {F()->()}").is_err());
}

#[test]
fn test_no_method() {
    assert!(Varlink::from_string(
        "
org.varlink.service {
  type Interface (name: string, types: Type[], methods: Method[])
  type Property (key: string, value: string)
}
"
    )
    .is_err());
}

#[test]
fn test_type_no_args() {
    assert!(Varlink::from_string("foo.bar{ type I () F()->() }").is_ok());
}

#[test]
fn test_type_one_arg() {
    assert!(Varlink::from_string("foo.bar{ type I (b:bool) F()->() }").is_ok());
}

#[test]
fn test_type_one_array() {
    assert!(Varlink::from_string("foo.bar{ type I (b:bool[]) F()->() }").is_ok());
    assert!(Varlink::from_string("foo.bar{ type I (b:bool[ ]) F()->() }").is_err());
    let ifaces = Varlink::from_string("foo.bar{ type I (b:bool[ ]) F()->() }");
    assert_eq!(ifaces.err().unwrap(), "error at 1:25: expected `[0-9]`");
    assert!(Varlink::from_string("foo.bar{ type I (b:bool[1]) F()->() }").is_ok());
    assert!(Varlink::from_string("foo.bar{ type I (b:bool[ 1 ]) F()->() }").is_err());
    assert!(Varlink::from_string("foo.bar{ type I (b:bool[ 1 1 ]) F()->() }").is_err());
}

#[test]
fn test_method_struct_optional() {
    assert!(Varlink::from_string("foo.bar{ Foo(foo: (i: int64, b: bool)? )->()}").is_ok());
}

#[test]
fn test_method_struct_array_optional() {
    assert!(Varlink::from_string("foo.bar{ Foo(foo: (i: int64, b: bool)[]? )->()}").is_ok());
}

#[test]
fn test_method_struct_array_optional_wrong() {
    assert!(Varlink::from_string("foo.bar{ Foo(foo: (i: int64, b: bool)?[]) -> ()}").is_err());
}

#[test]
fn test_format() {
    let v = Varlink::from_string("foo.bar{ type I (b:bool[18446744073709551615]) F()->()}")
        .unwrap();
    assert_eq!(
        v.get_interface("foo.bar").unwrap().to_text(),
        "\
foo.bar {
  type I (b: bool[18446744073709551615]);
  F() -> ();
}
"
    );
}

#[test]
fn test_union() {
    let v = Varlink::from_string(
        "
    foo.bar{ F()->(s: (a: bool, b: int64), u: bool|int64|(foo: bool, bar: bool))}",
    )
    .unwrap();
    assert_eq!(
        v.get_interface("foo.bar").unwrap().to_text(),
        "\
foo.bar {
  F() -> (s: (a: bool, b: int64), u: bool | int64 | (foo: bool, bar: \
                bool));
}
"
    );
}

#[test]
fn test_duplicate() {
    let e = Varlink::from_string(
        "
foo.example {
	type Device()
	type Device()
	type T()
	type T()
	F() -> ()
}

foo.example {
    F() -> ()
    F() -> ()
	type T()
	type T()
}

foo.example {
    E() -> ()
}

bar.example {
    F() -> ()
    F() -> ()
}

",
    )
    .err()
    .unwrap();
    assert_eq!(
        e,
        "\
Interface `bar.example´: multiple definitions of type `F´!
Interface `foo.example´: multiple definitions of type `Device´!
Interface `foo.example´: multiple definitions of type `F´!
Interface `foo.example´: multiple definitions of type `T´!
Multiple definitions of interface `foo.example´!"
    );
}
