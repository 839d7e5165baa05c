use varlink::ast::Varlink;

/// An anonymous enum in a typedef field is hoisted to a top-level enum
/// declaration named after its synthesized context, and the field itself
/// mentions only that name.
#[test]
fn enum_hoisting() {
    let v = Varlink::from_string("foo.bar{ type T (e: (a, b)) F()->() }").unwrap();
    let out = v.get_interface("foo.bar").unwrap().to_rust();
    assert_eq!(
        out,
        "\
#[derive(Serialize, Deserialize, Debug)]
pub struct T {
    pub e: Option<T_e>,
}

pub enum T_e {
    a,
    b
}

pub trait Interface: VarlinkInterface {
    fn f(&self) -> Result<(), Error>;
}

"
    );
}

/// Methods get a reply carrier and an argument carrier, integers widen to
/// `i64`, strings map to `String`, arrays to vectors, and the signature's
/// name starts lower-case.
#[test]
fn method_carriers() {
    let v = Varlink::from_string("foo.bar{ Foo(a: int64, t: string[]) -> (b: string) }").unwrap();
    let out = v.get_interface("foo.bar").unwrap().to_rust();
    assert_eq!(
        out,
        "\
#[derive(Serialize, Deserialize, Debug)]
pub struct FooReply {
    pub b: Option<String>,
}

#[derive(Serialize, Deserialize, Debug)]
pub struct FooArgs {
    pub a: Option<i64>,
    pub t: Option<Vec<String>>,
}

pub trait Interface: VarlinkInterface {
    fn foo(&self, a : i64, t : Vec<String>) -> Result<FooReply, Error>;
}

"
    );
}

/// An enum typedef becomes a target-language enum declaration.
#[test]
fn enum_typedef() {
    let v = Varlink::from_string("foo.bar{ type Mode (slow, fast) F()->() }").unwrap();
    let out = v.get_interface("foo.bar").unwrap().to_rust();
    assert_eq!(
        out,
        "\
#[derive(Serialize, Deserialize, Debug)]
pub enum Mode {
    slow,
    fast
}

pub trait Interface: VarlinkInterface {
    fn f(&self) -> Result<(), Error>;
}

"
    );
}
