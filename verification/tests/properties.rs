use varlink::ast::Varlink;

/// Rendering an interface, reparsing it, and rendering again gives the
/// same text: the canonical form is a fixed point.
#[test]
fn round_trip_fixed_point() {
    let src = "
foo.bar {
  type Pair (a: bool, b: int64)
  type Mode (one, two, three)
  Get(key: string, deep: bool?) -> (values: string[], pair: Pair)
  Watch(filter: string|int64) => (event: (kind: (add, remove), name: string)[3]?)
}
";
    let v1 = Varlink::from_string(src).unwrap();
    let t1 = v1.get_interface("foo.bar").unwrap().to_text();
    let v2 = Varlink::from_string(t1.as_str()).unwrap();
    let t2 = v2.get_interface("foo.bar").unwrap().to_text();
    assert_eq!(t1, t2);
}

/// Typedefs and methods render sorted by name, whatever the declaration
/// order in the source.
#[test]
fn sorted_rendering() {
    let v = Varlink::from_string(
        "foo.bar{ type Zeta () type Alpha () Walk()->() Crawl()->() }",
    )
    .unwrap();
    assert_eq!(
        v.get_interface("foo.bar").unwrap().to_text(),
        "\
foo.bar {
  type Alpha ();
  type Zeta ();
  Crawl() -> ();
  Walk() -> ();
}
"
    );
}

/// An interface with typedefs but no method reports exactly the
/// no-method message.
#[test]
fn no_method_message() {
    let e = Varlink::from_string("foo.bar{ type I (b: bool) }").err().unwrap();
    assert_eq!(e, "Interface `foo.bar´: no method defined!");
}

/// An empty document parses to a document with no interfaces.
#[test]
fn empty_document() {
    let v = Varlink::from_string("  /* nothing here */  ").unwrap();
    assert!(v.interfaces.is_empty());
}

/// An unterminated comment is a syntax error.
#[test]
fn unterminated_comment() {
    assert!(Varlink::from_string("/* foo.bar{ F()->() }").is_err());
}

/// A fixed array bound of zero renders back as `[0]`, not as an
/// unbounded array.
#[test]
fn fixed_zero_bound() {
    let v = Varlink::from_string("foo.bar{ type I (b: bool[0]) F()->() }").unwrap();
    assert_eq!(
        v.get_interface("foo.bar").unwrap().to_text(),
        "\
foo.bar {
  type I (b: bool[0]);
  F() -> ();
}
"
    );
}

/// Error positions count lines and columns from one.
#[test]
fn error_position_counts_lines() {
    let e = Varlink::from_string("foo.bar{\n type I (b:bool[ ]) F()->() }").err().unwrap();
    assert_eq!(e, "error at 2:17: expected `[0-9]`");
}
