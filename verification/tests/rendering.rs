use xrwrangle::ctype::{format_type, CType, TypeShape};

fn leaf(name: &str) -> CType {
    CType { name: String::from(name), is_const: false, shape: TypeShape::Other }
}

fn const_leaf(name: &str) -> CType {
    CType { name: String::from(name), is_const: true, shape: TypeShape::Other }
}

fn ptr(pointee: CType) -> CType {
    CType { name: String::new(), is_const: false, shape: TypeShape::Pointer(Box::new(pointee)) }
}

#[test]
fn leaf_renders_as_type_tag() {
    assert_eq!(format_type(&leaf("int")), "<type>int</type>");
    assert_eq!(format_type(&leaf("float")), "<type>float</type>");
}

#[test]
fn leaf_const_text_is_stripped() {
    assert_eq!(format_type(&const_leaf("const char")), "<type>char</type>");
    assert_eq!(format_type(&leaf("const const int")), "<type>int</type>");
}

#[test]
fn pointer_depth_matches_star_count() {
    let one = ptr(leaf("void"));
    let two = ptr(ptr(leaf("void")));
    let three = ptr(ptr(ptr(leaf("void"))));
    assert_eq!(format_type(&one), "<type>void</type>*");
    assert_eq!(format_type(&two), "<type>void</type>**");
    assert_eq!(format_type(&three), "<type>void</type>***");
    assert_eq!(format_type(&three).matches('*').count(), 3);
}

#[test]
fn const_marker_sits_at_const_levels_only() {
    // char const**: only the innermost pointee is const-qualified.
    let inner_const = ptr(ptr(const_leaf("const char")));
    assert_eq!(format_type(&inner_const), "const <type>char</type>**");

    // char *const*: only the middle pointer layer is const-qualified.
    let mut mid = ptr(leaf("char"));
    mid.is_const = true;
    let mid_const = ptr(mid);
    assert_eq!(format_type(&mid_const), "const <type>char</type>**");

    // no const anywhere
    assert_eq!(format_type(&ptr(ptr(leaf("char")))), "<type>char</type>**");
}
