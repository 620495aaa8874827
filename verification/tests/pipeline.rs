use xrwrangle::ctype::{CType, StructField, TypeShape};
use xrwrangle::decl::{Decl, DeclBody, MacroDecl, TypedefDecl, VarChild, VarDecl};
use xrwrangle::records::{Fatal, Wranglings};
use xrwrangle::serialize::{run, serialize};

fn leaf(name: &str) -> CType {
    CType { name: String::from(name), is_const: false, shape: TypeShape::Other }
}

fn in_file(body: DeclBody) -> Decl {
    Decl { in_target_file: true, body }
}

fn name_macro() -> Decl {
    in_file(DeclBody::MacroDef(MacroDecl {
        name: Some(String::from("XR_TEST_EXTENSION_NAME")),
        tokens: vec![
            String::from("XR_TEST_EXTENSION_NAME"),
            String::from("\"XR_TEST_extension\""),
        ],
    }))
}

fn version_macro() -> Decl {
    in_file(DeclBody::MacroDef(MacroDecl {
        name: Some(String::from("XR_TEST_SPEC_VERSION")),
        tokens: vec![String::from("XR_TEST_SPEC_VERSION"), String::from("1")],
    }))
}

fn offset_var(extends: &str, name: &str, value: i64) -> Decl {
    in_file(DeclBody::Var(VarDecl {
        name: Some(String::from(name)),
        children: vec![
            VarChild { display_name: Some(String::from(extends)), child_values: vec![] },
            VarChild { display_name: None, child_values: vec![Some(value)] },
        ],
    }))
}

fn command_typedef() -> Decl {
    let proto = CType {
        name: String::new(),
        is_const: false,
        shape: TypeShape::FunctionProto {
            ret: Box::new(leaf("int")),
            params: vec![leaf("int")],
        },
    };
    in_file(DeclBody::Typedef(TypedefDecl {
        name: Some(String::from("PFN_DoThing")),
        underlying: CType {
            name: String::new(),
            is_const: false,
            shape: TypeShape::Pointer(Box::new(proto)),
        },
        child_names: vec![Some(String::from("PFN_DoThing")), Some(String::from("count"))],
    }))
}

fn struct_typedef() -> Decl {
    in_file(DeclBody::Typedef(TypedefDecl {
        name: Some(String::from("xrVector2f")),
        underlying: CType {
            name: String::from("struct xrVector2f"),
            is_const: false,
            shape: TypeShape::Elaborated {
                fields: vec![
                    StructField { name: Some(String::from("x")), ty: leaf("float") },
                    StructField { name: Some(String::from("y")), ty: leaf("float") },
                ],
            },
        },
        child_names: vec![],
    }))
}

#[test]
fn whole_run_renders_all_three_sections() {
    let file = vec![
        name_macro(),
        version_macro(),
        offset_var("XrResult", "XR_ERROR_SOMETHING", 1_000_007_003),
        command_typedef(),
        struct_typedef(),
    ];
    let out = run(&vec![file]).expect("run should succeed");
    let expected: String = [
        "--- Paste this before the </commands> closer ---\n\n",
        "<!-- XXX: lol -->\n",
        "<command successcodes=\"XR_SUCCESS\" errorcodes=\"XR_ERROR_FUNCTION_UNSUPPORTED\">\n",
        "<proto><type>int</type><name>DoThing</name></proto>\n",
        "<param><type>int</type><name>count</name></param>\n",
        "</command>\n",
        "\n",
        "--- Paste this before the </types> closer ---\n\n",
        "<!-- XXX: lol -->\n",
        "<type category=\"struct\" name=\"xrVector2f\">\n",
        "<member><type>float</type> <name>x</name></member>\n",
        "<member><type>float</type> <name>y</name></member>\n",
        "</type>\n",
        "\n",
        "--- Paste this before the </extensions> closer ---\n\n",
        "<!-- XXX: lol -->\n",
        "<extension name=\"XR_TEST_extension\" number=\"7\" type=\"instance\" supported=\"openxr\">\n",
        "<require>\n",
        "<enum value=\"1\" name=\"XR_TEST_SPEC_VERSION\"/>\n",
        "<enum offset=\"3\" extends=\"XrResult\" name=\"XR_ERROR_SOMETHING\"/>\n",
        "<command name=\"DoThing\"/>\n",
        "<type name=\"xrVector2f\"/>\n",
        "</require>\n",
        "</extension>\n",
        "\n",
    ]
    .concat();
    assert_eq!(out, expected);
}

#[test]
fn empty_extension_wrapper_is_still_valid() {
    // Zero commands and types; the name macro and one decoded variable still
    // establish the extension name and id.
    let file = vec![name_macro(), offset_var("XrResult", "XR_ERROR_A", 1_000_042_000)];
    let out = run(&vec![file]).expect("run should succeed");
    assert!(out.contains(
        "<extension name=\"XR_TEST_extension\" number=\"42\" type=\"instance\" supported=\"openxr\">\n<require>\n<enum offset=\"0\" extends=\"XrResult\" name=\"XR_ERROR_A\"/>\n</require>\n</extension>\n"
    ));
}

#[test]
fn run_without_extension_name_fails() {
    let file = vec![offset_var("XrResult", "XR_ERROR_A", 1_000_042_000)];
    assert_eq!(run(&vec![file]), Err(Fatal::MissingExtensionName));
}

#[test]
fn run_without_extension_id_fails() {
    let file = vec![name_macro()];
    assert_eq!(run(&vec![file]), Err(Fatal::MissingExtensionId));
}

#[test]
fn conflicting_ids_in_one_file_abort_the_run() {
    let file = vec![
        name_macro(),
        offset_var("XrResult", "XR_ERROR_A", 1_000_007_001),
        offset_var("XrResult", "XR_ERROR_B", 1_000_008_001),
    ];
    assert_eq!(
        run(&vec![file]),
        Err(Fatal::ExtensionIdConflict { established: 7, found: 8 })
    );
}

#[test]
fn declarations_from_included_headers_are_skipped() {
    let mut foreign = offset_var("XrResult", "XR_ERROR_B", 1_000_008_001);
    foreign.in_target_file = false;
    let file = vec![
        name_macro(),
        offset_var("XrResult", "XR_ERROR_A", 1_000_007_001),
        foreign,
    ];
    let out = run(&vec![file]).expect("run should succeed");
    assert!(out.contains("number=\"7\""));
    assert!(!out.contains("XR_ERROR_B"));
}

#[test]
fn files_are_serialized_independently_and_in_order() {
    let file_a = vec![name_macro(), offset_var("XrResult", "XR_ERROR_A", 1_000_007_001)];
    let file_b = vec![
        in_file(DeclBody::MacroDef(MacroDecl {
            name: Some(String::from("XR_OTHER_EXTENSION_NAME")),
            tokens: vec![
                String::from("XR_OTHER_EXTENSION_NAME"),
                String::from("\"XR_OTHER_extension\""),
            ],
        })),
        offset_var("XrResult", "XR_ERROR_C", 1_000_009_004),
    ];
    let out = run(&vec![file_a, file_b]).expect("run should succeed");
    let a = out.find("name=\"XR_TEST_extension\" number=\"7\"").unwrap();
    let b = out.find("name=\"XR_OTHER_extension\" number=\"9\"").unwrap();
    assert!(a < b);
}

#[test]
fn serialize_with_no_enum_records_emits_blank_require_line() {
    let w = Wranglings {
        commands: vec![],
        types: vec![],
        enums: vec![],
        extension_id: Some(-3),
        extension_name: Some(String::from("XR_NEG_extension")),
    };
    let out = serialize(&vec![w]).expect("serialize should succeed");
    assert!(out.contains("number=\"-3\""));
    assert!(out.contains("<require>\n\n</require>\n"));
}
