use xrwrangle::ctype::{CType, StructField, TypeShape};
use xrwrangle::decl::{MacroDecl, TypedefDecl, VarChild, VarDecl};
use xrwrangle::handlers::{handle_macro, handle_typedef, handle_vardecl};
use xrwrangle::records::{EnumRecord, Fatal, Wranglings};

fn leaf(name: &str) -> CType {
    CType { name: String::from(name), is_const: false, shape: TypeShape::Other }
}

fn fn_pointer_typedef(name: &str, ret: &str, params: Vec<(&str, &str)>) -> TypedefDecl {
    let mut child_names: Vec<Option<String>> = vec![Some(String::from(name))];
    let mut param_tys: Vec<CType> = Vec::new();
    for (ty, pname) in params {
        param_tys.push(leaf(ty));
        child_names.push(Some(String::from(pname)));
    }
    let proto = CType {
        name: String::new(),
        is_const: false,
        shape: TypeShape::FunctionProto { ret: Box::new(leaf(ret)), params: param_tys },
    };
    TypedefDecl {
        name: Some(String::from(name)),
        underlying: CType {
            name: String::new(),
            is_const: false,
            shape: TypeShape::Pointer(Box::new(proto)),
        },
        child_names,
    }
}

fn offset_var(extends: &str, name: &str, value: i64) -> VarDecl {
    VarDecl {
        name: Some(String::from(name)),
        children: vec![
            VarChild { display_name: Some(String::from(extends)), child_values: vec![] },
            VarChild { display_name: None, child_values: vec![Some(value)] },
        ],
    }
}

#[test]
fn fn_pointer_typedef_yields_command_record() {
    let mut w = Wranglings::new();
    let d = fn_pointer_typedef("PFN_DoThing", "int", vec![("int", "count")]);
    assert!(handle_typedef(&mut w, &d).is_ok());
    assert_eq!(w.commands.len(), 1);
    assert_eq!(w.commands[0].name, "DoThing");
    assert_eq!(w.commands[0].ret, "int");
    assert_eq!(w.commands[0].params.len(), 1);
    assert_eq!(w.commands[0].params[0].ty_text, "<type>int</type>");
    assert_eq!(w.commands[0].params[0].name, "count");
}

#[test]
fn typedef_param_count_mismatch_is_fatal() {
    let mut w = Wranglings::new();
    let mut d = fn_pointer_typedef("PFN_DoThing", "int", vec![("int", "count")]);
    d.child_names.pop();
    assert_eq!(handle_typedef(&mut w, &d), Err(Fatal::MalformedTypedef));
    assert_eq!(w.commands.len(), 0);
}

#[test]
fn typedef_nameless_parameter_is_fatal() {
    let mut w = Wranglings::new();
    let mut d = fn_pointer_typedef("PFN_DoThing", "int", vec![("int", "count")]);
    d.child_names[1] = None;
    assert_eq!(handle_typedef(&mut w, &d), Err(Fatal::MalformedTypedef));
}

#[test]
fn typedef_without_display_name_is_fatal() {
    let mut w = Wranglings::new();
    let mut d = fn_pointer_typedef("PFN_DoThing", "int", vec![]);
    d.name = None;
    assert_eq!(handle_typedef(&mut w, &d), Err(Fatal::MalformedTypedef));
}

#[test]
fn macro_without_display_name_is_fatal() {
    let mut w = Wranglings::new();
    let d = MacroDecl { name: None, tokens: vec![String::from("1")] };
    assert_eq!(handle_macro(&mut w, &d), Err(Fatal::MalformedMacro));
}

#[test]
fn typedef_short_name_is_fatal() {
    let mut w = Wranglings::new();
    let mut d = fn_pointer_typedef("PFN_DoThing", "int", vec![]);
    d.name = Some(String::from("PFN"));
    assert_eq!(handle_typedef(&mut w, &d), Err(Fatal::MalformedTypedef));
}

#[test]
fn struct_typedef_yields_type_record() {
    let mut w = Wranglings::new();
    let d = TypedefDecl {
        name: Some(String::from("xrVector2f")),
        underlying: CType {
            name: String::from("struct xrVector2f"),
            is_const: false,
            shape: TypeShape::Elaborated {
                fields: vec![
                    StructField { name: Some(String::from("x")), ty: leaf("float") },
                    StructField { name: Some(String::from("y")), ty: leaf("float") },
                ],
            },
        },
        child_names: vec![],
    };
    assert!(handle_typedef(&mut w, &d).is_ok());
    assert_eq!(w.types.len(), 1);
    assert_eq!(w.types[0].name, "xrVector2f");
    assert_eq!(w.types[0].members.len(), 2);
    assert_eq!(w.types[0].members[0].ty_text, "<type>float</type>");
    assert_eq!(w.types[0].members[0].name, "x");
    assert_eq!(w.types[0].members[1].ty_text, "<type>float</type>");
    assert_eq!(w.types[0].members[1].name, "y");
}

#[test]
fn other_typedef_is_ignored() {
    let mut w = Wranglings::new();
    let d = TypedefDecl {
        name: Some(String::from("XrFlags64")),
        underlying: leaf("uint64_t"),
        child_names: vec![],
    };
    assert!(handle_typedef(&mut w, &d).is_ok());
    assert_eq!(w.commands.len(), 0);
    assert_eq!(w.types.len(), 0);
}

#[test]
fn same_extension_id_twice_succeeds() {
    let mut w = Wranglings::new();
    assert!(handle_vardecl(&mut w, &offset_var("XrResult", "XR_ERROR_A", 1_000_007_001)).is_ok());
    assert!(handle_vardecl(&mut w, &offset_var("XrStructureType", "XR_TYPE_B", 1_000_007_002))
        .is_ok());
    assert_eq!(w.extension_id, Some(7));
    assert_eq!(w.enums.len(), 2);
}

#[test]
fn conflicting_extension_ids_are_fatal() {
    let mut w = Wranglings::new();
    assert!(handle_vardecl(&mut w, &offset_var("XrResult", "XR_ERROR_A", 1_000_007_001)).is_ok());
    assert_eq!(
        handle_vardecl(&mut w, &offset_var("XrResult", "XR_ERROR_B", 1_000_008_001)),
        Err(Fatal::ExtensionIdConflict { established: 7, found: 8 })
    );
    assert_eq!(w.enums.len(), 1);
}

#[test]
fn vardecl_offset_record_content() {
    let mut w = Wranglings::new();
    assert!(handle_vardecl(&mut w, &offset_var("XrResult", "XR_ERROR_A", 1_000_007_003)).is_ok());
    match &w.enums[0] {
        EnumRecord::Offset { offset, extends, name } => {
            assert_eq!(*offset, 3);
            assert_eq!(extends, "XrResult");
            assert_eq!(name, "XR_ERROR_A");
        }
        _ => panic!("expected an offset record"),
    }
}

#[test]
fn unevaluable_initializer_is_skipped() {
    let mut w = Wranglings::new();
    let d = VarDecl {
        name: Some(String::from("somevar")),
        children: vec![
            VarChild { display_name: Some(String::from("int")), child_values: vec![] },
            VarChild { display_name: None, child_values: vec![None] },
        ],
    };
    assert!(handle_vardecl(&mut w, &d).is_ok());
    assert_eq!(w.enums.len(), 0);
    assert_eq!(w.extension_id, None);
}

#[test]
fn vardecl_missing_children_is_fatal() {
    let mut w = Wranglings::new();
    let d = VarDecl {
        name: Some(String::from("v")),
        children: vec![VarChild { display_name: Some(String::from("int")), child_values: vec![] }],
    };
    assert_eq!(handle_vardecl(&mut w, &d), Err(Fatal::MalformedVar));

    let d2 = VarDecl {
        name: Some(String::from("v")),
        children: vec![
            VarChild { display_name: Some(String::from("int")), child_values: vec![] },
            VarChild { display_name: None, child_values: vec![] },
        ],
    };
    assert_eq!(handle_vardecl(&mut w, &d2), Err(Fatal::MalformedVar));
}

#[test]
fn spec_version_macro_yields_value_record() {
    let mut w = Wranglings::new();
    let d = MacroDecl {
        name: Some(String::from("XR_SOMETHING_SPEC_VERSION")),
        tokens: vec![String::from("XR_SOMETHING_SPEC_VERSION"), String::from("3")],
    };
    assert!(handle_macro(&mut w, &d).is_ok());
    match &w.enums[0] {
        EnumRecord::Value { value, name } => {
            assert_eq!(value, "3");
            assert_eq!(name, "XR_SOMETHING_SPEC_VERSION");
        }
        _ => panic!("expected a value record"),
    }
}

#[test]
fn extension_name_macro_strips_quotes() {
    let mut w = Wranglings::new();
    let d = MacroDecl {
        name: Some(String::from("XR_SOMETHING_EXTENSION_NAME")),
        tokens: vec![
            String::from("XR_SOMETHING_EXTENSION_NAME"),
            String::from("\"XR_SOMETHING_extension\""),
        ],
    };
    assert!(handle_macro(&mut w, &d).is_ok());
    assert_eq!(w.extension_name.as_deref(), Some("XR_SOMETHING_extension"));
    assert_eq!(w.enums.len(), 0);
}

#[test]
fn unrelated_macro_is_ignored() {
    let mut w = Wranglings::new();
    let d = MacroDecl {
        name: Some(String::from("XR_SOMETHING_ELSE")),
        tokens: vec![String::from("XR_SOMETHING_ELSE"), String::from("1")],
    };
    assert!(handle_macro(&mut w, &d).is_ok());
    assert_eq!(w.enums.len(), 0);
    assert_eq!(w.extension_name, None);
}

#[test]
fn macro_with_empty_token_range_is_fatal() {
    let mut w = Wranglings::new();
    let d = MacroDecl { name: Some(String::from("XR_X_SPEC_VERSION")), tokens: vec![] };
    assert_eq!(handle_macro(&mut w, &d), Err(Fatal::MalformedMacro));
}

#[test]
fn fatal_conflict_describes_both_ids() {
    let f = Fatal::ExtensionIdConflict { established: 7, found: 8 };
    assert_eq!(f.describe(), "file encodes two extension ids: 7 and 8");
}
