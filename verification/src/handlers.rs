//! The declaration classifier and the four handlers: each top-level
//! declaration of the file under processing is dispatched on its syntactic
//! kind, and the matching handler extracts its content into the per-file
//! [`Wranglings`] state. Unrecognized shapes are ignored by design; malformed
//! recognized shapes and extension-id inconsistencies are fatal.

use vstd::prelude::*;
use vstd::string::*;
use crate::ctype::CType;
use crate::ctype::TypeShape;
use crate::ctype::StructField;
use crate::ctype::spec_format_type;
use crate::ctype::format_type;
use crate::decl::Decl;
use crate::decl::DeclBody;
use crate::decl::TypedefDecl;
use crate::decl::VarDecl;
use crate::decl::MacroDecl;
use crate::decode::spec_extension_id;
use crate::decode::spec_extension_offset;
use crate::decode::decode_enum_value;
use crate::records::Fatal;
use crate::records::CommandRecord;
use crate::records::TypeRecord;
use crate::records::EnumRecord;
use crate::records::Wranglings;
use crate::records::SpecCommandRecord;
use crate::records::SpecTypeRecord;
use crate::records::SpecEnumRecord;
use crate::records::SpecTypedName;
use crate::records::SpecWranglings;
use crate::records::TypedName;
use crate::text::is_suffix;
use crate::text::trim_char;
use crate::text::strip_prefixes;
use crate::text::str_has_suffix;
use crate::text::strip_prefixes_exec;
use crate::text::trim_char_exec;

verus! {

/// The characters of an optional string, empty when absent.
pub open spec fn spec_opt_str(o: Option<String>) -> Seq<char> {
    match o {
        Some(s) => s@,
        None => Seq::<char>::empty(),
    }
}

/// How an exec handler's outcome relates to its spec counterpart: on success
/// the state becomes the spec result, on a fatal defect the matching error is
/// returned and the state is untouched.
pub open spec fn handler_post(
    s: Result<SpecWranglings, Fatal>,
    r: Result<(), Fatal>,
    pre: SpecWranglings,
    post: SpecWranglings,
) -> bool {
    match s {
        Ok(sw) => r is Ok && post == sw,
        Err(f) => r == Err::<(), Fatal>(f) && post == pre,
    }
}

/// The Command Record a function-pointer typedef yields: the typedef's display
/// name with the fixed 4-character tag stripped, the result type's display
/// name, and the rendered parameter types zipped with the parameter names
/// (the typedef's child names, the pointer declarator skipped).
pub open spec fn spec_command_of(
    tname: Seq<char>,
    ret: CType,
    params: Seq<CType>,
    child_names: Seq<Option<String>>,
) -> SpecCommandRecord {
    SpecCommandRecord {
        name: tname.skip(4),
        ret: ret.name@,
        params: Seq::new(
            params.len(),
            |i: int|
                SpecTypedName {
                    ty_text: spec_format_type(params[i]),
                    name: spec_opt_str(child_names[i + 1]),
                },
        ),
    }
}

/// The Type Record a struct typedef yields: the elaborated type's display name
/// with the leading tag keyword stripped, and the rendered fields in order.
pub open spec fn spec_type_record_of(tyname: Seq<char>, fields: Seq<StructField>) -> SpecTypeRecord {
    SpecTypeRecord {
        name: strip_prefixes(tyname, "struct "@),
        members: Seq::new(
            fields.len(),
            |i: int|
                SpecTypedName {
                    ty_text: spec_format_type(fields[i].ty),
                    name: spec_opt_str(fields[i].name),
                },
        ),
    }
}

/// What handling a function-pointer typedef does to the state.
pub open spec fn spec_handle_fn_pointer(
    w: SpecWranglings,
    d: TypedefDecl,
    ret: CType,
    params: Seq<CType>,
) -> Result<SpecWranglings, Fatal> {
    match d.name {
        None => Err(Fatal::MalformedTypedef),
        Some(tname) => if tname@.len() < 4 {
            Err(Fatal::MalformedTypedef)
        } else if d.child_names@.len() == 0 {
            Err(Fatal::MalformedTypedef)
        } else if params.len() != d.child_names@.len() - 1 {
            Err(Fatal::MalformedTypedef)
        } else if exists|j: int| 1 <= j < d.child_names@.len() && d.child_names@[j] is None {
            Err(Fatal::MalformedTypedef)
        } else {
            Ok(
                SpecWranglings {
                    commands: w.commands.push(
                        spec_command_of(tname@, ret, params, d.child_names@),
                    ),
                    ..w
                },
            )
        },
    }
}

/// What handling a struct typedef does to the state.
pub open spec fn spec_handle_struct_typedef(
    w: SpecWranglings,
    tyname: Seq<char>,
    fields: Seq<StructField>,
) -> Result<SpecWranglings, Fatal> {
    if exists|j: int| 0 <= j < fields.len() && fields[j].name is None {
        Err(Fatal::MalformedTypedef)
    } else {
        Ok(SpecWranglings { types: w.types.push(spec_type_record_of(tyname, fields)), ..w })
    }
}

/// What handling a typedef declaration does to the state: a pointer to a
/// function prototype yields a Command Record, an elaborated type yields a
/// Type Record, any other underlying type is ignored.
pub open spec fn spec_handle_typedef(w: SpecWranglings, d: TypedefDecl) -> Result<
    SpecWranglings,
    Fatal,
> {
    match d.underlying.shape {
        TypeShape::Pointer(p) => match (*p).shape {
            TypeShape::FunctionProto { ret, params } => spec_handle_fn_pointer(
                w,
                d,
                *ret,
                params@,
            ),
            _ => Ok(w),
        },
        TypeShape::Elaborated { fields } => spec_handle_struct_typedef(
            w,
            d.underlying.name@,
            fields@,
        ),
        _ => Ok(w),
    }
}

/// What handling a variable declaration does to the state: when the
/// initializer's last sub-expression evaluates to a signed integer, the value
/// is decoded, the extension id adopted or checked, and an offset-style Enum
/// Record appended; otherwise the declaration is silently skipped.
pub open spec fn spec_handle_vardecl(w: SpecWranglings, d: VarDecl) -> Result<
    SpecWranglings,
    Fatal,
> {
    if d.children@.len() < 2 {
        Err(Fatal::MalformedVar)
    } else if d.children@.last().child_values@.len() == 0 {
        Err(Fatal::MalformedVar)
    } else {
        match d.children@.last().child_values@.last() {
            None => Ok(w),
            Some(x) => {
                let ext = spec_extension_id(x as int) as i64;
                if w.extension_id matches Some(e) && e != ext {
                    Err(Fatal::ExtensionIdConflict { established: w.extension_id->Some_0, found: ext })
                } else if d.children@[0].display_name is None || d.name is None {
                    Err(Fatal::MalformedVar)
                } else {
                    Ok(
                        SpecWranglings {
                            extension_id: Some(ext),
                            enums: w.enums.push(
                                SpecEnumRecord::Offset {
                                    offset: spec_extension_offset(x as int) as i64,
                                    extends: spec_opt_str(d.children@[0].display_name),
                                    name: spec_opt_str(d.name),
                                },
                            ),
                            ..w
                        },
                    )
                }
            },
        }
    }
}

/// What handling a macro definition does to the state: a `_SPEC_VERSION` macro
/// appends a plain value Enum Record; an `_EXTENSION_NAME` macro sets the
/// extension name to its value with surrounding quotes stripped; any other
/// macro is ignored. The value is the last token of the definition range.
pub open spec fn spec_handle_macro(w: SpecWranglings, d: MacroDecl) -> Result<
    SpecWranglings,
    Fatal,
> {
    match d.name {
        None => Err(Fatal::MalformedMacro),
        Some(n) => if d.tokens@.len() == 0 {
            Err(Fatal::MalformedMacro)
        } else if is_suffix(n@, "_SPEC_VERSION"@) {
            Ok(
                SpecWranglings {
                    enums: w.enums.push(
                        SpecEnumRecord::Value { value: d.tokens@.last()@, name: n@ },
                    ),
                    ..w
                },
            )
        } else if is_suffix(n@, "_EXTENSION_NAME"@) {
            Ok(SpecWranglings { extension_name: Some(trim_char(d.tokens@.last()@, '"')), ..w })
        } else {
            Ok(w)
        },
    }
}

/// What one top-level declaration does to the state: declarations from other
/// files are skipped, the rest dispatch on their kind.
pub open spec fn spec_handle_decl(w: SpecWranglings, d: Decl) -> Result<SpecWranglings, Fatal> {
    if !d.in_target_file {
        Ok(w)
    } else {
        match d.body {
            DeclBody::Typedef(t) => spec_handle_typedef(w, t),
            DeclBody::Var(v) => spec_handle_vardecl(w, v),
            DeclBody::MacroDef(m) => spec_handle_macro(w, m),
            DeclBody::Other => Ok(w),
        }
    }
}

/// The state after a whole file's declarations, in order, starting empty;
/// the first fatal defect aborts.
pub open spec fn spec_wrangling(decls: Seq<Decl>) -> Result<SpecWranglings, Fatal>
    decreases decls.len(),
{
    if decls.len() == 0 {
        Ok(SpecWranglings::empty())
    } else {
        match spec_wrangling(decls.drop_last()) {
            Ok(w) => spec_handle_decl(w, decls.last()),
            Err(f) => Err(f),
        }
    }
}

/// Handles a typedef declaration.
#[verifier::loop_isolation(false)]
pub fn handle_typedef(w: &mut Wranglings, d: &TypedefDecl) -> (r: Result<(), Fatal>)
    ensures
        handler_post(spec_handle_typedef(old(w)@, *d), r, old(w)@, final(w)@),
{
    proof {
        reveal_strlit("struct ");
    }
    match &d.underlying.shape {
        TypeShape::Pointer(p) => {
            match &p.shape {
                TypeShape::FunctionProto { ret, params } => {
                    let tname = match &d.name {
                        Some(n) => n,
                        None => {
                            return Err(Fatal::MalformedTypedef);
                        },
                    };
                    let tlen = tname.as_str().unicode_len();
                    if tlen < 4 {
                        return Err(Fatal::MalformedTypedef);
                    }
                    if d.child_names.len() == 0 {
                        return Err(Fatal::MalformedTypedef);
                    }
                    if params.len() != d.child_names.len() - 1 {
                        return Err(Fatal::MalformedTypedef);
                    }
                    let mut j: usize = 1;
                    while j < d.child_names.len()
                        invariant
                            1 <= j <= d.child_names@.len(),
                            forall|k: int| 1 <= k < j ==> d.child_names@[k] is Some,
                        decreases d.child_names@.len() - j,
                    {
                        if d.child_names[j].is_none() {
                            proof {
                                assert(d.child_names@[j as int] is None);
                                assert(exists|k: int|
                                    1 <= k < d.child_names@.len() && d.child_names@[k] is None);
                            }
                            return Err(Fatal::MalformedTypedef);
                        }
                        j += 1;
                    }
                    let name = String::from_str(tname.as_str().substring_char(4, tlen));
                    let retname = ret.name.clone();
                    let mut ps: Vec<TypedName> = Vec::new();
                    let mut i: usize = 0;
                    while i < params.len()
                        invariant
                            0 <= i <= params@.len(),
                            params@.len() + 1 == d.child_names@.len(),
                            forall|k: int| 1 <= k < d.child_names@.len() ==> d.child_names@[k] is Some,
                            ps@.len() == i,
                            forall|k: int|
                                0 <= k < i ==> #[trigger] ps@[k]@ == (SpecTypedName {
                                    ty_text: spec_format_type(params@[k]),
                                    name: spec_opt_str(d.child_names@[k + 1]),
                                }),
                        decreases params@.len() - i,
                    {
                        let tt = format_type(&params[i]);
                        let pn = d.child_names[i + 1].as_ref().unwrap().clone();
                        ps.push(TypedName { ty_text: tt, name: pn });
                        i += 1;
                    }
                    let rec = CommandRecord { name, ret: retname, params: ps };
                    proof {
                        assert(rec@.params =~= spec_command_of(
                            tname@,
                            **ret,
                            params@,
                            d.child_names@,
                        ).params);
                        assert(rec@ =~= spec_command_of(tname@, **ret, params@, d.child_names@));
                    }
                    w.commands.push(rec);
                    proof {
                        assert(w@.commands =~= old(w)@.commands.push(
                            spec_command_of(tname@, **ret, params@, d.child_names@),
                        ));
                        assert(w@ =~= (SpecWranglings {
                            commands: old(w)@.commands.push(
                                spec_command_of(tname@, **ret, params@, d.child_names@),
                            ),
                            ..old(w)@
                        }));
                    }
                    Ok(())
                },
                _ => Ok(()),
            }
        },
        TypeShape::Elaborated { fields } => {
            let mut j: usize = 0;
            while j < fields.len()
                invariant
                    0 <= j <= fields@.len(),
                    forall|k: int| 0 <= k < j ==> fields@[k].name is Some,
                decreases fields@.len() - j,
            {
                if fields[j].name.is_none() {
                    proof {
                        assert(fields@[j as int].name is None);
                        assert(exists|k: int| 0 <= k < fields@.len() && fields@[k].name is None);
                    }
                    return Err(Fatal::MalformedTypedef);
                }
                j += 1;
            }
            let sname = String::from_str(
                strip_prefixes_exec(d.underlying.name.as_str(), "struct "),
            );
            let mut ms: Vec<TypedName> = Vec::new();
            let mut i: usize = 0;
            while i < fields.len()
                invariant
                    0 <= i <= fields@.len(),
                    forall|k: int| 0 <= k < fields@.len() ==> fields@[k].name is Some,
                    ms@.len() == i,
                    forall|k: int|
                        0 <= k < i ==> #[trigger] ms@[k]@ == (SpecTypedName {
                            ty_text: spec_format_type(fields@[k].ty),
                            name: spec_opt_str(fields@[k].name),
                        }),
                decreases fields@.len() - i,
            {
                let tt = format_type(&fields[i].ty);
                let mn = fields[i].name.as_ref().unwrap().clone();
                ms.push(TypedName { ty_text: tt, name: mn });
                i += 1;
            }
            let rec = TypeRecord { name: sname, members: ms };
            proof {
                assert(rec@.members =~= spec_type_record_of(d.underlying.name@, fields@).members);
                assert(rec@ =~= spec_type_record_of(d.underlying.name@, fields@));
            }
            w.types.push(rec);
            proof {
                assert(w@.types =~= old(w)@.types.push(
                    spec_type_record_of(d.underlying.name@, fields@),
                ));
                assert(w@ =~= (SpecWranglings {
                    types: old(w)@.types.push(spec_type_record_of(d.underlying.name@, fields@)),
                    ..old(w)@
                }));
            }
            Ok(())
        },
        _ => Ok(()),
    }
}

/// Handles a variable declaration.
pub fn handle_vardecl(w: &mut Wranglings, d: &VarDecl) -> (r: Result<(), Fatal>)
    ensures
        handler_post(spec_handle_vardecl(old(w)@, *d), r, old(w)@, final(w)@),
{
    if d.children.len() < 2 {
        return Err(Fatal::MalformedVar);
    }
    let init = &d.children[d.children.len() - 1];
    if init.child_values.len() == 0 {
        return Err(Fatal::MalformedVar);
    }
    match &init.child_values[init.child_values.len() - 1] {
        None => Ok(()),
        Some(x) => {
            let (ext, off) = decode_enum_value(*x);
            match w.extension_id {
                Some(e) => if e != ext {
                    return Err(Fatal::ExtensionIdConflict { established: e, found: ext });
                },
                None => {},
            }
            let extends = match &d.children[0].display_name {
                Some(s) => s.clone(),
                None => {
                    return Err(Fatal::MalformedVar);
                },
            };
            let vname = match &d.name {
                Some(s) => s.clone(),
                None => {
                    return Err(Fatal::MalformedVar);
                },
            };
            w.extension_id = Some(ext);
            w.enums.push(EnumRecord::Offset { offset: off, extends, name: vname });
            proof {
                assert(w@.enums =~= old(w)@.enums.push(
                    SpecEnumRecord::Offset {
                        offset: spec_extension_offset(*x as int) as i64,
                        extends: spec_opt_str(d.children@[0].display_name),
                        name: spec_opt_str(d.name),
                    },
                ));
                assert(w@ =~= (SpecWranglings {
                    extension_id: Some(ext),
                    enums: w@.enums,
                    ..old(w)@
                }));
            }
            Ok(())
        },
    }
}

/// Handles a macro definition.
pub fn handle_macro(w: &mut Wranglings, d: &MacroDecl) -> (r: Result<(), Fatal>)
    ensures
        handler_post(spec_handle_macro(old(w)@, *d), r, old(w)@, final(w)@),
{
    let name = match &d.name {
        Some(n) => n,
        None => {
            return Err(Fatal::MalformedMacro);
        },
    };
    if d.tokens.len() == 0 {
        return Err(Fatal::MalformedMacro);
    }
    let val = &d.tokens[d.tokens.len() - 1];
    if str_has_suffix(name.as_str(), "_SPEC_VERSION") {
        w.enums.push(EnumRecord::Value { value: val.clone(), name: name.clone() });
        proof {
            assert(w@.enums =~= old(w)@.enums.push(
                SpecEnumRecord::Value { value: val@, name: name@ },
            ));
            assert(w@ =~= (SpecWranglings { enums: w@.enums, ..old(w)@ }));
        }
        Ok(())
    } else if str_has_suffix(name.as_str(), "_EXTENSION_NAME") {
        let trimmed = trim_char_exec(val.as_str(), '"');
        w.extension_name = Some(String::from_str(trimmed));
        proof {
            assert(w@ =~= (SpecWranglings {
                extension_name: Some(trim_char(val@, '"')),
                ..old(w)@
            }));
        }
        Ok(())
    } else {
        Ok(())
    }
}

/// Classifies one top-level declaration and runs the matching handler.
pub fn handle_decl(w: &mut Wranglings, d: &Decl) -> (r: Result<(), Fatal>)
    ensures
        handler_post(spec_handle_decl(old(w)@, *d), r, old(w)@, final(w)@),
{
    if !d.in_target_file {
        return Ok(());
    }
    match &d.body {
        DeclBody::Typedef(t) => handle_typedef(w, t),
        DeclBody::Var(v) => handle_vardecl(w, v),
        DeclBody::MacroDef(m) => handle_macro(w, m),
        DeclBody::Other => Ok(()),
    }
}

proof fn lemma_spec_wrangling_take_step(decls: Seq<Decl>, i: int)
    requires
        0 <= i < decls.len(),
    ensures
        spec_wrangling(decls.take(i + 1)) == (match spec_wrangling(decls.take(i)) {
            Ok(w) => spec_handle_decl(w, decls[i]),
            Err(f) => Err(f),
        }),
{
    assert(decls.take(i + 1).drop_last() =~= decls.take(i));
    assert(decls.take(i + 1).last() == decls[i]);
}

proof fn lemma_spec_wrangling_err_prefix(decls: Seq<Decl>, i: int)
    requires
        0 <= i <= decls.len(),
        spec_wrangling(decls.take(i)) is Err,
    ensures
        spec_wrangling(decls) == spec_wrangling(decls.take(i)),
    decreases decls.len() - i,
{
    if i == decls.len() {
        assert(decls.take(i) =~= decls);
    } else {
        lemma_spec_wrangling_take_step(decls, i);
        lemma_spec_wrangling_err_prefix(decls, i + 1);
    }
}

/// Processes one file's top-level declarations in order, starting from a fresh
/// state, and returns the accumulated Extension Record state, or the first
/// fatal defect.
#[verifier::loop_isolation(false)]
pub fn wrangling(decls: &Vec<Decl>) -> (r: Result<Wranglings, Fatal>)
    ensures
        (match spec_wrangling(decls@) {
            Ok(sw) => r matches Ok(w) && w@ == sw,
            Err(f) => r matches Err(g) && g == f,
        }),
{
    let mut w = Wranglings::new();
    proof {
        assert(decls@.take(0) =~= Seq::<Decl>::empty());
    }
    let mut i: usize = 0;
    while i < decls.len()
        invariant
            0 <= i <= decls@.len(),
            spec_wrangling(decls@.take(i as int)) == Ok::<SpecWranglings, Fatal>(w@),
        decreases decls@.len() - i,
    {
        match handle_decl(&mut w, &decls[i]) {
            Ok(()) => {},
            Err(f) => {
                proof {
                    lemma_spec_wrangling_take_step(decls@, i as int);
                    lemma_spec_wrangling_err_prefix(decls@, i as int + 1);
                }
                return Err(f);
            },
        }
        proof {
            lemma_spec_wrangling_take_step(decls@, i as int);
        }
        i += 1;
    }
    proof {
        assert(decls@.take(decls@.len() as int) =~= decls@);
    }
    Ok(w)
}

} // verus!
