//! The rendered records a file accumulates, the per-file aggregate state, and
//! the fatal-error taxonomy. Each executable type carries a spec-level view
//! over character sequences, which the contracts speak of.

use vstd::prelude::*;
use vstd::string::*;
use crate::text::spec_idec;
use crate::text::i64_to_dec;

verus! {

/// A rendered type text paired with the declared name standing beside it:
/// a command parameter or a struct member.
pub struct TypedName {
    pub ty_text: String,
    pub name: String,
}

/// Spec view of [`TypedName`].
#[verifier::ext_equal]
pub struct SpecTypedName {
    pub ty_text: Seq<char>,
    pub name: Seq<char>,
}

impl View for TypedName {
    type V = SpecTypedName;

    open spec fn view(&self) -> SpecTypedName {
        SpecTypedName { ty_text: self.ty_text@, name: self.name@ }
    }
}

/// One API entry point: its bare name, the display name of its return type,
/// and its parameters in order. Produced once per function-pointer typedef.
pub struct CommandRecord {
    pub name: String,
    pub ret: String,
    pub params: Vec<TypedName>,
}

/// Spec view of [`CommandRecord`].
#[verifier::ext_equal]
pub struct SpecCommandRecord {
    pub name: Seq<char>,
    pub ret: Seq<char>,
    pub params: Seq<SpecTypedName>,
}

impl View for CommandRecord {
    type V = SpecCommandRecord;

    open spec fn view(&self) -> SpecCommandRecord {
        SpecCommandRecord {
            name: self.name@,
            ret: self.ret@,
            params: self.params@.map_values(|p: TypedName| p@),
        }
    }
}

/// One struct: its tag-stripped name and its members in declaration order.
/// Produced once per struct typedef.
pub struct TypeRecord {
    pub name: String,
    pub members: Vec<TypedName>,
}

/// Spec view of [`TypeRecord`].
#[verifier::ext_equal]
pub struct SpecTypeRecord {
    pub name: Seq<char>,
    pub members: Seq<SpecTypedName>,
}

impl View for TypeRecord {
    type V = SpecTypeRecord;

    open spec fn view(&self) -> SpecTypeRecord {
        SpecTypeRecord {
            name: self.name@,
            members: self.members@.map_values(|m: TypedName| m@),
        }
    }
}

/// One enum addition: either an offset-style entry decoded from a variable
/// declaration, or a plain value entry from a spec-version macro.
pub enum EnumRecord {
    Offset { offset: i64, extends: String, name: String },
    Value { value: String, name: String },
}

/// Spec view of [`EnumRecord`].
#[verifier::ext_equal]
pub enum SpecEnumRecord {
    Offset { offset: i64, extends: Seq<char>, name: Seq<char> },
    Value { value: Seq<char>, name: Seq<char> },
}

impl View for EnumRecord {
    type V = SpecEnumRecord;

    open spec fn view(&self) -> SpecEnumRecord {
        match self {
            EnumRecord::Offset { offset, extends, name } => SpecEnumRecord::Offset {
                offset: *offset,
                extends: extends@,
                name: name@,
            },
            EnumRecord::Value { value, name } => SpecEnumRecord::Value {
                value: value@,
                name: name@,
            },
        }
    }
}

/// The state one file accumulates: its records in declaration order, the
/// extension id fixed by the first decoded enum value, and the extension name
/// set by the designated macro.
pub struct Wranglings {
    pub commands: Vec<CommandRecord>,
    pub types: Vec<TypeRecord>,
    pub enums: Vec<EnumRecord>,
    pub extension_id: Option<i64>,
    pub extension_name: Option<String>,
}

/// Spec view of [`Wranglings`].
#[verifier::ext_equal]
pub struct SpecWranglings {
    pub commands: Seq<SpecCommandRecord>,
    pub types: Seq<SpecTypeRecord>,
    pub enums: Seq<SpecEnumRecord>,
    pub extension_id: Option<i64>,
    pub extension_name: Option<Seq<char>>,
}

impl View for Wranglings {
    type V = SpecWranglings;

    open spec fn view(&self) -> SpecWranglings {
        SpecWranglings {
            commands: self.commands@.map_values(|c: CommandRecord| c@),
            types: self.types@.map_values(|t: TypeRecord| t@),
            enums: self.enums@.map_values(|e: EnumRecord| e@),
            extension_id: self.extension_id,
            extension_name: match self.extension_name {
                Some(n) => Some(n@),
                None => None,
            },
        }
    }
}

impl SpecWranglings {
    /// The state a file starts from: nothing collected, nothing established.
    pub open spec fn empty() -> SpecWranglings {
        SpecWranglings {
            commands: Seq::<SpecCommandRecord>::empty(),
            types: Seq::<SpecTypeRecord>::empty(),
            enums: Seq::<SpecEnumRecord>::empty(),
            extension_id: None,
            extension_name: None,
        }
    }
}

impl Wranglings {
    /// Fresh per-file state.
    pub fn new() -> (w: Wranglings)
        ensures
            w@ == SpecWranglings::empty(),
    {
        let w = Wranglings {
            commands: Vec::new(),
            types: Vec::new(),
            enums: Vec::new(),
            extension_id: None,
            extension_name: None,
        };
        proof {
            assert(w@ =~= SpecWranglings::empty());
        }
        w
    }
}

/// A fatal defect in the input. Every variant aborts the whole run: there is
/// no partial output and no recovery.
#[derive(PartialEq, Eq, Structural, Clone, Copy, Debug)]
pub enum Fatal {
    /// A variable declaration missing its expected type/initializer children,
    /// or a decoded one whose type or constant name the front end cannot name.
    MalformedVar,
    /// A typedef whose shape cannot be read: no display name, a display name
    /// shorter than the naming tag, no pointer-declarator child, a
    /// parameter-name count that disagrees with the parameter-type count, or a
    /// nameless parameter or field.
    MalformedTypedef,
    /// A macro definition without a display name or with an empty replacement
    /// token range.
    MalformedMacro,
    /// Two decoded enum values in one file imply different extension ids.
    ExtensionIdConflict { established: i64, found: i64 },
    /// A file never established its extension name.
    MissingExtensionName,
    /// A file never established its extension id.
    MissingExtensionId,
}

/// The diagnostic text for a fatal defect.
pub open spec fn spec_describe_fatal(f: Fatal) -> Seq<char> {
    match f {
        Fatal::MalformedVar => "variable declaration does not have the expected shape"@,
        Fatal::MalformedTypedef => "typedef declaration does not have the expected shape"@,
        Fatal::MalformedMacro => "macro definition does not have the expected shape"@,
        Fatal::ExtensionIdConflict { established, found } => "file encodes two extension ids: "@
            + spec_idec(established as int) + " and "@ + spec_idec(found as int),
        Fatal::MissingExtensionName => "file never established its extension name"@,
        Fatal::MissingExtensionId => "file never established its extension id"@,
    }
}

impl Fatal {
    /// Renders the diagnostic text for this defect.
    pub fn describe(&self) -> (r: String)
        ensures
            r@ == spec_describe_fatal(*self),
    {
        match self {
            Fatal::MalformedVar => String::from_str(
                "variable declaration does not have the expected shape",
            ),
            Fatal::MalformedTypedef => String::from_str(
                "typedef declaration does not have the expected shape",
            ),
            Fatal::MalformedMacro => String::from_str(
                "macro definition does not have the expected shape",
            ),
            Fatal::ExtensionIdConflict { established, found } => {
                let mut s = String::from_str("file encodes two extension ids: ");
                let a = i64_to_dec(*established);
                let b = i64_to_dec(*found);
                s.append(a.as_str());
                s.append(" and ");
                s.append(b.as_str());
                proof {
                    assert(s@ =~= spec_describe_fatal(*self));
                }
                s
            },
            Fatal::MissingExtensionName => String::from_str(
                "file never established its extension name",
            ),
            Fatal::MissingExtensionId => String::from_str(
                "file never established its extension id",
            ),
        }
    }
}

} // verus!
