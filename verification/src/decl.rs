//! The library's model of one parsed top-level declaration. An unverified
//! front-end adapter fills these in from the parser's AST; the handlers read
//! nothing of a declaration beyond what stands here.

use vstd::prelude::*;
use crate::ctype::CType;

verus! {

/// One top-level declaration of a header, as the front end reports it.
pub struct Decl {
    /// Whether the node's canonical source file is the file under processing.
    /// Nodes pulled in from included headers, and nodes without a source
    /// location, carry `false` and are skipped.
    pub in_target_file: bool,
    /// The declaration's kind and kind-specific content.
    pub body: DeclBody,
}

/// The syntactic kind of a declaration, with its kind-specific content.
pub enum DeclBody {
    Typedef(TypedefDecl),
    Var(VarDecl),
    MacroDef(MacroDecl),
    /// Any other declaration kind: ignored, by design.
    Other,
}

/// A typedef declaration.
pub struct TypedefDecl {
    /// The typedef's display name, when the front end reports one.
    pub name: Option<String>,
    /// The typedef's underlying type.
    pub underlying: CType,
    /// Display names of the typedef node's child declarations, in order. For a
    /// function-pointer typedef the first child is the pointer declarator and
    /// the rest are the parameters.
    pub child_names: Vec<Option<String>>,
}

/// A variable declaration.
pub struct VarDecl {
    /// The variable's name, when the front end reports one.
    pub name: Option<String>,
    /// The node's children in order: the declared type reference first, the
    /// initializer expression last.
    pub children: Vec<VarChild>,
}

/// One child node of a variable declaration.
pub struct VarChild {
    /// The child's display name, when the front end reports one.
    pub display_name: Option<String>,
    /// For each of the child's own children in order: the signed integer the
    /// sub-expression evaluates to at compile time, if constant evaluation
    /// yields one.
    pub child_values: Vec<Option<i64>>,
}

/// A macro definition.
pub struct MacroDecl {
    /// The macro's display name, when the front end reports one.
    pub name: Option<String>,
    /// Spellings of the tokens of the macro definition's source range, in
    /// order; the last one is taken as the replacement value.
    pub tokens: Vec<String>,
}

} // verus!
