//! The library's model of a C type reference, and the renderer that turns one
//! into the registry's inline type-reference markup.
//!
//! Rendering preserves pointer depth and const qualification structurally: a
//! pointer renders as its pointee's rendering followed by `*`, prefixed with
//! `const ` exactly when the pointee is const-qualified; any non-pointer type
//! renders as a `<type>` leaf holding its display name with leading `const `
//! text stripped.

use vstd::prelude::*;
use vstd::string::*;
use crate::text::count_char;
use crate::text::is_prefix;
use crate::text::lemma_count_char_absent;
use crate::text::lemma_count_char_concat;
use crate::text::lemma_strip_prefixes_chars;
use crate::text::strip_prefixes;
use crate::text::strip_prefixes_exec;

verus! {

/// One C type reference, as the front end reports it: its display name,
/// whether the type itself is const-qualified, and its structural shape.
pub struct CType {
    pub name: String,
    pub is_const: bool,
    pub shape: TypeShape,
}

/// The structural shape of a type reference; only the shapes the handlers
/// inspect are distinguished, everything else renders as a plain leaf.
pub enum TypeShape {
    /// A pointer and its pointee type.
    Pointer(Box<CType>),
    /// A function prototype: result type and parameter types in order.
    FunctionProto { ret: Box<CType>, params: Vec<CType> },
    /// An elaborated tag type with its fields in declaration order.
    Elaborated { fields: Vec<StructField> },
    /// Any other type.
    Other,
}

/// One field of an elaborated struct type.
pub struct StructField {
    /// The field's display name, when the front end reports one.
    pub name: Option<String>,
    /// The field's type.
    pub ty: CType,
}

/// The registry type-reference text for `t`: pointees wrapped in `*` with a
/// `const ` marker for const-qualified pointees, and a `<type>` leaf at the
/// first non-pointer type, its display name cleared of leading `const ` text.
pub open spec fn spec_format_type(t: CType) -> Seq<char>
    decreases t,
{
    match t.shape {
        TypeShape::Pointer(p) => (if p.is_const {
            "const "@
        } else {
            Seq::<char>::empty()
        }) + spec_format_type(*p) + "*"@,
        _ => "<type>"@ + strip_prefixes(t.name@, "const "@) + "</type>"@,
    }
}

/// Renders one type reference as inline registry markup.
pub fn format_type(t: &CType) -> (r: String)
    ensures
        r@ == spec_format_type(*t),
    decreases *t,
{
    proof {
        reveal_strlit("const ");
    }
    match &t.shape {
        TypeShape::Pointer(p) => {
            let inner = format_type(p);
            let mut s = if p.is_const {
                String::from_str("const ")
            } else {
                String::new()
            };
            s.append(inner.as_str());
            s.append("*");
            proof {
                assert(s@ =~= spec_format_type(*t));
            }
            s
        },
        _ => {
            let stripped = strip_prefixes_exec(t.name.as_str(), "const ");
            let mut s = String::from_str("<type>");
            s.append(stripped);
            s.append("</type>");
            proof {
                assert(s@ =~= spec_format_type(*t));
            }
            s
        },
    }
}

/// How many pointer layers wrap the leaf of `t`.
pub open spec fn pointer_depth(t: CType) -> nat
    decreases t,
{
    match t.shape {
        TypeShape::Pointer(p) => 1 + pointer_depth(*p),
        _ => 0,
    }
}

/// The first non-pointer type reached from `t`.
pub open spec fn leaf_of(t: CType) -> CType
    decreases t,
{
    match t.shape {
        TypeShape::Pointer(p) => leaf_of(*p),
        _ => t,
    }
}

/// The const qualification of each pointee, outermost pointer first.
pub open spec fn pointer_const_flags(t: CType) -> Seq<bool>
    decreases t,
{
    match t.shape {
        TypeShape::Pointer(p) => seq![p.is_const] + pointer_const_flags(*p),
        _ => Seq::<bool>::empty(),
    }
}

/// The text of a `<type>` leaf wrapped in one pointer layer per flag: each
/// layer appends a `*` and puts `const ` immediately in front of the wrapped
/// text exactly when its flag is set.
pub open spec fn layered_text(flags: Seq<bool>, leaf: Seq<char>) -> Seq<char>
    decreases flags.len(),
{
    if flags.len() == 0 {
        "<type>"@ + leaf + "</type>"@
    } else {
        (if flags[0] {
            "const "@
        } else {
            Seq::<char>::empty()
        }) + layered_text(flags.skip(1), leaf) + "*"@
    }
}

/// Law: the rendered text of a type is its leaf's `<type>` text wrapped in one
/// layer per pointer level, with `const ` standing immediately in front of the
/// wrapped pointee text exactly at the levels whose pointee is const-qualified,
/// and nowhere else.
pub proof fn lemma_format_type_layers(t: CType)
    ensures
        spec_format_type(t) == layered_text(
            pointer_const_flags(t),
            strip_prefixes(leaf_of(t).name@, "const "@),
        ),
    decreases t,
{
    match t.shape {
        TypeShape::Pointer(p) => {
            lemma_format_type_layers(*p);
            let flags = pointer_const_flags(t);
            assert(flags[0] == p.is_const);
            assert(flags.skip(1) =~= pointer_const_flags(*p));
        },
        _ => {},
    }
}

/// Law: the rendered text of a type holds exactly one `*` per pointer level,
/// provided the leaf type's display name holds none.
pub proof fn lemma_format_type_star_count(t: CType)
    requires
        forall|i: int| 0 <= i < leaf_of(t).name@.len() ==> leaf_of(t).name@[i] != '*',
    ensures
        count_char(spec_format_type(t), '*') == pointer_depth(t),
    decreases t,
{
    reveal_strlit("const ");
    reveal_strlit("<type>");
    reveal_strlit("</type>");
    reveal_strlit("*");
    match t.shape {
        TypeShape::Pointer(p) => {
            lemma_format_type_star_count(*p);
            let q: Seq<char> = if p.is_const {
                "const "@
            } else {
                Seq::<char>::empty()
            };
            lemma_count_char_absent(q, '*');
            lemma_count_char_concat(q, spec_format_type(*p), '*');
            lemma_count_char_concat(q + spec_format_type(*p), "*"@, '*');
            assert(count_char("*"@, '*') == 1) by {
                assert("*"@.len() == 1);
                assert("*"@.last() == '*');
                assert("*"@.drop_last() =~= Seq::<char>::empty());
                assert(count_char("*"@.drop_last(), '*') == 0);
            }
        },
        _ => {
            let stripped = strip_prefixes(t.name@, "const "@);
            lemma_strip_prefixes_chars(t.name@, "const "@, '*');
            lemma_count_char_absent("<type>"@, '*');
            lemma_count_char_absent(stripped, '*');
            lemma_count_char_absent("</type>"@, '*');
            lemma_count_char_concat("<type>"@, stripped, '*');
            lemma_count_char_concat("<type>"@ + stripped, "</type>"@, '*');
        },
    }
}

} // verus!
