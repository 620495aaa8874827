//! The multi-file driver and serializer: renders each file's accumulated
//! records into the three marker-delimited output sections, and ties the
//! per-file processing and the serialization together in [`run`].

use vstd::prelude::*;
use vstd::string::*;
use crate::decl::Decl;
use crate::handlers::spec_wrangling;
use crate::handlers::wrangling;
use crate::records::EnumRecord;
use crate::records::CommandRecord;
use crate::records::TypeRecord;
use crate::records::Fatal;
use crate::records::SpecCommandRecord;
use crate::records::SpecEnumRecord;
use crate::records::SpecTypeRecord;
use crate::records::SpecTypedName;
use crate::records::SpecWranglings;
use crate::records::Wranglings;
use crate::text::spec_idec;
use crate::text::i64_to_dec;

verus! {

/// The rendered `<param>` line of one command parameter.
pub open spec fn spec_render_param(p: SpecTypedName) -> Seq<char> {
    "<param>"@ + p.ty_text + "<name>"@ + p.name + "</name></param>\n"@
}

/// The rendered `<param>` lines of a parameter list, in order.
pub open spec fn spec_render_params(ps: Seq<SpecTypedName>) -> Seq<char>
    decreases ps.len(),
{
    if ps.len() == 0 {
        Seq::<char>::empty()
    } else {
        spec_render_params(ps.drop_last()) + spec_render_param(ps.last())
    }
}

/// The rendered `<command>` block of one Command Record, with the API's
/// standard success/error-code annotation pair.
pub open spec fn spec_render_command(c: SpecCommandRecord) -> Seq<char> {
    "<command successcodes=\"XR_SUCCESS\" errorcodes=\"XR_ERROR_FUNCTION_UNSUPPORTED\">\n"@
        + "<proto><type>"@ + c.ret + "</type><name>"@ + c.name + "</name></proto>\n"@
        + spec_render_params(c.params) + "</command>\n"@
}

/// The rendered `<member>` line of one struct member.
pub open spec fn spec_render_member(m: SpecTypedName) -> Seq<char> {
    "<member>"@ + m.ty_text + " <name>"@ + m.name + "</name></member>\n"@
}

/// The rendered `<member>` lines of a member list, in order.
pub open spec fn spec_render_members(ms: Seq<SpecTypedName>) -> Seq<char>
    decreases ms.len(),
{
    if ms.len() == 0 {
        Seq::<char>::empty()
    } else {
        spec_render_members(ms.drop_last()) + spec_render_member(ms.last())
    }
}

/// The rendered `<type category="struct">` block of one Type Record.
pub open spec fn spec_render_type_record(t: SpecTypeRecord) -> Seq<char> {
    "<type category=\"struct\" name=\""@ + t.name + "\">\n"@ + spec_render_members(t.members)
        + "</type>\n"@
}

/// The rendered `<enum>` line of one Enum Record.
pub open spec fn spec_render_enum(e: SpecEnumRecord) -> Seq<char> {
    match e {
        SpecEnumRecord::Offset { offset, extends, name } => "<enum offset=\""@ + spec_idec(
            offset as int,
        ) + "\" extends=\""@ + extends + "\" name=\""@ + name + "\"/>\n"@,
        SpecEnumRecord::Value { value, name } => "<enum value=\""@ + value + "\" name=\""@ + name
            + "\"/>\n"@,
    }
}

/// The rendered `<enum>` lines of an Enum Record list, in order.
pub open spec fn spec_render_enums(es: Seq<SpecEnumRecord>) -> Seq<char>
    decreases es.len(),
{
    if es.len() == 0 {
        Seq::<char>::empty()
    } else {
        spec_render_enums(es.drop_last()) + spec_render_enum(es.last())
    }
}

/// The enum lines as they stand inside a `<require>` block: a lone blank line
/// when a file collected no Enum Record.
pub open spec fn spec_require_enums(es: Seq<SpecEnumRecord>) -> Seq<char> {
    if es.len() == 0 {
        "\n"@
    } else {
        spec_render_enums(es)
    }
}

/// The rendered `<command>` blocks a file accumulated, in order.
pub open spec fn spec_commands_xml(cs: Seq<SpecCommandRecord>) -> Seq<char>
    decreases cs.len(),
{
    if cs.len() == 0 {
        Seq::<char>::empty()
    } else {
        spec_commands_xml(cs.drop_last()) + spec_render_command(cs.last())
    }
}

/// The rendered `<type>` blocks a file accumulated, in order.
pub open spec fn spec_types_xml(ts: Seq<SpecTypeRecord>) -> Seq<char>
    decreases ts.len(),
{
    if ts.len() == 0 {
        Seq::<char>::empty()
    } else {
        spec_types_xml(ts.drop_last()) + spec_render_type_record(ts.last())
    }
}

/// The reference-only `<command name=../>` stub lines for a file's commands.
pub open spec fn spec_command_stubs(cs: Seq<SpecCommandRecord>) -> Seq<char>
    decreases cs.len(),
{
    if cs.len() == 0 {
        Seq::<char>::empty()
    } else {
        spec_command_stubs(cs.drop_last()) + "<command name=\""@ + cs.last().name + "\"/>\n"@
    }
}

/// The reference-only `<type name=../>` stub lines for a file's types.
pub open spec fn spec_type_stubs(ts: Seq<SpecTypeRecord>) -> Seq<char>
    decreases ts.len(),
{
    if ts.len() == 0 {
        Seq::<char>::empty()
    } else {
        spec_type_stubs(ts.drop_last()) + "<type name=\""@ + ts.last().name + "\"/>\n"@
    }
}

/// One file's block within a section: a separator comment, the file's rendered
/// text, and a blank line.
pub open spec fn spec_block(body: Seq<char>) -> Seq<char> {
    "<!-- XXX: lol -->\n"@ + body + "\n"@
}

/// The per-file blocks of the commands section, in file order.
pub open spec fn spec_command_blocks(ws: Seq<SpecWranglings>) -> Seq<char>
    decreases ws.len(),
{
    if ws.len() == 0 {
        Seq::<char>::empty()
    } else {
        spec_command_blocks(ws.drop_last()) + spec_block(spec_commands_xml(ws.last().commands))
    }
}

/// The per-file blocks of the types section, in file order.
pub open spec fn spec_type_blocks(ws: Seq<SpecWranglings>) -> Seq<char>
    decreases ws.len(),
{
    if ws.len() == 0 {
        Seq::<char>::empty()
    } else {
        spec_type_blocks(ws.drop_last()) + spec_block(spec_types_xml(ws.last().types))
    }
}

/// One file's `<extension>` wrapper: its name and numeric id, its enum lines
/// inside a `<require>` block, and stub entries for its command and type names.
/// Meaningful only when the file established both name and id.
pub open spec fn spec_extension_block(w: SpecWranglings) -> Seq<char> {
    "<!-- XXX: lol -->\n"@ + "<extension name=\""@ + (match w.extension_name {
        Some(n) => n,
        None => Seq::<char>::empty(),
    }) + "\" number=\""@ + (match w.extension_id {
        Some(i) => spec_idec(i as int),
        None => Seq::<char>::empty(),
    }) + "\" type=\"instance\" supported=\"openxr\">\n"@ + "<require>\n"@ + spec_require_enums(
        w.enums,
    ) + spec_command_stubs(w.commands) + spec_type_stubs(w.types) + "</require>\n"@
        + "</extension>\n"@ + "\n"@
}

/// The per-file `<extension>` blocks, in file order.
pub open spec fn spec_extension_blocks(ws: Seq<SpecWranglings>) -> Seq<char>
    decreases ws.len(),
{
    if ws.len() == 0 {
        Seq::<char>::empty()
    } else {
        spec_extension_blocks(ws.drop_last()) + spec_extension_block(ws.last())
    }
}

/// The whole output: three sections, each opened by its paste-location marker
/// line and a blank line, holding one block per file in file order.
pub open spec fn spec_output(ws: Seq<SpecWranglings>) -> Seq<char> {
    "--- Paste this before the </commands> closer ---\n\n"@ + spec_command_blocks(ws)
        + "--- Paste this before the </types> closer ---\n\n"@ + spec_type_blocks(ws)
        + "--- Paste this before the </extensions> closer ---\n\n"@ + spec_extension_blocks(ws)
}

/// A file that established both its extension name and its extension id.
pub open spec fn spec_ext_ok(w: SpecWranglings) -> bool {
    w.extension_name is Some && w.extension_id is Some
}

/// The defect of the first file, in order, that never established its
/// extension name or id; `None` when every file established both.
pub open spec fn spec_missing(ws: Seq<SpecWranglings>) -> Option<Fatal>
    decreases ws.len(),
{
    if ws.len() == 0 {
        None
    } else if ws[0].extension_name is None {
        Some(Fatal::MissingExtensionName)
    } else if ws[0].extension_id is None {
        Some(Fatal::MissingExtensionId)
    } else {
        spec_missing(ws.skip(1))
    }
}

/// What serializing a list of per-file states yields: the whole output text,
/// or the defect of the first file that never established its extension name
/// or id.
pub open spec fn spec_serialize(ws: Seq<SpecWranglings>) -> Result<Seq<char>, Fatal> {
    match spec_missing(ws) {
        Some(f) => Err(f),
        None => Ok(spec_output(ws)),
    }
}

/// The spec views of a list of per-file states.
pub open spec fn spec_views(ws: Seq<Wranglings>) -> Seq<SpecWranglings> {
    ws.map_values(|w: Wranglings| w@)
}

proof fn lemma_spec_missing_at(ws: Seq<SpecWranglings>, i: int)
    requires
        0 <= i < ws.len(),
        forall|k: int| 0 <= k < i ==> spec_ext_ok(#[trigger] ws[k]),
        !spec_ext_ok(ws[i]),
    ensures
        spec_missing(ws) == (if ws[i].extension_name is None {
            Some(Fatal::MissingExtensionName)
        } else {
            Some(Fatal::MissingExtensionId)
        }),
    decreases i,
{
    if i > 0 {
        assert(spec_ext_ok(ws[0]));
        let t = ws.skip(1);
        assert(forall|k: int| 0 <= k < i - 1 ==> t[k] == ws[k + 1]);
        lemma_spec_missing_at(t, i - 1);
    }
}

proof fn lemma_spec_missing_none(ws: Seq<SpecWranglings>)
    requires
        forall|k: int| 0 <= k < ws.len() ==> spec_ext_ok(#[trigger] ws[k]),
    ensures
        spec_missing(ws) is None,
    decreases ws.len(),
{
    if ws.len() > 0 {
        let t = ws.skip(1);
        assert(forall|k: int| 0 <= k < t.len() ==> t[k] == ws[k + 1]);
        lemma_spec_missing_none(t);
    }
}

/// Renders one Command Record as its `<command>` block.
#[verifier::loop_isolation(false)]
fn render_command(c: &CommandRecord) -> (r: String)
    ensures
        r@ == spec_render_command(c@),
{
    let mut s = String::from_str(
        "<command successcodes=\"XR_SUCCESS\" errorcodes=\"XR_ERROR_FUNCTION_UNSUPPORTED\">\n",
    );
    s.append("<proto><type>");
    s.append(c.ret.as_str());
    s.append("</type><name>");
    s.append(c.name.as_str());
    s.append("</name></proto>\n");
    let ghost head = s@;
    let mut i: usize = 0;
    proof {
        assert(c@.params.take(0) =~= Seq::<SpecTypedName>::empty());
    }
    while i < c.params.len()
        invariant
            0 <= i <= c@.params.len(),
            c@.params.len() == c.params@.len(),
            s@ == head + spec_render_params(c@.params.take(i as int)),
        decreases c@.params.len() - i,
    {
        s.append("<param>");
        s.append(c.params[i].ty_text.as_str());
        s.append("<name>");
        s.append(c.params[i].name.as_str());
        s.append("</name></param>\n");
        proof {
            assert(c@.params.take(i + 1).drop_last() =~= c@.params.take(i as int));
            assert(c@.params.take(i + 1).last() == c@.params[i as int]);
            assert(c@.params[i as int] == c.params@[i as int]@);
            assert(s@ =~= head + spec_render_params(c@.params.take(i + 1)));
        }
        i += 1;
    }
    s.append("</command>\n");
    proof {
        assert(c@.params.take(c@.params.len() as int) =~= c@.params);
        assert(s@ =~= spec_render_command(c@));
    }
    s
}

/// Renders one Type Record as its `<type category="struct">` block.
#[verifier::loop_isolation(false)]
fn render_type_record(t: &TypeRecord) -> (r: String)
    ensures
        r@ == spec_render_type_record(t@),
{
    let mut s = String::from_str("<type category=\"struct\" name=\"");
    s.append(t.name.as_str());
    s.append("\">\n");
    let ghost head = s@;
    let mut i: usize = 0;
    proof {
        assert(t@.members.take(0) =~= Seq::<SpecTypedName>::empty());
    }
    while i < t.members.len()
        invariant
            0 <= i <= t@.members.len(),
            t@.members.len() == t.members@.len(),
            s@ == head + spec_render_members(t@.members.take(i as int)),
        decreases t@.members.len() - i,
    {
        s.append("<member>");
        s.append(t.members[i].ty_text.as_str());
        s.append(" <name>");
        s.append(t.members[i].name.as_str());
        s.append("</name></member>\n");
        proof {
            assert(t@.members.take(i + 1).drop_last() =~= t@.members.take(i as int));
            assert(t@.members.take(i + 1).last() == t@.members[i as int]);
            assert(t@.members[i as int] == t.members@[i as int]@);
            assert(s@ =~= head + spec_render_members(t@.members.take(i + 1)));
        }
        i += 1;
    }
    s.append("</type>\n");
    proof {
        assert(t@.members.take(t@.members.len() as int) =~= t@.members);
        assert(s@ =~= spec_render_type_record(t@));
    }
    s
}

/// Renders one Enum Record as its `<enum>` line.
fn render_enum(e: &EnumRecord) -> (r: String)
    ensures
        r@ == spec_render_enum(e@),
{
    match e {
        EnumRecord::Offset { offset, extends, name } => {
            let mut s = String::from_str("<enum offset=\"");
            let off = i64_to_dec(*offset);
            s.append(off.as_str());
            s.append("\" extends=\"");
            s.append(extends.as_str());
            s.append("\" name=\"");
            s.append(name.as_str());
            s.append("\"/>\n");
            proof {
                assert(s@ =~= spec_render_enum(e@));
            }
            s
        },
        EnumRecord::Value { value, name } => {
            let mut s = String::from_str("<enum value=\"");
            s.append(value.as_str());
            s.append("\" name=\"");
            s.append(name.as_str());
            s.append("\"/>\n");
            proof {
                assert(s@ =~= spec_render_enum(e@));
            }
            s
        },
    }
}

/// Appends one file's commands-section block to `out`.
#[verifier::loop_isolation(false)]
fn append_command_block(out: &mut String, w: &Wranglings)
    ensures
        final(out)@ == old(out)@ + spec_block(spec_commands_xml(w@.commands)),
{
    out.append("<!-- XXX: lol -->\n");
    let ghost head = out@;
    let mut i: usize = 0;
    proof {
        assert(w@.commands.take(0) =~= Seq::<SpecCommandRecord>::empty());
    }
    while i < w.commands.len()
        invariant
            0 <= i <= w@.commands.len(),
            w@.commands.len() == w.commands@.len(),
            out@ == head + spec_commands_xml(w@.commands.take(i as int)),
        decreases w@.commands.len() - i,
    {
        let block = render_command(&w.commands[i]);
        out.append(block.as_str());
        proof {
            assert(w@.commands.take(i + 1).drop_last() =~= w@.commands.take(i as int));
            assert(w@.commands.take(i + 1).last() == w@.commands[i as int]);
            assert(w@.commands[i as int] == w.commands@[i as int]@);
            assert(out@ =~= head + spec_commands_xml(w@.commands.take(i + 1)));
        }
        i += 1;
    }
    out.append("\n");
    proof {
        assert(w@.commands.take(w@.commands.len() as int) =~= w@.commands);
        assert(out@ =~= old(out)@ + spec_block(spec_commands_xml(w@.commands)));
    }
}

/// Appends one file's types-section block to `out`.
#[verifier::loop_isolation(false)]
fn append_type_block(out: &mut String, w: &Wranglings)
    ensures
        final(out)@ == old(out)@ + spec_block(spec_types_xml(w@.types)),
{
    out.append("<!-- XXX: lol -->\n");
    let ghost head = out@;
    let mut i: usize = 0;
    proof {
        assert(w@.types.take(0) =~= Seq::<SpecTypeRecord>::empty());
    }
    while i < w.types.len()
        invariant
            0 <= i <= w@.types.len(),
            w@.types.len() == w.types@.len(),
            out@ == head + spec_types_xml(w@.types.take(i as int)),
        decreases w@.types.len() - i,
    {
        let block = render_type_record(&w.types[i]);
        out.append(block.as_str());
        proof {
            assert(w@.types.take(i + 1).drop_last() =~= w@.types.take(i as int));
            assert(w@.types.take(i + 1).last() == w@.types[i as int]);
            assert(w@.types[i as int] == w.types@[i as int]@);
            assert(out@ =~= head + spec_types_xml(w@.types.take(i + 1)));
        }
        i += 1;
    }
    out.append("\n");
    proof {
        assert(w@.types.take(w@.types.len() as int) =~= w@.types);
        assert(out@ =~= old(out)@ + spec_block(spec_types_xml(w@.types)));
    }
}

/// Appends one file's `<extension>` block to `out`.
#[verifier::loop_isolation(false)]
#[verifier::rlimit(60)]
fn append_extension_block(out: &mut String, w: &Wranglings)
    requires
        spec_ext_ok(w@),
    ensures
        final(out)@ == old(out)@ + spec_extension_block(w@),
{
    out.append("<!-- XXX: lol -->\n");
    out.append("<extension name=\"");
    match &w.extension_name {
        Some(n) => out.append(n.as_str()),
        None => {},
    }
    out.append("\" number=\"");
    match &w.extension_id {
        Some(i) => {
            let id = i64_to_dec(*i);
            out.append(id.as_str());
        },
        None => {},
    }
    out.append("\" type=\"instance\" supported=\"openxr\">\n");
    out.append("<require>\n");
    if w.enums.len() == 0 {
        proof {
            assert(w@.enums.len() == 0);
        }
        out.append("\n");
    } else {
        let ghost head = out@;
        let mut i: usize = 0;
        proof {
            assert(w@.enums.take(0) =~= Seq::<SpecEnumRecord>::empty());
        }
        while i < w.enums.len()
            invariant
                0 <= i <= w@.enums.len(),
                w@.enums.len() == w.enums@.len(),
                out@ == head + spec_render_enums(w@.enums.take(i as int)),
            decreases w@.enums.len() - i,
        {
            let line = render_enum(&w.enums[i]);
            out.append(line.as_str());
            proof {
                assert(w@.enums.take(i + 1).drop_last() =~= w@.enums.take(i as int));
                assert(w@.enums.take(i + 1).last() == w@.enums[i as int]);
                assert(w@.enums[i as int] == w.enums@[i as int]@);
                assert(out@ =~= head + spec_render_enums(w@.enums.take(i + 1)));
            }
            i += 1;
        }
        proof {
            assert(w@.enums.take(w@.enums.len() as int) =~= w@.enums);
        }
    }
    let ghost mid1 = out@;
    let mut i: usize = 0;
    proof {
        assert(w@.commands.take(0) =~= Seq::<SpecCommandRecord>::empty());
    }
    while i < w.commands.len()
        invariant
            0 <= i <= w@.commands.len(),
            w@.commands.len() == w.commands@.len(),
            out@ == mid1 + spec_command_stubs(w@.commands.take(i as int)),
        decreases w@.commands.len() - i,
    {
        out.append("<command name=\"");
        out.append(w.commands[i].name.as_str());
        out.append("\"/>\n");
        proof {
            assert(w@.commands.take(i + 1).drop_last() =~= w@.commands.take(i as int));
            assert(w@.commands.take(i + 1).last() == w@.commands[i as int]);
            assert(w@.commands[i as int] == w.commands@[i as int]@);
            assert(out@ =~= mid1 + spec_command_stubs(w@.commands.take(i + 1)));
        }
        i += 1;
    }
    proof {
        assert(w@.commands.take(w@.commands.len() as int) =~= w@.commands);
    }
    let ghost mid2 = out@;
    let mut i: usize = 0;
    proof {
        assert(w@.types.take(0) =~= Seq::<SpecTypeRecord>::empty());
    }
    while i < w.types.len()
        invariant
            0 <= i <= w@.types.len(),
            w@.types.len() == w.types@.len(),
            out@ == mid2 + spec_type_stubs(w@.types.take(i as int)),
        decreases w@.types.len() - i,
    {
        out.append("<type name=\"");
        out.append(w.types[i].name.as_str());
        out.append("\"/>\n");
        proof {
            assert(w@.types.take(i + 1).drop_last() =~= w@.types.take(i as int));
            assert(w@.types.take(i + 1).last() == w@.types[i as int]);
            assert(w@.types[i as int] == w.types@[i as int]@);
            assert(out@ =~= mid2 + spec_type_stubs(w@.types.take(i + 1)));
        }
        i += 1;
    }
    proof {
        assert(w@.types.take(w@.types.len() as int) =~= w@.types);
    }
    out.append("</require>\n");
    out.append("</extension>\n");
    out.append("\n");
    proof {
        assert(out@ =~= old(out)@ + spec_extension_block(w@));
    }
}

/// Serializes the per-file states, in file order, into the three
/// marker-delimited output sections; fails with the defect of the first file
/// that never established its extension name or its extension id.
#[verifier::loop_isolation(false)]
pub fn serialize(ws: &Vec<Wranglings>) -> (r: Result<String, Fatal>)
    ensures
        (match spec_serialize(spec_views(ws@)) {
            Ok(t) => r matches Ok(s) && s@ == t,
            Err(f) => r matches Err(g) && g == f,
        }),
{
    let ghost vs = spec_views(ws@);
    let mut i: usize = 0;
    while i < ws.len()
        invariant
            0 <= i <= ws@.len(),
            forall|k: int| 0 <= k < i ==> spec_ext_ok(#[trigger] vs[k]),
        decreases ws@.len() - i,
    {
        if ws[i].extension_name.is_none() {
            proof {
                lemma_spec_missing_at(vs, i as int);
            }
            return Err(Fatal::MissingExtensionName);
        }
        if ws[i].extension_id.is_none() {
            proof {
                lemma_spec_missing_at(vs, i as int);
            }
            return Err(Fatal::MissingExtensionId);
        }
        i += 1;
    }
    proof {
        lemma_spec_missing_none(vs);
    }
    let mut out = String::from_str("--- Paste this before the </commands> closer ---\n\n");
    let ghost sec1 = out@;
    let mut i: usize = 0;
    proof {
        assert(vs.take(0) =~= Seq::<SpecWranglings>::empty());
    }
    while i < ws.len()
        invariant
            0 <= i <= ws@.len(),
            out@ == sec1 + spec_command_blocks(vs.take(i as int)),
        decreases ws@.len() - i,
    {
        append_command_block(&mut out, &ws[i]);
        proof {
            assert(vs.take(i + 1).drop_last() =~= vs.take(i as int));
            assert(vs.take(i + 1).last() == vs[i as int]);
            assert(vs[i as int] == ws@[i as int]@);
            assert(out@ =~= sec1 + spec_command_blocks(vs.take(i + 1)));
        }
        i += 1;
    }
    out.append("--- Paste this before the </types> closer ---\n\n");
    let ghost sec2 = out@;
    let mut i: usize = 0;
    while i < ws.len()
        invariant
            0 <= i <= ws@.len(),
            out@ == sec2 + spec_type_blocks(vs.take(i as int)),
        decreases ws@.len() - i,
    {
        append_type_block(&mut out, &ws[i]);
        proof {
            assert(vs.take(i + 1).drop_last() =~= vs.take(i as int));
            assert(vs.take(i + 1).last() == vs[i as int]);
            assert(vs[i as int] == ws@[i as int]@);
            assert(out@ =~= sec2 + spec_type_blocks(vs.take(i + 1)));
        }
        i += 1;
    }
    out.append("--- Paste this before the </extensions> closer ---\n\n");
    let ghost sec3 = out@;
    let mut i: usize = 0;
    while i < ws.len()
        invariant
            0 <= i <= ws@.len(),
            out@ == sec3 + spec_extension_blocks(vs.take(i as int)),
        decreases ws@.len() - i,
    {
        proof {
            assert(spec_ext_ok(vs[i as int]));
            assert(vs[i as int] == ws@[i as int]@);
        }
        append_extension_block(&mut out, &ws[i]);
        proof {
            assert(vs.take(i + 1).drop_last() =~= vs.take(i as int));
            assert(vs.take(i + 1).last() == vs[i as int]);
            assert(out@ =~= sec3 + spec_extension_blocks(vs.take(i + 1)));
        }
        i += 1;
    }
    proof {
        assert(vs.take(ws@.len() as int) =~= vs);
        assert(out@ =~= spec_output(vs));
    }
    Ok(out)
}

/// The per-file states of a list of files, each processed independently in
/// input order; the first fatal defect aborts.
pub open spec fn spec_wranglings_of(files: Seq<Vec<Decl>>) -> Result<Seq<SpecWranglings>, Fatal>
    decreases files.len(),
{
    if files.len() == 0 {
        Ok(Seq::<SpecWranglings>::empty())
    } else {
        match spec_wranglings_of(files.drop_last()) {
            Ok(ws) => match spec_wrangling(files.last()@) {
                Ok(w) => Ok(ws.push(w)),
                Err(f) => Err(f),
            },
            Err(f) => Err(f),
        }
    }
}

/// What a whole run yields on a list of files: the serialized output, or the
/// first fatal defect found while processing or serializing.
pub open spec fn spec_run(files: Seq<Vec<Decl>>) -> Result<Seq<char>, Fatal> {
    match spec_wranglings_of(files) {
        Ok(ws) => spec_serialize(ws),
        Err(f) => Err(f),
    }
}

proof fn lemma_spec_wranglings_of_take_step(files: Seq<Vec<Decl>>, i: int)
    requires
        0 <= i < files.len(),
    ensures
        spec_wranglings_of(files.take(i + 1)) == (match spec_wranglings_of(files.take(i)) {
            Ok(ws) => match spec_wrangling(files[i]@) {
                Ok(w) => Ok(ws.push(w)),
                Err(f) => Err(f),
            },
            Err(f) => Err(f),
        }),
{
    assert(files.take(i + 1).drop_last() =~= files.take(i));
    assert(files.take(i + 1).last() == files[i]);
}

proof fn lemma_spec_wranglings_of_err_prefix(files: Seq<Vec<Decl>>, i: int)
    requires
        0 <= i <= files.len(),
        spec_wranglings_of(files.take(i)) is Err,
    ensures
        spec_wranglings_of(files) == spec_wranglings_of(files.take(i)),
    decreases files.len() - i,
{
    if i == files.len() {
        assert(files.take(i) =~= files);
    } else {
        lemma_spec_wranglings_of_take_step(files, i);
        lemma_spec_wranglings_of_err_prefix(files, i + 1);
    }
}

/// Runs the whole tool on the declaration lists of the input files, in input
/// order: one independent Extension Record per file, serialized into the three
/// output sections, or the first fatal defect.
#[verifier::loop_isolation(false)]
pub fn run(files: &Vec<Vec<Decl>>) -> (r: Result<String, Fatal>)
    ensures
        (match spec_run(files@) {
            Ok(t) => r matches Ok(s) && s@ == t,
            Err(f) => r matches Err(g) && g == f,
        }),
{
    let mut ws: Vec<Wranglings> = Vec::new();
    proof {
        assert(files@.take(0) =~= Seq::<Vec<Decl>>::empty());
        assert(spec_views(ws@) =~= Seq::<SpecWranglings>::empty());
    }
    let mut i: usize = 0;
    while i < files.len()
        invariant
            0 <= i <= files@.len(),
            spec_wranglings_of(files@.take(i as int)) == Ok::<Seq<SpecWranglings>, Fatal>(
                spec_views(ws@),
            ),
        decreases files@.len() - i,
    {
        match wrangling(&files[i]) {
            Ok(w) => {
                ws.push(w);
                proof {
                    lemma_spec_wranglings_of_take_step(files@, i as int);
                    assert(spec_views(ws@) =~= spec_wranglings_of(
                        files@.take(i as int + 1),
                    )->Ok_0);
                }
            },
            Err(f) => {
                proof {
                    lemma_spec_wranglings_of_take_step(files@, i as int);
                    lemma_spec_wranglings_of_err_prefix(files@, i as int + 1);
                }
                return Err(f);
            },
        }
        i += 1;
    }
    proof {
        assert(files@.take(files@.len() as int) =~= files@);
    }
    serialize(&ws)
}

} // verus!
