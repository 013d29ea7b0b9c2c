//! Rendering emitted declarations to target-language text: the merged doc
//! comment precedes the declaration header (name and generic parameters),
//! and the body is a record block, a tuple row, `null` for a unit type, or
//! one discriminated-union member per variant.

use vstd::prelude::*;

use crate::emit::{Decl, DeclBody, FieldDecl, MemberDecl, MemberShape};

verus! {

/// Names joined by `", "`.
pub open spec fn names_join(ws: Seq<String>) -> Seq<char>
    decreases ws.len(),
{
    if ws.len() == 0 {
        Seq::empty()
    } else if ws.len() == 1 {
        ws[0]@
    } else {
        names_join(ws.subrange(0, ws.len() - 1)) + ", "@ + ws[ws.len() - 1]@
    }
}

/// The generic parameter list of a header: empty, or the names in angle
/// brackets.
pub open spec fn generics_text(gs: Seq<String>) -> Seq<char> {
    if gs.len() == 0 {
        Seq::empty()
    } else {
        "<"@ + names_join(gs) + ">"@
    }
}

/// One record field's line: its comment block, two spaces of indentation,
/// `name: type;` and a newline.
pub open spec fn field_line(m: FieldDecl) -> Seq<char> {
    (if m.comment@.len() > 0 {
        m.comment@ + "\n"@
    } else {
        Seq::empty()
    }) + "  "@ + m.name@ + ": "@ + m.ty@ + ";\n"@
}

/// A record body's lines, in field order.
pub open spec fn fields_block(ms: Seq<FieldDecl>) -> Seq<char>
    decreases ms.len(),
{
    if ms.len() == 0 {
        Seq::empty()
    } else {
        fields_block(ms.subrange(0, ms.len() - 1)) + field_line(ms[ms.len() - 1])
    }
}

/// `name: type` pairs joined by `"; "`.
pub open spec fn inline_fields(ms: Seq<FieldDecl>) -> Seq<char>
    decreases ms.len(),
{
    if ms.len() == 0 {
        Seq::empty()
    } else if ms.len() == 1 {
        ms[0].name@ + ": "@ + ms[0].ty@
    } else {
        inline_fields(ms.subrange(0, ms.len() - 1)) + "; "@ + ms[ms.len() - 1].name@ + ": "@
            + ms[ms.len() - 1].ty@
    }
}

/// Type texts joined by `", "`.
pub open spec fn row_join(ms: Seq<FieldDecl>) -> Seq<char>
    decreases ms.len(),
{
    if ms.len() == 0 {
        Seq::empty()
    } else if ms.len() == 1 {
        ms[0].ty@
    } else {
        row_join(ms.subrange(0, ms.len() - 1)) + ", "@ + ms[ms.len() - 1].ty@
    }
}

/// One union member's text, mirroring the wire tagging: a quoted tag for a
/// unit variant, a single-key record otherwise.
pub open spec fn member_text(m: MemberDecl) -> Seq<char> {
    match m.shape {
        MemberShape::Tag => "\""@ + m.tag@ + "\""@,
        MemberShape::Single(t) => "{ "@ + m.tag@ + ": "@ + t@ + " }"@,
        MemberShape::Tuple(ws) => "{ "@ + m.tag@ + ": ["@ + names_join(ws@) + "] }"@,
        MemberShape::Record(ds) => "{ "@ + m.tag@ + ": { "@ + inline_fields(ds@) + " } }"@,
    }
}

/// Union members joined by `" | "`.
pub open spec fn members_text(ms: Seq<MemberDecl>) -> Seq<char>
    decreases ms.len(),
{
    if ms.len() == 0 {
        Seq::empty()
    } else if ms.len() == 1 {
        member_text(ms[0])
    } else {
        members_text(ms.subrange(0, ms.len() - 1)) + " | "@ + member_text(ms[ms.len() - 1])
    }
}

/// A declaration body's text.
pub open spec fn body_text(b: DeclBody) -> Seq<char> {
    match b {
        DeclBody::Record(fs) => "{\n"@ + fields_block(fs@) + "}"@,
        DeclBody::TupleRow(fs) => "["@ + row_join(fs@) + "]"@,
        DeclBody::Unit => "null"@,
        DeclBody::Union(ms) => members_text(ms@),
    }
}

/// One whole declaration's text: the comment block (when present), the
/// header, the body, a closing semicolon.
pub open spec fn decl_text(d: Decl) -> Seq<char> {
    (if d.comment@.len() > 0 {
        d.comment@ + "\n"@
    } else {
        Seq::empty()
    }) + "export type "@ + d.name@ + generics_text(d.generics@) + " = "@ + body_text(d.body) + ";"@
}

/// Declarations joined by blank lines.
pub open spec fn decls_text(ds: Seq<Decl>) -> Seq<char>
    decreases ds.len(),
{
    if ds.len() == 0 {
        Seq::empty()
    } else if ds.len() == 1 {
        decl_text(ds[0])
    } else {
        decls_text(ds.subrange(0, ds.len() - 1)) + "\n\n"@ + decl_text(ds[ds.len() - 1])
    }
}

/// Joins names by `", "`, per [`names_join`].
#[verifier::loop_isolation(false)]
fn render_names(ws: &Vec<String>) -> (r: String)
    ensures
        r@ == names_join(ws@),
{
    let mut out = String::new();
    let n = ws.len();
    let mut i: usize = 0;
    while i < n
        invariant
            i <= n,
            n == ws@.len(),
            out@ == names_join(ws@.subrange(0, i as int)),
        decreases n - i,
    {
        if i > 0 {
            out.append(", ");
        }
        out.append(ws[i].as_str());
        proof {
            let next = ws@.subrange(0, i as int + 1);
            assert(next.subrange(0, next.len() - 1) =~= ws@.subrange(0, i as int));
            assert(next[next.len() - 1] == ws@[i as int]);
            if i == 0 {
                assert(next.len() == 1);
                assert(out@ =~= names_join(next));
            } else {
                assert(out@ =~= names_join(next));
            }
        }
        i = i + 1;
    }
    proof {
        assert(ws@.subrange(0, n as int) =~= ws@);
    }
    out
}

/// Renders a record body's lines, per [`fields_block`].
#[verifier::loop_isolation(false)]
fn render_fields_block(fs: &Vec<FieldDecl>) -> (r: String)
    ensures
        r@ == fields_block(fs@),
{
    let mut out = String::new();
    let n = fs.len();
    let mut i: usize = 0;
    while i < n
        invariant
            i <= n,
            n == fs@.len(),
            out@ == fields_block(fs@.subrange(0, i as int)),
        decreases n - i,
    {
        if !fs[i].comment.as_str().is_empty() {
            out.append(fs[i].comment.as_str());
            out.append("\n");
        }
        out.append("  ");
        out.append(fs[i].name.as_str());
        out.append(": ");
        out.append(fs[i].ty.as_str());
        out.append(";\n");
        proof {
            let next = fs@.subrange(0, i as int + 1);
            assert(next.subrange(0, next.len() - 1) =~= fs@.subrange(0, i as int));
            assert(next[next.len() - 1] == fs@[i as int]);
            assert(out@ =~= fields_block(next));
        }
        i = i + 1;
    }
    proof {
        assert(fs@.subrange(0, n as int) =~= fs@);
    }
    out
}

/// Renders `name: type` pairs joined by `"; "`, per [`inline_fields`].
#[verifier::loop_isolation(false)]
fn render_inline_fields(fs: &Vec<FieldDecl>) -> (r: String)
    ensures
        r@ == inline_fields(fs@),
{
    let mut out = String::new();
    let n = fs.len();
    let mut i: usize = 0;
    while i < n
        invariant
            i <= n,
            n == fs@.len(),
            out@ == inline_fields(fs@.subrange(0, i as int)),
        decreases n - i,
    {
        if i > 0 {
            out.append("; ");
        }
        out.append(fs[i].name.as_str());
        out.append(": ");
        out.append(fs[i].ty.as_str());
        proof {
            let next = fs@.subrange(0, i as int + 1);
            assert(next.subrange(0, next.len() - 1) =~= fs@.subrange(0, i as int));
            assert(next[next.len() - 1] == fs@[i as int]);
            assert(out@ =~= inline_fields(next));
        }
        i = i + 1;
    }
    proof {
        assert(fs@.subrange(0, n as int) =~= fs@);
    }
    out
}

/// Renders type texts joined by `", "`, per [`row_join`].
#[verifier::loop_isolation(false)]
fn render_row(fs: &Vec<FieldDecl>) -> (r: String)
    ensures
        r@ == row_join(fs@),
{
    let mut out = String::new();
    let n = fs.len();
    let mut i: usize = 0;
    while i < n
        invariant
            i <= n,
            n == fs@.len(),
            out@ == row_join(fs@.subrange(0, i as int)),
        decreases n - i,
    {
        if i > 0 {
            out.append(", ");
        }
        out.append(fs[i].ty.as_str());
        proof {
            let next = fs@.subrange(0, i as int + 1);
            assert(next.subrange(0, next.len() - 1) =~= fs@.subrange(0, i as int));
            assert(next[next.len() - 1] == fs@[i as int]);
            assert(out@ =~= row_join(next));
        }
        i = i + 1;
    }
    proof {
        assert(fs@.subrange(0, n as int) =~= fs@);
    }
    out
}

/// Renders one union member, per [`member_text`].
fn render_member(m: &MemberDecl) -> (r: String)
    ensures
        r@ == member_text(*m),
{
    match &m.shape {
        MemberShape::Tag => {
            let mut out = "\"".to_owned();
            out.append(m.tag.as_str());
            out.append("\"");
            out
        },
        MemberShape::Single(t) => {
            let mut out = "{ ".to_owned();
            out.append(m.tag.as_str());
            out.append(": ");
            out.append(t.as_str());
            out.append(" }");
            out
        },
        MemberShape::Tuple(ws) => {
            let joined = render_names(ws);
            let mut out = "{ ".to_owned();
            out.append(m.tag.as_str());
            out.append(": [");
            out.append(joined.as_str());
            out.append("] }");
            out
        },
        MemberShape::Record(ds) => {
            let joined = render_inline_fields(ds);
            let mut out = "{ ".to_owned();
            out.append(m.tag.as_str());
            out.append(": { ");
            out.append(joined.as_str());
            out.append(" } }");
            out
        },
    }
}

/// Renders union members joined by `" | "`, per [`members_text`].
#[verifier::loop_isolation(false)]
fn render_members(ms: &Vec<MemberDecl>) -> (r: String)
    ensures
        r@ == members_text(ms@),
{
    let mut out = String::new();
    let n = ms.len();
    let mut i: usize = 0;
    while i < n
        invariant
            i <= n,
            n == ms@.len(),
            out@ == members_text(ms@.subrange(0, i as int)),
        decreases n - i,
    {
        if i > 0 {
            out.append(" | ");
        }
        let part = render_member(&ms[i]);
        out.append(part.as_str());
        proof {
            let next = ms@.subrange(0, i as int + 1);
            assert(next.subrange(0, next.len() - 1) =~= ms@.subrange(0, i as int));
            assert(next[next.len() - 1] == ms@[i as int]);
            assert(out@ =~= members_text(next));
        }
        i = i + 1;
    }
    proof {
        assert(ms@.subrange(0, n as int) =~= ms@);
    }
    out
}

/// Renders one whole declaration, per [`decl_text`]: the comment block,
/// the `export type` header with generic parameters, the body and a
/// closing semicolon.
pub fn render_decl(d: &Decl) -> (r: String)
    ensures
        r@ == decl_text(*d),
{
    let mut out = String::new();
    if !d.comment.as_str().is_empty() {
        out.append(d.comment.as_str());
        out.append("\n");
    }
    out.append("export type ");
    out.append(d.name.as_str());
    if d.generics.len() > 0 {
        let joined = render_names(&d.generics);
        out.append("<");
        out.append(joined.as_str());
        out.append(">");
    }
    out.append(" = ");
    let body = match &d.body {
        DeclBody::Record(fs) => {
            let block = render_fields_block(fs);
            let mut b = "{\n".to_owned();
            b.append(block.as_str());
            b.append("}");
            b
        },
        DeclBody::TupleRow(fs) => {
            let row = render_row(fs);
            let mut b = "[".to_owned();
            b.append(row.as_str());
            b.append("]");
            b
        },
        DeclBody::Unit => "null".to_owned(),
        DeclBody::Union(ms) => render_members(ms),
    };
    out.append(body.as_str());
    out.append(";");
    proof {
        assert(out@ =~= decl_text(*d));
    }
    out
}

/// Renders a sequence of declarations separated by blank lines, per
/// [`decls_text`].
#[verifier::loop_isolation(false)]
pub fn render_decls(ds: &Vec<Decl>) -> (r: String)
    ensures
        r@ == decls_text(ds@),
{
    let mut out = String::new();
    let n = ds.len();
    let mut i: usize = 0;
    while i < n
        invariant
            i <= n,
            n == ds@.len(),
            out@ == decls_text(ds@.subrange(0, i as int)),
        decreases n - i,
    {
        if i > 0 {
            out.append("\n\n");
        }
        let part = render_decl(&ds[i]);
        out.append(part.as_str());
        proof {
            let next = ds@.subrange(0, i as int + 1);
            assert(next.subrange(0, next.len() - 1) =~= ds@.subrange(0, i as int));
            assert(next[next.len() - 1] == ds@[i as int]);
            assert(out@ =~= decls_text(next));
        }
        i = i + 1;
    }
    proof {
        assert(ds@.subrange(0, n as int) =~= ds@);
    }
    out
}

} // verus!
