//! The translation of one type definition into a target declaration, and
//! the generation session that translates a whole graph of definitions with
//! a declaration registry: every type name is emitted exactly once, and a
//! reference to a type already emitted or still in progress is a plain
//! named reference, so self-referential and mutually recursive types
//! terminate.

use vstd::prelude::*;

use crate::attrs::{
    apply_field_entries, apply_type_entries, empty_attrs, push_doc, Attrs, AttrsView,
};
use crate::annotations::{entries_of, syntax_errors};
use crate::errors::{Ctxt, TransErrorView};
use crate::mapper::{env_has, list_refs, map_text, map_type, user_refs};
use crate::model::{FieldDef, Shape, TypeDef, VariantDef, VariantKind};
use crate::types::{stype_views, SrcType};

verus! {

/// One field of an emitted declaration: its comment block, its name and its
/// target type text.
pub struct FieldDecl {
    pub comment: String,
    pub name: String,
    pub ty: String,
}

/// The shape of one discriminated-union member, mirroring the wire tagging:
/// a bare tag for a unit variant, the lone value for a one-field tuple
/// variant, an ordered list for a longer tuple variant, a keyed record for
/// a struct variant.
pub enum MemberShape {
    Tag,
    Single(String),
    Tuple(Vec<String>),
    Record(Vec<FieldDecl>),
}

/// One discriminated-union member.
pub struct MemberDecl {
    pub comment: String,
    pub tag: String,
    pub shape: MemberShape,
}

/// The body of an emitted declaration.
pub enum DeclBody {
    Record(Vec<FieldDecl>),
    TupleRow(Vec<FieldDecl>),
    Unit,
    Union(Vec<MemberDecl>),
}

/// One emitted target declaration.
pub struct Decl {
    pub comment: String,
    pub name: String,
    pub generics: Vec<String>,
    pub body: DeclBody,
}

/// The directive record of one field after extraction.
pub open spec fn field_applied(f: FieldDef) -> (AttrsView, Seq<TransErrorView>) {
    apply_field_entries(empty_attrs(), entries_of(f.annots@), Attrs::spec_field_site(f))
}

/// The target type text of one field: a valid `fs_type` override verbatim;
/// else the mapped `ts_as` redirection; else the mapped declared type.
pub open spec fn field_ty_text(f: FieldDef, env: Seq<String>) -> Seq<char> {
    let av = field_applied(f).0;
    match av.fs_type {
        Some(s) => s,
        None => match av.ts_as {
            Some(t) => map_text(t, env),
            None => map_text(f.ty@, env),
        },
    }
}

/// The user-type names one field's resolution references: none under an
/// `fs_type` override, which bypasses resolution.
pub open spec fn field_refs(f: FieldDef, env: Seq<String>) -> Seq<Seq<char>> {
    let av = field_applied(f).0;
    match av.fs_type {
        Some(_) => Seq::empty(),
        None => match av.ts_as {
            Some(t) => user_refs(t, env),
            None => user_refs(f.ty@, env),
        },
    }
}

/// The errors one field's extraction raises, in order.
pub open spec fn field_errs(f: FieldDef) -> Seq<TransErrorView> {
    syntax_errors(f.annots@, Attrs::spec_field_site(f)) + field_applied(f).1
}

/// The comment block of one field.
pub open spec fn field_comment(f: FieldDef) -> Seq<char> {
    push_doc(field_applied(f).0.comment, f.annots@)
}

/// A field carrying a valid type override is emitted with exactly the
/// override text, regardless of the field's declared source type.
pub proof fn lemma_override_verbatim(f: FieldDef, env: Seq<String>, s: Seq<char>)
    requires
        field_applied(f).0.fs_type == Some(s),
    ensures
        field_ty_text(f, env) == s,
{
}

/// Whether `d` is the declaration field of `f` under `env`.
pub open spec fn field_decl_wf(f: FieldDef, d: FieldDecl, env: Seq<String>) -> bool {
    &&& d.name@ == Attrs::spec_field_site(f)
    &&& d.ty@ == field_ty_text(f, env)
    &&& d.comment@ == field_comment(f)
}

/// Builds one field's declaration: directives extracted and validated, the
/// type resolved per the override priority, references recorded.
pub fn build_field(f: &FieldDef, env: &Vec<String>, refs: &mut Vec<String>, ctxt: &mut Ctxt) -> (r:
    FieldDecl)
    ensures
        field_decl_wf(*f, r, env@),
        final(refs)@.map_values(|s: String| s@) == old(refs)@.map_values(|s: String| s@)
            + field_refs(*f, env@),
        final(ctxt)@ == old(ctxt)@ + field_errs(*f),
{
    let attrs = Attrs::from_field(f, ctxt);
    let name = match &f.name {
        Some(n) => n.clone(),
        None => "unnamed".to_owned(),
    };
    let comment = attrs.to_comment_source().build();
    let ty = match &attrs.fs_type {
        Some(s) => {
            proof {
                lemma_refs_unchanged(refs@, old(refs)@);
            }
            s.clone()
        },
        None => match &attrs.ts_as {
            Some(t) => map_type(t, env, refs),
            None => map_type(&f.ty, env, refs),
        },
    };
    FieldDecl { comment, name, ty }
}

proof fn lemma_refs_unchanged(cur: Seq<String>, prev: Seq<String>)
    requires
        cur == prev,
    ensures
        cur.map_values(|s: String| s@) == prev.map_values(|s: String| s@) + Seq::<
            Seq<char>,
        >::empty(),
{
    assert(cur.map_values(|s: String| s@) =~= prev.map_values(|s: String| s@) + Seq::<
        Seq<char>,
    >::empty());
}

/// The errors a field list raises, in order.
pub open spec fn fields_errors(fs: Seq<FieldDef>) -> Seq<TransErrorView>
    decreases fs.len(),
{
    if fs.len() == 0 {
        Seq::empty()
    } else {
        fields_errors(fs.subrange(0, fs.len() - 1)) + field_errs(fs[fs.len() - 1])
    }
}

/// The user-type names a field list references, in order.
pub open spec fn fields_refs(fs: Seq<FieldDef>, env: Seq<String>) -> Seq<Seq<char>>
    decreases fs.len(),
{
    if fs.len() == 0 {
        Seq::empty()
    } else {
        fields_refs(fs.subrange(0, fs.len() - 1), env) + field_refs(fs[fs.len() - 1], env)
    }
}

/// Builds the declaration fields of a field list, in order.
fn build_fields(
    fs: &Vec<FieldDef>,
    env: &Vec<String>,
    refs: &mut Vec<String>,
    ctxt: &mut Ctxt,
) -> (r: Vec<FieldDecl>)
    ensures
        r@.len() == fs@.len(),
        forall|i: int| 0 <= i < fs@.len() ==> field_decl_wf(fs@[i], #[trigger] r@[i], env@),
        final(refs)@.map_values(|s: String| s@) == old(refs)@.map_values(|s: String| s@)
            + fields_refs(fs@, env@),
        final(ctxt)@ == old(ctxt)@ + fields_errors(fs@),
{
    let mut out: Vec<FieldDecl> = Vec::new();
    let n = fs.len();
    let mut i: usize = 0;
    proof {
        assert(fs@.subrange(0, 0) =~= Seq::<FieldDef>::empty());
        assert(refs@.map_values(|s: String| s@) =~= old(refs)@.map_values(|s: String| s@)
            + fields_refs(fs@.subrange(0, 0), env@));
        assert(ctxt@ =~= old(ctxt)@ + fields_errors(fs@.subrange(0, 0)));
    }
    while i < n
        invariant
            i <= n,
            n == fs@.len(),
            out@.len() == i,
            forall|k: int| 0 <= k < i ==> field_decl_wf(fs@[k], #[trigger] out@[k], env@),
            refs@.map_values(|s: String| s@) == old(refs)@.map_values(|s: String| s@) + fields_refs(
                fs@.subrange(0, i as int), env@,
            ),
            ctxt@ == old(ctxt)@ + fields_errors(fs@.subrange(0, i as int)),
        decreases n - i,
    {
        let d = build_field(&fs[i], env, refs, ctxt);
        out.push(d);
        proof {
            let next = fs@.subrange(0, i as int + 1);
            assert(next.subrange(0, next.len() - 1) =~= fs@.subrange(0, i as int));
            assert(next[next.len() - 1] == fs@[i as int]);
            assert(refs@.map_values(|s: String| s@) =~= old(refs)@.map_values(|s: String| s@)
                + fields_refs(next, env@));
            assert(ctxt@ =~~= old(ctxt)@ + fields_errors(next));
        }
        i = i + 1;
    }
    proof {
        assert(fs@.subrange(0, n as int) =~= fs@);
    }
    out
}

/// The user-type names one variant's data references.
pub open spec fn variant_refs(v: VariantDef, env: Seq<String>) -> Seq<Seq<char>> {
    match v.kind {
        VariantKind::Unit => Seq::empty(),
        VariantKind::Tuple(ts) => list_refs(stype_views(ts@), env),
        VariantKind::Struct(fs) => pairs_refs(fs@, env),
    }
}

/// The user-type names a list of named fields references.
pub open spec fn pairs_refs(ps: Seq<(String, SrcType)>, env: Seq<String>) -> Seq<Seq<char>>
    decreases ps.len(),
{
    if ps.len() == 0 {
        Seq::empty()
    } else {
        pairs_refs(ps.subrange(0, ps.len() - 1), env) + user_refs(ps[ps.len() - 1].1@, env)
    }
}

/// The user-type names a variant list references, in order.
pub open spec fn variants_refs(vs: Seq<VariantDef>, env: Seq<String>) -> Seq<Seq<char>>
    decreases vs.len(),
{
    if vs.len() == 0 {
        Seq::empty()
    } else {
        variants_refs(vs.subrange(0, vs.len() - 1), env) + variant_refs(vs[vs.len() - 1], env)
    }
}

/// Whether `m` is the union member emitted for variant `v` under `env`:
/// the tag is the variant's name and the member shape mirrors the wire
/// tagging of the variant's kind.
pub open spec fn member_wf(v: VariantDef, m: MemberDecl, env: Seq<String>) -> bool {
    &&& m.tag@ == v.name@
    &&& m.comment@ == push_doc(Seq::empty(), v.annots@)
    &&& match v.kind {
        VariantKind::Unit => m.shape is Tag,
        VariantKind::Tuple(ts) => {
            if ts@.len() == 1 {
                m.shape matches MemberShape::Single(t) && t@ == map_text(ts@[0]@, env)
            } else {
                m.shape matches MemberShape::Tuple(ws) && ws@.len() == ts@.len() && forall|j: int|
                    0 <= j < ts@.len() ==> (#[trigger] ws@[j])@ == map_text(ts@[j]@, env)
            }
        },
        VariantKind::Struct(fs) => m.shape matches MemberShape::Record(ds) && ds@.len() == fs@.len()
            && forall|j: int| 0 <= j < fs@.len() ==> (#[trigger] ds@[j]).name@ == fs@[j].0@
            && ds@[j].ty@ == map_text(fs@[j].1@, env) && ds@[j].comment@.len() == 0,
    }
}

/// Builds the union member of one variant: its doc comment and the member
/// shape that mirrors the wire tagging of its kind.
fn build_member(v: &VariantDef, env: &Vec<String>, refs: &mut Vec<String>) -> (r: MemberDecl)
    ensures
        member_wf(*v, r, env@),
        final(refs)@.map_values(|s: String| s@) == old(refs)@.map_values(|s: String| s@)
            + variant_refs(*v, env@),
{
    let attrs = Attrs::from_variant(v);
    let comment = attrs.to_comment_source().build();
    let tag = v.name.clone();
    match &v.kind {
        VariantKind::Unit => {
            proof {
                lemma_refs_unchanged(refs@, old(refs)@);
            }
            MemberDecl { comment, tag, shape: MemberShape::Tag }
        },
        VariantKind::Tuple(ts) => {
            proof {
                crate::types::lemma_stype_views_len(ts@);
            }
            if ts.len() == 1 {
                let t = map_type(&ts[0], env, refs);
                proof {
                    let all = stype_views(ts@);
                    assert(all.subrange(0, 0) =~= Seq::<crate::types::STy>::empty());
                    assert(list_refs(all.subrange(0, 0), env@) =~= Seq::<Seq<char>>::empty());
                    assert(all.subrange(0, 1) =~= all);
                    assert(list_refs(all, env@) =~= user_refs(all[0], env@));
                }
                MemberDecl { comment, tag, shape: MemberShape::Single(t) }
            } else {
                let mut ws: Vec<String> = Vec::new();
                let n = ts.len();
                let mut i: usize = 0;
                proof {
                    let all = stype_views(ts@);
                    assert(all.subrange(0, 0) =~= Seq::<crate::types::STy>::empty());
                    assert(refs@.map_values(|s: String| s@) =~= old(refs)@.map_values(
                        |s: String| s@,
                    ) + list_refs(all.subrange(0, 0), env@));
                }
                while i < n
                    invariant
                        i <= n,
                        n == ts@.len(),
                        ws@.len() == i,
                        forall|k: int| 0 <= k < i ==> (#[trigger] ws@[k])@ == map_text(
                            ts@[k]@, env@,
                        ),
                        refs@.map_values(|s: String| s@) == old(refs)@.map_values(|s: String| s@)
                            + list_refs(stype_views(ts@).subrange(0, i as int), env@),
                    decreases n - i,
                {
                    let t = map_type(&ts[i], env, refs);
                    ws.push(t);
                    proof {
                        crate::types::lemma_stype_views_len(ts@);
                        let all = stype_views(ts@);
                        let next = all.subrange(0, i as int + 1);
                        assert(next.subrange(0, next.len() - 1) =~= all.subrange(0, i as int));
                        assert(next[next.len() - 1] == all[i as int]);
                        assert(refs@.map_values(|s: String| s@) =~= old(refs)@.map_values(
                            |s: String| s@,
                        ) + list_refs(next, env@));
                    }
                    i = i + 1;
                }
                proof {
                    assert(stype_views(ts@).subrange(0, n as int) =~= stype_views(ts@));
                }
                MemberDecl { comment, tag, shape: MemberShape::Tuple(ws) }
            }
        },
        VariantKind::Struct(fs) => {
            let mut ds: Vec<FieldDecl> = Vec::new();
            let n = fs.len();
            let mut i: usize = 0;
            proof {
                assert(fs@.subrange(0, 0) =~= Seq::<(String, SrcType)>::empty());
                assert(refs@.map_values(|s: String| s@) =~= old(refs)@.map_values(|s: String| s@)
                    + pairs_refs(fs@.subrange(0, 0), env@));
            }
            while i < n
                invariant
                    i <= n,
                    n == fs@.len(),
                    ds@.len() == i,
                    forall|k: int| 0 <= k < i ==> (#[trigger] ds@[k]).name@ == fs@[k].0@
                        && ds@[k].ty@ == map_text(fs@[k].1@, env@) && ds@[k].comment@.len() == 0,
                    refs@.map_values(|s: String| s@) == old(refs)@.map_values(|s: String| s@)
                        + pairs_refs(fs@.subrange(0, i as int), env@),
                decreases n - i,
            {
                let fname = fs[i].0.clone();
                let fty = map_type(&fs[i].1, env, refs);
                ds.push(FieldDecl { comment: String::new(), name: fname, ty: fty });
                proof {
                    let next = fs@.subrange(0, i as int + 1);
                    assert(next.subrange(0, next.len() - 1) =~= fs@.subrange(0, i as int));
                    assert(next[next.len() - 1] == fs@[i as int]);
                    assert(refs@.map_values(|s: String| s@) =~= old(refs)@.map_values(
                        |s: String| s@,
                    ) + pairs_refs(next, env@));
                }
                i = i + 1;
            }
            proof {
                assert(fs@.subrange(0, n as int) =~= fs@);
            }
            MemberDecl { comment, tag, shape: MemberShape::Record(ds) }
        },
    }
}

/// The directive record of one type after type-level extraction.
pub open spec fn type_applied(def: TypeDef) -> (AttrsView, Seq<TransErrorView>) {
    apply_type_entries(empty_attrs(), entries_of(def.annots@), def.name@)
}

/// The comment block emitted before one declaration.
pub open spec fn type_comment(def: TypeDef) -> Seq<char> {
    push_doc(type_applied(def).0.comment, def.annots@)
}

/// The errors one definition's translation raises, in order: type-level
/// directive errors, then each field's errors in order. Variants raise
/// none: only their doc comments are read.
pub open spec fn decl_errors(def: TypeDef) -> Seq<TransErrorView> {
    syntax_errors(def.annots@, def.name@) + type_applied(def).1 + match def.shape {
        Shape::NamedFields(fs) => fields_errors(fs@),
        Shape::TupleFields(fs) => fields_errors(fs@),
        Shape::Unit => Seq::empty(),
        Shape::Enum(_) => Seq::empty(),
    }
}

/// The user-type names one definition references, in order.
pub open spec fn decl_refs(def: TypeDef) -> Seq<Seq<char>> {
    match def.shape {
        Shape::NamedFields(fs) => fields_refs(fs@, def.generics@),
        Shape::TupleFields(fs) => fields_refs(fs@, def.generics@),
        Shape::Unit => Seq::empty(),
        Shape::Enum(vs) => variants_refs(vs@, def.generics@),
    }
}

/// Whether `d` is the declaration of `def`: same name and generic
/// parameters, the merged doc comment, and a body whose field set (or
/// member set) equals the source's in the same order, each type resolved
/// per the override priority.
pub open spec fn decl_wf(def: TypeDef, d: Decl) -> bool {
    &&& d.name@ == def.name@
    &&& d.generics@.len() == def.generics@.len()
    &&& forall|j: int| 0 <= j < def.generics@.len() ==> (#[trigger] d.generics@[j])@
        == def.generics@[j]@
    &&& d.comment@ == type_comment(def)
    &&& match def.shape {
        Shape::NamedFields(fs) => d.body matches DeclBody::Record(ms) && ms@.len() == fs@.len()
            && forall|i: int| 0 <= i < fs@.len() ==> field_decl_wf(
            fs@[i], #[trigger] ms@[i], def.generics@,
        ),
        Shape::TupleFields(fs) => d.body matches DeclBody::TupleRow(ms) && ms@.len() == fs@.len()
            && forall|i: int| 0 <= i < fs@.len() ==> field_decl_wf(
            fs@[i], #[trigger] ms@[i], def.generics@,
        ),
        Shape::Unit => d.body is Unit,
        Shape::Enum(vs) => d.body matches DeclBody::Union(ms) && ms@.len() == vs@.len() && forall|
            i: int,
        | 0 <= i < vs@.len() ==> member_wf(vs@[i], #[trigger] ms@[i], def.generics@),
    }
}

/// Translates one definition into its declaration, recording the errors of
/// its directives and the user-type names it references.
pub fn build_decl(def: &TypeDef, refs: &mut Vec<String>, ctxt: &mut Ctxt) -> (r: Decl)
    ensures
        decl_wf(*def, r),
        final(refs)@.map_values(|s: String| s@) == old(refs)@.map_values(|s: String| s@)
            + decl_refs(*def),
        final(ctxt)@ == old(ctxt)@ + decl_errors(*def),
{
    let mut attrs = Attrs::new();
    attrs.push_attrs(&def.name, &def.annots, ctxt);
    attrs.push_doc_comment(&def.annots);
    let comment = attrs.to_comment_source().build();
    let name = def.name.clone();
    let mut generics: Vec<String> = Vec::new();
    let gn = def.generics.len();
    let mut gi: usize = 0;
    while gi < gn
        invariant
            gi <= gn,
            gn == def.generics@.len(),
            generics@.len() == gi,
            forall|j: int| 0 <= j < gi ==> (#[trigger] generics@[j])@ == def.generics@[j]@,
        decreases gn - gi,
    {
        generics.push(def.generics[gi].clone());
        gi = gi + 1;
    }
    let body = match &def.shape {
        Shape::NamedFields(fs) => DeclBody::Record(build_fields(fs, &def.generics, refs, ctxt)),
        Shape::TupleFields(fs) => DeclBody::TupleRow(build_fields(fs, &def.generics, refs, ctxt)),
        Shape::Unit => {
            proof {
                lemma_refs_unchanged(refs@, old(refs)@);
            }
            DeclBody::Unit
        },
        Shape::Enum(vs) => {
            let mut ms: Vec<MemberDecl> = Vec::new();
            let n = vs.len();
            let mut i: usize = 0;
            proof {
                assert(vs@.subrange(0, 0) =~= Seq::<VariantDef>::empty());
                assert(refs@.map_values(|s: String| s@) =~= old(refs)@.map_values(|s: String| s@)
                    + variants_refs(vs@.subrange(0, 0), def.generics@));
            }
            while i < n
                invariant
                    i <= n,
                    n == vs@.len(),
                    ms@.len() == i,
                    forall|k: int| 0 <= k < i ==> member_wf(vs@[k], #[trigger] ms@[k],
                    def.generics@),
                    refs@.map_values(|s: String| s@) == old(refs)@.map_values(|s: String| s@)
                        + variants_refs(vs@.subrange(0, i as int), def.generics@),
                decreases n - i,
            {
                let m = build_member(&vs[i], &def.generics, refs);
                ms.push(m);
                proof {
                    let next = vs@.subrange(0, i as int + 1);
                    assert(next.subrange(0, next.len() - 1) =~= vs@.subrange(0, i as int));
                    assert(next[next.len() - 1] == vs@[i as int]);
                    assert(refs@.map_values(|s: String| s@) =~= old(refs)@.map_values(
                        |s: String| s@,
                    ) + variants_refs(next, def.generics@));
                }
                i = i + 1;
            }
            proof {
                assert(vs@.subrange(0, n as int) =~= vs@);
            }
            DeclBody::Union(ms)
        },
    };
    proof {
        assert(ctxt@ =~~= old(ctxt)@ + decl_errors(*def));
    }
    Decl { comment, name, generics, body }
}

/// The names emitted by one run over `defs`, in order: each definition's
/// name the first time it occurs.
pub open spec fn run_names(defs: Seq<TypeDef>) -> Seq<Seq<char>>
    decreases defs.len(),
{
    if defs.len() == 0 {
        Seq::empty()
    } else {
        let front = run_names(defs.subrange(0, defs.len() - 1));
        let n = defs[defs.len() - 1].name@;
        if front.contains(n) {
            front
        } else {
            front.push(n)
        }
    }
}

/// The names that were emitted never repeat, and cover exactly the
/// definitions' names.
pub proof fn lemma_run_names(defs: Seq<TypeDef>)
    ensures
        forall|k: int, l: int| 0 <= k < l < run_names(defs).len() ==> run_names(defs)[k]
            != run_names(defs)[l],
        forall|i: int| 0 <= i < defs.len() ==> run_names(defs).contains(#[trigger] defs[i].name@),
        forall|k: int| 0 <= k < run_names(defs).len() ==> exists|i: int|
            0 <= i < defs.len() && defs[i].name@ == #[trigger] run_names(defs)[k],
    decreases defs.len(),
{
    if defs.len() > 0 {
        let front = defs.subrange(0, defs.len() - 1);
        lemma_run_names(front);
        assert forall|i: int| 0 <= i < defs.len() implies run_names(defs).contains(
            #[trigger] defs[i].name@,
        ) by {
            if i < defs.len() - 1 {
                assert(front[i] == defs[i]);
                assert(run_names(front).contains(defs[i].name@));
                let w = choose|k: int|
                    0 <= k < run_names(front).len() && run_names(front)[k] == defs[i].name@;
                if !run_names(front).contains(defs[defs.len() - 1].name@) {
                    assert(run_names(defs)[w] == defs[i].name@);
                }
            } else {
                if run_names(front).contains(defs[i].name@) {
                    let w = choose|k: int|
                        0 <= k < run_names(front).len() && run_names(front)[k] == defs[i].name@;
                    assert(run_names(defs)[w] == defs[i].name@);
                } else {
                    assert(run_names(defs)[run_names(defs).len() - 1] == defs[i].name@);
                }
            }
        }
        assert forall|k: int| 0 <= k < run_names(defs).len() implies exists|i: int|
            0 <= i < defs.len() && defs[i].name@ == #[trigger] run_names(defs)[k] by {
            if k < run_names(front).len() {
                let i = choose|i: int|
                    0 <= i < front.len() && front[i].name@ == run_names(front)[k];
                assert(defs[i].name@ == run_names(defs)[k]);
            } else {
                assert(defs[defs.len() - 1].name@ == run_names(defs)[k]);
            }
        }
    }
}

/// The errors of one run over `defs`, in order: each definition's errors
/// the first time its name occurs.
pub open spec fn run_errors(defs: Seq<TypeDef>) -> Seq<TransErrorView>
    decreases defs.len(),
{
    if defs.len() == 0 {
        Seq::empty()
    } else {
        let front = defs.subrange(0, defs.len() - 1);
        if run_names(front).contains(defs[defs.len() - 1].name@) {
            run_errors(front)
        } else {
            run_errors(front) + decl_errors(defs[defs.len() - 1])
        }
    }
}

/// The user-type names referenced by one run over `defs`, in order: each
/// definition's references the first time its name occurs.
pub open spec fn run_refs(defs: Seq<TypeDef>) -> Seq<Seq<char>>
    decreases defs.len(),
{
    if defs.len() == 0 {
        Seq::empty()
    } else {
        let front = defs.subrange(0, defs.len() - 1);
        if run_names(front).contains(defs[defs.len() - 1].name@) {
            run_refs(front)
        } else {
            run_refs(front) + decl_refs(defs[defs.len() - 1])
        }
    }
}

/// Whether `defs[i]` is the first definition bearing its name.
pub open spec fn is_first_def(defs: Seq<TypeDef>, i: int) -> bool {
    &&& 0 <= i < defs.len()
    &&& forall|j: int| 0 <= j < i ==> (#[trigger] defs[j]).name@ != defs[i].name@
}

/// Whether `d` is the declaration of the first definition bearing its
/// name.
pub open spec fn from_first_def(defs: Seq<TypeDef>, d: Decl) -> bool {
    exists|i: int| is_first_def(defs, i) && defs[i].name@ == d.name@ && decl_wf(defs[i], d)
}

/// One generation session: the declarations emitted, the registry of names
/// emitted, and the user-type names referenced along the way.
pub struct Session {
    pub decls: Vec<Decl>,
    pub emitted: Vec<String>,
    pub references: Vec<String>,
}

/// Translates a whole graph of definitions. Each type name is emitted
/// exactly once, in first-occurrence order; a definition whose name was
/// already emitted is skipped. References to other types — self-references
/// and cycles included — are plain names, recorded in the session, so the
/// run terminates on any input.
pub fn translate_all(defs: &Vec<TypeDef>, ctxt: &mut Ctxt) -> (r: Session)
    ensures
        r.emitted@.map_values(|s: String| s@) == run_names(defs@),
        r.decls@.len() == r.emitted@.len(),
        forall|k: int| 0 <= k < r.decls@.len() ==> (#[trigger] r.decls@[k]).name@ == r.emitted@[k]@,
        forall|k: int| 0 <= k < r.decls@.len() ==> from_first_def(defs@, #[trigger] r.decls@[k]),
        forall|k: int, l: int| 0 <= k < l < r.decls@.len() ==> (#[trigger] r.decls@[k]).name@ != (
        #[trigger] r.decls@[l]).name@,
        forall|i: int| 0 <= i < defs@.len() ==> run_names(defs@).contains(
            #[trigger] defs@[i].name@,
        ),
        r.references@.map_values(|s: String| s@) == run_refs(defs@),
        final(ctxt)@ == old(ctxt)@ + run_errors(defs@),
{
    let mut decls: Vec<Decl> = Vec::new();
    let mut emitted: Vec<String> = Vec::new();
    let mut references: Vec<String> = Vec::new();
    let ghost mut origins: Seq<int> = Seq::empty();
    let n = defs.len();
    let mut i: usize = 0;
    proof {
        assert(defs@.subrange(0, 0) =~= Seq::<TypeDef>::empty());
        assert(emitted@.map_values(|s: String| s@) =~= run_names(defs@.subrange(0, 0)));
        assert(references@.map_values(|s: String| s@) =~= run_refs(defs@.subrange(0, 0)));
        assert(ctxt@ =~= old(ctxt)@ + run_errors(defs@.subrange(0, 0)));
    }
    while i < n
        invariant
            i <= n,
            n == defs@.len(),
            emitted@.map_values(|s: String| s@) == run_names(defs@.subrange(0, i as int)),
            decls@.len() == emitted@.len(),
            forall|k: int| 0 <= k < decls@.len() ==> (#[trigger] decls@[k]).name@ == emitted@[k]@,
            origins.len() == decls@.len(),
            forall|k: int| 0 <= k < decls@.len() ==> is_first_def(defs@, #[trigger] origins[k])
                && defs@[origins[k]].name@ == decls@[k].name@ && decl_wf(
                defs@[origins[k]], decls@[k],
            ),
            references@.map_values(|s: String| s@) == run_refs(defs@.subrange(0, i as int)),
            ctxt@ == old(ctxt)@ + run_errors(defs@.subrange(0, i as int)),
        decreases n - i,
    {
        let ghost pre = defs@.subrange(0, i as int);
        let seen = contains_name(&emitted, defs[i].name.as_str());
        proof {
            assert(env_has(emitted@, defs@[i as int].name@) == run_names(pre).contains(
                defs@[i as int].name@,
            )) by {
                let names = emitted@.map_values(|s: String| s@);
                if env_has(emitted@, defs@[i as int].name@) {
                    let w = choose|q: int|
                        0 <= q < emitted@.len() && emitted@[q]@ == defs@[i as int].name@;
                    assert(names[w] == defs@[i as int].name@);
                }
                if names.contains(defs@[i as int].name@) {
                    let w = choose|q: int|
                        0 <= q < names.len() && names[q] == defs@[i as int].name@;
                    assert(emitted@[w]@ == defs@[i as int].name@);
                }
            }
        }
        if !seen {
            proof {
                lemma_run_names(pre);
                assert forall|j: int| 0 <= j < i as int implies (#[trigger] defs@[j]).name@
                    != defs@[i as int].name@ by {
                    assert(pre[j] == defs@[j]);
                    assert(run_names(pre).contains(pre[j].name@));
                    let w = choose|q: int|
                        0 <= q < run_names(pre).len() && run_names(pre)[q] == pre[j].name@;
                    let names = emitted@.map_values(|s: String| s@);
                    assert(names[w] == emitted@[w]@);
                    assert(emitted@[w]@ == defs@[j].name@);
                }
                assert(is_first_def(defs@, i as int));
            }
            let d = build_decl(&defs[i], &mut references, ctxt);
            emitted.push(defs[i].name.clone());
            decls.push(d);
            proof {
                origins = origins.push(i as int);
                assert(emitted@.map_values(|s: String| s@) =~= run_names(pre).push(
                    defs@[i as int].name@,
                ));
                assert(decls@[decls@.len() - 1] == d);
                assert(defs@[i as int].name@ == d.name@);
                assert(is_first_def(defs@, i as int) && defs@[i as int].name@ == d.name@
                    && decl_wf(defs@[i as int], d));
            }
        }
        proof {
            let next = defs@.subrange(0, i as int + 1);
            assert(next.subrange(0, next.len() - 1) =~= pre);
            assert(next[next.len() - 1] == defs@[i as int]);
            assert(emitted@.map_values(|s: String| s@) =~= run_names(next));
            assert(references@.map_values(|s: String| s@) =~= run_refs(next));
            assert(ctxt@ =~~= old(ctxt)@ + run_errors(next));
        }
        i = i + 1;
    }
    proof {
        assert(defs@.subrange(0, n as int) =~= defs@);
        lemma_run_names(defs@);

        assert forall|k: int, l: int| 0 <= k < l < decls@.len() implies (
        #[trigger] decls@[k]).name@ != (#[trigger] decls@[l]).name@ by {
            let names = emitted@.map_values(|s: String| s@);
            assert(names[k] == emitted@[k]@);
            assert(names[l] == emitted@[l]@);
        }
    }
    let r = Session { decls, emitted, references };
    proof {
        assert forall|k: int| 0 <= k < r.decls@.len() implies from_first_def(
            defs@, #[trigger] r.decls@[k],
        ) by {
            let q = origins[k];
            assert(is_first_def(defs@, q) && defs@[q].name@ == r.decls@[k].name@ && decl_wf(
                defs@[q], r.decls@[k],
            ));
        }
    }
    r
}

/// Translates one definition on its own, with no batching context: the
/// declaration when its directives are clean, else the whole batch of
/// errors, exactly the errors `build_decl` would record.
pub fn translate_single(def: &TypeDef) -> (r: Result<Decl, Vec<crate::errors::TransError>>)
    ensures
        decl_errors(*def).len() == 0 <==> r is Ok,
        r matches Ok(d) ==> decl_wf(*def, d),
        r matches Err(es) ==> es@.map_values(|e: crate::errors::TransError| e@) == decl_errors(
            *def,
        ),
{
    let mut ctxt = Ctxt::new();
    let mut refs: Vec<String> = Vec::new();
    let d = build_decl(def, &mut refs, &mut ctxt);
    proof {
        assert(Seq::<TransErrorView>::empty() + decl_errors(*def) =~= decl_errors(*def));
    }
    if ctxt.error_count() == 0 {
        Ok(d)
    } else {
        Err(ctxt.into_errors())
    }
}

/// Whether some name of `v` reads like `n`.
fn contains_name(v: &Vec<String>, n: &str) -> (r: bool)
    ensures
        r == env_has(v@, n@),
{
    let m = v.len();
    let mut i: usize = 0;
    while i < m
        invariant
            i <= m,
            m == v@.len(),
            forall|k: int| 0 <= k < i ==> v@[k]@ != n@,
        decreases m - i,
    {
        if crate::attrs::str_eq(v[i].as_str(), n) {
            return true;
        }
        i = i + 1;
    }
    false
}

} // verus!
