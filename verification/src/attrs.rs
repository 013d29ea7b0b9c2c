//! The directive extractor and comment collector: scans the annotations of
//! a type, field or variant and produces a validated [`Attrs`] record.
//!
//! Recognized type-level directives: `handler_name`, `handler_return`,
//! `factory_name`, `factory_return_name`. Recognized field-level directives:
//! `fs_type` (a raw override for the field's target type text, which must be
//! well-formed target type text) and `ts_as` (a source type expression the
//! mapper resolves in place of the declared one). Any other key in the
//! namespace is an unsupported-option error; a second occurrence of a
//! recognized key is a validation error and the first value is kept.
//!
//! A `ts_as` value must parse in the type-reference grammar of the schema
//! model: possibly qualified names with generic arguments, and tuples.
//! Reference, slice, array and function types fall outside that model and
//! are reported as malformed directive values.

use vstd::prelude::*;

use crate::annotations::{
    cleaned, entries_of, kept_entries, lit_errors, syntax_errors, Annotation, DirectiveEntry,
};
use crate::errors::{Ctxt, ErrorKind, TransErrorView};
use crate::source_builder::{spec_ln_push, SourceBuilder};
use crate::types::{
    check_target_type, parse_src_type, spec_parse_type, target_type_wf, SrcType, STy,
};
use crate::model::{FieldDef, VariantDef};

verus! {

/// The validated directive record of one type, field or variant.
pub struct Attrs {
    pub merged_line_comments: SourceBuilder,
    pub fs_type: Option<String>,
    pub ts_handler_name: Option<String>,
    pub ts_handler_return: Option<String>,
    pub ts_factory_name: Option<String>,
    pub ts_factory_return_name: Option<String>,
    pub ts_as: Option<SrcType>,
}

/// The mathematical image of an [`Attrs`] record.
pub struct AttrsView {
    pub comment: Seq<char>,
    pub fs_type: Option<Seq<char>>,
    pub ts_handler_name: Option<Seq<char>>,
    pub ts_handler_return: Option<Seq<char>>,
    pub ts_factory_name: Option<Seq<char>>,
    pub ts_factory_return_name: Option<Seq<char>>,
    pub ts_as: Option<STy>,
}

/// The image of an optional string.
pub open spec fn opt_str_view(o: Option<String>) -> Option<Seq<char>> {
    match o {
        Some(s) => Some(s@),
        None => None,
    }
}

/// The image of an optional type reference.
pub open spec fn opt_sty_view(o: Option<SrcType>) -> Option<STy> {
    match o {
        Some(t) => Some(t@),
        None => None,
    }
}

impl View for Attrs {
    type V = AttrsView;

    open spec fn view(&self) -> AttrsView {
        AttrsView {
            comment: self.merged_line_comments@,
            fs_type: opt_str_view(self.fs_type),
            ts_handler_name: opt_str_view(self.ts_handler_name),
            ts_handler_return: opt_str_view(self.ts_handler_return),
            ts_factory_name: opt_str_view(self.ts_factory_name),
            ts_factory_return_name: opt_str_view(self.ts_factory_return_name),
            ts_as: opt_sty_view(self.ts_as),
        }
    }
}

/// The record every extraction starts from: nothing set, no comment.
pub open spec fn empty_attrs() -> AttrsView {
    AttrsView {
        comment: Seq::empty(),
        fs_type: None,
        ts_handler_name: None,
        ts_handler_return: None,
        ts_factory_name: None,
        ts_factory_return_name: None,
        ts_as: None,
    }
}

/// The text of one directive entry, as the error messages render it: a
/// key/value pair as `key = "value"`, a bare key as itself, a key list
/// with an elided body.
pub open spec fn entry_text(e: DirectiveEntry) -> Seq<char> {
    match e {
        DirectiveEntry::KeyValue(k, v) => k@ + " = \""@ + v@ + "\""@,
        DirectiveEntry::Key(k) => k@,
        DirectiveEntry::KeyList(k) => k@ + "(...)"@,
        DirectiveEntry::Lit(t) => t@,
    }
}

/// An unsupported-option error over the rendered directive entry.
pub open spec fn unsupported_error(site: Seq<char>, entry: Seq<char>) -> TransErrorView {
    TransErrorView {
        kind: ErrorKind::UnsupportedDirective,
        site,
        detail: "unsupported option: "@ + entry,
    }
}

/// The error recorded for a second occurrence of a recognized key.
pub open spec fn duplicate_error(site: Seq<char>, key: Seq<char>) -> TransErrorView {
    TransErrorView {
        kind: ErrorKind::UnsupportedDirective,
        site,
        detail: "duplicate option: "@ + key,
    }
}

/// A malformed-directive-value error with the given message.
pub open spec fn value_error(site: Seq<char>, detail: Seq<char>) -> TransErrorView {
    TransErrorView { kind: ErrorKind::MalformedDirectiveValue, site, detail }
}

/// The message for an `fs_type` override that is not well-formed target
/// type text.
pub open spec fn fs_type_message(v: Seq<char>) -> Seq<char> {
    "fs_type: \""@ + v + "\" is not a valid type"@
}

/// The message for a `ts_as` value that is no source type expression.
pub open spec fn ts_as_message(v: Seq<char>) -> Seq<char> {
    "ts_as: \""@ + v + "\" is not a valid rust type"@
}

/// One type-level directive applied to a record: the new record and the
/// errors raised.
pub open spec fn apply_type_entry(a: AttrsView, e: DirectiveEntry, site: Seq<char>) -> (
    AttrsView,
    Seq<TransErrorView>,
) {
    match e {
        DirectiveEntry::KeyValue(k, v) => {
            if k@ == "handler_name"@ {
                if a.ts_handler_name is Some {
                    (a, seq![duplicate_error(site, k@)])
                } else {
                    (AttrsView { ts_handler_name: Some(v@), ..a }, Seq::empty())
                }
            } else if k@ == "handler_return"@ {
                if a.ts_handler_return is Some {
                    (a, seq![duplicate_error(site, k@)])
                } else {
                    (AttrsView { ts_handler_return: Some(v@), ..a }, Seq::empty())
                }
            } else if k@ == "factory_name"@ {
                if a.ts_factory_name is Some {
                    (a, seq![duplicate_error(site, k@)])
                } else {
                    (AttrsView { ts_factory_name: Some(v@), ..a }, Seq::empty())
                }
            } else if k@ == "factory_return_name"@ {
                if a.ts_factory_return_name is Some {
                    (a, seq![duplicate_error(site, k@)])
                } else {
                    (AttrsView { ts_factory_return_name: Some(v@), ..a }, Seq::empty())
                }
            } else {
                (a, seq![unsupported_error(site, entry_text(e))])
            }
        },
        DirectiveEntry::Key(_) => (a, seq![unsupported_error(site, entry_text(e))]),
        DirectiveEntry::KeyList(_) => (a, seq![unsupported_error(site, entry_text(e))]),
        DirectiveEntry::Lit(_) => (a, Seq::empty()),
    }
}

/// All type-level directives applied left to right.
pub open spec fn apply_type_entries(a: AttrsView, es: Seq<DirectiveEntry>, site: Seq<char>) -> (
    AttrsView,
    Seq<TransErrorView>,
)
    decreases es.len(),
{
    if es.len() == 0 {
        (a, Seq::empty())
    } else {
        let done = apply_type_entries(a, es.subrange(0, es.len() - 1), site);
        let step = apply_type_entry(done.0, es[es.len() - 1], site);
        (step.0, done.1 + step.1)
    }
}

/// One field-level directive applied to a record.
pub open spec fn apply_field_entry(a: AttrsView, e: DirectiveEntry, site: Seq<char>) -> (
    AttrsView,
    Seq<TransErrorView>,
) {
    match e {
        DirectiveEntry::KeyValue(k, v) => {
            if k@ == "fs_type"@ {
                if !target_type_wf(v@) {
                    (a, seq![value_error(site, fs_type_message(v@))])
                } else if a.fs_type is Some {
                    (a, seq![duplicate_error(site, k@)])
                } else {
                    (AttrsView { fs_type: Some(v@), ..a }, Seq::empty())
                }
            } else if k@ == "ts_as"@ {
                match spec_parse_type(v@) {
                    Some(t) => {
                        if a.ts_as is Some {
                            (a, seq![duplicate_error(site, k@)])
                        } else {
                            (AttrsView { ts_as: Some(t), ..a }, Seq::empty())
                        }
                    },
                    None => (a, seq![value_error(site, ts_as_message(v@))]),
                }
            } else {
                (a, seq![unsupported_error(site, entry_text(e))])
            }
        },
        DirectiveEntry::Key(_) => (a, seq![unsupported_error(site, entry_text(e))]),
        DirectiveEntry::KeyList(_) => (a, seq![unsupported_error(site, entry_text(e))]),
        DirectiveEntry::Lit(_) => (a, Seq::empty()),
    }
}

/// All field-level directives applied left to right.
pub open spec fn apply_field_entries(a: AttrsView, es: Seq<DirectiveEntry>, site: Seq<char>) -> (
    AttrsView,
    Seq<TransErrorView>,
)
    decreases es.len(),
{
    if es.len() == 0 {
        (a, Seq::empty())
    } else {
        let done = apply_field_entries(a, es.subrange(0, es.len() - 1), site);
        let step = apply_field_entry(done.0, es[es.len() - 1], site);
        (step.0, done.1 + step.1)
    }
}

/// The merged comment block contributed by the documentation annotations of
/// one list: each cleaned nonempty comment becomes one `/// ` line.
pub open spec fn doc_block(annots: Seq<Annotation>) -> Seq<char>
    decreases annots.len(),
{
    if annots.len() == 0 {
        Seq::empty()
    } else {
        let front = doc_block(annots.subrange(0, annots.len() - 1));
        match annots[annots.len() - 1] {
            Annotation::Doc(d) => {
                let l = cleaned(d@);
                if l.len() == 0 {
                    front
                } else {
                    spec_ln_push(front, seq!['/', '/', '/', ' '] + l)
                }
            },
            _ => front,
        }
    }
}

/// A comment accumulator after one more contribution: nothing changes when
/// the contribution is empty; a blank `///` separator line stands between a
/// nonempty accumulator and the new block.
pub open spec fn push_doc(comment: Seq<char>, annots: Seq<Annotation>) -> Seq<char> {
    let block = doc_block(annots);
    if block.len() == 0 {
        comment
    } else if comment.len() == 0 {
        block
    } else {
        comment + seq!['\n', '/', '/', '/', '\n'] + block
    }
}

/// Two successive documentation contributions to one item are separated by
/// exactly one blank comment line: the merged comment is the first block,
/// one `///` line, then the second block.
pub proof fn lemma_doc_separator(a1: Seq<Annotation>, a2: Seq<Annotation>)
    requires
        doc_block(a1).len() > 0,
        doc_block(a2).len() > 0,
    ensures
        push_doc(push_doc(Seq::empty(), a1), a2) == doc_block(a1) + seq!['\n', '/', '/', '/', '\n']
            + doc_block(a2),
{
}

/// Compares two strings character for character.
pub fn str_eq(a: &str, b: &str) -> (r: bool)
    ensures
        r == (a@ == b@),
{
    let la = a.unicode_len();
    let lb = b.unicode_len();
    if la != lb {
        proof {
            assert(a@ != b@);
        }
        return false;
    }
    let mut i: usize = 0;
    while i < la
        invariant
            i <= la,
            la == a@.len(),
            la == b@.len(),
            forall|k: int| 0 <= k < i ==> a@[k] == b@[k],
        decreases la - i,
    {
        if a.get_char(i) != b.get_char(i) {
            proof {
                assert(a@ != b@);
            }
            return false;
        }
        i = i + 1;
    }
    proof {
        assert(a@ =~= b@);
    }
    true
}

/// A copy of one directive entry.
fn clone_entry(e: &DirectiveEntry) -> (r: DirectiveEntry)
    ensures
        r == *e,
{
    match e {
        DirectiveEntry::KeyValue(k, v) => DirectiveEntry::KeyValue(k.clone(), v.clone()),
        DirectiveEntry::Key(k) => DirectiveEntry::Key(k.clone()),
        DirectiveEntry::KeyList(k) => DirectiveEntry::KeyList(k.clone()),
        DirectiveEntry::Lit(t) => DirectiveEntry::Lit(t.clone()),
    }
}

/// Renders the unsupported-option detail of one directive entry, per
/// [`entry_text`].
fn unsupported_detail(e: &DirectiveEntry) -> (r: String)
    ensures
        r@ == "unsupported option: "@ + entry_text(*e),
{
    match e {
        DirectiveEntry::KeyValue(k, v) => {
            let mut s = "unsupported option: ".to_owned();
            s.append(k.as_str());
            s.append(" = \"");
            s.append(v.as_str());
            s.append("\"");
            proof {
                assert(s@ =~= "unsupported option: "@ + entry_text(*e));
            }
            s
        },
        DirectiveEntry::Key(k) => prefixed("unsupported option: ", k.as_str()),
        DirectiveEntry::KeyList(k) => {
            let mut s = prefixed("unsupported option: ", k.as_str());
            s.append("(...)");
            proof {
                assert(s@ =~= "unsupported option: "@ + entry_text(*e));
            }
            s
        },
        DirectiveEntry::Lit(t) => prefixed("unsupported option: ", t.as_str()),
    }
}

/// Builds `prefix + body` as one string.
fn prefixed(prefix: &str, body: &str) -> (r: String)
    ensures
        r@ == prefix@ + body@,
{
    let mut s = prefix.to_owned();
    s.append(body);
    s
}

/// Builds `prefix + body + suffix` as one string.
fn glue(prefix: &str, body: &str, suffix: &str) -> (r: String)
    ensures
        r@ == prefix@ + body@ + suffix@,
{
    let mut s = prefix.to_owned();
    s.append(body);
    s.append(suffix);
    s
}

impl Attrs {
    /// A record with nothing set and no comment.
    pub fn new() -> (r: Attrs)
        ensures
            r@ == empty_attrs(),
    {
        Attrs {
            merged_line_comments: SourceBuilder::default(),
            fs_type: None,
            ts_handler_name: None,
            ts_handler_return: None,
            ts_factory_name: None,
            ts_factory_return_name: None,
            ts_as: None,
        }
    }

    /// A snapshot of the merged comment block.
    pub fn to_comment_source(&self) -> (r: SourceBuilder)
        ensures
            r@ == self@.comment,
    {
        self.merged_line_comments.clone()
    }

    /// Collects the documentation annotations of `annots` into a comment
    /// block of `/// ` lines, per [`doc_block`].
    pub fn to_comments(annots: &Vec<Annotation>) -> (r: SourceBuilder)
        ensures
            r@ == doc_block(annots@),
    {
        let mut src = SourceBuilder::new();
        let n = annots.len();
        let mut i: usize = 0;
        proof {
            assert(annots@.subrange(0, 0) =~= Seq::<Annotation>::empty());
        }
        while i < n
            invariant
                i <= n,
                n == annots@.len(),
                src@ == doc_block(annots@.subrange(0, i as int)),
            decreases n - i,
        {
            let ghost pre = annots@.subrange(0, i as int);
            match &annots[i] {
                Annotation::Doc(d) => {
                    let line = crate::annotations::clean_doc(d.as_str());
                    if !line.as_str().is_empty() {
                        src.ln_push("/// ");
                        src.push(line.as_str());
                        proof {
                            reveal_strlit("/// ");
                            assert("/// "@ =~= seq!['/', '/', '/', ' ']);
                            assert(spec_ln_push(doc_block(pre), "/// "@) + line@ =~= spec_ln_push(
                                doc_block(pre), seq!['/', '/', '/', ' '] + line@,
                            ));
                        }
                    }
                },
                _ => {},
            }
            proof {
                let next = annots@.subrange(0, i as int + 1);
                assert(next.subrange(0, next.len() - 1) =~= pre);
                assert(next[next.len() - 1] == annots@[i as int]);
            }
            i = i + 1;
        }
        proof {
            assert(annots@.subrange(0, n as int) =~= annots@);
        }
        src
    }

    /// Merges the documentation annotations of `annots` into this record's
    /// comment accumulator, per [`push_doc`]: nothing is emitted when no
    /// documentation is present, and a blank `///` separator line stands
    /// before any contribution that is not the first.
    pub fn push_doc_comment(&mut self, annots: &Vec<Annotation>)
        ensures
            final(self)@ == (AttrsView { comment: push_doc(old(self)@.comment, annots@), ..old(
                self,
            )@ }),
    {
        let block = Self::to_comments(annots);
        if block.is_not_empty() {
            if self.merged_line_comments.is_not_empty() {
                self.merged_line_comments.ln_push("///");
                proof {
                    reveal_strlit("///");
                    assert("///"@ =~= seq!['/', '/', '/']);
                }
            }
            self.merged_line_comments.push_source(&block);
            proof {
                assert(self@.comment =~= push_doc(old(self)@.comment, annots@));
            }
        }
    }

    /// Extracts the entries of the recognized directive namespace from
    /// `annots`, recording a malformed-attribute-syntax error against `site`
    /// for namespace contents that did not parse and for bare literals.
    pub fn find_fsharp(annots: &Vec<Annotation>, site: &String, ctxt: &mut Ctxt) -> (r: Vec<
        DirectiveEntry,
    >)
        ensures
            r@ == entries_of(annots@),
            final(ctxt)@ == old(ctxt)@ + syntax_errors(annots@, site@),
    {
        let mut out: Vec<DirectiveEntry> = Vec::new();
        let n = annots.len();
        let mut i: usize = 0;
        proof {
            assert(annots@.subrange(0, 0) =~= Seq::<Annotation>::empty());
            assert(out@ =~= entries_of(annots@.subrange(0, 0)));
            assert(ctxt@ =~= old(ctxt)@ + syntax_errors(annots@.subrange(0, 0), site@));
        }
        while i < n
            invariant
                i <= n,
                n == annots@.len(),
                out@ == entries_of(annots@.subrange(0, i as int)),
                ctxt@ == old(ctxt)@ + syntax_errors(annots@.subrange(0, i as int), site@),
            decreases n - i,
        {
            let ghost pre = annots@.subrange(0, i as int);
            match &annots[i] {
                Annotation::Directive(es) => {
                    let m = es.len();
                    let mut j: usize = 0;
                    proof {
                        assert(es@.subrange(0, 0) =~= Seq::<DirectiveEntry>::empty());
                        assert(out@ + kept_entries(es@.subrange(0, 0)) =~= out@);
                        assert(ctxt@ + lit_errors(es@.subrange(0, 0), site@) =~= ctxt@);
                    }
                    while j < m
                        invariant
                            j <= m,
                            m == es@.len(),
                            out@ == entries_of(pre) + kept_entries(es@.subrange(0, j as int)),
                            ctxt@ == old(ctxt)@ + syntax_errors(pre, site@) + lit_errors(
                                es@.subrange(0, j as int), site@,
                            ),
                        decreases m - j,
                    {
                        let ghost epre = es@.subrange(0, j as int);
                        match &es[j] {
                            DirectiveEntry::Lit(t) => {
                                let detail = prefixed("invalid fsharp syntax: ", t.as_str());
                                ctxt.error(ErrorKind::MalformedAttributeSyntax, site, detail);
                            },
                            _ => {
                                let e = clone_entry(&es[j]);
                                out.push(e);
                            },
                        }
                        proof {
                            let enext = es@.subrange(0, j as int + 1);
                            assert(enext.subrange(0, enext.len() - 1) =~= epre);
                            assert(enext[enext.len() - 1] == es@[j as int]);
                            assert(out@ =~= entries_of(pre) + kept_entries(enext));
                            assert(ctxt@ =~~= old(ctxt)@ + syntax_errors(pre, site@) + lit_errors(
                                enext, site@,
                            ));
                        }
                        j = j + 1;
                    }
                    proof {
                        assert(es@.subrange(0, m as int) =~= es@);
                    }
                },
                Annotation::MalformedDirective(t) => {
                    let detail = prefixed("invalid fsharp syntax: ", t.as_str());
                    ctxt.error(ErrorKind::MalformedAttributeSyntax, site, detail);
                },
                _ => {},
            }
            proof {
                let next = annots@.subrange(0, i as int + 1);
                assert(next.subrange(0, next.len() - 1) =~= pre);
                assert(next[next.len() - 1] == annots@[i as int]);
                assert(out@ =~= entries_of(next));
                assert(ctxt@ =~~= old(ctxt)@ + syntax_errors(next, site@));
            }
            i = i + 1;
        }
        proof {
            assert(annots@.subrange(0, n as int) =~= annots@);
        }
        out
    }

    /// Applies the type-level directives found in `annots` to this record,
    /// per [`apply_type_entries`], recording every error against `site`.
    pub fn push_attrs(&mut self, site: &String, annots: &Vec<Annotation>, ctxt: &mut Ctxt)
        ensures
            final(self)@ == apply_type_entries(old(self)@, entries_of(annots@), site@).0,
            final(ctxt)@ == old(ctxt)@ + syntax_errors(annots@, site@) + apply_type_entries(
                old(self)@, entries_of(annots@), site@,
            ).1,
    {
        let entries = Self::find_fsharp(annots, site, ctxt);
        let ghost mid_ctxt = ctxt@;
        let n = entries.len();
        let mut i: usize = 0;
        proof {
            assert(entries@.subrange(0, 0) =~= Seq::<DirectiveEntry>::empty());
            assert(ctxt@ =~= mid_ctxt + apply_type_entries(old(self)@, entries@.subrange(0, 0),
                site@).1);
        }
        while i < n
            invariant
                i <= n,
                n == entries@.len(),
                self@ == apply_type_entries(old(self)@, entries@.subrange(0, i as int), site@).0,
                ctxt@ == mid_ctxt + apply_type_entries(
                    old(self)@, entries@.subrange(0, i as int), site@,
                ).1,
            decreases n - i,
        {
            let ghost pre = entries@.subrange(0, i as int);
            match &entries[i] {
                DirectiveEntry::KeyValue(k, v) => {
                    if str_eq(k.as_str(), "handler_name") {
                        if self.ts_handler_name.is_some() {
                            let detail = prefixed("duplicate option: ", k.as_str());
                            ctxt.error(ErrorKind::UnsupportedDirective, site, detail);
                        } else {
                            self.ts_handler_name = Some(v.clone());
                        }
                    } else if str_eq(k.as_str(), "handler_return") {
                        if self.ts_handler_return.is_some() {
                            let detail = prefixed("duplicate option: ", k.as_str());
                            ctxt.error(ErrorKind::UnsupportedDirective, site, detail);
                        } else {
                            self.ts_handler_return = Some(v.clone());
                        }
                    } else if str_eq(k.as_str(), "factory_name") {
                        if self.ts_factory_name.is_some() {
                            let detail = prefixed("duplicate option: ", k.as_str());
                            ctxt.error(ErrorKind::UnsupportedDirective, site, detail);
                        } else {
                            self.ts_factory_name = Some(v.clone());
                        }
                    } else if str_eq(k.as_str(), "factory_return_name") {
                        if self.ts_factory_return_name.is_some() {
                            let detail = prefixed("duplicate option: ", k.as_str());
                            ctxt.error(ErrorKind::UnsupportedDirective, site, detail);
                        } else {
                            self.ts_factory_return_name = Some(v.clone());
                        }
                    } else {
                        let detail = unsupported_detail(&entries[i]);
                        ctxt.error(ErrorKind::UnsupportedDirective, site, detail);
                    }
                },
                DirectiveEntry::Key(_) => {
                    let detail = unsupported_detail(&entries[i]);
                    ctxt.error(ErrorKind::UnsupportedDirective, site, detail);
                },
                DirectiveEntry::KeyList(_) => {
                    let detail = unsupported_detail(&entries[i]);
                    ctxt.error(ErrorKind::UnsupportedDirective, site, detail);
                },
                DirectiveEntry::Lit(_) => {},
            }
            proof {
                let next = entries@.subrange(0, i as int + 1);
                assert(next.subrange(0, next.len() - 1) =~= pre);
                assert(next[next.len() - 1] == entries@[i as int]);
                assert(self@ =~= apply_type_entries(old(self)@, next, site@).0);
                assert(ctxt@ =~~= mid_ctxt + apply_type_entries(old(self)@, next, site@).1);
            }
            i = i + 1;
        }
        proof {
            assert(entries@.subrange(0, n as int) =~= entries@);
        }
    }

    /// Applies the field-level directives found in `annots` to this record,
    /// per [`apply_field_entries`]: a malformed `fs_type` or `ts_as` value
    /// is a malformed-directive-value error against `site` and the directive
    /// is ignored.
    pub fn push_field_attrs(&mut self, site: &String, annots: &Vec<Annotation>, ctxt: &mut Ctxt)
        ensures
            final(self)@ == apply_field_entries(old(self)@, entries_of(annots@), site@).0,
            final(ctxt)@ == old(ctxt)@ + syntax_errors(annots@, site@) + apply_field_entries(
                old(self)@, entries_of(annots@), site@,
            ).1,
    {
        let entries = Self::find_fsharp(annots, site, ctxt);
        let ghost mid_ctxt = ctxt@;
        let n = entries.len();
        let mut i: usize = 0;
        proof {
            assert(entries@.subrange(0, 0) =~= Seq::<DirectiveEntry>::empty());
            assert(ctxt@ =~= mid_ctxt + apply_field_entries(old(self)@, entries@.subrange(0, 0),
                site@).1);
        }
        while i < n
            invariant
                i <= n,
                n == entries@.len(),
                self@ == apply_field_entries(old(self)@, entries@.subrange(0, i as int), site@).0,
                ctxt@ == mid_ctxt + apply_field_entries(
                    old(self)@, entries@.subrange(0, i as int), site@,
                ).1,
            decreases n - i,
        {
            let ghost pre = entries@.subrange(0, i as int);
            match &entries[i] {
                DirectiveEntry::KeyValue(k, v) => {
                    if str_eq(k.as_str(), "fs_type") {
                        if !check_target_type(v.as_str()) {
                            let detail = glue("fs_type: \"", v.as_str(), "\" is not a valid type");
                            ctxt.error(ErrorKind::MalformedDirectiveValue, site, detail);
                        } else if self.fs_type.is_some() {
                            let detail = prefixed("duplicate option: ", k.as_str());
                            ctxt.error(ErrorKind::UnsupportedDirective, site, detail);
                        } else {
                            self.fs_type = Some(v.clone());
                        }
                    } else if str_eq(k.as_str(), "ts_as") {
                        match parse_src_type(v.as_str()) {
                            Some(t) => {
                                if self.ts_as.is_some() {
                                    let detail = prefixed("duplicate option: ", k.as_str());
                                    ctxt.error(ErrorKind::UnsupportedDirective, site, detail);
                                } else {
                                    self.ts_as = Some(t);
                                }
                            },
                            None => {
                                let detail = glue(
                                    "ts_as: \"", v.as_str(), "\" is not a valid rust type",
                                );
                                ctxt.error(ErrorKind::MalformedDirectiveValue, site, detail);
                            },
                        }
                    } else {
                        let detail = unsupported_detail(&entries[i]);
                        ctxt.error(ErrorKind::UnsupportedDirective, site, detail);
                    }
                },
                DirectiveEntry::Key(_) => {
                    let detail = unsupported_detail(&entries[i]);
                    ctxt.error(ErrorKind::UnsupportedDirective, site, detail);
                },
                DirectiveEntry::KeyList(_) => {
                    let detail = unsupported_detail(&entries[i]);
                    ctxt.error(ErrorKind::UnsupportedDirective, site, detail);
                },
                DirectiveEntry::Lit(_) => {},
            }
            proof {
                let next = entries@.subrange(0, i as int + 1);
                assert(next.subrange(0, next.len() - 1) =~= pre);
                assert(next[next.len() - 1] == entries@[i as int]);
                assert(self@ =~= apply_field_entries(old(self)@, next, site@).0);
                assert(ctxt@ =~~= mid_ctxt + apply_field_entries(old(self)@, next, site@).1);
            }
            i = i + 1;
        }
        proof {
            assert(entries@.subrange(0, n as int) =~= entries@);
        }
    }

    /// Builds a variant's record: its doc comments only, no field-level
    /// directives are recognized on variants.
    pub fn from_variant(variant: &VariantDef) -> (r: Attrs)
        ensures
            r@ == (AttrsView { comment: push_doc(Seq::empty(), variant.annots@), ..empty_attrs() }),
    {
        let mut res = Self::new();
        res.push_doc_comment(&variant.annots);
        res
    }

    /// The error site of one field: its identifier, or a placeholder for a
    /// positional field.
    pub open spec fn spec_field_site(field: FieldDef) -> Seq<char> {
        match field.name {
            Some(n) => n@,
            None => "unnamed"@,
        }
    }

    /// Builds a field's record: field-level directives first, then its doc
    /// comments, all errors recorded against the field's identifier (or a
    /// placeholder for a positional field).
    pub fn from_field(field: &FieldDef, ctxt: &mut Ctxt) -> (r: Attrs)
        ensures
            ({
                let site = Self::spec_field_site(*field);
                let applied = apply_field_entries(empty_attrs(), entries_of(field.annots@), site);
                &&& r@ == (AttrsView {
                    comment: push_doc(applied.0.comment, field.annots@),
                    ..applied.0
                })
                &&& final(ctxt)@ == old(ctxt)@ + syntax_errors(field.annots@, site) + applied.1
            }),
    {
        let mut res = Self::new();
        let site = match &field.name {
            Some(n) => n.clone(),
            None => "unnamed".to_owned(),
        };
        res.push_field_attrs(&site, &field.annots, ctxt);
        res.push_doc_comment(&field.annots);
        res
    }
}

/// The longest turbofish candidate [`turbofish_check`] accepts. The probe
/// built around the candidate stays within [`DERIVE_INPUT_MAX`], which
/// keeps the item parser's recursion shallow.
pub const TURBOFISH_CANDIDATE_MAX: usize = 4080;

/// The longest text handed to the item parser: its recursion descends once
/// per nesting level, so text this short cannot exhaust the stack.
pub const DERIVE_INPUT_MAX: usize = 4096;

/// The probe text whose parse decides a turbofish check: the candidate
/// spliced as a field type suffix into a small struct item. The separating
/// space keeps the candidate's first token from merging with the field
/// type's identifier, so the probe lexes exactly as a token splice would.
/// (One divergence remains: a candidate holding a line comment swallows the
/// probe's closing brace and is rejected, where splicing lexed tokens would
/// drop the comment first.)
pub open spec fn turbofish_probe(v: Seq<char>) -> Seq<char> {
    "struct S{ a:v "@ + v + " }"@
}

/// Relies on the `FromStr` impl of `proc_macro2::TokenStream`: whether the
/// text lexes as a token stream. The fallback lexer, which decides outside
/// a procedural-macro context — the only context this library runs in — is
/// iterative and returns a result on every input; the result depends on
/// the text alone.
#[verifier::external_body]
fn lex_check(v: &str) -> (r: bool)
    ensures
        r == lexes_as_tokens(v@),
{
    v.parse::<proc_macro2::TokenStream>().is_ok()
}

/// Whether text lexes as a token stream, as `proc_macro2` decides it.
pub uninterp spec fn lexes_as_tokens(s: Seq<char>) -> bool;

/// Relies on `syn::parse_str::<syn::DeriveInput>`: whether the text parses
/// as a struct or enum item. The result depends on the text alone. syn's
/// parser is recursive descent with no depth guard, so a deeply nested
/// text (thousands of nested brackets) would exhaust the stack instead of
/// returning: the length bound leaves every such text out.
#[verifier::external_body]
fn derive_input_check(src: &str) -> (r: bool)
    requires
        src@.len() <= DERIVE_INPUT_MAX,
    ensures
        r == parses_as_derive_input(src@),
{
    syn::parse_str::<syn::DeriveInput>(src).is_ok()
}

/// Whether text parses as a struct or enum item, as `syn` decides it.
pub uninterp spec fn parses_as_derive_input(s: Seq<char>) -> bool;

/// Checks that `v` can stand as a turbofish-style type suffix: it must lex
/// as tokens, and a probe struct declaring a field of type `v` followed by
/// the suffix must parse as an item. The length bound keeps the probe
/// within what the item parser is trusted to answer.
pub fn turbofish_check(v: &str) -> (r: Result<(), String>)
    requires
        v@.len() <= TURBOFISH_CANDIDATE_MAX,
    ensures
        ({
            if !lexes_as_tokens(v@) {
                r matches Err(m) && m@ == "Can't lex turbofish \""@ + v@ + "\""@
            } else if !parses_as_derive_input(turbofish_probe(v@)) {
                r matches Err(m) && m@ == "Can't parse turbofish \""@ + v@ + "\""@
            } else {
                r is Ok
            }
        }),
{
    if !lex_check(v) {
        Err(glue("Can't lex turbofish \"", v, "\""))
    } else {
        let probe = glue("struct S{ a:v ", v, " }");
        proof {
            reveal_strlit("struct S{ a:v ");
            reveal_strlit(" }");
            assert(probe@.len() <= DERIVE_INPUT_MAX);
        }
        if derive_input_check(probe.as_str()) {
            Ok(())
        } else {
            Err(glue("Can't parse turbofish \"", v, "\""))
        }
    }
}

} // verus!
