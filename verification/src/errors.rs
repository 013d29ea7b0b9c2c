//! Error accumulation: every validation point records its findings against a
//! context, and the caller decides what a nonempty batch of errors means.

use vstd::prelude::*;

verus! {

/// The kinds of validation failure a translation can surface.
#[derive(Clone, Copy, PartialEq, Eq, Structural, Debug)]
pub enum ErrorKind {
    /// An unknown key inside the recognized directive namespace.
    UnsupportedDirective,
    /// A directive's value fails to parse as a type expression in its
    /// declared grammar.
    MalformedDirectiveValue,
    /// The directive namespace's contents are not a parsable list of
    /// key/value or key/list pairs.
    MalformedAttributeSyntax,
}

/// One recorded validation failure, with enough positional context (`site`)
/// to map back to the offending source construct.
pub struct TransError {
    pub kind: ErrorKind,
    pub site: String,
    pub detail: String,
}

/// The mathematical image of a [`TransError`].
pub struct TransErrorView {
    pub kind: ErrorKind,
    pub site: Seq<char>,
    pub detail: Seq<char>,
}

impl View for TransError {
    type V = TransErrorView;

    open spec fn view(&self) -> TransErrorView {
        TransErrorView { kind: self.kind, site: self.site@, detail: self.detail@ }
    }
}

/// The error-accumulation context: it accepts `(site, message)` pairs and
/// keeps them, in order, for the caller to report collectively.
pub struct Ctxt {
    errors: Vec<TransError>,
}

impl View for Ctxt {
    type V = Seq<TransErrorView>;

    closed spec fn view(&self) -> Seq<TransErrorView> {
        self.errors@.map_values(|e: TransError| e@)
    }
}

impl Ctxt {
    /// A context holding no errors yet.
    pub fn new() -> (r: Self)
        ensures
            r@ == Seq::<TransErrorView>::empty(),
    {
        let r = Ctxt { errors: Vec::new() };
        proof {
            assert(r@ =~= Seq::<TransErrorView>::empty());
        }
        r
    }

    /// Records one failure against this context.
    pub fn error(&mut self, kind: ErrorKind, site: &String, detail: String)
        ensures
            final(self)@ == old(self)@.push(
                TransErrorView { kind, site: site@, detail: detail@ },
            ),
    {
        let ghost v = TransErrorView { kind, site: site@, detail: detail@ };
        self.errors.push(TransError { kind, site: site.clone(), detail });
        proof {
            assert(self@ =~= old(self)@.push(v));
        }
    }

    /// How many errors have been recorded.
    pub fn error_count(&self) -> (r: usize)
        ensures
            r == self@.len(),
    {
        self.errors.len()
    }

    /// Hands the recorded errors out, in the order they were recorded.
    pub fn into_errors(self) -> (r: Vec<TransError>)
        ensures
            r@.map_values(|e: TransError| e@) == self@,
    {
        self.errors
    }
}

} // verus!
