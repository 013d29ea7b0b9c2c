//! The annotation model: the already-parsed markers attached to a type, a
//! field or a variant, as the translator receives them, together with the
//! specification of directive extraction and documentation-comment cleaning.

use vstd::prelude::*;

use crate::errors::{ErrorKind, TransErrorView};

verus! {

/// One entry inside the recognized directive namespace.
#[derive(Clone)]
pub enum DirectiveEntry {
    /// `key = "value"`.
    KeyValue(String, String),
    /// A bare key with no value.
    Key(String),
    /// `key(...)`: a key carrying a nested list.
    KeyList(String),
    /// A bare literal where a key was expected; its text is kept for the
    /// error message.
    Lit(String),
}

/// One annotation attached to a type, field or variant.
#[derive(Clone)]
pub enum Annotation {
    /// A documentation comment; the raw text may still carry comment
    /// markers, which the collector strips.
    Doc(String),
    /// An annotation in the recognized directive namespace whose contents
    /// parsed as a list of entries.
    Directive(Vec<DirectiveEntry>),
    /// An annotation in the recognized directive namespace whose contents
    /// did not parse; its text is kept for the error message.
    MalformedDirective(String),
    /// An annotation outside the recognized namespace: always ignored.
    Other,
}

/// Whether a directive entry survives extraction (bare literals do not).
pub open spec fn entry_kept(e: DirectiveEntry) -> bool {
    !(e is Lit)
}

/// The entries of one list that survive extraction, in order.
pub open spec fn kept_entries(es: Seq<DirectiveEntry>) -> Seq<DirectiveEntry>
    decreases es.len(),
{
    if es.len() == 0 {
        Seq::empty()
    } else if entry_kept(es.last()) {
        kept_entries(es.drop_last()).push(es.last())
    } else {
        kept_entries(es.drop_last())
    }
}

/// The entries one annotation contributes to extraction.
pub open spec fn head_entries(a: Annotation) -> Seq<DirectiveEntry> {
    match a {
        Annotation::Directive(es) => kept_entries(es@),
        _ => Seq::empty(),
    }
}

/// All directive entries of an annotation list, in source order.
pub open spec fn entries_of(annots: Seq<Annotation>) -> Seq<DirectiveEntry>
    decreases annots.len(),
{
    if annots.len() == 0 {
        Seq::empty()
    } else {
        entries_of(annots.drop_last()) + head_entries(annots.last())
    }
}

/// A malformed-attribute-syntax error over the given site and text.
pub open spec fn syntax_error(site: Seq<char>, text: Seq<char>) -> TransErrorView {
    TransErrorView {
        kind: ErrorKind::MalformedAttributeSyntax,
        site,
        detail: "invalid fsharp syntax: "@ + text,
    }
}

/// The syntax errors raised by the bare literals of one entry list.
pub open spec fn lit_errors(es: Seq<DirectiveEntry>, site: Seq<char>) -> Seq<TransErrorView>
    decreases es.len(),
{
    if es.len() == 0 {
        Seq::empty()
    } else {
        lit_errors(es.drop_last(), site) + (match es.last() {
            DirectiveEntry::Lit(t) => seq![syntax_error(site, t@)],
            _ => Seq::<TransErrorView>::empty(),
        })
    }
}

/// The syntax errors one annotation contributes.
pub open spec fn head_syntax_errors(a: Annotation, site: Seq<char>) -> Seq<TransErrorView> {
    match a {
        Annotation::MalformedDirective(t) => seq![syntax_error(site, t@)],
        Annotation::Directive(es) => lit_errors(es@, site),
        _ => Seq::empty(),
    }
}

/// All malformed-attribute-syntax errors of an annotation list, in order.
pub open spec fn syntax_errors(annots: Seq<Annotation>, site: Seq<char>) -> Seq<TransErrorView>
    decreases annots.len(),
{
    if annots.len() == 0 {
        Seq::empty()
    } else {
        syntax_errors(annots.drop_last(), site) + head_syntax_errors(annots.last(), site)
    }
}

/// ASCII whitespace, as the comment collector trims it. Trimming stops at
/// the ASCII set: a comment ending in a Unicode-only whitespace character
/// keeps it.
pub open spec fn is_space(c: char) -> bool {
    c == ' ' || c == '\t' || c == '\n' || c == '\r'
}

/// Whether `p` is a prefix of `s`.
pub open spec fn has_prefix(s: Seq<char>, p: Seq<char>) -> bool {
    p.len() <= s.len() && s.subrange(0, p.len() as int) == p
}

/// Whether `p` is a suffix of `s`.
pub open spec fn has_suffix(s: Seq<char>, p: Seq<char>) -> bool {
    p.len() <= s.len() && s.subrange(s.len() - p.len(), s.len() as int) == p
}

/// `s` with every leading occurrence of `p` removed.
pub open spec fn strip_prefix_all(s: Seq<char>, p: Seq<char>) -> Seq<char>
    decreases s.len(),
{
    if p.len() > 0 && has_prefix(s, p) {
        strip_prefix_all(s.skip(p.len() as int), p)
    } else {
        s
    }
}

/// `s` with every trailing occurrence of `p` removed.
pub open spec fn strip_suffix_all(s: Seq<char>, p: Seq<char>) -> Seq<char>
    decreases s.len(),
{
    if p.len() > 0 && has_suffix(s, p) {
        strip_suffix_all(s.take(s.len() - p.len()), p)
    } else {
        s
    }
}

/// `s` without leading whitespace.
pub open spec fn trim_front(s: Seq<char>) -> Seq<char>
    decreases s.len(),
{
    if s.len() > 0 && is_space(s[0]) {
        trim_front(s.drop_first())
    } else {
        s
    }
}

/// `s` without trailing whitespace.
pub open spec fn trim_back(s: Seq<char>) -> Seq<char>
    decreases s.len(),
{
    if s.len() > 0 && is_space(s.last()) {
        trim_back(s.drop_last())
    } else {
        s
    }
}

/// `s` without leading or trailing whitespace.
pub open spec fn trim(s: Seq<char>) -> Seq<char> {
    trim_back(trim_front(s))
}

/// The marker-stripping pipeline before the final whitespace trim: the
/// bang, trailing-line and block comment openers are removed in front, the
/// block closer behind.
pub open spec fn cleaned_before_trim(s: Seq<char>) -> Seq<char> {
    strip_suffix_all(
        strip_prefix_all(
            strip_prefix_all(
                strip_prefix_all(
                    strip_prefix_all(s, seq!['/', '/', '!']),
                    seq!['/', '/', '/'],
                ),
                seq!['/', '*', '!'],
            ),
            seq!['/', '*', '*'],
        ),
        seq!['*', '/'],
    )
}

/// A documentation comment's text with the accepted comment markers
/// (trailing-line, bang, and the two block forms) stripped and the result
/// trimmed of whitespace.
pub open spec fn cleaned(s: Seq<char>) -> Seq<char> {
    trim(cleaned_before_trim(s))
}

/// Whether the three characters at `lo` in `s[lo..hi]` are `a`, `b`, `c`.
fn matches3_at(s: &str, lo: usize, hi: usize, a: char, b: char, c: char) -> (r: bool)
    requires
        lo <= hi <= s@.len(),
    ensures
        r == has_prefix(s@.subrange(lo as int, hi as int), seq![a, b, c]),
{
    let r = hi - lo >= 3 && s.get_char(lo) == a && s.get_char(lo + 1) == b && s.get_char(
        lo + 2,
    ) == c;
    proof {
        let w = s@.subrange(lo as int, hi as int);
        if r {
            assert(w.subrange(0, 3) =~= seq![a, b, c]);
        } else if hi - lo >= 3 {
            assert(w.subrange(0, 3) =~= seq![s@[lo as int], s@[lo as int + 1], s@[lo as int + 2]]);
        }
    }
    r
}

/// Whether the two characters before `hi` in `s[lo..hi]` are `a`, `b`.
fn matches2_end(s: &str, lo: usize, hi: usize, a: char, b: char) -> (r: bool)
    requires
        lo <= hi <= s@.len(),
    ensures
        r == has_suffix(s@.subrange(lo as int, hi as int), seq![a, b]),
{
    let r = hi - lo >= 2 && s.get_char(hi - 2) == a && s.get_char(hi - 1) == b;
    proof {
        let w = s@.subrange(lo as int, hi as int);
        if r {
            assert(w.subrange(w.len() - 2, w.len() as int) =~= seq![a, b]);
        } else if hi - lo >= 2 {
            assert(w.subrange(w.len() - 2, w.len() as int) =~= seq![
                s@[hi as int - 2],
                s@[hi as int - 1],
            ]);
        }
    }
    r
}

/// Advances `lo` past every occurrence of the three-character marker.
fn strip3(s: &str, lo: usize, hi: usize, a: char, b: char, c: char) -> (r: usize)
    requires
        lo <= hi <= s@.len(),
    ensures
        lo <= r <= hi,
        s@.subrange(r as int, hi as int) == strip_prefix_all(
            s@.subrange(lo as int, hi as int),
            seq![a, b, c],
        ),
{
    let mut cur = lo;
    while matches3_at(s, cur, hi, a, b, c)
        invariant
            lo <= cur <= hi <= s@.len(),
            strip_prefix_all(s@.subrange(cur as int, hi as int), seq![a, b, c])
                == strip_prefix_all(s@.subrange(lo as int, hi as int), seq![a, b, c]),
        decreases hi - cur,
    {
        proof {
            let w = s@.subrange(cur as int, hi as int);
            assert(w.skip(3) =~= s@.subrange(cur as int + 3, hi as int));
        }
        cur = cur + 3;
    }
    cur
}

/// Steps `hi` back across every trailing occurrence of the two-character
/// marker.
fn strip2_end(s: &str, lo: usize, hi: usize, a: char, b: char) -> (r: usize)
    requires
        lo <= hi <= s@.len(),
    ensures
        lo <= r <= hi,
        s@.subrange(lo as int, r as int) == strip_suffix_all(
            s@.subrange(lo as int, hi as int),
            seq![a, b],
        ),
{
    let mut cur = hi;
    while matches2_end(s, lo, cur, a, b)
        invariant
            lo <= cur <= hi <= s@.len(),
            strip_suffix_all(s@.subrange(lo as int, cur as int), seq![a, b])
                == strip_suffix_all(s@.subrange(lo as int, hi as int), seq![a, b]),
        decreases cur - lo,
    {
        proof {
            let w = s@.subrange(lo as int, cur as int);
            assert(w.take(w.len() - 2) =~= s@.subrange(lo as int, cur as int - 2));
        }
        cur = cur - 2;
    }
    cur
}

proof fn lemma_trim_front_len(s: Seq<char>)
    ensures
        trim_front(s).len() <= s.len(),
    decreases s.len(),
{
    if s.len() > 0 && is_space(s[0]) {
        lemma_trim_front_len(s.drop_first());
    }
}

proof fn lemma_trim_front_fixed(s: Seq<char>)
    requires
        trim_front(s) == s,
        s.len() > 0,
    ensures
        !is_space(s[0]),
{
    if is_space(s[0]) {
        lemma_trim_front_len(s.drop_first());
        assert(trim_front(s) == trim_front(s.drop_first()));
    }
}

/// Whether the character at `i` of `s` is whitespace.
fn space_at(s: &str, i: usize) -> (r: bool)
    requires
        i < s@.len(),
    ensures
        r == is_space(s@[i as int]),
{
    let c = s.get_char(i);
    c == ' ' || c == '\t' || c == '\n' || c == '\r'
}

/// Strips the accepted comment markers from one documentation comment's raw
/// text and trims whitespace, per [`cleaned`].
pub fn clean_doc(s: &str) -> (r: String)
    ensures
        r@ == cleaned(s@),
{
    let len = s.unicode_len();
    let mut lo: usize = 0;
    let mut hi: usize = len;
    proof {
        assert(s@.subrange(0, s@.len() as int) =~= s@);
    }
    lo = strip3(s, lo, hi, '/', '/', '!');
    lo = strip3(s, lo, hi, '/', '/', '/');
    lo = strip3(s, lo, hi, '/', '*', '!');
    lo = strip3(s, lo, hi, '/', '*', '*');
    hi = strip2_end(s, lo, hi, '*', '/');
    assert(s@.subrange(lo as int, hi as int) == cleaned_before_trim(s@));
    while lo < hi && space_at(s, lo)
        invariant
            lo <= hi <= s@.len(),
            trim_front(s@.subrange(lo as int, hi as int)) == trim_front(
                cleaned_before_trim(s@),
            ),
        decreases hi - lo,
    {
        proof {
            let w = s@.subrange(lo as int, hi as int);
            assert(w.drop_first() =~= s@.subrange(lo as int + 1, hi as int));
        }
        lo = lo + 1;
    }
    assert(trim_front(s@.subrange(lo as int, hi as int)) == s@.subrange(lo as int, hi as int));
    assert(trim_back(s@.subrange(lo as int, hi as int)) == trim(cleaned_before_trim(s@)));
    while lo < hi && space_at(s, hi - 1)
        invariant
            lo <= hi <= s@.len(),
            trim_front(s@.subrange(lo as int, hi as int)) == s@.subrange(lo as int, hi as int),
            trim_back(s@.subrange(lo as int, hi as int)) == trim(cleaned_before_trim(s@)),
        decreases hi - lo,
    {
        proof {
            let w = s@.subrange(lo as int, hi as int);
            assert(w.drop_last() =~= s@.subrange(lo as int, hi as int - 1));
            lemma_trim_front_fixed(w);
            if w.len() > 1 {
                assert(w.drop_last()[0] == w[0]);
            }
            assert(trim_front(w.drop_last()) == w.drop_last());
        }
        hi = hi - 1;
    }
    assert(s@.subrange(lo as int, hi as int) == cleaned(s@));
    let out = s.substring_char(lo, hi);
    out.to_owned()
}

} // verus!
