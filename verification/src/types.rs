//! The source-language type model: a type reference is an identifier with
//! optional generic arguments, or a tuple. The module defines the grammar of
//! type expressions as a specification-level parser, an executable parser
//! proved equal to it, and the well-formedness check for target-language
//! type text supplied through an override directive.

use vstd::prelude::*;

use crate::annotations::is_space;

verus! {

/// The mathematical image of a source type reference.
pub enum STy {
    /// An identifier with its generic arguments (none for a plain name).
    Named(Seq<char>, Seq<STy>),
    /// A tuple of types; empty for the unit type.
    Tuple(Seq<STy>),
}

/// A source type reference: an identifier with optional generic arguments,
/// or a tuple.
pub enum SrcType {
    Named(String, Vec<SrcType>),
    Tuple(Vec<SrcType>),
}

/// The image of one type reference.
pub open spec fn stype_view(t: SrcType) -> STy
    decreases t,
{
    match t {
        SrcType::Named(n, args) => STy::Named(n@, stype_views(args@)),
        SrcType::Tuple(ts) => STy::Tuple(stype_views(ts@)),
    }
}

/// The images of a list of type references, in order.
pub open spec fn stype_views(s: Seq<SrcType>) -> Seq<STy>
    decreases s,
{
    if s.len() == 0 {
        Seq::empty()
    } else {
        stype_views(s.subrange(0, s.len() - 1)).push(stype_view(s[s.len() - 1]))
    }
}

/// The views of a type list agree elementwise with the list.
pub proof fn lemma_stype_views_len(s: Seq<SrcType>)
    ensures
        stype_views(s).len() == s.len(),
        forall|i: int| 0 <= i < s.len() ==> #[trigger] stype_views(s)[i] == stype_view(s[i]),
    decreases s.len(),
{
    if s.len() > 0 {
        lemma_stype_views_len(s.subrange(0, s.len() - 1));
    }
}

impl View for SrcType {
    type V = STy;

    open spec fn view(&self) -> STy {
        stype_view(*self)
    }
}

/// An identifier's first character: a letter or an underscore.
pub open spec fn is_ident_start(c: char) -> bool {
    ('a' <= c && c <= 'z') || ('A' <= c && c <= 'Z') || c == '_'
}

/// An identifier's later characters also admit digits.
pub open spec fn is_ident_char(c: char) -> bool {
    is_ident_start(c) || ('0' <= c && c <= '9')
}

/// The first index at or after `i` holding no whitespace.
pub open spec fn skip_ws(s: Seq<char>, i: int) -> int
    decreases s.len() - i,
{
    if i < s.len() && is_space(s[i]) {
        skip_ws(s, i + 1)
    } else {
        i
    }
}

/// The end of the identifier that starts at `i`.
pub open spec fn ident_end(s: Seq<char>, i: int) -> int
    decreases s.len() - i,
{
    if i < s.len() && is_ident_char(s[i]) {
        ident_end(s, i + 1)
    } else {
        i
    }
}

/// A possibly qualified name, read at position `i` (the caller has seen an
/// identifier start there): identifier segments joined by `::`, whitespace
/// allowed around the separators. On success the canonical name (segments
/// joined by `::` without spaces) and the position after the last segment
/// are returned.
pub open spec fn sp_path(s: Seq<char>, i: int, fuel: nat) -> Option<(Seq<char>, int)>
    decreases fuel,
{
    if fuel == 0 {
        None
    } else {
        if i < s.len() && is_ident_start(s[i]) {
            let k = ident_end(s, i);
            let seg = s.subrange(i, k);
            let m = skip_ws(s, k);
            if m + 1 < s.len() && s[m] == ':' && s[m + 1] == ':' {
                let j = skip_ws(s, m + 2);
                match sp_path(s, j, (fuel - 1) as nat) {
                    Some((rest, n)) => Some((seg + "::"@ + rest, n)),
                    None => None,
                }
            } else {
                Some((seg, k))
            }
        } else {
            None
        }
    }
}

/// One step of the grammar of type expressions, read at position `i`:
/// either `name`, `name < list >`, `( )`, or `( list )`, where a name is a
/// possibly qualified identifier path, with whitespace allowed between
/// tokens. On success the parsed type and the position after
/// it (trailing whitespace consumed) are returned. The `fuel` bounds the
/// recursion depth; every position is parsed exactly when the fuel exceeds
/// twice the remaining length (see the executable parser's contract).
pub open spec fn sp_type(s: Seq<char>, i: int, fuel: nat) -> Option<(STy, int)>
    decreases fuel,
{
    if fuel == 0 {
        None
    } else {
        let j = skip_ws(s, i);
        if j < s.len() && is_ident_start(s[j]) {
            match sp_path(s, j, fuel) {
                Some((name, k)) => {
                    let m = skip_ws(s, k);
                    if m < s.len() && s[m] == '<' {
                        match sp_list(s, m + 1, (fuel - 1) as nat) {
                            Some((args, n)) => {
                                let p = skip_ws(s, n);
                                if p < s.len() && s[p] == '>' {
                                    Some((STy::Named(name, args), skip_ws(s, p + 1)))
                                } else {
                                    None
                                }
                            },
                            None => None,
                        }
                    } else {
                        Some((STy::Named(name, Seq::empty()), m))
                    }
                },
                None => None,
            }
        } else if j < s.len() && s[j] == '(' {
            let m = skip_ws(s, j + 1);
            if m < s.len() && s[m] == ')' {
                Some((STy::Tuple(Seq::empty()), skip_ws(s, m + 1)))
            } else {
                match sp_list(s, j + 1, (fuel - 1) as nat) {
                    Some((ts, n)) => {
                        let p = skip_ws(s, n);
                        if p < s.len() && s[p] == ')' {
                            Some((STy::Tuple(ts), skip_ws(s, p + 1)))
                        } else {
                            None
                        }
                    },
                    None => None,
                }
            }
        } else {
            None
        }
    }
}

/// A comma-separated, nonempty list of type expressions.
pub open spec fn sp_list(s: Seq<char>, i: int, fuel: nat) -> Option<(Seq<STy>, int)>
    decreases fuel,
{
    if fuel == 0 {
        None
    } else {
        match sp_type(s, i, (fuel - 1) as nat) {
            Some((t, j)) => {
                if j < s.len() && s[j] == ',' {
                    match sp_list(s, j + 1, (fuel - 1) as nat) {
                        Some((ts, n)) => Some((seq![t] + ts, n)),
                        None => None,
                    }
                } else {
                    Some((seq![t], j))
                }
            },
            None => None,
        }
    }
}

/// The canonical parse of a whole string as one type expression.
pub open spec fn spec_parse_type(s: Seq<char>) -> Option<STy> {
    match sp_type(s, 0, (2 * s.len() + 2) as nat) {
        Some((t, j)) => if j == s.len() {
            Some(t)
        } else {
            None
        },
        None => None,
    }
}

/// The image of an executable parse result.
pub open spec fn stype_opt_view(r: Option<(SrcType, usize)>) -> Option<(STy, int)> {
    match r {
        Some((t, j)) => Some((stype_view(t), j as int)),
        None => None,
    }
}

/// The image of an executable list-parse result.
pub open spec fn stlist_opt_view(r: Option<(Vec<SrcType>, usize)>) -> Option<(Seq<STy>, int)> {
    match r {
        Some((v, j)) => Some((stype_views(v@), j as int)),
        None => None,
    }
}

/// Whether the character at `i` of `s` is `c`.
fn char_at_is(s: &str, i: usize, c: char) -> (r: bool)
    requires
        i < s@.len(),
    ensures
        r == (s@[i as int] == c),
{
    s.get_char(i) == c
}

/// First non-whitespace position at or after `i`.
fn skip_ws_at(s: &str, i: usize) -> (r: usize)
    requires
        i <= s@.len(),
    ensures
        r == skip_ws(s@, i as int),
        i <= r <= s@.len(),
{
    let len = s.unicode_len();
    let mut cur = i;
    while cur < len && space_at_types(s, cur)
        invariant
            i <= cur <= s@.len(),
            len == s@.len(),
            skip_ws(s@, cur as int) == skip_ws(s@, i as int),
        decreases len - cur,
    {
        cur = cur + 1;
    }
    cur
}

/// Whether the character at `i` of `s` is whitespace.
fn space_at_types(s: &str, i: usize) -> (r: bool)
    requires
        i < s@.len(),
    ensures
        r == is_space(s@[i as int]),
{
    let c = s.get_char(i);
    c == ' ' || c == '\t' || c == '\n' || c == '\r'
}

/// End of the identifier starting at `i`.
fn ident_end_at(s: &str, i: usize) -> (r: usize)
    requires
        i <= s@.len(),
    ensures
        r == ident_end(s@, i as int),
        i <= r <= s@.len(),
{
    let len = s.unicode_len();
    let mut cur = i;
    while cur < len && ident_char_at(s, cur)
        invariant
            i <= cur <= s@.len(),
            len == s@.len(),
            ident_end(s@, cur as int) == ident_end(s@, i as int),
        decreases len - cur,
    {
        cur = cur + 1;
    }
    cur
}

/// Whether the character at `i` of `s` may continue an identifier.
fn ident_char_at(s: &str, i: usize) -> (r: bool)
    requires
        i < s@.len(),
    ensures
        r == is_ident_char(s@[i as int]),
{
    let c = s.get_char(i);
    ('a' <= c && c <= 'z') || ('A' <= c && c <= 'Z') || c == '_' || ('0' <= c && c <= '9')
}

/// Whether the character at `i` of `s` may start an identifier.
fn ident_start_at(s: &str, i: usize) -> (r: bool)
    requires
        i < s@.len(),
    ensures
        r == is_ident_start(s@[i as int]),
{
    let c = s.get_char(i);
    ('a' <= c && c <= 'z') || ('A' <= c && c <= 'Z') || c == '_'
}

/// The image of an executable path-parse result.
pub open spec fn path_opt_view(r: Option<(String, usize)>) -> Option<(Seq<char>, int)> {
    match r {
        Some((n, k)) => Some((n@, k as int)),
        None => None,
    }
}

/// Parses a possibly qualified name at position `i`, mirroring [`sp_path`].
fn parse_path_at(s: &str, i: usize, Ghost(fuel): Ghost<nat>) -> (r: Option<(String, usize)>)
    requires
        i <= s@.len(),
        fuel >= 2 * (s@.len() - i) + 1,
    ensures
        path_opt_view(r) == sp_path(s@, i as int, fuel),
        r matches Some((n, k)) ==> i <= k <= s@.len(),
    decreases fuel, 0nat,
{
    let len = s.unicode_len();
    if i < len && ident_start_at(s, i) {
        let k = ident_end_at(s, i);
        let seg = s.substring_char(i, k).to_owned();
        let m = skip_ws_at(s, k);
        if m < len && m + 1 < len && char_at_is(s, m, ':') && char_at_is(s, m + 1, ':') {
            let j = skip_ws_at(s, m + 2);
            match parse_path_at(s, j, Ghost((fuel - 1) as nat)) {
                Some((rest, n)) => {
                    let mut out = seg;
                    out.append("::");
                    out.append(rest.as_str());
                    Some((out, n))
                },
                None => None,
            }
        } else {
            Some((seg, k))
        }
    } else {
        None
    }
}

/// Parses one type expression at position `i`, mirroring [`sp_type`].
fn parse_type_at(s: &str, i: usize, Ghost(fuel): Ghost<nat>) -> (r: Option<(SrcType, usize)>)
    requires
        i <= s@.len(),
        fuel >= 2 * (s@.len() - i) + 1,
    ensures
        stype_opt_view(r) == sp_type(s@, i as int, fuel),
        r matches Some((t, j)) ==> i <= j <= s@.len(),
    decreases fuel, 1nat,
{
    let len = s.unicode_len();
    let j = skip_ws_at(s, i);
    if j < len && ident_start_at(s, j) {
        match parse_path_at(s, j, Ghost(fuel)) {
            Some((name, k)) => {
                let m = skip_ws_at(s, k);
                if m < len && char_at_is(s, m, '<') {
                    match parse_list_at(s, m + 1, Ghost((fuel - 1) as nat)) {
                        Some((args, n)) => {
                            let p = skip_ws_at(s, n);
                            if p < len && char_at_is(s, p, '>') {
                                let e = skip_ws_at(s, p + 1);
                                Some((SrcType::Named(name, args), e))
                            } else {
                                None
                            }
                        },
                        None => None,
                    }
                } else {
                    let out = SrcType::Named(name, Vec::new());
                    proof {
                        assert(stype_views(Seq::<SrcType>::empty()) =~= Seq::<STy>::empty());
                    }
                    Some((out, m))
                }
            },
            None => None,
        }
    } else if j < len && char_at_is(s, j, '(') {
        let m = skip_ws_at(s, j + 1);
        if m < len && char_at_is(s, m, ')') {
            let e = skip_ws_at(s, m + 1);
            let out = SrcType::Tuple(Vec::new());
            proof {
                assert(stype_views(Seq::<SrcType>::empty()) =~= Seq::<STy>::empty());
            }
            Some((out, e))
        } else {
            match parse_list_at(s, j + 1, Ghost((fuel - 1) as nat)) {
                Some((ts, n)) => {
                    let p = skip_ws_at(s, n);
                    if p < len && char_at_is(s, p, ')') {
                        let e = skip_ws_at(s, p + 1);
                        Some((SrcType::Tuple(ts), e))
                    } else {
                        None
                    }
                },
                None => None,
            }
        }
    } else {
        None
    }
}

/// Parses a comma-separated list of type expressions at position `i`,
/// mirroring [`sp_list`].
fn parse_list_at(s: &str, i: usize, Ghost(fuel): Ghost<nat>) -> (r: Option<(Vec<SrcType>, usize)>)
    requires
        i <= s@.len(),
        fuel >= 2 * (s@.len() - i) + 2,
    ensures
        stlist_opt_view(r) == sp_list(s@, i as int, fuel),
        r matches Some((v, j)) ==> i <= j <= s@.len(),
    decreases fuel, 2nat,
{
    let len = s.unicode_len();
    match parse_type_at(s, i, Ghost((fuel - 1) as nat)) {
        Some((t, j)) => {
            if j < len && char_at_is(s, j, ',') {
                match parse_list_at(s, j + 1, Ghost((fuel - 1) as nat)) {
                    Some((mut ts, n)) => {
                        let ghost rest = ts@;
                        ts.insert(0, t);
                        proof {
                            assert(ts@[0] == t);
                            assert(ts@.subrange(1, ts@.len() as int) =~= rest);
                            lemma_stype_views_prepend(ts@);
                        }
                        Some((ts, n))
                    },
                    None => None,
                }
            } else {
                let mut one: Vec<SrcType> = Vec::new();
                one.push(t);
                proof {
                    assert(one@.subrange(0, 0) =~= Seq::<SrcType>::empty());
                    assert(stype_views(Seq::<SrcType>::empty()) =~= Seq::<STy>::empty());
                    assert(one@[0] == t);
                    assert(stype_views(one@) =~= seq![stype_view(t)]);
                }
                Some((one, j))
            }
        },
        None => None,
    }
}

proof fn lemma_stype_views_prepend(s: Seq<SrcType>)
    requires
        s.len() >= 1,
    ensures
        stype_views(s) == seq![stype_view(s[0])] + stype_views(s.subrange(1, s.len() as int)),
    decreases s.len(),
{
    if s.len() == 1 {
        assert(s.subrange(0, 0) =~= Seq::<SrcType>::empty());
        assert(s.subrange(1, 1) =~= Seq::<SrcType>::empty());
        assert(stype_views(s) =~= seq![stype_view(s[0])] + stype_views(s.subrange(1, 1)));
    } else {
        let front = s.subrange(0, s.len() - 1);
        lemma_stype_views_prepend(front);
        let tail = s.subrange(1, s.len() as int);
        assert(front.subrange(1, front.len() as int) =~= tail.subrange(0, tail.len() - 1));
        assert(front[0] == s[0]);
        assert(tail[tail.len() - 1] == s[s.len() - 1]);
        assert(stype_views(s) =~= seq![stype_view(s[0])] + stype_views(tail));
    }
}

/// Parses a whole string as one source type expression, per the grammar of
/// [`sp_type`]: the result is the canonical parse, `None` exactly where the
/// grammar rejects the string.
pub fn parse_src_type(s: &str) -> (r: Option<SrcType>)
    ensures
        r matches Some(t) ==> Some(t@) == spec_parse_type(s@),
        r is None ==> spec_parse_type(s@) is None,
{
    let len = s.unicode_len();
    match parse_type_at(s, 0, Ghost((2 * s@.len() + 2) as nat)) {
        Some((t, j)) => {
            if j == len {
                Some(t)
            } else {
                None
            }
        },
        None => None,
    }
}

/// A character that may open target-language type text: an identifier
/// character, a grouping opener, or a quote.
pub open spec fn is_target_start(c: char) -> bool {
    is_ident_start(c) || c == '(' || c == '[' || c == '{' || c == '"' || c == '\''
}

/// A character admitted anywhere in target-language type text.
pub open spec fn is_target_char(c: char) -> bool {
    is_ident_char(c) || is_space(c) || c == '<' || c == '>' || c == '[' || c == ']' || c == '('
        || c == ')' || c == '{' || c == '}' || c == ',' || c == ':' || c == ';' || c == '|'
        || c == '.' || c == '"' || c == '\'' || c == '-' || c == '&' || c == '?'
}

/// Whether the occurrences of `o` and `c` from position `i` on, starting at
/// nesting `depth`, close properly and end balanced.
pub open spec fn balanced_from(s: Seq<char>, i: int, o: char, c: char, depth: int) -> bool
    decreases s.len() - i,
{
    if !(0 <= i < s.len()) {
        depth == 0
    } else if s[i] == o {
        balanced_from(s, i + 1, o, c, depth + 1)
    } else if s[i] == c {
        depth > 0 && balanced_from(s, i + 1, o, c, depth - 1)
    } else {
        balanced_from(s, i + 1, o, c, depth)
    }
}

/// The well-formedness screen for target-language type text supplied
/// through an override directive — not a full parse of the target
/// language's type grammar: nonempty apart from whitespace, beginning like
/// a type (an identifier character, a grouping opener or a quote), drawn
/// from the admitted character set, with angle brackets, square brackets,
/// parentheses and braces each balanced. Some text passing the screen is
/// no type; everything failing it is surely none.
pub open spec fn target_type_wf(s: Seq<char>) -> bool {
    let j = skip_ws(s, 0);
    &&& j < s.len()
    &&& is_target_start(s[j])
    &&& forall|i: int| 0 <= i < s.len() ==> is_target_char(#[trigger] s[i])
    &&& balanced_from(s, 0, '<', '>', 0)
    &&& balanced_from(s, 0, '[', ']', 0)
    &&& balanced_from(s, 0, '(', ')', 0)
    &&& balanced_from(s, 0, '{', '}', 0)
}

/// Whether `c` is admitted anywhere in target type text.
fn target_char(c: char) -> (r: bool)
    ensures
        r == is_target_char(c),
{
    ('a' <= c && c <= 'z') || ('A' <= c && c <= 'Z') || c == '_' || ('0' <= c && c <= '9')
        || c == ' ' || c == '\t' || c == '\n' || c == '\r' || c == '<' || c == '>' || c == '['
        || c == ']' || c == '(' || c == ')' || c == '{' || c == '}' || c == ',' || c == ':'
        || c == ';' || c == '|' || c == '.' || c == '"' || c == '\'' || c == '-' || c == '&'
        || c == '?'
}

/// Checks a target-language type override against [`target_type_wf`].
pub fn check_target_type(s: &str) -> (r: bool)
    ensures
        r == target_type_wf(s@),
{
    let len = s.unicode_len();
    let j = skip_ws_at(s, 0);
    if j >= len {
        return false;
    }
    let c0 = s.get_char(j);
    let start_ok = ('a' <= c0 && c0 <= 'z') || ('A' <= c0 && c0 <= 'Z') || c0 == '_' || c0 == '('
        || c0 == '[' || c0 == '{' || c0 == '"' || c0 == '\'';
    if !start_ok {
        return false;
    }
    let mut i: usize = 0;
    let mut d_angle: usize = 0;
    let mut d_square: usize = 0;
    let mut d_paren: usize = 0;
    let mut d_brace: usize = 0;
    while i < len
        invariant
            i <= len,
            len == s@.len(),
            d_angle <= i,
            d_square <= i,
            d_paren <= i,
            d_brace <= i,
            forall|k: int| 0 <= k < i ==> is_target_char(#[trigger] s@[k]),
            balanced_from(s@, 0, '<', '>', 0) == balanced_from(
                s@, i as int, '<', '>', d_angle as int,
            ),
            balanced_from(s@, 0, '[', ']', 0) == balanced_from(
                s@, i as int, '[', ']', d_square as int,
            ),
            balanced_from(s@, 0, '(', ')', 0) == balanced_from(
                s@, i as int, '(', ')', d_paren as int,
            ),
            balanced_from(s@, 0, '{', '}', 0) == balanced_from(
                s@, i as int, '{', '}', d_brace as int,
            ),
        decreases len - i,
    {
        let c = s.get_char(i);
        if !target_char(c) {
            return false;
        }
        if c == '<' {
            d_angle = d_angle + 1;
        } else if c == '>' {
            if d_angle == 0 {
                return false;
            }
            d_angle = d_angle - 1;
        } else if c == '[' {
            d_square = d_square + 1;
        } else if c == ']' {
            if d_square == 0 {
                return false;
            }
            d_square = d_square - 1;
        } else if c == '(' {
            d_paren = d_paren + 1;
        } else if c == ')' {
            if d_paren == 0 {
                return false;
            }
            d_paren = d_paren - 1;
        } else if c == '{' {
            d_brace = d_brace + 1;
        } else if c == '}' {
            if d_brace == 0 {
                return false;
            }
            d_brace = d_brace - 1;
        }
        i = i + 1;
    }
    d_angle == 0 && d_square == 0 && d_paren == 0 && d_brace == 0
}

} // verus!
