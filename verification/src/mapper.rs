//! The type mapper: resolves a source type reference into target-language
//! type text, mapping primitives to the target's numeric, string and boolean
//! types, the optional wrapper to a nullable union, sequences to array
//! syntax and maps to keyed-record syntax, substituting generic parameters
//! by name, and emitting a plain named reference for user-defined types
//! while recording their names for the declaration registry.

use vstd::prelude::*;

use crate::types::{SrcType, STy};

verus! {

/// Whether `n` names one of the source language's integer types (or the
/// abstract numeric type).
pub open spec fn is_numeric_name(n: Seq<char>) -> bool {
    ||| n == "i8"@
    ||| n == "i16"@
    ||| n == "i32"@
    ||| n == "i64"@
    ||| n == "i128"@
    ||| n == "u8"@
    ||| n == "u16"@
    ||| n == "u32"@
    ||| n == "u64"@
    ||| n == "u128"@
    ||| n == "usize"@
    ||| n == "isize"@
    ||| n == "int"@
}

/// Whether `n` names a textual type.
pub open spec fn is_string_name(n: Seq<char>) -> bool {
    n == "String"@ || n == "str"@ || n == "char"@ || n == "string"@
}

/// Whether some name of `env` reads `n`.
pub open spec fn env_has(env: Seq<String>, n: Seq<char>) -> bool {
    exists|i: int| 0 <= i < env.len() && env[i]@ == n
}

/// The target type text of one source type reference, under the enclosing
/// type's generic parameters `env`. Priority: primitives, the optional
/// wrapper, sequences, maps, generic parameters, then user-defined types by
/// name with their mapped arguments.
pub open spec fn map_text(t: STy, env: Seq<String>) -> Seq<char>
    decreases t,
{
    match t {
        STy::Named(n, args) => {
            if is_numeric_name(n) && args.len() == 0 {
                "number"@
            } else if is_string_name(n) && args.len() == 0 {
                "string"@
            } else if n == "bool"@ && args.len() == 0 {
                "boolean"@
            } else if n == "Option"@ && args.len() == 1 {
                "("@ + map_text(args[0], env) + " | null)"@
            } else if (n == "Vec"@ || n == "VecDeque"@) && args.len() == 1 {
                map_text(args[0], env) + "[]"@
            } else if (n == "HashMap"@ || n == "BTreeMap"@) && args.len() == 2 {
                "{ [key: "@ + map_text(args[0], env) + "]: "@ + map_text(args[1], env) + " }"@
            } else if env_has(env, n) && args.len() == 0 {
                n
            } else if args.len() == 0 {
                n
            } else {
                n + "<"@ + join_texts(args, env) + ">"@
            }
        },
        STy::Tuple(ts) => {
            if ts.len() == 0 {
                "null"@
            } else {
                "["@ + join_texts(ts, env) + "]"@
            }
        },
    }
}

/// The mapped texts of a type list, joined by `", "`.
pub open spec fn join_texts(ts: Seq<STy>, env: Seq<String>) -> Seq<char>
    decreases ts,
{
    if ts.len() == 0 {
        Seq::empty()
    } else if ts.len() == 1 {
        map_text(ts[0], env)
    } else {
        join_texts(ts.subrange(0, ts.len() - 1), env) + ", "@ + map_text(ts[ts.len() - 1], env)
    }
}

/// The user-defined type names referenced by `t`, in resolution order: names
/// that are neither primitives, container shapes, nor generic parameters.
pub open spec fn user_refs(t: STy, env: Seq<String>) -> Seq<Seq<char>>
    decreases t,
{
    match t {
        STy::Named(n, args) => {
            if (is_numeric_name(n) || is_string_name(n) || n == "bool"@) && args.len() == 0 {
                Seq::empty()
            } else if n == "Option"@ && args.len() == 1 {
                user_refs(args[0], env)
            } else if (n == "Vec"@ || n == "VecDeque"@) && args.len() == 1 {
                user_refs(args[0], env)
            } else if (n == "HashMap"@ || n == "BTreeMap"@) && args.len() == 2 {
                user_refs(args[0], env) + user_refs(args[1], env)
            } else if env_has(env, n) && args.len() == 0 {
                Seq::empty()
            } else {
                seq![n] + list_refs(args, env)
            }
        },
        STy::Tuple(ts) => list_refs(ts, env),
    }
}

/// The user-defined type names referenced by a type list, in order.
pub open spec fn list_refs(ts: Seq<STy>, env: Seq<String>) -> Seq<Seq<char>>
    decreases ts,
{
    if ts.len() == 0 {
        Seq::empty()
    } else {
        list_refs(ts.subrange(0, ts.len() - 1), env) + user_refs(ts[ts.len() - 1], env)
    }
}

/// Whether some name of `env` reads like `n`.
fn env_contains(env: &Vec<String>, n: &str) -> (r: bool)
    ensures
        r == env_has(env@, n@),
{
    let m = env.len();
    let mut i: usize = 0;
    while i < m
        invariant
            i <= m,
            m == env@.len(),
            forall|k: int| 0 <= k < i ==> env@[k]@ != n@,
        decreases m - i,
    {
        if crate::attrs::str_eq(env[i].as_str(), n) {
            return true;
        }
        i = i + 1;
    }
    false
}

/// Whether `n` is one of the names in the numeric set.
fn numeric_name(n: &str) -> (r: bool)
    ensures
        r == is_numeric_name(n@),
{
    crate::attrs::str_eq(n, "i8") || crate::attrs::str_eq(n, "i16") || crate::attrs::str_eq(
        n, "i32",
    ) || crate::attrs::str_eq(n, "i64") || crate::attrs::str_eq(n, "i128") || crate::attrs::str_eq(
        n, "u8",
    ) || crate::attrs::str_eq(n, "u16") || crate::attrs::str_eq(n, "u32") || crate::attrs::str_eq(
        n, "u64",
    ) || crate::attrs::str_eq(n, "u128") || crate::attrs::str_eq(n, "usize")
        || crate::attrs::str_eq(n, "isize") || crate::attrs::str_eq(n, "int")
}

/// Whether `n` is one of the textual type names.
fn string_name(n: &str) -> (r: bool)
    ensures
        r == is_string_name(n@),
{
    crate::attrs::str_eq(n, "String") || crate::attrs::str_eq(n, "str") || crate::attrs::str_eq(
        n, "char",
    ) || crate::attrs::str_eq(n, "string")
}

/// Resolves one source type reference to target type text under the generic
/// parameters `env`, per [`map_text`], appending the names of the
/// user-defined types it references to `refs` per [`user_refs`].
pub fn map_type(t: &SrcType, env: &Vec<String>, refs: &mut Vec<String>) -> (r: String)
    ensures
        r@ == map_text(t@, env@),
        final(refs)@.map_values(|s: String| s@) == old(refs)@.map_values(|s: String| s@)
            + user_refs(t@, env@),
    decreases *t,
{
    match t {
        SrcType::Named(n, args) => {
            proof {
                crate::types::lemma_stype_views_len(args@);
            }
            let no_args = args.len() == 0;
            if numeric_name(n.as_str()) && no_args {
                proof {
                    lemma_names_snoc_nil(refs@, old(refs)@);
                }
                "number".to_owned()
            } else if string_name(n.as_str()) && no_args {
                proof {
                    lemma_names_snoc_nil(refs@, old(refs)@);
                }
                "string".to_owned()
            } else if crate::attrs::str_eq(n.as_str(), "bool") && no_args {
                proof {
                    lemma_names_snoc_nil(refs@, old(refs)@);
                }
                "boolean".to_owned()
            } else if crate::attrs::str_eq(n.as_str(), "Option") && args.len() == 1 {
                let inner = map_type(&args[0], env, refs);
                proof {
                    crate::types::lemma_stype_views_len(args@);
                    assert(t@->Named_1[0] == args@[0]@);
                }
                let mut s = "(".to_owned();
                s.append(inner.as_str());
                s.append(" | null)");
                s
            } else if (crate::attrs::str_eq(n.as_str(), "Vec") || crate::attrs::str_eq(
                n.as_str(), "VecDeque",
            )) && args.len() == 1 {
                let mut s = map_type(&args[0], env, refs);
                proof {
                    crate::types::lemma_stype_views_len(args@);
                    assert(t@->Named_1[0] == args@[0]@);
                }
                s.append("[]");
                s
            } else if (crate::attrs::str_eq(n.as_str(), "HashMap") || crate::attrs::str_eq(
                n.as_str(), "BTreeMap",
            )) && args.len() == 2 {
                let kt = map_type(&args[0], env, refs);
                let vt = map_type(&args[1], env, refs);
                proof {
                    crate::types::lemma_stype_views_len(args@);
                    assert(t@->Named_1[0] == args@[0]@);
                    assert(t@->Named_1[1] == args@[1]@);
                }
                let mut s = "{ [key: ".to_owned();
                s.append(kt.as_str());
                s.append("]: ");
                s.append(vt.as_str());
                s.append(" }");
                s
            } else if env_contains(env, n.as_str()) && no_args {
                proof {
                    lemma_names_snoc_nil(refs@, old(refs)@);
                }
                n.clone()
            } else if no_args {
                refs.push(n.clone());
                proof {
                    assert(refs@.map_values(|s: String| s@) =~= old(refs)@.map_values(
                        |s: String| s@,
                    ) + seq![n@]);
                    assert(list_refs(t@->Named_1, env@) =~= Seq::<Seq<char>>::empty());
                    assert(seq![n@] + list_refs(t@->Named_1, env@) =~= seq![n@]);
                }
                n.clone()
            } else {
                refs.push(n.clone());
                proof {
                    assert(refs@.map_values(|s: String| s@) =~= old(refs)@.map_values(
                        |s: String| s@,
                    ) + seq![n@]);
                }
                let joined = join_list(args, env, refs);
                let mut s = n.clone();
                s.append("<");
                s.append(joined.as_str());
                s.append(">");
                proof {
                    assert(s@ =~= n@ + "<"@ + join_texts(t@->Named_1, env@) + ">"@);
                    assert(refs@.map_values(|q: String| q@) =~= old(refs)@.map_values(
                        |q: String| q@,
                    ) + (seq![n@] + list_refs(t@->Named_1, env@)));
                }
                s
            }
        },
        SrcType::Tuple(ts) => {
            proof {
                crate::types::lemma_stype_views_len(ts@);
            }
            if ts.len() == 0 {
                proof {
                    assert(list_refs(t@->Tuple_0, env@) =~= Seq::<Seq<char>>::empty());
                    lemma_names_snoc_nil(refs@, old(refs)@);
                }
                "null".to_owned()
            } else {
                let joined = join_list(ts, env, refs);
                let mut s = "[".to_owned();
                s.append(joined.as_str());
                s.append("]");
                proof {
                    assert(s@ =~= "["@ + join_texts(t@->Tuple_0, env@) + "]"@);
                }
                s
            }
        },
    }
}

/// The views of a list of source type references.
pub open spec fn stype_views_of(s: Seq<SrcType>) -> Seq<STy> {
    crate::types::stype_views(s)
}

proof fn lemma_names_snoc_nil(cur: Seq<String>, old_refs: Seq<String>)
    requires
        cur == old_refs,
    ensures
        cur.map_values(|s: String| s@) == old_refs.map_values(|s: String| s@) + Seq::<
            Seq<char>,
        >::empty(),
{
    assert(cur.map_values(|s: String| s@) =~= old_refs.map_values(|s: String| s@) + Seq::<
        Seq<char>,
    >::empty());
}

/// Maps every type of `ts` and joins the texts by `", "`, per
/// [`join_texts`], appending references per [`list_refs`].
fn join_list(ts: &Vec<SrcType>, env: &Vec<String>, refs: &mut Vec<String>) -> (r: String)
    requires
        ts@.len() >= 1,
    ensures
        r@ == join_texts(stype_views_of(ts@), env@),
        final(refs)@.map_values(|s: String| s@) == old(refs)@.map_values(|s: String| s@)
            + list_refs(stype_views_of(ts@), env@),
    decreases *ts,
{
    let ghost all = stype_views_of(ts@);
    proof {
        crate::types::lemma_stype_views_len(ts@);
    }
    let mut out = map_type(&ts[0], env, refs);
    proof {
        assert(all[0] == ts@[0]@);
        assert(all.subrange(0, 1) =~= seq![all[0]]);
        assert(join_texts(all.subrange(0, 1), env@) == map_text(all[0], env@));
        assert(all.subrange(0, 1).subrange(0, 0) =~= all.subrange(0, 0));
        assert(all.subrange(0, 1)[0] == all[0]);
        assert(list_refs(all.subrange(0, 1), env@) =~= list_refs(
            all.subrange(0, 0), env@,
        ) + user_refs(all[0], env@));
        assert(list_refs(all.subrange(0, 0), env@) =~= Seq::<Seq<char>>::empty());
        assert(refs@.map_values(|s: String| s@) =~= old(refs)@.map_values(|s: String| s@)
            + list_refs(all.subrange(0, 1), env@));
    }
    let n = ts.len();
    let mut i: usize = 1;
    while i < n
        invariant
            1 <= i <= n,
            n == ts@.len(),
            all == stype_views_of(ts@),
            all.len() == n,
            forall|k: int| 0 <= k < n ==> all[k] == ts@[k]@,
            out@ == join_texts(all.subrange(0, i as int), env@),
            refs@.map_values(|s: String| s@) == old(refs)@.map_values(|s: String| s@) + list_refs(
                all.subrange(0, i as int), env@,
            ),
        decreases n - i,
    {
        let part = map_type(&ts[i], env, refs);
        out.append(", ");
        out.append(part.as_str());
        proof {
            let next = all.subrange(0, i as int + 1);
            assert(next.subrange(0, next.len() - 1) =~= all.subrange(0, i as int));
            assert(next[next.len() - 1] == all[i as int]);
            assert(out@ =~= join_texts(next, env@));
            assert(refs@.map_values(|s: String| s@) =~= old(refs)@.map_values(|s: String| s@)
                + list_refs(next, env@));
        }
        i = i + 1;
    }
    proof {
        assert(all.subrange(0, n as int) =~= all);
    }
    out
}

} // verus!
