//! What `${NAME}` substitution does to a whole text: under the premise that
//! every `$` of the text starts a reference and no value holds a `$`, each
//! reference is replaced by its variable's value where the variable is set,
//! and all other text is kept.

use vstd::prelude::*;

use crate::config::{
    env_lookup, env_var_references, is_name, is_name_char, is_name_start, name_run,
    reference_at, reference_to, references_from, substituted,
};
use crate::text::{lemma_replace_after_free_prefix, lemma_replace_first_occurrence, replace_all};

verus! {

/// `s` from index `i` on, with every reference `${NAME}` replaced by the value
/// of `NAME` where it is set in `env`, and all other text kept.
pub open spec fn expansion_from(s: Seq<char>, i: int, env: Seq<(Seq<char>, Seq<char>)>) -> Seq<
    char,
>
    decreases s.len() - i,
{
    if i < 0 || i >= s.len() {
        Seq::empty()
    } else {
        match reference_at(s, i) {
            Some(n) => {
                let name = s.subrange(i + 2, i + 2 + n);
                (match env_lookup(env, name) {
                    Some(v) => v,
                    None => s.subrange(i, i + 3 + n),
                }) + expansion_from(s, i + 3 + n, env)
            },
            None => seq![s[i]] + expansion_from(s, i + 1, env),
        }
    }
}

/// Every `$` of `s` starts a reference `${NAME}`.
pub open spec fn dollars_start_references(s: Seq<char>) -> bool {
    forall|j: int| 0 <= j < s.len() && #[trigger] s[j] == '$' ==> reference_at(s, j) is Some
}

/// No value of a variable set in `env` holds a `$`.
pub open spec fn values_free_of_dollar(env: Seq<(Seq<char>, Seq<char>)>) -> bool {
    forall|name: Seq<char>| #[trigger]
        env_lookup(env, name) matches Some(v) ==> !v.contains('$')
}

/// `s` from index `i` on, with the references to the set variables of `done`
/// replaced by their values.
spec fn partially_expanded(
    s: Seq<char>,
    i: int,
    env: Seq<(Seq<char>, Seq<char>)>,
    done: Set<Seq<char>>,
) -> Seq<char>
    decreases s.len() - i,
{
    if i < 0 || i >= s.len() {
        Seq::empty()
    } else {
        match reference_at(s, i) {
            Some(n) => {
                let name = s.subrange(i + 2, i + 2 + n);
                (if done.contains(name) && env_lookup(env, name) is Some {
                    env_lookup(env, name)->0
                } else {
                    s.subrange(i, i + 3 + n)
                }) + partially_expanded(s, i + 3 + n, env, done)
            },
            None => seq![s[i]] + partially_expanded(s, i + 1, env, done),
        }
    }
}

/// The names of a list of references.
spec fn names_of(refs: Seq<(Seq<char>, Seq<char>)>) -> Set<Seq<char>> {
    Set::new(|name: Seq<char>| exists|k: int| 0 <= k < refs.len() && #[trigger] refs[k].1 == name)
}

proof fn lemma_name_run_chars(s: Seq<char>, j: int)
    requires
        0 <= j,
    ensures
        j + name_run(s, j) <= s.len() || name_run(s, j) == 0,
        forall|k: int| j <= k < j + name_run(s, j) ==> #[trigger] is_name_char(s[k]),
        j + name_run(s, j) < s.len() ==> !is_name_char(s[j + name_run(s, j)]),
    decreases s.len() - j,
{
    if j < s.len() && is_name_char(s[j]) {
        lemma_name_run_chars(s, j + 1);
    }
}

/// The reference found at `i` is `${NAME}` for a name `NAME`.
proof fn lemma_reference_shape(s: Seq<char>, i: int)
    requires
        reference_at(s, i) is Some,
    ensures
        ({
            let n = reference_at(s, i)->0 as int;
            &&& i + 3 + n <= s.len()
            &&& is_name(s.subrange(i + 2, i + 2 + n))
            &&& s.subrange(i, i + 3 + n) == reference_to(s.subrange(i + 2, i + 2 + n))
        }),
{
    let n = reference_at(s, i)->0 as int;
    lemma_name_run_chars(s, i + 2);
    let name = s.subrange(i + 2, i + 2 + n);
    assert(is_name_char(s[i + 2]));
    assert forall|k: int| 0 <= k < name.len() implies #[trigger] is_name_char(name[k]) by {
        assert(name[k] == s[i + 2 + k]);
    }
    assert(s.subrange(i, i + 3 + n) =~= reference_to(name));
}

/// Each found reference is `${NAME}` for a name `NAME`.
proof fn lemma_references_shape(s: Seq<char>, i: int)
    ensures
        forall|k: int|
            0 <= k < references_from(s, i).len() ==> #[trigger] is_name(references_from(s, i)[k].1)
                && references_from(s, i)[k].0 == reference_to(references_from(s, i)[k].1),
    decreases s.len() - i,
{
    if 0 <= i < s.len() {
        match reference_at(s, i) {
            Some(n) => {
                lemma_reference_shape(s, i);
                lemma_references_shape(s, i + 3 + n);
                let refs = references_from(s, i);
                assert forall|k: int| 0 <= k < refs.len() implies #[trigger] is_name(refs[k].1)
                    && refs[k].0 == reference_to(refs[k].1) by {
                    if k > 0 {
                        assert(refs[k] == references_from(s, i + 3 + n)[k - 1]);
                    } else {
                        assert(refs[0] == (
                            s.subrange(i, i + 3 + n),
                            s.subrange(i + 2, i + 2 + n),
                        ));
                    }
                }
            },
            None => {
                lemma_references_shape(s, i + 1);
                assert(references_from(s, i) == references_from(s, i + 1));
            },
        }
    }
}

/// A name holds no `$`, `{` or `}`.
proof fn lemma_name_chars(c: char)
    requires
        is_name_char(c),
    ensures
        c != '$' && c != '{' && c != '}',
{
}

/// The reference to `m` does not start with the reference to another name `n`.
proof fn lemma_other_reference(m: Seq<char>, n: Seq<char>, rest: Seq<char>, v: Seq<char>)
    requires
        is_name(m),
        is_name(n),
        m != n,
    ensures
        replace_all(reference_to(m) + rest, reference_to(n), v) == reference_to(m) + replace_all(
            rest,
            reference_to(n),
            v,
        ),
{
    let rm = reference_to(m);
    let rn = reference_to(n);
    let s = rm + rest;
    if s.len() >= rn.len() {
        if s.subrange(0, rn.len() as int) == rn {
            let sub = s.subrange(0, rn.len() as int);
            if n.len() < m.len() {
                assert(sub[n.len() as int + 2] == rn[n.len() as int + 2]);
                assert(s[n.len() as int + 2] == m[n.len() as int]);
                assert(is_name_char(m[n.len() as int]));
            } else if n.len() > m.len() {
                assert(sub[m.len() as int + 2] == rn[m.len() as int + 2]);
                assert(s[m.len() as int + 2] == '}');
                assert(is_name_char(n[m.len() as int]));
            } else {
                assert(m =~= n) by {
                    assert forall|k: int| 0 <= k < m.len() implies m[k] == n[k] by {
                        assert(sub[k + 2] == rn[k + 2]);
                        assert(s[k + 2] == m[k]);
                    }
                }
            }
        }
        assert(s.drop_first() =~= rm.drop_first() + rest);
        assert forall|k: int| 0 <= k < rm.drop_first().len() implies #[trigger] rm.drop_first()[k]
            != rn[0] by {
            if 1 <= k < 1 + m.len() {
                assert(rm.drop_first()[k] == m[k - 1]);
                assert(is_name_char(m[k - 1]));
            }
        }
        lemma_replace_after_free_prefix(rm.drop_first(), rest, rn, v);
        assert(seq![s[0]] + (rm.drop_first() + replace_all(rest, rn, v)) =~= rm + replace_all(
            rest,
            rn,
            v,
        ));
    } else {
        assert(rest.len() < rn.len());
        assert(rm + rest =~= s);
    }
}

/// Replacing the reference to a set variable in a partly expanded text expands
/// that variable too.
proof fn lemma_replace_expands(
    s: Seq<char>,
    i: int,
    env: Seq<(Seq<char>, Seq<char>)>,
    done: Set<Seq<char>>,
    name: Seq<char>,
    v: Seq<char>,
)
    requires
        0 <= i,
        dollars_start_references(s),
        values_free_of_dollar(env),
        is_name(name),
        env_lookup(env, name) == Some(v),
    ensures
        replace_all(partially_expanded(s, i, env, done), reference_to(name), v)
            == partially_expanded(s, i, env, done.insert(name)),
    decreases s.len() - i,
{
    let p = reference_to(name);
    let done2 = done.insert(name);
    if i >= s.len() {
    } else {
        match reference_at(s, i) {
            Some(n) => {
                lemma_reference_shape(s, i);
                let m = s.subrange(i + 2, i + 2 + n as int);
                let rest = partially_expanded(s, i + 3 + n, env, done);
                lemma_replace_expands(s, i + 3 + n, env, done, name, v);
                if done.contains(m) && env_lookup(env, m) is Some {
                    let vm = env_lookup(env, m)->0;
                    assert(!vm.contains('$'));
                    assert forall|k: int| 0 <= k < vm.len() implies #[trigger] vm[k] != p[0] by {
                        if vm[k] == '$' {
                            assert(vm.contains('$'));
                        }
                    }
                    lemma_replace_after_free_prefix(vm, rest, p, v);
                } else if m == name {
                    assert forall|k: int| 0 < k < p.len() implies #[trigger] p[k] != p[0] by {
                        if 2 <= k < 2 + name.len() {
                            assert(p[k] == name[k - 2]);
                            lemma_name_chars(name[k - 2]);
                        }
                    }
                    assert(!crate::text::contains_text(Seq::<char>::empty(), p)) by {
                        assert forall|j: int| !crate::text::occurs_at(Seq::<char>::empty(), p, j) by {}
                    }
                    lemma_replace_first_occurrence(Seq::<char>::empty(), p, rest, v);
                    assert(Seq::<char>::empty() + p =~= p);
                    assert(Seq::<char>::empty() + v =~= v);
                } else {
                    lemma_other_reference(m, name, rest, v);
                }
            },
            None => {
                assert(s[i] != '$');
                let rest = partially_expanded(s, i + 1, env, done);
                lemma_replace_expands(s, i + 1, env, done, name, v);
                lemma_replace_after_free_prefix(seq![s[i]], rest, p, v);
            },
        }
    }
}

/// Adding an unset variable to `done` changes nothing.
proof fn lemma_unset_changes_nothing(
    s: Seq<char>,
    i: int,
    env: Seq<(Seq<char>, Seq<char>)>,
    done: Set<Seq<char>>,
    name: Seq<char>,
)
    requires
        env_lookup(env, name) is None,
    ensures
        partially_expanded(s, i, env, done.insert(name)) == partially_expanded(s, i, env, done),
    decreases s.len() - i,
{
    if 0 <= i < s.len() {
        match reference_at(s, i) {
            Some(n) => lemma_unset_changes_nothing(s, i + 3 + n, env, done, name),
            None => lemma_unset_changes_nothing(s, i + 1, env, done, name),
        }
    }
}

/// With nothing done, the text is kept.
proof fn lemma_nothing_done(s: Seq<char>, i: int, env: Seq<(Seq<char>, Seq<char>)>)
    requires
        0 <= i <= s.len(),
    ensures
        partially_expanded(s, i, env, Set::empty()) == s.skip(i),
    decreases s.len() - i,
{
    if i < s.len() {
        match reference_at(s, i) {
            Some(n) => {
                lemma_reference_shape(s, i);
                lemma_nothing_done(s, i + 3 + n, env);
                assert(s.subrange(i, i + 3 + n) + s.skip(i + 3 + n) =~= s.skip(i));
            },
            None => {
                lemma_nothing_done(s, i + 1, env);
                assert(seq![s[i]] + s.skip(i + 1) =~= s.skip(i));
            },
        }
    } else {
        assert(s.skip(i) =~= Seq::<char>::empty());
    }
}

/// With every referenced name done, the partial expansion is the expansion.
proof fn lemma_all_done(
    s: Seq<char>,
    i: int,
    env: Seq<(Seq<char>, Seq<char>)>,
    done: Set<Seq<char>>,
)
    requires
        forall|k: int|
            0 <= k < references_from(s, i).len() ==> done.contains(
                #[trigger] references_from(s, i)[k].1,
            ),
    ensures
        partially_expanded(s, i, env, done) == expansion_from(s, i, env),
    decreases s.len() - i,
{
    if 0 <= i < s.len() {
        match reference_at(s, i) {
            Some(n) => {
                let refs = references_from(s, i);
                assert(done.contains(refs[0].1));
                assert forall|k: int|
                    0 <= k < references_from(s, i + 3 + n).len() implies done.contains(
                    #[trigger] references_from(s, i + 3 + n)[k].1,
                ) by {
                    assert(references_from(s, i + 3 + n)[k] == refs[k + 1]);
                }
                lemma_all_done(s, i + 3 + n, env, done);
            },
            None => {
                assert(references_from(s, i) == references_from(s, i + 1));
                lemma_all_done(s, i + 1, env, done);
            },
        }
    }
}

/// Substituting the references of `refs` in turn into a partial expansion
/// expands their names too.
proof fn lemma_substituted_expands(
    s: Seq<char>,
    env: Seq<(Seq<char>, Seq<char>)>,
    refs: Seq<(Seq<char>, Seq<char>)>,
    done: Set<Seq<char>>,
)
    requires
        dollars_start_references(s),
        values_free_of_dollar(env),
        forall|k: int|
            0 <= k < refs.len() ==> #[trigger] is_name(refs[k].1) && refs[k].0 == reference_to(
                refs[k].1,
            ),
    ensures
        substituted(partially_expanded(s, 0, env, done), refs, env) == partially_expanded(
            s,
            0,
            env,
            done + names_of(refs),
        ),
    decreases refs.len(),
{
    if refs.len() == 0 {
        assert(done + names_of(refs) =~= done);
    } else {
        let name = refs[0].1;
        let t = partially_expanded(s, 0, env, done);
        assert(is_name(refs[0].1));
        match env_lookup(env, name) {
            Some(v) => lemma_replace_expands(s, 0, env, done, name, v),
            None => lemma_unset_changes_nothing(s, 0, env, done, name),
        }
        let rest = refs.drop_first();
        assert forall|k: int| 0 <= k < rest.len() implies #[trigger] is_name(rest[k].1)
            && rest[k].0 == reference_to(rest[k].1) by {
            assert(rest[k] == refs[k + 1]);
            assert(is_name(refs[k + 1].1));
        }
        lemma_substituted_expands(s, env, rest, done.insert(name));
        assert(done.insert(name) + names_of(rest) =~= done + names_of(refs)) by {
            assert forall|x: Seq<char>| names_of(rest).contains(x) implies names_of(
                refs,
            ).contains(x) by {
                let k = choose|k: int| 0 <= k < rest.len() && #[trigger] rest[k].1 == x;
                assert(refs[k + 1].1 == x);
            }
            assert forall|x: Seq<char>| names_of(refs).contains(x) && x != name implies names_of(
                rest,
            ).contains(x) by {
                let k = choose|k: int| 0 <= k < refs.len() && #[trigger] refs[k].1 == x;
                assert(k != 0);
                assert(rest[k - 1].1 == x);
            }
            assert(names_of(refs).contains(name)) by {
                assert(refs[0].1 == name);
            }
        }
    }
}

/// Where every `$` of the text starts a reference `${NAME}` and no value of a
/// set variable holds a `$`, substitution replaces each reference by the value
/// of its variable where it is set, and keeps all other text, including the
/// references to variables that are not set.
pub proof fn law_references_are_substituted(s: Seq<char>, env: Seq<(Seq<char>, Seq<char>)>)
    requires
        dollars_start_references(s),
        values_free_of_dollar(env),
    ensures
        substituted(s, env_var_references(s), env) == expansion_from(s, 0, env),
{
    let refs = env_var_references(s);
    lemma_nothing_done(s, 0, env);
    assert(s.skip(0) =~= s);
    lemma_references_shape(s, 0);
    lemma_substituted_expands(s, env, refs, Set::empty());
    let done = Set::<Seq<char>>::empty() + names_of(refs);
    assert forall|k: int| 0 <= k < references_from(s, 0).len() implies done.contains(
        #[trigger] references_from(s, 0)[k].1,
    ) by {
        assert(names_of(refs).contains(refs[k].1));
    }
    lemma_all_done(s, 0, env, done);
}

} // verus!
