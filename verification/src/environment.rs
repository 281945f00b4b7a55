//! The environment of one user, and the interpolation of paths in it.
//!
//! A variable's value may begin with a reference to another variable,
//! written between two `%`. Expanding a value follows such references from
//! variable to variable. Where a variable refers back to itself, directly
//! or through others, that never ends: such variables are left out of the
//! environment in which a path is interpolated, so that a path which needs
//! one of them stays unresolved.

use crate::common::chars_of;
use vstd::prelude::*;

verus! {

/// The place of the first `%` of `value` at or after `from`; the length of
/// `value` where there is none.
pub open spec fn next_percent(value: Seq<char>, from: int) -> int
    decreases value.len() - from,
{
    if from >= value.len() {
        value.len() as int
    } else if value[from] == '%' {
        from
    } else {
        next_percent(value, from + 1)
    }
}

/// The variable that `value` begins by referring to: the characters between
/// a `%` at its start and the next `%`. `None` where `value` does not begin
/// with `%`, or holds no second one.
pub open spec fn leading_reference(value: Seq<char>) -> Option<Seq<char>> {
    if value.len() > 0 && value[0] == '%' && next_percent(value, 1) < value.len() {
        Some(value.subrange(1, next_percent(value, 1)))
    } else {
        None
    }
}

/// Whether following the leading references from `value` ends after at most
/// `steps` variables: at a value without a leading reference, or at a
/// reference to a variable that `env` does not hold.
pub open spec fn expands_within(
    env: Map<Seq<char>, Seq<char>>,
    value: Seq<char>,
    steps: nat,
) -> bool
    decreases steps,
{
    match leading_reference(value) {
        None => true,
        Some(name) => !env.contains_key(name) || (steps > 0 && expands_within(
            env,
            env[name],
            (steps - 1) as nat,
        )),
    }
}

/// Whether following the leading references from `value` ends at all.
pub open spec fn expansion_ends(env: Map<Seq<char>, Seq<char>>, value: Seq<char>) -> bool {
    exists|steps: nat| expands_within(env, value, steps)
}

/// Whether the references of every variable of `env` end: no variable
/// refers back to itself, directly or through others.
pub open spec fn references_end(env: Map<Seq<char>, Seq<char>>) -> bool {
    forall|name: Seq<char>| #[trigger]
        env.contains_key(name) ==> expansion_ends(env, env[name])
}

/// The names of the variables of `env` whose references end.
pub open spec fn ending_names(env: Map<Seq<char>, Seq<char>>) -> Set<Seq<char>> {
    Set::new(|name: Seq<char>| env.contains_key(name) && expansion_ends(env, env[name]))
}

/// The variables of `env` whose references end, each with its value: `env`
/// without the variables that refer in a circle, or into one.
pub open spec fn ending_variables(env: Map<Seq<char>, Seq<char>>) -> Map<Seq<char>, Seq<char>> {
    env.restrict(ending_names(env))
}

/// An expansion that ends in `env` ends as soon among the variables of
/// `env` whose references end: it meets no other.
proof fn expansion_meets_ending_variables(
    env: Map<Seq<char>, Seq<char>>,
    value: Seq<char>,
    steps: nat,
)
    requires
        expands_within(env, value, steps),
    ensures
        expands_within(ending_variables(env), value, steps),
    decreases steps,
{
    if let Some(name) = leading_reference(value) {
        if env.contains_key(name) {
            let rest = (steps - 1) as nat;
            assert(expands_within(env, env[name], rest));
            assert(ending_names(env).contains(name));
            expansion_meets_ending_variables(env, env[name], rest);
        }
    }
}

/// Among the variables whose references end, all references end.
pub proof fn ending_variables_end(env: Map<Seq<char>, Seq<char>>)
    ensures
        references_end(ending_variables(env)),
{
    let kept = ending_variables(env);
    assert forall|name: Seq<char>| #[trigger] kept.contains_key(name) implies expansion_ends(
        kept,
        kept[name],
    ) by {
        assert(ending_names(env).contains(name));
        let steps = choose|steps: nat| expands_within(env, env[name], steps);
        expansion_meets_ending_variables(env, env[name], steps);
    }
}

/// An environment whose references all end loses no variable.
pub proof fn ending_environment_is_kept(env: Map<Seq<char>, Seq<char>>)
    requires
        references_end(env),
    ensures
        ending_variables(env) == env,
{
    assert(ending_variables(env) =~= env);
}

/// The variables of an environment as a list of names and values.
///
/// Calls `BTreeMap::into_iter` and collects what it yields. Trusted: the
/// list holds every variable of the map, and nothing else.
#[verifier::external_body]
fn env_entries(env_vars: forensic_rs::core::UserEnvVars) -> (entries: Vec<(String, String)>)
    ensures
        forall|i: int|
            0 <= i < entries.len() ==> env_vars.deep_view().contains_key(
                (#[trigger] entries[i]).0@,
            ) && env_vars.deep_view()[entries[i].0@] == entries[i].1@,
        forall|name: Seq<char>| #[trigger]
            env_vars.deep_view().contains_key(name) ==> exists|i: int|
                0 <= i < entries.len() && (#[trigger] entries[i]).0@ == name,
{
    env_vars.into_iter().collect()
}

/// A copy of an environment holds the variables that the environment holds.
fn copy_of(env_vars: &forensic_rs::core::UserEnvVars) -> (copy: forensic_rs::core::UserEnvVars)
    ensures
        copy.deep_view() == env_vars.deep_view(),
{
    let copy = env_vars.clone();
    proof {
        reveal(vstd::std_specs::btree::btree_map_deep_view_impl);
        assert(copy.deep_view() =~= env_vars.deep_view());
    }
    copy
}

/// Takes the variable `name` out of an environment.
///
/// Calls `BTreeMap::remove`. Trusted: afterwards the map holds what it held
/// before, but for the variable of that name.
#[verifier::external_body]
fn remove_variable(env_vars: &mut forensic_rs::core::UserEnvVars, name: &str)
    ensures
        final(env_vars).deep_view() == old(env_vars).deep_view().remove(name@),
{
    env_vars.remove(name);
}

/// How many entries of `ended` are still `false`.
spec fn pending(ended: Seq<bool>) -> nat
    decreases ended.len(),
{
    if ended.len() == 0 {
        0
    } else {
        pending(ended.drop_last()) + if ended.last() {
            0nat
        } else {
            1nat
        }
    }
}

/// Marking one more entry leaves one entry less pending.
proof fn pending_drops(ended: Seq<bool>, i: int)
    requires
        0 <= i < ended.len(),
        !ended[i],
    ensures
        pending(ended.update(i, true)) + 1 == pending(ended),
    decreases ended.len(),
{
    let after = ended.update(i, true);
    if i == ended.len() - 1 {
        assert(after.drop_last() =~= ended.drop_last());
    } else {
        pending_drops(ended.drop_last(), i);
        assert(after.drop_last() =~= ended.drop_last().update(i, true));
    }
}

/// What the search knows of the variables: where each is held in the
/// environment, and which variable each value begins by referring to.
spec fn describes(
    env: Map<Seq<char>, Seq<char>>,
    names: Seq<Vec<char>>,
    values: Seq<Vec<char>>,
    targets: Seq<Option<usize>>,
) -> bool {
    &&& names.len() == values.len()
    &&& names.len() == targets.len()
    &&& forall|i: int|
        0 <= i < names.len() ==> env.contains_key((#[trigger] names[i])@) && env[names[i]@]
            == values[i]@
    &&& forall|name: Seq<char>| #[trigger]
        env.contains_key(name) ==> exists|i: int|
            0 <= i < names.len() && (#[trigger] names[i])@ == name
    &&& forall|i: int|
        0 <= i < names.len() ==> match #[trigger] targets[i] {
            Some(t) => t < names.len() && leading_reference(values[i]@) == Some(names[t as int]@),
            None => leading_reference(values[i]@) matches Some(name) ==> !env.contains_key(name),
        }
}

/// Whether every variable before `upto` that is not marked begins by
/// referring to one that is not marked either.
spec fn closed(targets: Seq<Option<usize>>, ended: Seq<bool>, upto: int) -> bool {
    forall|i: int|
        0 <= i < upto && !(#[trigger] ended[i]) ==> (targets[i] matches Some(t) && !ended[t as int])
}

/// Among variables none of which is marked, and each of which refers to
/// another of them, no expansion ends.
proof fn expansion_never_ends(
    env: Map<Seq<char>, Seq<char>>,
    names: Seq<Vec<char>>,
    values: Seq<Vec<char>>,
    targets: Seq<Option<usize>>,
    ended: Seq<bool>,
    i: int,
    steps: nat,
)
    requires
        describes(env, names, values, targets),
        ended.len() == names.len(),
        closed(targets, ended, names.len() as int),
        0 <= i < names.len(),
        !ended[i],
    ensures
        !expands_within(env, values[i]@, steps),
    decreases steps,
{
    let t = targets[i]->0 as int;
    assert(env.contains_key(names[t]@));
    if steps > 0 {
        expansion_never_ends(env, names, values, targets, ended, t, (steps - 1) as nat);
    }
}

/// Whether `target` is the place among `names` of the variable that
/// `value` begins by referring to, `None` standing for: none of them.
spec fn is_target(names: Seq<Vec<char>>, value: Seq<char>, target: Option<usize>) -> bool {
    match target {
        Some(t) => t < names.len() && leading_reference(value) == Some(names[t as int]@),
        None => match leading_reference(value) {
            Some(name) => forall|t: int| 0 <= t < names.len() ==> (#[trigger] names[t])@ != name,
            None => true,
        },
    }
}

/// Where the first `%` of `value` at or after `from` stands.
fn find_percent(value: &Vec<char>, from: usize) -> (at: usize)
    requires
        from <= value.len(),
    ensures
        at == next_percent(value@, from as int),
        from <= at <= value.len(),
{
    let mut i: usize = from;
    while i < value.len() && value[i] != '%'
        invariant
            from <= i <= value.len(),
            next_percent(value@, from as int) == next_percent(value@, i as int),
        decreases value.len() - i,
    {
        i += 1;
    }
    i
}

/// Whether `name` is the run of `value` from `from` up to `to`.
fn is_run_of(name: &Vec<char>, value: &Vec<char>, from: usize, to: usize) -> (same: bool)
    requires
        from <= to <= value.len(),
    ensures
        same == (name@ == value@.subrange(from as int, to as int)),
{
    if name.len() != to - from {
        return false;
    }
    let mut i: usize = 0;
    while i < name.len()
        invariant
            from <= to <= value.len(),
            name.len() == to - from,
            i <= name.len(),
            forall|j: int| 0 <= j < i ==> name@[j] == value@[from + j],
        decreases name.len() - i,
    {
        if name[i] != value[from + i] {
            assert(value@.subrange(from as int, to as int)[i as int] == value@[from + i]);
            return false;
        }
        i += 1;
    }
    assert(name@ =~= value@.subrange(from as int, to as int));
    true
}

/// The place among `names` of the variable that `value` begins by referring
/// to; `None` where it refers to none of them.
fn reference_target(names: &Vec<Vec<char>>, value: &Vec<char>) -> (target: Option<usize>)
    ensures
        is_target(names@, value@, target),
{
    if value.len() == 0 || value[0] != '%' {
        return None;
    }
    let end = find_percent(value, 1);
    if end >= value.len() {
        return None;
    }
    let mut t: usize = 0;
    while t < names.len()
        invariant
            1 <= end < value.len(),
            t <= names.len(),
            leading_reference(value@) == Some(value@.subrange(1, end as int)),
            forall|j: int| 0 <= j < t ==> (#[trigger] names[j])@ != value@.subrange(1, end as int),
        decreases names.len() - t,
    {
        if is_run_of(&names[t], value, 1, end) {
            return Some(t);
        }
        t += 1;
    }
    None
}

/// The characters of each name and of each value of `entries`.
fn entry_chars(entries: &Vec<(String, String)>) -> (chars: (Vec<Vec<char>>, Vec<Vec<char>>))
    ensures
        chars.0.len() == entries.len(),
        chars.1.len() == entries.len(),
        forall|j: int|
            0 <= j < entries.len() ==> (#[trigger] chars.0[j])@ == entries[j].0@ && chars.1[j]@
                == entries[j].1@,
{
    let mut names: Vec<Vec<char>> = Vec::new();
    let mut values: Vec<Vec<char>> = Vec::new();
    let mut i: usize = 0;
    while i < entries.len()
        invariant
            i <= entries.len(),
            names.len() == i,
            values.len() == i,
            forall|j: int|
                0 <= j < i ==> (#[trigger] names[j])@ == entries[j].0@ && values[j]@
                    == entries[j].1@,
        decreases entries.len() - i,
    {
        names.push(chars_of(entries[i].0.as_str()));
        values.push(chars_of(entries[i].1.as_str()));
        i += 1;
    }
    (names, values)
}

/// For each value, the place of the variable that it begins by referring to.
fn reference_targets(names: &Vec<Vec<char>>, values: &Vec<Vec<char>>) -> (targets: Vec<
    Option<usize>,
>)
    requires
        names.len() == values.len(),
    ensures
        targets.len() == names.len(),
        forall|j: int|
            0 <= j < targets.len() ==> is_target(names@, values[j]@, #[trigger] targets[j]),
{
    let mut targets: Vec<Option<usize>> = Vec::new();
    let mut i: usize = 0;
    while i < values.len()
        invariant
            names.len() == values.len(),
            i <= values.len(),
            targets.len() == i,
            forall|j: int| 0 <= j < i ==> is_target(names@, values[j]@, #[trigger] targets[j]),
        decreases values.len() - i,
    {
        targets.push(reference_target(names, &values[i]));
        i += 1;
    }
    targets
}

/// What the marks say: the expansion of a marked variable ends within as
/// many steps as its rank.
spec fn settled(
    env: Map<Seq<char>, Seq<char>>,
    values: Seq<Vec<char>>,
    ended: Seq<bool>,
    ranks: Seq<nat>,
) -> bool {
    &&& ended.len() == values.len()
    &&& ranks.len() == values.len()
    &&& forall|j: int|
        0 <= j < ended.len() && #[trigger] ended[j] ==> expands_within(env, values[j]@, ranks[j])
}

/// One round of marking: every unmarked variable that refers to nothing in
/// the environment, or to a marked variable, is marked.
fn mark_round(
    Ghost(env): Ghost<Map<Seq<char>, Seq<char>>>,
    Ghost(names): Ghost<Seq<Vec<char>>>,
    values: &Vec<Vec<char>>,
    targets: &Vec<Option<usize>>,
    ended: &mut Vec<bool>,
    Ghost(ranks): Ghost<Seq<nat>>,
) -> (round: (bool, Ghost<Seq<nat>>))
    requires
        describes(env, names, values@, targets@),
        settled(env, values@, old(ended)@, ranks),
    ensures
        settled(env, values@, final(ended)@, round.1@),
        round.0 ==> pending(final(ended)@) < pending(old(ended)@),
        !round.0 ==> final(ended)@ == old(ended)@ && closed(
            targets@,
            final(ended)@,
            values.len() as int,
        ),
{
    let n = values.len();
    let ghost start = ended@;
    let ghost mut ranks = ranks;
    let mut progress = false;
    let mut i: usize = 0;
    while i < n
        invariant
            describes(env, names, values@, targets@),
            settled(env, values@, ended@, ranks),
            n == values.len(),
            i <= n,
            start.len() == n,
            !progress ==> ended@ == start && closed(targets@, ended@, i as int),
            progress ==> pending(ended@) < pending(start),
        decreases n - i,
    {
        if !ended[i] {
            let ends = match targets[i] {
                None => true,
                Some(t) => ended[t],
            };
            if ends {
                proof {
                    pending_drops(ended@, i as int);
                    let rank = match targets[i as int] {
                        None => 0nat,
                        Some(t) => ranks[t as int] + 1,
                    };
                    assert(expands_within(env, values[i as int]@, rank));
                    ranks = ranks.update(i as int, rank);
                }
                ended.set(i, true);
                progress = true;
            }
        }
        i += 1;
    }
    (progress, Ghost(ranks))
}

/// Marks the variables whose references end.
///
/// Goes round after round until a round marks no more: first the variables
/// whose value begins with no reference, or with one to a variable that is
/// not there, then those that refer to a marked one. What is left unmarked
/// refers in a circle, or into one.
fn mark_ending(
    Ghost(env): Ghost<Map<Seq<char>, Seq<char>>>,
    names: &Vec<Vec<char>>,
    values: &Vec<Vec<char>>,
    targets: &Vec<Option<usize>>,
) -> (ended: Vec<bool>)
    requires
        describes(env, names@, values@, targets@),
    ensures
        ended.len() == names.len(),
        forall|i: int|
            0 <= i < ended.len() ==> (#[trigger] ended[i] <==> expansion_ends(env, values[i]@)),
{
    let n = values.len();
    let mut ended: Vec<bool> = Vec::new();
    let mut i: usize = 0;
    while i < n
        invariant
            i <= n,
            ended.len() == i,
            forall|j: int| 0 <= j < i ==> !(#[trigger] ended[j]),
        decreases n - i,
    {
        ended.push(false);
        i += 1;
    }
    let ghost mut ranks: Seq<nat> = Seq::new(n as nat, |i: int| 0nat);
    let mut progress = true;
    while progress
        invariant
            describes(env, names@, values@, targets@),
            settled(env, values@, ended@, ranks),
            n == values.len(),
            !progress ==> closed(targets@, ended@, n as int),
        decreases
            pending(ended@) + if progress {
                1nat
            } else {
                0nat
            },
    {
        let round = mark_round(Ghost(env), Ghost(names@), values, targets, &mut ended, Ghost(ranks));
        progress = round.0;
        proof {
            ranks = round.1@;
        }
    }
    proof {
        assert forall|i: int| 0 <= i < ended.len() implies (#[trigger] ended[i] <==> expansion_ends(
            env,
            values[i]@,
        )) by {
            if ended[i] {
                assert(expands_within(env, values[i]@, ranks[i]));
            } else {
                assert forall|steps: nat| !expands_within(env, values[i]@, steps) by {
                    expansion_never_ends(env, names@, values@, targets@, ended@, i, steps);
                }
            }
        }
    }
    ended
}

/// Whether one of the first `upto` variables has the name `name` and is
/// not marked.
spec fn is_dropped(names: Seq<Vec<char>>, ended: Seq<bool>, upto: int, name: Seq<char>) -> bool {
    exists|j: int| 0 <= j < upto && (#[trigger] names[j])@ == name && !ended[j]
}

/// The environment without the variables that refer in a circle, or into
/// one: a copy of `env_vars` that holds the variables whose references end,
/// and no others. All references of the copy end.
pub fn without_endless_references(env_vars: &forensic_rs::core::UserEnvVars) -> (kept:
    forensic_rs::core::UserEnvVars)
    ensures
        kept.deep_view() == ending_variables(env_vars.deep_view()),
        references_end(kept.deep_view()),
{
    let ghost env = env_vars.deep_view();
    let entries = env_entries(copy_of(env_vars));
    let n = entries.len();
    let (names, values) = entry_chars(&entries);
    let targets = reference_targets(&names, &values);
    assert(describes(env, names@, values@, targets@)) by {
        assert forall|i: int| 0 <= i < n implies env.contains_key((#[trigger] names[i])@)
            && env[names[i]@] == values[i]@ by {
            assert(env.contains_key(entries[i].0@));
        }
        assert forall|name: Seq<char>| #[trigger] env.contains_key(name) implies exists|i: int|
            0 <= i < n && (#[trigger] names[i])@ == name by {
            let i = choose|i: int| 0 <= i < n && (#[trigger] entries[i]).0@ == name;
            assert(names[i]@ == name);
        }
        assert forall|i: int| 0 <= i < n implies match #[trigger] targets[i] {
            Some(t) => t < n && leading_reference(values[i]@) == Some(names[t as int]@),
            None => leading_reference(values[i]@) matches Some(name) ==> !env.contains_key(name),
        } by {
            assert(is_target(names@, values[i]@, targets[i]));
        }
    }
    let ended = mark_ending(Ghost(env), &names, &values, &targets);
    let mut kept = copy_of(env_vars);
    let mut i: usize = 0;
    while i < n
        invariant
            i <= n,
            n == entries.len(),
            n == names.len(),
            n == ended.len(),
            forall|j: int| 0 <= j < n ==> (#[trigger] names[j])@ == entries[j].0@,
            forall|name: Seq<char>|
                kept.deep_view().contains_key(name) <==> env.contains_key(name) && !is_dropped(
                    names@,
                    ended@,
                    i as int,
                    name,
                ),
            forall|name: Seq<char>|
                kept.deep_view().contains_key(name) ==> kept.deep_view()[name] == env[name],
        decreases n - i,
    {
        let ghost before = kept.deep_view();
        if !ended[i] {
            remove_variable(&mut kept, entries[i].0.as_str());
        }
        proof {
            let after = kept.deep_view();
            let gone = names[i as int]@;
            assert(after == if ended[i as int] {
                before
            } else {
                before.remove(gone)
            });
            assert forall|name: Seq<char>|
                is_dropped(names@, ended@, i as int + 1, name) <==> is_dropped(
                    names@,
                    ended@,
                    i as int,
                    name,
                ) || (gone == name && !ended[i as int]) by {
                if is_dropped(names@, ended@, i as int, name) {
                    let j = choose|j: int|
                        0 <= j < i && (#[trigger] names[j])@ == name && !ended[j];
                    assert(0 <= j < i + 1 && names[j]@ == name && !ended[j]);
                }
                if gone == name && !ended[i as int] {
                    assert(0 <= i < i + 1 && names[i as int]@ == name && !ended[i as int]);
                }
            }
            assert forall|name: Seq<char>|
                after.contains_key(name) <==> env.contains_key(name) && !is_dropped(
                    names@,
                    ended@,
                    i as int + 1,
                    name,
                ) by {
                assert(before.contains_key(name) <==> env.contains_key(name) && !is_dropped(
                    names@,
                    ended@,
                    i as int,
                    name,
                ));
            }
            assert forall|name: Seq<char>| after.contains_key(name) implies after[name]
                == env[name] by {
                assert(before.contains_key(name));
            }
        }
        i += 1;
    }
    proof {
        assert forall|name: Seq<char>| env.contains_key(name) implies (is_dropped(
            names@,
            ended@,
            n as int,
            name,
        ) <==> !expansion_ends(env, env[name])) by {
            let j = choose|j: int| 0 <= j < n && (#[trigger] names[j])@ == name;
            assert(ended[j] <==> expansion_ends(env, values[j]@));
            if is_dropped(names@, ended@, n as int, name) {
                let k = choose|k: int| 0 <= k < n && (#[trigger] names[k])@ == name && !ended[k];
                assert(ended[k] <==> expansion_ends(env, values[k]@));
            }
        }
        assert(kept.deep_view() =~= ending_variables(env));
        ending_variables_end(env);
    }
    kept
}

/// What `interpolate_csidl_path` makes of `path` in the environment `env`:
/// the path with its known-folder identifier and the variables behind it
/// replaced, or `None` where one of them cannot be replaced.
pub uninterp spec fn interpolated_csidl_path(
    path: Seq<char>,
    env: Map<Seq<char>, Seq<char>>,
) -> Option<Seq<char>>;

/// Whether `path` begins with `{`, as a known-folder identifier does.
pub open spec fn begins_with_brace(path: Seq<char>) -> bool {
    path.len() > 0 && path[0] == '{'
}

/// The characters of a text that may be absent.
pub open spec fn text_of(text: Option<String>) -> Option<Seq<char>> {
    match text {
        Some(text) => Some(text@),
        None => None,
    }
}

/// The path that `path` stands for in the environment `env`; `None` where
/// it cannot be told. A path that begins with no known-folder identifier
/// stands for itself. Any other is interpolated among the variables of
/// `env` whose references end.
pub open spec fn interpolated_path(path: Seq<char>, env: Map<Seq<char>, Seq<char>>) -> Option<
    Seq<char>,
> {
    if begins_with_brace(path) {
        interpolated_csidl_path(path, ending_variables(env))
    } else {
        Some(path)
    }
}

/// Calls `forensic_rs::utils::win::csidl::interpolate_csidl_path` on a copy
/// of `path`.
///
/// Trusted: the result depends on the characters of the path and on the
/// variables of the environment alone, and a path that does not begin with
/// `{` comes back as it is. The outside function follows the leading
/// references among the variables by recursion; it is called only where
/// they end.
#[verifier::external_body]
fn interpolate_csidl(path: &str, env_vars: &forensic_rs::core::UserEnvVars) -> (resolved: Option<
    String,
>)
    requires
        begins_with_brace(path@) ==> references_end(env_vars.deep_view()),
    ensures
        text_of(resolved) == interpolated_csidl_path(path@, env_vars.deep_view()),
        !begins_with_brace(path@) ==> text_of(resolved) == Some(path@),
{
    let mut owned = path.to_string();
    forensic_rs::utils::win::csidl::interpolate_csidl_path(&mut owned, env_vars)
}

/// Whether `path` begins with `{`.
fn starts_with_brace(path: &str) -> (found: bool)
    ensures
        found == begins_with_brace(path@),
{
    let mut chars = path.chars();
    match chars.next() {
        Some(c) => c == '{',
        None => false,
    }
}

/// `interpolate`, for a caller that holds the variables of the environment
/// `env` whose references end in `kept`.
pub(crate) fn interpolate_among(
    path: &str,
    kept: &forensic_rs::core::UserEnvVars,
    Ghost(env): Ghost<Map<Seq<char>, Seq<char>>>,
) -> (resolved: Option<String>)
    requires
        kept.deep_view() == ending_variables(env),
        references_end(kept.deep_view()),
    ensures
        text_of(resolved) == interpolated_path(path@, env),
{
    interpolate_csidl(path, kept)
}

/// Replaces a known-folder identifier at the start of `path`, and the
/// environment variables that it stands for, by their values.
///
/// Gives the path back as it is where it begins with no such identifier,
/// and `None` where the identifier or a variable is unknown. A variable
/// that refers back to itself, directly or through others, counts as
/// unknown.
pub fn interpolate(path: &str, env_vars: &forensic_rs::core::UserEnvVars) -> (resolved: Option<
    String,
>)
    ensures
        text_of(resolved) == interpolated_path(path@, env_vars.deep_view()),
{
    if starts_with_brace(path) {
        let kept = without_endless_references(env_vars);
        interpolate_csidl(path, &kept)
    } else {
        interpolate_csidl(path, env_vars)
    }
}

} // verus!
