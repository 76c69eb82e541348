//! The lints, their groups, and the passes that check them.

pub mod insert_event_resource;
pub mod main_return_without_appexit;
pub mod zst_query;

use vstd::prelude::*;
use crate::dispatch::{Dispatcher, PassKind};
use crate::registry::{group_names, lint_names, Level, Lint, LintGroup, LintStore, RegistryError};

verus! {

pub open spec fn bevy_lint_names() -> Seq<Seq<char>> {
    seq!["bevy::insert_event_resource"@, "bevy::main_return_without_appexit"@, "bevy::zst_query"@]
}

pub open spec fn bevy_group_names() -> Seq<Seq<char>> {
    seq!["bevy::all"@, "bevy::suspicious"@, "bevy::pedantic"@, "bevy::restriction"@]
}

pub open spec fn bevy_passes() -> Seq<PassKind> {
    seq![PassKind::InsertEventResource, PassKind::MainReturnWithoutAppExit, PassKind::ZstQuery]
}

/// None of `names` is taken in the store, as a lint or as a group.
pub open spec fn names_free(store: LintStore, names: Seq<Seq<char>>) -> bool {
    forall|i: int|
        0 <= i < names.len() ==> !lint_names(store.lints@).contains(names[i]) && !group_names(
            store.groups@,
        ).contains(names[i])
}

fn lint(name: &str, default_level: Level, desc: &str) -> (r: Lint)
    ensures
        r.name@ == name@,
        r.default_level == default_level,
        r.desc@ == desc@,
{
    Lint { name: String::from_str(name), default_level, desc: String::from_str(desc) }
}

/// `App::insert_resource(Events<T>)` or `App::init_resource::<Events<T>>()`; denied by default.
pub fn insert_event_resource() -> (r: Lint)
    ensures
        r.name@ == "bevy::insert_event_resource"@,
        r.default_level == Level::Deny,
{
    lint(
        "bevy::insert_event_resource",
        Level::Deny,
        "called `App::insert_resource(Events<T>)` or `App::init_resource::<Events<T>>()` instead of `App::add_event::<T>()`",
    )
}

/// An entry point that calls `App::run()` without returning `AppExit`; warned by default.
pub fn main_return_without_appexit() -> (r: Lint)
    ensures
        r.name@ == "bevy::main_return_without_appexit"@,
        r.default_level == Level::Warn,
{
    lint(
        "bevy::main_return_without_appexit",
        Level::Warn,
        "an entrypoint that calls `App::run()` does not return `AppExit`",
    )
}

/// A query for a zero-sized type; a restriction, allowed by default.
pub fn zst_query() -> (r: Lint)
    ensures
        r.name@ == "bevy::zst_query"@,
        r.default_level == Level::Allow,
{
    lint("bevy::zst_query", Level::Allow, "query for a zero-sized type")
}

pub proof fn lemma_names_distinct()
    ensures
        forall|i: int, j: int|
            0 <= i < j < bevy_lint_names().len() ==> bevy_lint_names()[i] != bevy_lint_names()[j],
        forall|i: int, j: int|
            0 <= i < j < bevy_group_names().len() ==> bevy_group_names()[i] != bevy_group_names()[j],
        forall|i: int, j: int|
            0 <= i < bevy_lint_names().len() && 0 <= j < bevy_group_names().len() ==> bevy_lint_names()[i]
                != bevy_group_names()[j],
{
    reveal_strlit("bevy::insert_event_resource");
    reveal_strlit("bevy::main_return_without_appexit");
    reveal_strlit("bevy::zst_query");
    reveal_strlit("bevy::all");
    reveal_strlit("bevy::suspicious");
    reveal_strlit("bevy::pedantic");
    reveal_strlit("bevy::restriction");
    assert("bevy::insert_event_resource"@[6] != "bevy::main_return_without_appexit"@[6]);
    assert("bevy::insert_event_resource"@[6] != "bevy::zst_query"@[6]);
    assert("bevy::main_return_without_appexit"@[6] != "bevy::zst_query"@[6]);
    assert("bevy::all"@[6] != "bevy::suspicious"@[6]);
    assert("bevy::all"@[6] != "bevy::pedantic"@[6]);
    assert("bevy::all"@[6] != "bevy::restriction"@[6]);
    assert("bevy::suspicious"@[6] != "bevy::pedantic"@[6]);
    assert("bevy::suspicious"@[6] != "bevy::restriction"@[6]);
    assert("bevy::pedantic"@[6] != "bevy::restriction"@[6]);
    assert("bevy::insert_event_resource"@[6] != "bevy::all"@[6]);
    assert("bevy::insert_event_resource"@[6] != "bevy::suspicious"@[6]);
    assert("bevy::insert_event_resource"@[6] != "bevy::pedantic"@[6]);
    assert("bevy::insert_event_resource"@[6] != "bevy::restriction"@[6]);
    assert("bevy::main_return_without_appexit"@[6] != "bevy::all"@[6]);
    assert("bevy::main_return_without_appexit"@[6] != "bevy::suspicious"@[6]);
    assert("bevy::main_return_without_appexit"@[6] != "bevy::pedantic"@[6]);
    assert("bevy::main_return_without_appexit"@[6] != "bevy::restriction"@[6]);
    assert("bevy::zst_query"@[6] != "bevy::all"@[6]);
    assert("bevy::zst_query"@[6] != "bevy::suspicious"@[6]);
    assert("bevy::zst_query"@[6] != "bevy::pedantic"@[6]);
    assert("bevy::zst_query"@[6] != "bevy::restriction"@[6]);
}

/// Registers the three lints, in order. It fails where one of their names is
/// already taken.
pub fn register_lints(store: &mut LintStore) -> (r: Result<(), RegistryError>)
    requires
        old(store).wf(),
    ensures
        final(store).wf(),
        r is Ok <==> names_free(*old(store), bevy_lint_names()),
        r is Err ==> r == Err::<(), RegistryError>(RegistryError::DuplicateLint),
        r is Ok ==> lint_names(final(store).lints@) == lint_names(old(store).lints@) + bevy_lint_names()
            && final(store).groups@ == old(store).groups@,
{
    let ghost s0 = *store;
    proof {
        lemma_names_distinct();
    }
    store.register_lint(insert_event_resource())?;
    let ghost s1 = *store;
    proof {
        assert(lint_names(s1.lints@) =~= lint_names(s0.lints@).push(bevy_lint_names()[0]));
    }
    let r = store.register_lint(main_return_without_appexit());
    if r.is_err() {
        proof {
            assert(!names_free(s0, bevy_lint_names())) by {
                if lint_names(s1.lints@).contains(bevy_lint_names()[1]) {
                    let k = choose|k: int| 0 <= k < lint_names(s1.lints@).len() && lint_names(s1.lints@)[k] == bevy_lint_names()[1];
                    assert(k < lint_names(s0.lints@).len());
                    assert(lint_names(s0.lints@)[k] == bevy_lint_names()[1]);
                }
            }
        }
        return r;
    }
    let ghost s2 = *store;
    proof {
        assert(lint_names(s2.lints@) =~= lint_names(s1.lints@).push(bevy_lint_names()[1]));
    }
    let r = store.register_lint(zst_query());
    if r.is_err() {
        proof {
            assert(!names_free(s0, bevy_lint_names())) by {
                if lint_names(s2.lints@).contains(bevy_lint_names()[2]) {
                    let k = choose|k: int| 0 <= k < lint_names(s2.lints@).len() && lint_names(s2.lints@)[k] == bevy_lint_names()[2];
                    assert(k < lint_names(s0.lints@).len());
                    assert(lint_names(s0.lints@)[k] == bevy_lint_names()[2]);
                }
            }
        }
        return r;
    }
    proof {
        assert(lint_names(store.lints@) =~= lint_names(s0.lints@) + bevy_lint_names());
        assert forall|i: int| 0 <= i < bevy_lint_names().len() implies !lint_names(s0.lints@).contains(
            bevy_lint_names()[i],
        ) && !group_names(s0.groups@).contains(bevy_lint_names()[i]) by {
            if lint_names(s0.lints@).contains(bevy_lint_names()[i]) {
                let k = choose|k: int| 0 <= k < lint_names(s0.lints@).len() && lint_names(s0.lints@)[k] == bevy_lint_names()[i];
                if i == 1 {
                    assert(lint_names(s1.lints@)[k] == bevy_lint_names()[1]);
                }
                if i == 2 {
                    assert(lint_names(s2.lints@)[k] == bevy_lint_names()[2]);
                }
            }
        }
    }
    Ok(())
}

fn names(parts: &[&str]) -> (r: Vec<String>)
    ensures
        r@.len() == parts@.len(),
        forall|i: int| 0 <= i < r@.len() ==> r@[i]@ == parts@[i]@,
{
    let mut out: Vec<String> = Vec::new();
    let mut i: usize = 0;
    while i < parts.len()
        invariant
            0 <= i <= parts@.len(),
            out@.len() == i,
            forall|j: int| 0 <= j < i ==> out@[j]@ == parts@[j]@,
        decreases parts.len() - i,
    {
        out.push(String::from_str(parts[i]));
        i = i + 1;
    }
    out
}

pub proof fn lemma_contains_push(s: Seq<Seq<char>>, n: Seq<char>, m: Seq<char>)
    ensures
        s.push(n).contains(m) <==> (s.contains(m) || m == n),
{
    if s.push(n).contains(m) && m != n {
        let k = choose|k: int| 0 <= k < s.push(n).len() && s.push(n)[k] == m;
        assert(s[k] == m);
    }
    if s.contains(m) {
        let k = choose|k: int| 0 <= k < s.len() && s[k] == m;
        assert(s.push(n)[k] == m);
    }
    if m == n {
        assert(s.push(n)[s.len() as int] == m);
    }
}

/// Registers one of the groups, the `k`th of `bevy_group_names()`.
fn register_group_at(store: &mut LintStore, k: usize, name: &str, members: Vec<String>) -> (r: Result<(), RegistryError>)
    requires
        old(store).wf(),
        k < bevy_group_names().len(),
        name@ == bevy_group_names()[k as int],
    ensures
        final(store).wf(),
        final(store).lints@ == old(store).lints@,
        r is Ok <==> names_free(*old(store), seq![name@]),
        r is Ok ==> group_names(final(store).groups@) == group_names(old(store).groups@).push(name@),
        r is Err ==> r == Err::<(), RegistryError>(RegistryError::DuplicateGroup) && *final(store) == *old(store),
{
    let g = LintGroup { name: String::from_str(name), members };
    let ghost old_groups = store.groups@;
    let r = store.register_group(g);
    proof {
        assert(seq![name@][0] == name@);
        assert(names_free(*old(store), seq![name@]) <==> (!lint_names(old(store).lints@).contains(name@)
            && !group_names(old(store).groups@).contains(name@)));
        if r is Ok {
            assert(group_names(store.groups@) =~= group_names(old_groups).push(name@));
        }
    }
    r
}

/// Registers `bevy::all` and the groups by kind of lint. It fails where one of
/// their names is already taken, as a lint or as a group.
pub fn register_groups(store: &mut LintStore) -> (r: Result<(), RegistryError>)
    requires
        old(store).wf(),
    ensures
        final(store).wf(),
        r is Ok <==> names_free(*old(store), bevy_group_names()),
        r is Ok ==> group_names(final(store).groups@) == group_names(old(store).groups@) + bevy_group_names()
            && final(store).lints@ == old(store).lints@,
        r is Err ==> r == Err::<(), RegistryError>(RegistryError::DuplicateGroup),
{
    let ghost s0 = *store;
    let ghost ns = bevy_group_names();
    proof {
        lemma_names_distinct();
    }
    let steps: [&str; 4] = ["bevy::all", "bevy::suspicious", "bevy::pedantic", "bevy::restriction"];
    proof {
        assert(steps@[0]@ == ns[0]);
        assert(steps@[1]@ == ns[1]);
        assert(steps@[2]@ == ns[2]);
        assert(steps@[3]@ == ns[3]);
    }
    let mut k: usize = 0;
    while k < 4
        invariant
            0 <= k <= 4,
            steps@.len() == 4,
            forall|j: int| 0 <= j < 4 ==> steps@[j]@ == ns[j],
            ns == bevy_group_names(),
            s0 == *old(store),
            store.wf(),
            store.lints@ == s0.lints@,
            group_names(store.groups@) == group_names(s0.groups@) + ns.take(k as int),
            forall|j: int| 0 <= j < k ==> !lint_names(s0.lints@).contains(ns[j]) && !group_names(s0.groups@).contains(ns[j]),
            forall|i: int, j: int| 0 <= i < j < ns.len() ==> ns[i] != ns[j],
            forall|i: int, j: int| 0 <= i < bevy_lint_names().len() && 0 <= j < ns.len() ==> bevy_lint_names()[i] != ns[j],
        decreases 4 - k,
    {
        let members = if k == 0 {
            names(&["bevy::insert_event_resource", "bevy::main_return_without_appexit", "bevy::zst_query"])
        } else if k == 1 {
            names(&["bevy::insert_event_resource"])
        } else if k == 2 {
            names(&["bevy::main_return_without_appexit"])
        } else {
            names(&["bevy::zst_query"])
        };
        let ghost before = *store;
        let r = register_group_at(store, k, steps[k], members);
        proof {
            assert(names_free(before, seq![ns[k as int]]) <==> !lint_names(s0.lints@).contains(ns[k as int])
                && !group_names(s0.groups@).contains(ns[k as int])) by {
                assert(seq![ns[k as int]][0] == ns[k as int]);
                if group_names(before.groups@).contains(ns[k as int]) && !group_names(s0.groups@).contains(ns[k as int]) {
                    let m = choose|m: int| 0 <= m < group_names(before.groups@).len() && group_names(before.groups@)[m] == ns[k as int];
                    assert(m >= group_names(s0.groups@).len()) by {
                        if m < group_names(s0.groups@).len() {
                            assert(group_names(s0.groups@)[m] == ns[k as int]);
                        }
                    }
                    assert(ns.take(k as int)[m - group_names(s0.groups@).len()] == ns[k as int]);
                }
                if group_names(s0.groups@).contains(ns[k as int]) {
                    let m = choose|m: int| 0 <= m < group_names(s0.groups@).len() && group_names(s0.groups@)[m] == ns[k as int];
                    assert(group_names(before.groups@)[m] == ns[k as int]);
                }
            }
        }
        if r.is_err() {
            proof {
                assert(lint_names(s0.lints@).contains(ns[k as int]) || group_names(s0.groups@).contains(ns[k as int]));
                assert(!names_free(s0, ns));
            }
            return Err(RegistryError::DuplicateGroup);
        }
        proof {
            assert(ns.take(k + 1) =~= ns.take(k as int).push(ns[k as int]));
            lemma_contains_push(group_names(s0.groups@) + ns.take(k as int), ns[k as int], ns[k as int]);
        }
        k = k + 1;
        proof {
            assert(group_names(store.groups@) =~= group_names(s0.groups@) + ns.take(k as int));
        }
    }
    proof {
        assert(ns.take(4) =~= ns);
    }
    Ok(())
}

/// Adds the three passes after those already registered.
pub fn register_passes(dispatcher: &mut Dispatcher)
    ensures
        final(dispatcher).passes@ == old(dispatcher).passes@ + bevy_passes(),
{
    dispatcher.register_pass(PassKind::InsertEventResource);
    dispatcher.register_pass(PassKind::MainReturnWithoutAppExit);
    dispatcher.register_pass(PassKind::ZstQuery);
    proof {
        assert(dispatcher.passes@ =~= old(dispatcher).passes@ + bevy_passes());
    }
}

} // verus!
