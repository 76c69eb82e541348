//! Installing the Bevy lints into a compiler session without displacing hooks
//! that other tools installed before.

use vstd::prelude::*;
use crate::dispatch::{Dispatcher, PassKind};
use crate::lints::{
    bevy_group_names, bevy_lint_names, bevy_passes, lemma_contains_push, lemma_names_distinct, names_free, register_groups, register_lints,
    register_passes,
};
use crate::registry::{
    fresh_names, group_names, lemma_contains_concat, lemma_fresh_concat, lemma_fresh_prefix, lemma_not_fresh, lint_names, taken, Level, Lint,
    LintStore, RegistryError,
};

verus! {

/// A hook that registers lints when the session starts.
#[derive(Debug)]
pub enum RegisterHook {
    /// This crate's lints, groups and passes.
    Bevy,
    /// Lints that another tool registers.
    Foreign(Vec<Lint>),
}

/// The part of the compiler's configuration that lint tools change.
#[derive(Debug)]
pub struct CompilerConfig {
    /// Run in order when the session starts.
    pub register_lints: Vec<RegisterHook>,
    /// `(lint or group, level)` settings, later ones winning.
    pub lint_opts: Vec<(String, Level)>,
}

/// The passes the hooks add, in order.
pub open spec fn hook_passes(hooks: Seq<RegisterHook>) -> Seq<PassKind>
    decreases hooks.len(),
{
    if hooks.len() == 0 {
        seq![]
    } else {
        hook_passes(hooks.drop_last()) + match hooks.last() {
            RegisterHook::Bevy => bevy_passes(),
            RegisterHook::Foreign(_) => seq![],
        }
    }
}

/// The lint names the hooks register, in order.
pub open spec fn hook_lint_names(hooks: Seq<RegisterHook>) -> Seq<Seq<char>>
    decreases hooks.len(),
{
    if hooks.len() == 0 {
        seq![]
    } else {
        hook_lint_names(hooks.drop_last()) + match hooks.last() {
            RegisterHook::Bevy => bevy_lint_names(),
            RegisterHook::Foreign(ls) => lint_names(ls@),
        }
    }
}

/// The group names the hooks register, in order.
pub open spec fn hook_group_names(hooks: Seq<RegisterHook>) -> Seq<Seq<char>>
    decreases hooks.len(),
{
    if hooks.len() == 0 {
        seq![]
    } else {
        hook_group_names(hooks.drop_last()) + match hooks.last() {
            RegisterHook::Bevy => bevy_group_names(),
            RegisterHook::Foreign(_) => seq![],
        }
    }
}

/// The compiler callbacks of this tool.
pub struct BevyLintCallback;

impl BevyLintCallback {
    /// Adds this tool's registration after the hooks already installed, which stay
    /// and run first.
    pub fn config(&mut self, config: &mut CompilerConfig)
        ensures
            final(config).register_lints@ == old(config).register_lints@.push(RegisterHook::Bevy),
            final(config).lint_opts@ == old(config).lint_opts@,
    {
        config.register_lints.push(RegisterHook::Bevy);
    }
}

fn register_foreign(lints: Vec<Lint>, store: &mut LintStore) -> (r: Result<(), RegistryError>)
    requires
        old(store).wf(),
    ensures
        final(store).wf(),
        r is Ok <==> fresh_names(*old(store), lint_names(lints@)),
        r is Ok ==> lint_names(final(store).lints@) == lint_names(old(store).lints@) + lint_names(lints@)
            && final(store).groups@ == old(store).groups@,
{
    let ghost all = lints@;
    let ghost s0 = *store;
    let ghost start = lint_names(store.lints@);
    let mut rest = lints;
    let ghost mut i: int = 0;
    while rest.len() > 0
        invariant
            store.wf(),
            s0 == *old(store),
            all == lints@,
            0 <= i <= all.len(),
            rest@ == all.subrange(i, all.len() as int),
            lint_names(store.lints@) == start + lint_names(all.take(i)),
            start == lint_names(s0.lints@),
            store.groups@ == s0.groups@,
            forall|m: Seq<char>| #[trigger] taken(*store, m) <==> (taken(s0, m) || lint_names(all.take(i)).contains(m)),
            fresh_names(s0, lint_names(all.take(i))),
        decreases rest.len(),
    {
        let l = rest.remove(0);
        let ghost before = *store;
        let ghost prefix = lint_names(all.take(i));
        proof {
            assert(forall|m: Seq<char>| taken(before, m) <==> (taken(s0, m) || prefix.contains(m)));
            assert(l == all[i]);
            assert(lint_names(all.take(i + 1)) =~= prefix.push(l.name@));
        }
        let r = store.register_lint(l);
        if r.is_err() {
            proof {
                lemma_not_fresh(s0, prefix, l.name@);
                assert(lint_names(all) =~= prefix.push(l.name@) + lint_names(all.subrange(i + 1, all.len() as int)));
                if fresh_names(s0, lint_names(all)) {
                    lemma_fresh_prefix(s0, prefix.push(l.name@), lint_names(all.subrange(i + 1, all.len() as int)));
                }
            }
            return r;
        }
        proof {
            assert(lint_names(store.lints@) =~= lint_names(before.lints@).push(l.name@));
            assert forall|m: Seq<char>| #[trigger] taken(*store, m) <==> (taken(s0, m) || prefix.push(l.name@).contains(m)) by {
                lemma_contains_push(lint_names(before.lints@), l.name@, m);
                lemma_contains_push(prefix, l.name@, m);
                assert(store.groups@ == before.groups@);
                assert(taken(before, m) <==> (taken(s0, m) || prefix.contains(m)));
            }
            lemma_fresh_concat(s0, before, prefix, seq![l.name@]);
            assert(seq![l.name@][0] == l.name@);
            assert(prefix + seq![l.name@] =~= prefix.push(l.name@));
            i = i + 1;
            assert(rest@ =~= all.subrange(i, all.len() as int));
        }
    }
    proof {
        assert(all.take(i) =~= all);
    }
    Ok(())
}

/// The names a hook registers, lints then groups.
pub open spec fn step_names(hook: RegisterHook) -> Seq<Seq<char>> {
    match hook {
        RegisterHook::Bevy => bevy_lint_names() + bevy_group_names(),
        RegisterHook::Foreign(ls) => lint_names(ls@),
    }
}

/// The names the hooks register, in order.
pub open spec fn hook_steps(hooks: Seq<RegisterHook>) -> Seq<Seq<char>>
    decreases hooks.len(),
{
    if hooks.len() == 0 {
        seq![]
    } else {
        hook_steps(hooks.drop_last()) + step_names(hooks.last())
    }
}

proof fn lemma_steps_fresh_prefix(s0: LintStore, hs: Seq<RegisterHook>, k: int)
    requires
        0 <= k <= hs.len(),
        fresh_names(s0, hook_steps(hs)),
    ensures
        fresh_names(s0, hook_steps(hs.take(k))),
    decreases hs.len(),
{
    if k == hs.len() {
        assert(hs.take(k) =~= hs);
    } else {
        lemma_fresh_prefix(s0, hook_steps(hs.drop_last()), step_names(hs.last()));
        lemma_steps_fresh_prefix(s0, hs.drop_last(), k);
        assert(hs.drop_last().take(k) =~= hs.take(k));
    }
}

/// Registers Bevy's lints, passes and groups.
fn register_bevy(store: &mut LintStore, dispatcher: &mut Dispatcher) -> (r: Result<(), RegistryError>)
    requires
        old(store).wf(),
    ensures
        final(store).wf(),
        r is Ok <==> fresh_names(*old(store), step_names(RegisterHook::Bevy)),
        r is Ok ==> {
            &&& lint_names(final(store).lints@) == lint_names(old(store).lints@) + bevy_lint_names()
            &&& group_names(final(store).groups@) == group_names(old(store).groups@) + bevy_group_names()
            &&& final(dispatcher).passes@ == old(dispatcher).passes@ + bevy_passes()
        },
{
    let ghost before = *store;
    let ghost bl = bevy_lint_names();
    let ghost bg = bevy_group_names();
    proof {
        lemma_names_distinct();
    }
    let r1 = register_lints(store);
    let ghost mid = *store;
    proof {
        assert(fresh_names(before, bl) <==> names_free(before, bl));
    }
    if r1.is_err() {
        proof {
            if fresh_names(before, bl + bg) {
                lemma_fresh_prefix(before, bl, bg);
            }
        }
        return r1;
    }
    proof {
        assert forall|m: Seq<char>| #[trigger] taken(mid, m) <==> (taken(before, m) || bl.contains(m)) by {
            lemma_contains_concat(lint_names(before.lints@), bl, m);
        }
        assert(fresh_names(mid, bg) <==> names_free(mid, bg));
        lemma_fresh_concat(before, mid, bl, bg);
    }
    register_passes(dispatcher);
    let r2 = register_groups(store);
    r2
}

impl CompilerConfig {
    /// Runs the installed hooks in order. It succeeds exactly when every name the
    /// hooks register is new and none repeats; then every hook's lints and groups
    /// are registered, and Bevy's passes follow those already there.
    pub fn run_register_lints(self, store: &mut LintStore, dispatcher: &mut Dispatcher) -> (r: Result<(), RegistryError>)
        requires
            old(store).wf(),
        ensures
            final(store).wf(),
            r is Ok <==> fresh_names(*old(store), hook_steps(self.register_lints@)),
            r is Ok ==> {
                &&& lint_names(final(store).lints@) == lint_names(old(store).lints@) + hook_lint_names(self.register_lints@)
                &&& group_names(final(store).groups@) == group_names(old(store).groups@) + hook_group_names(
                    self.register_lints@,
                )
                &&& final(dispatcher).passes@ == old(dispatcher).passes@ + hook_passes(self.register_lints@)
            },
    {
        let ghost all = self.register_lints@;
        let ghost s0 = *store;
        let ghost lints0 = lint_names(store.lints@);
        let ghost groups0 = group_names(store.groups@);
        let ghost passes0 = dispatcher.passes@;
        let mut rest = self.register_lints;
        let ghost mut i: int = 0;
        proof {
            assert(all.take(0) =~= seq![]);
            assert(hook_steps(all.take(0)) =~= seq![]);
        }
        while rest.len() > 0
            invariant
                store.wf(),
                s0 == *old(store),
                all == self.register_lints@,
                lints0 == lint_names(s0.lints@),
                groups0 == group_names(s0.groups@),
                passes0 == old(dispatcher).passes@,
                0 <= i <= all.len(),
                rest@ == all.subrange(i, all.len() as int),
                lint_names(store.lints@) == lints0 + hook_lint_names(all.take(i)),
                group_names(store.groups@) == groups0 + hook_group_names(all.take(i)),
                dispatcher.passes@ == passes0 + hook_passes(all.take(i)),
                forall|m: Seq<char>| #[trigger] taken(*store, m) <==> (taken(s0, m) || hook_steps(all.take(i)).contains(m)),
                fresh_names(s0, hook_steps(all.take(i))),
            decreases rest.len(),
        {
            let ghost before = *store;
            let ghost prefix = hook_steps(all.take(i));
            proof {
                assert(all.take(i + 1).drop_last() =~= all.take(i));
                assert(all.take(i + 1).last() == rest@[0]);
                assert(forall|m: Seq<char>| taken(before, m) <==> (taken(s0, m) || prefix.contains(m)));
            }
            let hook = rest.remove(0);
            let ghost q = step_names(hook);
            let r = match hook {
                RegisterHook::Bevy => register_bevy(store, dispatcher),
                RegisterHook::Foreign(lints) => register_foreign(lints, store),
            };
            proof {
                assert(hook_steps(all.take(i + 1)) == prefix + q);
                if r is Ok {
                    assert forall|m: Seq<char>| #[trigger] taken(*store, m) <==> (taken(before, m) || q.contains(m)) by {
                        lemma_contains_concat(lint_names(before.lints@), q, m);
                        lemma_contains_concat(lint_names(before.lints@), bevy_lint_names(), m);
                        lemma_contains_concat(group_names(before.groups@), bevy_group_names(), m);
                        lemma_contains_concat(bevy_lint_names(), bevy_group_names(), m);
                    }
                }
            }
            if r.is_err() {
                proof {
                    assert(!fresh_names(before, q));
                    assert forall|m: Seq<char>| #[trigger] taken(before, m) <==> (taken(s0, m) || prefix.contains(m)) by {}
                    lemma_fresh_concat(s0, before, prefix, q);
                    if fresh_names(s0, hook_steps(all)) {
                        lemma_steps_fresh_prefix(s0, all, i + 1);
                    }
                }
                return r;
            }
            proof {
                lemma_fresh_concat(s0, before, prefix, q);
                assert forall|m: Seq<char>| #[trigger] taken(*store, m) <==> (taken(s0, m) || (prefix + q).contains(m)) by {
                    lemma_contains_concat(prefix, q, m);
                    assert(taken(before, m) <==> (taken(s0, m) || prefix.contains(m)));
                }
                i = i + 1;
                assert(rest@ =~= all.subrange(i, all.len() as int));
                assert(lint_names(store.lints@) =~= lints0 + hook_lint_names(all.take(i)));
                assert(group_names(store.groups@) =~= groups0 + hook_group_names(all.take(i)));
                assert(dispatcher.passes@ =~= passes0 + hook_passes(all.take(i)));
            }
        }
        proof {
            assert(all.take(i) =~= all);
        }
        Ok(())
    }
}

} // verus!
