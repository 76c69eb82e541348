//! Lint levels, the lint catalog and its groups, and how level toggles expand.

use vstd::prelude::*;
use crate::text::str_eq;

verus! {

broadcast use vstd::std_specs::vec::group_vec_axioms, vstd::seq::group_seq_axioms;

/// How a lint's findings are treated, from mildest to strictest.
#[derive(Clone, Copy, Debug, PartialEq, Eq, Structural)]
pub enum Level {
    Allow,
    Warn,
    Deny,
    /// Like `Deny`, and no later setting can lower it.
    Forbid,
}

/// The level a configuration string names.
pub open spec fn level_from_spec(s: Seq<char>) -> Option<Level> {
    if s == "allow"@ {
        Some(Level::Allow)
    } else if s == "warn"@ {
        Some(Level::Warn)
    } else if s == "deny"@ {
        Some(Level::Deny)
    } else if s == "forbid"@ {
        Some(Level::Forbid)
    } else {
        None
    }
}

/// Parses `"allow"`, `"warn"`, `"deny"` or `"forbid"`; anything else is `None`.
pub fn level_from_str(s: &str) -> (r: Option<Level>)
    ensures
        r == level_from_spec(s@),
{
    if str_eq(s, "allow") {
        Some(Level::Allow)
    } else if str_eq(s, "warn") {
        Some(Level::Warn)
    } else if str_eq(s, "deny") {
        Some(Level::Deny)
    } else if str_eq(s, "forbid") {
        Some(Level::Forbid)
    } else {
        None
    }
}

/// The level a lint runs at: a configured level wins over the lint's default,
/// except that a lint forbidden by default stays forbidden.
pub fn effective_level(default: Level, configured: Option<Level>) -> (r: Level)
    ensures
        default == Level::Forbid ==> r == Level::Forbid,
        default != Level::Forbid ==> r == match configured {
            Some(l) => l,
            None => default,
        },
{
    if default == Level::Forbid {
        return Level::Forbid;
    }
    match configured {
        Some(l) => l,
        None => default,
    }
}

/// A lint: its qualified name (`bevy::<name>`), default level and description.
#[derive(Debug)]
pub struct Lint {
    pub name: String,
    pub default_level: Level,
    pub desc: String,
}

/// A named set of lints, toggled together.
#[derive(Debug)]
pub struct LintGroup {
    pub name: String,
    pub members: Vec<String>,
}

#[derive(Clone, Copy, Debug, PartialEq, Eq, Structural)]
pub enum RegistryError {
    /// A lint of that name is already registered.
    DuplicateLint,
    /// A group, or a lint, of that name is already registered.
    DuplicateGroup,
}

/// The lints and groups registered for a session, in registration order.
#[derive(Debug)]
pub struct LintStore {
    pub lints: Vec<Lint>,
    pub groups: Vec<LintGroup>,
}

pub open spec fn lint_names(lints: Seq<Lint>) -> Seq<Seq<char>> {
    lints.map_values(|l: Lint| l.name@)
}

pub open spec fn group_names(groups: Seq<LintGroup>) -> Seq<Seq<char>> {
    groups.map_values(|g: LintGroup| g.name@)
}

/// The members of the group named `name`, if there is one.
pub open spec fn group_members(groups: Seq<LintGroup>, name: Seq<char>) -> Option<Seq<Seq<char>>>
    decreases groups.len(),
{
    if groups.len() == 0 {
        None
    } else if groups.last().name@ == name {
        Some(groups.last().members.deep_view())
    } else {
        group_members(groups.drop_last(), name)
    }
}

/// The `(lint, level)` pairs that one toggle stands for.
pub open spec fn expand_one(lints: Seq<Lint>, groups: Seq<LintGroup>, toggle: (Seq<char>, Level)) -> Seq<(Seq<char>, Level)> {
    if lint_names(lints).contains(toggle.0) {
        seq![toggle]
    } else {
        match group_members(groups, toggle.0) {
            Some(ms) => ms.map_values(|m: Seq<char>| (m, toggle.1)),
            None => seq![],
        }
    }
}

/// The `(lint, level)` pairs of a list of toggles, in order.
pub open spec fn expand_spec(lints: Seq<Lint>, groups: Seq<LintGroup>, toggles: Seq<(Seq<char>, Level)>) -> Seq<(Seq<char>, Level)>
    decreases toggles.len(),
{
    if toggles.len() == 0 {
        seq![]
    } else {
        expand_spec(lints, groups, toggles.drop_last()) + expand_one(lints, groups, toggles.last())
    }
}

pub open spec fn pair_views(s: Seq<(String, Level)>) -> Seq<(Seq<char>, Level)> {
    s.map_values(|p: (String, Level)| (p.0@, p.1))
}

/// The level that the last pair naming `name` sets, if any pair does.
pub open spec fn last_level(pairs: Seq<(Seq<char>, Level)>, name: Seq<char>) -> Option<Level>
    decreases pairs.len(),
{
    if pairs.len() == 0 {
        None
    } else if pairs.last().0 == name {
        Some(pairs.last().1)
    } else {
        last_level(pairs.drop_last(), name)
    }
}

/// `m` names a registered lint or group.
pub open spec fn taken(store: LintStore, m: Seq<char>) -> bool {
    lint_names(store.lints@).contains(m) || group_names(store.groups@).contains(m)
}

/// `ns` are pairwise distinct and none is taken in `store`.
pub open spec fn fresh_names(store: LintStore, ns: Seq<Seq<char>>) -> bool {
    &&& forall|j: int| 0 <= j < ns.len() ==> !taken(store, ns[j])
    &&& forall|i: int, j: int| 0 <= i < j < ns.len() ==> ns[i] != ns[j]
}

pub proof fn lemma_contains_concat(a: Seq<Seq<char>>, b: Seq<Seq<char>>, m: Seq<char>)
    ensures
        (a + b).contains(m) <==> (a.contains(m) || b.contains(m)),
{
    if (a + b).contains(m) {
        let k = choose|k: int| 0 <= k < (a + b).len() && (a + b)[k] == m;
        if k < a.len() {
            assert(a[k] == m);
        } else {
            assert(b[k - a.len()] == m);
        }
    }
    if a.contains(m) {
        let k = choose|k: int| 0 <= k < a.len() && a[k] == m;
        assert((a + b)[k] == m);
    }
    if b.contains(m) {
        let k = choose|k: int| 0 <= k < b.len() && b[k] == m;
        assert((a + b)[a.len() + k] == m);
    }
}

/// Fresh names stay fresh when fewer are asked for.
pub proof fn lemma_fresh_prefix(store: LintStore, a: Seq<Seq<char>>, b: Seq<Seq<char>>)
    requires
        fresh_names(store, a + b),
    ensures
        fresh_names(store, a),
{
    assert forall|j: int| 0 <= j < a.len() implies !taken(store, a[j]) by {
        assert((a + b)[j] == a[j]);
    }
    assert forall|i: int, j: int| 0 <= i < j < a.len() implies a[i] != a[j] by {
        assert((a + b)[i] == a[i]);
        assert((a + b)[j] == a[j]);
    }
}

/// A name that is taken, or repeats an earlier one, spoils freshness.
pub proof fn lemma_not_fresh(store: LintStore, a: Seq<Seq<char>>, n: Seq<char>)
    requires
        taken(store, n) || a.contains(n),
    ensures
        !fresh_names(store, a.push(n)),
{
    assert(a.push(n)[a.len() as int] == n);
    if !taken(store, n) {
        let k = choose|k: int| 0 <= k < a.len() && a[k] == n;
        assert(a.push(n)[k] == n);
    }
}

/// Registering `p` into `s0` gave `s1`: freshness of `p + q` in `s0` splits into
/// freshness of `p` in `s0` and of `q` in `s1`.
pub proof fn lemma_fresh_concat(s0: LintStore, s1: LintStore, p: Seq<Seq<char>>, q: Seq<Seq<char>>)
    requires
        forall|m: Seq<char>| #[trigger] taken(s1, m) <==> (taken(s0, m) || p.contains(m)),
    ensures
        fresh_names(s0, p + q) <==> (fresh_names(s0, p) && fresh_names(s1, q)),
{
    let pq = p + q;
    if fresh_names(s0, pq) {
        lemma_fresh_prefix(s0, p, q);
        assert forall|j: int| 0 <= j < q.len() implies !taken(s1, q[j]) by {
            assert(pq[p.len() + j] == q[j]);
            if p.contains(q[j]) {
                let k = choose|k: int| 0 <= k < p.len() && p[k] == q[j];
                assert(pq[k] == q[j]);
            }
        }
        assert forall|i: int, j: int| 0 <= i < j < q.len() implies q[i] != q[j] by {
            assert(pq[p.len() + i] == q[i]);
            assert(pq[p.len() + j] == q[j]);
        }
    }
    if fresh_names(s0, p) && fresh_names(s1, q) {
        assert forall|j: int| 0 <= j < pq.len() implies !taken(s0, pq[j]) by {
            if j >= p.len() {
                assert(pq[j] == q[j - p.len()]);
                assert(!taken(s1, q[j - p.len()]));
            }
        }
        assert forall|i: int, j: int| 0 <= i < j < pq.len() implies pq[i] != pq[j] by {
            if i < p.len() && j >= p.len() {
                assert(pq[j] == q[j - p.len()]);
                assert(!taken(s1, q[j - p.len()]));
                assert(p[i] == pq[i]);
            } else if i >= p.len() {
                assert(pq[i] == q[i - p.len()]);
                assert(pq[j] == q[j - p.len()]);
            }
        }
    }
}

/// The last toggle that names a registered lint sets that lint's level, whatever
/// groups or earlier toggles said.
pub proof fn lemma_last_toggle_wins(lints: Seq<Lint>, groups: Seq<LintGroup>, toggles: Seq<(Seq<char>, Level)>)
    requires
        toggles.len() > 0,
        lint_names(lints).contains(toggles.last().0),
    ensures
        last_level(expand_spec(lints, groups, toggles), toggles.last().0) == Some(toggles.last().1),
{
    let x = expand_spec(lints, groups, toggles.drop_last());
    assert(expand_spec(lints, groups, toggles) == x + seq![toggles.last()]);
    assert((x + seq![toggles.last()]).last() == toggles.last());
}

impl LintStore {
    pub open spec fn wf(&self) -> bool {
        &&& forall|i: int, j: int|
            0 <= i < j < self.lints@.len() ==> self.lints@[i].name@ != self.lints@[j].name@
        &&& forall|i: int, j: int|
            0 <= i < j < self.groups@.len() ==> self.groups@[i].name@ != self.groups@[j].name@
        &&& forall|i: int| 0 <= i < self.groups@.len() ==> !lint_names(self.lints@).contains(self.groups@[i].name@)
    }

    pub fn new() -> (r: LintStore)
        ensures
            r.wf(),
            r.lints@.len() == 0,
            r.groups@.len() == 0,
    {
        LintStore { lints: Vec::new(), groups: Vec::new() }
    }

    /// Whether a lint named `name` is registered.
    pub fn has_lint(&self, name: &str) -> (r: bool)
        ensures
            r == lint_names(self.lints@).contains(name@),
    {
        let mut i: usize = 0;
        while i < self.lints.len()
            invariant
                0 <= i <= self.lints@.len(),
                forall|j: int| 0 <= j < i ==> self.lints@[j].name@ != name@,
            decreases self.lints.len() - i,
        {
            if str_eq(self.lints[i].name.as_str(), name) {
                proof {
                    assert(lint_names(self.lints@)[i as int] == name@);
                }
                return true;
            }
            i = i + 1;
        }
        proof {
            if lint_names(self.lints@).contains(name@) {
                let k = choose|k: int| 0 <= k < lint_names(self.lints@).len() && lint_names(self.lints@)[k] == name@;
                assert(self.lints@[k].name@ == name@);
            }
        }
        false
    }

    /// The members of the group named `name`, if there is one.
    pub fn find_group(&self, name: &str) -> (r: Option<&Vec<String>>)
        ensures
            match r {
                Some(ms) => group_members(self.groups@, name@) == Some(ms.deep_view()),
                None => group_members(self.groups@, name@) is None,
            },
    {
        let mut i: usize = self.groups.len();
        proof {
            assert(self.groups@.take(i as int) =~= self.groups@);
        }
        while i > 0
            invariant
                0 <= i <= self.groups@.len(),
                group_members(self.groups@, name@) == group_members(self.groups@.take(i as int), name@),
            decreases i,
        {
            let ghost pre = self.groups@.take(i as int);
            proof {
                assert(pre.drop_last() =~= self.groups@.take(i - 1));
                assert(pre.last() == self.groups@[i - 1]);
            }
            if str_eq(self.groups[i - 1].name.as_str(), name) {
                return Some(&self.groups[i - 1].members);
            }
            i = i - 1;
        }
        None
    }

    /// Registers a lint. A name that is already taken is refused.
    pub fn register_lint(&mut self, lint: Lint) -> (r: Result<(), RegistryError>)
        requires
            old(self).wf(),
        ensures
            final(self).wf(),
            r is Err <==> (lint_names(old(self).lints@).contains(lint.name@) || group_names(
                old(self).groups@,
            ).contains(lint.name@)),
            r is Err ==> r == Err::<(), RegistryError>(RegistryError::DuplicateLint) && *final(self) == *old(self),
            r is Ok ==> final(self).lints@ == old(self).lints@.push(lint) && final(self).groups@ == old(self).groups@,
    {
        if self.has_lint(lint.name.as_str()) || self.has_group(lint.name.as_str()) {
            return Err(RegistryError::DuplicateLint);
        }
        let ghost old_lints = self.lints@;
        self.lints.push(lint);
        proof {
            assert(lint_names(self.lints@) =~= lint_names(old_lints).push(lint.name@));
            assert forall|i: int| 0 <= i < self.groups@.len() implies !lint_names(self.lints@).contains(
                self.groups@[i].name@,
            ) by {
                assert(group_names(self.groups@)[i] == self.groups@[i].name@);
                assert(!lint_names(old_lints).contains(self.groups@[i].name@));
            }
            assert forall|i: int, j: int|
                0 <= i < j < self.lints@.len() implies self.lints@[i].name@ != self.lints@[j].name@ by {
                if j == self.lints@.len() - 1 {
                    assert(lint_names(old_lints)[i] == self.lints@[i].name@);
                }
            }
        }
        Ok(())
    }

    /// Whether a group named `name` is registered.
    pub fn has_group(&self, name: &str) -> (r: bool)
        ensures
            r == group_names(self.groups@).contains(name@),
    {
        let mut i: usize = 0;
        while i < self.groups.len()
            invariant
                0 <= i <= self.groups@.len(),
                forall|j: int| 0 <= j < i ==> self.groups@[j].name@ != name@,
            decreases self.groups.len() - i,
        {
            if str_eq(self.groups[i].name.as_str(), name) {
                proof {
                    assert(group_names(self.groups@)[i as int] == name@);
                }
                return true;
            }
            i = i + 1;
        }
        proof {
            if group_names(self.groups@).contains(name@) {
                let k = choose|k: int| 0 <= k < group_names(self.groups@).len() && group_names(self.groups@)[k] == name@;
                assert(self.groups@[k].name@ == name@);
            }
        }
        false
    }

    /// Registers a group of lints. A name that a lint or a group already has is refused.
    pub fn register_group(&mut self, group: LintGroup) -> (r: Result<(), RegistryError>)
        requires
            old(self).wf(),
        ensures
            final(self).wf(),
            r is Err <==> (lint_names(old(self).lints@).contains(group.name@) || group_names(
                old(self).groups@,
            ).contains(group.name@)),
            r is Err ==> r == Err::<(), RegistryError>(RegistryError::DuplicateGroup) && *final(self) == *old(self),
            r is Ok ==> final(self).groups@ == old(self).groups@.push(group) && final(self).lints@ == old(self).lints@,
    {
        if self.has_lint(group.name.as_str()) || self.has_group(group.name.as_str()) {
            return Err(RegistryError::DuplicateGroup);
        }
        let ghost old_groups = self.groups@;
        self.groups.push(group);
        proof {
            assert forall|i: int, j: int|
                0 <= i < j < self.groups@.len() implies self.groups@[i].name@ != self.groups@[j].name@ by {
                if j == self.groups@.len() - 1 {
                    assert(group_names(old_groups)[i] == self.groups@[i].name@);
                }
            }
        }
        Ok(())
    }

    /// Expands `(lint or group, level)` toggles into `(lint, level)` pairs, in order:
    /// a lint stands for itself, a group for each of its members, an unknown name for
    /// nothing. A later pair overrides an earlier one for the same lint.
    pub fn expand(&self, toggles: &Vec<(String, Level)>) -> (r: Vec<(String, Level)>)
        ensures
            pair_views(r@) == expand_spec(self.lints@, self.groups@, pair_views(toggles@)),
    {
        let mut out: Vec<(String, Level)> = Vec::new();
        let mut i: usize = 0;
        while i < toggles.len()
            invariant
                0 <= i <= toggles@.len(),
                pair_views(out@) == expand_spec(self.lints@, self.groups@, pair_views(toggles@).take(i as int)),
            decreases toggles.len() - i,
        {
            let ghost before = pair_views(out@);
            let ghost t = pair_views(toggles@)[i as int];
            proof {
                assert(pair_views(toggles@).take(i as int + 1).drop_last() =~= pair_views(toggles@).take(i as int));
            }
            let name = &toggles[i].0;
            let level = toggles[i].1;
            if self.has_lint(name.as_str()) {
                out.push((name.clone(), level));
                proof {
                    assert(pair_views(out@) =~= before + seq![t]);
                }
            } else {
                match self.find_group(name.as_str()) {
                    Some(members) => {
                        let mut j: usize = 0;
                        while j < members.len()
                            invariant
                                0 <= j <= members@.len(),
                                pair_views(out@) == before + members.deep_view().take(j as int).map_values(
                                    |m: Seq<char>| (m, level),
                                ),
                            decreases members.len() - j,
                        {
                            let ghost prev = out@;
                            out.push((members[j].clone(), level));
                            proof {
                                let f = |m: Seq<char>| (m, level);
                                assert(pair_views(out@) =~= pair_views(prev).push((members@[j as int]@, level)));
                                assert(members.deep_view()[j as int] == members@[j as int]@);
                                assert(members.deep_view().take(j + 1).map_values(f) =~= members.deep_view().take(
                                    j as int,
                                ).map_values(f).push((members.deep_view()[j as int], level)));
                            }
                            j = j + 1;
                        }
                        proof {
                            assert(members.deep_view().take(j as int) =~= members.deep_view());
                        }
                    },
                    None => {
                        proof {
                            assert(pair_views(out@) =~= before + seq![]);
                        }
                    },
                }
            }
            i = i + 1;
        }
        proof {
            assert(pair_views(toggles@).take(i as int) =~= pair_views(toggles@));
        }
        out
    }
}

impl LintStore {
    /// The level `lint` runs at under the `(lint or group, level)` toggles `opts`:
    /// the last toggle that reaches it, over its default, unless it is forbidden by default.
    pub fn resolved_level(&self, lint: &Lint, opts: &Vec<(String, Level)>) -> (r: Level)
        ensures
            lint.default_level == Level::Forbid ==> r == Level::Forbid,
            lint.default_level != Level::Forbid ==> r == match last_level(
                expand_spec(self.lints@, self.groups@, pair_views(opts@)),
                lint.name@,
            ) {
                Some(l) => l,
                None => lint.default_level,
            },
    {
        let pairs = self.expand(opts);
        let configured = find_last_level(&pairs, lint.name.as_str());
        effective_level(lint.default_level, configured)
    }
}

/// The level that the last pair naming `name` sets, if any does.
pub fn find_last_level(pairs: &Vec<(String, Level)>, name: &str) -> (r: Option<Level>)
    ensures
        r == last_level(pair_views(pairs@), name@),
{
    let mut i: usize = pairs.len();
    proof {
        assert(pair_views(pairs@).take(i as int) =~= pair_views(pairs@));
    }
    while i > 0
        invariant
            0 <= i <= pairs@.len(),
            last_level(pair_views(pairs@), name@) == last_level(pair_views(pairs@).take(i as int), name@),
        decreases i,
    {
        proof {
            assert(pair_views(pairs@).take(i as int).drop_last() =~= pair_views(pairs@).take(i - 1));
        }
        if str_eq(pairs[i - 1].0.as_str(), name) {
            return Some(pairs[i - 1].1);
        }
        i = i - 1;
    }
    None
}

} // verus!
