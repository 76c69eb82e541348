//! Per-lint configuration read from the project manifest, under
//! `[package.metadata.bevy_lint]`.
//!
//! Each key there is a lint name. Its value is either a level string, or a
//! table with an optional `level` key and any further lint-specific parameters.

use vstd::prelude::*;
use crate::registry::{level_from_spec, level_from_str, pair_views, Level};
use crate::text::str_eq;

verus! {

broadcast use vstd::std_specs::vec::group_vec_axioms, vstd::seq::group_seq_axioms;

/// A value of the manifest, as much of it as the configuration reads.
#[derive(Debug)]
pub enum ManifestValue {
    Str(String),
    Int(i64),
    Bool(bool),
    /// A table or inline table: its keys and values in document order.
    Table(Vec<(String, ManifestValue)>),
    /// An array, a date, a float, ...
    Other,
}

/// The value under `key`, where the first entry with that key stands.
pub open spec fn table_get(entries: Seq<(String, ManifestValue)>, key: Seq<char>) -> Option<ManifestValue>
    decreases entries.len(),
{
    if entries.len() == 0 {
        None
    } else if entries[0].0@ == key {
        Some(entries[0].1)
    } else {
        table_get(entries.drop_first(), key)
    }
}

pub open spec fn as_table(v: Option<ManifestValue>) -> Option<Seq<(String, ManifestValue)>> {
    match v {
        Some(ManifestValue::Table(t)) => Some(t@),
        _ => None,
    }
}

/// The entries under `package.metadata.bevy_lint`, where that is a table.
pub open spec fn linter_section_spec(manifest: ManifestValue) -> Option<Seq<(String, ManifestValue)>> {
    match manifest {
        ManifestValue::Table(root) => match as_table(table_get(root@, "package"@)) {
            Some(package) => match as_table(table_get(package, "metadata"@)) {
                Some(metadata) => as_table(table_get(metadata, "bevy_lint"@)),
                None => None,
            },
            None => None,
        },
        _ => None,
    }
}

/// The level that one configuration entry sets, if it sets a recognised one.
pub open spec fn entry_level(v: ManifestValue) -> Option<Level> {
    match v {
        ManifestValue::Str(s) => level_from_spec(s@),
        ManifestValue::Table(t) => match table_get(t@, "level"@) {
            Some(ManifestValue::Str(s)) => level_from_spec(s@),
            _ => None,
        },
        _ => None,
    }
}

/// The `--<level> bevy::<lint>` options that a section asks for, in order.
pub open spec fn lint_opts_spec(section: Seq<(String, ManifestValue)>) -> Seq<(Seq<char>, Level)>
    decreases section.len(),
{
    if section.len() == 0 {
        seq![]
    } else {
        lint_opts_spec(section.drop_last()) + match entry_level(section.last().1) {
            Some(l) => seq![("bevy::"@ + section.last().0@, l)],
            None => seq![],
        }
    }
}

/// The last entry of a section, when it sets a level (`"deny"`, or a table with
/// `level = "deny"`), gives the last option for its lint: that level.
pub proof fn lemma_last_entry_sets_level(section: Seq<(String, ManifestValue)>, l: Level)
    requires
        section.len() > 0,
        entry_level(section.last().1) == Some(l),
    ensures
        lint_opts_spec(section).last() == ("bevy::"@ + section.last().0@, l),
{
    let x = lint_opts_spec(section.drop_last());
    assert(lint_opts_spec(section) == x + seq![("bevy::"@ + section.last().0@, l)]);
}

/// A table without its entries under `key`.
pub open spec fn without_key(entries: Seq<(String, ManifestValue)>, key: Seq<char>) -> Seq<(String, ManifestValue)>
    decreases entries.len(),
{
    if entries.len() == 0 {
        seq![]
    } else {
        without_key(entries.drop_last(), key) + if entries.last().0@ == key {
            seq![]
        } else {
            seq![entries.last()]
        }
    }
}

/// The lint parameters that a section holds: for each entry that is a table,
/// the table without `level`, where anything is left.
pub open spec fn params_spec(section: Seq<(String, ManifestValue)>) -> Seq<(String, Seq<(String, ManifestValue)>)>
    decreases section.len(),
{
    if section.len() == 0 {
        seq![]
    } else {
        params_spec(section.drop_last()) + match section.last().1 {
            ManifestValue::Table(t) => if without_key(t@, "level"@).len() > 0 {
                seq![(section.last().0, without_key(t@, "level"@))]
            } else {
                seq![]
            },
            _ => seq![],
        }
    }
}

/// The parameters that a load leaves.
pub open spec fn load_params_spec(invoked_from_cargo: bool, manifest: Option<ManifestValue>) -> Seq<(String, Seq<(String, ManifestValue)>)> {
    if !invoked_from_cargo {
        seq![]
    } else {
        match manifest {
            None => seq![],
            Some(m) => match linter_section_spec(m) {
                None => seq![],
                Some(section) => params_spec(section),
            },
        }
    }
}

/// The lint options that a load adds.
pub open spec fn load_opts_spec(invoked_from_cargo: bool, manifest: Option<ManifestValue>) -> Seq<(Seq<char>, Level)> {
    if !invoked_from_cargo {
        seq![]
    } else {
        match manifest {
            None => seq![],
            Some(m) => match linter_section_spec(m) {
                None => seq![],
                Some(section) => lint_opts_spec(section),
            },
        }
    }
}

/// The parameters of `name`, or an empty table where it has none.
pub open spec fn params_for(entries: Seq<(String, Seq<(String, ManifestValue)>)>, name: Seq<char>) -> Seq<(String, ManifestValue)>
    decreases entries.len(),
{
    if entries.len() == 0 {
        seq![]
    } else if entries[0].0@ == name {
        entries[0].1
    } else {
        params_for(entries.drop_first(), name)
    }
}

/// The configuration of the crate being compiled: lint parameters by lint name.
/// It is replaced whole at the start of every session.
#[derive(Debug)]
pub struct LintConfig {
    pub entries: Vec<(String, Vec<(String, ManifestValue)>)>,
}

impl LintConfig {
    pub open spec fn view_entries(&self) -> Seq<(String, Seq<(String, ManifestValue)>)> {
        self.entries@.map_values(|e: (String, Vec<(String, ManifestValue)>)| (e.0, e.1@))
    }

    pub fn new() -> (r: LintConfig)
        ensures
            r.view_entries().len() == 0,
    {
        LintConfig { entries: Vec::new() }
    }

    /// The parameters configured for `name`.
    pub fn get(&self, name: &str) -> (r: Option<&Vec<(String, ManifestValue)>>)
        ensures
            match r {
                Some(t) => t@ == params_for(self.view_entries(), name@),
                None => params_for(self.view_entries(), name@).len() == 0,
            },
    {
        let ghost v = self.view_entries();
        let mut i: usize = 0;
        proof {
            assert(v.subrange(0, v.len() as int) =~= v);
        }
        while i < self.entries.len()
            invariant
                0 <= i <= self.entries@.len(),
                v == self.view_entries(),
                params_for(v, name@) == params_for(v.subrange(i as int, v.len() as int), name@),
            decreases self.entries.len() - i,
        {
            proof {
                assert(v.subrange(i as int, v.len() as int).drop_first() =~= v.subrange(i + 1, v.len() as int));
            }
            if str_eq(self.entries[i].0.as_str(), name) {
                return Some(&self.entries[i].1);
            }
            i = i + 1;
        }
        None
    }

    /// Runs `func` on the parameters configured for `name`, or on an empty table
    /// where there are none, and returns what it returns.
    pub fn with_config<F, R>(&self, name: &str, func: F) -> (r: R)
        where
            F: FnOnce(&Vec<(String, ManifestValue)>) -> R,
        requires
            forall|t: &Vec<(String, ManifestValue)>| func.requires((t,)),
        ensures
            exists|t: &Vec<(String, ManifestValue)>|
                t@ == params_for(self.view_entries(), name@) && func.ensures((t,), r),
    {
        match self.get(name) {
            Some(config) => func(config),
            None => {
                let empty: Vec<(String, ManifestValue)> = Vec::new();
                proof {
                    assert(empty@ =~= params_for(self.view_entries(), name@));
                }
                func(&empty)
            },
        }
    }
}

/// The value under `key`, taken out of the table.
fn take_key(entries: Vec<(String, ManifestValue)>, key: &str) -> (r: Option<ManifestValue>)
    ensures
        r == table_get(entries@, key@),
{
    let mut rest = entries;
    let ghost all = rest@;
    let mut i: usize = 0;
    proof {
        assert(all.subrange(0, all.len() as int) =~= all);
    }
    while i < rest.len()
        invariant
            rest@ == all,
            all == entries@,
            0 <= i <= all.len(),
            table_get(all, key@) == table_get(all.subrange(i as int, all.len() as int), key@),
        decreases rest.len() - i,
    {
        proof {
            assert(all.subrange(i as int, all.len() as int).drop_first() =~= all.subrange(i + 1, all.len() as int));
        }
        if str_eq(rest[i].0.as_str(), key) {
            proof {
                let sub = all.subrange(i as int, all.len() as int);
                assert(sub.len() > 0);
                assert(sub[0] == all[i as int]);
                assert(sub[0].0@ == key@);
                assert(table_get(sub, key@) == Some(all[i as int].1));
            }
            let (_, v) = rest.remove(i);
            proof {
                assert(v == all[i as int].1);
                assert(table_get(all, key@) == Some(v));
            }
            return Some(v);
        }
        i = i + 1;
    }
    None
}

fn into_table(v: Option<ManifestValue>) -> (r: Option<Vec<(String, ManifestValue)>>)
    ensures
        match r {
            Some(t) => as_table(v) == Some(t@),
            None => as_table(v) is None,
        },
{
    match v {
        Some(ManifestValue::Table(t)) => Some(t),
        _ => None,
    }
}

/// The entries under `package.metadata.bevy_lint`, where that is a table.
pub fn linter_section(manifest: ManifestValue) -> (r: Option<Vec<(String, ManifestValue)>>)
    ensures
        match r {
            Some(t) => linter_section_spec(manifest) == Some(t@),
            None => linter_section_spec(manifest) is None,
        },
{
    match manifest {
        ManifestValue::Table(root) => {
            let package = into_table(take_key(root, "package"));
            match package {
                Some(package) => {
                    let metadata = into_table(take_key(package, "metadata"));
                    match metadata {
                        Some(metadata) => into_table(take_key(metadata, "bevy_lint")),
                        None => None,
                    }
                },
                None => None,
            }
        },
        _ => None,
    }
}

/// The level that one configuration entry sets, if it sets a recognised one.
pub fn entry_level_of(v: &ManifestValue) -> (r: Option<Level>)
    ensures
        r == entry_level(*v),
{
    match v {
        ManifestValue::Str(s) => level_from_str(s.as_str()),
        ManifestValue::Table(t) => {
            let ghost all = t@;
            let mut i: usize = 0;
            proof {
                assert(all.subrange(0, all.len() as int) =~= all);
            }
            while i < t.len()
                invariant
                    all == t@,
                    *v == ManifestValue::Table(*t),
                    0 <= i <= all.len(),
                    table_get(all, "level"@) == table_get(all.subrange(i as int, all.len() as int), "level"@),
                decreases t.len() - i,
            {
                proof {
                    assert(all.subrange(i as int, all.len() as int).drop_first() =~= all.subrange(i + 1, all.len() as int));
                }
                if str_eq(t[i].0.as_str(), "level") {
                    proof {
                        let sub = all.subrange(i as int, all.len() as int);
                        assert(sub.len() > 0);
                        assert(sub[0] == all[i as int]);
                        assert(sub[0].0@ == "level"@);
                        assert(table_get(sub, "level"@) == Some(all[i as int].1));
                    }
                    let r = match &t[i].1 {
                        ManifestValue::Str(s) => level_from_str(s.as_str()),
                        _ => None,
                    };
                    proof {
                        assert(table_get(t@, "level"@) == Some(t@[i as int].1));
                    }
                    return r;
                }
                i = i + 1;
            }
            None
        },
        _ => None,
    }
}

/// Adds `--<level> bevy::<lint>` to `lint_opts` for every entry of the section
/// that sets a recognised level; other entries are passed over.
pub fn append_lint_levels_to_options(lint_opts: &mut Vec<(String, Level)>, linter_config: &Vec<(String, ManifestValue)>)
    ensures
        pair_views(final(lint_opts)@) == pair_views(old(lint_opts)@) + lint_opts_spec(linter_config@),
{
    let ghost start = pair_views(lint_opts@);
    let mut i: usize = 0;
    while i < linter_config.len()
        invariant
            0 <= i <= linter_config@.len(),
            pair_views(lint_opts@) == start + lint_opts_spec(linter_config@.take(i as int)),
        decreases linter_config.len() - i,
    {
        proof {
            assert(linter_config@.take(i + 1).drop_last() =~= linter_config@.take(i as int));
        }
        let ghost before = lint_opts@;
        if let Some(level) = entry_level_of(&linter_config[i].1) {
            let mut name = String::from_str("bevy::");
            name.append(linter_config[i].0.as_str());
            lint_opts.push((name, level));
            proof {
                assert(pair_views(lint_opts@) =~= pair_views(before).push((name@, level)));
            }
        }
        i = i + 1;
        proof {
            assert(pair_views(lint_opts@) =~= start + lint_opts_spec(linter_config@.take(i as int)));
        }
    }
    proof {
        assert(linter_config@.take(i as int) =~= linter_config@);
    }
}

/// A table without its `key` entries, order kept.
fn remove_key(entries: Vec<(String, ManifestValue)>, key: &str) -> (r: Vec<(String, ManifestValue)>)
    ensures
        r@ == without_key(entries@, key@),
{
    let mut rest = entries;
    let ghost all = rest@;
    let mut out: Vec<(String, ManifestValue)> = Vec::new();
    let ghost mut i: int = 0;
    while rest.len() > 0
        invariant
            0 <= i <= all.len(),
            rest@ == all.subrange(i, all.len() as int),
            out@ == without_key(all.take(i), key@),
        decreases rest.len(),
    {
        proof {
            assert(all.take(i + 1).drop_last() =~= all.take(i));
            assert(all.take(i + 1).last() == rest@[0]);
        }
        let e = rest.remove(0);
        if !str_eq(e.0.as_str(), key) {
            out.push(e);
        }
        proof {
            i = i + 1;
            assert(rest@ =~= all.subrange(i, all.len() as int));
        }
    }
    proof {
        assert(all.take(i) =~= all);
    }
    out
}

/// Keeps, for each entry that is a table, the table without `level` where anything is left.
fn collect_params(section: Vec<(String, ManifestValue)>) -> (r: Vec<(String, Vec<(String, ManifestValue)>)>)
    ensures
        r@.map_values(|e: (String, Vec<(String, ManifestValue)>)| (e.0, e.1@)) == params_spec(section@),
{
    let mut rest = section;
    let ghost all = rest@;
    let mut out: Vec<(String, Vec<(String, ManifestValue)>)> = Vec::new();
    let ghost mut i: int = 0;
    while rest.len() > 0
        invariant
            0 <= i <= all.len(),
            rest@ == all.subrange(i, all.len() as int),
            out@.map_values(|e: (String, Vec<(String, ManifestValue)>)| (e.0, e.1@)) == params_spec(all.take(i)),
        decreases rest.len(),
    {
        proof {
            assert(all.take(i + 1).drop_last() =~= all.take(i));
            assert(all.take(i + 1).last() == rest@[0]);
        }
        let ghost before = out@;
        let (k, v) = rest.remove(0);
        if let ManifestValue::Table(t) = v {
            let extra = remove_key(t, "level");
            if extra.len() > 0 {
                out.push((k, extra));
                proof {
                    assert(out@.map_values(|e: (String, Vec<(String, ManifestValue)>)| (e.0, e.1@)) =~= before.map_values(
                        |e: (String, Vec<(String, ManifestValue)>)| (e.0, e.1@),
                    ).push((k, extra@)));
                }
            }
        }
        proof {
            i = i + 1;
            assert(rest@ =~= all.subrange(i, all.len() as int));
        }
    }
    proof {
        assert(all.take(i) =~= all);
    }
    out
}

/// Loads the configuration for a new session. The previous configuration is
/// dropped whatever happens; outside Cargo, without a manifest, or without a
/// `bevy_lint` table in it, the configuration stays empty. Levels found are
/// added to `lint_opts`.
pub fn load_config(
    lint_config: &mut LintConfig,
    lint_opts: &mut Vec<(String, Level)>,
    invoked_from_cargo: bool,
    manifest: Option<ManifestValue>,
)
    ensures
        final(lint_config).view_entries() == load_params_spec(invoked_from_cargo, manifest),
        pair_views(final(lint_opts)@) == pair_views(old(lint_opts)@) + load_opts_spec(invoked_from_cargo, manifest),
{
    lint_config.entries = Vec::new();
    proof {
        assert(lint_config.view_entries() =~= seq![]);
        assert(pair_views(lint_opts@) =~= pair_views(lint_opts@) + seq![]);
    }
    if !invoked_from_cargo {
        return;
    }
    let manifest = match manifest {
        Some(m) => m,
        None => {
            return;
        },
    };
    let linter_config = match linter_section(manifest) {
        Some(section) => section,
        None => {
            return;
        },
    };
    append_lint_levels_to_options(lint_opts, &linter_config);
    lint_config.entries = collect_params(linter_config);
}

/// A manifest without a `bevy_lint` table leaves the configuration empty and sets
/// no level, whatever the configuration held before the load.
pub proof fn lemma_load_without_section(invoked_from_cargo: bool, manifest: Option<ManifestValue>)
    ensures
        (manifest matches Some(m) && linter_section_spec(m) is None) ==> load_params_spec(
            invoked_from_cargo,
            manifest,
        ).len() == 0 && load_opts_spec(invoked_from_cargo, manifest).len() == 0,
{
}

/// Without a manifest every lint sees an empty table and no level is set.
pub proof fn lemma_no_manifest_is_empty(invoked_from_cargo: bool, name: Seq<char>)
    ensures
        params_for(load_params_spec(invoked_from_cargo, None), name).len() == 0,
        load_opts_spec(invoked_from_cargo, None).len() == 0,
{
}

} // verus!
