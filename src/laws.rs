use vstd::prelude::*;
use crate::config::{ConfigView, scope_of, added, removed, parts_view, TomlConfig};
use crate::table::{Table, keys_unique, entries_map, lemma_pairs_map_unique};

verus! {

/// After `alias` is added with `command` to a scope, that scope exists and
/// binds `alias` to exactly `command`, so `show` reports `command`.
pub proof fn add_then_show(v: ConfigView, alias: Seq<char>, command: Seq<char>, group: Option<Seq<char>>)
    ensures
        scope_of(added(v, alias, command, group), group) matches Some(m)
            && m.contains_key(alias) && m[alias] == command,
{
}

/// Adding the same alias twice in one scope leaves only the second command:
/// the result is as if only the second add had happened.
pub proof fn add_overwrites(v: ConfigView, alias: Seq<char>, c1: Seq<char>, c2: Seq<char>, group: Option<Seq<char>>)
    ensures
        added(added(v, alias, c1, group), alias, c2, group) == added(v, alias, c2, group),
{
    match group {
        None => {
            assert(v.0.insert(alias, c1).insert(alias, c2) =~= v.0.insert(alias, c2));
        },
        Some(g) => {
            let groups = match v.1 {
                Some(groups) => groups,
                None => Map::empty(),
            };
            let scope = if groups.contains_key(g) { groups[g] } else { Map::<Seq<char>, Seq<char>>::empty() };
            let w = added(v, alias, c1, group);
            assert(w.1 == Some(groups.insert(g, scope.insert(alias, c1))));
            assert(scope.insert(alias, c1).insert(alias, c2) =~= scope.insert(alias, c2));
            assert(groups.insert(g, scope.insert(alias, c1)).insert(g, scope.insert(alias, c2))
                =~= groups.insert(g, scope.insert(alias, c2)));
        },
    }
}

/// Removing an alias just added to a scope leaves that scope without it, so
/// `show` and `execute` report that the alias is not found.
pub proof fn add_then_remove(v: ConfigView, alias: Seq<char>, command: Seq<char>, group: Option<Seq<char>>)
    ensures
        scope_of(removed(added(v, alias, command, group), alias, group), group) matches Some(m)
            && !m.contains_key(alias),
{
}

/// Adding to a named group changes neither the general scope nor any other
/// group: what each of them holds, and whether it exists, stays as it was.
pub proof fn groups_isolated(v: ConfigView, alias: Seq<char>, command: Seq<char>, x: Seq<char>, y: Seq<char>)
    requires
        x != y,
    ensures
        scope_of(added(v, alias, command, Some(x)), None) == scope_of(v, None),
        scope_of(added(v, alias, command, Some(x)), Some(y)) == scope_of(v, Some(y)),
{
}

/// A group that was never created is not found, and an empty general scope
/// holds no alias.
pub proof fn missing_group_and_empty_general(v: ConfigView, g: Seq<char>)
    ensures
        (v.1 matches Some(groups) ==> !groups.contains_key(g)) ==> scope_of(v, Some(g)).is_none(),
        v.0.len() == 0 ==> (scope_of(v, None) matches Some(m) && m.len() == 0),
{
}

/// Taking a configuration apart for writing and building it again from the
/// parts gives back the same configuration.
pub proof fn parts_round_trip(c: TomlConfig, general: Seq<(String, String)>, group: Option<Vec<(String, Table<String>)>>)
    requires
        keys_unique(general),
        entries_map(general) == c@.0,
        match group {
            Some(g) => keys_unique(g@) && c@.1 == Some(entries_map(g@)),
            None => c@.1.is_none(),
        },
    ensures
        parts_view(general, group) == c@,
{
    lemma_pairs_map_unique(general);
    if let Some(g) = group {
        lemma_pairs_map_unique(g@);
    }
}

} // verus!
