use vstd::prelude::*;
use crate::table::{Table, keys_unique, entries_map, pairs_map};

verus! {

/// The aliases of one scope: alias name to command text.
pub type ScopeView = Map<Seq<char>, Seq<char>>;

/// The whole configuration as mathematics: the general scope, and the named
/// groups once the first grouped alias was added.
pub type ConfigView = (ScopeView, Option<Map<Seq<char>, ScopeView>>);

/// The scope that a group name selects: `None` is the general scope, which
/// always exists; a named group exists only once it was created.
pub open spec fn scope_of(v: ConfigView, group: Option<Seq<char>>) -> Option<ScopeView> {
    match group {
        None => Some(v.0),
        Some(g) => match v.1 {
            Some(groups) => if groups.contains_key(g) { Some(groups[g]) } else { None },
            None => None,
        },
    }
}

/// The configuration after binding `alias` to `command` in the selected scope,
/// creating the group table and the group as needed.
pub open spec fn added(v: ConfigView, alias: Seq<char>, command: Seq<char>, group: Option<Seq<char>>) -> ConfigView {
    match group {
        None => (v.0.insert(alias, command), v.1),
        Some(g) => {
            let groups = match v.1 {
                Some(groups) => groups,
                None => Map::empty(),
            };
            let scope = if groups.contains_key(g) { groups[g] } else { Map::empty() };
            (v.0, Some(groups.insert(g, scope.insert(alias, command))))
        },
    }
}

/// The configuration after unbinding `alias` in the selected scope; a group
/// that becomes empty stays.
pub open spec fn removed(v: ConfigView, alias: Seq<char>, group: Option<Seq<char>>) -> ConfigView {
    match group {
        None => (v.0.remove(alias), v.1),
        Some(g) => match v.1 {
            Some(groups) => if groups.contains_key(g) {
                (v.0, Some(groups.insert(g, groups[g].remove(alias))))
            } else {
                v
            },
            None => v,
        },
    }
}

/// The view of an optional string argument.
pub open spec fn opt_view(s: Option<&str>) -> Option<Seq<char>> {
    match s {
        Some(x) => Some(x@),
        None => None,
    }
}

/// What an operation of the store reports back to its caller.
pub enum Report {
    /// The operation was carried out.
    Done,
    /// The selected scope has no such alias.
    AliasNotFound,
    /// No group of that name exists.
    GroupNotFound,
    /// The selected scope holds no alias.
    NoAliases,
    /// Every (alias, command) pair of the selected scope.
    Listing(Vec<(String, String)>),
    /// An alias and its command.
    Shown(String, String),
    /// The command to hand to the shell.
    Run(String),
}

/// What `remove` reports and leaves behind, from `v` to `w`.
pub open spec fn remove_post(v: ConfigView, w: ConfigView, alias: Seq<char>, group: Option<Seq<char>>, r: Report) -> bool {
    match scope_of(v, group) {
        None => r is GroupNotFound && w == v,
        Some(m) => if m.contains_key(alias) {
            r is Done && w == removed(v, alias, group)
        } else {
            r is AliasNotFound && w == v
        },
    }
}

/// What `list` reports on `v`.
pub open spec fn list_post(v: ConfigView, group: Option<Seq<char>>, r: Report) -> bool {
    match scope_of(v, group) {
        None => r is GroupNotFound,
        Some(m) => if m.len() == 0 {
            r is NoAliases
        } else {
            r matches Report::Listing(p) && keys_unique(p@) && entries_map(p@) == m
        },
    }
}

/// What `show` reports on `v`.
pub open spec fn show_post(v: ConfigView, alias: Seq<char>, group: Option<Seq<char>>, r: Report) -> bool {
    match scope_of(v, group) {
        None => r is GroupNotFound,
        Some(m) => if m.contains_key(alias) {
            r matches Report::Shown(a, c) && a@ == alias && c@ == m[alias]
        } else {
            r is AliasNotFound
        },
    }
}

/// What `execute` reports on `v`.
pub open spec fn execute_post(v: ConfigView, alias: Seq<char>, group: Option<Seq<char>>, r: Report) -> bool {
    match scope_of(v, group) {
        None => r is GroupNotFound,
        Some(m) => if m.contains_key(alias) {
            r matches Report::Run(c) && c@ == m[alias]
        } else {
            r is AliasNotFound
        },
    }
}

/// The configuration that `from_parts` builds from a general list and a list
/// of groups.
pub open spec fn parts_view(general: Seq<(String, String)>, group: Option<Vec<(String, Table<String>)>>) -> ConfigView {
    (
        pairs_map(general),
        match group {
            Some(g) => Some(pairs_map(g@)),
            None => None,
        },
    )
}

/// The aliases of the configuration file.
pub struct AliasConfig {
    general: Table<String>,
    group: Option<Table<Table<String>>>,
}

/// The configuration held in memory between loading and saving.
pub struct TomlConfig {
    alias: AliasConfig,
}

impl View for TomlConfig {
    type V = ConfigView;

    closed spec fn view(&self) -> ConfigView {
        (
            self.alias.general@,
            match self.alias.group {
                Some(t) => Some(t@),
                None => None,
            },
        )
    }
}

impl TomlConfig {
    /// The general scope.
    pub fn general(&self) -> (r: &Table<String>)
        ensures
            r@ == self@.0,
    {
        &self.alias.general
    }

    /// The table of groups, absent until the first grouped alias was added.
    pub fn groups(&self) -> (r: &Option<Table<Table<String>>>)
        ensures
            match r {
                Some(t) => self@.1 == Some(t@),
                None => self@.1.is_none(),
            },
    {
        &self.alias.group
    }

    /// The scope that `group_name` selects, if it exists.
    pub fn get_group(&self, group_name: Option<&str>) -> (r: Option<&Table<String>>)
        ensures
            match r {
                Some(t) => scope_of(self@, opt_view(group_name)) == Some(t@),
                None => scope_of(self@, opt_view(group_name)).is_none(),
            },
    {
        match group_name {
            Some(g) => match &self.alias.group {
                Some(groups) => groups.get(&g.to_owned()),
                None => None,
            },
            None => Some(&self.alias.general),
        }
    }

    /// Whether the selected scope exists and binds `alias`.
    pub fn contains(&self, alias: &str, group_name: Option<&str>) -> (r: bool)
        ensures
            r == match scope_of(self@, opt_view(group_name)) {
                Some(m) => m.contains_key(alias@),
                None => false,
            },
    {
        match self.get_group(group_name) {
            Some(alias_map) => alias_map.contains_key(&alias.to_owned()),
            None => false,
        }
    }

    /// Binds `alias` to `command` in the selected scope, replacing an earlier
    /// binding and creating the group if needed.
    pub fn add(&mut self, alias: &str, command: &str, group_name: Option<&str>)
        ensures
            final(self)@ == added(old(self)@, alias@, command@, opt_view(group_name)),
    {
        match group_name {
            Some(g) => {
                let key = g.to_owned();
                let mut groups = match self.alias.group.take() {
                    Some(t) => t,
                    None => Table::new(),
                };
                let mut alias_map = match groups.remove(&key) {
                    Some(m) => m,
                    None => Table::new(),
                };
                alias_map.insert(alias.to_owned(), command.to_owned());
                groups.insert(key, alias_map);
                self.alias.group = Some(groups);
            },
            None => {
                self.alias.general.insert(alias.to_owned(), command.to_owned());
            },
        }
    }

    /// Unbinds `alias` in the selected scope. Reports `GroupNotFound` when the
    /// group does not exist and `AliasNotFound` when the scope lacks the alias,
    /// and changes nothing in those cases.
    pub fn remove(&mut self, alias: &str, group_name: Option<&str>) -> (r: Report)
        ensures
            remove_post(old(self)@, final(self)@, alias@, opt_view(group_name), r),
    {
        let key = alias.to_owned();
        match group_name {
            Some(g) => {
                let name = g.to_owned();
                match self.alias.group.take() {
                    Some(mut groups) => {
                        let r = match groups.remove(&name) {
                            Some(mut alias_map) => {
                                let r = match alias_map.remove(&key) {
                                    Some(_) => Report::Done,
                                    None => Report::AliasNotFound,
                                };
                                groups.insert(name, alias_map);
                                r
                            },
                            None => Report::GroupNotFound,
                        };
                        self.alias.group = Some(groups);
                        proof {
                            let old_groups = old(self)@.1->Some_0;
                            if r is Done {
                                assert(self@.1->Some_0 =~= old_groups.insert(g@, old_groups[g@].remove(alias@)));
                            } else if r is AliasNotFound {
                                assert(old_groups[g@].remove(alias@) =~= old_groups[g@]);
                                assert(self@.1->Some_0 =~= old_groups);
                            } else {
                                assert(self@.1->Some_0 =~= old_groups);
                            }
                        }
                        r
                    },
                    None => Report::GroupNotFound,
                }
            },
            None => match self.alias.general.remove(&key) {
                Some(_) => Report::Done,
                None => {
                    assert(old(self)@.0.remove(alias@) =~= old(self)@.0);
                    Report::AliasNotFound
                },
            },
        }
    }

    /// Every (alias, command) pair of the selected scope; `NoAliases` when it is
    /// empty, `GroupNotFound` when the group does not exist.
    pub fn list(&self, group_name: Option<&str>) -> (r: Report)
        ensures
            list_post(self@, opt_view(group_name), r),
    {
        match self.get_group(group_name) {
            Some(alias_map) => {
                if alias_map.len() == 0 {
                    Report::NoAliases
                } else {
                    Report::Listing(alias_map.pairs())
                }
            },
            None => Report::GroupNotFound,
        }
    }

    /// The command bound to `alias` in the selected scope, if there is one.
    fn lookup(&self, alias: &str, group_name: Option<&str>) -> (r: Result<String, Report>)
        ensures
            match scope_of(self@, opt_view(group_name)) {
                None => r matches Err(Report::GroupNotFound),
                Some(m) => if m.contains_key(alias@) {
                    r matches Ok(c) && c@ == m[alias@]
                } else {
                    r matches Err(Report::AliasNotFound)
                },
            },
    {
        match self.get_group(group_name) {
            Some(alias_map) => match alias_map.get(&alias.to_owned()) {
                Some(c) => Ok(c.clone()),
                None => Err(Report::AliasNotFound),
            },
            None => Err(Report::GroupNotFound),
        }
    }

    /// The alias and its command in the selected scope, or why there is none.
    pub fn show(&self, alias: &str, group_name: Option<&str>) -> (r: Report)
        ensures
            show_post(self@, alias@, opt_view(group_name), r),
    {
        match self.lookup(alias, group_name) {
            Ok(c) => Report::Shown(alias.to_owned(), c),
            Err(e) => e,
        }
    }

    /// The command that running `alias` in the selected scope hands to the
    /// shell, or why there is none.
    pub fn execute(&self, alias: &str, group_name: Option<&str>) -> (r: Report)
        ensures
            execute_post(self@, alias@, opt_view(group_name), r),
    {
        match self.lookup(alias, group_name) {
            Ok(c) => Report::Run(c),
            Err(e) => e,
        }
    }

    /// A configuration from plain lists, as a file holds them: the general
    /// pairs and, if the file has a group table, each group with its aliases.
    /// Of two pairs with one key, the later one stays.
    pub fn from_parts(general: Vec<(String, String)>, group: Option<Vec<(String, Table<String>)>>) -> (r: Self)
        ensures
            r@ == parts_view(general@, group),
    {
        let general = Table::from_entries(general);
        let group = match group {
            Some(g) => Some(Table::from_entries(g)),
            None => None,
        };
        TomlConfig { alias: AliasConfig { general, group } }
    }

    /// The configuration as plain lists, ready to be written out.
    pub fn into_parts(self) -> (r: (Vec<(String, String)>, Option<Vec<(String, Table<String>)>>))
        ensures
            keys_unique(r.0@),
            entries_map(r.0@) == self@.0,
            match r.1 {
                Some(g) => keys_unique(g@) && self@.1 == Some(entries_map(g@)),
                None => self@.1.is_none(),
            },
    {
        let general = self.alias.general.into_entries();
        let group = match self.alias.group {
            Some(t) => Some(t.into_entries()),
            None => None,
        };
        (general, group)
    }
}

} // verus!
