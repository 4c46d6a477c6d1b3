use vstd::prelude::*;
use crate::config::{
    ConfigView, TomlConfig, Report, added, opt_view, remove_post, list_post, show_post, execute_post,
};

verus! {

/// One alias operation, with its arguments.
#[derive(Clone)]
pub enum Alias {
    /// Bind `alias` to `command`, in `group` if one is named.
    Add { alias: String, command: String, group: Option<String> },
    /// Unbind `alias`.
    Remove { alias: String, group: Option<String> },
    /// List the aliases of a scope.
    List { group: Option<String> },
    /// Show the command of `alias`.
    Show { alias: String, group: Option<String> },
    /// Run the command of `alias`.
    Exec { alias: String, group: Option<String> },
}

/// The view of an optional owned string.
pub open spec fn opt_string_view(s: Option<String>) -> Option<Seq<char>> {
    match s {
        Some(x) => Some(x@),
        None => None,
    }
}

/// What running `sub` on the configuration `v` reports and leaves behind as `w`.
pub open spec fn dispatch_post(sub: Alias, v: ConfigView, w: ConfigView, r: Report) -> bool {
    match sub {
        Alias::Add { alias, command, group } =>
            r is Done && w == added(v, alias@, command@, opt_string_view(group)),
        Alias::Remove { alias, group } =>
            remove_post(v, w, alias@, opt_string_view(group), r),
        Alias::List { group } =>
            w == v && list_post(v, opt_string_view(group), r),
        Alias::Show { alias, group } =>
            w == v && show_post(v, alias@, opt_string_view(group), r),
        Alias::Exec { alias, group } =>
            w == v && execute_post(v, alias@, opt_string_view(group), r),
    }
}

/// Borrows the group name out of an optional owned string.
fn group_ref(group: &Option<String>) -> (r: Option<&str>)
    ensures
        match r {
            Some(g) => group matches Some(s) && g@ == s@,
            None => group.is_none(),
        },
{
    match group {
        Some(s) => Some(s.as_str()),
        None => None,
    }
}

/// A copy of an optional group name.
fn owned_group(group: &Option<String>) -> (r: Option<String>)
    ensures
        r == *group,
{
    match group {
        Some(s) => Some(s.clone()),
        None => None,
    }
}

/// An operation together with the configuration that it works on.
pub struct AliasCommand {
    pub subcommand: Alias,
    pub toml_config: TomlConfig,
}

impl AliasCommand {
    /// Pairs an operation with a configuration.
    pub fn new(subcommand: Alias, toml_config: TomlConfig) -> (r: Self)
        ensures
            r.subcommand == subcommand,
            r.toml_config@ == toml_config@,
    {
        AliasCommand { subcommand, toml_config }
    }

    /// Carries out the operation on the configuration and reports the outcome.
    pub fn command_factory(&mut self) -> (r: Report)
        ensures
            final(self).subcommand == old(self).subcommand,
            dispatch_post(old(self).subcommand, old(self).toml_config@, final(self).toml_config@, r),
    {
        match &self.subcommand {
            Alias::Add { alias, command, group } => {
                let (alias, command, group) = (alias.clone(), command.clone(), owned_group(group));
                self.add(alias.as_str(), command.as_str(), group_ref(&group))
            },
            Alias::Remove { alias, group } => {
                let (alias, group) = (alias.clone(), owned_group(group));
                self.remove(alias.as_str(), group_ref(&group))
            },
            Alias::List { group } => self.list(group_ref(group)),
            Alias::Show { alias, group } => self.show(alias.as_str(), group_ref(group)),
            Alias::Exec { alias, group } => self.execute(alias.as_str(), group_ref(group)),
        }
    }

    /// Runs the operation: the same as `command_factory`.
    pub fn run(&mut self) -> (r: Report)
        ensures
            final(self).subcommand == old(self).subcommand,
            dispatch_post(old(self).subcommand, old(self).toml_config@, final(self).toml_config@, r),
    {
        self.command_factory()
    }

    fn add(&mut self, alias: &str, command: &str, group_name: Option<&str>) -> (r: Report)
        ensures
            final(self).subcommand == old(self).subcommand,
            r is Done,
            final(self).toml_config@ == added(old(self).toml_config@, alias@, command@, opt_view(group_name)),
    {
        self.toml_config.add(alias, command, group_name);
        Report::Done
    }

    fn remove(&mut self, alias: &str, group_name: Option<&str>) -> (r: Report)
        ensures
            final(self).subcommand == old(self).subcommand,
            remove_post(old(self).toml_config@, final(self).toml_config@, alias@, opt_view(group_name), r),
    {
        self.toml_config.remove(alias, group_name)
    }

    fn list(&self, group_name: Option<&str>) -> (r: Report)
        ensures
            list_post(self.toml_config@, opt_view(group_name), r),
    {
        self.toml_config.list(group_name)
    }

    fn show(&self, alias: &str, group_name: Option<&str>) -> (r: Report)
        ensures
            show_post(self.toml_config@, alias@, opt_view(group_name), r),
    {
        self.toml_config.show(alias, group_name)
    }

    fn execute(&self, alias: &str, group_name: Option<&str>) -> (r: Report)
        ensures
            execute_post(self.toml_config@, alias@, opt_view(group_name), r),
    {
        self.toml_config.execute(alias, group_name)
    }
}

} // verus!
