//! The commands of the tool, and what each asks of the caller.
use crate::config::{upsert, without, Config, ConfigView};
use crate::name::{url_of, valid_name, InvalidNameError};
use crate::repo::RepoView;
use vstd::prelude::*;

verus! {

/// The name of the configuration file below the root.
pub const CONFIG_FILE: &'static str = ".gitrs.yaml";

/// A command of the tool.
#[derive(Clone, Debug, PartialEq, Eq)]
pub enum Command {
    /// Declare a repository.
    Add { repo: String, pin: bool },
    /// Take a repository out of the declared ones.
    Remove { repo: String },
    /// Make the checkouts below the root match the declared repositories.
    Sync { clean_only: bool },
}

/// What the caller has to do after a command.
#[derive(Clone, Copy, Debug, PartialEq, Eq, Structural)]
pub enum Effect {
    /// The configuration changed: write it to its file.
    Save,
    /// Run a reconciliation with the configuration as it stands.
    Reconcile { clean_only: bool },
}

/// The configuration after a command.
pub open spec fn configured(before: ConfigView, command: Command) -> ConfigView {
    match command {
        Command::Add { repo, pin } => if valid_name(repo@) {
            ConfigView {
                repos: upsert(
                    before.repos,
                    RepoView { name: repo@, url: url_of(repo@), pin: pin, sha: Seq::<char>::empty() },
                ),
                ..before
            }
        } else {
            before
        },
        Command::Remove { repo } => ConfigView { repos: without(before.repos, repo@), ..before },
        Command::Sync { .. } => before,
    }
}

/// Carries out the part of `command` that concerns the configuration, and
/// says what is left for the caller. Adding and removing change the
/// configuration, which is then to be saved; a sync changes nothing and asks
/// for a reconciliation. An invalid name is refused and changes nothing.
pub fn run(cfg: &mut Config, command: Command) -> (r: Result<Effect, InvalidNameError>)
    ensures
        final(cfg)@ == configured(old(cfg)@, command),
        match command {
            Command::Add { repo, pin } => if valid_name(repo@) {
                r == Ok::<Effect, InvalidNameError>(Effect::Save)
            } else {
                r is Err && r->Err_0.name@ == repo@
            },
            Command::Remove { repo } => r == Ok::<Effect, InvalidNameError>(Effect::Save),
            Command::Sync { clean_only } => r == Ok::<Effect, InvalidNameError>(
                Effect::Reconcile { clean_only },
            ),
        },
{
    match command {
        Command::Add { repo, pin } => match cfg.add(repo, pin) {
            Ok(()) => Ok(Effect::Save),
            Err(e) => Err(e),
        },
        Command::Remove { repo } => {
            let _ = cfg.remove(repo);
            Ok(Effect::Save)
        },
        Command::Sync { clean_only } => Ok(Effect::Reconcile { clean_only }),
    }
}

} // verus!
