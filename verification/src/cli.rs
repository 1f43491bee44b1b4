//! The commands of the program and their arguments, as plain data.
//!
//! The command-line grammar itself is declared where the arguments are read;
//! what it yields is held in these types.

use std::path::PathBuf;
use std::time::Duration;

use vstd::prelude::*;

use crate::profile::{Position, ProfileOverrides};

verus! {

/// Filesystem paths of std, held and passed on as they are.
#[verifier::external_type_specification]
#[verifier::external_body]
pub struct ExPathBuf(PathBuf);

/// `PathBuf`'s `Clone` of std: the copy is the same path.
#[verifier::external_body]
pub(crate) fn clone_path(p: &PathBuf) -> (r: PathBuf)
    ensures
        r == *p,
{
    p.clone()
}

/// A copy of an optional path.
pub fn clone_opt_path(p: &Option<PathBuf>) -> (r: Option<PathBuf>)
    ensures
        r == *p,
{
    match p {
        Some(x) => Some(clone_path(x)),
        None => None,
    }
}

/// The parsed command line.
#[derive(Debug)]
pub struct Cli {
    pub command: Command,
}

/// The subcommands.
#[derive(Debug)]
pub enum Command {
    /// Launch an application and optionally place its first window.
    Launch(LaunchArgs),
    /// Run a named profile from the config file.
    Profile(ProfileArgs),
}

/// Everything one launch needs.
#[derive(Debug)]
pub struct LaunchArgs {
    /// Target workspace name or index. Numeric values are treated as indices.
    pub workspace: Option<String>,
    /// Target a workspace by its globally unique niri ID.
    pub workspace_id: Option<u64>,
    /// Restrict a numeric workspace index to this output.
    pub output: Option<String>,
    /// Column placement after the window opens.
    pub position: Option<Position>,
    /// Keep keyboard focus on the previously focused window.
    pub no_focus: bool,
    /// Suppress the launched application's stdout and stderr.
    pub silent: bool,
    /// Lock the window to the workspace that was focused when the command was launched.
    pub track_workspace: bool,
    /// Match the new window using this exact app ID.
    pub match_app_id: Option<String>,
    /// How long to wait for the application to create a window.
    pub timeout: Duration,
    /// The niri IPC socket.
    pub socket: Option<PathBuf>,
    /// Command and arguments to launch.
    pub command: Vec<String>,
}

/// The arguments of the `profile` subcommand.
#[derive(Debug)]
pub struct ProfileArgs {
    /// Name of the profile to run; none lists the defined profiles.
    pub name: Option<String>,
    /// Override the config file path.
    pub config: Option<PathBuf>,
    /// Overrides applied on top of the profile.
    pub overrides: ProfileOverrides,
}

} // verus!
