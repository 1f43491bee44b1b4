//! Profiles: reusable launch configurations, how command-line overrides are
//! merged into them, and how a profile turns into one launch per window.

use std::path::PathBuf;
use std::str::FromStr;
use std::time::Duration;

use vstd::prelude::*;

use crate::cli::{clone_opt_path, LaunchArgs};
use crate::lists::{
    first_where, lemma_first_where_at, lemma_first_where_found, lemma_first_where_prefix,
    lemma_first_where_step,
};
use crate::table::{names_increasing, NamedTable};
use crate::text::{
    bounded_decimal, clone_opt_string, clone_strings, debug_quoted, debug_text, opt_view,
    owned, parse_u32, push_all, str_eq, strings_view,
};

verus! {

// ---------------------------------------------------------------------------
// Column placement
// ---------------------------------------------------------------------------

/// Column placement for a launched window.
///
/// `1` is the first column (leftmost by default; rightmost when niri's layout
/// direction is inverted). Accepts an integer index, or the strings "first"
/// and "last".
#[derive(Debug, Clone, Copy, PartialEq, Eq, Structural)]
pub enum Position {
    /// 1-based column index.
    Index(u32),
    /// First column (index 1).
    First,
    /// Last column on the workspace.
    Last,
}

/// Why a text or a config value is not a column placement.
#[derive(Debug)]
pub enum PositionError {
    /// Column 0 was asked for; columns count from 1.
    Zero,
    /// A command-line value that is neither "first", "last" nor an integer.
    NotANumber(String),
    /// A config string that is neither "first" nor "last".
    UnknownName(String),
}

/// The mathematical content of a [`PositionError`].
pub enum PositionFailure {
    Zero,
    NotANumber(Seq<char>),
    UnknownName(Seq<char>),
}

impl View for PositionError {
    type V = PositionFailure;

    open spec fn view(&self) -> PositionFailure {
        match self {
            PositionError::Zero => PositionFailure::Zero,
            PositionError::NotANumber(s) => PositionFailure::NotANumber(s@),
            PositionError::UnknownName(s) => PositionFailure::UnknownName(s@),
        }
    }
}

/// The placement a command-line text names: "first" and "1" name the first
/// column, "last" the last, any other integer from 1 up a column index.
pub open spec fn position_from_text(s: Seq<char>) -> Result<Position, PositionFailure> {
    if s == "first"@ || s == "1"@ {
        Ok(Position::First)
    } else if s == "last"@ {
        Ok(Position::Last)
    } else {
        match bounded_decimal(s, u32::MAX as nat) {
            Some(n) => if n == 0 {
                Err(PositionFailure::Zero)
            } else {
                Ok(Position::Index(n as u32))
            },
            None => Err(PositionFailure::NotANumber(s)),
        }
    }
}

/// The view of a placement result.
pub open spec fn position_result_view(r: Result<Position, PositionError>) -> Result<
    Position,
    PositionFailure,
> {
    match r {
        Ok(p) => Ok(p),
        Err(e) => Err(e@),
    }
}

/// Reads a column placement from command-line text.
pub fn parse_position(s: &str) -> (r: Result<Position, PositionError>)
    ensures
        position_result_view(r) == position_from_text(s@),
{
    if str_eq(s, "first") || str_eq(s, "1") {
        Ok(Position::First)
    } else if str_eq(s, "last") {
        Ok(Position::Last)
    } else {
        match parse_u32(s) {
            Some(n) => if n == 0 {
                Err(PositionError::Zero)
            } else {
                Ok(Position::Index(n))
            },
            None => Err(PositionError::NotANumber(owned(s))),
        }
    }
}

/// The message for a placement failure.
pub open spec fn position_failure_text(f: PositionFailure) -> Seq<char> {
    match f {
        PositionFailure::Zero => "position must be >= 1 (use \"first\" for column 1)"@,
        PositionFailure::NotANumber(s) => "position must be an integer, \"first\", or \"last\" (got "@
            + debug_text(s) + ")"@,
        PositionFailure::UnknownName(s) => "position string must be 'first' or 'last', got "@
            + debug_text(s),
    }
}

impl PositionError {
    /// The message shown for this failure.
    pub fn message(&self) -> (m: String)
        ensures
            m@ == position_failure_text(self@),
    {
        match self {
            PositionError::Zero => owned(
                "position must be >= 1 (use \"first\" for column 1)",
            ),
            PositionError::NotANumber(s) => {
                let mut m = owned(
                    "position must be an integer, \"first\", or \"last\" (got ",
                );
                push_all(&mut m, debug_quoted(s.as_str()).as_str());
                push_all(&mut m, ")");
                m
            },
            PositionError::UnknownName(s) => {
                let mut m = owned("position string must be 'first' or 'last', got ");
                push_all(&mut m, debug_quoted(s.as_str()).as_str());
                m
            },
        }
    }
}

impl Position {
    /// The placement an integer of the config file names: columns count from 1.
    pub fn from_config_int(i: u32) -> (r: Result<Position, PositionError>)
        ensures
            position_result_view(r) == if i == 0 {
                Err(PositionFailure::Zero)
            } else {
                Ok(Position::Index(i))
            },
    {
        if i == 0 {
            Err(PositionError::Zero)
        } else {
            Ok(Position::Index(i))
        }
    }

    /// The placement a string of the config file names: "first" or "last".
    pub fn from_config_name(s: &str) -> (r: Result<Position, PositionError>)
        ensures
            position_result_view(r) == if s@ == "first"@ {
                Ok(Position::First)
            } else if s@ == "last"@ {
                Ok(Position::Last)
            } else {
                Err(PositionFailure::UnknownName(s@))
            },
    {
        if str_eq(s, "first") {
            Ok(Position::First)
        } else if str_eq(s, "last") {
            Ok(Position::Last)
        } else {
            Err(PositionError::UnknownName(owned(s)))
        }
    }
}

impl FromStr for Position {
    type Err = String;

    fn from_str(s: &str) -> (r: Result<Self, Self::Err>)
        ensures
            match position_from_text(s@) {
                Ok(p) => r matches Ok(q) && q == p,
                Err(f) => r matches Err(m) && m@ == position_failure_text(f),
            },
    {
        match parse_position(s) {
            Ok(p) => Ok(p),
            Err(e) => Err(e.message()),
        }
    }
}

// ---------------------------------------------------------------------------
// Profiles
// ---------------------------------------------------------------------------

/// `Duration::from_secs` of std, as a function of its argument.
pub uninterp spec fn duration_from_secs(secs: u64) -> Duration;

/// `Duration::from_secs` of std. The contract names the duration built
/// from `secs`; what the duration holds is not restated.
#[verifier::external_body]
fn duration_secs(secs: u64) -> (d: Duration)
    ensures
        d == duration_from_secs(secs),
{
    Duration::from_secs(secs)
}

/// The window wait timeout used when neither a window nor its profile sets one.
pub open spec fn default_timeout() -> Duration {
    duration_from_secs(10)
}

/// Per-window configuration for a named child table of a profile.
///
/// Each `[profiles.NAME.WINDOW_NAME]` table produces one `LaunchArgs`.
/// Fields not set here fall through to the profile-level defaults.
#[derive(Debug)]
pub struct CommandOverrides {
    /// Command and arguments to launch. Required.
    pub command: Vec<String>,
    /// Override the target workspace for this window only.
    pub workspace: Option<String>,
    /// Override the target workspace ID for this window only.
    pub workspace_id: Option<u64>,
    /// Override the output filter for this window only.
    pub output: Option<String>,
    /// Override column placement for this window only.
    pub position: Option<Position>,
    /// Override no-focus for this window only.
    pub no_focus: Option<bool>,
    /// Override silent for this window only.
    pub silent: Option<bool>,
    /// Override track-workspace for this window only.
    pub track_workspace: Option<bool>,
    /// Override the app ID used for window matching.
    pub match_app_id: Option<String>,
    /// Override the window wait timeout for this window only.
    pub timeout: Option<Duration>,
}

/// Two window configurations hold the same values.
pub open spec fn same_overrides(a: CommandOverrides, b: CommandOverrides) -> bool {
    &&& strings_view(a.command) == strings_view(b.command)
    &&& opt_view(a.workspace) == opt_view(b.workspace)
    &&& a.workspace_id == b.workspace_id
    &&& opt_view(a.output) == opt_view(b.output)
    &&& a.position == b.position
    &&& a.no_focus == b.no_focus
    &&& a.silent == b.silent
    &&& a.track_workspace == b.track_workspace
    &&& opt_view(a.match_app_id) == opt_view(b.match_app_id)
    &&& a.timeout == b.timeout
}

impl Clone for CommandOverrides {
    fn clone(&self) -> (r: Self)
        ensures
            same_overrides(r, *self),
    {
        CommandOverrides {
            command: clone_strings(&self.command),
            workspace: clone_opt_string(&self.workspace),
            workspace_id: self.workspace_id,
            output: clone_opt_string(&self.output),
            position: self.position,
            no_focus: self.no_focus,
            silent: self.silent,
            track_workspace: self.track_workspace,
            match_app_id: clone_opt_string(&self.match_app_id),
            timeout: self.timeout,
        }
    }
}

impl Default for CommandOverrides {
    fn default() -> (r: Self)
        ensures
            r.command@.len() == 0,
            r.workspace is None,
            r.workspace_id is None,
            r.output is None,
            r.position is None,
            r.no_focus is None,
            r.silent is None,
            r.track_workspace is None,
            r.match_app_id is None,
            r.timeout is None,
    {
        CommandOverrides {
            command: Vec::new(),
            workspace: None,
            workspace_id: None,
            output: None,
            position: None,
            no_focus: None,
            silent: None,
            track_workspace: None,
            match_app_id: None,
            timeout: None,
        }
    }
}

/// A reusable launch configuration stored in the config file.
///
/// Profile-level fields apply to all windows. Named child tables
/// (`[profiles.NAME.WINDOW_NAME]`) define individual windows with per-window
/// overrides; fields not set in a child fall through to the profile defaults.
#[derive(Debug)]
pub struct Profile {
    /// Target workspace name or numeric index.
    pub workspace: Option<String>,
    /// Globally unique niri workspace ID.
    pub workspace_id: Option<u64>,
    /// Restrict a numeric workspace index to this output.
    pub output: Option<String>,
    /// Column placement after the window opens.
    pub position: Option<Position>,
    /// Keep keyboard focus on the previously focused window.
    pub no_focus: bool,
    /// Suppress the launched application's stdout and stderr.
    pub silent: bool,
    /// Lock the window to the workspace that was focused at launch time.
    pub track_workspace: bool,
    /// Match the new window using this exact app ID.
    pub match_app_id: Option<String>,
    /// How long to wait for the application to create a window.
    pub timeout: Option<Duration>,
    /// A single command to launch. Ignored if named child tables exist.
    pub command: Vec<String>,
    /// Named child tables, each defining a window with per-window overrides,
    /// in increasing order of name (use leading numbers like `01-`, `02-`
    /// to control launch order).
    pub windows: NamedTable<CommandOverrides>,
}

impl Clone for Profile {
    fn clone(&self) -> (r: Self)
        ensures
            strings_view(r.command) == strings_view(self.command),
            opt_view(r.workspace) == opt_view(self.workspace),
            r.workspace_id == self.workspace_id,
            opt_view(r.output) == opt_view(self.output),
            r.position == self.position,
            r.no_focus == self.no_focus,
            r.silent == self.silent,
            r.track_workspace == self.track_workspace,
            opt_view(r.match_app_id) == opt_view(self.match_app_id),
            r.timeout == self.timeout,
            r.windows.names() == self.windows.names(),
            r.windows.values().len() == self.windows.values().len(),
            forall|i: int|
                0 <= i < self.windows.values().len() ==> same_overrides(
                    #[trigger] r.windows.values()[i],
                    self.windows.values()[i],
                ),
    {
        let windows = self.windows.clone();
        assert forall|i: int| 0 <= i < self.windows.values().len() implies same_overrides(
            #[trigger] windows.values()[i],
            self.windows.values()[i],
        ) by {
            assert(cloned::<CommandOverrides>(self.windows.values()[i], windows.values()[i]));
        }
        Profile {
            workspace: clone_opt_string(&self.workspace),
            workspace_id: self.workspace_id,
            output: clone_opt_string(&self.output),
            position: self.position,
            no_focus: self.no_focus,
            silent: self.silent,
            track_workspace: self.track_workspace,
            match_app_id: clone_opt_string(&self.match_app_id),
            timeout: self.timeout,
            command: clone_strings(&self.command),
            windows,
        }
    }
}

impl Default for Profile {
    fn default() -> (r: Self)
        ensures
            r.workspace is None,
            r.workspace_id is None,
            r.output is None,
            r.position is None,
            !r.no_focus,
            !r.silent,
            !r.track_workspace,
            r.match_app_id is None,
            r.timeout is None,
            r.command@.len() == 0,
            r.windows.names().len() == 0,
    {
        Profile {
            workspace: None,
            workspace_id: None,
            output: None,
            position: None,
            no_focus: false,
            silent: false,
            track_workspace: false,
            match_app_id: None,
            timeout: None,
            command: Vec::new(),
            windows: NamedTable::new(),
        }
    }
}

/// CLI overrides applied on top of a file-defined profile.
#[derive(Debug)]
pub struct ProfileOverrides {
    /// Override the target workspace.
    pub workspace: Option<String>,
    /// Override the target workspace ID.
    pub workspace_id: Option<u64>,
    /// Override the output filter for numeric workspace indices.
    pub output: Option<String>,
    /// Override column placement. Accepts an integer, "first", or "last".
    pub position: Option<String>,
    /// Override no-focus.
    pub no_focus: Option<bool>,
    /// Override silent.
    pub silent: Option<bool>,
    /// Override track-workspace.
    pub track_workspace: Option<bool>,
    /// Override the app ID used for window matching.
    pub match_app_id: Option<String>,
    /// Override the window wait timeout.
    pub timeout: Option<Duration>,
    /// Command and arguments to launch, overriding the profile's command.
    pub command: Vec<String>,
}

impl Clone for ProfileOverrides {
    fn clone(&self) -> (r: Self)
        ensures
            opt_view(r.workspace) == opt_view(self.workspace),
            r.workspace_id == self.workspace_id,
            opt_view(r.output) == opt_view(self.output),
            opt_view(r.position) == opt_view(self.position),
            r.no_focus == self.no_focus,
            r.silent == self.silent,
            r.track_workspace == self.track_workspace,
            opt_view(r.match_app_id) == opt_view(self.match_app_id),
            r.timeout == self.timeout,
            strings_view(r.command) == strings_view(self.command),
    {
        ProfileOverrides {
            workspace: clone_opt_string(&self.workspace),
            workspace_id: self.workspace_id,
            output: clone_opt_string(&self.output),
            position: clone_opt_string(&self.position),
            no_focus: self.no_focus,
            silent: self.silent,
            track_workspace: self.track_workspace,
            match_app_id: clone_opt_string(&self.match_app_id),
            timeout: self.timeout,
            command: clone_strings(&self.command),
        }
    }
}

impl Default for ProfileOverrides {
    fn default() -> (r: Self)
        ensures
            no_overrides(r),
    {
        ProfileOverrides {
            workspace: None,
            workspace_id: None,
            output: None,
            position: None,
            no_focus: None,
            silent: None,
            track_workspace: None,
            match_app_id: None,
            timeout: None,
            command: Vec::new(),
        }
    }
}

/// The overrides set nothing.
pub open spec fn no_overrides(o: ProfileOverrides) -> bool {
    &&& o.workspace is None
    &&& o.workspace_id is None
    &&& o.output is None
    &&& o.position is None
    &&& o.no_focus is None
    &&& o.silent is None
    &&& o.track_workspace is None
    &&& o.match_app_id is None
    &&& o.timeout is None
    &&& o.command@.len() == 0
}

// ---------------------------------------------------------------------------
// Failures
// ---------------------------------------------------------------------------

/// Why a profile could not be merged, selected or turned into launches.
#[derive(Debug)]
pub enum ProfileError {
    /// The `--position` override is not a placement.
    Position(PositionError),
    /// A named window of the profile has no command.
    WindowWithoutCommand,
    /// The profile has neither a command nor named windows.
    NoCommand,
    /// No profile has the requested name.
    NotFound { name: String, available: Vec<String> },
}

/// The mathematical content of a [`ProfileError`].
pub enum ProfileFailure {
    Position(PositionFailure),
    WindowWithoutCommand,
    NoCommand,
    NotFound { name: Seq<char>, available: Seq<Seq<char>> },
}

impl View for ProfileError {
    type V = ProfileFailure;

    open spec fn view(&self) -> ProfileFailure {
        match self {
            ProfileError::Position(e) => ProfileFailure::Position(e@),
            ProfileError::WindowWithoutCommand => ProfileFailure::WindowWithoutCommand,
            ProfileError::NoCommand => ProfileFailure::NoCommand,
            ProfileError::NotFound { name, available } => ProfileFailure::NotFound {
                name: name@,
                available: strings_view(*available),
            },
        }
    }
}

/// The names joined with `", "` between them.
pub open spec fn joined(names: Seq<Seq<char>>) -> Seq<char>
    decreases names.len(),
{
    if names.len() == 0 {
        Seq::empty()
    } else if names.len() == 1 {
        names[0]
    } else {
        joined(names.drop_last()) + ", "@ + names.last()
    }
}

/// The message for a profile failure.
pub open spec fn profile_failure_text(f: ProfileFailure) -> Seq<char> {
    match f {
        ProfileFailure::Position(p) => "--"@ + position_failure_text(p),
        ProfileFailure::WindowWithoutCommand => "profile has a window entry with no 'command'"@,
        ProfileFailure::NoCommand =>
            "profile has no 'command' or named child tables and no command was passed on the CLI"@,
        ProfileFailure::NotFound { name, available } => "profile "@ + debug_text(name)
            + " not found; available: "@ + if available.len() == 0 {
            "(none)"@
        } else {
            joined(available)
        },
    }
}

fn join_names(names: &Vec<String>) -> (r: String)
    ensures
        r@ == joined(strings_view(*names)),
{
    let ghost all = strings_view(*names);
    let mut r = String::new();
    let mut i: usize = 0;
    while i < names.len()
        invariant
            i <= names.len(),
            all == strings_view(*names),
            r@ == joined(all.take(i as int)),
        decreases names.len() - i,
    {
        assert(all.take(i + 1).drop_last() =~= all.take(i as int));
        if i > 0 {
            push_all(&mut r, ", ");
        } else {
            assert(all.take(1) =~= seq![all[0]]);
        }
        push_all(&mut r, names[i].as_str());
        i = i + 1;
    }
    assert(all.take(names.len() as int) =~= all);
    r
}

impl ProfileError {
    /// The message shown for this failure.
    pub fn message(&self) -> (m: String)
        ensures
            m@ == profile_failure_text(self@),
    {
        match self {
            ProfileError::Position(e) => {
                let mut m = owned("--");
                push_all(&mut m, e.message().as_str());
                m
            },
            ProfileError::WindowWithoutCommand => owned(
                "profile has a window entry with no 'command'",
            ),
            ProfileError::NoCommand => owned(
                "profile has no 'command' or named child tables and no command was passed on the CLI",
            ),
            ProfileError::NotFound { name, available } => {
                let mut m = owned("profile ");
                push_all(&mut m, debug_quoted(name.as_str()).as_str());
                push_all(&mut m, " not found; available: ");
                if available.len() == 0 {
                    push_all(&mut m, "(none)");
                } else {
                    push_all(&mut m, join_names(available).as_str());
                }
                m
            },
        }
    }
}

// ---------------------------------------------------------------------------
// Merging command-line overrides into a profile
// ---------------------------------------------------------------------------

/// The first of two options that is present.
pub open spec fn either<T>(first: Option<T>, second: Option<T>) -> Option<T> {
    match first {
        Some(x) => Some(x),
        None => second,
    }
}

/// The value of an option, or the fallback where it is absent.
pub open spec fn or_default<T>(o: Option<T>, fallback: T) -> T {
    match o {
        Some(x) => x,
        None => fallback,
    }
}

/// The placement after merging: the override, read as a placement, where
/// one is given; the profile's placement otherwise.
pub open spec fn merged_position(file: Option<Position>, o: Option<Seq<char>>) -> Result<
    Option<Position>,
    PositionFailure,
> {
    match o {
        Some(s) => match position_from_text(s) {
            Ok(p) => Ok(Some(p)),
            Err(f) => Err(f),
        },
        None => Ok(file),
    }
}

/// `m` is `file` with the overrides `o` applied, the placement being `pos`:
/// every override that is present replaces the profile's value, and a
/// non-empty command replaces both the command and the named windows.
pub open spec fn merged_from(m: Profile, file: Profile, o: ProfileOverrides, pos: Option<
    Position,
>) -> bool {
    &&& opt_view(m.workspace) == either(opt_view(o.workspace), opt_view(file.workspace))
    &&& m.workspace_id == either(o.workspace_id, file.workspace_id)
    &&& opt_view(m.output) == either(opt_view(o.output), opt_view(file.output))
    &&& m.position == pos
    &&& m.no_focus == or_default(o.no_focus, file.no_focus)
    &&& m.silent == or_default(o.silent, file.silent)
    &&& m.track_workspace == or_default(o.track_workspace, file.track_workspace)
    &&& opt_view(m.match_app_id) == either(opt_view(o.match_app_id), opt_view(file.match_app_id))
    &&& m.timeout == either(o.timeout, file.timeout)
    &&& if o.command@.len() == 0 {
        &&& strings_view(m.command) == strings_view(file.command)
        &&& m.windows == file.windows
    } else {
        &&& strings_view(m.command) == strings_view(o.command)
        &&& m.windows.names().len() == 0
        &&& m.windows.values().len() == 0
    }
}

fn or_string(first: &Option<String>, second: Option<String>) -> (r: Option<String>)
    ensures
        opt_view(r) == either(opt_view(*first), opt_view(second)),
{
    match first {
        Some(s) => Some(s.clone()),
        None => second,
    }
}

/// Merges a file-defined profile with command-line overrides; the command
/// line wins where it sets a value.
pub fn merge(file: Profile, overrides: &ProfileOverrides) -> (r: Result<Profile, ProfileError>)
    ensures
        match merged_position(file.position, opt_view(overrides.position)) {
            Ok(pos) => r matches Ok(m) && merged_from(m, file, *overrides, pos),
            Err(f) => r matches Err(e) && e@ == ProfileFailure::Position(f),
        },
{
    let position = match &overrides.position {
        Some(s) => match parse_position(s.as_str()) {
            Ok(p) => Some(p),
            Err(e) => {
                return Err(ProfileError::Position(e));
            },
        },
        None => file.position,
    };
    let override_command = overrides.command.len() > 0;
    let command = if override_command {
        clone_strings(&overrides.command)
    } else {
        file.command
    };
    let windows = if override_command {
        NamedTable::new()
    } else {
        file.windows
    };
    Ok(
        Profile {
            workspace: or_string(&overrides.workspace, file.workspace),
            workspace_id: match overrides.workspace_id {
                Some(id) => Some(id),
                None => file.workspace_id,
            },
            output: or_string(&overrides.output, file.output),
            position,
            no_focus: match overrides.no_focus {
                Some(b) => b,
                None => file.no_focus,
            },
            silent: match overrides.silent {
                Some(b) => b,
                None => file.silent,
            },
            track_workspace: match overrides.track_workspace {
                Some(b) => b,
                None => file.track_workspace,
            },
            match_app_id: or_string(&overrides.match_app_id, file.match_app_id),
            timeout: match overrides.timeout {
                Some(t) => Some(t),
                None => file.timeout,
            },
            command,
            windows,
        },
    )
}

// ---------------------------------------------------------------------------
// From a profile to launches
// ---------------------------------------------------------------------------

/// `a` launches the window `ov` of profile `p`: each field of the window
/// that is set wins over the profile's, and the timeout falls back to ten
/// seconds.
pub open spec fn launch_args_from(
    a: LaunchArgs,
    p: Profile,
    ov: CommandOverrides,
    socket: Option<PathBuf>,
) -> bool {
    &&& opt_view(a.workspace) == either(opt_view(ov.workspace), opt_view(p.workspace))
    &&& a.workspace_id == either(ov.workspace_id, p.workspace_id)
    &&& opt_view(a.output) == either(opt_view(ov.output), opt_view(p.output))
    &&& a.position == either(ov.position, p.position)
    &&& a.no_focus == or_default(ov.no_focus, p.no_focus)
    &&& a.silent == or_default(ov.silent, p.silent)
    &&& a.track_workspace == or_default(ov.track_workspace, p.track_workspace)
    &&& opt_view(a.match_app_id) == either(opt_view(ov.match_app_id), opt_view(p.match_app_id))
    &&& a.timeout == or_default(either(ov.timeout, p.timeout), default_timeout())
    &&& a.socket == socket
    &&& strings_view(a.command) == strings_view(ov.command)
}

/// `a` launches the single command of profile `p`, with all of the
/// profile's settings.
pub open spec fn launch_args_from_profile(a: LaunchArgs, p: Profile, socket: Option<PathBuf>) -> bool {
    &&& opt_view(a.workspace) == opt_view(p.workspace)
    &&& a.workspace_id == p.workspace_id
    &&& opt_view(a.output) == opt_view(p.output)
    &&& a.position == p.position
    &&& a.no_focus == p.no_focus
    &&& a.silent == p.silent
    &&& a.track_workspace == p.track_workspace
    &&& opt_view(a.match_app_id) == opt_view(p.match_app_id)
    &&& a.timeout == or_default(p.timeout, default_timeout())
    &&& a.socket == socket
    &&& strings_view(a.command) == strings_view(p.command)
}

/// Why a profile yields no launches, if it does not: a profile with named
/// windows needs a command in each of them (its own command is then
/// ignored); a profile without named windows needs its own command.
pub open spec fn launch_failure(p: Profile) -> Option<ProfileFailure> {
    if p.windows.values().len() > 0 {
        if exists|i: int|
            0 <= i < p.windows.values().len() && (#[trigger] p.windows.values()[i]).command@.len()
                == 0 {
            Some(ProfileFailure::WindowWithoutCommand)
        } else {
            None
        }
    } else if p.command@.len() > 0 {
        None
    } else {
        Some(ProfileFailure::NoCommand)
    }
}

/// `v` holds the launches of profile `p`: one launch per named window, in
/// the order of the window names, where it has named windows; else the
/// single launch of its own command.
pub open spec fn launches_of(v: Seq<LaunchArgs>, p: Profile, socket: Option<PathBuf>) -> bool {
    if p.windows.values().len() > 0 {
        &&& v.len() == p.windows.values().len()
        &&& forall|i: int|
            0 <= i < v.len() ==> launch_args_from(
                #[trigger] v[i],
                p,
                p.windows.values()[i],
                socket,
            )
    } else {
        v.len() == 1 && launch_args_from_profile(v[0], p, socket)
    }
}

fn build_launch(
    profile: &Profile,
    ov: &CommandOverrides,
    socket: &Option<PathBuf>,
) -> (a: LaunchArgs)
    ensures
        launch_args_from(a, *profile, *ov, *socket),
{
    let timeout = match ov.timeout {
        Some(t) => t,
        None => match profile.timeout {
            Some(t) => t,
            None => duration_secs(10),
        },
    };
    LaunchArgs {
        workspace: or_string(&ov.workspace, clone_opt_string(&profile.workspace)),
        workspace_id: match ov.workspace_id {
            Some(id) => Some(id),
            None => profile.workspace_id,
        },
        output: or_string(&ov.output, clone_opt_string(&profile.output)),
        position: match ov.position {
            Some(p) => Some(p),
            None => profile.position,
        },
        no_focus: match ov.no_focus {
            Some(b) => b,
            None => profile.no_focus,
        },
        silent: match ov.silent {
            Some(b) => b,
            None => profile.silent,
        },
        track_workspace: match ov.track_workspace {
            Some(b) => b,
            None => profile.track_workspace,
        },
        match_app_id: or_string(&ov.match_app_id, clone_opt_string(&profile.match_app_id)),
        timeout,
        socket: clone_opt_path(socket),
        command: clone_strings(&ov.command),
    }
}

/// Turns a merged profile into one launch per window.
///
/// A profile with named child tables produces one `LaunchArgs` per child,
/// with each child's per-window overrides applied on top of the profile
/// defaults; the profile's own `command` is then ignored. A profile with
/// only `command` produces a single `LaunchArgs`. A command given on the
/// command line replaces the named windows when merged (see [`merge`]), so it
/// produces a single `LaunchArgs`.
pub fn to_launch_args(profile: &Profile, socket: Option<PathBuf>) -> (r: Result<
    Vec<LaunchArgs>,
    ProfileError,
>)
    ensures
        match launch_failure(*profile) {
            Some(f) => r matches Err(e) && e@ == f,
            None => r matches Ok(v) && launches_of(v@, *profile, socket),
        },
        names_increasing(profile.windows.names()),
{
    let n = profile.windows.len();
    if n == 0 {
        if profile.command.len() == 0 {
            return Err(ProfileError::NoCommand);
        }
        let mut single = CommandOverrides::default();
        single.command = clone_strings(&profile.command);
        let a = build_launch(profile, &single, &socket);
        let mut v: Vec<LaunchArgs> = Vec::new();
        v.push(a);
        return Ok(v);
    }
    let mut v: Vec<LaunchArgs> = Vec::new();
    let mut i: usize = 0;
    while i < n
        invariant
            i <= n,
            n == profile.windows.values().len(),
            names_increasing(profile.windows.names()),
            n > 0,
            v.len() == i,
            forall|j: int| 0 <= j < i ==> (#[trigger] profile.windows.values()[j]).command@.len() > 0,
            forall|j: int|
                0 <= j < i ==> launch_args_from(
                    #[trigger] v@[j],
                    *profile,
                    profile.windows.values()[j],
                    socket,
                ),
        decreases n - i,
    {
        let ov = profile.windows.value_at(i);
        if ov.command.len() == 0 {
            return Err(ProfileError::WindowWithoutCommand);
        }
        v.push(build_launch(profile, ov, &socket));
        i = i + 1;
    }
    Ok(v)
}

// ---------------------------------------------------------------------------
// The config file
// ---------------------------------------------------------------------------

/// Parsed configuration file: the profiles, by name.
#[derive(Debug)]
pub struct ProfilesConfig {
    pub profiles: NamedTable<Profile>,
}

impl Default for ProfilesConfig {
    fn default() -> (c: Self)
        ensures
            c.profiles.names().len() == 0,
    {
        ProfilesConfig { profiles: NamedTable::new() }
    }
}

impl ProfilesConfig {
    /// The names of the defined profiles, in increasing order.
    pub fn names(&self) -> (r: Vec<String>)
        ensures
            strings_view(r) == self.profiles.names(),
    {
        let mut r: Vec<String> = Vec::new();
        let mut i: usize = 0;
        while i < self.profiles.len()
            invariant
                i <= self.profiles.names().len(),
                strings_view(r) == self.profiles.names().take(i as int),
            decreases self.profiles.names().len() - i,
        {
            let name = self.profiles.name_at(i).clone();
            let ghost before = strings_view(r);
            r.push(name);
            assert(strings_view(r) =~= before.push(name@));
            assert(self.profiles.names().take(i + 1) =~= self.profiles.names().take(i as int).push(
                name@,
            ));
            i = i + 1;
        }
        assert(self.profiles.names().take(i as int) =~= self.profiles.names());
        r
    }

    /// The profile named `name`; where there is none, a failure that lists
    /// the defined names.
    pub fn select(&self, name: &str) -> (r: Result<&Profile, ProfileError>)
        ensures
            match self.profiles.lookup(name@) {
                Some(p) => r matches Ok(q) && *q == p,
                None => r matches Err(e) && e@ == (ProfileFailure::NotFound {
                    name: name@,
                    available: self.profiles.names(),
                }),
            },
    {
        match self.profiles.get(name) {
            Some(p) => Ok(p),
            None => Err(ProfileError::NotFound { name: owned(name), available: self.names() }),
        }
    }
}

// ---------------------------------------------------------------------------
// Where the config file is
// ---------------------------------------------------------------------------

/// The config file to read: a path given explicitly wins, then the path the
/// environment names, then the first of the standard locations that exists.
pub open spec fn config_path_choice(
    explicit: Option<PathBuf>,
    from_env: Option<PathBuf>,
    candidates: Seq<(PathBuf, bool)>,
) -> Option<PathBuf> {
    match explicit {
        Some(p) => Some(p),
        None => match from_env {
            Some(p) => Some(p),
            None => match first_where(candidates, candidate_exists()) {
                Some(c) => Some(c.0),
                None => None,
            },
        },
    }
}

/// The candidate location exists.
pub open spec fn candidate_exists() -> spec_fn((PathBuf, bool)) -> bool {
    |c: (PathBuf, bool)| c.1
}

/// Chooses the config file among an explicitly given path, the path the
/// environment names, and standard locations paired with whether they exist.
pub fn choose_config_path(
    explicit: Option<PathBuf>,
    from_env: Option<PathBuf>,
    candidates: Vec<(PathBuf, bool)>,
) -> (r: Option<PathBuf>)
    ensures
        r == config_path_choice(explicit, from_env, candidates@),
{
    if explicit.is_some() {
        return explicit;
    }
    if from_env.is_some() {
        return from_env;
    }
    let ghost all = candidates@;
    let ghost exists_ = candidate_exists();
    let mut rest = candidates;
    let n = rest.len();
    let mut i: usize = 0;
    while i < n
        invariant
            i <= n,
            n == all.len(),
            rest@ == all.skip(i as int),
            exists_ == candidate_exists(),
            explicit is None,
            from_env is None,
            all == candidates@,
            first_where(all.take(i as int), exists_) is None,
        decreases n - i,
    {
        proof {
            lemma_first_where_step(all, exists_, i as int);
        }
        let (path, present) = rest.remove(0);
        assert((path, present) == all[i as int]);
        assert(rest@ =~= all.skip(i + 1));
        if present {
            proof {
                lemma_first_where_prefix(all, exists_, i + 1);
            }
            return Some(path);
        }
        i = i + 1;
    }
    assert(all.take(n as int) =~= all);
    None
}

/// The places the config file was looked for, in the order they are
/// searched, as the message that reports a missing file lists them:
/// `$NIRIKIT_CONFIG` with its value, the file under `$XDG_CONFIG_HOME` with
/// its path, and the user's config directory with the file's path under it,
/// each only where it is set.
pub open spec fn searched_texts(
    nirikit_config: Option<Seq<char>>,
    xdg_file: Option<Seq<char>>,
    config_home: Option<(Seq<char>, Seq<char>)>,
) -> Seq<Seq<char>> {
    let from_env = match nirikit_config {
        Some(p) => seq!["$NIRIKIT_CONFIG ("@ + p + ")"@],
        None => Seq::empty(),
    };
    let from_xdg = match xdg_file {
        Some(f) => seq!["$XDG_CONFIG_HOME/nirikit/config.toml ("@ + f + ")"@],
        None => Seq::empty(),
    };
    let from_home = match config_home {
        Some((dir, f)) => seq![dir + "/nirikit/config.toml ("@ + f + ")"@],
        None => Seq::empty(),
    };
    from_env + from_xdg + from_home
}

/// A pair of strings taken by their text.
pub open spec fn pair_view(p: Option<(String, String)>) -> Option<(Seq<char>, Seq<char>)> {
    match p {
        Some((a, b)) => Some((a@, b@)),
        None => None,
    }
}

/// Describes the places the config file was looked for, given the value of
/// `$NIRIKIT_CONFIG`, the displayed path of the file under
/// `$XDG_CONFIG_HOME`, and the displayed config directory with the displayed
/// path of the file under it.
pub fn searched_locations(
    nirikit_config: Option<String>,
    xdg_file: Option<String>,
    config_home: Option<(String, String)>,
) -> (r: Vec<String>)
    ensures
        strings_view(r) == searched_texts(
            opt_view(nirikit_config),
            opt_view(xdg_file),
            pair_view(config_home),
        ),
{
    let mut out: Vec<String> = Vec::new();
    if let Some(p) = nirikit_config {
        let mut line = owned("$NIRIKIT_CONFIG (");
        push_all(&mut line, p.as_str());
        push_all(&mut line, ")");
        out.push(line);
    }
    if let Some(f) = xdg_file {
        let mut line = owned("$XDG_CONFIG_HOME/nirikit/config.toml (");
        push_all(&mut line, f.as_str());
        push_all(&mut line, ")");
        out.push(line);
    }
    if let Some((dir, f)) = config_home {
        let mut line = dir;
        push_all(&mut line, "/nirikit/config.toml (");
        push_all(&mut line, f.as_str());
        push_all(&mut line, ")");
        out.push(line);
    }
    proof {
        assert(strings_view(out) =~= searched_texts(
            opt_view(nirikit_config),
            opt_view(xdg_file),
            pair_view(config_home),
        ));
    }
    out
}

/// The message for a config file that was found nowhere.
pub open spec fn missing_config_text(searched: Seq<Seq<char>>) -> Seq<char> {
    "could not find nirikit config; searched: "@ + joined(searched)
}

/// The message shown when no config file was found in the places listed.
pub fn missing_config_message(searched: &Vec<String>) -> (m: String)
    ensures
        m@ == missing_config_text(strings_view(*searched)),
{
    let mut m = owned("could not find nirikit config; searched: ");
    push_all(&mut m, join_names(searched).as_str());
    m
}

// ---------------------------------------------------------------------------
// Laws
// ---------------------------------------------------------------------------

/// Two profiles hold the same settings.
pub open spec fn same_profile(a: Profile, b: Profile) -> bool {
    &&& opt_view(a.workspace) == opt_view(b.workspace)
    &&& a.workspace_id == b.workspace_id
    &&& opt_view(a.output) == opt_view(b.output)
    &&& a.position == b.position
    &&& a.no_focus == b.no_focus
    &&& a.silent == b.silent
    &&& a.track_workspace == b.track_workspace
    &&& opt_view(a.match_app_id) == opt_view(b.match_app_id)
    &&& a.timeout == b.timeout
    &&& strings_view(a.command) == strings_view(b.command)
    &&& a.windows.names() == b.windows.names()
    &&& a.windows.values() == b.windows.values()
}

/// Merging overrides that set nothing leaves the profile as it was.
pub proof fn law_merge_without_overrides_keeps_profile(file: Profile, o: ProfileOverrides, m: Profile)
    requires
        no_overrides(o),
        merged_from(m, file, o, file.position),
    ensures
        merged_position(file.position, opt_view(o.position)) == Ok::<
            Option<Position>,
            PositionFailure,
        >(file.position),
        same_profile(m, file),
{
}

/// Merging the same overrides a second time changes nothing more.
pub proof fn law_merge_idempotent(
    file: Profile,
    o: ProfileOverrides,
    m: Profile,
    pos: Option<Position>,
    m2: Profile,
    pos2: Option<Position>,
)
    requires
        merged_position(file.position, opt_view(o.position)) == Ok::<
            Option<Position>,
            PositionFailure,
        >(pos),
        merged_from(m, file, o, pos),
        merged_position(m.position, opt_view(o.position)) == Ok::<
            Option<Position>,
            PositionFailure,
        >(pos2),
        merged_from(m2, m, o, pos2),
    ensures
        same_profile(m2, m),
{
    if o.command@.len() > 0 {
        assert(m2.windows.names() =~= m.windows.names());
        assert(m2.windows.values() =~= m.windows.values());
    }
}

/// A command given on the command line is launched alone, whatever the
/// profile defines: the merged profile yields exactly one launch, of that
/// command.
pub proof fn law_cli_command_launches_alone(
    file: Profile,
    o: ProfileOverrides,
    pos: Option<Position>,
    m: Profile,
    socket: Option<PathBuf>,
    v: Seq<LaunchArgs>,
)
    requires
        o.command@.len() > 0,
        merged_from(m, file, o, pos),
        launches_of(v, m, socket),
    ensures
        launch_failure(m) is None,
        v.len() == 1,
        strings_view(v[0].command) == strings_view(o.command),
{
    assert(strings_view(m.command).len() == strings_view(o.command).len());
}

/// Where a profile has named windows, its own command is ignored: each
/// launch runs the command of its window.
pub proof fn law_windows_replace_profile_command(p: Profile, socket: Option<PathBuf>, v: Seq<
    LaunchArgs,
>)
    requires
        p.windows.values().len() > 0,
        launches_of(v, p, socket),
    ensures
        v.len() == p.windows.values().len(),
        forall|i: int|
            0 <= i < v.len() ==> strings_view(#[trigger] v[i].command) == strings_view(
                p.windows.values()[i].command,
            ),
{
    assert forall|i: int| 0 <= i < v.len() implies strings_view(#[trigger] v[i].command)
        == strings_view(p.windows.values()[i].command) by {
        assert(launch_args_from(v[i], p, p.windows.values()[i], socket));
    }
}

/// A number written in decimal names that column; "1" names the first
/// column and "0" none.
pub proof fn law_position_of_decimal(n: u32)
    ensures
        position_from_text(crate::text::decimal_text(n as nat)) == (if n == 0 {
            Err::<Position, PositionFailure>(PositionFailure::Zero)
        } else if n == 1 {
            Ok::<Position, PositionFailure>(Position::First)
        } else {
            Ok::<Position, PositionFailure>(Position::Index(n))
        }),
{
    let t = crate::text::decimal_text(n as nat);
    crate::text::lemma_decimal_roundtrip(n as nat);
    crate::text::lemma_decimal_text_reads_back(n as nat);
    reveal_strlit("first");
    reveal_strlit("last");
    reveal_strlit("1");
    assert(t != "first"@) by {
        assert(crate::text::is_digit(t[0]));
    }
    assert(t != "last"@) by {
        assert(crate::text::is_digit(t[0]));
    }
    if n == 1 {
        assert(t =~= "1"@);
    } else if n == 0 {
        assert(t != "1"@);
    } else {
        if t == "1"@ {
            assert(t.len() == 1);
            assert(t[0] == '1');
            assert(t.drop_last() =~= Seq::<char>::empty());
            assert(t.last() == '1');
            assert(crate::text::digit_value('1') == 1);
            assert(crate::text::digits_value(t) == crate::text::digits_value(t.drop_last()) * 10
                + crate::text::digit_value(t.last()));
        }
    }
}

/// The command line wins where it sets a value: each setting that the
/// overrides give is the merged profile's, whatever the file says; each
/// setting they leave out is the file's. A command given on the command line
/// replaces the file's command and drops its named windows.
pub proof fn law_merge_command_line_wins(
    file: Profile,
    o: ProfileOverrides,
    m: Profile,
    pos: Option<Position>,
)
    requires
        merged_from(m, file, o, pos),
    ensures
        o.workspace matches Some(w) ==> opt_view(m.workspace) == Some(w@),
        o.workspace is None ==> opt_view(m.workspace) == opt_view(file.workspace),
        o.workspace_id matches Some(id) ==> m.workspace_id == Some(id),
        o.workspace_id is None ==> m.workspace_id == file.workspace_id,
        o.output matches Some(out) ==> opt_view(m.output) == Some(out@),
        o.output is None ==> opt_view(m.output) == opt_view(file.output),
        o.no_focus matches Some(b) ==> m.no_focus == b,
        o.no_focus is None ==> m.no_focus == file.no_focus,
        o.silent matches Some(b) ==> m.silent == b,
        o.silent is None ==> m.silent == file.silent,
        o.track_workspace matches Some(b) ==> m.track_workspace == b,
        o.track_workspace is None ==> m.track_workspace == file.track_workspace,
        o.match_app_id matches Some(a) ==> opt_view(m.match_app_id) == Some(a@),
        o.match_app_id is None ==> opt_view(m.match_app_id) == opt_view(file.match_app_id),
        o.timeout matches Some(t) ==> m.timeout == Some(t),
        o.timeout is None ==> m.timeout == file.timeout,
        o.command.len() > 0 ==> strings_view(m.command) == strings_view(o.command)
            && m.windows.names().len() == 0,
        o.command.len() == 0 ==> strings_view(m.command) == strings_view(file.command)
            && m.windows == file.windows,
{
}

/// A placement given on the command line is the merged placement, read from
/// its text; without one, the file's placement stays.
pub proof fn law_merge_position(file: Option<Position>, o: Option<Seq<char>>, pos: Option<Position>)
    requires
        merged_position(file, o) == Ok::<Option<Position>, PositionFailure>(pos),
    ensures
        o is None ==> pos == file,
        o matches Some(text) ==> pos matches Some(p) && position_from_text(text) == Ok::<
            Position,
            PositionFailure,
        >(p),
{
}

/// Each named window's own settings override the profile's defaults: in
/// the launch built for a window, every setting the window gives is the
/// window's, whatever the profile says, and every setting it leaves out is
/// the profile's. The command is the window's own.
pub proof fn law_window_settings_override_profile(
    v: Seq<LaunchArgs>,
    p: Profile,
    socket: Option<PathBuf>,
    i: int,
)
    requires
        launches_of(v, p, socket),
        0 <= i < p.windows.values().len(),
    ensures
        v.len() == p.windows.values().len(),
        strings_view(v[i].command) == strings_view(p.windows.values()[i].command),
        p.windows.values()[i].workspace matches Some(w) ==> opt_view(v[i].workspace) == Some(w@),
        p.windows.values()[i].workspace is None ==> opt_view(v[i].workspace) == opt_view(
            p.workspace,
        ),
        p.windows.values()[i].workspace_id matches Some(id) ==> v[i].workspace_id == Some(id),
        p.windows.values()[i].workspace_id is None ==> v[i].workspace_id == p.workspace_id,
        p.windows.values()[i].output matches Some(out) ==> opt_view(v[i].output) == Some(out@),
        p.windows.values()[i].output is None ==> opt_view(v[i].output) == opt_view(p.output),
        p.windows.values()[i].position matches Some(q) ==> v[i].position == Some(q),
        p.windows.values()[i].position is None ==> v[i].position == p.position,
        p.windows.values()[i].no_focus matches Some(b) ==> v[i].no_focus == b,
        p.windows.values()[i].no_focus is None ==> v[i].no_focus == p.no_focus,
        p.windows.values()[i].silent matches Some(b) ==> v[i].silent == b,
        p.windows.values()[i].silent is None ==> v[i].silent == p.silent,
        p.windows.values()[i].track_workspace matches Some(b) ==> v[i].track_workspace == b,
        p.windows.values()[i].track_workspace is None ==> v[i].track_workspace
            == p.track_workspace,
        p.windows.values()[i].match_app_id matches Some(a) ==> opt_view(v[i].match_app_id) == Some(
            a@,
        ),
        p.windows.values()[i].match_app_id is None ==> opt_view(v[i].match_app_id) == opt_view(
            p.match_app_id,
        ),
        p.windows.values()[i].timeout matches Some(t) ==> v[i].timeout == t,
        p.windows.values()[i].timeout is None ==> (p.timeout matches Some(t) ==> v[i].timeout == t),
        v[i].socket == socket,
{
    assert(launch_args_from(v[i], p, p.windows.values()[i], socket));
}

/// A profile without named windows launches its own command once, with all
/// of its own settings.
pub proof fn law_profile_without_windows_launches_its_command(
    v: Seq<LaunchArgs>,
    p: Profile,
    socket: Option<PathBuf>,
)
    requires
        launches_of(v, p, socket),
        p.windows.values().len() == 0,
    ensures
        v.len() == 1,
        strings_view(v[0].command) == strings_view(p.command),
        opt_view(v[0].workspace) == opt_view(p.workspace),
        v[0].workspace_id == p.workspace_id,
        opt_view(v[0].output) == opt_view(p.output),
        v[0].position == p.position,
        v[0].no_focus == p.no_focus,
        v[0].silent == p.silent,
        v[0].track_workspace == p.track_workspace,
        opt_view(v[0].match_app_id) == opt_view(p.match_app_id),
        p.timeout matches Some(t) ==> v[0].timeout == t,
        v[0].socket == socket,
{
}

/// The config file chosen: an explicit path wins whatever the environment
/// names; else the path the environment names; else the first standard
/// location that exists, and none where none exists.
pub proof fn law_config_path_precedence(
    explicit: Option<PathBuf>,
    from_env: Option<PathBuf>,
    c: Seq<(PathBuf, bool)>,
)
    ensures
        explicit matches Some(p) ==> config_path_choice(explicit, from_env, c) == Some(p),
        explicit is None && from_env is Some ==> config_path_choice(explicit, from_env, c)
            == from_env,
        explicit is None && from_env is None ==> (config_path_choice(explicit, from_env, c) is None
            <==> forall|k: int| 0 <= k < c.len() ==> !(#[trigger] c[k]).1),
        forall|k: int|
            explicit is None && from_env is None && 0 <= k < c.len() && (#[trigger] c[k]).1 && (
            forall|j: int| 0 <= j < k ==> !c[j].1) ==> config_path_choice(explicit, from_env, c)
                == Some(c[k].0),
{
    let e = candidate_exists();
    lemma_first_where_found(c, e);
    assert forall|k: int|
        explicit is None && from_env is None && 0 <= k < c.len() && (#[trigger] c[k]).1 && (
        forall|j: int| 0 <= j < k ==> !c[j].1) implies config_path_choice(explicit, from_env, c)
            == Some(c[k].0) by {
        assert forall|j: int| 0 <= j < k implies !e(#[trigger] c[j]) by {}
        lemma_first_where_at(c, e, k);
    }
    if explicit is None && from_env is None {
        if first_where(c, e) is Some {
            let x = first_where(c, e)->0;
            let k = choose|k: int| 0 <= k < c.len() && c[k] == x;
            assert(c[k].1);
        }
    }
}

} // verus!
