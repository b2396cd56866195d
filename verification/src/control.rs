//! The settings that are in force and the requests that read and change them.
use vstd::prelude::*;
use vstd::string::*;

use crate::config::{
    config_error, effective_mode, given_position, mode_for, mode_text, option_text, position, valid,
    Config, ConfigView,
};
use crate::json::{
    as_text, get_member, json, json_member, json_of_text, parse_json, take_member, Json,
};
use crate::paths::{load_settings, saved_or, SettingsFile};
use crate::status::{idle, DaemonStatus, StatusView};
use crate::text::same_text;

verus! {

/// A request. The settings that are to be put in force come as the JSON value that was sent.
pub enum Command {
    Get,
    Status,
    Update(serde_json::Value),
    Reset,
}

/// What a [`Command`] asks for.
pub enum CommandView {
    Get,
    Status,
    Update(Json),
    Reset,
}

impl View for Command {
    type V = CommandView;

    open spec fn view(&self) -> CommandView {
        match self {
            Command::Get => CommandView::Get,
            Command::Status => CommandView::Status,
            Command::Update(settings) => CommandView::Update(json(*settings)),
            Command::Reset => CommandView::Reset,
        }
    }
}

/// What the JSON value `request` asks for, or why it is no request.
pub open spec fn requested(request: Json) -> Result<CommandView, Seq<char>> {
    match json_member(request, "command"@) {
        Some(Json::Text(command)) => if command == "get"@ {
            Ok(CommandView::Get)
        } else if command == "status"@ {
            Ok(CommandView::Status)
        } else if command == "set"@ {
            match json_member(request, "settings"@) {
                Some(settings) => Ok(CommandView::Update(settings)),
                None => Err("missing settings"@),
            }
        } else if command == "reset"@ {
            Ok(CommandView::Reset)
        } else {
            Err("unknown command: "@ + command)
        },
        _ => Err("missing command"@),
    }
}

/// Reads what a JSON value asks for.
pub fn read_command(request: &serde_json::Value) -> (command: Result<Command, String>)
    ensures
        match command {
            Ok(c) => requested(json(*request)) == Ok::<CommandView, Seq<char>>(c@),
            Err(message) => requested(json(*request)) == Err::<CommandView, Seq<char>>(message@),
        },
{
    let named = match get_member(request, "command") {
        Some(member) => as_text(member),
        None => None,
    };
    match named {
        Some(command) => {
            if same_text(command, "get") {
                Ok(Command::Get)
            } else if same_text(command, "status") {
                Ok(Command::Status)
            } else if same_text(command, "set") {
                match take_member(request, "settings") {
                    Some(settings) => Ok(Command::Update(settings)),
                    None => Err("missing settings".to_owned()),
                }
            } else if same_text(command, "reset") {
                Ok(Command::Reset)
            } else {
                Err("unknown command: ".to_owned().concat(command))
            }
        },
        None => Err("missing command".to_owned()),
    }
}

/// Reads a request line.
pub fn parse_request(line: &str) -> (command: Result<Command, String>)
    ensures
        match json_of_text(line@) {
            Ok(request) => match command {
                Ok(c) => requested(request) == Ok::<CommandView, Seq<char>>(c@),
                Err(message) => requested(request) == Err::<CommandView, Seq<char>>(message@),
            },
            Err(problem) => command matches Err(message) && message@ == problem,
        },
{
    match parse_json(line) {
        Ok(request) => read_command(&request),
        Err(message) => Err(message),
    }
}

/// The settings in force, those to go back to, the state of the stream, and a number that changes
/// with the settings.
pub struct SharedState {
    pub settings: Config,
    pub defaults: Config,
    pub status: DaemonStatus,
    pub revision: u64,
}

/// What a [`SharedState`] holds.
pub struct StateView {
    pub settings: ConfigView,
    pub defaults: ConfigView,
    pub status: StatusView,
    pub revision: u64,
}

impl View for SharedState {
    type V = StateView;

    open spec fn view(&self) -> StateView {
        StateView {
            settings: self.settings@,
            defaults: self.defaults@,
            status: self.status@,
            revision: self.revision,
        }
    }
}

/// The size or the rate differs.
pub open spec fn differs_in_mode(a: ConfigView, b: ConfigView) -> bool {
    a.width != b.width || a.height != b.height || a.fps != b.fps
}

/// The mode of `new` is the one that goes with the old size and rate, though those change.
pub open spec fn mode_is_stale(old_settings: ConfigView, new: ConfigView) -> bool {
    new.mode == mode_text(old_settings.width, old_settings.height, old_settings.fps)
        && differs_in_mode(new, old_settings)
}

/// What is put in force when `new` is asked for, or why it is refused.
pub open spec fn accepted(old_settings: ConfigView, new: ConfigView) -> Result<
    ConfigView,
    Seq<char>,
> {
    match config_error(new) {
        Some(message) => Err(message),
        None => if new.port != old_settings.port {
            Err("the TCP port requires a daemon restart"@)
        } else if mode_is_stale(old_settings, new) {
            Ok(ConfigView { mode: Seq::empty(), ..new })
        } else {
            Ok(new)
        },
    }
}

/// Why going back to the defaults is refused.
pub open spec fn reset_error(s: StateView) -> Option<Seq<char>> {
    if s.defaults.port != s.settings.port {
        Some("resetting the TCP port requires a daemon restart"@)
    } else {
        None
    }
}

/// The number after `revision`; after the largest one comes zero.
pub open spec fn next_revision(revision: u64) -> u64 {
    if revision == u64::MAX {
        0
    } else {
        (revision + 1) as u64
    }
}

/// The state once `settings` are in force.
pub open spec fn in_force(s: StateView, settings: ConfigView) -> StateView {
    StateView { settings, revision: next_revision(s.revision), ..s }
}

/// The output that is no longer used once `settings` are in force.
pub open spec fn abandoned_output(s: StateView, settings: ConfigView) -> Option<Seq<char>> {
    if s.settings.output != settings.output {
        Some(s.settings.output)
    } else {
        None
    }
}

/// The output that had been given a position and has none once `settings` are in force.
pub open spec fn released_output(s: StateView, settings: ConfigView) -> Option<Seq<char>> {
    if given_position(s.settings) is Some && (given_position(settings) is None
        || s.settings.output != settings.output) {
        Some(s.settings.output)
    } else {
        None
    }
}

/// Settings that have been put in force, the output to switch off for them, and the output whose
/// place is to be left to niri again.
pub struct Applied {
    pub settings: Config,
    pub switch_off: Option<String>,
    pub release: Option<String>,
}

/// `applied` tells of `settings` being put in force in the state `s`.
pub open spec fn applies(s: StateView, settings: ConfigView, applied: Applied) -> bool {
    &&& applied.settings@ == settings
    &&& option_text(applied.switch_off) == abandoned_output(s, settings)
    &&& option_text(applied.release) == released_output(s, settings)
}

/// What came of removing the settings file.
pub enum Removal {
    Removed,
    NotFound,
    Failed(String),
}

impl SharedState {
    /// The state at the start.
    pub fn new(settings: Config, defaults: Config) -> (state: Self)
        ensures
            state@.settings == settings@,
            state@.defaults == defaults@,
            state@.status == idle(false),
            state@.revision == 1,
    {
        SharedState { settings, defaults, status: DaemonStatus::default(), revision: 1 }
    }

    /// The state to start with, given what was found where the settings are kept. Saved settings
    /// that break a rule are an error.
    pub fn start(file: SettingsFile, defaults: Config) -> (started: Result<Self, String>)
        ensures
            match config_error(saved_or(file, defaults@)) {
                Some(problem) => started matches Err(message) && message@ == problem,
                None => {
                    &&& started matches Ok(state)
                    &&& state@.settings == saved_or(file, defaults@)
                    &&& state@.defaults == defaults@
                    &&& state@.status == idle(false)
                    &&& state@.revision == 1
                    &&& valid(defaults@) ==> sound(state@)
                },
            },
    {
        let settings = load_settings(file, &defaults);
        match settings.validate() {
            Ok(_) => Ok(SharedState::new(settings, defaults)),
            Err(message) => Err(message),
        }
    }

    /// A copy of the settings in force.
    pub fn settings(&self) -> (settings: Config)
        ensures
            settings@ == self@.settings,
    {
        self.settings.clone()
    }

    /// A copy of the status.
    pub fn status(&self) -> (status: DaemonStatus)
        ensures
            status@ == self@.status,
    {
        self.status.clone()
    }

    /// Checks settings that are asked for and returns them as they would be put in force. A mode
    /// that merely repeats the old size and rate is cleared when those change.
    pub fn check_update(&self, settings: Config) -> (checked: Result<Config, String>)
        ensures
            match checked {
                Ok(c) => accepted(self@.settings, settings@) == Ok::<ConfigView, Seq<char>>(c@),
                Err(message) => accepted(self@.settings, settings@) == Err::<ConfigView, Seq<char>>(
                    message@,
                ),
            },
    {
        match settings.validate() {
            Ok(_) => {},
            Err(message) => return Err(message),
        }
        if settings.port != self.settings.port {
            return Err("the TCP port requires a daemon restart".to_owned());
        }
        let old_mode = mode_for(self.settings.width, self.settings.height, self.settings.fps);
        let mut settings = settings;
        if settings.mode == old_mode && (settings.width != self.settings.width || settings.height
            != self.settings.height || settings.fps != self.settings.fps) {
            settings.mode = String::new();
            assert(settings@.mode =~= Seq::empty());
        }
        Ok(settings)
    }

    /// Checks whether the defaults can be gone back to.
    pub fn check_reset(&self) -> (checked: Result<(), String>)
        ensures
            match checked {
                Ok(_) => reset_error(self@) is None,
                Err(message) => reset_error(self@) == Some(message@),
            },
    {
        if self.defaults.port != self.settings.port {
            return Err("resetting the TCP port requires a daemon restart".to_owned());
        }
        Ok(())
    }

    /// Replaces the settings and moves the revision on.
    fn put_in_force(&mut self, settings: Config) -> (applied: Applied)
        ensures
            final(self)@ == in_force(old(self)@, settings@),
            applies(old(self)@, settings@, applied),
    {
        let switch_off: Option<String> = if self.settings.output == settings.output {
            None
        } else {
            Some(self.settings.output.clone())
        };
        let release: Option<String> = if position(&self.settings).is_some() && (position(
            &settings,
        ).is_none() || !(self.settings.output == settings.output)) {
            Some(self.settings.output.clone())
        } else {
            None
        };
        self.settings = settings.clone();
        self.revision = if self.revision == u64::MAX {
            0
        } else {
            self.revision + 1
        };
        Applied { settings, switch_off, release }
    }
}

/// What a request is answered.
pub enum Reply {
    /// The settings in force, the status and the revision.
    Everything(Config, DaemonStatus, u64),
    /// The status and the revision.
    Status(DaemonStatus, u64),
    /// Settings have been put in force; the stream restarts.
    Applied(Applied),
    /// The request is refused for this reason.
    Refused(String),
}

/// What is to be done next for a request.
pub enum Step {
    /// Send the answer.
    Answer(Reply),
    /// Decode the settings that were sent.
    Decode(serde_json::Value),
    /// Save the settings, which have been checked.
    Save(Config),
    /// Remove the settings file.
    RemoveFile,
}

/// The request is refused with `message`.
pub open spec fn refuses(step: Step, message: Seq<char>) -> bool {
    step matches Step::Answer(Reply::Refused(m)) && m@ == message
}

/// `step` is what a well-formed request leads to first.
pub open spec fn begins(s: StateView, command: CommandView, step: Step) -> bool {
    match command {
        CommandView::Get => {
            &&& step matches Step::Answer(Reply::Everything(settings, status, revision))
            &&& settings@ == s.settings
            &&& status@ == s.status
            &&& revision == s.revision
        },
        CommandView::Status => {
            &&& step matches Step::Answer(Reply::Status(status, revision))
            &&& status@ == s.status
            &&& revision == s.revision
        },
        CommandView::Update(settings) => step matches Step::Decode(value) && json(value)
            == settings,
        CommandView::Reset => match reset_error(s) {
            Some(message) => refuses(step, message),
            None => step is RemoveFile,
        },
    }
}

/// `step` is what the JSON value `request` leads to first.
pub open spec fn begins_request(s: StateView, request: Json, step: Step) -> bool {
    match requested(request) {
        Ok(command) => begins(s, command, step),
        Err(message) => refuses(step, message),
    }
}

impl SharedState {
    /// Begins to serve a request line.
    pub fn begin_request(&self, line: &str) -> (step: Step)
        ensures
            match json_of_text(line@) {
                Ok(request) => begins_request(self@, request, step),
                Err(problem) => refuses(step, problem),
            },
    {
        match parse_request(line) {
            Ok(command) => self.begin_command(command),
            Err(message) => Step::Answer(Reply::Refused(message)),
        }
    }

    /// Begins to serve a request that has been read.
    pub fn begin_command(&self, command: Command) -> (step: Step)
        ensures
            begins(self@, command@, step),
            command matches Command::Update(sent) ==> (step matches Step::Decode(value) && value
                == sent),
    {
        match command {
            Command::Get => Step::Answer(
                Reply::Everything(self.settings(), self.status(), self.revision),
            ),
            Command::Status => Step::Answer(Reply::Status(self.status(), self.revision)),
            Command::Update(settings) => Step::Decode(settings),
            Command::Reset => match self.check_reset() {
                Ok(_) => Step::RemoveFile,
                Err(message) => Step::Answer(Reply::Refused(message)),
            },
        }
    }

    /// Goes on once the settings that were sent have been decoded or could not be.
    pub fn settings_decoded(&self, decoded: Result<Config, String>) -> (step: Step)
        ensures
            match decoded {
                Ok(settings) => match accepted(self@.settings, settings@) {
                    Ok(got) => step matches Step::Save(c) && c@ == got,
                    Err(message) => refuses(step, message),
                },
                Err(problem) => refuses(step, problem@),
            },
    {
        match decoded {
            Ok(settings) => match self.check_update(settings) {
                Ok(checked) => Step::Save(checked),
                Err(message) => Step::Answer(Reply::Refused(message)),
            },
            Err(message) => Step::Answer(Reply::Refused(message)),
        }
    }

    /// Answers once the settings have been saved or could not be: they are then put in force, or the
    /// request is refused with the reason and nothing changes.
    pub fn settings_saved(&mut self, settings: Config, saved: Result<(), String>) -> (reply: Reply)
        ensures
            match saved {
                Ok(_) => {
                    &&& reply matches Reply::Applied(a) && applies(old(self)@, settings@, a)
                    &&& final(self)@ == in_force(old(self)@, settings@)
                },
                Err(reason) => {
                    &&& reply matches Reply::Refused(message) && message@ == reason@
                    &&& final(self)@ == old(self)@
                },
            },
    {
        match saved {
            Ok(_) => Reply::Applied(self.put_in_force(settings)),
            Err(reason) => Reply::Refused(reason),
        }
    }

    /// Answers once the settings file is gone or could not be removed: the defaults are then put in
    /// force, or the request is refused with the reason and nothing changes.
    pub fn file_removed(&mut self, removal: Removal) -> (reply: Reply)
        ensures
            match removal {
                Removal::Failed(reason) => {
                    &&& reply matches Reply::Refused(message) && message@ == reason@
                    &&& final(self)@ == old(self)@
                },
                _ => {
                    &&& reply matches Reply::Applied(a) && applies(
                        old(self)@,
                        old(self)@.defaults,
                        a,
                    )
                    &&& final(self)@ == in_force(old(self)@, old(self)@.defaults)
                },
            },
    {
        match removal {
            Removal::Failed(reason) => Reply::Refused(reason),
            _ => {
                let defaults = self.defaults.clone();
                Reply::Applied(self.put_in_force(defaults))
            },
        }
    }
}

/// Ends an encoded answer with a line feed.
pub fn frame_reply(encoded: Vec<u8>) -> (line: Vec<u8>)
    ensures
        line@ == encoded@.push(0x0a),
{
    let mut line = encoded;
    line.push(0x0a);
    line
}

/// A session goes on as long as the daemon is not stopping and the settings that it began with are
/// still in force.
pub open spec fn session_lasts(stopping: bool, revision: u64, session_revision: u64) -> bool {
    !stopping && revision == session_revision
}

/// Whether a session that began under `session_revision` goes on.
pub fn session_continues(stopping: bool, revision: u64, session_revision: u64) -> (yes: bool)
    ensures
        yes == session_lasts(stopping, revision, session_revision),
{
    !stopping && revision == session_revision
}

/// Putting settings in force ends the session that runs, whatever its settings were.
pub proof fn law_new_settings_end_the_session(s: StateView, settings: ConfigView, stopping: bool)
    ensures
        !session_lasts(stopping, in_force(s, settings).revision, s.revision),
{
}

/// Settings are accepted exactly when they break no rule and keep the port, and are then put in force
/// as they were asked for. The one exception is a mode that is that of the old size and rate, though
/// these change: it is cleared. Any other mode is kept, whatever else changes.
pub proof fn law_accepted_settings_are_those_asked_for(old_settings: ConfigView, new: ConfigView)
    ensures
        accepted(old_settings, new) is Ok <==> valid(new) && new.port == old_settings.port,
        accepted(old_settings, new) matches Ok(got) ==> {
            &&& valid(got)
            &&& got.port == old_settings.port
            &&& got == (ConfigView { mode: got.mode, ..new })
            &&& new.mode != mode_text(old_settings.width, old_settings.height, old_settings.fps)
                ==> got.mode == new.mode
            &&& new.width == old_settings.width && new.height == old_settings.height && new.fps
                == old_settings.fps ==> got.mode == new.mode
            &&& new.mode == mode_text(old_settings.width, old_settings.height, old_settings.fps) && (
            new.width != old_settings.width || new.height != old_settings.height || new.fps
                != old_settings.fps) ==> got.mode.len() == 0
        },
        valid(new) && new.port != old_settings.port ==> accepted(old_settings, new) == Err::<
            ConfigView,
            Seq<char>,
        >("the TCP port requires a daemon restart"@),
        config_error(new) matches Some(problem) ==> accepted(old_settings, new) == Err::<
            ConfigView,
            Seq<char>,
        >(problem),
{
}

/// A changed size or rate takes effect even where the request repeats the mode of the old ones.
pub proof fn law_changed_size_takes_effect(old_settings: ConfigView, new: ConfigView)
    requires
        valid(new),
        new.port == old_settings.port,
        differs_in_mode(new, old_settings),
        new.mode == mode_text(old_settings.width, old_settings.height, old_settings.fps)
            || new.mode.len() == 0,
    ensures
        accepted(old_settings, new) matches Ok(got) && effective_mode(got) == mode_text(
            new.width,
            new.height,
            new.fps,
        ),
{
}

/// The state keeps to the rules: what is in force and what is gone back to break none.
pub open spec fn sound(s: StateView) -> bool {
    valid(s.settings) && valid(s.defaults)
}

/// Every change that is let through keeps the port and the rules, and can be read back.
pub proof fn law_updates_keep_the_state_sound(s: StateView, new: ConfigView)
    requires
        sound(s),
    ensures
        accepted(s.settings, new) matches Ok(got) ==> {
            let after = in_force(s, got);
            &&& sound(after)
            &&& after.settings == got
            &&& after.settings.port == s.settings.port
            &&& after.defaults == s.defaults
            &&& after.status == s.status
            &&& reset_error(after) == reset_error(s)
        },
        reset_error(s) is None ==> {
            let after = in_force(s, s.defaults);
            &&& sound(after)
            &&& after.settings == s.defaults
            &&& after.settings.port == s.settings.port
            &&& after.defaults == s.defaults
            &&& after.status == s.status
        },
{
}

/// What was saved is what a daemon that starts anew goes on with, whatever its own defaults: settings
/// that were accepted and saved, and are read back, are in force again in every field.
pub proof fn law_saved_settings_outlast_the_daemon(
    s: StateView,
    new: ConfigView,
    saved: Config,
    defaults: ConfigView,
)
    requires
        accepted(s.settings, new) == Ok::<ConfigView, Seq<char>>(saved@),
    ensures
        config_error(saved_or(SettingsFile::Read(saved), defaults)) is None,
        saved_or(SettingsFile::Read(saved), defaults) == in_force(s, saved@).settings,
{
}

/// A reset undoes every update: whatever was put in force, the defaults are back.
pub proof fn law_reset_undoes_updates(s: StateView, new: ConfigView)
    requires
        reset_error(s) is None,
    ensures
        accepted(s.settings, new) matches Ok(got) ==> {
            let updated = in_force(s, got);
            &&& reset_error(updated) is None
            &&& in_force(updated, updated.defaults).settings == s.defaults
        },
{
}

/// What a request asks for is said by the text of its member `command`: `get`, `status`, `set` with the
/// member `settings` as it was sent, or `reset`. Any other text is named in the refusal.
pub proof fn law_requests_name_their_command(members: Map<Seq<char>, Json>, command: Seq<char>)
    requires
        members.contains_key("command"@),
        members["command"@] == Json::Text(command),
    ensures
        ({
            let asked = requested(Json::Object(members));
            &&& command == "get"@ ==> asked == Ok::<CommandView, Seq<char>>(CommandView::Get)
            &&& command == "status"@ ==> asked == Ok::<CommandView, Seq<char>>(CommandView::Status)
            &&& command == "reset"@ ==> asked == Ok::<CommandView, Seq<char>>(CommandView::Reset)
            &&& command == "set"@ && members.contains_key("settings"@) ==> asked == Ok::<
                CommandView,
                Seq<char>,
            >(CommandView::Update(members["settings"@]))
            &&& command == "set"@ && !members.contains_key("settings"@) ==> asked == Err::<
                CommandView,
                Seq<char>,
            >("missing settings"@)
            &&& command != "get"@ && command != "status"@ && command != "set"@ && command
                != "reset"@ ==> asked == Err::<CommandView, Seq<char>>(
                "unknown command: "@ + command,
            )
        }),
{
    reveal_strlit("get");
    reveal_strlit("set");
    reveal_strlit("status");
    reveal_strlit("reset");
    assert("get"@.len() == 3 && "set"@.len() == 3 && "status"@.len() == 6 && "reset"@.len() == 5);
    assert("get"@[0] == 'g' && "set"@[0] == 's');
}

/// A value that is no object, or whose member `command` is missing or no text, is no request.
pub proof fn law_requests_have_a_command(request: Json)
    requires
        request is Object && request->Object_0.contains_key("command"@)
            ==> request->Object_0["command"@] !is Text,
    ensures
        requested(request) == Err::<CommandView, Seq<char>>("missing command"@),
{
}

/// Putting settings in force changes the settings to these, and the revision to the next number, with
/// zero after the largest; the defaults and the status stay. The output to switch off is the old one,
/// where the new settings have another.
pub proof fn law_putting_in_force_changes_the_settings_only(s: StateView, settings: ConfigView)
    ensures
        ({
            let after = in_force(s, settings);
            &&& after.settings == settings
            &&& after.defaults == s.defaults
            &&& after.status == s.status
            &&& s.revision < u64::MAX ==> after.revision == s.revision + 1
            &&& s.revision == u64::MAX ==> after.revision == 0
        }),
        forall|applied: Applied| #[trigger]
            applies(s, settings, applied) ==> {
                &&& applied.settings@ == settings
                &&& s.settings.output == settings.output ==> applied.switch_off is None
                &&& s.settings.output != settings.output ==> (applied.switch_off matches Some(output)
                    && output@ == s.settings.output)
                &&& applied.release is Some <==> (s.settings.position_x is Some
                    || s.settings.position_y is Some) && (settings.position_x is None
                    && settings.position_y is None || s.settings.output != settings.output)
                &&& applied.release matches Some(output) ==> output@ == s.settings.output
            },
{
}

/// What a request is answered at first: `get` with the settings, the status and the revision as they
/// are, `status` with the last two, `set` by decoding what was sent, and `reset` by removing the file,
/// unless the defaults have another port.
pub proof fn law_requests_are_answered_from_the_state(
    s: StateView,
    command: CommandView,
    step: Step,
)
    requires
        begins(s, command, step),
    ensures
        command is Get ==> (step matches Step::Answer(Reply::Everything(settings, status, revision))
            && settings@ == s.settings && status@ == s.status && revision == s.revision),
        command is Status ==> (step matches Step::Answer(Reply::Status(status, revision)) && status@
            == s.status && revision == s.revision),
        command matches CommandView::Update(sent) ==> (step matches Step::Decode(value) && json(value)
            == sent),
        command is Reset && s.defaults.port == s.settings.port ==> step is RemoveFile,
        command is Reset && s.defaults.port != s.settings.port ==> (step matches Step::Answer(
            Reply::Refused(message),
        ) && message@ == "resetting the TCP port requires a daemon restart"@),
{
}

/// A session goes on while nothing asks it to end: the daemon runs and the revision is the one that it
/// began with.
pub proof fn law_sessions_last_until_something_changes(
    stopping: bool,
    revision: u64,
    session_revision: u64,
)
    ensures
        session_lasts(false, session_revision, session_revision),
        stopping ==> !session_lasts(stopping, revision, session_revision),
        revision != session_revision ==> !session_lasts(stopping, revision, session_revision),
{
}

/// A request that is none is refused with the reason.
pub proof fn law_wrong_requests_are_refused(s: StateView, request: Json, step: Step)
    requires
        begins_request(s, request, step),
    ensures
        match requested(request) {
            Ok(command) => begins(s, command, step),
            Err(reason) => step matches Step::Answer(Reply::Refused(message)) && message@ == reason,
        },
{
}

} // verus!
