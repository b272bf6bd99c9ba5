//! Application settings with their defaults, and the recording state machine.

use vstd::prelude::*;
use vstd::string::*;

verus! {

/// The provider base URL used until the user sets another.
pub fn default_base_url() -> (r: String)
    ensures
        r@ == "https://api.openai.com/v1"@,
{
    String::from_str("https://api.openai.com/v1")
}

/// How many past transcriptions are kept by default.
pub fn default_history_limit() -> (r: usize)
    ensures
        r == 10,
{
    10
}

/// Results are copied to the clipboard by default.
pub fn default_auto_copy() -> (r: bool)
    ensures
        r,
{
    true
}

/// Seconds of silence after which recording stops by default.
pub fn default_silence_stop_secs() -> (r: u32)
    ensures
        r == 3,
{
    3
}

/// Longest recording, in seconds, by default.
pub fn default_max_duration_secs() -> (r: u32)
    ensures
        r == 120,
{
    120
}

/// The transcription language by default: English.
pub fn default_language() -> (r: Option<String>)
    ensures
        r is Some,
        r->0@ == "en"@,
{
    Some(String::from_str("en"))
}

/// User settings.
pub struct Settings {
    pub base_url: String,
    pub api_key: String,
    pub model: String,
    pub language: Option<String>,
    pub max_duration_secs: u32,
    /// Auto-stop after this many seconds without voiced audio, once speech has
    /// been detected. 0 disables silence-based auto-stop.
    pub silence_stop_secs: u32,
    pub auto_type: bool,
    pub auto_copy: bool,
    pub history_limit: usize,
}

/// Settings as plain values.
pub struct SettingsModel {
    pub base_url: Seq<char>,
    pub api_key: Seq<char>,
    pub model: Seq<char>,
    pub language: Option<Seq<char>>,
    pub max_duration_secs: u32,
    pub silence_stop_secs: u32,
    pub auto_type: bool,
    pub auto_copy: bool,
    pub history_limit: usize,
}

/// The view of an optional string.
pub open spec fn opt_str(o: Option<String>) -> Option<Seq<char>> {
    match o {
        Some(s) => Some(s@),
        None => None,
    }
}

impl View for Settings {
    type V = SettingsModel;

    open spec fn view(&self) -> SettingsModel {
        SettingsModel {
            base_url: self.base_url@,
            api_key: self.api_key@,
            model: self.model@,
            language: opt_str(self.language),
            max_duration_secs: self.max_duration_secs,
            silence_stop_secs: self.silence_stop_secs,
            auto_type: self.auto_type,
            auto_copy: self.auto_copy,
            history_limit: self.history_limit,
        }
    }
}

/// The views of a list of optional strings.
pub open spec fn opt_views(v: Seq<Option<String>>) -> Seq<Option<Seq<char>>> {
    v.map_values(|o: Option<String>| opt_str(o))
}

/// A copy of an optional string.
pub fn clone_opt(o: &Option<String>) -> (r: Option<String>)
    ensures
        r == *o,
{
    match o {
        Some(s) => Some(s.clone()),
        None => None,
    }
}

impl Default for Settings {
    fn default() -> (s: Settings)
        ensures
            s@.base_url == "https://api.openai.com/v1"@,
            s@.api_key.len() == 0,
            s@.model.len() == 0,
            s@.language == Some("en"@),
            s.max_duration_secs == 120,
            s.silence_stop_secs == 3,
            !s.auto_type,
            s.auto_copy,
            s.history_limit == 10,
    {
        Settings {
            base_url: default_base_url(),
            api_key: String::new(),
            model: String::new(),
            language: Some(String::from_str("en")),
            max_duration_secs: 120,
            silence_stop_secs: 3,
            auto_type: false,
            auto_copy: true,
            history_limit: 10,
        }
    }
}

/// Where the recorder stands. `S` is the live session that a recording holds.
pub enum RecordingState<S> {
    Idle,
    LiveRecording { session: S },
    Transcribing,
}

/// What a press of the record toggle asks for.
#[derive(Clone, Copy, PartialEq, Eq, Structural)]
pub enum ToggleAction {
    /// Start a live session (the state now reserves the slot as `Transcribing`).
    Start,
    /// Stop the running live session.
    Stop,
    /// A transcription is being finished: the press is ignored.
    Noop,
}

/// The action a toggle takes from a state.
pub open spec fn toggle_action<S>(s: RecordingState<S>) -> ToggleAction {
    match s {
        RecordingState::Idle => ToggleAction::Start,
        RecordingState::LiveRecording { .. } => ToggleAction::Stop,
        RecordingState::Transcribing => ToggleAction::Noop,
    }
}

/// A toggle starts a session only from `Idle`: while a session is live or
/// being finished, no second one can start.
pub proof fn lemma_toggle_starts_only_from_idle<S>(s: RecordingState<S>)
    ensures
        toggle_action(s) == ToggleAction::Start <==> s is Idle,
{
}

/// Handles a press of the record toggle: from `Idle` it reserves the
/// recorder (`Transcribing`, until the session is in place) and asks to
/// start; during a live recording it asks to stop; while transcribing it
/// does nothing. Only `Idle` changes the state.
pub fn toggle_recording<S>(state: &mut RecordingState<S>) -> (a: ToggleAction)
    ensures
        a == toggle_action(*old(state)),
        a == ToggleAction::Start ==> *final(state) is Transcribing,
        a != ToggleAction::Start ==> *final(state) == *old(state),
        *old(state) is Idle ==> a == ToggleAction::Start && *final(state) is Transcribing,
        *old(state) is LiveRecording ==> a == ToggleAction::Stop && *final(state) == *old(state),
        *old(state) is Transcribing ==> a == ToggleAction::Noop && *final(state) is Transcribing,
{
    match state {
        RecordingState::Idle => {
            *state = RecordingState::Transcribing;
            ToggleAction::Start
        },
        RecordingState::LiveRecording { .. } => ToggleAction::Stop,
        RecordingState::Transcribing => ToggleAction::Noop,
    }
}

/// Takes the live session out of the state to stop it: a live recording
/// becomes `Transcribing` and its session is returned; any other state is
/// left as it is and nothing is returned.
pub fn take_live_session<S>(state: &mut RecordingState<S>) -> (r: Option<S>)
    ensures
        match *old(state) {
            RecordingState::LiveRecording { session } => r == Some(session)
                && (*final(state) is Transcribing),
            _ => r is None && *final(state) == *old(state),
        },
{
    let mut taken: RecordingState<S> = RecordingState::Transcribing;
    std::mem::swap(state, &mut taken);
    match taken {
        RecordingState::LiveRecording { session } => Some(session),
        other => {
            *state = other;
            None
        },
    }
}

/// The state once a start attempt is over: live with the started session,
/// or idle when there was none to start (no API key, or capture failed).
pub open spec fn after_start<S>(started: Option<S>) -> RecordingState<S> {
    match started {
        Some(session) => RecordingState::LiveRecording { session },
        None => RecordingState::Idle,
    }
}

/// Ends a start attempt: the recorder goes live with the started session, or
/// back to idle.
pub fn complete_start<S>(state: &mut RecordingState<S>, started: Option<S>)
    ensures
        *final(state) == after_start(started),
        started matches Some(x) ==> (*final(state) == (RecordingState::LiveRecording {
            session: x,
        })),
        started is None ==> (*final(state) is Idle),
{
    *state = match started {
        Some(session) => RecordingState::LiveRecording { session },
        None => RecordingState::Idle,
    };
}

/// Ends a stop: the transcript has been delivered or reported, and the
/// recorder is idle again.
pub fn complete_stop<S>(state: &mut RecordingState<S>)
    ensures
        *final(state) is Idle,
{
    *state = RecordingState::Idle;
}

/// The state after a whole toggle from `s`, when nothing else runs meanwhile:
/// a start ends per [`after_start`] with `started` (the session, if one was
/// started); a stop takes the session and ends idle; an ignored toggle
/// changes nothing.
pub open spec fn toggle_round<S>(s: RecordingState<S>, started: Option<S>) -> RecordingState<S> {
    match toggle_action(s) {
        ToggleAction::Start => after_start(started),
        ToggleAction::Stop => RecordingState::Idle,
        ToggleAction::Noop => s,
    }
}

/// A whole toggle from `Idle` or from a live recording never leaves the
/// recorder in `Transcribing`: from a live recording it ends idle, from idle
/// it ends live exactly when a session was started.
pub proof fn lemma_toggle_round_settles<S>(s: RecordingState<S>, started: Option<S>)
    requires
        !(s is Transcribing),
    ensures
        !(toggle_round(s, started) is Transcribing),
        s is LiveRecording ==> toggle_round(s, started) is Idle,
        s is Idle ==> (toggle_round(s, started) is LiveRecording <==> started is Some),
{
}

} // verus!
