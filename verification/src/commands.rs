//! The decisions behind the app's commands: the settings shown to the
//! renderer, settings persistence and saving, status, history, the provider
//! model list, and the steps of starting and stopping a dictation.

use vstd::prelude::*;
use vstd::string::*;

use crate::live::{base_url_verdict, validate_base_url, ApiConfig, FinalTranscript};
use crate::state::{clone_opt, opt_str, opt_views, RecordingState, Settings, SettingsModel};
use crate::text::{
    contains, contains_seq, preview, preview_of, same_str, sort_strings, sorted_lex, views,
};

verus! {

/// What the renderer is told about the recorder.
pub struct AppStatus {
    pub state: String,
    pub last_result: Option<String>,
}

/// The name of a recorder state as the renderer sees it.
pub open spec fn status_label<S>(s: RecordingState<S>) -> Seq<char> {
    match s {
        RecordingState::Idle => "idle"@,
        RecordingState::LiveRecording { .. } => "recording"@,
        RecordingState::Transcribing => "transcribing"@,
    }
}

/// The status report: the recorder state's name and the last result.
pub fn get_status<S>(recording: &RecordingState<S>, last_result: &Option<String>) -> (r: AppStatus)
    ensures
        r.state@ == status_label(*recording),
        r.last_result == *last_result,
        *recording is Idle ==> r.state@ == "idle"@,
        *recording is LiveRecording ==> r.state@ == "recording"@,
        *recording is Transcribing ==> r.state@ == "transcribing"@,
{
    let state: String = match recording {
        RecordingState::Idle => String::from_str("idle"),
        RecordingState::LiveRecording { .. } => String::from_str("recording"),
        RecordingState::Transcribing => String::from_str("transcribing"),
    };
    AppStatus { state, last_result: clone_opt(last_result) }
}

/// Settings as exposed to the webview. The API key is deliberately not
/// included; `has_api_key` tells whether one is stored.
pub struct SettingsView {
    pub base_url: String,
    pub model: String,
    pub language: Option<String>,
    pub max_duration_secs: u32,
    pub silence_stop_secs: u32,
    pub auto_type: bool,
    pub auto_copy: bool,
    pub history_limit: usize,
    pub has_api_key: bool,
}

impl<'a> From<&'a Settings> for SettingsView {
    fn from(s: &'a Settings) -> (r: SettingsView) {
        SettingsView {
            base_url: s.base_url.clone(),
            model: s.model.clone(),
            language: clone_opt(&s.language),
            max_duration_secs: s.max_duration_secs,
            silence_stop_secs: s.silence_stop_secs,
            auto_type: s.auto_type,
            auto_copy: s.auto_copy,
            history_limit: s.history_limit,
            has_api_key: !s.api_key.as_str().is_empty(),
        }
    }
}

impl<'a> vstd::std_specs::convert::FromSpecImpl<&'a Settings> for SettingsView {
    open spec fn obeys_from_spec() -> bool {
        true
    }

    open spec fn from_spec(s: &'a Settings) -> SettingsView {
        SettingsView {
            base_url: s.base_url,
            model: s.model,
            language: s.language,
            max_duration_secs: s.max_duration_secs,
            silence_stop_secs: s.silence_stop_secs,
            auto_type: s.auto_type,
            auto_copy: s.auto_copy,
            history_limit: s.history_limit,
            has_api_key: s.api_key@.len() > 0,
        }
    }
}

/// What the settings store holds under each key, as far as it has the type
/// the key is read as: a string, an optional string for `language` (present
/// but not a string reads as `None`), an unsigned integer, or a boolean.
/// `None` means the key is absent or holds a value of another type.
pub struct StoredSettings {
    pub base_url: Option<String>,
    pub api_key: Option<String>,
    pub model: Option<String>,
    pub language: Option<Option<String>>,
    pub max_duration_secs: Option<u64>,
    pub silence_stop_secs: Option<u64>,
    pub auto_type: Option<bool>,
    pub auto_copy: Option<bool>,
    pub history_limit: Option<u64>,
}

/// Stored settings as plain values.
pub struct StoredModel {
    pub base_url: Option<Seq<char>>,
    pub api_key: Option<Seq<char>>,
    pub model: Option<Seq<char>>,
    pub language: Option<Option<Seq<char>>>,
    pub max_duration_secs: Option<u64>,
    pub silence_stop_secs: Option<u64>,
    pub auto_type: Option<bool>,
    pub auto_copy: Option<bool>,
    pub history_limit: Option<u64>,
}

impl View for StoredSettings {
    type V = StoredModel;

    open spec fn view(&self) -> StoredModel {
        StoredModel {
            base_url: opt_str(self.base_url),
            api_key: opt_str(self.api_key),
            model: opt_str(self.model),
            language: match self.language {
                Some(l) => Some(opt_str(l)),
                None => None,
            },
            max_duration_secs: self.max_duration_secs,
            silence_stop_secs: self.silence_stop_secs,
            auto_type: self.auto_type,
            auto_copy: self.auto_copy,
            history_limit: self.history_limit,
        }
    }
}

/// `v` clamped to `lo..=hi`.
pub open spec fn clamp(v: int, lo: int, hi: int) -> int {
    if v < lo {
        lo
    } else if v > hi {
        hi
    } else {
        v
    }
}

/// The stored value when there is one, else the current value.
pub open spec fn or_keep<T>(stored: Option<T>, current: T) -> T {
    match stored {
        Some(v) => v,
        None => current,
    }
}

/// The settings after reading the store over `s`: each key that is present
/// with the right type replaces its setting; the durations are taken modulo
/// 2^32 (as `u64 as u32`), and the history limit is clamped to `1..=9999`.
pub open spec fn loaded(s: SettingsModel, st: StoredModel) -> SettingsModel {
    SettingsModel {
        base_url: or_keep(st.base_url, s.base_url),
        api_key: or_keep(st.api_key, s.api_key),
        model: or_keep(st.model, s.model),
        language: or_keep(st.language, s.language),
        max_duration_secs: match st.max_duration_secs {
            Some(v) => v as u32,
            None => s.max_duration_secs,
        },
        silence_stop_secs: match st.silence_stop_secs {
            Some(v) => v as u32,
            None => s.silence_stop_secs,
        },
        auto_type: or_keep(st.auto_type, s.auto_type),
        auto_copy: or_keep(st.auto_copy, s.auto_copy),
        history_limit: match st.history_limit {
            Some(v) => clamp((v as usize) as int, 1, 9999) as usize,
            None => s.history_limit,
        },
    }
}

/// What saving the settings writes: every key, with its value.
pub open spec fn persisted(s: SettingsModel) -> StoredModel {
    StoredModel {
        base_url: Some(s.base_url),
        api_key: Some(s.api_key),
        model: Some(s.model),
        language: Some(s.language),
        max_duration_secs: Some(s.max_duration_secs as u64),
        silence_stop_secs: Some(s.silence_stop_secs as u64),
        auto_type: Some(s.auto_type),
        auto_copy: Some(s.auto_copy),
        history_limit: Some(s.history_limit as u64),
    }
}

/// Reading the store: each key present with the right type replaces its
/// setting and each absent one keeps it; a duration that fits in 32 bits is
/// taken as it is; the history limit becomes a number from 1 to 9999 (the
/// stored one when it lies there, 1 for 0, 9999 for anything larger).
pub proof fn lemma_loaded_fields(s: SettingsModel, st: StoredModel)
    ensures
        st.base_url matches Some(v) ==> loaded(s, st).base_url == v,
        st.base_url is None ==> loaded(s, st).base_url == s.base_url,
        st.api_key matches Some(v) ==> loaded(s, st).api_key == v,
        st.api_key is None ==> loaded(s, st).api_key == s.api_key,
        st.model matches Some(v) ==> loaded(s, st).model == v,
        st.model is None ==> loaded(s, st).model == s.model,
        st.language matches Some(v) ==> loaded(s, st).language == v,
        st.language is None ==> loaded(s, st).language == s.language,
        st.max_duration_secs matches Some(v) ==> (v <= u32::MAX ==> loaded(s, st).max_duration_secs
            == v),
        st.max_duration_secs is None ==> loaded(s, st).max_duration_secs == s.max_duration_secs,
        st.silence_stop_secs matches Some(v) ==> (v <= u32::MAX ==> loaded(s, st).silence_stop_secs
            == v),
        st.silence_stop_secs is None ==> loaded(s, st).silence_stop_secs == s.silence_stop_secs,
        st.auto_type matches Some(v) ==> loaded(s, st).auto_type == v,
        st.auto_type is None ==> loaded(s, st).auto_type == s.auto_type,
        st.auto_copy matches Some(v) ==> loaded(s, st).auto_copy == v,
        st.auto_copy is None ==> loaded(s, st).auto_copy == s.auto_copy,
        st.history_limit is Some ==> 1 <= loaded(s, st).history_limit <= 9999,
        st.history_limit matches Some(v) ==> (1 <= v <= 9999 ==> loaded(s, st).history_limit == v),
        st.history_limit matches Some(v) ==> (v == 0 ==> loaded(s, st).history_limit == 1),
        st.history_limit matches Some(v) ==> (9999 < v <= usize::MAX ==> loaded(
            s,
            st,
        ).history_limit == 9999),
        st.history_limit is None ==> loaded(s, st).history_limit == s.history_limit,
{
}

/// Applies what the settings store holds to the current settings.
pub fn load_settings(settings: &mut Settings, stored: StoredSettings)
    ensures
        final(settings)@ == loaded(old(settings)@, stored@),
{
    if let Some(v) = stored.base_url {
        settings.base_url = v;
    }
    if let Some(v) = stored.api_key {
        settings.api_key = v;
    }
    if let Some(v) = stored.model {
        settings.model = v;
    }
    if let Some(v) = stored.language {
        settings.language = v;
    }
    if let Some(v) = stored.max_duration_secs {
        settings.max_duration_secs = v as u32;
    }
    if let Some(v) = stored.silence_stop_secs {
        settings.silence_stop_secs = v as u32;
    }
    if let Some(v) = stored.auto_type {
        settings.auto_type = v;
    }
    if let Some(v) = stored.auto_copy {
        settings.auto_copy = v;
    }
    if let Some(v) = stored.history_limit {
        let u: usize = v as usize;
        settings.history_limit = if u < 1 {
            1
        } else if u > 9999 {
            9999
        } else {
            u
        };
    }
}

/// What to write to the settings store for `settings`.
pub fn persist_settings(settings: &Settings) -> (r: StoredSettings)
    ensures
        r@ == persisted(settings@),
{
    StoredSettings {
        base_url: Some(settings.base_url.clone()),
        api_key: Some(settings.api_key.clone()),
        model: Some(settings.model.clone()),
        language: Some(clone_opt(&settings.language)),
        max_duration_secs: Some(settings.max_duration_secs as u64),
        silence_stop_secs: Some(settings.silence_stop_secs as u64),
        auto_type: Some(settings.auto_type),
        auto_copy: Some(settings.auto_copy),
        history_limit: Some(settings.history_limit as u64),
    }
}

/// Settings saved to the store are what a later start reads back, whatever
/// the settings were before the read, provided the history limit lies in
/// `1..=9999` (outside it the read clamps the limit).
pub proof fn lemma_saved_settings_read_back(s: SettingsModel, before: SettingsModel)
    requires
        1 <= s.history_limit <= 9999,
    ensures
        loaded(before, persisted(s)) == s,
{
}

/// Reading a store that holds none of the keys leaves the settings unchanged.
pub proof fn lemma_empty_store_keeps_settings(s: SettingsModel)
    ensures
        loaded(
            s,
            StoredModel {
                base_url: None,
                api_key: None,
                model: None,
                language: None,
                max_duration_secs: None,
                silence_stop_secs: None,
                auto_type: None,
                auto_copy: None,
                history_limit: None,
            },
        ) == s,
{
}

/// The settings that saving `incoming` over `current` keeps: an empty API key
/// or an empty model in `incoming` means "keep the current one".
pub open spec fn merged(current: SettingsModel, incoming: SettingsModel) -> SettingsModel {
    SettingsModel {
        api_key: if incoming.api_key.len() == 0 {
            current.api_key
        } else {
            incoming.api_key
        },
        model: if incoming.model.len() == 0 {
            current.model
        } else {
            incoming.model
        },
        ..incoming
    }
}

/// Saving takes every setting from what the user saved, except an empty API
/// key or model, which falls back to the current one; a non-empty key or
/// model replaces the current one.
pub proof fn lemma_saved_settings_come_from_user(current: SettingsModel, incoming: SettingsModel)
    ensures
        merged(current, incoming).base_url == incoming.base_url,
        merged(current, incoming).language == incoming.language,
        merged(current, incoming).max_duration_secs == incoming.max_duration_secs,
        merged(current, incoming).silence_stop_secs == incoming.silence_stop_secs,
        merged(current, incoming).auto_type == incoming.auto_type,
        merged(current, incoming).auto_copy == incoming.auto_copy,
        merged(current, incoming).history_limit == incoming.history_limit,
        incoming.api_key.len() > 0 ==> merged(current, incoming).api_key == incoming.api_key,
        incoming.api_key.len() == 0 ==> merged(current, incoming).api_key == current.api_key,
        incoming.model.len() > 0 ==> merged(current, incoming).model == incoming.model,
        incoming.model.len() == 0 ==> merged(current, incoming).model == current.model,
{
}

/// Checks and merges settings that the user saves: the base URL must pass
/// [`validate_base_url`] (its error is returned otherwise), and an empty API
/// key or model keeps the current one.
pub fn save_settings(current: &Settings, incoming: Settings) -> (r: Result<Settings, String>)
    ensures
        r is Ok <==> base_url_verdict(incoming.base_url@) is Ok,
        r matches Err(e) ==> base_url_verdict(incoming.base_url@) == Err::<(), Seq<char>>(e@),
        r matches Ok(n) ==> n@ == merged(current@, incoming@),
        r matches Ok(n) ==> {
            &&& n@.base_url == incoming@.base_url
            &&& n@.language == incoming@.language
            &&& n@.max_duration_secs == incoming@.max_duration_secs
            &&& n@.silence_stop_secs == incoming@.silence_stop_secs
            &&& n@.auto_type == incoming@.auto_type
            &&& n@.auto_copy == incoming@.auto_copy
            &&& n@.history_limit == incoming@.history_limit
            &&& n@.api_key == (if incoming@.api_key.len() == 0 {
                current@.api_key
            } else {
                incoming@.api_key
            })
            &&& n@.model == (if incoming@.model.len() == 0 {
                current@.model
            } else {
                incoming@.model
            })
        },
{
    let mut settings: Settings = incoming;
    match validate_base_url(settings.base_url.as_str()) {
        Err(e) => {
            return Err(e);
        },
        Ok(()) => {},
    }
    if settings.api_key.as_str().is_empty() {
        settings.api_key = current.api_key.clone();
    }
    if settings.model.as_str().is_empty() {
        settings.model = current.model.clone();
    }
    Ok(settings)
}

/// The key to list provider models with: the key the user just typed, or,
/// when that is empty, the stored one.
pub fn provider_api_key(typed: String, current: &Settings) -> (r: String)
    ensures
        r@ == (if typed@.len() == 0 {
            current.api_key@
        } else {
            typed@
        }),
{
    if typed.as_str().is_empty() {
        current.api_key.clone()
    } else {
        typed
    }
}

/// The ids of the listed models that are strings naming a Whisper model, in
/// the order listed.
pub open spec fn whisper_ids(ids: Seq<Option<Seq<char>>>) -> Seq<Seq<char>>
    decreases ids.len(),
{
    if ids.len() == 0 {
        Seq::empty()
    } else {
        let rest = whisper_ids(ids.drop_last());
        match ids.last() {
            Some(id) => if contains_seq(id, "whisper"@) {
                rest.push(id)
            } else {
                rest
            },
            None => rest,
        }
    }
}

/// The seven characters `whisper` occur in `id`.
pub open spec fn names_whisper(id: Seq<char>) -> bool {
    exists|k: int| 0 <= k && k + 7 <= id.len() && #[trigger] id.subrange(k, k + 7) == "whisper"@
}

/// The kept ids are exactly the string ids that contain `whisper`: each kept
/// id contains it and was listed, each listed id that contains it is kept,
/// and nothing else is.
pub proof fn lemma_whisper_ids_members(ids: Seq<Option<Seq<char>>>)
    ensures
        whisper_ids(ids).len() <= ids.len(),
        forall|i: int| 0 <= i < whisper_ids(ids).len() ==> names_whisper(#[trigger] whisper_ids(ids)[i]),
        forall|i: int|
            0 <= i < whisper_ids(ids).len() ==> ids.contains(Some(#[trigger] whisper_ids(ids)[i])),
        forall|j: int|
            0 <= j < ids.len() && (#[trigger] ids[j] matches Some(id) && contains_seq(
                id,
                "whisper"@,
            )) ==> whisper_ids(ids).contains(ids[j]->0),
    decreases ids.len(),
{
    reveal_strlit("whisper");
    if ids.len() > 0 {
        let rest = ids.drop_last();
        lemma_whisper_ids_members(rest);
        let w = whisper_ids(ids);
        let wr = whisper_ids(rest);
        assert forall|i: int| 0 <= i < w.len() implies ids.contains(Some(#[trigger] w[i])) by {
            if i < wr.len() {
                assert(w[i] == wr[i]);
                let k = choose|k: int| 0 <= k < rest.len() && rest[k] == Some(wr[i]);
                assert(ids[k] == rest[k]);
            } else {
                assert(ids[ids.len() - 1] == Some(w[i]));
            }
        }
        assert forall|i: int| 0 <= i < w.len() implies names_whisper(#[trigger] w[i]) by {
            if i < wr.len() {
                assert(w[i] == wr[i]);
                assert(names_whisper(wr[i]));
            } else {
                let id = ids.last()->0;
                assert(w[i] == id);
                let k = choose|k: int|
                    0 <= k <= id.len() - "whisper"@.len() && #[trigger] id.subrange(
                        k,
                        k + "whisper"@.len(),
                    ) == "whisper"@;
                assert(w[i].subrange(k, k + 7) == "whisper"@);
                assert(names_whisper(w[i]));
            }
        }
        assert forall|j: int|
            0 <= j < ids.len() && (#[trigger] ids[j] matches Some(id) && contains_seq(
                id,
                "whisper"@,
            )) implies w.contains(ids[j]->0) by {
            if j < rest.len() {
                assert(rest[j] == ids[j]);
                let k = choose|k: int| 0 <= k < wr.len() && wr[k] == ids[j]->0;
                assert(w[k] == wr[k]);
            } else {
                assert(w[w.len() - 1] == ids[j]->0);
            }
        }
    }
}

/// Keeps the model ids that name a Whisper model (those containing
/// `whisper`), in order; entries without a string id are skipped.
pub fn keep_whisper_models(ids: &Vec<Option<String>>) -> (r: Vec<String>)
    ensures
        views(r@) == whisper_ids(opt_views(ids@)),
{
    let mut r: Vec<String> = Vec::new();
    let n: usize = ids.len();
    let mut i: usize = 0;
    while i < n
        invariant
            n == ids@.len(),
            i <= n,
            views(r@) == whisper_ids(opt_views(ids@.take(i as int))),
        decreases n - i,
    {
        assert(opt_views(ids@.take(i + 1)).drop_last() =~= opt_views(ids@.take(i as int)));
        assert(opt_views(ids@.take(i + 1)).last() == opt_str(ids@[i as int]));
        match &ids[i] {
            Some(id) => {
                if contains(id.as_str(), "whisper") {
                    r.push(id.clone());
                    assert(views(r@) =~= whisper_ids(opt_views(ids@.take(i as int))).push(id@));
                }
            },
            None => {},
        }
        i = i + 1;
    }
    assert(ids@.take(n as int) =~= ids@);
    r
}

/// The provider's Whisper models, sorted: the string ids among `ids` that
/// contain `whisper`, in ascending order.
pub fn whisper_models(ids: &Vec<Option<String>>) -> (r: Vec<String>)
    ensures
        sorted_lex(views(r@)),
        views(r@).to_multiset() == whisper_ids(opt_views(ids@)).to_multiset(),
{
    let kept: Vec<String> = keep_whisper_models(ids);
    sort_strings(&kept)
}

/// `base` followed by `suffix`.
fn join_url(base: &str, suffix: &str) -> (r: String)
    ensures
        r@ == base@ + suffix@,
{
    let mut r: String = String::from_str(base);
    r.append(suffix);
    r
}

/// The provider endpoint that lists models.
pub fn models_url(base_url: &str) -> (r: String)
    ensures
        r@ == base_url@ + "/models"@,
{
    join_url(base_url, "/models")
}

/// The newest result first, then the older ones, keeping at most `limit`.
pub open spec fn history_after(history: Seq<String>, text: String, limit: usize) -> Seq<String> {
    let all = seq![text] + history;
    if limit <= all.len() {
        all.take(limit as int)
    } else {
        all
    }
}

/// Records a finished transcription at the front of the history and drops
/// the oldest entries beyond `limit`.
pub fn record_result(history: &mut Vec<String>, text: String, limit: usize)
    ensures
        final(history)@ == history_after(old(history)@, text, limit),
        final(history)@.len() <= limit,
        limit > 0 ==> final(history)@[0] == text,
        final(history)@.len() == (if old(history)@.len() + 1 <= limit {
            old(history)@.len() + 1int
        } else {
            limit as int
        }),
        forall|i: int|
            0 <= i < final(history)@.len() - 1 ==> #[trigger] final(history)@[i + 1] == old(
                history,
            )@[i],
{
    history.insert(0, text);
    assert(old(history)@.insert(0, text) =~= seq![text] + old(history)@);
    history.truncate(limit);
}

/// Removes the history entry at `index`, if there is one, and says whether
/// the history changed.
pub fn remove_history_item(history: &mut Vec<String>, index: usize) -> (removed: bool)
    ensures
        removed == (index < old(history)@.len()),
        removed ==> final(history)@ == old(history)@.remove(index as int),
        !removed ==> final(history)@ == old(history)@,
{
    if index < history.len() {
        history.remove(index);
        true
    } else {
        false
    }
}

/// Empties the history.
pub fn clear_history(history: &mut Vec<String>)
    ensures
        final(history)@.len() == 0,
{
    history.clear();
}

/// How a finished session is reported: its text, or the message shown when
/// there is none.
pub open spec fn stop_report(t: crate::live::TranscriptView) -> Result<Seq<char>, Seq<char>> {
    match t {
        crate::live::TranscriptView::Text(s) => Ok(s),
        crate::live::TranscriptView::NoSpeech => Err("No speech detected."@),
        crate::live::TranscriptView::NoText => Err("No speech transcribed."@),
        crate::live::TranscriptView::Error(e) => Err("Transcription failed: "@ + e),
    }
}

/// The text of a finished session, or the error message to show for it.
pub fn stop_outcome(result: FinalTranscript) -> (r: Result<String, String>)
    ensures
        match r {
            Ok(t) => stop_report(result.view()) == Ok::<Seq<char>, Seq<char>>(t@),
            Err(e) => stop_report(result.view()) == Err::<Seq<char>, Seq<char>>(e@),
        },
        r is Ok <==> result is Text,
        result matches FinalTranscript::Text(t) ==> r == Ok::<String, String>(t),
        result matches FinalTranscript::Error(e) ==> (r matches Err(m) && m@
            == "Transcription failed: "@ + e@),
        result is NoSpeech ==> (r matches Err(m) && m@ == "No speech detected."@),
        result is NoText ==> (r matches Err(m) && m@ == "No speech transcribed."@),
{
    match result {
        FinalTranscript::Text(t) => Ok(t),
        FinalTranscript::NoSpeech => Err(String::from_str("No speech detected.")),
        FinalTranscript::NoText => Err(String::from_str("No speech transcribed.")),
        FinalTranscript::Error(e) => {
            let mut msg: String = String::from_str("Transcription failed: ");
            msg.append(e.as_str());
            Err(msg)
        },
    }
}

/// The provider configuration held in the settings.
pub fn api_config(settings: &Settings) -> (r: ApiConfig)
    ensures
        r.base_url@ == settings.base_url@,
        r.api_key@ == settings.api_key@,
        r.model@ == settings.model@,
        opt_str(r.language) == opt_str(settings.language),
{
    ApiConfig {
        base_url: settings.base_url.clone(),
        api_key: settings.api_key.clone(),
        model: settings.model.clone(),
        language: clone_opt(&settings.language),
    }
}

/// What starting a dictation needs from the settings.
pub struct StartPlan {
    pub config: ApiConfig,
    pub max_secs: u32,
    pub silence_secs: u32,
}

/// The plan for starting a dictation: none when no API key is set (the app
/// then returns to idle and asks for a key), else the provider configuration
/// and the two auto-stop limits.
pub fn start_plan(settings: &Settings) -> (r: Option<StartPlan>)
    ensures
        r is None <==> settings.api_key@.len() == 0,
        r matches Some(p) ==> {
            &&& p.config.base_url@ == settings.base_url@
            &&& p.config.api_key@ == settings.api_key@
            &&& p.config.model@ == settings.model@
            &&& opt_str(p.config.language) == opt_str(settings.language)
            &&& p.max_secs == settings.max_duration_secs
            &&& p.silence_secs == settings.silence_stop_secs
        },
{
    let config: ApiConfig = api_config(settings);
    if config.api_key.as_str().is_empty() {
        return None;
    }
    Some(
        StartPlan {
            config,
            max_secs: settings.max_duration_secs,
            silence_secs: settings.silence_stop_secs,
        },
    )
}

/// Whether a running dictation stops on its own: the maximum duration (when
/// not 0) has elapsed, or the session has been silent for the silence limit
/// (when not 0). Times are in milliseconds.
pub fn should_auto_stop(
    max_secs: u32,
    silence_secs: u32,
    elapsed_ms: u64,
    had_speech: bool,
    idle_ms: u64,
) -> (r: bool)
    ensures
        r == ((max_secs > 0 && elapsed_ms >= max_secs * 1000) || (silence_secs > 0
            && crate::live::spec_silent_for(had_speech, idle_ms as int, silence_secs * 1000))),
        r == ((max_secs > 0 && elapsed_ms >= max_secs * 1000) || (silence_secs > 0 && had_speech
            && idle_ms >= silence_secs * 1000)),
{
    let max_hit: bool = max_secs > 0 && elapsed_ms >= (max_secs as u64) * 1000;
    let silence_hit: bool = silence_secs > 0 && crate::live::silent_for(
        had_speech,
        idle_ms,
        (silence_secs as u64) * 1000,
    );
    max_hit || silence_hit
}

/// A desktop notification.
pub struct Notice {
    pub title: String,
    pub body: String,
}

/// What to do with a finished transcription: copy it, type it, and when it
/// is not typed, notify with a 60-character preview.
pub struct FinishPlan {
    pub copy: bool,
    pub type_text: bool,
    pub notice: Option<Notice>,
}

/// The follow-up for a finished transcription under the auto-copy and
/// auto-type settings.
pub fn finish_plan(text: &str, auto_copy: bool, auto_type: bool) -> (r: FinishPlan)
    ensures
        r.copy == auto_copy,
        r.type_text == auto_type,
        r.notice is Some <==> !auto_type,
        r.notice matches Some(n) ==> {
            &&& n.title@ == (if auto_copy {
                "ears - copied"@
            } else {
                "ears - transcribed"@
            })
            &&& n.body@ == preview_of(text@, 60)
        },
{
    let notice: Option<Notice> = if !auto_type {
        let title: String = if auto_copy {
            String::from_str("ears - copied")
        } else {
            String::from_str("ears - transcribed")
        };
        Some(Notice { title, body: preview(text, 60) })
    } else {
        None
    };
    FinishPlan { copy: auto_copy, type_text: auto_type, notice }
}

/// Whether the command line asks to toggle recording: its first argument
/// after the program name is `toggle`.
pub fn is_toggle_request(args: &Vec<String>) -> (r: bool)
    ensures
        r == (args@.len() > 1 && args@[1]@ == "toggle"@),
{
    if args.len() > 1 {
        same_str(args[1].as_str(), "toggle")
    } else {
        false
    }
}

/// The lower-case hex digit of `n` (`0 <= n < 16`).
pub open spec fn hex_digit(n: int) -> char {
    seq!['0', '1', '2', '3', '4', '5', '6', '7', '8', '9', 'a', 'b', 'c', 'd', 'e', 'f'][n]
}

/// How `serde_json` writes one character inside a JSON string: `"` and `\`
/// and the control characters below U+0020 are escaped (`\b`, `\t`, `\n`,
/// `\f`, `\r`, else `\u00XX` in lower-case hex); every other character is
/// written as it is.
pub open spec fn json_char(c: char) -> Seq<char> {
    let u = c as u32;
    if c == '"' {
        seq!['\\', '"']
    } else if c == '\\' {
        seq!['\\', '\\']
    } else if u == 8 {
        seq!['\\', 'b']
    } else if u == 9 {
        seq!['\\', 't']
    } else if u == 10 {
        seq!['\\', 'n']
    } else if u == 12 {
        seq!['\\', 'f']
    } else if u == 13 {
        seq!['\\', 'r']
    } else if u < 32 {
        seq!['\\', 'u', '0', '0', hex_digit((u / 16) as int), hex_digit((u % 16) as int)]
    } else {
        seq![c]
    }
}

/// The escaped contents of a JSON string.
pub open spec fn json_str_contents(s: Seq<char>) -> Seq<char>
    decreases s.len(),
{
    if s.len() == 0 {
        Seq::empty()
    } else {
        json_str_contents(s.drop_last()) + json_char(s.last())
    }
}

/// A JSON string literal.
pub open spec fn json_string(s: Seq<char>) -> Seq<char> {
    seq!['"'] + json_str_contents(s) + seq!['"']
}

/// The strings as JSON array elements, separated by commas.
pub open spec fn json_elements(h: Seq<Seq<char>>) -> Seq<char>
    decreases h.len(),
{
    if h.len() == 0 {
        Seq::empty()
    } else if h.len() == 1 {
        json_string(h[0])
    } else {
        json_elements(h.drop_last()) + seq![','] + json_string(h.last())
    }
}

/// A list of strings as compact JSON, as `serde_json::to_string` writes a
/// `Vec<String>`: `[`, the string literals separated by `,`, `]`.
pub open spec fn json_array(h: Seq<Seq<char>>) -> Seq<char> {
    seq!['['] + json_elements(h) + seq![']']
}

/// What `serde_json::from_str::<Vec<String>>` makes of a text: the list of
/// strings when it is a JSON array of strings, `None` otherwise.
pub uninterp spec fn parsed_history(json: Seq<char>) -> Option<Seq<Seq<char>>>;

/// Parses the history file's text with `serde_json::from_str::<Vec<String>>`.
/// The contract claims that the result is the parser's, a function of the
/// text (`None` exactly when parsing fails), and that the compact JSON that
/// `serde_json::to_string` writes for a list of strings ([`json_array`]) parses
/// back to that list: the parser reads arrays and strings and decodes the
/// escapes `\"`, `\\`, `\b`, `\f`, `\n`, `\r`, `\t` and `\uXXXX`.
#[verifier::external_body]
fn parse_history(json: &str) -> (r: Option<Vec<String>>)
    ensures
        match r {
            Some(v) => parsed_history(json@) == Some(views(v@)),
            None => parsed_history(json@) is None,
        },
        r is None ==> forall|h: Seq<Seq<char>>| #[trigger] json_array(h) != json@,
        r matches Some(v) ==> forall|h: Seq<Seq<char>>| #[trigger] json_array(h) == json@
            ==> views(v@) == h,
{
    serde_json::from_str::<Vec<String>>(json).ok()
}

/// Replaces the history with the one stored in the history file's text; a
/// text that is not a JSON array of strings leaves the history as it was.
/// The text that [`save_history`] writes for a history reads back as that
/// history.
pub fn load_history(history: &mut Vec<String>, json: &str)
    ensures
        match parsed_history(json@) {
            Some(h) => views(final(history)@) == h,
            None => final(history)@ == old(history)@,
        },
        forall|h: Seq<Seq<char>>| #[trigger] json_array(h) == json@ ==> views(final(history)@)
            == h,
{
    if let Some(h) = parse_history(json) {
        *history = h;
    }
}

/// Serializes the history with `serde_json::to_string`. The contract claims
/// that the result is the compact JSON array of the strings ([`json_array`]),
/// as `serde_json`'s serializer writes it, and that serializing a list of
/// strings into a `String` does not fail (it fails only for a `Serialize`
/// impl that fails or for a map with non-string keys).
#[verifier::external_body]
fn history_to_json(h: &Vec<String>) -> (r: Option<String>)
    ensures
        r is Some,
        r->0@ == json_array(views(h@)),
{
    serde_json::to_string(h).ok()
}

/// The text to write to the history file for `history`: its strings as a
/// compact JSON array.
pub fn save_history(history: &Vec<String>) -> (r: String)
    ensures
        r@ == json_array(views(history@)),
{
    match history_to_json(history) {
        Some(s) => s,
        None => String::new(),
    }
}

/// The request that lists the provider's models: its URL and the bearer key
/// (the key the user just typed, or the stored one when that is empty). It
/// is built only for a base URL that passes [`validate_base_url`]; the
/// check's error is returned otherwise.
pub fn models_request(base_url: &str, typed_key: String, current: &Settings) -> (r: Result<
    (String, String),
    String,
>)
    ensures
        r is Ok <==> base_url_verdict(base_url@) is Ok,
        r matches Err(e) ==> base_url_verdict(base_url@) == Err::<(), Seq<char>>(e@),
        r matches Ok(q) ==> {
            &&& q.0@ == base_url@ + "/models"@
            &&& q.1@ == (if typed_key@.len() == 0 {
                current.api_key@
            } else {
                typed_key@
            })
        },
{
    match validate_base_url(base_url) {
        Err(e) => {
            return Err(e);
        },
        Ok(()) => {},
    }
    Ok((models_url(base_url), provider_api_key(typed_key, current)))
}

} // verus!
