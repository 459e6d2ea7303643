//! The command facade: the typed shapes the GUI layer exchanges with the
//! bridge, and the validation that turns raw reply values into them.
//!
//! Each operation maps one-to-one onto a bridge call with a fixed command
//! name; replies are checked, never defaulted silently — a missing
//! required field is a hard error.

use vstd::prelude::*;
use vstd::string::StringExecFns;
use crate::json::{JsonValue, JsonV, jv, jv_members, jv_seq, lookup, lookup_v};
use crate::errors::BridgeError;
use crate::protocol::Request;

verus! {

// ---------------------------------------------------------------------------
// The typed shapes.
// ---------------------------------------------------------------------------

/// What the helper reports about the focused application.
#[derive(Debug, PartialEq, Eq)]
pub struct AppContext {
    pub app_name: Option<String>,
    pub bundle_id: Option<String>,
    pub window_title: Option<String>,
    pub web_url: Option<String>,
    pub web_domain: Option<String>,
    pub web_title: Option<String>,
    pub context_before: Option<String>,
    pub context_after: Option<String>,
    pub selected_text: Option<String>,
}

/// One stored transcription.
#[derive(Debug, PartialEq, Eq)]
pub struct HistoryEntry {
    pub id: String,
    pub transcript: String,
    pub polished_text: Option<String>,
    pub app_name: Option<String>,
    pub window_title: Option<String>,
    pub web_url: Option<String>,
    pub web_domain: Option<String>,
    pub web_title: Option<String>,
    pub asr_engine: String,
    pub created_at: String,
}

/// What one finished recording produced. The duration is carried as its
/// number literal text, exactly as the helper sent it.
#[derive(Debug, PartialEq, Eq)]
pub struct RecordingResult {
    pub transcript: String,
    pub polished_text: String,
    pub duration_seconds: String,
    pub asr_engine: String,
}

/// One input device the helper can record from.
#[derive(Debug, PartialEq, Eq)]
pub struct AudioDevice {
    pub id: String,
    pub name: String,
    pub is_default: bool,
}

/// The combined permission answer handed to the GUI layer.
#[derive(Debug, PartialEq, Eq)]
pub struct PermissionStatusResponse {
    pub microphone: String,
    pub accessibility: bool,
    pub input_monitoring: bool,
}

// Mathematical shapes of the above.

pub struct AppContextV {
    pub app_name: Option<Seq<char>>,
    pub bundle_id: Option<Seq<char>>,
    pub window_title: Option<Seq<char>>,
    pub web_url: Option<Seq<char>>,
    pub web_domain: Option<Seq<char>>,
    pub web_title: Option<Seq<char>>,
    pub context_before: Option<Seq<char>>,
    pub context_after: Option<Seq<char>>,
    pub selected_text: Option<Seq<char>>,
}

pub struct HistoryEntryV {
    pub id: Seq<char>,
    pub transcript: Seq<char>,
    pub polished_text: Option<Seq<char>>,
    pub app_name: Option<Seq<char>>,
    pub window_title: Option<Seq<char>>,
    pub web_url: Option<Seq<char>>,
    pub web_domain: Option<Seq<char>>,
    pub web_title: Option<Seq<char>>,
    pub asr_engine: Seq<char>,
    pub created_at: Seq<char>,
}

pub struct AudioDeviceV {
    pub id: Seq<char>,
    pub name: Seq<char>,
    pub is_default: bool,
}

/// The view of an optional owned string.
pub open spec fn ov(o: Option<String>) -> Option<Seq<char>> {
    match o {
        Some(s) => Some(s@),
        None => None,
    }
}

impl View for AppContext {
    type V = AppContextV;

    open spec fn view(&self) -> AppContextV {
        AppContextV {
            app_name: ov(self.app_name),
            bundle_id: ov(self.bundle_id),
            window_title: ov(self.window_title),
            web_url: ov(self.web_url),
            web_domain: ov(self.web_domain),
            web_title: ov(self.web_title),
            context_before: ov(self.context_before),
            context_after: ov(self.context_after),
            selected_text: ov(self.selected_text),
        }
    }
}

impl View for HistoryEntry {
    type V = HistoryEntryV;

    open spec fn view(&self) -> HistoryEntryV {
        HistoryEntryV {
            id: self.id@,
            transcript: self.transcript@,
            polished_text: ov(self.polished_text),
            app_name: ov(self.app_name),
            window_title: ov(self.window_title),
            web_url: ov(self.web_url),
            web_domain: ov(self.web_domain),
            web_title: ov(self.web_title),
            asr_engine: self.asr_engine@,
            created_at: self.created_at@,
        }
    }
}

impl View for AudioDevice {
    type V = AudioDeviceV;

    open spec fn view(&self) -> AudioDeviceV {
        AudioDeviceV { id: self.id@, name: self.name@, is_default: self.is_default }
    }
}

// ---------------------------------------------------------------------------
// Reading typed fields out of reply objects.
// ---------------------------------------------------------------------------

/// An optional string field: absent or null reads as `None`; any
/// non-string value is malformed (the outer `None`).
pub open spec fn opt_str_field(ms: Seq<(Seq<char>, JsonV)>, key: Seq<char>) -> Option<
    Option<Seq<char>>,
> {
    match lookup_v(ms, key) {
        None => Some(None),
        Some(JsonV::Null) => Some(None),
        Some(JsonV::Str(s)) => Some(Some(s)),
        Some(_) => None,
    }
}

/// A required string field: anything but a string is malformed.
pub open spec fn req_str_field(ms: Seq<(Seq<char>, JsonV)>, key: Seq<char>) -> Option<Seq<char>> {
    match lookup_v(ms, key) {
        Some(JsonV::Str(s)) => Some(s),
        _ => None,
    }
}

/// A required boolean field.
pub open spec fn bool_field(ms: Seq<(Seq<char>, JsonV)>, key: Seq<char>) -> Option<bool> {
    match lookup_v(ms, key) {
        Some(JsonV::Bool(b)) => Some(b),
        _ => None,
    }
}

/// A required numeric field, kept as its literal text.
pub open spec fn num_field(ms: Seq<(Seq<char>, JsonV)>, key: Seq<char>) -> Option<Seq<char>> {
    match lookup_v(ms, key) {
        Some(JsonV::Num(t)) => Some(t),
        _ => None,
    }
}

fn get_opt_str(members: &Vec<(String, JsonValue)>, key: &str) -> (r: Option<Option<String>>)
    ensures
        (match r {
            None => opt_str_field(jv_members(members@), key@) is None,
            Some(o) => opt_str_field(jv_members(members@), key@) == Some(ov(o)),
        }),
{
    match lookup(members, key) {
        None => Some(None),
        Some(v) => match v {
            JsonValue::Null => Some(None),
            JsonValue::Str(s) => Some(Some(s.clone())),
            _ => None,
        },
    }
}

fn get_req_str(members: &Vec<(String, JsonValue)>, key: &str) -> (r: Option<String>)
    ensures
        (match r {
            None => req_str_field(jv_members(members@), key@) is None,
            Some(s) => req_str_field(jv_members(members@), key@) == Some(s@),
        }),
{
    match lookup(members, key) {
        Some(JsonValue::Str(s)) => Some(s.clone()),
        _ => None,
    }
}

fn get_bool(members: &Vec<(String, JsonValue)>, key: &str) -> (r: Option<bool>)
    ensures
        (match r {
            None => bool_field(jv_members(members@), key@) is None,
            Some(b) => bool_field(jv_members(members@), key@) == Some(b),
        }),
{
    match lookup(members, key) {
        Some(JsonValue::Bool(b)) => Some(*b),
        _ => None,
    }
}

fn get_num_text(members: &Vec<(String, JsonValue)>, key: &str) -> (r: Option<String>)
    ensures
        (match r {
            None => num_field(jv_members(members@), key@) is None,
            Some(t) => num_field(jv_members(members@), key@) == Some(t@),
        }),
{
    match lookup(members, key) {
        Some(JsonValue::Num(t)) => Some(t.clone()),
        _ => None,
    }
}

// ---------------------------------------------------------------------------
// Object converters.
// ---------------------------------------------------------------------------

/// What a context reply object means, if well-typed.
pub open spec fn app_context_of(v: JsonV) -> Option<AppContextV> {
    match v {
        JsonV::Obj(ms) => if opt_str_field(ms, "app_name"@) is Some && opt_str_field(
            ms,
            "bundle_id"@,
        ) is Some && opt_str_field(ms, "window_title"@) is Some && opt_str_field(
            ms,
            "web_url"@,
        ) is Some && opt_str_field(ms, "web_domain"@) is Some && opt_str_field(
            ms,
            "web_title"@,
        ) is Some && opt_str_field(ms, "context_before"@) is Some && opt_str_field(
            ms,
            "context_after"@,
        ) is Some && opt_str_field(ms, "selected_text"@) is Some {
            Some(
                AppContextV {
                    app_name: opt_str_field(ms, "app_name"@)->0,
                    bundle_id: opt_str_field(ms, "bundle_id"@)->0,
                    window_title: opt_str_field(ms, "window_title"@)->0,
                    web_url: opt_str_field(ms, "web_url"@)->0,
                    web_domain: opt_str_field(ms, "web_domain"@)->0,
                    web_title: opt_str_field(ms, "web_title"@)->0,
                    context_before: opt_str_field(ms, "context_before"@)->0,
                    context_after: opt_str_field(ms, "context_after"@)->0,
                    selected_text: opt_str_field(ms, "selected_text"@)->0,
                },
            )
        } else {
            None
        },
        _ => None,
    }
}

/// Reads a context reply; `None` is a malformed reply.
pub fn app_context_from_json(v: &JsonValue) -> (r: Option<AppContext>)
    ensures
        (match r {
            Some(c) => app_context_of(jv(*v)) == Some(c@),
            None => app_context_of(jv(*v)) is None,
        }),
{
    let members = match v {
        JsonValue::Obj(members) => members,
        _ => {
            return None;
        },
    };
    let app_name = match get_opt_str(members, "app_name") {
        Some(o) => o,
        None => {
            return None;
        },
    };
    let bundle_id = match get_opt_str(members, "bundle_id") {
        Some(o) => o,
        None => {
            return None;
        },
    };
    let window_title = match get_opt_str(members, "window_title") {
        Some(o) => o,
        None => {
            return None;
        },
    };
    let web_url = match get_opt_str(members, "web_url") {
        Some(o) => o,
        None => {
            return None;
        },
    };
    let web_domain = match get_opt_str(members, "web_domain") {
        Some(o) => o,
        None => {
            return None;
        },
    };
    let web_title = match get_opt_str(members, "web_title") {
        Some(o) => o,
        None => {
            return None;
        },
    };
    let context_before = match get_opt_str(members, "context_before") {
        Some(o) => o,
        None => {
            return None;
        },
    };
    let context_after = match get_opt_str(members, "context_after") {
        Some(o) => o,
        None => {
            return None;
        },
    };
    let selected_text = match get_opt_str(members, "selected_text") {
        Some(o) => o,
        None => {
            return None;
        },
    };
    Some(
        AppContext {
            app_name,
            bundle_id,
            window_title,
            web_url,
            web_domain,
            web_title,
            context_before,
            context_after,
            selected_text,
        },
    )
}

/// What one stored-history object means, if well-typed: `id`,
/// `transcript`, `asr_engine` and `created_at` are required strings, the
/// rest optional.
pub open spec fn history_entry_of(v: JsonV) -> Option<HistoryEntryV> {
    match v {
        JsonV::Obj(ms) => if req_str_field(ms, "id"@) is Some && req_str_field(
            ms,
            "transcript"@,
        ) is Some && opt_str_field(ms, "polished_text"@) is Some && opt_str_field(
            ms,
            "app_name"@,
        ) is Some && opt_str_field(ms, "window_title"@) is Some && opt_str_field(
            ms,
            "web_url"@,
        ) is Some && opt_str_field(ms, "web_domain"@) is Some && opt_str_field(
            ms,
            "web_title"@,
        ) is Some && req_str_field(ms, "asr_engine"@) is Some && req_str_field(
            ms,
            "created_at"@,
        ) is Some {
            Some(
                HistoryEntryV {
                    id: req_str_field(ms, "id"@)->0,
                    transcript: req_str_field(ms, "transcript"@)->0,
                    polished_text: opt_str_field(ms, "polished_text"@)->0,
                    app_name: opt_str_field(ms, "app_name"@)->0,
                    window_title: opt_str_field(ms, "window_title"@)->0,
                    web_url: opt_str_field(ms, "web_url"@)->0,
                    web_domain: opt_str_field(ms, "web_domain"@)->0,
                    web_title: opt_str_field(ms, "web_title"@)->0,
                    asr_engine: req_str_field(ms, "asr_engine"@)->0,
                    created_at: req_str_field(ms, "created_at"@)->0,
                },
            )
        } else {
            None
        },
        _ => None,
    }
}

/// Reads one stored-history object; `None` is a malformed reply.
pub fn history_entry_from_json(v: &JsonValue) -> (r: Option<HistoryEntry>)
    ensures
        (match r {
            Some(c) => history_entry_of(jv(*v)) == Some(c@),
            None => history_entry_of(jv(*v)) is None,
        }),
{
    let members = match v {
        JsonValue::Obj(members) => members,
        _ => {
            return None;
        },
    };
    let id = match get_req_str(members, "id") {
        Some(s) => s,
        None => {
            return None;
        },
    };
    let transcript = match get_req_str(members, "transcript") {
        Some(s) => s,
        None => {
            return None;
        },
    };
    let polished_text = match get_opt_str(members, "polished_text") {
        Some(o) => o,
        None => {
            return None;
        },
    };
    let app_name = match get_opt_str(members, "app_name") {
        Some(o) => o,
        None => {
            return None;
        },
    };
    let window_title = match get_opt_str(members, "window_title") {
        Some(o) => o,
        None => {
            return None;
        },
    };
    let web_url = match get_opt_str(members, "web_url") {
        Some(o) => o,
        None => {
            return None;
        },
    };
    let web_domain = match get_opt_str(members, "web_domain") {
        Some(o) => o,
        None => {
            return None;
        },
    };
    let web_title = match get_opt_str(members, "web_title") {
        Some(o) => o,
        None => {
            return None;
        },
    };
    let asr_engine = match get_req_str(members, "asr_engine") {
        Some(s) => s,
        None => {
            return None;
        },
    };
    let created_at = match get_req_str(members, "created_at") {
        Some(s) => s,
        None => {
            return None;
        },
    };
    Some(
        HistoryEntry {
            id,
            transcript,
            polished_text,
            app_name,
            window_title,
            web_url,
            web_domain,
            web_title,
            asr_engine,
            created_at,
        },
    )
}

/// What one device object means, if well-typed.
pub open spec fn audio_device_of(v: JsonV) -> Option<AudioDeviceV> {
    match v {
        JsonV::Obj(ms) => if req_str_field(ms, "id"@) is Some && req_str_field(ms, "name"@)
            is Some && bool_field(ms, "is_default"@) is Some {
            Some(
                AudioDeviceV {
                    id: req_str_field(ms, "id"@)->0,
                    name: req_str_field(ms, "name"@)->0,
                    is_default: bool_field(ms, "is_default"@)->0,
                },
            )
        } else {
            None
        },
        _ => None,
    }
}

/// Reads one device object; `None` is a malformed reply.
pub fn audio_device_from_json(v: &JsonValue) -> (r: Option<AudioDevice>)
    ensures
        (match r {
            Some(c) => audio_device_of(jv(*v)) == Some(c@),
            None => audio_device_of(jv(*v)) is None,
        }),
{
    let members = match v {
        JsonValue::Obj(members) => members,
        _ => {
            return None;
        },
    };
    let id = match get_req_str(members, "id") {
        Some(s) => s,
        None => {
            return None;
        },
    };
    let name = match get_req_str(members, "name") {
        Some(s) => s,
        None => {
            return None;
        },
    };
    let is_default = match get_bool(members, "is_default") {
        Some(b) => b,
        None => {
            return None;
        },
    };
    Some(AudioDevice { id, name, is_default })
}

// ---------------------------------------------------------------------------
// List converters.
// ---------------------------------------------------------------------------

/// What a history reply array means: every element a well-typed entry.
pub open spec fn history_entries_of(items: Seq<JsonV>) -> Option<Seq<HistoryEntryV>>
    decreases items,
{
    if items.len() == 0 {
        Some(Seq::empty())
    } else {
        match history_entry_of(items[0]) {
            None => None,
            Some(x) => match history_entries_of(items.drop_first()) {
                None => None,
                Some(rest) => Some(seq![x] + rest),
            },
        }
    }
}

pub proof fn lemma_history_entries_of(items: Seq<JsonV>)
    ensures
        (history_entries_of(items) is Some <==> forall|i: int|
            0 <= i < items.len() ==> history_entry_of(#[trigger] items[i]) is Some),
        history_entries_of(items) matches Some(l) ==> l.len() == items.len() && forall|i: int|
            0 <= i < items.len() ==> Some(#[trigger] l[i]) == history_entry_of(items[i]),
    decreases items,
{
    if items.len() > 0 {
        lemma_history_entries_of(items.drop_first());
        assert(forall|i: int|
            1 <= i < items.len() ==> #[trigger] items[i] == items.drop_first()[i - 1]);
        if history_entry_of(items[0]) is Some && history_entries_of(items.drop_first())
            is Some {
            let l = history_entries_of(items)->0;
            let rest = history_entries_of(items.drop_first())->0;
            assert forall|i: int| 0 <= i < items.len() implies Some(#[trigger] l[i])
                == history_entry_of(items[i]) by {
                if i > 0 {
                    assert(l[i] == rest[i - 1]);
                }
            }
        }
    }
}

/// What a device reply array means.
pub open spec fn audio_devices_of(items: Seq<JsonV>) -> Option<Seq<AudioDeviceV>>
    decreases items,
{
    if items.len() == 0 {
        Some(Seq::empty())
    } else {
        match audio_device_of(items[0]) {
            None => None,
            Some(x) => match audio_devices_of(items.drop_first()) {
                None => None,
                Some(rest) => Some(seq![x] + rest),
            },
        }
    }
}

pub proof fn lemma_audio_devices_of(items: Seq<JsonV>)
    ensures
        (audio_devices_of(items) is Some <==> forall|i: int|
            0 <= i < items.len() ==> audio_device_of(#[trigger] items[i]) is Some),
        audio_devices_of(items) matches Some(l) ==> l.len() == items.len() && forall|i: int|
            0 <= i < items.len() ==> Some(#[trigger] l[i]) == audio_device_of(items[i]),
    decreases items,
{
    if items.len() > 0 {
        lemma_audio_devices_of(items.drop_first());
        assert(forall|i: int|
            1 <= i < items.len() ==> #[trigger] items[i] == items.drop_first()[i - 1]);
        if audio_device_of(items[0]) is Some && audio_devices_of(items.drop_first()) is Some {
            let l = audio_devices_of(items)->0;
            let rest = audio_devices_of(items.drop_first())->0;
            assert forall|i: int| 0 <= i < items.len() implies Some(#[trigger] l[i])
                == audio_device_of(items[i]) by {
                if i > 0 {
                    assert(l[i] == rest[i - 1]);
                }
            }
        }
    }
}

/// The string an array element holds, if it is a string.
pub open spec fn string_of(v: JsonV) -> Option<Seq<char>> {
    match v {
        JsonV::Str(s) => Some(s),
        _ => None,
    }
}

/// What a dictionary reply array means: every element a word.
pub open spec fn strings_of(items: Seq<JsonV>) -> Option<Seq<Seq<char>>>
    decreases items,
{
    if items.len() == 0 {
        Some(Seq::empty())
    } else {
        match string_of(items[0]) {
            None => None,
            Some(x) => match strings_of(items.drop_first()) {
                None => None,
                Some(rest) => Some(seq![x] + rest),
            },
        }
    }
}

pub proof fn lemma_strings_of(items: Seq<JsonV>)
    ensures
        (strings_of(items) is Some <==> forall|i: int|
            0 <= i < items.len() ==> string_of(#[trigger] items[i]) is Some),
        strings_of(items) matches Some(l) ==> l.len() == items.len() && forall|i: int|
            0 <= i < items.len() ==> Some(#[trigger] l[i]) == string_of(items[i]),
    decreases items,
{
    if items.len() > 0 {
        lemma_strings_of(items.drop_first());
        assert(forall|i: int|
            1 <= i < items.len() ==> #[trigger] items[i] == items.drop_first()[i - 1]);
        if string_of(items[0]) is Some && strings_of(items.drop_first()) is Some {
            let l = strings_of(items)->0;
            let rest = strings_of(items.drop_first())->0;
            assert forall|i: int| 0 <= i < items.len() implies Some(#[trigger] l[i])
                == string_of(items[i]) by {
                if i > 0 {
                    assert(l[i] == rest[i - 1]);
                }
            }
        }
    }
}

/// Reads a history reply: an array of entry objects, all well-typed.
pub fn history_list_from_json(v: &JsonValue) -> (r: Option<Vec<HistoryEntry>>)
    ensures
        (match jv(*v) {
            JsonV::Arr(items) => match history_entries_of(items) {
                Some(l) => r matches Some(list) && list@.len() == l.len() && (forall|i: int|
                    0 <= i < l.len() ==> (#[trigger] list@[i])@ == l[i]),
                None => r is None,
            },
            _ => r is None,
        }),
{
    let items = match v {
        JsonValue::Arr(items) => items,
        _ => {
            return None;
        },
    };
    let ghost ivs = jv_seq(items@);
    proof {
        crate::json::lemma_jv_seq(items@);
    }
    let n: usize = items.len();
    let mut out: Vec<HistoryEntry> = Vec::new();
    let mut i: usize = 0;
    while i < n
        invariant
            i <= n,
            n == items@.len(),
            *v == JsonValue::Arr(*items),
            ivs == jv_seq(items@),
            ivs.len() == n,
            forall|j: int| 0 <= j < n ==> ivs[j] == jv(items@[j]),
            out@.len() == i,
            forall|j: int|
                0 <= j < i ==> Some(out@[j]@) == #[trigger] history_entry_of(ivs[j]),
        decreases n - i,
    {
        match history_entry_from_json(&items[i]) {
            Some(e) => {
                out.push(e);
                proof {
                    assert(out@[i as int] == e);
                }
            },
            None => {
                proof {
                    lemma_history_entries_of(ivs);
                    assert(ivs[i as int] == jv(items@[i as int]));
                    assert(history_entry_of(ivs[i as int]) is None);
                    assert(history_entries_of(ivs) is None);
                }
                return None;
            },
        }
        i = i + 1;
    }
    proof {
        lemma_history_entries_of(ivs);
    }
    Some(out)
}

/// Reads a device-list reply.
pub fn audio_devices_from_json(v: &JsonValue) -> (r: Option<Vec<AudioDevice>>)
    ensures
        (match jv(*v) {
            JsonV::Arr(items) => match audio_devices_of(items) {
                Some(l) => r matches Some(list) && list@.len() == l.len() && (forall|i: int|
                    0 <= i < l.len() ==> (#[trigger] list@[i])@ == l[i]),
                None => r is None,
            },
            _ => r is None,
        }),
{
    let items = match v {
        JsonValue::Arr(items) => items,
        _ => {
            return None;
        },
    };
    let ghost ivs = jv_seq(items@);
    proof {
        crate::json::lemma_jv_seq(items@);
    }
    let n: usize = items.len();
    let mut out: Vec<AudioDevice> = Vec::new();
    let mut i: usize = 0;
    while i < n
        invariant
            i <= n,
            n == items@.len(),
            *v == JsonValue::Arr(*items),
            ivs == jv_seq(items@),
            ivs.len() == n,
            forall|j: int| 0 <= j < n ==> ivs[j] == jv(items@[j]),
            out@.len() == i,
            forall|j: int|
                0 <= j < i ==> Some(out@[j]@) == #[trigger] audio_device_of(ivs[j]),
        decreases n - i,
    {
        match audio_device_from_json(&items[i]) {
            Some(e) => {
                out.push(e);
                proof {
                    assert(out@[i as int] == e);
                }
            },
            None => {
                proof {
                    lemma_audio_devices_of(ivs);
                    assert(ivs[i as int] == jv(items@[i as int]));
                    assert(audio_device_of(ivs[i as int]) is None);
                    assert(audio_devices_of(ivs) is None);
                }
                return None;
            },
        }
        i = i + 1;
    }
    proof {
        lemma_audio_devices_of(ivs);
    }
    Some(out)
}

/// Reads a dictionary reply: an array of words.
pub fn dictionary_from_json(v: &JsonValue) -> (r: Option<Vec<String>>)
    ensures
        (match jv(*v) {
            JsonV::Arr(items) => match strings_of(items) {
                Some(l) => r matches Some(list) && list@.len() == l.len() && (forall|i: int|
                    0 <= i < l.len() ==> (#[trigger] list@[i])@ == l[i]),
                None => r is None,
            },
            _ => r is None,
        }),
{
    let items = match v {
        JsonValue::Arr(items) => items,
        _ => {
            return None;
        },
    };
    let ghost ivs = jv_seq(items@);
    proof {
        crate::json::lemma_jv_seq(items@);
    }
    let n: usize = items.len();
    let mut out: Vec<String> = Vec::new();
    let mut i: usize = 0;
    while i < n
        invariant
            i <= n,
            n == items@.len(),
            *v == JsonValue::Arr(*items),
            ivs == jv_seq(items@),
            ivs.len() == n,
            forall|j: int| 0 <= j < n ==> ivs[j] == jv(items@[j]),
            out@.len() == i,
            forall|j: int| 0 <= j < i ==> Some(out@[j]@) == #[trigger] string_of(ivs[j]),
        decreases n - i,
    {
        match &items[i] {
            JsonValue::Str(w) => {
                let w2 = w.clone();
                out.push(w2);
                proof {
                    assert(out@[i as int]@ == w@);
                }
            },
            _ => {
                proof {
                    lemma_strings_of(ivs);
                    assert(ivs[i as int] == jv(items@[i as int]));
                    assert(string_of(ivs[i as int]) is None);
                    assert(strings_of(ivs) is None);
                }
                return None;
            },
        }
        i = i + 1;
    }
    proof {
        lemma_strings_of(ivs);
    }
    Some(out)
}

// ---------------------------------------------------------------------------
// Shaping of individual replies.
// ---------------------------------------------------------------------------

/// The microphone permission as a word: the helper's string when it
/// answered with one, `unknown` for any other success, `error` when the
/// call failed (the caller logs the failure; the permission panel still
/// renders).
pub fn mic_status_from(res: &Result<JsonValue, BridgeError>) -> (r: String)
    ensures
        (match res {
            Ok(v) => (match jv(*v) {
                JsonV::Str(s) => r@ == s,
                _ => r@ == "unknown"@,
            }),
            Err(_) => r@ == "error"@,
        }),
{
    match res {
        Ok(JsonValue::Str(s)) => s.clone(),
        Ok(_) => String::from_str("unknown"),
        Err(_) => String::from_str("error"),
    }
}

/// A start-recording reply: its string, or `ok` for any other success.
pub fn shape_start_recording(v: &JsonValue) -> (r: String)
    ensures
        (match jv(*v) {
            JsonV::Str(s) => r@ == s,
            _ => r@ == "ok"@,
        }),
{
    match v {
        JsonValue::Str(s) => s.clone(),
        _ => String::from_str("ok"),
    }
}

/// A microphone-request reply: its string, or `denied` for any other
/// success.
pub fn shape_request_microphone(v: &JsonValue) -> (r: String)
    ensures
        (match jv(*v) {
            JsonV::Str(s) => r@ == s,
            _ => r@ == "denied"@,
        }),
{
    match v {
        JsonValue::Str(s) => s.clone(),
        _ => String::from_str("denied"),
    }
}

/// The polisher mode out of a settings reply; anything unexpected reads
/// as `none`, the mode that leaves text untouched.
pub fn polisher_mode_of(settings: &JsonValue) -> (r: String)
    ensures
        (match jv(*settings) {
            JsonV::Obj(ms) => (match lookup_v(ms, "polisher_mode"@) {
                Some(JsonV::Str(s)) => r@ == s,
                _ => r@ == "none"@,
            }),
            _ => r@ == "none"@,
        }),
{
    match settings {
        JsonValue::Obj(members) => match lookup(members, "polisher_mode") {
            Some(JsonValue::Str(s)) => s.clone(),
            _ => String::from_str("none"),
        },
        _ => String::from_str("none"),
    }
}

/// The fields a stop-recording reply must carry: the transcript, the
/// duration (as a number) and the engine name. A missing or mistyped
/// field is a hard error naming it — never silently defaulted.
pub fn extract_recording(asr: &JsonValue) -> (r: Result<(String, String, String), String>)
    ensures
        (match jv(*asr) {
            JsonV::Obj(ms) => {
                &&& req_str_field(ms, "transcript"@) is None ==> (r matches Err(m) && m@
                    == "Missing transcript field"@)
                &&& req_str_field(ms, "transcript"@) is Some && num_field(ms, "duration"@)
                    is None ==> (r matches Err(m) && m@ == "Missing duration field"@)
                &&& req_str_field(ms, "transcript"@) is Some && num_field(ms, "duration"@)
                    is Some && req_str_field(ms, "asr_engine"@) is None ==> (r matches Err(m)
                    && m@ == "Missing asr_engine field"@)
                &&& req_str_field(ms, "transcript"@) is Some && num_field(ms, "duration"@)
                    is Some && req_str_field(ms, "asr_engine"@) is Some ==> (r matches Ok(p)
                    && p.0@ == req_str_field(ms, "transcript"@)->0 && p.1@ == num_field(
                    ms,
                    "duration"@,
                )->0 && p.2@ == req_str_field(ms, "asr_engine"@)->0)
            },
            _ => r matches Err(m) && m@ == "Missing transcript field"@,
        }),
{
    let members = match asr {
        JsonValue::Obj(members) => members,
        _ => {
            return Err(String::from_str("Missing transcript field"));
        },
    };
    let transcript = match get_req_str(members, "transcript") {
        Some(s) => s,
        None => {
            return Err(String::from_str("Missing transcript field"));
        },
    };
    let duration = match get_num_text(members, "duration") {
        Some(t) => t,
        None => {
            return Err(String::from_str("Missing duration field"));
        },
    };
    let engine = match get_req_str(members, "asr_engine") {
        Some(s) => s,
        None => {
            return Err(String::from_str("Missing asr_engine field"));
        },
    };
    Ok((transcript, duration, engine))
}

/// The text injected after polishing. Every mode currently passes the
/// transcript through unchanged; the mode still travels here so that the
/// decision point stays in one place.
pub fn polished_text_for(mode: &String, transcript: &String) -> (r: String)
    ensures
        r@ == transcript@,
{
    let _ = mode;
    transcript.clone()
}

/// Whether a settings write must also switch launch-at-login, and to what.
pub fn autostart_change(key: &str, value: &str) -> (r: Option<bool>)
    ensures
        key@ == "launchAtLogin"@ ==> r == Some(value@ == "true"@),
        key@ != "launchAtLogin"@ ==> r is None,
{
    if crate::util::str_eq(key, "launchAtLogin") {
        Some(crate::util::str_eq(value, "true"))
    } else {
        None
    }
}

// ---------------------------------------------------------------------------
// The requests each operation sends: fixed command names, typed arguments.
// ---------------------------------------------------------------------------

/// An empty argument object.
fn empty_args() -> (r: JsonValue)
    ensures
        jv(r) == JsonV::Obj(Seq::empty()),
{
    let ms: Vec<(String, JsonValue)> = Vec::new();
    proof {
        assert(jv_members(ms@) =~= Seq::<(Seq<char>, JsonV)>::empty());
    }
    JsonValue::Obj(ms)
}

/// A command that takes no arguments.
pub fn request_with_no_args(name: &str) -> (r: Request)
    ensures
        r@.cmd == name@,
        r@.args == JsonV::Obj(Seq::empty()),
{
    Request { cmd: String::from_str(name), args: empty_args() }
}

/// The history query; a missing limit means the documented default of 50.
pub fn request_get_history(limit: Option<u64>) -> (r: Request)
    ensures
        r@.cmd == "get_history"@,
        r@.args == JsonV::Obj(
            seq![
                (
                    "limit"@,
                    JsonV::Num(
                        crate::util::dec_digits(
                            (match limit {
                                Some(n) => n,
                                None => 50,
                            }) as nat,
                        ),
                    ),
                ),
            ],
        ),
        crate::codec_laws::wf_json(r@.args),
{
    let n: u64 = match limit {
        Some(n) => n,
        None => 50,
    };
    let t = crate::util::u64_to_dec(n);
    let mut ms: Vec<(String, JsonValue)> = Vec::new();
    ms.push((String::from_str("limit"), JsonValue::Num(t)));
    let args = JsonValue::Obj(ms);
    proof {
        crate::json::lemma_jv_members(ms@);
        assert(jv_members(ms@) =~= seq![
            ("limit"@, JsonV::Num(crate::util::dec_digits(n as nat))),
        ]);
        crate::codec_laws::lemma_dec_digits_lit(n as nat);
        let mv = jv(args)->Obj_0;
        assert(crate::codec_laws::wf_json(mv[0].1));
        assert(mv.drop_first().len() == 0);
        assert(crate::codec_laws::wf_members(mv.drop_first()));
        assert(crate::codec_laws::wf_members(mv));
    }
    Request { cmd: String::from_str("get_history"), args }
}

/// The settings write.
pub fn request_set_setting(key: String, value: String) -> (r: Request)
    ensures
        r@.cmd == "set_setting"@,
        r@.args == JsonV::Obj(
            seq![("key"@, JsonV::Str(key@)), ("value"@, JsonV::Str(value@))],
        ),
        crate::codec_laws::wf_json(r@.args),
{
    let ghost kv = key@;
    let ghost vv = value@;
    let mut ms: Vec<(String, JsonValue)> = Vec::new();
    ms.push((String::from_str("key"), JsonValue::Str(key)));
    ms.push((String::from_str("value"), JsonValue::Str(value)));
    let args = JsonValue::Obj(ms);
    proof {
        crate::json::lemma_jv_members(ms@);
        assert(jv_members(ms@) =~= seq![("key"@, JsonV::Str(kv)), ("value"@, JsonV::Str(vv))]);
        let mv = jv(args)->Obj_0;
        assert(crate::codec_laws::wf_json(JsonV::Str(kv)));
        assert(crate::codec_laws::wf_json(JsonV::Str(vv)));
        assert(mv.drop_first()[0].1 == JsonV::Str(vv));
        assert(mv.drop_first().drop_first().len() == 0);
        assert(crate::codec_laws::wf_members(mv.drop_first().drop_first()));
        assert(crate::codec_laws::wf_members(mv.drop_first()));
        assert(crate::codec_laws::wf_members(mv));
    }
    Request { cmd: String::from_str("set_setting"), args }
}

/// The text-injection request.
pub fn request_inject_text(text: String) -> (r: Request)
    ensures
        r@.cmd == "inject_text"@,
        r@.args == JsonV::Obj(seq![("text"@, JsonV::Str(text@))]),
        crate::codec_laws::wf_json(r@.args),
{
    let ghost tv = text@;
    let mut ms: Vec<(String, JsonValue)> = Vec::new();
    ms.push((String::from_str("text"), JsonValue::Str(text)));
    let args = JsonValue::Obj(ms);
    proof {
        crate::json::lemma_jv_members(ms@);
        assert(jv_members(ms@) =~= seq![("text"@, JsonV::Str(tv))]);
        let mv = jv(args)->Obj_0;
        assert(crate::codec_laws::wf_json(JsonV::Str(tv)));
        assert(mv.drop_first().len() == 0);
        assert(crate::codec_laws::wf_members(mv.drop_first()));
        assert(crate::codec_laws::wf_members(mv));
    }
    Request { cmd: String::from_str("inject_text"), args }
}

/// The words of a dictionary as JSON strings.
pub open spec fn words_json(ws: Seq<Seq<char>>) -> Seq<JsonV> {
    Seq::new(ws.len(), |i: int| JsonV::Str(ws[i]))
}

/// The dictionary write.
pub fn request_set_dictionary(words: Vec<String>) -> (r: Request)
    ensures
        r@.cmd == "set_dictionary"@,
        r@.args == JsonV::Obj(seq![("words"@, JsonV::Arr(words_json(words.deep_view())))]),
        crate::codec_laws::wf_json(r@.args),
{
    let ghost wv = words.deep_view();
    let n: usize = words.len();
    let mut items: Vec<JsonValue> = Vec::new();
    let mut i: usize = 0;
    while i < n
        invariant
            i <= n,
            n == words@.len(),
            wv == words.deep_view(),
            wv.len() == n,
            forall|j: int| 0 <= j < n ==> wv[j] == words@[j]@,
            items@.len() == i,
            forall|j: int| 0 <= j < i ==> jv(#[trigger] items@[j]) == JsonV::Str(wv[j]),
        decreases n - i,
    {
        items.push(JsonValue::Str(words[i].clone()));
        proof {
            assert(jv(items@[i as int]) == JsonV::Str(wv[i as int]));
        }
        i = i + 1;
    }
    proof {
        crate::json::lemma_jv_seq(items@);
        assert(jv_seq(items@) =~= words_json(wv));
    }
    let arr = JsonValue::Arr(items);
    let mut ms: Vec<(String, JsonValue)> = Vec::new();
    ms.push((String::from_str("words"), arr));
    let args = JsonValue::Obj(ms);
    proof {
        crate::json::lemma_jv_members(ms@);
        assert(jv_members(ms@) =~= seq![("words"@, JsonV::Arr(words_json(wv)))]);
        let mv = jv(args)->Obj_0;
        assert(crate::codec_laws::wf_json(mv[0].1)) by {
            lemma_words_wf(words_json(wv));
        }
        assert(mv.drop_first().len() == 0);
        assert(crate::codec_laws::wf_members(mv.drop_first()));
        assert(crate::codec_laws::wf_members(mv));
    }
    Request { cmd: String::from_str("set_dictionary"), args }
}

proof fn lemma_words_wf(items: Seq<JsonV>)
    requires
        forall|i: int| 0 <= i < items.len() ==> (#[trigger] items[i]) is Str,
    ensures
        crate::codec_laws::wf_items(items),
        crate::codec_laws::wf_json(JsonV::Arr(items)),
    decreases items,
{
    if items.len() > 0 {
        assert(items[0] is Str);
        assert(crate::codec_laws::wf_json(items[0]));
        assert forall|i: int| 0 <= i < items.drop_first().len() implies (
        #[trigger] items.drop_first()[i]) is Str by {
            assert(items.drop_first()[i] == items[i + 1]);
        }
        lemma_words_wf(items.drop_first());
        assert(crate::codec_laws::wf_items(items));
    }
}

/// The JSON written for an optional context string: the string, or null.
pub open spec fn opt_str_json(o: Option<Seq<char>>) -> JsonV {
    match o {
        Some(s) => JsonV::Str(s),
        None => JsonV::Null,
    }
}

/// The arguments of the best-effort history save made after a recording.
pub open spec fn save_history_json(
    transcript: Seq<char>,
    polished: Seq<char>,
    ctx: Option<AppContextV>,
    engine: Seq<char>,
    duration: Seq<char>,
) -> JsonV {
    let app_name = match ctx {
        Some(c) => c.app_name,
        None => None,
    };
    let window_title = match ctx {
        Some(c) => c.window_title,
        None => None,
    };
    let web_url = match ctx {
        Some(c) => c.web_url,
        None => None,
    };
    let web_domain = match ctx {
        Some(c) => c.web_domain,
        None => None,
    };
    let web_title = match ctx {
        Some(c) => c.web_title,
        None => None,
    };
    JsonV::Obj(
        seq![
            ("transcript"@, JsonV::Str(transcript)),
            ("polished_text"@, JsonV::Str(polished)),
            ("app_name"@, opt_str_json(app_name)),
            ("window_title"@, opt_str_json(window_title)),
            ("web_url"@, opt_str_json(web_url)),
            ("web_domain"@, opt_str_json(web_domain)),
            ("web_title"@, opt_str_json(web_title)),
            ("asr_engine"@, JsonV::Str(engine)),
            ("duration"@, JsonV::Num(duration)),
        ],
    )
}

fn opt_str_value(o: &Option<String>) -> (r: JsonValue)
    ensures
        jv(r) == opt_str_json(ov(*o)),
{
    match o {
        Some(s) => JsonValue::Str(s.clone()),
        None => JsonValue::Null,
    }
}

/// Builds the history-save request. This save is best-effort at the
/// caller: its failure is logged and never fails the recording itself.
pub fn request_save_history(
    transcript: &String,
    polished: &String,
    ctx: &Option<AppContext>,
    engine: &String,
    duration_text: &String,
) -> (r: Request)
    ensures
        r@.cmd == "save_history"@,
        r@.args == save_history_json(
            transcript@,
            polished@,
            (match ctx {
                Some(c) => Some(c@),
                None => None,
            }),
            engine@,
            duration_text@,
        ),
        crate::decode::is_num_lit(duration_text@) ==> crate::codec_laws::wf_json(r@.args),
{
    let ghost cv: Option<AppContextV> = match ctx {
        Some(c) => Some(c@),
        None => None,
    };
    let mut ms: Vec<(String, JsonValue)> = Vec::new();
    ms.push((String::from_str("transcript"), JsonValue::Str(transcript.clone())));
    ms.push((String::from_str("polished_text"), JsonValue::Str(polished.clone())));
    match ctx {
        Some(c) => {
            ms.push((String::from_str("app_name"), opt_str_value(&c.app_name)));
            ms.push((String::from_str("window_title"), opt_str_value(&c.window_title)));
            ms.push((String::from_str("web_url"), opt_str_value(&c.web_url)));
            ms.push((String::from_str("web_domain"), opt_str_value(&c.web_domain)));
            ms.push((String::from_str("web_title"), opt_str_value(&c.web_title)));
        },
        None => {
            ms.push((String::from_str("app_name"), JsonValue::Null));
            ms.push((String::from_str("window_title"), JsonValue::Null));
            ms.push((String::from_str("web_url"), JsonValue::Null));
            ms.push((String::from_str("web_domain"), JsonValue::Null));
            ms.push((String::from_str("web_title"), JsonValue::Null));
        },
    }
    ms.push((String::from_str("asr_engine"), JsonValue::Str(engine.clone())));
    ms.push((String::from_str("duration"), JsonValue::Num(duration_text.clone())));
    let args = JsonValue::Obj(ms);
    proof {
        crate::json::lemma_jv_members(ms@);
        assert(jv_members(ms@) =~= save_history_json(
            transcript@,
            polished@,
            cv,
            engine@,
            duration_text@,
        )->Obj_0);
        if crate::decode::is_num_lit(duration_text@) {
            let mv = jv(args)->Obj_0;
            let sh = save_history_json(transcript@, polished@, cv, engine@, duration_text@);
            assert(mv == sh->Obj_0);
            assert forall|i: int|
                0 <= i < mv.len() implies crate::codec_laws::wf_json(
                (#[trigger] mv[i]).1,
            ) by {
                if mv[i].1 is Str || mv[i].1 is Null {
                    assert(crate::codec_laws::wf_json(mv[i].1));
                } else {
                    assert(mv[i].1 == JsonV::Num(duration_text@));
                    assert(crate::codec_laws::wf_json(mv[i].1));
                }
            }
            lemma_save_history_wf(mv);
        }
    }
    Request { cmd: String::from_str("save_history"), args }
}

proof fn lemma_save_history_wf(mv: Seq<(Seq<char>, JsonV)>)
    requires
        forall|i: int|
            0 <= i < mv.len() ==> crate::codec_laws::wf_json((#[trigger] mv[i]).1),
    ensures
        crate::codec_laws::wf_members(mv),
    decreases mv,
{
    if mv.len() > 0 {
        assert forall|i: int| 0 <= i < mv.drop_first().len() implies crate::codec_laws::wf_json(
            (#[trigger] mv.drop_first()[i]).1,
        ) by {
            assert(mv.drop_first()[i] == mv[i + 1]);
        }
        lemma_save_history_wf(mv.drop_first());
    }
}

} // verus!
