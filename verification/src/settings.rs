//! The persisted settings types the orchestrator reads and writes, their
//! defaults, and the validation rules applied before anything is saved.
//! Loading and storing the encrypted settings file is the shell's business;
//! the types and rules live here.
use vstd::prelude::*;

use vstd::string::StringExecFns;

use crate::text::{contains_seq, occurs_at, trim_spec};

verus! {

/// Why settings could not be read, written or accepted.
#[derive(Debug, Clone, PartialEq)]
pub enum SettingsError {
    PathResolve(String),
    Io(String),
    Crypto(String),
    Serde(String),
    Store(String),
}

#[derive(Debug, Clone, PartialEq)]
pub struct ShortcutSettings {
    pub key: String,
}

#[derive(Debug, Clone, PartialEq)]
pub struct RecordingSettings {
    pub segment_seconds: u64,
}

/// One trigger card: a keyword rule that rewrites dictated text.
#[derive(Debug, Clone, PartialEq)]
pub struct TriggerCard {
    pub id: String,
    pub title: String,
    pub enabled: bool,
    pub auto_apply: bool,
    pub locked: bool,
    pub keyword: String,
    pub prompt_template: String,
    pub variables: Vec<String>,
}

#[derive(Debug, Clone, PartialEq)]
pub struct AppearanceSettings {
    pub theme: String,
}

/// Which transcription backend handles recordings.
#[derive(Debug, Clone, Copy, PartialEq, Eq, Structural)]
pub enum TranscriptionProvider {
    Openai,
    Volcengine,
    Sensevoice,
}

impl Default for TranscriptionProvider {
    fn default() -> (r: Self)
        ensures
            r == TranscriptionProvider::Openai,
    {
        TranscriptionProvider::Openai
    }
}

#[derive(Debug, Clone, PartialEq)]
pub struct VolcengineSettings {
    pub app_id: String,
    pub access_token: String,
    pub use_streaming: bool,
    pub use_fast: bool,
    pub language: String,
}

impl Default for VolcengineSettings {
    fn default() -> (r: Self)
        ensures
            r.app_id@ == ""@,
            r.access_token@ == ""@,
            !r.use_streaming,
            !r.use_fast,
            r.language@ == "zh-CN"@,
    {
        proof {
            reveal_strlit("");
        }
        VolcengineSettings {
            app_id: String::new(),
            access_token: String::new(),
            use_streaming: false,
            use_fast: false,
            language: String::from_str("zh-CN"),
        }
    }
}

/// The locally hosted runtime's persisted settings: its durable state.
#[derive(Debug, Clone, PartialEq)]
pub struct SenseVoiceSettings {
    pub enabled: bool,
    pub installed: bool,
    pub local_model: String,
    pub service_url: String,
    pub model_id: String,
    pub device: String,
    pub download_state: String,
    pub last_error: String,
}

impl Default for SenseVoiceSettings {
    fn default() -> (r: Self)
        ensures
            !r.enabled,
            !r.installed,
            r.local_model@ == "sensevoice"@,
            r.service_url@ == "http://127.0.0.1:8765"@,
            r.model_id@ == "iic/SenseVoiceSmall"@,
            r.device@ == "auto"@,
            r.download_state@ == "idle"@,
            r.last_error@ == ""@,
    {
        proof {
            reveal_strlit("");
        }
        SenseVoiceSettings {
            enabled: false,
            installed: false,
            local_model: String::from_str("sensevoice"),
            service_url: String::from_str("http://127.0.0.1:8765"),
            model_id: String::from_str("iic/SenseVoiceSmall"),
            device: String::from_str("auto"),
            download_state: String::from_str("idle"),
            last_error: String::new(),
        }
    }
}

/// How one trigger card matched a dictated text.
#[derive(Debug, Clone, Copy, PartialEq, Eq, Structural)]
pub enum TriggerMatchMode {
    Keyword,
    Auto,
}

/// The record of one applied trigger card.
#[derive(Debug, Clone, PartialEq)]
pub struct TriggerMatch {
    pub trigger_id: String,
    pub trigger_title: String,
    pub keyword: String,
    pub matched_value: String,
    pub mode: TriggerMatchMode,
}

/// The two built-in trigger cards every configuration must keep.
pub fn default_triggers() -> (r: Vec<TriggerCard>)
    ensures
        r@.len() == 2,
        r@[0].id@ == "translate"@ && r@[0].locked && r@[0].enabled,
        r@[0].keyword@ == "翻译为{value}"@,
        r@[1].id@ == "polish"@ && r@[1].locked && r@[1].enabled,
        r@[1].keyword@ == "润色为{value}"@,
{
    let mut translate_vars: Vec<String> = Vec::new();
    translate_vars.push(String::from_str("英文"));
    let translate = TriggerCard {
        id: String::from_str("translate"),
        title: String::from_str("翻译"),
        enabled: true,
        auto_apply: false,
        locked: true,
        keyword: String::from_str("翻译为{value}"),
        prompt_template: String::from_str("请将以下内容翻译为{value}。"),
        variables: translate_vars,
    };
    let mut polish_vars: Vec<String> = Vec::new();
    polish_vars.push(String::from_str("口语"));
    let polish = TriggerCard {
        id: String::from_str("polish"),
        title: String::from_str("润色"),
        enabled: true,
        auto_apply: false,
        locked: true,
        keyword: String::from_str("润色为{value}"),
        prompt_template: String::from_str("请将以下内容润色为{value}。"),
        variables: polish_vars,
    };
    let mut cards: Vec<TriggerCard> = Vec::new();
    cards.push(translate);
    cards.push(polish);
    cards
}


/// Whether a keyword holds the variable placeholder exactly once.
pub open spec fn exactly_one_placeholder(k: Seq<char>) -> bool {
    contains_seq(k, "{value}"@) && (forall|a: int, b: int|
        #[trigger] occurs_at(k, "{value}"@, a) && #[trigger] occurs_at(k, "{value}"@, b) ==> a
            == b)
}

/// Checks that a keyword holds the placeholder exactly once.
#[verifier::rlimit(100)]
pub fn has_exactly_one_placeholder(keyword: &str) -> (r: bool)
    ensures
        r == exactly_one_placeholder(keyword@),
{
    proof {
        reveal_strlit("{value}");
    }
    match crate::triggers::split_keyword(keyword) {
        Some((prefix, suffix)) => {
            proof {
                let k = keyword@;
                let ph = "{value}"@;
                let at = prefix@.len() as int;
                assert forall|a: int, b: int|
                    #[trigger] occurs_at(k, ph, a) && #[trigger] occurs_at(k, ph, b) implies a
                    == b by {
                    assert forall|j: int| #[trigger] occurs_at(k, ph, j) implies j == at by {
                        if j < at {
                            assert(!occurs_at(k, ph, j));
                        } else if at < j && j < at + 7 {
                            // Overlapping occurrences clash on the opening
                            // brace, which the placeholder holds only once.
                            assert(k[j] == ph[0]) by {
                                assert(k.subrange(j, j + 7)[0] == k[j]);
                            }
                            assert(k[j] == ph[j - at]) by {
                                assert(k.subrange(at, at + 7)[j - at] == k[j]);
                            }
                            assert(false);
                        } else if j >= at + 7 {
                            assert(occurs_at(suffix@, ph, j - at - 7)) by {
                                assert(suffix@.subrange(j - at - 7, j - at) =~= k.subrange(
                                    j,
                                    j + 7,
                                ));
                            }
                            assert(false);
                        }
                    }
                }
            }
            true
        },
        None => {
            proof {
                if contains_seq(keyword@, "{value}"@) && exactly_one_placeholder(keyword@) {
                    let (a, b) = choose|a: int, b: int|
                        a < b && #[trigger] occurs_at(keyword@, "{value}"@, a)
                            && #[trigger] occurs_at(keyword@, "{value}"@, b);
                    assert(a == b);
                }
            }
            false
        },
    }
}

/// Whether a card has any variable with content.
pub fn has_nonempty_variable(card: &TriggerCard) -> (r: bool)
    ensures
        r == exists|i: int|
            0 <= i < card.variables@.len() && trim_spec(#[trigger] card.variables@[i]@).len() > 0,
{
    let n = card.variables.len();
    let mut i: usize = 0;
    while i < n
        invariant
            i <= n,
            n == card.variables@.len(),
            forall|j: int| 0 <= j < i ==> trim_spec(#[trigger] card.variables@[j]@).len() == 0,
        decreases n - i,
    {
        let trimmed = crate::text::trim_chars(
            &crate::text::string_to_chars(card.variables[i].as_str()),
        );
        if trimmed.len() > 0 {
            return true;
        }
        i += 1;
    }
    false
}

/// Whether a locked card with the given id exists.
pub fn has_locked_card(triggers: &Vec<TriggerCard>, id: &str) -> (r: bool)
    ensures
        r == exists|i: int|
            0 <= i < triggers@.len() && (#[trigger] triggers@[i]).id@ == id@ && triggers@[i].locked,
{
    let n = triggers.len();
    let mut i: usize = 0;
    while i < n
        invariant
            i <= n,
            n == triggers@.len(),
            forall|j: int|
                0 <= j < i ==> !((#[trigger] triggers@[j]).id@ == id@ && triggers@[j].locked),
        decreases n - i,
    {
        if crate::model::str_eq(triggers[i].id.as_str(), id) && triggers[i].locked {
            return true;
        }
        i += 1;
    }
    false
}

/// Whether one card is acceptable: a variable with content, a keyword with
/// content, and the placeholder exactly once.
pub open spec fn valid_card(c: TriggerCard) -> bool {
    &&& exists|i: int| 0 <= i < c.variables@.len() && trim_spec(#[trigger] c.variables@[i]@).len()
        > 0
    &&& trim_spec(c.keyword@).len() > 0
    &&& exactly_one_placeholder(c.keyword@)
}

/// Whether a trigger list is acceptable: both built-in cards are kept locked
/// and every card is acceptable.
pub open spec fn valid_triggers(triggers: Seq<TriggerCard>) -> bool {
    &&& exists|i: int|
        0 <= i < triggers.len() && (#[trigger] triggers[i]).id@ == "translate"@
            && triggers[i].locked
    &&& exists|i: int|
        0 <= i < triggers.len() && (#[trigger] triggers[i]).id@ == "polish"@ && triggers[i].locked
    &&& forall|i: int| 0 <= i < triggers.len() ==> valid_card(#[trigger] triggers[i])
}

/// Validates the trigger cards before settings are saved: both built-in
/// cards must be kept, and every card must have a usable keyword and at
/// least one variable.
pub fn validate_triggers(triggers: &Vec<TriggerCard>) -> (r: Result<(), SettingsError>)
    ensures
        r is Ok <==> valid_triggers(triggers@),
        r is Err ==> r->Err_0 is Serde,
{
    if !has_locked_card(triggers, "translate") {
        return Err(SettingsError::Serde(String::from_str("必须保留内置触发词: translate")));
    }
    if !has_locked_card(triggers, "polish") {
        return Err(SettingsError::Serde(String::from_str("必须保留内置触发词: polish")));
    }
    let n = triggers.len();
    let mut i: usize = 0;
    while i < n
        invariant
            n == triggers@.len(),
            i <= n,
            forall|j: int| 0 <= j < i ==> valid_card(#[trigger] triggers@[j]),
        decreases n - i,
    {
        let card = &triggers[i];
        if !has_nonempty_variable(card) {
            let mut m = String::from_str("触发词变量范围不能为空: ");
            m.append(card.title.as_str());
            return Err(SettingsError::Serde(m));
        }
        let keyword_t = crate::text::trim_chars(&crate::text::string_to_chars(card.keyword.as_str()));
        if keyword_t.len() == 0 {
            let mut m = String::from_str("触发词关键字不能为空: ");
            m.append(card.title.as_str());
            return Err(SettingsError::Serde(m));
        }
        if !has_exactly_one_placeholder(card.keyword.as_str()) {
            let mut m = String::from_str("触发词关键字必须包含且只包含一个 {value}: ");
            m.append(card.title.as_str());
            return Err(SettingsError::Serde(m));
        }
        i += 1;
    }
    Ok(())
}

/// Validates the runtime settings before they are saved: a well-formed
/// `http`/`https` service URL with a host and a port, a model id with
/// content, and a known device name.
pub fn validate_sensevoice_settings(sensevoice: &SenseVoiceSettings) -> (r: Result<
    (),
    SettingsError,
>)
    ensures
        ({
            let tu = trim_spec(sensevoice.service_url@);
            &&& tu.len() == 0 ==> (r matches Err(SettingsError::Serde(m)) && m@
                == "SenseVoice 服务地址不能为空"@)
            &&& tu.len() > 0 && crate::urlinfo::url_parts_of(tu) is None ==> (r matches Err(
                SettingsError::Serde(m),
            ) && m@.len() >= "SenseVoice 服务地址无效: "@.len() && m@.subrange(
                0,
                "SenseVoice 服务地址无效: "@.len() as int,
            ) == "SenseVoice 服务地址无效: "@)
            &&& (tu.len() > 0 ==> match crate::urlinfo::url_parts_of(tu) {
                None => true,
                Some((scheme, host, port)) => {
                &&& host is None ==> (r matches Err(SettingsError::Serde(m)) && m@
                    == "SenseVoice 服务地址缺少主机名"@)
                &&& host is Some && port is None ==> (r matches Err(SettingsError::Serde(m)) && m@
                    == "SenseVoice 服务地址缺少端口"@)
                &&& host is Some && port is Some && scheme != "http"@ && scheme != "https"@ ==> (r
                    matches Err(SettingsError::Serde(m)) && m@
                    == "SenseVoice 服务地址必须使用 http 或 https"@)
                &&& host is Some && port is Some && (scheme == "http"@ || scheme == "https"@)
                    && trim_spec(sensevoice.model_id@).len() == 0 ==> (r matches Err(
                    SettingsError::Serde(m),
                ) && m@ == "SenseVoice 模型 ID 不能为空"@)
                &&& host is Some && port is Some && (scheme == "http"@ || scheme == "https"@)
                    && trim_spec(sensevoice.model_id@).len() > 0 && sensevoice.device@ != "auto"@
                    && sensevoice.device@ != "cpu"@ && sensevoice.device@ != "cuda"@ ==> (r
                    matches Err(SettingsError::Serde(m)) && m@
                    == "SenseVoice 推理设备仅支持 auto/cpu/cuda"@)
                &&& host is Some && port is Some && (scheme == "http"@ || scheme == "https"@)
                    && trim_spec(sensevoice.model_id@).len() > 0 && (sensevoice.device@ == "auto"@
                    || sensevoice.device@ == "cpu"@ || sensevoice.device@ == "cuda"@) ==> r is Ok
                },
            })
        }),
{
    let url_t = crate::text::trim_chars(&crate::text::string_to_chars(sensevoice.service_url.as_str()));
    if url_t.len() == 0 {
        return Err(SettingsError::Serde(String::from_str("SenseVoice 服务地址不能为空")));
    }
    let url_s = crate::text::chars_to_string(&url_t);
    let (scheme, host, port) = match crate::urlinfo::url_parts(url_s.as_str()) {
        Ok(parts) => parts,
        Err(detail) => {
            let mut m = String::from_str("SenseVoice 服务地址无效: ");
            m.append(detail.as_str());
            proof {
                assert(m@.subrange(0, "SenseVoice 服务地址无效: "@.len() as int)
                    =~= "SenseVoice 服务地址无效: "@);
            }
            return Err(SettingsError::Serde(m));
        },
    };
    if host.is_none() {
        return Err(SettingsError::Serde(String::from_str("SenseVoice 服务地址缺少主机名")));
    }
    if port.is_none() {
        return Err(SettingsError::Serde(String::from_str("SenseVoice 服务地址缺少端口")));
    }
    let scheme_ok = crate::model::str_eq(scheme.as_str(), "http") || crate::model::str_eq(
        scheme.as_str(),
        "https",
    );
    if !scheme_ok {
        return Err(SettingsError::Serde(String::from_str("SenseVoice 服务地址必须使用 http 或 https")));
    }
    let model_t = crate::text::trim_chars(&crate::text::string_to_chars(sensevoice.model_id.as_str()));
    if model_t.len() == 0 {
        return Err(SettingsError::Serde(String::from_str("SenseVoice 模型 ID 不能为空")));
    }
    let device_ok = crate::model::str_eq(sensevoice.device.as_str(), "auto")
        || crate::model::str_eq(sensevoice.device.as_str(), "cpu") || crate::model::str_eq(
        sensevoice.device.as_str(),
        "cuda",
    );
    if !device_ok {
        return Err(SettingsError::Serde(String::from_str("SenseVoice 推理设备仅支持 auto/cpu/cuda")));
    }
    Ok(())
}

} // verus!
