//! The local transcription client's decisions: which endpoint and model each
//! variant uses, when a request may proceed, and when a failed request is
//! only the model still warming up and worth one retry. The HTTP call itself
//! is the shell's.
use vstd::prelude::*;

use vstd::string::StringExecFns;

use crate::facade::SenseVoiceError;
use crate::settings::SenseVoiceSettings;
use crate::tail::lowercase_of;
use crate::text::{contains_seq, string_to_chars, trim_spec};

verus! {

/// Whether a failure body reads as "still warming up".
pub open spec fn warming_up_spec(body: Seq<char>) -> bool {
    contains_seq(lowercase_of(body), "warming"@) || contains_seq(lowercase_of(body), "loading"@)
        || contains_seq(lowercase_of(body), "retry"@) || contains_seq(lowercase_of(body), "预热"@)
}

/// Whether an error body says the model is still warming up.
pub fn is_warming_up_error(body: &str) -> (r: bool)
    ensures
        r == warming_up_spec(body@),
{
    let lowered = crate::tail::lowercase(body);
    let hay = string_to_chars(lowered.as_str());
    let n1 = string_to_chars("warming");
    let n2 = string_to_chars("loading");
    let n3 = string_to_chars("retry");
    let n4 = string_to_chars("预热");
    crate::text::contains_chars(&hay, &n1) || crate::text::contains_chars(&hay, &n2)
        || crate::text::contains_chars(&hay, &n3) || crate::text::contains_chars(&hay, &n4)
}

/// Whether a failed request deserves the single warm-up retry: only the
/// first attempt, only on a service-unavailable status, and only when the
/// body reads as warming up.
pub fn should_retry_warming(attempt: u32, status: u16, body: &str) -> (r: bool)
    ensures
        r == (attempt == 0 && status == 503 && warming_up_spec(body@)),
{
    attempt == 0 && status == 503 && is_warming_up_error(body)
}

/// Why a transcription request may not even be sent.
pub fn validate_transcription_config(s: &SenseVoiceSettings) -> (r: Result<(), SenseVoiceError>)
    ensures
        !s.enabled ==> (r matches Err(SenseVoiceError::Config(m)) && m@
            == "SenseVoice 尚未启用，请先下载并启用"@),
        s.enabled && !s.installed ==> (r matches Err(SenseVoiceError::Config(m)) && m@
            == "SenseVoice 尚未安装，请先下载模型"@),
        s.enabled && s.installed && trim_spec(s.service_url@).len() == 0 ==> (r matches Err(
            SenseVoiceError::Config(m),
        ) && m@ == "SenseVoice 服务地址不能为空"@),
        s.enabled && s.installed && trim_spec(s.service_url@).len() > 0 ==> r is Ok,
{
    if !s.enabled {
        return Err(SenseVoiceError::Config(String::from_str("SenseVoice 尚未启用，请先下载并启用")));
    }
    if !s.installed {
        return Err(SenseVoiceError::Config(String::from_str("SenseVoice 尚未安装，请先下载模型")));
    }
    let trimmed = crate::text::trim_chars(&string_to_chars(s.service_url.as_str()));
    if trimmed.len() == 0 {
        return Err(SenseVoiceError::Config(String::from_str("SenseVoice 服务地址不能为空")));
    }
    Ok(())
}

/// The path a variant's transcription requests go to: the default backend
/// has its own endpoint, the inference-server variants speak the common one.
pub fn transcription_endpoint(local_model: &str) -> (r: &'static str)
    ensures
        crate::model::is_vllm_local_model_spec(local_model@) ==> r@ == "/v1/audio/transcriptions"@,
        !crate::model::is_vllm_local_model_spec(local_model@) ==> r@ == "/api/v1/asr"@,
{
    if crate::model::is_vllm_local_model(local_model) {
        "/v1/audio/transcriptions"
    } else {
        "/api/v1/asr"
    }
}

/// The model field of an inference-server request: the configured id when it
/// has content, the variant's default otherwise.
pub fn effective_model_id(local_model: &str, model_id: &str) -> (r: String)
    ensures
        trim_spec(model_id@).len() > 0 ==> r@ == trim_spec(model_id@),
        trim_spec(model_id@).len() == 0 && local_model@ == "voxtral"@ ==> r@
            == "mistralai/Voxtral-Mini-4B-Realtime-2602"@,
        trim_spec(model_id@).len() == 0 && local_model@ != "voxtral"@ ==> r@
            == "Qwen/Qwen3-ASR-1.7B"@,
{
    let trimmed = crate::text::trim_chars(&string_to_chars(model_id));
    if trimmed.len() > 0 {
        return crate::text::chars_to_string(&trimmed);
    }
    if crate::model::str_eq(local_model, "voxtral") {
        String::from_str("mistralai/Voxtral-Mini-4B-Realtime-2602")
    } else {
        String::from_str("Qwen/Qwen3-ASR-1.7B")
    }
}

} // verus!
