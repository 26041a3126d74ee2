//! The outcome of processing one recording: what was transcribed, what came
//! out after the trigger cards ran, and what failed. The recording, the
//! transcription calls and the pasting are the shell's work; the outcome
//! bookkeeping and the error texts are decided here.
use vstd::prelude::*;

use vstd::string::StringExecFns;

use crate::settings::TriggerMatch;
use crate::tail::{join_sep, views_of};

verus! {

/// Why a recording could not be segmented into audio files.
#[derive(Debug, Clone, PartialEq)]
pub enum AudioProcessingError {
    Path(String),
    Io(String),
}

impl AudioProcessingError {
    /// The human-readable message, prefixed as the application displays it.
    pub fn message(&self) -> (r: String)
        ensures
            r@ == self.message_spec(),
    {
        let (prefix, detail): (&str, &String) = match self {
            AudioProcessingError::Path(d) => ("无法获取缓存目录: ", d),
            AudioProcessingError::Io(d) => ("无法写入录音文件: ", d),
        };
        let mut out = String::from_str(prefix);
        out.append(detail.as_str());
        out
    }

    pub open spec fn message_spec(&self) -> Seq<char> {
        match self {
            AudioProcessingError::Path(d) => "无法获取缓存目录: "@ + d@,
            AudioProcessingError::Io(d) => "无法写入录音文件: "@ + d@,
        }
    }
}

/// Why text could not be pasted.
#[derive(Debug, Clone, PartialEq)]
pub enum PasteError {
    Clipboard(String),
    Paste(String),
}

impl PasteError {
    /// The human-readable message, prefixed as the application displays it.
    pub fn message(&self) -> (r: String)
        ensures
            r@ == self.message_spec(),
    {
        let (prefix, detail): (&str, &String) = match self {
            PasteError::Clipboard(d) => ("剪贴板写入失败: ", d),
            PasteError::Paste(d) => ("模拟粘贴失败: ", d),
        };
        let mut out = String::from_str(prefix);
        out.append(detail.as_str());
        out
    }

    pub open spec fn message_spec(&self) -> Seq<char> {
        match self {
            PasteError::Clipboard(d) => "剪贴板写入失败: "@ + d@,
            PasteError::Paste(d) => "模拟粘贴失败: "@ + d@,
        }
    }
}

/// What one processed recording came to.
#[derive(Debug, Clone, PartialEq)]
pub struct ProcessingOutcome {
    pub history_enabled: bool,
    pub transcription_text: String,
    pub final_text: String,
    pub triggered: bool,
    pub triggered_by_keyword: bool,
    pub trigger_matches: Vec<TriggerMatch>,
    pub error_message: Option<String>,
}

impl ProcessingOutcome {
    /// A successful outcome: no error message.
    pub fn success(
        history_enabled: bool,
        transcription_text: String,
        final_text: String,
        triggered: bool,
        triggered_by_keyword: bool,
        trigger_matches: Vec<TriggerMatch>,
    ) -> (r: Self)
        ensures
            r.history_enabled == history_enabled,
            r.transcription_text@ == transcription_text@,
            r.final_text@ == final_text@,
            r.triggered == triggered,
            r.triggered_by_keyword == triggered_by_keyword,
            r.trigger_matches == trigger_matches,
            r.error_message is None,
    {
        ProcessingOutcome {
            history_enabled,
            transcription_text,
            final_text,
            triggered,
            triggered_by_keyword,
            trigger_matches,
            error_message: None,
        }
    }

    /// A failed outcome, carrying what was salvaged and the error message.
    pub fn failed(
        history_enabled: bool,
        transcription_text: String,
        final_text: String,
        triggered: bool,
        triggered_by_keyword: bool,
        trigger_matches: Vec<TriggerMatch>,
        error_message: String,
    ) -> (r: Self)
        ensures
            r.history_enabled == history_enabled,
            r.transcription_text@ == transcription_text@,
            r.final_text@ == final_text@,
            r.triggered == triggered,
            r.triggered_by_keyword == triggered_by_keyword,
            r.trigger_matches == trigger_matches,
            r.error_message matches Some(m) && m@ == error_message@,
    {
        ProcessingOutcome {
            history_enabled,
            transcription_text,
            final_text,
            triggered,
            triggered_by_keyword,
            trigger_matches,
            error_message: Some(error_message),
        }
    }

    /// Whether processing went through without an error.
    pub fn is_success(&self) -> (r: bool)
        ensures
            r == (self.error_message is None),
    {
        self.error_message.is_none()
    }
}

/// The failed outcome of a segmentation error: nothing was transcribed.
pub fn processing_audio_error(history_enabled: bool, err: &AudioProcessingError) -> (r:
    ProcessingOutcome)
    ensures
        r.history_enabled == history_enabled,
        r.transcription_text@.len() == 0,
        r.final_text@.len() == 0,
        !r.triggered,
        !r.triggered_by_keyword,
        r.trigger_matches@.len() == 0,
        r.error_message matches Some(m) && m@ == "录音分段失败: "@ + err.message_spec(),
{
    let mut m = String::from_str("录音分段失败: ");
    let detail = err.message();
    m.append(detail.as_str());
    ProcessingOutcome::failed(
        history_enabled,
        String::new(),
        String::new(),
        false,
        false,
        Vec::new(),
        m,
    )
}

/// The failed outcome of a paste error: the texts survive, the error says
/// what went wrong at the clipboard.
pub fn processing_paste_error(
    history_enabled: bool,
    transcription_text: &str,
    final_text: &str,
    triggered: bool,
    triggered_by_keyword: bool,
    trigger_matches: Vec<TriggerMatch>,
    err: &PasteError,
) -> (r: ProcessingOutcome)
    ensures
        r.history_enabled == history_enabled,
        r.transcription_text@ == transcription_text@,
        r.final_text@ == final_text@,
        r.triggered == triggered,
        r.triggered_by_keyword == triggered_by_keyword,
        r.trigger_matches == trigger_matches,
        r.error_message matches Some(m) && m@ == "写入剪贴板失败: "@ + err.message_spec(),
{
    let mut m = String::from_str("写入剪贴板失败: ");
    let detail = err.message();
    m.append(detail.as_str());
    ProcessingOutcome::failed(
        history_enabled,
        String::from_str(transcription_text),
        String::from_str(final_text),
        triggered,
        triggered_by_keyword,
        trigger_matches,
        m,
    )
}

/// The combined transcription: the segment texts joined by single spaces.
pub fn join_transcripts(parts: &Vec<String>) -> (r: String)
    ensures
        r@ == join_sep(views_of(parts@), " "@),
{
    crate::tail::join_strings(parts, " ")
}

} // verus!
