//! The computable parts of the remote speech-recognition client: its
//! configuration gate and how an audio stream is cut into chunks. The HTTP
//! and socket plumbing is the shell's.
use vstd::prelude::*;

use vstd::string::StringExecFns;

use crate::text::{string_to_chars, trim_chars};

verus! {

/// Why a request to the remote recognizer failed.
#[derive(Debug, Clone, PartialEq)]
pub enum VolcengineError {
    Request(String),
    Parse(String),
    Config(String),
    Io(String),
    WebSocket(String),
}

impl VolcengineError {
    /// The human-readable message, prefixed as the application displays it.
    pub fn message(&self) -> (r: String)
        ensures
            r@ == self.message_spec(),
    {
        let (prefix, detail): (&str, &String) = match self {
            VolcengineError::Request(d) => ("火山引擎请求失败: ", d),
            VolcengineError::Parse(d) => ("火山引擎响应解析失败: ", d),
            VolcengineError::Config(d) => ("火山引擎配置缺失: ", d),
            VolcengineError::Io(d) => ("无法读取音频: ", d),
            VolcengineError::WebSocket(d) => ("WebSocket 错误: ", d),
        };
        let mut out = String::from_str(prefix);
        out.append(detail.as_str());
        out
    }

    pub open spec fn message_spec(&self) -> Seq<char> {
        match self {
            VolcengineError::Request(d) => "火山引擎请求失败: "@ + d@,
            VolcengineError::Parse(d) => "火山引擎响应解析失败: "@ + d@,
            VolcengineError::Config(d) => "火山引擎配置缺失: "@ + d@,
            VolcengineError::Io(d) => "无法读取音频: "@ + d@,
            VolcengineError::WebSocket(d) => "WebSocket 错误: "@ + d@,
        }
    }
}

/// What the chunking needs to know of a WAV file's header.
#[derive(Debug, Clone, Copy, PartialEq, Eq, Structural)]
pub struct AudioMetadata {
    pub sample_rate: u32,
    pub channels: u16,
    pub bits_per_sample: u16,
}

/// The check before any request: both credentials must have content.
pub fn ensure_config(app_id: &str, access_token: &str) -> (r: Result<(), VolcengineError>)
    ensures
        crate::text::trim_spec(app_id@).len() == 0 ==> (r matches Err(VolcengineError::Config(m))
            && m@ == "App ID 不能为空"@),
        crate::text::trim_spec(app_id@).len() > 0 && crate::text::trim_spec(access_token@).len()
            == 0 ==> (r matches Err(VolcengineError::Config(m)) && m@
            == "Access Token 不能为空"@),
        crate::text::trim_spec(app_id@).len() > 0 && crate::text::trim_spec(access_token@).len()
            > 0 ==> r is Ok,
{
    let id_t = trim_chars(&string_to_chars(app_id));
    if id_t.len() == 0 {
        return Err(VolcengineError::Config(String::from_str("App ID 不能为空")));
    }
    let token_t = trim_chars(&string_to_chars(access_token));
    if token_t.len() == 0 {
        return Err(VolcengineError::Config(String::from_str("Access Token 不能为空")));
    }
    Ok(())
}

/// The streaming chunk size: a tenth of a second of audio, or a fixed
/// fallback when the format is unknown or degenerate.
pub fn compute_chunk_size(metadata: Option<AudioMetadata>) -> (r: u64)
    ensures
        metadata is None ==> r == 3200,
        metadata matches Some(meta) ==> ({
            let bytes_per_sample = if (meta.bits_per_sample + 7) / 8 >= 1 {
                ((meta.bits_per_sample + 7) / 8) as int
            } else {
                1int
            };
            let bytes_per_second = (if meta.sample_rate * meta.channels as u32 <= u32::MAX {
                (meta.sample_rate * meta.channels as u32) as int
            } else {
                u32::MAX as int
            }) * bytes_per_sample;
            let chunk = bytes_per_second / 10;
            r == if chunk == 0 {
                3200int
            } else {
                chunk
            }
        }),
{
    let Some(meta) = metadata else {
        return 3200;
    };
    let bits = meta.bits_per_sample as u64;
    let mut bytes_per_sample = (bits + 7) / 8;
    if bytes_per_sample < 1 {
        bytes_per_sample = 1;
    }
    let rate = meta.sample_rate as u64;
    let channels = meta.channels as u64;
    proof {
        assert(rate * channels <= 0xFFFF_FFFFu64 * 0xFFFFu64) by (nonlinear_arith)
            requires
                rate <= 0xFFFF_FFFFu64,
                channels <= 0xFFFFu64,
        ;
    }
    let product = rate * channels;
    let samples_per_second: u64 = if product <= u32::MAX as u64 {
        product
    } else {
        u32::MAX as u64
    };
    proof {
        assert(samples_per_second * bytes_per_sample <= 0xFFFF_FFFFu64 * 8192u64)
            by (nonlinear_arith)
            requires
                samples_per_second <= 0xFFFF_FFFFu64,
                bytes_per_sample <= 8192u64,
        ;
    }
    let bytes_per_second = samples_per_second * bytes_per_sample;
    let chunk = bytes_per_second / 10;
    if chunk == 0 {
        3200
    } else {
        chunk
    }
}

} // verus!
