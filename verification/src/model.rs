//! Variant resolution: which container image, container name, model id and
//! startup budget apply to each supported local inference backend.
use vstd::prelude::*;

use vstd::string::StringExecFns;

verus! {

pub const LOCAL_MODEL_SENSEVOICE: &'static str = "sensevoice";

pub const LOCAL_MODEL_VOXTRAL: &'static str = "voxtral";

pub const LOCAL_MODEL_QWEN3_ASR: &'static str = "qwen3-asr";

pub const SENSEVOICE_IMAGE_TAG: &'static str = "vtt-sensevoice:local";

pub const VLLM_IMAGE_TAG: &'static str = "vllm/vllm-openai:nightly";

pub const SERVICE_CONTAINER_NAME: &'static str = "vtt-sensevoice-service";

pub const VLLM_CONTAINER_NAME: &'static str = "vtt-sensevoice-service";

pub const DEFAULT_VOXTRAL_MODEL_ID: &'static str = "mistralai/Voxtral-Mini-4B-Realtime-2602";

pub const DEFAULT_QWEN3_ASR_MODEL_ID: &'static str = "Qwen/Qwen3-ASR-1.7B";

pub const SERVICE_START_TIMEOUT_SECS: u64 = 90;

pub const VLLM_SERVICE_START_TIMEOUT_SECS: u64 = 300;

/// ASCII lower-casing of a single character; other characters are unchanged.
pub open spec fn ascii_lower(c: char) -> char {
    if 'A' <= c && c <= 'Z' {
        (((c as u8) + 32) as u8) as char
    } else {
        c
    }
}

/// ASCII lower-casing of a character sequence.
pub open spec fn seq_ascii_lower(s: Seq<char>) -> Seq<char> {
    s.map_values(|c: char| ascii_lower(c))
}

/// Whether two strings agree once ASCII letters are folded to lower case.
pub open spec fn eq_ignore_ascii_case_spec(a: Seq<char>, b: Seq<char>) -> bool {
    seq_ascii_lower(a) == seq_ascii_lower(b)
}

fn to_ascii_lower_char(c: char) -> (r: char)
    ensures
        r == ascii_lower(c),
{
    if 'A' <= c && c <= 'Z' {
        (((c as u8) + 32) as u8) as char
    } else {
        c
    }
}

/// Case-insensitive (ASCII) string comparison, as `str::eq_ignore_ascii_case`
/// behaves on the variant names at issue.
pub fn eq_ignore_ascii_case(a: &str, b: &str) -> (r: bool)
    ensures
        r == eq_ignore_ascii_case_spec(a@, b@),
{
    let a_len = a.unicode_len();
    let b_len = b.unicode_len();
    if a_len != b_len {
        assert(seq_ascii_lower(a@).len() != seq_ascii_lower(b@).len());
        return false;
    }
    let mut i: usize = 0;
    while i < a_len
        invariant
            i <= a_len,
            a_len == a@.len(),
            b_len == b@.len(),
            a_len == b_len,
            forall|j: int| 0 <= j < i ==> seq_ascii_lower(a@)[j] == seq_ascii_lower(b@)[j],
        decreases a_len - i,
    {
        let ca = a.get_char(i);
        let cb = b.get_char(i);
        if to_ascii_lower_char(ca) != to_ascii_lower_char(cb) {
            assert(seq_ascii_lower(a@)[i as int] != seq_ascii_lower(b@)[i as int]);
            return false;
        }
        i += 1;
    }
    assert(seq_ascii_lower(a@) =~= seq_ascii_lower(b@));
    true
}

/// The canonical name of the configured variant: `voxtral` and `qwen3-asr`
/// are recognized up to ASCII case; anything else means the default backend.
pub fn normalize_local_model(value: &str) -> (r: &str)
    ensures
        eq_ignore_ascii_case_spec(value@, "voxtral"@) ==> r@ == "voxtral"@,
        !eq_ignore_ascii_case_spec(value@, "voxtral"@)
            && eq_ignore_ascii_case_spec(value@, "qwen3-asr"@) ==> r@ == "qwen3-asr"@,
        !eq_ignore_ascii_case_spec(value@, "voxtral"@)
            && !eq_ignore_ascii_case_spec(value@, "qwen3-asr"@) ==> r@ == "sensevoice"@,
{
    if eq_ignore_ascii_case(value, LOCAL_MODEL_VOXTRAL) {
        LOCAL_MODEL_VOXTRAL
    } else if eq_ignore_ascii_case(value, LOCAL_MODEL_QWEN3_ASR) {
        LOCAL_MODEL_QWEN3_ASR
    } else {
        LOCAL_MODEL_SENSEVOICE
    }
}

/// Whether the variant runs on the generic inference-server image.
pub open spec fn is_vllm_local_model_spec(s: Seq<char>) -> bool {
    s == "voxtral"@ || s == "qwen3-asr"@
}

pub fn is_vllm_local_model(local_model: &str) -> (r: bool)
    ensures
        r == is_vllm_local_model_spec(local_model@),
{
    str_eq(local_model, LOCAL_MODEL_VOXTRAL) || str_eq(local_model, LOCAL_MODEL_QWEN3_ASR)
}

/// Character-for-character string equality.
pub fn str_eq(a: &str, b: &str) -> (r: bool)
    ensures
        r == (a@ == b@),
{
    let a_len = a.unicode_len();
    let b_len = b.unicode_len();
    if a_len != b_len {
        return false;
    }
    let mut i: usize = 0;
    while i < a_len
        invariant
            i <= a_len,
            a_len == a@.len(),
            b_len == b@.len(),
            a_len == b_len,
            forall|j: int| 0 <= j < i ==> a@[j] == b@[j],
        decreases a_len - i,
    {
        if a.get_char(i) != b.get_char(i) {
            return false;
        }
        i += 1;
    }
    assert(a@ =~= b@);
    true
}

/// The image a normalized variant runs from.
pub fn runtime_image_tag(local_model: &str) -> (r: &'static str)
    ensures
        is_vllm_local_model_spec(local_model@) ==> r@ == "vllm/vllm-openai:nightly"@,
        !is_vllm_local_model_spec(local_model@) ==> r@ == "vtt-sensevoice:local"@,
{
    if is_vllm_local_model(local_model) {
        VLLM_IMAGE_TAG
    } else {
        SENSEVOICE_IMAGE_TAG
    }
}

/// The managed container's name for a normalized variant. Both backends share
/// one name, so at most one managed container can exist at a time.
pub fn runtime_container_name(local_model: &str) -> (r: &'static str)
    ensures
        r@ == "vtt-sensevoice-service"@,
{
    if is_vllm_local_model(local_model) {
        VLLM_CONTAINER_NAME
    } else {
        SERVICE_CONTAINER_NAME
    }
}

/// Startup budget in seconds: inference-server variants may install
/// dependencies at container start and get a much longer budget.
pub fn service_start_timeout_secs(local_model: &str) -> (r: u64)
    ensures
        is_vllm_local_model_spec(local_model@) ==> r == 300,
        !is_vllm_local_model_spec(local_model@) ==> r == 90,
{
    if is_vllm_local_model(local_model) {
        VLLM_SERVICE_START_TIMEOUT_SECS
    } else {
        SERVICE_START_TIMEOUT_SECS
    }
}


pub const DEFAULT_QWEN3_ASR_ALT_MODEL_ID: &'static str = "Qwen/Qwen3-ASR-0.6B";

pub const QWEN3_FORCED_ALIGNER_MODEL_ID: &'static str = "Qwen/Qwen3-ForcedAligner-0.6B";

/// The default variant name for a fresh configuration.
pub fn default_local_model() -> (r: String)
    ensures
        r@ == "sensevoice"@,
{
    String::from_str("sensevoice")
}

/// The model identifiers the qwen3 backend accepts.
pub open spec fn is_allowed_qwen3_model(s: Seq<char>) -> bool {
    s == "Qwen/Qwen3-ASR-1.7B"@ || s == "Qwen/Qwen3-ASR-0.6B"@ || s
        == "Qwen/Qwen3-ForcedAligner-0.6B"@
}

/// The qwen3 model identifier actually served: the configured one when its
/// trimmed form is on the allow-list, the default otherwise.
pub fn normalize_qwen3_asr_model_id(model_id: &str) -> (r: &'static str)
    ensures
        is_allowed_qwen3_model(crate::text::trim_spec(model_id@)) ==> r@ == crate::text::trim_spec(
            model_id@,
        ),
        !is_allowed_qwen3_model(crate::text::trim_spec(model_id@)) ==> r@
            == "Qwen/Qwen3-ASR-1.7B"@,
{
    let chars = crate::text::string_to_chars(model_id);
    let trimmed = crate::text::trim_chars(&chars);
    let trimmed_s = crate::text::chars_to_string(&trimmed);
    if str_eq(trimmed_s.as_str(), DEFAULT_QWEN3_ASR_MODEL_ID) {
        DEFAULT_QWEN3_ASR_MODEL_ID
    } else if str_eq(trimmed_s.as_str(), DEFAULT_QWEN3_ASR_ALT_MODEL_ID) {
        DEFAULT_QWEN3_ASR_ALT_MODEL_ID
    } else if str_eq(trimmed_s.as_str(), QWEN3_FORCED_ALIGNER_MODEL_ID) {
        QWEN3_FORCED_ALIGNER_MODEL_ID
    } else {
        DEFAULT_QWEN3_ASR_MODEL_ID
    }
}

/// The model identifier an inference-server container serves: voxtral has a
/// fixed one, qwen3 takes the configured one when allowed.
pub fn resolve_vllm_model_id(local_model: &str, model_id: &str) -> (r: String)
    ensures
        local_model@ == "voxtral"@ ==> r@ == "mistralai/Voxtral-Mini-4B-Realtime-2602"@,
        local_model@ == "qwen3-asr"@ ==> (is_allowed_qwen3_model(crate::text::trim_spec(model_id@))
            ==> r@ == crate::text::trim_spec(model_id@)) && (!is_allowed_qwen3_model(
            crate::text::trim_spec(model_id@),
        ) ==> r@ == "Qwen/Qwen3-ASR-1.7B"@),
        local_model@ != "voxtral"@ && local_model@ != "qwen3-asr"@ ==> r@
            == "Qwen/Qwen3-ASR-1.7B"@,
{
    proof {
        reveal_strlit("voxtral");
        reveal_strlit("qwen3-asr");
    }
    if str_eq(local_model, LOCAL_MODEL_VOXTRAL) {
        proof {
            assert(local_model@ == "voxtral"@);
            assert("voxtral"@.len() == 7);
            assert("qwen3-asr"@.len() == 9);
            assert(local_model@ != "qwen3-asr"@);
        }
        String::from_str(DEFAULT_VOXTRAL_MODEL_ID)
    } else if str_eq(local_model, LOCAL_MODEL_QWEN3_ASR) {
        let normalized = normalize_qwen3_asr_model_id(model_id);
        let r = String::from_str(normalized);
        proof {
            assert(r@ == normalized@);
            if is_allowed_qwen3_model(crate::text::trim_spec(model_id@)) {
                assert(normalized@ == crate::text::trim_spec(model_id@));
            } else {
                assert(normalized@ == "Qwen/Qwen3-ASR-1.7B"@);
            }
        }
        r
    } else {
        String::from_str(DEFAULT_QWEN3_ASR_MODEL_ID)
    }
}

/// Whether the default backend's image must be (re)built: only a present
/// image together with a matching recipe stamp skips the build.
pub fn needs_runtime_image_build(has_image: bool, previous_stamp: &str, expected_stamp: &str) -> (r:
    bool)
    ensures
        r == !(has_image && crate::text::trim_spec(previous_stamp@) == expected_stamp@),
{
    if !has_image {
        return true;
    }
    let prev = crate::text::trim_chars(&crate::text::string_to_chars(previous_stamp));
    let prev_s = crate::text::chars_to_string(&prev);
    !str_eq(prev_s.as_str(), expected_stamp)
}

/// Whether the prebuilt inference-server image must be pulled: only when it
/// is absent — it is never rebuilt.
pub fn needs_vllm_image_pull(has_image: bool) -> (r: bool)
    ensures
        r == !has_image,
{
    !has_image
}

/// One step of the recipe stamp's 64-bit fold.
pub open spec fn stamp_step(h: u64, b: u8) -> u64 {
    vstd::wrapping::u64_specs::wrapping_mul((h ^ (b as u64)) as u64, 0x100000001b3u64)
}

/// The stamp fold over one byte block.
pub open spec fn stamp_block(h: u64, block: Seq<u8>) -> u64
    decreases block.len(),
{
    if block.len() == 0 {
        h
    } else {
        stamp_step(stamp_block(h, block.drop_last()), block.last())
    }
}

/// The stamp fold over all blocks.
pub open spec fn stamp_fold(h: u64, blocks: Seq<Seq<u8>>) -> u64
    decreases blocks.len(),
{
    if blocks.len() == 0 {
        h
    } else {
        stamp_block(stamp_fold(h, blocks.drop_last()), blocks.last())
    }
}

/// The lowercase hexadecimal numeral of a value, without leading zeros.
pub open spec fn hex_chars(n: nat) -> Seq<char>
    decreases n,
{
    if n < 16 {
        seq![crate::codec::hex_digit_char(n)]
    } else {
        hex_chars(n / 16).push(crate::codec::hex_digit_char(n % 16))
    }
}

fn push_hex_u64(out: &mut Vec<char>, n: u64)
    ensures
        final(out)@ == old(out)@ + hex_chars(n as nat),
    decreases n,
{
    if n < 16 {
        out.push(hex_char_of_u64(n));
        proof {
            assert(final(out)@ =~= old(out)@ + hex_chars(n as nat));
        }
    } else {
        push_hex_u64(out, n / 16);
        out.push(hex_char_of_u64(n % 16));
        proof {
            assert(final(out)@ =~= old(out)@ + hex_chars(n as nat));
        }
    }
}

fn hex_char_of_u64(d: u64) -> (c: char)
    requires
        d < 16,
    ensures
        c == crate::codec::hex_digit_char(d as nat),
{
    if d == 0 {
        '0'
    } else if d == 1 {
        '1'
    } else if d == 2 {
        '2'
    } else if d == 3 {
        '3'
    } else if d == 4 {
        '4'
    } else if d == 5 {
        '5'
    } else if d == 6 {
        '6'
    } else if d == 7 {
        '7'
    } else if d == 8 {
        '8'
    } else if d == 9 {
        '9'
    } else if d == 10 {
        'a'
    } else if d == 11 {
        'b'
    } else if d == 12 {
        'c'
    } else if d == 13 {
        'd'
    } else if d == 14 {
        'e'
    } else {
        'f'
    }
}

/// The content stamp of the bundled recipe files: a 64-bit fold of their
/// bytes, written in lowercase hexadecimal. The same recipe bytes always
/// give the same stamp, so a cached image is rebuilt exactly when a recipe
/// file changed.
pub fn runtime_stamp(blocks: &Vec<Vec<u8>>) -> (r: String)
    ensures
        r@ == hex_chars(stamp_fold(0xcbf29ce484222325u64, views_u8(blocks@)) as nat),
{
    let mut h: u64 = 0xcbf29ce484222325;
    let mut i: usize = 0;
    while i < blocks.len()
        invariant
            i <= blocks@.len(),
            h == stamp_fold(0xcbf29ce484222325u64, views_u8(blocks@).take(i as int)),
        decreases blocks@.len() - i,
    {
        let block = &blocks[i];
        let mut j: usize = 0;
        while j < block.len()
            invariant
                j <= block@.len(),
                i < blocks@.len(),
                block@ == blocks@[i as int]@,
                h == stamp_block(
                    stamp_fold(0xcbf29ce484222325u64, views_u8(blocks@).take(i as int)),
                    block@.take(j as int),
                ),
            decreases block@.len() - j,
        {
            proof {
                assert(block@.take(j + 1).drop_last() =~= block@.take(j as int));
                assert(block@.take(j + 1).last() == block@[j as int]);
            }
            h = (h ^ (block[j] as u64)).wrapping_mul(0x100000001b3);
            j += 1;
        }
        proof {
            assert(block@.take(block@.len() as int) =~= block@);
            assert(views_u8(blocks@).take(i + 1).drop_last() =~= views_u8(blocks@).take(i as int));
            assert(views_u8(blocks@).take(i + 1).last() == blocks@[i as int]@);
        }
        i += 1;
    }
    proof {
        assert(views_u8(blocks@).take(blocks@.len() as int) =~= views_u8(blocks@));
    }
    let mut out: Vec<char> = Vec::new();
    push_hex_u64(&mut out, h);
    crate::text::chars_to_string(&out)
}

/// The views of a vector of byte blocks.
pub open spec fn views_u8(blocks: Seq<Vec<u8>>) -> Seq<Seq<u8>> {
    blocks.map_values(|b: Vec<u8>| b@)
}

/// The device the inference-server variants must run on: they require the
/// GPU, so any other configured device is corrected to it before a start,
/// and the correction is persisted. The default backend keeps its setting.
pub fn forced_device(local_model: &str, device: &str) -> (r: Option<String>)
    ensures
        is_vllm_local_model_spec(local_model@) && device@ != "cuda"@ ==> (r matches Some(d) && d@
            == "cuda"@),
        !is_vllm_local_model_spec(local_model@) || device@ == "cuda"@ ==> r is None,
{
    if is_vllm_local_model(local_model) && !str_eq(device, "cuda") {
        Some(String::from_str("cuda"))
    } else {
        None
    }
}

} // verus!
