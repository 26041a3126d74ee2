//! The container engine gateway: pure construction of the engine CLI's
//! argument lists and pure interpretation of its outputs. No state and no
//! process handling — the driver spawns `docker` with the arguments built
//! here and feeds the captured output back into the interpreters.
use vstd::prelude::*;

use vstd::string::StringExecFns;

use crate::codec::{dec_chars, push_dec_u64};
use crate::facade::SenseVoiceError;
use crate::text::{chars_to_string, contains_seq, string_to_chars, trim_chars, trim_spec};

verus! {

/// The views of an argument list.
pub open spec fn arg_views(args: Seq<String>) -> Seq<Seq<char>> {
    args.map_values(|s: String| s@)
}

proof fn lemma_arg_views_push(v: Seq<String>, x: String)
    ensures
        arg_views(v.push(x)) == arg_views(v).push(x@),
{
    assert(arg_views(v.push(x)) =~= arg_views(v).push(x@));
}

fn push_arg(args: &mut Vec<String>, lit: &str)
    ensures
        arg_views(final(args)@) == arg_views(old(args)@).push(lit@),
{
    let value = String::from_str(lit);
    proof {
        lemma_arg_views_push(args@, value);
    }
    args.push(value);
}

fn push_arg_string(args: &mut Vec<String>, value: String)
    ensures
        arg_views(final(args)@) == arg_views(old(args)@).push(value@),
{
    proof {
        lemma_arg_views_push(args@, value);
    }
    args.push(value);
}

/// `docker version --format {{.Client.Version}}`: is the CLI callable?
pub fn docker_version_args() -> (r: Vec<String>)
    ensures
        arg_views(r@) =~= seq!["version"@, "--format"@, "{{.Client.Version}}"@],
{
    let mut args: Vec<String> = Vec::new();
    push_arg(&mut args, "version");
    push_arg(&mut args, "--format");
    push_arg(&mut args, "{{.Client.Version}}");
    args
}

/// `docker info`: is the daemon reachable?
pub fn docker_info_args() -> (r: Vec<String>)
    ensures
        arg_views(r@) =~= seq!["info"@],
{
    let mut args: Vec<String> = Vec::new();
    push_arg(&mut args, "info");
    args
}

/// `docker image inspect <image>`: is the image present?
pub fn docker_image_inspect_args(image: &str) -> (r: Vec<String>)
    ensures
        arg_views(r@) =~= seq!["image"@, "inspect"@, image@],
{
    let mut args: Vec<String> = Vec::new();
    push_arg(&mut args, "image");
    push_arg(&mut args, "inspect");
    push_arg_string(&mut args, String::from_str(image));
    args
}

/// `docker build -t <tag> <dir>`.
pub fn docker_build_args(image_tag: &str, runtime_dir: &str) -> (r: Vec<String>)
    ensures
        arg_views(r@) =~= seq!["build"@, "-t"@, image_tag@, runtime_dir@],
{
    let mut args: Vec<String> = Vec::new();
    push_arg(&mut args, "build");
    push_arg(&mut args, "-t");
    push_arg_string(&mut args, String::from_str(image_tag));
    push_arg_string(&mut args, String::from_str(runtime_dir));
    args
}

/// `docker pull <image>`.
pub fn docker_pull_args(image: &str) -> (r: Vec<String>)
    ensures
        arg_views(r@) =~= seq!["pull"@, image@],
{
    let mut args: Vec<String> = Vec::new();
    push_arg(&mut args, "pull");
    push_arg_string(&mut args, String::from_str(image));
    args
}

/// `docker stop <name>`.
pub fn docker_stop_args(name: &str) -> (r: Vec<String>)
    ensures
        arg_views(r@) =~= seq!["stop"@, name@],
{
    let mut args: Vec<String> = Vec::new();
    push_arg(&mut args, "stop");
    push_arg_string(&mut args, String::from_str(name));
    args
}

/// `docker rm -f <name>`.
pub fn docker_rm_args(name: &str) -> (r: Vec<String>)
    ensures
        arg_views(r@) =~= seq!["rm"@, "-f"@, name@],
{
    let mut args: Vec<String> = Vec::new();
    push_arg(&mut args, "rm");
    push_arg(&mut args, "-f");
    push_arg_string(&mut args, String::from_str(name));
    args
}

/// `docker inspect -f {{.State.Running}} <name>`.
pub fn docker_inspect_running_args(name: &str) -> (r: Vec<String>)
    ensures
        arg_views(r@) =~= seq!["inspect"@, "-f"@, "{{.State.Running}}"@, name@],
{
    let mut args: Vec<String> = Vec::new();
    push_arg(&mut args, "inspect");
    push_arg(&mut args, "-f");
    push_arg(&mut args, "{{.State.Running}}");
    push_arg_string(&mut args, String::from_str(name));
    args
}

/// `docker logs -f <name>`: follow the container's output.
pub fn docker_logs_follow_args(name: &str) -> (r: Vec<String>)
    ensures
        arg_views(r@) =~= seq!["logs"@, "-f"@, name@],
{
    let mut args: Vec<String> = Vec::new();
    push_arg(&mut args, "logs");
    push_arg(&mut args, "-f");
    push_arg_string(&mut args, String::from_str(name));
    args
}

/// `docker logs --tail <n> <name>`.
pub fn docker_logs_tail_args(name: &str, lines: u64) -> (r: Vec<String>)
    ensures
        arg_views(r@) =~= seq!["logs"@, "--tail"@, dec_chars(lines as nat), name@],
{
    let mut args: Vec<String> = Vec::new();
    push_arg(&mut args, "logs");
    push_arg(&mut args, "--tail");
    let mut digits: Vec<char> = Vec::new();
    push_dec_u64(&mut digits, lines);
    push_arg_string(&mut args, chars_to_string(&digits));
    push_arg_string(&mut args, String::from_str(name));
    args
}

/// A bind-mount argument: `type=bind,source=<source>,target=<target>`.
pub fn bind_mount(source: &str, target: &str) -> (r: String)
    ensures
        r@ == "type=bind,source="@ + source@ + ",target="@ + target@,
{
    let mut out = String::from_str("type=bind,source=");
    out.append(source);
    out.append(",target=");
    out.append(target);
    out
}

/// `<name>=<value>` for an environment argument.
fn env_pair(name: &str, value: &str) -> (r: String)
    ensures
        r@ == name@ + value@,
{
    let mut out = String::from_str(name);
    out.append(value);
    out
}

/// `<host>:<port>:<port>`: publish the service port on the given host.
pub fn publish_spec_arg(publish_host: &str, port: u16) -> (r: String)
    ensures
        r@ == publish_host@ + ":"@ + dec_chars(port as nat) + ":"@ + dec_chars(port as nat),
{
    let mut digits: Vec<char> = Vec::new();
    push_dec_u64(&mut digits, port as u64);
    let port_s = chars_to_string(&digits);
    let mut out = String::from_str(publish_host);
    out.append(":");
    out.append(port_s.as_str());
    out.append(":");
    out.append(port_s.as_str());
    out
}

/// The complete `docker run` argument list for the default backend's
/// container: detached, named, with the published port, the model cache
/// mounted at `/models`, and the service's environment.
pub fn run_service_container_args(
    container_name: &str,
    image_tag: &str,
    publish_host: &str,
    port: u16,
    model_dir: &str,
    model_id: &str,
    device: &str,
    hub: &str,
) -> (r: Vec<String>)
    ensures
        arg_views(r@) =~= seq![
            "run"@,
            "-d"@,
            "--name"@,
            container_name@,
            "-p"@,
            publish_host@ + ":"@ + dec_chars(port as nat) + ":"@ + dec_chars(port as nat),
            "--mount"@,
            "type=bind,source="@ + model_dir@ + ",target=/models"@,
            "-e"@,
            "SENSEVOICE_MODEL_ID="@ + model_id@,
            "-e"@,
            "SENSEVOICE_MODEL_DIR=/models"@,
            "-e"@,
            "SENSEVOICE_DEVICE="@ + device@,
            "-e"@,
            "SENSEVOICE_HUB="@ + hub@,
            "-e"@,
            "SENSEVOICE_HOST=0.0.0.0"@,
            "-e"@,
            "SENSEVOICE_PORT="@ + dec_chars(port as nat),
            image_tag@,
        ],
{
    let mut args: Vec<String> = Vec::new();
    push_arg(&mut args, "run");
    push_arg(&mut args, "-d");
    push_arg(&mut args, "--name");
    push_arg_string(&mut args, String::from_str(container_name));
    push_arg(&mut args, "-p");
    push_arg_string(&mut args, publish_spec_arg(publish_host, port));
    push_arg(&mut args, "--mount");
    let mount = bind_mount(model_dir, "/models");
    proof {
        reveal_strlit(",target=");
        reveal_strlit("/models");
        reveal_strlit(",target=/models");
        assert(mount@ =~= "type=bind,source="@ + model_dir@ + ",target=/models"@);
    }
    push_arg_string(&mut args, mount);
    push_arg(&mut args, "-e");
    push_arg_string(&mut args, env_pair("SENSEVOICE_MODEL_ID=", model_id));
    push_arg(&mut args, "-e");
    push_arg(&mut args, "SENSEVOICE_MODEL_DIR=/models");
    push_arg(&mut args, "-e");
    push_arg_string(&mut args, env_pair("SENSEVOICE_DEVICE=", device));
    push_arg(&mut args, "-e");
    push_arg_string(&mut args, env_pair("SENSEVOICE_HUB=", hub));
    push_arg(&mut args, "-e");
    push_arg(&mut args, "SENSEVOICE_HOST=0.0.0.0");
    push_arg(&mut args, "-e");
    let mut digits: Vec<char> = Vec::new();
    push_dec_u64(&mut digits, port as u64);
    let port_s = chars_to_string(&digits);
    push_arg_string(&mut args, env_pair("SENSEVOICE_PORT=", port_s.as_str()));
    push_arg_string(&mut args, String::from_str(image_tag));
    args
}

/// The non-empty trimmed stream among an engine call's outputs: its stderr
/// when that has content, else its stdout.
pub open spec fn output_detail_spec(stdout: Seq<char>, stderr: Seq<char>) -> Seq<char> {
    if trim_spec(stderr).len() > 0 {
        trim_spec(stderr)
    } else {
        trim_spec(stdout)
    }
}

pub fn docker_output_detail(stdout: &str, stderr: &str) -> (r: String)
    ensures
        r@ == output_detail_spec(stdout@, stderr@),
{
    let err_t = trim_chars(&string_to_chars(stderr));
    if err_t.len() > 0 {
        chars_to_string(&err_t)
    } else {
        let out_t = trim_chars(&string_to_chars(stdout));
        chars_to_string(&out_t)
    }
}

/// Interprets `docker stop`: success, or a missing container, is fine.
pub fn interpret_stop_output(success: bool, stderr: &str) -> (r: Result<(), SenseVoiceError>)
    ensures
        success || contains_seq(stderr@, "No such container"@) <==> r is Ok,
        r is Err ==> (r->Err_0 matches SenseVoiceError::Process(m) && m@ == "停止容器失败: "@
            + trim_spec(stderr@)),
{
    if success {
        return Ok(());
    }
    let hay = string_to_chars(stderr);
    let needle = string_to_chars("No such container");
    if crate::text::contains_chars(&hay, &needle) {
        return Ok(());
    }
    let mut m = String::from_str("停止容器失败: ");
    let trimmed = trim_chars(&hay);
    let trimmed_s = chars_to_string(&trimmed);
    m.append(trimmed_s.as_str());
    Err(SenseVoiceError::Process(m))
}

/// Interprets `docker rm -f`: success, or a missing container, is fine.
pub fn interpret_rm_output(success: bool, stderr: &str) -> (r: Result<(), SenseVoiceError>)
    ensures
        success || contains_seq(stderr@, "No such container"@) <==> r is Ok,
        r is Err ==> (r->Err_0 matches SenseVoiceError::Process(m) && m@ == "移除容器失败: "@
            + trim_spec(stderr@)),
{
    if success {
        return Ok(());
    }
    let hay = string_to_chars(stderr);
    let needle = string_to_chars("No such container");
    if crate::text::contains_chars(&hay, &needle) {
        return Ok(());
    }
    let mut m = String::from_str("移除容器失败: ");
    let trimmed = trim_chars(&hay);
    let trimmed_s = chars_to_string(&trimmed);
    m.append(trimmed_s.as_str());
    Err(SenseVoiceError::Process(m))
}

/// Interprets `docker inspect -f {{.State.Running}}`: a missing container is
/// simply not running; any other failure is an error carrying the trimmed
/// stderr; on success the container runs iff the trimmed stdout is `true`.
pub fn interpret_inspect_running(success: bool, stdout: &str, stderr: &str) -> (r: Result<
    bool,
    SenseVoiceError,
>)
    ensures
        success ==> r == Result::<bool, SenseVoiceError>::Ok(trim_spec(stdout@) == "true"@),
        !success && (contains_seq(stderr@, "No such object"@) || contains_seq(
            stderr@,
            "No such container"@,
        )) ==> r == Result::<bool, SenseVoiceError>::Ok(false),
        !success && !(contains_seq(stderr@, "No such object"@) || contains_seq(
            stderr@,
            "No such container"@,
        )) ==> (r matches Result::Err(SenseVoiceError::Process(m)) && m@ == "读取容器状态失败: "@
            + trim_spec(stderr@)),
{
    if !success {
        let hay = string_to_chars(stderr);
        let no_object = string_to_chars("No such object");
        let no_container = string_to_chars("No such container");
        if crate::text::contains_chars(&hay, &no_object) || crate::text::contains_chars(
            &hay,
            &no_container,
        ) {
            return Ok(false);
        }
        let mut m = String::from_str("读取容器状态失败: ");
        let trimmed = trim_chars(&hay);
        let trimmed_s = chars_to_string(&trimmed);
        m.append(trimmed_s.as_str());
        return Err(SenseVoiceError::Process(m));
    }
    let out_t = trim_chars(&string_to_chars(stdout));
    let out_s = chars_to_string(&out_t);
    Ok(crate::model::str_eq(out_s.as_str(), "true"))
}

/// Interprets `docker run` for the default backend's container.
pub fn interpret_run_service_output(success: bool, stdout: &str, stderr: &str) -> (r: Result<
    (),
    SenseVoiceError,
>)
    ensures
        success <==> r is Ok,
        r is Err ==> (r->Err_0 matches SenseVoiceError::Process(m) && m@
            == "启动 SenseVoice 容器失败: "@ + output_detail_spec(stdout@, stderr@)),
{
    if success {
        return Ok(());
    }
    let detail = docker_output_detail(stdout, stderr);
    let mut m = String::from_str("启动 SenseVoice 容器失败: ");
    m.append(detail.as_str());
    Err(SenseVoiceError::Process(m))
}

/// The health endpoint of a service: its URL with trailing slashes removed
/// and `/health` appended.
pub open spec fn trim_end_slashes(s: Seq<char>) -> Seq<char>
    decreases s.len(),
{
    if s.len() == 0 || s.last() != '/' {
        s
    } else {
        trim_end_slashes(s.drop_last())
    }
}

fn trim_end_slashes_exec(s: &str) -> (r: Vec<char>)
    ensures
        r@ == trim_end_slashes(s@),
{
    let chars = string_to_chars(s);
    let mut end = chars.len();
    proof {
        assert(chars@.take(end as int) =~= s@);
    }
    while end > 0 && chars[end - 1] == '/'
        invariant
            end <= chars@.len(),
            chars@ == s@,
            trim_end_slashes(chars@.take(end as int)) == trim_end_slashes(s@),
        decreases end,
    {
        proof {
            assert(chars@.take(end as int).drop_last() =~= chars@.take(end - 1));
            assert(chars@.take(end as int).last() == chars@[end - 1]);
        }
        end -= 1;
    }
    let mut out: Vec<char> = Vec::new();
    let mut i: usize = 0;
    while i < end
        invariant
            i <= end <= chars@.len(),
            chars@ == s@,
            out@ == chars@.take(end as int).take(i as int),
        decreases end - i,
    {
        out.push(chars[i]);
        proof {
            assert(out@ =~= chars@.take(end as int).take(i + 1));
        }
        i += 1;
    }
    proof {
        if end > 0 {
            assert(chars@.take(end as int).last() == chars@[end - 1]);
        }
        assert(trim_end_slashes(chars@.take(end as int)) == chars@.take(end as int));
        assert(out@ =~= chars@.take(end as int));
    }
    out
}

/// `<service_url without trailing slashes>/health`.
pub fn health_url(service_url: &str) -> (r: String)
    ensures
        r@ == trim_end_slashes(service_url@) + "/health"@,
{
    let base = trim_end_slashes_exec(service_url);
    let mut out = chars_to_string(&base);
    out.append("/health");
    out
}

/// `<service_url without trailing slashes>/v1/models`: the readiness
/// fallback of the inference-server variants.
pub fn models_url(service_url: &str) -> (r: String)
    ensures
        r@ == trim_end_slashes(service_url@) + "/v1/models"@,
{
    let base = trim_end_slashes_exec(service_url);
    let mut out = chars_to_string(&base);
    out.append("/v1/models");
    out
}


/// A model identifier escaped for a single-quoted shell argument: each
/// single quote becomes a quoted backslash-quote.
pub open spec fn shell_squote_escaped(s: Seq<char>) -> Seq<char>
    decreases s.len(),
{
    if s.len() == 0 {
        Seq::empty()
    } else {
        shell_squote_escaped(s.drop_last()) + (if s.last() == '\'' {
            seq!['\'', '\\', '\'', '\'']
        } else {
            seq![s.last()]
        })
    }
}

/// Escapes a model identifier for a single-quoted shell argument.
pub fn shell_escape_single_quotes(s: &str) -> (r: Vec<char>)
    ensures
        r@ == shell_squote_escaped(s@),
{
    let chars = string_to_chars(s);
    let n = chars.len();
    let mut out: Vec<char> = Vec::new();
    let mut i: usize = 0;
    proof {
        assert(s@.take(0) =~= Seq::<char>::empty());
    }
    while i < n
        invariant
            i <= n,
            n == chars@.len(),
            chars@ == s@,
            out@ == shell_squote_escaped(s@.take(i as int)),
        decreases n - i,
    {
        proof {
            assert(s@.take(i + 1).drop_last() =~= s@.take(i as int));
            assert(s@.take(i + 1).last() == s@[i as int]);
        }
        let c = chars[i];
        if c == '\'' {
            out.push('\'');
            out.push('\\');
            out.push('\'');
            out.push('\'');
            proof {
                assert(out@ =~= shell_squote_escaped(s@.take(i + 1)));
            }
        } else {
            out.push(c);
            proof {
                assert(out@ =~= shell_squote_escaped(s@.take(i + 1)));
            }
        }
        i += 1;
    }
    proof {
        assert(s@.take(n as int) =~= s@);
    }
    out
}

/// The in-container command an inference-server variant runs: install the
/// audio extras, then serve the model on the internal port. The pull variant
/// needs its extra dependency and its attention backend.
pub open spec fn vllm_command_of(voxtral: bool, model_id: Seq<char>) -> Seq<char> {
    if voxtral {
        "pip install --no-cache-dir \"vllm[audio]\" \"mistral-common[soundfile]>=1.9.0\" && vllm serve '"@
            + shell_squote_escaped(model_id)
            + "' --attention-backend TRITON_ATTN --host 0.0.0.0 --port 8000 --enforce-eager --gpu-memory-utilization 0.8"@
    } else {
        "pip install --no-cache-dir \"vllm[audio]\" && vllm serve '"@ + shell_squote_escaped(
            model_id,
        )
            + "' --host 0.0.0.0 --port 8000 --enforce-eager --gpu-memory-utilization 0.8 --max-model-len 12288"@
    }
}

/// Builds the in-container serve command.
pub fn vllm_command(voxtral: bool, model_id: &str) -> (r: String)
    ensures
        r@ == vllm_command_of(voxtral, model_id@),
{
    let escaped = shell_escape_single_quotes(model_id);
    let escaped_s = chars_to_string(&escaped);
    if voxtral {
        let mut out = String::from_str(
            "pip install --no-cache-dir \"vllm[audio]\" \"mistral-common[soundfile]>=1.9.0\" && vllm serve '",
        );
        out.append(escaped_s.as_str());
        out.append(
            "' --attention-backend TRITON_ATTN --host 0.0.0.0 --port 8000 --enforce-eager --gpu-memory-utilization 0.8",
        );
        out
    } else {
        let mut out = String::from_str(
            "pip install --no-cache-dir \"vllm[audio]\" && vllm serve '",
        );
        out.append(escaped_s.as_str());
        out.append(
            "' --host 0.0.0.0 --port 8000 --enforce-eager --gpu-memory-utilization 0.8 --max-model-len 12288",
        );
        out
    }
}

/// The complete `docker run` argument list for an inference-server
/// container: detached, named, on the GPU runtime, publishing the host port
/// onto the internal one, with the model cache mounted as the cache
/// directory, host IPC, and a shell entry point running the serve command.
pub fn run_vllm_service_container_args(
    container_name: &str,
    image_tag: &str,
    voxtral: bool,
    publish_host: &str,
    host_port: u16,
    model_dir: &str,
    model_id: &str,
) -> (r: Vec<String>)
    ensures
        arg_views(r@) =~= seq![
            "run"@,
            "-d"@,
            "--name"@,
            container_name@,
            "--runtime"@,
            "nvidia"@,
            "--gpus"@,
            "all"@,
            "-p"@,
            publish_host@ + ":"@ + dec_chars(host_port as nat) + ":8000"@,
            "--mount"@,
            "type=bind,source="@ + model_dir@ + ",target=/root/.cache/huggingface"@,
            "--ipc=host"@,
            "--entrypoint"@,
            "/bin/bash"@,
            image_tag@,
            "-lc"@,
            vllm_command_of(voxtral, model_id@),
        ],
{
    let mut args: Vec<String> = Vec::new();
    push_arg(&mut args, "run");
    push_arg(&mut args, "-d");
    push_arg(&mut args, "--name");
    push_arg_string(&mut args, String::from_str(container_name));
    push_arg(&mut args, "--runtime");
    push_arg(&mut args, "nvidia");
    push_arg(&mut args, "--gpus");
    push_arg(&mut args, "all");
    push_arg(&mut args, "-p");
    let mut publish = String::from_str(publish_host);
    publish.append(":");
    let mut digits: Vec<char> = Vec::new();
    push_dec_u64(&mut digits, host_port as u64);
    let port_s = chars_to_string(&digits);
    publish.append(port_s.as_str());
    publish.append(":8000");
    push_arg_string(&mut args, publish);
    push_arg(&mut args, "--mount");
    let mount = bind_mount(model_dir, "/root/.cache/huggingface");
    proof {
        reveal_strlit(",target=");
        reveal_strlit("/root/.cache/huggingface");
        reveal_strlit(",target=/root/.cache/huggingface");
        assert(mount@ =~= "type=bind,source="@ + model_dir@
            + ",target=/root/.cache/huggingface"@);
    }
    push_arg_string(&mut args, mount);
    push_arg(&mut args, "--ipc=host");
    push_arg(&mut args, "--entrypoint");
    push_arg(&mut args, "/bin/bash");
    push_arg_string(&mut args, String::from_str(image_tag));
    push_arg(&mut args, "-lc");
    push_arg_string(&mut args, vllm_command(voxtral, model_id));
    args
}

/// Interprets `docker run` for an inference-server container: the failure
/// message explains the GPU requirement of the variant.
pub fn interpret_vllm_run_output(voxtral: bool, success: bool, stdout: &str, stderr: &str) -> (r:
    Result<(), SenseVoiceError>)
    ensures
        success <==> r is Ok,
        !success && voxtral ==> (r matches Err(SenseVoiceError::Process(m)) && m@
            == "启动 Voxtral 容器失败：Voxtral 仅支持 CUDA GPU，并已禁用 FlashAttention（使用 TRITON_ATTN）。容器会在启动时自动安装 mistral-common[soundfile] 依赖。请确认 NVIDIA GPU 与 Docker NVIDIA Runtime 可用。详情: "@
            + output_detail_spec(stdout@, stderr@)),
        !success && !voxtral ==> (r matches Err(SenseVoiceError::Process(m)) && m@
            == "启动 Qwen3-ASR 容器失败：Qwen3-ASR 当前通过 vLLM 在 CUDA GPU 上运行。请确认 NVIDIA GPU 与 Docker NVIDIA Runtime 可用。详情: "@
            + output_detail_spec(stdout@, stderr@)),
{
    if success {
        return Ok(());
    }
    let detail = docker_output_detail(stdout, stderr);
    let mut m = if voxtral {
        String::from_str(
            "启动 Voxtral 容器失败：Voxtral 仅支持 CUDA GPU，并已禁用 FlashAttention（使用 TRITON_ATTN）。容器会在启动时自动安装 mistral-common[soundfile] 依赖。请确认 NVIDIA GPU 与 Docker NVIDIA Runtime 可用。详情: ",
        )
    } else {
        String::from_str(
            "启动 Qwen3-ASR 容器失败：Qwen3-ASR 当前通过 vLLM 在 CUDA GPU 上运行。请确认 NVIDIA GPU 与 Docker NVIDIA Runtime 可用。详情: ",
        )
    };
    m.append(detail.as_str());
    Err(SenseVoiceError::Process(m))
}

/// The in-container health probe URLs, in order: the published port first,
/// then the internal port when they differ.
pub fn exec_health_urls(port: u16) -> (r: Vec<String>)
    ensures
        port == 8000 ==> arg_views(r@) =~= seq![
            "http://127.0.0.1:"@ + dec_chars(port as nat) + "/health"@,
        ],
        port != 8000 ==> arg_views(r@) =~= seq![
            "http://127.0.0.1:"@ + dec_chars(port as nat) + "/health"@,
            "http://127.0.0.1:8000/health"@,
        ],
{
    let mut urls: Vec<String> = Vec::new();
    let mut first = String::from_str("http://127.0.0.1:");
    let mut digits: Vec<char> = Vec::new();
    push_dec_u64(&mut digits, port as u64);
    let port_s = chars_to_string(&digits);
    first.append(port_s.as_str());
    first.append("/health");
    push_arg_string(&mut urls, first);
    if port != 8000 {
        push_arg(&mut urls, "http://127.0.0.1:8000/health");
    }
    urls
}

/// `docker exec <container> wget -qO- --timeout=2 <url>`: the in-container
/// probe tried first, since lean images carry it.
pub fn exec_wget_args(container: &str, health_url: &str) -> (r: Vec<String>)
    ensures
        arg_views(r@) =~= seq![
            "exec"@,
            container@,
            "wget"@,
            "-qO-"@,
            "--timeout=2"@,
            health_url@,
        ],
{
    let mut args: Vec<String> = Vec::new();
    push_arg(&mut args, "exec");
    push_arg_string(&mut args, String::from_str(container));
    push_arg(&mut args, "wget");
    push_arg(&mut args, "-qO-");
    push_arg(&mut args, "--timeout=2");
    push_arg_string(&mut args, String::from_str(health_url));
    args
}

/// `docker exec <container> python3 -c <probe>`: the fallback probe.
pub fn exec_python_args(container: &str, health_url: &str) -> (r: Vec<String>)
    ensures
        arg_views(r@) =~= seq![
            "exec"@,
            container@,
            "python3"@,
            "-c"@,
            "import urllib.request; r=urllib.request.urlopen('"@ + health_url@
                + "',timeout=2); print(r.read())"@,
        ],
{
    let mut args: Vec<String> = Vec::new();
    push_arg(&mut args, "exec");
    push_arg_string(&mut args, String::from_str(container));
    push_arg(&mut args, "python3");
    push_arg(&mut args, "-c");
    let mut probe = String::from_str("import urllib.request; r=urllib.request.urlopen('");
    probe.append(health_url);
    probe.append("',timeout=2); print(r.read())");
    push_arg_string(&mut args, probe);
    args
}

/// Interprets the wget probe: reachable when the call succeeded and printed
/// anything.
pub fn interpret_wget_health(success: bool, stdout: &str) -> (r: bool)
    ensures
        r == (success && (contains_seq(stdout@, "{"@) || stdout@.len() > 0)),
{
    if !success {
        return false;
    }
    let hay = string_to_chars(stdout);
    let brace = string_to_chars("{");
    crate::text::contains_chars(&hay, &brace) || hay.len() > 0
}

/// The managed container names to stop and remove: both backends share one
/// name, so one entry covers them.
pub fn managed_container_names() -> (r: Vec<String>)
    ensures
        arg_views(r@) =~= seq!["vtt-sensevoice-service"@],
{
    let mut names: Vec<String> = Vec::new();
    push_arg(&mut names, "vtt-sensevoice-service");
    names
}


/// The build and pull budget, in seconds.
pub const DOCKER_BUILD_TIMEOUT_SECS: u64 = 2400;

/// The model download budget, in seconds.
pub const MODEL_DOWNLOAD_TIMEOUT_SECS: u64 = 3600;

/// The `docker run` argument list of the model download: a throwaway
/// container with the model cache and the state directory mounted, running
/// the bundled download script against both hubs.
pub fn model_download_args(
    image_tag: &str,
    models_dir: &str,
    state_dir: &str,
    model_id: &str,
    device: &str,
) -> (r: Vec<String>)
    ensures
        arg_views(r@) =~= seq![
            "run"@,
            "--rm"@,
            "--mount"@,
            "type=bind,source="@ + models_dir@ + ",target=/models"@,
            "--mount"@,
            "type=bind,source="@ + state_dir@ + ",target=/state"@,
            image_tag@,
            "python"@,
            "prepare.py"@,
            "--model-id"@,
            model_id@,
            "--model-dir"@,
            "/models"@,
            "--device"@,
            device@,
            "--hubs"@,
            "hf,ms"@,
            "--state-path"@,
            "/state/state.json"@,
        ],
{
    let mut args: Vec<String> = Vec::new();
    push_arg(&mut args, "run");
    push_arg(&mut args, "--rm");
    push_arg(&mut args, "--mount");
    let models_mount = bind_mount(models_dir, "/models");
    proof {
        reveal_strlit(",target=");
        reveal_strlit("/models");
        reveal_strlit(",target=/models");
        assert(models_mount@ =~= "type=bind,source="@ + models_dir@ + ",target=/models"@);
    }
    push_arg_string(&mut args, models_mount);
    push_arg(&mut args, "--mount");
    let state_mount = bind_mount(state_dir, "/state");
    proof {
        reveal_strlit("/state");
        reveal_strlit(",target=/state");
        assert(state_mount@ =~= "type=bind,source="@ + state_dir@ + ",target=/state"@);
    }
    push_arg_string(&mut args, state_mount);
    push_arg_string(&mut args, String::from_str(image_tag));
    push_arg(&mut args, "python");
    push_arg(&mut args, "prepare.py");
    push_arg(&mut args, "--model-id");
    push_arg_string(&mut args, String::from_str(model_id));
    push_arg(&mut args, "--model-dir");
    push_arg(&mut args, "/models");
    push_arg(&mut args, "--device");
    push_arg_string(&mut args, String::from_str(device));
    push_arg(&mut args, "--hubs");
    push_arg(&mut args, "hf,ms");
    push_arg(&mut args, "--state-path");
    push_arg(&mut args, "/state/state.json");
    args
}

/// What a streamed engine command's supervisor does next.
#[derive(Debug, Clone, Copy, PartialEq, Eq, Structural)]
pub enum StreamDecision {
    /// The budget ran out: kill the child and fail with the timeout message.
    KillAndFail,
    /// The child finished and succeeded.
    Finished,
    /// The child finished and failed: compose the failure message.
    FinishedFailed,
    /// Keep pumping output.
    KeepReading,
}

/// One supervision step of a streamed engine command: the budget is checked
/// first, then the child's exit, else reading goes on.
pub fn stream_step(elapsed_secs: u64, budget_secs: u64, exited: Option<bool>) -> (r:
    StreamDecision)
    ensures
        elapsed_secs > budget_secs ==> r == StreamDecision::KillAndFail,
        elapsed_secs <= budget_secs && exited == Some(true) ==> r == StreamDecision::Finished,
        elapsed_secs <= budget_secs && exited == Some(false) ==> r
            == StreamDecision::FinishedFailed,
        elapsed_secs <= budget_secs && exited is None ==> r == StreamDecision::KeepReading,
{
    if elapsed_secs > budget_secs {
        StreamDecision::KillAndFail
    } else {
        match exited {
            Some(true) => StreamDecision::Finished,
            Some(false) => StreamDecision::FinishedFailed,
            None => StreamDecision::KeepReading,
        }
    }
}

/// The message of a streamed command that ran out of its budget: the step,
/// the budget in seconds, and the recent output.
pub fn stream_timeout_message(step: &str, timeout_secs: u64, tail: &Vec<String>) -> (r: String)
    ensures
        r@ == step@ + "超时（"@ + dec_chars(timeout_secs as nat) + " 秒），请检查网络或重试。最近日志: "@
            + crate::tail::join_sep(crate::tail::views_of(tail@), " || "@),
{
    let mut out = String::from_str(step);
    out.append("超时（");
    let mut digits: Vec<char> = Vec::new();
    push_dec_u64(&mut digits, timeout_secs);
    let digits_s = chars_to_string(&digits);
    out.append(digits_s.as_str());
    out.append(" 秒），请检查网络或重试。最近日志: ");
    let joined = crate::tail::join_strings(tail, " || ");
    out.append(joined.as_str());
    out
}

/// The message of a streamed command that exited unsuccessfully: the step
/// and the recent output.
pub fn stream_failure_message(step: &str, tail: &Vec<String>) -> (r: String)
    ensures
        r@ == step@ + "失败: "@ + crate::tail::join_sep(crate::tail::views_of(tail@), " || "@),
{
    let mut out = String::from_str(step);
    out.append("失败: ");
    let joined = crate::tail::join_strings(tail, " || ");
    out.append(joined.as_str());
    out
}

} // verus!
