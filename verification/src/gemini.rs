//! The invocation request and everything decided before the subprocess
//! is spawned: request validation, the timeout resolution chain, the
//! argument vector, the binary-name override, and the optional
//! configuration prefix for the task text.

use crate::text::{append_u64, byte_len, dec_digits, parse_u64, parse_u64_spec, trim, trim_spec};
use vstd::prelude::*;
use vstd::string::StringExecFns;

pub use crate::aggregate::enforce_required_fields;
pub use crate::aggregate::GeminiResult;
pub use crate::event::process_json_line;

verus! {

/// The smallest accepted timeout, in seconds.
pub const MIN_TIMEOUT_SECS: u64 = 1;

/// The largest accepted timeout, in seconds.
pub const MAX_TIMEOUT_SECS: u64 = 3600;

/// The timeout used when neither the request nor the environment
/// provides a valid one, in seconds.
pub const DEFAULT_TIMEOUT_SECS: u64 = 600;

/// The most bytes of configuration text prepended to a task.
pub const MAX_CONFIG_BYTES: usize = 100000;

/// One invocation request: the task text, an isolation flag, an optional
/// conversation to resume, whether to capture every event, an optional
/// model override, and an optional timeout.
#[derive(Debug, Clone)]
pub struct Options {
    pub prompt: String,
    pub sandbox: bool,
    pub session_id: Option<String>,
    pub return_all_messages: bool,
    pub model: Option<String>,
    pub timeout_secs: Option<u64>,
}

/// A timeout value lies in the accepted closed range.
pub open spec fn timeout_in_range(t: u64) -> bool {
    MIN_TIMEOUT_SECS <= t <= MAX_TIMEOUT_SECS
}

/// A request is accepted when its task text has substance and its
/// timeout, if any, is in range.
pub open spec fn options_acceptable(prompt: Seq<char>, timeout_secs: Option<u64>) -> bool {
    &&& trim_spec(prompt).len() > 0
    &&& (timeout_secs matches Some(t) ==> timeout_in_range(t))
}

/// Rejects a request whose task text is blank or whose timeout lies
/// outside the accepted range, before any process is spawned; accepts
/// every other request.
pub fn validate_options(opts: &Options) -> (r: Result<(), String>)
    ensures
        r is Ok <==> options_acceptable(opts.prompt@, opts.timeout_secs),
        trim_spec(opts.prompt@).len() == 0 ==> (r matches Err(m) && m@
            == "Prompt must be a non-empty, non-whitespace string"@),
        trim_spec(opts.prompt@).len() > 0 && !(opts.timeout_secs matches Some(t) ==>
        timeout_in_range(t)) ==> (r matches Err(m) && m@
            == "timeout_secs must be between 1 and 3600 seconds"@),
{
    let t = trim(opts.prompt.as_str());
    if t.is_empty() {
        return Err("Prompt must be a non-empty, non-whitespace string".to_owned());
    }
    if let Some(secs) = opts.timeout_secs {
        if secs < MIN_TIMEOUT_SECS || secs > MAX_TIMEOUT_SECS {
            return Err("timeout_secs must be between 1 and 3600 seconds".to_owned());
        }
    }
    Ok(())
}

/// The process-wide default timeout derived from an environment
/// override: the override counts only when it trims and parses as a
/// decimal number in the accepted range; anything else falls back to the
/// hardcoded default, never an error.
pub open spec fn default_timeout_spec(env: Option<Seq<char>>) -> u64 {
    match env {
        Some(v) => match parse_u64_spec(trim_spec(v)) {
            Some(t) => if timeout_in_range(t) {
                t
            } else {
                DEFAULT_TIMEOUT_SECS
            },
            None => DEFAULT_TIMEOUT_SECS,
        },
        None => DEFAULT_TIMEOUT_SECS,
    }
}

/// Resolves the default timeout from the environment override's value,
/// exact with respect to [`default_timeout_spec`].
pub fn get_default_timeout(env_value: Option<&str>) -> (r: u64)
    ensures
        env_value matches Some(v) ==> r == default_timeout_spec(Some(v@)),
        env_value is None ==> r == DEFAULT_TIMEOUT_SECS,
{
    match env_value {
        Some(v) => match parse_u64(trim(v)) {
            Some(t) => if MIN_TIMEOUT_SECS <= t && t <= MAX_TIMEOUT_SECS {
                t
            } else {
                DEFAULT_TIMEOUT_SECS
            },
            None => DEFAULT_TIMEOUT_SECS,
        },
        None => DEFAULT_TIMEOUT_SECS,
    }
}

/// The wall-clock budget for a run: the request's timeout when present,
/// else the environment-derived default.
pub fn resolve_timeout(timeout_secs: Option<u64>, env_value: Option<&str>) -> (r: u64)
    ensures
        timeout_secs matches Some(t) ==> r == t,
        timeout_secs is None ==> (env_value matches Some(v) ==> r == default_timeout_spec(
            Some(v@),
        )),
        timeout_secs is None && env_value is None ==> r == DEFAULT_TIMEOUT_SECS,
{
    match timeout_secs {
        Some(t) => t,
        None => get_default_timeout(env_value),
    }
}

/// The argument vector handed to the subprocess: the task text as one
/// argument, the line-delimited JSON output selector, and the optional
/// isolation, model and resume arguments.
pub open spec fn build_args_view(
    prompt: Seq<char>,
    sandbox: bool,
    model: Option<Seq<char>>,
    session_id: Option<Seq<char>>,
) -> Seq<Seq<char>> {
    let base = seq!["--prompt"@, prompt, "-o"@, "stream-json"@];
    let with_sandbox = if sandbox {
        base.push("--sandbox"@)
    } else {
        base
    };
    let with_model = match model {
        Some(m) => with_sandbox.push("--model"@).push(m),
        None => with_sandbox,
    };
    match session_id {
        Some(s) => with_model.push("--resume"@).push(s),
        None => with_model,
    }
}

/// Builds the subprocess argument vector, exact with respect to
/// [`build_args_view`]; the task text is passed as a single argument,
/// with no shell quoting performed or needed.
pub fn build_args(opts: &Options) -> (r: Vec<String>)
    ensures
        r.deep_view() == build_args_view(
            opts.prompt@,
            opts.sandbox,
            crate::aggregate::view_opt(opts.model),
            crate::aggregate::view_opt(opts.session_id),
        ),
{
    let mut args: Vec<String> = Vec::new();
    args.push("--prompt".to_owned());
    args.push(opts.prompt.clone());
    args.push("-o".to_owned());
    args.push("stream-json".to_owned());
    if opts.sandbox {
        args.push("--sandbox".to_owned());
    }
    if let Some(m) = &opts.model {
        args.push("--model".to_owned());
        args.push(m.clone());
    }
    if let Some(s) = &opts.session_id {
        args.push("--resume".to_owned());
        args.push(s.clone());
    }
    proof {
        assert(args.deep_view() =~= build_args_view(
            opts.prompt@,
            opts.sandbox,
            crate::aggregate::view_opt(opts.model),
            crate::aggregate::view_opt(opts.session_id),
        ));
    }
    args
}

/// The subprocess binary name: the environment override when set, else
/// the fixed default.
pub fn resolve_binary(env_value: Option<String>) -> (r: String)
    ensures
        env_value matches Some(v) ==> r@ == v@,
        env_value is None ==> r@ == "gemini"@,
{
    match env_value {
        Some(v) => v,
        None => "gemini".to_owned(),
    }
}

/// The failure message reported when the deadline expires.
pub fn timeout_error_message(secs: u64) -> (r: String)
    ensures
        r@ == "Gemini command timed out after "@ + dec_digits(secs as int) + " seconds"@,
{
    let mut b = "Gemini command timed out after ".to_owned();
    append_u64(&mut b, secs);
    b.append(" seconds");
    b
}

/// The task text with optional configuration text prepended: blank,
/// absent or oversized configuration is treated as no prefix; otherwise
/// the configuration stands ahead of the task, newline-separated.
pub open spec fn prefixed_prompt(config: Option<Seq<char>>, prompt: Seq<char>) -> Seq<char> {
    match config {
        Some(c) => if trim_spec(c).len() == 0 || byte_len(c) > MAX_CONFIG_BYTES {
            prompt
        } else {
            c + seq!['\n'] + prompt
        },
        None => prompt,
    }
}

/// Applies the optional configuration prefix to the task text, exact
/// with respect to [`prefixed_prompt`].
pub fn apply_prompt_prefix(config: Option<String>, prompt: String) -> (r: String)
    ensures
        r@ == prefixed_prompt(crate::aggregate::view_opt(config), prompt@),
{
    match config {
        Some(c) => {
            let cb = c.as_str().as_bytes().len();
            if cb > MAX_CONFIG_BYTES {
                return prompt;
            }
            let t = trim(c.as_str());
            if t.is_empty() {
                return prompt;
            }
            let mut r = c;
            r.append("\n");
            r.append(prompt.as_str());
            proof {
                reveal_strlit("\n");
                assert("\n"@ =~= seq!['\n']);
                assert(r@ =~= prefixed_prompt(
                    crate::aggregate::view_opt(config),
                    prompt@,
                ));
            }
            r
        },
        None => prompt,
    }
}

} // verus!
