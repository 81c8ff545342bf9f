//! The tool-facing edge of the library: turning the raw parameters of a
//! tool call into a validated invocation request, and rendering the
//! aggregated result as the textual payload the protocol layer sends
//! back.

use crate::aggregate::{view_opt, GeminiResult, ResultView};
use crate::gemini::{timeout_in_range, Options};
use crate::json::{events_to_pretty_json, pretty_events_of};
use crate::text::{append_u64, dec_digits, trim, trim_spec};
use vstd::prelude::*;
use vstd::string::StringExecFns;

verus! {

/// The raw parameters of one tool call, before validation: the task
/// text, the isolation flag, an optional session to resume, whether to
/// return every message, an optional model override, and an optional
/// timeout.
#[derive(Debug, Clone)]
pub struct GeminiArgs {
    pub prompt: String,
    pub sandbox: bool,
    pub session_id: Option<String>,
    pub return_all_messages: bool,
    pub model: Option<String>,
    pub timeout_secs: Option<u64>,
}

/// An empty session identifier in the raw parameters means a fresh
/// session.
pub open spec fn filter_session(s: Option<Seq<char>>) -> Option<Seq<char>> {
    match s {
        Some(x) => if x.len() > 0 {
            Some(x)
        } else {
            None
        },
        None => None,
    }
}

/// A blank model override in the raw parameters means no override.
pub open spec fn filter_model(m: Option<Seq<char>>) -> Option<Seq<char>> {
    match m {
        Some(x) => if trim_spec(x).len() > 0 {
            Some(x)
        } else {
            None
        },
        None => None,
    }
}

/// The raw parameters are accepted when the task text has substance,
/// any model override has substance, and any timeout is in range.
pub open spec fn args_acceptable(a: GeminiArgs) -> bool {
    &&& trim_spec(a.prompt@).len() > 0
    &&& (view_opt(a.model) matches Some(m) ==> trim_spec(m).len() > 0)
    &&& (a.timeout_secs matches Some(t) ==> timeout_in_range(t))
}

/// Validates the raw parameters of a tool call and shapes them into an
/// invocation request: rejected exactly when the task text is blank, a
/// model override is blank, or the timeout is out of range; an empty
/// session identifier and a blank model become absent ones.
pub fn prepare_options(args: GeminiArgs) -> (r: Result<Options, String>)
    ensures
        r is Ok <==> args_acceptable(args),
        r matches Ok(o) ==> ({
            &&& o.prompt@ == args.prompt@
            &&& o.sandbox == args.sandbox
            &&& o.return_all_messages == args.return_all_messages
            &&& o.timeout_secs == args.timeout_secs
            &&& view_opt(o.session_id) == filter_session(view_opt(args.session_id))
            &&& view_opt(o.model) == filter_model(view_opt(args.model))
        }),
        trim_spec(args.prompt@).len() == 0 ==> (r matches Err(m) && m@
            == "PROMPT is required and must be a non-empty, non-whitespace string"@),
        trim_spec(args.prompt@).len() > 0 && !(view_opt(args.model) matches Some(m) ==>
        trim_spec(m).len() > 0) ==> (r matches Err(e) && e@
            == "Model overrides must be explicitly requested as a non-empty, non-whitespace string"@),
        trim_spec(args.prompt@).len() > 0 && (view_opt(args.model) matches Some(m) ==>
        trim_spec(m).len() > 0) && !(args.timeout_secs matches Some(t) ==> timeout_in_range(t))
            ==> (r matches Err(e) && e@ == "timeout_secs must be between 1 and 3600 seconds"@),
{
    if trim(args.prompt.as_str()).is_empty() {
        return Err("PROMPT is required and must be a non-empty, non-whitespace string".to_owned());
    }
    if let Some(m) = &args.model {
        if trim(m.as_str()).is_empty() {
            return Err(
                "Model overrides must be explicitly requested as a non-empty, non-whitespace string".to_owned(),
            );
        }
    }
    if let Some(t) = args.timeout_secs {
        if t < crate::gemini::MIN_TIMEOUT_SECS || t > crate::gemini::MAX_TIMEOUT_SECS {
            return Err("timeout_secs must be between 1 and 3600 seconds".to_owned());
        }
    }
    let session_id = match args.session_id {
        Some(s) => if s.as_str().is_empty() {
            None
        } else {
            Some(s)
        },
        None => None,
    };
    let model = match args.model {
        Some(m) => if trim(m.as_str()).is_empty() {
            None
        } else {
            Some(m)
        },
        None => None,
    };
    Ok(
        Options {
            prompt: args.prompt,
            sandbox: args.sandbox,
            session_id,
            return_all_messages: args.return_all_messages,
            model,
            timeout_secs: args.timeout_secs,
        },
    )
}

/// The textual payload for a successful run: the session identifier and
/// assistant text, and under full capture the event count with the
/// rendered event log when serialization succeeds.
pub open spec fn success_text(rv: ResultView) -> Seq<char> {
    let base = "success: true\nSESSION_ID: "@ + rv.session_id + "\nagent_messages: "@
        + rv.agent_messages;
    if rv.return_all_messages && rv.all_messages.len() > 0 {
        let with_count = base + "\nall_messages: "@ + dec_digits(rv.all_messages.len() as int)
            + " events captured"@;
        match pretty_events_of(rv.all_messages) {
            Some(j) => with_count + "\n\nFull event log:\n"@ + j,
            None => with_count,
        }
    } else {
        base
    }
}

/// The textual payload for a failed run: the error description, and
/// under full capture the captured events for debugging.
pub open spec fn failure_text(rv: ResultView) -> Seq<char> {
    let base = match rv.error {
        Some(e) => e,
        None => "Unknown error"@,
    };
    if rv.return_all_messages && rv.all_messages.len() > 0 {
        let with_count = base + "\n\nCaptured "@ + dec_digits(rv.all_messages.len() as int)
            + " events before failure:"@;
        match pretty_events_of(rv.all_messages) {
            Some(j) => with_count + seq!['\n'] + j,
            None => with_count,
        }
    } else {
        base
    }
}

/// Renders the aggregated result as the outward payload: the success
/// flag as reported, and the exact corresponding text, event log
/// included.
pub fn render_tool_response(result: &GeminiResult) -> (r: (bool, String))
    ensures
        r.0 == result@.success,
        r.1@ == (if result@.success {
            success_text(result@)
        } else {
            failure_text(result@)
        }),
{
    if result.success {
        let mut t = "success: true\nSESSION_ID: ".to_owned();
        t.append(result.session_id.as_str());
        t.append("\nagent_messages: ");
        t.append(result.agent_messages.as_str());
        if result.return_all_messages && result.all_messages.len() > 0 {
            t.append("\nall_messages: ");
            append_u64(&mut t, result.all_messages.len() as u64);
            t.append(" events captured");
            if let Some(j) = events_to_pretty_json(&result.all_messages) {
                t.append("\n\nFull event log:\n");
                t.append(j.as_str());
            }
            proof {
                assert(t@ =~= success_text(result@));
            }
            (true, t)
        } else {
            proof {
                assert(t@ =~= success_text(result@));
            }
            (true, t)
        }
    } else {
        let mut t = match &result.error {
            Some(e) => e.clone(),
            None => "Unknown error".to_owned(),
        };
        if result.return_all_messages && result.all_messages.len() > 0 {
            t.append("\n\nCaptured ");
            append_u64(&mut t, result.all_messages.len() as u64);
            t.append(" events before failure:");
            if let Some(j) = events_to_pretty_json(&result.all_messages) {
                t.append("\n");
                t.append(j.as_str());
            }
            proof {
                reveal_strlit("\n");
                assert("\n"@ =~= seq!['\n']);
                assert(t@ =~= failure_text(result@));
            }
            (false, t)
        } else {
            proof {
                assert(t@ =~= failure_text(result@));
            }
            (false, t)
        }
    }
}

} // verus!
