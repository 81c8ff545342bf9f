//! The event interpreter: one decoded JSON event at a time is folded into
//! the aggregated result.
//!
//! The interpretation rules are modelled by the spec function
//! [`apply_view`], and the executable step [`apply_event`] is verified
//! exact against it.  The fields an event carries are extracted from the
//! opaque decoded value at the trusted boundary and handed in as plain
//! strings, so the rules themselves are verified for every possible
//! combination of fields.

use crate::aggregate::{view_opt, GeminiResult, ResultView};
use crate::json::{json_error_object_message, json_has_key, json_str_key};
use crate::text::{contains_ci, contains_ci_str, join_nl, str_eq};
use serde_json::Value;
use vstd::prelude::*;
use vstd::string::StringExecFns;

verus! {

/// The most raw events retained when full capture is requested.
pub const MAX_MESSAGES_LIMIT: usize = 10000;

/// The notice line that the wrapped tool prints about its own
/// command-line flag; it is noise, not assistant output.
pub open spec fn deprecation_notice() -> Seq<char> {
    "The --prompt (-p) flag has been deprecated"@
}

/// The semantically interpreted fields of one decoded event: the few
/// top-level keys the protocol reads, each absent when the event does not
/// carry it as a string.
pub struct EventSummary {
    pub session_id: Option<String>,
    pub kind: Option<String>,
    pub role: Option<String>,
    pub content: Option<String>,
    pub has_error_key: bool,
    pub error_message: Option<String>,
    pub top_message: Option<String>,
}

/// The mathematical model of an [`EventSummary`].
#[verifier::ext_equal]
pub struct EventView {
    pub session_id: Option<Seq<char>>,
    pub kind: Option<Seq<char>>,
    pub role: Option<Seq<char>>,
    pub content: Option<Seq<char>>,
    pub has_error_key: bool,
    pub error_message: Option<Seq<char>>,
    pub top_message: Option<Seq<char>>,
}

impl View for EventSummary {
    type V = EventView;

    open spec fn view(&self) -> EventView {
        EventView {
            session_id: view_opt(self.session_id),
            kind: view_opt(self.kind),
            role: view_opt(self.role),
            content: view_opt(self.content),
            has_error_key: self.has_error_key,
            error_message: view_opt(self.error_message),
            top_message: view_opt(self.top_message),
        }
    }
}

/// The interpreted fields of a decoded value, stated over the names of
/// the trusted extraction calls: what each wrapper in the JSON boundary
/// returns for this value.
pub open spec fn summary_of(v: Value) -> EventView {
    EventView {
        session_id: crate::json::str_key_of(v, "session_id"@),
        kind: crate::json::str_key_of(v, "type"@),
        role: crate::json::str_key_of(v, "role"@),
        content: crate::json::str_key_of(v, "content"@),
        has_error_key: crate::json::has_key_of(v, "error"@),
        error_message: crate::json::error_object_message_of(v, "error"@, "message"@),
        top_message: crate::json::str_key_of(v, "message"@),
    }
}

/// Rule one: when full capture is requested and the capture list is
/// below its cap, the raw event is appended.
pub open spec fn capture_step(s: ResultView, raw: Value, capture: bool) -> ResultView {
    if capture && s.all_messages.len() < MAX_MESSAGES_LIMIT {
        ResultView { all_messages: s.all_messages.push(raw), ..s }
    } else {
        s
    }
}

/// Rule two: a non-empty session identifier overwrites the stored one;
/// last write wins, and an empty or missing one never clears it.
pub open spec fn session_step(s: ResultView, e: EventView) -> ResultView {
    match e.session_id {
        Some(sid) => if sid.len() > 0 {
            ResultView { session_id: sid, ..s }
        } else {
            s
        },
        None => s,
    }
}

/// The event is an assistant-authored message.
pub open spec fn is_assistant_message(e: EventView) -> bool {
    e.kind == Some("message"@) && e.role == Some("assistant"@)
}

/// The content that rule three appends for this event, if any: assistant
/// messages with non-empty content, the deprecation notice excepted.
pub open spec fn appended_content(e: EventView) -> Option<Seq<char>> {
    match e.content {
        Some(c) => if is_assistant_message(e) && c != deprecation_notice() && c.len() > 0 {
            Some(c)
        } else {
            None
        },
        None => None,
    }
}

/// Rule three: appended content joins the accumulator, preceded by a
/// newline unless it is the first.
pub open spec fn content_step(s: ResultView, e: EventView) -> ResultView {
    match appended_content(e) {
        Some(c) => ResultView {
            agent_messages: if s.agent_messages.len() == 0 {
                c
            } else {
                s.agent_messages + seq!['\n'] + c
            },
            ..s
        },
        None => s,
    }
}

/// The discriminator marks an error: it contains `fail` or `error`,
/// case-insensitively.
pub open spec fn kind_marks_error(e: EventView) -> bool {
    match e.kind {
        Some(k) => contains_ci(k, "fail"@) || contains_ci(k, "error"@),
        None => false,
    }
}

/// Rule four's trigger: an error-marking discriminator, or an explicit
/// error key.
pub open spec fn flags_error(e: EventView) -> bool {
    kind_marks_error(e) || e.has_error_key
}

/// The error description an event yields, when one is extractable: the
/// message inside an error object when that path exists, else a
/// top-level message, each prefixed to name the subprocess as its
/// source.
pub open spec fn error_text_of(e: EventView) -> Option<Seq<char>> {
    match e.error_message {
        Some(m) => Some("gemini error: "@ + m),
        None => match e.top_message {
            Some(m) => Some("gemini error: "@ + m),
            None => None,
        },
    }
}

/// Rule four: an error-flagging event marks the result failed, and sets
/// the error description when one is extractable; a bare detection never
/// erases an earlier description.
pub open spec fn error_step(s: ResultView, e: EventView) -> ResultView {
    if flags_error(e) {
        match error_text_of(e) {
            Some(t) => ResultView { success: false, error: Some(t), ..s },
            None => ResultView { success: false, ..s },
        }
    } else {
        s
    }
}

/// One full interpreter step: the four rules in order.  A
/// deprecation-notice event contributes no content, but every other rule
/// still applies to it.
pub open spec fn apply_view(s: ResultView, e: EventView, raw: Value, capture: bool) -> ResultView {
    error_step(content_step(session_step(capture_step(s, raw, capture), e), e), e)
}

/// The executable interpreter step, exact with respect to
/// [`apply_view`].
pub fn apply_event(result: &mut GeminiResult, ev: &EventSummary, raw: Value, capture: bool)
    ensures
        final(result)@ == apply_view(old(result)@, ev@, raw, capture),
{
    let ghost v0 = old(result)@;
    if capture && result.all_messages.len() < MAX_MESSAGES_LIMIT {
        result.all_messages.push(raw);
    }
    proof {
        assert(result@ =~= capture_step(v0, raw, capture));
    }
    let ghost v1 = capture_step(v0, raw, capture);
    if let Some(sid) = &ev.session_id {
        if !sid.as_str().is_empty() {
            result.session_id = sid.clone();
        }
    }
    proof {
        assert(result@ =~= session_step(v1, ev@));
    }
    let ghost v2 = session_step(v1, ev@);
    let is_assistant = match (&ev.kind, &ev.role) {
        (Some(k), Some(r)) => str_eq(k.as_str(), "message") && str_eq(r.as_str(), "assistant"),
        _ => false,
    };
    proof {
        assert(is_assistant == is_assistant_message(ev@));
    }
    if is_assistant {
        if let Some(c) = &ev.content {
            if !str_eq(c.as_str(), "The --prompt (-p) flag has been deprecated")
                && !c.as_str().is_empty() {
                if !result.agent_messages.as_str().is_empty() {
                    result.agent_messages.append("\n");
                    proof {
                        reveal_strlit("\n");
                    }
                }
                result.agent_messages.append(c.as_str());
                proof {
                    assert(appended_content(ev@) == Some(c@));
                    if v2.agent_messages.len() == 0 {
                        assert(result.agent_messages@ =~= c@);
                    } else {
                        assert(result.agent_messages@ =~= v2.agent_messages + seq!['\n'] + c@);
                    }
                }
            }
        }
    }
    proof {
        assert(result@ =~= content_step(v2, ev@));
    }
    let ghost v3 = content_step(v2, ev@);
    let marks = match &ev.kind {
        Some(k) => contains_ci_str(k.as_str(), "fail") || contains_ci_str(k.as_str(), "error"),
        None => false,
    };
    proof {
        assert(marks == kind_marks_error(ev@));
    }
    if marks || ev.has_error_key {
        result.success = false;
        if let Some(m) = &ev.error_message {
            let mut t = "gemini error: ".to_owned();
            t.append(m.as_str());
            result.error = Some(t);
        } else if let Some(m) = &ev.top_message {
            let mut t = "gemini error: ".to_owned();
            t.append(m.as_str());
            result.error = Some(t);
        }
    }
    proof {
        assert(result@ =~= error_step(v3, ev@));
        assert(result@ =~= apply_view(v0, ev@, raw, capture));
    }
}

/// An event without the assistant-message markers never changes the
/// assistant-text accumulator.
pub proof fn lemma_non_assistant_leaves_text(
    s: ResultView,
    e: EventView,
    raw: Value,
    capture: bool,
)
    requires
        !is_assistant_message(e),
    ensures
        apply_view(s, e, raw, capture).agent_messages == s.agent_messages,
{
}

/// Folding a whole sequence of events into a result, one interpreter
/// step at a time.
pub open spec fn apply_all(s: ResultView, evs: Seq<(EventView, Value)>, capture: bool) -> ResultView
    decreases evs.len(),
{
    if evs.len() == 0 {
        s
    } else {
        apply_view(apply_all(s, evs.drop_last(), capture), evs.last().0, evs.last().1, capture)
    }
}

/// The contents that rule three appends over a sequence of events, in
/// arrival order.
pub open spec fn appended_contents(evs: Seq<(EventView, Value)>) -> Seq<Seq<char>>
    decreases evs.len(),
{
    if evs.len() == 0 {
        Seq::empty()
    } else {
        match appended_content(evs.last().0) {
            Some(c) => appended_contents(evs.drop_last()).push(c),
            None => appended_contents(evs.drop_last()),
        }
    }
}

proof fn lemma_appended_contents_nonempty(evs: Seq<(EventView, Value)>)
    ensures
        forall|i: int|
            0 <= i < appended_contents(evs).len() ==> #[trigger] appended_contents(evs)[i].len()
                > 0,
    decreases evs.len(),
{
    if evs.len() > 0 {
        lemma_appended_contents_nonempty(evs.drop_last());
        let pre = appended_contents(evs.drop_last());
        match appended_content(evs.last().0) {
            Some(c) => {
                assert(c.len() > 0);
                assert forall|i: int| 0 <= i < pre.push(c).len() implies #[trigger] pre.push(
                    c,
                )[i].len() > 0 by {
                    if i < pre.len() {
                        assert(pre.push(c)[i] == pre[i]);
                    } else {
                        assert(pre.push(c)[i] == c);
                    }
                }
            },
            None => {},
        }
    }
}

proof fn lemma_raws_of_len(evs: Seq<(EventView, Value)>)
    ensures
        raws_of(evs).len() == evs.len(),
    decreases evs.len(),
{
    if evs.len() > 0 {
        lemma_raws_of_len(evs.drop_last());
    }
}

proof fn lemma_join_nl_nonempty(cs: Seq<Seq<char>>)
    requires
        cs.len() > 0,
        forall|i: int| 0 <= i < cs.len() ==> #[trigger] cs[i].len() > 0,
    ensures
        join_nl(cs).len() > 0,
    decreases cs.len(),
{
    if cs.len() > 1 {
        lemma_join_nl_nonempty(cs.drop_last());
    }
}

/// Starting from an empty accumulator, applying any sequence of events
/// leaves the assistant text equal to the appended contents joined with
/// newlines, in arrival order, whatever other events are interleaved.
pub proof fn lemma_messages_newline_joined(
    s: ResultView,
    evs: Seq<(EventView, Value)>,
    capture: bool,
)
    requires
        s.agent_messages.len() == 0,
    ensures
        apply_all(s, evs, capture).agent_messages == join_nl(appended_contents(evs)),
    decreases evs.len(),
{
    if evs.len() == 0 {
        assert(appended_contents(evs) =~= Seq::<Seq<char>>::empty());
    } else {
        let prefix = evs.drop_last();
        let e = evs.last().0;
        let raw = evs.last().1;
        lemma_messages_newline_joined(s, prefix, capture);
        let acc = apply_all(s, prefix, capture);
        let cs = appended_contents(prefix);
        match appended_content(e) {
            Some(c) => {
                lemma_appended_contents_nonempty(prefix);
                if cs.len() == 0 {
                    assert(acc.agent_messages.len() == 0);
                    assert(join_nl(cs.push(c)) == c);
                } else {
                    lemma_join_nl_nonempty(cs);
                    assert(acc.agent_messages.len() > 0);
                    assert(cs.push(c).drop_last() =~= cs);
                    assert(join_nl(cs.push(c)) == join_nl(cs) + seq!['\n'] + c);
                }
            },
            None => {
                assert(content_step(session_step(capture_step(acc, raw, capture), e), e)
                    .agent_messages == acc.agent_messages);
            },
        }
    }
}

/// A session identifier, once set to a non-empty value, is only ever
/// replaced by another non-empty value: one interpreter step either
/// keeps it or installs the event's non-empty identifier.
pub proof fn lemma_session_last_write_wins(
    s: ResultView,
    e: EventView,
    raw: Value,
    capture: bool,
)
    ensures
        apply_view(s, e, raw, capture).session_id == s.session_id || (e.session_id matches Some(
            sid,
        ) && sid.len() > 0 && apply_view(s, e, raw, capture).session_id == sid),
        s.session_id.len() > 0 ==> apply_view(s, e, raw, capture).session_id.len() > 0,
{
}

/// The raw values of a sequence of events, in arrival order.
pub open spec fn raws_of(evs: Seq<(EventView, Value)>) -> Seq<Value>
    decreases evs.len(),
{
    if evs.len() == 0 {
        Seq::empty()
    } else {
        raws_of(evs.drop_last()).push(evs.last().1)
    }
}

/// Under full capture, starting from an empty capture list, exactly the
/// first `MAX_MESSAGES_LIMIT` raw events are retained, in arrival order.
pub proof fn lemma_capture_cap_exact(s: ResultView, evs: Seq<(EventView, Value)>)
    requires
        s.all_messages.len() == 0,
    ensures
        apply_all(s, evs, true).all_messages == raws_of(evs).take(
            if evs.len() <= MAX_MESSAGES_LIMIT {
                evs.len() as int
            } else {
                MAX_MESSAGES_LIMIT as int
            },
        ),
        apply_all(s, evs, true).all_messages.len() <= MAX_MESSAGES_LIMIT,
    decreases evs.len(),
{
    if evs.len() == 0 {
        assert(raws_of(evs).take(0) =~= Seq::<Value>::empty());
    } else {
        let prefix = evs.drop_last();
        lemma_capture_cap_exact(s, prefix);
        lemma_raws_of_len(evs);
        lemma_raws_of_len(prefix);
        let acc = apply_all(s, prefix, true);
        let raw = evs.last().1;
        assert(raws_of(evs).drop_last() =~= raws_of(prefix));
        if acc.all_messages.len() < MAX_MESSAGES_LIMIT {
            assert(apply_all(s, evs, true).all_messages == acc.all_messages.push(raw));
            assert(acc.all_messages.push(raw) =~= raws_of(evs).take(
                if evs.len() <= MAX_MESSAGES_LIMIT {
                    evs.len() as int
                } else {
                    MAX_MESSAGES_LIMIT as int
                },
            ));
        } else {
            assert(apply_all(s, evs, true).all_messages == acc.all_messages);
            assert(raws_of(prefix).take(MAX_MESSAGES_LIMIT as int) =~= raws_of(evs).take(
                MAX_MESSAGES_LIMIT as int,
            ));
        }
    }
}

/// Once the success flag is false, no interpreter step brings it back.
pub proof fn lemma_success_monotone(s: ResultView, e: EventView, raw: Value, capture: bool)
    ensures
        !s.success ==> !apply_view(s, e, raw, capture).success,
{
}

/// Both accumulators are append-only: every interpreter step leaves the
/// old assistant text and the old capture list as prefixes of the new
/// ones.
pub proof fn lemma_result_append_only(s: ResultView, e: EventView, raw: Value, capture: bool)
    ensures
        s.agent_messages.is_prefix_of(apply_view(s, e, raw, capture).agent_messages),
        s.all_messages.is_prefix_of(apply_view(s, e, raw, capture).all_messages),
{
    let s1 = apply_view(s, e, raw, capture);
    assert(s.agent_messages =~= s1.agent_messages.subrange(0, s.agent_messages.len() as int));
    assert(s.all_messages =~= s1.all_messages.subrange(0, s.all_messages.len() as int));
}

/// Among error-bearing events, the last one with an extractable message
/// wins; a bare detection without one flips the flag but keeps the
/// earlier description, and an event without error markers changes
/// nothing.
pub proof fn lemma_error_last_extractable_wins(
    s: ResultView,
    e: EventView,
    raw: Value,
    capture: bool,
)
    ensures
        flags_error(e) ==> (error_text_of(e) matches Some(t) ==> apply_view(
            s,
            e,
            raw,
            capture,
        ).error == Some(t)),
        flags_error(e) && error_text_of(e) is None ==> apply_view(s, e, raw, capture).error
            == s.error,
        !flags_error(e) ==> apply_view(s, e, raw, capture).error == s.error,
{
}

/// Extracts the interpreted fields of one decoded event at the trusted
/// boundary, exact with respect to [`summary_of`].
fn summarize_event(v: &Value) -> (s: EventSummary)
    ensures
        s@ == summary_of(*v),
{
    let s = EventSummary {
        session_id: json_str_key(v, "session_id"),
        kind: json_str_key(v, "type"),
        role: json_str_key(v, "role"),
        content: json_str_key(v, "content"),
        has_error_key: json_has_key(v, "error"),
        error_message: json_error_object_message(v, "error", "message"),
        top_message: json_str_key(v, "message"),
    };
    proof {
        assert(s@ =~= summary_of(*v));
    }
    s
}

/// Interprets one decoded event: extracts its fields, then folds them
/// into the result by exactly one [`apply_view`] step on the event's
/// extracted summary and raw value.
pub fn process_json_line(line_data: &Value, result: &mut GeminiResult, return_all_messages: bool)
    ensures
        final(result)@ == apply_view(
            old(result)@,
            summary_of(*line_data),
            *line_data,
            return_all_messages,
        ),
{
    let summary = summarize_event(line_data);
    let raw = line_data.clone();
    apply_event(result, &summary, raw, return_all_messages);
}

} // verus!
