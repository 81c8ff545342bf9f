//! The aggregated result of one subprocess run, the supervisor state that
//! builds it while the two output streams drain, and the final validation
//! gate.

use crate::event::{apply_view, process_json_line, summary_of};
use crate::json::{decode_json_line, decoded_of, parses_as_json};
use crate::text::{
    append_u64, byte_len, char_utf8_width, char_width, dec_digits, join_lines, join_nl,
    lemma_byte_len_concat, lemma_byte_len_one, trim, trim_spec,
};
use serde_json::Value;
use vstd::prelude::*;
use vstd::string::{StrSliceExecFns, StringExecFns};

verus! {

/// The most non-JSON stdout lines retained for diagnostics.
pub const MAX_NON_JSON_LINES: usize = 1000;

/// The most bytes of stderr text retained for diagnostics.
pub const MAX_STDERR_BYTES: usize = 100000;

/// The cumulative outcome of one run: a success flag, the last non-empty
/// session identifier observed, the newline-joined assistant text, the
/// captured raw events (when full capture was requested), and an optional
/// error description.
pub struct GeminiResult {
    pub success: bool,
    pub session_id: String,
    pub agent_messages: String,
    pub all_messages: Vec<Value>,
    pub return_all_messages: bool,
    pub error: Option<String>,
}

/// The mathematical model of a [`GeminiResult`].
#[verifier::ext_equal]
pub struct ResultView {
    pub success: bool,
    pub session_id: Seq<char>,
    pub agent_messages: Seq<char>,
    pub all_messages: Seq<Value>,
    pub return_all_messages: bool,
    pub error: Option<Seq<char>>,
}

/// The view of an optional owned string.
pub open spec fn view_opt(o: Option<String>) -> Option<Seq<char>> {
    match o {
        Some(s) => Some(s@),
        None => None,
    }
}

impl View for GeminiResult {
    type V = ResultView;

    open spec fn view(&self) -> ResultView {
        ResultView {
            success: self.success,
            session_id: self.session_id@,
            agent_messages: self.agent_messages@,
            all_messages: self.all_messages@,
            return_all_messages: self.return_all_messages,
            error: view_opt(self.error),
        }
    }
}

/// The model of the empty result a run starts from: success until proven
/// otherwise, with every accumulator empty.
pub open spec fn initial_result_view(return_all_messages: bool) -> ResultView {
    ResultView {
        success: true,
        session_id: Seq::<char>::empty(),
        agent_messages: Seq::<char>::empty(),
        all_messages: Seq::<Value>::empty(),
        return_all_messages: return_all_messages,
        error: None::<Seq<char>>,
    }
}

impl GeminiResult {
    /// The empty result that a run starts from.
    pub fn new(return_all_messages: bool) -> (r: GeminiResult)
        ensures
            r@ == initial_result_view(return_all_messages),
    {
        let r = GeminiResult {
            success: true,
            session_id: String::new(),
            agent_messages: String::new(),
            all_messages: Vec::new(),
            return_all_messages,
            error: None,
        };
        proof {
            assert(r@ =~= initial_result_view(return_all_messages));
        }
        r
    }
}

/// The required-field errors the final gate appends: a session
/// identifier must have been observed, and some output must have been
/// extracted.
pub open spec fn missing_field_errors(r: ResultView) -> Seq<Seq<char>> {
    let e1: Seq<Seq<char>> = if r.session_id.len() == 0 {
        seq!["Failed to get `SESSION_ID` from the gemini session."@]
    } else {
        Seq::empty()
    };
    let e2: Seq<Seq<char>> = if r.agent_messages.len() == 0 && !r.return_all_messages {
        seq![
            "Failed to get `agent_messages` from the gemini session.\nYou can try to set `return_all_messages` to `True` to get the full information."@,
        ]
    } else if r.agent_messages.len() == 0 && r.return_all_messages && r.all_messages.len() == 0 {
        seq!["Failed to get any messages from the gemini session."@]
    } else {
        Seq::empty()
    };
    e1 + e2
}

/// The final validation gate: missing required fields force failure and
/// append their descriptions after any error text already present; an
/// already-present empty description counts as absent.
pub open spec fn enforce_view(r: ResultView) -> ResultView {
    let errs = missing_field_errors(r);
    if errs.len() > 0 {
        let appended = join_nl(errs);
        let prev = match r.error {
            Some(p) => if p.len() > 0 {
                Some(p)
            } else {
                None
            },
            None => None,
        };
        ResultView {
            success: false,
            error: Some(
                match prev {
                    Some(p) => p + seq!['\n'] + appended,
                    None => appended,
                },
            ),
            ..r
        }
    } else {
        r
    }
}

/// Enforces the minimum-viable-result invariants, exact with respect to
/// [`enforce_view`]: a result without a session identifier, or without
/// any extracted output, is marked failed with a description of what is
/// missing.
pub fn enforce_required_fields(result: GeminiResult) -> (r: GeminiResult)
    ensures
        r@ == enforce_view(result@),
{
    let ghost r0 = result@;
    let mut result = result;
    let mut errors: Vec<String> = Vec::new();
    if result.session_id.as_str().is_empty() {
        errors.push("Failed to get `SESSION_ID` from the gemini session.".to_owned());
    }
    if result.agent_messages.as_str().is_empty() && !result.return_all_messages {
        errors.push(
            "Failed to get `agent_messages` from the gemini session.\nYou can try to set `return_all_messages` to `True` to get the full information.".to_owned(),
        );
    } else if result.agent_messages.as_str().is_empty() && result.return_all_messages
        && result.all_messages.len() == 0 {
        errors.push("Failed to get any messages from the gemini session.".to_owned());
    }
    proof {
        assert(errors.deep_view() =~= missing_field_errors(r0));
    }
    if errors.len() > 0 {
        result.success = false;
        let appended = join_lines(&errors);
        let prev_opt = result.error;
        let combined = match prev_opt {
            Some(p) => if !p.as_str().is_empty() {
                let mut t = p;
                t.append("\n");
                t.append(appended.as_str());
                proof {
                    reveal_strlit("\n");
                }
                t
            } else {
                appended
            },
            None => appended,
        };
        result.error = Some(combined);
        proof {
            assert(result@ =~= enforce_view(r0));
        }
    }
    result
}

/// The mathematical model of the supervisor state while the two streams
/// drain.
#[verifier::ext_equal]
pub struct AggView {
    pub result: ResultView,
    pub stderr_output: Seq<char>,
    pub stderr_truncated: bool,
    pub non_json_lines: Seq<Seq<char>>,
    pub valid_json_seen: bool,
}

/// The supervisor state of one run: the result under construction, the
/// capped stderr text, the capped non-JSON diagnostic lines, and whether
/// any stdout line decoded as JSON.
pub struct Aggregator {
    pub result: GeminiResult,
    pub stderr_output: String,
    pub stderr_len: usize,
    pub stderr_truncated: bool,
    pub non_json_lines: Vec<String>,
    pub valid_json_seen: bool,
}

impl View for Aggregator {
    type V = AggView;

    open spec fn view(&self) -> AggView {
        AggView {
            result: self.result@,
            stderr_output: self.stderr_output@,
            stderr_truncated: self.stderr_truncated,
            non_json_lines: self.non_json_lines.deep_view(),
            valid_json_seen: self.valid_json_seen,
        }
    }
}

/// A non-JSON stdout line joins the diagnostic list while it is below
/// its cap; the rest of the state is untouched.
pub open spec fn note_non_json(a: AggView, line: Seq<char>) -> AggView {
    if a.non_json_lines.len() < MAX_NON_JSON_LINES {
        AggView { non_json_lines: a.non_json_lines.push(line), ..a }
    } else {
        a
    }
}

/// A decodable stdout line marks structured output as seen and folds
/// the decoded event into the result by one interpreter step.
pub open spec fn json_line_step(a: AggView, t: Seq<char>) -> AggView {
    AggView {
        result: apply_view(
            a.result,
            summary_of(decoded_of(t)),
            decoded_of(t),
            a.result.return_all_messages,
        ),
        valid_json_seen: true,
        ..a
    }
}

/// One stdout line, whole: blank lines are skipped, decodable lines are
/// interpreted, and everything else is retained as a capped diagnostic.
pub open spec fn stdout_step(a: AggView, line: Seq<char>) -> AggView {
    let t = trim_spec(line);
    if t.len() == 0 {
        a
    } else if parses_as_json(t) {
        json_line_step(a, t)
    } else {
        note_non_json(a, t)
    }
}

/// The greatest count of leading characters of `line` whose UTF-8
/// encodings fit together in `budget` bytes.
pub open spec fn fit_prefix(line: Seq<char>, i: int, budget: int) -> int
    decreases line.len() - i,
{
    if i < 0 || i >= line.len() {
        i
    } else if char_width(line[i]) > budget {
        i
    } else {
        fit_prefix(line, i + 1, budget - char_width(line[i]))
    }
}

/// One stderr line joins the capped buffer: whole if it fits below the
/// byte cap, else its largest fitting prefix followed by a single
/// truncation marker, after which nothing more is accumulated.
pub open spec fn stderr_step(a: AggView, line: Seq<char>) -> AggView {
    if byte_len(a.stderr_output) < MAX_STDERR_BYTES && !a.stderr_truncated {
        let s1 = if a.stderr_output.len() > 0 {
            a.stderr_output + seq!['\n']
        } else {
            a.stderr_output
        };
        let rem = MAX_STDERR_BYTES - byte_len(s1);
        if byte_len(line) <= rem {
            AggView { stderr_output: s1 + line, ..a }
        } else {
            AggView {
                stderr_output: s1 + line.take(fit_prefix(line, 0, rem))
                    + "\n... (stderr truncated)"@,
                stderr_truncated: true,
                ..a
            }
        }
    } else {
        a
    }
}

impl Aggregator {
    /// The byte counter mirrors the buffer until truncation, after which
    /// it is no longer consulted.
    pub open spec fn wf(&self) -> bool {
        self.stderr_truncated || self.stderr_len as int == byte_len(self.stderr_output@)
    }

    /// The state a run starts from: an empty result and empty
    /// diagnostic buffers.
    pub fn new(return_all_messages: bool) -> (r: Aggregator)
        ensures
            r.wf(),
            r@ == (AggView {
                result: initial_result_view(return_all_messages),
                stderr_output: Seq::<char>::empty(),
                stderr_truncated: false,
                non_json_lines: Seq::<Seq<char>>::empty(),
                valid_json_seen: false,
            }),
    {
        let r = Aggregator {
            result: GeminiResult::new(return_all_messages),
            stderr_output: String::new(),
            stderr_len: 0,
            stderr_truncated: false,
            non_json_lines: Vec::new(),
            valid_json_seen: false,
        };
        proof {
            assert(vstd::utf8::encode_utf8(Seq::<char>::empty()) =~= Seq::<u8>::empty());
            assert(r.non_json_lines.deep_view() =~= Seq::<Seq<char>>::empty());
            assert(r@ =~= AggView {
                result: r.result@,
                stderr_output: Seq::<char>::empty(),
                stderr_truncated: false,
                non_json_lines: Seq::<Seq<char>>::empty(),
                valid_json_seen: false,
            });
        }
        r
    }

    /// One stdout line: trimmed, skipped when blank, decoded and folded
    /// into the result by one interpreter step when it is JSON, and
    /// retained as a capped diagnostic when it is not; exact with
    /// respect to [`stdout_step`].
    pub fn handle_stdout_line(&mut self, line: &str)
        requires
            old(self).wf(),
        ensures
            final(self).wf(),
            final(self)@ == stdout_step(old(self)@, line@),
    {
        let t = trim(line);
        if t.is_empty() {
            return ;
        }
        match decode_json_line(t) {
            Some(v) => {
                self.valid_json_seen = true;
                let cap = self.result.return_all_messages;
                process_json_line(&v, &mut self.result, cap);
                proof {
                    assert(self@ =~= json_line_step(old(self)@, trim_spec(line@)));
                }
            },
            None => {
                if self.non_json_lines.len() < MAX_NON_JSON_LINES {
                    self.non_json_lines.push(t.to_owned());
                    proof {
                        assert(self.non_json_lines.deep_view() =~= old(
                            self,
                        ).non_json_lines.deep_view().push(trim_spec(line@)));
                        assert(self@ =~= note_non_json(old(self)@, trim_spec(line@)));
                    }
                } else {
                    proof {
                        assert(self@ =~= note_non_json(old(self)@, trim_spec(line@)));
                    }
                }
            },
        }
    }

    /// One stderr line: appended to the diagnostic buffer under its byte
    /// cap, with a newline between lines; the line that overflows the
    /// cap is cut at the last fitting character and followed by one
    /// truncation marker, and everything after that is discarded.
    pub fn handle_stderr_line(&mut self, line: &str)
        requires
            old(self).wf(),
        ensures
            final(self).wf(),
            final(self)@ == stderr_step(old(self)@, line@),
    {
        if self.stderr_truncated || self.stderr_len >= MAX_STDERR_BYTES {
            proof {
                assert(self@ =~= stderr_step(old(self)@, line@));
            }
            return ;
        }
        let ghost out0 = self.stderr_output@;
        if !self.stderr_output.as_str().is_empty() {
            self.stderr_output.append("\n");
            self.stderr_len = self.stderr_len + 1;
            proof {
                reveal_strlit("\n");
                assert("\n"@ =~= seq!['\n']);
                lemma_byte_len_concat(out0, seq!['\n']);
                lemma_byte_len_one('\n');
                assert(char_width('\n') == 1);
            }
        }
        let ghost s1 = self.stderr_output@;
        let rem = MAX_STDERR_BYTES - self.stderr_len;
        let line_bytes = line.as_bytes().len();
        proof {
            assert(line_bytes as int == byte_len(line@));
        }
        if line_bytes <= rem {
            self.stderr_output.append(line);
            self.stderr_len = self.stderr_len + line_bytes;
            proof {
                lemma_byte_len_concat(s1, line@);
                assert(self@ =~= stderr_step(old(self)@, line@));
            }
        } else {
            let n = line.unicode_len();
            let mut p: usize = 0;
            let mut used: usize = 0;
            proof {
                assert(line@.take(0) =~= Seq::<char>::empty());
                assert(vstd::utf8::encode_utf8(Seq::<char>::empty()) =~= Seq::<u8>::empty());
            }
            while p < n
                invariant
                    0 <= p <= n,
                    n == line@.len(),
                    used <= rem <= MAX_STDERR_BYTES,
                    used as int == byte_len(line@.take(p as int)),
                    fit_prefix(line@, 0, rem as int) == fit_prefix(
                        line@,
                        p as int,
                        rem - used,
                    ),
                ensures
                    0 <= p <= n,
                    n == line@.len(),
                    used <= rem,
                    used as int == byte_len(line@.take(p as int)),
                    fit_prefix(line@, 0, rem as int) == p as int,
                decreases n - p,
            {
                let c = line.get_char(p);
                let w = char_utf8_width(c);
                if used + w > rem {
                    proof {
                        assert(fit_prefix(line@, p as int, rem - used) == p);
                    }
                    break ;
                }
                used = used + w;
                p = p + 1;
                proof {
                    assert(line@.take(p as int).drop_last() =~= line@.take(p - 1));
                    assert(line@.take(p as int) =~= line@.take(p - 1) + seq![c]);
                    lemma_byte_len_concat(line@.take(p - 1), seq![c]);
                    lemma_byte_len_one(c);
                }
            }
            proof {
                if p == n {
                    assert(fit_prefix(line@, n as int, rem - used) == n);
                }
                assert(fit_prefix(line@, 0, rem as int) == p);
            }
            let prefix = line.substring_char(0, p);
            self.stderr_output.append(prefix);
            self.stderr_output.append("\n... (stderr truncated)");
            self.stderr_truncated = true;
            proof {
                assert(line@.take(p as int) =~= line@.subrange(0, p as int));
                assert(self.stderr_output@ =~= s1 + line@.take(fit_prefix(line@, 0, rem as int))
                    + "\n... (stderr truncated)"@);
                assert(self@ =~= stderr_step(old(self)@, line@));
            }
        }
    }

    /// The text `Some(c)` or `None` that names an exit code.
    pub open spec fn exit_code_text(code: Option<i32>) -> Seq<char> {
        match code {
            Some(c) => "Some("@ + (if c < 0 {
                seq!['-'] + dec_digits(-c as int)
            } else {
                dec_digits(c as int)
            }) + ")"@,
            None => "None"@,
        }
    }

    /// What the supervisor concludes once the process has exited: a
    /// failed exit composes an error from any extracted error text, else
    /// the exit code, with the stderr and non-JSON diagnostics appended;
    /// a clean exit that never produced one decodable line is a failure
    /// citing the absence of structured output.
    pub open spec fn finish_view(a: AggView, exit_ok: bool, exit_code: Option<i32>) -> ResultView {
        let r = a.result;
        if !exit_ok {
            let base = match r.error {
                Some(e) => e,
                None => "gemini command failed with exit code: "@ + Self::exit_code_text(
                    exit_code,
                ),
            };
            let with_stderr = if a.stderr_output.len() > 0 {
                base + "\nStderr: "@ + a.stderr_output
            } else {
                base
            };
            let full = if a.non_json_lines.len() > 0 {
                with_stderr + "\nNon-JSON output: "@ + join_nl(a.non_json_lines)
            } else {
                with_stderr
            };
            ResultView { success: false, error: Some(full), ..r }
        } else if a.non_json_lines.len() > 0 && !a.valid_json_seen {
            ResultView {
                success: false,
                error: Some(
                    "No valid JSON output received from gemini CLI.\nOutput: "@ + join_nl(
                        a.non_json_lines,
                    ),
                ),
                ..r
            }
        } else {
            r
        }
    }

    /// Seals the run once the process has exited, exact with respect to
    /// [`Aggregator::finish_view`] followed by the final validation
    /// gate.
    pub fn finish(self, exit_ok: bool, exit_code: Option<i32>) -> (r: GeminiResult)
        ensures
            r@ == enforce_view(Self::finish_view(self@, exit_ok, exit_code)),
    {
        let ghost a0 = self@;
        let Aggregator {
            mut result,
            stderr_output,
            stderr_len: _,
            stderr_truncated: _,
            non_json_lines,
            valid_json_seen,
        } = self;
        if !exit_ok {
            result.success = false;
            let base = match result.error {
                Some(e) => e,
                None => {
                    let mut b = "gemini command failed with exit code: ".to_owned();
                    match exit_code {
                        Some(c) => {
                            b.append("Some(");
                            let v: i64 = c as i64;
                            if v < 0 {
                                b.append("-");
                                append_u64(&mut b, (-v) as u64);
                            } else {
                                append_u64(&mut b, v as u64);
                            }
                            b.append(")");
                            proof {
                                reveal_strlit("-");
                                assert("-"@ =~= seq!['-']);
                                assert(b@ =~= "gemini command failed with exit code: "@
                                    + Self::exit_code_text(exit_code));
                            }
                        },
                        None => {
                            b.append("None");
                            proof {
                                assert(b@ =~= "gemini command failed with exit code: "@
                                    + Self::exit_code_text(exit_code));
                            }
                        },
                    }
                    b
                },
            };
            let mut full = base;
            if !stderr_output.as_str().is_empty() {
                full.append("\nStderr: ");
                full.append(stderr_output.as_str());
            }
            if non_json_lines.len() > 0 {
                full.append("\nNon-JSON output: ");
                let joined = join_lines(&non_json_lines);
                full.append(joined.as_str());
            }
            result.error = Some(full);
            proof {
                assert(result@ =~= Self::finish_view(a0, exit_ok, exit_code));
            }
        } else if non_json_lines.len() > 0 && !valid_json_seen {
            result.success = false;
            let mut msg = "No valid JSON output received from gemini CLI.\nOutput: ".to_owned();
            let joined = join_lines(&non_json_lines);
            msg.append(joined.as_str());
            result.error = Some(msg);
            proof {
                assert(result@ =~= Self::finish_view(a0, exit_ok, exit_code));
            }
        } else {
            proof {
                assert(result@ =~= Self::finish_view(a0, exit_ok, exit_code));
            }
        }
        enforce_required_fields(result)
    }
}

/// Handling the same undecodable line twice adds exactly two diagnostic
/// entries and leaves the interpreted result untouched both times.
pub proof fn lemma_decode_failure_idempotent(a: AggView, line: Seq<char>)
    requires
        a.non_json_lines.len() + 2 <= MAX_NON_JSON_LINES,
    ensures
        note_non_json(note_non_json(a, line), line).non_json_lines == a.non_json_lines.push(
            line,
        ).push(line),
        note_non_json(note_non_json(a, line), line).result == a.result,
        note_non_json(note_non_json(a, line), line).valid_json_seen == a.valid_json_seen,
        note_non_json(note_non_json(a, line), line).stderr_output == a.stderr_output,
{
}

/// The final gate never revives a failed result, and never reverts the
/// extracted session identifier, assistant text, or captured events.
pub proof fn lemma_finalize_preserves_extracted(a: AggView, exit_ok: bool, exit_code: Option<i32>)
    ensures
        !a.result.success ==> !enforce_view(
            Aggregator::finish_view(a, exit_ok, exit_code),
        ).success,
        enforce_view(Aggregator::finish_view(a, exit_ok, exit_code)).session_id
            == a.result.session_id,
        enforce_view(Aggregator::finish_view(a, exit_ok, exit_code)).agent_messages
            == a.result.agent_messages,
        enforce_view(Aggregator::finish_view(a, exit_ok, exit_code)).all_messages
            == a.result.all_messages,
{
}

} // verus!
