//! Decisions of the remote hub: what a bound peer receives for an engine event, what it is
//! asked when the engine pauses, and how wechat pairing advances.

use vstd::prelude::*;

use crate::remote::format::{
    render_ask_question, render_permission, render_plan, segment_text, should_emit_progress,
    spec_render_ask_question, spec_render_permission, spec_render_plan, spec_segment_text,
};
use crate::json::{jentries, jview, jviews, lemma_jentries, lemma_jviews, Json, JsonView};
use crate::remote::router::{
    payload_count, payload_labels, payload_multi, payload_str, pick_labels, spec_pending_action, str_elems,
    PendingActionView, RemotePending,
};
use crate::remote::format::{spec_parse_choice, spec_parse_yes_no};
use crate::session::types::PendingPermission;
use crate::text::{chars_of, contains_string, extend_chars, owned, str_eq, string_of, sviews, trim, trim_bounds};

verus! {

/// The pairing QR code handed to the user interface: the polling id and the deep link the
/// interface renders as an image.
#[derive(Debug)]
pub struct QrCodeDto {
    pub qrcode: String,
    pub qr_content: String,
}

/// Minimum time between two progress notes of one session, in milliseconds.
pub const PROGRESS_WINDOW_MS: u64 = 3000;

/// What a bound peer receives for an engine event of a remote run.
#[derive(Debug)]
pub enum EventReply {
    Nothing,
    /// The final answer, cut to the channel's length limit.
    Answer(Vec<String>),
    /// A progress note; the caller records `now` as the session's last progress time.
    Progress(String),
    Failure(String),
}

pub enum EventReplyView {
    Nothing,
    Answer(Seq<Seq<char>>),
    Progress(Seq<char>),
    Failure(Seq<char>),
}

impl EventReply {
    pub open spec fn view(&self) -> EventReplyView {
        match self {
            EventReply::Nothing => EventReplyView::Nothing,
            EventReply::Answer(v) => EventReplyView::Answer(sviews(v@)),
            EventReply::Progress(s) => EventReplyView::Progress(s@),
            EventReply::Failure(s) => EventReplyView::Failure(s@),
        }
    }
}

pub open spec fn ov(o: Option<&str>) -> Option<Seq<char>> {
    match o {
        Some(s) => Some(s@),
        None => None,
    }
}

pub open spec fn throttle_passes(last: Option<u64>, now: u64) -> bool {
    match last {
        None => true,
        Some(l) => (if now >= l { now - l } else { 0 }) >= PROGRESS_WINDOW_MS,
    }
}

/// A completed message with non-blank text is sent in pieces of at most `max_len`
/// characters; a tool call becomes a progress note naming the tool (its label, else its
/// name, else "处理中") unless one was sent less than `PROGRESS_WINDOW_MS` ago; a failure
/// is reported with its text (or "执行失败"); other events send nothing.
pub open spec fn spec_event_reply(
    kind: Seq<char>,
    text: Option<Seq<char>>,
    tool_label: Option<Seq<char>>,
    tool_name: Option<Seq<char>>,
    last_progress: Option<u64>,
    now: u64,
    max_len: usize,
) -> EventReplyView {
    if kind == "message_completed"@ {
        match text {
            Some(t) => if trim(t).len() > 0 {
                EventReplyView::Answer(spec_segment_text(t, max_len))
            } else {
                EventReplyView::Nothing
            },
            None => EventReplyView::Nothing,
        }
    } else if kind == "tool_call"@ {
        if throttle_passes(last_progress, now) {
            let label = match tool_label {
                Some(l) => l,
                None => match tool_name {
                    Some(n) => n,
                    None => "处理中"@,
                },
            };
            EventReplyView::Progress("🔧 "@ + label + "…"@)
        } else {
            EventReplyView::Nothing
        }
    } else if kind == "message_failed"@ {
        EventReplyView::Failure(
            "⚠️ "@ + match text {
                Some(t) => t,
                None => "执行失败"@,
            },
        )
    } else {
        EventReplyView::Nothing
    }
}

/// A failure event is reported with its own reason: "⚠️ " followed by the text it
/// carries, whatever the other fields; only a failure without text falls back to "执行失败".
pub proof fn law_failure_reports_its_reason(
    text: Seq<char>,
    tool_label: Option<Seq<char>>,
    tool_name: Option<Seq<char>>,
    last_progress: Option<u64>,
    now: u64,
    max_len: usize,
)
    ensures
        spec_event_reply("message_failed"@, Some(text), tool_label, tool_name, last_progress, now, max_len)
            == EventReplyView::Failure("⚠️ "@ + text),
        spec_event_reply("message_failed"@, None, tool_label, tool_name, last_progress, now, max_len)
            == EventReplyView::Failure("⚠️ "@ + "执行失败"@),
{
    reveal_strlit("message_failed");
    reveal_strlit("message_completed");
    reveal_strlit("tool_call");
    assert("message_failed"@.len() != "message_completed"@.len());
    assert("message_failed"@.len() != "tool_call"@.len());
}

pub fn event_reply(
    kind: &str,
    text: Option<&str>,
    tool_label: Option<&str>,
    tool_name: Option<&str>,
    last_progress: Option<u64>,
    now: u64,
    max_len: usize,
) -> (r: EventReply)
    ensures
        r.view() == spec_event_reply(kind@, ov(text), ov(tool_label), ov(tool_name), last_progress, now, max_len),
{
    if str_eq(kind, "message_completed") {
        match text {
            Some(t) => {
                let v = chars_of(t);
                let (a, b) = trim_bounds(&v, 0, v.len());
                assert(v@.subrange(0, v@.len() as int) =~= v@);
                if a < b {
                    EventReply::Answer(segment_text(t, max_len))
                } else {
                    EventReply::Nothing
                }
            },
            None => EventReply::Nothing,
        }
    } else if str_eq(kind, "tool_call") {
        if should_emit_progress(last_progress, now, PROGRESS_WINDOW_MS) {
            let label = match tool_label {
                Some(l) => l,
                None => match tool_name {
                    Some(n) => n,
                    None => "处理中",
                },
            };
            let mut out = chars_of("🔧 ");
            extend_chars(&mut out, &chars_of(label));
            extend_chars(&mut out, &chars_of("…"));
            EventReply::Progress(string_of(&out))
        } else {
            EventReply::Nothing
        }
    } else if str_eq(kind, "message_failed") {
        let mut out = chars_of("⚠️ ");
        let err = match text {
            Some(t) => t,
            None => "执行失败",
        };
        extend_chars(&mut out, &chars_of(err));
        EventReply::Failure(string_of(&out))
    } else {
        EventReply::Nothing
    }
}

/// The kind stored with a paused binding and the prompt sent to the peer. A question
/// interaction asks its first question.
pub fn pending_prompt(session_id: &str, pending: &RemotePending) -> (r: (&'static str, String))
    requires
        pending matches RemotePending::Ask { questions, .. } ==> questions.len() > 0,
    ensures
        match pending {
            RemotePending::Permission { tool_name, input, .. } => r.0@ == "permission"@ && r.1@
                == spec_render_permission(tool_name@, input@),
            RemotePending::Plan { plan_text, .. } => r.0@ == "plan"@ && r.1@ == spec_render_plan(plan_text@),
            RemotePending::Ask { questions, .. } => {
                let q = questions@[0];
                r.0@ == "ask"@ && r.1@ == spec_render_ask_question(
                    q.header@,
                    q.question@,
                    q.multi_select,
                    sviews(q.options@),
                    0,
                    questions.len() as usize,
                )
            },
        },
{
    match pending {
        RemotePending::Permission { tool_call_id, tool_name, input } => {
            let p = PendingPermission {
                session_id: owned(session_id),
                tool_call_id: tool_call_id.clone(),
                tool_name: tool_name.clone(),
                input: input.clone(),
            };
            ("permission", render_permission(&p))
        },
        RemotePending::Plan { plan_text, .. } => ("plan", render_plan(plan_text.as_str())),
        RemotePending::Ask { questions, .. } => ("ask", render_ask_question(&questions[0], 0, questions.len())),
    }
}

/// Strings as JSON string values.
pub open spec fn jstrs(s: Seq<Seq<char>>) -> Seq<JsonView> {
    s.map_values(|x: Seq<char>| JsonView::Str(x))
}

/// The object stored with a paused binding and read back when the peer answers: the tool
/// call's id and, for a question interaction, the number of options of its first question,
/// whether several may be chosen, and their labels.
pub open spec fn spec_pending_payload(pending: RemotePending) -> JsonView {
    match pending {
        RemotePending::Permission { tool_call_id, .. } => JsonView::Object(
            seq![("toolCallId"@, JsonView::Str(tool_call_id@))],
        ),
        RemotePending::Plan { tool_call_id, .. } => JsonView::Object(
            seq![("toolCallId"@, JsonView::Str(tool_call_id@))],
        ),
        RemotePending::Ask { tool_call_id, questions } => {
            let q = questions@[0];
            JsonView::Object(
                seq![
                    ("labels"@, JsonView::Array(jstrs(sviews(q.options@)))),
                    ("multi"@, JsonView::Bool(q.multi_select)),
                    ("options"@, JsonView::UInt(q.options.len() as u64)),
                    ("toolCallId"@, JsonView::Str(tool_call_id@)),
                ],
            )
        },
    }
}

fn tool_call_entry(tool_call_id: &String) -> (r: (String, Json))
    ensures
        r.0@ == "toolCallId"@,
        jview(r.1) == JsonView::Str(tool_call_id@),
{
    (owned("toolCallId"), Json::Str(owned(tool_call_id.as_str())))
}

/// The payload stored with a paused binding, which `pending_action` reads when the peer
/// replies.
pub fn pending_payload(pending: &RemotePending) -> (r: Json)
    requires
        pending matches RemotePending::Ask { questions, .. } ==> questions.len() > 0,
    ensures
        r@ == spec_pending_payload(*pending),
{
    match pending {
        RemotePending::Permission { tool_call_id, .. } => {
            let mut es: Vec<(String, Json)> = Vec::new();
            es.push(tool_call_entry(tool_call_id));
            proof {
                lemma_jentries(es@);
                assert(jentries(es@) =~= seq![("toolCallId"@, JsonView::Str(tool_call_id@))]);
            }
            Json::Object(es)
        },
        RemotePending::Plan { tool_call_id, .. } => {
            let mut es: Vec<(String, Json)> = Vec::new();
            es.push(tool_call_entry(tool_call_id));
            proof {
                lemma_jentries(es@);
                assert(jentries(es@) =~= seq![("toolCallId"@, JsonView::Str(tool_call_id@))]);
            }
            Json::Object(es)
        },
        RemotePending::Ask { tool_call_id, questions } => {
            let q = &questions[0];
            let mut labels: Vec<Json> = Vec::new();
            let n = q.options.len();
            for i in 0..n
                invariant
                    n == q.options.len(),
                    labels@.len() == i,
                    forall|j: int| 0 <= j < i ==> #[trigger] jview(labels@[j]) == JsonView::Str(q.options@[j]@),
            {
                labels.push(Json::Str(owned(q.options[i].as_str())));
            }
            let ghost lv = labels@;
            let mut es: Vec<(String, Json)> = Vec::new();
            es.push((owned("labels"), Json::Array(labels)));
            es.push((owned("multi"), Json::Bool(q.multi_select)));
            es.push((owned("options"), Json::UInt(n as u64)));
            es.push(tool_call_entry(tool_call_id));
            proof {
                lemma_jviews(lv);
                assert(jviews(lv) =~= jstrs(sviews(q.options@)));
                lemma_jentries(es@);
                assert(jentries(es@) =~= seq![
                    ("labels"@, JsonView::Array(jstrs(sviews(q.options@)))),
                    ("multi"@, JsonView::Bool(q.multi_select)),
                    ("options"@, JsonView::UInt(q.options.len() as u64)),
                    ("toolCallId"@, JsonView::Str(tool_call_id@)),
                ]);
            }
            Json::Object(es)
        },
    }
}

proof fn lemma_str_elems_jstrs(s: Seq<Seq<char>>)
    ensures
        str_elems(jstrs(s)) == s,
    decreases s.len(),
{
    if s.len() > 0 {
        assert(jstrs(s).drop_last() =~= jstrs(s.drop_last()));
        lemma_str_elems_jstrs(s.drop_last());
        assert(s.drop_last().push(s.last()) =~= s);
    } else {
        assert(str_elems(jstrs(s)) =~= s);
    }
}

/// What is stored with a paused binding reads back as it was written: the reply of the
/// peer is judged against the tool call, and for a question against the option count, the
/// multi-choice flag and the labels of the interaction that paused.
pub proof fn law_pending_payload_reads_back(pending: RemotePending, text: Seq<char>)
    requires
        pending matches RemotePending::Ask { questions, .. } ==> questions.len() > 0,
    ensures
        match pending {
            RemotePending::Permission { tool_call_id, .. } => {
                &&& payload_str(spec_pending_payload(pending), "toolCallId"@) == tool_call_id@
                &&& spec_pending_action("permission"@, text, spec_pending_payload(pending)) == match spec_parse_yes_no(text) {
                    None => PendingActionView::Reprompt("请回复 1 批准 / 2 拒绝。"@),
                    Some(a) => PendingActionView::Permission(tool_call_id@, a),
                }
            },
            RemotePending::Plan { tool_call_id, .. } => {
                &&& payload_str(spec_pending_payload(pending), "toolCallId"@) == tool_call_id@
                &&& spec_pending_action("plan"@, text, spec_pending_payload(pending)) == match spec_parse_yes_no(text) {
                    None => PendingActionView::Reprompt("请回复 1 批准执行 / 2 拒绝。"@),
                    Some(a) => PendingActionView::Plan(tool_call_id@, a),
                }
            },
            RemotePending::Ask { tool_call_id, questions } => {
                let q = questions@[0];
                let p = spec_pending_payload(pending);
                &&& payload_str(p, "toolCallId"@) == tool_call_id@
                &&& payload_count(p) == q.options.len()
                &&& payload_multi(p) == q.multi_select
                &&& payload_labels(p) == sviews(q.options@)
                &&& spec_pending_action("ask"@, text, p) == match spec_parse_choice(text, q.options.len(), q.multi_select) {
                    None => PendingActionView::Reprompt("请回复选项编号（多选用逗号分隔）。"@),
                    Some(idxs) => PendingActionView::Ask(tool_call_id@, seq![pick_labels(idxs, sviews(q.options@))]),
                }
            },
        },
{
    reveal_strlit("toolCallId");
    reveal_strlit("labels");
    reveal_strlit("multi");
    reveal_strlit("options");
    reveal_strlit("permission");
    reveal_strlit("plan");
    reveal_strlit("ask");
    reveal_with_fuel(crate::json::entry_lookup, 5);
    match pending {
        RemotePending::Ask { tool_call_id, questions } => {
            let q = questions@[0];
            lemma_str_elems_jstrs(sviews(q.options@));
            assert("ask"@.len() != "permission"@.len() && "ask"@.len() != "plan"@.len());
            assert("labels"@.len() == 6 && "multi"@.len() == 5 && "options"@.len() == 7);
            assert("toolCallId"@.len() == 10);
            let es = spec_pending_payload(pending)->Object_0;
            assert(es.drop_first() =~= seq![es[1], es[2], es[3]]);
            assert(es.drop_first().drop_first() =~= seq![es[2], es[3]]);
            assert(es.drop_first().drop_first().drop_first() =~= seq![es[3]]);
        },
        RemotePending::Permission { tool_call_id, .. } => {
            let p = spec_pending_payload(pending);
            assert(payload_str(p, "toolCallId"@) == tool_call_id@);
        },
        RemotePending::Plan { tool_call_id, .. } => {
            let p = spec_pending_payload(pending);
            assert(payload_str(p, "toolCallId"@) == tool_call_id@);
            assert("plan"@.len() != "permission"@.len());
        },
    }
}

/// The remote projection of a plan: its Markdown, or its summary when the Markdown is blank.
pub fn plan_text(plan_markdown: String, summary: String) -> (r: String)
    ensures
        r@ == (if trim(plan_markdown@).len() == 0 { summary@ } else { plan_markdown@ }),
{
    let v = chars_of(plan_markdown.as_str());
    let (a, b) = trim_bounds(&v, 0, v.len());
    assert(v@.subrange(0, v@.len() as int) =~= v@);
    if a == b {
        summary
    } else {
        plan_markdown
    }
}

// ---------------------------------------------------------------- wechat pairing

/// Number of status polls before a pairing gives up (one every two seconds).
pub const PAIRING_POLLS: u32 = 60;

/// What a status poll answered.
#[derive(Debug)]
pub enum PairPoll {
    Wait,
    Scanned,
    Expired,
    Confirmed { bot_token: String, base_url: Option<String> },
    /// A transient error: polling goes on.
    Failed,
}

/// The next step of a pairing after a poll. The caller polls at most `PAIRING_POLLS`
/// times and reports the code as expired when no poll decided.
#[derive(Debug)]
pub enum PairStep {
    /// Poll again.
    Continue,
    /// Tell the user the code was scanned, then poll again.
    Scanned,
    /// The code expired: tell the user and stop.
    Expired,
    /// Store the token, enable the channel with this base URL, wait for the owner's first
    /// message, start the connector.
    Confirm { bot_token: String, base_url: String },
}

/// The step after a poll answered `poll`. A confirmation keeps the base URL it names,
/// else the one the pairing started with.
pub fn pairing_step(poll: PairPoll, base_url: String) -> (s: PairStep)
    ensures
        match poll {
            PairPoll::Wait | PairPoll::Failed => s is Continue,
            PairPoll::Scanned => s is Scanned,
            PairPoll::Expired => s is Expired,
            PairPoll::Confirmed { bot_token, base_url: confirmed } => s matches PairStep::Confirm { bot_token: t, base_url: b }
                && t == bot_token && b@ == (match confirmed {
                Some(c) => c@,
                None => base_url@,
            }),
        },
{
    match poll {
        PairPoll::Wait | PairPoll::Failed => PairStep::Continue,
        PairPoll::Scanned => PairStep::Scanned,
        PairPoll::Expired => PairStep::Expired,
        PairPoll::Confirmed { bot_token, base_url: confirmed } => {
            let b = match confirmed {
                Some(c) => c,
                None => base_url,
            };
            PairStep::Confirm { bot_token, base_url: b }
        },
    }
}

// ---------------------------------------------------------------- remote runs

/// The sessions whose run was started from a remote channel. Only their engine events are
/// sent to a bound peer: a run started locally in a bound session stays local.
#[derive(Debug)]
pub struct RemoteRuns {
    pub ids: Vec<String>,
}

impl RemoteRuns {
    /// Whether the run of session `id` was started remotely.
    pub open spec fn has(&self, id: Seq<char>) -> bool {
        sviews(self.ids@).contains(id)
    }

    pub fn new() -> (r: RemoteRuns)
        ensures
            forall|x: Seq<char>| !r.has(x),
    {
        let r = RemoteRuns { ids: Vec::new() };
        assert(sviews(r.ids@) =~= Seq::<Seq<char>>::empty());
        r
    }

    /// A remote run of `session_id` begins.
    pub fn begin(&mut self, session_id: &str)
        ensures
            forall|x: Seq<char>| #[trigger] final(self).has(x) <==> (old(self).has(x) || x == session_id@),
    {
        if !contains_string(&self.ids, session_id) {
            let ghost before = sviews(self.ids@);
            self.ids.push(String::from_str(session_id));
            assert(sviews(self.ids@) =~= before.push(session_id@));
            assert forall|x: Seq<char>| #[trigger] self.has(x) <==> (before.contains(x) || x == session_id@) by {
                if sviews(self.ids@).contains(x) && x != session_id@ {
                    let k = choose|k: int| 0 <= k < sviews(self.ids@).len() && sviews(self.ids@)[k] == x;
                    assert(before[k] == x);
                }
                if before.contains(x) {
                    let k = choose|k: int| 0 <= k < before.len() && before[k] == x;
                    assert(sviews(self.ids@)[k] == x);
                }
                if x == session_id@ {
                    assert(sviews(self.ids@)[before.len() as int] == x);
                }
            }
        }
    }

    /// The remote run of `session_id` ended.
    pub fn end(&mut self, session_id: &str)
        ensures
            forall|x: Seq<char>| #[trigger] final(self).has(x) <==> (old(self).has(x) && x != session_id@),
    {
        let ghost old_ids = sviews(self.ids@);
        let mut kept: Vec<String> = Vec::new();
        let mut i: usize = 0;
        assert(sviews(kept@) =~= without(old_ids.take(0), session_id@));
        while i < self.ids.len()
            invariant
                i <= self.ids.len(),
                sviews(self.ids@) == old_ids,
                sviews(kept@) == without(old_ids.take(i as int), session_id@),
            decreases self.ids.len() - i,
        {
            assert(old_ids.take(i + 1).drop_last() =~= old_ids.take(i as int));
            assert(old_ids.take(i + 1).last() == self.ids@[i as int]@);
            if !str_eq(self.ids[i].as_str(), session_id) {
                let ghost k0 = sviews(kept@);
                kept.push(self.ids[i].clone());
                assert(sviews(kept@) =~= k0.push(self.ids@[i as int]@));
            }
            i = i + 1;
        }
        assert(old_ids.take(self.ids.len() as int) =~= old_ids);
        proof {
            lemma_without(old_ids, session_id@);
        }
        self.ids = kept;
    }

    /// Whether session `session_id` runs remotely.
    pub fn contains(&self, session_id: &str) -> (r: bool)
        ensures
            r == self.has(session_id@),
    {
        contains_string(&self.ids, session_id)
    }
}

/// `s` without the elements equal to `id`, in order.
pub open spec fn without(s: Seq<Seq<char>>, id: Seq<char>) -> Seq<Seq<char>>
    decreases s.len(),
{
    if s.len() == 0 {
        s
    } else if s.last() == id {
        without(s.drop_last(), id)
    } else {
        without(s.drop_last(), id).push(s.last())
    }
}

proof fn lemma_without(s: Seq<Seq<char>>, id: Seq<char>)
    ensures
        forall|x: Seq<char>| #[trigger] without(s, id).contains(x) <==> (s.contains(x) && x != id),
    decreases s.len(),
{
    if s.len() > 0 {
        let p = s.drop_last();
        lemma_without(p, id);
        assert forall|x: Seq<char>| #[trigger] without(s, id).contains(x) <==> (s.contains(x) && x != id) by {
            if s.contains(x) && x != id {
                let k = choose|k: int| 0 <= k < s.len() && s[k] == x;
                if k < p.len() {
                    assert(p[k] == x);
                    assert(p.contains(x));
                    assert(without(p, id).contains(x));
                    let j = choose|j: int| 0 <= j < without(p, id).len() && without(p, id)[j] == x;
                    if s.last() != id {
                        assert(without(s, id)[j] == x);
                    }
                } else {
                    assert(without(s, id)[without(p, id).len() as int] == x);
                }
            }
            if without(s, id).contains(x) {
                let k = choose|k: int| 0 <= k < without(s, id).len() && without(s, id)[k] == x;
                if s.last() != id && k == without(p, id).len() {
                    assert(s[s.len() - 1] == x);
                } else {
                    assert(without(p, id)[k] == x);
                    assert(without(p, id).contains(x));
                    let j = choose|j: int| 0 <= j < p.len() && p[j] == x;
                    assert(s[j] == x);
                }
            }
        }
    }
}

/// Whether an engine event of `session_id` goes to a peer: only for a remote run, in a
/// session bound to a peer (`bound`), whose channel has a running connector (`connected`).
pub fn event_goes_remote(runs: &RemoteRuns, session_id: &str, bound: bool, connected: bool) -> (r: bool)
    ensures
        r == (runs.has(session_id@) && bound && connected),
{
    runs.contains(session_id) && bound && connected
}

/// A run that began remotely is answered remotely until it ends; once it ended, or when it
/// never began remotely, its events stay local, whoever is bound to the session.
pub proof fn law_only_remote_runs_reply_remotely(before: RemoteRuns, begun: RemoteRuns, ended: RemoteRuns, session_id: Seq<char>)
    requires
        forall|x: Seq<char>| #[trigger] begun.has(x) <==> (before.has(x) || x == session_id),
        forall|x: Seq<char>| #[trigger] ended.has(x) <==> (begun.has(x) && x != session_id),
    ensures
        begun.has(session_id),
        !ended.has(session_id),
        forall|x: Seq<char>| x != session_id ==> (#[trigger] ended.has(x) <==> before.has(x)),
{
}

} // verus!
