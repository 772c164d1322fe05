//! Inbound routing: the allow-list gate, commands, replies to a paused interaction and
//! plain messages, as decisions the caller carries out against the store and the engine.

use vstd::prelude::*;

use crate::json::{jget, jstr, jviews, ju64, jbool, lemma_jviews, jview, Json, JsonView};
use crate::remote::format::{parse_choice, parse_yes_no, spec_parse_choice, spec_parse_yes_no};
use crate::session::types::AskQuestion;
use crate::text::{chars_of, is_whitespace, is_ws, owned, slice_chars, str_eq, string_of, trim, trim_bounds, trim_start, sviews};

verus! {

/// What the engine paused on, as projected for a remote peer.
#[derive(Debug)]
pub enum RemotePending {
    Permission { tool_call_id: String, tool_name: String, input: String },
    Ask { tool_call_id: String, questions: Vec<AskQuestion> },
    Plan { tool_call_id: String, plan_text: String },
}

/// The engine as the router drives it; each method runs the same path as the matching
/// local command.
pub trait RemoteEngine: Send + Sync {
    fn drive_message(&self, session_id: &str, text: &str) -> Result<(), String>;

    fn drive_permission(&self, session_id: &str, tool_call_id: &str, approved: bool) -> Result<(), String>;

    fn drive_ask(&self, session_id: &str, tool_call_id: &str, answers: Vec<Vec<String>>) -> Result<(), String>;

    fn drive_plan(&self, session_id: &str, tool_call_id: &str, approved: bool, comment: Option<String>) -> Result<(), String>;

    /// Creates a session and answers its id.
    fn new_session(&self) -> Result<String, String>;
}

/// Where an inbound message goes.
#[derive(Debug, PartialEq, Eq)]
pub enum InboundRoute {
    /// The peer is not on the allow-list and nobody is awaited: dropped.
    Reject,
    /// The channel is paused: answered with a notice, the engine is not driven.
    Paused,
    /// A `/` command, with what follows the slash.
    Command(String),
    /// A reply to the paused interaction of the given kind, with the trimmed text.
    PendingReply(String, String),
    /// A plain message for the bound session, trimmed.
    Drive(String),
}

pub open spec fn route_view(r: InboundRoute) -> (int, Seq<char>, Seq<char>) {
    match r {
        InboundRoute::Reject => (0, Seq::empty(), Seq::empty()),
        InboundRoute::Paused => (1, Seq::empty(), Seq::empty()),
        InboundRoute::Command(c) => (2, c@, Seq::empty()),
        InboundRoute::PendingReply(k, t) => (3, k@, t@),
        InboundRoute::Drive(t) => (4, t@, Seq::empty()),
    }
}

/// The route of a message with text `text`. `allowed`: the peer is on the allow-list;
/// `claimed`: it was not, but the channel was waiting for its owner after pairing and
/// this peer claimed it; `paused`: the channel is paused; `pending_kind`: the kind of the
/// interaction the peer's session is paused on.
pub open spec fn spec_route_inbound(
    allowed: bool,
    claimed: bool,
    paused: bool,
    text: Seq<char>,
    pending_kind: Option<Seq<char>>,
) -> (int, Seq<char>, Seq<char>) {
    let t = trim(text);
    if !allowed && !claimed {
        (0, Seq::empty(), Seq::empty())
    } else if paused {
        (1, Seq::empty(), Seq::empty())
    } else if t.len() > 0 && t[0] == '/' {
        (2, t.drop_first(), Seq::empty())
    } else {
        match pending_kind {
            Some(k) => (3, k, t),
            None => (4, t, Seq::empty()),
        }
    }
}

pub open spec fn opt_view(o: Option<&str>) -> Option<Seq<char>> {
    match o {
        Some(s) => Some(s@),
        None => None,
    }
}

pub fn route_inbound(allowed: bool, claimed: bool, paused: bool, text: &str, pending_kind: Option<&str>) -> (r: InboundRoute)
    ensures
        route_view(r) == spec_route_inbound(allowed, claimed, paused, text@, opt_view(pending_kind)),
{
    if !allowed && !claimed {
        return InboundRoute::Reject;
    }
    if paused {
        return InboundRoute::Paused;
    }
    let v = chars_of(text);
    let (a, b) = trim_bounds(&v, 0, v.len());
    assert(v@.subrange(0, v@.len() as int) =~= v@);
    if a < b && v[a] == '/' {
        let rest = slice_chars(&v, a + 1, b);
        assert(rest@ =~= trim(text@).drop_first());
        return InboundRoute::Command(string_of(&rest));
    }
    let t = string_of(&slice_chars(&v, a, b));
    match pending_kind {
        Some(k) => InboundRoute::PendingReply(owned(k), t),
        None => InboundRoute::Drive(t),
    }
}

/// The label an owner claimed after pairing gets on the allow-list.
pub const OWNER_LABEL: &'static str = "owner(扫码绑定)";

/// Notice sent while a channel is paused.
pub const PAUSED_NOTICE: &'static str = "远程接入已暂停，请在桌面端恢复连接后再发送消息。";

/// A command.
#[derive(Debug, Clone, Copy, PartialEq, Eq, Structural)]
pub enum CommandAction {
    /// `/new`: bind a fresh session.
    NewSession,
    /// `/help` or a bare `/`.
    Help,
    Unknown,
}

/// The first white-space separated word (`split_whitespace().next()`).
pub open spec fn first_word(s: Seq<char>) -> Option<Seq<char>> {
    let t = trim_start(s);
    if t.len() == 0 {
        None
    } else {
        Some(t.take(word_len(t) as int))
    }
}

/// Length of the leading run of non-white-space characters.
pub open spec fn word_len(s: Seq<char>) -> nat
    decreases s.len(),
{
    if s.len() == 0 || is_ws(s[0]) {
        0
    } else {
        1 + word_len(s.drop_first())
    }
}

pub open spec fn spec_command_action(rest: Seq<char>) -> CommandAction {
    match first_word(rest) {
        None => CommandAction::Help,
        Some(w) => if w == "new"@ {
            CommandAction::NewSession
        } else if w == "help"@ {
            CommandAction::Help
        } else {
            CommandAction::Unknown
        },
    }
}

proof fn lemma_word_len(s: Seq<char>, k: int)
    requires
        0 <= k <= s.len(),
        forall|j: int| 0 <= j < k ==> !is_ws(#[trigger] s[j]),
        k < s.len() ==> is_ws(s[k]),
    ensures
        word_len(s) == k,
    decreases k,
{
    if k > 0 {
        assert forall|j: int| 0 <= j < k - 1 implies !is_ws(#[trigger] s.drop_first()[j]) by {
            assert(s.drop_first()[j] == s[j + 1]);
        }
        lemma_word_len(s.drop_first(), k - 1);
    }
}

/// What a command does.
pub fn command_action(rest: &str) -> (c: CommandAction)
    ensures
        c == spec_command_action(rest@),
{
    let v = chars_of(rest);
    let mut a: usize = 0;
    assert(v@.skip(0) =~= v@);
    while a < v.len() && is_whitespace(v[a])
        invariant
            a <= v.len(),
            trim_start(v@) == trim_start(v@.skip(a as int)),
        decreases v.len() - a,
    {
        assert(v@.skip(a as int).drop_first() =~= v@.skip(a + 1));
        a = a + 1;
    }
    if a == v.len() {
        return CommandAction::Help;
    }
    let mut b = a;
    while b < v.len() && !is_whitespace(v[b])
        invariant
            a <= b <= v.len(),
            forall|j: int| a <= j < b ==> !is_ws(#[trigger] v@[j]),
        decreases v.len() - b,
    {
        b = b + 1;
    }
    let ghost t = v@.skip(a as int);
    proof {
        assert forall|j: int| 0 <= j < b - a implies !is_ws(#[trigger] t[j]) by {
            assert(t[j] == v@[a + j]);
        }
        if b < v.len() {
            assert(t[b - a] == v@[b as int]);
        }
        lemma_word_len(t, b - a);
    }
    let w = slice_chars(&v, a, b);
    assert(w@ =~= t.take(b - a));
    if str_eq(string_of(&w).as_str(), "new") {
        CommandAction::NewSession
    } else if str_eq(string_of(&w).as_str(), "help") {
        CommandAction::Help
    } else {
        CommandAction::Unknown
    }
}

/// The reply to a command.
pub fn command_reply(c: CommandAction) -> (r: &'static str)
    ensures
        r@ == (match c {
            CommandAction::NewSession => "已新建会话，可以开始了。"@,
            CommandAction::Help => "命令：/new 新建会话，/help 帮助。直接发消息即派任务。"@,
            CommandAction::Unknown => "未知命令，发 /help 看可用命令。"@,
        }),
{
    match c {
        CommandAction::NewSession => "已新建会话，可以开始了。",
        CommandAction::Help => "命令：/new 新建会话，/help 帮助。直接发消息即派任务。",
        CommandAction::Unknown => "未知命令，发 /help 看可用命令。",
    }
}


// ---------------------------------------------------------------- replies to a paused interaction

/// What a reply to a paused interaction does. Every action but `Reprompt` first clears
/// the paused state of the binding.
#[derive(Debug)]
pub enum PendingAction {
    /// The reply could not be read: ask again, keep the interaction paused.
    Reprompt(String),
    Permission { tool_call_id: String, approved: bool },
    Plan { tool_call_id: String, approved: bool },
    Ask { tool_call_id: String, answers: Vec<Vec<String>> },
    /// An unknown kind: only the paused state is cleared.
    ClearOnly,
}

pub enum PendingActionView {
    Reprompt(Seq<char>),
    Permission(Seq<char>, bool),
    Plan(Seq<char>, bool),
    Ask(Seq<char>, Seq<Seq<Seq<char>>>),
    ClearOnly,
}


pub open spec fn answers_view(a: Seq<Vec<String>>) -> Seq<Seq<Seq<char>>> {
    a.map_values(|v: Vec<String>| sviews(v@))
}

impl PendingAction {
    pub open spec fn view(&self) -> PendingActionView {
        match self {
            PendingAction::Reprompt(t) => PendingActionView::Reprompt(t@),
            PendingAction::Permission { tool_call_id, approved } => PendingActionView::Permission(tool_call_id@, *approved),
            PendingAction::Plan { tool_call_id, approved } => PendingActionView::Plan(tool_call_id@, *approved),
            PendingAction::Ask { tool_call_id, answers } => PendingActionView::Ask(tool_call_id@, answers_view(answers@)),
            PendingAction::ClearOnly => PendingActionView::ClearOnly,
        }
    }
}

/// The strings of an array, other elements left out.
pub open spec fn str_elems(xs: Seq<JsonView>) -> Seq<Seq<char>>
    decreases xs.len(),
{
    if xs.len() == 0 {
        Seq::empty()
    } else {
        let rest = str_elems(xs.drop_last());
        match jstr(xs.last()) {
            Some(t) => rest.push(t),
            None => rest,
        }
    }
}

/// The labels at the chosen indices, indices without a label left out.
pub open spec fn pick_labels(idxs: Seq<usize>, labels: Seq<Seq<char>>) -> Seq<Seq<char>>
    decreases idxs.len(),
{
    if idxs.len() == 0 {
        Seq::empty()
    } else {
        let rest = pick_labels(idxs.drop_last(), labels);
        let i = idxs.last();
        if i < labels.len() { rest.push(labels[i as int]) } else { rest }
    }
}

pub open spec fn payload_str(p: JsonView, key: Seq<char>) -> Seq<char> {
    match jget(p, key) {
        Some(x) => match jstr(x) {
            Some(s) => s,
            None => Seq::empty(),
        },
        None => Seq::empty(),
    }
}

pub open spec fn payload_labels(p: JsonView) -> Seq<Seq<char>> {
    match jget(p, "labels"@) {
        Some(JsonView::Array(xs)) => str_elems(xs),
        _ => Seq::empty(),
    }
}

pub open spec fn payload_count(p: JsonView) -> usize {
    match jget(p, "options"@) {
        Some(x) => match ju64(x) {
            Some(n) => n as usize,
            None => 0,
        },
        None => 0,
    }
}

pub open spec fn payload_multi(p: JsonView) -> bool {
    match jget(p, "multi"@) {
        Some(x) => match jbool(x) {
            Some(b) => b,
            None => false,
        },
        None => false,
    }
}

/// The action of a reply `text` to an interaction of kind `kind` whose stored payload is
/// `p` (`toolCallId`, and for a question `options`, `multi`, `labels`): a permission or a
/// plan takes yes/no (`1`/`2`), a question takes option numbers, mapped to their labels.
pub open spec fn spec_pending_action(kind: Seq<char>, text: Seq<char>, p: JsonView) -> PendingActionView {
    let tc = payload_str(p, "toolCallId"@);
    if kind == "permission"@ {
        match spec_parse_yes_no(text) {
            None => PendingActionView::Reprompt("请回复 1 批准 / 2 拒绝。"@),
            Some(a) => PendingActionView::Permission(tc, a),
        }
    } else if kind == "plan"@ {
        match spec_parse_yes_no(text) {
            None => PendingActionView::Reprompt("请回复 1 批准执行 / 2 拒绝。"@),
            Some(a) => PendingActionView::Plan(tc, a),
        }
    } else if kind == "ask"@ {
        match spec_parse_choice(text, payload_count(p), payload_multi(p)) {
            None => PendingActionView::Reprompt("请回复选项编号（多选用逗号分隔）。"@),
            Some(idxs) => PendingActionView::Ask(tc, seq![pick_labels(idxs, payload_labels(p))]),
        }
    } else {
        PendingActionView::ClearOnly
    }
}

fn payload_string(p: &Json, key: &str) -> (r: String)
    ensures
        r@ == payload_str(p@, key@),
{
    match p.get(key) {
        Some(x) => match x.as_str() {
            Some(s) => owned(s),
            None => String::new(),
        },
        None => String::new(),
    }
}

fn labels_of(p: &Json) -> (r: Vec<String>)
    ensures
        sviews(r@) == payload_labels(p@),
{
    let mut out: Vec<String> = Vec::new();
    match p.get("labels") {
        Some(x) => match x.as_array() {
            Some(xs) => {
                let ghost xv = jviews(xs@);
                proof {
                    lemma_jviews(xs@);
                }
                assert(xv.take(0) =~= Seq::<JsonView>::empty());
                let mut i: usize = 0;
                while i < xs.len()
                    invariant
                        i <= xs.len(),
                        xv == jviews(xs@),
                        xv.len() == xs.len(),
                        forall|q: int| 0 <= q < xs.len() ==> #[trigger] xv[q] == jview(xs@[q]),
                        sviews(out@) == str_elems(xv.take(i as int)),
                    decreases xs.len() - i,
                {
                    assert(xv.take(i + 1).drop_last() =~= xv.take(i as int));
                    assert(xv.take(i + 1).last() == xv[i as int]);
                    if let Some(t) = xs[i].as_str() {
                        let ghost before = sviews(out@);
                        let o = owned(t);
                        let ghost ov = o@;
                        out.push(o);
                        assert(sviews(out@) =~= before.push(ov));
                    }
                    i = i + 1;
                }
                assert(xv.take(xs.len() as int) =~= xv);
                out
            },
            None => out,
        },
        None => out,
    }
}

fn pick(idxs: &Vec<usize>, labels: &Vec<String>) -> (r: Vec<String>)
    ensures
        sviews(r@) == pick_labels(idxs@, sviews(labels@)),
{
    let mut out: Vec<String> = Vec::new();
    let mut i: usize = 0;
    assert(idxs@.take(0) =~= Seq::<usize>::empty());
    while i < idxs.len()
        invariant
            i <= idxs.len(),
            sviews(out@) == pick_labels(idxs@.take(i as int), sviews(labels@)),
        decreases idxs.len() - i,
    {
        assert(idxs@.take(i + 1).drop_last() =~= idxs@.take(i as int));
        assert(idxs@.take(i + 1).last() == idxs@[i as int]);
        let k = idxs[i];
        if k < labels.len() {
            let ghost before = sviews(out@);
            let l = labels[k].clone();
            let ghost lv = l@;
            out.push(l);
            assert(sviews(out@) =~= before.push(lv));
        }
        i = i + 1;
    }
    assert(idxs@.take(idxs.len() as int) =~= idxs@);
    out
}

/// Reads a reply to a paused interaction.
pub fn pending_action(kind: &str, text: &str, payload: &Json) -> (r: PendingAction)
    ensures
        r.view() == spec_pending_action(kind@, text@, payload@),
{
    let tool_call_id = payload_string(payload, "toolCallId");
    if str_eq(kind, "permission") {
        match parse_yes_no(text) {
            None => PendingAction::Reprompt(owned("请回复 1 批准 / 2 拒绝。")),
            Some(approved) => PendingAction::Permission { tool_call_id, approved },
        }
    } else if str_eq(kind, "plan") {
        match parse_yes_no(text) {
            None => PendingAction::Reprompt(owned("请回复 1 批准执行 / 2 拒绝。")),
            Some(approved) => PendingAction::Plan { tool_call_id, approved },
        }
    } else if str_eq(kind, "ask") {
        let count: usize = match payload.get("options") {
            Some(x) => match x.as_u64() {
                Some(n) => #[verifier::truncate] (n as usize),
                None => 0,
            },
            None => 0,
        };
        let multi = match payload.get("multi") {
            Some(x) => match x.as_bool() {
                Some(b) => b,
                None => false,
            },
            None => false,
        };
        let labels = labels_of(payload);
        match parse_choice(text, count, multi) {
            None => PendingAction::Reprompt(owned("请回复选项编号（多选用逗号分隔）。")),
            Some(idxs) => {
                let picked = pick(&idxs, &labels);
                let ghost pv = sviews(picked@);
                let answers = vec![picked];
                assert(answers_view(answers@) =~= seq![pv]);
                PendingAction::Ask { tool_call_id, answers }
            },
        }
    } else {
        PendingAction::ClearOnly
    }
}

} // verus!
