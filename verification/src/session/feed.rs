//! Reading a session's feed: the pending tool call of a paused run, and the summary a
//! parent collects from its background children.

use vstd::prelude::*;

use crate::json::{jget, jstr, jview, jviews, lemma_jviews, Json, JsonView};
use crate::session::types::{Message, SessionInfo};
use crate::text::{chars_of, extend_chars, owned, str_eq, string_of, trim, trim_bounds, sviews, contains_string};

verus! {

/// The message that carries the tool calls of the current round: an assistant message
/// whose tool-call list is not blank.
pub open spec fn is_anchor(m: Message) -> bool {
    m.role@ == "assistant"@ && match m.tool_calls_json {
        Some(j) => trim(j@).len() > 0,
        None => false,
    }
}

fn is_anchor_exec(m: &Message) -> (r: bool)
    ensures
        r == is_anchor(*m),
{
    if !str_eq(m.role.as_str(), "assistant") {
        return false;
    }
    match &m.tool_calls_json {
        Some(j) => {
            let v = chars_of(j.as_str());
            let (a, b) = trim_bounds(&v, 0, v.len());
            assert(v@.subrange(0, v@.len() as int) =~= v@);
            a < b
        },
        None => false,
    }
}

/// Index of the last anchor message.
pub fn tool_call_anchor(messages: &Vec<Message>) -> (r: Option<usize>)
    ensures
        match r {
            Some(i) => i < messages.len() && is_anchor(messages@[i as int]) && forall|j: int|
                i < j < messages.len() ==> !is_anchor(#[trigger] messages@[j]),
            None => forall|j: int| 0 <= j < messages.len() ==> !is_anchor(#[trigger] messages@[j]),
        },
{
    let mut i = messages.len();
    while i > 0
        invariant
            i <= messages.len(),
            forall|j: int| i <= j < messages.len() ==> !is_anchor(#[trigger] messages@[j]),
        decreases i,
    {
        if is_anchor_exec(&messages[i - 1]) {
            return Some(i - 1);
        }
        i = i - 1;
    }
    None
}

pub open spec fn call_list(calls: JsonView) -> Seq<JsonView> {
    match calls {
        JsonView::Array(xs) => xs,
        _ => Seq::empty(),
    }
}

pub open spec fn field_or_empty(c: JsonView, key: Seq<char>) -> Seq<char> {
    match jget(c, key) {
        Some(x) => match jstr(x) {
            Some(s) => s,
            None => Seq::empty(),
        },
        None => Seq::empty(),
    }
}

/// The name of the first call with id `id` (empty when it has none).
pub open spec fn name_of_call(cs: Seq<JsonView>, id: Seq<char>) -> Option<Seq<char>>
    decreases cs.len(),
{
    if cs.len() == 0 {
        None
    } else if field_or_empty(cs[0], "id"@) == id {
        Some(field_or_empty(cs[0], "name"@))
    } else {
        name_of_call(cs.drop_first(), id)
    }
}

fn field_string(c: &Json, key: &str) -> (r: String)
    ensures
        r@ == field_or_empty(c@, key@),
{
    match c.get(key) {
        Some(x) => match x.as_str() {
            Some(s) => owned(s),
            None => String::new(),
        },
        None => String::new(),
    }
}

/// The tool name of call `tool_call_id` in the anchor's tool-call list `calls` (a list
/// that is not an array holds no call).
pub fn pending_tool_name(calls: &Json, tool_call_id: &str) -> (r: Option<String>)
    ensures
        match r {
            Some(n) => name_of_call(call_list(calls@), tool_call_id@) == Some(n@),
            None => name_of_call(call_list(calls@), tool_call_id@) is None,
        },
{
    let cs = match calls {
        Json::Array(cs) => cs,
        _ => return None,
    };
    let ghost cv = jviews(cs@);
    proof {
        lemma_jviews(cs@);
    }
    assert(cv.skip(0) =~= cv);
    assert(call_list(calls@) == cv);
    let mut i: usize = 0;
    while i < cs.len()
        invariant
            i <= cs.len(),
            cv == jviews(cs@),
            call_list(calls@) == cv,
            cv.len() == cs.len(),
            forall|q: int| 0 <= q < cs.len() ==> #[trigger] cv[q] == jview(cs@[q]),
            name_of_call(cv, tool_call_id@) == name_of_call(cv.skip(i as int), tool_call_id@),
        decreases cs.len() - i,
    {
        assert(cv.skip(i as int)[0] == cv[i as int]);
        assert(cv.skip(i as int).drop_first() =~= cv.skip(i + 1));
        let id = field_string(&cs[i], "id");
        if str_eq(id.as_str(), tool_call_id) {
            return Some(field_string(&cs[i], "name"));
        }
        i = i + 1;
    }
    None
}

/// The first call with a non-empty id that has no result yet, as `(id, name)`.
pub open spec fn first_unanswered(cs: Seq<JsonView>, answered: Seq<Seq<char>>) -> Option<(Seq<char>, Seq<char>)>
    decreases cs.len(),
{
    if cs.len() == 0 {
        None
    } else {
        let id = field_or_empty(cs[0], "id"@);
        if id.len() == 0 || answered.contains(id) {
            first_unanswered(cs.drop_first(), answered)
        } else {
            Some((id, field_or_empty(cs[0], "name"@)))
        }
    }
}


/// The dangling tool call of a paused run: the first call of the anchor without a result
/// (`answered` lists the ids that have one).
pub fn first_dangling_tool_call(calls: &Json, answered: &Vec<String>) -> (r: Option<(String, String)>)
    ensures
        match r {
            Some((id, name)) => first_unanswered(call_list(calls@), sviews(answered@)) == Some((id@, name@)),
            None => first_unanswered(call_list(calls@), sviews(answered@)) is None,
        },
{
    let cs = match calls {
        Json::Array(cs) => cs,
        _ => return None,
    };
    let ghost cv = jviews(cs@);
    proof {
        lemma_jviews(cs@);
    }
    assert(cv.skip(0) =~= cv);
    assert(call_list(calls@) == cv);
    let mut i: usize = 0;
    while i < cs.len()
        invariant
            i <= cs.len(),
            cv == jviews(cs@),
            call_list(calls@) == cv,
            cv.len() == cs.len(),
            forall|q: int| 0 <= q < cs.len() ==> #[trigger] cv[q] == jview(cs@[q]),
            first_unanswered(cv, sviews(answered@)) == first_unanswered(cv.skip(i as int), sviews(answered@)),
        decreases cs.len() - i,
    {
        assert(cv.skip(i as int)[0] == cv[i as int]);
        assert(cv.skip(i as int).drop_first() =~= cv.skip(i + 1));
        let id = field_string(&cs[i], "id");
        if id.as_str().unicode_len() > 0 && !contains_string(answered, id.as_str()) {
            let name = field_string(&cs[i], "name");
            return Some((id, name));
        }
        i = i + 1;
    }
    None
}

// ---------------------------------------------------------------- collect summary

/// What a collect found for one handle.
#[derive(Debug)]
pub enum CollectChild {
    /// No child was dispatched under the handle.
    Missing,
    /// The child has no outcome yet.
    Running { child_id: String, expert_name: Option<String> },
    /// The child ended with `outcome`; `last_text` is what it last said.
    Finished { child_id: String, expert_name: Option<String>, outcome: String, last_text: Option<String> },
}

pub open spec fn name_or_default(n: Option<String>) -> Seq<char> {
    match n {
        Some(s) => s@,
        None => "专家"@,
    }
}

pub open spec fn outcome_label(o: Seq<char>) -> Seq<char> {
    if o == "failed"@ {
        "失败"@
    } else if o == "cancelled"@ {
        "已取消"@
    } else {
        "完成"@
    }
}

/// The block of one handle in the collect result.
pub open spec fn collect_block(handle: Seq<char>, c: CollectChild) -> Seq<char> {
    match c {
        CollectChild::Missing => "【handle="@ + handle + "】未找到对应子代理。"@,
        CollectChild::Running { expert_name, .. } => "【"@ + name_or_default(expert_name) + "】仍在运行（handle="@
            + handle + "）。"@,
        CollectChild::Finished { expert_name, outcome, last_text, .. } => "【"@ + name_or_default(expert_name)
            + "】("@ + outcome_label(outcome@) + ")\n"@ + match last_text {
            Some(t) => t@,
            None => "（无文本产出）"@,
        },
    }
}

/// Blocks joined by a separator line.
pub open spec fn join_blocks(b: Seq<Seq<char>>) -> Seq<char>
    decreases b.len(),
{
    if b.len() == 0 {
        Seq::empty()
    } else if b.len() == 1 {
        b[0]
    } else {
        join_blocks(b.drop_last()) + "\n\n---\n\n"@ + b.last()
    }
}

pub open spec fn blocks_of(handles: Seq<Seq<char>>, cs: Seq<CollectChild>) -> Seq<Seq<char>> {
    Seq::new(handles.len(), |i: int| collect_block(handles[i], cs[i]))
}

/// Ids of the finished children, in handle order.
pub open spec fn finished_ids(cs: Seq<CollectChild>) -> Seq<Seq<char>>
    decreases cs.len(),
{
    if cs.len() == 0 {
        Seq::empty()
    } else {
        let rest = finished_ids(cs.drop_last());
        match cs.last() {
            CollectChild::Finished { child_id, .. } => rest.push(child_id@),
            _ => rest,
        }
    }
}

/// Ids of the children still running, in handle order.
pub open spec fn running_ids(cs: Seq<CollectChild>) -> Seq<Seq<char>>
    decreases cs.len(),
{
    if cs.len() == 0 {
        Seq::empty()
    } else {
        let rest = running_ids(cs.drop_last());
        match cs.last() {
            CollectChild::Running { child_id, .. } => rest.push(child_id@),
            _ => rest,
        }
    }
}

fn block_of(handle: &str, c: &CollectChild) -> (r: String)
    ensures
        r@ == collect_block(handle@, *c),
{
    let mut out: Vec<char>;
    match c {
        CollectChild::Missing => {
            out = chars_of("【handle=");
            extend_chars(&mut out, &chars_of(handle));
            extend_chars(&mut out, &chars_of("】未找到对应子代理。"));
        },
        CollectChild::Running { expert_name, .. } => {
            out = chars_of("【");
            let n = match expert_name {
                Some(s) => s.as_str(),
                None => "专家",
            };
            extend_chars(&mut out, &chars_of(n));
            extend_chars(&mut out, &chars_of("】仍在运行（handle="));
            extend_chars(&mut out, &chars_of(handle));
            extend_chars(&mut out, &chars_of("）。"));
        },
        CollectChild::Finished { expert_name, outcome, last_text, .. } => {
            out = chars_of("【");
            let n = match expert_name {
                Some(s) => s.as_str(),
                None => "专家",
            };
            extend_chars(&mut out, &chars_of(n));
            extend_chars(&mut out, &chars_of("】("));
            let label = if str_eq(outcome.as_str(), "failed") {
                "失败"
            } else if str_eq(outcome.as_str(), "cancelled") {
                "已取消"
            } else {
                "完成"
            };
            extend_chars(&mut out, &chars_of(label));
            extend_chars(&mut out, &chars_of(")\n"));
            let t = match last_text {
                Some(s) => s.as_str(),
                None => "（无文本产出）",
            };
            extend_chars(&mut out, &chars_of(t));
        },
    }
    string_of(&out)
}

/// The collect result for `handles` (each with what was found for it): one block per
/// handle joined by separator lines, then the finished and the running children.
pub fn collect_summary(handles: &Vec<String>, children: &Vec<CollectChild>) -> (r: (String, Vec<String>, Vec<String>))
    requires
        handles.len() == children.len(),
    ensures
        r.0@ == join_blocks(blocks_of(sviews(handles@), children@)),
        sviews(r.1@) == finished_ids(children@),
        sviews(r.2@) == running_ids(children@),
{
    let ghost hv = sviews(handles@);
    let mut text: Vec<char> = Vec::new();
    let mut terminal: Vec<String> = Vec::new();
    let mut running: Vec<String> = Vec::new();
    let mut i: usize = 0;
    assert(children@.take(0) =~= Seq::<CollectChild>::empty());
    assert(blocks_of(hv, children@).take(0) =~= Seq::<Seq<char>>::empty());
    while i < handles.len()
        invariant
            i <= handles.len(),
            handles.len() == children.len(),
            hv == sviews(handles@),
            text@ == join_blocks(blocks_of(hv, children@).take(i as int)),
            sviews(terminal@) == finished_ids(children@.take(i as int)),
            sviews(running@) == running_ids(children@.take(i as int)),
        decreases handles.len() - i,
    {
        let ghost bl = blocks_of(hv, children@);
        assert(bl.take(i + 1).drop_last() =~= bl.take(i as int));
        assert(children@.take(i + 1).drop_last() =~= children@.take(i as int));
        assert(children@.take(i + 1).last() == children@[i as int]);
        let block = block_of(handles[i].as_str(), &children[i]);
        assert(block@ == bl[i as int]);
        let ghost before = text@;
        if i > 0 {
            extend_chars(&mut text, &chars_of("\n\n---\n\n"));
        }
        extend_chars(&mut text, &chars_of(block.as_str()));
        if i == 0 {
            assert(bl.take(1) =~= seq![bl[0]]);
            assert(text@ =~= bl[0]);
        } else {
            assert(text@ =~= before + "\n\n---\n\n"@ + bl[i as int]);
        }
        match &children[i] {
            CollectChild::Finished { child_id, .. } => {
                let ghost tb = sviews(terminal@);
                terminal.push(child_id.clone());
                assert(sviews(terminal@) =~= tb.push(child_id@));
            },
            CollectChild::Running { child_id, .. } => {
                let ghost rb = sviews(running@);
                running.push(child_id.clone());
                assert(sviews(running@) =~= rb.push(child_id@));
            },
            CollectChild::Missing => {},
        }
        i = i + 1;
    }
    assert(blocks_of(hv, children@).take(handles.len() as int) =~= blocks_of(hv, children@));
    assert(children@.take(handles.len() as int) =~= children@);
    (string_of(&text), terminal, running)
}

// ---------------------------------------------------------------- stopped dispatches

/// Whether tool call `c` has the id `id`.
pub open spec fn call_has_id(c: JsonView, id: Seq<char>) -> bool {
    match jget(c, "id"@) {
        Some(x) => jstr(x) == Some(id),
        None => false,
    }
}

pub open spec fn calls_have_id(calls: JsonView, id: Seq<char>) -> bool {
    exists|j: int| 0 <= j < call_list(calls).len() && #[trigger] call_has_id(call_list(calls)[j], id)
}

fn calls_have_id_exec(calls: &Json, id: &str) -> (r: bool)
    ensures
        r == calls_have_id(calls@, id@),
{
    let cs = match calls {
        Json::Array(cs) => cs,
        _ => return false,
    };
    let ghost cv = jviews(cs@);
    proof {
        lemma_jviews(cs@);
    }
    assert(call_list(calls@) == cv);
    let mut i: usize = 0;
    while i < cs.len()
        invariant
            i <= cs.len(),
            cv == jviews(cs@),
            call_list(calls@) == cv,
            cv.len() == cs.len(),
            forall|q: int| 0 <= q < cs.len() ==> #[trigger] cv[q] == jview(cs@[q]),
            forall|q: int| 0 <= q < i ==> !#[trigger] call_has_id(cv[q], id@),
        decreases cs.len() - i,
    {
        assert(cv[i as int] == cs@[i as int]@);
        let hit = match cs[i].get("id") {
            Some(x) => match x.as_str() {
                Some(t) => str_eq(t, id),
                None => false,
            },
            None => false,
        };
        if hit {
            assert(call_has_id(cv[i as int], id@));
            return true;
        }
        i = i + 1;
    }
    false
}

/// Whether `r` (a message with its parsed tool-call list) is the round that dispatched
/// tool call `id`.
pub open spec fn dispatches(r: (Message, Json), id: Seq<char>) -> bool {
    is_anchor(r.0) && calls_have_id(r.1@, id)
}

/// The round that dispatched tool call `tool_call_id`: the id of the first assistant
/// message whose tool-call list holds it. Each message comes with its tool-call list as
/// parsed (a list that did not parse is `Null`).
pub fn dispatch_round(rounds: &Vec<(Message, Json)>, tool_call_id: &str) -> (r: Option<String>)
    ensures
        match r {
            Some(mid) => exists|k: int|
                0 <= k < rounds.len() && #[trigger] dispatches(rounds@[k], tool_call_id@) && mid@ == rounds@[k].0.id@
                    && forall|j: int| 0 <= j < k ==> !#[trigger] dispatches(rounds@[j], tool_call_id@),
            None => forall|k: int| 0 <= k < rounds.len() ==> !#[trigger] dispatches(rounds@[k], tool_call_id@),
        },
{
    let mut i: usize = 0;
    while i < rounds.len()
        invariant
            i <= rounds.len(),
            forall|j: int| 0 <= j < i ==> !#[trigger] dispatches(rounds@[j], tool_call_id@),
        decreases rounds.len() - i,
    {
        let (m, calls) = &rounds[i];
        if is_anchor_exec(m) && calls_have_id_exec(calls, tool_call_id) {
            assert(dispatches(rounds@[i as int], tool_call_id@));
            return Some(m.id.clone());
        }
        i = i + 1;
    }
    None
}

/// The result written for a dispatch whose child was stopped: what the child had said so
/// far, or a note that it produced nothing.
pub open spec fn spec_stopped_dispatch_summary(partial: Option<String>) -> Seq<char> {
    let p = match partial {
        Some(t) => t@,
        None => Seq::empty(),
    };
    if trim(p).len() == 0 {
        "（用户已停止，子代理无产出）"@
    } else {
        "（用户已停止该子代理）此前进展：\n"@ + p
    }
}

pub fn stopped_dispatch_summary(partial: Option<String>) -> (r: String)
    ensures
        r@ == spec_stopped_dispatch_summary(partial),
{
    let p = match partial {
        Some(t) => t,
        None => String::new(),
    };
    let v = chars_of(p.as_str());
    let (a, b) = trim_bounds(&v, 0, v.len());
    assert(v@.subrange(0, v@.len() as int) =~= v@);
    if a == b {
        owned("（用户已停止，子代理无产出）")
    } else {
        let mut out = chars_of("（用户已停止该子代理）此前进展：\n");
        extend_chars(&mut out, &v);
        string_of(&out)
    }
}

/// The dispatches that stopping a parked parent answers, in order, as
/// `(child id, tool call id)`: each dispatched child whose tool call has no result yet.
/// Answering one gives its call a result, so a later child of the same call is passed over.
pub open spec fn spec_backfill(cs: Seq<SessionInfo>, answered: Seq<Seq<char>>) -> Seq<(Seq<char>, Seq<char>)>
    decreases cs.len(),
{
    if cs.len() == 0 {
        Seq::empty()
    } else {
        let c = cs[0];
        match c.parent_tool_call_id {
            Some(tc) => if c.origin@ == "subagent"@ && !answered.contains(tc@) {
                seq![(c.id@, tc@)] + spec_backfill(cs.drop_first(), answered.push(tc@))
            } else {
                spec_backfill(cs.drop_first(), answered)
            },
            None => spec_backfill(cs.drop_first(), answered),
        }
    }
}

/// The tool calls a backfill answers.
pub open spec fn answered_calls(r: Seq<(Seq<char>, Seq<char>)>) -> Seq<Seq<char>> {
    r.map_values(|p: (Seq<char>, Seq<char>)| p.1)
}

proof fn lemma_backfill_covered(cs: Seq<SessionInfo>, a: Seq<Seq<char>>, b: Seq<Seq<char>>)
    requires
        forall|x: Seq<char>| a.contains(x) ==> b.contains(x),
        forall|x: Seq<char>| answered_calls(spec_backfill(cs, a)).contains(x) ==> b.contains(x),
    ensures
        spec_backfill(cs, b) == Seq::<(Seq<char>, Seq<char>)>::empty(),
    decreases cs.len(),
{
    if cs.len() > 0 {
        let c = cs[0];
        let r = spec_backfill(cs, a);
        match c.parent_tool_call_id {
            Some(tc) => {
                if c.origin@ == "subagent"@ && !a.contains(tc@) {
                    let r2 = spec_backfill(cs.drop_first(), a.push(tc@));
                    assert(r == seq![(c.id@, tc@)] + r2);
                    assert(answered_calls(r)[0] == tc@);
                    assert(b.contains(tc@));
                    assert forall|x: Seq<char>| a.push(tc@).contains(x) implies b.contains(x) by {
                        if x != tc@ {
                            let k = choose|k: int| 0 <= k < a.push(tc@).len() && a.push(tc@)[k] == x;
                            assert(k < a.len());
                            assert(a[k] == x);
                            assert(a.contains(x));
                        }
                    }
                    assert forall|x: Seq<char>| answered_calls(r2).contains(x) implies b.contains(x) by {
                        let k = choose|k: int| 0 <= k < answered_calls(r2).len() && answered_calls(r2)[k] == x;
                        assert(answered_calls(r)[k + 1] == x);
                    }
                    lemma_backfill_covered(cs.drop_first(), a.push(tc@), b);
                } else {
                    lemma_backfill_covered(cs.drop_first(), a, b);
                }
            },
            None => {
                lemma_backfill_covered(cs.drop_first(), a, b);
            },
        }
    }
}

proof fn lemma_backfill_fresh(cs: Seq<SessionInfo>, a: Seq<Seq<char>>)
    ensures
        forall|i: int| 0 <= i < spec_backfill(cs, a).len() ==> !a.contains(#[trigger] spec_backfill(cs, a)[i].1),
        forall|i: int, j: int|
            0 <= i < j < spec_backfill(cs, a).len() ==> #[trigger] spec_backfill(cs, a)[i].1
                != #[trigger] spec_backfill(cs, a)[j].1,
    decreases cs.len(),
{
    if cs.len() > 0 {
        let c = cs[0];
        match c.parent_tool_call_id {
            Some(tc) => {
                if c.origin@ == "subagent"@ && !a.contains(tc@) {
                    let a2 = a.push(tc@);
                    lemma_backfill_fresh(cs.drop_first(), a2);
                    let r2 = spec_backfill(cs.drop_first(), a2);
                    let r = spec_backfill(cs, a);
                    assert(r == seq![(c.id@, tc@)] + r2);
                    assert forall|i: int| 0 <= i < r2.len() implies !a.contains(#[trigger] r2[i].1) && r2[i].1 != tc@ by {
                        assert(!a2.contains(r2[i].1));
                        if a.contains(r2[i].1) {
                            let k = choose|k: int| 0 <= k < a.len() && a[k] == r2[i].1;
                            assert(a2[k] == r2[i].1);
                        }
                        assert(a2[a.len() as int] == tc@);
                    }
                    assert forall|i: int| 0 <= i < r.len() implies !a.contains(#[trigger] r[i].1) by {
                        if i > 0 {
                            assert(r[i] == r2[i - 1]);
                        }
                    }
                    assert forall|i: int, j: int| 0 <= i < j < r.len() implies #[trigger] r[i].1 != #[trigger] r[j].1 by {
                        assert(r[j] == r2[j - 1]);
                        if i > 0 {
                            assert(r[i] == r2[i - 1]);
                        }
                    }
                } else {
                    lemma_backfill_fresh(cs.drop_first(), a);
                    assert(spec_backfill(cs, a) == spec_backfill(cs.drop_first(), a));
                }
            },
            None => {
                lemma_backfill_fresh(cs.drop_first(), a);
                assert(spec_backfill(cs, a) == spec_backfill(cs.drop_first(), a));
            },
        }
    }
}

/// Stopping a parked parent answers each open dispatch exactly once: no call that had a
/// result is answered again, no call is answered twice, and a second stop, which sees the
/// results the first one wrote, answers nothing.
pub proof fn law_backfill_answers_each_call_once(children: Seq<SessionInfo>, answered: Seq<Seq<char>>)
    ensures
        forall|i: int|
            0 <= i < spec_backfill(children, answered).len() ==> !answered.contains(
                #[trigger] spec_backfill(children, answered)[i].1,
            ),
        forall|i: int, j: int|
            0 <= i < j < spec_backfill(children, answered).len() ==> #[trigger] spec_backfill(children, answered)[i].1
                != #[trigger] spec_backfill(children, answered)[j].1,
        spec_backfill(children, answered + answered_calls(spec_backfill(children, answered))) == Seq::<
            (Seq<char>, Seq<char>),
        >::empty(),
{
    lemma_backfill_fresh(children, answered);
    let t = answered_calls(spec_backfill(children, answered));
    let b = answered + t;
    assert forall|x: Seq<char>| answered.contains(x) implies b.contains(x) by {
        let k = choose|k: int| 0 <= k < answered.len() && answered[k] == x;
        assert(b[k] == x);
    }
    assert forall|x: Seq<char>| t.contains(x) implies b.contains(x) by {
        let k = choose|k: int| 0 <= k < t.len() && t[k] == x;
        assert(b[answered.len() + k] == x);
    }
    lemma_backfill_covered(children, answered, b);
}

pub open spec fn id_pairs(v: Seq<(String, String)>) -> Seq<(Seq<char>, Seq<char>)> {
    v.map_values(|p: (String, String)| (p.0@, p.1@))
}

/// Only a parent parked on a dispatch has calls to answer; `answered` lists the tool calls
/// of the parent that already have a result.
pub fn dispatches_to_backfill(parent_awaiting: bool, children: &Vec<SessionInfo>, answered: &Vec<String>) -> (r: Vec<(String, String)>)
    ensures
        id_pairs(r@) == (if parent_awaiting {
            spec_backfill(children@, sviews(answered@))
        } else {
            Seq::empty()
        }),
{
    let mut r: Vec<(String, String)> = Vec::new();
    if !parent_awaiting {
        assert(id_pairs(r@) =~= Seq::empty());
        return r;
    }
    let mut ans: Vec<String> = Vec::new();
    let mut k: usize = 0;
    while k < answered.len()
        invariant
            k <= answered.len(),
            sviews(ans@) == sviews(answered@.subrange(0, k as int)),
        decreases answered.len() - k,
    {
        ans.push(answered[k].clone());
        assert(sviews(answered@.subrange(0, k + 1)) =~= sviews(answered@.subrange(0, k as int)).push(answered@[k as int]@));
        assert(sviews(ans@) =~= sviews(answered@.subrange(0, k + 1)));
        k = k + 1;
    }
    assert(answered@.subrange(0, answered@.len() as int) =~= answered@);
    assert(children@.skip(0) =~= children@);
    assert(id_pairs(r@) =~= Seq::empty());
    let mut i: usize = 0;
    while i < children.len()
        invariant
            i <= children.len(),
            id_pairs(r@) + spec_backfill(children@.skip(i as int), sviews(ans@)) == spec_backfill(children@, sviews(answered@)),
        decreases children.len() - i,
    {
        let c = &children[i];
        let ghost rest = children@.skip(i as int);
        assert(rest[0] == children@[i as int]);
        assert(rest.drop_first() =~= children@.skip(i + 1));
        match &c.parent_tool_call_id {
            Some(tc) => {
                if str_eq(c.origin.as_str(), "subagent") && !contains_string(&ans, tc.as_str()) {
                    let ghost r0 = r@;
                    let ghost a0 = ans@;
                    r.push((c.id.clone(), tc.clone()));
                    ans.push(tc.clone());
                    assert(id_pairs(r@) =~= id_pairs(r0).push((c.id@, tc@)));
                    assert(sviews(ans@) =~= sviews(a0).push(tc@));
                    assert(id_pairs(r0).push((c.id@, tc@)) + spec_backfill(children@.skip(i + 1), sviews(ans@))
                        =~= id_pairs(r0) + (seq![(c.id@, tc@)] + spec_backfill(children@.skip(i + 1), sviews(ans@))));
                }
            },
            None => {},
        }
        i = i + 1;
    }
    assert(children@.skip(children@.len() as int) =~= Seq::<SessionInfo>::empty());
    assert(id_pairs(r@) + Seq::empty() =~= id_pairs(r@));
    r
}

// ---------------------------------------------------------------- compaction

/// The messages of `s` not yet absorbed into a compaction summary, in order.
pub open spec fn uncompacted(s: Seq<Message>) -> Seq<Message>
    decreases s.len(),
{
    if s.len() == 0 {
        s
    } else {
        let rest = uncompacted(s.subrange(1, s.len() as int));
        if s[0].compacted {
            rest
        } else {
            seq![s[0]] + rest
        }
    }
}

proof fn lemma_uncompacted_skips(s: Seq<Message>)
    ensures
        forall|i: int| 0 <= i < uncompacted(s).len() ==> !(#[trigger] uncompacted(s)[i]).compacted,
    decreases s.len(),
{
    if s.len() > 0 {
        let rest = s.subrange(1, s.len() as int);
        lemma_uncompacted_skips(rest);
        if !s[0].compacted {
            assert forall|i: int| 0 <= i < uncompacted(s).len() implies !(#[trigger] uncompacted(s)[i]).compacted by {
                if i > 0 {
                    assert(uncompacted(s)[i] == uncompacted(rest)[i - 1]);
                }
            }
        }
    }
}

pub open spec fn compact_cutoff(len: nat, keep_recent: nat) -> nat {
    if keep_recent >= len {
        0
    } else {
        (len - keep_recent) as nat
    }
}

/// The messages a compaction summarises: all but the last `keep_recent`, leaving out those
/// an earlier compaction absorbed.
pub fn messages_to_compact(all: Vec<Message>, keep_recent: usize) -> (r: Vec<Message>)
    ensures
        r@ == uncompacted(all@.subrange(0, compact_cutoff(all@.len(), keep_recent as nat) as int)),
        forall|i: int| 0 <= i < r.len() ==> !(#[trigger] r@[i]).compacted,
{
    let cutoff = if keep_recent >= all.len() {
        0
    } else {
        all.len() - keep_recent
    };
    let ghost whole = all@;
    let mut rest = all;
    rest.truncate(cutoff);
    let ghost start = rest@;
    let ghost target = uncompacted(start);
    assert(rest@ =~= whole.subrange(0, cutoff as int));
    let mut r: Vec<Message> = Vec::new();
    assert(r@ + uncompacted(rest@) =~= target);
    while rest.len() > 0
        invariant
            r@ + uncompacted(rest@) == target,
        decreases rest.len(),
    {
        let ghost before = rest@;
        let m = rest.remove(0);
        assert(rest@ =~= before.subrange(1, before.len() as int));
        if !m.compacted {
            let ghost r0 = r@;
            r.push(m);
            assert(r@ + uncompacted(rest@) =~= r0 + (seq![before[0]] + uncompacted(rest@)));
        }
    }
    assert(r@ + uncompacted(rest@) =~= r@);
    proof {
        lemma_uncompacted_skips(start);
        assert(uncompacted(rest@) =~= Seq::<Message>::empty());
        assert(r@ == target);
    }
    r
}

} // verus!
