//! Watchdog decision: which sessions a tick must reconcile.

use vstd::prelude::*;

verus! {

/// Heartbeat staleness threshold: far above the longest legal step, yet catches a real hang.
pub const RUN_STALE_TIMEOUT_MS: u64 = 300000;

/// Interval between two watchdog ticks, in seconds.
pub const WATCHDOG_TICK_SECS: u64 = 30;

/// `out` followed by every element of `extra` that is not yet present (first occurrence kept).
pub open spec fn append_new(out: Seq<Seq<char>>, extra: Seq<Seq<char>>) -> Seq<Seq<char>>
    decreases extra.len(),
{
    if extra.len() == 0 {
        out
    } else if out.contains(extra[0]) {
        append_new(out, extra.drop_first())
    } else {
        append_new(out.push(extra[0]), extra.drop_first())
    }
}

pub open spec fn views(v: Seq<String>) -> Seq<Seq<char>> {
    v.map_values(|s: String| s@)
}

fn contains_string(v: &Vec<String>, s: &String) -> (r: bool)
    ensures
        r == views(v@).contains(s@),
{
    let mut i: usize = 0;
    while i < v.len()
        invariant
            i <= v.len(),
            forall|j: int| 0 <= j < i ==> v@[j]@ != s@,
        decreases v.len() - i,
    {
        if v[i] == *s {
            assert(views(v@)[i as int] == s@);
            return true;
        }
        i = i + 1;
    }
    proof {
        if views(v@).contains(s@) {
            let k = choose|k: int| 0 <= k < views(v@).len() && views(v@)[k] == s@;
            assert(v@[k]@ == s@);
        }
    }
    false
}

/// `out` with every element of `extra` that it does not hold yet appended, in order.
fn push_new(out: &mut Vec<String>, extra: &Vec<String>)
    ensures
        views(final(out)@) == append_new(views(old(out)@), views(extra@)),
{
    let ghost out0 = views(out@);
    let mut i: usize = 0;
    assert(views(extra@).skip(0) =~= views(extra@));
    while i < extra.len()
        invariant
            i <= extra.len(),
            append_new(views(out@), views(extra@).skip(i as int)) == append_new(out0, views(extra@)),
        decreases extra.len() - i,
    {
        let p = extra[i].clone();
        let ghost rest = views(extra@).skip(i as int);
        assert(rest[0] == p@);
        assert(rest.drop_first() == views(extra@).skip(i + 1));
        let ghost before = views(out@);
        assert(append_new(before, rest) == if before.contains(rest[0]) {
            append_new(before, rest.drop_first())
        } else {
            append_new(before.push(rest[0]), rest.drop_first())
        });
        if !contains_string(out, &p) {
            out.push(p);
            assert(views(out@) =~= before.push(p@));
        }
        i = i + 1;
    }
    assert(views(extra@).skip(extra.len() as int) =~= Seq::<Seq<char>>::empty());
}

proof fn lemma_append_new_concat(out: Seq<Seq<char>>, a: Seq<Seq<char>>, b: Seq<Seq<char>>)
    ensures
        append_new(append_new(out, a), b) == append_new(out, a + b),
    decreases a.len(),
{
    if a.len() > 0 {
        assert((a + b).drop_first() =~= a.drop_first() + b);
        assert((a + b)[0] == a[0]);
        let nxt = if out.contains(a[0]) { out } else { out.push(a[0]) };
        lemma_append_new_concat(nxt, a.drop_first(), b);
    } else {
        assert(a + b =~= b);
    }
}

/// Sessions to reconcile on a tick: the stale ones, then the parked orphans, each session
/// once, at its first place (deduplicated, order kept).
pub fn sessions_to_reconcile(stale: Vec<String>, parked_orphans: Vec<String>) -> (r: Vec<String>)
    ensures
        views(r@) == append_new(Seq::empty(), views(stale@) + views(parked_orphans@)),
        views(r@).no_duplicates(),
{
    let mut out: Vec<String> = Vec::new();
    assert(views(out@) =~= Seq::<Seq<char>>::empty());
    push_new(&mut out, &stale);
    push_new(&mut out, &parked_orphans);
    proof {
        lemma_append_new_concat(Seq::empty(), views(stale@), views(parked_orphans@));
        law_reconcile_list_covers_and_dedups(views(stale@), views(parked_orphans@));
    }
    out
}

/// The reconcile list holds every stale session and every parked orphan, nothing else, and
/// each of them once, stale sessions first.
pub proof fn law_reconcile_list_covers_and_dedups(stale: Seq<Seq<char>>, parked_orphans: Seq<Seq<char>>)
    ensures
        ({
            let r = append_new(Seq::empty(), stale + parked_orphans);
            &&& r.no_duplicates()
            &&& forall|x: Seq<char>| #[trigger] r.contains(x) <==> (stale.contains(x) || parked_orphans.contains(x))
            &&& r.take(append_new(Seq::empty(), stale).len() as int) == append_new(Seq::empty(), stale)
        }),
{
    let e = Seq::<Seq<char>>::empty();
    lemma_append_new_concat(e, stale, parked_orphans);
    lemma_append_new(e, stale + parked_orphans);
    lemma_append_new(append_new(e, stale), parked_orphans);
    let r = append_new(e, stale + parked_orphans);
    assert forall|x: Seq<char>| #[trigger] r.contains(x) <==> (stale.contains(x) || parked_orphans.contains(x)) by {
        if stale.contains(x) {
            let k = choose|k: int| 0 <= k < stale.len() && stale[k] == x;
            assert((stale + parked_orphans)[k] == x);
        }
        if parked_orphans.contains(x) {
            let k = choose|k: int| 0 <= k < parked_orphans.len() && parked_orphans[k] == x;
            assert((stale + parked_orphans)[stale.len() + k] == x);
        }
        if (stale + parked_orphans).contains(x) {
            let k = choose|k: int| 0 <= k < (stale + parked_orphans).len() && (stale + parked_orphans)[k] == x;
            if k < stale.len() {
                assert(stale[k] == x);
            } else {
                assert(parked_orphans[k - stale.len()] == x);
            }
        }
    }
}

/// Appending keeps what was there in front, adds each new element once, and adds nothing
/// that is not in `extra`.
proof fn lemma_append_new(out: Seq<Seq<char>>, extra: Seq<Seq<char>>)
    ensures
        out.no_duplicates() ==> append_new(out, extra).no_duplicates(),
        forall|x: Seq<char>| out.contains(x) ==> append_new(out, extra).contains(x),
        forall|x: Seq<char>| extra.contains(x) ==> append_new(out, extra).contains(x),
        forall|x: Seq<char>| append_new(out, extra).contains(x) ==> out.contains(x) || extra.contains(x),
        append_new(out, extra).len() >= out.len(),
        append_new(out, extra).take(out.len() as int) == out,
    decreases extra.len(),
{
    if extra.len() > 0 {
        let nxt = if out.contains(extra[0]) { out } else { out.push(extra[0]) };
        assert(append_new(out, extra) == append_new(nxt, extra.drop_first()));
        lemma_append_new(nxt, extra.drop_first());
        assert forall|x: Seq<char>| out.contains(x) implies append_new(out, extra).contains(x) by {
            let k = choose|k: int| 0 <= k < out.len() && out[k] == x;
            assert(nxt[k] == x);
            assert(nxt.contains(x));
        }
        assert forall|x: Seq<char>| extra.contains(x) implies append_new(out, extra).contains(x) by {
            let k = choose|k: int| 0 <= k < extra.len() && extra[k] == x;
            if k == 0 {
                if out.contains(x) {
                    assert(nxt.contains(x));
                } else {
                    assert(nxt[out.len() as int] == x);
                    assert(nxt.contains(x));
                }
            } else {
                assert(extra.drop_first()[k - 1] == x);
                assert(extra.drop_first().contains(x));
            }
        }
        assert forall|x: Seq<char>| append_new(out, extra).contains(x) implies out.contains(x) || extra.contains(x) by {
            if nxt.contains(x) {
                let k = choose|k: int| 0 <= k < nxt.len() && nxt[k] == x;
                if k < out.len() {
                    assert(out[k] == x);
                } else {
                    assert(extra[0] == x);
                }
            } else {
                let k = choose|k: int| 0 <= k < extra.drop_first().len() && extra.drop_first()[k] == x;
                assert(extra[k + 1] == x);
            }
        }
        let r = append_new(out, extra);
        assert(r.take(nxt.len() as int) == nxt);
        assert forall|j: int| 0 <= j < out.len() implies r.take(out.len() as int)[j] == out[j] by {
            assert(r.take(nxt.len() as int)[j] == nxt[j]);
        }
        assert(r.take(out.len() as int) =~= out);
    } else {
        assert(out.take(out.len() as int) =~= out);
    }
}

} // verus!
