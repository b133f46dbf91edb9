//! Which listeners a request concerns, and which processes a kill signals.

use vstd::prelude::*;

use crate::model::{filter_admits, Listener, Proto, ProtoFilter};
use crate::{Query, Request};

verus! {

broadcast use {vstd::std_specs::btree::group_btree_axioms, vstd::laws_cmp::group_laws_cmp};

/// Whether a query concerns a port.
pub open spec fn query_admits(q: Query, port: u16) -> bool {
    match q {
        Query::Port(p) => port == p,
        Query::All => true,
    }
}

/// Whether a request concerns a listener: its protocol passes the filter and its
/// port is the one asked for.
pub open spec fn selected(req: Request, l: Listener) -> bool {
    filter_admits(req.proto, l.proto) && query_admits(req.query, l.port)
}

/// The listeners a request concerns, in their original order.
pub open spec fn select(ls: Seq<Listener>, req: Request) -> Seq<Listener>
    decreases ls.len(),
{
    if ls.len() == 0 {
        Seq::empty()
    } else {
        let rest = select(ls.drop_last(), req);
        if selected(req, ls.last()) {
            rest.push(ls.last())
        } else {
            rest
        }
    }
}

/// The pids that some listener visibly belongs to.
pub open spec fn pids_of(ls: Seq<Listener>) -> Set<u32> {
    Set::new(|p: u32| exists|i: int| 0 <= i < ls.len() && #[trigger] ls[i].pid == Some(p))
}

/// A process to signal: its pid and the process name of its first listener.
pub type Target = (u32, Option<String>);

/// The processes to signal for a set of listeners: each visible pid once, in the
/// order of its first listener, with that listener's process name.
pub open spec fn targets(ls: Seq<Listener>) -> Seq<Target>
    decreases ls.len(),
{
    if ls.len() == 0 {
        Seq::empty()
    } else {
        let rest = targets(ls.drop_last());
        match ls.last().pid {
            Some(p) => if pids_of(ls.drop_last()).contains(p) {
                rest
            } else {
                rest.push((p, ls.last().process))
            },
            None => rest,
        }
    }
}

/// The pids of a sequence of targets.
pub open spec fn target_pids(ts: Seq<Target>) -> Seq<u32> {
    ts.map_values(|t: Target| t.0)
}

/// The listeners a request concerns are exactly those of the input that pass its
/// protocol filter and port query: each selected one passes, each one that passes is
/// selected, and nothing else is added.
pub proof fn lemma_select_exact(ls: Seq<Listener>, req: Request)
    ensures
        select(ls, req).len() <= ls.len(),
        forall|k: int| 0 <= k < select(ls, req).len() ==> selected(req, #[trigger] select(ls, req)[k]),
        forall|k: int| 0 <= k < select(ls, req).len() ==> ls.contains(#[trigger] select(ls, req)[k]),
        forall|i: int| 0 <= i < ls.len() && selected(req, #[trigger] ls[i]) ==> select(ls, req).contains(ls[i]),
    decreases ls.len(),
{
    if ls.len() > 0 {
        let d = ls.drop_last();
        lemma_select_exact(d, req);
        let rest = select(d, req);
        let m = select(ls, req);
        assert forall|k: int| 0 <= k < m.len() implies ls.contains(#[trigger] m[k]) by {
            if k < rest.len() {
                assert(m[k] == rest[k]);
                assert(d.contains(rest[k]));
                let j = choose|j: int| 0 <= j < d.len() && d[j] == rest[k];
                assert(ls[j] == d[j]);
            } else {
                assert(ls[ls.len() - 1] == m[k]);
            }
        }
        assert forall|k: int| 0 <= k < m.len() implies selected(req, #[trigger] m[k]) by {
            if k < rest.len() {
                assert(m[k] == rest[k]);
            }
        }
        assert forall|i: int| 0 <= i < ls.len() && selected(req, #[trigger] ls[i]) implies m.contains(ls[i]) by {
            if i < d.len() {
                assert(d[i] == ls[i]);
                assert(rest.contains(d[i]));
                let k = choose|k: int| 0 <= k < rest.len() && rest[k] == d[i];
                assert(m[k] == rest[k]);
            } else {
                assert(m[m.len() - 1] == ls[i]);
            }
        }
    }
}

/// The protocol filter applies to every query, listing included: each selected
/// listener has the filter's protocol (any protocol for `All`) and, for a port query,
/// that port; each listener of the input meeting both is selected; and nothing is
/// selected that was not in the input.
pub proof fn lemma_select_honours_filter(ls: Seq<Listener>, req: Request)
    ensures
        forall|k: int|
            0 <= k < select(ls, req).len() ==> {
                &&& req.proto == ProtoFilter::Tcp ==> (#[trigger] select(ls, req)[k]).proto
                    == Proto::Tcp
                &&& req.proto == ProtoFilter::Udp ==> select(ls, req)[k].proto == Proto::Udp
                &&& req.query is Port ==> select(ls, req)[k].port == req.query->Port_0
                &&& ls.contains(select(ls, req)[k])
            },
        forall|i: int|
            0 <= i < ls.len() && (req.proto == ProtoFilter::Tcp ==> ls[i].proto == Proto::Tcp) && (
            req.proto == ProtoFilter::Udp ==> ls[i].proto == Proto::Udp) && (req.query is Port
                ==> ls[i].port == req.query->Port_0) ==> select(ls, req).contains(#[trigger] ls[i]),
{
    lemma_select_exact(ls, req);
    let m = select(ls, req);
    assert forall|i: int|
        0 <= i < ls.len() && (req.proto == ProtoFilter::Tcp ==> ls[i].proto == Proto::Tcp) && (
        req.proto == ProtoFilter::Udp ==> ls[i].proto == Proto::Udp) && (req.query is Port
            ==> ls[i].port == req.query->Port_0) implies m.contains(#[trigger] ls[i]) by {
        assert(selected(req, ls[i]));
    }
}

/// Whether a listener passes a request's protocol filter and port query, spelled
/// out case by case.
pub open spec fn passes(req: Request, l: Listener) -> bool {
    &&& req.proto == ProtoFilter::Tcp ==> l.proto == Proto::Tcp
    &&& req.proto == ProtoFilter::Udp ==> l.proto == Proto::Udp
    &&& req.query is Port ==> l.port == req.query->Port_0
}

/// The listeners a request concerns are the input filtered by its protocol and port,
/// in the input's order.
pub proof fn lemma_select_is_filter(ls: Seq<Listener>, req: Request)
    ensures
        select(ls, req) == ls.filter(|l: Listener| passes(req, l)),
    decreases ls.len(),
{
    reveal(Seq::filter);
    if ls.len() > 0 {
        lemma_select_is_filter(ls.drop_last(), req);
        assert(selected(req, ls.last()) == passes(req, ls.last()));
    }
}

/// Targets come in order of first appearance: wherever a listener of a later target
/// stands, every earlier target's pid has already appeared before it.
pub proof fn lemma_targets_in_first_seen_order(ls: Seq<Listener>)
    ensures
        forall|k1: int, k2: int, i: int|
            #![trigger ls[i], targets(ls)[k1], targets(ls)[k2]]
            0 <= k1 < k2 < targets(ls).len() && 0 <= i < ls.len() && ls[i].pid == Some(
                targets(ls)[k2].0,
            ) ==> pids_of(ls.take(i)).contains(targets(ls)[k1].0),
    decreases ls.len(),
{
    if ls.len() > 0 {
        let d = ls.drop_last();
        lemma_targets_in_first_seen_order(d);
        lemma_targets_once_each(d);
        lemma_pids_of_step(ls);
        let td = targets(d);
        let t = targets(ls);
        assert forall|k1: int, k2: int, i: int|
            #![trigger ls[i], t[k1], t[k2]]
            0 <= k1 < k2 < t.len() && 0 <= i < ls.len() && ls[i].pid == Some(t[k2].0) implies pids_of(
                ls.take(i),
            ).contains(t[k1].0) by {
            assert(t[k1] == td[k1]);
            assert(target_pids(td)[k1] == td[k1].0);
            assert(target_pids(td).contains(td[k1].0));
            assert(pids_of(d).contains(t[k1].0));
            if i < d.len() {
                assert(ls.take(i) =~= d.take(i));
                assert(d[i] == ls[i]);
                if k2 < td.len() {
                    assert(t[k2] == td[k2]);
                } else {
                    // the new target's pid was not seen in `d`
                    assert(pids_of(d).contains(t[k2].0)) by {
                        assert(d[i].pid == Some(t[k2].0));
                    }
                }
            } else {
                assert(ls.take(i) =~= d);
            }
        }
    }
}

proof fn lemma_pids_of_step(ls: Seq<Listener>)
    requires
        ls.len() > 0,
    ensures
        forall|p: u32|
            #[trigger] pids_of(ls).contains(p) <==> (pids_of(ls.drop_last()).contains(p)
                || ls.last().pid == Some(p)),
{
    let d = ls.drop_last();
    assert forall|p: u32| #[trigger] pids_of(ls).contains(p) implies (pids_of(d).contains(p)
        || ls.last().pid == Some(p)) by {
        let k = choose|k: int| 0 <= k < ls.len() && ls[k].pid == Some(p);
        if k < d.len() {
            assert(d[k] == ls[k]);
        }
    }
    assert forall|p: u32| pids_of(d).contains(p) implies #[trigger] pids_of(ls).contains(p) by {
        let k = choose|k: int| 0 <= k < d.len() && d[k].pid == Some(p);
        assert(ls[k] == d[k]);
    }
    assert forall|p: u32| ls.last().pid == Some(p) implies #[trigger] pids_of(ls).contains(p) by {
        assert(ls[ls.len() - 1].pid == Some(p));
    }
}

/// A kill signals each process once: the pids to signal are pairwise distinct, and
/// they are exactly the pids that some matched listener visibly belongs to.
pub proof fn lemma_targets_once_each(ls: Seq<Listener>)
    ensures
        target_pids(targets(ls)).no_duplicates(),
        forall|p: u32| #[trigger] target_pids(targets(ls)).contains(p) <==> pids_of(ls).contains(p),
    decreases ls.len(),
{
    if ls.len() == 0 {
        assert(target_pids(targets(ls)) =~= Seq::<u32>::empty());
    } else {
        let d = ls.drop_last();
        lemma_targets_once_each(d);
        lemma_pids_of_step(ls);
        let rest = targets(d);
        match ls.last().pid {
            Some(p) => {
                if !pids_of(d).contains(p) {
                    let t = rest.push((p, ls.last().process));
                    assert(target_pids(t) =~= target_pids(rest).push(p));
                    assert(!target_pids(rest).contains(p));
                    assert forall|q: u32| #[trigger] target_pids(t).contains(q) <==> pids_of(ls).contains(q) by {
                        if target_pids(t).contains(q) && q != p {
                            let k = choose|k: int| 0 <= k < target_pids(t).len() && target_pids(t)[k] == q;
                            assert(k < target_pids(rest).len());
                            assert(target_pids(rest)[k] == q);
                            assert(target_pids(rest).contains(q));
                            assert(pids_of(d).contains(q));
                            assert(pids_of(ls).contains(q));
                        }
                        if pids_of(ls).contains(q) && q != p {
                            assert(pids_of(d).contains(q));
                            assert(target_pids(rest).contains(q));
                            let k = choose|k: int| 0 <= k < target_pids(rest).len() && target_pids(rest)[k] == q;
                            assert(target_pids(t)[k] == q);
                            assert(target_pids(t).contains(q));
                        }
                        if q == p {
                            assert(target_pids(t)[target_pids(t).len() - 1] == p);
                            assert(target_pids(t).contains(q));
                            assert(pids_of(ls).contains(q));
                        }
                    }
                }
            },
            None => {},
        }
    }
}

/// Each process to signal carries the process name of the first matched listener
/// that belongs to it.
pub proof fn lemma_targets_first_owner(ls: Seq<Listener>)
    ensures
        forall|k: int|
            0 <= k < targets(ls).len() ==> exists|i: int|
                0 <= i < ls.len() && ls[i].pid == Some((#[trigger] targets(ls)[k]).0)
                    && ls[i].process == targets(ls)[k].1 && !pids_of(ls.take(i)).contains(
                    targets(ls)[k].0,
                ),
    decreases ls.len(),
{
    if ls.len() > 0 {
        let d = ls.drop_last();
        lemma_targets_first_owner(d);
        let rest = targets(d);
        assert forall|k: int| 0 <= k < targets(ls).len() implies exists|i: int|
            0 <= i < ls.len() && ls[i].pid == Some((#[trigger] targets(ls)[k]).0)
                && ls[i].process == targets(ls)[k].1 && !pids_of(ls.take(i)).contains(
                targets(ls)[k].0,
            ) by {
            if k < rest.len() {
                assert(targets(ls)[k] == rest[k]);
                let i = choose|i: int|
                    0 <= i < d.len() && d[i].pid == Some((#[trigger] rest[k]).0)
                        && d[i].process == rest[k].1 && !pids_of(d.take(i)).contains(rest[k].0);
                assert(ls[i] == d[i]);
                assert(ls.take(i) =~= d.take(i));
            } else {
                let i = ls.len() - 1;
                assert(ls.take(i) =~= d);
                assert(ls[i] == ls.last());
            }
        }
    }
}

fn same_name(v: &Option<String>) -> (r: Option<String>)
    ensures
        r == *v,
{
    match v {
        Some(s) => Some(s.clone()),
        None => None,
    }
}

/// The listeners that a request concerns, in their original order.
pub fn select_listeners(listeners: Vec<Listener>, req: &Request) -> (r: Vec<Listener>)
    ensures
        r@ == select(listeners@, *req),
{
    let ghost all = listeners@;
    let mut matched: Vec<Listener> = Vec::new();
    for l in it: listeners.into_iter()
        invariant
            it.seq() == all,
            matched@ == select(all.take(it.index() as int), *req),
    {
        let ghost i = it.index();
        assert(all.take(i + 1).drop_last() =~= all.take(i as int));
        let keep = req.proto.matches(l.proto) && match req.query {
            Query::Port(p) => l.port == p,
            Query::All => true,
        };
        if keep {
            matched.push(l);
        }
    }
    assert(all.take(all.len() as int) =~= all);
    matched
}

/// The processes to signal for the matched listeners: each visible pid once, in
/// the order of its first listener.
pub fn kill_targets(matched: &Vec<Listener>) -> (r: Vec<Target>)
    ensures
        r@ == targets(matched@),
{
    let mut seen: std::collections::BTreeSet<u32> = std::collections::BTreeSet::new();
    let mut out: Vec<Target> = Vec::new();
    let n = matched.len();
    let mut i: usize = 0;
    assert(pids_of(matched@.take(0)) =~= Set::<u32>::empty());
    while i < n
        invariant
            i <= n,
            n == matched@.len(),
            seen@ == pids_of(matched@.take(i as int)),
            out@ == targets(matched@.take(i as int)),
        decreases n - i,
    {
        let ghost prefix = matched@.take(i as int);
        let ghost next = matched@.take(i + 1);
        assert(next.drop_last() =~= prefix);
        assert(next.last() == matched@[i as int]);
        let l = &matched[i];
        match l.pid {
            Some(pid) => {
                let fresh = seen.insert(pid);
                if fresh {
                    out.push((pid, same_name(&l.process)));
                }
                assert(pids_of(next) =~= pids_of(prefix).insert(pid)) by {
                    assert forall|p: u32| pids_of(next).contains(p) implies pids_of(
                        prefix,
                    ).insert(pid).contains(p) by {
                        let k = choose|k: int| 0 <= k < next.len() && next[k].pid == Some(p);
                        if k < prefix.len() {
                            assert(prefix[k] == next[k]);
                        }
                    }
                    assert forall|p: u32| pids_of(prefix).insert(pid).contains(p) implies pids_of(
                        next,
                    ).contains(p) by {
                        if p == pid {
                            assert(next[i as int].pid == Some(p));
                        } else {
                            let k = choose|k: int| 0 <= k < prefix.len() && prefix[k].pid == Some(p);
                            assert(next[k] == prefix[k]);
                        }
                    }
                }
            },
            None => {
                assert(pids_of(next) =~= pids_of(prefix)) by {
                    assert forall|p: u32| pids_of(next).contains(p) implies pids_of(
                        prefix,
                    ).contains(p) by {
                        let k = choose|k: int| 0 <= k < next.len() && next[k].pid == Some(p);
                        assert(k != i);
                        assert(prefix[k] == next[k]);
                    }
                    assert forall|p: u32| pids_of(prefix).contains(p) implies pids_of(
                        next,
                    ).contains(p) by {
                        let k = choose|k: int| 0 <= k < prefix.len() && prefix[k].pid == Some(p);
                        assert(next[k] == prefix[k]);
                    }
                }
            },
        }
        i = i + 1;
    }
    assert(matched@.take(n as int) =~= matched@);
    out
}

} // verus!
