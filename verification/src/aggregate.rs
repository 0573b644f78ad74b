//! The result aggregator: outcomes in, the final open-port list out.
//!
//! The engine collects outcomes in no guaranteed completion order; this
//! module re-sorts them by port, keeps the open ones, and — only when none
//! is open — falls back to whatever the fallback probe contributed. The
//! final list is strictly ascending by port with no duplicates.

use vstd::prelude::*;
use crate::outcome::PortOutcome;
use crate::outcome::PortStatus;

verus! {

/// Ports never decrease along the sequence.
pub open spec fn sorted_by_port(s: Seq<PortOutcome>) -> bool {
    forall|a: int, b: int| 0 <= a < b < s.len() ==> s[a].port <= s[b].port
}

/// No two outcomes share a port.
pub open spec fn distinct_ports(s: Seq<PortOutcome>) -> bool {
    forall|a: int, b: int| 0 <= a < b < s.len() ==> s[a].port != s[b].port
}

/// Ports strictly increase along the sequence: sorted, no duplicates.
pub open spec fn strictly_ascending(s: Seq<PortOutcome>) -> bool {
    forall|a: int, b: int| 0 <= a < b < s.len() ==> s[a].port < s[b].port
}

/// Some outcome in the sequence is open.
pub open spec fn has_open(s: Seq<PortOutcome>) -> bool {
    exists|k: int| 0 <= k < s.len() && s[k].status is Open
}

/// Every outcome is well formed (a banner only on an open port).
pub open spec fn all_wf(s: Seq<PortOutcome>) -> bool {
    forall|k: int| 0 <= k < s.len() ==> (#[trigger] s[k]).wf()
}

/// The predicate the aggregator keeps: the port accepted a connection.
pub open spec fn open_pred() -> spec_fn(PortOutcome) -> bool {
    |o: PortOutcome| o.status is Open
}

/// Sorts the outcomes ascending by port: the result is a rearrangement of
/// the input, sorted, and keeps both distinctness of ports and
/// well-formedness.
pub fn sort_by_port(v: &mut Vec<PortOutcome>)
    ensures
        final(v)@.len() == old(v)@.len(),
        final(v)@.to_multiset() == old(v)@.to_multiset(),
        forall|x: PortOutcome| final(v)@.contains(x) <==> old(v)@.contains(x),
        sorted_by_port(final(v)@),
        distinct_ports(old(v)@) ==> distinct_ports(final(v)@),
        all_wf(old(v)@) ==> all_wf(final(v)@),
{
    broadcast use vstd::seq_lib::group_to_multiset_ensures;

    let ghost orig = old(v)@;
    if v.len() <= 1 {
        return ;
    }
    let mut i: usize = 1;
    while i < v.len()
        invariant
            1 <= i <= v@.len(),
            v@.len() == orig.len(),
            v@.to_multiset() == orig.to_multiset(),
            forall|a: int, b: int| 0 <= a < b < i ==> v@[a].port <= v@[b].port,
            distinct_ports(orig) ==> distinct_ports(v@),
            all_wf(orig) ==> all_wf(v@),
        decreases v@.len() - i,
    {
        let ghost before = v@;
        let x = v.remove(i);
        proof {
            before.to_multiset_ensures();
            assert(before.contains(x)) by {
                assert(before[i as int] == x);
            }
            assert(before.to_multiset().count(x) > 0);
            vstd::seq_lib::to_multiset_remove(before, i as int);
        }
        let ghost removed = v@;
        let mut j: usize = i;
        while j > 0 && x.port < v[j - 1].port
            invariant
                0 <= j <= i,
                i < removed.len() + 1,
                v@ == removed,
                forall|k: int| j <= k < i ==> x.port < v@[k].port,
            decreases j,
        {
            j = j - 1;
        }
        v.insert(j, x);
        proof {
            vstd::seq_lib::to_multiset_insert(removed, j as int, x);
            assert(removed.to_multiset() == before.to_multiset().remove(x));
            assert(v@.to_multiset() == removed.to_multiset().insert(x));
            assert(v@.to_multiset() =~= before.to_multiset()) by {
                assert(before.to_multiset().count(x) > 0);
                assert forall|y: PortOutcome|
                    v@.to_multiset().count(y) == before.to_multiset().count(y) by {
                    if y == x {
                        assert(before.to_multiset().count(x) > 0);
                    }
                }
                assert(v@.to_multiset() =~= before.to_multiset());
            }
            // every element of the new prefix is an element of the old one,
            // shifted around the removal and insertion points
            assert forall|a: int| 0 <= a < v@.len() implies v@[a] == (if a < j {
                before[a]
            } else if a == j {
                x
            } else if a <= i {
                before[a - 1]
            } else {
                before[a]
            }) by {
                if a < j {
                    assert(v@[a] == removed[a]);
                } else if a > j {
                    assert(v@[a] == removed[a - 1]);
                }
            }
            assert forall|a: int, b: int| 0 <= a < b < i + 1 implies v@[a].port
                <= v@[b].port by {
                assert(before[i as int] == x);
            }
            if distinct_ports(orig) {
                assert(distinct_ports(v@)) by {
                    assert(distinct_ports(before));
                    assert(before[i as int] == x);
                }
            }
            if all_wf(orig) {
                assert(all_wf(v@)) by {
                    assert(all_wf(before));
                    assert(before[i as int] == x);
                }
            }
        }
        i = i + 1;
    }
    proof {
        v@.to_multiset_ensures();
        orig.to_multiset_ensures();
        assert forall|x: PortOutcome| v@.contains(x) <==> orig.contains(x) by {
            assert(v@.to_multiset().count(x) == orig.to_multiset().count(x));
        }
    }
}

/// Keeps the open outcomes, in order.
pub fn filter_open(outcomes: Vec<PortOutcome>) -> (open: Vec<PortOutcome>)
    ensures
        open@ == outcomes@.filter(open_pred()),
{
    let mut rest = outcomes;
    let ghost orig = rest@;
    let n: usize = rest.len();
    let mut open: Vec<PortOutcome> = Vec::new();
    proof {
        assert(orig.take(0).filter(open_pred()) =~= Seq::<PortOutcome>::empty());
    }
    let mut i: usize = 0;
    while i < n
        invariant
            n == orig.len(),
            0 <= i <= n,
            rest@ =~= orig.skip(i as int),
            open@ == orig.take(i as int).filter(open_pred()),
        decreases n - i,
    {
        let x = rest.remove(0);
        proof {
            assert(x == orig[i as int]);
            assert(orig.skip(i as int).remove(0) =~= orig.skip(i as int + 1));
            assert(orig.take(i as int + 1) =~= orig.take(i as int) + seq![orig[i as int]]);
            Seq::filter_distributes_over_add(orig.take(i as int), seq![orig[i as int]], open_pred());
            reveal_with_fuel(Seq::<_>::filter, 2);
            assert(seq![orig[i as int]].drop_last() =~= Seq::<PortOutcome>::empty());
            assert(seq![orig[i as int]].filter(open_pred()) =~= (if open_pred()(orig[i as int]) {
                seq![orig[i as int]]
            } else {
                Seq::<PortOutcome>::empty()
            }));
        }
        let keep: bool = match x.status {
            PortStatus::Open => true,
            PortStatus::Closed => false,
        };
        if keep {
            open.push(x);
        }
        i = i + 1;
    }
    proof {
        assert(orig.take(n as int) =~= orig);
    }
    open
}

/// What filtering keeps: a subsequence — so nothing new appears — and, of a
/// sorted sequence with distinct ports, a strictly ascending one.
pub proof fn lemma_filter_open_props(s: Seq<PortOutcome>)
    ensures
        forall|x: PortOutcome| #[trigger] s.filter(open_pred()).contains(x) ==> s.contains(x),
        sorted_by_port(s) && distinct_ports(s) ==> strictly_ascending(s.filter(open_pred())),
    decreases s.len(),
{
    broadcast use vstd::seq_lib::group_filter_ensures;

    reveal_with_fuel(Seq::<_>::filter, 2);
    if s.len() == 0 {
        assert(s.filter(open_pred()) =~= Seq::<PortOutcome>::empty());
    } else {
        let head = s.drop_last();
        let last = s.last();
        lemma_filter_open_props(head);
        assert(s.filter(open_pred()) == (if open_pred()(last) {
            head.filter(open_pred()).push(last)
        } else {
            head.filter(open_pred())
        }));
        assert forall|x: PortOutcome| #[trigger]
            s.filter(open_pred()).contains(x) implies s.contains(x) by {
            let f = s.filter(open_pred());
            let idx = choose|idx: int| 0 <= idx < f.len() && f[idx] == x;
            if idx < head.filter(open_pred()).len() {
                assert(head.filter(open_pred()).contains(x)) by {
                    assert(head.filter(open_pred())[idx] == x);
                }
                assert(head.contains(x));
                let hidx = choose|h: int| 0 <= h < head.len() && head[h] == x;
                assert(s[hidx] == x);
            } else {
                assert(x == last);
                assert(s[s.len() - 1] == x);
            }
        }
        if sorted_by_port(s) && distinct_ports(s) {
            assert(sorted_by_port(head));
            assert(distinct_ports(head));
            let fh = head.filter(open_pred());
            assert forall|a: int, b: int|
                0 <= a < b < s.filter(open_pred()).len() implies s.filter(open_pred())[a].port
                < s.filter(open_pred())[b].port by {
                let f = s.filter(open_pred());
                if b < fh.len() {
                    assert(f[a] == fh[a] && f[b] == fh[b]);
                } else {
                    // b indexes the appended last element
                    assert(f[b] == last);
                    assert(f[a] == fh[a]);
                    assert(fh.contains(fh[a])) by {
                        assert(fh[a] == fh[a]);
                    }
                    assert(head.contains(fh[a]));
                    let hidx = choose|h: int| 0 <= h < head.len() && head[h] == fh[a];
                    assert(s[hidx] == fh[a]);
                    assert(s[hidx].port <= last.port && s[hidx].port != last.port);
                }
            }
        }
    }
}

/// Merges the primary sweep's outcomes with the fallback probe's: sorts by
/// port, keeps the open outcomes, and uses the fallback's — additive, open
/// only — exactly when the primary sweep found nothing open. The result is
/// strictly ascending by port, with no duplicate ports.
pub fn aggregate(primary: Vec<PortOutcome>, fallback: Vec<PortOutcome>) -> (result: Vec<
    PortOutcome,
>)
    requires
        distinct_ports(primary@),
        distinct_ports(fallback@),
    ensures
        strictly_ascending(result@),
        forall|k: int| 0 <= k < result@.len() ==> (#[trigger] result@[k]).status is Open,
        has_open(primary@) ==> (forall|x: PortOutcome|
            #[trigger] result@.contains(x) <==> primary@.contains(x) && x.status is Open),
        !has_open(primary@) ==> (forall|x: PortOutcome|
            #[trigger] result@.contains(x) <==> fallback@.contains(x) && x.status is Open),
        all_wf(primary@) && all_wf(fallback@) ==> all_wf(result@),
{
    broadcast use vstd::seq_lib::group_filter_ensures;

    let ghost porig = primary@;
    let mut primary = primary;
    sort_by_port(&mut primary);
    let ghost sorted = primary@;
    proof {
        lemma_filter_open_props(sorted);
    }
    let open = filter_open(primary);
    proof {
        assert forall|x: PortOutcome| #[trigger]
            open@.contains(x) implies porig.contains(x) && x.status is Open by {
            assert(sorted.contains(x));
            let idx = choose|idx: int| 0 <= idx < open@.len() && open@[idx] == x;
            assert(open_pred()(open@[idx]));
        }
        assert forall|x: PortOutcome|
            porig.contains(x) && x.status is Open implies open@.contains(x) by {
            assert(sorted.contains(x));
            let idx = choose|idx: int| 0 <= idx < sorted.len() && sorted[idx] == x;
            assert(open_pred()(sorted[idx]));
            assert(sorted.filter(open_pred()).contains(sorted[idx]));
        }
    }
    if open.len() > 0 {
        proof {
            assert(has_open(porig)) by {
                assert(open@.contains(open@[0])) by {
                    assert(open@[0] == open@[0]);
                }
                assert(porig.contains(open@[0]));
                let idx = choose|idx: int| 0 <= idx < porig.len() && porig[idx] == open@[0];
                assert(porig[idx].status is Open);
            }
            assert forall|k: int|
                0 <= k < open@.len() implies (#[trigger] open@[k]).status is Open by {
                assert(open_pred()(open@[k]));
            }
            if all_wf(porig) {
                assert forall|k: int| 0 <= k < open@.len() implies (#[trigger] open@[k]).wf() by {
                    assert(open@.contains(open@[k])) by {
                        assert(open@[k] == open@[k]);
                    }
                    assert(porig.contains(open@[k]));
                    let idx = choose|idx: int| 0 <= idx < porig.len() && porig[idx] == open@[k];
                }
            }
        }
        open
    } else {
        proof {
            assert(!has_open(porig)) by {
                if has_open(porig) {
                    let k = choose|k: int| 0 <= k < porig.len() && porig[k].status is Open;
                    assert(porig.contains(porig[k]));
                    assert(open@.contains(porig[k]));
                }
            }
        }
        let ghost forig = fallback@;
        let mut fallback = fallback;
        sort_by_port(&mut fallback);
        let ghost fsorted = fallback@;
        proof {
            lemma_filter_open_props(fsorted);
        }
        let fopen = filter_open(fallback);
        proof {
            assert forall|x: PortOutcome| #[trigger]
                fopen@.contains(x) implies forig.contains(x) && x.status is Open by {
                assert(fsorted.contains(x));
                let idx = choose|idx: int| 0 <= idx < fopen@.len() && fopen@[idx] == x;
                assert(open_pred()(fopen@[idx]));
            }
            assert forall|x: PortOutcome|
                forig.contains(x) && x.status is Open implies fopen@.contains(x) by {
                assert(fsorted.contains(x));
                let idx = choose|idx: int| 0 <= idx < fsorted.len() && fsorted[idx] == x;
                assert(open_pred()(fsorted[idx]));
                assert(fsorted.filter(open_pred()).contains(fsorted[idx]));
            }
            assert forall|k: int|
                0 <= k < fopen@.len() implies (#[trigger] fopen@[k]).status is Open by {
                assert(open_pred()(fopen@[k]));
            }
            if all_wf(forig) {
                assert forall|k: int| 0 <= k < fopen@.len() implies (#[trigger] fopen@[k]).wf() by {
                    assert(fopen@.contains(fopen@[k])) by {
                        assert(fopen@[k] == fopen@[k]);
                    }
                    assert(forig.contains(fopen@[k]));
                    let idx = choose|idx: int| 0 <= idx < forig.len() && forig[idx] == fopen@[k];
                }
            }
        }
        fopen
    }
}

} // verus!
