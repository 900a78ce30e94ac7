use vstd::prelude::*;

use crate::env::BlockInfo;
use crate::state::{approvals_view, Approval, ApprovalView};

verus! {

/// No spender appears twice in an approval list.
pub open spec fn spenders_unique(s: Seq<ApprovalView>) -> bool {
    forall|i: int, j: int|
        0 <= i < s.len() && 0 <= j < s.len() && i != j ==> #[trigger] s[i].spender
            != #[trigger] s[j].spender
}

/// The approval list with every entry of `spender` taken out, order kept.
pub open spec fn without_spender(s: Seq<ApprovalView>, spender: Seq<char>) -> Seq<ApprovalView> {
    s.filter(|a: ApprovalView| a.spender != spender)
}

/// How many entries of the list belong to `spender`.
pub open spec fn spender_count(s: Seq<ApprovalView>, spender: Seq<char>) -> nat {
    s.filter(|a: ApprovalView| a.spender == spender).len()
}

/// The list holds an entry of `actor` that has not expired in `block`.
pub open spec fn approved_in(s: Seq<ApprovalView>, actor: Seq<char>, block: BlockInfo) -> bool {
    exists|i: int|
        0 <= i < s.len() && #[trigger] s[i].spender == actor && !s[i].expires.expired_at(block)
}

/// Taking out a spender's entries leaves only entries of the original list,
/// none of that spender, and keeps spenders unique.
pub proof fn lemma_without_spender(s: Seq<ApprovalView>, spender: Seq<char>)
    ensures
        forall|j: int|
            0 <= j < without_spender(s, spender).len() ==> (#[trigger] without_spender(
                s,
                spender,
            )[j]).spender != spender && s.contains(without_spender(s, spender)[j]),
        spenders_unique(s) ==> spenders_unique(without_spender(s, spender)),
        spender_count(without_spender(s, spender), spender) == 0,
    decreases s.len(),
{
    reveal(Seq::filter);
    let w = without_spender(s, spender);
    if s.len() > 0 {
        let d = s.drop_last();
        lemma_without_spender(d, spender);
        let wd = without_spender(d, spender);
        assert forall|j: int| 0 <= j < wd.len() implies s.contains(#[trigger] wd[j]) by {
            let i = choose|i: int| 0 <= i < d.len() && d[i] == wd[j];
            assert(s[i] == d[i]);
        }
        if s.last().spender != spender {
            assert(w == wd.push(s.last()));
            assert(s[s.len() - 1] == s.last());
            if spenders_unique(s) {
                assert forall|j: int| 0 <= j < wd.len() implies (#[trigger] wd[j]).spender
                    != s.last().spender by {
                    let i = choose|i: int| 0 <= i < d.len() && d[i] == wd[j];
                    assert(s[i] == d[i]);
                }
                assert forall|a: int, b: int|
                    0 <= a < w.len() && 0 <= b < w.len() && a != b implies #[trigger] w[a].spender
                        != #[trigger] w[b].spender by {
                    if a < wd.len() && b < wd.len() {
                        assert(w[a] == wd[a] && w[b] == wd[b]);
                    } else if a < wd.len() {
                        assert(w[a] == wd[a]);
                    } else {
                        assert(w[b] == wd[b]);
                    }
                }
            }
            assert(w.push(s.last()).drop_last() =~= w);
            let p = |a: ApprovalView| a.spender == spender;
            assert(w.filter(p) == wd.filter(p)) by {
                assert(w.drop_last() =~= wd);
            }
        } else {
            assert(w == wd);
        }
    }
}

/// A list without entries of `spender` is left as it is.
pub proof fn lemma_without_absent(s: Seq<ApprovalView>, spender: Seq<char>)
    requires
        forall|j: int| 0 <= j < s.len() ==> (#[trigger] s[j]).spender != spender,
    ensures
        without_spender(s, spender) == s,
    decreases s.len(),
{
    reveal(Seq::filter);
    if s.len() > 0 {
        let d = s.drop_last();
        assert forall|j: int| 0 <= j < d.len() implies (#[trigger] d[j]).spender != spender by {
            assert(d[j] == s[j]);
        }
        lemma_without_absent(d, spender);
        assert(s[s.len() - 1] == s.last());
        assert(d.push(s.last()) =~= s);
    } else {
        assert(without_spender(s, spender) =~= s);
    }
}

/// Adding an entry for `spender` to a list without one gives exactly one.
pub proof fn lemma_single_entry(w: Seq<ApprovalView>, a: ApprovalView)
    requires
        spender_count(w, a.spender) == 0,
    ensures
        spender_count(w.push(a), a.spender) == 1,
{
    reveal(Seq::filter);
    assert(w.push(a).drop_last() =~= w);
}

/// Appending an entry whose spender the list lacks keeps spenders unique.
pub proof fn lemma_push_fresh(w: Seq<ApprovalView>, a: ApprovalView)
    requires
        spenders_unique(w),
        forall|j: int| 0 <= j < w.len() ==> (#[trigger] w[j]).spender != a.spender,
    ensures
        spenders_unique(w.push(a)),
{
    let t = w.push(a);
    assert forall|i: int, j: int|
        0 <= i < t.len() && 0 <= j < t.len() && i != j implies #[trigger] t[i].spender
            != #[trigger] t[j].spender by {
        if i < w.len() && j < w.len() {
            assert(t[i] == w[i] && t[j] == w[j]);
        } else if i < w.len() {
            assert(t[i] == w[i]);
        } else {
            assert(t[j] == w[j]);
        }
    }
}

/// The list that approving each entry in turn, first to last, would leave.
pub open spec fn approvals_replayed(s: Seq<ApprovalView>) -> Seq<ApprovalView>
    decreases s.len(),
{
    if s.len() == 0 {
        s
    } else {
        without_spender(approvals_replayed(s.drop_last()), s.last().spender).push(s.last())
    }
}

/// The approval list without any entry of `spender`.
pub fn remove_spender(approvals: &Vec<Approval>, spender: &String) -> (r: Vec<Approval>)
    ensures
        approvals_view(r@) == without_spender(approvals_view(approvals@), spender@),
{
    let ghost all = approvals_view(approvals@);
    let mut r: Vec<Approval> = Vec::new();
    let mut i: usize = 0;
    while i < approvals.len()
        invariant
            0 <= i <= approvals@.len(),
            all == approvals_view(approvals@),
            approvals_view(r@) == without_spender(all.subrange(0, i as int), spender@),
        decreases approvals@.len() - i,
    {
        proof {
            reveal(Seq::filter);
            assert(all.subrange(0, i + 1).drop_last() =~= all.subrange(0, i as int));
        }
        let keep = !(approvals[i].spender == *spender);
        if keep {
            let a = approvals[i].duplicate();
            let ghost before = r@;
            r.push(a);
            assert(approvals_view(r@) =~= approvals_view(before).push(a@));
        }
        i = i + 1;
    }
    assert(all.subrange(0, approvals@.len() as int) =~= all);
    r
}

/// The list that approving each entry in turn would leave: one entry per
/// spender, the last one given for it.
pub fn replay_approvals(list: &Vec<Approval>) -> (r: Vec<Approval>)
    ensures
        approvals_view(r@) == approvals_replayed(approvals_view(list@)),
        spenders_unique(approvals_view(r@)),
{
    let ghost lv = approvals_view(list@);
    let mut r: Vec<Approval> = Vec::new();
    let mut i: usize = 0;
    assert(approvals_view(r@) =~= approvals_replayed(lv.subrange(0, 0)));
    while i < list.len()
        invariant
            0 <= i <= list@.len(),
            lv == approvals_view(list@),
            approvals_view(r@) == approvals_replayed(lv.subrange(0, i as int)),
            spenders_unique(approvals_view(r@)),
        decreases list@.len() - i,
    {
        let mut w = remove_spender(&r, &list[i].spender);
        proof {
            lemma_without_spender(approvals_view(r@), list@[i as int].spender@);
        }
        let a = list[i].duplicate();
        let ghost w0 = w@;
        w.push(a);
        proof {
            assert(approvals_view(w@) =~= approvals_view(w0).push(a@));
            lemma_push_fresh(approvals_view(w0), a@);
            let p = lv.subrange(0, i + 1);
            assert(p.drop_last() =~= lv.subrange(0, i as int));
            assert(p.last() == a@);
        }
        r = w;
        i = i + 1;
    }
    assert(lv.subrange(0, list@.len() as int) =~= lv);
    r
}

} // verus!
