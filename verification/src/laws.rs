//! What holds of the switch across its operations, proved over the
//! specifications that its methods follow.

use vstd::prelude::*;

use crate::model::{
    active_of, add_beneficiary_spec, add_signer_spec, allocated, approve_spec,
    cannot_modify_msg, heartbeat_spec, inactive_msg, lemma_allocated_push,
    lemma_allocated_remove, lemma_allocated_update, max_emergency_signers, new_spec, plan,
    plan_total, push_bounded, remove_beneficiary_spec, request_spec, trigger_spec,
    SwitchView,
};
use crate::rounding::share;
use crate::strmap::{has_key, key_pos, lookup, remove_key, set_insert, upsert};
use crate::types::{AuditEntryView, BeneficiaryView, RequestView};

verus! {

/// The sum of the allocation percentages of a list of beneficiaries.
pub open spec fn percent_sum(a: Seq<BeneficiaryView>) -> int
    decreases a.len(),
{
    if a.len() == 0 {
        0
    } else {
        percent_sum(a.drop_last()) + a.last().allocation_percentage
    }
}

proof fn lemma_active_percent(s: Seq<(Seq<char>, BeneficiaryView)>)
    ensures
        0 <= percent_sum(active_of(s)) <= allocated(s),
    decreases s.len(),
{
    if s.len() > 0 {
        lemma_active_percent(s.drop_last());
        if s.last().1.is_active {
            assert(active_of(s).drop_last() =~= active_of(s.drop_last()));
        }
    }
}

proof fn lemma_plan_total_nonneg(d: Seq<(Seq<char>, u64)>)
    ensures
        plan_total(d) >= 0,
    decreases d.len(),
{
    if d.len() > 0 {
        lemma_plan_total_nonneg(d.drop_last());
    }
}

proof fn lemma_plan_total_update(d: Seq<(Seq<char>, u64)>, i: int, x: (Seq<char>, u64))
    requires
        0 <= i < d.len(),
    ensures
        plan_total(d.update(i, x)) == plan_total(d) - d[i].1 + x.1,
    decreases d.len(),
{
    if i == d.len() - 1 {
        assert(d.update(i, x).drop_last() =~= d.drop_last());
    } else {
        lemma_plan_total_update(d.drop_last(), i, x);
        assert(d.update(i, x).drop_last() =~= d.drop_last().update(i, x));
    }
}

proof fn lemma_plan_total_upsert(d: Seq<(Seq<char>, u64)>, k: Seq<char>, v: u64)
    ensures
        plan_total(upsert(d, k, v)) <= plan_total(d) + v,
{
    if has_key(d, k) {
        lemma_plan_total_update(d, key_pos(d, k), (k, v));
    } else {
        assert(d.push((k, v)).drop_last() =~= d);
    }
}

proof fn lemma_percent_each(a: Seq<BeneficiaryView>)
    ensures
        forall|i: int| 0 <= i < a.len() ==> #[trigger] a[i].allocation_percentage <= percent_sum(a),
        percent_sum(a) >= 0,
    decreases a.len(),
{
    if a.len() > 0 {
        let t = a.drop_last();
        lemma_percent_each(t);
        assert forall|i: int| 0 <= i < a.len() implies #[trigger] a[i].allocation_percentage
            <= percent_sum(a) by {
            if i < t.len() {
                assert(a[i] == t[i]);
            }
        }
    }
}

proof fn lemma_plan_total(a: Seq<BeneficiaryView>, total: u64)
    requires
        total * 100 < crate::rounding::sig_min(),
        forall|i: int| 0 <= i < a.len() ==> #[trigger] a[i].allocation_percentage <= 100,
    ensures
        0 <= plan_total(plan(a, total)) * 100 <= total * percent_sum(a),
    decreases a.len(),
{
    lemma_plan_total_nonneg(plan(a, total));
    if a.len() > 0 {
        let t = a.drop_last();
        let x = a.last();
        assert forall|i: int| 0 <= i < t.len() implies #[trigger] t[i].allocation_percentage
            <= 100 by {
            assert(t[i] == a[i]);
        }
        lemma_plan_total(t, total);
        let p = x.allocation_percentage;
        assert(x == a[a.len() - 1]);
        assert(total * p <= total * 100) by (nonlinear_arith)
            requires
                p <= 100,
        ;
        crate::rounding::lemma_share_exact(total, p);
        let sh = share(total, p);
        lemma_plan_total_upsert(plan(t, total), x.address, sh);
        let exact = (total as int * p as int) / 100;
        assert(0 <= exact * 100 <= total * p) by (nonlinear_arith)
            requires
                exact == (total as int * p as int) / 100,
                total >= 0,
                p >= 0,
        ;
        assert(sh <= exact);
        assert(total * percent_sum(a) == total * percent_sum(t) + total * p) by (nonlinear_arith)
            requires
                percent_sum(a) == percent_sum(t) + p,
        ;
    }
}

/// A distribution never pays out more than the vault holds: when the
/// allocations of the active beneficiaries add up to at most 100%, their
/// shares add up to at most the total funds. This needs the total below
/// 2^52 / 100, where binary64 works each share out exactly; above that its
/// rounding can lift a share over the exact quotient.
pub proof fn law_distribution_within_funds(s: SwitchView)
    requires
        percent_sum(active_of(s.beneficiaries)) <= 100,
        s.total_funds * 100 < crate::rounding::sig_min(),
    ensures
        plan_total(s.distribution()) <= s.total_funds,
{
    let a = active_of(s.beneficiaries);
    lemma_percent_each(a);
    lemma_plan_total(a, s.total_funds);
    let pt = plan_total(plan(a, s.total_funds));
    let ps = percent_sum(a);
    let t = s.total_funds;
    assert(pt <= t) by (nonlinear_arith)
        requires
            0 <= pt * 100 <= t * ps,
            0 <= ps <= 100,
            t >= 0,
    ;
}

/// In particular a switch whose allocations add up to at most 100% never
/// pays out more than it holds (below the same bound on the total).
pub proof fn law_valid_switch_pays_within_funds(s: SwitchView)
    requires
        s.wf(),
        s.total_funds * 100 < crate::rounding::sig_min(),
    ensures
        plan_total(s.distribution()) <= s.total_funds,
{
    lemma_active_percent(s.beneficiaries);
    law_distribution_within_funds(s);
}

/// Once due, a switch stays due at every later moment until something
/// changes it (a heartbeat or its deactivation).
pub proof fn law_due_persists(s: SwitchView, now: u64, later: u64)
    requires
        now <= later,
        s.due(now),
    ensures
        s.due(later),
{
}

/// A heartbeat restarts the inactivity clock: right after a heartbeat at
/// `now`, the switch is due at a later moment exactly when the timeout has
/// passed since `now`.
pub proof fn law_heartbeat_restarts_clock(s: SwitchView, initiator: Seq<char>, now: u64, later: u64)
    requires
        s.is_active,
        later >= now,
    ensures
        heartbeat_spec(s, initiator, now).1 is Ok,
        heartbeat_spec(s, initiator, now).0.due(later) == (later - now >= s.inactivity_timeout),
        heartbeat_spec(s, initiator, now).0.last_heartbeat == now,
        s.inactivity_timeout > 0 ==> !heartbeat_spec(s, initiator, now).0.due(now),
{
}

/// A new switch with a positive timeout is not due when it is created, and
/// its allocations are within 100%.
pub proof fn law_new_switch(
    id: Seq<char>,
    owner: Seq<char>,
    owner_public_key: Seq<char>,
    timeout: u64,
    vault_address: Seq<char>,
    now: u64,
)
    requires
        timeout > 0,
    ensures
        new_spec(id, owner, owner_public_key, timeout, vault_address, now).wf(),
        new_spec(id, owner, owner_public_key, timeout, vault_address, now).is_active,
        !new_spec(id, owner, owner_public_key, timeout, vault_address, now).due(now),
{
}

/// Once the vault has been shared out, the switch is inactive for good:
/// heartbeats, changes of the whitelist and further distributions are all
/// refused and leave it as it is.
pub proof fn law_distribution_is_final(
    s: SwitchView,
    reason: Seq<char>,
    now: u64,
    initiator: Seq<char>,
    b: BeneficiaryView,
    address: Seq<char>,
    reason2: Seq<char>,
    later: u64,
)
    requires
        trigger_spec(s, reason, now).1 is Ok,
    ensures
        ({
            let t = trigger_spec(s, reason, now).0;
            &&& !t.is_active
            &&& heartbeat_spec(t, initiator, later) == (t, Err::<Seq<char>, Seq<char>>(inactive_msg()))
            &&& add_beneficiary_spec(t, b, later) == (t, Err::<Seq<char>, Seq<char>>(cannot_modify_msg()))
            &&& remove_beneficiary_spec(t, address, later) == (t, Err::<Seq<char>, Seq<char>>(cannot_modify_msg()))
            &&& trigger_spec(t, reason2, later).0 == t
            &&& trigger_spec(t, reason2, later).1 is Err
        }),
{
}

/// Adding a beneficiary keeps the whitelist within its limits: a successful
/// addition leaves at most `max_beneficiaries` beneficiaries, the new one
/// with at least the minimum allocation, and all allocations within 100%.
pub proof fn law_add_respects_limits(s: SwitchView, b: BeneficiaryView, now: u64)
    requires
        s.wf(),
        crate::strmap::keys_distinct(s.beneficiaries),
        add_beneficiary_spec(s, b, now).1 is Ok,
    ensures
        ({
            let t = add_beneficiary_spec(s, b, now).0;
            &&& t.beneficiaries.len() <= t.max_beneficiaries
            &&& b.allocation_percentage >= s.minimum_allocation
            &&& lookup(t.beneficiaries, b.address) == Some(b)
            &&& t.wf()
        }),
{
    let bens = s.beneficiaries;
    let after = upsert(bens, b.address, b);
    if has_key(bens, b.address) {
        lemma_allocated_update(bens, key_pos(bens, b.address), (b.address, b));
    } else {
        lemma_allocated_push(bens, (b.address, b));
    }
    assert forall|i: int| 0 <= i < after.len() implies #[trigger] after[i].0 == after[i].1.address by {
        if i < bens.len() && (!has_key(bens, b.address) || i != key_pos(bens, b.address)) {
            assert(after[i] == bens[i]);
        }
    }
    assert(has_key(after, b.address)) by {
        if has_key(bens, b.address) {
            assert(after[key_pos(bens, b.address)].0 == b.address);
        } else {
            assert(after[bens.len() as int].0 == b.address);
        }
    }
    let p = key_pos(after, b.address);
    if has_key(bens, b.address) {
        let q = key_pos(bens, b.address);
        if p != q {
            assert(after[p] == bens[p]);
            assert(bens[p].0 == bens[q].0);
        }
    } else {
        if p != bens.len() {
            assert(after[p] == bens[p]);
        }
    }
}

/// Removing a beneficiary undoes adding it: after adding a beneficiary under
/// an address that had none, removing that address succeeds and leaves the
/// whitelist as it was.
pub proof fn law_remove_undoes_add(s: SwitchView, b: BeneficiaryView, now: u64, later: u64)
    requires
        add_beneficiary_spec(s, b, now).1 is Ok,
        !has_key(s.beneficiaries, b.address),
    ensures
        remove_beneficiary_spec(add_beneficiary_spec(s, b, now).0, b.address, later).1 is Ok,
        remove_beneficiary_spec(add_beneficiary_spec(s, b, now).0, b.address, later).0.beneficiaries
            == s.beneficiaries,
{
    let bens = s.beneficiaries;
    let after = bens.push((b.address, b));
    assert(has_key(after, b.address)) by {
        assert(after[bens.len() as int].0 == b.address);
    }
    let p = key_pos(after, b.address);
    if p != bens.len() {
        assert(after[p] == bens[p]);
    }
    assert(after.remove(bens.len() as int) =~= bens);
}

/// Every approval of every emergency request comes from an emergency signer.
pub open spec fn approvals_authorized(s: SwitchView) -> bool {
    forall|i: int, j: int|
        0 <= i < s.emergency_requests.len() && 0 <= j < s.emergency_requests[i].1.approvals.len()
            ==> s.emergency_signers.contains(#[trigger] s.emergency_requests[i].1.approvals[j])
}

proof fn lemma_upsert_entries<X>(s: Seq<(Seq<char>, X)>, k: Seq<char>, v: X, i: int)
    requires
        0 <= i < upsert(s, k, v).len(),
    ensures
        upsert(s, k, v)[i] == (k, v) || (i < s.len() && upsert(s, k, v)[i] == s[i]),
{
}

/// Only emergency signers ever approve: filing requests, approving them and
/// adding signers keep every approval an emergency signer's.
pub proof fn law_approvals_authorized(
    s: SwitchView,
    request_id: Seq<char>,
    signer: Seq<char>,
    requester: Seq<char>,
    reason: Seq<char>,
    now: u64,
)
    requires
        approvals_authorized(s),
    ensures
        approvals_authorized(approve_spec(s, request_id, signer).0),
        approvals_authorized(request_spec(s, requester, reason, request_id, now).0),
        approvals_authorized(add_signer_spec(s, signer).0),
{
    let t = approve_spec(s, request_id, signer).0;
    if s.emergency_signers.contains(signer) && lookup(s.emergency_requests, request_id) is Some {
        let r = lookup(s.emergency_requests, request_id).unwrap();
        let ap = set_insert(r.approvals, signer);
        let r2 = RequestView { approvals: ap, is_approved: r.is_approved || ap.len() >= r.required_approvals, ..r };
        assert forall|i: int, j: int|
            0 <= i < t.emergency_requests.len() && 0 <= j < t.emergency_requests[i].1.approvals.len()
                implies t.emergency_signers.contains(#[trigger] t.emergency_requests[i].1.approvals[j]) by {
            lemma_upsert_entries(s.emergency_requests, request_id, r2, i);
            if t.emergency_requests[i] == (request_id, r2) {
                let k = key_pos(s.emergency_requests, request_id);
                if j < r.approvals.len() {
                    assert(ap[j] == s.emergency_requests[k].1.approvals[j]);
                }
            }
        }
    }
    let u = request_spec(s, requester, reason, request_id, now).0;
    let req = RequestView {
        id: request_id,
        requester,
        reason,
        created_at: now,
        approvals: Seq::empty(),
        required_approvals: s.required_emergency_sigs,
        is_approved: false,
    };
    assert forall|i: int, j: int|
        0 <= i < u.emergency_requests.len() && 0 <= j < u.emergency_requests[i].1.approvals.len()
            implies u.emergency_signers.contains(#[trigger] u.emergency_requests[i].1.approvals[j]) by {
        lemma_upsert_entries(s.emergency_requests, request_id, req, i);
    }
    let w = add_signer_spec(s, signer).0;
    assert forall|i: int, j: int|
        0 <= i < w.emergency_requests.len() && 0 <= j < w.emergency_requests[i].1.approvals.len()
            implies w.emergency_signers.contains(#[trigger] w.emergency_requests[i].1.approvals[j]) by {
        if w.emergency_signers != s.emergency_signers {
            let x = s.emergency_requests[i].1.approvals[j];
            assert(s.emergency_signers.contains(x));
            let k = choose|k: int| 0 <= k < s.emergency_signers.len() && s.emergency_signers[k] == x;
            assert(w.emergency_signers[k] == x);
        }
    }
}

/// An approval is never withdrawn, and approving twice with the same signer
/// changes nothing the second time.
pub proof fn law_approval_never_withdrawn(
    s: SwitchView,
    request_id: Seq<char>,
    signer: Seq<char>,
)
    requires
        crate::strmap::keys_distinct(s.emergency_requests),
        lookup(s.emergency_requests, request_id) matches Some(r) && r.is_approved,
    ensures
        lookup(approve_spec(s, request_id, signer).0.emergency_requests, request_id) matches Some(
            r,
        ) && r.is_approved,
{
    let t = approve_spec(s, request_id, signer).0;
    if t != s {
        let r = lookup(s.emergency_requests, request_id).unwrap();
        let ap = set_insert(r.approvals, signer);
        let r2 = RequestView { approvals: ap, is_approved: true, ..r };
        let k = key_pos(s.emergency_requests, request_id);
        let reqs = s.emergency_requests.update(k, (request_id, r2));
        assert(t.emergency_requests == reqs);
        assert(reqs[k].0 == request_id);
        let p = key_pos(reqs, request_id);
        if p != k {
            assert(reqs[p] == s.emergency_requests[p]);
        }
    }
}

/// Approving a request twice with the same signer leaves it as approving it once.
pub proof fn law_approval_idempotent(s: SwitchView, request_id: Seq<char>, signer: Seq<char>)
    requires
        crate::strmap::keys_distinct(s.emergency_requests),
    ensures
        approve_spec(approve_spec(s, request_id, signer).0, request_id, signer)
            == approve_spec(s, request_id, signer),
{
    let t = approve_spec(s, request_id, signer).0;
    if s.emergency_signers.contains(signer) && lookup(s.emergency_requests, request_id) is Some {
        let reqs = s.emergency_requests;
        let k = key_pos(reqs, request_id);
        let r = reqs[k].1;
        let ap = set_insert(r.approvals, signer);
        let approved = r.is_approved || ap.len() >= r.required_approvals;
        let r2 = RequestView { approvals: ap, is_approved: approved, ..r };
        let reqs2 = reqs.update(k, (request_id, r2));
        assert(t.emergency_requests == reqs2);
        assert(reqs2[k].0 == request_id);
        let p = key_pos(reqs2, request_id);
        if p != k {
            assert(reqs2[p] == reqs[p]);
        }
        assert(p == k);
        assert(set_insert(ap, signer) == ap) by {
            assert(ap.contains(signer)) by {
                if !r.approvals.contains(signer) {
                    assert(ap[r.approvals.len() as int] == signer);
                }
            }
        }
        let r3 = RequestView { approvals: ap, is_approved: approved || ap.len() >= r.required_approvals, ..r2 };
        assert(r3 == r2);
        assert(reqs2.update(k, (request_id, r3)) =~= reqs2);
    }
}

/// The audit log never outgrows its limit: appending an entry to a log within
/// `max` entries leaves it within `max`, with the new entry last when `max`
/// is positive.
pub proof fn law_audit_log_bounded(log: Seq<AuditEntryView>, e: AuditEntryView, max: usize)
    requires
        log.len() <= max,
    ensures
        push_bounded(log, e, max).len() <= max,
        max > 0 ==> push_bounded(log, e, max).last() == e,
{
}

/// The emergency signers never number more than ten.
pub proof fn law_signers_capped(s: SwitchView, signer: Seq<char>)
    requires
        s.emergency_signers.len() <= max_emergency_signers(),
    ensures
        add_signer_spec(s, signer).0.emergency_signers.len() <= max_emergency_signers(),
        s.emergency_signers.no_duplicates() ==> add_signer_spec(
            s,
            signer,
        ).0.emergency_signers.no_duplicates(),
{
}

/// Removing a beneficiary keeps the allocations within 100%.
pub proof fn law_remove_keeps_wf(s: SwitchView, address: Seq<char>, now: u64)
    requires
        s.wf(),
    ensures
        remove_beneficiary_spec(s, address, now).0.wf(),
{
    let bens = s.beneficiaries;
    if s.is_active && has_key(bens, address) {
        let p = key_pos(bens, address);
        lemma_allocated_remove(bens, p);
        let after = remove_key(bens, address);
        assert forall|i: int| 0 <= i < after.len() implies #[trigger] after[i].0 == after[i].1.address by {
            if i < p {
                assert(after[i] == bens[i]);
            } else {
                assert(after[i] == bens[i + 1]);
            }
        }
    }
}

/// The whitelist is sound: its allocations add up to at most 100%, it holds
/// at most `max_beneficiaries` beneficiaries, each is filed under its own
/// address, and each has at least the minimum allocation.
pub open spec fn whitelist_sound(s: SwitchView) -> bool {
    &&& allocated(s.beneficiaries) <= 100
    &&& s.beneficiaries.len() <= s.max_beneficiaries
    &&& crate::model::keyed_by_address(s.beneficiaries)
    &&& forall|i: int|
        0 <= i < s.beneficiaries.len() ==> #[trigger] s.beneficiaries[i].1.allocation_percentage
            >= s.minimum_allocation
}

/// Adding a beneficiary, accepted or refused, keeps a sound whitelist sound.
pub proof fn law_add_keeps_whitelist_sound(s: SwitchView, b: BeneficiaryView, now: u64)
    requires
        whitelist_sound(s),
    ensures
        whitelist_sound(add_beneficiary_spec(s, b, now).0),
{
    if add_beneficiary_spec(s, b, now).1 is Ok {
        let bens = s.beneficiaries;
        let after = upsert(bens, b.address, b);
        if has_key(bens, b.address) {
            lemma_allocated_update(bens, key_pos(bens, b.address), (b.address, b));
        } else {
            lemma_allocated_push(bens, (b.address, b));
        }
        assert forall|i: int| 0 <= i < after.len() implies #[trigger] after[i].0
            == after[i].1.address && after[i].1.allocation_percentage >= s.minimum_allocation by {
            lemma_upsert_entries(bens, b.address, b, i);
        }
    }
}

/// Every approved request has at least as many approvals as it requires.
pub open spec fn approved_have_enough(s: SwitchView) -> bool {
    forall|i: int|
        0 <= i < s.emergency_requests.len() && (#[trigger] s.emergency_requests[i]).1.is_approved
            ==> s.emergency_requests[i].1.approvals.len()
            >= s.emergency_requests[i].1.required_approvals
}

/// Approving, accepted or refused, keeps every approval an emergency
/// signer's and every approved request with enough approvals; it keeps the
/// requests filed where they were, takes no approval away, lowers no
/// requirement and turns no approved request back.
pub proof fn law_approve_keeps_requests_sound(
    s: SwitchView,
    request_id: Seq<char>,
    signer: Seq<char>,
)
    requires
        approvals_authorized(s),
        approved_have_enough(s),
    ensures
        ({
            let t = approve_spec(s, request_id, signer).0;
            &&& approvals_authorized(t)
            &&& approved_have_enough(t)
            &&& t.emergency_signers == s.emergency_signers
            &&& t.emergency_requests.len() == s.emergency_requests.len()
            &&& forall|i: int|
                0 <= i < s.emergency_requests.len() ==> {
                    let old_r = s.emergency_requests[i];
                    let new_r = #[trigger] t.emergency_requests[i];
                    &&& new_r.0 == old_r.0
                    &&& new_r.1.required_approvals == old_r.1.required_approvals
                    &&& (old_r.1.is_approved ==> new_r.1.is_approved)
                    &&& forall|j: int|
                        0 <= j < old_r.1.approvals.len() ==> new_r.1.approvals.contains(
                            old_r.1.approvals[j],
                        )
                }
        }),
{
    law_approvals_authorized(s, request_id, signer, Seq::empty(), Seq::empty(), 0);
    let t = approve_spec(s, request_id, signer).0;
    if s.emergency_signers.contains(signer) && lookup(s.emergency_requests, request_id) is Some {
        let reqs = s.emergency_requests;
        let k = key_pos(reqs, request_id);
        let r = reqs[k].1;
        let ap = set_insert(r.approvals, signer);
        let approved = r.is_approved || ap.len() >= r.required_approvals;
        let r2 = RequestView { approvals: ap, is_approved: approved, ..r };
        assert(t.emergency_requests == reqs.update(k, (request_id, r2)));
        assert(reqs[k].0 == request_id);
        assert forall|i: int|
            0 <= i < s.emergency_requests.len() implies {
                let old_r = s.emergency_requests[i];
                let new_r = #[trigger] t.emergency_requests[i];
                &&& new_r.0 == old_r.0
                &&& new_r.1.required_approvals == old_r.1.required_approvals
                &&& (old_r.1.is_approved ==> new_r.1.is_approved)
                &&& forall|j: int|
                    0 <= j < old_r.1.approvals.len() ==> new_r.1.approvals.contains(
                        old_r.1.approvals[j],
                    )
            } by {
            if i == k {
                assert forall|j: int| 0 <= j < r.approvals.len() implies ap.contains(
                    r.approvals[j],
                ) by {
                    assert(ap[j] == r.approvals[j]);
                }
            } else {
                assert(t.emergency_requests[i] == reqs[i]);
                assert forall|j: int| 0 <= j < reqs[i].1.approvals.len() implies reqs[i].1.approvals.contains(
                    reqs[i].1.approvals[j],
                ) by {
                }
            }
        }
        assert forall|i: int|
            0 <= i < t.emergency_requests.len() && (#[trigger] t.emergency_requests[i]).1.is_approved
                implies t.emergency_requests[i].1.approvals.len()
                >= t.emergency_requests[i].1.required_approvals by {
            if i == k {
                assert(ap.len() >= r.approvals.len());
                assert(reqs[k].1.is_approved ==> reqs[k].1.approvals.len() >= r.required_approvals);
            } else {
                assert(t.emergency_requests[i] == reqs[i]);
            }
        }
    } else {
        assert forall|i: int|
            0 <= i < s.emergency_requests.len() implies {
                let old_r = s.emergency_requests[i];
                let new_r = #[trigger] t.emergency_requests[i];
                &&& new_r.0 == old_r.0
                &&& new_r.1.required_approvals == old_r.1.required_approvals
                &&& (old_r.1.is_approved ==> new_r.1.is_approved)
                &&& forall|j: int|
                    0 <= j < old_r.1.approvals.len() ==> new_r.1.approvals.contains(
                        old_r.1.approvals[j],
                    )
            } by {
            let old_r = s.emergency_requests[i];
            assert forall|j: int| 0 <= j < old_r.1.approvals.len() implies old_r.1.approvals.contains(
                old_r.1.approvals[j],
            ) by {
            }
        }
    }
}

} // verus!

