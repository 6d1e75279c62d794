//! What each operation of the switch is for, stated in terms of its inputs
//! and results, for every state and argument: when it succeeds, what it
//! leaves in the whitelist, the requests and the distribution plan, and how
//! one call bears on another.

use vstd::prelude::*;

use crate::model::{
    active_of, add_beneficiary_spec, add_signer_spec, allocated, approve_spec, heartbeat_spec,
    keyed_by_address, new_spec, plan, remove_beneficiary_spec, request_spec, status_spec, trigger_spec,
    SwitchView,
};
use crate::rounding::share;
use crate::strmap::{
    has_key, keys_distinct, lemma_key_pos_unique, lemma_lookup_remove, lemma_lookup_upsert,
    lookup,
};
use crate::types::{ActivityType, BeneficiaryView};

verus! {

/// The active beneficiaries are exactly the filed beneficiaries that are
/// active: every member of the list is an active filed beneficiary, and
/// every active filed beneficiary is on it.
pub proof fn law_active_are_the_active_filed(s: Seq<(Seq<char>, BeneficiaryView)>)
    ensures
        forall|j: int|
            0 <= j < active_of(s).len() ==> exists|i: int|
                0 <= i < s.len() && s[i].1 == #[trigger] active_of(s)[j] && s[i].1.is_active,
        forall|i: int|
            0 <= i < s.len() && (#[trigger] s[i]).1.is_active ==> exists|j: int|
                0 <= j < active_of(s).len() && active_of(s)[j] == s[i].1,
    decreases s.len(),
{
    if s.len() > 0 {
        let t = s.drop_last();
        law_active_are_the_active_filed(t);
        let last = s.len() - 1;
        assert forall|j: int| 0 <= j < active_of(s).len() implies exists|i: int|
            0 <= i < s.len() && s[i].1 == #[trigger] active_of(s)[j] && s[i].1.is_active by {
            if j < active_of(t).len() {
                assert(active_of(s)[j] == active_of(t)[j]);
                let i = choose|i: int|
                    0 <= i < t.len() && t[i].1 == #[trigger] active_of(t)[j] && t[i].1.is_active;
                assert(s[i] == t[i]);
            } else {
                assert(active_of(s)[j] == s[last].1);
            }
        }
        assert forall|i: int| 0 <= i < s.len() && (#[trigger] s[i]).1.is_active implies exists|
            j: int,
        | 0 <= j < active_of(s).len() && active_of(s)[j] == s[i].1 by {
            if i < last {
                assert(t[i] == s[i]);
                let j = choose|j: int| 0 <= j < active_of(t).len() && active_of(t)[j] == t[i].1;
                assert(active_of(s)[j] == active_of(t)[j]);
            } else {
                assert(active_of(s)[active_of(t).len() as int] == s[last].1);
            }
        }
    }
}

/// The active beneficiaries of a whitelist without repeated keys, each filed
/// under its own address, have distinct addresses.
pub proof fn law_active_addresses_distinct(s: Seq<(Seq<char>, BeneficiaryView)>)
    requires
        keys_distinct(s),
        keyed_by_address(s),
    ensures
        forall|a: int, b: int|
            0 <= a < active_of(s).len() && 0 <= b < active_of(s).len() && a != b
                ==> active_of(s)[a].address != active_of(s)[b].address,
    decreases s.len(),
{
    if s.len() > 0 {
        let t = s.drop_last();
        let last = s.len() - 1;
        assert forall|i: int| 0 <= i < t.len() implies #[trigger] t[i].0 == t[i].1.address by {
            assert(s[i] == t[i]);
        }
        law_active_addresses_distinct(t);
        law_active_are_the_active_filed(t);
        if s[last].1.is_active {
            assert forall|j: int| 0 <= j < active_of(t).len() implies active_of(t)[j].address
                != s[last].1.address by {
                let i = choose|i: int|
                    0 <= i < t.len() && t[i].1 == #[trigger] active_of(t)[j] && t[i].1.is_active;
                assert(s[i] == t[i]);
                assert(s[i].0 == s[i].1.address);
                assert(s[last].0 == s[last].1.address);
            }
        }
    }
}

/// A plan files each address of the list once, and nothing else.
proof fn lemma_plan_keys(a: Seq<BeneficiaryView>, total: u64)
    ensures
        keys_distinct(plan(a, total)),
        forall|k: Seq<char>|
            #[trigger] has_key(plan(a, total), k) <==> exists|i: int|
                0 <= i < a.len() && (#[trigger] a[i]).address == k,
    decreases a.len(),
{
    if a.len() > 0 {
        let t = a.drop_last();
        let x = a.last();
        lemma_plan_keys(t, total);
        lemma_lookup_upsert(plan(t, total), x.address, share(total, x.allocation_percentage));
        assert forall|k: Seq<char>|
            #[trigger] has_key(plan(a, total), k) <==> exists|i: int|
                0 <= i < a.len() && (#[trigger] a[i]).address == k by {
            if has_key(plan(a, total), k) {
                if k == x.address {
                    assert(a[a.len() - 1] == x);
                } else {
                    assert(has_key(plan(t, total), k));
                    let i = choose|i: int| 0 <= i < t.len() && (#[trigger] t[i]).address == k;
                    assert(a[i] == t[i]);
                }
            }
            if exists|i: int| 0 <= i < a.len() && (#[trigger] a[i]).address == k {
                let i = choose|i: int| 0 <= i < a.len() && (#[trigger] a[i]).address == k;
                if i < t.len() {
                    assert(a[i] == t[i]);
                }
            }
        }
    }
}

/// When the addresses of the list are distinct, the plan pays each its share.
proof fn lemma_plan_lookup(a: Seq<BeneficiaryView>, total: u64, i: int)
    requires
        0 <= i < a.len(),
        forall|p: int, q: int|
            0 <= p < a.len() && 0 <= q < a.len() && p != q ==> a[p].address != a[q].address,
    ensures
        lookup(plan(a, total), a[i].address) == Some(share(total, a[i].allocation_percentage)),
    decreases a.len(),
{
    let t = a.drop_last();
    let x = a.last();
    lemma_plan_keys(t, total);
    lemma_lookup_upsert(plan(t, total), x.address, share(total, x.allocation_percentage));
    if i < a.len() - 1 {
        assert(a[i] == t[i]);
        assert(a[i].address != x.address);
        lemma_plan_lookup(t, total, i);
    }
}

/// A distribution plan pays exactly the active beneficiaries: each active
/// one its share of the total funds, no inactive one anything, and nobody
/// who is not on the whitelist.
pub proof fn law_distribution_pays_active_only(s: SwitchView)
    requires
        keys_distinct(s.beneficiaries),
        keyed_by_address(s.beneficiaries),
    ensures
        forall|i: int|
            0 <= i < s.beneficiaries.len() && (#[trigger] s.beneficiaries[i]).1.is_active
                ==> lookup(s.distribution(), s.beneficiaries[i].0) == Some(
                share(s.total_funds, s.beneficiaries[i].1.allocation_percentage),
            ),
        forall|i: int|
            0 <= i < s.beneficiaries.len() && !(#[trigger] s.beneficiaries[i]).1.is_active
                ==> !has_key(s.distribution(), s.beneficiaries[i].0),
        forall|k: Seq<char>|
            #[trigger] has_key(s.distribution(), k) ==> exists|i: int|
                0 <= i < s.beneficiaries.len() && (#[trigger] s.beneficiaries[i]).0 == k
                    && s.beneficiaries[i].1.is_active,
{
    let bens = s.beneficiaries;
    let act = active_of(bens);
    let t = s.total_funds;
    law_active_are_the_active_filed(bens);
    law_active_addresses_distinct(bens);
    lemma_plan_keys(act, t);
    assert forall|i: int| 0 <= i < bens.len() && (#[trigger] bens[i]).1.is_active implies lookup(
        s.distribution(),
        bens[i].0,
    ) == Some(share(t, bens[i].1.allocation_percentage)) by {
        let j = choose|j: int| 0 <= j < act.len() && act[j] == bens[i].1;
        assert(bens[i].0 == bens[i].1.address);
        lemma_plan_lookup(act, t, j);
    }
    assert forall|k: Seq<char>| #[trigger] has_key(s.distribution(), k) implies exists|i: int|
        0 <= i < bens.len() && (#[trigger] bens[i]).0 == k && bens[i].1.is_active by {
        let j = choose|j: int| 0 <= j < act.len() && (#[trigger] act[j]).address == k;
        let i = choose|i: int| 0 <= i < bens.len() && bens[i].1 == #[trigger] act[j] && bens[i].1.is_active;
        assert(bens[i].0 == bens[i].1.address);
    }
    assert forall|i: int| 0 <= i < bens.len() && !(#[trigger] bens[i]).1.is_active implies !has_key(
        s.distribution(),
        bens[i].0,
    ) by {
        if has_key(s.distribution(), bens[i].0) {
            let j = choose|j: int| 0 <= j < act.len() && (#[trigger] act[j]).address == bens[i].0;
            let i2 = choose|i2: int|
                0 <= i2 < bens.len() && bens[i2].1 == #[trigger] act[j] && bens[i2].1.is_active;
            assert(bens[i2].0 == bens[i2].1.address);
            assert(bens[i].0 == bens[i].1.address);
            lemma_key_pos_unique(bens, i);
            lemma_key_pos_unique(bens, i2);
        }
    }
}

/// Triggering the distribution, when it succeeds, pays exactly the active
/// beneficiaries: each active one its share of the total funds, no inactive
/// one anything, nobody off the whitelist; and it answers the plan that
/// `calculate_distribution` gives.
pub proof fn law_trigger_pays_active_only(s: SwitchView, reason: Seq<char>, now: u64)
    requires
        keys_distinct(s.beneficiaries),
        keyed_by_address(s.beneficiaries),
    ensures
        trigger_spec(s, reason, now).1 matches Ok(p) ==> {
            &&& p == s.distribution()
            &&& forall|i: int|
                0 <= i < s.beneficiaries.len() && (#[trigger] s.beneficiaries[i]).1.is_active
                    ==> lookup(p, s.beneficiaries[i].0) == Some(
                    share(s.total_funds, s.beneficiaries[i].1.allocation_percentage),
                )
            &&& forall|i: int|
                0 <= i < s.beneficiaries.len() && !(#[trigger] s.beneficiaries[i]).1.is_active
                    ==> !has_key(p, s.beneficiaries[i].0)
            &&& forall|k: Seq<char>|
                #[trigger] has_key(p, k) ==> exists|i: int|
                    0 <= i < s.beneficiaries.len() && (#[trigger] s.beneficiaries[i]).0 == k
                        && s.beneficiaries[i].1.is_active
        },
{
    law_distribution_pays_active_only(s);
}

/// The countdown runs from the last heartbeat: at any moment not before it,
/// the report gives the seconds since that heartbeat and what is left of the
/// inactivity timeout, never below zero; the two add up to the timeout until
/// it has passed, and when the switch was created makes no difference.
pub proof fn law_status_counts_from_heartbeat(s: SwitchView, now: u64, created_at: u64)
    requires
        now >= s.last_heartbeat,
    ensures
        status_spec(s, now).time_since_heartbeat == now - s.last_heartbeat,
        now - s.last_heartbeat <= s.inactivity_timeout ==> status_spec(s, now).time_since_heartbeat
            + status_spec(s, now).time_until_trigger == s.inactivity_timeout,
        now - s.last_heartbeat > s.inactivity_timeout ==> status_spec(s, now).time_until_trigger
            == 0,
        status_spec(SwitchView { created_at, ..s }, now) == status_spec(s, now),
{
}

/// A heartbeat restarts the countdown: after a heartbeat at `beat`, the
/// report at any later moment leaves the whole timeout less the time since
/// `beat`, never below zero.
pub proof fn law_heartbeat_restarts_countdown(
    s: SwitchView,
    initiator: Seq<char>,
    beat: u64,
    now: u64,
)
    requires
        s.is_active,
        beat <= now,
    ensures
        status_spec(heartbeat_spec(s, initiator, beat).0, now).time_until_trigger == (if now - beat
            <= s.inactivity_timeout {
            s.inactivity_timeout - (now - beat)
        } else {
            0
        }),
{
}

/// Any filed beneficiary of an active switch can be removed, wherever it is
/// filed: the removal succeeds, the address is then no longer on the
/// whitelist, and every other beneficiary stays as it was. An address that
/// is not filed is refused and changes nothing.
pub proof fn law_remove_takes_out_any_filed(s: SwitchView, address: Seq<char>, now: u64)
    requires
        s.is_active,
        keys_distinct(s.beneficiaries),
    ensures
        has_key(s.beneficiaries, address) ==> {
            let t = remove_beneficiary_spec(s, address, now).0;
            &&& remove_beneficiary_spec(s, address, now).1 is Ok
            &&& !has_key(t.beneficiaries, address)
            &&& t.beneficiaries.len() == s.beneficiaries.len() - 1
            &&& forall|k: Seq<char>|
                k != address ==> #[trigger] lookup(t.beneficiaries, k) == lookup(
                    s.beneficiaries,
                    k,
                )
        },
        !has_key(s.beneficiaries, address) ==> remove_beneficiary_spec(s, address, now).0 == s
            && remove_beneficiary_spec(s, address, now).1 is Err,
{
    lemma_lookup_remove(s.beneficiaries, address);
    if has_key(s.beneficiaries, address) {
        assert(lookup(s.beneficiaries, address) is Some);
    }
}

/// A beneficiary is accepted exactly when the switch is active, the
/// whitelist has room, the allocation is at least the minimum and the
/// allocations stay within 100%. An accepted beneficiary is then filed under
/// its address, every other entry stays as it was; a refusal changes nothing.
pub proof fn law_add_accepts_exactly_when_allowed(s: SwitchView, b: BeneficiaryView, now: u64)
    requires
        keys_distinct(s.beneficiaries),
    ensures
        add_beneficiary_spec(s, b, now).1 is Ok <==> {
            &&& s.is_active
            &&& s.beneficiaries.len() < s.max_beneficiaries
            &&& b.allocation_percentage >= s.minimum_allocation
            &&& allocated(s.beneficiaries) + b.allocation_percentage <= 100
        },
        add_beneficiary_spec(s, b, now).1 is Ok ==> {
            let t = add_beneficiary_spec(s, b, now).0;
            &&& lookup(t.beneficiaries, b.address) == Some(b)
            &&& forall|k: Seq<char>|
                k != b.address ==> #[trigger] lookup(t.beneficiaries, k) == lookup(
                    s.beneficiaries,
                    k,
                )
        },
        add_beneficiary_spec(s, b, now).1 is Err ==> add_beneficiary_spec(s, b, now).0 == s,
{
    lemma_lookup_upsert(s.beneficiaries, b.address, b);
}

/// Filing a request for emergency access answers its id and files, under
/// that id, a request by the requester for the reason given, made at that
/// moment, with no approvals yet, not approved, and needing as many
/// approvals as the switch requires of emergency access at that time. Every
/// other request stays as it was.
pub proof fn law_request_files_request(
    s: SwitchView,
    requester: Seq<char>,
    reason: Seq<char>,
    id: Seq<char>,
    now: u64,
)
    requires
        keys_distinct(s.emergency_requests),
    ensures
        request_spec(s, requester, reason, id, now).1 == Ok::<Seq<char>, Seq<char>>(id),
        lookup(request_spec(s, requester, reason, id, now).0.emergency_requests, id) matches Some(
            r,
        ) && {
            &&& r.id == id
            &&& r.requester == requester
            &&& r.reason == reason
            &&& r.created_at == now
            &&& r.approvals.len() == 0
            &&& !r.is_approved
            &&& r.required_approvals == s.required_emergency_sigs
        },
        forall|k: Seq<char>|
            k != id ==> #[trigger] lookup(
                request_spec(s, requester, reason, id, now).0.emergency_requests,
                k,
            ) == lookup(s.emergency_requests, k),
{
    let req = crate::types::RequestView {
        id,
        requester,
        reason,
        created_at: now,
        approvals: Seq::empty(),
        required_approvals: s.required_emergency_sigs,
        is_approved: false,
    };
    lemma_lookup_upsert(s.emergency_requests, id, req);
}

/// The switch is due exactly when it is active and the inactivity timeout
/// has passed since the last heartbeat.
pub proof fn law_due_exactly_after_timeout(s: SwitchView, now: u64)
    ensures
        s.due(now) <==> (s.is_active && now >= s.last_heartbeat + s.inactivity_timeout),
{
}

/// A heartbeat to an active switch is accepted: it records `now` as the last
/// heartbeat, logs a heartbeat entry from the initiator at `now`, and leaves
/// the whitelist, the funds, the signers and the requests alone. An inactive
/// switch refuses it and stays as it is.
pub proof fn law_heartbeat_records_moment(s: SwitchView, initiator: Seq<char>, now: u64)
    ensures
        s.is_active ==> {
            let t = heartbeat_spec(s, initiator, now).0;
            &&& heartbeat_spec(s, initiator, now).1 is Ok
            &&& t.last_heartbeat == now
            &&& t.is_active
            &&& t.beneficiaries == s.beneficiaries
            &&& t.total_funds == s.total_funds
            &&& t.emergency_signers == s.emergency_signers
            &&& t.emergency_requests == s.emergency_requests
            &&& (s.max_audit_entries > 0 ==> {
                &&& t.audit_log.last().activity_type == ActivityType::Heartbeat
                &&& t.audit_log.last().timestamp == now
                &&& t.audit_log.last().initiator == initiator
            })
        },
        !s.is_active ==> heartbeat_spec(s, initiator, now).0 == s && heartbeat_spec(
            s,
            initiator,
            now,
        ).1 is Err,
{
}

/// Triggering succeeds exactly when the switch is active, has beneficiaries,
/// and is due or the reason is `"manual_override"`; it then leaves the switch
/// inactive with its whitelist and funds as they were. A refusal changes
/// nothing.
pub proof fn law_trigger_succeeds_exactly_when_allowed(s: SwitchView, reason: Seq<char>, now: u64)
    ensures
        trigger_spec(s, reason, now).1 is Ok <==> {
            &&& s.is_active
            &&& s.beneficiaries.len() > 0
            &&& (s.due(now) || reason == "manual_override"@)
        },
        trigger_spec(s, reason, now).1 is Ok ==> {
            let t = trigger_spec(s, reason, now).0;
            &&& !t.is_active
            &&& t.beneficiaries == s.beneficiaries
            &&& t.total_funds == s.total_funds
        },
        trigger_spec(s, reason, now).1 is Err ==> trigger_spec(s, reason, now).0 == s,
{
}

/// An emergency signer's approval of a filed request is accepted and counted
/// once: the request then holds every approval it held and the signer's, one
/// more than before unless the signer had approved already, and it is
/// approved exactly when it was before or its approvals now reach the number
/// required, which is the answer. Other requests stay as they were. A
/// signer who is not an emergency signer, or an id with no request, is
/// refused and changes nothing.
pub proof fn law_approve_counts_each_signer_once(s: SwitchView, id: Seq<char>, signer: Seq<char>)
    requires
        keys_distinct(s.emergency_requests),
    ensures
        s.emergency_signers.contains(signer) && lookup(s.emergency_requests, id) is Some ==> {
            let r = lookup(s.emergency_requests, id).unwrap();
            let t = approve_spec(s, id, signer).0;
            &&& lookup(t.emergency_requests, id) matches Some(r2) && {
                &&& r2.approvals.contains(signer)
                &&& forall|j: int|
                    0 <= j < r.approvals.len() ==> r2.approvals.contains(#[trigger] r.approvals[j])
                &&& r2.approvals.len() == r.approvals.len() + (if r.approvals.contains(signer) {
                    0int
                } else {
                    1int
                })
                &&& r2.required_approvals == r.required_approvals
                &&& r2.is_approved == (r.is_approved || r2.approvals.len()
                    >= r.required_approvals)
                &&& approve_spec(s, id, signer).1 == Ok::<bool, Seq<char>>(r2.is_approved)
            }
            &&& forall|k: Seq<char>|
                k != id ==> #[trigger] lookup(t.emergency_requests, k) == lookup(
                    s.emergency_requests,
                    k,
                )
        },
        !s.emergency_signers.contains(signer) || lookup(s.emergency_requests, id) is None ==> {
            &&& approve_spec(s, id, signer).0 == s
            &&& approve_spec(s, id, signer).1 is Err
        },
{
    if s.emergency_signers.contains(signer) && lookup(s.emergency_requests, id) is Some {
        let r = lookup(s.emergency_requests, id).unwrap();
        let ap = crate::strmap::set_insert(r.approvals, signer);
        let r2 = crate::types::RequestView {
            approvals: ap,
            is_approved: r.is_approved || ap.len() >= r.required_approvals,
            ..r
        };
        lemma_lookup_upsert(s.emergency_requests, id, r2);
        assert forall|j: int| 0 <= j < r.approvals.len() implies ap.contains(
            #[trigger] r.approvals[j],
        ) by {
            assert(ap[j] == r.approvals[j]);
        }
        if !r.approvals.contains(signer) {
            assert(ap[r.approvals.len() as int] == signer);
        }
    }
}

/// Adding an emergency signer is accepted exactly while there are fewer than
/// ten; the signer is then one of them, every signer stays one, and the count
/// grows by one unless the signer was there already. A refusal changes
/// nothing.
pub proof fn law_add_signer_keeps_signers(s: SwitchView, signer: Seq<char>)
    ensures
        add_signer_spec(s, signer).1 is Ok <==> s.emergency_signers.len() < 10,
        add_signer_spec(s, signer).1 is Ok ==> {
            let t = add_signer_spec(s, signer).0;
            &&& t.emergency_signers.contains(signer)
            &&& forall|j: int|
                0 <= j < s.emergency_signers.len() ==> t.emergency_signers.contains(
                    #[trigger] s.emergency_signers[j],
                )
            &&& t.emergency_signers.len() == s.emergency_signers.len() + (if s.emergency_signers.contains(
                signer,
            ) {
                0int
            } else {
                1int
            })
        },
        add_signer_spec(s, signer).1 is Err ==> add_signer_spec(s, signer).0 == s,
{
    let t = add_signer_spec(s, signer).0;
    if s.emergency_signers.len() < 10 {
        assert forall|j: int| 0 <= j < s.emergency_signers.len() implies t.emergency_signers.contains(
            #[trigger] s.emergency_signers[j],
        ) by {
            assert(t.emergency_signers[j] == s.emergency_signers[j]);
        }
        if !s.emergency_signers.contains(signer) {
            assert(t.emergency_signers[s.emergency_signers.len() as int] == signer);
        }
    }
}

/// A new switch starts active at its creation moment, with that moment as its
/// last heartbeat, the identity, owner, timeout and vault it was given, and
/// no beneficiaries, funds, signers, requests or audit entries.
pub proof fn law_new_switch_starts_empty(
    id: Seq<char>,
    owner: Seq<char>,
    owner_public_key: Seq<char>,
    timeout: u64,
    vault_address: Seq<char>,
    now: u64,
)
    ensures
        ({
            let s = new_spec(id, owner, owner_public_key, timeout, vault_address, now);
            &&& s.is_active
            &&& s.created_at == now && s.last_heartbeat == now
            &&& s.id == id && s.owner == owner && s.owner_public_key == owner_public_key
            &&& s.inactivity_timeout == timeout && s.vault_address == vault_address
            &&& s.beneficiaries.len() == 0 && s.total_funds == 0
            &&& s.emergency_signers.len() == 0 && s.emergency_requests.len() == 0
            &&& s.audit_log.len() == 0
        }),
{
}

} // verus!
