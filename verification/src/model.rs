//! The abstract state of a switch and what each operation does to it.
//!
//! Each operation is a function from the state before (and its arguments,
//! the moment of the call among them) to the state after and the answer.
//! The executable methods of `DeadmanSwitch` are proved to follow these.

use vstd::prelude::*;

use crate::strmap::{lookup, remove_key, set_insert, upsert};
use crate::rounding::share;
use crate::text::decimal;
use crate::types::{ActivityType, AuditEntryView, BeneficiaryView, RequestView, StatusView};

verus! {

/// The whole state of a switch, its texts taken as character sequences.
#[verifier::ext_equal]
pub struct SwitchView {
    pub id: Seq<char>,
    pub owner: Seq<char>,
    pub owner_public_key: Seq<char>,
    pub inactivity_timeout: u64,
    pub check_interval: u64,
    pub last_heartbeat: u64,
    pub created_at: u64,
    pub beneficiaries: Seq<(Seq<char>, BeneficiaryView)>,
    pub max_beneficiaries: usize,
    pub minimum_allocation: u32,
    pub emergency_signers: Seq<Seq<char>>,
    pub required_emergency_sigs: usize,
    pub emergency_requests: Seq<(Seq<char>, RequestView)>,
    pub vault_address: Seq<char>,
    pub total_funds: u64,
    pub is_active: bool,
    pub audit_log: Seq<AuditEntryView>,
    pub max_audit_entries: usize,
    pub description: Option<Seq<char>>,
    pub encrypted: bool,
}

/// The most emergency signers a switch takes.
pub open spec fn max_emergency_signers() -> nat {
    10
}

/// The sum of the allocation percentages of the beneficiaries.
pub open spec fn allocated(bens: Seq<(Seq<char>, BeneficiaryView)>) -> int
    decreases bens.len(),
{
    if bens.len() == 0 {
        0
    } else {
        allocated(bens.drop_last()) + bens.last().1.allocation_percentage
    }
}

/// Every beneficiary is filed under its own address.
pub open spec fn keyed_by_address(bens: Seq<(Seq<char>, BeneficiaryView)>) -> bool {
    forall|i: int| 0 <= i < bens.len() ==> #[trigger] bens[i].0 == bens[i].1.address
}

/// The active beneficiaries, in the order they are filed.
pub open spec fn active_of(bens: Seq<(Seq<char>, BeneficiaryView)>) -> Seq<BeneficiaryView>
    decreases bens.len(),
{
    if bens.len() == 0 {
        Seq::empty()
    } else if bens.last().1.is_active {
        active_of(bens.drop_last()).push(bens.last().1)
    } else {
        active_of(bens.drop_last())
    }
}

/// What the beneficiaries in `active` receive: each one's share of `total`
/// (as binary64 arithmetic works it out, see `share`),
/// filed under its address (a later beneficiary with the same address
/// replacing an earlier one's amount).
pub open spec fn plan(active: Seq<BeneficiaryView>, total: u64) -> Seq<(Seq<char>, u64)>
    decreases active.len(),
{
    if active.len() == 0 {
        Seq::empty()
    } else {
        upsert(
            plan(active.drop_last(), total),
            active.last().address,
            share(total, active.last().allocation_percentage),
        )
    }
}

/// The sum of the amounts of a distribution plan.
pub open spec fn plan_total(p: Seq<(Seq<char>, u64)>) -> int
    decreases p.len(),
{
    if p.len() == 0 {
        0
    } else {
        plan_total(p.drop_last()) + p.last().1
    }
}

/// Appends an entry to an audit log that keeps at most `max` entries,
/// dropping the oldest one when it grows past that.
pub open spec fn push_bounded(log: Seq<AuditEntryView>, e: AuditEntryView, max: usize) -> Seq<
    AuditEntryView,
> {
    if log.len() + 1 > max {
        log.push(e).remove(0)
    } else {
        log.push(e)
    }
}

/// An audit entry.
pub open spec fn audit_entry(
    now: u64,
    kind: ActivityType,
    description: Seq<char>,
    initiator: Seq<char>,
    details: Seq<(Seq<char>, Seq<char>)>,
) -> AuditEntryView {
    AuditEntryView { timestamp: now, activity_type: kind, description, initiator, details }
}

/// The answer "the switch is inactive".
pub open spec fn inactive_msg() -> Seq<char> {
    "DeadmanSwitch is inactive"@
}

/// The answer to a change of an inactive switch.
pub open spec fn cannot_modify_msg() -> Seq<char> {
    "Cannot modify inactive switch"@
}

impl SwitchView {
    /// The beneficiaries' allocations add up to at most 100% and each
    /// beneficiary is filed under its own address.
    pub open spec fn wf(self) -> bool {
        &&& allocated(self.beneficiaries) <= 100
        &&& keyed_by_address(self.beneficiaries)
    }

    /// The state with `e` appended to the audit log.
    pub open spec fn logged(self, e: AuditEntryView) -> SwitchView {
        SwitchView { audit_log: push_bounded(self.audit_log, e, self.max_audit_entries), ..self }
    }

    /// At moment `now` the switch is active and the owner has been silent for
    /// at least the inactivity timeout.
    pub open spec fn due(self, now: u64) -> bool {
        self.is_active && now - self.last_heartbeat >= self.inactivity_timeout
    }

    /// What the funds would be shared out as: each active beneficiary's
    /// allocation of the total, rounded down.
    pub open spec fn distribution(self) -> Seq<(Seq<char>, u64)> {
        plan(active_of(self.beneficiaries), self.total_funds)
    }
}

/// A new switch, created at `now`.
pub open spec fn new_spec(
    id: Seq<char>,
    owner: Seq<char>,
    owner_public_key: Seq<char>,
    inactivity_timeout_secs: u64,
    vault_address: Seq<char>,
    now: u64,
) -> SwitchView {
    SwitchView {
        id,
        owner,
        owner_public_key,
        inactivity_timeout: inactivity_timeout_secs,
        check_interval: 3600,
        last_heartbeat: now,
        created_at: now,
        beneficiaries: Seq::empty(),
        max_beneficiaries: 10,
        minimum_allocation: 5,
        emergency_signers: Seq::empty(),
        required_emergency_sigs: 2,
        emergency_requests: Seq::empty(),
        vault_address,
        total_funds: 0,
        is_active: true,
        audit_log: Seq::empty(),
        max_audit_entries: 1000,
        description: None,
        encrypted: false,
    }
}

/// A heartbeat from `initiator` at `now`.
pub open spec fn heartbeat_spec(s: SwitchView, initiator: Seq<char>, now: u64) -> (
    SwitchView,
    Result<Seq<char>, Seq<char>>,
) {
    if !s.is_active {
        (s, Err(inactive_msg()))
    } else {
        let msg = "Heartbeat received from "@ + initiator;
        (
            SwitchView { last_heartbeat: now, ..s }.logged(
                audit_entry(now, ActivityType::Heartbeat, msg, initiator, Seq::empty()),
            ),
            Ok(msg),
        )
    }
}

/// Adding beneficiary `b` at `now`.
pub open spec fn add_beneficiary_spec(s: SwitchView, b: BeneficiaryView, now: u64) -> (
    SwitchView,
    Result<Seq<char>, Seq<char>>,
) {
    let pct = b.allocation_percentage;
    if !s.is_active {
        (s, Err(cannot_modify_msg()))
    } else if s.beneficiaries.len() >= s.max_beneficiaries {
        (
            s,
            Err("Maximum beneficiaries ("@ + decimal(s.max_beneficiaries as nat) + ") reached"@),
        )
    } else if pct < s.minimum_allocation {
        (s, Err("Allocation must be at least "@ + decimal(s.minimum_allocation as nat) + "%"@))
    } else if allocated(s.beneficiaries) + pct > 100 {
        (
            s,
            Err(
                "Total allocation would exceed 100% (current: "@ + decimal(
                    allocated(s.beneficiaries) as nat,
                ) + "%, new: "@ + decimal(pct as nat) + "%)"@,
            ),
        )
    } else {
        let details = seq![
            ("address"@, b.address),
            ("allocation"@, decimal(pct as nat)),
            ("name"@, b.name),
        ];
        (
            SwitchView {
                beneficiaries: upsert(s.beneficiaries, b.address, b),
                ..s
            }.logged(
                audit_entry(
                    now,
                    ActivityType::BeneficiaryAdded,
                    "Added beneficiary: "@ + b.name,
                    "system"@,
                    details,
                ),
            ),
            Ok("Beneficiary "@ + b.name + " added successfully"@),
        )
    }
}

/// Removing the beneficiary filed under `address` at `now`.
pub open spec fn remove_beneficiary_spec(s: SwitchView, address: Seq<char>, now: u64) -> (
    SwitchView,
    Result<Seq<char>, Seq<char>>,
) {
    if !s.is_active {
        (s, Err(cannot_modify_msg()))
    } else {
        match lookup(s.beneficiaries, address) {
            Some(b) => {
                let details = seq![("address"@, address), ("name"@, b.name)];
                (
                    SwitchView {
                        beneficiaries: remove_key(s.beneficiaries, address),
                        ..s
                    }.logged(
                        audit_entry(
                            now,
                            ActivityType::BeneficiaryRemoved,
                            "Removed beneficiary: "@ + b.name,
                            "system"@,
                            details,
                        ),
                    ),
                    Ok("Beneficiary "@ + b.name + " removed successfully"@),
                )
            },
            None => (s, Err("Beneficiary "@ + address + " not found"@)),
        }
    }
}

/// Triggering the distribution at `now` for `reason`; `"manual_override"`
/// triggers it whether or not the owner has gone silent.
pub open spec fn trigger_spec(s: SwitchView, reason: Seq<char>, now: u64) -> (
    SwitchView,
    Result<Seq<(Seq<char>, u64)>, Seq<char>>,
) {
    if !s.due(now) && reason != "manual_override"@ {
        (s, Err("DeadmanSwitch not triggered (owner still active)"@))
    } else if !s.is_active {
        (s, Err(inactive_msg()))
    } else if s.beneficiaries.len() == 0 {
        (s, Err("No beneficiaries configured"@))
    } else {
        let details = seq![
            ("reason"@, reason),
            ("total_distributed"@, decimal(s.total_funds as nat)),
            ("beneficiary_count"@, decimal(s.beneficiaries.len())),
        ];
        (
            SwitchView { is_active: false, ..s }.logged(
                audit_entry(
                    now,
                    ActivityType::DistributionTriggered,
                    "Distribution triggered: "@ + reason,
                    "system"@,
                    details,
                ),
            ),
            Ok(s.distribution()),
        )
    }
}

/// A request for emergency access by `requester`, filed at `now` under `id`.
pub open spec fn request_spec(
    s: SwitchView,
    requester: Seq<char>,
    reason: Seq<char>,
    id: Seq<char>,
    now: u64,
) -> (SwitchView, Result<Seq<char>, Seq<char>>) {
    let request = RequestView {
        id,
        requester,
        reason,
        created_at: now,
        approvals: Seq::empty(),
        required_approvals: s.required_emergency_sigs,
        is_approved: false,
    };
    let details = seq![("request_id"@, id), ("requester"@, requester), ("reason"@, reason)];
    (
        SwitchView { emergency_requests: upsert(s.emergency_requests, id, request), ..s }.logged(
            audit_entry(
                now,
                ActivityType::EmergencyAccess,
                "Emergency access requested by "@ + requester,
                requester,
                details,
            ),
        ),
        Ok(id),
    )
}

/// `signer` approving the request filed under `request_id`.
pub open spec fn approve_spec(s: SwitchView, request_id: Seq<char>, signer: Seq<char>) -> (
    SwitchView,
    Result<bool, Seq<char>>,
) {
    if !s.emergency_signers.contains(signer) {
        (s, Err("Signer not authorized"@))
    } else {
        match lookup(s.emergency_requests, request_id) {
            Some(r) => {
                let approvals = set_insert(r.approvals, signer);
                let approved = r.is_approved || approvals.len() >= r.required_approvals;
                let r2 = RequestView { approvals, is_approved: approved, ..r };
                (
                    SwitchView {
                        emergency_requests: upsert(s.emergency_requests, request_id, r2),
                        ..s
                    },
                    Ok(approved),
                )
            },
            None => (s, Err("Request not found"@)),
        }
    }
}

/// Adding `signer` to the emergency signers.
pub open spec fn add_signer_spec(s: SwitchView, signer: Seq<char>) -> (
    SwitchView,
    Result<Seq<char>, Seq<char>>,
) {
    if s.emergency_signers.len() >= max_emergency_signers() {
        (s, Err("Maximum emergency signers reached"@))
    } else {
        (
            SwitchView { emergency_signers: set_insert(s.emergency_signers, signer), ..s },
            Ok("Emergency signer "@ + signer + " added"@),
        )
    }
}

/// The status report at `now` (not before the last heartbeat).
pub open spec fn status_spec(s: SwitchView, now: u64) -> StatusView {
    let elapsed = (now - s.last_heartbeat) as u64;
    StatusView {
        id: s.id,
        is_active: s.is_active,
        owner: s.owner,
        last_heartbeat: s.last_heartbeat,
        time_since_heartbeat: elapsed,
        time_until_trigger: if s.inactivity_timeout >= elapsed {
            (s.inactivity_timeout - elapsed) as u64
        } else {
            0
        },
        should_trigger: s.due(now),
        beneficiary_count: s.beneficiaries.len() as usize,
        total_funds: s.total_funds,
        vault_address: s.vault_address,
        audit_entries: s.audit_log.len() as usize,
    }
}


/// Filing one more beneficiary adds its allocation to the total.
pub proof fn lemma_allocated_push(s: Seq<(Seq<char>, BeneficiaryView)>, x: (Seq<char>, BeneficiaryView))
    ensures
        allocated(s.push(x)) == allocated(s) + x.1.allocation_percentage,
{
    assert(s.push(x).drop_last() =~= s);
}

/// Replacing a beneficiary swaps its allocation in the total.
pub proof fn lemma_allocated_update(
    s: Seq<(Seq<char>, BeneficiaryView)>,
    i: int,
    x: (Seq<char>, BeneficiaryView),
)
    requires
        0 <= i < s.len(),
    ensures
        allocated(s.update(i, x)) == allocated(s) - s[i].1.allocation_percentage
            + x.1.allocation_percentage,
    decreases s.len(),
{
    if i == s.len() - 1 {
        assert(s.update(i, x).drop_last() =~= s.drop_last());
    } else {
        lemma_allocated_update(s.drop_last(), i, x);
        assert(s.update(i, x).drop_last() =~= s.drop_last().update(i, x));
    }
}

/// Dropping a beneficiary takes its allocation off the total.
pub proof fn lemma_allocated_remove(s: Seq<(Seq<char>, BeneficiaryView)>, i: int)
    requires
        0 <= i < s.len(),
    ensures
        allocated(s.remove(i)) == allocated(s) - s[i].1.allocation_percentage,
    decreases s.len(),
{
    if i == s.len() - 1 {
        assert(s.remove(i) =~= s.drop_last());
    } else {
        lemma_allocated_remove(s.drop_last(), i);
        assert(s.remove(i).drop_last() =~= s.drop_last().remove(i));
    }
}

/// The allocations of the first `i` beneficiaries add up to no more than all of them.
pub proof fn lemma_allocated_prefix(s: Seq<(Seq<char>, BeneficiaryView)>, i: int)
    requires
        0 <= i <= s.len(),
    ensures
        0 <= allocated(s.subrange(0, i)) <= allocated(s),
    decreases s.len(),
{
    if s.len() == 0 {
    } else if i == s.len() {
        assert(s.subrange(0, i) =~= s);
        lemma_allocated_prefix(s.drop_last(), 0);
    } else {
        lemma_allocated_prefix(s.drop_last(), i);
        assert(s.drop_last().subrange(0, i) =~= s.subrange(0, i));
    }
}

} // verus!
