//! The dead man's switch itself.
//!
//! Every operation that depends on the moment comes twice: a method that
//! takes the moment as an argument (`..._at`, `..._with`) and follows its
//! specification in `model` exactly, and one under the plain name that
//! reads the system clock and follows the same specification at whatever
//! moment the clock gave.

use vstd::prelude::*;

use crate::clock::{current_timestamp, generate_id};
use crate::model::{
    active_of, add_beneficiary_spec, add_signer_spec, allocated, approve_spec, audit_entry,
    heartbeat_spec, keyed_by_address, lemma_allocated_prefix, lemma_allocated_push,
    lemma_allocated_remove, lemma_allocated_update, new_spec, plan, push_bounded,
    remove_beneficiary_spec, request_spec, status_spec, trigger_spec, SwitchView,
};
use crate::rounding::share_of;
use crate::strmap::{has_key, key_pos, StrMap, StrSet};
use crate::text::{join2, join3, join5, lower_hex, to_decimal};
use crate::types::{
    ActivityType, AuditEntry, AuditEntryView, Beneficiary, EmergencyAccessRequest, StatusReport,
};

verus! {

/// A dead man's switch: a vault shared out among whitelisted beneficiaries
/// once its owner has sent no heartbeat for the inactivity timeout.
#[derive(Debug)]
pub struct DeadmanSwitch {
    pub id: String,
    pub owner: String,
    pub owner_public_key: String,
    /// Seconds of silence after which the switch triggers.
    pub inactivity_timeout: u64,
    /// Seconds between checks for inactivity.
    pub check_interval: u64,
    pub last_heartbeat: u64,
    pub created_at: u64,
    /// The whitelist, each beneficiary filed under its address.
    pub beneficiaries: StrMap<Beneficiary>,
    pub max_beneficiaries: usize,
    /// The least allocation, in percent, that a beneficiary may have.
    pub minimum_allocation: u32,
    pub emergency_signers: StrSet,
    pub required_emergency_sigs: usize,
    pub emergency_requests: StrMap<EmergencyAccessRequest>,
    pub vault_address: String,
    pub total_funds: u64,
    pub is_active: bool,
    pub audit_log: Vec<AuditEntry>,
    pub max_audit_entries: usize,
    pub description: Option<String>,
    pub encrypted: bool,
}

/// The entries of an audit log, each taken by its view.
pub open spec fn log_view(l: Seq<AuditEntry>) -> Seq<AuditEntryView> {
    l.map_values(|e: AuditEntry| e@)
}

/// A textual answer, taken by its view.
pub open spec fn text_result(r: Result<String, String>) -> Result<Seq<char>, Seq<char>> {
    match r {
        Ok(s) => Ok(s@),
        Err(e) => Err(e@),
    }
}

/// A distribution plan or its refusal, taken by its view.
pub open spec fn plan_result(r: Result<StrMap<u64>, String>) -> Result<
    Seq<(Seq<char>, u64)>,
    Seq<char>,
> {
    match r {
        Ok(m) => Ok(m@),
        Err(e) => Err(e@),
    }
}

/// An approval answer, its refusal taken by its view.
pub open spec fn approval_result(r: Result<bool, String>) -> Result<bool, Seq<char>> {
    match r {
        Ok(b) => Ok(b),
        Err(e) => Err(e@),
    }
}

impl View for DeadmanSwitch {
    type V = SwitchView;

    open spec fn view(&self) -> SwitchView {
        SwitchView {
            id: self.id@,
            owner: self.owner@,
            owner_public_key: self.owner_public_key@,
            inactivity_timeout: self.inactivity_timeout,
            check_interval: self.check_interval,
            last_heartbeat: self.last_heartbeat,
            created_at: self.created_at,
            beneficiaries: self.beneficiaries@,
            max_beneficiaries: self.max_beneficiaries,
            minimum_allocation: self.minimum_allocation,
            emergency_signers: self.emergency_signers@,
            required_emergency_sigs: self.required_emergency_sigs,
            emergency_requests: self.emergency_requests@,
            vault_address: self.vault_address@,
            total_funds: self.total_funds,
            is_active: self.is_active,
            audit_log: log_view(self.audit_log@),
            max_audit_entries: self.max_audit_entries,
            description: self.description.deep_view(),
            encrypted: self.encrypted,
        }
    }
}

/// Details of two named parts.
fn details2(k1: &str, v1: String, k2: &str, v2: String) -> (d: StrMap<String>)
    requires
        k1@ != k2@,
    ensures
        d@ == seq![(k1@, v1@), (k2@, v2@)],
{
    let mut d = StrMap::new();
    d.insert(k1.to_owned(), v1);
    assert(!has_key(d@, k2@)) by {
        assert(d@.len() == 1 && d@[0].0 == k1@);
    }
    d.insert(k2.to_owned(), v2);
    assert(d@ =~= seq![(k1@, v1@), (k2@, v2@)]);
    d
}

/// Details of three named parts.
fn details3(k1: &str, v1: String, k2: &str, v2: String, k3: &str, v3: String) -> (d: StrMap<
    String,
>)
    requires
        k1@ != k2@,
        k1@ != k3@,
        k2@ != k3@,
    ensures
        d@ == seq![(k1@, v1@), (k2@, v2@), (k3@, v3@)],
{
    let mut d = details2(k1, v1, k2, v2);
    assert(!has_key(d@, k3@)) by {
        assert(d@[0].0 == k1@ && d@[1].0 == k2@);
    }
    d.insert(k3.to_owned(), v3);
    assert(d@ =~= seq![(k1@, v1@), (k2@, v2@), (k3@, v3@)]);
    d
}

impl DeadmanSwitch {
    /// A new switch created at `now`: active, its last heartbeat at `now`, no
    /// beneficiaries, signers, requests or audit entries, and the defaults of
    /// `new_spec` for the rest.
    pub fn new_at(
        id: String,
        owner: String,
        owner_public_key: String,
        inactivity_timeout_secs: u64,
        vault_address: String,
        now: u64,
    ) -> (s: Self)
        ensures
            s@ == new_spec(
                id@,
                owner@,
                owner_public_key@,
                inactivity_timeout_secs,
                vault_address@,
                now,
            ),
            s@.wf(),
    {
        let s = DeadmanSwitch {
            id,
            owner,
            owner_public_key,
            inactivity_timeout: inactivity_timeout_secs,
            check_interval: 3600,
            last_heartbeat: now,
            created_at: now,
            beneficiaries: StrMap::new(),
            max_beneficiaries: 10,
            minimum_allocation: 5,
            emergency_signers: StrSet::new(),
            required_emergency_sigs: 2,
            emergency_requests: StrMap::new(),
            vault_address,
            total_funds: 0,
            is_active: true,
            audit_log: Vec::new(),
            max_audit_entries: 1000,
            description: None,
            encrypted: false,
        };
        assert(s@ =~= new_spec(
            s.id@,
            s.owner@,
            s.owner_public_key@,
            inactivity_timeout_secs,
            s.vault_address@,
            now,
        ));
        s
    }

    /// A new switch created now by the system clock.
    pub fn new(
        id: String,
        owner: String,
        owner_public_key: String,
        inactivity_timeout_secs: u64,
        vault_address: String,
    ) -> (s: Self)
        ensures
            exists|now: u64|
                s@ == #[trigger] new_spec(
                    id@,
                    owner@,
                    owner_public_key@,
                    inactivity_timeout_secs,
                    vault_address@,
                    now,
                ),
            s@.wf(),
    {
        let now = current_timestamp();
        Self::new_at(id, owner, owner_public_key, inactivity_timeout_secs, vault_address, now)
    }

    /// Appends an entry to the audit log, dropping the oldest entry when the
    /// log grows past `max_audit_entries`.
    fn add_audit_entry(
        &mut self,
        now: u64,
        activity_type: ActivityType,
        description: String,
        initiator: &str,
        details: StrMap<String>,
    )
        ensures
            final(self)@ == old(self)@.logged(
                audit_entry(now, activity_type, description@, initiator@, details@),
            ),
    {
        let entry = AuditEntry {
            timestamp: now,
            activity_type,
            description,
            initiator: initiator.to_owned(),
            details,
        };
        let ghost e = entry@;
        self.audit_log.push(entry);
        if self.audit_log.len() > self.max_audit_entries {
            self.audit_log.remove(0);
        }
        assert(log_view(self.audit_log@) =~= push_bounded(
            log_view(old(self).audit_log@),
            e,
            self.max_audit_entries,
        ));
        assert(self@ =~= old(self)@.logged(e));
    }

    /// Records a heartbeat from `initiator` at `now`: the owner is alive.
    pub fn heartbeat_at(&mut self, initiator: &str, now: u64) -> (r: Result<String, String>)
        ensures
            final(self)@ == heartbeat_spec(old(self)@, initiator@, now).0,
            text_result(r) == heartbeat_spec(old(self)@, initiator@, now).1,
    {
        if !self.is_active {
            return Err(String::from_str("DeadmanSwitch is inactive"));
        }
        self.last_heartbeat = now;
        let message = join2("Heartbeat received from ", initiator);
        self.add_audit_entry(
            now,
            ActivityType::Heartbeat,
            message.clone(),
            initiator,
            StrMap::new(),
        );
        Ok(message)
    }

    /// Records a heartbeat from `initiator` now by the system clock.
    pub fn heartbeat(&mut self, initiator: &str) -> (r: Result<String, String>)
        ensures
            exists|now: u64|
                final(self)@ == #[trigger] heartbeat_spec(old(self)@, initiator@, now).0
                    && text_result(r) == heartbeat_spec(old(self)@, initiator@, now).1,
    {
        let now = current_timestamp();
        self.heartbeat_at(initiator, now)
    }

    /// Whether the switch is due at `now`, for any moment.
    fn is_due(&self, now: u64) -> (b: bool)
        ensures
            b == self@.due(now),
    {
        self.is_active && now >= self.last_heartbeat && now - self.last_heartbeat
            >= self.inactivity_timeout
    }

    /// Whether the switch should trigger at `now`: it is active and the owner
    /// has been silent for at least the inactivity timeout.
    pub fn should_trigger_at(&self, now: u64) -> (b: bool)
        requires
            self.is_active ==> now >= self.last_heartbeat,
        ensures
            b == self@.due(now),
    {
        self.is_due(now)
    }

    /// Whether the switch should trigger now by the system clock. An inactive
    /// switch never does.
    pub fn should_trigger(&self) -> (b: bool)
        ensures
            exists|now: u64| b == #[trigger] self@.due(now),
            !self.is_active ==> !b,
    {
        let now = current_timestamp();
        self.is_due(now)
    }

    /// The sum of the beneficiaries' allocation percentages.
    fn allocation_total(&self) -> (t: u32)
        requires
            allocated(self@.beneficiaries) <= u32::MAX,
        ensures
            t == allocated(self@.beneficiaries),
    {
        let ghost bens = self@.beneficiaries;
        let n = self.beneficiaries.len();
        let mut sum: u32 = 0;
        let mut i: usize = 0;
        while i < n
            invariant
                bens == self@.beneficiaries,
                n == bens.len(),
                0 <= i <= n,
                allocated(bens) <= u32::MAX,
                sum == allocated(bens.subrange(0, i as int)),
            decreases n - i,
        {
            proof {
                lemma_allocated_prefix(bens, i + 1);
                assert(bens.subrange(0, i + 1).drop_last() =~= bens.subrange(0, i as int));
            }
            sum = sum + self.beneficiaries.value_at(i).allocation_percentage;
            i = i + 1;
        }
        assert(bens.subrange(0, n as int) =~= bens);
        sum
    }

    /// Adds `beneficiary` to the whitelist at `now`, filed under its address
    /// (replacing one filed there before). Refused when the switch is
    /// inactive, the whitelist is full, the allocation is below the minimum,
    /// or the allocations would add up to more than 100%.
    pub fn add_beneficiary_at(&mut self, beneficiary: Beneficiary, now: u64) -> (r: Result<
        String,
        String,
    >)
        requires
            old(self).is_active && old(self)@.beneficiaries.len() < old(self).max_beneficiaries
                && beneficiary.allocation_percentage >= old(self).minimum_allocation
                ==> allocated(old(self)@.beneficiaries) + beneficiary.allocation_percentage
                <= u32::MAX,
        ensures
            final(self)@ == add_beneficiary_spec(old(self)@, beneficiary@, now).0,
            text_result(r) == add_beneficiary_spec(old(self)@, beneficiary@, now).1,
            old(self)@.wf() ==> final(self)@.wf(),
    {
        if !self.is_active {
            return Err(String::from_str("Cannot modify inactive switch"));
        }
        if self.beneficiaries.len() >= self.max_beneficiaries {
            let max = to_decimal(self.max_beneficiaries as u64);
            return Err(join3("Maximum beneficiaries (", max.as_str(), ") reached"));
        }
        if beneficiary.allocation_percentage < self.minimum_allocation {
            let min = to_decimal(self.minimum_allocation as u64);
            return Err(join3("Allocation must be at least ", min.as_str(), "%"));
        }
        let current = self.allocation_total();
        let total_allocation = current + beneficiary.allocation_percentage;
        if total_allocation > 100 {
            let cur = to_decimal(current as u64);
            let new = to_decimal(beneficiary.allocation_percentage as u64);
            return Err(
                join5(
                    "Total allocation would exceed 100% (current: ",
                    cur.as_str(),
                    "%, new: ",
                    new.as_str(),
                    "%)",
                ),
            );
        }
        let ghost b = beneficiary@;
        let ghost bens = old(self)@.beneficiaries;
        let address = beneficiary.address.clone();
        let name = beneficiary.name.clone();
        let pct = beneficiary.allocation_percentage;
        self.beneficiaries.insert(address.clone(), beneficiary);
        proof {
            if has_key(bens, b.address) {
                lemma_allocated_update(bens, key_pos(bens, b.address), (b.address, b));
            } else {
                lemma_allocated_push(bens, (b.address, b));
            }
            let after = self@.beneficiaries;
            if keyed_by_address(bens) {
                assert forall|i: int| 0 <= i < after.len() implies #[trigger] after[i].0
                    == after[i].1.address by {
                    if i < bens.len() && (!has_key(bens, b.address) || i != key_pos(
                        bens,
                        b.address,
                    )) {
                        assert(after[i] == bens[i]);
                    }
                }
            }
            reveal_strlit("address");
            reveal_strlit("allocation");
            reveal_strlit("name");
            assert("address"@.len() != "allocation"@.len());
            assert("address"@.len() != "name"@.len());
            assert("allocation"@.len() != "name"@.len());
        }
        let details = details3(
            "address",
            address,
            "allocation",
            to_decimal(pct as u64),
            "name",
            name.clone(),
        );
        self.add_audit_entry(
            now,
            ActivityType::BeneficiaryAdded,
            join2("Added beneficiary: ", name.as_str()),
            "system",
            details,
        );
        Ok(join3("Beneficiary ", name.as_str(), " added successfully"))
    }

    /// Adds `beneficiary` to the whitelist now by the system clock; see
    /// `add_beneficiary_at`.
    pub fn add_beneficiary(&mut self, beneficiary: Beneficiary) -> (r: Result<String, String>)
        requires
            old(self).is_active && old(self)@.beneficiaries.len() < old(self).max_beneficiaries
                && beneficiary.allocation_percentage >= old(self).minimum_allocation
                ==> allocated(old(self)@.beneficiaries) + beneficiary.allocation_percentage
                <= u32::MAX,
        ensures
            exists|now: u64|
                final(self)@ == #[trigger] add_beneficiary_spec(old(self)@, beneficiary@, now).0
                    && text_result(r) == add_beneficiary_spec(old(self)@, beneficiary@, now).1,
            old(self)@.wf() ==> final(self)@.wf(),
    {
        let now = current_timestamp();
        self.add_beneficiary_at(beneficiary, now)
    }

    /// Removes the beneficiary filed under `address` at `now`. Refused when
    /// the switch is inactive or no beneficiary is filed there.
    pub fn remove_beneficiary_at(&mut self, address: &str, now: u64) -> (r: Result<String, String>)
        ensures
            final(self)@ == remove_beneficiary_spec(old(self)@, address@, now).0,
            text_result(r) == remove_beneficiary_spec(old(self)@, address@, now).1,
            old(self)@.wf() ==> final(self)@.wf(),
    {
        if !self.is_active {
            return Err(String::from_str("Cannot modify inactive switch"));
        }
        let ghost bens = old(self)@.beneficiaries;
        match self.beneficiaries.remove(address) {
            Some(beneficiary) => {
                proof {
                    lemma_allocated_remove(bens, key_pos(bens, address@));
                    let after = self@.beneficiaries;
                    let p = key_pos(bens, address@);
                    if keyed_by_address(bens) {
                        assert forall|i: int| 0 <= i < after.len() implies #[trigger] after[i].0
                            == after[i].1.address by {
                            if i < p {
                                assert(after[i] == bens[i]);
                            } else {
                                assert(after[i] == bens[i + 1]);
                            }
                        }
                    }
                    reveal_strlit("address");
                    reveal_strlit("name");
                    assert("address"@.len() != "name"@.len());
                }
                let details = details2(
                    "address",
                    address.to_owned(),
                    "name",
                    beneficiary.name.clone(),
                );
                self.add_audit_entry(
                    now,
                    ActivityType::BeneficiaryRemoved,
                    join2("Removed beneficiary: ", beneficiary.name.as_str()),
                    "system",
                    details,
                );
                Ok(join3("Beneficiary ", beneficiary.name.as_str(), " removed successfully"))
            },
            None => Err(join3("Beneficiary ", address, " not found")),
        }
    }

    /// Removes the beneficiary filed under `address` now by the system clock;
    /// see `remove_beneficiary_at`.
    pub fn remove_beneficiary(&mut self, address: &str) -> (r: Result<String, String>)
        ensures
            exists|now: u64|
                final(self)@ == #[trigger] remove_beneficiary_spec(old(self)@, address@, now).0
                    && text_result(r) == remove_beneficiary_spec(old(self)@, address@, now).1,
            old(self)@.wf() ==> final(self)@.wf(),
    {
        let now = current_timestamp();
        self.remove_beneficiary_at(address, now)
    }

    /// The active beneficiaries, in the order they are filed.
    pub fn get_active_beneficiaries(&self) -> (r: Vec<Beneficiary>)
        ensures
            r@.map_values(|b: Beneficiary| b@) == active_of(self@.beneficiaries),
    {
        let ghost bens = self@.beneficiaries;
        let n = self.beneficiaries.len();
        let mut r: Vec<Beneficiary> = Vec::new();
        let mut i: usize = 0;
        while i < n
            invariant
                bens == self@.beneficiaries,
                n == bens.len(),
                0 <= i <= n,
                r@.map_values(|b: Beneficiary| b@) == active_of(bens.subrange(0, i as int)),
            decreases n - i,
        {
            let b = self.beneficiaries.value_at(i);
            assert(bens.subrange(0, i + 1).drop_last() =~= bens.subrange(0, i as int));
            if b.is_active {
                let ghost before = r@;
                r.push(b.clone());
                assert(r@.map_values(|b: Beneficiary| b@) =~= before.map_values(
                    |b: Beneficiary| b@,
                ).push(bens[i as int].1));
            }
            i = i + 1;
        }
        assert(bens.subrange(0, n as int) =~= bens);
        r
    }

    /// How the vault would be shared out: each active beneficiary's address
    /// with its allocation of the total funds, in filing order. Each amount is
    /// `total × percent ÷ 100` worked out in binary64 floating point and rounded
    /// down (see `rounding::share`); it is the exact whole quotient while
    /// `total × percent` stays below 2^52, and can differ from it above.
    pub fn calculate_distribution(&self) -> (d: StrMap<u64>)
        ensures
            d@ == self@.distribution(),
    {
        let active = self.get_active_beneficiaries();
        let ghost act = active_of(self@.beneficiaries);
        let total = self.total_funds;
        let mut distribution: StrMap<u64> = StrMap::new();
        let n = active.len();
        let mut j: usize = 0;
        while j < n
            invariant
                n == active@.len(),
                act == active@.map_values(|b: Beneficiary| b@),
                act.len() == n,
                total == self.total_funds,
                0 <= j <= n,
                distribution@ == plan(act.subrange(0, j as int), total),
            decreases n - j,
        {
            let b = &active[j];
            assert(act[j as int] == b@);
            let amount = share_of(total, b.allocation_percentage);
            distribution.insert(b.address.clone(), amount);
            assert(act.subrange(0, j + 1).drop_last() =~= act.subrange(0, j as int));
            j = j + 1;
        }
        assert(act.subrange(0, n as int) =~= act);
        distribution
    }

    /// Shares out the vault at `now` for any moment; see `trigger_distribution_at`.
    fn trigger_with(&mut self, reason: &str, now: u64) -> (r: Result<StrMap<u64>, String>)
        ensures
            final(self)@ == trigger_spec(old(self)@, reason@, now).0,
            plan_result(r) == trigger_spec(old(self)@, reason@, now).1,
            old(self)@.wf() ==> final(self)@.wf(),
    {
        let manual = reason.to_owned() == String::from_str("manual_override");
        if !self.is_due(now) && !manual {
            return Err(String::from_str("DeadmanSwitch not triggered (owner still active)"));
        }
        if !self.is_active {
            return Err(String::from_str("DeadmanSwitch is inactive"));
        }
        if self.beneficiaries.is_empty() {
            return Err(String::from_str("No beneficiaries configured"));
        }
        let distribution = self.calculate_distribution();
        self.is_active = false;
        proof {
            reveal_strlit("reason");
            reveal_strlit("total_distributed");
            reveal_strlit("beneficiary_count");
            assert("reason"@.len() != "total_distributed"@.len());
            assert("reason"@.len() != "beneficiary_count"@.len());
            assert("total_distributed"@[0] != "beneficiary_count"@[0]);
        }
        let details = details3(
            "reason",
            reason.to_owned(),
            "total_distributed",
            to_decimal(self.total_funds),
            "beneficiary_count",
            to_decimal(self.beneficiaries.len() as u64),
        );
        self.add_audit_entry(
            now,
            ActivityType::DistributionTriggered,
            join2("Distribution triggered: ", reason),
            "system",
            details,
        );
        Ok(distribution)
    }

    /// Shares out the vault at `now`: refused unless the switch is due or the
    /// reason is `"manual_override"`, refused when the switch is inactive or
    /// has no beneficiaries; otherwise the switch becomes inactive and the
    /// answer is the distribution plan.
    pub fn trigger_distribution_at(&mut self, reason: &str, now: u64) -> (r: Result<
        StrMap<u64>,
        String,
    >)
        requires
            old(self).is_active ==> now >= old(self).last_heartbeat,
        ensures
            final(self)@ == trigger_spec(old(self)@, reason@, now).0,
            plan_result(r) == trigger_spec(old(self)@, reason@, now).1,
            old(self)@.wf() ==> final(self)@.wf(),
    {
        self.trigger_with(reason, now)
    }

    /// Shares out the vault now by the system clock; see `trigger_distribution_at`.
    pub fn trigger_distribution(&mut self, reason: &str) -> (r: Result<StrMap<u64>, String>)
        ensures
            exists|now: u64|
                final(self)@ == #[trigger] trigger_spec(old(self)@, reason@, now).0
                    && plan_result(r) == trigger_spec(old(self)@, reason@, now).1,
            old(self)@.wf() ==> final(self)@.wf(),
    {
        let now = current_timestamp();
        self.trigger_with(reason, now)
    }

    /// Files a request by `requester` for emergency access under `request_id`
    /// at `now` (replacing a request filed under that id before). The request
    /// starts with no approvals and needs `required_emergency_sigs` of them.
    /// The answer is the request's id.
    pub fn request_emergency_access_with(
        &mut self,
        requester: &str,
        reason: &str,
        request_id: String,
        now: u64,
    ) -> (r: Result<String, String>)
        ensures
            final(self)@ == request_spec(old(self)@, requester@, reason@, request_id@, now).0,
            text_result(r) == request_spec(old(self)@, requester@, reason@, request_id@, now).1,
            final(self)@.beneficiaries == old(self)@.beneficiaries,
    {
        let request = EmergencyAccessRequest {
            id: request_id.clone(),
            requester: requester.to_owned(),
            reason: reason.to_owned(),
            created_at: now,
            approvals: StrSet::new(),
            required_approvals: self.required_emergency_sigs,
            is_approved: false,
        };
        self.emergency_requests.insert(request_id.clone(), request);
        proof {
            reveal_strlit("request_id");
            reveal_strlit("requester");
            reveal_strlit("reason");
            assert("request_id"@.len() != "requester"@.len());
            assert("request_id"@.len() != "reason"@.len());
            assert("requester"@.len() != "reason"@.len());
        }
        let details = details3(
            "request_id",
            request_id.clone(),
            "requester",
            requester.to_owned(),
            "reason",
            reason.to_owned(),
        );
        self.add_audit_entry(
            now,
            ActivityType::EmergencyAccess,
            join2("Emergency access requested by ", requester),
            requester,
            details,
        );
        Ok(request_id)
    }

    /// Files a request by `requester` for emergency access now by the system
    /// clock, under a fresh identifier.
    pub fn request_emergency_access(&mut self, requester: &str, reason: &str) -> (r: Result<
        String,
        String,
    >)
        ensures
            exists|now: u64, h: u64|
                final(self)@ == #[trigger] request_spec(
                    old(self)@,
                    requester@,
                    reason@,
                    lower_hex(h as nat),
                    now,
                ).0 && text_result(r) == request_spec(
                    old(self)@,
                    requester@,
                    reason@,
                    lower_hex(h as nat),
                    now,
                ).1,
            final(self)@.beneficiaries == old(self)@.beneficiaries,
    {
        let request_id = generate_id();
        let now = current_timestamp();
        let ghost h = choose|h: u64| request_id@ == lower_hex(h as nat);
        let r = self.request_emergency_access_with(requester, reason, request_id, now);
        assert(final(self)@ == request_spec(old(self)@, requester@, reason@, lower_hex(h as nat), now).0);
        r
    }

    /// `signer` approves the request filed under `request_id`. Refused when
    /// the signer is not an emergency signer or no such request is filed.
    /// The signer is counted once however often it approves; the request is
    /// approved from the moment its approvals reach the number required.
    /// The answer is whether the request is approved.
    pub fn approve_emergency_access(&mut self, request_id: &str, signer: &str) -> (r: Result<
        bool,
        String,
    >)
        ensures
            final(self)@ == approve_spec(old(self)@, request_id@, signer@).0,
            approval_result(r) == approve_spec(old(self)@, request_id@, signer@).1,
            final(self)@.beneficiaries == old(self)@.beneficiaries,
    {
        if !self.emergency_signers.contains(signer) {
            return Err(String::from_str("Signer not authorized"));
        }
        match self.emergency_requests.find(request_id) {
            Some(i) => {
                let ghost reqs = old(self)@.emergency_requests;
                self.emergency_requests.keys_are_distinct();
                let (key, mut request) = self.emergency_requests.remove_at(i);
                proof {
                    assert(!has_key(self@.emergency_requests, key@)) by {
                        if has_key(self@.emergency_requests, key@) {
                            let j = choose|j: int|
                                0 <= j < self@.emergency_requests.len()
                                    && self@.emergency_requests[j].0 == key@;
                            if j < i {
                                assert(reqs[j].0 == reqs[i as int].0);
                            } else {
                                assert(reqs[j + 1].0 == reqs[i as int].0);
                            }
                        }
                    }
                }
                request.approvals.insert(signer.to_owned());
                if request.approvals.len() >= request.required_approvals {
                    request.is_approved = true;
                }
                let approved = request.is_approved;
                let ghost r2 = request@;
                self.emergency_requests.insert_at(i, key, request);
                assert(self@.emergency_requests =~= reqs.update(i as int, (request_id@, r2)));
                assert(self@ =~= approve_spec(old(self)@, request_id@, signer@).0);
                Ok(approved)
            },
            None => Err(String::from_str("Request not found")),
        }
    }

    /// Adds `signer` to the emergency signers; refused once there are ten.
    pub fn add_emergency_signer(&mut self, signer: &str) -> (r: Result<String, String>)
        ensures
            final(self)@ == add_signer_spec(old(self)@, signer@).0,
            text_result(r) == add_signer_spec(old(self)@, signer@).1,
            final(self)@.beneficiaries == old(self)@.beneficiaries,
    {
        if self.emergency_signers.len() >= 10 {
            return Err(String::from_str("Maximum emergency signers reached"));
        }
        self.emergency_signers.insert(signer.to_owned());
        Ok(join3("Emergency signer ", signer, " added"))
    }

    /// A copy of the audit log, oldest entry first.
    pub fn get_audit_history(&self) -> (r: Vec<AuditEntry>)
        ensures
            log_view(r@) == self@.audit_log,
    {
        let n = self.audit_log.len();
        let mut r: Vec<AuditEntry> = Vec::new();
        let mut i: usize = 0;
        while i < n
            invariant
                n == self.audit_log@.len(),
                0 <= i <= n,
                log_view(r@) == log_view(self.audit_log@).subrange(0, i as int),
            decreases n - i,
        {
            let entry = &self.audit_log[i];
            let copy = entry.clone();
            assert(copy@ == self.audit_log@[i as int]@);
            let ghost before = r@;
            r.push(copy);
            assert(log_view(r@) =~= log_view(before).push(copy@));
            assert(log_view(r@) =~= log_view(self.audit_log@).subrange(0, i + 1));
            i = i + 1;
        }
        assert(log_view(r@) =~= log_view(self.audit_log@));
        r
    }

    /// The status report at `now`.
    pub fn get_status_at(&self, now: u64) -> (r: StatusReport)
        requires
            now >= self.last_heartbeat,
        ensures
            r@ == status_spec(self@, now),
    {
        let time_since_heartbeat = now - self.last_heartbeat;
        let time_until_trigger = self.inactivity_timeout.saturating_sub(time_since_heartbeat);
        StatusReport {
            id: self.id.clone(),
            is_active: self.is_active,
            owner: self.owner.clone(),
            last_heartbeat: self.last_heartbeat,
            time_since_heartbeat,
            time_until_trigger,
            should_trigger: self.is_due(now),
            beneficiary_count: self.beneficiaries.len(),
            total_funds: self.total_funds,
            vault_address: self.vault_address.clone(),
            audit_entries: self.audit_log.len(),
        }
    }

    /// The status report now by the system clock; a clock that reads earlier
    /// than the last heartbeat is taken as the moment of that heartbeat.
    pub fn get_status(&self) -> (r: StatusReport)
        ensures
            exists|now: u64| now >= self.last_heartbeat && r@ == #[trigger] status_spec(self@, now),
    {
        let clock = current_timestamp();
        let now = if clock < self.last_heartbeat {
            self.last_heartbeat
        } else {
            clock
        };
        self.get_status_at(now)
    }
}

} // verus!
