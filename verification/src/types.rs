//! The records that a switch keeps: beneficiaries, audit entries, emergency
//! access requests and status reports, each with the view its contracts use.

use vstd::prelude::*;

use crate::strmap::{StrMap, StrSet};

verus! {

/// A whitelisted beneficiary address.
#[derive(Debug, PartialEq, Eq, Hash)]
pub struct Beneficiary {
    pub address: String,
    pub name: String,
    /// Share of the vault, in percent (0 to 100).
    pub allocation_percentage: u32,
    pub notification_email: Option<String>,
    pub added_at: u64,
    pub is_active: bool,
}

/// A beneficiary, its texts taken as character sequences.
pub struct BeneficiaryView {
    pub address: Seq<char>,
    pub name: Seq<char>,
    pub allocation_percentage: u32,
    pub notification_email: Option<Seq<char>>,
    pub added_at: u64,
    pub is_active: bool,
}

impl View for Beneficiary {
    type V = BeneficiaryView;

    open spec fn view(&self) -> BeneficiaryView {
        BeneficiaryView {
            address: self.address@,
            name: self.name@,
            allocation_percentage: self.allocation_percentage,
            notification_email: self.notification_email.deep_view(),
            added_at: self.added_at,
            is_active: self.is_active,
        }
    }
}

/// A copy of an optional text.
pub fn copy_opt_text(t: &Option<String>) -> (r: Option<String>)
    ensures
        r.deep_view() == t.deep_view(),
{
    match t {
        Some(s) => Some(s.clone()),
        None => None,
    }
}

impl Clone for Beneficiary {
    fn clone(&self) -> (r: Self)
        ensures
            r@ == self@,
    {
        Beneficiary {
            address: self.address.clone(),
            name: self.name.clone(),
            allocation_percentage: self.allocation_percentage,
            notification_email: copy_opt_text(&self.notification_email),
            added_at: self.added_at,
            is_active: self.is_active,
        }
    }
}

/// Activity types tracked by the switch.
#[derive(Debug, Clone, Copy, PartialEq, Eq, Structural)]
pub enum ActivityType {
    Heartbeat,
    ManualCheck,
    ConfigUpdate,
    BeneficiaryAdded,
    BeneficiaryRemoved,
    EmergencyAccess,
    DistributionTriggered,
}

/// An audit log entry.
#[derive(Debug)]
pub struct AuditEntry {
    pub timestamp: u64,
    pub activity_type: ActivityType,
    pub description: String,
    pub initiator: String,
    /// Named details, in the order they were recorded.
    pub details: StrMap<String>,
}

/// An audit entry, its texts taken as character sequences.
pub struct AuditEntryView {
    pub timestamp: u64,
    pub activity_type: ActivityType,
    pub description: Seq<char>,
    pub initiator: Seq<char>,
    pub details: Seq<(Seq<char>, Seq<char>)>,
}

impl View for AuditEntry {
    type V = AuditEntryView;

    open spec fn view(&self) -> AuditEntryView {
        AuditEntryView {
            timestamp: self.timestamp,
            activity_type: self.activity_type,
            description: self.description@,
            initiator: self.initiator@,
            details: self.details@,
        }
    }
}

/// A copy of a map from texts to texts.
pub fn copy_text_map(m: &StrMap<String>) -> (r: StrMap<String>)
    ensures
        r@ == m@,
{
    let mut r = StrMap::new();
    let n = m.len();
    let mut i: usize = 0;
    m.keys_are_distinct();
    while i < n
        invariant
            n == m@.len(),
            0 <= i <= n,
            crate::strmap::keys_distinct(m@),
            r@ == m@.subrange(0, i as int),
        decreases n - i,
    {
        let k = m.key_at(i).clone();
        let v = m.value_at(i).clone();
        proof {
            assert(!crate::strmap::has_key(r@, k@)) by {
                if crate::strmap::has_key(r@, k@) {
                    let j = choose|j: int| 0 <= j < r@.len() && r@[j].0 == k@;
                    assert(m@[j].0 == m@[i as int].0);
                }
            }
        }
        r.insert(k, v);
        assert(r@ =~= m@.subrange(0, i + 1));
        i = i + 1;
    }
    assert(r@ =~= m@);
    r
}

impl Clone for AuditEntry {
    fn clone(&self) -> (r: Self)
        ensures
            r@ == self@,
    {
        AuditEntry {
            timestamp: self.timestamp,
            activity_type: self.activity_type,
            description: self.description.clone(),
            initiator: self.initiator.clone(),
            details: copy_text_map(&self.details),
        }
    }
}

/// An emergency access request awaiting multi-signature approval.
#[derive(Debug)]
pub struct EmergencyAccessRequest {
    pub id: String,
    pub requester: String,
    pub reason: String,
    pub created_at: u64,
    /// The signers who approved, each once.
    pub approvals: StrSet,
    pub required_approvals: usize,
    pub is_approved: bool,
}

/// A request, its texts taken as character sequences.
pub struct RequestView {
    pub id: Seq<char>,
    pub requester: Seq<char>,
    pub reason: Seq<char>,
    pub created_at: u64,
    pub approvals: Seq<Seq<char>>,
    pub required_approvals: usize,
    pub is_approved: bool,
}

impl View for EmergencyAccessRequest {
    type V = RequestView;

    open spec fn view(&self) -> RequestView {
        RequestView {
            id: self.id@,
            requester: self.requester@,
            reason: self.reason@,
            created_at: self.created_at,
            approvals: self.approvals@,
            required_approvals: self.required_approvals,
            is_approved: self.is_approved,
        }
    }
}

impl Clone for EmergencyAccessRequest {
    fn clone(&self) -> (r: Self)
        ensures
            r@ == self@,
    {
        EmergencyAccessRequest {
            id: self.id.clone(),
            requester: self.requester.clone(),
            reason: self.reason.clone(),
            created_at: self.created_at,
            approvals: self.approvals.clone(),
            required_approvals: self.required_approvals,
            is_approved: self.is_approved,
        }
    }
}

/// A status report of a switch at a given moment.
#[derive(Debug)]
pub struct StatusReport {
    pub id: String,
    pub is_active: bool,
    pub owner: String,
    pub last_heartbeat: u64,
    /// Seconds since the last heartbeat.
    pub time_since_heartbeat: u64,
    /// Seconds left before the switch triggers (0 once it is due).
    pub time_until_trigger: u64,
    pub should_trigger: bool,
    pub beneficiary_count: usize,
    pub total_funds: u64,
    pub vault_address: String,
    pub audit_entries: usize,
}

/// A status report, its texts taken as character sequences.
pub struct StatusView {
    pub id: Seq<char>,
    pub is_active: bool,
    pub owner: Seq<char>,
    pub last_heartbeat: u64,
    pub time_since_heartbeat: u64,
    pub time_until_trigger: u64,
    pub should_trigger: bool,
    pub beneficiary_count: usize,
    pub total_funds: u64,
    pub vault_address: Seq<char>,
    pub audit_entries: usize,
}

impl View for StatusReport {
    type V = StatusView;

    open spec fn view(&self) -> StatusView {
        StatusView {
            id: self.id@,
            is_active: self.is_active,
            owner: self.owner@,
            last_heartbeat: self.last_heartbeat,
            time_since_heartbeat: self.time_since_heartbeat,
            time_until_trigger: self.time_until_trigger,
            should_trigger: self.should_trigger,
            beneficiary_count: self.beneficiary_count,
            total_funds: self.total_funds,
            vault_address: self.vault_address@,
            audit_entries: self.audit_entries,
        }
    }
}

impl Clone for StatusReport {
    fn clone(&self) -> (r: Self)
        ensures
            r@ == self@,
    {
        StatusReport {
            id: self.id.clone(),
            is_active: self.is_active,
            owner: self.owner.clone(),
            last_heartbeat: self.last_heartbeat,
            time_since_heartbeat: self.time_since_heartbeat,
            time_until_trigger: self.time_until_trigger,
            should_trigger: self.should_trigger,
            beneficiary_count: self.beneficiary_count,
            total_funds: self.total_funds,
            vault_address: self.vault_address.clone(),
            audit_entries: self.audit_entries,
        }
    }
}

} // verus!
