use deadman::rounding::share_of;
use deadman::text::{to_decimal, to_lower_hex};
use deadman::{current_timestamp, generate_id, ActivityType, Beneficiary, DeadmanSwitch};

fn sample_switch() -> DeadmanSwitch {
    DeadmanSwitch::new(
        "switch-001".to_string(),
        "alice".to_string(),
        "alice-pubkey".to_string(),
        86400,
        "vault-001".to_string(),
    )
}

fn switch_at(now: u64) -> DeadmanSwitch {
    DeadmanSwitch::new_at(
        "switch-001".to_string(),
        "alice".to_string(),
        "alice-pubkey".to_string(),
        86400,
        "vault-001".to_string(),
        now,
    )
}

fn ben(address: &str, name: &str, pct: u32, active: bool) -> Beneficiary {
    Beneficiary {
        address: address.to_string(),
        name: name.to_string(),
        allocation_percentage: pct,
        notification_email: None,
        added_at: 0,
        is_active: active,
    }
}

#[test]
fn test_create_deadman_switch() {
    let switch = DeadmanSwitch::new(
        "switch-001".to_string(),
        "alice".to_string(),
        "alice-pubkey".to_string(),
        86400, // 1 day
        "vault-001".to_string(),
    );

    assert_eq!(switch.id, "switch-001");
    assert_eq!(switch.owner, "alice");
    assert!(switch.is_active);
    assert!(!switch.should_trigger());
}

#[test]
fn test_add_beneficiary() {
    let mut switch = sample_switch();

    let beneficiary = Beneficiary {
        address: "bob-address".to_string(),
        name: "Bob".to_string(),
        allocation_percentage: 50,
        notification_email: Some("bob@example.com".to_string()),
        added_at: current_timestamp(),
        is_active: true,
    };

    assert!(switch.add_beneficiary(beneficiary).is_ok());
    assert_eq!(switch.beneficiaries.len(), 1);
}

#[test]
fn test_allocation_validation() {
    let mut switch = sample_switch();

    let ben1 = Beneficiary {
        address: "ben1".to_string(),
        name: "Ben 1".to_string(),
        allocation_percentage: 60,
        notification_email: None,
        added_at: current_timestamp(),
        is_active: true,
    };

    let ben2 = Beneficiary {
        address: "ben2".to_string(),
        name: "Ben 2".to_string(),
        allocation_percentage: 50,
        notification_email: None,
        added_at: current_timestamp(),
        is_active: true,
    };

    switch.add_beneficiary(ben1).unwrap();
    // This should fail because 60% + 50% > 100%
    assert!(switch.add_beneficiary(ben2).is_err());
}

#[test]
fn test_distribution_calculation() {
    let mut switch = sample_switch();

    switch.total_funds = 1000000;

    let ben1 = Beneficiary {
        address: "ben1".to_string(),
        name: "Ben 1".to_string(),
        allocation_percentage: 60,
        notification_email: None,
        added_at: current_timestamp(),
        is_active: true,
    };

    let ben2 = Beneficiary {
        address: "ben2".to_string(),
        name: "Ben 2".to_string(),
        allocation_percentage: 40,
        notification_email: None,
        added_at: current_timestamp(),
        is_active: true,
    };

    switch.add_beneficiary(ben1).unwrap();
    switch.add_beneficiary(ben2).unwrap();

    let distribution = switch.calculate_distribution();
    assert_eq!(distribution.get("ben1"), Some(&600000));
    assert_eq!(distribution.get("ben2"), Some(&400000));
}

#[test]
fn test_emergency_access_workflow() {
    let mut switch = sample_switch();

    switch.add_emergency_signer("signer1").unwrap();
    switch.add_emergency_signer("signer2").unwrap();

    let request_id = switch
        .request_emergency_access("bob", "Account locked")
        .unwrap();

    // After first approval, should not be approved yet (need 2)
    assert!(!switch.approve_emergency_access(&request_id, "signer1").unwrap());
    switch
        .approve_emergency_access(&request_id, "signer1")
        .unwrap();

    // After second approval, should be approved
    let is_approved = switch
        .approve_emergency_access(&request_id, "signer2")
        .unwrap();
    assert!(is_approved);
}

#[test]
fn heartbeat_at_updates_timestamp_and_log() {
    let mut switch = switch_at(1000);
    assert_eq!(switch.last_heartbeat, 1000);
    assert_eq!(
        switch.heartbeat_at("alice", 1010).unwrap(),
        "Heartbeat received from alice"
    );
    assert_eq!(switch.last_heartbeat, 1010);
    assert_eq!(switch.audit_log.len(), 1);
    let entry = &switch.audit_log[0];
    assert_eq!(entry.timestamp, 1010);
    assert_eq!(entry.activity_type, ActivityType::Heartbeat);
    assert_eq!(entry.description, "Heartbeat received from alice");
    assert_eq!(entry.initiator, "alice");
    assert_eq!(entry.details.len(), 0);
}

#[test]
fn heartbeat_clock_moves_forward() {
    let mut switch = switch_at(5);
    let before = current_timestamp();
    switch.heartbeat("alice").unwrap();
    assert!(switch.last_heartbeat >= before);
}

#[test]
fn heartbeat_restarts_inactivity_clock() {
    let mut switch = switch_at(1000);
    assert!(switch.should_trigger_at(1000 + 86400));
    switch.heartbeat_at("alice", 50000).unwrap();
    assert!(!switch.should_trigger_at(1000 + 86400));
    assert!(!switch.should_trigger_at(50000 + 86399));
    assert!(switch.should_trigger_at(50000 + 86400));
}

#[test]
fn inactive_switch_refuses_changes() {
    let mut switch = switch_at(0);
    switch.is_active = false;
    assert_eq!(
        switch.heartbeat_at("alice", 1).unwrap_err(),
        "DeadmanSwitch is inactive"
    );
    assert_eq!(
        switch.add_beneficiary_at(ben("a", "A", 50, true), 1).unwrap_err(),
        "Cannot modify inactive switch"
    );
    assert_eq!(
        switch.remove_beneficiary_at("a", 1).unwrap_err(),
        "Cannot modify inactive switch"
    );
    assert!(!switch.should_trigger_at(1_000_000));
    assert!(!switch.should_trigger());
    assert_eq!(switch.audit_log.len(), 0);
}

#[test]
fn add_beneficiary_error_messages() {
    let mut switch = switch_at(0);
    assert_eq!(
        switch.add_beneficiary_at(ben("a", "A", 4, true), 1).unwrap_err(),
        "Allocation must be at least 5%"
    );
    assert_eq!(
        switch.add_beneficiary_at(ben("a", "A", 60, true), 1).unwrap(),
        "Beneficiary A added successfully"
    );
    assert_eq!(
        switch.add_beneficiary_at(ben("b", "B", 50, true), 2).unwrap_err(),
        "Total allocation would exceed 100% (current: 60%, new: 50%)"
    );
    switch.max_beneficiaries = 1;
    assert_eq!(
        switch.add_beneficiary_at(ben("c", "C", 5, true), 3).unwrap_err(),
        "Maximum beneficiaries (1) reached"
    );
    assert_eq!(switch.beneficiaries.len(), 1);
    assert_eq!(switch.audit_log.len(), 1);
}

#[test]
fn add_beneficiary_records_details() {
    let mut switch = switch_at(0);
    switch.add_beneficiary_at(ben("addr-1", "Bob", 25, true), 7).unwrap();
    let entry = &switch.audit_log[0];
    assert_eq!(entry.timestamp, 7);
    assert_eq!(entry.activity_type, ActivityType::BeneficiaryAdded);
    assert_eq!(entry.description, "Added beneficiary: Bob");
    assert_eq!(entry.initiator, "system");
    assert_eq!(entry.details.len(), 3);
    assert_eq!(entry.details.get("address").unwrap(), "addr-1");
    assert_eq!(entry.details.get("allocation").unwrap(), "25");
    assert_eq!(entry.details.get("name").unwrap(), "Bob");
}

#[test]
fn whitelist_capacity_is_enforced() {
    let mut switch = switch_at(0);
    for i in 0..10 {
        let address = format!("b{}", i);
        switch.add_beneficiary_at(ben(&address, "X", 5, true), 1).unwrap();
    }
    assert_eq!(switch.beneficiaries.len(), 10);
    assert_eq!(
        switch.add_beneficiary_at(ben("b10", "X", 5, true), 1).unwrap_err(),
        "Maximum beneficiaries (10) reached"
    );
}

#[test]
fn re_adding_an_address_replaces_it() {
    let mut switch = switch_at(0);
    switch.add_beneficiary_at(ben("a", "First", 30, true), 1).unwrap();
    switch.add_beneficiary_at(ben("a", "Second", 40, true), 2).unwrap();
    assert_eq!(switch.beneficiaries.len(), 1);
    assert_eq!(switch.beneficiaries.get("a").unwrap().name, "Second");
    assert_eq!(switch.beneficiaries.get("a").unwrap().allocation_percentage, 40);
}

#[test]
fn remove_undoes_add() {
    let mut switch = switch_at(0);
    switch.add_beneficiary_at(ben("a", "A", 30, true), 1).unwrap();
    switch.add_beneficiary_at(ben("b", "Bea", 30, true), 2).unwrap();
    assert_eq!(
        switch.remove_beneficiary_at("b", 3).unwrap(),
        "Beneficiary Bea removed successfully"
    );
    assert_eq!(switch.beneficiaries.len(), 1);
    assert!(switch.beneficiaries.get("b").is_none());
    assert!(switch.beneficiaries.get("a").is_some());
    assert_eq!(
        switch.remove_beneficiary_at("b", 4).unwrap_err(),
        "Beneficiary b not found"
    );
    let entry = &switch.audit_log[2];
    assert_eq!(entry.activity_type, ActivityType::BeneficiaryRemoved);
    assert_eq!(entry.description, "Removed beneficiary: Bea");
    assert_eq!(entry.details.get("address").unwrap(), "b");
    assert_eq!(entry.details.get("name").unwrap(), "Bea");
}

#[test]
fn active_beneficiaries_and_distribution() {
    let mut switch = switch_at(0);
    switch.total_funds = 999;
    switch.add_beneficiary_at(ben("a", "A", 33, true), 1).unwrap();
    switch.add_beneficiary_at(ben("b", "B", 33, false), 1).unwrap();
    switch.add_beneficiary_at(ben("c", "C", 34, true), 1).unwrap();
    let active = switch.get_active_beneficiaries();
    assert_eq!(active.len(), 2);
    assert_eq!(active[0].address, "a");
    assert_eq!(active[1].address, "c");
    let d = switch.calculate_distribution();
    assert_eq!(d.len(), 2);
    // 999 * 33 / 100 = 329.67, rounded down
    assert_eq!(d.get("a"), Some(&329));
    assert_eq!(d.get("c"), Some(&339));
    assert_eq!(d.get("b"), None);
    assert!(329 + 339 <= 999);
}

#[test]
fn distribution_of_large_vault() {
    let mut switch = switch_at(0);
    switch.total_funds = u64::MAX;
    switch.add_beneficiary_at(ben("a", "A", 100, true), 1).unwrap();
    let d = switch.calculate_distribution();
    assert_eq!(d.get("a"), Some(&u64::MAX));
}

#[test]
fn trigger_distribution_rules() {
    let mut switch = switch_at(1000);
    switch.total_funds = 1000;
    assert_eq!(
        switch.trigger_distribution_at("no reason", 1001).unwrap_err(),
        "DeadmanSwitch not triggered (owner still active)"
    );
    assert_eq!(
        switch.trigger_distribution_at("manual_override", 1001).unwrap_err(),
        "No beneficiaries configured"
    );
    switch.add_beneficiary_at(ben("a", "A", 50, true), 1002).unwrap();
    let plan = switch.trigger_distribution_at("timeout", 1000 + 86400).unwrap();
    assert_eq!(plan.get("a"), Some(&500));
    assert!(!switch.is_active);
    let entry = switch.audit_log.last().unwrap();
    assert_eq!(entry.activity_type, ActivityType::DistributionTriggered);
    assert_eq!(entry.description, "Distribution triggered: timeout");
    assert_eq!(entry.details.get("reason").unwrap(), "timeout");
    assert_eq!(entry.details.get("total_distributed").unwrap(), "1000");
    assert_eq!(entry.details.get("beneficiary_count").unwrap(), "1");
    // Once distributed, the switch is done.
    assert_eq!(
        switch.trigger_distribution_at("manual_override", 200000).unwrap_err(),
        "DeadmanSwitch is inactive"
    );
    assert_eq!(
        switch.trigger_distribution_at("timeout", 200000).unwrap_err(),
        "DeadmanSwitch not triggered (owner still active)"
    );
    assert_eq!(
        switch.heartbeat_at("alice", 200001).unwrap_err(),
        "DeadmanSwitch is inactive"
    );
}

#[test]
fn manual_override_triggers_early() {
    let mut switch = sample_switch();
    switch.total_funds = 100;
    switch.add_beneficiary(ben("a", "A", 10, true)).unwrap();
    let plan = switch.trigger_distribution("manual_override").unwrap();
    assert_eq!(plan.get("a"), Some(&10));
    assert!(!switch.is_active);
}

#[test]
fn emergency_requests_and_errors() {
    let mut switch = switch_at(0);
    let id = switch
        .request_emergency_access_with("bob", "lost key", "req-1".to_string(), 9)
        .unwrap();
    assert_eq!(id, "req-1");
    let entry = &switch.audit_log[0];
    assert_eq!(entry.activity_type, ActivityType::EmergencyAccess);
    assert_eq!(entry.description, "Emergency access requested by bob");
    assert_eq!(entry.initiator, "bob");
    assert_eq!(entry.details.get("request_id").unwrap(), "req-1");
    assert_eq!(entry.details.get("requester").unwrap(), "bob");
    assert_eq!(entry.details.get("reason").unwrap(), "lost key");
    let req = switch.emergency_requests.get("req-1").unwrap();
    assert_eq!(req.created_at, 9);
    assert_eq!(req.required_approvals, 2);
    assert_eq!(req.approvals.len(), 0);
    assert!(!req.is_approved);

    assert_eq!(
        switch.approve_emergency_access("req-1", "mallory").unwrap_err(),
        "Signer not authorized"
    );
    assert_eq!(
        switch.add_emergency_signer("s1").unwrap(),
        "Emergency signer s1 added"
    );
    assert_eq!(
        switch.approve_emergency_access("req-2", "s1").unwrap_err(),
        "Request not found"
    );
    assert_eq!(switch.approve_emergency_access("req-1", "s1"), Ok(false));
    assert_eq!(switch.approve_emergency_access("req-1", "s1"), Ok(false));
    assert_eq!(
        switch.emergency_requests.get("req-1").unwrap().approvals.len(),
        1
    );
    switch.add_emergency_signer("s2").unwrap();
    assert_eq!(switch.approve_emergency_access("req-1", "s2"), Ok(true));
    // An approval is never withdrawn.
    assert_eq!(switch.approve_emergency_access("req-1", "s1"), Ok(true));
}

#[test]
fn emergency_signers_are_capped() {
    let mut switch = switch_at(0);
    for i in 0..10 {
        switch.add_emergency_signer(&format!("s{}", i)).unwrap();
    }
    assert_eq!(switch.emergency_signers.len(), 10);
    assert_eq!(
        switch.add_emergency_signer("s10").unwrap_err(),
        "Maximum emergency signers reached"
    );
    assert_eq!(switch.emergency_signers.len(), 10);
}

#[test]
fn repeated_signer_is_kept_once() {
    let mut switch = switch_at(0);
    switch.add_emergency_signer("s").unwrap();
    switch.add_emergency_signer("s").unwrap();
    assert_eq!(switch.emergency_signers.len(), 1);
}

#[test]
fn audit_log_keeps_at_most_its_limit() {
    let mut switch = switch_at(0);
    switch.max_audit_entries = 2;
    switch.heartbeat_at("a", 1).unwrap();
    switch.heartbeat_at("b", 2).unwrap();
    switch.heartbeat_at("c", 3).unwrap();
    let history = switch.get_audit_history();
    assert_eq!(history.len(), 2);
    assert_eq!(history[0].initiator, "b");
    assert_eq!(history[1].initiator, "c");
}

#[test]
fn status_report_at_a_moment() {
    let mut switch = switch_at(100);
    switch.total_funds = 42;
    switch.add_beneficiary_at(ben("a", "A", 50, true), 101).unwrap();
    let status = switch.get_status_at(100 + 86000);
    assert_eq!(status.id, "switch-001");
    assert_eq!(status.owner, "alice");
    assert!(status.is_active);
    assert_eq!(status.last_heartbeat, 100);
    assert_eq!(status.time_since_heartbeat, 86000);
    assert_eq!(status.time_until_trigger, 400);
    assert!(!status.should_trigger);
    assert_eq!(status.beneficiary_count, 1);
    assert_eq!(status.total_funds, 42);
    assert_eq!(status.vault_address, "vault-001");
    assert_eq!(status.audit_entries, 1);
    let late = switch.get_status_at(100 + 90000);
    assert_eq!(late.time_until_trigger, 0);
    assert!(late.should_trigger);
    let now = sample_switch().get_status();
    assert!(now.time_since_heartbeat <= 1);
}

#[test]
fn new_switch_defaults() {
    let switch = switch_at(77);
    assert_eq!(switch.created_at, 77);
    assert_eq!(switch.check_interval, 3600);
    assert_eq!(switch.inactivity_timeout, 86400);
    assert_eq!(switch.max_beneficiaries, 10);
    assert_eq!(switch.minimum_allocation, 5);
    assert_eq!(switch.required_emergency_sigs, 2);
    assert_eq!(switch.max_audit_entries, 1000);
    assert_eq!(switch.total_funds, 0);
    assert!(switch.description.is_none());
    assert!(!switch.encrypted);
    assert_eq!(switch.owner_public_key, "alice-pubkey");
    assert_eq!(switch.vault_address, "vault-001");
}

#[test]
fn numbers_render_as_text() {
    assert_eq!(to_decimal(0), "0");
    assert_eq!(to_decimal(1234567890), "1234567890");
    assert_eq!(to_decimal(u64::MAX), u64::MAX.to_string());
    assert_eq!(to_lower_hex(0), "0");
    assert_eq!(to_lower_hex(0xdead_beef), "deadbeef");
    assert_eq!(to_lower_hex(u64::MAX), format!("{:x}", u64::MAX));
}

#[test]
fn generated_ids_are_hexadecimal() {
    let id = generate_id();
    assert!(!id.is_empty() && id.len() <= 16);
    assert!(id.chars().all(|c| c.is_ascii_hexdigit() && !c.is_ascii_uppercase()));
    assert!(id == "0" || !id.starts_with('0'));
}

fn binary64_share(total: u64, pct: u32) -> u64 {
    (total as f64 * pct as f64 / 100.0) as u64
}

#[test]
fn shares_follow_binary64_arithmetic() {
    let edges: [u64; 12] = [
        0,
        1,
        99,
        1_000_000,
        (1u64 << 52) - 1,
        1u64 << 53,
        (1u64 << 53) + 1,
        (1u64 << 54) + 3,
        (1u64 << 60) + 12345,
        u64::MAX - 1024,
        u64::MAX - 1,
        u64::MAX,
    ];
    let pcts: [u32; 9] = [0, 1, 5, 33, 50, 99, 100, 250, u32::MAX];
    for &t in edges.iter() {
        for &p in pcts.iter() {
            assert_eq!(share_of(t, p), binary64_share(t, p), "total {} pct {}", t, p);
        }
    }
    let mut x: u64 = 0x9E37_79B9_7F4A_7C15;
    for _ in 0..20000 {
        x = x.wrapping_mul(6364136223846793005).wrapping_add(1442695040888963407);
        let t = x >> (x % 64);
        let p = ((x >> 17) % 101) as u32;
        assert_eq!(share_of(t, p), binary64_share(t, p), "total {} pct {}", t, p);
    }
    // Above 2^52 the rounding can lift a share over the exact quotient.
    assert_eq!(share_of((1u64 << 54) + 3, 100), (1u64 << 54) + 4);
}

#[test]
fn once_due_stays_due() {
    let switch = switch_at(1000);
    assert!(switch.should_trigger_at(1000 + 86400));
    assert!(switch.should_trigger_at(1000 + 86400 + 1));
    assert!(switch.should_trigger_at(u64::MAX));
}

#[test]
fn requests_clone_with_their_approvals() {
    let mut switch = switch_at(0);
    switch.add_emergency_signer("s1").unwrap();
    switch
        .request_emergency_access_with("bob", "why", "r".to_string(), 1)
        .unwrap();
    switch.approve_emergency_access("r", "s1").unwrap();
    let copy = switch.emergency_requests.get("r").unwrap().clone();
    assert_eq!(copy.id, "r");
    assert_eq!(copy.approvals.len(), 1);
    assert!(copy.approvals.contains("s1"));
    assert_eq!(copy.required_approvals, 2);
    assert!(!copy.is_approved);
}
