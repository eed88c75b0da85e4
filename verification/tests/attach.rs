use hwbp::BpType;
use hwbp::perf::AttachSession;
use hwbp::perf::bp_access;
use hwbp::perf::bp_len;
use hwbp::perf::build_event_descriptor;
use hwbp::perf::plan_breakpoint;

fn all_selectors() -> Vec<BpType> {
    vec![
        BpType::R1,
        BpType::W1,
        BpType::RW1,
        BpType::X1,
        BpType::R2,
        BpType::W2,
        BpType::RW2,
        BpType::X2,
        BpType::R4,
        BpType::W4,
        BpType::RW4,
        BpType::X4,
        BpType::R8,
        BpType::W8,
        BpType::RW8,
        BpType::X8,
    ]
}

#[test]
fn bp_mapping_matches_the_table() {
    let expected: Vec<(u64, u32)> = vec![
        (1, 1),
        (1, 2),
        (1, 3),
        (1, 4),
        (2, 1),
        (2, 2),
        (2, 3),
        (2, 4),
        (4, 1),
        (4, 2),
        (4, 3),
        (4, 4),
        (8, 1),
        (8, 2),
        (8, 3),
        (8, 4),
    ];
    let got: Vec<(u64, u32)> = all_selectors()
        .iter()
        .map(|bp| (bp_len(bp), bp_access(bp)))
        .collect();
    assert_eq!(got, expected);
}

#[test]
fn bp_mapping_pairs_are_unique() {
    let pairs: Vec<(u64, u32)> = all_selectors()
        .iter()
        .map(|bp| (bp_len(bp), bp_access(bp)))
        .collect();
    for i in 0..pairs.len() {
        for j in 0..pairs.len() {
            if i != j {
                assert_ne!(pairs[i], pairs[j]);
            }
        }
    }
}

#[test]
fn descriptor_fixed_fields() {
    let d = build_event_descriptor(0x1000, &BpType::W4, 6, 1);
    assert_eq!(d.size, 144);
    assert_eq!(d.event_type, 5);
    assert_eq!(d.bp_addr, 0x1000);
    assert_eq!(d.bp_len, 4);
    assert_eq!(d.bp_type, 2);
    assert_eq!(d.sample_period, 1);
    assert_eq!(d.wakeup_events, 1);
}

#[test]
fn descriptor_legacy_precision_at_or_below_6_0() {
    let d = build_event_descriptor(0x1000, &BpType::R8, 6, 0);
    assert_eq!(d.precise_ip, 0);
    assert_eq!(d.sample_type, 0);
    let d = build_event_descriptor(0x1000, &BpType::R8, 5, 19);
    assert_eq!(d.precise_ip, 0);
    assert_eq!(d.sample_type, 0);
}

#[test]
fn descriptor_strict_precision_above_6_0() {
    let d = build_event_descriptor(0x1000, &BpType::R8, 6, 1);
    assert_eq!(d.precise_ip, 2);
    assert_eq!(d.sample_type, 32);
    let d = build_event_descriptor(0x1000, &BpType::R8, 7, 0);
    assert_eq!(d.precise_ip, 2);
    assert_eq!(d.sample_type, 32);
}

#[test]
fn plan_covers_all_online_cpus() {
    let req = plan_breakpoint(0xdead_0000, &BpType::RW8, 6, 1, "0-2,4").unwrap();
    assert_eq!(req.cpus, vec![0, 1, 2, 4]);
    assert_eq!(req.pid, -1);
    assert_eq!(req.group_fd, -1);
    assert_eq!(req.flags, 8);
    assert_eq!(req.descriptor.bp_addr, 0xdead_0000);
    assert_eq!(req.descriptor.bp_len, 8);
    assert_eq!(req.descriptor.bp_type, 3);
}

#[test]
fn plan_rejects_malformed_topology() {
    assert!(plan_breakpoint(0x1000, &BpType::R1, 6, 1, "0-").is_err());
}

#[test]
fn session_opens_one_event_per_cpu_in_order() {
    let mut session = AttachSession::new(vec![0, 2, 5]);
    let mut visited = Vec::new();
    while let Some(cpu) = session.next_cpu() {
        visited.push(cpu);
        session.record_success();
    }
    assert_eq!(visited, vec![0, 2, 5]);
    assert_eq!(session.opened_count(), 3);
    assert!(session.is_complete());
    assert_eq!(session.next_cpu(), None);
}

#[test]
fn session_failure_aborts_the_request() {
    let mut session = AttachSession::new(vec![0, 1, 2]);
    assert_eq!(session.next_cpu(), Some(0));
    session.record_success();
    assert_eq!(session.next_cpu(), Some(1));
    // the open on CPU 1 fails: the whole request aborts
    session.record_failure();
    assert_eq!(session.next_cpu(), None);
    assert!(!session.is_complete());
    assert_eq!(session.opened_count(), 1);
}

#[test]
fn session_with_no_cpus_is_trivially_complete() {
    let session = AttachSession::new(vec![]);
    assert_eq!(session.next_cpu(), None);
    assert!(session.is_complete());
}
