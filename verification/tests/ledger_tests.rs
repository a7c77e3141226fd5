use evidence_management::ErrorCode;
use evidence_management::EvidenceAddr;
use evidence_management::EvidenceManagement;
use evidence_management::Identity;

fn id(key: u64) -> Identity {
    Identity { key }
}

/// A ledger with admin `1` bootstrapped and identity `2` granted access.
fn setup() -> EvidenceManagement {
    let mut em = EvidenceManagement::new();
    assert_eq!(em.access.initialize_access_control(id(1)), Ok(()));
    assert_eq!(em.access.grant_access(id(1), id(2)), Ok(()));
    em
}

/// `setup()` plus case "CASE-001" opened by identity `2` at address 0.
fn setup_with_case() -> EvidenceManagement {
    let mut em = setup();
    let r = em.initialize_crime_scene(id(2), String::from("CASE-001"), String::from("123 Main St"));
    assert_eq!(r, Ok(0));
    em
}

#[test]
fn scenario_b_open_case_and_duplicate_id() {
    let mut em = setup();
    let r = em.initialize_crime_scene(id(2), String::from("CASE-001"), String::from("123 Main St"));
    assert_eq!(r, Ok(0));
    assert_eq!(em.cases.len(), 1);
    let scene = &em.cases[0].scene;
    assert_eq!(scene.case_id, "CASE-001");
    assert_eq!(scene.location, "123 Main St");
    assert_eq!(scene.log_count, 0);
    assert_eq!(scene.evidence_count, 0);
    assert_eq!(scene.authority, id(2));
    let again = em.initialize_crime_scene(id(2), String::from("CASE-001"), String::from("elsewhere"));
    assert_eq!(again, Err(ErrorCode::DuplicateAddress));
    assert_eq!(em.cases.len(), 1);
}

#[test]
fn open_case_without_access_is_unauthorized() {
    let mut em = setup();
    let r = em.initialize_crime_scene(id(9), String::from("CASE-002"), String::from("nowhere"));
    assert_eq!(r, Err(ErrorCode::Unauthorized));
    assert_eq!(em.cases.len(), 0);
}

#[test]
fn scenario_c_scene_log_by_authority_then_by_other() {
    let mut em = setup_with_case();
    let w = id(3);
    assert_eq!(em.access.grant_access(id(1), w), Ok(()));
    let r = em.add_scene_log(id(2), 0, 1000, String::from("arrived on scene"), String::from("OFC-42"));
    assert_eq!(r, Ok(0));
    assert_eq!(em.cases[0].scene.log_count, 1);
    let log = &em.cases[0].scene_logs[0];
    assert_eq!(log.crime_scene, 0);
    assert_eq!(log.timestamp, 1000);
    assert_eq!(log.description, "arrived on scene");
    assert_eq!(log.officer_id, "OFC-42");
    assert_eq!(log.log_number, 0);
    // w holds access but is not the case authority
    let r2 = em.add_scene_log(w, 0, 1001, String::from("tampering"), String::from("OFC-00"));
    assert_eq!(r2, Err(ErrorCode::Unauthorized));
    assert_eq!(em.cases[0].scene.log_count, 1);
}

#[test]
fn scenario_d_evidence_and_two_handling_logs() {
    let mut em = setup_with_case();
    let r = em.add_evidence(
        id(2),
        0,
        String::from("EV-1"),
        String::from("kitchen knife"),
        String::from("kitchen"),
    );
    assert_eq!(r, Ok(0));
    assert_eq!(em.cases[0].scene.evidence_count, 1);
    {
        let ev = &em.cases[0].evidence[0].record;
        assert_eq!(ev.crime_scene, 0);
        assert_eq!(ev.evidence_id, "EV-1");
        assert_eq!(ev.description, "kitchen knife");
        assert_eq!(ev.location_found, "kitchen");
        assert_eq!(ev.evidence_number, 0);
        assert_eq!(ev.log_count, 0);
    }
    let addr = EvidenceAddr { crime_scene: 0, evidence_number: 0 };
    let r1 = em.add_evidence_log(
        id(2),
        addr,
        2000,
        String::from("collected"),
        String::from("H-1"),
        String::from("bagged and sealed"),
    );
    assert_eq!(r1, Ok(0));
    let r2 = em.add_evidence_log(
        id(2),
        addr,
        2001,
        String::from("transported"),
        String::from("H-2"),
        String::from("to the lab"),
    );
    assert_eq!(r2, Ok(1));
    assert_eq!(em.cases[0].evidence[0].record.log_count, 2);
    let logs = &em.cases[0].evidence[0].handling_logs;
    assert_eq!(logs.len(), 2);
    assert_eq!(logs[0].log_number, 0);
    assert_eq!(logs[0].action, "collected");
    assert_eq!(logs[0].handler, "H-1");
    assert_eq!(logs[0].notes, "bagged and sealed");
    assert_eq!(logs[1].log_number, 1);
    assert_eq!(logs[1].timestamp, 2001);
    assert_eq!(logs[0].evidence, addr);
    assert_eq!(logs[1].evidence, addr);
}

#[test]
fn handling_log_is_not_authority_gated() {
    // any identity with access may log evidence handling, even if it is not
    // the case authority
    let mut em = setup_with_case();
    let w = id(3);
    assert_eq!(em.access.grant_access(id(1), w), Ok(()));
    assert_eq!(
        em.add_evidence(id(2), 0, String::from("EV-1"), String::from("shell"), String::from("yard")),
        Ok(0)
    );
    let addr = EvidenceAddr { crime_scene: 0, evidence_number: 0 };
    let r = em.add_evidence_log(
        w,
        addr,
        3000,
        String::from("photographed"),
        String::from("H-3"),
        String::from(""),
    );
    assert_eq!(r, Ok(0));
    assert_eq!(em.cases[0].evidence[0].record.log_count, 1);
}

#[test]
fn handling_log_without_access_is_unauthorized() {
    let mut em = setup_with_case();
    assert_eq!(
        em.add_evidence(id(2), 0, String::from("EV-1"), String::from("shell"), String::from("yard")),
        Ok(0)
    );
    let addr = EvidenceAddr { crime_scene: 0, evidence_number: 0 };
    let r = em.add_evidence_log(
        id(9),
        addr,
        3000,
        String::from("stolen"),
        String::from("H-9"),
        String::from(""),
    );
    assert_eq!(r, Err(ErrorCode::Unauthorized));
    assert_eq!(em.cases[0].evidence[0].record.log_count, 0);
}

#[test]
fn scenario_e_revoked_authority_cannot_append() {
    let mut em = setup_with_case();
    assert_eq!(em.access.revoke_access(id(1), id(2)), Ok(()));
    let r = em.add_scene_log(id(2), 0, 1000, String::from("back again"), String::from("OFC-42"));
    assert_eq!(r, Err(ErrorCode::Unauthorized));
    assert_eq!(em.cases[0].scene.log_count, 0);
    assert_eq!(em.cases[0].scene.authority, id(2));
}

#[test]
fn scene_log_chain_is_gap_free() {
    let mut em = setup_with_case();
    for i in 0..5u64 {
        let r = em.add_scene_log(id(2), 0, i as i64, format!("entry {}", i), String::from("OFC-1"));
        assert_eq!(r, Ok(i));
    }
    assert_eq!(em.cases[0].scene.log_count, 5);
    assert_eq!(em.cases[0].scene_logs.len(), 5);
    for i in 0..5usize {
        assert_eq!(em.cases[0].scene_logs[i].log_number, i as u64);
        assert_eq!(em.cases[0].scene_logs[i].crime_scene, 0);
    }
}

#[test]
fn evidence_numbers_are_gap_free_and_chains_independent() {
    let mut em = setup_with_case();
    for i in 0..3u64 {
        let r = em.add_evidence(
            id(2),
            0,
            format!("EV-{}", i),
            String::from("item"),
            String::from("scene"),
        );
        assert_eq!(r, Ok(i));
    }
    assert_eq!(em.cases[0].scene.evidence_count, 3);
    for i in 0..3usize {
        assert_eq!(em.cases[0].evidence[i].record.evidence_number, i as u64);
    }
    // two handling logs on item 1, one on item 2: counters stay independent
    let a1 = EvidenceAddr { crime_scene: 0, evidence_number: 1 };
    let a2 = EvidenceAddr { crime_scene: 0, evidence_number: 2 };
    assert_eq!(
        em.add_evidence_log(id(2), a1, 1, String::from("moved"), String::from("H"), String::from("")),
        Ok(0)
    );
    assert_eq!(
        em.add_evidence_log(id(2), a1, 2, String::from("moved"), String::from("H"), String::from("")),
        Ok(1)
    );
    assert_eq!(
        em.add_evidence_log(id(2), a2, 3, String::from("moved"), String::from("H"), String::from("")),
        Ok(0)
    );
    assert_eq!(em.cases[0].evidence[0].record.log_count, 0);
    assert_eq!(em.cases[0].evidence[1].record.log_count, 2);
    assert_eq!(em.cases[0].evidence[2].record.log_count, 1);
}

#[test]
fn records_are_unaltered_by_later_operations() {
    let mut em = setup_with_case();
    assert_eq!(
        em.add_scene_log(id(2), 0, 7, String::from("first"), String::from("OFC-1")),
        Ok(0)
    );
    assert_eq!(
        em.add_evidence(id(2), 0, String::from("EV-1"), String::from("item"), String::from("here")),
        Ok(0)
    );
    // later operations on the same case
    assert_eq!(
        em.add_scene_log(id(2), 0, 8, String::from("second"), String::from("OFC-2")),
        Ok(1)
    );
    assert_eq!(
        em.add_evidence_log(
            id(2),
            EvidenceAddr { crime_scene: 0, evidence_number: 0 },
            9,
            String::from("collected"),
            String::from("H-1"),
            String::from(""),
        ),
        Ok(0)
    );
    assert_eq!(
        em.initialize_crime_scene(id(2), String::from("CASE-002"), String::from("elsewhere")),
        Ok(1)
    );
    // the records created first are byte-for-byte what they were
    assert_eq!(em.cases[0].scene.case_id, "CASE-001");
    assert_eq!(em.cases[0].scene.location, "123 Main St");
    assert_eq!(em.cases[0].scene.authority, id(2));
    assert_eq!(em.cases[0].scene_logs[0].timestamp, 7);
    assert_eq!(em.cases[0].scene_logs[0].description, "first");
    assert_eq!(em.cases[0].scene_logs[0].officer_id, "OFC-1");
    assert_eq!(em.cases[0].scene_logs[0].log_number, 0);
    assert_eq!(em.cases[0].evidence[0].record.evidence_id, "EV-1");
    assert_eq!(em.cases[0].evidence[0].record.description, "item");
    assert_eq!(em.cases[0].evidence[0].record.location_found, "here");
    assert_eq!(em.cases[0].evidence[0].record.evidence_number, 0);
}

#[test]
fn max_length_strings_succeed() {
    let mut em = setup();
    let r = em.initialize_crime_scene(id(2), "c".repeat(100), "l".repeat(100));
    assert_eq!(r, Ok(0));
    let r2 = em.add_scene_log(id(2), 0, 0, "d".repeat(200), "o".repeat(50));
    assert_eq!(r2, Ok(0));
    let r3 = em.add_evidence(id(2), 0, "e".repeat(100), "d".repeat(200), "f".repeat(100));
    assert_eq!(r3, Ok(0));
    let r4 = em.add_evidence_log(
        id(2),
        EvidenceAddr { crime_scene: 0, evidence_number: 0 },
        0,
        "a".repeat(100),
        "h".repeat(50),
        "n".repeat(200),
    );
    assert_eq!(r4, Ok(0));
}

#[test]
fn over_length_strings_fail_with_too_long() {
    let mut em = setup_with_case();
    assert_eq!(
        em.initialize_crime_scene(id(2), "c".repeat(101), String::from("ok")),
        Err(ErrorCode::TooLong)
    );
    assert_eq!(
        em.initialize_crime_scene(id(2), String::from("CASE-002"), "l".repeat(101)),
        Err(ErrorCode::TooLong)
    );
    assert_eq!(
        em.add_scene_log(id(2), 0, 0, "d".repeat(201), String::from("OFC-1")),
        Err(ErrorCode::TooLong)
    );
    assert_eq!(
        em.add_scene_log(id(2), 0, 0, String::from("ok"), "o".repeat(51)),
        Err(ErrorCode::TooLong)
    );
    assert_eq!(
        em.add_evidence(id(2), 0, "e".repeat(101), String::from("ok"), String::from("ok")),
        Err(ErrorCode::TooLong)
    );
    assert_eq!(
        em.add_evidence(id(2), 0, String::from("EV-1"), "d".repeat(201), String::from("ok")),
        Err(ErrorCode::TooLong)
    );
    assert_eq!(
        em.add_evidence(id(2), 0, String::from("EV-1"), String::from("ok"), "f".repeat(101)),
        Err(ErrorCode::TooLong)
    );
    assert_eq!(em.add_evidence(id(2), 0, String::from("EV-1"), String::from("ok"), String::from("ok")), Ok(0));
    let addr = EvidenceAddr { crime_scene: 0, evidence_number: 0 };
    assert_eq!(
        em.add_evidence_log(id(2), addr, 0, "a".repeat(101), String::from("h"), String::from("")),
        Err(ErrorCode::TooLong)
    );
    assert_eq!(
        em.add_evidence_log(id(2), addr, 0, String::from("ok"), "h".repeat(51), String::from("")),
        Err(ErrorCode::TooLong)
    );
    assert_eq!(
        em.add_evidence_log(id(2), addr, 0, String::from("ok"), String::from("h"), "n".repeat(201)),
        Err(ErrorCode::TooLong)
    );
    // nothing was appended by the failing calls
    assert_eq!(em.cases[0].scene.log_count, 0);
    assert_eq!(em.cases[0].evidence[0].record.log_count, 0);
    assert_eq!(em.cases.len(), 1);
}

#[test]
fn length_check_comes_before_access_check() {
    let mut em = setup_with_case();
    // identity 9 holds no access, but the over-length input is reported first
    assert_eq!(
        em.initialize_crime_scene(id(9), "c".repeat(101), String::from("ok")),
        Err(ErrorCode::TooLong)
    );
    assert_eq!(
        em.add_scene_log(id(9), 0, 0, "d".repeat(201), String::from("OFC-1")),
        Err(ErrorCode::TooLong)
    );
    assert_eq!(
        em.add_evidence_log(
            id(9),
            EvidenceAddr { crime_scene: 0, evidence_number: 0 },
            0,
            "a".repeat(101),
            String::from("h"),
            String::from(""),
        ),
        Err(ErrorCode::TooLong)
    );
}

#[test]
fn length_bounds_count_characters_not_bytes() {
    let mut em = setup();
    // 100 two-byte characters: within the 100-character bound
    let case_id: String = "é".repeat(100);
    assert_eq!(case_id.len(), 200);
    assert_eq!(em.initialize_crime_scene(id(2), case_id, String::from("ok")), Ok(0));
}

#[test]
fn records_are_retrievable_by_address_alone() {
    let mut em = setup_with_case();
    assert_eq!(em.find_case(&String::from("CASE-001")), Some(0));
    assert_eq!(em.find_case(&String::from("CASE-404")), None);
    assert_eq!(
        em.add_scene_log(id(2), 0, 10, String::from("arrived"), String::from("OFC-1")),
        Ok(0)
    );
    assert_eq!(
        em.add_evidence(id(2), 0, String::from("EV-1"), String::from("item"), String::from("here")),
        Ok(0)
    );
    let addr = EvidenceAddr { crime_scene: 0, evidence_number: 0 };
    assert_eq!(
        em.add_evidence_log(id(2), addr, 11, String::from("collected"), String::from("H-1"), String::from("")),
        Ok(0)
    );
    let log = em.get_scene_log(0, 0).unwrap();
    assert_eq!(log.description, "arrived");
    assert_eq!(log.log_number, 0);
    assert!(em.get_scene_log(0, 1).is_none());
    assert!(em.get_scene_log(7, 0).is_none());
    let ev = em.get_evidence(addr).unwrap();
    assert_eq!(ev.evidence_id, "EV-1");
    assert!(em.get_evidence(EvidenceAddr { crime_scene: 0, evidence_number: 1 }).is_none());
    let hlog = em.get_evidence_log(addr, 0).unwrap();
    assert_eq!(hlog.action, "collected");
    assert_eq!(hlog.timestamp, 11);
    assert!(em.get_evidence_log(addr, 1).is_none());
}
