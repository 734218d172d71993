use coreto_tp_ledger::AuthorizationContext;
use coreto_tp_ledger::CoretoTPActionRequestData;
use coreto_tp_ledger::CoretoTPLedger;
use coreto_tp_ledger::LedgerError;

fn owner() -> AuthorizationContext {
    AuthorizationContext { caller: "ledger.owner".to_string(), is_privileged: true }
}

fn caller(id: &str) -> AuthorizationContext {
    AuthorizationContext { caller: id.to_string(), is_privileged: false }
}

fn request(action_type: &str, trust: f32, performance: f32, did: &str) -> CoretoTPActionRequestData {
    CoretoTPActionRequestData {
        trust: f32::to_bits(trust),
        performance: f32::to_bits(performance),
        action_type: action_type.to_string(),
        action_date: "2022-01-01".to_string(),
        account_did: did.to_string(),
        identifier: "id".to_string(),
    }
}

fn save(ledger: &mut CoretoTPLedger, who: &str, action_type: &str, trust: f32, performance: f32, did: &str) {
    ledger
        .save_action(
            &caller(who),
            "7".to_string(),
            did.to_string(),
            f32::to_bits(trust),
            f32::to_bits(performance),
            action_type.to_string(),
            "2022-01-01".to_string(),
            "id".to_string(),
        )
        .expect("registered source write");
}

// An unregistered identity's writes are rejected with `InvalidSigner`,
// single and batch alike, and leave the log and the index unchanged.
#[test]
fn unregistered_writes_rejected_and_stateless() {
    let mut ledger = CoretoTPLedger::default();
    ledger.add_source(&owner(), "a".to_string(), "site".to_string()).unwrap();

    let single = ledger.save_action(
        &caller("mallory"),
        "7".to_string(),
        "d1".to_string(),
        f32::to_bits(1.0),
        f32::to_bits(1.0),
        "reaction".to_string(),
        "2022-01-01".to_string(),
        "id".to_string(),
    );
    assert_eq!(single, Err(LedgerError::InvalidSigner));

    let batch = ledger.save_actions_batch(
        &caller("mallory"),
        "7".to_string(),
        vec![request("reaction", 1.0, 1.0, "d1")],
    );
    assert_eq!(batch, Err(LedgerError::InvalidSigner));

    // nothing was appended or indexed
    assert_eq!(
        ledger.get_user_actions("site".to_string(), "d1".to_string()).unwrap_err(),
        LedgerError::SubjectNotFound
    );
    assert_eq!(
        ledger.get_source_action_types("mallory".to_string()),
        Err(LedgerError::SourceNotFound)
    );
}

// Registering then removing a source blocks its future writes again,
// while what it wrote stays queryable, and so does its type index.
#[test]
fn removed_source_history_stays_queryable() {
    let mut ledger = CoretoTPLedger::default();
    ledger.add_source(&owner(), "a".to_string(), "site".to_string()).unwrap();
    save(&mut ledger, "a", "reaction", 10.0, 10.0, "d1");

    ledger.remove_source(&owner(), "a".to_string()).unwrap();

    let again = ledger.save_action(
        &caller("a"),
        "8".to_string(),
        "d1".to_string(),
        f32::to_bits(1.0),
        f32::to_bits(1.0),
        "reaction".to_string(),
        "2022-01-02".to_string(),
        "id2".to_string(),
    );
    assert_eq!(again, Err(LedgerError::InvalidSigner));

    let actions = ledger.get_user_actions("site".to_string(), "d1".to_string()).unwrap();
    assert_eq!(actions.len(), 1);
    assert_eq!(actions[0].action_type, "reaction");

    let types = ledger.get_source_action_types("a".to_string()).unwrap();
    assert_eq!(types, vec!["reaction".to_string()]);
}

// A batch of N records for one subject adds exactly N entries under the
// writer's label, in input order.
#[test]
fn batch_preserves_input_order() {
    let mut ledger = CoretoTPLedger::default();
    ledger.add_source(&owner(), "a".to_string(), "site".to_string()).unwrap();

    let batch = vec![
        request("first", 1.0, 1.0, "d1"),
        request("second", 2.0, 2.0, "d1"),
        request("third", 3.0, 3.0, "d1"),
    ];
    ledger.save_actions_batch(&caller("a"), "7".to_string(), batch).unwrap();

    let actions = ledger.get_user_actions("site".to_string(), "d1".to_string()).unwrap();
    assert_eq!(actions.len(), 3);
    assert_eq!(actions[0].action_type, "first");
    assert_eq!(actions[1].action_type, "second");
    assert_eq!(actions[2].action_type, "third");
    assert_eq!(f32::from_bits(actions[1].trust), 2.0);
    assert_eq!(actions[0].source, "a");
    assert_eq!(actions[0].source_label, "site");
    assert_eq!(actions[0].block_date, "7");
}

// The trust and performance views return exactly the records whose
// score is strictly positive; zero, negative and NaN scores are out.
#[test]
fn score_filters_are_strict_positivity() {
    let mut ledger = CoretoTPLedger::default();
    ledger.add_source(&owner(), "a".to_string(), "site".to_string()).unwrap();
    save(&mut ledger, "a", "pos", 2.5, -2.5, "d1");
    save(&mut ledger, "a", "zero", 0.0, 0.0, "d1");
    save(&mut ledger, "a", "negzero", -0.0, -0.0, "d1");
    save(&mut ledger, "a", "neg", -5.0, 5.0, "d1");
    save(&mut ledger, "a", "nan", f32::NAN, f32::NAN, "d1");
    save(&mut ledger, "a", "inf", f32::INFINITY, f32::MIN_POSITIVE, "d1");

    let trust = ledger.get_user_trust_actions("site".to_string(), "d1".to_string()).unwrap();
    let trust_types: Vec<String> = trust.iter().map(|a| a.action_type.clone()).collect();
    assert_eq!(trust_types, vec!["pos".to_string(), "inf".to_string()]);

    let perf = ledger.get_user_performance_actions("site".to_string(), "d1".to_string()).unwrap();
    let perf_types: Vec<String> = perf.iter().map(|a| a.action_type.clone()).collect();
    assert_eq!(perf_types, vec!["neg".to_string(), "inf".to_string()]);

    // the subject exists, so an unmatched label yields an empty match,
    // not `SubjectNotFound`
    let other = ledger.get_user_trust_actions("elsewhere".to_string(), "d1".to_string()).unwrap();
    assert_eq!(other.len(), 0);
}

// The type index lists each distinct type once, in first-seen order,
// across single and batch writes.
#[test]
fn action_types_distinct_first_seen_order() {
    let mut ledger = CoretoTPLedger::default();
    ledger.add_source(&owner(), "a".to_string(), "site".to_string()).unwrap();
    save(&mut ledger, "a", "reaction", 1.0, 1.0, "d1");
    save(&mut ledger, "a", "article", 1.0, 1.0, "d2");
    save(&mut ledger, "a", "reaction", 1.0, 1.0, "d3");
    ledger
        .save_actions_batch(
            &caller("a"),
            "7".to_string(),
            vec![
                request("comment", 1.0, 1.0, "d1"),
                request("article", 1.0, 1.0, "d1"),
                request("comment", 1.0, 1.0, "d2"),
            ],
        )
        .unwrap();

    let types = ledger.get_source_action_types("a".to_string()).unwrap();
    assert_eq!(
        types,
        vec!["reaction".to_string(), "article".to_string(), "comment".to_string()]
    );
}

// The scenario of one write read back through all three views.
#[test]
fn single_write_visible_in_all_views() {
    let mut ledger = CoretoTPLedger::default();
    ledger.add_source(&owner(), "a".to_string(), "site".to_string()).unwrap();
    save(&mut ledger, "a", "reaction", 10.0, 10.0, "d1");

    let all = ledger.get_user_actions("site".to_string(), "d1".to_string()).unwrap();
    assert_eq!(all.len(), 1);
    assert_eq!(f32::from_bits(all[0].trust), 10.0);

    let trust = ledger.get_user_trust_actions("site".to_string(), "d1".to_string()).unwrap();
    assert_eq!(trust.len(), 1);
    assert_eq!(trust[0].action_type, "reaction");

    let perf = ledger.get_user_performance_actions("site".to_string(), "d1".to_string()).unwrap();
    assert_eq!(perf.len(), 1);
    assert_eq!(perf[0].action_type, "reaction");
}

// A duplicate registration fails with `AlreadyExists` and the label the
// identity was first registered under keeps stamping its writes.
#[test]
fn duplicate_registration_keeps_existing_label() {
    let mut ledger = CoretoTPLedger::default();
    ledger.add_source(&owner(), "a".to_string(), "old_label".to_string()).unwrap();

    let again = ledger.add_source(&owner(), "a".to_string(), "new_label".to_string());
    assert_eq!(again, Err(LedgerError::AlreadyExists));

    save(&mut ledger, "a", "reaction", 1.0, 1.0, "d1");
    let under_old = ledger.get_user_actions("old_label".to_string(), "d1".to_string()).unwrap();
    assert_eq!(under_old.len(), 1);
    let under_new = ledger.get_user_actions("new_label".to_string(), "d1".to_string()).unwrap();
    assert_eq!(under_new.len(), 0);
}

// An empty batch still passes the authorization gate and still stores
// the caller's (empty) type list, creating its index entry.
#[test]
fn empty_batch_creates_empty_index_entry() {
    let mut ledger = CoretoTPLedger::default();
    ledger.add_source(&owner(), "a".to_string(), "site".to_string()).unwrap();

    ledger.save_actions_batch(&caller("a"), "7".to_string(), Vec::new()).unwrap();

    let types = ledger.get_source_action_types("a".to_string()).unwrap();
    assert_eq!(types.len(), 0);
}

// Each rejection carries the message the host surfaces.
#[test]
fn error_messages() {
    assert_eq!(LedgerError::Unauthorized.message(), "Method is private");
    assert_eq!(LedgerError::InvalidSigner.message(), "Invalid signer wallet.");
    assert_eq!(LedgerError::AlreadyExists.message(), "Source already exists.");
    assert_eq!(LedgerError::NotFound.message(), "Source not found.");
    assert_eq!(LedgerError::SubjectNotFound.message(), "AccountDID not found.");
    assert_eq!(LedgerError::SourceNotFound.message(), "Source not found.");
}

// A non-privileged caller cannot touch the registry at all.
#[test]
fn registry_requires_privilege() {
    let mut ledger = CoretoTPLedger::default();
    let r = ledger.add_source(&caller("a"), "a".to_string(), "site".to_string());
    assert_eq!(r, Err(LedgerError::Unauthorized));
    let r = ledger.remove_source(&caller("a"), "a".to_string());
    assert_eq!(r, Err(LedgerError::Unauthorized));
    assert_eq!(
        ledger.get_user_actions("site".to_string(), "d1".to_string()).unwrap_err(),
        LedgerError::SubjectNotFound
    );
}

// The raw positivity test on encoded scores agrees with `f32` ordering.
#[test]
fn score_positivity_matches_f32() {
    let samples = [
        0.0f32,
        -0.0,
        1.0,
        -1.0,
        f32::MIN_POSITIVE,
        f32::MAX,
        f32::MIN,
        f32::INFINITY,
        f32::NEG_INFINITY,
        f32::NAN,
        -f32::NAN,
        1.0e-45,
        -1.0e-45,
    ];
    for s in samples {
        assert_eq!(
            coreto_tp_ledger::score_is_positive(f32::to_bits(s)),
            s > 0.0,
            "score {s} disagreed"
        );
    }
}
