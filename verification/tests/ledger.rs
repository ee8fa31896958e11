use zero2prod::idempotency::IdempotencyKey;
use zero2prod::persistence::Ledger;
use zero2prod::persistence::NextAction;
use zero2prod::response::HeaderPair;
use zero2prod::response::HttpResponse;

const USER_A: u128 = 11;
const USER_B: u128 = 22;

fn key(raw: &str) -> IdempotencyKey {
    IdempotencyKey::parse(raw.to_string()).unwrap()
}

fn sample_response() -> HttpResponse {
    HttpResponse {
        status: 303,
        headers: vec![HeaderPair { name: "Location".to_string(), value: b"/done".to_vec() }],
        body: b"ok".to_vec(),
    }
}

fn assert_same_response(a: &HttpResponse, b: &HttpResponse) {
    assert_eq!(a.status, b.status);
    assert_eq!(a.headers.len(), b.headers.len());
    for (ha, hb) in a.headers.iter().zip(b.headers.iter()) {
        assert_eq!(ha.name, hb.name);
        assert_eq!(ha.value, hb.value);
    }
    assert_eq!(a.body, b.body);
}

#[test]
fn fresh_pair_wins_the_claim() {
    let mut ledger = Ledger::new();
    let k = key("token-1");
    assert!(matches!(ledger.try_processing(&k, USER_A, 1000), NextAction::StartProcessing));
}

#[test]
fn completed_pair_replays_the_saved_response() {
    let mut ledger = Ledger::new();
    let k = key("token-1");
    assert!(matches!(ledger.try_processing(&k, USER_A, 1000), NextAction::StartProcessing));
    let sent = ledger.save_response(&k, USER_A, sample_response());
    assert_same_response(&sent, &sample_response());

    match ledger.try_processing(&k, USER_A, 2000) {
        NextAction::ReturnSavedResponse(replayed) => {
            assert_same_response(&replayed, &sample_response());
        }
        NextAction::StartProcessing => panic!("a completed pair must be replayed"),
    }
}

#[test]
fn get_saved_response_reads_back_the_snapshot() {
    let mut ledger = Ledger::new();
    let k = key("token-1");
    assert!(ledger.get_saved_response(&k, USER_A).is_none());
    ledger.try_processing(&k, USER_A, 1000);
    ledger.save_response(&k, USER_A, sample_response());
    let read = ledger.get_saved_response(&k, USER_A).expect("completed pair must be readable");
    assert_same_response(&read, &sample_response());
}

#[test]
fn rollback_releases_the_claim() {
    let mut ledger = Ledger::new();
    let k = key("token-1");
    assert!(matches!(ledger.try_processing(&k, USER_A, 1000), NextAction::StartProcessing));
    ledger.rollback(&k, USER_A);
    assert!(ledger.get_saved_response(&k, USER_A).is_none());
    // The retry runs as a fresh attempt and may now complete.
    assert!(matches!(ledger.try_processing(&k, USER_A, 2000), NextAction::StartProcessing));
    ledger.save_response(&k, USER_A, sample_response());
    assert!(ledger.get_saved_response(&k, USER_A).is_some());
}

#[test]
fn same_key_for_two_users_is_two_claims() {
    let mut ledger = Ledger::new();
    let k = key("shared-token");
    assert!(matches!(ledger.try_processing(&k, USER_A, 1000), NextAction::StartProcessing));
    ledger.save_response(&k, USER_A, sample_response());
    // User B's identical key string is an independent pair: B still wins a
    // fresh claim, and A's entry stays readable.
    assert!(matches!(ledger.try_processing(&k, USER_B, 2000), NextAction::StartProcessing));
    assert!(ledger.get_saved_response(&k, USER_A).is_some());
    assert!(ledger.get_saved_response(&k, USER_B).is_none());
    ledger.rollback(&k, USER_B);
    assert!(ledger.get_saved_response(&k, USER_A).is_some());
}
