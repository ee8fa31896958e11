use zero2prod::idempotency::MAX_KEY_LENGTH;
use zero2prod::persistence::Ledger;
use zero2prod::publish::BodyData;
use zero2prod::publish::PublishError;
use zero2prod::publish::publish_newsletter;
use zero2prod::publish::publish_with_issue_id;
use zero2prod::response::HttpResponse;
use zero2prod::store::Store;

const USER_A: u128 = 7;
const USER_B: u128 = 8;
const HMAC_KEY: &[u8] = b"super-secret-key";

fn body(key: &str) -> BodyData {
    BodyData {
        title: "Newsletter title".to_string(),
        html_content: "<p>Newsletter body as HTML</p>".to_string(),
        text_content: "Newsletter body as plain text".to_string(),
        idempotency_key: key.to_string(),
    }
}

fn store_with_subscribers() -> Store {
    let mut store = Store::new();
    store.insert_subscriber(1, "confirmed-one@example.com".to_string());
    store.confirm_subscriber(1);
    store.insert_subscriber(2, "pending@example.com".to_string());
    store.insert_subscriber(3, "confirmed-two@example.com".to_string());
    store.confirm_subscriber(3);
    store
}

fn assert_same_response(a: &HttpResponse, b: &HttpResponse) {
    assert_eq!(a.status, b.status);
    assert_eq!(a.headers.len(), b.headers.len());
    for (ha, hb) in a.headers.iter().zip(b.headers.iter()) {
        assert_eq!(ha.name, hb.name);
        assert_eq!(ha.value, hb.value);
    }
    assert_eq!(a.body, b.body);
}

#[test]
fn first_submission_publishes_and_enqueues_confirmed_subscribers() {
    let mut ledger = Ledger::new();
    let mut store = store_with_subscribers();
    let r = publish_with_issue_id(&mut ledger, &mut store, USER_A, &body("k1"), 100, 1000, HMAC_KEY)
        .expect("fresh submission must succeed");
    assert_eq!(r.status, 303);
    assert_eq!(store.newsletter_issues.len(), 1);
    assert_eq!(store.newsletter_issues[0].title, "Newsletter title");
    // Exactly the confirmed subscribers, in table order; the pending one is
    // skipped.
    assert_eq!(store.issue_delivery_queue.len(), 2);
    assert_eq!(store.issue_delivery_queue[0].subscriber_email, "confirmed-one@example.com");
    assert_eq!(store.issue_delivery_queue[1].subscriber_email, "confirmed-two@example.com");
    assert_eq!(store.issue_delivery_queue[0].newsletter_issue_id, 100);
}

#[test]
fn empty_key_is_rejected_and_leaves_no_ledger_row() {
    let mut ledger = Ledger::new();
    let mut store = store_with_subscribers();
    let r = publish_with_issue_id(&mut ledger, &mut store, USER_A, &body(""), 100, 1000, HMAC_KEY)
        .expect("a validation failure is a response, not an error");
    assert_eq!(r.status, 400);
    assert_eq!(store.newsletter_issues.len(), 0);
    let key = zero2prod::idempotency::IdempotencyKey::parse("x".to_string()).unwrap();
    assert!(ledger.get_saved_response(&key, USER_A).is_none());
    // A later valid submission with a proper key still wins a fresh claim.
    let r2 = publish_with_issue_id(&mut ledger, &mut store, USER_A, &body("k"), 100, 1000, HMAC_KEY);
    assert!(r2.is_ok());
}

#[test]
fn overlong_key_is_rejected_and_leaves_no_ledger_row() {
    let mut ledger = Ledger::new();
    let mut store = store_with_subscribers();
    let long_key = "y".repeat(MAX_KEY_LENGTH + 1);
    let r = publish_with_issue_id(
        &mut ledger,
        &mut store,
        USER_A,
        &body(&long_key),
        100,
        1000,
        HMAC_KEY,
    )
    .expect("a validation failure is a response, not an error");
    assert_eq!(r.status, 400);
    assert_eq!(store.newsletter_issues.len(), 0);
    assert_eq!(store.issue_delivery_queue.len(), 0);
}

#[test]
fn duplicate_submission_is_replayed_byte_for_byte() {
    let mut ledger = Ledger::new();
    let mut store = store_with_subscribers();
    let first =
        publish_with_issue_id(&mut ledger, &mut store, USER_A, &body("k1"), 100, 1000, HMAC_KEY)
            .unwrap();
    let issues_after_first = store.newsletter_issues.len();
    let queue_after_first = store.issue_delivery_queue.len();
    let second =
        publish_with_issue_id(&mut ledger, &mut store, USER_A, &body("k1"), 200, 2000, HMAC_KEY)
            .unwrap();
    assert_same_response(&first, &second);
    // The business side effect happened exactly once.
    assert_eq!(store.newsletter_issues.len(), issues_after_first);
    assert_eq!(store.issue_delivery_queue.len(), queue_after_first);
}

#[test]
fn a_burst_of_submissions_executes_business_logic_once() {
    let mut ledger = Ledger::new();
    let mut store = store_with_subscribers();
    // The row lock serializes rivals; their serialized order is one fresh
    // execution followed by replays, each drawing its own id and instant.
    let mut responses: Vec<HttpResponse> = Vec::new();
    for n in 0..5u128 {
        let r = publish_with_issue_id(
            &mut ledger,
            &mut store,
            USER_A,
            &body("burst"),
            100 + n,
            1000 + n as i64,
            HMAC_KEY,
        )
        .unwrap();
        responses.push(r);
    }
    for r in &responses[1..] {
        assert_same_response(&responses[0], r);
    }
    assert_eq!(store.newsletter_issues.len(), 1);
    assert_eq!(store.issue_delivery_queue.len(), 2);
}

#[test]
fn failed_workflow_rolls_the_claim_back_and_the_retry_succeeds() {
    let mut ledger = Ledger::new();
    let mut store = store_with_subscribers();
    // Occupy the identifier the first attempt will draw: the insert then
    // fails mid-workflow, after the claim.
    store
        .insert_newsletter_issue(100, "already there", "t", "h", 500)
        .unwrap();
    let failed =
        publish_with_issue_id(&mut ledger, &mut store, USER_A, &body("k1"), 100, 1000, HMAC_KEY);
    assert_eq!(failed.unwrap_err(), PublishError::UnexpectedError);
    // The ledger row is gone and no business row was added.
    let key = zero2prod::idempotency::IdempotencyKey::parse("k1".to_string()).unwrap();
    assert!(ledger.get_saved_response(&key, USER_A).is_none());
    assert_eq!(store.newsletter_issues.len(), 1);
    assert_eq!(store.issue_delivery_queue.len(), 0);
    // The same key retried with a fresh identifier executes the workflow.
    let retried =
        publish_with_issue_id(&mut ledger, &mut store, USER_A, &body("k1"), 101, 2000, HMAC_KEY);
    assert_eq!(retried.unwrap().status, 303);
    assert_eq!(store.newsletter_issues.len(), 2);
    assert_eq!(store.issue_delivery_queue.len(), 2);
}

#[test]
fn two_users_with_the_same_key_publish_independently() {
    let mut ledger = Ledger::new();
    let mut store = store_with_subscribers();
    let first =
        publish_with_issue_id(&mut ledger, &mut store, USER_A, &body("shared"), 100, 1000, HMAC_KEY)
            .unwrap();
    // User B submits the identical key string: no cross-user replay, the
    // workflow runs again for B.
    let second =
        publish_with_issue_id(&mut ledger, &mut store, USER_B, &body("shared"), 200, 2000, HMAC_KEY)
            .unwrap();
    assert_eq!(first.status, 303);
    assert_eq!(second.status, 303);
    assert_eq!(store.newsletter_issues.len(), 2);
    assert_eq!(store.issue_delivery_queue.len(), 4);
    // And A's recorded response is untouched.
    let key = zero2prod::idempotency::IdempotencyKey::parse("shared".to_string()).unwrap();
    assert!(ledger.get_saved_response(&key, USER_A).is_some());
}

#[test]
fn the_endpoint_shell_draws_its_own_identifier() {
    let mut ledger = Ledger::new();
    let mut store = store_with_subscribers();
    let r = publish_newsletter(&mut ledger, &mut store, USER_A, &body("k1"), HMAC_KEY).unwrap();
    assert_eq!(r.status, 303);
    assert_eq!(store.newsletter_issues.len(), 1);
    let replay = publish_newsletter(&mut ledger, &mut store, USER_A, &body("k1"), HMAC_KEY).unwrap();
    assert_same_response(&r, &replay);
    assert_eq!(store.newsletter_issues.len(), 1);
}

#[test]
fn success_response_redirects_to_the_form_with_the_flash_cookies() {
    let mut ledger = Ledger::new();
    let mut store = store_with_subscribers();
    let r = publish_with_issue_id(&mut ledger, &mut store, USER_A, &body("k1"), 100, 1000, HMAC_KEY)
        .unwrap();
    assert_eq!(r.status, 303);
    assert_eq!(r.headers[0].name, "Location");
    assert_eq!(r.headers[0].value, b"/admin/newsletters".to_vec());
    assert_eq!(r.headers[1].name, "Set-Cookie");
    assert!(r.headers[1].value.starts_with(b"_flash=The newsletter issue has been published!"));
    assert_eq!(r.headers[2].name, "Set-Cookie");
    assert!(r.headers[2].value.starts_with(b"tag="));
    assert!(r.body.is_empty());
}
