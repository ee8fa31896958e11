use zero2prod::store::Store;
use zero2prod::store::StoreError;
use zero2prod::store::SubscriberStatus;
use zero2prod::subscriptions::confirmation_link;
use zero2prod::subscriptions::generate_subscription_token;

#[test]
fn subscribers_start_pending_and_can_be_confirmed() {
    let mut store = Store::new();
    store.insert_subscriber(1, "a@example.com".to_string());
    assert_eq!(store.subscriptions.len(), 1);
    assert_eq!(store.subscriptions[0].status, SubscriberStatus::PendingConfirmation);
    store.confirm_subscriber(1);
    assert_eq!(store.subscriptions[0].status, SubscriberStatus::Confirmed);
    assert_eq!(store.subscriptions[0].email, "a@example.com");
}

#[test]
fn confirming_one_subscriber_leaves_the_others_pending() {
    let mut store = Store::new();
    store.insert_subscriber(1, "a@example.com".to_string());
    store.insert_subscriber(2, "b@example.com".to_string());
    store.confirm_subscriber(2);
    assert_eq!(store.subscriptions[0].status, SubscriberStatus::PendingConfirmation);
    assert_eq!(store.subscriptions[1].status, SubscriberStatus::Confirmed);
}

#[test]
fn confirmed_subscribers_come_back_in_table_order() {
    let mut store = Store::new();
    store.insert_subscriber(1, "a@example.com".to_string());
    store.insert_subscriber(2, "b@example.com".to_string());
    store.insert_subscriber(3, "c@example.com".to_string());
    store.confirm_subscriber(3);
    store.confirm_subscriber(1);
    let confirmed = store.get_confirmed_subscribers();
    assert_eq!(confirmed, vec!["a@example.com".to_string(), "c@example.com".to_string()]);
}

#[test]
fn duplicate_issue_identifiers_are_refused() {
    let mut store = Store::new();
    assert!(store.insert_newsletter_issue(5, "one", "t", "h", 100).is_ok());
    assert_eq!(
        store.insert_newsletter_issue(5, "two", "t", "h", 200).unwrap_err(),
        StoreError::DuplicateIssueId
    );
    assert_eq!(store.newsletter_issues.len(), 1);
    assert_eq!(store.newsletter_issues[0].title, "one");
}

#[test]
fn enqueue_takes_the_confirmed_set_at_call_time() {
    let mut store = Store::new();
    store.insert_subscriber(1, "a@example.com".to_string());
    store.confirm_subscriber(1);
    store.insert_newsletter_issue(5, "one", "t", "h", 100).unwrap();
    store.enqueue_delivery_tasks(5);
    assert_eq!(store.issue_delivery_queue.len(), 1);
    // A subscriber confirmed later is not retroactively enqueued.
    store.insert_subscriber(2, "b@example.com".to_string());
    store.confirm_subscriber(2);
    assert_eq!(store.issue_delivery_queue.len(), 1);
    assert_eq!(store.issue_delivery_queue[0].subscriber_email, "a@example.com");
    assert_eq!(store.issue_delivery_queue[0].newsletter_issue_id, 5);
}

#[test]
fn tokens_map_back_to_their_subscriber() {
    let mut store = Store::new();
    assert!(store.store_token("tok-one".to_string(), 11).is_ok());
    assert!(store.store_token("tok-two".to_string(), 22).is_ok());
    assert_eq!(store.get_subscriber_id_from_token("tok-one"), Some(11));
    assert_eq!(store.get_subscriber_id_from_token("tok-two"), Some(22));
    assert_eq!(store.get_subscriber_id_from_token("tok-three"), None);
}

#[test]
fn a_taken_token_cannot_be_stored_twice() {
    let mut store = Store::new();
    assert!(store.store_token("tok".to_string(), 11).is_ok());
    assert!(store.store_token("tok".to_string(), 22).is_err());
    assert_eq!(store.get_subscriber_id_from_token("tok"), Some(11));
}

#[test]
fn subscription_tokens_are_25_alphanumerics() {
    let one = generate_subscription_token();
    let two = generate_subscription_token();
    assert_eq!(one.chars().count(), 25);
    assert_eq!(two.chars().count(), 25);
    assert!(one.chars().all(|c| c.is_ascii_alphanumeric()));
    assert!(two.chars().all(|c| c.is_ascii_alphanumeric()));
}

#[test]
fn confirmation_links_embed_the_token() {
    let link = confirmation_link("https://news.example.com", "abc123");
    assert_eq!(
        link,
        "https://news.example.com/subscriptions/confirm?subscription_token=abc123"
    );
}
