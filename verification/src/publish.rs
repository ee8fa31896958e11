use vstd::prelude::*;
use vstd::string::StringSliceAdditionalSpecFns;
use crate::flash::attach_flash_model;
use crate::flash::attach_flashed_message;
use crate::flash::lemma_attach_flash_idempotent;
use crate::idempotency::IdempotencyKey;
use crate::idempotency::MAX_KEY_LENGTH;
use crate::persistence::EntryModel;
use crate::persistence::Ledger;
use crate::persistence::NextAction;
use crate::persistence::lemma_rollback_releases_claim;
use crate::response::HttpResponse;
use crate::response::ResponseModel;
use crate::store::IssueModel;
use crate::store::Store;
use crate::store::StoreModel;
use crate::store::confirmed_emails;
use crate::store::delivery_rows;
use crate::store::has_issue;

verus! {

// The transactional publish workflow and the boundary that maps claim
// outcomes to responses. One call does what the protected endpoint does for
// one request: validate the token, claim (or find completed) the
// (user, token) pair, store the issue, enqueue one delivery row per confirmed
// subscriber, snapshot the success response into the ledger, and commit — or
// replay the recorded response without touching the business tables again.

/// The submitted form: the issue's content plus the client's idempotency
/// token.
pub struct BodyData {
    pub title: String,
    pub html_content: String,
    pub text_content: String,
    pub idempotency_key: String,
}

/// The mathematical content of a submission.
#[verifier::ext_equal]
pub struct BodyModel {
    pub title: Seq<char>,
    pub html_content: Seq<char>,
    pub text_content: Seq<char>,
    pub idempotency_key: Seq<char>,
}

impl View for BodyData {
    type V = BodyModel;

    open spec fn view(&self) -> BodyModel {
        BodyModel {
            title: self.title@,
            html_content: self.html_content@,
            text_content: self.text_content@,
            idempotency_key: self.idempotency_key@,
        }
    }
}

/// How publishing fails. A validation failure is not among these: it is
/// answered with a client-error response. A storage failure aborts the open
/// transaction and surfaces as a server error; the claim row rolls back with
/// it, so the client may safely retry.
#[derive(Clone, Copy, Debug, PartialEq, Eq)]
pub enum PublishError {
    AuthError,
    UnexpectedError,
}

/// Relies on `uuid::Uuid::new_v4` and `as_u128`: a randomly drawn identifier.
/// Nothing is promised of the value; the workflow checks for a collision and
/// fails the attempt rather than trust freshness.
#[verifier::external_body]
fn fresh_uuid_v4() -> u128 {
    uuid::Uuid::new_v4().as_u128()
}

/// Relies on `chrono::Utc::now` and `timestamp`: the wall clock, read once.
/// Nothing is promised of a clock reading.
#[verifier::external_body]
fn current_timestamp() -> i64 {
    chrono::Utc::now().timestamp()
}

/// A submission's token is accepted exactly when non-empty and within the
/// length bound.
pub open spec fn publish_key_valid(body: BodyModel) -> bool {
    0 < body.idempotency_key.len() <= MAX_KEY_LENGTH
}

/// The flash message of a successful publication.
pub open spec fn success_message() -> Seq<char> {
    "The newsletter issue has been published!"@
}

/// The redirect a fresh publication is built from, before its flash cookies.
pub open spec fn see_other_model() -> ResponseModel {
    ResponseModel {
        status: 303,
        headers: seq![("Location"@, "/admin/newsletters".spec_bytes())],
        body: Seq::empty(),
    }
}

/// The full success response: the redirect with the flash message attached.
/// This is what is sent, what is snapshotted, and what every replay returns.
pub open spec fn success_response(hmac_key: Seq<u8>) -> ResponseModel {
    attach_flash_model(see_other_model(), hmac_key, success_message())
}

/// The response to a malformed idempotency token.
pub open spec fn bad_request_model() -> ResponseModel {
    ResponseModel { status: 400, headers: Seq::empty(), body: Seq::empty() }
}

/// Everything one request changes and answers: the ledger and business
/// tables afterwards, and the response (`None` stands for a server error).
#[verifier::ext_equal]
pub struct PublishModel {
    pub ledger: Map<(u128, Seq<char>), EntryModel>,
    pub store: StoreModel,
    pub result: Option<ResponseModel>,
}

/// What one publish request does, as a function of the drawn issue identifier
/// and the clock. An invalid token is rejected before any row is touched. A
/// completed pair is replayed verbatim (with the flash cookies reattached, a
/// no-op on the stored response). Otherwise the pair is claimed and the
/// workflow runs: on an identifier collision the claim rolls back and
/// nothing changes; on success the issue row, its delivery rows and the
/// completed ledger entry all appear together.
pub open spec fn spec_publish(
    ledger: Map<(u128, Seq<char>), EntryModel>,
    store: StoreModel,
    user_id: u128,
    body: BodyModel,
    newsletter_issue_id: u128,
    now: int,
    hmac_key: Seq<u8>,
) -> PublishModel {
    if !publish_key_valid(body) {
        PublishModel { ledger, store, result: Some(bad_request_model()) }
    } else {
        let pair = (user_id, body.idempotency_key);
        if ledger.contains_key(pair) {
            match ledger[pair].response {
                Some(saved) => PublishModel {
                    ledger,
                    store,
                    result: Some(attach_flash_model(saved, hmac_key, success_message())),
                },
                None => PublishModel { ledger, store, result: None },
            }
        } else if has_issue(store, newsletter_issue_id) {
            PublishModel { ledger, store, result: None }
        } else {
            let resp = success_response(hmac_key);
            PublishModel {
                ledger: ledger.insert(
                    pair,
                    EntryModel { created_at: now, response: Some(resp) },
                ),
                store: StoreModel {
                    newsletter_issues: store.newsletter_issues.push(
                        IssueModel {
                            newsletter_issue_id,
                            title: body.title,
                            text_content: body.text_content,
                            html_content: body.html_content,
                            published_at: now,
                        },
                    ),
                    issue_delivery_queue: store.issue_delivery_queue + delivery_rows(
                        newsletter_issue_id,
                        confirmed_emails(store.subscriptions),
                    ),
                    ..store
                },
                result: Some(resp),
            }
        }
    }
}

/// The result field of a publish call, for comparing against the model.
pub open spec fn result_model(r: Result<HttpResponse, PublishError>) -> Option<ResponseModel> {
    match r {
        Ok(resp) => Some(resp@),
        Err(_) => None,
    }
}

/// One publish request, with the drawn identifier and clock reading passed
/// in: everything it does is `spec_publish` of its arguments. The
/// precondition that the pair is not pending is the row lock (see the
/// ledger); a rival request holding the claim would block here, not race.
pub fn publish_with_issue_id(
    ledger: &mut Ledger,
    store: &mut Store,
    user_id: u128,
    body: &BodyData,
    newsletter_issue_id: u128,
    now: i64,
    hmac_key: &[u8],
) -> (r: Result<HttpResponse, PublishError>)
    requires
        old(ledger).wf(),
        old(store).wf(),
        !old(ledger).is_pending(user_id, body@.idempotency_key),
    ensures
        final(ledger).wf(),
        final(store).wf(),
        final(ledger)@ == spec_publish(
            old(ledger)@,
            old(store)@,
            user_id,
            body@,
            newsletter_issue_id,
            now as int,
            hmac_key@,
        ).ledger,
        final(store)@ == spec_publish(
            old(ledger)@,
            old(store)@,
            user_id,
            body@,
            newsletter_issue_id,
            now as int,
            hmac_key@,
        ).store,
        result_model(r) == spec_publish(
            old(ledger)@,
            old(store)@,
            user_id,
            body@,
            newsletter_issue_id,
            now as int,
            hmac_key@,
        ).result,
        r matches Ok(resp) ==> resp.wf(),
        !publish_key_valid(body@) ==> final(ledger)@ == old(ledger)@ && final(store)@ == old(
            store,
        )@,
    {
        let key = match IdempotencyKey::parse(body.idempotency_key.clone()) {
            Ok(k) => k,
            Err(_) => {
                let resp = HttpResponse::new(400);
                proof {
                    assert(resp@ =~= bad_request_model());
                }
                return Ok(resp);
            },
        };
        match ledger.try_processing(&key, user_id, now) {
            NextAction::ReturnSavedResponse(mut saved) => {
                attach_flashed_message(&mut saved, hmac_key, "The newsletter issue has been published!");
                Ok(saved)
            },
            NextAction::StartProcessing => {
                let ghost claimed = ledger@;
                match store.insert_newsletter_issue(
                    newsletter_issue_id,
                    body.title.as_str(),
                    body.text_content.as_str(),
                    body.html_content.as_str(),
                    now,
                ) {
                    Ok(_) => {},
                    Err(_) => {
                        ledger.rollback(&key, user_id);
                        proof {
                            lemma_rollback_releases_claim(
                                old(ledger)@,
                                user_id,
                                key@,
                                EntryModel { created_at: now as int, response: None },
                            );
                        }
                        return Err(PublishError::UnexpectedError);
                    },
                }
                store.enqueue_delivery_tasks(newsletter_issue_id);
                let mut resp = HttpResponse::see_other("/admin/newsletters");
                attach_flashed_message(&mut resp, hmac_key, "The newsletter issue has been published!");
                proof {
                    assert(resp@ == success_response(hmac_key@));
                }
                let resp = ledger.save_response(&key, user_id, resp);
                proof {
                    assert(ledger@ =~= spec_publish(
                        old(ledger)@,
                        old(store)@,
                        user_id,
                        body@,
                        newsletter_issue_id,
                        now as int,
                        hmac_key@,
                    ).ledger);
                    assert(store@ =~= spec_publish(
                        old(ledger)@,
                        old(store)@,
                        user_id,
                        body@,
                        newsletter_issue_id,
                        now as int,
                        hmac_key@,
                    ).store);
                }
                Ok(resp)
            },
        }
    }

/// The protected endpoint's work for one request: draws a fresh identifier
/// and reads the clock, then runs the workflow. Whatever the draw, the
/// outcome is `spec_publish` for some identifier and instant; the rejection
/// of a bad token and the replay of a completed pair do not depend on the
/// draw at all, so those clauses are stated outright.
pub fn publish_newsletter(
    ledger: &mut Ledger,
    store: &mut Store,
    user_id: u128,
    body: &BodyData,
    hmac_key: &[u8],
) -> (r: Result<HttpResponse, PublishError>)
    requires
        old(ledger).wf(),
        old(store).wf(),
        !old(ledger).is_pending(user_id, body@.idempotency_key),
    ensures
        final(ledger).wf(),
        final(store).wf(),
        exists|newsletter_issue_id: u128, now: int|
            {
                let out = #[trigger] spec_publish(
                    old(ledger)@,
                    old(store)@,
                    user_id,
                    body@,
                    newsletter_issue_id,
                    now,
                    hmac_key@,
                );
                final(ledger)@ == out.ledger && final(store)@ == out.store && result_model(r)
                    == out.result
            },
        !publish_key_valid(body@) ==> (r matches Ok(resp) && resp@ == bad_request_model())
            && final(ledger)@ == old(ledger)@ && final(store)@ == old(store)@,
        publish_key_valid(body@) && old(ledger).is_complete(user_id, body@.idempotency_key) ==> (
        r matches Ok(resp) && resp@ == attach_flash_model(
            old(ledger).saved_model(user_id, body@.idempotency_key),
            hmac_key@,
            success_message(),
        )) && final(ledger)@ == old(ledger)@ && final(store)@ == old(store)@,
    {
        let newsletter_issue_id = fresh_uuid_v4();
        let now = current_timestamp();
        let r = publish_with_issue_id(
            ledger,
            store,
            user_id,
            body,
            newsletter_issue_id,
            now,
            hmac_key,
        );
        r
    }

/// Submitting the same valid request twice in sequence: the second answer is
/// identical — same status, headers and bytes — and the second call changes
/// neither the ledger nor the business tables, whatever identifier and
/// instant it draws. The issue row and its queue rows exist once.
pub proof fn lemma_sequential_resubmission_identical(
    ledger: Map<(u128, Seq<char>), EntryModel>,
    store: StoreModel,
    user_id: u128,
    body: BodyModel,
    id1: u128,
    now1: int,
    id2: u128,
    now2: int,
    hmac_key: Seq<u8>,
)
    requires
        publish_key_valid(body),
        !ledger.contains_key((user_id, body.idempotency_key)),
        !has_issue(store, id1),
    ensures
        ({
            let first = spec_publish(ledger, store, user_id, body, id1, now1, hmac_key);
            let second = spec_publish(
                first.ledger,
                first.store,
                user_id,
                body,
                id2,
                now2,
                hmac_key,
            );
            second.ledger == first.ledger && second.store == first.store && second.result
                == first.result && first.result == Some(success_response(hmac_key))
        }),
{
    lemma_attach_flash_idempotent(see_other_model(), hmac_key, success_message());
}

/// Once a pair is complete with the success response on record, a further
/// submission returns that response and changes nothing, whatever it draws.
pub proof fn lemma_replay_returns_saved(
    ledger: Map<(u128, Seq<char>), EntryModel>,
    store: StoreModel,
    user_id: u128,
    body: BodyModel,
    newsletter_issue_id: u128,
    now: int,
    hmac_key: Seq<u8>,
)
    requires
        publish_key_valid(body),
        ledger.contains_key((user_id, body.idempotency_key)),
        ledger[(user_id, body.idempotency_key)].response == Some(success_response(hmac_key)),
    ensures
        ({
            let out = spec_publish(
                ledger,
                store,
                user_id,
                body,
                newsletter_issue_id,
                now,
                hmac_key,
            );
            out.ledger == ledger && out.store == store && out.result == Some(
                success_response(hmac_key),
            )
        }),
{
    lemma_attach_flash_idempotent(see_other_model(), hmac_key, success_message());
}

/// The serialized outcome of a burst of submissions: the database's row lock
/// runs them one after another, so N concurrent requests are the first
/// followed by N - 1 replays.
pub open spec fn run_publishes(
    ledger: Map<(u128, Seq<char>), EntryModel>,
    store: StoreModel,
    user_id: u128,
    body: BodyModel,
    draws: Seq<(u128, int)>,
    hmac_key: Seq<u8>,
) -> PublishModel
    decreases draws.len(),
{
    if draws.len() == 0 {
        PublishModel { ledger, store, result: None }
    } else {
        let prev = run_publishes(ledger, store, user_id, body, draws.drop_last(), hmac_key);
        spec_publish(
            prev.ledger,
            prev.store,
            user_id,
            body,
            draws.last().0,
            draws.last().1,
            hmac_key,
        )
    }
}

/// N submissions of one valid (user, key, payload), serialized by the row
/// lock: business logic runs exactly once — the state after all N is the
/// state after the first — and every one of the N answers is the same
/// success response, whatever identifiers and instants the later calls draw.
pub proof fn lemma_n_submissions_execute_once(
    ledger: Map<(u128, Seq<char>), EntryModel>,
    store: StoreModel,
    user_id: u128,
    body: BodyModel,
    draws: Seq<(u128, int)>,
    hmac_key: Seq<u8>,
)
    requires
        publish_key_valid(body),
        !ledger.contains_key((user_id, body.idempotency_key)),
        draws.len() >= 1,
        !has_issue(store, draws[0].0),
    ensures
        ({
            let first = spec_publish(
                ledger,
                store,
                user_id,
                body,
                draws[0].0,
                draws[0].1,
                hmac_key,
            );
            let all = run_publishes(ledger, store, user_id, body, draws, hmac_key);
            all.ledger == first.ledger && all.store == first.store && all.result == Some(
                success_response(hmac_key),
            ) && first.result == Some(success_response(hmac_key))
        }),
        forall|k: int|
            1 <= k <= draws.len() ==> run_publishes(
                ledger,
                store,
                user_id,
                body,
                #[trigger] draws.take(k),
                hmac_key,
            ).result == Some(success_response(hmac_key)),
    decreases draws.len(),
{
    let pair = (user_id, body.idempotency_key);
    let first = spec_publish(ledger, store, user_id, body, draws[0].0, draws[0].1, hmac_key);
    if draws.len() == 1 {
        assert(run_publishes(ledger, store, user_id, body, draws.drop_last(), hmac_key)
            == (PublishModel { ledger, store, result: None }));
        assert forall|k: int|
            1 <= k <= draws.len() implies run_publishes(
            ledger,
            store,
            user_id,
            body,
            #[trigger] draws.take(k),
            hmac_key,
        ).result == Some(success_response(hmac_key)) by {
            assert(draws.take(k) =~= draws);
        }
    } else {
        let prefix = draws.drop_last();
        assert(prefix[0] == draws[0]);
        lemma_n_submissions_execute_once(ledger, store, user_id, body, prefix, hmac_key);
        let prev = run_publishes(ledger, store, user_id, body, prefix, hmac_key);
        assert(prev.ledger == first.ledger && prev.store == first.store);
        assert(first.ledger.contains_key(pair) && first.ledger[pair].response == Some(
            success_response(hmac_key),
        ));
        lemma_replay_returns_saved(
            prev.ledger,
            prev.store,
            user_id,
            body,
            draws.last().0,
            draws.last().1,
            hmac_key,
        );
        assert forall|k: int|
            1 <= k <= draws.len() implies run_publishes(
            ledger,
            store,
            user_id,
            body,
            #[trigger] draws.take(k),
            hmac_key,
        ).result == Some(success_response(hmac_key)) by {
            if k < draws.len() {
                assert(draws.take(k) =~= prefix.take(k));
            } else {
                assert(draws.take(k) =~= draws);
            }
        }
    }
}

/// Users partition the key space: a submission by one user neither replays
/// nor disturbs another user's entry under the identical key string. User
/// B's fresh submission runs the workflow even when user A already completed
/// the same token, and A's entry is untouched afterwards.
pub proof fn lemma_keys_scoped_per_user(
    ledger: Map<(u128, Seq<char>), EntryModel>,
    store: StoreModel,
    user_a: u128,
    user_b: u128,
    body: BodyModel,
    newsletter_issue_id: u128,
    now: int,
    hmac_key: Seq<u8>,
)
    requires
        user_a != user_b,
        publish_key_valid(body),
        !ledger.contains_key((user_b, body.idempotency_key)),
        !has_issue(store, newsletter_issue_id),
    ensures
        ({
            let out = spec_publish(
                ledger,
                store,
                user_b,
                body,
                newsletter_issue_id,
                now,
                hmac_key,
            );
            out.result == Some(success_response(hmac_key)) && out.store.newsletter_issues.len()
                == store.newsletter_issues.len() + 1 && out.ledger.contains_key(
                (user_a, body.idempotency_key),
            ) == ledger.contains_key((user_a, body.idempotency_key)) && (ledger.contains_key(
                (user_a, body.idempotency_key),
            ) ==> out.ledger[(user_a, body.idempotency_key)] == ledger[(
                user_a,
                body.idempotency_key,
            )])
        }),
{
}

/// No issue without its fan-out: whenever a publish call adds an issue row,
/// the very same call appends exactly one delivery row per subscriber
/// confirmed at that instant, for that issue — a committed issue always has
/// its deliveries already enqueued.
pub proof fn lemma_issue_always_enqueued(
    ledger: Map<(u128, Seq<char>), EntryModel>,
    store: StoreModel,
    user_id: u128,
    body: BodyModel,
    newsletter_issue_id: u128,
    now: int,
    hmac_key: Seq<u8>,
)
    ensures
        ({
            let out = spec_publish(
                ledger,
                store,
                user_id,
                body,
                newsletter_issue_id,
                now,
                hmac_key,
            );
            out.store.newsletter_issues != store.newsletter_issues
                ==> out.store.newsletter_issues == store.newsletter_issues.push(
                (IssueModel {
                    newsletter_issue_id,
                    title: body.title,
                    text_content: body.text_content,
                    html_content: body.html_content,
                    published_at: now,
                }),
            ) && out.store.issue_delivery_queue == store.issue_delivery_queue + delivery_rows(
                newsletter_issue_id,
                confirmed_emails(store.subscriptions),
            )
        }),
{
}

/// A failed attempt leaves no trace and does not burn the key: when the
/// workflow fails after claiming (here: the drawn identifier collides), the
/// ledger row is rolled back with the transaction, and a retry with the same
/// key runs the whole workflow and succeeds.
pub proof fn lemma_failed_attempt_leaves_key_claimable(
    ledger: Map<(u128, Seq<char>), EntryModel>,
    store: StoreModel,
    user_id: u128,
    body: BodyModel,
    colliding_id: u128,
    now1: int,
    fresh_id: u128,
    now2: int,
    hmac_key: Seq<u8>,
)
    requires
        publish_key_valid(body),
        !ledger.contains_key((user_id, body.idempotency_key)),
        has_issue(store, colliding_id),
        !has_issue(store, fresh_id),
    ensures
        ({
            let failed = spec_publish(
                ledger,
                store,
                user_id,
                body,
                colliding_id,
                now1,
                hmac_key,
            );
            let retry = spec_publish(
                failed.ledger,
                failed.store,
                user_id,
                body,
                fresh_id,
                now2,
                hmac_key,
            );
            failed.result is None && failed.ledger == ledger && failed.store == store
                && !failed.ledger.contains_key((user_id, body.idempotency_key))
                && retry.result == Some(success_response(hmac_key))
                && retry.store.newsletter_issues.len() == store.newsletter_issues.len() + 1
        }),
{
}

} // verus!
