use vstd::prelude::*;
use vstd::pervasive::VecAdditionalExecFns;
use crate::response::str_equal;

verus! {

// The business tables the publish workflow writes, modelled as plain rows:
// subscriptions, newsletter issues and the delivery queue the out-of-scope
// worker drains, plus the confirmation tokens of the subscription flow. The
// workflow's obligation ends at durably enqueuing one delivery row per
// confirmed subscriber in the same transaction that stores the issue.

#[derive(Clone, Copy, Debug, PartialEq, Eq, Structural)]
pub enum SubscriberStatus {
    PendingConfirmation,
    Confirmed,
}

/// One row of the subscriptions table.
pub struct Subscriber {
    pub id: u128,
    pub email: String,
    pub status: SubscriberStatus,
}

impl View for Subscriber {
    type V = (u128, Seq<char>, SubscriberStatus);

    open spec fn view(&self) -> (u128, Seq<char>, SubscriberStatus) {
        (self.id, self.email@, self.status)
    }
}

/// The mathematical content of one newsletter issue row.
#[verifier::ext_equal]
pub struct IssueModel {
    pub newsletter_issue_id: u128,
    pub title: Seq<char>,
    pub text_content: Seq<char>,
    pub html_content: Seq<char>,
    pub published_at: int,
}

/// One row of the newsletter_issues table.
pub struct NewsletterIssue {
    pub newsletter_issue_id: u128,
    pub title: String,
    pub text_content: String,
    pub html_content: String,
    pub published_at: i64,
}

impl View for NewsletterIssue {
    type V = IssueModel;

    open spec fn view(&self) -> IssueModel {
        IssueModel {
            newsletter_issue_id: self.newsletter_issue_id,
            title: self.title@,
            text_content: self.text_content@,
            html_content: self.html_content@,
            published_at: self.published_at as int,
        }
    }
}

/// One row of the issue_delivery_queue table.
pub struct DeliveryQueueRow {
    pub newsletter_issue_id: u128,
    pub subscriber_email: String,
}

impl View for DeliveryQueueRow {
    type V = (u128, Seq<char>);

    open spec fn view(&self) -> (u128, Seq<char>) {
        (self.newsletter_issue_id, self.subscriber_email@)
    }
}

/// One row of the subscription_tokens table.
pub struct SubscriptionToken {
    pub subscription_token: String,
    pub subscriber_id: u128,
}

impl View for SubscriptionToken {
    type V = (Seq<char>, u128);

    open spec fn view(&self) -> (Seq<char>, u128) {
        (self.subscription_token@, self.subscriber_id)
    }
}

pub open spec fn subscriber_views(s: Seq<Subscriber>) -> Seq<(u128, Seq<char>, SubscriberStatus)> {
    s.map_values(|x: Subscriber| x@)
}

pub open spec fn issue_views(s: Seq<NewsletterIssue>) -> Seq<IssueModel> {
    s.map_values(|x: NewsletterIssue| x@)
}

pub open spec fn queue_views(s: Seq<DeliveryQueueRow>) -> Seq<(u128, Seq<char>)> {
    s.map_values(|x: DeliveryQueueRow| x@)
}

pub open spec fn token_views(s: Seq<SubscriptionToken>) -> Seq<(Seq<char>, u128)> {
    s.map_values(|x: SubscriptionToken| x@)
}

/// The business tables as mathematical sequences of rows.
#[verifier::ext_equal]
pub struct StoreModel {
    pub subscriptions: Seq<(u128, Seq<char>, SubscriberStatus)>,
    pub newsletter_issues: Seq<IssueModel>,
    pub issue_delivery_queue: Seq<(u128, Seq<char>)>,
    pub subscription_tokens: Seq<(Seq<char>, u128)>,
}

/// The business tables.
pub struct Store {
    pub subscriptions: Vec<Subscriber>,
    pub newsletter_issues: Vec<NewsletterIssue>,
    pub issue_delivery_queue: Vec<DeliveryQueueRow>,
    pub subscription_tokens: Vec<SubscriptionToken>,
}

impl View for Store {
    type V = StoreModel;

    open spec fn view(&self) -> StoreModel {
        StoreModel {
            subscriptions: subscriber_views(self.subscriptions@),
            newsletter_issues: issue_views(self.newsletter_issues@),
            issue_delivery_queue: queue_views(self.issue_delivery_queue@),
            subscription_tokens: token_views(self.subscription_tokens@),
        }
    }
}

/// A newsletter issue with this identifier exists.
pub open spec fn has_issue(m: StoreModel, newsletter_issue_id: u128) -> bool {
    exists|i: int|
        0 <= i < m.newsletter_issues.len() && (#[trigger] m.newsletter_issues[i]).newsletter_issue_id
            == newsletter_issue_id
}

/// A confirmation token row with this token exists.
pub open spec fn has_token(m: StoreModel, token: Seq<char>) -> bool {
    exists|i: int|
        0 <= i < m.subscription_tokens.len() && (#[trigger] m.subscription_tokens[i]).0 == token
}

/// The emails of the confirmed subscribers, in table order.
pub open spec fn confirmed_emails(subs: Seq<(u128, Seq<char>, SubscriberStatus)>) -> Seq<Seq<char>>
    decreases subs.len(),
{
    if subs.len() == 0 {
        Seq::empty()
    } else {
        let rest = confirmed_emails(subs.drop_last());
        if subs.last().2 is Confirmed {
            rest.push(subs.last().1)
        } else {
            rest
        }
    }
}

/// The delivery-queue rows enqueued for an issue: one per email, in order.
pub open spec fn delivery_rows(newsletter_issue_id: u128, emails: Seq<Seq<char>>) -> Seq<
    (u128, Seq<char>),
> {
    emails.map_values(|e: Seq<char>| (newsletter_issue_id, e))
}

/// The subscriptions after one subscriber is marked confirmed.
pub open spec fn confirm_rows(
    subs: Seq<(u128, Seq<char>, SubscriberStatus)>,
    subscriber_id: u128,
) -> Seq<(u128, Seq<char>, SubscriberStatus)> {
    subs.map_values(
        |s: (u128, Seq<char>, SubscriberStatus)|
            if s.0 == subscriber_id {
                (s.0, s.1, SubscriberStatus::Confirmed)
            } else {
                s
            },
    )
}

/// Inserting an issue fails only on an identifier collision, the table's
/// primary-key constraint.
#[derive(Clone, Copy, Debug, PartialEq, Eq)]
pub enum StoreError {
    DuplicateIssueId,
}

/// Storing a confirmation token fails when the token is already taken.
#[derive(Clone, Copy, Debug, PartialEq, Eq)]
pub struct StoreTokenError;

impl Store {
    /// Identifier columns with uniqueness constraints are in fact unique.
    pub open spec fn wf(&self) -> bool {
        &&& forall|i: int, j: int|
            #![trigger self@.newsletter_issues[i], self@.newsletter_issues[j]]
            0 <= i < j < self@.newsletter_issues.len()
                ==> self@.newsletter_issues[i].newsletter_issue_id
                != self@.newsletter_issues[j].newsletter_issue_id
        &&& forall|i: int, j: int|
            #![trigger self@.subscription_tokens[i], self@.subscription_tokens[j]]
            0 <= i < j < self@.subscription_tokens.len() ==> self@.subscription_tokens[i].0
                != self@.subscription_tokens[j].0
    }

    /// Empty tables.
    pub fn new() -> (r: Store)
        ensures
            r.wf(),
            r@ == (StoreModel {
                subscriptions: Seq::empty(),
                newsletter_issues: Seq::empty(),
                issue_delivery_queue: Seq::empty(),
                subscription_tokens: Seq::empty(),
            }),
    {
        let r = Store {
            subscriptions: Vec::new(),
            newsletter_issues: Vec::new(),
            issue_delivery_queue: Vec::new(),
            subscription_tokens: Vec::new(),
        };
        proof {
            assert(r@ =~= (StoreModel {
                subscriptions: Seq::empty(),
                newsletter_issues: Seq::empty(),
                issue_delivery_queue: Seq::empty(),
                subscription_tokens: Seq::empty(),
            }));
        }
        r
    }

    /// Appends a subscriber row, pending confirmation, as the subscription
    /// endpoint stores a new signup.
    pub fn insert_subscriber(&mut self, subscriber_id: u128, email: String)
        requires
            old(self).wf(),
        ensures
            final(self).wf(),
            final(self)@ == (StoreModel {
                subscriptions: old(self)@.subscriptions.push(
                    (subscriber_id, email@, SubscriberStatus::PendingConfirmation),
                ),
                ..old(self)@
            }),
    {
        let ghost before = self@;
        self.subscriptions.push(
            Subscriber { id: subscriber_id, email, status: SubscriberStatus::PendingConfirmation },
        );
        proof {
            assert(self@.subscriptions =~= before.subscriptions.push(
                self.subscriptions@.last()@,
            ));
            assert(self@ =~= (StoreModel {
                subscriptions: self@.subscriptions,
                ..before
            }));
        }
    }

    /// Stores the confirmation token handed to a new subscriber; refused when
    /// the token is already on file, as the table's key constraint would be.
    pub fn store_token(&mut self, subscription_token: String, subscriber_id: u128) -> (r: Result<
        (),
        StoreTokenError,
    >)
        requires
            old(self).wf(),
        ensures
            final(self).wf(),
            r is Ok <==> !has_token(old(self)@, subscription_token@),
            r is Ok ==> final(self)@ == (StoreModel {
                subscription_tokens: old(self)@.subscription_tokens.push(
                    (subscription_token@, subscriber_id),
                ),
                ..old(self)@
            }),
            r is Err ==> final(self)@ == old(self)@,
    {
        let n = self.subscription_tokens.len();
        let mut i: usize = 0;
        while i < n
            invariant
                i <= n,
                n == self@.subscription_tokens.len(),
                old(self).wf(),
                self@ == old(self)@,
                forall|j: int|
                    0 <= j < i ==> (#[trigger] self@.subscription_tokens[j]).0
                        != subscription_token@,
            decreases n - i,
        {
            if str_equal(
                self.subscription_tokens[i].subscription_token.as_str(),
                subscription_token.as_str(),
            ) {
                proof {
                    assert(self@.subscription_tokens[i as int].0 == subscription_token@);
                }
                return Err(StoreTokenError);
            }
            i = i + 1;
        }
        let ghost before = self@;
        self.subscription_tokens.push(
            SubscriptionToken { subscription_token, subscriber_id },
        );
        proof {
            assert(self@.subscription_tokens =~= before.subscription_tokens.push(
                self.subscription_tokens@.last()@,
            ));
            assert(self@ =~= (StoreModel {
                subscription_tokens: self@.subscription_tokens,
                ..before
            }));
        }
        Ok(())
    }

    /// The subscriber a confirmation token belongs to, if the token is on
    /// file.
    pub fn get_subscriber_id_from_token(&self, subscription_token: &str) -> (r: Option<u128>)
        requires
            self.wf(),
        ensures
            r is Some <==> has_token(self@, subscription_token@),
            r matches Some(id) ==> exists|i: int|
                0 <= i < self@.subscription_tokens.len() && #[trigger] self@.subscription_tokens[i]
                    == (subscription_token@, id),
    {
        let n = self.subscription_tokens.len();
        let mut i: usize = 0;
        while i < n
            invariant
                i <= n,
                n == self@.subscription_tokens.len(),
                forall|j: int|
                    0 <= j < i ==> (#[trigger] self@.subscription_tokens[j]).0
                        != subscription_token@,
            decreases n - i,
        {
            if str_equal(
                self.subscription_tokens[i].subscription_token.as_str(),
                subscription_token,
            ) {
                let id = self.subscription_tokens[i].subscriber_id;
                proof {
                    assert(self@.subscription_tokens[i as int] == (subscription_token@, id));
                }
                return Some(id);
            }
            i = i + 1;
        }
        None
    }

    /// Marks every subscription row of this subscriber confirmed, as the
    /// confirmation endpoint's update does.
    pub fn confirm_subscriber(&mut self, subscriber_id: u128)
        requires
            old(self).wf(),
        ensures
            final(self).wf(),
            final(self)@ == (StoreModel {
                subscriptions: confirm_rows(old(self)@.subscriptions, subscriber_id),
                ..old(self)@
            }),
    {
        let ghost before = self@;
        let ghost rows0 = self.subscriptions@;
        let n = self.subscriptions.len();
        let mut i: usize = 0;
        while i < n
            invariant
                i <= n,
                n == self.subscriptions@.len(),
                n == rows0.len(),
                self.newsletter_issues@ == old(self).newsletter_issues@,
                self.issue_delivery_queue@ == old(self).issue_delivery_queue@,
                self.subscription_tokens@ == old(self).subscription_tokens@,
                forall|j: int|
                    0 <= j < i ==> (#[trigger] self.subscriptions@[j])@ == confirm_rows(
                        subscriber_views(rows0),
                        subscriber_id,
                    )[j],
                forall|j: int| i <= j < n ==> #[trigger] self.subscriptions@[j] == rows0[j],
            decreases n - i,
        {
            proof {
                assert(confirm_rows(subscriber_views(rows0), subscriber_id)[i as int]
                    == (if rows0[i as int]@.0 == subscriber_id {
                    (rows0[i as int]@.0, rows0[i as int]@.1, SubscriberStatus::Confirmed)
                } else {
                    rows0[i as int]@
                }));
            }
            if self.subscriptions[i].id == subscriber_id {
                let email = self.subscriptions[i].email.clone();
                self.subscriptions.set(
                    i,
                    Subscriber { id: subscriber_id, email, status: SubscriberStatus::Confirmed },
                );
            }
            i = i + 1;
        }
        proof {
            assert(self@.subscriptions =~= confirm_rows(before.subscriptions, subscriber_id));
            assert(self@ =~= (StoreModel {
                subscriptions: confirm_rows(before.subscriptions, subscriber_id),
                ..before
            }));
        }
    }

    /// Inserts the new issue row; fails exactly when the identifier is
    /// already taken, the table's primary-key violation.
    pub fn insert_newsletter_issue(
        &mut self,
        newsletter_issue_id: u128,
        title: &str,
        text_content: &str,
        html_content: &str,
        published_at: i64,
    ) -> (r: Result<(), StoreError>)
        requires
            old(self).wf(),
        ensures
            final(self).wf(),
            r is Ok <==> !has_issue(old(self)@, newsletter_issue_id),
            r is Ok ==> final(self)@ == (StoreModel {
                newsletter_issues: old(self)@.newsletter_issues.push(
                    (IssueModel {
                        newsletter_issue_id,
                        title: title@,
                        text_content: text_content@,
                        html_content: html_content@,
                        published_at: published_at as int,
                    }),
                ),
                ..old(self)@
            }),
            r is Err ==> final(self)@ == old(self)@,
            r matches Err(e) ==> e == StoreError::DuplicateIssueId,
    {
        let n = self.newsletter_issues.len();
        let mut i: usize = 0;
        while i < n
            invariant
                i <= n,
                n == self@.newsletter_issues.len(),
                old(self).wf(),
                self@ == old(self)@,
                forall|j: int|
                    0 <= j < i ==> (#[trigger] self@.newsletter_issues[j]).newsletter_issue_id
                        != newsletter_issue_id,
            decreases n - i,
        {
            if self.newsletter_issues[i].newsletter_issue_id == newsletter_issue_id {
                proof {
                    assert(self@.newsletter_issues[i as int].newsletter_issue_id
                        == newsletter_issue_id);
                }
                return Err(StoreError::DuplicateIssueId);
            }
            i = i + 1;
        }
        let ghost before = self@;
        self.newsletter_issues.push(
            NewsletterIssue {
                newsletter_issue_id,
                title: title.to_owned(),
                text_content: text_content.to_owned(),
                html_content: html_content.to_owned(),
                published_at,
            },
        );
        proof {
            assert(self@.newsletter_issues =~= before.newsletter_issues.push(
                self.newsletter_issues@.last()@,
            ));
            assert(self@ =~= (StoreModel {
                newsletter_issues: self@.newsletter_issues,
                ..before
            }));
        }
        Ok(())
    }

    /// Enqueues one delivery row per currently confirmed subscriber, read at
    /// the same snapshot, in table order: the fan-out the worker will drain.
    pub fn enqueue_delivery_tasks(&mut self, newsletter_issue_id: u128)
        requires
            old(self).wf(),
        ensures
            final(self).wf(),
            final(self)@ == (StoreModel {
                issue_delivery_queue: old(self)@.issue_delivery_queue + delivery_rows(
                    newsletter_issue_id,
                    confirmed_emails(old(self)@.subscriptions),
                ),
                ..old(self)@
            }),
    {
        let ghost before = self@;
        let n = self.subscriptions.len();
        let mut i: usize = 0;
        while i < n
            invariant
                i <= n,
                n == self.subscriptions@.len(),
                self@.subscriptions == before.subscriptions,
                self@.newsletter_issues == before.newsletter_issues,
                self@.subscription_tokens == before.subscription_tokens,
                self@.issue_delivery_queue == before.issue_delivery_queue + delivery_rows(
                    newsletter_issue_id,
                    confirmed_emails(before.subscriptions.take(i as int)),
                ),
            decreases n - i,
        {
            let ghost taken = before.subscriptions.take(i as int);
            proof {
                assert(before.subscriptions.take(i + 1).drop_last() =~= taken);
                assert(before.subscriptions.take(i + 1).last() == before.subscriptions[i as int]);
            }
            let confirmed = match self.subscriptions[i].status {
                SubscriberStatus::Confirmed => true,
                SubscriberStatus::PendingConfirmation => false,
            };
            if confirmed {
                let email = self.subscriptions[i].email.clone();
                let ghost qbefore = self@.issue_delivery_queue;
                self.issue_delivery_queue.push(
                    DeliveryQueueRow { newsletter_issue_id, subscriber_email: email },
                );
                proof {
                    assert(self@.issue_delivery_queue =~= qbefore.push(
                        (newsletter_issue_id, before.subscriptions[i as int].1),
                    ));
                    assert(self@.issue_delivery_queue =~= before.issue_delivery_queue
                        + delivery_rows(
                        newsletter_issue_id,
                        confirmed_emails(before.subscriptions.take(i + 1)),
                    ));
                }
            } else {
                proof {
                    assert(confirmed_emails(before.subscriptions.take(i + 1)) == confirmed_emails(
                        taken,
                    ));
                }
            }
            i = i + 1;
        }
        proof {
            assert(before.subscriptions.take(n as int) =~= before.subscriptions);
            assert(self@ =~= (StoreModel {
                issue_delivery_queue: before.issue_delivery_queue + delivery_rows(
                    newsletter_issue_id,
                    confirmed_emails(before.subscriptions),
                ),
                ..before
            }));
        }
    }

    /// The emails of the currently confirmed subscribers, in table order.
    pub fn get_confirmed_subscribers(&self) -> (r: Vec<String>)
        ensures
            r@.map_values(|s: String| s@) == confirmed_emails(self@.subscriptions),
    {
        let mut out: Vec<String> = Vec::new();
        let n = self.subscriptions.len();
        let mut i: usize = 0;
        while i < n
            invariant
                i <= n,
                n == self.subscriptions@.len(),
                out@.map_values(|s: String| s@) == confirmed_emails(
                    self@.subscriptions.take(i as int),
                ),
            decreases n - i,
        {
            proof {
                assert(self@.subscriptions.take(i + 1).drop_last() =~= self@.subscriptions.take(
                    i as int,
                ));
                assert(self@.subscriptions.take(i + 1).last() == self@.subscriptions[i as int]);
            }
            let confirmed = match self.subscriptions[i].status {
                SubscriberStatus::Confirmed => true,
                SubscriberStatus::PendingConfirmation => false,
            };
            let ghost obefore = out@.map_values(|s: String| s@);
            if confirmed {
                out.push(self.subscriptions[i].email.clone());
                proof {
                    assert(out@.map_values(|s: String| s@) =~= obefore.push(
                        self@.subscriptions[i as int].1,
                    ));
                }
            }
            i = i + 1;
        }
        proof {
            assert(self@.subscriptions.take(n as int) =~= self@.subscriptions);
        }
        out
    }
}

} // verus!
