use vstd::prelude::*;
use vstd::pervasive::VecAdditionalExecFns;
use crate::idempotency::IdempotencyKey;
use crate::response::HttpResponse;
use crate::response::ResponseModel;
use crate::response::clone_response;
use crate::response::str_equal;
use crate::response::valid_status_code;
use crate::snapshot::Snapshot;
use crate::snapshot::decode_snapshot;
use crate::snapshot::encode_response;

verus! {

// The ledger is one table keyed by (user_id, idempotency_key); the uniqueness
// of that key is the sole concurrency-control primitive. A row is inserted
// the moment a claim succeeds and is completed, at most once, by writing the
// response columns; it is never updated again and never deleted by this core.
//
// In the running system the insert and the completion happen inside one open
// database transaction: a rival request for the same pair blocks on the row
// lock until that transaction commits or rolls back, so every operation below
// runs, in effect, serially per pair. The model makes that serialization
// explicit: a pending row stands for a claim whose transaction is open, and
// `try_processing` asks (via its precondition) that no rival transaction
// holds the pair, which is exactly what the row lock provides.

/// The mathematical content of one ledger row: when the claim was taken and,
/// once processing finished, the stored response.
#[verifier::ext_equal]
pub struct EntryModel {
    pub created_at: int,
    pub response: Option<ResponseModel>,
}

/// One row of the ledger table.
pub struct LedgerRow {
    pub user_id: u128,
    pub idempotency_key: IdempotencyKey,
    pub created_at: i64,
    pub response: Option<Snapshot>,
}

impl LedgerRow {
    /// The primary key of the row.
    pub open spec fn pair(&self) -> (u128, Seq<char>) {
        (self.user_id, self.idempotency_key@)
    }

    pub open spec fn model(&self) -> EntryModel {
        EntryModel {
            created_at: self.created_at as int,
            response: match self.response {
                Some(s) => Some(s@),
                None => None,
            },
        }
    }

    /// The key is a validated token and a stored snapshot is decodable.
    pub open spec fn wf(&self) -> bool {
        &&& self.idempotency_key.wf()
        &&& (self.response matches Some(s) ==> valid_status_code(s@.status))
    }
}

/// No two rows share a primary key.
pub open spec fn distinct_pairs(rows: Seq<LedgerRow>) -> bool {
    forall|i: int, j: int|
        #![trigger rows[i].pair(), rows[j].pair()]
        0 <= i < j < rows.len() ==> rows[i].pair() != rows[j].pair()
}

/// The table as a map from primary key to entry.
pub open spec fn rows_model(rows: Seq<LedgerRow>) -> Map<(u128, Seq<char>), EntryModel>
    decreases rows.len(),
{
    if rows.len() == 0 {
        Map::empty()
    } else {
        rows_model(rows.drop_last()).insert(rows.last().pair(), rows.last().model())
    }
}

/// What the claim protocol decides for one request: the caller either holds a
/// fresh claim and must run the workflow, or the work already happened and
/// the recorded response is to be replayed verbatim.
pub enum NextAction {
    StartProcessing,
    ReturnSavedResponse(HttpResponse),
}

/// The idempotency ledger. All writes to the table go through these methods.
pub struct Ledger {
    rows: Vec<LedgerRow>,
}

impl View for Ledger {
    type V = Map<(u128, Seq<char>), EntryModel>;

    closed spec fn view(&self) -> Map<(u128, Seq<char>), EntryModel> {
        rows_model(self.rows@)
    }
}

impl Ledger {
    pub closed spec fn wf(&self) -> bool {
        &&& distinct_pairs(self.rows@)
        &&& forall|i: int| 0 <= i < self.rows@.len() ==> (#[trigger] self.rows@[i]).wf()
    }

    /// The pair is claimed and its claim transaction is still open.
    pub open spec fn is_pending(&self, user_id: u128, key: Seq<char>) -> bool {
        self@.contains_key((user_id, key)) && self@[(user_id, key)].response is None
    }

    /// The pair's work finished and its response is on record.
    pub open spec fn is_complete(&self, user_id: u128, key: Seq<char>) -> bool {
        self@.contains_key((user_id, key)) && self@[(user_id, key)].response is Some
    }

    /// The response recorded for a completed pair.
    pub open spec fn saved_model(&self, user_id: u128, key: Seq<char>) -> ResponseModel
        recommends
            self.is_complete(user_id, key),
    {
        match self@[(user_id, key)].response {
            Some(m) => m,
            None => ResponseModel { status: 0, headers: Seq::empty(), body: Seq::empty() },
        }
    }

    /// An empty ledger.
    pub fn new() -> (r: Ledger)
        ensures
            r.wf(),
            r@ == Map::<(u128, Seq<char>), EntryModel>::empty(),
    {
        let r = Ledger { rows: Vec::new() };
        proof {
            assert(r@ =~= Map::<(u128, Seq<char>), EntryModel>::empty());
        }
        r
    }

    /// The index of the row for this pair, if the table holds one.
    fn find_row(&self, user_id: u128, idempotency_key: &IdempotencyKey) -> (r: Option<usize>)
        ensures
            r matches Some(i) ==> i < self.rows@.len() && self.rows@[i as int].pair() == (
                user_id,
                idempotency_key@,
            ),
            r is None ==> forall|i: int|
                0 <= i < self.rows@.len() ==> (#[trigger] self.rows@[i]).pair() != (
                    user_id,
                    idempotency_key@,
                ),
    {
        let n = self.rows.len();
        let mut i: usize = 0;
        while i < n
            invariant
                i <= n,
                n == self.rows@.len(),
                forall|j: int|
                    0 <= j < i ==> (#[trigger] self.rows@[j]).pair() != (
                        user_id,
                        idempotency_key@,
                    ),
            decreases n - i,
        {
            let row = &self.rows[i];
            if row.user_id == user_id && str_equal(
                row.idempotency_key.as_str(),
                idempotency_key.as_str(),
            ) {
                return Some(i);
            }
            i = i + 1;
        }
        None
    }

    /// Attempts to claim `(user_id, idempotency_key)`: the insert-if-absent at
    /// the heart of the protocol. When no row exists the claim is taken (the
    /// row is inserted with empty response columns) and the caller must run
    /// the workflow; when a completed row exists its response is decoded and
    /// handed back for replay. The precondition that the pair is not pending
    /// is the row lock: a rival open transaction would block this call.
    pub fn try_processing(
        &mut self,
        idempotency_key: &IdempotencyKey,
        user_id: u128,
        created_at: i64,
    ) -> (r: NextAction)
        requires
            old(self).wf(),
            idempotency_key.wf(),
            !old(self).is_pending(user_id, idempotency_key@),
        ensures
            final(self).wf(),
            old(self)@.contains_key((user_id, idempotency_key@)) ==> final(self)@ == old(self)@,
            old(self)@.contains_key((user_id, idempotency_key@)) ==> (r matches
                NextAction::ReturnSavedResponse(resp) && resp@ == old(self).saved_model(
                user_id,
                idempotency_key@,
            ) && resp.wf()),
            !old(self)@.contains_key((user_id, idempotency_key@)) ==> r is StartProcessing,
            !old(self)@.contains_key((user_id, idempotency_key@)) ==> final(self)@ == old(
                self,
            )@.insert(
                (user_id, idempotency_key@),
                (EntryModel { created_at: created_at as int, response: None }),
            ),
            !old(self)@.contains_key((user_id, idempotency_key@)) ==> final(self).is_pending(
                user_id,
                idempotency_key@,
            ),
    {
        proof {
            lemma_rows_model(self.rows@);
        }
        match self.find_row(user_id, idempotency_key) {
            Some(i) => {
                let row = &self.rows[i];
                proof {
                    assert(self@[(user_id, idempotency_key@)] == row.model());
                    assert(row.model().response is Some);
                }
                match &row.response {
                    Some(snap) => match decode_snapshot(snap) {
                        Ok(resp) => NextAction::ReturnSavedResponse(resp),
                        Err(_) => {
                            proof {
                                assert(false);
                            }
                            NextAction::StartProcessing
                        },
                    },
                    None => {
                        proof {
                            assert(false);
                        }
                        NextAction::StartProcessing
                    },
                }
            },
            None => {
                let row = LedgerRow {
                    user_id,
                    idempotency_key: idempotency_key.clone(),
                    created_at,
                    response: None,
                };
                let ghost rows0 = self.rows@;
                let ghost newrow = row;
                self.rows.push(row);
                proof {
                    lemma_rows_model_push(rows0, newrow);
                    assert forall|a: int, b: int|
                        0 <= a < b < self.rows@.len() implies (#[trigger] self.rows@[a]).pair() != (
                        #[trigger] self.rows@[b]).pair() by {
                        if b < rows0.len() {
                            assert(rows0[a].pair() != rows0[b].pair());
                        } else {
                            assert(rows0[a].pair() != (user_id, idempotency_key@));
                        }
                    }
                }
                NextAction::StartProcessing
            },
        }
    }

    /// Reads back the response recorded for a pair, if processing completed.
    pub fn get_saved_response(&self, idempotency_key: &IdempotencyKey, user_id: u128) -> (r: Option<
        HttpResponse,
    >)
        requires
            self.wf(),
        ensures
            r is Some <==> self.is_complete(user_id, idempotency_key@),
            r matches Some(resp) ==> resp@ == self.saved_model(user_id, idempotency_key@)
                && resp.wf(),
    {
        proof {
            lemma_rows_model(self.rows@);
        }
        match self.find_row(user_id, idempotency_key) {
            Some(i) => {
                let row = &self.rows[i];
                proof {
                    assert(self@[(user_id, idempotency_key@)] == row.model());
                }
                match &row.response {
                    Some(snap) => match decode_snapshot(snap) {
                        Ok(resp) => Some(resp),
                        Err(_) => {
                            proof {
                                assert(false);
                            }
                            None
                        },
                    },
                    None => None,
                }
            },
            None => None,
        }
    }

    /// Completes the claim: writes the response columns of the pair's row,
    /// the step that in the running system happens in the claim's own
    /// transaction just before commit. Returns the response unchanged so the
    /// caller can still send it.
    pub fn save_response(
        &mut self,
        idempotency_key: &IdempotencyKey,
        user_id: u128,
        http_response: HttpResponse,
    ) -> (r: HttpResponse)
        requires
            old(self).wf(),
            idempotency_key.wf(),
            http_response.wf(),
            old(self).is_pending(user_id, idempotency_key@),
        ensures
            final(self).wf(),
            final(self)@ == old(self)@.insert(
                (user_id, idempotency_key@),
                (EntryModel {
                    created_at: old(self)@[(user_id, idempotency_key@)].created_at,
                    response: Some(http_response@),
                }),
            ),
            final(self).is_complete(user_id, idempotency_key@),
            final(self).saved_model(user_id, idempotency_key@) == http_response@,
            r@ == http_response@,
            r.wf(),
    {
        proof {
            lemma_rows_model(self.rows@);
        }
        match self.find_row(user_id, idempotency_key) {
            Some(i) => {
                let created_at = self.rows[i].created_at;
                let snap = encode_response(clone_response(&http_response));
                let row = LedgerRow {
                    user_id,
                    idempotency_key: idempotency_key.clone(),
                    created_at,
                    response: Some(snap),
                };
                let ghost rows0 = self.rows@;
                let ghost newrow = row;
                proof {
                    assert(rows0[i as int].pair() == newrow.pair());
                }
                self.rows.set(i, row);
                proof {
                    lemma_rows_model_update(rows0, i as int, newrow);
                    assert forall|a: int, b: int|
                        0 <= a < b < self.rows@.len() implies (#[trigger] self.rows@[a]).pair() != (
                        #[trigger] self.rows@[b]).pair() by {
                        assert(rows0[a].pair() != rows0[b].pair());
                    }
                    assert(old(self)@[(user_id, idempotency_key@)].created_at == created_at as int);
                }
                http_response
            },
            None => {
                proof {
                    assert(false);
                }
                http_response
            },
        }
    }

    /// Abandons a claim: the whole transaction rolls back, which removes the
    /// claim row itself, so the pair becomes claimable again. This is what
    /// happens when the workflow fails after claiming; there is no
    /// partial-credit state.
    pub fn rollback(&mut self, idempotency_key: &IdempotencyKey, user_id: u128)
        requires
            old(self).wf(),
            old(self).is_pending(user_id, idempotency_key@),
        ensures
            final(self).wf(),
            final(self)@ == old(self)@.remove((user_id, idempotency_key@)),
            !final(self)@.contains_key((user_id, idempotency_key@)),
    {
        proof {
            lemma_rows_model(self.rows@);
        }
        match self.find_row(user_id, idempotency_key) {
            Some(i) => {
                let ghost rows0 = self.rows@;
                self.rows.remove(i);
                proof {
                    lemma_rows_model_remove(rows0, i as int);
                    assert forall|a: int, b: int|
                        0 <= a < b < self.rows@.len() implies (#[trigger] self.rows@[a]).pair() != (
                        #[trigger] self.rows@[b]).pair() by {
                        let a0 = if a < i as int {
                            a
                        } else {
                            a + 1
                        };
                        let b0 = if b < i as int {
                            b
                        } else {
                            b + 1
                        };
                        assert(rows0[a0].pair() != rows0[b0].pair());
                    }
                }
            },
            None => {
                proof {
                    assert(false);
                }
            },
        }
    }
}

/// In a table with distinct keys, the map agrees with the rows: a key is
/// present exactly when some row carries it, and maps to that row's entry.
proof fn lemma_rows_model(rows: Seq<LedgerRow>)
    requires
        distinct_pairs(rows),
    ensures
        forall|p: (u128, Seq<char>)| #[trigger]
            rows_model(rows).contains_key(p) ==> exists|i: int|
                0 <= i < rows.len() && (#[trigger] rows[i]).pair() == p,
        forall|i: int|
            0 <= i < rows.len() ==> rows_model(rows).contains_key((#[trigger] rows[i]).pair()),
        forall|i: int|
            0 <= i < rows.len() ==> rows_model(rows)[(#[trigger] rows[i]).pair()]
                == rows[i].model(),
    decreases rows.len(),
{
    if rows.len() > 0 {
        let prefix = rows.drop_last();
        lemma_rows_model(prefix);
        assert forall|i: int|
            0 <= i < rows.len() implies rows_model(rows).contains_key(
            (#[trigger] rows[i]).pair(),
        ) && rows_model(rows)[rows[i].pair()] == rows[i].model() by {
            if i < rows.len() - 1 {
                assert(prefix[i] == rows[i]);
                assert(rows[i].pair() != rows.last().pair());
            }
        }
        assert forall|p: (u128, Seq<char>)| #[trigger]
            rows_model(rows).contains_key(p) implies exists|i: int|
            0 <= i < rows.len() && (#[trigger] rows[i]).pair() == p by {
            if p == rows.last().pair() {
                assert(rows[rows.len() - 1].pair() == p);
            } else {
                assert(rows_model(prefix).contains_key(p));
                let i = choose|i: int| 0 <= i < prefix.len() && (#[trigger] prefix[i]).pair() == p;
                assert(rows[i].pair() == p);
            }
        }
    }
}

/// Appending a row updates the map at the row's key.
proof fn lemma_rows_model_push(rows: Seq<LedgerRow>, row: LedgerRow)
    ensures
        rows_model(rows.push(row)) == rows_model(rows).insert(row.pair(), row.model()),
{
    assert(rows.push(row).drop_last() =~= rows);
    assert(rows.push(row).last() == row);
}

/// Replacing the row at `i` by one with the same key updates the map at that
/// key.
proof fn lemma_rows_model_update(rows: Seq<LedgerRow>, i: int, row: LedgerRow)
    requires
        distinct_pairs(rows),
        0 <= i < rows.len(),
        row.pair() == rows[i].pair(),
    ensures
        rows_model(rows.update(i, row)) == rows_model(rows).insert(row.pair(), row.model()),
    decreases rows.len(),
{
    let last = rows.len() - 1;
    if i == last {
        assert(rows.update(i, row).drop_last() =~= rows.drop_last());
        assert(rows.update(i, row).last() == row);
        assert(rows_model(rows.drop_last()).insert(row.pair(), row.model()) =~= rows_model(
            rows,
        ).insert(row.pair(), row.model()));
    } else {
        let prefix = rows.drop_last();
        assert(rows.update(i, row).drop_last() =~= prefix.update(i, row));
        assert(rows.update(i, row).last() == rows.last());
        lemma_rows_model_update(prefix, i, row);
        assert(rows[i].pair() != rows.last().pair());
        assert(rows_model(prefix).insert(row.pair(), row.model()).insert(
            rows.last().pair(),
            rows.last().model(),
        ) =~= rows_model(prefix).insert(rows.last().pair(), rows.last().model()).insert(
            row.pair(),
            row.model(),
        ));
    }
}

/// Deleting the row at `i` removes the map entry at its key.
proof fn lemma_rows_model_remove(rows: Seq<LedgerRow>, i: int)
    requires
        distinct_pairs(rows),
        0 <= i < rows.len(),
    ensures
        rows_model(rows.remove(i)) == rows_model(rows).remove(rows[i].pair()),
    decreases rows.len(),
{
    let last = rows.len() - 1;
    if i == last {
        assert(rows.remove(i) =~= rows.drop_last());
        lemma_rows_model(rows.drop_last());
        assert(!rows_model(rows.drop_last()).contains_key(rows[i].pair())) by {
            if rows_model(rows.drop_last()).contains_key(rows[i].pair()) {
                let j = choose|j: int|
                    0 <= j < rows.drop_last().len() && (#[trigger] rows.drop_last()[j]).pair()
                        == rows[i].pair();
                assert(rows[j].pair() == rows[i].pair());
                assert(false);
            }
        }
        assert(rows_model(rows.drop_last()).remove(rows[i].pair()) =~= rows_model(
            rows.drop_last(),
        ));
        assert(rows_model(rows).remove(rows[i].pair()) =~= rows_model(rows.drop_last()));
    } else {
        let prefix = rows.drop_last();
        assert(rows.remove(i).drop_last() =~= prefix.remove(i));
        assert(rows.remove(i).last() == rows.last());
        lemma_rows_model_remove(prefix, i);
        assert(rows[i].pair() != rows.last().pair());
        assert(rows_model(prefix).remove(rows[i].pair()).insert(
            rows.last().pair(),
            rows.last().model(),
        ) =~= rows_model(prefix).insert(rows.last().pair(), rows.last().model()).remove(
            rows[i].pair(),
        ));
    }
}

/// The failure law of the claim protocol: when the workflow fails after
/// claiming a fresh pair, the rollback leaves the ledger exactly as it was —
/// the row is gone and the pair is claimable again, so a retry runs as a
/// fresh attempt.
pub proof fn lemma_rollback_releases_claim(
    m: Map<(u128, Seq<char>), EntryModel>,
    user_id: u128,
    key: Seq<char>,
    e: EntryModel,
)
    requires
        !m.contains_key((user_id, key)),
    ensures
        m.insert((user_id, key), e).remove((user_id, key)) == m,
        !m.insert((user_id, key), e).remove((user_id, key)).contains_key((user_id, key)),
{
    assert(m.insert((user_id, key), e).remove((user_id, key)) =~= m);
}

} // verus!
