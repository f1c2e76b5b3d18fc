use vstd::prelude::*;
use dashmap::DashMap;
use std::collections::VecDeque;
use crate::payment::{derive_status, fresh_payment, unix_time_now, PaymentStatus, XMRPayment};
use crate::payment_id::PaymentId;
use crate::reconcile::{
    aggregate_transfers, known_keys, lemma_known_keys, lemma_positive_keys, lookback_start,
    positive_keys, received_total, reconciled, sum_for_key, sum_matches, PaymentSum, Transfer,
    LOOKBACK_BLOCKS,
};

verus! {

#[verifier::external_type_specification]
#[verifier::external_body]
#[verifier::reject_recursive_types(K)]
#[verifier::reject_recursive_types(V)]
#[verifier::reject_recursive_types(S)]
pub struct ExDashMap<K, V, S>(DashMap<K, V, S>);

/// The map that holds the ledger, keyed by `PaymentId::key`.
pub type LedgerMap = DashMap<u64, XMRPayment>;

/// The entries that a ledger map holds.
pub uninterp spec fn ledger_entries(m: LedgerMap) -> Map<u64, XMRPayment>;

/// Relies on DashMap::new: a new map holds no entry.
#[verifier::external_body]
fn ledger_new() -> (r: LedgerMap)
    ensures
        ledger_entries(r).dom() == Set::<u64>::empty(),
{
    DashMap::new()
}

/// Relies on DashMap::get: the value stored under `key`, if any (cloned out of the
/// read guard, which is released before returning).
#[verifier::external_body]
fn ledger_get(m: &LedgerMap, key: u64) -> (r: Option<XMRPayment>)
    ensures
        r == (if ledger_entries(*m).contains_key(key) {
            Some(ledger_entries(*m)[key])
        } else {
            None
        }),
{
    match m.get(&key) {
        Some(entry) => Some(entry.value().clone()),
        None => None,
    }
}

/// Relies on DashMap::insert: afterwards `key` maps to `value`, and every other
/// entry is as it was.
#[verifier::external_body]
fn ledger_insert(m: &mut LedgerMap, key: u64, value: XMRPayment)
    ensures
        ledger_entries(*final(m)) == ledger_entries(*old(m)).insert(key, value),
{
    m.insert(key, value);
}

/// Why a request about one payment failed.
#[derive(Clone, Copy, Debug, PartialEq, Eq)]
pub enum PaymentError {
    /// No payment with this identifier is in the ledger.
    NotFound,
}

/// What a batch pass asks the wallet for: the transfers to these identifiers at
/// or above `min_height`.
#[derive(Clone, Debug, PartialEq, Eq)]
pub struct BatchQuery {
    pub payment_ids: Vec<PaymentId>,
    pub min_height: u64,
}

/// A drain of the poll queue: it hands out `out` and leaves `after`.
pub open spec fn drains(before: Seq<PaymentId>, after: Seq<PaymentId>, out: Seq<PaymentId>) -> bool {
    out == before && after == Seq::<PaymentId>::empty()
}

/// The payment tracker: the ledger of payments keyed by identifier, the last
/// known chain height, and the queue of identifiers waiting to be polled.
pub struct XMRClient {
    pending_payments: LedgerMap,
    current_block_height: u64,
    poll_queue: VecDeque<PaymentId>,
}

impl XMRClient {
    /// The ledger, keyed by `PaymentId::spec_key`.
    pub closed spec fn ledger(&self) -> Map<u64, XMRPayment> {
        ledger_entries(self.pending_payments)
    }

    /// The identifiers waiting to be polled, oldest first.
    pub closed spec fn queue(&self) -> Seq<PaymentId> {
        self.poll_queue@
    }

    /// The last known chain height.
    pub closed spec fn height(&self) -> u64 {
        self.current_block_height
    }

    /// A tracker with an empty ledger and queue, at the given chain height.
    pub fn new(current_block_height: u64) -> (r: Self)
        ensures
            r.ledger() == Map::<u64, XMRPayment>::empty(),
            r.queue() == Seq::<PaymentId>::empty(),
            r.height() == current_block_height,
    {
        let r = XMRClient {
            pending_payments: ledger_new(),
            current_block_height,
            poll_queue: VecDeque::new(),
        };
        proof {
            assert(r.ledger() =~= Map::<u64, XMRPayment>::empty());
        }
        r
    }

    /// The last known chain height.
    pub fn current_block_height(&self) -> (r: u64)
        ensures
            r == self.height(),
    {
        self.current_block_height
    }

    /// Records a new chain height.
    pub fn set_block_height(&mut self, height: u64)
        ensures
            final(self).height() == height,
            final(self).ledger() == old(self).ledger(),
            final(self).queue() == old(self).queue(),
    {
        self.current_block_height = height;
    }

    /// Applies the transfers that a batch query returned at chain height
    /// `current_height`, which becomes the known height. The transfers are grouped
    /// by identifier; each identifier with a nonzero total that the ledger holds has
    /// its amounts replaced by the totals (confirmed: only transfers more than
    /// `CONFIRMATION_DEPTH` blocks deep) and its status recomputed from them.
    /// Identifiers that the ledger does not hold are ignored. Returns the updated
    /// payments, in the order of each identifier's first transfer.
    pub fn poll_enqueued_payments(&mut self, current_height: u64, transfers: &Vec<Transfer>) -> (r:
        Vec<XMRPayment>)
        ensures
            final(self).height() == current_height,
            final(self).queue() == old(self).queue(),
            final(self).ledger().dom() == old(self).ledger().dom(),
            forall|k: u64|
                #![trigger final(self).ledger()[k]]
                old(self).ledger().contains_key(k) ==> final(self).ledger()[k] == if received_total(
                    transfers@,
                    k,
                ) > 0 {
                    reconciled(old(self).ledger()[k], transfers@, k, current_height)
                } else {
                    old(self).ledger()[k]
                },
            r@ == known_keys(positive_keys(transfers@), old(self).ledger().dom()).map_values(
                |k: u64| reconciled(old(self).ledger()[k], transfers@, k, current_height),
            ),
    {
        self.current_block_height = current_height;
        let sums = aggregate_transfers(transfers, current_height);
        let ghost ts = transfers@;
        let ghost before = self.ledger();
        let ghost keys = positive_keys(ts);
        proof {
            lemma_positive_keys(ts);
        }
        let mut changed: Vec<XMRPayment> = Vec::new();
        let mut j: usize = 0;
        while j < sums.len()
            invariant
                j <= sums.len(),
                sums@.map_values(|s: PaymentSum| s.key) == keys,
                forall|l: int| 0 <= l < sums.len() ==> sum_matches(#[trigger] sums[l], ts, current_height),
                forall|a: int, b: int| 0 <= a < b < keys.len() ==> keys[a] != keys[b],
                self.height() == current_height,
                self.queue() == old(self).queue(),
                self.ledger().dom() == before.dom(),
                forall|k: u64|
                    #![trigger self.ledger()[k]]
                    before.contains_key(k) ==> self.ledger()[k] == if keys.take(j as int).contains(k) {
                        reconciled(before[k], ts, k, current_height)
                    } else {
                        before[k]
                    },
                changed@ == known_keys(keys.take(j as int), before.dom()).map_values(
                    |k: u64| reconciled(before[k], ts, k, current_height),
                ),
            decreases sums.len() - j,
        {
            let s = sums[j];
            let ghost seen = keys.take(j as int);
            proof {
                assert(keys.take(j + 1).drop_last() =~= seen);
                assert(sums@.map_values(|s: PaymentSum| s.key)[j as int] == s.key);
                assert(keys.take(j + 1).last() == s.key);
                assert(!seen.contains(s.key)) by {
                    if seen.contains(s.key) {
                        let l = choose|l: int| 0 <= l < seen.len() && seen[l] == s.key;
                        assert(keys[l] == keys[j as int]);
                    }
                }
                let ghost next = keys.take(j + 1);
                assert forall|k: u64| next.contains(k) <==> (seen.contains(k) || k == s.key) by {
                    if next.contains(k) {
                        let l = choose|l: int| 0 <= l < next.len() && next[l] == k;
                        if l < j {
                            assert(seen[l] == k);
                        }
                    }
                    if seen.contains(k) {
                        let l = choose|l: int| 0 <= l < j && seen[l] == k;
                        assert(next[l] == k);
                    }
                    if k == s.key {
                        assert(next[j as int] == k);
                    }
                }
            }
            match ledger_get(&self.pending_payments, s.key) {
                None => {},
                Some(p) => {
                    let status = derive_status(s.received, s.confirmed, p.amount_requested);
                    let updated = XMRPayment {
                        amount_received: s.received,
                        amount_confirmed: s.confirmed,
                        status,
                        ..p
                    };
                    proof {
                        assert(updated == reconciled(before[s.key], ts, s.key, current_height));
                    }
                    ledger_insert(&mut self.pending_payments, s.key, updated);
                    proof {
                        assert(self.ledger().dom() =~= before.dom());
                    }
                    match ledger_get(&self.pending_payments, s.key) {
                        Some(copy) => changed.push(copy),
                        None => {},
                    }
                },
            }
            proof {
                assert(changed@ =~= known_keys(keys.take(j + 1), before.dom()).map_values(
                    |k: u64| reconciled(before[k], ts, k, current_height),
                ));
            }
            j += 1;
        }
        proof {
            assert(keys.take(sums.len() as int) =~= keys);
            assert forall|k: u64| keys.contains(k) <==> received_total(ts, k) > 0 by {}
        }
        changed
    }

    /// Applies the transfers that the wallet reported for one payment, counted at
    /// the known chain height: its amounts are replaced by the totals of the
    /// transfers to its identifier and its status recomputed. Fails with `NotFound`,
    /// changing nothing, when the ledger does not hold the identifier.
    pub fn poll_payment_immediate(&mut self, payment_id: PaymentId, transfers: &Vec<Transfer>) -> (r:
        Result<XMRPayment, PaymentError>)
        ensures
            final(self).height() == old(self).height(),
            final(self).queue() == old(self).queue(),
            !old(self).ledger().contains_key(payment_id.spec_key()) ==> {
                &&& r == Err::<XMRPayment, PaymentError>(PaymentError::NotFound)
                &&& final(self).ledger() == old(self).ledger()
            },
            old(self).ledger().contains_key(payment_id.spec_key()) ==> {
                let k = payment_id.spec_key();
                let p = reconciled(old(self).ledger()[k], transfers@, k, old(self).height());
                &&& r == Ok::<XMRPayment, PaymentError>(p)
                &&& final(self).ledger() == old(self).ledger().insert(k, p)
            },
    {
        let key = payment_id.key();
        match ledger_get(&self.pending_payments, key) {
            None => Err(PaymentError::NotFound),
            Some(p) => {
                let s = sum_for_key(transfers, key, self.current_block_height);
                let status = derive_status(s.received, s.confirmed, p.amount_requested);
                let updated = XMRPayment {
                    amount_received: s.received,
                    amount_confirmed: s.confirmed,
                    status,
                    ..p
                };
                ledger_insert(&mut self.pending_payments, key, updated);
                match ledger_get(&self.pending_payments, key) {
                    Some(copy) => Ok(copy),
                    None => Err(PaymentError::NotFound),
                }
            },
        }
    }

    /// The height from which to ask the wallet for the transfers of one payment: the
    /// height at which it was created. `None` when the ledger does not hold it, in
    /// which case nothing needs to be asked.
    pub fn immediate_query_height(&self, payment_id: PaymentId) -> (r: Option<u64>)
        ensures
            r == (if self.ledger().contains_key(payment_id.spec_key()) {
                Some(self.ledger()[payment_id.spec_key()].created_block_height)
            } else {
                None
            }),
    {
        match ledger_get(&self.pending_payments, payment_id.key()) {
            Some(p) => Some(p.created_block_height),
            None => None,
        }
    }

    /// Allocates `payment_id` at time `now` and chain height `height`, unless the
    /// ledger holds a payment under it that has not expired at that time and height.
    /// On success the ledger holds a new pending payment under it, replacing the
    /// expired one if there was one.
    pub fn allocate_payment_at(
        &mut self,
        payment_id: PaymentId,
        amount_requested: u64,
        info: Option<Vec<u8>>,
        now: i64,
        height: u64,
    ) -> (r: bool)
        ensures
            r == (!old(self).ledger().contains_key(payment_id.spec_key()) || old(self).ledger()[payment_id.spec_key()].spec_is_expired(now, height)),
            r ==> final(self).ledger() == old(self).ledger().insert(
                payment_id.spec_key(),
                fresh_payment(amount_requested, info, now, height),
            ),
            !r ==> final(self).ledger() == old(self).ledger(),
            final(self).queue() == old(self).queue(),
            final(self).height() == old(self).height(),
    {
        let key = payment_id.key();
        let free = match ledger_get(&self.pending_payments, key) {
            None => true,
            Some(p) => p.is_expired(now, height),
        };
        if free {
            let record = XMRPayment {
                created_timestamp: now,
                created_block_height: height,
                status: PaymentStatus::Pending,
                amount_received: 0,
                amount_confirmed: 0,
                amount_requested,
                info,
            };
            ledger_insert(&mut self.pending_payments, key, record);
        }
        free
    }

    /// Allocates `payment_id`, freshly handed out by the wallet, at the current time
    /// and chain height `height`, as `allocate_payment_at` does. On `false` the
    /// identifier is held by a payment that has not expired: the caller asks the
    /// wallet for another one.
    pub fn allocate_payment(
        &mut self,
        payment_id: PaymentId,
        amount_requested: u64,
        info: Option<Vec<u8>>,
        height: u64,
    ) -> (r: bool)
        ensures
            r ==> {
                let k = payment_id.spec_key();
                let p = final(self).ledger()[k];
                &&& !old(self).ledger().contains_key(k) || old(self).ledger()[k].spec_is_expired(p.created_timestamp, height)
                &&& final(self).ledger() == old(self).ledger().insert(
                    k,
                    fresh_payment(amount_requested, info, p.created_timestamp, height),
                )
            },
            !r ==> old(self).ledger().contains_key(payment_id.spec_key()),
            !r ==> final(self).ledger() == old(self).ledger(),
            final(self).queue() == old(self).queue(),
            final(self).height() == old(self).height(),
    {
        let now = unix_time_now();
        self.allocate_payment_at(payment_id, amount_requested, info, now, height)
    }

    /// The stored payment under `payment_id`, if any. Asks nothing of the wallet.
    pub fn query_payment(&self, payment_id: PaymentId) -> (r: Option<XMRPayment>)
        ensures
            r == (if self.ledger().contains_key(payment_id.spec_key()) {
                Some(self.ledger()[payment_id.spec_key()])
            } else {
                None
            }),
    {
        ledger_get(&self.pending_payments, payment_id.key())
    }

    /// Attaches caller data to a payment. `None`, changing nothing, when the ledger
    /// does not hold `payment_id`.
    pub fn set_payment_info(&mut self, payment_id: PaymentId, payment_info: Vec<u8>) -> (r: Option<()>)
        ensures
            r.is_some() == old(self).ledger().contains_key(payment_id.spec_key()),
            r.is_some() ==> final(self).ledger() == old(self).ledger().insert(
                payment_id.spec_key(),
                XMRPayment { info: Some(payment_info), ..old(self).ledger()[payment_id.spec_key()] },
            ),
            r.is_none() ==> final(self).ledger() == old(self).ledger(),
            final(self).queue() == old(self).queue(),
            final(self).height() == old(self).height(),
    {
        let key = payment_id.key();
        match ledger_get(&self.pending_payments, key) {
            None => None,
            Some(p) => {
                ledger_insert(&mut self.pending_payments, key, XMRPayment { info: Some(payment_info), ..p });
                Some(())
            },
        }
    }

    /// Puts `payment_id` at the back of the poll queue; duplicates are kept.
    pub fn poll_payment(&mut self, payment_id: PaymentId)
        ensures
            final(self).queue() == old(self).queue().push(payment_id),
            final(self).ledger() == old(self).ledger(),
            final(self).height() == old(self).height(),
    {
        self.poll_queue.push_back(payment_id);
    }

    /// Empties the poll queue and returns what it held, oldest first.
    pub fn drain_poll_queue(&mut self) -> (r: Vec<PaymentId>)
        ensures
            drains(old(self).queue(), final(self).queue(), r@),
            final(self).ledger() == old(self).ledger(),
            final(self).height() == old(self).height(),
    {
        let mut out: Vec<PaymentId> = Vec::new();
        while self.poll_queue.len() > 0
            invariant
                out@ + self.queue() == old(self).queue(),
                self.ledger() == old(self).ledger(),
                self.height() == old(self).height(),
            decreases self.queue().len(),
        {
            match self.poll_queue.pop_front() {
                Some(id) => {
                    out.push(id);
                    proof {
                        assert(out@ + self.queue() =~= old(self).queue());
                    }
                },
                None => {},
            }
        }
        proof {
            assert(out@ =~= old(self).queue());
            assert(self.queue() =~= Seq::<PaymentId>::empty());
        }
        out
    }

    /// Starts a batch pass at chain height `current_height`, which becomes the
    /// known height: drains the poll queue and, unless it was empty, says what to
    /// ask the wallet for, namely the transfers to the drained identifiers
    /// (duplicates included) from `LOOKBACK_BLOCKS` below the current height.
    pub fn start_poll(&mut self, current_height: u64) -> (r: Option<BatchQuery>)
        ensures
            final(self).height() == current_height,
            final(self).ledger() == old(self).ledger(),
            final(self).queue() == Seq::<PaymentId>::empty(),
            r.is_none() == (old(self).queue().len() == 0),
            r matches Some(q) ==> {
                &&& q.payment_ids@ == old(self).queue()
                &&& q.min_height == if current_height >= LOOKBACK_BLOCKS {
                    current_height - LOOKBACK_BLOCKS
                } else {
                    0
                }
            },
    {
        self.current_block_height = current_height;
        let ids = self.drain_poll_queue();
        if ids.len() == 0 {
            None
        } else {
            Some(BatchQuery { payment_ids: ids, min_height: lookback_start(current_height) })
        }
    }
}

/// A new tracker finds no identifier: a query on any identifier that was never
/// allocated returns nothing.
pub proof fn lemma_new_ledger_finds_nothing(client: XMRClient, id: PaymentId)
    requires
        client.ledger() == Map::<u64, XMRPayment>::empty(),
    ensures
        !client.ledger().contains_key(id.spec_key()),
{
}

/// Right after an allocation, a query on the identifier finds a pending payment
/// for the requested amount with nothing received or confirmed.
pub proof fn lemma_allocated_payment_is_pending(
    before: Map<u64, XMRPayment>,
    after: Map<u64, XMRPayment>,
    id: PaymentId,
    amount_requested: u64,
    info: Option<Vec<u8>>,
    now: i64,
    height: u64,
)
    requires
        after == before.insert(id.spec_key(), fresh_payment(amount_requested, info, now, height)),
    ensures
        after.contains_key(id.spec_key()),
        after[id.spec_key()].status == PaymentStatus::Pending,
        after[id.spec_key()].amount_received == 0,
        after[id.spec_key()].amount_confirmed == 0,
        after[id.spec_key()].amount_requested == amount_requested,
{
}

/// A batch pass reports payments only for identifiers that the ledger holds:
/// an identifier that it does not hold is never reported, whatever transfers the
/// wallet returned for it.
pub proof fn lemma_unknown_identifier_not_reported(
    transfers: Seq<Transfer>,
    ledger: Map<u64, XMRPayment>,
    key: u64,
)
    ensures
        !ledger.contains_key(key) ==> !known_keys(positive_keys(transfers), ledger.dom()).contains(key),
        forall|k: u64| #[trigger] known_keys(positive_keys(transfers), ledger.dom()).contains(k) ==> ledger.contains_key(k),
{
    lemma_known_keys(positive_keys(transfers), ledger.dom());
}

/// Draining the poll queue twice in a row: the second drain hands out nothing.
pub proof fn lemma_second_drain_is_empty(
    q0: Seq<PaymentId>,
    q1: Seq<PaymentId>,
    out1: Seq<PaymentId>,
    q2: Seq<PaymentId>,
    out2: Seq<PaymentId>,
)
    requires
        drains(q0, q1, out1),
        drains(q1, q2, out2),
    ensures
        out2.len() == 0,
{
}

/// Draining, enqueueing any identifiers, and draining again: the second drain
/// hands out exactly those identifiers, in the order they were enqueued,
/// duplicates kept.
pub proof fn lemma_drain_after_enqueues(
    q0: Seq<PaymentId>,
    q1: Seq<PaymentId>,
    out1: Seq<PaymentId>,
    enqueued: Seq<PaymentId>,
    q2: Seq<PaymentId>,
    out2: Seq<PaymentId>,
)
    requires
        drains(q0, q1, out1),
        drains(q1 + enqueued, q2, out2),
    ensures
        out2 == enqueued,
        q2.len() == 0,
{
    assert(out2 =~= enqueued);
}

} // verus!
