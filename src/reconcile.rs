use vstd::prelude::*;
use crate::payment::{status_for, PaymentStatus, XMRPayment};
use crate::payment_id::PaymentId;

verus! {

/// A transfer counts as confirmed once it is more than this many blocks deep.
pub const CONFIRMATION_DEPTH: u64 = 5;

/// How many blocks back a batch pass asks the wallet to look.
pub const LOOKBACK_BLOCKS: u64 = 1000;

/// An incoming transfer as the wallet reports it.
#[derive(Clone, Copy, Debug, PartialEq, Eq)]
pub struct Transfer {
    pub payment_id: PaymentId,
    /// Amount in piconero.
    pub amount: u64,
    /// Height of the block that holds the transfer.
    pub block_height: u64,
}

/// The totals of all transfers to one payment identifier.
#[derive(Clone, Copy, Debug, PartialEq, Eq)]
pub struct PaymentSum {
    /// Ledger key of the identifier (see `PaymentId::key`).
    pub key: u64,
    pub received: u64,
    pub confirmed: u64,
}

/// Whether a transfer is deep enough in the chain at `height` to count as confirmed.
pub open spec fn is_confirmed_at(t: Transfer, height: u64) -> bool {
    height - t.block_height > CONFIRMATION_DEPTH
}

/// Sum of the amounts of the transfers to `key`.
pub open spec fn received_total(ts: Seq<Transfer>, key: u64) -> int
    decreases ts.len(),
{
    if ts.len() == 0 {
        0
    } else {
        received_total(ts.drop_last(), key) + if ts.last().payment_id.spec_key() == key {
            ts.last().amount as int
        } else {
            0
        }
    }
}

/// Sum of the amounts of the transfers to `key` that are confirmed at `height`.
pub open spec fn confirmed_total(ts: Seq<Transfer>, key: u64, height: u64) -> int
    decreases ts.len(),
{
    if ts.len() == 0 {
        0
    } else {
        confirmed_total(ts.drop_last(), key, height) + if ts.last().payment_id.spec_key() == key
            && is_confirmed_at(ts.last(), height) {
            ts.last().amount as int
        } else {
            0
        }
    }
}

/// An amount held in a `u64`: sums beyond its range stay at the largest value.
pub open spec fn capped(x: int) -> u64 {
    if x > u64::MAX {
        u64::MAX
    } else {
        x as u64
    }
}

/// The keys that received a nonzero amount, in the order of their first such transfer.
pub open spec fn positive_keys(ts: Seq<Transfer>) -> Seq<u64>
    decreases ts.len(),
{
    if ts.len() == 0 {
        Seq::empty()
    } else {
        let prev = positive_keys(ts.drop_last());
        let key = ts.last().payment_id.spec_key();
        if ts.last().amount > 0 && !prev.contains(key) {
            prev.push(key)
        } else {
            prev
        }
    }
}

/// The keys of `keys` that are in `known`, in order.
pub open spec fn known_keys(keys: Seq<u64>, known: Set<u64>) -> Seq<u64>
    decreases keys.len(),
{
    if keys.len() == 0 {
        Seq::empty()
    } else {
        let prev = known_keys(keys.drop_last(), known);
        if known.contains(keys.last()) {
            prev.push(keys.last())
        } else {
            prev
        }
    }
}

/// Whether a sum holds the totals of `ts` for its key at `height`.
pub open spec fn sum_matches(s: PaymentSum, ts: Seq<Transfer>, height: u64) -> bool {
    &&& s.received == capped(received_total(ts, s.key))
    &&& s.confirmed == capped(confirmed_total(ts, s.key, height))
}

/// A payment with its amounts replaced by the totals of `ts` and its status
/// recomputed from them.
pub open spec fn reconciled(p: XMRPayment, ts: Seq<Transfer>, key: u64, height: u64) -> XMRPayment {
    let received = capped(received_total(ts, key));
    let confirmed = capped(confirmed_total(ts, key, height));
    XMRPayment {
        amount_received: received,
        amount_confirmed: confirmed,
        status: status_for(received, confirmed, p.amount_requested),
        ..p
    }
}

/// Totals are never negative, and the confirmed total never exceeds the received one.
pub proof fn lemma_totals_bounds(ts: Seq<Transfer>, key: u64, height: u64)
    ensures
        0 <= confirmed_total(ts, key, height) <= received_total(ts, key),
    decreases ts.len(),
{
    if ts.len() > 0 {
        lemma_totals_bounds(ts.drop_last(), key, height);
    }
}

/// The keys of `positive_keys` are distinct, and a key is among them exactly when
/// its received total is nonzero.
pub proof fn lemma_positive_keys(ts: Seq<Transfer>)
    ensures
        forall|a: int, b: int|
            0 <= a < b < positive_keys(ts).len() ==> positive_keys(ts)[a] != positive_keys(ts)[b],
        forall|k: u64| #[trigger] positive_keys(ts).contains(k) <==> received_total(ts, k) > 0,
    decreases ts.len(),
{
    if ts.len() > 0 {
        let rest = ts.drop_last();
        lemma_positive_keys(rest);
        let prev = positive_keys(rest);
        let cur = positive_keys(ts);
        let key = ts.last().payment_id.spec_key();
        if ts.last().amount > 0 && !prev.contains(key) {
            assert(cur == prev.push(key));
            assert(cur[prev.len() as int] == key);
        } else {
            assert(cur == prev);
        }
        assert forall|k: u64| #[trigger] cur.contains(k) <==> received_total(ts, k) > 0 by {
            lemma_totals_bounds(rest, k, 0);
            assert(received_total(ts, k) == received_total(rest, k) + if key == k {
                ts.last().amount as int
            } else {
                0
            });
            if ts.last().amount > 0 && !prev.contains(key) {
                if cur.contains(k) && k != key {
                    let i = choose|i: int| 0 <= i < cur.len() && cur[i] == k;
                    assert(prev[i] == k);
                }
                if prev.contains(k) {
                    let i = choose|i: int| 0 <= i < prev.len() && prev[i] == k;
                    assert(cur[i] == k);
                }
            }
        }
    }
}

/// A key is among `known_keys` exactly when it is among the keys and known.
pub proof fn lemma_known_keys(keys: Seq<u64>, known: Set<u64>)
    ensures
        forall|k: u64| #[trigger] known_keys(keys, known).contains(k) <==> (keys.contains(k)
            && known.contains(k)),
    decreases keys.len(),
{
    if keys.len() > 0 {
        lemma_known_keys(keys.drop_last(), known);
        let prev = known_keys(keys.drop_last(), known);
        assert forall|k: u64| #[trigger] known_keys(keys, known).contains(k) <==> (keys.contains(k)
            && known.contains(k)) by {
            let cur = known_keys(keys, known);
            if keys.contains(k) {
                let i = choose|i: int| 0 <= i < keys.len() && keys[i] == k;
                if i < keys.len() - 1 {
                    assert(keys.drop_last()[i] == k);
                }
            }
            if keys.drop_last().contains(k) {
                let i = choose|i: int| 0 <= i < keys.len() - 1 && keys.drop_last()[i] == k;
                assert(keys[i] == k);
            }
            if known.contains(keys.last()) {
                assert(cur == prev.push(keys.last()));
                assert(cur[prev.len() as int] == keys.last());
                if cur.contains(k) {
                    let i = choose|i: int| 0 <= i < cur.len() && cur[i] == k;
                    if i < prev.len() {
                        assert(prev[i] == k);
                    }
                }
                if prev.contains(k) {
                    let i = choose|i: int| 0 <= i < prev.len() && prev[i] == k;
                    assert(cur[i] == k);
                }
            }
        }
    }
}

/// Groups transfers by payment identifier, skipping zero amounts: one sum per
/// identifier that received anything, in the order of its first transfer. A
/// transfer counts as confirmed when it lies more than `CONFIRMATION_DEPTH`
/// blocks below `current_height`. Totals that would overflow stay at `u64::MAX`.
pub fn aggregate_transfers(transfers: &Vec<Transfer>, current_height: u64) -> (r: Vec<PaymentSum>)
    ensures
        r@.map_values(|s: PaymentSum| s.key) == positive_keys(transfers@),
        forall|j: int| 0 <= j < r.len() ==> sum_matches(#[trigger] r[j], transfers@, current_height),
{
    let mut sums: Vec<PaymentSum> = Vec::new();
    let mut i: usize = 0;
    while i < transfers.len()
        invariant
            i <= transfers.len(),
            sums@.map_values(|s: PaymentSum| s.key) == positive_keys(transfers@.take(i as int)),
            forall|j: int|
                0 <= j < sums.len() ==> sum_matches(
                    #[trigger] sums[j],
                    transfers@.take(i as int),
                    current_height,
                ),
        decreases transfers.len() - i,
    {
        let ghost before = transfers@.take(i as int);
        let ghost after = transfers@.take(i + 1);
        proof {
            assert(after.drop_last() =~= before);
            assert(after.last() == transfers@[i as int]);
            lemma_positive_keys(before);
        }
        let t = transfers[i];
        let key = t.payment_id.key();
        let deep = current_height > t.block_height && current_height - t.block_height
            > CONFIRMATION_DEPTH;
        if t.amount > 0 {
            let mut j: usize = 0;
            let mut found = false;
            while j < sums.len() && !found
                invariant
                    j <= sums.len(),
                    sums@.map_values(|s: PaymentSum| s.key) == positive_keys(before),
                    forall|l: int|
                        0 <= l < sums.len() ==> sum_matches(#[trigger] sums[l], before, current_height),
                    !found ==> forall|l: int| 0 <= l < j ==> #[trigger] sums[l].key != key,
                    found ==> j < sums.len() && sums[j as int].key == key,
                decreases sums.len() - j + if found { 0int } else { 1int },
            {
                if sums[j].key == key {
                    found = true;
                } else {
                    j += 1;
                }
            }
            if found {
                let old_sum = sums[j];
                let new_sum = PaymentSum {
                    key,
                    received: old_sum.received.saturating_add(t.amount),
                    confirmed: if deep {
                        old_sum.confirmed.saturating_add(t.amount)
                    } else {
                        old_sum.confirmed
                    },
                };
                proof {
                    assert(sums@.map_values(|s: PaymentSum| s.key)[j as int] == key);
                }
                sums.set(j, new_sum);
                proof {
                    assert(sums@.map_values(|s: PaymentSum| s.key) =~= positive_keys(after));
                    assert forall|l: int| 0 <= l < sums.len() implies sum_matches(
                        #[trigger] sums[l],
                        after,
                        current_height,
                    ) by {
                        lemma_totals_bounds(before, sums[l].key, current_height);
                        if l != j {
                            assert(positive_keys(before)[l] != positive_keys(before)[j as int]);
                        }
                    }
                }
            } else {
                proof {
                    assert(!positive_keys(before).contains(key)) by {
                        if positive_keys(before).contains(key) {
                            let l = choose|l: int|
                                0 <= l < positive_keys(before).len() && positive_keys(before)[l]
                                    == key;
                            assert(sums@.map_values(|s: PaymentSum| s.key)[l] == key);
                        }
                    }
                    lemma_totals_bounds(before, key, current_height);
                }
                sums.push(PaymentSum { key, received: t.amount, confirmed: if deep { t.amount } else { 0 } });
                proof {
                    assert(sums@.map_values(|s: PaymentSum| s.key) =~= positive_keys(after));
                }
            }
        }
        i += 1;
    }
    proof {
        assert(transfers@.take(transfers.len() as int) =~= transfers@);
    }
    sums
}

/// The totals of the transfers to one key at `current_height`.
pub fn sum_for_key(transfers: &Vec<Transfer>, key: u64, current_height: u64) -> (r: PaymentSum)
    ensures
        r.key == key,
        sum_matches(r, transfers@, current_height),
{
    let mut received: u64 = 0;
    let mut confirmed: u64 = 0;
    let mut i: usize = 0;
    while i < transfers.len()
        invariant
            i <= transfers.len(),
            sum_matches(
                PaymentSum { key, received, confirmed },
                transfers@.take(i as int),
                current_height,
            ),
        decreases transfers.len() - i,
    {
        proof {
            assert(transfers@.take(i + 1).drop_last() =~= transfers@.take(i as int));
            lemma_totals_bounds(transfers@.take(i as int), key, current_height);
        }
        let t = transfers[i];
        if t.payment_id.key() == key {
            received = received.saturating_add(t.amount);
            if current_height > t.block_height && current_height - t.block_height
                > CONFIRMATION_DEPTH {
                confirmed = confirmed.saturating_add(t.amount);
            }
        }
        i += 1;
    }
    proof {
        assert(transfers@.take(transfers.len() as int) =~= transfers@);
    }
    PaymentSum { key, received, confirmed }
}

/// The lowest height that a batch pass asks about: `LOOKBACK_BLOCKS` below the
/// current height, or the genesis block on a shorter chain.
pub fn lookback_start(current_height: u64) -> (r: u64)
    ensures
        r == if current_height >= LOOKBACK_BLOCKS { current_height - LOOKBACK_BLOCKS } else { 0 },
{
    current_height.saturating_sub(LOOKBACK_BLOCKS)
}

} // verus!
