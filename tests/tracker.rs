use xmrapp::client::{BatchQuery, PaymentError};
use xmrapp::payment::derive_status;
use xmrapp::reconcile::{aggregate_transfers, lookback_start, sum_for_key, PaymentSum, Transfer};
use xmrapp::{PaymentId, PaymentStatus, XMRClient, XMRPayment};

const XMR: u64 = 1_000_000_000_000;

fn id(n: u8) -> PaymentId {
    PaymentId([0x44, 0x35, 0xa6, 0x47, 0x3c, 0xdc, 0x78, n])
}

fn payment(created_timestamp: i64, created_block_height: u64) -> XMRPayment {
    XMRPayment {
        created_timestamp,
        created_block_height,
        status: PaymentStatus::Pending,
        amount_received: 0,
        amount_confirmed: 0,
        amount_requested: XMR,
        info: None,
    }
}

fn transfer(payment_id: PaymentId, amount: u64, block_height: u64) -> Transfer {
    Transfer { payment_id, amount, block_height }
}

#[test]
fn query_unknown_identifier_finds_nothing() {
    let client = XMRClient::new(1000);
    assert_eq!(client.query_payment(id(1)), None);
}

#[test]
fn allocated_payment_is_pending_with_zero_amounts() {
    let mut client = XMRClient::new(1000);
    assert!(client.allocate_payment_at(id(1), 5 * XMR, None, 1_700_000_000, 1000));
    let p = client.query_payment(id(1)).unwrap();
    assert_eq!(p.status, PaymentStatus::Pending);
    assert_eq!(p.amount_received, 0);
    assert_eq!(p.amount_confirmed, 0);
    assert_eq!(p.amount_requested, 5 * XMR);
    assert_eq!(p.created_timestamp, 1_700_000_000);
    assert_eq!(p.created_block_height, 1000);
    assert_eq!(client.query_payment(id(2)), None);
}

#[test]
fn allocation_reads_the_clock() {
    let mut client = XMRClient::new(1000);
    assert!(client.allocate_payment(id(1), XMR, Some(vec![7, 8]), 1000));
    let p = client.query_payment(id(1)).unwrap();
    assert!(p.created_timestamp > 1_600_000_000);
    assert_eq!(p.info, Some(vec![7, 8]));
    assert_eq!(p.created_block_height, 1000);
}

#[test]
fn allocation_refuses_a_live_identifier() {
    let mut client = XMRClient::new(1000);
    assert!(client.allocate_payment_at(id(1), XMR, Some(vec![1]), 1_700_000_000, 1000));
    assert!(!client.allocate_payment_at(id(1), 2 * XMR, None, 1_700_000_600, 1010));
    let p = client.query_payment(id(1)).unwrap();
    assert_eq!(p.amount_requested, XMR);
    assert_eq!(p.info, Some(vec![1]));
}

#[test]
fn allocation_replaces_an_expired_identifier() {
    let mut client = XMRClient::new(1000);
    assert!(client.allocate_payment_at(id(1), XMR, Some(vec![1]), 1_700_000_000, 1000));
    assert!(client.allocate_payment_at(id(1), 2 * XMR, None, 1_700_000_060, 1016));
    let p = client.query_payment(id(1)).unwrap();
    assert_eq!(p.amount_requested, 2 * XMR);
    assert_eq!(p.created_block_height, 1016);
    assert_eq!(p.info, None);
}

#[test]
fn expired_after_thirty_one_minutes() {
    let p = payment(1_700_000_000, 500);
    assert!(p.is_expired(1_700_000_000 + 31 * 60, 500));
}

#[test]
fn expired_after_sixteen_blocks() {
    let p = payment(1_700_000_000, 500);
    assert!(p.is_expired(1_700_000_001, 516));
}

#[test]
fn not_expired_after_ten_minutes_and_five_blocks() {
    let p = payment(1_700_000_000, 500);
    assert!(!p.is_expired(1_700_000_000 + 10 * 60, 505));
}

#[test]
fn expiry_boundary_is_exclusive() {
    let p = payment(1_700_000_000, 500);
    assert!(!p.is_expired(1_700_000_000 + 30 * 60, 515));
    assert!(p.is_expired(1_700_000_000 + 30 * 60 + 1, 500));
    assert!(p.is_expired(1_700_000_000 + 31 * 60 - 1, 500));
    assert!(p.is_expired(1_700_000_000 + 30 * 60, 516));
    assert!(p.is_expired(1_700_000_000 + 31 * 60, 515));
}

#[test]
fn expiry_ignores_a_clock_or_chain_behind_creation() {
    let p = payment(1_700_000_000, 500);
    assert!(!p.is_expired(1_600_000_000, 400));
    assert!(p.is_expired(1_700_000_000 + 30 * 60 + 1, 400));
}

#[test]
fn aggregation_of_two_transfers() {
    let mut client = XMRClient::new(1000);
    assert!(client.allocate_payment_at(id(1), 1_000_000_000, None, 1_700_000_000, 1000));
    let transfers = vec![
        transfer(id(1), 600_000_000, 1094),
        transfer(id(1), 500_000_000, 1098),
    ];
    let changed = client.poll_enqueued_payments(1100, &transfers);
    assert_eq!(changed.len(), 1);
    assert_eq!(changed[0].amount_received, 1_100_000_000);
    assert_eq!(changed[0].amount_confirmed, 600_000_000);
    assert_eq!(changed[0].status, PaymentStatus::Received);
    assert_eq!(client.query_payment(id(1)).unwrap(), changed[0]);
    assert_eq!(client.current_block_height(), 1100);
}

#[test]
fn confirmed_at_exactly_the_requested_amount() {
    assert_eq!(derive_status(XMR, XMR, XMR), PaymentStatus::Confirmed);
    assert_eq!(derive_status(XMR, XMR - 1, XMR), PaymentStatus::Received);
    assert_eq!(derive_status(XMR - 1, 0, XMR), PaymentStatus::Pending);
    let mut client = XMRClient::new(1000);
    assert!(client.allocate_payment_at(id(1), XMR, None, 1_700_000_000, 1000));
    let changed = client.poll_enqueued_payments(1010, &vec![transfer(id(1), XMR, 1004)]);
    assert_eq!(changed[0].status, PaymentStatus::Confirmed);
    assert_eq!(changed[0].amount_confirmed, XMR);
}

#[test]
fn status_follows_the_latest_totals() {
    let mut client = XMRClient::new(1000);
    assert!(client.allocate_payment_at(id(1), XMR, None, 1_700_000_000, 1000));
    let changed = client.poll_enqueued_payments(1010, &vec![transfer(id(1), XMR, 1008)]);
    assert_eq!(changed[0].status, PaymentStatus::Received);
    let changed = client.poll_enqueued_payments(1011, &vec![transfer(id(1), XMR / 2, 1008)]);
    assert_eq!(changed[0].status, PaymentStatus::Pending);
    assert_eq!(changed[0].amount_received, XMR / 2);
}

#[test]
fn unknown_identifier_is_not_reported() {
    let mut client = XMRClient::new(1000);
    assert!(client.allocate_payment_at(id(1), XMR, None, 1_700_000_000, 1000));
    let changed = client.poll_enqueued_payments(1100, &vec![transfer(id(9), XMR, 1000)]);
    assert!(changed.is_empty());
    assert_eq!(client.query_payment(id(9)), None);
    assert_eq!(client.query_payment(id(1)).unwrap().amount_received, 0);
}

#[test]
fn changed_payments_come_in_order_of_first_transfer() {
    let mut client = XMRClient::new(1000);
    assert!(client.allocate_payment_at(id(1), XMR, None, 1_700_000_000, 1000));
    assert!(client.allocate_payment_at(id(2), XMR, None, 1_700_000_000, 1000));
    let transfers = vec![
        transfer(id(2), 3, 1000),
        transfer(id(9), 5, 1000),
        transfer(id(1), 0, 1000),
        transfer(id(1), 4, 1000),
        transfer(id(2), 6, 1099),
    ];
    let changed = client.poll_enqueued_payments(1100, &transfers);
    assert_eq!(changed.len(), 2);
    assert_eq!(changed[0].amount_received, 9);
    assert_eq!(changed[0].amount_confirmed, 3);
    assert_eq!(changed[1].amount_received, 4);
    assert_eq!(changed[1].amount_confirmed, 4);
}

#[test]
fn zero_amount_transfers_change_nothing() {
    let mut client = XMRClient::new(1000);
    assert!(client.allocate_payment_at(id(1), 0, None, 1_700_000_000, 1000));
    let changed = client.poll_enqueued_payments(1100, &vec![transfer(id(1), 0, 1000)]);
    assert!(changed.is_empty());
    assert_eq!(client.query_payment(id(1)).unwrap().status, PaymentStatus::Pending);
}

#[test]
fn totals_saturate() {
    let ts = vec![transfer(id(1), u64::MAX, 10), transfer(id(1), 2, 10)];
    let sums = aggregate_transfers(&ts, 100);
    assert_eq!(sums, vec![PaymentSum { key: id(1).key(), received: u64::MAX, confirmed: u64::MAX }]);
}

#[test]
fn transfer_above_the_known_height_is_unconfirmed() {
    let ts = vec![transfer(id(1), 7, 120), transfer(id(2), 1, 10), transfer(id(1), 5, 94)];
    let s = sum_for_key(&ts, id(1).key(), 100);
    assert_eq!(s, PaymentSum { key: id(1).key(), received: 12, confirmed: 5 });
}

#[test]
fn draining_twice_gives_nothing_the_second_time() {
    let mut client = XMRClient::new(1000);
    client.poll_payment(id(1));
    client.poll_payment(id(2));
    client.poll_payment(id(1));
    assert_eq!(client.drain_poll_queue(), vec![id(1), id(2), id(1)]);
    assert!(client.drain_poll_queue().is_empty());
    client.poll_payment(id(3));
    assert_eq!(client.drain_poll_queue(), vec![id(3)]);
}

#[test]
fn start_poll_on_empty_queue_asks_nothing() {
    let mut client = XMRClient::new(1000);
    assert_eq!(client.start_poll(2500), None);
    assert_eq!(client.current_block_height(), 2500);
}

#[test]
fn start_poll_drains_and_looks_back() {
    let mut client = XMRClient::new(1000);
    client.poll_payment(id(1));
    client.poll_payment(id(1));
    let q = client.start_poll(2500).unwrap();
    assert_eq!(q, BatchQuery { payment_ids: vec![id(1), id(1)], min_height: 1500 });
    assert_eq!(client.start_poll(2501), None);
}

#[test]
fn lookback_stops_at_genesis() {
    assert_eq!(lookback_start(5000), 4000);
    assert_eq!(lookback_start(1000), 0);
    assert_eq!(lookback_start(300), 0);
}

#[test]
fn immediate_poll_of_unknown_identifier_is_not_found() {
    let mut client = XMRClient::new(1000);
    assert_eq!(client.immediate_query_height(id(1)), None);
    assert_eq!(
        client.poll_payment_immediate(id(1), &vec![transfer(id(1), XMR, 900)]),
        Err(PaymentError::NotFound)
    );
    assert_eq!(client.query_payment(id(1)), None);
}

#[test]
fn immediate_poll_updates_one_payment() {
    let mut client = XMRClient::new(1000);
    assert!(client.allocate_payment_at(id(1), XMR, None, 1_700_000_000, 990));
    assert_eq!(client.immediate_query_height(id(1)), Some(990));
    let transfers = vec![transfer(id(1), XMR, 994), transfer(id(2), XMR, 994)];
    let p = client.poll_payment_immediate(id(1), &transfers).unwrap();
    assert_eq!(p.amount_received, XMR);
    assert_eq!(p.amount_confirmed, XMR);
    assert_eq!(p.status, PaymentStatus::Confirmed);
    assert_eq!(client.query_payment(id(1)).unwrap(), p);
}

#[test]
fn payment_info_is_attached_to_known_payments_only() {
    let mut client = XMRClient::new(1000);
    assert!(client.allocate_payment_at(id(1), XMR, None, 1_700_000_000, 1000));
    assert_eq!(client.set_payment_info(id(1), vec![1, 2, 3]), Some(()));
    assert_eq!(client.query_payment(id(1)).unwrap().info, Some(vec![1, 2, 3]));
    assert_eq!(client.set_payment_info(id(2), vec![4]), None);
    assert_eq!(client.query_payment(id(2)), None);
}
