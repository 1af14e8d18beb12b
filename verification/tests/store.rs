use adbr_server::message::{OKAY_CODE, WRTE_CODE, CLSE_CODE};
use adbr_server::store::AdbPacketStore;

#[test]
fn fifo_per_key() {
    let mut store = AdbPacketStore::new();
    store.put_packet(7, 3, WRTE_CODE, vec![1]);
    store.put_packet(7, 3, WRTE_CODE, vec![2]);
    let first = store.get_packet(7, 3, &[]).expect("first packet parked");
    assert_eq!(first, (WRTE_CODE, 7, 3, vec![1]));
    let second = store.get_packet(7, 3, &[]).expect("second packet parked");
    assert_eq!(second, (WRTE_CODE, 7, 3, vec![2]));
    assert!(store.get_packet(7, 3, &[]).is_none());
}

#[test]
fn wildcard_zero_matches_either_id() {
    let mut store = AdbPacketStore::new();
    store.put_packet(7, 3, OKAY_CODE, vec![9]);
    let by_arg1 = store.get_packet(0, 3, &[OKAY_CODE]).expect("wildcard arg0 matches");
    assert_eq!(by_arg1, (OKAY_CODE, 7, 3, vec![9]));

    store.put_packet(7, 3, OKAY_CODE, vec![9]);
    let by_arg0 = store.get_packet(7, 0, &[OKAY_CODE]).expect("wildcard arg1 matches");
    assert_eq!(by_arg0, (OKAY_CODE, 7, 3, vec![9]));

    store.put_packet(7, 3, OKAY_CODE, vec![9]);
    assert!(store.get_packet(7, 3, &[WRTE_CODE]).is_none());
}

#[test]
fn full_wildcard_takes_any_expected_packet() {
    let mut store = AdbPacketStore::new();
    store.put_packet(4, 9, WRTE_CODE, vec![1, 2]);
    let got = store.get_packet(0, 0, &[WRTE_CODE, CLSE_CODE]).expect("any key matches");
    assert_eq!(got, (WRTE_CODE, 4, 9, vec![1, 2]));
}

#[test]
fn expected_commands_filter_on_the_queue_head() {
    let mut store = AdbPacketStore::new();
    store.put_packet(1, 2, WRTE_CODE, vec![1]);
    store.put_packet(1, 2, OKAY_CODE, vec![2]);
    // The head is a WRTE, so a query expecting only OKAY misses.
    assert!(store.get_packet(1, 2, &[OKAY_CODE]).is_none());
    let head = store.get_packet(1, 2, &[WRTE_CODE]).expect("head is a WRTE");
    assert_eq!(head.0, WRTE_CODE);
    let next = store.get_packet(1, 2, &[OKAY_CODE]).expect("now the OKAY leads");
    assert_eq!(next.0, OKAY_CODE);
}

#[test]
fn find_packet_reports_the_key_without_popping() {
    let store_key = {
        let mut store = AdbPacketStore::new();
        store.put_packet(5, 6, OKAY_CODE, vec![]);
        let found = store.find_packet(0, 6, &[OKAY_CODE]);
        assert_eq!(found, Some((5, 6)));
        let still_there = store.get_packet(5, 6, &[]);
        assert!(still_there.is_some());
        found
    };
    assert_eq!(store_key, Some((5, 6)));
}

#[test]
fn clear_packet_discards_the_whole_queue() {
    let mut store = AdbPacketStore::new();
    store.put_packet(7, 3, WRTE_CODE, vec![1]);
    store.put_packet(7, 3, WRTE_CODE, vec![2]);
    store.put_packet(8, 4, WRTE_CODE, vec![3]);
    store.clear_packet(7, 3);
    assert!(store.get_packet(7, 3, &[]).is_none());
    assert!(store.get_packet(8, 4, &[]).is_some());
}

#[test]
fn earlier_key_wins_a_wildcard_tie() {
    let mut store = AdbPacketStore::new();
    store.put_packet(1, 3, OKAY_CODE, vec![10]);
    store.put_packet(2, 3, OKAY_CODE, vec![20]);
    let got = store.get_packet(0, 3, &[OKAY_CODE]).expect("some queue matches");
    assert_eq!(got, (OKAY_CODE, 1, 3, vec![10]));
}
