use shielded_sync::fetch::{alive, fetched, published_height, stored, Fetched};
use shielded_sync::utils::cloned_pair;
use shielded_sync::fetch_channel;
use shielded_sync::storage::{checkpoint_before, BlockHeight, Epoch, IndexedTx, TxIndex};
use shielded_sync::tx::{Key, Node, Transaction};
use shielded_sync::unscanned::{IndexedNoteEntry, Unscanned};

fn entry(height: u64, index: u32, tag: u8) -> IndexedNoteEntry {
    (
        IndexedTx { height: BlockHeight(height), index: TxIndex(index) },
        (
            Epoch(height / 4),
            vec![Key(format!("key/{}", tag))],
            Transaction { encoded: vec![tag], commitments: vec![Node([tag; 32])], nullifiers: vec![] },
        ),
    )
}

fn drain(cache: &mut Unscanned) -> Vec<IndexedNoteEntry> {
    let mut out = Vec::new();
    while let Some(e) = cache.pop_first() {
        out.push(e);
    }
    out
}

#[test]
fn entries_sent_at_10_8_9_are_received_at_8_9_10_then_none() {
    let mut cache = Unscanned::new();
    let (mut sender, mut receiver) = fetch_channel::new(BlockHeight(10));
    assert!(sender.send(&mut cache, entry(10, 0, 1)));
    assert!(sender.send(&mut cache, entry(8, 0, 2)));
    assert!(sender.send(&mut cache, entry(9, 0, 3)));
    drop(sender);
    assert_eq!(receiver.next(&mut cache), Fetched::Entry(entry(8, 0, 2)));
    assert_eq!(receiver.next(&mut cache), Fetched::Entry(entry(9, 0, 3)));
    assert_eq!(receiver.next(&mut cache), Fetched::Entry(entry(10, 0, 1)));
    assert_eq!(receiver.next(&mut cache), Fetched::Closed);
    assert_eq!(receiver.next(&mut cache), Fetched::Closed);
    assert!(cache.is_empty());
}

#[test]
fn receiver_waits_while_a_sender_lives_and_ends_when_all_are_gone() {
    let mut cache = Unscanned::new();
    let (mut sender, mut receiver) = fetch_channel::new(BlockHeight(3));
    assert_eq!(receiver.next(&mut cache), Fetched::Pending);
    let mut second = sender.duplicate();
    drop(sender);
    assert_eq!(receiver.next(&mut cache), Fetched::Pending);
    assert!(second.send(&mut cache, entry(1, 0, 1)));
    assert_eq!(receiver.next(&mut cache), Fetched::Entry(entry(1, 0, 1)));
    assert_eq!(receiver.next(&mut cache), Fetched::Pending);
    drop(second);
    assert_eq!(receiver.next(&mut cache), Fetched::Closed);
}

#[test]
fn entries_left_in_the_cache_are_handed_on_after_the_senders_are_gone() {
    let mut cache = Unscanned::new();
    let (mut sender, mut receiver) = fetch_channel::new(BlockHeight(3));
    assert!(sender.send(&mut cache, entry(2, 1, 1)));
    assert!(sender.send(&mut cache, entry(2, 0, 2)));
    drop(sender);
    assert_eq!(receiver.next(&mut cache), Fetched::Entry(entry(2, 0, 2)));
    assert_eq!(receiver.next(&mut cache), Fetched::Entry(entry(2, 1, 1)));
    assert_eq!(receiver.next(&mut cache), Fetched::Closed);
}

#[test]
fn send_without_a_receiver_leaves_the_cache_alone() {
    let mut cache = Unscanned::new();
    let (mut sender, receiver) = fetch_channel::new(BlockHeight(3));
    assert!(sender.send(&mut cache, entry(1, 0, 1)));
    drop(receiver);
    assert!(!sender.send(&mut cache, entry(2, 0, 2)));
    assert_eq!(cache.len(), 1);
    assert_eq!(drain(&mut cache), vec![entry(1, 0, 1)]);
}

#[test]
fn fetched_decides_by_entry_then_by_liveness() {
    assert_eq!(fetched(Some(entry(1, 0, 1)), true), Fetched::Entry(entry(1, 0, 1)));
    assert_eq!(fetched(Some(entry(1, 0, 1)), false), Fetched::Entry(entry(1, 0, 1)));
    assert_eq!(fetched(None, true), Fetched::Pending);
    assert_eq!(fetched(None, false), Fetched::Closed);
}

#[test]
fn sender_knows_the_heights_in_the_cache() {
    let mut cache = Unscanned::new();
    let (mut sender, _receiver) = fetch_channel::new(BlockHeight(30));
    assert!(!sender.contains_height(&cache, 0));
    assert!(sender.send(&mut cache, entry(20, 3, 1)));
    assert!(sender.send(&mut cache, entry(7, 1, 2)));
    assert!(sender.contains_height(&cache, 20));
    assert!(sender.contains_height(&cache, 7));
    assert!(!sender.contains_height(&cache, 3));
    assert!(!sender.contains_height(&cache, 1));
    assert!(!sender.contains_height(&cache, 21));
}

#[test]
fn size_hint_is_the_gap_to_the_last_height() {
    let mut cache = Unscanned::new();
    let (mut sender, receiver) = fetch_channel::new(BlockHeight(100));
    assert_eq!(receiver.last_query_height(), BlockHeight(100));
    // an empty cache counts from height 0
    assert_eq!(receiver.size_hint(&cache), (100, Some(100)));
    assert!(sender.send(&mut cache, entry(60, 0, 1)));
    assert_eq!(receiver.size_hint(&cache), (40, Some(40)));
    assert!(sender.send(&mut cache, entry(25, 9, 2)));
    assert_eq!(receiver.size_hint(&cache), (75, Some(75)));
    assert!(sender.send(&mut cache, entry(100, 0, 3)));
    assert_eq!(receiver.size_hint(&cache), (75, Some(75)));

    let mut cache = Unscanned::new();
    let (mut sender, receiver) = fetch_channel::new(BlockHeight(5));
    assert!(sender.send(&mut cache, entry(5, 0, 1)));
    assert_eq!(receiver.size_hint(&cache), (0, Some(0)));
    let mut cache = Unscanned::new();
    assert!(sender.send(&mut cache, entry(9, 0, 1)));
    assert_eq!(receiver.size_hint(&cache), (0, Some(0)));
}

#[test]
fn cache_orders_entries_by_height_then_index() {
    let mut cache = Unscanned::new();
    assert!(cache.is_empty());
    assert_eq!(cache.first_height(), BlockHeight(0));
    assert_eq!(cache.pop_first(), None);
    for (h, i, t) in [(5, 2, 1), (3, 9, 2), (5, 0, 3), (4, 4, 4), (3, 1, 5), (9, 0, 6)] {
        cache.insert(entry(h, i, t));
    }
    assert_eq!(cache.len(), 6);
    assert!(!cache.is_empty());
    assert_eq!(cache.first_height(), BlockHeight(3));
    assert_eq!(
        drain(&mut cache),
        vec![
            entry(3, 1, 5),
            entry(3, 9, 2),
            entry(4, 4, 4),
            entry(5, 0, 3),
            entry(5, 2, 1),
            entry(9, 0, 6)
        ]
    );
    assert!(cache.is_empty());
}

#[test]
fn cache_keeps_the_later_entry_at_a_position() {
    let mut cache = Unscanned::new();
    cache.insert(entry(2, 0, 1));
    cache.insert(entry(1, 0, 2));
    cache.insert(entry(2, 0, 3));
    cache.insert(entry(1, 0, 4));
    assert_eq!(cache.len(), 2);
    assert_eq!(drain(&mut cache), vec![entry(1, 0, 4), entry(2, 0, 3)]);
}

#[test]
fn cache_is_the_same_whatever_the_order_of_arrival() {
    let entries = [entry(7, 0, 1), entry(2, 5, 2), entry(2, 1, 3), entry(11, 0, 4)];
    let orders: [[usize; 4]; 4] = [[0, 1, 2, 3], [3, 2, 1, 0], [1, 3, 0, 2], [2, 0, 3, 1]];
    let expected = vec![entry(2, 1, 3), entry(2, 5, 2), entry(7, 0, 1), entry(11, 0, 4)];
    for order in orders {
        let mut cache = Unscanned::new();
        cache.extend(order.iter().map(|i| entries[*i].clone()).collect());
        let drained = drain(&mut cache);
        assert_eq!(drained, expected);
        for pair in drained.windows(2) {
            assert!(pair[0].0.height.0 <= pair[1].0.height.0);
        }
    }
}

#[test]
fn scanned_drops_the_blocks_below() {
    let mut cache = Unscanned::new();
    for (h, i, t) in [(1, 0, 1), (2, 0, 2), (2, 1, 3), (2, 2, 4), (3, 0, 5)] {
        cache.insert(entry(h, i, t));
    }
    // a block that is scanned in part keeps all its entries
    cache.scanned(&IndexedTx::new(2, 1));
    assert_eq!(cache.len(), 4);
    assert_eq!(cache.first_height(), BlockHeight(2));
    cache.scanned(&IndexedTx::new(2, 0));
    assert_eq!(cache.len(), 4);
    cache.scanned(&IndexedTx::new(3, 7));
    assert_eq!(drain(&mut cache), vec![entry(3, 0, 5)]);
    cache.insert(entry(3, 0, 5));
    cache.scanned(&IndexedTx::new(4, 0));
    assert!(cache.is_empty());
    cache.scanned(&IndexedTx::new(0, 0));
    assert!(cache.is_empty());
}

#[test]
fn positions_are_ordered_by_height_then_index() {
    let a = IndexedTx::new(1, 9);
    let b = IndexedTx::new(2, 0);
    let c = IndexedTx::new(2, 1);
    assert_eq!(a.height, BlockHeight(1));
    assert_eq!(a.index, TxIndex(9));
    assert!(a.lt(b) && b.lt(c) && a.lt(c));
    assert!(!b.lt(a) && !c.lt(b) && !a.lt(a));
    assert!(a.le(a) && a.le(b) && !b.le(a));
    // the order of the operators is the same order
    for x in [a, b, c] {
        for y in [a, b, c] {
            assert_eq!(x < y, x.lt(y));
            assert_eq!(x <= y, x.le(y));
        }
    }
    assert!(checkpoint_before(None, a));
    assert!(checkpoint_before(None, IndexedTx::new(0, 0)));
    assert!(checkpoint_before(Some(a), b));
    assert!(!checkpoint_before(Some(b), b));
    assert!(!checkpoint_before(Some(c), b));
}

#[test]
fn the_sending_side_is_alive_while_a_sender_is_counted() {
    assert!(!alive(0));
    assert!(alive(1));
    assert!(alive(2));
    assert!(alive(usize::MAX));
}

#[test]
fn an_entry_is_stored_only_where_the_channel_took_it() {
    let mut cache = Unscanned::new();
    assert!(stored(&mut cache, entry(4, 0, 1), true));
    assert!(!stored(&mut cache, entry(3, 0, 2), false));
    assert!(stored(&mut cache, entry(2, 0, 3), true));
    assert!(!stored(&mut cache, entry(4, 0, 4), false));
    assert_eq!(drain(&mut cache), vec![entry(2, 0, 3), entry(4, 0, 1)]);
}

#[test]
fn the_height_of_the_block_of_an_entry_is_published() {
    assert_eq!(published_height(&entry(10, 3, 1)), 10);
    assert_eq!(published_height(&entry(0, 0, 2)), 0);
    assert_eq!(published_height(&entry(u64::MAX, 7, 3)), u64::MAX);
}

#[test]
fn a_pair_is_cloned_half_by_half() {
    let position = IndexedTx::new(4, 2);
    let key = Key("balance".to_string());
    assert_eq!(cloned_pair((&position, &key)), (position, key.clone()));
    assert_eq!(cloned_pair((&vec![1u8, 2], &"x".to_string())), (vec![1u8, 2], "x".to_string()));
}
