use phala_mq::{BlockInfo, Message, Origin, Storage, StorageEntry, TxRef};

#[test]
fn a_builder_starts_at_block_zero() {
    let mut builder = BlockInfo::builder();
    let info = builder.build();
    assert_eq!(info.block_number, 0);
    assert_eq!(info.now_ms, 0);
    assert!(info.storage.entries.is_empty());
    assert!(info.send_mq.all_messages().is_empty());
    assert_eq!(info.recv_mq.dispatch(Message::new(Origin::Pallet(vec![]), vec![], vec![])), 0);
}

#[test]
fn a_builder_takes_number_and_time() {
    let mut builder = BlockInfo::builder().block_number(7).now_ms(1_600_000_000_000);
    assert_eq!(builder.block_number, 7);
    assert_eq!(builder.now_ms, 1_600_000_000_000);
    let info = builder.build();
    assert_eq!(info.block_number, 7);
    assert_eq!(info.now_ms, 1_600_000_000_000);
}

#[test]
fn what_a_block_does_to_the_bus_stays() {
    let mut builder = BlockInfo::builder().block_number(1);
    let origin = Origin::Worker(b"w".to_vec());
    let mut receiver = {
        let info = builder.build();
        let receiver = info.recv_mq.subscribe(b"t".to_vec());
        let message = Message::new(origin.clone(), b"t".to_vec(), b"p".to_vec());
        assert_eq!(info.recv_mq.dispatch(message.clone()), 1);
        assert_eq!(info.send_mq.enqueue(message, b"s".to_vec()), 0);
        receiver
    };
    let builder = &mut builder.now_ms(5);
    let info = builder.build();
    assert_eq!(info.block_number, 1);
    assert_eq!(info.now_ms, 5);
    assert_eq!(info.send_mq.messages(&origin).len(), 1);
    assert_eq!(info.send_mq.next_sequence(&origin), 1);
    let pending = receiver.drain(info.recv_mq);
    assert_eq!(pending.len(), 1);
    assert_eq!(pending[0].payload, b"p");
}

#[test]
fn the_snapshot_answers_with_the_first_entry_of_a_key() {
    let storage = Storage::new(vec![
        StorageEntry { key: b"a".to_vec(), value: b"1".to_vec() },
        StorageEntry { key: b"b".to_vec(), value: b"2".to_vec() },
        StorageEntry { key: b"a".to_vec(), value: b"3".to_vec() },
    ]);
    assert_eq!(storage.get(&b"a".to_vec()), Some(b"1".to_vec()));
    assert_eq!(storage.get(&b"b".to_vec()), Some(b"2".to_vec()));
    assert_eq!(storage.get(&b"c".to_vec()), None);
    assert_eq!(Storage::default().get(&b"a".to_vec()), None);
}

#[test]
fn a_transaction_reference_is_copied_field_by_field() {
    let tx = TxRef { blocknum: 12, index: 3 };
    let copy = tx.clone();
    assert_eq!(copy.blocknum, 12);
    assert_eq!(copy.index, 3);
}
