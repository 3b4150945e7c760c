use phala_mq::Origin;
use phala_mq::{MessageSendQueue, MessageSigner};

struct TestSigner(Vec<u8>);

impl MessageSigner for TestSigner {
    fn sign(&self, _data: &[u8]) -> Vec<u8> {
        self.0.clone()
    }
}

#[test]
fn test_send_message() {
    let mut queue = MessageSendQueue::new();
    let runtime = Origin::Pallet(b"p0".to_vec());
    let worker0 = Origin::Worker(b"worker0".to_vec());

    {
        let signer = TestSigner(b"key0".to_vec());

        let handle00 = queue.channel(runtime.clone(), signer);

        handle00.send(&mut queue, b"payload00".to_vec(), b"phala.network/test0".to_vec());

        let signer = TestSigner(b"key1".to_vec());

        let handle01 = queue.channel(runtime.clone(), signer);
        handle01.send(&mut queue, b"payload01".to_vec(), b"phala.network/test1".to_vec());

        handle00.send(&mut queue, b"payload02".to_vec(), b"phala.network/test1".to_vec());

        let messages = queue.all_messages();

        assert_eq!(messages.len(), 3);

        assert_eq!(messages[0].message.sender, runtime);
        assert_eq!(messages[0].sequence, 0);
        assert_eq!(messages[0].signature, b"key0");

        assert_eq!(messages[1].message.sender, runtime);
        assert_eq!(messages[1].sequence, 1);
        assert_eq!(messages[1].signature, b"key1");

        assert_eq!(messages[2].message.sender, runtime);
        assert_eq!(messages[2].sequence, 2);
        assert_eq!(messages[2].signature, b"key0");
    }

    {
        let signer = TestSigner(b"a key".to_vec());
        let handle = queue.channel(worker0.clone(), signer);

        handle.send(&mut queue, b"energy".to_vec(), b"/the/hole".to_vec());
        handle.send(&mut queue, b"energy".to_vec(), b"/the/hole".to_vec());
        handle.send(&mut queue, b"energy".to_vec(), b"/the/hole".to_vec());

        assert_eq!(queue.messages(&worker0).len(), 3);
    }

    {
        queue.purge(|sender| match &sender {
            Origin::Pallet(_) => 1,
            _ => 0,
        });

        let runtime_msgs = queue.messages(&runtime);
        let contract1_msgs = queue.messages(&worker0);

        assert_eq!(runtime_msgs.len(), 2);
        assert_eq!(contract1_msgs.len(), 3);
    }
}

struct EchoSigner;

impl MessageSigner for EchoSigner {
    fn sign(&self, data: &[u8]) -> Vec<u8> {
        data.to_vec()
    }
}

fn sequences(messages: &[phala_mq::SignedMessage]) -> Vec<u64> {
    messages.iter().map(|m| m.sequence).collect()
}

fn payloads(messages: &[phala_mq::SignedMessage]) -> Vec<Vec<u8>> {
    messages.iter().map(|m| m.message.payload.clone()).collect()
}

#[test]
fn sequences_are_gap_free_under_interleaving() {
    let mut queue = MessageSendQueue::new();
    let a = Origin::Pallet(b"a".to_vec());
    let b = Origin::Worker(b"a".to_vec());
    let a0 = queue.channel(a.clone(), TestSigner(b"k0".to_vec()));
    let b0 = queue.channel(b.clone(), TestSigner(b"k1".to_vec()));
    let a1 = queue.channel(a.clone(), TestSigner(b"k2".to_vec()));

    a0.send(&mut queue, b"1".to_vec(), b"t".to_vec());
    b0.send(&mut queue, b"2".to_vec(), b"t".to_vec());
    a1.send(&mut queue, b"3".to_vec(), b"t".to_vec());
    b0.send(&mut queue, b"4".to_vec(), b"t".to_vec());
    a0.send(&mut queue, b"5".to_vec(), b"u".to_vec());

    let of_a = queue.messages(&a);
    let of_b = queue.messages(&b);
    assert_eq!(sequences(&of_a), vec![0, 1, 2]);
    assert_eq!(payloads(&of_a), vec![b"1".to_vec(), b"3".to_vec(), b"5".to_vec()]);
    assert_eq!(of_a[1].signature, b"k2");
    assert_eq!(sequences(&of_b), vec![0, 1]);
    assert_eq!(payloads(&of_b), vec![b"2".to_vec(), b"4".to_vec()]);
    assert_eq!(of_a[2].message.destination.path(), b"u");
    assert_eq!(of_a[2].message.sender, a);
}

#[test]
fn origins_do_not_share_counters() {
    let mut queue = MessageSendQueue::new();
    let a = Origin::Pallet(b"same".to_vec());
    let b = Origin::Worker(b"same".to_vec());
    let ca = queue.channel(a.clone(), TestSigner(vec![]));
    ca.send(&mut queue, vec![1], vec![2]);
    ca.send(&mut queue, vec![1], vec![2]);
    ca.send(&mut queue, vec![1], vec![2]);
    assert_eq!(queue.next_sequence(&a), 3);
    assert_eq!(queue.next_sequence(&b), 0);

    let cb = queue.channel(b.clone(), TestSigner(vec![]));
    assert_eq!(queue.next_sequence(&b), 0);
    cb.send(&mut queue, vec![9], vec![2]);
    assert_eq!(queue.next_sequence(&a), 3);
    assert_eq!(queue.next_sequence(&b), 1);
    assert_eq!(sequences(&queue.messages(&b)), vec![0]);
    assert_eq!(sequences(&queue.messages(&a)), vec![0, 1, 2]);
}

#[test]
fn all_messages_follow_the_order_in_which_origins_were_met() {
    let mut queue = MessageSendQueue::new();
    let first = Origin::Worker(b"w".to_vec());
    let second = Origin::Pallet(b"p".to_vec());
    let c1 = queue.channel(first.clone(), TestSigner(vec![1]));
    let c2 = queue.channel(second.clone(), TestSigner(vec![2]));
    c2.send(&mut queue, b"x".to_vec(), b"t".to_vec());
    c1.send(&mut queue, b"y".to_vec(), b"t".to_vec());
    c2.send(&mut queue, b"z".to_vec(), b"t".to_vec());

    let all = queue.all_messages();
    assert_eq!(payloads(&all), vec![b"y".to_vec(), b"x".to_vec(), b"z".to_vec()]);
    assert_eq!(sequences(&all), vec![0, 0, 1]);
    assert_eq!(all[0].message.sender, first);
    assert_eq!(all[1].message.sender, second);
}

#[test]
fn a_new_queue_is_empty() {
    let queue = MessageSendQueue::new();
    let nobody = Origin::Pallet(vec![]);
    assert!(queue.all_messages().is_empty());
    assert!(queue.messages(&nobody).is_empty());
    assert_eq!(queue.next_sequence(&nobody), 0);
}

#[test]
fn enqueue_returns_the_sequence_number() {
    let mut queue = MessageSendQueue::new();
    let a = Origin::Pallet(b"a".to_vec());
    let m = phala_mq::Message::new(a.clone(), b"t".to_vec(), b"p".to_vec());
    assert_eq!(queue.enqueue(m.clone(), b"s0".to_vec()), 0);
    assert_eq!(queue.enqueue(m.clone(), b"s1".to_vec()), 1);
    let stored = queue.messages(&a);
    assert_eq!(stored.len(), 2);
    assert_eq!(stored[1].signature, b"s1");
    assert_eq!(stored[1].message.payload, b"p");
}

#[test]
fn purge_keeps_what_is_at_or_above_the_threshold() {
    let mut queue = MessageSendQueue::new();
    let a = Origin::Pallet(b"a".to_vec());
    let b = Origin::Pallet(b"b".to_vec());
    let ca = queue.channel(a.clone(), TestSigner(vec![]));
    let cb = queue.channel(b.clone(), TestSigner(vec![]));
    for i in 0..5u8 {
        ca.send(&mut queue, vec![i], b"t".to_vec());
    }
    for i in 0..3u8 {
        cb.send(&mut queue, vec![i], b"t".to_vec());
    }
    let threshold = |origin: &Origin| match origin {
        Origin::Pallet(name) if name == b"a" => 3,
        _ => 1,
    };
    queue.purge(threshold);
    assert_eq!(sequences(&queue.messages(&a)), vec![3, 4]);
    assert_eq!(payloads(&queue.messages(&a)), vec![vec![3], vec![4]]);
    assert_eq!(sequences(&queue.messages(&b)), vec![1, 2]);

    queue.purge(threshold);
    assert_eq!(sequences(&queue.messages(&a)), vec![3, 4]);
    assert_eq!(sequences(&queue.messages(&b)), vec![1, 2]);

    ca.send(&mut queue, vec![5], b"t".to_vec());
    assert_eq!(sequences(&queue.messages(&a)), vec![3, 4, 5]);
}

#[test]
fn purge_of_everything_does_not_reset_the_counter() {
    let mut queue = MessageSendQueue::new();
    let a = Origin::Worker(b"a".to_vec());
    let ca = queue.channel(a.clone(), TestSigner(vec![]));
    ca.send(&mut queue, vec![0], vec![]);
    ca.send(&mut queue, vec![1], vec![]);
    queue.purge(|_| u64::MAX);
    assert!(queue.messages(&a).is_empty());
    assert_eq!(queue.next_sequence(&a), 2);
    ca.send(&mut queue, vec![2], vec![]);
    assert_eq!(sequences(&queue.messages(&a)), vec![2]);
}

#[test]
fn purge_with_threshold_zero_keeps_all() {
    let mut queue = MessageSendQueue::new();
    let a = Origin::Worker(b"a".to_vec());
    let ca = queue.channel(a.clone(), TestSigner(vec![]));
    ca.send(&mut queue, vec![0], vec![]);
    ca.send(&mut queue, vec![1], vec![]);
    queue.purge(|_| 0);
    assert_eq!(sequences(&queue.messages(&a)), vec![0, 1]);
}

#[test]
fn purge_below_touches_one_origin() {
    let mut queue = MessageSendQueue::new();
    let a = Origin::Pallet(b"a".to_vec());
    let b = Origin::Pallet(b"b".to_vec());
    let ca = queue.channel(a.clone(), TestSigner(vec![]));
    let cb = queue.channel(b.clone(), TestSigner(vec![]));
    ca.send(&mut queue, vec![0], vec![]);
    ca.send(&mut queue, vec![1], vec![]);
    cb.send(&mut queue, vec![0], vec![]);
    queue.purge_below(&a, 1);
    queue.purge_below(&Origin::Worker(b"a".to_vec()), 7);
    assert_eq!(sequences(&queue.messages(&a)), vec![1]);
    assert_eq!(sequences(&queue.messages(&b)), vec![0]);
}

#[test]
fn the_signer_signs_the_canonical_encoding() {
    let mut queue = MessageSendQueue::new();
    let a = Origin::Pallet(b"p0".to_vec());
    let channel = queue.channel(a.clone(), EchoSigner);
    channel.send(&mut queue, b"xyz".to_vec(), b"ab".to_vec());
    let stored = queue.messages(&a);
    assert_eq!(
        stored[0].signature,
        vec![0u8, 8, b'p', b'0', 8, b'a', b'b', 12, b'x', b'y', b'z']
    );
    assert_eq!(stored[0].signature, stored[0].message.encode());
}

#[test]
fn a_fixed_signer_always_answers_the_same() {
    let signer = phala_mq::FixedSigner { signature: b"sig".to_vec() };
    assert_eq!(signer.sign(b"one"), b"sig");
    assert_eq!(signer.sign(b""), b"sig");
    let mut queue = MessageSendQueue::new();
    let a = Origin::Worker(b"w".to_vec());
    let channel = queue.channel(a.clone(), signer);
    channel.send(&mut queue, vec![], vec![]);
    assert_eq!(queue.messages(&a)[0].signature, b"sig");
}
