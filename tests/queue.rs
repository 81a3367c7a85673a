use fifo_queue::Queue;

#[test]
fn new_queue_is_empty() {
    let q: Queue<i32> = Queue::new();
    assert!(q.is_empty());
}

#[test]
fn one_enqueue_then_dequeue_toggles_emptiness() {
    let mut q = Queue::new();
    assert!(q.is_empty());
    q.enqueue(7);
    assert!(!q.is_empty());
    assert_eq!(q.dequeue(), 7);
    assert!(q.is_empty());
}

#[test]
fn enqueues_come_out_in_order() {
    let mut q = Queue::new();
    let values = vec![5u32, 3, 9, 3, 0, u32::MAX];
    for v in values.iter() {
        q.enqueue(*v);
    }
    let mut out = Vec::new();
    for _ in 0..values.len() {
        out.push(q.dequeue());
    }
    assert_eq!(out, values);
    assert!(q.is_empty());
}

#[test]
fn interleaved_operations() {
    let mut q = Queue::new();
    q.enqueue(1);
    q.enqueue(2);
    assert_eq!(q.dequeue(), 1);
    q.enqueue(3);
    assert_eq!(q.dequeue(), 2);
    assert_eq!(q.dequeue(), 3);
    assert!(q.is_empty());
}

#[test]
fn length_is_enqueues_less_dequeues() {
    // 5 enqueues and 3 dequeues leave 2 elements: two more dequeues empty it.
    let mut q = Queue::new();
    q.enqueue(10);
    q.enqueue(20);
    q.enqueue(30);
    assert_eq!(q.dequeue(), 10);
    q.enqueue(40);
    assert_eq!(q.dequeue(), 20);
    q.enqueue(50);
    assert_eq!(q.dequeue(), 30);
    assert!(!q.is_empty());
    assert_eq!(q.dequeue(), 40);
    assert!(!q.is_empty());
    assert_eq!(q.dequeue(), 50);
    assert!(q.is_empty());
}

#[test]
fn string_elements_keep_fifo_order() {
    let mut q: Queue<String> = Queue::new();
    assert!(q.is_empty());
    q.enqueue(String::from("one"));
    q.enqueue(String::from("two"));
    assert_eq!(q.dequeue(), "one");
    q.enqueue(String::from("three"));
    assert_eq!(q.dequeue(), "two");
    assert_eq!(q.dequeue(), "three");
    assert!(q.is_empty());
}

#[test]
fn queue_can_empty_and_fill_again() {
    let mut q = Queue::new();
    for round in 0..3u8 {
        q.enqueue(round);
        q.enqueue(round + 10);
        assert_eq!(q.dequeue(), round);
        assert_eq!(q.dequeue(), round + 10);
        assert!(q.is_empty());
    }
}
