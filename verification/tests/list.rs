use llq::{Node, Queue};
use std::cell::RefCell;
use std::rc::Rc;

struct Logged(u32, Rc<RefCell<Vec<u32>>>);

impl Drop for Logged {
    fn drop(&mut self) {
        self.1.borrow_mut().push(self.0);
    }
}

fn payload<T: Copy>(node: Option<Node<T>>) -> Option<T> {
    node.map(|node| *node)
}

#[test]
fn new_list_is_empty() {
    let mut list = Queue::<u32>::new();
    assert!(list.unlink().is_none());
    assert!(list.unlink().is_none());
}

#[test]
fn default_list_is_empty() {
    let mut list: Queue<u32> = Default::default();
    assert!(list.unlink().is_none());
    list.link(Node::new(4));
    assert_eq!(payload(list.unlink()), Some(4));
}

#[test]
fn link_then_unlink_on_an_empty_list() {
    let mut list = Queue::new();
    list.link(Node::new('x'));
    assert_eq!(payload(list.unlink()), Some('x'));
    assert_eq!(payload(list.unlink()), None);
}

#[test]
fn unlink_answers_with_the_oldest() {
    let mut list = Queue::new();
    list.link(Node::new(1));
    list.link(Node::new(2));
    assert_eq!(payload(list.unlink()), Some(1));
    list.link(Node::new(3));
    assert_eq!(payload(list.unlink()), Some(2));
    assert_eq!(payload(list.unlink()), Some(3));
    assert_eq!(payload(list.unlink()), None);
}

#[test]
fn first_in_first_out() {
    let payloads: Vec<u64> = (0..500).map(|i| i * i).collect();
    let mut list = Queue::new();
    for value in &payloads {
        list.link(Node::new(*value));
    }

    let mut got = Vec::new();
    for _ in 0..payloads.len() {
        got.push(payload(list.unlink()).unwrap());
    }

    assert_eq!(got, payloads);
    assert_eq!(payload(list.unlink()), None);
}

#[test]
fn what_came_out_is_a_prefix_of_what_went_in() {
    let mut list = Queue::new();
    let mut linked: Vec<u32> = Vec::new();
    let mut unlinked: Vec<u32> = Vec::new();
    let mut pending = 0;

    for round in 0..200u32 {
        for k in 0..(round % 4) {
            list.link(Node::new(10 * round + k));
            linked.push(10 * round + k);
            pending += 1;
        }
        for _ in 0..(round % 3) {
            match list.unlink() {
                Some(node) => {
                    assert!(pending > 0);
                    pending -= 1;
                    unlinked.push(Node::into_inner(node));
                }
                None => assert_eq!(pending, 0),
            }
        }
        assert_eq!(linked.len(), unlinked.len() + pending);
        assert_eq!(&linked[..unlinked.len()], &unlinked[..]);
    }

    while let Some(node) = list.unlink() {
        unlinked.push(*node);
    }
    assert_eq!(linked, unlinked);
}

#[test]
fn unlinked_node_links_onto_another_list() {
    let mut from = Queue::new();
    let mut onto = Queue::new();
    from.link(Node::new(3));
    onto.link(Node::new(1));
    onto.link(Node::new(2));

    let node = from.unlink().unwrap();
    onto.link(node);

    assert_eq!(payload(onto.unlink()), Some(1));
    assert_eq!(payload(onto.unlink()), Some(2));
    assert_eq!(payload(onto.unlink()), Some(3));
    assert_eq!(payload(onto.unlink()), None);
    assert_eq!(payload(from.unlink()), None);
}

#[test]
fn unlink_hands_back_the_cell_that_was_at_the_head() {
    let mut list = Queue::new();
    let first = Node::new(1u64);
    let second = Node::new(2u64);
    let first_cell = format!("{:p}", &*first);
    let second_cell = format!("{:p}", &*second);
    list.link(first);
    list.link(second);

    let a = list.unlink().unwrap();
    let b = list.unlink().unwrap();

    assert_eq!((*a, *b), (1, 2));
    assert_ne!(format!("{:p}", &*a), first_cell);
    assert_ne!(format!("{:p}", &*a), second_cell);
    assert_eq!(format!("{:p}", &*b), first_cell);
}

#[test]
fn list_that_was_filled_moves_into_its_halves() {
    let mut list = Queue::new();
    list.link(Node::new(5));
    list.link(Node::new(6));

    let (mut producer, mut consumer) = list.split();
    assert!(producer.push(Node::new(7)).is_ok());

    assert_eq!(payload(consumer.pop().unwrap()), Some(5));
    assert_eq!(payload(consumer.pop().unwrap()), Some(6));
    assert_eq!(payload(consumer.pop().unwrap()), Some(7));
    assert_eq!(payload(consumer.pop().unwrap()), None);
}

#[test]
fn bursts_keep_their_order() {
    let mut list = Queue::new();
    let mut next = 0u32;
    let mut expected = 0u32;

    for burst in [1usize, 5, 2, 9, 3, 7, 1, 1, 12] {
        for _ in 0..burst {
            list.link(Node::new(next));
            next += 1;
        }
        for _ in 0..(burst / 2 + 1) {
            if let Some(node) = list.unlink() {
                assert_eq!(*node, expected);
                expected += 1;
            }
        }
    }
    while let Some(node) = list.unlink() {
        assert_eq!(*node, expected);
        expected += 1;
    }

    assert_eq!(expected, next);
    assert_eq!(next, 41);
}

#[test]
fn dropping_a_list_frees_its_payloads_oldest_first() {
    let log = Rc::new(RefCell::new(Vec::new()));
    let mut list = Queue::new();
    for i in 0..5 {
        list.link(Node::new(Logged(i, Rc::clone(&log))));
    }
    let kept = list.unlink().unwrap();
    assert!(log.borrow().is_empty());

    drop(list);
    assert_eq!(*log.borrow(), vec![1, 2, 3, 4]);
    drop(kept);
    assert_eq!(*log.borrow(), vec![1, 2, 3, 4, 0]);
}

#[test]
fn long_list_is_freed() {
    let mut list = Queue::new();
    for i in 0..20000u32 {
        list.link(Node::new(i));
    }
    assert_eq!(*list.unlink().unwrap(), 0);
    drop(list);
}
