use llq::Node;
use std::cell::Cell;
use std::sync::Arc;

struct Counted(Arc<Cell<usize>>);

impl Drop for Counted {
    fn drop(&mut self) {
        self.0.set(self.0.get() + 1);
    }
}

#[test]
fn node_carries_its_payload() {
    let node = Node::new(41u8);
    assert_eq!(*node, 41);
    assert_eq!(Node::into_inner(node), 41);
}

#[test]
fn payload_can_be_changed_in_place() {
    let mut node = Node::new(vec![1, 2]);
    node.push(3);
    assert_eq!(*node, vec![1, 2, 3]);

    let cell = format!("{:p}", &*node);
    *node = vec![9];
    assert_eq!(format!("{:p}", &*node), cell);
    assert_eq!(Node::into_inner(node), vec![9]);
}

#[test]
fn dropping_a_node_drops_its_payload() {
    let counter = Arc::new(Cell::new(0));
    let node = Node::new(Counted(Arc::clone(&counter)));
    assert_eq!(counter.get(), 0);
    drop(node);
    assert_eq!(counter.get(), 1);
}

#[test]
fn into_inner_leaves_the_payload_to_the_caller() {
    let counter = Arc::new(Cell::new(0));
    let node = Node::new(Counted(Arc::clone(&counter)));
    let payload = Node::into_inner(node);
    assert_eq!(counter.get(), 0);
    drop(payload);
    assert_eq!(counter.get(), 1);
}
