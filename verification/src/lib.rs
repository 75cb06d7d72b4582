//! A single-producer single-consumer linked-list queue with individually
//! reusable nodes.
//!
//! A [`Node`] owns one heap cell with a payload in it. [`Producer::push`]
//! links that cell to the tail of a list, and [`Consumer::pop`] hands back
//! the cell that stood at the head of the list, now carrying the oldest
//! payload. So no cell is allocated or freed on the way: the cells there are
//! come from [`Node::new`] and [`Queue::new`], and a node that was popped can
//! be pushed again, onto the same queue or another.
//!
//! The list itself is [`Queue`], a chain of cells in which each owns the
//! next. [`Queue::link`] and [`Queue::unlink`] have exact contracts over the
//! sequence of payloads that the queue holds, and [`model`] states what
//! follows from them. [`Queue::split`] moves the queue behind a lock; the
//! two halves apply the same two operations to it, each under the lock.
//! Neither half ever waits for the other: a half that finds the other at
//! work on the queue says so at once, and its caller tries again.
//!
//! # Examples
//!
//! Passing values through a queue:
//!
//! ```rust
//! use llq::{Node, Queue};
//!
//! let (mut producer, mut consumer) = Queue::<usize>::new().split();
//!
//! assert!(producer.push(Node::new(0)).is_ok());
//! assert!(producer.push(Node::new(1)).is_ok());
//! assert!(producer.push(Node::new(2)).is_ok());
//!
//! assert_eq!(*consumer.pop().unwrap().unwrap(), 0);
//! assert_eq!(*consumer.pop().unwrap().unwrap(), 1);
//! assert_eq!(*consumer.pop().unwrap().unwrap(), 2);
//! assert!(consumer.pop().unwrap().is_none());
//! ```
//!
//! Reusing a node between multiple queues:
//!
//! ```rust
//! use llq::{Node, Queue};
//!
//! let (mut producer1, mut consumer1) = Queue::<usize>::new().split();
//! let (mut producer2, mut consumer2) = Queue::<usize>::new().split();
//!
//! let node = Node::new(3);
//! assert!(producer1.push(node).is_ok());
//! let node = consumer1.pop().unwrap().unwrap();
//! assert!(producer2.push(node).is_ok());
//! let node = consumer2.pop().unwrap().unwrap();
//!
//! assert_eq!(*node, 3);
//! ```

mod endpoints;
mod list;
mod lock;
pub mod model;
mod node;
mod queue;

pub use endpoints::Busy;
pub use endpoints::Consumer;
pub use endpoints::Producer;
pub use node::Node;
pub use queue::Queue;
