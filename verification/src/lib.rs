//! A vector-backed sequential container with linked-list-style operations
//! (front/back insertion and removal, indexed insertion, removal and lookup),
//! together with a harness that drives the container and a reference deque
//! through the same front-insert / back-drain workload and checks that the
//! two stay behaviorally equivalent.

pub mod harness;
pub mod linked_list;

pub use linked_list::LinkedListAsVec;
pub use linked_list::ListError;
