//! A last-in-first-out stack with a verified model of deferred, hazard-style
//! node reclamation and of the tagged-pointer slot used to defeat ABA races.

mod hazard;
mod lifecycle;
mod ops;
mod stack;
mod tagged;

pub use hazard::lemma_protected_never_freed;
pub use hazard::lemma_reclaim_partition;
pub use hazard::reclaimable;
pub use hazard::seq_protects;
pub use hazard::still_protected;
pub use hazard::Domain;
pub use lifecycle::lemma_quiet_pass_leaves_nothing_retired;
pub use lifecycle::Lifecycle;
pub use lifecycle::NodeState;
pub use ops::lemma_push_pop_conservation;
pub use ops::popped_count;
pub use ops::push_count;
pub use ops::push_pop_step;
pub use ops::run_view;
pub use ops::Operation;
pub use stack::after_pushes;
pub use stack::lemma_push_pop_lifo;
pub use stack::Entry;
pub use stack::IntoIter;
pub use stack::Iter;
pub use stack::Stack;
pub use tagged::installs;
pub use tagged::lemma_tag_detects_reuse;
pub use tagged::lemma_word_round_trip;
pub use tagged::pack;
pub use tagged::unpack;
pub use tagged::word_addr;
pub use tagged::word_tag;
pub use tagged::TaggedPtr;
pub use tagged::TaggedSlot;
pub use tagged::ADDR_BITS;
pub use tagged::TAG_BITS;
