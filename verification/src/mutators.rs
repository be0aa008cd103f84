//! Packet-aware mutators.
//!
//! Six structural mutators operate on a packet sequence: reorder, delete,
//! duplicate, splice, and the two crossovers.  Each picks one or two packet
//! indices at random, invokes the corresponding capability on the chosen
//! packet(s), and returns [`MutationResult::Mutated`] or
//! [`MutationResult::Skipped`].  The per-packet havoc mutator additionally
//! applies byte-level mutations to exactly one packet, leaving its siblings
//! intact.  A mutator that returns `Skipped` leaves the sequence unchanged,
//! which every mutator here states in its contract.
//!
//! [`MutationResult::Mutated`]: crate::MutationResult::Mutated
//! [`MutationResult::Skipped`]: crate::MutationResult::Skipped

pub mod crossover;
pub mod delete;
pub mod duplicate;
pub mod havoc;
pub mod reorder;
pub mod splice;
