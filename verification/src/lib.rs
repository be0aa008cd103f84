//! Components for stateful, packet-oriented greybox fuzzing.
//!
//! The crate models a fuzzing input as an ordered sequence of typed packets
//! and provides:
//!
//! - packet-aware structural mutators that reorder, duplicate, delete and
//!   splice packets, plus crossover and per-packet havoc mutation,
//! - a scheduler that dispatches exactly one structural mutator per
//!   invocation, retrying while a mutator reports [`MutationResult::Skipped`],
//! - a state-graph observer that records the protocol states a target
//!   traverses during one execution and accumulates them into a directed
//!   graph, together with a novelty feedback that marks an input as
//!   interesting iff its execution introduced a previously unseen transition.
//!
//! Randomness is drawn from a seeded PRNG carried in a [`MutatorState`] that
//! is mutably borrowed by every mutator and by the scheduler.

use vstd::prelude::*;

mod codec;
mod feedback;
mod input;
mod monitor;
mod mutators;
mod observer;
mod packet;
mod rng;
mod scheduler;

pub use codec::{
    decode_items, deserialize_packets, encode_items, fits_u32, lemma_codec_round_trip,
    lemma_u32_le_round_trip, serialize_packets, spec_deserialize, spec_serialize, spec_u32_of,
    u32_le, DecodeError,
};
pub use feedback::StateFeedback;
pub use input::{
    has_pcap_extension, only_one_packet_changed, packet_replaced_at, select_pcap_files,
    selected_indices, spec_has_pcap_extension, spec_selects_entry, DirEntryInfo, HasPackets,
};
pub use monitor::{calculate_average, sum_of};
pub use mutators::crossover::{
    crossover_insert_applies, crossover_inserted_at, crossover_replace_applies,
    crossover_replaced_at, is_crossover_insert, is_crossover_replace,
    HasCrossoverInsertMutation, HasCrossoverReplaceMutation, PacketCrossoverInsertMutator,
    PacketCrossoverReplaceMutator,
};
pub use mutators::delete::{is_delete, PacketDeleteMutator};
pub use mutators::duplicate::{duplicate_applies, is_duplicate, PacketDuplicateMutator};
pub use mutators::havoc::{HasHavocMutation, HavocMutations, NopHavocMutations, PacketHavocMutator};
pub use mutators::reorder::{is_reorder, reorder_applies, PacketReorderMutator};
pub use mutators::splice::{
    is_splice, is_splice_merge, splice_applies, splice_merge_applies, HasSpliceMutation,
    PacketSpliceMutator,
};
pub use observer::{
    campaign_edges, campaign_states, dec_digits, digit_char, dot_body, dot_line, empty_model,
    graph_record_step, lemma_campaign_counts, lemma_counts_from_empty,
    lemma_fresh_iff_edges_grew, lemma_history_contents,
    lemma_graph_contents, lemma_graph_monotone, lemma_node_id_unique, lemma_pack_unpack,
    lemma_run_records_finite, lemma_self_loop_adds_no_edge, lemma_trace_edges_finite,
    lemma_trace_edges_stable, node_id_of, pack_transition, reset_model, run_executions,
    run_records, sorted_strict, spec_dot, spec_pack_transition,
    spec_unpack_from, spec_unpack_to, trace_edges, unpack_transition, GraphModel, StateGraph,
    StateObserver,
};
pub use packet::{
    delegates_bytes, same_kind, tagged_payload, BytesPacket, ClonablePacket, MutationError, MutationResult, TaggedPacket,
    TaggedPacketView,
};
pub use rng::MutatorState;
pub use scheduler::{
    is_structural_mutation, PacketMutationScheduler, StructuralMutator, SCHEDULER_RETRIES,
};
