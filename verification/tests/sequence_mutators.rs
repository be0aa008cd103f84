use butterfly::{
    BytesPacket, HasCrossoverInsertMutation, HasHavocMutation, HasPackets, HasSpliceMutation,
    MutationResult, MutatorState, NopHavocMutations, PacketCrossoverInsertMutator,
    PacketCrossoverReplaceMutator, PacketDeleteMutator, PacketDuplicateMutator,
    PacketHavocMutator, PacketMutationScheduler, PacketReorderMutator, PacketSpliceMutator,
    StructuralMutator, TaggedPacket,
};

fn test_state() -> MutatorState {
    MutatorState::new(0, usize::MAX)
}

fn packets(payloads: &[&[u8]]) -> Vec<BytesPacket> {
    payloads.iter().map(|p| BytesPacket::new(p.to_vec())).collect()
}

fn payloads(seq: &Vec<BytesPacket>) -> Vec<Vec<u8>> {
    seq.iter().map(|p| p.bytes().clone()).collect()
}

#[test]
fn crossover_insert_single_bytes() {
    // Two one-byte packets: the result is a two-byte buffer holding both.
    let mut state = test_state();
    let mut mutator = PacketCrossoverInsertMutator::new();
    for _ in 0..100 {
        let mut seq = packets(&[b"A", b"B"]);
        let r = mutator.mutate(&mut state, &mut seq, 0).unwrap();
        assert_eq!(seq.packets_len(), 2);
        if r == MutationResult::Mutated {
            let grown: Vec<&BytesPacket> =
                seq.iter().filter(|p| p.bytes().len() == 2).collect();
            assert_eq!(grown.len(), 1);
            let b = grown[0].bytes().as_slice();
            assert!(b == b"AB" || b == b"BA");
        } else {
            assert_eq!(payloads(&seq), vec![b"A".to_vec(), b"B".to_vec()]);
        }
    }
}

#[test]
fn crossover_replace_single_bytes() {
    // Two one-byte packets: the chosen packet becomes a copy of the other.
    let mut state = test_state();
    let mut mutator = PacketCrossoverReplaceMutator::new();
    for _ in 0..100 {
        let mut seq = packets(&[b"A", b"B"]);
        let r = mutator.mutate(&mut state, &mut seq, 0).unwrap();
        assert_eq!(seq.packets_len(), 2);
        let now = payloads(&seq);
        if r == MutationResult::Mutated {
            assert!(now == vec![b"B".to_vec(), b"B".to_vec()]
                || now == vec![b"A".to_vec(), b"A".to_vec()]);
        } else {
            assert_eq!(now, vec![b"A".to_vec(), b"B".to_vec()]);
        }
    }
}

#[test]
fn splice_single_bytes() {
    // Splicing two one-byte packets merges them into the second one's byte.
    let mut state = test_state();
    let mut mutator = PacketSpliceMutator::new(1);
    let mut seq = packets(&[b"A", b"B"]);
    let r = mutator.mutate(&mut state, &mut seq, 0).unwrap();
    assert_eq!(r, MutationResult::Mutated);
    assert_eq!(seq.packets_len(), 1);
    assert_eq!(seq[0].bytes().as_slice(), b"B");
}

#[test]
fn delete_respects_lower_bound() {
    // At the bound the mutator skips; above it, exactly one packet goes.
    let k = 3usize;
    let mut state = test_state();
    let mut mutator = PacketDeleteMutator::new(k);

    let mut at_bound = packets(&[b"a", b"b", b"c"]);
    for _ in 0..100 {
        let r = mutator.mutate(&mut state, &mut at_bound, 0).unwrap();
        assert_eq!(r, MutationResult::Skipped);
        assert_eq!(at_bound.packets_len(), k);
    }

    let mut above = packets(&[b"a", b"b", b"c", b"d"]);
    let r = mutator.mutate(&mut state, &mut above, 0).unwrap();
    assert_eq!(r, MutationResult::Mutated);
    assert_eq!(above.packets_len(), k);
}

#[test]
fn delete_bound_promoted_to_one() {
    // A bound of 0 is promoted to 1: a single packet is never deleted.
    let mut state = test_state();
    let mut mutator = PacketDeleteMutator::new(0);
    let mut seq = packets(&[b"only"]);
    for _ in 0..100 {
        let r = mutator.mutate(&mut state, &mut seq, 0).unwrap();
        assert_eq!(r, MutationResult::Skipped);
        assert_eq!(seq.packets_len(), 1);
    }
}

#[test]
fn duplicate_grows_by_one() {
    let mut state = test_state();
    let mut mutator = PacketDuplicateMutator::new(16);
    let mut grown = 0usize;
    for _ in 0..100 {
        let mut seq = packets(&[b"x", b"y"]);
        let r = mutator.mutate(&mut state, &mut seq, 0).unwrap();
        if r == MutationResult::Mutated {
            assert_eq!(seq.packets_len(), 3);
            grown += 1;
        } else {
            assert_eq!(payloads(&seq), vec![b"x".to_vec(), b"y".to_vec()]);
        }
    }
    assert!(grown > 0);
}

#[test]
fn duplicate_respects_upper_bound() {
    let mut state = test_state();
    let mut mutator = PacketDuplicateMutator::new(2);
    let mut seq = packets(&[b"x", b"y"]);
    for _ in 0..100 {
        let r = mutator.mutate(&mut state, &mut seq, 0).unwrap();
        assert_eq!(r, MutationResult::Skipped);
        assert_eq!(seq.packets_len(), 2);
    }
}

#[test]
fn reorder_preserves_packets() {
    let mut state = test_state();
    let mut mutator = PacketReorderMutator::new();
    let mut swapped = 0usize;
    for _ in 0..100 {
        let mut seq = packets(&[b"one", b"two"]);
        let r = mutator.mutate(&mut state, &mut seq, 0).unwrap();
        assert_eq!(seq.packets_len(), 2);
        let now = payloads(&seq);
        if r == MutationResult::Mutated {
            assert_eq!(now, vec![b"two".to_vec(), b"one".to_vec()]);
            swapped += 1;
        } else {
            assert_eq!(now, vec![b"one".to_vec(), b"two".to_vec()]);
        }
    }
    assert!(swapped > 0);
}

#[test]
fn empty_sequence_every_mutator_skips() {
    // The empty trace: all six structural mutators skip and leave it empty.
    let mut state = test_state();
    let mut reorder = PacketReorderMutator::new();
    let mut delete = PacketDeleteMutator::new(4);
    let mut duplicate = PacketDuplicateMutator::new(16);
    let mut splice = PacketSpliceMutator::new(4);
    let mut cross_insert = PacketCrossoverInsertMutator::new();
    let mut cross_replace = PacketCrossoverReplaceMutator::new();
    let mut seq: Vec<BytesPacket> = Vec::new();

    for _ in 0..100 {
        assert_eq!(
            reorder.mutate(&mut state, &mut seq, 0).unwrap(),
            MutationResult::Skipped
        );
        assert_eq!(
            delete.mutate(&mut state, &mut seq, 0).unwrap(),
            MutationResult::Skipped
        );
        assert_eq!(
            duplicate.mutate(&mut state, &mut seq, 0).unwrap(),
            MutationResult::Skipped
        );
        assert_eq!(
            splice.mutate(&mut state, &mut seq, 0).unwrap(),
            MutationResult::Skipped
        );
        assert_eq!(
            cross_insert.mutate(&mut state, &mut seq, 0).unwrap(),
            MutationResult::Skipped
        );
        assert_eq!(
            cross_replace.mutate(&mut state, &mut seq, 0).unwrap(),
            MutationResult::Skipped
        );
        assert_eq!(seq.packets_len(), 0);
    }
}

#[test]
fn havoc_with_noop_mutations_skips() {
    // A single packet with empty bytes and the no-op mutator list: nothing
    // can act, so the havoc mutator skips and the payload is unchanged.
    let mut state = test_state();
    let mut havoc = PacketHavocMutator::new(NopHavocMutations::new());
    let mut seq = vec![BytesPacket::new(Vec::new())];
    for _ in 0..100 {
        let r = havoc.mutate(&mut state, &mut seq, 0).unwrap();
        assert_eq!(r, MutationResult::Skipped);
        assert_eq!(seq.packets_len(), 1);
        assert!(seq[0].bytes().is_empty());
    }
}

#[test]
fn scheduler_absorbs_skips() {
    // On a sequence where structural mutators can act, the scheduler
    // produces a real mutation, absorbing intermediate skips.
    let mut state = test_state();
    let mutators: Vec<StructuralMutator<NopHavocMutations>> = vec![
        StructuralMutator::Havoc(PacketHavocMutator::new(NopHavocMutations::new())),
        StructuralMutator::Reorder(PacketReorderMutator::new()),
        StructuralMutator::Splice(PacketSpliceMutator::new(1)),
        StructuralMutator::CrossoverInsert(PacketCrossoverInsertMutator::new()),
        StructuralMutator::CrossoverReplace(PacketCrossoverReplaceMutator::new()),
        StructuralMutator::Delete(PacketDeleteMutator::new(1)),
        StructuralMutator::Duplicate(PacketDuplicateMutator::new(16)),
    ];
    let mut scheduler = PacketMutationScheduler::new(mutators);
    assert_eq!(scheduler.mutations().len(), 7);

    for _ in 0..20 {
        let mut seq = packets(&[b"USER foo", b"PASS bar", b"QUIT"]);
        let r = scheduler.scheduled_mutate(&mut state, &mut seq, 0).unwrap();
        assert_eq!(r, MutationResult::Mutated);
    }
}

#[test]
fn same_seed_same_mutation() {
    // Determinism: under a fixed seed the whole mutation sequence repeats.
    let mut state_a = MutatorState::new(42, usize::MAX);
    let mut state_b = MutatorState::new(42, usize::MAX);
    let mut mutator_a = PacketReorderMutator::new();
    let mut mutator_b = PacketReorderMutator::new();
    let mut seq_a = packets(&[b"1", b"2", b"3", b"4"]);
    let mut seq_b = packets(&[b"1", b"2", b"3", b"4"]);
    for _ in 0..50 {
        let ra = mutator_a.mutate(&mut state_a, &mut seq_a, 0).unwrap();
        let rb = mutator_b.mutate(&mut state_b, &mut seq_b, 0).unwrap();
        assert_eq!(ra, rb);
        assert_eq!(payloads(&seq_a), payloads(&seq_b));
    }
}

#[test]
fn state_reports_bounds() {
    let mut state = MutatorState::new(7, 4096);
    assert_eq!(state.max_size(), 4096);
    for n in [1usize, 2, 3, 10, 1000] {
        for _ in 0..50 {
            assert!(state.below(n) < n);
        }
    }
}

#[test]
fn insert_respects_max_size() {
    // With no room to grow, a crossover insert is skipped.
    let mut state = MutatorState::new(0, 1);
    let mut a = BytesPacket::new(b"A".to_vec());
    let b = BytesPacket::new(b"B".to_vec());
    for _ in 0..100 {
        assert_eq!(
            a.mutate_crossover_insert(&mut state, &b, 0).unwrap(),
            MutationResult::Skipped
        );
        assert_eq!(a.bytes().as_slice(), b"A");
    }
}

#[test]
fn splice_skip_restores_the_neighbour() {
    // The chosen packet is empty, so the byte-level splice skips; the
    // removed neighbour must be re-inserted and the sequence unchanged.
    let mut state = test_state();
    let mut mutator = PacketSpliceMutator::new(1);
    let mut seq = vec![BytesPacket::new(Vec::new()), BytesPacket::new(b"B".to_vec())];
    for _ in 0..100 {
        let r = mutator.mutate(&mut state, &mut seq, 0).unwrap();
        assert_eq!(r, MutationResult::Skipped);
        assert_eq!(seq.packets_len(), 2);
        assert!(seq[0].bytes().is_empty());
        assert_eq!(seq[1].bytes().as_slice(), b"B");
    }
}

#[test]
fn splice_skips_when_beyond_max_size() {
    // Any splice result would exceed the size bound, so the mutation is
    // skipped and both packets survive.
    let mut state = MutatorState::new(0, 0);
    let mut mutator = PacketSpliceMutator::new(1);
    let mut seq = vec![
        BytesPacket::new(b"AA".to_vec()),
        BytesPacket::new(b"BB".to_vec()),
    ];
    for _ in 0..100 {
        let r = mutator.mutate(&mut state, &mut seq, 0).unwrap();
        assert_eq!(r, MutationResult::Skipped);
        assert_eq!(seq.packets_len(), 2);
        assert_eq!(seq[0].bytes().as_slice(), b"AA");
        assert_eq!(seq[1].bytes().as_slice(), b"BB");
    }
}

#[test]
fn packet_clone_preserves_bytes() {
    let p = BytesPacket::new(b"payload".to_vec());
    let q = p.clone();
    assert_eq!(q.bytes(), p.bytes());
    assert_eq!(p.len(), 7);
}

#[test]
fn tagged_packets_keep_their_kind() {
    // A command never becomes a data block: crossover between different
    // kinds is skipped, and same-kind crossover only touches the payload.
    let mut state = test_state();
    let mut command = TaggedPacket::Command(BytesPacket::new(b"USER foo".to_vec()));
    let data = TaggedPacket::Data(BytesPacket::new(b"blob".to_vec()));
    for _ in 0..100 {
        let r = command.mutate_crossover_insert(&mut state, &data, 0).unwrap();
        assert_eq!(r, MutationResult::Skipped);
        assert!(matches!(command, TaggedPacket::Command(_)));
    }

    let other_command = TaggedPacket::Command(BytesPacket::new(b"PASS bar".to_vec()));
    let mut mutated = 0usize;
    for _ in 0..100 {
        let r = command.mutate_crossover_insert(&mut state, &other_command, 0).unwrap();
        assert!(matches!(command, TaggedPacket::Command(_)));
        if r == MutationResult::Mutated {
            mutated += 1;
        }
    }
    assert!(mutated > 0);
}

#[test]
fn control_packets_are_invisible_to_havoc() {
    let mut state = test_state();
    let mut nop = NopHavocMutations::new();
    let mut token = TaggedPacket::Control;
    let r = token.mutate_havoc(&mut state, &mut nop, 0, 0).unwrap();
    assert_eq!(r, MutationResult::Skipped);
    assert!(matches!(token, TaggedPacket::Control));
}

#[test]
fn tagged_sequences_can_be_scheduled() {
    // A mixed-kind trace runs under the scheduler; kinds survive mutation.
    let mut state = test_state();
    let mutators: Vec<StructuralMutator<NopHavocMutations>> = vec![
        StructuralMutator::Reorder(PacketReorderMutator::new()),
        StructuralMutator::Duplicate(PacketDuplicateMutator::new(16)),
        StructuralMutator::CrossoverReplace(PacketCrossoverReplaceMutator::new()),
    ];
    let mut scheduler = PacketMutationScheduler::new(mutators);
    let mut seq = vec![
        TaggedPacket::Command(BytesPacket::new(b"USER foo".to_vec())),
        TaggedPacket::Control,
        TaggedPacket::Data(BytesPacket::new(b"blob".to_vec())),
    ];
    for _ in 0..20 {
        let r = scheduler.scheduled_mutate(&mut state, &mut seq, 0).unwrap();
        assert_eq!(r, MutationResult::Mutated);
    }
}

#[test]
fn tagged_splice_same_kind_succeeds() {
    // Equal byte-carrying kinds with nonempty payloads and no binding size
    // bound: the splice is owed, and the kind survives.
    let mut state = test_state();
    let other = TaggedPacket::Command(BytesPacket::new(b"PASS bar".to_vec()));
    for _ in 0..100 {
        let mut target = TaggedPacket::Command(BytesPacket::new(b"USER foo".to_vec()));
        let r = target.mutate_splice(&mut state, &other, 0).unwrap();
        assert_eq!(r, MutationResult::Mutated);
        assert!(matches!(target, TaggedPacket::Command(_)));
    }

    // Different kinds: always skipped, the target untouched.
    let mut command = TaggedPacket::Command(BytesPacket::new(b"USER foo".to_vec()));
    let data = TaggedPacket::Data(BytesPacket::new(b"blob".to_vec()));
    let r = command.mutate_splice(&mut state, &data, 0).unwrap();
    assert_eq!(r, MutationResult::Skipped);
}
