use butterfly::{
    BytesPacket, HasCrossoverInsertMutation, HasCrossoverReplaceMutation, HasSpliceMutation,
    MutationResult, MutatorState,
};

fn test_state() -> MutatorState {
    MutatorState::new(0, usize::MAX)
}

#[test]
fn test_insert_empty() {
    let mut state = test_state();
    let mut a = BytesPacket::new(Vec::new());
    let b = BytesPacket::new(Vec::new());

    for _ in 0..100 {
        assert_eq!(
            a.mutate_crossover_insert(&mut state, &b, 0).unwrap(),
            MutationResult::Skipped
        );
    }
}

#[test]
fn test_insert_len1() {
    let mut state = test_state();
    let b = BytesPacket::new(b"B".to_vec());

    for _ in 0..100 {
        let mut a = BytesPacket::new(b"A".to_vec());
        assert_eq!(
            a.mutate_crossover_insert(&mut state, &b, 0).unwrap(),
            MutationResult::Mutated
        );
        assert!(a.bytes().as_slice() == b"AB" || a.bytes().as_slice() == b"BA");
    }
}

#[test]
fn test_insert_resize() {
    let mut state = test_state();
    let mut a = BytesPacket::new(b"A".to_vec());
    let b = BytesPacket::new(b"asdasd fasd fa sdf asdf asdfasfd asdfsadf asdfsadf asdfsa df ".to_vec());

    for _ in 0..100 {
        assert_eq!(
            a.mutate_crossover_insert(&mut state, &b, 0).unwrap(),
            MutationResult::Mutated
        );
    }
}

#[test]
fn test_replace_empty() {
    let mut state = test_state();
    let mut a = BytesPacket::new(Vec::new());
    let b = BytesPacket::new(Vec::new());

    for _ in 0..100 {
        assert_eq!(
            a.mutate_crossover_replace(&mut state, &b, 0).unwrap(),
            MutationResult::Skipped
        );
    }
}

#[test]
fn test_replace_len1() {
    let mut state = test_state();
    let mut a = BytesPacket::new(b"A".to_vec());
    let b = BytesPacket::new(b"B".to_vec());

    for _ in 0..100 {
        assert_eq!(
            a.mutate_crossover_replace(&mut state, &b, 0).unwrap(),
            MutationResult::Mutated
        );
        assert_eq!(a.bytes().as_slice(), b"B");
    }
}

#[test]
fn test_replace_resize() {
    let mut state = test_state();
    let mut a = BytesPacket::new(b"A".to_vec());
    let b = BytesPacket::new(b"asdasd fasd fa sdf asdf asdfasfd asdfsadf asdfsadf asdfsa df ".to_vec());

    for _ in 0..100 {
        assert_eq!(
            a.mutate_crossover_replace(&mut state, &b, 0).unwrap(),
            MutationResult::Mutated
        );
    }
}

#[test]
fn test_splice_empty() {
    let mut state = test_state();
    let mut a = BytesPacket::new(Vec::new());
    let b = BytesPacket::new(Vec::new());

    for _ in 0..100 {
        assert_eq!(
            a.mutate_splice(&mut state, &b, 0).unwrap(),
            MutationResult::Skipped
        );
    }
}

#[test]
fn test_splice_len1() {
    let mut state = test_state();
    let mut a = BytesPacket::new(b"A".to_vec());
    let b = BytesPacket::new(b"B".to_vec());

    for _ in 0..100 {
        assert_eq!(
            a.mutate_splice(&mut state, &b, 0).unwrap(),
            MutationResult::Mutated
        );
        assert_eq!(a.bytes().as_slice(), b"B");
    }
}

#[test]
fn test_splice_resize() {
    let mut state = test_state();
    let mut a = BytesPacket::new(b"A".to_vec());
    let b = BytesPacket::new(b"asdasd fasd fa sdf asdf asdfasfd asdfsadf asdfsadf asdfsa df ".to_vec());

    for _ in 0..100 {
        assert_eq!(
            a.mutate_splice(&mut state, &b, 0).unwrap(),
            MutationResult::Mutated
        );
    }
}
