use butterfly::{pack_transition, unpack_transition, StateFeedback, StateObserver};

#[test]
fn graph_growth_on_straight_line_trace() {
    // Recording [1, 2, 3, 2, 4] yields 4 nodes and the 4 edges
    // 1->2, 2->3, 3->2, 2->4, and the run is novel.
    let mut observer = StateObserver::new("state");
    observer.pre_exec();
    for s in [1u64, 2, 3, 2, 4] {
        observer.record(s);
    }
    assert_eq!(observer.info(), (4, 4));
    assert!(observer.had_new_transitions());
}

#[test]
fn second_identical_execution_is_not_novel() {
    let mut observer = StateObserver::new("state");
    observer.pre_exec();
    for s in [1u64, 2, 3, 2, 4] {
        observer.record(s);
    }
    assert!(observer.had_new_transitions());

    observer.pre_exec();
    for s in [1u64, 2, 3, 2, 4] {
        observer.record(s);
    }
    assert_eq!(observer.info(), (4, 4));
    assert!(!observer.had_new_transitions());
}

#[test]
fn self_loop_is_not_an_edge() {
    let mut observer = StateObserver::new("state");
    observer.pre_exec();
    for s in [5u64, 5, 5] {
        observer.record(s);
    }
    assert_eq!(observer.info(), (1, 0));
    assert!(!observer.had_new_transitions());
}

#[test]
fn nodes_and_edges_survive_reset() {
    let mut observer = StateObserver::new("state");
    observer.pre_exec();
    observer.record(1);
    observer.record(2);
    assert_eq!(observer.info(), (2, 1));
    observer.pre_exec();
    assert_eq!(observer.info(), (2, 1));
    assert!(!observer.had_new_transitions());
    observer.post_exec();
    assert_eq!(observer.info(), (2, 1));
}

#[test]
fn partially_new_execution_is_novel() {
    let mut observer = StateObserver::new("state");
    observer.pre_exec();
    for s in [1u64, 2, 3] {
        observer.record(s);
    }
    observer.pre_exec();
    for s in [1u64, 2, 4] {
        observer.record(s);
    }
    assert_eq!(observer.info(), (4, 3));
    assert!(observer.had_new_transitions());
}

#[test]
fn observer_name_is_kept() {
    let observer = StateObserver::new("fuzz target state");
    assert_eq!(observer.name(), "fuzz target state");
}

#[test]
fn feedback_reads_the_novelty_flag() {
    let mut observer = StateObserver::new("state");
    let feedback = StateFeedback::new(&observer);
    assert_eq!(feedback.observer_name(), "state");

    observer.pre_exec();
    observer.record(10);
    observer.record(20);
    assert!(feedback.is_interesting(&observer));

    observer.pre_exec();
    observer.record(10);
    observer.record(20);
    assert!(!feedback.is_interesting(&observer));
}

#[test]
fn transitions_pack_and_unpack() {
    assert_eq!(pack_transition(1, 2), 0x1_0000_0002);
    assert_eq!(unpack_transition(0x1_0000_0002), (1, 2));
    assert_eq!(unpack_transition(pack_transition(5, 7)), (5, 7));
    assert_eq!(unpack_transition(pack_transition(u32::MAX, 0)), (u32::MAX, 0));
    assert_eq!(pack_transition(0, 0), 0);
}

#[test]
fn dot_lists_edges_in_ascending_order() {
    // The trace [1, 2, 3, 2, 4] assigns ids 0..3 in first-seen order; edge
    // lines come out sorted by (from, to).
    let mut observer = StateObserver::new("state");
    observer.pre_exec();
    for s in [1u64, 2, 3, 2, 4] {
        observer.record(s);
    }
    let dot = observer.render_statemachine();
    let expected = "digraph IMPLEMENTED_STATE_MACHINE {\n  \"0\" -> \"1\";\n  \"1\" -> \"2\";\n  \"1\" -> \"3\";\n  \"2\" -> \"1\";\n}\n";
    assert_eq!(dot, expected);
}

#[test]
fn dot_of_empty_graph() {
    let observer = StateObserver::new("state");
    let dot = observer.render_statemachine();
    assert_eq!(dot, "digraph IMPLEMENTED_STATE_MACHINE {\n}\n");
}
