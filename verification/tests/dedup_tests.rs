use framehash::dedup::DedupState;

const A: u64 = 0x1111;
const B: u64 = 0x2222;
const C: u64 = 0x3333;

#[test]
fn adjacency_only_dedup() {
    // [A, A, B, A, A, A, C] must emit exactly [A, B, A, C]: a fingerprint
    // seen earlier but interrupted by a different one is a new entry.
    let mut state = DedupState::new();
    let mut emitted = Vec::new();
    for fp in [A, A, B, A, A, A, C] {
        if let Some(e) = state.observe(fp) {
            emitted.push(e);
        }
    }
    assert_eq!(emitted, vec![A, B, A, C]);
    assert_eq!(state.total_count, 7);
    assert_eq!(state.emitted_count, 4);
}

#[test]
fn empty_stream_emits_nothing() {
    let state = DedupState::new();
    assert_eq!(state.total_count, 0);
    assert_eq!(state.emitted_count, 0);
    assert_eq!(state.last_emitted, None);
}

#[test]
fn first_observation_always_emits() {
    let mut state = DedupState::new();
    assert_eq!(state.observe(A), Some(A));
    assert_eq!(state.total_count, 1);
    assert_eq!(state.emitted_count, 1);
    assert_eq!(state.last_emitted, Some(A));
}

#[test]
fn repeated_observation_does_not_emit() {
    let mut state = DedupState::new();
    state.observe(A);
    assert_eq!(state.observe(A), None);
    assert_eq!(state.observe(A), None);
    assert_eq!(state.total_count, 3);
    assert_eq!(state.emitted_count, 1);
    assert_eq!(state.last_emitted, Some(A));
}
