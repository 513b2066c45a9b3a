use hps_ble::app_state::{zero_bytes, AppState, BufferId, BufferWrite};

const ALL: [BufferId; 7] = [
    BufferId::Uri,
    BufferId::Headers,
    BufferId::StatusCode,
    BufferId::EntityBody,
    BufferId::Security,
    BufferId::ChunkIdx,
    BufferId::Sizes,
];

#[test]
fn a_new_state_holds_zero_cursors_and_nothing_else() {
    let state = AppState::new();
    assert_eq!(state.http_headers_body_chunk_idx, vec![0u8; 8]);
    assert!(state.http_uri.is_empty());
    assert!(state.http_headers.is_empty());
    assert!(state.http_status_code.is_empty());
    assert!(state.http_entity_body.is_empty());
    assert!(state.https_security.is_empty());
    assert!(state.http_headers_body_sizes.is_empty());
}

#[test]
fn zero_bytes_has_the_length_asked_for() {
    assert_eq!(zero_bytes(0), Vec::<u8>::new());
    assert_eq!(zero_bytes(3), vec![0, 0, 0]);
}

#[test]
fn read_hands_back_a_copy_of_the_named_buffer() {
    let mut state = AppState::new();
    state.http_uri = vec![1];
    state.http_headers = vec![2];
    state.http_status_code = vec![3];
    state.http_entity_body = vec![4];
    state.https_security = vec![5];
    state.http_headers_body_chunk_idx = vec![6];
    state.http_headers_body_sizes = vec![7];
    for (i, id) in ALL.iter().enumerate() {
        assert_eq!(state.read(*id), vec![i as u8 + 1]);
    }
    let mut copy = state.read(BufferId::Uri);
    copy.push(9);
    assert_eq!(state.http_uri, vec![1]);
}

#[test]
fn replace_changes_the_named_buffer_only() {
    for target in ALL {
        let mut state = AppState::new();
        let before = state.clone();
        state.replace(target, vec![0xab, 0xcd]);
        for id in ALL {
            if id == target {
                assert_eq!(state.read(id), vec![0xab, 0xcd]);
            } else {
                assert_eq!(state.read(id), before.read(id));
            }
        }
    }
}

#[test]
fn replace_swaps_the_whole_content() {
    let mut state = AppState::new();
    state.replace(BufferId::Uri, vec![1, 2, 3, 4]);
    state.replace(BufferId::Uri, vec![9]);
    assert_eq!(state.http_uri, vec![9]);
}

#[test]
fn apply_performs_the_writes_first_to_last() {
    let mut state = AppState::new();
    let writes = vec![
        BufferWrite { buffer: BufferId::EntityBody, value: vec![1] },
        BufferWrite { buffer: BufferId::StatusCode, value: vec![2] },
        BufferWrite { buffer: BufferId::EntityBody, value: vec![3, 3] },
    ];
    state.apply(&writes);
    assert_eq!(state.http_entity_body, vec![3, 3]);
    assert_eq!(state.http_status_code, vec![2]);
    assert_eq!(state.http_headers_body_chunk_idx, vec![0u8; 8]);
}

#[test]
fn apply_of_no_writes_changes_nothing() {
    let mut state = AppState::new();
    state.replace(BufferId::Uri, vec![5, 6]);
    let before = state.clone();
    state.apply(&Vec::new());
    assert_eq!(state, before);
}
