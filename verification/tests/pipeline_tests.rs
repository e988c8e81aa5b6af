use layerpack::pipeline::{
    assemble_archive, fetch_stage, pipeline_step, prepare_archive, restore_order, store_stage,
    PipelineAction, PipelineError, PipelineEvent, PipelineState,
};
use layerpack::storage::{ErrorCause, MemoryStore, Storage, StorageError};
use std::io::Read;

fn cause(msg: &str) -> ErrorCause {
    ErrorCause { message: msg.to_string(), chain: Vec::new() }
}

fn extract(bytes: &[u8]) -> Vec<(String, Vec<u8>)> {
    let reader = std::io::Cursor::new(bytes.to_vec());
    let mut za = zip::ZipArchive::new(reader).expect("container must be readable");
    let mut out = Vec::new();
    for i in 0..za.len() {
        let mut file = za.by_index(i).unwrap();
        let mut data = Vec::new();
        file.read_to_end(&mut data).unwrap();
        out.push((file.name().to_string(), data));
    }
    out
}

#[test]
fn restore_order_reorders_by_tag() {
    let results = vec![
        (2usize, vec![22u8]),
        (0usize, vec![0u8]),
        (1usize, vec![11u8]),
    ];
    let ordered = restore_order(&results).expect("a full tag set must restore");
    assert_eq!(ordered, vec![vec![0u8], vec![11u8], vec![22u8]]);
}

#[test]
fn restore_order_rejects_duplicate_tags() {
    let results = vec![(0usize, vec![1u8]), (0usize, vec![2u8])];
    assert!(restore_order(&results).is_none());
}

#[test]
fn restore_order_rejects_out_of_range_tags() {
    let results = vec![(0usize, vec![1u8]), (2usize, vec![2u8])];
    assert!(restore_order(&results).is_none());
}

#[test]
fn archive_entries_follow_decode_order_not_completion_order() {
    let in_order = vec![
        (0usize, vec![10u8; 10]),
        (1usize, Vec::new()),
        (2usize, vec![5u8; 5]),
    ];
    let shuffled = vec![
        (2usize, vec![5u8; 5]),
        (0usize, vec![10u8; 10]),
        (1usize, Vec::new()),
    ];
    let a = prepare_archive(&in_order).unwrap();
    let b = prepare_archive(&shuffled).unwrap();
    assert_eq!(a, b);
    let got = extract(&a);
    assert_eq!(got.len(), 3);
    assert_eq!(got[0], ("image_0.png".to_string(), vec![10u8; 10]));
    assert_eq!(got[1], ("image_1.png".to_string(), Vec::new()));
    assert_eq!(got[2], ("image_2.png".to_string(), vec![5u8; 5]));
}

#[test]
fn prepare_archive_incomplete_tags_is_encode_error() {
    let results = vec![(0usize, vec![1u8]), (0usize, vec![2u8])];
    match prepare_archive(&results) {
        Err(PipelineError::Encode(_)) => {}
        _ => panic!("duplicate tags must fail the encode stage"),
    }
}

#[test]
fn assemble_names_buffers_in_order() {
    let buffers = vec![vec![1u8, 2], vec![3u8]];
    let bytes = assemble_archive(&buffers).unwrap();
    let got = extract(&bytes);
    assert_eq!(got.len(), 2);
    assert_eq!(got[0], ("image_0.png".to_string(), vec![1u8, 2]));
    assert_eq!(got[1], ("image_1.png".to_string(), vec![3u8]));
}

#[test]
fn full_run_stores_archive_under_destination() {
    let mut store = MemoryStore::new();
    let source = vec![1u8, 2, 3, 4];
    store.save_object("assets/src", &source).unwrap();

    let (state, action) = fetch_stage(&store, "assets/src");
    assert!(matches!(state, PipelineState::Decoding));
    let fetched = match action {
        PipelineAction::RunDecode(b) => b,
        _ => panic!("a present source must be handed to the decoder"),
    };
    assert_eq!(fetched, source);

    // The decoder and the per-buffer encoders run outside; simulate a
    // decoder that produced three buffers whose encodes finished out of
    // order.
    let (state, action) = pipeline_step(state, PipelineEvent::DecodeOutcome(Ok(3)));
    assert!(matches!(state, PipelineState::Encoding));
    assert!(matches!(action, PipelineAction::RunEncode));

    let results = vec![
        (1usize, vec![111u8]),
        (2usize, vec![222u8]),
        (0usize, vec![0u8]),
    ];
    let (state, action) = pipeline_step(state, PipelineEvent::EncodeOutcome(Ok(results)));
    assert!(matches!(state, PipelineState::Storing));
    let archive_bytes = match action {
        PipelineAction::StoreArchive(b) => b,
        _ => panic!("a complete encode round must store"),
    };

    let (state, action) = store_stage(&mut store, "assets/src/layers.zip", &archive_bytes);
    assert!(matches!(state, PipelineState::Done));
    assert!(matches!(action, PipelineAction::Stop));

    let stored = store.get_object("assets/src/layers.zip").unwrap();
    assert_eq!(stored, archive_bytes);
    let got = extract(&stored);
    assert_eq!(got.len(), 3);
    assert_eq!(got[0], ("image_0.png".to_string(), vec![0u8]));
    assert_eq!(got[1], ("image_1.png".to_string(), vec![111u8]));
    assert_eq!(got[2], ("image_2.png".to_string(), vec![222u8]));
}

#[test]
fn encode_failure_leaves_destination_untouched() {
    let mut store = MemoryStore::new();
    store.save_object("src-key", &[9u8, 9]).unwrap();

    let (state, action) = fetch_stage(&store, "src-key");
    assert!(matches!(state, PipelineState::Decoding));
    assert!(matches!(action, PipelineAction::RunDecode(_)));

    let (state, _) = pipeline_step(state, PipelineEvent::DecodeOutcome(Ok(2)));
    let (state, action) = pipeline_step(
        state,
        PipelineEvent::EncodeOutcome(Err(cause("one buffer failed to encode"))),
    );
    match &state {
        PipelineState::Failed(PipelineError::Encode(c)) => {
            assert_eq!(c.message, "one buffer failed to encode")
        }
        _ => panic!("an encode failure must fail the whole invocation"),
    }
    assert!(matches!(action, PipelineAction::Stop));

    // No partial archive is observable under the destination key.
    let read = store.get_object("dest-key");
    assert!(matches!(read, Err(StorageError::ObjectMissing(_))));
}

#[test]
fn fetch_failure_propagates_storage_error() {
    let store = MemoryStore::new();
    let (state, action) = fetch_stage(&store, "never-written");
    match state {
        PipelineState::Failed(PipelineError::Storage(e)) => {
            assert!(e.is_object_missing())
        }
        _ => panic!("fetching a missing source must fail with the storage error"),
    }
    assert!(matches!(action, PipelineAction::Stop));
}

#[test]
fn decode_failure_is_terminal() {
    let (state, action) = pipeline_step(
        PipelineState::Decoding,
        PipelineEvent::DecodeOutcome(Err(cause("unreadable source"))),
    );
    match state {
        PipelineState::Failed(PipelineError::Decode(c)) => {
            assert_eq!(c.message, "unreadable source")
        }
        _ => panic!("a decode failure must be terminal"),
    }
    assert!(matches!(action, PipelineAction::Stop));
}

#[test]
fn store_failure_reported_by_event() {
    let timeout = StorageError::Other(cause("simulated timeout"));
    let (state, action) = pipeline_step(
        PipelineState::Storing,
        PipelineEvent::StoreOutcome(Err(timeout)),
    );
    match state {
        PipelineState::Failed(PipelineError::Storage(StorageError::Other(c))) => {
            assert_eq!(c.message, "simulated timeout")
        }
        _ => panic!("a store failure must surface unchanged"),
    }
    assert!(matches!(action, PipelineAction::Stop));
}
