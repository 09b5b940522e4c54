use webrtc_chat::chunker::{Chunk, FileChunker};
use webrtc_chat::file_sharing::{FileHandler, FileInfo, FileTooLarge};

fn payload(n: usize) -> Vec<u8> {
    (0..n).map(|i| (i * 7 % 251) as u8).collect()
}

#[test]
fn split_tags_every_chunk() {
    let data = payload(10);
    let chunks = FileChunker::split(9, &data, 4);
    assert_eq!(chunks.len(), 3);
    assert_eq!(chunks[0], Chunk { transfer_id: 9, index: 0, total_chunks: 3, data: data[0..4].to_vec() });
    assert_eq!(chunks[1], Chunk { transfer_id: 9, index: 1, total_chunks: 3, data: data[4..8].to_vec() });
    assert_eq!(chunks[2], Chunk { transfer_id: 9, index: 2, total_chunks: 3, data: data[8..10].to_vec() });
}

#[test]
fn split_of_an_exact_multiple_has_no_empty_chunk() {
    let data = payload(8);
    let chunks = FileChunker::split(1, &data, 4);
    assert_eq!(chunks.len(), 2);
    assert_eq!(chunks[1].data, data[4..8].to_vec());
}

#[test]
fn split_of_an_empty_payload_is_one_empty_chunk() {
    let chunks = FileChunker::split(1, &[], 4);
    assert_eq!(chunks, vec![Chunk { transfer_id: 1, index: 0, total_chunks: 1, data: vec![] }]);
    let mut chunker = FileChunker::new();
    assert_eq!(chunker.ingest(chunks[0].clone()), Some(vec![]));
}

#[test]
fn three_chunks_delivered_as_2_0_1() {
    let data = payload(10);
    let chunks = FileChunker::split(5, &data, 4);
    assert_eq!(chunks.len(), 3);
    let mut chunker = FileChunker::new();
    assert_eq!(chunker.ingest(chunks[2].clone()), None);
    assert_eq!(chunker.ingest(chunks[0].clone()), None);
    assert_eq!(chunker.pending(), 1);
    assert_eq!(chunker.ingest(chunks[1].clone()), Some(data));
    assert_eq!(chunker.pending(), 0);
}

#[test]
fn every_order_of_four_chunks_gives_the_payload_once() {
    let data = payload(13);
    let chunks = FileChunker::split(2, &data, 4);
    assert_eq!(chunks.len(), 4);
    let mut orders: Vec<Vec<usize>> = Vec::new();
    for a in 0..4 {
        for b in 0..4 {
            for c in 0..4 {
                for d in 0..4 {
                    let order = vec![a, b, c, d];
                    let mut seen = order.clone();
                    seen.sort();
                    seen.dedup();
                    if seen.len() == 4 {
                        orders.push(order);
                    }
                }
            }
        }
    }
    assert_eq!(orders.len(), 24);
    for order in orders {
        let mut chunker = FileChunker::new();
        for (k, i) in order.iter().enumerate() {
            let r = chunker.ingest(chunks[*i].clone());
            if k < 3 {
                assert_eq!(r, None);
            } else {
                assert_eq!(r, Some(data.clone()));
            }
        }
        assert_eq!(chunker.pending(), 0);
    }
}

#[test]
fn duplicates_do_not_complete_a_transfer() {
    let data = payload(9);
    let chunks = FileChunker::split(3, &data, 3);
    let mut chunker = FileChunker::new();
    for i in [0usize, 0, 1, 1, 0, 1] {
        assert_eq!(chunker.ingest(chunks[i].clone()), None);
    }
    assert_eq!(chunker.ingest(chunks[2].clone()), Some(data));
}

#[test]
fn a_duplicate_overwrites_its_slot() {
    let mut chunker = FileChunker::new();
    let first = Chunk { transfer_id: 1, index: 0, total_chunks: 2, data: vec![1, 1] };
    let again = Chunk { transfer_id: 1, index: 0, total_chunks: 2, data: vec![2, 2] };
    let second = Chunk { transfer_id: 1, index: 1, total_chunks: 2, data: vec![3] };
    assert_eq!(chunker.ingest(first), None);
    assert_eq!(chunker.ingest(again), None);
    assert_eq!(chunker.ingest(second), Some(vec![2, 2, 3]));
}

#[test]
fn transfers_are_kept_apart() {
    let one = payload(6);
    let two: Vec<u8> = vec![9; 5];
    let a = FileChunker::split(1, &one, 3);
    let b = FileChunker::split(2, &two, 3);
    let mut chunker = FileChunker::new();
    assert_eq!(chunker.ingest(a[1].clone()), None);
    assert_eq!(chunker.ingest(b[0].clone()), None);
    assert_eq!(chunker.pending(), 2);
    assert_eq!(chunker.ingest(a[0].clone()), Some(one));
    assert_eq!(chunker.pending(), 1);
    assert_eq!(chunker.ingest(b[1].clone()), Some(two));
    assert_eq!(chunker.pending(), 0);
}

#[test]
fn chunks_that_cannot_be_placed_are_ignored() {
    let mut chunker = FileChunker::new();
    assert_eq!(chunker.ingest(Chunk { transfer_id: 1, index: 2, total_chunks: 2, data: vec![1] }), None);
    assert_eq!(chunker.ingest(Chunk { transfer_id: 1, index: 0, total_chunks: 0, data: vec![1] }), None);
    assert_eq!(chunker.pending(), 0);
    assert_eq!(chunker.ingest(Chunk { transfer_id: 1, index: 0, total_chunks: 2, data: vec![1] }), None);
    assert_eq!(chunker.ingest(Chunk { transfer_id: 1, index: 1, total_chunks: 3, data: vec![2] }), None);
    assert_eq!(chunker.pending(), 1);
    assert_eq!(chunker.ingest(Chunk { transfer_id: 1, index: 1, total_chunks: 2, data: vec![3] }), Some(vec![1, 3]));
}

#[test]
fn a_finished_transfer_starts_anew() {
    let data = payload(4);
    let chunks = FileChunker::split(8, &data, 2);
    let mut chunker = FileChunker::new();
    assert_eq!(chunker.ingest(chunks[0].clone()), None);
    assert_eq!(chunker.ingest(chunks[1].clone()), Some(data.clone()));
    assert_eq!(chunker.ingest(chunks[1].clone()), None);
    assert_eq!(chunker.pending(), 1);
    chunker.clear();
    assert_eq!(chunker.pending(), 0);
}

#[test]
fn chunk_file_and_reconstruct_file() {
    let info = FileInfo { name: "a.bin".to_string(), size: 10, file_type: "application/octet-stream".to_string(), data: payload(10) };
    let chunks = FileHandler::chunk_file(&info, 4);
    assert_eq!(chunks, vec![info.data[0..4].to_vec(), info.data[4..8].to_vec(), info.data[8..10].to_vec()]);
    assert_eq!(FileHandler::reconstruct_file(chunks), info.data);
    let empty = FileInfo { name: String::new(), size: 0, file_type: String::new(), data: vec![] };
    assert_eq!(FileHandler::chunk_file(&empty, 4), Vec::<Vec<u8>>::new());
    assert_eq!(FileHandler::reconstruct_file(vec![]), Vec::<u8>::new());
}

#[test]
fn validate_file_compares_with_megabytes() {
    assert_eq!(FileHandler::validate_file(0, 0), Ok(()));
    assert_eq!(FileHandler::validate_file(1, 0), Err(FileTooLarge { size: 1, max_size_mb: 0 }));
    assert_eq!(FileHandler::validate_file(5 * 1024 * 1024, 5), Ok(()));
    assert_eq!(
        FileHandler::validate_file(5 * 1024 * 1024 + 1, 5),
        Err(FileTooLarge { size: 5 * 1024 * 1024 + 1, max_size_mb: 5 })
    );
    assert_eq!(FileHandler::validate_file(u64::MAX, u64::MAX), Ok(()));
}

#[test]
fn is_image_looks_at_the_type() {
    let file = |t: &str| FileInfo { name: String::new(), size: 0, file_type: t.to_string(), data: vec![] };
    assert!(file("image/png").is_image());
    assert!(file("image/").is_image());
    assert!(!file("image").is_image());
    assert!(!file("text/plain").is_image());
    assert!(!file("").is_image());
    assert!(!file("Image/png").is_image());
}

#[test]
fn get_data_url_holds_type_and_base64() {
    let file = FileInfo { name: "h".to_string(), size: 5, file_type: "text/plain".to_string(), data: b"hello".to_vec() };
    assert_eq!(file.get_data_url(), Some("data:text/plain;base64,aGVsbG8=".to_string()));
}
