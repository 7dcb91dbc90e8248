use proxy_server::recv_half::{ChunkPoll, ReadPoll, SlipstreamRecvHalf};

fn read(half: &mut SlipstreamRecvHalf, room: usize, chunks: &mut Vec<Vec<u8>>) -> Option<Vec<u8>> {
    if let Some(bytes) = half.read_pending(room) {
        return Some(bytes);
    }
    let poll = if chunks.is_empty() {
        ChunkPoll::Closed
    } else {
        ChunkPoll::Chunk(chunks.remove(0))
    };
    match half.read_chunk(poll, room) {
        ReadPoll::Ready(bytes) => Some(bytes),
        ReadPoll::Pending => None,
    }
}

#[test]
fn reads_split_chunks_and_keep_their_order() {
    let mut half = SlipstreamRecvHalf::new();
    let mut chunks = vec![vec![1, 2, 3, 4, 5], vec![6], vec![7, 8]];
    assert_eq!(read(&mut half, 2, &mut chunks), Some(vec![1, 2]));
    assert_eq!(read(&mut half, 2, &mut chunks), Some(vec![3, 4]));
    assert_eq!(read(&mut half, 9, &mut chunks), Some(vec![5]));
    assert_eq!(read(&mut half, 9, &mut chunks), Some(vec![6]));
    assert_eq!(read(&mut half, 2, &mut chunks), Some(vec![7, 8]));
    assert_eq!(read(&mut half, 2, &mut chunks), Some(vec![]));
}

#[test]
fn empty_chunk_and_closed_queue_end_the_stream() {
    let mut half = SlipstreamRecvHalf::new();
    let mut chunks = vec![vec![], vec![9]];
    assert_eq!(read(&mut half, 4, &mut chunks), Some(vec![]));
    assert_eq!(read(&mut half, 4, &mut chunks), Some(vec![9]));
    assert_eq!(read(&mut half, 4, &mut chunks), Some(vec![]));
}

#[test]
fn nothing_to_read_yet() {
    let mut half = SlipstreamRecvHalf::new();
    assert_eq!(half.read_pending(4), None);
    assert!(matches!(
        half.read_chunk(ChunkPoll::Pending, 4),
        ReadPoll::Pending
    ));
}

#[test]
fn reader_without_room_leaves_the_chunk() {
    let mut half = SlipstreamRecvHalf::new();
    let mut chunks = vec![vec![1, 2]];
    assert_eq!(read(&mut half, 0, &mut chunks), Some(vec![]));
    assert_eq!(read(&mut half, 0, &mut chunks), Some(vec![]));
    assert_eq!(read(&mut half, 5, &mut chunks), Some(vec![1, 2]));
}
