use ffservice::demux::{consume, Demultiplexer, SinkAction};
use ffservice::emitter::{content, emit, preamble, Emitter};
use ffservice::error::ServiceError;
use ffservice::frame::{ResponseFrame, VideoMetadata, CHUNK_SIZE};
use ffservice::wire::ResponseMessage;

fn meta(width: i32, height: i32, duration_seconds: i64) -> VideoMetadata {
    VideoMetadata { width, height, duration_seconds }
}

fn pattern(len: usize) -> Vec<u8> {
    (0..len).map(|i| (i * 17 + i / 253) as u8).collect()
}

fn content_of(frames: &[ResponseFrame]) -> Vec<u8> {
    let mut all = Vec::new();
    for f in frames {
        if let ResponseFrame::ContentChunk(b) = f {
            all.extend_from_slice(b);
        }
    }
    all
}

fn thumbnail_of(frames: &[ResponseFrame]) -> Vec<u8> {
    let mut all = Vec::new();
    for f in frames {
        if let ResponseFrame::ThumbnailChunk(b) = f {
            all.extend_from_slice(b);
        }
    }
    all
}

#[test]
fn emitted_stream_is_metadata_thumbnail_then_content() {
    let output = pattern(2 * CHUNK_SIZE + 5);
    let thumbnail = pattern(800 * 600 * 3);
    let frames = emit(meta(1280, 720, 10), thumbnail.clone(), &output);
    assert_eq!(frames.len(), 5);
    assert!(matches!(&frames[0], ResponseFrame::Metadata(m) if *m == meta(1280, 720, 10)));
    assert!(matches!(&frames[1], ResponseFrame::ThumbnailChunk(b) if *b == thumbnail));
    let sizes: Vec<usize> = frames[2..]
        .iter()
        .map(|f| match f {
            ResponseFrame::ContentChunk(b) => b.len(),
            _ => panic!("only content follows the preamble"),
        })
        .collect();
    assert_eq!(sizes, vec![CHUNK_SIZE, CHUNK_SIZE, 5]);
}

#[test]
fn emitted_payloads_concatenate_to_the_inputs() {
    let output = pattern(CHUNK_SIZE + 123);
    let thumbnail = pattern(4321);
    let frames = emit(meta(1, 2, 3), thumbnail.clone(), &output);
    assert_eq!(content_of(&frames), output);
    assert_eq!(thumbnail_of(&frames), thumbnail);
}

#[test]
fn emitted_stream_has_exactly_one_metadata_frame_in_front() {
    let frames = emit(meta(640, 480, 7), vec![1, 2, 3], &pattern(3 * CHUNK_SIZE));
    let count = frames.iter().filter(|f| matches!(f, ResponseFrame::Metadata(_))).count();
    assert_eq!(count, 1);
    assert!(matches!(frames[0], ResponseFrame::Metadata(_)));
}

#[test]
fn empty_thumbnail_gets_no_frame() {
    let frames = emit(meta(640, 480, 7), Vec::new(), &[1, 2, 3]);
    assert_eq!(frames.len(), 2);
    assert!(matches!(&frames[1], ResponseFrame::ContentChunk(b) if *b == vec![1, 2, 3]));
}

#[test]
fn empty_output_gets_no_content_frame() {
    let frames = emit(meta(640, 480, 7), vec![5], &[]);
    assert_eq!(frames.len(), 2);
    assert!(matches!(&frames[1], ResponseFrame::ThumbnailChunk(b) if *b == vec![5]));
    let bare = emit(meta(640, 480, 7), Vec::new(), &[]);
    assert_eq!(bare.len(), 1);
}

#[test]
fn output_of_exactly_one_chunk_gets_one_content_frame() {
    let output = pattern(CHUNK_SIZE);
    let frames = emit(meta(1, 1, 1), Vec::new(), &output);
    assert_eq!(frames.len(), 2);
    assert_eq!(content_of(&frames), output);
}

#[test]
fn preamble_is_metadata_then_whole_thumbnail() {
    let frames = preamble(meta(3, 4, 5), vec![7, 7, 7]);
    assert_eq!(frames.len(), 2);
    assert!(matches!(&frames[0], ResponseFrame::Metadata(m) if *m == meta(3, 4, 5)));
    assert!(matches!(&frames[1], ResponseFrame::ThumbnailChunk(b) if *b == vec![7, 7, 7]));
    assert_eq!(preamble(meta(3, 4, 5), Vec::new()).len(), 1);
}

#[test]
fn zero_length_read_ends_the_content_phase() {
    assert!(content(Vec::new()).is_none());
    assert!(matches!(content(vec![4, 2]), Some(ResponseFrame::ContentChunk(b)) if b == vec![4, 2]));
}

#[test]
fn consuming_an_emitted_stream_gives_back_the_inputs() {
    let output = pattern(2 * CHUNK_SIZE + 99);
    let thumbnail = pattern(1000);
    let frames = emit(meta(1920, 1080, 42), thumbnail.clone(), &output);
    let received = consume(&frames).expect("an emitted stream has metadata");
    assert_eq!(received.metadata, meta(1920, 1080, 42));
    assert_eq!(received.thumbnail, thumbnail);
    assert_eq!(received.output, output);
}

#[test]
fn response_without_metadata_is_incomplete() {
    assert_eq!(consume(&[]).err(), Some(ServiceError::IncompleteResponse));
    let frames = vec![ResponseFrame::ContentChunk(vec![1]), ResponseFrame::ThumbnailChunk(vec![2])];
    assert_eq!(consume(&frames).err(), Some(ServiceError::IncompleteResponse));
    assert_eq!(Demultiplexer::new().finish().err(), Some(ServiceError::IncompleteResponse));
}

#[test]
fn last_metadata_wins() {
    let frames = vec![
        ResponseFrame::Metadata(meta(1, 1, 1)),
        ResponseFrame::ContentChunk(vec![1]),
        ResponseFrame::Metadata(meta(2, 2, 2)),
    ];
    assert_eq!(consume(&frames).unwrap().metadata, meta(2, 2, 2));
}

#[test]
fn interleaved_payload_is_sorted_into_its_sinks() {
    let frames = vec![
        ResponseFrame::Metadata(meta(9, 9, 9)),
        ResponseFrame::ContentChunk(vec![1, 2]),
        ResponseFrame::ThumbnailChunk(vec![10]),
        ResponseFrame::ContentChunk(vec![]),
        ResponseFrame::ThumbnailChunk(vec![11, 12]),
        ResponseFrame::ContentChunk(vec![3]),
    ];
    let received = consume(&frames).unwrap();
    assert_eq!(received.output, vec![1, 2, 3]);
    assert_eq!(received.thumbnail, vec![10, 11, 12]);
}

#[test]
fn payload_before_metadata_is_tolerated() {
    let frames = vec![ResponseFrame::ContentChunk(vec![1]), ResponseFrame::Metadata(meta(5, 6, 7))];
    let received = consume(&frames).unwrap();
    assert_eq!(received.metadata, meta(5, 6, 7));
    assert_eq!(received.output, vec![1]);
    assert!(received.thumbnail.is_empty());
}

#[test]
fn demultiplexer_hands_each_frame_to_its_sink() {
    let mut demux = Demultiplexer::new();
    assert!(matches!(demux.on_frame(ResponseFrame::Metadata(meta(1, 2, 3))), SinkAction::Nothing));
    assert!(matches!(
        demux.on_frame(ResponseFrame::ThumbnailChunk(vec![1])),
        SinkAction::AppendThumbnail(b) if b == vec![1]
    ));
    assert!(matches!(
        demux.on_frame(ResponseFrame::ContentChunk(vec![2, 3])),
        SinkAction::AppendOutput(b) if b == vec![2, 3]
    ));
    assert_eq!(demux.finish(), Ok(meta(1, 2, 3)));
}

#[test]
fn message_with_every_field_reads_as_three_frames() {
    let message = ResponseMessage {
        metadata: Some(meta(4, 5, 6)),
        thumbnail: vec![1, 2],
        transcoded_chunk: vec![3],
    };
    let frames = message.into_frames();
    assert_eq!(frames.len(), 3);
    assert!(matches!(&frames[0], ResponseFrame::Metadata(m) if *m == meta(4, 5, 6)));
    assert!(matches!(&frames[1], ResponseFrame::ThumbnailChunk(b) if *b == vec![1, 2]));
    assert!(matches!(&frames[2], ResponseFrame::ContentChunk(b) if *b == vec![3]));
}

#[test]
fn message_with_empty_fields_reads_as_no_frame() {
    let message = ResponseMessage { metadata: None, thumbnail: vec![], transcoded_chunk: vec![] };
    assert!(message.into_frames().is_empty());
    let message = ResponseMessage { metadata: None, thumbnail: vec![], transcoded_chunk: vec![8] };
    let frames = message.into_frames();
    assert_eq!(frames.len(), 1);
    assert!(matches!(&frames[0], ResponseFrame::ContentChunk(b) if *b == vec![8]));
}

#[test]
fn frame_as_message_populates_one_field() {
    let m = ResponseFrame::Metadata(meta(1, 2, 3)).into_message();
    assert_eq!(m.metadata, Some(meta(1, 2, 3)));
    assert!(m.thumbnail.is_empty() && m.transcoded_chunk.is_empty());
    let t = ResponseFrame::ThumbnailChunk(vec![1]).into_message();
    assert_eq!((t.metadata, t.thumbnail, t.transcoded_chunk), (None, vec![1], vec![]));
    let c = ResponseFrame::ContentChunk(vec![2]).into_message();
    assert_eq!((c.metadata, c.thumbnail, c.transcoded_chunk), (None, vec![], vec![2]));
}

fn kinds(frames: &[ResponseFrame]) -> Vec<char> {
    frames
        .iter()
        .map(|f| match f {
            ResponseFrame::Metadata(_) => 'm',
            ResponseFrame::ThumbnailChunk(_) => 't',
            ResponseFrame::ContentChunk(_) => 'c',
        })
        .collect()
}

#[test]
fn emitter_hands_out_preamble_then_one_frame_per_read() {
    let mut emitter = Emitter::new(meta(8, 6, 4), vec![1, 2]);
    let mut sent = emitter.begin();
    assert_eq!(kinds(&sent), vec!['m', 't']);
    for read in [vec![10u8, 11], vec![12], vec![13, 14, 15]] {
        let emission = emitter.on_read(read);
        assert!(!emission.done);
        assert_eq!(kinds(&emission.frames), vec!['c']);
        sent.extend(emission.frames);
    }
    let last = emitter.on_read(Vec::new());
    assert!(last.done);
    assert!(last.frames.is_empty());
    let received = consume(&sent).unwrap();
    assert_eq!(received.metadata, meta(8, 6, 4));
    assert_eq!(received.thumbnail, vec![1, 2]);
    assert_eq!(received.output, vec![10, 11, 12, 13, 14, 15]);
}

#[test]
fn emitter_sends_the_preamble_once() {
    let mut emitter = Emitter::new(meta(8, 6, 4), vec![1]);
    assert_eq!(emitter.begin().len(), 2);
    assert!(emitter.begin().is_empty());
    let emission = emitter.on_read(vec![5]);
    assert_eq!(kinds(&emission.frames), vec!['c']);
}

#[test]
fn emitter_puts_the_preamble_before_a_read_that_comes_first() {
    let mut emitter = Emitter::new(meta(8, 6, 4), vec![1]);
    let emission = emitter.on_read(vec![5, 6]);
    assert_eq!(kinds(&emission.frames), vec!['m', 't', 'c']);
    assert!(!emission.done);
    let mut emitter = Emitter::new(meta(8, 6, 4), Vec::new());
    let emission = emitter.on_read(Vec::new());
    assert_eq!(kinds(&emission.frames), vec!['m']);
    assert!(emission.done);
}

#[test]
fn emitter_sends_nothing_after_the_end() {
    let mut emitter = Emitter::new(meta(8, 6, 4), Vec::new());
    assert_eq!(emitter.begin().len(), 1);
    assert!(emitter.on_read(Vec::new()).done);
    let late = emitter.on_read(vec![1, 2, 3]);
    assert!(late.done);
    assert!(late.frames.is_empty());
    assert!(emitter.begin().is_empty());
}
