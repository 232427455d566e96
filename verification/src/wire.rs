//! The response message as the transport carries it, and its reading as
//! frames.

use vstd::prelude::*;
use crate::chunking::{lemma_join_concat, lemma_join_empty_pieces, lemma_join_single};
use crate::frame::{
    content_parts, content_payload, last_metadata, response_views, thumbnail_parts,
    thumbnail_payload, ResponseFrame, ResponseFrameView, VideoMetadata,
};

verus! {

/// A response message with all of its fields: metadata that may be absent,
/// and two byte fields that are empty where the message carries none.
#[derive(Debug)]
pub struct ResponseMessage {
    pub metadata: Option<VideoMetadata>,
    pub thumbnail: Vec<u8>,
    pub transcoded_chunk: Vec<u8>,
}

/// Mathematical value of a [`ResponseMessage`].
pub ghost struct ResponseMessageView {
    pub metadata: Option<VideoMetadata>,
    pub thumbnail: Seq<u8>,
    pub transcoded_chunk: Seq<u8>,
}

impl View for ResponseMessage {
    type V = ResponseMessageView;

    open spec fn view(&self) -> ResponseMessageView {
        ResponseMessageView {
            metadata: self.metadata,
            thumbnail: self.thumbnail@,
            transcoded_chunk: self.transcoded_chunk@,
        }
    }
}

/// The message that carries one frame and nothing else.
pub open spec fn message_of(frame: ResponseFrameView) -> ResponseMessageView {
    match frame {
        ResponseFrameView::Metadata(m) => ResponseMessageView {
            metadata: Some(m),
            thumbnail: Seq::empty(),
            transcoded_chunk: Seq::empty(),
        },
        ResponseFrameView::ThumbnailChunk(b) => ResponseMessageView {
            metadata: None,
            thumbnail: b,
            transcoded_chunk: Seq::empty(),
        },
        ResponseFrameView::ContentChunk(b) => ResponseMessageView {
            metadata: None,
            thumbnail: Seq::empty(),
            transcoded_chunk: b,
        },
    }
}

/// The metadata frame of a message, if it has metadata.
pub open spec fn metadata_frame_of(message: ResponseMessageView) -> Seq<ResponseFrameView> {
    match message.metadata {
        Some(m) => seq![ResponseFrameView::Metadata(m)],
        None => Seq::empty(),
    }
}

/// The thumbnail frame of a message, if it has thumbnail bytes.
pub open spec fn thumbnail_frame_of(message: ResponseMessageView) -> Seq<ResponseFrameView> {
    if message.thumbnail.len() > 0 {
        seq![ResponseFrameView::ThumbnailChunk(message.thumbnail)]
    } else {
        Seq::empty()
    }
}

/// The content frame of a message, if it has content bytes.
pub open spec fn content_frame_of(message: ResponseMessageView) -> Seq<ResponseFrameView> {
    if message.transcoded_chunk.len() > 0 {
        seq![ResponseFrameView::ContentChunk(message.transcoded_chunk)]
    } else {
        Seq::empty()
    }
}

/// The frames that a message stands for: its metadata, then its thumbnail
/// bytes, then its content bytes, each only where present.
pub open spec fn frames_of(message: ResponseMessageView) -> Seq<ResponseFrameView> {
    metadata_frame_of(message) + thumbnail_frame_of(message) + content_frame_of(message)
}

/// Reading a message as frames keeps both byte fields whole, and its metadata
/// where it has one.
pub proof fn lemma_frames_of_message(message: ResponseMessageView)
    ensures
        thumbnail_payload(frames_of(message)) == message.thumbnail,
        content_payload(frames_of(message)) == message.transcoded_chunk,
        last_metadata(frames_of(message)) == message.metadata,
{
    let frames = frames_of(message);
    let none = Seq::<u8>::empty();
    let thumbs = thumbnail_parts(frames);
    let contents = content_parts(frames);
    let front_t = thumbnail_parts(metadata_frame_of(message));
    let front_c = content_parts(metadata_frame_of(message) + thumbnail_frame_of(message));
    let mid_t = thumbnail_parts(thumbnail_frame_of(message));
    let back_t = thumbnail_parts(content_frame_of(message));
    let back_c = content_parts(content_frame_of(message));
    assert(thumbs =~= (front_t + mid_t) + back_t);
    assert(contents =~= front_c + back_c);
    lemma_join_concat(front_t + mid_t, back_t);
    lemma_join_concat(front_t, mid_t);
    lemma_join_concat(front_c, back_c);
    lemma_join_empty_pieces(front_t);
    lemma_join_empty_pieces(back_t);
    lemma_join_empty_pieces(front_c);
    if message.thumbnail.len() > 0 {
        assert(mid_t =~= seq![message.thumbnail]);
        lemma_join_single(message.thumbnail);
    } else {
        lemma_join_empty_pieces(mid_t);
    }
    if message.transcoded_chunk.len() > 0 {
        assert(back_c =~= seq![message.transcoded_chunk]);
        lemma_join_single(message.transcoded_chunk);
    } else {
        lemma_join_empty_pieces(back_c);
    }
    assert((none + message.thumbnail) + none =~= message.thumbnail);
    assert(none + message.transcoded_chunk =~= message.transcoded_chunk);
    assert(message.thumbnail.len() == 0 ==> message.thumbnail =~= none);
    assert(message.transcoded_chunk.len() == 0 ==> message.transcoded_chunk =~= none);
    lemma_last_metadata_of_message(message);
}

/// The metadata of a message is the last, and only, metadata of its frames.
proof fn lemma_last_metadata_of_message(message: ResponseMessageView)
    ensures
        last_metadata(frames_of(message)) == message.metadata,
{
    let head = metadata_frame_of(message);
    let with_thumbnail = head + thumbnail_frame_of(message);
    let frames = frames_of(message);
    assert(last_metadata(Seq::<ResponseFrameView>::empty()) == None::<VideoMetadata>);
    if message.metadata is Some {
        assert(head.drop_last() =~= Seq::<ResponseFrameView>::empty());
    }
    assert(last_metadata(head) == message.metadata);
    if message.thumbnail.len() > 0 {
        assert(with_thumbnail.drop_last() =~= head);
    } else {
        assert(with_thumbnail =~= head);
    }
    assert(last_metadata(with_thumbnail) == message.metadata);
    if message.transcoded_chunk.len() > 0 {
        assert(frames.drop_last() =~= with_thumbnail);
    } else {
        assert(frames =~= with_thumbnail);
    }
}

impl ResponseFrame {
    /// The message that carries this frame alone.
    pub fn into_message(self) -> (message: ResponseMessage)
        ensures
            message@ == message_of(self@),
    {
        match self {
            ResponseFrame::Metadata(m) => ResponseMessage {
                metadata: Some(m),
                thumbnail: Vec::new(),
                transcoded_chunk: Vec::new(),
            },
            ResponseFrame::ThumbnailChunk(b) => ResponseMessage {
                metadata: None,
                thumbnail: b,
                transcoded_chunk: Vec::new(),
            },
            ResponseFrame::ContentChunk(b) => ResponseMessage {
                metadata: None,
                thumbnail: Vec::new(),
                transcoded_chunk: b,
            },
        }
    }
}

impl ResponseMessage {
    /// Reads the message as frames, one for each field that is present.
    pub fn into_frames(self) -> (frames: Vec<ResponseFrame>)
        ensures
            response_views(frames@) == frames_of(self@),
    {
        let ResponseMessage { metadata, thumbnail, transcoded_chunk } = self;
        let mut frames: Vec<ResponseFrame> = Vec::new();
        match metadata {
            Some(m) => {
                frames.push(ResponseFrame::Metadata(m));
            },
            None => {},
        }
        if thumbnail.len() > 0 {
            frames.push(ResponseFrame::ThumbnailChunk(thumbnail));
        }
        if transcoded_chunk.len() > 0 {
            frames.push(ResponseFrame::ContentChunk(transcoded_chunk));
        }
        assert(response_views(frames@) =~= frames_of(self@));
        frames
    }
}

} // verus!
