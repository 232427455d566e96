//! Wire frames of both directions and the payload they carry in sequence.

use vstd::prelude::*;
use crate::chunking::join_chunks;

verus! {

/// Largest payload, in bytes, that one chunk frame carries.
pub const CHUNK_SIZE: usize = 1048576;

/// Properties of the selected video stream, as reported to the client.
#[derive(Clone, Copy, Debug, PartialEq, Eq, Structural)]
pub struct VideoMetadata {
    pub width: i32,
    pub height: i32,
    pub duration_seconds: i64,
}

impl VideoMetadata {
    /// The duration as the 32-bit field of the response message carries it:
    /// unchanged where it fits, its low 32 bits otherwise.
    pub fn wire_duration(&self) -> (seconds: i32)
        ensures
            seconds == self.duration_seconds as i32,
            i32::MIN <= self.duration_seconds <= i32::MAX ==> seconds == self.duration_seconds,
    {
        #[verifier::truncate]
        (self.duration_seconds as i32)
    }
}

/// One message of the request stream: header fields, a payload chunk, or both.
///
/// An empty `extension` means that the frame names no file type; a
/// non-positive dimension means that it carries no target dimensions.
#[derive(Clone, Debug)]
pub struct RequestFrame {
    pub extension: String,
    pub target_width: i32,
    pub target_height: i32,
    pub chunk: Vec<u8>,
}

/// Mathematical value of a [`RequestFrame`].
pub ghost struct RequestFrameView {
    pub extension: Seq<char>,
    pub target_width: i32,
    pub target_height: i32,
    pub chunk: Seq<u8>,
}

impl View for RequestFrame {
    type V = RequestFrameView;

    open spec fn view(&self) -> RequestFrameView {
        RequestFrameView {
            extension: self.extension@,
            target_width: self.target_width,
            target_height: self.target_height,
            chunk: self.chunk@,
        }
    }
}

/// One message of the response stream, carrying exactly one kind of payload.
#[derive(Clone, Debug)]
pub enum ResponseFrame {
    Metadata(VideoMetadata),
    ThumbnailChunk(Vec<u8>),
    ContentChunk(Vec<u8>),
}

/// Mathematical value of a [`ResponseFrame`].
pub ghost enum ResponseFrameView {
    Metadata(VideoMetadata),
    ThumbnailChunk(Seq<u8>),
    ContentChunk(Seq<u8>),
}

impl View for ResponseFrame {
    type V = ResponseFrameView;

    open spec fn view(&self) -> ResponseFrameView {
        match self {
            ResponseFrame::Metadata(m) => ResponseFrameView::Metadata(*m),
            ResponseFrame::ThumbnailChunk(b) => ResponseFrameView::ThumbnailChunk(b@),
            ResponseFrame::ContentChunk(b) => ResponseFrameView::ContentChunk(b@),
        }
    }
}

/// The header frame that opens a request stream.
pub open spec fn header_frame(extension: Seq<char>, target_width: i32, target_height: i32)
    -> RequestFrameView {
    RequestFrameView { extension, target_width, target_height, chunk: Seq::empty() }
}

/// A request frame that carries payload only.
pub open spec fn chunk_frame(chunk: Seq<u8>) -> RequestFrameView {
    RequestFrameView { extension: Seq::empty(), target_width: 0, target_height: 0, chunk }
}

/// The chunk of each request frame, in order of arrival.
pub open spec fn request_chunks(frames: Seq<RequestFrameView>) -> Seq<Seq<u8>> {
    Seq::new(frames.len(), |i: int| frames[i].chunk)
}

/// All request payload in order of arrival.
pub open spec fn request_payload(frames: Seq<RequestFrameView>) -> Seq<u8> {
    join_chunks(request_chunks(frames))
}

/// The thumbnail bytes that one response frame contributes.
pub open spec fn thumbnail_part(frame: ResponseFrameView) -> Seq<u8> {
    match frame {
        ResponseFrameView::ThumbnailChunk(b) => b,
        _ => Seq::empty(),
    }
}

/// The content bytes that one response frame contributes.
pub open spec fn content_part(frame: ResponseFrameView) -> Seq<u8> {
    match frame {
        ResponseFrameView::ContentChunk(b) => b,
        _ => Seq::empty(),
    }
}

/// The thumbnail bytes of each response frame, in order.
pub open spec fn thumbnail_parts(frames: Seq<ResponseFrameView>) -> Seq<Seq<u8>> {
    Seq::new(frames.len(), |i: int| thumbnail_part(frames[i]))
}

/// The content bytes of each response frame, in order.
pub open spec fn content_parts(frames: Seq<ResponseFrameView>) -> Seq<Seq<u8>> {
    Seq::new(frames.len(), |i: int| content_part(frames[i]))
}

/// All thumbnail payload of a response sequence, in order.
pub open spec fn thumbnail_payload(frames: Seq<ResponseFrameView>) -> Seq<u8> {
    join_chunks(thumbnail_parts(frames))
}

/// All content payload of a response sequence, in order.
pub open spec fn content_payload(frames: Seq<ResponseFrameView>) -> Seq<u8> {
    join_chunks(content_parts(frames))
}

/// How many metadata frames a response sequence holds.
pub open spec fn metadata_count(frames: Seq<ResponseFrameView>) -> nat
    decreases frames.len(),
{
    if frames.len() == 0 {
        0
    } else if frames.last() is Metadata {
        metadata_count(frames.drop_last()) + 1
    } else {
        metadata_count(frames.drop_last())
    }
}

/// The metadata that stands last in a response sequence, if any does.
pub open spec fn last_metadata(frames: Seq<ResponseFrameView>) -> Option<VideoMetadata>
    decreases frames.len(),
{
    if frames.len() == 0 {
        None
    } else {
        match frames.last() {
            ResponseFrameView::Metadata(m) => Some(m),
            _ => last_metadata(frames.drop_last()),
        }
    }
}

/// Views of the frames of a request vector, in order.
pub open spec fn request_views(frames: Seq<RequestFrame>) -> Seq<RequestFrameView> {
    Seq::new(frames.len(), |i: int| frames[i]@)
}

/// Views of the frames of a response vector, in order.
pub open spec fn response_views(frames: Seq<ResponseFrame>) -> Seq<ResponseFrameView> {
    Seq::new(frames.len(), |i: int| frames[i]@)
}

/// One more response frame adds its parts to the end of each payload, and
/// replaces the metadata where it carries one.
pub proof fn lemma_response_frame_appended(frames: Seq<ResponseFrameView>, frame: ResponseFrameView)
    ensures
        thumbnail_payload(frames.push(frame)) == thumbnail_payload(frames) + thumbnail_part(frame),
        content_payload(frames.push(frame)) == content_payload(frames) + content_part(frame),
        last_metadata(frames.push(frame)) == match frame {
            ResponseFrameView::Metadata(m) => Some(m),
            _ => last_metadata(frames),
        },
        metadata_count(frames.push(frame)) == metadata_count(frames) + if frame is Metadata {
            1nat
        } else {
            0nat
        },
{
    let all = frames.push(frame);
    assert(all.drop_last() =~= frames);
    assert(thumbnail_parts(all).drop_last() =~= thumbnail_parts(frames));
    assert(content_parts(all).drop_last() =~= content_parts(frames));
}

/// A response sequence has a last metadata exactly where it holds a metadata
/// frame at all.
pub proof fn lemma_metadata_present(frames: Seq<ResponseFrameView>)
    ensures
        last_metadata(frames) is Some <==> metadata_count(frames) > 0,
    decreases frames.len(),
{
    if frames.len() > 0 {
        lemma_metadata_present(frames.drop_last());
    }
}

/// One more request frame adds its chunk to the end of the payload.
pub proof fn lemma_request_frame_appended(frames: Seq<RequestFrameView>, frame: RequestFrameView)
    ensures
        request_payload(frames.push(frame)) == request_payload(frames) + frame.chunk,
{
    assert(request_chunks(frames.push(frame)).drop_last() =~= request_chunks(frames));
}

} // verus!
