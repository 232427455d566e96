//! Client side, inbound: sorts the response frames of one call into the
//! metadata, the thumbnail sink and the output sink.

use vstd::prelude::*;
use vstd::slice::slice_to_vec;
use crate::error::ServiceError;
use crate::frame::{
    content_payload, last_metadata, lemma_response_frame_appended, response_views,
    thumbnail_payload, ResponseFrame, ResponseFrameView, VideoMetadata,
};

verus! {

/// What the caller does with one response frame.
#[derive(Debug)]
pub enum SinkAction {
    /// The frame carried metadata: nothing is written.
    Nothing,
    /// Append the bytes to the thumbnail sink.
    AppendThumbnail(Vec<u8>),
    /// Append the bytes to the output sink.
    AppendOutput(Vec<u8>),
}

/// Mathematical value of a [`SinkAction`].
pub ghost enum SinkActionView {
    Nothing,
    AppendThumbnail(Seq<u8>),
    AppendOutput(Seq<u8>),
}

impl View for SinkAction {
    type V = SinkActionView;

    open spec fn view(&self) -> SinkActionView {
        match self {
            SinkAction::Nothing => SinkActionView::Nothing,
            SinkAction::AppendThumbnail(b) => SinkActionView::AppendThumbnail(b@),
            SinkAction::AppendOutput(b) => SinkActionView::AppendOutput(b@),
        }
    }
}

/// The action that a frame asks for.
pub open spec fn action_for(frame: ResponseFrameView) -> SinkActionView {
    match frame {
        ResponseFrameView::Metadata(_) => SinkActionView::Nothing,
        ResponseFrameView::ThumbnailChunk(b) => SinkActionView::AppendThumbnail(b),
        ResponseFrameView::ContentChunk(b) => SinkActionView::AppendOutput(b),
    }
}

/// A completely received response.
#[derive(Debug)]
pub struct Received {
    pub metadata: VideoMetadata,
    pub thumbnail: Vec<u8>,
    pub output: Vec<u8>,
}

/// Per-call state of the client's inbound side.  Its value is the sequence of
/// frames consumed so far; the sinks hold that sequence's thumbnail and
/// content payload once every action handed out was carried out.
pub struct Demultiplexer {
    metadata: Option<VideoMetadata>,
    seen: Ghost<Seq<ResponseFrameView>>,
}

impl View for Demultiplexer {
    type V = Seq<ResponseFrameView>;

    closed spec fn view(&self) -> Seq<ResponseFrameView> {
        self.seen@
    }
}

impl Demultiplexer {
    /// The metadata on record is the last one that arrived.
    #[verifier::type_invariant]
    closed spec fn records_last_metadata(&self) -> bool {
        self.metadata == last_metadata(self.seen@)
    }

    /// A demultiplexer that has seen no frame.
    pub fn new() -> (demux: Demultiplexer)
        ensures
            demux@ == Seq::<ResponseFrameView>::empty(),
    {
        Demultiplexer { metadata: None, seen: Ghost(Seq::empty()) }
    }

    /// Consumes one response frame of any kind, in any order: metadata
    /// replaces what was recorded before, payload is handed on to its sink.
    pub fn on_frame(&mut self, frame: ResponseFrame) -> (action: SinkAction)
        ensures
            final(self)@ == old(self)@.push(frame@),
            action@ == action_for(frame@),
    {
        proof {
            use_type_invariant(&*self);
            lemma_response_frame_appended(self.seen@, frame@);
        }
        let ghost seen = self.seen@.push(frame@);
        match frame {
            ResponseFrame::Metadata(m) => {
                *self = Demultiplexer { metadata: Some(m), seen: Ghost(seen) };
                SinkAction::Nothing
            },
            ResponseFrame::ThumbnailChunk(bytes) => {
                *self = Demultiplexer { metadata: self.metadata, seen: Ghost(seen) };
                SinkAction::AppendThumbnail(bytes)
            },
            ResponseFrame::ContentChunk(bytes) => {
                *self = Demultiplexer { metadata: self.metadata, seen: Ghost(seen) };
                SinkAction::AppendOutput(bytes)
            },
        }
    }

    /// Ends reception when the response stream has ended.
    ///
    /// Fails with `IncompleteResponse` exactly where no metadata frame ever
    /// arrived; otherwise gives the last metadata that did.
    pub fn finish(self) -> (outcome: Result<VideoMetadata, ServiceError>)
        ensures
            match outcome {
                Ok(metadata) => last_metadata(self@) == Some(metadata),
                Err(e) => last_metadata(self@) is None && e == ServiceError::IncompleteResponse,
            },
    {
        proof {
            use_type_invariant(&self);
        }
        match self.metadata {
            Some(metadata) => Ok(metadata),
            None => Err(ServiceError::IncompleteResponse),
        }
    }
}

/// A frame equal to the given one.
fn duplicate(frame: &ResponseFrame) -> (copy: ResponseFrame)
    ensures
        copy@ == frame@,
{
    match frame {
        ResponseFrame::Metadata(m) => ResponseFrame::Metadata(*m),
        ResponseFrame::ThumbnailChunk(b) => ResponseFrame::ThumbnailChunk(slice_to_vec(b.as_slice())),
        ResponseFrame::ContentChunk(b) => ResponseFrame::ContentChunk(slice_to_vec(b.as_slice())),
    }
}

/// Receives a whole response held in memory.
///
/// Succeeds exactly where the sequence holds a metadata frame, with the last
/// such metadata and with both payloads whole and in order of arrival.
pub fn consume(frames: &[ResponseFrame]) -> (outcome: Result<Received, ServiceError>)
    ensures
        match outcome {
            Ok(received) => {
                &&& last_metadata(response_views(frames@)) == Some(received.metadata)
                &&& received.thumbnail@ == thumbnail_payload(response_views(frames@))
                &&& received.output@ == content_payload(response_views(frames@))
            },
            Err(e) => {
                &&& last_metadata(response_views(frames@)) is None
                &&& e == ServiceError::IncompleteResponse
            },
        },
{
    let mut demux = Demultiplexer::new();
    let mut thumbnail: Vec<u8> = Vec::new();
    let mut output: Vec<u8> = Vec::new();
    let total: usize = frames.len();
    let mut i: usize = 0;
    proof {
        assert(response_views(frames@).take(0) =~= Seq::<ResponseFrameView>::empty());
    }
    while i < total
        invariant
            total == frames@.len(),
            i <= total,
            demux@ == response_views(frames@).take(i as int),
            thumbnail@ == thumbnail_payload(demux@),
            output@ == content_payload(demux@),
        decreases total - i,
    {
        proof {
            lemma_response_frame_appended(demux@, frames@[i as int]@);
            assert(response_views(frames@).take(i + 1) =~= response_views(frames@).take(
                i as int,
            ).push(frames@[i as int]@));
        }
        match demux.on_frame(duplicate(&frames[i])) {
            SinkAction::Nothing => {
                assert(thumbnail@ + Seq::<u8>::empty() =~= thumbnail@);
                assert(output@ + Seq::<u8>::empty() =~= output@);
            },
            SinkAction::AppendThumbnail(mut bytes) => {
                assert(output@ + Seq::<u8>::empty() =~= output@);
                thumbnail.append(&mut bytes);
            },
            SinkAction::AppendOutput(mut bytes) => {
                assert(thumbnail@ + Seq::<u8>::empty() =~= thumbnail@);
                output.append(&mut bytes);
            },
        }
        i = i + 1;
    }
    proof {
        assert(response_views(frames@).take(total as int) =~= response_views(frames@));
    }
    match demux.finish() {
        Ok(metadata) => Ok(Received { metadata, thumbnail, output }),
        Err(e) => Err(e),
    }
}

} // verus!
