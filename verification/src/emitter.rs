//! Server side, outbound: the response frames of one call.

use vstd::prelude::*;
use crate::chunking::{
    join_chunks, lemma_join_concat, lemma_join_empty_pieces, lemma_join_single, lemma_split_join,
    lemma_split_step, split_chunks, take_piece,
};
use crate::frame::{
    content_parts, content_payload, last_metadata, metadata_count, response_views, thumbnail_parts,
    thumbnail_payload, ResponseFrame, ResponseFrameView, VideoMetadata, CHUNK_SIZE,
};

verus! {

/// What opens a response stream: the metadata frame, then the thumbnail in a
/// frame of its own where there is one.
pub open spec fn preamble_frames(metadata: VideoMetadata, thumbnail: Seq<u8>) -> Seq<
    ResponseFrameView,
> {
    if thumbnail.len() == 0 {
        seq![ResponseFrameView::Metadata(metadata)]
    } else {
        seq![ResponseFrameView::Metadata(metadata), ResponseFrameView::ThumbnailChunk(thumbnail)]
    }
}

/// One content frame for each piece of a chunking, in order.
pub open spec fn content_frames(chunks: Seq<Seq<u8>>) -> Seq<ResponseFrameView> {
    Seq::new(chunks.len(), |i: int| ResponseFrameView::ContentChunk(chunks[i]))
}

/// The whole response stream: the preamble, then the output's bytes in pieces
/// of `CHUNK_SIZE`, and no frame after the last byte.
pub open spec fn response_frames(metadata: VideoMetadata, thumbnail: Seq<u8>, output: Seq<u8>) -> Seq<
    ResponseFrameView,
> {
    preamble_frames(metadata, thumbnail) + content_frames(split_chunks(output, CHUNK_SIZE as int))
}

/// Content frames that follow a prefix add their pieces to the content, and
/// nothing to the thumbnail or to the metadata.
pub proof fn lemma_content_frames_appended(prefix: Seq<ResponseFrameView>, chunks: Seq<Seq<u8>>)
    ensures
        content_payload(prefix + content_frames(chunks)) == content_payload(prefix) + join_chunks(
            chunks,
        ),
        thumbnail_payload(prefix + content_frames(chunks)) == thumbnail_payload(prefix),
        metadata_count(prefix + content_frames(chunks)) == metadata_count(prefix),
        last_metadata(prefix + content_frames(chunks)) == last_metadata(prefix),
    decreases chunks.len(),
{
    let all = prefix + content_frames(chunks);
    assert(content_parts(all) =~= content_parts(prefix) + chunks);
    lemma_join_concat(content_parts(prefix), chunks);
    let silent = thumbnail_parts(content_frames(chunks));
    assert(thumbnail_parts(all) =~= thumbnail_parts(prefix) + silent);
    lemma_join_concat(thumbnail_parts(prefix), silent);
    lemma_join_empty_pieces(silent);
    assert(join_chunks(thumbnail_parts(prefix)) + Seq::<u8>::empty() =~= join_chunks(
        thumbnail_parts(prefix),
    ));
    if chunks.len() == 0 {
        assert(all =~= prefix);
    } else {
        lemma_content_frames_appended(prefix, chunks.drop_last());
        assert(all.drop_last() =~= prefix + content_frames(chunks.drop_last()));
        assert(all.last() == ResponseFrameView::ContentChunk(chunks.last()));
    }
}

/// A preamble followed by the content frames of any chunking carries the
/// pieces of that chunking as its content, the thumbnail whole, and exactly
/// one metadata frame, which stands first.
pub proof fn lemma_stream_payloads(metadata: VideoMetadata, thumbnail: Seq<u8>, chunks: Seq<Seq<u8>>)
    ensures
        content_payload(preamble_frames(metadata, thumbnail) + content_frames(chunks))
            == join_chunks(chunks),
        thumbnail_payload(preamble_frames(metadata, thumbnail) + content_frames(chunks))
            == thumbnail,
        metadata_count(preamble_frames(metadata, thumbnail) + content_frames(chunks)) == 1,
        last_metadata(preamble_frames(metadata, thumbnail) + content_frames(chunks)) == Some(
            metadata,
        ),
        (preamble_frames(metadata, thumbnail) + content_frames(chunks))[0]
            == ResponseFrameView::Metadata(metadata),
        forall|i: int|
            0 < i < (preamble_frames(metadata, thumbnail) + content_frames(chunks)).len() ==> !(
            #[trigger] (preamble_frames(metadata, thumbnail) + content_frames(chunks))[i]
                is Metadata),
{
    let head = preamble_frames(metadata, thumbnail);
    lemma_content_frames_appended(head, chunks);
    let first = seq![ResponseFrameView::Metadata(metadata)];
    assert(first.drop_last() =~= Seq::<ResponseFrameView>::empty());
    assert(metadata_count(first.drop_last()) == 0);
    assert(metadata_count(first) == 1);
    assert(last_metadata(first) == Some(metadata));
    lemma_join_empty_pieces(content_parts(head));
    assert(Seq::<u8>::empty() + join_chunks(chunks) =~= join_chunks(chunks));
    if thumbnail.len() == 0 {
        lemma_join_empty_pieces(thumbnail_parts(head));
        assert(thumbnail =~= Seq::<u8>::empty());
    } else {
        assert(head.drop_last() =~= first);
        assert(thumbnail_parts(head) =~= seq![Seq::<u8>::empty()] + seq![thumbnail]);
        lemma_join_concat(seq![Seq::<u8>::empty()], seq![thumbnail]);
        lemma_join_single(Seq::<u8>::empty());
        lemma_join_single(thumbnail);
        assert(Seq::<u8>::empty() + thumbnail =~= thumbnail);
    }
}

/// The emitted stream carries each payload whole and in order, and exactly one
/// metadata frame, which stands first.
pub proof fn lemma_response_frames(metadata: VideoMetadata, thumbnail: Seq<u8>, output: Seq<u8>)
    ensures
        content_payload(response_frames(metadata, thumbnail, output)) == output,
        thumbnail_payload(response_frames(metadata, thumbnail, output)) == thumbnail,
        metadata_count(response_frames(metadata, thumbnail, output)) == 1,
        last_metadata(response_frames(metadata, thumbnail, output)) == Some(metadata),
        response_frames(metadata, thumbnail, output)[0] == ResponseFrameView::Metadata(metadata),
        forall|i: int|
            0 < i < response_frames(metadata, thumbnail, output).len() ==> !(
            #[trigger] response_frames(metadata, thumbnail, output)[i] is Metadata),
{
    lemma_stream_payloads(metadata, thumbnail, split_chunks(output, CHUNK_SIZE as int));
    lemma_split_join(output, CHUNK_SIZE as int);
}

/// The emitted stream frame by frame: the metadata first, the whole thumbnail
/// second where there is one, then content frames that each hold at least one
/// byte and at most `CHUNK_SIZE`: no empty frame marks the end.
pub proof fn lemma_response_frames_shape(metadata: VideoMetadata, thumbnail: Seq<u8>, output: Seq<u8>)
    ensures
        forall|i: int|
            0 <= i < response_frames(metadata, thumbnail, output).len() ==> match
            #[trigger] response_frames(metadata, thumbnail, output)[i] {
                ResponseFrameView::ContentChunk(b) => 0 < b.len() <= CHUNK_SIZE,
                ResponseFrameView::ThumbnailChunk(b) => b == thumbnail && i == 1,
                ResponseFrameView::Metadata(m) => m == metadata && i == 0,
            },
{
    lemma_split_join(output, CHUNK_SIZE as int);
    let head = preamble_frames(metadata, thumbnail);
    let chunks = split_chunks(output, CHUNK_SIZE as int);
    assert forall|i: int| 0 <= i < response_frames(metadata, thumbnail, output).len() implies match
    #[trigger] response_frames(metadata, thumbnail, output)[i] {
        ResponseFrameView::ContentChunk(b) => 0 < b.len() <= CHUNK_SIZE,
        ResponseFrameView::ThumbnailChunk(b) => b == thumbnail && i == 1,
        ResponseFrameView::Metadata(m) => m == metadata && i == 0,
    } by {
        if i >= head.len() {
            assert(response_frames(metadata, thumbnail, output)[i]
                == ResponseFrameView::ContentChunk(chunks[i - head.len()]));
        }
    }
}

/// The frames that open the response stream.
pub fn preamble(metadata: VideoMetadata, thumbnail: Vec<u8>) -> (frames: Vec<ResponseFrame>)
    ensures
        response_views(frames@) == preamble_frames(metadata, thumbnail@),
{
    let mut frames: Vec<ResponseFrame> = Vec::new();
    frames.push(ResponseFrame::Metadata(metadata));
    if thumbnail.len() > 0 {
        frames.push(ResponseFrame::ThumbnailChunk(thumbnail));
    }
    assert(response_views(frames@) =~= preamble_frames(metadata, thumbnail@));
    frames
}

/// The frame for one read of the output file.  A read of zero bytes is the end
/// of the file: it gets no frame, and the stream ends.
pub fn content(read: Vec<u8>) -> (frame: Option<ResponseFrame>)
    ensures
        read@.len() == 0 ==> frame is None,
        read@.len() > 0 ==> frame is Some && frame->Some_0@ == ResponseFrameView::ContentChunk(
            read@,
        ),
{
    if read.len() == 0 {
        None
    } else {
        Some(ResponseFrame::ContentChunk(read))
    }
}

/// Mathematical value of an [`Emitter`].
pub ghost struct EmitterView {
    pub metadata: VideoMetadata,
    pub thumbnail: Seq<u8>,
    /// Whether the preamble was handed out.
    pub started: bool,
    /// Whether the end of the output was read.
    pub done: bool,
    /// The reads that were turned into content frames, in order.
    pub reads: Seq<Seq<u8>>,
}

/// The state of an emitter that has handed out nothing.
pub open spec fn fresh(metadata: VideoMetadata, thumbnail: Seq<u8>) -> EmitterView {
    EmitterView { metadata, thumbnail, started: false, done: false, reads: Seq::empty() }
}

/// All frames that an emitter has handed out so far, in order.
pub open spec fn sent(state: EmitterView) -> Seq<ResponseFrameView> {
    if state.started {
        preamble_frames(state.metadata, state.thumbnail) + content_frames(state.reads)
    } else {
        Seq::empty()
    }
}

/// The frames that are due before anything else: the preamble, until it was
/// handed out.
pub open spec fn opening_frames(state: EmitterView) -> Seq<ResponseFrameView> {
    if state.started {
        Seq::empty()
    } else {
        preamble_frames(state.metadata, state.thumbnail)
    }
}

/// The state once the preamble was handed out.
pub open spec fn begun(state: EmitterView) -> EmitterView {
    EmitterView {
        started: true,
        reads: if state.started {
            state.reads
        } else {
            Seq::empty()
        },
        ..state
    }
}

/// Whether a read becomes a content frame: it holds bytes, and the end of the
/// output was not read before.
pub open spec fn read_is_sent(state: EmitterView, read: Seq<u8>) -> bool {
    !state.done && read.len() > 0
}

/// The state after one read of the output file: a read of zero bytes is the
/// end, and after the end nothing changes.
pub open spec fn after_read(state: EmitterView, read: Seq<u8>) -> EmitterView {
    EmitterView {
        done: state.done || read.len() == 0,
        reads: if read_is_sent(state, read) {
            begun(state).reads.push(read)
        } else {
            begun(state).reads
        },
        ..begun(state)
    }
}

/// The frames that one read of the output file releases: the preamble if it
/// is still due, then the read's bytes if they are to be sent.
pub open spec fn read_frames(state: EmitterView, read: Seq<u8>) -> Seq<ResponseFrameView> {
    opening_frames(state) + if read_is_sent(state, read) {
        seq![ResponseFrameView::ContentChunk(read)]
    } else {
        Seq::empty()
    }
}

/// Whatever the caller does, an emitter only ever extends the stream it has
/// handed out: by the preamble first, then by one content frame for each read
/// that holds bytes, and by nothing once the end was read.
pub proof fn lemma_emitter_extends(state: EmitterView, read: Seq<u8>)
    ensures
        sent(begun(state)) == sent(state) + opening_frames(state),
        sent(after_read(state, read)) == sent(state) + read_frames(state, read),
        state.done ==> sent(after_read(state, read)) == sent(begun(state)),
{
    let head = preamble_frames(state.metadata, state.thumbnail);
    let none = Seq::<ResponseFrameView>::empty();
    assert(content_frames(Seq::<Seq<u8>>::empty()) =~= none);
    assert(head + none =~= head);
    assert(none + head =~= head);
    assert(sent(state) + none =~= sent(state));
    let b = begun(state);
    if read_is_sent(state, read) {
        let one = seq![ResponseFrameView::ContentChunk(read)];
        assert(content_frames(b.reads.push(read)) =~= content_frames(b.reads) + one);
        assert(head + (content_frames(b.reads) + one) =~= (head + content_frames(b.reads)) + one);
        assert(none + one =~= one);
        assert(sent(state) + (head + one) =~= (sent(state) + head) + one);
    }
}

/// What an emitter has handed out carries, once the preamble is out, the
/// reads as its content, whole and in order, the thumbnail whole, and exactly
/// one metadata frame, which stands first.
pub proof fn lemma_sent_payloads(state: EmitterView)
    requires
        state.started,
    ensures
        content_payload(sent(state)) == join_chunks(state.reads),
        thumbnail_payload(sent(state)) == state.thumbnail,
        metadata_count(sent(state)) == 1,
        last_metadata(sent(state)) == Some(state.metadata),
        sent(state)[0] == ResponseFrameView::Metadata(state.metadata),
        forall|i: int| 0 < i < sent(state).len() ==> !(#[trigger] sent(state)[i] is Metadata),
{
    lemma_stream_payloads(state.metadata, state.thumbnail, state.reads);
}

/// What one read of the output file releases.
#[derive(Debug)]
pub struct Emission {
    /// The frames to send now, in order.
    pub frames: Vec<ResponseFrame>,
    /// Whether the stream is complete: nothing more is to be read or sent.
    pub done: bool,
}

/// Per-call state of the outbound side: hands out the response frames in
/// their fixed order while the caller reads the output file piece by piece.
pub struct Emitter {
    metadata: VideoMetadata,
    opening: Option<Vec<u8>>,
    done: bool,
    thumbnail: Ghost<Seq<u8>>,
    reads: Ghost<Seq<Seq<u8>>>,
}

impl View for Emitter {
    type V = EmitterView;

    closed spec fn view(&self) -> EmitterView {
        EmitterView {
            metadata: self.metadata,
            thumbnail: match self.opening {
                Some(t) => t@,
                None => self.thumbnail@,
            },
            started: self.opening is None,
            done: self.done,
            reads: self.reads@,
        }
    }
}

impl Emitter {
    /// An emitter for the given metadata and thumbnail, with nothing sent.
    pub fn new(metadata: VideoMetadata, thumbnail: Vec<u8>) -> (emitter: Emitter)
        ensures
            emitter@ == fresh(metadata, thumbnail@),
    {
        Emitter {
            metadata,
            opening: Some(thumbnail),
            done: false,
            thumbnail: Ghost(Seq::empty()),
            reads: Ghost(Seq::empty()),
        }
    }

    /// Hands out the preamble, unless it was handed out before.
    pub fn begin(&mut self) -> (frames: Vec<ResponseFrame>)
        ensures
            final(self)@ == begun(old(self)@),
            response_views(frames@) == opening_frames(old(self)@),
            sent(final(self)@) == sent(old(self)@) + response_views(frames@),
    {
        proof {
            lemma_emitter_extends(self@, Seq::empty());
        }
        match self.opening.take() {
            Some(thumbnail) => {
                self.thumbnail = Ghost(thumbnail@);
                self.reads = Ghost(Seq::empty());
                preamble(self.metadata, thumbnail)
            },
            None => {
                let frames: Vec<ResponseFrame> = Vec::new();
                assert(response_views(frames@) =~= Seq::<ResponseFrameView>::empty());
                frames
            },
        }
    }

    /// Takes one read of the output file and hands out what is to be sent
    /// for it: the preamble if it is still due, then the read's bytes as one
    /// content frame.  A read of zero bytes ends the stream without a frame,
    /// and every read after that is ignored.
    pub fn on_read(&mut self, read: Vec<u8>) -> (emission: Emission)
        ensures
            final(self)@ == after_read(old(self)@, read@),
            response_views(emission.frames@) == read_frames(old(self)@, read@),
            emission.done == final(self)@.done,
            sent(final(self)@) == sent(old(self)@) + response_views(emission.frames@),
    {
        proof {
            lemma_emitter_extends(self@, read@);
        }
        let ghost before = self@;
        let mut frames = self.begin();
        if !self.done {
            match content(read) {
                Some(frame) => {
                    self.reads = Ghost(self.reads@.push(read@));
                    frames.push(frame);
                },
                None => {
                    self.done = true;
                },
            }
        }
        proof {
            assert(response_views(frames@) =~= read_frames(before, read@));
        }
        Emission { frames, done: self.done }
    }
}

/// The whole response stream for an output held in memory.
pub fn emit(metadata: VideoMetadata, thumbnail: Vec<u8>, output: &[u8]) -> (frames: Vec<
    ResponseFrame,
>)
    ensures
        response_views(frames@) == response_frames(metadata, thumbnail@, output@),
        content_payload(response_views(frames@)) == output@,
        thumbnail_payload(response_views(frames@)) == thumbnail@,
        metadata_count(response_views(frames@)) == 1,
        frames@.len() > 0 && frames@[0]@ == ResponseFrameView::Metadata(metadata),
        forall|i: int| 0 < i < frames@.len() ==> !((#[trigger] frames@[i])@ is Metadata),
{
    let ghost wanted = split_chunks(output@, CHUNK_SIZE as int);
    let mut emitter = Emitter::new(metadata, thumbnail);
    let mut frames: Vec<ResponseFrame> = emitter.begin();
    let total: usize = output.len();
    let mut start: usize = 0;
    proof {
        assert(output@.skip(0) =~= output@);
        assert(emitter@.reads + wanted =~= wanted);
    }
    while start < total
        invariant
            total == output@.len(),
            start <= total,
            emitter@.metadata == metadata,
            emitter@.thumbnail == thumbnail@,
            emitter@.started,
            !emitter@.done,
            response_views(frames@) == sent(emitter@),
            emitter@.reads + split_chunks(output@.skip(start as int), CHUNK_SIZE as int) == wanted,
        decreases total - start,
    {
        let (piece, end) = take_piece(output, start, CHUNK_SIZE);
        let ghost before = response_views(frames@);
        let ghost reads = emitter@.reads;
        let ghost rest = split_chunks(output@.skip(end as int), CHUNK_SIZE as int);
        proof {
            lemma_split_step(output@, CHUNK_SIZE as int, start as int);
            assert(reads + (seq![piece@] + rest) =~= reads.push(piece@) + rest);
        }
        let Emission { frames: more, done: _ } = emitter.on_read(piece);
        let mut more = more;
        let ghost added = response_views(more@);
        frames.append(&mut more);
        proof {
            assert(response_views(frames@) =~= before + added);
        }
        start = end;
    }
    proof {
        assert(output@.skip(start as int).len() == 0);
        assert(emitter@.reads + Seq::<Seq<u8>>::empty() =~= emitter@.reads);
        lemma_response_frames(metadata, thumbnail@, output@);
        assert(response_views(frames@)[0] == frames@[0]@);
        assert forall|i: int| 0 < i < frames@.len() implies !((#[trigger] frames@[i])@ is Metadata) by {
            assert(response_views(frames@)[i] == frames@[i]@);
        }
    }
    frames
}

} // verus!
