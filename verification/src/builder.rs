//! Client side, outbound: the request frames for one source file.

use vstd::prelude::*;
use crate::chunking::{lemma_split_join, lemma_split_step, split_chunks, take_piece};
use crate::frame::{chunk_frame, header_frame, request_views, RequestFrame, RequestFrameView, CHUNK_SIZE};

verus! {

/// One payload frame for each piece of a chunking, in order.
pub open spec fn chunk_frames(chunks: Seq<Seq<u8>>) -> Seq<RequestFrameView> {
    Seq::new(chunks.len(), |i: int| chunk_frame(chunks[i]))
}

/// The request stream for a file: the header frame, then the file's bytes in
/// pieces of `CHUNK_SIZE`, and no frame after the last byte.
pub open spec fn request_frames(
    extension: Seq<char>,
    target_width: i32,
    target_height: i32,
    data: Seq<u8>,
) -> Seq<RequestFrameView> {
    seq![header_frame(extension, target_width, target_height)] + chunk_frames(
        split_chunks(data, CHUNK_SIZE as int),
    )
}

/// After its header frame a built request holds payload frames only, each
/// with at least one byte and at most `CHUNK_SIZE`: no frame marks the end.
pub proof fn lemma_request_frames_bounded(
    extension: Seq<char>,
    target_width: i32,
    target_height: i32,
    data: Seq<u8>,
)
    ensures
        request_frames(extension, target_width, target_height, data)[0] == header_frame(
            extension,
            target_width,
            target_height,
        ),
        forall|i: int|
            0 < i < request_frames(extension, target_width, target_height, data).len() ==> {
                let frame = #[trigger] request_frames(extension, target_width, target_height, data)[i];
                &&& frame == chunk_frame(frame.chunk)
                &&& 0 < frame.chunk.len() <= CHUNK_SIZE
            },
{
    lemma_split_join(data, CHUNK_SIZE as int);
    let chunks = split_chunks(data, CHUNK_SIZE as int);
    assert forall|i: int|
        0 < i < request_frames(extension, target_width, target_height, data).len() implies {
        let frame = #[trigger] request_frames(extension, target_width, target_height, data)[i];
        &&& frame == chunk_frame(frame.chunk)
        &&& 0 < frame.chunk.len() <= CHUNK_SIZE
    } by {
        assert(request_frames(extension, target_width, target_height, data)[i] == chunk_frame(
            chunks[i - 1],
        ));
    }
}

/// The frame that opens a request stream: header fields and no payload.
pub fn header(extension: String, target_width: i32, target_height: i32) -> (frame: RequestFrame)
    ensures
        frame@ == header_frame(extension@, target_width, target_height),
{
    RequestFrame { extension, target_width, target_height, chunk: Vec::new() }
}

/// The frame for one read of the source file.  A read of zero bytes is the end
/// of the file: it gets no frame, and the stream ends.
pub fn chunk(read: Vec<u8>) -> (frame: Option<RequestFrame>)
    ensures
        read@.len() == 0 ==> frame is None,
        read@.len() > 0 ==> frame is Some && frame->Some_0@ == chunk_frame(read@),
{
    if read.len() == 0 {
        None
    } else {
        Some(RequestFrame { extension: String::new(), target_width: 0, target_height: 0, chunk: read })
    }
}

/// Mathematical value of a [`StreamBuilder`].
pub ghost struct StreamBuilderView {
    /// The header frame of the stream.
    pub header: RequestFrameView,
    /// Whether the header frame was handed out.
    pub started: bool,
    /// Whether the end of the source was read.
    pub done: bool,
    /// The reads that were turned into payload frames, in order.
    pub reads: Seq<Seq<u8>>,
}

/// The state of a builder that has handed out nothing.
pub open spec fn fresh(header: RequestFrameView) -> StreamBuilderView {
    StreamBuilderView { header, started: false, done: false, reads: Seq::empty() }
}

/// All frames that a builder has handed out so far, in order.
pub open spec fn sent(state: StreamBuilderView) -> Seq<RequestFrameView> {
    if state.started {
        seq![state.header] + chunk_frames(state.reads)
    } else {
        Seq::empty()
    }
}

/// The frames that are due before anything else: the header frame, until it
/// was handed out.
pub open spec fn opening_frames(state: StreamBuilderView) -> Seq<RequestFrameView> {
    if state.started {
        Seq::empty()
    } else {
        seq![state.header]
    }
}

/// The state once the header frame was handed out.
pub open spec fn begun(state: StreamBuilderView) -> StreamBuilderView {
    StreamBuilderView {
        started: true,
        reads: if state.started {
            state.reads
        } else {
            Seq::empty()
        },
        ..state
    }
}

/// Whether a read becomes a payload frame: it holds bytes, and the end of the
/// source was not read before.
pub open spec fn read_is_sent(state: StreamBuilderView, read: Seq<u8>) -> bool {
    !state.done && read.len() > 0
}

/// The state after one read of the source file: a read of zero bytes is the
/// end, and after the end nothing changes.
pub open spec fn after_read(state: StreamBuilderView, read: Seq<u8>) -> StreamBuilderView {
    StreamBuilderView {
        done: state.done || read.len() == 0,
        reads: if read_is_sent(state, read) {
            begun(state).reads.push(read)
        } else {
            begun(state).reads
        },
        ..begun(state)
    }
}

/// The frames that one read of the source file releases: the header frame if
/// it is still due, then the read's bytes if they are to be sent.
pub open spec fn read_frames(state: StreamBuilderView, read: Seq<u8>) -> Seq<RequestFrameView> {
    opening_frames(state) + if read_is_sent(state, read) {
        seq![chunk_frame(read)]
    } else {
        Seq::empty()
    }
}

/// Whatever the caller does, a builder only ever extends the stream it has
/// handed out: by the header frame first, then by one payload frame for each
/// read that holds bytes, and by nothing once the end was read.
pub proof fn lemma_builder_extends(state: StreamBuilderView, read: Seq<u8>)
    ensures
        sent(begun(state)) == sent(state) + opening_frames(state),
        sent(after_read(state, read)) == sent(state) + read_frames(state, read),
        state.done ==> sent(after_read(state, read)) == sent(begun(state)),
{
    let head = seq![state.header];
    let none = Seq::<RequestFrameView>::empty();
    assert(chunk_frames(Seq::<Seq<u8>>::empty()) =~= none);
    assert(head + none =~= head);
    assert(none + head =~= head);
    assert(sent(state) + none =~= sent(state));
    let b = begun(state);
    if read_is_sent(state, read) {
        let one = seq![chunk_frame(read)];
        assert(chunk_frames(b.reads.push(read)) =~= chunk_frames(b.reads) + one);
        assert(head + (chunk_frames(b.reads) + one) =~= (head + chunk_frames(b.reads)) + one);
        assert(none + one =~= one);
        assert(sent(state) + (head + one) =~= (sent(state) + head) + one);
    }
}

/// What one read of the source file releases.
#[derive(Debug)]
pub struct Batch {
    /// The frames to send now, in order.
    pub frames: Vec<RequestFrame>,
    /// Whether the stream is complete: nothing more is to be read or sent.
    pub done: bool,
}

/// Per-call state of the client's outbound side: hands out the request frames
/// in their order while the caller reads the source file piece by piece.
pub struct StreamBuilder {
    opening: Option<RequestFrame>,
    done: bool,
    header: Ghost<RequestFrameView>,
    reads: Ghost<Seq<Seq<u8>>>,
}

impl View for StreamBuilder {
    type V = StreamBuilderView;

    closed spec fn view(&self) -> StreamBuilderView {
        StreamBuilderView {
            header: match self.opening {
                Some(frame) => frame@,
                None => self.header@,
            },
            started: self.opening is None,
            done: self.done,
            reads: self.reads@,
        }
    }
}

impl StreamBuilder {
    /// A builder for a file with the given extension and target dimensions,
    /// with nothing sent.
    pub fn new(extension: String, target_width: i32, target_height: i32) -> (builder: StreamBuilder)
        ensures
            builder@ == fresh(header_frame(extension@, target_width, target_height)),
    {
        let frame = header(extension, target_width, target_height);
        StreamBuilder {
            opening: Some(frame),
            done: false,
            header: Ghost(frame@),
            reads: Ghost(Seq::empty()),
        }
    }

    /// Hands out the header frame, unless it was handed out before.
    pub fn begin(&mut self) -> (frames: Vec<RequestFrame>)
        ensures
            final(self)@ == begun(old(self)@),
            request_views(frames@) == opening_frames(old(self)@),
            sent(final(self)@) == sent(old(self)@) + request_views(frames@),
    {
        proof {
            lemma_builder_extends(self@, Seq::empty());
        }
        let mut frames: Vec<RequestFrame> = Vec::new();
        match self.opening.take() {
            Some(frame) => {
                self.header = Ghost(frame@);
                self.reads = Ghost(Seq::empty());
                frames.push(frame);
                assert(request_views(frames@) =~= seq![frame@]);
            },
            None => {
                assert(request_views(frames@) =~= Seq::<RequestFrameView>::empty());
            },
        }
        frames
    }

    /// Takes one read of the source file and hands out what is to be sent
    /// for it: the header frame if it is still due, then the read's bytes as
    /// one payload frame.  A read of zero bytes ends the stream without a
    /// frame, and every read after that is ignored.
    pub fn on_read(&mut self, read: Vec<u8>) -> (batch: Batch)
        ensures
            final(self)@ == after_read(old(self)@, read@),
            request_views(batch.frames@) == read_frames(old(self)@, read@),
            batch.done == final(self)@.done,
            sent(final(self)@) == sent(old(self)@) + request_views(batch.frames@),
    {
        proof {
            lemma_builder_extends(self@, read@);
        }
        let ghost before = self@;
        let mut frames = self.begin();
        if !self.done {
            match chunk(read) {
                Some(frame) => {
                    self.reads = Ghost(self.reads@.push(read@));
                    frames.push(frame);
                },
                None => {
                    self.done = true;
                },
            }
        }
        proof {
            assert(request_views(frames@) =~= read_frames(before, read@));
        }
        Batch { frames, done: self.done }
    }
}

/// The whole request stream for a source held in memory.
pub fn build_request(extension: String, target_width: i32, target_height: i32, data: &[u8]) -> (frames:
    Vec<RequestFrame>)
    ensures
        request_views(frames@) == request_frames(extension@, target_width, target_height, data@),
{
    let ghost wanted = split_chunks(data@, CHUNK_SIZE as int);
    let ghost head = header_frame(extension@, target_width, target_height);
    let mut builder = StreamBuilder::new(extension, target_width, target_height);
    let mut frames: Vec<RequestFrame> = builder.begin();
    let total: usize = data.len();
    let mut start: usize = 0;
    proof {
        assert(data@.skip(0) =~= data@);
        assert(builder@.reads + wanted =~= wanted);
    }
    while start < total
        invariant
            total == data@.len(),
            start <= total,
            builder@.header == head,
            builder@.started,
            !builder@.done,
            request_views(frames@) == sent(builder@),
            builder@.reads + split_chunks(data@.skip(start as int), CHUNK_SIZE as int) == wanted,
        decreases total - start,
    {
        let (piece, end) = take_piece(data, start, CHUNK_SIZE);
        let ghost before = request_views(frames@);
        let ghost reads = builder@.reads;
        let ghost rest = split_chunks(data@.skip(end as int), CHUNK_SIZE as int);
        proof {
            lemma_split_step(data@, CHUNK_SIZE as int, start as int);
            assert(reads + (seq![piece@] + rest) =~= reads.push(piece@) + rest);
        }
        let Batch { frames: more, done: _ } = builder.on_read(piece);
        let mut more = more;
        let ghost added = request_views(more@);
        frames.append(&mut more);
        proof {
            assert(request_views(frames@) =~= before + added);
        }
        start = end;
    }
    proof {
        assert(data@.skip(start as int).len() == 0);
        assert(builder@.reads + Seq::<Seq<u8>>::empty() =~= builder@.reads);
    }
    frames
}

} // verus!
