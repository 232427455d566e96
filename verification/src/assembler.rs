//! Server side, inbound: turns the request frames of one call into the
//! operations on that call's staging file.

use vstd::prelude::*;
use vstd::slice::slice_to_vec;
use crate::error::ServiceError;
use crate::frame::{
    lemma_request_frame_appended, request_payload, request_views, RequestFrame, RequestFrameView,
};

verus! {

/// What the caller does to the staging file for one accepted frame: create it
/// first, where `create` holds the file name's suffix, then append `append`.
#[derive(Debug)]
pub struct StagingAction {
    pub create: Option<String>,
    pub append: Vec<u8>,
}

/// Mathematical value of a [`StagingAction`].
pub ghost struct StagingActionView {
    pub create: Option<Seq<char>>,
    pub append: Seq<u8>,
}

impl View for StagingAction {
    type V = StagingActionView;

    open spec fn view(&self) -> StagingActionView {
        StagingActionView {
            create: match self.create {
                Some(s) => Some(s@),
                None => None,
            },
            append: self.append@,
        }
    }
}

/// A completely ingested request: the staging file's suffix, the target
/// dimensions (zero where the stream named none), and the bytes staged.
#[derive(Debug)]
pub struct StagedRequest {
    pub extension: String,
    pub target_width: u32,
    pub target_height: u32,
    pub size: u64,
}

/// Mathematical value of an [`Assembler`].
pub ghost struct AssemblerView {
    /// Suffix of the staging file, once the header was seen.
    pub extension: Option<Seq<char>>,
    /// The first pair of positive target dimensions seen.
    pub dimensions: Option<(u32, u32)>,
    /// Content of the staging file after every action handed out so far.
    pub staged: Seq<u8>,
}

/// The state before any frame.
pub open spec fn initial() -> AssemblerView {
    AssemblerView { extension: None, dimensions: None, staged: Seq::empty() }
}

/// Target dimensions after a frame: the first positive pair stays.
pub open spec fn dimensions_after(current: Option<(u32, u32)>, frame: RequestFrameView) -> Option<
    (u32, u32),
> {
    if current is None && frame.target_width > 0 && frame.target_height > 0 {
        Some((frame.target_width as u32, frame.target_height as u32))
    } else {
        current
    }
}

/// Whether a frame is refused: it names no extension and none was seen before.
pub open spec fn violates_protocol(state: AssemblerView, frame: RequestFrameView) -> bool {
    state.extension is None && frame.extension.len() == 0
}

/// The state after one accepted frame.
pub open spec fn ingest(state: AssemblerView, frame: RequestFrameView) -> AssemblerView {
    AssemblerView {
        extension: if state.extension is None {
            Some(frame.extension)
        } else {
            state.extension
        },
        dimensions: dimensions_after(state.dimensions, frame),
        staged: state.staged + frame.chunk,
    }
}

/// The staging operations that one accepted frame asks for.
pub open spec fn action_for(state: AssemblerView, frame: RequestFrameView) -> StagingActionView {
    StagingActionView {
        create: if state.extension is None {
            Some(frame.extension)
        } else {
            None
        },
        append: frame.chunk,
    }
}

/// The state after a whole sequence of frames; `None` once a frame was refused.
pub open spec fn ingest_all(state: AssemblerView, frames: Seq<RequestFrameView>) -> Option<
    AssemblerView,
>
    decreases frames.len(),
{
    if frames.len() == 0 {
        Some(state)
    } else {
        match ingest_all(state, frames.drop_last()) {
            Some(before) => if violates_protocol(before, frames.last()) {
                None
            } else {
                Some(ingest(before, frames.last()))
            },
            None => None,
        }
    }
}

/// The first pair of positive target dimensions in a sequence of frames.
pub open spec fn first_dimensions(frames: Seq<RequestFrameView>) -> Option<(u32, u32)>
    decreases frames.len(),
{
    if frames.len() == 0 {
        None
    } else {
        dimensions_after(first_dimensions(frames.drop_last()), frames.last())
    }
}

/// A stream whose first frame names an extension is accepted whole, however
/// its payload is cut into frames and whatever its later frames name: the
/// staging file gets the first extension and holds the payload of all frames
/// in order of arrival, and the first positive pair of dimensions is kept.
pub proof fn lemma_header_first_stream_staged(frames: Seq<RequestFrameView>)
    requires
        frames.len() > 0,
        frames[0].extension.len() > 0,
    ensures
        ingest_all(initial(), frames) == Some(
            AssemblerView {
                extension: Some(frames[0].extension),
                dimensions: first_dimensions(frames),
                staged: request_payload(frames),
            },
        ),
    decreases frames.len(),
{
    let front = frames.drop_last();
    assert(frames =~= front.push(frames.last()));
    lemma_request_frame_appended(front, frames.last());
    if front.len() == 0 {
        assert(ingest_all(initial(), front) == Some(initial()));
        assert(first_dimensions(front) == None::<(u32, u32)>);
        assert(request_payload(front) =~= Seq::<u8>::empty());
        assert(Seq::<u8>::empty() + frames.last().chunk =~= frames.last().chunk);
        assert(initial().staged + frames.last().chunk =~= request_payload(frames));
    } else {
        lemma_header_first_stream_staged(front);
        assert(front[0] == frames[0]);
    }
}

/// A stream whose first frame names no extension is refused, whatever follows.
pub proof fn lemma_headerless_stream_refused(frames: Seq<RequestFrameView>)
    requires
        frames.len() > 0,
        frames[0].extension.len() == 0,
    ensures
        ingest_all(initial(), frames) is None,
    decreases frames.len(),
{
    let front = frames.drop_last();
    if front.len() == 0 {
        assert(ingest_all(initial(), front) == Some(initial()));
        assert(frames.last() == frames[0]);
    } else {
        assert(front[0] == frames[0]);
        lemma_headerless_stream_refused(front);
    }
}

/// A byte count as the running counter shows it: it stops at `u64::MAX`.
pub open spec fn counted(len: nat) -> u64 {
    if len <= u64::MAX {
        len as u64
    } else {
        u64::MAX
    }
}

/// The running byte counter beside the bytes it counts.
struct Tally {
    received: u64,
    staged: Ghost<Seq<u8>>,
}

/// Per-call state of the inbound side.
pub struct Assembler {
    extension: Option<String>,
    dimensions: Option<(u32, u32)>,
    tally: Tally,
}

impl View for Assembler {
    type V = AssemblerView;

    closed spec fn view(&self) -> AssemblerView {
        AssemblerView {
            extension: match self.extension {
                Some(s) => Some(s@),
                None => None,
            },
            dimensions: self.dimensions,
            staged: self.tally.staged@,
        }
    }
}

impl Assembler {
    /// The counter agrees with the staged bytes.
    #[verifier::type_invariant]
    closed spec fn counter_agrees(&self) -> bool {
        self.tally.received == counted(self.tally.staged@.len())
    }

    /// An assembler that has seen no frame.
    pub fn new() -> (assembler: Assembler)
        ensures
            assembler@ == initial(),
    {
        Assembler {
            extension: None,
            dimensions: None,
            tally: Tally { received: 0, staged: Ghost(Seq::empty()) },
        }
    }

    /// Applies one request frame.
    ///
    /// A frame without extension that arrives before any header is refused
    /// with `InvalidArgument`, and nothing changes.  Every other frame is
    /// accepted: the first extension and the first positive pair of target
    /// dimensions are kept, and the frame's chunk is handed back to be
    /// appended to the staging file, which is to be created first where the
    /// frame is the first to be accepted.
    pub fn on_frame(&mut self, frame: RequestFrame) -> (outcome: Result<StagingAction, ServiceError>)
        ensures
            match outcome {
                Ok(action) => {
                    &&& !violates_protocol(old(self)@, frame@)
                    &&& final(self)@ == ingest(old(self)@, frame@)
                    &&& action@ == action_for(old(self)@, frame@)
                },
                Err(e) => {
                    &&& violates_protocol(old(self)@, frame@)
                    &&& e == ServiceError::InvalidArgument
                    &&& final(self)@ == old(self)@
                },
            },
    {
        proof {
            use_type_invariant(&*self);
        }
        let RequestFrame { extension, target_width, target_height, chunk } = frame;
        let create: Option<String> = if self.extension.is_none() {
            if extension.as_str().is_empty() {
                return Err(ServiceError::InvalidArgument);
            }
            self.extension = Some(extension.clone());
            Some(extension)
        } else {
            None
        };
        if self.dimensions.is_none() && target_width > 0 && target_height > 0 {
            self.dimensions = Some((target_width as u32, target_height as u32));
        }
        let len: usize = chunk.len();
        self.tally = Tally {
            received: self.tally.received.saturating_add(len as u64),
            staged: Ghost(self.tally.staged@ + chunk@),
        };
        Ok(StagingAction { create, append: chunk })
    }

    /// Number of payload bytes accepted so far, capped at `u64::MAX`.
    pub fn received(&self) -> (count: u64)
        ensures
            count == counted(self@.staged.len()),
    {
        proof {
            use_type_invariant(self);
        }
        self.tally.received
    }

    /// Ends ingestion when the request stream has ended.
    ///
    /// Fails with `InvalidArgument` exactly where no header was ever seen;
    /// otherwise describes the staged request.
    pub fn on_complete(self) -> (outcome: Result<StagedRequest, ServiceError>)
        ensures
            match outcome {
                Ok(staged) => {
                    &&& self@.extension == Some(staged.extension@)
                    &&& (staged.target_width, staged.target_height) == match self@.dimensions {
                        Some(pair) => pair,
                        None => (0u32, 0u32),
                    }
                    &&& staged.size == counted(self@.staged.len())
                },
                Err(e) => self@.extension is None && e == ServiceError::InvalidArgument,
            },
    {
        proof {
            use_type_invariant(&self);
        }
        let Assembler { extension, dimensions, tally } = self;
        let (target_width, target_height): (u32, u32) = match dimensions {
            Some(pair) => pair,
            None => (0, 0),
        };
        match extension {
            Some(extension) => Ok(
                StagedRequest { extension, target_width, target_height, size: tally.received },
            ),
            None => Err(ServiceError::InvalidArgument),
        }
    }
}

/// A frame equal to the given one.
fn duplicate(frame: &RequestFrame) -> (copy: RequestFrame)
    ensures
        copy@ == frame@,
{
    RequestFrame {
        extension: frame.extension.clone(),
        target_width: frame.target_width,
        target_height: frame.target_height,
        chunk: slice_to_vec(frame.chunk.as_slice()),
    }
}

/// Stages a whole request held in memory, with a byte vector in place of the
/// staging file.
///
/// Succeeds exactly where the sequence is not empty and its first frame names
/// an extension, with the staged request and the staged bytes.
pub fn assemble(frames: &[RequestFrame]) -> (outcome: Result<(StagedRequest, Vec<u8>), ServiceError>)
    ensures
        match outcome {
            Ok((staged, content)) => {
                &&& frames@.len() > 0
                &&& frames@[0].extension@.len() > 0
                &&& staged.extension@ == frames@[0].extension@
                &&& (staged.target_width, staged.target_height) == match first_dimensions(
                    request_views(frames@),
                ) {
                    Some(pair) => pair,
                    None => (0u32, 0u32),
                }
                &&& staged.size == counted(content@.len())
                &&& content@ == request_payload(request_views(frames@))
            },
            Err(e) => {
                &&& frames@.len() == 0 || frames@[0].extension@.len() == 0
                &&& e == ServiceError::InvalidArgument
            },
        },
{
    let ghost views = request_views(frames@);
    let mut assembler = Assembler::new();
    let mut content: Vec<u8> = Vec::new();
    let total: usize = frames.len();
    let mut i: usize = 0;
    proof {
        assert(views.take(0) =~= Seq::<RequestFrameView>::empty());
    }
    while i < total
        invariant
            total == frames@.len(),
            views == request_views(frames@),
            i <= total,
            ingest_all(initial(), views.take(i as int)) == Some(assembler@),
            content@ == assembler@.staged,
        decreases total - i,
    {
        proof {
            assert(views.take(i + 1).drop_last() =~= views.take(i as int));
            assert(views.take(i + 1).last() == frames@[i as int]@);
        }
        match assembler.on_frame(duplicate(&frames[i])) {
            Ok(action) => {
                let StagingAction { create: _, append } = action;
                let mut append = append;
                content.append(&mut append);
            },
            Err(e) => {
                proof {
                    if i > 0 {
                        assert(views.take(i as int)[0] == views[0]);
                        lemma_header_first_stream_staged(views.take(i as int));
                    }
                }
                return Err(e);
            },
        }
        i = i + 1;
    }
    proof {
        assert(views.take(total as int) =~= views);
        if total > 0 {
            if views[0].extension.len() > 0 {
                lemma_header_first_stream_staged(views);
            } else {
                lemma_headerless_stream_refused(views);
            }
        }
    }
    match assembler.on_complete() {
        Ok(staged) => Ok((staged, content)),
        Err(e) => Err(e),
    }
}

} // verus!
