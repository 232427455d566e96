//! What the two ends of the protocol guarantee each other.

use vstd::prelude::*;
use crate::assembler::{
    first_dimensions, ingest_all, initial, lemma_header_first_stream_staged, AssemblerView,
};
use crate::builder::{chunk_frames, request_frames, sent, StreamBuilderView};
use crate::chunking::{join_chunks, lemma_join_concat, lemma_join_single, lemma_split_join, split_chunks};
use crate::frame::{header_frame, request_chunks, request_payload, RequestFrameView, CHUNK_SIZE};

verus! {

/// The target dimensions that a header asks for, if it asks for any.
pub open spec fn requested_dimensions(target_width: i32, target_height: i32) -> Option<(u32, u32)> {
    if target_width > 0 && target_height > 0 {
        Some((target_width as u32, target_height as u32))
    } else {
        None
    }
}

/// Payload frames name no dimensions.
proof fn lemma_chunk_frames_keep_dimensions(head: RequestFrameView, chunks: Seq<Seq<u8>>)
    ensures
        first_dimensions(seq![head] + chunk_frames(chunks)) == requested_dimensions(
            head.target_width,
            head.target_height,
        ),
    decreases chunks.len(),
{
    let frames = seq![head] + chunk_frames(chunks);
    if chunks.len() == 0 {
        assert(frames.drop_last() =~= Seq::<RequestFrameView>::empty());
        assert(first_dimensions(frames.drop_last()) == None::<(u32, u32)>);
    } else {
        lemma_chunk_frames_keep_dimensions(head, chunks.drop_last());
        assert(frames.drop_last() =~= seq![head] + chunk_frames(chunks.drop_last()));
    }
}

/// A header frame followed by the pieces of any chunking stages exactly the
/// pieces laid end to end, under the header's extension and dimensions.
pub proof fn lemma_any_chunking_staged(
    extension: Seq<char>,
    target_width: i32,
    target_height: i32,
    chunks: Seq<Seq<u8>>,
)
    requires
        extension.len() > 0,
    ensures
        ingest_all(
            initial(),
            seq![header_frame(extension, target_width, target_height)] + chunk_frames(chunks),
        ) == Some(
            AssemblerView {
                extension: Some(extension),
                dimensions: requested_dimensions(target_width, target_height),
                staged: join_chunks(chunks),
            },
        ),
{
    let head = header_frame(extension, target_width, target_height);
    let frames = seq![head] + chunk_frames(chunks);
    lemma_header_first_stream_staged(frames);
    lemma_chunk_frames_keep_dimensions(head, chunks);
    assert(request_chunks(frames) =~= seq![Seq::<u8>::empty()] + chunks);
    lemma_join_concat(seq![Seq::<u8>::empty()], chunks);
    lemma_join_single(Seq::<u8>::empty());
    assert(Seq::<u8>::empty() + join_chunks(chunks) =~= join_chunks(chunks));
    assert(request_payload(frames) == join_chunks(chunks));
}

/// What a stream builder has handed out, once its header frame is out, stages
/// exactly the reads it was given, in order, whatever their sizes.
pub proof fn lemma_streamed_request_staged(
    state: StreamBuilderView,
    extension: Seq<char>,
    target_width: i32,
    target_height: i32,
)
    requires
        state.started,
        state.header == header_frame(extension, target_width, target_height),
        extension.len() > 0,
    ensures
        ingest_all(initial(), sent(state)) == Some(
            AssemblerView {
                extension: Some(extension),
                dimensions: requested_dimensions(target_width, target_height),
                staged: join_chunks(state.reads),
            },
        ),
{
    lemma_any_chunking_staged(extension, target_width, target_height, state.reads);
}

/// The request stream built for a file stages that file's bytes exactly.
pub proof fn lemma_built_request_staged(
    extension: Seq<char>,
    target_width: i32,
    target_height: i32,
    data: Seq<u8>,
)
    requires
        extension.len() > 0,
    ensures
        ingest_all(initial(), request_frames(extension, target_width, target_height, data)) == Some(
            AssemblerView {
                extension: Some(extension),
                dimensions: requested_dimensions(target_width, target_height),
                staged: data,
            },
        ),
{
    lemma_split_join(data, CHUNK_SIZE as int);
    lemma_any_chunking_staged(
        extension,
        target_width,
        target_height,
        split_chunks(data, CHUNK_SIZE as int),
    );
}

} // verus!
