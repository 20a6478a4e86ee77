//! What holds of every run of a decoder session, whatever the native library
//! answers: each native instance is closed once, each image buffer is freed
//! once and read only before that, a settled result is never changed, and the
//! decode ends after a bounded number of calls.

use vstd::prelude::*;
use crate::raster::TransformedImage;
use crate::session::{
    answers, Action, DecodeError, DecodeOptions, DecoderSession, Event, Layout,
    LibRawProcessedImage, Phase, COMPRESSED_KIND,
};

verus! {

/// One answer of the driver, with what decoding its bytes gave.
pub struct Answer {
    pub event: Event,
    pub decoded: Result<TransformedImage, String>,
}

/// A session that has made no call yet.
pub open spec fn fresh(options: DecodeOptions) -> DecoderSession {
    DecoderSession {
        options,
        phase: Phase::Init,
        state: crate::session::SessionState::Created,
        notice: None,
    }
}

/// The session after a sequence of answers.
pub open spec fn run(start: DecoderSession, trace: Seq<Answer>) -> DecoderSession
    decreases trace.len(),
{
    if trace.len() == 0 {
        start
    } else {
        run(start, trace.drop_last()).next(trace.last().event, trace.last().decoded)
    }
}

/// Whether the driver made the call `action` and reported `event` for it.
pub open spec fn performed(session: DecoderSession, answer: Answer, action: Action) -> bool {
    session.pending_spec() == action && answers(action, answer.event)
}

/// Number of native instances that the library handed out during the run.
pub open spec fn instances_opened(start: DecoderSession, trace: Seq<Answer>) -> nat
    decreases trace.len(),
{
    if trace.len() == 0 {
        0
    } else {
        let before = run(start, trace.drop_last());
        instances_opened(start, trace.drop_last()) + if performed(
            before,
            trace.last(),
            Action::Init,
        ) && trace.last().event == Event::Handle(true) {
            1nat
        } else {
            0nat
        }
    }
}

/// Number of `Close` calls made during the run.
pub open spec fn instances_closed(start: DecoderSession, trace: Seq<Answer>) -> nat
    decreases trace.len(),
{
    if trace.len() == 0 {
        0
    } else {
        let before = run(start, trace.drop_last());
        instances_closed(start, trace.drop_last()) + if performed(
            before,
            trace.last(),
            Action::Close,
        ) {
            1nat
        } else {
            0nat
        }
    }
}

/// Number of image buffers that the library handed out during the run.
pub open spec fn buffers_obtained(start: DecoderSession, trace: Seq<Answer>) -> nat
    decreases trace.len(),
{
    if trace.len() == 0 {
        0
    } else {
        let before = run(start, trace.drop_last());
        buffers_obtained(start, trace.drop_last()) + if performed(
            before,
            trace.last(),
            Action::MakeMemImage,
        ) && trace.last().event matches Event::Image(Some(_), _) {
            1nat
        } else {
            0nat
        }
    }
}

/// Number of `FreeImage` calls made during the run.
pub open spec fn buffers_freed(start: DecoderSession, trace: Seq<Answer>) -> nat
    decreases trace.len(),
{
    if trace.len() == 0 {
        0
    } else {
        let before = run(start, trace.drop_last());
        buffers_freed(start, trace.drop_last()) + if performed(
            before,
            trace.last(),
            Action::FreeImage,
        ) {
            1nat
        } else {
            0nat
        }
    }
}

/// Number of answers in the run that answered the pending call.
pub open spec fn calls_made(start: DecoderSession, trace: Seq<Answer>) -> nat
    decreases trace.len(),
{
    if trace.len() == 0 {
        0
    } else {
        let before = run(start, trace.drop_last());
        calls_made(start, trace.drop_last()) + if answers(
            before.pending_spec(),
            trace.last().event,
        ) {
            1nat
        } else {
            0nat
        }
    }
}

/// 1 if the condition holds, else 0.
pub open spec fn one_if(condition: bool) -> int {
    if condition {
        1
    } else {
        0
    }
}

/// After any run of a fresh session, the instances opened and not yet closed
/// are the one that the session holds, if it holds one, and likewise the image
/// buffers obtained and not yet freed. At most one instance is ever opened.
pub proof fn lemma_resources_balance(options: DecodeOptions, trace: Seq<Answer>)
    ensures
        instances_opened(fresh(options), trace) - instances_closed(fresh(options), trace)
            == one_if(run(fresh(options), trace).phase.holds_handle()),
        buffers_obtained(fresh(options), trace) - buffers_freed(fresh(options), trace) == one_if(
            run(fresh(options), trace).phase.holds_buffer(),
        ),
        instances_opened(fresh(options), trace) <= 1,
        run(fresh(options), trace).phase is Init ==> instances_opened(fresh(options), trace) == 0,
    decreases trace.len(),
{
    if trace.len() > 0 {
        lemma_resources_balance(options, trace.drop_last());
    }
}

/// A fresh session that has finished closed every instance that it opened,
/// exactly once, and freed every image buffer that it obtained, exactly once,
/// whatever the native calls answered.
pub proof fn lemma_finished_session_released_everything(options: DecodeOptions, trace: Seq<Answer>)
    requires
        run(fresh(options), trace).finished(),
    ensures
        instances_closed(fresh(options), trace) == instances_opened(fresh(options), trace),
        instances_opened(fresh(options), trace) <= 1,
        buffers_freed(fresh(options), trace) == buffers_obtained(fresh(options), trace),
{
    lemma_resources_balance(options, trace);
}

/// Bytes of an image buffer are asked for, and the buffer is freed, only
/// while the session holds a buffer; the instance is closed only while the
/// session holds one, and never with a buffer still held.
pub proof fn lemma_calls_match_holdings(session: DecoderSession)
    ensures
        session.pending_spec() is CopyBytes ==> session.phase.holds_buffer(),
        session.pending_spec() is FreeImage ==> session.phase.holds_buffer(),
        session.pending_spec() is Close ==> session.phase.holds_handle()
            && !session.phase.holds_buffer(),
        session.phase.holds_buffer() ==> session.phase.holds_handle(),
        session.finished() ==> !session.phase.holds_handle() && !session.phase.holds_buffer(),
{
}

/// Whether the call `next` may follow the call `call` in a session: the
/// order of the protocol. After the instance is requested comes the raw
/// buffer, then the unpacking, then the three settings; then the preview or
/// the processing; an image is copied and freed, a missing one explained;
/// and every path ends with the closing of the instance, but the one on
/// which there never was an instance.
pub open spec fn may_follow(call: Action, next: Action) -> bool {
    match call {
        Action::Init => next is OpenBuffer || next is Finish,
        Action::OpenBuffer => next is Unpack || next is Close,
        Action::Unpack => next is SetOutputBps || next is Close,
        Action::SetOutputBps(_) => next is SetOutputColor,
        Action::SetOutputColor(_) => next is SetNoAutoBright,
        Action::SetNoAutoBright(_) => next is MakeMemImage || next is Process,
        Action::MakeMemImage => next is CopyBytes || next is FreeImage || next is ErrorText,
        Action::ErrorText(_) => next is Process || next is Close,
        Action::Process => next is MakeMemImage || next is Close,
        Action::CopyBytes(_) => next is FreeImage,
        Action::FreeImage => next is ErrorText || next is Close,
        Action::Close => next is Finish,
        Action::Finish => false,
    }
}

/// The calls of a session come in the order of the protocol: the call that
/// a session asks for after an answer may follow the call that was
/// answered.
pub proof fn lemma_calls_come_in_order(session: DecoderSession, answer: Answer)
    requires
        answers(session.pending_spec(), answer.event),
    ensures
        may_follow(
            session.pending_spec(),
            session.next(answer.event, answer.decoded).pending_spec(),
        ),
{
}

/// Every answered call brings the session nearer to its end, and an answer
/// to another call than the pending one changes nothing.
pub proof fn lemma_answer_makes_progress(session: DecoderSession, answer: Answer)
    ensures
        answers(session.pending_spec(), answer.event) ==> session.next(
            answer.event,
            answer.decoded,
        ).phase.calls_left() < session.phase.calls_left(),
        !answers(session.pending_spec(), answer.event) ==> session.next(
            answer.event,
            answer.decoded,
        ) == session,
{
}

/// A session needs at most fifteen answered calls: the calls made during a
/// run and those that may still follow never exceed what the start allowed.
pub proof fn lemma_run_is_bounded(start: DecoderSession, trace: Seq<Answer>)
    ensures
        calls_made(start, trace) + run(start, trace).phase.calls_left()
            <= start.phase.calls_left(),
        start.phase.calls_left() <= 15,
        run(start, trace).phase.calls_left() == 0 <==> run(start, trace).finished(),
    decreases trace.len(),
{
    if trace.len() > 0 {
        lemma_run_is_bounded(start, trace.drop_last());
        lemma_answer_makes_progress(run(start, trace.drop_last()), trace.last());
    }
}

/// Once the result of a decode is settled, no later answer changes it, and
/// the session leaves its options as they were.
pub proof fn lemma_settled_result_is_kept(start: DecoderSession, trace: Seq<Answer>)
    ensures
        start.phase.settled() is Some ==> run(start, trace).phase.settled()
            == start.phase.settled(),
        run(start, trace).options == start.options,
    decreases trace.len(),
{
    if trace.len() > 0 {
        lemma_settled_result_is_kept(start, trace.drop_last());
    }
}

/// The phases in which only copying, freeing and closing are left.
pub open spec fn winding_down(phase: Phase) -> bool {
    phase is Copy || phase is Release || phase is Close || phase is Done
}

/// From a phase in which only copying, freeing and closing are left, the
/// session never asks for another decoding step.
pub proof fn lemma_winding_down_stays(start: DecoderSession, trace: Seq<Answer>)
    requires
        winding_down(start.phase),
    ensures
        winding_down(run(start, trace).phase),
        !(run(start, trace).pending_spec() is Process),
        !(run(start, trace).pending_spec() is MakeMemImage),
        run(start, trace).state == start.state || run(start, trace).state
            == crate::session::SessionState::Closed,
    decreases trace.len(),
{
    if trace.len() > 0 {
        lemma_winding_down_stays(start, trace.drop_last());
    }
}

/// A preview that is a compressed payload with at least one byte is decoded
/// directly: the session copies the whole payload, the result is what
/// decoding it gave, and the full processing step is never asked for.
pub proof fn lemma_compressed_preview_skips_processing(
    session: DecoderSession,
    header: LibRawProcessedImage,
    code: i32,
    payload: Answer,
    rest: Seq<Answer>,
)
    requires
        session.wf(),
        session.phase is Preview,
        header.type_ == COMPRESSED_KIND,
        header.data_size > 0,
        payload.event matches Event::Bytes(bytes) && bytes@.len() == header.data_size,
    ensures
        ({
            let copying = session.next(Event::Image(Some(header), code), payload.decoded);
            let settled = copying.next(payload.event, payload.decoded);
            let end = run(settled, rest);
            &&& copying.pending_spec() == Action::CopyBytes(header.data_size as usize)
            &&& settled.phase.settled() == Some(
                match payload.decoded {
                    Ok(img) => Ok::<TransformedImage, DecodeError>(img),
                    Err(why) => Err(DecodeError::CorruptPayloadError(why)),
                },
            )
            &&& end.phase.settled() == settled.phase.settled()
            &&& !(end.pending_spec() is Process)
            &&& !(end.state is Processed)
        }),
{
    let copying = session.next(Event::Image(Some(header), code), payload.decoded);
    let settled = copying.next(payload.event, payload.decoded);
    assert(copying.phase == Phase::Copy(Layout::Compressed, header.data_size as usize));
    lemma_winding_down_stays(settled, rest);
    lemma_settled_result_is_kept(settled, rest);
}

/// A pixel grid of 8 bits per channel whose buffer is shorter than width x
/// height x channels is refused as truncated: the session frees the buffer
/// without copying a byte, and the decode ends with that error.
pub proof fn lemma_truncated_grid_is_refused(
    session: DecoderSession,
    header: LibRawProcessedImage,
    code: i32,
    decoded: Result<TransformedImage, String>,
    rest: Seq<Answer>,
)
    requires
        session.phase is Extract || (session.phase is Preview && header.data_size > 0),
        header.type_ != COMPRESSED_KIND,
        header.bits == 8,
        header.data_size < header.expected_len(),
    ensures
        ({
            let refused = Err::<TransformedImage, DecodeError>(
                DecodeError::TruncatedBufferError {
                    actual: header.data_size,
                    expected: header.expected_len() as u64,
                },
            );
            let after = session.next(Event::Image(Some(header), code), decoded);
            let end = run(after, rest);
            &&& after.phase == Phase::Release(refused)
            &&& after.pending_spec() == Action::FreeImage
            &&& end.phase.settled() == Some(refused)
            &&& !(end.pending_spec() is CopyBytes)
        }),
{
    let after = session.next(Event::Image(Some(header), code), decoded);
    lemma_settled_result_is_kept(after, rest);
    lemma_no_copy_once_settled(after, rest);
}

/// Once the result is settled, no byte of an image buffer is asked for.
pub proof fn lemma_no_copy_once_settled(start: DecoderSession, trace: Seq<Answer>)
    requires
        start.phase.settled() is Some,
    ensures
        !(run(start, trace).pending_spec() is CopyBytes),
{
    lemma_settled_result_is_kept(start, trace);
}

} // verus!
