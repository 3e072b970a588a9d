//! The line transport: bytes from the link, one read at a time, put
//! together into lines.
//!
//! A line ends with the terminator, which is not part of it. The caller
//! owns the link: it reads, and hands over what each read gave.

use vstd::prelude::*;
use crate::codec::TERMINATOR;
use crate::error::bytes_result;
use crate::error::Error;
use crate::error::ErrorView;

verus! {

/// What one read of the link gave.
#[derive(Clone, Copy, Debug, PartialEq, Eq)]
pub enum ReadOutcome {
    /// One byte.
    Byte(u8),
    /// The read came back without a byte and without a failure.
    Nothing,
    /// No byte arrived within the read timeout.
    TimedOut,
    /// The link failed.
    Failed,
}

/// Where a line stands after one more read: the bytes gathered for the
/// line to come, and how the line ended if it did.
pub struct LineStep {
    pub buffer: Seq<u8>,
    pub outcome: Option<Result<Seq<u8>, ErrorView>>,
}

/// One step of line assembly, on the bytes in `buffer` and one read.
///
/// A buffer longer than `limit` is too long whatever was read. Else a
/// timeout or a failure of the link ends the line with that error; the
/// terminator ends it well, with the buffer as the line; any other byte
/// is added, unless the line would then be longer than `limit`. Whenever
/// a line ends, well or not, the buffer is empty again.
pub open spec fn line_step(buffer: Seq<u8>, read: ReadOutcome, limit: int) -> LineStep {
    if buffer.len() > limit {
        LineStep {
            buffer: Seq::empty(),
            outcome: Some(Err(ErrorView::LineTooLong { limit: limit as usize })),
        }
    } else {
        match read {
            ReadOutcome::TimedOut => LineStep {
                buffer: Seq::empty(),
                outcome: Some(Err(ErrorView::Timeout)),
            },
            ReadOutcome::Failed => LineStep {
                buffer: Seq::empty(),
                outcome: Some(Err(ErrorView::Transport)),
            },
            ReadOutcome::Nothing => LineStep { buffer, outcome: None },
            ReadOutcome::Byte(b) => if b == TERMINATOR {
                LineStep { buffer: Seq::empty(), outcome: Some(Ok(buffer)) }
            } else if buffer.len() + 1 > limit {
                LineStep {
                    buffer: Seq::empty(),
                    outcome: Some(Err(ErrorView::LineTooLong { limit: limit as usize })),
                }
            } else {
                LineStep { buffer: buffer.push(b), outcome: None }
            },
        }
    }
}

/// The view of what a step handed out.
pub open spec fn step_outcome(outcome: Option<Result<Vec<u8>, Error>>) -> Option<
    Result<Seq<u8>, ErrorView>,
> {
    match outcome {
        None => None,
        Some(r) => Some(bytes_result(r)),
    }
}

/// Takes what one read gave into `buffer`.
///
/// Gives the line, without its terminator, once it is complete; the
/// error, if the line cannot be had; `None` while more is to be read.
pub fn receive_line_raw(buffer: &mut Vec<u8>, read: ReadOutcome, limit: usize) -> (outcome: Option<
    Result<Vec<u8>, Error>,
>)
    ensures
        final(buffer)@ == line_step(old(buffer)@, read, limit as int).buffer,
        step_outcome(outcome) == line_step(old(buffer)@, read, limit as int).outcome,
{
    if buffer.len() > limit {
        buffer.clear();
        return Some(Err(Error::LineTooLong { limit }));
    }
    match read {
        ReadOutcome::TimedOut => {
            buffer.clear();
            Some(Err(Error::Timeout))
        },
        ReadOutcome::Failed => {
            buffer.clear();
            Some(Err(Error::Transport))
        },
        ReadOutcome::Nothing => None,
        ReadOutcome::Byte(b) => {
            if b == TERMINATOR {
                let mut line: Vec<u8> = Vec::new();
                core::mem::swap(buffer, &mut line);
                Some(Ok(line))
            } else if buffer.len() >= limit {
                buffer.clear();
                Some(Err(Error::LineTooLong { limit }))
            } else {
                buffer.push(b);
                None
            }
        },
    }
}

/// A line that fits arrives whole; one that does not is cut off.
///
/// Let `text`, without a terminator in it, be about to follow what is
/// in `buffer`, which is within the limit. As long as the line stays
/// within the limit, each byte is added and the wait goes on; the
/// terminator then ends the line, which is all that was gathered. The
/// byte that takes the line over the limit ends it with `LineTooLong`.
pub proof fn lemma_line_arrives(buffer: Seq<u8>, text: Seq<u8>, limit: int)
    requires
        buffer.len() <= limit,
        forall|k: int| 0 <= k < text.len() ==> text[k] != TERMINATOR,
    ensures
        forall|k: int|
            0 <= k < text.len() && buffer.len() + k < limit ==> #[trigger] line_step(
                buffer + text.take(k),
                ReadOutcome::Byte(text[k]),
                limit,
            ) == (LineStep { buffer: buffer + text.take(k + 1), outcome: None }),
        forall|k: int|
            0 <= k < text.len() && buffer.len() + k == limit ==> #[trigger] line_step(
                buffer + text.take(k),
                ReadOutcome::Byte(text[k]),
                limit,
            ) == (LineStep {
                buffer: Seq::empty(),
                outcome: Some(Err(ErrorView::LineTooLong { limit: limit as usize })),
            }),
        buffer.len() + text.len() <= limit ==> line_step(
            buffer + text,
            ReadOutcome::Byte(TERMINATOR),
            limit,
        ) == (LineStep { buffer: Seq::empty(), outcome: Some(Ok(buffer + text)) }),
{
    assert forall|k: int| 0 <= k < text.len() && buffer.len() + k < limit implies #[trigger] line_step(
        buffer + text.take(k),
        ReadOutcome::Byte(text[k]),
        limit,
    ) == (LineStep { buffer: buffer + text.take(k + 1), outcome: None }) by {
        assert((buffer + text.take(k)).push(text[k]) =~= buffer + text.take(k + 1));
    }
}

} // verus!
