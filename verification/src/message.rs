//! The message classifier: what a line from the device is, by its first
//! byte.

use vstd::prelude::*;
use vstd::slice::slice_subrange;
use vstd::slice::slice_to_vec;

verus! {

/// `#`, the first byte of a debug line.
pub const DEBUG_TAG: u8 = 0x23;

/// `!`, the first byte of an error line.
pub const ERROR_TAG: u8 = 0x21;

/// `p`, the first byte of the reply to a synchronization ping.
pub const SYNC_REPLY_TAG: u8 = 0x70;

/// A line from the device, told apart by its first byte.
#[derive(Debug, PartialEq, Eq)]
pub enum Message {
    /// Out-of-band text, never the response to a command.
    Debug(Vec<u8>),
    /// The device reports an error: its text, trimmed.
    DeviceError(Vec<u8>),
    /// The reply to a synchronization ping: the token that it echoes.
    SyncReply(Vec<u8>),
    /// Any other line, whole: a response, for the command to interpret.
    Data(Vec<u8>),
}

/// A [`Message`] with its bytes as sequences.
pub enum MessageView {
    Debug(Seq<u8>),
    DeviceError(Seq<u8>),
    SyncReply(Seq<u8>),
    Data(Seq<u8>),
}

impl View for Message {
    type V = MessageView;

    open spec fn view(&self) -> MessageView {
        match *self {
            Message::Debug(text) => MessageView::Debug(text@),
            Message::DeviceError(text) => MessageView::DeviceError(text@),
            Message::SyncReply(token) => MessageView::SyncReply(token@),
            Message::Data(line) => MessageView::Data(line@),
        }
    }
}

/// Whether `b` is ASCII white space: a blank, or one of the controls
/// from tab to carriage return.
pub open spec fn is_space(b: u8) -> bool {
    b == 0x20 || 0x09 <= b <= 0x0D
}

/// `text` without the white space at its start.
pub open spec fn trim_start(text: Seq<u8>) -> Seq<u8>
    decreases text.len(),
{
    if text.len() > 0 && is_space(text[0]) {
        trim_start(text.skip(1))
    } else {
        text
    }
}

/// `text` without the white space at its end.
pub open spec fn trim_end(text: Seq<u8>) -> Seq<u8>
    decreases text.len(),
{
    if text.len() > 0 && is_space(text.last()) {
        trim_end(text.drop_last())
    } else {
        text
    }
}

/// `text` without the white space at either end.
pub open spec fn trim(text: Seq<u8>) -> Seq<u8> {
    trim_end(trim_start(text))
}

/// What a line is. An empty line is nothing at all.
pub open spec fn classify_line(line: Seq<u8>) -> Option<MessageView> {
    if line.len() == 0 {
        None
    } else if line[0] == DEBUG_TAG {
        Some(MessageView::Debug(line.skip(1)))
    } else if line[0] == ERROR_TAG {
        Some(MessageView::DeviceError(trim(line.skip(1))))
    } else if line[0] == SYNC_REPLY_TAG {
        Some(MessageView::SyncReply(line.skip(1)))
    } else {
        Some(MessageView::Data(line))
    }
}

/// Dropping white space from the start leaves the same as dropping it
/// from what follows a first byte of white space.
proof fn lemma_trim_start_from(text: Seq<u8>, start: int)
    requires
        0 <= start <= text.len(),
        forall|j: int| 0 <= j < start ==> is_space(#[trigger] text[j]),
    ensures
        trim_start(text) == trim_start(text.skip(start)),
    decreases start,
{
    if start > 0 {
        lemma_trim_start_from(text.skip(1), start - 1);
        assert(text.skip(1).skip(start - 1) =~= text.skip(start));
    } else {
        assert(text.skip(0) =~= text);
    }
}

/// The same, for the end of the text.
proof fn lemma_trim_end_to(text: Seq<u8>, end: int)
    requires
        0 <= end <= text.len(),
        forall|j: int| end <= j < text.len() ==> is_space(#[trigger] text[j]),
    ensures
        trim_end(text) == trim_end(text.take(end)),
    decreases text.len() - end,
{
    if end < text.len() {
        lemma_trim_end_to(text.drop_last(), end);
        assert(text.drop_last().take(end) =~= text.take(end));
    } else {
        assert(text.take(end) =~= text);
    }
}

/// Whether `b` is ASCII white space.
pub fn is_space_byte(b: u8) -> (space: bool)
    ensures
        space == is_space(b),
{
    b == 0x20 || (0x09 <= b && b <= 0x0D)
}

/// The part of `text` between the white space at its ends.
pub fn trimmed(text: &[u8]) -> (part: &[u8])
    ensures
        part@ == trim(text@),
{
    let mut start: usize = 0;
    while start < text.len() && is_space_byte(text[start])
        invariant
            start <= text.len(),
            forall|j: int| 0 <= j < start ==> is_space(#[trigger] text@[j]),
        decreases text.len() - start,
    {
        start += 1;
    }
    let mut end: usize = text.len();
    while end > start && is_space_byte(text[end - 1])
        invariant
            start <= end <= text.len(),
            forall|j: int| end <= j < text.len() ==> is_space(#[trigger] text@[j]),
        decreases end,
    {
        end -= 1;
    }
    let part = slice_subrange(text, start, end);
    proof {
        let rest = text@.skip(start as int);
        lemma_trim_start_from(text@, start as int);
        lemma_trim_end_to(rest, end - start);
    }
    part
}

/// The part of `text` before the white space at its end.
pub fn trimmed_end(text: &[u8]) -> (part: &[u8])
    ensures
        part@ == trim_end(text@),
{
    let mut end: usize = text.len();
    while end > 0 && is_space_byte(text[end - 1])
        invariant
            end <= text.len(),
            forall|j: int| end <= j < text.len() ==> is_space(#[trigger] text@[j]),
        decreases end,
    {
        end -= 1;
    }
    let part = slice_subrange(text, 0, end);
    proof {
        lemma_trim_end_to(text@, end as int);
    }
    part
}

/// Tells what `line` is, by its first byte.
pub fn classify(line: &[u8]) -> (message: Option<Message>)
    ensures
        match message {
            None => classify_line(line@) is None,
            Some(m) => classify_line(line@) == Some(m@),
        },
{
    if line.len() == 0 {
        return None;
    }
    let rest = slice_subrange(line, 1, line.len());
    let tag: u8 = line[0];
    if tag == DEBUG_TAG {
        Some(Message::Debug(slice_to_vec(rest)))
    } else if tag == ERROR_TAG {
        Some(Message::DeviceError(slice_to_vec(trimmed(rest))))
    } else if tag == SYNC_REPLY_TAG {
        Some(Message::SyncReply(slice_to_vec(rest)))
    } else {
        Some(Message::Data(slice_to_vec(line)))
    }
}

} // verus!
