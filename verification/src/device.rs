//! The session with one device: its settings and what it knows of the
//! link.

use vstd::prelude::*;
use vstd::slice::slice_subrange;
use vstd::slice::slice_to_vec;
use crate::bytes;
use crate::codec::TERMINATOR;
use crate::error::bytes_result;
use crate::error::unit_result;
use crate::error::is_timeout;
use crate::error::Error;
use crate::error::ErrorView;
use crate::line::line_step;
use crate::line::receive_line_raw;
use crate::line::step_outcome;
use crate::line::LineStep;
use crate::line::ReadOutcome;
use crate::message::classify;
use crate::message::classify_line;
use crate::message::Message;
use crate::message::MessageView;
use crate::message::trim_end;
use crate::message::trimmed_end;
use crate::message::DEBUG_TAG;
use crate::message::ERROR_TAG;

verus! {

/// The number of bytes that a device can address.
pub const MEMORY_SIZE: usize = 0x10000;

/// How to talk to a device. Every time span is in microseconds.
#[derive(Copy, Clone, Debug, PartialEq, Eq)]
pub struct DeviceSettings {
    /// Port baud rate.
    pub baud_rate: u32,
    /// Read timeout once the link has answered.
    pub timeout: u64,
    /// Read timeout until the first operation on the link has succeeded:
    /// a link that was just opened may be slow to answer.
    pub initial_timeout: u64,
    /// Mirror the info lines, which begin with `#`, that the device sends.
    pub show_info_messages: bool,
    /// Mirror every line that goes to the device or comes from it.
    pub show_all_messages: bool,
    /// How long a synchronization may wait for its reply.
    pub sync_timeout: u64,
}

impl Default for DeviceSettings {
    fn default() -> (settings: DeviceSettings)
        ensures
            settings == (DeviceSettings {
                baud_rate: 250_000,
                timeout: 1_000_000,
                initial_timeout: 2_000_000,
                show_info_messages: false,
                show_all_messages: false,
                sync_timeout: 2_000_000,
            }),
    {
        DeviceSettings {
            baud_rate: 250_000,
            timeout: 1_000_000,
            initial_timeout: 2_000_000,
            show_info_messages: false,
            show_all_messages: false,
            sync_timeout: 2_000_000,
        }
    }
}

/// What one step of an operation on the link hands back.
#[derive(Debug, PartialEq, Eq)]
pub struct Step<T> {
    /// The line that has just arrived, where the settings ask for it to
    /// be shown.
    pub mirror: Option<Vec<u8>>,
    /// How the operation ended; `None` while it goes on, and the link is
    /// to be read again.
    pub outcome: Option<Result<T, Error>>,
}

/// Whether a line from the device is to be shown: every line where all
/// are asked for, the info lines where those are.
pub open spec fn shows_inbound(settings: DeviceSettings, line: Seq<u8>) -> bool {
    settings.show_all_messages || (settings.show_info_messages && line.len() > 0 && line[0]
        == DEBUG_TAG)
}

/// The line to show after a step of line assembly, if any.
pub open spec fn mirrored(settings: DeviceSettings, raw: Option<Result<Seq<u8>, ErrorView>>) -> Option<
    Seq<u8>,
> {
    match raw {
        Some(Ok(line)) => if shows_inbound(settings, line) {
            Some(line)
        } else {
            None
        },
        _ => None,
    }
}

/// What a step of line assembly comes to for a command that awaits its
/// response.
///
/// An empty line and a debug line are passed over: the wait goes on. An
/// error line fails the command with its text, trimmed. Any other line
/// is the response, whole.
pub open spec fn receive_outcome(raw: Option<Result<Seq<u8>, ErrorView>>) -> Option<
    Result<Seq<u8>, ErrorView>,
> {
    match raw {
        None => None,
        Some(Err(e)) => Some(Err(e)),
        Some(Ok(line)) => match classify_line(line) {
            None => None,
            Some(MessageView::Debug(_)) => None,
            Some(MessageView::DeviceError(message)) => Some(
                Err(ErrorView::DeviceError { message }),
            ),
            Some(_) => Some(Ok(line)),
        },
    }
}

/// What a command that awaits its response makes of the bytes `bytes`,
/// as they arrive one by one after what is in `buffer`: the first outcome
/// that there is, with the buffer as that step leaves it, or no outcome
/// yet, with all the bytes taken.
pub open spec fn receive_all(buffer: Seq<u8>, bytes: Seq<u8>, limit: int) -> LineStep
    decreases bytes.len(),
{
    if bytes.len() == 0 {
        LineStep { buffer, outcome: None }
    } else {
        let step = line_step(buffer, ReadOutcome::Byte(bytes[0]), limit);
        if receive_outcome(step.outcome) is Some {
            LineStep { buffer: step.buffer, outcome: receive_outcome(step.outcome) }
        } else {
            receive_all(step.buffer, bytes.skip(1), limit)
        }
    }
}

/// The view of the line that a step asks to show.
pub open spec fn step_mirror(mirror: Option<Vec<u8>>) -> Option<Seq<u8>> {
    match mirror {
        None => None,
        Some(line) => Some(line@),
    }
}

/// What the outcome of a step comes to for a caller that waits on
/// through read timeouts while `in_time` holds.
pub open spec fn patient_outcome(
    outcome: Option<Result<Seq<u8>, ErrorView>>,
    in_time: bool,
) -> Option<Result<Seq<u8>, ErrorView>> {
    if outcome == Some(Err::<Seq<u8>, ErrorView>(ErrorView::Timeout)) && in_time {
        None
    } else {
        outcome
    }
}

/// `V`, the version query, and the first byte of the response to it.
pub const VERSION_TAG: u8 = 0x56;

/// `E`, the command that enables external control.
pub const EXTERNAL_CONTROL_TAG: u8 = 0x45;

/// `T`, the command that runs the device's self-test.
pub const SELF_TEST_TAG: u8 = 0x54;

/// The line limit for the version response while a link is checked.
pub const CHECK_LIMIT: usize = 24;

/// The line limit for the response to a version query.
pub const VERSION_LIMIT: usize = 64;

/// The line limit for the response to the external control command.
pub const EXTERNAL_CONTROL_LIMIT: usize = 64;

/// The line limit for the response to the self-test command.
pub const SELF_TEST_LIMIT: usize = 128;

/// `VROME`, with which the version of every device in this family
/// begins.
pub open spec fn version_marker() -> Seq<u8> {
    seq![0x56u8, 0x52u8, 0x4Fu8, 0x4Du8, 0x45u8]
}

/// `EOK`, which confirms that external control is enabled.
pub open spec fn external_control_reply() -> Seq<u8> {
    seq![0x45u8, 0x4Fu8, 0x4Bu8]
}

/// `TOK`, the response of a device that passed its self-test.
pub open spec fn self_test_passed() -> Seq<u8> {
    seq![0x54u8, 0x4Fu8, 0x4Bu8]
}

/// `TFAIL`, the response of a device that failed its self-test.
pub open spec fn self_test_failed() -> Seq<u8> {
    seq![0x54u8, 0x46u8, 0x41u8, 0x49u8, 0x4Cu8]
}

/// The command that is its tag alone: the tag and the terminator.
pub fn plain_command(tag: u8) -> (command: Vec<u8>)
    ensures
        command@ == seq![tag, TERMINATOR],
{
    let command: Vec<u8> = vec![tag, TERMINATOR];
    command
}

/// One of the two synchronizations that the check of a link may take.
#[derive(Clone, Copy, Debug, PartialEq, Eq)]
pub enum SyncAttempt {
    First,
    Second,
}

/// What the owner of a link does next while the link is checked. The
/// check begins with the first synchronization.
#[derive(Debug, PartialEq, Eq)]
pub enum CheckStep {
    /// Synchronize, and report how that ended.
    Synchronize(SyncAttempt),
    /// The link is synchronized: query the version, and have the
    /// response judged.
    QueryVersion,
    /// The check has failed.
    Fail(Error),
}

/// A [`CheckStep`] with its error as a view.
pub enum CheckStepView {
    Synchronize(SyncAttempt),
    QueryVersion,
    Fail(ErrorView),
}

impl View for CheckStep {
    type V = CheckStepView;

    open spec fn view(&self) -> CheckStepView {
        match *self {
            CheckStep::Synchronize(attempt) => CheckStepView::Synchronize(attempt),
            CheckStep::QueryVersion => CheckStepView::QueryVersion,
            CheckStep::Fail(e) => CheckStepView::Fail(e@),
        }
    }
}

/// Decides what follows a synchronization that ended with `outcome`.
///
/// Only the read timeout of the first attempt is answered by a second
/// attempt: any other failure, and every failure of the second attempt,
/// fails the check.
pub fn after_sync(attempt: SyncAttempt, outcome: Result<(), Error>) -> (next: CheckStep)
    ensures
        next@ == match outcome {
            Ok(()) => CheckStepView::QueryVersion,
            Err(e) => if attempt == SyncAttempt::First && e@ == ErrorView::Timeout {
                CheckStepView::Synchronize(SyncAttempt::Second)
            } else {
                CheckStepView::Fail(e@)
            },
        },
{
    match outcome {
        Ok(()) => CheckStep::QueryVersion,
        Err(e) => {
            let first: bool = match attempt {
                SyncAttempt::First => true,
                SyncAttempt::Second => false,
            };
            if first && is_timeout(&e) {
                CheckStep::Synchronize(SyncAttempt::Second)
            } else {
                CheckStep::Fail(e)
            }
        },
    }
}

/// One device on one port.
pub struct Device {
    name: String,
    settings: DeviceSettings,
    default_timeout_applied: bool,
    line: Vec<u8>,
}

impl Device {
    /// The port's name.
    pub closed spec fn spec_name(&self) -> Seq<char> {
        self.name@
    }

    /// The settings that the device was made with.
    pub closed spec fn spec_settings(&self) -> DeviceSettings {
        self.settings
    }

    /// Whether the link has switched to its steady read timeout.
    pub closed spec fn default_timeout_applied(&self) -> bool {
        self.default_timeout_applied
    }

    /// The bytes of the line that is arriving.
    pub closed spec fn partial_line(&self) -> Seq<u8> {
        self.line@
    }

    /// A device on the port `port_name`, on whose link nothing has
    /// happened yet.
    pub fn new(port_name: &str, settings: &DeviceSettings) -> (device: Device)
        ensures
            device.spec_name() == port_name@,
            device.spec_settings() == *settings,
            !device.default_timeout_applied(),
            device.partial_line() == Seq::<u8>::empty(),
    {
        Device {
            name: port_name.to_owned(),
            settings: *settings,
            default_timeout_applied: false,
            line: Vec::new(),
        }
    }

    /// The port's name.
    pub fn name(&self) -> (name: &str)
        ensures
            name@ == self.spec_name(),
    {
        self.name.as_str()
    }

    /// The settings that the device was made with.
    pub fn settings(&self) -> (settings: DeviceSettings)
        ensures
            settings == self.spec_settings(),
    {
        self.settings
    }

    /// Whether the two are the same but for the line that is arriving.
    pub open spec fn same_link(&self, other: &Device) -> bool {
        &&& self.spec_name() == other.spec_name()
        &&& self.spec_settings() == other.spec_settings()
        &&& self.default_timeout_applied() == other.default_timeout_applied()
    }

    /// The read timeout that holds on the link now: the initial one until
    /// an operation has succeeded, the steady one from then on.
    pub fn read_timeout(&self) -> (timeout: u64)
        ensures
            timeout == if self.default_timeout_applied() {
                self.spec_settings().timeout
            } else {
                self.spec_settings().initial_timeout
            },
    {
        if self.default_timeout_applied {
            self.settings.timeout
        } else {
            self.settings.initial_timeout
        }
    }

    /// Records that an operation on the link has succeeded.
    ///
    /// After the first one the link goes over to its steady read timeout,
    /// for good: the call gives that timeout, for the caller to set. Every
    /// later call gives `None`.
    pub fn io_succeeded(&mut self) -> (timeout: Option<u64>)
        ensures
            final(self).default_timeout_applied(),
            final(self).spec_name() == old(self).spec_name(),
            final(self).spec_settings() == old(self).spec_settings(),
            final(self).partial_line() == old(self).partial_line(),
            timeout == if old(self).default_timeout_applied() {
                None
            } else {
                Some(old(self).spec_settings().timeout)
            },
    {
        if self.default_timeout_applied {
            None
        } else {
            self.default_timeout_applied = true;
            Some(self.settings.timeout)
        }
    }

    /// What to show of a command that goes to the device: the command
    /// without the white space at its end, where every line is asked for.
    pub fn send(&self, command: &[u8]) -> (mirror: Option<Vec<u8>>)
        ensures
            step_mirror(mirror) == if self.spec_settings().show_all_messages {
                Some(trim_end(command@))
            } else {
                None
            },
    {
        if self.settings.show_all_messages {
            Some(slice_to_vec(trimmed_end(command)))
        } else {
            None
        }
    }

    /// Takes what one read gave, for an operation that reads lines as
    /// they are.
    ///
    /// Gives the line once it is complete, or the error if it cannot be
    /// had, and asks for the line to be shown where the settings say so.
    pub fn receive_line(&mut self, read: ReadOutcome, limit: usize) -> (step: Step<Vec<u8>>)
        ensures
            final(self).same_link(old(self)),
            final(self).partial_line() == line_step(
                old(self).partial_line(),
                read,
                limit as int,
            ).buffer,
            step_outcome(step.outcome) == line_step(
                old(self).partial_line(),
                read,
                limit as int,
            ).outcome,
            step_mirror(step.mirror) == mirrored(
                old(self).spec_settings(),
                line_step(old(self).partial_line(), read, limit as int).outcome,
            ),
    {
        let outcome: Option<Result<Vec<u8>, Error>> = receive_line_raw(&mut self.line, read, limit);
        let mirror: Option<Vec<u8>> = match &outcome {
            Some(Ok(line)) => {
                if self.settings.show_all_messages || (self.settings.show_info_messages
                    && line.len() > 0 && line[0] == DEBUG_TAG) {
                    Some(slice_to_vec(line.as_slice()))
                } else {
                    None
                }
            },
            _ => None,
        };
        Step { mirror, outcome }
    }

    /// Takes what one read gave, for a command that awaits its response.
    ///
    /// Empty lines and debug lines are passed over, and never reach the
    /// caller but as lines to show. An error line fails the command with
    /// `DeviceError`. Any other line is the response. The outcome is
    /// `None` while the response is still to come.
    pub fn receive(&mut self, read: ReadOutcome, limit: usize) -> (step: Step<Vec<u8>>)
        ensures
            final(self).same_link(old(self)),
            final(self).partial_line() == line_step(
                old(self).partial_line(),
                read,
                limit as int,
            ).buffer,
            step_outcome(step.outcome) == receive_outcome(
                line_step(old(self).partial_line(), read, limit as int).outcome,
            ),
            step_mirror(step.mirror) == mirrored(
                old(self).spec_settings(),
                line_step(old(self).partial_line(), read, limit as int).outcome,
            ),
    {
        let raw: Step<Vec<u8>> = self.receive_line(read, limit);
        let outcome: Option<Result<Vec<u8>, Error>> = match raw.outcome {
            None => None,
            Some(Err(e)) => Some(Err(e)),
            Some(Ok(line)) => match classify(line.as_slice()) {
                None => None,
                Some(Message::Debug(_)) => None,
                Some(Message::DeviceError(message)) => Some(Err(Error::DeviceError { message })),
                Some(_) => Some(Ok(line)),
            },
        };
        Step { mirror: raw.mirror, outcome }
    }

    /// Takes what one read gave, at the time `now`, for a command whose
    /// response may take until `end_time`.
    ///
    /// As [`Device::receive`], but that a read timeout before `end_time`
    /// does not end the wait: what had arrived of a line is dropped, and
    /// the link is to be read again.
    pub fn receive_with_timeout(
        &mut self,
        read: ReadOutcome,
        limit: usize,
        now: u64,
        end_time: u64,
    ) -> (step: Step<Vec<u8>>)
        ensures
            final(self).same_link(old(self)),
            final(self).partial_line() == line_step(
                old(self).partial_line(),
                read,
                limit as int,
            ).buffer,
            step_outcome(step.outcome) == patient_outcome(
                receive_outcome(line_step(old(self).partial_line(), read, limit as int).outcome),
                now < end_time,
            ),
            step_mirror(step.mirror) == mirrored(
                old(self).spec_settings(),
                line_step(old(self).partial_line(), read, limit as int).outcome,
            ),
    {
        let step: Step<Vec<u8>> = self.receive(read, limit);
        let outcome: Option<Result<Vec<u8>, Error>> = match step.outcome {
            Some(Err(e)) => {
                if is_timeout(&e) && now < end_time {
                    None
                } else {
                    Some(Err(e))
                }
            },
            outcome => outcome,
        };
        Step { mirror: step.mirror, outcome }
    }

    /// Judges the response to the version query that follows the
    /// synchronization: the device is the one awaited where the response
    /// begins with the version marker.
    pub fn check(&self, response: &[u8]) -> (outcome: Result<(), Error>)
        ensures
            unit_result(outcome) == if version_marker().is_prefix_of(response@) {
                Ok(())
            } else {
                Err(ErrorView::ProtocolMismatch { response: response@, expected: version_marker() })
            },
    {
        let marker: Vec<u8> = vec![0x56u8, 0x52u8, 0x4Fu8, 0x4Du8, 0x45u8];
        if bytes::starts_with(response, marker.as_slice()) {
            Ok(())
        } else {
            Err(Error::ProtocolMismatch { response: slice_to_vec(response), expected: marker })
        }
    }

    /// Judges the response to the command that enables external control.
    pub fn enable_external_control(&self, response: &[u8]) -> (outcome: Result<(), Error>)
        ensures
            unit_result(outcome) == if response@ == external_control_reply() {
                Ok(())
            } else {
                Err(
                    ErrorView::ProtocolMismatch {
                        response: response@,
                        expected: external_control_reply(),
                    },
                )
            },
    {
        let reply: Vec<u8> = vec![0x45u8, 0x4Fu8, 0x4Bu8];
        if bytes::equal(response, reply.as_slice()) {
            Ok(())
        } else {
            Err(Error::ProtocolMismatch { response: slice_to_vec(response), expected: reply })
        }
    }

    /// Judges the response to the self-test command: whether the test
    /// passed.
    pub fn self_test(&self, response: &[u8]) -> (outcome: Result<bool, Error>)
        ensures
            match outcome {
                Ok(passed) => if passed {
                    response@ == self_test_passed()
                } else {
                    response@ == self_test_failed()
                },
                Err(e) => {
                    &&& response@ != self_test_passed()
                    &&& response@ != self_test_failed()
                    &&& e@ == (ErrorView::ProtocolMismatch {
                        response: response@,
                        expected: self_test_passed(),
                    })
                },
            },
    {
        let passed: Vec<u8> = vec![0x54u8, 0x4Fu8, 0x4Bu8];
        let failed: Vec<u8> = vec![0x54u8, 0x46u8, 0x41u8, 0x49u8, 0x4Cu8];
        if bytes::equal(response, passed.as_slice()) {
            Ok(true)
        } else if bytes::equal(response, failed.as_slice()) {
            Ok(false)
        } else {
            Err(Error::ProtocolMismatch { response: slice_to_vec(response), expected: passed })
        }
    }

    /// The version text in the response to a version query: what follows
    /// the version tag.
    pub fn version(&self, response: &[u8]) -> (text: Result<Vec<u8>, Error>)
        ensures
            bytes_result(text) == if response@.len() > 0 && response@[0] == VERSION_TAG {
                Ok(response@.skip(1))
            } else {
                Err(
                    ErrorView::ProtocolMismatch {
                        response: response@,
                        expected: seq![VERSION_TAG],
                    },
                )
            },
    {
        if response.len() > 0 && response[0] == VERSION_TAG {
            let text = slice_subrange(response, 1, response.len());
            Ok(slice_to_vec(text))
        } else {
            let expected: Vec<u8> = vec![VERSION_TAG];
            assert(expected@ =~= seq![VERSION_TAG]);
            Err(Error::ProtocolMismatch { response: slice_to_vec(response), expected })
        }
    }

    /// The number of bytes that the device can address. Every device of
    /// the family has the same; the size is asked of the device so that
    /// one with another memory can answer for itself.
    pub fn memory_size(&self) -> (size: Result<usize, Error>)
        ensures
            size == Ok::<usize, Error>(MEMORY_SIZE),
    {
        Ok(MEMORY_SIZE)
    }
}

/// What the terminator makes of the line gathered in `buffer`, for a
/// command that awaits its response.
///
/// An error line, which begins with `!`, fails the command with
/// `DeviceError`, which carries what follows the `!`, trimmed. A debug
/// line, which begins with `#`, and an empty line are passed over: the
/// wait goes on with an empty buffer, as if the line had never come. Any
/// other line is the response, whole.
pub proof fn lemma_receive_classifies(buffer: Seq<u8>, limit: int)
    requires
        buffer.len() <= limit,
    ensures
        line_step(buffer, ReadOutcome::Byte(TERMINATOR), limit).buffer == Seq::<u8>::empty(),
        buffer.len() > 0 && buffer[0] == ERROR_TAG ==> receive_outcome(
            line_step(buffer, ReadOutcome::Byte(TERMINATOR), limit).outcome,
        ) == Some(
            Err::<Seq<u8>, ErrorView>(
                ErrorView::DeviceError { message: crate::message::trim(buffer.skip(1)) },
            ),
        ),
        buffer.len() == 0 || buffer[0] == DEBUG_TAG ==> receive_outcome(
            line_step(buffer, ReadOutcome::Byte(TERMINATOR), limit).outcome,
        ) is None,
        buffer.len() > 0 && buffer[0] != ERROR_TAG && buffer[0] != DEBUG_TAG ==> receive_outcome(
            line_step(buffer, ReadOutcome::Byte(TERMINATOR), limit).outcome,
        ) == Some(Ok::<Seq<u8>, ErrorView>(buffer)),
{
}

/// A line that fits is taken whole, and judged when its terminator
/// arrives: its bytes end the wait where the line is an outcome, and
/// else the wait goes on with what follows the line, from an empty
/// buffer.
pub proof fn lemma_receive_line(buffer: Seq<u8>, text: Seq<u8>, rest: Seq<u8>, limit: int)
    requires
        forall|k: int| 0 <= k < text.len() ==> text[k] != TERMINATOR,
        buffer.len() + text.len() <= limit,
    ensures
        receive_all(buffer, text + seq![TERMINATOR] + rest, limit) == if receive_outcome(
            Some(Ok(buffer + text)),
        ) is Some {
            LineStep { buffer: Seq::empty(), outcome: receive_outcome(Some(Ok(buffer + text))) }
        } else {
            receive_all(Seq::empty(), rest, limit)
        },
    decreases text.len(),
{
    let bytes = text + seq![TERMINATOR] + rest;
    if text.len() == 0 {
        assert(bytes.skip(1) =~= rest);
    } else {
        assert(bytes.skip(1) =~= text.skip(1) + seq![TERMINATOR] + rest);
        lemma_receive_line(buffer.push(text[0]), text.skip(1), rest, limit);
        assert(buffer.push(text[0]) + text.skip(1) =~= buffer + text);
    }
}

/// Debug lines and empty lines do not show in the outcome of a wait.
///
/// Let a debug line, `#` and then `text`, or an empty line arrive while a
/// command awaits its response, and let the bytes `rest` follow it. The
/// wait then comes to what it would come to had `rest` arrived alone.
pub proof fn lemma_debug_line_is_passed_over(text: Seq<u8>, rest: Seq<u8>, limit: int)
    requires
        forall|k: int| 0 <= k < text.len() ==> text[k] != TERMINATOR,
        1 + text.len() <= limit,
    ensures
        receive_all(
            Seq::empty(),
            seq![DEBUG_TAG] + text + seq![TERMINATOR] + rest,
            limit,
        ) == receive_all(Seq::empty(), rest, limit),
        receive_all(Seq::empty(), seq![TERMINATOR] + rest, limit) == receive_all(
            Seq::empty(),
            rest,
            limit,
        ),
{
    let line = seq![DEBUG_TAG] + text;
    assert forall|k: int| 0 <= k < line.len() implies line[k] != TERMINATOR by {}
    lemma_receive_line(Seq::empty(), line, rest, limit);
    lemma_receive_line(Seq::empty(), Seq::empty(), rest, limit);
}

/// An error line ends the wait with `DeviceError`.
///
/// Let an error line, `!` and then `text`, arrive while a command awaits
/// its response. The wait then ends with the terminator of that line,
/// whatever follows, and the error carries `text`, trimmed.
pub proof fn lemma_error_line_fails(text: Seq<u8>, rest: Seq<u8>, limit: int)
    requires
        forall|k: int| 0 <= k < text.len() ==> text[k] != TERMINATOR,
        1 + text.len() <= limit,
    ensures
        receive_all(Seq::empty(), seq![ERROR_TAG] + text + seq![TERMINATOR] + rest, limit)
            == (LineStep {
            buffer: Seq::empty(),
            outcome: Some(Err(ErrorView::DeviceError { message: crate::message::trim(text) })),
        }),
{
    let line = seq![ERROR_TAG] + text;
    assert forall|k: int| 0 <= k < line.len() implies line[k] != TERMINATOR by {}
    lemma_receive_line(Seq::empty(), line, rest, limit);
    assert(line.skip(1) =~= text);
}

} // verus!
