//! The synchronization handshake.
//!
//! Bytes of an earlier session may still be on their way when a link is
//! opened. A ping with a token of its own, and the wait for the reply
//! that echoes the token, tell the answers of this session from them.

use vstd::prelude::*;
use crate::bytes;
use crate::codec::TERMINATOR;
use crate::device::mirrored;
use crate::device::step_mirror;
use crate::device::Device;
use crate::device::Step;
use crate::error::unit_result;
use crate::error::Error;
use crate::error::ErrorView;
use crate::line::line_step;
use crate::line::ReadOutcome;
use crate::message::SYNC_REPLY_TAG;

verus! {

/// `P`, the first byte of a ping command.
pub const PING_TAG: u8 = 0x50;

/// The longest line that is read while the reply is awaited.
pub const SYNC_LINE_LIMIT: usize = 64;

/// `n` in decimal digits, without leading zeros.
pub open spec fn decimal(n: nat) -> Seq<u8>
    decreases n,
{
    if n < 10 {
        seq![(0x30 + n) as u8]
    } else {
        decimal(n / 10).push((0x30 + n % 10) as u8)
    }
}

/// The ping that carries `token`: an empty line, which ends whatever the
/// device had begun to read, and then the command.
pub open spec fn ping_message(token: u64) -> Seq<u8> {
    seq![TERMINATOR, PING_TAG] + decimal(token as nat) + seq![TERMINATOR]
}

/// The line that answers the ping that carries `token`.
pub open spec fn ping_reply(token: u64) -> Seq<u8> {
    seq![SYNC_REPLY_TAG] + decimal(token as nat)
}

/// The time `span` after `now`, or the end of time where that is out of
/// reach.
pub open spec fn time_after(now: u64, span: u64) -> u64 {
    if now + span > u64::MAX {
        u64::MAX
    } else {
        (now + span) as u64
    }
}

/// What a step of line assembly comes to while the reply to a ping is
/// awaited.
///
/// Only the line `reply` ends the wait well. Every other line is passed
/// over, whatever it begins with, unless the deadline has passed by then:
/// that ends the wait with `SyncTimeout`.
pub open spec fn sync_outcome(
    raw: Option<Result<Seq<u8>, ErrorView>>,
    reply: Seq<u8>,
    late: bool,
) -> Option<Result<(), ErrorView>> {
    match raw {
        None => None,
        Some(Err(e)) => Some(Err(e)),
        Some(Ok(line)) => if line == reply {
            Some(Ok(()))
        } else if late {
            Some(Err(ErrorView::SyncTimeout))
        } else {
            None
        },
    }
}

/// What the wait for `reply` makes of the bytes `bytes`, as they arrive
/// one by one after what is in `buffer`, all of them before the deadline
/// or all of them after it: the first outcome that there is, with the
/// buffer as that step leaves it, or no outcome yet.
pub open spec fn sync_all(buffer: Seq<u8>, bytes: Seq<u8>, reply: Seq<u8>, late: bool) -> (
    Seq<u8>,
    Option<Result<(), ErrorView>>,
)
    decreases bytes.len(),
{
    if bytes.len() == 0 {
        (buffer, None)
    } else {
        let step = line_step(buffer, ReadOutcome::Byte(bytes[0]), SYNC_LINE_LIMIT as int);
        if sync_outcome(step.outcome, reply, late) is Some {
            (step.buffer, sync_outcome(step.outcome, reply, late))
        } else {
            sync_all(step.buffer, bytes.skip(1), reply, late)
        }
    }
}

/// The view of what a step of the wait handed out.
pub open spec fn sync_step_outcome(outcome: Option<Result<(), Error>>) -> Option<
    Result<(), ErrorView>,
> {
    match outcome {
        None => None,
        Some(r) => Some(unit_result(r)),
    }
}

/// Appends `n` in decimal digits to `out`.
pub fn push_decimal(out: &mut Vec<u8>, n: u64)
    ensures
        final(out)@ == old(out)@ + decimal(n as nat),
    decreases n,
{
    if n >= 10 {
        push_decimal(out, n / 10);
    }
    let digit: u8 = 0x30 + (n % 10) as u8;
    out.push(digit);
}

/// A ping that is still to be sent.
#[derive(Debug)]
pub struct Ping {
    token: u64,
}

impl Ping {
    /// The token that the ping carries.
    pub closed spec fn token(&self) -> u64 {
        self.token
    }

    /// A ping whose token is the time `now`, in microseconds: no two
    /// runs then send the same.
    pub fn new(now: u64) -> (ping: Ping)
        ensures
            ping.token() == now,
    {
        Ping { token: now }
    }

    /// The bytes to send.
    pub fn message(&self) -> (message: Vec<u8>)
        ensures
            message@ == ping_message(self.token()),
    {
        let mut message: Vec<u8> = Vec::new();
        message.push(TERMINATOR);
        message.push(PING_TAG);
        push_decimal(&mut message, self.token);
        message.push(TERMINATOR);
        message
    }

    /// The wait for the reply, which begins at the time `now`, once the
    /// ping is sent, and may last for `timeout`.
    pub fn sent(self, now: u64, timeout: u64) -> (sync: Sync)
        ensures
            sync.token() == self.token(),
            sync.deadline() == time_after(now, timeout),
    {
        let mut reply: Vec<u8> = Vec::new();
        reply.push(SYNC_REPLY_TAG);
        push_decimal(&mut reply, self.token);
        Sync { reply, token: self.token, deadline: now.saturating_add(timeout) }
    }
}

/// The wait for the reply to a ping.
#[derive(Debug)]
pub struct Sync {
    reply: Vec<u8>,
    token: u64,
    deadline: u64,
}

impl Sync {
    #[verifier::type_invariant]
    spec fn wf(self) -> bool {
        self.reply@ == ping_reply(self.token)
    }

    /// The token that the reply must echo.
    pub closed spec fn token(&self) -> u64 {
        self.token
    }

    /// The time after which a line that is not the reply ends the wait.
    pub closed spec fn deadline(&self) -> u64 {
        self.deadline
    }

    /// Whether `now` is past the deadline.
    pub fn is_late(&self, now: u64) -> (late: bool)
        ensures
            late == (now > self.deadline()),
    {
        now > self.deadline
    }

    /// Whether `line` is the reply that is awaited.
    pub fn is_reply(&self, line: &[u8]) -> (found: bool)
        ensures
            found == (line@ == ping_reply(self.token())),
    {
        proof {
            use_type_invariant(self);
        }
        bytes::equal(line, self.reply.as_slice())
    }
}

impl Device {
    /// Takes what one read gave, at the time `now`, while the reply to a
    /// ping is awaited.
    ///
    /// Lines are read as they are, none longer than `SYNC_LINE_LIMIT`.
    /// The wait ends well with the reply that echoes the token, and with
    /// nothing else. A line that is not that reply is passed over; where
    /// the deadline has passed by then, the wait ends with `SyncTimeout`.
    pub fn sync(&mut self, sync: &Sync, read: ReadOutcome, now: u64) -> (step: Step<()>)
        ensures
            final(self).same_link(old(self)),
            final(self).partial_line() == line_step(
                old(self).partial_line(),
                read,
                SYNC_LINE_LIMIT as int,
            ).buffer,
            sync_step_outcome(step.outcome) == sync_outcome(
                line_step(old(self).partial_line(), read, SYNC_LINE_LIMIT as int).outcome,
                ping_reply(sync.token()),
                now > sync.deadline(),
            ),
            step_mirror(step.mirror) == mirrored(
                old(self).spec_settings(),
                line_step(old(self).partial_line(), read, SYNC_LINE_LIMIT as int).outcome,
            ),
    {
        let raw: Step<Vec<u8>> = self.receive_line(read, SYNC_LINE_LIMIT);
        let outcome: Option<Result<(), Error>> = match raw.outcome {
            None => None,
            Some(Err(e)) => Some(Err(e)),
            Some(Ok(line)) => {
                if sync.is_reply(line.as_slice()) {
                    Some(Ok(()))
                } else if sync.is_late(now) {
                    Some(Err(Error::SyncTimeout))
                } else {
                    None
                }
            },
        };
        Step { mirror: raw.mirror, outcome }
    }
}

/// Only the reply with the token of the ping ends the wait well.
///
/// Let the terminator complete the line gathered in `buffer`, while the
/// reply to the ping with `token` is awaited. The wait ends well if and
/// only if the line is `p` and the token's digits, nothing more and
/// nothing less. After any other line, the reply to another token among
/// them, the wait goes on with an empty buffer while the deadline has
/// not passed, and ends with `SyncTimeout` once it has.
pub proof fn lemma_sync_awaits_token(buffer: Seq<u8>, token: u64, late: bool)
    requires
        buffer.len() <= SYNC_LINE_LIMIT,
    ensures
        line_step(buffer, ReadOutcome::Byte(TERMINATOR), SYNC_LINE_LIMIT as int).buffer
            == Seq::<u8>::empty(),
        sync_outcome(
            line_step(buffer, ReadOutcome::Byte(TERMINATOR), SYNC_LINE_LIMIT as int).outcome,
            ping_reply(token),
            late,
        ) == Some(Ok::<(), ErrorView>(())) <==> buffer == seq![SYNC_REPLY_TAG] + decimal(
            token as nat,
        ),
        buffer != ping_reply(token) && !late ==> sync_outcome(
            line_step(buffer, ReadOutcome::Byte(TERMINATOR), SYNC_LINE_LIMIT as int).outcome,
            ping_reply(token),
            late,
        ) is None,
        buffer != ping_reply(token) && late ==> sync_outcome(
            line_step(buffer, ReadOutcome::Byte(TERMINATOR), SYNC_LINE_LIMIT as int).outcome,
            ping_reply(token),
            late,
        ) == Some(Err::<(), ErrorView>(ErrorView::SyncTimeout)),
{
}

/// A line that fits is taken whole, and held against the reply when its
/// terminator arrives.
pub proof fn lemma_sync_line(
    buffer: Seq<u8>,
    text: Seq<u8>,
    rest: Seq<u8>,
    reply: Seq<u8>,
    late: bool,
)
    requires
        forall|k: int| 0 <= k < text.len() ==> text[k] != TERMINATOR,
        buffer.len() + text.len() <= SYNC_LINE_LIMIT,
    ensures
        sync_all(buffer, text + seq![TERMINATOR] + rest, reply, late) == if buffer + text
            == reply {
            (Seq::<u8>::empty(), Some(Ok::<(), ErrorView>(())))
        } else if late {
            (Seq::<u8>::empty(), Some(Err::<(), ErrorView>(ErrorView::SyncTimeout)))
        } else {
            sync_all(Seq::empty(), rest, reply, late)
        },
    decreases text.len(),
{
    let bytes = text + seq![TERMINATOR] + rest;
    if text.len() == 0 {
        assert(bytes.skip(1) =~= rest);
    } else {
        assert(bytes.skip(1) =~= text.skip(1) + seq![TERMINATOR] + rest);
        lemma_sync_line(buffer.push(text[0]), text.skip(1), rest, reply, late);
        assert(buffer.push(text[0]) + text.skip(1) =~= buffer + text);
    }
}

/// A reply to another ping is passed over.
///
/// Let the reply to the ping with the token `other` arrive, before the
/// deadline, while the reply to the ping with `token` is awaited, and
/// let the bytes `rest` follow it. Where the tokens differ, the wait
/// comes to what it would come to had `rest` arrived alone; where they
/// are the same, the wait ends well with the terminator of that line.
pub proof fn lemma_other_reply_is_passed_over(token: u64, other: u64, rest: Seq<u8>)
    ensures
        sync_all(
            Seq::empty(),
            ping_reply(other) + seq![TERMINATOR] + rest,
            ping_reply(token),
            false,
        ) == if other == token {
            (Seq::<u8>::empty(), Some(Ok::<(), ErrorView>(())))
        } else {
            sync_all(Seq::empty(), rest, ping_reply(token), false)
        },
{
    let line = ping_reply(other);
    lemma_decimal_digits(other as nat);
    assert forall|k: int| 0 <= k < line.len() implies line[k] != TERMINATOR by {}
    lemma_sync_line(Seq::empty(), line, rest, ping_reply(token), false);
    if line == ping_reply(token) {
        assert(line.skip(1) =~= decimal(other as nat));
        assert(ping_reply(token).skip(1) =~= decimal(token as nat));
        lemma_decimal_injective(other as nat, token as nat);
    }
}

/// The digits of a 64-bit number are digits, and at most twenty.
pub proof fn lemma_decimal_digits(n: nat)
    requires
        n <= u64::MAX,
    ensures
        1 <= decimal(n).len() <= 20,
        forall|k: int| 0 <= k < decimal(n).len() ==> 0x30 <= #[trigger] decimal(n)[k] <= 0x39,
{
    lemma_decimal_shape(n);
    assert(is_power_of_ten(100_000_000_000_000_000_000, 20)) by {
        reveal_with_fuel(is_power_of_ten, 21);
    }
    lemma_decimal_shorter(n, 20, 100_000_000_000_000_000_000);
}

/// Every digit of a number is a digit, and there is at least one.
proof fn lemma_decimal_shape(n: nat)
    ensures
        decimal(n).len() >= 1,
        forall|k: int| 0 <= k < decimal(n).len() ==> 0x30 <= #[trigger] decimal(n)[k] <= 0x39,
    decreases n,
{
    if n >= 10 {
        lemma_decimal_shape(n / 10);
    }
}

/// A number below `bound`, which is ten to the power of `digits`, has at
/// most `digits` digits.
proof fn lemma_decimal_shorter(n: nat, digits: nat, bound: nat)
    requires
        digits >= 1,
        n < bound,
        is_power_of_ten(bound, digits),
    ensures
        decimal(n).len() <= digits,
    decreases digits,
{
    if n >= 10 {
        assert(is_power_of_ten(bound / 10, (digits - 1) as nat));
        if digits > 1 {
            lemma_decimal_shorter(n / 10, (digits - 1) as nat, bound / 10);
        }
    }
}

/// Whether `bound` is ten to the power of `digits`.
spec fn is_power_of_ten(bound: nat, digits: nat) -> bool
    decreases digits,
{
    if digits == 0 {
        bound == 1
    } else {
        bound % 10 == 0 && is_power_of_ten(bound / 10, (digits - 1) as nat)
    }
}

/// The tokens of two pings differ where their replies do: no reply to
/// one ping is taken for the reply to another.
pub proof fn lemma_decimal_injective(a: nat, b: nat)
    ensures
        decimal(a) == decimal(b) ==> a == b,
    decreases a,
{
    if decimal(a) == decimal(b) {
        if a < 10 {
            if b >= 10 {
                lemma_decimal_shape(b / 10);
            } else {
                assert(decimal(a)[0] == decimal(b)[0]);
            }
        } else {
            if b < 10 {
                lemma_decimal_shape(a / 10);
                assert(decimal(a).len() >= 2);
            } else {
                let da = decimal(a / 10);
                let db = decimal(b / 10);
                assert(decimal(a).drop_last() =~= da);
                assert(decimal(b).drop_last() =~= db);
                assert(decimal(a).last() == decimal(b).last());
                lemma_decimal_injective(a / 10, b / 10);
            }
        }
    }
}

} // verus!
