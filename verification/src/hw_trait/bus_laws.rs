//! What the Linux backends write, ask for and count, in every case.

use super::fan_tach::{
    asks_for_edges, count_run, records, GpioeventRequest, TachAction, TachCount, TachEvent,
};
use super::linux_i2c::{
    allowed, attempts_made, contents, is_final, is_read, is_read_of, is_write_of, read_data_of,
    retryable, Attempt, I2cMessageSpec, I2cMsg, I2cRdwrData, Retry,
};
use super::sysfs::{after_misses, ExportAction, ExportEvent, ExportPoll};
use super::sysfs_gpio::{line_path, mode_text, shown_value, value_text};
use super::{HwError, I2cError, PinMode, PinValue};
use crate::text::{decimal_text, joined, trimmed};
use crate::wire::{le_value, lemma_le_value_of_le_bytes, lemma_le_bytes_len};
use vstd::prelude::*;
use vstd::std_specs::convert::FromSpec;

verus! {

/// How an export begins: after the write, and after a write refused because
/// the line is exported already (error 16), the directory is looked for. Any
/// other refusal is final.
pub proof fn lemma_export_begins(poll: ExportPoll, errno: Option<i32>)
    ensures
        poll.spec_step(ExportEvent::Written) == (poll, ExportAction::Probe),
        errno == Some(16i32) ==> poll.spec_step(ExportEvent::WriteFailed { errno }) == (
            poll,
            ExportAction::Probe,
        ),
        errno != Some(16i32) ==> poll.spec_step(ExportEvent::WriteFailed { errno }) == (
            poll,
            ExportAction::Refused,
        ),
{
}

/// How an export goes on: a directory that is there ends it; a look that found
/// none counts and is followed by a pause of 1 ms, and the pause by another
/// look, up to a hundred looks in all.
pub proof fn lemma_export_goes_on(poll: ExportPoll)
    ensures
        poll.spec_step(ExportEvent::Probed { exists: true }) == (poll, ExportAction::Ready),
        poll.spec_step(ExportEvent::Probed { exists: false }).1 == ExportAction::Sleep(1_000_000),
        poll.misses < 100 ==> poll.spec_step(ExportEvent::Probed { exists: false }).0.misses
            == poll.misses + 1,
        poll.misses >= 100 ==> poll.spec_step(ExportEvent::Probed { exists: false }).0 == poll,
        poll.misses < 100 ==> poll.spec_step(ExportEvent::Slept) == (poll, ExportAction::Probe),
        poll.misses >= 100 ==> poll.spec_step(ExportEvent::Slept) == (poll, ExportAction::Missing),
{
}

/// Looks in vain add up: after `rounds` of them, as many are counted, until a
/// hundred are.
pub proof fn lemma_misses_add_up(rounds: nat)
    ensures
        rounds <= 100 ==> after_misses(rounds).misses == rounds,
        rounds >= 100 ==> after_misses(rounds).misses == 100,
    decreases rounds,
{
    if rounds > 0 {
        lemma_misses_add_up((rounds - 1) as nat);
    }
}

/// What is written for a direction and for a level, and what a level reads as:
/// the digit one is high, everything else is low.
pub proof fn lemma_gpio_texts(text: Seq<char>)
    ensures
        mode_text(PinMode::Input) == seq!['i', 'n'],
        mode_text(PinMode::Output) == seq!['o', 'u', 't'],
        value_text(PinValue::Low) == seq!['0'],
        value_text(PinValue::High) == seq!['1'],
        shown_value(text) == PinValue::High <==> trimmed(text).len() == 1 && trimmed(text)[0]
            == '1',
        shown_value(text) == PinValue::Low <==> trimmed(text).len() != 1 || trimmed(text)[0]
            != '1',
{
    reveal_strlit("in");
    reveal_strlit("out");
    reveal_strlit("0");
    reveal_strlit("1");
    assert(mode_text(PinMode::Input) =~= seq!['i', 'n']);
    assert(mode_text(PinMode::Output) =~= seq!['o', 'u', 't']);
    assert(value_text(PinValue::Low) =~= seq!['0']);
    assert(value_text(PinValue::High) =~= seq!['1']);
    if trimmed(text).len() == 1 && trimmed(text)[0] == '1' {
        assert(trimmed(text) =~= seq!['1']);
    }
}

/// The directory of a line: its number behind `gpio`, under the root.
pub proof fn lemma_line_path(root: Seq<char>, number: u8)
    ensures
        line_path(root, number) == joined(root, "gpio"@ + decimal_text(number as nat)),
        root.len() > 0 && root.last() != '/' ==> line_path(root, number) == root + "/gpio"@
            + decimal_text(number as nat),
        root.len() == 0 || root.last() == '/' ==> line_path(root, number) == root + "gpio"@
            + decimal_text(number as nat),
{
    reveal_strlit("gpio");
    reveal_strlit("/gpio");
    if root.len() > 0 && root.last() != '/' {
        assert(line_path(root, number) =~= root + "/gpio"@ + decimal_text(number as nat));
    } else {
        assert(line_path(root, number) =~= root + "gpio"@ + decimal_text(number as nat));
    }
}

/// What a message says: a write carries its data and no flag, a read carries
/// the read flag and room for what it reads. Both carry the device address.
pub proof fn lemma_messages(message: I2cMessageSpec, addr: u8, data: Seq<u8>, len: nat)
    ensures
        is_write_of(message, addr, data) <==> message.addr == addr && message.flags == 0
            && message.data@ == data,
        is_read_of(message, addr, len) ==> message.addr == addr && message.flags == 1
            && message.data@.len() == len,
        is_read_of(message, addr, len) ==> forall|i: int|
            0 <= i < len ==> #[trigger] message.data@[i] == 0,
        is_write_of(message, addr, data) ==> !is_read(message.flags),
        is_read_of(message, addr, len) ==> is_read(message.flags),
{
}

/// A message is a read exactly if the lowest bit of its flags is set.
pub proof fn lemma_read_flag(flags: u16)
    ensures
        is_read(flags) <==> flags & 1 == 1,
{
    assert((flags & 1 == 1) == (flags % 2 == 1)) by (bit_vector);
}

/// `struct i2c_msg` in memory: sixteen bytes, with the address at 0, the flags
/// at 2, the length at 4, zeros at 6 and the payload address at 8, all
/// little-endian.
pub proof fn lemma_message_layout(msg: I2cMsg)
    ensures
        msg.layout().len() == 16,
        le_value(msg.layout().subrange(0, 2)) == msg.addr,
        le_value(msg.layout().subrange(2, 4)) == msg.flags,
        le_value(msg.layout().subrange(4, 6)) == msg.len,
        msg.layout()[6] == 0 && msg.layout()[7] == 0,
        le_value(msg.layout().subrange(8, 16)) == msg.buf,
{
    let s = msg.layout();
    let a = crate::wire::le_bytes(msg.addr as nat, 2);
    let f = crate::wire::le_bytes(msg.flags as nat, 2);
    let l = crate::wire::le_bytes(msg.len as nat, 2);
    let b = crate::wire::le_bytes(msg.buf as nat, 8);
    lemma_powers();
    lemma_le_bytes_len(msg.addr as nat, 2);
    lemma_le_bytes_len(msg.flags as nat, 2);
    lemma_le_bytes_len(msg.len as nat, 2);
    lemma_le_bytes_len(msg.buf as nat, 8);
    assert(s.subrange(0, 2) =~= a);
    assert(s.subrange(2, 4) =~= f);
    assert(s.subrange(4, 6) =~= l);
    assert(s.subrange(8, 16) =~= b);
    lemma_le_value_of_le_bytes(msg.addr as nat, 2);
    lemma_le_value_of_le_bytes(msg.flags as nat, 2);
    lemma_le_value_of_le_bytes(msg.len as nat, 2);
    lemma_le_value_of_le_bytes(msg.buf as nat, 8);
}

proof fn lemma_powers()
    ensures
        vstd::arithmetic::power::pow(256, 2) == 0x1_0000,
        vstd::arithmetic::power::pow(256, 4) == 0x1_0000_0000,
        vstd::arithmetic::power::pow(256, 8) == 0x1_0000_0000_0000_0000,
{
    reveal_with_fuel(vstd::arithmetic::power::pow, 9);
}

/// `struct i2c_rdwr_ioctl_data` in memory: sixteen bytes, with the address of
/// the messages at 0, their number at 8 and zeros at 12, all little-endian.
pub proof fn lemma_transfer_layout(data: I2cRdwrData)
    ensures
        data.layout().len() == 16,
        le_value(data.layout().subrange(0, 8)) == data.msgs,
        le_value(data.layout().subrange(8, 12)) == data.nmsgs,
        forall|i: int| 12 <= i < 16 ==> #[trigger] data.layout()[i] == 0,
{
    let s = data.layout();
    lemma_powers();
    lemma_le_bytes_len(data.msgs as nat, 8);
    lemma_le_bytes_len(data.nmsgs as nat, 4);
    assert(s.subrange(0, 8) =~= crate::wire::le_bytes(data.msgs as nat, 8));
    assert(s.subrange(8, 12) =~= crate::wire::le_bytes(data.nmsgs as nat, 4));
    lemma_le_value_of_le_bytes(data.msgs as nat, 8);
    lemma_le_value_of_le_bytes(data.nmsgs as nat, 4);
}

/// The data of a transfer is that of its reads, in order: a read adds what was
/// filled in for it, a write adds nothing.
pub proof fn lemma_read_data_in_order(
    msgs: Seq<I2cMsg>,
    filled: Seq<Seq<u8>>,
    msg: I2cMsg,
    bytes: Seq<u8>,
)
    requires
        msgs.len() == filled.len(),
    ensures
        read_data_of(Seq::empty(), Seq::empty()) == Seq::<u8>::empty(),
        msg.flags % 2 == 1 ==> read_data_of(msgs.push(msg), filled.push(bytes)) == read_data_of(
            msgs,
            filled,
        ) + bytes,
        msg.flags % 2 == 0 ==> read_data_of(msgs.push(msg), filled.push(bytes)) == read_data_of(
            msgs,
            filled,
        ),
    decreases msgs.len(),
{
    reveal_with_fuel(read_data_of, 2);
    if msgs.len() == 0 {
        assert(msgs.push(msg).drop_first() =~= Seq::<I2cMsg>::empty());
        assert(filled.push(bytes).drop_first() =~= Seq::<Seq<u8>>::empty());
        assert(read_data_of(msgs, filled) =~= Seq::<u8>::empty());
        if msg.flags % 2 == 1 {
            assert(read_data_of(msgs.push(msg), filled.push(bytes)) =~= bytes);
        } else {
            assert(read_data_of(msgs.push(msg), filled.push(bytes)) =~= Seq::<u8>::empty());
        }
    } else {
        lemma_read_data_in_order(msgs.drop_first(), filled.drop_first(), msg, bytes);
        assert(msgs.push(msg).drop_first() =~= msgs.drop_first().push(msg));
        assert(filled.push(bytes).drop_first() =~= filled.drop_first().push(bytes));
        assert(msgs.push(msg)[0] == msgs[0]);
        assert(filled.push(bytes)[0] == filled[0]);
        if msg.flags % 2 == 1 {
            assert(read_data_of(msgs.push(msg), filled.push(bytes)) =~= read_data_of(msgs, filled)
                + bytes);
        } else {
            assert(read_data_of(msgs.push(msg), filled.push(bytes)) =~= read_data_of(
                msgs,
                filled,
            ));
        }
    }
}

/// What a run of buffers holds is what each of them holds.
pub proof fn lemma_contents_of_each(buffers: Seq<Vec<u8>>, i: int)
    ensures
        contents(buffers).len() == buffers.len(),
        0 <= i < buffers.len() ==> contents(buffers)[i] == buffers[i]@,
{
}

/// Three errors are transient: 110 (timed out), 121 (remote I/O) and 11 (try
/// again). An error without a number is not.
pub proof fn lemma_transient_errors(errno: Option<i32>)
    ensures
        retryable(errno) <==> errno == Some(110i32) || errno == Some(121i32) || errno == Some(
            11i32,
        ),
{
}

/// A failed attempt is followed by another exactly if its error is transient
/// and it was not the last one allowed.
pub proof fn lemma_when_to_retry(retry: Retry, errno: Option<i32>)
    ensures
        retry.goes_on(errno) <==> (errno == Some(110i32) || errno == Some(121i32) || errno == Some(
            11i32,
        )) && retry.attempt + 1 < retry.max_attempts,
        allowed(0) == 1,
        retry.max_attempts > 0 ==> allowed(retry.max_attempts) == retry.max_attempts,
        is_final(Attempt::Succeeded),
        is_final(Attempt::Failed(errno)) <==> !retryable(errno),
{
}

/// A transfer whose attempts all fail with a transient error is attempted as
/// often as allowed; one that works at once is attempted once.
pub proof fn lemma_attempts_used_up(retry: Retry, outcomes: Seq<Attempt>)
    requires
        retry.attempt < retry.max_attempts,
        outcomes.len() >= retry.max_attempts - retry.attempt,
    ensures
        (forall|i: int|
            0 <= i < outcomes.len() ==> #[trigger] outcomes[i] == Attempt::Failed(Some(110i32)))
            ==> attempts_made(retry, outcomes) == retry.max_attempts - retry.attempt,
        outcomes[0] == Attempt::Succeeded ==> attempts_made(retry, outcomes) == 1,
    decreases outcomes.len(),
{
    if forall|i: int|
        0 <= i < outcomes.len() ==> #[trigger] outcomes[i] == Attempt::Failed(Some(110i32)) {
        assert(outcomes[0] == Attempt::Failed(Some(110i32)));
        if retry.attempt + 1 < retry.max_attempts {
            let rest = outcomes.drop_first();
            assert forall|i: int| 0 <= i < rest.len() implies #[trigger] rest[i] == Attempt::Failed(
                Some(110i32),
            ) by {
                assert(rest[i] == outcomes[i + 1]);
            }
            lemma_attempts_used_up(
                Retry { attempt: (retry.attempt + 1) as u32, ..retry },
                rest,
            );
        }
    }
}

/// What is asked of the kernel for the tachometer: an input, events on both
/// edges, the line asked for, and no event file yet.
pub proof fn lemma_edge_request(request: GpioeventRequest, line: u32)
    requires
        asks_for_edges(request, line),
    ensures
        request.lineoffset == line,
        request.handleflags == 1,
        request.eventflags == 3,
        request.fd == -1,
        request.consumer@[0] == 109 && request.consumer@[1] == 117 && request.consumer@[2] == 106
            && request.consumer@[3] == 105 && request.consumer@[4] == 110
            && request.consumer@[5] == 97 && request.consumer@[6] == 45 && request.consumer@[7]
            == 102 && request.consumer@[8] == 97 && request.consumer@[9] == 110,
        forall|i: int| 10 <= i < 32 ==> #[trigger] request.consumer@[i] == 0,
{
    reveal_strlit("mujina-fan");
    assert(1u32 | 2u32 == 3u32) by (bit_vector);
}

/// When a count of edges ends: at the first look at the clock at which the
/// window has gone by, with what was counted. Before that it polls for what is
/// left in whole milliseconds, 100 at the most.
pub proof fn lemma_count_watches_the_clock(count: TachCount, now: u64)
    ensures
        ({
            let (next, action) = count.spec_step(TachEvent::Clock { now });
            let over = now >= count.start + count.window || count.window == 0;
            &&& next == count
            &&& over ==> action == TachAction::Done(count.count)
            &&& !over ==> (action matches TachAction::Poll(ms) && ms <= 100 && {
                let left = if now > count.start {
                    count.window - (now - count.start)
                } else {
                    count.window as int
                };
                &&& left >= 100_000_000 ==> ms == 100
                &&& left < 100_000_000 ==> 1_000_000 * ms <= left < 1_000_000 * (ms + 1)
            })
        }),
{
}

/// What a count does about everything else: an event is read; a record of
/// sixteen bytes counts as one edge, any other read as none; signals and empty
/// polls lead back to the clock; other failures end the count.
pub proof fn lemma_count_takes_events(count: TachCount, bytes: usize)
    ensures
        count.spec_step(TachEvent::PollReady) == (count, TachAction::Read),
        count.spec_step(TachEvent::PollElapsed) == (count, TachAction::Clock),
        count.spec_step(TachEvent::PollFailed { interrupted: true }) == (count, TachAction::Clock),
        count.spec_step(TachEvent::PollFailed { interrupted: false }) == (count, TachAction::Fail),
        count.spec_step(TachEvent::ReadFailed { interrupted: true }) == (count, TachAction::Clock),
        count.spec_step(TachEvent::ReadFailed { interrupted: false }) == (count, TachAction::Fail),
        ({
            let (next, action) = count.spec_step(TachEvent::Read { bytes });
            &&& action == TachAction::Clock
            &&& bytes != 16 ==> next == count
            &&& bytes == 16 ==> next == (TachCount { count: next.count, ..count })
            &&& bytes == 16 && count.count < u64::MAX ==> next.count == count.count + 1
            &&& bytes == 16 && count.count == u64::MAX ==> next.count == 0
        }),
{
}

/// Records are counted one by one: a read of sixteen bytes adds one to the
/// records among the events, anything else adds none.
pub proof fn lemma_records_add_up(events: Seq<TachEvent>, event: TachEvent, count: TachCount)
    ensures
        records(Seq::empty()) == 0,
        event == (TachEvent::Read { bytes: 16 }) ==> records(events.push(event)) == records(events)
            + 1,
        event != (TachEvent::Read { bytes: 16 }) ==> records(events.push(event)) == records(events),
        count_run(count, events.push(event)) == count_run(count, events).spec_step(event).0,
{
    assert(events.push(event).drop_last() =~= events);
}

/// An error keeps what it came from.
pub proof fn lemma_errors_keep_their_source(io: std::io::Error, i2c: I2cError)
    ensures
        <HwError as FromSpec<std::io::Error>>::from_spec(io) == HwError::Io(io),
        <HwError as FromSpec<I2cError>>::from_spec(i2c) == HwError::I2c(i2c),
{
}

} // verus!
