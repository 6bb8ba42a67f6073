//! Linux I2C backend via `/dev/i2c-{bus}` and the `I2C_RDWR` ioctl.
//!
//! ## Transaction shape (vendor-proven, SIC450 on Apollo III)
//!
//! Telemetry on this board is read with one **combined** `I2C_RDWR`
//! transaction: write the opcode byte, then read N bytes with a repeated
//! START (no STOP between the two messages), **PEC off**. A plain `I2C_SLAVE`
//! write-then-read (STOP between) does not work on this hardware, and
//! enabling PEC reads a phantom byte. Every exchange here is one `I2C_RDWR`,
//! and no message ever has the PEC flag.
//!
//! Transfers are retried a few times on transient
//! `ETIMEDOUT`/`EREMOTEIO`/`EAGAIN` (the SIC450 NAKs during its power-up
//! window after the GPIO115 enable pulse).
//!
//! ## Layout of the ioctl argument
//!
//! The request code is `_IOWR('i', 0x07, struct i2c_rdwr_ioctl_data)`. On
//! 64-bit little-endian Linux (the target: RK3588 aarch64) the structs are:
//!
//! ```text
//! struct i2c_msg { u16 addr; u16 flags; u16 len; u16 pad; u8 *buf; }  // 16 bytes
//! struct i2c_rdwr_ioctl_data { struct i2c_msg *msgs; u32 nmsgs; }     // 16 bytes
//! ```
//!
//! Addresses in memory are plain numbers here; the caller that performs the
//! ioctl supplies them.

use crate::text::{decimal, decimal_text};
use crate::wire::{le_bytes, u16_to_le, u32_to_le, u64_to_le};
use vstd::prelude::*;
use vstd::string::StringExecFns;

verus! {

/// `I2C_M_RD`: the message is a read.
pub const I2C_M_RD: u16 = 0x0001;

/// `I2C_M_PEC`: SMBus PEC attached to the message. This backend never sets it
/// (the vendor's SIC450 access is PEC-off).
pub const I2C_M_PEC: u16 = 0x0008;

/// Size of `struct i2c_msg` in bytes.
pub const I2C_MSG_SIZE: usize = 16;

/// Size of `struct i2c_rdwr_ioctl_data` in bytes.
pub const I2C_RDWR_DATA_SIZE: usize = 16;

/// The `I2C_RDWR` request code: `_IOWR('i', 0x07, struct i2c_rdwr_ioctl_data)`
/// with `sizeof == 16` on 64-bit Linux.
pub const I2C_RDWR_REQUEST: u32 = 0xC010_6907;

/// Transfer attempts before giving up on a retryable error (vendor-proven:
/// ~5 x 10 ms on the SIC450 power-up NAK window).
pub const DEFAULT_MAX_ATTEMPTS: u32 = 5;

/// Delay between retry attempts, in nanoseconds (10 ms).
pub const DEFAULT_RETRY_DELAY: u64 = 10_000_000;

/// Number of `EAGAIN` on Linux.
pub const EAGAIN: i32 = 11;

/// Number of `ETIMEDOUT` on Linux.
pub const ETIMEDOUT: i32 = 110;

/// Number of `EREMOTEIO` on Linux.
pub const EREMOTEIO: i32 = 121;

/// Linux `_IOC` request encoding for 64-bit userspace:
/// `(dir << 30) | (size << 16) | (type << 8) | nr`.
pub fn ioc_readwrite(ty: u8, nr: u8, size: usize) -> (code: u32)
    ensures
        code == (3u32 << 30) | ((size as u32) << 16) | ((ty as u32) << 8) | (nr as u32),
        size < 0x4000 ==> code == 0xC000_0000 + 0x1_0000 * size + 0x100 * ty + nr,
{
    let s: u32 = size as u32;
    let t: u32 = ty as u32;
    let n: u32 = nr as u32;
    proof {
        if size < 0x4000 {
            assert(((3u32 << 30) | (s << 16) | (t << 8) | n) == 0xC000_0000 + 0x1_0000 * s + 0x100 * t
                + n) by (bit_vector)
                requires
                    s < 0x4000,
                    t < 0x100,
                    n < 0x100,
            ;
        }
    }
    (3u32 << 30) | (s << 16) | (t << 8) | n
}

/// The request code is what the encoding gives for type `'i'`, number 7 and
/// the size of the argument.
pub proof fn lemma_rdwr_request_code()
    ensures
        I2C_RDWR_REQUEST == 0xC000_0000 + 0x1_0000 * I2C_RDWR_DATA_SIZE + 0x100 * 0x69 + 0x07,
        'i' as u32 == 0x69,
{
}

/// A single transfer message in owned form, before encoding into the kernel
/// ABI.
#[derive(Debug, PartialEq, Eq)]
pub struct I2cMessageSpec {
    /// 7-bit slave address.
    pub addr: u16,
    /// Message flags (`I2C_M_RD`, ...).
    pub flags: u16,
    /// Payload. For read messages this is the read buffer (length only); the
    /// kernel fills it in place.
    pub data: Vec<u8>,
}

impl Clone for I2cMessageSpec {
    fn clone(&self) -> (r: Self)
        ensures
            r.addr == self.addr,
            r.flags == self.flags,
            r.data@ == self.data@,
    {
        let data = self.data.clone();
        assert(data@ =~= self.data@);
        I2cMessageSpec { addr: self.addr, flags: self.flags, data }
    }
}

/// `message` writes `data` to `addr`.
pub open spec fn is_write_of(message: I2cMessageSpec, addr: u8, data: Seq<u8>) -> bool {
    message.addr == addr && message.flags == 0 && message.data@ == data
}

/// `message` reads `len` bytes from `addr`.
pub open spec fn is_read_of(message: I2cMessageSpec, addr: u8, len: nat) -> bool {
    message.addr == addr && message.flags == I2C_M_RD && message.data@ == Seq::new(len, |i: int| 0u8)
}

impl I2cMessageSpec {
    /// A write message.
    pub fn write(addr: u8, data: Vec<u8>) -> (r: Self)
        ensures
            is_write_of(r, addr, data@),
    {
        I2cMessageSpec { addr: addr as u16, flags: 0, data }
    }

    /// A read message of `len` bytes.
    pub fn read(addr: u8, len: usize) -> (r: Self)
        ensures
            is_read_of(r, addr, len as nat),
    {
        let data: Vec<u8> = vec![0u8; len];
        assert(data@ =~= Seq::new(len as nat, |i: int| 0u8));
        I2cMessageSpec { addr: addr as u16, flags: I2C_M_RD, data }
    }
}

/// Neither a write nor a read message ever asks for PEC.
pub proof fn lemma_pec_is_never_set(flags: u16)
    requires
        flags == 0 || flags == I2C_M_RD,
    ensures
        flags & I2C_M_PEC == 0,
{
    assert(0u16 & 0x0008u16 == 0 && 0x0001u16 & 0x0008u16 == 0) by (bit_vector);
}

/// `struct i2c_msg` (linux/i2c.h) on 64-bit Linux.
#[derive(Debug, Clone, Copy, PartialEq, Eq, Structural)]
pub struct I2cMsg {
    /// 7-bit slave address (kernel adds the R/W bit).
    pub addr: u16,
    /// Message flags.
    pub flags: u16,
    /// Payload length in bytes.
    pub len: u16,
    /// Address of the message payload in memory.
    pub buf: u64,
}

impl I2cMsg {
    /// The struct as it lies in memory: address at byte 0, flags at 2, length
    /// at 4, two bytes of padding, payload address at 8.
    pub open spec fn layout(self) -> Seq<u8> {
        le_bytes(self.addr as nat, 2) + le_bytes(self.flags as nat, 2) + le_bytes(
            self.len as nat,
            2,
        ) + seq![0u8, 0u8] + le_bytes(self.buf as nat, 8)
    }

    /// The struct as it lies in memory on a little-endian machine.
    pub fn to_abi(&self) -> (r: [u8; I2C_MSG_SIZE])
        ensures
            r@ == self.layout(),
    {
        let a = u16_to_le(self.addr);
        let f = u16_to_le(self.flags);
        let l = u16_to_le(self.len);
        let b = u64_to_le(self.buf);
        let r: [u8; I2C_MSG_SIZE] = [
            a[0],
            a[1],
            f[0],
            f[1],
            l[0],
            l[1],
            0,
            0,
            b[0],
            b[1],
            b[2],
            b[3],
            b[4],
            b[5],
            b[6],
            b[7],
        ];
        assert(r@ =~= self.layout());
        r
    }
}

/// `struct i2c_rdwr_ioctl_data` (linux/i2c-dev.h) on 64-bit Linux.
#[derive(Debug, Clone, Copy, PartialEq, Eq, Structural)]
pub struct I2cRdwrData {
    /// Address of the message array in memory.
    pub msgs: u64,
    /// Number of messages in the array.
    pub nmsgs: u32,
}

impl I2cRdwrData {
    /// The struct as it lies in memory: array address at byte 0, count at 8,
    /// four bytes of padding.
    pub open spec fn layout(self) -> Seq<u8> {
        le_bytes(self.msgs as nat, 8) + le_bytes(self.nmsgs as nat, 4) + seq![0u8, 0u8, 0u8, 0u8]
    }

    /// The struct as it lies in memory on a little-endian machine.
    pub fn to_abi(&self) -> (r: [u8; I2C_RDWR_DATA_SIZE])
        ensures
            r@ == self.layout(),
    {
        let m = u64_to_le(self.msgs);
        let n = u32_to_le(self.nmsgs);
        let r: [u8; I2C_RDWR_DATA_SIZE] = [
            m[0],
            m[1],
            m[2],
            m[3],
            m[4],
            m[5],
            m[6],
            m[7],
            n[0],
            n[1],
            n[2],
            n[3],
            0,
            0,
            0,
            0,
        ];
        assert(r@ =~= self.layout());
        r
    }
}

/// An `I2C_RDWR` transfer: the message array and every payload buffer.
#[derive(Debug)]
pub struct Transfer {
    msgs: Vec<I2cMsg>,
    buffers: Vec<Vec<u8>>,
}

/// The bytes of a run of buffers.
pub open spec fn contents(buffers: Seq<Vec<u8>>) -> Seq<Seq<u8>> {
    buffers.map_values(|buffer: Vec<u8>| buffer@)
}

/// A message with these flags is a read.
pub open spec fn is_read(flags: u16) -> bool {
    flags % 2 == 1
}

/// The data of every read message, one after the other.
pub open spec fn read_data_of(msgs: Seq<I2cMsg>, filled: Seq<Seq<u8>>) -> Seq<u8>
    decreases msgs.len(),
{
    if msgs.len() == 0 || filled.len() == 0 {
        Seq::empty()
    } else {
        (if is_read(msgs[0].flags) {
            filled[0]
        } else {
            Seq::empty()
        }) + read_data_of(msgs.drop_first(), filled.drop_first())
    }
}

impl Transfer {
    /// The message array; payload addresses are not placed yet.
    pub closed spec fn spec_msgs(self) -> Seq<I2cMsg> {
        self.msgs@
    }

    /// The payload buffers, index-aligned with the messages.
    pub closed spec fn spec_buffers(self) -> Seq<Seq<u8>> {
        contents(self.buffers@)
    }

    /// Encode the given messages into the kernel ABI. A payload length is
    /// carried in sixteen bits.
    pub fn new(specs: &[I2cMessageSpec]) -> (r: Self)
        ensures
            r.spec_msgs() == Seq::new(
                specs@.len(),
                |i: int|
                    I2cMsg {
                        addr: specs@[i].addr,
                        flags: specs@[i].flags,
                        len: (specs@[i].data@.len() % 0x1_0000) as u16,
                        buf: 0,
                    },
            ),
            r.spec_buffers() == Seq::new(specs@.len(), |i: int| specs@[i].data@),
    {
        let mut msgs: Vec<I2cMsg> = Vec::new();
        let mut buffers: Vec<Vec<u8>> = Vec::new();
        let mut i: usize = 0;
        while i < specs.len()
            invariant
                i <= specs@.len(),
                msgs@.len() == i,
                buffers@.len() == i,
                forall|j: int|
                    0 <= j < i ==> #[trigger] msgs@[j] == (I2cMsg {
                        addr: specs@[j].addr,
                        flags: specs@[j].flags,
                        len: (specs@[j].data@.len() % 0x1_0000) as u16,
                        buf: 0,
                    }),
                forall|j: int| 0 <= j < i ==> #[trigger] buffers@[j]@ == specs@[j].data@,
            decreases specs@.len() - i,
        {
            let item = &specs[i];
            msgs.push(
                I2cMsg {
                    addr: item.addr,
                    flags: item.flags,
                    len: (item.data.len() % 0x1_0000) as u16,
                    buf: 0,
                },
            );
            let data = item.data.clone();
            assert(data@ =~= specs@[i as int].data@);
            buffers.push(data);
            i = i + 1;
        }
        let r = Transfer { msgs, buffers };
        assert(r.spec_msgs() =~= Seq::new(
            specs@.len(),
            |i: int|
                I2cMsg {
                    addr: specs@[i].addr,
                    flags: specs@[i].flags,
                    len: (specs@[i].data@.len() % 0x1_0000) as u16,
                    buf: 0,
                },
        ));
        assert(r.spec_buffers() =~= Seq::new(specs@.len(), |i: int| specs@[i].data@));
        r
    }

    /// Number of messages, carried in 32 bits.
    pub fn nmsgs(&self) -> (n: u32)
        ensures
            n == self.spec_msgs().len() % 0x1_0000_0000,
    {
        (self.msgs.len() as u64 % 0x1_0000_0000) as u32
    }

    /// The message array.
    pub fn msgs(&self) -> (r: &[I2cMsg])
        ensures
            r@ == self.spec_msgs(),
    {
        self.msgs.as_slice()
    }

    /// The payload buffers (index-aligned with `msgs`).
    pub fn buffers(&self) -> (r: &[Vec<u8>])
        ensures
            contents(r@) == self.spec_buffers(),
    {
        self.buffers.as_slice()
    }

    /// The data of every read message, out of the buffers as the kernel left
    /// them.
    pub fn read_data(&self, filled: &[Vec<u8>]) -> (out: Vec<u8>)
        ensures
            out@ == read_data_of(self.spec_msgs(), contents(filled@)),
    {
        let ghost msgs = self.msgs@;
        let ghost bufs = contents(filled@);
        let mut out: Vec<u8> = Vec::new();
        let mut i: usize = 0;
        assert(msgs.skip(0) =~= msgs);
        assert(bufs.skip(0) =~= bufs);
        assert(read_data_of(msgs, bufs) =~= out@ + read_data_of(msgs.skip(0), bufs.skip(0)));
        while i < self.msgs.len() && i < filled.len()
            invariant
                i <= msgs.len(),
                i <= bufs.len(),
                msgs == self.msgs@,
                bufs == contents(filled@),
                read_data_of(msgs, bufs) == out@ + read_data_of(
                    msgs.skip(i as int),
                    bufs.skip(i as int),
                ),
            decreases msgs.len() - i,
        {
            let ghost before = out@;
            let flags: u16 = self.msgs[i].flags;
            proof {
                assert(msgs.skip(i as int).drop_first() =~= msgs.skip(i + 1));
                assert(bufs.skip(i as int).drop_first() =~= bufs.skip(i + 1));
                assert((flags & 0x0001u16 != 0) == (flags % 2 == 1)) by (bit_vector);
            }
            if flags & I2C_M_RD != 0 {
                out.extend_from_slice(filled[i].as_slice());
                assert(out@ =~= before + bufs[i as int]);
            }
            assert(out@ + read_data_of(msgs.skip(i + 1), bufs.skip(i + 1)) =~= before
                + read_data_of(msgs.skip(i as int), bufs.skip(i as int)));
            i = i + 1;
        }
        assert(read_data_of(msgs.skip(i as int), bufs.skip(i as int)) =~= Seq::<u8>::empty());
        assert(out@ + Seq::<u8>::empty() =~= out@);
        out
    }
}

/// Path of the device node of a bus.
pub fn device_path(bus: u8) -> (path: String)
    ensures
        path@ == "/dev/i2c-"@ + decimal_text(bus as nat),
{
    String::from_str("/dev/i2c-").concat(decimal(bus as u64).as_str())
}

/// The messages of a plain write.
pub fn write_exchange(addr: u8, data: Vec<u8>) -> (specs: Vec<I2cMessageSpec>)
    ensures
        specs@.len() == 1,
        is_write_of(specs@[0], addr, data@),
{
    let mut specs: Vec<I2cMessageSpec> = Vec::new();
    specs.push(I2cMessageSpec::write(addr, data));
    specs
}

/// The messages of a plain read.
pub fn read_exchange(addr: u8, len: usize) -> (specs: Vec<I2cMessageSpec>)
    ensures
        specs@.len() == 1,
        is_read_of(specs@[0], addr, len as nat),
{
    let mut specs: Vec<I2cMessageSpec> = Vec::new();
    specs.push(I2cMessageSpec::read(addr, len));
    specs
}

/// The messages of a combined write-then-read: two messages of one transfer,
/// so a repeated START and no STOP between them.
pub fn write_read_exchange(addr: u8, write: Vec<u8>, read_len: usize) -> (specs: Vec<
    I2cMessageSpec,
>)
    ensures
        specs@.len() == 2,
        is_write_of(specs@[0], addr, write@),
        is_read_of(specs@[1], addr, read_len as nat),
{
    let mut specs: Vec<I2cMessageSpec> = Vec::new();
    specs.push(I2cMessageSpec::write(addr, write));
    specs.push(I2cMessageSpec::read(addr, read_len));
    specs
}

/// A transfer error worth retrying (bus contention or a device still in its
/// power-up NAK window).
pub open spec fn retryable(errno: Option<i32>) -> bool {
    errno == Some(ETIMEDOUT) || errno == Some(EREMOTEIO) || errno == Some(EAGAIN)
}

/// Whether a transfer error is worth retrying.
pub fn is_retryable(errno: Option<i32>) -> (r: bool)
    ensures
        r == retryable(errno),
{
    match errno {
        Some(number) => number == ETIMEDOUT || number == EREMOTEIO || number == EAGAIN,
        None => false,
    }
}

/// Attempts at one transfer.
#[derive(Debug, Clone, Copy, PartialEq, Eq, Structural)]
pub struct Retry {
    /// Retries begun.
    pub attempt: u32,
    /// Attempts allowed, the first included.
    pub max_attempts: u32,
}

impl Retry {
    /// Before the first attempt.
    pub fn new(max_attempts: u32) -> (r: Self)
        ensures
            r == (Retry { attempt: 0, max_attempts }),
    {
        Retry { attempt: 0, max_attempts }
    }

    /// An attempt is to be followed by another after failing with `errno`.
    pub open spec fn goes_on(self, errno: Option<i32>) -> bool {
        retryable(errno) && self.attempt + 1 < self.max_attempts
    }

    /// After a failed attempt: whether to wait and try again. A transient
    /// error is retried while attempts are left; any other is final.
    pub fn after_failure(&mut self, errno: Option<i32>) -> (again: bool)
        ensures
            again == old(self).goes_on(errno),
            *final(self) == (Retry {
                attempt: (old(self).attempt + if again {
                    1int
                } else {
                    0int
                }) as u32,
                ..*old(self)
            }),
    {
        if is_retryable(errno) && self.max_attempts > 0 && self.attempt < self.max_attempts - 1 {
            self.attempt = self.attempt + 1;
            true
        } else {
            false
        }
    }
}

/// How one attempt at a transfer went.
pub enum Attempt {
    /// It worked.
    Succeeded,
    /// It failed with this error number, where there is one.
    Failed(Option<i32>),
}

/// How many attempts are made when they go as in `outcomes`: one after the
/// other, for as long as a failure is to be followed by another attempt.
pub open spec fn attempts_made(retry: Retry, outcomes: Seq<Attempt>) -> nat
    decreases outcomes.len(),
{
    if outcomes.len() == 0 {
        0
    } else {
        match outcomes[0] {
            Attempt::Succeeded => 1,
            Attempt::Failed(errno) => if retry.goes_on(errno) {
                1 + attempts_made(
                    Retry { attempt: (retry.attempt + 1) as u32, ..retry },
                    outcomes.drop_first(),
                )
            } else {
                1
            },
        }
    }
}

/// `outcome` ends a transfer: it worked, or the error is not transient.
pub open spec fn is_final(outcome: Attempt) -> bool {
    match outcome {
        Attempt::Succeeded => true,
        Attempt::Failed(errno) => !retryable(errno),
    }
}

/// Attempts allowed, of which there is always one.
pub open spec fn allowed(max_attempts: u32) -> nat {
    if max_attempts == 0 {
        1
    } else {
        max_attempts as nat
    }
}

/// A transfer is attempted until an attempt works, fails for good, or is the
/// last one allowed, and not once more: the number of attempts is the least
/// one at which one of these is so.
pub proof fn lemma_retries_are_bounded(max_attempts: u32, outcomes: Seq<Attempt>)
    requires
        outcomes.len() >= allowed(max_attempts),
    ensures
        ({
            let k = attempts_made(Retry { attempt: 0, max_attempts }, outcomes);
            &&& 1 <= k <= allowed(max_attempts)
            &&& is_final(outcomes[k - 1]) || k == allowed(max_attempts)
            &&& forall|i: int| 0 <= i < k - 1 ==> !is_final(#[trigger] outcomes[i])
        }),
{
    lemma_attempts_from(Retry { attempt: 0, max_attempts }, outcomes);
}

/// The same from any attempt on.
proof fn lemma_attempts_from(retry: Retry, outcomes: Seq<Attempt>)
    requires
        retry.attempt < allowed(retry.max_attempts),
        outcomes.len() >= allowed(retry.max_attempts) - retry.attempt,
    ensures
        ({
            let k = attempts_made(retry, outcomes);
            let left = allowed(retry.max_attempts) - retry.attempt;
            &&& 1 <= k <= left
            &&& is_final(outcomes[k - 1]) || k == left
            &&& forall|i: int| 0 <= i < k - 1 ==> !is_final(#[trigger] outcomes[i])
        }),
    decreases outcomes.len(),
{
    if let Attempt::Failed(errno) = outcomes[0] {
        if retry.goes_on(errno) {
            let next = Retry { attempt: (retry.attempt + 1) as u32, ..retry };
            let rest = outcomes.drop_first();
            lemma_attempts_from(next, rest);
            let k = attempts_made(retry, outcomes);
            assert(outcomes[k - 1] == rest[k - 2]);
            assert forall|i: int| 0 <= i < k - 1 implies !is_final(#[trigger] outcomes[i]) by {
                if i > 0 {
                    assert(outcomes[i] == rest[i - 1]);
                }
            }
        }
    }
}

} // verus!
