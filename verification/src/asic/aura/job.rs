//! Mining jobs: what is sent to the chips and what counts as a share.

use super::framing::reported;
use super::protocol::{job_body, sealed, Hit, HitFrame, JobFrame, LONG_FRAME_LEN};
use crate::buffer::{buffered, has_room};
use crate::wire::{le_value, u32_from_le};
use bitcoin::block::{Header, Version};
use bitcoin::hashes;
use bitcoin::pow::{CompactTarget, Target};
use bytes::BytesMut;
use vstd::arithmetic::power2::pow2;
use vstd::prelude::*;

verus! {

/// An extranonce2 value and its width in bytes.
#[derive(Debug, Clone, Copy, PartialEq, Eq, Structural)]
pub struct Extranonce2 {
    /// The value.
    pub value: u64,
    /// Its width in bytes.
    pub size: u8,
}

/// Where the merkle root of a task comes from.
#[derive(Debug, Clone, Copy)]
pub enum MerkleRootKind {
    /// Computed from the task's extranonce2; `None` where the computation
    /// failed.
    Computed(Option<[u8; 32]>),
    /// Given with the template.
    Fixed([u8; 32]),
}

/// A unit of work. Hashes and the target stand in the byte order of the block
/// header: least significant byte first.
#[derive(Debug, Clone, Copy)]
pub struct HashTask {
    /// Number by which the caller finds the job again.
    pub id: u64,
    /// Hash of the previous block.
    pub prev_blockhash: [u8; 32],
    /// Compact network target.
    pub bits: u32,
    /// Merkle root.
    pub merkle_root: MerkleRootKind,
    /// Extranonce2, where the task has one.
    pub en2: Option<Extranonce2>,
    /// Block time.
    pub ntime: u32,
    /// Share target.
    pub share_target: [u8; 32],
}

/// Why a task cannot be sent to the chips.
#[derive(Debug, Clone, Copy, PartialEq, Eq, Structural)]
pub enum JobError {
    /// The merkle root is to be computed, and the task has no extranonce2.
    Extranonce2Required,
    /// The merkle root computation failed.
    MerkleRootFailed,
}

/// A share found by a chip.
#[derive(Debug, Clone, Copy, PartialEq, Eq)]
pub struct Share {
    /// Winning nonce.
    pub nonce: u32,
    /// Hash of the winning header.
    pub hash: [u8; 32],
    /// Block version.
    pub version: i32,
    /// Block time.
    pub ntime: u32,
    /// Extranonce2 of the task.
    pub extranonce2: Option<Extranonce2>,
    /// Work that the share target stands for, least significant byte first.
    pub expected_work: [u8; 32],
}

/// What a share says.
#[verifier::ext_equal]
pub struct ShareClaim {
    /// Winning nonce.
    pub nonce: u32,
    /// Hash of the winning header.
    pub hash: Seq<u8>,
    /// Block version.
    pub version: i32,
    /// Block time.
    pub ntime: u32,
    /// Extranonce2 of the task.
    pub extranonce2: Option<Extranonce2>,
    /// Work that the share target stands for.
    pub expected_work: nat,
}

impl View for Share {
    type V = ShareClaim;

    open spec fn view(&self) -> ShareClaim {
        ShareClaim {
            nonce: self.nonce,
            hash: self.hash@,
            version: self.version,
            ntime: self.ntime,
            extranonce2: self.extranonce2,
            expected_work: le_value(self.expected_work@),
        }
    }
}

/// The hash of the block header with these fields.
pub uninterp spec fn block_hash(
    version: i32,
    prev_blockhash: Seq<u8>,
    merkle_root: Seq<u8>,
    time: u32,
    bits: u32,
    nonce: u32,
) -> Seq<u8>;

/// `bitcoin::block::Header::block_hash`: the double SHA-256 of the 80-byte
/// header, a function of the six header fields alone.
#[verifier::external_body]
fn hash_header(
    version: i32,
    prev_blockhash: &[u8; 32],
    merkle_root: &[u8; 32],
    time: u32,
    bits: u32,
    nonce: u32,
) -> (hash: [u8; 32])
    ensures
        hash@ == block_hash(version, prev_blockhash@, merkle_root@, time, bits, nonce),
{
    let header = Header {
        version: Version::from_consensus(version),
        prev_blockhash: hashes::Hash::from_byte_array(*prev_blockhash),
        merkle_root: hashes::Hash::from_byte_array(*merkle_root),
        time,
        bits: CompactTarget::from_consensus(bits),
        nonce,
    };
    hashes::Hash::to_byte_array(header.block_hash())
}

/// `bitcoin::pow::Target::is_met_by`: the hash, read as a little-endian
/// number, is at most the target.
#[verifier::external_body]
fn target_is_met(target: &[u8; 32], hash: &[u8; 32]) -> (met: bool)
    ensures
        met == (le_value(hash@) <= le_value(target@)),
{
    Target::from_le_bytes(*target).is_met_by(hashes::Hash::from_byte_array(*hash))
}

/// The work that a target stands for: the expected number of hashes to meet
/// it, `2^256 / (target + 1)` rounded down. Targets 0 and 1 count as the
/// largest 256-bit number.
pub open spec fn work_of(target: nat) -> nat {
    if target <= 1 {
        (pow2(256) - 1) as nat
    } else {
        pow2(256) / (target + 1)
    }
}

/// `bitcoin::pow::Target::to_work`: `2^256 / (target + 1)` rounded down, and
/// the largest 256-bit number for the targets 0 and 1.
#[verifier::external_body]
fn target_work(target: &[u8; 32]) -> (work: [u8; 32])
    ensures
        le_value(work@) == work_of(le_value(target@)),
{
    Target::from_le_bytes(*target).to_work().to_le_bytes()
}

/// The merkle root to send for `task`, or why there is none.
pub open spec fn task_merkle(task: HashTask) -> Result<Seq<u8>, JobError> {
    match task.merkle_root {
        MerkleRootKind::Fixed(root) => Ok(root@),
        MerkleRootKind::Computed(outcome) => if task.en2 is None {
            Err(JobError::Extranonce2Required)
        } else {
            match outcome {
                Some(root) => Ok(root@),
                None => Err(JobError::MerkleRootFailed),
            }
        },
    }
}

/// The job frame of `task` for one chip. The chips divide nonce space
/// themselves through their version-bound windows, so the nonce start is 0.
pub open spec fn job_frame(chip: u8, slot: u8, job_id: u32, task: HashTask, merkle: Seq<u8>) -> Seq<
    u8,
> {
    sealed(
        job_body(chip, slot, job_id, task.prev_blockhash@, merkle, task.ntime, task.bits, 0),
    )
}

/// The job frames of `task` for `chips`, one after the other.
pub open spec fn job_frames(
    chips: Seq<u8>,
    slot: u8,
    job_id: u32,
    task: HashTask,
    merkle: Seq<u8>,
) -> Seq<u8>
    decreases chips.len(),
{
    if chips.len() == 0 {
        Seq::empty()
    } else {
        job_frames(chips.drop_last(), slot, job_id, task, merkle) + job_frame(
            chips.last(),
            slot,
            job_id,
            task,
            merkle,
        )
    }
}

/// The merkle root to send for `task`.
fn merkle_of(task: &HashTask) -> (r: Result<[u8; 32], JobError>)
    ensures
        match r {
            Ok(root) => task_merkle(*task) == Ok::<Seq<u8>, JobError>(root@),
            Err(e) => task_merkle(*task) == Err::<Seq<u8>, JobError>(e),
        },
{
    match task.merkle_root {
        MerkleRootKind::Fixed(root) => Ok(root),
        MerkleRootKind::Computed(outcome) => match task.en2 {
            None => Err(JobError::Extranonce2Required),
            Some(_) => match outcome {
                Some(root) => Ok(root),
                None => Err(JobError::MerkleRootFailed),
            },
        },
    }
}

/// Encode a job frame for every chip into `writer`.
///
/// All chips get the same slot and job id. A task whose merkle root cannot be
/// had is refused, and nothing is written.
pub fn dispatch_job(writer: &mut BytesMut, chips: &[u8], slot: u8, job_id: u32, task: &HashTask) -> (r:
    Result<(), JobError>)
    requires
        has_room(*old(writer), 92 * chips@.len()),
    ensures
        match task_merkle(*task) {
            Ok(merkle) => r is Ok && buffered(*final(writer)) == buffered(*old(writer))
                + job_frames(chips@, slot, job_id, *task, merkle),
            Err(e) => r == Err::<(), JobError>(e) && buffered(*final(writer)) == buffered(
                *old(writer),
            ),
        },
{
    let merkle = match merkle_of(task) {
        Ok(merkle) => merkle,
        Err(e) => {
            return Err(e);
        },
    };
    let ghost start = buffered(*writer);
    let mut i: usize = 0;
    assert(chips@.take(0) =~= Seq::<u8>::empty());
    assert(start + Seq::<u8>::empty() =~= start);
    while i < chips.len()
        invariant
            i <= chips@.len(),
            2 * (start.len() + 92 * chips@.len()) <= isize::MAX,
            buffered(*writer).len() == start.len() + 92 * i,
            buffered(*writer) == start + job_frames(
                chips@.take(i as int),
                slot,
                job_id,
                *task,
                merkle@,
            ),
        decreases chips@.len() - i,
    {
        let ghost done = chips@.take(i as int);
        let ghost more = chips@.take(i + 1);
        let frame = JobFrame::encode(
            chips[i],
            slot,
            job_id,
            &task.prev_blockhash,
            &merkle,
            task.ntime,
            task.bits,
            0,
        );
        assert(frame@.len() == LONG_FRAME_LEN);
        writer.extend_from_slice(&frame);
        assert(more.drop_last() =~= done);
        assert(buffered(*writer) =~= start + job_frames(more, slot, job_id, *task, merkle@));
        i = i + 1;
    }
    assert(chips@.take(i as int) =~= chips@);
    Ok(())
}

/// `word` read as a two's complement number.
pub open spec fn as_signed(word: nat) -> i32 {
    if word < 0x8000_0000 {
        word as i32
    } else {
        (word - 0x1_0000_0000) as i32
    }
}

/// Version field of a block header.
pub open spec fn header_version(header: Seq<u8>) -> i32 {
    as_signed(le_value(header.subrange(0, 4)))
}

/// Previous block hash of a block header.
pub open spec fn header_prev(header: Seq<u8>) -> Seq<u8> {
    header.subrange(4, 36)
}

/// Merkle root of a block header.
pub open spec fn header_merkle(header: Seq<u8>) -> Seq<u8> {
    header.subrange(36, 68)
}

/// Time field of a block header.
pub open spec fn header_time(header: Seq<u8>) -> u32 {
    le_value(header.subrange(68, 72)) as u32
}

/// Compact target field of a block header.
pub open spec fn header_bits(header: Seq<u8>) -> u32 {
    le_value(header.subrange(72, 76)) as u32
}

/// The hash of the header that a hit reports, with the nonce it reports.
pub open spec fn hit_hash(hit: Hit) -> Seq<u8> {
    block_hash(
        header_version(hit.header),
        header_prev(hit.header),
        header_merkle(hit.header),
        header_time(hit.header),
        header_bits(hit.header),
        hit.nonce,
    )
}

/// What became of a hit.
#[derive(Debug, Clone, Copy, PartialEq, Eq)]
pub enum HitVerdict {
    /// There is no task that it could belong to.
    NoTask,
    /// The header it echoes is not that of the current task.
    Stale,
    /// The hash does not meet the share target.
    MissesTarget,
    /// It is a share.
    Share(Share),
}

/// What becomes of a hit.
#[verifier::ext_equal]
pub enum HitOutcome {
    /// There is no task that it could belong to.
    NoTask,
    /// The header it echoes is not that of the current task.
    Stale,
    /// The hash does not meet the share target.
    MissesTarget,
    /// It is a share.
    Share(ShareClaim),
}

impl View for HitVerdict {
    type V = HitOutcome;

    open spec fn view(&self) -> HitOutcome {
        match *self {
            HitVerdict::NoTask => HitOutcome::NoTask,
            HitVerdict::Stale => HitOutcome::Stale,
            HitVerdict::MissesTarget => HitOutcome::MissesTarget,
            HitVerdict::Share(share) => HitOutcome::Share(share@),
        }
    }
}

/// The header of `hit` is that of `task`: previous block hash, compact target
/// and time agree.
pub open spec fn belongs_to(hit: Hit, task: HashTask) -> bool {
    &&& header_prev(hit.header) == task.prev_blockhash@
    &&& header_bits(hit.header) == task.bits
    &&& header_time(hit.header) == task.ntime
}

/// What becomes of `hit`, whose header hashes to `hash`, under the current
/// task.
pub open spec fn outcome(hit: Hit, task: Option<HashTask>, hash: Seq<u8>) -> HitOutcome {
    match task {
        None => HitOutcome::NoTask,
        Some(task) => if !belongs_to(hit, task) {
            HitOutcome::Stale
        } else if le_value(hash) > le_value(task.share_target@) {
            HitOutcome::MissesTarget
        } else {
            HitOutcome::Share(
                ShareClaim {
                    nonce: hit.nonce,
                    hash,
                    version: header_version(hit.header),
                    ntime: header_time(hit.header),
                    extranonce2: task.en2,
                    expected_work: work_of(le_value(task.share_target@)),
                },
            )
        },
    }
}

/// The 32 bytes at `header[at..at + 32]`.
fn bytes32(header: &[u8; 80], at: usize) -> (r: [u8; 32])
    requires
        at + 32 <= 80,
    ensures
        r@ == header@.subrange(at as int, at + 32),
{
    let mut r: [u8; 32] = [0u8; 32];
    let mut i: usize = 0;
    while i < 32
        invariant
            i <= 32,
            at + 32 <= 80,
            r@.len() == 32,
            r@.take(i as int) == header@.subrange(at as int, at + i),
        decreases 32 - i,
    {
        r[i] = header[at + i];
        assert(r@.take(i + 1) =~= header@.subrange(at as int, at + i + 1));
        i = i + 1;
    }
    assert(r@ =~= r@.take(32));
    r
}

/// Whether two hashes are equal.
fn same32(a: &[u8; 32], b: &[u8; 32]) -> (r: bool)
    ensures
        r == (a@ == b@),
{
    let mut i: usize = 0;
    while i < 32
        invariant
            i <= 32,
            forall|j: int| 0 <= j < i ==> a@[j] == b@[j],
        decreases 32 - i,
    {
        if a[i] != b[i] {
            return false;
        }
        i = i + 1;
    }
    assert(a@ =~= b@);
    true
}

/// Version field of a header.
fn version_of(header: &[u8; 80]) -> (version: i32)
    ensures
        version == header_version(header@),
{
    let word: u32 = u32_from_le(header, 0);
    if word < 0x8000_0000 {
        word as i32
    } else {
        (word as i64 - 0x1_0000_0000) as i32
    }
}

/// Judge a hit whose header hashes to `hash` against the current task.
///
/// The hit frame echoes the full 80-byte winning header, so the share is
/// self-validating: it is accepted only when the echoed prevhash, ntime and
/// bits match the current task and the hash meets the task's share target.
/// Hits that fail any of these checks are stale and dropped.
pub fn judge_hit(hit: &HitFrame, task: &Option<HashTask>, hash: &[u8; 32]) -> (r: HitVerdict)
    ensures
        r@ == outcome(hit@, *task, hash@),
{
    match task {
        None => HitVerdict::NoTask,
        Some(task) => {
            let ntime: u32 = u32_from_le(&hit.header, 68);
            let bits: u32 = u32_from_le(&hit.header, 72);
            let prev = bytes32(&hit.header, 4);
            if !same32(&prev, &task.prev_blockhash) || bits != task.bits || ntime != task.ntime {
                return HitVerdict::Stale;
            }
            if !target_is_met(&task.share_target, hash) {
                return HitVerdict::MissesTarget;
            }
            HitVerdict::Share(
                Share {
                    nonce: hit.nonce,
                    hash: *hash,
                    version: version_of(&hit.header),
                    ntime,
                    extranonce2: task.en2,
                    expected_work: target_work(&task.share_target),
                },
            )
        },
    }
}

/// Process a 92-byte hit frame against the current task: hash the header it
/// echoes, then judge it.
pub fn handle_hit(hit: &HitFrame, task: &Option<HashTask>) -> (r: HitVerdict)
    ensures
        r@ == outcome(hit@, *task, hit_hash(hit@)),
{
    let hash = hash_header(
        version_of(&hit.header),
        &bytes32(&hit.header, 4),
        &bytes32(&hit.header, 36),
        u32_from_le(&hit.header, 68),
        u32_from_le(&hit.header, 72),
        hit.nonce,
    );
    judge_hit(hit, task, &hash)
}

/// The shares among `hits`, in order.
pub open spec fn shares_among(hits: Seq<Hit>, task: Option<HashTask>) -> Seq<ShareClaim>
    decreases hits.len(),
{
    if hits.len() == 0 {
        Seq::empty()
    } else {
        let earlier = shares_among(hits.drop_last(), task);
        match outcome(hits.last(), task, hit_hash(hits.last())) {
            HitOutcome::Share(claim) => earlier.push(claim),
            _ => earlier,
        }
    }
}

/// What a run of shares says.
pub open spec fn claims(shares: Seq<Share>) -> Seq<ShareClaim> {
    shares.map_values(|share: Share| share@)
}

/// Process a run of hit frames against the current task, keeping the shares.
pub fn collect_shares(hits: &Vec<HitFrame>, task: &Option<HashTask>) -> (shares: Vec<Share>)
    ensures
        claims(shares@) == shares_among(reported(hits@), *task),
{
    let mut shares: Vec<Share> = Vec::new();
    let mut i: usize = 0;
    assert(reported(hits@.take(0)) =~= Seq::<Hit>::empty());
    assert(claims(shares@) =~= Seq::<ShareClaim>::empty());
    while i < hits.len()
        invariant
            i <= hits@.len(),
            claims(shares@) == shares_among(reported(hits@.take(i as int)), *task),
        decreases hits@.len() - i,
    {
        let ghost before = shares@;
        proof {
            let more = reported(hits@.take(i + 1));
            assert(more.drop_last() =~= reported(hits@.take(i as int)));
            assert(more.last() == hits@[i as int]@);
        }
        match handle_hit(&hits[i], task) {
            HitVerdict::Share(share) => {
                shares.push(share);
                assert(claims(shares@) =~= claims(before).push(share@));
            },
            _ => {},
        }
        i = i + 1;
    }
    assert(hits@.take(i as int) =~= hits@);
    shares
}

/// Every share that comes out of a run of hits is good: one of the hits
/// echoes the header of the current task, the share carries that hit's nonce
/// and hash, its time and extranonce2 are the task's, and its hash meets the
/// share target. Without a task there are no shares.
pub proof fn lemma_shares_are_good(hits: Seq<Hit>, task: Option<HashTask>)
    ensures
        task is None ==> shares_among(hits, task).len() == 0,
        shares_among(hits, task).len() <= hits.len(),
        forall|i: int|
            0 <= i < shares_among(hits, task).len() ==> is_good_share(
                #[trigger] shares_among(hits, task)[i],
                hits,
                task,
            ),
    decreases hits.len(),
{
    if hits.len() > 0 {
        let earlier = hits.drop_last();
        lemma_shares_are_good(earlier, task);
        let all = shares_among(hits, task);
        let head = shares_among(earlier, task);
        assert forall|i: int| 0 <= i < all.len() implies is_good_share(
            #[trigger] all[i],
            hits,
            task,
        ) by {
            if i < head.len() {
                assert(all[i] == head[i]);
                let k = choose|k: int|
                    0 <= k < earlier.len() && confirms(#[trigger] earlier[k], all[i], task->0);
                assert(hits[k] == earlier[k]);
            } else {
                assert(hits[hits.len() - 1] == hits.last());
                assert(confirms(hits[hits.len() - 1], all[i], task->0));
            }
        }
    }
}

/// `hit` is what `claim` was made from, under `task`.
pub open spec fn confirms(hit: Hit, claim: ShareClaim, task: HashTask) -> bool {
    &&& belongs_to(hit, task)
    &&& claim.nonce == hit.nonce
    &&& claim.hash == hit_hash(hit)
}

/// `claim` was made from one of `hits` and meets the share target of `task`.
pub open spec fn is_good_share(claim: ShareClaim, hits: Seq<Hit>, task: Option<HashTask>) -> bool {
    &&& task is Some
    &&& claim.ntime == task->0.ntime
    &&& claim.extranonce2 == task->0.en2
    &&& le_value(claim.hash) <= le_value(task->0.share_target@)
    &&& exists|k: int| 0 <= k < hits.len() && confirms(#[trigger] hits[k], claim, task->0)
}

} // verus!
