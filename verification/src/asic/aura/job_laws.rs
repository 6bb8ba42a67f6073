//! What is sent for a task, and which hits are shares.

use super::frame_laws::word;
use super::job::{
    as_signed, block_hash, hit_hash, outcome, shares_among, task_merkle, work_of, HashTask,
    HitOutcome, HitVerdict, JobError, MerkleRootKind, Share, ShareClaim,
};
use super::protocol::Hit;
use crate::wire::{le_value, lemma_value_unfold};
use vstd::arithmetic::div_mod::{lemma_fundamental_div_mod, lemma_mod_bound};
use vstd::arithmetic::power2::pow2;
use vstd::prelude::*;

verus! {

proof fn lemma_header_word(header: Seq<u8>, at: int)
    requires
        0 <= at,
        at + 4 <= header.len(),
    ensures
        le_value(header.subrange(at, at + 4)) == word(
            header[at],
            header[at + 1],
            header[at + 2],
            header[at + 3],
        ),
{
    let w = header.subrange(at, at + 4);
    lemma_value_unfold(w);
    assert(w[0] == header[at] && w[1] == header[at + 1] && w[2] == header[at + 2] && w[3]
        == header[at + 3]);
}

/// `version` is the signed number that the first word of `header` spells: the
/// two agree modulo `2^32`.
pub open spec fn spells_version(header: Seq<u8>, version: i32) -> bool {
    let spelled = word(header[0], header[1], header[2], header[3]);
    version == spelled || version == spelled - 0x1_0000_0000
}

/// The header of `hit` carries the previous block hash, the compact target and
/// the time of `task`.
pub open spec fn echoes(hit: Hit, task: HashTask) -> bool {
    let h = hit.header;
    &&& forall|i: int| 0 <= i < 32 ==> #[trigger] h[4 + i] == task.prev_blockhash@[i]
    &&& word(h[68], h[69], h[70], h[71]) == task.ntime
    &&& word(h[72], h[73], h[74], h[75]) == task.bits
}

/// When a hit is a share: there is a task, the header echoes it, and the hash
/// is at most the task's target. Which of these fails first says what else the
/// hit is.
pub proof fn lemma_what_is_a_share(hit: Hit, task: Option<HashTask>, hash: Seq<u8>)
    requires
        hit.header.len() == 80,
    ensures
        task is None <==> outcome(hit, task, hash) == HitOutcome::NoTask,
        task matches Some(t) ==> {
            let meets = le_value(hash) <= le_value(t.share_target@);
            &&& !echoes(hit, t) <==> outcome(hit, task, hash) == HitOutcome::Stale
            &&& echoes(hit, t) && !meets <==> outcome(hit, task, hash) == HitOutcome::MissesTarget
            &&& echoes(hit, t) && meets <==> outcome(hit, task, hash) is Share
        },
{
    lemma_header_word(hit.header, 68);
    lemma_header_word(hit.header, 72);
    if let Some(t) = task {
        let prev = hit.header.subrange(4, 36);
        if echoes(hit, t) {
            assert forall|i: int| 0 <= i < 32 implies #[trigger] prev[i] == t.prev_blockhash@[i] by {
                assert(hit.header[4 + i] == t.prev_blockhash@[i]);
            }
            assert(prev =~= t.prev_blockhash@);
        }
        if prev == t.prev_blockhash@ {
            assert forall|i: int| 0 <= i < 32 implies #[trigger] hit.header[4 + i]
                == t.prev_blockhash@[i] by {
                assert(prev[i] == hit.header[4 + i]);
            }
        }
    }
}

/// What a share claims: the hit's nonce and hash, the version that the hit's
/// header spells, its time, and the extranonce2 and the work of the task.
pub proof fn lemma_what_a_share_claims(hit: Hit, task: Option<HashTask>, hash: Seq<u8>)
    requires
        hit.header.len() == 80,
    ensures
        outcome(hit, task, hash) matches HitOutcome::Share(claim) ==> {
            let h = hit.header;
            &&& claim.nonce == hit.nonce
            &&& claim.hash == hash
            &&& spells_version(h, claim.version)
            &&& claim.ntime == word(h[68], h[69], h[70], h[71])
            &&& claim.ntime == task->0.ntime
            &&& claim.extranonce2 == task->0.en2
            &&& claim.expected_work == work_of(le_value(task->0.share_target@))
        },
{
    lemma_header_word(hit.header, 0);
    lemma_header_word(hit.header, 68);
}

/// A share can be checked from what it claims: the header put together from
/// the claimed version, time and nonce and the hit's own previous hash, merkle
/// root and compact target has the claimed hash, and that is within the
/// target.
pub proof fn lemma_share_rebuilds_its_hash(hit: Hit, task: Option<HashTask>)
    requires
        hit.header.len() == 80,
    ensures
        outcome(hit, task, hit_hash(hit)) matches HitOutcome::Share(claim) ==> {
            &&& claim.hash == block_hash(
                claim.version,
                hit.header.subrange(4, 36),
                hit.header.subrange(36, 68),
                claim.ntime,
                task->0.bits,
                claim.nonce,
            )
            &&& le_value(claim.hash) <= le_value(task->0.share_target@)
        },
{
}

/// The hash of a hit is that of the header it echoes, field by field, with the
/// nonce that the hit reports.
pub proof fn lemma_hash_of_hit(hit: Hit, version: i32, time: u32, bits: u32)
    requires
        hit.header.len() == 80,
        spells_version(hit.header, version),
        time == word(hit.header[68], hit.header[69], hit.header[70], hit.header[71]),
        bits == word(hit.header[72], hit.header[73], hit.header[74], hit.header[75]),
    ensures
        hit_hash(hit) == block_hash(
            version,
            hit.header.subrange(4, 36),
            hit.header.subrange(36, 68),
            time,
            bits,
            hit.nonce,
        ),
{
    lemma_header_word(hit.header, 0);
    lemma_header_word(hit.header, 68);
    lemma_header_word(hit.header, 72);
}

/// Reading a word as a signed number loses nothing: no two words are read as
/// the same number.
pub proof fn lemma_signed_is_exact(a: u32, b: u32)
    ensures
        as_signed(a as nat) == as_signed(b as nat) ==> a == b,
        a < 0x8000_0000 ==> as_signed(a as nat) == a,
        a >= 0x8000_0000 ==> as_signed(a as nat) == a - 0x1_0000_0000,
{
}

/// The work of a target is the number of times that `target + 1` goes into
/// `2^256`; the targets 0 and 1 count as `2^256 - 1`.
pub proof fn lemma_work_of_target(target: nat)
    ensures
        target >= 2 ==> {
            &&& work_of(target) * (target + 1) <= pow2(256)
            &&& pow2(256) < (work_of(target) + 1) * (target + 1)
        },
        target < 2 ==> work_of(target) + 1 == pow2(256),
{
    if target >= 2 {
        let d = (target + 1) as int;
        lemma_fundamental_div_mod(pow2(256) as int, d);
        lemma_mod_bound(pow2(256) as int, d);
        let q = pow2(256) as int / d;
        assert((q + 1) * d == q * d + d) by (nonlinear_arith);
        assert(d * q == q * d) by (nonlinear_arith);
    } else {
        vstd::arithmetic::power2::lemma_pow2_pos(256);
    }
}

/// The merkle root sent for a task: the fixed one, or the computed one where
/// the task has an extranonce2 and the computation succeeded. A computed root
/// without an extranonce2 is refused before anything else.
pub proof fn lemma_root_of_task(task: HashTask)
    ensures
        task.merkle_root matches MerkleRootKind::Fixed(root) ==> task_merkle(task) == Ok::<
            Seq<u8>,
            JobError,
        >(root@),
        task.merkle_root matches MerkleRootKind::Computed(outcome) ==> {
            &&& task.en2 is None <==> task_merkle(task) == Err::<Seq<u8>, JobError>(
                JobError::Extranonce2Required,
            )
            &&& task.en2 is Some && outcome is None <==> task_merkle(task) == Err::<
                Seq<u8>,
                JobError,
            >(JobError::MerkleRootFailed)
            &&& task.en2 is Some ==> (outcome matches Some(root) ==> task_merkle(task) == Ok::<
                Seq<u8>,
                JobError,
            >(root@))
        },
{
}

/// No hits give no shares; one hit gives its share, if it is one; and the
/// shares of two runs of hits are those of the first, then those of the second.
pub proof fn lemma_shares_of_runs(a: Seq<Hit>, hit: Hit, b: Seq<Hit>, task: Option<HashTask>)
    ensures
        shares_among(Seq::empty(), task) == Seq::<ShareClaim>::empty(),
        outcome(hit, task, hit_hash(hit)) matches HitOutcome::Share(claim) ==> shares_among(
            seq![hit],
            task,
        ) == seq![claim],
        !(outcome(hit, task, hit_hash(hit)) is Share) ==> shares_among(seq![hit], task) == Seq::<
            ShareClaim,
        >::empty(),
        shares_among(a + b, task) == shares_among(a, task) + shares_among(b, task),
    decreases b.len(),
{
    let one = seq![hit];
    assert(one.drop_last() =~= Seq::<Hit>::empty());
    assert(shares_among(one.drop_last(), task) =~= Seq::<ShareClaim>::empty());
    if let HitOutcome::Share(claim) = outcome(hit, task, hit_hash(hit)) {
        assert(shares_among(one, task) =~= seq![claim]);
    }
    if b.len() == 0 {
        assert(a + b =~= a);
        assert(shares_among(a, task) + shares_among(b, task) =~= shares_among(a, task));
    } else {
        lemma_shares_of_runs(a, hit, b.drop_last(), task);
        assert((a + b).drop_last() =~= a + b.drop_last());
        assert((a + b).last() == b.last());
        assert(shares_among(a + b, task) =~= shares_among(a, task) + shares_among(b, task));
    }
}

/// A verdict says what it says: the share that it holds is the share that it
/// is taken for, field by field.
pub proof fn lemma_verdict_says(verdict: HitVerdict, share: Share)
    ensures
        verdict == HitVerdict::NoTask <==> verdict@ == HitOutcome::NoTask,
        verdict == HitVerdict::Stale <==> verdict@ == HitOutcome::Stale,
        verdict == HitVerdict::MissesTarget <==> verdict@ == HitOutcome::MissesTarget,
        verdict matches HitVerdict::Share(s) ==> verdict@ == HitOutcome::Share(s@),
        share@.nonce == share.nonce,
        share@.hash == share.hash@,
        share@.version == share.version,
        share@.ntime == share.ntime,
        share@.extranonce2 == share.extranonce2,
        share@.expected_work == le_value(share.expected_work@),
{
}

} // verus!
