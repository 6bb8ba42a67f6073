//! Thread rules: job in -> share out, hit FIFO semantics, ramp gating.

use bytes::BytesMut;
use mujina_miner::asic::aura::chain::{
    bring_up_chain, duty_word, version_bounds, DVFS_INIT_WRITES,
};
use mujina_miner::asic::aura::crc::aura_crc32;
use mujina_miner::asic::aura::job::{
    dispatch_job, handle_hit, judge_hit, Extranonce2, HashTask, HitVerdict, JobError,
    MerkleRootKind, Share,
};
use mujina_miner::asic::aura::protocol::{
    pll_freq_word, Command, HitFrame, Register, COMMAND_MAGIC, LONG_FRAME_LEN, PLL_CONFIG_INIT,
    RESPONSE_MAGIC,
};
use mujina_miner::asic::aura::thread::{
    bring_up_hooks, AuraConfig, AuraThread, HookStep, Rejection, ThreadAction, ThreadEvent,
    ThreadRemovalSignal, Tick,
};

/// Chip, register, low-level command word and data of a command on the wire.
fn command_fields(wire: &[u8]) -> (u8, u8, u16, u32) {
    assert_eq!(wire[..20], [0u8; 20]);
    let f = &wire[20..];
    assert_eq!(f[..4], COMMAND_MAGIC.to_le_bytes());
    assert_eq!(f[12..], aura_crc32(&f[..12]).to_le_bytes());
    (
        f[4],
        f[5],
        u16::from_le_bytes([f[6], f[7]]),
        u32::from_le_bytes([f[8], f[9], f[10], f[11]]),
    )
}

fn response_frame(chip: u8, reg: u8, lcmd: u16, data: u32) -> [u8; 16] {
    let mut frame = [0u8; 16];
    frame[0..4].copy_from_slice(&RESPONSE_MAGIC.to_be_bytes());
    frame[4] = chip;
    frame[5] = reg;
    frame[6..8].copy_from_slice(&lcmd.to_le_bytes());
    frame[8..12].copy_from_slice(&data.to_le_bytes());
    let crc = aura_crc32(&frame[0..12]);
    frame[12..16].copy_from_slice(&crc.to_le_bytes());
    frame
}

fn hit_frame(chip: u8, header: [u8; 80]) -> [u8; LONG_FRAME_LEN] {
    let mut frame = [0u8; LONG_FRAME_LEN];
    frame[0..4].copy_from_slice(&COMMAND_MAGIC.to_le_bytes());
    frame[4] = chip;
    frame[5] = 0xc4;
    frame[6] = 0x1d;
    frame[7] = 0x00;
    frame[8..88].copy_from_slice(&header);
    let crc = aura_crc32(&frame[0..88]);
    frame[88..92].copy_from_slice(&crc.to_le_bytes());
    frame
}

/// A task whose share target accepts any hash (full 256-bit target), so every
/// hit forwards.
fn test_task() -> HashTask {
    HashTask {
        id: 1,
        prev_blockhash: [0x11; 32],
        bits: 0x1d00_ffff,
        merkle_root: MerkleRootKind::Fixed([0x22; 32]),
        en2: Some(Extranonce2 { value: 0, size: 1 }),
        ntime: 0x6a7d_79bf,
        share_target: [0xff; 32],
    }
}

/// An 80-byte winning header that matches `test_task()` exactly, with the
/// nonce `0xdead_beef` in `header[76..80]`.
fn matching_header() -> [u8; 80] {
    let mut header = [0u8; 80];
    header[0..4].copy_from_slice(&0x2000_0000u32.to_le_bytes());
    header[4..36].fill(0x11);
    header[36..68].fill(0x22);
    header[68..72].copy_from_slice(&0x6a7d_79bfu32.to_le_bytes());
    header[72..76].copy_from_slice(&0x1d00_ffffu32.to_le_bytes());
    header[76..80].copy_from_slice(&0xdead_beefu32.to_le_bytes());
    header
}

/// A thread with chips 0 and 1 up and `test_task()` live.
fn live_thread() -> AuraThread {
    let mut thread = AuraThread::new(&AuraConfig::default());
    let action = thread.step(ThreadEvent::UpdateTask(test_task()));
    assert!(matches!(action, ThreadAction::BringUp));
    let action = thread.step(ThreadEvent::BroughtUp(Some(vec![0, 1])));
    assert!(matches!(action, ThreadAction::RunHooks));
    let action = thread.step(ThreadEvent::HooksRun);
    assert!(matches!(action, ThreadAction::WriteJob(_)));
    let action = thread.step(ThreadEvent::JobWritten(true));
    assert!(matches!(action, ThreadAction::Accept(None)));
    thread
}

fn submitted(action: ThreadAction) -> Vec<Share> {
    match action {
        ThreadAction::Submit(shares) => shares,
        other => panic!("expected shares, got {other:?}"),
    }
}

fn job(action: ThreadAction) -> BytesMut {
    match action {
        ThreadAction::WriteJob(frames) => frames,
        other => panic!("expected a job, got {other:?}"),
    }
}

const TICKS: [Tick; 5] =
    [Tick::Heartbeat, Tick::HitPoll, Tick::Telemetry, Tick::Ntime, Tick::Ramp];

#[test]
fn no_commands_before_first_job() {
    let mut thread = AuraThread::new(&AuraConfig::default());
    for tick in TICKS {
        assert!(!thread.wants(tick));
        assert!(matches!(thread.step(ThreadEvent::Ticked(tick)), ThreadAction::Wait));
    }
    assert!(matches!(thread.step(ThreadEvent::Configure), ThreadAction::AnnounceHashrate));
    assert!(!thread.status().is_active);
}

#[test]
fn job_in_share_out_with_empty_fifo_semantics() {
    let mut thread = AuraThread::new(&AuraConfig::default());
    assert!(matches!(
        thread.step(ThreadEvent::UpdateTask(test_task())),
        ThreadAction::BringUp
    ));

    // Bring-up bytes: version bounds (4), DVFS setup (18), init (4).
    let mut buf = BytesMut::new();
    bring_up_chain(&mut buf, &[0, 1]).unwrap();
    assert_eq!(buf.len(), 4 * 36 + 18 * 36 + 4 * 36);
    let commands: Vec<(u8, u8, u16, u32)> = buf.chunks(36).map(command_fields).collect();
    assert_eq!(commands.len(), 26);

    // Version bounds for chips 0 and 1.
    assert_eq!(commands[0], (0x00, 0x10, 0x1000, version_bounds(0)));
    assert_eq!(commands[1], (0x00, 0x11, 0x1000, 13));
    assert_eq!(commands[2], (0x01, 0x10, 0x1000, version_bounds(1)));
    assert_eq!(commands[3], (0x01, 0x11, 0x1000, 13));

    // DVFS InitialSetup: exact 18 writes in exact order (broadcast).
    assert_eq!(DVFS_INIT_WRITES.len(), 18);
    for (i, (lcmd, data)) in DVFS_INIT_WRITES.iter().enumerate() {
        assert_eq!(commands[4 + i], (0x80, 0x81, *lcmd, *data), "DVFS write {i}");
    }

    // Init: PLL_CONFIG, PLL_FREQ(80), DUTY, HASHCONFIG (broadcast).
    assert_eq!(commands[22], (0x80, 0x18, 0x1000, PLL_CONFIG_INIT));
    assert_eq!(commands[23], (0x80, 0x19, 0x1000, pll_freq_word(80)));
    assert_eq!(commands[24], (0x80, 0x68, 0x1000, duty_word(80)));
    assert_eq!(commands[25], (0x80, 0x14, 0x1000, 0x0200_0200));

    assert!(matches!(
        thread.step(ThreadEvent::BroughtUp(Some(vec![0, 1]))),
        ThreadAction::RunHooks
    ));
    let frames = job(thread.step(ThreadEvent::HooksRun));
    assert_eq!(frames.len(), 2 * 92);
    // Jobs for both chips: slot 0, job_id 0, nonce_start 0.
    for (i, frame) in frames.chunks(92).enumerate() {
        assert_eq!(frame[4], i as u8);
        assert_eq!(frame[5], 0x84);
        assert_eq!(&frame[6..8], &[0x2a, 0x00]);
        assert_eq!(&frame[8..12], &[0; 4]);
        assert_eq!(&frame[12..44], &[0x11; 32]);
        assert_eq!(&frame[44..76], &[0x22; 32]);
        assert_eq!(&frame[76..80], &0x6a7d_79bfu32.to_le_bytes());
        assert_eq!(&frame[80..84], &0x1d00_ffffu32.to_le_bytes());
        assert_eq!(&frame[84..88], &[0; 4]);
    }
    // First task: no previous task.
    assert!(matches!(thread.step(ThreadEvent::JobWritten(true)), ThreadAction::Accept(None)));
    assert!(thread.status().is_active);

    // The ramp only runs after the job.
    assert!(thread.wants(Tick::Ramp));
    assert!(matches!(thread.step(ThreadEvent::Ticked(Tick::Ramp)), ThreadAction::RampTo(80)));
    assert!(matches!(thread.step(ThreadEvent::Ticked(Tick::Ramp)), ThreadAction::RampTo(100)));

    // Scripted hit frame: the thread forwards a share with the correct nonce.
    let chunk = hit_frame(0x00, matching_header()).to_vec();
    let shares = submitted(thread.step(ThreadEvent::Received(chunk)));
    assert_eq!(shares.len(), 1);
    let share = shares[0];
    assert_eq!(share.nonce, 0xdead_beef);
    assert_eq!(share.ntime, 0x6a7d_79bf);
    assert_eq!(share.version, 0x2000_0000);
    assert_eq!(share.extranonce2, Some(Extranonce2 { value: 0, size: 1 }));
    assert_eq!(
        share.hash,
        [
            0xf3, 0x9d, 0x93, 0xf1, 0xa7, 0x6e, 0x59, 0x97, 0xb7, 0x6d, 0x28, 0x2a, 0x68, 0xd0,
            0x2d, 0xbc, 0xa6, 0xf5, 0xda, 0xa8, 0x04, 0x57, 0x0a, 0xc5, 0xda, 0x22, 0x77, 0x4f,
            0x4d, 0xa4, 0xae, 0x2a,
        ]
    );
    // The largest target stands for one hash of work.
    assert_eq!(share.expected_work[0], 1);
    assert!(share.expected_work[1..].iter().all(|&b| b == 0));
    thread.step(ThreadEvent::ShareSent(true));
    assert_eq!(thread.status().chip_shares_found, 1);
    assert_eq!(thread.status().pool_shares_submitted, 1);

    // Empty hit FIFO: no response is normal, no share, no error.
    assert!(submitted(thread.step(ThreadEvent::Received(vec![]))).is_empty());
    assert_eq!(thread.status().hardware_errors, 0);

    // The thread is still alive: a second hit still forwards.
    let chunk = hit_frame(0x01, matching_header()).to_vec();
    let shares = submitted(thread.step(ThreadEvent::Received(chunk)));
    assert_eq!(shares[0].nonce, 0xdead_beef);
    // A closed share channel counts nothing.
    thread.step(ThreadEvent::ShareSent(false));
    assert_eq!(thread.status().chip_shares_found, 1);
}

#[test]
fn stale_hit_header_is_dropped() {
    let mut thread = live_thread();
    for at in [4, 35, 68, 71, 72, 75] {
        let mut header = matching_header();
        header[at] ^= 0x01;
        let chunk = hit_frame(0x00, header).to_vec();
        assert!(submitted(thread.step(ThreadEvent::Received(chunk))).is_empty());
    }
    let mut header = matching_header();
    header[68..72].copy_from_slice(&0x1111_1111u32.to_le_bytes());
    let chunk = hit_frame(0x00, header).to_vec();
    assert!(submitted(thread.step(ThreadEvent::Received(chunk))).is_empty());
}

#[test]
fn genesis_block_is_a_share() {
    let mut header = [0u8; 80];
    header[0] = 1;
    header[36..68].copy_from_slice(&[
        0x3b, 0xa3, 0xed, 0xfd, 0x7a, 0x7b, 0x12, 0xb2, 0x7a, 0xc7, 0x2c, 0x3e, 0x67, 0x76, 0x8f,
        0x61, 0x7f, 0xc8, 0x1b, 0xc3, 0x88, 0x8a, 0x51, 0x32, 0x3a, 0x9f, 0xb8, 0xaa, 0x4b, 0x1e,
        0x5e, 0x4a,
    ]);
    header[68..72].copy_from_slice(&0x495f_ab29u32.to_le_bytes());
    header[72..76].copy_from_slice(&0x1d00_ffffu32.to_le_bytes());
    header[76..80].copy_from_slice(&0x7c2b_ac1du32.to_le_bytes());
    // Difficulty 1: 0x00000000ffff0000...
    let mut share_target = [0u8; 32];
    share_target[26] = 0xff;
    share_target[27] = 0xff;
    let task = HashTask {
        prev_blockhash: [0; 32],
        ntime: 0x495f_ab29,
        en2: None,
        share_target,
        ..test_task()
    };
    let hit = HitFrame::parse(&hit_frame(0, header)).unwrap();
    let genesis_hash = [
        0x6f, 0xe2, 0x8c, 0x0a, 0xb6, 0xf1, 0xb3, 0x72, 0xc1, 0xa6, 0xa2, 0x46, 0xae, 0x63, 0xf7,
        0x4f, 0x93, 0x1e, 0x83, 0x65, 0xe1, 0x5a, 0x08, 0x9c, 0x68, 0xd6, 0x19, 0x00, 0x00, 0x00,
        0x00, 0x00,
    ];
    match handle_hit(&hit, &Some(task)) {
        HitVerdict::Share(share) => {
            assert_eq!(share.hash, genesis_hash);
            assert_eq!(share.version, 1);
            assert_eq!(share.nonce, 0x7c2b_ac1d);
            // Work of difficulty 1: 0x1_0001_0001.
            let mut work = [0u8; 32];
            work[0] = 1;
            work[2] = 1;
            work[4] = 1;
            assert_eq!(share.expected_work, work);
        }
        other => panic!("not a share: {other:?}"),
    }

    // One below the hash is a target that it misses; the hash itself is met.
    let mut exact = task;
    exact.share_target = genesis_hash;
    assert!(matches!(handle_hit(&hit, &Some(exact)), HitVerdict::Share(_)));
    exact.share_target[0] -= 1;
    assert_eq!(handle_hit(&hit, &Some(exact)), HitVerdict::MissesTarget);

    assert_eq!(handle_hit(&hit, &None), HitVerdict::NoTask);
    assert_eq!(handle_hit(&hit, &Some(test_task())), HitVerdict::Stale);
}

#[test]
fn judging_goes_by_the_hash_it_is_given() {
    let hit = HitFrame::parse(&hit_frame(0, matching_header())).unwrap();
    let mut task = test_task();
    task.share_target = [0; 32];
    task.share_target[0] = 5;
    let mut hash = [0u8; 32];
    hash[0] = 5;
    match judge_hit(&hit, &Some(task), &hash) {
        // 2^256 / 6, rounded down: 0x2aaa...aa.
        HitVerdict::Share(share) => {
            assert_eq!(share.hash, hash);
            assert_eq!(share.expected_work[31], 0x2a);
            assert!(share.expected_work[..31].iter().all(|&b| b == 0xaa));
        }
        other => panic!("not a share: {other:?}"),
    }
    hash[31] = 1;
    assert_eq!(judge_hit(&hit, &Some(task), &hash), HitVerdict::MissesTarget);
    // Targets 0 and 1 count as the most work there is.
    for low in [0u8, 1] {
        task.share_target[0] = low;
        match judge_hit(&hit, &Some(task), &[0; 32]) {
            HitVerdict::Share(share) => assert_eq!(share.expected_work, [0xff; 32]),
            other => panic!("not a share: {other:?}"),
        }
    }
}

#[test]
fn negative_versions_keep_their_sign() {
    let mut header = matching_header();
    header[0..4].copy_from_slice(&[0xfe, 0xff, 0xff, 0xff]);
    let hit = HitFrame::parse(&hit_frame(0, header)).unwrap();
    match judge_hit(&hit, &Some(test_task()), &[0; 32]) {
        HitVerdict::Share(share) => assert_eq!(share.version, -2),
        other => panic!("not a share: {other:?}"),
    }
}

#[test]
fn hits_survive_being_cut_up() {
    let frame = hit_frame(0x00, matching_header());
    let mut stream = vec![0u8; 5];
    stream.extend_from_slice(&frame);
    stream.extend_from_slice(&response_frame(0, 0x61, 0x1200, 9));
    for cut in 0..=stream.len() {
        let mut thread = live_thread();
        let mut shares = submitted(thread.step(ThreadEvent::Received(stream[..cut].to_vec())));
        shares.extend(submitted(thread.step(ThreadEvent::Received(stream[cut..].to_vec()))));
        assert_eq!(shares.len(), 1);
    }
}

#[test]
fn failed_bring_up_refuses_and_can_be_tried_again() {
    let mut thread = AuraThread::new(&AuraConfig::default());
    thread.step(ThreadEvent::ReplaceTask(test_task()));
    assert!(matches!(
        thread.step(ThreadEvent::BroughtUp(None)),
        ThreadAction::Reject(Rejection::BringUpFailed)
    ));
    assert!(!thread.wants(Tick::Heartbeat) && !thread.wants(Tick::Ntime));
    assert!(matches!(
        thread.step(ThreadEvent::ReplaceTask(test_task())),
        ThreadAction::BringUp
    ));
}

#[test]
fn hooks_run_once() {
    let mut thread = live_thread();
    let mut task = test_task();
    task.id = 2;
    let frames = job(thread.step(ThreadEvent::UpdateTask(task)));
    // Slot 1, job id 1.
    assert_eq!(&frames[6..12], &[0x2a, 0x04, 0x01, 0x00, 0x00, 0x00]);
    match thread.step(ThreadEvent::JobWritten(true)) {
        ThreadAction::Accept(Some(old)) => assert_eq!(old.id, 1),
        other => panic!("unexpected {other:?}"),
    }
}

#[test]
fn failed_job_write_keeps_slot_and_job_id() {
    let mut thread = live_thread();
    job(thread.step(ThreadEvent::UpdateTask(test_task())));
    assert!(matches!(
        thread.step(ThreadEvent::JobWritten(false)),
        ThreadAction::Reject(Rejection::WriteFailed)
    ));
    let frames = job(thread.step(ThreadEvent::UpdateTask(test_task())));
    assert_eq!(&frames[6..12], &[0x2a, 0x04, 0x01, 0x00, 0x00, 0x00]);
}

#[test]
fn computed_merkle_root_needs_extranonce2() {
    let mut task = test_task();
    task.merkle_root = MerkleRootKind::Computed(Some([0x33; 32]));
    let mut buf = BytesMut::new();
    dispatch_job(&mut buf, &[7], 2, 9, &task).unwrap();
    assert_eq!(buf.len(), 92);
    assert_eq!(&buf[44..76], &[0x33; 32]);
    assert_eq!(&buf[6..8], &[0x2a, 0x08]);
    task.merkle_root = MerkleRootKind::Computed(None);
    assert_eq!(dispatch_job(&mut buf, &[7], 2, 9, &task), Err(JobError::MerkleRootFailed));
    task.en2 = None;
    assert_eq!(dispatch_job(&mut buf, &[7], 2, 9, &task), Err(JobError::Extranonce2Required));
    assert_eq!(buf.len(), 92);

    let mut thread = live_thread();
    assert!(matches!(
        thread.step(ThreadEvent::UpdateTask(task)),
        ThreadAction::Reject(Rejection::Job(JobError::Extranonce2Required))
    ));
    // The task is live all the same; rolling it cannot be sent either.
    assert!(matches!(
        thread.step(ThreadEvent::Ticked(Tick::Ntime)),
        ThreadAction::RollFailed(JobError::Extranonce2Required)
    ));
}

#[test]
fn ntime_rolls_and_makes_old_hits_stale() {
    let mut thread = live_thread();
    let frames = job(thread.step(ThreadEvent::Ticked(Tick::Ntime)));
    assert_eq!(&frames[76..80], &0x6a7d_79c0u32.to_le_bytes());
    assert_eq!(&frames[6..12], &[0x2a, 0x04, 0x01, 0x00, 0x00, 0x00]);
    assert!(matches!(thread.step(ThreadEvent::JobWritten(true)), ThreadAction::Wait));
    let chunk = hit_frame(0x00, matching_header()).to_vec();
    assert!(submitted(thread.step(ThreadEvent::Received(chunk))).is_empty());
    let mut header = matching_header();
    header[68] += 1;
    let chunk = hit_frame(0x00, header).to_vec();
    assert_eq!(submitted(thread.step(ThreadEvent::Received(chunk))).len(), 1);
}

#[test]
fn idle_keeps_the_ramp_where_it_was() {
    let mut thread = live_thread();
    thread.step(ThreadEvent::Ticked(Tick::Ramp));
    match thread.step(ThreadEvent::GoIdle) {
        ThreadAction::Release(Some(task)) => assert_eq!(task.id, 1),
        other => panic!("unexpected {other:?}"),
    }
    assert!(!thread.status().is_active);
    assert!(!thread.wants(Tick::Ramp) && !thread.wants(Tick::HitPoll) && !thread.wants(Tick::Ntime));
    assert!(thread.wants(Tick::Heartbeat) && !thread.wants(Tick::Telemetry));
    assert!(matches!(thread.step(ThreadEvent::Ticked(Tick::Telemetry)), ThreadAction::Wait));
    assert!(matches!(thread.step(ThreadEvent::Ticked(Tick::Ramp)), ThreadAction::Wait));
    job(thread.step(ThreadEvent::UpdateTask(test_task())));
    thread.step(ThreadEvent::JobWritten(true));
    assert!(matches!(thread.step(ThreadEvent::Ticked(Tick::Ramp)), ThreadAction::RampTo(100)));
}

#[test]
fn ramp_ends_at_the_configured_pll() {
    let config = AuraConfig { ramp_max_pll: 110, ..AuraConfig::default() };
    let mut thread = AuraThread::new(&config);
    thread.step(ThreadEvent::UpdateTask(test_task()));
    thread.step(ThreadEvent::BroughtUp(Some(vec![0])));
    thread.step(ThreadEvent::HooksRun);
    thread.step(ThreadEvent::JobWritten(true));
    let mut climbed = Vec::new();
    while thread.wants(Tick::Ramp) {
        match thread.step(ThreadEvent::Ticked(Tick::Ramp)) {
            ThreadAction::RampTo(n) => climbed.push(n),
            other => panic!("unexpected {other:?}"),
        }
    }
    assert_eq!(climbed, vec![80, 100, 110]);
}

#[test]
fn polls_and_reads_go_to_every_chip() {
    let mut thread = live_thread();
    match thread.step(ThreadEvent::Ticked(Tick::HitPoll)) {
        ThreadAction::Write(groups) => assert_eq!(
            groups,
            vec![
                vec![Command::HitPoll { chip_address: 0 }],
                vec![Command::HitPoll { chip_address: 1 }],
            ]
        ),
        other => panic!("unexpected {other:?}"),
    }
    match thread.step(ThreadEvent::Ticked(Tick::Heartbeat)) {
        ThreadAction::Write(groups) => {
            assert_eq!(groups.len(), 1);
            assert_eq!(groups[0].len(), 5);
            assert_eq!(
                groups[0][3],
                Command::WriteRegister {
                    broadcast: true,
                    chip_address: 0,
                    register: Register::Dvfs,
                    lcmd: 0x1f00,
                    data: 0x5074,
                }
            );
        }
        other => panic!("unexpected {other:?}"),
    }
    match thread.step(ThreadEvent::Ticked(Tick::Telemetry)) {
        ThreadAction::ReadTelemetry(groups) => {
            assert_eq!(groups.len(), 2);
            assert_eq!(
                groups[1][0],
                Command::ReadRegister {
                    broadcast: false,
                    chip_address: 1,
                    register: Register::HitCount,
                    lcmd: 0x1200,
                    data: 0,
                }
            );
            assert_eq!(groups[1].len(), 5);
        }
        other => panic!("unexpected {other:?}"),
    }
}

#[test]
fn telemetry_flows_through_the_thread() {
    let mut thread = live_thread();
    for (round, now) in [(0u32, 0u64), (1, 2_000_000_000)] {
        let mut chunk = Vec::new();
        for reg in [0x61, 0x60, 0x04, 0x06, 0x20] {
            chunk.extend_from_slice(&response_frame(1, reg, 0x1200, round * 100));
        }
        assert!(submitted(thread.step(ThreadEvent::Received(chunk))).is_empty());
        match thread.step(ThreadEvent::TelemetryRead { now }) {
            ThreadAction::Publish(deltas) => {
                assert_eq!(deltas.len(), round as usize);
                if round == 1 {
                    assert_eq!(deltas[0].chip, 1);
                    assert_eq!(deltas[0].hits, 100);
                    assert_eq!(deltas[0].dt, 2_000_000_000);
                }
            }
            other => panic!("unexpected {other:?}"),
        }
    }
}

#[test]
fn removal_and_shutdown_stop_the_thread() {
    let mut thread = live_thread();
    let running = ThreadEvent::Removal(ThreadRemovalSignal::Running);
    assert!(matches!(thread.step(running), ThreadAction::Wait));
    assert!(matches!(thread.step(ThreadEvent::RemovalClosed), ThreadAction::Stop));
    assert!(thread.status().is_active);
    assert!(matches!(thread.step(ThreadEvent::Shutdown), ThreadAction::Stop));
    let fault = ThreadRemovalSignal::HardwareFault { description: "hot".to_string() };
    assert!(matches!(thread.step(ThreadEvent::Removal(fault)), ThreadAction::Stop));
    assert!(!thread.status().is_active);
}

#[test]
fn read_trouble_pauses() {
    let mut thread = live_thread();
    assert!(matches!(thread.step(ThreadEvent::Closed), ThreadAction::Pause(10_000_000)));
    assert_eq!(thread.status().hardware_errors, 0);
    assert!(matches!(thread.step(ThreadEvent::ReadFailed), ThreadAction::Pause(10_000_000)));
    assert_eq!(thread.status().hardware_errors, 1);
}

#[test]
fn thread_defaults_are_locked() {
    let config = AuraConfig::default();
    assert_eq!(config.heartbeat_interval, 2_100_000_000);
    assert_eq!(config.hit_poll_interval, 200_000_000);
    assert_eq!(config.telemetry_interval, 5_000_000_000);
    assert_eq!(config.ramp_step_interval, 50_000_000);
    assert_eq!(config.ntime_interval, 1_000_000_000);
    assert_eq!(config.ramp_max_pll, 491);
    assert!(config.psu.is_none());
}

#[test]
fn hooks_latch_then_switch_baud_then_hold_the_psu() {
    assert_eq!(
        bring_up_hooks(921_600),
        vec![HookStep::LatchChainReady, HookStep::SwitchBaud(921_600), HookStep::HoldPsu]
    );
}

#[test]
fn configurations_clone() {
    let config = AuraConfig {
        ramp_max_pll: 300,
        psu: Some(mujina_miner::peripheral::pwm_sysfs::PwmSysfs::new(1, 0)),
        ..AuraConfig::default()
    };
    let copy = config.clone();
    assert_eq!(copy.chain, config.chain);
    assert_eq!(copy.ramp_max_pll, 300);
    assert_eq!(copy.telemetry_interval, config.telemetry_interval);
    assert_eq!(copy.psu.unwrap().pwm_dir(), config.psu.unwrap().pwm_dir());
}
