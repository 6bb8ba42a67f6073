//! Chain driver: framing, discovery, version bounds, DVFS and init writes.

use bytes::BytesMut;
use mujina_miner::asic::aura::chain::{
    bring_up_chain, configure_version_bounds, discover_chips, drain_frames, duty_word,
    dvfs_initial_setup, hit_poll, init_chain, read_reg, version_bounds, BringUpError, ChainConfig,
    DVFS_INIT_WRITES, HASHCONFIG_VALUE, REG_LCMD,
};
use mujina_miner::asic::aura::crc::aura_crc32;
use mujina_miner::asic::aura::discovery::{sweep, Discovery, DiscoveryAction, DiscoveryEvent};
use mujina_miner::asic::aura::dvfs::{
    heartbeat, write_ramp_step, DVFS_HEARTBEAT_LCMD, DVFS_HEARTBEAT_PAYLOAD,
};
use mujina_miner::asic::aura::protocol::{
    pll_freq_word, JobFrame, Register, COMMAND_MAGIC, FRAME_LEN, JOB_LCMD_BASE, LONG_FRAME_LEN,
    PLL_CONFIG_INIT, PREAMBLE_LEN, RESPONSE_MAGIC,
};
use mujina_miner::peripheral::pwm_sysfs::PwmSysfs;

fn response_frame(chip: u8, reg: u8, lcmd: u16, data: u32) -> [u8; FRAME_LEN] {
    let mut frame = [0u8; FRAME_LEN];
    frame[0..4].copy_from_slice(&RESPONSE_MAGIC.to_be_bytes());
    frame[4] = chip;
    frame[5] = reg;
    frame[6..8].copy_from_slice(&lcmd.to_le_bytes());
    frame[8..12].copy_from_slice(&data.to_le_bytes());
    let crc = aura_crc32(&frame[0..12]);
    frame[12..16].copy_from_slice(&crc.to_le_bytes());
    frame
}

fn hit_frame(chip: u8, header: [u8; 80]) -> [u8; LONG_FRAME_LEN] {
    let mut frame = [0u8; LONG_FRAME_LEN];
    frame[0..4].copy_from_slice(&COMMAND_MAGIC.to_le_bytes());
    frame[4] = chip;
    frame[5] = 0xc4;
    frame[6] = 0x1d;
    frame[7] = 0x00;
    frame[8..88].copy_from_slice(&header);
    let crc = aura_crc32(&frame[0..88]);
    frame[88..92].copy_from_slice(&crc.to_le_bytes());
    frame
}

#[derive(Debug, Clone, PartialEq, Eq)]
enum WireFrame {
    Command { chip: u8, reg: u8, lcmd: u16, data: u32 },
    Job { chip: u8, slot: u8, job_id: u32, ntime: u32, nbits: u32, nonce_start: u32 },
}

fn parse_wire_stream(bytes: &[u8]) -> Vec<WireFrame> {
    let mut out = Vec::new();
    let mut i = 0;
    while i + 4 <= bytes.len() {
        if bytes[i..i + 4] == [0u8; 4] {
            if i + PREAMBLE_LEN + FRAME_LEN > bytes.len() {
                break;
            }
            let f = &bytes[i + PREAMBLE_LEN..i + PREAMBLE_LEN + FRAME_LEN];
            out.push(WireFrame::Command {
                chip: f[4],
                reg: f[5],
                lcmd: u16::from_le_bytes([f[6], f[7]]),
                data: u32::from_le_bytes([f[8], f[9], f[10], f[11]]),
            });
            i += PREAMBLE_LEN + FRAME_LEN;
        } else if bytes[i..i + 4] == COMMAND_MAGIC.to_le_bytes() {
            if i + LONG_FRAME_LEN > bytes.len() {
                break;
            }
            let f = &bytes[i..i + LONG_FRAME_LEN];
            let lcmd = u16::from_le_bytes([f[6], f[7]]);
            out.push(WireFrame::Job {
                chip: f[4],
                slot: ((lcmd - JOB_LCMD_BASE) / 0x400) as u8,
                job_id: u32::from_le_bytes([f[8], f[9], f[10], f[11]]),
                ntime: u32::from_le_bytes([f[76], f[77], f[78], f[79]]),
                nbits: u32::from_le_bytes([f[80], f[81], f[82], f[83]]),
                nonce_start: u32::from_le_bytes([f[84], f[85], f[86], f[87]]),
            });
            i += LONG_FRAME_LEN;
        } else {
            i += 1;
        }
    }
    out
}

const MS: u64 = 1_000_000;

fn fast_config() -> ChainConfig {
    ChainConfig { expected_chips: 21, pass_drain: 30 * MS, pass_pace: 40 * MS, max_passes: 10 }
}

/// Run one pass in which `chips` answer, each in a chunk of its own.
fn run_pass(discovery: &mut Discovery, now: &mut u64, chips: &[u8]) -> DiscoveryAction {
    let end = *now + 30 * MS;
    let mut action = discovery.step(DiscoveryEvent::SweepSent { now: *now });
    for &chip in chips {
        assert!(matches!(action, DiscoveryAction::Read(_)));
        *now += MS;
        let chunk = response_frame(chip, u8::from(Register::Telemetry), 0x1200, 0).to_vec();
        action = discovery.step(DiscoveryEvent::Received { chunk, now: *now });
    }
    if let DiscoveryAction::Read(_) = action {
        *now = end;
        action = discovery.step(DiscoveryEvent::Quiet { now: *now });
    }
    action
}

#[test]
fn discovery_accumulates_unique_chips_across_partial_passes() {
    let mut discovery = discover_chips(&fast_config());
    let passes: Vec<Vec<u8>> = vec![
        vec![0, 1, 2],
        vec![3, 4, 5, 6],
        vec![7, 8, 9, 10],
        vec![128, 129, 130, 131],
        vec![132, 133, 134, 135, 136, 137],
    ];
    let expected: Vec<u8> = (0..=10).chain(128..=137).collect();
    let mut now = 0;
    let mut rests = 0;
    for subset in &passes {
        assert_eq!(discovery.step(DiscoveryEvent::Ready), DiscoveryAction::Sweep);
        match run_pass(&mut discovery, &mut now, subset) {
            DiscoveryAction::Rest(ns) => {
                rests += 1;
                assert_eq!(ns, 10 * MS);
            }
            action => assert_eq!(action, DiscoveryAction::Finish),
        }
    }
    assert_eq!(rests, 4);
    assert_eq!(discovery.chips(), expected, "all 21 unique chip IDs accumulated");
}

#[test]
fn discovery_stops_early_when_all_chips_found() {
    let mut discovery = discover_chips(&fast_config());
    let chips: Vec<u8> = (0..=10).chain(128..=137).collect();
    let mut now = 0;
    assert_eq!(discovery.step(DiscoveryEvent::Ready), DiscoveryAction::Sweep);
    assert_eq!(run_pass(&mut discovery, &mut now, &chips), DiscoveryAction::Finish);
    assert_eq!(discovery.chips().len(), 21);
    // No second sweep.
    assert_eq!(discovery.step(DiscoveryEvent::Ready), DiscoveryAction::Finish);
}

#[test]
fn discovery_gives_up_after_its_passes() {
    let config = ChainConfig { max_passes: 2, ..fast_config() };
    let mut discovery = discover_chips(&config);
    let mut now = 0;
    assert_eq!(discovery.step(DiscoveryEvent::Ready), DiscoveryAction::Sweep);
    assert_eq!(run_pass(&mut discovery, &mut now, &[9, 3, 9]), DiscoveryAction::Rest(10 * MS));
    assert_eq!(discovery.step(DiscoveryEvent::Ready), DiscoveryAction::Sweep);
    assert_eq!(run_pass(&mut discovery, &mut now, &[3]), DiscoveryAction::Finish);
    assert_eq!(discovery.chips(), vec![3, 9]);
}

#[test]
fn discovery_listens_for_what_is_left_of_the_pass() {
    let mut discovery = discover_chips(&fast_config());
    discovery.step(DiscoveryEvent::Ready);
    let action = discovery.step(DiscoveryEvent::SweepSent { now: 100 * MS });
    assert_eq!(action, DiscoveryAction::Read(30 * MS));
    let action = discovery.step(DiscoveryEvent::Received { chunk: vec![0; 7], now: 112 * MS });
    assert_eq!(action, DiscoveryAction::Read(18 * MS));
    let action = discovery.step(DiscoveryEvent::Received { chunk: vec![], now: 130 * MS });
    assert_eq!(action, DiscoveryAction::Rest(10 * MS));
}

#[test]
fn discovery_reassembles_split_frames() {
    let mut discovery = discover_chips(&fast_config());
    discovery.step(DiscoveryEvent::Ready);
    discovery.step(DiscoveryEvent::SweepSent { now: 0 });
    let frame = response_frame(0x85, 0x02, 0x1200, 0);
    discovery.step(DiscoveryEvent::Received { chunk: frame[..5].to_vec(), now: 1 });
    assert!(discovery.chips().is_empty());
    discovery.step(DiscoveryEvent::Received { chunk: frame[5..].to_vec(), now: 2 });
    assert_eq!(discovery.chips(), vec![0x85]);
}

#[test]
fn discovery_sweep_is_a_broadcast_telemetry_write() {
    let mut buf = BytesMut::new();
    sweep().encode_with_preamble(&mut buf);
    assert_eq!(
        parse_wire_stream(&buf),
        vec![WireFrame::Command { chip: 0x80, reg: 0x02, lcmd: 0x1200, data: 0 }]
    );
}

#[test]
fn chain_defaults_are_locked() {
    let config = ChainConfig::default();
    assert_eq!(config.expected_chips, 21);
    assert_eq!(config.pass_drain, 3_500 * MS);
    assert_eq!(config.pass_pace, 10_800 * MS);
    assert_eq!(config.max_passes, 24);
}

#[test]
fn version_bounds_partition_windows() {
    for i in 0..21usize {
        let lower = i as u32 * 0x0c30;
        let upper = lower + 0x0c2f;
        assert_eq!(version_bounds(i), lower | (upper << 16), "chip index {i}");
    }
    assert_eq!(version_bounds(0), 0x0c2f_0000);
    assert_eq!(version_bounds(20), 0xffef_f3c0);
}

#[test]
fn version_bounds_beyond_the_chain_keep_the_formula() {
    assert_eq!(version_bounds(21), 0xfff0 | (0x10c1fu32 << 16));
}

#[test]
fn version_bounds_written_per_chip() {
    let chips = [0x00u8, 0x01, 0x0a, 0x80, 0x89];
    let mut w = BytesMut::new();
    configure_version_bounds(&mut w, &chips);
    let frames = parse_wire_stream(&w);
    assert_eq!(frames.len(), 10);
    for (i, &c) in chips.iter().enumerate() {
        assert_eq!(
            frames[2 * i],
            WireFrame::Command { chip: c, reg: 0x10, lcmd: 0x1000, data: version_bounds(i) }
        );
        assert_eq!(
            frames[2 * i + 1],
            WireFrame::Command { chip: c, reg: 0x11, lcmd: 0x1000, data: 13 }
        );
    }
}

#[test]
fn dvfs_initial_setup_emits_exact_18_writes() {
    let mut w = BytesMut::new();
    dvfs_initial_setup(&mut w);
    let frames = parse_wire_stream(&w);
    assert_eq!(frames.len(), 18);
    for (i, (lcmd, data)) in DVFS_INIT_WRITES.into_iter().enumerate() {
        assert_eq!(
            frames[i],
            WireFrame::Command { chip: 0x80, reg: u8::from(Register::Dvfs), lcmd, data }
        );
    }
    assert_eq!(DVFS_INIT_WRITES[0], (0x1800, 11_245_000));
    assert_eq!(DVFS_INIT_WRITES[17], (0x2300, 0x4408_0000));
}

#[test]
fn dvfs_heartbeat_emits_exact_payload() {
    let mut w = BytesMut::new();
    heartbeat(&mut w);
    let frames = parse_wire_stream(&w);
    assert_eq!(frames.len(), 5);
    for (i, data) in DVFS_HEARTBEAT_PAYLOAD.into_iter().enumerate() {
        assert_eq!(
            frames[i],
            WireFrame::Command {
                chip: 0x80,
                reg: u8::from(Register::Dvfs),
                lcmd: DVFS_HEARTBEAT_LCMD,
                data,
            }
        );
    }
    assert_eq!(DVFS_HEARTBEAT_PAYLOAD, [0x02, 0x03, 0x01, 0x5074, 0x05]);
    assert_eq!(DVFS_HEARTBEAT_LCMD, 0x1f00);
}

#[test]
fn ramp_step_writes_pll_duty_hashconfig() {
    let mut w = BytesMut::new();
    let psu = write_ramp_step(&mut w, None, false, 100).expect("ramp step complete");
    assert!(psu.is_none());
    assert_eq!(
        parse_wire_stream(&w),
        vec![
            WireFrame::Command {
                chip: 0x80,
                reg: u8::from(Register::PllFreq),
                lcmd: REG_LCMD,
                data: pll_freq_word(100),
            },
            WireFrame::Command {
                chip: 0x80,
                reg: u8::from(Register::DutyCycle),
                lcmd: REG_LCMD,
                data: duty_word(100),
            },
            WireFrame::Command {
                chip: 0x80,
                reg: u8::from(Register::HashConfig),
                lcmd: REG_LCMD,
                data: HASHCONFIG_VALUE,
            },
        ]
    );
}

#[test]
fn ramp_step_moves_the_psu() {
    let psu = PwmSysfs::with_root("/r".to_string(), 1, 0);
    let mut w = BytesMut::new();
    let write = write_ramp_step(&mut w, Some(&psu), true, 491).unwrap().unwrap().write;
    assert_eq!(write.path, "/r/pwmchip1/pwm0/duty_cycle");
    assert_eq!(write.contents, "36000");
    assert!(write_ramp_step(&mut w, Some(&psu), false, 491).is_err());
}

#[test]
fn init_chain_writes_config_freq_duty_hashconfig() {
    let mut w = BytesMut::new();
    init_chain(&mut w, 80);
    assert_eq!(
        parse_wire_stream(&w),
        vec![
            WireFrame::Command {
                chip: 0x80,
                reg: u8::from(Register::PllConfig),
                lcmd: REG_LCMD,
                data: PLL_CONFIG_INIT,
            },
            WireFrame::Command {
                chip: 0x80,
                reg: u8::from(Register::PllFreq),
                lcmd: REG_LCMD,
                data: pll_freq_word(80),
            },
            WireFrame::Command {
                chip: 0x80,
                reg: u8::from(Register::DutyCycle),
                lcmd: REG_LCMD,
                data: duty_word(80),
            },
            WireFrame::Command {
                chip: 0x80,
                reg: u8::from(Register::HashConfig),
                lcmd: REG_LCMD,
                data: HASHCONFIG_VALUE,
            },
        ]
    );
}

#[test]
fn hit_poll_uses_register_byte_0xc4() {
    let mut w = BytesMut::new();
    hit_poll(&mut w, 0x05);
    assert_eq!(
        parse_wire_stream(&w),
        vec![WireFrame::Command { chip: 0x05, reg: 0xc4, lcmd: 0x0000, data: 0 }]
    );
}

#[test]
fn read_reg_addresses_one_chip() {
    let mut w = BytesMut::new();
    read_reg(&mut w, 0x89, Register::HitCount, 0x1200);
    assert_eq!(
        parse_wire_stream(&w),
        vec![WireFrame::Command { chip: 0x89, reg: 0x61, lcmd: 0x1200, data: 0 }]
    );
}

#[test]
fn bring_up_writes_everything_in_order_or_nothing() {
    let mut w = BytesMut::new();
    assert_eq!(bring_up_chain(&mut w, &[]), Err(BringUpError::NoChips));
    assert!(w.is_empty());

    bring_up_chain(&mut w, &[0, 1]).unwrap();
    let mut expected = BytesMut::new();
    configure_version_bounds(&mut expected, &[0, 1]);
    dvfs_initial_setup(&mut expected);
    init_chain(&mut expected, 80);
    assert_eq!(w, expected);
    assert_eq!(w.len(), 26 * 36);
}

#[test]
fn drain_frames_handles_mixed_frame_types() {
    let mut buf = BytesMut::new();
    // Response, junk preamble, hit, truncated hit.
    buf.extend_from_slice(&response_frame(0x03, 0x02, 0x1200, 0x1234));
    buf.extend_from_slice(&[0u8; 20]);
    let mut header = [0u8; 80];
    header[76..80].copy_from_slice(&0xdead_beefu32.to_le_bytes());
    let hit = hit_frame(0x03, header);
    buf.extend_from_slice(&hit);
    buf.extend_from_slice(&hit[..40]); // truncated

    let (responses, hits) = drain_frames(&mut buf);
    assert_eq!(responses.len(), 1);
    assert_eq!(responses[0].chip, 0x03);
    assert_eq!(responses[0].data, 0x1234);
    assert_eq!(hits.len(), 1);
    assert_eq!(hits[0].nonce, 0xdead_beef);
    // Truncated hit stays buffered for the next chunk.
    assert_eq!(buf.len(), 40);
}

#[test]
fn drain_frames_resyncs_past_damaged_frames() {
    let mut damaged = response_frame(0x07, 0x02, 0x1200, 1);
    damaged[15] ^= 0xff;
    // Alone: every byte goes but a tail too short for a magic.
    let mut buf = BytesMut::from(&damaged[..]);
    let (responses, hits) = drain_frames(&mut buf);
    assert!(responses.is_empty() && hits.is_empty());
    assert_eq!(buf.len(), 3);

    // An intact frame right behind a damaged one is found.
    let good = response_frame(0x08, 0x02, 0x1200, 2);
    let mut buf = BytesMut::from(&damaged[..]);
    buf.extend_from_slice(&good);
    let (responses, _) = drain_frames(&mut buf);
    assert_eq!(responses.len(), 1);
    assert_eq!(responses[0].chip, 0x08);
    assert!(buf.is_empty());

    // So is one that begins inside a damaged hit frame.
    let mut broken_hit = hit_frame(0x01, [0x5a; 80]).to_vec();
    broken_hit[91] ^= 0xff;
    broken_hit[40..56].copy_from_slice(&good);
    let mut buf = BytesMut::from(&broken_hit[..]);
    let (responses, hits) = drain_frames(&mut buf);
    assert_eq!(responses.len(), 1);
    assert!(hits.is_empty());
}

#[test]
fn drain_frames_does_not_care_about_chunks() {
    let mut stream = Vec::new();
    stream.extend_from_slice(&[0xff, 0x78, 0x56]);
    stream.extend_from_slice(&response_frame(1, 0x61, 0x1200, 10));
    stream.extend_from_slice(&hit_frame(2, [3; 80]));
    stream.extend_from_slice(&[0; 20]);
    stream.extend_from_slice(&response_frame(4, 0x60, 0x1200, 20));
    stream.extend_from_slice(&[0x54, 0x76]);
    let mut whole = BytesMut::from(&stream[..]);
    let (responses, hits) = drain_frames(&mut whole);
    assert_eq!(responses.len(), 2);
    assert_eq!(hits.len(), 1);
    for cut in 0..=stream.len() {
        let mut buf = BytesMut::from(&stream[..cut]);
        let (mut r, mut h) = drain_frames(&mut buf);
        buf.extend_from_slice(&stream[cut..]);
        let (more_r, more_h) = drain_frames(&mut buf);
        r.extend(more_r);
        h.extend(more_h);
        assert_eq!(r, responses);
        assert_eq!(h, hits);
        assert_eq!(buf, whole);
    }
}

#[test]
fn parse_wire_stream_decodes_commands_and_jobs() {
    let mut bytes = Vec::new();
    bytes.extend_from_slice(&[0u8; 20]);
    bytes.extend_from_slice(&response_frame(0x01, 0x81, 0x1f00, 0x5074));
    let job =
        JobFrame::encode(0x02, 3, 7, &[0xaa; 32], &[0xbb; 32], 0x6a7d_79bf, 0x1d00_ffff, 0);
    bytes.extend_from_slice(&job);

    let frames = parse_wire_stream(&bytes);
    assert_eq!(frames.len(), 2);
    assert_eq!(
        frames[0],
        WireFrame::Command { chip: 0x01, reg: 0x81, lcmd: 0x1f00, data: 0x5074 }
    );
    assert_eq!(
        frames[1],
        WireFrame::Job {
            chip: 0x02,
            slot: 3,
            job_id: 7,
            ntime: 0x6a7d_79bf,
            nbits: 0x1d00_ffff,
            nonce_start: 0,
        }
    );
}

#[test]
fn a_pass_that_ends_early_still_keeps_the_pace() {
    let mut discovery = discover_chips(&ChainConfig::default());
    discovery.step(DiscoveryEvent::Ready);
    discovery.step(DiscoveryEvent::SweepSent { now: 1_000 * MS });
    // The bus closes at once: the next sweep is due 10.8 s after this one.
    let action = discovery.step(DiscoveryEvent::Quiet { now: 1_000 * MS });
    assert_eq!(action, DiscoveryAction::Rest(10_800 * MS));
    discovery.step(DiscoveryEvent::Ready);
    discovery.step(DiscoveryEvent::SweepSent { now: 20_000 * MS });
    let action = discovery.step(DiscoveryEvent::Quiet { now: 21_000 * MS });
    assert_eq!(action, DiscoveryAction::Rest(9_800 * MS));
    // A pass that took longer than the pace is followed by the next at once.
    discovery.step(DiscoveryEvent::Ready);
    discovery.step(DiscoveryEvent::SweepSent { now: 40_000 * MS });
    let action = discovery.step(DiscoveryEvent::Quiet { now: 60_000 * MS });
    assert_eq!(action, DiscoveryAction::Rest(0));
}
