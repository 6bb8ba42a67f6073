//! Wire protocol: CRC, frames, codec.

use bytes::BytesMut;
use mujina_miner::asic::aura::crc::aura_crc32;
use mujina_miner::asic::aura::error::ProtocolError;
use mujina_miner::asic::aura::protocol::{
    pll_freq_word, Command, FrameCodec, HitFrame, JobFrame, Register, Response, COMMAND_MAGIC,
    FRAME_LEN, LONG_FRAME_LEN, PREAMBLE_LEN, RESPONSE_MAGIC,
};

struct TxVector {
    chip: u8,
    reg: u8,
    lcmd: u16,
    data: u32,
    frame: [u8; 16],
}

const TX_VECTORS: [TxVector; 5] = [
    TxVector {
        chip: 0x00,
        reg: 0x02,
        lcmd: 0x1200,
        data: 0,
        frame: [
            0x78, 0x56, 0x34, 0x12, 0x00, 0x02, 0x00, 0x12, 0x00, 0x00, 0x00, 0x00, 0x83, 0x44,
            0xf6, 0x58,
        ],
    },
    TxVector {
        chip: 0x01,
        reg: 0x01,
        lcmd: 0x1000,
        data: 0x923f_8610,
        frame: [
            0x78, 0x56, 0x34, 0x12, 0x01, 0x01, 0x00, 0x10, 0x10, 0x86, 0x3f, 0x92, 0x19, 0xe5,
            0x0a, 0x2c,
        ],
    },
    TxVector {
        chip: 0x09,
        reg: 0x61,
        lcmd: 0x1200,
        data: 0,
        frame: [
            0x78, 0x56, 0x34, 0x12, 0x09, 0x61, 0x00, 0x12, 0x00, 0x00, 0x00, 0x00, 0xd0, 0x09,
            0xe7, 0xfd,
        ],
    },
    TxVector {
        chip: 0x89,
        reg: 0x20,
        lcmd: 0x1200,
        data: 0,
        frame: [
            0x78, 0x56, 0x34, 0x12, 0x89, 0x20, 0x00, 0x12, 0x00, 0x00, 0x00, 0x00, 0xc7, 0xf2,
            0xa0, 0x4c,
        ],
    },
    TxVector {
        chip: 0x05,
        reg: 0x10,
        lcmd: 0x1000,
        data: 0xffef_f3c0,
        frame: [
            0x78, 0x56, 0x34, 0x12, 0x05, 0x10, 0x00, 0x10, 0xc0, 0xf3, 0xef, 0xff, 0x41, 0xb7,
            0xbc, 0xaf,
        ],
    },
];

const CAPTURED_TX: [[u8; 16]; 3] = [
    [
        0x78, 0x56, 0x34, 0x12, 0x80, 0x81, 0x00, 0x1f, 0x74, 0x50, 0x00, 0x00, 0xfc, 0xec, 0x42,
        0xc2,
    ],
    [
        0x78, 0x56, 0x34, 0x12, 0x80, 0x02, 0x00, 0x12, 0x00, 0x00, 0x00, 0x00, 0x59, 0xc1, 0xcd,
        0x0b,
    ],
    [
        0x78, 0x56, 0x34, 0x12, 0x80, 0x81, 0x00, 0x18, 0xc8, 0x95, 0xab, 0x00, 0x47, 0xf0, 0x51,
        0xfd,
    ],
];

const RX_RESPONSE_FRAME: [u8; 16] = [
    0x54, 0x76, 0xc0, 0xda, 0x09, 0x02, 0x00, 0x12, 0x08, 0xeb, 0x19, 0x07, 0xa0, 0xe0, 0xc1, 0xa3,
];

const JOB_FRAME: [u8; 92] = [
    0x78, 0x56, 0x34, 0x12, 0x02, 0x84, 0x2a, 0x04, 0x07, 0x00, 0x00, 0x00, 0x20, 0x21, 0x22, 0x23,
    0x24, 0x25, 0x26, 0x27, 0x28, 0x29, 0x2a, 0x2b, 0x2c, 0x2d, 0x2e, 0x2f, 0x30, 0x31, 0x32, 0x33,
    0x34, 0x35, 0x36, 0x37, 0x38, 0x39, 0x3a, 0x3b, 0x3c, 0x3d, 0x3e, 0x3f, 0x80, 0x81, 0x82, 0x83,
    0x84, 0x85, 0x86, 0x87, 0x88, 0x89, 0x8a, 0x8b, 0x8c, 0x8d, 0x8e, 0x8f, 0x90, 0x91, 0x92, 0x93,
    0x94, 0x95, 0x96, 0x97, 0x98, 0x99, 0x9a, 0x9b, 0x9c, 0x9d, 0x9e, 0x9f, 0xbf, 0x79, 0x7d, 0x6a,
    0xff, 0xff, 0x00, 0x1d, 0x00, 0x00, 0x00, 0x00, 0x90, 0xdf, 0xe1, 0xab,
];

#[test]
fn known_value() {
    assert_eq!(aura_crc32(b"123456789"), 0x340b_c6d9);
}

#[test]
fn crc_of_nothing_is_the_initial_value() {
    assert_eq!(aura_crc32(b""), 0xffff_ffff);
}

#[test]
fn crc_matches_vectors() {
    for v in &TX_VECTORS {
        let expected = u32::from_le_bytes(v.frame[12..16].try_into().unwrap());
        assert_eq!(aura_crc32(&v.frame[0..12]), expected);
    }
    for frame in &CAPTURED_TX {
        let expected = u32::from_le_bytes(frame[12..16].try_into().unwrap());
        assert_eq!(aura_crc32(&frame[0..12]), expected);
    }
    let expected = u32::from_le_bytes(RX_RESPONSE_FRAME[12..16].try_into().unwrap());
    assert_eq!(aura_crc32(&RX_RESPONSE_FRAME[0..12]), expected);
    let expected = u32::from_le_bytes(JOB_FRAME[88..92].try_into().unwrap());
    assert_eq!(aura_crc32(&JOB_FRAME[0..88]), expected);
}

#[test]
fn crc_detects_every_single_byte_change() {
    for at in 0..12 {
        for flip in 1..=255u8 {
            let mut frame = RX_RESPONSE_FRAME;
            frame[at] ^= flip;
            assert!(Response::parse(&frame).is_err());
        }
    }
}

#[test]
fn command_encoder_reproduces_tx_vectors() {
    for v in &TX_VECTORS {
        let cmd = Command::ReadRegister {
            broadcast: false,
            chip_address: v.chip,
            register: Register::try_from(v.reg).unwrap(),
            lcmd: v.lcmd,
            data: v.data,
        };
        assert_eq!(cmd.encode(), v.frame, "vector (chip={:#04x})", v.chip);
    }

    for frame in &CAPTURED_TX {
        let cmd = if frame[5] == 0x81 {
            Command::WriteRegister {
                broadcast: false,
                chip_address: frame[4],
                register: Register::try_from(frame[5]).unwrap(),
                lcmd: u16::from_le_bytes([frame[6], frame[7]]),
                data: u32::from_le_bytes([frame[8], frame[9], frame[10], frame[11]]),
            }
        } else {
            Command::ReadRegister {
                broadcast: false,
                chip_address: frame[4],
                register: Register::try_from(frame[5]).unwrap(),
                lcmd: u16::from_le_bytes([frame[6], frame[7]]),
                data: u32::from_le_bytes([frame[8], frame[9], frame[10], frame[11]]),
            }
        };
        assert_eq!(cmd.encode(), *frame);
    }
}

#[test]
fn broadcast_forces_the_chip_byte() {
    let cmd = Command::WriteRegister {
        broadcast: true,
        chip_address: 0x33,
        register: Register::Dvfs,
        lcmd: 0x1f00,
        data: 0x5074,
    };
    assert_eq!(cmd.encode(), CAPTURED_TX[0]);
}

#[test]
fn wire_encoder_emits_preamble_and_frame() {
    let cmd = Command::ReadRegister {
        broadcast: false,
        chip_address: 0x00,
        register: Register::Telemetry,
        lcmd: 0x1200,
        data: 0,
    };
    let mut buf = BytesMut::new();
    FrameCodec::default().encode(cmd, &mut buf).expect("encode command");
    assert_eq!(buf.len(), PREAMBLE_LEN + FRAME_LEN);
    assert!(buf[..PREAMBLE_LEN].iter().all(|&b| b == 0));
    assert_eq!(&buf[PREAMBLE_LEN..], &cmd.encode()[..]);
}

#[test]
fn encoding_appends_to_what_is_buffered() {
    let mut buf = BytesMut::from(&b"abc"[..]);
    Command::HitPoll { chip_address: 5 }.encode_with_preamble(&mut buf);
    assert_eq!(&buf[..3], b"abc");
    assert_eq!(buf.len(), 39);
    assert_eq!(buf[3 + 20 + 4], 5);
    assert_eq!(buf[3 + 20 + 5], 0xc4);
}

#[test]
fn response_parser_decodes_rx_vector() {
    let resp = Response::parse(&RX_RESPONSE_FRAME).expect("parse rx vector");
    assert_eq!(resp.chip, 0x09);
    assert_eq!(resp.reg, 0x02);
    assert_eq!(resp.lcmd, 0x1200);
    assert_eq!(resp.data, 0x0719_eb08);
}

#[test]
fn response_parser_rejects_bad_magic() {
    let mut frame = RX_RESPONSE_FRAME;
    frame[0] ^= 0xff;
    assert!(matches!(Response::parse(&frame), Err(ProtocolError::BadMagic { .. })));
}

#[test]
fn response_parser_rejects_bad_crc() {
    let mut frame = RX_RESPONSE_FRAME;
    frame[15] ^= 0xff;
    assert!(matches!(Response::parse(&frame), Err(ProtocolError::BadCrc { .. })));
}

#[test]
fn parse_errors_carry_what_was_found() {
    assert!(matches!(
        Response::parse(&RX_RESPONSE_FRAME[..15]),
        Err(ProtocolError::InvalidFrameLength { expected: 16, found: 15 })
    ));
    let mut frame = RX_RESPONSE_FRAME;
    frame[0] = 0x55;
    assert!(matches!(
        Response::parse(&frame),
        Err(ProtocolError::BadMagic { expected: 0x5476_c0da, found: 0x5576_c0da })
    ));
    let mut frame = RX_RESPONSE_FRAME;
    frame[12] ^= 0x01;
    assert!(matches!(
        Response::parse(&frame),
        Err(ProtocolError::BadCrc { expected: 0xa3c1_e0a0, found: 0xa3c1_e0a1 })
    ));
    assert!(matches!(
        HitFrame::parse(&JOB_FRAME[..90]),
        Err(ProtocolError::InvalidFrameLength { expected: 92, found: 90 })
    ));
    let mut frame = JOB_FRAME;
    frame[3] = 0x13;
    assert!(matches!(
        HitFrame::parse(&frame),
        Err(ProtocolError::BadMagic { expected: 0x1234_5678, found: 0x1334_5678 })
    ));
}

#[test]
fn io_errors_convert() {
    let error = ProtocolError::from(std::io::Error::other("gone"));
    assert!(matches!(error, ProtocolError::Io(_)));
}

#[test]
fn frame_codec_round_trip() {
    let cmd = Command::WriteRegister {
        broadcast: false,
        chip_address: 0x01,
        register: Register::WorkData,
        lcmd: 0x1000,
        data: 0x923f_8610,
    };
    let mut codec = FrameCodec::default();

    let mut buf = BytesMut::new();
    codec.encode(cmd, &mut buf).expect("encode command");
    assert_eq!(buf.len(), PREAMBLE_LEN + FRAME_LEN);
    assert!(buf[..PREAMBLE_LEN].iter().all(|&b| b == 0));
    assert_eq!(&buf[PREAMBLE_LEN..], &cmd.encode()[..]);

    let mut resp_frame = cmd.encode();
    resp_frame[0..4].copy_from_slice(&RESPONSE_MAGIC.to_be_bytes());
    let crc = aura_crc32(&resp_frame[0..12]);
    resp_frame[12..16].copy_from_slice(&crc.to_le_bytes());

    let mut rx = BytesMut::new();
    rx.extend_from_slice(&[0u8; PREAMBLE_LEN]);
    rx.extend_from_slice(&resp_frame);
    let decoded = codec.decode(&mut rx).expect("decode response").expect("frame");
    assert_eq!(decoded.chip, 0x01);
    assert_eq!(decoded.reg, 0x01);
    assert_eq!(decoded.lcmd, 0x1000);
    assert_eq!(decoded.data, 0x923f_8610);
    assert!(rx.is_empty());
}

#[test]
fn frame_codec_decodes_rx_stream() {
    let mut codec = FrameCodec::default();
    let mut rx = BytesMut::new();
    rx.extend_from_slice(&[0u8; PREAMBLE_LEN]);
    rx.extend_from_slice(&RX_RESPONSE_FRAME);
    let decoded = codec.decode(&mut rx).expect("decode response").expect("frame");
    assert_eq!(decoded.chip, 0x09);
    assert_eq!(decoded.data, 0x0719_eb08);
    assert!(rx.is_empty());
}

#[test]
fn frame_codec_waits_for_a_whole_frame() {
    let mut codec = FrameCodec::default();
    let mut rx = BytesMut::new();
    rx.extend_from_slice(&[0u8; 10]);
    rx.extend_from_slice(&RX_RESPONSE_FRAME[..10]);
    assert!(codec.decode(&mut rx).unwrap().is_none());
    assert_eq!(rx.len(), 20);
    rx.extend_from_slice(&RX_RESPONSE_FRAME[10..]);
    assert_eq!(codec.decode(&mut rx).unwrap().unwrap().chip, 0x09);
    assert!(rx.is_empty());
}

#[test]
fn frame_codec_keeps_three_bytes_of_noise() {
    let mut codec = FrameCodec::default();
    let mut rx = BytesMut::new();
    rx.extend_from_slice(&[0xee; 17]);
    rx.extend_from_slice(&RX_RESPONSE_FRAME[..3]);
    assert!(codec.decode(&mut rx).unwrap().is_none());
    assert_eq!(&rx[..], &RX_RESPONSE_FRAME[..3]);
    rx.extend_from_slice(&RX_RESPONSE_FRAME[3..]);
    assert_eq!(codec.decode(&mut rx).unwrap().unwrap().data, 0x0719_eb08);
}

#[test]
fn frame_codec_resyncs_one_byte_past_a_damaged_frame() {
    let mut codec = FrameCodec::default();
    let mut damaged = RX_RESPONSE_FRAME;
    damaged[15] ^= 0xff;
    let mut rx = BytesMut::new();
    rx.extend_from_slice(&damaged);
    assert!(codec.decode(&mut rx).unwrap().is_none());
    assert_eq!(&rx[..], &damaged[1..]);

    // An intact frame that begins inside the damaged one is not lost.
    let mut rx = BytesMut::new();
    rx.extend_from_slice(&RX_RESPONSE_FRAME[..4]);
    rx.extend_from_slice(&RX_RESPONSE_FRAME);
    assert!(codec.decode(&mut rx).unwrap().is_none());
    assert_eq!(codec.decode(&mut rx).unwrap().unwrap().chip, 0x09);
    assert!(rx.is_empty());
}

#[test]
fn job_frame_matches_captured_frame() {
    assert_eq!(&JOB_FRAME[6..8], &[0x2a, 0x04], "lcmd 0x042a (slot 1)");

    let chip = JOB_FRAME[4];
    let slot = 1;
    let job_id = u32::from_le_bytes([JOB_FRAME[8], JOB_FRAME[9], JOB_FRAME[10], JOB_FRAME[11]]);
    let prevhash: [u8; 32] = JOB_FRAME[12..44].try_into().unwrap();
    let merkle: [u8; 32] = JOB_FRAME[44..76].try_into().unwrap();
    let ntime = u32::from_le_bytes([JOB_FRAME[76], JOB_FRAME[77], JOB_FRAME[78], JOB_FRAME[79]]);
    let nbits = u32::from_le_bytes([JOB_FRAME[80], JOB_FRAME[81], JOB_FRAME[82], JOB_FRAME[83]]);
    let nonce_start =
        u32::from_le_bytes([JOB_FRAME[84], JOB_FRAME[85], JOB_FRAME[86], JOB_FRAME[87]]);

    let encoded =
        JobFrame::encode(chip, slot, job_id, &prevhash, &merkle, ntime, nbits, nonce_start);
    assert_eq!(encoded.len(), LONG_FRAME_LEN);
    assert_eq!(encoded, JOB_FRAME);
}

#[test]
fn job_lcmd_stays_in_sixteen_bits() {
    let lcmd = |slot: u8| {
        let f = JobFrame::encode(0, slot, 0, &[0; 32], &[0; 32], 0, 0, 0);
        u16::from_le_bytes([f[6], f[7]])
    };
    assert_eq!(lcmd(0), 0x002a);
    assert_eq!(lcmd(63), 0xfc2a);
    assert_eq!(lcmd(64), 0x002a);
    assert_eq!(lcmd(255), 0xfc2a);
}

#[test]
fn hit_frame_parse_round_trip() {
    let mut frame = [0u8; LONG_FRAME_LEN];
    frame[0..4].copy_from_slice(&COMMAND_MAGIC.to_le_bytes());
    frame[4] = 0x03; // chip
    frame[5] = 0xc4; // reg | 0x40 (hit command)
    frame[6] = 0x1d; // nbits
    frame[7] = 0x00; // id_hi_seq
    for (i, b) in frame[8..88].iter_mut().enumerate() {
        *b = i as u8;
    }
    let nonce: u32 = 0xdead_beef;
    frame[84..88].copy_from_slice(&nonce.to_le_bytes());
    let crc = aura_crc32(&frame[0..88]);
    frame[88..92].copy_from_slice(&crc.to_le_bytes());

    let hit = HitFrame::parse(&frame).expect("parse hit frame");
    assert_eq!(hit.chip, 0x03);
    assert_eq!(hit.nonce, nonce);
    assert_eq!(hit.header, frame[8..88]);

    frame[91] ^= 0xff;
    assert!(matches!(HitFrame::parse(&frame), Err(ProtocolError::BadCrc { .. })));
}

#[test]
fn pll_helpers() {
    assert_eq!(pll_freq_word(491), 0x1eb0_0000);
    assert_eq!(pll_freq_word(160), 0x0a00_0000);
    // Only twelve bits of N fit.
    assert_eq!(pll_freq_word(0x1001), 0x0010_0000);
}

#[test]
fn register_conversions() {
    assert_eq!(u8::from(Register::Job), 0x84);
    assert_eq!(Register::try_from(0x84).unwrap(), Register::Job);
    assert_eq!(u8::from(Register::PllFreq), 0x19);
    assert!(matches!(Register::try_from(0xff), Err(ProtocolError::InvalidRegister(0xff))));
}

#[test]
fn registers_round_trip_through_their_numbers() {
    let mut known = 0;
    for value in 0..=255u8 {
        match Register::try_from(value) {
            Ok(register) => {
                known += 1;
                assert_eq!(u8::from(register), value);
            }
            Err(ProtocolError::InvalidRegister(number)) => assert_eq!(number, value),
            Err(_) => unreachable!(),
        }
    }
    assert_eq!(known, 18);
}

#[test]
fn commands_stand_36_bytes_apart_and_read_back() {
    let commands = [
        Command::HitPoll { chip_address: 7 },
        Command::WriteRegister {
            broadcast: true,
            chip_address: 3,
            register: Register::Dvfs,
            lcmd: 0x1f00,
            data: 0xdead_beef,
        },
        Command::ReadRegister {
            broadcast: false,
            chip_address: 3,
            register: Register::HitCount,
            lcmd: 0x1200,
            data: 0,
        },
    ];
    let mut wire = BytesMut::new();
    for command in &commands {
        command.encode_with_preamble(&mut wire);
    }
    assert_eq!(wire.len(), 3 * 36);
    for (k, command) in commands.iter().enumerate() {
        assert_eq!(wire[36 * k..36 * k + 20], [0u8; 20]);
        assert_eq!(wire[36 * k + 20..36 * k + 36], command.encode());
    }
    let frame = &wire[56..72];
    assert_eq!(frame[0..4], COMMAND_MAGIC.to_le_bytes());
    assert_eq!(frame[4], 0x80);
    assert_eq!(frame[5], 0x81);
    assert_eq!(frame[6..8], 0x1f00u16.to_le_bytes());
    assert_eq!(frame[8..12], 0xdead_beefu32.to_le_bytes());
    assert_eq!(frame[12..16], aura_crc32(&frame[0..12]).to_le_bytes());
}

#[test]
fn job_fields_read_back_from_the_frame() {
    let frame = JobFrame::encode(9, 63, 0x0102_0304, &[0xaa; 32], &[0xbb; 32], 5, 6, 7);
    assert_eq!(frame[0..4], COMMAND_MAGIC.to_le_bytes());
    assert_eq!(frame[4], 9);
    assert_eq!(frame[5], 0x84);
    assert_eq!(frame[6..8], 0xfc2au16.to_le_bytes());
    assert_eq!(frame[8..12], 0x0102_0304u32.to_le_bytes());
    assert_eq!(frame[12..44], [0xaa; 32]);
    assert_eq!(frame[44..76], [0xbb; 32]);
    assert_eq!(frame[76..80], 5u32.to_le_bytes());
    assert_eq!(frame[80..84], 6u32.to_le_bytes());
    assert_eq!(frame[84..88], 7u32.to_le_bytes());
    assert_eq!(frame[88..92], aura_crc32(&frame[0..88]).to_le_bytes());
}
