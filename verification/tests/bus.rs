//! I2C, sysfs GPIO and PWM, fan tachometer and SIC450.

use mujina_miner::hw_trait::fan_tach::{
    consumer_name, event_request, ioc, FanTach, OpenStep, TachAction, TachCount, TachEvent,
    DEFAULT_CHIP_PATH, DEFAULT_LINE_OFFSET, DEFAULT_PULSES_PER_REV, GPIOCHIP_INFO_SIZE,
    GPIOEVENT_REQUEST_SIZE, GPIOLINE_INFO_SIZE, GPIO_GET_CHIPINFO, GPIO_GET_LINEEVENT,
    GPIO_GET_LINEINFO, IOC_READ, IOC_READWRITE,
};
use mujina_miner::hw_trait::linux_i2c::{
    device_path, ioc_readwrite, is_retryable, read_exchange, write_exchange, write_read_exchange,
    I2cMessageSpec, I2cMsg, I2cRdwrData, Retry, Transfer, DEFAULT_MAX_ATTEMPTS, I2C_M_PEC,
    I2C_M_RD, I2C_RDWR_REQUEST,
};
use mujina_miner::hw_trait::sysfs::{ExportAction, ExportEvent, ExportPoll};
use mujina_miner::hw_trait::sysfs_gpio::SysfsGpio;
use mujina_miner::hw_trait::{HwError, I2cError, PinMode, PinValue};
use mujina_miner::peripheral::pwm_sysfs::PwmSysfs;
use mujina_miner::peripheral::sic450::{
    board_temp, decode_telemetry, read_linear11, Error, Exchange, Linear11, RailTelemetry, Sic450,
    Sic450Telemetry,
};
use mujina_miner::transport::apollo::{ApolloDeviceInfo, TransportEvent};

fn message(error: HwError) -> String {
    match error {
        HwError::Other(text) => text,
        other => panic!("unexpected error {other:?}"),
    }
}

#[test]
fn kernel_abi_layout_is_64_bit_linux() {
    let msg = I2cMsg { addr: 0x0201, flags: 0x0403, len: 0x0605, buf: 0x100f_0e0d_0c0b_0a09 };
    let bytes = msg.to_abi();
    assert_eq!(bytes.len(), 16);
    assert_eq!(bytes[0..2], [0x01, 0x02]); // addr
    assert_eq!(bytes[2..4], [0x03, 0x04]); // flags
    assert_eq!(bytes[4..6], [0x05, 0x06]); // len
    assert_eq!(bytes[6..8], [0x00, 0x00]);
    assert_eq!(bytes[8..16], [0x09, 0x0a, 0x0b, 0x0c, 0x0d, 0x0e, 0x0f, 0x10]); // buf

    let data = I2cRdwrData { msgs: 0x0807_0605_0403_0201, nmsgs: 0x0c0b_0a09 };
    let bytes = data.to_abi();
    assert_eq!(bytes.len(), 16);
    assert_eq!(bytes[0..8], [1, 2, 3, 4, 5, 6, 7, 8]); // msgs
    assert_eq!(bytes[8..12], [9, 10, 11, 12]); // nmsgs
    assert_eq!(bytes[12..16], [0; 4]);
}

#[test]
fn i2c_rdwr_request_code_matches_kernel_encoding() {
    // _IOWR('i', 0x07, struct i2c_rdwr_ioctl_data) with
    // sizeof(struct i2c_rdwr_ioctl_data) == 16 on 64-bit Linux.
    assert_eq!(I2C_RDWR_REQUEST, 0xC0106907);
    assert_eq!(ioc_readwrite(b'i', 0x07, 16), I2C_RDWR_REQUEST);
}

#[test]
fn gpio_request_codes_match_kernel_encoding() {
    assert_eq!(ioc(IOC_READ, 0xB4, 0x01, GPIOCHIP_INFO_SIZE), GPIO_GET_CHIPINFO);
    assert_eq!(ioc(IOC_READ, 0xB4, 0x02, GPIOLINE_INFO_SIZE), GPIO_GET_LINEINFO);
    assert_eq!(ioc(IOC_READWRITE, 0xB4, 0x05, GPIOEVENT_REQUEST_SIZE), GPIO_GET_LINEEVENT);
    assert_eq!(GPIO_GET_LINEEVENT, 0xC030_B405);
}

#[test]
fn sic450_vout_exchange_encodes_expected_i2c_msgs() {
    let specs = vec![
        I2cMessageSpec::write(0x49, vec![0x02, 0x50, 0x00]),
        I2cMessageSpec::read(0x49, 2),
    ];
    let transfer = Transfer::new(&specs);

    assert_eq!(transfer.nmsgs(), 2);
    assert_eq!(transfer.buffers().len(), 2);

    // Message 0: write 3 bytes to 0x49.
    let m0 = &transfer.msgs()[0];
    assert_eq!(m0.addr, 0x49);
    assert_eq!(m0.flags, 0);
    assert_eq!(m0.len, 3);
    assert_eq!(transfer.buffers()[0], vec![0x02, 0x50, 0x00]);

    // Message 1: read 2 bytes from 0x49 (repeated START, no STOP).
    let m1 = &transfer.msgs()[1];
    assert_eq!(m1.addr, 0x49);
    assert_eq!(m1.flags, I2C_M_RD);
    assert_eq!(m1.len, 2);

    // PEC is never set on any message.
    assert!(transfer.msgs().iter().all(|m| m.flags & I2C_M_PEC == 0));
}

#[test]
fn board_temp_shape_is_single_byte_read() {
    let specs = vec![I2cMessageSpec::write(0x49, vec![0x00]), I2cMessageSpec::read(0x49, 1)];
    let transfer = Transfer::new(&specs);
    assert_eq!(transfer.msgs()[0].len, 1);
    assert_eq!(transfer.msgs()[1].flags, I2C_M_RD);
    assert_eq!(transfer.msgs()[1].len, 1);
}

#[test]
fn plain_write_encodes_one_message() {
    let transfer = Transfer::new(&[I2cMessageSpec::write(0x49, vec![0x00, 0x00])]);
    assert_eq!(transfer.nmsgs(), 1);
    assert_eq!(transfer.msgs()[0].addr, 0x49);
    assert_eq!(transfer.msgs()[0].flags, 0);
    assert_eq!(transfer.msgs()[0].len, 2);
}

#[test]
fn message_lengths_are_carried_in_sixteen_bits() {
    let transfer = Transfer::new(&[I2cMessageSpec::read(0x10, 0x1_0003)]);
    assert_eq!(transfer.msgs()[0].len, 3);
    assert_eq!(transfer.buffers()[0].len(), 0x1_0003);
}

#[test]
fn reads_are_collected_in_order() {
    let transfer = Transfer::new(&[
        I2cMessageSpec::read(1, 2),
        I2cMessageSpec::write(1, vec![9]),
        I2cMessageSpec::read(2, 1),
    ]);
    let filled = vec![vec![0xaa, 0xbb], vec![9], vec![0xcc]];
    assert_eq!(transfer.read_data(&filled), vec![0xaa, 0xbb, 0xcc]);
}

#[test]
fn exchanges_are_combined_transfers() {
    let specs = write_read_exchange(0x49, vec![0x8b], 2);
    assert_eq!(
        specs,
        vec![I2cMessageSpec::write(0x49, vec![0x8b]), I2cMessageSpec::read(0x49, 2)]
    );
    assert_eq!(write_exchange(1, vec![2, 3]), vec![I2cMessageSpec::write(1, vec![2, 3])]);
    assert_eq!(read_exchange(1, 4), vec![I2cMessageSpec::read(1, 4)]);
    assert_eq!(device_path(3), "/dev/i2c-3");
}

#[test]
fn transient_errors_are_retried_five_times() {
    for errno in [11, 110, 121] {
        assert!(is_retryable(Some(errno)));
        let mut retry = Retry::new(DEFAULT_MAX_ATTEMPTS);
        let mut attempts = 1;
        while retry.after_failure(Some(errno)) {
            attempts += 1;
        }
        assert_eq!(attempts, 5);
    }
    for errno in [None, Some(5), Some(16), Some(0)] {
        assert!(!is_retryable(errno));
        assert!(!Retry::new(5).after_failure(errno));
    }
    assert!(!Retry::new(1).after_failure(Some(11)));
    assert!(!Retry::new(0).after_failure(Some(11)));
}

/// Run an export whose directory appears after `misses` looks.
fn export(first: ExportEvent, misses: Option<u32>) -> (u32, ExportAction) {
    let mut poll = ExportPoll::new();
    let mut action = poll.step(first);
    let mut looks = 0;
    loop {
        let event = match action {
            ExportAction::Probe => {
                looks += 1;
                ExportEvent::Probed { exists: misses.is_some_and(|m| looks > m) }
            }
            ExportAction::Sleep(ns) => {
                assert_eq!(ns, 1_000_000);
                ExportEvent::Slept
            }
            done => return (looks, done),
        };
        action = poll.step(event);
    }
}

#[test]
fn exports_poll_for_the_directory() {
    assert_eq!(export(ExportEvent::Written, Some(0)), (1, ExportAction::Ready));
    assert_eq!(export(ExportEvent::Written, Some(99)), (100, ExportAction::Ready));
    assert_eq!(export(ExportEvent::Written, None), (100, ExportAction::Missing));
    // Already exported by someone else.
    let busy = ExportEvent::WriteFailed { errno: Some(16) };
    assert_eq!(export(busy, Some(3)), (4, ExportAction::Ready));
    for errno in [None, Some(13)] {
        let failed = ExportEvent::WriteFailed { errno };
        assert_eq!(export(failed, Some(0)), (0, ExportAction::Refused));
    }
}

#[test]
fn export_writes_number_and_round_trips() {
    let gpio = SysfsGpio::with_root("/root".to_string());
    let write = gpio.export_line(148);
    assert_eq!(write.path, "/root/export");
    assert_eq!(write.contents, "148\n");
    assert_eq!(gpio.line_dir(148), "/root/gpio148");

    let pin = gpio.pin(148);
    let write = pin.set_mode(PinMode::Output);
    assert_eq!((write.path.as_str(), write.contents.as_str()), ("/root/gpio148/direction", "out"));
    let write = pin.write(PinValue::High);
    assert_eq!((write.path.as_str(), write.contents.as_str()), ("/root/gpio148/value", "1"));
    let write = pin.write(PinValue::Low);
    assert_eq!((write.path.as_str(), write.contents.as_str()), ("/root/gpio148/value", "0"));
    let write = pin.set_mode(PinMode::Input);
    assert_eq!((write.path.as_str(), write.contents.as_str()), ("/root/gpio148/direction", "in"));
    assert_eq!(pin.attr("value"), "/root/gpio148/value");

    assert_eq!(pin.read("1"), PinValue::High);
    assert_eq!(pin.read("1\n"), PinValue::High);
    assert_eq!(pin.read("0"), PinValue::Low);
    assert_eq!(pin.read(""), PinValue::Low);
    assert_eq!(pin.read("11"), PinValue::Low);
}

#[test]
fn missing_line_errors() {
    let gpio = SysfsGpio::with_root("/root".to_string());
    assert_eq!(
        message(gpio.missing_line(200)),
        "line gpio200 did not appear under /root after export"
    );
    assert_eq!(gpio.export_line(200).contents, "200\n");
}

#[test]
fn paths_join_like_the_standard_library() {
    for root in ["/sys/class/gpio", "/sys/class/gpio/", "", "/", "rel"] {
        let gpio = SysfsGpio::with_root(root.to_string());
        let expected = std::path::PathBuf::from(root).join("gpio7");
        assert_eq!(std::path::Path::new(&gpio.line_dir(7)).as_os_str(), expected.as_os_str());
    }
    assert_eq!(SysfsGpio::default().line_dir(0), "/sys/class/gpio/gpio0");
    let gpio = SysfsGpio::with_root("/root".to_string());
    for name in ["value", "/value", "/", "a/b", "", "../x"] {
        let expected = std::path::PathBuf::from("/root/gpio7").join(name);
        let path = gpio.pin(7).attr(name);
        assert_eq!(std::path::Path::new(&path).as_os_str(), expected.as_os_str());
    }
}

#[test]
fn export_writes_channel_and_attrs_land_in_right_files() {
    let pwm = PwmSysfs::with_root("/root".to_string(), 1, 0);
    assert_eq!(pwm.chip_dir(), "/root/pwmchip1");
    assert_eq!(pwm.pwm_dir(), "/root/pwmchip1/pwm0");
    let write = pwm.export(true).unwrap();
    assert_eq!((write.path.as_str(), write.contents.as_str()), ("/root/pwmchip1/export", "0\n"));

    let write = pwm.set_period_ns(40_000, true).unwrap();
    assert_eq!(
        (write.path.as_str(), write.contents.as_str()),
        ("/root/pwmchip1/pwm0/period", "40000")
    );
    let write = pwm.set_duty_ns(20_000, true).unwrap();
    assert_eq!(
        (write.path.as_str(), write.contents.as_str()),
        ("/root/pwmchip1/pwm0/duty_cycle", "20000")
    );
    let write = pwm.enable(true).unwrap();
    assert_eq!(
        (write.path.as_str(), write.contents.as_str()),
        ("/root/pwmchip1/pwm0/enable", "1")
    );
    let write = pwm.disable(true).unwrap();
    assert_eq!(
        (write.path.as_str(), write.contents.as_str()),
        ("/root/pwmchip1/pwm0/enable", "0")
    );
    assert_eq!(pwm.get_period_ns("40000\n").unwrap(), 40_000);
    assert_eq!(pwm.period_path(), "/root/pwmchip1/pwm0/period");
    assert_eq!(PwmSysfs::new(0, 0).pwm_dir(), "/sys/class/pwm/pwmchip0/pwm0");
}

#[test]
fn missing_chip_errors_cleanly() {
    let pwm = PwmSysfs::with_root("/root".to_string(), 9, 0);
    let text = message(pwm.export(false).unwrap_err());
    assert_eq!(text, "pwmchip9 not found under /root");
    assert_eq!(
        message(pwm.missing_channel()),
        "pwm channel 0 did not appear under /root/pwmchip9 after export"
    );
}

#[test]
fn duty_readback_round_trips() {
    let pwm = PwmSysfs::with_root("/root".to_string(), 1, 0);
    for duty in [0, 9, 10, 20_000, 36_000, u64::MAX] {
        let text = pwm.set_duty_ns(duty, true).unwrap().contents;
        assert_eq!(text, duty.to_string());
        assert_eq!(pwm.get_duty_ns(&text).unwrap(), duty);
        assert_eq!(pwm.get_duty_ns(&format!("{text}\n")).unwrap(), duty);
    }
    assert_eq!(pwm.duty_path(), "/root/pwmchip1/pwm0/duty_cycle");

    // Garbage in the attribute is an error, not a panic, and is quoted.
    assert_eq!(
        message(pwm.get_duty_ns("not-a-number\n").unwrap_err()),
        "unparseable PWM duty: \"not-a-number\\n\""
    );
    assert_eq!(
        message(pwm.get_period_ns("18446744073709551616").unwrap_err()),
        "unparseable PWM period: \"18446744073709551616\""
    );
}

#[test]
fn ops_before_export_error() {
    let pwm = PwmSysfs::with_root("/root".to_string(), 0, 0);
    assert_eq!(
        message(pwm.set_period_ns(1000, false).unwrap_err()),
        "pwm channel 0 is not exported (missing /root/pwmchip0/pwm0)"
    );
    assert!(pwm.set_duty_ns(1, false).is_err());
    assert!(pwm.enable(false).is_err());
    assert!(pwm.disable(false).is_err());
}

/// A scripted bus: each exchange must be the next one expected.
fn run_script(
    sic: &mut Sic450<Vec<(Exchange, Option<[u8; 2]>)>>,
) -> [Option<[u8; 2]>; 6] {
    let mut replies = Vec::new();
    for exchange in sic.read_telemetry() {
        let (expected, reply) = sic.bus().remove(0);
        assert_eq!(exchange, expected);
        if let Exchange::WriteRead { .. } = exchange {
            replies.push(reply);
        }
    }
    assert!(sic.bus().is_empty());
    replies.try_into().unwrap()
}

fn page(rail: u8) -> (Exchange, Option<[u8; 2]>) {
    (Exchange::Write { address: 0x49, command: 0x00, value: rail }, None)
}

fn register(command: u8, reply: Option<[u8; 2]>) -> (Exchange, Option<[u8; 2]>) {
    (Exchange::WriteRead { address: 0x49, command, len: 2 }, reply)
}

fn float(value: Option<Linear11>) -> f32 {
    let value = value.unwrap();
    f32::from(value.mantissa) * (2.0f32).powi(i32::from(value.exponent))
}

#[test]
fn telemetry_decodes_linear11_fixtures() {
    let mut sic = Sic450::new(
        vec![
            page(0),
            register(0x8B, Some([0x0A, 0xF8])),
            register(0x8C, Some([0x19, 0xF8])),
            register(0x8D, Some([0x2D, 0x00])),
            page(1),
            register(0x8B, Some([0x0A, 0xF8])),
            register(0x8C, Some([0x0A, 0x00])),
            register(0x8D, Some([0x2D, 0x00])),
        ],
        0x49,
    );
    let telemetry = decode_telemetry(&run_script(&mut sic));
    let rail0 = &telemetry.rails[0];
    assert!((float(rail0.vout_v) - 5.0).abs() < 1e-6);
    assert!((float(rail0.iout_a) - 12.5).abs() < 1e-6);
    assert!((float(rail0.temp_c) - 45.0).abs() < 1e-6);
    let rail1 = &telemetry.rails[1];
    assert!((float(rail1.vout_v) - 5.0).abs() < 1e-6);
    assert!((float(rail1.iout_a) - 10.0).abs() < 1e-6);
    assert!((float(rail1.temp_c) - 45.0).abs() < 1e-6);
}

#[test]
fn nak_on_one_register_yields_none_not_failure() {
    let mut sic = Sic450::new(
        vec![
            page(0),
            register(0x8B, None),
            register(0x8C, Some([0x19, 0xF8])),
            register(0x8D, Some([0x2D, 0x00])),
            page(1),
            register(0x8B, Some([0x0A, 0xF8])),
            register(0x8C, Some([0x0A, 0x00])),
            register(0x8D, Some([0x2D, 0x00])),
        ],
        0x49,
    );
    let telemetry = decode_telemetry(&run_script(&mut sic));
    assert!(telemetry.rails[0].vout_v.is_none());
    assert!(telemetry.rails[0].iout_a.is_some());
    assert!(telemetry.rails[1].vout_v.is_some());
}

#[test]
fn linear11_signs() {
    assert_eq!(read_linear11(0xF80A), Linear11 { mantissa: 10, exponent: -1 });
    assert_eq!(read_linear11(0x07FF), Linear11 { mantissa: -1, exponent: 0 });
    assert_eq!(read_linear11(0x7C00), Linear11 { mantissa: -1024, exponent: 15 });
    assert_eq!(read_linear11(0x83FF), Linear11 { mantissa: 1023, exponent: -16 });
}

#[test]
fn board_temp_issues_write_zero_then_read_one_byte() {
    let sic = Sic450::new((), 0x49);
    assert_eq!(
        sic.read_board_temp(),
        Exchange::WriteRead { address: 0x49, command: 0x00, len: 1 }
    );
    assert_eq!(board_temp(Ok(0x5A)).unwrap(), 0x5A);
}

#[test]
fn board_temp_nak_is_an_error() {
    let reply = Err(HwError::from(I2cError::NoAck(0x49)));
    assert!(matches!(
        board_temp(reply),
        Err(Error::I2c(HwError::I2c(I2cError::NoAck(0x49))))
    ));
    let reply = Err(HwError::from(std::io::Error::other("bus")));
    assert!(matches!(board_temp(reply), Err(Error::I2c(HwError::Io(_)))));
}

#[test]
fn consumer_name_is_nul_terminated() {
    let name: Vec<u8> = consumer_name().iter().map(|&c| c as u8).collect();
    assert_eq!(&name[..10], b"mujina-fan");
    assert!(name[10..].iter().all(|&c| c == 0));
    let request = event_request(14);
    assert_eq!(request.lineoffset, 14);
    assert_eq!(request.handleflags, 1);
    assert_eq!(request.eventflags, 3);
    assert_eq!(request.consumer, consumer_name());
    assert_eq!(request.fd, -1);
}

#[test]
fn tach_counts_whole_records_until_the_deadline() {
    const MS: u64 = 1_000_000;
    let mut count = TachCount::new(250 * MS, 1_000 * MS);
    assert_eq!(count.step(TachEvent::Clock { now: 1_000 * MS }), TachAction::Poll(100));
    assert_eq!(count.step(TachEvent::PollReady), TachAction::Read);
    assert_eq!(count.step(TachEvent::Read { bytes: 16 }), TachAction::Clock);
    assert_eq!(count.step(TachEvent::Clock { now: 1_180 * MS + 1 }), TachAction::Poll(69));
    assert_eq!(count.step(TachEvent::PollElapsed), TachAction::Clock);
    assert_eq!(count.step(TachEvent::Read { bytes: 8 }), TachAction::Clock);
    assert_eq!(count.step(TachEvent::PollFailed { interrupted: true }), TachAction::Clock);
    assert_eq!(count.step(TachEvent::ReadFailed { interrupted: true }), TachAction::Clock);
    assert_eq!(count.step(TachEvent::Read { bytes: 16 }), TachAction::Clock);
    assert_eq!(count.step(TachEvent::Clock { now: 1_250 * MS }), TachAction::Done(2));
    assert_eq!(count.step(TachEvent::PollFailed { interrupted: false }), TachAction::Fail);
    assert_eq!(count.step(TachEvent::ReadFailed { interrupted: false }), TachAction::Fail);
}

#[test]
fn device_info_clones() {
    let info = ApolloDeviceInfo { device_id: "apollo-iii".to_string() };
    let event = TransportEvent::ApolloDeviceConnected(info.clone());
    assert!(matches!(
        event,
        TransportEvent::ApolloDeviceConnected(ApolloDeviceInfo { ref device_id })
            if *device_id == info.device_id
    ));
}

#[test]
fn tach_opens_the_chip_then_asks_for_edges_once() {
    let mut tach =
        FanTach::new(DEFAULT_CHIP_PATH.to_string(), DEFAULT_LINE_OFFSET, DEFAULT_PULSES_PER_REV);
    assert_eq!(tach.chip_path(), "/dev/gpiochip0");
    assert_eq!(tach.pulses_per_rev(), 2);
    match tach.open().as_slice() {
        [OpenStep::OpenChip, OpenStep::ChipInfo(chip), OpenStep::LineInfo(line, offset), OpenStep::LineEvent(event, request)] =>
        {
            assert_eq!(*chip, GPIO_GET_CHIPINFO);
            assert_eq!(*line, GPIO_GET_LINEINFO);
            assert_eq!(*offset, 14);
            assert_eq!(*event, GPIO_GET_LINEEVENT);
            assert_eq!(request.lineoffset, 14);
            assert_eq!(request.eventflags, 3);
            assert_eq!(request.fd, -1);
        }
        other => panic!("unexpected steps {other:?}"),
    }

    // Not open yet: no sample.
    match tach.sample(1_000, 5) {
        Err(e) => assert_eq!(message(e), "fan tach not open; call open() first"),
        Ok(count) => panic!("sampled {count:?}"),
    }
    tach.opened();
    assert!(tach.open().is_empty());
    match tach.sample(1_000, 5) {
        Ok(count) => assert_eq!(count, TachCount::new(1_000, 5)),
        Err(e) => panic!("unexpected error {e:?}"),
    }
}

#[test]
fn telemetry_defaults_to_nothing_read() {
    let none = RailTelemetry { vout_v: None, iout_a: None, temp_c: None };
    assert_eq!(RailTelemetry::default(), none);
    assert_eq!(Sic450Telemetry::default(), Sic450Telemetry { rails: [none, none] });
    assert_eq!(Sic450Telemetry::default(), decode_telemetry(&[None; 6]));
}

#[test]
fn retries_end_at_the_first_final_outcome() {
    // Attempts made when every one fails in this way, in order.
    let attempts = |max: u32, errnos: &[Option<i32>]| {
        let mut retry = Retry::new(max);
        let mut made = 0;
        for errno in errnos {
            made += 1;
            if !retry.after_failure(*errno) {
                break;
            }
        }
        made
    };
    let transient = [Some(110); 9];
    assert_eq!(attempts(5, &transient), 5);
    assert_eq!(attempts(1, &transient), 1);
    assert_eq!(attempts(0, &transient), 1);
    assert_eq!(attempts(5, &[Some(121), Some(11), Some(5), Some(110)]), 3);
    assert_eq!(attempts(5, &[None, Some(110)]), 1);
}
