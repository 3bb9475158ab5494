use bldc_driver::angle::IntAngle;
use bldc_driver::flash::{FlashOp, TelemetryFlashLayout, FLASH_ADDR_OFFSET};
use bldc_driver::hal::EncoderData;
use bldc_driver::pll::KinematicEst;
use bldc_driver::telemetry::{
    telemetry_buffer_len, ControllerData, TelemetryCapture, TelemetryData,
};

fn sample(i: u64) -> TelemetryData<14> {
    TelemetryData::from_samples(
        1_000 + i,
        Some(EncoderData { angle: IntAngle::from_raw(i as i32), timestamp: i }),
        Some(KinematicEst { angle: IntAngle::from_raw(-(i as i32)), velocity: 7, timestamp: i }),
        Some(ControllerData { pwm_a: 1, pwm_b: 2, pwm_c: 3 }),
    )
}

#[test]
fn record_from_all_sources() {
    let d = sample(4);
    assert_eq!(d.timestamp, 1004);
    assert_eq!(d.measured_angle.raw_value(), 4);
    assert_eq!(d.estimated_angle.raw_value(), -4);
    assert_eq!(d.estimated_velocity, 7);
    assert_eq!((d.pwm_a, d.pwm_b, d.pwm_c), (1, 2, 3));
}

#[test]
fn record_with_missing_sources_keeps_zeros() {
    let d: TelemetryData<14> = TelemetryData::from_samples(9, None, None, None);
    assert_eq!(d.timestamp, 9);
    assert_eq!(d.measured_angle.raw_value(), 0);
    assert_eq!(d.estimated_angle.raw_value(), 0);
    assert_eq!(d.estimated_velocity, 0);
    assert_eq!((d.pwm_a, d.pwm_b, d.pwm_c), (0, 0, 0));
    let z: TelemetryData<14> = TelemetryData::default();
    assert_eq!(z.timestamp, 0);
    let n: TelemetryData<14> = TelemetryData::new(33);
    assert_eq!((n.timestamp, n.pwm_a), (33, 0));
}

#[test]
fn record_bytes_are_little_endian_fields() {
    let d = TelemetryData::<14> {
        timestamp: 0x0102_0304_0506_0708,
        measured_angle: IntAngle::from_raw(-1),
        estimated_angle: IntAngle::from_raw(0x1122),
        estimated_velocity: -2,
        pwm_a: 0xAABB_CCDD,
        pwm_b: 1,
        pwm_c: 1250,
    };
    let b = d.as_bytes();
    assert_eq!(b.len(), 32);
    assert_eq!(&b[0..8], &[8, 7, 6, 5, 4, 3, 2, 1]);
    assert_eq!(&b[8..12], &[0xff, 0xff, 0xff, 0xff]);
    assert_eq!(&b[12..16], &[0x22, 0x11, 0, 0]);
    assert_eq!(&b[16..20], &[0xfe, 0xff, 0xff, 0xff]);
    assert_eq!(&b[20..24], &[0xDD, 0xCC, 0xBB, 0xAA]);
    assert_eq!(&b[24..28], &[1, 0, 0, 0]);
    assert_eq!(&b[28..32], &[0xE2, 0x04, 0, 0]);
}

#[test]
fn buffer_len_is_samples_capped_by_capacity() {
    assert_eq!(telemetry_buffer_len(1_000, 2_000_000, 50), 50);
    assert_eq!(telemetry_buffer_len(100, 100_000, 50), 10);
    assert_eq!(telemetry_buffer_len(100, 9_999, 50), 0);
    assert_eq!(telemetry_buffer_len(0, 1_000_000, 50), 0);
}

#[test]
fn capture_takes_its_records_in_order() {
    let mut cap = TelemetryCapture::new(100, 50_000);
    let mut taken = 0;
    while !cap.is_done() {
        assert!(cap.record(sample(taken)));
        taken += 1;
    }
    assert_eq!(taken, 5);
    let buf = cap.into_buffer();
    assert_eq!(buf.len(), 5);
    for (i, d) in buf.iter().enumerate() {
        assert_eq!(d.timestamp, 1_000 + i as u64);
    }
}

#[test]
fn capture_is_capped_at_buffer_capacity() {
    let mut cap = TelemetryCapture::new(1_000, 2_000_000);
    let mut taken = 0;
    while !cap.is_done() {
        assert!(cap.record(sample(taken)));
        taken += 1;
    }
    assert_eq!(taken, 50);
    assert_eq!(cap.into_buffer().len(), 50);
}

fn capture_of(n: u64) -> heapless::Vec<TelemetryData<14>, 50> {
    let mut cap = TelemetryCapture::new(1_000, n * 1_000);
    let mut i = 0;
    while !cap.is_done() {
        cap.record(sample(i));
        i += 1;
    }
    cap.into_buffer()
}

#[test]
fn plan_of_nothing_writes_nothing() {
    let mut layout = TelemetryFlashLayout::new();
    assert_eq!(layout.current_addr(), FLASH_ADDR_OFFSET);
    let buf = capture_of(0);
    assert!(layout.can_plan(buf.len()));
    let ops = layout.plan_data_vec(&buf);
    assert!(ops.is_empty());
    assert_eq!(layout.current_addr(), FLASH_ADDR_OFFSET);
}

#[test]
fn plan_of_one_record_pads_the_page() {
    let mut layout = TelemetryFlashLayout::new();
    let buf = capture_of(1);
    assert!(layout.can_plan(buf.len()));
    assert!(layout.can_plan_buffer(&buf));
    let ops = layout.plan_data_vec(&buf);
    assert_eq!(ops.len(), 2);
    match &ops[0] {
        // the last page starts a sector: that sector is erased first
        FlashOp::Erase { from, to } => assert_eq!((*from, *to), (0x10_0000, 0x10_1000)),
        other => panic!("expected an erase, got {:?}", other),
    }
    match &ops[1] {
        FlashOp::Write { addr, data } => {
            assert_eq!(*addr, 0x10_0000);
            assert_eq!(data.len(), 256);
            assert_eq!(&data[0..32], &sample(0).as_bytes()[..]);
            assert!(data[32..].iter().all(|b| *b == 0));
        }
        other => panic!("expected a write, got {:?}", other),
    }
    assert_eq!(layout.current_addr(), 0x10_0100);
}

#[test]
fn plan_of_nine_records_fills_one_page_then_pads_the_next() {
    let mut layout = TelemetryFlashLayout::new();
    let buf = capture_of(9);
    let ops = layout.plan_data_vec(&buf);
    assert_eq!(ops.len(), 3);
    match &ops[0] {
        FlashOp::Erase { from, to } => assert_eq!((*from, *to), (0x10_0000, 0x10_1000)),
        other => panic!("expected an erase, got {:?}", other),
    }
    match &ops[1] {
        FlashOp::Write { addr, data } => {
            assert_eq!(*addr, 0x10_0000);
            for i in 0..8 {
                assert_eq!(&data[32 * i..32 * i + 32], &sample(i as u64).as_bytes()[..]);
            }
        }
        other => panic!("expected a write, got {:?}", other),
    }
    match &ops[2] {
        FlashOp::Write { addr, data } => {
            assert_eq!(*addr, 0x10_0100);
            assert_eq!(&data[0..32], &sample(8).as_bytes()[..]);
            assert!(data[32..].iter().all(|b| *b == 0));
        }
        other => panic!("expected a write, got {:?}", other),
    }
    assert_eq!(layout.current_addr(), 0x10_0200);
}

#[test]
fn second_capture_continues_after_the_first() {
    let mut layout = TelemetryFlashLayout::new();
    let buf = capture_of(16);
    let ops = layout.plan_data_vec(&buf);
    // erase + two full pages (the second written as the last page, not at a sector start)
    assert_eq!(ops.len(), 3);
    match &ops[0] {
        FlashOp::Erase { from, to } => assert_eq!((*from, *to), (0x10_0000, 0x10_1000)),
        other => panic!("expected an erase, got {:?}", other),
    }
    assert_eq!(layout.current_addr(), 0x10_0200);
    let ops = layout.plan_data_vec(&capture_of(1));
    assert_eq!(ops.len(), 1);
    match &ops[0] {
        FlashOp::Write { addr, .. } => assert_eq!(*addr, 0x10_0200),
        other => panic!("expected a write, got {:?}", other),
    }
    assert_eq!(layout.current_addr(), 0x10_0300);
}

#[test]
fn plans_from_the_telemetry_offset_fit() {
    let layout = TelemetryFlashLayout::new();
    assert!(layout.can_plan(0));
    assert!(layout.can_plan(50));
    assert!(layout.can_plan_buffer(&capture_of(9)));
}

#[test]
fn record_bytes_read_back_to_the_record() {
    let d = TelemetryData::<14> {
        timestamp: 0x0102_0304_0506_0708,
        measured_angle: IntAngle::from_raw(-1),
        estimated_angle: IntAngle::from_raw(0x1122),
        estimated_velocity: -2,
        pwm_a: 0xAABB_CCDD,
        pwm_b: 1,
        pwm_c: 1250,
    };
    let b = d.as_bytes();
    let back = TelemetryData::<14>::read_from_bytes(&b).unwrap();
    assert_eq!(back.timestamp, d.timestamp);
    assert_eq!(back.measured_angle.raw_value(), -1);
    assert_eq!(back.estimated_angle.raw_value(), 0x1122);
    assert_eq!(back.estimated_velocity, -2);
    assert_eq!((back.pwm_a, back.pwm_b, back.pwm_c), (0xAABB_CCDD, 1, 1250));
    let s = sample(3);
    let back = TelemetryData::<14>::read_from_bytes(&s.as_bytes()).unwrap();
    assert_eq!((back.timestamp, back.estimated_velocity), (1003, 7));
}

#[test]
fn record_bytes_of_the_wrong_length_read_as_nothing() {
    let b = sample(1).as_bytes();
    assert!(TelemetryData::<14>::read_from_bytes(&b[..31]).is_none());
    assert!(TelemetryData::<14>::read_from_bytes(&[0u8; 33]).is_none());
    assert!(TelemetryData::<14>::read_from_bytes(&[]).is_none());
}
