use freemdu_home::accelerometer::{
    isqrt, BusRequest, Error, InitStage, InitStep, Lis2dh, Metrics, Sample, WindowStats,
};

fn window(samples: &[(i32, i32, i32)]) -> Option<Metrics> {
    let mut stats = WindowStats::new();
    for (x_mg, y_mg, z_mg) in samples {
        stats.push(Sample {
            x_mg: *x_mg,
            y_mg: *y_mg,
            z_mg: *z_mg,
        });
    }
    stats.finish()
}

#[test]
fn roots_are_rounded_down() {
    for n in 0..2000_u64 {
        let r = u64::from(isqrt(n));
        assert!(r * r <= n && n < (r + 1) * (r + 1));
    }
    assert_eq!(isqrt(u64::MAX - 1), u32::MAX);
    assert_eq!(isqrt(0xffff_fffe_0000_0001), u32::MAX);
    assert_eq!(isqrt(0xffff_fffe_0000_0000), u32::MAX - 1);
}

#[test]
fn window_is_reduced() {
    assert!(window(&[]).is_none());
    assert!(WindowStats::default().finish().is_none());
    let m = window(&[(10, -20, 1000), (14, -28, 1000), (12, -21, 1003)]).unwrap();
    assert_eq!(
        m,
        Metrics {
            samples: 3,
            x_mean_mg: 12,
            y_mean_mg: -23,
            z_mean_mg: 1001,
            x_stddev_mg: 1,
            y_stddev_mg: 3,
            z_stddev_mg: 1,
            vibration_rms_mg: 4,
            peak_to_peak_mg: 8,
            acceleration_peak_mg: 1003,
            dynamic_peak_mg: 5,
        }
    );
}

#[test]
fn still_sensor_shows_gravity_only() {
    let m = window(&[(3, -4, 1000); 50]).unwrap();
    assert_eq!(m.samples, 50);
    assert_eq!((m.x_mean_mg, m.y_mean_mg, m.z_mean_mg), (3, -4, 1000));
    assert_eq!(m.vibration_rms_mg, 0);
    assert_eq!(m.peak_to_peak_mg, 0);
    assert_eq!(m.dynamic_peak_mg, 0);
    assert_eq!(m.acceleration_peak_mg, 1000);
}

#[test]
fn mounting_does_not_matter_for_vibration() {
    let base = [(100, 0, 0), (-100, 50, 20), (40, -50, -20), (-40, 0, 0)];
    let moved: Vec<(i32, i32, i32)> = base
        .iter()
        .map(|(x, y, z)| (x + 700, y - 300, z + 1000))
        .collect();
    let a = window(&base).unwrap();
    let b = window(&moved).unwrap();
    assert_eq!(a.vibration_rms_mg, b.vibration_rms_mg);
    assert_eq!(a.peak_to_peak_mg, b.peak_to_peak_mg);
    assert_eq!(
        (a.x_stddev_mg, a.y_stddev_mg, a.z_stddev_mg),
        (b.x_stddev_mg, b.y_stddev_mg, b.z_stddev_mg)
    );
    // The square root of (5800 + 1250 + 200).
    assert_eq!(a.vibration_rms_mg, 85);
    assert_eq!(a.peak_to_peak_mg, 200);
}

#[test]
fn extreme_samples() {
    let m = window(&[(i32::MIN, i32::MAX, 0)]).unwrap();
    assert_eq!(m.x_mean_mg, i32::MIN);
    assert_eq!(m.y_mean_mg, i32::MAX);
    assert_eq!(m.vibration_rms_mg, 0);
    assert_eq!(m.acceleration_peak_mg, 3_037_000_499);
}

#[test]
fn sensor_is_set_up() {
    let mut sensor = Lis2dh::new();
    assert!(matches!(
        sensor.sample_request::<()>(),
        Err(Error::DeviceNotFound)
    ));
    let stage = sensor.init();
    assert_eq!(
        stage.request(),
        BusRequest::Read {
            address: 0x18,
            reg: 0x0f
        }
    );
    // Another chip answers at the first address.
    let InitStep::Do(stage) = sensor.supply::<()>(stage, 100, Ok(0x32)) else {
        panic!("the second address is tried");
    };
    assert_eq!(
        stage.request(),
        BusRequest::Read {
            address: 0x19,
            reg: 0x0f
        }
    );
    let InitStep::Do(stage) = sensor.supply::<()>(stage, 100, Ok(0x33)) else {
        panic!("the rate is set");
    };
    assert_eq!(
        stage.request(),
        BusRequest::Write {
            address: 0x19,
            reg: 0x20,
            value: 0x57
        }
    );
    let InitStep::Do(stage) = sensor.supply::<()>(stage, 100, Ok(0)) else {
        panic!("the range is set");
    };
    assert_eq!(
        stage.request(),
        BusRequest::Write {
            address: 0x19,
            reg: 0x23,
            value: 0x98
        }
    );
    assert_eq!(sensor.address, None);
    assert!(matches!(
        sensor.supply::<()>(stage, 100, Ok(0)),
        InitStep::Ready(0x19)
    ));
    assert_eq!(sensor.address, Some(0x19));
    assert!(matches!(sensor.sample_request::<()>(), Ok((0x19, 0xa8))));
}

#[test]
fn rates_have_codes() {
    for (hz, value) in [
        (1, 0x17),
        (10, 0x27),
        (25, 0x37),
        (50, 0x47),
        (100, 0x57),
        (200, 0x67),
        (400, 0x77),
    ] {
        match Lis2dh::new().supply::<()>(InitStage::First, hz, Ok(0x33)) {
            InitStep::Do(stage) => assert_eq!(
                stage.request(),
                BusRequest::Write {
                    address: 0x18,
                    reg: 0x20,
                    value
                }
            ),
            _ => panic!("the rate {hz} is set"),
        }
    }
    assert!(matches!(
        Lis2dh::new().supply::<()>(InitStage::First, 99, Ok(0x33)),
        InitStep::Failed(Error::UnsupportedSampleRate(99))
    ));
}

#[test]
fn set_up_fails() {
    let mut sensor = Lis2dh::new();
    let InitStep::Do(stage) = sensor.supply(InitStage::First, 1, Err('e')) else {
        panic!("the second address is tried");
    };
    assert!(matches!(
        sensor.supply(stage, 1, Err('e')),
        InitStep::Failed(Error::DeviceNotFound)
    ));
    let InitStep::Do(stage) = sensor.supply::<char>(InitStage::First, 1, Ok(0x33)) else {
        panic!("the rate is set");
    };
    assert!(matches!(
        sensor.supply(stage, 1, Err('e')),
        InitStep::Failed(Error::I2c('e'))
    ));
    let InitStep::Do(stage) = sensor.supply::<char>(stage, 1, Ok(0)) else {
        panic!("the range is set");
    };
    assert!(matches!(
        sensor.supply(stage, 1, Err('e')),
        InitStep::Failed(Error::I2c('e'))
    ));
    assert_eq!(sensor.address, None);
}

#[test]
fn samples_are_converted() {
    let sensor = Lis2dh {
        address: Some(0x18),
    };
    for raw in [
        [0; 6],
        [0xff; 6],
        [0x00, 0x80, 0xff, 0x7f, 0x10, 0x00],
        [0xf0, 0xff, 0x34, 0x12, 0xcd, 0xab],
    ] {
        let axis = |i: usize| i32::from(i16::from_le_bytes([raw[i], raw[i + 1]]) >> 4) * 2;
        let sample = sensor.read_sample::<()>(Ok(raw)).unwrap();
        assert_eq!(
            sample,
            Sample {
                x_mg: axis(0),
                y_mg: axis(2),
                z_mg: axis(4)
            }
        );
    }
    assert!(matches!(
        sensor.read_sample(Err('e')),
        Err(Error::I2c('e'))
    ));
    assert!(matches!(
        Lis2dh::new().read_sample::<()>(Ok([0; 6])),
        Err(Error::DeviceNotFound)
    ));
}

#[test]
fn order_of_the_samples_does_not_matter() {
    let samples = [(10, -20, 1000), (14, -28, 1000), (12, -21, 1003), (-4096, 4096, 0)];
    let m = window(&samples);
    for rotated in 1..samples.len() {
        let mut other = samples;
        other.rotate_left(rotated);
        assert_eq!(window(&other), m);
        other.reverse();
        assert_eq!(window(&other), m);
    }
}

#[test]
fn spans_and_peaks_never_shrink() {
    let mut value = 1_i32;
    let mut samples = vec![];
    let mut before: Option<Metrics> = None;
    for _ in 0..500 {
        value = (value * 1103 + 12345) % 8193;
        samples.push((value - 4096, 4096 - value, value / 2));
        let now = window(&samples).unwrap();
        if let Some(before) = before {
            assert_eq!(now.samples, before.samples + 1);
            assert!(now.peak_to_peak_mg >= before.peak_to_peak_mg);
            assert!(now.acceleration_peak_mg >= before.acceleration_peak_mg);
        }
        before = Some(now);
    }
}

#[test]
fn excursion_depends_on_gravity_by_rounding_only() {
    let still = window(&[(0, 0, 0), (1, 0, 0), (1, 0, 0)]).unwrap();
    let tilted = window(&[(-1, 0, 0), (0, 0, 0), (0, 0, 0)]).unwrap();
    assert_eq!((still.x_mean_mg, still.dynamic_peak_mg), (0, 1));
    assert_eq!((tilted.x_mean_mg, tilted.dynamic_peak_mg), (0, 1));
    let tilted = window(&[(-2, 0, 0), (-1, 0, 0), (-1, 0, 0)]).unwrap();
    assert_eq!((tilted.x_mean_mg, tilted.dynamic_peak_mg), (-1, 1));
    let a = window(&[(0, 0, 0), (3, 0, 0), (3, 0, 0), (3, 0, 0)]).unwrap();
    let b = window(&[(-3, 0, 0), (0, 0, 0), (0, 0, 0), (0, 0, 0)]).unwrap();
    assert_eq!((a.x_mean_mg, a.dynamic_peak_mg), (2, 2));
    assert_eq!((b.x_mean_mg, b.dynamic_peak_mg), (0, 3));
    assert_eq!(a.x_stddev_mg, b.x_stddev_mg);
    assert_eq!(a.peak_to_peak_mg, b.peak_to_peak_mg);
}
