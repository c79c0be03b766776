use emg_core::filter::{
    EmgChannel, FilterSettings, FilterStep, NotchFrequency, SampleFrequency, ENVELOPE_WINDOW,
};

#[test]
fn unsupported_rates_pass_samples_through() {
    for (rate, mains) in [(250, 50), (500, 55), (1000, 0), (44100, 60)] {
        let mut s = FilterSettings::new();
        s.init_from_rates(rate, mains, true, true, true);
        assert!(s.is_bypassed());
        for raw in [0, 1, -7, 4095, i32::MAX, i32::MIN] {
            assert_eq!(s.step(raw), FilterStep::Passthrough(raw));
        }
    }
}

#[test]
fn supported_rates_run_the_cascade() {
    let mut s = FilterSettings::new();
    s.init_from_rates(1000, 60, true, false, true);
    assert!(!s.is_bypassed());
    assert_eq!(
        s.step(12),
        FilterStep::Cascade {
            input: 12,
            sample_freq: SampleFrequency::Freq1000Hz,
            notch_freq: NotchFrequency::Freq60Hz,
            notch: true,
            lowpass: false,
            highpass: true,
        }
    );
}

#[test]
fn rates_convert_from_hertz() {
    assert_eq!(SampleFrequency::from_hz(500), Some(SampleFrequency::Freq500Hz));
    assert_eq!(SampleFrequency::from_hz(1000), Some(SampleFrequency::Freq1000Hz));
    assert_eq!(SampleFrequency::from_hz(999), None);
    assert_eq!(NotchFrequency::from_hz(50), Some(NotchFrequency::Freq50Hz));
    assert_eq!(NotchFrequency::from_hz(60), Some(NotchFrequency::Freq60Hz));
    assert_eq!(NotchFrequency::Freq60Hz.hz(), 60);
    assert_eq!(SampleFrequency::Freq1000Hz.table_index(), 1);
}

#[test]
fn default_channel_uses_500hz_50hz_all_stages() {
    let ch = EmgChannel::new();
    assert_eq!(
        ch.filter_step(3),
        FilterStep::Cascade {
            input: 3,
            sample_freq: SampleFrequency::Freq500Hz,
            notch_freq: NotchFrequency::Freq50Hz,
            notch: true,
            lowpass: true,
            highpass: true,
        }
    );
    assert_eq!(ch.current(), 0);
}

#[test]
fn envelope_averages_squares() {
    let mut ch = EmgChannel::new();
    assert_eq!(ch.envelope(3), 9);
    assert_eq!(ch.envelope(-4), 13); // (9 + 16) / 2 = 12.5 -> 13
    assert_eq!(ch.current(), 13);
}

#[test]
fn envelope_of_constant_signal_is_its_square() {
    let mut ch = EmgChannel::new();
    let mut last = 0;
    for _ in 0..ENVELOPE_WINDOW + 10 {
        last = ch.envelope(-20);
    }
    assert_eq!(last, 400);
}

#[test]
fn energy_saturates() {
    let mut ch = EmgChannel::new();
    assert_eq!(ch.envelope(i32::MIN), i32::MAX);
    let mut big = EmgChannel::new();
    assert_eq!(big.envelope(46341), i32::MAX);
    // (2147483647 + 46340^2 + 1) / 2
    assert_eq!(big.envelope(46340), 2147439624);
}
