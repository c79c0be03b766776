use vstd::prelude::*;

use crate::mean::{mean_of, slide, MovingAvg};

verus! {

/// Samples averaged into one envelope value.
pub const ENVELOPE_WINDOW: usize = 250;

/// Mains frequency whose hum the notch stage removes.
#[derive(Clone, Copy, Debug, PartialEq, Eq, Structural)]
pub enum NotchFrequency {
    Freq50Hz,
    Freq60Hz,
}

/// Rate at which a channel is sampled.
#[derive(Clone, Copy, Debug, PartialEq, Eq, Structural)]
pub enum SampleFrequency {
    Freq500Hz,
    Freq1000Hz,
}

pub open spec fn notch_of_hz(hz: u32) -> Option<NotchFrequency> {
    if hz == 50 {
        Some(NotchFrequency::Freq50Hz)
    } else if hz == 60 {
        Some(NotchFrequency::Freq60Hz)
    } else {
        None
    }
}

pub open spec fn sample_of_hz(hz: u32) -> Option<SampleFrequency> {
    if hz == 500 {
        Some(SampleFrequency::Freq500Hz)
    } else if hz == 1000 {
        Some(SampleFrequency::Freq1000Hz)
    } else {
        None
    }
}

/// Coefficient tables exist for this pair of rates.
pub open spec fn rates_supported(sample_hz: u32, mains_hz: u32) -> bool {
    sample_of_hz(sample_hz) is Some && notch_of_hz(mains_hz) is Some
}

impl NotchFrequency {
    pub open spec fn spec_hz(self) -> u32 {
        match self {
            NotchFrequency::Freq50Hz => 50,
            NotchFrequency::Freq60Hz => 60,
        }
    }

    pub fn hz(&self) -> (r: u32)
        ensures
            r == self.spec_hz(),
    {
        match self {
            NotchFrequency::Freq50Hz => 50,
            NotchFrequency::Freq60Hz => 60,
        }
    }

    pub fn from_hz(hz: u32) -> (r: Option<Self>)
        ensures
            r == notch_of_hz(hz),
    {
        if hz == 50 {
            Some(NotchFrequency::Freq50Hz)
        } else if hz == 60 {
            Some(NotchFrequency::Freq60Hz)
        } else {
            None
        }
    }
}

impl SampleFrequency {
    pub open spec fn spec_hz(self) -> u32 {
        match self {
            SampleFrequency::Freq500Hz => 500,
            SampleFrequency::Freq1000Hz => 1000,
        }
    }

    pub open spec fn spec_table_index(self) -> usize {
        match self {
            SampleFrequency::Freq500Hz => 0,
            SampleFrequency::Freq1000Hz => 1,
        }
    }

    pub fn hz(&self) -> (r: u32)
        ensures
            r == self.spec_hz(),
    {
        match self {
            SampleFrequency::Freq500Hz => 500,
            SampleFrequency::Freq1000Hz => 1000,
        }
    }

    pub fn from_hz(hz: u32) -> (r: Option<Self>)
        ensures
            r == sample_of_hz(hz),
    {
        if hz == 500 {
            Some(SampleFrequency::Freq500Hz)
        } else if hz == 1000 {
            Some(SampleFrequency::Freq1000Hz)
        } else {
            None
        }
    }

    /// Row of the coefficient tables for this rate.
    pub fn table_index(&self) -> (r: usize)
        ensures
            r == self.spec_table_index(),
            r < 2,
    {
        match self {
            SampleFrequency::Freq500Hz => 0,
            SampleFrequency::Freq1000Hz => 1,
        }
    }
}

/// What the cascade does with one sample: hand it on untouched, or run it
/// through the enabled stages (notch, then low-pass, then high-pass) with
/// the coefficients of the given rates.
#[derive(Clone, Copy, Debug, PartialEq, Eq, Structural)]
pub enum FilterStep {
    Passthrough(i32),
    Cascade {
        input: i32,
        sample_freq: SampleFrequency,
        notch_freq: NotchFrequency,
        notch: bool,
        lowpass: bool,
        highpass: bool,
    },
}

/// Configuration of a channel's filter cascade: the coefficient set chosen
/// by the (sample rate, mains frequency) pair, or none (bypass), and which
/// stages are enabled.
#[derive(Clone, Copy, Debug)]
pub struct FilterSettings {
    coefficients: Option<(SampleFrequency, NotchFrequency)>,
    notch_filter_enabled: bool,
    lowpass_filter_enabled: bool,
    highpass_filter_enabled: bool,
}

impl FilterSettings {
    /// The chosen coefficient set; none where the cascade is bypassed.
    pub closed spec fn coefficients(&self) -> Option<(SampleFrequency, NotchFrequency)> {
        self.coefficients
    }

    pub closed spec fn stages(&self) -> (bool, bool, bool) {
        (self.notch_filter_enabled, self.lowpass_filter_enabled, self.highpass_filter_enabled)
    }

    /// The step for `input` under these settings.
    pub open spec fn spec_step(&self, input: i32) -> FilterStep {
        match self.coefficients() {
            None => FilterStep::Passthrough(input),
            Some((s, n)) => FilterStep::Cascade {
                input,
                sample_freq: s,
                notch_freq: n,
                notch: self.stages().0,
                lowpass: self.stages().1,
                highpass: self.stages().2,
            },
        }
    }

    /// Unconfigured settings: every stage enabled, the cascade bypassed
    /// until coefficients are chosen.
    pub fn new() -> (r: Self)
        ensures
            r.coefficients() is None,
            r.stages() == (true, true, true),
    {
        FilterSettings {
            coefficients: None,
            notch_filter_enabled: true,
            lowpass_filter_enabled: true,
            highpass_filter_enabled: true,
        }
    }

    /// Chooses the coefficients for a supported pair of rates and the
    /// stages to run.
    pub fn init(
        &mut self,
        sample_freq: SampleFrequency,
        notch_freq: NotchFrequency,
        enable_notch_filter: bool,
        enable_lowpass_filter: bool,
        enable_highpass_filter: bool,
    )
        ensures
            final(self).coefficients() == Some((sample_freq, notch_freq)),
            final(self).stages() == (
                enable_notch_filter,
                enable_lowpass_filter,
                enable_highpass_filter,
            ),
    {
        self.coefficients = Some((sample_freq, notch_freq));
        self.notch_filter_enabled = enable_notch_filter;
        self.lowpass_filter_enabled = enable_lowpass_filter;
        self.highpass_filter_enabled = enable_highpass_filter;
    }

    /// Chooses the coefficients from rates given in hertz; a pair with no
    /// coefficient table bypasses the cascade instead of failing.
    pub fn init_from_rates(
        &mut self,
        sample_hz: u32,
        mains_hz: u32,
        enable_notch_filter: bool,
        enable_lowpass_filter: bool,
        enable_highpass_filter: bool,
    )
        ensures
            final(self).coefficients() == if rates_supported(sample_hz, mains_hz) {
                Some((sample_of_hz(sample_hz)->Some_0, notch_of_hz(mains_hz)->Some_0))
            } else {
                None
            },
            final(self).stages() == (
                enable_notch_filter,
                enable_lowpass_filter,
                enable_highpass_filter,
            ),
    {
        self.coefficients =
            match (SampleFrequency::from_hz(sample_hz), NotchFrequency::from_hz(mains_hz)) {
                (Some(s), Some(n)) => Some((s, n)),
                _ => None,
            };
        self.notch_filter_enabled = enable_notch_filter;
        self.lowpass_filter_enabled = enable_lowpass_filter;
        self.highpass_filter_enabled = enable_highpass_filter;
    }

    pub fn is_bypassed(&self) -> (r: bool)
        ensures
            r == self.coefficients() is None,
    {
        self.coefficients.is_none()
    }

    /// What to do with `input`.
    pub fn step(&self, input: i32) -> (r: FilterStep)
        ensures
            r == self.spec_step(input),
    {
        match self.coefficients {
            None => FilterStep::Passthrough(input),
            Some((s, n)) => FilterStep::Cascade {
                input,
                sample_freq: s,
                notch_freq: n,
                notch: self.notch_filter_enabled,
                lowpass: self.lowpass_filter_enabled,
                highpass: self.highpass_filter_enabled,
            },
        }
    }
}

/// Where the pair of rates has no coefficient table, the configured cascade
/// hands every sample on unchanged, whatever stages were asked for.
pub proof fn lemma_unsupported_rates_pass_through(
    settings: FilterSettings,
    sample_hz: u32,
    mains_hz: u32,
    input: i32,
)
    requires
        !rates_supported(sample_hz, mains_hz),
        settings.coefficients() == if rates_supported(sample_hz, mains_hz) {
            Some((sample_of_hz(sample_hz)->Some_0, notch_of_hz(mains_hz)->Some_0))
        } else {
            None
        },
    ensures
        settings.spec_step(input) == FilterStep::Passthrough(input),
{
}

/// The energy of a filtered sample: its square, held at `i32::MAX` where
/// the square does not fit.
pub open spec fn energy(filtered: i32) -> i32 {
    if filtered * filtered > i32::MAX {
        i32::MAX
    } else {
        (filtered * filtered) as i32
    }
}

/// The latest envelope of each of the two channels.
#[derive(Clone, Copy, Debug, PartialEq, Eq, Structural)]
pub struct EmgSensorsState {
    pub emg1_value: i32,
    pub emg2_value: i32,
}

/// One channel of the signal conditioner: its filter settings and the
/// moving average that smooths the squared filter output into an envelope.
pub struct EmgChannel {
    filter: FilterSettings,
    avg: MovingAvg<250>,
}

impl EmgChannel {
    pub closed spec fn settings(&self) -> FilterSettings {
        self.filter
    }

    /// The energies currently averaged, oldest first.
    pub closed spec fn window(&self) -> Seq<i32> {
        self.avg.window()
    }

    pub closed spec fn wf(&self) -> bool {
        self.avg.wf() && self.avg.avoids_div_by_zero()
    }

    /// A channel sampled at 500 Hz under 50 Hz mains, every stage enabled.
    pub fn new() -> (r: Self)
        ensures
            r.wf(),
            r.settings().coefficients() == Some(
                (SampleFrequency::Freq500Hz, NotchFrequency::Freq50Hz),
            ),
            r.settings().stages() == (true, true, true),
            r.window() == Seq::<i32>::empty(),
    {
        let mut filter = FilterSettings::new();
        filter.init(SampleFrequency::Freq500Hz, NotchFrequency::Freq50Hz, true, true, true);
        EmgChannel { filter, avg: MovingAvg::new(true) }
    }

    /// A channel with the given filter settings.
    pub fn with_settings(filter: FilterSettings) -> (r: Self)
        ensures
            r.wf(),
            r.settings() == filter,
            r.window() == Seq::<i32>::empty(),
    {
        EmgChannel { filter, avg: MovingAvg::new(true) }
    }

    pub fn filter_settings(&self) -> (r: FilterSettings)
        ensures
            r == self.settings(),
    {
        self.filter
    }

    /// What the cascade does with the raw sample `raw`.
    pub fn filter_step(&self, raw: i32) -> (r: FilterStep)
        ensures
            r == self.settings().spec_step(raw),
    {
        self.filter.step(raw)
    }

    /// Takes the cascade's output for one sample and returns the envelope:
    /// the mean energy over the last `ENVELOPE_WINDOW` samples.
    pub fn envelope(&mut self, filtered: i32) -> (r: i32)
        requires
            old(self).wf(),
        ensures
            final(self).wf(),
            final(self).settings() == old(self).settings(),
            final(self).window() == slide(
                old(self).window(),
                ENVELOPE_WINDOW as nat,
                energy(filtered),
            ),
            r == mean_of(final(self).window()),
    {
        let e = square_saturating(filtered);
        self.avg.reading(e)
    }

    /// The current envelope, 0 before any sample.
    pub fn current(&self) -> (r: i32)
        requires
            self.wf(),
        ensures
            r == if self.window().len() > 0 {
                mean_of(self.window())
            } else {
                0
            },
    {
        self.avg.get_avg()
    }
}

fn square_saturating(x: i32) -> (r: i32)
    ensures
        r == energy(x),
{
    let wide = x as i64;
    assert(wide * wide <= 0x4000_0000_0000_0000) by (nonlinear_arith)
        requires
            -0x8000_0000 <= wide <= 0x7fff_ffff,
    ;
    assert(wide * wide >= 0) by (nonlinear_arith);
    let sq = wide * wide;
    if sq > i32::MAX as i64 {
        i32::MAX
    } else {
        sq as i32
    }
}

} // verus!
