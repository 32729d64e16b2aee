//! The touch scan engine: per-key correction and delta computation,
//! per-cycle baseline recalibration, and the cycle diagnostics record.
//!
//! A cycle visits the sixteen lines in order, six keys per line. Each newly
//! read raw sample is first corrected for read tear: the two register bytes
//! of a sample are read in separate bus operations, so a value crossing a
//! multiple-of-256 boundary between the two reads comes back 256 too high.
//! A jump above the tear threshold over the previous raw value is taken for
//! such an artifact and 256 is subtracted (wrapping modulo 2^16), unless
//! the previous value is zero (no history yet). The published quantity is
//! the corrected raw minus the key's baseline, saturated at zero. On every
//! cycle whose counter is zero the baselines are overwritten from the
//! controllers' reference registers, with a fixed positive bias added on
//! the last key of each line.

use vstd::arithmetic::div_mod::{lemma_fundamental_div_mod, lemma_mod_multiples_basic};
use vstd::prelude::*;

use crate::constants::{
    AT42QT_KEYS_PER_DEVICE, DIAGNOSTIC_THRESHOLD, LAST_KEY_BIAS, RECALIBRATION_PERIOD,
    TEAR_THRESHOLD, TOTAL_CHANNELS, TOTAL_QT_KEYS,
};

verus! {

/// Raw sample corrected for a torn two-byte read: if there is a previous
/// raw value and the new one exceeds it by more than the tear threshold,
/// the jump is a rollover artifact and 256 is subtracted, wrapping modulo
/// 2^16.
pub open spec fn spec_corrected(prev: u16, raw: u16) -> u16 {
    if prev != 0 && raw > prev + TEAR_THRESHOLD {
        if raw >= 256 {
            (raw - 256) as u16
        } else {
            (raw + 0xFF00) as u16
        }
    } else {
        raw
    }
}

/// Law: with no stored history — a previous raw value of zero — the newly
/// read raw value is taken as is, whatever it is.
pub proof fn lemma_no_correction_without_history(raw: u16)
    ensures
        spec_corrected(0u16, raw) == raw,
{
}

/// Law: a read that repeats the previous raw value never trips the tear
/// correction, so it leaves the stored raw value unchanged.
pub proof fn lemma_repeated_read_uncorrected(prev: u16)
    ensures
        spec_corrected(prev, prev) == prev,
{
}

/// Published touch intensity: the corrected raw minus the baseline,
/// saturated at zero.
pub open spec fn spec_delta(raw: u16, baseline: u16) -> u16 {
    if raw >= baseline {
        (raw - baseline) as u16
    } else {
        0u16
    }
}

/// Stored baseline of the last key of a line: the read reference plus the
/// fixed bias, saturated at the type's maximum.
pub open spec fn spec_biased(reference: u16) -> u16 {
    if reference + LAST_KEY_BIAS > 0xFFFF {
        0xFFFFu16
    } else {
        (reference + LAST_KEY_BIAS) as u16
    }
}

/// Per-cycle diagnostics: the most recent key whose published delta rose
/// above the diagnostic threshold, with the values that produced it. The
/// engine fills this record in scan order, so after a cycle it holds the
/// last anomalous key of that cycle.
#[derive(Clone, Copy, PartialEq, Eq, Structural, Debug)]
pub struct TouchDiagnostics {
    /// Logical key id of the recorded key.
    pub key: u16,
    /// Baseline of the recorded key when its delta was computed.
    pub baseline: u16,
    /// Raw value the recorded key held before this cycle.
    pub previous_raw: u16,
    /// Corrected raw value that produced the recorded delta.
    pub corrected_raw: u16,
    /// Whether any key has been recorded since the record was created.
    pub active: bool,
}

impl TouchDiagnostics {
    /// An empty record: nothing observed yet.
    pub fn new() -> (d: TouchDiagnostics)
        ensures
            d == (TouchDiagnostics {
                key: 0u16,
                baseline: 0u16,
                previous_raw: 0u16,
                corrected_raw: 0u16,
                active: false,
            }),
    {
        TouchDiagnostics { key: 0, baseline: 0, previous_raw: 0, corrected_raw: 0, active: false }
    }
}

/// Diagnostics record after one key: overwritten when the key's delta is
/// above the threshold, untouched otherwise.
pub open spec fn spec_diag_step(
    d: TouchDiagnostics,
    sid: int,
    prev: u16,
    baseline: u16,
    corrected: u16,
) -> TouchDiagnostics {
    if spec_delta(corrected, baseline) > DIAGNOSTIC_THRESHOLD {
        TouchDiagnostics {
            key: sid as u16,
            baseline,
            previous_raw: prev,
            corrected_raw: corrected,
            active: true,
        }
    } else {
        d
    }
}

/// Diagnostics record after the first `k` keys of line `ch`, processed in
/// key order against the pre-cycle raw values `raw0` and the baselines
/// `base`.
pub open spec fn spec_line_diag(
    d0: TouchDiagnostics,
    raw0: Seq<u16>,
    base: Seq<u16>,
    samples: Seq<u16>,
    ch: int,
    k: nat,
) -> TouchDiagnostics
    decreases k,
{
    if k == 0 {
        d0
    } else {
        let d = spec_line_diag(d0, raw0, base, samples, ch, (k - 1) as nat);
        let sid = ch * AT42QT_KEYS_PER_DEVICE + (k - 1);
        spec_diag_step(d, sid, raw0[sid], base[sid], spec_corrected(raw0[sid], samples[k - 1]))
    }
}

/// Diagnostics record after the first `ch` whole lines of a cycle.
pub open spec fn spec_cycle_diag(
    d0: TouchDiagnostics,
    raw0: Seq<u16>,
    base: Seq<u16>,
    signals: Seq<Seq<u16>>,
    ch: nat,
) -> TouchDiagnostics
    decreases ch,
{
    if ch == 0 {
        d0
    } else {
        let d = spec_cycle_diag(d0, raw0, base, signals, (ch - 1) as nat);
        spec_line_diag(d, raw0, base, signals[ch - 1], ch - 1, AT42QT_KEYS_PER_DEVICE as nat)
    }
}

/// The per-line sample tables of a cycle, as mathematical sequences.
pub open spec fn spec_views(lines: Seq<Vec<u16>>) -> Seq<Seq<u16>> {
    lines.map_values(|l: Vec<u16>| l@)
}

/// Raw value of key `i` after a signal sweep over the sample table `sigs`,
/// starting from the raw values `raw0`.
pub open spec fn spec_cycle_raw(raw0: Seq<u16>, sigs: Seq<Seq<u16>>, i: int) -> u16 {
    spec_corrected(
        raw0[i],
        sigs[i / (AT42QT_KEYS_PER_DEVICE as int)][i % (AT42QT_KEYS_PER_DEVICE as int)],
    )
}

/// Published delta of key `i` after a signal sweep over `sigs`, against the
/// baselines `base`.
pub open spec fn spec_cycle_delta(raw0: Seq<u16>, base: Seq<u16>, sigs: Seq<Seq<u16>>, i: int) -> u16 {
    spec_delta(spec_cycle_raw(raw0, sigs, i), base[i])
}

/// Law: a sweep that reads back, for every key, exactly the raw value the
/// engine already stores leaves the raw values unchanged; with unchanged
/// baselines the published deltas of such a repeated cycle therefore
/// repeat too.
pub proof fn lemma_repeated_sweep_is_idempotent(raw0: Seq<u16>, sigs: Seq<Seq<u16>>, i: int)
    requires
        0 <= i < TOTAL_QT_KEYS,
        raw0[i] == sigs[i / (AT42QT_KEYS_PER_DEVICE as int)][i % (AT42QT_KEYS_PER_DEVICE as int)],
    ensures
        spec_cycle_raw(raw0, sigs, i) == raw0[i],
{
    lemma_repeated_read_uncorrected(raw0[i]);
}

/// Baseline of key `i` after a recalibration sweep over the reference table
/// `refs`: the read reference, with the bias on each line's last key.
pub open spec fn spec_recal_baseline(refs: Seq<Seq<u16>>, i: int) -> u16 {
    let line = i / (AT42QT_KEYS_PER_DEVICE as int);
    let key = i % (AT42QT_KEYS_PER_DEVICE as int);
    if key == AT42QT_KEYS_PER_DEVICE - 1 {
        spec_biased(refs[line][key])
    } else {
        refs[line][key]
    }
}

/// Key `ch * AT42QT_KEYS_PER_DEVICE + k` lies on line `ch` at offset `k`.
proof fn lemma_line_index(ch: int, k: int)
    requires
        0 <= ch,
        0 <= k < AT42QT_KEYS_PER_DEVICE,
    ensures
        (ch * AT42QT_KEYS_PER_DEVICE + k) / (AT42QT_KEYS_PER_DEVICE as int) == ch,
        (ch * AT42QT_KEYS_PER_DEVICE + k) % (AT42QT_KEYS_PER_DEVICE as int) == k,
{
    vstd::arithmetic::div_mod::lemma_fundamental_div_mod_converse(
        ch * AT42QT_KEYS_PER_DEVICE + k,
        AT42QT_KEYS_PER_DEVICE as int,
        ch,
        k,
    );
}

/// The diagnostics of one line depend only on that line's raw values.
proof fn lemma_line_diag_agrees(
    d0: TouchDiagnostics,
    raw1: Seq<u16>,
    raw2: Seq<u16>,
    base: Seq<u16>,
    samples: Seq<u16>,
    ch: int,
    k: nat,
)
    requires
        forall|j: int|
            0 <= j < k ==> #[trigger] raw1[ch * AT42QT_KEYS_PER_DEVICE + j] == raw2[ch
                * AT42QT_KEYS_PER_DEVICE + j],
    ensures
        spec_line_diag(d0, raw1, base, samples, ch, k) == spec_line_diag(
            d0,
            raw2,
            base,
            samples,
            ch,
            k,
        ),
    decreases k,
{
    if k > 0 {
        lemma_line_diag_agrees(d0, raw1, raw2, base, samples, ch, (k - 1) as nat);
    }
}

/// Mathematical state of the scan engine.
pub ghost struct ScanState {
    /// Last corrected raw sample of every key.
    pub raw: Seq<u16>,
    /// Calibration baseline of every key.
    pub baseline: Seq<u16>,
    /// Published delta of every key, from the last completed sweep.
    pub deltas: Seq<u16>,
    /// Cycle counter, always below the recalibration period; the baseline
    /// sweep runs on cycles where it is zero.
    pub counter: nat,
}

/// The touch scan engine: per-key raw and baseline memory, the delta array
/// of the last sweep, and the recalibration cycle counter.
pub struct ReadTouch {
    raw_value: Vec<u16>,
    baseline: Vec<u16>,
    deltas: Vec<u16>,
    cycle_counter: usize,
}

impl View for ReadTouch {
    type V = ScanState;

    closed spec fn view(&self) -> ScanState {
        ScanState {
            raw: self.raw_value@,
            baseline: self.baseline@,
            deltas: self.deltas@,
            counter: self.cycle_counter as nat,
        }
    }
}

/// A vector of `TOTAL_QT_KEYS` zero samples.
fn zero_samples() -> (v: Vec<u16>)
    ensures
        v@.len() == TOTAL_QT_KEYS,
        forall|i: int| 0 <= i < TOTAL_QT_KEYS ==> v@[i] == 0u16,
{
    let mut v: Vec<u16> = Vec::new();
    let mut i: usize = 0;
    while i < TOTAL_QT_KEYS
        invariant
            i <= TOTAL_QT_KEYS,
            v@.len() == i,
            forall|j: int| 0 <= j < i ==> v@[j] == 0u16,
        decreases TOTAL_QT_KEYS - i,
    {
        v.push(0);
        i = i + 1;
    }
    v
}

/// Raw sample corrected for a torn two-byte read.
pub fn corrected_raw(prev: u16, raw: u16) -> (c: u16)
    ensures
        c == spec_corrected(prev, raw),
{
    if prev != 0 && (raw as u32) > (prev as u32) + (TEAR_THRESHOLD as u32) {
        if raw >= 256 {
            raw - 256
        } else {
            raw + 0xFF00
        }
    } else {
        raw
    }
}

/// Published touch intensity of one key: corrected raw minus baseline,
/// saturated at zero.
pub fn delta_value(raw: u16, baseline: u16) -> (d: u16)
    ensures
        d == spec_delta(raw, baseline),
{
    if raw >= baseline {
        raw - baseline
    } else {
        0
    }
}

/// Baseline stored for the last key of a line: reference plus bias,
/// saturated.
pub fn biased_baseline(reference: u16) -> (b: u16)
    ensures
        b == spec_biased(reference),
{
    if reference > 0xFFFF - LAST_KEY_BIAS {
        0xFFFF
    } else {
        reference + LAST_KEY_BIAS
    }
}

impl ReadTouch {
    /// Every array is the right length and the counter is within its
    /// period.
    pub open spec fn wf(self) -> bool {
        &&& self@.raw.len() == TOTAL_QT_KEYS
        &&& self@.baseline.len() == TOTAL_QT_KEYS
        &&& self@.deltas.len() == TOTAL_QT_KEYS
        &&& self@.counter < RECALIBRATION_PERIOD
    }

    /// A fresh engine: all raw values, baselines and deltas zero, and the
    /// counter at zero, so the first cycle performs a baseline sweep.
    pub fn new() -> (s: Self)
        ensures
            s.wf(),
            s@.counter == 0,
            forall|i: int|
                0 <= i < TOTAL_QT_KEYS ==> s@.raw[i] == 0u16 && s@.baseline[i] == 0u16
                    && s@.deltas[i] == 0u16,
    {
        Self {
            raw_value: zero_samples(),
            baseline: zero_samples(),
            deltas: zero_samples(),
            cycle_counter: 0,
        }
    }

    /// Whether the cycle now starting must re-read the reference registers
    /// and overwrite the baselines.
    pub fn needs_recalibration(&self) -> (b: bool)
        ensures
            b <==> self@.counter == 0,
    {
        self.cycle_counter == 0
    }

    /// Closes a cycle: the counter advances modulo the recalibration
    /// period; nothing else changes.
    pub fn advance_cycle(&mut self)
        requires
            old(self).wf(),
        ensures
            final(self).wf(),
            final(self)@.raw == old(self)@.raw,
            final(self)@.baseline == old(self)@.baseline,
            final(self)@.deltas == old(self)@.deltas,
            final(self)@.counter == (old(self)@.counter + 1) % (RECALIBRATION_PERIOD as nat),
    {
        self.cycle_counter = (self.cycle_counter + 1) % RECALIBRATION_PERIOD;
    }

    /// Copy of the published delta array, one value per logical key id.
    pub fn snapshot(&self) -> (v: Vec<u16>)
        requires
            self.wf(),
        ensures
            v@ == self@.deltas,
    {
        let mut v: Vec<u16> = Vec::new();
        let mut i: usize = 0;
        while i < TOTAL_QT_KEYS
            invariant
                self.wf(),
                i <= TOTAL_QT_KEYS,
                v@.len() == i,
                forall|j: int| 0 <= j < i ==> v@[j] == self@.deltas[j],
            decreases TOTAL_QT_KEYS - i,
        {
            v.push(self.deltas[i]);
            i = i + 1;
        }
        proof {
            assert(v@ =~= self@.deltas);
        }
        v
    }

    /// Applies one line's freshly read signal samples: every key of line
    /// `ch` gets its raw value tear-corrected and stored, and its delta
    /// recomputed against the current baseline; every other key, the
    /// baselines and the counter stay untouched. Keys whose delta rises
    /// above the diagnostic threshold are recorded in `diag` in key order.
    pub fn process_line(&mut self, ch: usize, samples: &Vec<u16>, diag: &mut TouchDiagnostics)
        requires
            old(self).wf(),
            ch < TOTAL_CHANNELS,
            samples@.len() == AT42QT_KEYS_PER_DEVICE,
        ensures
            final(self).wf(),
            final(self)@.baseline == old(self)@.baseline,
            final(self)@.counter == old(self)@.counter,
            forall|k: int|
                0 <= k < AT42QT_KEYS_PER_DEVICE ==> final(self)@.raw[ch * AT42QT_KEYS_PER_DEVICE
                    + k] == spec_corrected(
                    old(self)@.raw[ch * AT42QT_KEYS_PER_DEVICE + k],
                    samples@[k],
                ),
            forall|k: int|
                0 <= k < AT42QT_KEYS_PER_DEVICE ==> final(self)@.deltas[ch * AT42QT_KEYS_PER_DEVICE
                    + k] == spec_delta(
                    spec_corrected(old(self)@.raw[ch * AT42QT_KEYS_PER_DEVICE + k], samples@[k]),
                    old(self)@.baseline[ch * AT42QT_KEYS_PER_DEVICE + k],
                ),
            forall|i: int|
                0 <= i < TOTAL_QT_KEYS && !(ch * AT42QT_KEYS_PER_DEVICE <= i < ch
                    * AT42QT_KEYS_PER_DEVICE + AT42QT_KEYS_PER_DEVICE) ==> final(self)@.raw[i]
                    == old(self)@.raw[i] && final(self)@.deltas[i] == old(self)@.deltas[i],
            *final(diag) == spec_line_diag(
                *old(diag),
                old(self)@.raw,
                old(self)@.baseline,
                samples@,
                ch as int,
                AT42QT_KEYS_PER_DEVICE as nat,
            ),
    {
        let ghost raw0 = self@.raw;
        let ghost base0 = self@.baseline;
        let ghost deltas0 = self@.deltas;
        let ghost diag0 = *diag;
        let mut k: usize = 0;
        while k < AT42QT_KEYS_PER_DEVICE
            invariant
                old(self).wf(),
                self.wf(),
                ch < TOTAL_CHANNELS,
                samples@.len() == AT42QT_KEYS_PER_DEVICE,
                k <= AT42QT_KEYS_PER_DEVICE,
                raw0 == old(self)@.raw,
                base0 == old(self)@.baseline,
                deltas0 == old(self)@.deltas,
                self@.baseline == base0,
                self@.counter == old(self)@.counter,
                forall|j: int|
                    0 <= j < k ==> self@.raw[ch * AT42QT_KEYS_PER_DEVICE + j] == spec_corrected(
                        raw0[ch * AT42QT_KEYS_PER_DEVICE + j],
                        samples@[j],
                    ),
                forall|j: int|
                    0 <= j < k ==> self@.deltas[ch * AT42QT_KEYS_PER_DEVICE + j] == spec_delta(
                        spec_corrected(raw0[ch * AT42QT_KEYS_PER_DEVICE + j], samples@[j]),
                        base0[ch * AT42QT_KEYS_PER_DEVICE + j],
                    ),
                forall|i: int|
                    0 <= i < TOTAL_QT_KEYS && !(ch * AT42QT_KEYS_PER_DEVICE <= i < ch
                        * AT42QT_KEYS_PER_DEVICE + k) ==> self@.raw[i] == raw0[i] && self@.deltas[i]
                        == deltas0[i],
                *diag == spec_line_diag(diag0, raw0, base0, samples@, ch as int, k as nat),
            decreases AT42QT_KEYS_PER_DEVICE - k,
        {
            let sid = ch * AT42QT_KEYS_PER_DEVICE + k;
            let prev = self.raw_value[sid];
            let corrected = corrected_raw(prev, samples[k]);
            self.raw_value.set(sid, corrected);
            let delta = delta_value(corrected, self.baseline[sid]);
            self.deltas.set(sid, delta);
            if delta > DIAGNOSTIC_THRESHOLD {
                *diag = TouchDiagnostics {
                    key: sid as u16,
                    baseline: self.baseline[sid],
                    previous_raw: prev,
                    corrected_raw: corrected,
                    active: true,
                };
            }
            k = k + 1;
        }
    }

    /// Stores one line's freshly read reference samples as the new
    /// baselines of that line, overwriting the previous ones; the last key
    /// of the line receives the fixed bias on top. Raw values, deltas, the
    /// other lines' baselines and the counter stay untouched.
    pub fn store_line_references(&mut self, ch: usize, samples: &Vec<u16>)
        requires
            old(self).wf(),
            ch < TOTAL_CHANNELS,
            samples@.len() == AT42QT_KEYS_PER_DEVICE,
        ensures
            final(self).wf(),
            final(self)@.raw == old(self)@.raw,
            final(self)@.deltas == old(self)@.deltas,
            final(self)@.counter == old(self)@.counter,
            forall|k: int|
                0 <= k < AT42QT_KEYS_PER_DEVICE - 1 ==> final(self)@.baseline[ch
                    * AT42QT_KEYS_PER_DEVICE + k] == samples@[k],
            final(self)@.baseline[ch * AT42QT_KEYS_PER_DEVICE + (AT42QT_KEYS_PER_DEVICE - 1)]
                == spec_biased(samples@[AT42QT_KEYS_PER_DEVICE - 1]),
            forall|i: int|
                0 <= i < TOTAL_QT_KEYS && !(ch * AT42QT_KEYS_PER_DEVICE <= i < ch
                    * AT42QT_KEYS_PER_DEVICE + AT42QT_KEYS_PER_DEVICE) ==> final(self)@.baseline[i]
                    == old(self)@.baseline[i],
    {
        let ghost base0 = self@.baseline;
        let mut k: usize = 0;
        while k < AT42QT_KEYS_PER_DEVICE
            invariant
                old(self).wf(),
                self.wf(),
                ch < TOTAL_CHANNELS,
                samples@.len() == AT42QT_KEYS_PER_DEVICE,
                k <= AT42QT_KEYS_PER_DEVICE,
                base0 == old(self)@.baseline,
                self@.raw == old(self)@.raw,
                self@.deltas == old(self)@.deltas,
                self@.counter == old(self)@.counter,
                forall|j: int|
                    0 <= j < k ==> self@.baseline[ch * AT42QT_KEYS_PER_DEVICE + j] == samples@[j],
                forall|i: int|
                    0 <= i < TOTAL_QT_KEYS && !(ch * AT42QT_KEYS_PER_DEVICE <= i < ch
                        * AT42QT_KEYS_PER_DEVICE + k) ==> self@.baseline[i] == base0[i],
            decreases AT42QT_KEYS_PER_DEVICE - k,
        {
            let sid = ch * AT42QT_KEYS_PER_DEVICE + k;
            self.baseline.set(sid, samples[k]);
            k = k + 1;
        }
        let last = ch * AT42QT_KEYS_PER_DEVICE + (AT42QT_KEYS_PER_DEVICE - 1);
        let biased = biased_baseline(self.baseline[last]);
        self.baseline.set(last, biased);
    }

    /// One complete scan cycle over tables of already read samples: every
    /// line's signals are corrected and turned into deltas against the
    /// pre-cycle baselines, the delta array is published as the returned
    /// snapshot, then, exactly when the cycle counter is zero, the
    /// baselines are overwritten from the reference table, and the counter
    /// advances. The tables hold one row of six samples per line, in scan
    /// order.
    pub fn run_scan_cycle(
        &mut self,
        signals: &Vec<Vec<u16>>,
        references: &Vec<Vec<u16>>,
        diag: &mut TouchDiagnostics,
    ) -> (published: Vec<u16>)
        requires
            old(self).wf(),
            signals@.len() == TOTAL_CHANNELS,
            forall|c: int|
                0 <= c < TOTAL_CHANNELS ==> (#[trigger] signals@[c])@.len()
                    == AT42QT_KEYS_PER_DEVICE,
            references@.len() == TOTAL_CHANNELS,
            forall|c: int|
                0 <= c < TOTAL_CHANNELS ==> (#[trigger] references@[c])@.len()
                    == AT42QT_KEYS_PER_DEVICE,
        ensures
            final(self).wf(),
            forall|i: int|
                0 <= i < TOTAL_QT_KEYS ==> final(self)@.raw[i] == spec_cycle_raw(
                    old(self)@.raw,
                    spec_views(signals@),
                    i,
                ),
            forall|i: int|
                0 <= i < TOTAL_QT_KEYS ==> final(self)@.deltas[i] == spec_cycle_delta(
                    old(self)@.raw,
                    old(self)@.baseline,
                    spec_views(signals@),
                    i,
                ),
            published@ == final(self)@.deltas,
            old(self)@.counter != 0 ==> final(self)@.baseline == old(self)@.baseline,
            old(self)@.counter == 0 ==> forall|i: int|
                0 <= i < TOTAL_QT_KEYS ==> final(self)@.baseline[i] == spec_recal_baseline(
                    spec_views(references@),
                    i,
                ),
            final(self)@.counter == (old(self)@.counter + 1) % (RECALIBRATION_PERIOD as nat),
            *final(diag) == spec_cycle_diag(
                *old(diag),
                old(self)@.raw,
                old(self)@.baseline,
                spec_views(signals@),
                TOTAL_CHANNELS as nat,
            ),
    {
        let ghost raw0 = self@.raw;
        let ghost base0 = self@.baseline;
        let ghost deltas0 = self@.deltas;
        let ghost diag0 = *diag;
        let ghost sigs = spec_views(signals@);
        let mut ch: usize = 0;
        while ch < TOTAL_CHANNELS
            invariant
                old(self).wf(),
                self.wf(),
                ch <= TOTAL_CHANNELS,
                signals@.len() == TOTAL_CHANNELS,
                forall|c: int|
                    0 <= c < TOTAL_CHANNELS ==> (#[trigger] signals@[c])@.len()
                        == AT42QT_KEYS_PER_DEVICE,
                raw0 == old(self)@.raw,
                base0 == old(self)@.baseline,
                deltas0 == old(self)@.deltas,
                sigs == spec_views(signals@),
                self@.baseline == base0,
                self@.counter == old(self)@.counter,
                forall|i: int|
                    0 <= i < ch * AT42QT_KEYS_PER_DEVICE ==> self@.raw[i] == spec_cycle_raw(
                        raw0,
                        sigs,
                        i,
                    ),
                forall|i: int|
                    0 <= i < ch * AT42QT_KEYS_PER_DEVICE ==> self@.deltas[i] == spec_cycle_delta(
                        raw0,
                        base0,
                        sigs,
                        i,
                    ),
                forall|i: int|
                    ch * AT42QT_KEYS_PER_DEVICE <= i < TOTAL_QT_KEYS ==> self@.raw[i] == raw0[i]
                        && self@.deltas[i] == deltas0[i],
                *diag == spec_cycle_diag(diag0, raw0, base0, sigs, ch as nat),
            decreases TOTAL_CHANNELS - ch,
        {
            let ghost raw_pre = self@.raw;
            let ghost diag_pre = *diag;
            self.process_line(ch, &signals[ch], diag);
            proof {
                assert forall|i: int|
                    ch * AT42QT_KEYS_PER_DEVICE <= i < ch * AT42QT_KEYS_PER_DEVICE
                        + AT42QT_KEYS_PER_DEVICE implies self@.raw[i] == spec_cycle_raw(raw0, sigs, i)
                    && self@.deltas[i] == spec_cycle_delta(raw0, base0, sigs, i) by {
                    let k = i - ch * AT42QT_KEYS_PER_DEVICE;
                    lemma_line_index(ch as int, k);
                }
                lemma_line_diag_agrees(
                    diag_pre,
                    raw_pre,
                    raw0,
                    base0,
                    signals@[ch as int]@,
                    ch as int,
                    AT42QT_KEYS_PER_DEVICE as nat,
                );
                assert(*diag == spec_cycle_diag(diag0, raw0, base0, sigs, (ch + 1) as nat));
            }
            ch = ch + 1;
        }
        let published = self.snapshot();
        let ghost raw1 = self@.raw;
        if self.needs_recalibration() {
            let ghost refs = spec_views(references@);
            let mut rc: usize = 0;
            while rc < TOTAL_CHANNELS
                invariant
                    old(self).wf(),
                    self.wf(),
                    rc <= TOTAL_CHANNELS,
                    references@.len() == TOTAL_CHANNELS,
                    forall|c: int|
                        0 <= c < TOTAL_CHANNELS ==> (#[trigger] references@[c])@.len()
                            == AT42QT_KEYS_PER_DEVICE,
                    refs == spec_views(references@),
                    base0 == old(self)@.baseline,
                    self@.raw == raw1,
                    self@.deltas == published@,
                    self@.counter == old(self)@.counter,
                    forall|i: int|
                        0 <= i < rc * AT42QT_KEYS_PER_DEVICE ==> self@.baseline[i]
                            == spec_recal_baseline(refs, i),
                    forall|i: int|
                        rc * AT42QT_KEYS_PER_DEVICE <= i < TOTAL_QT_KEYS ==> self@.baseline[i]
                            == base0[i],
                decreases TOTAL_CHANNELS - rc,
            {
                self.store_line_references(rc, &references[rc]);
                proof {
                    assert forall|i: int|
                        rc * AT42QT_KEYS_PER_DEVICE <= i < rc * AT42QT_KEYS_PER_DEVICE
                            + AT42QT_KEYS_PER_DEVICE implies self@.baseline[i]
                        == spec_recal_baseline(refs, i) by {
                        let k = i - rc * AT42QT_KEYS_PER_DEVICE;
                        lemma_line_index(rc as int, k);
                    }
                }
                rc = rc + 1;
            }
        }
        self.advance_cycle();
        published
    }
}

/// Law: a counter that advances by one modulo the period, starting from
/// zero, reads `n % RECALIBRATION_PERIOD` before the n-th cycle; advancing
/// the reduced counter agrees with reducing the advanced count.
pub proof fn lemma_counter_evolution(n: nat)
    ensures
        ((n % (RECALIBRATION_PERIOD as nat)) + 1) % (RECALIBRATION_PERIOD as nat) == (n + 1) % (
        RECALIBRATION_PERIOD as nat),
{
    let p = RECALIBRATION_PERIOD as int;
    lemma_fundamental_div_mod(n as int, p);
    assert((n % (RECALIBRATION_PERIOD as nat)) + 1 == (n + 1) - p * (n as int / p));
    lemma_mod_multiples_vanish_int(n as int + 1, n as int / p, p);
}

/// Cycle counter a fresh engine starts its n-th cycle with: zero at first,
/// then advanced modulo the period once per cycle, as `run_scan_cycle`
/// ensures.
pub open spec fn spec_counter_after(n: nat) -> nat
    decreases n,
{
    if n == 0 {
        0
    } else {
        (spec_counter_after((n - 1) as nat) + 1) % (RECALIBRATION_PERIOD as nat)
    }
}

/// Law: starting from a fresh engine, the counter a cycle begins with is
/// the cycle index modulo the recalibration period; so `run_scan_cycle`,
/// which sweeps the baselines exactly when that counter is zero, overwrites
/// them on the cycles 0, K, 2K, ... and leaves them untouched on every
/// other cycle.
pub proof fn lemma_counter_after_cycles(n: nat)
    ensures
        spec_counter_after(n) == n % (RECALIBRATION_PERIOD as nat),
    decreases n,
{
    if n > 0 {
        lemma_counter_after_cycles((n - 1) as nat);
        lemma_counter_evolution((n - 1) as nat);
    }
}

/// Law: the baseline sweep runs exactly on the cycles whose index is a
/// multiple of the recalibration period, i.e. cycles 0, K, 2K, and so on.
pub proof fn lemma_recalibration_cadence(n: nat)
    ensures
        (n % (RECALIBRATION_PERIOD as nat) == 0) <==> (exists|j: nat|
            n == #[trigger] (j * (RECALIBRATION_PERIOD as nat))),
{
    let p = RECALIBRATION_PERIOD as int;
    if n % (RECALIBRATION_PERIOD as nat) == 0 {
        lemma_fundamental_div_mod(n as int, p);
        assert(n == (n as int / p) * p) by (nonlinear_arith)
            requires
                n == p * (n as int / p) + n as int % p,
                n as int % p == 0,
        ;
        assert(n == ((n as int / p) as nat) * (RECALIBRATION_PERIOD as nat));
    }
    if exists|j: nat| n == #[trigger] (j * (RECALIBRATION_PERIOD as nat)) {
        let j = choose|j: nat| n == #[trigger] (j * (RECALIBRATION_PERIOD as nat));
        lemma_mod_multiples_basic(j as int, p);
    }
}

/// Helper: adding a multiple of the modulus does not change a remainder.
proof fn lemma_mod_multiples_vanish_int(x: int, a: int, m: int)
    requires
        m > 0,
    ensures
        (x - a * m) % m == x % m,
{
    vstd::arithmetic::div_mod::lemma_mod_multiples_vanish(-a, x, m);
    assert(m * -a + x == x - a * m) by (nonlinear_arith);
}

} // verus!
