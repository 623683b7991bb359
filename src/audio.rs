//! Integer planning for audio normalization. Resampling by linear
//! interpolation is planned here exactly, as rational source positions; the
//! caller applies the plan to its floating-point samples. The interpolation
//! is an approximation good enough for speech, not for audio fidelity.

use vstd::prelude::*;

verus! {

/// The sample rate that speech recognition expects.
pub const TARGET_SAMPLE_RATE: u32 = 16000;

/// The number of output samples when `n` samples are resampled from
/// `from_rate` to `to_rate`: `ceil(n * to_rate / from_rate)`.
pub open spec fn resampled_len(n: nat, from_rate: nat, to_rate: nat) -> nat
    recommends
        from_rate > 0,
{
    ((n * to_rate + from_rate - 1) as nat / from_rate) as nat
}

/// How output sample `i` is formed from the input.
#[derive(Debug, Clone, Copy, PartialEq, Eq)]
pub enum Tap {
    /// Input sample `idx`, as it is.
    Hold { idx: usize },
    /// `input[idx] * (1 - w) + input[idx + 1] * w` with `w = num / den`.
    Interpolate { idx: usize, num: u64, den: u64 },
}

/// The tap of output sample `i` for `n` inputs: its source position is
/// `i * from_rate / to_rate`; whole positions take the input sample there,
/// others interpolate between the two inputs around them, and the last
/// input is held where there is no input after it.
pub open spec fn tap_of(i: nat, n: nat, from_rate: nat, to_rate: nat) -> Tap
    recommends
        to_rate > 0,
{
    let idx = (i * from_rate) / to_rate;
    let num = (i * from_rate) % to_rate;
    if num == 0 || idx + 1 >= n {
        Tap::Hold { idx: idx as usize }
    } else {
        Tap::Interpolate { idx: idx as usize, num: num as u64, den: to_rate as u64 }
    }
}

/// The plan of a resample: one tap per output sample. At equal rates, and
/// for an empty input, the plan copies the input as it is.
pub open spec fn plan_of(n: nat, from_rate: nat, to_rate: nat) -> Seq<Tap> {
    if from_rate == to_rate || n == 0 {
        Seq::new(n, |i: int| Tap::Hold { idx: i as usize })
    } else {
        Seq::new(resampled_len(n, from_rate, to_rate), |i: int| tap_of(i as nat, n, from_rate, to_rate))
    }
}

proof fn lemma_source_in_range(i: nat, n: nat, from_rate: nat, to_rate: nat)
    requires
        from_rate > 0,
        to_rate > 0,
        i < resampled_len(n, from_rate, to_rate),
    ensures
        (i * from_rate) / to_rate < n,
{
    let m: nat = (n * to_rate + from_rate - 1) as nat;
    assert(i * from_rate < n * to_rate) by (nonlinear_arith)
        requires
            i < m / from_rate,
            m == n * to_rate + from_rate - 1,
            from_rate > 0,
    {
        assert(i + 1 <= m / from_rate);
        assert((i + 1) * from_rate <= (m / from_rate) * from_rate);
        assert((m / from_rate) * from_rate <= m);
    }
    assert((i * from_rate) / to_rate < n) by (nonlinear_arith)
        requires
            i * from_rate < n * to_rate,
            to_rate > 0,
    {
        assert((i * from_rate) / to_rate * to_rate <= i * from_rate);
    }
}

/// Plans the resample of `n` samples from `from_rate` to `to_rate`. Every
/// tap reads inside the input, so no output falls past its end.
pub fn resample_plan(n: usize, from_rate: u32, to_rate: u32) -> (r: Vec<Tap>)
    requires
        from_rate > 0,
        resampled_len(n as nat, from_rate as nat, to_rate as nat) <= usize::MAX,
    ensures
        r@ == plan_of(n as nat, from_rate as nat, to_rate as nat),
        forall|k: int|
            0 <= k < r@.len() ==> match #[trigger] r@[k] {
                Tap::Hold { idx } => idx < n,
                Tap::Interpolate { idx, num, den } => idx + 1 < n && 0 < num < den,
            },
{
    let mut r: Vec<Tap> = Vec::new();
    if from_rate == to_rate || n == 0 {
        let mut i: usize = 0;
        while i < n
            invariant
                i <= n,
                r@ =~= Seq::new(i as nat, |j: int| Tap::Hold { idx: j as usize }),
            decreases n - i,
        {
            r.push(Tap::Hold { idx: i });
            i = i + 1;
        }
        return r;
    }
    if to_rate == 0 {
        assert((n as nat * 0 + from_rate as nat - 1) as nat / (from_rate as nat) == 0) by (nonlinear_arith)
            requires
                from_rate > 0,
        ;
        assert(resampled_len(n as nat, from_rate as nat, 0) == 0);
        assert(r@ =~= plan_of(n as nat, from_rate as nat, to_rate as nat));
        return r;
    }
    let from = from_rate as u128;
    let to = to_rate as u128;
    assert(n * to_rate <= 0xffff_ffff_ffff_ffff * 0xffff_ffffu128) by (nonlinear_arith)
        requires
            n <= 0xffff_ffff_ffff_ffffu128,
            to_rate <= 0xffff_ffffu128,
    ;
    let total: u128 = n as u128 * to;
    let out_len = ((total + from - 1) / from) as usize;
    let ghost len = resampled_len(n as nat, from_rate as nat, to_rate as nat);
    assert(out_len == len);
    let mut i: usize = 0;
    while i < out_len
        invariant
            from_rate != to_rate,
            n > 0,
            from_rate > 0,
            to_rate > 0,
            from == from_rate,
            to == to_rate,
            out_len == len,
            len == resampled_len(n as nat, from_rate as nat, to_rate as nat),
            i <= out_len,
            r@ =~= Seq::new(i as nat, |j: int| tap_of(j as nat, n as nat, from_rate as nat, to_rate as nat)),
            forall|k: int|
                0 <= k < r@.len() ==> match #[trigger] r@[k] {
                    Tap::Hold { idx } => idx < n,
                    Tap::Interpolate { idx, num, den } => idx + 1 < n && 0 < num < den,
                },
        decreases out_len - i,
    {
        proof {
            lemma_source_in_range(i as nat, n as nat, from_rate as nat, to_rate as nat);
        }
        assert(i * from_rate <= 0xffff_ffff_ffff_ffff * 0xffff_ffffu128) by (nonlinear_arith)
            requires
                i <= 0xffff_ffff_ffff_ffffu128,
                from_rate <= 0xffff_ffffu128,
        ;
        let pos: u128 = i as u128 * from;
        let idx = (pos / to) as usize;
        let num = pos % to;
        assert(num < to);
        let tap = if num == 0 || idx + 1 >= n {
            Tap::Hold { idx }
        } else {
            Tap::Interpolate { idx, num: num as u64, den: to_rate as u64 }
        };
        r.push(tap);
        i = i + 1;
    }
    r
}

/// `min(a * b * c, usize::MAX)`.
pub open spec fn saturated_product(a: nat, b: nat, c: nat) -> nat {
    if a * b * c > usize::MAX {
        usize::MAX as nat
    } else {
        a * b * c
    }
}

/// The number of interleaved source samples that make up at most
/// `max_seconds` of audio: seconds times rate times channels, saturating at
/// the largest `usize`.
pub fn chunk_sample_budget(max_seconds: u32, source_rate: u32, channels: usize) -> (r: usize)
    ensures
        r == saturated_product(max_seconds as nat, source_rate as nat, channels as nat),
{
    let a = max_seconds as usize;
    let b = source_rate as usize;
    match a.checked_mul(b) {
        Some(ab) => match ab.checked_mul(channels) {
            Some(abc) => abc,
            None => usize::MAX,
        },
        None => {
            if channels == 0 {
                assert(a * b * channels == 0) by (nonlinear_arith)
                    requires
                        channels == 0,
                ;
                0
            } else {
                assert(a * b * channels >= a * b) by (nonlinear_arith)
                    requires
                        channels >= 1,
                ;
                usize::MAX
            }
        },
    }
}

/// `max(1, available * clamp(cpu_percent, 1, 100) / 100)`.
pub open spec fn thread_count_spec(available: nat, cpu_percent: nat) -> nat {
    let pct = if cpu_percent < 1 {
        1
    } else if cpu_percent > 100 {
        100
    } else {
        cpu_percent
    };
    let n = available * pct / 100;
    if n < 1 {
        1
    } else {
        n
    }
}

/// The number of recognition threads to use: the configured share of the
/// available cores, at least one.
pub fn thread_count(available: u32, cpu_percent: u32) -> (r: u32)
    ensures
        r == thread_count_spec(available as nat, cpu_percent as nat),
{
    let pct: u64 = if cpu_percent < 1 {
        1
    } else if cpu_percent > 100 {
        100
    } else {
        cpu_percent as u64
    };
    assert(available as u64 * pct <= 0xffff_ffff * 100) by (nonlinear_arith)
        requires
            available <= 0xffff_ffff,
            pct <= 100,
    ;
    let n = available as u64 * pct / 100;
    assert(n <= available) by (nonlinear_arith)
        requires
            n == available as u64 * pct / 100,
            pct <= 100,
    ;
    if n < 1 {
        1
    } else {
        n as u32
    }
}

/// The position shown for a raw progress reading: negative readings (not
/// started) show as zero.
pub fn progress_position(raw: i32) -> (r: u64)
    ensures
        r == (if raw < 0 {
            0
        } else {
            raw as int
        }),
{
    if raw < 0 {
        0
    } else {
        raw as u64
    }
}

/// Output length of resampling follows `ceil(n * to_rate / from_rate)`, the
/// first output is the first input as it is, and at equal rates or on an
/// empty input the plan copies the input.
pub proof fn lemma_resample_shape(n: nat, from_rate: nat, to_rate: nat)
    requires
        from_rate > 0,
        to_rate > 0,
    ensures
        plan_of(n, from_rate, to_rate).len() == resampled_len(n, from_rate, to_rate),
        n > 0 ==> plan_of(n, from_rate, to_rate)[0] == (Tap::Hold { idx: 0 }),
        from_rate == to_rate || n == 0 ==> forall|i: int|
            0 <= i < n ==> #[trigger] plan_of(n, from_rate, to_rate)[i] == (Tap::Hold {
                idx: i as usize,
            }),
{
    if from_rate == to_rate {
        assert((n * to_rate + from_rate - 1) as nat / from_rate == n) by (nonlinear_arith)
            requires
                from_rate == to_rate,
                to_rate > 0,
        {
            assert(n * to_rate + from_rate - 1 == n * from_rate + (from_rate - 1));
        }
    }
    if n == 0 {
        assert((from_rate - 1) as nat / from_rate == 0) by (nonlinear_arith)
            requires
                from_rate > 0,
        ;
    }
    if n > 0 && from_rate != to_rate {
        assert(resampled_len(n, from_rate, to_rate) > 0) by (nonlinear_arith)
            requires
                n > 0,
                to_rate > 0,
                from_rate > 0,
                resampled_len(n, from_rate, to_rate) == (n * to_rate + from_rate - 1) as nat
                    / from_rate,
        {
            assert(n * to_rate >= 1);
            assert(n * to_rate + from_rate - 1 >= from_rate);
        }
        assert(0 * from_rate == 0);
    }
}

/// What reading the next packet of the container gave.
#[derive(Debug, Clone, Copy, PartialEq, Eq)]
pub enum ReadEvent {
    /// A packet; `ours` when it belongs to the selected track.
    Packet { ours: bool },
    /// The reader asks for a reset; reading goes on.
    ResetRequired,
    /// The end of the stream, or an error that ends it.
    Ended,
}

/// What decoding a packet gave.
#[derive(Debug, Clone, Copy, PartialEq, Eq)]
pub enum DecodeEvent {
    /// `samples` interleaved samples were decoded and appended.
    Decoded { samples: usize },
    /// The packet was corrupt; it is skipped.
    BadPacket,
    /// An error that ends the stream.
    Failed,
}

/// The decisions of a streaming decoder: it reads packets until a chunk
/// holds at least its sample budget or the source ends, skips packets of
/// other tracks and packets that fail to decode, and once the source has
/// ended yields no further chunk.
pub struct ChunkCursor {
    finished: bool,
    budget: usize,
    collected: usize,
}

impl ChunkCursor {
    pub closed spec fn finished_spec(&self) -> bool {
        self.finished
    }

    /// The number of interleaved samples the current chunk aims for.
    pub closed spec fn budget_spec(&self) -> nat {
        self.budget as nat
    }

    /// The number of interleaved samples collected in the current chunk.
    pub closed spec fn collected_spec(&self) -> nat {
        self.collected as nat
    }

    /// A cursor over a source that has not been read yet.
    pub fn new() -> (r: Self)
        ensures
            !r.finished_spec(),
            r.collected_spec() == 0,
    {
        ChunkCursor { finished: false, budget: 0, collected: 0 }
    }

    /// Begins a chunk of at most `max_seconds` of source audio; `false` when
    /// the source has ended, and no chunk is read.
    pub fn start_chunk(&mut self, max_seconds: u32, source_rate: u32, channels: usize) -> (r: bool)
        ensures
            r == !old(self).finished_spec(),
            final(self).finished_spec() == old(self).finished_spec(),
            final(self).collected_spec() == 0,
            final(self).budget_spec() == saturated_product(
                max_seconds as nat,
                source_rate as nat,
                channels as nat,
            ),
    {
        self.budget = chunk_sample_budget(max_seconds, source_rate, channels);
        self.collected = 0;
        !self.finished
    }

    /// Whether another packet is to be read for the current chunk.
    pub fn wants_more(&self) -> (r: bool)
        ensures
            r == (!self.finished_spec() && self.collected_spec() < self.budget_spec()),
    {
        !self.finished && self.collected < self.budget
    }

    /// Takes in what reading a packet gave; `true` when the packet is to be
    /// decoded.
    pub fn on_read(&mut self, ev: ReadEvent) -> (r: bool)
        ensures
            r == (ev == ReadEvent::Packet { ours: true }),
            final(self).finished_spec() == (old(self).finished_spec() || ev == ReadEvent::Ended),
            final(self).collected_spec() == old(self).collected_spec(),
            final(self).budget_spec() == old(self).budget_spec(),
    {
        match ev {
            ReadEvent::Packet { ours } => ours,
            ReadEvent::ResetRequired => false,
            ReadEvent::Ended => {
                self.finished = true;
                false
            },
        }
    }

    /// Takes in what decoding a packet gave.
    pub fn on_decode(&mut self, ev: DecodeEvent)
        ensures
            final(self).finished_spec() == (old(self).finished_spec() || ev == DecodeEvent::Failed),
            final(self).budget_spec() == old(self).budget_spec(),
            final(self).collected_spec() == match ev {
                DecodeEvent::Decoded { samples } => saturated_product(
                    old(self).collected_spec() + samples as nat,
                    1,
                    1,
                ),
                _ => old(self).collected_spec(),
            },
    {
        match ev {
            DecodeEvent::Decoded { samples } => {
                self.collected = match self.collected.checked_add(samples) {
                    Some(c) => c,
                    None => usize::MAX,
                };
            },
            DecodeEvent::BadPacket => {},
            DecodeEvent::Failed => {
                self.finished = true;
            },
        }
    }

    /// Whether the current chunk is to be returned: it holds samples. An
    /// empty chunk means the source is exhausted.
    pub fn chunk_ready(&self) -> (r: bool)
        ensures
            r == (self.collected_spec() > 0),
    {
        self.collected > 0
    }
}

} // verus!
