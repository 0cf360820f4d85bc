//! Uniform parameters of the FDTD shaders and their byte encoding.

use vstd::prelude::*;

verus! {

/// Bit pattern of the single-precision value `0.0`.
pub const F32_ZERO: u32 = 0x0000_0000;

/// Bit pattern of the single-precision value `0.5`.
pub const F32_HALF: u32 = 0x3F00_0000;

/// Bit pattern of the single-precision value `1.0`.
pub const F32_ONE: u32 = 0x3F80_0000;

/// Bit pattern of the single-precision value `2.0`.
pub const F32_TWO: u32 = 0x4000_0000;

/// Bit pattern of the single-precision value `2.25`.
pub const F32_TWO_AND_QUARTER: u32 = 0x4010_0000;

/// Bit pattern of the single-precision value `4.0`.
pub const F32_FOUR: u32 = 0x4080_0000;

/// Bit pattern of the single-precision value nearest to `0.08`.
pub const F32_FREQ_DEFAULT: u32 = 0x3DA3_D70A;

/// Bit pattern of the single-precision value `20.0`.
pub const F32_TWENTY: u32 = 0x41A0_0000;

/// Bit pattern of the single-precision value `50.0`.
pub const F32_FIFTY: u32 = 0x4248_0000;

/// Bit pattern of the single-precision value `60.0`.
pub const F32_SIXTY: u32 = 0x4270_0000;

/// Source waveform code: continuous wave.
pub const SOURCE_CW: u32 = 0;

/// Source waveform code: Gaussian pulse.
pub const SOURCE_PULSE: u32 = 1;

/// Render mode code: signed field `Ez`.
pub const RENDER_FIELD: u32 = 0;

/// Render mode code: intensity `|Ez|^2`.
pub const RENDER_INTENSITY: u32 = 1;

/// The uniform block read by every shader pass, laid out as 20 consecutive
/// 32-bit words in field order.
///
/// Fields documented as "f32" hold the IEEE-754 bit pattern of a
/// single-precision number; the others are plain unsigned integers.
#[derive(Clone, Copy, Debug)]
pub struct SimParams {
    /// f32: time step.
    pub dt: u32,
    /// f32: cell width.
    pub dx: u32,
    /// f32: cell height.
    pub dy: u32,
    /// f32: simulated time.
    pub time: u32,
    /// Grid width in cells.
    pub width: u32,
    /// Grid height in cells.
    pub height: u32,
    /// Waveform of the sources: `SOURCE_CW` or `SOURCE_PULSE`.
    pub source_type: u32,
    /// f32: source frequency in cycles per time unit.
    pub source_freq: u32,
    /// f32: source amplitude.
    pub source_amp: u32,
    /// f32: source phase.
    pub source_phase: u32,
    /// f32: source angle in radians.
    pub source_angle: u32,
    /// f32: source width.
    pub source_width: u32,
    /// f32: pulse width.
    pub pulse_width: u32,
    /// f32: pulse delay.
    pub pulse_delay: u32,
    /// `RENDER_FIELD` or `RENDER_INTENSITY`.
    pub render_mode: u32,
    /// f32: display gain.
    pub display_contrast: u32,
    /// 1 when the next step must clear the field textures.
    pub clear_sim: u32,
    /// Padding word.
    pub pad1: u32,
    /// Padding word.
    pub pad2: u32,
    /// Padding word.
    pub pad3: u32,
}

/// The parameters a fresh simulation starts from (on a 512 x 512 grid).
pub open spec fn default_params() -> SimParams {
    SimParams {
        dt: F32_HALF,
        dx: F32_ONE,
        dy: F32_ONE,
        time: F32_ZERO,
        width: 512,
        height: 512,
        source_type: SOURCE_CW,
        source_freq: F32_FREQ_DEFAULT,
        source_amp: F32_TWO,
        source_phase: F32_ZERO,
        source_angle: F32_ZERO,
        source_width: F32_FIFTY,
        pulse_width: F32_TWENTY,
        pulse_delay: F32_SIXTY,
        render_mode: RENDER_FIELD,
        display_contrast: F32_HALF,
        clear_sim: 0,
        pad1: 0,
        pad2: 0,
        pad3: 0,
    }
}

impl Default for SimParams {
    /// A time step of 0.5 (below the Courant limit 1/sqrt(2) for unit cells),
    /// unit cells, a 512 x 512 grid and a continuous-wave source of frequency
    /// 0.08 and amplitude 2.
    fn default() -> (p: SimParams)
        ensures
            p == default_params(),
    {
        SimParams {
            dt: F32_HALF,
            dx: F32_ONE,
            dy: F32_ONE,
            time: F32_ZERO,
            width: 512,
            height: 512,
            source_type: SOURCE_CW,
            source_freq: F32_FREQ_DEFAULT,
            source_amp: F32_TWO,
            source_phase: F32_ZERO,
            source_angle: F32_ZERO,
            source_width: F32_FIFTY,
            pulse_width: F32_TWENTY,
            pulse_delay: F32_SIXTY,
            render_mode: RENDER_FIELD,
            display_contrast: F32_HALF,
            clear_sim: 0,
            pad1: 0,
            pad2: 0,
            pad3: 0,
        }
    }
}

/// The four bytes of `x`, least significant first.
pub open spec fn word_le(x: u32) -> Seq<u8> {
    seq![
        (x % 256) as u8,
        ((x / 256) % 256) as u8,
        ((x / 65536) % 256) as u8,
        (x / 16777216) as u8,
    ]
}

/// The four bytes of `x`, most significant first.
pub open spec fn word_be(x: u32) -> Seq<u8> {
    seq![
        (x / 16777216) as u8,
        ((x / 65536) % 256) as u8,
        ((x / 256) % 256) as u8,
        (x % 256) as u8,
    ]
}

/// The words laid end to end, each in little-endian (`little`) or big-endian
/// byte order.
pub open spec fn encode_words(words: Seq<u32>, little: bool) -> Seq<u8> {
    Seq::new(
        4 * words.len(),
        |i: int|
            if little {
                word_le(words[i / 4])[i % 4]
            } else {
                word_be(words[i / 4])[i % 4]
            },
    )
}

/// The words laid end to end in the byte order of the machine, which is
/// little- or big-endian.
pub open spec fn is_native_encoding(bytes: Seq<u8>, words: Seq<u32>) -> bool {
    bytes == encode_words(words, true) || bytes == encode_words(words, false)
}

/// Reinterprets the words as bytes with `bytemuck::cast_slice::<u32, u8>`
/// and copies them out. Claims that the result is the words in the machine's
/// byte order, which is one of the two orders, and says no more of which.
#[verifier::external_body]
pub(crate) fn words_as_bytes(words: &[u32]) -> (bytes: Vec<u8>)
    ensures
        is_native_encoding(bytes@, words@),
{
    bytemuck::cast_slice::<u32, u8>(words).to_vec()
}

impl SimParams {
    /// The 20 words of the uniform block, in field order.
    pub open spec fn words(self) -> Seq<u32> {
        seq![
            self.dt, self.dx, self.dy, self.time, self.width, self.height,
            self.source_type, self.source_freq, self.source_amp, self.source_phase,
            self.source_angle, self.source_width, self.pulse_width, self.pulse_delay,
            self.render_mode, self.display_contrast, self.clear_sim,
            self.pad1, self.pad2, self.pad3,
        ]
    }

    /// The uniform block as the bytes that are written to the GPU buffer.
    pub fn to_bytes(&self) -> (bytes: Vec<u8>)
        ensures
            is_native_encoding(bytes@, self.words()),
            bytes@.len() == 4 * self.words().len(),
    {
        let words: Vec<u32> = vec![
            self.dt, self.dx, self.dy, self.time, self.width, self.height,
            self.source_type, self.source_freq, self.source_amp, self.source_phase,
            self.source_angle, self.source_width, self.pulse_width, self.pulse_delay,
            self.render_mode, self.display_contrast, self.clear_sim,
            self.pad1, self.pad2, self.pad3,
        ];
        assert(words@ =~= self.words());
        let bytes = words_as_bytes(words.as_slice());
        bytes
    }
}

} // verus!
