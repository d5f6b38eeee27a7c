//! Echo suppression presets and the canceller settings they choose.

use aec3::api::config::{MaskingThresholds as OutsideMasking, Tuning as OutsideTuning};
use aec3::audio_processing::aec3::echo_canceller3::EchoCanceller3;
use vstd::prelude::*;

use crate::single::{last_bit, lemma_units, units, units_of_one, Single, ONE, ZERO};

verus! {

/// How strongly the canceller suppresses what it takes for echo.
#[derive(Clone, Copy, PartialEq, Eq, Structural, Debug)]
pub enum AecPreset {
    /// The suppressor is almost off: the voice passes unaltered.
    Transparent,
    /// Strong cancellation that still keeps near-end speech clear.
    Aggressive,
}

/// Masking thresholds of one frequency range.
#[derive(Clone, Copy, PartialEq, Eq, Structural, Debug)]
pub struct MaskingThresholds {
    pub enr_transparent: Single,
    pub enr_suppress: Single,
    pub emr_transparent: Single,
}

/// How the suppressor behaves in one of its states.
#[derive(Clone, Copy, PartialEq, Eq, Structural, Debug)]
pub struct Tuning {
    pub mask_lf: MaskingThresholds,
    pub mask_hf: MaskingThresholds,
    pub max_inc_factor: Single,
    pub max_dec_factor_lf: Single,
}

/// The settings of the echo canceller that a preset may change.
#[derive(Clone, Copy, PartialEq, Eq, Structural, Debug)]
pub struct SuppressionConfig {
    /// Suppressor behaviour while there is no dominant near-end speech.
    pub normal_tuning: Tuning,
    /// Suppressor behaviour during near-end speech.
    pub nearend_tuning: Tuning,
    /// Assumed gain of the echo path.
    pub default_gain: Single,
    /// Whether the echo return loss is bounded.
    pub bounded_erl: bool,
}

/// Masking thresholds with the given bit patterns.
pub open spec fn masking(enr_transparent: u32, enr_suppress: u32, emr_transparent: u32)
    -> MaskingThresholds {
    MaskingThresholds {
        enr_transparent: Single { bits: enr_transparent },
        enr_suppress: Single { bits: enr_suppress },
        emr_transparent: Single { bits: emr_transparent },
    }
}

/// The tuning that lets voice pass: thresholds 10, 15 and 5 in both ranges, gains that rise by at
/// most 4 and fall by at most 0.5.
pub open spec fn voice_tuning() -> Tuning {
    Tuning {
        mask_lf: masking(0x4120_0000, 0x4170_0000, 0x40a0_0000),
        mask_hf: masking(0x4120_0000, 0x4170_0000, 0x40a0_0000),
        max_inc_factor: Single { bits: 0x4080_0000 },
        max_dec_factor_lf: Single { bits: 0x3f00_0000 },
    }
}

/// The canceller's own settings for `channels` channels.
///
/// Normal state: 0.3, 0.4, 0.3 and 0.07, 0.1, 0.3, with 2 and 0.25 for one channel, 1.5 and 0.35
/// for more. Near-end state: 1.09, 1.1, 0.3 and 0.1, 0.3, 0.3, with 2 and 0.25.
pub open spec fn default_config(channels: nat) -> SuppressionConfig {
    SuppressionConfig {
        normal_tuning: Tuning {
            mask_lf: masking(0x3e99_999a, 0x3ecc_cccd, 0x3e99_999a),
            mask_hf: masking(0x3d8f_5c29, 0x3dcc_cccd, 0x3e99_999a),
            max_inc_factor: Single {
                bits: if channels > 1 {
                    0x3fc0_0000
                } else {
                    0x4000_0000
                },
            },
            max_dec_factor_lf: Single {
                bits: if channels > 1 {
                    0x3eb3_3333
                } else {
                    0x3e80_0000
                },
            },
        },
        nearend_tuning: Tuning {
            mask_lf: masking(0x3f8b_851f, 0x3f8c_cccd, 0x3e99_999a),
            mask_hf: masking(0x3dcc_cccd, 0x3e99_999a, 0x3e99_999a),
            max_inc_factor: Single { bits: 0x4000_0000 },
            max_dec_factor_lf: Single { bits: 0x3e80_0000 },
        },
        default_gain: Single { bits: ONE },
        bounded_erl: false,
    }
}

/// Calls `aec3`'s `EchoCanceller3::create_default_config` for as many render as capture channels
/// and takes over the settings that a preset may change, each number by its bits.
///
/// Trusted: that these settings are the constants of `default_config`.
#[verifier::external_body]
fn create_default_config(channels: usize) -> (r: SuppressionConfig)
    ensures
        r == default_config(channels as nat),
{
    let cfg = EchoCanceller3::create_default_config(channels, channels);
    let masks = |m: &OutsideMasking| MaskingThresholds {
        enr_transparent: Single { bits: m.enr_transparent.to_bits() },
        enr_suppress: Single { bits: m.enr_suppress.to_bits() },
        emr_transparent: Single { bits: m.emr_transparent.to_bits() },
    };
    let tuning = |t: &OutsideTuning| Tuning {
        mask_lf: masks(&t.mask_lf), mask_hf: masks(&t.mask_hf),
        max_inc_factor: Single { bits: t.max_inc_factor.to_bits() },
        max_dec_factor_lf: Single { bits: t.max_dec_factor_lf.to_bits() },
    };
    let (normal_tuning, nearend_tuning) = (tuning(&cfg.suppressor.normal_tuning), tuning(&cfg.suppressor.nearend_tuning));
    SuppressionConfig { normal_tuning, nearend_tuning, default_gain: Single { bits: cfg.ep_strength.default_gain.to_bits() }, bounded_erl: cfg.ep_strength.bounded_erl }
}

fn clear_voice() -> (r: Tuning)
    ensures
        r == voice_tuning(),
{
    let masks = MaskingThresholds {
        enr_transparent: Single { bits: 0x4120_0000 },
        enr_suppress: Single { bits: 0x4170_0000 },
        emr_transparent: Single { bits: 0x40a0_0000 },
    };
    Tuning {
        mask_lf: masks,
        mask_hf: masks,
        max_inc_factor: Single { bits: 0x4080_0000 },
        max_dec_factor_lf: Single { bits: 0x3f00_0000 },
    }
}

impl AecPreset {
    /// The presets in the order in which they are cycled.
    pub const ALL: [AecPreset; 2] = [AecPreset::Transparent, AecPreset::Aggressive];

    /// The preset's place in the cycle.
    pub open spec fn place(self) -> int {
        match self {
            AecPreset::Transparent => 0,
            AecPreset::Aggressive => 1,
        }
    }

    /// The preset that follows in the cycle.
    pub open spec fn successor(self) -> AecPreset {
        match self {
            AecPreset::Transparent => AecPreset::Aggressive,
            AecPreset::Aggressive => AecPreset::Transparent,
        }
    }

    /// The settings `cfg` under this preset.
    pub open spec fn applied(self, cfg: SuppressionConfig) -> SuppressionConfig {
        match self {
            AecPreset::Transparent => SuppressionConfig {
                normal_tuning: voice_tuning(),
                nearend_tuning: voice_tuning(),
                default_gain: Single { bits: ZERO },
                bounded_erl: true,
            },
            AecPreset::Aggressive => SuppressionConfig {
                nearend_tuning: voice_tuning(),
                ..cfg
            },
        }
    }

    /// The preset's name on screen.
    pub open spec fn words(self) -> Seq<char> {
        match self {
            AecPreset::Transparent => "Transparent"@,
            AecPreset::Aggressive => "Aggressive"@,
        }
    }

    /// The preset's name on screen.
    pub fn name(self) -> (r: &'static str)
        ensures
            r@ == self.words(),
    {
        match self {
            AecPreset::Transparent => "Transparent",
            AecPreset::Aggressive => "Aggressive",
        }
    }

    /// The preset that follows in the cycle.
    pub fn next(self) -> (r: AecPreset)
        ensures
            r == self.successor(),
    {
        let idx: usize = match self {
            AecPreset::Transparent => 0,
            AecPreset::Aggressive => 1,
        };
        AecPreset::ALL[(idx + 1) % AecPreset::ALL.len()]
    }

    /// Changes the settings `cfg` to those of this preset.
    pub fn apply_to(self, cfg: &mut SuppressionConfig)
        ensures
            *final(cfg) == self.applied(*old(cfg)),
    {
        match self {
            AecPreset::Transparent => {
                cfg.normal_tuning = clear_voice();
                cfg.nearend_tuning = clear_voice();
                cfg.default_gain = Single { bits: ZERO };
                cfg.bounded_erl = true;
            },
            AecPreset::Aggressive => {
                cfg.nearend_tuning = clear_voice();
            },
        }
    }

    /// The canceller's settings for `channels` channels under this preset.
    pub fn build_config(self, channels: usize) -> (r: SuppressionConfig)
        ensures
            r == self.applied(default_config(channels as nat)),
    {
        let mut cfg = create_default_config(channels);
        self.apply_to(&mut cfg);
        cfg
    }
}

/// Every preset stands in the list, its successor stands next to it, the last before the first,
/// and cycling comes back after as many steps as there are presets and not before.
pub proof fn law_presets_cycle(p: AecPreset)
    ensures
        AecPreset::ALL@[p.place()] == p,
        AecPreset::ALL@[(p.place() + 1) % AecPreset::ALL@.len() as int] == p.successor(),
        p.successor() != p,
        p.successor().successor() == p,
{
    let len = AecPreset::ALL@.len() as int;
    assert(len == 2);
    assert(1int % len == 1 && 2int % len == 0);
    assert(AecPreset::ALL@[0] == AecPreset::Transparent);
    assert(AecPreset::ALL@[1] == AecPreset::Aggressive);
}

/// Every preset lets near-end speech pass alike, and applying a preset twice is applying it once.
pub proof fn law_presets_protect_near_end_speech(p: AecPreset, cfg: SuppressionConfig)
    ensures
        p.applied(cfg).nearend_tuning == voice_tuning(),
        p.applied(p.applied(cfg)) == p.applied(cfg),
{
}

/// The transparent preset fixes every setting; the aggressive one changes nothing but the
/// near-end tuning.
pub proof fn law_what_presets_change(cfg: SuppressionConfig, other: SuppressionConfig)
    ensures
        AecPreset::Transparent.applied(cfg) == AecPreset::Transparent.applied(other),
        AecPreset::Aggressive.applied(cfg).normal_tuning == cfg.normal_tuning,
        AecPreset::Aggressive.applied(cfg).default_gain == cfg.default_gain,
        AecPreset::Aggressive.applied(cfg).bounded_erl == cfg.bounded_erl,
{
}

/// The tuning that lets voice pass: in both ranges the thresholds are 10, 15 and 5; the gain rises by
/// at most 4 and falls by at most one half.
pub proof fn law_voice_passes_with_these_numbers(high: bool)
    ensures
        ({
            let masks = if high {
                voice_tuning().mask_hf
            } else {
                voice_tuning().mask_lf
            };
            &&& units(masks.enr_transparent) == 10 * units_of_one()
            &&& units(masks.enr_suppress) == 15 * units_of_one()
            &&& units(masks.emr_transparent) == 5 * units_of_one()
        }),
        units(voice_tuning().max_inc_factor) == 4 * units_of_one(),
        2 * units(voice_tuning().max_dec_factor_lf) == units_of_one(),
{
    vstd::arithmetic::power2::lemma2_to64();
    lemma_units(Single { bits: 0x4120_0000 }, 130, 0x20_0000, 0x10_0000);
    assert(units(Single { bits: 0x4120_0000 }) == 10_485_760 * last_bit(130));
    lemma_units(Single { bits: 0x4170_0000 }, 130, 0x70_0000, 0x10_0000);
    assert(units(Single { bits: 0x4170_0000 }) == 15_728_640 * last_bit(130));
    assert(units_of_one() == 1_048_576 * last_bit(130));
    lemma_units(Single { bits: 0x40a0_0000 }, 129, 0x20_0000, 0x20_0000);
    assert(units(Single { bits: 0x40a0_0000 }) == 10_485_760 * last_bit(129));
    lemma_units(Single { bits: 0x4080_0000 }, 129, 0, 0x20_0000);
    assert(units(Single { bits: 0x4080_0000 }) == 8_388_608 * last_bit(129));
    assert(units_of_one() == 2_097_152 * last_bit(129));
    lemma_units(Single { bits: 0x3f00_0000 }, 126, 0, 0x100_0000);
    assert(units(Single { bits: 0x3f00_0000 }) == 8_388_608 * last_bit(126));
    assert(units_of_one() == 16_777_216 * last_bit(126));
}

/// The transparent preset lets voice pass in every state, assumes no echo, and bounds its loss,
/// whatever the settings were.
pub proof fn law_transparent_suppresses_nothing(cfg: SuppressionConfig)
    ensures
        AecPreset::Transparent.applied(cfg).normal_tuning == voice_tuning(),
        AecPreset::Transparent.applied(cfg).nearend_tuning == voice_tuning(),
        units(AecPreset::Transparent.applied(cfg).default_gain) == 0,
        AecPreset::Transparent.applied(cfg).bounded_erl,
{
}

/// The presets are told apart on screen.
pub proof fn law_presets_have_their_names()
    ensures
        AecPreset::Transparent.words() == "Transparent"@,
        AecPreset::Aggressive.words() == "Aggressive"@,
        AecPreset::Transparent.words() != AecPreset::Aggressive.words(),
{
    reveal_strlit("Transparent");
    reveal_strlit("Aggressive");
    assert("Transparent"@.len() != "Aggressive"@.len());
}

} // verus!
