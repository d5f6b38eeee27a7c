use aec3::audio_processing::aec3::echo_canceller3::EchoCanceller3;
use rustdac::preset::{AecPreset, MaskingThresholds, SuppressionConfig, Tuning};
use rustdac::single::Single;

fn single(x: f32) -> Single {
    Single { bits: x.to_bits() }
}

fn tuning(lf: [f32; 3], hf: [f32; 3], inc: f32, dec: f32) -> Tuning {
    let masks = |m: [f32; 3]| MaskingThresholds {
        enr_transparent: single(m[0]),
        enr_suppress: single(m[1]),
        emr_transparent: single(m[2]),
    };
    Tuning {
        mask_lf: masks(lf),
        mask_hf: masks(hf),
        max_inc_factor: single(inc),
        max_dec_factor_lf: single(dec),
    }
}

fn voice() -> Tuning {
    tuning([10.0, 15.0, 5.0], [10.0, 15.0, 5.0], 4.0, 0.5)
}

#[test]
fn transparent_preset_fixes_everything() {
    for channels in 1..4 {
        assert_eq!(
            AecPreset::Transparent.build_config(channels),
            SuppressionConfig {
                normal_tuning: voice(),
                nearend_tuning: voice(),
                default_gain: single(0.0),
                bounded_erl: true,
            }
        );
    }
}

#[test]
fn aggressive_preset_keeps_the_normal_tuning() {
    assert_eq!(
        AecPreset::Aggressive.build_config(2),
        SuppressionConfig {
            normal_tuning: tuning([0.3, 0.4, 0.3], [0.07, 0.1, 0.3], 1.5, 0.35),
            nearend_tuning: voice(),
            default_gain: single(1.0),
            bounded_erl: false,
        }
    );
    assert_eq!(
        AecPreset::Aggressive.build_config(1).normal_tuning,
        tuning([0.3, 0.4, 0.3], [0.07, 0.1, 0.3], 2.0, 0.25)
    );
}

#[test]
#[allow(deprecated)]
fn settings_agree_with_the_canceller() {
    for channels in 0..5 {
        let outside = EchoCanceller3::create_default_config(channels, channels);
        let ours = AecPreset::Aggressive.build_config(channels);
        let normal = outside.suppressor.normal_tuning;
        assert_eq!(ours.normal_tuning.max_inc_factor, single(normal.max_inc_factor));
        assert_eq!(ours.normal_tuning.max_dec_factor_lf, single(normal.max_dec_factor_lf));
        assert_eq!(ours.normal_tuning.mask_lf.enr_suppress, single(normal.mask_lf.enr_suppress));
        assert_eq!(ours.normal_tuning.mask_hf.emr_transparent, single(normal.mask_hf.emr_transparent));
        assert_eq!(ours.default_gain, single(outside.ep_strength.default_gain));
        assert_eq!(ours.bounded_erl, outside.ep_strength.bounded_erl);
        let nearend = outside.suppressor.nearend_tuning;
        assert_eq!(
            tuning([1.09, 1.1, 0.3], [0.1, 0.3, 0.3], 2.0, 0.25),
            tuning(
                [nearend.mask_lf.enr_transparent, nearend.mask_lf.enr_suppress, nearend.mask_lf.emr_transparent],
                [nearend.mask_hf.enr_transparent, nearend.mask_hf.enr_suppress, nearend.mask_hf.emr_transparent],
                nearend.max_inc_factor,
                nearend.max_dec_factor_lf,
            )
        );
    }
}

#[test]
fn applying_a_preset_twice_is_applying_it_once() {
    for preset in AecPreset::ALL {
        let mut cfg = AecPreset::Aggressive.build_config(2);
        preset.apply_to(&mut cfg);
        let once = cfg;
        preset.apply_to(&mut cfg);
        assert_eq!(cfg, once);
        assert_eq!(cfg.nearend_tuning, voice());
    }
}

#[test]
fn presets_cycle() {
    assert_eq!(AecPreset::Transparent.next(), AecPreset::Aggressive);
    assert_eq!(AecPreset::Aggressive.next(), AecPreset::Transparent);
    assert_eq!(AecPreset::ALL, [AecPreset::Transparent, AecPreset::Aggressive]);
    assert_eq!(AecPreset::Transparent.name(), "Transparent");
    assert_eq!(AecPreset::Aggressive.name(), "Aggressive");
}
