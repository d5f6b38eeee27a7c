use ratatui::layout::{Constraint, Direction, Layout, Rect};
use rustdac::console::{Console, Key, KeyAction};
use rustdac::layout::{panels_in, screen_layout, Area};
use rustdac::panels::{
    ambient_shade, ambient_text, bar_fill, bar_text, footer_rows, header_shade, header_text,
    level_db, sleep_label, Shade, BAR_LEN, BAR_STEPS,
};
use rustdac::preset::AecPreset;
use rustdac::single::Single;

fn single(x: f32) -> Single {
    Single { bits: x.to_bits() }
}

#[test]
fn header_names_everything() {
    assert_eq!(
        header_text(4711, "1.25", AecPreset::Aggressive, false, false),
        "RustDAC TUI | PID: 4711 | CPU: 1.25% | AEC: Aggressive | ▶  ACTIVE        | 's' cycle 'w' wake"
    );
    assert_eq!(
        header_text(0, "0.00", AecPreset::Transparent, true, false),
        "RustDAC TUI | PID: 0 | CPU: 0.00% | AEC: Transparent | 💤 SILENCE SLEEP | 's' cycle 'w' wake"
    );
}

#[test]
fn missing_consumers_outrank_silence() {
    assert_eq!(sleep_label(true, true), "💤 NO CONSUMERS");
    assert_eq!(sleep_label(false, true), "💤 NO CONSUMERS");
    assert_eq!(sleep_label(true, false), "💤 SILENCE SLEEP");
    assert_eq!(sleep_label(false, false), "▶  ACTIVE       ");
    assert_eq!(header_shade(true, false), Shade::DarkGray);
    assert_eq!(header_shade(false, true), Shade::DarkGray);
    assert_eq!(header_shade(false, false), Shade::Cyan);
}

#[test]
fn ambient_line_is_laid_out_as_formatted() {
    for (db, filled) in [(-34.0f32, 8usize), (-80.0, 0), (0.0, 20), (-123.45, 0)] {
        let bar = "█".repeat(filled) + &"░".repeat(20 - filled);
        assert_eq!(bar_text(filled), bar);
        assert_eq!(
            ambient_text(&format!("{:.1}", db), filled, false, "-34.0"),
            format!(" Level: {:>6.1} dB  [{}] Threshold: {:.1} dB  ('c' to recalibrate)", db, bar, -34.0f32)
        );
        assert_eq!(
            ambient_text(&format!("{:.1}", db), filled, true, "-34.0"),
            format!(" Level: {:>6.1} dB  [{}] ⏳ CALIBRATING...", db, bar)
        );
    }
}

#[test]
fn ambient_colour_tells_silence() {
    assert_eq!(ambient_shade(true, single(0.5), single(0.02)), Shade::Yellow);
    assert_eq!(ambient_shade(false, single(0.01), single(0.02)), Shade::DarkGray);
    assert_eq!(ambient_shade(false, single(0.02), single(0.02)), Shade::Green);
    assert_eq!(ambient_shade(false, single(f32::NAN), single(0.02)), Shade::Green);
}

#[test]
fn decibels_of_nothing_are_minus_eighty() {
    assert_eq!(level_db(single(0.1), single(-20.0)), single(-20.0));
    assert_eq!(level_db(single(0.0), single(f32::NEG_INFINITY)), single(-80.0));
    assert_eq!(level_db(single(-0.0), single(f32::NEG_INFINITY)), single(-80.0));
    assert_eq!(level_db(single(f32::NAN), single(f32::NAN)), single(-80.0));
}

#[test]
fn decibels_never_fall_below_minus_eighty() {
    assert_eq!(level_db(single(0.00001), single(-100.0)), single(-80.0));
    assert_eq!(level_db(single(f32::MIN_POSITIVE), single(-758.6)), single(-80.0));
    assert_eq!(level_db(single(0.0001), single(-80.0)), single(-80.0));
    assert_eq!(level_db(single(0.0002), single(-73.97)), single(-73.97));
    assert_eq!(level_db(single(0.5), single(f32::NAN)), single(-80.0));
    let mut last = -80.0;
    for level in [0.0f32, 1e-9, 1e-5, 1e-4, 1e-3, 0.02, 0.5, 1.0, 7.0, f32::INFINITY] {
        let db = f32::from_bits(level_db(single(level), single(20.0 * level.log10())).bits);
        assert!(db >= last);
        last = db;
    }
}

#[test]
fn bar_covers_sixty_decibels() {
    let filled = |db: f32| bar_fill(single(db));
    assert_eq!(filled(f32::NEG_INFINITY), 0);
    assert_eq!(filled(-80.0), 0);
    assert_eq!(filled(-60.0), 0);
    assert_eq!(filled(-57.5), 0);
    assert_eq!(filled(-57.0), 1);
    assert_eq!(filled(-30.0), 10);
    assert_eq!(filled(-15.0), 15);
    assert_eq!(filled(-1.0), 19);
    assert_eq!(filled(0.0), 20);
    assert_eq!(filled(12.0), 20);
    assert_eq!(filled(f32::INFINITY), 20);
    assert_eq!(filled(f32::NAN), 0);
}

#[test]
fn bar_is_the_truncated_share_of_its_range() {
    let share = |db: f32| (((db + 60.0) / 60.0).clamp(0.0, 1.0) * 20.0) as usize;
    for step in BAR_STEPS {
        for bits in step - 50..step + 50 {
            assert_eq!(bar_fill(Single { bits }), share(f32::from_bits(bits)));
        }
    }
    for bits in (0..=u32::MAX).step_by(997) {
        assert_eq!(bar_fill(Single { bits }), share(f32::from_bits(bits)));
    }
    for (i, step) in BAR_STEPS.iter().enumerate() {
        let exact = 3.0 * i as f64 - 57.0;
        let step = f32::from_bits(*step) as f64;
        assert!(exact - 5e-6 < step && step <= exact);
    }
}

#[test]
fn higher_levels_fill_no_less_of_the_bar() {
    let mut last = 0;
    for tenth in -900..100 {
        let filled = bar_fill(single(tenth as f32 / 10.0));
        assert!(filled >= last);
        let bar: Vec<char> = bar_text(filled).chars().collect();
        assert_eq!(bar.len(), BAR_LEN);
        assert!(bar[..filled].iter().all(|&c| c == '█'));
        assert!(bar[filled..].iter().all(|&c| c == '░'));
        last = filled;
    }
    assert_eq!(last, BAR_LEN);
    let mut last = 0;
    for level in [0.0f32, 1e-9, 1e-4, 1e-3, 0.0015, 0.02, 0.1, 0.5, 1.0, 7.0, f32::INFINITY] {
        let filled = bar_fill(level_db(single(level), single(20.0 * level.log10())));
        assert!(filled >= last);
        last = filled;
    }
}

#[test]
fn footer_lists_the_devices() {
    let rows = footer_rows("mic", "speaker", "cable");
    assert_eq!(rows.len(), 3);
    assert_eq!((rows[0].label, rows[0].name.as_str(), rows[0].shade), ("  Real Mic      : ", "mic", Shade::Green));
    assert_eq!((rows[1].label, rows[1].name.as_str(), rows[1].shade), ("  Speaker Filter: ", "speaker", Shade::Yellow));
    assert_eq!((rows[2].label, rows[2].name.as_str(), rows[2].shade), ("  Virtual Mic   : ", "cable", Shade::Magenta));
}

fn area(x: u16, y: u16, width: u16, height: u16) -> Area {
    Area { x, y, width, height }
}

#[test]
fn panels_stand_under_each_other() {
    let layout = screen_layout(area(0, 0, 80, 24));
    assert_eq!(layout.header, area(1, 1, 78, 3));
    assert_eq!(layout.ambient, area(1, 4, 78, 3));
    assert_eq!(layout.metrics, area(1, 7, 78, 11));
    assert_eq!(layout.footer, area(1, 18, 78, 5));
}

#[test]
fn panels_fit_on_every_screen_that_is_high_enough() {
    for height in 13..200 {
        for (x, y, width) in [(0, 0, 120), (3, 5, 2), (10, 1000, 77)] {
            let layout = screen_layout(area(x, y, width, height));
            assert_eq!(layout.header, area(x + 1, y + 1, width - 2, 3));
            assert_eq!(layout.ambient, area(x + 1, y + 4, width - 2, 3));
            assert_eq!(layout.metrics, area(x + 1, y + 7, width - 2, height - 13));
            assert_eq!(layout.footer, area(x + 1, y + height - 6, width - 2, 5));
        }
    }
    let layout = screen_layout(area(0, 0, 65535, 65535));
    assert_eq!(layout.metrics, area(1, 7, 65533, 65522));
    assert_eq!(layout.footer, area(1, 65529, 65533, 5));
}

#[test]
fn rows_are_handed_out_from_top_to_bottom() {
    let rows = vec![area(0, 1, 9, 1), area(0, 2, 9, 2), area(0, 4, 9, 3), area(0, 7, 9, 4)];
    let layout = panels_in(&rows);
    assert_eq!(layout.header, rows[0]);
    assert_eq!(layout.ambient, rows[1]);
    assert_eq!(layout.metrics, rows[2]);
    assert_eq!(layout.footer, rows[3]);
}

#[test]
fn cramped_screen_keeps_its_edges() {
    for height in 0..13 {
        let layout = screen_layout(area(4, 2, 30, height));
        let rects = Layout::default()
            .direction(Direction::Vertical)
            .margin(1)
            .constraints([
                Constraint::Length(3),
                Constraint::Length(3),
                Constraint::Min(0),
                Constraint::Length(5),
            ])
            .split(Rect::new(4, 2, 30, height));
        for (panel, rect) in [layout.header, layout.ambient, layout.metrics, layout.footer].iter().zip(rects.iter()) {
            assert_eq!((panel.x, panel.width), (rect.x, rect.width));
            assert_eq!((panel.y, panel.height), (rect.y, rect.height));
            let (top, bottom) = if height < 2 { (0, 0) } else { (3, height + 1) };
            assert!(top <= panel.y);
            assert!(panel.y + panel.height <= bottom);
            assert_eq!(layout.header.y, top);
            assert_eq!(layout.footer.y + layout.footer.height, bottom);
            let expected = if height < 2 { (0, 0) } else { (5, 28) };
            assert_eq!((panel.x, panel.width), expected);
        }
        assert_eq!(layout.ambient.y, layout.header.y + layout.header.height);
        assert_eq!(layout.metrics.y, layout.ambient.y + layout.ambient.height);
        assert_eq!(layout.footer.y, layout.metrics.y + layout.metrics.height);
        assert!(layout.header.height <= 3 && layout.ambient.height <= 3);
        assert!(layout.metrics.height == 0 && layout.footer.height <= 5);
    }
}

#[test]
fn keys_ask_for_what_they_say() {
    let mut console = Console::new();
    assert_eq!(console.preset, AecPreset::Aggressive);
    assert_eq!(console.on_key(true, Key::Char('q'), false), KeyAction::Quit);
    assert_eq!(console.on_key(true, Key::Char('w'), false), KeyAction::Wake);
    assert_eq!(console.on_key(true, Key::Char('c'), false), KeyAction::Calibrate);
    assert_eq!(console.on_key(true, Key::Char('c'), true), KeyAction::Nothing);
    assert_eq!(console.on_key(true, Key::Char('x'), false), KeyAction::Nothing);
    assert_eq!(console.on_key(true, Key::Other, false), KeyAction::Nothing);
    assert_eq!(console.on_key(false, Key::Char('q'), false), KeyAction::Nothing);
    assert_eq!(console.preset, AecPreset::Aggressive);
}

#[test]
fn preset_key_cycles() {
    let mut console = Console::new();
    assert_eq!(console.on_key(true, Key::Char('s'), false), KeyAction::SendPreset(AecPreset::Transparent));
    assert_eq!(console.preset, AecPreset::Transparent);
    assert_eq!(console.on_key(false, Key::Char('s'), false), KeyAction::Nothing);
    assert_eq!(console.on_key(true, Key::Char('s'), false), KeyAction::SendPreset(AecPreset::Aggressive));
    assert_eq!(console.preset, AecPreset::Aggressive);
}

#[test]
fn latest_metrics_are_kept() {
    let mut console = Console::new();
    assert_eq!(console.metrics, "Waiting for AEC metrics...");
    console.receive_metrics(vec![]);
    assert_eq!(console.metrics, "Waiting for AEC metrics...");
    console.receive_metrics(vec!["one".to_string(), "two".to_string()]);
    assert_eq!(console.metrics, "two");
}
