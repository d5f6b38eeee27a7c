//! What the screen shows.

use vstd::prelude::*;

use crate::preset::AecPreset;
use crate::single::{
    last_bit, law_order_is_that_of_the_values, lemma_units, units, units_of_one, Single, ZERO,
};
use crate::text::{
    align_right, decimal, decimal_text, holds, law_right_aligned_text_ends_the_column,
    law_text_holds_its_parts, repeat_text, repeated, right_aligned,
};

verus! {

/// Characters of the level bar.
pub const BAR_LEN: usize = 20;

/// Bit patterns of the decibels from which the characters of the level bar are full: it covers the
/// range from -60 to 0, so they are -57, -54 and so on up to 0. In single precision a number that
/// is a few millionths short of one of the later steps is rounded up to it.
pub const BAR_STEPS: [u32; 20] = [
    0xc264_0000,
    0xc258_0000,
    0xc24c_0000,
    0xc240_0000,
    0xc234_0000,
    0xc228_0000,
    0xc21c_0000,
    0xc210_0000,
    0xc204_0000,
    0xc1f0_0000,
    0xc1d8_0001,
    0xc1c0_0001,
    0xc1a8_0001,
    0xc190_0001,
    0xc170_0002,
    0xc140_0002,
    0xc110_0005,
    0xc0c0_0004,
    0xc040_0008,
    0xb600_0000,
];

/// Bit pattern of -60.0, the decibels at the lower end of the level bar.
pub const BAR_LOW_DB: u32 = 0xc270_0000;

/// Bit pattern of -80.0, the fewest decibels that a level is shown as.
pub const SILENT_DB: u32 = 0xc2a0_0000;

/// A colour of the terminal.
#[derive(Clone, Copy, PartialEq, Eq, Structural, Debug)]
pub enum Shade {
    Cyan,
    DarkGray,
    Green,
    Magenta,
    Yellow,
}

/// Whether the processing thread is at work, in words.
pub open spec fn sleep_words(sleeping: bool, no_consumers: bool) -> Seq<char> {
    if no_consumers {
        "\u{1f4a4} NO CONSUMERS"@
    } else if sleeping {
        "\u{1f4a4} SILENCE SLEEP"@
    } else {
        "\u{25b6}  ACTIVE       "@
    }
}

/// Whether the processing thread is at work, in words.
pub fn sleep_label(sleeping: bool, no_consumers: bool) -> (r: &'static str)
    ensures
        r@ == sleep_words(sleeping, no_consumers),
{
    if no_consumers {
        "\u{1f4a4} NO CONSUMERS"
    } else if sleeping {
        "\u{1f4a4} SILENCE SLEEP"
    } else {
        "\u{25b6}  ACTIVE       "
    }
}

/// The header: process, load in percent, preset and whether the thread is at work.
pub open spec fn header_line(
    pid: nat,
    load: Seq<char>,
    preset: AecPreset,
    sleeping: bool,
    no_consumers: bool,
) -> Seq<char> {
    "RustDAC TUI | PID: "@ + decimal(pid) + " | CPU: "@ + load + "% | AEC: "@ + preset.words()
        + " | "@ + sleep_words(sleeping, no_consumers) + " | 's' cycle 'w' wake"@
}

/// The header: process, load in percent, preset and whether the thread is at work.
pub fn header_text(pid: u32, load: &str, preset: AecPreset, sleeping: bool, no_consumers: bool)
    -> (r: String)
    ensures
        r@ == "RustDAC TUI | PID: "@ + decimal(pid as nat) + " | CPU: "@ + load@ + "% | AEC: "@
            + preset.words() + " | "@ + sleep_words(sleeping, no_consumers)
            + " | 's' cycle 'w' wake"@,
        r@ == header_line(pid as nat, load@, preset, sleeping, no_consumers),
{
    let mut r = "RustDAC TUI | PID: ".to_owned();
    r.append(decimal_text(pid as u64).as_str());
    r.append(" | CPU: ");
    r.append(load);
    r.append("% | AEC: ");
    r.append(preset.name());
    r.append(" | ");
    r.append(sleep_label(sleeping, no_consumers));
    r.append(" | 's' cycle 'w' wake");
    r
}

/// The colour of the header.
pub open spec fn header_colour(sleeping: bool, no_consumers: bool) -> Shade {
    if sleeping || no_consumers {
        Shade::DarkGray
    } else {
        Shade::Cyan
    }
}

/// The colour of the header.
pub fn header_shade(sleeping: bool, no_consumers: bool) -> (r: Shade)
    ensures
        r == if sleeping || no_consumers {
            Shade::DarkGray
        } else {
            Shade::Cyan
        },
        r == header_colour(sleeping, no_consumers),
{
    if sleeping || no_consumers {
        Shade::DarkGray
    } else {
        Shade::Cyan
    }
}

/// A level in decibels: `converted`, which is 20 times its logarithm, for a level above zero,
/// but never less than -80.
pub open spec fn shown_db(level: Single, converted: Single) -> Single {
    if (Single { bits: ZERO }).below(level) {
        converted.raised(Single { bits: SILENT_DB })
    } else {
        Single { bits: SILENT_DB }
    }
}

/// A level in decibels: `converted`, which is 20 times its logarithm, for a level above zero,
/// but never less than -80.
pub fn level_db(level: Single, converted: Single) -> (r: Single)
    ensures
        r == if (Single { bits: ZERO }).below(level) {
            converted.raised(Single { bits: SILENT_DB })
        } else {
            Single { bits: SILENT_DB }
        },
        r == shown_db(level, converted),
{
    let zero = Single { bits: ZERO };
    let silent = Single { bits: SILENT_DB };
    if zero.is_below(level) {
        converted.at_least(silent)
    } else {
        silent
    }
}

/// No level is shown as less than -80 decibels, and none as something that is not a number.
pub proof fn law_decibels_have_a_floor(level: Single, converted: Single)
    ensures
        !shown_db(level, converted).is_nan(),
        !shown_db(level, converted).below(Single { bits: SILENT_DB }),
{
}

/// Of two levels the higher one is not shown as fewer decibels, if its logarithm is not the lower
/// one.
pub proof fn law_decibels_grow_with_the_level(
    low: Single,
    low_converted: Single,
    high: Single,
    high_converted: Single,
)
    requires
        !low.is_nan(),
        !high.is_nan(),
        !high.below(low),
        !low_converted.is_nan(),
        !high_converted.is_nan(),
        !high_converted.below(low_converted),
    ensures
        !shown_db(high, high_converted).below(shown_db(low, low_converted)),
{
}

/// Whether a level in decibels reaches step `i` of the level bar. A NaN reaches none.
pub open spec fn reaches(db: Single, i: int) -> bool {
    !db.is_nan() && !db.below(Single { bits: BAR_STEPS@[i] })
}

/// Whether `filled` characters of the level bar are full for a level in decibels: one for each step
/// that it reaches.
pub open spec fn fills_bar(db: Single, filled: nat) -> bool {
    &&& filled <= BAR_LEN
    &&& forall|i: int| 0 <= i < BAR_LEN ==> #[trigger] reaches(db, i) == (i < filled)
}

/// No step of the level bar is a NaN, and each is above the one before it.
proof fn lemma_steps_ascend(i: int, j: int)
    requires
        0 <= i <= j < BAR_LEN,
    ensures
        !(Single { bits: BAR_STEPS@[i] }).is_nan(),
        (Single { bits: BAR_STEPS@[i] }).rank() <= (Single { bits: BAR_STEPS@[j] }).rank(),
    decreases j - i,
{
    if i < j {
        lemma_steps_ascend(i + 1, j);
    }
}

/// Whether a level in decibels reaches step `i` of the level bar.
fn reaches_step(db: Single, i: usize) -> (r: bool)
    requires
        i < BAR_LEN,
    ensures
        r == reaches(db, i as int),
{
    !db.nan() && !db.is_below(Single { bits: BAR_STEPS[i] })
}

/// The full characters of the level bar for a level in decibels.
pub fn bar_fill(db: Single) -> (r: usize)
    ensures
        fills_bar(db, r as nat),
{
    let mut filled: usize = 0;
    while filled < BAR_LEN && reaches_step(db, filled)
        invariant
            filled <= BAR_LEN,
            forall|i: int| 0 <= i < filled ==> #[trigger] reaches(db, i),
        decreases BAR_LEN - filled,
    {
        filled = filled + 1;
    }
    proof {
        assert forall|i: int| filled <= i < BAR_LEN implies !#[trigger] reaches(db, i) by {
            lemma_steps_ascend(filled as int, i);
        }
    }
    filled
}

/// The level bar with `filled` full characters.
pub open spec fn bar(filled: nat) -> Seq<char> {
    repeated('\u{2588}', filled) + repeated('\u{2591}', (BAR_LEN - filled) as nat)
}

/// The level bar with `filled` full characters.
pub fn bar_text(filled: usize) -> (r: String)
    requires
        filled <= BAR_LEN,
    ensures
        r@ == bar(filled as nat),
{
    proof {
        reveal_strlit("\u{2588}");
        reveal_strlit("\u{2591}");
    }
    let mut r = repeat_text("\u{2588}", filled);
    r.append(repeat_text("\u{2591}", BAR_LEN - filled).as_str());
    r
}

/// Every level has one bar, and it is whole: it has all its characters, and the full ones stand
/// before the empty ones.
pub proof fn law_every_bar_is_whole(db: Single, filled: nat, other: nat)
    requires
        fills_bar(db, filled),
        fills_bar(db, other),
    ensures
        filled == other,
        bar(filled).len() == BAR_LEN,
        forall|i: int|
            0 <= i < BAR_LEN ==> #[trigger] bar(filled)[i] == if i < filled {
                '\u{2588}'
            } else {
                '\u{2591}'
            },
{
    if filled < other {
        assert(reaches(db, filled as int) == (filled < filled));
    } else if other < filled {
        assert(reaches(db, other as int) == (other < other));
    }
}

/// Of two levels in decibels the higher one fills no less of the bar.
pub proof fn law_bar_grows_with_the_decibels(
    low_db: Single,
    low_filled: nat,
    high_db: Single,
    high_filled: nat,
)
    requires
        !high_db.is_nan(),
        !high_db.below(low_db),
        fills_bar(low_db, low_filled),
        fills_bar(high_db, high_filled),
    ensures
        low_filled <= high_filled,
{
    if high_filled < low_filled {
        let i = high_filled as int;
        assert(reaches(low_db, i));
        assert(!reaches(high_db, i));
        lemma_steps_ascend(i, i);
    }
}

/// Of two levels the higher one fills no less of the bar, if its logarithm is not the lower one.
pub proof fn law_bar_grows_with_the_level(
    low: Single,
    low_converted: Single,
    low_filled: nat,
    high: Single,
    high_converted: Single,
    high_filled: nat,
)
    requires
        !low.is_nan(),
        !high.is_nan(),
        !high.below(low),
        !low_converted.is_nan(),
        !high_converted.is_nan(),
        !high_converted.below(low_converted),
        fills_bar(shown_db(low, low_converted), low_filled),
        fills_bar(shown_db(high, high_converted), high_filled),
    ensures
        low_filled <= high_filled,
{
    law_decibels_grow_with_the_level(low, low_converted, high, high_converted);
    law_decibels_have_a_floor(high, high_converted);
    law_bar_grows_with_the_decibels(
        shown_db(low, low_converted),
        low_filled,
        shown_db(high, high_converted),
        high_filled,
    );
}

/// The bar is empty at -60 decibels and below, and full at 0 decibels and above.
pub proof fn law_bar_is_empty_and_full_at_its_ends(db: Single, filled: nat)
    requires
        !db.is_nan(),
        fills_bar(db, filled),
    ensures
        !(Single { bits: BAR_LOW_DB }).below(db) ==> filled == 0,
        !db.below(Single { bits: ZERO }) ==> filled == BAR_LEN,
{
    assert(reaches(db, 0) == (0 < filled));
    assert(reaches(db, 19) == (19 < filled));
}

/// The end of the ambient line: that a calibration is running, or the threshold.
pub open spec fn calibration_words(calibrating: bool, threshold_db: Seq<char>) -> Seq<char> {
    if calibrating {
        " \u{23f3} CALIBRATING..."@
    } else {
        " Threshold: "@ + threshold_db + " dB  ('c' to recalibrate)"@
    }
}

/// The ambient line: level, bar and threshold, the decibels with one decimal.
pub open spec fn ambient_line(
    level_db: Seq<char>,
    filled: nat,
    calibrating: bool,
    threshold_db: Seq<char>,
) -> Seq<char> {
    " Level: "@ + right_aligned(level_db, 6) + " dB  ["@ + bar(filled) + "]"@ + calibration_words(
        calibrating,
        threshold_db,
    )
}

/// The ambient line: level, bar and threshold, the decibels with one decimal.
pub fn ambient_text(level_db: &str, filled: usize, calibrating: bool, threshold_db: &str)
    -> (r: String)
    requires
        filled <= BAR_LEN,
    ensures
        r@ == " Level: "@ + right_aligned(level_db@, 6) + " dB  ["@ + bar(filled as nat) + "]"@
            + calibration_words(calibrating, threshold_db@),
        r@ == ambient_line(level_db@, filled as nat, calibrating, threshold_db@),
{
    let mut status: String = String::new();
    if calibrating {
        status.append(" \u{23f3} CALIBRATING...");
    } else {
        status.append(" Threshold: ");
        status.append(threshold_db);
        status.append(" dB  ('c' to recalibrate)");
    }
    assert(status@ =~= calibration_words(calibrating, threshold_db@));
    let mut r = " Level: ".to_owned();
    r.append(align_right(level_db, 6).as_str());
    r.append(" dB  [");
    r.append(bar_text(filled).as_str());
    r.append("]");
    r.append(status.as_str());
    r
}

/// The colour of the ambient line: yellow during a calibration, else by whether it is silent.
pub open spec fn ambient_colour(calibrating: bool, level: Single, threshold: Single) -> Shade {
    if calibrating {
        Shade::Yellow
    } else if level.below(threshold) {
        Shade::DarkGray
    } else {
        Shade::Green
    }
}

/// The colour of the ambient line: yellow during a calibration, else by whether it is silent.
pub fn ambient_shade(calibrating: bool, level: Single, threshold: Single) -> (r: Shade)
    ensures
        r == if calibrating {
            Shade::Yellow
        } else if level.below(threshold) {
            Shade::DarkGray
        } else {
            Shade::Green
        },
        r == ambient_colour(calibrating, level, threshold),
{
    if calibrating {
        Shade::Yellow
    } else if level.is_below(threshold) {
        Shade::DarkGray
    } else {
        Shade::Green
    }
}

/// A row of the footer.
pub struct FooterRow {
    pub label: &'static str,
    pub name: String,
    pub shade: Shade,
}

/// The footer: label, name and colour of the devices in use.
pub open spec fn footer(real_mic: Seq<char>, speaker: Seq<char>, virtual_mic: Seq<char>) -> Seq<
    (Seq<char>, Seq<char>, Shade),
> {
    seq![
        ("  Real Mic      : "@, real_mic, Shade::Green),
        ("  Speaker Filter: "@, speaker, Shade::Yellow),
        ("  Virtual Mic   : "@, virtual_mic, Shade::Magenta),
    ]
}

/// The footer: the devices in use.
pub fn footer_rows(real_mic: &str, speaker: &str, virtual_mic: &str) -> (r: Vec<FooterRow>)
    ensures
        r@.len() == 3,
        r@[0].label@ == "  Real Mic      : "@,
        r@[0].name@ == real_mic@,
        r@[0].shade == Shade::Green,
        r@[1].label@ == "  Speaker Filter: "@,
        r@[1].name@ == speaker@,
        r@[1].shade == Shade::Yellow,
        r@[2].label@ == "  Virtual Mic   : "@,
        r@[2].name@ == virtual_mic@,
        r@[2].shade == Shade::Magenta,
        r@.map_values(|row: FooterRow| (row.label@, row.name@, row.shade)) == footer(
            real_mic@,
            speaker@,
            virtual_mic@,
        ),
{
    let mut rows: Vec<FooterRow> = Vec::new();
    rows.push(
        FooterRow {
            label: "  Real Mic      : ",
            name: real_mic.to_owned(),
            shade: Shade::Green,
        },
    );
    rows.push(
        FooterRow {
            label: "  Speaker Filter: ",
            name: speaker.to_owned(),
            shade: Shade::Yellow,
        },
    );
    rows.push(
        FooterRow {
            label: "  Virtual Mic   : ",
            name: virtual_mic.to_owned(),
            shade: Shade::Magenta,
        },
    );
    assert(rows@.map_values(|row: FooterRow| (row.label@, row.name@, row.shade)) =~= footer(
        real_mic@,
        speaker@,
        virtual_mic@,
    ));
    rows
}

/// Step `i` of the level bar is -57 and three times `i`, in decibels, or less than five millionths
/// short of it.
proof fn lemma_steps_are_three_decibels_apart(i: int)
    requires
        0 <= i < 20,
    ensures
        units(Single { bits: BAR_STEPS@[i] }) <= -((57 - 3 * i) * units_of_one()),
        -((57 - 3 * i) * units_of_one()) * 1_000_000 - units(Single { bits: BAR_STEPS@[i] })
            * 1_000_000 < 5 * units_of_one(),
{
    let one = units_of_one();
    vstd::arithmetic::power2::lemma2_to64();
    vstd::arithmetic::power2::lemma2_to64_rest();
    if i == 0 {
        lemma_units(Single { bits: BAR_STEPS@[0] }, 132, 0x64_0000, 0x4_0000);
        assert(units(Single { bits: BAR_STEPS@[0] }) == -(14_942_208 * last_bit(132)));
        assert(units_of_one() == 262_144 * last_bit(132));
        assert((57 - 3 * i) * one == 57 * one) by (nonlinear_arith)
            requires
                i == 0,
        ;
    } else if i == 1 {
        lemma_units(Single { bits: BAR_STEPS@[1] }, 132, 0x58_0000, 0x4_0000);
        assert(units(Single { bits: BAR_STEPS@[1] }) == -(14_155_776 * last_bit(132)));
        assert(units_of_one() == 262_144 * last_bit(132));
        assert((57 - 3 * i) * one == 54 * one) by (nonlinear_arith)
            requires
                i == 1,
        ;
    } else if i == 2 {
        lemma_units(Single { bits: BAR_STEPS@[2] }, 132, 0x4c_0000, 0x4_0000);
        assert(units(Single { bits: BAR_STEPS@[2] }) == -(13_369_344 * last_bit(132)));
        assert(units_of_one() == 262_144 * last_bit(132));
        assert((57 - 3 * i) * one == 51 * one) by (nonlinear_arith)
            requires
                i == 2,
        ;
    } else if i == 3 {
        lemma_units(Single { bits: BAR_STEPS@[3] }, 132, 0x40_0000, 0x4_0000);
        assert(units(Single { bits: BAR_STEPS@[3] }) == -(12_582_912 * last_bit(132)));
        assert(units_of_one() == 262_144 * last_bit(132));
        assert((57 - 3 * i) * one == 48 * one) by (nonlinear_arith)
            requires
                i == 3,
        ;
    } else if i == 4 {
        lemma_units(Single { bits: BAR_STEPS@[4] }, 132, 0x34_0000, 0x4_0000);
        assert(units(Single { bits: BAR_STEPS@[4] }) == -(11_796_480 * last_bit(132)));
        assert(units_of_one() == 262_144 * last_bit(132));
        assert((57 - 3 * i) * one == 45 * one) by (nonlinear_arith)
            requires
                i == 4,
        ;
    } else if i == 5 {
        lemma_units(Single { bits: BAR_STEPS@[5] }, 132, 0x28_0000, 0x4_0000);
        assert(units(Single { bits: BAR_STEPS@[5] }) == -(11_010_048 * last_bit(132)));
        assert(units_of_one() == 262_144 * last_bit(132));
        assert((57 - 3 * i) * one == 42 * one) by (nonlinear_arith)
            requires
                i == 5,
        ;
    } else if i == 6 {
        lemma_units(Single { bits: BAR_STEPS@[6] }, 132, 0x1c_0000, 0x4_0000);
        assert(units(Single { bits: BAR_STEPS@[6] }) == -(10_223_616 * last_bit(132)));
        assert(units_of_one() == 262_144 * last_bit(132));
        assert((57 - 3 * i) * one == 39 * one) by (nonlinear_arith)
            requires
                i == 6,
        ;
    } else if i == 7 {
        lemma_units(Single { bits: BAR_STEPS@[7] }, 132, 0x10_0000, 0x4_0000);
        assert(units(Single { bits: BAR_STEPS@[7] }) == -(9_437_184 * last_bit(132)));
        assert(units_of_one() == 262_144 * last_bit(132));
        assert((57 - 3 * i) * one == 36 * one) by (nonlinear_arith)
            requires
                i == 7,
        ;
    } else if i == 8 {
        lemma_units(Single { bits: BAR_STEPS@[8] }, 132, 0x4_0000, 0x4_0000);
        assert(units(Single { bits: BAR_STEPS@[8] }) == -(8_650_752 * last_bit(132)));
        assert(units_of_one() == 262_144 * last_bit(132));
        assert((57 - 3 * i) * one == 33 * one) by (nonlinear_arith)
            requires
                i == 8,
        ;
    } else if i == 9 {
        lemma_units(Single { bits: BAR_STEPS@[9] }, 131, 0x70_0000, 0x8_0000);
        assert(units(Single { bits: BAR_STEPS@[9] }) == -(15_728_640 * last_bit(131)));
        assert(units_of_one() == 524_288 * last_bit(131));
        assert((57 - 3 * i) * one == 30 * one) by (nonlinear_arith)
            requires
                i == 9,
        ;
    } else if i == 10 {
        lemma_units(Single { bits: BAR_STEPS@[10] }, 131, 0x58_0001, 0x8_0000);
        assert(units(Single { bits: BAR_STEPS@[10] }) == -(14_155_777 * last_bit(131)));
        assert(units_of_one() == 524_288 * last_bit(131));
        assert((57 - 3 * i) * one == 27 * one) by (nonlinear_arith)
            requires
                i == 10,
        ;
    } else if i == 11 {
        lemma_units(Single { bits: BAR_STEPS@[11] }, 131, 0x40_0001, 0x8_0000);
        assert(units(Single { bits: BAR_STEPS@[11] }) == -(12_582_913 * last_bit(131)));
        assert(units_of_one() == 524_288 * last_bit(131));
        assert((57 - 3 * i) * one == 24 * one) by (nonlinear_arith)
            requires
                i == 11,
        ;
    } else if i == 12 {
        lemma_units(Single { bits: BAR_STEPS@[12] }, 131, 0x28_0001, 0x8_0000);
        assert(units(Single { bits: BAR_STEPS@[12] }) == -(11_010_049 * last_bit(131)));
        assert(units_of_one() == 524_288 * last_bit(131));
        assert((57 - 3 * i) * one == 21 * one) by (nonlinear_arith)
            requires
                i == 12,
        ;
    } else if i == 13 {
        lemma_units(Single { bits: BAR_STEPS@[13] }, 131, 0x10_0001, 0x8_0000);
        assert(units(Single { bits: BAR_STEPS@[13] }) == -(9_437_185 * last_bit(131)));
        assert(units_of_one() == 524_288 * last_bit(131));
        assert((57 - 3 * i) * one == 18 * one) by (nonlinear_arith)
            requires
                i == 13,
        ;
    } else if i == 14 {
        lemma_units(Single { bits: BAR_STEPS@[14] }, 130, 0x70_0002, 0x10_0000);
        assert(units(Single { bits: BAR_STEPS@[14] }) == -(15_728_642 * last_bit(130)));
        assert(units_of_one() == 1_048_576 * last_bit(130));
        assert((57 - 3 * i) * one == 15 * one) by (nonlinear_arith)
            requires
                i == 14,
        ;
    } else if i == 15 {
        lemma_units(Single { bits: BAR_STEPS@[15] }, 130, 0x40_0002, 0x10_0000);
        assert(units(Single { bits: BAR_STEPS@[15] }) == -(12_582_914 * last_bit(130)));
        assert(units_of_one() == 1_048_576 * last_bit(130));
        assert((57 - 3 * i) * one == 12 * one) by (nonlinear_arith)
            requires
                i == 15,
        ;
    } else if i == 16 {
        lemma_units(Single { bits: BAR_STEPS@[16] }, 130, 0x10_0005, 0x10_0000);
        assert(units(Single { bits: BAR_STEPS@[16] }) == -(9_437_189 * last_bit(130)));
        assert(units_of_one() == 1_048_576 * last_bit(130));
        assert((57 - 3 * i) * one == 9 * one) by (nonlinear_arith)
            requires
                i == 16,
        ;
    } else if i == 17 {
        lemma_units(Single { bits: BAR_STEPS@[17] }, 129, 0x40_0004, 0x20_0000);
        assert(units(Single { bits: BAR_STEPS@[17] }) == -(12_582_916 * last_bit(129)));
        assert(units_of_one() == 2_097_152 * last_bit(129));
        assert((57 - 3 * i) * one == 6 * one) by (nonlinear_arith)
            requires
                i == 17,
        ;
    } else if i == 18 {
        lemma_units(Single { bits: BAR_STEPS@[18] }, 128, 0x40_0008, 0x40_0000);
        assert(units(Single { bits: BAR_STEPS@[18] }) == -(12_582_920 * last_bit(128)));
        assert(units_of_one() == 4_194_304 * last_bit(128));
        assert((57 - 3 * i) * one == 3 * one) by (nonlinear_arith)
            requires
                i == 18,
        ;
    } else {
        lemma_units(Single { bits: BAR_STEPS@[19] }, 108, 0x0, 0x400_0000_0000);
        assert(units(Single { bits: BAR_STEPS@[19] }) == -(8_388_608 * last_bit(108)));
        assert(units_of_one() == 4_398_046_511_104 * last_bit(108));
        assert((57 - 3 * i) * one == 0) by (nonlinear_arith)
            requires
                i == 19,
        ;
    }
}

/// Each character of the level bar stands for three decibels from -60 on: with `filled` of them full
/// the level is below the end of the next one, and reaches the end of the last full one, or is less
/// than five millionths of a decibel short of it.
pub proof fn law_each_character_is_three_decibels(db: Single, filled: nat)
    requires
        db.bits as int % 0x8000_0000 <= 0x7f80_0000,
        fills_bar(db, filled),
    ensures
        filled <= 20,
        filled < 20 ==> units(db) < -((57 - 3 * filled) * units_of_one()),
        filled > 0 ==> -((60 - 3 * filled) * units_of_one()) * 1_000_000 - units(db) * 1_000_000 < 5
            * units_of_one(),
{
    if filled < 20 {
        let step = Single { bits: BAR_STEPS@[filled as int] };
        assert(!reaches(db, filled as int));
        lemma_steps_ascend(filled as int, filled as int);
        lemma_steps_are_three_decibels_apart(filled as int);
        law_order_is_that_of_the_values(db, step);
    }
    if filled > 0 {
        let last = filled - 1;
        let step = Single { bits: BAR_STEPS@[last] };
        assert(reaches(db, last));
        lemma_steps_ascend(last, last);
        lemma_steps_are_three_decibels_apart(last);
        law_order_is_that_of_the_values(db, step);
        assert(57 - 3 * last == 60 - 3 * filled);
    }
}

/// What is not a number fills nothing of the bar.
pub proof fn law_no_number_fills_no_bar(db: Single, filled: nat)
    requires
        db.bits as int % 0x8000_0000 > 0x7f80_0000,
        fills_bar(db, filled),
    ensures
        filled == 0,
{
    assert(reaches(db, 0) == (0 < filled));
}

/// A level above zero is shown as its decibels, bit for bit, wherever those are -80 or more. Fewer
/// decibels, decibels that are not a number, and those of a level that is not above zero are shown
/// as -80.
pub proof fn law_decibels_are_shown_as_they_are(level: Single, converted: Single)
    ensures
        units(Single { bits: 0xc2a0_0000 }) == -(80 * units_of_one()),
        (Single { bits: 0 }).below(level) && !converted.is_nan() && !converted.below(
            Single { bits: 0xc2a0_0000 },
        ) ==> shown_db(level, converted) == converted,
        converted.is_nan() || converted.below(Single { bits: 0xc2a0_0000 }) ==> shown_db(
            level,
            converted,
        ) == (Single { bits: 0xc2a0_0000 }),
        !(Single { bits: 0 }).below(level) ==> shown_db(level, converted) == (Single {
            bits: 0xc2a0_0000,
        }),
{
    vstd::arithmetic::power2::lemma2_to64();
    lemma_units(Single { bits: 0xc2a0_0000 }, 133, 0x20_0000, 0x2_0000);
    assert(units(Single { bits: 0xc2a0_0000 }) == -(10_485_760 * last_bit(133)));
    assert(units_of_one() == 131_072 * last_bit(133));
}

/// Missing consumers outrank sleep, and sleep for silence is told from work.
pub proof fn law_state_is_told_in_words(sleeping: bool)
    ensures
        sleep_words(sleeping, true) == "\u{1f4a4} NO CONSUMERS"@,
        sleep_words(true, false) == "\u{1f4a4} SILENCE SLEEP"@,
        sleep_words(false, false) == "\u{25b6}  ACTIVE       "@,
{
}

/// The header shows the process, its load, the preset and the state of the thread.
pub proof fn law_header_shows_everything(
    pid: nat,
    load: Seq<char>,
    preset: AecPreset,
    sleeping: bool,
    no_consumers: bool,
)
    ensures
        ({
            let line = header_line(pid, load, preset, sleeping, no_consumers);
            &&& holds(line, decimal(pid))
            &&& holds(line, load)
            &&& holds(line, preset.words())
            &&& holds(line, sleep_words(sleeping, no_consumers))
            &&& holds(line, "'s' cycle 'w' wake"@)
        }),
{
    let line = header_line(pid, load, preset, sleeping, no_consumers);
    let a = "RustDAC TUI | PID: "@;
    let b = " | CPU: "@;
    let c = "% | AEC: "@;
    let d = " | "@;
    let e = " | 's' cycle 'w' wake"@;
    let number = decimal(pid);
    let name = preset.words();
    let words = sleep_words(sleeping, no_consumers);
    law_text_holds_its_parts(a, number, b + load + c + name + d + words + e);
    assert(a + number + (b + load + c + name + d + words + e) =~= line);
    law_text_holds_its_parts(a + number + b, load, c + name + d + words + e);
    assert(a + number + b + load + (c + name + d + words + e) =~= line);
    law_text_holds_its_parts(a + number + b + load + c, name, d + words + e);
    assert(a + number + b + load + c + name + (d + words + e) =~= line);
    law_text_holds_its_parts(a + number + b + load + c + name + d, words, e);
    assert(a + number + b + load + c + name + d + words + e =~= line);
    reveal_strlit(" | 's' cycle 'w' wake");
    reveal_strlit("'s' cycle 'w' wake");
    let keys = "'s' cycle 'w' wake"@;
    let gap = e.take(3);
    assert(e =~= gap + keys);
    law_text_holds_its_parts(
        a + number + b + load + c + name + d + words + gap,
        keys,
        Seq::<char>::empty(),
    );
    assert(a + number + b + load + c + name + d + words + gap + keys + Seq::<char>::empty()
        =~= line);
}

/// The ambient line shows the level, its bar and, unless a calibration is running, the threshold; a
/// running calibration is shown instead.
pub proof fn law_ambient_line_shows_everything(
    level_db: Seq<char>,
    filled: nat,
    calibrating: bool,
    threshold_db: Seq<char>,
)
    requires
        filled <= 20,
    ensures
        ({
            let line = ambient_line(level_db, filled, calibrating, threshold_db);
            &&& holds(line, level_db)
            &&& holds(line, bar(filled))
            &&& !calibrating ==> holds(line, threshold_db)
            &&& calibrating ==> holds(line, " \u{23f3} CALIBRATING..."@)
        }),
{
    let line = ambient_line(level_db, filled, calibrating, threshold_db);
    let column = right_aligned(level_db, 6);
    law_right_aligned_text_ends_the_column(level_db, 6);
    let a = " Level: "@ + column.take(column.len() - level_db.len());
    let b = " dB  ["@;
    let c = "]"@;
    let status = calibration_words(calibrating, threshold_db);
    let none = Seq::<char>::empty();
    law_text_holds_its_parts(a, level_db, b + bar(filled) + c + status);
    assert(a + level_db + (b + bar(filled) + c + status) =~= line);
    law_text_holds_its_parts(a + level_db + b, bar(filled), c + status);
    assert(a + level_db + b + bar(filled) + (c + status) =~= line);
    if calibrating {
        let running = " \u{23f3} CALIBRATING..."@;
        law_text_holds_its_parts(a + level_db + b + bar(filled) + c, running, none);
        assert(a + level_db + b + bar(filled) + c + running + none =~= line);
    } else {
        let t = " Threshold: "@;
        let u = " dB  ('c' to recalibrate)"@;
        law_text_holds_its_parts(a + level_db + b + bar(filled) + c + t, threshold_db, u);
        assert(a + level_db + b + bar(filled) + c + t + threshold_db + u =~= line);
    }
}

/// A running calibration is yellow; otherwise silence is gray and a sound green, by the order of
/// level and threshold alone.
pub proof fn law_colour_tells_silence_from_sound(level: Single, threshold: Single)
    ensures
        ambient_colour(true, level, threshold) == Shade::Yellow,
        level.below(threshold) ==> ambient_colour(false, level, threshold) == Shade::DarkGray,
        !level.below(threshold) ==> ambient_colour(false, level, threshold) == Shade::Green,
{
}

/// The header is gray exactly while the thread does not work, for whatever reason.
pub proof fn law_header_is_gray_while_nothing_works(sleeping: bool, no_consumers: bool)
    ensures
        header_colour(sleeping, no_consumers) == Shade::Cyan <==> !sleeping && !no_consumers,
        header_colour(sleeping, no_consumers) == Shade::DarkGray <==> sleeping || no_consumers,
{
}

/// The footer has a row for the microphone, the speaker and the virtual microphone, in this order,
/// each with its own label, name and colour.
pub proof fn law_footer_shows_every_device(
    real_mic: Seq<char>,
    speaker: Seq<char>,
    virtual_mic: Seq<char>,
)
    ensures
        ({
            let rows = footer(real_mic, speaker, virtual_mic);
            &&& rows.len() == 3
            &&& rows[0].1 == real_mic && rows[1].1 == speaker && rows[2].1 == virtual_mic
            &&& rows[0].0 == "  Real Mic      : "@ && rows[0].2 == Shade::Green
            &&& rows[1].0 == "  Speaker Filter: "@ && rows[1].2 == Shade::Yellow
            &&& rows[2].0 == "  Virtual Mic   : "@ && rows[2].2 == Shade::Magenta
        }),
{
}

} // verus!
