//! The LED controller of the LincStation N2: an SMBus device at address 0x26
//! that drives the chassis LED bar and eight two-channel LED strips.
//!
//! This module holds the hardware model (colors, bar and strip settings, the
//! register map), the controller state, and the conversion of each command
//! into state updates and register writes.

use vstd::prelude::*;
use vstd::hash_map::StringHashMap;
use vstd::relations::sorted_by;
use crate::text::{
    append_decimal, chars_of, decimal, parse_unsigned, parse_unsigned_in, same_text, strip_prefix,
    strip_prefix_str, trim, trim_str,
};

verus! {

// ============================================================================
// LED BAR HARDWARE MODEL
// ============================================================================

/// LED bar display mode.
#[derive(Debug, Clone, Copy, PartialEq, Eq, Structural)]
pub enum LedBarMode {
    Solid,
    Breath,
    Loop,
}

/// The value of the mode register (0x90) for `mode`.
pub open spec fn mode_code(mode: LedBarMode) -> u8 {
    match mode {
        LedBarMode::Solid => 0,
        LedBarMode::Breath => 1,
        LedBarMode::Loop => 2,
    }
}

/// The value of the mode register (0x90) that selects `mode`:
/// 0 for solid, 1 for breath, 2 for loop.
pub fn mode_register_value(mode: LedBarMode) -> (r: u8)
    ensures
        r == mode_code(mode),
{
    match mode {
        LedBarMode::Solid => 0,
        LedBarMode::Breath => 1,
        LedBarMode::Loop => 2,
    }
}

/// LED color palette, for the bar and the strips.
#[derive(Debug, Clone, Copy, PartialEq, Eq, Structural)]
pub enum LedColor {
    Black,
    White,
    Red,
    Blue,
    Green,
    Yellow,
    Cyan,
    Magenta,
    Orange,
    Purple,
    SoftWhite,
}

impl Default for LedColor {
    fn default() -> (r: LedColor)
        ensures
            r == LedColor::Black,
    {
        LedColor::Black
    }
}

/// The RGB triplet of each color, one byte per channel.
pub open spec fn rgb(color: LedColor) -> (u8, u8, u8) {
    match color {
        LedColor::Black => (0, 0, 0),
        LedColor::White => (255, 255, 255),
        LedColor::SoftWhite => (225, 225, 225),
        LedColor::Red => (255, 0, 0),
        LedColor::Blue => (0, 0, 255),
        LedColor::Green => (0, 255, 0),
        LedColor::Yellow => (255, 200, 0),
        LedColor::Cyan => (0, 255, 255),
        LedColor::Magenta => (255, 0, 255),
        LedColor::Orange => (255, 165, 0),
        LedColor::Purple => (128, 0, 128),
    }
}

/// Converts a color to its RGB triplet (0-255 each).
pub fn color_to_rgb(color: LedColor) -> (r: (u8, u8, u8))
    ensures
        r == rgb(color),
{
    match color {
        LedColor::Black => (0, 0, 0),
        LedColor::White => (255, 255, 255),
        LedColor::SoftWhite => (225, 225, 225),
        LedColor::Red => (255, 0, 0),
        LedColor::Blue => (0, 0, 255),
        LedColor::Green => (0, 255, 0),
        LedColor::Yellow => (255, 200, 0),
        LedColor::Cyan => (0, 255, 255),
        LedColor::Magenta => (255, 0, 255),
        LedColor::Orange => (255, 165, 0),
        LedColor::Purple => (128, 0, 128),
    }
}

/// Distinct colors have distinct RGB triplets: the palette loses nothing on
/// its way to the hardware.
pub proof fn lemma_rgb_injective(a: LedColor, b: LedColor)
    ensures
        rgb(a) == rgb(b) ==> a == b,
{
}

/// The LED bar (chassis status light): mode, brightness and colors.
#[derive(Debug, Clone, Copy, PartialEq, Eq, Structural)]
pub struct LedBar {
    pub mode: LedBarMode,
    /// 0 (off) to 255 (brightest).
    pub brightness: u8,
    pub color: LedColor,
    pub loop_color: LedColor,
}

/// The bar as the controller starts: looping yellow and green at full brightness.
pub open spec fn default_bar() -> LedBar {
    LedBar {
        mode: LedBarMode::Loop,
        brightness: 255,
        color: LedColor::Yellow,
        loop_color: LedColor::Green,
    }
}

impl Default for LedBar {
    fn default() -> (r: LedBar)
        ensures
            r == default_bar(),
    {
        LedBar {
            mode: LedBarMode::Loop,
            brightness: 255,
            color: LedColor::Yellow,
            loop_color: LedColor::Green,
        }
    }
}

// ============================================================================
// LED STRIP HARDWARE MODEL
// ============================================================================

/// One LED strip (drive indicator): white and red channels, and blinking of
/// the white channel.
#[derive(Debug, Clone, Copy, PartialEq, Eq, Structural)]
pub struct LedStrip {
    pub white_on: bool,
    pub red_on: bool,
    pub white_blinking: bool,
}

/// A strip with both channels off and no blinking.
pub open spec fn strip_off() -> LedStrip {
    LedStrip { white_on: false, red_on: false, white_blinking: false }
}

impl Default for LedStrip {
    fn default() -> (r: LedStrip)
        ensures
            r == strip_off(),
    {
        LedStrip { white_on: false, red_on: false, white_blinking: false }
    }
}


// ============================================================================
// LED CONTROLLER STATE
// ============================================================================

/// The number of LED strips.
pub const STRIP_COUNT: usize = 8;

/// The pause after each register write, in milliseconds, that keeps the
/// controller stable.
pub const MINIMUM_WRITE_DELAY_MS: i8 = 10;

/// The SMBus address of the LED controller.
pub const LED_CONTROLLER_ADDR: u16 = 0x26;

/// The names of the eight LED strips, top to bottom on the case.
pub open spec fn strip_name(i: int) -> Seq<char> {
    if i == 0 {
        "POWER"@
    } else if i == 1 {
        "MGMT"@
    } else if i == 2 {
        "SSD1"@
    } else if i == 3 {
        "SSD2"@
    } else if i == 4 {
        "NVME1"@
    } else if i == 5 {
        "NVME2"@
    } else if i == 6 {
        "NVME3"@
    } else {
        "NVME4"@
    }
}

/// The name of strip `i`.
pub fn led_strip_name(i: usize) -> (r: &'static str)
    requires
        i < STRIP_COUNT,
    ensures
        r@ == strip_name(i as int),
{
    if i == 0 {
        "POWER"
    } else if i == 1 {
        "MGMT"
    } else if i == 2 {
        "SSD1"
    } else if i == 3 {
        "SSD2"
    } else if i == 4 {
        "NVME1"
    } else if i == 5 {
        "NVME2"
    } else if i == 6 {
        "NVME3"
    } else {
        "NVME4"
    }
}

/// Whether `name` is the name of a strip.
pub open spec fn is_strip_name(name: Seq<char>) -> bool {
    exists|i: int| 0 <= i < STRIP_COUNT && #[trigger] strip_name(i) == name
}

/// The strip names are pairwise distinct.
pub proof fn lemma_strip_names_distinct(i: int, j: int)
    requires
        0 <= i < STRIP_COUNT,
        0 <= j < STRIP_COUNT,
        i != j,
    ensures
        strip_name(i) != strip_name(j),
{
    reveal_strlit("POWER");
    reveal_strlit("MGMT");
    reveal_strlit("SSD1");
    reveal_strlit("SSD2");
    reveal_strlit("NVME1");
    reveal_strlit("NVME2");
    reveal_strlit("NVME3");
    reveal_strlit("NVME4");
    if strip_name(i) == strip_name(j) {
        assert(strip_name(i).len() == strip_name(j).len());
        assert(strip_name(i)[0] == strip_name(j)[0]);
        assert(strip_name(i)[1] == strip_name(j)[1]);
        assert(strip_name(i)[3] == strip_name(j)[3]);
        assert(strip_name(i).last() == strip_name(j).last());
    }
}

// ============================================================================
// LED STRIP REGISTER MAP
// ============================================================================

/// Where a strip is driven: the register and value that turn each channel on
/// and off, and the register that switches blinking with its on and off
/// values.
#[derive(Debug, Clone, Copy, PartialEq, Eq)]
pub struct LedRegisterMap {
    pub name: &'static str,
    pub white_on_reg: u8,
    pub white_on_val: u8,
    pub white_off_reg: u8,
    pub white_off_val: u8,
    pub red_on_reg: u8,
    pub red_on_val: u8,
    pub red_off_reg: u8,
    pub red_off_val: u8,
    pub blink_reg: u8,
    pub blink_on_val: u8,
    pub blink_off_val: u8,
}

/// The register map of strip `i`. The first four strips are switched by bits
/// of 0xA0 (on) and 0xB0 (off), the NVMe strips by bits of 0xA1 and 0xB1;
/// each strip has a blinking register of its own.
pub open spec fn strip_registers_spec(i: int) -> LedRegisterMap {
    if i == 0 {
        LedRegisterMap {
            name: "POWER",
            white_on_reg: 0xA0,
            white_on_val: 0x01,
            white_off_reg: 0xB0,
            white_off_val: 0x01,
            red_on_reg: 0xA0,
            red_on_val: 0x02,
            red_off_reg: 0xB0,
            red_off_val: 0x02,
            blink_reg: 0x50,
            blink_on_val: 0x01,
            blink_off_val: 0x00,
        }
    } else if i == 1 {
        LedRegisterMap {
            name: "MGMT",
            white_on_reg: 0xA0,
            white_on_val: 0x40,
            white_off_reg: 0xB0,
            white_off_val: 0x40,
            red_on_reg: 0xA0,
            red_on_val: 0x80,
            red_off_reg: 0xB0,
            red_off_val: 0x80,
            blink_reg: 0x56,
            blink_on_val: 0x01,
            blink_off_val: 0x00,
        }
    } else if i == 2 {
        LedRegisterMap {
            name: "SSD1",
            white_on_reg: 0xA0,
            white_on_val: 0x04,
            white_off_reg: 0xB0,
            white_off_val: 0x04,
            red_on_reg: 0xA0,
            red_on_val: 0x08,
            red_off_reg: 0xB0,
            red_off_val: 0x08,
            blink_reg: 0x52,
            blink_on_val: 0x01,
            blink_off_val: 0x00,
        }
    } else if i == 3 {
        LedRegisterMap {
            name: "SSD2",
            white_on_reg: 0xA0,
            white_on_val: 0x10,
            white_off_reg: 0xB0,
            white_off_val: 0x10,
            red_on_reg: 0xA0,
            red_on_val: 0x20,
            red_off_reg: 0xB0,
            red_off_val: 0x20,
            blink_reg: 0x54,
            blink_on_val: 0x01,
            blink_off_val: 0x00,
        }
    } else if i == 4 {
        LedRegisterMap {
            name: "NVME1",
            white_on_reg: 0xA1,
            white_on_val: 0x01,
            white_off_reg: 0xB1,
            white_off_val: 0x01,
            red_on_reg: 0xA1,
            red_on_val: 0x02,
            red_off_reg: 0xB1,
            red_off_val: 0x02,
            blink_reg: 0x58,
            blink_on_val: 0x01,
            blink_off_val: 0x00,
        }
    } else if i == 5 {
        LedRegisterMap {
            name: "NVME2",
            white_on_reg: 0xA1,
            white_on_val: 0x04,
            white_off_reg: 0xB1,
            white_off_val: 0x04,
            red_on_reg: 0xA1,
            red_on_val: 0x08,
            red_off_reg: 0xB1,
            red_off_val: 0x08,
            blink_reg: 0x5A,
            blink_on_val: 0x01,
            blink_off_val: 0x00,
        }
    } else if i == 6 {
        LedRegisterMap {
            name: "NVME3",
            white_on_reg: 0xA1,
            white_on_val: 0x10,
            white_off_reg: 0xB1,
            white_off_val: 0x10,
            red_on_reg: 0xA1,
            red_on_val: 0x20,
            red_off_reg: 0xB1,
            red_off_val: 0x20,
            blink_reg: 0x5C,
            blink_on_val: 0x01,
            blink_off_val: 0x00,
        }
    } else {
        LedRegisterMap {
            name: "NVME4",
            white_on_reg: 0xA1,
            white_on_val: 0x40,
            white_off_reg: 0xB1,
            white_off_val: 0x40,
            red_on_reg: 0xA1,
            red_on_val: 0x80,
            red_off_reg: 0xB1,
            red_off_val: 0x80,
            blink_reg: 0x5E,
            blink_on_val: 0x01,
            blink_off_val: 0x00,
        }
    }
}

/// The register map of strip `i`.
pub fn strip_registers(i: usize) -> (r: LedRegisterMap)
    requires
        i < STRIP_COUNT,
    ensures
        r == strip_registers_spec(i as int),
{
    if i == 0 {
        LedRegisterMap {
            name: "POWER",
            white_on_reg: 0xA0,
            white_on_val: 0x01,
            white_off_reg: 0xB0,
            white_off_val: 0x01,
            red_on_reg: 0xA0,
            red_on_val: 0x02,
            red_off_reg: 0xB0,
            red_off_val: 0x02,
            blink_reg: 0x50,
            blink_on_val: 0x01,
            blink_off_val: 0x00,
        }
    } else if i == 1 {
        LedRegisterMap {
            name: "MGMT",
            white_on_reg: 0xA0,
            white_on_val: 0x40,
            white_off_reg: 0xB0,
            white_off_val: 0x40,
            red_on_reg: 0xA0,
            red_on_val: 0x80,
            red_off_reg: 0xB0,
            red_off_val: 0x80,
            blink_reg: 0x56,
            blink_on_val: 0x01,
            blink_off_val: 0x00,
        }
    } else if i == 2 {
        LedRegisterMap {
            name: "SSD1",
            white_on_reg: 0xA0,
            white_on_val: 0x04,
            white_off_reg: 0xB0,
            white_off_val: 0x04,
            red_on_reg: 0xA0,
            red_on_val: 0x08,
            red_off_reg: 0xB0,
            red_off_val: 0x08,
            blink_reg: 0x52,
            blink_on_val: 0x01,
            blink_off_val: 0x00,
        }
    } else if i == 3 {
        LedRegisterMap {
            name: "SSD2",
            white_on_reg: 0xA0,
            white_on_val: 0x10,
            white_off_reg: 0xB0,
            white_off_val: 0x10,
            red_on_reg: 0xA0,
            red_on_val: 0x20,
            red_off_reg: 0xB0,
            red_off_val: 0x20,
            blink_reg: 0x54,
            blink_on_val: 0x01,
            blink_off_val: 0x00,
        }
    } else if i == 4 {
        LedRegisterMap {
            name: "NVME1",
            white_on_reg: 0xA1,
            white_on_val: 0x01,
            white_off_reg: 0xB1,
            white_off_val: 0x01,
            red_on_reg: 0xA1,
            red_on_val: 0x02,
            red_off_reg: 0xB1,
            red_off_val: 0x02,
            blink_reg: 0x58,
            blink_on_val: 0x01,
            blink_off_val: 0x00,
        }
    } else if i == 5 {
        LedRegisterMap {
            name: "NVME2",
            white_on_reg: 0xA1,
            white_on_val: 0x04,
            white_off_reg: 0xB1,
            white_off_val: 0x04,
            red_on_reg: 0xA1,
            red_on_val: 0x08,
            red_off_reg: 0xB1,
            red_off_val: 0x08,
            blink_reg: 0x5A,
            blink_on_val: 0x01,
            blink_off_val: 0x00,
        }
    } else if i == 6 {
        LedRegisterMap {
            name: "NVME3",
            white_on_reg: 0xA1,
            white_on_val: 0x10,
            white_off_reg: 0xB1,
            white_off_val: 0x10,
            red_on_reg: 0xA1,
            red_on_val: 0x20,
            red_off_reg: 0xB1,
            red_off_val: 0x20,
            blink_reg: 0x5C,
            blink_on_val: 0x01,
            blink_off_val: 0x00,
        }
    } else {
        LedRegisterMap {
            name: "NVME4",
            white_on_reg: 0xA1,
            white_on_val: 0x40,
            white_off_reg: 0xB1,
            white_off_val: 0x40,
            red_on_reg: 0xA1,
            red_on_val: 0x80,
            red_off_reg: 0xB1,
            red_off_val: 0x80,
            blink_reg: 0x5E,
            blink_on_val: 0x01,
            blink_off_val: 0x00,
        }
    }
}


/// The complete controller state: the bar and the strips by name.
pub struct LedControllerState {
    pub bar: LedBar,
    pub strips: StringHashMap<LedStrip>,
}

/// The content of a controller state.
#[verifier::ext_equal]
pub struct LedControllerView {
    pub bar: LedBar,
    pub strips: Map<Seq<char>, LedStrip>,
}

impl View for LedControllerState {
    type V = LedControllerView;

    open spec fn view(&self) -> LedControllerView {
        LedControllerView { bar: self.bar, strips: self.strips@ }
    }
}

/// The bar switched off: solid, brightness zero, black.
pub open spec fn bar_off() -> LedBar {
    LedBar {
        mode: LedBarMode::Solid,
        brightness: 0,
        color: LedColor::Black,
        loop_color: LedColor::Black,
    }
}

/// The strip setting with the given channels and blinking.
pub open spec fn strip_setting(white_on: bool, red_on: bool, blink_on: bool) -> LedStrip {
    LedStrip { white_on, red_on, white_blinking: blink_on }
}

/// `strips` with every named strip recorded as `setting`; other entries are
/// kept.
pub open spec fn with_all_strips(strips: Map<Seq<char>, LedStrip>, setting: LedStrip) -> Map<
    Seq<char>,
    LedStrip,
> {
    Map::new(
        |k: Seq<char>| strips.contains_key(k) || is_strip_name(k),
        |k: Seq<char>|
            if is_strip_name(k) {
                setting
            } else {
                strips[k]
            },
    )
}

/// `strips` with every named strip recorded as off; other entries are kept.
pub open spec fn with_strips_off(strips: Map<Seq<char>, LedStrip>) -> Map<Seq<char>, LedStrip> {
    with_all_strips(strips, strip_off())
}

/// `strips` with the first `n` strips recorded as `setting`; other entries
/// are kept.
pub open spec fn set_strips_upto(strips: Map<Seq<char>, LedStrip>, setting: LedStrip, n: int) -> Map<
    Seq<char>,
    LedStrip,
> {
    Map::new(
        |k: Seq<char>|
            strips.contains_key(k) || exists|j: int| 0 <= j < n && #[trigger] strip_name(j) == k,
        |k: Seq<char>|
            if exists|j: int| 0 <= j < n && #[trigger] strip_name(j) == k {
                setting
            } else {
                strips[k]
            },
    )
}

/// Recording strip `n` after the first `n` records the first `n + 1`.
proof fn lemma_set_strips_next(strips: Map<Seq<char>, LedStrip>, setting: LedStrip, n: int)
    requires
        0 <= n,
    ensures
        set_strips_upto(strips, setting, n).insert(strip_name(n), setting) == set_strips_upto(
            strips,
            setting,
            n + 1,
        ),
{
    assert(set_strips_upto(strips, setting, n).insert(strip_name(n), setting) =~= set_strips_upto(
        strips,
        setting,
        n + 1,
    ));
}

/// Recording all eight strips one by one records every named strip.
proof fn lemma_set_strips_all(strips: Map<Seq<char>, LedStrip>, setting: LedStrip)
    ensures
        set_strips_upto(strips, setting, STRIP_COUNT as int) == with_all_strips(strips, setting),
{
    assert(set_strips_upto(strips, setting, STRIP_COUNT as int) =~= with_all_strips(strips, setting));
}

/// Every strip off, and nothing else.
pub open spec fn all_strips_off() -> Map<Seq<char>, LedStrip> {
    with_strips_off(Map::empty())
}

/// Records every named strip as off.
pub fn reset_strips(strips: &mut StringHashMap<LedStrip>)
    ensures
        final(strips)@ == with_strips_off(old(strips)@),
{
    let ghost before = strips@;
    let mut i: usize = 0;
    assert(set_strips_upto(before, strip_off(), 0) =~= before);
    while i < STRIP_COUNT
        invariant
            i <= STRIP_COUNT,
            strips@ == set_strips_upto(before, strip_off(), i as int),
        decreases STRIP_COUNT - i,
    {
        let name = led_strip_name(i).to_owned();
        strips.insert(name, LedStrip::default());
        proof {
            lemma_set_strips_next(before, strip_off(), i as int);
        }
        i = i + 1;
    }
    proof {
        lemma_set_strips_all(before, strip_off());
    }
}

impl Default for LedControllerState {
    fn default() -> (r: LedControllerState)
        ensures
            r@ == (LedControllerView { bar: default_bar(), strips: all_strips_off() }),
    {
        let mut strips = StringHashMap::new();
        reset_strips(&mut strips);
        LedControllerState { bar: LedBar::default(), strips }
    }
}

impl LedControllerState {
    /// A new controller state with all LEDs off: every strip off and the bar
    /// solid black at brightness zero.
    pub fn new() -> (r: LedControllerState)
        ensures
            r@ == (LedControllerView { bar: bar_off(), strips: all_strips_off() }),
    {
        let mut strips = StringHashMap::new();
        reset_strips(&mut strips);
        LedControllerState {
            bar: LedBar {
                mode: LedBarMode::Solid,
                brightness: 0,
                color: LedColor::Black,
                loop_color: LedColor::Black,
            },
            strips,
        }
    }

    /// A state with the given bar and no strips recorded.
    pub fn with_bar(bar: LedBar) -> (r: LedControllerState)
        ensures
            r@ == (LedControllerView { bar, strips: Map::empty() }),
    {
        LedControllerState { bar, strips: StringHashMap::new() }
    }

    /// Records `strip` as the setting of the strip called `name`.
    pub fn set_strip(&mut self, name: String, strip: LedStrip)
        ensures
            final(self)@ == (LedControllerView {
                bar: old(self).bar,
                strips: old(self).strips@.insert(name@, strip),
            }),
    {
        self.strips.insert(name, strip);
    }

    /// The recorded setting of the strip called `name`, if there is one.
    pub fn strip(&self, name: &str) -> (r: Option<LedStrip>)
        ensures
            match r {
                Some(v) => self.strips@.contains_key(name@) && v == self.strips@[name@],
                None => !self.strips@.contains_key(name@),
            },
    {
        match self.strips.get(name) {
            Some(v) => Some(*v),
            None => None,
        }
    }
}


// ============================================================================
// REGISTER WRITES
// ============================================================================

/// One SMBus byte write to the controller.
#[derive(Debug, Clone, Copy, PartialEq, Eq, Structural)]
pub struct RegisterWrite {
    pub register: u8,
    pub value: u8,
}

/// The write of `value` to `register`.
pub open spec fn reg(register: u8, value: u8) -> RegisterWrite {
    RegisterWrite { register, value }
}

/// The writes that put `bar` on the hardware: mode (0x90), brightness (0x91),
/// the color to the solid and breath registers (0x92-0x94) and to loop color
/// A (0x95-0x97), and the loop color to loop color B (0x98-0x9A).
pub open spec fn bar_writes(bar: LedBar) -> Seq<RegisterWrite> {
    let (r, g, b) = rgb(bar.color);
    let (lr, lg, lb) = rgb(bar.loop_color);
    seq![
        reg(0x90, mode_code(bar.mode)),
        reg(0x91, bar.brightness),
        reg(0x92, r),
        reg(0x93, g),
        reg(0x94, b),
        reg(0x95, r),
        reg(0x96, g),
        reg(0x97, b),
        reg(0x98, lr),
        reg(0x99, lg),
        reg(0x9A, lb),
    ]
}

/// The register writes that apply `bar`.
pub fn led_bar_writes(bar: &LedBar) -> (r: Vec<RegisterWrite>)
    ensures
        r@ == bar_writes(*bar),
{
    let (red, green, blue) = color_to_rgb(bar.color);
    let (loop_red, loop_green, loop_blue) = color_to_rgb(bar.loop_color);
    let mut r: Vec<RegisterWrite> = Vec::new();
    r.push(RegisterWrite { register: 0x90, value: mode_register_value(bar.mode) });
    r.push(RegisterWrite { register: 0x91, value: bar.brightness });
    r.push(RegisterWrite { register: 0x92, value: red });
    r.push(RegisterWrite { register: 0x93, value: green });
    r.push(RegisterWrite { register: 0x94, value: blue });
    r.push(RegisterWrite { register: 0x95, value: red });
    r.push(RegisterWrite { register: 0x96, value: green });
    r.push(RegisterWrite { register: 0x97, value: blue });
    r.push(RegisterWrite { register: 0x98, value: loop_red });
    r.push(RegisterWrite { register: 0x99, value: loop_green });
    r.push(RegisterWrite { register: 0x9A, value: loop_blue });
    assert(r@ =~= bar_writes(*bar));
    r
}

/// The writes that set a strip through its register map: white on or off,
/// red on or off, then blinking on or off.
pub open spec fn strip_writes(map: LedRegisterMap, white_on: bool, red_on: bool, blink_on: bool) -> Seq<
    RegisterWrite,
> {
    seq![
        if white_on {
            reg(map.white_on_reg, map.white_on_val)
        } else {
            reg(map.white_off_reg, map.white_off_val)
        },
        if red_on {
            reg(map.red_on_reg, map.red_on_val)
        } else {
            reg(map.red_off_reg, map.red_off_val)
        },
        if blink_on {
            reg(map.blink_reg, map.blink_on_val)
        } else {
            reg(map.blink_reg, map.blink_off_val)
        },
    ]
}

/// The register writes that set a strip's channels and blinking.
pub fn led_strip_writes(map: &LedRegisterMap, white_on: bool, red_on: bool, blink_on: bool) -> (r:
    Vec<RegisterWrite>)
    ensures
        r@ == strip_writes(*map, white_on, red_on, blink_on),
{
    let mut r: Vec<RegisterWrite> = Vec::new();
    if white_on {
        r.push(RegisterWrite { register: map.white_on_reg, value: map.white_on_val });
    } else {
        r.push(RegisterWrite { register: map.white_off_reg, value: map.white_off_val });
    }
    if red_on {
        r.push(RegisterWrite { register: map.red_on_reg, value: map.red_on_val });
    } else {
        r.push(RegisterWrite { register: map.red_off_reg, value: map.red_off_val });
    }
    if blink_on {
        r.push(RegisterWrite { register: map.blink_reg, value: map.blink_on_val });
    } else {
        r.push(RegisterWrite { register: map.blink_reg, value: map.blink_off_val });
    }
    assert(r@ =~= strip_writes(*map, white_on, red_on, blink_on));
    r
}

/// Whether `v` has exactly one bit set.
pub open spec fn is_single_bit(v: u8) -> bool {
    v == 0x01 || v == 0x02 || v == 0x04 || v == 0x08 || v == 0x10 || v == 0x20 || v == 0x40
        || v == 0x80
}

/// The layout of the strip registers: each strip's white and red channels are
/// two different single bits of one control register, switched on through it
/// and off through the register 0x10 above it with the same bit; strips that
/// share a control register use disjoint bits; every strip blinks through a
/// register of its own, outside the control registers, with 0x01 for on and
/// 0x00 for off.
pub proof fn lemma_strip_register_layout(i: int, j: int)
    requires
        0 <= i < STRIP_COUNT,
        0 <= j < STRIP_COUNT,
    ensures
        ({
            let m = strip_registers_spec(i);
            &&& m.red_on_reg == m.white_on_reg
            &&& m.white_off_reg == m.white_on_reg + 0x10
            &&& m.red_off_reg == m.white_off_reg
            &&& m.white_off_val == m.white_on_val
            &&& m.red_off_val == m.red_on_val
            &&& is_single_bit(m.white_on_val)
            &&& is_single_bit(m.red_on_val)
            &&& m.white_on_val != m.red_on_val
            &&& m.blink_on_val == 0x01
            &&& m.blink_off_val == 0x00
            &&& m.blink_reg != m.white_on_reg
            &&& m.blink_reg != m.white_off_reg
        }),
        i != j ==> ({
            let a = strip_registers_spec(i);
            let b = strip_registers_spec(j);
            &&& a.blink_reg != b.blink_reg
            &&& a.white_on_reg == b.white_on_reg ==> a.white_on_val != b.white_on_val
                && a.white_on_val != b.red_on_val && a.red_on_val != b.white_on_val
                && a.red_on_val != b.red_on_val
        }),
{
}


/// The register map of each strip carries that strip's name.
pub proof fn lemma_register_map_names(i: int)
    requires
        0 <= i < STRIP_COUNT,
    ensures
        strip_registers_spec(i).name@ == strip_name(i),
{
}

/// The position of the strip called `name`, if there is one.
pub open spec fn strip_index_of(name: Seq<char>) -> Option<int> {
    if is_strip_name(name) {
        Some(choose|i: int| 0 <= i < STRIP_COUNT && #[trigger] strip_name(i) == name)
    } else {
        None
    }
}

/// The position of the strip whose register map is named `name`.
pub fn find_strip(name: &str) -> (r: Option<usize>)
    ensures
        match strip_index_of(name@) {
            Some(i) => r == Some(i as usize),
            None => r is None,
        },
{
    let mut i: usize = 0;
    while i < STRIP_COUNT
        invariant
            i <= STRIP_COUNT,
            forall|j: int| 0 <= j < i ==> #[trigger] strip_name(j) != name@,
        decreases STRIP_COUNT - i,
    {
        let map = strip_registers(i);
        proof {
            lemma_register_map_names(i as int);
        }
        if same_text(map.name, name) {
            proof {
                let c = choose|k: int| 0 <= k < STRIP_COUNT && #[trigger] strip_name(k) == name@;
                if c != i {
                    lemma_strip_names_distinct(c, i as int);
                }
            }
            return Some(i);
        }
        i = i + 1;
    }
    None
}

// ============================================================================
// COMMANDS
// ============================================================================

/// The commands that the controller carries out.
#[derive(Debug, Clone)]
pub enum LedCommand {
    /// Apply a bar configuration.
    ApplyBar(LedBar),
    /// Set one strip, by name: white on, red on, blinking.
    SetSingleLed(String, bool, bool, bool),
    /// Bar solid white at full brightness, and white on for every strip.
    AllStripsWhite,
    /// Bar solid red at full brightness, and red on for every strip.
    AllStripsRed,
    /// Everything off.
    AllLEDsOff,
}

/// One step of carrying out a command, in order: a change to the recorded
/// state, or a set of register writes on the controller.
#[derive(Debug, Clone, Copy, PartialEq, Eq, Structural)]
pub enum CommandStep {
    /// Record `bar` as the bar's configuration.
    SetBar(LedBar),
    /// Record every strip as off.
    ResetStrips,
    /// Record the setting of strip `strip`.
    SetStrip { strip: usize, white_on: bool, red_on: bool, blink_on: bool },
    /// Write a bar configuration to the controller (`led_bar_writes`).
    WriteBar(LedBar),
    /// Write a strip's settings to the controller (`led_strip_writes`).
    WriteStrip { strip: usize, white_on: bool, red_on: bool, blink_on: bool },
}

/// The bar solid at full brightness in one color.
pub open spec fn bar_solid(color: LedColor) -> LedBar {
    LedBar { mode: LedBarMode::Solid, brightness: 255, color, loop_color: color }
}

/// A solid bar at full brightness in `color`.
fn solid_bar(color: LedColor) -> (r: LedBar)
    ensures
        r == bar_solid(color),
{
    LedBar { mode: LedBarMode::Solid, brightness: 255, color, loop_color: color }
}

/// Writing strip `i` and then recording its new setting.
pub open spec fn strip_pair(i: int, white_on: bool, red_on: bool, blink_on: bool) -> Seq<
    CommandStep,
> {
    seq![
        CommandStep::WriteStrip { strip: i as usize, white_on, red_on, blink_on },
        CommandStep::SetStrip { strip: i as usize, white_on, red_on, blink_on },
    ]
}

/// The same settings for every strip, in strip order: each strip is written,
/// then its setting recorded.
pub open spec fn every_strip(white_on: bool, red_on: bool, blink_on: bool) -> Seq<CommandStep> {
    Seq::new(
        (2 * STRIP_COUNT) as nat,
        |k: int|
            if k % 2 == 0 {
                CommandStep::WriteStrip { strip: (k / 2) as usize, white_on, red_on, blink_on }
            } else {
                CommandStep::SetStrip { strip: (k / 2) as usize, white_on, red_on, blink_on }
            },
    )
}

/// The first `n + 1` strips of `every_strip` are its first `n` and then strip `n`.
proof fn lemma_every_strip_take(white_on: bool, red_on: bool, blink_on: bool, n: int)
    requires
        0 <= n < STRIP_COUNT,
    ensures
        every_strip(white_on, red_on, blink_on).take(2 * n + 2) == every_strip(
            white_on,
            red_on,
            blink_on,
        ).take(2 * n) + strip_pair(n, white_on, red_on, blink_on),
{
    assert(every_strip(white_on, red_on, blink_on).take(2 * n + 2) =~= every_strip(
        white_on,
        red_on,
        blink_on,
    ).take(2 * n) + strip_pair(n, white_on, red_on, blink_on));
}

/// The error of a strip name without a register map.
pub open spec fn unknown_strip_message(name: Seq<char>) -> Seq<char> {
    "No strip register for '"@ + name + "'"@
}

/// The steps that carry out `cmd`, or the error that refuses it.
pub open spec fn command_steps(cmd: LedCommand) -> Result<Seq<CommandStep>, Seq<char>> {
    match cmd {
        LedCommand::ApplyBar(bar) => Ok(seq![CommandStep::SetBar(bar), CommandStep::WriteBar(bar)]),
        LedCommand::SetSingleLed(name, white_on, red_on, blink_on) => match strip_index_of(name@) {
            Some(i) => Ok(strip_pair(i, white_on, red_on, blink_on)),
            None => Err(unknown_strip_message(name@)),
        },
        LedCommand::AllStripsWhite => Ok(
            seq![
                CommandStep::WriteBar(bar_solid(LedColor::White)),
                CommandStep::SetBar(bar_solid(LedColor::White)),
            ] + every_strip(true, false, false),
        ),
        LedCommand::AllStripsRed => Ok(
            seq![
                CommandStep::WriteBar(bar_solid(LedColor::Red)),
                CommandStep::SetBar(bar_solid(LedColor::Red)),
            ] + every_strip(false, true, false),
        ),
        LedCommand::AllLEDsOff => Ok(
            seq![
                CommandStep::ResetStrips,
                CommandStep::WriteBar(bar_off()),
                CommandStep::SetBar(bar_off()),
            ] + every_strip(false, false, false),
        ),
    }
}

/// Appends writing strip `i` and recording its setting.
fn push_strip_pair(steps: &mut Vec<CommandStep>, i: usize, white_on: bool, red_on: bool, blink_on: bool)
    ensures
        final(steps)@ == old(steps)@ + strip_pair(i as int, white_on, red_on, blink_on),
{
    steps.push(CommandStep::WriteStrip { strip: i, white_on, red_on, blink_on });
    steps.push(CommandStep::SetStrip { strip: i, white_on, red_on, blink_on });
    assert(steps@ =~= old(steps)@ + strip_pair(i as int, white_on, red_on, blink_on));
}

/// Appends the same settings for every strip.
fn push_every_strip(steps: &mut Vec<CommandStep>, white_on: bool, red_on: bool, blink_on: bool)
    ensures
        final(steps)@ == old(steps)@ + every_strip(white_on, red_on, blink_on),
{
    let ghost before = steps@;
    let mut i: usize = 0;
    while i < STRIP_COUNT
        invariant
            i <= STRIP_COUNT,
            steps@ == before + every_strip(white_on, red_on, blink_on).take(2 * i),
        decreases STRIP_COUNT - i,
    {
        push_strip_pair(steps, i, white_on, red_on, blink_on);
        proof {
            lemma_every_strip_take(white_on, red_on, blink_on, i as int);
        }
        i = i + 1;
    }
    assert(every_strip(white_on, red_on, blink_on).take(2 * STRIP_COUNT) == every_strip(
        white_on,
        red_on,
        blink_on,
    ));
}

/// The steps that carry out `cmd`, in order; a strip name without a register
/// map is refused.
pub fn command_plan(cmd: &LedCommand) -> (r: Result<Vec<CommandStep>, String>)
    ensures
        match command_steps(*cmd) {
            Ok(steps) => r matches Ok(v) && v@ == steps,
            Err(msg) => r matches Err(e) && e@ == msg,
        },
{
    let mut steps: Vec<CommandStep> = Vec::new();
    match cmd {
        LedCommand::ApplyBar(bar) => {
            steps.push(CommandStep::SetBar(*bar));
            steps.push(CommandStep::WriteBar(*bar));
            assert(steps@ =~= seq![CommandStep::SetBar(*bar), CommandStep::WriteBar(*bar)]);
        },
        LedCommand::SetSingleLed(name, white_on, red_on, blink_on) => {
            match find_strip(name.as_str()) {
                Some(i) => {
                    push_strip_pair(&mut steps, i, *white_on, *red_on, *blink_on);
                    assert(steps@ =~= strip_pair(i as int, *white_on, *red_on, *blink_on));
                },
                None => {
                    let mut msg = "No strip register for '".to_owned();
                    msg.append(name.as_str());
                    msg.append("'");
                    return Err(msg);
                },
            }
        },
        LedCommand::AllStripsWhite => {
            let bar = solid_bar(LedColor::White);
            steps.push(CommandStep::WriteBar(bar));
            steps.push(CommandStep::SetBar(bar));
            push_every_strip(&mut steps, true, false, false);
        },
        LedCommand::AllStripsRed => {
            let bar = solid_bar(LedColor::Red);
            steps.push(CommandStep::WriteBar(bar));
            steps.push(CommandStep::SetBar(bar));
            push_every_strip(&mut steps, false, true, false);
        },
        LedCommand::AllLEDsOff => {
            let bar = LedBar {
                mode: LedBarMode::Solid,
                brightness: 0,
                color: LedColor::Black,
                loop_color: LedColor::Black,
            };
            steps.push(CommandStep::ResetStrips);
            steps.push(CommandStep::WriteBar(bar));
            steps.push(CommandStep::SetBar(bar));
            push_every_strip(&mut steps, false, false, false);
        },
    }
    Ok(steps)
}

// ============================================================================
// EXECUTION
// ============================================================================

/// What `step` does to the recorded state: `SetBar` records the bar,
/// `ResetStrips` records every strip as off, `SetStrip` records one strip's
/// setting, writes leave the state alone.
pub open spec fn step_effect(s: LedControllerView, step: CommandStep) -> LedControllerView {
    match step {
        CommandStep::SetBar(bar) => LedControllerView { bar, strips: s.strips },
        CommandStep::ResetStrips => LedControllerView {
            bar: s.bar,
            strips: with_strips_off(s.strips),
        },
        CommandStep::SetStrip { strip, white_on, red_on, blink_on } => if strip < STRIP_COUNT {
            LedControllerView {
                bar: s.bar,
                strips: s.strips.insert(
                    strip_name(strip as int),
                    strip_setting(white_on, red_on, blink_on),
                ),
            }
        } else {
            s
        },
        _ => s,
    }
}

/// The recorded state after `steps`, in order.
pub open spec fn apply_steps(s: LedControllerView, steps: Seq<CommandStep>) -> LedControllerView
    decreases steps.len(),
{
    if steps.len() == 0 {
        s
    } else {
        step_effect(apply_steps(s, steps.drop_last()), steps.last())
    }
}

/// What a command records in the state: the bar configuration it applies,
/// and the setting of every strip it sets (for `AllLEDsOff`, every strip off).
pub open spec fn command_effect(s: LedControllerView, cmd: LedCommand) -> LedControllerView {
    match cmd {
        LedCommand::ApplyBar(bar) => LedControllerView { bar, strips: s.strips },
        LedCommand::SetSingleLed(name, white_on, red_on, blink_on) => if is_strip_name(name@) {
            LedControllerView {
                bar: s.bar,
                strips: s.strips.insert(name@, strip_setting(white_on, red_on, blink_on)),
            }
        } else {
            s
        },
        LedCommand::AllStripsWhite => LedControllerView {
            bar: bar_solid(LedColor::White),
            strips: with_all_strips(s.strips, strip_setting(true, false, false)),
        },
        LedCommand::AllStripsRed => LedControllerView {
            bar: bar_solid(LedColor::Red),
            strips: with_all_strips(s.strips, strip_setting(false, true, false)),
        },
        LedCommand::AllLEDsOff => LedControllerView {
            bar: bar_off(),
            strips: with_strips_off(s.strips),
        },
    }
}

/// Carrying out `a` and then `b` records the same as carrying out `a + b`.
pub proof fn lemma_apply_steps_concat(s: LedControllerView, a: Seq<CommandStep>, b: Seq<CommandStep>)
    ensures
        apply_steps(apply_steps(s, a), b) == apply_steps(s, a + b),
    decreases b.len(),
{
    if b.len() == 0 {
        assert(a + b == a);
    } else {
        lemma_apply_steps_concat(s, a, b.drop_last());
        assert((a + b).drop_last() == a + b.drop_last());
        assert((a + b).last() == b.last());
    }
}

/// Carrying out one step records its effect.
proof fn lemma_apply_one(s: LedControllerView, step: CommandStep)
    ensures
        apply_steps(s, seq![step]) == step_effect(s, step),
{
    let one = seq![step];
    assert(one.drop_last() == Seq::<CommandStep>::empty());
    assert(apply_steps(s, Seq::<CommandStep>::empty()) == s);
    assert(one.last() == step);
    assert(apply_steps(s, one) == step_effect(apply_steps(s, one.drop_last()), one.last()));
}

/// Carrying out two steps records their effects in order.
proof fn lemma_apply_two(s: LedControllerView, a: CommandStep, b: CommandStep)
    ensures
        apply_steps(s, seq![a, b]) == step_effect(step_effect(s, a), b),
{
    lemma_apply_one(s, a);
    lemma_apply_one(step_effect(s, a), b);
    lemma_apply_steps_concat(s, seq![a], seq![b]);
    assert(seq![a] + seq![b] == seq![a, b]);
}

/// Writing and recording the first `n` strips records their setting.
proof fn lemma_every_strip_partial(s: LedControllerView, white_on: bool, red_on: bool, blink_on: bool, n: int)
    requires
        0 <= n <= STRIP_COUNT,
    ensures
        apply_steps(s, every_strip(white_on, red_on, blink_on).take(2 * n)) == (LedControllerView {
            bar: s.bar,
            strips: set_strips_upto(s.strips, strip_setting(white_on, red_on, blink_on), n),
        }),
    decreases n,
{
    let setting = strip_setting(white_on, red_on, blink_on);
    if n == 0 {
        assert(every_strip(white_on, red_on, blink_on).take(0) == Seq::<CommandStep>::empty());
        assert(set_strips_upto(s.strips, setting, 0) =~= s.strips);
    } else {
        let before = every_strip(white_on, red_on, blink_on).take(2 * (n - 1));
        lemma_every_strip_partial(s, white_on, red_on, blink_on, n - 1);
        lemma_every_strip_take(white_on, red_on, blink_on, n - 1);
        lemma_apply_steps_concat(s, before, strip_pair(n - 1, white_on, red_on, blink_on));
        lemma_apply_two(
            apply_steps(s, before),
            CommandStep::WriteStrip { strip: (n - 1) as usize, white_on, red_on, blink_on },
            CommandStep::SetStrip { strip: (n - 1) as usize, white_on, red_on, blink_on },
        );
        lemma_set_strips_next(s.strips, setting, n - 1);
    }
}

/// Writing and recording every strip records the setting for every strip.
proof fn lemma_every_strip_effect(s: LedControllerView, white_on: bool, red_on: bool, blink_on: bool)
    ensures
        apply_steps(s, every_strip(white_on, red_on, blink_on)) == (LedControllerView {
            bar: s.bar,
            strips: with_all_strips(s.strips, strip_setting(white_on, red_on, blink_on)),
        }),
{
    lemma_every_strip_partial(s, white_on, red_on, blink_on, STRIP_COUNT as int);
    assert(every_strip(white_on, red_on, blink_on).take(2 * STRIP_COUNT) == every_strip(
        white_on,
        red_on,
        blink_on,
    ));
    lemma_set_strips_all(s.strips, strip_setting(white_on, red_on, blink_on));
}

/// Carrying out the steps of a command, with every write succeeding, leaves
/// the recorded state as the command describes.
pub proof fn lemma_plan_effect(s: LedControllerView, cmd: LedCommand)
    requires
        command_steps(cmd) is Ok,
    ensures
        apply_steps(s, command_steps(cmd)->Ok_0) == command_effect(s, cmd),
{
    match cmd {
        LedCommand::ApplyBar(bar) => {
            lemma_apply_two(s, CommandStep::SetBar(bar), CommandStep::WriteBar(bar));
        },
        LedCommand::SetSingleLed(name, white_on, red_on, blink_on) => {
            let i = strip_index_of(name@)->0;
            lemma_apply_two(
                s,
                CommandStep::WriteStrip { strip: i as usize, white_on, red_on, blink_on },
                CommandStep::SetStrip { strip: i as usize, white_on, red_on, blink_on },
            );
        },
        LedCommand::AllStripsWhite => {
            let bar = bar_solid(LedColor::White);
            lemma_apply_two(s, CommandStep::WriteBar(bar), CommandStep::SetBar(bar));
            lemma_apply_steps_concat(
                s,
                seq![CommandStep::WriteBar(bar), CommandStep::SetBar(bar)],
                every_strip(true, false, false),
            );
            lemma_every_strip_effect(step_effect(s, CommandStep::SetBar(bar)), true, false, false);
        },
        LedCommand::AllStripsRed => {
            let bar = bar_solid(LedColor::Red);
            lemma_apply_two(s, CommandStep::WriteBar(bar), CommandStep::SetBar(bar));
            lemma_apply_steps_concat(
                s,
                seq![CommandStep::WriteBar(bar), CommandStep::SetBar(bar)],
                every_strip(false, true, false),
            );
            lemma_every_strip_effect(step_effect(s, CommandStep::SetBar(bar)), false, true, false);
        },
        LedCommand::AllLEDsOff => {
            let head = seq![
                CommandStep::ResetStrips,
                CommandStep::WriteBar(bar_off()),
                CommandStep::SetBar(bar_off()),
            ];
            lemma_apply_two(s, CommandStep::ResetStrips, CommandStep::WriteBar(bar_off()));
            lemma_apply_steps_concat(
                s,
                seq![CommandStep::ResetStrips, CommandStep::WriteBar(bar_off())],
                seq![CommandStep::SetBar(bar_off())],
            );
            assert(seq![CommandStep::ResetStrips, CommandStep::WriteBar(bar_off())] + seq![
                CommandStep::SetBar(bar_off()),
            ] == head);
            let after_head = LedControllerView { bar: bar_off(), strips: with_strips_off(s.strips) };
            lemma_apply_one(
                apply_steps(s, seq![CommandStep::ResetStrips, CommandStep::WriteBar(bar_off())]),
                CommandStep::SetBar(bar_off()),
            );
            lemma_apply_steps_concat(s, head, every_strip(false, false, false));
            lemma_every_strip_effect(after_head, false, false, false);
            assert(with_all_strips(with_strips_off(s.strips), strip_off()) =~= with_strips_off(
                s.strips,
            ));
        },
    }
}

/// The register writes that `step` makes; none for a state step or a strip
/// position without a register map.
pub open spec fn writes_of(step: CommandStep) -> Seq<RegisterWrite> {
    match step {
        CommandStep::WriteBar(bar) => bar_writes(bar),
        CommandStep::WriteStrip { strip, white_on, red_on, blink_on } => if strip < STRIP_COUNT {
            strip_writes(strip_registers_spec(strip as int), white_on, red_on, blink_on)
        } else {
            Seq::empty()
        },
        _ => Seq::empty(),
    }
}

/// The register writes that `step` makes on the controller, in order.
pub fn step_writes(step: &CommandStep) -> (r: Vec<RegisterWrite>)
    ensures
        r@ == writes_of(*step),
{
    match step {
        CommandStep::WriteBar(bar) => led_bar_writes(bar),
        CommandStep::WriteStrip { strip, white_on, red_on, blink_on } => {
            if *strip < STRIP_COUNT {
                let map = strip_registers(*strip);
                led_strip_writes(&map, *white_on, *red_on, *blink_on)
            } else {
                Vec::new()
            }
        },
        _ => Vec::new(),
    }
}

impl LedControllerState {
    /// Records what `step` changes in the state.
    pub fn apply_step(&mut self, step: &CommandStep)
        ensures
            final(self)@ == step_effect(old(self)@, *step),
    {
        match step {
            CommandStep::SetBar(bar) => {
                self.bar = *bar;
            },
            CommandStep::ResetStrips => {
                reset_strips(&mut self.strips);
            },
            CommandStep::SetStrip { strip, white_on, red_on, blink_on } => {
                if *strip < STRIP_COUNT {
                    let name = led_strip_name(*strip).to_owned();
                    self.strips.insert(
                        name,
                        LedStrip { white_on: *white_on, red_on: *red_on, white_blinking: *blink_on },
                    );
                }
            },
            _ => {},
        }
    }
}

/// Consecutive stretches of a run compose: recording the steps from `i` to
/// `j` and then those from `j` to `k` records the same as the steps from `i`
/// to `k`. With `lemma_plan_effect`, a run whose every transfer succeeded
/// leaves the state as `command_effect` describes.
pub proof fn lemma_run_composes(s: LedControllerView, steps: Seq<CommandStep>, i: int, j: int, k: int)
    requires
        0 <= i <= j <= k <= steps.len(),
    ensures
        apply_steps(apply_steps(s, steps.subrange(i, j)), steps.subrange(j, k)) == apply_steps(
            s,
            steps.subrange(i, k),
        ),
{
    lemma_apply_steps_concat(s, steps.subrange(i, j), steps.subrange(j, k));
    assert(steps.subrange(i, j) + steps.subrange(j, k) =~= steps.subrange(i, k));
}

/// Carrying out steps never drops a recorded strip, and records every named
/// strip once `ResetStrips` is among them.
pub proof fn lemma_steps_keep_strips(s: LedControllerView, steps: Seq<CommandStep>, k: Seq<char>)
    ensures
        s.strips.contains_key(k) ==> apply_steps(s, steps).strips.contains_key(k),
        steps.contains(CommandStep::ResetStrips) && is_strip_name(k) ==> apply_steps(
            s,
            steps,
        ).strips.contains_key(k),
    decreases steps.len(),
{
    if steps.len() > 0 {
        lemma_steps_keep_strips(s, steps.drop_last(), k);
        if steps.contains(CommandStep::ResetStrips) && steps.last() != CommandStep::ResetStrips {
            let i = choose|i: int| 0 <= i < steps.len() && steps[i] == CommandStep::ResetStrips;
            assert(steps.drop_last()[i] == CommandStep::ResetStrips);
        }
    }
}

/// Whether `step` is a set of register writes rather than a state change.
pub open spec fn is_transfer(step: CommandStep) -> bool {
    step is WriteBar || step is WriteStrip
}

/// A command being carried out: its steps, and how many of them are done.
pub struct CommandRun {
    steps: Vec<CommandStep>,
    next: usize,
}

impl CommandRun {
    /// The steps of the command.
    pub closed spec fn steps(&self) -> Seq<CommandStep> {
        self.steps@
    }

    /// How many steps are done.
    pub closed spec fn done(&self) -> nat {
        self.next as nat
    }

    /// No more steps are done than there are.
    #[verifier::type_invariant]
    spec fn done_within_steps(self) -> bool {
        self.next <= self.steps@.len()
    }

    /// Starts carrying out `cmd`: its steps, none done yet; a strip name
    /// without a register map is refused.
    pub fn start(cmd: &LedCommand) -> (r: Result<CommandRun, String>)
        ensures
            match command_steps(*cmd) {
                Ok(steps) => r matches Ok(run) && run.steps() == steps && run.done() == 0,
                Err(msg) => r matches Err(e) && e@ == msg,
            },
    {
        match command_plan(cmd) {
            Ok(steps) => Ok(CommandRun { steps, next: 0 }),
            Err(e) => Err(e),
        }
    }

    /// Records the state changes up to the next set of register writes and
    /// returns those writes for the controller, or `None` when every step is
    /// done.
    pub fn next_transfer(&mut self, state: &mut LedControllerState) -> (r: Option<Vec<RegisterWrite>>)
        ensures
            final(self).done() <= final(self).steps().len(),
            final(self).steps() == old(self).steps(),
            old(self).done() <= final(self).done(),
            final(state)@ == apply_steps(
                old(state)@,
                old(self).steps().subrange(old(self).done() as int, final(self).done() as int),
            ),
            forall|k: int|
                old(self).done() <= k < final(self).done() - 1 ==> !is_transfer(
                    #[trigger] old(self).steps()[k],
                ),
            match r {
                Some(writes) => final(self).done() > old(self).done() && is_transfer(
                    old(self).steps()[final(self).done() - 1],
                ) && writes@ == writes_of(old(self).steps()[final(self).done() - 1]),
                None => final(self).done() == final(self).steps().len() && (old(self).done()
                    < final(self).done() ==> !is_transfer(
                    old(self).steps()[final(self).done() - 1],
                )),
            },
    {
        proof {
            use_type_invariant(&*self);
        }
        let ghost start = self.next as int;
        let ghost s0 = state@;
        let ghost steps = self.steps@;
        assert(steps.subrange(start, start) == Seq::<CommandStep>::empty());
        while self.next < self.steps.len()
            invariant
                start <= self.next <= self.steps@.len(),
                steps == self.steps@,
                steps == old(self).steps@,
                start == old(self).next,
                s0 == old(state)@,
                state@ == apply_steps(s0, steps.subrange(start, self.next as int)),
                forall|k: int| start <= k < self.next ==> !is_transfer(#[trigger] steps[k]),
            decreases self.steps@.len() - self.next,
        {
            let i = self.next;
            let step = self.steps[i];
            proof {
                assert(step == steps[i as int]);
                assert(steps.subrange(start, i + 1) =~= steps.subrange(start, i as int).push(step));
                let next_sub = steps.subrange(start, i + 1);
                assert(next_sub.drop_last() == steps.subrange(start, i as int));
                assert(next_sub.last() == step);
                assert(apply_steps(s0, next_sub) == step_effect(state@, step));
            }
            self.next = i + 1;
            match step {
                CommandStep::WriteBar(_) | CommandStep::WriteStrip { .. } => {
                    return Some(step_writes(&step));
                },
                _ => {
                    state.apply_step(&step);
                },
            }
        }
        None
    }
}

// ============================================================================
// HARDWARE DISCOVERY AND READ-BACK
// ============================================================================

/// The bus that an entry of `/sys/class/i2c-dev` names: `i2c-N` with `N` a
/// `u32`.
pub open spec fn bus_of_entry(entry: Seq<char>) -> Option<u32> {
    match strip_prefix(entry, "i2c-"@) {
        Some(rest) => match parse_unsigned(rest, 10, u32::MAX as nat) {
            Some(n) => Some(n as u32),
            None => None,
        },
        None => None,
    }
}

/// The buses that the entries name, in entry order.
pub open spec fn buses_of_entries(entries: Seq<Seq<char>>) -> Seq<u32>
    decreases entries.len(),
{
    if entries.len() == 0 {
        Seq::empty()
    } else {
        let before = buses_of_entries(entries.drop_last());
        match bus_of_entry(entries.last()) {
            Some(n) => before.push(n),
            None => before,
        }
    }
}

/// The bus that an entry of `/sys/class/i2c-dev` names.
pub fn bus_from_entry(entry: &str) -> (r: Option<u32>)
    ensures
        r == bus_of_entry(entry@),
{
    match strip_prefix_str(entry, "i2c-") {
        Some(rest) => {
            let v = chars_of(rest);
            assert(v@.subrange(0, v@.len() as int) == v@);
            match parse_unsigned_in(&v, 0, v.len(), 10, u32::MAX as u64) {
                Some(n) => Some(n as u32),
                None => None,
            }
        },
        None => None,
    }
}

/// Ascending order of bus numbers.
pub open spec fn ascending(a: u32, b: u32) -> bool {
    a <= b
}

/// `v` sorted in ascending order.
fn sort_ascending(v: Vec<u32>) -> (r: Vec<u32>)
    ensures
        sorted_by(r@, |a: u32, b: u32| ascending(a, b)),
        r@.to_multiset() == v@.to_multiset(),
{
    let mut r: Vec<u32> = Vec::new();
    let mut k: usize = 0;
    proof {
        broadcast use vstd::seq_lib::group_to_multiset_ensures;

        assert(v@.take(0) == Seq::<u32>::empty());
        assert(r@ == Seq::<u32>::empty());
    }
    while k < v.len()
        invariant
            k <= v@.len(),
            forall|i: int, j: int| 0 <= i < j < r@.len() ==> r@[i] <= r@[j],
            r@.to_multiset() == v@.take(k as int).to_multiset(),
        decreases v@.len() - k,
    {
        let x = v[k];
        let mut pos: usize = 0;
        while pos < r.len() && r[pos] <= x
            invariant
                pos <= r@.len(),
                forall|i: int| 0 <= i < pos ==> r@[i] <= x,
            decreases r@.len() - pos,
        {
            pos = pos + 1;
        }
        proof {
            vstd::seq_lib::to_multiset_insert(r@, pos as int, x);
            vstd::seq_lib::to_multiset_build(v@.take(k as int), x);
            assert(v@.take(k + 1) == v@.take(k as int).push(x));
        }
        r.insert(pos, x);
        k = k + 1;
    }
    assert(v@.take(v@.len() as int) == v@);
    r
}

/// The buses that the entries of `/sys/class/i2c-dev` name, in ascending
/// order; entries that name no bus are left out.
pub fn bus_numbers(entries: &Vec<String>) -> (r: Vec<u32>)
    ensures
        sorted_by(r@, |a: u32, b: u32| ascending(a, b)),
        r@.to_multiset() == buses_of_entries(entries@.map_values(|e: String| e@)).to_multiset(),
{
    let ghost views = entries@.map_values(|e: String| e@);
    let mut found: Vec<u32> = Vec::new();
    let mut i: usize = 0;
    while i < entries.len()
        invariant
            i <= entries@.len(),
            views == entries@.map_values(|e: String| e@),
            found@ == buses_of_entries(views.take(i as int)),
        decreases entries@.len() - i,
    {
        assert(views.take(i + 1).drop_last() == views.take(i as int));
        assert(views.take(i + 1).last() == entries@[i as int]@);
        match bus_from_entry(entries[i].as_str()) {
            Some(n) => found.push(n),
            None => {},
        }
        i = i + 1;
    }
    assert(views.take(entries@.len() as int) == views);
    sort_ascending(found)
}

/// What the search for the controller does next.
#[derive(Debug, Clone, Copy, PartialEq, Eq, Structural)]
pub enum ProbeAction {
    /// Read register 0x50 of the controller address on this bus.
    Probe(u32),
    /// The controller answers on this bus.
    Found(i32),
    /// No bus answered.
    NotFound,
}

/// The search for the bus of the controller: the buses of
/// `/sys/class/i2c-dev` in ascending order, and how many have been probed.
pub struct BusSearch {
    buses: Vec<u32>,
    next: usize,
}

impl BusSearch {
    /// No more buses are probed than there are.
    #[verifier::type_invariant]
    spec fn probed_within_buses(self) -> bool {
        self.next <= self.buses@.len()
    }

    /// The buses to probe, in order.
    pub closed spec fn buses(&self) -> Seq<u32> {
        self.buses@
    }

    /// How many buses have been probed.
    pub closed spec fn probed(&self) -> nat {
        self.next as nat
    }

    /// A search over the buses that the entries of `/sys/class/i2c-dev`
    /// name, in ascending order, none probed yet.
    pub fn new(entries: &Vec<String>) -> (r: BusSearch)
        ensures
            sorted_by(r.buses(), |a: u32, b: u32| ascending(a, b)),
            r.buses().to_multiset() == buses_of_entries(
                entries@.map_values(|e: String| e@),
            ).to_multiset(),
            r.probed() == 0,
    {
        BusSearch { buses: bus_numbers(entries), next: 0 }
    }

    /// The next move of the search, given whether the bus probed last
    /// answered (`false` before the first probe): that bus when it answered,
    /// otherwise the next bus to probe, or `NotFound` when every bus has been
    /// probed.
    pub fn step(&mut self, last_answered: bool) -> (r: ProbeAction)
        ensures
            final(self).buses() == old(self).buses(),
            final(self).probed() <= final(self).buses().len(),
            (if last_answered && old(self).probed() > 0 {
                r == ProbeAction::Found(old(self).buses()[old(self).probed() - 1] as i32)
                    && final(self).probed() == old(self).probed()
            } else if old(self).probed() < old(self).buses().len() {
                r == ProbeAction::Probe(old(self).buses()[old(self).probed() as int])
                    && final(self).probed() == old(self).probed() + 1
            } else {
                r == ProbeAction::NotFound && final(self).probed() == old(self).probed()
            }),
    {
        proof {
            use_type_invariant(&*self);
        }
        if last_answered && self.next > 0 {
            ProbeAction::Found(self.buses[self.next - 1] as i32)
        } else if self.next < self.buses.len() {
            let bus = self.buses[self.next];
            self.next = self.next + 1;
            ProbeAction::Probe(bus)
        } else {
            ProbeAction::NotFound
        }
    }
}

/// The device file of I2C bus `bus`: `/dev/i2c-<bus>`.
pub fn device_path(bus: i64) -> (r: String)
    ensures
        r@ == "/dev/i2c-"@ + decimal(bus as int),
{
    let mut path = "/dev/i2c-".to_owned();
    append_decimal(&mut path, bus);
    path
}

/// The name of an I2C bus: its `name` file without surrounding whitespace,
/// or `I2C Bus <bus>` where that file could not be read.
pub fn bus_display_name(bus: i32, name_file: Option<&str>) -> (r: String)
    ensures
        r@ == match name_file {
            Some(content) => trim(content@),
            None => "I2C Bus "@ + decimal(bus as int),
        },
{
    match name_file {
        Some(content) => trim_str(content).to_owned(),
        None => {
            let mut name = "I2C Bus ".to_owned();
            append_decimal(&mut name, bus as i64);
            name
        },
    }
}

/// The name of a bar mode register value: `Solid`, `Breath`, `Loop`, or
/// `Unknown` for any other value.
pub fn mode_name(value: u8) -> (r: &'static str)
    ensures
        r@ == (if value == 0 {
            "Solid"@
        } else if value == 1 {
            "Breath"@
        } else if value == 2 {
            "Loop"@
        } else {
            "Unknown"@
        }),
{
    if value == 0 {
        "Solid"
    } else if value == 1 {
        "Breath"
    } else if value == 2 {
        "Loop"
    } else {
        "Unknown"
    }
}


/// The number of LED bar registers, 0x90 to 0x9A.
pub const LED_BAR_REGISTER_COUNT: usize = 11;

/// The address of LED bar register `k`: 0x90 + `k`.
pub fn led_bar_register(k: usize) -> (r: u8)
    requires
        k < LED_BAR_REGISTER_COUNT,
    ensures
        r == 0x90 + k,
{
    0x90u8 + k as u8
}

/// What LED bar register `k` holds.
pub open spec fn bar_register_label(k: int) -> Seq<char> {
    if k == 0 {
        "mode"@
    } else if k == 1 {
        "brightness"@
    } else if k == 2 {
        "color red"@
    } else if k == 3 {
        "color green"@
    } else if k == 4 {
        "color blue"@
    } else if k == 5 {
        "loop A red"@
    } else if k == 6 {
        "loop A green"@
    } else if k == 7 {
        "loop A blue"@
    } else if k == 8 {
        "loop B red"@
    } else if k == 9 {
        "loop B green"@
    } else {
        "loop B blue"@
    }
}

/// What LED bar register `k` holds, as error messages name it.
pub fn led_bar_register_label(k: usize) -> (r: &'static str)
    requires
        k < LED_BAR_REGISTER_COUNT,
    ensures
        r@ == bar_register_label(k as int),
{
    if k == 0 {
        "mode"
    } else if k == 1 {
        "brightness"
    } else if k == 2 {
        "color red"
    } else if k == 3 {
        "color green"
    } else if k == 4 {
        "color blue"
    } else if k == 5 {
        "loop A red"
    } else if k == 6 {
        "loop A green"
    } else if k == 7 {
        "loop A blue"
    } else if k == 8 {
        "loop B red"
    } else if k == 9 {
        "loop B green"
    } else {
        "loop B blue"
    }
}

/// The LED bar registers as read from the controller.
#[derive(Debug, Clone, Copy, PartialEq, Eq, Structural)]
pub struct LedBarRegisters {
    /// 0x90.
    pub mode: u8,
    /// 0x91.
    pub brightness: u8,
    /// 0x92, used by the solid and breath modes.
    pub color_red: u8,
    /// 0x93, used by the solid and breath modes.
    pub color_green: u8,
    /// 0x94, used by the solid and breath modes.
    pub color_blue: u8,
    /// 0x95, loop color A.
    pub loop_a_red: u8,
    /// 0x96, loop color A.
    pub loop_a_green: u8,
    /// 0x97, loop color A.
    pub loop_a_blue: u8,
    /// 0x98, loop color B.
    pub loop_b_red: u8,
    /// 0x99, loop color B.
    pub loop_b_green: u8,
    /// 0x9A, loop color B.
    pub loop_b_blue: u8,
}

impl LedBarRegisters {
    /// The registers from the values read at 0x90 to 0x9A, in address order.
    pub fn from_values(values: &[u8; 11]) -> (r: LedBarRegisters)
        ensures
            r.mode == values@[0],
            r.brightness == values@[1],
            r.color_red == values@[2],
            r.color_green == values@[3],
            r.color_blue == values@[4],
            r.loop_a_red == values@[5],
            r.loop_a_green == values@[6],
            r.loop_a_blue == values@[7],
            r.loop_b_red == values@[8],
            r.loop_b_green == values@[9],
            r.loop_b_blue == values@[10],
    {
        LedBarRegisters {
            mode: values[0],
            brightness: values[1],
            color_red: values[2],
            color_green: values[3],
            color_blue: values[4],
            loop_a_red: values[5],
            loop_a_green: values[6],
            loop_a_blue: values[7],
            loop_b_red: values[8],
            loop_b_green: values[9],
            loop_b_blue: values[10],
        }
    }
}

/// The registers of one strip, with the values read from them.
#[derive(Debug, Clone)]
pub struct StripState {
    pub name: String,
    pub white_on_reg: u8,
    pub white_on_val: u8,
    pub white_off_reg: u8,
    pub white_off_val: u8,
    pub red_on_reg: u8,
    pub red_on_val: u8,
    pub red_off_reg: u8,
    pub red_off_val: u8,
    pub blink_reg: u8,
    pub blink_val: u8,
}

/// The registers of every strip as read from the controller.
#[derive(Debug, Clone)]
pub struct LedStripRegisters {
    pub strips: Vec<StripState>,
}

/// The registers that are read back for a strip, in order: white on, white
/// off, red on, red off, blinking.
pub fn strip_read_registers(map: &LedRegisterMap) -> (r: [u8; 5])
    ensures
        r@ == seq![map.white_on_reg, map.white_off_reg, map.red_on_reg, map.red_off_reg, map.blink_reg],
{
    let r = [map.white_on_reg, map.white_off_reg, map.red_on_reg, map.red_off_reg, map.blink_reg];
    assert(r@ =~= seq![map.white_on_reg, map.white_off_reg, map.red_on_reg, map.red_off_reg, map.blink_reg]);
    r
}

impl StripState {
    /// A strip's registers with the values read from them, in the order of
    /// `strip_read_registers`.
    pub fn from_reads(map: &LedRegisterMap, values: &[u8; 5]) -> (r: StripState)
        ensures
            r.name@ == map.name@,
            r.white_on_reg == map.white_on_reg,
            r.white_on_val == values@[0],
            r.white_off_reg == map.white_off_reg,
            r.white_off_val == values@[1],
            r.red_on_reg == map.red_on_reg,
            r.red_on_val == values@[2],
            r.red_off_reg == map.red_off_reg,
            r.red_off_val == values@[3],
            r.blink_reg == map.blink_reg,
            r.blink_val == values@[4],
    {
        StripState {
            name: map.name.to_owned(),
            white_on_reg: map.white_on_reg,
            white_on_val: values[0],
            white_off_reg: map.white_off_reg,
            white_off_val: values[1],
            red_on_reg: map.red_on_reg,
            red_on_val: values[2],
            red_off_reg: map.red_off_reg,
            red_off_val: values[3],
            blink_reg: map.blink_reg,
            blink_val: values[4],
        }
    }
}


// ============================================================================
// LAWS
// ============================================================================

/// Writing a bar configuration touches each bar register from 0x90 to 0x9A
/// once, in address order; the solid and breath color and loop color A
/// receive the color, loop color B the loop color.
pub proof fn lemma_bar_write_layout(bar: LedBar)
    ensures
        bar_writes(bar).len() == LED_BAR_REGISTER_COUNT,
        forall|k: int|
            0 <= k < LED_BAR_REGISTER_COUNT ==> #[trigger] bar_writes(bar)[k].register == 0x90 + k,
        bar_writes(bar)[0].value == mode_code(bar.mode),
        bar_writes(bar)[1].value == bar.brightness,
        (bar_writes(bar)[2].value, bar_writes(bar)[3].value, bar_writes(bar)[4].value) == rgb(bar.color),
        (bar_writes(bar)[5].value, bar_writes(bar)[6].value, bar_writes(bar)[7].value) == rgb(bar.color),
        (bar_writes(bar)[8].value, bar_writes(bar)[9].value, bar_writes(bar)[10].value) == rgb(
            bar.loop_color,
        ),
{
}

/// After `AllLEDsOff` every strip is recorded as off and the bar as off.
pub proof fn lemma_all_off(s: LedControllerView, i: int)
    requires
        0 <= i < STRIP_COUNT,
    ensures
        command_effect(s, LedCommand::AllLEDsOff).bar == bar_off(),
        command_effect(s, LedCommand::AllLEDsOff).strips.contains_key(strip_name(i)),
        command_effect(s, LedCommand::AllLEDsOff).strips[strip_name(i)] == strip_off(),
{
    assert(is_strip_name(strip_name(i)));
}

/// Carrying out a command twice records the same state as carrying it out
/// once.
pub proof fn lemma_command_idempotent(s: LedControllerView, cmd: LedCommand)
    ensures
        command_effect(command_effect(s, cmd), cmd) == command_effect(s, cmd),
{
    if cmd is AllLEDsOff {
        assert(with_strips_off(with_strips_off(s.strips)) =~= with_strips_off(s.strips));
    }
}

/// A single strip can be set exactly when it is named by one of the strip
/// names; otherwise the command is refused with an error that names it.
pub proof fn lemma_single_led_accepted(name: String, white_on: bool, red_on: bool, blink_on: bool)
    ensures
        command_steps(LedCommand::SetSingleLed(name, white_on, red_on, blink_on)) is Ok
            <==> is_strip_name(name@),
        !is_strip_name(name@) ==> command_steps(
            LedCommand::SetSingleLed(name, white_on, red_on, blink_on),
        ) == Err::<Seq<CommandStep>, Seq<char>>(unknown_strip_message(name@)),
{
}

/// A new controller state and the default one record the same strips, all
/// off; they differ only in the bar.
pub proof fn lemma_new_strips_off(i: int)
    requires
        0 <= i < STRIP_COUNT,
    ensures
        all_strips_off().contains_key(strip_name(i)),
        all_strips_off()[strip_name(i)] == strip_off(),
        all_strips_off().dom() == Set::new(|k: Seq<char>| is_strip_name(k)),
{
    assert(is_strip_name(strip_name(i)));
    assert(all_strips_off().dom() =~= Set::new(|k: Seq<char>| is_strip_name(k)));
}


/// Whether `register` is the blinking register of some strip.
pub open spec fn is_blink_register(register: u8) -> bool {
    register == 0x50 || register == 0x52 || register == 0x54 || register == 0x56 || register
        == 0x58 || register == 0x5A || register == 0x5C || register == 0x5E
}

/// Whether a write goes where the controller expects it: the mode register
/// with a mode (0-2), another bar register (0x91-0x9A) with any byte, an on or
/// off control register (0xA0, 0xA1, 0xB0, 0xB1) with a single bit, or a
/// blinking register with 0x00 or 0x01.
pub open spec fn is_controller_write(w: RegisterWrite) -> bool {
    ||| w.register == 0x90 && w.value <= 2
    ||| 0x91 <= w.register <= 0x9A
    ||| (w.register == 0xA0 || w.register == 0xA1 || w.register == 0xB0 || w.register == 0xB1)
        && is_single_bit(w.value)
    ||| is_blink_register(w.register) && w.value <= 1
}

/// Every register write that a step makes is one the controller expects.
pub proof fn lemma_writes_valid(step: CommandStep)
    ensures
        forall|k: int|
            0 <= k < writes_of(step).len() ==> is_controller_write(#[trigger] writes_of(step)[k]),
{
    match step {
        CommandStep::WriteBar(bar) => {
            lemma_bar_write_layout(bar);
        },
        CommandStep::WriteStrip { strip, white_on, red_on, blink_on } => {
            if strip < STRIP_COUNT {
                lemma_strip_register_layout(strip as int, strip as int);
            }
        },
        _ => {},
    }
}

/// A single-strip command records the strip's new setting and keeps the
/// bar and every other recorded strip.
pub proof fn lemma_single_led_effect(
    s: LedControllerView,
    name: String,
    white_on: bool,
    red_on: bool,
    blink_on: bool,
    other: Seq<char>,
)
    requires
        is_strip_name(name@),
    ensures
        ({
            let after = command_effect(s, LedCommand::SetSingleLed(name, white_on, red_on, blink_on));
            &&& after.bar == s.bar
            &&& after.strips.contains_key(name@)
            &&& after.strips[name@] == strip_setting(white_on, red_on, blink_on)
            &&& other != name@ ==> (after.strips.contains_key(other) == s.strips.contains_key(other)
                && after.strips[other] == s.strips[other])
        }),
{
}

/// After `AllStripsWhite` every strip is recorded white on, red off, not
/// blinking; after `AllStripsRed` red on, white off, not blinking.
pub proof fn lemma_all_white_red(s: LedControllerView, i: int)
    requires
        0 <= i < STRIP_COUNT,
    ensures
        command_effect(s, LedCommand::AllStripsWhite).strips.contains_key(strip_name(i)),
        command_effect(s, LedCommand::AllStripsWhite).strips[strip_name(i)] == strip_setting(
            true,
            false,
            false,
        ),
        command_effect(s, LedCommand::AllStripsRed).strips.contains_key(strip_name(i)),
        command_effect(s, LedCommand::AllStripsRed).strips[strip_name(i)] == strip_setting(
            false,
            true,
            false,
        ),
{
    assert(is_strip_name(strip_name(i)));
}

/// The channel-wise brightest mix of two colors.
pub open spec fn mix(a: (u8, u8, u8), b: (u8, u8, u8)) -> (u8, u8, u8) {
    (
        if a.0 >= b.0 { a.0 } else { b.0 },
        if a.1 >= b.1 { a.1 } else { b.1 },
        if a.2 >= b.2 { a.2 } else { b.2 },
    )
}

/// The palette: red, green and blue are the pure full channels; cyan is
/// green and blue, magenta red and blue, white all three; black is dark;
/// soft white is an even gray at 225; purple is red and blue at half
/// strength; yellow and orange are full red with part green (200, 165) and
/// no blue.
pub proof fn lemma_palette()
    ensures
        rgb(LedColor::Red) == (255u8, 0u8, 0u8),
        rgb(LedColor::Green) == (0u8, 255u8, 0u8),
        rgb(LedColor::Blue) == (0u8, 0u8, 255u8),
        rgb(LedColor::Cyan) == mix(rgb(LedColor::Green), rgb(LedColor::Blue)),
        rgb(LedColor::Magenta) == mix(rgb(LedColor::Red), rgb(LedColor::Blue)),
        rgb(LedColor::White) == mix(mix(rgb(LedColor::Red), rgb(LedColor::Green)), rgb(LedColor::Blue)),
        rgb(LedColor::Black) == (0u8, 0u8, 0u8),
        rgb(LedColor::SoftWhite) == (225u8, 225u8, 225u8),
        rgb(LedColor::Purple) == (128u8, 0u8, 128u8),
        rgb(LedColor::Yellow) == (255u8, 200u8, 0u8),
        rgb(LedColor::Orange) == (255u8, 165u8, 0u8),
{
}

/// Where a strip sits on the controller, by its name: the power switch
/// first, then the two SATA bays, the management port, and the four NVMe
/// bays (the order of the blinking registers 0x50-0x5E).
pub open spec fn controller_position(name: Seq<char>) -> int {
    if name == "POWER"@ {
        0
    } else if name == "SSD1"@ {
        1
    } else if name == "SSD2"@ {
        2
    } else if name == "MGMT"@ {
        3
    } else if name == "NVME1"@ {
        4
    } else if name == "NVME2"@ {
        5
    } else if name == "NVME3"@ {
        6
    } else {
        7
    }
}

/// The white bit of the strip at position `p` of its control register.
pub open spec fn white_bit(p: int) -> u8 {
    if p % 4 == 0 {
        0x01
    } else if p % 4 == 1 {
        0x04
    } else if p % 4 == 2 {
        0x10
    } else {
        0x40
    }
}

/// The register map of every strip follows from where the strip sits on the
/// controller (`p`, from its name): its blinking register is 0x50 + 2p; the
/// first four strips are switched through 0xA0/0xB0 and the NVMe strips
/// through 0xA1/0xB1; within that register the strip's white channel is bit
/// 2(p mod 4) (0x01, 0x04, 0x10, 0x40) and its red channel the next bit up.
/// So SSD1 is white 0x04, red 0x08 of 0xA0/0xB0 and blinks through 0x52.
pub proof fn lemma_strip_register_positions(i: int)
    requires
        0 <= i < STRIP_COUNT,
    ensures
        ({
            let m = strip_registers_spec(i);
            let p = controller_position(m.name@);
            &&& m.blink_reg == 0x50 + 2 * p
            &&& m.white_on_reg == 0xA0 + p / 4
            &&& m.red_on_reg == m.white_on_reg
            &&& m.white_off_reg == m.white_on_reg + 0x10
            &&& m.red_off_reg == m.white_off_reg
            &&& m.white_on_val == white_bit(p)
            &&& m.white_off_val == white_bit(p)
            &&& m.red_on_val == 2 * white_bit(p)
            &&& m.red_off_val == 2 * white_bit(p)
            &&& m.blink_on_val == 0x01
            &&& m.blink_off_val == 0x00
        }),
{
    reveal_strlit("POWER");
    reveal_strlit("MGMT");
    reveal_strlit("SSD1");
    reveal_strlit("SSD2");
    reveal_strlit("NVME1");
    reveal_strlit("NVME2");
    reveal_strlit("NVME3");
    reveal_strlit("NVME4");
    let n = strip_registers_spec(i).name@;
    if i != 0 {
        lemma_strip_names_distinct(i, 0);
    }
    if i != 1 {
        lemma_strip_names_distinct(i, 1);
    }
    if i != 2 {
        lemma_strip_names_distinct(i, 2);
    }
    if i != 3 {
        lemma_strip_names_distinct(i, 3);
    }
    if i != 4 {
        lemma_strip_names_distinct(i, 4);
    }
    if i != 5 {
        lemma_strip_names_distinct(i, 5);
    }
    if i != 6 {
        lemma_strip_names_distinct(i, 6);
    }
}

/// A strip write switches each channel on its own: the first write goes to
/// an on register (0xA0/0xA1) exactly when white is on and carries the
/// strip's white bit, the second goes to an on register exactly when red is
/// on and carries the strip's red bit (the other channel's setting and
/// blinking play no part), and the third writes 0x01 to the strip's blinking
/// register when blinking is on, 0x00 otherwise.
pub proof fn lemma_strip_write_channels(i: int, white_on: bool, red_on: bool, blink_on: bool)
    requires
        0 <= i < STRIP_COUNT,
    ensures
        ({
            let m = strip_registers_spec(i);
            let p = controller_position(m.name@);
            let w = writes_of(CommandStep::WriteStrip { strip: i as usize, white_on, red_on, blink_on });
            &&& w.len() == 3
            &&& (w[0].register == 0xA0 || w[0].register == 0xA1) <==> white_on
            &&& (w[0].register == 0xB0 || w[0].register == 0xB1) <==> !white_on
            &&& w[0].register % 16 == p / 4
            &&& w[0].value == white_bit(p)
            &&& (w[1].register == 0xA0 || w[1].register == 0xA1) <==> red_on
            &&& (w[1].register == 0xB0 || w[1].register == 0xB1) <==> !red_on
            &&& w[1].register % 16 == p / 4
            &&& w[1].value == 2 * white_bit(p)
            &&& w[2].register == 0x50 + 2 * p
            &&& w[2].value == (if blink_on { 1u8 } else { 0u8 })
        }),
{
    lemma_strip_register_positions(i);
}

/// In every command, the bar written to the controller is the bar that the
/// command records in the state.
pub proof fn lemma_written_bar_is_recorded(s: LedControllerView, cmd: LedCommand, k: int)
    requires
        command_steps(cmd) is Ok,
        0 <= k < command_steps(cmd)->Ok_0.len(),
        command_steps(cmd)->Ok_0[k] is WriteBar,
    ensures
        command_steps(cmd)->Ok_0[k]->WriteBar_0 == command_effect(s, cmd).bar,
{
    let steps = command_steps(cmd)->Ok_0;
    match cmd {
        LedCommand::AllStripsWhite | LedCommand::AllStripsRed => {
            if k >= 2 {
                assert(steps[k] == every_strip(
                    cmd is AllStripsWhite,
                    cmd is AllStripsRed,
                    false,
                )[k - 2]);
            }
        },
        LedCommand::AllLEDsOff => {
            if k >= 3 {
                assert(steps[k] == every_strip(false, false, false)[k - 3]);
            }
        },
        _ => {},
    }
}

/// The bars that the all-white, all-red and all-off commands apply: solid
/// white and solid red at full brightness, and solid black at brightness 0.
pub proof fn lemma_batch_bars(s: LedControllerView)
    ensures
        command_effect(s, LedCommand::AllStripsWhite).bar == (LedBar {
            mode: LedBarMode::Solid,
            brightness: 255,
            color: LedColor::White,
            loop_color: LedColor::White,
        }),
        command_effect(s, LedCommand::AllStripsRed).bar == (LedBar {
            mode: LedBarMode::Solid,
            brightness: 255,
            color: LedColor::Red,
            loop_color: LedColor::Red,
        }),
        command_effect(s, LedCommand::AllLEDsOff).bar == (LedBar {
            mode: LedBarMode::Solid,
            brightness: 0,
            color: LedColor::Black,
            loop_color: LedColor::Black,
        }),
{
}

/// The strips of the all-white, all-red and all-off commands: every strip
/// is written once, in strip order, with white on only for all-white, red on
/// only for all-red, and blinking off.
pub proof fn lemma_batch_strip_writes(cmd: LedCommand, i: int)
    requires
        cmd is AllStripsWhite || cmd is AllStripsRed || cmd is AllLEDsOff,
        0 <= i < STRIP_COUNT,
    ensures
        ({
            let steps = command_steps(cmd)->Ok_0;
            let head = if cmd is AllLEDsOff { 3int } else { 2int };
            &&& steps.len() == head + 2 * STRIP_COUNT
            &&& steps[head + 2 * i] == (CommandStep::WriteStrip {
                strip: i as usize,
                white_on: cmd is AllStripsWhite,
                red_on: cmd is AllStripsRed,
                blink_on: false,
            })
            &&& forall|k: int|
                0 <= k < steps.len() && (#[trigger] steps[k]) is WriteStrip ==> k >= head && (k
                    - head) % 2 == 0
        }),
{
    let steps = command_steps(cmd)->Ok_0;
    let head = if cmd is AllLEDsOff { 3int } else { 2int };
    let e = every_strip(cmd is AllStripsWhite, cmd is AllStripsRed, false);
    assert(steps[head + 2 * i] == e[2 * i]);
    assert forall|k: int| 0 <= k < steps.len() && (#[trigger] steps[k]) is WriteStrip implies k
        >= head && (k - head) % 2 == 0 by {
        if k >= head {
            assert(steps[k] == e[k - head]);
        }
    }
}

/// Turning everything off switches both channels of every strip off and
/// stops its blinking: no strip write of the all-off command goes to an on
/// register (0xA0/0xA1), each goes to the strip's off register (0xB0/0xB1)
/// with its channel's bit, and the blinking register is written 0x00.
pub proof fn lemma_all_off_writes(k: int)
    requires
        0 <= k < command_steps(LedCommand::AllLEDsOff)->Ok_0.len(),
        command_steps(LedCommand::AllLEDsOff)->Ok_0[k] is WriteStrip,
    ensures
        ({
            let step = command_steps(LedCommand::AllLEDsOff)->Ok_0[k];
            let w = writes_of(step);
            let strip = match step {
                CommandStep::WriteStrip { strip, .. } => strip as int,
                _ => 0,
            };
            let p = controller_position(strip_registers_spec(strip).name@);
            &&& 0 <= strip < STRIP_COUNT
            &&& w.len() == 3
            &&& w[0].register == 0xB0 + p / 4
            &&& w[0].value == white_bit(p)
            &&& w[1].register == 0xB0 + p / 4
            &&& w[1].value == 2 * white_bit(p)
            &&& w[2].value == 0
        }),
{
    let cmd = LedCommand::AllLEDsOff;
    let steps = command_steps(cmd)->Ok_0;
    lemma_batch_strip_writes(cmd, 0);
    let i = (k - 3) / 2;
    lemma_batch_strip_writes(cmd, i);
    assert(k == 3 + 2 * i);
    lemma_strip_write_channels(i, false, false, false);
    lemma_strip_register_positions(i);
}

} // verus!
