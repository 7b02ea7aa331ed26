//! The daemon's decisions: the LED color that shows a drive's health, the
//! reading of command-line arguments, and the rows of the status report.

use vstd::prelude::*;
use crate::disk_status::{
    check_drive_status, content_view, lemma_first_slot, slot, slot_index, slot_of_device, slot_spec, slot_status,
    stats_views, DiskStats, DiskStatsView, DriveStatus,
};
use crate::led_controller::{LedBar, LedBarMode, LedColor};
use crate::text::{parse_i32, parse_signed, same_text};

verus! {

/// The color and blinking that show a drive's health: white for a healthy
/// drive, blinking white for a missing one, red for a degraded one.
pub open spec fn status_led(status: DriveStatus) -> (LedColor, bool) {
    match status {
        DriveStatus::Healthy => (LedColor::White, false),
        DriveStatus::Missing => (LedColor::White, true),
        DriveStatus::Degraded => (LedColor::Red, false),
    }
}

/// Converts a drive's health to the LED color and blink mode that show it.
pub fn drive_status_to_led_color(status: DriveStatus) -> (r: (LedColor, bool))
    ensures
        r == status_led(status),
{
    match status {
        DriveStatus::Healthy => (LedColor::White, false),
        DriveStatus::Missing => (LedColor::White, true),
        DriveStatus::Degraded => (LedColor::Red, false),
    }
}

/// The lowercase form of a string, as `str::to_lowercase` defines it.
pub uninterp spec fn lowercase(s: Seq<char>) -> Seq<char>;

/// Whether every character of `s` is ASCII.
pub open spec fn is_ascii_text(s: Seq<char>) -> bool {
    forall|i: int| 0 <= i < s.len() ==> (#[trigger] s[i] as u32) < 0x80
}

/// `c` with an ASCII capital letter mapped to its small letter
/// (`char::to_ascii_lowercase`).
pub open spec fn ascii_lower(c: char) -> char {
    if 0x41 <= (c as u32) <= 0x5a {
        ((c as u32) + 0x20) as char
    } else {
        c
    }
}

/// The lowercase form of `s`: for ASCII text each capital letter mapped to
/// its small letter, otherwise `lowercase`.
pub open spec fn lower_text(s: Seq<char>) -> Seq<char> {
    if is_ascii_text(s) {
        s.map_values(|c: char| ascii_lower(c))
    } else {
        lowercase(s)
    }
}

/// `str::to_lowercase`. Its result is claimed to be `lowercase` of the
/// argument, a name for the Unicode lowercase mapping that is not spelled
/// out; for ASCII text it is claimed to map each character as
/// `to_ascii_lowercase` does.
#[verifier::external_body]
fn to_lowercase(s: &str) -> (r: String)
    ensures
        r@ == lowercase(s@),
        is_ascii_text(s@) ==> r@ == s@.map_values(|c: char| ascii_lower(c)),
{
    s.to_lowercase()
}

/// The color that a lowercase color name stands for; `off` is black.
pub open spec fn color_named(name: Seq<char>) -> Option<LedColor> {
    if name == "black"@ || name == "off"@ {
        Some(LedColor::Black)
    } else if name == "white"@ {
        Some(LedColor::White)
    } else if name == "red"@ {
        Some(LedColor::Red)
    } else if name == "blue"@ {
        Some(LedColor::Blue)
    } else if name == "green"@ {
        Some(LedColor::Green)
    } else if name == "yellow"@ {
        Some(LedColor::Yellow)
    } else if name == "cyan"@ {
        Some(LedColor::Cyan)
    } else if name == "magenta"@ {
        Some(LedColor::Magenta)
    } else if name == "orange"@ {
        Some(LedColor::Orange)
    } else if name == "purple"@ {
        Some(LedColor::Purple)
    } else if name == "softwhite"@ {
        Some(LedColor::SoftWhite)
    } else {
        None
    }
}

/// The color that the lowercase name `name` stands for.
pub fn color_from_name(name: &str) -> (r: Option<LedColor>)
    ensures
        r == color_named(name@),
{
    if same_text(name, "black") || same_text(name, "off") {
        Some(LedColor::Black)
    } else if same_text(name, "white") {
        Some(LedColor::White)
    } else if same_text(name, "red") {
        Some(LedColor::Red)
    } else if same_text(name, "blue") {
        Some(LedColor::Blue)
    } else if same_text(name, "green") {
        Some(LedColor::Green)
    } else if same_text(name, "yellow") {
        Some(LedColor::Yellow)
    } else if same_text(name, "cyan") {
        Some(LedColor::Cyan)
    } else if same_text(name, "magenta") {
        Some(LedColor::Magenta)
    } else if same_text(name, "orange") {
        Some(LedColor::Orange)
    } else if same_text(name, "purple") {
        Some(LedColor::Purple)
    } else if same_text(name, "softwhite") {
        Some(LedColor::SoftWhite)
    } else {
        None
    }
}

/// The error for an argument that names no color.
pub open spec fn unknown_color_message(arg: Seq<char>) -> Seq<char> {
    "Unknown color '"@ + arg
        + "'. Valid colors: black, white, red, blue, green, yellow, cyan, magenta, orange, purple, softwhite"@
}

/// The error for an argument that names no color.
pub fn unknown_color(arg: &str) -> (r: String)
    ensures
        r@ == unknown_color_message(arg@),
{
    let mut msg = "Unknown color '".to_owned();
    msg.append(arg);
    msg.append(
        "'. Valid colors: black, white, red, blue, green, yellow, cyan, magenta, orange, purple, softwhite",
    );
    msg
}

/// What a color argument gives: the color that its lowercase form names, or
/// the error that names the argument.
pub open spec fn color_argument(arg: Seq<char>) -> Result<LedColor, Seq<char>> {
    match color_named(lower_text(arg)) {
        Some(c) => Ok(c),
        None => Err(unknown_color_message(arg)),
    }
}

/// Parses a color argument, in any letter case.
pub fn parse_color_argument(color_str: &str) -> (r: Result<LedColor, String>)
    ensures
        match color_argument(color_str@) {
            Ok(c) => r matches Ok(x) && x == c,
            Err(msg) => r matches Err(e) && e@ == msg,
        },
{
    let lower = to_lowercase(color_str);
    match color_from_name(lower.as_str()) {
        Some(c) => Ok(c),
        None => Err(unknown_color(color_str)),
    }
}


/// The views of a sequence of strings.
pub open spec fn arg_views(args: Seq<String>) -> Seq<Seq<char>> {
    args.map_values(|a: String| a@)
}

/// What the options of `test-led-bar` have set so far.
#[derive(Debug, Clone, Copy, PartialEq, Eq, Structural)]
pub struct BarArgs {
    pub color: Option<LedColor>,
    pub loop_color: Option<LedColor>,
    pub breathing: bool,
}

/// Reads the options from position `p` on: `--color` and `--loopcolor` take
/// the next argument as a color (an unknown color is an error; with no next
/// argument they do nothing), `--breathing` sets breathing, anything else is
/// skipped.
pub open spec fn scan_bar_args(args: Seq<Seq<char>>, p: int, acc: BarArgs) -> Result<BarArgs, Seq<char>>
    decreases args.len() - p,
{
    if p >= args.len() {
        Ok(acc)
    } else if args[p] == "--color"@ && p + 1 < args.len() {
        match color_argument(args[p + 1]) {
            Ok(c) => scan_bar_args(args, p + 2, BarArgs { color: Some(c), ..acc }),
            Err(e) => Err(e),
        }
    } else if args[p] == "--loopcolor"@ && p + 1 < args.len() {
        match color_argument(args[p + 1]) {
            Ok(c) => scan_bar_args(args, p + 2, BarArgs { loop_color: Some(c), ..acc }),
            Err(e) => Err(e),
        }
    } else if args[p] == "--breathing"@ {
        scan_bar_args(args, p + 1, BarArgs { breathing: true, ..acc })
    } else {
        scan_bar_args(args, p + 1, acc)
    }
}

/// The bar that `test-led-bar` applies, given the whole command line (the
/// options start after the program and the subcommand): full brightness, the
/// `--color`, the `--loopcolor` (the color when not given), breath mode with
/// `--breathing`, otherwise loop mode when the two colors differ and solid
/// mode when they do not. Without `--color` it is an error.
pub open spec fn bar_from_args(args: Seq<Seq<char>>) -> Result<LedBar, Seq<char>> {
    match scan_bar_args(args, 2, BarArgs { color: None, loop_color: None, breathing: false }) {
        Err(e) => Err(e),
        Ok(a) => match a.color {
            None => Err("Missing required argument: --color"@),
            Some(c) => {
                let l = match a.loop_color {
                    Some(l) => l,
                    None => c,
                };
                Ok(
                    LedBar {
                        mode: if a.breathing {
                            LedBarMode::Breath
                        } else if l != c {
                            LedBarMode::Loop
                        } else {
                            LedBarMode::Solid
                        },
                        brightness: 255,
                        color: c,
                        loop_color: l,
                    },
                )
            },
        },
    }
}

/// Reads the bar configuration of `test-led-bar` from the command line:
/// `--color <name>` (required), `--loopcolor <name>` (defaults to the
/// color), `--breathing`.
pub fn parse_led_bar_args(args: &Vec<String>) -> (r: Result<LedBar, String>)
    ensures
        match bar_from_args(arg_views(args@)) {
            Ok(bar) => r matches Ok(b) && b == bar,
            Err(msg) => r matches Err(e) && e@ == msg,
        },
{
    let ghost views = arg_views(args@);
    let ghost start = BarArgs { color: None, loop_color: None, breathing: false };
    let mut acc = BarArgs { color: None, loop_color: None, breathing: false };
    let mut p: usize = 2;
    while p < args.len()
        invariant
            2 <= p,
            views == arg_views(args@),
            start == (BarArgs { color: None, loop_color: None, breathing: false }),
            scan_bar_args(views, 2, start) == scan_bar_args(views, p as int, acc),
        decreases args@.len() - p,
    {
        let arg = args[p].as_str();
        assert(views[p as int] == arg@);
        if same_text(arg, "--color") && p + 1 < args.len() {
            assert(views[p + 1] == args@[p + 1]@);
            match parse_color_argument(args[p + 1].as_str()) {
                Ok(c) => {
                    acc = BarArgs { color: Some(c), ..acc };
                    p = p + 2;
                },
                Err(e) => {
                    assert(scan_bar_args(views, p as int, acc) == Err::<BarArgs, Seq<char>>(e@));
                    return Err(e);
                },
            }
        } else if same_text(arg, "--loopcolor") && p + 1 < args.len() {
            assert(views[p + 1] == args@[p + 1]@);
            match parse_color_argument(args[p + 1].as_str()) {
                Ok(c) => {
                    acc = BarArgs { loop_color: Some(c), ..acc };
                    p = p + 2;
                },
                Err(e) => {
                    assert(scan_bar_args(views, p as int, acc) == Err::<BarArgs, Seq<char>>(e@));
                    return Err(e);
                },
            }
        } else if same_text(arg, "--breathing") {
            acc = BarArgs { breathing: true, ..acc };
            p = p + 1;
        } else {
            p = p + 1;
        }
    }
    assert(scan_bar_args(views, p as int, acc) == Ok::<BarArgs, Seq<char>>(acc));
    match acc.color {
        None => Err("Missing required argument: --color".to_owned()),
        Some(c) => {
            let l = match acc.loop_color {
                Some(l) => l,
                None => c,
            };
            let mode = if acc.breathing {
                LedBarMode::Breath
            } else if l != c {
                LedBarMode::Loop
            } else {
                LedBarMode::Solid
            };
            Ok(LedBar { mode, brightness: 255, color: c, loop_color: l })
        },
    }
}


/// The bus that `--bus` at position `i` gives: the next argument read as an
/// `i32`, when there is one and it is such a number.
pub open spec fn bus_option_at(args: Seq<Seq<char>>, i: int) -> Option<int> {
    if 0 <= i && i + 1 < args.len() && args[i] == "--bus"@ {
        parse_signed(args[i + 1], 10, i32::MIN as int, i32::MAX as int)
    } else {
        None
    }
}

/// The bus that the first usable `--bus` option from position `i` on gives.
pub open spec fn first_bus_option(args: Seq<Seq<char>>, i: int) -> Option<int>
    decreases args.len() - i,
{
    if i < 0 || i >= args.len() {
        None
    } else {
        match bus_option_at(args, i) {
            Some(b) => Some(b),
            None => first_bus_option(args, i + 1),
        }
    }
}

/// The bus number given on the command line: the first `--bus N` whose `N`
/// reads as an `i32`; `None` when there is none.
pub fn bus_from_args(args: &Vec<String>) -> (r: Option<i32>)
    ensures
        match first_bus_option(arg_views(args@), 0) {
            Some(b) => r == Some(b as i32),
            None => r is None,
        },
{
    let ghost views = arg_views(args@);
    let mut i: usize = 0;
    while i < args.len()
        invariant
            views == arg_views(args@),
            first_bus_option(views, 0) == first_bus_option(views, i as int),
        decreases args@.len() - i,
    {
        assert(views[i as int] == args@[i as int]@);
        if same_text(args[i].as_str(), "--bus") && i + 1 < args.len() {
            assert(views[i + 1] == args@[i + 1]@);
            match parse_i32(args[i + 1].as_str()) {
                Some(b) => {
                    return Some(b);
                },
                None => {},
            }
        }
        i = i + 1;
    }
    None
}


/// The name of a color as the report shows it.
pub open spec fn color_label(color: LedColor) -> Seq<char> {
    match color {
        LedColor::Black => "Black"@,
        LedColor::White => "White"@,
        LedColor::Red => "Red"@,
        LedColor::Blue => "Blue"@,
        LedColor::Green => "Green"@,
        LedColor::Yellow => "Yellow"@,
        LedColor::Cyan => "Cyan"@,
        LedColor::Magenta => "Magenta"@,
        LedColor::Orange => "Orange"@,
        LedColor::Purple => "Purple"@,
        LedColor::SoftWhite => "SoftWhite"@,
    }
}

/// The name of a color as the report shows it.
pub fn color_name(color: LedColor) -> (r: &'static str)
    ensures
        r@ == color_label(color),
{
    match color {
        LedColor::Black => "Black",
        LedColor::White => "White",
        LedColor::Red => "Red",
        LedColor::Blue => "Blue",
        LedColor::Green => "Green",
        LedColor::Yellow => "Yellow",
        LedColor::Cyan => "Cyan",
        LedColor::Magenta => "Magenta",
        LedColor::Orange => "Orange",
        LedColor::Purple => "Purple",
        LedColor::SoftWhite => "SoftWhite",
    }
}

/// The report's message for a drive's health.
pub open spec fn status_message(status: DriveStatus) -> Seq<char> {
    if status_led(status).1 {
        "Drive missing"@
    } else {
        match status {
            DriveStatus::Healthy => "Drive present"@,
            DriveStatus::Missing => "No drive detected"@,
            DriveStatus::Degraded => "Drive degraded"@,
        }
    }
}

/// The report's message for a drive's health.
pub fn drive_status_message(status: DriveStatus) -> (r: &'static str)
    ensures
        r@ == status_message(status),
{
    let (_, should_blink) = drive_status_to_led_color(status);
    if should_blink {
        "Drive missing"
    } else {
        match status {
            DriveStatus::Healthy => "Drive present",
            DriveStatus::Missing => "No drive detected",
            DriveStatus::Degraded => "Drive degraded",
        }
    }
}

/// The first record of the device called `name`.
pub open spec fn find_device(stats: Seq<DiskStatsView>, name: Seq<char>) -> Option<DiskStatsView>
    decreases stats.len(),
{
    if stats.len() == 0 {
        None
    } else if stats[0].device_name == name {
        Some(stats[0])
    } else {
        find_device(stats.drop_first(), name)
    }
}

/// The position of the first record of the device called `name`.
fn find_device_index(stats: &Vec<DiskStats>, name: &str) -> (r: Option<usize>)
    ensures
        match find_device(stats_views(stats@), name@) {
            Some(d) => r matches Some(i) && i < stats@.len() && stats@[i as int]@ == d,
            None => r is None,
        },
{
    let ghost all = stats_views(stats@);
    let mut i: usize = 0;
    assert(all.skip(0) == all);
    while i < stats.len()
        invariant
            i <= stats@.len(),
            all == stats_views(stats@),
            find_device(all, name@) == find_device(all.skip(i as int), name@),
        decreases stats@.len() - i,
    {
        assert(all.skip(i as int)[0] == stats@[i as int]@);
        assert(all.skip(i as int).drop_first() == all.skip(i + 1));
        if same_text(stats[i].device_name.as_str(), name) {
            return Some(i);
        }
        i = i + 1;
    }
    None
}

/// Whether the device `name` was busy between two readings: `Active` when
/// its time spent doing I/O (field 10) grew, `Inactive` when it did not,
/// `N/A` when either reading lacks the device.
pub open spec fn activity_label(
    name: Seq<char>,
    initial: Seq<DiskStatsView>,
    second: Seq<DiskStatsView>,
) -> Seq<char> {
    match (find_device(initial, name), find_device(second, name)) {
        (Some(a), Some(b)) => if b.counters[9] > a.counters[9] {
            "Active"@
        } else {
            "Inactive"@
        },
        _ => "N/A"@,
    }
}

/// Whether the device `name` was busy between two readings of the disk
/// statistics.
pub fn device_activity(name: &str, initial: &Vec<DiskStats>, second: &Vec<DiskStats>) -> (r:
    &'static str)
    ensures
        r@ == activity_label(name@, stats_views(initial@), stats_views(second@)),
{
    match (find_device_index(initial, name), find_device_index(second, name)) {
        (Some(i), Some(j)) => {
            if second[j].ms_doing_io > initial[i].ms_doing_io {
                "Active"
            } else {
                "Inactive"
            }
        },
        _ => "N/A",
    }
}

/// The slot label of a device: the name of the first slot that holds it, or
/// `(Not Mapped)`.
pub open spec fn slot_label(sys_name: Seq<char>) -> Seq<char> {
    match slot_of_device(sys_name) {
        Some(i) => slot_spec(i).slot_name@,
        None => "(Not Mapped)"@,
    }
}

/// One row of the drive status report.
pub struct DeviceReportRow {
    pub device: String,
    pub slot: String,
    pub color: String,
    pub activity: String,
    pub message: String,
}

/// The report row of the block device `sys_name`: the slot that holds it,
/// the LED color that shows its health (with ` (blinking)` where it blinks;
/// `-` for a device that no slot holds), whether it was busy between the two
/// readings, and the message for its health. `content` is what was read from
/// the status file of its slot.
pub fn device_report_row(
    sys_name: &str,
    content: Option<&str>,
    initial: &Vec<DiskStats>,
    second: &Vec<DiskStats>,
) -> (r: DeviceReportRow)
    ensures
        ({
            let status = match slot_of_device(sys_name@) {
                Some(i) => slot_status(slot_spec(i).driver_parsing_method, content_view(content)),
                None => DriveStatus::Missing,
            };
            let (color, blink) = status_led(status);
            &&& r.device@ == sys_name@
            &&& r.slot@ == slot_label(sys_name@)
            &&& r.color@ == (if slot_of_device(sys_name@) is Some {
                if blink {
                    color_label(color) + " (blinking)"@
                } else {
                    color_label(color)
                }
            } else {
                "-"@
            })
            &&& r.activity@ == activity_label(sys_name@, stats_views(initial@), stats_views(second@))
            &&& r.message@ == status_message(status)
        }),
{
    let index = slot_index(sys_name);
    proof {
        if let Some(i) = index {
            lemma_first_slot(sys_name@, i as int);
        }
    }
    let status = check_drive_status(sys_name, content);
    let (color, should_blink) = drive_status_to_led_color(status);
    let (slot_name, color_text) = match index {
        Some(i) => {
            let mut text = color_name(color).to_owned();
            if should_blink {
                text.append(" (blinking)");
            }
            (slot(i).slot_name.to_owned(), text)
        },
        None => ("(Not Mapped)".to_owned(), "-".to_owned()),
    };
    DeviceReportRow {
        device: sys_name.to_owned(),
        slot: slot_name,
        color: color_text,
        activity: device_activity(sys_name, initial, second).to_owned(),
        message: drive_status_message(status).to_owned(),
    }
}


/// The LEDs tell the three health states apart: a drive blinks exactly when
/// it is missing and shows red exactly when it is degraded.
pub proof fn lemma_status_led_distinct(a: DriveStatus, b: DriveStatus)
    ensures
        status_led(a).1 <==> a == DriveStatus::Missing,
        status_led(a).0 == LedColor::Red <==> a == DriveStatus::Degraded,
        status_led(a) == status_led(b) ==> a == b,
{
}

/// The bar that `test-led-bar` applies is at full brightness, with the loop
/// color equal to the color unless `--loopcolor` set it, and in loop mode
/// exactly when it does not breathe and the two colors differ.
pub proof fn lemma_led_bar_args_shape(args: Seq<Seq<char>>)
    requires
        bar_from_args(args) is Ok,
    ensures
        ({
            let bar = bar_from_args(args)->Ok_0;
            let a = scan_bar_args(
                args,
                2,
                BarArgs { color: None, loop_color: None, breathing: false },
            )->Ok_0;
            &&& bar.brightness == 255
            &&& a.color == Some(bar.color)
            &&& a.loop_color is None ==> bar.loop_color == bar.color
            &&& (bar.mode == LedBarMode::Loop <==> !a.breathing && bar.loop_color != bar.color)
            &&& (bar.mode == LedBarMode::Breath <==> a.breathing)
        }),
{
}


/// `c` with an ASCII small letter mapped to its capital letter
/// (`char::to_ascii_uppercase`).
pub open spec fn ascii_upper(c: char) -> char {
    if 0x61 <= (c as u32) <= 0x7a {
        ((c as u32) - 0x20) as char
    } else {
        c
    }
}

/// ASCII text in capital letters.
pub open spec fn ascii_upper_text(s: Seq<char>) -> Seq<char> {
    s.map_values(|c: char| ascii_upper(c))
}

/// Writing ASCII text in capitals does not change its lowercase form.
pub proof fn lemma_upper_then_lower(s: Seq<char>)
    requires
        is_ascii_text(s),
    ensures
        is_ascii_text(ascii_upper_text(s)),
        lower_text(ascii_upper_text(s)) == lower_text(s),
{
    let u = ascii_upper_text(s);
    assert forall|i: int| 0 <= i < u.len() implies (#[trigger] u[i] as u32) < 0x80 by {
        assert((s[i] as u32) < 0x80);
    }
    assert forall|i: int| 0 <= i < s.len() implies ascii_lower(#[trigger] u[i]) == ascii_lower(
        s[i],
    ) by {
        assert((s[i] as u32) < 0x80);
    }
    assert(u.map_values(|c: char| ascii_lower(c)) =~= s.map_values(|c: char| ascii_lower(c)));
}

/// The lowercase name of each color.
pub open spec fn color_word(color: LedColor) -> Seq<char> {
    match color {
        LedColor::Black => "black"@,
        LedColor::White => "white"@,
        LedColor::Red => "red"@,
        LedColor::Blue => "blue"@,
        LedColor::Green => "green"@,
        LedColor::Yellow => "yellow"@,
        LedColor::Cyan => "cyan"@,
        LedColor::Magenta => "magenta"@,
        LedColor::Orange => "orange"@,
        LedColor::Purple => "purple"@,
        LedColor::SoftWhite => "softwhite"@,
    }
}

/// Each color's lowercase name names that color.
pub proof fn lemma_color_word_named(c: LedColor)
    ensures
        color_named(color_word(c)) == Some(c),
{
    reveal_strlit("black");
    reveal_strlit("white");
    reveal_strlit("red");
    reveal_strlit("blue");
    reveal_strlit("green");
    reveal_strlit("yellow");
    reveal_strlit("cyan");
    reveal_strlit("magenta");
    reveal_strlit("orange");
    reveal_strlit("purple");
    reveal_strlit("softwhite");
    reveal_strlit("off");
    assert("black"@[0] != "white"@[0]);
    assert("black"@.len() != "red"@.len());
    assert("black"@.len() != "blue"@.len());
    assert("black"@[0] != "green"@[0]);
    assert("black"@.len() != "yellow"@.len());
    assert("black"@.len() != "cyan"@.len());
    assert("black"@.len() != "magenta"@.len());
    assert("black"@.len() != "orange"@.len());
    assert("black"@.len() != "purple"@.len());
    assert("black"@.len() != "softwhite"@.len());
    assert("black"@.len() != "off"@.len());
    assert("white"@.len() != "red"@.len());
    assert("white"@.len() != "blue"@.len());
    assert("white"@[0] != "green"@[0]);
    assert("white"@.len() != "yellow"@.len());
    assert("white"@.len() != "cyan"@.len());
    assert("white"@.len() != "magenta"@.len());
    assert("white"@.len() != "orange"@.len());
    assert("white"@.len() != "purple"@.len());
    assert("white"@.len() != "softwhite"@.len());
    assert("white"@.len() != "off"@.len());
    assert("red"@.len() != "blue"@.len());
    assert("red"@.len() != "green"@.len());
    assert("red"@.len() != "yellow"@.len());
    assert("red"@.len() != "cyan"@.len());
    assert("red"@.len() != "magenta"@.len());
    assert("red"@.len() != "orange"@.len());
    assert("red"@.len() != "purple"@.len());
    assert("red"@.len() != "softwhite"@.len());
    assert("red"@[0] != "off"@[0]);
    assert("blue"@.len() != "green"@.len());
    assert("blue"@.len() != "yellow"@.len());
    assert("blue"@[0] != "cyan"@[0]);
    assert("blue"@.len() != "magenta"@.len());
    assert("blue"@.len() != "orange"@.len());
    assert("blue"@.len() != "purple"@.len());
    assert("blue"@.len() != "softwhite"@.len());
    assert("blue"@.len() != "off"@.len());
    assert("green"@.len() != "yellow"@.len());
    assert("green"@.len() != "cyan"@.len());
    assert("green"@.len() != "magenta"@.len());
    assert("green"@.len() != "orange"@.len());
    assert("green"@.len() != "purple"@.len());
    assert("green"@.len() != "softwhite"@.len());
    assert("green"@.len() != "off"@.len());
    assert("yellow"@.len() != "cyan"@.len());
    assert("yellow"@.len() != "magenta"@.len());
    assert("yellow"@[0] != "orange"@[0]);
    assert("yellow"@[0] != "purple"@[0]);
    assert("yellow"@.len() != "softwhite"@.len());
    assert("yellow"@.len() != "off"@.len());
    assert("cyan"@.len() != "magenta"@.len());
    assert("cyan"@.len() != "orange"@.len());
    assert("cyan"@.len() != "purple"@.len());
    assert("cyan"@.len() != "softwhite"@.len());
    assert("cyan"@.len() != "off"@.len());
    assert("magenta"@.len() != "orange"@.len());
    assert("magenta"@.len() != "purple"@.len());
    assert("magenta"@.len() != "softwhite"@.len());
    assert("magenta"@.len() != "off"@.len());
    assert("orange"@[0] != "purple"@[0]);
    assert("orange"@.len() != "softwhite"@.len());
    assert("orange"@.len() != "off"@.len());
    assert("purple"@.len() != "softwhite"@.len());
    assert("purple"@.len() != "off"@.len());
    assert("softwhite"@.len() != "off"@.len());
    match c {
        LedColor::Black => {},
        LedColor::White => {},
        LedColor::Red => {},
        LedColor::Blue => {},
        LedColor::Green => {},
        LedColor::Yellow => {},
        LedColor::Cyan => {},
        LedColor::Magenta => {},
        LedColor::Orange => {},
        LedColor::Purple => {},
        LedColor::SoftWhite => {},
    }
}

/// The report's name of each color is ASCII text whose lowercase form is the
/// color's lowercase name.
proof fn lemma_color_label_lower(c: LedColor)
    ensures
        is_ascii_text(color_label(c)),
        lower_text(color_label(c)) == color_word(c),
{
    reveal_strlit("black");
    reveal_strlit("white");
    reveal_strlit("red");
    reveal_strlit("blue");
    reveal_strlit("green");
    reveal_strlit("yellow");
    reveal_strlit("cyan");
    reveal_strlit("magenta");
    reveal_strlit("orange");
    reveal_strlit("purple");
    reveal_strlit("softwhite");
    reveal_strlit("off");
    match c {
        LedColor::Black => {
            reveal_strlit("Black");
            assert(color_label(c).map_values(|ch: char| ascii_lower(ch)) =~= "black"@);
        },
        LedColor::White => {
            reveal_strlit("White");
            assert(color_label(c).map_values(|ch: char| ascii_lower(ch)) =~= "white"@);
        },
        LedColor::Red => {
            reveal_strlit("Red");
            assert(color_label(c).map_values(|ch: char| ascii_lower(ch)) =~= "red"@);
        },
        LedColor::Blue => {
            reveal_strlit("Blue");
            assert(color_label(c).map_values(|ch: char| ascii_lower(ch)) =~= "blue"@);
        },
        LedColor::Green => {
            reveal_strlit("Green");
            assert(color_label(c).map_values(|ch: char| ascii_lower(ch)) =~= "green"@);
        },
        LedColor::Yellow => {
            reveal_strlit("Yellow");
            assert(color_label(c).map_values(|ch: char| ascii_lower(ch)) =~= "yellow"@);
        },
        LedColor::Cyan => {
            reveal_strlit("Cyan");
            assert(color_label(c).map_values(|ch: char| ascii_lower(ch)) =~= "cyan"@);
        },
        LedColor::Magenta => {
            reveal_strlit("Magenta");
            assert(color_label(c).map_values(|ch: char| ascii_lower(ch)) =~= "magenta"@);
        },
        LedColor::Orange => {
            reveal_strlit("Orange");
            assert(color_label(c).map_values(|ch: char| ascii_lower(ch)) =~= "orange"@);
        },
        LedColor::Purple => {
            reveal_strlit("Purple");
            assert(color_label(c).map_values(|ch: char| ascii_lower(ch)) =~= "purple"@);
        },
        LedColor::SoftWhite => {
            reveal_strlit("SoftWhite");
            assert(color_label(c).map_values(|ch: char| ascii_lower(ch)) =~= "softwhite"@);
        },
    }
}

/// Every color argument parses from the color's name as the report writes it
/// and from that name in capitals; any argument gives a color exactly when
/// its lowercase form names one (`off` names black).
pub proof fn lemma_color_names_parse(c: LedColor, s: Seq<char>)
    ensures
        color_argument(color_label(c)) == Ok::<LedColor, Seq<char>>(c),
        color_argument(ascii_upper_text(color_label(c))) == Ok::<LedColor, Seq<char>>(c),
        color_argument(s) is Ok <==> color_named(lower_text(s)) is Some,
{
    lemma_color_label_lower(c);
    lemma_color_word_named(c);
    lemma_upper_then_lower(color_label(c));
}

} // verus!
