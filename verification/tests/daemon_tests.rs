use lincstation_leds::daemon::{
    bus_from_args, color_from_name, color_name, device_activity, device_report_row,
    drive_status_message, drive_status_to_led_color, parse_color_argument, parse_led_bar_args,
    unknown_color,
};
use lincstation_leds::disk_status::{DiskStats, DriveStatus};
use lincstation_leds::led_controller::{LedBar, LedBarMode, LedColor};

fn args(s: &[&str]) -> Vec<String> {
    s.iter().map(|a| a.to_string()).collect()
}

#[test]
fn status_colors() {
    assert_eq!(drive_status_to_led_color(DriveStatus::Healthy), (LedColor::White, false));
    assert_eq!(drive_status_to_led_color(DriveStatus::Missing), (LedColor::White, true));
    assert_eq!(drive_status_to_led_color(DriveStatus::Degraded), (LedColor::Red, false));
}

#[test]
fn status_colors_tell_states_apart() {
    let all = [DriveStatus::Healthy, DriveStatus::Missing, DriveStatus::Degraded];
    for a in all {
        for b in all {
            assert_eq!(drive_status_to_led_color(a) == drive_status_to_led_color(b), a == b);
        }
    }
}

#[test]
fn color_arguments() {
    assert_eq!(parse_color_argument("red"), Ok(LedColor::Red));
    assert_eq!(parse_color_argument("RED"), Ok(LedColor::Red));
    assert_eq!(parse_color_argument("SoftWhite"), Ok(LedColor::SoftWhite));
    assert_eq!(parse_color_argument("Off"), Ok(LedColor::Black));
    assert_eq!(parse_color_argument("black"), Ok(LedColor::Black));
    assert_eq!(
        parse_color_argument("Pink"),
        Err("Unknown color 'Pink'. Valid colors: black, white, red, blue, green, yellow, cyan, magenta, orange, purple, softwhite".to_string())
    );
    assert_eq!(color_from_name("orange"), Some(LedColor::Orange));
    assert_eq!(color_from_name("Orange"), None);
    assert!(unknown_color("x").starts_with("Unknown color 'x'."));
}

#[test]
fn led_bar_args_loop() {
    let bar = parse_led_bar_args(&args(&["leds", "test-led-bar", "--color", "red", "--loopcolor", "blue"])).unwrap();
    assert_eq!(bar, LedBar { mode: LedBarMode::Loop, brightness: 255, color: LedColor::Red, loop_color: LedColor::Blue });
}

#[test]
fn led_bar_args_order_does_not_matter() {
    let bar = parse_led_bar_args(&args(&["leds", "test-led-bar", "--loopcolor", "yellow", "--color", "green"])).unwrap();
    assert_eq!(bar, LedBar { mode: LedBarMode::Loop, brightness: 255, color: LedColor::Green, loop_color: LedColor::Yellow });
}

#[test]
fn led_bar_args_solid() {
    let bar = parse_led_bar_args(&args(&["leds", "test-led-bar", "--color", "orange"])).unwrap();
    assert_eq!(bar, LedBar { mode: LedBarMode::Solid, brightness: 255, color: LedColor::Orange, loop_color: LedColor::Orange });
}

#[test]
fn led_bar_args_breathing() {
    let bar = parse_led_bar_args(&args(&["leds", "test-led-bar", "--color", "orange", "--breathing"])).unwrap();
    assert_eq!(bar, LedBar { mode: LedBarMode::Breath, brightness: 255, color: LedColor::Orange, loop_color: LedColor::Orange });
}

#[test]
fn led_bar_args_errors() {
    assert_eq!(
        parse_led_bar_args(&args(&["leds", "test-led-bar", "--breathing"])),
        Err("Missing required argument: --color".to_string())
    );
    assert_eq!(
        parse_led_bar_args(&args(&["leds", "test-led-bar", "--color"])),
        Err("Missing required argument: --color".to_string())
    );
    let e = parse_led_bar_args(&args(&["leds", "test-led-bar", "--color", "teal"])).unwrap_err();
    assert!(e.starts_with("Unknown color 'teal'"));
    let e = parse_led_bar_args(&args(&["leds", "test-led-bar", "--color", "--breathing"])).unwrap_err();
    assert!(e.starts_with("Unknown color '--breathing'"));
    // the subcommand itself is not read as an option
    assert!(parse_led_bar_args(&args(&["--color", "red"])).is_err());
}

#[test]
fn bus_argument() {
    assert_eq!(bus_from_args(&args(&["leds", "test-all-off", "--bus", "3"])), Some(3));
    assert_eq!(bus_from_args(&args(&["leds", "--bus", "x", "--bus", "-2"])), Some(-2));
    assert_eq!(bus_from_args(&args(&["leds", "test-all-off", "--bus"])), None);
    assert_eq!(bus_from_args(&args(&["leds"])), None);
}

fn stats(name: &str, ms_doing_io: u64) -> DiskStats {
    let mut d = DiskStats::default();
    d.device_name = name.to_string();
    d.ms_doing_io = ms_doing_io;
    d
}

#[test]
fn activity() {
    let a = vec![stats("sda", 10), stats("sdb", 5)];
    let b = vec![stats("sda", 12), stats("sdb", 5)];
    assert_eq!(device_activity("sda", &a, &b), "Active");
    assert_eq!(device_activity("sdb", &a, &b), "Inactive");
    assert_eq!(device_activity("sdc", &a, &b), "N/A");
}

#[test]
fn report_rows() {
    let a = vec![stats("sda", 10)];
    let b = vec![stats("sda", 11)];
    let row = device_report_row("sda", Some("running\n"), &a, &b);
    assert_eq!(
        (row.device.as_str(), row.slot.as_str(), row.color.as_str(), row.activity.as_str(), row.message.as_str()),
        ("sda", "SATA1", "White", "Active", "Drive present")
    );
    let row = device_report_row("nvme2n1", None, &a, &b);
    assert_eq!((row.slot.as_str(), row.color.as_str(), row.activity.as_str(), row.message.as_str()), ("NVME3", "White (blinking)", "N/A", "Drive missing"));
    let row = device_report_row("sdb", Some("offline"), &a, &b);
    assert_eq!((row.color.as_str(), row.message.as_str()), ("Red", "Drive degraded"));
    let row = device_report_row("loop0", None, &a, &b);
    assert_eq!((row.slot.as_str(), row.color.as_str()), ("(Not Mapped)", "-"));
    assert_eq!(color_name(LedColor::SoftWhite), "SoftWhite");
    assert_eq!(drive_status_message(DriveStatus::Healthy), "Drive present");
}

#[test]
fn every_color_name_parses_in_any_case() {
    let all = [
        LedColor::Black, LedColor::White, LedColor::Red, LedColor::Blue, LedColor::Green,
        LedColor::Yellow, LedColor::Cyan, LedColor::Magenta, LedColor::Orange, LedColor::Purple,
        LedColor::SoftWhite,
    ];
    for c in all {
        let name = format!("{:?}", c);
        assert_eq!(color_name(c), name);
        assert_eq!(parse_color_argument(&name), Ok(c));
        assert_eq!(parse_color_argument(&name.to_uppercase()), Ok(c));
        assert_eq!(parse_color_argument(&name.to_lowercase()), Ok(c));
    }
}
