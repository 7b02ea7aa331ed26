use lincstation_leds::led_controller::{
    bus_display_name, bus_from_entry, BusSearch, CommandRun, ProbeAction, bus_numbers, color_to_rgb, command_plan, device_path,
    find_strip, led_bar_register, led_bar_register_label, led_bar_writes, led_strip_name,
    led_strip_writes, mode_name, mode_register_value, step_writes, strip_read_registers,
    strip_registers, CommandStep, LedBar, LedBarMode, LedBarRegisters, LedColor, LedCommand,
    LedControllerState, LedStrip, RegisterWrite, StripState, LED_CONTROLLER_ADDR,
    MINIMUM_WRITE_DELAY_MS, STRIP_COUNT,
};

const ALL_COLORS: [LedColor; 11] = [
    LedColor::Black,
    LedColor::White,
    LedColor::Red,
    LedColor::Blue,
    LedColor::Green,
    LedColor::Yellow,
    LedColor::Cyan,
    LedColor::Magenta,
    LedColor::Orange,
    LedColor::Purple,
    LedColor::SoftWhite,
];

fn w(register: u8, value: u8) -> RegisterWrite {
    RegisterWrite { register, value }
}

#[test]
fn rgb_values() {
    assert_eq!(color_to_rgb(LedColor::Black), (0, 0, 0));
    assert_eq!(color_to_rgb(LedColor::White), (255, 255, 255));
    assert_eq!(color_to_rgb(LedColor::SoftWhite), (225, 225, 225));
    assert_eq!(color_to_rgb(LedColor::Yellow), (255, 200, 0));
    assert_eq!(color_to_rgb(LedColor::Orange), (255, 165, 0));
    assert_eq!(color_to_rgb(LedColor::Purple), (128, 0, 128));
}

#[test]
fn rgb_values_are_distinct() {
    for a in ALL_COLORS {
        for b in ALL_COLORS {
            assert_eq!(color_to_rgb(a) == color_to_rgb(b), a == b);
        }
    }
}

#[test]
fn defaults() {
    assert_eq!(LedColor::default(), LedColor::Black);
    let bar = LedBar::default();
    assert_eq!(bar, LedBar { mode: LedBarMode::Loop, brightness: 255, color: LedColor::Yellow, loop_color: LedColor::Green });
    assert_eq!(LedStrip::default(), LedStrip { white_on: false, red_on: false, white_blinking: false });
    let d = LedControllerState::default();
    assert_eq!(d.bar, bar);
    for i in 0..STRIP_COUNT {
        assert_eq!(d.strip(led_strip_name(i)), Some(LedStrip::default()));
    }
    assert_eq!(d.strip("HDD0"), None);
}

#[test]
fn new_state_is_all_off() {
    let s = LedControllerState::new();
    assert_eq!(s.bar, LedBar { mode: LedBarMode::Solid, brightness: 0, color: LedColor::Black, loop_color: LedColor::Black });
    for i in 0..STRIP_COUNT {
        assert_eq!(s.strip(led_strip_name(i)), Some(LedStrip::default()));
    }
}

#[test]
fn constants_and_names() {
    assert_eq!(LED_CONTROLLER_ADDR, 0x26);
    assert_eq!(MINIMUM_WRITE_DELAY_MS, 10);
    let names: Vec<&str> = (0..STRIP_COUNT).map(led_strip_name).collect();
    assert_eq!(names, vec!["POWER", "MGMT", "SSD1", "SSD2", "NVME1", "NVME2", "NVME3", "NVME4"]);
    for i in 0..STRIP_COUNT {
        assert_eq!(strip_registers(i).name, led_strip_name(i));
    }
    assert_eq!(mode_register_value(LedBarMode::Solid), 0);
    assert_eq!(mode_register_value(LedBarMode::Breath), 1);
    assert_eq!(mode_register_value(LedBarMode::Loop), 2);
}

#[test]
fn bar_writes_cover_registers_in_order() {
    let bar = LedBar { mode: LedBarMode::Loop, brightness: 200, color: LedColor::Red, loop_color: LedColor::Blue };
    let writes = led_bar_writes(&bar);
    assert_eq!(
        writes,
        vec![
            w(0x90, 2), w(0x91, 200),
            w(0x92, 255), w(0x93, 0), w(0x94, 0),
            w(0x95, 255), w(0x96, 0), w(0x97, 0),
            w(0x98, 0), w(0x99, 0), w(0x9A, 255),
        ]
    );
}

#[test]
fn strip_writes() {
    let nvme3 = strip_registers(6);
    assert_eq!(led_strip_writes(&nvme3, true, false, true), vec![w(0xA1, 0x10), w(0xB1, 0x20), w(0x5C, 0x01)]);
    let power = strip_registers(0);
    assert_eq!(led_strip_writes(&power, false, true, false), vec![w(0xB0, 0x01), w(0xA0, 0x02), w(0x50, 0x00)]);
}

#[test]
fn strip_register_layout() {
    for i in 0..STRIP_COUNT {
        let a = strip_registers(i);
        assert_eq!(a.white_off_reg, a.white_on_reg + 0x10);
        assert_eq!(a.white_on_val.count_ones(), 1);
        assert_eq!(a.red_on_val.count_ones(), 1);
        assert_ne!(a.white_on_val, a.red_on_val);
        for j in 0..STRIP_COUNT {
            let b = strip_registers(j);
            if i != j {
                assert_ne!(a.blink_reg, b.blink_reg);
                if a.white_on_reg == b.white_on_reg {
                    assert_eq!((a.white_on_val | a.red_on_val) & (b.white_on_val | b.red_on_val), 0);
                }
            }
        }
    }
}

#[test]
fn find_strip_by_name() {
    assert_eq!(find_strip("POWER"), Some(0));
    assert_eq!(find_strip("NVME4"), Some(7));
    assert_eq!(find_strip("nvme4"), None);
    assert_eq!(find_strip(""), None);
}

#[test]
fn plan_apply_bar() {
    let bar = LedBar { mode: LedBarMode::Breath, brightness: 9, color: LedColor::Cyan, loop_color: LedColor::Cyan };
    let plan = command_plan(&LedCommand::ApplyBar(bar)).unwrap();
    assert_eq!(plan, vec![CommandStep::SetBar(bar), CommandStep::WriteBar(bar)]);
}

#[test]
fn plan_single_led() {
    let plan = command_plan(&LedCommand::SetSingleLed("SSD2".to_string(), true, true, false)).unwrap();
    assert_eq!(
        plan,
        vec![
            CommandStep::WriteStrip { strip: 3, white_on: true, red_on: true, blink_on: false },
            CommandStep::SetStrip { strip: 3, white_on: true, red_on: true, blink_on: false },
        ]
    );
    assert_eq!(step_writes(&plan[0]), vec![w(0xA0, 0x10), w(0xA0, 0x20), w(0x54, 0x00)]);
    let err = command_plan(&LedCommand::SetSingleLed("HDD0".to_string(), true, false, false)).unwrap_err();
    assert_eq!(err, "No strip register for 'HDD0'");
}

#[test]
fn single_led_is_recorded() {
    let mut state = LedControllerState::new();
    let mut run = CommandRun::start(&LedCommand::SetSingleLed("NVME2".to_string(), false, true, true)).unwrap();
    let writes = run.next_transfer(&mut state).unwrap();
    assert_eq!(writes, vec![w(0xB1, 0x04), w(0xA1, 0x08), w(0x5A, 0x01)]);
    assert!(run.next_transfer(&mut state).is_none());
    assert_eq!(state.strip("NVME2"), Some(LedStrip { white_on: false, red_on: true, white_blinking: true }));
    assert_eq!(state.strip("NVME1"), Some(LedStrip::default()));
    assert_eq!(state.bar.brightness, 0);
}

#[test]
fn plan_all_white_and_red() {
    let white = LedBar { mode: LedBarMode::Solid, brightness: 255, color: LedColor::White, loop_color: LedColor::White };
    let plan = command_plan(&LedCommand::AllStripsWhite).unwrap();
    assert_eq!(plan.len(), 2 + 2 * STRIP_COUNT);
    assert_eq!(plan[0], CommandStep::WriteBar(white));
    assert_eq!(plan[1], CommandStep::SetBar(white));
    for i in 0..STRIP_COUNT {
        assert_eq!(plan[2 + 2 * i], CommandStep::WriteStrip { strip: i, white_on: true, red_on: false, blink_on: false });
        assert_eq!(plan[3 + 2 * i], CommandStep::SetStrip { strip: i, white_on: true, red_on: false, blink_on: false });
    }
    let plan = command_plan(&LedCommand::AllStripsRed).unwrap();
    assert_eq!(plan[1], CommandStep::SetBar(LedBar { mode: LedBarMode::Solid, brightness: 255, color: LedColor::Red, loop_color: LedColor::Red }));
    assert_eq!(plan[16], CommandStep::WriteStrip { strip: 7, white_on: false, red_on: true, blink_on: false });
}

#[test]
fn all_white_and_red_are_recorded() {
    for (cmd, setting, first_strip) in [
        (LedCommand::AllStripsWhite, LedStrip { white_on: true, red_on: false, white_blinking: false }, vec![w(0xA0, 0x01), w(0xB0, 0x02), w(0x50, 0x00)]),
        (LedCommand::AllStripsRed, LedStrip { white_on: false, red_on: true, white_blinking: false }, vec![w(0xB0, 0x01), w(0xA0, 0x02), w(0x50, 0x00)]),
    ] {
        let mut state = LedControllerState::new();
        let mut run = CommandRun::start(&cmd).unwrap();
        let bar_writes = run.next_transfer(&mut state).unwrap();
        assert_eq!(bar_writes[1], w(0x91, 255));
        assert_eq!(run.next_transfer(&mut state).unwrap(), first_strip);
        while run.next_transfer(&mut state).is_some() {}
        assert_eq!(state.bar.brightness, 255);
        for i in 0..STRIP_COUNT {
            assert_eq!(state.strip(led_strip_name(i)), Some(setting));
        }
    }
}

#[test]
fn all_off_plan_applied_twice_is_the_same_state() {
    let mut state = LedControllerState::default();
    state.set_strip("POWER".to_string(), LedStrip { white_on: true, red_on: false, white_blinking: true });
    state.set_strip("EXTRA".to_string(), LedStrip { white_on: true, red_on: true, white_blinking: false });
    let plan = command_plan(&LedCommand::AllLEDsOff).unwrap();
    assert_eq!(plan[0], CommandStep::ResetStrips);
    for _ in 0..2 {
        for step in &plan {
            state.apply_step(step);
        }
        assert_eq!(state.bar, LedBar { mode: LedBarMode::Solid, brightness: 0, color: LedColor::Black, loop_color: LedColor::Black });
        for i in 0..STRIP_COUNT {
            assert_eq!(state.strip(led_strip_name(i)), Some(LedStrip::default()));
        }
        assert_eq!(state.strip("EXTRA"), Some(LedStrip { white_on: true, red_on: true, white_blinking: false }));
    }
}

#[test]
fn write_steps_leave_state_alone() {
    let mut state = LedControllerState::new();
    let bar = LedBar::default();
    state.apply_step(&CommandStep::WriteBar(bar));
    state.apply_step(&CommandStep::WriteStrip { strip: 1, white_on: true, red_on: true, blink_on: true });
    assert_eq!(state.bar.brightness, 0);
    assert_eq!(state.strip("MGMT"), Some(LedStrip::default()));
    assert!(step_writes(&CommandStep::ResetStrips).is_empty());
    assert!(step_writes(&CommandStep::WriteStrip { strip: 8, white_on: true, red_on: true, blink_on: true }).is_empty());
}

#[test]
fn bus_discovery() {
    assert_eq!(bus_from_entry("i2c-12"), Some(12));
    assert_eq!(bus_from_entry("i2c-"), None);
    assert_eq!(bus_from_entry("spidev0"), None);
    let entries: Vec<String> = ["i2c-10", "i2c-2", "foo", "i2c-x", "i2c-0", "i2c-2"].iter().map(|s| s.to_string()).collect();
    assert_eq!(bus_numbers(&entries), vec![0, 2, 2, 10]);
    assert_eq!(device_path(3), "/dev/i2c-3");
    assert_eq!(device_path(-1), "/dev/i2c--1");
    assert_eq!(bus_display_name(1, Some("SMBus I801 adapter\n")), "SMBus I801 adapter");
    assert_eq!(bus_display_name(4, None), "I2C Bus 4");
}

#[test]
fn register_read_back() {
    assert_eq!(led_bar_register(0), 0x90);
    assert_eq!(led_bar_register(10), 0x9A);
    assert_eq!(led_bar_register_label(0), "mode");
    assert_eq!(led_bar_register_label(7), "loop A blue");
    let values = [2, 255, 1, 2, 3, 4, 5, 6, 7, 8, 9];
    let r = LedBarRegisters::from_values(&values);
    assert_eq!((r.mode, r.brightness, r.color_blue, r.loop_b_blue), (2, 255, 3, 9));
    assert_eq!(mode_name(r.mode), "Loop");
    assert_eq!(mode_name(0), "Solid");
    assert_eq!(mode_name(1), "Breath");
    assert_eq!(mode_name(7), "Unknown");
    let map = strip_registers(1);
    assert_eq!(strip_read_registers(&map), [0xA0, 0xB0, 0xA0, 0xB0, 0x56]);
    let s = StripState::from_reads(&map, &[1, 2, 3, 4, 5]);
    assert_eq!(s.name, "MGMT");
    assert_eq!((s.white_on_reg, s.white_on_val, s.blink_reg, s.blink_val), (0xA0, 1, 0x56, 5));
}

#[test]
fn command_run_hands_out_transfers_in_order() {
    let mut state = LedControllerState::default();
    let mut run = CommandRun::start(&LedCommand::AllLEDsOff).unwrap();
    let first = run.next_transfer(&mut state).unwrap();
    // the strips are recorded off before the bar is written
    assert_eq!(state.strip("POWER"), Some(LedStrip::default()));
    assert_eq!(state.bar, LedBar::default());
    assert_eq!(first.len(), 11);
    assert_eq!(first[1], w(0x91, 0));
    let mut transfers = 1;
    while let Some(writes) = run.next_transfer(&mut state) {
        assert_eq!(writes.len(), 3);
        transfers += 1;
    }
    assert_eq!(transfers, 1 + STRIP_COUNT);
    assert_eq!(state.bar.brightness, 0);
    assert!(run.next_transfer(&mut state).is_none());
    assert!(CommandRun::start(&LedCommand::SetSingleLed("X".to_string(), true, true, true)).is_err());
}

#[test]
fn bus_search_takes_first_answering_bus() {
    let entries: Vec<String> = ["i2c-7", "i2c-1", "i2c-4"].iter().map(|s| s.to_string()).collect();
    let mut search = BusSearch::new(&entries);
    assert_eq!(search.step(false), ProbeAction::Probe(1));
    assert_eq!(search.step(false), ProbeAction::Probe(4));
    assert_eq!(search.step(true), ProbeAction::Found(4));
    let mut search = BusSearch::new(&entries);
    assert_eq!(search.step(true), ProbeAction::Probe(1));
    assert_eq!(search.step(false), ProbeAction::Probe(4));
    assert_eq!(search.step(false), ProbeAction::Probe(7));
    assert_eq!(search.step(false), ProbeAction::NotFound);
    let mut empty = BusSearch::new(&Vec::new());
    assert_eq!(empty.step(false), ProbeAction::NotFound);
    assert_eq!(device_path(4294967295), "/dev/i2c-4294967295");
}
