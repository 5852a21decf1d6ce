use macdisp::{
    format_display_command, list_displays, parse_config, show_modes, DisplayInfo, DisplayMode,
    DisplayReport, Hertz,
};

fn laptop() -> DisplayInfo {
    DisplayInfo {
        id: 1,
        persistent_id: "37D8832A-2D66-02CA-B9F7-8F30A301B230".to_string(),
        contextual_id: 1,
        serial: 4251086178,
        x: 0,
        y: 0,
        width: 1512,
        height: 982,
        rotation: 0,
        hz: Hertz { millis: 120_000 },
        depth: 8,
        scaling: true,
        mode_number: 5,
        is_main: true,
        is_mirror: false,
        mirror_of: None,
        enabled: true,
        display_type: "MacBook built in screen".to_string(),
    }
}

fn monitor() -> DisplayInfo {
    DisplayInfo {
        id: 2,
        persistent_id: "F466F621-B5FA-04A0-0800-CFA6C258DECD".to_string(),
        contextual_id: 2,
        serial: 7,
        x: -1080,
        y: -430,
        width: 1080,
        height: 1920,
        rotation: 90,
        hz: Hertz { millis: 59_940 },
        depth: 7,
        scaling: false,
        mode_number: 41,
        is_main: false,
        is_mirror: true,
        mirror_of: Some(1),
        enabled: false,
        display_type: "27 inch external screen".to_string(),
    }
}

fn mode(number: u32, width: u32, height: u32, millis: u32, scaled: bool, safe: bool) -> DisplayMode {
    DisplayMode {
        width,
        height,
        refresh_rate: Hertz { millis },
        depth: 8,
        mode_number: number,
        is_stretched: false,
        is_interlaced: false,
        is_tv_mode: false,
        is_safe_for_hardware: safe,
        is_scaled: scaled,
    }
}

#[test]
fn command_lists_every_setting() {
    assert_eq!(
        format_display_command(&laptop()),
        "id:37D8832A-2D66-02CA-B9F7-8F30A301B230 res:1512x982 hz:120 color_depth:8 scaling:on origin:(0,0) degree:0 enabled:true"
    );
    assert_eq!(
        format_display_command(&monitor()),
        "id:F466F621-B5FA-04A0-0800-CFA6C258DECD res:1080x1920 hz:60 color_depth:7 scaling:off origin:(-1080,-430) degree:90 mirror:1 enabled:false"
    );
}

#[test]
fn command_is_written_like_the_format_macro() {
    for info in [laptop(), monitor()] {
        let mut expected = format!(
            "id:{} res:{}x{} hz:{:.0} color_depth:{} ",
            info.persistent_id,
            info.width,
            info.height,
            info.hz.millis as f64 / 1000.0,
            info.depth
        );
        expected.push_str(if info.scaling { "scaling:on " } else { "scaling:off " });
        expected.push_str(&format!("origin:({},{}) ", info.x, info.y));
        expected.push_str(&format!("degree:{} ", info.rotation));
        if let Some(mirror_id) = info.mirror_of {
            expected.push_str(&format!("mirror:{} ", mirror_id));
        }
        expected.push_str(if info.enabled { "enabled:true" } else { "enabled:false" });
        assert_eq!(format_display_command(&info), expected);
    }
}

#[test]
fn command_parses_back_to_the_settings() {
    for info in [laptop(), monitor()] {
        let config = parse_config(&format_display_command(&info)).unwrap();
        assert_eq!(config.id, info.persistent_id);
        assert_eq!(config.mode, None);
        assert_eq!(config.resolution, Some((info.width, info.height)));
        assert_eq!(
            config.hz,
            Some(Hertz { millis: ((info.hz.millis as f64 / 1000.0).round() as u32) * 1000 })
        );
        assert_eq!(config.color_depth, Some(info.depth));
        assert_eq!(config.scaling, Some(info.scaling));
        assert_eq!(config.origin, Some((info.x, info.y)));
        assert_eq!(config.degree, Some(info.rotation));
        assert_eq!(config.mirror, info.mirror_of.map(|id| id.to_string()));
        assert_eq!(config.enabled, Some(info.enabled));
    }
}

#[test]
fn whole_hertz_round_half_to_even() {
    for (millis, text) in [
        (0, "0"),
        (499, "0"),
        (500, "0"),
        (501, "1"),
        (1_500, "2"),
        (2_500, "2"),
        (59_499, "59"),
        (59_500, "60"),
        (59_940, "60"),
        (60_500, "60"),
        (60_501, "61"),
        (4_294_967_295, "4294967"),
    ] {
        let mut out = String::new();
        Hertz { millis }.push_whole(&mut out);
        assert_eq!(out, text, "{}", millis);
    }
    for millis in [0u32, 500, 1_500, 2_500, 23_976, 59_500, 60_500, 119_880, 4_294_967_295] {
        let mut out = String::new();
        Hertz { millis }.push_whole(&mut out);
        assert_eq!(out, format!("{:.0}", millis as f64 / 1000.0), "{}", millis);
    }
}

#[test]
fn two_places_round_half_to_even() {
    for (millis, text) in [
        (0, "0.00"),
        (4, "0.00"),
        (5, "0.00"),
        (6, "0.01"),
        (15, "0.02"),
        (25, "0.02"),
        (995, "1.00"),
        (23_976, "23.98"),
        (59_940, "59.94"),
        (60_000, "60.00"),
        (119_880, "119.88"),
        (4_294_967_295, "4294967.30"),
    ] {
        let mut out = String::new();
        Hertz { millis }.push_two_places(&mut out);
        assert_eq!(out, text, "{}", millis);
    }
    for millis in [0u32, 4, 6, 23_976, 59_940, 60_000, 74_973, 119_880, 143_856] {
        let mut out = String::new();
        Hertz { millis }.push_two_places(&mut out);
        assert_eq!(out, format!("{:.2}", millis as f64 / 1000.0), "{}", millis);
    }
}

#[test]
fn listing_of_no_displays() {
    assert_eq!(
        list_displays(true, &Vec::new()),
        "Execute the command below to set your screens to the current arrangement. If screen ids are switching, please run `macdisp --help` for info on using contextual or serial ids instead of persistent ids.\n\nmacdisp \n"
    );
    assert_eq!(
        list_displays(false, &Vec::new()),
        "DisplayServices available: false\nUsing CoreGraphics API (official Apple API)\n\nExecute the command below to set your screens to the current arrangement. If screen ids are switching, please run `macdisp --help` for info on using contextual or serial ids instead of persistent ids.\n\nmacdisp \n"
    );
}

#[test]
fn listing_of_two_displays() {
    let reports = vec![
        DisplayReport {
            info: laptop(),
            modes: vec![
                mode(4, 1512, 945, 120_000, true, true),
                mode(5, 1512, 982, 120_000, true, true),
                mode(6, 3024, 1964, 59_940, false, true),
            ],
        },
        DisplayReport { info: monitor(), modes: Vec::new() },
    ];
    let expected = "\
Persistent screen id: 37D8832A-2D66-02CA-B9F7-8F30A301B230
Contextual screen id: 1
Serial screen id: s4251086178
Type: MacBook built in screen
Resolution: 1512x982
Hertz: 120
Color Depth: 8
Scaling: on
Origin: (0,0) - main display
Rotation: 0
Enabled: true
Resolutions for rotation 0:
  mode 0: res:1512x945 hz:120 color_depth:8 scaling:on
  mode 1: res:1512x982 hz:120 color_depth:8 scaling:on <-- current mode
  mode 2: res:3024x1964 hz:60 color_depth:8

Persistent screen id: F466F621-B5FA-04A0-0800-CFA6C258DECD
Contextual screen id: 2
Serial screen id: s7
Type: 27 inch external screen
Resolution: 1080x1920
Hertz: 60
Color Depth: 7
Scaling: off
Origin: (-1080,-430)
Rotation: 90 - rotate internal screen example (may crash computer, but will be rotated after rebooting): `macdisp \"id:F466F621-B5FA-04A0-0800-CFA6C258DECD degree:90\"`
Enabled: false

Execute the command below to set your screens to the current arrangement. If screen ids are switching, please run `macdisp --help` for info on using contextual or serial ids instead of persistent ids.

macdisp \"id:37D8832A-2D66-02CA-B9F7-8F30A301B230 res:1512x982 hz:120 color_depth:8 scaling:on origin:(0,0) degree:0 enabled:true\" \"id:F466F621-B5FA-04A0-0800-CFA6C258DECD res:1080x1920 hz:60 color_depth:7 scaling:off origin:(-1080,-430) degree:90 mirror:1 enabled:false\" 
";
    assert_eq!(list_displays(true, &reports), expected);
}

#[test]
fn modes_table_is_written_like_the_format_macro() {
    let modes = vec![
        mode(4, 1512, 945, 120_000, true, true),
        mode(5, 1512, 982, 59_940, true, false),
        mode(123456789, 10240, 432000, 4_294_967_294, false, true),
    ];
    for (current, services) in [(Some(modes[1]), true), (None, false), (Some(mode(77, 1, 2, 3, false, false)), true)] {
        let mut expected = String::new();
        expected.push_str(&format!("Available modes for display {}:\n\n", 42));
        expected.push_str(&format!(
            "{:<8} {:<12} {:<10} {:<8} {:<10} {:<6}\n",
            "Mode #", "Resolution", "Hz", "Depth", "Safe", "Current"
        ));
        expected.push_str(&format!("{:-<70}\n", ""));
        for mode in &modes {
            let is_current = current.map(|c| c.mode_number == mode.mode_number).unwrap_or(false);
            expected.push_str(&format!(
                "{:<8} {:<12} {:<10.2} {:<8} {:<10} {:<6}\n",
                mode.mode_number,
                format!("{}x{}", mode.width, mode.height),
                mode.refresh_rate.millis as f64 / 1000.0,
                format!("{}-bit", mode.depth),
                if mode.is_safe_for_hardware { "yes" } else { "no" },
                if is_current { "*" } else { "" }
            ));
        }
        expected.push_str("\n* = current mode\n");
        expected.push_str(&format!("\nDisplayServices available: {}\n", services));
        if let Some(current) = current {
            expected.push_str(&format!(
                "Current mode is: {} ({}x{} @ {:.0}Hz)\n",
                current.mode_number,
                current.width,
                current.height,
                current.refresh_rate.millis as f64 / 1000.0
            ));
        }
        assert_eq!(show_modes(42, &modes, current, services), expected);
    }
}

#[test]
fn modes_table_of_one_mode() {
    let modes = vec![mode(5, 1512, 982, 59_940, true, true)];
    let expected = "\
Available modes for display 1:

Mode #   Resolution   Hz         Depth    Safe       Current
----------------------------------------------------------------------
5        1512x982     59.94      8-bit    yes        *     

* = current mode

DisplayServices available: true
Current mode is: 5 (1512x982 @ 60Hz)
";
    assert_eq!(show_modes(1, &modes, Some(modes[0]), true), expected);
}
