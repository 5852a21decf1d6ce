use macdisp::{
    check_status, configure_display, get_display_info, ConfigureArguments, DisplayError,
    DisplayInfo, DisplayMode, DisplayReading, FacadeCall, Hertz,
};

fn reading() -> DisplayReading {
    DisplayReading {
        x: -1920,
        y: 25,
        main_display: 1,
        in_mirror_set: false,
        mirrors: 0,
        uuid: Some("37D8832A-2D66-02CA-B9F7-8F30A301B230".to_string()),
        kind: Some("27 inch external screen".to_string()),
        serial: 99,
        rotation: 270,
        active: true,
    }
}

fn current_mode() -> DisplayMode {
    DisplayMode {
        width: 2560,
        height: 1440,
        refresh_rate: Hertz { millis: 59_951 },
        depth: 8,
        mode_number: 17,
        is_stretched: false,
        is_interlaced: false,
        is_tv_mode: false,
        is_safe_for_hardware: true,
        is_scaled: true,
    }
}

#[test]
fn test_display_info() {
    let displays: Vec<u32> = vec![1];
    if let Some(&display_id) = displays.first() {
        let info = get_display_info(display_id, &reading(), Some(current_mode()));
        assert!(info.is_some(), "Could not get display info");
    }
}

#[test]
fn display_info_is_put_together_from_reading_and_mode() {
    assert_eq!(
        get_display_info(2, &reading(), Some(current_mode())),
        Some(DisplayInfo {
            id: 2,
            persistent_id: "37D8832A-2D66-02CA-B9F7-8F30A301B230".to_string(),
            contextual_id: 2,
            serial: 99,
            x: -1920,
            y: 25,
            width: 2560,
            height: 1440,
            rotation: 270,
            hz: Hertz { millis: 59_951 },
            depth: 8,
            scaling: true,
            mode_number: 17,
            is_main: false,
            is_mirror: false,
            mirror_of: None,
            enabled: true,
            display_type: "27 inch external screen".to_string(),
        })
    );
}

#[test]
fn display_without_mode_has_no_info() {
    assert_eq!(get_display_info(1, &reading(), None), None);
}

#[test]
fn unknown_identity_falls_back() {
    let mut anonymous = reading();
    anonymous.uuid = None;
    anonymous.kind = None;
    let info = get_display_info(69734208, &anonymous, Some(current_mode())).unwrap();
    assert_eq!(info.persistent_id, "69734208");
    assert_eq!(info.display_type, "Unknown");
    assert!(!info.is_main);
    let main = get_display_info(1, &anonymous, Some(current_mode())).unwrap();
    assert_eq!(main.persistent_id, "1");
    assert!(main.is_main);
}

#[test]
fn mirror_target_is_set_exactly_for_mirrors() {
    for (in_set, mirrors, expected) in [
        (false, 0, None),
        (false, 5, None),
        (true, 0, None),
        (true, 5, Some(5)),
    ] {
        let mut read = reading();
        read.in_mirror_set = in_set;
        read.mirrors = mirrors;
        let info = get_display_info(2, &read, Some(current_mode())).unwrap();
        assert_eq!(info.mirror_of, expected);
        assert_eq!(info.is_mirror, expected.is_some());
    }
}

#[test]
fn absent_settings_are_passed_as_markers() {
    assert_eq!(
        configure_display(3, None, None, None, None, None),
        ConfigureArguments {
            display_id: 3,
            x: -1,
            y: -1,
            rotation: -1,
            mirror_display_id: 0,
            enabled: true,
        }
    );
    assert_eq!(
        configure_display(3, Some(-100), Some(200), Some(90), Some(4), Some(false)),
        ConfigureArguments {
            display_id: 3,
            x: -100,
            y: 200,
            rotation: 90,
            mirror_display_id: 4,
            enabled: false,
        }
    );
}

#[test]
fn rotation_keeps_its_bits() {
    for degrees in [0u32, 90, 2147483647, 2147483648, 4294967295] {
        let arguments = configure_display(1, None, None, Some(degrees), None, None);
        assert_eq!(arguments.rotation, degrees as i32, "{}", degrees);
    }
}

#[test]
fn status_zero_is_success() {
    assert_eq!(check_status(FacadeCall::SetMode, 0), Ok(()));
    assert_eq!(check_status(FacadeCall::Configure, 0), Ok(()));
    assert_eq!(
        check_status(FacadeCall::SetMode, 1001),
        Err(DisplayError::FacadeError { call: FacadeCall::SetMode, code: 1001 })
    );
    assert_eq!(
        check_status(FacadeCall::Configure, -1),
        Err(DisplayError::FacadeError { call: FacadeCall::Configure, code: -1 })
    );
}
