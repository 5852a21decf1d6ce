use macdisp::{
    find_mode, select_mode, DisplayError, DisplayMode, Hertz, ModeChoice, ModeCriteria,
};

fn mode(number: u32, width: u32, height: u32, millis: u32, depth: u32, scaled: bool) -> DisplayMode {
    DisplayMode {
        width,
        height,
        refresh_rate: Hertz { millis },
        depth,
        mode_number: number,
        is_stretched: false,
        is_interlaced: false,
        is_tv_mode: false,
        is_safe_for_hardware: true,
        is_scaled: scaled,
    }
}

fn criteria() -> ModeCriteria {
    ModeCriteria { resolution: None, hz: None, color_depth: None, scaling: None }
}

#[test]
fn absent_scaling_is_a_wildcard() {
    let catalog = vec![mode(1, 1920, 1080, 60_000, 24, false), mode(2, 1920, 1080, 60_000, 24, true)];
    let wanted = ModeCriteria {
        resolution: Some((1920, 1080)),
        hz: Some(Hertz { millis: 60_000 }),
        ..criteria()
    };
    assert_eq!(find_mode(&catalog, &wanted), Some(catalog[0]));
    let reversed = vec![catalog[1], catalog[0]];
    assert_eq!(find_mode(&reversed, &wanted), Some(catalog[1]));
}

#[test]
fn present_scaling_is_matched_exactly() {
    let catalog = vec![mode(1, 1920, 1080, 60_000, 24, false), mode(2, 1920, 1080, 60_000, 24, true)];
    let scaled = ModeCriteria { resolution: Some((1920, 1080)), scaling: Some(true), ..criteria() };
    assert_eq!(find_mode(&catalog, &scaled), Some(catalog[1]));
    let native = ModeCriteria { resolution: Some((1920, 1080)), scaling: Some(false), ..criteria() };
    assert_eq!(find_mode(&catalog, &native), Some(catalog[0]));
}

#[test]
fn refresh_rate_matches_within_tolerance() {
    let catalog = vec![mode(1, 1920, 1080, 60_000, 24, false)];
    let near = ModeCriteria { hz: Some(Hertz { millis: 59_950 }), ..criteria() };
    assert_eq!(find_mode(&catalog, &near), Some(catalog[0]));
    let far = ModeCriteria { hz: Some(Hertz { millis: 59_800 }), ..criteria() };
    assert_eq!(find_mode(&catalog, &far), None);
}

#[test]
fn tolerance_excludes_its_bound() {
    let catalog = vec![mode(1, 1920, 1080, 60_000, 24, false)];
    for (millis, matches) in [
        (59_900, false),
        (59_901, true),
        (60_000, true),
        (60_099, true),
        (60_100, false),
        (0, false),
        (u32::MAX, false),
    ] {
        let wanted = ModeCriteria { hz: Some(Hertz { millis }), ..criteria() };
        assert_eq!(find_mode(&catalog, &wanted).is_some(), matches, "{}", millis);
        assert_eq!(Hertz { millis }.is_close_to(&Hertz { millis: 60_000 }), matches);
        assert_eq!(Hertz { millis: 60_000 }.is_close_to(&Hertz { millis }), matches);
    }
}

#[test]
fn every_present_criterion_must_hold() {
    let catalog = vec![
        mode(1, 1920, 1080, 60_000, 24, false),
        mode(2, 1920, 1080, 60_000, 32, false),
        mode(3, 1920, 1200, 60_000, 32, false),
        mode(4, 1920, 1200, 120_000, 32, true),
    ];
    let wanted = ModeCriteria {
        resolution: Some((1920, 1200)),
        hz: Some(Hertz { millis: 120_000 }),
        color_depth: Some(32),
        scaling: Some(true),
    };
    assert_eq!(find_mode(&catalog, &wanted), Some(catalog[3]));
    let depth_only = ModeCriteria { color_depth: Some(32), ..criteria() };
    assert_eq!(find_mode(&catalog, &depth_only), Some(catalog[1]));
    let width_mismatch = ModeCriteria { resolution: Some((1080, 1920)), ..criteria() };
    assert_eq!(find_mode(&catalog, &width_mismatch), None);
    assert_eq!(find_mode(&Vec::new(), &depth_only), None);
    assert_eq!(find_mode(&catalog, &criteria()), Some(catalog[0]));
}

#[test]
fn selection_skips_the_search_without_mode_criteria() {
    let catalog = vec![mode(1, 1920, 1080, 60_000, 24, false)];
    let current = mode(9, 800, 600, 60_000, 24, false);
    assert_eq!(select_mode(&catalog, &criteria(), &current, 1), Ok(ModeChoice::Unchanged));
    let scaling_only = ModeCriteria { scaling: Some(true), ..criteria() };
    assert_eq!(select_mode(&catalog, &scaling_only, &current, 1), Ok(ModeChoice::Unchanged));
    assert_eq!(select_mode(&Vec::new(), &scaling_only, &current, 1), Ok(ModeChoice::Unchanged));
}

#[test]
fn selection_fails_without_a_match() {
    let catalog = vec![mode(1, 1920, 1080, 60_000, 24, false)];
    let current = catalog[0];
    let wanted = ModeCriteria { resolution: Some((800, 600)), ..criteria() };
    assert_eq!(
        select_mode(&catalog, &wanted, &current, 7),
        Err(DisplayError::NoMatchingMode { display_id: 7 })
    );
    let scaled = ModeCriteria { color_depth: Some(24), scaling: Some(true), ..criteria() };
    assert_eq!(
        select_mode(&catalog, &scaled, &current, 7),
        Err(DisplayError::NoMatchingMode { display_id: 7 })
    );
}

#[test]
fn selection_of_the_current_mode_changes_nothing() {
    let catalog = vec![mode(1, 1920, 1080, 60_000, 24, false), mode(2, 1280, 720, 60_000, 24, false)];
    let wanted = ModeCriteria { resolution: Some((1280, 720)), ..criteria() };
    assert_eq!(select_mode(&catalog, &wanted, &catalog[1], 1), Ok(ModeChoice::Unchanged));
    assert_eq!(select_mode(&catalog, &wanted, &catalog[0], 1), Ok(ModeChoice::Switch(catalog[1])));
}
