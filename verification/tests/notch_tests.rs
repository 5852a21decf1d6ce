use macdisp::{
    is_builtin_display, mode_family, plan_notch, sort_modes, DisplayError, DisplayMode, Hertz,
    NotchAction, NotchCommand, NotchPlan, NotchStage, Notice, Request, Response,
};

fn mode(number: u32, width: u32, height: u32, millis: u32) -> DisplayMode {
    DisplayMode {
        width,
        height,
        refresh_rate: Hertz { millis },
        depth: 8,
        mode_number: number,
        is_stretched: false,
        is_interlaced: false,
        is_tv_mode: false,
        is_safe_for_hardware: true,
        is_scaled: true,
    }
}

fn laptop_catalog() -> Vec<DisplayMode> {
    vec![
        mode(1, 1512, 982, 60_000),
        mode(2, 1512, 945, 60_000),
        mode(3, 1800, 1169, 60_000),
        mode(4, 1800, 1125, 60_000),
        mode(5, 1512, 982, 120_000),
    ]
}

fn three_heights() -> Vec<DisplayMode> {
    vec![mode(20, 1000, 900, 60_000), mode(30, 1000, 1000, 60_000), mode(10, 1000, 800, 60_000)]
}

fn target(action: NotchAction, current: &DisplayMode, catalog: &Vec<DisplayMode>) -> (u32, bool) {
    let plan = plan_notch(action, 1, true, current, catalog).unwrap();
    (plan.target.mode_number, plan.switch)
}

#[test]
fn family_shares_width_rate_depth_and_scaling() {
    let catalog = laptop_catalog();
    assert_eq!(mode_family(&catalog, &catalog[0]), vec![catalog[0], catalog[1]]);
    assert_eq!(mode_family(&catalog, &catalog[3]), vec![catalog[2], catalog[3]]);
    assert_eq!(mode_family(&catalog, &catalog[4]), vec![catalog[4]]);
    let mut deeper = catalog[0];
    deeper.depth = 10;
    assert_eq!(mode_family(&catalog, &deeper), Vec::new());
    let mut native = catalog[0];
    native.is_scaled = false;
    assert_eq!(mode_family(&catalog, &native), Vec::new());
    let mut near = catalog[0];
    near.refresh_rate = Hertz { millis: 59_940 };
    assert_eq!(mode_family(&catalog, &near), vec![catalog[0], catalog[1]]);
    near.refresh_rate = Hertz { millis: 59_900 };
    assert_eq!(mode_family(&catalog, &near), Vec::new());
}

#[test]
fn sorting_is_by_height_and_keeps_catalog_order_among_equals() {
    let modes = vec![
        mode(1, 10, 900, 1),
        mode(2, 10, 800, 1),
        mode(3, 10, 900, 1),
        mode(4, 10, 700, 1),
        mode(5, 10, 800, 1),
    ];
    let numbers: Vec<u32> = sort_modes(&modes).iter().map(|m| m.mode_number).collect();
    assert_eq!(numbers, vec![4, 2, 5, 1, 3]);
    let mut expected = modes.clone();
    expected.sort_by_key(|m| m.height);
    assert_eq!(sort_modes(&modes), expected);
    assert_eq!(sort_modes(&Vec::new()), Vec::new());
}

#[test]
fn hide_takes_the_nearest_shorter_mode() {
    let catalog = three_heights();
    assert_eq!(target(NotchAction::Hide, &catalog[1], &catalog), (20, true));
    assert_eq!(target(NotchAction::Hide, &catalog[0], &catalog), (10, true));
    assert_eq!(target(NotchAction::Hide, &mode(99, 1000, 850, 60_000), &catalog), (10, true));
    assert_eq!(target(NotchAction::Hide, &mode(99, 1000, 5000, 60_000), &catalog), (30, true));
}

#[test]
fn hide_falls_back_to_the_shortest_mode() {
    let catalog = three_heights();
    assert_eq!(target(NotchAction::Hide, &catalog[2], &catalog), (10, false));
    assert_eq!(target(NotchAction::Hide, &mode(99, 1000, 100, 60_000), &catalog), (10, true));
}

#[test]
fn show_takes_the_nearest_taller_mode() {
    let catalog = three_heights();
    assert_eq!(target(NotchAction::Show, &catalog[2], &catalog), (20, true));
    assert_eq!(target(NotchAction::Show, &catalog[0], &catalog), (30, true));
    assert_eq!(target(NotchAction::Show, &mode(99, 1000, 850, 60_000), &catalog), (20, true));
}

#[test]
fn show_falls_back_to_the_tallest_mode() {
    let catalog = three_heights();
    assert_eq!(target(NotchAction::Show, &catalog[1], &catalog), (30, false));
    assert_eq!(target(NotchAction::Show, &mode(99, 1000, 5000, 60_000), &catalog), (30, true));
}

#[test]
fn toggle_shows_from_the_least_height_and_hides_otherwise() {
    let catalog = three_heights();
    assert_eq!(target(NotchAction::Toggle, &catalog[2], &catalog), (20, true));
    assert_eq!(target(NotchAction::Toggle, &catalog[0], &catalog), (10, true));
    assert_eq!(target(NotchAction::Toggle, &catalog[1], &catalog), (20, true));
    let laptop = laptop_catalog();
    assert_eq!(target(NotchAction::Toggle, &laptop[0], &laptop), (2, true));
    assert_eq!(target(NotchAction::Toggle, &laptop[1], &laptop), (1, true));
}

#[test]
fn equal_heights_are_taken_in_scan_order() {
    let catalog = vec![
        mode(1, 10, 1000, 1),
        mode(10, 10, 900, 1),
        mode(11, 10, 900, 1),
        mode(20, 10, 800, 1),
        mode(21, 10, 800, 1),
        mode(2, 10, 1000, 1),
    ];
    assert_eq!(target(NotchAction::Hide, &catalog[0], &catalog), (11, true));
    assert_eq!(target(NotchAction::Show, &catalog[3], &catalog), (10, true));
    assert_eq!(target(NotchAction::Hide, &catalog[4], &catalog), (20, true));
    assert_eq!(target(NotchAction::Hide, &catalog[3], &catalog), (20, false));
    assert_eq!(target(NotchAction::Show, &catalog[0], &catalog), (2, true));
    assert_eq!(target(NotchAction::Show, &catalog[5], &catalog), (2, false));
}

#[test]
fn one_height_is_not_notch_capable() {
    let catalog = laptop_catalog();
    for action in [NotchAction::Hide, NotchAction::Show, NotchAction::Toggle] {
        assert_eq!(
            plan_notch(action, 3, true, &catalog[4], &catalog),
            Err(DisplayError::NotNotchCapable { display_id: 3, built_in: true })
        );
        assert_eq!(
            plan_notch(action, 3, false, &catalog[4], &catalog),
            Err(DisplayError::NotNotchCapable { display_id: 3, built_in: false })
        );
    }
    let flat = vec![mode(1, 10, 900, 1), mode(2, 10, 900, 1), mode(3, 10, 900, 1)];
    assert_eq!(
        plan_notch(NotchAction::Hide, 1, true, &flat[1], &flat),
        Err(DisplayError::NotNotchCapable { display_id: 1, built_in: true })
    );
}

#[test]
fn empty_family_has_no_similar_modes() {
    let catalog = laptop_catalog();
    let stranger = mode(9, 640, 480, 60_000);
    assert_eq!(
        plan_notch(NotchAction::Hide, 4, true, &stranger, &catalog),
        Err(DisplayError::NoSimilarModes { display_id: 4 })
    );
    assert_eq!(
        plan_notch(NotchAction::Toggle, 4, false, &stranger, &Vec::new()),
        Err(DisplayError::NoSimilarModes { display_id: 4 })
    );
}

#[test]
fn plan_reports_spread_and_advisory() {
    let catalog = laptop_catalog();
    assert_eq!(
        plan_notch(NotchAction::Hide, 1, true, &catalog[0], &catalog),
        Ok(NotchPlan { target: catalog[1], switch: true, spread: 37, advisory: false })
    );
    let wide = three_heights();
    assert_eq!(
        plan_notch(NotchAction::Hide, 1, false, &wide[1], &wide),
        Ok(NotchPlan { target: wide[0], switch: true, spread: 200, advisory: true })
    );
    assert_eq!(
        plan_notch(NotchAction::Hide, 1, true, &wide[1], &wide),
        Ok(NotchPlan { target: wide[0], switch: true, spread: 200, advisory: false })
    );
    let edge = vec![mode(1, 10, 900, 1), mode(2, 10, 1000, 1)];
    assert!(!plan_notch(NotchAction::Show, 1, false, &edge[0], &edge).unwrap().advisory);
    let over = vec![mode(1, 10, 899, 1), mode(2, 10, 1000, 1)];
    assert!(plan_notch(NotchAction::Show, 1, false, &over[0], &over).unwrap().advisory);
}

#[test]
fn built_in_displays_are_told_by_their_kind() {
    assert!(is_builtin_display("MacBook Pro built-in Liquid Retina XDR Display"));
    assert!(is_builtin_display("24 inch MacBook"));
    assert!(is_builtin_display("rebuilt"));
    assert!(!is_builtin_display("Macbook"));
    assert!(!is_builtin_display("Built-in"));
    assert!(!is_builtin_display("external"));
    assert!(!is_builtin_display(""));
}

#[test]
fn command_hides_then_finds_nothing_to_do() {
    let catalog = laptop_catalog();
    let (mut first, step) = NotchCommand::start(NotchAction::Hide, 1, true);
    assert_eq!(step.request, Request::ReadModes { display_id: 1 });
    assert_eq!(step.news, Vec::new());
    let step = first.advance(Response::Modes { catalog: catalog.clone(), current: Some(catalog[0]) });
    assert_eq!(step.request, Request::SetMode { display_id: 1, mode_number: 2 });
    assert_eq!(step.news, Vec::new());
    assert_eq!(first.stage, NotchStage::Switching { target: catalog[1], hidden: true });
    let step = first.advance(Response::Status(0));
    assert_eq!(step.request, Request::Finished);
    assert_eq!(
        step.news,
        vec![Notice::NotchChanged {
            display_id: 1,
            hidden: true,
            mode_number: 2,
            width: 1512,
            height: 945,
            refresh_rate: Hertz { millis: 60_000 },
        }]
    );

    let (mut second, step) = NotchCommand::start(NotchAction::Hide, 1, true);
    assert_eq!(step.request, Request::ReadModes { display_id: 1 });
    let step = second.advance(Response::Modes { catalog: catalog.clone(), current: Some(catalog[1]) });
    assert_eq!(step.request, Request::Finished);
    assert_eq!(
        step.news,
        vec![Notice::NotchUnchanged {
            display_id: 1,
            width: 1512,
            height: 945,
            refresh_rate: Hertz { millis: 60_000 },
        }]
    );
    assert_eq!(second.advance(Response::Status(0)).request, Request::Finished);
}

#[test]
fn command_shows_and_labels_by_height() {
    let catalog = laptop_catalog();
    let (mut command, _) = NotchCommand::start(NotchAction::Toggle, 8, true);
    let step = command.advance(Response::Modes { catalog: catalog.clone(), current: Some(catalog[1]) });
    assert_eq!(step.request, Request::SetMode { display_id: 8, mode_number: 1 });
    let step = command.advance(Response::Status(0));
    assert_eq!(
        step.news,
        vec![Notice::NotchChanged {
            display_id: 8,
            hidden: false,
            mode_number: 1,
            width: 1512,
            height: 982,
            refresh_rate: Hertz { millis: 60_000 },
        }]
    );
}

#[test]
fn command_warns_on_displays_that_are_not_built_in() {
    let wide = three_heights();
    let (mut command, _) = NotchCommand::start(NotchAction::Hide, 2, false);
    let step = command.advance(Response::Modes { catalog: wide.clone(), current: Some(wide[1]) });
    assert_eq!(step.request, Request::SetMode { display_id: 2, mode_number: 20 });
    assert_eq!(step.news, vec![Notice::NotchAdvisory { display_id: 2, spread: 200 }]);
    assert!(step.news[0].is_warning());

    let (mut idle, _) = NotchCommand::start(NotchAction::Hide, 2, false);
    let step = idle.advance(Response::Modes { catalog: wide.clone(), current: Some(wide[2]) });
    assert_eq!(step.request, Request::Finished);
    assert_eq!(
        step.news,
        vec![
            Notice::NotchAdvisory { display_id: 2, spread: 200 },
            Notice::NotchUnchanged {
                display_id: 2,
                width: 1000,
                height: 800,
                refresh_rate: Hertz { millis: 60_000 },
            },
        ]
    );
    assert!(!step.news[1].is_warning());
}

#[test]
fn command_fails_on_errors_and_stays_failed() {
    let catalog = laptop_catalog();
    let (mut command, _) = NotchCommand::start(NotchAction::Hide, 1, true);
    let step = command.advance(Response::Modes { catalog: catalog.clone(), current: None });
    let error = DisplayError::CurrentModeUnavailable { display_id: 1 };
    assert_eq!(step.request, Request::Failed(error.clone()));
    assert_eq!(command.advance(Response::Status(0)).request, Request::Failed(error.clone()));
    assert_eq!(
        command.advance(Response::Modes { catalog: catalog.clone(), current: Some(catalog[0]) }).request,
        Request::Failed(error)
    );

    let (mut refused, _) = NotchCommand::start(NotchAction::Hide, 1, true);
    refused.advance(Response::Modes { catalog: catalog.clone(), current: Some(catalog[0]) });
    let step = refused.advance(Response::Status(-3));
    assert_eq!(
        step.request,
        Request::Failed(DisplayError::FacadeError { call: macdisp::FacadeCall::SetMode, code: -3 })
    );
    assert_eq!(step.news, Vec::new());

    let (mut flat, _) = NotchCommand::start(NotchAction::Show, 6, false);
    let step = flat.advance(Response::Modes { catalog: catalog.clone(), current: Some(catalog[4]) });
    assert_eq!(
        step.request,
        Request::Failed(DisplayError::NotNotchCapable { display_id: 6, built_in: false })
    );
}

#[test]
fn command_asks_again_on_an_answer_it_does_not_wait_for() {
    let catalog = laptop_catalog();
    let (mut command, _) = NotchCommand::start(NotchAction::Hide, 1, true);
    assert_eq!(command.advance(Response::Status(0)).request, Request::ReadModes { display_id: 1 });
    assert_eq!(
        command.advance(Response::CurrentMode(None)).request,
        Request::ReadModes { display_id: 1 }
    );
    command.advance(Response::Modes { catalog: catalog.clone(), current: Some(catalog[0]) });
    assert_eq!(
        command.advance(Response::CurrentMode(Some(catalog[0]))).request,
        Request::SetMode { display_id: 1, mode_number: 2 }
    );
}
