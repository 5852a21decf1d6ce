use macdisp::{
    parse_config, Applicator, DisplayConfig, DisplayError, DisplayInfo, DisplayMode,
    DisplaySnapshot, FacadeCall, Hertz, Notice, Request, Response, Stage, Step,
};

fn display(id: u32, uuid: &str) -> DisplayInfo {
    DisplayInfo {
        id,
        persistent_id: uuid.to_string(),
        contextual_id: id,
        serial: 0,
        x: 0,
        y: 0,
        width: 1920,
        height: 1080,
        rotation: 0,
        hz: Hertz { millis: 60_000 },
        depth: 32,
        scaling: false,
        mode_number: 1,
        is_main: id == 1,
        is_mirror: false,
        mirror_of: None,
        enabled: true,
        display_type: "External".to_string(),
    }
}

fn mode(number: u32, width: u32, height: u32, millis: u32, scaled: bool) -> DisplayMode {
    DisplayMode {
        width,
        height,
        refresh_rate: Hertz { millis },
        depth: 32,
        mode_number: number,
        is_stretched: false,
        is_interlaced: false,
        is_tv_mode: false,
        is_safe_for_hardware: true,
        is_scaled: scaled,
    }
}

fn catalog() -> Vec<DisplayMode> {
    vec![
        mode(1, 1920, 1080, 60_000, false),
        mode(2, 1920, 1080, 60_000, true),
        mode(3, 1280, 720, 59_940, false),
    ]
}

fn machine(configs: &[&str]) -> Applicator {
    let parsed: Vec<DisplayConfig> = configs.iter().map(|c| parse_config(c).unwrap()).collect();
    let snapshot = DisplaySnapshot::new(vec![display(1, "UUID-ONE"), display(2, "UUID-TWO")]);
    Applicator::new(snapshot, parsed)
}

fn modes_of(current: usize) -> Response {
    Response::Modes { catalog: catalog(), current: Some(catalog()[current]) }
}

fn calls_platform(request: &Request) -> bool {
    !matches!(request, Request::Finished | Request::Failed(_))
}

fn quiet(request: Request) -> Step {
    Step { request, news: Vec::new() }
}

#[test]
fn empty_batch_finishes_at_once() {
    let mut batch = machine(&[]);
    assert_eq!(batch.settle(), quiet(Request::Finished));
    assert_eq!(batch.advance(Response::Status(0)), quiet(Request::Finished));
    assert_eq!(batch.stage, Stage::Finished);
}

#[test]
fn matched_mode_is_set_and_reported() {
    let mut batch = machine(&["id:1 res:1280x720 hz:60"]);
    assert_eq!(batch.settle(), quiet(Request::ReadModes { display_id: 1 }));
    assert_eq!(batch.advance(modes_of(0)), quiet(Request::SetMode { display_id: 1, mode_number: 3 }));
    assert_eq!(
        batch.advance(Response::Status(0)),
        Step {
            request: Request::Finished,
            news: vec![Notice::ModeSet {
                display_id: 1,
                width: 1280,
                height: 720,
                refresh_rate: Hertz { millis: 59_940 },
                scaled: false,
                mode_number: 3,
            }],
        }
    );
}

#[test]
fn matched_mode_that_is_current_is_not_set_again() {
    let mut batch = machine(&["id:UUID-TWO res:1920x1080 id:2 origin:(10,-20)"]);
    assert_eq!(batch.settle(), quiet(Request::ReadModes { display_id: 2 }));
    assert_eq!(
        batch.advance(modes_of(0)),
        quiet(Request::Configure {
            display_id: 2,
            x: Some(10),
            y: Some(-20),
            rotation: None,
            mirror_of: None,
            enabled: None,
        })
    );
    assert_eq!(
        batch.advance(Response::Status(0)),
        Step {
            request: Request::Finished,
            news: vec![Notice::OriginSet { display_id: 2, x: 10, y: -20 }],
        }
    );
}

#[test]
fn mode_then_geometry_are_applied_in_turn() {
    let mut batch =
        machine(&["id:1 color_depth:32 scaling:on origin:(0,0) degree:90 mirror:UUID-TWO enabled:true"]);
    assert_eq!(batch.settle(), quiet(Request::ReadModes { display_id: 1 }));
    assert_eq!(batch.advance(modes_of(0)), quiet(Request::SetMode { display_id: 1, mode_number: 2 }));
    let step = batch.advance(Response::Status(0));
    assert_eq!(
        step,
        Step {
            request: Request::Configure {
                display_id: 1,
                x: Some(0),
                y: Some(0),
                rotation: Some(90),
                mirror_of: Some(2),
                enabled: Some(true),
            },
            news: vec![Notice::ModeSet {
                display_id: 1,
                width: 1920,
                height: 1080,
                refresh_rate: Hertz { millis: 60_000 },
                scaled: true,
                mode_number: 2,
            }],
        }
    );
    assert_eq!(
        batch.advance(Response::Status(0)),
        Step {
            request: Request::Finished,
            news: vec![
                Notice::OriginSet { display_id: 1, x: 0, y: 0 },
                Notice::RotationSet { display_id: 1, degrees: 90 },
                Notice::MirrorSet { display_id: 1, target: 2 },
                Notice::EnabledSet { display_id: 1, enabled: true },
            ],
        }
    );
}

#[test]
fn mode_number_is_set_directly_and_ends_the_request() {
    let mut batch = machine(&["id:2 mode:7 res:1x1 origin:(5,5)", "id:1 mode:+3"]);
    assert_eq!(batch.settle(), quiet(Request::SetMode { display_id: 2, mode_number: 7 }));
    assert_eq!(batch.advance(Response::Status(0)), quiet(Request::ReadCurrentMode { display_id: 2 }));
    assert_eq!(
        batch.advance(Response::CurrentMode(Some(mode(9, 800, 600, 75_000, true)))),
        Step {
            request: Request::SetMode { display_id: 1, mode_number: 3 },
            news: vec![Notice::ModeSet {
                display_id: 2,
                width: 800,
                height: 600,
                refresh_rate: Hertz { millis: 75_000 },
                scaled: true,
                mode_number: 7,
            }],
        }
    );
    assert_eq!(batch.advance(Response::Status(0)), quiet(Request::ReadCurrentMode { display_id: 1 }));
    assert_eq!(
        batch.advance(Response::CurrentMode(None)),
        Step {
            request: Request::Finished,
            news: vec![Notice::ModeNumberSet { display_id: 1, mode_number: 3 }],
        }
    );
}

#[test]
fn requests_that_ask_for_nothing_are_passed_over() {
    let mut batch = machine(&["id:1 scaling:on", "id:2", "id:1 enabled:false"]);
    assert_eq!(
        batch.settle(),
        quiet(Request::Configure {
            display_id: 1,
            x: None,
            y: None,
            rotation: None,
            mirror_of: None,
            enabled: Some(false),
        })
    );
    assert_eq!(batch.position, 2);
    assert_eq!(
        batch.advance(Response::Status(0)),
        Step {
            request: Request::Finished,
            news: vec![Notice::EnabledSet { display_id: 1, enabled: false }],
        }
    );
}

#[test]
fn first_failure_ends_the_batch_before_any_call() {
    let mut batch = machine(&["id:99 res:1920x1080", "id:1 mode:3"]);
    let error = DisplayError::DisplayNotFound("99".to_string());
    let step = batch.settle();
    assert_eq!(step, quiet(Request::Failed(error.clone())));
    assert!(!calls_platform(&step.request));
    for response in [
        Response::Status(0),
        Response::Status(1),
        modes_of(0),
        Response::CurrentMode(None),
        Response::CurrentMode(Some(catalog()[0])),
    ] {
        let step = batch.advance(response);
        assert_eq!(step, quiet(Request::Failed(error.clone())));
        assert_eq!(batch.position, 0);
    }
    assert_eq!(batch.settle(), quiet(Request::Failed(error)));
}

#[test]
fn facade_failure_ends_the_batch_and_keeps_what_was_done() {
    let mut batch = machine(&["id:1 res:1280x720", "id:2 res:1280x720", "id:1 degree:90"]);
    let mut calls: Vec<Request> = Vec::new();
    let mut step = batch.settle();
    let mut news: Vec<Notice> = Vec::new();
    let mut turns = 0;
    while calls_platform(&step.request) {
        calls.push(step.request.clone());
        let response = match step.request {
            Request::ReadModes { .. } => modes_of(0),
            Request::SetMode { display_id: 2, .. } => Response::Status(1001),
            _ => Response::Status(0),
        };
        step = batch.advance(response);
        news.extend(step.news.iter().copied());
        turns += 1;
        assert!(turns < 20);
    }
    assert_eq!(
        calls,
        vec![
            Request::ReadModes { display_id: 1 },
            Request::SetMode { display_id: 1, mode_number: 3 },
            Request::ReadModes { display_id: 2 },
            Request::SetMode { display_id: 2, mode_number: 3 },
        ]
    );
    assert_eq!(
        step.request,
        Request::Failed(DisplayError::FacadeError { call: FacadeCall::SetMode, code: 1001 })
    );
    assert_eq!(
        news,
        vec![Notice::ModeSet {
            display_id: 1,
            width: 1280,
            height: 720,
            refresh_rate: Hertz { millis: 59_940 },
            scaled: false,
            mode_number: 3,
        }]
    );
    assert!(!calls_platform(&batch.advance(Response::Status(0)).request));
    assert_eq!(batch.position, 1);
}

#[test]
fn configure_failure_is_reported_with_its_code() {
    let mut batch = machine(&["id:1 degree:180"]);
    batch.settle();
    assert_eq!(
        batch.advance(Response::Status(-7)),
        quiet(Request::Failed(DisplayError::FacadeError { call: FacadeCall::Configure, code: -7 }))
    );
}

#[test]
fn each_kind_of_failure_is_reported() {
    let mut no_mode = machine(&["id:1 mode:abc"]);
    assert_eq!(
        no_mode.settle(),
        quiet(Request::Failed(DisplayError::InvalidModeNumber("abc".to_string())))
    );

    let mut no_current = machine(&["id:1 hz:60"]);
    no_current.settle();
    assert_eq!(
        no_current.advance(Response::Modes { catalog: catalog(), current: None }),
        quiet(Request::Failed(DisplayError::CurrentModeUnavailable { display_id: 1 }))
    );

    let mut no_match = machine(&["id:2 res:640x480 origin:(1,1)"]);
    no_match.settle();
    assert_eq!(
        no_match.advance(modes_of(0)),
        quiet(Request::Failed(DisplayError::NoMatchingMode { display_id: 2 }))
    );

    let mut no_mirror = machine(&["id:1 mirror:UUID-NONE"]);
    assert_eq!(
        no_mirror.settle(),
        quiet(Request::Failed(DisplayError::DisplayNotFound("UUID-NONE".to_string())))
    );

    let mut absent_mirror = machine(&["id:1 mirror:99"]);
    assert_eq!(
        absent_mirror.settle(),
        quiet(Request::Failed(DisplayError::DisplayNotFound("99".to_string())))
    );
}

#[test]
fn mirror_failure_comes_after_the_mode_was_set() {
    let mut batch = machine(&["id:1 res:1280x720 mirror:UUID-NONE"]);
    assert_eq!(batch.settle(), quiet(Request::ReadModes { display_id: 1 }));
    assert_eq!(batch.advance(modes_of(0)), quiet(Request::SetMode { display_id: 1, mode_number: 3 }));
    let step = batch.advance(Response::Status(0));
    assert_eq!(
        step.request,
        Request::Failed(DisplayError::DisplayNotFound("UUID-NONE".to_string()))
    );
    assert_eq!(step.news.len(), 1);
}

#[test]
fn unexpected_answers_change_nothing() {
    let mut batch = machine(&["id:1 res:1280x720"]);
    assert_eq!(batch.settle(), quiet(Request::ReadModes { display_id: 1 }));
    assert_eq!(batch.advance(Response::Status(0)), quiet(Request::ReadModes { display_id: 1 }));
    assert_eq!(
        batch.advance(Response::CurrentMode(None)),
        quiet(Request::ReadModes { display_id: 1 })
    );
    assert_eq!(batch.settle(), quiet(Request::ReadModes { display_id: 1 }));
    assert_eq!(batch.advance(modes_of(0)), quiet(Request::SetMode { display_id: 1, mode_number: 3 }));
    assert_eq!(batch.advance(modes_of(0)), quiet(Request::SetMode { display_id: 1, mode_number: 3 }));
    assert_eq!(batch.settle(), quiet(Request::SetMode { display_id: 1, mode_number: 3 }));
}
