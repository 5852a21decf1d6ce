//! Application of a batch of requests, one display after the other.
//!
//! The batch is worked through by a machine that never touches a display
//! itself. It names the call to make next; the driver makes the call and
//! hands back the answer, and the machine names the next call. The first
//! failure ends the batch: what was changed before stays changed, and
//! nothing more is asked.

use crate::error::{optional_error, DisplayError, DisplayErrorView, FacadeCall};
use crate::facade::{Request, RequestView, Response, ResponseView, Step};
use crate::matcher::{choice, select_mode, ModeChoice, ModeCriteria};
use crate::model::{config_views, DisplayConfig, DisplayConfigView, DisplayInfoView, DisplayMode};
use crate::notice::Notice;
use crate::resolver::{
    has_display, lemma_resolved_display_is_active, resolve, DisplaySnapshot,
};
use crate::number::{parse_u32, parse_u32_spec};
use crate::text::chars_of;
use vstd::prelude::*;

verus! {

/// Where the machine stands within the request that it works on.
#[derive(Clone, Copy, Debug, PartialEq, Eq)]
pub enum Stage {
    /// The request has not been looked at.
    Ready,
    /// The mode of the display is settled; its position, rotation, mirroring
    /// and enabled state are still to be seen to.
    Placing { display_id: u32 },
    /// A switch to a mode given by number is under way.
    DirectSet { display_id: u32, mode_number: u32 },
    /// The mode given by number is set, and the mode that resulted is being read.
    DirectRead { display_id: u32, mode_number: u32 },
    /// The modes of the display are being read.
    Modes { display_id: u32, criteria: ModeCriteria },
    /// A switch to the mode that met the criteria is under way.
    MatchedSet { display_id: u32, mode: DisplayMode },
    /// A change of position, rotation, mirroring and enabled state is under way.
    Geometry {
        display_id: u32,
        origin: Option<(i32, i32)>,
        rotation: Option<u32>,
        mirror_of: Option<u32>,
        enabled: Option<bool>,
    },
    /// Every request has been dealt with.
    Finished,
}

/// The machine that applies a batch of requests.
#[derive(Clone, Debug)]
pub struct Applicator {
    pub snapshot: DisplaySnapshot,
    pub configs: Vec<DisplayConfig>,
    /// The place in `configs` of the request that is being worked on.
    pub position: usize,
    pub stage: Stage,
    /// The failure that ended the batch.
    pub failure: Option<DisplayError>,
}

/// The mathematical value of an `Applicator`.
pub struct ApplicatorView {
    pub snapshot: Seq<DisplayInfoView>,
    pub configs: Seq<DisplayConfigView>,
    pub position: nat,
    pub stage: Stage,
    pub failure: Option<DisplayErrorView>,
}

/// The mathematical value of a step: the machine after it, the request that
/// it makes, and the notices that it gives.
pub struct StepView {
    pub state: ApplicatorView,
    pub request: RequestView,
    pub news: Seq<Notice>,
}

impl View for Applicator {
    type V = ApplicatorView;

    open spec fn view(&self) -> ApplicatorView {
        ApplicatorView {
            snapshot: self.snapshot@,
            configs: config_views(self.configs@),
            position: self.position as nat,
            stage: self.stage,
            failure: optional_error(self.failure),
        }
    }
}

/// The first of a pair, if there is a pair.
pub open spec fn first_of(pair: Option<(i32, i32)>) -> Option<i32> {
    match pair {
        Some(p) => Some(p.0),
        None => None,
    }
}

/// The second of a pair, if there is a pair.
pub open spec fn second_of(pair: Option<(i32, i32)>) -> Option<i32> {
    match pair {
        Some(p) => Some(p.1),
        None => None,
    }
}

/// The call that a stage waits for; `Finished` for a stage that waits for none.
pub open spec fn pending(stage: Stage) -> RequestView {
    match stage {
        Stage::DirectSet { display_id, mode_number } => RequestView::SetMode {
            display_id,
            mode_number,
        },
        Stage::DirectRead { display_id, mode_number } => RequestView::ReadCurrentMode {
            display_id,
        },
        Stage::Modes { display_id, criteria } => RequestView::ReadModes { display_id },
        Stage::MatchedSet { display_id, mode } => RequestView::SetMode {
            display_id,
            mode_number: mode.mode_number,
        },
        Stage::Geometry { display_id, origin, rotation, mirror_of, enabled } => {
            RequestView::Configure {
                display_id,
                x: first_of(origin),
                y: second_of(origin),
                rotation,
                mirror_of,
                enabled,
            }
        },
        _ => RequestView::Finished,
    }
}

/// The notice on a mode that was set by its number, given the mode that was read afterwards.
pub open spec fn direct_notice(
    display_id: u32,
    mode_number: u32,
    current: Option<DisplayMode>,
) -> Notice {
    match current {
        Some(mode) => Notice::ModeSet {
            display_id,
            width: mode.width,
            height: mode.height,
            refresh_rate: mode.refresh_rate,
            scaled: mode.is_scaled,
            mode_number,
        },
        None => Notice::ModeNumberSet { display_id, mode_number },
    }
}

/// The notice on a switch to `mode`.
pub open spec fn matched_notice(display_id: u32, mode: DisplayMode) -> Notice {
    Notice::ModeSet {
        display_id,
        width: mode.width,
        height: mode.height,
        refresh_rate: mode.refresh_rate,
        scaled: mode.is_scaled,
        mode_number: mode.mode_number,
    }
}

/// The notices on a change of position, rotation, mirroring and enabled
/// state: one for each of them that was asked for, in this order.
pub open spec fn geometry_news(
    display_id: u32,
    origin: Option<(i32, i32)>,
    rotation: Option<u32>,
    mirror_of: Option<u32>,
    enabled: Option<bool>,
) -> Seq<Notice> {
    (match origin {
        Some(place) => seq![Notice::OriginSet { display_id, x: place.0, y: place.1 }],
        None => Seq::empty(),
    }) + (match rotation {
        Some(degrees) => seq![Notice::RotationSet { display_id, degrees }],
        None => Seq::empty(),
    }) + (match mirror_of {
        Some(target) => seq![Notice::MirrorSet { display_id, target }],
        None => Seq::empty(),
    }) + (match enabled {
        Some(enabled) => seq![Notice::EnabledSet { display_id, enabled }],
        None => Seq::empty(),
    })
}

impl ApplicatorView {
    /// The machine at the start of a batch.
    pub open spec fn initial(
        snapshot: Seq<DisplayInfoView>,
        configs: Seq<DisplayConfigView>,
    ) -> ApplicatorView {
        ApplicatorView { snapshot, configs, position: 0, stage: Stage::Ready, failure: None }
    }

    /// The machine in another stage of the same request.
    pub open spec fn at(self, stage: Stage) -> ApplicatorView {
        ApplicatorView { stage, ..self }
    }

    /// The machine at the start of the next request.
    pub open spec fn next(self) -> ApplicatorView {
        ApplicatorView { position: self.position + 1, stage: Stage::Ready, ..self }
    }

    /// The step that waits in `stage` for the answer to the call of that stage.
    pub open spec fn wait(self, stage: Stage) -> StepView {
        StepView { state: self.at(stage), request: pending(stage), news: Seq::empty() }
    }

    /// The step that ends the batch with `error`.
    pub open spec fn fail(self, error: DisplayErrorView) -> StepView {
        StepView {
            state: ApplicatorView { failure: Some(error), ..self },
            request: RequestView::Failed(error),
            news: Seq::empty(),
        }
    }

    /// How far the machine is from waiting or from the end, for termination.
    pub open spec fn rank(self) -> nat {
        if self.stage is Ready {
            1
        } else {
            0
        }
    }

    /// The step that brings the machine to its next call: requests are
    /// taken up in order, each display is resolved, and a request that asks
    /// for no call is passed over. A machine that waits for an answer asks
    /// again for the call that it waits for; one that has failed says so.
    pub open spec fn settle(self) -> StepView
        decreases self.configs.len() - self.position, self.rank(),
    {
        if self.failure is Some {
            StepView {
                state: self,
                request: RequestView::Failed(self.failure->0),
                news: Seq::empty(),
            }
        } else {
            match self.stage {
                Stage::Ready => {
                    if self.position >= self.configs.len() {
                        self.wait(Stage::Finished)
                    } else {
                        let config = self.configs[self.position as int];
                        match resolve(config.id, self.snapshot) {
                            Err(error) => self.fail(error),
                            Ok(display_id) => match config.mode {
                                Some(text) => match parse_u32_spec(text) {
                                    Some(mode_number) => self.wait(
                                        Stage::DirectSet { display_id, mode_number },
                                    ),
                                    None => self.fail(DisplayErrorView::InvalidModeNumber(text)),
                                },
                                None => if config.asks_for_mode() {
                                    self.wait(
                                        Stage::Modes { display_id, criteria: config.criteria() },
                                    )
                                } else {
                                    self.at(Stage::Placing { display_id }).settle()
                                },
                            },
                        }
                    }
                },
                Stage::Placing { display_id } => {
                    if self.position >= self.configs.len() {
                        self.wait(Stage::Finished)
                    } else {
                        let config = self.configs[self.position as int];
                        if !config.asks_for_geometry() {
                            self.next().settle()
                        } else {
                            match config.mirror {
                                Some(token) => match resolve(token, self.snapshot) {
                                    Ok(target) => self.wait(
                                        Stage::Geometry {
                                            display_id,
                                            origin: config.origin,
                                            rotation: config.degree,
                                            mirror_of: Some(target),
                                            enabled: config.enabled,
                                        },
                                    ),
                                    Err(error) => self.fail(error),
                                },
                                None => self.wait(
                                    Stage::Geometry {
                                        display_id,
                                        origin: config.origin,
                                        rotation: config.degree,
                                        mirror_of: None,
                                        enabled: config.enabled,
                                    },
                                ),
                            }
                        }
                    }
                },
                _ => self.wait(self.stage),
            }
        }
    }

    /// The step that settles the machine after `news` was made.
    pub open spec fn settle_with(self, news: Seq<Notice>) -> StepView {
        StepView { news, ..self.settle() }
    }

    /// The step that the machine takes on an answer. An answer that is not
    /// the one waited for changes nothing, and the call is asked for again;
    /// so does any answer to a machine that has failed or is past its batch.
    pub open spec fn advance(self, response: ResponseView) -> StepView {
        if self.failure is Some || self.position >= self.configs.len() {
            self.settle()
        } else {
            match (self.stage, response) {
                (Stage::DirectSet { display_id, mode_number }, ResponseView::Status(code)) => {
                    if code == 0 {
                        self.wait(Stage::DirectRead { display_id, mode_number })
                    } else {
                        self.fail(
                            DisplayErrorView::FacadeError { call: FacadeCall::SetMode, code },
                        )
                    }
                },
                (
                    Stage::DirectRead { display_id, mode_number },
                    ResponseView::CurrentMode(current),
                ) => self.next().settle_with(seq![direct_notice(display_id, mode_number, current)]),
                (
                    Stage::Modes { display_id, criteria },
                    ResponseView::Modes { catalog, current },
                ) => match current {
                    None => self.fail(DisplayErrorView::CurrentModeUnavailable { display_id }),
                    Some(mode) => match choice(catalog, criteria, mode.mode_number, display_id) {
                        Err(error) => self.fail(error),
                        Ok(ModeChoice::Unchanged) => self.at(
                            Stage::Placing { display_id },
                        ).settle(),
                        Ok(ModeChoice::Switch(target)) => self.wait(
                            Stage::MatchedSet { display_id, mode: target },
                        ),
                    },
                },
                (Stage::MatchedSet { display_id, mode }, ResponseView::Status(code)) => {
                    if code == 0 {
                        self.at(Stage::Placing { display_id }).settle_with(
                            seq![matched_notice(display_id, mode)],
                        )
                    } else {
                        self.fail(
                            DisplayErrorView::FacadeError { call: FacadeCall::SetMode, code },
                        )
                    }
                },
                (
                    Stage::Geometry { display_id, origin, rotation, mirror_of, enabled },
                    ResponseView::Status(code),
                ) => {
                    if code == 0 {
                        self.next().settle_with(
                            geometry_news(display_id, origin, rotation, mirror_of, enabled),
                        )
                    } else {
                        self.fail(
                            DisplayErrorView::FacadeError { call: FacadeCall::Configure, code },
                        )
                    }
                },
                _ => self.settle(),
            }
        }
    }

    /// The requests that the machine makes, one after each of `responses`.
    pub open spec fn requests(self, responses: Seq<ResponseView>) -> Seq<RequestView>
        decreases responses.len(),
    {
        if responses.len() == 0 {
            Seq::empty()
        } else {
            let step = self.advance(responses[0]);
            seq![step.request] + step.state.requests(responses.drop_first())
        }
    }
}

/// The display that a request is about.
pub open spec fn display_of(request: RequestView) -> Option<u32> {
    match request {
        RequestView::ReadModes { display_id } => Some(display_id),
        RequestView::ReadCurrentMode { display_id } => Some(display_id),
        RequestView::SetMode { display_id, mode_number } => Some(display_id),
        RequestView::Configure { display_id, x, y, rotation, mirror_of, enabled } => Some(
            display_id,
        ),
        _ => None,
    }
}

/// The display that a request names as mirror target.
pub open spec fn mirror_target_of(request: RequestView) -> Option<u32> {
    match request {
        RequestView::Configure { display_id, x, y, rotation, mirror_of, enabled } => mirror_of,
        _ => None,
    }
}

/// Whether `request` is about active displays only.
pub open spec fn about_active_displays(
    request: RequestView,
    snapshot: Seq<DisplayInfoView>,
) -> bool {
    &&& display_of(request) matches Some(id) ==> has_display(snapshot, id)
    &&& mirror_target_of(request) matches Some(id) ==> has_display(snapshot, id)
}

impl ApplicatorView {
    /// Whether the machine works on a display that is active: the display
    /// of its stage, and the mirror target of its stage, are displays of the snapshot.
    pub open spec fn wf(self) -> bool {
        match self.stage {
            Stage::Placing { display_id } => has_display(self.snapshot, display_id),
            _ => about_active_displays(pending(self.stage), self.snapshot),
        }
    }
}

/// A machine that works on an active display settles on a request about
/// active displays, and works on an active display afterwards.
pub proof fn lemma_settle_keeps_to_active_displays(state: ApplicatorView)
    requires
        state.wf(),
    ensures
        state.settle().state.wf(),
        about_active_displays(state.settle().request, state.snapshot),
    decreases state.configs.len() - state.position, state.rank(),
{
    if state.failure is None {
        match state.stage {
            Stage::Ready => {
                if state.position < state.configs.len() {
                    let config = state.configs[state.position as int];
                    lemma_resolved_display_is_active(config.id, state.snapshot);
                    match resolve(config.id, state.snapshot) {
                        Ok(display_id) => {
                            if config.mode is None && !config.asks_for_mode() {
                                lemma_settle_keeps_to_active_displays(
                                    state.at(Stage::Placing { display_id }),
                                );
                            }
                        },
                        Err(_) => {},
                    }
                }
            },
            Stage::Placing { display_id } => {
                if state.position < state.configs.len() {
                    let config = state.configs[state.position as int];
                    if !config.asks_for_geometry() {
                        lemma_settle_keeps_to_active_displays(state.next());
                    } else if config.mirror is Some {
                        lemma_resolved_display_is_active(config.mirror->0, state.snapshot);
                    }
                }
            },
            _ => {},
        }
    }
}

/// Every request of a batch is about active displays: a machine that works
/// on an active display does so after every step, and the request of every
/// step is about active displays. The machine at the start of a batch is
/// such a machine.
pub proof fn lemma_advance_keeps_to_active_displays(
    state: ApplicatorView,
    response: ResponseView,
)
    requires
        state.wf(),
    ensures
        state.advance(response).state.wf(),
        about_active_displays(state.advance(response).request, state.snapshot),
        ApplicatorView::initial(state.snapshot, state.configs).wf(),
{
    lemma_settle_keeps_to_active_displays(state);
    match state.stage {
        Stage::DirectRead { display_id, mode_number } => {
            lemma_settle_keeps_to_active_displays(state.next());
        },
        Stage::Geometry { display_id, origin, rotation, mirror_of, enabled } => {
            lemma_settle_keeps_to_active_displays(state.next());
        },
        Stage::Modes { display_id, criteria } => {
            lemma_settle_keeps_to_active_displays(state.at(Stage::Placing { display_id }));
        },
        Stage::MatchedSet { display_id, mode } => {
            lemma_settle_keeps_to_active_displays(state.at(Stage::Placing { display_id }));
        },
        _ => {},
    }
}

/// A machine that has failed answers every response with the failure, and does not change.
pub proof fn lemma_failure_is_final(state: ApplicatorView, response: ResponseView)
    requires
        state.failure is Some,
    ensures
        state.advance(response) == (StepView {
            state,
            request: RequestView::Failed(state.failure->0),
            news: Seq::empty(),
        }),
{
}

/// A machine settles on a failure exactly where it has failed by then, and
/// the failure that it reports is the one that it keeps.
pub proof fn lemma_settle_reports_failure(state: ApplicatorView)
    ensures
        state.settle().request is Failed <==> state.settle().state.failure is Some,
        state.settle().request matches RequestView::Failed(error) ==> state.settle().state.failure
            == Some(error),
        state.settle().state.snapshot == state.snapshot,
        state.settle().state.configs == state.configs,
        state.settle().state.position >= state.position,
        state.settle().news.len() == 0,
    decreases state.configs.len() - state.position, state.rank(),
{
    if state.failure is None {
        match state.stage {
            Stage::Ready => {
                if state.position < state.configs.len() {
                    let config = state.configs[state.position as int];
                    match resolve(config.id, state.snapshot) {
                        Ok(display_id) => {
                            if config.mode is None && !config.asks_for_mode() {
                                lemma_settle_reports_failure(
                                    state.at(Stage::Placing { display_id }),
                                );
                            }
                        },
                        Err(_) => {},
                    }
                }
            },
            Stage::Placing { display_id } => {
                if state.position < state.configs.len() {
                    let config = state.configs[state.position as int];
                    if !config.asks_for_geometry() {
                        lemma_settle_reports_failure(state.next());
                    }
                }
            },
            _ => {},
        }
    }
}

/// A step reports a failure exactly where the machine has failed by then,
/// and a step never goes back in the batch.
pub proof fn lemma_advance_reports_failure(state: ApplicatorView, response: ResponseView)
    ensures
        state.advance(response).request is Failed <==> state.advance(response).state.failure
            is Some,
        state.advance(response).request matches RequestView::Failed(error) ==> state.advance(
            response,
        ).state.failure == Some(error),
        state.advance(response).state.position >= state.position,
        state.advance(response).state.configs == state.configs,
        state.advance(response).state.snapshot == state.snapshot,
{
    lemma_settle_reports_failure(state);
    lemma_settle_reports_failure(state.next());
    match state.stage {
        Stage::Modes { display_id, criteria } => {
            lemma_settle_reports_failure(state.at(Stage::Placing { display_id }));
        },
        Stage::MatchedSet { display_id, mode } => {
            lemma_settle_reports_failure(state.at(Stage::Placing { display_id }));
        },
        _ => {},
    }
}

/// After a failure nothing more is asked of the platform: every later
/// request is the failure again, whatever the responses are.
pub proof fn lemma_failed_machine_asks_nothing(state: ApplicatorView, responses: Seq<ResponseView>)
    requires
        state.failure is Some,
    ensures
        state.requests(responses).len() == responses.len(),
        forall|i: int|
            0 <= i < responses.len() ==> #[trigger] state.requests(responses)[i]
                == RequestView::Failed(state.failure->0),
    decreases responses.len(),
{
    if responses.len() > 0 {
        lemma_failure_is_final(state, responses[0]);
        lemma_failed_machine_asks_nothing(state, responses.drop_first());
        let rest = state.requests(responses.drop_first());
        assert forall|i: int| 0 <= i < responses.len() implies #[trigger] state.requests(
            responses,
        )[i] == RequestView::Failed(state.failure->0) by {
            if i > 0 {
                assert(state.requests(responses)[i] == rest[i - 1]);
            }
        }
    }
}

/// The first failure ends the batch: once a step reports a failure, no
/// later step asks for a call to the platform, whatever the responses are,
/// so no request that stands behind the failed one is ever acted on.
pub proof fn lemma_first_failure_ends_batch(
    state: ApplicatorView,
    response: ResponseView,
    later: Seq<ResponseView>,
)
    requires
        state.advance(response).request is Failed,
    ensures
        forall|i: int|
            0 <= i < later.len() ==> {
                &&& #[trigger] state.advance(response).state.requests(later)[i] == state.advance(
                    response,
                ).request
                &&& !state.advance(response).state.requests(later)[i].calls_platform()
            },
{
    lemma_advance_reports_failure(state, response);
    lemma_failed_machine_asks_nothing(state.advance(response).state, later);
}

/// A batch whose first request fails at the outset asks nothing of the platform at all.
pub proof fn lemma_failed_start_asks_nothing(
    snapshot: Seq<DisplayInfoView>,
    configs: Seq<DisplayConfigView>,
    responses: Seq<ResponseView>,
)
    requires
        ApplicatorView::initial(snapshot, configs).settle().request is Failed,
    ensures
        forall|i: int|
            0 <= i < responses.len() ==> !(#[trigger] ApplicatorView::initial(
                snapshot,
                configs,
            ).settle().state.requests(responses)[i]).calls_platform(),
{
    let state = ApplicatorView::initial(snapshot, configs);
    lemma_settle_reports_failure(state);
    lemma_failed_machine_asks_nothing(state.settle().state, responses);
}

/// The two halves of an optional pair.
fn unzip(pair: Option<(i32, i32)>) -> (parts: (Option<i32>, Option<i32>))
    ensures
        parts.0 == first_of(pair),
        parts.1 == second_of(pair),
{
    match pair {
        Some(p) => (Some(p.0), Some(p.1)),
        None => (None, None),
    }
}

/// The call that a stage waits for.
fn request_of(stage: Stage) -> (request: Request)
    ensures
        request@ == pending(stage),
{
    match stage {
        Stage::DirectSet { display_id, mode_number } => Request::SetMode {
            display_id,
            mode_number,
        },
        Stage::DirectRead { display_id, mode_number } => Request::ReadCurrentMode { display_id },
        Stage::Modes { display_id, criteria } => Request::ReadModes { display_id },
        Stage::MatchedSet { display_id, mode } => Request::SetMode {
            display_id,
            mode_number: mode.mode_number,
        },
        Stage::Geometry { display_id, origin, rotation, mirror_of, enabled } => {
            let (x, y) = unzip(origin);
            Request::Configure { display_id, x, y, rotation, mirror_of, enabled }
        },
        _ => Request::Finished,
    }
}

/// The notices on a change of position, rotation, mirroring and enabled state.
fn geometry_notices(
    display_id: u32,
    origin: Option<(i32, i32)>,
    rotation: Option<u32>,
    mirror_of: Option<u32>,
    enabled: Option<bool>,
) -> (news: Vec<Notice>)
    ensures
        news@ == geometry_news(display_id, origin, rotation, mirror_of, enabled),
{
    let mut news: Vec<Notice> = Vec::new();
    if let Some(place) = origin {
        news.push(Notice::OriginSet { display_id, x: place.0, y: place.1 });
    }
    if let Some(degrees) = rotation {
        news.push(Notice::RotationSet { display_id, degrees });
    }
    if let Some(target) = mirror_of {
        news.push(Notice::MirrorSet { display_id, target });
    }
    if let Some(enabled) = enabled {
        news.push(Notice::EnabledSet { display_id, enabled });
    }
    assert(news@ =~= geometry_news(display_id, origin, rotation, mirror_of, enabled));
    news
}

impl Applicator {
    /// The machine at the start of the batch `configs`, with the displays of `snapshot`.
    pub fn new(snapshot: DisplaySnapshot, configs: Vec<DisplayConfig>) -> (machine: Applicator)
        ensures
            machine@ == ApplicatorView::initial(snapshot@, config_views(configs@)),
    {
        Applicator { snapshot, configs, position: 0, stage: Stage::Ready, failure: None }
    }

    /// Moves to `stage` and asks for the call of that stage.
    fn wait(&mut self, stage: Stage) -> (step: Step)
        ensures
            final(self)@ == old(self)@.wait(stage).state,
            step.request@ == old(self)@.wait(stage).request,
            step.news@ == old(self)@.wait(stage).news,
    {
        self.stage = stage;
        Step { request: request_of(stage), news: Vec::new() }
    }

    /// Ends the batch with `error`.
    fn fail(&mut self, error: DisplayError) -> (step: Step)
        ensures
            final(self)@ == old(self)@.fail(error@).state,
            step.request@ == old(self)@.fail(error@).request,
            step.news@ == old(self)@.fail(error@).news,
    {
        let copy = error.duplicate();
        self.failure = Some(error);
        Step { request: Request::Failed(copy), news: Vec::new() }
    }

    /// Brings the machine to its next call. This is the first step of a
    /// batch; later it asks again for the call that the machine waits for.
    pub fn settle(&mut self) -> (step: Step)
        ensures
            final(self)@ == old(self)@.settle().state,
            step.request@ == old(self)@.settle().request,
            step.news@ == old(self)@.settle().news,
    {
        let ghost start = self@;
        loop
            invariant
                start == old(self)@,
                self@.settle() == start.settle(),
            decreases self.configs.len() - self.position, self@.rank(),
        {
            if let Some(error) = &self.failure {
                return Step { request: Request::Failed(error.duplicate()), news: Vec::new() };
            }
            match self.stage {
                Stage::Ready => {
                    if self.position >= self.configs.len() {
                        return self.wait(Stage::Finished);
                    }
                    assert(self@.configs[self.position as int]
                        == self.configs@[self.position as int]@);
                    match self.snapshot.resolve(self.configs[self.position].id.as_str()) {
                        Err(error) => {
                            return self.fail(error);
                        },
                        Ok(display_id) => {
                            match &self.configs[self.position].mode {
                                Some(text) => {
                                    let chars = chars_of(text.as_str());
                                    match parse_u32(chars.as_slice()) {
                                        Some(mode_number) => {
                                            return self.wait(
                                                Stage::DirectSet { display_id, mode_number },
                                            );
                                        },
                                        None => {
                                            let error = DisplayError::InvalidModeNumber(
                                                text.clone(),
                                            );
                                            return self.fail(error);
                                        },
                                    }
                                },
                                None => {
                                    if self.configs[self.position].asks_for_mode() {
                                        let criteria = self.configs[self.position].criteria();
                                        return self.wait(Stage::Modes { display_id, criteria });
                                    }
                                    self.stage = Stage::Placing { display_id };
                                },
                            }
                        },
                    }
                },
                Stage::Placing { display_id } => {
                    if self.position >= self.configs.len() {
                        return self.wait(Stage::Finished);
                    }
                    assert(self@.configs[self.position as int]
                        == self.configs@[self.position as int]@);
                    if !self.configs[self.position].asks_for_geometry() {
                        self.position = self.position + 1;
                        self.stage = Stage::Ready;
                    } else {
                        let origin = self.configs[self.position].origin;
                        let rotation = self.configs[self.position].degree;
                        let enabled = self.configs[self.position].enabled;
                        match &self.configs[self.position].mirror {
                            Some(token) => {
                                match self.snapshot.resolve(token.as_str()) {
                                    Ok(target) => {
                                        return self.wait(
                                            Stage::Geometry {
                                                display_id,
                                                origin,
                                                rotation,
                                                mirror_of: Some(target),
                                                enabled,
                                            },
                                        );
                                    },
                                    Err(error) => {
                                        return self.fail(error);
                                    },
                                }
                            },
                            None => {
                                return self.wait(
                                    Stage::Geometry {
                                        display_id,
                                        origin,
                                        rotation,
                                        mirror_of: None,
                                        enabled,
                                    },
                                );
                            },
                        }
                    }
                },
                _ => {
                    let stage = self.stage;
                    return self.wait(stage);
                },
            }
        }
    }

    /// Settles, and hands out `news` with the step.
    fn settle_with(&mut self, news: Vec<Notice>) -> (step: Step)
        ensures
            final(self)@ == old(self)@.settle_with(news@).state,
            step.request@ == old(self)@.settle_with(news@).request,
            step.news@ == old(self)@.settle_with(news@).news,
    {
        let step = self.settle();
        Step { request: step.request, news }
    }

    /// Moves to `stage` within the same request.
    fn turn_to(&mut self, stage: Stage)
        ensures
            final(self)@ == old(self)@.at(stage),
    {
        self.stage = stage;
    }

    /// Moves to the start of the next request.
    fn turn_to_next(&mut self)
        requires
            old(self).position < usize::MAX,
        ensures
            final(self)@ == old(self)@.next(),
    {
        self.position = self.position + 1;
        self.stage = Stage::Ready;
    }

    /// Takes the answer to the call that was asked for, and names the next call.
    pub fn advance(&mut self, response: Response) -> (step: Step)
        ensures
            final(self)@ == old(self)@.advance(response@).state,
            step.request@ == old(self)@.advance(response@).request,
            step.news@ == old(self)@.advance(response@).news,
    {
        if self.failure.is_some() || self.position >= self.configs.len() {
            return self.settle();
        }
        match (self.stage, response) {
            (Stage::DirectSet { display_id, mode_number }, Response::Status(code)) => {
                if code == 0 {
                    self.wait(Stage::DirectRead { display_id, mode_number })
                } else {
                    self.fail(DisplayError::FacadeError { call: FacadeCall::SetMode, code })
                }
            },
            (Stage::DirectRead { display_id, mode_number }, Response::CurrentMode(current)) => {
                let notice = match current {
                    Some(mode) => Notice::ModeSet {
                        display_id,
                        width: mode.width,
                        height: mode.height,
                        refresh_rate: mode.refresh_rate,
                        scaled: mode.is_scaled,
                        mode_number,
                    },
                    None => Notice::ModeNumberSet { display_id, mode_number },
                };
                let mut news: Vec<Notice> = Vec::new();
                news.push(notice);
                assert(news@ =~= seq![direct_notice(display_id, mode_number, current)]);
                self.turn_to_next();
                self.settle_with(news)
            },
            (Stage::Modes { display_id, criteria }, Response::Modes { catalog, current }) => {
                match current {
                    None => self.fail(DisplayError::CurrentModeUnavailable { display_id }),
                    Some(mode) => {
                        match select_mode(&catalog, &criteria, &mode, display_id) {
                            Err(error) => self.fail(error),
                            Ok(ModeChoice::Unchanged) => {
                                self.turn_to(Stage::Placing { display_id });
                                self.settle()
                            },
                            Ok(ModeChoice::Switch(target)) => self.wait(
                                Stage::MatchedSet { display_id, mode: target },
                            ),
                        }
                    },
                }
            },
            (Stage::MatchedSet { display_id, mode }, Response::Status(code)) => {
                if code == 0 {
                    let mut news: Vec<Notice> = Vec::new();
                    news.push(
                        Notice::ModeSet {
                            display_id,
                            width: mode.width,
                            height: mode.height,
                            refresh_rate: mode.refresh_rate,
                            scaled: mode.is_scaled,
                            mode_number: mode.mode_number,
                        },
                    );
                    assert(news@ =~= seq![matched_notice(display_id, mode)]);
                    self.turn_to(Stage::Placing { display_id });
                    self.settle_with(news)
                } else {
                    self.fail(DisplayError::FacadeError { call: FacadeCall::SetMode, code })
                }
            },
            (
                Stage::Geometry { display_id, origin, rotation, mirror_of, enabled },
                Response::Status(code),
            ) => {
                if code == 0 {
                    let news = geometry_notices(display_id, origin, rotation, mirror_of, enabled);
                    self.turn_to_next();
                    self.settle_with(news)
                } else {
                    self.fail(DisplayError::FacadeError { call: FacadeCall::Configure, code })
                }
            },
            _ => self.settle(),
        }
    }
}

} // verus!
