//! The command that hides, shows or toggles the notch of one display.
//!
//! Like the batch of requests, the command is a machine that names the call
//! to make next and takes its answer: it reads the modes of the display,
//! plans, and asks for a switch only where the plan needs one.

use crate::error::{optional_error, DisplayError, DisplayErrorView, FacadeCall};
use crate::facade::{Request, RequestView, Response, ResponseView, Step};
use crate::model::DisplayMode;
use crate::notch::{
    family, lemma_hide_when_hidden_changes_nothing, plan, plan_notch, NotchAction, NotchPlan,
};
use crate::notice::Notice;
use crate::text::{chars_of, contains, contains_text};
use vstd::prelude::*;

verus! {

/// Where the command stands.
#[derive(Clone, Copy, Debug, PartialEq, Eq)]
pub enum NotchStage {
    /// The modes of the display are being read.
    Reading,
    /// The switch to the target mode is under way.
    Switching { target: DisplayMode, hidden: bool },
    /// The command is done.
    Finished,
}

/// The machine that carries out a notch command.
#[derive(Clone, Debug)]
pub struct NotchCommand {
    pub action: NotchAction,
    pub display_id: u32,
    pub built_in: bool,
    pub stage: NotchStage,
    pub failure: Option<DisplayError>,
}

/// The mathematical value of a `NotchCommand`.
pub struct NotchCommandView {
    pub action: NotchAction,
    pub display_id: u32,
    pub built_in: bool,
    pub stage: NotchStage,
    pub failure: Option<DisplayErrorView>,
}

/// The mathematical value of a step of the command.
pub struct NotchStepView {
    pub state: NotchCommandView,
    pub request: RequestView,
    pub news: Seq<Notice>,
}

impl View for NotchCommand {
    type V = NotchCommandView;

    open spec fn view(&self) -> NotchCommandView {
        NotchCommandView {
            action: self.action,
            display_id: self.display_id,
            built_in: self.built_in,
            stage: self.stage,
            failure: optional_error(self.failure),
        }
    }
}

/// Whether a display of kind `kind` is built into the computer: its kind
/// says `MacBook` or `built`.
pub open spec fn is_built_in(kind: Seq<char>) -> bool {
    contains_text(kind, "MacBook"@) || contains_text(kind, "built"@)
}

/// The warning that a plan calls for.
pub open spec fn advisory_news(display_id: u32, planned: NotchPlan) -> Seq<Notice> {
    if planned.advisory {
        seq![Notice::NotchAdvisory { display_id, spread: planned.spread }]
    } else {
        Seq::empty()
    }
}

/// The notice that the display is in the target mode already.
pub open spec fn unchanged_notice(display_id: u32, target: DisplayMode) -> Notice {
    Notice::NotchUnchanged {
        display_id,
        width: target.width,
        height: target.height,
        refresh_rate: target.refresh_rate,
    }
}

/// The notice that the display was switched to the target mode.
pub open spec fn changed_notice(display_id: u32, target: DisplayMode, hidden: bool) -> Notice {
    Notice::NotchChanged {
        display_id,
        hidden,
        mode_number: target.mode_number,
        width: target.width,
        height: target.height,
        refresh_rate: target.refresh_rate,
    }
}

impl NotchCommandView {
    /// The command at its start.
    pub open spec fn initial(
        action: NotchAction,
        display_id: u32,
        built_in: bool,
    ) -> NotchCommandView {
        NotchCommandView { action, display_id, built_in, stage: NotchStage::Reading, failure: None }
    }

    /// The call that the command waits for.
    pub open spec fn pending(self) -> RequestView {
        match self.failure {
            Some(error) => RequestView::Failed(error),
            None => match self.stage {
                NotchStage::Reading => RequestView::ReadModes { display_id: self.display_id },
                NotchStage::Switching { target, hidden } => RequestView::SetMode {
                    display_id: self.display_id,
                    mode_number: target.mode_number,
                },
                NotchStage::Finished => RequestView::Finished,
            },
        }
    }

    /// The step that leaves the command as it is and asks again.
    pub open spec fn stay(self) -> NotchStepView {
        NotchStepView { state: self, request: self.pending(), news: Seq::empty() }
    }

    /// The step that moves the command to `stage`, with `news`.
    pub open spec fn go(self, stage: NotchStage, news: Seq<Notice>) -> NotchStepView {
        let state = NotchCommandView { stage, ..self };
        NotchStepView { state, request: state.pending(), news }
    }

    /// The step that ends the command with `error`.
    pub open spec fn fail(self, error: DisplayErrorView) -> NotchStepView {
        NotchStepView {
            state: NotchCommandView { failure: Some(error), ..self },
            request: RequestView::Failed(error),
            news: Seq::empty(),
        }
    }

    /// The step that the command takes on an answer. Once the modes are
    /// read, it plans; a plan that needs no switch ends the command with the
    /// notice that nothing changed, and any other asks for the switch. The
    /// notch counts as hidden where the target is shorter than the mode that
    /// was current. An answer that is not waited for changes nothing.
    pub open spec fn advance(self, response: ResponseView) -> NotchStepView {
        if self.failure is Some {
            self.stay()
        } else {
            match (self.stage, response) {
                (NotchStage::Reading, ResponseView::Modes { catalog, current }) => match current {
                    None => self.fail(
                        DisplayErrorView::CurrentModeUnavailable { display_id: self.display_id },
                    ),
                    Some(mode) => match plan(
                        self.action,
                        self.display_id,
                        self.built_in,
                        mode,
                        catalog,
                    ) {
                        Err(error) => self.fail(error),
                        Ok(planned) => if planned.switch {
                            self.go(
                                NotchStage::Switching {
                                    target: planned.target,
                                    hidden: planned.target.height < mode.height,
                                },
                                advisory_news(self.display_id, planned),
                            )
                        } else {
                            self.go(
                                NotchStage::Finished,
                                advisory_news(self.display_id, planned).push(
                                    unchanged_notice(self.display_id, planned.target),
                                ),
                            )
                        },
                    },
                },
                (NotchStage::Switching { target, hidden }, ResponseView::Status(code)) => {
                    if code == 0 {
                        self.go(
                            NotchStage::Finished,
                            seq![changed_notice(self.display_id, target, hidden)],
                        )
                    } else {
                        self.fail(
                            DisplayErrorView::FacadeError { call: FacadeCall::SetMode, code },
                        )
                    }
                },
                _ => self.stay(),
            }
        }
    }
}

/// Hiding a notch that is hidden already asks for no switch: where the
/// current mode is an entry of the catalog and every member of its family
/// with another mode number is taller, the command ends on reading the modes.
pub proof fn lemma_hidden_notch_asks_for_no_switch(
    display_id: u32,
    built_in: bool,
    current: DisplayMode,
    catalog: Seq<DisplayMode>,
)
    requires
        catalog.contains(current),
        forall|k: int|
            0 <= k < family(catalog, current).len() && (#[trigger] family(
                catalog,
                current,
            )[k]).mode_number != current.mode_number ==> family(catalog, current)[k].height
                > current.height,
    ensures
        !NotchCommandView::initial(NotchAction::Hide, display_id, built_in).advance(
            ResponseView::Modes { catalog, current: Some(current) },
        ).request.calls_platform(),
{
    lemma_hide_when_hidden_changes_nothing(display_id, built_in, current, catalog);
}

/// Whether a display of kind `display_type` is built into the computer.
pub fn is_builtin_display(display_type: &str) -> (yes: bool)
    ensures
        yes == is_built_in(display_type@),
{
    let kind = chars_of(display_type);
    let laptop = chars_of("MacBook");
    let built = chars_of("built");
    contains(kind.as_slice(), laptop.as_slice()) || contains(kind.as_slice(), built.as_slice())
}

impl NotchCommand {
    /// The command `action` on display `display_id`, with its first request.
    pub fn start(action: NotchAction, display_id: u32, built_in: bool) -> (begun: (
        NotchCommand,
        Step,
    ))
        ensures
            begun.0@ == NotchCommandView::initial(action, display_id, built_in),
            begun.1.request@ == begun.0@.pending(),
            begun.1.news@.len() == 0,
    {
        let command = NotchCommand {
            action,
            display_id,
            built_in,
            stage: NotchStage::Reading,
            failure: None,
        };
        (command, Step { request: Request::ReadModes { display_id }, news: Vec::new() })
    }

    /// The call that the command waits for.
    fn request(&self) -> (request: Request)
        ensures
            request@ == self@.pending(),
    {
        match &self.failure {
            Some(error) => Request::Failed(error.duplicate()),
            None => match self.stage {
                NotchStage::Reading => Request::ReadModes { display_id: self.display_id },
                NotchStage::Switching { target, hidden } => Request::SetMode {
                    display_id: self.display_id,
                    mode_number: target.mode_number,
                },
                NotchStage::Finished => Request::Finished,
            },
        }
    }

    /// Moves to `stage`, and hands out `news` with the step.
    fn go(&mut self, stage: NotchStage, news: Vec<Notice>) -> (step: Step)
        ensures
            final(self)@ == old(self)@.go(stage, news@).state,
            step.request@ == old(self)@.go(stage, news@).request,
            step.news@ == old(self)@.go(stage, news@).news,
    {
        self.stage = stage;
        Step { request: self.request(), news }
    }

    /// Ends the command with `error`.
    fn fail(&mut self, error: DisplayError) -> (step: Step)
        ensures
            final(self)@ == old(self)@.fail(error@).state,
            step.request@ == old(self)@.fail(error@).request,
            step.news@ == old(self)@.fail(error@).news,
    {
        let copy = error.duplicate();
        self.failure = Some(error);
        Step { request: Request::Failed(copy), news: Vec::new() }
    }

    /// Takes the answer to the call that was asked for, and names the next call.
    pub fn advance(&mut self, response: Response) -> (step: Step)
        ensures
            final(self)@ == old(self)@.advance(response@).state,
            step.request@ == old(self)@.advance(response@).request,
            step.news@ == old(self)@.advance(response@).news,
    {
        if self.failure.is_some() {
            return Step { request: self.request(), news: Vec::new() };
        }
        match (self.stage, response) {
            (NotchStage::Reading, Response::Modes { catalog, current }) => {
                match current {
                    None => self.fail(
                        DisplayError::CurrentModeUnavailable { display_id: self.display_id },
                    ),
                    Some(mode) => {
                        match plan_notch(
                            self.action,
                            self.display_id,
                            self.built_in,
                            &mode,
                            &catalog,
                        ) {
                            Err(error) => self.fail(error),
                            Ok(planned) => {
                                let mut news: Vec<Notice> = Vec::new();
                                if planned.advisory {
                                    news.push(
                                        Notice::NotchAdvisory {
                                            display_id: self.display_id,
                                            spread: planned.spread,
                                        },
                                    );
                                }
                                assert(news@ =~= advisory_news(self.display_id, planned));
                                if planned.switch {
                                    self.go(
                                        NotchStage::Switching {
                                            target: planned.target,
                                            hidden: planned.target.height < mode.height,
                                        },
                                        news,
                                    )
                                } else {
                                    news.push(
                                        Notice::NotchUnchanged {
                                            display_id: self.display_id,
                                            width: planned.target.width,
                                            height: planned.target.height,
                                            refresh_rate: planned.target.refresh_rate,
                                        },
                                    );
                                    self.go(NotchStage::Finished, news)
                                }
                            },
                        }
                    },
                }
            },
            (NotchStage::Switching { target, hidden }, Response::Status(code)) => {
                if code == 0 {
                    let mut news: Vec<Notice> = Vec::new();
                    news.push(
                        Notice::NotchChanged {
                            display_id: self.display_id,
                            hidden,
                            mode_number: target.mode_number,
                            width: target.width,
                            height: target.height,
                            refresh_rate: target.refresh_rate,
                        },
                    );
                    assert(news@ =~= seq![changed_notice(self.display_id, target, hidden)]);
                    self.go(NotchStage::Finished, news)
                } else {
                    self.fail(DisplayError::FacadeError { call: FacadeCall::SetMode, code })
                }
            },
            _ => Step { request: self.request(), news: Vec::new() },
        }
    }
}

} // verus!
