//! Attaching the hooks of one interface step by step, and giving back what
//! was attached. The caller runs the commands and opens the tables; what to
//! do next, what a failure means, and what is held at every moment is
//! decided here.

use crate::agent::Direction;
use crate::command::{arg_views, verdict, Exit, Output};
use crate::hook::{
    filter_rule, plan, qdisc_rule, release_views, shell_split, AttachError, AttachErrorView,
    Release, ResourceView, TcRule, TcRuleView, Teardown,
};
use vstd::prelude::*;
use vstd::string::StringExecFns;

verus! {

/// How far attaching has come.
#[derive(Clone, Copy, Debug, PartialEq, Eq, Structural)]
pub enum Stage {
    /// The command that creates the classifier hook of the interface runs.
    Qdisc,
    /// The command that installs the program of this direction runs.
    Filter(Direction),
    /// The table of this direction is being opened.
    Table(Direction),
    /// Both directions are attached.
    Attached,
    /// Attaching has failed, or everything was given back.
    Closed,
}

/// What the caller does next.
#[derive(Debug)]
pub enum Action {
    /// Run `tc` with these arguments and report how it ended.
    Run(Vec<String>),
    /// Open the table that is pinned at this path and report whether that
    /// worked.
    Open(String),
    /// Nothing.
    Nothing,
}

/// The mathematical value of an [`Action`].
pub enum ActionView {
    Run(Seq<Seq<char>>),
    Open(Seq<char>),
    Nothing,
}

impl View for Action {
    type V = ActionView;

    open spec fn view(&self) -> ActionView {
        match self {
            Action::Run(args) => ActionView::Run(arg_views(args@)),
            Action::Open(path) => ActionView::Open(path@),
            Action::Nothing => ActionView::Nothing,
        }
    }
}

/// The hooks of one interface, from the first command to the last release.
#[derive(Debug)]
pub struct Lifecycle {
    iface: String,
    object_file: String,
    stage: Stage,
    teardown: Teardown,
}

/// The mathematical value of a [`Lifecycle`].
pub struct LifecycleView {
    /// The interface.
    pub iface: Seq<char>,
    /// The object file that holds the programs.
    pub object_file: Seq<char>,
    /// How far attaching has come.
    pub stage: Stage,
    /// What was acquired so far, in the order of acquisition.
    pub held: Seq<ResourceView>,
}

/// The outcome of a step: the state that follows, and the next action or
/// the error that ended attaching.
pub struct StepView {
    pub next: LifecycleView,
    pub result: Result<ActionView, AttachErrorView>,
}

/// The stage that follows the table of a direction.
pub open spec fn stage_after_table(direction: Direction) -> Stage {
    match direction {
        Direction::Ingress => Stage::Filter(Direction::Egress),
        Direction::Egress => Stage::Attached,
    }
}

impl LifecycleView {
    /// The rule whose command runs in `stage`.
    pub open spec fn rule_at(self, stage: Stage) -> TcRuleView {
        match stage {
            Stage::Filter(direction) => filter_rule(self.iface, direction, self.object_file),
            _ => qdisc_rule(self.iface),
        }
    }

    /// Entering a stage: a stage that runs a command asks for that command,
    /// and closes where the text of its rule does not split; a stage that
    /// opens a table asks for the table; the last two stages ask for nothing.
    pub open spec fn enter(self, stage: Stage) -> StepView {
        match stage {
            Stage::Qdisc | Stage::Filter(_) => match shell_split(self.rule_at(stage).add_rule) {
                Some(args) => StepView {
                    next: LifecycleView { stage, ..self },
                    result: Ok(ActionView::Run(args)),
                },
                None => StepView {
                    next: LifecycleView { stage: Stage::Closed, ..self },
                    result: Err(AttachErrorView::Malformed),
                },
            },
            Stage::Table(direction) => StepView {
                next: LifecycleView { stage, ..self },
                result: Ok(ActionView::Open(direction.pin_path_name())),
            },
            _ => StepView {
                next: LifecycleView { stage, ..self },
                result: Ok(ActionView::Nothing),
            },
        }
    }

    /// The command of the current stage has ended with `status`. The rule
    /// of the classifier hook is held whether it was added or not: where
    /// the hook was there before, the command fails, the rule stays
    /// unloaded and is never deleted by this process. The rule of a program
    /// must be added: where its command fails, attaching closes with the
    /// error. In a stage that runs no command nothing happens.
    pub open spec fn ran(self, status: Exit) -> StepView {
        match self.stage {
            Stage::Qdisc => {
                let rule = self.rule_at(Stage::Qdisc).applied(status);
                (LifecycleView { held: self.held.push(ResourceView::Rule(rule)), ..self }).enter(
                    Stage::Filter(Direction::Ingress),
                )
            },
            Stage::Filter(direction) => {
                let rule = self.rule_at(self.stage);
                match rule.apply_error(status) {
                    None => (LifecycleView {
                        held: self.held.push(ResourceView::Rule(rule.applied(status))),
                        ..self
                    }).enter(Stage::Table(direction)),
                    Some(error) => StepView {
                        next: LifecycleView { stage: Stage::Closed, ..self },
                        result: Err(error),
                    },
                }
            },
            _ => StepView { next: self, result: Ok(ActionView::Nothing) },
        }
    }

    /// The table of the current stage was opened, or could not be. An open
    /// table is held and the next stage is entered; a table that could not
    /// be opened closes attaching. In a stage that opens no table nothing
    /// happens.
    pub open spec fn opened(self, success: bool) -> StepView {
        match self.stage {
            Stage::Table(direction) => if success {
                (LifecycleView {
                    held: self.held.push(ResourceView::Table(direction.pin_path_name())),
                    ..self
                }).enter(stage_after_table(direction))
            } else {
                StepView {
                    next: LifecycleView { stage: Stage::Closed, ..self },
                    result: Err(AttachErrorView::TableUnavailable),
                }
            },
            _ => StepView { next: self, result: Ok(ActionView::Nothing) },
        }
    }
}

/// Whether what a step returned is what the step should give.
pub open spec fn step_result(
    expected: Result<ActionView, AttachErrorView>,
    result: Result<Action, AttachError>,
) -> bool {
    match result {
        Ok(action) => expected == Ok::<ActionView, AttachErrorView>(action@),
        Err(error) => expected == Err::<ActionView, AttachErrorView>(error@),
    }
}

/// A step that ends in an error closes the lifecycle. Nothing that was
/// held is lost by a step: what was acquired before is still held, in the
/// same order, for the shutdown to give back.
pub proof fn lemma_error_closes(before: LifecycleView, status: Exit, success: bool)
    ensures
        before.ran(status).result is Err ==> before.ran(status).next.stage == Stage::Closed,
        before.opened(success).result is Err ==> before.opened(success).next.stage
            == Stage::Closed,
        before.held.is_prefix_of(before.ran(status).next.held),
        before.held.is_prefix_of(before.opened(success).next.held),
{
    let rule = ResourceView::Rule(before.rule_at(before.stage).applied(status));
    assert(before.held.is_prefix_of(before.held.push(rule)));
    match before.stage {
        Stage::Table(direction) => {
            let table = ResourceView::Table(direction.pin_path_name());
            assert(before.held.is_prefix_of(before.held.push(table)));
        },
        _ => {},
    }
}

/// Where every command succeeds and both tables open, attaching runs
/// through its stages in the fixed order and ends with five resources held:
/// the classifier hook, then for ingress and for egress the program and its
/// table.
pub proof fn lemma_attach_in_order(iface: Seq<char>, object_file: Seq<char>, status: Exit)
    requires
        verdict(status) is None,
        shell_split(qdisc_rule(iface).add_rule) is Some,
        shell_split(filter_rule(iface, Direction::Ingress, object_file).add_rule) is Some,
        shell_split(filter_rule(iface, Direction::Egress, object_file).add_rule) is Some,
    ensures
        ({
            let start = LifecycleView {
                iface,
                object_file,
                stage: Stage::Qdisc,
                held: Seq::<ResourceView>::empty(),
            };
            let end = start.enter(Stage::Qdisc).next.ran(status).next.ran(status).next.opened(
                true,
            ).next.ran(status).next.opened(true);
            &&& end.result == Ok::<ActionView, AttachErrorView>(ActionView::Nothing)
            &&& end.next.stage == Stage::Attached
            &&& end.next.held == seq![
                ResourceView::Rule(TcRuleView { loaded: true, ..qdisc_rule(iface) }),
                ResourceView::Rule(
                    TcRuleView {
                        loaded: true,
                        ..filter_rule(iface, Direction::Ingress, object_file)
                    },
                ),
                ResourceView::Table(Direction::Ingress.pin_path_name()),
                ResourceView::Rule(
                    TcRuleView {
                        loaded: true,
                        ..filter_rule(iface, Direction::Egress, object_file)
                    },
                ),
                ResourceView::Table(Direction::Egress.pin_path_name()),
            ]
        }),
{
    let start = LifecycleView {
        iface,
        object_file,
        stage: Stage::Qdisc,
        held: Seq::<ResourceView>::empty(),
    };
    let s1 = start.enter(Stage::Qdisc).next;
    assert(s1.stage == Stage::Qdisc);
    let s2 = s1.ran(status).next;
    assert(s2.stage == Stage::Filter(Direction::Ingress));
    let s3 = s2.ran(status).next;
    assert(s3.stage == Stage::Table(Direction::Ingress));
    let s4 = s3.opened(true).next;
    assert(s4.stage == Stage::Filter(Direction::Egress));
    let s5 = s4.ran(status).next;
    assert(s5.stage == Stage::Table(Direction::Egress));
    let end = s5.opened(true);
    assert(end.next.held =~= seq![
        ResourceView::Rule(TcRuleView { loaded: true, ..qdisc_rule(iface) }),
        ResourceView::Rule(
            TcRuleView { loaded: true, ..filter_rule(iface, Direction::Ingress, object_file) },
        ),
        ResourceView::Table(Direction::Ingress.pin_path_name()),
        ResourceView::Rule(
            TcRuleView { loaded: true, ..filter_rule(iface, Direction::Egress, object_file) },
        ),
        ResourceView::Table(Direction::Egress.pin_path_name()),
    ]);
}

impl View for Lifecycle {
    type V = LifecycleView;

    closed spec fn view(&self) -> LifecycleView {
        LifecycleView {
            iface: self.iface@,
            object_file: self.object_file@,
            stage: self.stage,
            held: self.teardown@,
        }
    }
}

impl Lifecycle {
    /// The hooks of the interface `iface` with the programs of
    /// `object_file`, before the first command; nothing is held.
    pub fn new(iface: &str, object_file: &str) -> (lifecycle: Lifecycle)
        ensures
            lifecycle@ == (LifecycleView {
                iface: iface@,
                object_file: object_file@,
                stage: Stage::Qdisc,
                held: Seq::<ResourceView>::empty(),
            }),
    {
        Lifecycle {
            iface: String::from_str(iface),
            object_file: String::from_str(object_file),
            stage: Stage::Qdisc,
            teardown: Teardown::new(),
        }
    }

    /// How far attaching has come.
    pub fn stage(&self) -> (stage: Stage)
        ensures
            stage == self@.stage,
    {
        self.stage
    }

    /// The number of resources that are held.
    pub fn held(&self) -> (n: usize)
        ensures
            n == self@.held.len(),
    {
        self.teardown.len()
    }

    fn rule(&self, stage: Stage) -> (rule: TcRule)
        ensures
            rule@ == self@.rule_at(stage),
    {
        match stage {
            Stage::Filter(direction) => TcRule::filter(
                self.iface.as_str(),
                direction,
                self.object_file.as_str(),
            ),
            _ => TcRule::qdisc(self.iface.as_str()),
        }
    }

    fn enter(&mut self, stage: Stage) -> (result: Result<Action, AttachError>)
        ensures
            final(self)@ == old(self)@.enter(stage).next,
            step_result(old(self)@.enter(stage).result, result),
    {
        match stage {
            Stage::Qdisc | Stage::Filter(_) => {
                let rule = self.rule(stage);
                match rule.add_command() {
                    Some(args) => {
                        self.stage = stage;
                        Ok(Action::Run(args))
                    },
                    None => {
                        self.stage = Stage::Closed;
                        Err(AttachError::Malformed)
                    },
                }
            },
            Stage::Table(direction) => {
                self.stage = stage;
                Ok(Action::Open(String::from_str(direction.pin_path())))
            },
            _ => {
                self.stage = stage;
                Ok(Action::Nothing)
            },
        }
    }

    /// The first action: the command that creates the classifier hook. A
    /// lifecycle that has started already asks for nothing.
    pub fn start(&mut self) -> (result: Result<Action, AttachError>)
        ensures
            old(self)@.stage == Stage::Qdisc ==> final(self)@ == old(self)@.enter(Stage::Qdisc).next
                && step_result(old(self)@.enter(Stage::Qdisc).result, result),
            old(self)@.stage != Stage::Qdisc ==> final(self)@ == old(self)@ && result matches Ok(
                Action::Nothing,
            ),
    {
        match self.stage {
            Stage::Qdisc => self.enter(Stage::Qdisc),
            _ => Ok(Action::Nothing),
        }
    }

    /// Takes note of how the command of the current stage ended, and says
    /// what to do next. After an error the caller shuts down.
    pub fn ran(&mut self, output: Output) -> (result: Result<Action, AttachError>)
        ensures
            final(self)@ == old(self)@.ran(output.status).next,
            step_result(old(self)@.ran(output.status).result, result),
    {
        match self.stage {
            Stage::Qdisc => {
                let mut rule = self.rule(Stage::Qdisc);
                let _ = rule.apply(output);
                self.teardown.hold_rule(rule);
                self.enter(Stage::Filter(Direction::Ingress))
            },
            Stage::Filter(direction) => {
                let mut rule = self.rule(self.stage);
                match rule.apply(output) {
                    Ok(_) => {
                        self.teardown.hold_rule(rule);
                        self.enter(Stage::Table(direction))
                    },
                    Err(error) => {
                        self.stage = Stage::Closed;
                        Err(error)
                    },
                }
            },
            _ => Ok(Action::Nothing),
        }
    }

    /// Takes note of whether the table of the current stage could be
    /// opened, and says what to do next. After an error the caller shuts
    /// down.
    pub fn opened(&mut self, success: bool) -> (result: Result<Action, AttachError>)
        ensures
            final(self)@ == old(self)@.opened(success).next,
            step_result(old(self)@.opened(success).result, result),
    {
        match self.stage {
            Stage::Table(direction) => {
                if success {
                    self.teardown.hold_table(direction.pin_path());
                    let next = match direction {
                        Direction::Ingress => Stage::Filter(Direction::Egress),
                        Direction::Egress => Stage::Attached,
                    };
                    self.enter(next)
                } else {
                    self.stage = Stage::Closed;
                    Err(AttachError::TableUnavailable)
                }
            },
            _ => Ok(Action::Nothing),
        }
    }

    /// Gives back everything that is held, last acquired first, and closes.
    /// Every step is for the caller to carry out, also after one of them
    /// has failed. A second shutdown has no step left.
    pub fn shutdown(&mut self) -> (steps: Vec<Release>)
        ensures
            final(self)@ == (LifecycleView {
                stage: Stage::Closed,
                held: Seq::<ResourceView>::empty(),
                ..old(self)@
            }),
            release_views(steps@) == plan(old(self)@.held),
            steps@.len() == plan(old(self)@.held).len(),
    {
        self.stage = Stage::Closed;
        self.teardown.shutdown()
    }
}

} // verus!
