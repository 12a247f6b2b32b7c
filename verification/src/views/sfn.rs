//! View `sfn`: state machines, their executions, and the timeline of one execution.
//!
//! The view only states the wish to redrive an execution; whether that may happen is up to the
//! application.

use vstd::prelude::*;

use crate::action::{Action, ActionText, ConsoleTarget, ViewContext};
use crate::effects::payload;
use crate::key::{KeyCode, KeyEvent};
use crate::list;
use crate::list::ListState;
use crate::message::{
    ExecStatus, ExecutionDetailDto, ExecutionDto, LogWindow, MachineType, Message, StateMachineDto, StateSpanDto, Text,
};
use crate::text;
use crate::ui::detail;
use crate::ui::detail::DetailPanel;
use crate::ui::Color;
use crate::util;
use crate::util::{fmt_epoch_millis, lambda_log_group_from_arn};
use crate::views;
use crate::views::{announce, join_key, nothing, split_key, DeckView};

verus! {

/// Pages of the history that are asked for at first, and how many more each time.
pub const HISTORY_PAGE_STEP: usize = 10;

/// Milliseconds that the logs of a state are widened by on each side.
pub const PAD: i64 = 60_000;

/// What the view shows.
#[derive(Debug)]
#[verifier::ext_equal]
pub enum Level<S = String> {
    Machines,
    Executions { machine_arn: S, machine_name: S, machine_type: MachineType },
    Detail { machine_arn: S, machine_name: S, machine_type: MachineType, execution_arn: S },
}

impl DeepView for Level<String> {
    type V = Level<Text>;

    open spec fn deep_view(&self) -> Level<Text> {
        match self {
            Level::Machines => Level::Machines,
            Level::Executions { machine_arn, machine_name, machine_type } => Level::Executions {
                machine_arn: machine_arn@,
                machine_name: machine_name@,
                machine_type: *machine_type,
            },
            Level::Detail { machine_arn, machine_name, machine_type, execution_arn } => Level::Detail {
                machine_arn: machine_arn@,
                machine_name: machine_name@,
                machine_type: *machine_type,
                execution_arn: execution_arn@,
            },
        }
    }
}

pub struct SfnView {
    pub level: Level,
    pub machines: Vec<StateMachineDto>,
    pub executions: Vec<ExecutionDto>,
    pub detail: Option<ExecutionDetailDto>,
    pub history: Vec<StateSpanDto>,
    pub failed_state: Option<String>,
    /// Input and output of a state in full, over the timeline.
    pub detail_panel: Option<DetailPanel>,
    pub filter: String,
    pub loading: bool,
    /// There are machines that were not fetched.
    pub machines_partial: bool,
    /// There is more history than the pages that were asked for.
    pub history_partial: bool,
    /// Pages of the history that were asked for.
    pub history_pages: usize,
    /// There are executions that were not fetched.
    pub executions_partial: bool,
    /// Where the next page of executions starts.
    pub exec_token: Option<String>,
    /// The status that the executions are asked for.
    pub exec_status: Option<ExecStatus>,
    pub state: ListState,
}

/// The state of the view.
#[verifier::ext_equal]
pub struct SfnModel {
    pub level: Level<Text>,
    pub machines: Seq<StateMachineDto>,
    pub executions: Seq<ExecutionDto>,
    pub detail: Option<ExecutionDetailDto>,
    pub history: Seq<StateSpanDto>,
    pub failed_state: Option<Text>,
    pub panel: Option<DetailPanel<Text>>,
    pub filter: Text,
    pub loading: bool,
    pub machines_partial: bool,
    pub history_partial: bool,
    pub history_pages: usize,
    pub executions_partial: bool,
    pub exec_token: Option<Text>,
    pub exec_status: Option<ExecStatus>,
    pub selected: Option<usize>,
}

/// The first of `rows`, from row `k` on, that shows a state with this name.
pub open spec fn row_named(history: Seq<StateSpanDto>, rows: Seq<int>, name: Text, k: int) -> Option<usize>
    decreases rows.len() - k,
{
    if k < 0 || k >= rows.len() {
        None
    } else if history[rows[k]].name@ == name {
        Some(k as usize)
    } else {
        row_named(history, rows, name, k + 1)
    }
}

/// The row of a state by its name, where there is a name and a row that shows it.
pub open spec fn row_of_state(history: Seq<StateSpanDto>, filter: Text, name: Option<Text>) -> Option<usize> {
    match name {
        Some(n) => row_named(history, list::shown(history, filter), n, 0),
        None => None,
    }
}

/// An instant moved by `by` and kept among the instants that can be written.
pub open spec fn shifted(ts: int, by: int) -> i64 {
    let to = ts + by;
    (if to < i64::MIN { i64::MIN as int } else if to > i64::MAX { i64::MAX as int } else { to }) as i64
}

/// A span of time, widened on both sides; `None` where it has no start.
pub open spec fn padded_range(from: Option<i64>, to: Option<i64>) -> Option<LogWindow> {
    match from {
        Some(f) => Some(
            LogWindow::Range {
                from: shifted(f as int, -PAD),
                to: match to {
                    Some(t) => Some(shifted(t as int, PAD as int)),
                    None => None,
                },
            },
        ),
        None => None,
    }
}

/// One part of what the panel of a state shows.
pub open spec fn io_part(label: Text, value: Option<String>) -> Text {
    "=== "@ + label + " ===\n"@ + (match value {
        Some(v) => v@,
        None => "(ninguno)"@,
    })
}

/// What the panel of a state shows.
pub open spec fn io_text(span: StateSpanDto) -> Text {
    if span.input is None && span.output is None {
        "(este estado no expone input/output)"@
    } else {
        io_part("input"@, span.input) + "\n\n"@ + io_part("output"@, span.output)
    }
}

/// The status that the argument of `:status` names: `None` where it names none, and
/// `Some(None)` where it asks for all executions.
pub open spec fn status_named(arg: Text) -> Option<Option<ExecStatus>> {
    let a = text::ascii_lower_all(arg);
    if a == "all"@ || a == "todas"@ || a == "todos"@ || a == "*"@ {
        Some(None)
    } else if a == "failed"@ || a == "fail"@ {
        Some(Some(ExecStatus::Failed))
    } else if a == "running"@ || a == "run"@ {
        Some(Some(ExecStatus::Running))
    } else if a == "succeeded"@ || a == "ok"@ || a == "success"@ {
        Some(Some(ExecStatus::Succeeded))
    } else if a == "aborted"@ || a == "abort"@ {
        Some(Some(ExecStatus::Aborted))
    } else if a == "timedout"@ || a == "timed_out"@ || a == "timeout"@ {
        Some(Some(ExecStatus::TimedOut))
    } else {
        None
    }
}

impl SfnModel {
    /// How many rows the filter shows.
    pub open spec fn visible(self) -> nat {
        match self.level {
            Level::Machines => list::shown(self.machines, self.filter).len(),
            Level::Executions { .. } => list::shown(self.executions, self.filter).len(),
            Level::Detail { .. } => list::shown(self.history, self.filter).len(),
        }
    }

    /// The selected machine.
    pub open spec fn machine(self) -> Option<StateMachineDto> {
        list::picked(self.machines, self.filter, self.selected)
    }

    /// The selected execution.
    pub open spec fn execution(self) -> Option<ExecutionDto> {
        list::picked(self.executions, self.filter, self.selected)
    }

    /// The selected state of the timeline.
    pub open spec fn span(self) -> Option<StateSpanDto> {
        if self.level is Detail {
            list::picked(self.history, self.filter, self.selected)
        } else {
            None
        }
    }

    /// The selection brought back inside the list.
    pub open spec fn clamped(self) -> SfnModel {
        SfnModel { selected: list::clamped(self.selected, self.visible()), ..self }
    }

    /// The executions of a machine, before any of them is known.
    pub open spec fn entering_machine(self, machine_arn: Text, machine_name: Text, machine_type: MachineType) -> SfnModel {
        SfnModel {
            level: Level::Executions { machine_arn, machine_name, machine_type },
            executions: Seq::empty(),
            executions_partial: false,
            exec_token: None,
            exec_status: None,
            selected: Some(0usize),
            loading: machine_type == MachineType::Standard,
            ..self
        }
    }

    /// The detail of an execution, before anything of it is known.
    pub open spec fn entering_execution(
        self,
        machine_arn: Text,
        machine_name: Text,
        machine_type: MachineType,
        execution_arn: Text,
    ) -> SfnModel {
        SfnModel {
            level: Level::Detail { machine_arn, machine_name, machine_type, execution_arn },
            detail: None,
            history: Seq::empty(),
            failed_state: None,
            history_partial: false,
            history_pages: HISTORY_PAGE_STEP,
            loading: true,
            selected: Some(0usize),
            ..self
        }
    }

    /// One level down, into what is selected.  The executions of an express machine cannot be
    /// listed, so nothing is asked for there.
    pub open spec fn drilled(self) -> (SfnModel, Seq<ActionText>) {
        match self.level {
            Level::Machines => match self.machine() {
                Some(m) => (
                    self.entering_machine(m.arn@, m.name@, m.machine_type),
                    if m.machine_type == MachineType::Express {
                        seq![ActionText::ClearFilter]
                    } else {
                        seq![
                            ActionText::ClearFilter,
                            ActionText::LoadExecutions { machine_arn: m.arn@, status: None, token: None },
                        ]
                    },
                ),
                None => (self, seq![]),
            },
            Level::Executions { machine_arn, machine_name, machine_type } => match self.execution() {
                Some(e) => (
                    self.entering_execution(machine_arn, machine_name, machine_type, e.arn@),
                    seq![ActionText::ClearFilter, ActionText::LoadExecutionDetail { execution_arn: e.arn@ }],
                ),
                None => (self, seq![]),
            },
            Level::Detail { .. } => (self, seq![]),
        }
    }

    /// One level up; at the root, back to the menu.
    pub open spec fn backed(self) -> (SfnModel, Seq<ActionText>) {
        let m = SfnModel { panel: None, ..self };
        match self.level {
            Level::Detail { machine_arn, machine_name, machine_type, .. } => (
                SfnModel {
                    level: Level::Executions { machine_arn, machine_name, machine_type },
                    detail: None,
                    history: Seq::empty(),
                    failed_state: None,
                    history_partial: false,
                    loading: false,
                    selected: Some(0usize),
                    ..m
                }.clamped(),
                seq![ActionText::ClearFilter],
            ),
            Level::Executions { .. } => (
                SfnModel { level: Level::Machines, loading: false, selected: Some(0usize), ..m }.clamped(),
                seq![ActionText::ClearFilter],
            ),
            Level::Machines => (m, seq![ActionText::Back]),
        }
    }

    pub open spec fn refreshed(self) -> (SfnModel, Seq<ActionText>) {
        match self.level {
            Level::Machines => (SfnModel { loading: true, ..self }, seq![ActionText::LoadStateMachines]),
            Level::Executions { machine_arn, machine_type, .. } => if machine_type == MachineType::Express {
                (SfnModel { loading: false, ..self }, seq![])
            } else {
                (
                    SfnModel { loading: true, exec_token: None, ..self },
                    seq![ActionText::LoadExecutions { machine_arn, status: self.exec_status, token: None }],
                )
            },
            Level::Detail { execution_arn, .. } => (
                SfnModel { loading: true, ..self },
                seq![ActionText::LoadExecutionDetail { execution_arn }],
            ),
        }
    }

    /// The next page of executions, where there is one; or more of the history, where there is
    /// more.  The history is asked for again from its start, with more pages.
    pub open spec fn extended(self) -> (SfnModel, Seq<ActionText>) {
        match self.level {
            Level::Machines => (self, seq![]),
            Level::Executions { machine_arn, machine_type, .. } => match self.exec_token {
                Some(token) => if machine_type == MachineType::Express {
                    (self, seq![])
                } else {
                    (
                        SfnModel { loading: true, ..self },
                        seq![ActionText::LoadExecutions { machine_arn, status: self.exec_status, token: Some(token) }],
                    )
                },
                None => (self, seq![]),
            },
            Level::Detail { execution_arn, .. } => if self.history_partial {
                let pages = if self.history_pages + HISTORY_PAGE_STEP <= usize::MAX {
                    (self.history_pages + HISTORY_PAGE_STEP) as usize
                } else {
                    usize::MAX
                };
                (
                    SfnModel { loading: true, history_pages: pages, ..self },
                    seq![ActionText::LoadMoreExecutionHistory { execution_arn, page_budget: pages }],
                )
            } else {
                (self, seq![])
            },
        }
    }

    /// The execution on screen ended in failure.
    pub open spec fn can_redrive(self) -> bool {
        self.level is Detail && (self.detail matches Some(d) && d.status.ended_in_failure())
    }

    /// The span of time to look for the logs of a state in: its own, else that of the execution,
    /// else the last hour.
    pub open spec fn lambda_window(self, span: StateSpanDto) -> LogWindow {
        match padded_range(span.entered_ts, span.exited_ts) {
            Some(w) => w,
            None => match self.detail {
                Some(d) => match padded_range(d.start_ts, d.stop_ts) {
                    Some(w) => w,
                    None => LogWindow::Last(3_600_000),
                },
                None => LogWindow::Last(3_600_000),
            },
        }
    }

    /// The way to the logs of the Lambda function that the selected state invoked, if it did.
    pub open spec fn lambda_logs(self) -> Seq<ActionText> {
        match self.span() {
            Some(span) => match span.resource_arn {
                Some(arn) => match util::lambda_group(arn@) {
                    Some(group) => seq![
                        ActionText::ActivateViewWithContext {
                            id: "logs"@,
                            context: ViewContext::LogGroupTail { group, window: self.lambda_window(span) },
                        },
                    ],
                    None => seq![],
                },
                None => seq![],
            },
            None => seq![],
        }
    }

    /// ARN of what the level is about.
    pub open spec fn current_arn(self) -> Option<Text> {
        match self.level {
            Level::Machines => match self.machine() {
                Some(m) => Some(m.arn@),
                None => None,
            },
            Level::Executions { .. } => match self.execution() {
                Some(e) => Some(e.arn@),
                None => None,
            },
            Level::Detail { execution_arn, .. } => Some(execution_arn),
        }
    }

    /// Input and output of the selected state, in a panel.
    pub open spec fn expanded(self) -> SfnModel {
        match self.span() {
            Some(span) => SfnModel {
                panel: Some(DetailPanel { title: span.name@, raw: io_text(span), scroll: 0 }),
                ..self
            },
            None => self,
        }
    }

    pub open spec fn keyed(self, key: KeyEvent) -> (SfnModel, Seq<ActionText>) {
        match self.panel {
            Some(p) => if key.code == KeyCode::Char('y') {
                (self, seq![ActionText::CopyToClipboard { text: p.raw }])
            } else if detail::closes(key.code) {
                (SfnModel { panel: None, ..self }, seq![])
            } else {
                (
                    SfnModel {
                        panel: Some(DetailPanel { scroll: detail::scrolled(p.scroll, key.code), ..p }),
                        ..self
                    },
                    seq![],
                )
            },
            None => match key.code {
                KeyCode::Char('j') | KeyCode::Down => (
                    SfnModel { selected: list::moved(self.selected, self.visible(), 1), ..self },
                    seq![],
                ),
                KeyCode::Char('k') | KeyCode::Up => (
                    SfnModel { selected: list::moved(self.selected, self.visible(), -1), ..self },
                    seq![],
                ),
                KeyCode::Char('g') | KeyCode::Home => (
                    SfnModel { selected: list::edge(self.visible(), false), ..self },
                    seq![],
                ),
                KeyCode::Char('G') | KeyCode::End => (
                    SfnModel { selected: list::edge(self.visible(), true), ..self },
                    seq![],
                ),
                KeyCode::Enter => if self.level is Detail { (self.expanded(), seq![]) } else { self.drilled() },
                KeyCode::Esc => self.backed(),
                KeyCode::Char('r') => self.refreshed(),
                KeyCode::Char('o') => self.extended(),
                KeyCode::Char('R') => (
                    self,
                    match self.level {
                        Level::Detail { execution_arn, .. } => if self.can_redrive() {
                            seq![ActionText::RedriveExecution { execution_arn }]
                        } else {
                            seq![]
                        },
                        _ => seq![],
                    },
                ),
                KeyCode::Char('l') => (self, self.lambda_logs()),
                KeyCode::Char('y') => (
                    self,
                    match self.current_arn() {
                        Some(text) => seq![ActionText::CopyToClipboard { text }],
                        None => seq![],
                    },
                ),
                KeyCode::Char('O') => (
                    self,
                    match self.current_arn() {
                        Some(arn) => seq![
                            ActionText::OpenConsole {
                                target: if self.level is Machines {
                                    ConsoleTarget::StateMachine { arn }
                                } else {
                                    ConsoleTarget::Execution { arn }
                                },
                            },
                        ],
                        None => seq![],
                    },
                ),
                _ => (self, seq![]),
            },
        }
    }

    /// The executions of this machine are on screen.
    pub open spec fn lists(self, machine_arn: Text) -> bool {
        self.level matches Level::Executions { machine_arn: current, .. } && current == machine_arn
    }

    /// The detail of this execution is on screen.
    pub open spec fn shows(self, execution_arn: Text) -> bool {
        self.level matches Level::Detail { execution_arn: current, .. } && current == execution_arn
    }

    /// The row to select once the timeline has changed from that of `self` to `history`: the state
    /// that was selected, else the one that failed, else the first.
    pub open spec fn row_after(self, history: Seq<StateSpanDto>, failed: Option<Text>) -> usize {
        let before = match self.span() {
            Some(s) => Some(s.name@),
            None => None,
        };
        match row_of_state(history, self.filter, before) {
            Some(row) => row,
            None => match row_of_state(history, self.filter, failed) {
                Some(row) => row,
                None => 0,
            },
        }
    }

    pub open spec fn informed(self, message: Message) -> SfnModel {
        match message {
            Message::StateMachinesLoaded { machines, more } => {
                let m = SfnModel { machines: machines@, machines_partial: more, ..self };
                if self.level is Machines {
                    SfnModel { loading: false, ..m }.clamped()
                } else {
                    m
                }
            },
            Message::ExecutionsLoaded { machine_arn, executions, next_token, append } => if self.lists(machine_arn@) {
                SfnModel {
                    executions: if append { self.executions + executions@ } else { executions@ },
                    exec_token: next_token.deep_view(),
                    executions_partial: next_token is Some,
                    loading: false,
                    ..self
                }.clamped()
            } else {
                self
            },
            Message::ExecutionDetailLoaded { execution_arn, detail, history, failed_state, history_more } => if self.shows(
                execution_arn@,
            ) {
                SfnModel {
                    detail: Some(detail),
                    history: history@,
                    failed_state: failed_state.deep_view(),
                    history_partial: history_more,
                    loading: false,
                    selected: Some(self.row_after(history@, failed_state.deep_view())),
                    ..self
                }.clamped()
            } else {
                self
            },
            Message::ExecutionRedriven { execution_arn } => if self.shows(execution_arn@) {
                SfnModel { loading: true, ..self }
            } else {
                self
            },
            Message::Error { .. } => SfnModel { loading: false, ..self },
            _ => self,
        }
    }

    /// `:status`: asks for the executions in one status, or for all of them again.
    pub open spec fn commanded(self, cmd: Text) -> (SfnModel, Seq<ActionText>) {
        if text::has_prefix(cmd, "status "@) {
            match self.level {
                Level::Executions { machine_arn, machine_type, .. } => if machine_type == MachineType::Express {
                    (self, seq![])
                } else {
                    match status_named(text::trimmed(cmd.skip("status "@.len() as int))) {
                        Some(status) => (
                            SfnModel {
                                exec_status: status,
                                exec_token: None,
                                executions: Seq::empty(),
                                executions_partial: false,
                                selected: Some(0usize),
                                loading: true,
                                ..self
                            },
                            seq![ActionText::LoadExecutions { machine_arn, status, token: None }],
                        ),
                        None => (self, seq![]),
                    }
                },
                _ => (self, seq![]),
            }
        } else {
            (self, seq![])
        }
    }

    pub open spec fn activated(self) -> SfnModel {
        SfnModel {
            level: Level::Machines,
            executions: Seq::empty(),
            exec_token: None,
            exec_status: None,
            detail: None,
            history: Seq::empty(),
            failed_state: None,
            panel: None,
            loading: true,
            machines_partial: false,
            history_partial: false,
            history_pages: HISTORY_PAGE_STEP,
            executions_partial: false,
            selected: Some(0usize),
            ..self
        }
    }

    /// A favourite: the executions of a machine, or the detail of an execution.
    pub open spec fn opened_at(self, key: Text) -> (SfnModel, Seq<ActionText>) {
        let m = self.activated();
        match views::key_parts(key) {
            Some((machine_arn, execution_arn)) => (
                m.entering_execution(
                    machine_arn,
                    text::last_part_of(machine_arn, ':'),
                    MachineType::Standard,
                    execution_arn,
                ),
                seq![ActionText::LoadExecutionDetail { execution_arn }],
            ),
            None => (
                m.entering_machine(key, text::last_part_of(key, ':'), MachineType::Standard),
                seq![ActionText::LoadExecutions { machine_arn: key, status: None, token: None }],
            ),
        }
    }

    /// Key and label of the selected machine, if its executions can be listed, or of an execution.
    pub open spec fn favorite(self) -> Option<(Text, Text)> {
        match self.level {
            Level::Machines => match self.machine() {
                Some(m) => if m.machine_type == MachineType::Express { None } else { Some((m.arn@, m.name@)) },
                None => None,
            },
            Level::Executions { machine_arn, machine_name, .. } => match self.execution() {
                Some(e) => Some((views::deep_key(machine_arn, e.arn@), machine_name + " · "@ + e.name@)),
                None => None,
            },
            Level::Detail { machine_arn, machine_name, execution_arn, .. } => Some(
                (
                    views::deep_key(machine_arn, execution_arn),
                    machine_name + " · "@ + text::last_part_of(execution_arn, ':'),
                ),
            ),
        }
    }

    pub open spec fn title(self) -> Text {
        match self.level {
            Level::Machines => "sfn"@,
            Level::Executions { machine_name, .. } => "sfn / "@ + machine_name,
            Level::Detail { machine_name, execution_arn, .. } => "sfn / "@ + machine_name + " / "@
                + text::last_part_of(execution_arn, ':'),
        }
    }

    pub open spec fn hints(self) -> Seq<(Text, Text)> {
        if self.panel is Some {
            detail::panel_hints()
        } else {
            seq![("y"@, "copiar ARN"@), ("O"@, "consola"@)] + views::hint_when(
                self.level is Executions,
                ":status"@,
                "filtrar (failed/all)"@,
            ) + views::hint_when(self.level is Executions && self.executions_partial, "o"@, "más"@) + views::hint_when(
                self.span() matches Some(s) && (s.input is Some || s.output is Some),
                "enter"@,
                "in/out"@,
            ) + views::hint_when(self.level is Detail && self.history_partial, "o"@, "más history"@) + views::hint_when(
                self.span() matches Some(s) && s.resource_arn is Some,
                "l"@,
                "logs Lambda"@,
            ) + views::hint_when(self.can_redrive(), "R"@, "redrive"@)
        }
    }

    pub open spec fn machines_title(self) -> Text {
        let total = text::decimal(self.machines.len());
        let partial = if self.machines_partial { " · parcial"@ } else { ""@ };
        if self.filter.len() == 0 {
            " "@ + total + " state machines"@ + partial + " "@
        } else {
            " "@ + text::decimal(list::shown(self.machines, self.filter).len()) + "/"@ + total + " state machines"@
                + partial + " · filtro: "@ + self.filter + " "@
        }
    }

    pub open spec fn executions_title(self) -> Text {
        let name = match self.level {
            Level::Executions { machine_name, .. } => machine_name,
            Level::Detail { machine_name, .. } => machine_name,
            Level::Machines => ""@,
        };
        let total = text::decimal(self.executions.len());
        let partial = if self.executions_partial { " · parcial · o: más"@ } else { ""@ };
        let status = match self.exec_status {
            Some(s) => " · solo "@ + s.name(),
            None => ""@,
        };
        if self.filter.len() == 0 {
            " "@ + name + " · "@ + total + " ejecuciones"@ + status + partial + " "@
        } else {
            " "@ + name + " · "@ + text::decimal(list::shown(self.executions, self.filter).len()) + "/"@ + total
                + status + partial + " · filtro: "@ + self.filter + " "@
        }
    }

    pub open spec fn timeline_title(self) -> Text {
        let total = text::decimal(self.history.len());
        let redrive = if self.detail matches Some(d) && d.status.ended_in_failure() {
            " · [R] redrive"@
        } else {
            ""@
        };
        let partial = if self.history_partial { " · parcial · o: más"@ } else { ""@ };
        if self.filter.len() == 0 {
            " timeline · "@ + total + " estados"@ + partial + redrive + " "@
        } else {
            " timeline · "@ + text::decimal(list::shown(self.history, self.filter).len()) + "/"@ + total
                + " estados · filtro: "@ + self.filter + partial + redrive + " "@
        }
    }
}

impl SfnView {
    pub fn new() -> (r: Self)
        ensures
            r.model() == (SfnModel {
                level: Level::Machines,
                machines: Seq::empty(),
                executions: Seq::empty(),
                detail: None,
                history: Seq::empty(),
                failed_state: None,
                panel: None,
                filter: Seq::empty(),
                loading: false,
                machines_partial: false,
                history_partial: false,
                history_pages: HISTORY_PAGE_STEP,
                executions_partial: false,
                exec_token: None,
                exec_status: None,
                selected: Some(0usize),
            }),
    {
        SfnView {
            level: Level::Machines,
            machines: Vec::new(),
            executions: Vec::new(),
            detail: None,
            history: Vec::new(),
            failed_state: None,
            detail_panel: None,
            filter: String::new(),
            loading: false,
            machines_partial: false,
            history_partial: false,
            history_pages: HISTORY_PAGE_STEP,
            executions_partial: false,
            exec_token: None,
            exec_status: None,
            state: ListState::new(Some(0)),
        }
    }

    /// How many rows the filter shows.
    pub fn visible_len(&self) -> (r: usize)
        ensures
            r == self.model().visible(),
    {
        match self.level {
            Level::Machines => list::filtered(&self.machines, self.filter.as_str()).len(),
            Level::Executions { .. } => list::filtered(&self.executions, self.filter.as_str()).len(),
            Level::Detail { .. } => list::filtered(&self.history, self.filter.as_str()).len(),
        }
    }

    fn clamp_selection(&mut self)
        ensures
            final(self).model() == old(self).model().clamped(),
    {
        let len: usize = self.visible_len();
        self.state.clamp(len);
    }

    /// The selected state of the timeline.
    pub fn selected_state_span(&self) -> (r: Option<&StateSpanDto>)
        ensures
            match r {
                Some(span) => self.model().span() == Some(*span),
                None => self.model().span() is None,
            },
    {
        match self.level {
            Level::Detail { .. } => list::pick(&self.history, self.filter.as_str(), self.state.selected),
            _ => None,
        }
    }

    fn enter_machine(&mut self, machine_arn: &String, machine_name: &String, machine_type: MachineType)
        ensures
            final(self).model() == old(self).model().entering_machine(machine_arn@, machine_name@, machine_type),
    {
        self.level = Level::Executions {
            machine_arn: machine_arn.clone(),
            machine_name: machine_name.clone(),
            machine_type,
        };
        self.executions = Vec::new();
        self.executions_partial = false;
        self.exec_token = None;
        self.exec_status = None;
        self.state.select(Some(0));
        self.loading = machine_type == MachineType::Standard;
    }

    fn enter_execution(
        &mut self,
        machine_arn: &String,
        machine_name: &String,
        machine_type: MachineType,
        execution_arn: &String,
    )
        ensures
            final(self).model() == old(self).model().entering_execution(
                machine_arn@,
                machine_name@,
                machine_type,
                execution_arn@,
            ),
    {
        self.level = Level::Detail {
            machine_arn: machine_arn.clone(),
            machine_name: machine_name.clone(),
            machine_type,
            execution_arn: execution_arn.clone(),
        };
        self.detail = None;
        self.history = Vec::new();
        self.failed_state = None;
        self.history_partial = false;
        self.history_pages = HISTORY_PAGE_STEP;
        self.loading = true;
        self.state.select(Some(0));
    }

    fn drill(&mut self) -> (r: Vec<Action>)
        ensures
            (final(self).model(), r.deep_view()) == old(self).model().drilled(),
    {
        match &self.level {
            Level::Machines => {
                let m = match list::pick(&self.machines, self.filter.as_str(), self.state.selected) {
                    Some(m) => m.clone(),
                    None => return nothing(),
                };
                self.enter_machine(&m.arn, &m.name, m.machine_type);
                if m.machine_type == MachineType::Express {
                    vec![Action::ClearFilter]
                } else {
                    vec![Action::ClearFilter, Action::LoadExecutions { machine_arn: m.arn, status: None, token: None }]
                }
            },
            Level::Executions { machine_arn, machine_name, machine_type } => {
                let arn = match list::pick(&self.executions, self.filter.as_str(), self.state.selected) {
                    Some(e) => e.arn.clone(),
                    None => return nothing(),
                };
                let (machine_arn, machine_name) = (machine_arn.clone(), machine_name.clone());
                let machine_type = *machine_type;
                self.enter_execution(&machine_arn, &machine_name, machine_type, &arn);
                vec![Action::ClearFilter, Action::LoadExecutionDetail { execution_arn: arn }]
            },
            Level::Detail { .. } => nothing(),
        }
    }

    fn back(&mut self) -> (r: Vec<Action>)
        ensures
            (final(self).model(), r.deep_view()) == old(self).model().backed(),
    {
        self.detail_panel = None;
        match &self.level {
            Level::Detail { machine_arn, machine_name, machine_type, .. } => {
                let (machine_arn, machine_name) = (machine_arn.clone(), machine_name.clone());
                let machine_type = *machine_type;
                self.level = Level::Executions { machine_arn, machine_name, machine_type };
                self.detail = None;
                self.history = Vec::new();
                self.failed_state = None;
                self.history_partial = false;
                self.loading = false;
                self.state.select(Some(0));
                self.clamp_selection();
                vec![Action::ClearFilter]
            },
            Level::Executions { .. } => {
                self.level = Level::Machines;
                self.loading = false;
                self.state.select(Some(0));
                self.clamp_selection();
                vec![Action::ClearFilter]
            },
            Level::Machines => vec![Action::Back],
        }
    }

    fn refresh(&mut self) -> (r: Vec<Action>)
        ensures
            (final(self).model(), r.deep_view()) == old(self).model().refreshed(),
    {
        match &self.level {
            Level::Machines => {
                self.loading = true;
                vec![Action::LoadStateMachines]
            },
            Level::Executions { machine_arn, machine_type, .. } => {
                if *machine_type == MachineType::Express {
                    self.loading = false;
                    nothing()
                } else {
                    let machine_arn = machine_arn.clone();
                    self.exec_token = None;
                    self.loading = true;
                    vec![Action::LoadExecutions { machine_arn, status: self.exec_status, token: None }]
                }
            },
            Level::Detail { execution_arn, .. } => {
                let execution_arn = execution_arn.clone();
                self.loading = true;
                vec![Action::LoadExecutionDetail { execution_arn }]
            },
        }
    }

    fn load_more(&mut self) -> (r: Vec<Action>)
        ensures
            (final(self).model(), r.deep_view()) == old(self).model().extended(),
    {
        match &self.level {
            Level::Machines => nothing(),
            Level::Executions { machine_arn, machine_type, .. } => {
                let token = match &self.exec_token {
                    Some(token) => token.clone(),
                    None => return nothing(),
                };
                if *machine_type == MachineType::Express {
                    return nothing();
                }
                let machine_arn = machine_arn.clone();
                self.loading = true;
                vec![Action::LoadExecutions { machine_arn, status: self.exec_status, token: Some(token) }]
            },
            Level::Detail { execution_arn, .. } => {
                if !self.history_partial {
                    return nothing();
                }
                let execution_arn = execution_arn.clone();
                self.history_pages = self.history_pages.saturating_add(HISTORY_PAGE_STEP);
                self.loading = true;
                vec![Action::LoadMoreExecutionHistory { execution_arn, page_budget: self.history_pages }]
            },
        }
    }

    fn set_exec_status(&mut self, arg: &str) -> (r: Vec<Action>)
        ensures
            (final(self).model(), r.deep_view()) == (match old(self).model().level {
                Level::Executions { machine_arn, machine_type, .. } => if machine_type == MachineType::Express {
                    (old(self).model(), seq![])
                } else {
                    match status_named(arg@) {
                        Some(status) => (
                            SfnModel {
                                exec_status: status,
                                exec_token: None,
                                executions: Seq::empty(),
                                executions_partial: false,
                                selected: Some(0usize),
                                loading: true,
                                ..old(self).model()
                            },
                            seq![ActionText::LoadExecutions { machine_arn, status, token: None }],
                        ),
                        None => (old(self).model(), seq![]),
                    }
                },
                _ => (old(self).model(), seq![]),
            }),
    {
        let machine_arn = match &self.level {
            Level::Executions { machine_arn, machine_type, .. } => {
                if *machine_type == MachineType::Express {
                    return nothing();
                }
                machine_arn.clone()
            },
            _ => return nothing(),
        };
        let status = match named_status(arg) {
            Some(status) => status,
            None => return nothing(),
        };
        self.exec_status = status;
        self.exec_token = None;
        self.executions = Vec::new();
        self.executions_partial = false;
        self.state.select(Some(0));
        self.loading = true;
        vec![Action::LoadExecutions { machine_arn, status, token: None }]
    }

    fn can_redrive(&self) -> (r: bool)
        ensures
            r == self.model().can_redrive(),
    {
        match (&self.level, &self.detail) {
            (Level::Detail { .. }, Some(d)) => d.status.is_redrivable(),
            _ => false,
        }
    }

    fn redrive_intent(&self) -> (r: Vec<Action>)
        ensures
            r.deep_view() == (match self.model().level {
                Level::Detail { execution_arn, .. } => if self.model().can_redrive() {
                    seq![ActionText::RedriveExecution { execution_arn }]
                } else {
                    seq![]
                },
                _ => seq![],
            }),
    {
        match &self.level {
            Level::Detail { execution_arn, .. } => {
                if self.can_redrive() {
                    vec![Action::RedriveExecution { execution_arn: execution_arn.clone() }]
                } else {
                    nothing()
                }
            },
            _ => nothing(),
        }
    }

    fn lambda_window(&self, span: &StateSpanDto) -> (r: LogWindow)
        ensures
            r == self.model().lambda_window(*span),
    {
        match widened(span.entered_ts, span.exited_ts) {
            Some(w) => w,
            None => match &self.detail {
                Some(d) => match widened(d.start_ts, d.stop_ts) {
                    Some(w) => w,
                    None => LogWindow::Last(3_600_000),
                },
                None => LogWindow::Last(3_600_000),
            },
        }
    }

    fn open_lambda_logs(&self) -> (r: Vec<Action>)
        ensures
            r.deep_view() == self.model().lambda_logs(),
    {
        let span = match self.selected_state_span() {
            Some(span) => span,
            None => return nothing(),
        };
        let group = match &span.resource_arn {
            Some(arn) => match lambda_log_group_from_arn(arn.as_str()) {
                Some(group) => group,
                None => return nothing(),
            },
            None => return nothing(),
        };
        let window = self.lambda_window(span);
        vec![
            Action::ActivateViewWithContext {
                id: "logs".to_string(),
                context: ViewContext::LogGroupTail { group, window },
            },
        ]
    }

    fn open_state_io(&mut self)
        ensures
            final(self).model() == old(self).model().expanded(),
    {
        let panel = match self.selected_state_span() {
            Some(span) => DetailPanel::new(span.name.as_str(), state_io(span).as_str()),
            None => return,
        };
        self.detail_panel = Some(panel);
    }

    fn current_arn(&self) -> (r: Option<String>)
        ensures
            r.deep_view() == self.model().current_arn(),
    {
        match &self.level {
            Level::Machines => match list::pick(&self.machines, self.filter.as_str(), self.state.selected) {
                Some(m) => Some(m.arn.clone()),
                None => None,
            },
            Level::Executions { .. } => match list::pick(&self.executions, self.filter.as_str(), self.state.selected) {
                Some(e) => Some(e.arn.clone()),
                None => None,
            },
            Level::Detail { execution_arn, .. } => Some(execution_arn.clone()),
        }
    }

    fn is_listing(&self, arn: &String) -> (r: bool)
        ensures
            r == self.model().lists(arn@),
    {
        match &self.level {
            Level::Executions { machine_arn, .. } => *machine_arn == *arn,
            _ => false,
        }
    }

    fn is_showing(&self, arn: &String) -> (r: bool)
        ensures
            r == self.model().shows(arn@),
    {
        match &self.level {
            Level::Detail { execution_arn, .. } => *execution_arn == *arn,
            _ => false,
        }
    }

    fn row_after(&self, history: &Vec<StateSpanDto>, failed: &Option<String>) -> (r: usize)
        ensures
            r == self.model().row_after(history@, failed.deep_view()),
    {
        let before = match self.selected_state_span() {
            Some(span) => find_state(history, self.filter.as_str(), span.name.as_str()),
            None => None,
        };
        match before {
            Some(row) => row,
            None => {
                let broken = match failed {
                    Some(name) => find_state(history, self.filter.as_str(), name.as_str()),
                    None => None,
                };
                match broken {
                    Some(row) => row,
                    None => 0,
                }
            },
        }
    }

    /// Caption of the list of machines.
    pub fn machines_title(&self) -> (r: String)
        ensures
            r@ == self.model().machines_title(),
    {
        let partial = if self.machines_partial { " · parcial" } else { "" };
        let mut out = " ".to_string();
        if self.filter.as_str().is_empty() {
            out.append(text::dec_text(self.machines.len() as u64).as_str());
            out.append(" state machines");
            out.append(partial);
            out.append(" ");
        } else {
            let rows: usize = list::filtered(&self.machines, self.filter.as_str()).len();
            out.append(text::dec_text(rows as u64).as_str());
            out.append("/");
            out.append(text::dec_text(self.machines.len() as u64).as_str());
            out.append(" state machines");
            out.append(partial);
            out.append(" · filtro: ");
            out.append(self.filter.as_str());
            out.append(" ");
        }
        out
    }

    /// Caption of the list of executions.
    pub fn executions_title(&self) -> (r: String)
        ensures
            r@ == self.model().executions_title(),
    {
        let name = match &self.level {
            Level::Executions { machine_name, .. } => machine_name.as_str(),
            Level::Detail { machine_name, .. } => machine_name.as_str(),
            Level::Machines => "",
        };
        let partial = if self.executions_partial { " · parcial · o: más" } else { "" };
        let status = match self.exec_status {
            Some(s) => {
                let mut only = " · solo ".to_string();
                only.append(s.label());
                only
            },
            None => "".to_string(),
        };
        let mut out = " ".to_string();
        out.append(name);
        out.append(" · ");
        if self.filter.as_str().is_empty() {
            out.append(text::dec_text(self.executions.len() as u64).as_str());
            out.append(" ejecuciones");
            out.append(status.as_str());
            out.append(partial);
            out.append(" ");
        } else {
            let rows: usize = list::filtered(&self.executions, self.filter.as_str()).len();
            out.append(text::dec_text(rows as u64).as_str());
            out.append("/");
            out.append(text::dec_text(self.executions.len() as u64).as_str());
            out.append(status.as_str());
            out.append(partial);
            out.append(" · filtro: ");
            out.append(self.filter.as_str());
            out.append(" ");
        }
        out
    }

    /// Caption of the timeline.
    pub fn timeline_title(&self) -> (r: String)
        ensures
            r@ == self.model().timeline_title(),
    {
        let failed = match &self.detail {
            Some(d) => d.status.is_redrivable(),
            None => false,
        };
        let redrive = if failed { " · [R] redrive" } else { "" };
        let partial = if self.history_partial { " · parcial · o: más" } else { "" };
        let mut out = " timeline · ".to_string();
        if self.filter.as_str().is_empty() {
            out.append(text::dec_text(self.history.len() as u64).as_str());
            out.append(" estados");
            out.append(partial);
            out.append(redrive);
            out.append(" ");
        } else {
            let rows: usize = list::filtered(&self.history, self.filter.as_str()).len();
            out.append(text::dec_text(rows as u64).as_str());
            out.append("/");
            out.append(text::dec_text(self.history.len() as u64).as_str());
            out.append(" estados · filtro: ");
            out.append(self.filter.as_str());
            out.append(partial);
            out.append(redrive);
            out.append(" ");
        }
        out
    }

    /// What the list says where it is empty.
    pub fn empty_line(&self) -> (r: &'static str)
        ensures
            r@ == list::blank_text(
                self.loading,
                self.filter@,
                match self.level {
                    Level::Detail { .. } => "(sin history)"@,
                    _ => "(sin resultados)"@,
                },
            ),
    {
        let otherwise = match &self.level {
            Level::Detail { .. } => "(sin history)",
            _ => "(sin resultados)",
        };
        list::blank_msg(self.loading, self.filter.as_str(), otherwise)
    }
}

fn named_status(arg: &str) -> (r: Option<Option<ExecStatus>>)
    ensures
        r == status_named(arg@),
{
    let lower = text::to_ascii_lower(arg);
    let a = lower.as_str();
    if text::same(a, "all") || text::same(a, "todas") || text::same(a, "todos") || text::same(a, "*") {
        Some(None)
    } else if text::same(a, "failed") || text::same(a, "fail") {
        Some(Some(ExecStatus::Failed))
    } else if text::same(a, "running") || text::same(a, "run") {
        Some(Some(ExecStatus::Running))
    } else if text::same(a, "succeeded") || text::same(a, "ok") || text::same(a, "success") {
        Some(Some(ExecStatus::Succeeded))
    } else if text::same(a, "aborted") || text::same(a, "abort") {
        Some(Some(ExecStatus::Aborted))
    } else if text::same(a, "timedout") || text::same(a, "timed_out") || text::same(a, "timeout") {
        Some(Some(ExecStatus::TimedOut))
    } else {
        None
    }
}

fn shift(ts: i64, by: i64) -> (r: i64)
    ensures
        r == shifted(ts as int, by as int),
{
    match ts.checked_add(by) {
        Some(to) => to,
        None => if by < 0 { i64::MIN } else { i64::MAX },
    }
}

fn widened(from: Option<i64>, to: Option<i64>) -> (r: Option<LogWindow>)
    ensures
        r == padded_range(from, to),
{
    match from {
        Some(f) => {
            let end = match to {
                Some(t) => Some(shift(t, PAD)),
                None => None,
            };
            Some(LogWindow::Range { from: shift(f, -PAD), to: end })
        },
        None => None,
    }
}

fn io_section(label: &str, value: &Option<String>) -> (r: String)
    ensures
        r@ == io_part(label@, *value),
{
    let mut out = "=== ".to_string();
    out.append(label);
    out.append(" ===\n");
    match value {
        Some(v) => out.append(v.as_str()),
        None => out.append("(ninguno)"),
    }
    out
}

fn state_io(span: &StateSpanDto) -> (r: String)
    ensures
        r@ == io_text(*span),
{
    if span.input.is_none() && span.output.is_none() {
        return "(este estado no expone input/output)".to_string();
    }
    let mut out = io_section("input", &span.input);
    out.append("\n\n");
    out.append(io_section("output", &span.output).as_str());
    out
}

/// The row of a state by its name.
fn find_state(history: &Vec<StateSpanDto>, filter: &str, name: &str) -> (r: Option<usize>)
    ensures
        r == row_of_state(history@, filter@, Some(name@)),
{
    let rows = list::filtered(history, filter);
    let ghost shown = list::shown(history@, filter@);
    let mut k: usize = 0;
    while k < rows.len()
        invariant
            k <= rows@.len(),
            shown == list::shown(history@, filter@),
            rows@.len() == shown.len(),
            forall|j: int| 0 <= j < rows@.len() ==> #[trigger] rows@[j] < history@.len() && rows@[j] == shown[j],
            row_named(history@, shown, name@, k as int) == row_named(history@, shown, name@, 0),
        decreases rows@.len() - k,
    {
        let row: usize = rows[k];
        assert(row == shown[k as int]);
        if text::same(history[row].name.as_str(), name) {
            return Some(k);
        }
        k = k + 1;
    }
    None
}

impl DeckView for SfnView {
    type Model = SfnModel;

    open spec fn model(&self) -> SfnModel {
        SfnModel {
            level: self.level.deep_view(),
            machines: self.machines@,
            executions: self.executions@,
            detail: self.detail,
            history: self.history@,
            failed_state: self.failed_state.deep_view(),
            panel: self.detail_panel.deep_view(),
            filter: self.filter@,
            loading: self.loading,
            machines_partial: self.machines_partial,
            history_partial: self.history_partial,
            history_pages: self.history_pages,
            executions_partial: self.executions_partial,
            exec_token: self.exec_token.deep_view(),
            exec_status: self.exec_status,
            selected: self.state.selected,
        }
    }

    open spec fn wf(&self) -> bool {
        true
    }

    open spec fn id_text(m: SfnModel) -> Text {
        "sfn"@
    }

    open spec fn description_text(m: SfnModel) -> Text {
        "Step Functions: ejecuciones, timeline, redrive"@
    }

    open spec fn title_text(m: SfnModel) -> Text {
        m.title()
    }

    open spec fn activated(m: SfnModel) -> (SfnModel, Seq<ActionText>) {
        (m.activated(), seq![ActionText::LoadStateMachines])
    }

    open spec fn opened(m: SfnModel, context: ViewContext<Text>) -> (SfnModel, Seq<ActionText>) {
        match context {
            ViewContext::Favorite { key } => m.opened_at(key),
            _ => Self::activated(m),
        }
    }

    open spec fn keyed(m: SfnModel, key: KeyEvent) -> (SfnModel, Seq<ActionText>) {
        m.keyed(key)
    }

    open spec fn informed(m: SfnModel, message: Message) -> SfnModel {
        m.informed(message)
    }

    open spec fn narrowed(m: SfnModel, filter: Text) -> SfnModel {
        SfnModel { filter, selected: Some(0usize), ..m }.clamped()
    }

    open spec fn searched(m: SfnModel, query: Text) -> (SfnModel, Seq<ActionText>) {
        (m, seq![])
    }

    open spec fn commanded(m: SfnModel, cmd: Text) -> (SfnModel, Seq<ActionText>) {
        m.commanded(cmd)
    }

    open spec fn ticked(m: SfnModel) -> (SfnModel, Seq<ActionText>) {
        (m, seq![])
    }

    open spec fn takes_raw_input(m: SfnModel) -> bool {
        false
    }

    open spec fn favorite(m: SfnModel) -> Option<(Text, Text)> {
        m.favorite()
    }

    open spec fn hint_texts(m: SfnModel) -> Seq<(Text, Text)> {
        m.hints()
    }

    open spec fn at_root(m: SfnModel) -> bool {
        m.level is Machines && m.panel is None
    }

    proof fn law_esc_at_root_goes_back(m: SfnModel, key: KeyEvent) {
    }

    fn id(&self) -> (r: &'static str) {
        "sfn"
    }

    fn description(&self) -> (r: &'static str) {
        "Step Functions: ejecuciones, timeline, redrive"
    }

    fn title(&self) -> (r: String) {
        match &self.level {
            Level::Machines => "sfn".to_string(),
            Level::Executions { machine_name, .. } => {
                let mut out = "sfn / ".to_string();
                out.append(machine_name.as_str());
                out
            },
            Level::Detail { machine_name, execution_arn, .. } => {
                let mut out = "sfn / ".to_string();
                out.append(machine_name.as_str());
                out.append(" / ");
                out.append(text::last_part(execution_arn.as_str(), ':').as_str());
                out
            },
        }
    }

    fn on_activate(&mut self) -> (r: Vec<Action>) {
        self.level = Level::Machines;
        self.executions = Vec::new();
        self.exec_token = None;
        self.exec_status = None;
        self.detail = None;
        self.history = Vec::new();
        self.failed_state = None;
        self.detail_panel = None;
        self.loading = true;
        self.machines_partial = false;
        self.history_partial = false;
        self.history_pages = HISTORY_PAGE_STEP;
        self.executions_partial = false;
        self.state.select(Some(0));
        vec![Action::LoadStateMachines]
    }

    fn on_context(&mut self, context: &ViewContext) -> (r: Vec<Action>) {
        let fresh = self.on_activate();
        match context {
            ViewContext::Favorite { key } => match split_key(key.as_str()) {
                Some((machine_arn, execution_arn)) => {
                    let machine_name = text::last_part(machine_arn.as_str(), ':');
                    self.enter_execution(&machine_arn, &machine_name, MachineType::Standard, &execution_arn);
                    vec![Action::LoadExecutionDetail { execution_arn }]
                },
                None => {
                    let machine_name = text::last_part(key.as_str(), ':');
                    self.enter_machine(key, &machine_name, MachineType::Standard);
                    vec![Action::LoadExecutions { machine_arn: key.clone(), status: None, token: None }]
                },
            },
            _ => fresh,
        }
    }

    fn on_key(&mut self, key: KeyEvent) -> (r: Vec<Action>) {
        if self.detail_panel.is_some() {
            let mut panel = self.detail_panel.take().unwrap();
            if key.code == KeyCode::Char('y') {
                let text = panel.content().to_string();
                self.detail_panel = Some(panel);
                return vec![Action::CopyToClipboard { text }];
            }
            let close = panel.on_key(key);
            if !close {
                self.detail_panel = Some(panel);
            }
            return nothing();
        }
        match key.code {
            KeyCode::Char('j') | KeyCode::Down => {
                let len: usize = self.visible_len();
                self.state.down(len);
                nothing()
            },
            KeyCode::Char('k') | KeyCode::Up => {
                let len: usize = self.visible_len();
                self.state.up(len);
                nothing()
            },
            KeyCode::Char('g') | KeyCode::Home => {
                let len: usize = self.visible_len();
                self.state.to_edge(len, false);
                nothing()
            },
            KeyCode::Char('G') | KeyCode::End => {
                let len: usize = self.visible_len();
                self.state.to_edge(len, true);
                nothing()
            },
            KeyCode::Enter => match self.level {
                Level::Detail { .. } => {
                    self.open_state_io();
                    nothing()
                },
                _ => self.drill(),
            },
            KeyCode::Esc => self.back(),
            KeyCode::Char('r') => self.refresh(),
            KeyCode::Char('o') => self.load_more(),
            KeyCode::Char('R') => self.redrive_intent(),
            KeyCode::Char('l') => self.open_lambda_logs(),
            KeyCode::Char('y') => match self.current_arn() {
                Some(text) => vec![Action::CopyToClipboard { text }],
                None => nothing(),
            },
            KeyCode::Char('O') => match self.current_arn() {
                Some(arn) => {
                    let target = match self.level {
                        Level::Machines => ConsoleTarget::StateMachine { arn },
                        _ => ConsoleTarget::Execution { arn },
                    };
                    vec![Action::OpenConsole { target }]
                },
                None => nothing(),
            },
            _ => nothing(),
        }
    }

    fn on_message(&mut self, message: &Message) {
        match message {
            Message::StateMachinesLoaded { machines, more } => {
                self.machines = machines.clone();
                assert(self.machines@ =~= machines@);
                self.machines_partial = *more;
                let listed = match self.level {
                    Level::Machines => true,
                    _ => false,
                };
                if listed {
                    self.loading = false;
                    self.clamp_selection();
                }
            },
            Message::ExecutionsLoaded { machine_arn, executions, next_token, append } => {
                if self.is_listing(machine_arn) {
                    let mut page = executions.clone();
                    assert(page@ =~= executions@);
                    if *append {
                        self.executions.append(&mut page);
                    } else {
                        self.executions = page;
                    }
                    self.exec_token = next_token.clone();
                    self.executions_partial = next_token.is_some();
                    self.loading = false;
                    self.clamp_selection();
                }
            },
            Message::ExecutionDetailLoaded { execution_arn, detail, history, failed_state, history_more } => {
                if self.is_showing(execution_arn) {
                    let row: usize = self.row_after(history, failed_state);
                    self.detail = Some(detail.clone());
                    self.history = history.clone();
                    assert(self.history@ =~= history@);
                    self.failed_state = failed_state.clone();
                    self.history_partial = *history_more;
                    self.loading = false;
                    self.state.select(Some(row));
                    self.clamp_selection();
                }
            },
            Message::ExecutionRedriven { execution_arn } => {
                if self.is_showing(execution_arn) {
                    self.loading = true;
                }
            },
            Message::Error { .. } => {
                self.loading = false;
            },
            _ => {},
        }
    }

    fn set_filter(&mut self, filter: &str) {
        self.filter = filter.to_string();
        self.state.select(Some(0));
        self.clamp_selection();
    }

    fn search(&mut self, query: &str) -> (r: Vec<Action>) {
        nothing()
    }

    fn on_command(&mut self, cmd: &str) -> (r: Vec<Action>) {
        match text::strip_prefix(cmd, "status ") {
            Some(arg) => {
                let arg = text::trim(arg.as_str());
                self.set_exec_status(arg.as_str())
            },
            None => nothing(),
        }
    }

    fn on_tick(&mut self) -> (r: Vec<Action>) {
        nothing()
    }

    fn wants_raw_input(&self) -> (r: bool) {
        false
    }

    fn selected_favorite(&self) -> (r: Option<(String, String)>) {
        match &self.level {
            Level::Machines => match list::pick(&self.machines, self.filter.as_str(), self.state.selected) {
                Some(m) => {
                    if m.machine_type == MachineType::Express {
                        None
                    } else {
                        Some((m.arn.clone(), m.name.clone()))
                    }
                },
                None => None,
            },
            Level::Executions { machine_arn, machine_name, .. } => match list::pick(
                &self.executions,
                self.filter.as_str(),
                self.state.selected,
            ) {
                Some(e) => {
                    let mut label = machine_name.clone();
                    label.append(" · ");
                    label.append(e.name.as_str());
                    Some((join_key(machine_arn.as_str(), e.arn.as_str()), label))
                },
                None => None,
            },
            Level::Detail { machine_arn, machine_name, execution_arn, .. } => {
                let mut label = machine_name.clone();
                label.append(" · ");
                label.append(text::last_part(execution_arn.as_str(), ':').as_str());
                Some((join_key(machine_arn.as_str(), execution_arn.as_str()), label))
            },
        }
    }

    fn hints(&self) -> (r: Vec<(&'static str, &'static str)>) {
        match &self.detail_panel {
            Some(p) => p.hints(),
            None => {
                let (in_executions, in_detail) = match self.level {
                    Level::Machines => (false, false),
                    Level::Executions { .. } => (true, false),
                    Level::Detail { .. } => (false, true),
                };
                let (has_io, has_lambda) = match self.selected_state_span() {
                    Some(s) => (s.input.is_some() || s.output.is_some(), s.resource_arn.is_some()),
                    None => (false, false),
                };
                let mut hints: Vec<(&'static str, &'static str)> = vec![("y", "copiar ARN"), ("O", "consola")];
                announce(&mut hints, in_executions, ":status", "filtrar (failed/all)");
                announce(&mut hints, in_executions && self.executions_partial, "o", "más");
                announce(&mut hints, has_io, "enter", "in/out");
                announce(&mut hints, in_detail && self.history_partial, "o", "más history");
                announce(&mut hints, has_lambda, "l", "logs Lambda");
                announce(&mut hints, self.can_redrive(), "R", "redrive");
                hints
            },
        }
    }
}

// --- rows ------------------------------------------------------------------------------------

/// The colour of a status.
pub open spec fn color_of(s: ExecStatus) -> Color {
    match s {
        ExecStatus::Succeeded => Color::Green,
        ExecStatus::Failed | ExecStatus::TimedOut | ExecStatus::Aborted => Color::Red,
        ExecStatus::Running => Color::Yellow,
        ExecStatus::PendingRedrive => Color::Cyan,
    }
}

/// The colour of a status.
pub fn status_color(s: ExecStatus) -> (r: Color)
    ensures
        r == color_of(s),
{
    match s {
        ExecStatus::Succeeded => Color::Green,
        ExecStatus::Failed | ExecStatus::TimedOut | ExecStatus::Aborted => Color::Red,
        ExecStatus::Running => Color::Yellow,
        ExecStatus::PendingRedrive => Color::Cyan,
    }
}

/// A length of time for reading, in its two leading units; a dash where it is negative.
pub open spec fn dur_text(ms: int) -> Text {
    let secs = ms / 1000;
    if ms < 0 {
        "—"@
    } else if secs < 60 {
        text::decimal(secs as nat) + "."@ + text::decimal(((ms % 1000) / 100) as nat) + "s"@
    } else if secs < 3600 {
        text::decimal((secs / 60) as nat) + "m "@ + text::decimal((secs % 60) as nat) + "s"@
    } else {
        text::decimal((secs / 3600) as nat) + "h "@ + text::decimal(((secs % 3600) / 60) as nat) + "m"@
    }
}

fn length_text(ms: u64) -> (r: String)
    ensures
        r@ == dur_text(ms as int),
{
    let secs: u64 = ms / 1000;
    if secs < 60 {
        let mut out = text::dec_text(secs);
        out.append(".");
        out.append(text::dec_text((ms % 1000) / 100).as_str());
        out.append("s");
        out
    } else if secs < 3600 {
        let mut out = text::dec_text(secs / 60);
        out.append("m ");
        out.append(text::dec_text(secs % 60).as_str());
        out.append("s");
        out
    } else {
        let mut out = text::dec_text(secs / 3600);
        out.append("h ");
        out.append(text::dec_text((secs % 3600) / 60).as_str());
        out.append("m");
        out
    }
}

/// A length of time for reading: `3.4s`, `2m 5s`, `1h 12m`.
pub fn fmt_dur(ms: i64) -> (r: String)
    ensures
        r@ == dur_text(ms as int),
{
    if ms < 0 {
        "—".to_string()
    } else {
        length_text(ms as u64)
    }
}

/// How long something took from one instant to another.
pub open spec fn elapsed_text(start: i64, stop: i64) -> Text {
    dur_text(stop - start)
}

fn elapsed(start: i64, stop: i64) -> (r: String)
    ensures
        r@ == elapsed_text(start, stop),
{
    if stop < start {
        "—".to_string()
    } else {
        length_text((stop as i128 - start as i128) as u64)
    }
}

/// How long an execution took, or that it has not ended.
pub open spec fn duration_text(start: Option<i64>, stop: Option<i64>) -> Text {
    match (start, stop) {
        (Some(a), Some(b)) => elapsed_text(a, b),
        (Some(_), None) => "en curso"@,
        _ => "—"@,
    }
}

/// How long an execution took, or that it has not ended.
pub fn duration_label(start: Option<i64>, stop: Option<i64>) -> (r: String)
    ensures
        r@ == duration_text(start, stop),
{
    match (start, stop) {
        (Some(a), Some(b)) => elapsed(a, b),
        (Some(_), None) => "en curso".to_string(),
        _ => "—".to_string(),
    }
}

/// An instant, or a dash where it is not known.
pub open spec fn when_text(ts: Option<i64>) -> Text {
    match ts {
        Some(ts) => util::instant_text(ts as int),
        None => "—"@,
    }
}

fn when_label(ts: Option<i64>) -> (r: String)
    ensures
        r@ == when_text(ts),
{
    match ts {
        Some(ts) => fmt_epoch_millis(ts),
        None => "—".to_string(),
    }
}

/// A payload on one line, cut to `max` characters.
pub open spec fn flat_text(s: Text, max: nat) -> Text {
    text::cut_to(text::collapsed(s), max)
}

/// A payload on one line, cut to `max` characters.
pub fn oneline(s: &str, max: usize) -> (r: String)
    ensures
        r@ == flat_text(s@, max as nat),
{
    let flat = text::collapse(s);
    text::cut(flat.as_str(), max)
}

/// A label and a payload on one line, where there is one.
pub open spec fn payload_row(label: Text, value: Option<String>) -> Seq<(Text, Text)> {
    match value {
        Some(v) => seq![(label, flat_text(v@, 80))],
        None => seq![],
    }
}

pub(crate) fn push_payload(rows: &mut Vec<(&'static str, String)>, label: &'static str, value: &Option<String>)
    ensures
        final(rows).deep_view() == old(rows).deep_view() + payload_row(label@, *value),
{
    match value {
        Some(v) => {
            rows.push((label, oneline(v.as_str(), 80)));
        },
        None => {},
    }
    proof {
        assert(rows.deep_view() =~= old(rows).deep_view() + payload_row(label@, *value));
    }
}

/// When an execution started, how long it took, and how often it was redriven.
pub open spec fn run_text(d: ExecutionDetailDto) -> Text {
    "inicio "@ + when_text(d.start_ts) + "   duración "@ + duration_text(d.start_ts, d.stop_ts) + (
    match d.redrive_count {
        Some(n) => if n > 0 { "   redrive "@ + text::int_text(n as int) } else { ""@ },
        None => ""@,
    })
}

impl SfnModel {
    /// The head of the detail as labels and values, `None` while it is not known.
    pub open spec fn detail_rows(self) -> Option<Seq<(Text, Text)>> {
        match self.detail {
            None => None,
            Some(d) => Some(
                seq![("status"@, run_text(d))] + payload_row("error"@, d.error) + payload_row("cause"@, d.cause)
                    + payload_row("input"@, d.input) + payload_row("output"@, d.output),
            ),
        }
    }
}

impl SfnView {
    /// The head of the detail as labels and values, `None` while it is not known.
    pub fn detail_rows(&self) -> (r: Option<Vec<(&'static str, String)>>)
        ensures
            r.deep_view() == self.model().detail_rows(),
    {
        match &self.detail {
            None => None,
            Some(d) => {
                let mut run = "inicio ".to_string();
                run.append(when_label(d.start_ts).as_str());
                run.append("   duración ");
                run.append(duration_label(d.start_ts, d.stop_ts).as_str());
                match d.redrive_count {
                    Some(n) => {
                        if n > 0 {
                            let mut times = "   redrive ".to_string();
                            times.append(text::signed_text(n).as_str());
                            run.append(times.as_str());
                        } else {
                            run.append("");
                        }
                    },
                    None => run.append(""),
                }
                let mut rows: Vec<(&'static str, String)> = vec![("status", run)];
                push_payload(&mut rows, "error", &d.error);
                push_payload(&mut rows, "cause", &d.cause);
                push_payload(&mut rows, "input", &d.input);
                push_payload(&mut rows, "output", &d.output);
                Some(rows)
            },
        }
    }
}

/// What the row of a machine says: its name, its type, and when it was created.
pub open spec fn machine_texts(m: StateMachineDto) -> (Text, Text, Text) {
    (
        m.name@,
        if m.machine_type == MachineType::Express { "[express]"@ } else { "[standard]"@ },
        when_text(m.created_ts),
    )
}

/// What the row of an execution says: its status, its name, and when it started and how long it took.
pub open spec fn execution_texts(e: ExecutionDto) -> (Text, Text, Text) {
    (e.status.name(), e.name@, when_text(e.start_ts) + "  "@ + duration_text(e.start_ts, e.stop_ts))
}

/// What the row of a state says: its name, marked where it failed, and how long it took.
pub open spec fn span_texts(s: StateSpanDto) -> (Text, Text) {
    (
        (if s.failed { "✗ "@ } else { "  "@ }) + s.name@,
        match (s.entered_ts, s.exited_ts) {
            (Some(a), Some(b)) => elapsed_text(a, b),
            _ => "—"@,
        },
    )
}

/// The row of a machine: its name, its type, and when it was created.
pub fn machine_row(m: &StateMachineDto) -> (r: (String, &'static str, String))
    ensures
        (r.0@, r.1@, r.2@) == machine_texts(*m),
        r.0@ == m.name@,
        r.1@ == (if m.machine_type == MachineType::Express { "[express]"@ } else { "[standard]"@ }),
        r.2@ == when_text(m.created_ts),
{
    let badge = match m.machine_type {
        MachineType::Express => "[express]",
        MachineType::Standard => "[standard]",
    };
    (m.name.clone(), badge, when_label(m.created_ts))
}

/// The row of an execution: its status, its name, and when it started and how long it took.
pub fn execution_row(e: &ExecutionDto) -> (r: (&'static str, String, String))
    ensures
        (r.0@, r.1@, r.2@) == execution_texts(*e),
        r.0@ == e.status.name(),
        r.1@ == e.name@,
        r.2@ == when_text(e.start_ts) + "  "@ + duration_text(e.start_ts, e.stop_ts),
{
    let mut when = when_label(e.start_ts);
    when.append("  ");
    when.append(duration_label(e.start_ts, e.stop_ts).as_str());
    (e.status.label(), e.name.clone(), when)
}

/// The row of a state: its name, marked where it failed, and how long it took.
pub fn span_row(s: &StateSpanDto) -> (r: (String, String))
    ensures
        (r.0@, r.1@) == span_texts(*s),
        r.0@ == (if s.failed { "✗ "@ } else { "  "@ }) + s.name@,
        r.1@ == (match (s.entered_ts, s.exited_ts) {
            (Some(a), Some(b)) => elapsed_text(a, b),
            _ => "—"@,
        }),
{
    let took = match (s.entered_ts, s.exited_ts) {
        (Some(a), Some(b)) => elapsed(a, b),
        _ => "—".to_string(),
    };
    let mut name = (if s.failed { "✗ " } else { "  " }).to_string();
    name.append(s.name.as_str());
    (name, took)
}

// --- laws ------------------------------------------------------------------------------------

/// Results about another machine or another execution than the one on screen change nothing.
pub proof fn law_other_resources_are_ignored(m: SfnModel, message: Message)
    requires
        match message {
            Message::ExecutionsLoaded { machine_arn, .. } => !m.lists(machine_arn@),
            Message::ExecutionDetailLoaded { execution_arn, .. } => !m.shows(execution_arn@),
            Message::ExecutionRedriven { execution_arn } => !m.shows(execution_arn@),
            _ => false,
        },
    ensures
        m.informed(message) == m,
{
}

/// The view wants to redrive no execution but the one on screen, and that only after it ended in
/// failure.
pub proof fn law_only_failed_executions_are_redriven(m: SfnModel, key: KeyEvent, i: int)
    requires
        0 <= i < m.keyed(key).1.len(),
    ensures
        m.keyed(key).1[i] matches Action::RedriveExecution { execution_arn } ==> m.shows(execution_arn)
            && m.can_redrive(),
{
}

/// Nothing is ever asked for about the executions of an express machine.
pub proof fn law_express_machines_list_no_executions(m: SfnModel, key: KeyEvent, cmd: Text, i: int)
    requires
        m.level matches Level::Executions { machine_type, .. } && machine_type == MachineType::Express,
    ensures
        0 <= i < m.keyed(key).1.len() ==> !(m.keyed(key).1[i] is LoadExecutions),
        m.commanded(cmd) == (m, Seq::<ActionText>::empty()),
{
}

/// `Esc` takes the view up one level, keeps the lists of that level, and forgets the filter.
pub proof fn law_esc_goes_up_one_level(m: SfnModel, key: KeyEvent)
    requires
        m.panel is None,
        key.code == KeyCode::Esc,
    ensures
        m.level is Detail ==> m.keyed(key).0.level is Executions && m.keyed(key).0.executions == m.executions,
        m.level is Executions ==> m.keyed(key).0.level is Machines && m.keyed(key).0.machines == m.machines,
        !(m.level is Machines) ==> m.keyed(key).1 == seq![ActionText::ClearFilter],
{
}

/// While a machine has more executions than were loaded, `o` asks for the page that follows, with the
/// same status, and its answer goes behind those that were loaded: none is out of reach.
pub proof fn law_no_execution_is_out_of_reach(m: SfnModel, key: KeyEvent, message: Message)
    requires
        m.panel is None,
        key.code == KeyCode::Char('o'),
        m.exec_token is Some,
        m.level matches Level::Executions { machine_type, .. } && machine_type == MachineType::Standard,
        message matches Message::ExecutionsLoaded { machine_arn, append, .. } && m.lists(machine_arn@) && append,
    ensures
        message matches Message::ExecutionsLoaded { machine_arn, executions, .. } && m.keyed(key).1 == seq![
            ActionText::LoadExecutions { machine_arn: machine_arn@, status: m.exec_status, token: m.exec_token },
        ] && m.informed(message).executions == m.executions + executions@,
{
}

proof fn lemma_row_named(history: Seq<StateSpanDto>, rows: Seq<int>, name: Text, k: int, at: int)
    requires
        0 <= k <= at < rows.len() <= usize::MAX,
        history[rows[at]].name@ == name,
    ensures
        row_named(history, rows, name, k) matches Some(row) && row <= at && row < rows.len() && history[rows[row as int]].name@ == name,
    decreases at - k,
{
    if history[rows[k]].name@ != name {
        lemma_row_named(history, rows, name, k + 1, at);
    }
}

/// When more of a timeline arrives, a state with the name of the selected one is selected,
/// wherever it now stands.
pub proof fn law_more_history_keeps_the_selected_state(m: SfnModel, message: Message, at: int)
    requires
        m.span() is Some,
        match message {
            Message::ExecutionDetailLoaded { execution_arn, history, .. } => {
                let rows = list::shown(history@, m.filter);
                &&& m.shows(execution_arn@)
                &&& 0 <= at < rows.len() <= usize::MAX
                &&& history@[rows[at]].name@ == m.span()->0.name@
            },
            _ => false,
        },
    ensures
        m.informed(message).span() matches Some(s) && s.name@ == m.span()->0.name@,
{
    if let Message::ExecutionDetailLoaded { execution_arn, history, .. } = message {
        lemma_row_named(history@, list::shown(history@, m.filter), m.span()->0.name@, 0, at);
    }
}

/// The first time a timeline arrives, the state that failed is selected, where the filter shows it.
pub proof fn law_the_failed_state_is_selected_first(m: SfnModel, message: Message, at: int)
    requires
        m.span() is None,
        match message {
            Message::ExecutionDetailLoaded { execution_arn, history, failed_state, .. } => {
                let rows = list::shown(history@, m.filter);
                &&& m.shows(execution_arn@)
                &&& 0 <= at < rows.len() <= usize::MAX
                &&& failed_state matches Some(name)
                &&& history@[rows[at]].name@ == name@
            },
            _ => false,
        },
    ensures
        m.informed(message).span() matches Some(s) && Some(s.name@) == m.informed(message).failed_state,
{
    if let Message::ExecutionDetailLoaded { execution_arn, history, failed_state, .. } = message {
        lemma_row_named(history@, list::shown(history@, m.filter), failed_state->0@, 0, at);
    }
}

/// Opening the favourite of an execution shows the detail of that execution of that machine.
pub proof fn law_a_favorite_execution_opens_itself(m: SfnModel, n: SfnModel)
    requires
        m.level matches Level::Detail { machine_arn, .. } && !machine_arn.contains('\u{1f}'),
    ensures
        m.favorite() matches Some((key, _)) && m.level matches Level::Detail { machine_arn, execution_arn, .. }
            && n.opened_at(key).0.shows(execution_arn) && (n.opened_at(key).0.level matches Level::Detail {
            machine_arn: opened,
            ..
        } && opened == machine_arn),
{
    if let Level::Detail { machine_arn, execution_arn, .. } = m.level {
        views::law_deep_keys_come_apart(machine_arn, execution_arn);
    }
}

/// The lists of a view that runs fit in memory.
pub open spec fn fits_in_memory(m: SfnModel) -> bool {
    m.machines.len() <= usize::MAX && m.executions.len() <= usize::MAX && m.history.len() <= usize::MAX
}

/// Whatever happens to the view, its selection stays inside the list on screen, or on the first row
/// of a list that is still to come.
pub proof fn law_selection_stays_inside(
    m: SfnModel,
    key: KeyEvent,
    message: Message,
    context: ViewContext<Text>,
    line: Text,
)
    requires
        fits_in_memory(m),
        list::inside(m.selected, m.visible()),
    ensures
        ({
            let n = SfnView::activated(m).0;
            list::inside(n.selected, n.visible())
        }),
        ({
            let n = SfnView::opened(m, context).0;
            list::inside(n.selected, n.visible())
        }),
        ({
            let n = SfnView::keyed(m, key).0;
            list::inside(n.selected, n.visible())
        }),
        ({
            let n = SfnView::informed(m, message);
            list::inside(n.selected, n.visible())
        }),
        ({
            let n = SfnView::narrowed(m, line);
            list::inside(n.selected, n.visible())
        }),
        ({
            let n = SfnView::searched(m, line).0;
            list::inside(n.selected, n.visible())
        }),
        ({
            let n = SfnView::commanded(m, line).0;
            list::inside(n.selected, n.visible())
        }),
        ({
            let n = SfnView::ticked(m).0;
            list::inside(n.selected, n.visible())
        }),
{
    list::lemma_shown_count(m.machines, m.filter);
    list::lemma_shown_count(m.executions, m.filter);
    list::lemma_shown_count(m.history, m.filter);
    list::lemma_shown_count(m.machines, line);
    list::lemma_shown_count(m.executions, line);
    list::lemma_shown_count(m.history, line);
    match message {
        Message::StateMachinesLoaded { machines, .. } => {
            assert(machines@.len() == machines.len());
            list::lemma_shown_count(machines@, m.filter);
        },
        Message::ExecutionsLoaded { executions, .. } => {
            assert(executions@.len() == executions.len());
            list::lemma_shown_count(executions@, m.filter);
            list::lemma_shown_count(m.executions + executions@, m.filter);
        },
        Message::ExecutionDetailLoaded { history, .. } => {
            assert(history@.len() == history.len());
            list::lemma_shown_count(history@, m.filter);
        },
        _ => {},
    }
}

// --- what the keys are for ---------------------------------------------------------------------

proof fn lemma_lower_of_upper(word: Text, name: Text, lower: Text)
    requires
        text::ascii_upper_all(word) == name,
        lower.len() == name.len(),
        forall|i: int|
            0 <= i < name.len() ==> text::ascii_lower(#[trigger] name[i]) == lower[i],
    ensures
        text::ascii_lower_all(word) == lower,
{
    assert(word.len() == name.len()) by {
        assert(text::ascii_upper_all(word).len() == word.len());
    }
    assert forall|i: int| 0 <= i < word.len() implies text::ascii_lower(#[trigger] word[i]) == lower[i] by {
        assert(text::ascii_upper_all(word)[i] == name[i]);
        assert(text::ascii_upper(word[i]) == name[i]);
        text::law_case(word[i]);
        assert(text::ascii_lower(text::ascii_upper(word[i])) == text::ascii_lower(word[i]));
    }
    assert(text::ascii_lower_all(word) =~= lower);
}

/// Every status that executions can be listed by is named by its own name, in any ASCII case.
pub proof fn law_statuses_are_named_in_any_case(status: ExecStatus, word: Text)
    requires
        status != ExecStatus::PendingRedrive,
        text::ascii_upper_all(word) == status.name(),
    ensures
        status_named(word) == Some(Some(status)),
{
    reveal_strlit("all");
    reveal_strlit("todas");
    reveal_strlit("todos");
    reveal_strlit("*");
    reveal_strlit("failed");
    reveal_strlit("fail");
    reveal_strlit("running");
    reveal_strlit("run");
    reveal_strlit("succeeded");
    reveal_strlit("ok");
    reveal_strlit("success");
    reveal_strlit("aborted");
    reveal_strlit("abort");
    reveal_strlit("timedout");
    reveal_strlit("timed_out");
    reveal_strlit("timeout");
    assert("all"@[0] == 'a' && "all"@.len() == 3 && "todas"@.len() == 5 && "todos"@.len() == 5 && "*"@.len() == 1);
    assert("failed"@[0] == 'f' && "fail"@[0] == 'f' && "running"@[0] == 'r' && "run"@[0] == 'r');
    assert("succeeded"@[0] == 's' && "ok"@[0] == 'o' && "success"@[0] == 's');
    assert("aborted"@[0] == 'a' && "aborted"@.len() == 7 && "abort"@[0] == 'a');
    assert("timed_out"@[0] == 't' && "timed_out"@.len() == 9);
    match status {
        ExecStatus::Running => {
            reveal_strlit("RUNNING");
            lemma_lower_of_upper(word, "RUNNING"@, "running"@);
        },
        ExecStatus::Succeeded => {
            reveal_strlit("SUCCEEDED");
            lemma_lower_of_upper(word, "SUCCEEDED"@, "succeeded"@);
        },
        ExecStatus::Failed => {
            reveal_strlit("FAILED");
            lemma_lower_of_upper(word, "FAILED"@, "failed"@);
        },
        ExecStatus::TimedOut => {
            reveal_strlit("TIMED_OUT");
            lemma_lower_of_upper(word, "TIMED_OUT"@, "timed_out"@);
        },
        ExecStatus::Aborted => {
            reveal_strlit("ABORTED");
            lemma_lower_of_upper(word, "ABORTED"@, "aborted"@);
        },
        ExecStatus::PendingRedrive => {},
    }
}

/// Other words name what the full names do: short ones their status, and three words and a star all
/// of them.  Case does not matter to any word.
pub proof fn law_other_words_for_statuses(word: Text, same: Text)
    requires
        text::ascii_lower_all(word) == text::ascii_lower_all(same),
    ensures
        status_named(word) == status_named(same),
        status_named("fail"@) == status_named("failed"@),
        status_named("run"@) == status_named("running"@),
        status_named("ok"@) == status_named("succeeded"@),
        status_named("success"@) == status_named("succeeded"@),
        status_named("abort"@) == status_named("aborted"@),
        status_named("timeout"@) == status_named("timed_out"@),
        status_named("timedout"@) == status_named("timed_out"@),
        status_named("all"@) == Some(None::<ExecStatus>),
        status_named("todas"@) == Some(None::<ExecStatus>),
        status_named("todos"@) == Some(None::<ExecStatus>),
        status_named("*"@) == Some(None::<ExecStatus>),
{
    reveal_strlit("all");
    reveal_strlit("todas");
    reveal_strlit("todos");
    reveal_strlit("*");
    reveal_strlit("failed");
    reveal_strlit("fail");
    reveal_strlit("running");
    reveal_strlit("run");
    reveal_strlit("succeeded");
    reveal_strlit("ok");
    reveal_strlit("success");
    reveal_strlit("aborted");
    reveal_strlit("abort");
    reveal_strlit("timedout");
    reveal_strlit("timed_out");
    reveal_strlit("timeout");
    assert(text::ascii_lower_all("all"@) =~= "all"@);
    assert(text::ascii_lower_all("todas"@) =~= "todas"@);
    assert(text::ascii_lower_all("todos"@) =~= "todos"@);
    assert(text::ascii_lower_all("*"@) =~= "*"@);
    assert(text::ascii_lower_all("failed"@) =~= "failed"@);
    assert(text::ascii_lower_all("fail"@) =~= "fail"@);
    assert(text::ascii_lower_all("running"@) =~= "running"@);
    assert(text::ascii_lower_all("run"@) =~= "run"@);
    assert(text::ascii_lower_all("succeeded"@) =~= "succeeded"@);
    assert(text::ascii_lower_all("ok"@) =~= "ok"@);
    assert(text::ascii_lower_all("success"@) =~= "success"@);
    assert(text::ascii_lower_all("aborted"@) =~= "aborted"@);
    assert(text::ascii_lower_all("abort"@) =~= "abort"@);
    assert(text::ascii_lower_all("timedout"@) =~= "timedout"@);
    assert(text::ascii_lower_all("timed_out"@) =~= "timed_out"@);
    assert(text::ascii_lower_all("timeout"@) =~= "timeout"@);
    assert("all"@[0] == 'a' && "all"@.len() == 3 && "todas"@[0] == 't' && "todas"@.len() == 5);
    assert("todos"@[0] == 't' && "todos"@.len() == 5 && "*"@.len() == 1);
    assert("failed"@[0] == 'f' && "fail"@[0] == 'f' && "running"@[0] == 'r' && "run"@[0] == 'r');
    assert("succeeded"@[0] == 's' && "ok"@[0] == 'o' && "success"@[0] == 's');
    assert("aborted"@[0] == 'a' && "aborted"@.len() == 7 && "abort"@[0] == 'a' && "abort"@.len() == 5);
    assert("timed_out"@[0] == 't' && "timed_out"@.len() == 9 && "timeout"@.len() == 7 && "timedout"@.len() == 8);
    assert("timeout"@[0] == 't' && "timedout"@[0] == 't');
}

/// `:status` with the name of a status, in any ASCII case, lists the executions of the machine on
/// screen that have it, from the first page; the name of the status stands in the caption.
pub proof fn law_status_lists_the_executions_that_have_it(
    m: SfnModel,
    status: ExecStatus,
    word: Text,
    machine_arn: Text,
    machine_name: Text,
)
    requires
        m.level == (Level::Executions { machine_arn, machine_name, machine_type: MachineType::Standard }),
        status != ExecStatus::PendingRedrive,
        text::ascii_upper_all(word) == status.name(),
    ensures
        ({
            let (n, actions) = SfnView::commanded(m, "status "@ + word);
            &&& actions == seq![ActionText::LoadExecutions { machine_arn, status: Some(status), token: None }]
            &&& n.exec_status == Some(status)
            &&& n.exec_token is None
            &&& n.executions.len() == 0
            &&& n.level == m.level
        }),
{
    let cmd = "status "@ + word;
    reveal_strlit("RUNNING");
    reveal_strlit("SUCCEEDED");
    reveal_strlit("FAILED");
    reveal_strlit("TIMED_OUT");
    reveal_strlit("ABORTED");
    let name = status.name();
    assert(word.len() == name.len()) by {
        assert(text::ascii_upper_all(word).len() == word.len());
    }
    assert(cmd.take("status "@.len() as int) =~= "status "@);
    assert(cmd.skip("status "@.len() as int) =~= word);
    assert(text::ascii_upper_all(word)[0] == name[0]);
    assert(text::ascii_upper_all(word)[word.len() - 1] == name[name.len() - 1]);
    assert(!text::is_space(word[0])) by {
        assert(text::ascii_upper(word[0]) == name[0]);
    }
    assert(!text::is_space(word.last())) by {
        assert(text::ascii_upper(word.last()) == name.last());
    }
    text::lemma_already_trimmed(word);
    law_statuses_are_named_in_any_case(status, word);
}

/// `:status` with a word that names no status asks for nothing, and so does any other command.
pub proof fn law_only_known_statuses_are_asked_for(m: SfnModel, cmd: Text)
    requires
        !text::has_prefix(cmd, "status "@) || status_named(text::trimmed(cmd.skip(7))) is None,
    ensures
        SfnView::commanded(m, cmd) == (m, Seq::<ActionText>::empty()),
{
    reveal_strlit("status ");
}

/// `Enter` on a machine lists its executions, whatever their status; on an execution it shows its
/// detail; on a state its input and output.
pub proof fn law_enter_goes_into_what_is_selected(m: SfnModel, key: KeyEvent)
    requires
        m.panel is None,
        key.code == KeyCode::Enter,
    ensures
        m.level is Machines ==> forall|x: StateMachineDto| #[trigger]
            list::is_selected(m.machines, m.filter, m.selected, x) ==> ({
                let (n, actions) = SfnView::keyed(m, key);
                &&& n.level == (Level::Executions {
                    machine_arn: x.arn@,
                    machine_name: x.name@,
                    machine_type: x.machine_type,
                })
                &&& n.executions.len() == 0 && n.exec_status is None && n.exec_token is None
                &&& x.machine_type == MachineType::Standard ==> actions == seq![
                    ActionText::ClearFilter,
                    ActionText::LoadExecutions { machine_arn: x.arn@, status: None, token: None },
                ]
                &&& x.machine_type == MachineType::Express ==> actions == seq![ActionText::ClearFilter] && !n.loading
            }),
        m.level is Executions ==> forall|x: ExecutionDto| #[trigger]
            list::is_selected(m.executions, m.filter, m.selected, x) ==> ({
                let (n, actions) = SfnView::keyed(m, key);
                &&& n.level == (Level::Detail {
                    machine_arn: m.level->Executions_machine_arn,
                    machine_name: m.level->Executions_machine_name,
                    machine_type: m.level->Executions_machine_type,
                    execution_arn: x.arn@,
                })
                &&& n.detail is None && n.history.len() == 0 && n.failed_state is None
                &&& actions == seq![
                    ActionText::ClearFilter,
                    ActionText::LoadExecutionDetail { execution_arn: x.arn@ },
                ]
            }),
        m.level is Detail ==> forall|x: StateSpanDto| #[trigger]
            list::is_selected(m.history, m.filter, m.selected, x) ==> ({
                let (n, actions) = SfnView::keyed(m, key);
                &&& n.level == m.level && actions.len() == 0
                &&& n.panel matches Some(p) && p.title == x.name@ && (x.input matches Some(input) ==> text::occurs(
                    p.raw,
                    input@,
                )) && (x.output matches Some(output) ==> text::has_suffix(p.raw, output@))
            }),
{
    if m.level is Detail {
        assert forall|x: StateSpanDto| #[trigger] list::is_selected(m.history, m.filter, m.selected, x) implies ({
            let (n, actions) = SfnView::keyed(m, key);
            &&& n.level == m.level && actions.len() == 0
            &&& n.panel matches Some(p) && p.title == x.name@ && (x.input matches Some(input) ==> text::occurs(
                p.raw,
                input@,
            )) && (x.output matches Some(output) ==> text::has_suffix(p.raw, output@))
        }) by {
            lemma_io_text(x);
        }
    }
}

proof fn lemma_io_text(x: StateSpanDto)
    ensures
        x.input matches Some(input) ==> text::occurs(io_text(x), input@),
        x.output matches Some(output) ==> text::has_suffix(io_text(x), output@),
{
    let all = io_text(x);
    if let Some(input) = x.input {
        let before = "=== "@ + "input"@ + " ===\n"@;
        let after = "\n\n"@ + io_part("output"@, x.output);
        assert(all =~= before + input@ + after);
        text::lemma_occurs_between(before, input@, after);
    }
    if let Some(output) = x.output {
        assert(all.skip(all.len() - output@.len()) =~= output@);
    }
}

/// `r` asks again for what is on screen: for the executions of the same status.
pub proof fn law_r_asks_again(m: SfnModel, key: KeyEvent)
    requires
        m.panel is None,
        key.code == KeyCode::Char('r'),
    ensures
        SfnView::keyed(m, key).0.level == m.level,
        match m.level {
            Level::Machines => SfnView::keyed(m, key).1 == seq![ActionText::LoadStateMachines],
            Level::Executions { machine_arn, machine_type, .. } => machine_type == MachineType::Standard
                ==> SfnView::keyed(m, key).1 == seq![
                ActionText::LoadExecutions { machine_arn, status: m.exec_status, token: None },
            ],
            Level::Detail { execution_arn, .. } => SfnView::keyed(m, key).1 == seq![
                ActionText::LoadExecutionDetail { execution_arn },
            ],
        },
{
}

/// `o` on a timeline that is not whole asks for more of the history than before; on a whole one it
/// asks for nothing.
pub proof fn law_o_asks_for_more_history(m: SfnModel, key: KeyEvent, execution_arn: Text)
    requires
        m.panel is None,
        key.code == KeyCode::Char('o'),
        m.shows(execution_arn),
        m.history_pages < usize::MAX,
    ensures
        m.history_partial ==> ({
            let (n, actions) = SfnView::keyed(m, key);
            &&& n.history_pages > m.history_pages
            &&& n.history_pages <= m.history_pages + 10
            &&& m.history_pages + 10 <= usize::MAX ==> n.history_pages == m.history_pages + 10
            &&& actions == seq![
                ActionText::LoadMoreExecutionHistory { execution_arn, page_budget: n.history_pages },
            ]
        }),
        !m.history_partial ==> SfnView::keyed(m, key) == (m, Seq::<ActionText>::empty()),
{
}

/// `R` on an execution that failed, timed out or was aborted asks to redrive that execution; on any
/// other it asks for nothing.
pub proof fn law_r_redrives_what_failed(m: SfnModel, key: KeyEvent, execution_arn: Text, d: ExecutionDetailDto)
    requires
        m.panel is None,
        key.code == KeyCode::Char('R'),
        m.shows(execution_arn),
        m.detail == Some(d),
    ensures
        SfnView::keyed(m, key) == (
            m,
            if d.status == ExecStatus::Failed || d.status == ExecStatus::TimedOut || d.status == ExecStatus::Aborted {
                seq![ActionText::RedriveExecution { execution_arn }]
            } else {
                seq![]
            },
        ),
{
}

/// `l` on a state that invoked a function opens the logs of that function, over the time that the
/// state took and a minute on either side; up to now while the state has not been left.
pub proof fn law_l_opens_the_logs_of_the_state(m: SfnModel, key: KeyEvent, x: StateSpanDto, group: Text, now: int)
    requires
        m.panel is None,
        m.level is Detail,
        key.code == KeyCode::Char('l'),
        list::is_selected(m.history, m.filter, m.selected, x),
        x.resource_arn matches Some(arn) && util::lambda_group(arn@) == Some(group),
        x.entered_ts matches Some(ts) && ts >= i64::MIN + 60_000,
        x.exited_ts matches Some(ts) ==> ts <= i64::MAX - 60_000,
    ensures
        ({
            let (n, actions) = SfnView::keyed(m, key);
            &&& n == m
            &&& actions.len() == 1
            &&& actions[0] matches Action::ActivateViewWithContext { id, context } && id == "logs"@ && (context matches ViewContext::LogGroupTail {
                group: opened,
                window,
            } && opened == group && payload::bounds(window, now) == (
                x.entered_ts->0 - 60_000,
                match x.exited_ts {
                    Some(ts) => ts + 60_000,
                    None => now,
                },
            ))
        }),
{
}

/// Where a state does not tell when it was entered, its logs are looked for over the time of the
/// execution and a minute on either side; and over the last hour where that is not known either.
pub proof fn law_logs_fall_back_to_the_execution(m: SfnModel, x: StateSpanDto, now: int)
    requires
        x.entered_ts is None,
    ensures
        (m.detail matches Some(d) && (d.start_ts matches Some(a) && a >= i64::MIN + 60_000) && (d.stop_ts matches Some(b)
            && b <= i64::MAX - 60_000)) ==> payload::bounds(m.lambda_window(x), now) == (
            m.detail->0.start_ts->0 - 60_000,
            m.detail->0.stop_ts->0 + 60_000,
        ),
        m.detail is None || m.detail->0.start_ts is None ==> payload::bounds(m.lambda_window(x), now) == (
            now - 3_600_000,
            now,
        ),
{
}

/// A state that invoked no function has no logs to open.
pub proof fn law_no_function_no_logs(m: SfnModel, key: KeyEvent, x: StateSpanDto)
    requires
        m.panel is None,
        m.level is Detail,
        key.code == KeyCode::Char('l'),
        list::is_selected(m.history, m.filter, m.selected, x),
        x.resource_arn is None,
    ensures
        SfnView::keyed(m, key) == (m, Seq::<ActionText>::empty()),
{
}

/// `y` copies the ARN of what is selected, or of the execution on screen; `O` opens the same in the
/// web console.  The favourite names it too.
pub proof fn law_keys_name_what_is_selected(m: SfnModel, key: KeyEvent)
    requires
        m.panel is None,
    ensures
        m.level is Machines ==> forall|x: StateMachineDto| #[trigger]
            list::is_selected(m.machines, m.filter, m.selected, x) ==> (key.code == KeyCode::Char('y')
                ==> SfnView::keyed(m, key).1 == seq![ActionText::CopyToClipboard { text: x.arn@ }]) && (key.code
                == KeyCode::Char('O') ==> SfnView::keyed(m, key).1 == seq![
                ActionText::OpenConsole { target: ConsoleTarget::StateMachine { arn: x.arn@ } },
            ]) && SfnView::favorite(m) == (if x.machine_type == MachineType::Express {
                None
            } else {
                Some((x.arn@, x.name@))
            }),
        m.level is Executions ==> forall|x: ExecutionDto| #[trigger]
            list::is_selected(m.executions, m.filter, m.selected, x) ==> (key.code == KeyCode::Char('y')
                ==> SfnView::keyed(m, key).1 == seq![ActionText::CopyToClipboard { text: x.arn@ }]) && (key.code
                == KeyCode::Char('O') ==> SfnView::keyed(m, key).1 == seq![
                ActionText::OpenConsole { target: ConsoleTarget::Execution { arn: x.arn@ } },
            ]) && (SfnView::favorite(m) matches Some((favorite, _)) && favorite == views::deep_key(
                m.level->Executions_machine_arn,
                x.arn@,
            )),
        m.level matches Level::Detail { execution_arn, .. } ==> (key.code == KeyCode::Char('y') ==> SfnView::keyed(
            m,
            key,
        ).1 == seq![ActionText::CopyToClipboard { text: execution_arn }]) && (key.code == KeyCode::Char('O')
            ==> SfnView::keyed(m, key).1 == seq![
            ActionText::OpenConsole { target: ConsoleTarget::Execution { arn: execution_arn } },
        ]),
{
}

/// Answers about what is on screen are shown, and loading ends.
pub proof fn law_answers_are_shown(m: SfnModel, message: Message)
    ensures
        match message {
            Message::StateMachinesLoaded { machines, more } => ({
                let n = SfnView::informed(m, message);
                n.machines == machines@ && n.machines_partial == more && (m.level is Machines ==> !n.loading)
            }),
            Message::ExecutionsLoaded { machine_arn, executions, next_token, append } => (m.level matches Level::Executions {
                machine_arn: on_screen,
                ..
            } && on_screen == machine_arn@) ==> ({
                let n = SfnView::informed(m, message);
                n.executions == (if append { m.executions + executions@ } else { executions@ }) && n.exec_token
                    == next_token.deep_view() && n.executions_partial == (next_token is Some) && !n.loading && n.level
                    == m.level && n.exec_status == m.exec_status
            }),
            Message::ExecutionDetailLoaded { execution_arn, detail, history, failed_state, history_more } => (
            m.level matches Level::Detail { execution_arn: on_screen, .. } && on_screen == execution_arn@) ==> ({
                let n = SfnView::informed(m, message);
                n.detail == Some(detail) && n.history == history@ && n.failed_state == failed_state.deep_view()
                    && n.history_partial == history_more && !n.loading && n.level == m.level
            }),
            Message::Error { .. } => !SfnView::informed(m, message).loading,
            _ => true,
        },
{
}

/// The view opens with the list of machines; a favourite opens the executions of its machine, or
/// the detail of its execution.
pub proof fn law_favorites_open_what_they_name(m: SfnModel, machine: Text, execution: Text)
    requires
        !machine.contains('\u{1f}'),
    ensures
        ({
            let (n, actions) = SfnView::activated(m);
            n.level is Machines && actions == seq![ActionText::LoadStateMachines]
        }),
        ({
            let (n, actions) = SfnView::opened(m, ViewContext::Favorite { key: views::deep_key(machine, execution) });
            n.shows(execution) && actions == seq![ActionText::LoadExecutionDetail { execution_arn: execution }]
        }),
        ({
            let (n, actions) = SfnView::opened(m, ViewContext::Favorite { key: machine });
            n.lists(machine) && n.exec_status is None && actions == seq![
                ActionText::LoadExecutions { machine_arn: machine, status: None, token: None },
            ]
        }),
{
    views::law_deep_keys_come_apart(machine, execution);
    views::law_plain_keys_stay_whole(machine);
}

/// `j` and `k` move to the neighbouring row of what the filter shows, `g` and `G` to its ends.
pub proof fn law_keys_move_the_selection(m: SfnModel, key: KeyEvent, row: usize)
    requires
        m.panel is None,
        m.selected == Some(row),
    ensures
        ({
            let n = SfnView::keyed(m, key).0;
            let len = match m.level {
                Level::Machines => list::shown(m.machines, m.filter).len(),
                Level::Executions { .. } => list::shown(m.executions, m.filter).len(),
                Level::Detail { .. } => list::shown(m.history, m.filter).len(),
            };
            &&& row + 1 < len <= usize::MAX && (key.code == KeyCode::Char('j') || key.code == KeyCode::Down) ==> n.selected
                == Some((row + 1) as usize)
            &&& 0 < row < len <= usize::MAX && (key.code == KeyCode::Char('k') || key.code == KeyCode::Up) ==> n.selected
                == Some((row - 1) as usize)
            &&& 0 < len <= usize::MAX && (key.code == KeyCode::Char('g') || key.code == KeyCode::Home) ==> n.selected
                == Some(0usize)
            &&& 0 < len <= usize::MAX && (key.code == KeyCode::Char('G') || key.code == KeyCode::End) ==> n.selected
                == Some((len - 1) as usize)
        }),
{
}

/// A filter narrows the list on screen and selects the first row that is left; it loads nothing and
/// changes nothing else.
pub proof fn law_filters_narrow_the_list(m: SfnModel, filter: Text)
    ensures
        SfnView::narrowed(m, filter).filter == filter,
        SfnView::narrowed(m, filter) == (SfnModel { filter, selected: SfnView::narrowed(m, filter).selected, ..m }),
        ({
            let len = match m.level {
                Level::Machines => list::shown(m.machines, filter).len(),
                Level::Executions { .. } => list::shown(m.executions, filter).len(),
                Level::Detail { .. } => list::shown(m.history, filter).len(),
            };
            0 < len <= usize::MAX ==> SfnView::narrowed(m, filter).selected == Some(0usize)
        }),
{
}

/// Over a list, the panel takes the keys: `y` copies its text, `Esc` and `Enter` close it, `j` and `k`
/// scroll it, and nothing is asked for.
pub proof fn law_the_panel_takes_the_keys(m: SfnModel, key: KeyEvent, p: DetailPanel<Text>)
    requires
        m.panel == Some(p),
    ensures
        ({
            let (n, actions) = SfnView::keyed(m, key);
            &&& key.code == KeyCode::Char('y') ==> n == m && actions == seq![ActionText::CopyToClipboard { text: p.raw }]
            &&& key.code == KeyCode::Esc || key.code == KeyCode::Enter ==> n == (SfnModel { panel: None, ..m })
                && actions.len() == 0
            &&& key.code != KeyCode::Char('y') && key.code != KeyCode::Esc && key.code != KeyCode::Enter ==> actions.len()
                == 0 && n == (SfnModel { panel: n.panel, ..m }) && (n.panel matches Some(q) && q.raw == p.raw && q.title
                == p.title)
            &&& key.code == KeyCode::Char('j') && p.scroll < u16::MAX ==> (n.panel matches Some(q) && q.scroll == p.scroll
                + 1)
            &&& key.code == KeyCode::Char('k') && p.scroll > 0 ==> (n.panel matches Some(q) && q.scroll == p.scroll - 1)
        }),
{
}

/// The title names where one is: the machine, and the execution by the end of its ARN.
pub proof fn law_titles_name_the_place(m: SfnModel, head: Text, name: Text)
    requires
        !name.contains(':'),
    ensures
        m.level is Machines ==> SfnView::title_text(m) == SfnView::id_text(m),
        m.level matches Level::Executions { machine_name, .. } ==> text::has_suffix(SfnView::title_text(m), machine_name),
        m.level matches Level::Detail { machine_name, execution_arn, .. } ==> text::occurs(
            SfnView::title_text(m),
            machine_name,
        ) && (execution_arn == head + seq![':'] + name ==> text::has_suffix(SfnView::title_text(m), name)),
{
    text::law_the_last_part_follows_the_last_separator(head, ':', name);
    match m.level {
        Level::Executions { machine_name, .. } => {
            let t = "sfn / "@ + machine_name;
            assert(t.skip(t.len() - machine_name.len()) =~= machine_name);
        },
        Level::Detail { machine_name, execution_arn, .. } => {
            let last = text::last_part_of(execution_arn, ':');
            let t = "sfn / "@ + machine_name + " / "@ + last;
            assert(t.skip(t.len() - last.len()) =~= last);
            assert(t =~= "sfn / "@ + machine_name + (" / "@ + last));
            text::lemma_occurs_between("sfn / "@, machine_name, " / "@ + last);
        },
        Level::Machines => {},
    }
}

/// A length of time is shown in its two leading units: seconds and tenths, minutes and seconds, or
/// hours and minutes.
pub proof fn law_lengths_are_shown(h: int, m: int, s: int, ms: int)
    requires
        0 <= h,
        0 <= m < 60,
        0 <= s < 60,
        0 <= ms < 1000,
    ensures
        ({
            let all = ((h * 60 + m) * 60 + s) * 1000 + ms;
            &&& h > 0 ==> dur_text(all) == text::decimal(h as nat) + "h "@ + text::decimal(m as nat) + "m"@
            &&& h == 0 && m > 0 ==> dur_text(all) == text::decimal(m as nat) + "m "@ + text::decimal(s as nat) + "s"@
            &&& h == 0 && m == 0 ==> dur_text(all) == text::decimal(s as nat) + "."@ + text::decimal((ms / 100) as nat)
                + "s"@
            &&& dur_text(-1 - all) == "—"@
        }),
{
    let all = ((h * 60 + m) * 60 + s) * 1000 + ms;
    assert(all / 1000 == (h * 60 + m) * 60 + s);
    assert(all % 1000 == ms);
    assert((all / 1000) / 3600 == h);
    assert((all / 1000) % 3600 == m * 60 + s);
}

/// How long something took is from its start to its stop; while it has not stopped it is under way.
pub proof fn law_durations_go_from_start_to_stop(start: i64, stop: i64)
    ensures
        duration_text(Some(start), Some(stop)) == dur_text(stop - start),
        duration_text(Some(start), None) == "en curso"@,
        duration_text(None, Some(stop)) == "—"@,
{
}

/// Failures are red, what succeeded is green, what runs is yellow.
pub proof fn law_colors(status: ExecStatus)
    ensures
        color_of(status) == Color::Red <==> status.ended_in_failure(),
        color_of(status) == Color::Green <==> status == ExecStatus::Succeeded,
        color_of(status) == Color::Yellow <==> status == ExecStatus::Running,
{
}

/// The head of the detail shows the error, the cause, the input and the output of the execution,
/// each under its own label and where there is one.
pub proof fn law_the_detail_shows_what_is_known(m: SfnModel, d: ExecutionDetailDto)
    requires
        m.detail == Some(d),
    ensures
        m.detail_rows() matches Some(rows) && {
            &&& rows[0].0 == "status"@
            &&& d.error matches Some(v) ==> rows.contains(("error"@, flat_text(v@, 80)))
            &&& d.cause matches Some(v) ==> rows.contains(("cause"@, flat_text(v@, 80)))
            &&& d.input matches Some(v) ==> rows.contains(("input"@, flat_text(v@, 80)))
            &&& d.output matches Some(v) ==> rows.contains(("output"@, flat_text(v@, 80)))
        },
{
    let rows = m.detail_rows()->0;
    let a = seq![("status"@, run_text(d))];
    let b = a + payload_row("error"@, d.error);
    let c = b + payload_row("cause"@, d.cause);
    let e = c + payload_row("input"@, d.input);
    assert(rows == e + payload_row("output"@, d.output));
    if let Some(v) = d.error {
        assert(rows[a.len() as int] == ("error"@, flat_text(v@, 80)));
    }
    if let Some(v) = d.cause {
        assert(rows[b.len() as int] == ("cause"@, flat_text(v@, 80)));
    }
    if let Some(v) = d.input {
        assert(rows[c.len() as int] == ("input"@, flat_text(v@, 80)));
    }
    if let Some(v) = d.output {
        assert(rows[e.len() as int] == ("output"@, flat_text(v@, 80)));
    }
}

/// The keys that move the selection change nothing else and ask for nothing; keys that mean nothing
/// here change nothing at all.
pub proof fn law_moving_changes_nothing_else(m: SfnModel, key: KeyEvent)
    requires
        m.panel is None,
    ensures
        ({
            let (n, actions) = SfnView::keyed(m, key);
            &&& key.code == KeyCode::Char('j') || key.code == KeyCode::Char('k') || key.code == KeyCode::Char('g')
                || key.code == KeyCode::Char('G') || key.code == KeyCode::Down || key.code == KeyCode::Up || key.code
                == KeyCode::Home || key.code == KeyCode::End ==> n == (SfnModel { selected: n.selected, ..m }) && actions.len()
                == 0
            &&& key.code == KeyCode::Tab || key.code == KeyCode::Left || key.code == KeyCode::Right || key.code
                == KeyCode::Backspace || key.code == KeyCode::Other ==> n == m && actions.len() == 0
        }),
{
}

/// What goes to another level by `Enter` starts on its first row and loads; the lists above it and
/// the filter stay.
pub proof fn law_going_in_keeps_what_is_above(m: SfnModel, key: KeyEvent)
    requires
        m.panel is None,
        key.code == KeyCode::Enter,
    ensures
        ({
            let n = SfnView::keyed(m, key).0;
            &&& n.level != m.level ==> n.selected == Some(0usize) && n.panel is None
            &&& n.filter == m.filter
            &&& n.machines == m.machines
            &&& n.level == m.level ==> n == (SfnModel { panel: n.panel, ..m })
        }),
{
}

/// A failure ends the loading and leaves what is shown; so does an answer about something else.
pub proof fn law_failures_leave_what_is_shown(m: SfnModel, message: Message)
    ensures
        message is Error ==> SfnView::informed(m, message) == (SfnModel { loading: false, ..m }),
        message is QueuesLoaded ==> SfnView::informed(m, message) == m,
{
}

/// A view that is activated starts at its root, on the first row, and loads what is there.
pub proof fn law_activation_starts_at_the_root(m: SfnModel)
    ensures
        ({
            let (n, actions) = SfnView::activated(m);
            &&& n.level is Machines
            &&& n.loading
            &&& n.selected == Some(0usize)
            &&& n.filter == m.filter
            &&& n.machines == m.machines
            &&& actions == seq![ActionText::LoadStateMachines]
            &&& n.executions.len() == 0 && n.history.len() == 0 && n.detail is None && n.panel is None
            &&& n.exec_status is None && n.exec_token is None && n.failed_state is None
            &&& !n.executions_partial && !n.history_partial
        }),
{
}

/// The hints announce the keys that do something where one is: those of the panel over it, and else
/// those of the level and of what is selected.
pub proof fn law_hints_announce_what_keys_do(m: SfnModel, s: StateSpanDto)
    requires
        m.span() is Some ==> m.span() == Some(s),
    ensures
        ({
            let h = SfnView::hint_texts(m);
            &&& m.panel is Some ==> h == seq![("j/k"@, "scroll"@), ("y"@, "copiar"@), ("esc"@, "cerrar"@)]
            &&& m.panel is None ==> h.len() >= 2 && h[0] == ("y"@, "copiar ARN"@) && h[1] == ("O"@, "consola"@)
            &&& m.panel is None && m.level is Executions ==> h[2] == (":status"@, "filtrar (failed/all)"@)
            &&& m.panel is None && m.level is Executions && m.executions_partial ==> h[3] == ("o"@, "más"@)
            &&& m.panel is None && m.can_redrive() ==> h.last() == ("R"@, "redrive"@)
            &&& m.panel is None && !m.can_redrive() && m.span() is Some && s.resource_arn is Some ==> h.last() == (
                "l"@,
                "logs Lambda"@,
            )
        }),
{
}

/// The captions count the machines, the executions and the states that are shown: all of them without
/// a filter, and how many of how many under one, which is named; a list that is not whole is marked,
/// and so are the status asked for and a failed execution.
pub proof fn law_captions_count_what_is_shown(m: SfnModel)
    ensures
        ({
            let partial = if m.machines_partial { " · parcial"@ } else { ""@ };
            &&& m.filter.len() == 0 ==> m.machines_title() == " "@ + text::decimal(m.machines.len()) + " state machines"@
                + partial + " "@
            &&& m.filter.len() > 0 ==> m.machines_title() == " "@ + text::decimal(
                list::shown(m.machines, m.filter).len(),
            ) + "/"@ + text::decimal(m.machines.len()) + " state machines"@ + partial + " · filtro: "@ + m.filter + " "@
        }),
        m.level matches Level::Executions { machine_name, .. } ==> ({
            let partial = if m.executions_partial { " · parcial · o: más"@ } else { ""@ };
            let status = match m.exec_status {
                Some(s) => " · solo "@ + s.name(),
                None => ""@,
            };
            &&& m.filter.len() == 0 ==> m.executions_title() == " "@ + machine_name + " · "@ + text::decimal(
                m.executions.len(),
            ) + " ejecuciones"@ + status + partial + " "@
            &&& m.filter.len() > 0 ==> m.executions_title() == " "@ + machine_name + " · "@ + text::decimal(
                list::shown(m.executions, m.filter).len(),
            ) + "/"@ + text::decimal(m.executions.len()) + status + partial + " · filtro: "@ + m.filter + " "@
        }),
        ({
            let partial = if m.history_partial { " · parcial · o: más"@ } else { ""@ };
            let failed = m.detail matches Some(d) && d.status.ended_in_failure();
            let redrive = if failed { " · [R] redrive"@ } else { ""@ };
            &&& m.filter.len() == 0 ==> m.timeline_title() == " timeline · "@ + text::decimal(m.history.len())
                + " estados"@ + partial + redrive + " "@
            &&& m.filter.len() > 0 ==> m.timeline_title() == " timeline · "@ + text::decimal(
                list::shown(m.history, m.filter).len(),
            ) + "/"@ + text::decimal(m.history.len()) + " estados · filtro: "@ + m.filter + partial + redrive + " "@
        }),
{
}

/// The panel of a state shows its input before its output, each under its heading, and says where
/// there is none.
pub proof fn law_input_and_output_are_shown(s: StateSpanDto, m: SfnModel, key: KeyEvent)
    ensures
        s.input matches Some(i) ==> (s.output matches Some(o) ==> io_text(s) == "=== "@ + "input"@ + " ===\n"@ + i@
            + "\n\n"@ + ("=== "@ + "output"@ + " ===\n"@ + o@)),
        s.input matches Some(i) ==> (s.output is None ==> io_text(s) == "=== "@ + "input"@ + " ===\n"@ + i@ + "\n\n"@ + (
        "=== "@ + "output"@ + " ===\n"@ + "(ninguno)"@)),
        s.input is None ==> (s.output matches Some(o) ==> io_text(s) == "=== "@ + "input"@ + " ===\n"@ + "(ninguno)"@
            + "\n\n"@ + ("=== "@ + "output"@ + " ===\n"@ + o@)),
        s.input is None && s.output is None ==> io_text(s) == "(este estado no expone input/output)"@,
        m.panel is None && m.level is Detail && m.span() == Some(s) && key.code == KeyCode::Enter ==> SfnView::keyed(m, key)
            == (
            SfnModel { panel: Some(DetailPanel { title: s.name@, raw: io_text(s), scroll: 0 }), ..m },
            Seq::<ActionText>::empty(),
        ),
{
}

/// The head of an execution tells when it started and how long it took, and how often it was redriven
/// where it was.
pub proof fn law_runs_are_told(d: ExecutionDetailDto, start: i64, stop: i64, n: i64)
    requires
        d.start_ts == Some(start),
        d.stop_ts == Some(stop),
    ensures
        ({
            let plain = "inicio "@ + util::instant_text(start as int) + "   duración "@ + dur_text(stop - start);
            &&& d.redrive_count == Some(n) && n > 0 ==> run_text(d) == plain + ("   redrive "@ + text::int_text(n as int))
            &&& d.redrive_count is None ==> run_text(d) == plain + ""@
        }),
{
}

/// The rows tell what they are about: a machine by its type and its day, an execution by its status,
/// its start and its length, a state by its mark and its length.
pub proof fn law_rows_tell_what_they_are_about(m: StateMachineDto, e: ExecutionDto, s: StateSpanDto)
    ensures
        machine_texts(m).0 == m.name@,
        m.machine_type == MachineType::Express ==> machine_texts(m).1 == "[express]"@,
        m.machine_type == MachineType::Standard ==> machine_texts(m).1 == "[standard]"@,
        m.created_ts matches Some(ts) ==> machine_texts(m).2 == util::instant_text(ts as int),
        m.created_ts is None ==> machine_texts(m).2 == "—"@,
        execution_texts(e).0 == e.status.name(),
        execution_texts(e).1 == e.name@,
        e.start_ts matches Some(a) ==> (e.stop_ts matches Some(b) ==> execution_texts(e).2 == util::instant_text(a as int)
            + "  "@ + dur_text(b - a)),
        e.start_ts matches Some(a) ==> (e.stop_ts is None ==> execution_texts(e).2 == util::instant_text(a as int) + "  "@
            + "en curso"@),
        s.failed ==> span_texts(s).0 == "✗ "@ + s.name@,
        !s.failed ==> span_texts(s).0 == "  "@ + s.name@,
        s.entered_ts matches Some(a) ==> (s.exited_ts matches Some(b) ==> span_texts(s).1 == dur_text(b - a)),
        s.entered_ts is None || s.exited_ts is None ==> span_texts(s).1 == "—"@,
{
}

/// `Esc` forgets what was loaded below the level that it goes to, and what lies above stays: the list
/// there is shown from its first row, and nothing is loading.
pub proof fn law_esc_forgets_what_was_below(m: SfnModel, key: KeyEvent)
    requires
        m.panel is None,
        key.code == KeyCode::Esc,
    ensures
        ({
            let (n, actions) = SfnView::keyed(m, key);
            match m.level {
                Level::Detail { machine_arn, machine_name, machine_type, .. } => {
                    &&& n == (SfnModel {
                        level: Level::Executions { machine_arn, machine_name, machine_type },
                        detail: None,
                        history: Seq::empty(),
                        failed_state: None,
                        history_partial: false,
                        loading: false,
                        selected: n.selected,
                        ..m
                    })
                    &&& 0 < list::shown(m.executions, m.filter).len() <= usize::MAX ==> n.selected == Some(0usize)
                    &&& actions == seq![ActionText::ClearFilter]
                },
                Level::Executions { .. } => {
                    &&& n == (SfnModel { level: Level::Machines, loading: false, selected: n.selected, ..m })
                    &&& 0 < list::shown(m.machines, m.filter).len() <= usize::MAX ==> n.selected == Some(0usize)
                    &&& actions == seq![ActionText::ClearFilter]
                },
                Level::Machines => n == m && actions == seq![ActionText::Back],
            }
        }),
{
}

/// Asking again or for more leaves what is shown until the answer comes; asking for the executions
/// again starts from their first page, and those of an express machine are not asked for.
pub proof fn law_asking_leaves_what_is_shown(m: SfnModel, key: KeyEvent)
    requires
        m.panel is None,
    ensures
        ({
            let n = SfnView::keyed(m, key).0;
            match m.level {
                Level::Machines => {
                    &&& key.code == KeyCode::Char('r') ==> n == (SfnModel { loading: true, ..m })
                    &&& key.code == KeyCode::Char('o') ==> n == m
                },
                Level::Executions { machine_type, .. } => {
                    &&& key.code == KeyCode::Char('r') && machine_type == MachineType::Standard ==> n == (SfnModel {
                        loading: true,
                        exec_token: None,
                        ..m
                    })
                    &&& key.code == KeyCode::Char('r') && machine_type == MachineType::Express ==> n == (SfnModel {
                        loading: false,
                        ..m
                    })
                    &&& key.code == KeyCode::Char('o') && machine_type == MachineType::Standard && m.exec_token is Some
                        ==> n == (SfnModel { loading: true, ..m })
                    &&& key.code == KeyCode::Char('o') && (machine_type == MachineType::Express || m.exec_token is None)
                        ==> n == m
                },
                Level::Detail { .. } => {
                    &&& key.code == KeyCode::Char('r') ==> n == (SfnModel { loading: true, ..m })
                    &&& key.code == KeyCode::Char('o') && m.history_partial ==> n == (SfnModel {
                        loading: true,
                        history_pages: n.history_pages,
                        ..m
                    })
                    &&& key.code == KeyCode::Char('o') && !m.history_partial ==> n == m
                    &&& key.code == KeyCode::Char('o') && m.history_partial && m.history_pages <= usize::MAX - 10
                        ==> n.history_pages == m.history_pages + 10
                },
            }
        }),
        key.code == KeyCode::Char('R') || key.code == KeyCode::Char('l') || key.code == KeyCode::Char('O') || key.code
            == KeyCode::Char('y') ==> SfnView::keyed(m, key).0 == m,
{
}

/// Going into a machine forgets the executions of the one before, with their status and their next
/// page; going into an execution forgets the history of the one before.
pub proof fn law_going_in_starts_afresh(m: SfnModel, key: KeyEvent)
    requires
        m.panel is None,
        key.code == KeyCode::Enter,
    ensures
        ({
            let n = SfnView::keyed(m, key).0;
            &&& m.level is Machines && n.level != m.level ==> n == (SfnModel {
                level: n.level,
                executions: Seq::empty(),
                executions_partial: false,
                exec_token: None,
                exec_status: None,
                selected: Some(0usize),
                loading: n.level matches Level::Executions { machine_type, .. } && machine_type == MachineType::Standard,
                ..m
            })
            &&& m.level is Executions && n.level != m.level ==> n == (SfnModel {
                level: n.level,
                detail: None,
                history: Seq::empty(),
                failed_state: None,
                history_partial: false,
                history_pages: 10,
                loading: true,
                selected: Some(0usize),
                ..m
            })
        }),
{
}

/// An answer changes what it is about and nothing else, and the selected row stays where it is still
/// there.
pub proof fn law_answers_change_what_they_are_about(m: SfnModel, message: Message, row: usize)
    requires
        m.selected == Some(row),
    ensures
        ({
            let n = SfnView::informed(m, message);
            match message {
                Message::StateMachinesLoaded { machines, more } => {
                    &&& n == (SfnModel {
                        machines: machines@,
                        machines_partial: more,
                        loading: n.loading,
                        selected: n.selected,
                        ..m
                    })
                    &&& !(m.level is Machines) ==> n.loading == m.loading && n.selected == m.selected
                    &&& m.level is Machines && row < list::shown(machines@, m.filter).len() ==> n.selected == m.selected
                },
                Message::ExecutionsLoaded { executions, next_token, append, .. } => {
                    ||| n == m
                    ||| {
                        &&& n == (SfnModel {
                            executions: if append { m.executions + executions@ } else { executions@ },
                            exec_token: next_token.deep_view(),
                            executions_partial: next_token is Some,
                            loading: false,
                            selected: n.selected,
                            ..m
                        })
                        &&& row < list::shown(n.executions, m.filter).len() ==> n.selected == m.selected
                    }
                },
                Message::ExecutionDetailLoaded { detail, history, failed_state, history_more, .. } => n == m || n == (
                SfnModel {
                    detail: Some(detail),
                    history: history@,
                    failed_state: failed_state.deep_view(),
                    history_partial: history_more,
                    loading: false,
                    selected: n.selected,
                    ..m
                }),
                Message::ExecutionRedriven { execution_arn } => n == (SfnModel {
                    loading: m.loading || (m.level matches Level::Detail { execution_arn: shown, .. } && shown
                        == execution_arn@),
                    ..m
                }),
                _ => n == (SfnModel { loading: n.loading, ..m }),
            }
        }),
{
}

/// Asking for a status forgets the executions that were listed, and changes nothing else.
pub proof fn law_a_status_starts_a_new_list(m: SfnModel, cmd: Text)
    ensures
        ({
            let (n, actions) = SfnView::commanded(m, cmd);
            actions.len() == 0 && n == m || n == (SfnModel {
                exec_status: n.exec_status,
                exec_token: None,
                executions: Seq::empty(),
                executions_partial: false,
                selected: Some(0usize),
                loading: true,
                ..m
            })
        }),
{
}

/// A favourite execution is labelled with its machine and its name, whether it is selected in a list
/// or shown in full; and where nothing is selected there is none.
pub proof fn law_favorites_are_labelled(m: SfnModel, e: ExecutionDto, head: Text, name: Text)
    requires
        !name.contains(':'),
    ensures
        m.level matches Level::Executions { machine_arn, machine_name, .. } ==> (list::is_selected(
            m.executions,
            m.filter,
            m.selected,
            e,
        ) ==> SfnView::favorite(m) == Some((views::deep_key(machine_arn, e.arn@), machine_name + " · "@ + e.name@))),
        m.level matches Level::Detail { machine_arn, machine_name, execution_arn, .. } ==> (execution_arn == head + seq![
            ':',
        ] + name ==> SfnView::favorite(m) == Some(
            (views::deep_key(machine_arn, execution_arn), machine_name + " · "@ + name),
        )),
        !(m.level is Detail) && m.selected is None ==> SfnView::favorite(m) is None,
        SfnView::at_root(m) <==> m.level is Machines && m.panel is None,
{
    text::law_the_last_part_follows_the_last_separator(head, ':', name);
}

/// A favourite opens on a view that knows nothing below its machines: neither the executions nor the
/// history of what was open before.
pub proof fn law_favorites_open_afresh(m: SfnModel, key: Text)
    ensures
        ({
            let n = SfnView::opened(m, ViewContext::Favorite { key }).0;
            n == (SfnModel {
                level: n.level,
                executions: Seq::empty(),
                exec_token: None,
                exec_status: None,
                detail: None,
                history: Seq::empty(),
                failed_state: None,
                panel: None,
                loading: true,
                machines_partial: false,
                history_partial: false,
                history_pages: 10,
                executions_partial: false,
                selected: Some(0usize),
                ..m
            })
        }),
{
}

} // verus!
