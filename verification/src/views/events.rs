//! View `events`: event buses, their rules, and the pattern and targets of one rule.
//!
//! From the list of buses a form composes an event.  The view checks it and states the wish to send
//! it; whether that may happen is up to the application.

use vstd::prelude::*;

use crate::action::{Action, ActionText, ConsoleTarget, ViewContext};
use crate::config::EventPreset;
use crate::json;
use crate::key::{KeyCode, KeyEvent};
use crate::list;
use crate::list::ListState;
use crate::message::{EventBusDto, Message, RuleDetailDto, RuleDto, RuleState, TargetDto, Text};
use crate::text;
use crate::ui::detail;
use crate::ui::detail::DetailPanel;
use crate::ui::form;
use crate::ui::form::{Form, FormModel, FormOutcome};
use crate::ui::Color;
use crate::util;
use crate::util::parse_datetime;
use crate::views;
use crate::views::sfn;
use crate::views::sfn::oneline;
use crate::views::{join_key, nothing, split_key, DeckView};

verus! {

/// What the view shows.
#[derive(Debug)]
#[verifier::ext_equal]
pub enum Level<S = String> {
    Buses,
    Rules { event_bus_name: S },
    Detail { event_bus_name: S, rule_name: S },
}

impl DeepView for Level<String> {
    type V = Level<Text>;

    open spec fn deep_view(&self) -> Level<Text> {
        match self {
            Level::Buses => Level::Buses,
            Level::Rules { event_bus_name } => Level::Rules { event_bus_name: event_bus_name@ },
            Level::Detail { event_bus_name, rule_name } => Level::Detail {
                event_bus_name: event_bus_name@,
                rule_name: rule_name@,
            },
        }
    }
}

pub struct EventsView {
    pub level: Level,
    pub buses: Vec<EventBusDto>,
    pub rules: Vec<RuleDto>,
    pub detail: Option<RuleDetailDto>,
    pub targets: Vec<TargetDto>,
    /// The full pattern of a rule or the full input of a target, over the detail.
    pub detail_panel: Option<DetailPanel>,
    /// The form for sending an event, and the bus it goes to.
    pub event_form: Option<(String, Form)>,
    pub filter: String,
    pub loading: bool,
    /// There are buses that were not fetched.
    pub buses_partial: bool,
    /// There are rules that were not fetched.
    pub rules_partial: bool,
    pub state: ListState,
    /// Events to offer before the form.
    pub presets: Vec<EventPreset>,
    /// The choice of a preset, where row 0 is an event from scratch.
    pub preset_chooser: Option<ListState>,
}

/// The state of the view.
#[verifier::ext_equal]
pub struct EventsModel {
    pub level: Level<Text>,
    pub buses: Seq<EventBusDto>,
    pub rules: Seq<RuleDto>,
    pub detail: Option<RuleDetailDto>,
    pub targets: Seq<TargetDto>,
    pub panel: Option<DetailPanel<Text>>,
    pub form: Option<(Text, FormModel)>,
    pub filter: Text,
    pub loading: bool,
    pub buses_partial: bool,
    pub rules_partial: bool,
    pub selected: Option<usize>,
    pub presets: Seq<EventPreset>,
    pub chooser: Option<Option<usize>>,
}

/// The view of an optional form.
pub open spec fn form_view(f: Option<(String, Form)>) -> Option<(Text, FormModel)> {
    match f {
        Some(bf) => Some((bf.0@, bf.1.model())),
        None => None,
    }
}

/// The view of an optional choice.
pub open spec fn chooser_view(c: Option<ListState>) -> Option<Option<usize>> {
    match c {
        Some(state) => Some(state.selected),
        None => None,
    }
}

/// The fields of the form for sending an event.
pub open spec fn event_fields(source: Text, detail_type: Text, detail: Text) -> Seq<(Text, Text)> {
    seq![
        ("source"@, source),
        ("detail-type"@, detail_type),
        ("detail"@, detail),
        ("time (UTC, vacío=ahora)"@, ""@),
        ("resources (ARNs, coma)"@, ""@),
    ]
}

/// The parts that hold more than whitespace, trimmed.
pub open spec fn filled(parts: Seq<Text>) -> Seq<Text>
    decreases parts.len(),
{
    if parts.len() == 0 {
        parts
    } else {
        let head = filled(parts.drop_last());
        let last = text::trimmed(parts.last());
        if last.len() == 0 {
            head
        } else {
            head.push(last)
        }
    }
}

/// The resources that a field names, separated by commas.
pub open spec fn resource_names(s: Text) -> Seq<Text> {
    filled(text::split_on(s, ','))
}

fn resources_of(s: &str) -> (r: Vec<String>)
    ensures
        r.deep_view() == resource_names(s@),
{
    let parts = text::split(s, ',');
    let ghost all = parts.deep_view();
    let mut out: Vec<String> = Vec::new();
    proof {
        assert(out.deep_view() =~= filled(all.take(0)));
    }
    let mut i: usize = 0;
    while i < parts.len()
        invariant
            i <= parts@.len(),
            all == parts.deep_view(),
            out.deep_view() == filled(all.take(i as int)),
        decreases parts@.len() - i,
    {
        proof {
            assert(all.take(i as int + 1).drop_last() =~= all.take(i as int));
            assert(all.take(i as int + 1).last() == parts@[i as int]@);
        }
        let part = text::trim(parts[i].as_str());
        if !part.as_str().is_empty() {
            let ghost before = out.deep_view();
            let ghost added = part@;
            out.push(part);
            proof {
                assert(out.deep_view() =~= before.push(added));
            }
        }
        i = i + 1;
    }
    proof {
        assert(all.take(all.len() as int) =~= all);
    }
    out
}

/// The instant that a field names: `Some(None)` where it is empty, `None` where it is no instant.
pub open spec fn time_named(s: Text) -> Option<Option<i64>> {
    let t = text::trimmed(s);
    if t.len() == 0 {
        Some(None)
    } else {
        match util::datetime_value(t) {
            Some(ms) => Some(Some(ms as i64)),
            None => None,
        }
    }
}

/// What the panel of a rule shows: its pattern, else its schedule, else that it has neither.
pub open spec fn pattern_text(d: RuleDetailDto) -> Text {
    match d.event_pattern {
        Some(p) => p@,
        None => match d.schedule_expression {
            Some(s) => "schedule: "@ + s@,
            None => "(esta rule no tiene event_pattern)"@,
        },
    }
}

impl EventsModel {
    /// How many rows the filter shows.
    pub open spec fn visible(self) -> nat {
        match self.level {
            Level::Buses => list::shown(self.buses, self.filter).len(),
            Level::Rules { .. } => list::shown(self.rules, self.filter).len(),
            Level::Detail { .. } => list::shown(self.targets, self.filter).len(),
        }
    }

    /// The selected bus.
    pub open spec fn bus(self) -> Option<EventBusDto> {
        list::picked(self.buses, self.filter, self.selected)
    }

    /// The selected rule.
    pub open spec fn rule(self) -> Option<RuleDto> {
        list::picked(self.rules, self.filter, self.selected)
    }

    /// The selected target.
    pub open spec fn target(self) -> Option<TargetDto> {
        list::picked(self.targets, self.filter, self.selected)
    }

    /// The selection brought back inside the list.
    pub open spec fn clamped(self) -> EventsModel {
        EventsModel { selected: list::clamped(self.selected, self.visible()), ..self }
    }

    /// The rules of a bus, before any of them is known.
    pub open spec fn entering_bus(self, event_bus_name: Text) -> EventsModel {
        EventsModel {
            level: Level::Rules { event_bus_name },
            rules: Seq::empty(),
            rules_partial: false,
            loading: true,
            selected: Some(0usize),
            ..self
        }
    }

    /// The detail of a rule, before anything of it is known.
    pub open spec fn entering_rule(self, event_bus_name: Text, rule_name: Text) -> EventsModel {
        EventsModel {
            level: Level::Detail { event_bus_name, rule_name },
            detail: None,
            targets: Seq::empty(),
            loading: true,
            selected: Some(0usize),
            ..self
        }
    }

    /// One level down, into what is selected; a bus is remembered as recent.
    pub open spec fn drilled(self) -> (EventsModel, Seq<ActionText>) {
        match self.level {
            Level::Buses => match self.bus() {
                Some(b) => (
                    self.entering_bus(b.name@),
                    seq![
                        ActionText::ClearFilter,
                        ActionText::RecordRecent { key: b.name@, label: b.name@ },
                        ActionText::LoadRules { event_bus_name: b.name@ },
                    ],
                ),
                None => (self, seq![]),
            },
            Level::Rules { event_bus_name } => match self.rule() {
                Some(r) => (
                    self.entering_rule(event_bus_name, r.name@),
                    seq![
                        ActionText::ClearFilter,
                        ActionText::LoadRuleDetail { event_bus_name: r.event_bus_name@, rule_name: r.name@ },
                    ],
                ),
                None => (self, seq![]),
            },
            Level::Detail { .. } => (self, seq![]),
        }
    }

    /// One level up; at the root, back to the menu.
    pub open spec fn backed(self) -> (EventsModel, Seq<ActionText>) {
        let m = EventsModel { panel: None, form: None, ..self };
        match self.level {
            Level::Detail { event_bus_name, .. } => (
                EventsModel {
                    level: Level::Rules { event_bus_name },
                    detail: None,
                    targets: Seq::empty(),
                    loading: false,
                    selected: Some(0usize),
                    ..m
                }.clamped(),
                seq![ActionText::ClearFilter],
            ),
            Level::Rules { .. } => (
                EventsModel { level: Level::Buses, loading: false, selected: Some(0usize), ..m }.clamped(),
                seq![ActionText::ClearFilter],
            ),
            Level::Buses => (m, seq![ActionText::Back]),
        }
    }

    pub open spec fn refreshed(self) -> (EventsModel, Seq<ActionText>) {
        (
            EventsModel { loading: true, ..self },
            match self.level {
                Level::Buses => seq![ActionText::LoadEventBuses],
                Level::Rules { event_bus_name } => seq![ActionText::LoadRules { event_bus_name }],
                Level::Detail { event_bus_name, rule_name } => seq![
                    ActionText::LoadRuleDetail { event_bus_name, rule_name },
                ],
            },
        )
    }

    /// The form, prefilled, for an event to the selected bus; only on the list of buses.
    pub open spec fn composing(self, source: Text, detail_type: Text, detail: Text) -> EventsModel {
        match (self.level, self.bus()) {
            (Level::Buses, Some(b)) => EventsModel {
                form: Some(
                    (
                        b.name@,
                        FormModel::fresh("enviar evento → "@ + b.name@, event_fields(source, detail_type, detail)),
                    ),
                ),
                ..self
            },
            _ => self,
        }
    }

    /// The form for an event from scratch.
    pub open spec fn composing_canned(self) -> EventsModel {
        self.composing("awsdeck.manual"@, "awsdeck test event"@, "{\"sentBy\":\"awsdeck\"}"@)
    }

    /// The choice of a preset where there are presets, else the form for an event from scratch.
    pub open spec fn sending(self) -> EventsModel {
        if !(self.level is Buses) || self.bus() is None {
            self
        } else if self.presets.len() == 0 {
            self.composing_canned()
        } else {
            EventsModel { chooser: Some(Some(0usize)), ..self }
        }
    }

    /// The form for the preset that was chosen.
    pub open spec fn chosen(self) -> EventsModel {
        let row = match self.chooser {
            Some(Some(i)) => i as int,
            _ => 0,
        };
        let m = EventsModel { chooser: None, ..self };
        if row == 0 {
            m.composing_canned()
        } else if row - 1 < self.presets.len() {
            let p = self.presets[row - 1];
            m.composing(p.source@, p.detail_type@, p.detail@)
        } else {
            m
        }
    }

    /// Keys while a preset is being chosen.
    pub open spec fn choosing(self, key: KeyEvent) -> EventsModel {
        let row = match self.chooser {
            Some(row) => row,
            None => None,
        };
        match key.code {
            KeyCode::Char('j') | KeyCode::Down => EventsModel {
                chooser: Some(list::moved(row, self.presets.len() + 1, 1)),
                ..self
            },
            KeyCode::Char('k') | KeyCode::Up => EventsModel {
                chooser: Some(list::moved(row, self.presets.len() + 1, -1)),
                ..self
            },
            KeyCode::Enter => self.chosen(),
            KeyCode::Esc => EventsModel { chooser: None, ..self },
            _ => self,
        }
    }

    /// The form with an error under its fields.
    pub open spec fn rejected(self, error: Text) -> EventsModel {
        match self.form {
            Some((bus, f)) => EventsModel { form: Some((bus, FormModel { error: Some(error), ..f })), ..self },
            None => self,
        }
    }

    /// The form handed in: where its detail is JSON and its time can be read, the form closes and
    /// the view wants the event sent; otherwise the form stays and says what is wrong.
    pub open spec fn submitted(self) -> (EventsModel, Seq<ActionText>) {
        match self.form {
            None => (self, seq![]),
            Some((_, f)) => self.judged(json::is_json(text::trimmed(f.value(2)))),
        }
    }

    /// The form handed in, given whether its detail is JSON.
    pub open spec fn judged(self, sound: bool) -> (EventsModel, Seq<ActionText>) {
        match self.form {
            None => (self, seq![]),
            Some((bus, f)) => if !sound {
                (self.rejected("detail no es JSON válido (revisá comillas/llaves)"@), seq![])
            } else {
                match time_named(f.value(3)) {
                    None => (self.rejected("time inválido: usa YYYY-MM-DD[THH:MM] (UTC)"@), seq![]),
                    Some(time) => (
                        EventsModel { form: None, ..self },
                        seq![
                            ActionText::SendEvent {
                                event_bus_name: bus,
                                source: f.value(0),
                                detail_type: f.value(1),
                                detail: f.value(2),
                                time,
                                resources: resource_names(f.value(4)),
                            },
                        ],
                    ),
                }
            },
        }
    }

    /// Keys while the form is open.
    pub open spec fn editing(self, key: KeyEvent) -> (EventsModel, Seq<ActionText>) {
        match self.form {
            None => (self, seq![]),
            Some((bus, f)) => {
                let (next, outcome) = f.keyed(key);
                let m = EventsModel { form: Some((bus, next)), ..self };
                match outcome {
                    FormOutcome::Cancel => (EventsModel { form: None, ..self }, seq![]),
                    FormOutcome::Submit => m.submitted(),
                    FormOutcome::Editing => (m, seq![]),
                }
            },
        }
    }

    /// The full input of the selected target, in a panel.
    pub open spec fn expanded(self) -> EventsModel {
        match self.target() {
            Some(t) => EventsModel {
                panel: Some(
                    DetailPanel {
                        title: "target "@ + t.id@,
                        raw: match t.input {
                            Some(i) => i@,
                            None => "(este target no define input)"@,
                        },
                        scroll: 0,
                    },
                ),
                ..self
            },
            None => self,
        }
    }

    /// The full pattern of the rule, in a panel.
    pub open spec fn expanded_pattern(self) -> EventsModel {
        match self.detail {
            Some(d) => EventsModel {
                panel: Some(DetailPanel { title: "event_pattern"@, raw: pattern_text(d), scroll: 0 }),
                ..self
            },
            None => self,
        }
    }

    /// The text to copy: ARN of a bus or a target, name of a rule.
    pub open spec fn copy_text(self) -> Option<Text> {
        match self.level {
            Level::Buses => match self.bus() {
                Some(b) => Some(b.arn@),
                None => None,
            },
            Level::Rules { .. } => match self.rule() {
                Some(r) => Some(r.name@),
                None => None,
            },
            Level::Detail { .. } => match self.target() {
                Some(t) => Some(t.arn@),
                None => None,
            },
        }
    }

    /// The resource to open in the web console.
    pub open spec fn console_target(self) -> Option<ConsoleTarget<Text>> {
        match self.level {
            Level::Buses => match self.bus() {
                Some(b) => Some(ConsoleTarget::EventBus { name: b.name@ }),
                None => None,
            },
            Level::Rules { event_bus_name } => match self.rule() {
                Some(r) => Some(ConsoleTarget::Rule { event_bus: event_bus_name, name: r.name@ }),
                None => None,
            },
            Level::Detail { event_bus_name, rule_name } => Some(
                ConsoleTarget::Rule { event_bus: event_bus_name, name: rule_name },
            ),
        }
    }

    pub open spec fn keyed(self, key: KeyEvent) -> (EventsModel, Seq<ActionText>) {
        if self.chooser is Some {
            (self.choosing(key), seq![])
        } else if self.form is Some {
            self.editing(key)
        } else {
            match self.panel {
                Some(p) => if key.code == KeyCode::Char('y') {
                    (self, seq![ActionText::CopyToClipboard { text: p.raw }])
                } else if detail::closes(key.code) {
                    (EventsModel { panel: None, ..self }, seq![])
                } else {
                    (
                        EventsModel {
                            panel: Some(DetailPanel { scroll: detail::scrolled(p.scroll, key.code), ..p }),
                            ..self
                        },
                        seq![],
                    )
                },
                None => match key.code {
                    KeyCode::Char('j') | KeyCode::Down => (
                        EventsModel { selected: list::moved(self.selected, self.visible(), 1), ..self },
                        seq![],
                    ),
                    KeyCode::Char('k') | KeyCode::Up => (
                        EventsModel { selected: list::moved(self.selected, self.visible(), -1), ..self },
                        seq![],
                    ),
                    KeyCode::Char('g') | KeyCode::Home => (
                        EventsModel { selected: list::edge(self.visible(), false), ..self },
                        seq![],
                    ),
                    KeyCode::Char('G') | KeyCode::End => (
                        EventsModel { selected: list::edge(self.visible(), true), ..self },
                        seq![],
                    ),
                    KeyCode::Enter => if self.level is Detail { (self.expanded(), seq![]) } else { self.drilled() },
                    KeyCode::Char('P') => (
                        if self.level is Detail { self.expanded_pattern() } else { self },
                        seq![],
                    ),
                    KeyCode::Esc => self.backed(),
                    KeyCode::Char('r') => self.refreshed(),
                    KeyCode::Char('S') => (self.sending(), seq![]),
                    KeyCode::Char('y') => (
                        self,
                        match self.copy_text() {
                            Some(text) => seq![ActionText::CopyToClipboard { text }],
                            None => seq![],
                        },
                    ),
                    KeyCode::Char('O') => (
                        self,
                        match self.console_target() {
                            Some(target) => seq![ActionText::OpenConsole { target }],
                            None => seq![],
                        },
                    ),
                    _ => (self, seq![]),
                },
            }
        }
    }

    /// The rules of this bus are on screen.
    pub open spec fn lists(self, event_bus_name: Text) -> bool {
        self.level == Level::Rules { event_bus_name }
    }

    /// The detail of this rule is on screen.
    pub open spec fn shows(self, event_bus_name: Text, rule_name: Text) -> bool {
        self.level == Level::Detail { event_bus_name, rule_name }
    }

    pub open spec fn informed(self, message: Message) -> EventsModel {
        match message {
            Message::EventBusesLoaded { buses, more } => {
                let m = EventsModel { buses: buses@, buses_partial: more, ..self };
                if self.level is Buses {
                    EventsModel { loading: false, ..m }.clamped()
                } else {
                    m
                }
            },
            Message::RulesLoaded { event_bus_name, rules, more } => if self.lists(event_bus_name@) {
                EventsModel { rules: rules@, rules_partial: more, loading: false, ..self }.clamped()
            } else {
                self
            },
            Message::RuleDetailLoaded { event_bus_name, rule_name, detail, targets } => if self.shows(
                event_bus_name@,
                rule_name@,
            ) {
                EventsModel { detail: Some(detail), targets: targets@, loading: false, ..self }.clamped()
            } else {
                self
            },
            Message::Error { .. } => EventsModel { loading: false, ..self },
            _ => self,
        }
    }

    pub open spec fn activated(self) -> EventsModel {
        EventsModel {
            level: Level::Buses,
            rules: Seq::empty(),
            detail: None,
            panel: None,
            form: None,
            targets: Seq::empty(),
            loading: true,
            buses_partial: false,
            rules_partial: false,
            selected: Some(0usize),
            ..self
        }
    }

    /// A favourite: the rules of a bus, or the detail of a rule.
    pub open spec fn opened_at(self, key: Text) -> (EventsModel, Seq<ActionText>) {
        let m = EventsModel { panel: None, form: None, ..self };
        match views::key_parts(key) {
            Some((event_bus_name, rule_name)) => (
                m.entering_rule(event_bus_name, rule_name),
                seq![ActionText::LoadRuleDetail { event_bus_name, rule_name }],
            ),
            None => (m.entering_bus(key), seq![ActionText::LoadRules { event_bus_name: key }]),
        }
    }

    /// Key and label of the selected bus, or of a rule.
    pub open spec fn favorite(self) -> Option<(Text, Text)> {
        match self.level {
            Level::Buses => match self.bus() {
                Some(b) => Some((b.name@, b.name@)),
                None => None,
            },
            Level::Rules { event_bus_name } => match self.rule() {
                Some(r) => Some((views::deep_key(event_bus_name, r.name@), event_bus_name + " · "@ + r.name@)),
                None => None,
            },
            Level::Detail { event_bus_name, rule_name } => Some(
                (views::deep_key(event_bus_name, rule_name), event_bus_name + " · "@ + rule_name),
            ),
        }
    }

    pub open spec fn title(self) -> Text {
        match self.level {
            Level::Buses => "events"@,
            Level::Rules { event_bus_name } => "events / "@ + event_bus_name,
            Level::Detail { event_bus_name, rule_name } => "events / "@ + event_bus_name + " / "@ + rule_name,
        }
    }

    pub open spec fn hints(self) -> Seq<(Text, Text)> {
        if self.chooser is Some {
            seq![("j/k"@, "preset"@), ("enter"@, "usar"@), ("esc"@, "cancelar"@)]
        } else if self.form is Some {
            form::form_hints()
        } else if self.panel is Some {
            detail::panel_hints()
        } else {
            match self.level {
                Level::Buses => seq![("y"@, "copiar ARN"@), ("O"@, "consola"@), ("S"@, "enviar evento"@)],
                Level::Rules { .. } => seq![("y"@, "copiar nombre"@), ("O"@, "consola"@)],
                Level::Detail { .. } => seq![
                    ("enter"@, "ver input"@),
                    ("P"@, "ver patrón"@),
                    ("y"@, "copiar ARN target"@),
                    ("O"@, "consola"@),
                ],
            }
        }
    }

    pub open spec fn buses_title(self) -> Text {
        let total = text::decimal(self.buses.len());
        let partial = if self.buses_partial { " · parcial"@ } else { ""@ };
        if self.filter.len() == 0 {
            " "@ + total + " event buses"@ + partial + " · [S] enviar evento "@
        } else {
            " "@ + text::decimal(list::shown(self.buses, self.filter).len()) + "/"@ + total + " buses"@ + partial
                + " · filtro: "@ + self.filter + " "@
        }
    }

    pub open spec fn rules_title(self) -> Text {
        let name = match self.level {
            Level::Rules { event_bus_name } => event_bus_name,
            Level::Detail { event_bus_name, .. } => event_bus_name,
            Level::Buses => ""@,
        };
        let total = text::decimal(self.rules.len());
        let partial = if self.rules_partial { " · parcial"@ } else { ""@ };
        if self.filter.len() == 0 {
            " "@ + name + " · "@ + total + " rules"@ + partial + " "@
        } else {
            " "@ + name + " · "@ + text::decimal(list::shown(self.rules, self.filter).len()) + "/"@ + total + partial
                + " · filtro: "@ + self.filter + " "@
        }
    }

    pub open spec fn targets_title(self) -> Text {
        let total = text::decimal(self.targets.len());
        if self.filter.len() == 0 {
            " targets · "@ + total + " "@
        } else {
            " targets · "@ + text::decimal(list::shown(self.targets, self.filter).len()) + "/"@ + total
                + " · filtro: "@ + self.filter + " "@
        }
    }
}

impl EventsView {
    pub fn new() -> (r: Self)
        ensures
            r.model() == (EventsModel {
                level: Level::Buses,
                buses: Seq::empty(),
                rules: Seq::empty(),
                detail: None,
                targets: Seq::empty(),
                panel: None,
                form: None,
                filter: Seq::empty(),
                loading: false,
                buses_partial: false,
                rules_partial: false,
                selected: Some(0usize),
                presets: Seq::empty(),
                chooser: None,
            }),
    {
        EventsView {
            level: Level::Buses,
            buses: Vec::new(),
            rules: Vec::new(),
            detail: None,
            targets: Vec::new(),
            detail_panel: None,
            event_form: None,
            filter: String::new(),
            loading: false,
            buses_partial: false,
            rules_partial: false,
            state: ListState::new(Some(0)),
            presets: Vec::new(),
            preset_chooser: None,
        }
    }

    /// The view with events to offer before the form.
    pub fn with_presets(self, presets: Vec<EventPreset>) -> (r: Self)
        ensures
            r.model() == (EventsModel { presets: presets@, ..self.model() }),
    {
        EventsView { presets, ..self }
    }

    /// How many rows the filter shows.
    pub fn visible_len(&self) -> (r: usize)
        ensures
            r == self.model().visible(),
    {
        match self.level {
            Level::Buses => list::filtered(&self.buses, self.filter.as_str()).len(),
            Level::Rules { .. } => list::filtered(&self.rules, self.filter.as_str()).len(),
            Level::Detail { .. } => list::filtered(&self.targets, self.filter.as_str()).len(),
        }
    }

    fn clamp_selection(&mut self)
        ensures
            final(self).model() == old(self).model().clamped(),
    {
        let len: usize = self.visible_len();
        self.state.clamp(len);
    }

    fn enter_bus(&mut self, event_bus_name: &String)
        ensures
            final(self).model() == old(self).model().entering_bus(event_bus_name@),
    {
        self.level = Level::Rules { event_bus_name: event_bus_name.clone() };
        self.rules = Vec::new();
        self.rules_partial = false;
        self.loading = true;
        self.state.select(Some(0));
    }

    fn enter_rule(&mut self, event_bus_name: &String, rule_name: &String)
        ensures
            final(self).model() == old(self).model().entering_rule(event_bus_name@, rule_name@),
    {
        self.level = Level::Detail { event_bus_name: event_bus_name.clone(), rule_name: rule_name.clone() };
        self.detail = None;
        self.targets = Vec::new();
        self.loading = true;
        self.state.select(Some(0));
    }

    fn drill(&mut self) -> (r: Vec<Action>)
        ensures
            (final(self).model(), r.deep_view()) == old(self).model().drilled(),
    {
        match &self.level {
            Level::Buses => {
                let name = match list::pick(&self.buses, self.filter.as_str(), self.state.selected) {
                    Some(b) => b.name.clone(),
                    None => return nothing(),
                };
                self.enter_bus(&name);
                vec![
                    Action::ClearFilter,
                    Action::RecordRecent { key: name.clone(), label: name.clone() },
                    Action::LoadRules { event_bus_name: name },
                ]
            },
            Level::Rules { event_bus_name } => {
                let rule = match list::pick(&self.rules, self.filter.as_str(), self.state.selected) {
                    Some(r) => r.clone(),
                    None => return nothing(),
                };
                let bus = event_bus_name.clone();
                self.enter_rule(&bus, &rule.name);
                vec![
                    Action::ClearFilter,
                    Action::LoadRuleDetail { event_bus_name: rule.event_bus_name, rule_name: rule.name },
                ]
            },
            Level::Detail { .. } => nothing(),
        }
    }

    fn back(&mut self) -> (r: Vec<Action>)
        ensures
            (final(self).model(), r.deep_view()) == old(self).model().backed(),
    {
        self.detail_panel = None;
        self.event_form = None;
        match &self.level {
            Level::Detail { event_bus_name, .. } => {
                let event_bus_name = event_bus_name.clone();
                self.level = Level::Rules { event_bus_name };
                self.detail = None;
                self.targets = Vec::new();
                self.loading = false;
                self.state.select(Some(0));
                self.clamp_selection();
                vec![Action::ClearFilter]
            },
            Level::Rules { .. } => {
                self.level = Level::Buses;
                self.loading = false;
                self.state.select(Some(0));
                self.clamp_selection();
                vec![Action::ClearFilter]
            },
            Level::Buses => vec![Action::Back],
        }
    }

    fn refresh(&mut self) -> (r: Vec<Action>)
        ensures
            (final(self).model(), r.deep_view()) == old(self).model().refreshed(),
    {
        self.loading = true;
        match &self.level {
            Level::Buses => vec![Action::LoadEventBuses],
            Level::Rules { event_bus_name } => vec![Action::LoadRules { event_bus_name: event_bus_name.clone() }],
            Level::Detail { event_bus_name, rule_name } => vec![
                Action::LoadRuleDetail { event_bus_name: event_bus_name.clone(), rule_name: rule_name.clone() },
            ],
        }
    }

    fn open_send_form_with(&mut self, source: &str, detail_type: &str, detail: &str)
        ensures
            final(self).model() == old(self).model().composing(source@, detail_type@, detail@),
    {
        match self.level {
            Level::Buses => {},
            _ => return,
        }
        let name = match list::pick(&self.buses, self.filter.as_str(), self.state.selected) {
            Some(b) => b.name.clone(),
            None => return,
        };
        let mut title = "enviar evento → ".to_string();
        title.append(name.as_str());
        let fields: Vec<(&str, &str)> = vec![
            ("source", source),
            ("detail-type", detail_type),
            ("detail", detail),
            ("time (UTC, vacío=ahora)", ""),
            ("resources (ARNs, coma)", ""),
        ];
        proof {
            assert(fields.deep_view() =~= event_fields(source@, detail_type@, detail@));
        }
        let form = Form::new(title.as_str(), fields);
        self.event_form = Some((name, form));
    }

    fn open_canned_form(&mut self)
        ensures
            final(self).model() == old(self).model().composing_canned(),
    {
        self.open_send_form_with("awsdeck.manual", "awsdeck test event", "{\"sentBy\":\"awsdeck\"}");
    }

    fn start_send(&mut self)
        ensures
            final(self).model() == old(self).model().sending(),
    {
        match self.level {
            Level::Buses => {},
            _ => return,
        }
        if list::pick(&self.buses, self.filter.as_str(), self.state.selected).is_none() {
            return;
        }
        if self.presets.len() == 0 {
            self.open_canned_form();
        } else {
            self.preset_chooser = Some(ListState::new(Some(0)));
        }
    }

    fn choose_preset(&mut self)
        ensures
            final(self).model() == old(self).model().chosen(),
    {
        let row: usize = match &self.preset_chooser {
            Some(state) => match state.selected() {
                Some(i) => i,
                None => 0,
            },
            None => 0,
        };
        self.preset_chooser = None;
        if row == 0 {
            self.open_canned_form();
        } else if row - 1 < self.presets.len() {
            let source = self.presets[row - 1].source.clone();
            let detail_type = self.presets[row - 1].detail_type.clone();
            let detail = self.presets[row - 1].detail.clone();
            self.open_send_form_with(source.as_str(), detail_type.as_str(), detail.as_str());
        }
    }

    fn on_chooser_key(&mut self, key: KeyEvent)
        requires
            old(self).preset_chooser is Some,
        ensures
            final(self).model() == old(self).model().choosing(key),
    {
        let row: usize = match &self.preset_chooser {
            Some(state) => match state.selected() {
                Some(i) => i,
                None => 0,
            },
            None => 0,
        };
        let last: usize = self.presets.len();
        match key.code {
            KeyCode::Char('j') | KeyCode::Down => {
                self.preset_chooser = Some(ListState::new(Some(if row < last { row + 1 } else { last })));
            },
            KeyCode::Char('k') | KeyCode::Up => {
                let up: usize = if row == 0 { 0 } else { row - 1 };
                self.preset_chooser = Some(ListState::new(Some(if up > last { last } else { up })));
            },
            KeyCode::Enter => self.choose_preset(),
            KeyCode::Esc => {
                self.preset_chooser = None;
            },
            _ => {},
        }
    }

    /// Hands in the form: sends the event where it is sound, and says what is wrong otherwise.
    pub fn submit_form(&mut self) -> (r: Vec<Action>)
        ensures
            (final(self).model(), r.deep_view()) == old(self).model().submitted(),
    {
        let sound = match &self.event_form {
            Some((_, form)) => json::valid_json(text::trim(form.value(2).as_str()).as_str()),
            None => return nothing(),
        };
        self.submit_judged(sound)
    }

    /// Hands in the form, given whether its detail is JSON.
    pub fn submit_judged(&mut self, sound: bool) -> (r: Vec<Action>)
        ensures
            (final(self).model(), r.deep_view()) == old(self).model().judged(sound),
    {
        let (event_bus_name, mut form) = match self.event_form.take() {
            Some(open) => open,
            None => return nothing(),
        };
        if !sound {
            form.set_error("detail no es JSON válido (revisá comillas/llaves)");
            self.event_form = Some((event_bus_name, form));
            return nothing();
        }
        let when = text::trim(form.value(3).as_str());
        let time = if when.as_str().is_empty() {
            None
        } else {
            match parse_datetime(when.as_str()) {
                Some(ms) => Some(ms),
                None => {
                    form.set_error("time inválido: usa YYYY-MM-DD[THH:MM] (UTC)");
                    self.event_form = Some((event_bus_name, form));
                    return nothing();
                },
            }
        };
        let resources = resources_of(form.value(4).as_str());
        vec![
            Action::SendEvent {
                event_bus_name,
                source: form.value(0),
                detail_type: form.value(1),
                detail: form.value(2),
                time,
                resources,
            },
        ]
    }

    fn on_form_key(&mut self, key: KeyEvent) -> (r: Vec<Action>)
        ensures
            (final(self).model(), r.deep_view()) == old(self).model().editing(key),
    {
        let (bus, mut form) = match self.event_form.take() {
            Some(open) => open,
            None => return nothing(),
        };
        match form.on_key(key) {
            FormOutcome::Cancel => nothing(),
            FormOutcome::Submit => {
                self.event_form = Some((bus, form));
                self.submit_form()
            },
            FormOutcome::Editing => {
                self.event_form = Some((bus, form));
                nothing()
            },
        }
    }

    fn open_target_detail(&mut self)
        ensures
            final(self).model() == old(self).model().expanded(),
    {
        let panel = match list::pick(&self.targets, self.filter.as_str(), self.state.selected) {
            Some(t) => {
                let mut title = "target ".to_string();
                title.append(t.id.as_str());
                match &t.input {
                    Some(i) => DetailPanel::new(title.as_str(), i.as_str()),
                    None => DetailPanel::new(title.as_str(), "(este target no define input)"),
                }
            },
            None => return,
        };
        self.detail_panel = Some(panel);
    }

    fn open_pattern_detail(&mut self)
        ensures
            final(self).model() == old(self).model().expanded_pattern(),
    {
        let panel = match &self.detail {
            Some(d) => match &d.event_pattern {
                Some(p) => DetailPanel::new("event_pattern", p.as_str()),
                None => match &d.schedule_expression {
                    Some(s) => {
                        let mut raw = "schedule: ".to_string();
                        raw.append(s.as_str());
                        DetailPanel::new("event_pattern", raw.as_str())
                    },
                    None => DetailPanel::new("event_pattern", "(esta rule no tiene event_pattern)"),
                },
            },
            None => return,
        };
        self.detail_panel = Some(panel);
    }

    fn copy_text(&self) -> (r: Option<String>)
        ensures
            r.deep_view() == self.model().copy_text(),
    {
        match &self.level {
            Level::Buses => match list::pick(&self.buses, self.filter.as_str(), self.state.selected) {
                Some(b) => Some(b.arn.clone()),
                None => None,
            },
            Level::Rules { .. } => match list::pick(&self.rules, self.filter.as_str(), self.state.selected) {
                Some(r) => Some(r.name.clone()),
                None => None,
            },
            Level::Detail { .. } => match list::pick(&self.targets, self.filter.as_str(), self.state.selected) {
                Some(t) => Some(t.arn.clone()),
                None => None,
            },
        }
    }

    fn console_target(&self) -> (r: Option<ConsoleTarget>)
        ensures
            r.deep_view() == self.model().console_target(),
    {
        match &self.level {
            Level::Buses => match list::pick(&self.buses, self.filter.as_str(), self.state.selected) {
                Some(b) => Some(ConsoleTarget::EventBus { name: b.name.clone() }),
                None => None,
            },
            Level::Rules { event_bus_name } => match list::pick(
                &self.rules,
                self.filter.as_str(),
                self.state.selected,
            ) {
                Some(r) => Some(ConsoleTarget::Rule { event_bus: event_bus_name.clone(), name: r.name.clone() }),
                None => None,
            },
            Level::Detail { event_bus_name, rule_name } => Some(
                ConsoleTarget::Rule { event_bus: event_bus_name.clone(), name: rule_name.clone() },
            ),
        }
    }

    fn is_listing(&self, bus: &String) -> (r: bool)
        ensures
            r == self.model().lists(bus@),
    {
        match &self.level {
            Level::Rules { event_bus_name } => *event_bus_name == *bus,
            _ => false,
        }
    }

    fn is_showing(&self, bus: &String, rule: &String) -> (r: bool)
        ensures
            r == self.model().shows(bus@, rule@),
    {
        match &self.level {
            Level::Detail { event_bus_name, rule_name } => *event_bus_name == *bus && *rule_name == *rule,
            _ => false,
        }
    }

    /// Caption of the list of buses.
    pub fn buses_title(&self) -> (r: String)
        ensures
            r@ == self.model().buses_title(),
    {
        let partial = if self.buses_partial { " · parcial" } else { "" };
        let mut out = " ".to_string();
        if self.filter.as_str().is_empty() {
            out.append(text::dec_text(self.buses.len() as u64).as_str());
            out.append(" event buses");
            out.append(partial);
            out.append(" · [S] enviar evento ");
        } else {
            let rows: usize = list::filtered(&self.buses, self.filter.as_str()).len();
            out.append(text::dec_text(rows as u64).as_str());
            out.append("/");
            out.append(text::dec_text(self.buses.len() as u64).as_str());
            out.append(" buses");
            out.append(partial);
            out.append(" · filtro: ");
            out.append(self.filter.as_str());
            out.append(" ");
        }
        out
    }

    /// Caption of the list of rules.
    pub fn rules_title(&self) -> (r: String)
        ensures
            r@ == self.model().rules_title(),
    {
        let name = match &self.level {
            Level::Rules { event_bus_name } => event_bus_name.as_str(),
            Level::Detail { event_bus_name, .. } => event_bus_name.as_str(),
            Level::Buses => "",
        };
        let partial = if self.rules_partial { " · parcial" } else { "" };
        let mut out = " ".to_string();
        out.append(name);
        out.append(" · ");
        if self.filter.as_str().is_empty() {
            out.append(text::dec_text(self.rules.len() as u64).as_str());
            out.append(" rules");
            out.append(partial);
            out.append(" ");
        } else {
            let rows: usize = list::filtered(&self.rules, self.filter.as_str()).len();
            out.append(text::dec_text(rows as u64).as_str());
            out.append("/");
            out.append(text::dec_text(self.rules.len() as u64).as_str());
            out.append(partial);
            out.append(" · filtro: ");
            out.append(self.filter.as_str());
            out.append(" ");
        }
        out
    }

    /// Caption of the list of targets.
    pub fn targets_title(&self) -> (r: String)
        ensures
            r@ == self.model().targets_title(),
    {
        let mut out = " targets · ".to_string();
        if self.filter.as_str().is_empty() {
            out.append(text::dec_text(self.targets.len() as u64).as_str());
            out.append(" ");
        } else {
            let rows: usize = list::filtered(&self.targets, self.filter.as_str()).len();
            out.append(text::dec_text(rows as u64).as_str());
            out.append("/");
            out.append(text::dec_text(self.targets.len() as u64).as_str());
            out.append(" · filtro: ");
            out.append(self.filter.as_str());
            out.append(" ");
        }
        out
    }
}

impl DeckView for EventsView {
    type Model = EventsModel;

    open spec fn model(&self) -> EventsModel {
        EventsModel {
            level: self.level.deep_view(),
            buses: self.buses@,
            rules: self.rules@,
            detail: self.detail,
            targets: self.targets@,
            panel: self.detail_panel.deep_view(),
            form: form_view(self.event_form),
            filter: self.filter@,
            loading: self.loading,
            buses_partial: self.buses_partial,
            rules_partial: self.rules_partial,
            selected: self.state.selected,
            presets: self.presets@,
            chooser: chooser_view(self.preset_chooser),
        }
    }

    open spec fn wf(&self) -> bool {
        true
    }

    open spec fn id_text(m: EventsModel) -> Text {
        "events"@
    }

    open spec fn description_text(m: EventsModel) -> Text {
        "EventBridge: buses, rules, patrón y send"@
    }

    open spec fn title_text(m: EventsModel) -> Text {
        m.title()
    }

    open spec fn activated(m: EventsModel) -> (EventsModel, Seq<ActionText>) {
        (m.activated(), seq![ActionText::LoadEventBuses])
    }

    open spec fn opened(m: EventsModel, context: ViewContext<Text>) -> (EventsModel, Seq<ActionText>) {
        match context {
            ViewContext::Favorite { key } => m.opened_at(key),
            _ => Self::activated(m),
        }
    }

    open spec fn keyed(m: EventsModel, key: KeyEvent) -> (EventsModel, Seq<ActionText>) {
        m.keyed(key)
    }

    open spec fn informed(m: EventsModel, message: Message) -> EventsModel {
        m.informed(message)
    }

    open spec fn narrowed(m: EventsModel, filter: Text) -> EventsModel {
        EventsModel { filter, selected: Some(0usize), ..m }.clamped()
    }

    open spec fn searched(m: EventsModel, query: Text) -> (EventsModel, Seq<ActionText>) {
        (m, seq![])
    }

    open spec fn commanded(m: EventsModel, cmd: Text) -> (EventsModel, Seq<ActionText>) {
        (m, seq![])
    }

    open spec fn ticked(m: EventsModel) -> (EventsModel, Seq<ActionText>) {
        (m, seq![])
    }

    open spec fn takes_raw_input(m: EventsModel) -> bool {
        m.form is Some || m.chooser is Some
    }

    open spec fn favorite(m: EventsModel) -> Option<(Text, Text)> {
        m.favorite()
    }

    open spec fn hint_texts(m: EventsModel) -> Seq<(Text, Text)> {
        m.hints()
    }

    open spec fn at_root(m: EventsModel) -> bool {
        m.level is Buses && m.panel is None && m.form is None && m.chooser is None
    }

    proof fn law_esc_at_root_goes_back(m: EventsModel, key: KeyEvent) {
    }

    fn id(&self) -> (r: &'static str) {
        "events"
    }

    fn description(&self) -> (r: &'static str) {
        "EventBridge: buses, rules, patrón y send"
    }

    fn title(&self) -> (r: String) {
        match &self.level {
            Level::Buses => "events".to_string(),
            Level::Rules { event_bus_name } => {
                let mut out = "events / ".to_string();
                out.append(event_bus_name.as_str());
                out
            },
            Level::Detail { event_bus_name, rule_name } => {
                let mut out = "events / ".to_string();
                out.append(event_bus_name.as_str());
                out.append(" / ");
                out.append(rule_name.as_str());
                out
            },
        }
    }

    fn on_activate(&mut self) -> (r: Vec<Action>) {
        self.level = Level::Buses;
        self.rules = Vec::new();
        self.detail = None;
        self.detail_panel = None;
        self.event_form = None;
        self.targets = Vec::new();
        self.loading = true;
        self.buses_partial = false;
        self.rules_partial = false;
        self.state.select(Some(0));
        vec![Action::LoadEventBuses]
    }

    fn on_context(&mut self, context: &ViewContext) -> (r: Vec<Action>) {
        match context {
            ViewContext::Favorite { key } => {
                self.detail_panel = None;
                self.event_form = None;
                match split_key(key.as_str()) {
                    Some((event_bus_name, rule_name)) => {
                        self.enter_rule(&event_bus_name, &rule_name);
                        vec![Action::LoadRuleDetail { event_bus_name, rule_name }]
                    },
                    None => {
                        self.enter_bus(key);
                        vec![Action::LoadRules { event_bus_name: key.clone() }]
                    },
                }
            },
            _ => self.on_activate(),
        }
    }

    fn on_key(&mut self, key: KeyEvent) -> (r: Vec<Action>) {
        if self.preset_chooser.is_some() {
            self.on_chooser_key(key);
            return nothing();
        }
        if self.event_form.is_some() {
            return self.on_form_key(key);
        }
        if self.detail_panel.is_some() {
            let mut panel = self.detail_panel.take().unwrap();
            if key.code == KeyCode::Char('y') {
                let text = panel.content().to_string();
                self.detail_panel = Some(panel);
                return vec![Action::CopyToClipboard { text }];
            }
            let close = panel.on_key(key);
            if !close {
                self.detail_panel = Some(panel);
            }
            return nothing();
        }
        match key.code {
            KeyCode::Char('j') | KeyCode::Down => {
                let len: usize = self.visible_len();
                self.state.down(len);
                nothing()
            },
            KeyCode::Char('k') | KeyCode::Up => {
                let len: usize = self.visible_len();
                self.state.up(len);
                nothing()
            },
            KeyCode::Char('g') | KeyCode::Home => {
                let len: usize = self.visible_len();
                self.state.to_edge(len, false);
                nothing()
            },
            KeyCode::Char('G') | KeyCode::End => {
                let len: usize = self.visible_len();
                self.state.to_edge(len, true);
                nothing()
            },
            KeyCode::Enter => match self.level {
                Level::Detail { .. } => {
                    self.open_target_detail();
                    nothing()
                },
                _ => self.drill(),
            },
            KeyCode::Char('P') => {
                match self.level {
                    Level::Detail { .. } => self.open_pattern_detail(),
                    _ => {},
                }
                nothing()
            },
            KeyCode::Esc => self.back(),
            KeyCode::Char('r') => self.refresh(),
            KeyCode::Char('S') => {
                self.start_send();
                nothing()
            },
            KeyCode::Char('y') => match self.copy_text() {
                Some(text) => vec![Action::CopyToClipboard { text }],
                None => nothing(),
            },
            KeyCode::Char('O') => match self.console_target() {
                Some(target) => vec![Action::OpenConsole { target }],
                None => nothing(),
            },
            _ => nothing(),
        }
    }

    fn on_message(&mut self, message: &Message) {
        match message {
            Message::EventBusesLoaded { buses, more } => {
                self.buses = buses.clone();
                assert(self.buses@ =~= buses@);
                self.buses_partial = *more;
                let listed = match self.level {
                    Level::Buses => true,
                    _ => false,
                };
                if listed {
                    self.loading = false;
                    self.clamp_selection();
                }
            },
            Message::RulesLoaded { event_bus_name, rules, more } => {
                if self.is_listing(event_bus_name) {
                    self.rules = rules.clone();
                    assert(self.rules@ =~= rules@);
                    self.rules_partial = *more;
                    self.loading = false;
                    self.clamp_selection();
                }
            },
            Message::RuleDetailLoaded { event_bus_name, rule_name, detail, targets } => {
                if self.is_showing(event_bus_name, rule_name) {
                    self.detail = Some(detail.clone());
                    self.targets = targets.clone();
                    assert(self.targets@ =~= targets@);
                    self.loading = false;
                    self.clamp_selection();
                }
            },
            Message::Error { .. } => {
                self.loading = false;
            },
            _ => {},
        }
    }

    fn set_filter(&mut self, filter: &str) {
        self.filter = filter.to_string();
        self.state.select(Some(0));
        self.clamp_selection();
    }

    fn search(&mut self, query: &str) -> (r: Vec<Action>) {
        nothing()
    }

    fn on_command(&mut self, cmd: &str) -> (r: Vec<Action>) {
        nothing()
    }

    fn on_tick(&mut self) -> (r: Vec<Action>) {
        nothing()
    }

    fn wants_raw_input(&self) -> (r: bool) {
        self.event_form.is_some() || self.preset_chooser.is_some()
    }

    fn selected_favorite(&self) -> (r: Option<(String, String)>) {
        match &self.level {
            Level::Buses => match list::pick(&self.buses, self.filter.as_str(), self.state.selected) {
                Some(b) => Some((b.name.clone(), b.name.clone())),
                None => None,
            },
            Level::Rules { event_bus_name } => match list::pick(
                &self.rules,
                self.filter.as_str(),
                self.state.selected,
            ) {
                Some(r) => {
                    let mut label = event_bus_name.clone();
                    label.append(" · ");
                    label.append(r.name.as_str());
                    Some((join_key(event_bus_name.as_str(), r.name.as_str()), label))
                },
                None => None,
            },
            Level::Detail { event_bus_name, rule_name } => {
                let mut label = event_bus_name.clone();
                label.append(" · ");
                label.append(rule_name.as_str());
                Some((join_key(event_bus_name.as_str(), rule_name.as_str()), label))
            },
        }
    }

    fn hints(&self) -> (r: Vec<(&'static str, &'static str)>) {
        if self.preset_chooser.is_some() {
            return vec![("j/k", "preset"), ("enter", "usar"), ("esc", "cancelar")];
        }
        match (&self.event_form, &self.detail_panel) {
            (Some((_, form)), _) => form.hints(),
            (None, Some(p)) => p.hints(),
            (None, None) => match self.level {
                Level::Buses => vec![("y", "copiar ARN"), ("O", "consola"), ("S", "enviar evento")],
                Level::Rules { .. } => vec![("y", "copiar nombre"), ("O", "consola")],
                Level::Detail { .. } => vec![
                    ("enter", "ver input"),
                    ("P", "ver patrón"),
                    ("y", "copiar ARN target"),
                    ("O", "consola"),
                ],
            },
        }
    }
}

// --- rows ------------------------------------------------------------------------------------

/// The colour of a rule's state.
pub open spec fn color_of(s: RuleState) -> Color {
    if s == RuleState::Enabled {
        Color::Green
    } else {
        Color::DarkGray
    }
}

/// The colour of a rule's state.
pub fn state_color(s: RuleState) -> (r: Color)
    ensures
        r == color_of(s),
        r == (if s == RuleState::Enabled { Color::Green } else { Color::DarkGray }),
{
    match s {
        RuleState::Enabled => Color::Green,
        RuleState::Disabled => Color::DarkGray,
    }
}

impl EventsModel {
    /// Description and schedule of the rule on screen, `None` while they are not known.
    pub open spec fn meta_rows(self) -> Option<Seq<(Text, Text)>> {
        match self.detail {
            None => None,
            Some(d) => Some(
                sfn::payload_row("descr"@, d.description) + sfn::payload_row("schedule"@, d.schedule_expression),
            ),
        }
    }
}

impl EventsView {
    /// Description and schedule of the rule on screen, `None` while they are not known.
    pub fn meta_rows(&self) -> (r: Option<Vec<(&'static str, String)>>)
        ensures
            r.deep_view() == self.model().meta_rows(),
    {
        match &self.detail {
            None => None,
            Some(d) => {
                let mut rows: Vec<(&'static str, String)> = Vec::new();
                sfn::push_payload(&mut rows, "descr", &d.description);
                sfn::push_payload(&mut rows, "schedule", &d.schedule_expression);
                proof {
                    assert(rows.deep_view() =~= self.model().meta_rows()->0);
                }
                Some(rows)
            },
        }
    }
}

/// What the row of a rule says: its name, its state, and its description on one line.
pub open spec fn rule_texts(r: RuleDto) -> (Text, Text, Text) {
    (
        r.name@,
        if r.state == RuleState::Enabled { "[enabled]"@ } else { "[disabled]"@ },
        match r.description {
            Some(d) => sfn::flat_text(d@, 50),
            None => ""@,
        },
    )
}

/// The row of a rule: its name, its state, and its description on one line.
pub fn rule_row(r: &RuleDto) -> (row: (String, &'static str, String))
    ensures
        row.0@ == r.name@,
        row.1@ == (if r.state == RuleState::Enabled { "[enabled]"@ } else { "[disabled]"@ }),
        row.2@ == (match r.description {
            Some(d) => sfn::flat_text(d@, 50),
            None => ""@,
        }),
        (row.0@, row.1@, row.2@) == rule_texts(*r),
{
    let badge = match r.state {
        RuleState::Enabled => "[enabled]",
        RuleState::Disabled => "[disabled]",
    };
    let description = match &r.description {
        Some(d) => oneline(d.as_str(), 50),
        None => "".to_string(),
    };
    (r.name.clone(), badge, description)
}

/// What the row of a target says: its id, its ARN, and its input on one line, where it has one.
pub open spec fn target_texts(t: TargetDto) -> (Text, Text, Option<Text>) {
    (
        t.id@,
        t.arn@,
        match t.input {
            Some(i) => Some("  input: "@ + sfn::flat_text(i@, 40)),
            None => None,
        },
    )
}

/// The row of a target: its id, its ARN, and its input on one line, where it has one.
pub fn target_row(t: &TargetDto) -> (row: (String, String, Option<String>))
    ensures
        row.0@ == t.id@,
        row.1@ == t.arn@,
        row.2.deep_view() == (match t.input {
            Some(i) => Some("  input: "@ + sfn::flat_text(i@, 40)),
            None => None,
        }),
        (row.0@, row.1@, row.2.deep_view()) == target_texts(*t),
{
    let input = match &t.input {
        Some(i) => {
            let mut out = "  input: ".to_string();
            out.append(oneline(i.as_str(), 40).as_str());
            Some(out)
        },
        None => None,
    };
    (t.id.clone(), t.arn.clone(), input)
}

// --- laws ------------------------------------------------------------------------------------

/// Results about another bus or another rule than the one on screen change nothing.
pub proof fn law_other_resources_are_ignored(m: EventsModel, message: Message)
    requires
        match message {
            Message::RulesLoaded { event_bus_name, .. } => !m.lists(event_bus_name@),
            Message::RuleDetailLoaded { event_bus_name, rule_name, .. } => !m.shows(event_bus_name@, rule_name@),
            _ => false,
        },
    ensures
        m.informed(message) == m,
{
}

/// An event is only ever wanted when a form is handed in whose detail is JSON; it goes to the bus
/// that the form was opened for, and the form is closed.
pub proof fn law_events_are_checked(m: EventsModel, key: KeyEvent, i: int)
    requires
        0 <= i < m.keyed(key).1.len(),
        m.keyed(key).1[i] is SendEvent,
    ensures
        key.code == KeyCode::Enter,
        m.form is Some,
        json::is_json(text::trimmed(m.keyed(key).1[i]->SendEvent_detail)),
        m.keyed(key).1[i]->SendEvent_event_bus_name == (m.form->0).0,
        m.keyed(key).0.form is None,
{
}

/// A form that is not sound stays open and says why, and nothing is asked for.
pub proof fn law_unsound_events_stay(m: EventsModel)
    requires
        m.form matches Some((_, f)) && (!json::is_json(text::trimmed(f.value(2))) || time_named(f.value(3)) is None),
    ensures
        m.submitted().1.len() == 0,
        m.submitted().0.form matches Some((bus, f)) && bus == (m.form->0).0 && f.fields == (m.form->0).1.fields
            && f.error is Some,
{
}

/// The form and the choice of a preset open on the list of buses only.
pub proof fn law_events_are_composed_at_the_buses(m: EventsModel, key: KeyEvent)
    requires
        !(m.level is Buses),
        m.form is None,
        m.chooser is None,
    ensures
        m.keyed(key).0.form is None,
        m.keyed(key).0.chooser is None,
{
}

/// `Esc` takes the view up one level, keeps the lists of that level, and forgets the filter.
pub proof fn law_esc_goes_up_one_level(m: EventsModel, key: KeyEvent)
    requires
        m.panel is None,
        m.form is None,
        m.chooser is None,
        key.code == KeyCode::Esc,
    ensures
        m.level is Detail ==> m.keyed(key).0.level is Rules && m.keyed(key).0.rules == m.rules,
        m.level is Rules ==> m.keyed(key).0.level is Buses && m.keyed(key).0.buses == m.buses,
        !(m.level is Buses) ==> m.keyed(key).1 == seq![ActionText::ClearFilter],
{
}

/// Opening the favourite of a rule shows the detail of that rule of that bus.
pub proof fn law_a_favorite_rule_opens_itself(m: EventsModel, n: EventsModel)
    requires
        m.level matches Level::Detail { event_bus_name, .. } && !event_bus_name.contains('\u{1f}'),
    ensures
        m.favorite() matches Some((key, _)) && m.level matches Level::Detail { event_bus_name, rule_name }
            && n.opened_at(key).0.shows(event_bus_name, rule_name),
{
    if let Level::Detail { event_bus_name, rule_name } = m.level {
        views::law_deep_keys_come_apart(event_bus_name, rule_name);
    }
}

/// The lists of a view that runs fit in memory.
pub open spec fn fits_in_memory(m: EventsModel) -> bool {
    m.buses.len() <= usize::MAX && m.rules.len() <= usize::MAX && m.targets.len() <= usize::MAX
}

/// Whatever happens to the view, its selection stays inside the list on screen, or on the first row
/// of a list that is still to come.
pub proof fn law_selection_stays_inside(
    m: EventsModel,
    key: KeyEvent,
    message: Message,
    context: ViewContext<Text>,
    line: Text,
)
    requires
        fits_in_memory(m),
        list::inside(m.selected, m.visible()),
    ensures
        ({
            let n = EventsView::activated(m).0;
            list::inside(n.selected, n.visible())
        }),
        ({
            let n = EventsView::opened(m, context).0;
            list::inside(n.selected, n.visible())
        }),
        ({
            let n = EventsView::keyed(m, key).0;
            list::inside(n.selected, n.visible())
        }),
        ({
            let n = EventsView::informed(m, message);
            list::inside(n.selected, n.visible())
        }),
        ({
            let n = EventsView::narrowed(m, line);
            list::inside(n.selected, n.visible())
        }),
        ({
            let n = EventsView::searched(m, line).0;
            list::inside(n.selected, n.visible())
        }),
        ({
            let n = EventsView::commanded(m, line).0;
            list::inside(n.selected, n.visible())
        }),
        ({
            let n = EventsView::ticked(m).0;
            list::inside(n.selected, n.visible())
        }),
{
    list::lemma_shown_count(m.buses, m.filter);
    list::lemma_shown_count(m.rules, m.filter);
    list::lemma_shown_count(m.targets, m.filter);
    list::lemma_shown_count(m.buses, line);
    list::lemma_shown_count(m.rules, line);
    list::lemma_shown_count(m.targets, line);
    match message {
        Message::EventBusesLoaded { buses, .. } => {
            assert(buses@.len() == buses.len());
            list::lemma_shown_count(buses@, m.filter);
        },
        Message::RulesLoaded { rules, .. } => {
            assert(rules@.len() == rules.len());
            list::lemma_shown_count(rules@, m.filter);
        },
        Message::RuleDetailLoaded { targets, .. } => {
            assert(targets@.len() == targets.len());
            list::lemma_shown_count(targets@, m.filter);
        },
        _ => {},
    }
}

// --- what the keys are for ---------------------------------------------------------------------

/// Nothing lies over the list.
pub open spec fn is_plain(m: EventsModel) -> bool {
    m.chooser is None && m.form is None && m.panel is None
}

/// A preset that is chosen fills the form: `Enter` on row `i + 1` of the choice opens the form for
/// the selected bus with the source, the detail type and the detail of preset `i`, and leaves its
/// other fields empty.
pub proof fn law_the_chosen_preset_fills_the_form(m: EventsModel, key: KeyEvent, i: int, bus: EventBusDto)
    requires
        key.code == KeyCode::Enter,
        0 <= i < m.presets.len() < usize::MAX,
        m.chooser == Some(Some((i + 1) as usize)),
        m.level is Buses,
        list::is_selected(m.buses, m.filter, m.selected, bus),
    ensures
        ({
            let (n, actions) = EventsView::keyed(m, key);
            &&& actions.len() == 0
            &&& n.chooser is None
            &&& n.form matches Some((to, f)) && {
                &&& to == bus.name@
                &&& f.fields.len() == 5
                &&& f.value(0) == m.presets[i].source@
                &&& f.value(1) == m.presets[i].detail_type@
                &&& f.value(2) == m.presets[i].detail@
                &&& f.value(3).len() == 0
                &&& f.value(4).len() == 0
            }
        }),
{
    reveal_strlit("");
}

/// The first row of the choice, and `S` where there are no presets, open the form with an event
/// from scratch for the selected bus.
pub proof fn law_events_from_scratch(m: EventsModel, key: KeyEvent, bus: EventBusDto)
    requires
        m.level is Buses,
        list::is_selected(m.buses, m.filter, m.selected, bus),
        (key.code == KeyCode::Enter && m.chooser == Some(Some(0usize))) || (key.code == KeyCode::Char('S') && is_plain(m)
            && m.presets.len() == 0),
    ensures
        ({
            let (n, actions) = EventsView::keyed(m, key);
            &&& actions.len() == 0
            &&& n.chooser is None
            &&& n.form matches Some((to, f)) && {
                &&& to == bus.name@
                &&& f.fields.len() == 5
                &&& f.value(0) == "awsdeck.manual"@
                &&& f.value(1) == "awsdeck test event"@
                &&& f.value(2) == "{\"sentBy\":\"awsdeck\"}"@
                &&& f.value(3).len() == 0
                &&& f.value(4).len() == 0
            }
        }),
{
    reveal_strlit("");
}

/// With presets, `S` offers them, on the first row; `j` and `k` go through the event from scratch
/// and every preset, and `Esc` gives up the choice.
pub proof fn law_presets_are_gone_through(m: EventsModel, key: KeyEvent, row: usize, bus: EventBusDto)
    requires
        m.level is Buses,
        list::is_selected(m.buses, m.filter, m.selected, bus),
        m.presets.len() < usize::MAX,
    ensures
        is_plain(m) && m.presets.len() > 0 && key.code == KeyCode::Char('S') ==> EventsView::keyed(m, key) == (
            EventsModel { chooser: Some(Some(0usize)), ..m },
            Seq::<ActionText>::empty(),
        ),
        m.chooser == Some(Some(row)) && row < m.presets.len() && (key.code == KeyCode::Char('j') || key.code
            == KeyCode::Down) ==> EventsView::keyed(m, key).0.chooser == Some(Some((row + 1) as usize)),
        m.chooser == Some(Some(row)) && row == m.presets.len() && (key.code == KeyCode::Char('j') || key.code
            == KeyCode::Down) ==> EventsView::keyed(m, key).0.chooser == Some(Some(row)),
        m.chooser == Some(Some(row)) && 0 < row <= m.presets.len() && (key.code == KeyCode::Char('k') || key.code
            == KeyCode::Up) ==> EventsView::keyed(m, key).0.chooser == Some(Some((row - 1) as usize)),
        m.chooser == Some(Some(row)) && row == 0 && (key.code == KeyCode::Char('k') || key.code == KeyCode::Up)
            ==> EventsView::keyed(m, key).0.chooser == Some(Some(0usize)),
        m.chooser is Some && key.code == KeyCode::Esc ==> EventsView::keyed(m, key) == (
            EventsModel { chooser: None, ..m },
            Seq::<ActionText>::empty(),
        ),
{
}

/// A form that is handed in sends what stands in its fields, to the bus it was opened for; an empty
/// time is none.
pub proof fn law_a_sound_form_is_sent(m: EventsModel, key: KeyEvent, bus: Text, f: FormModel)
    requires
        m.chooser is None,
        m.form == Some((bus, f)),
        f.fields.len() == 5,
        key.code == KeyCode::Enter,
        json::is_json(text::trimmed(f.fields[2].1.text)),
    ensures
        ({
            let (n, actions) = EventsView::keyed(m, key);
            let when = text::trimmed(f.fields[3].1.text);
            match util::datetime_value(when) {
                Some(ms) => when.len() > 0 ==> n.form is None && actions == seq![
                    ActionText::SendEvent {
                        event_bus_name: bus,
                        source: f.fields[0].1.text,
                        detail_type: f.fields[1].1.text,
                        detail: f.fields[2].1.text,
                        time: Some(ms as i64),
                        resources: resource_names(f.fields[4].1.text),
                    },
                ],
                None => if when.len() == 0 {
                    n.form is None && actions == seq![
                        ActionText::SendEvent {
                            event_bus_name: bus,
                            source: f.fields[0].1.text,
                            detail_type: f.fields[1].1.text,
                            detail: f.fields[2].1.text,
                            time: None,
                            resources: resource_names(f.fields[4].1.text),
                        },
                    ]
                } else {
                    n.form is Some && actions.len() == 0
                },
            }
        }),
{
}

/// `Esc` gives up the form, and nothing is sent.
pub proof fn law_esc_gives_up_the_form(m: EventsModel, key: KeyEvent)
    requires
        m.chooser is None,
        m.form is Some,
        key.code == KeyCode::Esc,
    ensures
        EventsView::keyed(m, key) == (EventsModel { form: None, ..m }, Seq::<ActionText>::empty()),
{
}

proof fn lemma_filled(parts: Seq<Text>)
    requires
        forall|i: int|
            0 <= i < parts.len() ==> (#[trigger] parts[i]).len() > 0 && !text::is_space(parts[i][0]) && !text::is_space(
                parts[i].last(),
            ),
    ensures
        filled(parts) == parts,
    decreases parts.len(),
{
    if parts.len() > 0 {
        let before = parts.drop_last();
        assert forall|i: int| 0 <= i < before.len() implies (#[trigger] before[i]).len() > 0 && !text::is_space(
            before[i][0],
        ) && !text::is_space(before[i].last()) by {
            assert(before[i] == parts[i]);
        }
        lemma_filled(before);
        assert(parts[parts.len() - 1] == parts.last());
        text::lemma_already_trimmed(parts.last());
        assert(before.push(parts.last()) =~= parts);
    }
}

/// Resources that are written with commas between them are read back; an empty field names none.
pub proof fn law_resources_are_read_back(named: Seq<Text>)
    requires
        forall|i: int|
            0 <= i < named.len() ==> (#[trigger] named[i]).len() > 0 && !named[i].contains(',') && !text::is_space(
                named[i][0],
            ) && !text::is_space(named[i].last()),
    ensures
        resource_names(text::joined(named, seq![','])) == named,
{
    if named.len() == 0 {
        text::lemma_split_first(Seq::empty(), ',', Seq::empty());
        let one = seq![Seq::<char>::empty()];
        assert(text::split_on(Seq::empty(), ',') =~= one);
        assert(one.drop_last() =~= Seq::empty());
        assert(filled(Seq::empty()) == Seq::<Text>::empty());
        text::lemma_already_trimmed(Seq::empty());
        assert(filled(one) =~= named);
    } else {
        text::law_joined_parts_are_split_again(named, ',');
        lemma_filled(named);
    }
}

/// `Enter` on a bus lists its rules and remembers it, on a rule shows its detail, and on a target
/// its input in full.
pub proof fn law_enter_goes_into_what_is_selected(m: EventsModel, key: KeyEvent)
    requires
        is_plain(m),
        key.code == KeyCode::Enter,
    ensures
        m.level is Buses ==> forall|b: EventBusDto| #[trigger]
            list::is_selected(m.buses, m.filter, m.selected, b) ==> ({
                let (n, actions) = EventsView::keyed(m, key);
                n.level == (Level::Rules { event_bus_name: b.name@ }) && n.rules.len() == 0 && actions == seq![
                    ActionText::ClearFilter,
                    ActionText::RecordRecent { key: b.name@, label: b.name@ },
                    ActionText::LoadRules { event_bus_name: b.name@ },
                ]
            }),
        m.level is Rules ==> forall|r: RuleDto| #[trigger]
            list::is_selected(m.rules, m.filter, m.selected, r) ==> ({
                let (n, actions) = EventsView::keyed(m, key);
                n.level == (Level::Detail { event_bus_name: m.level->Rules_event_bus_name, rule_name: r.name@ })
                    && n.detail is None && n.targets.len() == 0 && actions == seq![
                    ActionText::ClearFilter,
                    ActionText::LoadRuleDetail { event_bus_name: r.event_bus_name@, rule_name: r.name@ },
                ]
            }),
        m.level is Detail ==> forall|t: TargetDto| #[trigger]
            list::is_selected(m.targets, m.filter, m.selected, t) ==> ({
                let (n, actions) = EventsView::keyed(m, key);
                n.level == m.level && actions.len() == 0 && (n.panel matches Some(p) && (t.input matches Some(input)
                    ==> p.raw == input@))
            }),
{
}

/// `P` shows the pattern of the rule in full, or else its schedule.
pub proof fn law_p_shows_the_pattern(m: EventsModel, key: KeyEvent, d: RuleDetailDto)
    requires
        is_plain(m),
        key.code == KeyCode::Char('P'),
        m.level is Detail,
        m.detail == Some(d),
    ensures
        EventsView::keyed(m, key).1.len() == 0,
        EventsView::keyed(m, key).0.panel matches Some(p) && {
            &&& d.event_pattern matches Some(pattern) ==> p.raw == pattern@
            &&& d.event_pattern is None && d.schedule_expression is Some ==> text::has_suffix(
                p.raw,
                d.schedule_expression->0@,
            )
        },
{
    if d.event_pattern is None {
        if let Some(s) = d.schedule_expression {
            let shown = "schedule: "@ + s@;
            assert(shown.skip(shown.len() - s@.len()) =~= s@);
        }
    }
}

/// `r` asks again for what is on screen.
pub proof fn law_r_asks_again(m: EventsModel, key: KeyEvent)
    requires
        is_plain(m),
        key.code == KeyCode::Char('r'),
    ensures
        EventsView::keyed(m, key) == (
            EventsModel { loading: true, ..m },
            seq![
                match m.level {
                    Level::Buses => ActionText::LoadEventBuses,
                    Level::Rules { event_bus_name } => ActionText::LoadRules { event_bus_name },
                    Level::Detail { event_bus_name, rule_name } => ActionText::LoadRuleDetail {
                        event_bus_name,
                        rule_name,
                    },
                },
            ],
        ),
{
}

/// `y` copies the ARN of the selected bus or target, or the name of the selected rule; `O` opens
/// what is selected in the web console.
pub proof fn law_keys_name_what_is_selected(m: EventsModel, key: KeyEvent)
    requires
        is_plain(m),
    ensures
        m.level is Buses ==> forall|b: EventBusDto| #[trigger]
            list::is_selected(m.buses, m.filter, m.selected, b) ==> (key.code == KeyCode::Char('y')
                ==> EventsView::keyed(m, key).1 == seq![ActionText::CopyToClipboard { text: b.arn@ }]) && (key.code
                == KeyCode::Char('O') ==> EventsView::keyed(m, key).1 == seq![
                ActionText::OpenConsole { target: ConsoleTarget::EventBus { name: b.name@ } },
            ]) && EventsView::favorite(m) == Some((b.name@, b.name@)),
        m.level is Rules ==> forall|r: RuleDto| #[trigger]
            list::is_selected(m.rules, m.filter, m.selected, r) ==> (key.code == KeyCode::Char('y') ==> EventsView::keyed(
                m,
                key,
            ).1 == seq![ActionText::CopyToClipboard { text: r.name@ }]) && (key.code == KeyCode::Char('O')
                ==> EventsView::keyed(m, key).1 == seq![
                ActionText::OpenConsole {
                    target: ConsoleTarget::Rule { event_bus: m.level->Rules_event_bus_name, name: r.name@ },
                },
            ]) && (EventsView::favorite(m) matches Some((favorite, _)) && favorite == views::deep_key(
                m.level->Rules_event_bus_name,
                r.name@,
            )),
        m.level is Detail ==> forall|t: TargetDto| #[trigger]
            list::is_selected(m.targets, m.filter, m.selected, t) ==> (key.code == KeyCode::Char('y')
                ==> EventsView::keyed(m, key).1 == seq![ActionText::CopyToClipboard { text: t.arn@ }]),
        m.level is Detail && key.code == KeyCode::Char('O') ==> EventsView::keyed(m, key).1 == seq![
            ActionText::OpenConsole {
                target: ConsoleTarget::Rule {
                    event_bus: m.level->Detail_event_bus_name,
                    name: m.level->Detail_rule_name,
                },
            },
        ],
{
}

/// Answers about what is on screen are shown, and loading ends.
pub proof fn law_answers_are_shown(m: EventsModel, message: Message)
    ensures
        match message {
            Message::EventBusesLoaded { buses, more } => ({
                let n = EventsView::informed(m, message);
                n.buses == buses@ && n.buses_partial == more && (m.level is Buses ==> !n.loading)
            }),
            Message::RulesLoaded { event_bus_name, rules, more } => m.level == (Level::Rules {
                event_bus_name: event_bus_name@,
            }) ==> ({
                let n = EventsView::informed(m, message);
                n.rules == rules@ && n.rules_partial == more && !n.loading && n.level == m.level
            }),
            Message::RuleDetailLoaded { event_bus_name, rule_name, detail, targets } => m.level == (Level::Detail {
                event_bus_name: event_bus_name@,
                rule_name: rule_name@,
            }) ==> ({
                let n = EventsView::informed(m, message);
                n.detail == Some(detail) && n.targets == targets@ && !n.loading && n.level == m.level
            }),
            Message::Error { .. } => !EventsView::informed(m, message).loading,
            _ => true,
        },
{
}

/// The view opens with the list of buses; a favourite opens the rules of its bus, or the detail of
/// its rule.
pub proof fn law_favorites_open_what_they_name(m: EventsModel, bus: Text, rule: Text)
    requires
        !bus.contains('\u{1f}'),
    ensures
        ({
            let (n, actions) = EventsView::activated(m);
            n.level is Buses && actions == seq![ActionText::LoadEventBuses]
        }),
        ({
            let (n, actions) = EventsView::opened(m, ViewContext::Favorite { key: views::deep_key(bus, rule) });
            n.level == (Level::Detail { event_bus_name: bus, rule_name: rule }) && actions == seq![
                ActionText::LoadRuleDetail { event_bus_name: bus, rule_name: rule },
            ]
        }),
        ({
            let (n, actions) = EventsView::opened(m, ViewContext::Favorite { key: bus });
            n.level == (Level::Rules { event_bus_name: bus }) && actions == seq![
                ActionText::LoadRules { event_bus_name: bus },
            ]
        }),
{
    views::law_deep_keys_come_apart(bus, rule);
    views::law_plain_keys_stay_whole(bus);
}

/// `j` and `k` move to the neighbouring row of what the filter shows, `g` and `G` to its ends.
pub proof fn law_keys_move_the_selection(m: EventsModel, key: KeyEvent, row: usize)
    requires
        is_plain(m),
        m.selected == Some(row),
    ensures
        ({
            let n = EventsView::keyed(m, key).0;
            let len = match m.level {
                Level::Buses => list::shown(m.buses, m.filter).len(),
                Level::Rules { .. } => list::shown(m.rules, m.filter).len(),
                Level::Detail { .. } => list::shown(m.targets, m.filter).len(),
            };
            &&& row + 1 < len <= usize::MAX && (key.code == KeyCode::Char('j') || key.code == KeyCode::Down) ==> n.selected
                == Some((row + 1) as usize)
            &&& 0 < row < len <= usize::MAX && (key.code == KeyCode::Char('k') || key.code == KeyCode::Up) ==> n.selected
                == Some((row - 1) as usize)
            &&& 0 < len <= usize::MAX && (key.code == KeyCode::Char('g') || key.code == KeyCode::Home) ==> n.selected
                == Some(0usize)
            &&& 0 < len <= usize::MAX && (key.code == KeyCode::Char('G') || key.code == KeyCode::End) ==> n.selected
                == Some((len - 1) as usize)
        }),
{
}

/// A filter narrows the list on screen and selects the first row that is left; it loads nothing and
/// changes nothing else.
pub proof fn law_filters_narrow_the_list(m: EventsModel, filter: Text)
    ensures
        EventsView::narrowed(m, filter).filter == filter,
        EventsView::narrowed(m, filter) == (EventsModel { filter, selected: EventsView::narrowed(m, filter).selected, ..m }),
        ({
            let len = match m.level {
                Level::Buses => list::shown(m.buses, filter).len(),
                Level::Rules { .. } => list::shown(m.rules, filter).len(),
                Level::Detail { .. } => list::shown(m.targets, filter).len(),
            };
            0 < len <= usize::MAX ==> EventsView::narrowed(m, filter).selected == Some(0usize)
        }),
{
}

/// Over a list, the panel takes the keys: `y` copies its text, `Esc` and `Enter` close it, `j` and `k`
/// scroll it, and nothing is asked for.
pub proof fn law_the_panel_takes_the_keys(m: EventsModel, key: KeyEvent, p: DetailPanel<Text>)
    requires
        m.panel == Some(p),
        m.chooser is None,
        m.form is None,
    ensures
        ({
            let (n, actions) = EventsView::keyed(m, key);
            &&& key.code == KeyCode::Char('y') ==> n == m && actions == seq![ActionText::CopyToClipboard { text: p.raw }]
            &&& key.code == KeyCode::Esc || key.code == KeyCode::Enter ==> n == (EventsModel { panel: None, ..m })
                && actions.len() == 0
            &&& key.code != KeyCode::Char('y') && key.code != KeyCode::Esc && key.code != KeyCode::Enter ==> actions.len()
                == 0 && n == (EventsModel { panel: n.panel, ..m }) && (n.panel matches Some(q) && q.raw == p.raw && q.title
                == p.title)
            &&& key.code == KeyCode::Char('j') && p.scroll < u16::MAX ==> (n.panel matches Some(q) && q.scroll == p.scroll
                + 1)
            &&& key.code == KeyCode::Char('k') && p.scroll > 0 ==> (n.panel matches Some(q) && q.scroll == p.scroll - 1)
        }),
{
}

/// The title names the bus and the rule on screen.
pub proof fn law_titles_name_the_place(m: EventsModel)
    ensures
        m.level is Buses ==> EventsView::title_text(m) == EventsView::id_text(m),
        m.level matches Level::Rules { event_bus_name } ==> text::has_suffix(EventsView::title_text(m), event_bus_name),
        m.level matches Level::Detail { event_bus_name, rule_name } ==> text::has_suffix(
            EventsView::title_text(m),
            rule_name,
        ) && text::occurs(EventsView::title_text(m), event_bus_name),
{
    match m.level {
        Level::Rules { event_bus_name } => {
            let t = "events / "@ + event_bus_name;
            assert(t.skip(t.len() - event_bus_name.len()) =~= event_bus_name);
        },
        Level::Detail { event_bus_name, rule_name } => {
            let t = "events / "@ + event_bus_name + " / "@ + rule_name;
            assert(t.skip(t.len() - rule_name.len()) =~= rule_name);
            assert(t =~= "events / "@ + event_bus_name + (" / "@ + rule_name));
            text::lemma_occurs_between("events / "@, event_bus_name, " / "@ + rule_name);
        },
        Level::Buses => {},
    }
}

/// The view wants every key while the form or the choice of a preset is open, and else none.
pub proof fn law_raw_input_is_for_forms(m: EventsModel)
    ensures
        EventsView::takes_raw_input(m) <==> m.form is Some || m.chooser is Some,
{
}

/// The keys that move the selection change nothing else and ask for nothing; keys that mean nothing
/// here change nothing at all.
pub proof fn law_moving_changes_nothing_else(m: EventsModel, key: KeyEvent)
    requires
        m.panel is None,
        m.chooser is None,
        m.form is None,
    ensures
        ({
            let (n, actions) = EventsView::keyed(m, key);
            &&& key.code == KeyCode::Char('j') || key.code == KeyCode::Char('k') || key.code == KeyCode::Char('g')
                || key.code == KeyCode::Char('G') || key.code == KeyCode::Down || key.code == KeyCode::Up || key.code
                == KeyCode::Home || key.code == KeyCode::End ==> n == (EventsModel { selected: n.selected, ..m }) && actions.len()
                == 0
            &&& key.code == KeyCode::Tab || key.code == KeyCode::Left || key.code == KeyCode::Right || key.code
                == KeyCode::Backspace || key.code == KeyCode::Other ==> n == m && actions.len() == 0
        }),
{
}

/// What goes to another level by `Enter` starts on its first row and loads; the lists above it and
/// the filter stay.
pub proof fn law_going_in_keeps_what_is_above(m: EventsModel, key: KeyEvent)
    requires
        m.panel is None,
        m.chooser is None,
        m.form is None,
        key.code == KeyCode::Enter,
    ensures
        ({
            let n = EventsView::keyed(m, key).0;
            &&& n.level != m.level ==> n.loading && n.selected == Some(0usize) && n.panel is None
            &&& n.filter == m.filter
            &&& n.buses == m.buses && n.presets == m.presets && n.form is None && n.chooser is None
            &&& n.level == m.level ==> n == (EventsModel { panel: n.panel, ..m })
        }),
{
}

/// A failure ends the loading and leaves what is shown; so does an answer about something else.
pub proof fn law_failures_leave_what_is_shown(m: EventsModel, message: Message)
    ensures
        message is Error ==> EventsView::informed(m, message) == (EventsModel { loading: false, ..m }),
        message is QueuesLoaded ==> EventsView::informed(m, message) == m,
{
}

/// A view that is activated starts at its root, on the first row, and loads what is there.
pub proof fn law_activation_starts_at_the_root(m: EventsModel)
    ensures
        ({
            let (n, actions) = EventsView::activated(m);
            &&& n.level is Buses
            &&& n.loading
            &&& n.selected == Some(0usize)
            &&& n.filter == m.filter
            &&& n.buses == m.buses
            &&& actions == seq![ActionText::LoadEventBuses]
            &&& n.rules.len() == 0 && n.targets.len() == 0 && n.detail is None && n.panel is None && n.form is None
            &&& n.presets == m.presets
        }),
{
}

/// The hints announce the keys that do something where one is.
pub proof fn law_hints_announce_what_keys_do(m: EventsModel)
    ensures
        ({
            let h = EventsView::hint_texts(m);
            let bare = m.chooser is None && m.form is None && m.panel is None;
            &&& m.chooser is Some ==> h == seq![("j/k"@, "preset"@), ("enter"@, "usar"@), ("esc"@, "cancelar"@)]
            &&& m.chooser is None && m.form is Some ==> h == seq![
                ("tab"@, "campo"@),
                ("enter"@, "enviar"@),
                ("esc"@, "cancelar"@),
            ]
            &&& m.chooser is None && m.form is None && m.panel is Some ==> h == seq![
                ("j/k"@, "scroll"@),
                ("y"@, "copiar"@),
                ("esc"@, "cerrar"@),
            ]
            &&& bare && m.level is Buses ==> h == seq![
                ("y"@, "copiar ARN"@),
                ("O"@, "consola"@),
                ("S"@, "enviar evento"@),
            ]
            &&& bare && m.level is Rules ==> h == seq![("y"@, "copiar nombre"@), ("O"@, "consola"@)]
            &&& bare && m.level is Detail ==> h == seq![
                ("enter"@, "ver input"@),
                ("P"@, "ver patrón"@),
                ("y"@, "copiar ARN target"@),
                ("O"@, "consola"@),
            ]
        }),
{
}

/// The captions count the buses, the rules and the targets that are shown: all of them without a
/// filter, and how many of how many under one, which is named; a list that is not whole is marked.
pub proof fn law_captions_count_what_is_shown(m: EventsModel, bus: Text)
    ensures
        ({
            let partial = if m.buses_partial { " · parcial"@ } else { ""@ };
            &&& m.filter.len() == 0 ==> m.buses_title() == " "@ + text::decimal(m.buses.len()) + " event buses"@ + partial
                + " · [S] enviar evento "@
            &&& m.filter.len() > 0 ==> m.buses_title() == " "@ + text::decimal(list::shown(m.buses, m.filter).len())
                + "/"@ + text::decimal(m.buses.len()) + " buses"@ + partial + " · filtro: "@ + m.filter + " "@
        }),
        m.level == (Level::Rules { event_bus_name: bus }) ==> ({
            let partial = if m.rules_partial { " · parcial"@ } else { ""@ };
            &&& m.filter.len() == 0 ==> m.rules_title() == " "@ + bus + " · "@ + text::decimal(m.rules.len()) + " rules"@
                + partial + " "@
            &&& m.filter.len() > 0 ==> m.rules_title() == " "@ + bus + " · "@ + text::decimal(
                list::shown(m.rules, m.filter).len(),
            ) + "/"@ + text::decimal(m.rules.len()) + partial + " · filtro: "@ + m.filter + " "@
        }),
        m.filter.len() == 0 ==> m.targets_title() == " targets · "@ + text::decimal(m.targets.len()) + " "@,
        m.filter.len() > 0 ==> m.targets_title() == " targets · "@ + text::decimal(
            list::shown(m.targets, m.filter).len(),
        ) + "/"@ + text::decimal(m.targets.len()) + " · filtro: "@ + m.filter + " "@,
{
}

/// The form for an event has a field each for source, type, detail, time and resources, the last two
/// of them empty at first, and names the bus.
pub proof fn law_the_form_has_its_fields(m: EventsModel, bus: EventBusDto, source: Text, kind: Text, detail: Text)
    requires
        m.level is Buses,
        m.bus() == Some(bus),
    ensures
        m.composing(source, kind, detail).form matches Some((name, f)) && {
            &&& name == bus.name@
            &&& f.title == "enviar evento → "@ + bus.name@
            &&& f.fields.len() == 5
            &&& f.fields[0].0 == "source"@ && f.value(0) == source
            &&& f.fields[1].0 == "detail-type"@ && f.value(1) == kind
            &&& f.fields[2].0 == "detail"@ && f.value(2) == detail
            &&& f.fields[3].0 == "time (UTC, vacío=ahora)"@ && f.value(3) == ""@
            &&& f.fields[4].0 == "resources (ARNs, coma)"@ && f.value(4) == ""@
        },
{
}

/// A form that is handed in and is not sound stays as it is, but for the error that says what is
/// wrong: the detail before the time.
pub proof fn law_an_unsound_form_says_what_is_wrong(m: EventsModel, key: KeyEvent, bus: Text, f: FormModel)
    requires
        m.form == Some((bus, f)),
        m.chooser is None,
        key.code == KeyCode::Enter,
    ensures
        ({
            let (n, actions) = EventsView::keyed(m, key);
            let says = |error: Text|
                n == (EventsModel { form: Some((bus, FormModel { error: Some(error), ..f })), ..m }) && actions.len() == 0;
            &&& !json::is_json(text::trimmed(f.value(2))) ==> says("detail no es JSON válido (revisá comillas/llaves)"@)
            &&& json::is_json(text::trimmed(f.value(2))) && text::trimmed(f.value(3)).len() > 0 && util::datetime_value(
                text::trimmed(f.value(3)),
            ) is None ==> says("time inválido: usa YYYY-MM-DD[THH:MM] (UTC)"@)
        }),
{
}

/// The rows tell what they are about: a rule by its state, a target by its ARN and its input; the
/// head of a rule its description and its schedule.
pub proof fn law_rows_tell_what_they_are_about(m: EventsModel, r: RuleDto, t: TargetDto, d: RuleDetailDto)
    ensures
        rule_texts(r).0 == r.name@,
        r.state == RuleState::Enabled ==> rule_texts(r).1 == "[enabled]"@ && color_of(r.state) == Color::Green,
        r.state == RuleState::Disabled ==> rule_texts(r).1 == "[disabled]"@ && color_of(r.state) == Color::DarkGray,
        r.description matches Some(s) ==> rule_texts(r).2 == text::cut_to(text::collapsed(s@), 50),
        target_texts(t).0 == t.id@,
        target_texts(t).1 == t.arn@,
        t.input matches Some(s) ==> target_texts(t).2 == Some("  input: "@ + text::cut_to(text::collapsed(s@), 40)),
        t.input is None ==> target_texts(t).2 is None,
        m.detail == Some(d) ==> (d.description matches Some(s) ==> (d.schedule_expression matches Some(at)
            ==> m.meta_rows() == Some(
            seq![
                ("descr"@, text::cut_to(text::collapsed(s@), 80)),
                ("schedule"@, text::cut_to(text::collapsed(at@), 80)),
            ],
        ))),
        m.detail == Some(d) && d.description is None && d.schedule_expression is None ==> m.meta_rows() == Some(
            Seq::<(Text, Text)>::empty(),
        ),
{
    if m.detail == Some(d) {
        if let Some(s) = d.description {
            if let Some(at) = d.schedule_expression {
                assert(m.meta_rows()->0 =~= seq![
                    ("descr"@, text::cut_to(text::collapsed(s@), 80)),
                    ("schedule"@, text::cut_to(text::collapsed(at@), 80)),
                ]);
            }
        } else if d.schedule_expression is None {
            assert(m.meta_rows()->0 =~= Seq::<(Text, Text)>::empty());
        }
    }
}

/// `Enter` on a target shows its input under its id, and says so where it has none.
pub proof fn law_enter_shows_the_input(m: EventsModel, key: KeyEvent, t: TargetDto)
    requires
        m.chooser is None,
        m.form is None,
        m.panel is None,
        m.level is Detail,
        m.target() == Some(t),
        key.code == KeyCode::Enter,
    ensures
        EventsView::keyed(m, key) == (
            EventsModel {
                panel: Some(
                    DetailPanel {
                        title: "target "@ + t.id@,
                        raw: match t.input {
                            Some(i) => i@,
                            None => "(este target no define input)"@,
                        },
                        scroll: 0,
                    },
                ),
                ..m
            },
            Seq::<ActionText>::empty(),
        ),
{
}

/// The pattern of a rule is shown where it has one, else its schedule, else that it has none.
pub proof fn law_patterns_are_shown(d: RuleDetailDto)
    ensures
        d.event_pattern matches Some(p) ==> pattern_text(d) == p@,
        d.event_pattern is None ==> (d.schedule_expression matches Some(s) ==> pattern_text(d) == "schedule: "@ + s@),
        d.event_pattern is None && d.schedule_expression is None ==> pattern_text(d)
            == "(esta rule no tiene event_pattern)"@,
{
}

/// `Esc` forgets what was loaded below the level that it goes to, and what lies above stays; asking
/// again leaves what is shown; going in forgets what was known of the one before.
pub proof fn law_keys_change_what_they_are_about(m: EventsModel, key: KeyEvent)
    requires
        m.panel is None,
        m.chooser is None,
        m.form is None,
    ensures
        ({
            let (n, actions) = EventsView::keyed(m, key);
            &&& key.code == KeyCode::Esc ==> (m.level matches Level::Detail { event_bus_name, .. } ==> n == (EventsModel {
                level: Level::Rules { event_bus_name },
                detail: None,
                targets: Seq::empty(),
                loading: false,
                selected: n.selected,
                ..m
            }) && actions == seq![ActionText::ClearFilter] && (0 < list::shown(m.rules, m.filter).len() <= usize::MAX
                ==> n.selected == Some(0usize)))
            &&& key.code == KeyCode::Esc && m.level is Rules ==> n == (EventsModel {
                level: Level::Buses,
                loading: false,
                selected: n.selected,
                ..m
            }) && actions == seq![ActionText::ClearFilter] && (0 < list::shown(m.buses, m.filter).len() <= usize::MAX
                ==> n.selected == Some(0usize))
            &&& key.code == KeyCode::Char('r') ==> n == (EventsModel { loading: true, ..m })
            &&& key.code == KeyCode::Enter && m.level is Buses && n.level != m.level ==> n == (EventsModel {
                level: n.level,
                rules: Seq::empty(),
                rules_partial: false,
                loading: true,
                selected: Some(0usize),
                ..m
            })
            &&& key.code == KeyCode::Enter && m.level is Rules && n.level != m.level ==> n == (EventsModel {
                level: n.level,
                detail: None,
                targets: Seq::empty(),
                loading: true,
                selected: Some(0usize),
                ..m
            })
            &&& key.code == KeyCode::Char('y') || key.code == KeyCode::Char('O') ==> n == m
            &&& key.code == KeyCode::Char('S') ==> n == (EventsModel { form: n.form, chooser: n.chooser, ..m })
                && actions.len() == 0
            &&& key.code == KeyCode::Char('P') ==> n == (EventsModel { panel: n.panel, ..m }) && actions.len() == 0
        }),
{
}

/// An answer changes what it is about and nothing else, and the selected row stays where it is still
/// there; a form or a choice that is open stays open.
pub proof fn law_answers_change_what_they_are_about(m: EventsModel, message: Message, row: usize)
    requires
        m.selected == Some(row),
    ensures
        ({
            let n = EventsView::informed(m, message);
            match message {
                Message::EventBusesLoaded { buses, more } => {
                    &&& n == (EventsModel {
                        buses: buses@,
                        buses_partial: more,
                        loading: n.loading,
                        selected: n.selected,
                        ..m
                    })
                    &&& !(m.level is Buses) ==> n.loading == m.loading && n.selected == m.selected
                    &&& m.level is Buses && row < list::shown(buses@, m.filter).len() ==> n.selected == m.selected
                },
                Message::RulesLoaded { rules, more, .. } => {
                    ||| n == m
                    ||| {
                        &&& n == (EventsModel {
                            rules: rules@,
                            rules_partial: more,
                            loading: false,
                            selected: n.selected,
                            ..m
                        })
                        &&& row < list::shown(rules@, m.filter).len() ==> n.selected == m.selected
                    }
                },
                Message::RuleDetailLoaded { detail, targets, .. } => {
                    ||| n == m
                    ||| {
                        &&& n == (EventsModel {
                            detail: Some(detail),
                            targets: targets@,
                            loading: false,
                            selected: n.selected,
                            ..m
                        })
                        &&& row < list::shown(targets@, m.filter).len() ==> n.selected == m.selected
                    }
                },
                _ => n == (EventsModel { loading: n.loading, ..m }),
            }
        }),
{
}

/// Parts of a field that hold nothing but whitespace name no resource, and every other part names
/// one, without the whitespace around it.
pub proof fn law_blank_parts_name_nothing(parts: Seq<Text>, part: Text)
    ensures
        filled(Seq::empty()).len() == 0,
        text::trimmed(part).len() == 0 ==> filled(parts.push(part)) == filled(parts),
        text::trimmed(part).len() > 0 ==> filled(parts.push(part)) == filled(parts).push(text::trimmed(part)),
{
    assert(parts.push(part).drop_last() =~= parts);
}

/// A favourite rule is labelled with its bus and its name, whether it is selected in a list or shown
/// in full.
pub proof fn law_favorites_are_labelled(m: EventsModel, r: RuleDto)
    ensures
        m.level matches Level::Rules { event_bus_name } ==> (list::is_selected(m.rules, m.filter, m.selected, r)
            ==> EventsView::favorite(m) == Some(
            (views::deep_key(event_bus_name, r.name@), event_bus_name + " · "@ + r.name@),
        )),
        m.level matches Level::Detail { event_bus_name, rule_name } ==> EventsView::favorite(m) == Some(
            (views::deep_key(event_bus_name, rule_name), event_bus_name + " · "@ + rule_name),
        ),
        !(m.level is Detail) && m.selected is None ==> EventsView::favorite(m) is None,
{
}

/// A favourite opens with nothing over it and forgets what was known below its level; the buses stay.
pub proof fn law_favorites_open_afresh(m: EventsModel, key: Text)
    ensures
        ({
            let n = EventsView::opened(m, ViewContext::Favorite { key }).0;
            &&& n.level is Rules ==> n == (EventsModel {
                level: n.level,
                rules: Seq::empty(),
                rules_partial: false,
                panel: None,
                form: None,
                loading: true,
                selected: Some(0usize),
                ..m
            })
            &&& n.level is Detail ==> n == (EventsModel {
                level: n.level,
                detail: None,
                targets: Seq::empty(),
                panel: None,
                form: None,
                loading: true,
                selected: Some(0usize),
                ..m
            })
        }),
{
}

} // verus!
