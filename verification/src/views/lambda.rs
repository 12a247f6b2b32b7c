//! View `lambda`: the functions, and the configuration and environment of one of them.

use vstd::prelude::*;

use crate::action::{Action, ActionText, ConsoleTarget, ViewContext};
use crate::effects::payload;
use crate::key::{KeyCode, KeyEvent};
use crate::list;
use crate::list::ListState;
use crate::message::{FunctionDetailDto, FunctionDto, LogWindow, Message, Text};
use crate::text;
use crate::ui::detail;
use crate::ui::detail::DetailPanel;
use crate::util;
use crate::util::lambda_log_group_from_arn;
use crate::views;
use crate::views::{announce, nothing, DeckView};

verus! {

/// How far back the logs of a function are opened, in milliseconds.
pub const LOGS_WINDOW_MS: i64 = 3_600_000;

/// What the view shows.
#[derive(Debug)]
#[verifier::ext_equal]
pub enum Level<S = String> {
    Functions,
    Detail { function_arn: S },
}

impl DeepView for Level<String> {
    type V = Level<Text>;

    open spec fn deep_view(&self) -> Level<Text> {
        match self {
            Level::Functions => Level::Functions,
            Level::Detail { function_arn } => Level::Detail { function_arn: function_arn@ },
        }
    }
}

pub struct LambdaView {
    pub level: Level,
    pub functions: Vec<FunctionDto>,
    /// There are functions that were not fetched.
    pub functions_partial: bool,
    pub detail: Option<FunctionDetailDto>,
    /// The full value of an environment variable, over the detail.
    pub detail_panel: Option<DetailPanel>,
    pub filter: String,
    pub loading: bool,
    pub state: ListState,
}

/// The state of the view.
#[verifier::ext_equal]
pub struct LambdaModel {
    pub level: Level<Text>,
    pub functions: Seq<FunctionDto>,
    pub functions_partial: bool,
    pub detail: Option<FunctionDetailDto<String, Seq<String>, Seq<(String, String)>>>,
    pub panel: Option<DetailPanel<Text>>,
    pub filter: Text,
    pub loading: bool,
    pub selected: Option<usize>,
}

/// The view of an optional record.
pub open spec fn detail_view(detail: Option<FunctionDetailDto>) -> Option<
    FunctionDetailDto<String, Seq<String>, Seq<(String, String)>>,
> {
    match detail {
        Some(d) => Some(d@),
        None => None,
    }
}

impl LambdaModel {
    /// The environment variables of the function on screen, none while they are not known.
    pub open spec fn env(self) -> Seq<(String, String)> {
        match self.detail {
            Some(d) => d.env,
            None => Seq::empty(),
        }
    }

    /// How many rows the filter shows.
    pub open spec fn visible(self) -> nat {
        match self.level {
            Level::Functions => list::shown(self.functions, self.filter).len(),
            Level::Detail { .. } => list::shown(self.env(), self.filter).len(),
        }
    }

    /// The selected function.
    pub open spec fn function(self) -> Option<FunctionDto> {
        list::picked(self.functions, self.filter, self.selected)
    }

    /// The selected environment variable.
    pub open spec fn variable(self) -> Option<(String, String)> {
        list::picked(self.env(), self.filter, self.selected)
    }

    /// The selection brought back inside the list.
    pub open spec fn clamped(self) -> LambdaModel {
        LambdaModel { selected: list::clamped(self.selected, self.visible()), ..self }
    }

    /// The detail of a function, before anything of it is known.
    pub open spec fn entering(self, function_arn: Text) -> LambdaModel {
        LambdaModel {
            level: Level::Detail { function_arn },
            detail: None,
            loading: true,
            selected: Some(0usize),
            ..self
        }
    }

    /// From the list to the detail of the selected function, which is remembered as recent.
    pub open spec fn drilled(self) -> (LambdaModel, Seq<ActionText>) {
        match (self.level, self.function()) {
            (Level::Functions, Some(f)) => (
                self.entering(f.arn@),
                seq![
                    ActionText::ClearFilter,
                    ActionText::RecordRecent { key: f.arn@, label: f.name@ },
                    ActionText::LoadFunctionDetail { function_arn: f.arn@ },
                ],
            ),
            _ => (self, seq![]),
        }
    }

    /// The full value of the selected environment variable, in a panel.
    pub open spec fn expanded(self) -> LambdaModel {
        match self.variable() {
            Some(kv) => LambdaModel {
                panel: Some(DetailPanel { title: "env "@ + kv.0@, raw: kv.1@, scroll: 0 }),
                ..self
            },
            None => self,
        }
    }

    /// One level up; at the root, back to the menu.
    pub open spec fn backed(self) -> (LambdaModel, Seq<ActionText>) {
        let m = LambdaModel { panel: None, ..self };
        match self.level {
            Level::Detail { .. } => (
                LambdaModel { level: Level::Functions, loading: false, selected: Some(0usize), ..m }.clamped(),
                seq![ActionText::ClearFilter],
            ),
            Level::Functions => (m, seq![ActionText::Back]),
        }
    }

    pub open spec fn refreshed(self) -> (LambdaModel, Seq<ActionText>) {
        (
            LambdaModel { loading: true, ..self },
            match self.level {
                Level::Functions => seq![ActionText::LoadFunctions],
                Level::Detail { function_arn } => seq![ActionText::LoadFunctionDetail { function_arn }],
            },
        )
    }

    /// ARN of the function that the level is about.
    pub open spec fn current_arn(self) -> Option<Text> {
        match self.level {
            Level::Functions => match self.function() {
                Some(f) => Some(f.arn@),
                None => None,
            },
            Level::Detail { function_arn } => Some(function_arn),
        }
    }

    /// Name of the function that the level is about.
    pub open spec fn current_name(self) -> Option<Text> {
        match self.level {
            Level::Functions => match self.function() {
                Some(f) => Some(f.name@),
                None => None,
            },
            Level::Detail { function_arn } => Some(text::last_part_of(function_arn, ':')),
        }
    }

    /// The way to the logs of the function that the level is about.
    pub open spec fn logs(self) -> Seq<ActionText> {
        match self.current_arn() {
            Some(arn) => match util::lambda_group(arn) {
                Some(group) => seq![
                    ActionText::ActivateViewWithContext {
                        id: "logs"@,
                        context: ViewContext::LogGroupTail { group, window: LogWindow::Last(LOGS_WINDOW_MS) },
                    },
                ],
                None => seq![],
            },
            None => seq![],
        }
    }

    pub open spec fn keyed(self, key: KeyEvent) -> (LambdaModel, Seq<ActionText>) {
        match self.panel {
            Some(p) => if key.code == KeyCode::Char('y') {
                (self, seq![ActionText::CopyToClipboard { text: p.raw }])
            } else if detail::closes(key.code) {
                (LambdaModel { panel: None, ..self }, seq![])
            } else {
                (
                    LambdaModel {
                        panel: Some(DetailPanel { scroll: detail::scrolled(p.scroll, key.code), ..p }),
                        ..self
                    },
                    seq![],
                )
            },
            None => match key.code {
                KeyCode::Char('j') | KeyCode::Down => (
                    LambdaModel { selected: list::moved(self.selected, self.visible(), 1), ..self },
                    seq![],
                ),
                KeyCode::Char('k') | KeyCode::Up => (
                    LambdaModel { selected: list::moved(self.selected, self.visible(), -1), ..self },
                    seq![],
                ),
                KeyCode::Char('g') | KeyCode::Home => (
                    LambdaModel { selected: list::edge(self.visible(), false), ..self },
                    seq![],
                ),
                KeyCode::Char('G') | KeyCode::End => (
                    LambdaModel { selected: list::edge(self.visible(), true), ..self },
                    seq![],
                ),
                KeyCode::Enter => if self.level is Detail { (self.expanded(), seq![]) } else { self.drilled() },
                KeyCode::Esc => self.backed(),
                KeyCode::Char('r') => self.refreshed(),
                KeyCode::Char('l') => (self, self.logs()),
                KeyCode::Char('y') => (
                    self,
                    match self.current_arn() {
                        Some(text) => seq![ActionText::CopyToClipboard { text }],
                        None => seq![],
                    },
                ),
                KeyCode::Char('O') => (
                    self,
                    match self.current_name() {
                        Some(name) => seq![
                            ActionText::OpenConsole { target: ConsoleTarget::LambdaFunction { name } },
                        ],
                        None => seq![],
                    },
                ),
                _ => (self, seq![]),
            },
        }
    }

    /// The detail of this function is on screen.
    pub open spec fn shows(self, function_arn: Text) -> bool {
        self.level == Level::Detail { function_arn }
    }

    /// The first page of functions replaces the list and the next ones add to it; the view keeps
    /// loading while pages are still coming.
    pub open spec fn informed(self, message: Message) -> LambdaModel {
        match message {
            Message::FunctionsLoaded { functions, append, more, partial } => {
                let m = LambdaModel {
                    functions: if append { self.functions + functions@ } else { functions@ },
                    functions_partial: partial,
                    ..self
                };
                if self.level is Functions {
                    LambdaModel { loading: more, ..m }.clamped()
                } else {
                    m
                }
            },
            Message::FunctionDetailLoaded { function_arn, detail } => if self.shows(function_arn@) {
                LambdaModel { detail: Some(detail@), loading: false, ..self }.clamped()
            } else {
                self
            },
            Message::Error { .. } => LambdaModel { loading: false, ..self },
            _ => self,
        }
    }

    pub open spec fn activated(self) -> LambdaModel {
        LambdaModel {
            level: Level::Functions,
            detail: None,
            panel: None,
            loading: true,
            selected: Some(0usize),
            ..self
        }
    }

    pub open spec fn title(self) -> Text {
        match self.level {
            Level::Functions => "lambda"@,
            Level::Detail { function_arn } => "lambda / "@ + text::last_part_of(function_arn, ':'),
        }
    }

    pub open spec fn hints(self) -> Seq<(Text, Text)> {
        if self.panel is Some {
            detail::panel_hints()
        } else {
            views::hint_when(self.level is Detail && self.env().len() > 0, "enter"@, "ver valor"@) + views::hint_when(
                true,
                "y"@,
                "copiar ARN"@,
            ) + views::hint_when(true, "O"@, "consola"@) + views::hint_when(true, "l"@, "logs"@)
        }
    }

    pub open spec fn functions_title(self) -> Text {
        let total = text::decimal(self.functions.len());
        let partial = if self.functions_partial { " · parcial"@ } else { ""@ };
        let loading = if self.loading && self.functions.len() > 0 { " · cargando…"@ } else { ""@ };
        if self.filter.len() == 0 {
            " "@ + total + " funciones"@ + partial + loading + " "@
        } else {
            " "@ + text::decimal(list::shown(self.functions, self.filter).len()) + "/"@ + total + " funciones"@ + partial
                + loading + " · filtro: "@ + self.filter + " "@
        }
    }

    pub open spec fn env_title(self) -> Text {
        let total = text::decimal(self.env().len());
        if self.filter.len() == 0 {
            " env vars · "@ + total + " · enter expande "@
        } else {
            " env vars · "@ + text::decimal(list::shown(self.env(), self.filter).len()) + "/"@ + total
                + " · filtro: "@ + self.filter + " "@
        }
    }
}

impl LambdaView {
    pub fn new() -> (r: Self)
        ensures
            r.model() == (LambdaModel {
                level: Level::Functions,
                functions: Seq::empty(),
                functions_partial: false,
                detail: None,
                panel: None,
                filter: Seq::empty(),
                loading: false,
                selected: Some(0usize),
            }),
    {
        LambdaView {
            level: Level::Functions,
            functions: Vec::new(),
            functions_partial: false,
            detail: None,
            detail_panel: None,
            filter: String::new(),
            loading: false,
            state: ListState::new(Some(0)),
        }
    }

    /// Positions of the environment variables that the filter shows.
    pub fn filtered_env_indices(&self) -> (r: Vec<usize>)
        ensures
            util::positions(r@) == list::shown(self.model().env(), self.filter@),
            r@.len() == list::shown(self.model().env(), self.filter@).len(),
    {
        match &self.detail {
            Some(d) => list::filtered(&d.env, self.filter.as_str()),
            None => {
                let none: Vec<(String, String)> = Vec::new();
                list::filtered(&none, self.filter.as_str())
            },
        }
    }

    fn selected_env(&self) -> (r: Option<&(String, String)>)
        ensures
            match r {
                Some(kv) => self.model().variable() == Some(*kv),
                None => self.model().variable() is None,
            },
    {
        match &self.detail {
            Some(d) => list::pick(&d.env, self.filter.as_str(), self.state.selected),
            None => {
                proof {
                    list::law_shown_positions(self.model().env(), self.filter@);
                    assert(list::shown(self.model().env(), self.filter@).len() > 0 ==> list::shown(
                        self.model().env(),
                        self.filter@,
                    )[0] < 0);
                }
                None
            },
        }
    }

    /// How many rows the filter shows.
    pub fn visible_len(&self) -> (r: usize)
        ensures
            r == self.model().visible(),
    {
        match self.level {
            Level::Functions => list::filtered(&self.functions, self.filter.as_str()).len(),
            Level::Detail { .. } => self.filtered_env_indices().len(),
        }
    }

    fn clamp_selection(&mut self)
        ensures
            final(self).model() == old(self).model().clamped(),
    {
        let len: usize = self.visible_len();
        self.state.clamp(len);
    }

    fn drill(&mut self) -> (r: Vec<Action>)
        ensures
            (final(self).model(), r.deep_view()) == old(self).model().drilled(),
    {
        match self.level {
            Level::Functions => {
                let f = match list::pick(&self.functions, self.filter.as_str(), self.state.selected) {
                    Some(f) => f.clone(),
                    None => return nothing(),
                };
                self.level = Level::Detail { function_arn: f.arn.clone() };
                self.detail = None;
                self.loading = true;
                self.state.select(Some(0));
                vec![
                    Action::ClearFilter,
                    Action::RecordRecent { key: f.arn.clone(), label: f.name },
                    Action::LoadFunctionDetail { function_arn: f.arn },
                ]
            },
            Level::Detail { .. } => nothing(),
        }
    }

    fn open_env_detail(&mut self)
        ensures
            final(self).model() == old(self).model().expanded(),
    {
        let panel = match self.selected_env() {
            Some(kv) => {
                let mut title = "env ".to_string();
                title.append(kv.0.as_str());
                DetailPanel::new(title.as_str(), kv.1.as_str())
            },
            None => return,
        };
        self.detail_panel = Some(panel);
    }

    fn back(&mut self) -> (r: Vec<Action>)
        ensures
            (final(self).model(), r.deep_view()) == old(self).model().backed(),
    {
        self.detail_panel = None;
        match self.level {
            Level::Detail { .. } => {
                self.level = Level::Functions;
                self.loading = false;
                self.state.select(Some(0));
                self.clamp_selection();
                vec![Action::ClearFilter]
            },
            Level::Functions => vec![Action::Back],
        }
    }

    fn refresh(&mut self) -> (r: Vec<Action>)
        ensures
            (final(self).model(), r.deep_view()) == old(self).model().refreshed(),
    {
        self.loading = true;
        match &self.level {
            Level::Functions => vec![Action::LoadFunctions],
            Level::Detail { function_arn } => vec![Action::LoadFunctionDetail { function_arn: function_arn.clone() }],
        }
    }

    fn current_arn(&self) -> (r: Option<String>)
        ensures
            r.deep_view() == self.model().current_arn(),
    {
        match &self.level {
            Level::Functions => match list::pick(&self.functions, self.filter.as_str(), self.state.selected) {
                Some(f) => Some(f.arn.clone()),
                None => None,
            },
            Level::Detail { function_arn } => Some(function_arn.clone()),
        }
    }

    fn current_name(&self) -> (r: Option<String>)
        ensures
            r.deep_view() == self.model().current_name(),
    {
        match &self.level {
            Level::Functions => match list::pick(&self.functions, self.filter.as_str(), self.state.selected) {
                Some(f) => Some(f.name.clone()),
                None => None,
            },
            Level::Detail { function_arn } => Some(text::last_part(function_arn.as_str(), ':')),
        }
    }

    fn open_logs(&self) -> (r: Vec<Action>)
        ensures
            r.deep_view() == self.model().logs(),
    {
        let group = match self.current_arn() {
            Some(arn) => match lambda_log_group_from_arn(arn.as_str()) {
                Some(group) => group,
                None => return nothing(),
            },
            None => return nothing(),
        };
        vec![
            Action::ActivateViewWithContext {
                id: "logs".to_string(),
                context: ViewContext::LogGroupTail { group, window: LogWindow::Last(LOGS_WINDOW_MS) },
            },
        ]
    }

    fn is_showing(&self, arn: &String) -> (r: bool)
        ensures
            r == self.model().shows(arn@),
    {
        match &self.level {
            Level::Detail { function_arn } => *function_arn == *arn,
            Level::Functions => false,
        }
    }

    fn env_len(&self) -> (r: usize)
        ensures
            r == self.model().env().len(),
    {
        match &self.detail {
            Some(d) => d.env.len(),
            None => 0,
        }
    }

    /// Caption of the list of functions.
    pub fn functions_title(&self) -> (r: String)
        ensures
            r@ == self.model().functions_title(),
    {
        let partial = if self.functions_partial { " · parcial" } else { "" };
        let loading = if self.loading && self.functions.len() > 0 { " · cargando…" } else { "" };
        let mut out = " ".to_string();
        if self.filter.as_str().is_empty() {
            out.append(text::dec_text(self.functions.len() as u64).as_str());
            out.append(" funciones");
            out.append(partial);
            out.append(loading);
            out.append(" ");
        } else {
            let rows: usize = list::filtered(&self.functions, self.filter.as_str()).len();
            out.append(text::dec_text(rows as u64).as_str());
            out.append("/");
            out.append(text::dec_text(self.functions.len() as u64).as_str());
            out.append(" funciones");
            out.append(partial);
            out.append(loading);
            out.append(" · filtro: ");
            out.append(self.filter.as_str());
            out.append(" ");
        }
        out
    }

    /// Caption of the list of environment variables.
    pub fn env_title(&self) -> (r: String)
        ensures
            r@ == self.model().env_title(),
    {
        let mut out = " env vars · ".to_string();
        if self.filter.as_str().is_empty() {
            out.append(text::dec_text(self.env_len() as u64).as_str());
            out.append(" · enter expande ");
        } else {
            let rows: usize = self.filtered_env_indices().len();
            out.append(text::dec_text(rows as u64).as_str());
            out.append("/");
            out.append(text::dec_text(self.env_len() as u64).as_str());
            out.append(" · filtro: ");
            out.append(self.filter.as_str());
            out.append(" ");
        }
        out
    }

    /// What the list says where it is empty.
    pub fn empty_line(&self) -> (r: &'static str)
        ensures
            r@ == list::blank_text(
                self.loading,
                self.filter@,
                match self.level {
                    Level::Functions => "(sin resultados)"@,
                    Level::Detail { .. } => "(sin variables de entorno)"@,
                },
            ),
    {
        let otherwise = match &self.level {
            Level::Functions => "(sin resultados)",
            Level::Detail { .. } => "(sin variables de entorno)",
        };
        list::blank_msg(self.loading, self.filter.as_str(), otherwise)
    }
}

impl DeckView for LambdaView {
    type Model = LambdaModel;

    open spec fn model(&self) -> LambdaModel {
        LambdaModel {
            level: self.level.deep_view(),
            functions: self.functions@,
            functions_partial: self.functions_partial,
            detail: detail_view(self.detail),
            panel: self.detail_panel.deep_view(),
            filter: self.filter@,
            loading: self.loading,
            selected: self.state.selected,
        }
    }

    open spec fn wf(&self) -> bool {
        true
    }

    open spec fn id_text(m: LambdaModel) -> Text {
        "lambda"@
    }

    open spec fn description_text(m: LambdaModel) -> Text {
        "Funciones Lambda: config + logs"@
    }

    open spec fn title_text(m: LambdaModel) -> Text {
        m.title()
    }

    open spec fn activated(m: LambdaModel) -> (LambdaModel, Seq<ActionText>) {
        (m.activated(), seq![ActionText::LoadFunctions])
    }

    open spec fn opened(m: LambdaModel, context: ViewContext<Text>) -> (LambdaModel, Seq<ActionText>) {
        match context {
            ViewContext::Favorite { key } => (
                LambdaModel { panel: None, ..m }.entering(key),
                seq![ActionText::LoadFunctionDetail { function_arn: key }],
            ),
            _ => Self::activated(m),
        }
    }

    open spec fn keyed(m: LambdaModel, key: KeyEvent) -> (LambdaModel, Seq<ActionText>) {
        m.keyed(key)
    }

    open spec fn informed(m: LambdaModel, message: Message) -> LambdaModel {
        m.informed(message)
    }

    open spec fn narrowed(m: LambdaModel, filter: Text) -> LambdaModel {
        LambdaModel { filter, selected: Some(0usize), ..m }.clamped()
    }

    open spec fn searched(m: LambdaModel, query: Text) -> (LambdaModel, Seq<ActionText>) {
        (m, seq![])
    }

    open spec fn commanded(m: LambdaModel, cmd: Text) -> (LambdaModel, Seq<ActionText>) {
        (m, seq![])
    }

    open spec fn ticked(m: LambdaModel) -> (LambdaModel, Seq<ActionText>) {
        (m, seq![])
    }

    open spec fn takes_raw_input(m: LambdaModel) -> bool {
        false
    }

    open spec fn favorite(m: LambdaModel) -> Option<(Text, Text)> {
        match (m.level, m.function()) {
            (Level::Functions, Some(f)) => Some((f.arn@, f.name@)),
            _ => None,
        }
    }

    open spec fn hint_texts(m: LambdaModel) -> Seq<(Text, Text)> {
        m.hints()
    }

    open spec fn at_root(m: LambdaModel) -> bool {
        m.level is Functions && m.panel is None
    }

    proof fn law_esc_at_root_goes_back(m: LambdaModel, key: KeyEvent) {
    }

    fn id(&self) -> (r: &'static str) {
        "lambda"
    }

    fn description(&self) -> (r: &'static str) {
        "Funciones Lambda: config + logs"
    }

    fn title(&self) -> (r: String) {
        match &self.level {
            Level::Functions => "lambda".to_string(),
            Level::Detail { function_arn } => {
                let mut out = "lambda / ".to_string();
                out.append(text::last_part(function_arn.as_str(), ':').as_str());
                out
            },
        }
    }

    fn on_activate(&mut self) -> (r: Vec<Action>) {
        self.level = Level::Functions;
        self.detail = None;
        self.detail_panel = None;
        self.loading = true;
        self.state.select(Some(0));
        vec![Action::LoadFunctions]
    }

    fn on_context(&mut self, context: &ViewContext) -> (r: Vec<Action>) {
        match context {
            ViewContext::Favorite { key } => {
                self.level = Level::Detail { function_arn: key.clone() };
                self.detail = None;
                self.detail_panel = None;
                self.loading = true;
                self.state.select(Some(0));
                vec![Action::LoadFunctionDetail { function_arn: key.clone() }]
            },
            _ => self.on_activate(),
        }
    }

    fn on_key(&mut self, key: KeyEvent) -> (r: Vec<Action>) {
        if self.detail_panel.is_some() {
            let mut panel = self.detail_panel.take().unwrap();
            if key.code == KeyCode::Char('y') {
                let text = panel.content().to_string();
                self.detail_panel = Some(panel);
                return vec![Action::CopyToClipboard { text }];
            }
            let close = panel.on_key(key);
            if !close {
                self.detail_panel = Some(panel);
            }
            return nothing();
        }
        match key.code {
            KeyCode::Char('j') | KeyCode::Down => {
                let len: usize = self.visible_len();
                self.state.down(len);
                nothing()
            },
            KeyCode::Char('k') | KeyCode::Up => {
                let len: usize = self.visible_len();
                self.state.up(len);
                nothing()
            },
            KeyCode::Char('g') | KeyCode::Home => {
                let len: usize = self.visible_len();
                self.state.to_edge(len, false);
                nothing()
            },
            KeyCode::Char('G') | KeyCode::End => {
                let len: usize = self.visible_len();
                self.state.to_edge(len, true);
                nothing()
            },
            KeyCode::Enter => match self.level {
                Level::Detail { .. } => {
                    self.open_env_detail();
                    nothing()
                },
                Level::Functions => self.drill(),
            },
            KeyCode::Esc => self.back(),
            KeyCode::Char('r') => self.refresh(),
            KeyCode::Char('l') => self.open_logs(),
            KeyCode::Char('y') => match self.current_arn() {
                Some(text) => vec![Action::CopyToClipboard { text }],
                None => nothing(),
            },
            KeyCode::Char('O') => match self.current_name() {
                Some(name) => vec![Action::OpenConsole { target: ConsoleTarget::LambdaFunction { name } }],
                None => nothing(),
            },
            _ => nothing(),
        }
    }

    fn on_message(&mut self, message: &Message) {
        match message {
            Message::FunctionsLoaded { functions, append, more, partial } => {
                let mut page = functions.clone();
                assert(page@ =~= functions@);
                if *append {
                    self.functions.append(&mut page);
                } else {
                    self.functions = page;
                }
                self.functions_partial = *partial;
                let listed = match self.level {
                    Level::Functions => true,
                    Level::Detail { .. } => false,
                };
                if listed {
                    self.loading = *more;
                    self.clamp_selection();
                }
            },
            Message::FunctionDetailLoaded { function_arn, detail } => {
                if self.is_showing(function_arn) {
                    self.detail = Some(detail.clone());
                    self.loading = false;
                    self.clamp_selection();
                }
            },
            Message::Error { .. } => {
                self.loading = false;
            },
            _ => {},
        }
    }

    fn set_filter(&mut self, filter: &str) {
        self.filter = filter.to_string();
        self.state.select(Some(0));
        self.clamp_selection();
    }

    fn search(&mut self, query: &str) -> (r: Vec<Action>) {
        nothing()
    }

    fn on_command(&mut self, cmd: &str) -> (r: Vec<Action>) {
        nothing()
    }

    fn on_tick(&mut self) -> (r: Vec<Action>) {
        nothing()
    }

    fn wants_raw_input(&self) -> (r: bool) {
        false
    }

    fn selected_favorite(&self) -> (r: Option<(String, String)>) {
        match self.level {
            Level::Functions => match list::pick(&self.functions, self.filter.as_str(), self.state.selected) {
                Some(f) => Some((f.arn.clone(), f.name.clone())),
                None => None,
            },
            Level::Detail { .. } => None,
        }
    }

    fn hints(&self) -> (r: Vec<(&'static str, &'static str)>) {
        match &self.detail_panel {
            Some(p) => p.hints(),
            None => {
                let in_detail = match self.level {
                    Level::Detail { .. } => true,
                    Level::Functions => false,
                };
                let mut hints: Vec<(&'static str, &'static str)> = Vec::new();
                announce(&mut hints, in_detail && self.env_len() > 0, "enter", "ver valor");
                announce(&mut hints, true, "y", "copiar ARN");
                announce(&mut hints, true, "O", "consola");
                announce(&mut hints, true, "l", "logs");
                proof {
                    assert(hints.deep_view() =~= self.model().hints());
                }
                hints
            },
        }
    }
}

// --- rows ------------------------------------------------------------------------------------

/// The size of a package of code for reading.
pub open spec fn code_size_text(bytes: int) -> Text {
    if bytes >= 1_048_576 {
        text::tenths_text(text::tenths(bytes, 1_048_576)) + " MB"@
    } else if bytes >= 1024 {
        text::decimal((bytes / 1024) as nat) + " KB"@
    } else {
        text::int_text(bytes) + " B"@
    }
}

/// The size of a package of code for reading.
pub fn fmt_size(bytes: i64) -> (r: String)
    ensures
        r@ == code_size_text(bytes as int),
{
    if bytes >= 1_048_576 {
        let mut out = text::with_tenths(bytes as u64, 1_048_576);
        out.append(" MB");
        out
    } else if bytes >= 1024 {
        let mut out = text::dec_text(bytes as u64 / 1024);
        out.append(" KB");
        out
    } else {
        let mut out = text::signed_text(bytes);
        out.append(" B");
        out
    }
}

/// A text, or a dash where it is not known.
pub open spec fn or_dash(s: Option<String>) -> Text {
    match s {
        Some(s) => s@,
        None => "—"@,
    }
}

fn text_or_dash(s: &Option<String>) -> (r: String)
    ensures
        r@ == or_dash(*s),
{
    match s {
        Some(s) => s.clone(),
        None => "—".to_string(),
    }
}

/// A number, or a dash where it is not known.
pub open spec fn number_or_dash(n: Option<i32>) -> Text {
    match n {
        Some(n) => text::int_text(n as int),
        None => "—"@,
    }
}

fn count_or_dash(n: Option<i32>) -> (r: String)
    ensures
        r@ == number_or_dash(n),
{
    match n {
        Some(n) => text::signed_text(n as i64),
        None => "—".to_string(),
    }
}

impl LambdaModel {
    /// The configuration as labels and values, `None` while it is not known.
    pub open spec fn config_rows(self) -> Option<Seq<(Text, Text)>> {
        match self.detail {
            None => None,
            Some(d) => Some(
                seq![
                    ("runtime"@, or_dash(d.runtime)),
                    ("handler"@, or_dash(d.handler)),
                    ("memoria"@, number_or_dash(d.memory) + " MB · timeout "@ + number_or_dash(d.timeout) + "s"@),
                    (
                        "code"@,
                        (match d.code_size {
                            Some(n) => code_size_text(n as int),
                            None => "—"@,
                        }) + " · mod "@ + or_dash(d.last_modified),
                    ),
                    ("role"@, or_dash(d.role)),
                    ("tracing"@, or_dash(d.tracing) + " · DLQ "@ + or_dash(d.dlq_target)),
                ] + (if d.layers.len() > 0 {
                    seq![("layers"@, text::decimal(d.layers.len()))]
                } else {
                    seq![]
                }) + (match d.description {
                    Some(desc) => seq![("desc"@, desc@)],
                    None => seq![],
                }),
            ),
        }
    }
}

impl LambdaView {
    /// The configuration as labels and values, `None` while it is not known.
    pub fn config_rows(&self) -> (r: Option<Vec<(&'static str, String)>>)
        ensures
            r.deep_view() == self.model().config_rows(),
    {
        match &self.detail {
            None => None,
            Some(d) => {
                let mut memory = count_or_dash(d.memory);
                memory.append(" MB · timeout ");
                memory.append(count_or_dash(d.timeout).as_str());
                memory.append("s");
                let mut code = match d.code_size {
                    Some(n) => fmt_size(n),
                    None => "—".to_string(),
                };
                code.append(" · mod ");
                code.append(text_or_dash(&d.last_modified).as_str());
                let mut tracing = text_or_dash(&d.tracing);
                tracing.append(" · DLQ ");
                tracing.append(text_or_dash(&d.dlq_target).as_str());
                let mut rows: Vec<(&'static str, String)> = vec![
                    ("runtime", text_or_dash(&d.runtime)),
                    ("handler", text_or_dash(&d.handler)),
                    ("memoria", memory),
                    ("code", code),
                    ("role", text_or_dash(&d.role)),
                    ("tracing", tracing),
                ];
                if d.layers.len() > 0 {
                    rows.push(("layers", text::dec_text(d.layers.len() as u64)));
                }
                match &d.description {
                    Some(desc) => rows.push(("desc", desc.clone())),
                    None => {},
                }
                proof {
                    assert(rows.deep_view() =~= self.model().config_rows()->0);
                }
                Some(rows)
            },
        }
    }
}

/// What the row of a function says beside its name.
pub open spec fn function_texts(f: FunctionDto) -> Seq<Text> {
    (match f.runtime {
        Some(rt) => seq!["["@ + rt@ + "]"@],
        None => seq![],
    }) + (match f.memory {
        Some(mem) => seq![text::int_text(mem as int) + "MB"@],
        None => seq![],
    }) + (match f.last_modified {
        Some(lm) => seq![text::head_of(lm@, 10)],
        None => seq![],
    })
}

/// The row of a function: its name, and its runtime, memory and day of last change, as far as they
/// are known.
pub fn function_row(f: &FunctionDto) -> (r: (String, Vec<String>))
    ensures
        r.0@ == f.name@,
        r.1.deep_view() == function_texts(*f),
{
    let mut notes: Vec<String> = Vec::new();
    match &f.runtime {
        Some(rt) => {
            let mut note = "[".to_string();
            note.append(rt.as_str());
            note.append("]");
            notes.push(note);
        },
        None => {},
    }
    match f.memory {
        Some(mem) => {
            let mut note = text::signed_text(mem as i64);
            note.append("MB");
            notes.push(note);
        },
        None => {},
    }
    match &f.last_modified {
        Some(lm) => {
            notes.push(text::head(lm.as_str(), 10));
        },
        None => {},
    }
    proof {
        assert(notes.deep_view() =~= function_texts(*f));
    }
    (f.name.clone(), notes)
}

/// The row of an environment variable: its key, and a preview of its value.
pub fn env_row(kv: &(String, String)) -> (r: (String, String))
    ensures
        r.0@ == kv.0@ + " = "@,
        r.1@ == text::preview_of(kv.1@, 60),
{
    let mut key = kv.0.clone();
    key.append(" = ");
    (key, text::preview(kv.1.as_str(), 60))
}

// --- laws ------------------------------------------------------------------------------------

/// The detail of another function than the one on screen changes nothing.
pub proof fn law_other_functions_are_ignored(m: LambdaModel, message: Message)
    requires
        message matches Message::FunctionDetailLoaded { function_arn, .. } && !m.shows(function_arn@),
    ensures
        m.informed(message) == m,
{
}

/// The pages of a list add up, whatever the first of them replaced; the view is loading until the
/// last one came.
pub proof fn law_pages_add_up(m: LambdaModel, first: Message, second: Message)
    requires
        m.level is Functions,
        first matches Message::FunctionsLoaded { append, .. } && !append,
        second matches Message::FunctionsLoaded { append, .. } && append,
    ensures
        m.informed(first).informed(second).functions == first->functions@ + second->functions@,
        m.informed(first).loading == first->FunctionsLoaded_more,
        m.informed(first).informed(second).loading == second->FunctionsLoaded_more,
{
}

/// The view never asks to change anything on AWS.
pub proof fn law_only_reads(m: LambdaModel, key: KeyEvent, i: int)
    requires
        0 <= i < m.keyed(key).1.len(),
    ensures
        !crate::action::mutates(m.keyed(key).1[i]),
{
}

/// From the detail of a function `Esc` comes back to the list.
pub proof fn law_esc_leaves_the_detail(m: LambdaModel, key: KeyEvent)
    requires
        m.level is Detail,
        m.panel is None,
        key.code == KeyCode::Esc,
    ensures
        m.keyed(key).0.level is Functions,
        m.keyed(key).0.functions == m.functions,
        m.keyed(key).1 == seq![ActionText::ClearFilter],
{
}

/// A function that was marked as a favourite opens at its detail.
pub proof fn law_a_favorite_function_opens_itself(m: LambdaModel, n: LambdaModel)
    requires
        LambdaView::favorite(m) is Some,
    ensures
        LambdaView::opened(n, ViewContext::Favorite { key: (LambdaView::favorite(m)->0).0 }).0.shows(
            m.function()->0.arn@,
        ),
{
}

/// The lists of a view that runs fit in memory.
pub open spec fn fits_in_memory(m: LambdaModel) -> bool {
    m.functions.len() <= usize::MAX && m.env().len() <= usize::MAX
}

/// Whatever happens to the view, its selection stays inside the list on screen, or on the first row
/// of a list that is still to come.
pub proof fn law_selection_stays_inside(
    m: LambdaModel,
    key: KeyEvent,
    message: Message,
    context: ViewContext<Text>,
    line: Text,
)
    requires
        fits_in_memory(m),
        list::inside(m.selected, m.visible()),
    ensures
        ({
            let n = LambdaView::activated(m).0;
            list::inside(n.selected, n.visible())
        }),
        ({
            let n = LambdaView::opened(m, context).0;
            list::inside(n.selected, n.visible())
        }),
        ({
            let n = LambdaView::keyed(m, key).0;
            list::inside(n.selected, n.visible())
        }),
        ({
            let n = LambdaView::informed(m, message);
            list::inside(n.selected, n.visible())
        }),
        ({
            let n = LambdaView::narrowed(m, line);
            list::inside(n.selected, n.visible())
        }),
        ({
            let n = LambdaView::searched(m, line).0;
            list::inside(n.selected, n.visible())
        }),
        ({
            let n = LambdaView::commanded(m, line).0;
            list::inside(n.selected, n.visible())
        }),
        ({
            let n = LambdaView::ticked(m).0;
            list::inside(n.selected, n.visible())
        }),
{
    list::lemma_shown_count(m.functions, m.filter);
    list::lemma_shown_count(m.env(), m.filter);
    list::lemma_shown_count(m.functions, line);
    list::lemma_shown_count(m.env(), line);
    match message {
        Message::FunctionsLoaded { functions, .. } => {
            assert(functions@.len() == functions.len());
            list::lemma_shown_count(functions@, m.filter);
            list::lemma_shown_count(m.functions + functions@, m.filter);
        },
        Message::FunctionDetailLoaded { detail, .. } => {
            assert(detail.env@.len() == detail.env.len());
            list::lemma_shown_count(detail.env@, m.filter);
        },
        _ => {},
    }
}

// --- what the keys are for ---------------------------------------------------------------------

/// `Enter` on a function shows its detail and remembers it; on a variable it shows its value in
/// full.
pub proof fn law_enter_goes_into_what_is_selected(m: LambdaModel, key: KeyEvent)
    requires
        m.panel is None,
        key.code == KeyCode::Enter,
    ensures
        m.level is Functions ==> forall|f: FunctionDto| #[trigger]
            list::is_selected(m.functions, m.filter, m.selected, f) ==> ({
                let (n, actions) = LambdaView::keyed(m, key);
                n.level == (Level::Detail { function_arn: f.arn@ }) && n.detail is None && actions == seq![
                    ActionText::ClearFilter,
                    ActionText::RecordRecent { key: f.arn@, label: f.name@ },
                    ActionText::LoadFunctionDetail { function_arn: f.arn@ },
                ]
            }),
        m.level is Detail ==> forall|kv: (String, String)| #[trigger]
            list::is_selected(m.env(), m.filter, m.selected, kv) ==> ({
                let (n, actions) = LambdaView::keyed(m, key);
                n.level == m.level && actions.len() == 0 && (n.panel matches Some(p) && p.raw == kv.1@)
            }),
{
}

/// `l` opens the logs of the selected function, or of the one on screen, over the last hour.
pub proof fn law_l_opens_the_logs(m: LambdaModel, key: KeyEvent, arn: Text, group: Text, now: int)
    requires
        m.panel is None,
        key.code == KeyCode::Char('l'),
        util::lambda_group(arn) == Some(group),
        m.level == (Level::Detail { function_arn: arn }) || (m.level is Functions && exists|f: FunctionDto| #[trigger]
            list::is_selected(m.functions, m.filter, m.selected, f) && f.arn@ == arn),
    ensures
        LambdaView::keyed(m, key).0 == m,
        LambdaView::keyed(m, key).1.len() == 1,
        LambdaView::keyed(m, key).1[0] matches Action::ActivateViewWithContext { id, context } && id == "logs"@ && (
        context matches ViewContext::LogGroupTail { group: opened, window } && opened == group && payload::bounds(
            window,
            now,
        ) == (now - 3_600_000, now)),
{
}

/// `r` asks again for what is on screen.
pub proof fn law_r_asks_again(m: LambdaModel, key: KeyEvent)
    requires
        m.panel is None,
        key.code == KeyCode::Char('r'),
    ensures
        LambdaView::keyed(m, key) == (
            LambdaModel { loading: true, ..m },
            seq![
                match m.level {
                    Level::Functions => ActionText::LoadFunctions,
                    Level::Detail { function_arn } => ActionText::LoadFunctionDetail { function_arn },
                },
            ],
        ),
{
}

/// `y` copies the ARN of the selected function or of the one on screen; `O` opens the function in
/// the web console by its name.
pub proof fn law_keys_name_what_is_selected(m: LambdaModel, key: KeyEvent, head: Text, name: Text)
    requires
        m.panel is None,
        !name.contains(':'),
    ensures
        m.level is Functions ==> forall|f: FunctionDto| #[trigger]
            list::is_selected(m.functions, m.filter, m.selected, f) ==> (key.code == KeyCode::Char('y')
                ==> LambdaView::keyed(m, key).1 == seq![ActionText::CopyToClipboard { text: f.arn@ }]) && (key.code
                == KeyCode::Char('O') ==> LambdaView::keyed(m, key).1 == seq![
                ActionText::OpenConsole { target: ConsoleTarget::LambdaFunction { name: f.name@ } },
            ]),
        m.level == (Level::Detail { function_arn: head + seq![':'] + name }) ==> (key.code == KeyCode::Char('y')
            ==> LambdaView::keyed(m, key).1 == seq![
            ActionText::CopyToClipboard { text: head + seq![':'] + name },
        ]) && (key.code == KeyCode::Char('O') ==> LambdaView::keyed(m, key).1 == seq![
            ActionText::OpenConsole { target: ConsoleTarget::LambdaFunction { name } },
        ]),
{
    text::law_the_last_part_follows_the_last_separator(head, ':', name);
}

/// The detail of the function on screen is shown, and loading ends; an error ends it too.
pub proof fn law_answers_are_shown(m: LambdaModel, message: Message)
    ensures
        match message {
            Message::FunctionDetailLoaded { function_arn, detail } => m.level == (Level::Detail {
                function_arn: function_arn@,
            }) ==> ({
                let n = LambdaView::informed(m, message);
                n.detail == Some(detail@) && !n.loading && n.level == m.level
            }),
            Message::FunctionsLoaded { functions, append, partial, .. } => ({
                let n = LambdaView::informed(m, message);
                n.functions == (if append { m.functions + functions@ } else { functions@ }) && n.functions_partial
                    == partial && n.level == m.level
            }),
            Message::Error { .. } => !LambdaView::informed(m, message).loading,
            _ => LambdaView::informed(m, message) == m,
        },
{
}

/// The view opens with the list of functions; a favourite opens the detail of its function.
pub proof fn law_favorites_open_what_they_name(m: LambdaModel, function_arn: Text)
    ensures
        ({
            let (n, actions) = LambdaView::activated(m);
            n.level is Functions && actions == seq![ActionText::LoadFunctions]
        }),
        ({
            let (n, actions) = LambdaView::opened(m, ViewContext::Favorite { key: function_arn });
            n.level == (Level::Detail { function_arn }) && actions == seq![
                ActionText::LoadFunctionDetail { function_arn },
            ]
        }),
{
}

/// `j` and `k` move to the neighbouring row of what the filter shows, `g` and `G` to its ends.
pub proof fn law_keys_move_the_selection(m: LambdaModel, key: KeyEvent, row: usize)
    requires
        m.panel is None,
        m.selected == Some(row),
    ensures
        ({
            let n = LambdaView::keyed(m, key).0;
            let len = match m.level {
                Level::Functions => list::shown(m.functions, m.filter).len(),
                Level::Detail { .. } => list::shown(m.env(), m.filter).len(),
            };
            &&& row + 1 < len <= usize::MAX && (key.code == KeyCode::Char('j') || key.code == KeyCode::Down) ==> n.selected
                == Some((row + 1) as usize)
            &&& 0 < row < len <= usize::MAX && (key.code == KeyCode::Char('k') || key.code == KeyCode::Up) ==> n.selected
                == Some((row - 1) as usize)
            &&& 0 < len <= usize::MAX && (key.code == KeyCode::Char('g') || key.code == KeyCode::Home) ==> n.selected
                == Some(0usize)
            &&& 0 < len <= usize::MAX && (key.code == KeyCode::Char('G') || key.code == KeyCode::End) ==> n.selected
                == Some((len - 1) as usize)
        }),
{
}

/// The variables on screen are those of the function on screen.
pub proof fn law_variables_are_those_of_the_function(m: LambdaModel)
    ensures
        m.detail is None ==> m.env().len() == 0,
        m.detail matches Some(d) ==> m.env() == d.env,
{
}

/// A filter narrows the list on screen and selects the first row that is left; it loads nothing and
/// changes nothing else.
pub proof fn law_filters_narrow_the_list(m: LambdaModel, filter: Text)
    ensures
        LambdaView::narrowed(m, filter).filter == filter,
        LambdaView::narrowed(m, filter) == (LambdaModel { filter, selected: LambdaView::narrowed(m, filter).selected, ..m }),
        ({
            let len = match m.level {
                Level::Functions => list::shown(m.functions, filter).len(),
                Level::Detail { .. } => list::shown(m.env(), filter).len(),
            };
            0 < len <= usize::MAX ==> LambdaView::narrowed(m, filter).selected == Some(0usize)
        }),
{
}

/// Over a list, the panel takes the keys: `y` copies its text, `Esc` and `Enter` close it, `j` and `k`
/// scroll it, and nothing is asked for.
pub proof fn law_the_panel_takes_the_keys(m: LambdaModel, key: KeyEvent, p: DetailPanel<Text>)
    requires
        m.panel == Some(p),
    ensures
        ({
            let (n, actions) = LambdaView::keyed(m, key);
            &&& key.code == KeyCode::Char('y') ==> n == m && actions == seq![ActionText::CopyToClipboard { text: p.raw }]
            &&& key.code == KeyCode::Esc || key.code == KeyCode::Enter ==> n == (LambdaModel { panel: None, ..m })
                && actions.len() == 0
            &&& key.code != KeyCode::Char('y') && key.code != KeyCode::Esc && key.code != KeyCode::Enter ==> actions.len()
                == 0 && n == (LambdaModel { panel: n.panel, ..m }) && (n.panel matches Some(q) && q.raw == p.raw && q.title
                == p.title)
            &&& key.code == KeyCode::Char('j') && p.scroll < u16::MAX ==> (n.panel matches Some(q) && q.scroll == p.scroll
                + 1)
            &&& key.code == KeyCode::Char('k') && p.scroll > 0 ==> (n.panel matches Some(q) && q.scroll == p.scroll - 1)
        }),
{
}

/// The title names the function on screen.
pub proof fn law_titles_name_the_place(m: LambdaModel, head: Text, name: Text)
    requires
        !name.contains(':'),
    ensures
        m.level is Functions ==> LambdaView::title_text(m) == LambdaView::id_text(m),
        m.level == (Level::Detail { function_arn: head + seq![':'] + name }) ==> text::has_suffix(
            LambdaView::title_text(m),
            name,
        ),
{
    text::law_the_last_part_follows_the_last_separator(head, ':', name);
    let t = "lambda / "@ + name;
    assert(t.skip(t.len() - name.len()) =~= name);
}

/// The size of a package is shown in bytes, in whole kilobytes, or in megabytes to a tenth.
pub proof fn law_sizes_are_shown(n: int)
    requires
        0 <= n,
    ensures
        n < 1024 ==> code_size_text(n) == text::decimal(n as nat) + " B"@,
        1 <= n < 1024 ==> code_size_text(n * 1024) == text::decimal(n as nat) + " KB"@,
        n >= 1024 * 1024 ==> code_size_text(n) == text::tenths_text(text::tenths(n, 1_048_576)) + " MB"@,
{
    assert((n * 1024) / 1024 == n);
}

/// The keys that move the selection change nothing else and ask for nothing; keys that mean nothing
/// here change nothing at all.
pub proof fn law_moving_changes_nothing_else(m: LambdaModel, key: KeyEvent)
    requires
        m.panel is None,
    ensures
        ({
            let (n, actions) = LambdaView::keyed(m, key);
            &&& key.code == KeyCode::Char('j') || key.code == KeyCode::Char('k') || key.code == KeyCode::Char('g')
                || key.code == KeyCode::Char('G') || key.code == KeyCode::Down || key.code == KeyCode::Up || key.code
                == KeyCode::Home || key.code == KeyCode::End ==> n == (LambdaModel { selected: n.selected, ..m }) && actions.len()
                == 0
            &&& key.code == KeyCode::Tab || key.code == KeyCode::Left || key.code == KeyCode::Right || key.code
                == KeyCode::Backspace || key.code == KeyCode::Other ==> n == m && actions.len() == 0
        }),
{
}

/// What goes to another level by `Enter` starts on its first row and loads; the lists above it and
/// the filter stay.
pub proof fn law_going_in_keeps_what_is_above(m: LambdaModel, key: KeyEvent)
    requires
        m.panel is None,
        key.code == KeyCode::Enter,
    ensures
        ({
            let n = LambdaView::keyed(m, key).0;
            &&& n.level != m.level ==> n.loading && n.selected == Some(0usize) && n.panel is None
            &&& n.filter == m.filter
            &&& n.functions == m.functions && n.functions_partial == m.functions_partial
            &&& n.level == m.level ==> n == (LambdaModel { panel: n.panel, ..m })
        }),
{
}

/// A failure ends the loading and leaves what is shown; so does an answer about something else.
pub proof fn law_failures_leave_what_is_shown(m: LambdaModel, message: Message)
    ensures
        message is Error ==> LambdaView::informed(m, message) == (LambdaModel { loading: false, ..m }),
        message is QueuesLoaded ==> LambdaView::informed(m, message) == m,
{
}

/// A view that is activated starts at its root, on the first row, and loads what is there.
pub proof fn law_activation_starts_at_the_root(m: LambdaModel)
    ensures
        ({
            let (n, actions) = LambdaView::activated(m);
            &&& n.level is Functions
            &&& n.loading
            &&& n.selected == Some(0usize)
            &&& n.filter == m.filter
            &&& n.functions == m.functions
            &&& actions == seq![ActionText::LoadFunctions]
            &&& n.detail is None && n.panel is None
        }),
{
}

/// The hints announce the keys that do something where one is; showing a value only where there are
/// variables.
pub proof fn law_hints_announce_what_keys_do(m: LambdaModel)
    ensures
        ({
            let h = LambdaView::hint_texts(m);
            &&& m.panel is Some ==> h == seq![("j/k"@, "scroll"@), ("y"@, "copiar"@), ("esc"@, "cerrar"@)]
            &&& m.panel is None && m.level is Detail && m.env().len() > 0 ==> h == seq![
                ("enter"@, "ver valor"@),
                ("y"@, "copiar ARN"@),
                ("O"@, "consola"@),
                ("l"@, "logs"@),
            ]
            &&& m.panel is None && (m.level is Functions || m.env().len() == 0) ==> h == seq![
                ("y"@, "copiar ARN"@),
                ("O"@, "consola"@),
                ("l"@, "logs"@),
            ]
        }),
{
}

/// The captions count the functions and the variables that are shown: all of them without a filter,
/// and how many of how many under one, which is named; a list that is not whole is marked.
pub proof fn law_captions_count_what_is_shown(m: LambdaModel)
    ensures
        ({
            let partial = if m.functions_partial { " · parcial"@ } else { ""@ };
            let loading = if m.loading && m.functions.len() > 0 { " · cargando…"@ } else { ""@ };
            &&& m.filter.len() == 0 ==> m.functions_title() == " "@ + text::decimal(m.functions.len()) + " funciones"@
                + partial + loading + " "@
            &&& m.filter.len() > 0 ==> m.functions_title() == " "@ + text::decimal(
                list::shown(m.functions, m.filter).len(),
            ) + "/"@ + text::decimal(m.functions.len()) + " funciones"@ + partial + loading + " · filtro: "@ + m.filter
                + " "@
        }),
        m.filter.len() == 0 ==> m.env_title() == " env vars · "@ + text::decimal(m.env().len()) + " · enter expande "@,
        m.filter.len() > 0 ==> m.env_title() == " env vars · "@ + text::decimal(list::shown(m.env(), m.filter).len())
            + "/"@ + text::decimal(m.env().len()) + " · filtro: "@ + m.filter + " "@,
{
}

/// The configuration of a function is shown under its labels, a dash for what is not known; layers
/// and a description only where there are any.
pub proof fn law_the_configuration_is_shown(
    m: LambdaModel,
    d: FunctionDetailDto<String, Seq<String>, Seq<(String, String)>>,
)
    requires
        m.detail == Some(d),
    ensures
        m.config_rows() matches Some(rows) && {
            &&& rows.len() == 6 + (if d.layers.len() > 0 { 1int } else { 0 }) + (if d.description is Some {
                1int
            } else {
                0
            })
            &&& rows[0].0 == "runtime"@ && rows[1].0 == "handler"@ && rows[2].0 == "memoria"@ && rows[3].0 == "code"@
            &&& rows[4].0 == "role"@ && rows[5].0 == "tracing"@
            &&& rows[0].1 == (match d.runtime {
                Some(s) => s@,
                None => "—"@,
            })
            &&& rows[1].1 == (match d.handler {
                Some(s) => s@,
                None => "—"@,
            })
            &&& rows[4].1 == (match d.role {
                Some(s) => s@,
                None => "—"@,
            })
            &&& d.memory matches Some(mb) ==> (d.timeout matches Some(secs) ==> rows[2].1 == text::int_text(mb as int)
                + " MB · timeout "@ + text::int_text(secs as int) + "s"@)
            &&& d.code_size matches Some(n) ==> (d.last_modified matches Some(day) ==> rows[3].1 == code_size_text(
                n as int,
            ) + " · mod "@ + day@)
            &&& d.tracing matches Some(mode) ==> (d.dlq_target matches Some(arn) ==> rows[5].1 == mode@ + " · DLQ "@ + arn@)
            &&& d.layers.len() > 0 ==> rows[6] == ("layers"@, text::decimal(d.layers.len()))
            &&& d.description matches Some(s) ==> rows.last() == ("desc"@, s@)
        },
{
}

/// The row of a function tells its runtime in brackets, its memory and the day of its last change.
pub proof fn law_functions_are_shown(f: FunctionDto)
    ensures
        f.runtime matches Some(rt) ==> (f.memory matches Some(mb) ==> (f.last_modified matches Some(at) ==> function_texts(f)
            == seq!["["@ + rt@ + "]"@, text::int_text(mb as int) + "MB"@, text::head_of(at@, 10)])),
        f.runtime is None && f.memory is None && f.last_modified is None ==> function_texts(f).len() == 0,
{
    if let Some(rt) = f.runtime {
        if let Some(mb) = f.memory {
            if let Some(at) = f.last_modified {
                assert(function_texts(f) =~= seq![
                    "["@ + rt@ + "]"@,
                    text::int_text(mb as int) + "MB"@,
                    text::head_of(at@, 10),
                ]);
            }
        }
    }
}

/// The panel of a variable shows its value under its name.
pub proof fn law_enter_shows_the_variable(m: LambdaModel, key: KeyEvent, v: (String, String))
    requires
        m.panel is None,
        m.level is Detail,
        m.variable() == Some(v),
        key.code == KeyCode::Enter,
    ensures
        LambdaView::keyed(m, key) == (
            LambdaModel { panel: Some(DetailPanel { title: "env "@ + v.0@, raw: v.1@, scroll: 0 }), ..m },
            Seq::<ActionText>::empty(),
        ),
{
}

/// `Esc` goes to the list of functions, from its first row and with nothing loading; asking again
/// leaves what is shown; going into a function forgets what was known of the one before.
pub proof fn law_keys_change_what_they_are_about(m: LambdaModel, key: KeyEvent)
    requires
        m.panel is None,
    ensures
        ({
            let (n, actions) = LambdaView::keyed(m, key);
            &&& key.code == KeyCode::Esc && m.level is Detail ==> n == (LambdaModel {
                level: Level::Functions,
                loading: false,
                selected: n.selected,
                ..m
            }) && actions == seq![ActionText::ClearFilter]
            &&& key.code == KeyCode::Esc && m.level is Detail && 0 < list::shown(m.functions, m.filter).len()
                <= usize::MAX ==> n.selected == Some(0usize)
            &&& key.code == KeyCode::Char('r') ==> n == (LambdaModel { loading: true, ..m })
            &&& key.code == KeyCode::Enter && n.level != m.level ==> n == (LambdaModel {
                level: n.level,
                detail: None,
                loading: true,
                selected: Some(0usize),
                ..m
            })
            &&& key.code == KeyCode::Char('l') || key.code == KeyCode::Char('y') || key.code == KeyCode::Char('O') ==> n
                == m
        }),
{
}

/// An answer changes what it is about and nothing else; the list keeps loading while more of it is to
/// come, and the selected row stays where it is still there.
pub proof fn law_answers_change_what_they_are_about(m: LambdaModel, message: Message, row: usize)
    requires
        m.selected == Some(row),
    ensures
        ({
            let n = LambdaView::informed(m, message);
            match message {
                Message::FunctionsLoaded { functions, append, more, partial } => {
                    &&& n == (LambdaModel {
                        functions: if append { m.functions + functions@ } else { functions@ },
                        functions_partial: partial,
                        loading: if m.level is Functions { more } else { m.loading },
                        selected: n.selected,
                        ..m
                    })
                    &&& !(m.level is Functions) ==> n.selected == m.selected
                    &&& m.level is Functions && row < list::shown(n.functions, m.filter).len() ==> n.selected
                        == m.selected
                },
                Message::FunctionDetailLoaded { detail, .. } => n == m || n == (LambdaModel {
                    detail: Some(detail@),
                    loading: false,
                    selected: n.selected,
                    ..m
                }),
                _ => n == (LambdaModel { loading: n.loading, ..m }),
            }
        }),
{
}

/// The function that is selected in the list can be marked, by its ARN and under its name; the view is
/// at its root on that list with nothing over it.
pub proof fn law_functions_are_marked_in_the_list(m: LambdaModel, f: FunctionDto)
    ensures
        m.level is Functions && list::is_selected(m.functions, m.filter, m.selected, f) ==> LambdaView::favorite(m) == Some(
            (f.arn@, f.name@),
        ),
        m.level is Detail || m.selected is None ==> LambdaView::favorite(m) is None,
        LambdaView::at_root(m) <==> m.level is Functions && m.panel is None,
        !LambdaView::takes_raw_input(m),
{
}

} // verus!
