//! View `sqs`: the queues, and the attributes and first messages of one of them.

use vstd::prelude::*;

use crate::action::{Action, ActionText, ConsoleTarget, ViewContext};
use crate::key::{KeyCode, KeyEvent};
use crate::list;
use crate::list::ListState;
use crate::message::{Message, QueueAttrsDto, QueueDto, QueueMessageDto, Text};
use crate::text;
use crate::ui::detail;
use crate::ui::detail::DetailPanel;
use crate::util;
use crate::util::fmt_epoch_millis;
use crate::views::{nothing, DeckView};

verus! {

/// What the view shows.
#[derive(Debug)]
#[verifier::ext_equal]
pub enum Level<S = String> {
    Queues,
    Detail { queue_url: S },
}

impl DeepView for Level<String> {
    type V = Level<Text>;

    open spec fn deep_view(&self) -> Level<Text> {
        match self {
            Level::Queues => Level::Queues,
            Level::Detail { queue_url } => Level::Detail { queue_url: queue_url@ },
        }
    }
}

pub struct SqsView {
    pub level: Level,
    pub queues: Vec<QueueDto>,
    pub attrs: Option<QueueAttrsDto>,
    pub messages: Vec<QueueMessageDto>,
    /// Full body of a message, over the detail.
    pub detail_panel: Option<DetailPanel>,
    pub filter: String,
    pub loading: bool,
    pub state: ListState,
}

/// The state of the view.
#[verifier::ext_equal]
pub struct SqsModel {
    pub level: Level<Text>,
    pub queues: Seq<QueueDto>,
    pub attrs: Option<QueueAttrsDto<String, Seq<String>>>,
    pub messages: Seq<QueueMessageDto>,
    pub panel: Option<DetailPanel<Text>>,
    pub filter: Text,
    pub loading: bool,
    pub selected: Option<usize>,
}

/// The view of an optional record.
pub open spec fn attrs_view(attrs: Option<QueueAttrsDto>) -> Option<QueueAttrsDto<String, Seq<String>>> {
    match attrs {
        Some(a) => Some(a@),
        None => None,
    }
}

impl SqsModel {
    /// How many rows the filter shows.
    pub open spec fn visible(self) -> nat {
        match self.level {
            Level::Queues => list::shown(self.queues, self.filter).len(),
            Level::Detail { .. } => list::shown(self.messages, self.filter).len(),
        }
    }

    /// The selected queue.
    pub open spec fn queue(self) -> Option<QueueDto> {
        list::picked(self.queues, self.filter, self.selected)
    }

    /// The selected message.
    pub open spec fn message(self) -> Option<QueueMessageDto> {
        list::picked(self.messages, self.filter, self.selected)
    }

    /// The selection brought back inside the list.
    pub open spec fn clamped(self) -> SqsModel {
        SqsModel { selected: list::clamped(self.selected, self.visible()), ..self }
    }

    /// The detail of a queue, before anything of it is known.
    pub open spec fn entering(self, queue_url: Text) -> SqsModel {
        SqsModel {
            level: Level::Detail { queue_url },
            attrs: None,
            messages: Seq::empty(),
            loading: true,
            selected: Some(0usize),
            ..self
        }
    }

    /// From the list to the detail of the selected queue.
    pub open spec fn drilled(self) -> (SqsModel, Seq<ActionText>) {
        match (self.level, self.queue()) {
            (Level::Queues, Some(q)) => (
                self.entering(q.url@),
                seq![ActionText::LoadQueueDetail { queue_url: q.url@ }],
            ),
            _ => (self, seq![]),
        }
    }

    /// The full body of the selected message, in a panel.
    pub open spec fn expanded(self) -> SqsModel {
        match self.message() {
            Some(m) => SqsModel {
                panel: Some(DetailPanel { title: "msg "@ + m.id@, raw: m.body@, scroll: 0 }),
                ..self
            },
            None => self,
        }
    }

    /// One level up; at the root, back to the menu.
    pub open spec fn backed(self) -> (SqsModel, Seq<ActionText>) {
        match self.level {
            Level::Detail { .. } => (
                SqsModel { level: Level::Queues, loading: false, selected: Some(0usize), ..self }.clamped(),
                seq![],
            ),
            Level::Queues => (self, seq![ActionText::Back]),
        }
    }

    pub open spec fn refreshed(self) -> (SqsModel, Seq<ActionText>) {
        (
            SqsModel { loading: true, ..self },
            match self.level {
                Level::Queues => seq![ActionText::LoadQueues],
                Level::Detail { queue_url } => seq![ActionText::LoadQueueDetail { queue_url }],
            },
        )
    }

    /// URL of the queue that the level is about.
    pub open spec fn current_url(self) -> Option<Text> {
        match self.level {
            Level::Queues => match self.queue() {
                Some(q) => Some(q.url@),
                None => None,
            },
            Level::Detail { queue_url } => Some(queue_url),
        }
    }

    /// The queue on screen is a dead-letter queue.
    pub open spec fn on_dlq(self) -> bool {
        self.level is Detail && (self.attrs matches Some(a) && a.dlq_sources.len() > 0)
    }

    pub open spec fn keyed(self, key: KeyEvent) -> (SqsModel, Seq<ActionText>) {
        match self.panel {
            Some(p) => if key.code == KeyCode::Char('y') {
                (self, seq![ActionText::CopyToClipboard { text: p.raw }])
            } else if detail::closes(key.code) {
                (SqsModel { panel: None, ..self }, seq![])
            } else {
                (
                    SqsModel {
                        panel: Some(DetailPanel { scroll: detail::scrolled(p.scroll, key.code), ..p }),
                        ..self
                    },
                    seq![],
                )
            },
            None => match key.code {
                KeyCode::Char('j') | KeyCode::Down => (
                    SqsModel { selected: list::moved(self.selected, self.visible(), 1), ..self },
                    seq![],
                ),
                KeyCode::Char('k') | KeyCode::Up => (
                    SqsModel { selected: list::moved(self.selected, self.visible(), -1), ..self },
                    seq![],
                ),
                KeyCode::Char('g') | KeyCode::Home => (
                    SqsModel { selected: list::edge(self.visible(), false), ..self },
                    seq![],
                ),
                KeyCode::Char('G') | KeyCode::End => (
                    SqsModel { selected: list::edge(self.visible(), true), ..self },
                    seq![],
                ),
                KeyCode::Enter => if self.level is Detail { (self.expanded(), seq![]) } else { self.drilled() },
                KeyCode::Esc => self.backed(),
                KeyCode::Char('r') => self.refreshed(),
                KeyCode::Char('p') => (
                    self,
                    match self.level {
                        Level::Detail { queue_url } => seq![ActionText::PurgeQueue { queue_url }],
                        Level::Queues => seq![],
                    },
                ),
                KeyCode::Char('d') => (
                    self,
                    match self.level {
                        Level::Detail { queue_url } => if self.on_dlq() {
                            seq![ActionText::RedriveDlq { queue_url }]
                        } else {
                            seq![]
                        },
                        Level::Queues => seq![],
                    },
                ),
                KeyCode::Char('y') => (
                    self,
                    match self.current_url() {
                        Some(text) => seq![ActionText::CopyToClipboard { text }],
                        None => seq![],
                    },
                ),
                KeyCode::Char('O') => (
                    self,
                    match self.current_url() {
                        Some(url) => seq![ActionText::OpenConsole { target: ConsoleTarget::SqsQueue { url } }],
                        None => seq![],
                    },
                ),
                _ => (self, seq![]),
            },
        }
    }

    /// The detail of this queue is on screen.
    pub open spec fn shows(self, queue_url: Text) -> bool {
        self.level == Level::Detail { queue_url }
    }

    pub open spec fn informed(self, message: Message) -> SqsModel {
        match message {
            Message::QueuesLoaded(queues) => {
                let m = SqsModel { queues: queues@, ..self };
                if self.level is Queues {
                    SqsModel { loading: false, ..m }.clamped()
                } else {
                    m
                }
            },
            Message::QueueDetailLoaded { queue_url, attrs, messages } => if self.shows(queue_url@) {
                SqsModel { attrs: Some(attrs@), messages: messages@, loading: false, ..self }.clamped()
            } else {
                self
            },
            Message::QueuePurged { queue_url } => if self.shows(queue_url@) {
                SqsModel { messages: Seq::empty(), loading: true, ..self }
            } else {
                self
            },
            Message::DlqRedriveStarted { queue_url } => if self.shows(queue_url@) {
                SqsModel { loading: true, ..self }
            } else {
                self
            },
            Message::Error { .. } => SqsModel { loading: false, ..self },
            _ => self,
        }
    }

    pub open spec fn activated(self) -> SqsModel {
        SqsModel {
            level: Level::Queues,
            attrs: None,
            messages: Seq::empty(),
            panel: None,
            loading: true,
            selected: Some(0usize),
            ..self
        }
    }

    pub open spec fn title(self) -> Text {
        match self.level {
            Level::Queues => "sqs"@,
            Level::Detail { queue_url } => "sqs / "@ + text::last_part_of(queue_url, '/'),
        }
    }

    pub open spec fn hints(self) -> Seq<(Text, Text)> {
        if self.panel is Some {
            detail::panel_hints()
        } else {
            match self.level {
                Level::Queues => seq![("y"@, "copiar URL"@), ("O"@, "consola"@)],
                Level::Detail { .. } => if self.on_dlq() {
                    seq![("enter"@, "ver mensaje"@), ("p"@, "purgar"@), ("d"@, "redrive"@)]
                } else {
                    seq![("enter"@, "ver mensaje"@), ("p"@, "purgar"@)]
                },
            }
        }
    }

    pub open spec fn queues_title(self) -> Text {
        if self.filter.len() == 0 {
            " "@ + text::decimal(self.queues.len()) + " colas "@
        } else {
            " "@ + text::decimal(list::shown(self.queues, self.filter).len()) + "/"@ + text::decimal(self.queues.len())
                + " colas · filtro: "@ + self.filter + " "@
        }
    }

    pub open spec fn messages_title(self) -> Text {
        if self.filter.len() == 0 {
            " peek · "@ + text::decimal(self.messages.len()) + " msgs · best-effort (receive_count++) "@
        } else {
            " peek · "@ + text::decimal(list::shown(self.messages, self.filter).len()) + "/"@ + text::decimal(
                self.messages.len(),
            ) + " · filtro: "@ + self.filter + " "@
        }
    }
}

impl SqsView {
    pub fn new() -> (r: Self)
        ensures
            r.model() == (SqsModel {
                level: Level::Queues,
                queues: Seq::empty(),
                attrs: None,
                messages: Seq::empty(),
                panel: None,
                filter: Seq::empty(),
                loading: false,
                selected: Some(0usize),
            }),
    {
        SqsView {
            level: Level::Queues,
            queues: Vec::new(),
            attrs: None,
            messages: Vec::new(),
            detail_panel: None,
            filter: String::new(),
            loading: false,
            state: ListState::new(Some(0)),
        }
    }

    /// How many rows the filter shows.
    pub fn visible_len(&self) -> (r: usize)
        ensures
            r == self.model().visible(),
    {
        match self.level {
            Level::Queues => list::filtered(&self.queues, self.filter.as_str()).len(),
            Level::Detail { .. } => list::filtered(&self.messages, self.filter.as_str()).len(),
        }
    }

    fn clamp_selection(&mut self)
        ensures
            final(self).model() == old(self).model().clamped(),
    {
        let len: usize = self.visible_len();
        self.state.clamp(len);
    }

    fn drill(&mut self) -> (r: Vec<Action>)
        ensures
            (final(self).model(), r.deep_view()) == old(self).model().drilled(),
    {
        match self.level {
            Level::Queues => {
                let url = match list::pick(&self.queues, self.filter.as_str(), self.state.selected) {
                    Some(q) => q.url.clone(),
                    None => return nothing(),
                };
                self.level = Level::Detail { queue_url: url.clone() };
                self.attrs = None;
                self.messages = Vec::new();
                self.loading = true;
                self.state.select(Some(0));
                vec![Action::LoadQueueDetail { queue_url: url }]
            },
            Level::Detail { .. } => nothing(),
        }
    }

    fn open_message(&mut self)
        ensures
            final(self).model() == old(self).model().expanded(),
    {
        let panel = match list::pick(&self.messages, self.filter.as_str(), self.state.selected) {
            Some(m) => {
                let mut title = "msg ".to_string();
                title.append(m.id.as_str());
                DetailPanel::new(title.as_str(), m.body.as_str())
            },
            None => return,
        };
        self.detail_panel = Some(panel);
    }

    fn back(&mut self) -> (r: Vec<Action>)
        ensures
            (final(self).model(), r.deep_view()) == old(self).model().backed(),
    {
        match self.level {
            Level::Detail { .. } => {
                self.level = Level::Queues;
                self.loading = false;
                self.state.select(Some(0));
                self.clamp_selection();
                nothing()
            },
            Level::Queues => vec![Action::Back],
        }
    }

    fn refresh(&mut self) -> (r: Vec<Action>)
        ensures
            (final(self).model(), r.deep_view()) == old(self).model().refreshed(),
    {
        self.loading = true;
        match &self.level {
            Level::Queues => vec![Action::LoadQueues],
            Level::Detail { queue_url } => vec![Action::LoadQueueDetail { queue_url: queue_url.clone() }],
        }
    }

    fn purge_intent(&self) -> (r: Vec<Action>)
        ensures
            r.deep_view() == (match self.model().level {
                Level::Detail { queue_url } => seq![ActionText::PurgeQueue { queue_url }],
                Level::Queues => seq![],
            }),
    {
        match &self.level {
            Level::Detail { queue_url } => vec![Action::PurgeQueue { queue_url: queue_url.clone() }],
            Level::Queues => nothing(),
        }
    }

    fn on_dlq(&self) -> (r: bool)
        ensures
            r == self.model().on_dlq(),
    {
        match (&self.level, &self.attrs) {
            (Level::Detail { .. }, Some(a)) => a.dlq_sources.len() > 0,
            _ => false,
        }
    }

    fn redrive_intent(&self) -> (r: Vec<Action>)
        ensures
            r.deep_view() == (match self.model().level {
                Level::Detail { queue_url } => if self.model().on_dlq() {
                    seq![ActionText::RedriveDlq { queue_url }]
                } else {
                    seq![]
                },
                Level::Queues => seq![],
            }),
    {
        match &self.level {
            Level::Detail { queue_url } => {
                if self.on_dlq() {
                    vec![Action::RedriveDlq { queue_url: queue_url.clone() }]
                } else {
                    nothing()
                }
            },
            Level::Queues => nothing(),
        }
    }

    fn current_url(&self) -> (r: Option<String>)
        ensures
            r.deep_view() == self.model().current_url(),
    {
        match &self.level {
            Level::Queues => match list::pick(&self.queues, self.filter.as_str(), self.state.selected) {
                Some(q) => Some(q.url.clone()),
                None => None,
            },
            Level::Detail { queue_url } => Some(queue_url.clone()),
        }
    }

    /// Title of the list of queues.
    pub fn queues_title(&self) -> (r: String)
        ensures
            r@ == self.model().queues_title(),
    {
        let mut out = " ".to_string();
        if !self.filter.as_str().is_empty() {
            let rows: usize = list::filtered(&self.queues, self.filter.as_str()).len();
            out.append(text::dec_text(rows as u64).as_str());
            out.append("/");
            out.append(text::dec_text(self.queues.len() as u64).as_str());
            out.append(" colas · filtro: ");
            out.append(self.filter.as_str());
            out.append(" ");
        } else {
            out.append(text::dec_text(self.queues.len() as u64).as_str());
            out.append(" colas ");
        }
        out
    }

    /// Title of the list of messages.
    pub fn messages_title(&self) -> (r: String)
        ensures
            r@ == self.model().messages_title(),
    {
        let mut out = " peek · ".to_string();
        if !self.filter.as_str().is_empty() {
            let rows: usize = list::filtered(&self.messages, self.filter.as_str()).len();
            out.append(text::dec_text(rows as u64).as_str());
            out.append("/");
            out.append(text::dec_text(self.messages.len() as u64).as_str());
            out.append(" · filtro: ");
            out.append(self.filter.as_str());
            out.append(" ");
        } else {
            out.append(text::dec_text(self.messages.len() as u64).as_str());
            out.append(" msgs · best-effort (receive_count++) ");
        }
        out
    }

    /// What the list says where it is empty.
    pub fn empty_line(&self) -> (r: &'static str)
        ensures
            r@ == list::blank_text(
                self.loading,
                self.filter@,
                match self.level {
                    Level::Queues => "(sin resultados)"@,
                    Level::Detail { .. } => "(cola sin mensajes visibles)"@,
                },
            ),
    {
        let otherwise = match &self.level {
            Level::Queues => "(sin resultados)",
            Level::Detail { .. } => "(cola sin mensajes visibles)",
        };
        list::blank_msg(self.loading, self.filter.as_str(), otherwise)
    }
}

impl DeckView for SqsView {
    type Model = SqsModel;

    open spec fn model(&self) -> SqsModel {
        SqsModel {
            level: self.level.deep_view(),
            queues: self.queues@,
            attrs: attrs_view(self.attrs),
            messages: self.messages@,
            panel: self.detail_panel.deep_view(),
            filter: self.filter@,
            loading: self.loading,
            selected: self.state.selected,
        }
    }

    open spec fn wf(&self) -> bool {
        true
    }

    open spec fn id_text(m: SqsModel) -> Text {
        "sqs"@
    }

    open spec fn description_text(m: SqsModel) -> Text {
        "Colas SQS: attributes, peek, purge"@
    }

    open spec fn title_text(m: SqsModel) -> Text {
        m.title()
    }

    open spec fn activated(m: SqsModel) -> (SqsModel, Seq<ActionText>) {
        (m.activated(), seq![ActionText::LoadQueues])
    }

    open spec fn opened(m: SqsModel, context: ViewContext<Text>) -> (SqsModel, Seq<ActionText>) {
        match context {
            ViewContext::Favorite { key } => (
                SqsModel { panel: None, ..m }.entering(key),
                seq![ActionText::LoadQueueDetail { queue_url: key }],
            ),
            _ => Self::activated(m),
        }
    }

    open spec fn keyed(m: SqsModel, key: KeyEvent) -> (SqsModel, Seq<ActionText>) {
        m.keyed(key)
    }

    open spec fn informed(m: SqsModel, message: Message) -> SqsModel {
        m.informed(message)
    }

    open spec fn narrowed(m: SqsModel, filter: Text) -> SqsModel {
        SqsModel { filter, selected: Some(0usize), ..m }.clamped()
    }

    open spec fn searched(m: SqsModel, query: Text) -> (SqsModel, Seq<ActionText>) {
        (m, seq![])
    }

    open spec fn commanded(m: SqsModel, cmd: Text) -> (SqsModel, Seq<ActionText>) {
        (m, seq![])
    }

    open spec fn ticked(m: SqsModel) -> (SqsModel, Seq<ActionText>) {
        (m, seq![])
    }

    open spec fn takes_raw_input(m: SqsModel) -> bool {
        false
    }

    open spec fn favorite(m: SqsModel) -> Option<(Text, Text)> {
        match (m.level, m.queue()) {
            (Level::Queues, Some(q)) => Some((q.url@, q.name@)),
            _ => None,
        }
    }

    open spec fn hint_texts(m: SqsModel) -> Seq<(Text, Text)> {
        m.hints()
    }

    open spec fn at_root(m: SqsModel) -> bool {
        m.level is Queues && m.panel is None
    }

    proof fn law_esc_at_root_goes_back(m: SqsModel, key: KeyEvent) {
    }

    fn id(&self) -> (r: &'static str) {
        "sqs"
    }

    fn description(&self) -> (r: &'static str) {
        "Colas SQS: attributes, peek, purge"
    }

    fn title(&self) -> (r: String) {
        match &self.level {
            Level::Queues => "sqs".to_string(),
            Level::Detail { queue_url } => {
                let mut out = "sqs / ".to_string();
                out.append(text::last_part(queue_url.as_str(), '/').as_str());
                out
            },
        }
    }

    fn on_activate(&mut self) -> (r: Vec<Action>) {
        self.level = Level::Queues;
        self.attrs = None;
        self.messages = Vec::new();
        self.detail_panel = None;
        self.loading = true;
        self.state.select(Some(0));
        vec![Action::LoadQueues]
    }

    fn on_context(&mut self, context: &ViewContext) -> (r: Vec<Action>) {
        match context {
            ViewContext::Favorite { key } => {
                self.level = Level::Detail { queue_url: key.clone() };
                self.attrs = None;
                self.messages = Vec::new();
                self.detail_panel = None;
                self.loading = true;
                self.state.select(Some(0));
                vec![Action::LoadQueueDetail { queue_url: key.clone() }]
            },
            _ => self.on_activate(),
        }
    }

    fn on_key(&mut self, key: KeyEvent) -> (r: Vec<Action>) {
        if self.detail_panel.is_some() {
            let mut panel = self.detail_panel.take().unwrap();
            if key.code == KeyCode::Char('y') {
                let text = panel.content().to_string();
                self.detail_panel = Some(panel);
                return vec![Action::CopyToClipboard { text }];
            }
            let close = panel.on_key(key);
            if !close {
                self.detail_panel = Some(panel);
            }
            return nothing();
        }
        match key.code {
            KeyCode::Char('j') | KeyCode::Down => {
                let len: usize = self.visible_len();
                self.state.down(len);
                nothing()
            },
            KeyCode::Char('k') | KeyCode::Up => {
                let len: usize = self.visible_len();
                self.state.up(len);
                nothing()
            },
            KeyCode::Char('g') | KeyCode::Home => {
                let len: usize = self.visible_len();
                self.state.to_edge(len, false);
                nothing()
            },
            KeyCode::Char('G') | KeyCode::End => {
                let len: usize = self.visible_len();
                self.state.to_edge(len, true);
                nothing()
            },
            KeyCode::Enter => match self.level {
                Level::Detail { .. } => {
                    self.open_message();
                    nothing()
                },
                Level::Queues => self.drill(),
            },
            KeyCode::Esc => self.back(),
            KeyCode::Char('r') => self.refresh(),
            KeyCode::Char('p') => self.purge_intent(),
            KeyCode::Char('d') => self.redrive_intent(),
            KeyCode::Char('y') => match self.current_url() {
                Some(text) => vec![Action::CopyToClipboard { text }],
                None => nothing(),
            },
            KeyCode::Char('O') => match self.current_url() {
                Some(url) => vec![Action::OpenConsole { target: ConsoleTarget::SqsQueue { url } }],
                None => nothing(),
            },
            _ => nothing(),
        }
    }

    fn on_message(&mut self, message: &Message) {
        match message {
            Message::QueuesLoaded(queues) => {
                self.queues = queues.clone();
                assert(self.queues@ =~= queues@);
                let listed = match self.level {
                    Level::Queues => true,
                    Level::Detail { .. } => false,
                };
                if listed {
                    self.loading = false;
                    self.clamp_selection();
                }
            },
            Message::QueueDetailLoaded { queue_url, attrs, messages } => {
                if self.is_showing(queue_url) {
                    self.attrs = Some(attrs.clone());
                    self.messages = messages.clone();
                    assert(self.messages@ =~= messages@);
                    self.loading = false;
                    self.clamp_selection();
                }
            },
            Message::QueuePurged { queue_url } => {
                if self.is_showing(queue_url) {
                    self.messages = Vec::new();
                    self.loading = true;
                }
            },
            Message::DlqRedriveStarted { queue_url } => {
                if self.is_showing(queue_url) {
                    self.loading = true;
                }
            },
            Message::Error { .. } => {
                self.loading = false;
            },
            _ => {},
        }
    }

    fn set_filter(&mut self, filter: &str) {
        self.filter = filter.to_string();
        self.state.select(Some(0));
        self.clamp_selection();
    }

    fn search(&mut self, query: &str) -> (r: Vec<Action>) {
        nothing()
    }

    fn on_command(&mut self, cmd: &str) -> (r: Vec<Action>) {
        nothing()
    }

    fn on_tick(&mut self) -> (r: Vec<Action>) {
        nothing()
    }

    fn wants_raw_input(&self) -> (r: bool) {
        false
    }

    fn selected_favorite(&self) -> (r: Option<(String, String)>) {
        match self.level {
            Level::Queues => match list::pick(&self.queues, self.filter.as_str(), self.state.selected) {
                Some(q) => Some((q.url.clone(), q.name.clone())),
                None => None,
            },
            Level::Detail { .. } => None,
        }
    }

    fn hints(&self) -> (r: Vec<(&'static str, &'static str)>) {
        match &self.detail_panel {
            Some(p) => p.hints(),
            None => match self.level {
                Level::Queues => vec![("y", "copiar URL"), ("O", "consola")],
                Level::Detail { .. } => {
                    if self.on_dlq() {
                        vec![("enter", "ver mensaje"), ("p", "purgar"), ("d", "redrive")]
                    } else {
                        vec![("enter", "ver mensaje"), ("p", "purgar")]
                    }
                },
            },
        }
    }
}

impl SqsView {
    fn is_showing(&self, url: &String) -> (r: bool)
        ensures
            r == self.model().shows(url@),
    {
        match &self.level {
            Level::Detail { queue_url } => *queue_url == *url,
            Level::Queues => false,
        }
    }

    /// Attributes of the queue on screen as label and value, `None` while they are not known.
    pub fn attr_rows(&self) -> (r: Option<Vec<(&'static str, String)>>)
        ensures
            r.deep_view() == self.model().attr_rows(),
    {
        match &self.attrs {
            None => None,
            Some(a) => {
                let dlq = match &a.dlq_target_arn {
                    Some(arn) => {
                        let mut out = arn.clone();
                        out.append(" (maxReceiveCount ");
                        out.append(count_or_dash(a.max_receive_count).as_str());
                        out.append(")");
                        out
                    },
                    None => "—".to_string(),
                };
                let arn = match &a.arn {
                    Some(arn) => arn.clone(),
                    None => "—".to_string(),
                };
                Some(
                    vec![
                        ("visible", count_or_dash(a.visible)),
                        ("in-flight", count_or_dash(a.in_flight)),
                        ("delayed", count_or_dash(a.delayed)),
                        ("DLQ", dlq),
                        ("ARN", arn),
                    ],
                )
            },
        }
    }
}

/// A count, or a dash where it is not known.
pub open spec fn count_text(n: Option<i64>) -> Text {
    match n {
        Some(n) => text::int_text(n as int),
        None => "—"@,
    }
}

fn count_or_dash(n: Option<i64>) -> (r: String)
    ensures
        r@ == count_text(n),
{
    match n {
        Some(n) => text::signed_text(n),
        None => "—".to_string(),
    }
}

impl SqsModel {
    pub open spec fn attr_rows(self) -> Option<Seq<(Text, Text)>> {
        match self.attrs {
            None => None,
            Some(a) => Some(
                seq![
                    ("visible"@, count_text(a.visible)),
                    ("in-flight"@, count_text(a.in_flight)),
                    ("delayed"@, count_text(a.delayed)),
                    (
                        "DLQ"@,
                        match a.dlq_target_arn {
                            Some(arn) => arn@ + " (maxReceiveCount "@ + count_text(a.max_receive_count) + ")"@,
                            None => "—"@,
                        },
                    ),
                    (
                        "ARN"@,
                        match a.arn {
                            Some(arn) => arn@,
                            None => "—"@,
                        },
                    ),
                ],
            ),
        }
    }
}

/// The row of a message: a preview of its body, and when it was sent and how often received.
pub open spec fn message_texts(m: QueueMessageDto) -> (Text, Text) {
    (
        text::preview_of(m.body@, 60),
        (match m.sent_ts {
            Some(ts) => util::instant_text(ts as int),
            None => "—"@,
        }) + "  "@ + (match m.receive_count {
            Some(n) => "recv "@ + text::int_text(n as int),
            None => ""@,
        }),
    )
}

/// The row of a message: a preview of its body, and when it was sent and how often received.
pub fn message_row(m: &QueueMessageDto) -> (r: (String, String))
    ensures
        r.deep_view() == message_texts(*m),
{
    let mut when = match m.sent_ts {
        Some(ts) => fmt_epoch_millis(ts),
        None => "—".to_string(),
    };
    when.append("  ");
    match m.receive_count {
        Some(n) => {
            let mut count = "recv ".to_string();
            count.append(text::signed_text(n).as_str());
            when.append(count.as_str());
        },
        None => {
            when.append("");
        },
    }
    (text::preview(m.body.as_str(), 60), when)
}

// --- laws ------------------------------------------------------------------------------------

/// A result about another queue than the one on screen changes nothing.
pub proof fn law_other_queues_are_ignored(m: SqsModel, message: Message)
    requires
        match message {
            Message::QueueDetailLoaded { queue_url, .. } => !m.shows(queue_url@),
            Message::QueuePurged { queue_url } => !m.shows(queue_url@),
            Message::DlqRedriveStarted { queue_url } => !m.shows(queue_url@),
            _ => false,
        },
    ensures
        m.informed(message) == m,
{
}

/// From the detail of a queue `Esc` comes back to the list, and asks for nothing.
pub proof fn law_esc_leaves_the_detail(m: SqsModel, key: KeyEvent)
    requires
        m.level is Detail,
        m.panel is None,
        key.code == KeyCode::Esc,
    ensures
        m.keyed(key).0.level is Queues,
        m.keyed(key).0.queues == m.queues,
        m.keyed(key).1.len() == 0,
{
}

/// The view asks to purge or redrive no queue but the one whose detail is on screen, and to
/// redrive only where that is a dead-letter queue.
pub proof fn law_mutations_concern_the_queue_on_screen(m: SqsModel, key: KeyEvent, i: int)
    requires
        0 <= i < m.keyed(key).1.len(),
    ensures
        m.keyed(key).1[i] matches Action::PurgeQueue { queue_url } ==> m.shows(queue_url),
        m.keyed(key).1[i] matches Action::RedriveDlq { queue_url } ==> m.shows(queue_url) && m.on_dlq(),
{
}

/// The lists of a view that runs fit in memory.
pub open spec fn fits_in_memory(m: SqsModel) -> bool {
    m.queues.len() <= usize::MAX && m.messages.len() <= usize::MAX
}

/// Whatever happens to the view, its selection stays inside the list on screen, or on the first row
/// of a list that is still to come.  Only a purge of the queue on screen empties the list under a
/// selection that stays, until the messages are read again.
pub proof fn law_selection_stays_inside(
    m: SqsModel,
    key: KeyEvent,
    message: Message,
    context: ViewContext<Text>,
    line: Text,
)
    requires
        fits_in_memory(m),
        list::inside(m.selected, m.visible()),
        message matches Message::QueuePurged { queue_url } ==> !m.shows(queue_url@),
    ensures
        ({
            let n = SqsView::activated(m).0;
            list::inside(n.selected, n.visible())
        }),
        ({
            let n = SqsView::opened(m, context).0;
            list::inside(n.selected, n.visible())
        }),
        ({
            let n = SqsView::keyed(m, key).0;
            list::inside(n.selected, n.visible())
        }),
        ({
            let n = SqsView::informed(m, message);
            list::inside(n.selected, n.visible())
        }),
        ({
            let n = SqsView::narrowed(m, line);
            list::inside(n.selected, n.visible())
        }),
        ({
            let n = SqsView::searched(m, line).0;
            list::inside(n.selected, n.visible())
        }),
        ({
            let n = SqsView::commanded(m, line).0;
            list::inside(n.selected, n.visible())
        }),
        ({
            let n = SqsView::ticked(m).0;
            list::inside(n.selected, n.visible())
        }),
{
    list::lemma_shown_count(m.queues, m.filter);
    list::lemma_shown_count(m.messages, m.filter);
    list::lemma_shown_count(m.queues, line);
    list::lemma_shown_count(m.messages, line);
    match message {
        Message::QueuesLoaded(queues) => {
            assert(queues@.len() == queues.len());
            list::lemma_shown_count(queues@, m.filter);
        },
        Message::QueueDetailLoaded { messages, .. } => {
            assert(messages@.len() == messages.len());
            list::lemma_shown_count(messages@, m.filter);
        },
        _ => {},
    }
}

// --- what the keys are for ---------------------------------------------------------------------

/// `Enter` on a queue shows its detail; on a message, its body in full.
pub proof fn law_enter_goes_into_what_is_selected(m: SqsModel, key: KeyEvent)
    requires
        m.panel is None,
        key.code == KeyCode::Enter,
    ensures
        m.level is Queues ==> forall|q: QueueDto| #[trigger]
            list::is_selected(m.queues, m.filter, m.selected, q) ==> ({
                let (n, actions) = SqsView::keyed(m, key);
                n.level == (Level::Detail { queue_url: q.url@ }) && n.attrs is None && n.messages.len() == 0
                    && actions == seq![ActionText::LoadQueueDetail { queue_url: q.url@ }]
            }),
        m.level is Detail ==> forall|x: QueueMessageDto| #[trigger]
            list::is_selected(m.messages, m.filter, m.selected, x) ==> ({
                let (n, actions) = SqsView::keyed(m, key);
                n.level == m.level && actions.len() == 0 && (n.panel matches Some(p) && p.raw == x.body@
                    && text::has_suffix(p.title, x.id@))
            }),
{
    assert forall|x: QueueMessageDto| #[trigger] list::is_selected(m.messages, m.filter, m.selected, x) implies text::has_suffix(
        "msg "@ + x.id@,
        x.id@,
    ) by {
        let title = "msg "@ + x.id@;
        assert(title.skip(title.len() - x.id@.len()) =~= x.id@);
    }
}

/// On the detail of a queue `p` asks to purge that queue, and `d` to redrive it where other queues
/// send their dead letters to it; on the list neither asks for anything.
pub proof fn law_keys_ask_for_what_they_name(m: SqsModel, key: KeyEvent, queue_url: Text)
    requires
        m.panel is None,
    ensures
        m.level == (Level::Detail { queue_url }) && key.code == KeyCode::Char('p') ==> SqsView::keyed(m, key) == (
            m,
            seq![ActionText::PurgeQueue { queue_url }],
        ),
        m.level == (Level::Detail { queue_url }) && key.code == KeyCode::Char('d') ==> SqsView::keyed(m, key) == (
            m,
            if m.attrs is Some && m.attrs->0.dlq_sources.len() > 0 {
                seq![ActionText::RedriveDlq { queue_url }]
            } else {
                seq![]
            },
        ),
        m.level is Queues && (key.code == KeyCode::Char('p') || key.code == KeyCode::Char('d')) ==> SqsView::keyed(
            m,
            key,
        ) == (m, Seq::<ActionText>::empty()),
{
}

/// `r` asks again for what is on screen.
pub proof fn law_r_asks_again(m: SqsModel, key: KeyEvent)
    requires
        m.panel is None,
        key.code == KeyCode::Char('r'),
    ensures
        SqsView::keyed(m, key) == (
            SqsModel { loading: true, ..m },
            seq![
                match m.level {
                    Level::Queues => ActionText::LoadQueues,
                    Level::Detail { queue_url } => ActionText::LoadQueueDetail { queue_url },
                },
            ],
        ),
{
}

/// `y` copies the address of the selected queue or of the one on screen, `O` opens it in the web
/// console.
pub proof fn law_keys_name_what_is_selected(m: SqsModel, key: KeyEvent)
    requires
        m.panel is None,
    ensures
        m.level is Queues ==> forall|q: QueueDto| #[trigger]
            list::is_selected(m.queues, m.filter, m.selected, q) ==> (key.code == KeyCode::Char('y') ==> SqsView::keyed(
                m,
                key,
            ).1 == seq![ActionText::CopyToClipboard { text: q.url@ }]) && (key.code == KeyCode::Char('O')
                ==> SqsView::keyed(m, key).1 == seq![
                ActionText::OpenConsole { target: ConsoleTarget::SqsQueue { url: q.url@ } },
            ]) && (SqsView::favorite(m) matches Some((favorite, label)) && favorite == q.url@ && label == q.name@),
        m.level matches Level::Detail { queue_url } ==> (key.code == KeyCode::Char('y') ==> SqsView::keyed(m, key).1
            == seq![ActionText::CopyToClipboard { text: queue_url }]) && (key.code == KeyCode::Char('O')
            ==> SqsView::keyed(m, key).1 == seq![
            ActionText::OpenConsole { target: ConsoleTarget::SqsQueue { url: queue_url } },
        ]),
{
}

/// Answers about what is on screen are shown, and loading ends; a purge empties the list of
/// messages and waits for a new look, and so does a redrive.
pub proof fn law_answers_are_shown(m: SqsModel, message: Message)
    ensures
        match message {
            Message::QueuesLoaded(queues) => ({
                let n = SqsView::informed(m, message);
                n.queues == queues@ && n.level == m.level && (m.level is Queues ==> !n.loading)
            }),
            Message::QueueDetailLoaded { queue_url, attrs, messages } => m.level == (Level::Detail {
                queue_url: queue_url@,
            }) ==> ({
                let n = SqsView::informed(m, message);
                n.attrs == Some(attrs@) && n.messages == messages@ && !n.loading && n.level == m.level
            }),
            Message::QueuePurged { queue_url } => m.level == (Level::Detail { queue_url: queue_url@ }) ==> ({
                let n = SqsView::informed(m, message);
                n.messages.len() == 0 && n.loading && n.level == m.level
            }),
            Message::DlqRedriveStarted { queue_url } => m.level == (Level::Detail { queue_url: queue_url@ }) ==> ({
                let n = SqsView::informed(m, message);
                n.messages == m.messages && n.loading && n.level == m.level
            }),
            Message::Error { .. } => !SqsView::informed(m, message).loading,
            _ => SqsView::informed(m, message) == m,
        },
{
}

/// The view opens with the list of queues; a favourite opens the detail of its queue.
pub proof fn law_favorites_open_what_they_name(m: SqsModel, queue_url: Text)
    ensures
        ({
            let (n, actions) = SqsView::activated(m);
            n.level is Queues && actions == seq![ActionText::LoadQueues]
        }),
        ({
            let (n, actions) = SqsView::opened(m, ViewContext::Favorite { key: queue_url });
            n.level == (Level::Detail { queue_url }) && actions == seq![ActionText::LoadQueueDetail { queue_url }]
        }),
{
}

/// The attributes of a queue are shown each under its own label: what is visible, in flight and
/// delayed, where its dead letters go, and its ARN.
pub proof fn law_attributes_are_shown_under_their_labels(m: SqsModel, a: QueueAttrsDto<String, Seq<String>>)
    requires
        m.attrs == Some(a),
    ensures
        m.attr_rows() matches Some(rows) && {
            &&& rows.len() == 5
            &&& a.visible matches Some(n) ==> rows.contains(("visible"@, text::int_text(n as int)))
            &&& a.in_flight matches Some(n) ==> rows.contains(("in-flight"@, text::int_text(n as int)))
            &&& a.delayed matches Some(n) ==> rows.contains(("delayed"@, text::int_text(n as int)))
            &&& a.arn matches Some(arn) ==> rows.contains(("ARN"@, arn@))
            &&& rows[3].0 == "DLQ"@
            &&& a.dlq_target_arn matches Some(arn) ==> text::has_prefix(rows[3].1, arn@)
        },
{
    let rows = m.attr_rows()->0;
    assert(rows[0].0 == "visible"@ && rows[1].0 == "in-flight"@ && rows[2].0 == "delayed"@ && rows[4].0 == "ARN"@);
    if let Some(n) = a.visible {
        assert(rows[0] == ("visible"@, text::int_text(n as int)));
    }
    if let Some(n) = a.in_flight {
        assert(rows[1] == ("in-flight"@, text::int_text(n as int)));
    }
    if let Some(n) = a.delayed {
        assert(rows[2] == ("delayed"@, text::int_text(n as int)));
    }
    if let Some(arn) = a.arn {
        assert(rows[4] == ("ARN"@, arn@));
    }
    if let Some(arn) = a.dlq_target_arn {
        assert(rows[3].1.take(arn@.len() as int) =~= arn@);
    }
}

/// A message is shown by the start of its body on one line, when it was sent, and how often it was
/// received.
pub proof fn law_messages_are_shown(x: QueueMessageDto)
    ensures
        message_texts(x).0 == text::preview_of(x.body@, 60),
        x.sent_ts matches Some(ts) ==> text::has_prefix(message_texts(x).1, util::instant_text(ts as int)),
        x.receive_count matches Some(n) ==> text::has_suffix(message_texts(x).1, "recv "@ + text::int_text(n as int)),
{
    let shown = message_texts(x).1;
    if let Some(ts) = x.sent_ts {
        let when = util::instant_text(ts as int);
        assert(shown.take(when.len() as int) =~= when);
    }
    if let Some(n) = x.receive_count {
        let count = "recv "@ + text::int_text(n as int);
        assert(shown.skip(shown.len() - count.len()) =~= count);
    }
}

/// `j` and `k` move to the neighbouring row of what the filter shows, `g` and `G` to its ends.
pub proof fn law_keys_move_the_selection(m: SqsModel, key: KeyEvent, row: usize)
    requires
        m.panel is None,
        m.selected == Some(row),
    ensures
        ({
            let n = SqsView::keyed(m, key).0;
            let len = match m.level {
                Level::Queues => list::shown(m.queues, m.filter).len(),
                Level::Detail { .. } => list::shown(m.messages, m.filter).len(),
            };
            &&& row + 1 < len <= usize::MAX && (key.code == KeyCode::Char('j') || key.code == KeyCode::Down) ==> n.selected
                == Some((row + 1) as usize)
            &&& 0 < row < len <= usize::MAX && (key.code == KeyCode::Char('k') || key.code == KeyCode::Up) ==> n.selected
                == Some((row - 1) as usize)
            &&& 0 < len <= usize::MAX && (key.code == KeyCode::Char('g') || key.code == KeyCode::Home) ==> n.selected
                == Some(0usize)
            &&& 0 < len <= usize::MAX && (key.code == KeyCode::Char('G') || key.code == KeyCode::End) ==> n.selected
                == Some((len - 1) as usize)
        }),
{
}

/// A filter narrows the list on screen and selects the first row that is left; it loads nothing and
/// changes nothing else.
pub proof fn law_filters_narrow_the_list(m: SqsModel, filter: Text)
    ensures
        SqsView::narrowed(m, filter).filter == filter,
        SqsView::narrowed(m, filter) == (SqsModel { filter, selected: SqsView::narrowed(m, filter).selected, ..m }),
        ({
            let len = match m.level {
                Level::Queues => list::shown(m.queues, filter).len(),
                Level::Detail { .. } => list::shown(m.messages, filter).len(),
            };
            0 < len <= usize::MAX ==> SqsView::narrowed(m, filter).selected == Some(0usize)
        }),
{
}

/// Over a list, the panel takes the keys: `y` copies its text, `Esc` and `Enter` close it, `j` and `k`
/// scroll it, and nothing is asked for.
pub proof fn law_the_panel_takes_the_keys(m: SqsModel, key: KeyEvent, p: DetailPanel<Text>)
    requires
        m.panel == Some(p),
    ensures
        ({
            let (n, actions) = SqsView::keyed(m, key);
            &&& key.code == KeyCode::Char('y') ==> n == m && actions == seq![ActionText::CopyToClipboard { text: p.raw }]
            &&& key.code == KeyCode::Esc || key.code == KeyCode::Enter ==> n == (SqsModel { panel: None, ..m })
                && actions.len() == 0
            &&& key.code != KeyCode::Char('y') && key.code != KeyCode::Esc && key.code != KeyCode::Enter ==> actions.len()
                == 0 && n == (SqsModel { panel: n.panel, ..m }) && (n.panel matches Some(q) && q.raw == p.raw && q.title
                == p.title)
            &&& key.code == KeyCode::Char('j') && p.scroll < u16::MAX ==> (n.panel matches Some(q) && q.scroll == p.scroll
                + 1)
            &&& key.code == KeyCode::Char('k') && p.scroll > 0 ==> (n.panel matches Some(q) && q.scroll == p.scroll - 1)
        }),
{
}

/// The title names the queue on screen.
pub proof fn law_titles_name_the_place(m: SqsModel, head: Text, name: Text)
    requires
        !name.contains('/'),
    ensures
        m.level is Queues ==> SqsView::title_text(m) == SqsView::id_text(m),
        m.level == (Level::Detail { queue_url: head + seq!['/'] + name }) ==> text::has_suffix(
            SqsView::title_text(m),
            name,
        ),
{
    text::law_the_last_part_follows_the_last_separator(head, '/', name);
    let t = "sqs / "@ + name;
    assert(t.skip(t.len() - name.len()) =~= name);
}

/// The keys that move the selection change nothing else and ask for nothing; keys that mean nothing
/// here change nothing at all.
pub proof fn law_moving_changes_nothing_else(m: SqsModel, key: KeyEvent)
    requires
        m.panel is None,
    ensures
        ({
            let (n, actions) = SqsView::keyed(m, key);
            &&& key.code == KeyCode::Char('j') || key.code == KeyCode::Char('k') || key.code == KeyCode::Char('g')
                || key.code == KeyCode::Char('G') || key.code == KeyCode::Down || key.code == KeyCode::Up || key.code
                == KeyCode::Home || key.code == KeyCode::End ==> n == (SqsModel { selected: n.selected, ..m }) && actions.len()
                == 0
            &&& key.code == KeyCode::Tab || key.code == KeyCode::Left || key.code == KeyCode::Right || key.code
                == KeyCode::Backspace || key.code == KeyCode::Other ==> n == m && actions.len() == 0
        }),
{
}

/// What goes to another level by `Enter` starts on its first row and loads; the lists above it and
/// the filter stay.
pub proof fn law_going_in_keeps_what_is_above(m: SqsModel, key: KeyEvent)
    requires
        m.panel is None,
        key.code == KeyCode::Enter,
    ensures
        ({
            let n = SqsView::keyed(m, key).0;
            &&& n.level != m.level ==> n.loading && n.selected == Some(0usize) && n.panel is None
            &&& n.filter == m.filter
            &&& n.queues == m.queues
            &&& n.level == m.level ==> n == (SqsModel { panel: n.panel, ..m })
        }),
{
}

/// A failure ends the loading and leaves what is shown; so does an answer about something else.
pub proof fn law_failures_leave_what_is_shown(m: SqsModel, message: Message)
    ensures
        message is Error ==> SqsView::informed(m, message) == (SqsModel { loading: false, ..m }),
        message is StateMachinesLoaded ==> SqsView::informed(m, message) == m,
{
}

/// A view that is activated starts at its root, on the first row, and loads what is there.
pub proof fn law_activation_starts_at_the_root(m: SqsModel)
    ensures
        ({
            let (n, actions) = SqsView::activated(m);
            &&& n.level is Queues
            &&& n.loading
            &&& n.selected == Some(0usize)
            &&& n.filter == m.filter
            &&& n.queues == m.queues
            &&& actions == seq![ActionText::LoadQueues]
            &&& n.attrs is None && n.messages.len() == 0 && n.panel is None
        }),
{
}

/// The hints announce the keys that do something where one is; redriving only where a dead-letter
/// queue is on screen.
pub proof fn law_hints_announce_what_keys_do(m: SqsModel)
    ensures
        ({
            let h = SqsView::hint_texts(m);
            &&& m.panel is Some ==> h == seq![("j/k"@, "scroll"@), ("y"@, "copiar"@), ("esc"@, "cerrar"@)]
            &&& m.panel is None && m.level is Queues ==> h == seq![("y"@, "copiar URL"@), ("O"@, "consola"@)]
            &&& m.panel is None && m.level is Detail ==> h[0] == ("enter"@, "ver mensaje"@) && h[1] == ("p"@, "purgar"@)
            &&& m.panel is None && m.level is Detail && m.on_dlq() ==> h.len() == 3 && h[2] == ("d"@, "redrive"@)
            &&& m.panel is None && m.level is Detail && !m.on_dlq() ==> h.len() == 2
        }),
{
}

/// The captions count the queues and the messages that are shown: all of them without a filter, and
/// how many of how many under one, which is named.
pub proof fn law_captions_count_what_is_shown(m: SqsModel)
    ensures
        m.filter.len() == 0 ==> m.queues_title() == " "@ + text::decimal(m.queues.len()) + " colas "@,
        m.filter.len() > 0 ==> m.queues_title() == " "@ + text::decimal(list::shown(m.queues, m.filter).len()) + "/"@
            + text::decimal(m.queues.len()) + " colas · filtro: "@ + m.filter + " "@,
        m.filter.len() == 0 ==> m.messages_title() == " peek · "@ + text::decimal(m.messages.len())
            + " msgs · best-effort (receive_count++) "@,
        m.filter.len() > 0 ==> m.messages_title() == " peek · "@ + text::decimal(
            list::shown(m.messages, m.filter).len(),
        ) + "/"@ + text::decimal(m.messages.len()) + " · filtro: "@ + m.filter + " "@,
{
}

/// `Enter` on a message shows its body under its id; the row of the dead-letter queue tells after how
/// many receptions a message goes there.
pub proof fn law_enter_shows_the_message(
    m: SqsModel,
    key: KeyEvent,
    x: QueueMessageDto,
    a: QueueAttrsDto<String, Seq<String>>,
)
    ensures
        m.panel is None && m.level is Detail && m.message() == Some(x) && key.code == KeyCode::Enter ==> SqsView::keyed(
            m,
            key,
        ) == (
            SqsModel { panel: Some(DetailPanel { title: "msg "@ + x.id@, raw: x.body@, scroll: 0 }), ..m },
            Seq::<ActionText>::empty(),
        ),
        m.attrs == Some(a) ==> (a.dlq_target_arn matches Some(arn) ==> (a.max_receive_count matches Some(n)
            ==> m.attr_rows()->0[3] == ("DLQ"@, arn@ + " (maxReceiveCount "@ + text::int_text(n as int) + ")"@))),
        m.attrs == Some(a) && a.dlq_target_arn is None ==> m.attr_rows()->0[3] == ("DLQ"@, "—"@),
{
}

/// `Esc` goes to the list of queues, from its first row and with nothing loading; asking again leaves
/// what is shown; going into a queue forgets what was known of the one before.
pub proof fn law_keys_change_what_they_are_about(m: SqsModel, key: KeyEvent)
    requires
        m.panel is None,
    ensures
        ({
            let (n, actions) = SqsView::keyed(m, key);
            &&& key.code == KeyCode::Esc && m.level is Detail ==> n == (SqsModel {
                level: Level::Queues,
                loading: false,
                selected: n.selected,
                ..m
            }) && actions.len() == 0
            &&& key.code == KeyCode::Esc && m.level is Detail && 0 < list::shown(m.queues, m.filter).len() <= usize::MAX
                ==> n.selected == Some(0usize)
            &&& key.code == KeyCode::Char('r') ==> n == (SqsModel { loading: true, ..m })
            &&& key.code == KeyCode::Enter && n.level != m.level ==> n == (SqsModel {
                level: n.level,
                attrs: None,
                messages: Seq::empty(),
                loading: true,
                selected: Some(0usize),
                ..m
            })
            &&& key.code == KeyCode::Char('p') || key.code == KeyCode::Char('d') || key.code == KeyCode::Char('y') || key.code
                == KeyCode::Char('O') ==> n == m
        }),
{
}

/// Only a queue that others send their failures to can be redriven.
pub proof fn law_only_dead_letter_queues_are_redriven(
    m: SqsModel,
    key: KeyEvent,
    queue_url: Text,
    a: QueueAttrsDto<String, Seq<String>>,
)
    requires
        m.panel is None,
        m.level == (Level::Detail { queue_url }),
        m.attrs == Some(a),
        key.code == KeyCode::Char('d'),
    ensures
        a.dlq_sources.len() > 0 ==> SqsView::keyed(m, key).1 == seq![ActionText::RedriveDlq { queue_url }],
        a.dlq_sources.len() == 0 ==> SqsView::keyed(m, key).1.len() == 0,
{
}

/// An answer changes what it is about and nothing else, and the selected row stays where it is still
/// there.
pub proof fn law_answers_change_what_they_are_about(m: SqsModel, message: Message, row: usize)
    requires
        m.selected == Some(row),
    ensures
        ({
            let n = SqsView::informed(m, message);
            match message {
                Message::QueuesLoaded(queues) => {
                    &&& n == (SqsModel { queues: queues@, loading: n.loading, selected: n.selected, ..m })
                    &&& !(m.level is Queues) ==> n.loading == m.loading && n.selected == m.selected
                    &&& m.level is Queues && row < list::shown(queues@, m.filter).len() ==> n.selected == m.selected
                },
                Message::QueueDetailLoaded { attrs, messages, .. } => {
                    ||| n == m
                    ||| {
                        &&& n == (SqsModel {
                            attrs: Some(attrs@),
                            messages: messages@,
                            loading: false,
                            selected: n.selected,
                            ..m
                        })
                        &&& row < list::shown(messages@, m.filter).len() ==> n.selected == m.selected
                    }
                },
                Message::QueuePurged { queue_url } => if m.level == (Level::Detail { queue_url: queue_url@ }) {
                    n == (SqsModel { messages: Seq::empty(), loading: true, ..m })
                } else {
                    n == m
                },
                Message::DlqRedriveStarted { queue_url } => if m.level == (Level::Detail { queue_url: queue_url@ }) {
                    n == (SqsModel { loading: true, ..m })
                } else {
                    n == m
                },
                _ => n == (SqsModel { loading: n.loading, ..m }),
            }
        }),
{
}

/// Only a queue that is selected in the list can be marked; the view is at its root on that list with
/// nothing over it.
pub proof fn law_queues_are_marked_in_the_list(m: SqsModel)
    ensures
        m.level is Detail || m.selected is None ==> SqsView::favorite(m) is None,
        SqsView::at_root(m) <==> m.level is Queues && m.panel is None,
        !SqsView::takes_raw_input(m),
{
}

} // verus!
