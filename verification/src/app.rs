//! The application: what every key, reply and tick does to it, and what may leave it.
//!
//! It knows the views only through their contract and looks into no request that concerns AWS.
//! What it cannot do itself goes to an outbox, as commands for the program around it.

use tui_input::Input;
use vstd::prelude::*;

use crate::action;
use crate::action::{is_mutating, Action, ActionText, ViewContext};
use crate::aws::context::{Env, ProfileEntry};
use crate::config;
use crate::config::{Favorite, FavoriteText, State, StateModel};
use crate::key::{KeyCode, KeyEvent};
use crate::list;
use crate::list::ListState;
use crate::message::{Envelope, ErrorKind, Message, Text};
use crate::settings;
use crate::text;
use crate::ui::command_bar::{Footer, FooterText};
use crate::ui::input;
use crate::ui::input::{handle_key, Line};
use crate::util;
use crate::util::fmt_epoch_millis;
use crate::views;
use crate::views::registry;
use crate::views::{DeckView, Registry};

verus! {

/// Milliseconds without typing after which the server is asked for what the filter says.
pub const SEARCH_DELAY: u64 = 280;

/// Where keys go.
#[derive(Clone, Copy, Debug, PartialEq, Eq, Structural)]
pub enum Mode {
    Normal,
    Command,
    Filter,
}

/// What is on screen: the menu, or the active view.
#[derive(Clone, Copy, Debug, PartialEq, Eq, Structural)]
pub enum Screen {
    Menu,
    View,
}

/// A line for the user; an error stays until it is dismissed or overcome.
#[derive(Debug)]
pub struct StatusLine<S = String> {
    pub error: bool,
    pub text: S,
}

impl DeepView for StatusLine<String> {
    type V = StatusLine<Text>;

    open spec fn deep_view(&self) -> StatusLine<Text> {
        StatusLine { error: self.error, text: self.text@ }
    }
}

/// A mutating action that waits for the user's consent.
#[derive(Debug)]
pub struct Confirm<S = String, L = Vec<String>> {
    pub title: S,
    pub body: S,
    pub action: Action<S, L>,
}

pub type ConfirmText = Confirm<Text, Seq<Text>>;

impl DeepView for Confirm<String, Vec<String>> {
    type V = ConfirmText;

    open spec fn deep_view(&self) -> ConfirmText {
        Confirm { title: self.title@, body: self.body@, action: self.action.deep_view() }
    }
}

/// Something for the program around the application to do.
#[derive(Debug)]
pub enum Command<S = String, L = Vec<String>> {
    /// Carry out a request, and answer with this epoch.
    Effect { action: Action<S, L>, epoch: u64 },
    /// Send requests to this environment from now on.
    UseEnv(Env<S>),
    /// Put a text on the clipboard, and report how it went.
    Copy { text: S },
    /// Read the profiles, and open the picker with them.
    ListProfiles,
    /// Wait for the search delay, unless another wait starts meanwhile, and search then.
    ScheduleSearch,
    /// Write the state down.
    SaveState,
    /// Set a default in the configuration.
    SetDefault { key: S, value: S },
}

pub type CommandText = Command<Text, Seq<Text>>;

impl DeepView for Command<String, Vec<String>> {
    type V = CommandText;

    open spec fn deep_view(&self) -> CommandText {
        match self {
            Command::Effect { action, epoch } => CommandText::Effect { action: action.deep_view(), epoch: *epoch },
            Command::UseEnv(env) => CommandText::UseEnv(env.deep_view()),
            Command::Copy { text } => CommandText::Copy { text: text@ },
            Command::ListProfiles => CommandText::ListProfiles,
            Command::ScheduleSearch => CommandText::ScheduleSearch,
            Command::SaveState => CommandText::SaveState,
            Command::SetDefault { key, value } => CommandText::SetDefault { key: key@, value: value@ },
        }
    }
}

/// A row of the menu.
#[derive(Debug)]
pub enum MenuRow<S = String> {
    Tool { id: S, description: S },
    Remembered(Favorite<S>),
}

impl DeepView for MenuRow<String> {
    type V = MenuRow<Text>;

    open spec fn deep_view(&self) -> MenuRow<Text> {
        match self {
            MenuRow::Tool { id, description } => MenuRow::Tool { id: id@, description: description@ },
            MenuRow::Remembered(f) => MenuRow::Remembered(f.deep_view()),
        }
    }
}

// --- choosing an environment -----------------------------------------------------------------

/// The choice among the profiles.
pub struct Picker {
    pub profiles: Vec<ProfileEntry>,
    pub state: ListState,
}

#[verifier::ext_equal]
pub struct PickerModel {
    pub profiles: Seq<ProfileEntry<Text>>,
    pub selected: Option<usize>,
}

/// Position, from `i` on, of a profile by its name, `profiles.len()` where there is none.
pub open spec fn profile_from(profiles: Seq<ProfileEntry<Text>>, name: Text, i: int) -> int
    decreases profiles.len() - i,
{
    if i < 0 || i >= profiles.len() {
        profiles.len() as int
    } else if profiles[i].name == name {
        i
    } else {
        profile_from(profiles, name, i + 1)
    }
}

impl PickerModel {
    /// The first profile is selected.
    pub open spec fn fresh(profiles: Seq<ProfileEntry<Text>>) -> PickerModel {
        PickerModel { profiles, selected: if profiles.len() == 0 { None } else { Some(0usize) } }
    }

    pub open spec fn moved(self, delta: int) -> PickerModel {
        if self.profiles.len() == 0 {
            self
        } else {
            PickerModel { selected: list::moved(self.selected, self.profiles.len(), delta), ..self }
        }
    }

    /// The profile with this name is selected, where there is one.
    pub open spec fn preselected(self, name: Text) -> PickerModel {
        let at = profile_from(self.profiles, name, 0);
        if at < self.profiles.len() {
            PickerModel { selected: Some(at as usize), ..self }
        } else {
            self
        }
    }

    /// The environment of the selected profile, in the current region where it names none.
    pub open spec fn env(self, current: Env<Text>) -> Option<Env<Text>> {
        match self.selected {
            Some(i) => if i < self.profiles.len() {
                let profile = self.profiles[i as int];
                Some(
                    Env {
                        profile: profile.name,
                        region: match profile.region {
                            Some(r) => r,
                            None => current.region,
                        },
                    },
                )
            } else {
                None
            },
            None => None,
        }
    }
}

impl Picker {
    pub open spec fn model(self) -> PickerModel {
        PickerModel { profiles: self.profiles.deep_view(), selected: self.state.selected }
    }

    pub fn new(profiles: Vec<ProfileEntry>) -> (r: Self)
        ensures
            r.model() == PickerModel::fresh(profiles.deep_view()),
    {
        let selected = if profiles.len() == 0 { None } else { Some(0) };
        Picker { profiles, state: ListState::new(selected) }
    }

    pub fn move_selection(&mut self, delta: i32)
        ensures
            final(self).model() == old(self).model().moved(delta as int),
    {
        let len: usize = self.profiles.len();
        if len == 0 {
            return;
        }
        let cur: usize = match self.state.selected() {
            Some(i) => i,
            None => 0,
        };
        let to: i128 = cur as i128 + delta as i128;
        let next: usize = if to < 0 {
            0
        } else if to > (len - 1) as i128 {
            len - 1
        } else {
            to as usize
        };
        self.state.select(Some(next));
    }

    /// Selects the profile with this name, where there is one.
    pub fn preselect(&mut self, name: &str)
        ensures
            final(self).model() == old(self).model().preselected(name@),
    {
        let mut i: usize = 0;
        while i < self.profiles.len()
            invariant
                i <= self.profiles@.len(),
                self.model() == old(self).model(),
                profile_from(self.model().profiles, name@, i as int) == profile_from(self.model().profiles, name@, 0),
            decreases self.profiles@.len() - i,
        {
            proof {
                assert(self.profiles.deep_view()[i as int] == self.profiles@[i as int].deep_view());
            }
            if text::same(self.profiles[i].name.as_str(), name) {
                self.state.select(Some(i));
                return;
            }
            i = i + 1;
        }
    }

    /// The environment of the selected profile, in the current region where it names none.
    pub fn selected_env(&self, current: &Env) -> (r: Option<Env>)
        ensures
            r.deep_view() == self.model().env(current.deep_view()),
    {
        match self.state.selected() {
            Some(i) => {
                if i < self.profiles.len() {
                    proof {
                        assert(self.profiles.deep_view()[i as int] == self.profiles@[i as int].deep_view());
                    }
                    let profile = &self.profiles[i];
                    let region = match &profile.region {
                        Some(r) => r.clone(),
                        None => current.region.clone(),
                    };
                    Some(Env { profile: profile.name.clone(), region })
                } else {
                    None
                }
            },
            None => None,
        }
    }
}

// --- asking for consent ----------------------------------------------------------------------

/// What the user is asked before a mutating action; `None` for any other action.
pub open spec fn question(action: ActionText) -> Option<(Text, Text)> {
    match action {
        Action::PurgeQueue { queue_url } => Some(
            (
                " purgar cola — irreversible "@,
                "se borrarán TODOS los mensajes de:\n"@ + text::last_part_of(queue_url, '/'),
            ),
        ),
        Action::RedriveDlq { queue_url } => Some(
            (
                " redrive DLQ "@,
                "se reenviarán los mensajes a sus colas origen desde:\n"@ + text::last_part_of(queue_url, '/'),
            ),
        ),
        Action::RedriveExecution { execution_arn } => Some(
            (
                " redrive ejecución "@,
                "se relanzará desde el último estado fallido:\n"@ + text::last_part_of(execution_arn, ':'),
            ),
        ),
        Action::SendEvent { event_bus_name, time, resources, .. } => Some(
            (
                " enviar evento de prueba "@,
                "se publicará un evento de prueba en el bus:\n"@ + event_bus_name + (match time {
                    Some(ms) => "\ntime: "@ + util::instant_text(ms as int),
                    None => ""@,
                }) + (if resources.len() > 0 {
                    "\nresources: "@ + text::joined(resources, ", "@)
                } else {
                    ""@
                }),
            ),
        ),
        _ => None,
    }
}

/// Every mutating action has its question, and no other action has one.
pub proof fn law_mutations_are_asked_about(action: ActionText)
    ensures
        question(action) is Some <==> action::mutates(action),
{
}

fn ask(action: &Action) -> (r: Option<(String, String)>)
    ensures
        r.deep_view() == question(action.deep_view()),
{
    match action {
        Action::PurgeQueue { queue_url } => {
            let mut body = "se borrarán TODOS los mensajes de:\n".to_string();
            body.append(text::last_part(queue_url.as_str(), '/').as_str());
            Some((" purgar cola — irreversible ".to_string(), body))
        },
        Action::RedriveDlq { queue_url } => {
            let mut body = "se reenviarán los mensajes a sus colas origen desde:\n".to_string();
            body.append(text::last_part(queue_url.as_str(), '/').as_str());
            Some((" redrive DLQ ".to_string(), body))
        },
        Action::RedriveExecution { execution_arn } => {
            let mut body = "se relanzará desde el último estado fallido:\n".to_string();
            body.append(text::last_part(execution_arn.as_str(), ':').as_str());
            Some((" redrive ejecución ".to_string(), body))
        },
        Action::SendEvent { event_bus_name, time, resources, .. } => {
            let mut body = "se publicará un evento de prueba en el bus:\n".to_string();
            body.append(event_bus_name.as_str());
            match time {
                Some(ms) => {
                    let mut when = "\ntime: ".to_string();
                    when.append(fmt_epoch_millis(*ms).as_str());
                    body.append(when.as_str());
                },
                None => body.append(""),
            }
            if resources.len() > 0 {
                let mut names = "\nresources: ".to_string();
                names.append(text::join(resources, ", ").as_str());
                body.append(names.as_str());
            } else {
                body.append("");
            }
            Some((" enviar evento de prueba ".to_string(), body))
        },
        _ => None,
    }
}

// --- the state -------------------------------------------------------------------------------

pub struct App<V> {
    pub env: Env,
    /// Counts the changes of environment, so that late answers can be told apart.
    pub epoch: u64,
    pub registry: Registry<V>,
    pub screen: Screen,
    pub menu: ListState,
    pub mode: Mode,
    /// The line under edition, in the command and filter modes.
    pub input: Input,
    /// The filter of the active view.
    pub filter: String,
    pub status: Option<StatusLine>,
    /// Class of the error that is on screen.
    pub error_kind: Option<ErrorKind>,
    pub show_help: bool,
    pub picker: Option<Picker>,
    pub confirm: Option<Confirm>,
    /// Mutating actions are only let through while this is on.
    pub write_mode: bool,
    /// The picker of the start is still open.
    pub awaiting_startup_env: bool,
    /// Milliseconds to wait before the server is asked for what the filter says, while that is due.
    pub search_deadline: Option<u64>,
    pub should_quit: bool,
    /// The account of the environment, once it is confirmed.
    pub account: Option<String>,
    pub state: State,
    /// What the program around the application is still to do.
    pub outbox: Vec<Command>,
}

/// The state of the application, over the states of its views.
#[verifier::ext_equal]
pub struct AppModel<M> {
    pub env: Env<Text>,
    pub epoch: u64,
    pub views: Seq<M>,
    pub active: int,
    pub screen: Screen,
    pub menu: Option<usize>,
    pub mode: Mode,
    pub input: Line,
    pub filter: Text,
    pub status: Option<StatusLine<Text>>,
    pub error_kind: Option<ErrorKind>,
    pub show_help: bool,
    pub picker: Option<PickerModel>,
    pub confirm: Option<ConfirmText>,
    pub write_mode: bool,
    pub awaiting_startup_env: bool,
    pub search_deadline: Option<u64>,
    pub should_quit: bool,
    pub account: Option<Text>,
    pub state: StateModel,
    pub outbox: Seq<CommandText>,
}

/// The view of an optional picker.
pub open spec fn picker_view(p: Option<Picker>) -> Option<PickerModel> {
    match p {
        Some(p) => Some(p.model()),
        None => None,
    }
}

/// What an unknown command is answered.
pub open spec fn unknown_text(id: Text, ids: Seq<Text>) -> Text {
    "comando desconocido: "@ + id + " (disponibles: "@ + text::joined(ids, ", "@) + ")"@
}

impl<M> AppModel<M> {
    /// There is an active view.
    pub open spec fn has_view(self) -> bool {
        0 <= self.active < self.views.len()
    }

    /// An error is on screen.
    pub open spec fn erring(self) -> bool {
        self.status matches Some(s) && s.error
    }

    /// An error for the user.
    pub open spec fn failed(self, text: Text) -> AppModel<M> {
        AppModel {
            status: Some(StatusLine { error: true, text }),
            error_kind: Some(ErrorKind::Other),
            ..self
        }
    }

    /// News for the user.
    pub open spec fn told(self, text: Text) -> AppModel<M> {
        AppModel { status: Some(StatusLine { error: false, text }), error_kind: None, ..self }
    }

    /// The error on screen, if there is one, dismissed.
    pub open spec fn calmed(self) -> AppModel<M> {
        AppModel { status: if self.erring() { None } else { self.status }, error_kind: None, ..self }
    }

    pub open spec fn asked(self, command: CommandText) -> AppModel<M> {
        AppModel { outbox: self.outbox.push(command), ..self }
    }

    /// A request passed on.
    pub open spec fn sent(self, action: ActionText) -> AppModel<M> {
        self.asked(CommandText::Effect { action, epoch: self.epoch })
    }

    /// A mutating action held back: refused without the write mode, and put to the user with it.
    pub open spec fn gated(self, action: ActionText) -> AppModel<M> {
        if !self.write_mode {
            self.failed("acción mutante bloqueada: activa modo escritura con :write"@)
        } else {
            match question(action) {
                Some((title, body)) => AppModel { confirm: Some(Confirm { title, body, action }), ..self },
                None => self,
            }
        }
    }

    /// A request passed on, or held back where it is mutating.
    pub open spec fn emitted_one(self, action: ActionText) -> AppModel<M> {
        if action::mutates(action) {
            self.gated(action)
        } else {
            self.sent(action)
        }
    }

    pub open spec fn emitted(self, actions: Seq<ActionText>) -> AppModel<M>
        decreases actions.len(),
    {
        if actions.len() == 0 {
            self
        } else {
            self.emitted_one(actions[0]).emitted(actions.skip(1))
        }
    }

    /// What the menu remembers of the environment: its favourites, then its recent resources.
    pub open spec fn remembered(self) -> Seq<FavoriteText> {
        let all = self.state.favorites(self.env.profile, self.env.region);
        config::sorted_out(all, true) + config::sorted_out(all, false)
    }
}

impl<V: DeckView> App<V> {
    pub open spec fn wf(&self) -> bool {
        self.registry.wf()
    }

    pub open spec fn model(&self) -> AppModel<V::Model> {
        AppModel {
            env: self.env.deep_view(),
            epoch: self.epoch,
            views: self.registry.views_model(),
            active: self.registry.active as int,
            screen: self.screen,
            menu: self.menu.selected,
            mode: self.mode,
            input: input::line_of(self.input),
            filter: self.filter@,
            status: self.status.deep_view(),
            error_kind: self.error_kind,
            show_help: self.show_help,
            picker: picker_view(self.picker),
            confirm: self.confirm.deep_view(),
            write_mode: self.write_mode,
            awaiting_startup_env: self.awaiting_startup_env,
            search_deadline: self.search_deadline,
            should_quit: self.should_quit,
            account: self.account.deep_view(),
            state: self.state.model(),
            outbox: self.outbox.deep_view(),
        }
    }

    /// The active view taken one step further.
    pub open spec fn stepped(
        m: AppModel<V::Model>,
        step: spec_fn(V::Model) -> (V::Model, Seq<ActionText>),
    ) -> (AppModel<V::Model>, Seq<ActionText>) {
        let (views, actions) = registry::stepped(m.views, m.active, step);
        (AppModel { views, ..m }, actions)
    }

    /// The active view told of a filter.
    pub open spec fn narrowed(m: AppModel<V::Model>, filter: Text) -> AppModel<V::Model> {
        if m.has_view() {
            AppModel { views: m.views.update(m.active, V::narrowed(m.views[m.active], filter)), ..m }
        } else {
            m
        }
    }

    /// No filter.
    #[verifier::opaque]
    pub open spec fn unfiltered(m: AppModel<V::Model>) -> AppModel<V::Model> {
        Self::narrowed(AppModel { filter: Seq::empty(), input: m.input.cleared(), ..m }, ""@)
    }

    /// The server asked, by the active view, for what the filter says.
    #[verifier::opaque]
    pub open spec fn searched(m: AppModel<V::Model>) -> AppModel<V::Model> {
        let (n, actions) = Self::stepped(
            AppModel { search_deadline: None, ..m },
            |v: V::Model| V::searched(v, m.filter),
        );
        n.emitted(actions)
    }

    /// The filter forgotten, where there is one, and the server asked again.
    #[verifier::opaque]
    pub open spec fn filter_dropped(m: AppModel<V::Model>) -> AppModel<V::Model> {
        if m.filter.len() > 0 {
            Self::searched(Self::unfiltered(m))
        } else {
            m
        }
    }

    /// What a view asks for as it is activated.
    pub open spec fn settled(m: AppModel<V::Model>, actions: Seq<ActionText>) -> AppModel<V::Model>
        decreases actions.len(),
    {
        if actions.len() == 0 {
            m
        } else {
            Self::settled(
                if actions[0] is ClearFilter { Self::filter_dropped(m) } else { m.emitted_one(actions[0]) },
                actions.skip(1),
            )
        }
    }

    /// The active view activated.
    #[verifier::opaque]
    pub open spec fn reactivated(m: AppModel<V::Model>) -> AppModel<V::Model> {
        let (n, actions) = Self::stepped(m, |v: V::Model| V::activated(v));
        Self::settled(n, actions)
    }

    /// The view with an id made active and shown, without a filter; `None` where there is none.
    pub open spec fn turned_to(m: AppModel<V::Model>, id: Text) -> Option<AppModel<V::Model>> {
        let at = registry::view_from::<V>(m.views, id, 0);
        if at < m.views.len() {
            Some(Self::unfiltered(AppModel { active: at, screen: Screen::View, ..m }))
        } else {
            None
        }
    }

    #[verifier::opaque]
    pub open spec fn activated(m: AppModel<V::Model>, id: Text) -> AppModel<V::Model> {
        match Self::turned_to(m, id) {
            Some(n) => Self::reactivated(n),
            None => m.failed(unknown_text(id, registry::ids_of::<V>(m.views))),
        }
    }

    #[verifier::opaque]
    pub open spec fn activated_with(
        m: AppModel<V::Model>,
        id: Text,
        context: ViewContext<Text>,
    ) -> AppModel<V::Model> {
        match Self::turned_to(m, id) {
            Some(n) => {
                let (opened, actions) = Self::stepped(n, |v: V::Model| V::opened(v, context));
                Self::settled(opened, actions)
            },
            None => m.failed(unknown_text(id, registry::ids_of::<V>(m.views))),
        }
    }

    /// Back at the menu.
    #[verifier::opaque]
    pub open spec fn homed(m: AppModel<V::Model>) -> AppModel<V::Model> {
        Self::unfiltered(AppModel { screen: Screen::Menu, ..m })
    }

    /// The rows of the menu.
    pub open spec fn menu_rows_of(m: AppModel<V::Model>) -> Seq<MenuRow<Text>> {
        let metas = registry::metas_of::<V>(m.views);
        Seq::new(metas.len(), |i: int| MenuRow::Tool { id: metas[i].0, description: metas[i].1 }) + Seq::new(
            m.remembered().len(),
            |i: int| MenuRow::Remembered(m.remembered()[i]),
        )
    }

    /// The selection of the menu brought back inside it.
    #[verifier::opaque]
    pub open spec fn menu_clamped(m: AppModel<V::Model>) -> AppModel<V::Model> {
        AppModel { menu: list::clamped(m.menu, Self::menu_rows_of(m).len()), ..m }
    }

    /// Another environment: late answers of the old one no longer count, the write mode is off, the
    /// account has to be confirmed again, and the view on screen starts over.
    #[verifier::opaque]
    pub open spec fn switched(m: AppModel<V::Model>, env: Env<Text>) -> AppModel<V::Model> {
        let moved = AppModel {
            epoch: m.epoch.wrapping_add(1),
            env,
            write_mode: false,
            account: None,
            state: StateModel { last_profile: Some(env.profile), last_region: Some(env.region), ..m.state },
            ..m
        };
        let ready = Self::unfiltered(
            moved.asked(CommandText::UseEnv(env)).asked(CommandText::SaveState).sent(ActionText::VerifyIdentity),
        );
        let started = if m.screen == Screen::View { Self::reactivated(ready) } else { ready };
        Self::menu_clamped(started.told("ambiente: "@ + env.caption()))
    }

    /// A resource of the active view remembered as recent.
    #[verifier::opaque]
    pub open spec fn recorded(m: AppModel<V::Model>, key: Text, label: Text) -> AppModel<V::Model> {
        if m.has_view() {
            AppModel {
                state: m.state.recorded(m.env.profile, m.env.region, V::id_text(m.views[m.active]), key, label),
                ..m
            }.asked(CommandText::SaveState)
        } else {
            m
        }
    }

    pub open spec fn dispatched_one(m: AppModel<V::Model>, action: ActionText) -> AppModel<V::Model> {
        match action {
            Action::Quit => AppModel { should_quit: true, ..m },
            Action::ActivateView(id) => Self::activated(m, id),
            Action::ActivateViewWithContext { id, context } => Self::activated_with(m, id, context),
            Action::Back => Self::homed(m),
            Action::ClearFilter => Self::filter_dropped(m),
            Action::SwitchEnv(env) => Self::switched(m, env),
            Action::CopyToClipboard { text } => m.asked(CommandText::Copy { text }),
            Action::RecordRecent { key, label } => Self::recorded(m, key, label),
            _ => m.emitted_one(action),
        }
    }

    pub open spec fn dispatched(m: AppModel<V::Model>, actions: Seq<ActionText>) -> AppModel<V::Model>
        decreases actions.len(),
    {
        if actions.len() == 0 {
            m
        } else {
            Self::dispatched(Self::dispatched_one(m, actions[0]), actions.skip(1))
        }
    }

    /// A key for the active view, and what it asks for carried out.
    #[verifier::opaque]
    pub open spec fn view_keyed(m: AppModel<V::Model>, key: KeyEvent) -> AppModel<V::Model> {
        let (n, actions) = Self::stepped(m, |v: V::Model| V::keyed(v, key));
        Self::dispatched(n, actions)
    }

    #[verifier::opaque]
    pub open spec fn menu_opened(m: AppModel<V::Model>) -> AppModel<V::Model> {
        let rows = Self::menu_rows_of(m);
        match m.menu {
            Some(i) => if i < rows.len() {
                match rows[i as int] {
                    MenuRow::Tool { id, .. } => Self::activated(m, id),
                    MenuRow::Remembered(f) => Self::activated_with(
                        m,
                        f.view_id,
                        ViewContext::Favorite { key: f.key },
                    ),
                }
            } else {
                m
            },
            None => m,
        }
    }

    #[verifier::opaque]
    pub open spec fn menu_keyed(m: AppModel<V::Model>, key: KeyEvent) -> AppModel<V::Model> {
        let rows = Self::menu_rows_of(m).len();
        match key.code {
            KeyCode::Char('q') => AppModel { should_quit: true, ..m },
            KeyCode::Char(':') => AppModel { mode: Mode::Command, input: m.input.cleared(), ..m },
            KeyCode::Char('?') => AppModel { show_help: true, ..m },
            KeyCode::Char('e') => if key.modifiers.has_control() { m.asked(CommandText::ListProfiles) } else { m },
            KeyCode::Char('j') | KeyCode::Down => if rows == 0 { m } else {
                AppModel { menu: list::moved(m.menu, rows, 1), ..m }
            },
            KeyCode::Char('k') | KeyCode::Up => if rows == 0 { m } else {
                AppModel { menu: list::moved(m.menu, rows, -1), ..m }
            },
            KeyCode::Char('g') | KeyCode::Home => if rows == 0 { m } else {
                AppModel { menu: list::edge(rows, false), ..m }
            },
            KeyCode::Char('G') | KeyCode::End => if rows == 0 { m } else {
                AppModel { menu: list::edge(rows, true), ..m }
            },
            KeyCode::Enter => Self::menu_opened(m),
            KeyCode::Esc => if m.erring() { m.calmed() } else { m },
            _ => m,
        }
    }

    /// The mark of the selected resource switched.
    #[verifier::opaque]
    pub open spec fn starred(m: AppModel<V::Model>) -> AppModel<V::Model> {
        if m.has_view() {
            match V::favorite(m.views[m.active]) {
                Some((key, label)) => {
                    let id = V::id_text(m.views[m.active]);
                    let was = config::is_marked(m.state.favorites(m.env.profile, m.env.region), id, key);
                    AppModel { state: m.state.toggled(m.env.profile, m.env.region, id, key, label), ..m }.asked(
                        CommandText::SaveState,
                    ).told((if was { "favorito quitado: "@ } else { "★ favorito: "@ }) + label)
                },
                None => m,
            }
        } else {
            m
        }
    }

    #[verifier::opaque]
    pub open spec fn normal_keyed(m: AppModel<V::Model>, key: KeyEvent) -> AppModel<V::Model> {
        match key.code {
            KeyCode::Char('q') => AppModel { should_quit: true, ..m },
            KeyCode::Char(':') => AppModel { mode: Mode::Command, input: m.input.cleared(), ..m },
            KeyCode::Char('/') => AppModel { mode: Mode::Filter, input: Line::fresh(m.filter), ..m },
            KeyCode::Char('?') => AppModel { show_help: true, ..m },
            KeyCode::Char('*') => Self::starred(m),
            KeyCode::Char('e') => if key.modifiers.has_control() {
                m.asked(CommandText::ListProfiles)
            } else {
                Self::view_keyed(m, key)
            },
            KeyCode::Backspace => Self::homed(m),
            KeyCode::Esc => if m.erring() {
                m.calmed()
            } else if m.filter.len() > 0 {
                Self::searched(Self::unfiltered(m)).told("filtro limpiado"@)
            } else {
                Self::view_keyed(m, key)
            },
            _ => Self::view_keyed(m, key),
        }
    }

    /// Out of the command and filter modes.
    pub open spec fn left_input(m: AppModel<V::Model>) -> AppModel<V::Model> {
        AppModel { input: m.input.cleared(), mode: Mode::Normal, ..m }
    }

    /// A default asked to be set: the key, and after it the value.
    #[verifier::opaque]
    pub open spec fn defaulted(m: AppModel<V::Model>, asked: Text) -> AppModel<V::Model> {
        let (key, value) = text::word_and_rest(asked);
        if !settings::is_default_key(key) || value.len() == 0 {
            m.failed("uso: :set <clave> <valor>  (default_profile · default_region · default_tail_window)"@)
        } else {
            m.asked(CommandText::SetDefault { key, value }).told("config: "@ + key + " = "@ + value)
        }
    }

    #[verifier::opaque]
    pub open spec fn commanded(m: AppModel<V::Model>, cmd: Text) -> AppModel<V::Model> {
        if cmd == ""@ {
            m
        } else if cmd == "q"@ || cmd == "quit"@ {
            AppModel { should_quit: true, ..m }
        } else if cmd == "w"@ || cmd == "write"@ {
            AppModel { write_mode: !m.write_mode, ..m }.told(
                "modo escritura: "@ + (if m.write_mode { "OFF"@ } else { "ON"@ }),
            )
        } else if cmd == "menu"@ || cmd == "home"@ {
            Self::homed(m)
        } else if cmd == "region"@ || text::has_prefix(cmd, "region "@) {
            let code = text::trimmed(cmd.skip("region"@.len() as int));
            if code.len() == 0 {
                m.failed("uso: :region <código>  (p. ej. :region eu-west-1)"@)
            } else {
                Self::switched(m, Env { profile: m.env.profile, region: code })
            }
        } else if text::word_and_rest(cmd).0 == "set"@ {
            Self::defaulted(m, text::word_and_rest(cmd).1)
        } else {
            let (n, actions) = Self::stepped(m, |v: V::Model| V::commanded(v, cmd));
            if actions.len() == 0 {
                Self::activated(n, cmd)
            } else {
                Self::dispatched(n, actions)
            }
        }
    }

    #[verifier::opaque]
    pub open spec fn command_keyed(m: AppModel<V::Model>, key: KeyEvent) -> AppModel<V::Model> {
        match key.code {
            KeyCode::Esc => Self::left_input(m),
            KeyCode::Enter => Self::commanded(Self::left_input(m), text::trimmed(m.input.text)),
            _ => AppModel { input: input::pressed(m.input, key), ..m },
        }
    }

    /// The line under edition becomes the filter.
    #[verifier::opaque]
    pub open spec fn filter_applied(m: AppModel<V::Model>) -> AppModel<V::Model> {
        Self::narrowed(AppModel { filter: m.input.text, ..m }, m.input.text)
    }

    /// The filter forgotten, and the server asked again.
    #[verifier::opaque]
    pub open spec fn filter_cancelled(m: AppModel<V::Model>) -> AppModel<V::Model> {
        AppModel {
            mode: Mode::Normal,
            ..Self::searched(Self::filter_applied(AppModel { input: m.input.cleared(), ..m }))
        }
    }

    /// The filter stands, and the same key goes on to the view.
    #[verifier::opaque]
    pub open spec fn filter_committed(m: AppModel<V::Model>, key: KeyEvent) -> AppModel<V::Model> {
        Self::view_keyed(AppModel { mode: Mode::Normal, ..Self::searched(m) }, key)
    }

    /// The filter changed: what is loaded is narrowed at once, and the server is asked a little
    /// later.
    #[verifier::opaque]
    pub open spec fn filter_edited(m: AppModel<V::Model>, key: KeyEvent) -> AppModel<V::Model> {
        AppModel {
            search_deadline: Some(SEARCH_DELAY),
            ..Self::filter_applied(AppModel { input: input::pressed(m.input, key), ..m })
        }.asked(CommandText::ScheduleSearch)
    }

    #[verifier::opaque]
    pub open spec fn filter_keyed(m: AppModel<V::Model>, key: KeyEvent) -> AppModel<V::Model> {
        match key.code {
            KeyCode::Esc => Self::filter_cancelled(m),
            KeyCode::Enter => Self::filter_committed(m, key),
            KeyCode::Up | KeyCode::Down => Self::view_keyed(m, key),
            _ => Self::filter_edited(m, key),
        }
    }

    #[verifier::opaque]
    pub open spec fn picker_keyed(m: AppModel<V::Model>, key: KeyEvent) -> AppModel<V::Model> {
        match m.picker {
            None => m,
            Some(p) => match key.code {
                KeyCode::Esc => AppModel { picker: None, awaiting_startup_env: false, ..m },
                KeyCode::Char('j') | KeyCode::Down => AppModel { picker: Some(p.moved(1)), ..m },
                KeyCode::Char('k') | KeyCode::Up => AppModel { picker: Some(p.moved(-1)), ..m },
                KeyCode::Enter => match p.env(m.env) {
                    Some(env) => Self::switched(
                        AppModel { picker: None, awaiting_startup_env: false, ..m },
                        env,
                    ),
                    None => m,
                },
                _ => m,
            },
        }
    }

    /// The user consents, and the action is passed on as it stands; or refuses, and it is dropped.
    #[verifier::opaque]
    pub open spec fn confirm_keyed(m: AppModel<V::Model>, key: KeyEvent) -> AppModel<V::Model> {
        match m.confirm {
            None => m,
            Some(c) => match key.code {
                KeyCode::Char('y') | KeyCode::Enter => AppModel { confirm: None, ..m }.sent(c.action).told(
                    "acción enviada"@,
                ),
                KeyCode::Char('n') | KeyCode::Esc => AppModel { confirm: None, ..m },
                _ => m,
            },
        }
    }

    pub open spec fn keyed(m: AppModel<V::Model>, key: KeyEvent) -> AppModel<V::Model> {
        let n = if m.erring() { m } else { AppModel { status: None, ..m } };
        if n.confirm is Some {
            Self::confirm_keyed(n, key)
        } else if n.picker is Some {
            Self::picker_keyed(n, key)
        } else if n.show_help {
            AppModel { show_help: false, ..n }
        } else {
            match n.mode {
                Mode::Command => Self::command_keyed(n, key),
                Mode::Filter => Self::filter_keyed(n, key),
                Mode::Normal => match n.screen {
                    Screen::Menu => Self::menu_keyed(n, key),
                    Screen::View => if n.has_view() && V::takes_raw_input(n.views[n.active]) {
                        Self::view_keyed(n, key)
                    } else {
                        Self::normal_keyed(n, key)
                    },
                },
            }
        }
    }

    /// News for the user about an answer.
    #[verifier::opaque]
    pub open spec fn reported(m: AppModel<V::Model>, message: Message) -> AppModel<V::Model> {
        match message {
            Message::Error { kind, detail } => AppModel { error_kind: Some(kind), ..m.failed(detail@) },
            Message::QueuePurged { .. } => m.calmed().told("cola purgada — refrescando…"@),
            Message::DlqRedriveStarted { .. } => m.calmed().told("redrive de DLQ iniciado — refrescando…"@),
            Message::ExecutionRedriven { .. } => m.calmed().told("redrive enviado — refrescando…"@),
            Message::EventSent { event_bus_name } => m.calmed().told("evento enviado a "@ + event_bus_name@),
            Message::IdentityLoaded { account_id } => AppModel { account: Some(account_id@), ..m.calmed() },
            _ => m.calmed(),
        }
    }

    /// An answer: one of an earlier environment changes nothing; any other goes to the active view,
    /// and after a mutation what it changed is loaded again.
    pub open spec fn answered(m: AppModel<V::Model>, envelope: Envelope) -> AppModel<V::Model> {
        if envelope.epoch != m.epoch {
            m
        } else {
            let n = Self::reported(m, envelope.message);
            let informed = if n.has_view() {
                AppModel {
                    views: n.views.update(n.active, V::informed(n.views[n.active], envelope.message)),
                    ..n
                }
            } else {
                n
            };
            match envelope.message {
                Message::QueuePurged { queue_url } => informed.sent(
                    ActionText::LoadQueueDetail { queue_url: queue_url@ },
                ),
                Message::DlqRedriveStarted { queue_url } => informed.sent(
                    ActionText::LoadQueueDetail { queue_url: queue_url@ },
                ),
                Message::ExecutionRedriven { execution_arn } => informed.sent(
                    ActionText::LoadExecutionDetail { execution_arn: execution_arn@ },
                ),
                _ => informed,
            }
        }
    }

    /// Some time passed; only a view that is on screen with nothing over it hears of it.
    pub open spec fn ticked(m: AppModel<V::Model>) -> AppModel<V::Model> {
        if m.screen != Screen::View || m.mode != Mode::Normal || m.confirm is Some || m.picker is Some || m.show_help {
            m
        } else {
            let (n, actions) = Self::stepped(m, |v: V::Model| V::ticked(v));
            Self::dispatched(n, actions)
        }
    }

    /// The picker over what is on screen.
    pub open spec fn picking(m: AppModel<V::Model>, profiles: Seq<ProfileEntry<Text>>) -> AppModel<V::Model> {
        if profiles.len() == 0 {
            m.failed("no se encontraron profiles en ~/.aws/config"@)
        } else {
            AppModel { picker: Some(PickerModel::fresh(profiles)), ..m }
        }
    }

    /// The picker of the start, at the current profile.
    pub open spec fn starting(m: AppModel<V::Model>, profiles: Seq<ProfileEntry<Text>>) -> AppModel<V::Model> {
        if profiles.len() == 0 {
            m.told("sin profiles en ~/.aws/config — usando "@ + m.env.caption() + " · ctrl-e para cambiar"@)
        } else {
            AppModel {
                picker: Some(PickerModel::fresh(profiles).preselected(m.env.profile)),
                awaiting_startup_env: true,
                ..m
            }
        }
    }
}

impl<V: DeckView> App<V> {
    pub fn new(env: Env, registry: Registry<V>) -> (r: Self)
        requires
            registry.wf(),
        ensures
            r.wf(),
            r.model() == (AppModel {
                env: env.deep_view(),
                epoch: 0,
                views: registry.views_model(),
                active: registry.active as int,
                screen: Screen::Menu,
                menu: Some(0usize),
                mode: Mode::Normal,
                input: Line::fresh(Seq::empty()),
                filter: Seq::empty(),
                status: None,
                error_kind: None,
                show_help: false,
                picker: None,
                confirm: None,
                write_mode: false,
                awaiting_startup_env: false,
                search_deadline: None,
                should_quit: false,
                account: None,
                state: StateModel {
                    last_profile: None,
                    last_region: None,
                    environments: Seq::empty(),
                    legacy_favorites: Seq::empty(),
                },
                outbox: Seq::empty(),
            }),
    {
        let outbox: Vec<Command> = Vec::new();
        proof {
            assert(outbox.deep_view() =~= Seq::<CommandText>::empty());
        }
        App {
            env,
            epoch: 0,
            registry,
            screen: Screen::Menu,
            menu: ListState::new(Some(0)),
            mode: Mode::Normal,
            input: Input::new(String::new()),
            filter: String::new(),
            status: None,
            error_kind: None,
            show_help: false,
            picker: None,
            confirm: None,
            write_mode: false,
            awaiting_startup_env: false,
            search_deadline: None,
            should_quit: false,
            account: None,
            state: State::default(),
            outbox,
        }
    }

    /// Takes up what an earlier run remembered.
    pub fn load_state(&mut self, state: State)
        requires
            old(self).wf(),
        ensures
            final(self).wf(),
            final(self).model() == Self::menu_clamped(AppModel { state: state.model(), ..old(self).model() }),
    {
        self.state = state;
        self.clamp_menu();
    }

    /// Hands out what the program around the application is to do, the oldest first.
    pub fn take_commands(&mut self) -> (r: Vec<Command>)
        requires
            old(self).wf(),
        ensures
            final(self).wf(),
            r.deep_view() == old(self).model().outbox,
            final(self).model() == (AppModel { outbox: Seq::empty(), ..old(self).model() }),
    {
        let mut out: Vec<Command> = Vec::new();
        out.append(&mut self.outbox);
        proof {
            assert(out.deep_view() =~= old(self).model().outbox);
            assert(self.outbox.deep_view() =~= Seq::<CommandText>::empty());
        }
        out
    }

    fn has_error(&self) -> (r: bool)
        ensures
            r == self.model().erring(),
    {
        match &self.status {
            Some(s) => s.error,
            None => false,
        }
    }

    fn set_error(&mut self, text: String)
        requires
            old(self).wf(),
        ensures
            final(self).wf(),
            final(self).model() == old(self).model().failed(text@),
    {
        self.status = Some(StatusLine { error: true, text });
        self.error_kind = Some(ErrorKind::Other);
    }

    fn set_info(&mut self, text: String)
        requires
            old(self).wf(),
        ensures
            final(self).wf(),
            final(self).model() == old(self).model().told(text@),
    {
        self.status = Some(StatusLine { error: false, text });
        self.error_kind = None;
    }

    fn clear_error(&mut self)
        requires
            old(self).wf(),
        ensures
            final(self).wf(),
            final(self).model() == old(self).model().calmed(),
    {
        if self.has_error() {
            self.status = None;
        }
        self.error_kind = None;
    }

    fn ask_for(&mut self, command: Command)
        requires
            old(self).wf(),
        ensures
            final(self).wf(),
            final(self).model() == old(self).model().asked(command.deep_view()),
    {
        self.outbox.push(command);
        proof {
            assert(self.outbox.deep_view() =~= old(self).outbox.deep_view().push(command.deep_view()));
        }
    }

    fn send(&mut self, action: Action)
        requires
            old(self).wf(),
        ensures
            final(self).wf(),
            final(self).model() == old(self).model().sent(action.deep_view()),
    {
        let epoch: u64 = self.epoch;
        self.ask_for(Command::Effect { action, epoch });
    }

    fn request_confirm(&mut self, action: Action)
        requires
            old(self).wf(),
        ensures
            final(self).wf(),
            final(self).model() == old(self).model().gated(action.deep_view()),
    {
        if !self.write_mode {
            self.set_error("acción mutante bloqueada: activa modo escritura con :write".to_string());
            return;
        }
        match ask(&action) {
            Some((title, body)) => {
                self.confirm = Some(Confirm { title, body, action });
            },
            None => {},
        }
    }

    fn emit(&mut self, action: Action)
        requires
            old(self).wf(),
        ensures
            final(self).wf(),
            final(self).model() == old(self).model().emitted_one(action.deep_view()),
    {
        if is_mutating(&action) {
            self.request_confirm(action);
        } else {
            self.send(action);
        }
    }

    fn emit_all(&mut self, actions: Vec<Action>)
        requires
            old(self).wf(),
        ensures
            final(self).wf(),
            final(self).model() == old(self).model().emitted(actions.deep_view()),
    {
        let mut rest = actions;
        while rest.len() > 0
            invariant
                self.wf(),
                self.model().emitted(rest.deep_view()) == old(self).model().emitted(actions.deep_view()),
            decreases rest@.len(),
        {
            let ghost before = rest.deep_view();
            let action = rest.remove(0);
            proof {
                assert(rest.deep_view() =~= before.skip(1));
                assert(before[0] == action.deep_view());
            }
            self.emit(action);
        }
    }

    fn clear_filter(&mut self)
        requires
            old(self).wf(),
        ensures
            final(self).wf(),
            final(self).model() == Self::unfiltered(old(self).model()),
    {
        proof {
            reveal(App::unfiltered);
        }
        self.filter = String::new();
        self.input.reset();
        self.registry.set_filter("");
    }

    /// Asks the server, by the active view, for what the filter says, now.
    pub fn fire_search_now(&mut self)
        requires
            old(self).wf(),
        ensures
            final(self).wf(),
            final(self).model() == Self::searched(old(self).model()),
    {
        proof {
            reveal(App::searched);
        }
        self.search_deadline = None;
        let query = self.filter.clone();
        let actions = self.registry.search(query.as_str());
        self.emit_all(actions);
    }

    fn drop_filter(&mut self)
        requires
            old(self).wf(),
        ensures
            final(self).wf(),
            final(self).model() == Self::filter_dropped(old(self).model()),
    {
        proof {
            reveal(App::filter_dropped);
        }
        if !self.filter.as_str().is_empty() {
            self.clear_filter();
            self.fire_search_now();
        }
    }

    fn settle_all(&mut self, actions: Vec<Action>)
        requires
            old(self).wf(),
        ensures
            final(self).wf(),
            final(self).model() == Self::settled(old(self).model(), actions.deep_view()),
    {
        let mut rest = actions;
        while rest.len() > 0
            invariant
                self.wf(),
                Self::settled(self.model(), rest.deep_view()) == Self::settled(old(self).model(), actions.deep_view()),
            decreases rest@.len(),
        {
            let ghost before = rest.deep_view();
            let action = rest.remove(0);
            proof {
                assert(rest.deep_view() =~= before.skip(1));
                assert(before[0] == action.deep_view());
            }
            match action {
                Action::ClearFilter => self.drop_filter(),
                other => self.emit(other),
            }
        }
    }

    fn reactivate(&mut self)
        requires
            old(self).wf(),
        ensures
            final(self).wf(),
            final(self).model() == Self::reactivated(old(self).model()),
    {
        proof {
            reveal(App::reactivated);
        }
        let actions = self.registry.on_activate();
        self.settle_all(actions);
    }

    fn refuse(&mut self, id: &str)
        requires
            old(self).wf(),
        ensures
            final(self).wf(),
            final(self).model() == old(self).model().failed(
                unknown_text(id@, registry::ids_of::<V>(old(self).model().views)),
            ),
    {
        let ids = self.registry.ids();
        let mut names: Vec<String> = Vec::new();
        let mut i: usize = 0;
        while i < ids.len()
            invariant
                i <= ids@.len(),
                names@.len() == i,
                forall|k: int| 0 <= k < i ==> (#[trigger] names@[k])@ == ids@[k]@,
            decreases ids@.len() - i,
        {
            names.push(ids[i].to_string());
            i = i + 1;
        }
        proof {
            assert(names.deep_view() =~= ids.deep_view());
        }
        let mut out = "comando desconocido: ".to_string();
        out.append(id);
        out.append(" (disponibles: ");
        out.append(text::join(&names, ", ").as_str());
        out.append(")");
        self.set_error(out);
    }

    fn activate_view(&mut self, id: &str)
        requires
            old(self).wf(),
        ensures
            final(self).wf(),
            final(self).model() == Self::activated(old(self).model(), id@),
    {
        proof {
            reveal(App::activated);
        }
        if self.registry.activate(id) {
            self.screen = Screen::View;
            self.clear_filter();
            self.reactivate();
        } else {
            self.refuse(id);
        }
    }

    fn activate_view_with_context(&mut self, id: &str, context: &ViewContext)
        requires
            old(self).wf(),
        ensures
            final(self).wf(),
            final(self).model() == Self::activated_with(old(self).model(), id@, context.deep_view()),
    {
        proof {
            reveal(App::activated_with);
        }
        if self.registry.activate(id) {
            self.screen = Screen::View;
            self.clear_filter();
            let actions = self.registry.on_context(context);
            self.settle_all(actions);
        } else {
            self.refuse(id);
        }
    }

    fn go_home(&mut self)
        requires
            old(self).wf(),
        ensures
            final(self).wf(),
            final(self).model() == Self::homed(old(self).model()),
    {
        proof {
            reveal(App::homed);
        }
        self.screen = Screen::Menu;
        self.clear_filter();
    }

    /// The rows of the menu: the tools, the favourites, and the recent resources.
    pub fn menu_rows(&self) -> (r: Vec<MenuRow>)
        ensures
            r.deep_view() == Self::menu_rows_of(self.model()),
    {
        let metas = self.registry.metas();
        let mut rows: Vec<MenuRow> = Vec::new();
        let mut i: usize = 0;
        while i < metas.len()
            invariant
                i <= metas@.len(),
                metas.deep_view() == registry::metas_of::<V>(self.model().views),
                rows@.len() == i,
                forall|k: int|
                    0 <= k < i ==> (#[trigger] rows@[k]).deep_view() == (MenuRow::Tool::<Text> {
                        id: registry::metas_of::<V>(self.model().views)[k].0,
                        description: registry::metas_of::<V>(self.model().views)[k].1,
                    }),
            decreases metas@.len() - i,
        {
            proof {
                assert(metas.deep_view()[i as int] == metas@[i as int].deep_view());
            }
            rows.push(MenuRow::Tool { id: metas[i].0.to_string(), description: metas[i].1.to_string() });
            i = i + 1;
        }
        let favs = self.state.favorites_for(self.env.profile.as_str(), self.env.region.as_str());
        let mut all = config::sort_out(favs, true);
        let mut recent = config::sort_out(favs, false);
        let ghost marked = all.deep_view();
        let ghost others = recent.deep_view();
        all.append(&mut recent);
        proof {
            assert(all.deep_view() =~= marked + others);
        }
        let ghost tools = rows@.len();
        let mut k: usize = 0;
        while k < all.len()
            invariant
                k <= all@.len(),
                all.deep_view() == self.model().remembered(),
                tools == registry::metas_of::<V>(self.model().views).len(),
                rows@.len() == tools + k,
                forall|j: int|
                    0 <= j < tools ==> (#[trigger] rows@[j]).deep_view() == (MenuRow::Tool::<Text> {
                        id: registry::metas_of::<V>(self.model().views)[j].0,
                        description: registry::metas_of::<V>(self.model().views)[j].1,
                    }),
                forall|j: int|
                    tools <= j < tools + k ==> (#[trigger] rows@[j]).deep_view() == MenuRow::Remembered(
                        self.model().remembered()[j - tools],
                    ),
            decreases all@.len() - k,
        {
            proof {
                assert(all.deep_view()[k as int] == all@[k as int].deep_view());
            }
            rows.push(MenuRow::Remembered(all[k].clone()));
            k = k + 1;
        }
        proof {
            assert(rows.deep_view() =~= Self::menu_rows_of(self.model()));
        }
        rows
    }

    fn clamp_menu(&mut self)
        requires
            old(self).wf(),
        ensures
            final(self).wf(),
            final(self).model() == Self::menu_clamped(old(self).model()),
    {
        proof {
            reveal(App::menu_clamped);
        }
        let rows: usize = self.menu_rows().len();
        self.menu.clamp(rows);
    }

    fn switch_env(&mut self, env: Env)
        requires
            old(self).wf(),
        ensures
            final(self).wf(),
            final(self).model() == Self::switched(old(self).model(), env.deep_view()),
    {
        proof {
            reveal(App::switched);
            reveal(App::unfiltered);
        }
        self.epoch = self.epoch.wrapping_add(1);
        self.state.last_profile = Some(env.profile.clone());
        self.state.last_region = Some(env.region.clone());
        self.env = env.clone();
        self.write_mode = false;
        self.account = None;
        let mut news = "ambiente: ".to_string();
        news.append(env.label().as_str());
        self.ask_for(Command::UseEnv(env));
        self.ask_for(Command::SaveState);
        self.send(Action::VerifyIdentity);
        self.clear_filter();
        if self.screen == Screen::View {
            self.reactivate();
        }
        self.set_info(news);
        self.clamp_menu();
    }

    fn record_recent(&mut self, key: &str, label: &str)
        requires
            old(self).wf(),
        ensures
            final(self).wf(),
            final(self).model() == Self::recorded(old(self).model(), key@, label@),
    {
        proof {
            reveal(App::recorded);
        }
        let id = match self.registry.active() {
            Some(view) => view.id(),
            None => return,
        };
        let (profile, region) = (self.env.profile.clone(), self.env.region.clone());
        self.state.record_recent(profile.as_str(), region.as_str(), id, key, label);
        self.ask_for(Command::SaveState);
    }

    /// Carries out an action, or passes it on.
    pub fn dispatch(&mut self, action: Action)
        requires
            old(self).wf(),
        ensures
            final(self).wf(),
            final(self).model() == Self::dispatched_one(old(self).model(), action.deep_view()),
    {
        match action {
            Action::Quit => {
                self.should_quit = true;
            },
            Action::ActivateView(id) => self.activate_view(id.as_str()),
            Action::ActivateViewWithContext { id, context } => self.activate_view_with_context(id.as_str(), &context),
            Action::Back => self.go_home(),
            Action::ClearFilter => self.drop_filter(),
            Action::SwitchEnv(env) => self.switch_env(env),
            Action::CopyToClipboard { text } => self.ask_for(Command::Copy { text }),
            Action::RecordRecent { key, label } => self.record_recent(key.as_str(), label.as_str()),
            other => self.emit(other),
        }
    }

    fn dispatch_all(&mut self, actions: Vec<Action>)
        requires
            old(self).wf(),
        ensures
            final(self).wf(),
            final(self).model() == Self::dispatched(old(self).model(), actions.deep_view()),
    {
        let mut rest = actions;
        while rest.len() > 0
            invariant
                self.wf(),
                Self::dispatched(self.model(), rest.deep_view()) == Self::dispatched(
                    old(self).model(),
                    actions.deep_view(),
                ),
            decreases rest@.len(),
        {
            let ghost before = rest.deep_view();
            let action = rest.remove(0);
            proof {
                assert(rest.deep_view() =~= before.skip(1));
                assert(before[0] == action.deep_view());
            }
            self.dispatch(action);
        }
    }

    fn on_view_key(&mut self, key: KeyEvent)
        requires
            old(self).wf(),
        ensures
            final(self).wf(),
            final(self).model() == Self::view_keyed(old(self).model(), key),
    {
        proof {
            reveal(App::view_keyed);
        }
        let actions = self.registry.on_key(key);
        self.dispatch_all(actions);
    }

    fn menu_activate(&mut self)
        requires
            old(self).wf(),
        ensures
            final(self).wf(),
            final(self).model() == Self::menu_opened(old(self).model()),
    {
        proof {
            reveal(App::menu_opened);
        }
        let rows = self.menu_rows();
        let at: usize = match self.menu.selected() {
            Some(i) => i,
            None => return,
        };
        if at >= rows.len() {
            return;
        }
        proof {
            assert(rows.deep_view()[at as int] == rows@[at as int].deep_view());
        }
        match &rows[at] {
            MenuRow::Tool { id, .. } => self.activate_view(id.as_str()),
            MenuRow::Remembered(f) => {
                let context = ViewContext::Favorite { key: f.key.clone() };
                self.activate_view_with_context(f.view_id.as_str(), &context);
            },
        }
    }

    fn on_menu_key(&mut self, key: KeyEvent)
        requires
            old(self).wf(),
        ensures
            final(self).wf(),
            final(self).model() == Self::menu_keyed(old(self).model(), key),
    {
        proof {
            reveal(App::menu_keyed);
        }
        let rows: usize = self.menu_rows().len();
        match key.code {
            KeyCode::Char('q') => {
                self.should_quit = true;
            },
            KeyCode::Char(':') => self.enter_command_mode(),
            KeyCode::Char('?') => {
                self.show_help = true;
            },
            KeyCode::Char('e') => {
                if key.modifiers.contains_control() {
                    self.ask_for(Command::ListProfiles);
                }
            },
            KeyCode::Char('j') | KeyCode::Down => {
                if rows > 0 {
                    self.menu.down(rows);
                }
            },
            KeyCode::Char('k') | KeyCode::Up => {
                if rows > 0 {
                    self.menu.up(rows);
                }
            },
            KeyCode::Char('g') | KeyCode::Home => {
                if rows > 0 {
                    self.menu.to_edge(rows, false);
                }
            },
            KeyCode::Char('G') | KeyCode::End => {
                if rows > 0 {
                    self.menu.to_edge(rows, true);
                }
            },
            KeyCode::Enter => self.menu_activate(),
            KeyCode::Esc => {
                if self.has_error() {
                    self.clear_error();
                }
            },
            _ => {},
        }
    }

    fn toggle_favorite(&mut self)
        requires
            old(self).wf(),
        ensures
            final(self).wf(),
            final(self).model() == Self::starred(old(self).model()),
    {
        proof {
            reveal(App::starred);
        }
        let (id, key, label) = match self.registry.active() {
            Some(view) => match view.selected_favorite() {
                Some((key, label)) => (view.id(), key, label),
                None => return,
            },
            None => return,
        };
        let (profile, region) = (self.env.profile.clone(), self.env.region.clone());
        let marked = self.state.toggle_favorite(
            profile.as_str(),
            region.as_str(),
            id,
            key.as_str(),
            label.as_str(),
        );
        self.ask_for(Command::SaveState);
        let mut news = (if marked { "★ favorito: " } else { "favorito quitado: " }).to_string();
        news.append(label.as_str());
        self.set_info(news);
    }

    fn on_normal_key(&mut self, key: KeyEvent)
        requires
            old(self).wf(),
        ensures
            final(self).wf(),
            final(self).model() == Self::normal_keyed(old(self).model(), key),
    {
        proof {
            reveal(App::normal_keyed);
        }
        match key.code {
            KeyCode::Char('q') => {
                self.should_quit = true;
            },
            KeyCode::Char(':') => self.enter_command_mode(),
            KeyCode::Char('/') => {
                self.mode = Mode::Filter;
                self.input = Input::new(self.filter.clone());
            },
            KeyCode::Char('?') => {
                self.show_help = true;
            },
            KeyCode::Char('*') => self.toggle_favorite(),
            KeyCode::Char('e') => {
                if key.modifiers.contains_control() {
                    self.ask_for(Command::ListProfiles);
                } else {
                    self.on_view_key(key);
                }
            },
            KeyCode::Backspace => self.go_home(),
            KeyCode::Esc => {
                if self.has_error() {
                    self.clear_error();
                } else if !self.filter.as_str().is_empty() {
                    self.clear_filter();
                    self.fire_search_now();
                    self.set_info("filtro limpiado".to_string());
                } else {
                    self.on_view_key(key);
                }
            },
            _ => self.on_view_key(key),
        }
    }

    fn enter_command_mode(&mut self)
        requires
            old(self).wf(),
        ensures
            final(self).wf(),
            final(self).model() == (AppModel {
                mode: Mode::Command,
                input: old(self).model().input.cleared(),
                ..old(self).model()
            }),
    {
        self.mode = Mode::Command;
        self.input.reset();
    }

    fn leave_input_mode(&mut self)
        requires
            old(self).wf(),
        ensures
            final(self).wf(),
            final(self).model() == Self::left_input(old(self).model()),
    {
        self.input.reset();
        self.mode = Mode::Normal;
    }

    fn toggle_write_mode(&mut self)
        requires
            old(self).wf(),
        ensures
            final(self).wf(),
            final(self).model() == (AppModel { write_mode: !old(self).model().write_mode, ..old(self).model() }).told(
                "modo escritura: "@ + (if old(self).model().write_mode { "OFF"@ } else { "ON"@ }),
            ),
    {
        self.write_mode = !self.write_mode;
        let mut news = "modo escritura: ".to_string();
        news.append(if self.write_mode { "ON" } else { "OFF" });
        self.set_info(news);
    }

    fn ask_for_default(&mut self, asked: &str)
        requires
            old(self).wf(),
        ensures
            final(self).wf(),
            final(self).model() == Self::defaulted(old(self).model(), asked@),
    {
        proof {
            reveal(App::defaulted);
        }
        let (key, value) = text::split_word(asked);
        if !settings::holds_default(key.as_str()) || value.as_str().is_empty() {
            self.set_error(
                "uso: :set <clave> <valor>  (default_profile · default_region · default_tail_window)".to_string(),
            );
        } else {
            let mut news = "config: ".to_string();
            news.append(key.as_str());
            news.append(" = ");
            news.append(value.as_str());
            self.ask_for(Command::SetDefault { key, value });
            self.set_info(news);
        }
    }

    fn run_command(&mut self, cmd: &str)
        requires
            old(self).wf(),
        ensures
            final(self).wf(),
            final(self).model() == Self::commanded(old(self).model(), cmd@),
    {
        proof {
            reveal(App::commanded);
        }
        if text::same(cmd, "") {
            return;
        }
        if text::same(cmd, "q") || text::same(cmd, "quit") {
            self.should_quit = true;
            return;
        }
        if text::same(cmd, "w") || text::same(cmd, "write") {
            self.toggle_write_mode();
            return;
        }
        if text::same(cmd, "menu") || text::same(cmd, "home") {
            self.go_home();
            return;
        }
        if text::same(cmd, "region") || text::strip_prefix(cmd, "region ").is_some() {
            proof {
                reveal_strlit("region");
                reveal_strlit("region ");
                if text::has_prefix(cmd@, "region "@) {
                    assert(cmd@.take("region"@.len() as int) =~= "region "@.take("region"@.len() as int)) by {
                        assert(cmd@.take("region "@.len() as int).take("region"@.len() as int) =~= cmd@.take(
                            "region"@.len() as int,
                        ));
                    }
                    assert("region "@.take("region"@.len() as int) =~= "region"@);
                }
                assert("region"@.take("region"@.len() as int) =~= "region"@);
            }
            let code = match text::strip_prefix(cmd, "region") {
                Some(rest) => text::trim(rest.as_str()),
                None => String::new(),
            };
            if code.as_str().is_empty() {
                self.set_error("uso: :region <código>  (p. ej. :region eu-west-1)".to_string());
            } else {
                let profile = self.env.profile.clone();
                self.switch_env(Env { profile, region: code });
            }
            return;
        }
        let (verb, asked) = text::split_word(cmd);
        if text::same(verb.as_str(), "set") {
            self.ask_for_default(asked.as_str());
            return;
        }
        let actions = self.registry.on_command(cmd);
        if actions.len() == 0 {
            self.activate_view(cmd);
        } else {
            self.dispatch_all(actions);
        }
    }

    fn on_command_key(&mut self, key: KeyEvent)
        requires
            old(self).wf(),
        ensures
            final(self).wf(),
            final(self).model() == Self::command_keyed(old(self).model(), key),
    {
        proof {
            reveal(App::command_keyed);
        }
        match key.code {
            KeyCode::Esc => self.leave_input_mode(),
            KeyCode::Enter => {
                let cmd = text::trim(self.input.value());
                self.leave_input_mode();
                self.run_command(cmd.as_str());
            },
            _ => handle_key(&mut self.input, key),
        }
    }

    /// The line under edition becomes the filter.
    pub fn apply_filter(&mut self)
        requires
            old(self).wf(),
        ensures
            final(self).wf(),
            final(self).model() == Self::filter_applied(old(self).model()),
    {
        proof {
            reveal(App::filter_applied);
        }
        self.filter = self.input.value().to_string();
        let filter = self.filter.clone();
        self.registry.set_filter(filter.as_str());
    }

    fn cancel_filter(&mut self)
        requires
            old(self).wf(),
        ensures
            final(self).wf(),
            final(self).model() == Self::filter_cancelled(old(self).model()),
    {
        proof {
            reveal(App::filter_cancelled);
        }
        self.input.reset();
        self.apply_filter();
        self.fire_search_now();
        self.mode = Mode::Normal;
    }

    fn commit_filter(&mut self, key: KeyEvent)
        requires
            old(self).wf(),
        ensures
            final(self).wf(),
            final(self).model() == Self::filter_committed(old(self).model(), key),
    {
        proof {
            reveal(App::filter_committed);
        }
        self.fire_search_now();
        self.mode = Mode::Normal;
        self.on_view_key(key);
    }

    fn edit_filter(&mut self, key: KeyEvent)
        requires
            old(self).wf(),
        ensures
            final(self).wf(),
            final(self).model() == Self::filter_edited(old(self).model(), key),
    {
        proof {
            reveal(App::filter_edited);
        }
        handle_key(&mut self.input, key);
        self.apply_filter();
        self.search_deadline = Some(SEARCH_DELAY);
        self.ask_for(Command::ScheduleSearch);
    }

    fn on_filter_key(&mut self, key: KeyEvent)
        requires
            old(self).wf(),
        ensures
            final(self).wf(),
            final(self).model() == Self::filter_keyed(old(self).model(), key),
    {
        proof {
            reveal(App::filter_keyed);
        }
        match key.code {
            KeyCode::Esc => self.cancel_filter(),
            KeyCode::Enter => self.commit_filter(key),
            KeyCode::Up | KeyCode::Down => self.on_view_key(key),
            _ => self.edit_filter(key),
        }
    }

    fn on_picker_key(&mut self, key: KeyEvent)
        requires
            old(self).wf(),
        ensures
            final(self).wf(),
            final(self).model() == Self::picker_keyed(old(self).model(), key),
    {
        proof {
            reveal(App::picker_keyed);
        }
        let mut picker = match self.picker.take() {
            Some(p) => p,
            None => return,
        };
        match key.code {
            KeyCode::Esc => {
                self.awaiting_startup_env = false;
            },
            KeyCode::Char('j') | KeyCode::Down => {
                picker.move_selection(1);
                self.picker = Some(picker);
            },
            KeyCode::Char('k') | KeyCode::Up => {
                picker.move_selection(-1);
                self.picker = Some(picker);
            },
            KeyCode::Enter => match picker.selected_env(&self.env) {
                Some(env) => {
                    self.awaiting_startup_env = false;
                    self.switch_env(env);
                },
                None => {
                    self.picker = Some(picker);
                },
            },
            _ => {
                self.picker = Some(picker);
            },
        }
    }

    fn on_confirm_key(&mut self, key: KeyEvent)
        requires
            old(self).wf(),
        ensures
            final(self).wf(),
            final(self).model() == Self::confirm_keyed(old(self).model(), key),
    {
        proof {
            reveal(App::confirm_keyed);
        }
        match key.code {
            KeyCode::Char('y') | KeyCode::Enter => {
                let confirm = match self.confirm.take() {
                    Some(c) => c,
                    None => return,
                };
                self.send(confirm.action);
                self.set_info("acción enviada".to_string());
            },
            KeyCode::Char('n') | KeyCode::Esc => {
                self.confirm = None;
            },
            _ => {},
        }
    }

    /// Reacts to a key.
    pub fn on_key(&mut self, key: KeyEvent)
        requires
            old(self).wf(),
        ensures
            final(self).wf(),
            final(self).model() == Self::keyed(old(self).model(), key),
    {
        if !self.has_error() {
            self.status = None;
        }
        if self.confirm.is_some() {
            self.on_confirm_key(key);
            return;
        }
        if self.picker.is_some() {
            self.on_picker_key(key);
            return;
        }
        if self.show_help {
            self.show_help = false;
            return;
        }
        match self.mode {
            Mode::Command => self.on_command_key(key),
            Mode::Filter => self.on_filter_key(key),
            Mode::Normal => match self.screen {
                Screen::Menu => self.on_menu_key(key),
                Screen::View => {
                    let raw = match self.registry.active() {
                        Some(view) => view.wants_raw_input(),
                        None => false,
                    };
                    if raw {
                        self.on_view_key(key);
                    } else {
                        self.on_normal_key(key);
                    }
                },
            },
        }
    }

    fn report(&mut self, message: &Message)
        requires
            old(self).wf(),
        ensures
            final(self).wf(),
            final(self).model() == Self::reported(old(self).model(), *message),
    {
        proof {
            reveal(App::reported);
        }
        match message {
            Message::Error { kind, detail } => {
                self.set_error(detail.clone());
                self.error_kind = Some(*kind);
                return;
            },
            _ => {},
        }
        self.clear_error();
        match message {
            Message::QueuePurged { .. } => self.set_info("cola purgada — refrescando…".to_string()),
            Message::DlqRedriveStarted { .. } => self.set_info("redrive de DLQ iniciado — refrescando…".to_string()),
            Message::ExecutionRedriven { .. } => self.set_info("redrive enviado — refrescando…".to_string()),
            Message::EventSent { event_bus_name } => {
                let mut news = "evento enviado a ".to_string();
                news.append(event_bus_name.as_str());
                self.set_info(news);
            },
            Message::IdentityLoaded { account_id } => {
                self.account = Some(account_id.clone());
            },
            _ => {},
        }
    }

    /// Takes in an answer, unless it belongs to an earlier environment.
    pub fn on_envelope(&mut self, envelope: Envelope)
        requires
            old(self).wf(),
        ensures
            final(self).wf(),
            final(self).model() == Self::answered(old(self).model(), envelope),
    {
        if envelope.epoch != self.epoch {
            return;
        }
        self.report(&envelope.message);
        self.registry.on_message(&envelope.message);
        match envelope.message {
            Message::QueuePurged { queue_url } => self.send(Action::LoadQueueDetail { queue_url }),
            Message::DlqRedriveStarted { queue_url } => self.send(Action::LoadQueueDetail { queue_url }),
            Message::ExecutionRedriven { execution_arn } => self.send(Action::LoadExecutionDetail { execution_arn }),
            _ => {},
        }
    }

    /// Tells the view on screen that some time has passed.
    pub fn on_tick(&mut self)
        requires
            old(self).wf(),
        ensures
            final(self).wf(),
            final(self).model() == Self::ticked(old(self).model()),
    {
        if self.screen != Screen::View || self.mode != Mode::Normal || self.confirm.is_some() || self.picker.is_some()
            || self.show_help {
            return;
        }
        let actions = self.registry.on_tick();
        self.dispatch_all(actions);
    }

    /// Opens the picker with the profiles that were found.
    pub fn open_picker(&mut self, profiles: Vec<ProfileEntry>)
        requires
            old(self).wf(),
        ensures
            final(self).wf(),
            final(self).model() == Self::picking(old(self).model(), profiles.deep_view()),
    {
        if profiles.len() == 0 {
            self.set_error("no se encontraron profiles en ~/.aws/config".to_string());
        } else {
            self.picker = Some(Picker::new(profiles));
        }
    }

    /// Opens the picker at the start, at the current profile, where there are profiles.
    pub fn start_with_env_picker(&mut self, profiles: Vec<ProfileEntry>)
        requires
            old(self).wf(),
        ensures
            final(self).wf(),
            final(self).model() == Self::starting(old(self).model(), profiles.deep_view()),
    {
        if profiles.len() == 0 {
            let mut news = "sin profiles en ~/.aws/config — usando ".to_string();
            news.append(self.env.label().as_str());
            news.append(" · ctrl-e para cambiar");
            self.set_info(news);
            return;
        }
        let mut picker = Picker::new(profiles);
        picker.preselect(self.env.profile.as_str());
        self.picker = Some(picker);
        self.awaiting_startup_env = true;
    }

    /// Reports how a copy to the clipboard went.
    pub fn on_copied(&mut self, text: &str, failure: Option<String>)
        requires
            old(self).wf(),
        ensures
            final(self).wf(),
            final(self).model() == (match failure {
                None => old(self).model().told("copiado: "@ + text@),
                Some(e) => old(self).model().failed("no se pudo copiar: "@ + e@),
            }),
    {
        match failure {
            None => {
                let mut news = "copiado: ".to_string();
                news.append(text);
                self.set_info(news);
            },
            Some(e) => {
                let mut news = "no se pudo copiar: ".to_string();
                news.append(e.as_str());
                self.set_error(news);
            },
        }
    }

    /// Title of what is on screen.
    pub fn title(&self) -> (r: String)
        ensures
            r@ == (if self.screen == Screen::Menu {
                "menú"@
            } else if self.model().has_view() {
                V::title_text(self.model().views[self.model().active])
            } else {
                "—"@
            }),
    {
        match self.screen {
            Screen::Menu => "menú".to_string(),
            Screen::View => match self.registry.active() {
                Some(view) => view.title(),
                None => "—".to_string(),
            },
        }
    }

    /// What the bottom row shows.
    pub fn footer_state(&self) -> (r: Footer)
        requires
            self.wf(),
        ensures
            r.deep_view() == Self::footer(self.model()),
    {
        match self.mode {
            Mode::Command => Footer::Input {
                prefix: ':',
                value: self.input.value().to_string(),
                cursor: self.input.visual_cursor(),
            },
            Mode::Filter => Footer::Input {
                prefix: '/',
                value: self.input.value().to_string(),
                cursor: self.input.visual_cursor(),
            },
            Mode::Normal => match &self.status {
                Some(status) => Footer::Status { error: status.error, text: status.text.clone() },
                None => {
                    let view: Vec<(&'static str, &'static str)> = match self.screen {
                        Screen::View => match self.registry.active() {
                            Some(view) => view.hints(),
                            None => Vec::new(),
                        },
                        Screen::Menu => Vec::new(),
                    };
                    proof {
                        assert(self.screen == Screen::Menu || !self.model().has_view() ==> view.deep_view() =~= Seq::<
                            (Text, Text),
                        >::empty());
                    }
                    Footer::Hints { filter: self.filter.clone(), view }
                },
            },
        }
    }

    /// What the bottom row shows.
    pub open spec fn footer(m: AppModel<V::Model>) -> FooterText {
        match m.mode {
            Mode::Command => FooterText::Input {
                prefix: ':',
                value: m.input.text,
                cursor: input::columns(m.input.text, m.input.cursor) as usize,
            },
            Mode::Filter => FooterText::Input {
                prefix: '/',
                value: m.input.text,
                cursor: input::columns(m.input.text, m.input.cursor) as usize,
            },
            Mode::Normal => match m.status {
                Some(s) => FooterText::Status { error: s.error, text: s.text },
                None => FooterText::Hints {
                    filter: m.filter,
                    view: if m.screen == Screen::View && m.has_view() {
                        V::hint_texts(m.views[m.active])
                    } else {
                        Seq::empty()
                    },
                },
            },
        }
    }
}

// --- laws ------------------------------------------------------------------------------------

/// A request to AWS that changes something there.
pub open spec fn is_mutation(command: CommandText) -> bool {
    command matches Command::Effect { action, .. } && action::mutates(action)
}

/// Nothing changed but what the user is told or asked and what is to be done outside.
pub open spec fn only_reports<M>(m: AppModel<M>, n: AppModel<M>) -> bool {
    n == (AppModel { status: n.status, error_kind: n.error_kind, confirm: n.confirm, outbox: n.outbox, ..m })
}

/// On the way from `m` to `n` no mutation went out; consent was only asked for in the write mode,
/// which was not turned on; and nobody took back what the user is told.
pub open spec fn safely<M>(m: AppModel<M>, n: AppModel<M>) -> bool {
    &&& m.outbox.len() <= n.outbox.len()
    &&& n.outbox.take(m.outbox.len() as int) == m.outbox
    &&& forall|i: int| m.outbox.len() <= i < n.outbox.len() ==> !is_mutation(#[trigger] n.outbox[i])
    &&& n.confirm is Some ==> n.confirm == m.confirm || m.write_mode
    &&& n.write_mode ==> m.write_mode
    &&& m.status is Some ==> n.status is Some
}

proof fn lemma_safely_on<M>(a: AppModel<M>, b: AppModel<M>, c: AppModel<M>)
    requires
        safely(a, b),
        safely(b, c),
    ensures
        safely(a, c),
{
    assert(c.outbox.take(a.outbox.len() as int) =~= b.outbox.take(a.outbox.len() as int));
    assert forall|i: int| a.outbox.len() <= i < c.outbox.len() implies !is_mutation(#[trigger] c.outbox[i]) by {
        if i < b.outbox.len() {
            assert(c.outbox.take(b.outbox.len() as int)[i] == b.outbox[i]);
        }
    }
}

proof fn lemma_safely_asked<M>(m: AppModel<M>, command: CommandText)
    requires
        !is_mutation(command),
    ensures
        safely(m, m.asked(command)),
{
    assert(m.asked(command).outbox.take(m.outbox.len() as int) =~= m.outbox);
}

proof fn lemma_safely_quiet<M>(m: AppModel<M>, n: AppModel<M>)
    requires
        n.outbox == m.outbox,
        n.confirm == m.confirm,
        n.write_mode ==> m.write_mode,
        m.status is Some ==> n.status is Some,
    ensures
        safely(m, n),
{
    assert(n.outbox.take(m.outbox.len() as int) =~= m.outbox);
}

proof fn lemma_emitted<M>(m: AppModel<M>, actions: Seq<ActionText>)
    ensures
        safely(m, m.emitted(actions)),
        only_reports(m, m.emitted(actions)),
    decreases actions.len(),
{
    if actions.len() == 0 {
        lemma_safely_quiet(m, m);
    } else {
        let n = m.emitted_one(actions[0]);
        lemma_emitted_one(m, actions[0]);
        lemma_emitted(n, actions.skip(1));
        lemma_safely_on(m, n, n.emitted(actions.skip(1)));
    }
}

proof fn lemma_emitted_one<M>(m: AppModel<M>, action: ActionText)
    ensures
        safely(m, m.emitted_one(action)),
        only_reports(m, m.emitted_one(action)),
{
    if action::mutates(action) {
        assert(m.gated(action).outbox.take(m.outbox.len() as int) =~= m.outbox);
    } else {
        lemma_safely_asked(m, CommandText::Effect { action, epoch: m.epoch });
    }
}

impl<V: DeckView> App<V> {
    proof fn lemma_unfiltered(m: AppModel<V::Model>)
        ensures
            safely(m, Self::unfiltered(m)),
            Self::unfiltered(m) == (AppModel {
                views: Self::unfiltered(m).views,
                filter: Seq::empty(),
                input: m.input.cleared(),
                ..m
            }),
    {
        reveal(App::unfiltered);
        lemma_safely_quiet(m, Self::unfiltered(m));
    }

    proof fn lemma_searched(m: AppModel<V::Model>)
        ensures
            safely(m, Self::searched(m)),
            Self::searched(m).filter == m.filter,
            Self::searched(m).screen == m.screen,
            Self::searched(m).epoch == m.epoch,
            Self::searched(m).env == m.env,
            Self::searched(m).write_mode == m.write_mode,
            Self::searched(m).account == m.account,
            Self::searched(m).mode == m.mode,
            Self::searched(m).active == m.active,
            Self::searched(m).search_deadline is None,
    {
        reveal(App::searched);
        let (n, actions) = Self::stepped(
            AppModel { search_deadline: None, ..m },
            |v: V::Model| V::searched(v, m.filter),
        );
        lemma_safely_quiet(m, n);
        lemma_emitted(n, actions);
        lemma_safely_on(m, n, n.emitted(actions));
    }

    proof fn lemma_filter_dropped(m: AppModel<V::Model>)
        ensures
            safely(m, Self::filter_dropped(m)),
    {
        reveal(App::filter_dropped);
        lemma_safely_quiet(m, m);
        if m.filter.len() > 0 {
            Self::lemma_unfiltered(m);
            Self::lemma_searched(Self::unfiltered(m));
            lemma_safely_on(m, Self::unfiltered(m), Self::searched(Self::unfiltered(m)));
        }
    }

    proof fn lemma_settled(m: AppModel<V::Model>, actions: Seq<ActionText>)
        ensures
            safely(m, Self::settled(m, actions)),
            m.filter.len() == 0 ==> only_reports(m, Self::settled(m, actions)),
        decreases actions.len(),
    {
        if actions.len() == 0 {
            lemma_safely_quiet(m, m);
        } else {
            let n = if actions[0] is ClearFilter { Self::filter_dropped(m) } else { m.emitted_one(actions[0]) };
            if actions[0] is ClearFilter {
                Self::lemma_filter_dropped(m);
                if m.filter.len() == 0 {
                    reveal(App::filter_dropped);
                }
            } else {
                lemma_emitted_one(m, actions[0]);
            }
            Self::lemma_settled(n, actions.skip(1));
            lemma_safely_on(m, n, Self::settled(n, actions.skip(1)));
        }
    }

    proof fn lemma_reactivated(m: AppModel<V::Model>)
        ensures
            safely(m, Self::reactivated(m)),
            m.filter.len() == 0 ==> only_reports(
                AppModel { views: Self::reactivated(m).views, ..m },
                Self::reactivated(m),
            ),
    {
        reveal(App::reactivated);
        let (n, actions) = Self::stepped(m, |v: V::Model| V::activated(v));
        lemma_safely_quiet(m, n);
        Self::lemma_settled(n, actions);
        lemma_safely_on(m, n, Self::settled(n, actions));
    }

    proof fn lemma_failed(m: AppModel<V::Model>, text: Text)
        ensures
            safely(m, m.failed(text)),
    {
        lemma_safely_quiet(m, m.failed(text));
    }

    proof fn lemma_activated(m: AppModel<V::Model>, id: Text)
        ensures
            safely(m, Self::activated(m, id)),
    {
        reveal(App::activated);
        match Self::turned_to(m, id) {
            Some(n) => {
                let at = registry::view_from::<V>(m.views, id, 0);
                let shown = AppModel { active: at, screen: Screen::View, ..m };
                lemma_safely_quiet(m, shown);
                Self::lemma_unfiltered(shown);
                lemma_safely_on(m, shown, n);
                Self::lemma_reactivated(n);
                lemma_safely_on(m, n, Self::reactivated(n));
            },
            None => {
                Self::lemma_failed(m, unknown_text(id, registry::ids_of::<V>(m.views)));
            },
        }
    }

    proof fn lemma_activated_with(m: AppModel<V::Model>, id: Text, context: ViewContext<Text>)
        ensures
            safely(m, Self::activated_with(m, id, context)),
    {
        reveal(App::activated_with);
        match Self::turned_to(m, id) {
            Some(n) => {
                let at = registry::view_from::<V>(m.views, id, 0);
                let shown = AppModel { active: at, screen: Screen::View, ..m };
                lemma_safely_quiet(m, shown);
                Self::lemma_unfiltered(shown);
                lemma_safely_on(m, shown, n);
                let (opened, actions) = Self::stepped(n, |v: V::Model| V::opened(v, context));
                lemma_safely_quiet(n, opened);
                Self::lemma_settled(opened, actions);
                lemma_safely_on(n, opened, Self::settled(opened, actions));
                lemma_safely_on(m, n, Self::settled(opened, actions));
            },
            None => {
                Self::lemma_failed(m, unknown_text(id, registry::ids_of::<V>(m.views)));
            },
        }
    }

    proof fn lemma_homed(m: AppModel<V::Model>)
        ensures
            safely(m, Self::homed(m)),
    {
        reveal(App::homed);
        let n = AppModel { screen: Screen::Menu, ..m };
        lemma_safely_quiet(m, n);
        Self::lemma_unfiltered(n);
        lemma_safely_on(m, n, Self::unfiltered(n));
    }

    proof fn lemma_switched(m: AppModel<V::Model>, env: Env<Text>)
        ensures
            safely(m, Self::switched(m, env)),
            Self::switched(m, env).epoch == m.epoch.wrapping_add(1),
            Self::switched(m, env).env == env,
            !Self::switched(m, env).write_mode,
            Self::switched(m, env).filter.len() == 0,
            Self::switched(m, env).account is None,
            Self::switched(m, env).screen == m.screen,
            Self::switched(m, env).state == (StateModel {
                last_profile: Some(env.profile),
                last_region: Some(env.region),
                ..m.state
            }),
            Self::switched(m, env).outbox.contains(CommandText::SaveState),
    {
        reveal(App::switched);
        reveal(App::menu_clamped);
        let moved = AppModel {
            epoch: m.epoch.wrapping_add(1),
            env,
            write_mode: false,
            account: None,
            state: StateModel { last_profile: Some(env.profile), last_region: Some(env.region), ..m.state },
            ..m
        };
        lemma_safely_quiet(m, moved);
        let used = moved.asked(CommandText::UseEnv(env));
        lemma_safely_asked(moved, CommandText::UseEnv(env));
        lemma_safely_on(m, moved, used);
        let saved = used.asked(CommandText::SaveState);
        lemma_safely_asked(used, CommandText::SaveState);
        lemma_safely_on(m, used, saved);
        let sent = saved.sent(ActionText::VerifyIdentity);
        lemma_safely_asked(saved, CommandText::Effect { action: ActionText::VerifyIdentity, epoch: saved.epoch });
        lemma_safely_on(m, saved, sent);
        let ready = Self::unfiltered(sent);
        Self::lemma_unfiltered(sent);
        lemma_safely_on(m, sent, ready);
        let started = if m.screen == Screen::View { Self::reactivated(ready) } else { ready };
        Self::lemma_reactivated(ready);
        lemma_safely_quiet(ready, ready);
        lemma_safely_on(m, ready, started);
        let told = started.told("ambiente: "@ + env.caption());
        lemma_safely_quiet(started, Self::menu_clamped(told));
        lemma_safely_on(m, started, Self::menu_clamped(told));
        lemma_safely_on(sent, ready, started);
        assert(sent.outbox[m.outbox.len() as int + 1] == CommandText::SaveState);
        assert(started.outbox.take(sent.outbox.len() as int)[m.outbox.len() as int + 1] == CommandText::SaveState);
        assert(Self::switched(m, env).outbox[m.outbox.len() as int + 1] == CommandText::SaveState);
    }

    proof fn lemma_recorded(m: AppModel<V::Model>, key: Text, label: Text)
        ensures
            safely(m, Self::recorded(m, key, label)),
    {
        reveal(App::recorded);
        lemma_safely_quiet(m, m);
        if m.has_view() {
            let n = AppModel {
                state: m.state.recorded(m.env.profile, m.env.region, V::id_text(m.views[m.active]), key, label),
                ..m
            };
            lemma_safely_quiet(m, n);
            lemma_safely_asked(n, CommandText::SaveState);
            lemma_safely_on(m, n, n.asked(CommandText::SaveState));
        }
    }

    proof fn lemma_dispatched_one(m: AppModel<V::Model>, action: ActionText)
        ensures
            safely(m, Self::dispatched_one(m, action)),
    {
        match action {
            Action::Quit => {
                lemma_safely_quiet(m, Self::dispatched_one(m, action));
            },
            Action::ActivateView(id) => {
                Self::lemma_activated(m, id);
            },
            Action::ActivateViewWithContext { id, context } => {
                Self::lemma_activated_with(m, id, context);
            },
            Action::Back => {
                Self::lemma_homed(m);
            },
            Action::ClearFilter => {
                Self::lemma_filter_dropped(m);
            },
            Action::SwitchEnv(env) => {
                Self::lemma_switched(m, env);
            },
            Action::CopyToClipboard { text } => {
                lemma_safely_asked(m, CommandText::Copy { text });
            },
            Action::RecordRecent { key, label } => {
                Self::lemma_recorded(m, key, label);
            },
            _ => {
                lemma_emitted_one(m, action);
            },
        }
    }

    proof fn lemma_dispatched(m: AppModel<V::Model>, actions: Seq<ActionText>)
        ensures
            safely(m, Self::dispatched(m, actions)),
        decreases actions.len(),
    {
        if actions.len() == 0 {
            lemma_safely_quiet(m, m);
        } else {
            let n = Self::dispatched_one(m, actions[0]);
            Self::lemma_dispatched_one(m, actions[0]);
            Self::lemma_dispatched(n, actions.skip(1));
            lemma_safely_on(m, n, Self::dispatched(n, actions.skip(1)));
        }
    }

    proof fn lemma_view_keyed(m: AppModel<V::Model>, key: KeyEvent)
        ensures
            safely(m, Self::view_keyed(m, key)),
    {
        reveal(App::view_keyed);
        let (n, actions) = Self::stepped(m, |v: V::Model| V::keyed(v, key));
        lemma_safely_quiet(m, n);
        Self::lemma_dispatched(n, actions);
        lemma_safely_on(m, n, Self::dispatched(n, actions));
    }

    proof fn lemma_menu_keyed(m: AppModel<V::Model>, key: KeyEvent)
        requires
            key.code != KeyCode::Esc,
        ensures
            safely(m, Self::menu_keyed(m, key)),
    {
        reveal(App::menu_keyed);
        reveal(App::menu_opened);
        lemma_safely_quiet(m, m);
        lemma_safely_asked(m, CommandText::ListProfiles);
        match key.code {
            KeyCode::Char('e') => {},
            KeyCode::Enter => {
                let rows = Self::menu_rows_of(m);
                if let Some(i) = m.menu {
                    if i < rows.len() {
                        match rows[i as int] {
                            MenuRow::Tool { id, .. } => {
                                Self::lemma_activated(m, id);
                            },
                            MenuRow::Remembered(f) => {
                                Self::lemma_activated_with(m, f.view_id, ViewContext::Favorite { key: f.key });
                            },
                        }
                    }
                }
            },
            _ => {
                lemma_safely_quiet(m, Self::menu_keyed(m, key));
            },
        }
    }

    proof fn lemma_starred(m: AppModel<V::Model>)
        ensures
            safely(m, Self::starred(m)),
    {
        reveal(App::starred);
        lemma_safely_quiet(m, m);
        if m.has_view() {
            if let Some((key, label)) = V::favorite(m.views[m.active]) {
                let id = V::id_text(m.views[m.active]);
                let n = AppModel { state: m.state.toggled(m.env.profile, m.env.region, id, key, label), ..m };
                lemma_safely_quiet(m, n);
                lemma_safely_asked(n, CommandText::SaveState);
                lemma_safely_on(m, n, n.asked(CommandText::SaveState));
                lemma_safely_quiet(n.asked(CommandText::SaveState), Self::starred(m));
                lemma_safely_on(m, n.asked(CommandText::SaveState), Self::starred(m));
            }
        }
    }

    proof fn lemma_normal_keyed(m: AppModel<V::Model>, key: KeyEvent)
        requires
            key.code == KeyCode::Esc ==> !m.erring(),
        ensures
            safely(m, Self::normal_keyed(m, key)),
    {
        reveal(App::normal_keyed);
        lemma_safely_asked(m, CommandText::ListProfiles);
        Self::lemma_view_keyed(m, key);
        match key.code {
            KeyCode::Char('q') | KeyCode::Char(':') | KeyCode::Char('/') | KeyCode::Char('?') => {
                lemma_safely_quiet(m, Self::normal_keyed(m, key));
            },
            KeyCode::Char('*') => {
                Self::lemma_starred(m);
            },
            KeyCode::Backspace => {
                Self::lemma_homed(m);
            },
            KeyCode::Esc => {
                if m.filter.len() > 0 {
                    let n = Self::searched(Self::unfiltered(m));
                    Self::lemma_unfiltered(m);
                    Self::lemma_searched(Self::unfiltered(m));
                    lemma_safely_on(m, Self::unfiltered(m), n);
                    lemma_safely_quiet(n, n.told("filtro limpiado"@));
                    lemma_safely_on(m, n, n.told("filtro limpiado"@));
                }
            },
            _ => {},
        }
    }

    proof fn lemma_defaulted(m: AppModel<V::Model>, asked: Text)
        ensures
            safely(m, Self::defaulted(m, asked)),
            Self::defaulted(m, asked).confirm == m.confirm,
    {
        reveal(App::defaulted);
        let (key, value) = text::word_and_rest(asked);
        if !settings::is_default_key(key) || value.len() == 0 {
            Self::lemma_failed(
                m,
                "uso: :set <clave> <valor>  (default_profile · default_region · default_tail_window)"@,
            );
        } else {
            let n = m.asked(CommandText::SetDefault { key, value });
            lemma_safely_asked(m, CommandText::SetDefault { key, value });
            lemma_safely_quiet(n, Self::defaulted(m, asked));
            lemma_safely_on(m, n, Self::defaulted(m, asked));
        }
    }

    /// A command never lets a mutation out, and never asks for consent outside the write mode.
    proof fn lemma_commanded(m: AppModel<V::Model>, cmd: Text)
        requires
            m.confirm is None,
        ensures
            safely(AppModel { write_mode: true, ..m }, Self::commanded(m, cmd)),
            !m.write_mode ==> Self::commanded(m, cmd).confirm is None,
    {
        reveal(App::commanded);
        let open = AppModel { write_mode: true, ..m };
        lemma_safely_quiet(open, m);
        if cmd == ""@ {
        } else if cmd == "q"@ || cmd == "quit"@ || cmd == "w"@ || cmd == "write"@ {
            lemma_safely_quiet(open, Self::commanded(m, cmd));
        } else if cmd == "menu"@ || cmd == "home"@ {
            Self::lemma_homed(m);
            lemma_safely_on(open, m, Self::homed(m));
        } else if cmd == "region"@ || text::has_prefix(cmd, "region "@) {
            let code = text::trimmed(cmd.skip("region"@.len() as int));
            if code.len() == 0 {
                let said = "uso: :region <código>  (p. ej. :region eu-west-1)"@;
                Self::lemma_failed(m, said);
                lemma_safely_on(open, m, m.failed(said));
            } else {
                let env = Env { profile: m.env.profile, region: code };
                Self::lemma_switched(m, env);
                lemma_safely_on(open, m, Self::switched(m, env));
            }
        } else if text::word_and_rest(cmd).0 == "set"@ {
            Self::lemma_defaulted(m, text::word_and_rest(cmd).1);
            lemma_safely_on(open, m, Self::commanded(m, cmd));
        } else {
            let (n, actions) = Self::stepped(m, |v: V::Model| V::commanded(v, cmd));
            lemma_safely_quiet(m, n);
            if actions.len() == 0 {
                Self::lemma_activated(n, cmd);
                lemma_safely_on(m, n, Self::activated(n, cmd));
                lemma_safely_on(open, m, Self::activated(n, cmd));
            } else {
                Self::lemma_dispatched(n, actions);
                lemma_safely_on(m, n, Self::dispatched(n, actions));
                lemma_safely_on(open, m, Self::dispatched(n, actions));
            }
        }
    }

    proof fn lemma_filter_keyed(m: AppModel<V::Model>, key: KeyEvent)
        ensures
            safely(m, Self::filter_keyed(m, key)),
    {
        reveal(App::filter_keyed);
        reveal(App::filter_applied);
        match key.code {
            KeyCode::Esc => {
                reveal(App::filter_cancelled);
                let n = Self::filter_applied(AppModel { input: m.input.cleared(), ..m });
                lemma_safely_quiet(m, n);
                Self::lemma_searched(n);
                lemma_safely_on(m, n, Self::searched(n));
                lemma_safely_quiet(Self::searched(n), Self::filter_cancelled(m));
                lemma_safely_on(m, Self::searched(n), Self::filter_cancelled(m));
            },
            KeyCode::Enter => {
                reveal(App::filter_committed);
                Self::lemma_searched(m);
                let n = AppModel { mode: Mode::Normal, ..Self::searched(m) };
                lemma_safely_quiet(Self::searched(m), n);
                lemma_safely_on(m, Self::searched(m), n);
                Self::lemma_view_keyed(n, key);
                lemma_safely_on(m, n, Self::view_keyed(n, key));
            },
            KeyCode::Up | KeyCode::Down => {
                Self::lemma_view_keyed(m, key);
            },
            _ => {
                reveal(App::filter_edited);
                let n = AppModel {
                    search_deadline: Some(SEARCH_DELAY),
                    ..Self::filter_applied(AppModel { input: input::pressed(m.input, key), ..m })
                };
                lemma_safely_quiet(m, n);
                lemma_safely_asked(n, CommandText::ScheduleSearch);
                lemma_safely_on(m, n, n.asked(CommandText::ScheduleSearch));
            },
        }
    }

    proof fn lemma_picker_keyed(m: AppModel<V::Model>, key: KeyEvent)
        ensures
            safely(m, Self::picker_keyed(m, key)),
    {
        reveal(App::picker_keyed);
        lemma_safely_quiet(m, m);
        if let Some(p) = m.picker {
            match key.code {
                KeyCode::Enter => {
                    if let Some(env) = p.env(m.env) {
                        let n = AppModel { picker: None, awaiting_startup_env: false, ..m };
                        lemma_safely_quiet(m, n);
                        Self::lemma_switched(n, env);
                        lemma_safely_on(m, n, Self::switched(n, env));
                    }
                },
                _ => {
                    lemma_safely_quiet(m, Self::picker_keyed(m, key));
                },
            }
        }
    }

    proof fn lemma_keyed(m: AppModel<V::Model>, key: KeyEvent)
        requires
            m.confirm is None,
        ensures
            safely(AppModel { status: None, write_mode: true, ..m }, Self::keyed(m, key)),
            !m.write_mode ==> Self::keyed(m, key).confirm is None,
            m.erring() && key.code != KeyCode::Esc ==> Self::keyed(m, key).status is Some,
    {
        let open = AppModel { status: None, write_mode: true, ..m };
        let n = if m.erring() { m } else { AppModel { status: None, ..m } };
        lemma_safely_quiet(open, n);
        let end = Self::keyed(m, key);
        if n.picker is Some {
            Self::lemma_picker_keyed(n, key);
            lemma_safely_on(open, n, end);
        } else if n.show_help {
            lemma_safely_quiet(open, end);
        } else {
            match n.mode {
                Mode::Command => {
                    reveal(App::command_keyed);
                    match key.code {
                        KeyCode::Enter => {
                            let left = Self::left_input(n);
                            let cmd = text::trimmed(n.input.text);
                            Self::lemma_commanded(left, cmd);
                            lemma_safely_quiet(open, AppModel { write_mode: true, ..left });
                            lemma_safely_on(open, AppModel { write_mode: true, ..left }, end);
                        },
                        _ => {
                            lemma_safely_quiet(open, end);
                        },
                    }
                },
                Mode::Filter => {
                    Self::lemma_filter_keyed(n, key);
                    lemma_safely_on(open, n, end);
                },
                Mode::Normal => match n.screen {
                    Screen::Menu => {
                        if key.code == KeyCode::Esc {
                            reveal(App::menu_keyed);
                            lemma_safely_quiet(open, end);
                        } else {
                            Self::lemma_menu_keyed(n, key);
                            lemma_safely_on(open, n, end);
                        }
                    },
                    Screen::View => {
                        if n.has_view() && V::takes_raw_input(n.views[n.active]) {
                            Self::lemma_view_keyed(n, key);
                            lemma_safely_on(open, n, end);
                        } else if key.code == KeyCode::Esc && n.erring() {
                            reveal(App::normal_keyed);
                            lemma_safely_quiet(open, end);
                        } else {
                            Self::lemma_normal_keyed(n, key);
                            lemma_safely_on(open, n, end);
                        }
                    },
                },
            }
        }
    }

    /// No key lets a mutation out while no consent is being asked for, and no key asks for consent
    /// outside the write mode.
    pub proof fn law_mutations_need_consent(m: AppModel<V::Model>, key: KeyEvent)
        requires
            m.confirm is None,
        ensures
            forall|i: int|
                m.outbox.len() <= i < Self::keyed(m, key).outbox.len() ==> !is_mutation(
                    #[trigger] Self::keyed(m, key).outbox[i],
                ),
            !m.write_mode ==> Self::keyed(m, key).confirm is None,
    {
        Self::lemma_keyed(m, key);
    }

    /// While consent is being asked for, a key lets out the action in question, unchanged, where it
    /// consents, and nothing otherwise; every key that answers closes the question.
    pub proof fn law_consent_lets_out_what_was_asked(m: AppModel<V::Model>, key: KeyEvent)
        requires
            m.confirm is Some,
        ensures
            Self::keyed(m, key).outbox == (if key.code == KeyCode::Char('y') || key.code == KeyCode::Enter {
                m.outbox.push(CommandText::Effect { action: (m.confirm->0).action, epoch: m.epoch })
            } else {
                m.outbox
            }),
            Self::keyed(m, key).confirm is None <==> (key.code == KeyCode::Char('y') || key.code == KeyCode::Enter
                || key.code == KeyCode::Char('n') || key.code == KeyCode::Esc),
            Self::keyed(m, key).should_quit == m.should_quit,
            Self::keyed(m, key).views == m.views,
    {
        reveal(App::confirm_keyed);
    }

    /// Neither an answer nor the passing of time lets a mutation out, and neither asks for consent
    /// outside the write mode.
    pub proof fn law_mutations_come_from_keys_only(m: AppModel<V::Model>, envelope: Envelope)
        ensures
            forall|i: int|
                m.outbox.len() <= i < Self::answered(m, envelope).outbox.len() ==> !is_mutation(
                    #[trigger] Self::answered(m, envelope).outbox[i],
                ),
            Self::answered(m, envelope).confirm == m.confirm,
            forall|i: int|
                m.outbox.len() <= i < Self::ticked(m).outbox.len() ==> !is_mutation(
                    #[trigger] Self::ticked(m).outbox[i],
                ),
            !m.write_mode ==> Self::ticked(m).confirm == m.confirm,
    {
        reveal(App::reported);
        lemma_safely_quiet(m, m);
        let (n, actions) = Self::stepped(m, |v: V::Model| V::ticked(v));
        lemma_safely_quiet(m, n);
        Self::lemma_dispatched(n, actions);
        lemma_safely_on(m, n, Self::dispatched(n, actions));
        if m.confirm is Some {
            assert(Self::ticked(m) == m);
        }
    }

    /// An answer to a request of an earlier environment changes nothing.
    pub proof fn law_stale_answers_change_nothing(m: AppModel<V::Model>, envelope: Envelope)
        requires
            envelope.epoch != m.epoch,
        ensures
            Self::answered(m, envelope) == m,
    {
    }

    /// After a change of environment no answer to an earlier request counts, the write mode is off,
    /// no filter is left, and the account is unknown until it is confirmed.
    pub proof fn law_changing_the_environment(m: AppModel<V::Model>, env: Env<Text>, envelope: Envelope)
        ensures
            Self::switched(m, env).env == env,
            Self::switched(m, env).epoch != m.epoch,
            !Self::switched(m, env).write_mode,
            Self::switched(m, env).filter.len() == 0,
            Self::switched(m, env).account is None,
            envelope.epoch == m.epoch ==> Self::answered(Self::switched(m, env), envelope) == Self::switched(m, env),
    {
        Self::lemma_switched(m, env);
    }

    /// An error on screen outlasts every key but `Esc`, unless other news takes its place.
    pub proof fn law_errors_stay(m: AppModel<V::Model>, key: KeyEvent)
        requires
            m.erring(),
            key.code != KeyCode::Esc,
        ensures
            Self::keyed(m, key).status is Some,
    {
        if m.confirm is None {
            Self::lemma_keyed(m, key);
        } else {
            reveal(App::confirm_keyed);
        }
    }

    /// An answer that is no error takes an error off the screen; an error takes its place there,
    /// with its class.
    pub proof fn law_answers_and_errors(m: AppModel<V::Model>, envelope: Envelope)
        requires
            envelope.epoch == m.epoch,
        ensures
            !(envelope.message is Error) ==> !Self::answered(m, envelope).erring() && Self::answered(
                m,
                envelope,
            ).error_kind is None,
            envelope.message matches Message::Error { kind, detail } ==> {
                &&& Self::answered(m, envelope).status == Some(StatusLine { error: true, text: detail@ })
                &&& Self::answered(m, envelope).error_kind == Some(kind)
            },
    {
        reveal(App::reported);
    }

    /// `Esc` in a view goes by stages: it dismisses an error, else it drops the filter, and only
    /// without either does the view hear of it.
    pub proof fn law_esc_goes_by_stages(m: AppModel<V::Model>, key: KeyEvent)
        requires
            key.code == KeyCode::Esc,
            m.confirm is None,
            m.picker is None,
            !m.show_help,
            m.mode == Mode::Normal,
            m.screen == Screen::View,
            m.has_view() ==> !V::takes_raw_input(m.views[m.active]),
        ensures
            m.erring() ==> Self::keyed(m, key) == m.calmed(),
            !m.erring() && m.filter.len() > 0 ==> {
                &&& Self::keyed(m, key).filter.len() == 0
                &&& Self::keyed(m, key).screen == Screen::View
                &&& Self::keyed(m, key) == Self::searched(
                    Self::unfiltered(AppModel { status: None, ..m }),
                ).told("filtro limpiado"@)
            },
            !m.erring() && m.filter.len() == 0 ==> Self::keyed(m, key) == Self::view_keyed(
                AppModel { status: None, ..m },
                key,
            ),
    {
        reveal(App::normal_keyed);
        let n = AppModel { status: None, ..m };
        Self::lemma_unfiltered(n);
        Self::lemma_searched(Self::unfiltered(n));
    }

    /// A view that takes text input gets every key, with nothing over it on screen.
    pub proof fn law_raw_input_gets_every_key(m: AppModel<V::Model>, key: KeyEvent)
        requires
            m.has_view(),
            V::takes_raw_input(m.views[m.active]),
            m.confirm is None,
            m.picker is None,
            !m.show_help,
            m.mode == Mode::Normal,
            m.screen == Screen::View,
        ensures
            Self::keyed(m, key) == Self::view_keyed(if m.erring() { m } else { AppModel { status: None, ..m } }, key),
    {
    }

    /// A view that goes to another level leaves no filter behind, and neither does a view that is
    /// activated.
    pub proof fn law_filters_are_not_carried_along(m: AppModel<V::Model>, id: Text)
        ensures
            Self::dispatched_one(m, ActionText::ClearFilter).filter.len() == 0,
            registry::view_from::<V>(m.views, id, 0) < m.views.len() ==> Self::activated(m, id).filter.len() == 0
                && Self::activated(m, id).screen == Screen::View,
            Self::homed(m).filter.len() == 0,
    {
        reveal(App::filter_dropped);
        reveal(App::activated);
        reveal(App::homed);
        Self::lemma_unfiltered(m);
        Self::lemma_searched(Self::unfiltered(m));
        Self::lemma_unfiltered(AppModel { screen: Screen::Menu, ..m });
        let at = registry::view_from::<V>(m.views, id, 0);
        let shown = AppModel { active: at, screen: Screen::View, ..m };
        Self::lemma_unfiltered(shown);
        Self::lemma_reactivated(Self::unfiltered(shown));
    }

    /// An arrow in the filter mode moves in the view and leaves the line, the mode and the pending
    /// search as they are, where the view asks for nothing.
    pub proof fn law_arrows_keep_the_filter_open(m: AppModel<V::Model>, key: KeyEvent)
        requires
            key.code == KeyCode::Up || key.code == KeyCode::Down,
            m.mode == Mode::Filter,
            m.confirm is None,
            m.picker is None,
            !m.show_help,
            m.has_view() ==> V::keyed(m.views[m.active], key).1.len() == 0,
        ensures
            Self::keyed(m, key) == (AppModel {
                status: if m.erring() { m.status } else { None },
                views: Self::keyed(m, key).views,
                ..m
            }),
    {
        reveal(App::filter_keyed);
        reveal(App::view_keyed);
    }

    /// A key that the view answers with nothing, such as one that moves the selection, leaves an
    /// error on screen as it is, and everything else of the application too.
    pub proof fn law_moving_keeps_the_error(m: AppModel<V::Model>, key: KeyEvent)
        requires
            m.erring(),
            m.confirm is None,
            m.picker is None,
            !m.show_help,
            m.mode == Mode::Normal,
            m.screen == Screen::View,
            m.has_view(),
            !V::takes_raw_input(m.views[m.active]),
            key.code == KeyCode::Up || key.code == KeyCode::Down || key.code == KeyCode::Home || key.code
                == KeyCode::End || key.code == KeyCode::Char('j') || key.code == KeyCode::Char('k'),
            V::keyed(m.views[m.active], key).1.len() == 0,
        ensures
            Self::keyed(m, key) == (AppModel { views: Self::keyed(m, key).views, ..m }),
    {
        reveal(App::normal_keyed);
        reveal(App::view_keyed);
    }

    /// Whatever changes what is remembered asks for it to be written down at once.
    pub proof fn law_what_is_remembered_is_saved(m: AppModel<V::Model>, key: Text, label: Text, env: Env<Text>)
        ensures
            Self::starred(m).state != m.state ==> Self::starred(m).outbox == m.outbox.push(CommandText::SaveState),
            Self::recorded(m, key, label).state != m.state ==> Self::recorded(m, key, label).outbox == m.outbox.push(
                CommandText::SaveState,
            ),
            Self::switched(m, env).outbox.contains(CommandText::SaveState),
            Self::switched(m, env).state == (StateModel {
                last_profile: Some(env.profile),
                last_region: Some(env.region),
                ..m.state
            }),
    {
        reveal(App::starred);
        reveal(App::recorded);
        Self::lemma_switched(m, env);
    }

    /// `:region` goes to another region with the same profile.
    pub proof fn law_region_keeps_the_profile(m: AppModel<V::Model>, code: Text)
        requires
            text::trimmed(code).len() > 0,
        ensures
            Self::commanded(m, "region "@ + code) == Self::switched(
                m,
                Env { profile: m.env.profile, region: text::trimmed(code) },
            ),
    {
        reveal(App::commanded);
        reveal_strlit("region ");
        reveal_strlit("region");
        reveal_strlit("");
        reveal_strlit("q");
        reveal_strlit("quit");
        reveal_strlit("w");
        reveal_strlit("write");
        reveal_strlit("menu");
        reveal_strlit("home");
        let cmd = "region "@ + code;
        assert(cmd[0] == 'r');
        assert("q"@[0] == 'q' && "quit"@[0] == 'q' && "w"@[0] == 'w' && "write"@[0] == 'w' && "menu"@[0] == 'm'
            && "home"@[0] == 'h');
        assert(cmd.take("region "@.len() as int) =~= "region "@);
        assert(cmd.skip("region"@.len() as int) =~= seq![' '] + code);
        assert((seq![' '] + code).skip(1) =~= code);
    }
}

// --- what the application is for ---------------------------------------------------------------

/// Nothing lies over what is on screen, and no line is under edition.
pub open spec fn is_open<M>(m: AppModel<M>) -> bool {
    m.confirm is None && m.picker is None && !m.show_help && m.mode == Mode::Normal
}

/// What the user is told does not outlast a key, unless it is an error.
pub open spec fn hushed<M>(m: AppModel<M>) -> AppModel<M> {
    if m.status matches Some(s) && s.error {
        m
    } else {
        AppModel { status: None, ..m }
    }
}

/// A question names what its action concerns: the queue, the execution or the bus, and for an event
/// its time and its resources.
pub proof fn law_questions_name_what_they_concern(head: Text, name: Text, sep: char, action: ActionText)
    requires
        !name.contains(sep),
        sep == '/' || sep == ':',
    ensures
        sep == '/' ==> (question(ActionText::PurgeQueue { queue_url: head + seq![sep] + name }) matches Some((_, body))
            && text::has_suffix(body, name)),
        sep == '/' ==> (question(ActionText::RedriveDlq { queue_url: head + seq![sep] + name }) matches Some((_, body))
            && text::has_suffix(body, name)),
        sep == ':' ==> (question(ActionText::RedriveExecution { execution_arn: head + seq![sep] + name }) matches Some(
            (_, body),
        ) && text::has_suffix(body, name)),
        action matches Action::SendEvent { event_bus_name, time, resources, .. } ==> (question(action) matches Some(
            (_, body),
        ) && text::occurs(body, event_bus_name) && (time matches Some(ms) ==> text::occurs(
            body,
            util::instant_text(ms as int),
        )) && (resources.len() > 0 ==> text::has_suffix(body, text::joined(resources, ", "@)))),
{
    reveal_strlit("");
    text::law_the_last_part_follows_the_last_separator(head, sep, name);
    lemma_suffix("se borrarán TODOS los mensajes de:\n"@, name);
    lemma_suffix("se reenviarán los mensajes a sus colas origen desde:\n"@, name);
    lemma_suffix("se relanzará desde el último estado fallido:\n"@, name);
    if let Action::SendEvent { event_bus_name, time, resources, .. } = action {
        let lead = "se publicará un evento de prueba en el bus:\n"@;
        let when = match time {
            Some(ms) => "\ntime: "@ + util::instant_text(ms as int),
            None => ""@,
        };
        let named = if resources.len() > 0 { "\nresources: "@ + text::joined(resources, ", "@) } else { ""@ };
        let body = lead + event_bus_name + when + named;
        assert(body =~= lead + event_bus_name + (when + named));
        text::lemma_occurs_between(lead, event_bus_name, when + named);
        if let Some(ms) = time {
            let shown = util::instant_text(ms as int);
            assert(body =~= lead + event_bus_name + "\ntime: "@ + shown + named);
            text::lemma_occurs_between(lead + event_bus_name + "\ntime: "@, shown, named);
        }
        if resources.len() > 0 {
            let names = text::joined(resources, ", "@);
            lemma_suffix(lead + event_bus_name + when + "\nresources: "@, names);
            assert(body =~= lead + event_bus_name + when + "\nresources: "@ + names);
        }
    }
}

proof fn lemma_suffix(head: Text, tail: Text)
    ensures
        text::has_suffix(head + tail, tail),
{
    assert((head + tail).skip((head + tail).len() - tail.len()) =~= tail);
}

/// The environment of the selected profile is that profile, in its own region where it names one
/// and else in the current one.
pub proof fn law_the_selected_profile_is_picked(p: PickerModel, current: Env<Text>, row: usize)
    requires
        p.selected == Some(row),
        row < p.profiles.len(),
    ensures
        p.env(current) matches Some(env) && env.profile == p.profiles[row as int].name && (
        p.profiles[row as int].region matches Some(region) ==> env.region == region) && (p.profiles[row as int].region
            is None ==> env.region == current.region),
{
}

proof fn lemma_profile_from(profiles: Seq<ProfileEntry<Text>>, name: Text, i: int, at: int)
    requires
        0 <= i <= at < profiles.len(),
        profiles[at].name == name,
    ensures
        i <= profile_from(profiles, name, i) <= at,
        profiles[profile_from(profiles, name, i)].name == name,
    decreases at - i,
{
    if profiles[i].name != name {
        lemma_profile_from(profiles, name, i + 1, at);
    }
}

/// The picker opens at the first profile; the one of the start at the profile that is in use, where
/// it is listed.
pub proof fn law_the_profile_in_use_is_selected(profiles: Seq<ProfileEntry<Text>>, name: Text, at: int)
    requires
        0 <= at < profiles.len() <= usize::MAX,
        profiles[at].name == name,
    ensures
        PickerModel::fresh(profiles).selected == Some(0usize),
        PickerModel::fresh(profiles).profiles == profiles,
        PickerModel::fresh(profiles).preselected(name).selected matches Some(row) && row < profiles.len()
            && profiles[row as int].name == name,
{
    lemma_profile_from(profiles, name, 0, at);
}

impl<V: DeckView> App<V> {
    /// A request that changes something on AWS is never sent as it is wanted: without the write
    /// mode it is refused with an error, and with it the user is asked about that very request.
    pub proof fn law_mutations_wait(m: AppModel<V::Model>, action: ActionText)
        requires
            action is PurgeQueue || action is RedriveDlq || action is RedriveExecution || action is SendEvent,
        ensures
            ({
                let n = Self::dispatched_one(m, action);
                &&& n.outbox == m.outbox
                &&& !m.write_mode ==> n.confirm == m.confirm && n.erring()
                &&& m.write_mode ==> (n.confirm matches Some(c) && c.action == action) && n.status == m.status
                &&& n.views == m.views && n.env == m.env && n.write_mode == m.write_mode
            }),
    {
    }

    /// Any other request is sent at once, as it is, with the epoch of the environment.
    pub proof fn law_other_requests_are_sent(m: AppModel<V::Model>, action: ActionText)
        requires
            action::leaves_app(action),
            !(action is PurgeQueue || action is RedriveDlq || action is RedriveExecution || action is SendEvent),
        ensures
            Self::dispatched_one(m, action) == (AppModel {
                outbox: m.outbox.push(CommandText::Effect { action, epoch: m.epoch }),
                ..m
            }),
    {
    }

    /// What concerns the application itself is carried out: quitting, copying, going home.
    pub proof fn law_own_actions_are_carried_out(m: AppModel<V::Model>, copied: Text)
        ensures
            Self::dispatched_one(m, ActionText::Quit) == (AppModel { should_quit: true, ..m }),
            Self::dispatched_one(m, ActionText::CopyToClipboard { text: copied }) == (AppModel {
                outbox: m.outbox.push(CommandText::Copy { text: copied }),
                ..m
            }),
            Self::dispatched_one(m, ActionText::Back).screen == Screen::Menu,
            Self::dispatched_one(m, ActionText::Back).outbox == m.outbox,
    {
        reveal(App::homed);
        Self::lemma_unfiltered(AppModel { screen: Screen::Menu, ..m });
        reveal(App::unfiltered);
    }

    proof fn lemma_view_from(views: Seq<V::Model>, id: Text, i: int, at: int)
        requires
            0 <= i <= at < views.len(),
            V::id_text(views[at]) == id,
            forall|k: int| i <= k < at ==> V::id_text(#[trigger] views[k]) != id,
        ensures
            registry::view_from::<V>(views, id, i) == at,
        decreases at - i,
    {
        if i < at {
            Self::lemma_view_from(views, id, i + 1, at);
        }
    }

    proof fn lemma_no_view_from(views: Seq<V::Model>, id: Text, i: int)
        requires
            0 <= i,
            forall|k: int| i <= k < views.len() ==> V::id_text(#[trigger] views[k]) != id,
        ensures
            registry::view_from::<V>(views, id, i) >= views.len(),
        decreases views.len() - i,
    {
        if i < views.len() {
            Self::lemma_no_view_from(views, id, i + 1);
        }
    }

    /// Activating a view by its id shows that view, and nothing else where there is none: then the
    /// user is told which ids there are.
    pub proof fn law_views_are_activated_by_their_id(m: AppModel<V::Model>, id: Text, at: int)
        ensures
            0 <= at < m.views.len() && V::id_text(m.views[at]) == id && (forall|k: int|
                0 <= k < at ==> V::id_text(#[trigger] m.views[k]) != id) ==> ({
                let n = Self::activated(m, id);
                n.active == at && n.screen == Screen::View && n.filter.len() == 0 && n.env == m.env
            }),
            (forall|k: int| 0 <= k < m.views.len() ==> V::id_text(#[trigger] m.views[k]) != id) ==> ({
                let n = Self::activated(m, id);
                n.erring() && n.screen == m.screen && n.active == m.active && n.views == m.views && n.outbox == m.outbox
            }),
    {
        reveal(App::activated);
        if 0 <= at < m.views.len() && V::id_text(m.views[at]) == id && (forall|k: int|
            0 <= k < at ==> V::id_text(#[trigger] m.views[k]) != id) {
            Self::lemma_view_from(m.views, id, 0, at);
            let shown = AppModel { active: at, screen: Screen::View, ..m };
            Self::lemma_unfiltered(shown);
            Self::lemma_reactivated(Self::unfiltered(shown));
            Self::lemma_reactivated_keeps(Self::unfiltered(shown));
            reveal(App::unfiltered);
        }
        if forall|k: int| 0 <= k < m.views.len() ==> V::id_text(#[trigger] m.views[k]) != id {
            Self::lemma_no_view_from(m.views, id, 0);
        }
    }

    proof fn lemma_settled_keeps(m: AppModel<V::Model>, actions: Seq<ActionText>)
        ensures
            Self::settled(m, actions).active == m.active,
            Self::settled(m, actions).screen == m.screen,
            Self::settled(m, actions).env == m.env,
        decreases actions.len(),
    {
        if actions.len() > 0 {
            let n = if actions[0] is ClearFilter { Self::filter_dropped(m) } else { m.emitted_one(actions[0]) };
            if actions[0] is ClearFilter {
                reveal(App::filter_dropped);
                reveal(App::searched);
                reveal(App::unfiltered);
                let u = Self::unfiltered(m);
                let (s, asked) = Self::stepped(
                    AppModel { search_deadline: None, ..u },
                    |v: V::Model| V::searched(v, u.filter),
                );
                lemma_emitted(s, asked);
            }
            Self::lemma_settled_keeps(n, actions.skip(1));
        }
    }

    proof fn lemma_reactivated_keeps(m: AppModel<V::Model>)
        ensures
            Self::reactivated(m).active == m.active,
            Self::reactivated(m).screen == m.screen,
            Self::reactivated(m).env == m.env,
    {
        reveal(App::reactivated);
        let (n, actions) = Self::stepped(m, |v: V::Model| V::activated(v));
        Self::lemma_settled_keeps(n, actions);
    }

    /// A view that asks for one request as it is activated gets it sent, with the epoch of the
    /// environment.
    pub proof fn law_activation_loads_the_view(m: AppModel<V::Model>, id: Text, at: int, request: ActionText)
        requires
            0 <= at < m.views.len(),
            V::id_text(m.views[at]) == id,
            forall|k: int| 0 <= k < at ==> V::id_text(#[trigger] m.views[k]) != id,
            V::activated(V::narrowed(m.views[at], ""@)).1 == seq![request],
            action::leaves_app(request),
            !action::mutates(request),
        ensures
            Self::activated(m, id).outbox == m.outbox.push(CommandText::Effect { action: request, epoch: m.epoch }),
            Self::activated(m, id).views == m.views.update(at, V::activated(V::narrowed(m.views[at], ""@)).0),
    {
        reveal(App::activated);
        reveal(App::reactivated);
        reveal(App::unfiltered);
        Self::lemma_view_from(m.views, id, 0, at);
        let n = Self::unfiltered(AppModel { active: at, screen: Screen::View, ..m });
        let (stepped, actions) = Self::stepped(n, |v: V::Model| V::activated(v));
        assert(actions.skip(1) =~= Seq::empty());
        assert(Self::settled(stepped.emitted_one(request), Seq::empty()) == stepped.emitted_one(request));
        assert(stepped.views =~= m.views.update(at, V::activated(V::narrowed(m.views[at], ""@)).0));
    }

    /// A view that is opened with a context, such as a favourite, starts from that context.
    pub proof fn law_contexts_are_handed_on(
        m: AppModel<V::Model>,
        id: Text,
        at: int,
        context: ViewContext<Text>,
        request: ActionText,
    )
        requires
            0 <= at < m.views.len(),
            V::id_text(m.views[at]) == id,
            forall|k: int| 0 <= k < at ==> V::id_text(#[trigger] m.views[k]) != id,
            V::opened(V::narrowed(m.views[at], ""@), context).1 == seq![request],
            action::leaves_app(request),
            !action::mutates(request),
        ensures
            ({
                let n = Self::dispatched_one(m, ActionText::ActivateViewWithContext { id, context });
                &&& n.active == at && n.screen == Screen::View
                &&& n.views == m.views.update(at, V::opened(V::narrowed(m.views[at], ""@), context).0)
                &&& n.outbox == m.outbox.push(CommandText::Effect { action: request, epoch: m.epoch })
            }),
    {
        reveal(App::activated_with);
        reveal(App::unfiltered);
        Self::lemma_view_from(m.views, id, 0, at);
        let n = Self::unfiltered(AppModel { active: at, screen: Screen::View, ..m });
        let (stepped, actions) = Self::stepped(n, |v: V::Model| V::opened(v, context));
        assert(actions.skip(1) =~= Seq::empty());
        assert(Self::settled(stepped.emitted_one(request), Seq::empty()) == stepped.emitted_one(request));
        assert(stepped.views =~= m.views.update(at, V::opened(V::narrowed(m.views[at], ""@), context).0));
    }

    /// The menu lists the views in their order, then the favourites of the environment, then its
    /// recent resources.
    pub proof fn law_the_menu_lists_everything(m: AppModel<V::Model>, i: int)
        ensures
            ({
                let rows = Self::menu_rows_of(m);
                let all = m.state.favorites(m.env.profile, m.env.region);
                let marked = all.filter(|f: FavoriteText| f.is_favorite);
                let recent = all.filter(|f: FavoriteText| !f.is_favorite);
                let n = m.views.len();
                &&& rows.len() == n + marked.len() + recent.len()
                &&& 0 <= i < n ==> rows[i] == (MenuRow::<Text>::Tool {
                    id: V::id_text(m.views[i]),
                    description: V::description_text(m.views[i]),
                })
                &&& 0 <= i < marked.len() ==> rows[n + i] == MenuRow::Remembered(marked[i])
                &&& 0 <= i < recent.len() ==> rows[n + marked.len() + i] == MenuRow::Remembered(recent[i])
            }),
    {
        let all = m.state.favorites(m.env.profile, m.env.region);
        let p = |f: FavoriteText| f.is_favorite;
        let q = |f: FavoriteText| !f.is_favorite;
        lemma_same_filter(all, |f: FavoriteText| f.is_favorite == true, p);
        lemma_same_filter(all, |f: FavoriteText| f.is_favorite == false, q);
    }

    /// `Enter` in the menu opens the row that is selected: the view that it names, or the resource
    /// that it remembers.
    pub proof fn law_the_menu_opens_its_rows(m: AppModel<V::Model>, key: KeyEvent, row: usize)
        requires
            is_open(m),
            m.screen == Screen::Menu,
            key.code == KeyCode::Enter,
            m.menu == Some(row),
            row < Self::menu_rows_of(m).len(),
        ensures
            match Self::menu_rows_of(m)[row as int] {
                MenuRow::Tool { id, .. } => Self::keyed(m, key) == Self::activated(hushed(m), id),
                MenuRow::Remembered(f) => Self::keyed(m, key) == Self::dispatched_one(
                    hushed(m),
                    ActionText::ActivateViewWithContext {
                        id: f.view_id,
                        context: ViewContext::Favorite { key: f.key },
                    },
                ),
            },
    {
        reveal(App::menu_keyed);
        reveal(App::menu_opened);
        assert(Self::menu_rows_of(hushed(m)) == Self::menu_rows_of(m));
    }

    /// Keys of the menu: `q` quits, `:` opens the command line, `?` the help, `ctrl-e` the profiles;
    /// `j` and `k` move to the neighbouring row, `g` and `G` to the ends.
    pub proof fn law_keys_of_the_menu(m: AppModel<V::Model>, key: KeyEvent, row: usize)
        requires
            is_open(m),
            m.screen == Screen::Menu,
            m.menu == Some(row),
            row < Self::menu_rows_of(m).len() <= usize::MAX,
        ensures
            ({
                let n = Self::keyed(m, key);
                let len = Self::menu_rows_of(m).len();
                &&& key.code == KeyCode::Char('q') ==> n == (AppModel { should_quit: true, ..hushed(m) })
                &&& key.code == KeyCode::Char(':') ==> n.mode == Mode::Command && n.input.text.len() == 0
                &&& key.code == KeyCode::Char('?') ==> n == (AppModel { show_help: true, ..hushed(m) })
                &&& key.code == KeyCode::Char('e') && key.modifiers.has_control() ==> n.outbox == m.outbox.push(
                    CommandText::ListProfiles,
                )
                &&& key.code == KeyCode::Char('j') || key.code == KeyCode::Down ==> n.menu == Some(
                    (if row + 1 < len { row + 1 } else { row as int }) as usize,
                )
                &&& key.code == KeyCode::Char('k') || key.code == KeyCode::Up ==> n.menu == Some(
                    (if row > 0 { row - 1 } else { 0 }) as usize,
                )
                &&& key.code == KeyCode::Char('g') || key.code == KeyCode::Home ==> n.menu == Some(0usize)
                &&& key.code == KeyCode::Char('G') || key.code == KeyCode::End ==> n.menu == Some((len - 1) as usize)
            }),
    {
        reveal(App::menu_keyed);
        assert(Self::menu_rows_of(hushed(m)) == Self::menu_rows_of(m));
    }

    /// Keys over a view: `q` quits, `:` opens the command line, `/` the filter as it stands, `?` the
    /// help, `ctrl-e` the profiles, and the backspace goes back to the menu.
    pub proof fn law_keys_over_a_view(m: AppModel<V::Model>, key: KeyEvent)
        requires
            is_open(m),
            m.screen == Screen::View,
            m.has_view() ==> !V::takes_raw_input(m.views[m.active]),
        ensures
            ({
                let n = Self::keyed(m, key);
                &&& key.code == KeyCode::Char('q') ==> n == (AppModel { should_quit: true, ..hushed(m) })
                &&& key.code == KeyCode::Char(':') ==> n.mode == Mode::Command && n.input.text.len() == 0
                &&& key.code == KeyCode::Char('/') ==> n.mode == Mode::Filter && n.input.text == m.filter
                    && n.input.cursor == m.filter.len()
                &&& key.code == KeyCode::Char('?') ==> n == (AppModel { show_help: true, ..hushed(m) })
                &&& key.code == KeyCode::Char('e') && key.modifiers.has_control() ==> n == (AppModel {
                    outbox: m.outbox.push(CommandText::ListProfiles),
                    ..hushed(m)
                })
                &&& key.code == KeyCode::Backspace ==> n.screen == Screen::Menu && n.filter.len() == 0
            }),
    {
        reveal(App::normal_keyed);
        reveal(App::homed);
        reveal(App::unfiltered);
    }

    /// A key that the application has no use for goes to the view, and what the view asks for is
    /// carried out: a request is sent, a mutation waits.
    pub proof fn law_other_keys_go_to_the_view(m: AppModel<V::Model>, key: KeyEvent, wanted: ActionText)
        requires
            is_open(m),
            m.screen == Screen::View,
            m.has_view(),
            !V::takes_raw_input(m.views[m.active]),
            key.code == KeyCode::Enter || key.code == KeyCode::Char('r') || key.code == KeyCode::Char('p') || key.code
                == KeyCode::Char('R') || key.code == KeyCode::Char('o'),
            V::keyed(m.views[m.active], key).1 == seq![wanted],
        ensures
            Self::keyed(m, key) == Self::dispatched_one(
                AppModel { views: m.views.update(m.active, V::keyed(m.views[m.active], key).0), ..hushed(m) },
                wanted,
            ),
    {
        reveal(App::normal_keyed);
        reveal(App::view_keyed);
        let (n, actions) = Self::stepped(hushed(m), |v: V::Model| V::keyed(v, key));
        assert(actions.skip(1) =~= Seq::empty());
        assert(Self::dispatched(Self::dispatched_one(n, wanted), Seq::empty()) == Self::dispatched_one(n, wanted));
    }

    /// Help goes away with any key, and nothing else happens.
    pub proof fn law_help_goes_away(m: AppModel<V::Model>, key: KeyEvent)
        requires
            m.show_help,
            m.confirm is None,
            m.picker is None,
        ensures
            Self::keyed(m, key) == (AppModel { show_help: false, ..hushed(m) }),
    {
    }

    /// `*` switches the mark of the resource that is selected in the view, in the environment that
    /// is in use, writes it down and says so.
    pub proof fn law_a_star_marks_the_selected_resource(m: AppModel<V::Model>, key: KeyEvent, resource: Text, label: Text)
        requires
            is_open(m),
            m.screen == Screen::View,
            m.has_view(),
            !V::takes_raw_input(m.views[m.active]),
            key.code == KeyCode::Char('*'),
            V::favorite(m.views[m.active]) == Some((resource, label)),
        ensures
            ({
                let n = Self::keyed(m, key);
                let id = V::id_text(m.views[m.active]);
                let before = m.state.favorites(m.env.profile, m.env.region);
                let after = n.state.favorites(m.env.profile, m.env.region);
                &&& config::is_marked(after, id, resource) == !config::is_marked(before, id, resource)
                &&& after == config::toggled(before, id, resource, label)
                &&& n.outbox == m.outbox.push(CommandText::SaveState)
                &&& n.status matches Some(s) && !s.error && text::has_suffix(s.text, label)
            }),
    {
        reveal(App::normal_keyed);
        reveal(App::starred);
        let id = V::id_text(m.views[m.active]);
        let before = m.state.favorites(m.env.profile, m.env.region);
        config::law_each_environment_has_its_own_list(
            m.state,
            m.env.profile,
            m.env.region,
            id,
            resource,
            label,
            m.env.profile,
            m.env.region,
        );
        config::law_toggling_twice(before, id, resource, label);
        lemma_suffix("favorito quitado: "@, label);
        lemma_suffix("★ favorito: "@, label);
    }

    /// A view without a selected resource has nothing to mark.
    pub proof fn law_nothing_selected_nothing_marked(m: AppModel<V::Model>, key: KeyEvent)
        requires
            is_open(m),
            m.screen == Screen::View,
            m.has_view(),
            !V::takes_raw_input(m.views[m.active]),
            key.code == KeyCode::Char('*'),
            V::favorite(m.views[m.active]) is None,
        ensures
            Self::keyed(m, key) == hushed(m),
    {
        reveal(App::normal_keyed);
        reveal(App::starred);
    }

    /// A resource that a view calls recent is remembered under that view, in the environment that is
    /// in use, and written down.
    pub proof fn law_recent_resources_are_remembered(m: AppModel<V::Model>, key: Text, label: Text)
        requires
            m.has_view(),
        ensures
            ({
                let n = Self::dispatched_one(m, ActionText::RecordRecent { key, label });
                &&& n.state.favorites(m.env.profile, m.env.region) == config::recorded(
                    m.state.favorites(m.env.profile, m.env.region),
                    V::id_text(m.views[m.active]),
                    key,
                    label,
                )
                &&& n.outbox == m.outbox.push(CommandText::SaveState)
                &&& n.views == m.views
            }),
    {
        reveal(App::recorded);
        config::law_each_environment_has_its_own_list(
            m.state,
            m.env.profile,
            m.env.region,
            V::id_text(m.views[m.active]),
            key,
            label,
            m.env.profile,
            m.env.region,
        );
    }

    /// Another environment is used from then on: requests go there, it is written down, and the
    /// account is asked for, in this order and before anything else; the user is told where they
    /// are.
    pub proof fn law_environments_are_switched(m: AppModel<V::Model>, env: Env<Text>)
        requires
            m.screen == Screen::Menu,
        ensures
            ({
                let n = Self::dispatched_one(m, ActionText::SwitchEnv(env));
                &&& n.env == env
                &&& n.outbox == m.outbox.push(CommandText::UseEnv(env)).push(CommandText::SaveState).push(
                    CommandText::Effect { action: ActionText::VerifyIdentity, epoch: n.epoch },
                )
                &&& n.epoch == m.epoch.wrapping_add(1)
                &&& n.account is None && !n.write_mode && n.filter.len() == 0
                &&& n.status matches Some(s) && !s.error && text::has_suffix(s.text, env.profile + " · "@ + env.region)
                &&& n.screen == Screen::Menu
            }),
    {
        reveal(App::switched);
        reveal(App::unfiltered);
        reveal(App::menu_clamped);
        lemma_suffix("ambiente: "@, env.caption());
    }

    /// A profile that is picked is switched to; `Esc` gives the choice up; `j` and `k` move in it.
    pub proof fn law_keys_of_the_picker(m: AppModel<V::Model>, key: KeyEvent, p: PickerModel, row: usize)
        requires
            m.confirm is None,
            m.picker == Some(p),
            p.selected == Some(row),
            row < p.profiles.len() <= usize::MAX,
        ensures
            ({
                let n = Self::keyed(m, key);
                &&& key.code == KeyCode::Enter ==> n.env.profile == p.profiles[row as int].name && n.env.region == (
                match p.profiles[row as int].region {
                    Some(region) => region,
                    None => m.env.region,
                }) && n.epoch == m.epoch.wrapping_add(1)
                &&& key.code == KeyCode::Esc ==> n == (AppModel { picker: None, awaiting_startup_env: false, ..hushed(m) })
                &&& (key.code == KeyCode::Char('j') || key.code == KeyCode::Down) && row + 1 < p.profiles.len() ==> (
                n.picker matches Some(q) && q.selected == Some((row + 1) as usize) && q.profiles == p.profiles)
                &&& (key.code == KeyCode::Char('k') || key.code == KeyCode::Up) && row > 0 ==> (n.picker matches Some(q)
                    && q.selected == Some((row - 1) as usize) && q.profiles == p.profiles)
                &&& key.code != KeyCode::Enter ==> n.env == m.env && n.outbox == m.outbox
            }),
    {
        reveal(App::picker_keyed);
        if key.code == KeyCode::Enter {
            let env = p.env(m.env)->0;
            let closed = AppModel { picker: None, awaiting_startup_env: false, ..hushed(m) };
            Self::lemma_switched(closed, env);
            reveal(App::switched);
            reveal(App::menu_clamped);
            reveal(App::unfiltered);
            let moved = AppModel {
                epoch: m.epoch.wrapping_add(1),
                env,
                write_mode: false,
                account: None,
                state: StateModel { last_profile: Some(env.profile), last_region: Some(env.region), ..m.state },
                ..closed
            };
            let ready = Self::unfiltered(
                moved.asked(CommandText::UseEnv(env)).asked(CommandText::SaveState).sent(ActionText::VerifyIdentity),
            );
            Self::lemma_reactivated_epoch(ready);
        }
    }

    proof fn lemma_settled_epoch(m: AppModel<V::Model>, actions: Seq<ActionText>)
        ensures
            Self::settled(m, actions).epoch == m.epoch,
        decreases actions.len(),
    {
        if actions.len() > 0 {
            let n = if actions[0] is ClearFilter { Self::filter_dropped(m) } else { m.emitted_one(actions[0]) };
            if actions[0] is ClearFilter {
                reveal(App::filter_dropped);
                reveal(App::searched);
                reveal(App::unfiltered);
                let u = Self::unfiltered(m);
                let (s, asked) = Self::stepped(
                    AppModel { search_deadline: None, ..u },
                    |v: V::Model| V::searched(v, u.filter),
                );
                lemma_emitted(s, asked);
            }
            Self::lemma_settled_epoch(n, actions.skip(1));
        }
    }

    proof fn lemma_reactivated_epoch(m: AppModel<V::Model>)
        ensures
            Self::reactivated(m).epoch == m.epoch,
    {
        reveal(App::reactivated);
        let (n, actions) = Self::stepped(m, |v: V::Model| V::activated(v));
        Self::lemma_settled_epoch(n, actions);
    }

    /// `:q` and `:quit` quit, `:w` and `:write` switch the write mode, `:menu` and `:home` go to the
    /// menu.
    pub proof fn law_commands_of_the_application(m: AppModel<V::Model>)
        ensures
            Self::commanded(m, "q"@) == (AppModel { should_quit: true, ..m }),
            Self::commanded(m, "quit"@) == Self::commanded(m, "q"@),
            Self::commanded(m, "write"@).write_mode == !m.write_mode,
            Self::commanded(m, "write"@).outbox == m.outbox && Self::commanded(m, "write"@).views == m.views,
            Self::commanded(m, "w"@) == Self::commanded(m, "write"@),
            Self::commanded(m, "menu"@) == Self::dispatched_one(m, ActionText::Back),
            Self::commanded(m, "home"@) == Self::dispatched_one(m, ActionText::Back),
            Self::commanded(m, ""@) == m,
    {
        reveal(App::commanded);
        reveal_strlit("");
        reveal_strlit("q");
        reveal_strlit("quit");
        reveal_strlit("w");
        reveal_strlit("write");
        reveal_strlit("menu");
        reveal_strlit("home");
        assert("q"@.len() == 1 && "quit"@.len() == 4 && "w"@.len() == 1 && "write"@.len() == 5);
        assert("q"@[0] == 'q' && "quit"@[0] == 'q' && "w"@[0] == 'w' && "write"@[0] == 'w' && "menu"@[0] == 'm'
            && "home"@[0] == 'h');
        assert(""@.len() == 0 && "menu"@.len() == 4 && "home"@.len() == 4);
        assert(Self::commanded(m, "menu"@) == Self::homed(m));
        assert(Self::commanded(m, "home"@) == Self::homed(m));
        assert(Self::dispatched_one(m, ActionText::Back) == Self::homed(m));
    }

    /// A command line that is handed in is the command without the blanks around it; `Esc` gives it
    /// up.  Either way the line is closed.
    pub proof fn law_command_lines(m: AppModel<V::Model>, key: KeyEvent)
        requires
            m.confirm is None,
            m.picker is None,
            !m.show_help,
            m.mode == Mode::Command,
        ensures
            key.code == KeyCode::Enter ==> Self::keyed(m, key) == Self::commanded(
                AppModel { input: m.input.cleared(), mode: Mode::Normal, ..hushed(m) },
                text::trimmed(m.input.text),
            ),
            key.code == KeyCode::Esc ==> Self::keyed(m, key) == (AppModel {
                input: m.input.cleared(),
                mode: Mode::Normal,
                ..hushed(m)
            }),
            input::types(key) is Some ==> Self::keyed(m, key).input == m.input.typed(input::types(key)->0)
                && Self::keyed(m, key).mode == Mode::Command,
    {
        reveal(App::command_keyed);
    }

    /// `:set` with the key of a default and a value asks for that default to be set to that value;
    /// with another key, or without a value, it is refused.
    pub proof fn law_set_sets_a_default(m: AppModel<V::Model>, key: Text, value: Text)
        requires
            value.len() > 0,
            !text::is_space(value[0]),
            !text::is_space(value.last()),
        ensures
            settings::is_default_key(key) ==> Self::commanded(m, "set "@ + key + " "@ + value).outbox == m.outbox.push(
                CommandText::SetDefault { key, value },
            ),
            key.len() > 0 && (forall|i: int| 0 <= i < key.len() ==> !text::is_space(#[trigger] key[i]))
                && !settings::is_default_key(key) ==> Self::commanded(m, "set "@ + key + " "@ + value).outbox == m.outbox
                && Self::commanded(m, "set "@ + key + " "@ + value).erring(),
            settings::is_default_key(key) ==> Self::commanded(m, "set "@ + key).outbox == m.outbox && Self::commanded(
                m,
                "set "@ + key,
            ).erring(),
    {
        reveal(App::commanded);
        reveal(App::defaulted);
        reveal_strlit("default_profile");
        reveal_strlit("default_region");
        reveal_strlit("default_tail_window");
        if settings::is_default_key(key) || (key.len() > 0 && (forall|i: int|
            0 <= i < key.len() ==> !text::is_space(#[trigger] key[i]))) {
            assert(forall|i: int| 0 <= i < key.len() ==> !text::is_space(#[trigger] key[i]));
            let rest = key.push(' ') + value;
            lemma_set_line(rest);
            lemma_set_line(key);
            reveal_strlit(" ");
            assert("set "@ + key + " "@ + value =~= "set "@ + rest);
            assert(rest[0] == key[0] && rest.last() == value.last());
            text::lemma_already_trimmed(rest);
            text::lemma_already_trimmed(value);
            text::law_commands_come_apart(key, ' ', value);
            assert(!text::is_space(key[0]) && !text::is_space(key[key.len() - 1]));
            text::lemma_already_trimmed(key);
        }
    }

    /// A command that neither the application nor the view knows is the id of a view.
    pub proof fn law_other_commands_are_ids(m: AppModel<V::Model>, cmd: Text)
        requires
            cmd.len() > 0,
            cmd != "q"@ && cmd != "quit"@ && cmd != "w"@ && cmd != "write"@ && cmd != "menu"@ && cmd != "home"@,
            cmd != "region"@ && !text::has_prefix(cmd, "region "@),
            text::word_and_rest(cmd).0 != "set"@,
            m.has_view() ==> V::commanded(m.views[m.active], cmd).1.len() == 0 && V::commanded(m.views[m.active], cmd).0
                == m.views[m.active],
        ensures
            Self::commanded(m, cmd) == Self::activated(m, cmd),
    {
        reveal(App::commanded);
        reveal_strlit("");
        assert(m.has_view() ==> m.views.update(m.active, m.views[m.active]) =~= m.views);
    }

    /// A command that the view knows is carried out as the view wants it.
    pub proof fn law_commands_of_the_view(m: AppModel<V::Model>, cmd: Text)
        requires
            cmd.len() > 0,
            cmd != "q"@ && cmd != "quit"@ && cmd != "w"@ && cmd != "write"@ && cmd != "menu"@ && cmd != "home"@,
            cmd != "region"@ && !text::has_prefix(cmd, "region "@),
            text::word_and_rest(cmd).0 != "set"@,
            m.has_view(),
            V::commanded(m.views[m.active], cmd).1.len() > 0,
        ensures
            Self::commanded(m, cmd) == Self::dispatched(
                AppModel { views: m.views.update(m.active, V::commanded(m.views[m.active], cmd).0), ..m },
                V::commanded(m.views[m.active], cmd).1,
            ),
    {
        reveal(App::commanded);
        reveal_strlit("");
    }

    /// What is wanted is carried out one after the other, in the order in which it is wanted.
    pub proof fn law_actions_are_carried_out_in_order(m: AppModel<V::Model>, first: Seq<ActionText>, later: Seq<ActionText>)
        ensures
            Self::dispatched(m, first + later) == Self::dispatched(Self::dispatched(m, first), later),
        decreases first.len(),
    {
        if first.len() == 0 {
            assert(first + later =~= later);
        } else {
            Self::law_actions_are_carried_out_in_order(Self::dispatched_one(m, first[0]), first.skip(1), later);
            assert((first + later).skip(1) =~= first.skip(1) + later);
        }
    }

    /// A letter typed into the filter becomes part of it at once: the view is narrowed to it, and
    /// the server is asked a little later.
    pub proof fn law_typing_narrows_the_view(m: AppModel<V::Model>, key: KeyEvent)
        requires
            m.confirm is None,
            m.picker is None,
            !m.show_help,
            m.mode == Mode::Filter,
            m.has_view(),
            input::types(key) is Some,
        ensures
            ({
                let n = Self::keyed(m, key);
                &&& n.input == m.input.typed(input::types(key)->0)
                &&& n.filter == n.input.text
                &&& n.views == m.views.update(m.active, V::narrowed(m.views[m.active], n.filter))
                &&& n.mode == Mode::Filter
                &&& n.search_deadline == Some(280u64)
                &&& n.outbox == m.outbox.push(CommandText::ScheduleSearch)
            }),
    {
        reveal(App::filter_keyed);
        reveal(App::filter_edited);
        reveal(App::filter_applied);
    }

    /// `Esc` in the filter forgets it: the view shows everything again.
    pub proof fn law_esc_forgets_the_filter(m: AppModel<V::Model>, key: KeyEvent)
        requires
            m.confirm is None,
            m.picker is None,
            !m.show_help,
            m.mode == Mode::Filter,
            key.code == KeyCode::Esc,
            m.has_view(),
            V::searched(V::narrowed(m.views[m.active], Seq::empty()), Seq::empty()) == (
                V::narrowed(m.views[m.active], Seq::empty()),
                Seq::<ActionText>::empty(),
            ),
        ensures
            ({
                let n = Self::keyed(m, key);
                &&& n.filter.len() == 0
                &&& n.mode == Mode::Normal
                &&& n.views == m.views.update(m.active, V::narrowed(m.views[m.active], Seq::empty()))
                &&& n.outbox == m.outbox
            }),
    {
        reveal(App::filter_keyed);
        reveal(App::filter_cancelled);
        reveal(App::filter_applied);
        reveal(App::searched);
        let h = hushed(m);
        let narrowed = Self::filter_applied(AppModel { input: h.input.cleared(), ..h });
        assert(narrowed.filter =~= Seq::empty());
        let (n, actions) = Self::stepped(
            AppModel { search_deadline: None, ..narrowed },
            |v: V::Model| V::searched(v, narrowed.filter),
        );
        assert(n.views =~= m.views.update(m.active, V::narrowed(m.views[m.active], Seq::empty())));
        assert(n.emitted(actions) == n);
    }

    /// An answer goes to the active view, and to no other.
    pub proof fn law_answers_go_to_the_active_view(m: AppModel<V::Model>, envelope: Envelope)
        requires
            envelope.epoch == m.epoch,
            m.has_view(),
        ensures
            Self::answered(m, envelope).views == m.views.update(
                m.active,
                V::informed(m.views[m.active], envelope.message),
            ),
            Self::answered(m, envelope).active == m.active,
            Self::answered(m, envelope).screen == m.screen,
    {
        reveal(App::reported);
    }

    /// After a purge, a redrive of a queue or of an execution, what it changed is loaded again; any
    /// other answer asks for nothing.
    pub proof fn law_what_changed_is_loaded_again(m: AppModel<V::Model>, envelope: Envelope)
        requires
            envelope.epoch == m.epoch,
        ensures
            match envelope.message {
                Message::QueuePurged { queue_url } => Self::answered(m, envelope).outbox == m.outbox.push(
                    CommandText::Effect {
                        action: ActionText::LoadQueueDetail { queue_url: queue_url@ },
                        epoch: m.epoch,
                    },
                ),
                Message::DlqRedriveStarted { queue_url } => Self::answered(m, envelope).outbox == m.outbox.push(
                    CommandText::Effect {
                        action: ActionText::LoadQueueDetail { queue_url: queue_url@ },
                        epoch: m.epoch,
                    },
                ),
                Message::ExecutionRedriven { execution_arn } => Self::answered(m, envelope).outbox == m.outbox.push(
                    CommandText::Effect {
                        action: ActionText::LoadExecutionDetail { execution_arn: execution_arn@ },
                        epoch: m.epoch,
                    },
                ),
                _ => Self::answered(m, envelope).outbox == m.outbox,
            },
            envelope.message matches Message::IdentityLoaded { account_id } ==> Self::answered(m, envelope).account
                == Some(account_id@),
            !(envelope.message is IdentityLoaded) ==> Self::answered(m, envelope).account == m.account,
    {
        reveal(App::reported);
    }

    /// The passing of time reaches the view on screen, and only with nothing over it.
    pub proof fn law_ticks_reach_the_view_on_screen(m: AppModel<V::Model>)
        requires
            m.has_view(),
        ensures
            m.screen == Screen::View && is_open(m) ==> Self::ticked(m) == Self::dispatched(
                AppModel { views: m.views.update(m.active, V::ticked(m.views[m.active]).0), ..m },
                V::ticked(m.views[m.active]).1,
            ),
            m.screen == Screen::Menu || !is_open(m) ==> Self::ticked(m) == m,
    {
    }

    /// The bottom row shows the line under edition, behind its mark; else what the user is told; else
    /// the filter, or the keys of the view on screen.
    pub proof fn law_the_bottom_row(m: AppModel<V::Model>)
        ensures
            m.mode == Mode::Command ==> (Self::footer(m) matches Footer::Input { prefix, value, .. } && prefix == ':'
                && value == m.input.text),
            m.mode == Mode::Filter ==> (Self::footer(m) matches Footer::Input { prefix, value, .. } && prefix == '/'
                && value == m.input.text),
            m.mode == Mode::Normal && m.status is Some ==> Self::footer(m) == (FooterText::Status {
                error: m.status->0.error,
                text: m.status->0.text,
            }),
            m.mode == Mode::Normal && m.status is None ==> (Self::footer(m) matches Footer::Hints { filter, view }
                && filter == m.filter && (m.screen == Screen::View && m.has_view() ==> view == V::hint_texts(
                m.views[m.active],
            )) && (m.screen == Screen::Menu ==> view.len() == 0)),
    {
    }

    /// The profiles that were read open the picker; without any the user is told so.
    pub proof fn law_profiles_open_the_picker(m: AppModel<V::Model>, profiles: Seq<ProfileEntry<Text>>)
        ensures
            profiles.len() > 0 ==> Self::picking(m, profiles) == (AppModel {
                picker: Some(PickerModel { profiles, selected: Some(0usize) }),
                ..m
            }),
            profiles.len() == 0 ==> Self::picking(m, profiles).picker == m.picker && Self::picking(m, profiles).erring(),
            profiles.len() > 0 ==> (Self::starting(m, profiles).picker matches Some(p) && p.profiles == profiles)
                && Self::starting(m, profiles).awaiting_startup_env,
            profiles.len() == 0 ==> Self::starting(m, profiles).picker == m.picker && !Self::starting(
                m,
                profiles,
            ).erring(),
    {
    }
}

proof fn lemma_set_line(rest: Text)
    ensures
        ({
            let cmd = "set "@ + rest;
            &&& text::word_and_rest(cmd) == ("set"@, text::trimmed(rest))
            &&& cmd != ""@ && cmd != "q"@ && cmd != "quit"@ && cmd != "w"@ && cmd != "write"@ && cmd != "menu"@ && cmd
                != "home"@ && cmd != "region"@
            &&& !text::has_prefix(cmd, "region "@)
        }),
{
    reveal_strlit("set ");
    reveal_strlit("set");
    reveal_strlit("");
    reveal_strlit("q");
    reveal_strlit("quit");
    reveal_strlit("w");
    reveal_strlit("write");
    reveal_strlit("menu");
    reveal_strlit("home");
    reveal_strlit("region");
    reveal_strlit("region ");
    let cmd = "set "@ + rest;
    assert("set "@ =~= "set"@.push(' '));
    text::law_commands_come_apart("set"@, ' ', rest);
    assert(cmd[0] == 's');
    assert("q"@[0] == 'q' && "quit"@[0] == 'q' && "w"@[0] == 'w' && "write"@[0] == 'w' && "menu"@[0] == 'm' && "home"@[0]
        == 'h' && "region"@[0] == 'r');
    if text::has_prefix(cmd, "region "@) {
        assert(cmd.take("region "@.len() as int)[0] == "region "@[0]);
    }
}

proof fn lemma_same_filter(all: Seq<FavoriteText>, p: spec_fn(FavoriteText) -> bool, q: spec_fn(FavoriteText) -> bool)
    requires
        forall|f: FavoriteText| #[trigger] p(f) == q(f),
    ensures
        all.filter(p) == all.filter(q),
    decreases all.len(),
{
    reveal(Seq::filter);
    if all.len() > 0 {
        lemma_same_filter(all.drop_last(), p, q);
    }
}

/// Consent is asked for by a title that names what is about to happen, and a text that says what it
/// does before it names what it concerns.
pub proof fn law_questions_are_worded(url: Text, arn: Text, bus: Text, action: ActionText)
    ensures
        question(ActionText::PurgeQueue { queue_url: url }) matches Some((title, body)) && title
            == " purgar cola — irreversible "@ && text::has_prefix(body, "se borrarán TODOS los mensajes de:\n"@),
        question(ActionText::RedriveDlq { queue_url: url }) matches Some((title, body)) && title == " redrive DLQ "@
            && text::has_prefix(body, "se reenviarán los mensajes a sus colas origen desde:\n"@),
        question(ActionText::RedriveExecution { execution_arn: arn }) matches Some((title, body)) && title
            == " redrive ejecución "@ && text::has_prefix(body, "se relanzará desde el último estado fallido:\n"@),
        action matches Action::SendEvent { event_bus_name, time, resources, .. } ==> (question(action) matches Some(
            (title, body),
        ) && title == " enviar evento de prueba "@ && text::has_prefix(
            body,
            "se publicará un evento de prueba en el bus:\n"@ + event_bus_name,
        )),
{
    lemma_prefix("se borrarán TODOS los mensajes de:\n"@, text::last_part_of(url, '/'));
    lemma_prefix("se reenviarán los mensajes a sus colas origen desde:\n"@, text::last_part_of(url, '/'));
    lemma_prefix("se relanzará desde el último estado fallido:\n"@, text::last_part_of(arn, ':'));
    if let Action::SendEvent { event_bus_name, time, resources, .. } = action {
        let lead = "se publicará un evento de prueba en el bus:\n"@ + event_bus_name;
        let when = match time {
            Some(ms) => "\ntime: "@ + util::instant_text(ms as int),
            None => ""@,
        };
        let named = if resources.len() > 0 { "\nresources: "@ + text::joined(resources, ", "@) } else { ""@ };
        assert(lead + when + named =~= lead + (when + named));
        lemma_prefix(lead, when + named);
    }
}

proof fn lemma_prefix(head: Text, tail: Text)
    ensures
        text::has_prefix(head + tail, head),
{
    assert((head + tail).take(head.len() as int) =~= head);
}

impl<V: DeckView> App<V> {
    /// An answer is told in the status line: an error by its own words and class, and what was changed
    /// by what is loaded again; any other answer only takes an error off the screen.
    pub proof fn law_answers_are_told(m: AppModel<V::Model>, envelope: Envelope)
        requires
            envelope.epoch == m.epoch,
        ensures
            ({
                let n = Self::answered(m, envelope);
                let said = |text: Text| Some(StatusLine::<Text> { error: false, text });
                match envelope.message {
                    Message::Error { kind, detail } => n.status == Some(StatusLine::<Text> { error: true, text: detail@ })
                        && n.error_kind == Some(kind),
                    Message::QueuePurged { .. } => n.status == said("cola purgada — refrescando…"@),
                    Message::DlqRedriveStarted { .. } => n.status == said("redrive de DLQ iniciado — refrescando…"@),
                    Message::ExecutionRedriven { .. } => n.status == said("redrive enviado — refrescando…"@),
                    Message::EventSent { event_bus_name } => n.status == said("evento enviado a "@ + event_bus_name@),
                    _ => (m.status matches Some(s) && s.error ==> n.status is None) && (!(m.status matches Some(s)
                        && s.error) ==> n.status == m.status) && n.error_kind is None,
                }
            }),
            envelope.message matches Message::IdentityLoaded { account_id } ==> Self::answered(m, envelope).account == Some(
                account_id@,
            ),
            !(envelope.message is IdentityLoaded) ==> Self::answered(m, envelope).account == m.account,
    {
        reveal(App::reported);
    }

    /// What the application refuses, it says why, as an error; what it does at a command, it says too.
    pub proof fn law_commands_are_told(m: AppModel<V::Model>, words: Text, action: ActionText)
        requires
            action::mutates(action),
        ensures
            ({
                let said = |text: Text| Some(StatusLine::<Text> { error: false, text });
                let refused = |text: Text| Some(StatusLine::<Text> { error: true, text });
                &&& Self::commanded(m, "w"@).status == said("modo escritura: "@ + (if m.write_mode {
                    "OFF"@
                } else {
                    "ON"@
                }))
                &&& Self::commanded(m, "write"@) == Self::commanded(m, "w"@)
                &&& Self::commanded(m, "region"@) == m.failed(
                    "uso: :region <código>  (p. ej. :region eu-west-1)"@,
                )
                &&& Self::commanded(m, "region"@).status == refused("uso: :region <código>  (p. ej. :region eu-west-1)"@)
                &&& !m.write_mode ==> Self::dispatched_one(m, action).status == refused(
                    "acción mutante bloqueada: activa modo escritura con :write"@,
                )
                &&& Self::picking(m, Seq::empty()).status == refused("no se encontraron profiles en ~/.aws/config"@)
                &&& Self::starting(m, Seq::empty()).status == said(
                    "sin profiles en ~/.aws/config — usando "@ + m.env.profile + " · "@ + m.env.region
                        + " · ctrl-e para cambiar"@,
                )
                &&& registry::view_from::<V>(m.views, words, 0) == m.views.len() ==> Self::activated(m, words).status
                    == refused(
                    "comando desconocido: "@ + words + " (disponibles: "@ + text::joined(
                        registry::ids_of::<V>(m.views),
                        ", "@,
                    ) + ")"@,
                )
            }),
    {
        reveal(App::commanded);
        reveal(App::activated);
        reveal_strlit("");
        reveal_strlit("q");
        reveal_strlit("quit");
        reveal_strlit("w");
        reveal_strlit("write");
        reveal_strlit("menu");
        reveal_strlit("home");
        reveal_strlit("region");
        assert("w"@ != ""@ && "w"@ != "q"@ && "w"@ != "quit"@) by {
            assert("w"@[0] == 'w' && "q"@[0] == 'q' && "quit"@[0] == 'q' && ""@.len() == 0);
        }
        assert("write"@ != ""@ && "write"@ != "q"@ && "write"@ != "quit"@) by {
            assert("write"@[0] == 'w' && "q"@[0] == 'q' && "quit"@[0] == 'q' && ""@.len() == 0);
        }
        assert("region"@[0] == 'r' && "menu"@[0] == 'm' && "home"@[0] == 'h' && "w"@[0] == 'w' && "write"@[0] == 'w'
            && "q"@[0] == 'q' && "quit"@[0] == 'q' && ""@.len() == 0);
        assert("region"@.skip("region"@.len() as int) =~= Seq::<char>::empty());
        text::lemma_already_trimmed(Seq::empty());
        let lead = "sin profiles en ~/.aws/config — usando "@;
        assert(lead + m.env.caption() =~= lead + m.env.profile + " · "@ + m.env.region);
    }

    /// Setting a default is told with the key and the value; without either, how it is done.
    pub proof fn law_defaults_are_told(m: AppModel<V::Model>, key: Text, value: Text)
        requires
            text::word_and_rest(key + " "@ + value) == (key, value),
        ensures
            settings::is_default_key(key) && value.len() > 0 ==> Self::defaulted(m, key + " "@ + value).status == Some(
                StatusLine::<Text> { error: false, text: "config: "@ + key + " = "@ + value },
            ),
            !settings::is_default_key(key) || value.len() == 0 ==> Self::defaulted(m, key + " "@ + value).status == Some(
                StatusLine::<Text> {
                    error: true,
                    text: "uso: :set <clave> <valor>  (default_profile · default_region · default_tail_window)"@,
                },
            ) && Self::defaulted(m, key + " "@ + value).outbox == m.outbox,
    {
        reveal(App::defaulted);
    }

    /// Consenting is told; so are a mark that is set and one that is taken away, each by the name of
    /// the resource.
    pub proof fn law_consent_and_marks_are_told(m: AppModel<V::Model>, key: KeyEvent, label: Text, resource: Text)
        ensures
            m.confirm is Some && (key.code == KeyCode::Char('y') || key.code == KeyCode::Enter) ==> Self::keyed(
                m,
                key,
            ).status == Some(StatusLine::<Text> { error: false, text: "acción enviada"@ }),
            m.has_view() && V::favorite(m.views[m.active]) == Some((resource, label)) ==> Self::starred(m).status == Some(
                StatusLine::<Text> {
                    error: false,
                    text: (if config::is_marked(
                        m.state.favorites(m.env.profile, m.env.region),
                        V::id_text(m.views[m.active]),
                        resource,
                    ) {
                        "favorito quitado: "@
                    } else {
                        "★ favorito: "@
                    }) + label,
                },
            ),
    {
        reveal(App::confirm_keyed);
        reveal(App::starred);
    }
}

} // verus!
