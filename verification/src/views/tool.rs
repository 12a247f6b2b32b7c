//! The views of the deck under one type, so that they stand side by side in a registry.

use vstd::prelude::*;

use crate::action::{Action, ActionText, ViewContext};
use crate::key::KeyEvent;
use crate::message::{Message, Text};
use crate::text;
use crate::views::events::{EventsModel, EventsView};
use crate::views::lambda::{LambdaModel, LambdaView};
use crate::views::logs::{LogsModel, LogsView};
use crate::views::sfn::{SfnModel, SfnView};
use crate::views::sqs::{SqsModel, SqsView};
use crate::views::DeckView;

verus! {

/// One of the views.
pub enum Tool {
    Logs(LogsView),
    Sqs(SqsView),
    Sfn(SfnView),
    Events(EventsView),
    Lambda(LambdaView),
}

/// The state of one of the views.
pub enum ToolModel {
    Logs(LogsModel),
    Sqs(SqsModel),
    Sfn(SfnModel),
    Events(EventsModel),
    Lambda(LambdaModel),
}

impl DeckView for Tool {
    type Model = ToolModel;

    open spec fn model(&self) -> ToolModel {
        match self {
            Tool::Logs(x) => ToolModel::Logs(x.model()),
            Tool::Sqs(x) => ToolModel::Sqs(x.model()),
            Tool::Sfn(x) => ToolModel::Sfn(x.model()),
            Tool::Events(x) => ToolModel::Events(x.model()),
            Tool::Lambda(x) => ToolModel::Lambda(x.model()),
        }
    }

    open spec fn wf(&self) -> bool {
        match self {
            Tool::Logs(x) => x.wf(),
            Tool::Sqs(x) => x.wf(),
            Tool::Sfn(x) => x.wf(),
            Tool::Events(x) => x.wf(),
            Tool::Lambda(x) => x.wf(),
        }
    }

    open spec fn id_text(m: ToolModel) -> Text {
        match m {
            ToolModel::Logs(x) => LogsView::id_text(x),
            ToolModel::Sqs(x) => SqsView::id_text(x),
            ToolModel::Sfn(x) => SfnView::id_text(x),
            ToolModel::Events(x) => EventsView::id_text(x),
            ToolModel::Lambda(x) => LambdaView::id_text(x),
        }
    }

    open spec fn description_text(m: ToolModel) -> Text {
        match m {
            ToolModel::Logs(x) => LogsView::description_text(x),
            ToolModel::Sqs(x) => SqsView::description_text(x),
            ToolModel::Sfn(x) => SfnView::description_text(x),
            ToolModel::Events(x) => EventsView::description_text(x),
            ToolModel::Lambda(x) => LambdaView::description_text(x),
        }
    }

    open spec fn title_text(m: ToolModel) -> Text {
        match m {
            ToolModel::Logs(x) => LogsView::title_text(x),
            ToolModel::Sqs(x) => SqsView::title_text(x),
            ToolModel::Sfn(x) => SfnView::title_text(x),
            ToolModel::Events(x) => EventsView::title_text(x),
            ToolModel::Lambda(x) => LambdaView::title_text(x),
        }
    }

    open spec fn activated(m: ToolModel) -> (ToolModel, Seq<ActionText>) {
        match m {
            ToolModel::Logs(x) => {
                let (n, actions) = LogsView::activated(x);
                (ToolModel::Logs(n), actions)
            },
            ToolModel::Sqs(x) => {
                let (n, actions) = SqsView::activated(x);
                (ToolModel::Sqs(n), actions)
            },
            ToolModel::Sfn(x) => {
                let (n, actions) = SfnView::activated(x);
                (ToolModel::Sfn(n), actions)
            },
            ToolModel::Events(x) => {
                let (n, actions) = EventsView::activated(x);
                (ToolModel::Events(n), actions)
            },
            ToolModel::Lambda(x) => {
                let (n, actions) = LambdaView::activated(x);
                (ToolModel::Lambda(n), actions)
            },
        }
    }

    open spec fn opened(m: ToolModel, context: ViewContext<Text>) -> (ToolModel, Seq<ActionText>) {
        match m {
            ToolModel::Logs(x) => {
                let (n, actions) = LogsView::opened(x, context);
                (ToolModel::Logs(n), actions)
            },
            ToolModel::Sqs(x) => {
                let (n, actions) = SqsView::opened(x, context);
                (ToolModel::Sqs(n), actions)
            },
            ToolModel::Sfn(x) => {
                let (n, actions) = SfnView::opened(x, context);
                (ToolModel::Sfn(n), actions)
            },
            ToolModel::Events(x) => {
                let (n, actions) = EventsView::opened(x, context);
                (ToolModel::Events(n), actions)
            },
            ToolModel::Lambda(x) => {
                let (n, actions) = LambdaView::opened(x, context);
                (ToolModel::Lambda(n), actions)
            },
        }
    }

    open spec fn keyed(m: ToolModel, key: KeyEvent) -> (ToolModel, Seq<ActionText>) {
        match m {
            ToolModel::Logs(x) => {
                let (n, actions) = LogsView::keyed(x, key);
                (ToolModel::Logs(n), actions)
            },
            ToolModel::Sqs(x) => {
                let (n, actions) = SqsView::keyed(x, key);
                (ToolModel::Sqs(n), actions)
            },
            ToolModel::Sfn(x) => {
                let (n, actions) = SfnView::keyed(x, key);
                (ToolModel::Sfn(n), actions)
            },
            ToolModel::Events(x) => {
                let (n, actions) = EventsView::keyed(x, key);
                (ToolModel::Events(n), actions)
            },
            ToolModel::Lambda(x) => {
                let (n, actions) = LambdaView::keyed(x, key);
                (ToolModel::Lambda(n), actions)
            },
        }
    }

    open spec fn informed(m: ToolModel, message: Message) -> ToolModel {
        match m {
            ToolModel::Logs(x) => ToolModel::Logs(LogsView::informed(x, message)),
            ToolModel::Sqs(x) => ToolModel::Sqs(SqsView::informed(x, message)),
            ToolModel::Sfn(x) => ToolModel::Sfn(SfnView::informed(x, message)),
            ToolModel::Events(x) => ToolModel::Events(EventsView::informed(x, message)),
            ToolModel::Lambda(x) => ToolModel::Lambda(LambdaView::informed(x, message)),
        }
    }

    open spec fn narrowed(m: ToolModel, filter: Text) -> ToolModel {
        match m {
            ToolModel::Logs(x) => ToolModel::Logs(LogsView::narrowed(x, filter)),
            ToolModel::Sqs(x) => ToolModel::Sqs(SqsView::narrowed(x, filter)),
            ToolModel::Sfn(x) => ToolModel::Sfn(SfnView::narrowed(x, filter)),
            ToolModel::Events(x) => ToolModel::Events(EventsView::narrowed(x, filter)),
            ToolModel::Lambda(x) => ToolModel::Lambda(LambdaView::narrowed(x, filter)),
        }
    }

    open spec fn searched(m: ToolModel, query: Text) -> (ToolModel, Seq<ActionText>) {
        match m {
            ToolModel::Logs(x) => {
                let (n, actions) = LogsView::searched(x, query);
                (ToolModel::Logs(n), actions)
            },
            ToolModel::Sqs(x) => {
                let (n, actions) = SqsView::searched(x, query);
                (ToolModel::Sqs(n), actions)
            },
            ToolModel::Sfn(x) => {
                let (n, actions) = SfnView::searched(x, query);
                (ToolModel::Sfn(n), actions)
            },
            ToolModel::Events(x) => {
                let (n, actions) = EventsView::searched(x, query);
                (ToolModel::Events(n), actions)
            },
            ToolModel::Lambda(x) => {
                let (n, actions) = LambdaView::searched(x, query);
                (ToolModel::Lambda(n), actions)
            },
        }
    }

    open spec fn commanded(m: ToolModel, cmd: Text) -> (ToolModel, Seq<ActionText>) {
        match m {
            ToolModel::Logs(x) => {
                let (n, actions) = LogsView::commanded(x, cmd);
                (ToolModel::Logs(n), actions)
            },
            ToolModel::Sqs(x) => {
                let (n, actions) = SqsView::commanded(x, cmd);
                (ToolModel::Sqs(n), actions)
            },
            ToolModel::Sfn(x) => {
                let (n, actions) = SfnView::commanded(x, cmd);
                (ToolModel::Sfn(n), actions)
            },
            ToolModel::Events(x) => {
                let (n, actions) = EventsView::commanded(x, cmd);
                (ToolModel::Events(n), actions)
            },
            ToolModel::Lambda(x) => {
                let (n, actions) = LambdaView::commanded(x, cmd);
                (ToolModel::Lambda(n), actions)
            },
        }
    }

    open spec fn ticked(m: ToolModel) -> (ToolModel, Seq<ActionText>) {
        match m {
            ToolModel::Logs(x) => {
                let (n, actions) = LogsView::ticked(x);
                (ToolModel::Logs(n), actions)
            },
            ToolModel::Sqs(x) => {
                let (n, actions) = SqsView::ticked(x);
                (ToolModel::Sqs(n), actions)
            },
            ToolModel::Sfn(x) => {
                let (n, actions) = SfnView::ticked(x);
                (ToolModel::Sfn(n), actions)
            },
            ToolModel::Events(x) => {
                let (n, actions) = EventsView::ticked(x);
                (ToolModel::Events(n), actions)
            },
            ToolModel::Lambda(x) => {
                let (n, actions) = LambdaView::ticked(x);
                (ToolModel::Lambda(n), actions)
            },
        }
    }

    open spec fn takes_raw_input(m: ToolModel) -> bool {
        match m {
            ToolModel::Logs(x) => LogsView::takes_raw_input(x),
            ToolModel::Sqs(x) => SqsView::takes_raw_input(x),
            ToolModel::Sfn(x) => SfnView::takes_raw_input(x),
            ToolModel::Events(x) => EventsView::takes_raw_input(x),
            ToolModel::Lambda(x) => LambdaView::takes_raw_input(x),
        }
    }

    open spec fn favorite(m: ToolModel) -> Option<(Text, Text)> {
        match m {
            ToolModel::Logs(x) => LogsView::favorite(x),
            ToolModel::Sqs(x) => SqsView::favorite(x),
            ToolModel::Sfn(x) => SfnView::favorite(x),
            ToolModel::Events(x) => EventsView::favorite(x),
            ToolModel::Lambda(x) => LambdaView::favorite(x),
        }
    }

    open spec fn hint_texts(m: ToolModel) -> Seq<(Text, Text)> {
        match m {
            ToolModel::Logs(x) => LogsView::hint_texts(x),
            ToolModel::Sqs(x) => SqsView::hint_texts(x),
            ToolModel::Sfn(x) => SfnView::hint_texts(x),
            ToolModel::Events(x) => EventsView::hint_texts(x),
            ToolModel::Lambda(x) => LambdaView::hint_texts(x),
        }
    }

    open spec fn at_root(m: ToolModel) -> bool {
        match m {
            ToolModel::Logs(x) => LogsView::at_root(x),
            ToolModel::Sqs(x) => SqsView::at_root(x),
            ToolModel::Sfn(x) => SfnView::at_root(x),
            ToolModel::Events(x) => EventsView::at_root(x),
            ToolModel::Lambda(x) => LambdaView::at_root(x),
        }
    }

    proof fn law_esc_at_root_goes_back(m: ToolModel, key: KeyEvent) {
        match m {
            ToolModel::Logs(x) => LogsView::law_esc_at_root_goes_back(x, key),
            ToolModel::Sqs(x) => SqsView::law_esc_at_root_goes_back(x, key),
            ToolModel::Sfn(x) => SfnView::law_esc_at_root_goes_back(x, key),
            ToolModel::Events(x) => EventsView::law_esc_at_root_goes_back(x, key),
            ToolModel::Lambda(x) => LambdaView::law_esc_at_root_goes_back(x, key),
        }
    }

    fn id(&self) -> (r: &'static str) {
        match self {
            Tool::Logs(x) => x.id(),
            Tool::Sqs(x) => x.id(),
            Tool::Sfn(x) => x.id(),
            Tool::Events(x) => x.id(),
            Tool::Lambda(x) => x.id(),
        }
    }

    fn description(&self) -> (r: &'static str) {
        match self {
            Tool::Logs(x) => x.description(),
            Tool::Sqs(x) => x.description(),
            Tool::Sfn(x) => x.description(),
            Tool::Events(x) => x.description(),
            Tool::Lambda(x) => x.description(),
        }
    }

    fn title(&self) -> (r: String) {
        match self {
            Tool::Logs(x) => x.title(),
            Tool::Sqs(x) => x.title(),
            Tool::Sfn(x) => x.title(),
            Tool::Events(x) => x.title(),
            Tool::Lambda(x) => x.title(),
        }
    }

    fn on_activate(&mut self) -> (r: Vec<Action>) {
        match self {
            Tool::Logs(x) => x.on_activate(),
            Tool::Sqs(x) => x.on_activate(),
            Tool::Sfn(x) => x.on_activate(),
            Tool::Events(x) => x.on_activate(),
            Tool::Lambda(x) => x.on_activate(),
        }
    }

    fn on_context(&mut self, context: &ViewContext) -> (r: Vec<Action>) {
        match self {
            Tool::Logs(x) => x.on_context(context),
            Tool::Sqs(x) => x.on_context(context),
            Tool::Sfn(x) => x.on_context(context),
            Tool::Events(x) => x.on_context(context),
            Tool::Lambda(x) => x.on_context(context),
        }
    }

    fn on_key(&mut self, key: KeyEvent) -> (r: Vec<Action>) {
        match self {
            Tool::Logs(x) => x.on_key(key),
            Tool::Sqs(x) => x.on_key(key),
            Tool::Sfn(x) => x.on_key(key),
            Tool::Events(x) => x.on_key(key),
            Tool::Lambda(x) => x.on_key(key),
        }
    }

    fn on_message(&mut self, message: &Message) {
        match self {
            Tool::Logs(x) => x.on_message(message),
            Tool::Sqs(x) => x.on_message(message),
            Tool::Sfn(x) => x.on_message(message),
            Tool::Events(x) => x.on_message(message),
            Tool::Lambda(x) => x.on_message(message),
        }
    }

    fn set_filter(&mut self, filter: &str) {
        match self {
            Tool::Logs(x) => x.set_filter(filter),
            Tool::Sqs(x) => x.set_filter(filter),
            Tool::Sfn(x) => x.set_filter(filter),
            Tool::Events(x) => x.set_filter(filter),
            Tool::Lambda(x) => x.set_filter(filter),
        }
    }

    fn search(&mut self, query: &str) -> (r: Vec<Action>) {
        match self {
            Tool::Logs(x) => x.search(query),
            Tool::Sqs(x) => x.search(query),
            Tool::Sfn(x) => x.search(query),
            Tool::Events(x) => x.search(query),
            Tool::Lambda(x) => x.search(query),
        }
    }

    fn on_command(&mut self, cmd: &str) -> (r: Vec<Action>) {
        match self {
            Tool::Logs(x) => x.on_command(cmd),
            Tool::Sqs(x) => x.on_command(cmd),
            Tool::Sfn(x) => x.on_command(cmd),
            Tool::Events(x) => x.on_command(cmd),
            Tool::Lambda(x) => x.on_command(cmd),
        }
    }

    fn on_tick(&mut self) -> (r: Vec<Action>) {
        match self {
            Tool::Logs(x) => x.on_tick(),
            Tool::Sqs(x) => x.on_tick(),
            Tool::Sfn(x) => x.on_tick(),
            Tool::Events(x) => x.on_tick(),
            Tool::Lambda(x) => x.on_tick(),
        }
    }

    fn wants_raw_input(&self) -> (r: bool) {
        match self {
            Tool::Logs(x) => x.wants_raw_input(),
            Tool::Sqs(x) => x.wants_raw_input(),
            Tool::Sfn(x) => x.wants_raw_input(),
            Tool::Events(x) => x.wants_raw_input(),
            Tool::Lambda(x) => x.wants_raw_input(),
        }
    }

    fn selected_favorite(&self) -> (r: Option<(String, String)>) {
        match self {
            Tool::Logs(x) => x.selected_favorite(),
            Tool::Sqs(x) => x.selected_favorite(),
            Tool::Sfn(x) => x.selected_favorite(),
            Tool::Events(x) => x.selected_favorite(),
            Tool::Lambda(x) => x.selected_favorite(),
        }
    }

    fn hints(&self) -> (r: Vec<(&'static str, &'static str)>) {
        match self {
            Tool::Logs(x) => x.hints(),
            Tool::Sqs(x) => x.hints(),
            Tool::Sfn(x) => x.hints(),
            Tool::Events(x) => x.hints(),
            Tool::Lambda(x) => x.hints(),
        }
    }
}

/// The five views go by five ids, each the same in every state of its view.
pub proof fn law_views_go_by_their_ids(
    logs: LogsModel,
    sqs: SqsModel,
    sfn: SfnModel,
    events: EventsModel,
    lambda: LambdaModel,
)
    ensures
        Tool::id_text(ToolModel::Logs(logs)) == "logs"@,
        Tool::id_text(ToolModel::Sqs(sqs)) == "sqs"@,
        Tool::id_text(ToolModel::Sfn(sfn)) == "sfn"@,
        Tool::id_text(ToolModel::Events(events)) == "events"@,
        Tool::id_text(ToolModel::Lambda(lambda)) == "lambda"@,
{
}

/// The view of `logs` under the common type does what it does by itself, and stays what it is.
pub proof fn law_logs_stays_itself(
    x: LogsModel,
    context: ViewContext<Text>,
    key: KeyEvent,
    message: Message,
    words: Text,
)
    ensures
        ({
            let m = ToolModel::Logs(x);
            &&& Tool::activated(m) == (ToolModel::Logs(LogsView::activated(x).0), LogsView::activated(x).1)
            &&& Tool::opened(m, context) == (ToolModel::Logs(LogsView::opened(x, context).0), LogsView::opened(x, context).1)
            &&& Tool::keyed(m, key) == (ToolModel::Logs(LogsView::keyed(x, key).0), LogsView::keyed(x, key).1)
            &&& Tool::informed(m, message) == ToolModel::Logs(LogsView::informed(x, message))
            &&& Tool::narrowed(m, words) == ToolModel::Logs(LogsView::narrowed(x, words))
            &&& Tool::searched(m, words) == (ToolModel::Logs(LogsView::searched(x, words).0), LogsView::searched(x, words).1)
            &&& Tool::commanded(m, words) == (ToolModel::Logs(LogsView::commanded(x, words).0), LogsView::commanded(x, words).1)
            &&& Tool::ticked(m) == (ToolModel::Logs(LogsView::ticked(x).0), LogsView::ticked(x).1)
            &&& Tool::title_text(m) == LogsView::title_text(x)
            &&& Tool::description_text(m) == LogsView::description_text(x)
            &&& Tool::favorite(m) == LogsView::favorite(x)
            &&& Tool::hint_texts(m) == LogsView::hint_texts(x)
            &&& Tool::takes_raw_input(m) == LogsView::takes_raw_input(x)
            &&& Tool::at_root(m) == LogsView::at_root(x)
        }),
{
}

/// The view of `sqs` under the common type does what it does by itself, and stays what it is.
pub proof fn law_sqs_stays_itself(
    x: SqsModel,
    context: ViewContext<Text>,
    key: KeyEvent,
    message: Message,
    words: Text,
)
    ensures
        ({
            let m = ToolModel::Sqs(x);
            &&& Tool::activated(m) == (ToolModel::Sqs(SqsView::activated(x).0), SqsView::activated(x).1)
            &&& Tool::opened(m, context) == (ToolModel::Sqs(SqsView::opened(x, context).0), SqsView::opened(x, context).1)
            &&& Tool::keyed(m, key) == (ToolModel::Sqs(SqsView::keyed(x, key).0), SqsView::keyed(x, key).1)
            &&& Tool::informed(m, message) == ToolModel::Sqs(SqsView::informed(x, message))
            &&& Tool::narrowed(m, words) == ToolModel::Sqs(SqsView::narrowed(x, words))
            &&& Tool::searched(m, words) == (ToolModel::Sqs(SqsView::searched(x, words).0), SqsView::searched(x, words).1)
            &&& Tool::commanded(m, words) == (ToolModel::Sqs(SqsView::commanded(x, words).0), SqsView::commanded(x, words).1)
            &&& Tool::ticked(m) == (ToolModel::Sqs(SqsView::ticked(x).0), SqsView::ticked(x).1)
            &&& Tool::title_text(m) == SqsView::title_text(x)
            &&& Tool::description_text(m) == SqsView::description_text(x)
            &&& Tool::favorite(m) == SqsView::favorite(x)
            &&& Tool::hint_texts(m) == SqsView::hint_texts(x)
            &&& Tool::takes_raw_input(m) == SqsView::takes_raw_input(x)
            &&& Tool::at_root(m) == SqsView::at_root(x)
        }),
{
}

/// The view of `sfn` under the common type does what it does by itself, and stays what it is.
pub proof fn law_sfn_stays_itself(
    x: SfnModel,
    context: ViewContext<Text>,
    key: KeyEvent,
    message: Message,
    words: Text,
)
    ensures
        ({
            let m = ToolModel::Sfn(x);
            &&& Tool::activated(m) == (ToolModel::Sfn(SfnView::activated(x).0), SfnView::activated(x).1)
            &&& Tool::opened(m, context) == (ToolModel::Sfn(SfnView::opened(x, context).0), SfnView::opened(x, context).1)
            &&& Tool::keyed(m, key) == (ToolModel::Sfn(SfnView::keyed(x, key).0), SfnView::keyed(x, key).1)
            &&& Tool::informed(m, message) == ToolModel::Sfn(SfnView::informed(x, message))
            &&& Tool::narrowed(m, words) == ToolModel::Sfn(SfnView::narrowed(x, words))
            &&& Tool::searched(m, words) == (ToolModel::Sfn(SfnView::searched(x, words).0), SfnView::searched(x, words).1)
            &&& Tool::commanded(m, words) == (ToolModel::Sfn(SfnView::commanded(x, words).0), SfnView::commanded(x, words).1)
            &&& Tool::ticked(m) == (ToolModel::Sfn(SfnView::ticked(x).0), SfnView::ticked(x).1)
            &&& Tool::title_text(m) == SfnView::title_text(x)
            &&& Tool::description_text(m) == SfnView::description_text(x)
            &&& Tool::favorite(m) == SfnView::favorite(x)
            &&& Tool::hint_texts(m) == SfnView::hint_texts(x)
            &&& Tool::takes_raw_input(m) == SfnView::takes_raw_input(x)
            &&& Tool::at_root(m) == SfnView::at_root(x)
        }),
{
}

/// The view of `events` under the common type does what it does by itself, and stays what it is.
pub proof fn law_events_stays_itself(
    x: EventsModel,
    context: ViewContext<Text>,
    key: KeyEvent,
    message: Message,
    words: Text,
)
    ensures
        ({
            let m = ToolModel::Events(x);
            &&& Tool::activated(m) == (ToolModel::Events(EventsView::activated(x).0), EventsView::activated(x).1)
            &&& Tool::opened(m, context) == (ToolModel::Events(EventsView::opened(x, context).0), EventsView::opened(x, context).1)
            &&& Tool::keyed(m, key) == (ToolModel::Events(EventsView::keyed(x, key).0), EventsView::keyed(x, key).1)
            &&& Tool::informed(m, message) == ToolModel::Events(EventsView::informed(x, message))
            &&& Tool::narrowed(m, words) == ToolModel::Events(EventsView::narrowed(x, words))
            &&& Tool::searched(m, words) == (ToolModel::Events(EventsView::searched(x, words).0), EventsView::searched(x, words).1)
            &&& Tool::commanded(m, words) == (ToolModel::Events(EventsView::commanded(x, words).0), EventsView::commanded(x, words).1)
            &&& Tool::ticked(m) == (ToolModel::Events(EventsView::ticked(x).0), EventsView::ticked(x).1)
            &&& Tool::title_text(m) == EventsView::title_text(x)
            &&& Tool::description_text(m) == EventsView::description_text(x)
            &&& Tool::favorite(m) == EventsView::favorite(x)
            &&& Tool::hint_texts(m) == EventsView::hint_texts(x)
            &&& Tool::takes_raw_input(m) == EventsView::takes_raw_input(x)
            &&& Tool::at_root(m) == EventsView::at_root(x)
        }),
{
}

/// The view of `lambda` under the common type does what it does by itself, and stays what it is.
pub proof fn law_lambda_stays_itself(
    x: LambdaModel,
    context: ViewContext<Text>,
    key: KeyEvent,
    message: Message,
    words: Text,
)
    ensures
        ({
            let m = ToolModel::Lambda(x);
            &&& Tool::activated(m) == (ToolModel::Lambda(LambdaView::activated(x).0), LambdaView::activated(x).1)
            &&& Tool::opened(m, context) == (ToolModel::Lambda(LambdaView::opened(x, context).0), LambdaView::opened(x, context).1)
            &&& Tool::keyed(m, key) == (ToolModel::Lambda(LambdaView::keyed(x, key).0), LambdaView::keyed(x, key).1)
            &&& Tool::informed(m, message) == ToolModel::Lambda(LambdaView::informed(x, message))
            &&& Tool::narrowed(m, words) == ToolModel::Lambda(LambdaView::narrowed(x, words))
            &&& Tool::searched(m, words) == (ToolModel::Lambda(LambdaView::searched(x, words).0), LambdaView::searched(x, words).1)
            &&& Tool::commanded(m, words) == (ToolModel::Lambda(LambdaView::commanded(x, words).0), LambdaView::commanded(x, words).1)
            &&& Tool::ticked(m) == (ToolModel::Lambda(LambdaView::ticked(x).0), LambdaView::ticked(x).1)
            &&& Tool::title_text(m) == LambdaView::title_text(x)
            &&& Tool::description_text(m) == LambdaView::description_text(x)
            &&& Tool::favorite(m) == LambdaView::favorite(x)
            &&& Tool::hint_texts(m) == LambdaView::hint_texts(x)
            &&& Tool::takes_raw_input(m) == LambdaView::takes_raw_input(x)
            &&& Tool::at_root(m) == LambdaView::at_root(x)
        }),
{
}

/// Each view says in the menu what it is for, and the title of a view starts with its id.
pub proof fn law_views_say_what_they_are_for(
    logs: LogsModel,
    sqs: SqsModel,
    sfn: SfnModel,
    events: EventsModel,
    lambda: LambdaModel,
    m: ToolModel,
)
    ensures
        Tool::description_text(ToolModel::Logs(logs)) == "CloudWatch Logs — groups, streams, eventos y tail"@,
        Tool::description_text(ToolModel::Sqs(sqs)) == "Colas SQS: attributes, peek, purge"@,
        Tool::description_text(ToolModel::Sfn(sfn)) == "Step Functions: ejecuciones, timeline, redrive"@,
        Tool::description_text(ToolModel::Events(events)) == "EventBridge: buses, rules, patrón y send"@,
        Tool::description_text(ToolModel::Lambda(lambda)) == "Funciones Lambda: config + logs"@,
        text::has_prefix(Tool::title_text(m), Tool::id_text(m)),
{
    reveal_strlit("logs");
    reveal_strlit("logs / ");
    reveal_strlit("sqs");
    reveal_strlit("sqs / ");
    reveal_strlit("sfn");
    reveal_strlit("sfn / ");
    reveal_strlit("events");
    reveal_strlit("events / ");
    reveal_strlit("lambda");
    reveal_strlit("lambda / ");
    let id = Tool::id_text(m);
    let title = Tool::title_text(m);
    assert(title.len() >= id.len());
    assert(title.take(id.len() as int) =~= id);
}

} // verus!
