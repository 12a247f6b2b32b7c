# awsdeck

A console in the terminal, in the manner of k9s, over the AWS services of every day: CloudWatch
Logs, SQS, Step Functions and EventBridge.  Keys move through lists and drill into resources; `:`
takes a command, `/` a filter; nothing that changes anything on AWS leaves the program without the
write mode and an explicit consent.

## Layout

- `src/` is the core, verified with Verus.  It decides everything and touches nothing: no terminal,
  no network, no disk.  What is to be done outside it hands out as commands, and what came of them
  comes back as messages.
  - `app` — the state machine of the whole: screens, modes, filters, environments, consent.
  - `views` — one module for each service, behind the trait `DeckView`; `registry` holds them and
    `tool` names those there are.  The one for Lambda is not registered by the program yet, which
    makes no requests for functions.
  - `effects` — what requests are called, how pages are gathered, what replies mean, the timeline
    of an execution, addresses in the web console, and made-up answers to try things with.
  - `config`, `settings`, `aws` — favourites and recent resources by environment, defaults in the
    configuration file, environments and profiles.
  - `ui` — line input, forms, panels, header and footer, as data.
  - `list`, `util`, `calendar`, `text`, `json`, `key`, `action`, `message` — what the rest is made of.
- `app/` is the program around the core: the event loop, the AWS SDK, the files and the drawing.
- `tests/` runs the core with the real crates behind it.

## Contracts

Each record comes in two guises: with `String` and `Vec` for running, with `Seq` for stating.  A view
or the application has a model (`SqsModel`, `AppModel`, …), and each operation states the model it
leaves behind and the actions it asks for, for every state and every input.  The functions named
`law_…` state what holds across operations: that no mutation leaves without consent, that answers of
an earlier environment change nothing, that selections stay inside their lists, that what is written
is read back.

What rests on other crates is in `text` (`str::to_lowercase` and a few of std), `json` (`serde_json`)
and `ui::input` (`tui_input`), each with a note on what is taken for granted.
