# Rust Confessional

An audience-powered agent that keeps its place while its Worker comes and goes.
People submit a programming confession from a phone or a browser. Ferris plans a
response, consults an approved remedy catalog, and returns a judgment, a
prescription and a penance.

The library under `src/` holds every decision of the demo as verified functions
over plain values. `app/` sends, waits and stores.

| Module | What it decides |
| --- | --- |
| `domain` | the data, and which judgments may go on stage |
| `phases`, `workflows` | what a confession and a session do next, event by event |
| `activities` | what goes into each side effect and what its outcome means |
| `agent`, `fixture`, `openai` | the remedy catalog, the offline backend, the model's requests and replies |
| `offline` | what every confession comes to with the offline backend |
| `stage`, `board` | which confessions are taken, and what the dashboard shows |
| `twilio`, `twilio_poll` | signed webhooks and polled messages |
| `moderation` | what audience text looks like on stage |
| `config`, `temporal` | the environment's variables, and Workflow identifiers |
| `text`, `json`, `http` | text, JSON text and HTTP status codes |

Properties that span several functions are public proof functions whose names
begin with `law_`.

The programs are `rust-confessional stage`, `rust-confessional worker` and
`rust-confessional naive CONFESSION`; the last one keeps its work in memory only.
