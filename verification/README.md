# kovi_plugins

Verified core of a set of QQ chat-bot plugins built on the Kovi framework:
a role-play chat bot with conversation memory, group moderation (banned-word
strikes, mutes, removals, invitation screening), emoji reactions, a
JavaScript shell, a raw-message tool and the `$command` dispatcher they share.

- `src/` — the library, checked by Verus: text handling (`text`), message
  events (`event`, `dev_utils`), commands (`command`), and one module per
  plugin (`chat`, `bot_check`, `emoji`, `shell`, `qq_tools`); `laws` holds
  properties proved across operations.
- `tests/` — executable tests of the library.
- `app/` — the host side: event intake, platform API calls, timers, threads,
  JSON files and the completion-service client, all deferring decisions to
  the library.
