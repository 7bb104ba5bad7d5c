# shaobot

A QQ group bot that answers mentions with a DeepInfra-hosted chat model.

- `src/` is the verified library (Verus):
  - `deepinfra.rs`: messages, the per-group conversation (history, recall,
    clear, the request for one turn) and the set of conversations by group;
  - `bot.rs`: routing of group messages, slash commands, poke and honor
    replies, the register of answers that a poke may still cancel;
  - `sensitive.rs`: the pinyin check for the watched phrase;
  - `text.rs`: decimal numbers, Unicode white space, trimming and search.
- `app/` is the program around it: the OneBot connection, the HTTP request
  to the model, JSON, the shared state, and the system-usage report.
- `tests/` runs the library on concrete values.
