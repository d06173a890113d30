# skynet

A Discord chat bot whose decisions are verified with Verus.

`src/` is the library.  `BotState::handle` takes one gateway event and
returns what to do on Discord (post, delete, rename, deafen, upload, warn in
private) plus whether to go on, stop or give up; its contract says which
actions come out and how the bot's memories change.  Where chance or the
clock decides (the roulette's pick, the meme file uploaded, whether a
deleter is still remembered), the contract fixes what the draw or the lookup
was asked for and what comes out for each possible answer.

* `model` – users and messages as the bot sees them.
* `text` – prefixes, substrings, decimal numbers, the standard case mappings.
* `replies` – the texts the bot posts and how commands are recognised.
* `store` – the message memory (a least-recently-used `SizedCache` of the
  `cached` crate) and the recent-deleter memory (a `TimedCache`).
* `memes` – the keyword index of meme files.
* `chance` – random picks through the `rand` crate.
* `bot` – the event handler.
* `laws` – properties that span several operations.

`app/main.rs` is the program around it: it reads the meme directory, logs in,
turns gateway events into `Event`s and performs the returned `Action`s.
