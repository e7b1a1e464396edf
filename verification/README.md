# one_night

A table for one-night werewolf, verified with Verus, and a small server around it.

- `src/model.rs`: the table as a mathematical value and what each move does to it.
- `src/game.rs`: the table itself: seats, cards, and answers that are waited for.
- `src/night.rs`: the turns of a night as steps, each taken in one go.
- `src/session.rs`: a client's visit.
- `src/messages.rs`, `src/roles.rs`, `src/text.rs`: wording, cards, numbers and words.
- `src/chance.rs`: the calls into `rand`.
- `src/laws.rs`, `src/card_laws.rs`, `src/night_laws.rs`, `src/text_laws.rs`: what
  holds of the whole, proved from the contracts.
- `app/main.rs`: the server, ordinary Rust on `tokio`. It reads and writes the
  sockets and waits; every decision is taken in `src/`.

Taken on trust, and not proved, are the contracts of `choose_card`, `shuffle` and
`number_below` in `src/chance.rs`, which call `rand`, and of `quote` and `decode` in
`src/text.rs`, which call the standard library.
