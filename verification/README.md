# mirishita_info_bot

A Telegram bot for Mirishita (ミリシタ) information, based on
[Princess by matsurihi.me](https://api.matsurihi.me/docs/), running on
Cloudflare Workers.

- `src/` is the verified library (Verus): what the bot answers to each
  command and button, the compact callback data of its buttons, the addresses of the Princess API, the card lists and their
  pages, and the texts about events and their borders. Its contracts are
  stated over spec functions and proved; the laws (distinct callbacks carry
  distinct data of at most 64 bytes, pagination, counting back through
  events, commands that the bot suggests being read back as meant) are
  public proof functions.
- `app/` is the Workers entry point: it receives Telegram's updates, reads
  a pressed button's data with serde_json, fetches from the Princess API as
  the library asks, draws the random number for a random card, and sends
  what the library computes.
- `tests/` holds the tests of the library.

Bot commands: `/ping`, `/last_event [n]`, `/last_borders [n]`, `/curr_event`,
`/curr_borders`, `/card [id|idol|asset id]` and `/list_characters`.
