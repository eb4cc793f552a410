# bbg

A Discord bot that does basic things: replies with pi, random IPv4
addresses, uptime and latency, account ages, avatar colours, job listings,
and TETR.IO and osu! statistics.

- `src/` is the verified library (Verus): the text of every reply, the
  average colour of an image, parsing of user identifiers, score selection,
  leaderboard rows and the outcome of API packets, each with a contract.
- `app/` is the bot around it: Discord commands (poise/serenity), HTTP
  requests, the osu! and TETR.IO clients, image filters and charts.
- `tests/` exercises the library on concrete values.
