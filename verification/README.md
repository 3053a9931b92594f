# user_service

The user service of a game platform: users, friendships, privacy settings,
online status and invitations, as a verified library, and a web
server around it.

- `src/` is the library. The service's database (users, privacy settings,
  friendships) and its key-value cache (status records, invitation
  cooldowns) are plain values there, and every operation of the service is a
  function on them with a contract: what it answers, which error it answers
  on which input, and what it changes. The laws of the service (who may see
  what, what a request, an acceptance, a cancellation or a removal leaves,
  what a read gives back after a write, how long an invitation cools down)
  are proof functions beside the operations they speak of.
- `app/` is the web server: routes, the database and cache connections, the
  websocket calls. Each route loads what it needs into the library's values,
  calls the library, writes back what changed, in one database transaction,
  and sends the events that the library returned.
- `tests/` runs the library on concrete values.
