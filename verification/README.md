# PIPO: the Discord transport

PIPO relays chat between networks over buses. This is its Discord side, written in Verus: every
function of the library under `src/` carries a contract, and Verus proves all of them but those in
`outside`: its wrappers, and what it takes `String::push` of `std` to do.

The library never talks to Discord, to the database or to a bus. It is a set of state machines:
handling an event or a message goes on until it needs something from outside, hands out a request
together with the state in which it waits, and goes on with the reply.

| module     | what it holds                                                          |
|------------|------------------------------------------------------------------------|
| `text`     | numbers and pieces of text                                             |
| `calendar` | dates, and the months between two moments                               |
| `content`  | Discord markup turned into plain text                                  |
| `message`  | the messages on the buses, and the bridge's own ids                    |
| `registry` | the channels that are followed, and their threads                      |
| `inbound`  | events, queries and replies                                            |
| `posts`    | new and changed messages on their way to a bus                         |
| `changes`  | deletions, reactions, pins, guilds and threads                         |
| `handler`  | the handler of Discord's events                                        |
| `outbound` | calls, responses and errors                                            |
| `jobs`     | a message on its way to Discord, step by step                          |
| `discord`  | the transport                                                          |
| `relays`   | what an event comes to as a whole                                      |
| `effects`  | what a message comes to as a whole                                     |
| `laws`     | what holds of both directions                                          |
| `outside`  | what is taken from `chrono`, `emojis`, `regex`, `serenity` and `std` on trust |

`app/` runs the library against Discord (`serenity`), the database (`rusqlite` in a
`deadpool-sqlite` pool) and the buses (`tokio`). `tests/` runs it on concrete values.
