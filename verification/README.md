# meshelf

A shelf of short-lived offers between the devices of one person.  A device offers a text, a
file or a folder by announcing a small descriptor to its peers.  A peer keeps the announcement
as a card, and pulls the content, straight from its origin, only when somebody activates that
card.

`src/` holds the rules of that exchange as a Verus library: every function states in its
contract what it returns or changes, and Verus proves it.  Reading sockets, files and the
clipboard is left to the callers.  Where a rule alternates with such work, the library holds a
step-by-step machine: it says what to do next, takes the outcome as an event, and its contract
says which step follows.  `app/` is the headless resident process and the command line that run
those machines.  `tests/` runs the library on concrete values.

| Area | Modules |
| --- | --- |
| Texts, order, digests, identifiers | `text`, `order`, `digest`, `ids`, `path` |
| Offers and stored records | `offer`, `model`, `store`, `memory_store`, `settings`, `activation` |
| Identity, trust, greetings | `identity`, `trust`, `net`, `bootstrap` |
| Offering | `source`, `walk`, `offer_source`, `coordinator`, `shelf_changes`, `announce`, `report` |
| Serving | `connection`, `send`, `source_plan`, `stream`, `transfer` |
| Pulling | `client`, `service`, `receiver`, `receive`, `manifest`, `reservation`, `staging`, `payload`, `publish`, `side_effect`, `clipboard`, `failure`, `outcome` |
| Surfaces | `controller`, `desktop`, `local_control`, `cli` |
| Laws over several of them | `receive_laws`, `exchange_laws`, `acceptance_laws`, `delivery_laws`, `activation_laws`, `walk_laws` |

The library relies on a few outside functions, each behind one small function whose comment
says what is taken for granted of it: SHA-256, Ed25519, UUIDs and their text, and from the
standard library the lower case of a text, its quoted form, the decoding of UTF-8, the
appending of a character, whether a path is absolute, and the stem and the extension of a
file name.
