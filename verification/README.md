# NekoRouter

An event-driven chat bot for QQ groups, built from five layers that talk over
channels. The library under `src/` holds what the layers decide and compute, and
proves it with Verus. The program under `app/` does the waiting, the network and
the storage.

| Module | What it decides |
|---|---|
| `sensory` | drops repeated messages, keeps states, notices heated conversations |
| `onebot`, `napcat` | reads group messages, counts drops, puts replies together |
| `gate` | whether and how the bot takes part |
| `council` | what is said, and which investigations are waited for |
| `detective`, `vector_store` | reports, what is learned of them, the memory of facts |
| `solidify`, `graph` | the nightly distillation, the memory of relationships |
| `router`, `cooldown` | where every event goes, how often the bot replies |
| `llm` | requests to model providers, their answers, when they are made again |
| `config`, `store`, `status`, `observe` | configuration, table rows, the status page, the read-only view |
| `types`, `error`, `secret` | the data that flows between the layers |
| `text`, `number`, `single`, `clock`, `ident`, `json`, `table`, `maps` | the foundations |

Single-precision numbers are held by their bits. The library orders and limits
them; sums, products and quotients come from a function that the caller hands
in, and the contracts speak of whatever that function answers.

What the library has from other crates stands behind small functions whose
contracts say what is relied on.
