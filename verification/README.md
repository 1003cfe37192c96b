# moqtail

The decisions of a MoQ relay and of a publisher for it, verified with Verus.

`src/` is the library. Its functions state what they return in `requires` and
`ensures`, and Verus proves it. The exception is what a cache holds at a moment,
which rests on time: of `TrackCache::oldest_group_id` and `newest_group_id`
nothing is stated, and of `TrackCache::stats` only a part; `group_bounds`, which
takes the keys, is exact. `app/` is the publisher program and the parts
of a relay that touch the network, files and clocks. `tests/` runs the library on
concrete values.

## Relay

| Module | What it decides |
| --- | --- |
| `subscribe_handler`, `exchange`, `track`, `requests` | what happens to a SUBSCRIBE, to the answers of the publishers, to an update and to a cancellation |
| `holding_subscribes` | which delayed SUBSCRIBEs are still held |
| `subscription`, `streams`, `joining`, `keyed` | what becomes of each object of a track, on which stream and at which priority; the replay of cached objects to a subscriber that joins |
| `switch_handler`, `switch_guard`, `switch_selection`, `switch_delivery`, `switch_transition` | the course of a SWITCH: who may switch, at which group, when the source is drained, and what is announced; which history of its target is fetched from upstream |
| `probe` | the answer to a bandwidth probe |
| `track_cache`, `events` | what a cache holds, and the event log |
| `client_manager`, `upstream` | who can supply a track, and the link to the relay upstream |
| `model`, `messages`, `status`, `track_name`, `varint`, `payload` | messages, parameters, names and bytes |

## Publisher

| Module | What it decides |
| --- | --- |
| `adaptive`, `ladder_text` | the ladder of qualities, and how it is written and read |
| `cache`, `metadata`, `json` | the cache of encoded video: file names, group files, metadata |
| `replay` | which group comes next, and its place on the timeline |
| `decoder`, `encoder`, `video` | grouping of frames, choice and options of the encoder, stamps of chunks, frame layouts |
| `connection`, `publisher`, `cli` | endpoints, requests, tracks, and the mode of a run |
| `text`, `decimal` | numbers as text |

Properties that span functions are public proof functions whose names begin with
`law_`.

What comes from other crates (`bytes`, `serde_json`, `base64`, `moka`) is called
through small functions whose contracts are stated and not proved; each says so
in its comment.
