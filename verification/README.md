# fastsp

The logic of FastSP, a voice input tool: spoken text is recognised by an
online service, optionally corrected by a model through the Responses API according to
a "scene", pasted, and recorded in a history; spoken keywords run skills
(opening programs, driving the browser, switching the correction scene).

`src/` is a Verus library whose functions carry contracts proved by Verus:

- `skills`, `matching`: the skill catalogue, its defaults and merging, and
  finding skills and browser sub-commands in a transcript.
- `commands`, `scenes`: voice commands that change the configuration, and
  resolving a spoken scene name.
- `browser`, `browser_plan`, `ip`, `actions`: planning browser actions,
  resolving and checking URLs, and the programs or key strokes a skill needs.
- `storage`: settings, their migration and recovery, and the history.
- `llm`, `pipeline`: the correction service's replies, errors and outcomes.
- `asr`, `proxy`: the recognition protocol's frames, the transcript kept
  from them, and the proxy tunnel.
- `input`, `session`, `audio`: hold-to-talk triggers, the recording session's
  decisions, and the input device list.
- `text`: the string operations the rest is written with.

Calls into `url`, `flate2`, `base64`, `serde_json` and `reqwest` stand behind
small trusted wrappers whose contracts say what the library relies on.

`app/` is a command-line program around the library: reading and writing the
settings and history files, talking to the services, and starting programs.
