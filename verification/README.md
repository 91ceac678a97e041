# tmux_agent_sidebar (naming feature)

Verified core of the sidebar's session-naming feature.

- `src/text.rs`: Unicode white-space trimming, prefix stripping, ASCII
  case folding and `u64` parsing, each proved against a short statement of
  what the standard library does.
- `src/llm/config.rs`: `LlmConfig::from_sources`, the feature's settings from
  tmux options and the API key from the environment.
- `src/llm/store.rs`: the hex encoding of session ids into file names and
  back, the name and temporary paths, and which directory entries are name
  files; with proofs that decoding undoes encoding, that distinct ids get
  distinct files, and that a file never leaves the base directory.
- `src/cli/rename_session.rs`: argument parsing, title validation, the
  prompt payload and the pane lookup.
- `src/cli/rename_flow.rs`: the decisions of `rename-session` as a step
  function from state and answer to next state, notes and request.
- `app/`: environment, file system, lock, logging and the loop that performs
  the requests of `rename-session`.
