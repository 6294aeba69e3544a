# herdr

Three things that the herdr server has to get right, verified with Verus:

- which build runs, and which of two builds is newer (`build_info`, `update`);
- which release notes are pending, seen, or news (`release_notes`, `release_notes_laws`);
- the token that tells one server incarnation from the next (`server_epoch`).

`text`, `text_laws` and `paths` hold what these need of text and of paths. `session` is the plain
record of a session snapshot, which carries the token to clients and has nothing to prove. `app/`
is ordinary Rust: the files, the environment and the one token of the process.
