# lumen

The logic of a terminal viewer for diffs, with annotations, tags and review marks on hunks,
an HTTP interface to a running viewer, and a command line client for that interface. The
library is written in Verus: what each function does is stated in its contract and proved.

## Layout

- `src/` is the library.
  - `diff`, `state`: files with their rows and hunks, and the state of the viewer.
  - `persistence`, `tags`, `review`, `view_state`, `marks`, `storage`: what is stored below
    `.lumen`, for which scope, and how marks find their hunk again in a changed diff.
    `persistence_laws` and `persistence_jobs` hold what is true of stored annotations over
    several steps.
  - `api`, `api_handler`: the requests of the HTTP interface and the answers to them.
  - `viewer`, `viewer_events`, `viewer_marks`, `viewer_dialogs`, `filters`, `tag_editor`,
    `annotation_list`, `keys`: what keys, the mouse and dialogs do.
  - `cli`: the requests of the client, and the texts that it shows.
  - `scope`, `anchor`, `ids`, `clock`, `json`, `text`, `tag_names`, `seqs`: the parts that
    the others share.
- `tests/` runs the library on concrete values.
- `app/` is the ordinary Rust around it: the terminal, files, the HTTP server and client.

## How the viewer and its host work together

A key or a mouse event changes the state at once where it can, and leaves a list of steps.
`app/viewer.rs` carries the steps out in order. Some are for the host, such as drawing or
loading a commit; the others go back to `perform`, which may leave further steps.

Stored annotations work alike: an operation on `PersistenceManager` returns a `Request` to
read or save a file, and goes on with `resume` once that is done.

## What is trusted

The contracts of the functions marked `#[verifier::external_body]` and of those under
`assume_specification` are believed, not proved. They stand for calls into `serde_json`,
`sha2`, `uuid` and the standard library; the comment above each says what it claims.
