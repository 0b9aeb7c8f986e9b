# ssh_agent

The file and tunnel logic of a remote-terminal agent, written in Verus.

The agent runs on a remote host and serves file requests from a desktop
client over SSH: listing, reading and searching a directory tree, reading
and writing managed files, chunked attachment uploads into a private
cache, and the bookkeeping of SSH port-forwarding tunnels.

## Layout

- `src/` is the verified library. Every operation that touches the disk is
  a state machine: it asks for one file-system step at a time
  (`fsproto::FsRequest`), is handed the reply (`fsproto::FsReply`), and
  decides what to do next. The contracts say, over spec functions, which
  requests are made, in what order, and what is returned for every reply.
  - `paths`, `text`, `encoding`, `hashing`: path checks, string helpers,
    base64 and SHA-256 (the last two through the `base64` and `sha2`
    crates).
  - `files`, `browse`, `file_manage`: listing, reading, searching, and the
    create / copy / move / rename / delete / write operations.
  - `uploads`, `upload_begin`, `upload_finish`, `cache_sweep`: attachment
    uploads and the expiry sweep of the attachment cache.
  - `disk`, `upload_laws`: a model of what the files on disk hold, and
    the laws over whole uploads and over writing then reading a file that
    are stated in it.
  - `ssh_files`: the client side of remote file access and uploads.
  - `tunnels`: tunnel records and their status.
- `tests/` runs the machines against an in-memory file system.
- `app/` holds what cannot be verified: the real file system, processes,
  async commands and serde types. It performs the requests the library
  asks for and hands back the replies.

## Tables kept as vectors

The uploads in progress and the running tunnels are keyed by strings (an
upload id, a forward id). With `String` keys, Verus accepts calls on a
`HashMap` but proves nothing of what they do to its contents (not even its
length after one insertion), so a table held in a `HashMap` could not
carry the laws stated here. Both tables are therefore vectors of records
with a type invariant that no key occurs twice, and each is seen in its
contracts as a `Map` from key to record.
