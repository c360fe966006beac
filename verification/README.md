# rfs

A remote file system: a FUSE client that mounts a directory tree served over
HTTP, and the server that serves it.

- `src/` is the verified library (Verus): open flags, the cache of known
  files, the client's file table (descriptors, links, deletion on last
  release), directory listings, the requests the client sends and what it
  makes of the answers, byte-range parsing, and the path checks of the server.
- `app/` is the program around it: `rfs client` mounts the file system with
  `fuser` and talks to the server with `reqwest`; `rfs server` serves
  `/tmp/rfs_storage` with `actix-web`.
- `tests/` runs the library on concrete values.
