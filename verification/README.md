# harnless

The core of an agent harness, written in Verus: configuration is composed, files
and commands are confined to one workspace, secrets are kept behind references,
and a conformance kit tells whether a provider keeps its promises.

## Layout

`src/` is the library. Every function in it is verified against the contract in
its header.

- `seam/`: the types and traits that providers and consumers share.
- `config/`: documents, layers and patches, substitution, composition, boot.
- `local_fs/`: the workspace file system: path normalization, the walks that keep
  every access inside the root, versions and guards, bounded reads, edits,
  and the order in which a change asks, reads and writes.
- `exec/`: the shell, the local sandbox, bounded capture, what an exit means.
- `credentials/`: the record store, and one authorization attempt per reference.
- `conformance/`: suites for file systems, model adapters, the execution world,
  settings, storage and credentials. A case that talks to a provider is a function
  from the answers so far to the next call.
- `text.rs`, `assoc.rs`, `json.rs`, `yaml.rs`: what the rest is written with.

`tests/` runs the library: scenarios, edge cases, and the outside calls behind
the trusted functions.

`app/` is the host side in ordinary Rust: descriptors, processes, threads, the
clock, and the async runtime. It performs what the library asks for and reports
what came of it.

## What is trusted

Parsing and printing of YAML and JSON, when two YAML fractions are equal, and a few
conversions of the standard library (lossy UTF-8, quoting, lower case, durations)
are called, not proved. Each such
function says in its comment what is believed of it. Everything else follows by
proof, the laws (`law_*`) among it.
