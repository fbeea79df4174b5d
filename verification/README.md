# aien_local_stack

In-process composition of an autonomous agent plane with an accelerated inference engine that
branches contexts by copy-on-write, inside a single process and without either part importing the
other. The decisions of the composition are a Verus library; the parts that touch the engine, the
digests, the file system and the network stand around it.

```text
            app
             |  asks the engine, hashes, reads and writes files
             v
        src (verified)
```

- `src/protocol.rs`, `src/ids.rs`: the values that are exchanged, and identifiers.
- `src/branch.rs`: the state of a branch and the bytes that its digest is taken of.
- `src/service.rs`: the service: active branches, contexts, snapshots, selection, runs of the engine.
- `src/service/infer.rs`: a request for tokens, as steps between calls to the engine.
- `src/service/fork.rs`: a fork of a branch, as steps between calls to the engine; a parent that is
  not active is not found, or, where its reference is bound to no run of an engine, taken in first.
- `src/rendering.rs`: text to tokens and tokens to text.
- `src/recipe.rs`, `src/store.rs`: recipes from which branches are rebuilt, and the store of them,
  which hands out none that it has not verified.
- `src/demo.rs`: the receipt of the copy-on-write demonstration.
- `src/laws.rs`: what holds of all of it together.

An operation that needs the engine, a digest or a file is a step function: it says what to ask, the caller asks it, and
hands the reply back. The contract fixes what is asked and what becomes of every reply.
