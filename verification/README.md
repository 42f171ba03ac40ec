# smoldr

A library for scripts that test GPUs. A script declares shaders, buffers, views, root signatures,
pipelines and shader tables, runs dispatches, and says what a buffer must hold afterwards:

```
SOURCE code
RWBuffer<uint> buf: register(u0);
[numthreads(64, 1, 1)]
void main(uint3 id: SV_DispatchThreadID) { buf[id.x] = id.x; }
END

OBJECT obj code cs_6_0 main

BUFFER buffer DATA_TYPE uint32 SIZE 64 FILL 0
VIEW view buffer AS TYPED UAV uint32

ROOT root
  TABLE UAV REGISTER 0 NUMBER 1 SPACE 0
END

PIPELINE pipeline COMPUTE
  ATTACH obj
  ROOT root
END

DISPATCH pipeline
  BIND 0 TABLE view
RUN 1 1 1

EXPECT buffer uint32 OFFSET 0 EQ 0 1 2 3
```

The library is written in Verus. Every function has a contract, and Verus proves that it holds. The
exceptions are the few functions that call into other crates (humantime, index_vec, memchr, miette)
or into std: their contracts say what those crates promise, and the doc comments name the calls.

## Layout

- `src/grammar/` says what a script means. Each rule is a spec function over the text.
  `laws.rs` holds what is true of every script that the grammar accepts, `round_trip.rs` that a
  dumped buffer can be read back as EXPECT statements.
- `src/parser/` reads scripts, one function for each rule of the grammar.
- `src/script.rs`, `value.rs`, `content.rs`, `flags.rs`, `source.rs`, `text.rs`: what statements
  are made of, and the bytes of values.
- `src/names.rs` and `state.rs` turn statements into actions for a backend.
- `src/check.rs`, `report.rs`, `run.rs`: comparing buffers, showing them, and which failures end a
  run.
- `src/files.rs` and `duration.rs` keep the files of a run, and read and show times.
- `src/gpu/` plans what a GPU is told: acceleration structures, shader tables, bindings, dispatches.
- `src/null_backend.rs` is for running without a GPU.
- `app/` is the program around the library: arguments, files, floating-point arithmetic, error
  messages, and the backends. The DirectX 12 backend is there on Windows only.

Floating-point numbers are held as their bits. What must be computed with them comes from outside
and is handed to the library as an argument.
