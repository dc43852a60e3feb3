# ulb_plugins

Build logic for JVM, Android and Kotlin multiplatform modules, verified with
Verus. A plugin reads a module's configuration and answers with a plan: the
tasks to register with the build host, in order, and how configuration ended.
The plugins run nothing themselves.

| Plugin | Module | Entry point |
|---|---|---|
| `ulite/hello` | `src/hello.rs` | `HelloPlugin` |
| `ulite/jvm` | `src/jvm.rs` | `JvmPlugin` |
| `ulite/android` | `src/android/` | `AndroidPlugin` |
| `ulite/kmp` | `src/kmp/` | `KmpPlugin` |

## Layout

- `src/` is the verified library. Contracts speak of mathematical models: a
  text is its sequence of characters, a plan a sequence of task models, a
  configuration a tree of plain values. The state of an Android SDK comes in as
  a plain value (`sdk::SdkProbe`).
- `src/jvm_laws.rs`, `src/android/{laws,inputs,names}.rs` and
  `src/kmp/laws.rs` state what holds of every plan: tasks come behind what they
  depend on, every tool is declared in the manifest, every source reaches its
  product, products lie where they belong.
- `app/` meets the outside: the file system, the host's registrar, and typed
  configuration through serde.
- `tests/` runs the library on concrete values.

JSON text is read by `serde_json`; letter case and the growth of texts are the
standard library's. What is believed of them without proof stands in
`src/parse.rs`, `src/letter_case.rs` and `src/text.rs`, above each of the
functions concerned.
