# Homebrew Manager

A native GUI for managing [Homebrew](https://brew.sh): status and
installation of brew itself, installed packages, search and install,
updates with pin/unpin, and maintenance commands, with a live console.

The logic is a Verus-verified library; the window is ordinary Rust.

```
src/text.rs     -- lines, whitespace, words and decimal text, specified over Seq<char>
src/brew.rs     -- the brew commands that are run and the parsers of their output
src/manager.rs  -- the manager's state and its decisions on events and requests
src/laws.rs     -- properties proved across calls and for all inputs
app/            -- eframe/egui window and the process/thread plumbing
tests/          -- tests of the library on concrete values
```

## Selections

The packages selected on each page form a set of names. They are held as
a `Vec<String>` whose invariant is that no name occurs twice
(`selection_ok`, part of `HomebrewManagerApp::wf`), and the contracts speak
of that sequence. A `HashSet<String>` was not used, nor tried in code: in
vstd's specification of `HashSet` (`std_specs/hash.rs`), what `insert`,
`remove` and `contains` do is stated only for keys that obey its key model
(`obeys_key_model`), and vstd states that fact for the integer types, `bool`
and boxes of them. For `String` it would have to be assumed, and this crate
assumes nothing.
