# clap_wrapper_bundler

A verified library that lays out plugin bundles for CLAP plugin libraries built
with `clap_wrapper`: CLAP, VST3 and AUv2 bundles for Windows, macOS and Linux.
A command line tool around it does the disk and process work.

## Layout

- `src/` — the library, verified with Verus.
  - `bundle.rs`: the options of a bundle (also as the command line tool
    sets them), its output path, and its plan: what to remove at the output
    path, the ordered file system steps that make the bundle, and the error
    that ends the work, if any. The tool carries the plan out on disk.
  - `plist.rs`: the generic and the AUv2 `Info.plist` texts.
  - `xml.rs`: escaping of the texts placed in a plist.
  - `tree.rs`: a model of the file tree a bundle is written into, and the
    law that making a bundle twice with overwriting is making it once.
  - `version.rs`: the lenient version parser for AUv2 component versions.
  - `scan.rs`: the plugin library model and the decisions made on the raw
    values a library's entry points report (AUv2 codes, plugin information).
  - `util.rs`: formats, operating systems, architectures, AUv2 identifiers,
    library file names and plugin directories.
  - `paths.rs`: `/`-separated paths held as text (join, extension, file
    name, parent) and their laws; Windows paths are read with each `\`
    made a `/`.
  - `cli.rs`: the decisions of the command line tool.
  - `text.rs`: character-level text helpers.
- `tests/` — tests of the library on concrete values.
- `app/` — the command line tool: argument parsing, loading plugin libraries
  and calling their C entry points, file system work, code signing.

The tool is run with the paths of the built plugin libraries:

```
clap-wrapper-bundler [-i] [--vst3-folder] [--auv2-id <type:subt:manu>] [--] [<libraries...>]
```
