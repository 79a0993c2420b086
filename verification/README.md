# prism-bootstrap

Turns a MultiMC/Prism instance (`mmc-pack.json` and `patches/*.json`) into a runnable
`java ...` command: it merges the components, resolves every artifact for a target
platform, downloads and verifies them, extracts legacy natives, selects a JDK and
assembles the launch command.

- `src/` is the library. Every rule of the pipeline stands there with a contract that
  Verus proves: merging, rule evaluation, Maven coordinates, artifact resolution,
  argument templating, verification and retry decisions, the layout of assets and
  natives, JDK selection, the order of the stages.
- `tests/` runs the library on concrete instances.
- `app/` is the program around it: the command line, JSON, files, the network and
  child processes.

The program runs on a Unix host: paths are text with `/` between their components. The
target platform of a command is another matter and can be any of the supported ones.

Contracts speak of deep views: `x.deep_view()` is what a value holds, with texts as
sequences of characters. `exit::outcome` lifts that to results. The public proof
functions of each module state what holds across functions, such as that merging is
compositional or that a fetch ends after a bounded number of attempts.

What the library takes on trust stands in four places: `text` (`String::push`), `pattern`
(the `regex` crate), `digest` (`sha1` and `hex`) and `archive` (`zip`).
