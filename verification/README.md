# nixit

Declare GitHub repository settings in Nix; `nixit` reconciles GitHub to match.

The repository has two parts. `src/` is a library, verified with Verus, that
holds the rules: it never touches the network, the file system or the
environment. `app/` is the command line program around it.

## The library

| Module | What it holds |
| --- | --- |
| `text`, `keymap`, `json` | texts, maps in key order, JSON values |
| `order` | a total order on JSON values |
| `pairing` | pairing the items of two lists one to one |
| `compare` | order-insensitive comparison of a declared value with a live one |
| `config`, `validate`, `flake` | the configuration, its rules, flake references |
| `settings`, `actions`, `branches`, `rulesets` | what differs in each area, and what to send |
| `reading` | which parts of the live state are read, and in which order |
| `plan` | the plan for a repository |
| `bodies`, `requests`, `replies` | what GitHub is asked, and how its replies are understood |
| `apply` | the operations of a plan, and the failures among them |
| `cli`, `display` | the turns of a run, and what is told and shown |
| `laws` | what holds of the library as a whole |

Every function is specified over mathematical models: texts are sequences of
characters, a map is its sequence of entries, a JSON value is a tree. The laws
state among other things that

- an absent option means "leave it alone",
- once GitHub took every operation of a plan, the next plan is empty, also
  where GitHub lists rules in another order or adds parameters to them,
- the order of the rules and the bypass actors of a ruleset does not matter,
  nor do fields that GitHub adds to them,
- a dry run does nothing with any repository, and shows one if and only if a
  real run changes it,
- nothing but the requirement of signed commits is ever deleted.

JSON texts are read and written by `serde_json`; what is believed of that crate,
and of a few functions of the standard library, stands next to the declarations
in `json` and `text`.

## The program

```text
nixit [--token <TOKEN>] --flake <REF> [-n|--dry-run] [-q]
```

The token is resolved from `--token`, then `$GITHUB_TOKEN`. `--dry-run` prints
the planned changes without touching GitHub. Repositories that do not exist are
created empty, for the authenticated user only; settings that need a branch are
skipped with a warning until the branch exists.
