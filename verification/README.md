# tree-pool

`tp` keeps a pool of reusable local git clones of a repository, so that
several agents or shells can each work in a tree of their own.

The library (`src/`) holds the rules of the tool, each function with a
contract that Verus proves:

- `git` — every git operation as a conversation: given the replies so far,
  the next command to run or the result.
- `state`, `storage` — the pool's record of its trees and where it is kept.
- `config`, `pool` — configuration, the pool directory and tree paths, and
  the choice between reusing and creating a tree.
- `setup` — the tasks that prepare a reused or a new tree.
- `release`, `destroy` — the checks before a tree is returned or destroyed,
  and what `tp destroy` removes, skips or asks about.
- `display`, `gitignore`, `branch`, `prompt`, `completions`, `shell`,
  `process` — status lines, `.gitignore` upkeep, branch choice, answers to
  prompts, shell completion, the shell to open, processes in a tree.
- `text`, `paths` — the string and path operations the rest is built on.

The program (`app/`) reads and writes files, runs git and other processes,
reads the clock, talks to the terminal and parses the command line. It
carries out the tasks the library's step functions name, in the order they
name them, and formats what it prints.
