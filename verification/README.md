# short

A manager of environment files (`.env`-style files of `NAME=value` lines,
comments and empty lines) and of the run scripts that expose their variables.

The library in `src/` is written in Verus: each public function carries a
contract over a mathematical model of its data, and Verus proves the code
against it.

- `env_file`: env files — reading (`format` says how a text is read and
  written, with the proof that a written env reads back as itself), lookup,
  the walk over variables, the choice of the most recent env, and the
  synchronisation of one env with another (`diff`).
- `run_file`: the variables that a run script receives (plain variables,
  array variables gathering the env variables that a pattern matches) and
  the generation of `sh` and `bash` run scripts.
- `cfg`: the variable settings of a setup.
- `cli`: what the commands decide: current setup and env, synchronisation
  choices, selection of envs, and the tables they show.
- `template`: templates and their registry.
- `update`: published versions of the program, compared by `versions`.
- `io`, `fs`, `d4d_error`, `resource`, `utils`: smaller helpers.
- `text`, `paths`, `case`, `pattern`: text handling, and the calls into
  `std::path`, `heck` and `regex`, whose results are named in the contracts.

`app/` is the command line around the library: argument parsing, files,
processes, the terminal, git and the network.
