# cage

`cage` develops projects made of many Docker services, described as pods
(`pods/*.yml`, `docker-compose` files), with per-target overrides
(`pods/targets/<target>/*.yml`), source trees that can be cloned and
mounted into the containers that use them, hooks, secrets and Vault
tokens.

The library under `src/` is written in Verus and verified: every public
function carries a contract, and the laws that hold across functions are
proved as public proof functions.

- `text`, `strmap`, `paths`: strings, sorted string-keyed maps, and paths
  held as strings.
- `compose`, `pod`, `ovr`, `project`: the model of compose files, pods,
  targets and projects, and how names on the command line resolve to pods
  and services.
- `args`, `exec`, `cli`, `act_on`: command-line options and the argument
  lists handed to `docker-compose` and `docker`.
- `plan`: what each command does, as a list of steps (commands to run,
  waits, checks) followed by the error to report, if any.
- `runtime_state`, `status`: what Docker reports about containers, and the
  status lines shown to the user.
- `sources`, `mounts`, `git_url`: source trees, their aliases, cloning, and
  mounting them into services.
- `transform`, `secrets`, `vault`, `default_tags`: the changes made to each
  pod's file before it is handed to `docker-compose`.
- `hook`, `config`, `create_project`, `cmd`, `errors`: hook scripts, the
  version check of `config/project.yml`, the skeleton of a new project, a
  recorder of command lines, and the library's errors.

`app/` is the command-line tool around the library: argument parsing with
`clap`, reading and writing files with `compose_yml` and `serde_yaml`,
running commands, and asking Docker about containers with `bollard`.
