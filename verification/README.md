# DeployNest worker

A worker that deploys projects. It takes jobs from a PostgreSQL table, one at a time.
A `deploy` job clones a project's repository, builds an image of it, sees to the
container of its database, starts a container on a free port, points the Caddy proxy at
it, records where the project is up, and removes the containers that it replaces. A
`delete` job removes a deployment's container and its rows.

## Layout

`src/` is the library, written in Verus. It decides everything and does nothing: a job is
a `Run`, which asks for one piece of outside work at a time (an `Effect`), and goes on
from the reply. Its contracts fix each request and each answer, and `run/laws.rs`,
`run/stages.rs` and `run/success.rs` prove what holds of whole runs: that every run ends,
that a job succeeds exactly if all that matters went well, that nothing is recorded as
served that is not, and that no container is removed before the one that replaces it is in
service.

| Module    | What it holds                                                     |
|-----------|-------------------------------------------------------------------|
| `text`    | numbers, white space, lines and paths                             |
| `slug`    | project names as DNS labels                                       |
| `naming`  | names of images, containers, hosts and workspaces                 |
| `fault`   | what went wrong                                                   |
| `config`  | settings from the environment                                     |
| `store`   | rows, queries and the statements that change rows                 |
| `command` | the `git` and `docker` command lines                              |
| `proxy`   | the route document and addresses of the proxy                     |
| `effect`  | outside work and its replies                                      |
| `run`     | jobs, and the laws of whole runs                                  |
| `setup`   | what has to be in place before the first job                      |

`app/` is the program around it: the main loop, the database, processes, files and HTTP.
When it starts it reads `laravel.Dockerfile` and `laravel-entrypoint.sh` from `templates`,
in the directory of its executable.

## Settings

| Variable                | Default                 |
|-------------------------|-------------------------|
| `DATABASE_URL`          | (none)                  |
| `WORKSPACE_DIR`         | `/tmp/deploynest`       |
| `CONTAINER_PORT`        | `3000`                  |
| `PORT_START`            | `3001`                  |
| `PORT_END`              | `4000`                  |
| `CADDY_ADMIN_URL`       | `http://127.0.0.1:2019` |
| `CADDY_SERVER`          | `srv0`                  |
| `CADDY_UPSTREAM_HOST`   | `host.docker.internal`  |
| `BASE_DOMAIN`           | `localhost`             |
| `PUBLIC_SCHEME`         | `http`                  |
| `POLL_INTERVAL_SECONDS` | `5`                     |
