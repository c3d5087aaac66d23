//! The commands handed to Docker and git.

use vstd::prelude::*;
use crate::naming::{
    app_container, container_name, data_volume, image, image_tag, port_mapping, project_label,
    project_tag, published, volume_name,
};
use crate::store::{DatabaseConfig, DatabaseConfigView};
use crate::text::{
    begins_with, decimal, i32_text, joined, lines, lines_of, same_text, spaced, strings, texts,
};

pub mod laws;

verus! {

/// The network that joins the containers of all projects.
pub const DOCKER_NETWORK: &'static str = "deploynest-net";

/// A program and its arguments.
#[derive(Debug)]
pub struct Command {
    pub program: String,
    pub args: Vec<String>,
}

#[verifier::ext_equal]
pub struct CommandView {
    pub program: Seq<char>,
    pub args: Seq<Seq<char>>,
}

impl View for Command {
    type V = CommandView;

    open spec fn view(&self) -> CommandView {
        CommandView { program: self.program@, args: texts(self.args@) }
    }
}

pub open spec fn docker_call(args: Seq<Seq<char>>) -> CommandView {
    CommandView { program: "docker"@, args }
}

fn docker(args: Vec<String>) -> (command: Command)
    ensures
        command@ == docker_call(texts(args@)),
{
    Command { program: "docker".to_owned(), args }
}

// ---------------------------------------------------------------------------
// Announcements
// ---------------------------------------------------------------------------

/// What the log of a deployment shows of a command. A clone shows nothing of the
/// repository, whose address may hold a secret.
pub open spec fn summary_of(command: CommandView) -> Seq<char> {
    if command.program == "git"@ && command.args.len() > 0 && command.args[0] == "clone"@ {
        "git clone [repository]"@
    } else {
        command.program + " "@ + joined(command.args, ' ')
    }
}

/// The line that announces a command.
pub open spec fn announcement_of(command: CommandView) -> Seq<char> {
    "[COMMAND] "@ + summary_of(command)
}

/// What the log of a deployment shows of a command.
pub fn summary(command: &Command) -> (text: String)
    ensures
        text@ == summary_of(command@),
{
    if same_text(command.program.as_str(), "git") && command.args.len() > 0 && same_text(
        command.args[0].as_str(),
        "clone",
    ) {
        "git clone [repository]".to_owned()
    } else {
        command.program.clone().concat(" ").concat(spaced(&command.args).as_str())
    }
}

/// The line that announces a command.
pub fn announcement(command: &Command) -> (text: String)
    ensures
        text@ == announcement_of(command@),
{
    "[COMMAND] ".to_owned().concat(summary(command).as_str())
}

// ---------------------------------------------------------------------------
// Source and image
// ---------------------------------------------------------------------------

pub open spec fn clone_call(
    branch: Seq<char>,
    repo_url: Seq<char>,
    workspace: Seq<char>,
) -> CommandView {
    CommandView {
        program: "git"@,
        args: seq!["clone"@, "--depth"@, "1"@, "--branch"@, branch, repo_url, workspace],
    }
}

pub open spec fn build_call(
    tag: Seq<char>,
    dockerfile: Option<Seq<char>>,
    workspace: Seq<char>,
) -> CommandView {
    docker_call(
        match dockerfile {
            Some(path) => seq!["build"@, "-t"@, tag, "-f"@, path, workspace],
            None => seq!["build"@, "-t"@, tag, workspace],
        },
    )
}

/// The announcement of a clone is the same for every repository, branch and
/// workspace.
pub proof fn law_clone_hides_repository(
    branch: Seq<char>,
    repo_url: Seq<char>,
    workspace: Seq<char>,
)
    ensures
        announcement_of(clone_call(branch, repo_url, workspace)) == "[COMMAND] "@
            + "git clone [repository]"@,
{
}

/// Fetches the last commit of a branch into the workspace.
pub fn clone_repository(branch: &str, repo_url: &str, workspace: &str) -> (command: Command)
    ensures
        command@ == clone_call(branch@, repo_url@, workspace@),
{
    let args = strings(&["clone", "--depth", "1", "--branch", branch, repo_url, workspace]);
    assert(texts(args@) =~= clone_call(branch@, repo_url@, workspace@).args);
    Command { program: "git".to_owned(), args }
}

/// Builds an image from the workspace, by the given Dockerfile or by its own.
pub fn build_image(tag: &str, dockerfile: Option<&str>, workspace: &str) -> (command: Command)
    ensures
        command@ == build_call(
            tag@,
            match dockerfile {
                Some(path) => Some(path@),
                None => None,
            },
            workspace@,
        ),
{
    match dockerfile {
        Some(path) => {
            let args = strings(&["build", "-t", tag, "-f", path, workspace]);
            assert(texts(args@) =~= seq!["build"@, "-t"@, tag@, "-f"@, path@, workspace@]);
            docker(args)
        },
        None => {
            let args = strings(&["build", "-t", tag, workspace]);
            assert(texts(args@) =~= seq!["build"@, "-t"@, tag@, workspace@]);
            docker(args)
        },
    }
}

// ---------------------------------------------------------------------------
// The application's container
// ---------------------------------------------------------------------------

/// The driver that an application uses for a database engine.
pub open spec fn driver_of(engine: Seq<char>) -> Seq<char> {
    if engine == "postgresql"@ {
        "pgsql"@
    } else {
        "mysql"@
    }
}

/// The variables by which an application finds its database.
pub open spec fn database_variables(database: DatabaseConfigView) -> Seq<Seq<char>> {
    seq![
        "-e"@,
        "DB_CONNECTION="@ + driver_of(database.engine),
        "-e"@,
        "DB_HOST="@ + database.internal_host,
        "-e"@,
        "DB_PORT="@ + decimal(database.port as int),
        "-e"@,
        "DB_DATABASE="@ + database.db_name,
        "-e"@,
        "DB_USERNAME="@ + database.db_user,
        "-e"@,
        "DB_PASSWORD="@ + database.db_password,
    ]
}

pub open spec fn launch_call(
    project_id: i32,
    deployment_id: i32,
    host_port: u16,
    container_port: u16,
    database: Option<DatabaseConfigView>,
) -> CommandView {
    docker_call(
        seq![
            "run"@,
            "-d"@,
            "--restart"@,
            "unless-stopped"@,
            "--name"@,
            app_container(project_id as int, deployment_id as int),
            "--label"@,
            project_tag(project_id as int),
            "--network"@,
            DOCKER_NETWORK@,
            "-p"@,
            published(host_port as int, container_port as int),
        ] + (match database {
            Some(db) => database_variables(db),
            None => seq![],
        }) + seq![image_tag(project_id as int, deployment_id as int)],
    )
}

/// The view of an optional database.
pub open spec fn database_view(database: Option<DatabaseConfig>) -> Option<DatabaseConfigView> {
    match database {
        Some(db) => Some(db@),
        None => None,
    }
}

fn database_args(database: &DatabaseConfig) -> (args: Vec<String>)
    ensures
        texts(args@) == database_variables(database@),
{
    let driver = if same_text(database.engine.as_str(), "postgresql") {
        "pgsql"
    } else {
        "mysql"
    };
    let connection = "DB_CONNECTION=".to_owned().concat(driver);
    let host = "DB_HOST=".to_owned().concat(database.internal_host.as_str());
    let port = "DB_PORT=".to_owned().concat(i32_text(database.port).as_str());
    let name = "DB_DATABASE=".to_owned().concat(database.db_name.as_str());
    let user = "DB_USERNAME=".to_owned().concat(database.db_user.as_str());
    let password = "DB_PASSWORD=".to_owned().concat(database.db_password.as_str());
    let args = strings(
        &[
            "-e",
            connection.as_str(),
            "-e",
            host.as_str(),
            "-e",
            port.as_str(),
            "-e",
            name.as_str(),
            "-e",
            user.as_str(),
            "-e",
            password.as_str(),
        ],
    );
    assert(texts(args@) =~= database_variables(database@));
    args
}

/// Starts the container of a deployment, published on a host port, with the variables
/// of its database if it has one.
pub fn launch(
    project_id: i32,
    deployment_id: i32,
    host_port: u16,
    container_port: u16,
    database: &Option<DatabaseConfig>,
) -> (command: Command)
    ensures
        command@ == launch_call(
            project_id,
            deployment_id,
            host_port,
            container_port,
            database_view(*database),
        ),
{
    let name = container_name(project_id, deployment_id);
    let label = project_label(project_id);
    let mapping = port_mapping(host_port, container_port);
    let tag = image(project_id, deployment_id);
    let mut args = strings(
        &[
            "run",
            "-d",
            "--restart",
            "unless-stopped",
            "--name",
            name.as_str(),
            "--label",
            label.as_str(),
            "--network",
            DOCKER_NETWORK,
            "-p",
            mapping.as_str(),
        ],
    );
    let ghost fixed = texts(args@);
    assert(fixed =~= seq![
        "run"@,
        "-d"@,
        "--restart"@,
        "unless-stopped"@,
        "--name"@,
        name@,
        "--label"@,
        label@,
        "--network"@,
        DOCKER_NETWORK@,
        "-p"@,
        mapping@,
    ]);
    if let Some(db) = database {
        let mut variables = database_args(db);
        let ghost added = variables@;
        args.append(&mut variables);
        assert(texts(args@) =~= fixed + texts(added));
    }
    let ghost before = texts(args@);
    args.push(tag);
    assert(texts(args@) =~= before + seq![tag@]);
    assert(texts(args@) =~= launch_call(
        project_id,
        deployment_id,
        host_port,
        container_port,
        database_view(*database),
    ).args);
    docker(args)
}

pub open spec fn migrate_call(container: Seq<char>) -> CommandView {
    docker_call(seq!["exec"@, container, "php"@, "artisan"@, "migrate"@, "--force"@])
}

/// Brings the tables of a Laravel application up to date.
pub fn migrate(container: &str) -> (command: Command)
    ensures
        command@ == migrate_call(container@),
{
    let args = strings(&["exec", container, "php", "artisan", "migrate", "--force"]);
    assert(texts(args@) =~= migrate_call(container@).args);
    docker(args)
}

pub open spec fn remove_call(container: Seq<char>) -> CommandView {
    docker_call(seq!["rm"@, "-f"@, container])
}

/// Stops and removes a container.
pub fn remove_container(container: &str) -> (command: Command)
    ensures
        command@ == remove_call(container@),
{
    let args = strings(&["rm", "-f", container]);
    assert(texts(args@) =~= remove_call(container@).args);
    docker(args)
}

// ---------------------------------------------------------------------------
// Superseded containers
// ---------------------------------------------------------------------------

pub open spec fn list_call(label: Seq<char>) -> CommandView {
    docker_call(seq!["ps"@, "-aq"@, "--filter"@, "label="@ + label])
}

/// Lists the containers that carry a label, running or not.
pub fn list_containers(label: &str) -> (command: Command)
    ensures
        command@ == list_call(label@),
{
    let filter = "label=".to_owned().concat(label);
    let args = strings(&["ps", "-aq", "--filter", filter.as_str()]);
    assert(texts(args@) =~= list_call(label@).args);
    docker(args)
}

/// A listed container is another one than `current`. Docker lists shortened
/// identifiers, so one of the two may begin with the other.
pub open spec fn is_superseded(container: Seq<char>, current: Seq<char>) -> bool {
    !container.is_prefix_of(current) && !current.is_prefix_of(container)
}

/// The listed containers other than `current`, in the order of the list.
pub open spec fn superseded_in(listing: Seq<char>, current: Seq<char>) -> Seq<Seq<char>> {
    lines_of(listing).filter(|container: Seq<char>| is_superseded(container, current))
}

/// The containers of a listing that the current one replaces.
pub fn superseded(listing: &str, current: &str) -> (containers: Vec<String>)
    ensures
        texts(containers@) == superseded_in(listing@, current@),
{
    let listed = lines(listing);
    let mut containers: Vec<String> = Vec::new();
    let ghost p = |container: Seq<char>| is_superseded(container, current@);
    proof {
        reveal(Seq::filter);
        assert(texts(listed@).take(0).filter(p) =~= seq![]);
    }
    for i in 0..listed.len()
        invariant
            p == (|container: Seq<char>| is_superseded(container, current@)),
            texts(containers@) =~= texts(listed@).take(i as int).filter(p),
    {
        proof {
            reveal(Seq::filter);
            assert(texts(listed@).take(i + 1).drop_last() =~= texts(listed@).take(i as int));
        }
        let ghost before = containers@;
        let container = listed[i].as_str();
        if !begins_with(current, container) && !begins_with(container, current) {
            containers.push(listed[i].clone());
            assert(texts(containers@) =~= texts(before).push(listed@[i as int]@));
        }
    }
    assert(texts(listed@).take(listed@.len() as int) =~= texts(listed@));
    containers
}

/// The container just started is never among those that it replaces, by whichever
/// length of its identifier it is listed; every other listed one is.
pub proof fn law_current_container_is_spared(listing: Seq<char>, current: Seq<char>)
    ensures
        forall|container: Seq<char>| #[trigger]
            superseded_in(listing, current).contains(container) <==> lines_of(listing).contains(
                container,
            ) && is_superseded(container, current),
        !superseded_in(listing, current).contains(current),
        forall|n: int|
            0 <= n <= current.len() ==> !superseded_in(listing, current).contains(
                #[trigger] current.take(n),
            ),
{
    let p = |container: Seq<char>| is_superseded(container, current);
    let all = lines_of(listing);
    let kept = all.filter(p);
    assert forall|container: Seq<char>| #[trigger] kept.contains(container) implies all.contains(
        container,
    ) && is_superseded(container, current) by {
        let i = choose|i: int| 0 <= i < kept.len() && kept[i] == container;
        all.lemma_filter_pred(p, i);
        lemma_filter_subset(all, p, container);
    }
    assert forall|container: Seq<char>|
        all.contains(container) && is_superseded(container, current) implies #[trigger] kept.contains(
        container,
    ) by {
        let i = choose|i: int| 0 <= i < all.len() && all[i] == container;
        assert(p(all[i]));
        all.lemma_filter_contains(p, i);
    }
    assert forall|n: int| 0 <= n <= current.len() implies !kept.contains(
        #[trigger] current.take(n),
    ) by {
        assert(current.take(n).is_prefix_of(current)) by {
            assert(current.subrange(0, n) =~= current.take(n));
        }
    }
    assert(current.take(current.len() as int) =~= current);
}

proof fn lemma_filter_subset(all: Seq<Seq<char>>, p: spec_fn(Seq<char>) -> bool, x: Seq<char>)
    requires
        all.filter(p).contains(x),
    ensures
        all.contains(x),
    decreases all.len(),
{
    reveal(Seq::filter);
    if all.len() > 0 {
        let rest = all.drop_last().filter(p);
        if rest.contains(x) {
            lemma_filter_subset(all.drop_last(), p, x);
            let i = choose|i: int| 0 <= i < all.drop_last().len() && all.drop_last()[i] == x;
            assert(all[i] == x);
        } else {
            assert(x == all.last()) by {
                let i = choose|i: int| 0 <= i < all.filter(p).len() && all.filter(p)[i] == x;
                if i < rest.len() {
                    assert(rest[i] == x);
                }
            }
            assert(all[all.len() - 1] == x);
        }
    }
}

// ---------------------------------------------------------------------------
// The database's container
// ---------------------------------------------------------------------------

/// Matches a container name exactly.
pub open spec fn exact_name(container: Seq<char>) -> Seq<char> {
    "name=^"@ + container + "$"@
}

pub open spec fn find_running_call(container: Seq<char>) -> CommandView {
    docker_call(seq!["ps"@, "-q"@, "--filter"@, exact_name(container)])
}

pub open spec fn find_any_call(container: Seq<char>) -> CommandView {
    docker_call(seq!["ps"@, "-aq"@, "--filter"@, exact_name(container)])
}

pub open spec fn connect_call(container: Seq<char>) -> CommandView {
    docker_call(seq!["network"@, "connect"@, DOCKER_NETWORK@, container])
}

pub open spec fn start_call(container: Seq<char>) -> CommandView {
    docker_call(seq!["start"@, container])
}

fn name_filter(container: &str) -> (filter: String)
    ensures
        filter@ == exact_name(container@),
{
    "name=^".to_owned().concat(container).concat("$")
}

/// Looks for a running container of the given name.
pub fn find_running(container: &str) -> (command: Command)
    ensures
        command@ == find_running_call(container@),
{
    let filter = name_filter(container);
    let args = strings(&["ps", "-q", "--filter", filter.as_str()]);
    assert(texts(args@) =~= find_running_call(container@).args);
    docker(args)
}

/// Looks for a container of the given name, running or not.
pub fn find_any(container: &str) -> (command: Command)
    ensures
        command@ == find_any_call(container@),
{
    let filter = name_filter(container);
    let args = strings(&["ps", "-aq", "--filter", filter.as_str()]);
    assert(texts(args@) =~= find_any_call(container@).args);
    docker(args)
}

/// Joins a container to the network.
pub fn connect(container: &str) -> (command: Command)
    ensures
        command@ == connect_call(container@),
{
    let args = strings(&["network", "connect", DOCKER_NETWORK, container]);
    assert(texts(args@) =~= connect_call(container@).args);
    docker(args)
}

/// Starts a stopped container.
pub fn start(container: &str) -> (command: Command)
    ensures
        command@ == start_call(container@),
{
    let args = strings(&["start", container]);
    assert(texts(args@) =~= start_call(container@).args);
    docker(args)
}

/// The engines that a database container can be made for.
pub open spec fn is_supported_engine(engine: Seq<char>) -> bool {
    engine == "mysql"@ || engine == "postgresql"@
}

/// Where a supported engine keeps its data.
pub open spec fn data_directory(engine: Seq<char>) -> Seq<char> {
    if engine == "mysql"@ {
        "mysql"@
    } else {
        "postgresql/data"@
    }
}

/// The settings and the image of a supported engine.
pub open spec fn engine_args(database: DatabaseConfigView) -> Seq<Seq<char>> {
    if database.engine == "mysql"@ {
        seq![
            "-e"@,
            "MYSQL_ROOT_PASSWORD="@ + database.db_password,
            "-e"@,
            "MYSQL_DATABASE="@ + database.db_name,
            "-e"@,
            "MYSQL_USER="@ + database.db_user,
            "-e"@,
            "MYSQL_PASSWORD="@ + database.db_password,
            "mysql:8"@,
        ]
    } else {
        seq![
            "-e"@,
            "POSTGRES_DB="@ + database.db_name,
            "-e"@,
            "POSTGRES_USER="@ + database.db_user,
            "-e"@,
            "POSTGRES_PASSWORD="@ + database.db_password,
            "postgres:16"@,
        ]
    }
}

pub open spec fn create_database_call(database: DatabaseConfigView) -> CommandView {
    docker_call(
        seq![
            "run"@,
            "-d"@,
            "--restart"@,
            "unless-stopped"@,
            "--name"@,
            database.container_name,
            "--network"@,
            DOCKER_NETWORK@,
            "-v"@,
            data_volume(database.container_name) + ":/var/lib/"@ + data_directory(database.engine),
        ] + engine_args(database),
    )
}

fn engine_settings(database: &DatabaseConfig, mysql: bool) -> (args: Vec<String>)
    requires
        mysql == (database@.engine == "mysql"@),
    ensures
        texts(args@) == engine_args(database@),
{
    let password = database.db_password.as_str();
    let args = if mysql {
        let root = "MYSQL_ROOT_PASSWORD=".to_owned().concat(password);
        let name = "MYSQL_DATABASE=".to_owned().concat(database.db_name.as_str());
        let user = "MYSQL_USER=".to_owned().concat(database.db_user.as_str());
        let user_password = "MYSQL_PASSWORD=".to_owned().concat(password);
        strings(
            &[
                "-e",
                root.as_str(),
                "-e",
                name.as_str(),
                "-e",
                user.as_str(),
                "-e",
                user_password.as_str(),
                "mysql:8",
            ],
        )
    } else {
        let name = "POSTGRES_DB=".to_owned().concat(database.db_name.as_str());
        let user = "POSTGRES_USER=".to_owned().concat(database.db_user.as_str());
        let user_password = "POSTGRES_PASSWORD=".to_owned().concat(password);
        strings(
            &[
                "-e",
                name.as_str(),
                "-e",
                user.as_str(),
                "-e",
                user_password.as_str(),
                "postgres:16",
            ],
        )
    };
    assert(texts(args@) =~= engine_args(database@));
    args
}

/// Creates the container of a database, or nothing where its engine is not supported.
pub fn create_database(database: &DatabaseConfig) -> (command: Option<Command>)
    ensures
        command is Some <==> is_supported_engine(database@.engine),
        command matches Some(c) ==> c@ == create_database_call(database@),
{
    let mysql = same_text(database.engine.as_str(), "mysql");
    if !mysql && !same_text(database.engine.as_str(), "postgresql") {
        return None;
    }
    let directory = if mysql {
        "mysql"
    } else {
        "postgresql/data"
    };
    let volume = volume_name(database.container_name.as_str()).concat(":/var/lib/").concat(
        directory,
    );
    let mut args = strings(
        &[
            "run",
            "-d",
            "--restart",
            "unless-stopped",
            "--name",
            database.container_name.as_str(),
            "--network",
            DOCKER_NETWORK,
            "-v",
            volume.as_str(),
        ],
    );
    let ghost fixed = texts(args@);
    assert(fixed =~= seq![
        "run"@,
        "-d"@,
        "--restart"@,
        "unless-stopped"@,
        "--name"@,
        database@.container_name,
        "--network"@,
        DOCKER_NETWORK@,
        "-v"@,
        volume@,
    ]);
    let mut engine = engine_settings(database, mysql);
    let ghost added = engine@;
    args.append(&mut engine);
    assert(texts(args@) =~= fixed + texts(added));
    assert(texts(args@) =~= create_database_call(database@).args);
    Some(docker(args))
}

// ---------------------------------------------------------------------------
// The network
// ---------------------------------------------------------------------------

pub open spec fn find_network_call() -> CommandView {
    docker_call(
        seq![
            "network"@,
            "ls"@,
            "--filter"@,
            exact_name(DOCKER_NETWORK@),
            "--format"@,
            "{{.Name}}"@,
        ],
    )
}

pub open spec fn create_network_call() -> CommandView {
    docker_call(seq!["network"@, "create"@, DOCKER_NETWORK@])
}

/// Looks for the network.
pub fn find_network() -> (command: Command)
    ensures
        command@ == find_network_call(),
{
    let filter = name_filter(DOCKER_NETWORK);
    let args = strings(&["network", "ls", "--filter", filter.as_str(), "--format", "{{.Name}}"]);
    assert(texts(args@) =~= find_network_call().args);
    docker(args)
}

/// Creates the network.
pub fn create_network() -> (command: Command)
    ensures
        command@ == create_network_call(),
{
    let args = strings(&["network", "create", DOCKER_NETWORK]);
    assert(texts(args@) =~= create_network_call().args);
    docker(args)
}

} // verus!
