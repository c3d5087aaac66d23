//! What the commands tell the programs that they are handed to.

use vstd::prelude::*;
use crate::command::{
    announcement_of, build_call, clone_call, connect_call, create_database_call,
    create_network_call, database_variables, find_any_call, find_network_call, find_running_call,
    is_supported_engine, launch_call, list_call, migrate_call, remove_call, start_call,
    superseded_in, CommandView,
};
use crate::config::{law_numbers_read_back, unsigned_value};
use crate::naming::{
    app_container, data_volume, image_tag, law_container_names_are_distinct,
    law_port_mapping_tells_ports, law_project_keys_are_distinct, project_tag, published,
};
use crate::store::DatabaseConfigView;
use crate::text::{
    decimal, joined, law_decimal_is_injective, law_joined_is_injective, lemma_same_prefix, lines_of,
};

verus! {

/// Among the arguments is this flag, followed by this value.
pub open spec fn gives(args: Seq<Seq<char>>, flag: Seq<char>, value: Seq<char>) -> bool {
    exists|i: int| 0 <= i < args.len() - 1 && #[trigger] args[i] == flag && args[i + 1] == value
}

/// Among the arguments a variable is set, by its name and an equals sign, to this value.
pub open spec fn sets(args: Seq<Seq<char>>, name: Seq<char>, value: Seq<char>) -> bool {
    gives(args, "-e"@, name + value)
}

// ---------------------------------------------------------------------------
// Source and image
// ---------------------------------------------------------------------------

/// A clone fetches one commit of the given branch of the given repository into the given
/// workspace, and nothing else is asked of it.
pub proof fn law_clone_fetches_the_branch(
    branch: Seq<char>,
    repo_url: Seq<char>,
    workspace: Seq<char>,
)
    ensures
        ({
            let call = clone_call(branch, repo_url, workspace);
            let n = call.args.len() as int;
            &&& call.program == "git"@
            &&& call.args[0] == "clone"@
            &&& gives(call.args, "--depth"@, "1"@)
            &&& gives(call.args, "--branch"@, branch)
            &&& call.args[n - 2] == repo_url
            &&& call.args[n - 1] == workspace
            &&& n == 7
        }),
{
    let args = clone_call(branch, repo_url, workspace).args;
    assert(args[1] == "--depth"@ && args[3] == "--branch"@);
}

/// Two clones are the same only if they fetch the same branch of the same repository into
/// the same workspace.
pub proof fn law_clones_are_distinct(
    branch: Seq<char>,
    repo_url: Seq<char>,
    workspace: Seq<char>,
    branch2: Seq<char>,
    repo_url2: Seq<char>,
    workspace2: Seq<char>,
)
    requires
        clone_call(branch, repo_url, workspace) == clone_call(branch2, repo_url2, workspace2),
    ensures
        branch == branch2,
        repo_url == repo_url2,
        workspace == workspace2,
{
    let a = clone_call(branch, repo_url, workspace).args;
    let b = clone_call(branch2, repo_url2, workspace2).args;
    assert(a[4] == b[4] && a[5] == b[5] && a[6] == b[6]);
}

/// A build makes an image of the given tag from the given workspace, by the given Dockerfile
/// if there is one, and nothing else is asked of it.
pub proof fn law_build_makes_the_image(
    tag: Seq<char>,
    dockerfile: Option<Seq<char>>,
    workspace: Seq<char>,
)
    ensures
        ({
            let call = build_call(tag, dockerfile, workspace);
            &&& call.program == "docker"@
            &&& call.args[0] == "build"@
            &&& gives(call.args, "-t"@, tag)
            &&& call.args.last() == workspace
            &&& match dockerfile {
                Some(path) => gives(call.args, "-f"@, path) && call.args.len() == 6,
                None => call.args.len() == 4,
            }
        }),
{
    let args = build_call(tag, dockerfile, workspace).args;
    assert(args[1] == "-t"@);
    if dockerfile is Some {
        assert(args[3] == "-f"@);
    }
}

/// Two builds are the same only if they make the same image from the same files.
pub proof fn law_builds_are_distinct(
    tag: Seq<char>,
    dockerfile: Option<Seq<char>>,
    workspace: Seq<char>,
    tag2: Seq<char>,
    dockerfile2: Option<Seq<char>>,
    workspace2: Seq<char>,
)
    requires
        build_call(tag, dockerfile, workspace) == build_call(tag2, dockerfile2, workspace2),
    ensures
        tag == tag2,
        dockerfile == dockerfile2,
        workspace == workspace2,
{
    let a = build_call(tag, dockerfile, workspace).args;
    let b = build_call(tag2, dockerfile2, workspace2).args;
    assert(a.len() == b.len());
    assert(a[2] == b[2] && a.last() == b.last());
    if dockerfile is Some {
        assert(a[4] == b[4]);
    }
}

// ---------------------------------------------------------------------------
// The application's container
// ---------------------------------------------------------------------------

/// The variables handed to an application are those of its database: the driver goes by the
/// engine, and the rest is what the row says, the port as a number that reads back.
pub proof fn law_variables_are_those_of_the_database(database: DatabaseConfigView)
    ensures
        ({
            let args = database_variables(database);
            &&& sets(
                args,
                "DB_CONNECTION="@,
                if database.engine == "postgresql"@ {
                    "pgsql"@
                } else {
                    "mysql"@
                },
            )
            &&& sets(args, "DB_HOST="@, database.internal_host)
            &&& exists|port: Seq<char>| #[trigger]
                sets(args, "DB_PORT="@, port) && (database.port >= 0 ==> unsigned_value(port)
                    == Some(database.port as nat))
            &&& sets(args, "DB_PORT="@, decimal(database.port as int))
            &&& sets(args, "DB_DATABASE="@, database.db_name)
            &&& sets(args, "DB_USERNAME="@, database.db_user)
            &&& sets(args, "DB_PASSWORD="@, database.db_password)
            &&& args.len() == 12
        }),
{
    let args = database_variables(database);
    law_numbers_read_back(database.port as int);
    assert(args[0] == "-e"@ && args[2] == "-e"@ && args[4] == "-e"@);
    assert(args[6] == "-e"@ && args[8] == "-e"@ && args[10] == "-e"@);
    assert(sets(args, "DB_PORT="@, decimal(database.port as int)));
}

/// Two databases that an application is told the same of have the same driver, host, port,
/// name, user and password.
pub proof fn law_variables_are_distinct(a: DatabaseConfigView, b: DatabaseConfigView)
    requires
        database_variables(a) == database_variables(b),
    ensures
        a.engine == "postgresql"@ <==> b.engine == "postgresql"@,
        a.internal_host == b.internal_host,
        a.port == b.port,
        a.db_name == b.db_name,
        a.db_user == b.db_user,
        a.db_password == b.db_password,
{
    let (x, y) = (database_variables(a), database_variables(b));
    assert(x[1] == y[1] && x[3] == y[3] && x[5] == y[5]);
    assert(x[7] == y[7] && x[9] == y[9] && x[11] == y[11]);
    let driver = |db: DatabaseConfigView|
        if db.engine == "postgresql"@ {
            "pgsql"@
        } else {
            "mysql"@
        };
    lemma_same_prefix("DB_CONNECTION="@, driver(a), driver(b));
    reveal_strlit("pgsql");
    reveal_strlit("mysql");
    assert("pgsql"@[0] != "mysql"@[0]);
    lemma_same_prefix("DB_HOST="@, a.internal_host, b.internal_host);
    lemma_same_prefix("DB_PORT="@, decimal(a.port as int), decimal(b.port as int));
    law_decimal_is_injective(a.port as int, b.port as int);
    lemma_same_prefix("DB_DATABASE="@, a.db_name, b.db_name);
    lemma_same_prefix("DB_USERNAME="@, a.db_user, b.db_user);
    lemma_same_prefix("DB_PASSWORD="@, a.db_password, b.db_password);
}

/// The container of a deployment runs the deployment's image in the background, is restarted
/// unless it was stopped, carries the deployment's name and the project's label, is in the
/// network, publishes the application's port on the host port, and has the variables of its
/// database, if it has one, and no others.
pub proof fn law_launch_runs_the_deployment(
    project_id: i32,
    deployment_id: i32,
    host_port: u16,
    container_port: u16,
    database: Option<DatabaseConfigView>,
)
    ensures
        ({
            let call = launch_call(project_id, deployment_id, host_port, container_port, database);
            let args = call.args;
            let n = args.len() as int;
            &&& call.program == "docker"@
            &&& args[0] == "run"@
            &&& args[1] == "-d"@
            &&& gives(args, "--restart"@, "unless-stopped"@)
            &&& gives(args, "--name"@, app_container(project_id as int, deployment_id as int))
            &&& gives(args, "--label"@, project_tag(project_id as int))
            &&& gives(args, "--network"@, "deploynest-net"@)
            &&& gives(args, "-p"@, published(host_port as int, container_port as int))
            &&& args[n - 1] == image_tag(project_id as int, deployment_id as int)
            &&& match database {
                Some(db) => args.subrange(n - 13, n - 1) == database_variables(db) && n == 25,
                None => n == 13,
            }
        }),
{
    let args = launch_call(project_id, deployment_id, host_port, container_port, database).args;
    assert(args[2] == "--restart"@ && args[4] == "--name"@ && args[6] == "--label"@);
    assert(args[8] == "--network"@ && args[10] == "-p"@);
    if let Some(db) = database {
        assert(args.subrange(12, 24) =~= database_variables(db));
    }
}

/// Two containers are started alike only if they are of one deployment, on the same ports,
/// with databases that an application cannot tell apart.
pub proof fn law_launches_are_distinct(
    project_id: i32,
    deployment_id: i32,
    host_port: u16,
    container_port: u16,
    database: Option<DatabaseConfigView>,
    project_id2: i32,
    deployment_id2: i32,
    host_port2: u16,
    container_port2: u16,
    database2: Option<DatabaseConfigView>,
)
    requires
        launch_call(project_id, deployment_id, host_port, container_port, database) == launch_call(
            project_id2,
            deployment_id2,
            host_port2,
            container_port2,
            database2,
        ),
    ensures
        project_id == project_id2,
        deployment_id == deployment_id2,
        host_port == host_port2,
        container_port == container_port2,
        database is Some <==> database2 is Some,
        database matches Some(a) ==> database2 matches Some(b) ==> database_variables(a)
            == database_variables(b),
{
    let a = launch_call(project_id, deployment_id, host_port, container_port, database).args;
    let b = launch_call(project_id2, deployment_id2, host_port2, container_port2, database2).args;
    assert(a[5] == b[5] && a[11] == b[11]);
    law_container_names_are_distinct(
        project_id as int,
        deployment_id as int,
        project_id2 as int,
        deployment_id2 as int,
    );
    law_port_mapping_tells_ports(
        host_port as int,
        container_port as int,
        host_port2 as int,
        container_port2 as int,
    );
    assert(a.len() == b.len());
    if let Some(x) = database {
        if let Some(y) = database2 {
            assert(a.subrange(12, 24) =~= database_variables(x));
            assert(b.subrange(12, 24) =~= database_variables(y));
        }
    }
}

/// Migrations run in the container that the deployment was started as.
pub proof fn law_migrations_run_in_the_container(
    project_id: i32,
    deployment_id: i32,
    host_port: u16,
    container_port: u16,
    database: Option<DatabaseConfigView>,
    container: Seq<char>,
)
    ensures
        ({
            let call = migrate_call(container);
            &&& call.program == "docker"@
            &&& call.args == seq![
                "exec"@,
                container,
                "php"@,
                "artisan"@,
                "migrate"@,
                "--force"@,
            ]
        }),
        gives(
            launch_call(project_id, deployment_id, host_port, container_port, database).args,
            "--name"@,
            migrate_call(app_container(project_id as int, deployment_id as int)).args[1],
        ),
{
    law_launch_runs_the_deployment(
        project_id,
        deployment_id,
        host_port,
        container_port,
        database,
    );
}

/// A removal stops and removes just the container that it names.
pub proof fn law_removal_names_the_container(container: Seq<char>, container2: Seq<char>)
    ensures
        remove_call(container).program == "docker"@,
        remove_call(container).args == seq!["rm"@, "-f"@, container],
        remove_call(container) == remove_call(container2) ==> container == container2,
{
    assert(remove_call(container).args[2] == container);
    assert(remove_call(container2).args[2] == container2);
}

// ---------------------------------------------------------------------------
// Lists of containers
// ---------------------------------------------------------------------------

/// A list of containers shows the identifiers of all that carry the label, running or not.
/// With a project's label it shows what the project's launches have started.
pub proof fn law_list_goes_by_the_label(
    label: Seq<char>,
    project_id: i32,
    deployment_id: i32,
    host_port: u16,
    container_port: u16,
    database: Option<DatabaseConfigView>,
)
    ensures
        ({
            let call = list_call(label);
            &&& call.program == "docker"@
            &&& call.args[0] == "ps"@
            &&& call.args[1] == "-aq"@
            &&& gives(call.args, "--filter"@, "label="@ + label)
            &&& call.args.len() == 4
        }),
        exists|tag: Seq<char>| #[trigger]
            gives(
                launch_call(project_id, deployment_id, host_port, container_port, database).args,
                "--label"@,
                tag,
            ) && list_call(tag) == list_call(project_tag(project_id as int)),
{
    assert(list_call(label).args[2] == "--filter"@);
    law_launch_runs_the_deployment(
        project_id,
        deployment_id,
        host_port,
        container_port,
        database,
    );
}

/// Two lists are the same only if they go by the same label, so a project's list never shows
/// what another project has started.
pub proof fn law_lists_are_distinct(label: Seq<char>, label2: Seq<char>, a: i32, b: i32)
    ensures
        list_call(label) == list_call(label2) ==> label == label2,
        list_call(project_tag(a as int)) == list_call(project_tag(b as int)) ==> a == b,
{
    assert(list_call(label).args[3] == "label="@ + label);
    assert(list_call(label2).args[3] == "label="@ + label2);
    if list_call(label) == list_call(label2) {
        lemma_same_prefix("label="@, label, label2);
    }
    let (x, y) = (project_tag(a as int), project_tag(b as int));
    assert(list_call(x).args[3] == "label="@ + x);
    assert(list_call(y).args[3] == "label="@ + y);
    if list_call(x) == list_call(y) {
        lemma_same_prefix("label="@, x, y);
        law_project_keys_are_distinct(a as int, b as int);
    }
}

/// Two identifiers differ at some place that both have.
pub open spec fn differ(container: Seq<char>, current: Seq<char>) -> bool {
    exists|i: int|
        0 <= i < container.len() && i < current.len() && #[trigger] container[i] != current[i]
}

/// Just those listed containers are replaced whose identifiers differ from the current one at
/// some place that both have: a shorter or longer form of the current one never is.
pub proof fn law_replaced_containers_differ(
    listing: Seq<char>,
    current: Seq<char>,
    container: Seq<char>,
)
    ensures
        superseded_in(listing, current).contains(container) <==> lines_of(listing).contains(
            container,
        ) && differ(container, current),
{
    crate::command::law_current_container_is_spared(listing, current);
    let n = container.len() as int;
    let m = current.len() as int;
    if container.is_prefix_of(current) {
        assert forall|i: int| 0 <= i < n && i < m implies container[i] == current[i] by {
            assert(current.subrange(0, n)[i] == current[i]);
        }
    }
    if current.is_prefix_of(container) {
        assert forall|i: int| 0 <= i < n && i < m implies container[i] == current[i] by {
            assert(container.subrange(0, m)[i] == container[i]);
        }
    }
    if !differ(container, current) {
        if n <= m {
            assert(current.subrange(0, n) =~= container) by {
                assert forall|i: int| 0 <= i < n implies container[i] == current[i] by {}
            }
        } else {
            assert(container.subrange(0, m) =~= current) by {
                assert forall|i: int| 0 <= i < m implies container[i] == current[i] by {}
            }
        }
    }
}

// ---------------------------------------------------------------------------
// The database's container
// ---------------------------------------------------------------------------

/// The looks for a container go by its whole name. The first sees only what is running, the
/// second sees all.
pub proof fn law_looks_go_by_the_name(container: Seq<char>, container2: Seq<char>)
    ensures
        find_running_call(container).program == "docker"@,
        find_running_call(container).args == seq![
            "ps"@,
            "-q"@,
            "--filter"@,
            "name=^"@ + container + "$"@,
        ],
        find_any_call(container).program == "docker"@,
        find_any_call(container).args == seq![
            "ps"@,
            "-aq"@,
            "--filter"@,
            "name=^"@ + container + "$"@,
        ],
        find_running_call(container) == find_running_call(container2) ==> container == container2,
        find_any_call(container) == find_any_call(container2) ==> container == container2,
{
    let (a, b) = ("name=^"@ + container + "$"@, "name=^"@ + container2 + "$"@);
    assert(find_running_call(container).args[3] == a);
    assert(find_running_call(container2).args[3] == b);
    assert(find_any_call(container).args[3] == a);
    assert(find_any_call(container2).args[3] == b);
    if a == b {
        assert(a.skip("name=^"@.len() as int) =~= container + "$"@);
        assert(b.skip("name=^"@.len() as int) =~= container2 + "$"@);
        assert((container + "$"@).take(container.len() as int) =~= container);
        assert((container2 + "$"@).take(container2.len() as int) =~= container2);
    }
}

/// A container is joined to the network or started by its name.
pub proof fn law_containers_are_called_by_name(container: Seq<char>, container2: Seq<char>)
    ensures
        connect_call(container).program == "docker"@,
        connect_call(container).args == seq![
            "network"@,
            "connect"@,
            "deploynest-net"@,
            container,
        ],
        start_call(container).program == "docker"@,
        start_call(container).args == seq!["start"@, container],
        connect_call(container) == connect_call(container2) ==> container == container2,
        start_call(container) == start_call(container2) ==> container == container2,
{
    assert(connect_call(container).args[3] == container);
    assert(connect_call(container2).args[3] == container2);
    assert(start_call(container).args[1] == container);
    assert(start_call(container2).args[1] == container2);
}

/// The container of a database has the name by which it is looked for and started, is in the
/// network, is restarted unless it was stopped, keeps its data in a volume of its own where
/// its engine looks for it, and is set up with the name, user and password that applications
/// are told.
pub proof fn law_database_is_created_as_described(database: DatabaseConfigView)
    requires
        is_supported_engine(database.engine),
    ensures
        ({
            let call = create_database_call(database);
            let args = call.args;
            &&& call.program == "docker"@
            &&& args[0] == "run"@
            &&& args[1] == "-d"@
            &&& gives(args, "--restart"@, "unless-stopped"@)
            &&& gives(args, "--name"@, database.container_name)
            &&& gives(args, "--network"@, "deploynest-net"@)
            &&& if database.engine == "mysql"@ {
                &&& gives(
                    args,
                    "-v"@,
                    data_volume(database.container_name) + ":/var/lib/"@ + "mysql"@,
                )
                &&& sets(args, "MYSQL_ROOT_PASSWORD="@, database.db_password)
                &&& sets(args, "MYSQL_DATABASE="@, database.db_name)
                &&& sets(args, "MYSQL_USER="@, database.db_user)
                &&& sets(args, "MYSQL_PASSWORD="@, database.db_password)
                &&& args.last() == "mysql:8"@
                &&& args.len() == 19
            } else {
                &&& gives(
                    args,
                    "-v"@,
                    data_volume(database.container_name) + ":/var/lib/"@ + "postgresql/data"@,
                )
                &&& sets(args, "POSTGRES_DB="@, database.db_name)
                &&& sets(args, "POSTGRES_USER="@, database.db_user)
                &&& sets(args, "POSTGRES_PASSWORD="@, database.db_password)
                &&& args.last() == "postgres:16"@
                &&& args.len() == 17
            }
        }),
{
    let args = create_database_call(database).args;
    assert(args[2] == "--restart"@ && args[4] == "--name"@ && args[6] == "--network"@);
    assert(args[8] == "-v"@ && args[10] == "-e"@ && args[12] == "-e"@ && args[14] == "-e"@);
    if database.engine == "mysql"@ {
        assert(args[16] == "-e"@);
    }
}

/// There are two engines that containers are created for, and no others.
pub proof fn law_engines_are_two(engine: Seq<char>)
    ensures
        is_supported_engine(engine) <==> engine == "mysql"@ || engine == "postgresql"@,
{
}

/// Two database containers are created alike only if they have the same name, engine,
/// database, user and password.
pub proof fn law_databases_are_distinct(a: DatabaseConfigView, b: DatabaseConfigView)
    requires
        is_supported_engine(a.engine),
        is_supported_engine(b.engine),
        create_database_call(a) == create_database_call(b),
    ensures
        a.engine == b.engine,
        a.container_name == b.container_name,
        a.db_name == b.db_name,
        a.db_user == b.db_user,
        a.db_password == b.db_password,
{
    let (x, y) = (create_database_call(a).args, create_database_call(b).args);
    law_database_is_created_as_described(a);
    law_database_is_created_as_described(b);
    assert(x.len() == y.len());
    assert(x[5] == y[5] && x[11] == y[11] && x[13] == y[13] && x[15] == y[15]);
    if a.engine == "mysql"@ {
        assert(x[11] == "MYSQL_ROOT_PASSWORD="@ + a.db_password);
        lemma_same_prefix("MYSQL_ROOT_PASSWORD="@, a.db_password, b.db_password);
        lemma_same_prefix("MYSQL_DATABASE="@, a.db_name, b.db_name);
        lemma_same_prefix("MYSQL_USER="@, a.db_user, b.db_user);
    } else {
        lemma_same_prefix("POSTGRES_DB="@, a.db_name, b.db_name);
        lemma_same_prefix("POSTGRES_USER="@, a.db_user, b.db_user);
        lemma_same_prefix("POSTGRES_PASSWORD="@, a.db_password, b.db_password);
    }
}

/// The password that a database is created with is the one that applications are told, and so
/// are its name and its user.
pub proof fn law_applications_know_their_database(a: DatabaseConfigView, b: DatabaseConfigView)
    requires
        is_supported_engine(a.engine),
        is_supported_engine(b.engine),
        create_database_call(a) == create_database_call(b),
        a.internal_host == b.internal_host,
        a.port == b.port,
    ensures
        database_variables(a) == database_variables(b),
{
    law_databases_are_distinct(a, b);
}

// ---------------------------------------------------------------------------
// The network
// ---------------------------------------------------------------------------

/// The network that is looked for is the one that is created, and the one that the containers
/// of projects and databases are in.
pub proof fn law_containers_share_the_network(
    project_id: i32,
    deployment_id: i32,
    host_port: u16,
    container_port: u16,
    database: Option<DatabaseConfigView>,
    db: DatabaseConfigView,
)
    ensures
        create_network_call().program == "docker"@,
        find_network_call().program == "docker"@,
        ({
            let network = create_network_call().args[2];
            &&& create_network_call().args == seq!["network"@, "create"@, network]
            &&& find_network_call().args == seq![
                "network"@,
                "ls"@,
                "--filter"@,
                "name=^"@ + network + "$"@,
                "--format"@,
                "{{.Name}}"@,
            ]
            &&& gives(
                launch_call(project_id, deployment_id, host_port, container_port, database).args,
                "--network"@,
                network,
            )
            &&& gives(create_database_call(db).args, "--network"@, network)
            &&& connect_call(db.container_name).args[2] == network
        }),
{
    law_launch_runs_the_deployment(
        project_id,
        deployment_id,
        host_port,
        container_port,
        database,
    );
    assert(create_database_call(db).args[6] == "--network"@);
}

// ---------------------------------------------------------------------------
// Announcements
// ---------------------------------------------------------------------------

/// A command that is no clone by `git`.
pub open spec fn is_shown_in_full(command: CommandView) -> bool {
    !(command.program == "git"@ && command.args.len() > 0 && command.args[0] == "clone"@)
}

/// The announcement of a command that is no clone shows the program and then every argument:
/// two such commands without a space in them are announced alike only if they are the same.
pub proof fn law_announcements_show_commands(a: CommandView, b: CommandView)
    requires
        is_shown_in_full(a),
        is_shown_in_full(b),
        a.args.len() > 0,
        b.args.len() > 0,
        !a.program.contains(' '),
        !b.program.contains(' '),
        forall|i: int| 0 <= i < a.args.len() ==> !(#[trigger] a.args[i]).contains(' '),
        forall|i: int| 0 <= i < b.args.len() ==> !(#[trigger] b.args[i]).contains(' '),
        announcement_of(a) == announcement_of(b),
    ensures
        a == b,
{
    let (x, y) = (seq![a.program] + a.args, seq![b.program] + b.args);
    reveal_strlit(" ");
    assert(x.skip(1) =~= a.args);
    assert(y.skip(1) =~= b.args);
    assert(joined(x, ' ') =~= a.program + " "@ + joined(a.args, ' '));
    assert(joined(y, ' ') =~= b.program + " "@ + joined(b.args, ' '));
    lemma_same_prefix("[COMMAND] "@, joined(x, ' '), joined(y, ' '));
    assert forall|i: int| 0 <= i < x.len() implies !(#[trigger] x[i]).contains(' ') by {
        if i > 0 {
            assert(x[i] == a.args[i - 1]);
        }
    }
    assert forall|i: int| 0 <= i < y.len() implies !(#[trigger] y[i]).contains(' ') by {
        if i > 0 {
            assert(y[i] == b.args[i - 1]);
        }
    }
    law_joined_is_injective(x, y, ' ');
    assert(x[0] == y[0]);
    assert(a.args =~= b.args);
}

/// Every announcement says that it is one, and goes on with the program.
pub proof fn law_announcements_begin_with_the_program(command: CommandView)
    ensures
        ("[COMMAND] "@ + command.program + " "@).is_prefix_of(announcement_of(command)),
{
    let text = announcement_of(command);
    let start = "[COMMAND] "@ + command.program + " "@;
    if is_shown_in_full(command) {
        assert(text.subrange(0, start.len() as int) =~= start);
    } else {
        reveal_strlit("git");
        reveal_strlit(" ");
        reveal_strlit("git clone [repository]");
        assert(text.subrange(0, start.len() as int) =~= start);
    }
}

} // verus!
