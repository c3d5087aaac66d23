//! The names that a deployment goes by: its workspace, image, container, label,
//! route and host.

use vstd::prelude::*;
use crate::slug::{is_label, is_slug_char, law_slug_is_label, slug, slugify};
use crate::text::{
    decimal, i32_text, is_inside, join_path, law_decimal_is_injective,
    law_path_joins_directory_and_name, lemma_decimal, lemma_same_prefix, path_in, u16_text,
};

verus! {

/// The directory that a deployment is built in.
pub open spec fn workspace_path(dir: Seq<char>, deployment_id: int) -> Seq<char> {
    path_in(dir, "deployment-"@ + decimal(deployment_id))
}

/// The tag of the image built for a deployment.
pub open spec fn image_tag(project_id: int, deployment_id: int) -> Seq<char> {
    "deploynest-project-"@ + decimal(project_id) + ":"@ + decimal(deployment_id)
}

/// The name of the container that serves a deployment.
pub open spec fn app_container(project_id: int, deployment_id: int) -> Seq<char> {
    "deploynest-"@ + decimal(project_id) + "-"@ + decimal(deployment_id)
}

/// The label carried by every container of a project.
pub open spec fn project_tag(project_id: int) -> Seq<char> {
    "deploynest.project_id="@ + decimal(project_id)
}

/// A host port mapped to a container port.
pub open spec fn published(host_port: int, container_port: int) -> Seq<char> {
    decimal(host_port) + ":"@ + decimal(container_port)
}

/// The first label of the host name of a project.
pub open spec fn host_label(project_name: Seq<char>, project_id: int) -> Seq<char> {
    slug(project_name) + "-"@ + decimal(project_id)
}

/// The host name that a project is served under.
pub open spec fn host(
    project_name: Seq<char>,
    project_id: int,
    base_domain: Seq<char>,
) -> Seq<char> {
    host_label(project_name, project_id) + "."@ + base_domain
}

/// The address that a host is reached at.
pub open spec fn site(scheme: Seq<char>, hostname: Seq<char>) -> Seq<char> {
    scheme + "://"@ + hostname
}

/// The identifier of the proxy route of a project.
pub open spec fn route_key(project_id: int) -> Seq<char> {
    "deploynest_project_"@ + decimal(project_id)
}

/// The volume that holds the data of a database container.
pub open spec fn data_volume(container_name: Seq<char>) -> Seq<char> {
    container_name + "-data"@
}

pub fn workspace(dir: &str, deployment_id: i32) -> (path: String)
    ensures
        path@ == workspace_path(dir@, deployment_id as int),
{
    let name = "deployment-".to_owned().concat(i32_text(deployment_id).as_str());
    join_path(dir, name.as_str())
}

pub fn image(project_id: i32, deployment_id: i32) -> (tag: String)
    ensures
        tag@ == image_tag(project_id as int, deployment_id as int),
{
    "deploynest-project-".to_owned().concat(i32_text(project_id).as_str()).concat(":").concat(
        i32_text(deployment_id).as_str(),
    )
}

pub fn container_name(project_id: i32, deployment_id: i32) -> (name: String)
    ensures
        name@ == app_container(project_id as int, deployment_id as int),
{
    "deploynest-".to_owned().concat(i32_text(project_id).as_str()).concat("-").concat(
        i32_text(deployment_id).as_str(),
    )
}

pub fn project_label(project_id: i32) -> (label: String)
    ensures
        label@ == project_tag(project_id as int),
{
    "deploynest.project_id=".to_owned().concat(i32_text(project_id).as_str())
}

pub fn port_mapping(host_port: u16, container_port: u16) -> (mapping: String)
    ensures
        mapping@ == published(host_port as int, container_port as int),
{
    u16_text(host_port).concat(":").concat(u16_text(container_port).as_str())
}

pub fn hostname(project_name: &str, project_id: i32, base_domain: &str) -> (name: String)
    ensures
        name@ == host(project_name@, project_id as int, base_domain@),
{
    slugify(project_name).concat("-").concat(i32_text(project_id).as_str()).concat(".").concat(
        base_domain,
    )
}

pub fn public_url(scheme: &str, hostname: &str) -> (url: String)
    ensures
        url@ == site(scheme@, hostname@),
{
    scheme.to_owned().concat("://").concat(hostname)
}

pub fn route_id(project_id: i32) -> (id: String)
    ensures
        id@ == route_key(project_id as int),
{
    "deploynest_project_".to_owned().concat(i32_text(project_id).as_str())
}

pub fn volume_name(container_name: &str) -> (name: String)
    ensures
        name@ == data_volume(container_name@),
{
    container_name.to_owned().concat("-data")
}

// ---------------------------------------------------------------------------
// No two share a name
// ---------------------------------------------------------------------------

/// Two numbers with a separator between them that no digit is can be told apart.
proof fn lemma_pair(prefix: Seq<char>, sep: Seq<char>, a: int, b: int, c: int, d: int)
    requires
        prefix + decimal(a) + sep + decimal(b) == prefix + decimal(c) + sep + decimal(d),
        sep.len() == 1,
        !('0' <= sep[0] <= '9'),
    ensures
        a == c,
        b == d,
{
    lemma_decimal(a);
    lemma_decimal(c);
    let left = decimal(a) + sep + decimal(b);
    let right = decimal(c) + sep + decimal(d);
    assert(prefix + left =~= prefix + decimal(a) + sep + decimal(b));
    assert(prefix + right =~= prefix + decimal(c) + sep + decimal(d));
    lemma_same_prefix(prefix, left, right);
    let (m, n) = (decimal(a).len() as int, decimal(c).len() as int);
    assert(left[m] == sep[0]);
    assert(right[n] == sep[0]);
    if m < n {
        assert(right[m] == decimal(c)[m]);
    } else if n < m {
        assert(left[n] == decimal(a)[n]);
    }
    assert(left.take(m) =~= decimal(a));
    assert(right.take(n) =~= decimal(c));
    assert(left.skip(m + 1) =~= decimal(b));
    assert(right.skip(n + 1) =~= decimal(d));
    law_decimal_is_injective(a, c);
    law_decimal_is_injective(b, d);
}

/// Two deployments share a container name only if they are one deployment of one
/// project.
pub proof fn law_container_names_are_distinct(
    project: int,
    deployment: int,
    project2: int,
    deployment2: int,
)
    requires
        app_container(project, deployment) == app_container(project2, deployment2),
    ensures
        project == project2,
        deployment == deployment2,
{
    reveal_strlit("-");
    lemma_pair("deploynest-"@, "-"@, project, deployment, project2, deployment2);
}

/// Two deployments share an image only if they are one deployment of one project.
pub proof fn law_images_are_distinct(project: int, deployment: int, project2: int, deployment2: int)
    requires
        image_tag(project, deployment) == image_tag(project2, deployment2),
    ensures
        project == project2,
        deployment == deployment2,
{
    reveal_strlit(":");
    lemma_pair("deploynest-project-"@, ":"@, project, deployment, project2, deployment2);
}

/// Two deployments never share a workspace.
pub proof fn law_workspaces_are_distinct(dir: Seq<char>, deployment: int, deployment2: int)
    requires
        workspace_path(dir, deployment) == workspace_path(dir, deployment2),
    ensures
        deployment == deployment2,
{
    let start = lemma_workspace_parts(dir, deployment);
    lemma_workspace_parts(dir, deployment2);
    lemma_same_prefix(start, decimal(deployment), decimal(deployment2));
    law_decimal_is_injective(deployment, deployment2);
}

proof fn lemma_workspace_parts(dir: Seq<char>, deployment: int) -> (start: Seq<char>)
    ensures
        workspace_path(dir, deployment) == start + decimal(deployment),
        start == if dir.len() == 0 || dir.last() == '/' {
            dir + "deployment-"@
        } else {
            dir + seq!['/'] + "deployment-"@
        },
{
    let start = if dir.len() == 0 || dir.last() == '/' {
        dir + "deployment-"@
    } else {
        dir + seq!['/'] + "deployment-"@
    };
    assert(workspace_path(dir, deployment) =~= start + decimal(deployment));
    start
}

proof fn lemma_no_shorter_workspace(
    dir: Seq<char>,
    deployment: int,
    deployment2: int,
    path: Seq<char>,
)
    requires
        is_inside(workspace_path(dir, deployment), path),
        is_inside(workspace_path(dir, deployment2), path),
    ensures
        workspace_path(dir, deployment).len() >= workspace_path(dir, deployment2).len(),
{
    let start = lemma_workspace_parts(dir, deployment);
    lemma_workspace_parts(dir, deployment2);
    lemma_decimal(deployment);
    lemma_decimal(deployment2);
    let (a, b) = (workspace_path(dir, deployment), workspace_path(dir, deployment2));
    let n = a.len() as int;
    if n < b.len() {
        assert((a + seq!['/'])[n] == '/');
        assert(path[n] == '/') by {
            assert(path.subrange(0, n + 1)[n] == path[n]);
        }
        assert(b[n] == path[n]) by {
            if path != b {
                let m = b.len() as int + 1;
                assert(path.subrange(0, m)[n] == (b + seq!['/'])[n]);
            }
        }
        assert(b[n] == decimal(deployment2)[n - start.len()]);
        assert(false);
    }
}

/// No path lies in the workspaces of two deployments.
pub proof fn law_workspaces_do_not_overlap(
    dir: Seq<char>,
    deployment: int,
    deployment2: int,
    path: Seq<char>,
)
    requires
        is_inside(workspace_path(dir, deployment), path),
        is_inside(workspace_path(dir, deployment2), path),
    ensures
        deployment == deployment2,
{
    lemma_no_shorter_workspace(dir, deployment, deployment2, path);
    lemma_no_shorter_workspace(dir, deployment2, deployment, path);
    let (a, b) = (workspace_path(dir, deployment), workspace_path(dir, deployment2));
    assert(path.subrange(0, a.len() as int) =~= a) by {
        if path != a {
            let m = a.len() as int + 1;
            assert(path.subrange(0, m) =~= a + seq!['/']);
            assert forall|i: int| 0 <= i < a.len() implies path[i] == a[i] by {
                assert(path.subrange(0, m)[i] == (a + seq!['/'])[i]);
            }
        }
    }
    assert(path.subrange(0, b.len() as int) =~= b) by {
        if path != b {
            let m = b.len() as int + 1;
            assert(path.subrange(0, m) =~= b + seq!['/']);
            assert forall|i: int| 0 <= i < b.len() implies path[i] == b[i] by {
                assert(path.subrange(0, m)[i] == (b + seq!['/'])[i]);
            }
        }
    }
    law_workspaces_are_distinct(dir, deployment, deployment2);
}

/// Two projects never share a label or a proxy route.
pub proof fn law_project_keys_are_distinct(project: int, project2: int)
    ensures
        project_tag(project) == project_tag(project2) ==> project == project2,
        route_key(project) == route_key(project2) ==> project == project2,
{
    if project_tag(project) == project_tag(project2) {
        lemma_same_prefix("deploynest.project_id="@, decimal(project), decimal(project2));
        law_decimal_is_injective(project, project2);
    }
    if route_key(project) == route_key(project2) {
        lemma_same_prefix("deploynest_project_"@, decimal(project), decimal(project2));
        law_decimal_is_injective(project, project2);
    }
}

proof fn lemma_shorter_number(name: Seq<char>, project: int, name2: Seq<char>, project2: int)
    requires
        host_label(name, project) == host_label(name2, project2),
    ensures
        decimal(project).len() >= decimal(project2).len(),
{
    reveal_strlit("-");
    law_slug_is_label(name);
    lemma_decimal(project);
    lemma_decimal(project2);
    let left = host_label(name, project);
    let right = host_label(name2, project2);
    let (m, n) = (decimal(project).len() as int, decimal(project2).len() as int);
    if m < n {
        let hyphen = left.len() - m - 1;
        assert(left[hyphen] == '-');
        assert(right[hyphen] == decimal(project2)[n - m - 1]);
        assert(n == m + 1);
        assert(right[hyphen - 1] == '-');
        assert(left[hyphen - 1] == slug(name).last());
        assert(false);
    }
}

/// Two projects never share a host name, whatever they are called.
pub proof fn law_hostnames_are_distinct(
    name: Seq<char>,
    project: int,
    name2: Seq<char>,
    project2: int,
    base_domain: Seq<char>,
)
    requires
        host(name, project, base_domain) == host(name2, project2, base_domain),
    ensures
        project == project2,
{
    let left = host_label(name, project);
    let right = host_label(name2, project2);
    let tail = "."@ + base_domain;
    assert(left + tail =~= host(name, project, base_domain));
    assert(right + tail =~= host(name2, project2, base_domain));
    assert(left.len() == right.len());
    assert((left + tail).take(left.len() as int) =~= left);
    assert((right + tail).take(right.len() as int) =~= right);
    lemma_shorter_number(name, project, name2, project2);
    lemma_shorter_number(name2, project2, name, project);
    reveal_strlit("-");
    let m = decimal(project).len() as int;
    assert(left.skip(left.len() - m) =~= decimal(project));
    assert(right.skip(right.len() - m) =~= decimal(project2));
    law_decimal_is_injective(project, project2);
}

/// The first label of a project's host name is one that a host name can hold.
pub proof fn law_host_label_is_safe(name: Seq<char>, project: int)
    requires
        project >= 0,
    ensures
        is_label(host_label(name, project)),
{
    reveal_strlit("-");
    law_slug_is_label(name);
    lemma_decimal(project);
    let s = slug(name);
    let d = decimal(project);
    let all = host_label(name, project);
    assert forall|i: int| 0 <= i < all.len() implies is_slug_char(#[trigger] all[i]) || all[i]
        == '-' by {
        if i < s.len() {
            assert(all[i] == s[i]);
        } else if i > s.len() {
            assert(all[i] == d[i - s.len() - 1]);
        }
    }
    assert forall|i: int| 0 < i < all.len() && #[trigger] all[i] == '-' implies all[i - 1]
        != '-' by {
        if i < s.len() {
            assert(all[i] == s[i] && all[i - 1] == s[i - 1]);
        } else if i == s.len() {
            assert(all[i - 1] == s.last());
        } else {
            assert(all[i] == d[i - s.len() - 1]);
        }
    }
    assert(all[0] == s[0]);
    assert(all.last() == d.last());
}

/// A port mapping tells its two ports apart: the host's comes first, then a colon, then the
/// container's.
pub proof fn law_port_mapping_tells_ports(
    host_port: int,
    container_port: int,
    host_port2: int,
    container_port2: int,
)
    ensures
        (decimal(host_port) + ":"@).is_prefix_of(published(host_port, container_port)),
        published(host_port, container_port).skip(decimal(host_port).len() as int + 1) == decimal(
            container_port,
        ),
        published(host_port, container_port) == published(host_port2, container_port2) ==> host_port
            == host_port2 && container_port == container_port2,
{
    reveal_strlit(":");
    let mapping = published(host_port, container_port);
    let n = decimal(host_port).len() as int;
    assert(mapping.subrange(0, n + 1) =~= decimal(host_port) + ":"@);
    assert(mapping.skip(n + 1) =~= decimal(container_port));
    if mapping == published(host_port2, container_port2) {
        let none = Seq::<char>::empty();
        assert(none + decimal(host_port) + ":"@ + decimal(container_port) =~= mapping);
        assert(none + decimal(host_port2) + ":"@ + decimal(container_port2) =~= published(
            host_port2,
            container_port2,
        ));
        lemma_pair(none, ":"@, host_port, container_port, host_port2, container_port2);
    }
}

/// An address is the scheme, then `://`, then the host: it tells both apart wherever the schemes
/// hold no colon.
pub proof fn law_sites_tell_scheme_and_host(
    scheme: Seq<char>,
    hostname: Seq<char>,
    scheme2: Seq<char>,
    hostname2: Seq<char>,
)
    ensures
        (scheme + "://"@).is_prefix_of(site(scheme, hostname)),
        site(scheme, hostname).skip(scheme.len() as int + 3) == hostname,
        !scheme.contains(':') && !scheme2.contains(':') && site(scheme, hostname) == site(
            scheme2,
            hostname2,
        ) ==> scheme == scheme2 && hostname == hostname2,
{
    reveal_strlit("://");
    let (a, b) = (site(scheme, hostname), site(scheme2, hostname2));
    let (m, n) = (scheme.len() as int, scheme2.len() as int);
    assert(a.subrange(0, m + 3) =~= scheme + "://"@);
    assert(a.skip(m + 3) =~= hostname);
    assert(b.skip(n + 3) =~= hostname2);
    if !scheme.contains(':') && !scheme2.contains(':') && a == b {
        assert(a[m] == ':' && b[n] == ':');
        if m < n {
            assert(b[m] == scheme2[m]);
        } else if n < m {
            assert(a[n] == scheme[n]);
        }
        assert(a.take(m) =~= scheme);
        assert(b.take(n) =~= scheme2);
    }
}

/// A host name tells the project and the domain: it ends in the domain, and two are the same
/// only if the domain, the project and the slug of its name are.
pub proof fn law_hostnames_tell_project_and_domain(
    name: Seq<char>,
    project: int,
    base_domain: Seq<char>,
    name2: Seq<char>,
    project2: int,
    base_domain2: Seq<char>,
)
    ensures
        (slug(name) + "-"@).is_prefix_of(host(name, project, base_domain)),
        ({
            let all = host(name, project, base_domain);
            all.skip(all.len() - base_domain.len()) == base_domain && all[all.len()
                - base_domain.len() - 1] == '.'
        }),
        host(name, project, base_domain) == host(name2, project2, base_domain2) ==> base_domain
            == base_domain2 && project == project2 && slug(name) == slug(name2),
{
    reveal_strlit(".");
    reveal_strlit("-");
    let (a, b) = (host(name, project, base_domain), host(name2, project2, base_domain2));
    let (la, lb) = (host_label(name, project), host_label(name2, project2));
    assert(a.subrange(0, slug(name).len() as int + 1) =~= slug(name) + "-"@);
    assert(a.skip(a.len() - base_domain.len()) =~= base_domain);
    lemma_no_dot(name, project);
    lemma_no_dot(name2, project2);
    let (m, n) = (la.len() as int, lb.len() as int);
    if a == b {
        assert(a[m] == '.' && b[n] == '.');
        if m < n {
            assert(b[m] == lb[m]);
        } else if n < m {
            assert(a[n] == la[n]);
        }
        assert(a.take(m) =~= la);
        assert(b.take(n) =~= lb);
        assert(a.skip(m + 1) =~= base_domain);
        assert(b.skip(n + 1) =~= base_domain2);
        law_hostnames_are_distinct(name, project, name2, project2, base_domain);
        assert(la.take(slug(name).len() as int) =~= slug(name));
        assert(lb.take(slug(name2).len() as int) =~= slug(name2));
    }
}

proof fn lemma_no_dot(name: Seq<char>, project: int)
    ensures
        forall|i: int|
            0 <= i < host_label(name, project).len() ==> #[trigger] host_label(name, project)[i]
                != '.',
{
    reveal_strlit("-");
    law_slug_is_label(name);
    lemma_decimal(project);
    let all = host_label(name, project);
    let s = slug(name);
    assert forall|i: int| 0 <= i < all.len() implies #[trigger] all[i] != '.' by {
        if i < s.len() {
            assert(all[i] == s[i]);
        } else if i > s.len() {
            assert(all[i] == decimal(project)[i - s.len() - 1]);
        }
    }
}

/// Two database containers never share a volume.
pub proof fn law_volumes_are_distinct(container: Seq<char>, container2: Seq<char>)
    ensures
        container.is_prefix_of(data_volume(container)),
        data_volume(container) == data_volume(container2) ==> container == container2,
{
    let (a, b) = (data_volume(container), data_volume(container2));
    assert(a.subrange(0, container.len() as int) =~= container);
    assert(a.take(container.len() as int) =~= container);
    assert(b.take(container2.len() as int) =~= container2);
}

/// A workspace is an entry of the directory of workspaces, and is named by its deployment.
pub proof fn law_workspaces_lie_in_the_directory(dir: Seq<char>, deployment: int)
    ensures
        dir.is_prefix_of(workspace_path(dir, deployment)),
        dir.len() > 0 && dir.last() != '/' ==> is_inside(dir, workspace_path(dir, deployment)),
        ("deployment-"@ + decimal(deployment)).is_suffix_of(workspace_path(dir, deployment)),
{
    let name = "deployment-"@ + decimal(deployment);
    let path = workspace_path(dir, deployment);
    law_path_joins_directory_and_name(dir, name);
    assert(path.subrange(path.len() - name.len(), path.len() as int) =~= name);
    if dir.len() > 0 && dir.last() != '/' {
        let start = dir + seq!['/'];
        assert(path.subrange(0, start.len() as int) =~= start);
    }
}

/// Every name says what it is the name of: containers, images, labels and routes of the worker
/// begin with marks of its own.
pub proof fn law_names_are_marked(project: int, deployment: int)
    ensures
        ("deploynest-"@ + decimal(project)).is_prefix_of(app_container(project, deployment)),
        ("deploynest-project-"@ + decimal(project)).is_prefix_of(image_tag(project, deployment)),
        decimal(deployment).is_suffix_of(app_container(project, deployment)),
        decimal(deployment).is_suffix_of(image_tag(project, deployment)),
        project_tag(project) == "deploynest.project_id="@ + decimal(project),
        route_key(project) == "deploynest_project_"@ + decimal(project),
{
    let (p, d) = (decimal(project), decimal(deployment));
    let (c, i) = (app_container(project, deployment), image_tag(project, deployment));
    let (cs, im) = ("deploynest-"@ + p, "deploynest-project-"@ + p);
    assert(c.subrange(0, cs.len() as int) =~= cs);
    assert(i.subrange(0, im.len() as int) =~= im);
    assert(c.subrange(c.len() - d.len(), c.len() as int) =~= d);
    assert(i.subrange(i.len() - d.len(), i.len() as int) =~= d);
}

} // verus!
