//! Pointing the proxy at a container that is up.

use vstd::prelude::*;
use crate::command::{remove_call, remove_container};
use crate::config::{Config, ConfigView};
use crate::effect::{Effect, EffectView, Method, Reply, ReplyView};
use crate::fault::{Fault, FaultView};
use crate::naming::{host, hostname};
use crate::proxy::{
    insert_location, insert_url, is_success, project_route, route_body, route_location, route_url,
    succeeded,
};
use crate::run::{
    go, unexpected, unexpected_reply, Live, LiveView, Point, PointView, Turn, TurnView,
};
use crate::run::cutover::{complete, complete_turn};
use crate::store::{DeploymentJob, DeploymentJobView};

verus! {

/// Where a run waits until its host is served.
pub enum RoutePoint {
    /// To hear whether the project has a route already.
    Lookup(Live),
    /// For the proxy's reason not to tell.
    LookupRejected(Live),
    /// For the route to be replaced or inserted.
    Update(Live),
    /// For the proxy's reason to refuse it.
    UpdateRejected(Live),
    /// For the container to be removed that the proxy was not pointed at.
    Discard(Live, Fault),
}

pub enum RoutePointView {
    Lookup(LiveView),
    LookupRejected(LiveView),
    Update(LiveView),
    UpdateRejected(LiveView),
    Discard(LiveView, FaultView),
}

impl View for RoutePoint {
    type V = RoutePointView;

    open spec fn view(&self) -> RoutePointView {
        match self {
            RoutePoint::Lookup(live) => RoutePointView::Lookup(live@),
            RoutePoint::LookupRejected(live) => RoutePointView::LookupRejected(live@),
            RoutePoint::Update(live) => RoutePointView::Update(live@),
            RoutePoint::UpdateRejected(live) => RoutePointView::UpdateRejected(live@),
            RoutePoint::Discard(live, fault) => RoutePointView::Discard(live@, fault@),
        }
    }
}

// ---------------------------------------------------------------------------
// Turns
// ---------------------------------------------------------------------------

/// The host name that a deployment is served under.
pub open spec fn live_host(config: ConfigView, live: LiveView) -> Seq<char> {
    host(
        live.target.context.project_name,
        live.target.context.project_id as int,
        config.base_domain,
    )
}

/// The route that hands its requests to the container.
pub open spec fn live_route(config: ConfigView, live: LiveView) -> Seq<char> {
    project_route(
        live.target.context.project_id as int,
        live_host(config, live),
        config.caddy_upstream_host,
        live.port as int,
    )
}

pub open spec fn lookup_turn(config: ConfigView, live: LiveView) -> TurnView {
    TurnView::Go(
        PointView::Route(RoutePointView::Lookup(live)),
        EffectView::Request {
            method: Method::Get,
            url: route_location(
                config.caddy_admin_url,
                live.target.context.project_id as int,
            ),
            body: None,
        },
        seq![],
    )
}

/// A project without a route gets one, a project with a route has it replaced.
pub open spec fn update_request(config: ConfigView, live: LiveView, found: bool) -> EffectView {
    EffectView::Request {
        method: if found {
            Method::Patch
        } else {
            Method::Put
        },
        url: if found {
            route_location(config.caddy_admin_url, live.target.context.project_id as int)
        } else {
            insert_location(config.caddy_admin_url, config.caddy_server)
        },
        body: Some(live_route(config, live)),
    }
}

pub open spec fn update_turn(config: ConfigView, live: LiveView, found: bool) -> TurnView {
    TurnView::Go(
        PointView::Route(RoutePointView::Update(live)),
        update_request(config, live, found),
        seq![],
    )
}

/// A container that the proxy could not be pointed at is removed before the run gives
/// up.
pub open spec fn discard_turn(live: LiveView, fault: FaultView) -> TurnView {
    TurnView::Go(
        PointView::Route(RoutePointView::Discard(live, fault)),
        EffectView::RunWatched(remove_call(live.container_id)),
        seq![],
    )
}

/// What went wrong when a request to the proxy got no response.
pub open spec fn no_response(message: Seq<char>, reply: ReplyView) -> FaultView {
    match reply {
        ReplyView::Failed(fault) => fault.under(message),
        _ => unexpected_reply(),
    }
}

/// What went wrong when the proxy refused a request.
pub open spec fn rejection(message: Seq<char>, reply: ReplyView) -> FaultView {
    match reply {
        ReplyView::Body(text) => FaultView::plain(message + text),
        ReplyView::Failed(fault) => fault,
        _ => unexpected_reply(),
    }
}

pub open spec fn route_turn(
    config: ConfigView,
    job: DeploymentJobView,
    at: RoutePointView,
    reply: ReplyView,
) -> TurnView {
    match at {
        RoutePointView::Lookup(live) => match reply {
            ReplyView::Response(status) => if is_success(status) {
                update_turn(config, live, true)
            } else if status == 404 {
                update_turn(config, live, false)
            } else {
                TurnView::Go(
                    PointView::Route(RoutePointView::LookupRejected(live)),
                    EffectView::ReadBody,
                    seq![],
                )
            },
            _ => discard_turn(live, no_response("Cannot reach Caddy admin API"@, reply)),
        },
        RoutePointView::LookupRejected(live) => discard_turn(
            live,
            rejection("Caddy rejected route lookup: "@, reply),
        ),
        RoutePointView::Update(live) => match reply {
            ReplyView::Response(status) => if is_success(status) {
                complete_turn(config, job, live)
            } else {
                TurnView::Go(
                    PointView::Route(RoutePointView::UpdateRejected(live)),
                    EffectView::ReadBody,
                    seq![],
                )
            },
            _ => discard_turn(live, no_response("Cannot update Caddy proxy route"@, reply)),
        },
        RoutePointView::UpdateRejected(live) => discard_turn(
            live,
            rejection("Caddy rejected proxy route: "@, reply),
        ),
        RoutePointView::Discard(_, fault) => TurnView::Stop(fault),
    }
}

// ---------------------------------------------------------------------------
// Computation
// ---------------------------------------------------------------------------

pub(crate) fn live_hostname(config: &Config, live: &Live) -> (name: String)
    ensures
        name@ == live_host(config@, live@),
{
    hostname(
        live.target.context.project_name.as_str(),
        live.target.context.project_id,
        config.base_domain.as_str(),
    )
}

pub(crate) fn lookup(config: &Config, live: Live) -> (turn: Turn)
    ensures
        turn@ == lookup_turn(config@, live@),
{
    let url = route_url(config.caddy_admin_url.as_str(), live.target.context.project_id);
    go(
        Point::Route(RoutePoint::Lookup(live)),
        Effect::Request { method: Method::Get, url, body: None },
    )
}

fn configure_caddy(config: &Config, live: Live, found: bool) -> (turn: Turn)
    ensures
        turn@ == update_turn(config@, live@, found),
{
    let name = live_hostname(config, &live);
    let body = route_body(
        live.target.context.project_id,
        name.as_str(),
        config.caddy_upstream_host.as_str(),
        live.port,
    );
    let url = if found {
        route_url(config.caddy_admin_url.as_str(), live.target.context.project_id)
    } else {
        insert_url(config.caddy_admin_url.as_str(), config.caddy_server.as_str())
    };
    let method = if found {
        Method::Patch
    } else {
        Method::Put
    };
    go(
        Point::Route(RoutePoint::Update(live)),
        Effect::Request { method, url, body: Some(body) },
    )
}

fn discard(live: Live, fault: Fault) -> (turn: Turn)
    ensures
        turn@ == discard_turn(live@, fault@),
{
    let command = remove_container(live.container_id.as_str());
    go(Point::Route(RoutePoint::Discard(live, fault)), Effect::RunWatched(command))
}

fn unanswered(message: &str, reply: Reply) -> (fault: Fault)
    ensures
        fault@ == no_response(message@, reply@),
{
    match reply {
        Reply::Failed(fault) => fault.context(message),
        _ => unexpected(),
    }
}

fn rejected(message: &str, reply: Reply) -> (fault: Fault)
    ensures
        fault@ == rejection(message@, reply@),
{
    match reply {
        Reply::Body(text) => Fault::new(message.to_owned().concat(text.as_str())),
        Reply::Failed(fault) => fault,
        _ => unexpected(),
    }
}

pub(crate) fn advance(
    config: &Config,
    job: &DeploymentJob,
    at: RoutePoint,
    reply: Reply,
) -> (turn: Turn)
    ensures
        turn@ == route_turn(config@, job@, at@, reply@),
{
    match at {
        RoutePoint::Lookup(live) => match reply {
            Reply::Response(status) => if succeeded(status) {
                configure_caddy(config, live, true)
            } else if status == 404 {
                configure_caddy(config, live, false)
            } else {
                go(Point::Route(RoutePoint::LookupRejected(live)), Effect::ReadBody)
            },
            _ => discard(live, unanswered("Cannot reach Caddy admin API", reply)),
        },
        RoutePoint::LookupRejected(live) => {
            let fault = rejected("Caddy rejected route lookup: ", reply);
            discard(live, fault)
        },
        RoutePoint::Update(live) => match reply {
            Reply::Response(status) => if succeeded(status) {
                complete(config, job, live)
            } else {
                go(Point::Route(RoutePoint::UpdateRejected(live)), Effect::ReadBody)
            },
            _ => discard(live, unanswered("Cannot update Caddy proxy route", reply)),
        },
        RoutePoint::UpdateRejected(live) => {
            let fault = rejected("Caddy rejected proxy route: ", reply);
            discard(live, fault)
        },
        RoutePoint::Discard(_, fault) => Turn::Stop(fault),
    }
}

} // verus!
