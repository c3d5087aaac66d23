//! What has to be in place before the first job.

use vstd::prelude::*;
use crate::command::{
    create_network, create_network_call, find_network, find_network_call, DOCKER_NETWORK,
};
use crate::config::{Config, ConfigView};
use crate::effect::{Effect, EffectView, Reply, ReplyView};
use crate::fault::{Fault, FaultView};
use crate::naming::{law_workspaces_lie_in_the_directory, workspace_path};
use crate::run::{unexpected, unexpected_reply};
use crate::text::{blank, is_blank};

verus! {

/// What the preparations wait for.
pub enum Setup {
    /// For the directory of the workspaces.
    Directory,
    /// To hear whether the network exists.
    Network,
    /// For the network.
    Created,
}

/// How far the preparations have come.
pub enum SetupProgress {
    Pending(Setup, Effect),
    Ready,
    Failed(Fault),
}

pub enum SetupProgressView {
    Pending(Setup, EffectView),
    Ready,
    Failed(FaultView),
}

impl View for SetupProgress {
    type V = SetupProgressView;

    open spec fn view(&self) -> SetupProgressView {
        match self {
            SetupProgress::Pending(setup, effect) => SetupProgressView::Pending(*setup, effect@),
            SetupProgress::Ready => SetupProgressView::Ready,
            SetupProgress::Failed(fault) => SetupProgressView::Failed(fault@),
        }
    }
}

pub open spec fn no_network() -> FaultView {
    FaultView::plain("Failed to create Docker network "@ + DOCKER_NETWORK@)
}

/// A reply that the preparations cannot go on from.
pub open spec fn setup_refused(reply: ReplyView) -> SetupProgressView {
    match reply {
        ReplyView::Failed(fault) => SetupProgressView::Failed(fault),
        _ => SetupProgressView::Failed(unexpected_reply()),
    }
}

impl Setup {
    /// The first thing that is asked for: the directory of the workspaces.
    pub open spec fn begun(config: ConfigView) -> SetupProgressView {
        SetupProgressView::Pending(
            Setup::Directory,
            EffectView::CreateDir(config.workspace_dir),
        )
    }

    /// The network is created only where it is missing.
    pub open spec fn stepped(self, reply: ReplyView) -> SetupProgressView {
        match self {
            Setup::Directory => match reply {
                ReplyView::Ready => SetupProgressView::Pending(
                    Setup::Network,
                    EffectView::RunCaptured(find_network_call()),
                ),
                _ => setup_refused(reply),
            },
            Setup::Network => match reply {
                ReplyView::Captured { stdout, .. } => if is_blank(stdout) {
                    SetupProgressView::Pending(
                        Setup::Created,
                        EffectView::RunWatched(create_network_call()),
                    )
                } else {
                    SetupProgressView::Ready
                },
                _ => setup_refused(reply),
            },
            Setup::Created => match reply {
                ReplyView::Watched(true) => SetupProgressView::Ready,
                ReplyView::Watched(false) => SetupProgressView::Failed(no_network()),
                _ => setup_refused(reply),
            },
        }
    }

    /// Begins the preparations.
    pub fn begin(config: &Config) -> (progress: SetupProgress)
        ensures
            progress@ == SetupProgressView::Pending(
                Setup::Directory,
                EffectView::CreateDir(config@.workspace_dir),
            ),
            progress@ == Setup::begun(config@),
    {
        SetupProgress::Pending(Setup::Directory, Effect::CreateDir(config.workspace_dir.clone()))
    }

    /// Goes on after the outside work asked for.
    pub fn step(self, reply: Reply) -> (progress: SetupProgress)
        ensures
            progress@ == self.stepped(reply@),
    {
        match self {
            Setup::Directory => match reply {
                Reply::Ready => SetupProgress::Pending(
                    Setup::Network,
                    Effect::RunCaptured(find_network()),
                ),
                _ => refused(reply),
            },
            Setup::Network => match reply {
                Reply::Captured { stdout, .. } => if blank(stdout.as_str()) {
                    SetupProgress::Pending(Setup::Created, Effect::RunWatched(create_network()))
                } else {
                    SetupProgress::Ready
                },
                _ => refused(reply),
            },
            Setup::Created => match reply {
                Reply::Watched(success) => if success {
                    SetupProgress::Ready
                } else {
                    SetupProgress::Failed(
                        Fault::new(
                            "Failed to create Docker network ".to_owned().concat(DOCKER_NETWORK),
                        ),
                    )
                },
                _ => refused(reply),
            },
        }
    }
}

fn refused(reply: Reply) -> (progress: SetupProgress)
    ensures
        progress@ == setup_refused(reply@),
{
    match reply {
        Reply::Failed(fault) => SetupProgress::Failed(fault),
        _ => SetupProgress::Failed(unexpected()),
    }
}

// ---------------------------------------------------------------------------
// Laws
// ---------------------------------------------------------------------------

/// How far the preparations have come after a number of replies.
pub open spec fn prepared(config: ConfigView, replies: Seq<ReplyView>) -> SetupProgressView
    decreases replies.len(),
{
    if replies.len() == 0 {
        Setup::begun(config)
    } else {
        match prepared(config, replies.drop_last()) {
            SetupProgressView::Pending(setup, _) => setup.stepped(replies.last()),
            ended => ended,
        }
    }
}

/// The preparations end after three replies at most.
pub proof fn law_setup_ends(config: ConfigView, replies: Seq<ReplyView>)
    requires
        replies.len() >= 3,
    ensures
        prepared(config, replies) !is Pending,
    decreases replies.len(),
{
    if replies.len() > 3 {
        law_setup_ends(config, replies.drop_last());
    } else {
        reveal_with_fuel(prepared, 4);
    }
}

/// The network is created exactly where the look for it found nothing, and the
/// preparations are complete only once it was found or has been created.
pub proof fn law_network_is_created_only_if_missing(setup: Setup, reply: ReplyView)
    ensures
        setup.stepped(reply) == SetupProgressView::Pending(
            Setup::Created,
            EffectView::RunWatched(create_network_call()),
        ) <==> setup is Network && (reply matches ReplyView::Captured { stdout, .. }
            && is_blank(stdout)),
        setup.stepped(reply) is Ready <==> {
            ||| setup is Network && (reply matches ReplyView::Captured { stdout, .. }
                && !is_blank(stdout))
            ||| setup is Created && reply == ReplyView::Watched(true)
        },
{
}

/// The directory that is created is the configured one, in which every deployment has its
/// workspace.
pub proof fn law_setup_creates_the_directory_of_workspaces(config: ConfigView, deployment_id: int)
    ensures
        Setup::begun(config) matches SetupProgressView::Pending(_, EffectView::CreateDir(dir)) && {
            &&& dir == config.workspace_dir
            &&& dir.is_prefix_of(workspace_path(config.workspace_dir, deployment_id))
        },
{
    law_workspaces_lie_in_the_directory(config.workspace_dir, deployment_id);
}

/// The preparations look for the network once the directory is there, and fail only with what
/// they heard of, or because the network could not be created.
pub proof fn law_setup_takes_its_steps(setup: Setup, reply: ReplyView)
    ensures
        setup is Directory && reply == ReplyView::Ready ==> setup.stepped(reply)
            == SetupProgressView::Pending(
            Setup::Network,
            EffectView::RunCaptured(find_network_call()),
        ),
        setup.stepped(reply) matches SetupProgressView::Failed(fault) ==> match reply {
            ReplyView::Failed(cause) => fault == cause,
            ReplyView::Watched(success) => if setup is Created {
                !success && fault.message == "Failed to create Docker network "@
                    + "deploynest-net"@ && fault.report == fault.message
            } else {
                fault.message == "Unexpected reply"@ && fault.report == fault.message
            },
            _ => fault.message == "Unexpected reply"@ && fault.report == fault.message,
        },
        reply is Failed ==> setup.stepped(reply) is Failed,
{
}

} // verus!
