//! One plugin from start to shutdown: its socket, its registration, and what it leaves behind.
use vstd::prelude::*;

use crate::cdi::{self, spec_path};
use crate::dp::{RegisterRequest, RegisterRequestView};
use crate::plugin::{self, register_request, socket_name, DeviceServer, ServerView};
use crate::text;

verus! {

/// How the server came to an end by itself.
#[derive(Clone, Copy, Debug, PartialEq, Eq, Structural)]
pub enum ServerEnd {
    /// It ended without an error.
    Finished,
    /// It reported an error.
    Failed,
    /// The task that ran it failed.
    TaskFailed,
}

/// What happened since the last action of a plugin.
#[derive(Clone, Copy, Debug, PartialEq, Eq, Structural)]
pub enum RunEvent {
    /// The plugin was started.
    Started,
    /// A socket that an earlier run left was removed, or there was none, or that failed.
    SocketRemoved,
    /// The socket is bound.
    Bound,
    /// The socket could not be bound.
    BindFailed,
    /// The server is live.
    Serving,
    /// The kubelet took the registration.
    Registered,
    /// The kubelet did not take the registration.
    RegisterFailed,
    /// The server ended by itself.
    ServerEnded(ServerEnd),
    /// The plugin is to shut down.
    Cancelled,
    /// The server was ended.
    Aborted,
    /// The CDI spec was removed, or there was none, or that failed.
    SpecRemoved,
}

/// How a plugin ended.
#[derive(Clone, Copy, Debug, PartialEq, Eq, Structural)]
pub enum RunOutcome {
    /// In good order.
    Stopped,
    /// Its socket could not be bound.
    NotBound,
    /// Its server reported an error.
    ServerFailed,
    /// The task that ran its server failed.
    TaskFailed,
}

/// What a plugin does next.
#[derive(Debug)]
pub enum RunAction {
    /// Remove what an earlier run may have left at the socket's path.
    RemoveSocket { path: String },
    /// Bind the socket.
    Bind { path: String },
    /// Start the server on the socket.
    Serve,
    /// Register with the kubelet, at its own socket.
    Register { kubelet: String, request: RegisterRequest },
    /// Wait for the server to end or for the shutdown.
    Wait,
    /// End the server, without waiting for open streams.
    Abort,
    /// Remove the CDI spec, if there is one.
    RemoveSpec { path: String },
    /// Nothing is left to do.
    Finish(RunOutcome),
}

/// What a `RunAction` says.
pub enum RunActionView {
    RemoveSocket { path: Seq<char> },
    Bind { path: Seq<char> },
    Serve,
    Register { kubelet: Seq<char>, request: RegisterRequestView },
    Wait,
    Abort,
    RemoveSpec { path: Seq<char> },
    Finish(RunOutcome),
}

impl View for RunAction {
    type V = RunActionView;

    open spec fn view(&self) -> RunActionView {
        match *self {
            RunAction::RemoveSocket { path } => RunActionView::RemoveSocket { path: path@ },
            RunAction::Bind { path } => RunActionView::Bind { path: path@ },
            RunAction::Serve => RunActionView::Serve,
            RunAction::Register { kubelet, request } => RunActionView::Register {
                kubelet: kubelet@,
                request: request@,
            },
            RunAction::Wait => RunActionView::Wait,
            RunAction::Abort => RunActionView::Abort,
            RunAction::RemoveSpec { path } => RunActionView::RemoveSpec { path: path@ },
            RunAction::Finish(outcome) => RunActionView::Finish(outcome),
        }
    }
}

/// The path of the socket that a plugin serves.
pub open spec fn own_socket(server: ServerView) -> Seq<char> {
    text::joined(server.socket_dir, plugin::socket_name_of(server.resource.name@))
}

/// The path of a plugin's CDI spec.
pub open spec fn own_spec(server: ServerView) -> Seq<char> {
    cdi::path_of_spec(server.cdi_dir, server.resource.name@)
}

/// What a plugin does upon an event.
pub open spec fn next(server: ServerView, event: RunEvent) -> RunActionView {
    match event {
        RunEvent::Started => RunActionView::RemoveSocket { path: own_socket(server) },
        RunEvent::SocketRemoved => RunActionView::Bind { path: own_socket(server) },
        RunEvent::Bound => RunActionView::Serve,
        RunEvent::BindFailed => RunActionView::Finish(RunOutcome::NotBound),
        RunEvent::Serving => RunActionView::Register {
            kubelet: text::joined(server.socket_dir, "kubelet.sock"@),
            request: RegisterRequestView {
                version: "v1beta1"@,
                endpoint: plugin::socket_name_of(server.resource.name@),
                resource_name: server.resource.name@,
            },
        },
        RunEvent::Registered => RunActionView::Wait,
        RunEvent::RegisterFailed => RunActionView::Wait,
        RunEvent::ServerEnded(ServerEnd::Finished) => RunActionView::RemoveSpec {
            path: own_spec(server),
        },
        RunEvent::ServerEnded(ServerEnd::Failed) => RunActionView::Finish(RunOutcome::ServerFailed),
        RunEvent::ServerEnded(ServerEnd::TaskFailed) => RunActionView::Finish(
            RunOutcome::TaskFailed,
        ),
        RunEvent::Cancelled => RunActionView::Abort,
        RunEvent::Aborted => RunActionView::RemoveSpec { path: own_spec(server) },
        RunEvent::SpecRemoved => RunActionView::Finish(RunOutcome::Stopped),
    }
}

impl DeviceServer {
    /// The next action of the plugin.
    ///
    /// It serves first and registers after: the kubelet dials back and probes the endpoint inside
    /// the registration itself, so registering before the server is live waits until the
    /// kubelet's deadline expires. A registration that failed does not end the plugin. On
    /// shutdown there is no graceful drain: the kubelet's ListAndWatch stream is held open for
    /// the plugin's whole lifetime, so draining would wait forever. The CDI spec is removed on a
    /// clean shutdown, so that no stale device paths remain if the node is reconfigured while the
    /// plugin is absent.
    pub fn run(&self, event: RunEvent) -> (r: RunAction)
        ensures
            r@ == next(self@, event),
            r matches RunAction::Register { kubelet, request } ==> {
                &&& kubelet@ == text::joined(self@.socket_dir, "kubelet.sock"@)
                &&& request.version@ == "v1beta1"@
                &&& request.endpoint@ == plugin::socket_name_of(self@.resource.name@)
                &&& request.resource_name@ == self@.resource.name@
            },
            r matches RunAction::RemoveSocket { path } ==> path@ == text::joined(
                self@.socket_dir,
                plugin::socket_name_of(self@.resource.name@),
            ),
            r matches RunAction::Bind { path } ==> path@ == text::joined(
                self@.socket_dir,
                plugin::socket_name_of(self@.resource.name@),
            ),
            r matches RunAction::RemoveSpec { path } ==> path@ == cdi::path_of_spec(
                self@.cdi_dir,
                self@.resource.name@,
            ),
    {
        match event {
            RunEvent::Started => RunAction::RemoveSocket { path: self.own_socket_path() },
            RunEvent::SocketRemoved => RunAction::Bind { path: self.own_socket_path() },
            RunEvent::Bound => RunAction::Serve,
            RunEvent::BindFailed => RunAction::Finish(RunOutcome::NotBound),
            RunEvent::Serving => {
                let name = self.resource().name;
                RunAction::Register {
                    kubelet: self.socket_path("kubelet.sock"),
                    request: register_request(name, socket_name(name).as_str()),
                }
            },
            RunEvent::Registered => RunAction::Wait,
            RunEvent::RegisterFailed => RunAction::Wait,
            RunEvent::ServerEnded(ServerEnd::Finished) => RunAction::RemoveSpec {
                path: self.own_spec_path(),
            },
            RunEvent::ServerEnded(ServerEnd::Failed) => RunAction::Finish(RunOutcome::ServerFailed),
            RunEvent::ServerEnded(ServerEnd::TaskFailed) => RunAction::Finish(
                RunOutcome::TaskFailed,
            ),
            RunEvent::Cancelled => RunAction::Abort,
            RunEvent::Aborted => RunAction::RemoveSpec { path: self.own_spec_path() },
            RunEvent::SpecRemoved => RunAction::Finish(RunOutcome::Stopped),
        }
    }

    fn own_socket_path(&self) -> (r: String)
        ensures
            r@ == own_socket(self@),
    {
        self.socket_path(socket_name(self.resource().name).as_str())
    }

    fn own_spec_path(&self) -> (r: String)
        ensures
            r@ == own_spec(self@),
    {
        spec_path(self.cdi_dir(), self.resource().name)
    }
}

/// Whether `event` can be what comes of `action`.
pub open spec fn answers(action: RunActionView, event: RunEvent) -> bool {
    match action {
        RunActionView::RemoveSocket { .. } => event is SocketRemoved,
        RunActionView::Bind { .. } => event is Bound || event is BindFailed,
        RunActionView::Serve => event is Serving,
        RunActionView::Register { .. } => event is Registered || event is RegisterFailed,
        RunActionView::Wait => event is ServerEnded || event is Cancelled,
        RunActionView::Abort => event is Aborted,
        RunActionView::RemoveSpec { .. } => event is SpecRemoved,
        RunActionView::Finish(_) => false,
    }
}

/// Whether `events` can be what happens to the plugin `server`, from its start on.
pub open spec fn happens(server: ServerView, events: Seq<RunEvent>) -> bool {
    &&& events.len() > 0
    &&& events[0] is Started
    &&& forall|k: int|
        0 < k < events.len() ==> answers(next(server, events[k - 1]), #[trigger] events[k])
}

/// A plugin registers only when its server is live, and only once: the action right before is
/// to serve, on its own socket, which it bound right before that.
pub proof fn law_serves_before_registering(server: ServerView, events: Seq<RunEvent>, k: int)
    requires
        happens(server, events),
        0 <= k < events.len(),
        next(server, events[k]) is Register,
    ensures
        k == 3,
        next(server, events[2]) is Serve,
        events[3] is Serving,
        next(server, events[1]) == (RunActionView::Bind { path: own_socket(server) }),
{
    assert(events[k] is Serving);
    assert(answers(next(server, events[k - 1]), events[k]));
    assert(answers(next(server, events[k - 2]), events[k - 1]));
    assert(answers(next(server, events[k - 3]), events[k - 2]));
    if k > 3 {
        assert(answers(next(server, events[k - 4]), events[k - 3]));
    }
}

/// A plugin that is told to shut down ends in good order, whatever the removal of its CDI spec
/// comes to: it ends its server, removes its spec, and is done.
pub proof fn law_shutdown_removes_spec(server: ServerView, events: Seq<RunEvent>, k: int)
    requires
        happens(server, events),
        0 <= k < events.len(),
        events[k] is Cancelled,
    ensures
        next(server, events[k]) is Abort,
        k + 1 < events.len() ==> next(server, events[k + 1]) == (RunActionView::RemoveSpec {
            path: own_spec(server),
        }),
        k + 2 < events.len() ==> next(server, events[k + 2]) == RunActionView::Finish(
            RunOutcome::Stopped,
        ),
        events.len() <= k + 3,
{
    if k + 1 < events.len() {
        assert(answers(next(server, events[k]), events[k + 1]));
    }
    if k + 2 < events.len() {
        assert(answers(next(server, events[k + 1]), events[k + 2]));
    }
    if k + 3 < events.len() {
        assert(answers(next(server, events[k + 2]), events[k + 3]));
    }
}

/// A plugin that ended in good order has tried to remove its CDI spec; one that did not has left
/// it alone.
pub proof fn law_spec_removed_iff_stopped(server: ServerView, events: Seq<RunEvent>)
    requires
        happens(server, events),
        next(server, events.last()) is Finish,
    ensures
        next(server, events.last()) == RunActionView::Finish(RunOutcome::Stopped) <==> exists|k: int|
            0 <= k < events.len() && #[trigger] next(server, events[k])
                == (RunActionView::RemoveSpec { path: own_spec(server) }),
{
    let n = events.len() as int;
    assert(n > 1);
    assert(answers(next(server, events[n - 2]), events[n - 1]));
    if next(server, events.last()) == RunActionView::Finish(RunOutcome::Stopped) {
        assert(next(server, events[n - 2]) is RemoveSpec);
    }
    if exists|k: int|
        0 <= k < events.len() && #[trigger] next(server, events[k]) == (RunActionView::RemoveSpec {
            path: own_spec(server),
        }) {
        let k = choose|k: int|
            0 <= k < events.len() && #[trigger] next(server, events[k])
                == (RunActionView::RemoveSpec { path: own_spec(server) });
        assert(k + 1 < n);
        assert(answers(next(server, events[k]), events[k + 1]));
        if k + 2 < n {
            assert(answers(next(server, events[k + 1]), events[k + 2]));
        }
    }
}

/// How far a run has come when an event happens.
spec fn stage(event: RunEvent) -> int {
    match event {
        RunEvent::Started => 0,
        RunEvent::SocketRemoved => 1,
        RunEvent::Bound => 2,
        RunEvent::BindFailed => 2,
        RunEvent::Serving => 3,
        RunEvent::Registered => 4,
        RunEvent::RegisterFailed => 4,
        RunEvent::ServerEnded(_) => 5,
        RunEvent::Cancelled => 5,
        RunEvent::Aborted => 6,
        RunEvent::SpecRemoved => 7,
    }
}

proof fn lemma_stage_grows(server: ServerView, events: Seq<RunEvent>, k: int)
    requires
        happens(server, events),
        0 <= k < events.len(),
    ensures
        k <= stage(events[k]),
    decreases k,
{
    if k > 0 {
        lemma_stage_grows(server, events, k - 1);
        assert(answers(next(server, events[k - 1]), events[k]));
    }
}

/// A plugin never goes back: at most eight events happen to it, and none after it is done.
pub proof fn law_run_ends(server: ServerView, events: Seq<RunEvent>, k: int)
    requires
        happens(server, events),
    ensures
        events.len() <= 8,
        0 <= k < events.len() && next(server, events[k]) is Finish ==> k == events.len() - 1,
{
    lemma_stage_grows(server, events, events.len() - 1);
    if 0 <= k < events.len() - 1 {
        assert(answers(next(server, events[k]), events[k + 1]));
    }
}

/// Every resource of the table is served at a socket of its own.
pub proof fn law_one_socket_per_resource(server1: ServerView, server2: ServerView, i: int, j: int)
    requires
        0 <= i < crate::vfio::table().len(),
        0 <= j < crate::vfio::table().len(),
        server1.resource == crate::vfio::table()[i],
        server2.resource == crate::vfio::table()[j],
        server1.socket_dir == server2.socket_dir,
        own_socket(server1) == own_socket(server2),
    ensures
        i == j,
{
    reveal_strlit("kata-");
    reveal_strlit(".sock");
    reveal_strlit("nvidia.com/gpu");
    reveal_strlit("nvidia.com/nvswitch");
    reveal_strlit("gpu");
    reveal_strlit("nvswitch");
    reveal_strlit("nvidia.com");
    assert("nvidia.com/gpu"@ =~= "nvidia.com"@.push('/') + "gpu"@);
    assert("nvidia.com/nvswitch"@ =~= "nvidia.com"@.push('/') + "nvswitch"@);
    text::lemma_after_last("nvidia.com"@, '/', "gpu"@);
    text::lemma_after_last("nvidia.com"@, '/', "nvswitch"@);
    let name1 = plugin::socket_name_of(server1.resource.name@);
    let name2 = plugin::socket_name_of(server2.resource.name@);
    text::lemma_joined_unique(server1.socket_dir, name1, name2);
    assert(name1.len() == name2.len());
}

/// What a plugin does, event by event. Each event leads to one kind of action and no other: the
/// socket is cleared, bound and served, the resource is registered, and then the plugin waits,
/// whether or not that succeeded; it ends its server only when it is told to, removes its spec
/// only when its server is at an end without a failure, and ends as the last event says.
pub proof fn law_run_by_events(server: ServerView, event: RunEvent)
    ensures
        next(server, event) is RemoveSocket <==> event is Started,
        next(server, event) is Bind <==> event is SocketRemoved,
        next(server, event) is Serve <==> event is Bound,
        next(server, event) is Register <==> event is Serving,
        next(server, event) is Wait <==> event is Registered || event is RegisterFailed,
        next(server, event) is Abort <==> event is Cancelled,
        next(server, event) is RemoveSpec <==> event is Aborted || event == RunEvent::ServerEnded(
            ServerEnd::Finished,
        ),
        next(server, event) == RunActionView::Finish(RunOutcome::Stopped)
            <==> event is SpecRemoved,
        next(server, event) == RunActionView::Finish(RunOutcome::NotBound)
            <==> event is BindFailed,
        next(server, event) == RunActionView::Finish(RunOutcome::ServerFailed) <==> event
            == RunEvent::ServerEnded(ServerEnd::Failed),
        next(server, event) == RunActionView::Finish(RunOutcome::TaskFailed) <==> event
            == RunEvent::ServerEnded(ServerEnd::TaskFailed),
{
}

/// The paths that a plugin touches are its own: the socket that it clears is the one that it
/// binds, that of its resource in its socket directory; and the spec that it removes is the one
/// of its resource in its registry.
pub proof fn law_own_paths(server: ServerView, event: RunEvent)
    ensures
        next(server, event) matches RunActionView::RemoveSocket { path } ==> path == text::joined(
            server.socket_dir,
            plugin::socket_name_of(server.resource.name@),
        ),
        next(server, event) matches RunActionView::Bind { path } ==> path == text::joined(
            server.socket_dir,
            plugin::socket_name_of(server.resource.name@),
        ),
        next(server, event) matches RunActionView::RemoveSpec { path } ==> path
            == cdi::path_of_spec(server.cdi_dir, server.resource.name@),
{
}

/// A plugin registers the resource that it was made with, under the version `v1beta1`, at the
/// socket that it bound two events before, with the kubelet's socket in the same directory.
pub proof fn law_registers_what_it_serves(server: ServerView, events: Seq<RunEvent>, k: int)
    requires
        happens(server, events),
        0 <= k < events.len(),
        next(server, events[k]) is Register,
    ensures
        k >= 2,
        next(server, events[k])->Register_request.resource_name == server.resource.name@,
        next(server, events[k])->Register_request.version == "v1beta1"@,
        next(server, events[k])->Register_request.endpoint == plugin::socket_name_of(
            server.resource.name@,
        ),
        next(server, events[k])->Register_kubelet == text::joined(
            server.socket_dir,
            "kubelet.sock"@,
        ),
        next(server, events[k - 2]) == (RunActionView::Bind {
            path: text::joined(
                server.socket_dir,
                next(server, events[k])->Register_request.endpoint,
            ),
        }),
{
    law_serves_before_registering(server, events, k);
}

/// Plugins of different rows of the table never register one resource name, and in one socket
/// directory never one socket.
pub proof fn law_rows_register_apart(
    server1: ServerView,
    server2: ServerView,
    event1: RunEvent,
    event2: RunEvent,
    i: int,
    j: int,
)
    requires
        0 <= i < crate::vfio::table().len(),
        0 <= j < crate::vfio::table().len(),
        i != j,
        server1.resource == crate::vfio::table()[i],
        server2.resource == crate::vfio::table()[j],
        next(server1, event1) is Register,
        next(server2, event2) is Register,
    ensures
        next(server1, event1)->Register_request.resource_name
            != next(server2, event2)->Register_request.resource_name,
        server1.socket_dir == server2.socket_dir
            ==> next(server1, event1)->Register_request.endpoint
            != next(server2, event2)->Register_request.endpoint,
{
    reveal_strlit("nvidia.com/gpu");
    reveal_strlit("nvidia.com/nvswitch");
    assert("nvidia.com/gpu"@.len() != "nvidia.com/nvswitch"@.len());
    if server1.socket_dir == server2.socket_dir && next(server1, event1)->Register_request.endpoint
        == next(server2, event2)->Register_request.endpoint {
        law_one_socket_per_resource(server1, server2, i, j);
    }
}

} // verus!
