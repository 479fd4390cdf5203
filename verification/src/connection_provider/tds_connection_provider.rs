//! From the name of a data source to a connection: which ways are tried, in which order, and what comes
//! of it. Connecting itself is left to the caller.

use crate::connection::client_context::ClientContext;
use crate::connection::connection_actions::{
    asks_browser, is_localdb_of, optional, way_views, ways, ConnectionActionChain, Platform,
    TransportContext, TransportView,
};
use crate::connection::datasource_parser::{
    chain_of, describes, get_computer_name, is_refusal, source_of, ParsedDataSource,
};
use crate::error::{Error, ErrorKind, TdsResult, TimeoutErrorType};
use crate::settings::EncryptionSetting;
use crate::strings::{lowercased, same};
use crate::text::trimmed;
use vstd::prelude::*;
use vstd::string::StringExecFns;

verus! {

/// How many milliseconds an action may take where no limit was given.
pub const DEFAULT_TIMEOUT_MS: u64 = 15000;

/// How many times a connection is sent on to another server.
pub const MAX_REDIRECTS: u32 = 10;

/// How many milliseconds an action may take.
pub open spec fn action_timeout(connect_timeout: u32) -> u64 {
    if connect_timeout > 0 {
        (connect_timeout * 1000) as u64
    } else {
        DEFAULT_TIMEOUT_MS
    }
}

/// Whether ways to connect lead to a container in the place of LocalDB: one has a host but no port.
pub open spec fn wants_container(w: Seq<(TransportView, u64)>) -> bool {
    exists|i: int|
        0 <= i < w.len() && ((#[trigger] w[i]).0 matches TransportView::Tcp(host, port, _) && port == 0
            && host.len() > 0)
}

/// What is done first of a chain of actions.
#[derive(Debug)]
pub enum ChainStart {
    /// A LocalDB instance is to be resolved to a named pipe.
    ResolveLocalDb { instance_name: String },
    /// The container in the place of LocalDB is to be started.
    StartContainer,
    /// Ways to connect are to be tried.
    Connect(Connecting),
}

/// What came of trying a way to connect.
#[derive(Debug)]
pub enum ConnectOutcome {
    Connected,
    TimedOut,
    Failed(Error),
}

/// What is done after a way to connect was tried.
#[derive(Debug)]
pub enum ConnectStep {
    Connected,
    /// The server sent the client on; this way is to be tried, without a limit of time.
    Redirect(TransportContext),
    /// The next way is to be tried.
    NextContext,
}

/// What came of trying a way to connect, as far as it decides what is done.
pub enum OutcomeView {
    Connected,
    Redirected,
    Failed(ErrorKind),
}

impl View for ConnectOutcome {
    type V = OutcomeView;

    open spec fn view(&self) -> OutcomeView {
        match self {
            ConnectOutcome::Connected => OutcomeView::Connected,
            ConnectOutcome::TimedOut => OutcomeView::Failed(ErrorKind::Timeout),
            ConnectOutcome::Failed(Error::Redirection { .. }) => OutcomeView::Redirected,
            ConnectOutcome::Failed(e) => OutcomeView::Failed(e.kind()),
        }
    }
}

/// What is done after a way to connect was tried, without the way to go on with.
pub enum StepKind {
    Connected,
    Redirect,
    NextContext,
}

/// How far the ways to connect have been tried.
pub struct ConnectView {
    pub next: nat,
    pub total: nat,
    pub redirects: nat,
}

/// What an outcome makes of trying ways to connect. The error of the last way is the error of all.
pub open spec fn connect_flow(s: ConnectView, outcome: OutcomeView) -> (
    ConnectView,
    Result<StepKind, ErrorKind>,
) {
    match outcome {
        OutcomeView::Connected => (s, Ok(StepKind::Connected)),
        OutcomeView::Redirected => if s.redirects >= MAX_REDIRECTS {
            (s, Err(ErrorKind::Protocol))
        } else {
            (ConnectView { redirects: s.redirects + 1, ..s }, Ok(StepKind::Redirect))
        },
        OutcomeView::Failed(k) => (
            ConnectView { next: s.next + 1, ..s },
            if s.next + 1 < s.total {
                Ok(StepKind::NextContext)
            } else {
                Err(k)
            },
        ),
    }
}

/// The ways to connect that are tried, in order.
#[derive(Debug)]
pub struct Connecting {
    contexts: Vec<(TransportContext, u64)>,
    next: usize,
    redirect_count: u32,
    timeout_sec: Option<u32>,
}

impl View for Connecting {
    type V = ConnectView;

    closed spec fn view(&self) -> ConnectView {
        ConnectView {
            next: self.next as nat,
            total: self.contexts@.len(),
            redirects: self.redirect_count as nat,
        }
    }
}

impl Connecting {
    /// The ways, each with its timeout.
    pub closed spec fn ways(&self) -> Seq<(TransportView, u64)> {
        way_views(self.contexts@)
    }

    /// How many seconds a way may take, where there is a limit.
    pub closed spec fn limit(&self) -> Option<u32> {
        self.timeout_sec
    }

    /// Starts with the first way; refused where there is none.
    fn start(contexts: Vec<(TransportContext, u64)>, connect_timeout: u32) -> (r: TdsResult<Connecting>)
        ensures
            contexts@.len() == 0 ==> (r matches Err(e) && e.kind() == ErrorKind::Protocol),
            contexts@.len() > 0 ==> (r matches Ok(c) && c.starts(
                way_views(contexts@),
                connect_timeout,
            )),
    {
        if contexts.len() == 0 {
            return Err(
                Error::ProtocolError(
                    String::from_str("No transport protocols available in action chain"),
                ),
            );
        }
        let timeout_sec: Option<u32> = if connect_timeout > 0 {
            Some(connect_timeout)
        } else {
            None
        };
        Ok(Connecting { contexts, next: 0, redirect_count: 0, timeout_sec })
    }

    /// Whether these ways are tried from the first on.
    pub open spec fn starts(&self, w: Seq<(TransportView, u64)>, connect_timeout: u32) -> bool {
        &&& self.ways() == w
        &&& self@ == (ConnectView { next: 0, total: w.len(), redirects: 0 })
        &&& self.limit() == (if connect_timeout > 0 {
            Some(connect_timeout)
        } else {
            None
        })
    }

    /// The way that is tried next. It is not tried where the client was told to stop.
    pub fn attempt(&self, cancelled: bool) -> (r: TdsResult<&TransportContext>)
        requires
            self@.next < self@.total,
        ensures
            cancelled ==> (r matches Err(e) && e.kind() == ErrorKind::OperationCancelled),
            !cancelled ==> (r matches Ok(t) && t@ == self.ways()[self@.next as int].0),
    {
        if cancelled {
            return Err(Error::OperationCancelledError(String::from_str("Login has been cancelled.")));
        }
        Ok(&self.contexts[self.next].0)
    }

    /// How many seconds a way may take, where there is a limit.
    pub fn timeout_sec(&self) -> (t: Option<u32>)
        ensures
            t == self.limit(),
    {
        self.timeout_sec
    }

    /// Takes what came of trying a way: a server that sends the client on is followed for a number of
    /// times; after another failure the next way is tried.
    pub fn outcome(&mut self, outcome: ConnectOutcome) -> (r: TdsResult<ConnectStep>)
        requires
            old(self)@.next < old(self)@.total,
        ensures
            final(self)@ == connect_flow(old(self)@, outcome@).0,
            final(self).ways() == old(self).ways(),
            final(self).limit() == old(self).limit(),
            match connect_flow(old(self)@, outcome@).1 {
                Ok(StepKind::Connected) => r matches Ok(ConnectStep::Connected),
                Ok(StepKind::Redirect) => r matches Ok(ConnectStep::Redirect(t)) && outcome
                    matches ConnectOutcome::Failed(Error::Redirection { host, port }) && t@
                    == TransportView::Tcp(host@, port, None),
                Ok(StepKind::NextContext) => r matches Ok(ConnectStep::NextContext),
                Err(k) => r matches Err(e) && e.kind() == k,
            },
            (outcome matches ConnectOutcome::Failed(e) && !(e is Redirection) && old(self)@.next + 1
                == old(self)@.total) ==> r == Err::<ConnectStep, Error>(outcome->Failed_0),
    {
        let total: usize = self.contexts.len();
        match outcome {
            ConnectOutcome::Connected => Ok(ConnectStep::Connected),
            ConnectOutcome::TimedOut => {
                self.next = self.next + 1;
                if self.next < total {
                    Ok(ConnectStep::NextContext)
                } else {
                    Err(
                        Error::TimeoutError(
                            TimeoutErrorType::String(String::from_str("Timeout while connecting")),
                        ),
                    )
                }
            },
            ConnectOutcome::Failed(error) => match error {
                Error::Redirection { host, port } => {
                    if self.redirect_count >= MAX_REDIRECTS {
                        return Err(
                            Error::ProtocolError(
                                String::from_str("Received more redirection tokens than expected."),
                            ),
                        );
                    }
                    self.redirect_count = self.redirect_count + 1;
                    Ok(ConnectStep::Redirect(TransportContext::from_routing_token(host, port)))
                },
                e => {
                    self.next = self.next + 1;
                    if self.next < total {
                        Ok(ConnectStep::NextContext)
                    } else {
                        Err(e)
                    }
                },
            },
        }
    }
}

/// Makes connections.
#[derive(Clone, Copy, Debug, PartialEq, Eq, Structural)]
pub struct TdsConnectionProvider {}

impl Default for TdsConnectionProvider {
    fn default() -> (p: TdsConnectionProvider)
        ensures
            p == (TdsConnectionProvider {}),
    {
        TdsConnectionProvider {}
    }
}

/// Whether this is the plan for a data source: what is wrong with its name, with the context, or with
/// both together, or else what is done to connect.
pub open spec fn planned(
    r: TdsResult<ConnectionActionChain>,
    context: ClientContext,
    validation: TdsResult<()>,
    datasource: Seq<char>,
    platform: Platform,
    computer: Option<Seq<char>>,
) -> bool {
    match source_of(
        trimmed(datasource),
        lowercased(trimmed(datasource)),
        context.multi_subnet_failover,
        platform,
        computer,
    ) {
        Err(t) => r matches Err(e) && is_refusal(e, t),
        Ok(source) => match validation {
            Err(e) => r == Err::<ConnectionActionChain, Error>(e),
            Ok(_) => if context.multi_subnet_failover && context.failover_partner@.len() > 0 {
                r matches Err(e) && e.kind() == ErrorKind::Usage
            } else {
                let timeout = action_timeout(context.connect_timeout);
                r matches Ok(c) && c.steps() == chain_of(source, platform, computer, timeout) && describes(
                    c.spec_metadata(),
                    source,
                    timeout,
                )
            },
        },
    }
}

impl TdsConnectionProvider {
    /// A provider.
    pub fn new() -> (p: TdsConnectionProvider)
        ensures
            p == (TdsConnectionProvider {}),
    {
        TdsConnectionProvider {}
    }

    /// What is done to connect to a data source, on the computer that this is. The context was validated
    /// with the result that is given.
    pub fn create_client(
        &self,
        context: &ClientContext,
        datasource: &str,
        validation: TdsResult<()>,
    ) -> (r: TdsResult<ConnectionActionChain>)
        ensures
            exists|platform: Platform, computer: Option<Seq<char>>|
                platform != Platform::OtherWithLocalDb && #[trigger] planned(
                    r,
                    *context,
                    validation,
                    datasource@,
                    platform,
                    computer,
                ),
    {
        let computer = get_computer_name();
        let platform: Platform = Platform::current();
        self.create_client_on(context, datasource, validation, platform, &computer)
    }

    /// What is done to connect to a data source, on a platform and on a computer with a name.
    pub fn create_client_on(
        &self,
        context: &ClientContext,
        datasource: &str,
        validation: TdsResult<()>,
        platform: Platform,
        computer: &Option<String>,
    ) -> (r: TdsResult<ConnectionActionChain>)
        ensures
            planned(r, *context, validation, datasource@, platform, optional(*computer)),
    {
        let parsed = ParsedDataSource::parse_on(
            datasource,
            context.multi_subnet_failover,
            platform,
            computer,
        )?;
        match validation {
            Ok(_) => {},
            Err(e) => {
                return Err(e);
            },
        }
        if context.multi_subnet_failover {
            if context.failover_partner.as_str().unicode_len() > 0 {
                return Err(
                    Error::UsageError(
                        String::from_str(
                            "MultiSubnetFailover cannot be used with FailoverPartner (database mirroring). These features are mutually exclusive. Remove one of the options.",
                        ),
                    ),
                );
            }
        }
        let timeout_ms: u64 = if context.connect_timeout > 0 {
            context.connect_timeout as u64 * 1000
        } else {
            DEFAULT_TIMEOUT_MS
        };
        Ok(parsed.to_connection_actions_on(timeout_ms, platform, computer))
    }

    /// What is done first of a chain of actions. Asking a server where an instance is, is not supported.
    pub fn execute_action_chain(
        &self,
        context: &ClientContext,
        action_chain: &ConnectionActionChain,
        platform: Platform,
    ) -> (r: TdsResult<ChainStart>)
        ensures
            ({
                let steps = action_chain.steps();
                let w = ways(steps);
                if asks_browser(steps) {
                    r matches Err(e) && e.kind() == ErrorKind::Protocol
                } else if platform == Platform::Windows && !is_localdb_of(steps, None) {
                    r matches Ok(ChainStart::ResolveLocalDb { instance_name }) && is_localdb_of(
                        steps,
                        Some(instance_name@),
                    )
                } else if platform == Platform::OtherWithLocalDb && wants_container(w) {
                    r matches Ok(ChainStart::StartContainer)
                } else if w.len() == 0 {
                    r matches Err(e) && e.kind() == ErrorKind::Protocol
                } else {
                    r matches Ok(ChainStart::Connect(c)) && c.starts(w, context.connect_timeout)
                }
            }),
    {
        if action_chain.requires_ssrp() {
            return Err(
                Error::ProtocolError(
                    String::from_str(
                        "Named instance connection requires SSRP (SQL Server Browser), which is not yet implemented. Please use explicit protocol with port: tcp:server,1433",
                    ),
                ),
            );
        }
        if matches!(platform, Platform::Windows) {
            if let Some(instance_name) = action_chain.requires_localdb_resolution() {
                return Ok(ChainStart::ResolveLocalDb { instance_name });
            }
        }
        let contexts = action_chain.resolve_transport_contexts();
        if matches!(platform, Platform::OtherWithLocalDb) && leads_to_container(&contexts) {
            return Ok(ChainStart::StartContainer);
        }
        let connecting = Connecting::start(contexts, context.connect_timeout)?;
        Ok(ChainStart::Connect(connecting))
    }

    /// Goes on with the named pipe that a LocalDB instance was resolved to. Its connections are not
    /// encrypted.
    pub fn localdb_resolved(&self, context: ClientContext, pipe_path: String) -> (r: (
        ClientContext,
        Connecting,
    ))
        ensures
            r.0 == (ClientContext { encryption: EncryptionSetting::PreferOff, ..context }),
            r.1.starts(
                seq![(TransportView::NamedPipe(pipe_path@), (context.connect_timeout * 1000) as u64)],
                context.connect_timeout,
            ),
    {
        let mut modified_context = context;
        modified_context.encryption = EncryptionSetting::PreferOff;
        let timeout_ms: u64 = modified_context.connect_timeout as u64 * 1000;
        let connecting = single_way(
            TransportContext::NamedPipe { pipe_name: pipe_path },
            timeout_ms,
            modified_context.connect_timeout,
        );
        (modified_context, connecting)
    }

    /// Goes on with the container that was started in the place of LocalDB. Without a user, and for its
    /// administrator without a password, its password is used.
    pub fn container_started(
        &self,
        context: ClientContext,
        host: String,
        port: u16,
        sa_password: String,
    ) -> (r: (ClientContext, Connecting))
        ensures
            r.0 == (ClientContext {
                user_name: r.0.user_name,
                password: r.0.password,
                ..context
            }),
            r.0.user_name@ == (if context.user_name@.len() == 0 {
                "sa"@
            } else {
                context.user_name@
            }),
            r.0.password@ == (if context.user_name@.len() == 0 || (context.user_name@ == "sa"@
                && context.password@.len() == 0) {
                sa_password@
            } else {
                context.password@
            }),
            r.1.starts(
                seq![
                    (TransportView::Tcp(host@, port, None), (context.connect_timeout * 1000) as u64),
                ],
                context.connect_timeout,
            ),
    {
        proof {
            reveal_strlit("sa");
        }
        let mut modified_context = context;
        if same(modified_context.user_name.as_str(), "sa")
            && modified_context.password.as_str().unicode_len() == 0 {
            modified_context.password = sa_password;
        } else if modified_context.user_name.as_str().unicode_len() == 0 {
            modified_context.user_name = String::from_str("sa");
            modified_context.password = sa_password;
        }
        let timeout_ms: u64 = modified_context.connect_timeout as u64 * 1000;
        let connecting = single_way(
            TransportContext::Tcp { host, port, instance_name: None },
            timeout_ms,
            modified_context.connect_timeout,
        );
        (modified_context, connecting)
    }
}

/// One way to connect, and no other.
fn single_way(way: TransportContext, timeout_ms: u64, connect_timeout: u32) -> (c: Connecting)
    ensures
        c.starts(seq![(way@, timeout_ms)], connect_timeout),
{
    let mut contexts: Vec<(TransportContext, u64)> = Vec::new();
    contexts.push((way, timeout_ms));
    assert(way_views(contexts@) =~= seq![(way@, timeout_ms)]);
    let timeout_sec: Option<u32> = if connect_timeout > 0 {
        Some(connect_timeout)
    } else {
        None
    };
    Connecting { contexts, next: 0, redirect_count: 0, timeout_sec }
}

/// Whether ways to connect lead to a container in the place of LocalDB.
fn leads_to_container(contexts: &Vec<(TransportContext, u64)>) -> (b: bool)
    ensures
        b == wants_container(way_views(contexts@)),
{
    let ghost w = way_views(contexts@);
    let mut i: usize = 0;
    while i < contexts.len()
        invariant
            i <= contexts@.len(),
            w == way_views(contexts@),
            forall|k: int|
                0 <= k < i ==> !((#[trigger] w[k]).0 matches TransportView::Tcp(host, port, _) && port
                    == 0 && host.len() > 0),
        decreases contexts@.len() - i,
    {
        assert(w[i as int].0 == contexts@[i as int].0@);
        if let TransportContext::Tcp { host, port, .. } = &contexts[i].0 {
            if *port == 0 && host.as_str().unicode_len() > 0 {
                return true;
            }
        }
        i += 1;
    }
    false
}

/// What trying ways to connect comes to after these outcomes, and how far it has come.
pub open spec fn connect_run(s: ConnectView, outcomes: Seq<OutcomeView>) -> (
    ConnectView,
    Result<StepKind, ErrorKind>,
)
    decreases outcomes.len(),
{
    if outcomes.len() == 0 {
        (s, Ok(StepKind::NextContext))
    } else {
        let (before, r) = connect_run(s, outcomes.drop_last());
        match r {
            Ok(StepKind::NextContext) | Ok(StepKind::Redirect) => connect_flow(before, outcomes.last()),
            _ => (before, r),
        }
    }
}

/// Whether trying ways to connect goes on after these outcomes.
pub open spec fn goes_on(s: ConnectView, outcomes: Seq<OutcomeView>) -> bool {
    match connect_run(s, outcomes).1 {
        Ok(StepKind::NextContext) | Ok(StepKind::Redirect) => true,
        _ => false,
    }
}

/// However servers answer, connecting comes to an end: it goes on after no more outcomes than there are
/// ways and redirections allowed.
pub proof fn law_connecting_ends(total: nat, outcomes: Seq<OutcomeView>)
    requires
        total > 0,
        goes_on(ConnectView { next: 0, total, redirects: 0 }, outcomes),
    ensures
        outcomes.len() < total + MAX_REDIRECTS,
        ({
            let s = connect_run(ConnectView { next: 0, total, redirects: 0 }, outcomes).0;
            s.next < total && s.redirects <= MAX_REDIRECTS && s.next + s.redirects == outcomes.len()
                && s.total == total
        }),
    decreases outcomes.len(),
{
    let start = ConnectView { next: 0, total, redirects: 0 };
    if outcomes.len() > 0 {
        let shorter = outcomes.drop_last();
        if goes_on(start, shorter) {
            law_connecting_ends(total, shorter);
        }
    }
}

/// The client is sent on at most the allowed number of times: one more time is an error.
pub proof fn law_redirects_are_bounded(total: nat, outcomes: Seq<OutcomeView>)
    requires
        total > 0,
        outcomes.len() > MAX_REDIRECTS,
        forall|i: int| 0 <= i < outcomes.len() ==> #[trigger] outcomes[i] is Redirected,
    ensures
        connect_run(ConnectView { next: 0, total, redirects: 0 }, outcomes).1 == Err::<
            StepKind,
            ErrorKind,
        >(ErrorKind::Protocol),
    decreases outcomes.len(),
{
    let shorter = outcomes.drop_last();
    assert forall|i: int| 0 <= i < shorter.len() implies #[trigger] shorter[i] is Redirected by {
        assert(shorter[i] == outcomes[i]);
    }
    assert(outcomes[outcomes.len() - 1] is Redirected);
    if shorter.len() > MAX_REDIRECTS {
        law_redirects_are_bounded(total, shorter);
    } else {
        lemma_redirects_so_far(total, shorter);
    }
}

/// While the client is sent on no more than the allowed number of times, it goes on.
proof fn lemma_redirects_so_far(total: nat, outcomes: Seq<OutcomeView>)
    requires
        outcomes.len() <= MAX_REDIRECTS,
        forall|i: int| 0 <= i < outcomes.len() ==> #[trigger] outcomes[i] is Redirected,
    ensures
        goes_on(ConnectView { next: 0, total, redirects: 0 }, outcomes),
        connect_run(ConnectView { next: 0, total, redirects: 0 }, outcomes).0 == (ConnectView {
            next: 0,
            total,
            redirects: outcomes.len(),
        }),
    decreases outcomes.len(),
{
    if outcomes.len() > 0 {
        let shorter = outcomes.drop_last();
        assert forall|i: int| 0 <= i < shorter.len() implies #[trigger] shorter[i] is Redirected by {
            assert(shorter[i] == outcomes[i]);
        }
        assert(outcomes[outcomes.len() - 1] is Redirected);
        lemma_redirects_so_far(total, shorter);
    }
}

/// The time for an action is the connect timeout in milliseconds, and 15 seconds where there is none.
pub proof fn law_action_timeout(connect_timeout: u32)
    ensures
        connect_timeout > 0 ==> action_timeout(connect_timeout) == 1000 * connect_timeout,
        connect_timeout == 0 ==> action_timeout(connect_timeout) == 15 * 1000,
{
}

/// Ways that all fail are tried one after the other, and the last failure is the one that is told; a server
/// may send a client on ten times, and no more.
pub proof fn law_last_failure_is_told(total: nat, outcomes: Seq<OutcomeView>)
    requires
        outcomes.len() <= total,
        forall|i: int| 0 <= i < outcomes.len() ==> #[trigger] outcomes[i] is Failed,
    ensures
        ({
            let (s, r) = connect_run(ConnectView { next: 0, total, redirects: 0 }, outcomes);
            &&& s.next == outcomes.len()
            &&& s.redirects == 0
            &&& s.total == total
            &&& outcomes.len() > 0 && outcomes.len() == total ==> r == Err::<StepKind, ErrorKind>(
                outcomes.last()->Failed_0,
            )
            &&& outcomes.len() < total ==> r == Ok::<StepKind, ErrorKind>(StepKind::NextContext)
        }),
        forall|s: ConnectView|
            (#[trigger] connect_flow(s, OutcomeView::Redirected)).1 is Ok == (s.redirects < 10),
        forall|s: ConnectView|
            (#[trigger] connect_flow(s, OutcomeView::Connected)).1 == Ok::<StepKind, ErrorKind>(
                StepKind::Connected,
            ),
    decreases outcomes.len(),
{
    if outcomes.len() > 0 {
        let rest = outcomes.drop_last();
        assert(forall|i: int| 0 <= i < rest.len() ==> rest[i] == #[trigger] outcomes[i]);
        law_last_failure_is_told(total, rest);
    }
}

/// A container is wanted where one of the ways is TCP to port 0 of a host, and nowhere else.
pub proof fn law_container(a: Seq<(TransportView, u64)>, b: Seq<(TransportView, u64)>, w: (TransportView, u64))
    ensures
        !wants_container(Seq::empty()),
        wants_container(a + b) == (wants_container(a) || wants_container(b)),
        wants_container(seq![w]) == (w.0 matches TransportView::Tcp(host, port, _) && port == 0 && host.len()
            != 0),
{
    if wants_container(a + b) {
        let i = choose|i: int|
            0 <= i < (a + b).len() && ((#[trigger] (a + b)[i]).0 matches TransportView::Tcp(host, port, _)
                && port == 0 && host.len() > 0);
        if i < a.len() {
            assert((a + b)[i] == a[i]);
        } else {
            assert((a + b)[i] == b[i - a.len()]);
        }
    }
    if wants_container(a) {
        let i = choose|i: int|
            0 <= i < a.len() && ((#[trigger] a[i]).0 matches TransportView::Tcp(host, port, _) && port == 0
                && host.len() > 0);
        assert((a + b)[i] == a[i]);
    }
    if wants_container(b) {
        let i = choose|i: int|
            0 <= i < b.len() && ((#[trigger] b[i]).0 matches TransportView::Tcp(host, port, _) && port == 0
                && host.len() > 0);
        assert((a + b)[i + a.len()] == b[i]);
    }
    assert(seq![w][0] == w);
}

/// A plan is made only where the name of the data source can be read and the context is valid, and not to all
/// addresses at once with a partner to fail over to; it is then the plan of the data source, with the time of
/// the context. What is wrong with the context is told as it was found.
pub proof fn law_plans(
    r: TdsResult<ConnectionActionChain>,
    context: ClientContext,
    validation: TdsResult<()>,
    datasource: Seq<char>,
    platform: Platform,
    computer: Option<Seq<char>>,
)
    requires
        planned(r, context, validation, datasource, platform, computer),
    ensures
        ({
            let name = trimmed(datasource);
            let source = source_of(
                name,
                lowercased(name),
                context.multi_subnet_failover,
                platform,
                computer,
            );
            &&& r is Ok == (source is Ok && validation is Ok && !(context.multi_subnet_failover
                && context.failover_partner@.len() != 0))
            &&& r matches Ok(c) ==> c.steps() == chain_of(
                source->Ok_0,
                platform,
                computer,
                if context.connect_timeout == 0 {
                    15_000
                } else {
                    (1000 * context.connect_timeout) as u64
                },
            )
            &&& source is Ok ==> (validation matches Err(e) ==> r == Err::<ConnectionActionChain, Error>(e))
            &&& source is Err ==> (r matches Err(e) && e.kind() is Protocol)
        }),
{
}

} // verus!
