//! What is done, in order, to connect to a data source.

use crate::text::text_message;
use vstd::prelude::*;
use vstd::string::StringExecFns;

verus! {

/// Where the program runs, as far as it matters for connecting.
#[derive(Clone, Copy, Debug, PartialEq, Eq, Structural)]
pub enum Platform {
    /// Windows: named pipes, shared memory and LocalDB are there.
    Windows,
    /// Any other system.
    Other,
    /// Any other system, with a container in the place of LocalDB.
    OtherWithLocalDb,
}

/// Calls nothing but reads `std::path::MAIN_SEPARATOR`, the character that separates the parts of a
/// path where the program runs. Nothing is said of it: it depends on the machine.
#[verifier::external_body]
fn main_separator() -> (c: char) {
    std::path::MAIN_SEPARATOR
}

impl Platform {
    /// Where the program runs: on Windows where paths are written with backslashes.
    pub fn current() -> (p: Platform)
        ensures
            p != Platform::OtherWithLocalDb,
    {
        if main_separator() == '\\' {
            Platform::Windows
        } else {
            Platform::Other
        }
    }
}

/// A result that a later action uses.
#[derive(Clone, Copy, Debug, PartialEq, Eq, Structural)]
pub enum ResultSlot {
    ResolvedPort,
    ResolvedPipePath,
}

/// One step on the way to a connection.
#[derive(Debug, PartialEq, Eq)]
pub enum ConnectionAction {
    CheckCache { cache_key: String },
    QuerySsrp { server: String, instance: String },
    UpdateCache { cache_key: String, port: u16 },
    ConnectTcp { host: String, port: u16, timeout_ms: u64 },
    ConnectTcpParallel { host: String, port: u16, timeout_ms: u64 },
    ConnectTcpFromSlot { host: String, slot: ResultSlot, timeout_ms: u64 },
    ConnectNamedPipe { pipe_path: String, timeout_ms: u64 },
    ConnectNamedPipeFromSlot { slot: ResultSlot, timeout_ms: u64 },
    ConnectSharedMemory { instance_name: String, timeout_ms: u64 },
    ConnectDac { host: String, timeout_ms: u64 },
    ResolveLocalDb { instance_name: String },
    TrySequence { actions: Vec<ConnectionAction>, timeout_ms: u64 },
}

/// A step on the way to a connection, with its texts as characters. Steps within a sequence are told
/// apart only where they are no sequences themselves.
#[verifier::ext_equal]
pub enum ActionView {
    CheckCache(Seq<char>),
    QuerySsrp(Seq<char>, Seq<char>),
    UpdateCache(Seq<char>, u16),
    ConnectTcp(Seq<char>, u16, u64),
    ConnectTcpParallel(Seq<char>, u16, u64),
    ConnectTcpFromSlot(Seq<char>, ResultSlot, u64),
    ConnectNamedPipe(Seq<char>, u64),
    ConnectNamedPipeFromSlot(ResultSlot, u64),
    ConnectSharedMemory(Seq<char>, u64),
    ConnectDac(Seq<char>, u64),
    ResolveLocalDb(Seq<char>),
    Sequence,
}

/// What a list of actions holds: single steps, and sequences of steps to try.
#[verifier::ext_equal]
pub enum StepView {
    One(ActionView),
    Try(Seq<ActionView>, u64),
}

impl ConnectionAction {
    /// The step itself, where it is not a sequence.
    pub open spec fn one(self) -> ActionView {
        match self {
            ConnectionAction::CheckCache { cache_key } => ActionView::CheckCache(cache_key@),
            ConnectionAction::QuerySsrp { server, instance } => ActionView::QuerySsrp(
                server@,
                instance@,
            ),
            ConnectionAction::UpdateCache { cache_key, port } => ActionView::UpdateCache(
                cache_key@,
                port,
            ),
            ConnectionAction::ConnectTcp { host, port, timeout_ms } => ActionView::ConnectTcp(
                host@,
                port,
                timeout_ms,
            ),
            ConnectionAction::ConnectTcpParallel { host, port, timeout_ms } => {
                ActionView::ConnectTcpParallel(host@, port, timeout_ms)
            },
            ConnectionAction::ConnectTcpFromSlot { host, slot, timeout_ms } => {
                ActionView::ConnectTcpFromSlot(host@, slot, timeout_ms)
            },
            ConnectionAction::ConnectNamedPipe { pipe_path, timeout_ms } => {
                ActionView::ConnectNamedPipe(pipe_path@, timeout_ms)
            },
            ConnectionAction::ConnectNamedPipeFromSlot { slot, timeout_ms } => {
                ActionView::ConnectNamedPipeFromSlot(slot, timeout_ms)
            },
            ConnectionAction::ConnectSharedMemory { instance_name, timeout_ms } => {
                ActionView::ConnectSharedMemory(instance_name@, timeout_ms)
            },
            ConnectionAction::ConnectDac { host, timeout_ms } => ActionView::ConnectDac(
                host@,
                timeout_ms,
            ),
            ConnectionAction::ResolveLocalDb { instance_name } => ActionView::ResolveLocalDb(
                instance_name@,
            ),
            ConnectionAction::TrySequence { .. } => ActionView::Sequence,
        }
    }
}

impl View for ConnectionAction {
    type V = StepView;

    open spec fn view(&self) -> StepView {
        match self {
            ConnectionAction::TrySequence { actions, timeout_ms } => StepView::Try(
                actions@.map_values(|a: ConnectionAction| a.one()),
                *timeout_ms,
            ),
            a => StepView::One(a.one()),
        }
    }
}

/// The views of a list of actions.
pub open spec fn steps(actions: Seq<ConnectionAction>) -> Seq<StepView> {
    actions.map_values(|a: ConnectionAction| a@)
}

/// What a chain of actions is for.
#[derive(Clone, Debug, PartialEq, Eq)]
pub struct ConnectionMetadata {
    pub source_string: String,
    pub server_name: String,
    pub instance_name: String,
    pub explicit_protocol: bool,
    pub timeout_ms: u64,
}

/// What is connected to: a way, and where it leads.
#[allow(inconsistent_fields)]
#[derive(Clone, Debug, PartialEq, Eq)]
pub enum TransportContext {
    Tcp { host: String, port: u16, instance_name: Option<String> },
    NamedPipe { pipe_name: String },
    SharedMemory { instance_name: String },
    LocalDB { instance_name: String },
}

/// A way to connect, with its texts as characters.
#[verifier::ext_equal]
pub enum TransportView {
    Tcp(Seq<char>, u16, Option<Seq<char>>),
    NamedPipe(Seq<char>),
    SharedMemory(Seq<char>),
    LocalDB(Seq<char>),
}

/// A text that may be missing, as characters.
pub open spec fn optional(s: Option<String>) -> Option<Seq<char>> {
    match s {
        Some(t) => Some(t@),
        None => None,
    }
}

impl View for TransportContext {
    type V = TransportView;

    open spec fn view(&self) -> TransportView {
        match self {
            TransportContext::Tcp { host, port, instance_name } => TransportView::Tcp(
                host@,
                *port,
                optional(*instance_name),
            ),
            TransportContext::NamedPipe { pipe_name } => TransportView::NamedPipe(pipe_name@),
            TransportContext::SharedMemory { instance_name } => TransportView::SharedMemory(
                instance_name@,
            ),
            TransportContext::LocalDB { instance_name } => TransportView::LocalDB(instance_name@),
        }
    }
}

impl TransportContext {
    /// The way to the server that a routing token names.
    pub fn from_routing_token(host: String, port: u16) -> (t: TransportContext)
        ensures
            t@ == TransportView::Tcp(host@, port, None),
    {
        TransportContext::Tcp { host, port, instance_name: None }
    }
}

/// The port of the dedicated administrator connection.
pub const DAC_PORT: u16 = 1434;

/// The port of a server's default instance.
pub const DEFAULT_PORT: u16 = 1433;

/// The way to connect that a step is, and its timeout. A step that is none, or whose goal is not
/// known beforehand, has none.
pub open spec fn way_of(a: ActionView) -> Option<(TransportView, u64)> {
    match a {
        ActionView::ConnectTcp(host, port, timeout) => Some(
            (TransportView::Tcp(host, port, None), timeout),
        ),
        ActionView::ConnectTcpParallel(host, port, timeout) => Some(
            (TransportView::Tcp(host, port, None), timeout),
        ),
        ActionView::ConnectNamedPipe(path, timeout) => Some(
            (TransportView::NamedPipe(path), timeout),
        ),
        ActionView::ConnectSharedMemory(instance, timeout) => Some(
            (TransportView::SharedMemory(instance), timeout),
        ),
        ActionView::ConnectDac(host, timeout) => Some(
            (TransportView::Tcp(host, DAC_PORT, None), timeout),
        ),
        _ => None,
    }
}

/// The ways to connect that steps are, in order.
pub open spec fn ways_of(actions: Seq<ActionView>) -> Seq<(TransportView, u64)>
    decreases actions.len(),
{
    if actions.len() == 0 {
        Seq::empty()
    } else {
        match way_of(actions.last()) {
            Some(w) => ways_of(actions.drop_last()).push(w),
            None => ways_of(actions.drop_last()),
        }
    }
}

/// The ways to connect of a whole chain, in order.
pub open spec fn ways(chain: Seq<StepView>) -> Seq<(TransportView, u64)>
    decreases chain.len(),
{
    if chain.len() == 0 {
        Seq::empty()
    } else {
        match chain.last() {
            StepView::One(a) => match way_of(a) {
                Some(w) => ways(chain.drop_last()).push(w),
                None => ways(chain.drop_last()),
            },
            StepView::Try(actions, _) => ways(chain.drop_last()) + ways_of(actions),
        }
    }
}

/// The views of ways to connect.
pub open spec fn way_views(v: Seq<(TransportContext, u64)>) -> Seq<(TransportView, u64)> {
    v.map_values(|p: (TransportContext, u64)| (p.0@, p.1))
}

/// Whether a server has to be asked where an instance is.
pub open spec fn asks_browser(chain: Seq<StepView>) -> bool {
    exists|i: int|
        0 <= i < chain.len() && (#[trigger] chain[i] matches StepView::One(
            ActionView::QuerySsrp(_, _),
        ))
}

/// Whether this is the first LocalDB instance that a chain resolves; none where it resolves none.
pub open spec fn is_localdb_of(chain: Seq<StepView>, instance: Option<Seq<char>>) -> bool {
    match instance {
        Some(s) => exists|i: int|
            0 <= i < chain.len() && #[trigger] chain[i] == StepView::One(
                ActionView::ResolveLocalDb(s),
            ) && forall|k: int|
                0 <= k < i ==> !(#[trigger] chain[k] matches StepView::One(
                    ActionView::ResolveLocalDb(_),
                )),
        None => forall|k: int|
            0 <= k < chain.len() ==> !(#[trigger] chain[k] matches StepView::One(
                ActionView::ResolveLocalDb(_),
            )),
    }
}

/// What is done, in order, to connect.
#[derive(Debug, PartialEq, Eq)]
pub struct ConnectionActionChain {
    metadata: ConnectionMetadata,
    actions: Vec<ConnectionAction>,
}

impl ConnectionActionChain {
    /// The actions.
    pub closed spec fn spec_actions(&self) -> Seq<ConnectionAction> {
        self.actions@
    }

    /// What the chain is for.
    pub closed spec fn spec_metadata(&self) -> ConnectionMetadata {
        self.metadata
    }

    /// The actions, as views.
    pub open spec fn steps(&self) -> Seq<StepView> {
        steps(self.spec_actions())
    }

    /// How many actions there are.
    pub fn len(&self) -> (n: usize)
        ensures
            n == self.steps().len(),
    {
        self.actions.len()
    }

    /// The actions.
    pub fn actions(&self) -> (a: &Vec<ConnectionAction>)
        ensures
            a@ == self.spec_actions(),
    {
        &self.actions
    }

    /// What the chain is for.
    pub fn metadata(&self) -> (m: &ConnectionMetadata)
        ensures
            *m == self.spec_metadata(),
    {
        &self.metadata
    }

    /// Whether a server has to be asked where an instance is.
    pub fn requires_ssrp(&self) -> (b: bool)
        ensures
            b == asks_browser(self.steps()),
    {
        let mut i: usize = 0;
        while i < self.actions.len()
            invariant
                i <= self.actions@.len(),
                forall|k: int|
                    0 <= k < i ==> !(#[trigger] self.steps()[k] matches StepView::One(
                        ActionView::QuerySsrp(_, _),
                    )),
            decreases self.actions@.len() - i,
        {
            assert(self.steps()[i as int] == self.actions@[i as int]@);
            if let ConnectionAction::QuerySsrp { .. } = &self.actions[i] {
                return true;
            }
            i += 1;
        }
        false
    }

    /// The LocalDB instance that has to be resolved first, where there is one.
    pub fn requires_localdb_resolution(&self) -> (r: Option<String>)
        ensures
            is_localdb_of(self.steps(), optional(r)),
    {
        let mut i: usize = 0;
        while i < self.actions.len()
            invariant
                i <= self.actions@.len(),
                forall|k: int|
                    0 <= k < i ==> !(#[trigger] self.steps()[k] matches StepView::One(
                        ActionView::ResolveLocalDb(_),
                    )),
            decreases self.actions@.len() - i,
        {
            assert(self.steps()[i as int] == self.actions@[i as int]@);
            if let ConnectionAction::ResolveLocalDb { instance_name } = &self.actions[i] {
                return Some(instance_name.clone());
            }
            i += 1;
        }
        None
    }

    /// The ways to connect, in the order in which they are tried, each with its timeout.
    pub fn resolve_transport_contexts(&self) -> (v: Vec<(TransportContext, u64)>)
        ensures
            way_views(v@) == ways(self.steps()),
    {
        let mut v: Vec<(TransportContext, u64)> = Vec::new();
        let mut i: usize = 0;
        assert(self.steps().take(0) =~= Seq::<StepView>::empty());
        assert(way_views(v@) =~= Seq::<(TransportView, u64)>::empty());
        while i < self.actions.len()
            invariant
                i <= self.actions@.len(),
                way_views(v@) == ways(self.steps().take(i as int)),
            decreases self.actions@.len() - i,
        {
            assert(self.steps().take(i + 1).drop_last() =~= self.steps().take(i as int));
            assert(self.steps()[i as int] == self.actions@[i as int]@);
            match &self.actions[i] {
                ConnectionAction::TrySequence { actions, timeout_ms } => {
                    let ghost before = way_views(v@);
                    let ghost views = actions@.map_values(|a: ConnectionAction| a.one());
                    let mut k: usize = 0;
                    assert(views.take(0) =~= Seq::<ActionView>::empty());
                    assert(before + Seq::<(TransportView, u64)>::empty() =~= before);
                    while k < actions.len()
                        invariant
                            k <= actions@.len(),
                            views == actions@.map_values(|a: ConnectionAction| a.one()),
                            way_views(v@) == before + ways_of(views.take(k as int)),
                        decreases actions@.len() - k,
                    {
                        assert(views.take(k + 1).drop_last() =~= views.take(k as int));
                        assert(views[k as int] == actions@[k as int].one());
                        let ghost so_far = way_views(v@);
                        if let Some(w) = to_way(&actions[k]) {
                            v.push(w);
                            assert(way_views(v@) =~= so_far.push((w.0@, w.1)));
                        }
                        assert(way_views(v@) =~= before + ways_of(views.take(k + 1)));
                        k += 1;
                    }
                    assert(views.take(k as int) =~= views);
                },
                a => {
                    let ghost so_far = way_views(v@);
                    if let Some(w) = to_way(a) {
                        v.push(w);
                        assert(way_views(v@) =~= so_far.push((w.0@, w.1)));
                    }
                },
            }
            i += 1;
        }
        assert(self.steps().take(i as int) =~= self.steps());
        v
    }

    /// A description for people: what is connected to, whether its protocol was given, and how many
    /// ways there are.
    pub fn describe(&self) -> (s: String)
        ensures
            s@ == "Connection to "@ + self.spec_metadata().server_name@ + "\nExplicit protocol: "@ + (
            if self.spec_metadata().explicit_protocol {
                "true"@
            } else {
                "false"@
            }) + "\nActions:"@ + describe_steps(self.steps()),
    {
        let mut s = text_message(
            "Connection to ",
            self.metadata.server_name.as_str(),
            "\nExplicit protocol: ",
        );
        s.append(
            if self.metadata.explicit_protocol {
                "true"
            } else {
                "false"
            },
        );
        s.append("\nActions:");
        let ghost head = s@;
        let mut i: usize = 0;
        assert(self.steps().take(0) =~= Seq::<StepView>::empty());
        assert(head + Seq::<char>::empty() =~= head);
        while i < self.actions.len()
            invariant
                i <= self.actions@.len(),
                s@ == head + describe_steps(self.steps().take(i as int)),
            decreases self.actions@.len() - i,
        {
            assert(self.steps().take(i + 1).drop_last() =~= self.steps().take(i as int));
            assert(self.steps()[i as int] == self.actions@[i as int]@);
            let ghost before = s@;
            s.append("\n  ");
            s.append(action_name(&self.actions[i]));
            assert(s@ =~= head + describe_steps(self.steps().take(i + 1)));
            i += 1;
        }
        assert(self.steps().take(i as int) =~= self.steps());
        s
    }
}

/// The names of steps, each in a line of its own.
pub open spec fn describe_steps(s: Seq<StepView>) -> Seq<char>
    decreases s.len(),
{
    if s.len() == 0 {
        Seq::empty()
    } else {
        describe_steps(s.drop_last()) + "\n  "@ + step_name(s.last())
    }
}

/// The name of a step.
pub open spec fn step_name(s: StepView) -> Seq<char> {
    match s {
        StepView::Try(_, _) => "try in order"@,
        StepView::One(a) => match a {
            ActionView::CheckCache(_) => "check the cache"@,
            ActionView::QuerySsrp(_, _) => "ask the browser service"@,
            ActionView::UpdateCache(_, _) => "update the cache"@,
            ActionView::ConnectTcp(_, _, _) => "connect by TCP"@,
            ActionView::ConnectTcpParallel(_, _, _) => "connect by TCP to all addresses"@,
            ActionView::ConnectTcpFromSlot(_, _, _) => "connect by TCP to the resolved port"@,
            ActionView::ConnectNamedPipe(_, _) => "connect by named pipe"@,
            ActionView::ConnectNamedPipeFromSlot(_, _) => "connect by the resolved named pipe"@,
            ActionView::ConnectSharedMemory(_, _) => "connect by shared memory"@,
            ActionView::ConnectDac(_, _) => "connect by TCP as administrator"@,
            ActionView::ResolveLocalDb(_) => "resolve LocalDB"@,
            ActionView::Sequence => "try in order"@,
        },
    }
}

/// The name of a step.
fn action_name(a: &ConnectionAction) -> (s: &'static str)
    ensures
        s@ == step_name(a@),
{
    match a {
        ConnectionAction::TrySequence { .. } => "try in order",
        ConnectionAction::CheckCache { .. } => "check the cache",
        ConnectionAction::QuerySsrp { .. } => "ask the browser service",
        ConnectionAction::UpdateCache { .. } => "update the cache",
        ConnectionAction::ConnectTcp { .. } => "connect by TCP",
        ConnectionAction::ConnectTcpParallel { .. } => "connect by TCP to all addresses",
        ConnectionAction::ConnectTcpFromSlot { .. } => "connect by TCP to the resolved port",
        ConnectionAction::ConnectNamedPipe { .. } => "connect by named pipe",
        ConnectionAction::ConnectNamedPipeFromSlot { .. } => "connect by the resolved named pipe",
        ConnectionAction::ConnectSharedMemory { .. } => "connect by shared memory",
        ConnectionAction::ConnectDac { .. } => "connect by TCP as administrator",
        ConnectionAction::ResolveLocalDb { .. } => "resolve LocalDB",
    }
}

/// The way to connect that a step is.
fn to_way(a: &ConnectionAction) -> (w: Option<(TransportContext, u64)>)
    ensures
        match w {
            Some(p) => way_of(a.one()) == Some((p.0@, p.1)),
            None => way_of(a.one()) is None,
        },
{
    match a {
        ConnectionAction::ConnectTcp { host, port, timeout_ms } => Some(
            (
                TransportContext::Tcp { host: host.clone(), port: *port, instance_name: None },
                *timeout_ms,
            ),
        ),
        ConnectionAction::ConnectTcpParallel { host, port, timeout_ms } => Some(
            (
                TransportContext::Tcp { host: host.clone(), port: *port, instance_name: None },
                *timeout_ms,
            ),
        ),
        ConnectionAction::ConnectNamedPipe { pipe_path, timeout_ms } => Some(
            (TransportContext::NamedPipe { pipe_name: pipe_path.clone() }, *timeout_ms),
        ),
        ConnectionAction::ConnectSharedMemory { instance_name, timeout_ms } => Some(
            (TransportContext::SharedMemory { instance_name: instance_name.clone() }, *timeout_ms),
        ),
        ConnectionAction::ConnectDac { host, timeout_ms } => Some(
            (
                TransportContext::Tcp { host: host.clone(), port: DAC_PORT, instance_name: None },
                *timeout_ms,
            ),
        ),
        _ => None,
    }
}

/// Builds a chain of actions. All connecting actions get the timeout of the whole.
pub struct ConnectionActionChainBuilder {
    metadata: ConnectionMetadata,
    actions: Vec<ConnectionAction>,
}

impl ConnectionActionChainBuilder {
    /// The actions so far, as views.
    pub closed spec fn steps(&self) -> Seq<StepView> {
        steps(self.actions@)
    }

    /// What the chain is for.
    pub closed spec fn spec_metadata(&self) -> ConnectionMetadata {
        self.metadata
    }

    /// A chain without actions.
    pub fn new(metadata: ConnectionMetadata) -> (b: ConnectionActionChainBuilder)
        ensures
            b.steps() == Seq::<StepView>::empty(),
            b.spec_metadata() == metadata,
    {
        let b = ConnectionActionChainBuilder { metadata, actions: Vec::new() };
        assert(b.steps() =~= Seq::<StepView>::empty());
        b
    }

    /// The chain.
    pub fn build(self) -> (c: ConnectionActionChain)
        ensures
            c.steps() == self.steps(),
            c.spec_metadata() == self.spec_metadata(),
    {
        ConnectionActionChain { metadata: self.metadata, actions: self.actions }
    }

    /// Adds an action.
    fn push(&mut self, action: ConnectionAction)
        ensures
            final(self).steps() == old(self).steps().push(action@),
            final(self).spec_metadata() == old(self).spec_metadata(),
    {
        self.actions.push(action);
        assert(self.steps() =~= old(self).steps().push(action@));
    }

    /// Adds a look into the cache.
    pub fn add_check_cache(&mut self, cache_key: &str)
        ensures
            final(self).steps() == old(self).steps().push(
                StepView::One(ActionView::CheckCache(cache_key@)),
            ),
            final(self).spec_metadata() == old(self).spec_metadata(),
    {
        self.push(
            ConnectionAction::CheckCache { cache_key: String::from_str(cache_key) },
        );
    }

    /// Adds a question to a server's browser service for an instance.
    pub fn add_ssrp_query(&mut self, server: &str, instance: &str)
        ensures
            final(self).steps() == old(self).steps().push(
                StepView::One(ActionView::QuerySsrp(server@, instance@)),
            ),
            final(self).spec_metadata() == old(self).spec_metadata(),
    {
        self.push(
            ConnectionAction::QuerySsrp {
                server: String::from_str(server),
                instance: String::from_str(instance),
            },
        );
    }

    /// Adds an update of the cache.
    pub fn add_update_cache(&mut self, cache_key: &str, port: u16)
        ensures
            final(self).steps() == old(self).steps().push(
                StepView::One(ActionView::UpdateCache(cache_key@, port)),
            ),
            final(self).spec_metadata() == old(self).spec_metadata(),
    {
        self.push(
            ConnectionAction::UpdateCache { cache_key: String::from_str(cache_key), port },
        );
    }

    /// Adds a connection by TCP.
    pub fn add_connect_tcp(&mut self, host: &str, port: u16)
        ensures
            final(self).steps() == old(self).steps().push(
                StepView::One(
                    ActionView::ConnectTcp(host@, port, old(self).spec_metadata().timeout_ms),
                ),
            ),
            final(self).spec_metadata() == old(self).spec_metadata(),
    {
        self.push(
            ConnectionAction::ConnectTcp {
                host: String::from_str(host),
                port,
                timeout_ms: self.metadata.timeout_ms,
            },
        );
    }

    /// Adds a connection by TCP to all addresses at once.
    pub fn add_parallel_tcp_connect(&mut self, host: &str, port: u16)
        ensures
            final(self).steps() == old(self).steps().push(
                StepView::One(
                    ActionView::ConnectTcpParallel(
                        host@,
                        port,
                        old(self).spec_metadata().timeout_ms,
                    ),
                ),
            ),
            final(self).spec_metadata() == old(self).spec_metadata(),
    {
        self.push(
            ConnectionAction::ConnectTcpParallel {
                host: String::from_str(host),
                port,
                timeout_ms: self.metadata.timeout_ms,
            },
        );
    }

    /// Adds a connection by TCP to a port that an earlier action finds.
    pub fn add_connect_tcp_from_slot(&mut self, host: &str, slot: ResultSlot)
        ensures
            final(self).steps() == old(self).steps().push(
                StepView::One(
                    ActionView::ConnectTcpFromSlot(
                        host@,
                        slot,
                        old(self).spec_metadata().timeout_ms,
                    ),
                ),
            ),
            final(self).spec_metadata() == old(self).spec_metadata(),
    {
        self.push(
            ConnectionAction::ConnectTcpFromSlot {
                host: String::from_str(host),
                slot,
                timeout_ms: self.metadata.timeout_ms,
            },
        );
    }

    /// Adds a connection by a named pipe.
    pub fn add_connect_named_pipe(&mut self, pipe_path: &str)
        ensures
            final(self).steps() == old(self).steps().push(
                StepView::One(
                    ActionView::ConnectNamedPipe(pipe_path@, old(self).spec_metadata().timeout_ms),
                ),
            ),
            final(self).spec_metadata() == old(self).spec_metadata(),
    {
        self.push(
            ConnectionAction::ConnectNamedPipe {
                pipe_path: String::from_str(pipe_path),
                timeout_ms: self.metadata.timeout_ms,
            },
        );
    }

    /// Adds a connection by a named pipe that an earlier action finds.
    pub fn add_connect_named_pipe_from_slot(&mut self, slot: ResultSlot)
        ensures
            final(self).steps() == old(self).steps().push(
                StepView::One(
                    ActionView::ConnectNamedPipeFromSlot(
                        slot,
                        old(self).spec_metadata().timeout_ms,
                    ),
                ),
            ),
            final(self).spec_metadata() == old(self).spec_metadata(),
    {
        self.push(
            ConnectionAction::ConnectNamedPipeFromSlot {
                slot,
                timeout_ms: self.metadata.timeout_ms,
            },
        );
    }

    /// Adds a connection by shared memory.
    pub fn add_connect_shared_memory(&mut self, instance_name: &str)
        ensures
            final(self).steps() == old(self).steps().push(
                StepView::One(
                    ActionView::ConnectSharedMemory(
                        instance_name@,
                        old(self).spec_metadata().timeout_ms,
                    ),
                ),
            ),
            final(self).spec_metadata() == old(self).spec_metadata(),
    {
        self.push(
            ConnectionAction::ConnectSharedMemory {
                instance_name: String::from_str(instance_name),
                timeout_ms: self.metadata.timeout_ms,
            },
        );
    }

    /// Adds a connection by TCP as administrator.
    pub fn add_connect_dac(&mut self, host: &str)
        ensures
            final(self).steps() == old(self).steps().push(
                StepView::One(ActionView::ConnectDac(host@, old(self).spec_metadata().timeout_ms)),
            ),
            final(self).spec_metadata() == old(self).spec_metadata(),
    {
        self.push(
            ConnectionAction::ConnectDac {
                host: String::from_str(host),
                timeout_ms: self.metadata.timeout_ms,
            },
        );
    }

    /// Adds the resolution of a LocalDB instance.
    pub fn add_resolve_localdb(&mut self, instance_name: &str)
        ensures
            final(self).steps() == old(self).steps().push(
                StepView::One(ActionView::ResolveLocalDb(instance_name@)),
            ),
            final(self).spec_metadata() == old(self).spec_metadata(),
    {
        self.push(
            ConnectionAction::ResolveLocalDb { instance_name: String::from_str(instance_name) },
        );
    }

    /// Adds a sequence of ways to try: on Windows shared memory first, where the server is local, then
    /// TCP, and a named pipe last; elsewhere TCP alone.
    pub fn add_protocol_waterfall(&mut self, server: &str, is_local: bool, platform: Platform)
        ensures
            final(self).steps() == old(self).steps().push(
                StepView::Try(
                    waterfall(server@, is_local, platform, old(self).spec_metadata().timeout_ms),
                    old(self).spec_metadata().timeout_ms,
                ),
            ),
            final(self).spec_metadata() == old(self).spec_metadata(),
    {
        let timeout_ms: u64 = self.metadata.timeout_ms;
        let mut actions: Vec<ConnectionAction> = Vec::new();
        let windows: bool = matches!(platform, Platform::Windows);
        if windows && is_local {
            actions.push(
                ConnectionAction::ConnectSharedMemory {
                    instance_name: String::from_str("MSSQLSERVER"),
                    timeout_ms,
                },
            );
        }
        actions.push(
            ConnectionAction::ConnectTcp {
                host: String::from_str(server),
                port: DEFAULT_PORT,
                timeout_ms,
            },
        );
        if windows {
            actions.push(
                ConnectionAction::ConnectNamedPipe {
                    pipe_path: default_pipe(server),
                    timeout_ms,
                },
            );
        }
        assert(actions@.map_values(|a: ConnectionAction| a.one()) =~= waterfall(
            server@,
            is_local,
            platform,
            timeout_ms,
        ));
        self.push(ConnectionAction::TrySequence { actions, timeout_ms });
    }
}

/// The named pipe of a server's default instance.
pub fn default_pipe(server: &str) -> (s: String)
    ensures
        s@ == default_pipe_path(server@),
{
    text_message("\\\\", server, "\\pipe\\sql\\query")
}

/// The named pipe of a server's default instance.
pub open spec fn default_pipe_path(server: Seq<char>) -> Seq<char> {
    "\\\\"@ + server + "\\pipe\\sql\\query"@
}

/// The ways to try where no protocol is given.
pub open spec fn waterfall(
    server: Seq<char>,
    is_local: bool,
    platform: Platform,
    timeout: u64,
) -> Seq<ActionView> {
    let tcp = seq![ActionView::ConnectTcp(server, DEFAULT_PORT, timeout)];
    if platform == Platform::Windows {
        let pipe = seq![ActionView::ConnectNamedPipe(default_pipe_path(server), timeout)];
        if is_local {
            seq![ActionView::ConnectSharedMemory("MSSQLSERVER"@, timeout)] + tcp + pipe
        } else {
            tcp + pipe
        }
    } else {
        tcp
    }
}

/// A description names the steps in their order, each in a line of its own that is set in by two blanks.
pub proof fn law_descriptions(steps: Seq<StepView>, step: StepView)
    ensures
        describe_steps(Seq::empty()).len() == 0,
        describe_steps(steps.push(step)) == describe_steps(steps) + seq!['\n', ' ', ' '] + step_name(step),
{
    reveal_strlit("\n  ");
    assert("\n  "@ =~= seq!['\n', ' ', ' ']);
    assert(steps.push(step).drop_last() =~= steps);
}

/// How the steps are named.
pub proof fn law_step_names(text: Seq<char>, port: u16, slot: ResultSlot, t: u64)
    ensures
        step_name(StepView::Try(Seq::empty(), t)) == "try in order"@,
        step_name(StepView::One(ActionView::CheckCache(text))) == "check the cache"@,
        step_name(StepView::One(ActionView::QuerySsrp(text, text))) == "ask the browser service"@,
        step_name(StepView::One(ActionView::UpdateCache(text, port))) == "update the cache"@,
        step_name(StepView::One(ActionView::ConnectTcp(text, port, t))) == "connect by TCP"@,
        step_name(StepView::One(ActionView::ConnectTcpParallel(text, port, t)))
            == "connect by TCP to all addresses"@,
        step_name(StepView::One(ActionView::ConnectTcpFromSlot(text, slot, t)))
            == "connect by TCP to the resolved port"@,
        step_name(StepView::One(ActionView::ConnectNamedPipe(text, t))) == "connect by named pipe"@,
        step_name(StepView::One(ActionView::ConnectNamedPipeFromSlot(slot, t)))
            == "connect by the resolved named pipe"@,
        step_name(StepView::One(ActionView::ConnectSharedMemory(text, t))) == "connect by shared memory"@,
        step_name(StepView::One(ActionView::ConnectDac(text, t))) == "connect by TCP as administrator"@,
        step_name(StepView::One(ActionView::ResolveLocalDb(text))) == "resolve LocalDB"@,
{
}

} // verus!
