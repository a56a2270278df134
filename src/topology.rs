use vstd::prelude::*;

verus! {

/// How the port of a binding is chosen.
#[derive(Clone, Copy, PartialEq, Eq, Structural, Debug)]
pub enum NetworkHint {
    /// The host picks a free port; the address is known once deployed.
    Auto,
    /// Exactly this port.
    FixedPort(u16),
    /// The host's own network rules pick the port.
    DeploymentResolved,
}

/// A cloud virtual machine, as the provider is asked for it.
#[derive(Clone, Debug)]
pub struct CloudHost {
    pub project: String,
    pub machine_type: String,
    pub image: String,
    pub region: String,
    pub network: String,
}

/// Where a location's process runs.
#[derive(Clone, Debug)]
pub enum Host {
    Local,
    Cloud(CloudHost),
}

/// The life of a topology.
#[derive(Clone, Copy, PartialEq, Eq, Structural, Debug)]
pub enum Phase {
    Building,
    Deployed,
    Running,
    ShuttingDown,
    Terminated,
}

#[derive(Clone, Copy, PartialEq, Eq, Structural, Debug)]
pub enum TopologyError {
    /// The port is taken on that host, or the listener could not be set up.
    BindError,
    /// An address was asked for before the topology was deployed.
    NotDeployedError,
    /// A host could not be made ready; nothing was deployed.
    ProvisionError,
    /// The topology was torn down.
    TornDown,
    /// No host has that index.
    UnknownHost,
    /// No binding has that handle.
    UnknownPort,
    /// The operation does not belong to the current phase.
    WrongPhase,
}

/// A binding asked for: the host it listens on and how its port is chosen.
#[derive(Clone, Copy, PartialEq, Eq, Structural, Debug)]
pub struct PortRequest {
    pub host: usize,
    pub hint: NetworkHint,
}

/// Names one binding of a topology.
#[derive(Clone, Copy, PartialEq, Eq, Structural, Debug)]
pub struct PortHandle {
    pub index: usize,
}

/// The address a binding listens on: its host and its port.
#[derive(Clone, Copy, PartialEq, Eq, Structural, Debug)]
pub struct SocketAddress {
    pub host: usize,
    pub port: u16,
}

pub ghost struct TopologyView {
    pub phase: Phase,
    pub hosts: Seq<Host>,
    pub ports: Seq<PortRequest>,
    /// The port of each binding, once deployed.
    pub addresses: Seq<u16>,
}

/// Whether a binding on `host` already asked for the fixed port `n`.
pub open spec fn port_taken(ports: Seq<PortRequest>, host: usize, n: u16) -> bool {
    exists|i: int| 0 <= i < ports.len() && ports[i] == (PortRequest { host, hint: NetworkHint::FixedPort(n) })
}

pub open spec fn is_deployed(phase: Phase) -> bool {
    phase == Phase::Deployed || phase == Phase::Running || phase == Phase::ShuttingDown
}

/// The port a binding gets at deployment, given the one its host reported.
pub open spec fn deployed_port(req: PortRequest, reported: u16) -> u16 {
    match req.hint {
        NetworkHint::FixedPort(n) => n,
        _ => reported,
    }
}

pub open spec fn wf_view(v: TopologyView) -> bool {
    &&& forall|i: int| 0 <= i < v.ports.len() ==> #[trigger] v.ports[i].host < v.hosts.len()
    &&& forall|i: int| 0 <= i < v.ports.len() ==> !(#[trigger] v.ports[i].hint == NetworkHint::FixedPort(0))
    &&& forall|i: int, j: int|
        0 <= i < v.ports.len() && 0 <= j < v.ports.len() && i != j && (v.ports[i].hint is FixedPort)
            ==> #[trigger] v.ports[i] != #[trigger] v.ports[j]
    &&& v.phase == Phase::Building ==> v.addresses.len() == 0
    &&& v.phase != Phase::Building ==> v.addresses.len() == v.ports.len()
    &&& forall|i: int| 0 <= i < v.addresses.len() ==> #[trigger] v.addresses[i] != 0
    &&& forall|i: int| 0 <= i < v.addresses.len() ==> #[trigger] v.addresses[i] == deployed_port(v.ports[i], v.addresses[i])
}

/// What resolving binding `index` gives in state `v`.
pub open spec fn address_of(v: TopologyView, index: usize) -> Result<SocketAddress, TopologyError> {
    if index >= v.ports.len() {
        Err(TopologyError::UnknownPort)
    } else if v.phase == Phase::Building {
        Err(TopologyError::NotDeployedError)
    } else if v.phase == Phase::Terminated {
        Err(TopologyError::TornDown)
    } else {
        Ok(SocketAddress { host: v.ports[index as int].host, port: v.addresses[index as int] })
    }
}

/// Maps each location's host and each binding's port request to what the
/// deployment made of them, and follows the topology from building to teardown.
pub struct Topology {
    phase: Phase,
    hosts: Vec<Host>,
    ports: Vec<PortRequest>,
    addresses: Vec<u16>,
}

impl View for Topology {
    type V = TopologyView;

    closed spec fn view(&self) -> TopologyView {
        TopologyView {
            phase: self.phase,
            hosts: self.hosts@,
            ports: self.ports@,
            addresses: self.addresses@,
        }
    }
}

impl Topology {
    pub fn new() -> (t: Topology)
        ensures
            wf_view(t@),
            t@.phase == Phase::Building,
            t@.hosts.len() == 0,
            t@.ports.len() == 0,
    {
        Topology { phase: Phase::Building, hosts: Vec::new(), ports: Vec::new(), addresses: Vec::new() }
    }

    pub fn phase(&self) -> (p: Phase)
        ensures
            p == self@.phase,
    {
        self.phase
    }

    /// Registers a host while building; returns its index.
    pub fn add_host(&mut self, host: Host) -> (r: Result<usize, TopologyError>)
        requires
            wf_view(old(self)@),
        ensures
            wf_view(final(self)@),
            old(self)@.phase == Phase::Building ==> r == Ok::<usize, TopologyError>(old(self)@.hosts.len() as usize)
                && final(self)@ == (TopologyView { hosts: old(self)@.hosts.push(host), ..old(self)@ }),
            old(self)@.phase != Phase::Building ==> r == Err::<usize, TopologyError>(TopologyError::WrongPhase)
                && final(self)@ == old(self)@,
    {
        if self.phase != Phase::Building {
            return Err(TopologyError::WrongPhase);
        }
        let index = self.hosts.len();
        self.hosts.push(host);
        Ok(index)
    }

    /// Asks for a binding on `host` while building.
    pub fn bind(&mut self, host: usize, hint: NetworkHint) -> (r: Result<PortHandle, TopologyError>)
        requires
            wf_view(old(self)@),
        ensures
            wf_view(final(self)@),
            r == (if old(self)@.phase != Phase::Building {
                Err(TopologyError::WrongPhase)
            } else if host >= old(self)@.hosts.len() {
                Err(TopologyError::UnknownHost)
            } else if hint == NetworkHint::FixedPort(0) || (hint is FixedPort && port_taken(old(self)@.ports, host, hint->FixedPort_0)) {
                Err(TopologyError::BindError)
            } else {
                Ok(PortHandle { index: old(self)@.ports.len() as usize })
            }),
            r is Ok ==> final(self)@ == (TopologyView {
                ports: old(self)@.ports.push(PortRequest { host, hint }),
                ..old(self)@
            }),
            r is Err ==> final(self)@ == old(self)@,
    {
        if self.phase != Phase::Building {
            return Err(TopologyError::WrongPhase);
        }
        if host >= self.hosts.len() {
            return Err(TopologyError::UnknownHost);
        }
        if let NetworkHint::FixedPort(n) = hint {
            if n == 0 {
                return Err(TopologyError::BindError);
            }
            let request = PortRequest { host, hint };
            let mut i: usize = 0;
            while i < self.ports.len()
                invariant
                    self@ == old(self)@,
                    wf_view(self@),
                    self@.phase == Phase::Building,
                    host < self@.hosts.len(),
                    request == (PortRequest { host, hint: NetworkHint::FixedPort(n) }),
                    hint == NetworkHint::FixedPort(n),
                    n != 0,
                    i <= self.ports@.len(),
                    forall|j: int| 0 <= j < i ==> self.ports@[j] != request,
                decreases self.ports@.len() - i,
            {
                if self.ports[i] == request {
                    assert(self.ports@[i as int] == request);
                    return Err(TopologyError::BindError);
                }
                i = i + 1;
            }
        }
        let index = self.ports.len();
        self.ports.push(PortRequest { host, hint });
        let ghost v = self@;
        assert forall|i: int, j: int|
            0 <= i < v.ports.len() && 0 <= j < v.ports.len() && i != j && (v.ports[i].hint is FixedPort)
                implies #[trigger] v.ports[i] != #[trigger] v.ports[j] by {
            if i == index as int || j == index as int {
            }
        }
        Ok(PortHandle { index })
    }

    /// Brings the topology up, all or nothing. `provisioned` says for each host
    /// whether the provider made it ready; `reported` gives for each binding the
    /// port its host opened (read for bindings without a fixed port).
    pub fn deploy(&mut self, provisioned: &Vec<bool>, reported: &Vec<u16>) -> (r: Result<(), TopologyError>)
        requires
            wf_view(old(self)@),
        ensures
            wf_view(final(self)@),
            r == (if old(self)@.phase != Phase::Building {
                Err(TopologyError::WrongPhase)
            } else if provisioned@.len() != old(self)@.hosts.len() || provisioned@.contains(false) {
                Err(TopologyError::ProvisionError)
            } else if reported@.len() != old(self)@.ports.len()
                || exists|i: int| 0 <= i < reported@.len() && deployed_port(old(self)@.ports[i], reported@[i]) == 0 {
                Err(TopologyError::BindError)
            } else {
                Ok(())
            }),
            r is Ok ==> final(self)@ == (TopologyView {
                phase: Phase::Deployed,
                addresses: Seq::new(old(self)@.ports.len(), |i: int| deployed_port(old(self)@.ports[i], reported@[i])),
                ..old(self)@
            }),
            r is Err ==> final(self)@ == old(self)@,
    {
        if self.phase != Phase::Building {
            return Err(TopologyError::WrongPhase);
        }
        if provisioned.len() != self.hosts.len() {
            return Err(TopologyError::ProvisionError);
        }
        let mut h: usize = 0;
        while h < provisioned.len()
            invariant
                self@ == old(self)@,
                wf_view(self@),
                self@.phase == Phase::Building,
                provisioned@.len() == self@.hosts.len(),
                h <= provisioned@.len(),
                forall|j: int| 0 <= j < h ==> provisioned@[j],
            decreases provisioned@.len() - h,
        {
            if !provisioned[h] {
                assert(provisioned@[h as int] == false);
                return Err(TopologyError::ProvisionError);
            }
            h = h + 1;
        }
        if reported.len() != self.ports.len() {
            return Err(TopologyError::BindError);
        }
        let ghost v = self@;
        assert(!provisioned@.contains(false));
        let mut addresses: Vec<u16> = Vec::new();
        let mut i: usize = 0;
        while i < self.ports.len()
            invariant
                self@ == v,
                v == old(self)@,
                wf_view(v),
                v.phase == Phase::Building,
                !provisioned@.contains(false),
                provisioned@.len() == v.hosts.len(),
                v.ports.len() == reported@.len(),
                i <= v.ports.len(),
                addresses@ == Seq::new(i as nat, |k: int| deployed_port(v.ports[k], reported@[k])),
                forall|k: int| 0 <= k < i ==> #[trigger] addresses@[k] != 0,
            decreases v.ports.len() - i,
        {
            let port = match self.ports[i].hint {
                NetworkHint::FixedPort(n) => n,
                _ => reported[i],
            };
            assert(port == deployed_port(v.ports[i as int], reported@[i as int]));
            if port == 0 {
                return Err(TopologyError::BindError);
            }
            addresses.push(port);
            i = i + 1;
            assert(addresses@ =~= Seq::new(i as nat, |k: int| deployed_port(v.ports[k], reported@[k])));
        }
        assert forall|k: int| 0 <= k < v.ports.len() implies deployed_port(v.ports[k], reported@[k]) != 0 by {
            assert(addresses@[k] == deployed_port(v.ports[k], reported@[k]));
        }
        self.addresses = addresses;
        self.phase = Phase::Deployed;
        Ok(())
    }

    /// The runtime starts the deployed graph.
    pub fn start(&mut self) -> (r: Result<(), TopologyError>)
        requires
            wf_view(old(self)@),
        ensures
            wf_view(final(self)@),
            old(self)@.phase == Phase::Deployed ==> r == Ok::<(), TopologyError>(())
                && final(self)@ == (TopologyView { phase: Phase::Running, ..old(self)@ }),
            old(self)@.phase != Phase::Deployed ==> r == Err::<(), TopologyError>(TopologyError::WrongPhase)
                && final(self)@ == old(self)@,
    {
        if self.phase != Phase::Deployed {
            return Err(TopologyError::WrongPhase);
        }
        self.phase = Phase::Running;
        Ok(())
    }

    /// The address that a binding listens on.
    pub fn resolve_address(&self, port: PortHandle) -> (r: Result<SocketAddress, TopologyError>)
        requires
            wf_view(self@),
        ensures
            r == address_of(self@, port.index),
    {
        if port.index >= self.ports.len() {
            Err(TopologyError::UnknownPort)
        } else if self.phase == Phase::Building {
            Err(TopologyError::NotDeployedError)
        } else if self.phase == Phase::Terminated {
            Err(TopologyError::TornDown)
        } else {
            Ok(SocketAddress { host: self.ports[port.index].host, port: self.addresses[port.index] })
        }
    }

    /// An operator asks to stop a deployed topology; returns the hosts to
    /// release, the last registered first.
    pub fn shutdown(&mut self) -> (r: Result<Vec<usize>, TopologyError>)
        requires
            wf_view(old(self)@),
        ensures
            wf_view(final(self)@),
            is_deployed(old(self)@.phase) && old(self)@.phase != Phase::ShuttingDown ==> r is Ok
                && r->Ok_0@ == Seq::new(old(self)@.hosts.len(), |i: int| (old(self)@.hosts.len() - 1 - i) as usize)
                && final(self)@ == (TopologyView { phase: Phase::ShuttingDown, ..old(self)@ }),
            !(is_deployed(old(self)@.phase) && old(self)@.phase != Phase::ShuttingDown) ==>
                r == Err::<Vec<usize>, TopologyError>(TopologyError::WrongPhase) && final(self)@ == old(self)@,
    {
        if self.phase != Phase::Deployed && self.phase != Phase::Running {
            return Err(TopologyError::WrongPhase);
        }
        let n = self.hosts.len();
        let mut order: Vec<usize> = Vec::new();
        let mut i: usize = 0;
        while i < n
            invariant
                n == self.hosts@.len(),
                i <= n,
                order@ == Seq::new(i as nat, |k: int| (n - 1 - k) as usize),
            decreases n - i,
        {
            order.push(n - 1 - i);
            i = i + 1;
            assert(order@ =~= Seq::new(i as nat, |k: int| (n - 1 - k) as usize));
        }
        self.phase = Phase::ShuttingDown;
        Ok(order)
    }

    /// Teardown is over: the topology is terminated.
    pub fn finish(&mut self) -> (r: Result<(), TopologyError>)
        requires
            wf_view(old(self)@),
        ensures
            wf_view(final(self)@),
            old(self)@.phase == Phase::ShuttingDown ==> r == Ok::<(), TopologyError>(())
                && final(self)@ == (TopologyView { phase: Phase::Terminated, ..old(self)@ }),
            old(self)@.phase != Phase::ShuttingDown ==> r == Err::<(), TopologyError>(TopologyError::WrongPhase)
                && final(self)@ == old(self)@,
    {
        if self.phase != Phase::ShuttingDown {
            return Err(TopologyError::WrongPhase);
        }
        self.phase = Phase::Terminated;
        Ok(())
    }
}

/// Addresses resolve only after deployment: before it every binding gives
/// `NotDeployedError`; from deployment until teardown every binding gives its
/// host and a non-zero port, the same in each of those phases, and a fixed
/// port is the one asked for.
pub proof fn lemma_address_sequencing(v: TopologyView, index: usize)
    requires
        wf_view(v),
        index < v.ports.len(),
    ensures
        v.phase == Phase::Building ==> address_of(v, index) == Err::<SocketAddress, TopologyError>(
            TopologyError::NotDeployedError,
        ),
        is_deployed(v.phase) ==> address_of(v, index) is Ok && address_of(v, index)->Ok_0.port != 0,
        is_deployed(v.phase) ==> address_of(v, index) == address_of(
            TopologyView { phase: Phase::Running, ..v },
            index,
        ),
        is_deployed(v.phase) && v.ports[index as int].hint is FixedPort ==> address_of(v, index)->Ok_0.port
            == v.ports[index as int].hint->FixedPort_0,
{
}

} // verus!
