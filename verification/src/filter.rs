//! The filters on the entries themselves: the type of the descriptor and, for sockets, the
//! domain, type, state, ports and hosts.

use vstd::prelude::*;
use crate::model::Endpoint;
use crate::model::EndpointView;
use crate::model::FDTarget;
use crate::model::FDTargetView;
use crate::model::FdEntry;
use crate::model::FdEntryView;
use crate::model::ProcessInfo;
use crate::model::SocketDomain;
use crate::model::SocketInfo;
use crate::model::SocketInfoView;
use crate::model::SocketKind;
use crate::model::SocketState;
use crate::net::ip_text;
use crate::opts::Args;
use crate::opts::FDSocketDomainFilter;
use crate::opts::FDSocketTypeFilter;
use crate::trusted::same_ignoring_case;

verus! {

impl FDSocketDomainFilter {
    /// The domain that is asked for.
    pub open spec fn domain(self) -> SocketDomain {
        match self {
            FDSocketDomainFilter::Unix => SocketDomain::Unix,
            FDSocketDomainFilter::Inet4 => SocketDomain::Inet4,
            FDSocketDomainFilter::Inet6 => SocketDomain::Inet6,
            FDSocketDomainFilter::Netlink => SocketDomain::Netlink,
            FDSocketDomainFilter::Packet => SocketDomain::Packet,
        }
    }

    /// The domain that is asked for.
    pub fn to_domain(self) -> (r: SocketDomain)
        ensures
            r == self.domain(),
    {
        match self {
            FDSocketDomainFilter::Unix => SocketDomain::Unix,
            FDSocketDomainFilter::Inet4 => SocketDomain::Inet4,
            FDSocketDomainFilter::Inet6 => SocketDomain::Inet6,
            FDSocketDomainFilter::Netlink => SocketDomain::Netlink,
            FDSocketDomainFilter::Packet => SocketDomain::Packet,
        }
    }
}

impl FDSocketTypeFilter {
    /// The socket type that is asked for.
    pub open spec fn kind(self) -> SocketKind {
        match self {
            FDSocketTypeFilter::Stream => SocketKind::Stream,
            FDSocketTypeFilter::Dgram => SocketKind::Dgram,
            FDSocketTypeFilter::Raw => SocketKind::Raw,
            FDSocketTypeFilter::SeqPacket => SocketKind::SeqPacket,
        }
    }

    /// The socket type that is asked for.
    pub fn to_kind(self) -> (r: SocketKind)
        ensures
            r == self.kind(),
    {
        match self {
            FDSocketTypeFilter::Stream => SocketKind::Stream,
            FDSocketTypeFilter::Dgram => SocketKind::Dgram,
            FDSocketTypeFilter::Raw => SocketKind::Raw,
            FDSocketTypeFilter::SeqPacket => SocketKind::SeqPacket,
        }
    }
}

/// The name of a state, by which the state filter asks for it.
pub open spec fn state_name(state: SocketState) -> Seq<char> {
    match state {
        SocketState::Established => "Established"@,
        SocketState::SynSent => "SynSent"@,
        SocketState::SynRecv => "SynRecv"@,
        SocketState::FinWait1 => "FinWait1"@,
        SocketState::FinWait2 => "FinWait2"@,
        SocketState::TimeWait => "TimeWait"@,
        SocketState::Closed => "Closed"@,
        SocketState::CloseWait => "CloseWait"@,
        SocketState::LastAck => "LastAck"@,
        SocketState::Listen => "Listen"@,
        SocketState::Closing => "Closing"@,
        SocketState::Unconn => "Unconn"@,
        SocketState::Unknown(_) => "None"@,
    }
}

impl SocketState {
    /// The name of the state.
    pub fn name(&self) -> (r: &'static str)
        ensures
            r@ == state_name(*self),
    {
        match self {
            SocketState::Established => "Established",
            SocketState::SynSent => "SynSent",
            SocketState::SynRecv => "SynRecv",
            SocketState::FinWait1 => "FinWait1",
            SocketState::FinWait2 => "FinWait2",
            SocketState::TimeWait => "TimeWait",
            SocketState::Closed => "Closed",
            SocketState::CloseWait => "CloseWait",
            SocketState::LastAck => "LastAck",
            SocketState::Listen => "Listen",
            SocketState::Closing => "Closing",
            SocketState::Unconn => "Unconn",
            SocketState::Unknown(_) => "None",
        }
    }
}

/// The socket that an entry is about, if it is about one.
pub open spec fn socket_of(e: FdEntryView) -> Option<SocketInfoView> {
    match e.target {
        FDTargetView::Socket(info) => Some(info),
        _ => None,
    }
}

/// The port of an endpoint; only an internet endpoint has one.
pub open spec fn port_of(e: EndpointView) -> Option<u16> {
    match e {
        EndpointView::Inet { port, .. } => Some(port),
        _ => None,
    }
}

/// Whether an endpoint is at the given host: its address as text is the host, or its host
/// name is, whatever the case of the letters. The zero address matches by its text like any
/// other.
pub open spec fn has_host(e: EndpointView, host: Seq<char>) -> bool {
    match e {
        EndpointView::Inet { ip, hostname, .. } => ip_text(ip) == host || (hostname is Some
            && same_ignoring_case(hostname->0, host)),
        _ => false,
    }
}

impl Args {
    /// Whether the entry passes the filters on the descriptor and its socket. A filter on a
    /// socket lets no entry pass that is not about a socket.
    pub open spec fn entry_passes(&self, e: FdEntryView) -> bool {
        &&& self.type_ is Some ==> self.type_->0@ == e.fd_type
        &&& self.socket_domain is Some ==> socket_of(e) is Some && socket_of(e)->0.domain
            == self.socket_domain->0.domain()
        &&& self.socket_type is Some ==> socket_of(e) is Some && socket_of(e)->0.kind
            == self.socket_type->0.kind()
        &&& self.socket_state is Some ==> socket_of(e) is Some && same_ignoring_case(
            state_name(socket_of(e)->0.state),
            self.socket_state->0@,
        )
        &&& self.port is Some ==> socket_of(e) is Some && (port_of(socket_of(e)->0.local)
            == self.port || port_of(socket_of(e)->0.remote) == self.port)
        &&& self.src_port is Some ==> socket_of(e) is Some && port_of(socket_of(e)->0.local)
            == self.src_port
        &&& self.dst_port is Some ==> socket_of(e) is Some && port_of(socket_of(e)->0.remote)
            == self.dst_port
        &&& self.host is Some ==> socket_of(e) is Some && (has_host(
            socket_of(e)->0.local,
            self.host->0@,
        ) || has_host(socket_of(e)->0.remote, self.host->0@))
        &&& self.src_host is Some ==> socket_of(e) is Some && has_host(
            socket_of(e)->0.local,
            self.src_host->0@,
        )
        &&& self.dst_host is Some ==> socket_of(e) is Some && has_host(
            socket_of(e)->0.remote,
            self.dst_host->0@,
        )
    }

    /// Whether an entry of a process passes all the filters.
    pub open spec fn passes(&self, process: &ProcessInfo, e: FdEntryView) -> bool {
        self.process_passes(process) && self.entry_passes(e)
    }

    /// Whether any filter on sockets is set.
    pub open spec fn asks_for_socket(&self) -> bool {
        self.socket_domain is Some || self.socket_type is Some || self.socket_state is Some
            || self.port is Some || self.src_port is Some || self.dst_port is Some || self.host
            is Some || self.src_host is Some || self.dst_host is Some
    }

    /// Tells whether the entry passes the filters on the descriptor and its socket.
    pub fn filter_entry(&self, e: &FdEntry) -> (r: bool)
        ensures
            r == self.entry_passes(e@),
    {
        if let Some(t) = &self.type_ {
            if !t.same(&e.fd_type) {
                return false;
            }
        }
        match &e.target {
            FDTarget::Socket(info) => self.filter_socket(info),
            _ => !self.wants_socket(),
        }
    }

    fn wants_socket(&self) -> (r: bool)
        ensures
            r == self.asks_for_socket(),
    {
        self.socket_domain.is_some() || self.socket_type.is_some() || self.socket_state.is_some()
            || self.port.is_some() || self.src_port.is_some() || self.dst_port.is_some()
            || self.host.is_some() || self.src_host.is_some() || self.dst_host.is_some()
    }

    /// Whether a socket passes the filters on sockets.
    pub open spec fn socket_passes(&self, info: SocketInfoView) -> bool {
        &&& self.socket_domain is Some ==> info.domain == self.socket_domain->0.domain()
        &&& self.socket_type is Some ==> info.kind == self.socket_type->0.kind()
        &&& self.socket_state is Some ==> same_ignoring_case(
            state_name(info.state),
            self.socket_state->0@,
        )
        &&& self.port is Some ==> port_of(info.local) == self.port || port_of(info.remote)
            == self.port
        &&& self.src_port is Some ==> port_of(info.local) == self.src_port
        &&& self.dst_port is Some ==> port_of(info.remote) == self.dst_port
        &&& self.host is Some ==> has_host(info.local, self.host->0@) || has_host(
            info.remote,
            self.host->0@,
        )
        &&& self.src_host is Some ==> has_host(info.local, self.src_host->0@)
        &&& self.dst_host is Some ==> has_host(info.remote, self.dst_host->0@)
    }

    /// Tells whether a socket passes the filters on sockets.
    pub fn filter_socket(&self, info: &SocketInfo) -> (r: bool)
        ensures
            r == self.socket_passes(info@),
    {
        if let Some(d) = self.socket_domain {
            if info.domain != d.to_domain() {
                return false;
            }
        }
        if let Some(k) = self.socket_type {
            if info.kind != k.to_kind() {
                return false;
            }
        }
        if let Some(s) = &self.socket_state {
            if !info.state.name().eq_ignore_ascii_case(s.as_str()) {
                return false;
            }
        }
        if let Some(p) = self.port {
            if !(endpoint_has_port(&info.local, p) || endpoint_has_port(&info.remote, p)) {
                return false;
            }
        }
        if let Some(p) = self.src_port {
            if !endpoint_has_port(&info.local, p) {
                return false;
            }
        }
        if let Some(p) = self.dst_port {
            if !endpoint_has_port(&info.remote, p) {
                return false;
            }
        }
        if let Some(h) = &self.host {
            if !(endpoint_has_host(&info.local, h) || endpoint_has_host(&info.remote, h)) {
                return false;
            }
        }
        if let Some(h) = &self.src_host {
            if !endpoint_has_host(&info.local, h) {
                return false;
            }
        }
        if let Some(h) = &self.dst_host {
            if !endpoint_has_host(&info.remote, h) {
                return false;
            }
        }
        true
    }
}

/// Tells whether an endpoint has the given port.
pub fn endpoint_has_port(e: &Endpoint, port: u16) -> (r: bool)
    ensures
        r == (port_of(e@) == Some(port)),
{
    match e {
        Endpoint::Inet { port: p, .. } => *p == port,
        _ => false,
    }
}

/// Tells whether an endpoint is at the given host.
pub fn endpoint_has_host(e: &Endpoint, host: &String) -> (r: bool)
    ensures
        r == has_host(e@, host@),
{
    match e {
        Endpoint::Inet { ip, hostname, .. } => {
            if ip.to_text() == *host {
                return true;
            }
            match hostname {
                Some(name) => name.as_str().eq_ignore_ascii_case(host.as_str()),
                None => false,
            }
        },
        _ => false,
    }
}

/// Whether no filter is set in both.
pub open spec fn disjoint(a: Args, b: Args) -> bool {
    &&& !(a.pid is Some && b.pid is Some)
    &&& !(a.uid is Some && b.uid is Some)
    &&& !(a.cmd is Some && b.cmd is Some)
    &&& !(a.type_ is Some && b.type_ is Some)
    &&& !(a.socket_domain is Some && b.socket_domain is Some)
    &&& !(a.socket_type is Some && b.socket_type is Some)
    &&& !(a.socket_state is Some && b.socket_state is Some)
    &&& !(a.port is Some && b.port is Some)
    &&& !(a.src_port is Some && b.src_port is Some)
    &&& !(a.dst_port is Some && b.dst_port is Some)
    &&& !(a.host is Some && b.host is Some)
    &&& !(a.src_host is Some && b.src_host is Some)
    &&& !(a.dst_host is Some && b.dst_host is Some)
}

/// The filters of both: each filter from the one that sets it.
pub open spec fn both(a: Args, b: Args) -> Args {
    Args {
        pid: if a.pid is Some { a.pid } else { b.pid },
        uid: if a.uid is Some { a.uid } else { b.uid },
        cmd: if a.cmd is Some { a.cmd } else { b.cmd },
        type_: if a.type_ is Some { a.type_ } else { b.type_ },
        socket_domain: if a.socket_domain is Some { a.socket_domain } else { b.socket_domain },
        socket_type: if a.socket_type is Some { a.socket_type } else { b.socket_type },
        socket_state: if a.socket_state is Some { a.socket_state } else { b.socket_state },
        port: if a.port is Some { a.port } else { b.port },
        src_port: if a.src_port is Some { a.src_port } else { b.src_port },
        dst_port: if a.dst_port is Some { a.dst_port } else { b.dst_port },
        host: if a.host is Some { a.host } else { b.host },
        src_host: if a.src_host is Some { a.src_host } else { b.src_host },
        dst_host: if a.dst_host is Some { a.dst_host } else { b.dst_host },
        no_dns: a.no_dns,
        json: a.json,
        pid_only: a.pid_only,
    }
}

/// Filters that share no setting combine to the conjunction: an entry passes the filters of
/// both exactly when it passes those of each.
pub proof fn lemma_filters_intersect(a: Args, b: Args, process: ProcessInfo, e: FdEntryView)
    requires
        disjoint(a, b),
    ensures
        both(a, b).process_passes(&process) == (a.process_passes(&process) && b.process_passes(
            &process,
        )),
        both(a, b).entry_passes(e) == (a.entry_passes(e) && b.entry_passes(e)),
        both(a, b).passes(&process, e) == (a.passes(&process, e) && b.passes(&process, e)),
{
}

/// An entry that passes the port filter has that very port at one of its ends; the source
/// and destination port filters name the end. Port zero is a port like any other here.
pub proof fn lemma_port_filter(args: Args, e: FdEntryView)
    requires
        args.entry_passes(e),
    ensures
        args.port matches Some(p) ==> socket_of(e) is Some && (port_of(socket_of(e)->0.local)
            == Some(p) || port_of(socket_of(e)->0.remote) == Some(p)),
        args.src_port matches Some(p) ==> socket_of(e) is Some && port_of(socket_of(e)->0.local)
            == Some(p),
        args.dst_port matches Some(p) ==> socket_of(e) is Some && port_of(socket_of(e)->0.remote)
            == Some(p),
{
}

/// A filter on sockets lets no entry pass that is not about a socket.
pub proof fn lemma_socket_filters_exclude(args: Args, e: FdEntryView)
    requires
        args.asks_for_socket(),
        args.entry_passes(e),
    ensures
        e.target is Socket,
{
}

} // verus!
