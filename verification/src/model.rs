//! The records that describe processes, their open descriptors and their sockets.

use vstd::prelude::*;

verus! {

/// A live process: its id, the real uid of its owner and its short command name.
#[derive(Clone, Debug, PartialEq, Eq)]
pub struct ProcessInfo {
    pub pid: i32,
    pub uid: u32,
    pub comm: String,
}

/// The address family of a socket.
#[derive(Clone, Copy, Debug, PartialEq, Eq, Structural)]
pub enum SocketDomain {
    Unix,
    Inet4,
    Inet6,
    Netlink,
    Packet,
    Other(u32),
}

/// The communication style of a socket.
#[derive(Clone, Copy, Debug, PartialEq, Eq, Structural)]
pub enum SocketKind {
    Stream,
    Dgram,
    Raw,
    SeqPacket,
    Other(u32),
}

/// The connection state of a socket; a code without a name is kept as it was read.
#[derive(Clone, Copy, Debug, PartialEq, Eq, Structural)]
pub enum SocketState {
    Established,
    SynSent,
    SynRecv,
    FinWait1,
    FinWait2,
    TimeWait,
    Closed,
    CloseWait,
    LastAck,
    Listen,
    Closing,
    Unconn,
    Unknown(u32),
}

/// An internet address, its bytes in network order.
#[derive(Clone, Copy, Debug, PartialEq, Eq)]
pub enum IpAddress {
    V4([u8; 4]),
    V6([u8; 16]),
}

/// An internet address as a value of the model: the bytes of it.
pub enum IpView {
    V4(Seq<u8>),
    V6(Seq<u8>),
}

impl View for IpAddress {
    type V = IpView;

    open spec fn view(&self) -> IpView {
        match *self {
            IpAddress::V4(a) => IpView::V4(a@),
            IpAddress::V6(a) => IpView::V6(a@),
        }
    }
}

/// One end of a socket.
#[derive(Clone, Debug, PartialEq, Eq)]
pub enum Endpoint {
    Inet { ip: IpAddress, port: u16, hostname: Option<String> },
    Unix { path: Option<Vec<u8>> },
    Empty,
}

/// One end of a socket as a value of the model.
pub enum EndpointView {
    Inet { ip: IpView, port: u16, hostname: Option<Seq<char>> },
    Unix { path: Option<Seq<u8>> },
    Empty,
}

impl View for Endpoint {
    type V = EndpointView;

    open spec fn view(&self) -> EndpointView {
        match *self {
            Endpoint::Inet { ip, port, hostname } => EndpointView::Inet {
                ip: ip@,
                port,
                hostname: match hostname {
                    Some(h) => Some(h@),
                    None => None,
                },
            },
            Endpoint::Unix { path } => EndpointView::Unix {
                path: match path {
                    Some(p) => Some(p@),
                    None => None,
                },
            },
            Endpoint::Empty => EndpointView::Empty,
        }
    }
}

/// What the kernel's socket tables tell of one socket.
#[derive(Clone, Debug, PartialEq, Eq)]
pub struct SocketInfo {
    pub domain: SocketDomain,
    pub kind: SocketKind,
    pub state: SocketState,
    pub local: Endpoint,
    pub remote: Endpoint,
    pub inode: u64,
}

/// A socket as a value of the model.
pub struct SocketInfoView {
    pub domain: SocketDomain,
    pub kind: SocketKind,
    pub state: SocketState,
    pub local: EndpointView,
    pub remote: EndpointView,
    pub inode: u64,
}

impl View for SocketInfo {
    type V = SocketInfoView;

    open spec fn view(&self) -> SocketInfoView {
        SocketInfoView {
            domain: self.domain,
            kind: self.kind,
            state: self.state,
            local: self.local@,
            remote: self.remote@,
            inode: self.inode,
        }
    }
}

fn copy_text(s: &Option<String>) -> (r: Option<String>)
    ensures
        r is Some == s is Some,
        r matches Some(t) ==> t@ == s->0@,
{
    match s {
        Some(t) => Some(t.clone()),
        None => None,
    }
}

fn copy_bytes(s: &Option<Vec<u8>>) -> (r: Option<Vec<u8>>)
    ensures
        r is Some == s is Some,
        r matches Some(t) ==> t@ == s->0@,
{
    match s {
        Some(t) => Some(t.clone()),
        None => None,
    }
}

impl Endpoint {
    /// A copy with the same contents.
    pub fn duplicate(&self) -> (r: Endpoint)
        ensures
            r@ == self@,
    {
        match self {
            Endpoint::Inet { ip, port, hostname } => Endpoint::Inet {
                ip: *ip,
                port: *port,
                hostname: copy_text(hostname),
            },
            Endpoint::Unix { path } => Endpoint::Unix { path: copy_bytes(path) },
            Endpoint::Empty => Endpoint::Empty,
        }
    }
}

impl SocketInfo {
    /// A copy with the same contents.
    pub fn duplicate(&self) -> (r: SocketInfo)
        ensures
            r@ == self@,
    {
        SocketInfo {
            domain: self.domain,
            kind: self.kind,
            state: self.state,
            local: self.local.duplicate(),
            remote: self.remote.duplicate(),
            inode: self.inode,
        }
    }
}

/// The kind of thing a descriptor is open on.
#[derive(Clone, Debug, PartialEq, Eq)]
pub enum FDType {
    File,
    Dir,
    Pipe,
    Socket,
    CharDev,
    BlockDev,
    AnonInode,
    Other(String),
}

/// The kind of thing a descriptor is open on, as a value of the model.
pub enum FDTypeView {
    File,
    Dir,
    Pipe,
    Socket,
    CharDev,
    BlockDev,
    AnonInode,
    Other(Seq<char>),
}

impl View for FDType {
    type V = FDTypeView;

    open spec fn view(&self) -> FDTypeView {
        match *self {
            FDType::File => FDTypeView::File,
            FDType::Dir => FDTypeView::Dir,
            FDType::Pipe => FDTypeView::Pipe,
            FDType::Socket => FDTypeView::Socket,
            FDType::CharDev => FDTypeView::CharDev,
            FDType::BlockDev => FDTypeView::BlockDev,
            FDType::AnonInode => FDTypeView::AnonInode,
            FDType::Other(s) => FDTypeView::Other(s@),
        }
    }
}

impl FDType {
    /// Whether two types are the same, a type outside the list by its label.
    pub fn same(&self, other: &FDType) -> (r: bool)
        ensures
            r == (self@ == other@),
    {
        match (self, other) {
            (FDType::File, FDType::File) => true,
            (FDType::Dir, FDType::Dir) => true,
            (FDType::Pipe, FDType::Pipe) => true,
            (FDType::Socket, FDType::Socket) => true,
            (FDType::CharDev, FDType::CharDev) => true,
            (FDType::BlockDev, FDType::BlockDev) => true,
            (FDType::AnonInode, FDType::AnonInode) => true,
            (FDType::Other(a), FDType::Other(b)) => *a == *b,
            _ => false,
        }
    }
}

/// What a descriptor points at.
#[derive(Clone, Debug, PartialEq, Eq)]
pub enum FDTarget {
    Path(Vec<u8>),
    PipeInode(u64),
    AnonInode(String, u64),
    Socket(SocketInfo),
    Raw(Vec<u8>),
}

/// What a descriptor points at, as a value of the model.
pub enum FDTargetView {
    Path(Seq<u8>),
    PipeInode(u64),
    AnonInode(Seq<char>, u64),
    Socket(SocketInfoView),
    Raw(Seq<u8>),
}

impl View for FDTarget {
    type V = FDTargetView;

    open spec fn view(&self) -> FDTargetView {
        match *self {
            FDTarget::Path(p) => FDTargetView::Path(p@),
            FDTarget::PipeInode(n) => FDTargetView::PipeInode(n),
            FDTarget::AnonInode(kind, n) => FDTargetView::AnonInode(kind@, n),
            FDTarget::Socket(info) => FDTargetView::Socket(info@),
            FDTarget::Raw(t) => FDTargetView::Raw(t@),
        }
    }
}

/// One open descriptor of one process, as it is reported.
#[derive(Clone, Debug, PartialEq, Eq)]
pub struct FdEntry {
    pub pid: i32,
    pub user: String,
    pub name: String,
    pub fd_type: FDType,
    pub fd: Option<i32>,
    pub mode: Option<String>,
    pub target: FDTarget,
}

/// An entry as a value of the model.
pub struct FdEntryView {
    pub pid: i32,
    pub user: Seq<char>,
    pub name: Seq<char>,
    pub fd_type: FDTypeView,
    pub fd: Option<i32>,
    pub mode: Option<Seq<char>>,
    pub target: FDTargetView,
}

impl View for FdEntry {
    type V = FdEntryView;

    open spec fn view(&self) -> FdEntryView {
        FdEntryView {
            pid: self.pid,
            user: self.user@,
            name: self.name@,
            fd_type: self.fd_type@,
            fd: self.fd,
            mode: match self.mode {
                Some(m) => Some(m@),
                None => None,
            },
            target: self.target@,
        }
    }
}

/// The views of a list of entries, in order.
pub open spec fn entry_views(entries: Seq<FdEntry>) -> Seq<FdEntryView> {
    entries.map_values(|e: FdEntry| e@)
}

/// One descriptor as it was read: its number, the target of its link and the fields of its
/// information file, each a key and a value.
#[derive(Clone, Debug, PartialEq, Eq)]
pub struct FdRef {
    pub pid: i32,
    pub fd_num: i32,
    pub link_target: Vec<u8>,
    pub fdinfo: Vec<(Vec<u8>, Vec<u8>)>,
}

} // verus!
