//! Entries as text: the cells of a table row, and what they are made of.

use vstd::prelude::*;
use vstd::string::StringExecFns;
use crate::model::Endpoint;
use crate::model::EndpointView;
use crate::model::FDTarget;
use crate::model::FDTargetView;
use crate::model::FDType;
use crate::model::FDTypeView;
use crate::model::FdEntry;
use crate::model::FdEntryView;
use crate::model::IpAddress;
use crate::model::IpView;
use crate::model::SocketInfo;
use crate::model::SocketInfoView;
use crate::net::ipv4_text;
use crate::net::ipv6_text;
use crate::text::decimal_text;
use crate::text::push_decimal;
use crate::trusted::lossy_text;
use crate::trusted::text_lossy;

verus! {

/// The decimal text of a number that may be negative.
pub open spec fn int_text(n: int) -> Seq<char> {
    if n < 0 {
        seq!['-'] + decimal_text((-n) as nat)
    } else {
        decimal_text(n as nat)
    }
}

/// Appends the decimal text of a number that may be negative.
pub fn push_int(out: &mut String, n: i32)
    ensures
        final(out)@ == old(out)@ + int_text(n as int),
{
    let wide: i64 = n as i64;
    if wide < 0 {
        out.push('-');
        push_decimal(out, (-wide) as u64);
        assert(out@ =~= old(out)@ + (seq!['-'] + decimal_text((-n) as nat)));
    } else {
        push_decimal(out, wide as u64);
    }
}

/// How a port is shown: port zero as a star, any other in decimal.
pub open spec fn port_display(port: u16) -> Seq<char> {
    if port == 0 {
        seq!['*']
    } else {
        decimal_text(port as nat)
    }
}

/// Whether every byte is zero.
pub open spec fn all_zero(a: Seq<u8>) -> bool {
    forall|i: int| 0 <= i < a.len() ==> #[trigger] a[i] == 0
}

/// Whether every byte of the address is zero.
pub open spec fn is_zero_address(ip: IpView) -> bool {
    match ip {
        IpView::V4(a) => all_zero(a),
        IpView::V6(a) => all_zero(a),
    }
}

/// How an address is shown beside a port: the zero address as a star, an address of four
/// bytes as it is written, one of sixteen bytes in square brackets.
pub open spec fn address_display(ip: IpView) -> Seq<char> {
    if is_zero_address(ip) {
        seq!['*']
    } else {
        match ip {
            IpView::V4(a) => ipv4_text(a),
            IpView::V6(a) => seq!['['] + ipv6_text(a) + seq![']'],
        }
    }
}

/// How an endpoint is shown: address, colon and port for an internet endpoint, the path for
/// a Unix endpoint that has one, and nothing else.
pub open spec fn endpoint_display(e: EndpointView) -> Seq<char> {
    match e {
        EndpointView::Inet { ip, port, .. } => address_display(ip) + seq![':'] + port_display(
            port,
        ),
        EndpointView::Unix { path: Some(p) } => lossy_text(p),
        _ => Seq::empty(),
    }
}

/// How a socket is shown: both ends with an arrow between them where the local end is an
/// internet endpoint, the path where it is a Unix endpoint with one, else the inode as the
/// kernel writes it.
pub open spec fn socket_text(info: SocketInfoView) -> Seq<char> {
    match info.local {
        EndpointView::Inet { .. } => endpoint_display(info.local) + "->"@ + endpoint_display(
            info.remote,
        ),
        EndpointView::Unix { path: Some(p) } => lossy_text(p),
        _ => "socket:["@ + decimal_text(info.inode as nat) + "]"@,
    }
}

/// How a target is shown.
pub open spec fn target_text(t: FDTargetView) -> Seq<char> {
    match t {
        FDTargetView::Path(p) => lossy_text(p),
        FDTargetView::PipeInode(n) => "pipe:["@ + decimal_text(n as nat) + "]"@,
        FDTargetView::AnonInode(kind, _) => "anon_inode:"@ + kind,
        FDTargetView::Socket(info) => socket_text(info),
        FDTargetView::Raw(t) => lossy_text(t),
    }
}

/// The name of a type; a type outside the list is named by its label.
pub open spec fn kind_name(t: FDTypeView) -> Seq<char> {
    match t {
        FDTypeView::File => "File"@,
        FDTypeView::Dir => "Dir"@,
        FDTypeView::Pipe => "Pipe"@,
        FDTypeView::Socket => "Socket"@,
        FDTypeView::CharDev => "CharDev"@,
        FDTypeView::BlockDev => "BlockDev"@,
        FDTypeView::AnonInode => "AnonInode"@,
        FDTypeView::Other(s) => s,
    }
}

/// The cells of the row that shows an entry: pid, user, name, type, descriptor, mode and
/// target; a missing descriptor or mode leaves its cell empty.
pub open spec fn row_of(e: FdEntryView) -> Seq<Seq<char>> {
    seq![
        int_text(e.pid as int),
        e.user,
        e.name,
        kind_name(e.fd_type),
        match e.fd {
            Some(fd) => int_text(fd as int),
            None => Seq::empty(),
        },
        match e.mode {
            Some(m) => m,
            None => Seq::empty(),
        },
        target_text(e.target),
    ]
}

/// The titles of the columns.
pub open spec fn titles() -> Seq<Seq<char>> {
    seq!["PID"@, "User"@, "Name"@, "Type"@, "FD"@, "Mode"@, "Target"@]
}

/// The texts of a list of strings.
pub open spec fn texts(cells: Seq<String>) -> Seq<Seq<char>> {
    cells.map_values(|s: String| s@)
}

impl IpAddress {
    /// Tells whether every byte of the address is zero.
    pub fn is_zero(&self) -> (r: bool)
        ensures
            r == is_zero_address(self@),
    {
        match self {
            IpAddress::V4(a) => {
                assert(a@.len() == 4);
                assert(self@ == IpView::V4(a@));
                let zero = a[0] == 0 && a[1] == 0 && a[2] == 0 && a[3] == 0;
                assert(zero == all_zero(a@));
                zero
            },
            IpAddress::V6(a) => {
                let mut i: usize = 0;
                while i < 16
                    invariant
                        i <= 16,
                        a@.len() == 16,
                        self@ == IpView::V6(a@),
                        forall|j: int| 0 <= j < i ==> a@[j] == 0,
                    decreases 16 - i,
                {
                    if a[i] != 0 {
                        assert(a@[i as int] != 0);
                        return false;
                    }
                    i += 1;
                }
                true
            },
        }
    }
}

impl Endpoint {
    /// The endpoint as it is shown.
    pub fn display(&self) -> (r: String)
        ensures
            r@ == endpoint_display(self@),
    {
        match self {
            Endpoint::Inet { ip, port, .. } => {
                let mut out = String::new();
                if ip.is_zero() {
                    out.push('*');
                } else {
                    match ip {
                        IpAddress::V4(_) => {
                            out.append(ip.to_text().as_str());
                        },
                        IpAddress::V6(_) => {
                            out.push('[');
                            out.append(ip.to_text().as_str());
                            out.push(']');
                        },
                    }
                }
                out.push(':');
                if *port == 0 {
                    out.push('*');
                } else {
                    push_decimal(&mut out, *port as u64);
                }
                assert(out@ =~= endpoint_display(self@));
                out
            },
            Endpoint::Unix { path: Some(p) } => text_lossy(p.as_slice()),
            _ => String::new(),
        }
    }
}

impl SocketInfo {
    /// The socket as it is shown.
    pub fn display(&self) -> (r: String)
        ensures
            r@ == socket_text(self@),
    {
        match &self.local {
            Endpoint::Inet { .. } => {
                let mut out = self.local.display();
                out.append("->");
                out.append(self.remote.display().as_str());
                out
            },
            Endpoint::Unix { path: Some(p) } => text_lossy(p.as_slice()),
            _ => {
                let mut out = "socket:[".to_owned();
                push_decimal(&mut out, self.inode);
                out.append("]");
                out
            },
        }
    }
}

impl FDTarget {
    /// The target as it is shown.
    pub fn display(&self) -> (r: String)
        ensures
            r@ == target_text(self@),
    {
        match self {
            FDTarget::Path(p) => text_lossy(p.as_slice()),
            FDTarget::PipeInode(n) => {
                let mut out = "pipe:[".to_owned();
                push_decimal(&mut out, *n);
                out.append("]");
                out
            },
            FDTarget::AnonInode(kind, _) => {
                let mut out = "anon_inode:".to_owned();
                out.append(kind.as_str());
                out
            },
            FDTarget::Socket(info) => info.display(),
            FDTarget::Raw(t) => text_lossy(t.as_slice()),
        }
    }
}

impl FDType {
    /// The name of the type.
    pub fn name(&self) -> (r: String)
        ensures
            r@ == kind_name(self@),
    {
        match self {
            FDType::File => "File".to_owned(),
            FDType::Dir => "Dir".to_owned(),
            FDType::Pipe => "Pipe".to_owned(),
            FDType::Socket => "Socket".to_owned(),
            FDType::CharDev => "CharDev".to_owned(),
            FDType::BlockDev => "BlockDev".to_owned(),
            FDType::AnonInode => "AnonInode".to_owned(),
            FDType::Other(s) => s.clone(),
        }
    }
}

impl FdEntry {
    /// The name of the entry's type.
    pub fn fd_type(&self) -> (r: String)
        ensures
            r@ == kind_name(self.fd_type@),
    {
        self.fd_type.name()
    }

    /// The cells of the row that shows the entry.
    pub fn row(&self) -> (r: Vec<String>)
        ensures
            texts(r@) == row_of(self@),
    {
        let mut pid = String::new();
        push_int(&mut pid, self.pid);
        let mut fd = String::new();
        match self.fd {
            Some(n) => {
                push_int(&mut fd, n);
            },
            None => {},
        }
        let mode = match &self.mode {
            Some(m) => m.clone(),
            None => String::new(),
        };
        let mut cells: Vec<String> = Vec::new();
        cells.push(pid);
        cells.push(self.user.clone());
        cells.push(self.name.clone());
        cells.push(self.fd_type.name());
        cells.push(fd);
        cells.push(mode);
        cells.push(self.target.display());
        assert(texts(cells@) =~= row_of(self@));
        cells
    }
}

/// The titles of the columns of the table.
pub fn column_titles() -> (r: Vec<String>)
    ensures
        texts(r@) == titles(),
{
    let mut cells: Vec<String> = Vec::new();
    cells.push("PID".to_owned());
    cells.push("User".to_owned());
    cells.push("Name".to_owned());
    cells.push("Type".to_owned());
    cells.push("FD".to_owned());
    cells.push("Mode".to_owned());
    cells.push("Target".to_owned());
    assert(texts(cells@) =~= titles());
    cells
}

} // verus!
