//! The kernel's socket tables: reading their records and finding a socket by its inode.

use std::collections::HashMap;
use vstd::prelude::*;
use crate::model::Endpoint;
use crate::model::EndpointView;
use crate::model::IpAddress;
use crate::model::IpView;
use crate::model::SocketDomain;
use crate::model::SocketInfo;
use crate::model::SocketInfoView;
use crate::model::SocketKind;
use crate::model::SocketState;
use crate::text::all_digits_in;
use crate::text::digit_of;
use crate::text::digit_value;
use crate::text::find_line_end;
use crate::text::find_non_blank;
use crate::text::is_digit_in;
use crate::text::line_end;
use crate::text::lines_from;
use crate::text::next_line;
use crate::text::parse_decimal;
use crate::text::parse_hex;
use crate::text::radix_value;
use crate::text::reads_as;
use crate::text::skip_blanks;
use crate::text::word;
use crate::text::word_bounds;
use crate::text::word_end;

verus! {

broadcast use vstd::std_specs::hash::group_hash_axioms;

/// The tables that are read.
#[derive(Clone, Copy, Debug, PartialEq, Eq, Structural)]
pub enum TableKind {
    Tcp4,
    Tcp6,
    Udp4,
    Udp6,
    Raw4,
    Raw6,
    Unix,
}

impl TableKind {
    /// How many 32-bit words an address of the table's family has.
    pub open spec fn words(self) -> nat {
        match self {
            TableKind::Tcp4 | TableKind::Udp4 | TableKind::Raw4 => 1,
            _ => 4,
        }
    }

    /// The domain of the table's sockets.
    pub open spec fn domain(self) -> SocketDomain {
        match self {
            TableKind::Tcp4 | TableKind::Udp4 | TableKind::Raw4 => SocketDomain::Inet4,
            TableKind::Tcp6 | TableKind::Udp6 | TableKind::Raw6 => SocketDomain::Inet6,
            TableKind::Unix => SocketDomain::Unix,
        }
    }

    /// The type of the sockets of an internet table.
    pub open spec fn kind(self) -> SocketKind {
        match self {
            TableKind::Tcp4 | TableKind::Tcp6 => SocketKind::Stream,
            TableKind::Udp4 | TableKind::Udp6 => SocketKind::Dgram,
            _ => SocketKind::Raw,
        }
    }

    /// Whether the table lists TCP sockets.
    pub open spec fn is_tcp(self) -> bool {
        self == TableKind::Tcp4 || self == TableKind::Tcp6
    }
}

/// The state that a code of the TCP table stands for.
pub open spec fn tcp_state(code: u32) -> SocketState {
    if code == 1 {
        SocketState::Established
    } else if code == 2 {
        SocketState::SynSent
    } else if code == 3 {
        SocketState::SynRecv
    } else if code == 4 {
        SocketState::FinWait1
    } else if code == 5 {
        SocketState::FinWait2
    } else if code == 6 {
        SocketState::TimeWait
    } else if code == 7 {
        SocketState::Closed
    } else if code == 8 {
        SocketState::CloseWait
    } else if code == 9 {
        SocketState::LastAck
    } else if code == 10 {
        SocketState::Listen
    } else if code == 11 {
        SocketState::Closing
    } else {
        SocketState::Unknown(code)
    }
}

/// The state that a code of a UDP or raw table stands for: the codes are those of TCP, and
/// only two of them are given a name.
pub open spec fn datagram_state(code: u32) -> SocketState {
    if code == 1 {
        SocketState::Established
    } else if code == 7 {
        SocketState::Unconn
    } else {
        SocketState::Unknown(code)
    }
}

/// The state that a code of the Unix table stands for: unconnected and connected have a
/// name here, the others are kept as they are.
pub open spec fn unix_state(code: u32) -> SocketState {
    if code == 1 {
        SocketState::Unconn
    } else if code == 3 {
        SocketState::Established
    } else {
        SocketState::Unknown(code)
    }
}

/// The socket type that a code of the Unix table stands for.
pub open spec fn unix_kind(code: u32) -> SocketKind {
    if code == 1 {
        SocketKind::Stream
    } else if code == 2 {
        SocketKind::Dgram
    } else if code == 3 {
        SocketKind::Raw
    } else if code == 5 {
        SocketKind::SeqPacket
    } else {
        SocketKind::Other(code)
    }
}

/// The state of a socket of an internet table.
pub open spec fn inet_state(kind: TableKind, code: u32) -> SocketState {
    if kind.is_tcp() {
        tcp_state(code)
    } else {
        datagram_state(code)
    }
}

/// Byte `k` of an address, in network order, as the kernel writes it: each 32-bit word of
/// the address in hexadecimal with its bytes in reverse.
pub open spec fn kernel_byte(tok: Seq<u8>, k: int) -> u8 {
    let at = 2 * (4 * (k / 4) + 3 - k % 4);
    (digit_of(tok[at])->0 * 16 + digit_of(tok[at + 1])->0) as u8
}

/// The address that the kernel wrote as hexadecimal digits, `words` 32-bit words of it.
pub open spec fn kernel_address(tok: Seq<u8>, words: nat) -> Option<Seq<u8>> {
    if tok.len() == 8 * words && all_digits_in(tok, 16) {
        Some(Seq::new(4 * words, |k: int| kernel_byte(tok, k)))
    } else {
        None
    }
}

/// The address and port that the kernel wrote as one token: the address, a colon and the
/// port in hexadecimal, most significant digit first.
pub open spec fn kernel_endpoint(tok: Seq<u8>, words: nat) -> Option<(Seq<u8>, u16)> {
    let n = (8 * words) as int;
    if tok.len() > n && tok[n] == 58 && kernel_address(tok.take(n), words) is Some && reads_as(
        tok.skip(n + 1),
        16,
        0xffff,
    ) {
        Some((kernel_address(tok.take(n), words)->0, radix_value(tok.skip(n + 1), 16) as u16))
    } else {
        None
    }
}

/// An endpoint of an internet table.
pub open spec fn inet_endpoint(tok: Seq<u8>, kind: TableKind) -> Option<EndpointView> {
    match kernel_endpoint(tok, kind.words()) {
        Some((bytes, port)) => Some(
            EndpointView::Inet {
                ip: if kind.words() == 1 {
                    IpView::V4(bytes)
                } else {
                    IpView::V6(bytes)
                },
                port,
                hostname: None,
            },
        ),
        None => None,
    }
}

/// The socket that a line of an internet table records: the local endpoint is its second
/// word, the remote endpoint its third, the state its fourth, in hexadecimal, and the inode
/// its tenth, in decimal.
pub open spec fn inet_record(line: Seq<u8>, kind: TableKind) -> Option<SocketInfoView> {
    if word(line, 1) is Some && word(line, 2) is Some && word(line, 3) is Some && word(line, 9)
        is Some && inet_endpoint(word(line, 1)->0, kind) is Some && inet_endpoint(
        word(line, 2)->0,
        kind,
    ) is Some && reads_as(word(line, 3)->0, 16, 0xffff_ffff) && reads_as(
        word(line, 9)->0,
        10,
        0xffff_ffff_ffff_ffff,
    ) {
        Some(
            SocketInfoView {
                domain: kind.domain(),
                kind: kind.kind(),
                state: inet_state(kind, radix_value(word(line, 3)->0, 16) as u32),
                local: inet_endpoint(word(line, 1)->0, kind)->0,
                remote: inet_endpoint(word(line, 2)->0, kind)->0,
                inode: radix_value(word(line, 9)->0, 10) as u64,
            },
        )
    } else {
        None
    }
}

/// The path that a line of the Unix table ends with: what follows the blanks after the
/// seventh word, if anything does.
pub open spec fn unix_path(line: Seq<u8>) -> Option<Seq<u8>> {
    let from = skip_blanks(line, word_end(line, 6));
    if from < line.len() {
        Some(line.skip(from))
    } else {
        None
    }
}

/// The socket that a line of the Unix table records: the type is its fifth word and the
/// state its sixth, in hexadecimal, the inode its seventh, in decimal, and the path the rest.
pub open spec fn unix_record(line: Seq<u8>) -> Option<SocketInfoView> {
    if word(line, 4) is Some && word(line, 5) is Some && word(line, 6) is Some && reads_as(
        word(line, 4)->0,
        16,
        0xffff_ffff,
    ) && reads_as(word(line, 5)->0, 16, 0xffff_ffff) && reads_as(
        word(line, 6)->0,
        10,
        0xffff_ffff_ffff_ffff,
    ) {
        Some(
            SocketInfoView {
                domain: SocketDomain::Unix,
                kind: unix_kind(radix_value(word(line, 4)->0, 16) as u32),
                state: unix_state(radix_value(word(line, 5)->0, 16) as u32),
                local: EndpointView::Unix { path: unix_path(line) },
                remote: EndpointView::Unix { path: None },
                inode: radix_value(word(line, 6)->0, 10) as u64,
            },
        )
    } else {
        None
    }
}

/// The socket that a line of a table records, if the line can be read.
pub open spec fn record(line: Seq<u8>, kind: TableKind) -> Option<SocketInfoView> {
    if kind == TableKind::Unix {
        unix_record(line)
    } else {
        inet_record(line, kind)
    }
}

impl TableKind {
    fn word_count(self) -> (r: usize)
        ensures
            r == self.words(),
    {
        match self {
            TableKind::Tcp4 | TableKind::Udp4 | TableKind::Raw4 => 1,
            _ => 4,
        }
    }

    fn socket_domain(self) -> (r: SocketDomain)
        ensures
            r == self.domain(),
    {
        match self {
            TableKind::Tcp4 | TableKind::Udp4 | TableKind::Raw4 => SocketDomain::Inet4,
            TableKind::Tcp6 | TableKind::Udp6 | TableKind::Raw6 => SocketDomain::Inet6,
            TableKind::Unix => SocketDomain::Unix,
        }
    }

    fn socket_kind(self) -> (r: SocketKind)
        ensures
            r == self.kind(),
    {
        match self {
            TableKind::Tcp4 | TableKind::Tcp6 => SocketKind::Stream,
            TableKind::Udp4 | TableKind::Udp6 => SocketKind::Dgram,
            _ => SocketKind::Raw,
        }
    }

    fn state_of(self, code: u32) -> (r: SocketState)
        ensures
            r == inet_state(self, code),
    {
        match self {
            TableKind::Tcp4 | TableKind::Tcp6 => {
                if code == 1 {
                    SocketState::Established
                } else if code == 2 {
                    SocketState::SynSent
                } else if code == 3 {
                    SocketState::SynRecv
                } else if code == 4 {
                    SocketState::FinWait1
                } else if code == 5 {
                    SocketState::FinWait2
                } else if code == 6 {
                    SocketState::TimeWait
                } else if code == 7 {
                    SocketState::Closed
                } else if code == 8 {
                    SocketState::CloseWait
                } else if code == 9 {
                    SocketState::LastAck
                } else if code == 10 {
                    SocketState::Listen
                } else if code == 11 {
                    SocketState::Closing
                } else {
                    SocketState::Unknown(code)
                }
            },
            _ => {
                if code == 1 {
                    SocketState::Established
                } else if code == 7 {
                    SocketState::Unconn
                } else {
                    SocketState::Unknown(code)
                }
            },
        }
    }
}

fn all_hex(tok: &[u8]) -> (r: bool)
    ensures
        r == all_digits_in(tok@, 16),
{
    let mut i: usize = 0;
    while i < tok.len()
        invariant
            i <= tok@.len(),
            forall|j: int| 0 <= j < i ==> is_digit_in(#[trigger] tok@[j], 16),
        decreases tok@.len() - i,
    {
        match digit_value(tok[i]) {
            Some(_) => {},
            None => {
                return false;
            },
        }
        i += 1;
    }
    true
}

fn read_address(tok: &[u8], words: usize) -> (r: Option<Vec<u8>>)
    requires
        words == 1 || words == 4,
    ensures
        r is Some == kernel_address(tok@, words as nat) is Some,
        r matches Some(v) ==> v@ == kernel_address(tok@, words as nat)->0,
{
    if tok.len() != 8 * words || !all_hex(tok) {
        return None;
    }
    let mut bytes: Vec<u8> = Vec::new();
    let mut k: usize = 0;
    while k < 4 * words
        invariant
            words == 1 || words == 4,
            tok@.len() == 8 * words,
            all_digits_in(tok@, 16),
            k <= 4 * words,
            bytes@.len() == k,
            forall|j: int| 0 <= j < k ==> bytes@[j] == kernel_byte(tok@, j),
        decreases 4 * words - k,
    {
        let at: usize = 2 * (4 * (k / 4) + 3 - k % 4);
        assert(is_digit_in(tok@[at as int], 16));
        assert(is_digit_in(tok@[at + 1], 16));
        let hi: u8 = match digit_value(tok[at]) {
            Some(d) => d,
            None => 0,
        };
        let lo: u8 = match digit_value(tok[at + 1]) {
            Some(d) => d,
            None => 0,
        };
        bytes.push(hi * 16 + lo);
        k += 1;
    }
    assert(bytes@ =~= Seq::new((4 * words) as nat, |k: int| kernel_byte(tok@, k)));
    Some(bytes)
}

fn read_endpoint(tok: &[u8], kind: TableKind) -> (r: Option<Endpoint>)
    requires
        kind != TableKind::Unix,
    ensures
        r is Some == inet_endpoint(tok@, kind) is Some,
        r matches Some(e) ==> e@ == inet_endpoint(tok@, kind)->0,
{
    let words = kind.word_count();
    let n: usize = 8 * words;
    if tok.len() <= n || tok[n] != 58 {
        return None;
    }
    let bytes = match read_address(&tok[0..n], words) {
        Some(b) => b,
        None => {
            return None;
        },
    };
    let port = match parse_hex(&tok[n + 1..tok.len()], 0xffff) {
        Some(p) => p as u16,
        None => {
            return None;
        },
    };
    let ip = if words == 1 {
        let a: [u8; 4] = [bytes[0], bytes[1], bytes[2], bytes[3]];
        assert(a@ =~= bytes@);
        IpAddress::V4(a)
    } else {
        let a: [u8; 16] = [
            bytes[0],
            bytes[1],
            bytes[2],
            bytes[3],
            bytes[4],
            bytes[5],
            bytes[6],
            bytes[7],
            bytes[8],
            bytes[9],
            bytes[10],
            bytes[11],
            bytes[12],
            bytes[13],
            bytes[14],
            bytes[15],
        ];
        assert(a@ =~= bytes@);
        IpAddress::V6(a)
    };
    Some(Endpoint::Inet { ip, port, hostname: None })
}

fn read_word<'a>(line: &'a [u8], k: usize) -> (r: Option<&'a [u8]>)
    ensures
        r is Some == word(line@, k as nat) is Some,
        r matches Some(w) ==> w@ == word(line@, k as nat)->0,
{
    match word_bounds(line, k) {
        Some((a, b)) => Some(&line[a..b]),
        None => None,
    }
}

fn read_inet_record(line: &[u8], kind: TableKind) -> (r: Option<SocketInfo>)
    requires
        kind != TableKind::Unix,
    ensures
        r is Some == inet_record(line@, kind) is Some,
        r matches Some(info) ==> info@ == inet_record(line@, kind)->0,
{
    let local = match read_word(line, 1) {
        Some(w) => match read_endpoint(w, kind) {
            Some(e) => e,
            None => {
                return None;
            },
        },
        None => {
            return None;
        },
    };
    let remote = match read_word(line, 2) {
        Some(w) => match read_endpoint(w, kind) {
            Some(e) => e,
            None => {
                return None;
            },
        },
        None => {
            return None;
        },
    };
    let code = match read_word(line, 3) {
        Some(w) => match parse_hex(w, 0xffff_ffff) {
            Some(c) => c as u32,
            None => {
                return None;
            },
        },
        None => {
            return None;
        },
    };
    let inode = match read_word(line, 9) {
        Some(w) => match parse_decimal(w, 0xffff_ffff_ffff_ffff) {
            Some(n) => n,
            None => {
                return None;
            },
        },
        None => {
            return None;
        },
    };
    Some(
        SocketInfo {
            domain: kind.socket_domain(),
            kind: kind.socket_kind(),
            state: kind.state_of(code),
            local,
            remote,
            inode,
        },
    )
}

fn read_unix_record(line: &[u8]) -> (r: Option<SocketInfo>)
    ensures
        r is Some == unix_record(line@) is Some,
        r matches Some(info) ==> info@ == unix_record(line@)->0,
{
    let type_code = match read_word(line, 4) {
        Some(w) => match parse_hex(w, 0xffff_ffff) {
            Some(c) => c as u32,
            None => {
                return None;
            },
        },
        None => {
            return None;
        },
    };
    let state_code = match read_word(line, 5) {
        Some(w) => match parse_hex(w, 0xffff_ffff) {
            Some(c) => c as u32,
            None => {
                return None;
            },
        },
        None => {
            return None;
        },
    };
    let (inode, inode_end) = match word_bounds(line, 6) {
        Some((a, b)) => match parse_decimal(&line[a..b], 0xffff_ffff_ffff_ffff) {
            Some(n) => (n, b),
            None => {
                return None;
            },
        },
        None => {
            return None;
        },
    };
    let from = find_non_blank(line, inode_end);
    let path = if from < line.len() {
        let mut p: Vec<u8> = Vec::new();
        p.extend_from_slice(&line[from..line.len()]);
        assert(p@ =~= line@.skip(from as int));
        Some(p)
    } else {
        None
    };
    let kind = if type_code == 1 {
        SocketKind::Stream
    } else if type_code == 2 {
        SocketKind::Dgram
    } else if type_code == 3 {
        SocketKind::Raw
    } else if type_code == 5 {
        SocketKind::SeqPacket
    } else {
        SocketKind::Other(type_code)
    };
    let state = if state_code == 1 {
        SocketState::Unconn
    } else if state_code == 3 {
        SocketState::Established
    } else {
        SocketState::Unknown(state_code)
    };
    Some(
        SocketInfo {
            domain: SocketDomain::Unix,
            kind,
            state,
            local: Endpoint::Unix { path },
            remote: Endpoint::Unix { path: None },
            inode,
        },
    )
}

/// Reads one line of a table.
pub fn read_record(line: &[u8], kind: TableKind) -> (r: Option<SocketInfo>)
    ensures
        r is Some == record(line@, kind) is Some,
        r matches Some(info) ==> info@ == record(line@, kind)->0,
{
    match kind {
        TableKind::Unix => read_unix_record(line),
        _ => read_inet_record(line, kind),
    }
}

/// The host name that the list gives for an address: that of the first pair with the
/// address.
pub open spec fn host_name(names: Seq<(IpView, Seq<char>)>, ip: IpView) -> Option<Seq<char>>
    decreases names.len(),
{
    if names.len() == 0 {
        None
    } else if names[0].0 == ip {
        Some(names[0].1)
    } else {
        host_name(names.drop_first(), ip)
    }
}

/// An endpoint with the host name that the list gives for its address; without a name in the
/// list, and for an endpoint without an address, nothing changes.
pub open spec fn named_endpoint(e: EndpointView, names: Seq<(IpView, Seq<char>)>) -> EndpointView {
    match e {
        EndpointView::Inet { ip, port, hostname } => EndpointView::Inet {
            ip,
            port,
            hostname: match host_name(names, ip) {
                Some(name) => Some(name),
                None => hostname,
            },
        },
        _ => e,
    }
}

/// A socket with the host names that the list gives for the addresses of its two ends.
pub open spec fn named(info: SocketInfoView, names: Seq<(IpView, Seq<char>)>) -> SocketInfoView {
    SocketInfoView {
        domain: info.domain,
        kind: info.kind,
        state: info.state,
        local: named_endpoint(info.local, names),
        remote: named_endpoint(info.remote, names),
        inode: info.inode,
    }
}

/// The socket that a line records, with the host names of the list.
pub open spec fn named_record(
    line: Seq<u8>,
    kind: TableKind,
    names: Seq<(IpView, Seq<char>)>,
) -> Option<SocketInfoView> {
    match record(line, kind) {
        Some(info) => Some(named(info, names)),
        None => None,
    }
}

/// The pairs of a list of names as addresses and texts.
pub open spec fn names_view(names: Seq<(IpAddress, String)>) -> Seq<(IpView, Seq<char>)> {
    names.map_values(|n: (IpAddress, String)| (n.0@, n.1@))
}

/// The map with a record added, unless the record is missing or its inode is already there:
/// the record that was read first stays.
pub open spec fn add_first(m: Map<u64, SocketInfoView>, rec: Option<SocketInfoView>) -> Map<
    u64,
    SocketInfoView,
> {
    match rec {
        Some(info) => if m.contains_key(info.inode) {
            m
        } else {
            m.insert(info.inode, info)
        },
        None => m,
    }
}

/// The map after the records of the lines were added in order, each with the host names of
/// the list; a line that cannot be read adds nothing.
pub open spec fn load_lines(
    m: Map<u64, SocketInfoView>,
    kind: TableKind,
    ls: Seq<Seq<u8>>,
    names: Seq<(IpView, Seq<char>)>,
) -> Map<u64, SocketInfoView>
    decreases ls.len(),
{
    if ls.len() == 0 {
        m
    } else {
        load_lines(add_first(m, named_record(ls[0], kind, names)), kind, ls.drop_first(), names)
    }
}

/// The lines of a table that may hold records: all but the first, which is a header.
pub open spec fn record_lines(content: Seq<u8>) -> Seq<Seq<u8>> {
    lines_from(content, line_end(content, 0) + 1)
}

/// The map after a table was loaded.
pub open spec fn load_table(
    m: Map<u64, SocketInfoView>,
    kind: TableKind,
    content: Seq<u8>,
    names: Seq<(IpView, Seq<char>)>,
) -> Map<u64, SocketInfoView> {
    load_lines(m, kind, record_lines(content), names)
}

/// The address of an endpoint, if it has one.
pub open spec fn endpoint_addresses(e: EndpointView) -> Seq<IpView> {
    match e {
        EndpointView::Inet { ip, .. } => seq![ip],
        _ => Seq::empty(),
    }
}

/// The addresses that the lines record, in order: for each line that can be read the local
/// address and then the remote one.
pub open spec fn line_addresses(kind: TableKind, ls: Seq<Seq<u8>>) -> Seq<IpView>
    decreases ls.len(),
{
    if ls.len() == 0 {
        Seq::empty()
    } else {
        match record(ls[0], kind) {
            Some(info) => endpoint_addresses(info.local) + endpoint_addresses(info.remote)
                + line_addresses(kind, ls.drop_first()),
            None => line_addresses(kind, ls.drop_first()),
        }
    }
}

/// The addresses as values of the model.
pub open spec fn address_views(addresses: Seq<IpAddress>) -> Seq<IpView> {
    addresses.map_values(|a: IpAddress| a@)
}

/// Whether every socket of the map is filed under its own inode.
pub open spec fn keyed_by_inode(m: Map<u64, SocketInfoView>) -> bool {
    forall|k: u64| m.contains_key(k) ==> (#[trigger] m[k]).inode == k
}

/// Loading keeps every socket under its own inode.
pub proof fn lemma_load_keeps_keys(
    m: Map<u64, SocketInfoView>,
    kind: TableKind,
    ls: Seq<Seq<u8>>,
    names: Seq<(IpView, Seq<char>)>,
)
    requires
        keyed_by_inode(m),
    ensures
        keyed_by_inode(load_lines(m, kind, ls, names)),
    decreases ls.len(),
{
    if ls.len() > 0 {
        lemma_load_keeps_keys(
            add_first(m, named_record(ls[0], kind, names)),
            kind,
            ls.drop_first(),
            names,
        );
    }
}

/// Without names in the list a record stays as it was read.
pub proof fn lemma_no_names(info: SocketInfoView)
    ensures
        named(info, Seq::empty()) == info,
{
}

impl IpAddress {
    /// Tells whether two addresses are the same.
    pub fn same(&self, other: &IpAddress) -> (r: bool)
        ensures
            r == (self@ == other@),
    {
        match (self, other) {
            (IpAddress::V4(a), IpAddress::V4(b)) => {
                let r = a[0] == b[0] && a[1] == b[1] && a[2] == b[2] && a[3] == b[3];
                assert(r ==> a@ =~= b@);
                assert(!r ==> a@[0] != b@[0] || a@[1] != b@[1] || a@[2] != b@[2] || a@[3] != b@[3]);
                r
            },
            (IpAddress::V6(a), IpAddress::V6(b)) => {
                let mut i: usize = 0;
                while i < 16
                    invariant
                        i <= 16,
                        a@.len() == 16,
                        b@.len() == 16,
                        self@ == IpView::V6(a@),
                        other@ == IpView::V6(b@),
                        forall|j: int| 0 <= j < i ==> a@[j] == b@[j],
                    decreases 16 - i,
                {
                    if a[i] != b[i] {
                        assert(a@[i as int] != b@[i as int]);
                        return false;
                    }
                    i += 1;
                }
                assert(a@ =~= b@);
                true
            },
            _ => false,
        }
    }
}

fn find_name(names: &Vec<(IpAddress, String)>, ip: &IpAddress) -> (r: Option<String>)
    ensures
        r is Some == host_name(names_view(names@), ip@) is Some,
        r matches Some(n) ==> n@ == host_name(names_view(names@), ip@)->0,
{
    let mut i: usize = 0;
    assert(names_view(names@).skip(0) =~= names_view(names@));
    while i < names.len()
        invariant
            i <= names@.len(),
            host_name(names_view(names@), ip@) == host_name(
                names_view(names@).skip(i as int),
                ip@,
            ),
        decreases names@.len() - i,
    {
        let ghost rest = names_view(names@).skip(i as int);
        assert(rest[0] == (names@[i as int].0@, names@[i as int].1@));
        assert(rest.drop_first() =~= names_view(names@).skip(i + 1));
        if names[i].0.same(ip) {
            return Some(names[i].1.clone());
        }
        i += 1;
    }
    None
}

impl Endpoint {
    /// The endpoint with the host name that the list gives for its address.
    pub fn with_name(self, names: &Vec<(IpAddress, String)>) -> (r: Endpoint)
        ensures
            r@ == named_endpoint(self@, names_view(names@)),
    {
        match self {
            Endpoint::Inet { ip, port, hostname } => {
                let hostname = match find_name(names, &ip) {
                    Some(name) => Some(name),
                    None => hostname,
                };
                Endpoint::Inet { ip, port, hostname }
            },
            other => other,
        }
    }
}

impl SocketInfo {
    /// The socket with the host names that the list gives for the addresses of its ends.
    pub fn with_names(self, names: &Vec<(IpAddress, String)>) -> (r: SocketInfo)
        ensures
            r@ == named(self@, names_view(names@)),
    {
        SocketInfo {
            domain: self.domain,
            kind: self.kind,
            state: self.state,
            local: self.local.with_name(names),
            remote: self.remote.with_name(names),
            inode: self.inode,
        }
    }
}

/// The addresses that a table records, in the order of its lines and with repeats: for each
/// line that can be read the local address and then the remote one. These are the addresses
/// whose host names `SocketTable::load` can put in.
pub fn table_addresses(kind: TableKind, content: &[u8]) -> (r: Vec<IpAddress>)
    ensures
        address_views(r@) == line_addresses(kind, record_lines(content@)),
{
    let mut out: Vec<IpAddress> = Vec::new();
    let header_end = find_line_end(content, 0);
    let mut pos: usize = if header_end < content.len() {
        header_end + 1
    } else {
        header_end
    };
    assert(address_views(out@) =~= Seq::empty());
    while pos < content.len()
        invariant
            pos <= content@.len(),
            line_addresses(kind, record_lines(content@)) == address_views(out@) + line_addresses(
                kind,
                lines_from(content@, pos as int),
            ),
        decreases content@.len() - pos,
    {
        let (end, next) = next_line(content, pos);
        let ghost before = address_views(out@);
        let ghost rest = line_addresses(kind, lines_from(content@, next as int));
        match read_record(&content[pos..end], kind) {
            Some(info) => {
                match &info.local {
                    Endpoint::Inet { ip, .. } => {
                        out.push(*ip);
                        assert(address_views(out@) =~= before + endpoint_addresses(info.local@));
                    },
                    _ => {
                        assert(address_views(out@) =~= before + endpoint_addresses(info.local@));
                    },
                }
                let ghost half = address_views(out@);
                match &info.remote {
                    Endpoint::Inet { ip, .. } => {
                        out.push(*ip);
                        assert(address_views(out@) =~= half + endpoint_addresses(info.remote@));
                    },
                    _ => {
                        assert(address_views(out@) =~= half + endpoint_addresses(info.remote@));
                    },
                }
                assert(before + (endpoint_addresses(info.local@) + endpoint_addresses(
                    info.remote@,
                ) + rest) =~= address_views(out@) + rest);
            },
            None => {},
        }
        pos = next;
    }
    assert(address_views(out@) + Seq::empty() =~= address_views(out@));
    out
}

/// The sockets of the machine by inode, as the tables listed them.
pub struct SocketTable {
    sockets: HashMap<u64, SocketInfo>,
}

impl View for SocketTable {
    type V = Map<u64, SocketInfoView>;

    closed spec fn view(&self) -> Map<u64, SocketInfoView> {
        self.sockets@.map_values(|info: SocketInfo| info@)
    }
}

impl SocketTable {
    #[verifier::type_invariant]
    spec fn filed_by_inode(&self) -> bool {
        forall|k: u64| self.sockets@.contains_key(k) ==> (#[trigger] self.sockets@[k]).inode == k
    }

    /// A table without sockets.
    pub fn new() -> (t: SocketTable)
        ensures
            t@ == Map::<u64, SocketInfoView>::empty(),
    {
        let t = SocketTable { sockets: HashMap::new() };
        assert(t@ =~= Map::<u64, SocketInfoView>::empty());
        t
    }

    /// Adds a socket unless one with its inode is there already.
    pub fn add(&mut self, info: SocketInfo)
        ensures
            final(self)@ == add_first(old(self)@, Some(info@)),
            keyed_by_inode(final(self)@),
    {
        proof {
            use_type_invariant(&*self);
        }
        if !self.sockets.contains_key(&info.inode) {
            let ghost v = info@;
            let ghost k = info.inode;
            // The map is taken out while it changes: the table itself is never seen with a
            // socket out of its place.
            let mut sockets: HashMap<u64, SocketInfo> = HashMap::new();
            core::mem::swap(&mut self.sockets, &mut sockets);
            sockets.insert(info.inode, info);
            core::mem::swap(&mut self.sockets, &mut sockets);
            assert(self@ =~= old(self)@.insert(k, v));
        }
        proof {
            use_type_invariant(&*self);
        }
    }

    /// Adds the sockets that a table lists, each with the host names that the list gives
    /// for the addresses of its ends; an empty list leaves them without. The first line is
    /// the header; a line that cannot be read is passed over, and of two records with one
    /// inode the first stays.
    pub fn load(&mut self, kind: TableKind, content: &[u8], names: &Vec<(IpAddress, String)>)
        ensures
            final(self)@ == load_table(old(self)@, kind, content@, names_view(names@)),
            keyed_by_inode(final(self)@),
    {
        let header_end = find_line_end(content, 0);
        let mut pos: usize = if header_end < content.len() {
            header_end + 1
        } else {
            header_end
        };
        while pos < content.len()
            invariant
                pos <= content@.len(),
                load_table(old(self)@, kind, content@, names_view(names@)) == load_lines(
                    self@,
                    kind,
                    lines_from(content@, pos as int),
                    names_view(names@),
                ),
            decreases content@.len() - pos,
        {
            let (end, next) = next_line(content, pos);
            match read_record(&content[pos..end], kind) {
                Some(info) => {
                    self.add(info.with_names(names));
                },
                None => {},
            }
            pos = next;
        }
        proof {
            use_type_invariant(&*self);
        }
    }

    /// The socket with the given inode, if the tables listed one.
    pub fn lookup(&self, inode: u64) -> (r: Option<SocketInfo>)
        ensures
            r is Some == self@.contains_key(inode),
            r matches Some(info) ==> info@ == self@[inode] && info.inode == inode,
            keyed_by_inode(self@),
    {
        proof {
            use_type_invariant(self);
        }
        match self.sockets.get(&inode) {
            Some(info) => Some(info.duplicate()),
            None => None,
        }
    }

    /// How many sockets the table holds.
    pub fn len(&self) -> (n: usize)
        ensures
            n == self@.len(),
    {
        proof {
            lemma_view_dom(self.sockets@);
        }
        self.sockets.len()
    }
}

proof fn lemma_view_dom(m: Map<u64, SocketInfo>)
    ensures
        m.map_values(|info: SocketInfo| info@).dom() =~= m.dom(),
{
}

} // verus!
