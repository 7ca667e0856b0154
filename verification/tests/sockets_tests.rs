use procfd::model::Endpoint;
use procfd::model::IpAddress;
use procfd::model::SocketDomain;
use procfd::model::SocketInfo;
use procfd::model::SocketKind;
use procfd::model::SocketState;
use procfd::sockets::read_record;
use procfd::sockets::SocketTable;
use procfd::sockets::TableKind;

const TCP_HEADER: &str = "  sl  local_address rem_address   st tx_queue rx_queue tr tm->when retrnsmt   uid  timeout inode\n";
const LISTEN_9999: &str = "   0: 00000000:270F 00000000:0000 0A 00000000:00000000 00:00000000 00000000     0        0 12345 1 0000000000000000 100 0 0 10 0";
const ESTABLISHED: &str = "   1: 0100007F:0277 0200007F:D431 01 00000000:00000000 00:00000000 00000000  1000        0 777 1 0000000000000000 20 4 30 10 -1";

fn inet4(bytes: [u8; 4], port: u16) -> Endpoint {
    Endpoint::Inet { ip: IpAddress::V4(bytes), port, hostname: None }
}

fn state_of(kind: TableKind, code: &str) -> SocketState {
    let line = format!("   0: 00000000:0035 00000000:0000 {} 00000000:00000000 00:00000000 00000000     0        0 9 2", code);
    read_record(line.as_bytes(), kind).unwrap().state
}

#[test]
fn a_listening_tcp_socket_is_read() {
    let info = read_record(LISTEN_9999.as_bytes(), TableKind::Tcp4).unwrap();
    assert_eq!(
        info,
        SocketInfo {
            domain: SocketDomain::Inet4,
            kind: SocketKind::Stream,
            state: SocketState::Listen,
            local: inet4([0, 0, 0, 0], 9999),
            remote: inet4([0, 0, 0, 0], 0),
            inode: 12345,
        }
    );
    assert_eq!(info.local.display(), "*:9999");
    assert_eq!(info.remote.display(), "*:*");
    match &info.local {
        Endpoint::Inet { ip, port, .. } => {
            assert_eq!(ip.to_text(), "0.0.0.0");
            assert_eq!(*port, 9999);
        }
        _ => panic!("an internet endpoint was expected"),
    }
}

#[test]
fn the_bytes_of_an_address_are_put_in_network_order() {
    let info = read_record(ESTABLISHED.as_bytes(), TableKind::Tcp4).unwrap();
    assert_eq!(info.state, SocketState::Established);
    assert_eq!(info.local, inet4([127, 0, 0, 1], 631));
    assert_eq!(info.remote, inet4([127, 0, 0, 2], 0xd431));
    assert_eq!(info.inode, 777);
}

#[test]
fn a_tcp6_socket_is_read() {
    let line = "   0: 00000000000000000000000001000000:1F90 B80D0120000000000000000001000000:0000 0A 00000000:00000000 00:00000000 00000000     0        0 4242 1";
    let info = read_record(line.as_bytes(), TableKind::Tcp6).unwrap();
    assert_eq!(info.domain, SocketDomain::Inet6);
    assert_eq!(info.kind, SocketKind::Stream);
    assert_eq!(info.state, SocketState::Listen);
    assert_eq!(info.inode, 4242);
    match &info.local {
        Endpoint::Inet { ip, port, hostname } => {
            assert_eq!(*ip, IpAddress::V6([0, 0, 0, 0, 0, 0, 0, 0, 0, 0, 0, 0, 0, 0, 0, 1]));
            assert_eq!(ip.to_text(), "::1");
            assert_eq!(*port, 8080);
            assert_eq!(*hostname, None);
        }
        _ => panic!("an internet endpoint was expected"),
    }
    match &info.remote {
        Endpoint::Inet { ip, .. } => assert_eq!(ip.to_text(), "2001:db8::1"),
        _ => panic!("an internet endpoint was expected"),
    }
    assert_eq!(info.local.display(), "[::1]:8080");
}

#[test]
fn tcp_states_follow_the_kernel_codes() {
    assert_eq!(state_of(TableKind::Tcp4, "01"), SocketState::Established);
    assert_eq!(state_of(TableKind::Tcp4, "02"), SocketState::SynSent);
    assert_eq!(state_of(TableKind::Tcp4, "03"), SocketState::SynRecv);
    assert_eq!(state_of(TableKind::Tcp4, "04"), SocketState::FinWait1);
    assert_eq!(state_of(TableKind::Tcp4, "05"), SocketState::FinWait2);
    assert_eq!(state_of(TableKind::Tcp4, "06"), SocketState::TimeWait);
    assert_eq!(state_of(TableKind::Tcp4, "07"), SocketState::Closed);
    assert_eq!(state_of(TableKind::Tcp4, "08"), SocketState::CloseWait);
    assert_eq!(state_of(TableKind::Tcp4, "09"), SocketState::LastAck);
    assert_eq!(state_of(TableKind::Tcp4, "0A"), SocketState::Listen);
    assert_eq!(state_of(TableKind::Tcp4, "0B"), SocketState::Closing);
    assert_eq!(state_of(TableKind::Tcp4, "0C"), SocketState::Unknown(12));
    assert_eq!(state_of(TableKind::Tcp4, "00"), SocketState::Unknown(0));
}

#[test]
fn udp_and_raw_name_two_states() {
    assert_eq!(state_of(TableKind::Udp4, "01"), SocketState::Established);
    assert_eq!(state_of(TableKind::Udp4, "07"), SocketState::Unconn);
    assert_eq!(state_of(TableKind::Udp4, "0A"), SocketState::Unknown(10));
    assert_eq!(state_of(TableKind::Raw4, "07"), SocketState::Unconn);
    assert_eq!(state_of(TableKind::Raw4, "02"), SocketState::Unknown(2));
}

#[test]
fn the_table_gives_domain_and_type() {
    let udp = read_record(LISTEN_9999.as_bytes(), TableKind::Udp4).unwrap();
    assert_eq!((udp.domain, udp.kind), (SocketDomain::Inet4, SocketKind::Dgram));
    let raw = read_record(LISTEN_9999.as_bytes(), TableKind::Raw4).unwrap();
    assert_eq!((raw.domain, raw.kind), (SocketDomain::Inet4, SocketKind::Raw));
    let line = "   0: 00000000000000000000000000000000:0035 00000000000000000000000000000000:0000 07 00000000:00000000 00:00000000 00000000     0        0 5 2";
    let udp6 = read_record(line.as_bytes(), TableKind::Udp6).unwrap();
    assert_eq!((udp6.domain, udp6.kind), (SocketDomain::Inet6, SocketKind::Dgram));
    let raw6 = read_record(line.as_bytes(), TableKind::Raw6).unwrap();
    assert_eq!((raw6.domain, raw6.kind), (SocketDomain::Inet6, SocketKind::Raw));
}

#[test]
fn a_unix_socket_with_a_path_is_read() {
    let line = "0000000000000000: 00000002 00000000 00010000 0001 01 23456 /tmp/x.sock";
    let info = read_record(line.as_bytes(), TableKind::Unix).unwrap();
    assert_eq!(
        info,
        SocketInfo {
            domain: SocketDomain::Unix,
            kind: SocketKind::Stream,
            state: SocketState::Unconn,
            local: Endpoint::Unix { path: Some(b"/tmp/x.sock".to_vec()) },
            remote: Endpoint::Unix { path: None },
            inode: 23456,
        }
    );
}

#[test]
fn a_unix_socket_without_a_path_is_anonymous() {
    let line = "0000000000000000: 00000003 00000000 00000000 0002 03 99";
    let info = read_record(line.as_bytes(), TableKind::Unix).unwrap();
    assert_eq!(info.kind, SocketKind::Dgram);
    assert_eq!(info.state, SocketState::Established);
    assert_eq!(info.local, Endpoint::Unix { path: None });
    let line = "0000000000000000: 00000003 00000000 00000000 0005 02 99   ";
    let info = read_record(line.as_bytes(), TableKind::Unix).unwrap();
    assert_eq!(info.kind, SocketKind::SeqPacket);
    assert_eq!(info.state, SocketState::Unknown(2));
    assert_eq!(info.local, Endpoint::Unix { path: None });
}

#[test]
fn a_unix_path_keeps_its_blanks() {
    let line = "0000000000000000: 00000002 00000000 00010000 0003 01 7 /tmp/a b";
    let info = read_record(line.as_bytes(), TableKind::Unix).unwrap();
    assert_eq!(info.kind, SocketKind::Raw);
    assert_eq!(info.local, Endpoint::Unix { path: Some(b"/tmp/a b".to_vec()) });
    let line = "0000000000000000: 00000002 00000000 00010000 0004 01 7 @abstract";
    let info = read_record(line.as_bytes(), TableKind::Unix).unwrap();
    assert_eq!(info.kind, SocketKind::Other(4));
    assert_eq!(info.local, Endpoint::Unix { path: Some(b"@abstract".to_vec()) });
}

#[test]
fn lines_that_cannot_be_read_give_nothing() {
    assert_eq!(read_record(b"", TableKind::Tcp4), None);
    assert_eq!(read_record(TCP_HEADER.trim_end().as_bytes(), TableKind::Tcp4), None);
    assert_eq!(read_record(b"   0: 00000000:270F 00000000:0000 0A", TableKind::Tcp4), None);
    let bad_address = LISTEN_9999.replace("00000000:270F", "0000000G:270F");
    assert_eq!(read_record(bad_address.as_bytes(), TableKind::Tcp4), None);
    let short_address = LISTEN_9999.replace("00000000:270F", "000000:270F");
    assert_eq!(read_record(short_address.as_bytes(), TableKind::Tcp4), None);
    let no_port = LISTEN_9999.replace("00000000:270F", "00000000:");
    assert_eq!(read_record(no_port.as_bytes(), TableKind::Tcp4), None);
    let wide_port = LISTEN_9999.replace("00000000:270F", "00000000:1270F");
    assert_eq!(read_record(wide_port.as_bytes(), TableKind::Tcp4), None);
    let bad_inode = LISTEN_9999.replace(" 12345 ", " 12x45 ");
    assert_eq!(read_record(bad_inode.as_bytes(), TableKind::Tcp4), None);
    assert_eq!(read_record(LISTEN_9999.as_bytes(), TableKind::Tcp6), None);
    assert_eq!(read_record(b"0000000000000000: 00000002 00000000 00010000 0001 01", TableKind::Unix), None);
}

#[test]
fn a_table_is_loaded_without_its_header() {
    let content = format!("{}{}\n{}\n", TCP_HEADER, LISTEN_9999, ESTABLISHED);
    let mut table = SocketTable::new();
    assert_eq!(table.len(), 0);
    table.load(TableKind::Tcp4, content.as_bytes(), &vec![]);
    assert_eq!(table.len(), 2);
    assert_eq!(table.lookup(12345).unwrap().state, SocketState::Listen);
    assert_eq!(table.lookup(777).unwrap().state, SocketState::Established);
    assert_eq!(table.lookup(1), None);
}

#[test]
fn the_first_line_is_never_a_record() {
    let content = format!("{}\n{}\n", LISTEN_9999, ESTABLISHED);
    let mut table = SocketTable::new();
    table.load(TableKind::Tcp4, content.as_bytes(), &vec![]);
    assert_eq!(table.len(), 1);
    assert_eq!(table.lookup(12345), None);
    assert!(table.lookup(777).is_some());
}

#[test]
fn bad_lines_are_passed_over() {
    let content = format!("{}garbage\n{}\n\n   9: nonsense\n{}", TCP_HEADER, LISTEN_9999, ESTABLISHED);
    let mut table = SocketTable::new();
    table.load(TableKind::Tcp4, content.as_bytes(), &vec![]);
    assert_eq!(table.len(), 2);
    assert!(table.lookup(12345).is_some());
    assert!(table.lookup(777).is_some());
}

#[test]
fn the_first_record_of_an_inode_stays() {
    let second = LISTEN_9999.replace(" 0A ", " 01 ");
    let content = format!("{}{}\n{}\n", TCP_HEADER, LISTEN_9999, second);
    let mut table = SocketTable::new();
    table.load(TableKind::Tcp4, content.as_bytes(), &vec![]);
    assert_eq!(table.len(), 1);
    assert_eq!(table.lookup(12345).unwrap().state, SocketState::Listen);
    let udp = format!("{}{}\n", TCP_HEADER, LISTEN_9999);
    table.load(TableKind::Udp4, udp.as_bytes(), &vec![]);
    assert_eq!(table.len(), 1);
    assert_eq!(table.lookup(12345).unwrap().kind, SocketKind::Stream);
}

#[test]
fn an_empty_table_adds_nothing() {
    let mut table = SocketTable::new();
    table.load(TableKind::Tcp4, b"", &vec![]);
    table.load(TableKind::Unix, b"Num       RefCount Protocol Flags    Type St Inode Path\n", &vec![]);
    assert_eq!(table.len(), 0);
}

#[test]
fn sockets_are_added_one_by_one() {
    let mut table = SocketTable::new();
    let first = read_record(LISTEN_9999.as_bytes(), TableKind::Tcp4).unwrap();
    let mut second = first.clone();
    second.state = SocketState::Closed;
    table.add(first.clone());
    table.add(second);
    assert_eq!(table.len(), 1);
    assert_eq!(table.lookup(12345), Some(first));
}

#[test]
fn the_addresses_of_a_table_are_listed_in_order() {
    let content = format!("{}{}\ngarbage\n{}\n", TCP_HEADER, LISTEN_9999, ESTABLISHED);
    assert_eq!(
        procfd::sockets::table_addresses(TableKind::Tcp4, content.as_bytes()),
        vec![
            IpAddress::V4([0, 0, 0, 0]),
            IpAddress::V4([0, 0, 0, 0]),
            IpAddress::V4([127, 0, 0, 1]),
            IpAddress::V4([127, 0, 0, 2]),
        ]
    );
    let unix = "header\n0000000000000000: 00000002 00000000 00010000 0001 01 23456 /tmp/x.sock\n";
    assert_eq!(procfd::sockets::table_addresses(TableKind::Unix, unix.as_bytes()), vec![]);
    assert_eq!(procfd::sockets::table_addresses(TableKind::Tcp4, b""), vec![]);
}

#[test]
fn host_names_are_put_in_while_loading() {
    let names = vec![
        (IpAddress::V4([127, 0, 0, 2]), String::from("second.example")),
        (IpAddress::V4([127, 0, 0, 1]), String::from("localhost")),
        (IpAddress::V4([127, 0, 0, 1]), String::from("shadowed")),
    ];
    let content = format!("{}{}\n{}\n", TCP_HEADER, LISTEN_9999, ESTABLISHED);
    let mut table = SocketTable::new();
    table.load(TableKind::Tcp4, content.as_bytes(), &names);
    let info = table.lookup(777).unwrap();
    assert_eq!(
        info.local,
        Endpoint::Inet { ip: IpAddress::V4([127, 0, 0, 1]), port: 631, hostname: Some(String::from("localhost")) }
    );
    assert_eq!(
        info.remote,
        Endpoint::Inet {
            ip: IpAddress::V4([127, 0, 0, 2]),
            port: 0xd431,
            hostname: Some(String::from("second.example"))
        }
    );
    assert_eq!(table.lookup(12345).unwrap().local, inet4([0, 0, 0, 0], 9999));
}

#[test]
fn endpoints_without_an_address_take_no_name() {
    let names = vec![(IpAddress::V4([1, 2, 3, 4]), String::from("host"))];
    let unix = Endpoint::Unix { path: Some(b"/x".to_vec()) };
    assert_eq!(unix.clone().with_name(&names), unix);
    assert_eq!(Endpoint::Empty.with_name(&names), Endpoint::Empty);
    let kept = Endpoint::Inet { ip: IpAddress::V4([9, 9, 9, 9]), port: 1, hostname: Some(String::from("old")) };
    assert_eq!(kept.clone().with_name(&names), kept);
    let named = inet4([1, 2, 3, 4], 5).with_name(&names);
    assert_eq!(named, Endpoint::Inet { ip: IpAddress::V4([1, 2, 3, 4]), port: 5, hostname: Some(String::from("host")) });
    assert!(IpAddress::V4([1, 2, 3, 4]).same(&IpAddress::V4([1, 2, 3, 4])));
    assert!(!IpAddress::V4([1, 2, 3, 4]).same(&IpAddress::V4([1, 2, 3, 5])));
    assert!(!IpAddress::V4([0, 0, 0, 0]).same(&IpAddress::V6([0; 16])));
    assert!(IpAddress::V6([7; 16]).same(&IpAddress::V6([7; 16])));
}
