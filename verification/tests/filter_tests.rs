use procfd::filter::endpoint_has_host;
use procfd::filter::endpoint_has_port;
use procfd::model::Endpoint;
use procfd::model::FDTarget;
use procfd::model::FDType;
use procfd::model::FdEntry;
use procfd::model::IpAddress;
use procfd::model::SocketDomain;
use procfd::model::SocketInfo;
use procfd::model::SocketKind;
use procfd::model::SocketState;
use procfd::Args;
use procfd::FDSocketDomainFilter;
use procfd::FDSocketTypeFilter;

fn inet(bytes: [u8; 4], port: u16, hostname: Option<&str>) -> Endpoint {
    Endpoint::Inet { ip: IpAddress::V4(bytes), port, hostname: hostname.map(String::from) }
}

fn socket(local: Endpoint, remote: Endpoint, state: SocketState) -> FdEntry {
    FdEntry {
        pid: 10,
        user: String::from("alice"),
        name: String::from("server"),
        fd_type: FDType::Socket,
        fd: Some(3),
        mode: Some(String::from("u")),
        target: FDTarget::Socket(SocketInfo {
            domain: SocketDomain::Inet4,
            kind: SocketKind::Stream,
            state,
            local,
            remote,
            inode: 1,
        }),
    }
}

fn dns_client() -> FdEntry {
    socket(inet([10, 0, 0, 5], 40000, None), inet([10, 0, 0, 1], 53, Some("Resolver.Example")), SocketState::Established)
}

fn listener() -> FdEntry {
    socket(inet([0, 0, 0, 0], 53, None), inet([0, 0, 0, 0], 0, None), SocketState::Listen)
}

fn file() -> FdEntry {
    FdEntry {
        pid: 10,
        user: String::from("alice"),
        name: String::from("server"),
        fd_type: FDType::File,
        fd: Some(4),
        mode: Some(String::from("r")),
        target: FDTarget::Path(b"/etc/hosts".to_vec()),
    }
}

fn unix_socket() -> FdEntry {
    let mut e = socket(
        Endpoint::Unix { path: Some(b"/tmp/x.sock".to_vec()) },
        Endpoint::Unix { path: None },
        SocketState::Unconn,
    );
    if let FDTarget::Socket(info) = &mut e.target {
        info.domain = SocketDomain::Unix;
        info.kind = SocketKind::Dgram;
    }
    e
}

#[test]
fn without_filters_everything_passes() {
    let args = Args::default();
    assert!(args.filter_entry(&dns_client()));
    assert!(args.filter_entry(&file()));
    assert!(args.filter_entry(&unix_socket()));
}

#[test]
fn the_type_filter_asks_for_the_same_type() {
    let args = Args { type_: Some(FDType::Socket), ..Args::default() };
    assert!(args.filter_entry(&dns_client()));
    assert!(!args.filter_entry(&file()));
    let args = Args { type_: Some(FDType::File), ..Args::default() };
    assert!(args.filter_entry(&file()));
    let args = Args { type_: Some(FDType::Other(String::from("net"))), ..Args::default() };
    let mut other = file();
    other.fd_type = FDType::Other(String::from("net"));
    assert!(args.filter_entry(&other));
    other.fd_type = FDType::Other(String::from("mnt"));
    assert!(!args.filter_entry(&other));
    assert!(FDType::Dir.same(&FDType::Dir));
    assert!(!FDType::Dir.same(&FDType::File));
}

#[test]
fn the_port_filter_matches_either_end() {
    let args = Args { port: Some(53), ..Args::default() };
    assert!(args.filter_entry(&dns_client()));
    assert!(args.filter_entry(&listener()));
    let args = Args { port: Some(40000), ..Args::default() };
    assert!(args.filter_entry(&dns_client()));
    assert!(!args.filter_entry(&listener()));
    let args = Args { port: Some(54), ..Args::default() };
    assert!(!args.filter_entry(&dns_client()));
    assert!(!args.filter_entry(&listener()));
}

#[test]
fn the_directed_port_filters_match_one_end() {
    let args = Args { src_port: Some(53), ..Args::default() };
    assert!(!args.filter_entry(&dns_client()));
    assert!(args.filter_entry(&listener()));
    let args = Args { dst_port: Some(53), ..Args::default() };
    assert!(args.filter_entry(&dns_client()));
    assert!(!args.filter_entry(&listener()));
}

#[test]
fn port_zero_is_matched_as_a_number() {
    let args = Args { port: Some(0), ..Args::default() };
    assert!(args.filter_entry(&listener()));
    assert!(!args.filter_entry(&dns_client()));
    let args = Args { dst_port: Some(0), ..Args::default() };
    assert!(args.filter_entry(&listener()));
    let args = Args { port: Some(65535), ..Args::default() };
    assert!(!args.filter_entry(&listener()));
    let top = socket(inet([10, 0, 0, 5], 65535, None), inet([10, 0, 0, 1], 1, None), SocketState::Established);
    assert!(args.filter_entry(&top));
    assert!(endpoint_has_port(&inet([1, 2, 3, 4], 0, None), 0));
    assert!(!endpoint_has_port(&Endpoint::Unix { path: None }, 0));
    assert!(!endpoint_has_port(&Endpoint::Empty, 0));
}

#[test]
fn filters_on_sockets_exclude_everything_else() {
    let filters = vec![
        Args { socket_domain: Some(FDSocketDomainFilter::Inet4), ..Args::default() },
        Args { socket_type: Some(FDSocketTypeFilter::Stream), ..Args::default() },
        Args { socket_state: Some(String::from("established")), ..Args::default() },
        Args { port: Some(53), ..Args::default() },
        Args { src_port: Some(40000), ..Args::default() },
        Args { dst_port: Some(53), ..Args::default() },
        Args { host: Some(String::from("10.0.0.1")), ..Args::default() },
        Args { src_host: Some(String::from("10.0.0.5")), ..Args::default() },
        Args { dst_host: Some(String::from("10.0.0.1")), ..Args::default() },
    ];
    for args in &filters {
        assert!(args.filter_entry(&dns_client()));
        assert!(!args.filter_entry(&file()));
    }
}

#[test]
fn domain_and_type_filters_ask_for_equality() {
    let args = Args { socket_domain: Some(FDSocketDomainFilter::Unix), ..Args::default() };
    assert!(args.filter_entry(&unix_socket()));
    assert!(!args.filter_entry(&dns_client()));
    let args = Args { socket_domain: Some(FDSocketDomainFilter::Inet6), ..Args::default() };
    assert!(!args.filter_entry(&dns_client()));
    let args = Args { socket_type: Some(FDSocketTypeFilter::Dgram), ..Args::default() };
    assert!(args.filter_entry(&unix_socket()));
    assert!(!args.filter_entry(&dns_client()));
    assert_eq!(FDSocketDomainFilter::Netlink.to_domain(), SocketDomain::Netlink);
    assert_eq!(FDSocketDomainFilter::Packet.to_domain(), SocketDomain::Packet);
    assert_eq!(FDSocketTypeFilter::Raw.to_kind(), SocketKind::Raw);
    assert_eq!(FDSocketTypeFilter::SeqPacket.to_kind(), SocketKind::SeqPacket);
}

#[test]
fn the_state_filter_ignores_case() {
    for name in ["Listen", "listen", "LISTEN", "lIsTeN"] {
        let args = Args { socket_state: Some(String::from(name)), ..Args::default() };
        assert!(args.filter_entry(&listener()));
        assert!(!args.filter_entry(&dns_client()));
    }
    let args = Args { socket_state: Some(String::from("listening")), ..Args::default() };
    assert!(!args.filter_entry(&listener()));
    let args = Args { socket_state: Some(String::from("none")), ..Args::default() };
    let odd = socket(inet([1, 1, 1, 1], 1, None), inet([2, 2, 2, 2], 2, None), SocketState::Unknown(12));
    assert!(args.filter_entry(&odd));
    assert_eq!(SocketState::TimeWait.name(), "TimeWait");
    assert_eq!(SocketState::Unconn.name(), "Unconn");
}

#[test]
fn the_host_filter_matches_address_or_name() {
    let args = Args { host: Some(String::from("10.0.0.1")), ..Args::default() };
    assert!(args.filter_entry(&dns_client()));
    let args = Args { host: Some(String::from("10.0.0.5")), ..Args::default() };
    assert!(args.filter_entry(&dns_client()));
    let args = Args { host: Some(String::from("resolver.example")), ..Args::default() };
    assert!(args.filter_entry(&dns_client()));
    let args = Args { src_host: Some(String::from("resolver.example")), ..Args::default() };
    assert!(!args.filter_entry(&dns_client()));
    let args = Args { dst_host: Some(String::from("RESOLVER.EXAMPLE")), ..Args::default() };
    assert!(args.filter_entry(&dns_client()));
    let args = Args { host: Some(String::from("10.0.0.2")), ..Args::default() };
    assert!(!args.filter_entry(&dns_client()));
    let args = Args { host: Some(String::from("/tmp/x.sock")), ..Args::default() };
    assert!(!args.filter_entry(&unix_socket()));
}

#[test]
fn the_zero_address_is_matched_by_its_text() {
    let args = Args { host: Some(String::from("0.0.0.0")), ..Args::default() };
    assert!(args.filter_entry(&listener()));
    let args = Args { host: Some(String::from("*")), ..Args::default() };
    assert!(!args.filter_entry(&listener()));
    let six = Endpoint::Inet { ip: IpAddress::V6([0; 16]), port: 80, hostname: None };
    assert!(endpoint_has_host(&six, &String::from("::")));
    assert!(!endpoint_has_host(&six, &String::from("[::]")));
    assert!(!endpoint_has_host(&Endpoint::Empty, &String::new()));
}

#[test]
fn filters_with_different_settings_combine_to_their_conjunction() {
    let a = Args { port: Some(53), ..Args::default() };
    let b = Args { socket_state: Some(String::from("listen")), ..Args::default() };
    let both = Args { port: Some(53), socket_state: Some(String::from("listen")), ..Args::default() };
    for e in [dns_client(), listener(), file(), unix_socket()] {
        assert_eq!(both.filter_entry(&e), a.filter_entry(&e) && b.filter_entry(&e));
    }
    assert!(both.filter_entry(&listener()));
    assert!(!both.filter_entry(&dns_client()));
}
