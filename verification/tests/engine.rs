use ytflow::datagram_model::{DatagramFactoryModel, DatagramPacket, DatagramSessionModel};
use ytflow::dispatch::{Condition, DispatchRule, SimpleDatagramDispatcher, SimpleStreamDispatcher};
use ytflow::dns_codec::{parse_message, DnsMessageModel, DnsQuestion};
use ytflow::dns_server::{DnsDatagramHandler, DnsPermits, ResolveOutcome};
use ytflow::dyn_config::Plugin;
use ytflow::flow::{
    DestinationAddr, FlowContext, FlowError, HostName, IpAddress, SizeHint, SocketAddress,
};
use ytflow::forward::{
    datagram_forward, forward_oneway, handle_stream, stream_forward, ForwardState,
    InitialReadTiming, StreamOutboundFactoryModel,
};
use ytflow::ip_packet::{decode_ipv4_udp, ipv4_udp_checksums_ok};
use ytflow::ip_stack::IpStackDatagramSession;
use ytflow::loader::{load_all, NamedPlugin, PluginFactory};
use ytflow::registry::{AccessPointType, ConfigError, ConfigPlugin, PartialPluginSet, REJECT_HANDLE};
use ytflow::resolver_socket::{FlowDatagramSocket, ShimError, ShimPlan, UdpFactoryRegistry};
use ytflow::simple_dispatcher::{Rule, SimpleDispatcherFactory};
use ytflow::stream_model::{ModelStream, SinkStream, SourceStream};
use ytflow::trojan::TrojanFactory;

fn ctx(port: u16) -> FlowContext {
    FlowContext {
        local_peer: SocketAddress { ip: IpAddress::V4(0x7f000001), port },
        remote_peer: DestinationAddr { host: HostName::Ip(IpAddress::V4(0x01020304)), port: 443 },
    }
}

#[test]
fn forward_delivers_all_bytes_then_closes_once() {
    let mut rx = SourceStream::new(vec![b"hel".to_vec(), b"lo".to_vec()], false, false);
    let mut tx = SinkStream::new(2, 0xAB);
    let r = forward_oneway(&mut rx, &mut tx, ForwardState::AwaitingSizeHint);
    assert!(r.is_ok());
    assert_eq!(tx.received, b"hello".to_vec());
    assert_eq!(tx.closes, 1);
    assert!(!tx.lent);
}

#[test]
fn forward_zero_byte_eof_closes_cleanly() {
    let mut rx = SourceStream::new(vec![], false, false);
    let mut tx = SinkStream::new(3, 0x11);
    let r = forward_oneway(&mut rx, &mut tx, ForwardState::AwaitingSizeHint);
    assert!(r.is_ok());
    assert!(tx.received.is_empty());
    assert_eq!(tx.closes, 1);
    assert!(!tx.lent);
}

#[test]
fn forward_failure_keeps_bytes_but_never_closes() {
    let mut rx = SourceStream::new(vec![b"data".to_vec()], true, false);
    let mut tx = SinkStream::new(1, 0x00);
    let r = forward_oneway(&mut rx, &mut tx, ForwardState::AwaitingSizeHint);
    assert_eq!(r, Err(FlowError::Other));
    assert_eq!(tx.received, b"data".to_vec());
    assert_eq!(tx.closes, 0);
    assert!(!tx.lent);
}

#[test]
fn forward_commit_refusal_returns_buffer_unfilled() {
    let mut rx = SourceStream::new(vec![b"data".to_vec()], false, true);
    let mut tx = SinkStream::new(4, 0x7f);
    let r = forward_oneway(&mut rx, &mut tx, ForwardState::AwaitingSizeHint);
    assert_eq!(r, Err(FlowError::Other));
    assert!(tx.received.is_empty());
    assert_eq!(tx.closes, 0);
    assert!(!tx.lent);
}

#[test]
fn stream_forward_echo() {
    // Local emits "hello" then EOFs; the remote echoes it back.
    let local = ModelStream {
        src: SourceStream::new(vec![b"hello".to_vec()], false, false),
        sink: SinkStream::new(0, 0),
    };
    let mut local = local;
    let mut factory = StreamOutboundFactoryModel {
        accepts: true,
        remote_chunks: vec![b"hello".to_vec()],
        remote_fails: false,
        remote_offset: 0,
        remote_prefix_byte: 0,
        received_initial: None,
    };
    let (r, remote) = handle_stream(&mut local, &mut factory, &ctx(1000), InitialReadTiming::Completed);
    assert!(r.is_ok());
    let remote = remote.unwrap();
    // The first chunk travelled as initial data; the remote's transmit side
    // then saw nothing more, and the local side received the echo.
    assert_eq!(factory.received_initial, Some(b"hello".to_vec()));
    assert!(remote.sink.received.is_empty());
    assert_eq!(remote.sink.closes, 1);
    assert_eq!(local.sink.received, b"hello".to_vec());
    assert_eq!(local.sink.closes, 1);
}

#[test]
fn stream_forward_runs_both_directions() {
    let mut local = ModelStream {
        src: SourceStream::new(vec![b"up".to_vec()], false, false),
        sink: SinkStream::new(0, 0),
    };
    let mut remote = ModelStream {
        src: SourceStream::new(vec![b"down".to_vec()], false, false),
        sink: SinkStream::new(0, 0),
    };
    let r = stream_forward(&mut local, &mut remote, ForwardState::AwaitingSizeHint);
    assert!(r.is_ok());
    assert_eq!(remote.sink.received, b"up".to_vec());
    assert_eq!(local.sink.received, b"down".to_vec());
    assert_eq!(remote.sink.closes, 1);
    assert_eq!(local.sink.closes, 1);
}

#[test]
fn handle_stream_outbound_failure_closes_local_cleanly() {
    let mut local = ModelStream {
        src: SourceStream::new(vec![b"x".to_vec()], false, false),
        sink: SinkStream::new(0, 0),
    };
    let mut factory = StreamOutboundFactoryModel {
        accepts: false,
        remote_chunks: vec![],
        remote_fails: false,
        remote_offset: 0,
        remote_prefix_byte: 0,
        received_initial: None,
    };
    let (r, remote) = handle_stream(&mut local, &mut factory, &ctx(1001), InitialReadTiming::Completed);
    assert_eq!(r, Err(FlowError::Other));
    assert!(remote.is_none());
    assert_eq!(local.sink.closes, 1);
    assert!(local.sink.received.is_empty());
}

fn pkt(port: u16, data: &[u8]) -> DatagramPacket {
    DatagramPacket {
        addr: DestinationAddr { host: HostName::Ip(IpAddress::V4(0x0a000001)), port },
        data: data.to_vec(),
    }
}

#[test]
fn datagram_forward_preserves_order_per_direction() {
    let mut session = DatagramSessionModel::new(vec![pkt(1, b"a"), pkt(2, b"b")]);
    let mut lower = DatagramSessionModel::new(vec![pkt(3, b"c"), pkt(4, b"d"), pkt(5, b"e")]);
    let r = datagram_forward(&mut session, &mut lower);
    assert!(r.is_ok());
    assert_eq!(lower.sent.len(), 2);
    assert_eq!(lower.sent[0].data, b"a".to_vec());
    assert_eq!(lower.sent[1].data, b"b".to_vec());
    assert_eq!(session.sent.len(), 2);
    assert_eq!(session.sent[0].data, b"c".to_vec());
    assert_eq!(session.sent[1].data, b"d".to_vec());
    assert_eq!(session.shutdowns, 1);
    assert_eq!(lower.shutdowns, 1);
}

#[test]
fn datagram_session_bind_refusal_surfaces() {
    let mut session = DatagramSessionModel::new(vec![pkt(1, b"a")]);
    let mut factory = DatagramFactoryModel { accepts: false, lower_incoming: vec![] };
    let (r, lower) = ytflow::forward::datagram_on_session(&mut session, &mut factory, &ctx(9));
    assert_eq!(r, Err(FlowError::Other));
    assert!(lower.is_none());
    assert_eq!(session.shutdowns, 0);
}

#[test]
fn dispatcher_empty_rules_routes_to_fallback() {
    let d = SimpleStreamDispatcher { rules: vec![], fallback: 77 };
    assert_eq!(d.dispatch(&ctx(1234)), 77);
    let du = SimpleDatagramDispatcher { rules: vec![], fallback: 78 };
    assert_eq!(du.dispatch(&ctx(1234)), 78);
}

#[test]
fn dispatcher_earlier_matching_rule_wins() {
    let d = SimpleStreamDispatcher {
        rules: vec![
            DispatchRule { src_cond: Condition::Any, dst_cond: Condition::Any, next: 1 },
            DispatchRule { src_cond: Condition::Any, dst_cond: Condition::Any, next: 2 },
        ],
        fallback: 9,
    };
    assert_eq!(d.dispatch(&ctx(5)), 1);
}

#[test]
fn dispatcher_no_match_falls_back_past_all_rules() {
    let d = SimpleStreamDispatcher {
        rules: vec![
            DispatchRule { src_cond: Condition::Never, dst_cond: Condition::Any, next: 1 },
            DispatchRule {
                src_cond: Condition::PortBetween(4000, 5000),
                dst_cond: Condition::Any,
                next: 2,
            },
            DispatchRule { src_cond: Condition::Any, dst_cond: Condition::IsV6, next: 3 },
        ],
        fallback: 42,
    };
    // local port 80, remote an IPv4 destination: none of the three match.
    let c = ctx(80);
    let picked = d.dispatch(&c);
    assert_eq!(picked, 42);
    assert!(picked != 1 && picked != 2 && picked != 3);
}

fn dispatcher_factory(fb_tcp: &str, fb_udp: &str, rules: Vec<Rule>) -> SimpleDispatcherFactory {
    SimpleDispatcherFactory {
        rules,
        fallback_tcp: fb_tcp.to_string(),
        fallback_udp: fb_udp.to_string(),
    }
}

#[test]
fn graph_cycle_loads_without_errors_and_releases() {
    let a = dispatcher_factory("b.tcp", "b.udp", vec![]);
    let b = dispatcher_factory("a.tcp", "a.udp", vec![]);
    let plugins = vec![
        NamedPlugin { name: "a".to_string(), factory: PluginFactory::SimpleDispatcher(a) },
        NamedPlugin { name: "b".to_string(), factory: PluginFactory::SimpleDispatcher(b) },
    ];
    let mut set = load_all(&plugins);
    assert!(set.errors.is_empty());
    assert!(set.stream_handlers.get(&"a.tcp".to_string()).is_some());
    assert!(set.datagram_handlers.get(&"b.udp".to_string()).is_some());
    assert_eq!(set.fully_constructed.len(), 4);
    let h = set.fully_constructed[0];
    assert!(set.upgrade(h));
    set.release_all();
    // Every weak handle now fails its upgrade and handlers no-op.
    assert!(!set.upgrade(h));
}

#[test]
fn missing_descriptor_reports_error_and_wires_reject() {
    let f = dispatcher_factory(
        "d.tcp",
        "d.udp",
        vec![Rule {
            src: Condition::Any,
            dst: Condition::Any,
            is_udp: false,
            next: "ghost".to_string(),
        }],
    );
    let mut set = PartialPluginSet::new();
    let (_udp_d, tcp_d) = f.load(&"d".to_string(), &mut set);
    assert_eq!(set.errors.len(), 1);
    match &set.errors[0] {
        ConfigError::UnresolvedDescriptor(n) => assert_eq!(n.as_str(), "ghost"),
        _ => panic!("expected an unresolved descriptor"),
    }
    assert_eq!(tcp_d.rules.len(), 1);
    assert_eq!(tcp_d.rules[0].next, REJECT_HANDLE);
    // A flow through that rule lands on the reject sentinel.
    assert_eq!(tcp_d.dispatch(&ctx(1)), REJECT_HANDLE);
}

#[test]
fn dispatcher_parse_lists_requires_and_provides() {
    let f = dispatcher_factory(
        "ft",
        "fu",
        vec![Rule {
            src: Condition::Any,
            dst: Condition::Any,
            is_udp: true,
            next: "n1".to_string(),
        }],
    );
    let parsed = f.parse(&"disp".to_string());
    assert_eq!(parsed.requires.len(), 3);
    assert_eq!(parsed.requires[0].descriptor.as_str(), "ft");
    assert_eq!(parsed.requires[0].ap_type, AccessPointType::StreamHandler);
    assert_eq!(parsed.requires[1].descriptor.as_str(), "fu");
    assert_eq!(parsed.requires[1].ap_type, AccessPointType::DatagramSessionHandler);
    assert_eq!(parsed.requires[2].descriptor.as_str(), "n1");
    assert_eq!(parsed.requires[2].ap_type, AccessPointType::DatagramSessionHandler);
    assert_eq!(parsed.provides.len(), 2);
    assert_eq!(parsed.provides[0].descriptor.as_str(), "disp.tcp");
    assert_eq!(parsed.provides[1].descriptor.as_str(), "disp.udp");
}

#[test]
fn trojan_parse_and_load_wire_the_tls_edge() {
    let f = TrojanFactory { password: b"pw".to_vec(), tls_next: "tls".to_string() };
    let parsed = f.parse(&"troj".to_string());
    assert_eq!(parsed.requires.len(), 1);
    assert_eq!(parsed.requires[0].descriptor.as_str(), "tls");
    assert_eq!(parsed.requires[0].ap_type, AccessPointType::StreamOutboundFactory);
    assert_eq!(parsed.provides.len(), 1);
    assert_eq!(parsed.provides[0].descriptor.as_str(), "troj.tcp");

    let mut set = PartialPluginSet::new();
    let tls_edge = f.load(&"troj".to_string(), &mut set);
    // The TLS outbound is missing: the edge degrades to the null factory
    // and the error is recorded.
    assert_eq!(tls_edge, ytflow::registry::NULL_FACTORY_HANDLE);
    assert_eq!(set.errors.len(), 1);
}

#[test]
fn plugin_record_converts_without_an_id() {
    let p = Plugin {
        name: "n".to_string(),
        plugin: "kind".to_string(),
        plugin_version: 3,
        param: vec![1, 2],
    };
    let c = ConfigPlugin::from(p);
    assert_eq!(c.id, None);
    assert_eq!(c.name.as_str(), "n");
    assert_eq!(c.plugin.as_str(), "kind");
    assert_eq!(c.plugin_version, 3);
    assert_eq!(c.param, vec![1, 2]);
}

fn a_query(id: u16, name: &[u8]) -> Vec<u8> {
    let m = DnsMessageModel {
        id,
        flags: 0x0100,
        questions: vec![DnsQuestion { name: name.to_vec(), qtype: 1, qclass: 1 }],
        answers: vec![],
    };
    ytflow::dns_codec::encode_message(&m)
}

#[test]
fn dns_a_resolution_with_reverse_cache() {
    let mut h = DnsDatagramHandler::new(4, 7, 300);
    let query = a_query(0x1234, b"\x07EXAMPLE\x03com\x00");
    let outcomes = vec![ResolveOutcome::Ipv4(vec![0x0a000001, 0x0a000002])];
    let resp = h.handle_query(&query, &outcomes).expect("a response");
    let m = parse_message(&resp).expect("a well-formed response");
    assert_eq!(m.id, 0x1234);
    // Response bit set, request flags kept, response code clean.
    assert_eq!(m.flags, 0x8100);
    // The question section equals the input's.
    assert_eq!(m.questions.len(), 1);
    assert_eq!(m.questions[0].name, b"\x07EXAMPLE\x03com\x00".to_vec());
    assert_eq!(m.questions[0].qtype, 1);
    assert_eq!(m.questions[0].qclass, 1);
    // Two A records with the configured TTL and the resolver's addresses.
    assert_eq!(m.answers.len(), 2);
    assert_eq!(m.answers[0].rtype, 1);
    assert_eq!(m.answers[0].ttl, 300);
    assert_eq!(m.answers[0].rdata, vec![10, 0, 0, 1]);
    assert_eq!(m.answers[1].rdata, vec![10, 0, 0, 2]);
    // Both addresses map back to the lowercased queried name.
    assert_eq!(h.reverse_v4_lookup(0x0a000001), Some(b"example.com".to_vec()));
    assert_eq!(h.reverse_v4_lookup(0x0a000002), Some(b"example.com".to_vec()));
}

#[test]
fn dns_failed_resolution_yields_nxdomain() {
    let mut h = DnsDatagramHandler::new(4, 7, 60);
    let query = a_query(7, b"\x04down\x03net\x00");
    let resp = h.handle_query(&query, &vec![ResolveOutcome::Fail]).unwrap();
    let m = parse_message(&resp).unwrap();
    assert_eq!(m.flags & 0xf, 3);
    assert!(m.answers.is_empty());
    assert_eq!(h.reverse_v4_len(), 0);
}

#[test]
fn dns_unsupported_type_yields_notimp() {
    let q = DnsMessageModel {
        id: 9,
        flags: 0,
        questions: vec![DnsQuestion { name: b"\x01x\x00".to_vec(), qtype: 16, qclass: 1 }],
        answers: vec![],
    };
    let bytes = ytflow::dns_codec::encode_message(&q);
    let mut h = DnsDatagramHandler::new(1, 7, 60);
    let resp = h.handle_query(&bytes, &vec![ResolveOutcome::Fail]).unwrap();
    let m = parse_message(&resp).unwrap();
    assert_eq!(m.flags & 0xf, 4);
    assert!(m.answers.is_empty());
}

#[test]
fn dns_malformed_query_dropped_silently() {
    let mut h = DnsDatagramHandler::new(1, 7, 60);
    assert_eq!(h.handle_query(&b"junk".to_vec(), &vec![]), None);
    // A compression pointer in the question is treated as malformed too.
    let mut bad = a_query(1, b"\x07example\x03com\x00");
    bad[12] = 0xc0;
    assert_eq!(h.handle_query(&bad, &vec![ResolveOutcome::Fail]), None);
}

#[test]
fn dns_aaaa_resolution_fills_v6_cache() {
    let q = DnsMessageModel {
        id: 2,
        flags: 0x0100,
        questions: vec![DnsQuestion { name: b"\x02v6\x03net\x00".to_vec(), qtype: 28, qclass: 1 }],
        answers: vec![],
    };
    let bytes = ytflow::dns_codec::encode_message(&q);
    let mut h = DnsDatagramHandler::new(1, 7, 120);
    let ip: u128 = 0x20010db8_00000000_00000000_00000001;
    let resp = h.handle_query(&bytes, &vec![ResolveOutcome::Ipv6(vec![ip])]).unwrap();
    let m = parse_message(&resp).unwrap();
    assert_eq!(m.answers.len(), 1);
    assert_eq!(m.answers[0].rtype, 28);
    assert_eq!(m.answers[0].rdata.len(), 16);
    assert_eq!(h.reverse_v6_lookup(ip), Some(b"v6.net".to_vec()));
}

#[test]
fn reverse_caches_never_exceed_their_bound() {
    let mut h = DnsDatagramHandler::new(1, 7, 60);
    let name = b"many.example".to_vec();
    let mut batch: Vec<u32> = Vec::new();
    for i in 0..2000u32 {
        batch.push(i);
    }
    h.record_reverse_v4(&batch, &name);
    assert!(h.reverse_v4_len() <= 1024);
    assert_eq!(h.reverse_v6_len(), 0);
}

#[test]
fn cache_keeps_first_binding_for_an_address() {
    let mut h = DnsDatagramHandler::new(1, 7, 60);
    h.record_reverse_v4(&vec![0x0a000001], &b"first.example".to_vec());
    h.record_reverse_v4(&vec![0x0a000001], &b"second.example".to_vec());
    assert_eq!(h.reverse_v4_lookup(0x0a000001), Some(b"first.example".to_vec()));
}

#[test]
fn permits_cap_outstanding_queries() {
    let mut p = DnsPermits::new(2);
    assert!(p.try_acquire());
    assert!(p.try_acquire());
    assert!(!p.try_acquire());
    assert!(p.outstanding <= p.limit);
    p.release();
    assert!(p.try_acquire());
    assert_eq!(p.outstanding, 2);
}

#[test]
fn ipv4_udp_packet_round_trips_with_valid_checksums() {
    let session = IpStackDatagramSession {
        local_endpoint: IpAddress::V4(0x0a00_0009),
        local_port: 4242,
        flow_label: 0,
    };
    let src = DestinationAddr { host: HostName::Ip(IpAddress::V4(0x0102_0304)), port: 53 };
    let payload: Vec<u8> = vec![0xde, 0xad, 0xbe, 0xef];
    let packet = session.send_to(&src, &payload).expect("a packet");
    assert_eq!(packet.len(), 28 + 4);
    let (s, d, sp, dp, pl) = decode_ipv4_udp(&packet).expect("decodable");
    assert_eq!(s, 0x0102_0304);
    assert_eq!(d, 0x0a00_0009);
    assert_eq!(sp, 53);
    assert_eq!(dp, 4242);
    assert_eq!(pl, payload);
    assert!(ipv4_udp_checksums_ok(&packet));
}

#[test]
fn ipv4_udp_packet_passes_an_independent_decoder() {
    let session = IpStackDatagramSession {
        local_endpoint: IpAddress::V4(0xc0a8_0101),
        local_port: 53,
        flow_label: 0,
    };
    let src = DestinationAddr { host: HostName::Ip(IpAddress::V4(0x0a00_0001)), port: 3333 };
    let payload: Vec<u8> = b"independent".to_vec();
    let packet = session.send_to(&src, &payload).unwrap();
    let ip = smoltcp::wire::Ipv4Packet::new_checked(&packet[..]).expect("an IPv4 packet");
    assert!(ip.verify_checksum());
    assert_eq!(ip.src_addr(), smoltcp::wire::Ipv4Address::new(10, 0, 0, 1));
    assert_eq!(ip.dst_addr(), smoltcp::wire::Ipv4Address::new(192, 168, 1, 1));
    let udp = smoltcp::wire::UdpPacket::new_checked(ip.payload()).expect("a UDP segment");
    assert_eq!(udp.src_port(), 3333);
    assert_eq!(udp.dst_port(), 53);
    assert!(udp.verify_checksum(
        &smoltcp::wire::IpAddress::Ipv4(smoltcp::wire::Ipv4Address::new(10, 0, 0, 1)),
        &smoltcp::wire::IpAddress::Ipv4(smoltcp::wire::Ipv4Address::new(192, 168, 1, 1)),
    ));
    assert_eq!(udp.payload(), b"independent");
}

#[test]
fn udp_payload_boundary_1452_accepted_1453_dropped() {
    let session = IpStackDatagramSession {
        local_endpoint: IpAddress::V4(1),
        local_port: 1,
        flow_label: 0,
    };
    let src = DestinationAddr { host: HostName::Ip(IpAddress::V4(2)), port: 2 };
    let ok = session.send_to(&src, &vec![0u8; 1452]);
    assert!(ok.is_some());
    assert_eq!(ok.unwrap().len(), 28 + 1452);
    assert!(session.send_to(&src, &vec![0u8; 1453]).is_none());
}

#[test]
fn oversize_udp_send_enqueues_nothing() {
    let session = IpStackDatagramSession {
        local_endpoint: IpAddress::V4(0x0a000001),
        local_port: 9,
        flow_label: 0,
    };
    let src = DestinationAddr { host: HostName::Ip(IpAddress::V4(3)), port: 9 };
    assert!(session.send_to(&src, &vec![0u8; 2000]).is_none());
}

#[test]
fn unresolved_or_mismatched_family_is_dropped() {
    let session = IpStackDatagramSession {
        local_endpoint: IpAddress::V4(1),
        local_port: 1,
        flow_label: 0,
    };
    let domain = DestinationAddr { host: HostName::Domain(b"x.example".to_vec()), port: 1 };
    assert!(session.send_to(&domain, &vec![1]).is_none());
    let v6src = DestinationAddr { host: HostName::Ip(IpAddress::V6(5)), port: 1 };
    assert!(session.send_to(&v6src, &vec![1]).is_none());
}

#[test]
fn ipv6_udp_packet_passes_an_independent_decoder() {
    let session = IpStackDatagramSession {
        local_endpoint: IpAddress::V6(0x20010db8_00000000_00000000_00000002),
        local_port: 443,
        flow_label: 0x12345,
    };
    let src = DestinationAddr {
        host: HostName::Ip(IpAddress::V6(0x20010db8_00000000_00000000_00000001)),
        port: 1111,
    };
    let payload: Vec<u8> = b"six".to_vec();
    let packet = session.send_to(&src, &payload).unwrap();
    assert_eq!(packet.len(), 48 + 3);
    let ip = smoltcp::wire::Ipv6Packet::new_checked(&packet[..]).expect("an IPv6 packet");
    assert_eq!(ip.hop_limit(), 255);
    let udp = smoltcp::wire::UdpPacket::new_checked(ip.payload()).expect("a UDP segment");
    assert_eq!(udp.src_port(), 1111);
    assert_eq!(udp.dst_port(), 443);
    assert!(udp.verify_checksum(
        &smoltcp::wire::IpAddress::Ipv6(ip.src_addr()),
        &smoltcp::wire::IpAddress::Ipv6(ip.dst_addr()),
    ));
}

#[test]
fn shim_binds_through_registry_and_synthesizes_source() {
    let mut reg = UdpFactoryRegistry::new();
    let mut set = PartialPluginSet::new();
    let handle = 55u64;
    set.install_strong(handle);
    let id = reg.register(handle);
    let mut sock = FlowDatagramSocket::bind();
    let target = SocketAddress { ip: IpAddress::V4(id), port: 53 };
    match sock.on_send_to(target, &reg, &set) {
        Ok(ShimPlan::StartBind(c)) => {
            assert_eq!(c.local_peer, target);
            assert_eq!(c.remote_peer.port, 53);
        },
        other => panic!("expected a bind to start, got {:?}", other.is_ok()),
    }
    sock.on_bind_complete(true).unwrap();
    match sock.on_send_to(target, &reg, &set) {
        Ok(ShimPlan::UseSession(d)) => assert_eq!(d.port, 53),
        _ => panic!("expected a ready session"),
    }
    let dest = DestinationAddr { host: HostName::Ip(IpAddress::V4(9)), port: 1 };
    let (len, from) = sock.on_recv_packet(Some((dest, b"abcd".to_vec()))).unwrap();
    assert_eq!(len, 4);
    assert_eq!(from, SocketAddress { ip: IpAddress::V4(id), port: 53 });
    assert!(sock.shutdown_on_drop());
}

#[test]
fn shim_errors_map_to_their_conditions() {
    let mut reg = UdpFactoryRegistry::new();
    let set = PartialPluginSet::new();
    let mut sock = FlowDatagramSocket::bind();
    // Receive before any send: not connected.
    assert_eq!(sock.on_recv_from().err(), Some(ShimError::NotConnected));
    // Unknown id: not found.
    let t = SocketAddress { ip: IpAddress::V4(12), port: 53 };
    assert_eq!(sock.on_send_to(t, &reg, &set).err(), Some(ShimError::NotFound));
    // Registered but the weak handle no longer upgrades: aborted.
    let id = reg.register(77);
    let t2 = SocketAddress { ip: IpAddress::V4(id), port: 53 };
    assert_eq!(sock.on_send_to(t2, &reg, &set).err(), Some(ShimError::ConnectionAborted));
    // A failed bind: refused; a closed session during receive: reset.
    let mut set2 = PartialPluginSet::new();
    set2.install_strong(77);
    assert!(sock.on_send_to(t2, &reg, &set2).is_ok());
    assert_eq!(sock.on_bind_complete(false).err(), Some(ShimError::ConnectionRefused));
    assert!(sock.on_send_to(t2, &reg, &set2).is_ok());
    sock.on_bind_complete(true).unwrap();
    assert_eq!(sock.on_recv_packet(None).err(), Some(ShimError::ConnectionReset));
    // Deregistration makes the id unknown again.
    reg.deregister(id);
    let mut fresh = FlowDatagramSocket::bind();
    assert_eq!(fresh.on_send_to(t2, &reg, &set2).err(), Some(ShimError::NotFound));
}

#[test]
fn size_hint_clamps_from_below() {
    assert_eq!(SizeHint { bound: Some(10) }.with_min_content(4096), 4096);
    assert_eq!(SizeHint { bound: Some(9000) }.with_min_content(4096), 9000);
    assert_eq!(SizeHint { bound: None }.with_min_content(1500), 1500);
}

#[test]
fn dns_codec_round_trips_a_message() {
    let m = DnsMessageModel {
        id: 0xbeef,
        flags: 0x8180,
        questions: vec![DnsQuestion { name: b"\x03foo\x03bar\x00".to_vec(), qtype: 1, qclass: 1 }],
        answers: vec![ytflow::dns_codec::DnsAnswer {
            name: b"\x03foo\x03bar\x00".to_vec(),
            rtype: 1,
            ttl: 600,
            rdata: vec![1, 2, 3, 4],
        }],
    };
    let bytes = ytflow::dns_codec::encode_message(&m);
    let back = parse_message(&bytes).unwrap();
    assert_eq!(back.id, m.id);
    assert_eq!(back.flags, m.flags);
    assert_eq!(back.questions.len(), 1);
    assert_eq!(back.questions[0].name, m.questions[0].name);
    assert_eq!(back.answers.len(), 1);
    assert_eq!(back.answers[0].ttl, 600);
    assert_eq!(back.answers[0].rdata, vec![1, 2, 3, 4]);
}

#[test]
fn dotted_lower_name_joins_and_lowercases() {
    let n = b"\x07ExAmPlE\x03CoM\x00".to_vec();
    assert_eq!(ytflow::dns_codec::dotted_lower_name(&n), b"example.com".to_vec());
    let single = b"\x03com\x00".to_vec();
    assert_eq!(ytflow::dns_codec::dotted_lower_name(&single), b"com".to_vec());
}

#[test]
fn handle_stream_timer_before_commit_sends_empty_initial_data() {
    let mut local = ModelStream {
        src: SourceStream::new(vec![b"late".to_vec()], false, false),
        sink: SinkStream::new(0, 0),
    };
    let mut factory = StreamOutboundFactoryModel {
        accepts: true,
        remote_chunks: vec![],
        remote_fails: false,
        remote_offset: 0,
        remote_prefix_byte: 0,
        received_initial: None,
    };
    let (r, remote) =
        handle_stream(&mut local, &mut factory, &ctx(1), InitialReadTiming::FiredBeforeCommit);
    assert!(r.is_ok());
    assert_eq!(factory.received_initial, Some(vec![]));
    // Nothing was consumed before the outbound existed: the whole stream
    // travels through the forwarder instead.
    assert_eq!(remote.unwrap().sink.received, b"late".to_vec());
}

#[test]
fn handle_stream_timer_after_commit_drains_the_pending_buffer() {
    let mut local = ModelStream {
        src: SourceStream::new(vec![b"lost".to_vec(), b"kept".to_vec()], false, false),
        sink: SinkStream::new(0, 0),
    };
    let mut factory = StreamOutboundFactoryModel {
        accepts: true,
        remote_chunks: vec![],
        remote_fails: false,
        remote_offset: 0,
        remote_prefix_byte: 0,
        received_initial: None,
    };
    let (r, remote) =
        handle_stream(&mut local, &mut factory, &ctx(2), InitialReadTiming::FiredAfterCommit);
    assert!(r.is_ok());
    // The drained chunk is recovered with the temporary buffer and not
    // forwarded; the rest flows normally.
    assert_eq!(factory.received_initial, Some(vec![]));
    assert_eq!(remote.unwrap().sink.received, b"kept".to_vec());
}

#[test]
fn mixed_plugin_load_settles_every_requirement() {
    let d = dispatcher_factory("d.tcp", "d.udp", vec![Rule {
        src: Condition::Any,
        dst: Condition::Any,
        is_udp: false,
        next: "d.tcp".to_string(),
    }]);
    let t = TrojanFactory { password: b"pw".to_vec(), tls_next: "nowhere".to_string() };
    let plugins = vec![
        NamedPlugin { name: "d".to_string(), factory: PluginFactory::SimpleDispatcher(d) },
        NamedPlugin { name: "t".to_string(), factory: PluginFactory::Trojan(t) },
    ];
    let set = load_all(&plugins);
    // The trojan's TLS edge is missing: exactly that error is on record,
    // every other requirement resolved.
    assert_eq!(set.errors.len(), 1);
    match &set.errors[0] {
        ConfigError::UnresolvedDescriptor(n) => assert_eq!(n.as_str(), "nowhere"),
        _ => panic!("expected an unresolved descriptor"),
    }
    assert!(set.stream_outbounds.get(&"t.tcp".to_string()).is_some());
}

#[test]
fn datagram_forward_stops_when_lower_closes_first() {
    let mut session = DatagramSessionModel::new(vec![pkt(1, b"a"), pkt(2, b"b"), pkt(3, b"c")]);
    let mut lower = DatagramSessionModel::new(vec![pkt(9, b"z")]);
    let r = datagram_forward(&mut session, &mut lower);
    assert!(r.is_ok());
    // Uplink forwards min(3, 1 + 1) packets, downlink min(1, 3).
    assert_eq!(lower.sent.len(), 2);
    assert_eq!(session.sent.len(), 1);
}
