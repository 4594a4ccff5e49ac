use genet::decoder::{dispatch, find_decoder, next_step, ExecType, Metadata, Status};
use genet::error::Error;
use genet::eth::{EthDecoder, EthType};
use genet::attr::AttrClass;
use genet::cast::Variant;
use genet::fixed::Fixed;
use genet::ipv4::{get_proto, IPv4Decoder, Protocols};
use genet::layer::{Layer, LayerClass, LayerStack, LayerStackData, Payload};
use genet::slice::ByteSlice;
use genet::token::{Token, TokenRegistry};

fn frame() -> Vec<u8> {
    vec![
    0xac, 0xbc, 0x32, 0xbc, 0x2a, 0x87, 0x80, 0x13, 0x82, 0x62, 0xa2, 0x45,
    0x08, 0x00, 0x45, 0x00, 0x00, 0x34, 0x69, 0xaf, 0x40, 0x00, 0x31, 0x06,
    0x01, 0xf7, 0xca, 0xe8, 0xee, 0x28, 0xc0, 0xa8, 0x64, 0x64, 0x00, 0x50,
    0xc4, 0x27, 0x22, 0xdd, 0xb1, 0xc0, 0x63, 0x6a, 0x47, 0x9b, 0x80, 0x10,
    0x00, 0x72, 0xf7, 0x6c, 0x00, 0x00, 0x01, 0x01, 0x08, 0x0a, 0xf9, 0x28,
    0x89, 0x4f, 0x61, 0x8f, 0x78, 0x9d,
    ]
}

fn link_stack(reg: &mut TokenRegistry, bytes: &[u8], input: Token) -> LayerStack {
    let link = reg.token("[link-1]");
    let class = Fixed::new(LayerClass::builder(Fixed::new(AttrClass::builder(link).build())).build());
    let data = ByteSlice::from_bytes(bytes);
    let mut root = Layer::new(class, data.clone());
    root.add_payload(Payload::with_typ(data, input, input));
    LayerStack::from_mut_ref(LayerStackData::new(), root)
}

fn bytes_of(v: Variant) -> Vec<u8> {
    match v {
        Variant::Buffer(b) => b.to_vec(),
        _ => panic!("not a byte value"),
    }
}

fn uint_of(v: Variant) -> u64 {
    match v {
        Variant::UInt64(x) => x,
        _ => panic!("not an unsigned value"),
    }
}

#[test]
fn eth_ipv4_frame_yields_link_then_network_layer() {
    let mut reg = TokenRegistry::new();
    let mut eth = EthDecoder {}.new_worker(&mut reg);
    let bytes = frame();
    let mut stack = link_stack(&mut reg, &bytes, eth.input());
    assert_eq!(eth.decode(&mut stack), Ok(Status::Done));
    assert_eq!(stack.len(), 2);

    let bottom = stack.bottom().unwrap();
    assert_eq!(bottom.id(), reg.token("eth"));
    let dst = bottom.attr(reg.token("eth.dst")).unwrap();
    assert_eq!(dst.bit_range(), 0..48);
    assert_eq!(bytes_of(dst.try_get(&bottom.data()).unwrap()), bytes[0..6].to_vec());
    let src = bottom.attr(reg.token("eth.src")).unwrap();
    assert_eq!(bytes_of(src.try_get(&bottom.data()).unwrap()), bytes[6..12].to_vec());
    let typ = bottom.attr(reg.token("eth.type")).unwrap();
    assert_eq!(uint_of(typ.try_get(&bottom.data()).unwrap()), 0x0800);

    let next = stack.child(1).unwrap();
    assert_eq!(next.id(), reg.token("ipv4"));
    assert_eq!(stack.top().unwrap().id(), reg.token("ipv4"));
    assert_eq!(next.data().len(), 52);
    let version = next.attr(reg.token("ipv4.version")).unwrap();
    assert_eq!(uint_of(version.try_get(&next.data()).unwrap()), 4);
    let hlen = next.attr(reg.token("ipv4.headerLength")).unwrap();
    assert_eq!(uint_of(hlen.try_get(&next.data()).unwrap()), 5);
    let ttl = next.attr(reg.token("ipv4.ttl")).unwrap();
    assert_eq!(uint_of(ttl.try_get(&next.data()).unwrap()), 0x31);
    let df = next.attr(reg.token("ipv4.flags.dontFragment")).unwrap();
    match df.try_get(&next.data()).unwrap() {
        Variant::Bool(b) => assert!(b),
        _ => panic!("not a flag"),
    }
    let src = next.attr(reg.token("_.src")).unwrap();
    assert_eq!(src.id(), reg.token("ipv4.src"));
    assert_eq!(bytes_of(src.try_get(&next.data()).unwrap()), vec![0xca, 0xe8, 0xee, 0x28]);
    let tcp = next.attr(reg.token("ipv4.protocol.tcp")).unwrap();
    assert_eq!(tcp.bit_range(), 72..80);
    let payloads = next.payloads();
    assert_eq!(payloads.len(), 1);
    assert_eq!(payloads[0].typ(), reg.token("@data:tcp"));
    assert_eq!(payloads[0].data().len(), 32);
}

#[test]
fn dst_alias_finds_the_destination() {
    let mut reg = TokenRegistry::new();
    let mut eth = EthDecoder {}.new_worker(&mut reg);
    let bytes = frame();
    let mut stack = link_stack(&mut reg, &bytes, eth.input());
    eth.decode(&mut stack).unwrap();
    let bottom = stack.bottom().unwrap();
    let by_alias = bottom.attr(reg.token("_.dst"));
    let by_path = bottom.attr(reg.token("eth.dst"));
    assert!(by_alias.is_some());
    assert_eq!(by_alias, by_path);
}

#[test]
fn failing_middle_decoder_keeps_earlier_layers() {
    let mut reg = TokenRegistry::new();
    let mut eth = EthDecoder {}.new_worker(&mut reg);
    let bytes = frame();
    let mut stack = link_stack(&mut reg, &bytes[0..19], eth.input());
    assert_eq!(eth.decode(&mut stack), Err(Error::Range));
    assert_eq!(stack.len(), 1);
    assert_eq!(stack.bottom().unwrap().id(), reg.token("eth"));
}

#[test]
fn short_frame_is_a_range_error() {
    let mut reg = TokenRegistry::new();
    let mut eth = EthDecoder {}.new_worker(&mut reg);
    let bytes = frame();
    let mut stack = link_stack(&mut reg, &bytes[0..13], eth.input());
    assert_eq!(eth.decode(&mut stack), Err(Error::Range));
    assert_eq!(stack.len(), 0);
}

#[test]
fn no_input_payload_skips() {
    let mut reg = TokenRegistry::new();
    let mut eth = EthDecoder {}.new_worker(&mut reg);
    let other = reg.token("@data:other");
    let bytes = frame();
    let mut stack = link_stack(&mut reg, &bytes, other);
    assert_eq!(eth.decode(&mut stack), Ok(Status::Skip));
    assert_eq!(stack.len(), 0);
}

#[test]
fn non_ipv4_frame_stops_at_link_layer() {
    let mut reg = TokenRegistry::new();
    let mut eth = EthDecoder {}.new_worker(&mut reg);
    let mut bytes = frame();
    bytes[12] = 0x86;
    bytes[13] = 0xdd;
    let mut stack = link_stack(&mut reg, &bytes, eth.input());
    assert_eq!(eth.decode(&mut stack), Ok(Status::Done));
    assert_eq!(stack.len(), 1);
    let payloads = stack.top().unwrap().payloads();
    assert_eq!(payloads[0].id(), reg.token("@data:ipv6"));
    assert_eq!(payloads[0].data().len(), 52);
}

#[test]
fn unknown_protocol_adds_no_payload() {
    let mut reg = TokenRegistry::new();
    let mut eth = EthDecoder {}.new_worker(&mut reg);
    let mut bytes = frame();
    bytes[23] = 0x63;
    let mut stack = link_stack(&mut reg, &bytes, eth.input());
    assert_eq!(eth.decode(&mut stack), Ok(Status::Done));
    assert_eq!(stack.len(), 2);
    assert!(stack.top().unwrap().payloads().is_empty());
    assert_eq!(stack.top().unwrap().attrs().len(), 15);
    assert_eq!(stack.top().unwrap().attr(reg.token("ipv4.protocol.tcp")), None);
}

#[test]
fn missing_field_is_no_match() {
    let mut reg = TokenRegistry::new();
    let mut eth = EthDecoder {}.new_worker(&mut reg);
    let bytes = frame();
    let mut stack = link_stack(&mut reg, &bytes, eth.input());
    eth.decode(&mut stack).unwrap();
    let nosuch = reg.token("nosuch.field");
    assert_eq!(stack.bottom().unwrap().attr(nosuch), None);
    assert_eq!(stack.top().unwrap().attr(nosuch), None);
    assert_eq!(stack.attr(nosuch), None);
}

#[test]
fn eth_type_values() {
    assert_eq!(EthType::from(0x0800), EthType::IPv4);
    assert_eq!(EthType::from(0x0806), EthType::ARP);
    assert_eq!(EthType::from(0x0842), EthType::WOL);
    assert_eq!(EthType::from(0x86DD), EthType::IPv6);
    assert_eq!(EthType::from(0x888E), EthType::EAP);
    assert_eq!(EthType::from(0x1234), EthType::Unknown);
    assert_eq!(EthType::default(), EthType::Unknown);
}

#[test]
fn protocol_numbers() {
    let mut reg = TokenRegistry::new();
    let mut entry = |data: &str, path: &str| {
        let t = reg.token(data);
        let c = reg.token(path);
        (t, Fixed::new(AttrClass::builder(c).build()))
    };
    let p = Protocols {
        icmp: entry("@data:icmp", "ipv4.protocol.icmp"),
        igmp: entry("@data:igmp", "ipv4.protocol.igmp"),
        tcp: entry("@data:tcp", "ipv4.protocol.tcp"),
        udp: entry("@data:udp", "ipv4.protocol.udp"),
    };
    let (t, c) = get_proto(&p, 0x06).unwrap();
    assert_eq!(t, reg.token("@data:tcp"));
    assert_eq!(c.get().id(), reg.token("ipv4.protocol.tcp"));
    assert_eq!(get_proto(&p, 0x01).unwrap().0, reg.token("@data:icmp"));
    assert_eq!(get_proto(&p, 0x02).unwrap().0, reg.token("@data:igmp"));
    assert_eq!(get_proto(&p, 0x11).unwrap().0, reg.token("@data:udp"));
    assert!(get_proto(&p, 0x63).is_none());
}

#[test]
fn tag_dispatch_picks_the_claiming_decoder() {
    let mut reg = TokenRegistry::new();
    let table = vec![EthDecoder {}.metadata(&mut reg), IPv4Decoder {}.metadata(&mut reg)];
    assert_eq!(table[1].exec_type, ExecType::ParallelSync);
    assert!(table[1].is_parallel());
    assert!(!table[0].is_parallel());
    assert_eq!(dispatch(&table, reg.token("@data:ipv4")), Some(1));
    assert_eq!(dispatch(&table, reg.token("@data:eth")), Some(0));
    assert_eq!(dispatch(&table, reg.token("@data:tcp")), None);
    assert_eq!(dispatch(&table, Token::null()), None);

    let mut eth = EthDecoder {}.new_worker(&mut reg);
    let bytes = frame();
    let mut stack = link_stack(&mut reg, &bytes, eth.input());
    assert_eq!(next_step(&table, stack.layer()), Some((0, 0)));
    eth.decode(&mut stack).unwrap();
    assert_eq!(next_step(&table, stack.bottom().unwrap()), Some((0, 1)));
    assert_eq!(next_step(&table, stack.top().unwrap()), None);
}

#[test]
fn inert_payloads_are_passed_over() {
    let mut reg = TokenRegistry::new();
    let table = vec![IPv4Decoder {}.metadata(&mut reg)];
    let id = reg.token("x");
    let class = Fixed::new(LayerClass::builder(Fixed::new(AttrClass::builder(id).build())).build());
    let mut layer = Layer::new(class, ByteSlice::new());
    let junk = reg.token("@data:junk");
    let ipv4 = reg.token("@data:ipv4");
    layer.add_payload(Payload::with_typ(ByteSlice::new(), junk, junk));
    layer.add_payload(Payload::new(ByteSlice::new(), ipv4));
    assert_eq!(next_step(&table, &layer), None);
    layer.add_payload(Payload::with_typ(ByteSlice::new(), ipv4, ipv4));
    assert_eq!(next_step(&table, &layer), Some((2, 0)));
    let m = Metadata::new(id);
    assert_eq!(m.accepts, Token::null());
    assert_eq!(m.exec_type, ExecType::SerialSync);
}


#[test]
fn decoder_lookup_by_name() {
    let mut reg = TokenRegistry::new();
    let table = vec![EthDecoder {}.metadata(&mut reg), IPv4Decoder {}.metadata(&mut reg)];
    assert_eq!(find_decoder(&table, reg.token("ipv4")), Ok(1));
    assert_eq!(find_decoder(&table, reg.token("eth")), Ok(0));
    assert_eq!(find_decoder(&table, reg.token("arp")), Err(Error::Lookup));
}
