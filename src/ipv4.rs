//! The IPv4 decoder.

use crate::attr::{plain_field, typed_field, Attr, AttrClass, ClassView, Field, Layout};
use crate::cast::{Cast, UInt8};
use crate::decoder::{ExecType, Metadata, Status};
use crate::error::Error;
use crate::fixed::Fixed;
use crate::layer::{Binding, Layer, LayerClass, LayerStack, LayerStackView, LayerView, Payload, PayloadView};
use crate::token::{Token, TokenRegistry};
use vstd::prelude::*;
use vstd::string::StringSliceAdditionalSpecFns;

verus! {

/// The payload types and protocol attributes of the transport protocols
/// that IPv4 names.
pub struct Protocols {
    pub icmp: (Token, Fixed<AttrClass>),
    pub igmp: (Token, Fixed<AttrClass>),
    pub tcp: (Token, Fixed<AttrClass>),
    pub udp: (Token, Fixed<AttrClass>),
}

/// The payload type and protocol attribute class for protocol number `val`.
pub open spec fn proto_spec(p: Protocols, val: u64) -> Option<(Token, ClassView)> {
    if val == 0x01 {
        Some((p.icmp.0, p.icmp.1@@))
    } else if val == 0x02 {
        Some((p.igmp.0, p.igmp.1@@))
    } else if val == 0x06 {
        Some((p.tcp.0, p.tcp.1@@))
    } else if val == 0x11 {
        Some((p.udp.0, p.udp.1@@))
    } else {
        None
    }
}

/// The payload type and protocol attribute class for the protocol number
/// `val`: ICMP, IGMP, TCP and UDP are known, others are not.
pub fn get_proto(p: &Protocols, val: u64) -> (r: Option<(Token, Fixed<AttrClass>)>)
    ensures
        proto_spec(*p, val) is None ==> r is None,
        proto_spec(*p, val) matches Some((t, c)) ==> (r matches Some((u, d)) && u == t && d@@ == c),
{
    if val == 0x01 {
        Some((p.icmp.0, p.icmp.1.clone()))
    } else if val == 0x02 {
        Some((p.igmp.0, p.igmp.1.clone()))
    } else if val == 0x06 {
        Some((p.tcp.0, p.tcp.1.clone()))
    } else if val == 0x11 {
        Some((p.udp.0, p.udp.1.clone()))
    } else {
        None
    }
}

/// The first payload of `payloads` whose ID is `id`.
pub open spec fn find_payload(payloads: Seq<PayloadView>, id: Token) -> Option<PayloadView>
    decreases payloads.len(),
{
    if payloads.len() == 0 {
        None
    } else if payloads[0].id == id {
        Some(payloads[0])
    } else {
        find_payload(payloads.drop_first(), id)
    }
}

/// Finds the first payload of `layer` whose ID is `id`.
pub fn find_payload_of(layer: &Layer, id: Token) -> (r: Option<Payload>)
    ensures
        find_payload(layer@.payloads, id) is None ==> r is None,
        find_payload(layer@.payloads, id) matches Some(p) ==> (r matches Some(q) && q@ == p),
{
    let payloads = layer.payloads();
    let ghost pv = layer@.payloads;
    let n = payloads.len();
    let mut i: usize = 0;
    assert(pv.subrange(0, n as int) =~= pv);
    while i < n
        invariant
            n == pv.len(),
            pv == layer@.payloads,
            payloads@.map_values(|p: Payload| p@) == pv,
            0 <= i <= n,
            find_payload(pv, id) == find_payload(pv.subrange(i as int, n as int), id),
        decreases n - i,
    {
        let ghost rest = pv.subrange(i as int, n as int);
        assert(rest.drop_first() =~= pv.subrange(i + 1, n as int));
        assert(rest[0] == pv[i as int]);
        assert(payloads@[i as int]@ == pv[i as int]);
        if payloads[i].id() == id {
            return Some(payloads[i].clone());
        }
        i += 1;
    }
    None
}

/// What an IPv4 worker is, mathematically.
pub struct IPv4View {
    pub class: ClassView,
    pub input: Token,
    pub protocol: Attr,
    pub protocols: Protocols,
}

impl IPv4View {
    /// Whether the protocol attribute is where decoding reads it: the byte
    /// at offset 9, as an unsigned integer.
    pub open spec fn wf(self) -> bool {
        &&& self.protocol.cast == Cast::UInt8
        &&& self.protocol.start == 72
        &&& self.protocol.end == 80
    }
}

/// What an IPv4 worker makes of the bytes `d` of its input payload: the
/// outcome and, where it finishes, the layer it adds.
pub open spec fn ipv4_layer(w: IPv4View, d: Seq<u8>) -> (Result<Status, Error>, Option<LayerView>) {
    if d.len() < 10 {
        (Err(Error::Range), None)
    } else {
        match proto_spec(w.protocols, d[9] as u64) {
            None => (
                Ok(Status::Done),
                Some(LayerView { header: w.class, data: d, bound: seq![], payloads: seq![] }),
            ),
            Some((t, c)) => if d.len() < 20 {
                (Err(Error::Range), None)
            } else {
                (
                    Ok(Status::Done),
                    Some(
                        LayerView {
                            header: w.class,
                            data: d,
                            bound: seq![Binding { class: c, start: 72, end: 80 }],
                            payloads: seq![PayloadView { data: d.subrange(20, d.len() as int), id: t, typ: t }],
                        },
                    ),
                )
            },
        }
    }
}

/// What an IPv4 worker does with a stack whose parent layer is `parent`:
/// it skips where no payload of the parent has its input ID.
pub open spec fn ipv4_step(w: IPv4View, parent: LayerView) -> (Result<Status, Error>, Option<LayerView>) {
    match find_payload(parent.payloads, w.input) {
        None => (Ok(Status::Skip), None),
        Some(p) => ipv4_layer(w, p.data),
    }
}

/// The parent layer of a stack: the last one appended, or the current one.
pub open spec fn parent_of(s: LayerStackView) -> LayerView {
    if s.children.len() == 0 {
        s.layer
    } else {
        s.children.last()
    }
}

/// The stack after a decoder step that may add one layer.
pub open spec fn stack_after(s: LayerStackView, added: Option<LayerView>) -> LayerStackView {
    match added {
        Some(l) => LayerStackView { children: s.children.push(l), ..s },
        None => s,
    }
}

/// The IPv4 decoder: reads the IPv4 header of a payload and adds a layer for
/// it, with the transport payload that follows.
pub struct IPv4Worker {
    class: Fixed<LayerClass>,
    input: Token,
    protocol: Attr,
    protocols: Protocols,
}

impl View for IPv4Worker {
    type V = IPv4View;

    closed spec fn view(&self) -> IPv4View {
        IPv4View {
            class: self.class@@,
            input: self.input,
            protocol: self.protocol,
            protocols: self.protocols,
        }
    }
}

impl IPv4Worker {
    /// Whether the protocol attribute is where decoding reads it.
    pub open spec fn wf(self) -> bool {
        self@.wf()
    }

    /// The payload ID that the worker reads.
    pub fn input(&self) -> (r: Token)
        ensures
            r == self@.input,
    {
        self.input
    }

    /// Decodes the IPv4 header in the first payload of the parent layer
    /// whose ID is the worker's input.
    ///
    /// A header too short to hold the protocol number, or a known protocol
    /// with a header shorter than 20 bytes, is a range error that leaves the
    /// stack as it was.
    pub fn decode(&mut self, stack: &mut LayerStack) -> (r: Result<Status, Error>)
        requires
            old(self).wf(),
        ensures
            *final(self) == *old(self),
            r == ipv4_step(old(self)@, parent_of(old(stack)@)).0,
            final(stack)@ == stack_after(old(stack)@, ipv4_step(old(self)@, parent_of(old(stack)@)).1),
    {
        let payload = match find_payload_of(stack.parent(), self.input) {
            Some(p) => p,
            None => {
                return Ok(Status::Skip);
            },
        };
        let data = payload.data();
        let mut layer = Layer::new(self.class.clone(), data.clone());
        let proto = UInt8().cast(&self.protocol, &data)?;
        if let Some((typ, attr)) = get_proto(&self.protocols, proto as u64) {
            let rest = data.try_get(20..data.len())?;
            layer.add_attr(attr, 9..10);
            layer.add_payload(Payload::with_typ(rest, typ, typ));
        }
        proof {
            let d = data@;
            assert(d.subrange(9, 10).take(1) =~= seq![d[9]]);
            assert(layer@.bound =~= ipv4_layer(self@, d).1.unwrap().bound);
            assert(layer@.payloads =~= ipv4_layer(self@, d).1.unwrap().payloads);
        }
        stack.add_child(layer);
        Ok(Status::Done)
    }
}

/// Whether `c` is the IPv4 header class in `reg`: the twenty bytes of the
/// header laid out field by field, with `_.src` and `_.dst` as aliases of
/// the two addresses.
pub open spec fn ipv4_header(reg: TokenRegistry, c: ClassView) -> bool {
    &&& reg.denotes(c.id, "ipv4".spec_bytes())
    &&& reg.denotes(c.typ, "@layer".spec_bytes())
    &&& c.children.len() == 14
    &&& plain_field(reg, c.children[0], "ipv4.version", Cast::Bits, 4)
    &&& plain_field(reg, c.children[1], "ipv4.headerLength", Cast::Bits, 4)
    &&& plain_field(reg, c.children[2], "ipv4.tos", Cast::UInt8, 8)
    &&& plain_field(reg, c.children[3], "ipv4.totalLength", Cast::UInt16BE, 16)
    &&& plain_field(reg, c.children[4], "ipv4.id", Cast::UInt16BE, 16)
    &&& plain_field(reg, c.children[5], "ipv4.flags.reserved", Cast::BitFlag, 1)
    &&& plain_field(reg, c.children[6], "ipv4.flags.dontFragment", Cast::BitFlag, 1)
    &&& plain_field(reg, c.children[7], "ipv4.flags.moreFragments", Cast::BitFlag, 1)
    &&& plain_field(reg, c.children[8], "ipv4.fragmentOffset", Cast::Bits, 13)
    &&& plain_field(reg, c.children[9], "ipv4.ttl", Cast::UInt8, 8)
    &&& typed_field(reg, c.children[10], "ipv4.protocol", "@enum", Cast::UInt8, 8)
    &&& plain_field(reg, c.children[11], "ipv4.checksum", Cast::UInt16BE, 16)
    &&& typed_field(reg, c.children[12], "ipv4.src", "@ipv4:addr", Cast::ByteSlice, 32)
    &&& typed_field(reg, c.children[13], "ipv4.dst", "@ipv4:addr", Cast::ByteSlice, 32)
    &&& c.aliases.len() == 2
    &&& reg.denotes(c.aliases[0].0, "_.src".spec_bytes())
    &&& c.aliases[0].1 == c.children[12].id
    &&& reg.denotes(c.aliases[1].0, "_.dst".spec_bytes())
    &&& c.aliases[1].1 == c.children[13].id
}

/// Whether `e` pairs the payload type `data` with a flag class of path
/// `path` in `reg`.
pub open spec fn protocol_entry(reg: TokenRegistry, e: (Token, Fixed<AttrClass>), data: &str, path: &str) -> bool {
    &&& reg.denotes(e.0, data.spec_bytes())
    &&& reg.denotes(e.1@@.id, path.spec_bytes())
    &&& reg.denotes(e.1@@.typ, "@novalue".spec_bytes())
    &&& e.1@@.cast == Cast::Constant(true)
    &&& e.1@@.bit_size == 8
    &&& e.1@@.children.len() == 0
}

/// Whether `w` is the IPv4 worker in `reg`: its header class, its input
/// `@data:ipv4`, the protocol field it reads, and the known protocols.
pub open spec fn ipv4_worker(reg: TokenRegistry, w: IPv4View) -> bool {
    &&& ipv4_header(reg, w.class)
    &&& w.class.wf()
    &&& w.class.bit_size == 160
    &&& reg.denotes(w.input, "@data:ipv4".spec_bytes())
    &&& w.wf()
    &&& w.protocol.id == w.class.children[10].id
    &&& w.protocol.typ == w.class.children[10].typ
    &&& protocol_entry(reg, w.protocols.icmp, "@data:icmp", "ipv4.protocol.icmp")
    &&& protocol_entry(reg, w.protocols.igmp, "@data:igmp", "ipv4.protocol.igmp")
    &&& protocol_entry(reg, w.protocols.tcp, "@data:tcp", "ipv4.protocol.tcp")
    &&& protocol_entry(reg, w.protocols.udp, "@data:udp", "ipv4.protocol.udp")
}

/// The IPv4 decoder's factory.
#[derive(Clone, Copy, Debug, Default)]
pub struct IPv4Decoder {}

/// A class for the protocol attribute of a known transport protocol: a
/// flag that is set wherever it is present.
fn protocol_class(reg: &mut TokenRegistry, data: &str, path: &str) -> (r: (Token, Fixed<AttrClass>))
    requires
        old(reg).wf(),
        old(reg).has_room(3),
    ensures
        final(reg).wf(),
        final(reg).names().len() <= old(reg).names().len() + 3,
        forall|u: Token, v: Seq<u8>| old(reg).denotes(u, v) ==> #[trigger] final(reg).denotes(u, v),
        protocol_entry(*final(reg), r, data, path),
{
    let t = reg.token(data);
    let id = reg.token(path);
    let typ = reg.token("@novalue");
    (t, Fixed::new(AttrClass::builder(id).typ(typ).cast(Cast::Constant(true)).bit_size(8).build()))
}

impl IPv4Decoder {
    /// The decoder's metadata: it is named `ipv4`, claims `@data:ipv4`
    /// payloads and is safe to run on independent packets in parallel.
    pub fn metadata(&self, reg: &mut TokenRegistry) -> (r: Metadata)
        requires
            old(reg).wf(),
            old(reg).has_room(2),
        ensures
            final(reg).wf(),
            final(reg).names().len() <= old(reg).names().len() + 2,
            forall|u: Token, v: Seq<u8>| old(reg).denotes(u, v) ==> #[trigger] final(reg).denotes(u, v),
            final(reg).denotes(r.id, "ipv4".spec_bytes()),
            final(reg).denotes(r.accepts, "@data:ipv4".spec_bytes()),
            r.exec_type == ExecType::ParallelSync,
    {
        let id = reg.token("ipv4");
        let accepts = reg.token("@data:ipv4");
        Metadata { id, accepts, exec_type: ExecType::ParallelSync }
    }

    /// A worker whose header class lays out the twenty bytes of the IPv4
    /// header, and which reads `@data:ipv4` payloads.
    #[verifier::rlimit(100)]
    pub fn new_worker(&self, reg: &mut TokenRegistry) -> (r: IPv4Worker)
        requires
            old(reg).wf(),
            old(reg).has_room(64),
        ensures
            final(reg).wf(),
            final(reg).names().len() <= old(reg).names().len() + 64,
            forall|u: Token, v: Seq<u8>| old(reg).denotes(u, v) ==> #[trigger] final(reg).denotes(u, v),
            ipv4_worker(*final(reg), r@),
            r.wf(),
    {
        let id = reg.token("ipv4");
        let layer_typ = reg.token("@layer");
        let b = AttrClass::builder(id).typ(layer_typ).name("Internet Protocol Version 4");
        let version = reg.token("ipv4.version");
        let b = b.child(Field::fixed(version, Token::null(), Cast::Bits, 4)).unwrap();
        let hlen = reg.token("ipv4.headerLength");
        let b = b.child(Field::fixed(hlen, Token::null(), Cast::Bits, 4)).unwrap();
        let tos = reg.token("ipv4.tos");
        let b = b.child(Field::fixed(tos, Token::null(), Cast::UInt8, 8)).unwrap();
        let total = reg.token("ipv4.totalLength");
        let b = b.child(Field::fixed(total, Token::null(), Cast::UInt16BE, 16)).unwrap();
        let ident = reg.token("ipv4.id");
        let b = b.child(Field::fixed(ident, Token::null(), Cast::UInt16BE, 16)).unwrap();
        let reserved = reg.token("ipv4.flags.reserved");
        let b = b.child(Field::fixed(reserved, Token::null(), Cast::BitFlag, 1)).unwrap();
        let df = reg.token("ipv4.flags.dontFragment");
        let b = b.child(Field::fixed(df, Token::null(), Cast::BitFlag, 1)).unwrap();
        let mf = reg.token("ipv4.flags.moreFragments");
        let b = b.child(Field::fixed(mf, Token::null(), Cast::BitFlag, 1)).unwrap();
        let offset = reg.token("ipv4.fragmentOffset");
        let b = b.child(Field::fixed(offset, Token::null(), Cast::Bits, 13)).unwrap();
        let ttl = reg.token("ipv4.ttl");
        let b = b.child(Field::fixed(ttl, Token::null(), Cast::UInt8, 8)).unwrap();
        let proto = reg.token("ipv4.protocol");
        let enum_typ = reg.token("@enum");
        let b = b.child(Field::fixed(proto, enum_typ, Cast::UInt8, 8)).unwrap();
        let checksum = reg.token("ipv4.checksum");
        let b = b.child(Field::fixed(checksum, Token::null(), Cast::UInt16BE, 16)).unwrap();
        let src = reg.token("ipv4.src");
        let addr = reg.token("@ipv4:addr");
        let b = b.child(Field::fixed(src, addr, Cast::ByteSlice, 32)).unwrap();
        let dst = reg.token("ipv4.dst");
        let b = b.child(Field::fixed(dst, addr, Cast::ByteSlice, 32)).unwrap();
        let src_alias = reg.token("_.src");
        let dst_alias = reg.token("_.dst");
        let b = b.alias(src_alias, src).alias(dst_alias, dst);
        let protocol = Attr { id: proto, typ: enum_typ, cast: Cast::UInt8, start: 72, end: 80 };
        let icmp = protocol_class(reg, "@data:icmp", "ipv4.protocol.icmp");
        let igmp = protocol_class(reg, "@data:igmp", "ipv4.protocol.igmp");
        let tcp = protocol_class(reg, "@data:tcp", "ipv4.protocol.tcp");
        let udp = protocol_class(reg, "@data:udp", "ipv4.protocol.udp");
        let input = reg.token("@data:ipv4");
        IPv4Worker {
            class: Fixed::new(LayerClass::new(b.build())),
            input,
            protocol,
            protocols: Protocols { icmp, igmp, tcp, udp },
        }
    }
}

} // verus!
