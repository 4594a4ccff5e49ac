//! The Ethernet decoder.

use crate::attr::{expand_fields, field_size, typed_field, Attr, AttrClass, ClassView, Field};
use crate::cast::{be_uint, cast_value, Cast, UInt16BE, Value};
use crate::decoder::{ExecType, Metadata, Status};
use crate::error::Error;
use crate::fixed::Fixed;
use crate::ipv4::{
    find_payload, find_payload_of, ipv4_step, ipv4_worker, parent_of, stack_after, IPv4Decoder,
    IPv4View, IPv4Worker,
};
use crate::layer::{first_match, resolve, LayerClass, LayerStack, LayerStackView, LayerView, Layer, Payload, PayloadView};
use crate::token::{lemma_denotes_distinct, lemma_denotes_unique, Token, TokenRegistry};
use vstd::prelude::*;
use vstd::string::StringSliceAdditionalSpecFns;

verus! {

/// The protocol that an Ethernet type field names.
#[derive(Clone, Copy, Debug, PartialEq, Eq, Structural)]
pub enum EthType {
    IPv4,
    ARP,
    WOL,
    IPv6,
    EAP,
    Unknown,
}

impl Default for EthType {
    fn default() -> (r: EthType)
        ensures
            r == EthType::Unknown,
    {
        EthType::Unknown
    }
}

/// The protocol of the Ethernet type value `data`.
pub open spec fn eth_type_of(data: u16) -> EthType {
    if data == 0x0800 {
        EthType::IPv4
    } else if data == 0x0806 {
        EthType::ARP
    } else if data == 0x0842 {
        EthType::WOL
    } else if data == 0x86DD {
        EthType::IPv6
    } else if data == 0x888E {
        EthType::EAP
    } else {
        EthType::Unknown
    }
}

impl From<u16> for EthType {
    fn from(data: u16) -> (r: EthType) {
        if data == 0x0800 {
            EthType::IPv4
        } else if data == 0x0806 {
            EthType::ARP
        } else if data == 0x0842 {
            EthType::WOL
        } else if data == 0x86DD {
            EthType::IPv6
        } else if data == 0x888E {
            EthType::EAP
        } else {
            EthType::default()
        }
    }
}

impl vstd::std_specs::convert::FromSpecImpl<u16> for EthType {
    open spec fn obeys_from_spec() -> bool {
        true
    }

    open spec fn from_spec(data: u16) -> EthType {
        eth_type_of(data)
    }
}

/// What an Ethernet worker is, mathematically.
pub struct EthView {
    pub class: ClassView,
    pub input: Token,
    pub type_attr: Attr,
    pub ipv4_data: Token,
    pub ipv6_data: Token,
    pub arp_data: Token,
    pub ipv4: IPv4View,
}

/// The payload ID and type given to what follows a header of type `v`.
pub open spec fn payload_id(w: EthView, v: u16) -> Token {
    match eth_type_of(v) {
        EthType::IPv4 => w.ipv4_data,
        EthType::IPv6 => w.ipv6_data,
        EthType::ARP => w.arp_data,
        _ => Token { id: 0 },
    }
}

/// The type value of an Ethernet frame `d`: its bytes 12 and 13, big-endian.
pub open spec fn type_value(d: Seq<u8>) -> u16 {
    be_uint(d.subrange(12, 14)) as u16
}

/// The Ethernet layer of the frame `d`, with what follows the 14-byte
/// header as its payload.
pub open spec fn eth_layer(w: EthView, d: Seq<u8>) -> LayerView {
    LayerView {
        header: w.class,
        data: d,
        bound: seq![],
        payloads: seq![
            PayloadView {
                data: d.subrange(14, d.len() as int),
                id: payload_id(w, type_value(d)),
                typ: payload_id(w, type_value(d)),
            },
        ],
    }
}

/// What an Ethernet worker does with stack `s`: the outcome and the stack
/// after it. A frame of type IPv4 is handed on to the IPv4 worker, whose
/// outcome is then the outcome.
pub open spec fn eth_step(w: EthView, s: LayerStackView) -> (Result<Status, Error>, LayerStackView) {
    match find_payload(parent_of(s).payloads, w.input) {
        None => (Ok(Status::Skip), s),
        Some(p) => if p.data.len() < 14 {
            (Err(Error::Range), s)
        } else {
            let s1 = stack_after(s, Some(eth_layer(w, p.data)));
            if type_value(p.data) == 0x0800 {
                let next = ipv4_step(w.ipv4, eth_layer(w, p.data));
                (next.0, stack_after(s1, next.1))
            } else {
                (Ok(Status::Done), s1)
            }
        },
    }
}

/// The Ethernet decoder: reads the link header of a frame, adds a layer for
/// it, and hands an IPv4 payload straight on to the IPv4 worker.
pub struct EthWorker {
    class: Fixed<LayerClass>,
    input: Token,
    type_attr: Attr,
    ipv4_data: Token,
    ipv6_data: Token,
    arp_data: Token,
    ipv4: IPv4Worker,
}

impl View for EthWorker {
    type V = EthView;

    closed spec fn view(&self) -> EthView {
        EthView {
            class: self.class@@,
            input: self.input,
            type_attr: self.type_attr,
            ipv4_data: self.ipv4_data,
            ipv6_data: self.ipv6_data,
            arp_data: self.arp_data,
            ipv4: self.ipv4@,
        }
    }
}

impl EthWorker {
    /// Whether the worker's fixed attributes are where decoding reads them.
    pub open spec fn wf(self) -> bool {
        &&& self@.type_attr.cast == Cast::UInt16BE
        &&& self@.type_attr.start == 96
        &&& self@.type_attr.end == 112
        &&& self@.ipv4.wf()
    }

    /// The payload ID that the worker reads.
    pub fn input(&self) -> (r: Token)
        ensures
            r == self@.input,
    {
        self.input
    }

    /// Decodes the Ethernet header of the first payload of the parent layer
    /// whose ID is the worker's input.
    ///
    /// A frame shorter than the 14-byte header is a range error that leaves
    /// the stack as it was. Otherwise the Ethernet layer stays on the stack
    /// whatever the IPv4 worker then makes of its payload.
    pub fn decode(&mut self, stack: &mut LayerStack) -> (r: Result<Status, Error>)
        requires
            old(self).wf(),
        ensures
            *final(self) == *old(self),
            r == eth_step(old(self)@, old(stack)@).0,
            final(stack)@ == eth_step(old(self)@, old(stack)@).1,
    {
        let payload = match find_payload_of(stack.parent(), self.input) {
            Some(p) => p,
            None => {
                return Ok(Status::Skip);
            },
        };
        let data = payload.data();
        let typ = UInt16BE().cast(&self.type_attr, &data)?;
        let rest = data.try_get(14..data.len())?;
        let kind = EthType::from(typ);
        let id = match kind {
            EthType::IPv4 => self.ipv4_data,
            EthType::IPv6 => self.ipv6_data,
            EthType::ARP => self.arp_data,
            _ => Token::null(),
        };
        let mut layer = Layer::new(self.class.clone(), data);
        layer.add_payload(Payload::with_typ(rest, id, id));
        proof {
            let d = payload@.data;
            assert(d.subrange(12, 14).take(2) =~= d.subrange(12, 14));
            assert(layer@.payloads =~= eth_layer(self@, d).payloads);
            assert(layer@.bound =~= eth_layer(self@, d).bound);
        }
        stack.add_child(layer);
        match kind {
            EthType::IPv4 => self.ipv4.decode(stack),
            _ => Ok(Status::Done),
        }
    }
}

/// Where the Ethernet worker finds a frame with a whole header but the IPv4
/// worker after it fails, the stack keeps the Ethernet layer: the packet
/// yields the layers built before the failure, never an empty stack.
pub proof fn lemma_partial_decode(w: EthView, s: LayerStackView)
    requires
        find_payload(parent_of(s).payloads, w.input) matches Some(p) && p.data.len() >= 14
            && type_value(p.data) == 0x0800 && ipv4_step(w.ipv4, eth_layer(w, p.data)).0 is Err,
    ensures
        eth_step(w, s).0 is Err,
        eth_step(w, s).1.children == s.children.push(
            eth_layer(w, find_payload(parent_of(s).payloads, w.input).unwrap().data),
        ),
        eth_step(w, s).1.children.len() > 0,
{
}

/// Whether `c` is the Ethernet header class in `reg`: destination address,
/// source address and type, with `_.src` and `_.dst` as aliases of the
/// addresses.
pub open spec fn eth_header(reg: TokenRegistry, c: ClassView) -> bool {
    &&& reg.denotes(c.id, "eth".spec_bytes())
    &&& reg.denotes(c.typ, "@layer".spec_bytes())
    &&& c.children.len() == 3
    &&& typed_field(reg, c.children[0], "eth.dst", "@eth:mac", Cast::ByteSlice, 48)
    &&& typed_field(reg, c.children[1], "eth.src", "@eth:mac", Cast::ByteSlice, 48)
    &&& typed_field(reg, c.children[2], "eth.type", "@enum", Cast::UInt16BE, 16)
    &&& c.aliases.len() == 2
    &&& reg.denotes(c.aliases[0].0, "_.src".spec_bytes())
    &&& c.aliases[0].1 == c.children[1].id
    &&& reg.denotes(c.aliases[1].0, "_.dst".spec_bytes())
    &&& c.aliases[1].1 == c.children[0].id
}

/// Whether `w` is the Ethernet worker in `reg`: its header class, its input
/// `@data:eth`, the payload IDs it gives, and an IPv4 worker that reads the
/// IPv4 payloads it gives.
pub open spec fn eth_worker(reg: TokenRegistry, w: EthView) -> bool {
    &&& eth_header(reg, w.class)
    &&& w.class.wf()
    &&& w.class.bit_size == 112
    &&& reg.denotes(w.input, "@data:eth".spec_bytes())
    &&& reg.denotes(w.ipv4_data, "@data:ipv4".spec_bytes())
    &&& reg.denotes(w.ipv6_data, "@data:ipv6".spec_bytes())
    &&& reg.denotes(w.arp_data, "@data:arp".spec_bytes())
    &&& w.type_attr.id == w.class.children[2].id
    &&& w.type_attr.typ == w.class.children[2].typ
    &&& ipv4_worker(reg, w.ipv4)
    &&& w.ipv4.input == w.ipv4_data
}

proof fn lemma_ascii_len(s: &str)
    requires
        vstd::string::is_ascii(s),
    ensures
        s.spec_bytes().len() == s@.len(),
{
    broadcast use vstd::string::is_ascii_spec_bytes;

}

proof fn lemma_names_differ()
    ensures
        "_.src".spec_bytes() != "eth.dst".spec_bytes(),
        "_.dst".spec_bytes() != "eth.dst".spec_bytes(),
        "eth".spec_bytes() != "eth.dst".spec_bytes(),
{
    reveal_strlit("eth");
    reveal_strlit("eth.dst");
    reveal_strlit("_.src");
    reveal_strlit("_.dst");
    lemma_ascii_len("eth");
    lemma_ascii_len("eth.dst");
    lemma_ascii_len("_.src");
    lemma_ascii_len("_.dst");
}

proof fn lemma_dst_lookup(reg: TokenRegistry, c: ClassView, l: LayerView)
    requires
        eth_header(reg, c),
        l.header == c,
        l.bound.len() == 0,
    ensures
        l.lookup(c.children[0].id) == Some(Attr {
            id: c.children[0].id,
            typ: c.children[0].typ,
            cast: Cast::ByteSlice,
            start: 0,
            end: 48,
        }),
{
    let dst = c.children[0].id;
    lemma_names_differ();
    lemma_denotes_distinct(reg, c.aliases[0].0, dst, "_.src".spec_bytes(), "eth.dst".spec_bytes());
    lemma_denotes_distinct(reg, c.aliases[1].0, dst, "_.dst".spec_bytes(), "eth.dst".spec_bytes());
    lemma_denotes_distinct(reg, c.id, dst, "eth".spec_bytes(), "eth.dst".spec_bytes());
    assert(l.aliases() =~= c.aliases);
    let rest = c.aliases.drop_first();
    assert(rest[0] == c.aliases[1]);
    assert(rest.drop_first().len() == 0);
    assert(resolve(rest.drop_first(), dst) == dst);
    assert(resolve(rest, dst) == dst);
    assert(resolve(c.aliases, dst) == dst);
    let d = l.data;
    let e0 = expand_fields(c.children, d, 0, 0);
    assert(e0.offset == 0 && e0.attrs.len() == 0 && e0.values.len() == 0);
    assert(field_size(c.children[0], e0.values) == Some(48nat));
    let e1 = expand_fields(c.children, d, 0, 1);
    let e3 = expand_fields(c.children, d, 0, 3);
    assert(e1.attrs[0] == (Attr { id: dst, typ: c.children[0].typ, cast: Cast::ByteSlice, start: 0, end: 48 }));
    assert(expand_fields(c.children, d, 0, 2).attrs[0] == e1.attrs[0]);
    assert(e3.attrs[0] == e1.attrs[0]);
    let all = l.attrs();
    assert(all[0].id == c.id);
    assert(all[1] == e1.attrs[0]);
    assert(all.drop_first()[0] == all[1]);
    assert(all[0].id != dst);
    assert(first_match(all.drop_first(), dst) == Some(all[1]));
    assert(first_match(all, dst) == Some(all[1]));
}

/// A frame of type IPv4 with a whole IPv4 header, read by the Ethernet
/// worker from a stack without layers, yields the Ethernet layer at the
/// bottom and the IPv4 layer over the bytes after the first 14 above it; the
/// Ethernet layer's destination address is the attribute over its first 48
/// bits, whose value is the frame's first 6 bytes.
pub proof fn lemma_link_then_network(reg: TokenRegistry, w: EthView, s: LayerStackView)
    requires
        eth_worker(reg, w),
        s.children.len() == 0,
        find_payload(s.layer.payloads, w.input) matches Some(p) && p.data.len() >= 34
            && type_value(p.data) == 0x0800,
    ensures
        ({
            let d = find_payload(s.layer.payloads, w.input).unwrap().data;
            let after = eth_step(w, s).1.children;
            &&& eth_step(w, s).0 == Ok::<Status, Error>(Status::Done)
            &&& after.len() == 2
            &&& after[0] == eth_layer(w, d)
            &&& after[1].header == w.ipv4.class
            &&& after[1].data == d.subrange(14, d.len() as int)
            &&& after[0].lookup(w.class.children[0].id) == Some(Attr {
                id: w.class.children[0].id,
                typ: w.class.children[0].typ,
                cast: Cast::ByteSlice,
                start: 0,
                end: 48,
            })
            &&& cast_value(
                Cast::ByteSlice,
                after[0].lookup(w.class.children[0].id).unwrap(),
                d,
            ) == Ok::<Value, Error>(Value::Bytes(d.subrange(0, 6)))
        }),
{
    let d = find_payload(s.layer.payloads, w.input).unwrap().data;
    let l = eth_layer(w, d);
    assert(l.payloads[0].id == w.ipv4.input);
    assert(find_payload(l.payloads, w.ipv4.input) == Some(l.payloads[0]));
    assert(l.payloads[0].data.len() >= 20);
    lemma_dst_lookup(reg, w.class, l);
}

/// The Ethernet decoder's factory.
#[derive(Clone, Copy, Debug, Default)]
pub struct EthDecoder {}

impl EthDecoder {
    /// A worker whose header class lays out the destination address, the
    /// source address and the type of an Ethernet header, which reads
    /// `@data:eth` payloads and hands IPv4 payloads to its IPv4 worker.
    #[verifier::rlimit(100)]
    pub fn new_worker(&self, reg: &mut TokenRegistry) -> (r: EthWorker)
        requires
            old(reg).wf(),
            old(reg).has_room(128),
        ensures
            final(reg).wf(),
            final(reg).names().len() <= old(reg).names().len() + 128,
            forall|u: Token, v: Seq<u8>| old(reg).denotes(u, v) ==> #[trigger] final(reg).denotes(u, v),
            eth_worker(*final(reg), r@),
            r.wf(),
    {
        let id = reg.token("eth");
        let typ = reg.token("@layer");
        let b = AttrClass::builder(id).typ(typ).name("Ethernet");
        let dst = reg.token("eth.dst");
        let mac = reg.token("@eth:mac");
        let b = b.child(Field::fixed(dst, mac, Cast::ByteSlice, 48)).unwrap();
        let src = reg.token("eth.src");
        let b = b.child(Field::fixed(src, mac, Cast::ByteSlice, 48)).unwrap();
        let type_id = reg.token("eth.type");
        let type_typ = reg.token("@enum");
        let b = b.child(Field::fixed(type_id, type_typ, Cast::UInt16BE, 16)).unwrap();
        let src_alias = reg.token("_.src");
        let dst_alias = reg.token("_.dst");
        let b = b.alias(src_alias, src).alias(dst_alias, dst);
        let input = reg.token("@data:eth");
        let ipv4_data = reg.token("@data:ipv4");
        let ipv6_data = reg.token("@data:ipv6");
        let arp_data = reg.token("@data:arp");
        let ipv4 = IPv4Decoder {}.new_worker(reg);
        let r = EthWorker {
            class: Fixed::new(LayerClass::new(b.build())),
            input,
            type_attr: Attr { id: type_id, typ: type_typ, cast: Cast::UInt16BE, start: 96, end: 112 },
            ipv4_data,
            ipv6_data,
            arp_data,
            ipv4,
        };
        proof {
            lemma_denotes_unique(*reg, r@.ipv4.input, ipv4_data, "@data:ipv4".spec_bytes());
        }
        r
    }

    /// The decoder's metadata: it is named `eth` and claims `@data:eth`
    /// payloads.
    pub fn metadata(&self, reg: &mut TokenRegistry) -> (r: Metadata)
        requires
            old(reg).wf(),
            old(reg).has_room(2),
        ensures
            final(reg).wf(),
            final(reg).names().len() <= old(reg).names().len() + 2,
            forall|u: Token, v: Seq<u8>| old(reg).denotes(u, v) ==> #[trigger] final(reg).denotes(u, v),
            final(reg).denotes(r.id, "eth".spec_bytes()),
            final(reg).denotes(r.accepts, "@data:eth".spec_bytes()),
            r.exec_type == ExecType::SerialSync,
    {
        let id = reg.token("eth");
        let accepts = reg.token("@data:eth");
        Metadata { id, accepts, exec_type: ExecType::SerialSync }
    }
}

} // verus!
