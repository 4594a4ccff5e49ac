//! The byte layout of the pcap capture file that the writer produces.

use crate::cast::{cast_value, le_uint, Value};
use crate::error::Error;
use crate::layer::{Layer, LayerView};
use crate::slice::ByteSlice;
use crate::token::{Token, TokenRegistry};
use byteorder::{LittleEndian, WriteBytesExt};
use vstd::prelude::*;
use vstd::string::StringSliceAdditionalSpecFns;

verus! {

/// Relies on byteorder's `WriteBytesExt::write_u16::<LittleEndian>`: appends
/// the two little-endian bytes of `n`; writing to a `Vec` does not fail.
#[verifier::external_body]
fn push_u16_le(out: &mut Vec<u8>, n: u16)
    ensures
        final(out)@.len() == old(out)@.len() + 2,
        final(out)@.take(old(out)@.len() as int) == old(out)@,
        le_uint(final(out)@.subrange(old(out)@.len() as int, old(out)@.len() + 2int)) == n,
{
    let _ = out.write_u16::<LittleEndian>(n);
}

/// Relies on byteorder's `WriteBytesExt::write_u32::<LittleEndian>`: appends
/// the four little-endian bytes of `n`; writing to a `Vec` does not fail.
#[verifier::external_body]
fn push_u32_le(out: &mut Vec<u8>, n: u32)
    ensures
        final(out)@.len() == old(out)@.len() + 4,
        final(out)@.take(old(out)@.len() as int) == old(out)@,
        le_uint(final(out)@.subrange(old(out)@.len() as int, old(out)@.len() + 4int)) == n,
{
    let _ = out.write_u32::<LittleEndian>(n);
}

/// The magic number that opens a pcap file, as it is written.
pub fn file_magic() -> (r: Vec<u8>)
    ensures
        r@ == seq![0x4du8, 0x3cu8, 0xb2u8, 0xa1u8],
{
    let mut r: Vec<u8> = Vec::new();
    r.push(0x4d);
    r.push(0x3c);
    r.push(0xb2);
    r.push(0xa1);
    assert(r@ =~= seq![0x4du8, 0x3cu8, 0xb2u8, 0xa1u8]);
    r
}

/// Whether `b` is the 20-byte global header after the magic number: version
/// 2.4, time zone 0, accuracy 0, then `snaplen` and the link type `network`,
/// all little-endian.
pub open spec fn is_file_header(b: Seq<u8>, snaplen: u32, network: u32) -> bool {
    &&& b.len() == 20
    &&& le_uint(b.subrange(0, 2)) == 2
    &&& le_uint(b.subrange(2, 4)) == 4
    &&& le_uint(b.subrange(4, 8)) == 0
    &&& le_uint(b.subrange(8, 12)) == 0
    &&& le_uint(b.subrange(12, 16)) == snaplen
    &&& le_uint(b.subrange(16, 20)) == network
}

/// Whether `b` is a record: its 16-byte header (seconds, microseconds,
/// captured length, length on the wire, all little-endian) and then `data`.
pub open spec fn is_record(b: Seq<u8>, ts_sec: u32, ts_usec: u32, orig_len: u32, data: Seq<u8>) -> bool {
    &&& b.len() == 16 + data.len()
    &&& le_uint(b.subrange(0, 4)) == ts_sec
    &&& le_uint(b.subrange(4, 8)) == ts_usec
    &&& le_uint(b.subrange(8, 12)) == data.len()
    &&& le_uint(b.subrange(12, 16)) == orig_len
    &&& b.subrange(16, b.len() as int) == data
}

/// The value that the attribute `id` of layer `l` gives a record field: `0`
/// where the layer has no such attribute, an error where its value cannot
/// be read or is no integer that fits 32 bits.
pub open spec fn field_value(l: LayerView, id: Token) -> Result<u32, Error> {
    match l.lookup(id) {
        None => Ok(0),
        Some(a) => match cast_value(a.cast, a, l.data) {
            Ok(Value::Int(v)) => if 0 <= v <= u32::MAX {
                Ok(v as u32)
            } else {
                Err(Error::Type)
            },
            Ok(_) => Err(Error::Type),
            Err(e) => Err(e),
        },
    }
}

/// The state of a pcap writer: the tokens of the link attributes that it
/// reads, and whether the global header is written yet.
pub struct PcapFileWriterWorker {
    pub header: bool,
    pub length: Token,
    pub link_type: Token,
    pub ts_sec: Token,
    pub ts_usec: Token,
}

impl PcapFileWriterWorker {
    /// A writer that has written nothing but the magic number, and reads the
    /// attributes `link.length`, `link.type`, `link.timestamp.sec` and
    /// `link.timestamp.usec`.
    pub fn new(reg: &mut TokenRegistry) -> (r: PcapFileWriterWorker)
        requires
            old(reg).wf(),
            old(reg).has_room(4),
        ensures
            final(reg).wf(),
            final(reg).names().len() <= old(reg).names().len() + 4,
            forall|u: Token, v: Seq<u8>| old(reg).denotes(u, v) ==> #[trigger] final(reg).denotes(u, v),
            !r.header,
            final(reg).denotes(r.length, "link.length".spec_bytes()),
            final(reg).denotes(r.link_type, "link.type".spec_bytes()),
            final(reg).denotes(r.ts_sec, "link.timestamp.sec".spec_bytes()),
            final(reg).denotes(r.ts_usec, "link.timestamp.usec".spec_bytes()),
    {
        PcapFileWriterWorker {
            header: false,
            length: reg.token("link.length"),
            link_type: reg.token("link.type"),
            ts_sec: reg.token("link.timestamp.sec"),
            ts_usec: reg.token("link.timestamp.usec"),
        }
    }

    /// The global header, the first time; nothing after that.
    pub fn write_header(&mut self, snaplen: u32, network: u32) -> (r: Vec<u8>)
        ensures
            final(self).header,
            final(self).length == old(self).length,
            final(self).link_type == old(self).link_type,
            final(self).ts_sec == old(self).ts_sec,
            final(self).ts_usec == old(self).ts_usec,
            old(self).header ==> r@.len() == 0,
            !old(self).header ==> is_file_header(r@, snaplen, network),
    {
        let mut out: Vec<u8> = Vec::new();
        if !self.header {
            self.header = true;
            push_u16_le(&mut out, 2);
            push_u16_le(&mut out, 4);
            push_u32_le(&mut out, 0);
            push_u32_le(&mut out, 0);
            push_u32_le(&mut out, snaplen);
            push_u32_le(&mut out, network);
            proof {
                let b = out@;
                assert(b.take(16).subrange(12, 16) =~= b.subrange(12, 16));
                assert(b.take(16).take(12).subrange(8, 12) =~= b.subrange(8, 12));
                assert(b.take(16).take(12).take(8).subrange(4, 8) =~= b.subrange(4, 8));
                assert(b.take(16).take(12).take(8).take(4).subrange(2, 4) =~= b.subrange(2, 4));
                assert(b.take(16).take(12).take(8).take(4).take(2).subrange(0, 2) =~= b.subrange(0, 2));
            }
        }
        out
    }

    /// The value of the attribute `id` of `layer` for a record field.
    fn field(layer: &Layer, id: Token) -> (r: Result<u32, Error>)
        ensures
            r == field_value(layer@, id),
    {
        match layer.attr(id) {
            None => Ok(0),
            Some(a) => {
                let data = layer.data();
                match a.try_get(&data) {
                    Ok(crate::cast::Variant::UInt64(v)) => if v <= 0xffff_ffff {
                        Ok(v as u32)
                    } else {
                        Err(Error::Type)
                    },
                    Ok(crate::cast::Variant::Int64(v)) => if 0 <= v && v <= 0xffff_ffff {
                        Ok(v as u32)
                    } else {
                        Err(Error::Type)
                    },
                    Ok(_) => Err(Error::Type),
                    Err(e) => Err(e),
                }
            },
        }
    }

    /// The bytes to write for the packet whose link layer is `layer`: the
    /// global header first, if it is not written yet, with the layer's link
    /// type, and then the record of the layer's bytes.
    ///
    /// An attribute whose value cannot be read fails the write and leaves the
    /// writer as it was.
    #[verifier::rlimit(50)]
    pub fn write(&mut self, layer: &Layer) -> (r: Result<Vec<u8>, Error>)
        requires
            layer@.data.len() <= u32::MAX,
        ensures
            ({
                let l = layer@;
                let fields = (
                    field_value(l, old(self).length),
                    field_value(l, old(self).link_type),
                    field_value(l, old(self).ts_sec),
                    field_value(l, old(self).ts_usec),
                );
                &&& final(self).length == old(self).length
                &&& final(self).link_type == old(self).link_type
                &&& final(self).ts_sec == old(self).ts_sec
                &&& final(self).ts_usec == old(self).ts_usec
                &&& r is Ok <==> (fields.0 is Ok && fields.1 is Ok && fields.2 is Ok && fields.3 is Ok)
                &&& r is Err ==> final(self).header == old(self).header
                &&& r matches Ok(b) ==> {
                    let h: int = if old(self).header {
                        0
                    } else {
                        20
                    };
                    &&& final(self).header
                    &&& b.len() == h + 16 + l.data.len()
                    &&& !old(self).header ==> is_file_header(b@.subrange(0, 20), 0, fields.1.unwrap())
                    &&& is_record(
                        b@.subrange(h, b@.len() as int),
                        fields.2.unwrap(),
                        fields.3.unwrap(),
                        fields.0.unwrap(),
                        l.data,
                    )
                }
            }),
    {
        let orig_len = PcapFileWriterWorker::field(layer, self.length)?;
        let link = PcapFileWriterWorker::field(layer, self.link_type)?;
        let ts_sec = PcapFileWriterWorker::field(layer, self.ts_sec)?;
        let ts_usec = PcapFileWriterWorker::field(layer, self.ts_usec)?;
        let data: ByteSlice = layer.data();
        let mut out = self.write_header(0, link);
        let ghost h = out@;
        push_u32_le(&mut out, ts_sec);
        push_u32_le(&mut out, ts_usec);
        push_u32_le(&mut out, data.len() as u32);
        push_u32_le(&mut out, orig_len);
        let ghost rec = out@;
        let mut bytes = data.to_vec();
        out.append(&mut bytes);
        proof {
            let hl = h.len() as int;
            let b = out@;
            assert(b.subrange(0, hl) =~= h) by {
                assert(rec.take(hl) =~= h);
                assert(b.take(rec.len() as int) =~= rec);
            }
            let tail = b.subrange(hl, b.len() as int);
            assert(tail.subrange(16, tail.len() as int) =~= data@);
            assert(tail.subrange(12, 16) =~= rec.subrange(hl + 12, hl + 16));
            assert(tail.subrange(8, 12) =~= rec.take(hl + 12).subrange(hl + 8, hl + 12));
            assert(tail.subrange(4, 8) =~= rec.take(hl + 12).take(hl + 8).subrange(hl + 4, hl + 8));
            assert(tail.subrange(0, 4) =~= rec.take(hl + 12).take(hl + 8).take(hl + 4).subrange(hl, hl + 4));
        }
        Ok(out)
    }
}

} // verus!
