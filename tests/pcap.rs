use genet::attr::{AttrClass, Field, Layout};
use genet::cast::Cast;
use genet::error::Error;
use genet::fixed::Fixed;
use genet::layer::{Layer, LayerClass};
use genet::pcap::{file_magic, PcapFileWriterWorker};
use genet::slice::ByteSlice;
use genet::token::TokenRegistry;

fn link_layer(reg: &mut TokenRegistry, type_cast: Cast, bytes: &[u8]) -> Layer {
    let id = reg.token("[link-1]");
    let typ = reg.token("link.type");
    let len = reg.token("link.length");
    let header = AttrClass::builder(id)
        .child(Field { id: typ, typ: reg.token(""), cast: type_cast, layout: Layout::Static(8) })
        .unwrap()
        .child(Field { id: len, typ: reg.token(""), cast: Cast::UInt8, layout: Layout::Static(8) })
        .unwrap()
        .build();
    Layer::new(Fixed::new(LayerClass::new(header)), ByteSlice::from_bytes(bytes))
}

#[test]
fn magic_number() {
    assert_eq!(file_magic(), vec![0x4d, 0x3c, 0xb2, 0xa1]);
}

#[test]
fn header_once_then_records() {
    let mut reg = TokenRegistry::new();
    let mut w = PcapFileWriterWorker::new(&mut reg);
    let layer = link_layer(&mut reg, Cast::UInt8, &[0x01, 0x2a, 0x07]);
    let first = w.write(&layer).unwrap();
    let mut expected = vec![2, 0, 4, 0, 0, 0, 0, 0, 0, 0, 0, 0, 0, 0, 0, 0, 1, 0, 0, 0];
    let record = vec![0, 0, 0, 0, 0, 0, 0, 0, 3, 0, 0, 0, 0x2a, 0, 0, 0, 0x01, 0x2a, 0x07];
    expected.extend_from_slice(&record);
    assert_eq!(first, expected);
    assert!(w.header);
    assert_eq!(w.write(&layer).unwrap(), record);
}

#[test]
fn header_written_only_once() {
    let mut reg = TokenRegistry::new();
    let mut w = PcapFileWriterWorker::new(&mut reg);
    assert_eq!(w.write_header(0xffff, 1).len(), 20);
    assert_eq!(w.write_header(0xffff, 1).len(), 0);
}

#[test]
fn unreadable_link_attribute_fails_the_write() {
    let mut reg = TokenRegistry::new();
    let mut w = PcapFileWriterWorker::new(&mut reg);
    let layer = link_layer(&mut reg, Cast::Utf8, &[0xff, 0x2a]);
    assert_eq!(w.write(&layer), Err(Error::Type));
    assert!(!w.header);
    let short = link_layer(&mut reg, Cast::UInt8, &[0x01]);
    assert_eq!(w.write(&short), Err(Error::Range));
}
