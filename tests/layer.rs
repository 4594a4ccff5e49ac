use genet::attr::AttrClass;
use genet::cast::Cast;
use genet::fixed::Fixed;
use genet::layer::{Layer, LayerClass, Payload};
use genet::slice::ByteSlice;
use genet::token::{Token, TokenRegistry};

#[test]
fn id() {
    let id = Token::from(123);
    let attr = Fixed::new(AttrClass::builder(id).build());
    let class = Fixed::new(LayerClass::builder(attr).build());
    let layer = Layer::new(class, ByteSlice::new());
    assert_eq!(layer.id(), id);
}

#[test]
fn data() {
    let data = b"hello";
    let attr = Fixed::new(AttrClass::builder(Token::null()).build());
    let class = Fixed::new(LayerClass::builder(attr).build());
    let layer = Layer::new(class, ByteSlice::from_bytes(&data[..]));
    assert_eq!(layer.data(), ByteSlice::from_bytes(&data[..]));
}

#[test]
fn payloads() {
    let attr = Fixed::new(AttrClass::builder(Token::null()).build());
    let class = Fixed::new(LayerClass::builder(attr).build());
    let mut layer = Layer::new(class, ByteSlice::new());
    assert!(layer.payloads().iter().next().is_none());

    let count = 100;
    let data = b"hello";

    for i in 0..count {
        layer.add_payload(Payload::new(ByteSlice::from_bytes(&data[..]), Token::from(i)));
    }

    let mut iter = layer.payloads().iter();
    for i in 0..count {
        let payload = iter.next().unwrap();
        assert_eq!(payload.data(), ByteSlice::from_bytes(&data[..]));
        assert_eq!(payload.id(), Token::from(i));
    }
    assert!(iter.next().is_none());
}

#[test]
fn attrs() {
    let mut reg = TokenRegistry::new();
    let attr = Fixed::new(AttrClass::builder(Token::null()).build());
    let class = Fixed::new(LayerClass::builder(attr).build());
    let mut layer = Layer::new(class, ByteSlice::new());
    let header = layer.attrs();
    assert_eq!(header.len(), 1);
    assert_eq!(header[0].id(), Token::null());

    let nil = reg.token("nil");
    let nil_typ = reg.token("@nil");
    let class = Fixed::new(AttrClass::builder(nil).typ(nil_typ).cast(Cast::Nil).build());

    let count = 100;
    for i in 0..count {
        layer.add_attr(class.clone(), 0..i);
    }
    let attrs = layer.attrs();
    assert_eq!(attrs.len(), 101);
    let mut iter = attrs.iter();
    assert_eq!(iter.next().unwrap().id(), Token::null());
    for i in 0..count {
        let attr = iter.next().unwrap();
        assert_eq!(attr.id(), reg.token("nil"));
        assert_eq!(attr.typ(), reg.token("@nil"));
        assert_eq!(attr.range(), 0..i);
    }
    assert!(iter.next().is_none());
}
