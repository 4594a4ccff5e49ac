use genet::attr::{AttrClass, ClassRegistry, Field, Layout};
use genet::cast::Cast;
use genet::error::Error;
use genet::fixed::{Fixed, MutFixed};
use genet::layer::{Layer, LayerClass, Payload};
use genet::naming::{field_name, field_segment, is_self_ident};
use genet::slice::ByteSlice;
use genet::token::{Token, TokenRegistry};
use std::cell::Cell;
use std::rc::Rc;

fn field(id: u64, layout: Layout) -> Field {
    Field { id: Token::from(id), typ: Token::null(), cast: Cast::UInt8, layout }
}

#[test]
fn static_children_tile_the_span() {
    let class = AttrClass::builder(Token::from(1))
        .child(field(2, Layout::Static(4)))
        .unwrap()
        .child(field(3, Layout::Padding(4)))
        .unwrap()
        .child(field(4, Layout::Static(8)))
        .unwrap()
        .child(field(5, Layout::Static(16)))
        .unwrap()
        .build();
    assert_eq!(class.bit_size(), 32);
    let attrs = class.expand(&ByteSlice::from_bytes(&[0; 4]), None);
    let ranges: Vec<_> = attrs.iter().map(|a| (a.id().id, a.bit_range())).collect();
    assert_eq!(ranges, vec![(1, 0..32), (2, 0..4), (4, 8..16), (5, 16..32)]);
}

#[test]
fn explicit_range_moves_the_children() {
    let class = AttrClass::builder(Token::from(1))
        .child(field(2, Layout::Static(8)))
        .unwrap()
        .child(field(3, Layout::Static(8)))
        .unwrap()
        .build();
    let attrs = class.expand(&ByteSlice::new(), Some(16..40));
    let ranges: Vec<_> = attrs.iter().map(|a| a.bit_range()).collect();
    assert_eq!(ranges, vec![16..40, 16..24, 24..32]);
}

#[test]
fn dynamic_child_sized_by_earlier_sibling() {
    let class = AttrClass::builder(Token::from(1))
        .child(field(2, Layout::Static(8)))
        .unwrap()
        .child(field(3, Layout::Dynamic { sibling: 0, unit: 8 }))
        .unwrap()
        .child(field(4, Layout::Static(8)))
        .unwrap()
        .build();
    assert_eq!(class.bit_size(), 16);
    let data = ByteSlice::from_bytes(&[3, 0xa, 0xb, 0xc, 0xd]);
    let ranges: Vec<_> = class.expand(&data, None).iter().map(|a| a.bit_range()).collect();
    assert_eq!(ranges, vec![0..16, 0..8, 8..32, 32..40]);
    let ranges: Vec<_> = class.expand(&ByteSlice::new(), None).iter().map(|a| a.bit_range()).collect();
    assert_eq!(ranges, vec![0..16, 0..8, 8..16]);
}

#[test]
fn malformed_dynamic_children_are_refused() {
    let b = AttrClass::builder(Token::from(1));
    assert_eq!(b.child(field(2, Layout::Dynamic { sibling: 0, unit: 8 })).err(), Some(Error::Malformed));
    let b = AttrClass::builder(Token::from(1)).child(field(2, Layout::Padding(8))).unwrap();
    assert_eq!(b.child(field(3, Layout::Dynamic { sibling: 0, unit: 8 })).err(), Some(Error::Malformed));
    let b = AttrClass::builder(Token::from(1)).child(field(2, Layout::Static(usize::MAX))).unwrap();
    assert_eq!(b.child(field(3, Layout::Static(1))).err(), Some(Error::Malformed));
}

fn layer_over(bytes: &[u8]) -> Layer {
    let header = AttrClass::builder(Token::from(1))
        .child(field(2, Layout::Static(8)))
        .unwrap()
        .alias(Token::from(9), Token::from(2))
        .build();
    Layer::new(Fixed::new(LayerClass::new(header)), ByteSlice::from_bytes(bytes))
}

#[test]
fn bound_range_shows_in_bits() {
    let mut layer = layer_over(&[1, 2, 3, 4]);
    let class = Fixed::new(AttrClass::builder(Token::from(5)).cast(Cast::UInt16BE).build());
    layer.add_attr(class, 1..3);
    let attrs = layer.attrs();
    assert_eq!(attrs.len(), 3);
    assert_eq!(attrs[0].id(), Token::from(1));
    assert_eq!(attrs[1].id(), Token::from(2));
    assert_eq!(attrs[2].bit_range(), 8..24);
    assert_eq!(attrs[2].range(), 1..3);
    assert_eq!(attrs[2].id(), Token::from(5));
}

#[test]
fn attrs_are_stable_between_bindings() {
    let mut layer = layer_over(&[1, 2, 3, 4]);
    let class = Fixed::new(AttrClass::builder(Token::from(5)).build());
    layer.add_attr(class.clone(), 0..2);
    layer.add_attr(class, 2..4);
    let first = layer.attrs();
    let second = layer.attrs();
    assert_eq!(first, second);
    layer.add_payload(Payload::new(ByteSlice::new(), Token::from(6)));
    assert_eq!(layer.attrs(), first);
}

#[test]
fn alias_and_canonical_find_the_same_attr() {
    let layer = layer_over(&[1, 2, 3, 4]);
    let by_alias = layer.attr(Token::from(9));
    assert!(by_alias.is_some());
    assert_eq!(by_alias, layer.attr(Token::from(2)));
    assert_eq!(layer.attr(Token::from(1)).unwrap().bit_range(), 0..8);
    assert_eq!(layer.attr(Token::from(77)), None);
}

#[test]
fn header_match_comes_before_bound_match() {
    let mut layer = layer_over(&[1, 2, 3, 4]);
    let class = Fixed::new(AttrClass::builder(Token::from(2)).build());
    layer.add_attr(class, 2..3);
    assert_eq!(layer.attr(Token::from(2)).unwrap().bit_range(), 0..8);
    assert_eq!(layer.attrs()[0].bit_range(), 0..8);
    assert_eq!(layer.attrs()[2].bit_range(), 16..24);
}

struct Probe(Rc<Cell<u32>>);

impl Drop for Probe {
    fn drop(&mut self) {
        self.0.set(self.0.get() + 1);
    }
}

#[test]
fn shared_handle_is_released_once() {
    let released = Rc::new(Cell::new(0));
    let first = Fixed::new(Probe(released.clone()));
    let mut clones: Vec<Fixed<Probe>> = (0..4).map(|_| first.clone()).collect();
    drop(first);
    let last = clones.pop().unwrap();
    drop(clones);
    assert_eq!(released.get(), 0);
    assert_eq!(last.get().0.get(), 0);
    drop(last);
    assert_eq!(released.get(), 1);
}

#[test]
fn exclusive_handle_moves_its_value() {
    let h = MutFixed::new(vec![1, 2, 3]);
    assert_eq!(h.get().len(), 3);
    assert_eq!(h.into_inner(), vec![1, 2, 3]);
}

#[test]
fn field_names() {
    assert_eq!(field_name("", "src_addr"), "Src Addr");
    assert_eq!(field_name("Source", "src_addr"), "Source");
    assert_eq!(field_segment("src_addr"), Some("srcAddr".to_string()));
    assert_eq!(field_segment("_self"), None);
    assert!(is_self_ident("_self"));
    assert!(!is_self_ident("_selfx"));
}

#[test]
fn class_accessors() {
    let mut reg = TokenRegistry::new();
    let id = reg.token("x.y");
    let c = AttrClass::builder(id)
        .name("Why")
        .description("a field")
        .cast(Cast::UInt8)
        .bit_size(8)
        .build();
    assert_eq!(c.id(), id);
    assert_eq!(c.name(), "Why");
    assert_eq!(c.description(), "a field");
    assert_eq!(c.cast(), Cast::UInt8);
    assert_eq!(c.bit_size(), 8);
    assert!(c.children().is_empty());
    assert!(c.aliases().is_empty());
}

#[test]
fn class_registration_by_path() {
    let mut table = ClassRegistry::new();
    let a = Fixed::new(AttrClass::builder(Token::from(3)).cast(Cast::UInt8).bit_size(8).build());
    let same = Fixed::new(AttrClass::builder(Token::from(3)).cast(Cast::UInt8).bit_size(8).build());
    let other = Fixed::new(AttrClass::builder(Token::from(3)).cast(Cast::UInt16BE).bit_size(16).build());
    assert_eq!(table.register(a), Ok(()));
    assert_eq!(table.register(same), Ok(()));
    assert_eq!(table.register(other), Err(Error::Malformed));
    assert_eq!(table.get(Token::from(3)).unwrap().get().cast(), Cast::UInt8);
    assert_eq!(table.get(Token::from(4)).err(), Some(Error::Lookup));
}

#[test]
fn structural_identity() {
    let a = AttrClass::builder(Token::from(3)).name("A").alias(Token::from(8), Token::from(3)).build();
    let b = AttrClass::builder(Token::from(3)).name("A").alias(Token::from(8), Token::from(3)).build();
    let c = AttrClass::builder(Token::from(3)).name("B").alias(Token::from(8), Token::from(3)).build();
    assert!(a.same_as(&b));
    assert!(!a.same_as(&c));
}

#[test]
fn alias_of_a_bound_class() {
    let mut layer = layer_over(&[1, 2, 3, 4]);
    let class = Fixed::new(AttrClass::builder(Token::from(5)).alias(Token::from(20), Token::from(5)).build());
    assert_eq!(layer.attr(Token::from(20)), None);
    layer.add_attr(class, 1..3);
    let by_alias = layer.attr(Token::from(20));
    assert!(by_alias.is_some());
    assert_eq!(by_alias, layer.attr(Token::from(5)));
    assert_eq!(by_alias.unwrap().bit_range(), 8..24);
}
