//! Attribute descriptors and their expansion into bound attributes.

use crate::cast::{cast_value, decode_as, result_view, Cast, Value, Variant};
use crate::error::Error;
use crate::fixed::Fixed;
use crate::slice::ByteSlice;
use crate::token::{Token, TokenRegistry};
use vstd::string::StringSliceAdditionalSpecFns;
use std::ops::Range;
use vstd::prelude::*;

verus! {

/// An attribute bound to the bit range `[start, end)` of one layer's data.
#[derive(Clone, Copy, Debug, PartialEq, Eq, Structural)]
pub struct Attr {
    pub id: Token,
    pub typ: Token,
    pub cast: Cast,
    pub start: usize,
    pub end: usize,
}

impl Attr {
    /// The first byte that the bit range touches.
    pub open spec fn byte_start(self) -> nat {
        (self.start / 8) as nat
    }

    /// One past the last byte that the bit range touches.
    pub open spec fn byte_end(self) -> nat {
        if self.end % 8 == 0 {
            (self.end / 8) as nat
        } else {
            (self.end / 8 + 1) as nat
        }
    }

    /// Whether the bit range is ordered and lies within `len` bytes.
    pub open spec fn in_bounds(self, len: nat) -> bool {
        self.start <= self.end && self.byte_end() <= len
    }

    /// An attribute over the bit range `bits`.
    pub fn new(id: Token, typ: Token, cast: Cast, bits: Range<usize>) -> (r: Attr)
        ensures
            r == (Attr { id, typ, cast, start: bits.start, end: bits.end }),
    {
        Attr { id, typ, cast, start: bits.start, end: bits.end }
    }

    /// The path token of the attribute's class.
    pub fn id(&self) -> (r: Token)
        ensures
            r == self.id,
    {
        self.id
    }

    /// The type token of the attribute's class.
    pub fn typ(&self) -> (r: Token)
        ensures
            r == self.typ,
    {
        self.typ
    }

    /// The bit range.
    pub fn bit_range(&self) -> (r: Range<usize>)
        ensures
            r.start == self.start,
            r.end == self.end,
    {
        self.start..self.end
    }

    /// The range of the bytes that the bit range touches.
    pub fn range(&self) -> (r: Range<usize>)
        ensures
            r.start == self.byte_start(),
            r.end == self.byte_end(),
    {
        let end = if self.end % 8 == 0 {
            self.end / 8
        } else {
            self.end / 8 + 1
        };
        (self.start / 8)..end
    }

    /// Whether the attribute answers to `id`.
    pub fn is_match(&self, id: Token) -> (r: bool)
        ensures
            r == (self.id == id),
    {
        self.id == id
    }

    /// The bytes of the attribute within `data`.
    pub fn bytes(&self, data: &ByteSlice) -> (r: Result<ByteSlice, Error>)
        ensures
            r is Ok <==> self.in_bounds(data@.len()),
            r matches Ok(b) ==> b@ == data@.subrange(
                self.byte_start() as int,
                self.byte_end() as int,
            ),
            r matches Err(e) ==> e == Error::Range,
    {
        if self.start > self.end {
            return Err(Error::Range);
        }
        data.try_get(self.range())
    }

    /// The value of the attribute, read from `data` by its own cast.
    pub fn try_get(&self, data: &ByteSlice) -> (r: Result<Variant, Error>)
        ensures
            result_view(r) == cast_value(self.cast, *self, data@),
    {
        decode_as(self.cast, self, data)
    }
}

/// How a child field is laid out within its parent.
#[derive(Clone, Copy, Debug, PartialEq, Eq, Structural)]
pub enum Layout {
    /// A fixed number of bits.
    Static(usize),
    /// A fixed number of bits that yields no attribute.
    Padding(usize),
    /// `unit` bits for each unit of the unsigned value of the earlier child
    /// at index `sibling`; absent where that value is not known.
    Dynamic { sibling: usize, unit: usize },
}

/// A child field of a composite attribute class.
#[derive(Clone, Copy, Debug, PartialEq, Eq, Structural)]
pub struct Field {
    pub id: Token,
    pub typ: Token,
    pub cast: Cast,
    pub layout: Layout,
}

impl Field {
    /// A child of `bits` fixed bits.
    pub fn fixed(id: Token, typ: Token, cast: Cast, bits: usize) -> (r: Field)
        ensures
            r == (Field { id, typ, cast, layout: Layout::Static(bits) }),
    {
        Field { id, typ, cast, layout: Layout::Static(bits) }
    }
}

/// Whether `f` is a child of `bits` fixed bits whose path is `path` in
/// `reg`, of no type, read by `cast`.
pub open spec fn plain_field(reg: TokenRegistry, f: Field, path: &str, cast: Cast, bits: usize) -> bool {
    &&& reg.denotes(f.id, path.spec_bytes())
    &&& f.typ.id == 0
    &&& f.cast == cast
    &&& f.layout == Layout::Static(bits)
}

/// Whether `f` is a child of `bits` fixed bits whose path is `path` and
/// whose type is `typ` in `reg`, read by `cast`.
pub open spec fn typed_field(
    reg: TokenRegistry,
    f: Field,
    path: &str,
    typ: &str,
    cast: Cast,
    bits: usize,
) -> bool {
    &&& reg.denotes(f.id, path.spec_bytes())
    &&& reg.denotes(f.typ, typ.spec_bytes())
    &&& f.cast == cast
    &&& f.layout == Layout::Static(bits)
}

/// What an attribute class is, mathematically.
pub struct ClassView {
    pub id: Token,
    pub typ: Token,
    pub name: Seq<char>,
    pub description: Seq<char>,
    pub cast: Cast,
    pub bit_size: usize,
    pub children: Seq<Field>,
    pub aliases: Seq<(Token, Token)>,
}

/// The state of the expansion fold after some of the children: the next bit
/// offset, the unsigned value of each child so far, and the attributes so far.
pub struct Expansion {
    pub offset: nat,
    pub values: Seq<Option<u64>>,
    pub attrs: Seq<Attr>,
}

/// The size in bits of `f`, given the values of the children before it.
pub open spec fn field_size(f: Field, values: Seq<Option<u64>>) -> Option<nat> {
    match f.layout {
        Layout::Static(b) => Some(b as nat),
        Layout::Padding(b) => Some(b as nat),
        Layout::Dynamic { sibling, unit } => if sibling < values.len() && values[sibling as int] is Some {
            Some((values[sibling as int].unwrap() * unit) as nat)
        } else {
            None
        },
    }
}

/// The unsigned value of `a` in `data`, where it has one.
pub open spec fn uint_value(a: Attr, data: Seq<u8>) -> Option<u64> {
    match cast_value(a.cast, a, data) {
        Ok(Value::Int(v)) => if 0 <= v <= u64::MAX {
            Some(v as u64)
        } else {
            None
        },
        _ => None,
    }
}

/// One step of the fold: child `f` placed at the current offset.
pub open spec fn expand_step(s: Expansion, f: Field, data: Seq<u8>) -> Expansion {
    match field_size(f, s.values) {
        Some(size) => if s.offset + size > usize::MAX {
            Expansion { offset: s.offset, values: s.values.push(None), attrs: s.attrs }
        } else if f.layout is Padding {
            Expansion { offset: s.offset + size, values: s.values.push(None), attrs: s.attrs }
        } else {
            let a = Attr {
                id: f.id,
                typ: f.typ,
                cast: f.cast,
                start: s.offset as usize,
                end: (s.offset + size) as usize,
            };
            Expansion {
                offset: s.offset + size,
                values: s.values.push(uint_value(a, data)),
                attrs: s.attrs.push(a),
            }
        },
        None => Expansion { offset: s.offset, values: s.values.push(None), attrs: s.attrs },
    }
}

/// The fold over the first `n` children, starting at bit `start`.
pub open spec fn expand_fields(fields: Seq<Field>, data: Seq<u8>, start: nat, n: nat) -> Expansion
    decreases n,
{
    if n == 0 {
        Expansion { offset: start, values: Seq::empty(), attrs: Seq::empty() }
    } else {
        expand_step(expand_fields(fields, data, start, (n - 1) as nat), fields[n - 1], data)
    }
}

/// The attributes of class `c` expanded over the bits `[start, end)` of
/// `data`: the class itself, then its children from left to right.
pub open spec fn expansion(c: ClassView, data: Seq<u8>, start: usize, end: usize) -> Seq<Attr> {
    seq![Attr { id: c.id, typ: c.typ, cast: c.cast, start, end }].add(
        expand_fields(c.children, data, start as nat, c.children.len()).attrs,
    )
}

/// Whether every dynamic child of `fields` refers to an earlier child that
/// is not padding.
pub open spec fn siblings_resolved(fields: Seq<Field>) -> bool {
    forall|i: int|
        0 <= i < fields.len() ==> match #[trigger] fields[i].layout {
            Layout::Dynamic { sibling, unit } => sibling < i && !(fields[sibling as int].layout is Padding),
            _ => true,
        }
}

/// The total size of the children of fixed size.
pub open spec fn static_size(fields: Seq<Field>) -> nat
    decreases fields.len(),
{
    if fields.len() == 0 {
        0
    } else {
        static_size(fields.drop_last()) + fixed_bits(fields.last())
    }
}

/// An attribute class: a named, typed field and its child fields.
#[derive(Debug)]
pub struct AttrClass {
    id: Token,
    typ: Token,
    name: String,
    description: String,
    cast: Cast,
    bit_size: usize,
    children: Vec<Field>,
    aliases: Vec<(Token, Token)>,
}

impl View for AttrClass {
    type V = ClassView;

    closed spec fn view(&self) -> ClassView {
        ClassView {
            id: self.id,
            typ: self.typ,
            name: self.name@,
            description: self.description@,
            cast: self.cast,
            bit_size: self.bit_size,
            children: self.children@,
            aliases: self.aliases@,
        }
    }
}

/// The size of a child of fixed size; `0` for a dynamic one.
pub open spec fn fixed_bits(f: Field) -> nat {
    match f.layout {
        Layout::Static(b) => b as nat,
        Layout::Padding(b) => b as nat,
        Layout::Dynamic { .. } => 0,
    }
}

impl ClassView {
    /// The span of the children of fixed size.
    pub open spec fn span(self) -> nat {
        if self.children.len() == 0 {
            0
        } else {
            self.bit_size as nat
        }
    }

    /// Dynamic children refer only to earlier siblings, and a composite
    /// class spans exactly its children of fixed size.
    pub open spec fn wf(self) -> bool {
        &&& siblings_resolved(self.children)
        &&& self.children.len() > 0 ==> self.bit_size == static_size(self.children)
    }
}

/// A builder for an attribute class.
pub struct AttrClassBuilder {
    class: AttrClass,
}

impl View for AttrClassBuilder {
    type V = ClassView;

    closed spec fn view(&self) -> ClassView {
        self.class@
    }
}

impl AttrClass {
    /// A builder for a leaf class with path `id`, no type, no value and no
    /// size.
    pub fn builder(id: Token) -> (r: AttrClassBuilder)
        ensures
            r@.id == id,
            r@.typ.id == 0,
            r@.name == Seq::<char>::empty(),
            r@.description == Seq::<char>::empty(),
            r@.cast == Cast::Nil,
            r@.bit_size == 0,
            r@.children == Seq::<Field>::empty(),
            r@.aliases == Seq::<(Token, Token)>::empty(),
            r@.wf(),
    {
        AttrClassBuilder {
            class: AttrClass {
                id,
                typ: Token::null(),
                name: String::new(),
                description: String::new(),
                cast: Cast::Nil,
                bit_size: 0,
                children: Vec::new(),
                aliases: Vec::new(),
            },
        }
    }

    /// The path token.
    pub fn id(&self) -> (r: Token)
        ensures
            r == self@.id,
    {
        self.id
    }

    /// The type token.
    pub fn typ(&self) -> (r: Token)
        ensures
            r == self@.typ,
    {
        self.typ
    }

    /// The human-readable name.
    pub fn name(&self) -> (r: &str)
        ensures
            r@ == self@.name,
    {
        self.name.as_str()
    }

    /// The description.
    pub fn description(&self) -> (r: &str)
        ensures
            r@ == self@.description,
    {
        self.description.as_str()
    }

    /// How the value is read.
    pub fn cast(&self) -> (r: Cast)
        ensures
            r == self@.cast,
    {
        self.cast
    }

    /// The declared size in bits.
    pub fn bit_size(&self) -> (r: usize)
        ensures
            r == self@.bit_size,
    {
        self.bit_size
    }

    /// The child fields.
    pub fn children(&self) -> (r: &Vec<Field>)
        ensures
            r@ == self@.children,
    {
        &self.children
    }

    /// The alias pairs, each an alternate path and its canonical path.
    pub fn aliases(&self) -> (r: &Vec<(Token, Token)>)
        ensures
            r@ == self@.aliases,
    {
        &self.aliases
    }
}

impl AttrClassBuilder {
    /// Sets the type token.
    pub fn typ(self, typ: Token) -> (r: AttrClassBuilder)
        ensures
            r@ == (ClassView { typ, ..self@ }),
    {
        let mut b = self;
        b.class.typ = typ;
        b
    }

    /// Sets the human-readable name.
    pub fn name(self, name: &str) -> (r: AttrClassBuilder)
        ensures
            r@ == (ClassView { name: name@, ..self@ }),
    {
        let mut b = self;
        b.class.name = name.to_owned();
        b
    }

    /// Sets the description.
    pub fn description(self, description: &str) -> (r: AttrClassBuilder)
        ensures
            r@ == (ClassView { description: description@, ..self@ }),
    {
        let mut b = self;
        b.class.description = description.to_owned();
        b
    }

    /// Sets how the value is read.
    pub fn cast(self, cast: Cast) -> (r: AttrClassBuilder)
        ensures
            r@ == (ClassView { cast, ..self@ }),
    {
        let mut b = self;
        b.class.cast = cast;
        b
    }

    /// Sets the size in bits of a class without children.
    pub fn bit_size(self, bits: usize) -> (r: AttrClassBuilder)
        requires
            self@.children.len() == 0,
        ensures
            r@ == (ClassView { bit_size: bits, ..self@ }),
    {
        let mut b = self;
        b.class.bit_size = bits;
        b
    }

    /// Adds an alias: `alias` is then an alternate path for `canonical`.
    pub fn alias(self, alias: Token, canonical: Token) -> (r: AttrClassBuilder)
        ensures
            r@ == (ClassView { aliases: self@.aliases.push((alias, canonical)), ..self@ }),
    {
        let mut b = self;
        b.class.aliases.push((alias, canonical));
        b
    }

    /// Appends a child field after the present ones; the class then spans
    /// its children of fixed size.
    ///
    /// A dynamic child whose sibling is not an earlier child other than
    /// padding, or a total size beyond `usize::MAX`, is a malformed
    /// descriptor.
    pub fn child(self, field: Field) -> (r: Result<AttrClassBuilder, Error>)
        requires
            self@.wf(),
        ensures
            r is Ok <==> (match field.layout {
                Layout::Dynamic { sibling, unit } => sibling < self@.children.len()
                    && !(self@.children[sibling as int].layout is Padding),
                _ => true,
            } && self@.span() + fixed_bits(field) <= usize::MAX),
            r matches Ok(b) ==> b@ == (ClassView {
                children: self@.children.push(field),
                bit_size: (self@.span() + fixed_bits(field)) as usize,
                ..self@
            }) && b@.wf(),
            r matches Err(e) ==> e == Error::Malformed,
    {
        let n = self.class.children.len();
        let base: usize = if n == 0 {
            0
        } else {
            self.class.bit_size
        };
        let size: usize = match field.layout {
            Layout::Static(bits) => bits,
            Layout::Padding(bits) => bits,
            Layout::Dynamic { sibling, unit } => {
                if sibling >= n {
                    return Err(Error::Malformed);
                }
                if let Layout::Padding(_) = self.class.children[sibling].layout {
                    return Err(Error::Malformed);
                }
                0
            },
        };
        proof {
            let c = self@.children.push(field);
            assert(c.drop_last() =~= self@.children);
            assert(c.last() == field);
            assert(static_size(c) == static_size(self@.children) + size);
            if n == 0 {
                assert(static_size(self@.children) == 0);
            }
        }
        if size > usize::MAX - base {
            return Err(Error::Malformed);
        }
        let mut b = self;
        b.class.children.push(field);
        b.class.bit_size = base + size;
        proof {
            let c = b@.children;
            assert forall|i: int| 0 <= i < c.len() implies match #[trigger] c[i].layout {
                Layout::Dynamic { sibling, unit } => sibling < i && !(c[sibling as int].layout is Padding),
                _ => true,
            } by {
                if i < n {
                    assert(c[i] == self@.children[i]);
                }
            }
        }
        Ok(b)
    }

    /// The class.
    pub fn build(self) -> (r: AttrClass)
        ensures
            r@ == self@,
    {
        self.class
    }
}

impl AttrClass {
    /// The unsigned value of `a` in `data`, where it has one.
    fn uint_of_attr(a: &Attr, data: &ByteSlice) -> (r: Option<u64>)
        ensures
            r == uint_value(*a, data@),
    {
        match a.try_get(data) {
            Ok(Variant::UInt64(v)) => Some(v),
            Ok(Variant::Int64(v)) => if v >= 0 {
                Some(v as u64)
            } else {
                None
            },
            _ => None,
        }
    }

    /// Expands the class over `range` of `data`, or over its own span
    /// `[0, bit_size)` where no range is given: the class itself first, then
    /// each child from left to right, each placed where the one before it
    /// ends.
    ///
    /// Padding advances the offset and yields nothing; a dynamic child takes
    /// its size from an earlier sibling's value and is left out where that
    /// value is unknown; a child whose end would pass `usize::MAX` is left out.
    pub fn expand(&self, data: &ByteSlice, range: Option<Range<usize>>) -> (r: Vec<Attr>)
        ensures
            r@ == (match range {
                Some(b) => expansion(self@, data@, b.start, b.end),
                None => expansion(self@, data@, 0, self@.bit_size),
            }),
    {
        let (start, end) = match range {
            Some(b) => (b.start, b.end),
            None => (0, self.bit_size),
        };
        let root = Attr { id: self.id, typ: self.typ, cast: self.cast, start, end };
        let mut out: Vec<Attr> = Vec::new();
        out.push(root);
        let mut values: Vec<Option<u64>> = Vec::new();
        let mut offset: usize = start;
        let n = self.children.len();
        let mut i: usize = 0;
        while i < n
            invariant
                n == self@.children.len(),
                0 <= i <= n,
                offset == expand_fields(self@.children, data@, start as nat, i as nat).offset,
                values@ == expand_fields(self@.children, data@, start as nat, i as nat).values,
                out@ == seq![root].add(
                    expand_fields(self@.children, data@, start as nat, i as nat).attrs,
                ),
            decreases n - i,
        {
            let f = self.children[i];
            let size: Option<u64> = match f.layout {
                Layout::Static(bits) => Some(bits as u64),
                Layout::Padding(bits) => Some(bits as u64),
                Layout::Dynamic { sibling, unit } => {
                    if sibling < values.len() {
                        match values[sibling] {
                            Some(v) => v.checked_mul(unit as u64),
                            None => None,
                        }
                    } else {
                        None
                    }
                },
            };
            let placed: Option<usize> = match size {
                Some(s) => if s <= (usize::MAX - offset) as u64 {
                    Some(s as usize)
                } else {
                    None
                },
                None => None,
            };
            match placed {
                Some(s) => {
                    if let Layout::Padding(_) = f.layout {
                        values.push(None);
                    } else {
                        let a = Attr { id: f.id, typ: f.typ, cast: f.cast, start: offset, end: offset + s };
                        values.push(AttrClass::uint_of_attr(&a, data));
                        out.push(a);
                    }
                    offset = offset + s;
                },
                None => {
                    values.push(None);
                },
            }
            proof {
                assert(out@ =~= seq![root].add(
                    expand_fields(self@.children, data@, start as nat, (i + 1) as nat).attrs,
                ));
            }
            i += 1;
        }
        out
    }
}

/// Whether `attrs` are the children `fields` laid end to end over
/// `[from, to)`: each child of fixed size covers its own bits in order,
/// padding leaves its bits uncovered, and nothing else is covered.
pub open spec fn tiles(fields: Seq<Field>, attrs: Seq<Attr>, from: nat, to: nat) -> bool
    decreases fields.len(),
{
    if fields.len() == 0 {
        attrs.len() == 0 && from == to
    } else {
        match fields.last().layout {
            Layout::Padding(b) => from + b <= to && tiles(
                fields.drop_last(),
                attrs,
                from,
                (to - b) as nat,
            ),
            Layout::Static(b) => {
                &&& from + b <= to
                &&& attrs.len() > 0
                &&& attrs.last().id == fields.last().id
                &&& attrs.last().start == to - b
                &&& attrs.last().end == to
                &&& tiles(fields.drop_last(), attrs.drop_last(), from, (to - b) as nat)
            },
            Layout::Dynamic { .. } => false,
        }
    }
}

/// Whether no child of `fields` is dynamic.
pub open spec fn all_static(fields: Seq<Field>) -> bool {
    forall|i: int| 0 <= i < fields.len() ==> !(#[trigger] fields[i].layout is Dynamic)
}

proof fn lemma_fold_tiles(fields: Seq<Field>, data: Seq<u8>, start: nat, n: nat)
    requires
        n <= fields.len(),
        all_static(fields),
        start + static_size(fields.take(n as int)) <= usize::MAX,
    ensures
        expand_fields(fields, data, start, n).offset == start + static_size(fields.take(n as int)),
        tiles(
            fields.take(n as int),
            expand_fields(fields, data, start, n).attrs,
            start,
            start + static_size(fields.take(n as int)),
        ),
    decreases n,
{
    let t = fields.take(n as int);
    if n == 0 {
        assert(t.len() == 0);
    } else {
        let p = fields.take(n - 1);
        assert(t.drop_last() =~= p);
        assert(t.last() == fields[n - 1]);
        assert(!(fields[n - 1].layout is Dynamic));
        lemma_fold_tiles(fields, data, start, (n - 1) as nat);
        let prev = expand_fields(fields, data, start, (n - 1) as nat);
        let cur = expand_fields(fields, data, start, n);
        assert(cur == expand_step(prev, fields[n - 1], data));
        match fields[n - 1].layout {
            Layout::Static(b) => {
                assert(cur.attrs.drop_last() =~= prev.attrs);
            },
            _ => {},
        }
    }
}

/// Expanding a composite class without dynamic children over its own span
/// yields the class itself over `[0, bit_size)`, followed by its children
/// laid end to end over exactly that span, with gaps only where padding
/// stands; a leaf class yields itself alone.
pub proof fn lemma_expand_tiles(c: ClassView, data: Seq<u8>)
    requires
        c.wf(),
        all_static(c.children),
    ensures
        expansion(c, data, 0, c.bit_size)[0] == (Attr {
            id: c.id,
            typ: c.typ,
            cast: c.cast,
            start: 0,
            end: c.bit_size,
        }),
        c.children.len() > 0 ==> tiles(
            c.children,
            expansion(c, data, 0, c.bit_size).drop_first(),
            0,
            c.bit_size as nat,
        ),
        c.children.len() == 0 ==> expansion(c, data, 0, c.bit_size).len() == 1,
{
    let n = c.children.len();
    assert(c.children.take(n as int) =~= c.children);
    if n > 0 {
        lemma_fold_tiles(c.children, data, 0, n);
    }
    let e = expansion(c, data, 0, c.bit_size);
    assert(e.drop_first() =~= expand_fields(c.children, data, 0, n).attrs);
}

impl AttrClass {
    /// Whether two classes are structurally identical.
    pub fn same_as(&self, other: &AttrClass) -> (r: bool)
        ensures
            r == (self@ == other@),
    {
        if self.id != other.id || self.typ != other.typ || self.cast != other.cast
            || self.bit_size != other.bit_size {
            return false;
        }
        if self.name != other.name || self.description != other.description {
            return false;
        }
        let n = self.children.len();
        if n != other.children.len() {
            return false;
        }
        let mut i: usize = 0;
        while i < n
            invariant
                n == self@.children.len() == other@.children.len(),
                0 <= i <= n,
                forall|k: int| 0 <= k < i ==> self@.children[k] == other@.children[k],
            decreases n - i,
        {
            if self.children[i] != other.children[i] {
                return false;
            }
            i += 1;
        }
        let m = self.aliases.len();
        if m != other.aliases.len() {
            return false;
        }
        let mut j: usize = 0;
        while j < m
            invariant
                m == self@.aliases.len() == other@.aliases.len(),
                0 <= j <= m,
                forall|k: int| 0 <= k < j ==> self@.aliases[k] == other@.aliases[k],
            decreases m - j,
        {
            if self.aliases[j].0 != other.aliases[j].0 || self.aliases[j].1 != other.aliases[j].1 {
                return false;
            }
            j += 1;
        }
        assert(self@.children =~= other@.children);
        assert(self@.aliases =~= other@.aliases);
        true
    }
}

/// The table of attribute classes, one per path.
pub struct ClassRegistry {
    classes: Vec<Fixed<AttrClass>>,
}

impl View for ClassRegistry {
    type V = Seq<ClassView>;

    closed spec fn view(&self) -> Seq<ClassView> {
        self.classes@.map_values(|c: Fixed<AttrClass>| c@@)
    }
}

/// The index of the class of path `id` in `classes`.
pub open spec fn class_index(classes: Seq<ClassView>, id: Token) -> Option<int> {
    if exists|i: int| 0 <= i < classes.len() && #[trigger] classes[i].id == id {
        Some(choose|i: int| 0 <= i < classes.len() && #[trigger] classes[i].id == id)
    } else {
        None
    }
}

impl ClassRegistry {
    /// No two classes share a path.
    pub open spec fn wf(&self) -> bool {
        forall|i: int, j: int|
            0 <= i < j < self@.len() ==> #[trigger] self@[i].id != #[trigger] self@[j].id
    }

    /// An empty table.
    pub fn new() -> (r: ClassRegistry)
        ensures
            r.wf(),
            r@ == Seq::<ClassView>::empty(),
    {
        let r = ClassRegistry { classes: Vec::new() };
        assert(r@ =~= Seq::<ClassView>::empty());
        r
    }

    /// The position of the class of path `id`.
    fn position(&self, id: Token) -> (r: Option<usize>)
        requires
            self.wf(),
        ensures
            r is None ==> class_index(self@, id) is None,
            r matches Some(i) ==> i < self@.len() && class_index(self@, id) == Some(i as int),
    {
        let n = self.classes.len();
        let mut i: usize = 0;
        while i < n
            invariant
                n == self@.len(),
                self.wf(),
                0 <= i <= n,
                forall|k: int| 0 <= k < i ==> self@[k].id != id,
            decreases n - i,
        {
            if self.classes[i].get().id() == id {
                assert(self@[i as int].id == id);
                proof {
                    let j = choose|j: int| 0 <= j < self@.len() && #[trigger] self@[j].id == id;
                    if j < i {
                        assert(self@[j].id != self@[i as int].id);
                    } else if j > i {
                        assert(self@[i as int].id != self@[j].id);
                    }
                }
                return Some(i);
            }
            i += 1;
        }
        None
    }

    /// Registers `class` under its path. A path seen before must come with a
    /// structurally identical class, and is then left as it was; a different
    /// class under it is a malformed descriptor.
    pub fn register(&mut self, class: Fixed<AttrClass>) -> (r: Result<(), Error>)
        requires
            old(self).wf(),
        ensures
            final(self).wf(),
            class_index(old(self)@, class@@.id) matches Some(i) ==> {
                &&& final(self)@ == old(self)@
                &&& old(self)@[i] == class@@ ==> r is Ok
                &&& old(self)@[i] != class@@ ==> r == Err::<(), Error>(Error::Malformed)
            },
            class_index(old(self)@, class@@.id) is None ==> {
                &&& r is Ok
                &&& final(self)@ == old(self)@.push(class@@)
            },
    {
        match self.position(class.get().id()) {
            Some(i) => {
                if self.classes[i].get().same_as(class.get()) {
                    Ok(())
                } else {
                    Err(Error::Malformed)
                }
            },
            None => {
                let ghost v = class@@;
                self.classes.push(class);
                assert(self@ =~= old(self)@.push(v));
                Ok(())
            },
        }
    }

    /// The class of path `id`, or a lookup error.
    pub fn get(&self, id: Token) -> (r: Result<Fixed<AttrClass>, Error>)
        requires
            self.wf(),
        ensures
            class_index(self@, id) is None ==> r == Err::<Fixed<AttrClass>, Error>(Error::Lookup),
            class_index(self@, id) matches Some(i) ==> (r matches Ok(c) && c@@ == self@[i]),
    {
        match self.position(id) {
            Some(i) => Ok(self.classes[i].clone()),
            None => Err(Error::Lookup),
        }
    }
}

} // verus!
