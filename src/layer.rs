//! Decoded layers, their payloads and the per-packet layer stack.

use crate::attr::{expansion, Attr, AttrClass, ClassView};
use crate::fixed::{Fixed, MutFixed};
use crate::slice::ByteSlice;
use crate::token::Token;
use std::ops::Range;
use vstd::prelude::*;

verus! {

/// What a payload is, mathematically.
pub struct PayloadView {
    pub data: Seq<u8>,
    pub id: Token,
    pub typ: Token,
}

/// A tagged byte range left for whichever decoder claims its type next.
#[derive(Debug)]
pub struct Payload {
    data: ByteSlice,
    id: Token,
    typ: Token,
}

impl View for Payload {
    type V = PayloadView;

    closed spec fn view(&self) -> PayloadView {
        PayloadView { data: self.data@, id: self.id, typ: self.typ }
    }
}

impl Payload {
    /// A payload of no particular type.
    pub fn new(data: ByteSlice, id: Token) -> (r: Payload)
        ensures
            r@ == (PayloadView { data: data@, id, typ: Token { id: 0 } }),
    {
        Payload::with_typ(data, id, Token::null())
    }

    /// A payload of type `typ`.
    pub fn with_typ(data: ByteSlice, id: Token, typ: Token) -> (r: Payload)
        ensures
            r@ == (PayloadView { data: data@, id, typ }),
    {
        Payload { data, id, typ }
    }

    /// The ID token.
    pub fn id(&self) -> (r: Token)
        ensures
            r == self@.id,
    {
        self.id
    }

    /// The type token.
    pub fn typ(&self) -> (r: Token)
        ensures
            r == self@.typ,
    {
        self.typ
    }

    /// The bytes, as a view that shares them.
    pub fn data(&self) -> (r: ByteSlice)
        ensures
            r@ == self@.data,
    {
        self.data.clone()
    }
}

impl Clone for Payload {
    fn clone(&self) -> (r: Payload)
        ensures
            r@ == self@,
    {
        Payload { data: self.data.clone(), id: self.id, typ: self.typ }
    }
}

/// A layer class: the descriptor of a layer's header.
#[derive(Debug)]
pub struct LayerClass {
    header: Fixed<AttrClass>,
}

impl View for LayerClass {
    type V = ClassView;

    closed spec fn view(&self) -> ClassView {
        self.header@@
    }
}

/// A builder for a layer class.
pub struct LayerClassBuilder {
    header: Fixed<AttrClass>,
}

impl View for LayerClassBuilder {
    type V = ClassView;

    closed spec fn view(&self) -> ClassView {
        self.header@@
    }
}

impl LayerClassBuilder {
    /// Builds the layer class.
    pub fn build(self) -> (r: LayerClass)
        ensures
            r@ == self@,
    {
        LayerClass { header: self.header }
    }
}

impl LayerClass {
    /// A builder for a layer class whose header is `header`.
    pub fn builder(header: Fixed<AttrClass>) -> (r: LayerClassBuilder)
        ensures
            r@ == header@@,
    {
        LayerClassBuilder { header }
    }

    /// A layer class whose header is `header`.
    pub fn new(header: AttrClass) -> (r: LayerClass)
        ensures
            r@ == header@,
    {
        LayerClass { header: Fixed::new(header) }
    }

    /// The ID token: that of the header.
    pub fn id(&self) -> (r: Token)
        ensures
            r == self@.id,
    {
        self.header.get().id()
    }

    /// The header class.
    pub fn header(&self) -> (r: &Fixed<AttrClass>)
        ensures
            r@@ == self@,
    {
        &self.header
    }
}

/// An attribute class bound to the bit range `[start, end)`, mathematically.
pub struct Binding {
    pub class: ClassView,
    pub start: usize,
    pub end: usize,
}

#[derive(Debug)]
struct BoundAttr {
    attr: Fixed<AttrClass>,
    start: usize,
    end: usize,
}

/// What a layer is, mathematically.
pub struct LayerView {
    pub header: ClassView,
    pub data: Seq<u8>,
    pub bound: Seq<Binding>,
    pub payloads: Seq<PayloadView>,
}

/// The attributes of the bindings `bound`, each expanded over its range, in
/// the order of binding.
pub open spec fn bound_attrs(bound: Seq<Binding>, data: Seq<u8>) -> Seq<Attr>
    decreases bound.len(),
{
    if bound.len() == 0 {
        Seq::empty()
    } else {
        bound_attrs(bound.drop_last(), data).add(
            expansion(bound.last().class, data, bound.last().start, bound.last().end),
        )
    }
}

/// The alias pairs of the classes of `bound`, in the order of binding.
pub open spec fn bound_aliases(bound: Seq<Binding>) -> Seq<(Token, Token)>
    decreases bound.len(),
{
    if bound.len() == 0 {
        Seq::empty()
    } else {
        bound_aliases(bound.drop_last()).add(bound.last().class.aliases)
    }
}

/// Appends the pairs of `src` to `out`.
fn extend_pairs(out: &mut Vec<(Token, Token)>, src: &Vec<(Token, Token)>)
    ensures
        final(out)@ == old(out)@.add(src@),
{
    let ghost start = out@;
    let mut i: usize = 0;
    while i < src.len()
        invariant
            0 <= i <= src@.len(),
            out@ == start.add(src@.subrange(0, i as int)),
        decreases src@.len() - i,
    {
        out.push(src[i]);
        assert(out@ =~= start.add(src@.subrange(0, i + 1)));
        i += 1;
    }
    assert(src@.subrange(0, src@.len() as int) =~= src@);
}

/// The canonical path of `id`: that of the first alias pair for it, or `id`
/// itself.
pub open spec fn resolve(aliases: Seq<(Token, Token)>, id: Token) -> Token
    decreases aliases.len(),
{
    if aliases.len() == 0 {
        id
    } else if aliases[0].0 == id {
        aliases[0].1
    } else {
        resolve(aliases.drop_first(), id)
    }
}

/// The first attribute of `attrs` whose path is `id`.
pub open spec fn first_match(attrs: Seq<Attr>, id: Token) -> Option<Attr>
    decreases attrs.len(),
{
    if attrs.len() == 0 {
        None
    } else if attrs[0].id == id {
        Some(attrs[0])
    } else {
        first_match(attrs.drop_first(), id)
    }
}

impl LayerView {
    /// The header's attributes, each at its own declared range.
    pub open spec fn header_attrs(self) -> Seq<Attr> {
        expansion(self.header, self.data, 0, self.header.bit_size)
    }

    /// The attributes of the layer: the header's, each at its declared
    /// range, followed by the bound ones, in the order of binding.
    pub open spec fn attrs(self) -> Seq<Attr> {
        self.header_attrs().add(bound_attrs(self.bound, self.data))
    }

    /// The alias pairs of the layer: the header's, then those of each bound
    /// class in the order of binding.
    pub open spec fn aliases(self) -> Seq<(Token, Token)> {
        self.header.aliases.add(bound_aliases(self.bound))
    }

    /// What a lookup of `id` finds: the first attribute, header group before
    /// bound group, whose path is the canonical path of `id`.
    pub open spec fn lookup(self, id: Token) -> Option<Attr> {
        first_match(self.attrs(), resolve(self.aliases(), id))
    }
}

/// A layer: its class, its bytes, the attributes bound to it and its
/// payloads.
#[derive(Debug)]
pub struct Layer {
    class: Fixed<LayerClass>,
    data: ByteSlice,
    attrs: Vec<BoundAttr>,
    payloads: Vec<Payload>,
}

impl View for Layer {
    type V = LayerView;

    closed spec fn view(&self) -> LayerView {
        LayerView {
            header: self.class@@,
            data: self.data@,
            bound: self.attrs@.map_values(
                |b: BoundAttr| Binding { class: b.attr@@, start: b.start, end: b.end },
            ),
            payloads: self.payloads@.map_values(|p: Payload| p@),
        }
    }
}

impl Layer {
    /// A layer of class `class` over `data`, with nothing bound yet.
    pub fn new(class: Fixed<LayerClass>, data: ByteSlice) -> (r: Layer)
        ensures
            r@.header == class@@,
            r@.data == data@,
            r@.bound == Seq::<Binding>::empty(),
            r@.payloads == Seq::<PayloadView>::empty(),
    {
        let r = Layer { class, data, attrs: Vec::new(), payloads: Vec::new() };
        assert(r@.bound =~= Seq::<Binding>::empty());
        assert(r@.payloads =~= Seq::<PayloadView>::empty());
        r
    }

    /// The ID token: that of the header.
    pub fn id(&self) -> (r: Token)
        ensures
            r == self@.header.id,
    {
        self.class.get().id()
    }

    /// The bytes, as a view that shares them.
    pub fn data(&self) -> (r: ByteSlice)
        ensures
            r@ == self@.data,
    {
        self.data.clone()
    }

    /// The header class.
    pub fn header(&self) -> (r: &Fixed<AttrClass>)
        ensures
            r@@ == self@.header,
    {
        self.class.get().header()
    }

    /// The attributes of the layer, expanded afresh on each call: the
    /// header's, then those of each binding in turn.
    pub fn attrs(&self) -> (r: Vec<Attr>)
        ensures
            r@ == self@.attrs(),
    {
        let mut out = self.class.get().header().get().expand(&self.data, None);
        let n = self.attrs.len();
        let mut i: usize = 0;
        while i < n
            invariant
                n == self@.bound.len(),
                0 <= i <= n,
                out@ == self@.header_attrs().add(bound_attrs(self@.bound.take(i as int), self@.data)),
            decreases n - i,
        {
            let b = &self.attrs[i];
            let mut more = b.attr.get().expand(&self.data, Some(b.start..b.end));
            proof {
                let t = self@.bound.take(i + 1);
                assert(t.drop_last() =~= self@.bound.take(i as int));
                assert(t.last() == self@.bound[i as int]);
            }
            let ghost before = out@;
            let ghost added = more@;
            out.append(&mut more);
            proof {
                let h = self@.header_attrs();
                let b = bound_attrs(self@.bound.take(i as int), self@.data);
                assert(before == h.add(b));
                assert(out@ =~= h.add(b.add(added)));
            }
            i += 1;
        }
        assert(self@.bound.take(n as int) =~= self@.bound);
        out
    }

    /// The alias pairs of the header and of the bound classes.
    fn aliases(&self) -> (r: Vec<(Token, Token)>)
        ensures
            r@ == self@.aliases(),
    {
        let mut out: Vec<(Token, Token)> = Vec::new();
        extend_pairs(&mut out, self.class.get().header().get().aliases());
        let n = self.attrs.len();
        let mut i: usize = 0;
        assert(out@ =~= self@.header.aliases);
        while i < n
            invariant
                n == self@.bound.len(),
                0 <= i <= n,
                out@ == self@.header.aliases.add(bound_aliases(self@.bound.take(i as int))),
            decreases n - i,
        {
            let ghost before = out@;
            extend_pairs(&mut out, self.attrs[i].attr.get().aliases());
            proof {
                let t = self@.bound.take(i + 1);
                assert(t.drop_last() =~= self@.bound.take(i as int));
                assert(t.last() == self@.bound[i as int]);
                assert(out@ =~= self@.header.aliases.add(bound_aliases(t)));
            }
            i += 1;
        }
        assert(self@.bound.take(n as int) =~= self@.bound);
        out
    }

    /// The canonical path of `id` under the layer's alias pairs.
    fn canonical(&self, id: Token) -> (r: Token)
        ensures
            r == resolve(self@.aliases(), id),
    {
        let aliases = self.aliases();
        let n = aliases.len();
        let mut i: usize = 0;
        assert(aliases@.subrange(0, n as int) =~= aliases@);
        while i < n
            invariant
                n == aliases@.len(),
                aliases@ == self@.aliases(),
                0 <= i <= n,
                resolve(aliases@, id) == resolve(aliases@.subrange(i as int, n as int), id),
            decreases n - i,
        {
            let ghost rest = aliases@.subrange(i as int, n as int);
            assert(rest.drop_first() =~= aliases@.subrange(i + 1, n as int));
            if aliases[i].0 == id {
                return aliases[i].1;
            }
            i += 1;
        }
        id
    }

    /// Finds an attribute by path or alias: the first match among the
    /// header's attributes, then among the bound ones; `None` where nothing
    /// matches.
    pub fn attr(&self, id: Token) -> (r: Option<Attr>)
        ensures
            r == self@.lookup(id),
    {
        let target = self.canonical(id);
        let all = self.attrs();
        let n = all.len();
        let mut i: usize = 0;
        assert(all@.subrange(0, n as int) =~= all@);
        while i < n
            invariant
                n == all@.len(),
                all@ == self@.attrs(),
                target == resolve(self@.aliases(), id),
                0 <= i <= n,
                first_match(all@, target) == first_match(all@.subrange(i as int, n as int), target),
            decreases n - i,
        {
            let ghost rest = all@.subrange(i as int, n as int);
            assert(rest.drop_first() =~= all@.subrange(i + 1, n as int));
            assert(rest[0] == all@[i as int]);
            if all[i].id == target {
                assert(first_match(rest, target) == Some(rest[0]));
                return Some(all[i]);
            }
            i += 1;
        }
        None
    }

    /// Binds `class` to the byte range `range`, stored in bits.
    pub fn add_attr(&mut self, class: Fixed<AttrClass>, range: Range<usize>)
        requires
            range.start * 8 <= usize::MAX,
            range.end * 8 <= usize::MAX,
        ensures
            final(self)@ == (LayerView {
                bound: old(self)@.bound.push(
                    Binding { class: class@@, start: (range.start * 8) as usize, end: (range.end * 8) as usize },
                ),
                ..old(self)@
            }),
    {
        let b = BoundAttr { attr: class, start: range.start * 8, end: range.end * 8 };
        self.attrs.push(b);
        proof {
            assert(self@.bound =~= old(self)@.bound.push(
                Binding { class: class@@, start: (range.start * 8) as usize, end: (range.end * 8) as usize },
            ));
            assert(self@.payloads =~= old(self)@.payloads);
        }
    }

    /// The payloads, in the order they were added.
    pub fn payloads(&self) -> (r: &[Payload])
        ensures
            r@.map_values(|p: Payload| p@) == self@.payloads,
    {
        self.payloads.as_slice()
    }

    /// Appends a payload.
    pub fn add_payload(&mut self, payload: Payload)
        ensures
            final(self)@ == (LayerView { payloads: old(self)@.payloads.push(payload@), ..old(self)@ }),
    {
        let ghost p = payload@;
        self.payloads.push(payload);
        proof {
            assert(self@.payloads =~= old(self)@.payloads.push(p));
            assert(self@.bound =~= old(self)@.bound);
        }
    }
}

/// After `class` is bound to the byte range `[start, end)`, the layer's
/// attributes are those from before followed by the class itself over
/// exactly that range in bits.
pub proof fn lemma_add_attr_yields(l: LayerView, class: ClassView, start: usize, end: usize)
    requires
        start * 8 <= usize::MAX,
        end * 8 <= usize::MAX,
    ensures
        ({
            let after = LayerView {
                bound: l.bound.push(
                    Binding { class, start: (start * 8) as usize, end: (end * 8) as usize },
                ),
                ..l
            };
            &&& after.attrs().len() > l.attrs().len()
            &&& after.attrs().take(l.attrs().len() as int) == l.attrs()
            &&& after.attrs()[l.attrs().len() as int] == (Attr {
                id: class.id,
                typ: class.typ,
                cast: class.cast,
                start: (start * 8) as usize,
                end: (end * 8) as usize,
            })
        }),
{
    let b = Binding { class, start: (start * 8) as usize, end: (end * 8) as usize };
    let after = LayerView { bound: l.bound.push(b), ..l };
    assert(after.bound.drop_last() =~= l.bound);
    let e = expansion(class, l.data, b.start, b.end);
    assert(bound_attrs(after.bound, l.data) == bound_attrs(l.bound, l.data).add(e));
    assert(after.attrs() =~= l.attrs().add(e));
    assert(after.attrs().take(l.attrs().len() as int) =~= l.attrs());
}

/// The attributes of a layer depend on its header, bytes and bindings
/// alone: two reads with no binding in between, payloads added or not, agree.
pub proof fn lemma_attrs_stable(a: LayerView, b: LayerView)
    requires
        a.header == b.header,
        a.data == b.data,
        a.bound == b.bound,
    ensures
        a.attrs() == b.attrs(),
{
}

proof fn lemma_resolve_first(aliases: Seq<(Token, Token)>, alias: Token, canonical: Token, k: int)
    requires
        0 <= k < aliases.len(),
        aliases[k] == (alias, canonical),
        forall|j: int| 0 <= j < k ==> (#[trigger] aliases[j]).0 != alias,
    ensures
        resolve(aliases, alias) == canonical,
    decreases aliases.len(),
{
    if k > 0 {
        assert(aliases[0].0 != alias);
        let rest = aliases.drop_first();
        assert forall|j: int| 0 <= j < k - 1 implies (#[trigger] rest[j]).0 != alias by {
            assert(rest[j] == aliases[j + 1]);
        }
        lemma_resolve_first(rest, alias, canonical, k - 1);
    }
}

proof fn lemma_resolve_unaliased(aliases: Seq<(Token, Token)>, id: Token)
    requires
        forall|j: int| 0 <= j < aliases.len() ==> (#[trigger] aliases[j]).0 != id,
    ensures
        resolve(aliases, id) == id,
    decreases aliases.len(),
{
    if aliases.len() > 0 {
        assert(aliases[0].0 != id);
        let rest = aliases.drop_first();
        assert forall|j: int| 0 <= j < rest.len() implies (#[trigger] rest[j]).0 != id by {
            assert(rest[j] == aliases[j + 1]);
        }
        lemma_resolve_unaliased(rest, id);
    }
}

/// Where `(alias, canonical)` is the first alias pair of the layer for
/// `alias` and `canonical` is not itself an alias, looking up either finds
/// the same attribute.
pub proof fn lemma_alias_lookup(l: LayerView, alias: Token, canonical: Token, k: int)
    requires
        0 <= k < l.aliases().len(),
        l.aliases()[k] == (alias, canonical),
        forall|j: int| 0 <= j < k ==> (#[trigger] l.aliases()[j]).0 != alias,
        forall|j: int|
            0 <= j < l.aliases().len() ==> (#[trigger] l.aliases()[j]).0 != canonical,
    ensures
        l.lookup(alias) == l.lookup(canonical),
{
    lemma_resolve_first(l.aliases(), alias, canonical, k);
    lemma_resolve_unaliased(l.aliases(), canonical);
}

/// The layers decoded so far for one packet, oldest first.
#[derive(Debug)]
pub struct LayerStackData {
    pub children: Vec<MutFixed<Layer>>,
}

impl View for LayerStackData {
    type V = Seq<LayerView>;

    open spec fn view(&self) -> Seq<LayerView> {
        self.children@.map_values(|c: MutFixed<Layer>| c@@)
    }
}

impl LayerStackData {
    /// An empty stack.
    pub fn new() -> (r: LayerStackData)
        ensures
            r@ == Seq::<LayerView>::empty(),
    {
        let r = LayerStackData { children: Vec::new() };
        assert(r@ =~= Seq::<LayerView>::empty());
        r
    }
}

/// What a layer stack is, mathematically: the layer of the current depth
/// and the layers appended beneath it.
pub struct LayerStackView {
    pub layer: LayerView,
    pub children: Seq<LayerView>,
}

/// The view of one packet's decoding that a decoder is handed: its own
/// layer, and the stack of layers, to which it can only append.
#[derive(Debug)]
pub struct LayerStack {
    data: LayerStackData,
    layer: Layer,
}

impl View for LayerStack {
    type V = LayerStackView;

    closed spec fn view(&self) -> LayerStackView {
        LayerStackView { layer: self.layer@, children: self.data@ }
    }
}

impl LayerStack {
    /// A stack over `stack` whose current layer is `layer`.
    pub fn from_mut_ref(stack: LayerStackData, layer: Layer) -> (r: LayerStack)
        ensures
            r@ == (LayerStackView { layer: layer@, children: stack@ }),
    {
        LayerStack { data: stack, layer }
    }

    /// Gives back the stack of layers and the current layer.
    pub fn into_parts(self) -> (r: (LayerStackData, Layer))
        ensures
            r.0@ == self@.children,
            r.1@ == self@.layer,
    {
        (self.data, self.layer)
    }

    /// The current layer.
    pub fn layer(&self) -> (r: &Layer)
        ensures
            r@ == self@.layer,
    {
        &self.layer
    }

    /// The ID token of the current layer.
    pub fn id(&self) -> (r: Token)
        ensures
            r == self@.layer.header.id,
    {
        self.layer.id()
    }

    /// The bytes of the current layer.
    pub fn data(&self) -> (r: ByteSlice)
        ensures
            r@ == self@.layer.data,
    {
        self.layer.data()
    }

    /// The attributes of the current layer: the header's, then the bound
    /// ones.
    pub fn attrs(&self) -> (r: Vec<Attr>)
        ensures
            r@ == self@.layer.attrs(),
    {
        self.layer.attrs()
    }

    /// Finds an attribute of the current layer by path or alias.
    pub fn attr(&self, id: Token) -> (r: Option<Attr>)
        ensures
            r == self@.layer.lookup(id),
    {
        self.layer.attr(id)
    }

    /// Binds `class` to the byte range `range` of the current layer.
    pub fn add_attr(&mut self, class: Fixed<AttrClass>, range: Range<usize>)
        requires
            range.start * 8 <= usize::MAX,
            range.end * 8 <= usize::MAX,
        ensures
            final(self)@.children == old(self)@.children,
            final(self)@.layer == (LayerView {
                bound: old(self)@.layer.bound.push(
                    Binding { class: class@@, start: (range.start * 8) as usize, end: (range.end * 8) as usize },
                ),
                ..old(self)@.layer
            }),
    {
        self.layer.add_attr(class, range);
    }

    /// The payloads of the current layer.
    pub fn payloads(&self) -> (r: &[Payload])
        ensures
            r@.map_values(|p: Payload| p@) == self@.layer.payloads,
    {
        self.layer.payloads()
    }

    /// Appends a payload to the current layer.
    pub fn add_payload(&mut self, payload: Payload)
        ensures
            final(self)@.children == old(self)@.children,
            final(self)@.layer == (LayerView {
                payloads: old(self)@.layer.payloads.push(payload@),
                ..old(self)@.layer
            }),
    {
        self.layer.add_payload(payload);
    }

    /// Moves a completed layer onto the stack.
    pub fn add_child(&mut self, layer: Layer)
        ensures
            final(self)@ == (LayerStackView {
                children: old(self)@.children.push(layer@),
                ..old(self)@
            }),
    {
        let ghost v = layer@;
        self.data.children.push(MutFixed::new(layer));
        assert(self.data@ =~= old(self)@.children.push(v));
    }

    /// The number of layers on the stack.
    pub fn len(&self) -> (r: usize)
        ensures
            r == self@.children.len(),
    {
        self.data.children.len()
    }

    /// The most recently added layer.
    pub fn top(&self) -> (r: Option<&Layer>)
        ensures
            self@.children.len() == 0 ==> r is None,
            self@.children.len() > 0 ==> (r matches Some(l) && l@ == self@.children.last()),
    {
        let n = self.data.children.len();
        if n == 0 {
            None
        } else {
            Some(self.data.children[n - 1].get())
        }
    }

    /// The least recently added layer.
    pub fn bottom(&self) -> (r: Option<&Layer>)
        ensures
            self@.children.len() == 0 ==> r is None,
            self@.children.len() > 0 ==> (r matches Some(l) && l@ == self@.children[0]),
    {
        if self.data.children.len() == 0 {
            None
        } else {
            Some(self.data.children[0].get())
        }
    }

    /// The layer at `index`, counted from the bottom.
    pub fn child(&self, index: usize) -> (r: Option<&Layer>)
        ensures
            index >= self@.children.len() ==> r is None,
            index < self@.children.len() ==> (r matches Some(l) && l@ == self@.children[index as int]),
    {
        if index < self.data.children.len() {
            Some(self.data.children[index].get())
        } else {
            None
        }
    }

    /// The layer that a decoder at this depth reads from: the most recently
    /// added one, or the current layer where none was added yet.
    pub fn parent(&self) -> (r: &Layer)
        ensures
            self@.children.len() == 0 ==> r@ == self@.layer,
            self@.children.len() > 0 ==> r@ == self@.children.last(),
    {
        let n = self.data.children.len();
        if n == 0 {
            &self.layer
        } else {
            self.data.children[n - 1].get()
        }
    }
}

/// A field description together with the layer class built from it.
#[derive(Debug)]
pub struct LayerType<T> {
    field: T,
    layer: Fixed<LayerClass>,
}

impl<T> LayerType<T> {
    /// Pairs `field` with the layer class whose header is `header`.
    pub fn new(field: T, header: AttrClass) -> (r: LayerType<T>)
        ensures
            r.spec_field() == field,
            r.spec_class() == header@,
    {
        LayerType { field, layer: Fixed::new(LayerClass::new(header)) }
    }

    /// The field description.
    pub closed spec fn spec_field(&self) -> T {
        self.field
    }

    /// The view of the layer class.
    pub closed spec fn spec_class(&self) -> ClassView {
        self.layer@@
    }

    /// The field description.
    pub fn field(&self) -> (r: &T)
        ensures
            *r == self.spec_field(),
    {
        &self.field
    }

    /// The layer class.
    pub fn class(&self) -> (r: &Fixed<LayerClass>)
        ensures
            r@@ == self.spec_class(),
    {
        &self.layer
    }
}

} // verus!
