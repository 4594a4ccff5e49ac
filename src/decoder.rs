//! Decoder metadata and the dispatch decisions of the decoder pipeline.

use crate::error::Error;
use crate::layer::{Layer, PayloadView};
use crate::token::Token;
use vstd::prelude::*;

verus! {

/// How a decoder invocation ended.
#[derive(Clone, Copy, Debug, PartialEq, Eq, Structural)]
pub enum Status {
    /// The decoder finished its work at this depth.
    Done,
    /// The decoder found no input that it accepts.
    Skip,
}

/// Whether packets may pass through a decoder concurrently.
#[derive(Clone, Copy, Debug, PartialEq, Eq, Structural)]
pub enum ExecType {
    /// Stateless: independent packets may be decoded in parallel.
    ParallelSync,
    /// Stateful: packets are decoded strictly in arrival order on one worker.
    SerialSync,
}

/// What a decoder declares of itself to the pipeline.
#[derive(Clone, Copy, Debug, PartialEq, Eq, Structural)]
pub struct Metadata {
    /// The decoder's identifier.
    pub id: Token,
    /// The payload type that the decoder claims; the null token claims none.
    pub accepts: Token,
    /// The decoder's execution affinity.
    pub exec_type: ExecType,
}

impl Metadata {
    /// A sequential decoder named `id` that claims no payload type.
    pub fn new(id: Token) -> (r: Metadata)
        ensures
            r == (Metadata { id, accepts: Token { id: 0 }, exec_type: ExecType::SerialSync }),
    {
        Metadata { id, accepts: Token::null(), exec_type: ExecType::SerialSync }
    }

    /// Whether independent packets may be decoded concurrently.
    pub fn is_parallel(&self) -> (r: bool)
        ensures
            r == (self.exec_type == ExecType::ParallelSync),
    {
        match self.exec_type {
            ExecType::ParallelSync => true,
            ExecType::SerialSync => false,
        }
    }
}

/// The index of the first decoder of `table` that claims payloads of type
/// `typ`; none claims the null type.
pub open spec fn claimant(table: Seq<Metadata>, typ: Token) -> Option<int>
    decreases table.len(),
{
    if typ.id == 0 || table.len() == 0 {
        None
    } else if table[0].accepts == typ {
        Some(0)
    } else {
        match claimant(table.drop_first(), typ) {
            Some(i) => Some(i + 1),
            None => None,
        }
    }
}

/// The first payload of `payloads` that some decoder of `table` claims,
/// with the index of that decoder; payloads that none claims are passed over.
pub open spec fn next_claim(table: Seq<Metadata>, payloads: Seq<PayloadView>) -> Option<(int, int)>
    decreases payloads.len(),
{
    if payloads.len() == 0 {
        None
    } else {
        match claimant(table, payloads[0].typ) {
            Some(d) => Some((0, d)),
            None => match next_claim(table, payloads.drop_first()) {
                Some((p, d)) => Some((p + 1, d)),
                None => None,
            },
        }
    }
}

/// Looks up the decoder that claims payloads of type `typ`: the first one
/// registered for it, or `None`.
pub fn dispatch(table: &[Metadata], typ: Token) -> (r: Option<usize>)
    ensures
        r matches Some(i) ==> claimant(table@, typ) == Some(i as int),
        r is None ==> claimant(table@, typ) is None,
{
    if typ.id == 0 {
        return None;
    }
    let n = table.len();
    let mut i: usize = 0;
    while i < n
        invariant
            n == table@.len(),
            0 <= i <= n,
            typ.id != 0,
            forall|k: int| 0 <= k < i ==> table@[k].accepts != typ,
        decreases n - i,
    {
        if table[i].accepts == typ {
            proof {
                lemma_claimant_at(table@, typ, i as int);
            }
            return Some(i);
        }
        i += 1;
    }
    proof {
        lemma_claimant_none(table@, typ);
    }
    None
}

proof fn lemma_claimant_at(table: Seq<Metadata>, typ: Token, i: int)
    requires
        0 <= i < table.len(),
        typ.id != 0,
        table[i].accepts == typ,
        forall|k: int| 0 <= k < i ==> table[k].accepts != typ,
    ensures
        claimant(table, typ) == Some(i),
    decreases i,
{
    if i > 0 {
        let rest = table.drop_first();
        assert(table[0].accepts != typ);
        assert forall|k: int| 0 <= k < i - 1 implies rest[k].accepts != typ by {
            assert(rest[k] == table[k + 1]);
        }
        lemma_claimant_at(rest, typ, i - 1);
    }
}

proof fn lemma_claimant_none(table: Seq<Metadata>, typ: Token)
    requires
        forall|k: int| 0 <= k < table.len() ==> table[k].accepts != typ,
    ensures
        claimant(table, typ) is None,
    decreases table.len(),
{
    if table.len() > 0 {
        let rest = table.drop_first();
        assert forall|k: int| 0 <= k < rest.len() implies rest[k].accepts != typ by {
            assert(rest[k] == table[k + 1]);
        }
        lemma_claimant_none(rest, typ);
    }
}

/// Decides the next step of tag-driven dispatch from `layer`: the index of
/// the first payload that a registered decoder claims, and that decoder's
/// index; `None` where every payload is inert.
pub fn next_step(table: &[Metadata], layer: &Layer) -> (r: Option<(usize, usize)>)
    ensures
        r matches Some((p, d)) ==> next_claim(table@, layer@.payloads) == Some((p as int, d as int)),
        r is None ==> next_claim(table@, layer@.payloads) is None,
{
    let payloads = layer.payloads();
    let ghost pv = layer@.payloads;
    let n = payloads.len();
    let mut i: usize = 0;
    assert(pv.subrange(0, n as int) =~= pv);
    while i < n
        invariant
            n == pv.len(),
            pv == layer@.payloads,
            payloads@.map_values(|p: crate::layer::Payload| p@) == pv,
            0 <= i <= n,
            forall|k: int| 0 <= k < i ==> claimant(table@, #[trigger] pv[k].typ) is None,
            next_claim(table@, pv) == match next_claim(table@, pv.subrange(i as int, n as int)) {
                Some((p, d)) => Some((p + i, d)),
                None => None::<(int, int)>,
            },
        decreases n - i,
    {
        let ghost rest = pv.subrange(i as int, n as int);
        assert(rest.drop_first() =~= pv.subrange(i + 1, n as int));
        assert(rest[0] == pv[i as int]);
        assert(payloads@[i as int]@ == pv[i as int]);
        match dispatch(table, payloads[i].typ()) {
            Some(d) => {
                assert(next_claim(table@, rest) == Some((0int, d as int)));
                return Some((i, d));
            },
            None => {},
        }
        i += 1;
    }
    None
}

/// The index of the first decoder of `table` named `id`.
pub open spec fn decoder_index(table: Seq<Metadata>, id: Token) -> Option<int>
    decreases table.len(),
{
    if table.len() == 0 {
        None
    } else if table[0].id == id {
        Some(0)
    } else {
        match decoder_index(table.drop_first(), id) {
            Some(i) => Some(i + 1),
            None => None,
        }
    }
}

/// Looks up a decoder by its identifier, for direct delegation; a name that
/// no decoder has is a lookup error.
pub fn find_decoder(table: &[Metadata], id: Token) -> (r: Result<usize, Error>)
    ensures
        r matches Ok(i) ==> decoder_index(table@, id) == Some(i as int),
        r is Err ==> decoder_index(table@, id) is None && r == Err::<usize, Error>(Error::Lookup),
{
    let n = table.len();
    let mut i: usize = 0;
    assert(table@.subrange(0, n as int) =~= table@);
    while i < n
        invariant
            n == table@.len(),
            0 <= i <= n,
            decoder_index(table@, id) == match decoder_index(table@.subrange(i as int, n as int), id) {
                Some(k) => Some(k + i),
                None => None::<int>,
            },
        decreases n - i,
    {
        let ghost rest = table@.subrange(i as int, n as int);
        assert(rest.drop_first() =~= table@.subrange(i + 1, n as int));
        assert(rest[0] == table@[i as int]);
        if table[i].id == id {
            return Ok(i);
        }
        i += 1;
    }
    Err(Error::Lookup)
}

} // verus!
