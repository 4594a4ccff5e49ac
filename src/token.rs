use vstd::prelude::*;
use vstd::string::StringSliceAdditionalSpecFns;

verus! {

/// An interned handle for a path or type string.
///
/// Two tokens are equal exactly when their handles are equal; the handle `0`
/// stands for the empty string.
#[derive(Clone, Copy, Debug, PartialEq, Eq, Hash, Structural)]
pub struct Token {
    pub id: u64,
}

impl Token {
    /// The token of the empty string.
    pub fn null() -> (r: Token)
        ensures
            r.id == 0,
    {
        Token { id: 0 }
    }

    /// Whether this is the token of the empty string.
    pub fn is_null(&self) -> (r: bool)
        ensures
            r == (self.id == 0),
    {
        self.id == 0
    }
}

impl From<u64> for Token {
    fn from(id: u64) -> (r: Token) {
        Token { id }
    }
}

impl vstd::std_specs::convert::FromSpecImpl<u64> for Token {
    open spec fn obeys_from_spec() -> bool {
        true
    }

    open spec fn from_spec(id: u64) -> Token {
        Token { id }
    }
}

/// The interning table: the string of token `i + 1` is the `i`-th entry.
pub struct TokenRegistry {
    names: Vec<Vec<u8>>,
}

impl TokenRegistry {
    /// The interned strings, in the order in which they were first seen.
    pub closed spec fn names(&self) -> Seq<Seq<u8>> {
        self.names@.map_values(|n: Vec<u8>| n@)
    }

    /// No string is interned twice and the empty string is never stored.
    pub closed spec fn wf(&self) -> bool {
        &&& forall|i: int| 0 <= i < self.names().len() ==> #[trigger] self.names()[i].len() > 0
        &&& forall|i: int, j: int|
            0 <= i < j < self.names().len() ==> #[trigger] self.names()[i] != #[trigger] self.names()[j]
        &&& self.names().len() < u64::MAX
    }

    /// Whether no further string can be interned.
    pub open spec fn is_full(&self) -> bool {
        self.names().len() + 2 >= u64::MAX
    }

    /// Whether `n` more strings can be interned.
    pub open spec fn has_room(&self, n: nat) -> bool {
        self.names().len() + n + 2 < u64::MAX
    }

    /// Whether `t` is the token of the string `s` in this registry.
    pub open spec fn denotes(&self, t: Token, s: Seq<u8>) -> bool {
        if t.id == 0 {
            s.len() == 0
        } else {
            t.id <= self.names().len() && self.names()[t.id - 1] == s
        }
    }

    /// An empty registry.
    pub fn new() -> (r: TokenRegistry)
        ensures
            r.wf(),
            r.names().len() == 0,
    {
        TokenRegistry { names: Vec::new() }
    }

    /// The number of interned strings.
    pub fn len(&self) -> (r: usize)
        ensures
            r == self.names().len(),
    {
        self.names.len()
    }

    /// Interns `s` and returns its token.
    ///
    /// A string seen before gets its earlier token; a new one is appended.
    /// Once the table holds `u64::MAX - 1` strings no new one is taken and
    /// the null token comes back.
    pub fn token(&mut self, s: &str) -> (t: Token)
        requires
            old(self).wf(),
        ensures
            final(self).wf(),
            old(self).names().contains(s.spec_bytes()) || s.spec_bytes().len() == 0
                || old(self).is_full() ==> final(self).names() == old(self).names(),
            s.spec_bytes().len() > 0 && !old(self).names().contains(s.spec_bytes())
                && !old(self).is_full() ==> final(self).names() == old(self).names().push(
                s.spec_bytes(),
            ),
            s.spec_bytes().len() == 0 ==> t.id == 0,
            t.id != 0 ==> final(self).denotes(t, s.spec_bytes()),
            s.spec_bytes().len() > 0 && final(self).names().contains(s.spec_bytes()) ==> t.id != 0,
            !old(self).is_full() ==> final(self).denotes(t, s.spec_bytes()),
            final(self).names().len() <= old(self).names().len() + 1,
            forall|u: Token, v: Seq<u8>|
                old(self).denotes(u, v) ==> #[trigger] final(self).denotes(u, v),
    {
        let bytes = s.as_bytes();
        if bytes.len() == 0 {
            return Token::null();
        }
        let n = self.names.len();
        let mut i: usize = 0;
        while i < n
            invariant
                n == self.names@.len(),
                0 <= i <= n,
                self.wf(),
                self.names() == old(self).names(),
                bytes@ == s.spec_bytes(),
                bytes@.len() > 0,
                forall|k: int| 0 <= k < i ==> self.names()[k] != bytes@,
            decreases n - i,
        {
            if bytes_equal(self.names[i].as_slice(), bytes) {
                proof {
                    assert(self.names()[i as int] == self.names@[i as int]@);
                }
                return Token { id: i as u64 + 1 };
            }
            i += 1;
        }
        proof {
            assert forall|k: int| 0 <= k < self.names().len() implies self.names()[k] != bytes@ by {}
        }
        if n as u64 >= u64::MAX - 2 {
            return Token::null();
        }
        let mut copy: Vec<u8> = Vec::new();
        let mut j: usize = 0;
        while j < bytes.len()
            invariant
                0 <= j <= bytes@.len(),
                copy@ == bytes@.subrange(0, j as int),
            decreases bytes@.len() - j,
        {
            copy.push(bytes[j]);
            j += 1;
        }
        proof {
            assert(copy@ =~= bytes@);
        }
        let ghost before = self.names();
        self.names.push(copy);
        proof {
            assert(self.names() =~= before.push(bytes@));
        }
        Token { id: n as u64 + 1 }
    }
}

impl TokenRegistry {
    /// The string of token `t`: empty for the null token, `None` for a
    /// token that this registry did not hand out.
    pub fn name(&self, t: Token) -> (r: Option<&[u8]>)
        ensures
            r matches Some(b) ==> self.denotes(t, b@),
            r is None <==> t.id > self.names().len(),
    {
        if t.id == 0 {
            let empty: &[u8] = &[];
            assert(empty@.len() == 0);
            return Some(empty);
        }
        if t.id > self.names.len() as u64 {
            return None;
        }
        let i = (t.id - 1) as usize;
        assert(self.names()[i as int] == self.names@[i as int]@);
        Some(self.names[i].as_slice())
    }
}

/// In a well-formed registry a string has one token.
pub proof fn lemma_denotes_unique(reg: TokenRegistry, t: Token, u: Token, s: Seq<u8>)
    requires
        reg.wf(),
        reg.denotes(t, s),
        reg.denotes(u, s),
    ensures
        t == u,
{
    if t.id != 0 && u.id != 0 && t.id != u.id {
        if t.id < u.id {
            assert(reg.names()[t.id - 1] != reg.names()[u.id - 1]);
        } else {
            assert(reg.names()[u.id - 1] != reg.names()[t.id - 1]);
        }
    }
    if t.id == 0 && u.id != 0 {
        assert(reg.names()[u.id - 1].len() > 0);
    }
    if u.id == 0 && t.id != 0 {
        assert(reg.names()[t.id - 1].len() > 0);
    }
}

/// In any registry, tokens of different strings differ.
pub proof fn lemma_denotes_distinct(reg: TokenRegistry, t: Token, u: Token, a: Seq<u8>, b: Seq<u8>)
    requires
        reg.denotes(t, a),
        reg.denotes(u, b),
        a != b,
    ensures
        t != u,
{
    if t == u && t.id == 0 {
        assert(a =~= b);
    }
}

/// Whether two byte slices hold the same bytes.
pub fn bytes_equal(a: &[u8], b: &[u8]) -> (r: bool)
    ensures
        r == (a@ == b@),
{
    if a.len() != b.len() {
        return false;
    }
    let mut i: usize = 0;
    while i < a.len()
        invariant
            a@.len() == b@.len(),
            0 <= i <= a@.len(),
            forall|k: int| 0 <= k < i ==> a@[k] == b@[k],
        decreases a@.len() - i,
    {
        if a[i] != b[i] {
            return false;
        }
        i += 1;
    }
    assert(a@ =~= b@);
    true
}

} // verus!
