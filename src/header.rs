//! Header names and an ordered, multi-valued header collection.

use vstd::prelude::*;
use vstd::string::StrSliceExecFns;

verus! {

/// Whether `c` may appear in a header name (an HTTP token character).
pub open spec fn is_token_byte(c: u8) -> bool {
    // `!`, `#` to `'`, `*`, `+`, `-`, `.`, digits, upper case letters,
    // `^` `_` `` ` `` and lower case letters, `|`, `~`
    c == 33 || (35 <= c && c <= 39) || c == 42 || c == 43 || c == 45 || c == 46
        || (48 <= c && c <= 57) || (65 <= c && c <= 90) || (94 <= c && c <= 122)
        || c == 124 || c == 126
}

/// ASCII lower case of one byte.
pub open spec fn lower_byte(c: u8) -> u8 {
    if 65 <= c && c <= 90 {
        (c + 32) as u8
    } else {
        c
    }
}

/// ASCII lower case of a byte string.
pub open spec fn lower_bytes(s: Seq<u8>) -> Seq<u8> {
    s.map_values(|c: u8| lower_byte(c))
}

/// A valid header name: non-empty, made of token characters.
pub open spec fn is_valid_name(s: Seq<u8>) -> bool {
    s.len() > 0 && forall|i: int| 0 <= i < s.len() ==> is_token_byte(#[trigger] s[i])
}

/// A header name as it is stored: a valid name in lower case.
pub open spec fn is_normal_name(s: Seq<u8>) -> bool {
    is_valid_name(s) && lower_bytes(s) == s
}

/// A header name, stored in lower case so that names compare case-insensitively.
#[derive(Debug)]
pub struct HeaderName {
    bytes: Vec<u8>,
}

impl View for HeaderName {
    type V = Seq<u8>;

    closed spec fn view(&self) -> Seq<u8> {
        self.bytes@
    }
}

impl HeaderName {
    #[verifier::type_invariant]
    spec fn wf(&self) -> bool {
        is_normal_name(self.bytes@)
    }

    /// Parses a header name; any ASCII case is accepted and folded to lower case.
    pub fn from_bytes(b: &[u8]) -> (r: Option<HeaderName>)
        ensures
            r.is_some() <==> is_valid_name(b@),
            r.is_some() ==> r.unwrap()@ == lower_bytes(b@),
    {
        if b.len() == 0 {
            return None;
        }
        let mut bytes: Vec<u8> = Vec::new();
        let mut i: usize = 0;
        while i < b.len()
            invariant
                i <= b@.len(),
                bytes@ == lower_bytes(b@.subrange(0, i as int)),
                forall|j: int| 0 <= j < i ==> is_token_byte(#[trigger] b@[j]),
            decreases b@.len() - i,
        {
            let c = b[i];
            if !is_token(c) {
                return None;
            }
            let l: u8 = if 65 <= c && c <= 90 { c + 32 } else { c };
            bytes.push(l);
            i = i + 1;
            assert(b@.subrange(0, i as int) == b@.subrange(0, i - 1 as int).push(c));
        }
        assert(b@.subrange(0, b@.len() as int) == b@);
        proof {
            let s = bytes@;
            assert forall|j: int| 0 <= j < s.len() implies is_token_byte(#[trigger] s[j]) by {
                assert(is_token_byte(b@[j]));
            }
            assert(lower_bytes(s) =~= s);
        }
        Some(HeaderName { bytes })
    }

    /// The stored (lower-case) bytes of the name.
    pub fn as_bytes(&self) -> (r: &[u8])
        ensures
            r@ == self@,
    {
        self.bytes.as_slice()
    }
}

impl Clone for HeaderName {
    fn clone(&self) -> (r: HeaderName)
        ensures
            r@ == self@,
    {
        proof {
            use_type_invariant(self);
        }
        HeaderName { bytes: copy_bytes(self.bytes.as_slice()) }
    }
}

fn is_token(c: u8) -> (r: bool)
    ensures
        r == is_token_byte(c),
{
    // `!`, `#` to `'`, `*`, `+`, `-`, `.`, digits, upper case letters,
    // `^` `_` `` ` `` and lower case letters, `|`, `~`
    c == 33 || (35 <= c && c <= 39) || c == 42 || c == 43 || c == 45 || c == 46
        || (48 <= c && c <= 57) || (65 <= c && c <= 90) || (94 <= c && c <= 122)
        || c == 124 || c == 126
}


/// The header entries as (lower-case name, value) pairs, in insertion order.
pub type Headers = Seq<(Seq<u8>, Seq<u8>)>;

/// Whether some entry of `h` has the name `n`.
pub open spec fn has_name(h: Headers, n: Seq<u8>) -> bool {
    exists|i: int| 0 <= i < h.len() && (#[trigger] h[i]).0 == n
}

/// The values stored under `n`, in insertion order.
pub open spec fn values_of(h: Headers, n: Seq<u8>) -> Seq<Seq<u8>>
    decreases h.len(),
{
    if h.len() == 0 {
        Seq::empty()
    } else {
        let rest = values_of(h.drop_last(), n);
        if h.last().0 == n {
            rest.push(h.last().1)
        } else {
            rest
        }
    }
}

/// The contents of each vector of bytes.
pub open spec fn byte_views(vs: Seq<Vec<u8>>) -> Seq<Seq<u8>> {
    vs.map_values(|v: Vec<u8>| v@)
}

/// An ordered collection of headers; one name may carry several values.
#[derive(Debug)]
pub struct HeaderMap {
    entries: Vec<(HeaderName, Vec<u8>)>,
}

impl View for HeaderMap {
    type V = Headers;

    closed spec fn view(&self) -> Headers {
        self.entries@.map_values(|e: (HeaderName, Vec<u8>)| (e.0@, e.1@))
    }
}

impl HeaderMap {
    /// An empty collection.
    pub fn new() -> (r: HeaderMap)
        ensures
            r@ == Seq::<(Seq<u8>, Seq<u8>)>::empty(),
    {
        let r = HeaderMap { entries: Vec::new() };
        assert(r@ =~= Seq::<(Seq<u8>, Seq<u8>)>::empty());
        r
    }

    /// The number of entries (values), over all names.
    pub fn len(&self) -> (r: usize)
        ensures
            r == self@.len(),
    {
        self.entries.len()
    }

    /// Whether the collection holds no entry.
    pub fn is_empty(&self) -> (r: bool)
        ensures
            r == (self@.len() == 0),
    {
        self.entries.len() == 0
    }

    /// Whether at least one value is stored under `name`.
    pub fn contains_key(&self, name: &HeaderName) -> (r: bool)
        ensures
            r == has_name(self@, name@),
    {
        let mut i: usize = 0;
        while i < self.entries.len()
            invariant
                i <= self@.len(),
                self@.len() == self.entries@.len(),
                forall|j: int| 0 <= j < i ==> (#[trigger] self@[j]).0 != name@,
            decreases self.entries@.len() - i,
        {
            if eq_bytes(self.entries[i].0.as_bytes(), name.as_bytes()) {
                assert(self@[i as int].0 == name@);
                return true;
            }
            i = i + 1;
        }
        false
    }

    /// All values stored under `name`, in insertion order.
    pub fn get_all(&self, name: &HeaderName) -> (r: Vec<Vec<u8>>)
        ensures
            byte_views(r@) == values_of(self@, name@),
    {
        let mut r: Vec<Vec<u8>> = Vec::new();
        let mut i: usize = 0;
        while i < self.entries.len()
            invariant
                i <= self@.len(),
                self@.len() == self.entries@.len(),
                byte_views(r@) == values_of(self@.subrange(0, i as int), name@),
            decreases self.entries@.len() - i,
        {
            let ghost pre = self@.subrange(0, i as int);
            let ghost next = self@.subrange(0, i + 1);
            assert(next.drop_last() == pre);
            assert(next.last() == self@[i as int]);
            if eq_bytes(self.entries[i].0.as_bytes(), name.as_bytes()) {
                let ghost r0 = byte_views(r@);
                let v = copy_bytes(self.entries[i].1.as_slice());
                r.push(v);
                assert(byte_views(r@) =~= r0.push(self@[i as int].1));
            }
            i = i + 1;
        }
        assert(self@.subrange(0, self@.len() as int) == self@);
        r
    }

    /// The first value stored under `name`, if any.
    pub fn get(&self, name: &HeaderName) -> (r: Option<Vec<u8>>)
        ensures
            r.is_some() <==> has_name(self@, name@),
            r.is_some() ==> values_of(self@, name@).len() > 0
                && r.unwrap()@ == values_of(self@, name@)[0],
    {
        let all = self.get_all(name);
        proof {
            lemma_has_name_values(self@, name@);
        }
        if all.len() == 0 {
            None
        } else {
            assert(byte_views(all@)[0] == all@[0]@);
            Some(copy_bytes(all[0].as_slice()))
        }
    }

    /// Adds a value under `name`, after those already there.
    pub fn append(&mut self, name: HeaderName, value: Vec<u8>)
        ensures
            final(self)@ == old(self)@.push((name@, value@)),
    {
        let ghost nv = name@;
        let ghost vv = value@;
        self.entries.push((name, value));
        assert(self@ =~= old(self)@.push((nv, vv)));
    }

    /// Adds `value` under `name` only where `name` has no value yet; returns
    /// whether it was added. Values already present are never changed.
    pub fn insert_if_absent(&mut self, name: HeaderName, value: Vec<u8>) -> (added: bool)
        ensures
            added == !has_name(old(self)@, name@),
            final(self)@ == if added {
                old(self)@.push((name@, value@))
            } else {
                old(self)@
            },
    {
        if self.contains_key(&name) {
            false
        } else {
            self.append(name, value);
            true
        }
    }
}

/// A name has values exactly when some entry carries it.
pub proof fn lemma_has_name_values(h: Headers, n: Seq<u8>)
    ensures
        has_name(h, n) <==> values_of(h, n).len() > 0,
    decreases h.len(),
{
    if h.len() > 0 {
        let p = h.drop_last();
        lemma_has_name_values(p, n);
        if has_name(p, n) {
            let i = choose|i: int| 0 <= i < p.len() && (#[trigger] p[i]).0 == n;
            assert(h[i] == p[i]);
        }
        if has_name(h, n) && h.last().0 != n {
            let i = choose|i: int| 0 <= i < h.len() && (#[trigger] h[i]).0 == n;
            assert(p[i] == h[i]);
        }
    }
}

/// Appending an entry adds its value to its own name and to no other.
pub proof fn lemma_push_values(h: Headers, e: (Seq<u8>, Seq<u8>), n: Seq<u8>)
    ensures
        values_of(h.push(e), n) == if e.0 == n {
            values_of(h, n).push(e.1)
        } else {
            values_of(h, n)
        },
        has_name(h.push(e), n) <==> (has_name(h, n) || e.0 == n),
{
    assert(h.push(e).drop_last() == h);
    if has_name(h, n) {
        let i = choose|i: int| 0 <= i < h.len() && (#[trigger] h[i]).0 == n;
        assert(h.push(e)[i] == h[i]);
    }
    if has_name(h.push(e), n) && e.0 != n {
        let i = choose|i: int| 0 <= i < h.len() + 1 && (#[trigger] h.push(e)[i]).0 == n;
        assert(h.push(e)[i] == h[i]);
    }
    if e.0 == n {
        assert(h.push(e)[h.len() as int] == e);
    }
}

/// Byte-wise equality of two slices.
fn eq_bytes(a: &[u8], b: &[u8]) -> (r: bool)
    ensures
        r == (a@ == b@),
{
    if a.len() != b.len() {
        return false;
    }
    let mut i: usize = 0;
    while i < a.len()
        invariant
            i <= a@.len(),
            a@.len() == b@.len(),
            forall|j: int| 0 <= j < i ==> a@[j] == b@[j],
        decreases a@.len() - i,
    {
        if a[i] != b[i] {
            return false;
        }
        i = i + 1;
    }
    assert(a@ =~= b@);
    true
}

/// A fresh vector holding the bytes of `b`.
pub fn copy_bytes(b: &[u8]) -> (r: Vec<u8>)
    ensures
        r@ == b@,
{
    let mut r: Vec<u8> = Vec::new();
    let mut i: usize = 0;
    while i < b.len()
        invariant
            i <= b@.len(),
            r@ == b@.subrange(0, i as int),
        decreases b@.len() - i,
    {
        r.push(b[i]);
        i = i + 1;
    }
    assert(b@.subrange(0, b@.len() as int) == b@);
    r
}

/// The bytes of an ASCII text.
pub open spec fn ascii(s: Seq<char>) -> Seq<u8> {
    s.map_values(|c: char| c as u8)
}

/// Appends the bytes of the ASCII text `s`.
pub fn push_ascii(out: &mut Vec<u8>, s: &str)
    ensures
        final(out)@ == old(out)@ + ascii(s@),
{
    let n = s.unicode_len();
    let mut i: usize = 0;
    while i < n
        invariant
            n == s@.len(),
            i <= n,
            out@ == old(out)@ + ascii(s@.subrange(0, i as int)),
        decreases n - i,
    {
        let c = s.get_char(i);
        out.push(c as u8);
        i = i + 1;
        assert(ascii(s@.subrange(0, i as int)) =~= ascii(s@.subrange(0, i - 1 as int)).push(
            c as u8,
        ));
    }
    assert(s@.subrange(0, n as int) == s@);
}

} // verus!
