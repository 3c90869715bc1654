//! A key/value carrier over call metadata: header-like ASCII names, compared
//! without regard to case, mapped to printable ASCII values.
use vstd::prelude::*;

verus! {

/// `b` with an upper-case ASCII letter turned to lower case.
pub open spec fn lower_byte(b: u8) -> u8 {
    if 65 <= b && b <= 90 {
        (b + 32) as u8
    } else {
        b
    }
}

/// `s` with every upper-case ASCII letter turned to lower case.
pub open spec fn lower(s: Seq<u8>) -> Seq<u8> {
    s.map_values(|b: u8| lower_byte(b))
}

/// A byte allowed in a metadata name once lowered: the HTTP token characters
/// `a-z`, `0-9` and ``!"#$%&'*+-.^_`|~``.
pub open spec fn key_byte(b: u8) -> bool {
    (97 <= b && b <= 122) || (48 <= b && b <= 57) || (33 <= b && b <= 39) || b == 42 || b == 43
        || b == 45 || b == 46 || b == 94 || b == 95 || b == 96 || b == 124 || b == 126
}

/// The lowered name ends in `-bin`, the suffix of binary metadata.
pub open spec fn binary_suffix(k: Seq<u8>) -> bool {
    k.len() >= 4 && k[k.len() - 4] == 45u8 && k[k.len() - 3] == 98u8 && k[k.len() - 2] == 105u8
        && k[k.len() - 1] == 110u8
}

/// 1 to 65535 bytes of token characters once lowered.
pub open spec fn token_name(k: Seq<u8>) -> bool {
    &&& 1 <= k.len() <= 65535
    &&& forall|i: int| 0 <= i < k.len() ==> #[trigger] key_byte(lower_byte(k[i]))
}

/// A name under which the carrier stores a text value: a token name not
/// ending in `-bin`.
pub open spec fn valid_key(k: Seq<u8>) -> bool {
    token_name(k) && !binary_suffix(lower(k))
}

/// A name under which the carrier stores a binary value: a token name ending
/// in `-bin`.
pub open spec fn valid_binary_key(k: Seq<u8>) -> bool {
    token_name(k) && binary_suffix(lower(k))
}

/// A stored entry: its name is lower case, and it is either a text entry with
/// a valid name and value, or a binary entry.
pub open spec fn entry_ok(e: (Seq<u8>, Seq<u8>)) -> bool {
    e.0 == lower(e.0) && ((valid_key(e.0) && valid_value(e.1)) || valid_binary_key(e.0))
}

/// Lowering twice is lowering once.
pub proof fn lemma_lower_idempotent(k: Seq<u8>)
    ensures
        lower(lower(k)) == lower(k),
        token_name(k) ==> token_name(lower(k)),
{
    assert(lower(lower(k)) =~= lower(k));
    if token_name(k) {
        assert forall|i: int| 0 <= i < lower(k).len() implies #[trigger] key_byte(lower_byte(lower(k)[i])) by {
            assert(key_byte(lower_byte(k[i])));
        }
    }
}

/// Storing an entry that is in order keeps every entry in order.
pub proof fn lemma_store_entries_ok(s: Seq<(Seq<u8>, Seq<u8>)>, k: Seq<u8>, v: Seq<u8>)
    requires
        forall|i: int| 0 <= i < s.len() ==> #[trigger] entry_ok(s[i]),
        entry_ok((k, v)),
    ensures
        forall|i: int| 0 <= i < store(s, k, v).len() ==> #[trigger] entry_ok(store(s, k, v)[i]),
{
    let t = store(s, k, v);
    assert forall|i: int| 0 <= i < t.len() implies #[trigger] entry_ok(t[i]) by {
        if i < s.len() && t[i] != (k, v) {
            assert(t[i] == s[i]);
        }
    }
}

/// A value the carrier stores: tab or visible ASCII only.
pub open spec fn valid_value(v: Seq<u8>) -> bool {
    forall|i: int| 0 <= i < v.len() ==> (32 <= #[trigger] v[i] && v[i] <= 126) || v[i] == 9
}

/// No name occurs twice among the entries.
pub open spec fn unique_keys(s: Seq<(Seq<u8>, Seq<u8>)>) -> bool {
    forall|i: int, j: int|
        0 <= i < s.len() && 0 <= j < s.len() && i != j ==> #[trigger] s[i].0 != #[trigger] s[j].0
}

/// The value stored under the name `k`, if any.
pub open spec fn lookup(s: Seq<(Seq<u8>, Seq<u8>)>, k: Seq<u8>) -> Option<Seq<u8>> {
    if exists|i: int| 0 <= i < s.len() && s[i].0 == k {
        let i = choose|i: int| 0 <= i < s.len() && s[i].0 == k;
        Some(s[i].1)
    } else {
        None
    }
}

/// The entries after storing `v` under `k`: an entry of that name is replaced
/// in place, else the pair is added at the end.
pub open spec fn store(s: Seq<(Seq<u8>, Seq<u8>)>, k: Seq<u8>, v: Seq<u8>) -> Seq<(Seq<u8>, Seq<u8>)> {
    if exists|i: int| 0 <= i < s.len() && s[i].0 == k {
        let i = choose|i: int| 0 <= i < s.len() && s[i].0 == k;
        s.update(i, (k, v))
    } else {
        s.push((k, v))
    }
}

/// After a store the name reads the new value, every other name reads what it
/// read before, and names stay unique.
pub proof fn lemma_store(s: Seq<(Seq<u8>, Seq<u8>)>, k: Seq<u8>, v: Seq<u8>)
    requires
        unique_keys(s),
    ensures
        unique_keys(store(s, k, v)),
        lookup(store(s, k, v), k) == Some(v),
        forall|k2: Seq<u8>| k2 != k ==> lookup(store(s, k, v), k2) == lookup(s, k2),
{
    let t = store(s, k, v);
    if exists|i: int| 0 <= i < s.len() && s[i].0 == k {
        let i = choose|i: int| 0 <= i < s.len() && s[i].0 == k;
        assert(t[i].0 == k);
        assert forall|k2: Seq<u8>| k2 != k implies lookup(t, k2) == lookup(s, k2) by {
            if exists|j: int| 0 <= j < s.len() && s[j].0 == k2 {
                let j = choose|j: int| 0 <= j < s.len() && s[j].0 == k2;
                assert(t[j].0 == k2);
            }
            if exists|j: int| 0 <= j < t.len() && t[j].0 == k2 {
                let j = choose|j: int| 0 <= j < t.len() && t[j].0 == k2;
                assert(s[j].0 == k2);
            }
        }
    } else {
        assert(t[s.len() as int].0 == k);
        assert forall|k2: Seq<u8>| k2 != k implies lookup(t, k2) == lookup(s, k2) by {
            if exists|j: int| 0 <= j < s.len() && s[j].0 == k2 {
                let j = choose|j: int| 0 <= j < s.len() && s[j].0 == k2;
                assert(t[j].0 == k2);
            }
            if exists|j: int| 0 <= j < t.len() && t[j].0 == k2 {
                let j = choose|j: int| 0 <= j < t.len() && t[j].0 == k2;
                assert(s[j].0 == k2);
            }
        }
    }
}

/// Each stored name reads back its own value.
pub proof fn lemma_lookup_entry(s: Seq<(Seq<u8>, Seq<u8>)>, i: int)
    requires
        unique_keys(s),
        0 <= i < s.len(),
    ensures
        lookup(s, s[i].0) == Some(s[i].1),
{
    let c = choose|j: int| 0 <= j < s.len() && s[j].0 == s[i].0;
    assert(c == i) by {
        if c != i {
            assert(s[c].0 != s[i].0);
        }
    }
}

/// Byte-wise equality of two slices.
pub fn bytes_eq(a: &[u8], b: &[u8]) -> (r: bool)
    ensures
        r == (a@ == b@),
{
    if a.len() != b.len() {
        return false;
    }
    let mut i: usize = 0;
    while i < a.len()
        invariant
            a@.len() == b@.len(),
            i <= a@.len(),
            forall|j: int| 0 <= j < i ==> a@[j] == b@[j],
        decreases a@.len() - i,
    {
        if a[i] != b[i] {
            return false;
        }
        i = i + 1;
    }
    assert(a@ =~= b@);
    true
}

/// Lowers the ASCII letters of `s`.
pub fn to_lower(s: &[u8]) -> (r: Vec<u8>)
    ensures
        r@ == lower(s@),
{
    let mut out: Vec<u8> = Vec::new();
    let mut i: usize = 0;
    while i < s.len()
        invariant
            i <= s@.len(),
            out@ =~= lower(s@.subrange(0, i as int)),
        decreases s@.len() - i,
    {
        let b = s[i];
        let l: u8 = if 65 <= b && b <= 90 {
            b + 32
        } else {
            b
        };
        out.push(l);
        i = i + 1;
        assert(out@ =~= lower(s@.subrange(0, i as int)));
    }
    assert(s@.subrange(0, s@.len() as int) =~= s@);
    out
}

/// Whether `k` is 1 to 65535 bytes of token characters once lowered.
pub fn is_token_name(k: &[u8]) -> (r: bool)
    ensures
        r == token_name(k@),
{
    let n = k.len();
    if n == 0 || n > 65535 {
        return false;
    }
    let mut i: usize = 0;
    while i < n
        invariant
            n == k@.len(),
            i <= n,
            forall|j: int| 0 <= j < i ==> #[trigger] key_byte(lower_byte(k@[j])),
        decreases n - i,
    {
        let b = k[i];
        let l: u8 = if 65 <= b && b <= 90 {
            b + 32
        } else {
            b
        };
        if !((97 <= l && l <= 122) || (48 <= l && l <= 57) || (33 <= l && l <= 39) || l == 42
            || l == 43 || l == 45 || l == 46 || l == 94 || l == 95 || l == 96 || l == 124 || l
            == 126) {
            assert(!key_byte(lower_byte(k@[i as int])));
            return false;
        }
        i = i + 1;
    }
    true
}

/// Whether `k`, lowered, ends in `-bin`.
pub fn is_binary_name(k: &[u8]) -> (r: bool)
    ensures
        r == binary_suffix(lower(k@)),
{
    let n = k.len();
    let ghost lk = lower(k@);
    if n >= 4 {
        let c0 = k[n - 4];
        let c1 = k[n - 3];
        let c2 = k[n - 2];
        let c3 = k[n - 1];
        assert(lk[n - 4] == lower_byte(c0) && lk[n - 3] == lower_byte(c1));
        assert(lk[n - 2] == lower_byte(c2) && lk[n - 1] == lower_byte(c3));
        c0 == 45 && (c1 == 98 || c1 == 66) && (c2 == 105 || c2 == 73) && (c3 == 110 || c3 == 78)
    } else {
        false
    }
}

/// Whether the carrier would store a text value under the name `k`.
pub fn is_valid_key(k: &[u8]) -> (r: bool)
    ensures
        r == valid_key(k@),
{
    is_token_name(k) && !is_binary_name(k)
}

/// Whether the carrier would store `v` as a value.
pub fn is_valid_value(v: &[u8]) -> (r: bool)
    ensures
        r == valid_value(v@),
{
    let mut i: usize = 0;
    while i < v.len()
        invariant
            i <= v@.len(),
            forall|j: int| 0 <= j < i ==> (32 <= #[trigger] v@[j] && v@[j] <= 126) || v@[j] == 9,
        decreases v@.len() - i,
    {
        if (v[i] < 32 || v[i] > 126) && v[i] != 9 {
            return false;
        }
        i = i + 1;
    }
    true
}

/// Call metadata seen as a map from lower-case names to values.
pub struct Carrier {
    entries: Vec<(Vec<u8>, Vec<u8>)>,
}

impl View for Carrier {
    type V = Seq<(Seq<u8>, Seq<u8>)>;

    /// The entries in the order they were first stored.
    closed spec fn view(&self) -> Seq<(Seq<u8>, Seq<u8>)> {
        self.entries@.map_values(|e: (Vec<u8>, Vec<u8>)| (e.0@, e.1@))
    }
}

impl Carrier {
    /// Names are unique and every entry is in order.
    pub open spec fn wf(&self) -> bool {
        &&& unique_keys(self@)
        &&& forall|i: int| 0 <= i < self@.len() ==> #[trigger] entry_ok(self@[i])
    }

    /// An empty carrier.
    pub fn new() -> (r: Carrier)
        ensures
            r.wf(),
            r@ == Seq::<(Seq<u8>, Seq<u8>)>::empty(),
    {
        let r = Carrier { entries: Vec::new() };
        assert(r@ =~= Seq::<(Seq<u8>, Seq<u8>)>::empty());
        r
    }

    /// Stores `value` under the name `k`, replacing the value of an equal name.
    fn put(&mut self, k: Vec<u8>, value: Vec<u8>)
        requires
            unique_keys(old(self)@),
        ensures
            final(self)@ == store(old(self)@, k@, value@),
    {
        let ghost s = self@;
        let ghost kv = k@;
        let ghost vv = value@;
        let mut i: usize = 0;
        while i < self.entries.len()
            invariant
                self@ == s,
                s == old(self)@,
                unique_keys(s),
                k@ == kv,
                value@ == vv,
                i <= self.entries@.len(),
                s.len() == self.entries@.len(),
                forall|j: int| 0 <= j < i ==> s[j].0 != kv,
            decreases self.entries@.len() - i,
        {
            if bytes_eq(self.entries[i].0.as_slice(), k.as_slice()) {
                assert(s[i as int].0 == kv);
                let ghost c = choose|j: int| 0 <= j < s.len() && s[j].0 == kv;
                assert(c == i) by {
                    if c != i {
                        assert(s[c].0 != s[i as int].0);
                    }
                }
                self.entries.set(i, (k, value));
                assert(self@ =~= store(s, kv, vv));
                return;
            }
            i = i + 1;
        }
        self.entries.push((k, value));
        assert(self@ =~= store(s, kv, vv));
    }

    /// Stores the text `value` under the lowered `key`; an invalid name or
    /// value, or a binary (`-bin`) name, is ignored and leaves the carrier as
    /// it was.
    pub fn set(&mut self, key: &[u8], value: Vec<u8>)
        requires
            old(self).wf(),
        ensures
            final(self).wf(),
            valid_key(key@) && valid_value(value@) ==> final(self)@ == store(
                old(self)@,
                lower(key@),
                value@,
            ),
            !(valid_key(key@) && valid_value(value@)) ==> final(self)@ == old(self)@,
    {
        if !is_valid_key(key) || !is_valid_value(value.as_slice()) {
            return;
        }
        let k = to_lower(key);
        proof {
            lemma_store(self@, k@, value@);
            lemma_lower_idempotent(key@);
            lemma_store_entries_ok(self@, k@, value@);
        }
        self.put(k, value);
    }

    /// Stores the binary `value` under the lowered `key`, which must end in
    /// `-bin`; any other name is ignored and leaves the carrier as it was.
    pub fn set_binary(&mut self, key: &[u8], value: Vec<u8>)
        requires
            old(self).wf(),
        ensures
            final(self).wf(),
            valid_binary_key(key@) ==> final(self)@ == store(old(self)@, lower(key@), value@),
            !valid_binary_key(key@) ==> final(self)@ == old(self)@,
    {
        if !is_token_name(key) || !is_binary_name(key) {
            return;
        }
        let k = to_lower(key);
        proof {
            lemma_store(self@, k@, value@);
            lemma_lower_idempotent(key@);
            lemma_store_entries_ok(self@, k@, value@);
        }
        self.put(k, value);
    }

    /// The value stored under the name `k`, if any.
    fn find(&self, k: &[u8]) -> (r: Option<&Vec<u8>>)
        requires
            unique_keys(self@),
        ensures
            match lookup(self@, k@) {
                Some(v) => r matches Some(x) && x@ == v,
                None => r is None,
            },
    {
        let mut i: usize = 0;
        while i < self.entries.len()
            invariant
                unique_keys(self@),
                i <= self.entries@.len(),
                self@.len() == self.entries@.len(),
                forall|j: int| 0 <= j < i ==> self@[j].0 != k@,
            decreases self.entries@.len() - i,
        {
            if bytes_eq(self.entries[i].0.as_slice(), k) {
                let ghost s = self@;
                assert(s[i as int].0 == k@);
                let ghost c = choose|j: int| 0 <= j < s.len() && s[j].0 == k@;
                assert(c == i) by {
                    if c != i {
                        assert(s[c].0 != s[i as int].0);
                    }
                }
                return Some(&self.entries[i].1);
            }
            i = i + 1;
        }
        None
    }

    /// The text value stored under the lowered `key`, if any; a binary
    /// (`-bin`) name gives `None`.
    pub fn get(&self, key: &[u8]) -> (r: Option<&Vec<u8>>)
        requires
            self.wf(),
        ensures
            binary_suffix(lower(key@)) ==> r is None,
            !binary_suffix(lower(key@)) ==> match lookup(self@, lower(key@)) {
                Some(v) => r matches Some(x) && x@ == v,
                None => r is None,
            },
    {
        if is_binary_name(key) {
            return None;
        }
        let k = to_lower(key);
        self.find(k.as_slice())
    }

    /// The binary value stored under the lowered `key`, if any; a name not
    /// ending in `-bin` gives `None`.
    pub fn get_binary(&self, key: &[u8]) -> (r: Option<&Vec<u8>>)
        requires
            self.wf(),
        ensures
            !binary_suffix(lower(key@)) ==> r is None,
            binary_suffix(lower(key@)) ==> match lookup(self@, lower(key@)) {
                Some(v) => r matches Some(x) && x@ == v,
                None => r is None,
            },
    {
        if !is_binary_name(key) {
            return None;
        }
        let k = to_lower(key);
        self.find(k.as_slice())
    }

    /// The stored names, in the order they were first stored.
    pub fn keys(&self) -> (r: Vec<&Vec<u8>>)
        ensures
            r@.len() == self@.len(),
            forall|i: int| 0 <= i < r@.len() ==> #[trigger] r@[i]@ == self@[i].0,
    {
        let mut out: Vec<&Vec<u8>> = Vec::new();
        let mut i: usize = 0;
        while i < self.entries.len()
            invariant
                i <= self.entries@.len(),
                self@.len() == self.entries@.len(),
                out@.len() == i,
                forall|j: int| 0 <= j < i ==> #[trigger] out@[j]@ == self@[j].0,
            decreases self.entries@.len() - i,
        {
            out.push(&self.entries[i].0);
            i = i + 1;
        }
        out
    }
}

} // verus!
