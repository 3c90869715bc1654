//! The `tracestate` header: vendor `key=value` members joined by commas, in
//! order, at most 32 of them.
use vstd::prelude::*;

verus! {

/// Most members a trace state carries; further ones are dropped from the tail.
pub const MAX_MEMBERS: usize = 32;

/// Longest member key, and longest member value.
pub const MAX_FIELD_LEN: usize = 256;

/// A byte allowed in a member key: `a-z`, `0-9`, `_`, `-`, `*`, `/`, `@`.
pub open spec fn key_char(b: u8) -> bool {
    (97 <= b && b <= 122) || (48 <= b && b <= 57) || b == 95 || b == 45 || b == 42 || b == 47
        || b == 64
}

/// A byte allowed in a member value: visible ASCII other than `,` and `=`.
pub open spec fn value_char(b: u8) -> bool {
    33 <= b && b <= 126 && b != 44 && b != 61
}

pub open spec fn valid_member_key(k: Seq<u8>) -> bool {
    1 <= k.len() <= 256 && forall|i: int| 0 <= i < k.len() ==> #[trigger] key_char(k[i])
}

pub open spec fn valid_member_value(v: Seq<u8>) -> bool {
    1 <= v.len() <= 256 && forall|i: int| 0 <= i < v.len() ==> #[trigger] value_char(v[i])
}

/// A member with a valid key and value.
pub open spec fn valid_member(m: (Seq<u8>, Seq<u8>)) -> bool {
    valid_member_key(m.0) && valid_member_value(m.1)
}

/// Every member has a valid key and value.
pub open spec fn valid_members(e: Seq<(Seq<u8>, Seq<u8>)>) -> bool {
    forall|i: int| 0 <= i < e.len() ==> valid_member(#[trigger] e[i])
}

/// Member `i` of valid members is valid.
pub proof fn lemma_valid_member_at(e: Seq<(Seq<u8>, Seq<u8>)>, i: int)
    requires
        valid_members(e),
        0 <= i < e.len(),
    ensures
        valid_member_key(e[i].0),
        valid_member_value(e[i].1),
{
}

/// `k=v`.
pub open spec fn member(k: Seq<u8>, v: Seq<u8>) -> Seq<u8> {
    k + seq![61u8] + v
}

/// The members written out and joined by commas.
pub open spec fn joined(e: Seq<(Seq<u8>, Seq<u8>)>) -> Seq<u8>
    decreases e.len(),
{
    if e.len() == 0 {
        Seq::empty()
    } else if e.len() == 1 {
        member(e[0].0, e[0].1)
    } else {
        member(e[0].0, e[0].1) + seq![44u8] + joined(e.drop_first())
    }
}

/// The value written for members `e`: the first 32 of them, joined.
pub open spec fn tracestate_of(e: Seq<(Seq<u8>, Seq<u8>)>) -> Seq<u8> {
    joined(e.take(if e.len() <= 32 { e.len() as int } else { 32 }))
}

/// The position of the first `b` in `s`, or the length of `s` if there is none.
pub open spec fn find(s: Seq<u8>, b: u8) -> nat
    decreases s.len(),
{
    if s.len() == 0 {
        0
    } else if s[0] == b {
        0
    } else {
        1 + find(s.drop_first(), b)
    }
}

/// The member `m` as a key and a value, split at its first `=`.
pub open spec fn parse_member(m: Seq<u8>) -> Option<(Seq<u8>, Seq<u8>)> {
    let i = find(m, 61u8) as int;
    if i < m.len() && valid_member_key(m.take(i)) && valid_member_value(m.skip(i + 1)) {
        Some((m.take(i), m.skip(i + 1)))
    } else {
        None
    }
}

/// The members of `s`, split at commas; `None` if any member is malformed.
pub open spec fn parse_members(s: Seq<u8>) -> Option<Seq<(Seq<u8>, Seq<u8>)>>
    decreases s.len(),
{
    let i = find(s, 44u8) as int;
    match parse_member(s.take(i)) {
        None => None,
        Some(m) => if i >= s.len() {
            Some(seq![m])
        } else {
            match parse_members(s.skip(i + 1)) {
                Some(rest) => Some(seq![m] + rest),
                None => None,
            }
        },
    }
}

/// The trace state that the value `s` carries: none for an empty value, the
/// first 32 members of a well-formed one, and `None` for a malformed one.
pub open spec fn parse_tracestate(s: Seq<u8>) -> Option<Seq<(Seq<u8>, Seq<u8>)>> {
    if s.len() == 0 {
        Some(Seq::empty())
    } else {
        match parse_members(s) {
            Some(e) => Some(e.take(if e.len() <= 32 { e.len() as int } else { 32 })),
            None => None,
        }
    }
}

pub proof fn lemma_find_bound(s: Seq<u8>, b: u8)
    ensures
        find(s, b) <= s.len(),
        find(s, b) < s.len() ==> s[find(s, b) as int] == b,
        forall|j: int| 0 <= j < find(s, b) ==> s[j] != b,
    decreases s.len(),
{
    if s.len() > 0 && s[0] != b {
        lemma_find_bound(s.drop_first(), b);
        assert forall|j: int| 0 <= j < find(s, b) implies s[j] != b by {
            if j > 0 {
                assert(s[j] == s.drop_first()[j - 1]);
            }
        }
    }
}

/// The first `b` in `a + c`, where `a` holds none, lies in `c`.
pub proof fn lemma_find_concat(a: Seq<u8>, c: Seq<u8>, b: u8)
    requires
        forall|j: int| 0 <= j < a.len() ==> a[j] != b,
    ensures
        find(a + c, b) == a.len() + find(c, b),
    decreases a.len(),
{
    if a.len() > 0 {
        let t = a + c;
        assert(t.drop_first() =~= a.drop_first() + c);
        assert(t[0] == a[0]);
        lemma_find_concat(a.drop_first(), c, b);
    } else {
        assert(a + c =~= c);
    }
}

proof fn lemma_member_parts(k: Seq<u8>, v: Seq<u8>)
    requires
        valid_member_key(k),
        valid_member_value(v),
    ensures
        parse_member(member(k, v)) == Some((k, v)),
        forall|j: int| 0 <= j < member(k, v).len() ==> member(k, v)[j] != 44u8,
{
    let m = member(k, v);
    assert forall|j: int| 0 <= j < k.len() implies k[j] != 61u8 by {
        assert(key_char(k[j]));
    }
    lemma_find_concat(k, seq![61u8] + v, 61u8);
    assert(m =~= k + (seq![61u8] + v));
    assert(m.take(k.len() as int) =~= k);
    assert(m.skip(k.len() as int + 1) =~= v);
    assert forall|j: int| 0 <= j < m.len() implies m[j] != 44u8 by {
        if j < k.len() {
            assert(key_char(k[j]));
        } else if j > k.len() {
            assert(value_char(v[j - k.len() - 1]));
        }
    }
}

/// Valid members, joined, split back into the same members.
pub proof fn lemma_members_round_trip(e: Seq<(Seq<u8>, Seq<u8>)>)
    requires
        valid_members(e),
        e.len() >= 1,
    ensures
        parse_members(joined(e)) == Some(e),
    decreases e.len(),
{
    let k = e[0].0;
    let v = e[0].1;
    let m = member(k, v);
    assert(valid_member(e[0]));
    lemma_member_parts(k, v);
    let s = joined(e);
    if e.len() == 1 {
        lemma_find_concat(m, Seq::empty(), 44u8);
        assert(m + Seq::<u8>::empty() =~= m);
        assert(s.take(m.len() as int) =~= m);
        assert(e =~= seq![(k, v)]);
    } else {
        let rest = e.drop_first();
        assert forall|i: int| 0 <= i < rest.len() implies valid_member(#[trigger] rest[i]) by {
            assert(rest[i] == e[i + 1]);
        }
        lemma_members_round_trip(rest);
        lemma_find_concat(m, seq![44u8] + joined(rest), 44u8);
        assert(s =~= m + (seq![44u8] + joined(rest)));
        assert(s.take(m.len() as int) =~= m);
        assert(s.skip(m.len() as int + 1) =~= joined(rest));
        assert(e =~= seq![(k, v)] + rest);
    }
}

/// Writing members out and reading them back gives the first 32 of them.
pub proof fn lemma_tracestate_round_trip(e: Seq<(Seq<u8>, Seq<u8>)>)
    requires
        valid_members(e),
    ensures
        parse_tracestate(tracestate_of(e)) == Some(e.take(if e.len() <= 32 { e.len() as int } else { 32 })),
{
    let n = if e.len() <= 32 { e.len() as int } else { 32 };
    let t = e.take(n);
    if t.len() == 0 {
        assert(t =~= Seq::<(Seq<u8>, Seq<u8>)>::empty());
    } else {
        assert forall|i: int| 0 <= i < t.len() implies valid_member(#[trigger] t[i]) by {
            assert(t[i] == e[i]);
            assert(valid_member(e[i]));
        }
        lemma_members_round_trip(t);
        assert(member(t[0].0, t[0].1).len() >= 2);
        assert(joined(t).len() > 0) by {
            reveal_with_fuel(joined, 2);
        }
        assert(t.take(t.len() as int) =~= t);
    }
}

/// Members read from a well-formed value are valid.
pub proof fn lemma_parsed_members_valid(s: Seq<u8>)
    ensures
        parse_members(s) matches Some(e) ==> valid_members(e),
    decreases s.len(),
{
    let i = find(s, 44u8) as int;
    lemma_find_bound(s, 44u8);
    if i < s.len() {
        lemma_parsed_members_valid(s.skip(i + 1));
    }
    if let Some(e) = parse_members(s) {
        assert forall|j: int| 0 <= j < e.len() implies valid_member(#[trigger] e[j]) by {
            if j > 0 {
                let rest = parse_members(s.skip(i + 1))->Some_0;
                assert(e[j] == rest[j - 1]);
            }
        }
    }
}

/// Joining one more member adds a comma, where there were members, and the member.
pub proof fn lemma_joined_push(e: Seq<(Seq<u8>, Seq<u8>)>, x: (Seq<u8>, Seq<u8>))
    ensures
        joined(e.push(x)) == if e.len() == 0 {
            member(x.0, x.1)
        } else {
            joined(e) + seq![44u8] + member(x.0, x.1)
        },
    decreases e.len(),
{
    let p = e.push(x);
    if e.len() == 0 {
        assert(p[0] == x);
    } else if e.len() == 1 {
        assert(p.drop_first() =~= seq![x]);
        assert(p.drop_first()[0] == x);
        assert(joined(p.drop_first()) == member(x.0, x.1));
        assert(p[0] == e[0]);
        assert(joined(e) == member(e[0].0, e[0].1));
        assert(joined(p) =~= joined(e) + seq![44u8] + member(x.0, x.1));
    } else {
        assert(p[0] == e[0]);
        assert(p.drop_first() =~= e.drop_first().push(x));
        lemma_joined_push(e.drop_first(), x);
        assert(joined(p) =~= joined(e) + seq![44u8] + member(x.0, x.1));
    }
}

/// The value written for valid members is printable ASCII.
pub proof fn lemma_joined_printable(e: Seq<(Seq<u8>, Seq<u8>)>)
    requires
        valid_members(e),
    ensures
        forall|i: int| 0 <= i < joined(e).len() ==> 32 <= #[trigger] joined(e)[i] && joined(e)[i] <= 126,
    decreases e.len(),
{
    if e.len() > 0 {
        let k = e[0].0;
        let v = e[0].1;
        assert(valid_member(e[0]));
        let m = member(k, v);
        assert forall|j: int| 0 <= j < m.len() implies 32 <= #[trigger] m[j] && m[j] <= 126 by {
            if j < k.len() {
                assert(key_char(k[j]));
            } else if j > k.len() {
                assert(value_char(v[j - k.len() - 1]));
            }
        }
        if e.len() > 1 {
            let rest = e.drop_first();
            assert forall|i: int| 0 <= i < rest.len() implies valid_member(#[trigger] rest[i]) by {
                assert(rest[i] == e[i + 1]);
                assert(valid_member(e[i + 1]));
            }
            lemma_joined_printable(rest);
            let j = joined(e);
            assert forall|i: int| 0 <= i < j.len() implies 32 <= #[trigger] j[i] && j[i] <= 126 by {
                if i < m.len() {
                    assert(j[i] == m[i]);
                } else if i > m.len() {
                    assert(j[i] == joined(rest)[i - m.len() - 1]);
                }
            }
        }
    }
}

/// The bytes `s[a..b]` as a vector.
fn copy_range(s: &[u8], a: usize, b: usize) -> (r: Vec<u8>)
    requires
        a <= b <= s@.len(),
    ensures
        r@ == s@.subrange(a as int, b as int),
{
    let mut out: Vec<u8> = Vec::new();
    let mut i: usize = a;
    while i < b
        invariant
            a <= i <= b <= s@.len(),
            out@ =~= s@.subrange(a as int, i as int),
        decreases b - i,
    {
        out.push(s[i]);
        i = i + 1;
    }
    out
}

/// Appends the bytes of `src` to `out`.
fn append_bytes(out: &mut Vec<u8>, src: &[u8])
    ensures
        final(out)@ == old(out)@ + src@,
{
    let mut i: usize = 0;
    while i < src.len()
        invariant
            i <= src@.len(),
            out@ =~= old(out)@ + src@.subrange(0, i as int),
        decreases src@.len() - i,
    {
        out.push(src[i]);
        i = i + 1;
    }
    assert(src@.subrange(0, src@.len() as int) =~= src@);
}

/// The position of the first `b` in `s` at or after `start`, or the length of `s`.
fn find_byte(s: &[u8], start: usize, b: u8) -> (r: usize)
    requires
        start <= s@.len(),
    ensures
        r == start + find(s@.skip(start as int), b),
{
    let mut i: usize = start;
    while i < s.len()
        invariant
            start <= i <= s@.len(),
            find(s@.skip(start as int), b) == (i - start) + find(s@.skip(i as int), b),
        decreases s@.len() - i,
    {
        if s[i] == b {
            return i;
        }
        assert(s@.skip(i as int).drop_first() =~= s@.skip(i + 1));
        i = i + 1;
    }
    i
}

/// Whether every byte of `s[a..b]` passes as a key byte (`key` true) or a value byte.
fn all_chars(s: &[u8], a: usize, b: usize, key: bool) -> (r: bool)
    requires
        a <= b <= s@.len(),
    ensures
        r == forall|j: int| a <= j < b ==> if key { key_char(#[trigger] s@[j]) } else { value_char(s@[j]) },
{
    let mut i: usize = a;
    while i < b
        invariant
            a <= i <= b <= s@.len(),
            forall|j: int| a <= j < i ==> if key { key_char(#[trigger] s@[j]) } else { value_char(s@[j]) },
        decreases b - i,
    {
        let c = s[i];
        let ok = if key {
            (97 <= c && c <= 122) || (48 <= c && c <= 57) || c == 95 || c == 45 || c == 42 || c == 47 || c == 64
        } else {
            33 <= c && c <= 126 && c != 44 && c != 61
        };
        if !ok {
            return false;
        }
        i = i + 1;
    }
    true
}

/// Splits the member `s[a..b]` at its first `=`.
fn split_member(s: &[u8], a: usize, b: usize) -> (r: Option<(Vec<u8>, Vec<u8>)>)
    requires
        a <= b <= s@.len(),
    ensures
        match parse_member(s@.subrange(a as int, b as int)) {
            Some(kv) => r matches Some(x) && x.0@ == kv.0 && x.1@ == kv.1,
            None => r is None,
        },
{
    let ghost m = s@.subrange(a as int, b as int);
    let e = find_byte(s, a, 61u8);
    let ghost i = find(m, 61u8) as int;
    proof {
        lemma_find_bound(s@.skip(a as int), 61u8);
        lemma_find_bound(m, 61u8);
        let f = find(s@.skip(a as int), 61u8) as int;
        if f < b - a {
            assert(m.take(f) =~= s@.skip(a as int).take(f));
            lemma_find_concat(m.take(f), m.skip(f), 61u8);
            assert(m.take(f) + m.skip(f) =~= m);
        } else {
            assert forall|j: int| 0 <= j < m.len() implies m[j] != 61u8 by {
                assert(m[j] == s@.skip(a as int)[j]);
            }
            lemma_find_concat(m, Seq::empty(), 61u8);
            assert(m + Seq::<u8>::empty() =~= m);
        }
    }
    if e >= b {
        return None;
    }
    assert(e == a + i);
    if e - a < 1 || e - a > MAX_FIELD_LEN || b - e - 1 < 1 || b - e - 1 > MAX_FIELD_LEN {
        return None;
    }
    let key_ok = all_chars(s, a, e, true);
    let value_ok = all_chars(s, e + 1, b, false);
    proof {
        assert forall|j: int| 0 <= j < m.take(i).len() implies #[trigger] key_char(m.take(i)[j]) == key_char(s@[a + j]) by {}
        assert forall|j: int| 0 <= j < m.skip(i + 1).len() implies #[trigger] value_char(m.skip(i + 1)[j]) == value_char(s@[e + 1 + j]) by {}
        if key_ok {
            assert forall|j: int| 0 <= j < m.take(i).len() implies #[trigger] key_char(m.take(i)[j]) by {
                assert(key_char(s@[a + j]));
            }
        } else {
            let j = choose|j: int| a <= j < e && !key_char(#[trigger] s@[j]);
            assert(m.take(i)[j - a] == s@[j]);
        }
        if value_ok {
            assert forall|j: int| 0 <= j < m.skip(i + 1).len() implies #[trigger] value_char(m.skip(i + 1)[j]) by {
                assert(value_char(s@[e + 1 + j]));
            }
        } else {
            let j = choose|j: int| e + 1 <= j < b && !value_char(#[trigger] s@[j]);
            assert(m.skip(i + 1)[j - e - 1] == s@[j]);
        }
    }
    if !key_ok || !value_ok {
        return None;
    }
    let k = copy_range(s, a, e);
    let v = copy_range(s, e + 1, b);
    assert(k@ =~= m.take(i));
    assert(v@ =~= m.skip(i + 1));
    Some((k, v))
}

/// Vendor state carried beside the trace context: valid members, in order.
pub struct TraceState {
    members: Vec<(Vec<u8>, Vec<u8>)>,
}

impl View for TraceState {
    type V = Seq<(Seq<u8>, Seq<u8>)>;

    closed spec fn view(&self) -> Seq<(Seq<u8>, Seq<u8>)> {
        self.members@.map_values(|e: (Vec<u8>, Vec<u8>)| (e.0@, e.1@))
    }
}

impl TraceState {
    pub open spec fn wf(&self) -> bool {
        valid_members(self@)
    }

    /// A state without members.
    pub fn new() -> (r: TraceState)
        ensures
            r.wf(),
            r@ == Seq::<(Seq<u8>, Seq<u8>)>::empty(),
    {
        let r = TraceState { members: Vec::new() };
        assert(r@ =~= Seq::<(Seq<u8>, Seq<u8>)>::empty());
        r
    }

    pub fn len(&self) -> (r: usize)
        ensures
            r == self@.len(),
    {
        self.members.len()
    }

    /// The key and value of member `i`.
    pub fn member(&self, i: usize) -> (r: (&Vec<u8>, &Vec<u8>))
        requires
            i < self@.len(),
        ensures
            r.0@ == self@[i as int].0,
            r.1@ == self@[i as int].1,
    {
        (&self.members[i].0, &self.members[i].1)
    }

    /// Adds the member `key=value` at the end, if both are valid; the result
    /// tells whether it was added.
    pub fn push(&mut self, key: Vec<u8>, value: Vec<u8>) -> (r: bool)
        requires
            old(self).wf(),
        ensures
            final(self).wf(),
            r == (valid_member_key(key@) && valid_member_value(value@)),
            r ==> final(self)@ == old(self)@.push((key@, value@)),
            !r ==> final(self)@ == old(self)@,
    {
        let kl = key.len();
        let vl = value.len();
        if kl < 1 || kl > MAX_FIELD_LEN || vl < 1 || vl > MAX_FIELD_LEN {
            return false;
        }
        let key_ok = all_chars(key.as_slice(), 0, kl, true);
        let value_ok = all_chars(value.as_slice(), 0, vl, false);
        if !key_ok || !value_ok {
            proof {
                if !key_ok {
                    let j = choose|j: int| 0 <= j < kl && !key_char(#[trigger] key@[j]);
                }
                if !value_ok {
                    let j = choose|j: int| 0 <= j < vl && !value_char(#[trigger] value@[j]);
                }
            }
            return false;
        }
        let ghost old_view = self@;
        self.members.push((key, value));
        assert(self@ =~= old_view.push((key@, value@)));
        proof {
            assert forall|i: int| 0 <= i < self@.len() implies valid_member(#[trigger] self@[i]) by {
                if i < old_view.len() {
                    lemma_valid_member_at(old_view, i);
                }
            }
        }
        true
    }
}

/// Writes the `tracestate` value of `state`: its first 32 members, joined.
pub fn encode_tracestate(state: &TraceState) -> (r: Vec<u8>)
    ensures
        r@ == tracestate_of(state@),
{
    let n: usize = if state.members.len() <= MAX_MEMBERS {
        state.members.len()
    } else {
        MAX_MEMBERS
    };
    let ghost e = state@;
    let mut out: Vec<u8> = Vec::new();
    let mut j: usize = 0;
    while j < n
        invariant
            n <= state.members@.len(),
            e == state@,
            e.len() == state.members@.len(),
            n == if e.len() <= 32 { e.len() as int } else { 32 },
            j <= n,
            out@ == joined(e.take(j as int)),
        decreases n - j,
    {
        proof {
            assert(e.take(j + 1) =~= e.take(j as int).push(e[j as int]));
            lemma_joined_push(e.take(j as int), e[j as int]);
        }
        if j > 0 {
            out.push(44u8);
        }
        append_bytes(&mut out, state.members[j].0.as_slice());
        out.push(61u8);
        append_bytes(&mut out, state.members[j].1.as_slice());
        j = j + 1;
        assert(out@ =~= joined(e.take(j as int)));
    }
    out
}

/// Reads a `tracestate` value: an empty one gives no members, a well-formed
/// one its first 32 members, and a malformed one `None`.
pub fn decode_tracestate(s: &[u8]) -> (r: Option<TraceState>)
    ensures
        match parse_tracestate(s@) {
            Some(e) => r matches Some(t) && t@ == e && t.wf(),
            None => r is None,
        },
{
    if s.len() == 0 {
        return Some(TraceState::new());
    }
    proof {
        lemma_parsed_members_valid(s@);
    }
    let mut members: Vec<(Vec<u8>, Vec<u8>)> = Vec::new();
    let mut pos: usize = 0;
    assert(s@.skip(0) =~= s@);
    proof {
        if let Some(rest) = parse_members(s@) {
            assert(members@.map_values(|e: (Vec<u8>, Vec<u8>)| (e.0@, e.1@)) + rest =~= rest);
        }
    }
    loop
        invariant
            pos <= s@.len(),
            s@.len() > 0,
            parse_members(s@) matches Some(e) ==> valid_members(e),
            parse_members(s@) == match parse_members(s@.skip(pos as int)) {
                Some(rest) => Some(members@.map_values(|e: (Vec<u8>, Vec<u8>)| (e.0@, e.1@)) + rest),
                None => None,
            },
        decreases s@.len() - pos,
    {
        let ghost t = s@.skip(pos as int);
        let i = find_byte(s, pos, 44u8);
        proof {
            lemma_find_bound(t, 44u8);
            assert(t.take(i - pos) =~= s@.subrange(pos as int, i as int));
        }
        let ghost before = members@.map_values(|e: (Vec<u8>, Vec<u8>)| (e.0@, e.1@));
        match split_member(s, pos, i) {
            None => {
                return None;
            },
            Some(kv) => {
                members.push(kv);
                proof {
                    let now_view = members@.map_values(|e: (Vec<u8>, Vec<u8>)| (e.0@, e.1@));
                    let m = parse_member(t.take(i - pos))->Some_0;
                    assert(now_view =~= before + seq![m]);
                }
                if i >= s.len() {
                    let ghost all = members@.map_values(|e: (Vec<u8>, Vec<u8>)| (e.0@, e.1@));
                    proof {
                        let m = parse_member(t.take(i - pos))->Some_0;
                        assert(all =~= before + seq![m]);
                        assert(parse_members(t) == Some(seq![m]));
                        assert(parse_members(s@) == Some(all));
                    }
                    members.truncate(MAX_MEMBERS);
                    let r = TraceState { members };
                    let ghost n = if all.len() <= 32 { all.len() as int } else { 32 };
                    assert(r@ =~= all.take(n));
                    proof {
                        assert forall|j: int| 0 <= j < r@.len() implies valid_member(#[trigger] r@[j]) by {
                            assert(r@[j] == all[j]);
                            lemma_valid_member_at(all, j);
                        }
                    }
                    return Some(r);
                }
                proof {
                    assert(t.skip(i - pos + 1) =~= s@.skip(i + 1));
                    let m = parse_member(t.take(i - pos))->Some_0;
                    match parse_members(s@.skip(i + 1)) {
                        Some(rest) => {
                            assert(before + (seq![m] + rest) =~= before + seq![m] + rest);
                        },
                        None => {},
                    }
                }
                pos = i + 1;
            },
        }
    }
}

} // verus!
