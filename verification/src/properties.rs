//! Properties of a class, paired from its `get_`/`set_` accessor methods.

use vstd::prelude::*;
use vstd::string::*;
use crate::class::Class;
use crate::model::{
    Method, Property, access_name, chars_in_bytes, duplicate_opt, from_byte, primary_accessor,
    same_opt_method,
};
use crate::text::{chars_of, starts_with};

verus! {

/// `a` comes strictly before `b` in lexicographic order of characters
/// (for UTF-8 strings, the order of their bytes).
pub open spec fn lex_lt(a: Seq<char>, b: Seq<char>) -> bool
    decreases a.len(),
{
    if a.len() == 0 {
        b.len() > 0
    } else if b.len() == 0 {
        false
    } else if a[0] != b[0] {
        a[0] < b[0]
    } else {
        lex_lt(a.drop_first(), b.drop_first())
    }
}

/// The lexicographic order is irreflexive.
pub proof fn lemma_lex_irreflexive(a: Seq<char>)
    ensures
        !lex_lt(a, a),
    decreases a.len(),
{
    if a.len() > 0 {
        lemma_lex_irreflexive(a.drop_first());
    }
}

/// Two different sequences are ordered one way or the other.
pub proof fn lemma_lex_total(a: Seq<char>, b: Seq<char>)
    requires
        a != b,
    ensures
        lex_lt(a, b) || lex_lt(b, a),
    decreases a.len(),
{
    if a.len() == 0 {
        assert(b.len() > 0) by {
            if b.len() == 0 {
                assert(a =~= b);
            }
        }
    } else if b.len() == 0 {
    } else if a[0] != b[0] {
    } else {
        if a.drop_first() == b.drop_first() {
            assert(a =~= seq![a[0]] + a.drop_first());
            assert(b =~= seq![b[0]] + b.drop_first());
        }
        lemma_lex_total(a.drop_first(), b.drop_first());
    }
}

/// The lexicographic order is transitive.
pub proof fn lemma_lex_transitive(a: Seq<char>, b: Seq<char>, c: Seq<char>)
    requires
        lex_lt(a, b),
        lex_lt(b, c),
    ensures
        lex_lt(a, c),
    decreases a.len(),
{
    if a.len() > 0 && b.len() > 0 && c.len() > 0 && a[0] == b[0] && b[0] == c[0] {
        lemma_lex_transitive(a.drop_first(), b.drop_first(), c.drop_first());
    }
}

/// Whether `a` and `b` hold the same characters.
pub fn same_chars(a: &Vec<char>, b: &Vec<char>) -> (r: bool)
    ensures
        r == (a@ == b@),
{
    if a.len() != b.len() {
        return false;
    }
    let mut i: usize = 0;
    while i < a.len()
        invariant
            a@.len() == b@.len(),
            i <= a@.len(),
            forall|k: int| 0 <= k < i ==> a@[k] == b@[k],
        decreases a.len() - i,
    {
        if a[i] != b[i] {
            return false;
        }
        i = i + 1;
    }
    assert(a@ =~= b@);
    true
}

/// Whether `a` comes strictly before `b`, character by character.
pub fn lex_less(a: &Vec<char>, b: &Vec<char>) -> (r: bool)
    ensures
        r == lex_lt(a@, b@),
{
    let mut i: usize = 0;
    assert(a@.skip(0) =~= a@ && b@.skip(0) =~= b@);
    while i < a.len() && i < b.len() && a[i] == b[i]
        invariant
            i <= a@.len(),
            i <= b@.len(),
            lex_lt(a@, b@) == lex_lt(a@.skip(i as int), b@.skip(i as int)),
        decreases a.len() - i,
    {
        proof {
            let sa = a@.skip(i as int);
            let sb = b@.skip(i as int);
            assert(sa.drop_first() =~= a@.skip(i + 1));
            assert(sb.drop_first() =~= b@.skip(i + 1));
        }
        i = i + 1;
    }
    if i == a.len() {
        i < b.len()
    } else if i == b.len() {
        false
    } else {
        a[i] < b[i]
    }
}

/// A getter: named `get_...` and taking no argument.
pub open spec fn is_getter(m: Method) -> bool {
    starts_with(m.name@, "get_"@) && m.args@.len() == 0
}

/// A setter: named `set_...` and taking one argument.
pub open spec fn is_setter(m: Method) -> bool {
    starts_with(m.name@, "set_"@) && m.args@.len() == 1
}

/// A getter or a setter.
pub open spec fn is_accessor(m: Method) -> bool {
    is_getter(m) || is_setter(m)
}

/// The property an accessor belongs to: its name after the prefix.
pub open spec fn accessor_key(m: Method) -> Seq<char> {
    m.name@.skip(4)
}

/// Index of the last getter of property `key` in `ms`.
pub open spec fn last_getter(ms: Seq<Method>, key: Seq<char>) -> Option<int>
    decreases ms.len(),
{
    if ms.len() == 0 {
        None
    } else if is_getter(ms.last()) && accessor_key(ms.last()) == key {
        Some(ms.len() - 1)
    } else {
        last_getter(ms.drop_last(), key)
    }
}

/// Index of the last setter of property `key` in `ms`.
pub open spec fn last_setter(ms: Seq<Method>, key: Seq<char>) -> Option<int>
    decreases ms.len(),
{
    if ms.len() == 0 {
        None
    } else if is_setter(ms.last()) && accessor_key(ms.last()) == key {
        Some(ms.len() - 1)
    } else {
        last_setter(ms.drop_last(), key)
    }
}

/// Some accessor in `ms` belongs to property `key`.
pub open spec fn is_property_key(ms: Seq<Method>, key: Seq<char>) -> bool {
    exists|i: int| 0 <= i < ms.len() && is_accessor(#[trigger] ms[i]) && accessor_key(ms[i]) == key
}

/// The method at an optional index.
pub open spec fn method_at(ms: Seq<Method>, o: Option<int>) -> Option<Method> {
    match o {
        Some(i) => Some(ms[i]),
        None => None,
    }
}

/// `p` is the property that the accessors of `key` in `ms` make: the
/// last getter and the last setter of that name, combined as
/// `Property::from_methods` combines them.
pub open spec fn archived(p: Property, ms: Seq<Method>, key: Seq<char>) -> bool {
    let g = method_at(ms, last_getter(ms, key));
    let s = method_at(ms, last_setter(ms, key));
    let m = primary_accessor(g, s);
    &&& p.name@ == key
    &&& same_opt_method(p.getter, g)
    &&& same_opt_method(p.setter, s)
    &&& p.is_static == m.is_static
    &&& p.access@ == access_name(m.flags & 7)
    &&& p.instance is None
    &&& if g is Some {
        p.type_info == g.unwrap().return_type
    } else {
        p.type_info == s.unwrap().args@[0].type_info
    }
}

/// `ps` are the properties of the accessors `ms`: one per property name,
/// in ascending order of name.
pub open spec fn properties_of(ms: Seq<Method>, ps: Seq<Property>) -> bool {
    &&& forall|i: int, j: int| 0 <= i < j < ps.len() ==> lex_lt(ps[i].name@, ps[j].name@)
    &&& forall|i: int|
        0 <= i < ps.len() ==> is_property_key(ms, #[trigger] ps[i].name@) && archived(
            ps[i],
            ms,
            ps[i].name@,
        )
    &&& forall|key: Seq<char>|
        is_property_key(ms, key) ==> exists|i: int| 0 <= i < ps.len() && #[trigger] ps[i].name@ == key
}

proof fn lemma_prefix_bytes(s: Seq<char>, prefix: Seq<char>)
    requires
        prefix.len() == 4,
        forall|k: int| 0 <= k < 4 ==> (#[trigger] prefix[k] as u32) < 0x80,
        starts_with(s, prefix),
    ensures
        chars_in_bytes(s, 4) == Some(4int),
        from_byte(s, 4) == s.skip(4),
{
    let s1 = s.drop_first();
    let s2 = s1.drop_first();
    let s3 = s2.drop_first();
    assert(s[0] == prefix[0] && s[1] == prefix[1] && s[2] == prefix[2] && s[3] == prefix[3]) by {
        assert(s.subrange(0, 4)[0] == s[0]);
        assert(s.subrange(0, 4)[1] == s[1]);
        assert(s.subrange(0, 4)[2] == s[2]);
        assert(s.subrange(0, 4)[3] == s[3]);
    }
    assert(s1[0] == s[1] && s2[0] == s[2] && s3[0] == s[3]);
    assert(chars_in_bytes(s3.drop_first(), 0) == Some(0int));
    assert(chars_in_bytes(s3, 1) == Some(1int));
    assert(chars_in_bytes(s2, 2) == Some(2int));
    assert(chars_in_bytes(s1, 3) == Some(3int));
    assert(chars_in_bytes(s, 4) == Some(4int));
}

proof fn lemma_accessor_bytes(m: Method)
    requires
        is_accessor(m),
    ensures
        chars_in_bytes(m.name@, 4) == Some(4int),
        from_byte(m.name@, 4) == accessor_key(m),
{
    reveal_strlit("get_");
    reveal_strlit("set_");
    if is_getter(m) {
        lemma_prefix_bytes(m.name@, "get_"@);
    } else {
        lemma_prefix_bytes(m.name@, "set_"@);
    }
}

fn method_is_getter(m: &Method) -> (r: bool)
    ensures
        r == is_getter(*m),
{
    let v = chars_of(m.name.as_str());
    let p = chars_of("get_");
    proof {
        reveal_strlit("get_");
    }
    if v.len() < 4 || m.args.len() != 0 {
        return false;
    }
    let r = v[0] == p[0] && v[1] == p[1] && v[2] == p[2] && v[3] == p[3];
    assert(r == (v@.subrange(0, 4) =~= "get_"@));
    r
}

fn method_is_setter(m: &Method) -> (r: bool)
    ensures
        r == is_setter(*m),
{
    let v = chars_of(m.name.as_str());
    let p = chars_of("set_");
    proof {
        reveal_strlit("set_");
    }
    if v.len() < 4 || m.args.len() != 1 {
        return false;
    }
    let r = v[0] == p[0] && v[1] == p[1] && v[2] == p[2] && v[3] == p[3];
    assert(r == (v@.subrange(0, 4) =~= "set_"@));
    r
}

/// The optional index as an integer.
pub open spec fn index_of(o: Option<usize>) -> Option<int> {
    match o {
        Some(i) => Some(i as int),
        None => None,
    }
}

/// One pending property: its name and the indices of its last getter and
/// last setter so far.
struct Pending {
    key: Vec<char>,
    getter: Option<usize>,
    setter: Option<usize>,
}

spec fn pending_ok(e: Seq<Pending>, ms: Seq<Method>) -> bool {
    &&& forall|i: int, j: int| 0 <= i < j < e.len() ==> lex_lt(e[i].key@, e[j].key@)
    &&& forall|i: int|
        0 <= i < e.len() ==> {
            &&& is_property_key(ms, #[trigger] e[i].key@)
            &&& index_of(e[i].getter) == last_getter(ms, e[i].key@)
            &&& index_of(e[i].setter) == last_setter(ms, e[i].key@)
        }
    &&& forall|key: Seq<char>|
        is_property_key(ms, key) ==> exists|i: int| 0 <= i < e.len() && #[trigger] e[i].key@ == key
}

proof fn lemma_step(ms: Seq<Method>, n: int, key: Seq<char>)
    requires
        0 <= n < ms.len(),
    ensures
        last_getter(ms.take(n + 1), key) == (if is_getter(ms[n]) && accessor_key(ms[n]) == key {
            Some(n)
        } else {
            last_getter(ms.take(n), key)
        }),
        last_setter(ms.take(n + 1), key) == (if is_setter(ms[n]) && accessor_key(ms[n]) == key {
            Some(n)
        } else {
            last_setter(ms.take(n), key)
        }),
        is_property_key(ms.take(n + 1), key) == (is_property_key(ms.take(n), key) || (is_accessor(
            ms[n],
        ) && accessor_key(ms[n]) == key)),
{
    let t = ms.take(n + 1);
    assert(t.drop_last() =~= ms.take(n));
    assert(t.last() == ms[n]);
    if is_property_key(t, key) {
        let i = choose|i: int| 0 <= i < t.len() && is_accessor(#[trigger] t[i]) && accessor_key(t[i]) == key;
        if i < n {
            assert(ms.take(n)[i] == t[i]);
        }
    }
    if is_property_key(ms.take(n), key) {
        let i = choose|i: int| 0 <= i < ms.take(n).len() && is_accessor(#[trigger] ms.take(n)[i])
            && accessor_key(ms.take(n)[i]) == key;
        assert(t[i] == ms.take(n)[i]);
    }
    if is_accessor(ms[n]) && accessor_key(ms[n]) == key {
        assert(t[n] == ms[n]);
    }
}

proof fn lemma_last_in_range(ms: Seq<Method>, key: Seq<char>)
    ensures
        last_getter(ms, key) matches Some(i) ==> 0 <= i < ms.len() && is_getter(ms[i])
            && accessor_key(ms[i]) == key,
        last_setter(ms, key) matches Some(i) ==> 0 <= i < ms.len() && is_setter(ms[i])
            && accessor_key(ms[i]) == key,
        is_property_key(ms, key) ==> last_getter(ms, key) is Some || last_setter(ms, key) is Some,
    decreases ms.len(),
{
    if ms.len() > 0 {
        let d = ms.drop_last();
        lemma_last_in_range(d, key);
        if last_getter(ms, key) != Some(ms.len() - 1) {
            if let Some(i) = last_getter(d, key) {
                assert(ms[i] == d[i]);
            }
        }
        if last_setter(ms, key) != Some(ms.len() - 1) {
            if let Some(i) = last_setter(d, key) {
                assert(ms[i] == d[i]);
            }
        }
        if is_property_key(ms, key) && !(is_accessor(ms.last()) && accessor_key(ms.last()) == key) {
            let i = choose|i: int| 0 <= i < ms.len() && is_accessor(#[trigger] ms[i]) && accessor_key(ms[i]) == key;
            assert(i != ms.len() - 1);
            assert(d[i] == ms[i]);
        }
    }
}

spec fn sorted_keys(e: Seq<Pending>) -> bool {
    forall|i: int, j: int| 0 <= i < j < e.len() ==> lex_lt(e[i].key@, e[j].key@)
}

/// Where `key` stands among the sorted pending keys: its index and `true`
/// when it is there; else the index it would be inserted at and `false`.
fn find_slot(pending: &Vec<Pending>, key: &Vec<char>) -> (r: (usize, bool))
    requires
        sorted_keys(pending@),
    ensures
        r.0 <= pending@.len(),
        r.1 ==> r.0 < pending@.len() && pending@[r.0 as int].key@ == key@,
        !r.1 ==> forall|q: int| 0 <= q < pending@.len() ==> #[trigger] pending@[q].key@ != key@,
        !r.1 ==> forall|q: int| 0 <= q < r.0 ==> lex_lt(#[trigger] pending@[q].key@, key@),
        !r.1 ==> forall|q: int| r.0 <= q < pending@.len() ==> lex_lt(key@, #[trigger] pending@[q].key@),
{
    let mut i: usize = 0;
    while i < pending.len()
        invariant
            i <= pending@.len(),
            sorted_keys(pending@),
            forall|q: int| 0 <= q < i ==> lex_lt(#[trigger] pending@[q].key@, key@),
        decreases pending.len() - i,
    {
        if same_chars(&pending[i].key, key) {
            return (i, true);
        }
        if !lex_less(&pending[i].key, key) {
            proof {
                lemma_lex_total(pending@[i as int].key@, key@);
                assert forall|q: int| 0 <= q < pending@.len() implies #[trigger] pending@[q].key@
                    != key@ by {
                    lemma_lex_irreflexive(key@);
                    if q > i {
                        lemma_lex_transitive(key@, pending@[i as int].key@, pending@[q].key@);
                    }
                }
                assert forall|q: int| i <= q < pending@.len() implies lex_lt(
                    key@,
                    #[trigger] pending@[q].key@,
                ) by {
                    if q > i {
                        lemma_lex_transitive(key@, pending@[i as int].key@, pending@[q].key@);
                    }
                }
            }
            return (i, false);
        }
        i = i + 1;
    }
    proof {
        assert forall|q: int| 0 <= q < pending@.len() implies #[trigger] pending@[q].key@
            != key@ by {
            lemma_lex_irreflexive(key@);
        }
    }
    (i, false)
}

/// Adds method `n` of `ms` to the pending properties.
fn note_accessor(pending: &mut Vec<Pending>, ms: &Vec<Method>, n: usize)
    requires
        n < ms@.len(),
        pending_ok(old(pending)@, ms@.take(n as int)),
    ensures
        pending_ok(final(pending)@, ms@.take(n + 1)),
{
    let ghost before = ms@.take(n as int);
    let ghost after = ms@.take(n + 1);
    let m = &ms[n];
    let getter = method_is_getter(m);
    let setter = method_is_setter(m);
    if !getter && !setter {
        proof {
            assert forall|key: Seq<char>| #![auto]
                last_getter(after, key) == last_getter(before, key) && last_setter(after, key)
                    == last_setter(before, key) && is_property_key(after, key) == is_property_key(
                    before,
                    key,
                ) by {
                lemma_step(ms@, n as int, key);
            }
        }
        return;
    }
    proof {
        reveal_strlit("get_");
        reveal_strlit("set_");
    }
    let mut full = chars_of(m.name.as_str());
    assert(full@.len() >= 4);
    let key = full.split_off(4);
    let ghost k = key@;
    proof {
        lemma_accessor_bytes(*m);
        assert(k =~= accessor_key(*m));
        assert forall|key2: Seq<char>| #![auto] key2 != k implies
            last_getter(after, key2) == last_getter(before, key2) && last_setter(after, key2)
                == last_setter(before, key2) && is_property_key(after, key2) == is_property_key(
                before,
                key2,
            ) by {
            lemma_step(ms@, n as int, key2);
        }
        lemma_step(ms@, n as int, k);
    }
    let ghost prev = pending@;
    let (i, found) = find_slot(pending, &key);
    if found {
        let g = if getter { Some(n) } else { pending[i].getter };
        let s = if setter { Some(n) } else { pending[i].setter };
        let old_key = pending[i].key.clone();
        pending.set(i, Pending { key: old_key, getter: g, setter: s });
        proof {
            let e = pending@;
            assert forall|q: int| 0 <= q < e.len() implies #[trigger] e[q].key@ == prev[q].key@ by {}
            assert forall|a: int| 0 <= a < e.len() implies {
                &&& is_property_key(after, #[trigger] e[a].key@)
                &&& index_of(e[a].getter) == last_getter(after, e[a].key@)
                &&& index_of(e[a].setter) == last_setter(after, e[a].key@)
            } by {
                if a != i {
                    assert(e[a] == prev[a]);
                    assert(prev[a].key@ != k) by {
                        lemma_lex_irreflexive(k);
                        if a < i {
                            assert(lex_lt(prev[a].key@, prev[i as int].key@));
                        } else {
                            assert(lex_lt(prev[i as int].key@, prev[a].key@));
                        }
                    }
                }
            }
            assert forall|key2: Seq<char>| is_property_key(after, key2) implies exists|q: int|
                0 <= q < e.len() && #[trigger] e[q].key@ == key2 by {
                if key2 != k {
                    assert(is_property_key(before, key2));
                    let q = choose|q: int| 0 <= q < prev.len() && #[trigger] prev[q].key@ == key2;
                    assert(e[q].key@ == key2);
                } else {
                    assert(e[i as int].key@ == key2);
                }
            }
        }
        return;
    }
    let g = if getter { Some(n) } else { None };
    let s = if setter { Some(n) } else { None };
    pending.insert(i, Pending { key, getter: g, setter: s });
    proof {
        let e = pending@;
        assert forall|a: int, b: int| 0 <= a < b < e.len() implies lex_lt(e[a].key@, e[b].key@) by {
            if b < i {
                assert(e[a] == prev[a] && e[b] == prev[b]);
            } else if b == i {
                assert(e[a] == prev[a]);
            } else if a < i {
                assert(e[a] == prev[a] && e[b] == prev[b - 1]);
                lemma_lex_transitive(e[a].key@, k, e[b].key@);
            } else if a == i {
                assert(e[b] == prev[b - 1]);
            } else {
                assert(e[a] == prev[a - 1] && e[b] == prev[b - 1]);
            }
        }
        assert forall|a: int| 0 <= a < e.len() implies {
            &&& is_property_key(after, #[trigger] e[a].key@)
            &&& index_of(e[a].getter) == last_getter(after, e[a].key@)
            &&& index_of(e[a].setter) == last_setter(after, e[a].key@)
        } by {
            if a != i {
                let p = if a < i { a } else { a - 1 };
                assert(e[a] == prev[p]);
                assert(prev[p].key@ != k);
            } else {
                assert(!is_property_key(before, k)) by {
                    if is_property_key(before, k) {
                        let q = choose|q: int| 0 <= q < prev.len() && #[trigger] prev[q].key@ == k;
                    }
                }
                lemma_last_in_range(before, k);
            }
        }
        assert forall|key2: Seq<char>| is_property_key(after, key2) implies exists|q: int|
            0 <= q < e.len() && #[trigger] e[q].key@ == key2 by {
            if key2 != k {
                assert(is_property_key(before, key2));
                let q = choose|q: int| 0 <= q < prev.len() && #[trigger] prev[q].key@ == key2;
                if q < i {
                    assert(e[q] == prev[q]);
                } else {
                    assert(e[q + 1] == prev[q]);
                }
            } else {
                assert(e[i as int].key@ == k);
            }
        }
    }
}

/// The properties that the accessors among `methods` make: for each name
/// that some `get_` method without arguments or `set_` method with one
/// argument carries after its prefix, in ascending order of name, the
/// property combining the last such getter and the last such setter.
pub fn accessor_properties(methods: &Vec<Method>) -> (r: Vec<Property>)
    ensures
        properties_of(methods@, r@),
{
    let mut pending: Vec<Pending> = Vec::new();
    let mut n: usize = 0;
    assert(pending_ok(pending@, methods@.take(0))) by {
        assert forall|key: Seq<char>| !is_property_key(methods@.take(0), key) by {}
    }
    while n < methods.len()
        invariant
            n <= methods@.len(),
            pending_ok(pending@, methods@.take(n as int)),
        decreases methods.len() - n,
    {
        note_accessor(&mut pending, methods, n);
        n = n + 1;
    }
    assert(methods@.take(methods@.len() as int) =~= methods@);
    let ghost ms = methods@;
    let mut r: Vec<Property> = Vec::new();
    let mut i: usize = 0;
    while i < pending.len()
        invariant
            i <= pending@.len(),
            ms == methods@,
            pending_ok(pending@, ms),
            r@.len() == i,
            forall|q: int| 0 <= q < i ==> #[trigger] r@[q].name@ == pending@[q].key@,
            forall|q: int| 0 <= q < i ==> archived(#[trigger] r@[q], ms, pending@[q].key@),
        decreases pending.len() - i,
    {
        let e = &pending[i];
        let ghost key = e.key@;
        proof {
            lemma_last_in_range(ms, key);
        }
        let getter = match e.getter {
            Some(g) => duplicate_opt(&Some(methods[g].duplicate())),
            None => None,
        };
        let setter = match e.setter {
            Some(s) => duplicate_opt(&Some(methods[s].duplicate())),
            None => None,
        };
        proof {
            let m = primary_accessor(getter, setter);
            if getter is Some {
                lemma_accessor_bytes(ms[last_getter(ms, key).unwrap()]);
            } else {
                lemma_accessor_bytes(ms[last_setter(ms, key).unwrap()]);
            }
            assert(m.name == primary_accessor(
                method_at(ms, last_getter(ms, key)),
                method_at(ms, last_setter(ms, key)),
            ).name);
        }
        let p = Property::from_methods(getter, setter).unwrap();
        r.push(p);
        i = i + 1;
    }
    proof {
        assert forall|a: int| 0 <= a < r@.len() implies is_property_key(ms, #[trigger] r@[a].name@)
            && archived(r@[a], ms, r@[a].name@) by {
            assert(r@[a].name@ == pending@[a].key@);
        }
        assert forall|key: Seq<char>| is_property_key(ms, key) implies exists|a: int|
            0 <= a < r@.len() && #[trigger] r@[a].name@ == key by {
            let q = choose|q: int| 0 <= q < pending@.len() && #[trigger] pending@[q].key@ == key;
            assert(r@[q].name@ == key);
        }
        assert forall|a: int, b: int| 0 <= a < b < r@.len() implies lex_lt(
            r@[a].name@,
            r@[b].name@,
        ) by {
            assert(r@[a].name@ == pending@[a].key@);
            assert(r@[b].name@ == pending@[b].key@);
        }
    }
    r
}

/// Everything of `a` but its properties is that of `b`.
pub open spec fn same_but_properties(a: Class, b: Class) -> bool {
    a == Class { properties: a.properties, ..b }
}

/// Appends to the class's properties those its accessor methods make (see
/// [`accessor_properties`]); nothing else of the class changes.
pub fn archive_properties(class: &mut Class)
    ensures
        same_but_properties(*final(class), *old(class)),
        final(class).properties@.len() >= old(class).properties@.len(),
        final(class).properties@ == old(class).properties@ + final(class).properties@.skip(
            old(class).properties@.len() as int,
        ),
        properties_of(
            old(class).methods@,
            final(class).properties@.skip(old(class).properties@.len() as int),
        ),
{
    let mut new_props = accessor_properties(&class.methods);
    let ghost added = new_props@;
    class.properties.append(&mut new_props);
    assert(class.properties@.skip(old(class).properties@.len() as int) =~= added);
    assert(class.properties@ =~= old(class).properties@ + added);
}


/// A property's access and staticness are its getter's when it has one,
/// and its setter's only when it has no getter: `public int Health { get;
/// private set; }` is a public property.
pub proof fn law_property_access_from_getter(ms: Seq<Method>, ps: Seq<Property>, i: int)
    requires
        properties_of(ms, ps),
        0 <= i < ps.len(),
    ensures
        ps[i].getter matches Some(g) ==> (ps[i].access@ == access_name(g.flags & 7)
            && ps[i].is_static == g.is_static),
        ps[i].getter is None ==> (ps[i].setter matches Some(st) ==> (ps[i].access@ == access_name(
            st.flags & 7,
        ) && ps[i].is_static == st.is_static)),
{
    assert(archived(ps[i], ms, ps[i].name@));
}

} // verus!
