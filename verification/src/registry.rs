//! The portal registry: an alias-keyed store of bridge metadata.
//!
//! Inlets and outlets are registered under human-chosen aliases, each kind
//! in its own namespace. An entry whose worker address is absent records a
//! bridge whose creation failed: the alias stays reserved and the failure
//! visible until the entry is deleted.

use crate::addr::Route;
use crate::text::{lemma_lex_le_total, lemma_lex_le_trans, spec_lex_le, str_eq, str_le};
use vstd::prelude::*;

verus! {

/// The value an alias is bound to in a sequence of entries; the first
/// binding wins (well-formed maps have at most one).
pub open spec fn spec_get<T>(s: Seq<(String, T)>, k: Seq<char>) -> Option<T>
    decreases s.len(),
{
    if s.len() == 0 {
        None
    } else if s[0].0@ == k {
        Some(s[0].1)
    } else {
        spec_get(s.drop_first(), k)
    }
}

/// Well-formedness of an alias map: no alias is bound twice.
pub open spec fn spec_unique_keys<T>(s: Seq<(String, T)>) -> bool {
    forall|i: int, j: int| 0 <= i < j < s.len() ==> (#[trigger] s[i].0@) != (#[trigger] s[j].0@)
}

/// An insertion-ordered map from alias to bridge metadata.
#[derive(Debug)]
pub struct AliasMap<T> {
    /// The entries, oldest first; aliases are unique.
    pub entries: Vec<(String, T)>,
}

impl<T> AliasMap<T> {
    /// Well-formedness: no alias is bound twice.
    pub open spec fn wf(&self) -> bool {
        spec_unique_keys(self.entries@)
    }

    /// The value bound to `k`.
    pub open spec fn spec_index(&self, k: Seq<char>) -> Option<T> {
        spec_get(self.entries@, k)
    }

    /// An empty map.
    pub fn new() -> (r: Self)
        ensures
            r.wf(),
            forall|k: Seq<char>| r.spec_index(k) is None,
            r.entries@.len() == 0,
    {
        AliasMap { entries: Vec::new() }
    }

    /// The number of aliases bound.
    pub fn len(&self) -> (r: usize)
        ensures
            r == self.entries@.len(),
    {
        self.entries.len()
    }

    /// The value bound to `k`, if any.
    pub fn get(&self, k: &str) -> (r: Option<&T>)
        ensures
            match r {
                Some(v) => self.spec_index(k@) == Some(*v),
                None => self.spec_index(k@) is None,
            },
    {
        proof {
            assert(self.entries@.skip(0) =~= self.entries@);
        }
        let mut i: usize = 0;
        while i < self.entries.len()
            invariant
                0 <= i <= self.entries@.len(),
                spec_get(self.entries@, k@) == spec_get(
                    self.entries@.skip(i as int),
                    k@,
                ),
            decreases self.entries@.len() - i,
        {
            if str_eq(self.entries[i].0.as_str(), k) {
                assert(self.entries@.skip(i as int)[0] == self.entries@[i as int]);
                return Some(&self.entries[i].1);
            }
            proof {
                assert(self.entries@.skip(i as int).drop_first() =~= self.entries@.skip(i + 1));
                assert(self.entries@.skip(i as int)[0] == self.entries@[i as int]);
            }
            i = i + 1;
        }
        proof {
            assert(self.entries@.skip(self.entries@.len() as int) =~= Seq::<(String, T)>::empty());
        }
        None
    }

    /// Binds `k` to `v`, replacing any earlier binding.
    pub fn insert(&mut self, k: String, v: T)
        requires
            old(self).wf(),
        ensures
            final(self).wf(),
            final(self).spec_index(k@) == Some(v),
            forall|k2: Seq<char>|
                k2 != k@ ==> #[trigger] final(self).spec_index(k2) == old(self).spec_index(k2),
    {
        let ghost kv = k@;
        let _ = self.remove(k.as_str());
        let ghost mid = *self;
        let ghost pre = self.entries@;
        self.entries.push((k, v));
        proof {
            lemma_get_push(pre, self.entries@[self.entries@.len() - 1], kv);
            assert forall|k2: Seq<char>| k2 != kv implies #[trigger] spec_get(
                self.entries@,
                k2,
            ) == spec_get(old(self).entries@, k2) by {
                lemma_get_push(pre, self.entries@[self.entries@.len() - 1], k2);
                assert(mid.spec_index(k2) == old(self).spec_index(k2));
            }
            assert forall|i: int, j: int|
                0 <= i < j < self.entries@.len() implies (#[trigger] self.entries@[i].0@) != (
            #[trigger] self.entries@[j].0@) by {
                if j == self.entries@.len() - 1 {
                    lemma_get_present(pre, i);
                }
            }
        }
    }

    /// Unbinds `k` and hands back what it was bound to; `None` when the
    /// alias was not bound.
    pub fn remove(&mut self, k: &str) -> (r: Option<T>)
        requires
            old(self).wf(),
        ensures
            final(self).wf(),
            r == old(self).spec_index(k@),
            final(self).spec_index(k@) is None,
            forall|k2: Seq<char>|
                k2 != k@ ==> #[trigger] final(self).spec_index(k2) == old(self).spec_index(k2),
    {
        let mut i: usize = 0;
        while i < self.entries.len()
            invariant
                0 <= i <= self.entries@.len(),
                self.entries@ == old(self).entries@,
                spec_unique_keys(old(self).entries@),
                forall|t: int| 0 <= t < i ==> (#[trigger] self.entries@[t].0@) != k@,
            decreases self.entries@.len() - i,
        {
            if str_eq(self.entries[i].0.as_str(), k) {
                let ghost pre = self.entries@;
                let (_, v) = self.entries.remove(i);
                proof {
                    lemma_get_remove(pre, i as int, k@);
                    lemma_get_present(pre, i as int);
                    assert forall|k2: Seq<char>| k2 != k@ implies #[trigger] spec_get(
                        self.entries@,
                        k2,
                    ) == spec_get(pre, k2) by {
                        lemma_get_remove(pre, i as int, k2);
                    }
                }
                return Some(v);
            }
            i = i + 1;
        }
        proof {
            lemma_get_absent(self.entries@, k@);
        }
        None
    }
}

/// Ascending lexicographic order over a list of names.
pub open spec fn spec_sorted_names(s: Seq<String>) -> bool {
    forall|x: int, y: int|
        0 <= x < y < s.len() ==> spec_lex_le((#[trigger] s[x])@, (#[trigger] s[y])@)
}

/// Inserts `key` into a sorted list of names, keeping it sorted; the new
/// list holds exactly the old names and `key`.
#[verifier::rlimit(50)]
fn insert_sorted(out: &mut Vec<String>, key: String)
    requires
        spec_sorted_names(old(out)@),
    ensures
        final(out)@.len() == old(out)@.len() + 1,
        spec_sorted_names(final(out)@),
        forall|x: int|
            0 <= x < final(out)@.len() ==> ((#[trigger] final(out)@[x])@ == key@ || exists|y: int|
                0 <= y < old(out)@.len() && final(out)@[x]@ == old(out)@[y]@),
        forall|y: int|
            0 <= y < old(out)@.len() ==> exists|x: int|
                0 <= x < final(out)@.len() && (#[trigger] old(out)@[y])@ == final(out)@[x]@,
        exists|x: int| 0 <= x < final(out)@.len() && (#[trigger] final(out)@[x])@ == key@,
{
    let mut p: usize = 0;
    while p < out.len() && str_le(out[p].as_str(), key.as_str())
        invariant
            0 <= p <= out@.len(),
            out@ == old(out)@,
            forall|c: int| 0 <= c < p ==> spec_lex_le((#[trigger] out@[c])@, key@),
        decreases out@.len() - p,
    {
        p = p + 1;
    }
    proof {
        if p < out@.len() {
            lemma_lex_le_total(out@[p as int]@, key@);
        }
        assert forall|c: int| p <= c < out@.len() implies spec_lex_le(
            key@,
            (#[trigger] out@[c])@,
        ) by {
            if c > p {
                lemma_lex_le_trans(key@, out@[p as int]@, out@[c]@);
            }
        }
    }
    let ghost pre = out@;
    let ghost keyv = key@;
    out.insert(p, key);
    proof {
        assert forall|x: int| 0 <= x < out@.len() implies (#[trigger] out@[x]) == (if x < p {
            pre[x]
        } else if x == p {
            out@[p as int]
        } else {
            pre[x - 1]
        }) by {}
        assert(out@[p as int]@ == keyv);
        assert forall|x: int, y: int|
            0 <= x < y < out@.len() implies spec_lex_le(
            (#[trigger] out@[x])@,
            (#[trigger] out@[y])@,
        ) by {}
        assert forall|y: int|
            0 <= y < pre.len() implies exists|x: int|
            0 <= x < out@.len() && (#[trigger] pre[y])@ == out@[x]@ by {
            if y < p {
                assert(pre[y]@ == out@[y]@);
            } else {
                assert(pre[y]@ == out@[y + 1]@);
            }
        }
    }
}

/// The aliases a map binds, in ascending lexicographic order: the order in
/// which listings report their entries.
pub fn sorted_aliases<T>(m: &AliasMap<T>) -> (r: Vec<String>)
    requires
        m.wf(),
    ensures
        r@.len() == m.entries@.len(),
        spec_sorted_names(r@),
        forall|x: int| 0 <= x < r@.len() ==> (#[trigger] m.spec_index(r@[x]@)) is Some,
        forall|k: Seq<char>|
            (#[trigger] m.spec_index(k)) is Some ==> exists|x: int|
                0 <= x < r@.len() && r@[x]@ == k,
{
    let mut keys: Vec<String> = Vec::new();
    let mut t: usize = 0;
    while t < m.entries.len()
        invariant
            0 <= t <= m.entries@.len(),
            keys@.len() == t,
            forall|x: int| 0 <= x < t ==> (#[trigger] keys@[x])@ == m.entries@[x].0@,
        decreases m.entries@.len() - t,
    {
        keys.push(m.entries[t].0.clone());
        t = t + 1;
    }
    proof {
        assert forall|x: int| 0 <= x < keys@.len() implies (#[trigger] m.spec_index(
            keys@[x]@,
        )) is Some by {
            lemma_get_present(m.entries@, x);
        }
    }
    let mut out: Vec<String> = Vec::new();
    let mut j: usize = 0;
    while j < keys.len()
        invariant
            0 <= j <= keys@.len(),
            out@.len() == j,
            spec_sorted_names(out@),
            forall|x: int| 0 <= x < keys@.len() ==> (#[trigger] m.spec_index(keys@[x]@)) is Some,
            forall|x: int|
                0 <= x < out@.len() ==> exists|y: int|
                    0 <= y < j && (#[trigger] out@[x])@ == keys@[y]@,
            forall|y: int|
                0 <= y < j ==> exists|x: int|
                    0 <= x < out@.len() && (#[trigger] keys@[y])@ == out@[x]@,
        decreases keys@.len() - j,
    {
        let ghost pre = out@;
        insert_sorted(&mut out, keys[j].clone());
        proof {
            assert forall|x: int|
                0 <= x < out@.len() implies exists|y: int|
                0 <= y < j + 1 && (#[trigger] out@[x])@ == keys@[y]@ by {
                if out@[x]@ == keys@[j as int]@ {
                } else {
                    let y0 = choose|y: int| 0 <= y < pre.len() && out@[x]@ == pre[y]@;
                    let y1 = choose|y: int| 0 <= y < j && (#[trigger] pre[y0])@ == keys@[y]@;
                    assert(out@[x]@ == keys@[y1]@);
                }
            }
        }
        j = j + 1;
    }
    proof {
        assert forall|x: int| 0 <= x < out@.len() implies (#[trigger] m.spec_index(
            out@[x]@,
        )) is Some by {
            let y = choose|y: int| 0 <= y < keys@.len() && (#[trigger] out@[x])@ == keys@[y]@;
            assert(m.spec_index(keys@[y]@) is Some);
        }
        assert forall|k: Seq<char>| (#[trigger] m.spec_index(k)) is Some implies exists|x: int|
            0 <= x < out@.len() && out@[x]@ == k by {
            lemma_get_some_key(m.entries@, k);
            let y = choose|y: int| 0 <= y < m.entries@.len() && (#[trigger] m.entries@[y].0@)
                == k;
            assert(keys@[y]@ == k);
            let x = choose|x: int| 0 <= x < out@.len() && (#[trigger] keys@[y])@ == out@[x]@;
            assert(out@[x]@ == k);
        }
    }
    out
}

/// A bound alias is the alias of some entry.
proof fn lemma_get_some_key<T>(s: Seq<(String, T)>, k: Seq<char>)
    requires
        spec_get(s, k) is Some,
    ensures
        exists|t: int| 0 <= t < s.len() && (#[trigger] s[t].0@) == k,
    decreases s.len(),
{
    if s.len() > 0 {
        if s[0].0@ == k {
            assert(s[0].0@ == k);
        } else {
            lemma_get_some_key(s.drop_first(), k);
            let t0 = choose|t: int|
                0 <= t < s.drop_first().len() && (#[trigger] s.drop_first()[t].0@) == k;
            assert(s[t0 + 1].0@ == k);
        }
    }
}

/// An alias absent from every entry is unbound.
proof fn lemma_get_absent<T>(s: Seq<(String, T)>, k: Seq<char>)
    requires
        forall|t: int| 0 <= t < s.len() ==> (#[trigger] s[t].0@) != k,
    ensures
        spec_get(s, k) is None,
    decreases s.len(),
{
    if s.len() > 0 {
        lemma_get_absent(s.drop_first(), k);
    }
}

/// In a well-formed map, position `i` holds the binding of its own alias.
proof fn lemma_get_present<T>(s: Seq<(String, T)>, i: int)
    requires
        spec_unique_keys(s),
        0 <= i < s.len(),
    ensures
        spec_get(s, s[i].0@) == Some(s[i].1),
    decreases i,
{
    if i > 0 {
        assert(s.drop_first()[i - 1] == s[i]);
        assert(spec_unique_keys(s.drop_first())) by {
            assert(forall|x: int, y: int|
                0 <= x < y < s.drop_first().len() ==> s.drop_first()[x] == s[x + 1]
                    && s.drop_first()[y] == s[y + 1]);
        }
        lemma_get_present(s.drop_first(), i - 1);
    }
}

/// Appending a binding changes only that alias, and binds it when it was
/// unbound.
proof fn lemma_get_push<T>(s: Seq<(String, T)>, p: (String, T), k: Seq<char>)
    ensures
        spec_get(s.push(p), k) == if spec_get(s, k) is Some {
            spec_get(s, k)
        } else if p.0@ == k {
            Some(p.1)
        } else {
            None
        },
    decreases s.len(),
{
    if s.len() == 0 {
        assert(s.push(p)[0] == p);
        assert(s.push(p).drop_first() =~= Seq::<(String, T)>::empty());
    } else {
        assert(s.push(p)[0] == s[0]);
        assert(s.push(p).drop_first() =~= s.drop_first().push(p));
        lemma_get_push(s.drop_first(), p, k);
    }
    if !(spec_get(s, k) is Some) && p.0@ != k {
        assert(spec_get(s.push(p), k) is None) by {
            reveal_with_fuel(spec_get, 3);
        }
    }
}

/// Removing position `i`, which binds `s[i].0`, unbinds that alias in a
/// well-formed map and leaves every other alias as it was.
proof fn lemma_get_remove<T>(s: Seq<(String, T)>, i: int, k: Seq<char>)
    requires
        spec_unique_keys(s),
        0 <= i < s.len(),
    ensures
        spec_unique_keys(s.remove(i)),
        k == s[i].0@ ==> spec_get(s.remove(i), k) is None,
        k != s[i].0@ ==> spec_get(s.remove(i), k) == spec_get(s, k),
    decreases i,
{
    assert(spec_unique_keys(s.remove(i))) by {
        assert forall|x: int, y: int|
            0 <= x < y < s.remove(i).len() implies (#[trigger] s.remove(i)[x].0@) != (
        #[trigger] s.remove(i)[y].0@) by {
            let x2 = if x < i {
                x
            } else {
                x + 1
            };
            let y2 = if y < i {
                y
            } else {
                y + 1
            };
            assert(s.remove(i)[x] == s[x2] && s.remove(i)[y] == s[y2]);
        }
    }
    if i == 0 {
        assert(s.remove(0) =~= s.drop_first());
        if k == s[0].0@ {
            assert forall|t: int| 0 <= t < s.drop_first().len() implies (#[trigger] s.drop_first(
            )[t].0@) != k by {
                assert(s.drop_first()[t] == s[t + 1]);
            }
            lemma_get_absent(s.drop_first(), k);
        }
    } else {
        assert(s.remove(i)[0] == s[0]);
        assert(s.remove(i).drop_first() =~= s.drop_first().remove(i - 1));
        assert(s.drop_first()[i - 1] == s[i]);
        assert(spec_unique_keys(s.drop_first())) by {
            assert(forall|x: int, y: int|
                0 <= x < y < s.drop_first().len() ==> s.drop_first()[x] == s[x + 1]
                    && s.drop_first()[y] == s[y + 1]);
        }
        lemma_get_remove(s.drop_first(), i - 1, k);
    }
}

/// Registry metadata of one inlet: a TCP-listening bridge forwarding into
/// the overlay.
#[derive(Debug)]
pub struct InletInfo {
    /// The local socket the inlet listens on.
    pub bind_addr: String,
    /// The worker serving the bridge; absent when creation failed and the
    /// alias is only reserved.
    pub worker_addr: Option<String>,
    /// The route the inlet forwards into.
    pub outlet_route: Route,
}

/// Registry metadata of one outlet: a TCP-connecting bridge fed from the
/// overlay.
#[derive(Debug)]
pub struct OutletInfo {
    /// The TCP target the outlet forwards to.
    pub tcp_addr: String,
    /// The worker serving the bridge; absent when creation failed and the
    /// alias is only reserved.
    pub worker_addr: Option<String>,
}

/// The two independent alias namespaces of a node.
#[derive(Debug)]
pub struct Registry {
    /// The inlets, by alias.
    pub inlets: AliasMap<InletInfo>,
    /// The outlets, by alias.
    pub outlets: AliasMap<OutletInfo>,
}

impl Registry {
    /// Both namespaces are well-formed.
    pub open spec fn wf(&self) -> bool {
        self.inlets.wf() && self.outlets.wf()
    }

    /// An empty registry.
    pub fn new() -> (r: Registry)
        ensures
            r.wf(),
            forall|k: Seq<char>| r.inlets.spec_index(k) is None,
            forall|k: Seq<char>| r.outlets.spec_index(k) is None,
    {
        Registry { inlets: AliasMap::new(), outlets: AliasMap::new() }
    }
}

} // verus!
