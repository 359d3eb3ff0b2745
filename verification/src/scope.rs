//! The variable environment: a flat store from names to values.
//!
//! The store is a vector of bindings with pairwise distinct names, seen
//! abstractly as a `Map` from name to value. Reading an unbound name yields
//! `Undefined`; it is not an error.

use vstd::prelude::*;

use crate::vm::{JsValue, JsValueV};

verus! {

/// Whether some binding in `s` carries the name `k`.
pub open spec fn entries_have_key(s: Seq<(String, JsValue)>, k: Seq<char>) -> bool {
    exists|i: int| 0 <= i < s.len() && s[i].0@ == k
}

/// The value bound to `k` in `s` (meaningful when the names of `s` are
/// distinct and some binding carries `k`).
pub open spec fn entry_value(s: Seq<(String, JsValue)>, k: Seq<char>) -> JsValueV {
    s[choose|i: int| 0 <= i < s.len() && s[i].0@ == k].1@
}

/// Pairwise distinct names.
pub open spec fn distinct_keys(s: Seq<(String, JsValue)>) -> bool {
    forall|i: int, j: int| 0 <= i < j < s.len() ==> s[i].0@ != s[j].0@
}

/// The bindings of `s` as a map from name to value.
pub open spec fn store_view(s: Seq<(String, JsValue)>) -> Map<Seq<char>, JsValueV> {
    Map::new(|k: Seq<char>| entries_have_key(s, k), |k: Seq<char>| entry_value(s, k))
}

/// Whether `pair` is one of the bindings of `s`.
spec fn binding_of(s: Seq<(String, JsValue)>, pair: (String, JsValue)) -> bool {
    exists|l: int| 0 <= l < s.len() && s[l] == pair
}

/// Whether `pair` stands in `s` at some index other than `w`.
spec fn binding_beside(s: Seq<(String, JsValue)>, w: int, pair: (String, JsValue)) -> bool {
    exists|j: int| 0 <= j < s.len() && j != w && s[j] == pair
}

/// Rewriting the one binding at `w` (or appending it, where `s0` lacked the
/// name) acts on the store as a map insert: every other binding of `s1` is a
/// binding of `s0`, and every binding of `s0` under another name survives.
proof fn lemma_store_insert(s0: Seq<(String, JsValue)>, s1: Seq<(String, JsValue)>, w: int)
    requires
        distinct_keys(s0),
        distinct_keys(s1),
        0 <= w < s1.len(),
        forall|j: int| 0 <= j < s1.len() && j != w ==> binding_of(s0, #[trigger] s1[j]),
        forall|l: int|
            0 <= l < s0.len() && (#[trigger] s0[l]).0@ != s1[w].0@ ==> binding_beside(
                s1,
                w,
                s0[l],
            ),
    ensures
        store_view(s1) == store_view(s0).insert(s1[w].0@, s1[w].1@),
{
    let key = s1[w].0@;
    let m0 = store_view(s0);
    let m1 = store_view(s1);
    let mi = m0.insert(key, s1[w].1@);
    assert forall|k: Seq<char>| m1.dom().contains(k) <==> mi.dom().contains(k) by {
        if entries_have_key(s1, k) {
            let j = choose|j: int| 0 <= j < s1.len() && s1[j].0@ == k;
            if j == w {
                assert(k == key);
            } else {
                assert(binding_of(s0, s1[j]));
                let l = choose|l: int| 0 <= l < s0.len() && s0[l] == s1[j];
                assert(s0[l].0@ == k);
                assert(entries_have_key(s0, k));
            }
        }
        if mi.dom().contains(k) {
            if k == key {
                assert(s1[w].0@ == k);
                assert(entries_have_key(s1, k));
            } else {
                let l = choose|l: int| 0 <= l < s0.len() && s0[l].0@ == k;
                assert(binding_beside(s1, w, s0[l]));
                let j = choose|j: int| 0 <= j < s1.len() && j != w && s1[j] == s0[l];
                assert(s1[j].0@ == k);
                assert(entries_have_key(s1, k));
            }
        }
    }
    assert forall|k: Seq<char>| m1.dom().contains(k) implies m1[k] == mi[k] by {
        let j = choose|j: int| 0 <= j < s1.len() && s1[j].0@ == k;
        if k == key {
            assert(s1[w].0@ == k);
            assert(j == w);
            assert(m1[k] == s1[w].1@);
        } else {
            assert(j != w);
            assert(binding_of(s0, s1[j]));
            let l = choose|l: int| 0 <= l < s0.len() && s0[l] == s1[j];
            assert(s0[l].0@ == k);
            assert(entries_have_key(s0, k));
            let l2 = choose|l2: int| 0 <= l2 < s0.len() && s0[l2].0@ == k;
            assert(l2 == l);
            assert(m1[k] == s1[j].1@ && mi[k] == s0[l2].1@);
        }
    }
    assert(m1 =~= mi);
}

/// A scope: one flat set of bindings. The `id`/`parent` skeleton is a
/// provision for nested scopes; only the global scope is ever built today.
pub struct Scope {
    id: i32,
    is_global: bool,
    parent: i32,
    variables: Vec<(String, JsValue)>,
}

impl Scope {
    /// Every scope keeps its binding names pairwise distinct: constructors
    /// establish this and methods preserve it.
    pub closed spec fn wf(self) -> bool {
        distinct_keys(self.variables@)
    }

    /// A non-global scope. A provision for nested scopes: the result is not
    /// yet wired to anything, so it is dropped where it is made.
    pub fn new(id: i32, parent: i32) {
        Scope { id: id, is_global: false, variables: Vec::new(), parent: parent };
    }

    pub fn new_global() -> (r: Scope)
        ensures
            r.wf(),
            r@ == Map::<Seq<char>, JsValueV>::empty(),
    {
        let s = Scope { id: 0, is_global: true, variables: Vec::new(), parent: 0 };
        proof {
            assert(s@ =~= Map::<Seq<char>, JsValueV>::empty());
        }
        s
    }

    /// The index of the binding named `string`, if any.
    fn find_var(&self, string: &String) -> (r: Option<usize>)
        ensures
            match r {
                Some(i) => i < self.variables@.len() && self.variables@[i as int].0@ == string@,
                None => !entries_have_key(self.variables@, string@),
            },
    {
        let n = self.variables.len();
        let mut i: usize = 0;
        while i < n
            invariant
                n == self.variables@.len(),
                i <= n,
                forall|j: int| 0 <= j < i ==> (#[trigger] self.variables@[j]).0@ != string@,
            decreases n - i,
    {
            let pair = &self.variables[i];
            if pair.0 == *string {
                return Some(i);
            }
            i = i + 1;
        }
        None
    }

    /// The current binding of `string`, or `Undefined` where there is none.
    pub fn get_var(&self, string: String) -> (r: JsValue)
        requires
            self.wf(),
        ensures
            r@ == if self@.dom().contains(string@) {
                self@[string@]
            } else {
                JsValueV::JsUndefined
            },
    {
        match self.find_var(&string) {
            Some(i) => {
                proof {
                    let s = self.variables@;
                    assert(entries_have_key(s, string@));
                    let j = choose|j: int| 0 <= j < s.len() && s[j].0@ == string@;
                    assert(s[j].0@ == string@ && s[i as int].0@ == string@);
                    assert(j == i as int);
                }
                self.variables[i].1.clone()
            },
            None => JsValue::JsUndefined,
        }
    }

    /// Binds `string` to `js_value`, replacing any prior binding.
    pub fn set_var(&mut self, string: String, js_value: JsValue)
        requires
            old(self).wf(),
        ensures
            final(self).wf(),
            final(self)@ == old(self)@.insert(string@, js_value@),
    {
        let ghost s0 = self.variables@;
        let ghost key = string@;
        match self.find_var(&string) {
            Some(i) => {
                self.variables[i] = (string, js_value);
                proof {
                    let s1 = self.variables@;
                    assert(s1 == s0.update(i as int, s1[i as int]));
                    assert(s1[i as int].0@ == key && s0[i as int].0@ == key);
                    assert forall|p: int, q: int| 0 <= p < q < s1.len() implies s1[p].0@
                        != s1[q].0@ by {
                        if p != i {
                            assert(s1[p] == s0[p]);
                        }
                        if q != i {
                            assert(s1[q] == s0[q]);
                        }
                    }
                    assert forall|j: int| 0 <= j < s1.len() && j != i implies binding_of(
                        s0,
                        #[trigger] s1[j],
                    ) by {
                        assert(s0[j] == s1[j]);
                    }
                    assert forall|l: int|
                        0 <= l < s0.len() && (#[trigger] s0[l]).0@ != key implies binding_beside(
                        s1,
                        i as int,
                        s0[l],
                    ) by {
                        assert(l != i);
                        assert(s1[l] == s0[l]);
                    }
                    lemma_store_insert(s0, s1, i as int);
                }
            },
            None => {
                proof {
                    assert forall|j: int| 0 <= j < s0.len() implies (#[trigger] s0[j]).0@
                        != key by {
                        if s0[j].0@ == key {
                            assert(entries_have_key(s0, key));
                        }
                    }
                }
                self.variables.push((string, js_value));
                proof {
                    let s1 = self.variables@;
                    let w = s1.len() - 1;
                    assert(s1[w].0@ == key);
                    assert forall|p: int, q: int| 0 <= p < q < s1.len() implies s1[p].0@
                        != s1[q].0@ by {
                        if q < w {
                            assert(s1[p] == s0[p] && s1[q] == s0[q]);
                        } else {
                            assert(s1[p] == s0[p]);
                        }
                    }
                    assert forall|j: int| 0 <= j < s1.len() && j != w implies binding_of(
                        s0,
                        #[trigger] s1[j],
                    ) by {
                        assert(s0[j] == s1[j]);
                    }
                    assert forall|l: int|
                        0 <= l < s0.len() && (#[trigger] s0[l]).0@ != key implies binding_beside(
                        s1,
                        w,
                        s0[l],
                    ) by {
                        assert(s1[l] == s0[l]);
                    }
                    lemma_store_insert(s0, s1, w);
                }
            },
        }
    }
}

impl View for Scope {
    type V = Map<Seq<char>, JsValueV>;

    closed spec fn view(&self) -> Map<Seq<char>, JsValueV> {
        store_view(self.variables@)
    }
}

} // verus!
