//! An ordered, key-deduplicating collection of attribute/value pairs.
//!
//! Pairs keep the order of first insertion; pushing a name that is already
//! present overwrites its value in place (last write wins). The empty
//! collection carries no storage.

use vstd::prelude::*;
use crate::tag::Attr;

verus! {

/// The index of the first pair with name `a`, or `-1` when absent.
pub open spec fn attr_idx(s: Seq<(Attr, Seq<char>)>, a: Attr) -> int
    decreases s.len(),
{
    if s.len() == 0 {
        -1
    } else if s[0].0 == a {
        0
    } else {
        let r = attr_idx(s.drop_first(), a);
        if r < 0 {
            -1
        } else {
            r + 1
        }
    }
}

/// `attr_idx` finds the first pair with the given name, or reports absence.
pub proof fn lemma_attr_idx(s: Seq<(Attr, Seq<char>)>, a: Attr)
    ensures
        -1 <= attr_idx(s, a) < s.len(),
        attr_idx(s, a) >= 0 ==> s[attr_idx(s, a)].0 == a,
        forall|j: int| 0 <= j < attr_idx(s, a) ==> (#[trigger] s[j]).0 != a,
        attr_idx(s, a) == -1 ==> forall|j: int| 0 <= j < s.len() ==> (#[trigger] s[j]).0 != a,
    decreases s.len(),
{
    if s.len() > 0 && s[0].0 != a {
        lemma_attr_idx(s.drop_first(), a);
        assert forall|j: int| 0 <= j < attr_idx(s, a) implies (#[trigger] s[j]).0 != a by {
            if j > 0 {
                assert(s.drop_first()[j - 1] == s[j]);
            }
        }
        if attr_idx(s, a) == -1 {
            assert forall|j: int| 0 <= j < s.len() implies (#[trigger] s[j]).0 != a by {
                if j > 0 {
                    assert(s.drop_first()[j - 1] == s[j]);
                }
            }
        }
    }
}

/// A position whose name is not preceded by an equal name is exactly the one
/// `attr_idx` finds.
pub proof fn lemma_attr_idx_at(s: Seq<(Attr, Seq<char>)>, a: Attr, i: int)
    requires
        0 <= i < s.len(),
        s[i].0 == a,
        forall|j: int| 0 <= j < i ==> (#[trigger] s[j]).0 != a,
    ensures
        attr_idx(s, a) == i,
{
    lemma_attr_idx(s, a);
    let idx = attr_idx(s, a);
    if idx == -1 {
        assert(s[i].0 != a);
    } else if idx < i {
        assert(s[idx].0 != a);
    } else if idx > i {
        assert(s[i].0 != a);
    }
}

/// What pushing a pair does to the collection's contents: overwrite the
/// first (and only) pair of that name in place, or append a new pair.
pub open spec fn spec_attrs_push(s: Seq<(Attr, Seq<char>)>, a: Attr, v: Seq<char>) -> Seq<
    (Attr, Seq<char>),
> {
    let i = attr_idx(s, a);
    if i < 0 {
        s.push((a, v))
    } else {
        s.update(i, (a, v))
    }
}

/// An element's attributes: name/value pairs in first-insertion order, no
/// name twice. Value text is stored verbatim; escaping happens only at
/// serialization.
#[derive(Clone, Debug)]
pub struct HtmlAttrs {
    entries: Option<Vec<(Attr, String)>>,
}

impl View for HtmlAttrs {
    type V = Seq<(Attr, Seq<char>)>;

    closed spec fn view(&self) -> Seq<(Attr, Seq<char>)> {
        match self.entries {
            None => Seq::empty(),
            Some(v) => Seq::new(v@.len(), |i: int| (v@[i].0, v@[i].1@)),
        }
    }
}

impl HtmlAttrs {
    /// No two pairs share a name.
    pub open spec fn wf(&self) -> bool {
        forall|i: int, j: int|
            0 <= i < j < self@.len() ==> (#[trigger] self@[i]).0 != (#[trigger] self@[j]).0
    }

    /// An empty collection, without storage.
    pub fn new() -> (r: HtmlAttrs)
        ensures
            r@ == Seq::<(Attr, Seq<char>)>::empty(),
            r.wf(),
    {
        HtmlAttrs { entries: None }
    }

    /// The number of attributes.
    pub fn len(&self) -> (r: usize)
        ensures
            r == self@.len(),
    {
        match &self.entries {
            None => 0,
            Some(v) => v.len(),
        }
    }

    /// The pair at position `i`.
    pub fn entry(&self, i: usize) -> (r: (Attr, String))
        requires
            i < self@.len(),
        ensures
            r.0 == self@[i as int].0,
            r.1@ == self@[i as int].1,
    {
        match &self.entries {
            None => vstd::pervasive::unreached(),
            Some(v) => {
                let p = &v[i];
                (p.0, p.1.clone())
            },
        }
    }

    /// Looks a name up; the collection keeps at most one value for it.
    pub fn get(&self, attr: Attr) -> (r: Option<String>)
        ensures
            match r {
                Some(v) => attr_idx(self@, attr) >= 0 && v@ == self@[attr_idx(self@, attr)].1,
                None => attr_idx(self@, attr) == -1,
            },
    {
        proof {
            lemma_attr_idx(self@, attr);
        }
        match &self.entries {
            None => None,
            Some(v) => {
                let n = v.len();
                let mut i: usize = 0;
                while i < n
                    invariant
                        0 <= i <= n,
                        n == self@.len(),
                        self.entries == Some(*v),
                        forall|j: int| 0 <= j < i ==> (#[trigger] self@[j]).0 != attr,
                        -1 <= attr_idx(self@, attr) < self@.len(),
                        attr_idx(self@, attr) >= 0 ==> self@[attr_idx(self@, attr)].0 == attr,
                        forall|j: int|
                            0 <= j < attr_idx(self@, attr) ==> (#[trigger] self@[j]).0 != attr,
                        attr_idx(self@, attr) == -1 ==> forall|j: int|
                            0 <= j < self@.len() ==> (#[trigger] self@[j]).0 != attr,
                    decreases n - i,
                {
                    if v[i].0 == attr {
                        proof {
                            assert(self@[i as int].0 == attr);
                            lemma_attr_idx_at(self@, attr, i as int);
                        }
                        return Some(v[i].1.clone());
                    }
                    i = i + 1;
                }
                proof {
                    if attr_idx(self@, attr) >= 0 {
                        assert(self@[attr_idx(self@, attr)].0 == attr);
                        assert(false);
                    }
                }
                None
            },
        }
    }

    /// A copy with the same pairs in the same order.
    pub fn duplicate(&self) -> (r: HtmlAttrs)
        ensures
            r@ == self@,
    {
        match &self.entries {
            None => HtmlAttrs { entries: None },
            Some(v) => {
                let n = v.len();
                let mut out: Vec<(Attr, String)> = Vec::new();
                let mut i: usize = 0;
                while i < n
                    invariant
                        0 <= i <= n,
                        n == v@.len(),
                        out@.len() == i,
                        forall|k: int|
                            0 <= k < i ==> (#[trigger] out@[k]).0 == v@[k].0 && out@[k].1@
                                == v@[k].1@,
                    decreases n - i,
                {
                    let p = &v[i];
                    out.push((p.0, p.1.clone()));
                    i = i + 1;
                }
                let r = HtmlAttrs { entries: Some(out) };
                proof {
                    assert(r@ =~= self@);
                }
                r
            },
        }
    }

    /// Appends the pair, or overwrites the value of an existing pair of the
    /// same name in place: the last write wins.
    pub fn push(&mut self, attr: Attr, value: String)
        requires
            old(self).wf(),
        ensures
            final(self).wf(),
            final(self)@ == spec_attrs_push(old(self)@, attr, value@),
    {
        proof {
            lemma_attr_idx(old(self)@, attr);
        }
        let mut v: Vec<(Attr, String)> = match self.entries.take() {
            Some(v) => v,
            None => Vec::new(),
        };
        let n = v.len();
        assert(old(self)@.len() == n);
        let mut i: usize = 0;
        while i < n
            invariant
                0 <= i <= n,
                n == v.len(),
                old(self)@.len() == n,
                forall|k: int| 0 <= k < n ==> #[trigger] old(self)@[k] == (v@[k].0, v@[k].1@),
                forall|j: int| 0 <= j < i ==> (#[trigger] old(self)@[j]).0 != attr,
                old(self).wf(),
            decreases n - i,
        {
            if v[i].0 == attr {
                proof {
                    assert(old(self)@[i as int].0 == attr);
                    lemma_attr_idx_at(old(self)@, attr, i as int);
                }
                v[i] = (attr, value);
                assert(Seq::new(v@.len(), |k: int| (v@[k].0, v@[k].1@)) =~= old(self)@.update(
                    i as int,
                    (attr, value@),
                ));
                self.entries = Some(v);
                assert(self@ == spec_attrs_push(old(self)@, attr, value@));
                assert forall|p: int, q: int|
                    0 <= p < q < self@.len() implies (#[trigger] self@[p]).0 != (
                #[trigger] self@[q]).0 by {
                    assert(old(self)@[p].0 != old(self)@[q].0);
                    assert(self@[p].0 == (if p == i as int {
                        attr
                    } else {
                        old(self)@[p].0
                    }));
                    assert(self@[q].0 == (if q == i as int {
                        attr
                    } else {
                        old(self)@[q].0
                    }));
                    if p != i as int && q != i as int {
                    } else if p == i as int {
                        assert(old(self)@[q].0 != attr);
                    } else {
                        assert(old(self)@[p].0 != attr || q as int == i as int);
                    }
                }
                return ;
            }
            i = i + 1;
        }
        proof {
            if attr_idx(old(self)@, attr) >= 0 {
                assert(old(self)@[attr_idx(old(self)@, attr)].0 == attr);
                assert(false);
            }
        }
        v.push((attr, value));
        assert(Seq::new(v@.len(), |k: int| (v@[k].0, v@[k].1@)) =~= old(self)@.push((
            attr,
            value@,
        )));
        self.entries = Some(v);
        assert(self@ == spec_attrs_push(old(self)@, attr, value@));
        assert forall|p: int, q: int|
            0 <= p < q < self@.len() implies (#[trigger] self@[p]).0 != (#[trigger] self@[q]).0 by {
            if q < old(self)@.len() {
                assert(old(self)@[p].0 != old(self)@[q].0);
            } else {
                assert(self@[q].0 == attr);
                assert(old(self)@[p].0 != attr);
            }
        }
    }
}

} // verus!
