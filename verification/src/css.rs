//! Typed CSS declarations, collapsed deterministically into a single inline
//! style string.
//!
//! Declarations are unique by property: a later declaration for the same
//! property wins. Serialization orders declarations canonically by property
//! name, so the output does not depend on insertion order.

use vstd::prelude::*;
use vstd::string::*;
use crate::text::push_char;

verus! {

/// A CSS property of the closed vocabulary, in canonical (name) order.
#[derive(Clone, Copy, PartialEq, Eq, Structural, Hash, Debug)]
pub enum CssProperty {
    /// `background-color`
    BackgroundColor,
    /// `color`
    Color,
    /// `font-size`
    FontSize,
    /// `font-style`
    FontStyle,
    /// `font-weight`
    FontWeight,
    /// `text-align`
    TextAlign,
}

/// The name of a property as it is serialized.
pub open spec fn prop_name(p: CssProperty) -> Seq<char> {
    match p {
        CssProperty::BackgroundColor => "background-color"@,
        CssProperty::Color => "color"@,
        CssProperty::FontSize => "font-size"@,
        CssProperty::FontStyle => "font-style"@,
        CssProperty::FontWeight => "font-weight"@,
        CssProperty::TextAlign => "text-align"@,
    }
}

/// All properties, in canonical order.
pub open spec fn all_props() -> Seq<CssProperty> {
    seq![
        CssProperty::BackgroundColor,
        CssProperty::Color,
        CssProperty::FontSize,
        CssProperty::FontStyle,
        CssProperty::FontWeight,
        CssProperty::TextAlign,
    ]
}

impl CssProperty {
    /// The property's name as it is serialized.
    pub fn name(&self) -> (r: &'static str)
        ensures
            r@ == prop_name(*self),
    {
        match self {
            CssProperty::BackgroundColor => "background-color",
            CssProperty::Color => "color",
            CssProperty::FontSize => "font-size",
            CssProperty::FontStyle => "font-style",
            CssProperty::FontWeight => "font-weight",
            CssProperty::TextAlign => "text-align",
        }
    }
}

/// The property at position `i` of the canonical order.
fn prop_of_index(i: usize) -> (r: CssProperty)
    requires
        i < all_props().len(),
    ensures
        r == all_props()[i as int],
{
    match i {
        0 => CssProperty::BackgroundColor,
        1 => CssProperty::Color,
        2 => CssProperty::FontSize,
        3 => CssProperty::FontStyle,
        4 => CssProperty::FontWeight,
        _ => CssProperty::TextAlign,
    }
}

/// The declaration map that a sequence of pushes leaves behind: later pushes
/// of a property overwrite earlier ones.
pub open spec fn pairs_map(s: Seq<(CssProperty, Seq<char>)>) -> Map<CssProperty, Seq<char>>
    decreases s.len(),
{
    if s.len() == 0 {
        Map::empty()
    } else {
        pairs_map(s.drop_last()).insert(s.last().0, s.last().1)
    }
}

/// The declarations drawn from `m` for the properties of `props`, in order:
/// each present property renders as `name: value`.
pub open spec fn decl_seq(m: Map<CssProperty, Seq<char>>, props: Seq<CssProperty>) -> Seq<
    Seq<char>,
>
    decreases props.len(),
{
    if props.len() == 0 {
        Seq::empty()
    } else {
        decl_seq(m, props.drop_last()) + (if m.contains_key(props.last()) {
            seq![prop_name(props.last()) + ": "@ + m[props.last()]]
        } else {
            Seq::<Seq<char>>::empty()
        })
    }
}

/// The declarations joined by `; `.
pub open spec fn join_decls(ds: Seq<Seq<char>>) -> Seq<char>
    decreases ds.len(),
{
    if ds.len() == 0 {
        Seq::empty()
    } else if ds.len() == 1 {
        ds[0]
    } else {
        join_decls(ds.drop_last()) + "; "@ + ds.last()
    }
}

/// The inline style for a declaration map: `None` when no declaration is
/// present, else the canonically ordered, `; `-joined declarations. A
/// function of the map alone, so the result never depends on the order in
/// which declarations were added.
pub open spec fn spec_inline_style(m: Map<CssProperty, Seq<char>>) -> Option<Seq<char>> {
    let ds = decl_seq(m, all_props());
    if ds.len() == 0 {
        None
    } else {
        Some(join_decls(ds))
    }
}

/// Accumulated style declarations for one element.
#[derive(Clone, Debug)]
pub struct Properties {
    decls: Vec<(CssProperty, String)>,
}

impl View for Properties {
    type V = Map<CssProperty, Seq<char>>;

    closed spec fn view(&self) -> Map<CssProperty, Seq<char>> {
        pairs_map(Seq::new(self.decls@.len(), |i: int| (self.decls@[i].0, self.decls@[i].1@)))
    }
}

/// Skipping trailing pairs whose property is not `p` does not change what
/// the map holds for `p`.
proof fn lemma_pairs_map_skip(s: Seq<(CssProperty, Seq<char>)>, i: int, p: CssProperty)
    requires
        0 <= i <= s.len(),
        forall|j: int| i <= j < s.len() ==> (#[trigger] s[j]).0 != p,
    ensures
        pairs_map(s).contains_key(p) == pairs_map(s.take(i)).contains_key(p),
        pairs_map(s).contains_key(p) ==> pairs_map(s)[p] == pairs_map(s.take(i))[p],
    decreases s.len() - i,
{
    if i == s.len() {
        assert(s.take(i) =~= s);
    } else {
        lemma_pairs_map_skip(s, i + 1, p);
        assert(s.take(i + 1).drop_last() =~= s.take(i));
        assert(s.take(i + 1).last() == s[i]);
    }
}

impl Properties {
    /// No declarations.
    pub fn new() -> (r: Properties)
        ensures
            r@ == Map::<CssProperty, Seq<char>>::empty(),
    {
        let r = Properties { decls: Vec::new() };
        proof {
            assert(Seq::new(r.decls@.len(), |i: int| (r.decls@[i].0, r.decls@[i].1@))
                =~= Seq::<(CssProperty, Seq<char>)>::empty());
        }
        r
    }

    /// Adds a declaration; a later declaration for the same property wins.
    pub fn push(&mut self, property: CssProperty, value: String)
        ensures
            final(self)@ == old(self)@.insert(property, value@),
    {
        self.decls.push((property, value));
        proof {
            let old_pairs = Seq::new(
                old(self).decls@.len(),
                |i: int| (old(self).decls@[i].0, old(self).decls@[i].1@),
            );
            let new_pairs = Seq::new(
                self.decls@.len(),
                |i: int| (self.decls@[i].0, self.decls@[i].1@),
            );
            assert(new_pairs.drop_last() =~= old_pairs);
            assert(new_pairs.last() == (property, value@));
        }
    }

    /// Looks the property up; a later declaration shadows an earlier one.
    pub fn get(&self, property: CssProperty) -> (r: Option<String>)
        ensures
            match r {
                Some(v) => self@.contains_key(property) && self@[property] == v@,
                None => !self@.contains_key(property),
            },
    {
        let ghost pairs = Seq::new(
            self.decls@.len(),
            |i: int| (self.decls@[i].0, self.decls@[i].1@),
        );
        let n = self.decls.len();
        let mut i: usize = n;
        while i > 0
            invariant
                0 <= i <= n,
                n == self.decls@.len(),
                pairs == Seq::new(
                    self.decls@.len(),
                    |k: int| (self.decls@[k].0, self.decls@[k].1@),
                ),
                self@ == pairs_map(pairs),
                forall|j: int| i <= j < n ==> (#[trigger] pairs[j]).0 != property,
            decreases i,
        {
            i = i - 1;
            if self.decls[i].0 == property {
                proof {
                    lemma_pairs_map_skip(pairs, i as int + 1, property);
                    assert(pairs.take(i as int + 1).last() == pairs[i as int]);
                    assert(pairs.take(i as int + 1).drop_last() =~= pairs.take(i as int));
                }
                return Some(self.decls[i].1.clone());
            }
        }
        proof {
            lemma_pairs_map_skip(pairs, 0, property);
            assert(pairs.take(0) =~= Seq::<(CssProperty, Seq<char>)>::empty());
        }
        None
    }

    /// Collapses the declarations into the value of one `style` attribute:
    /// `None` when no declaration was added, else the canonically ordered,
    /// `; `-joined declarations.
    pub fn into_inline_styles(self) -> (r: Option<String>)
        ensures
            match r {
                Some(s) => spec_inline_style(self@) == Some(s@),
                None => spec_inline_style(self@) is None,
            },
    {
        let mut out = String::new();
        let mut count: usize = 0;
        let mut i: usize = 0;
        while i < 6
            invariant
                0 <= i <= 6,
                all_props().len() == 6,
                count == decl_seq(self@, all_props().take(i as int)).len(),
                out@ == join_decls(decl_seq(self@, all_props().take(i as int))),
                count <= i,
            decreases 6 - i,
        {
            let p = prop_of_index(i);
            proof {
                assert(all_props().take(i as int + 1).drop_last() =~= all_props().take(i as int));
                assert(all_props().take(i as int + 1).last() == all_props()[i as int]);
            }
            match self.get(p) {
                Some(v) => {
                    let ghost ds = decl_seq(self@, all_props().take(i as int));
                    let ghost d = prop_name(p) + ": "@ + self@[p];
                    if count > 0 {
                        out.append("; ");
                    }
                    out.append(p.name());
                    out.append(": ");
                    out.append(v.as_str());
                    proof {
                        let ds2 = decl_seq(self@, all_props().take(i as int + 1));
                        assert(ds2 =~= ds.push(d));
                        assert(ds2.drop_last() =~= ds);
                        if ds.len() == 0 {
                            assert(join_decls(ds2) == d);
                            assert(out@ =~= join_decls(ds2));
                        } else {
                            assert(join_decls(ds2) == join_decls(ds) + "; "@ + d);
                            assert(out@ =~= join_decls(ds2));
                        }
                    }
                    count = count + 1;
                },
                None => {
                    proof {
                        assert(decl_seq(self@, all_props().take(i as int + 1)) =~= decl_seq(
                            self@,
                            all_props().take(i as int),
                        ));
                    }
                },
            }
            i = i + 1;
        }
        proof {
            assert(all_props().take(6) =~= all_props());
        }
        if count == 0 {
            None
        } else {
            Some(out)
        }
    }
}

/// Law: declarations for two different properties may be added in either
/// order; the inline style is the same.
pub proof fn lemma_style_order_irrelevant(
    m: Map<CssProperty, Seq<char>>,
    p1: CssProperty,
    v1: Seq<char>,
    p2: CssProperty,
    v2: Seq<char>,
)
    requires
        p1 != p2,
    ensures
        spec_inline_style(m.insert(p1, v1).insert(p2, v2)) == spec_inline_style(
            m.insert(p2, v2).insert(p1, v1),
        ),
{
    assert(m.insert(p1, v1).insert(p2, v2) =~= m.insert(p2, v2).insert(p1, v1));
}

/// Law: adding the same property twice keeps only the later value.
pub proof fn lemma_style_last_write_wins(
    m: Map<CssProperty, Seq<char>>,
    p: CssProperty,
    v1: Seq<char>,
    v2: Seq<char>,
)
    ensures
        spec_inline_style(m.insert(p, v1).insert(p, v2)) == spec_inline_style(m.insert(p, v2)),
{
    assert(m.insert(p, v1).insert(p, v2) =~= m.insert(p, v2));
}

} // verus!
