//! A web page as the list of its elements in document order, each with its
//! depth in the tree, and the searches that scraping needs.
use vstd::prelude::*;
use vstd::string::*;

use crate::text::str_eq;

verus! {

/// One element of a page.
#[derive(Debug)]
pub struct Element {
    /// The tag name, such as `tr` or `a`.
    pub name: String,
    /// The words of the `class` attribute.
    pub classes: Vec<String>,
    /// The `href` attribute, where there is one.
    pub href: Option<String>,
    /// All text inside the element, in document order.
    pub text: String,
    /// The number of ancestors of the element.
    pub depth: usize,
}

/// A page: its elements in document order.
#[derive(Debug)]
pub struct Document {
    pub elements: Vec<Element>,
}

/// What an element is searched for by.
#[derive(Debug, Clone, Copy)]
pub enum Pred {
    /// Elements with this tag name.
    Name(&'static str),
    /// Elements with this class.
    Class(&'static str),
    /// Elements with this tag name and this class.
    NameAndClass(&'static str, &'static str),
    /// Elements with both classes.
    Classes(&'static str, &'static str),
    /// Elements with this tag name below an element with this class.
    NameUnderClass(&'static str, &'static str),
    /// Links: `a` elements with an `href`.
    Link,
}

pub open spec fn has_class(e: Element, c: Seq<char>) -> bool {
    exists|k: int| 0 <= k < e.classes@.len() && (#[trigger] e.classes@[k])@ == c
}

/// Whether element `i` is an ancestor of element `j`.
pub open spec fn is_ancestor(els: Seq<Element>, i: int, j: int) -> bool {
    0 <= i < j < els.len() && forall|k: int| i < k <= j ==> els[i].depth < (#[trigger] els[k]).depth
}

/// Whether some ancestor of element `j` has class `c`.
pub open spec fn under_class(els: Seq<Element>, j: int, c: Seq<char>) -> bool {
    exists|i: int| #[trigger] is_ancestor(els, i, j) && has_class(els[i], c)
}

/// Whether element `j` answers `p`.
pub open spec fn matches(els: Seq<Element>, j: int, p: Pred) -> bool {
    let e = els[j];
    match p {
        Pred::Name(n) => e.name@ == n@,
        Pred::Class(c) => has_class(e, c@),
        Pred::NameAndClass(n, c) => e.name@ == n@ && has_class(e, c@),
        Pred::Classes(c, d) => has_class(e, c@) && has_class(e, d@),
        Pred::NameUnderClass(n, c) => e.name@ == n@ && under_class(els, j, c@),
        Pred::Link => e.name@ == "a"@ && e.href is Some,
    }
}

/// The elements in `from..to` that answer `p`, in document order.
pub open spec fn found(els: Seq<Element>, from: int, to: int, p: Pred) -> Seq<int>
    decreases to - from,
{
    if to <= from {
        Seq::empty()
    } else {
        let rest = found(els, from, to - 1, p);
        if matches(els, to - 1, p) {
            rest.push(to - 1)
        } else {
            rest
        }
    }
}

/// The first element in `i..to` that answers `p`.
pub open spec fn first_found(els: Seq<Element>, i: int, to: int, p: Pred) -> Option<int>
    decreases to - i,
{
    if i >= to {
        None
    } else if matches(els, i, p) {
        Some(i)
    } else {
        first_found(els, i + 1, to, p)
    }
}

/// The end of the subtree of element `r`: the first element at or after `k`
/// that is not below `r`, or the end of the page.
pub open spec fn subtree_end(els: Seq<Element>, r: int, k: int) -> int
    decreases els.len() - k,
{
    if k < 0 || k >= els.len() {
        els.len() as int
    } else if els[k].depth <= els[r].depth {
        k
    } else {
        subtree_end(els, r, k + 1)
    }
}

/// The elements below `r`: those after it up to the end of its subtree.
pub open spec fn below(els: Seq<Element>, r: int) -> (int, int) {
    (r + 1, subtree_end(els, r, r + 1))
}

pub fn element_has_class(e: &Element, c: &str) -> (r: bool)
    ensures
        r == has_class(*e, c@),
{
    let mut k: usize = 0;
    while k < e.classes.len()
        invariant
            k <= e.classes@.len(),
            forall|m: int| 0 <= m < k ==> (#[trigger] e.classes@[m])@ != c@,
        decreases e.classes.len() - k,
    {
        if str_eq(e.classes[k].as_str(), c) {
            return true;
        }
        k = k + 1;
    }
    false
}

impl Document {
    pub open spec fn els(&self) -> Seq<Element> {
        self.elements@
    }

    /// Whether some ancestor of element `j` has class `c`.
    pub fn is_under_class(&self, j: usize, c: &str) -> (r: bool)
        requires
            j < self.els().len(),
        ensures
            r == under_class(self.els(), j as int, c@),
    {
        let ghost els = self.els();
        let mut m: usize = self.elements[j].depth;
        let mut i: usize = j;
        while i > 0
            invariant
                els == self.els(),
                j < els.len(),
                i <= j,
                forall|k: int| i <= k <= j ==> m <= (#[trigger] els[k]).depth,
                exists|k: int| i <= k <= j && (#[trigger] els[k]).depth == m,
                forall|a: int| i <= a < j && #[trigger] is_ancestor(els, a, j as int) ==> !has_class(els[a], c@),
            decreases i,
        {
            i = i - 1;
            let d = self.elements[i].depth;
            if d < m {
                assert(is_ancestor(els, i as int, j as int));
                if element_has_class(&self.elements[i], c) {
                    return true;
                }
                m = d;
            } else {
                assert(!is_ancestor(els, i as int, j as int)) by {
                    let k = choose|k: int| i < k <= j && (#[trigger] els[k]).depth == m;
                    if i < j {
                        assert(els[k].depth <= els[i as int].depth);
                    }
                }
            }
        }
        false
    }

    /// Whether element `j` answers `p`.
    pub fn is_match(&self, j: usize, p: Pred) -> (r: bool)
        requires
            j < self.els().len(),
        ensures
            r == matches(self.els(), j as int, p),
    {
        let e = &self.elements[j];
        match p {
            Pred::Name(n) => str_eq(e.name.as_str(), n),
            Pred::Class(c) => element_has_class(e, c),
            Pred::NameAndClass(n, c) => str_eq(e.name.as_str(), n) && element_has_class(e, c),
            Pred::Classes(c, d) => element_has_class(e, c) && element_has_class(e, d),
            Pred::NameUnderClass(n, c) => str_eq(e.name.as_str(), n) && self.is_under_class(j, c),
            Pred::Link => str_eq(e.name.as_str(), "a") && e.href.is_some(),
        }
    }

    /// The elements in `from..to` that answer `p`, in document order.
    pub fn find_all(&self, from: usize, to: usize, p: Pred) -> (r: Vec<usize>)
        requires
            from <= to <= self.els().len(),
        ensures
            r@.len() == found(self.els(), from as int, to as int, p).len(),
            forall|k: int| 0 <= k < r@.len() ==> r@[k] as int == #[trigger] found(self.els(), from as int, to as int, p)[k],
            forall|k: int| 0 <= k < r@.len() ==> from <= #[trigger] r@[k] < to,
            forall|k: int| 0 <= k < r@.len() ==> matches(self.els(), #[trigger] r@[k] as int, p),
    {
        let mut out: Vec<usize> = Vec::new();
        let mut i: usize = from;
        while i < to
            invariant
                from <= i <= to <= self.els().len(),
                out@.len() == found(self.els(), from as int, i as int, p).len(),
                forall|k: int| 0 <= k < out@.len() ==> out@[k] as int == #[trigger] found(self.els(), from as int, i as int, p)[k],
                forall|k: int| 0 <= k < out@.len() ==> from <= #[trigger] out@[k] < i,
                forall|k: int| 0 <= k < out@.len() ==> matches(self.els(), #[trigger] out@[k] as int, p),
            decreases to - i,
        {
            if self.is_match(i, p) {
                out.push(i);
            }
            i = i + 1;
        }
        out
    }

    /// The first element in `from..to` that answers `p`.
    pub fn find_first(&self, from: usize, to: usize, p: Pred) -> (r: Option<usize>)
        requires
            from <= to <= self.els().len(),
        ensures
            r.is_some() == first_found(self.els(), from as int, to as int, p).is_some(),
            r.is_some() ==> first_found(self.els(), from as int, to as int, p) == Some(r.unwrap() as int),
            r.is_some() ==> from <= r.unwrap() < to,
    {
        let mut i: usize = from;
        while i < to
            invariant
                from <= i <= to <= self.els().len(),
                first_found(self.els(), from as int, to as int, p) == first_found(self.els(), i as int, to as int, p),
            decreases to - i,
        {
            if self.is_match(i, p) {
                return Some(i);
            }
            i = i + 1;
        }
        None
    }

    /// The range of the elements below element `r`.
    pub fn below(&self, r: usize) -> (res: (usize, usize))
        requires
            r < self.els().len(),
        ensures
            res.0 as int == below(self.els(), r as int).0,
            res.1 as int == below(self.els(), r as int).1,
            res.0 <= res.1 <= self.els().len(),
    {
        let n = self.elements.len();
        let mut k: usize = r + 1;
        while k < n
            invariant
                r < k <= n == self.els().len(),
                subtree_end(self.els(), r as int, r + 1) == subtree_end(self.els(), r as int, k as int),
            decreases n - k,
        {
            if self.elements[k].depth <= self.elements[r].depth {
                return (r + 1, k);
            }
            k = k + 1;
        }
        (r + 1, k)
    }
}

} // verus!
