//! A parsed markup document, held as its nodes in document order.
//!
//! Node `i` spans the indices `i .. nodes[i].end`: itself and its
//! descendants. Text nodes carry their text and an empty tag; element nodes
//! carry their tag name and classes and an empty text.
use vstd::prelude::*;
use vstd::string::StringExecFns;

verus! {

pub struct Node {
    pub tag: String,
    pub classes: Vec<String>,
    pub text: String,
    pub end: usize,
}

pub struct Document {
    pub nodes: Vec<Node>,
}

/// Every node's span starts at itself, stays in the document, and holds the
/// spans of its descendants.
pub open spec fn nodes_wf(nodes: Seq<Node>) -> bool {
    &&& forall|i: int| 0 <= i < nodes.len() ==> i < #[trigger] nodes[i].end <= nodes.len()
    &&& forall|i: int, j: int|
        0 <= i < j < nodes[i].end && j < nodes.len() ==> #[trigger] nodes[j].end <= #[trigger] nodes[
            i
        ].end
}

/// The texts of nodes `i .. j`, joined in order.
pub open spec fn text_upto(nodes: Seq<Node>, i: int, j: int) -> Seq<char>
    decreases j - i,
{
    if j <= i {
        Seq::empty()
    } else {
        text_upto(nodes, i, j - 1) + nodes[j - 1].text@
    }
}

/// The text of node `i`: the texts of all the text nodes in its span.
pub open spec fn node_text(nodes: Seq<Node>, i: int) -> Seq<char> {
    text_upto(nodes, i, nodes[i].end as int)
}

pub open spec fn has_class(n: Node, c: Seq<char>) -> bool {
    exists|k: int| 0 <= k < n.classes@.len() && #[trigger] n.classes@[k]@ == c
}

pub open spec fn has_tag(n: Node, t: Seq<char>) -> bool {
    n.tag@ == t
}

pub open spec fn class_pred(nodes: Seq<Node>, c: Seq<char>) -> spec_fn(int) -> bool {
    |k: int| has_class(nodes[k], c)
}

pub open spec fn tag_pred(nodes: Seq<Node>, t: Seq<char>) -> spec_fn(int) -> bool {
    |k: int| has_tag(nodes[k], t)
}

/// The first index in `from .. to` where `p` holds.
pub open spec fn first_in(from: int, to: int, p: spec_fn(int) -> bool) -> Option<int>
    decreases to - from,
{
    if to <= from {
        None
    } else if p(from) {
        Some(from)
    } else {
        first_in(from + 1, to, p)
    }
}

/// The last index in `from .. to` where `p` holds.
pub open spec fn last_in(from: int, to: int, p: spec_fn(int) -> bool) -> Option<int>
    decreases to - from,
{
    if to <= from {
        None
    } else if p(to - 1) {
        Some(to - 1)
    } else {
        last_in(from, to - 1, p)
    }
}

pub open spec fn index_view(o: Option<usize>) -> Option<int> {
    match o {
        Some(k) => Some(k as int),
        None => None,
    }
}

/// Whether node `n` carries class `c`.
pub fn node_has_class(n: &Node, c: &str) -> (r: bool)
    ensures
        r == has_class(*n, c@),
{
    let cs = c.to_owned();
    let mut k: usize = 0;
    while k < n.classes.len()
        invariant
            cs@ == c@,
            k <= n.classes@.len(),
            forall|m: int| 0 <= m < k ==> #[trigger] n.classes@[m]@ != c@,
        decreases n.classes@.len() - k,
    {
        if n.classes[k] == cs {
            return true;
        }
        k = k + 1;
    }
    false
}

/// Whether node `n` has tag `t`.
pub fn node_has_tag(n: &Node, t: &str) -> (r: bool)
    ensures
        r == has_tag(*n, t@),
{
    n.tag == t.to_owned()
}

impl Document {
    pub open spec fn wf(&self) -> bool {
        nodes_wf(self.nodes@)
    }

    /// Whether the document is well formed, as `nodes_wf` says.
    pub fn is_well_formed(&self) -> (r: bool)
        ensures
            r == self.wf(),
    {
        let n = self.nodes.len();
        let mut i: usize = 0;
        while i < n
            invariant
                n == self.nodes@.len(),
                i <= n,
                forall|a: int| 0 <= a < i ==> a < #[trigger] self.nodes@[a].end <= n,
                forall|a: int, b: int|
                    0 <= a < i && a < b < self.nodes@[a].end && b < n ==> #[trigger] self.nodes@[b].end
                        <= #[trigger] self.nodes@[a].end,
            decreases n - i,
        {
            let end = self.nodes[i].end;
            if !(i < end && end <= n) {
                return false;
            }
            let mut j: usize = i + 1;
            while j < end
                invariant
                    n == self.nodes@.len(),
                    i < n,
                    end == self.nodes@[i as int].end,
                    i < j <= end <= n,
                    forall|b: int| i < b < j ==> #[trigger] self.nodes@[b].end <= end,
                decreases end - j,
            {
                if self.nodes[j].end > end {
                    return false;
                }
                j = j + 1;
            }
            i = i + 1;
        }
        true
    }

    /// The text of node `i`.
    pub fn text_of(&self, i: usize) -> (r: String)
        requires
            self.wf(),
            i < self.nodes@.len(),
        ensures
            r@ == node_text(self.nodes@, i as int),
    {
        let end = self.nodes[i].end;
        let mut acc = String::new();
        let mut j: usize = i;
        while j < end
            invariant
                self.wf(),
                i < self.nodes@.len(),
                end == self.nodes@[i as int].end,
                i <= j <= end,
                acc@ == text_upto(self.nodes@, i as int, j as int),
            decreases end - j,
        {
            acc.append(self.nodes[j].text.as_str());
            j = j + 1;
        }
        acc
    }

    /// The first node in `from .. to` that carries class `c`.
    pub fn first_with_class(&self, from: usize, to: usize, c: &str) -> (r: Option<usize>)
        requires
            from <= to <= self.nodes@.len(),
        ensures
            index_view(r) == first_in(from as int, to as int, class_pred(self.nodes@, c@)),
            r matches Some(k) ==> from <= k < to,
    {
        let mut j: usize = from;
        while j < to
            invariant
                from <= j <= to <= self.nodes@.len(),
                first_in(from as int, to as int, class_pred(self.nodes@, c@)) == first_in(
                    j as int,
                    to as int,
                    class_pred(self.nodes@, c@),
                ),
            decreases to - j,
        {
            if node_has_class(&self.nodes[j], c) {
                return Some(j);
            }
            j = j + 1;
        }
        None
    }

    /// The first node in `from .. to` with tag `t`.
    pub fn first_with_tag(&self, from: usize, to: usize, t: &str) -> (r: Option<usize>)
        requires
            from <= to <= self.nodes@.len(),
        ensures
            index_view(r) == first_in(from as int, to as int, tag_pred(self.nodes@, t@)),
            r matches Some(k) ==> from <= k < to,
    {
        let mut j: usize = from;
        while j < to
            invariant
                from <= j <= to <= self.nodes@.len(),
                first_in(from as int, to as int, tag_pred(self.nodes@, t@)) == first_in(
                    j as int,
                    to as int,
                    tag_pred(self.nodes@, t@),
                ),
            decreases to - j,
        {
            if node_has_tag(&self.nodes[j], t) {
                return Some(j);
            }
            j = j + 1;
        }
        None
    }

    /// The last node in `from .. to` that carries class `c`.
    pub fn last_with_class(&self, from: usize, to: usize, c: &str) -> (r: Option<usize>)
        requires
            from <= to <= self.nodes@.len(),
        ensures
            index_view(r) == last_in(from as int, to as int, class_pred(self.nodes@, c@)),
            r matches Some(k) ==> from <= k < to,
    {
        let mut found: Option<usize> = None;
        let mut j: usize = from;
        while j < to
            invariant
                from <= j <= to <= self.nodes@.len(),
                index_view(found) == last_in(from as int, j as int, class_pred(self.nodes@, c@)),
                found matches Some(k) ==> from <= k < j,
            decreases to - j,
        {
            if node_has_class(&self.nodes[j], c) {
                found = Some(j);
            }
            j = j + 1;
        }
        found
    }
}

} // verus!
