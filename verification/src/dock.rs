use vstd::prelude::*;

verus! {

/// The direction a split lays its children out in.
#[derive(Clone, Copy, PartialEq, Eq, Structural, Debug)]
pub enum Axis {
    Horizontal,
    Vertical,
}

/// A region of a dock layout: one panel, a tab group of panels, or a split of child regions. Panels are
/// named by their ids; each split child carries a relative weight of type `W`.
#[derive(Debug, PartialEq)]
pub enum DockNode<W> {
    Leaf(u64),
    Tabs { panels: Vec<u64>, active: usize },
    Split { axis: Axis, children: Vec<DockChild<W>> },
}

/// One child of a split: its region and its relative weight.
#[derive(Debug, PartialEq)]
pub struct DockChild<W> {
    pub node: DockNode<W>,
    pub weight: W,
}

/// The region reached from `root` by following the child indices of `path` through splits, or `None`
/// when the path leaves a split's children or passes through a leaf or tab group.
pub open spec fn spec_node_at<W>(root: DockNode<W>, path: Seq<usize>) -> Option<DockNode<W>>
    decreases path.len(),
{
    if path.len() == 0 {
        Some(root)
    } else {
        match root {
            DockNode::Split { children, .. } => if path[0] < children@.len() {
                spec_node_at(children@[path[0] as int].node, path.drop_first())
            } else {
                None
            },
            _ => None,
        }
    }
}

/// The region at `path` below `root` (see [`spec_node_at`]).
pub fn node_at<'a, W>(root: &'a DockNode<W>, path: &[usize]) -> (r: Option<&'a DockNode<W>>)
    ensures
        match r {
            Some(n) => spec_node_at(*root, path@) == Some(*n),
            None => spec_node_at(*root, path@) is None,
        },
{
    let mut node = root;
    let mut k: usize = 0;
    assert(path@.skip(0) =~= path@);
    while k < path.len()
        invariant
            k <= path.len(),
            spec_node_at(*root, path@) == spec_node_at(*node, path@.skip(k as int)),
        decreases path.len() - k,
    {
        let i = path[k];
        assert(path@.skip(k as int).drop_first() =~= path@.skip(k + 1));
        match node {
            DockNode::Split { children, .. } => {
                if i < children.len() {
                    node = &children[i].node;
                } else {
                    return None;
                }
            },
            _ => {
                return None;
            },
        }
        k = k + 1;
    }
    assert(path@.skip(k as int) =~= Seq::<usize>::empty());
    Some(node)
}

/// The child weights of the split at `path` below `root`, if that region is a split.
pub open spec fn spec_weights_at<W>(root: Option<&DockNode<W>>, path: Seq<usize>) -> Option<Seq<W>> {
    match root {
        Some(r) => match spec_node_at(*r, path) {
            Some(DockNode::Split { children, .. }) => Some(children@.map_values(|c: DockChild<W>| c.weight)),
            _ => None,
        },
        None => None,
    }
}

/// The child weights of the split at `path` (see [`spec_weights_at`]).
pub fn weights_at<W: Copy>(root: Option<&DockNode<W>>, path: &[usize]) -> (r: Option<Vec<W>>)
    ensures
        match r {
            Some(v) => spec_weights_at(root, path@) == Some(v@),
            None => spec_weights_at(root, path@) is None,
        },
{
    let root = match root {
        Some(n) => n,
        None => return None,
    };
    match node_at(root, path) {
        Some(DockNode::Split { children, .. }) => {
            let mut w: Vec<W> = Vec::new();
            for i in 0..children.len()
                invariant
                    w@ =~= children@.subrange(0, i as int).map_values(|c: DockChild<W>| c.weight),
            {
                w.push(children[i].weight);
            }
            assert(children@.subrange(0, children@.len() as int) =~= children@);
            Some(w)
        },
        _ => None,
    }
}

/// The active tab of the tab group at `path` below `root`, if that region is a tab group.
pub open spec fn spec_active_at<W>(root: Option<&DockNode<W>>, path: Seq<usize>) -> Option<usize> {
    match root {
        Some(r) => match spec_node_at(*r, path) {
            Some(DockNode::Tabs { active, .. }) => Some(active),
            _ => None,
        },
        None => None,
    }
}

/// The active tab of the tab group at `path` (see [`spec_active_at`]).
pub fn active_at<W>(root: Option<&DockNode<W>>, path: &[usize]) -> (r: Option<usize>)
    ensures
        r == spec_active_at(root, path@),
{
    let root = match root {
        Some(n) => n,
        None => return None,
    };
    match node_at(root, path) {
        Some(DockNode::Tabs { active, .. }) => Some(*active),
        _ => None,
    }
}

/// `path` extended by the child index `i`.
pub fn child_path(path: &[usize], i: usize) -> (r: Vec<usize>)
    ensures
        r@ == path@.push(i),
{
    let mut p: Vec<usize> = Vec::new();
    for k in 0..path.len()
        invariant
            p@ =~= path@.subrange(0, k as int),
    {
        p.push(path[k]);
    }
    assert(path@.subrange(0, path@.len() as int) =~= path@);
    p.push(i);
    p
}

/// The tab a tab group shows first: its stored active index, clamped to the last tab (`0` for an empty
/// group).
pub fn shown_tab(active: usize, tabs: usize) -> (r: usize)
    ensures
        r == if tabs == 0 { 0 } else if active < tabs { active } else { (tabs - 1) as usize },
{
    let last = if tabs == 0 { 0 } else { tabs - 1 };
    if active < last { active } else { last }
}

/// Extending a path by a child index walks one level further: if `path` reaches a split, then `path`
/// followed by `i` reaches that split's child `i` (and nothing when `i` is past its children); so the
/// path a region is rendered at is the path its resize and tab write-backs address.
pub proof fn lemma_child_path_reaches_child<W>(root: DockNode<W>, path: Seq<usize>, i: usize)
    requires
        spec_node_at(root, path) matches Some(DockNode::Split { .. }),
    ensures
        ({
            let children = spec_node_at(root, path)->Some_0->Split_children;
            spec_node_at(root, path.push(i)) == if i < children@.len() {
                Some(children@[i as int].node)
            } else {
                None::<DockNode<W>>
            }
        }),
    decreases path.len(),
{
    if path.len() > 0 {
        match root {
            DockNode::Split { children, .. } => {
                let child = children@[path[0] as int].node;
                assert(path.push(i)[0] == path[0]);
                assert(path.push(i).drop_first() =~= path.drop_first().push(i));
                assert(spec_node_at(root, path) == spec_node_at(child, path.drop_first()));
                assert(spec_node_at(root, path.push(i)) == spec_node_at(child, path.drop_first().push(i)));
                lemma_child_path_reaches_child(child, path.drop_first(), i);
            },
            _ => {},
        }
    } else {
        reveal_with_fuel(spec_node_at, 2);
        assert(path.push(i)[0] == i);
        assert(path.push(i).drop_first() =~= Seq::<usize>::empty());
        assert(spec_node_at(root, path) == Some(root));
    }
}

/// `key` is the shape of `node`: the same regions, panel ids, tab order and split axes, with every tab
/// group's active index `0` and every split child's weight `one`.
pub open spec fn is_shape_of<W>(key: DockNode<W>, node: DockNode<W>, one: W) -> bool
    decreases node,
{
    match node {
        DockNode::Leaf(id) => key is Leaf && key->Leaf_0 == id,
        DockNode::Tabs { panels, .. } => match key {
            DockNode::Tabs { panels: p, active } => p@ == panels@ && active == 0,
            _ => false,
        },
        DockNode::Split { axis, children } => match key {
            DockNode::Split { axis: a, children: c } => {
                &&& a == axis
                &&& c@.len() == children@.len()
                &&& forall|i: int|
                    0 <= i < children@.len() ==> c@[i].weight == one && is_shape_of(
                        c@[i].node,
                        #[trigger] children@[i].node,
                        one,
                    )
            },
            _ => false,
        },
    }
}

/// The shape of `node`: the region tree with every active index set to `0` and every weight set to
/// `one`, so two layouts that differ only in weights or active tabs give equal shapes.
pub fn strip<W: Copy>(node: &DockNode<W>, one: W) -> (r: DockNode<W>)
    ensures
        is_shape_of(r, *node, one),
    decreases node,
{
    match node {
        DockNode::Leaf(id) => DockNode::Leaf(*id),
        DockNode::Tabs { panels, .. } => {
            let p = panels.clone();
            assert(p@ =~= panels@);
            DockNode::Tabs { panels: p, active: 0 }
        },
        DockNode::Split { axis, children } => {
            let mut c: Vec<DockChild<W>> = Vec::new();
            for i in 0..children.len()
                invariant
                    c@.len() == i,
                    *node is Split,
                    node->Split_children == *children,
                    forall|j: int|
                        0 <= j < i ==> c@[j].weight == one && is_shape_of(
                            c@[j].node,
                            #[trigger] children@[j].node,
                            one,
                        ),
            {
                proof {
                    assert(decreases_to!(*node => children@[i as int].node));
                }
                let child = strip(&children[i].node, one);
                c.push(DockChild { node: child, weight: one });
            }
            DockNode::Split { axis: *axis, children: c }
        },
    }
}

/// Two layouts have the same shape: the same regions, panel ids, tab order and split axes, whatever
/// their split weights and active tabs.
pub open spec fn same_shape<W>(a: DockNode<W>, b: DockNode<W>) -> bool
    decreases a,
{
    match a {
        DockNode::Leaf(id) => b is Leaf && b->Leaf_0 == id,
        DockNode::Tabs { panels, .. } => b is Tabs && b->Tabs_panels@ == panels@,
        DockNode::Split { axis, children } => {
            &&& b is Split
            &&& b->Split_axis == axis
            &&& b->Split_children@.len() == children@.len()
            &&& forall|i: int|
                0 <= i < children@.len() ==> same_shape(
                    #[trigger] children@[i].node,
                    b->Split_children@[i].node,
                )
        },
    }
}

/// Two layouts agree in every field: shape, active tabs and split weights.
pub open spec fn same_layout<W>(a: DockNode<W>, b: DockNode<W>) -> bool
    decreases a,
{
    match a {
        DockNode::Leaf(id) => b is Leaf && b->Leaf_0 == id,
        DockNode::Tabs { panels, active } => {
            &&& b is Tabs
            &&& b->Tabs_panels@ == panels@
            &&& b->Tabs_active == active
        },
        DockNode::Split { axis, children } => {
            &&& b is Split
            &&& b->Split_axis == axis
            &&& b->Split_children@.len() == children@.len()
            &&& forall|i: int|
                0 <= i < children@.len() ==> b->Split_children@[i].weight == children@[i].weight
                    && same_layout(#[trigger] children@[i].node, b->Split_children@[i].node)
        },
    }
}

/// The shape key tells layouts apart exactly by shape: the shapes of two layouts agree in every field
/// if and only if the layouts have the same shape. A change of split weights or active tabs alone
/// leaves the key unchanged; any change of regions, panels, tab order or axes changes it.
pub proof fn lemma_shape_key_exact<W>(a: DockNode<W>, b: DockNode<W>, ka: DockNode<W>, kb: DockNode<W>, one: W)
    requires
        is_shape_of(ka, a, one),
        is_shape_of(kb, b, one),
    ensures
        same_layout(ka, kb) <==> same_shape(a, b),
    decreases a,
{
    match a {
        DockNode::Split { axis, children } => {
            if b is Split && b->Split_children@.len() == children@.len() {
                let cb = b->Split_children@;
                let ca_k = ka->Split_children@;
                let cb_k = kb->Split_children@;
                assert forall|i: int| 0 <= i < children@.len() implies (same_layout(
                    #[trigger] ca_k[i].node,
                    cb_k[i].node,
                ) <==> same_shape(children@[i].node, cb[i].node)) by {
                    assert(decreases_to!(a => children@[i].node));
                    lemma_shape_key_exact(children@[i].node, cb[i].node, ca_k[i].node, cb_k[i].node, one);
                }
                if same_shape(a, b) {
                    assert forall|i: int| 0 <= i < ca_k.len() implies cb_k[i].weight == ca_k[i].weight
                        && same_layout(#[trigger] ca_k[i].node, cb_k[i].node) by {
                        assert(same_shape(children@[i].node, cb[i].node));
                    }
                }
                if same_layout(ka, kb) {
                    assert forall|i: int| 0 <= i < children@.len() implies same_shape(
                        #[trigger] children@[i].node,
                        cb[i].node,
                    ) by {
                        assert(same_layout(ca_k[i].node, cb_k[i].node));
                    }
                }
            }
        },
        _ => {},
    }
}

} // verus!
