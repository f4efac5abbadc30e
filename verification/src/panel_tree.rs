//! The pane layout tree: a binary tree whose leaves are independent
//! file-browsing panes and whose internal nodes are splits, each with an
//! axis, two children and one divider state.  All structural operations
//! fail softly on an unknown identifier: stale identifiers can arrive
//! from in-flight asynchronous loads racing a close.

use vstd::prelude::*;

use crate::geometry::{Axis, Bounds};
use crate::resizable::ResizableState;
use crate::types::FileItem;

verus! {

/// Identifier shared by panes and splits, drawn from one monotonically
/// increasing counter owned by the orchestrator.
pub type PanelId = u64;

/// A node of the pane layout tree: either a leaf holding one directory
/// view, or a split holding two children and the divider between them.
pub enum PanelNode {
    Leaf {
        id: PanelId,
        path: String,
        entries: Vec<FileItem>,
        loading: bool,
        error: Option<String>,
        bounds: Bounds,
    },
    Split {
        id: PanelId,
        axis: Axis,
        first: Box<PanelNode>,
        second: Box<PanelNode>,
        state: ResizableState,
        bounds: Bounds,
    },
}

/// The mathematical value of a tree node: the same shape, with each leaf's
/// path and entry vector abstracted to the sequences they hold.
#[verifier::ext_equal]
pub enum PanelModel {
    Leaf {
        id: PanelId,
        path: Seq<char>,
        entries: Seq<FileItem>,
        loading: bool,
        error: Option<Seq<char>>,
        bounds: Bounds,
    },
    Split {
        id: PanelId,
        axis: Axis,
        first: Box<PanelModel>,
        second: Box<PanelModel>,
        state: ResizableState,
        bounds: Bounds,
    },
}

/// What one leaf shows: everything a pane carries except its rectangle.
#[verifier::ext_equal]
pub struct LeafContent {
    pub path: Seq<char>,
    pub entries: Seq<FileItem>,
    pub loading: bool,
    pub error: Option<Seq<char>>,
}

impl PanelNode {
    pub open spec fn model(self) -> PanelModel
        decreases self,
    {
        match self {
            PanelNode::Leaf { id, path, entries, loading, error, bounds } => PanelModel::Leaf {
                id,
                path: path@,
                entries: entries@,
                loading,
                error: crate::types::opt_view(error),
                bounds,
            },
            PanelNode::Split { id, axis, first, second, state, bounds } => PanelModel::Split {
                id,
                axis,
                first: Box::new((*first).model()),
                second: Box::new((*second).model()),
                state,
                bounds,
            },
        }
    }
}

impl View for PanelNode {
    type V = PanelModel;

    open spec fn view(&self) -> PanelModel {
        (*self).model()
    }
}

/// The identifier carried by the node itself.
pub open spec fn model_id(m: PanelModel) -> PanelId {
    match m {
        PanelModel::Leaf { id, .. } => id,
        PanelModel::Split { id, .. } => id,
    }
}

/// How many panes (leaves) the tree holds.
pub open spec fn model_count_leaves(m: PanelModel) -> nat
    decreases m,
{
    match m {
        PanelModel::Leaf { .. } => 1,
        PanelModel::Split { first, second, .. } => model_count_leaves(*first)
            + model_count_leaves(*second),
    }
}

/// Whether some leaf of the tree carries this identifier.
pub open spec fn model_has_leaf(m: PanelModel, id: PanelId) -> bool
    decreases m,
{
    match m {
        PanelModel::Leaf { id: nid, .. } => nid == id,
        PanelModel::Split { first, second, .. } => model_has_leaf(*first, id) || model_has_leaf(
            *second,
            id,
        ),
    }
}

/// Whether any node of the tree — leaf or split — carries this identifier.
pub open spec fn model_contains_id(m: PanelModel, id: PanelId) -> bool
    decreases m,
{
    match m {
        PanelModel::Leaf { id: nid, .. } => nid == id,
        PanelModel::Split { id: nid, first, second, .. } => nid == id || model_contains_id(
            *first,
            id,
        ) || model_contains_id(*second, id),
    }
}

/// All identifiers in the tree are distinct: no node repeats another's, and
/// the two subtrees of a split share none.
pub open spec fn model_wf(m: PanelModel) -> bool
    decreases m,
{
    match m {
        PanelModel::Leaf { .. } => true,
        PanelModel::Split { id, first, second, .. } => {
            &&& model_wf(*first)
            &&& model_wf(*second)
            &&& !model_contains_id(*first, id)
            &&& !model_contains_id(*second, id)
            &&& forall|i: PanelId|
                !(model_contains_id(*first, i) && model_contains_id(*second, i))
        },
    }
}

/// Every rectangle and every divider state in the tree is well formed.
pub open spec fn model_bounds_wf(m: PanelModel) -> bool
    decreases m,
{
    match m {
        PanelModel::Leaf { bounds, .. } => bounds.wf(),
        PanelModel::Split { first, second, state, bounds, .. } => {
            &&& bounds.wf()
            &&& state.wf()
            &&& model_bounds_wf(*first)
            &&& model_bounds_wf(*second)
        },
    }
}

/// Depth-first search for the first node carrying this identifier,
/// preferring a split over descending further once found at a level.
pub open spec fn model_find(m: PanelModel, id: PanelId) -> Option<PanelModel>
    decreases m,
{
    match m {
        PanelModel::Leaf { id: nid, .. } => if nid == id {
            Some(m)
        } else {
            None
        },
        PanelModel::Split { id: nid, first, second, .. } => if nid == id {
            Some(m)
        } else if model_find(*first, id) is Some {
            model_find(*first, id)
        } else {
            model_find(*second, id)
        },
    }
}

/// The content of the first leaf carrying this identifier, in depth-first
/// order, if there is one.
pub open spec fn model_leaf_content(m: PanelModel, id: PanelId) -> Option<LeafContent>
    decreases m,
{
    match m {
        PanelModel::Leaf { id: nid, path, entries, loading, error, .. } => if nid == id {
            Some(LeafContent { path, entries, loading, error })
        } else {
            None
        },
        PanelModel::Split { first, second, .. } => if model_leaf_content(*first, id) is Some {
            model_leaf_content(*first, id)
        } else {
            model_leaf_content(*second, id)
        },
    }
}

/// The first leaf identifier in depth-first order that is not the excluded
/// one; used to pick a new active pane after a close.
pub open spec fn model_next_leaf_id(m: PanelModel, exclude: PanelId) -> Option<PanelId>
    decreases m,
{
    match m {
        PanelModel::Leaf { id, .. } => if id != exclude {
            Some(id)
        } else {
            None
        },
        PanelModel::Split { first, second, .. } => if model_next_leaf_id(*first, exclude)
            is Some {
            model_next_leaf_id(*first, exclude)
        } else {
            model_next_leaf_id(*second, exclude)
        },
    }
}

impl PanelNode {
    /// A fresh pane: empty, loading, with no error and no measured
    /// rectangle yet.
    pub fn new_leaf(id: PanelId, path: String) -> (r: PanelNode)
        ensures
            r@ == (PanelModel::Leaf {
                id,
                path: path@,
                entries: Seq::<FileItem>::empty(),
                loading: true,
                error: None,
                bounds: Bounds::spec_default(),
            }),
    {
        let r = PanelNode::Leaf {
            id,
            path,
            entries: Vec::new(),
            loading: true,
            error: None,
            bounds: Bounds::default(),
        };
        proof {
            assert(r@ =~= (PanelModel::Leaf {
                id,
                path: r@->Leaf_path,
                entries: Seq::<FileItem>::empty(),
                loading: true,
                error: None,
                bounds: Bounds::spec_default(),
            }));
        }
        r
    }

    /// The identifier of this node itself.
    pub fn get_id(&self) -> (r: PanelId)
        ensures
            r == model_id(self@),
    {
        match self {
            PanelNode::Leaf { id, .. } => *id,
            PanelNode::Split { id, .. } => *id,
        }
    }

    /// How many panes the tree holds.
    pub fn count_leaves(&self) -> (r: u64)
        requires
            model_count_leaves(self@) <= u64::MAX,
        ensures
            r == model_count_leaves(self@),
        decreases *self,
    {
        match self {
            PanelNode::Leaf { .. } => 1,
            PanelNode::Split { first, second, .. } => {
                proof {
                    assert(model_count_leaves(first@) >= 1) by {
                        lemma_count_leaves_at_least_one(first@);
                    }
                    assert(model_count_leaves(second@) >= 1) by {
                        lemma_count_leaves_at_least_one(second@);
                    }
                }
                first.count_leaves() + second.count_leaves()
            },
        }
    }

    /// Depth-first search for the node carrying this identifier.
    pub fn find_panel(&self, target_id: PanelId) -> (r: Option<&PanelNode>)
        ensures
            match r {
                Some(n) => model_find(self@, target_id) == Some(n@),
                None => model_find(self@, target_id) is None,
            },
        decreases *self,
    {
        match self {
            PanelNode::Leaf { id, .. } => {
                if *id == target_id {
                    Some(self)
                } else {
                    None
                }
            },
            PanelNode::Split { id, first, second, .. } => {
                if *id == target_id {
                    Some(self)
                } else {
                    let f = first.find_panel(target_id);
                    match f {
                        Some(n) => Some(n),
                        None => second.find_panel(target_id),
                    }
                }
            },
        }
    }

    /// The first pane identifier that is not the excluded one.
    pub fn find_next_panel_id(&self, exclude_id: PanelId) -> (r: Option<PanelId>)
        ensures
            r == model_next_leaf_id(self@, exclude_id),
        decreases *self,
    {
        match self {
            PanelNode::Leaf { id, .. } => {
                if *id != exclude_id {
                    Some(*id)
                } else {
                    None
                }
            },
            PanelNode::Split { first, second, .. } => {
                let f = first.find_next_panel_id(exclude_id);
                match f {
                    Some(id) => Some(id),
                    None => second.find_next_panel_id(exclude_id),
                }
            },
        }
    }
}

/// What splitting a leaf does to the tree: the first leaf carrying the
/// target identifier is replaced, in place, by a split whose first child
/// inherits that leaf's content verbatim (with its rectangle reset) and
/// whose second child is a fresh loading pane; the split inherits the old
/// leaf's rectangle and gets an unconstrained divider seeded at the given
/// size.  A tree without such a leaf is unchanged.
pub open spec fn model_split(
    m: PanelModel,
    target: PanelId,
    axis: Axis,
    split_id: PanelId,
    leaf_id: PanelId,
    new_path: Seq<char>,
    initial_size: i64,
) -> PanelModel
    decreases m,
{
    if !model_has_leaf(m, target) {
        m
    } else {
        match m {
            PanelModel::Leaf { id, path, entries, loading, error, bounds } => PanelModel::Split {
                id: split_id,
                axis,
                first: Box::new(PanelModel::Leaf {
                    id,
                    path,
                    entries,
                    loading,
                    error,
                    bounds: Bounds::spec_default(),
                }),
                second: Box::new(PanelModel::Leaf {
                    id: leaf_id,
                    path: new_path,
                    entries: Seq::<FileItem>::empty(),
                    loading: true,
                    error: None,
                    bounds: Bounds::spec_default(),
                }),
                state: ResizableState {
                    axis,
                    size: initial_size,
                    range_min: 0,
                    range_max: i64::MAX,
                    bounds: Bounds::spec_default(),
                    resizing: false,
                },
                bounds,
            },
            PanelModel::Split { id, axis: saxis, first, second, state, bounds } => if model_has_leaf(
                *first,
                target,
            ) {
                PanelModel::Split {
                    id,
                    axis: saxis,
                    first: Box::new(
                        model_split(*first, target, axis, split_id, leaf_id, new_path, initial_size),
                    ),
                    second,
                    state,
                    bounds,
                }
            } else {
                PanelModel::Split {
                    id,
                    axis: saxis,
                    first,
                    second: Box::new(
                        model_split(
                            *second,
                            target,
                            axis,
                            split_id,
                            leaf_id,
                            new_path,
                            initial_size,
                        ),
                    ),
                    state,
                    bounds,
                }
            },
        }
    }
}

/// What updating a pane's content does: the first leaf carrying the target
/// identifier gets the new path, entries, loading flag and error, keeping
/// its rectangle; a tree without such a leaf is unchanged.
pub open spec fn model_update_data(
    m: PanelModel,
    target: PanelId,
    path: Seq<char>,
    entries: Seq<FileItem>,
    loading: bool,
    error: Option<Seq<char>>,
) -> PanelModel
    decreases m,
{
    if !model_has_leaf(m, target) {
        m
    } else {
        match m {
            PanelModel::Leaf { id, bounds, .. } => PanelModel::Leaf {
                id,
                path,
                entries,
                loading,
                error,
                bounds,
            },
            PanelModel::Split { id, axis, first, second, state, bounds } => if model_has_leaf(
                *first,
                target,
            ) {
                PanelModel::Split {
                    id,
                    axis,
                    first: Box::new(model_update_data(*first, target, path, entries, loading, error)),
                    second,
                    state,
                    bounds,
                }
            } else {
                PanelModel::Split {
                    id,
                    axis,
                    first,
                    second: Box::new(
                        model_update_data(*second, target, path, entries, loading, error),
                    ),
                    state,
                    bounds,
                }
            },
        }
    }
}

/// What updating a pane's rectangle does: the first leaf carrying the
/// target identifier gets the new bounds, keeping its content; a tree
/// without such a leaf is unchanged.  Split rectangles are managed by the
/// divider subsystem, never by this operation.
pub open spec fn model_update_bounds(m: PanelModel, target: PanelId, b: Bounds) -> PanelModel
    decreases m,
{
    if !model_has_leaf(m, target) {
        m
    } else {
        match m {
            PanelModel::Leaf { id, path, entries, loading, error, .. } => PanelModel::Leaf {
                id,
                path,
                entries,
                loading,
                error,
                bounds: b,
            },
            PanelModel::Split { id, axis, first, second, state, bounds } => if model_has_leaf(
                *first,
                target,
            ) {
                PanelModel::Split {
                    id,
                    axis,
                    first: Box::new(model_update_bounds(*first, target, b)),
                    second,
                    state,
                    bounds,
                }
            } else {
                PanelModel::Split {
                    id,
                    axis,
                    first,
                    second: Box::new(model_update_bounds(*second, target, b)),
                    state,
                    bounds,
                }
            },
        }
    }
}

/// What closing a pane does: every leaf carrying the target identifier is
/// removed; a split left with one child is replaced by that child
/// (promotion), one left with both is rebuilt unchanged, and one left with
/// neither disappears.  `None` means nothing of the tree survived.
pub open spec fn model_remove(m: PanelModel, target: PanelId) -> Option<PanelModel>
    decreases m,
{
    match m {
        PanelModel::Leaf { id, .. } => if id == target {
            None
        } else {
            Some(m)
        },
        PanelModel::Split { id, axis, first, second, state, bounds } => match (
            model_remove(*first, target),
            model_remove(*second, target),
        ) {
            (None, Some(n)) => Some(n),
            (Some(n), None) => Some(n),
            (Some(a), Some(b)) => Some(
                PanelModel::Split {
                    id,
                    axis,
                    first: Box::new(a),
                    second: Box::new(b),
                    state,
                    bounds,
                },
            ),
            (None, None) => None,
        },
    }
}

impl PanelNode {
    /// Splits the pane carrying `target_id` in place, as `model_split`
    /// describes, and reports whether such a pane was found.  On `false`
    /// the tree is unchanged.
    pub fn split_panel(
        &mut self,
        target_id: PanelId,
        axis: Axis,
        split_id: PanelId,
        new_leaf_id: PanelId,
        new_path: String,
        initial_size: i64,
    ) -> (r: bool)
        requires
            0 <= initial_size,
        ensures
            r == model_has_leaf(old(self)@, target_id),
            final(self)@ == model_split(
                old(self)@,
                target_id,
                axis,
                split_id,
                new_leaf_id,
                new_path@,
                initial_size,
            ),
            !r ==> final(self)@ == old(self)@,
        decreases *old(self),
    {
        let is_target_leaf = match &*self {
            PanelNode::Leaf { id, .. } => *id == target_id,
            _ => false,
        };
        if is_target_leaf {
            let mut old_node = PanelNode::Leaf {
                id: 0,
                path: String::new(),
                entries: Vec::new(),
                loading: false,
                error: None,
                bounds: Bounds::default(),
            };
            core::mem::swap(self, &mut old_node);
            match old_node {
                PanelNode::Leaf { id, path, entries, loading, error, bounds } => {
                    let first_leaf = PanelNode::Leaf {
                        id,
                        path,
                        entries,
                        loading,
                        error,
                        bounds: Bounds::default(),
                    };
                    proof {
                        assert(first_leaf@ is Leaf);
                    }
                    let first = Box::new(first_leaf);
                    let second = Box::new(PanelNode::new_leaf(new_leaf_id, new_path));
                    let state = ResizableState::new(axis, initial_size, 0, i64::MAX);
                    *self = PanelNode::Split { id: split_id, axis, first, second, state, bounds };
                    proof {
                        assert(self@ =~~= model_split(
                            old(self)@,
                            target_id,
                            axis,
                            split_id,
                            new_leaf_id,
                            new_path@,
                            initial_size,
                        ));
                    }
                    true
                },
                _ => {
                    proof {
                        assert(false);
                    }
                    false
                },
            }
        } else {
            match self {
                PanelNode::Split { first, second, .. } => {
                    let second_path = new_path.clone();
                    let node_first: &mut PanelNode = &mut **first;
                    if node_first.split_panel(
                        target_id,
                        axis,
                        split_id,
                        new_leaf_id,
                        new_path,
                        initial_size,
                    ) {
                        true
                    } else {
                        let node_second: &mut PanelNode = &mut **second;
                        node_second.split_panel(
                            target_id,
                            axis,
                            split_id,
                            new_leaf_id,
                            second_path,
                            initial_size,
                        )
                    }
                },
                _ => false,
            }
        }
    }

    /// Replaces the content of the pane carrying `target_id`, as
    /// `model_update_data` describes.  On `false` (no such pane — a stale
    /// identifier) the tree is unchanged.
    pub fn update_panel_data(
        &mut self,
        target_id: PanelId,
        path: String,
        entries: Vec<FileItem>,
        loading: bool,
        error: Option<String>,
    ) -> (r: bool)
        ensures
            r == model_has_leaf(old(self)@, target_id),
            final(self)@ == model_update_data(
                old(self)@,
                target_id,
                path@,
                entries@,
                loading,
                crate::types::opt_view(error),
            ),
            !r ==> final(self)@ == old(self)@,
        decreases *old(self),
    {
        match self {
            PanelNode::Leaf {
                id,
                path: panel_path,
                entries: panel_entries,
                loading: panel_loading,
                error: panel_error,
                ..
            } => {
                if *id == target_id {
                    *panel_path = path;
                    *panel_entries = entries;
                    *panel_loading = loading;
                    *panel_error = error;
                    true
                } else {
                    false
                }
            },
            PanelNode::Split { first, second, .. } => {
                let has_first = {
                    let node_first: &PanelNode = &**first;
                    node_first.has_leaf(target_id)
                };
                if has_first {
                    let node_first: &mut PanelNode = &mut **first;
                    node_first.update_panel_data(target_id, path, entries, loading, error)
                } else {
                    let node_second: &mut PanelNode = &mut **second;
                    node_second.update_panel_data(target_id, path, entries, loading, error)
                }
            },
        }
    }

    /// Whether some pane of this subtree carries the identifier.
    pub fn has_leaf(&self, target_id: PanelId) -> (r: bool)
        ensures
            r == model_has_leaf(self@, target_id),
        decreases *self,
    {
        match self {
            PanelNode::Leaf { id, .. } => *id == target_id,
            PanelNode::Split { first, second, .. } => {
                if first.has_leaf(target_id) {
                    true
                } else {
                    second.has_leaf(target_id)
                }
            },
        }
    }

    /// Replaces the rectangle of the pane carrying `target_id`, as
    /// `model_update_bounds` describes.  On `false` the tree is unchanged.
    pub fn update_panel_bounds(&mut self, target_id: PanelId, new_bounds: Bounds) -> (r: bool)
        requires
            new_bounds.wf(),
        ensures
            r == model_has_leaf(old(self)@, target_id),
            final(self)@ == model_update_bounds(old(self)@, target_id, new_bounds),
            !r ==> final(self)@ == old(self)@,
        decreases *old(self),
    {
        match self {
            PanelNode::Leaf { id, bounds, .. } => {
                if *id == target_id {
                    *bounds = new_bounds;
                    true
                } else {
                    false
                }
            },
            PanelNode::Split { first, second, .. } => {
                let node_first: &mut PanelNode = &mut **first;
                if node_first.update_panel_bounds(target_id, new_bounds) {
                    true
                } else {
                    let node_second: &mut PanelNode = &mut **second;
                    node_second.update_panel_bounds(target_id, new_bounds)
                }
            },
        }
    }

    /// Consumes the tree and removes every pane carrying `target_id`, as
    /// `model_remove` describes: a sibling left alone is promoted into its
    /// parent's place.  `None` means nothing survived — the caller must
    /// treat that as "do not close".
    pub fn remove_panel(self, target_id: PanelId) -> (r: Option<PanelNode>)
        ensures
            match (r, model_remove(self@, target_id)) {
                (Some(n), Some(m)) => n@ == m,
                (None, None) => true,
                _ => false,
            },
        decreases self,
    {
        match self {
            PanelNode::Leaf { id, .. } => {
                if id == target_id {
                    None
                } else {
                    Some(self)
                }
            },
            PanelNode::Split { id, axis, first, second, state, bounds } => {
                let first_result = (*first).remove_panel(target_id);
                let second_result = (*second).remove_panel(target_id);
                match (first_result, second_result) {
                    (None, Some(node)) => Some(node),
                    (Some(node), None) => Some(node),
                    (Some(f), Some(s)) => {
                        let r = PanelNode::Split {
                            id,
                            axis,
                            first: Box::new(f),
                            second: Box::new(s),
                            state,
                            bounds,
                        };
                        Some(r)
                    },
                    (None, None) => None,
                }
            },
        }
    }
}

/// Every tree holds at least one pane.
pub proof fn lemma_count_leaves_at_least_one(m: PanelModel)
    ensures
        model_count_leaves(m) >= 1,
    decreases m,
{
    match m {
        PanelModel::Leaf { .. } => {},
        PanelModel::Split { first, second, .. } => {
            lemma_count_leaves_at_least_one(*first);
            lemma_count_leaves_at_least_one(*second);
        },
    }
}

/// A tree with exactly one pane is that pane.
pub proof fn lemma_single_leaf(m: PanelModel)
    requires
        model_count_leaves(m) == 1,
    ensures
        m is Leaf,
    decreases m,
{
    match m {
        PanelModel::Leaf { .. } => {},
        PanelModel::Split { first, second, .. } => {
            lemma_count_leaves_at_least_one(*first);
            lemma_count_leaves_at_least_one(*second);
        },
    }
}

/// A pane identifier is carried by some node of the tree.
pub proof fn lemma_has_leaf_implies_contains(m: PanelModel, id: PanelId)
    requires
        model_has_leaf(m, id),
    ensures
        model_contains_id(m, id),
    decreases m,
{
    match m {
        PanelModel::Leaf { .. } => {},
        PanelModel::Split { first, second, .. } => {
            if model_has_leaf(*first, id) {
                lemma_has_leaf_implies_contains(*first, id);
            } else {
                lemma_has_leaf_implies_contains(*second, id);
            }
        },
    }
}

/// A pane carries an identifier exactly when it has lookable content.
pub proof fn lemma_has_leaf_iff_content(m: PanelModel, id: PanelId)
    ensures
        model_has_leaf(m, id) <==> model_leaf_content(m, id) is Some,
    decreases m,
{
    match m {
        PanelModel::Leaf { .. } => {},
        PanelModel::Split { first, second, .. } => {
            lemma_has_leaf_iff_content(*first, id);
            lemma_has_leaf_iff_content(*second, id);
        },
    }
}

/// An identifier that no node carries cannot be found.
pub proof fn lemma_not_contains_find_none(m: PanelModel, id: PanelId)
    requires
        !model_contains_id(m, id),
    ensures
        model_find(m, id) is None,
    decreases m,
{
    match m {
        PanelModel::Leaf { .. } => {},
        PanelModel::Split { first, second, .. } => {
            lemma_not_contains_find_none(*first, id);
            lemma_not_contains_find_none(*second, id);
        },
    }
}

/// In a tree whose rectangles are all well formed, so are those of any
/// node a search returns.
pub proof fn lemma_find_bounds_wf(m: PanelModel, id: PanelId)
    requires
        model_bounds_wf(m),
    ensures
        match model_find(m, id) {
            Some(n) => model_bounds_wf(n),
            None => true,
        },
    decreases m,
{
    match m {
        PanelModel::Leaf { .. } => {},
        PanelModel::Split { first, second, .. } => {
            lemma_find_bounds_wf(*first, id);
            lemma_find_bounds_wf(*second, id);
        },
    }
}

/// Splitting a pane changes the counts, the identifiers and the shape of
/// the tree exactly as described: one pane more when the target exists,
/// well-formedness kept, and no identifiers beyond the two fresh ones.
pub proof fn lemma_split_preserves(
    m: PanelModel,
    target: PanelId,
    axis: Axis,
    split_id: PanelId,
    leaf_id: PanelId,
    new_path: Seq<char>,
    initial_size: i64,
)
    requires
        model_wf(m),
        model_bounds_wf(m),
        0 <= initial_size,
        !model_contains_id(m, split_id),
        !model_contains_id(m, leaf_id),
        split_id != leaf_id,
    ensures
        ({
            let r = model_split(m, target, axis, split_id, leaf_id, new_path, initial_size);
            &&& model_wf(r)
            &&& model_bounds_wf(r)
            &&& model_count_leaves(r) == model_count_leaves(m) + (if model_has_leaf(m, target) {
                1int
            } else {
                0int
            })
            &&& forall|i: PanelId|
                model_contains_id(r, i) ==> model_contains_id(m, i) || i == split_id || i == leaf_id
        }),
    decreases m,
{
    if !model_has_leaf(m, target) {
    } else {
        let r = model_split(m, target, axis, split_id, leaf_id, new_path, initial_size);
        match m {
            PanelModel::Leaf { id, .. } => {
                lemma_has_leaf_implies_contains(m, target);
                assert(model_wf(*r->Split_first));
                assert(model_wf(*r->Split_second));
                assert(model_bounds_wf(*r->Split_first));
                assert(model_bounds_wf(*r->Split_second));
                assert(model_count_leaves(*r->Split_first) == 1);
                assert(model_count_leaves(*r->Split_second) == 1);
                assert(model_contains_id(*r->Split_first, id));
                assert forall|i: PanelId| model_contains_id(r, i) implies model_contains_id(m, i)
                    || i == split_id || i == leaf_id by {
                    assert(model_contains_id(*r->Split_first, i) ==> i == id);
                    assert(model_contains_id(*r->Split_second, i) ==> i == leaf_id);
                }
            },
            PanelModel::Split { id, axis: maxis, first, second, state, bounds } => {
                if model_has_leaf(*first, target) {
                    lemma_split_preserves(
                        *first,
                        target,
                        axis,
                        split_id,
                        leaf_id,
                        new_path,
                        initial_size,
                    );
                    let f2 = model_split(
                        *first,
                        target,
                        axis,
                        split_id,
                        leaf_id,
                        new_path,
                        initial_size,
                    );
                    assert(!model_contains_id(f2, id));
                    assert forall|i: PanelId|
                        !(model_contains_id(f2, i) && model_contains_id(*second, i)) by {
                        if model_contains_id(f2, i) && model_contains_id(*second, i) {
                            assert(model_contains_id(*first, i) || i == split_id || i == leaf_id);
                        }
                    }
                    assert(model_wf(r));
                    assert forall|i: PanelId| model_contains_id(r, i) implies model_contains_id(
                        m,
                        i,
                    ) || i == split_id || i == leaf_id by {
                        if model_contains_id(r, i) {
                            assert(i == id || model_contains_id(f2, i) || model_contains_id(
                                *second,
                                i,
                            ));
                        }
                    }
                } else {
                    lemma_split_preserves(
                        *second,
                        target,
                        axis,
                        split_id,
                        leaf_id,
                        new_path,
                        initial_size,
                    );
                    let s2 = model_split(
                        *second,
                        target,
                        axis,
                        split_id,
                        leaf_id,
                        new_path,
                        initial_size,
                    );
                    assert(!model_contains_id(s2, id));
                    assert forall|i: PanelId|
                        !(model_contains_id(*first, i) && model_contains_id(s2, i)) by {
                        if model_contains_id(*first, i) && model_contains_id(s2, i) {
                            assert(model_contains_id(*second, i) || i == split_id || i == leaf_id);
                        }
                    }
                    assert(model_wf(r));
                    assert forall|i: PanelId| model_contains_id(r, i) implies model_contains_id(
                        m,
                        i,
                    ) || i == split_id || i == leaf_id by {
                        if model_contains_id(r, i) {
                            assert(i == id || model_contains_id(*first, i) || model_contains_id(
                                s2,
                                i,
                            ));
                        }
                    }
                }
            },
        }
    }
}

/// Splitting a pane adds exactly one pane, and the split that replaced it
/// holds, as its first child, a pane with identical path, entries, loading
/// flag and error to the pane that was split (its rectangle is reset).
pub proof fn lemma_split_adds_leaf(
    m: PanelModel,
    target: PanelId,
    axis: Axis,
    split_id: PanelId,
    leaf_id: PanelId,
    new_path: Seq<char>,
    initial_size: i64,
)
    requires
        model_has_leaf(m, target),
        !model_contains_id(m, split_id),
    ensures
        ({
            let r = model_split(m, target, axis, split_id, leaf_id, new_path, initial_size);
            &&& model_count_leaves(r) == model_count_leaves(m) + 1
            &&& model_leaf_content(m, target) is Some
            &&& match model_find(r, split_id) {
                Some(n) => {
                    let c = model_leaf_content(m, target)->Some_0;
                    &&& n is Split
                    &&& n->Split_id == split_id
                    &&& n->Split_axis == axis
                    &&& *n->Split_first == (PanelModel::Leaf {
                        id: target,
                        path: c.path,
                        entries: c.entries,
                        loading: c.loading,
                        error: c.error,
                        bounds: Bounds::spec_default(),
                    })
                },
                None => false,
            }
        }),
    decreases m,
{
    lemma_has_leaf_iff_content(m, target);
    let r = model_split(m, target, axis, split_id, leaf_id, new_path, initial_size);
    match m {
        PanelModel::Leaf { id, .. } => {
            assert(model_count_leaves(*r->Split_first) == 1);
            assert(model_count_leaves(*r->Split_second) == 1);
            assert(model_find(r, split_id) == Some(r));
        },
        PanelModel::Split { id, first, second, .. } => {
            if model_has_leaf(*first, target) {
                lemma_split_adds_leaf(
                    *first,
                    target,
                    axis,
                    split_id,
                    leaf_id,
                    new_path,
                    initial_size,
                );
                lemma_has_leaf_iff_content(*first, target);
                let f2 = model_split(*first, target, axis, split_id, leaf_id, new_path, initial_size);
                assert(model_find(f2, split_id) is Some);
                assert(model_find(r, split_id) == model_find(f2, split_id));
                assert(model_count_leaves(r) == model_count_leaves(f2) + model_count_leaves(
                    *second,
                ));
            } else {
                lemma_split_adds_leaf(
                    *second,
                    target,
                    axis,
                    split_id,
                    leaf_id,
                    new_path,
                    initial_size,
                );
                lemma_has_leaf_iff_content(*first, target);
                lemma_not_contains_find_none(*first, split_id);
                let s2 = model_split(
                    *second,
                    target,
                    axis,
                    split_id,
                    leaf_id,
                    new_path,
                    initial_size,
                );
                assert(model_find(s2, split_id) is Some);
                assert(model_find(r, split_id) == model_find(s2, split_id));
                assert(model_count_leaves(r) == model_count_leaves(*first) + model_count_leaves(
                    s2,
                ));
            }
        },
    }
}

/// Updating a pane — its content or its rectangle — renames nothing,
/// removes nothing and keeps every other pane's content unchanged.
pub proof fn lemma_update_data_preserves(
    m: PanelModel,
    target: PanelId,
    path: Seq<char>,
    entries: Seq<FileItem>,
    loading: bool,
    error: Option<Seq<char>>,
)
    ensures
        ({
            let r = model_update_data(m, target, path, entries, loading, error);
            &&& model_count_leaves(r) == model_count_leaves(m)
            &&& forall|i: PanelId| model_contains_id(r, i) == model_contains_id(m, i)
            &&& forall|i: PanelId| model_has_leaf(r, i) == model_has_leaf(m, i)
            &&& model_wf(m) ==> model_wf(r)
            &&& model_bounds_wf(m) ==> model_bounds_wf(r)
            &&& forall|i: PanelId|
                i != target ==> model_leaf_content(r, i) == model_leaf_content(m, i)
            &&& model_has_leaf(m, target) ==> model_leaf_content(r, target) == Some(
                LeafContent { path, entries, loading, error },
            )
        }),
    decreases m,
{
    if !model_has_leaf(m, target) {
    } else {
        let r = model_update_data(m, target, path, entries, loading, error);
        match m {
            PanelModel::Leaf { .. } => {
                assert forall|i: PanelId|
                    model_contains_id(r, i) == model_contains_id(m, i) by {}
                assert forall|i: PanelId| model_has_leaf(r, i) == model_has_leaf(m, i) by {}
                assert forall|i: PanelId|
                    i != target implies model_leaf_content(r, i) == model_leaf_content(
                        m,
                        i,
                    ) by {}
            },
            PanelModel::Split { id, first, second, .. } => {
                if model_has_leaf(*first, target) {
                    lemma_update_data_preserves(*first, target, path, entries, loading, error);
                    let f2 = model_update_data(*first, target, path, entries, loading, error);
                    assert forall|i: PanelId|
                        model_contains_id(r, i) == model_contains_id(m, i) by {
                        assert(model_contains_id(f2, i) == model_contains_id(*first, i));
                    }
                    assert forall|i: PanelId| model_has_leaf(r, i) == model_has_leaf(m, i) by {
                        assert(model_has_leaf(f2, i) == model_has_leaf(*first, i));
                    }
                    if model_wf(m) {
                        assert(model_contains_id(f2, id) == model_contains_id(*first, id));
                        assert forall|i: PanelId|
                            !(model_contains_id(f2, i) && model_contains_id(*second, i)) by {
                            assert(model_contains_id(f2, i) == model_contains_id(*first, i));
                        }
                        assert(model_wf(r));
                    }
                    assert forall|i: PanelId|
                        i != target implies model_leaf_content(r, i) == model_leaf_content(
                            m,
                            i,
                        ) by {
                        assert(model_leaf_content(f2, i) == model_leaf_content(*first, i));
                    }
                    assert(model_leaf_content(f2, target) == Some(
                        LeafContent { path, entries, loading, error },
                    ));
                } else {
                    lemma_update_data_preserves(*second, target, path, entries, loading, error);
                    lemma_has_leaf_iff_content(*first, target);
                    let s2 = model_update_data(*second, target, path, entries, loading, error);
                    assert forall|i: PanelId|
                        model_contains_id(r, i) == model_contains_id(m, i) by {
                        assert(model_contains_id(s2, i) == model_contains_id(*second, i));
                    }
                    assert forall|i: PanelId| model_has_leaf(r, i) == model_has_leaf(m, i) by {
                        assert(model_has_leaf(s2, i) == model_has_leaf(*second, i));
                    }
                    if model_wf(m) {
                        assert(model_contains_id(s2, id) == model_contains_id(*second, id));
                        assert forall|i: PanelId|
                            !(model_contains_id(*first, i) && model_contains_id(s2, i)) by {
                            assert(model_contains_id(s2, i) == model_contains_id(*second, i));
                        }
                        assert(model_wf(r));
                    }
                    assert forall|i: PanelId|
                        i != target implies model_leaf_content(r, i) == model_leaf_content(
                            m,
                            i,
                        ) by {
                        assert(model_leaf_content(s2, i) == model_leaf_content(*second, i));
                    }
                    assert(model_leaf_content(s2, target) == Some(
                        LeafContent { path, entries, loading, error },
                    ));
                }
            },
        }
    }
}

/// The same, for a rectangle update: content is untouched everywhere.
pub proof fn lemma_update_bounds_preserves(m: PanelModel, target: PanelId, b: Bounds)
    requires
        b.wf(),
    ensures
        ({
            let r = model_update_bounds(m, target, b);
            &&& model_count_leaves(r) == model_count_leaves(m)
            &&& forall|i: PanelId| model_contains_id(r, i) == model_contains_id(m, i)
            &&& forall|i: PanelId| model_has_leaf(r, i) == model_has_leaf(m, i)
            &&& model_wf(m) ==> model_wf(r)
            &&& model_bounds_wf(m) ==> model_bounds_wf(r)
            &&& forall|i: PanelId| model_leaf_content(r, i) == model_leaf_content(m, i)
        }),
    decreases m,
{
    if !model_has_leaf(m, target) {
    } else {
        let r = model_update_bounds(m, target, b);
        match m {
            PanelModel::Leaf { .. } => {
                assert forall|i: PanelId|
                    model_contains_id(r, i) == model_contains_id(m, i) by {}
                assert forall|i: PanelId| model_has_leaf(r, i) == model_has_leaf(m, i) by {}
                assert forall|i: PanelId|
                    model_leaf_content(r, i) == model_leaf_content(m, i) by {}
            },
            PanelModel::Split { id, first, second, .. } => {
                if model_has_leaf(*first, target) {
                    lemma_update_bounds_preserves(*first, target, b);
                    let f2 = model_update_bounds(*first, target, b);
                    assert forall|i: PanelId|
                        model_contains_id(r, i) == model_contains_id(m, i) by {
                        assert(model_contains_id(f2, i) == model_contains_id(*first, i));
                    }
                    assert forall|i: PanelId| model_has_leaf(r, i) == model_has_leaf(m, i) by {
                        assert(model_has_leaf(f2, i) == model_has_leaf(*first, i));
                    }
                    if model_wf(m) {
                        assert(model_contains_id(f2, id) == model_contains_id(*first, id));
                        assert forall|i: PanelId|
                            !(model_contains_id(f2, i) && model_contains_id(*second, i)) by {
                            assert(model_contains_id(f2, i) == model_contains_id(*first, i));
                        }
                        assert(model_wf(r));
                    }
                    assert forall|i: PanelId|
                        model_leaf_content(r, i) == model_leaf_content(m, i) by {
                        assert(model_leaf_content(f2, i) == model_leaf_content(*first, i));
                    }
                } else {
                    lemma_update_bounds_preserves(*second, target, b);
                    let s2 = model_update_bounds(*second, target, b);
                    assert forall|i: PanelId|
                        model_contains_id(r, i) == model_contains_id(m, i) by {
                        assert(model_contains_id(s2, i) == model_contains_id(*second, i));
                    }
                    assert forall|i: PanelId| model_has_leaf(r, i) == model_has_leaf(m, i) by {
                        assert(model_has_leaf(s2, i) == model_has_leaf(*second, i));
                    }
                    if model_wf(m) {
                        assert(model_contains_id(s2, id) == model_contains_id(*second, id));
                        assert forall|i: PanelId|
                            !(model_contains_id(*first, i) && model_contains_id(s2, i)) by {
                            assert(model_contains_id(s2, i) == model_contains_id(*second, i));
                        }
                        assert(model_wf(r));
                    }
                    assert forall|i: PanelId|
                        model_leaf_content(r, i) == model_leaf_content(m, i) by {
                        assert(model_leaf_content(s2, i) == model_leaf_content(*second, i));
                    }
                }
            },
        }
    }
}

/// Removing an identifier that no pane carries leaves the tree unchanged.
pub proof fn lemma_remove_absent(m: PanelModel, target: PanelId)
    requires
        !model_has_leaf(m, target),
    ensures
        model_remove(m, target) == Some(m),
    decreases m,
{
    match m {
        PanelModel::Leaf { .. } => {},
        PanelModel::Split { first, second, .. } => {
            lemma_remove_absent(*first, target);
            lemma_remove_absent(*second, target);
            assert(model_remove(m, target)->Some_0 =~~= m);
        },
    }
}

/// What survives a close is still a well-formed tree, no larger than
/// before, holding no identifier the old tree did not hold.
pub proof fn lemma_remove_preserves(m: PanelModel, target: PanelId)
    requires
        model_wf(m),
        model_bounds_wf(m),
    ensures
        match model_remove(m, target) {
            Some(t) => {
                &&& model_wf(t)
                &&& model_bounds_wf(t)
                &&& model_count_leaves(t) <= model_count_leaves(m)
                &&& forall|i: PanelId| model_contains_id(t, i) ==> model_contains_id(m, i)
            },
            None => true,
        },
    decreases m,
{
    match m {
        PanelModel::Leaf { .. } => {},
        PanelModel::Split { id, first, second, .. } => {
            lemma_remove_preserves(*first, target);
            lemma_remove_preserves(*second, target);
            lemma_count_leaves_at_least_one(*first);
            lemma_count_leaves_at_least_one(*second);
            let fr = model_remove(*first, target);
            let sr = model_remove(*second, target);
            if fr is Some && sr is Some {
                let f2 = fr->Some_0;
                let s2 = sr->Some_0;
                let t = model_remove(m, target)->Some_0;
                assert(!model_contains_id(f2, id)) by {
                    if model_contains_id(f2, id) {
                        assert(model_contains_id(*first, id));
                    }
                }
                assert(!model_contains_id(s2, id)) by {
                    if model_contains_id(s2, id) {
                        assert(model_contains_id(*second, id));
                    }
                }
                assert forall|i: PanelId|
                    !(model_contains_id(f2, i) && model_contains_id(s2, i)) by {
                    if model_contains_id(f2, i) && model_contains_id(s2, i) {
                        assert(model_contains_id(*first, i));
                        assert(model_contains_id(*second, i));
                    }
                }
                assert(model_wf(t));
                assert forall|i: PanelId|
                    model_contains_id(t, i) implies model_contains_id(m, i) by {
                    if model_contains_id(t, i) {
                        assert(i == id || model_contains_id(f2, i) || model_contains_id(s2, i));
                    }
                }
            }
        },
    }
}

/// A tree with two or more panes always survives a close.
pub proof fn lemma_remove_some(m: PanelModel, target: PanelId)
    requires
        model_wf(m),
        model_count_leaves(m) >= 2,
    ensures
        model_remove(m, target) is Some,
    decreases m,
{
    match m {
        PanelModel::Leaf { .. } => {},
        PanelModel::Split { first, second, .. } => {
            if model_has_leaf(*first, target) {
                lemma_has_leaf_implies_contains(*first, target);
                if model_has_leaf(*second, target) {
                    lemma_has_leaf_implies_contains(*second, target);
                }
                lemma_remove_absent(*second, target);
                if model_count_leaves(*first) >= 2 {
                    lemma_remove_some(*first, target);
                } else {
                    lemma_count_leaves_at_least_one(*first);
                    lemma_single_leaf(*first);
                }
            } else {
                lemma_remove_absent(*first, target);
            }
        },
    }
}

/// Closing one pane of a tree that holds at least two removes exactly that
/// pane: one pane fewer, and every other pane is still there with
/// unchanged path, entries, loading flag and error.
pub proof fn lemma_close_keeps_siblings(m: PanelModel, target: PanelId)
    requires
        model_wf(m),
        model_count_leaves(m) >= 2,
        model_has_leaf(m, target),
    ensures
        model_remove(m, target) is Some,
        ({
            let t = model_remove(m, target)->Some_0;
            &&& model_count_leaves(t) == model_count_leaves(m) - 1
            &&& forall|i: PanelId|
                i != target ==> model_leaf_content(t, i) == model_leaf_content(m, i)
        }),
    decreases m,
{
    lemma_remove_some(m, target);
    let t = model_remove(m, target)->Some_0;
    match m {
        PanelModel::Leaf { .. } => {},
        PanelModel::Split { first, second, .. } => {
            lemma_has_leaf_iff_content(*first, target);
            lemma_has_leaf_iff_content(*second, target);
            if model_has_leaf(*first, target) {
                lemma_has_leaf_implies_contains(*first, target);
                if model_has_leaf(*second, target) {
                    lemma_has_leaf_implies_contains(*second, target);
                }
                lemma_remove_absent(*second, target);
                lemma_count_leaves_at_least_one(*second);
                if model_count_leaves(*first) >= 2 {
                    lemma_close_keeps_siblings(*first, target);
                    let f2 = model_remove(*first, target)->Some_0;
                    assert(model_count_leaves(t) == model_count_leaves(f2) + model_count_leaves(
                        *second,
                    ));
                    assert forall|i: PanelId|
                        i != target implies model_leaf_content(t, i) == model_leaf_content(
                            m,
                            i,
                        ) by {
                        assert(model_leaf_content(f2, i) == model_leaf_content(*first, i));
                    }
                } else {
                    lemma_count_leaves_at_least_one(*first);
                    lemma_single_leaf(*first);
                    assert(t == *second);
                    assert forall|i: PanelId|
                        i != target implies model_leaf_content(t, i) == model_leaf_content(
                            m,
                            i,
                        ) by {
                        assert(model_leaf_content(*first, i) is None);
                    }
                }
            } else {
                lemma_has_leaf_implies_contains(*second, target);
                lemma_remove_absent(*first, target);
                lemma_count_leaves_at_least_one(*first);
                if model_count_leaves(*second) >= 2 {
                    lemma_close_keeps_siblings(*second, target);
                    let s2 = model_remove(*second, target)->Some_0;
                    assert(model_count_leaves(t) == model_count_leaves(*first)
                        + model_count_leaves(s2));
                    assert forall|i: PanelId|
                        i != target implies model_leaf_content(t, i) == model_leaf_content(
                            m,
                            i,
                        ) by {
                        assert(model_leaf_content(s2, i) == model_leaf_content(*second, i));
                    }
                } else {
                    lemma_count_leaves_at_least_one(*second);
                    lemma_single_leaf(*second);
                    assert(t == *first);
                    assert forall|i: PanelId|
                        i != target implies model_leaf_content(t, i) == model_leaf_content(
                            m,
                            i,
                        ) by {
                        assert(model_leaf_content(*second, i) is None);
                    }
                }
            }
        },
    }
}

} // verus!
