//! The layout orchestrator: the owning application state.  It holds the
//! pane tree, draws fresh identifiers from one monotonically increasing
//! counter, tracks the active pane and the sidebar and file selection, and
//! applies the results of asynchronous directory loads.  The asynchronous
//! work itself — reading directories, pointer events, drawing — happens
//! outside; this state machine only decides.

use vstd::prelude::*;

use crate::geometry::{Axis, Bounds};
use crate::panel_tree::{
    lemma_find_bounds_wf, lemma_remove_preserves, lemma_remove_some, lemma_split_preserves,
    lemma_update_bounds_preserves, lemma_update_data_preserves, model_bounds_wf,
    model_contains_id, model_count_leaves, model_find, model_has_leaf, model_next_leaf_id,
    model_remove, model_split, model_update_bounds, model_update_data, model_wf, PanelId,
    PanelModel, PanelNode,
};
use crate::sorting::{sort_entries_for_display, sorted_for_display};
use crate::types::{FileItem, RootItem};

verus! {

/// The application state around the pane tree.
pub struct Explorer {
    /// Storage roots shown in the sidebar.
    pub roots: Vec<RootItem>,
    /// The sidebar entry currently highlighted.
    pub selected_sidebar_path: Option<String>,
    /// The layout tree; always holds at least one pane.
    pub panel_tree: PanelNode,
    /// The pane receiving navigation commands.  May briefly be stale —
    /// every operation on the tree fails softly on an unknown identifier.
    pub active_panel_id: Option<PanelId>,
    /// The next identifier to hand out; every split consumes two.
    pub next_panel_id: u64,
    /// Paths of the entries selected in the active pane, without repeats.
    pub selected_items: Vec<String>,
    /// Where the last selection happened, for range selection.
    pub last_selected_index: Option<usize>,
}

/// The path of the left- or top-most pane of a subtree.
pub open spec fn leftmost_leaf_path(m: PanelModel) -> Seq<char>
    decreases m,
{
    match m {
        PanelModel::Leaf { path, .. } => path,
        PanelModel::Split { first, .. } => leftmost_leaf_path(*first),
    }
}

/// The path a split inherits: the found node's own path for a pane, the
/// path of its left- or top-most pane for a split, or the fallback when
/// the identifier resolves to nothing.
pub open spec fn split_source_path(m: PanelModel, id: PanelId, fallback: Seq<char>) -> Seq<char> {
    match model_find(m, id) {
        Some(n) => leftmost_leaf_path(n),
        None => fallback,
    }
}

/// The extent the initial divider position is computed from: the found
/// pane's rectangle, or a split's measured container, along the given
/// axis; zero when the identifier resolves to nothing.
pub open spec fn split_source_extent(m: PanelModel, id: PanelId, axis: Axis) -> i64 {
    match model_find(m, id) {
        Some(n) => match n {
            PanelModel::Leaf { bounds, .. } => bounds.spec_extent_along(axis),
            PanelModel::Split { state, .. } => state.bounds.spec_extent_along(axis),
        },
        None => 0,
    }
}

/// The text a pane shows when a directory load fails.
pub open spec fn load_error_message(msg: Seq<char>) -> Seq<char> {
    "加载失败: "@ + msg
}

/// The path of the left- or top-most pane of a subtree, read off the tree.
fn leftmost_path(n: &PanelNode) -> (r: String)
    ensures
        r@ == leftmost_leaf_path(n@),
    decreases *n,
{
    match n {
        PanelNode::Leaf { path, .. } => path.clone(),
        PanelNode::Split { first, .. } => leftmost_path(first),
    }
}

impl Explorer {
    /// The set of selected paths.
    pub open spec fn sel_set(self) -> Set<Seq<char>> {
        Set::new(
            |s: Seq<char>|
                exists|k: int|
                    0 <= k < self.selected_items@.len() && self.selected_items@[k]@ == s,
        )
    }

    /// The orchestrator's invariant: identifiers in the tree are distinct
    /// and below the counter, the tree never outgrows the counter, all
    /// geometry is well formed, and no selected path repeats.
    pub open spec fn wf(self) -> bool {
        &&& model_wf(self.panel_tree@)
        &&& model_bounds_wf(self.panel_tree@)
        &&& forall|i: PanelId|
            model_contains_id(self.panel_tree@, i) ==> i < self.next_panel_id
        &&& model_count_leaves(self.panel_tree@) <= self.next_panel_id
        &&& forall|p: int, q: int|
            0 <= p < q < self.selected_items@.len() ==> self.selected_items@[p]@
                != self.selected_items@[q]@
    }

    /// A fresh orchestrator: one loading pane at the default path, which
    /// is active, and the counter ready to hand out the next identifier.
    pub fn new(default_path: String) -> (r: Explorer)
        ensures
            r.wf(),
            r.roots@ == Seq::<RootItem>::empty(),
            r.selected_sidebar_path matches Some(p) && p@ == default_path@,
            r.panel_tree@ == (PanelModel::Leaf {
                id: 0,
                path: default_path@,
                entries: Seq::<FileItem>::empty(),
                loading: true,
                error: None,
                bounds: Bounds::spec_default(),
            }),
            r.active_panel_id == Some(0u64),
            r.next_panel_id == 1,
            r.selected_items@ == Seq::<String>::empty(),
            r.last_selected_index is None,
    {
        let selected = default_path.clone();
        let panel_tree = PanelNode::new_leaf(0, default_path);
        Explorer {
            roots: Vec::new(),
            selected_sidebar_path: Some(selected),
            panel_tree,
            active_panel_id: Some(0),
            next_panel_id: 1,
            selected_items: Vec::new(),
            last_selected_index: None,
        }
    }

    /// Makes the given pane the one receiving navigation commands.
    pub fn set_active_panel(&mut self, panel_id: PanelId)
        ensures
            *final(self) == (Explorer { active_panel_id: Some(panel_id), ..*old(self) }),
    {
        self.active_panel_id = Some(panel_id);
    }

    /// Records a pane's measured rectangle, reported by a layout pass.
    pub fn update_panel_bounds(&mut self, panel_id: PanelId, bounds: Bounds)
        requires
            old(self).wf(),
            bounds.wf(),
        ensures
            final(self).wf(),
            *final(self) == (Explorer {
                panel_tree: final(self).panel_tree,
                ..*old(self)
            }),
            final(self).panel_tree@ == model_update_bounds(
                old(self).panel_tree@,
                panel_id,
                bounds,
            ),
    {
        let _ = self.panel_tree.update_panel_bounds(panel_id, bounds);
        proof {
            lemma_update_bounds_preserves(old(self).panel_tree@, panel_id, bounds);
            assert forall|i: PanelId|
                model_contains_id(self.panel_tree@, i) implies i < self.next_panel_id by {
                assert(model_contains_id(old(self).panel_tree@, i));
            }
        }
    }

    /// Puts a pane into the loading state for a path and clears the file
    /// selection; the caller then performs the actual directory read and
    /// reports back through `apply_load_result`.
    pub fn load_directory_for_panel(&mut self, panel_id: PanelId, path: String)
        requires
            old(self).wf(),
        ensures
            final(self).wf(),
            final(self).roots == old(self).roots,
            final(self).selected_sidebar_path == old(self).selected_sidebar_path,
            final(self).active_panel_id == old(self).active_panel_id,
            final(self).next_panel_id == old(self).next_panel_id,
            final(self).selected_items@ == Seq::<String>::empty(),
            final(self).last_selected_index is None,
            final(self).panel_tree@ == model_update_data(
                old(self).panel_tree@,
                panel_id,
                path@,
                Seq::<FileItem>::empty(),
                true,
                None,
            ),
    {
        self.selected_items.clear();
        self.last_selected_index = None;
        let _ = self.panel_tree.update_panel_data(panel_id, path, Vec::new(), true, None);
        proof {
            lemma_update_data_preserves(
                old(self).panel_tree@,
                panel_id,
                path@,
                Seq::<FileItem>::empty(),
                true,
                None,
            );
            assert forall|i: PanelId|
                model_contains_id(self.panel_tree@, i) implies i < self.next_panel_id by {
                assert(model_contains_id(old(self).panel_tree@, i));
            }
        }
    }

    /// Loads a directory into the active pane, if there is one.
    pub fn load_directory(&mut self, path: String)
        requires
            old(self).wf(),
        ensures
            final(self).wf(),
            old(self).active_panel_id is None ==> *final(self) == *old(self),
            old(self).active_panel_id matches Some(a) ==> {
                &&& final(self).roots == old(self).roots
                &&& final(self).selected_sidebar_path == old(self).selected_sidebar_path
                &&& final(self).active_panel_id == old(self).active_panel_id
                &&& final(self).next_panel_id == old(self).next_panel_id
                &&& final(self).selected_items@ == Seq::<String>::empty()
                &&& final(self).last_selected_index is None
                &&& final(self).panel_tree@ == model_update_data(
                    old(self).panel_tree@,
                    a,
                    path@,
                    Seq::<FileItem>::empty(),
                    true,
                    None,
                )
            },
    {
        let active = self.active_panel_id;
        match active {
            Some(a) => self.load_directory_for_panel(a, path),
            None => {},
        }
    }

    /// Applies the outcome of a directory read to the pane it was started
    /// for.  Entries are sorted into the display order; a failure clears
    /// the entries and surfaces its message as the pane's error.  A stale
    /// pane identifier changes nothing.
    pub fn apply_load_result(
        &mut self,
        panel_id: PanelId,
        path: String,
        result: Result<Vec<FileItem>, String>,
    )
        requires
            old(self).wf(),
        ensures
            final(self).wf(),
            final(self).roots == old(self).roots,
            final(self).selected_sidebar_path == old(self).selected_sidebar_path,
            final(self).active_panel_id == old(self).active_panel_id,
            final(self).next_panel_id == old(self).next_panel_id,
            final(self).selected_items == old(self).selected_items,
            final(self).last_selected_index == old(self).last_selected_index,
            match result {
                Ok(entries) => exists|es: Seq<FileItem>|
                    {
                        &&& #[trigger] sorted_for_display(es)
                        &&& es.to_multiset() == entries@.to_multiset()
                        &&& final(self).panel_tree@ == model_update_data(
                            old(self).panel_tree@,
                            panel_id,
                            path@,
                            es,
                            false,
                            None,
                        )
                    },
                Err(msg) => final(self).panel_tree@ == model_update_data(
                    old(self).panel_tree@,
                    panel_id,
                    path@,
                    Seq::<FileItem>::empty(),
                    false,
                    Some(load_error_message(msg@)),
                ),
            },
    {
        match result {
            Ok(entries) => {
                let sorted = sort_entries_for_display(entries);
                let ghost es = sorted@;
                let _ = self.panel_tree.update_panel_data(panel_id, path, sorted, false, None);
                proof {
                    lemma_update_data_preserves(
                        old(self).panel_tree@,
                        panel_id,
                        path@,
                        es,
                        false,
                        None,
                    );
                    assert forall|i: PanelId|
                        model_contains_id(self.panel_tree@, i) implies i < self.next_panel_id by {
                        assert(model_contains_id(old(self).panel_tree@, i));
                    }
                }
            },
            Err(msg) => {
                let mut text = "加载失败: ".to_owned();
                text.append(msg.as_str());
                let _ = self.panel_tree.update_panel_data(
                    panel_id,
                    path,
                    Vec::new(),
                    false,
                    Some(text),
                );
                proof {
                    lemma_update_data_preserves(
                        old(self).panel_tree@,
                        panel_id,
                        path@,
                        Seq::<FileItem>::empty(),
                        false,
                        Some(load_error_message(msg@)),
                    );
                    assert forall|i: PanelId|
                        model_contains_id(self.panel_tree@, i) implies i < self.next_panel_id by {
                        assert(model_contains_id(old(self).panel_tree@, i));
                    }
                }
            },
        }
    }

    /// Whether this path is selected in the file list.
    pub fn is_selected(&self, path: &str) -> (r: bool)
        ensures
            r == self.sel_set().contains(path@),
    {
        let p = path.to_owned();
        let n = self.selected_items.len();
        let mut k: usize = 0;
        while k < n
            invariant
                k <= n,
                n == self.selected_items@.len(),
                p@ == path@,
                forall|t: int| 0 <= t < k ==> self.selected_items@[t]@ != path@,
            decreases n - k,
        {
            if self.selected_items[k] == p {
                proof {
                    assert(self.selected_items@[k as int]@ == path@);
                }
                return true;
            }
            k = k + 1;
        }
        proof {
            assert(!self.sel_set().contains(path@));
        }
        false
    }

    /// Adds a path to the selection.
    pub fn add_selection(&mut self, path: String)
        requires
            old(self).wf(),
        ensures
            final(self).wf(),
            final(self).sel_set() == old(self).sel_set().insert(path@),
            *final(self) == (Explorer {
                selected_items: final(self).selected_items,
                ..*old(self)
            }),
    {
        if !self.is_selected(path.as_str()) {
            let ghost items0 = self.selected_items@;
            self.selected_items.push(path);
            proof {
                assert forall|t: int|
                    0 <= t < items0.len() implies self.selected_items@[t] == items0[t] by {}
                assert(self.sel_set() =~= old(self).sel_set().insert(path@)) by {
                    assert forall|s: Seq<char>|
                        self.sel_set().contains(s) implies old(self).sel_set().insert(
                        path@,
                    ).contains(s) by {
                        let k = choose|k: int|
                            0 <= k < self.selected_items@.len() && self.selected_items@[k]@ == s;
                        if k < items0.len() {
                            assert(old(self).sel_set().contains(s));
                        }
                    }
                    assert forall|s: Seq<char>|
                        old(self).sel_set().insert(path@).contains(s) implies self.sel_set()
                        .contains(s) by {
                        if old(self).sel_set().contains(s) {
                            let k = choose|k: int| 0 <= k < items0.len() && items0[k]@ == s;
                            assert(self.selected_items@[k]@ == s);
                        } else {
                            assert(self.selected_items@[items0.len() as int]@ == s);
                        }
                    }
                }
            }
        } else {
            proof {
                assert(self.sel_set() =~= old(self).sel_set().insert(path@));
            }
        }
    }

    /// Removes a path from the selection.
    pub fn remove_selection(&mut self, path: &str)
        requires
            old(self).wf(),
        ensures
            final(self).wf(),
            final(self).sel_set() == old(self).sel_set().remove(path@),
            *final(self) == (Explorer {
                selected_items: final(self).selected_items,
                ..*old(self)
            }),
    {
        let p = path.to_owned();
        let n = self.selected_items.len();
        let mut k: usize = 0;
        while k < n
            invariant
                k <= n,
                *self == *old(self),
                old(self).wf(),
                n == self.selected_items@.len(),
                p@ == path@,
                forall|t: int| 0 <= t < k ==> self.selected_items@[t]@ != path@,
            decreases n - k,
        {
            if self.selected_items[k] == p {
                let ghost items0 = self.selected_items@;
                self.selected_items.remove(k);
                proof {
                    items0.remove_ensures(k as int);
                    let items1 = items0.remove(k as int);
                    assert(items0 == old(self).selected_items@);
                    assert(forall|a: int, b: int|
                        0 <= a < b < items0.len() ==> items0[a]@ != items0[b]@);
                    assert(self.selected_items@ == items1);
                    assert(items0[k as int]@ == path@);
                    assert(self.sel_set() =~= old(self).sel_set().remove(path@)) by {
                        assert forall|s: Seq<char>|
                            self.sel_set().contains(s) implies old(self).sel_set().remove(
                            path@,
                        ).contains(s) by {
                            let t = choose|t: int|
                                0 <= t < self.selected_items@.len() && self.selected_items@[t]@
                                    == s;
                            if t < k {
                                assert(items1[t] == items0[t]);
                                assert(items0[t]@ == s);
                                assert(items0[t]@ != items0[k as int]@);
                            } else {
                                assert(items1[t] == items0[t + 1]);
                                assert(items0[t + 1]@ == s);
                                assert(items0[t + 1]@ != items0[k as int]@);
                            }
                        }
                        assert forall|s: Seq<char>|
                            old(self).sel_set().remove(path@).contains(s) implies self.sel_set()
                            .contains(s) by {
                            let t = choose|t: int| 0 <= t < items0.len() && items0[t]@ == s;
                            assert(t != k);
                            if t < k {
                                assert(items1[t] == items0[t]);
                                assert(self.selected_items@[t]@ == s);
                            } else {
                                assert(items1[t - 1] == items0[t]);
                                assert(self.selected_items@[t - 1]@ == s);
                            }
                        }
                    }
                }
                return ;
            }
            k = k + 1;
        }
        proof {
            assert(!old(self).sel_set().contains(path@)) by {
                if old(self).sel_set().contains(path@) {
                    let t = choose|t: int|
                        0 <= t < self.selected_items@.len() && self.selected_items@[t]@ == path@;
                    assert(self.selected_items@[t]@ != path@);
                }
            }
            assert(self.sel_set() =~= old(self).sel_set().remove(path@));
        }
    }

    /// Clears the whole selection and forgets the last selected index.
    pub fn clear_selection(&mut self)
        requires
            old(self).wf(),
        ensures
            final(self).wf(),
            final(self).sel_set() == Set::<Seq<char>>::empty(),
            final(self).selected_items@ == Seq::<String>::empty(),
            *final(self) == (Explorer {
                selected_items: final(self).selected_items,
                last_selected_index: None,
                ..*old(self)
            }),
    {
        self.selected_items.clear();
        self.last_selected_index = None;
        proof {
            assert(self.sel_set() =~= Set::<Seq<char>>::empty());
        }
    }

    /// Toggles a path's selection and remembers where it happened.
    pub fn toggle_selection(&mut self, path: String, index: usize)
        requires
            old(self).wf(),
        ensures
            final(self).wf(),
            old(self).sel_set().contains(path@) ==> final(self).sel_set() == old(
                self,
            ).sel_set().remove(path@),
            !old(self).sel_set().contains(path@) ==> final(self).sel_set() == old(
                self,
            ).sel_set().insert(path@),
            *final(self) == (Explorer {
                selected_items: final(self).selected_items,
                last_selected_index: Some(index),
                ..*old(self)
            }),
    {
        if self.is_selected(path.as_str()) {
            self.remove_selection(path.as_str());
        } else {
            self.add_selection(path);
        }
        self.last_selected_index = Some(index);
    }

    /// Selects exactly this path, clearing everything else, and remembers
    /// where it happened.
    pub fn set_single_selection(&mut self, path: String, index: usize)
        requires
            old(self).wf(),
        ensures
            final(self).wf(),
            final(self).sel_set() == Set::<Seq<char>>::empty().insert(path@),
            *final(self) == (Explorer {
                selected_items: final(self).selected_items,
                last_selected_index: Some(index),
                ..*old(self)
            }),
    {
        self.clear_selection();
        self.add_selection(path);
        self.last_selected_index = Some(index);
    }

    /// Extends the selection from the last selected index to the current
    /// one (both inclusive, in either order), adding every path of the
    /// listing in between.  Without a previous index it selects just the
    /// current path, or does nothing when the index is out of range.
    pub fn select_range(&mut self, paths: &[String], current_index: usize)
        requires
            old(self).wf(),
        ensures
            final(self).wf(),
            match old(self).last_selected_index {
                Some(last) => {
                    let lo = if last <= current_index {
                        last
                    } else {
                        current_index
                    };
                    let hi = if last <= current_index {
                        current_index
                    } else {
                        last
                    };
                    &&& *final(self) == (Explorer {
                        selected_items: final(self).selected_items,
                        ..*old(self)
                    })
                    &&& forall|s: Seq<char>|
                        #[trigger] final(self).sel_set().contains(s) <==> old(
                            self,
                        ).sel_set().contains(s) || (exists|u: int|
                            lo <= u <= hi && u < paths@.len() && paths@[u]@ == s)
                },
                None => {
                    if current_index < paths@.len() {
                        &&& final(self).sel_set() == Set::<Seq<char>>::empty().insert(
                            paths@[current_index as int]@,
                        )
                        &&& *final(self) == (Explorer {
                            selected_items: final(self).selected_items,
                            last_selected_index: Some(current_index),
                            ..*old(self)
                        })
                    } else {
                        *final(self) == *old(self)
                    }
                },
            },
    {
        match self.last_selected_index {
            Some(last_index) => {
                let lo = if last_index <= current_index {
                    last_index
                } else {
                    current_index
                };
                let hi = if last_index <= current_index {
                    current_index
                } else {
                    last_index
                };
                let mut t: usize = lo;
                while t < paths.len() && t <= hi
                    invariant
                        lo <= t,
                        t <= hi + 1,
                        self.wf(),
                        *self == (Explorer { selected_items: self.selected_items, ..*old(self) }),
                        forall|s: Seq<char>|
                            #[trigger] self.sel_set().contains(s) <==> old(
                                self,
                            ).sel_set().contains(s) || (exists|u: int|
                                lo <= u < t && u < paths@.len() && paths@[u]@ == s),
                    decreases paths@.len() - t,
                {
                    let ghost prev = *self;
                    self.add_selection(paths[t].clone());
                    proof {
                        assert forall|s: Seq<char>| #[trigger]
                            self.sel_set().contains(s) <==> old(self).sel_set().contains(s) || (
                            exists|u: int|
                                lo <= u < t + 1 && u < paths@.len() && paths@[u]@ == s) by {
                            assert(self.sel_set() == prev.sel_set().insert(paths@[t as int]@));
                            if self.sel_set().contains(s) {
                                if !prev.sel_set().contains(s) {
                                    assert(paths@[t as int]@ == s);
                                }
                            }
                            if exists|u: int| lo <= u < t + 1 && u < paths@.len() && paths@[u]@
                                == s {
                                let u = choose|u: int|
                                    lo <= u < t + 1 && u < paths@.len() && paths@[u]@ == s;
                                if u == t {
                                    assert(self.sel_set().contains(s));
                                }
                            }
                        }
                    }
                    t = t + 1;
                }
                proof {
                    assert forall|s: Seq<char>| #[trigger]
                        self.sel_set().contains(s) <==> old(self).sel_set().contains(s) || (
                        exists|u: int|
                            lo <= u <= hi && u < paths@.len() && paths@[u]@ == s) by {
                        if exists|u: int| lo <= u <= hi && u < paths@.len() && paths@[u]@ == s {
                            let u = choose|u: int|
                                lo <= u <= hi && u < paths@.len() && paths@[u]@ == s;
                            assert(lo <= u < t && u < paths@.len() && paths@[u]@ == s);
                        }
                        if exists|u: int| lo <= u < t && u < paths@.len() && paths@[u]@ == s {
                            let u = choose|u: int|
                                lo <= u < t && u < paths@.len() && paths@[u]@ == s;
                            assert(lo <= u <= hi && u < paths@.len() && paths@[u]@ == s);
                        }
                    }
                }
            },
            None => {
                if current_index < paths.len() {
                    let path = paths[current_index].clone();
                    self.set_single_selection(path, current_index);
                }
            },
        }
    }

    /// Splits the active pane along the given axis.  Two fresh
    /// identifiers are consumed whether or not the split lands; on
    /// success the new trailing pane starts loading the inherited path,
    /// and the caller is told which pane to load and from where.
    fn split_active(&mut self, axis: Axis, fallback_path: String) -> (r: Option<(PanelId, String)>)
        requires
            old(self).wf(),
            old(self).active_panel_id is Some ==> old(self).next_panel_id + 2 <= u64::MAX,
        ensures
            final(self).wf(),
            final(self).roots == old(self).roots,
            final(self).selected_sidebar_path == old(self).selected_sidebar_path,
            final(self).active_panel_id == old(self).active_panel_id,
            old(self).active_panel_id is None ==> *final(self) == *old(self) && r is None,
            old(self).active_panel_id matches Some(a) ==> ({
                let m = old(self).panel_tree@;
                let sid = old(self).next_panel_id;
                let lid = (old(self).next_panel_id + 1) as PanelId;
                let path = split_source_path(m, a, fallback_path@);
                let init = (split_source_extent(m, a, axis) / 2) as i64;
                &&& final(self).next_panel_id == old(self).next_panel_id + 2
                &&& (if model_has_leaf(m, a) {
                    &&& (match r {
                        Some(p) => p.0 == lid && p.1@ == path,
                        None => false,
                    })
                    &&& final(self).panel_tree@ == model_update_data(
                        model_split(m, a, axis, sid, lid, path, init),
                        lid,
                        path,
                        Seq::<FileItem>::empty(),
                        true,
                        None,
                    )
                    &&& final(self).selected_items@ == Seq::<String>::empty()
                    &&& final(self).last_selected_index is None
                } else {
                    &&& r is None
                    &&& final(self).panel_tree@ == m
                    &&& final(self).selected_items == old(self).selected_items
                    &&& final(self).last_selected_index == old(self).last_selected_index
                })
            }),
    {
        let active = match self.active_panel_id {
            Some(a) => a,
            None => {
                return None;
            },
        };
        let (path, extent) = match self.panel_tree.find_panel(active) {
            Some(node) => {
                proof {
                    lemma_find_bounds_wf(self.panel_tree@, active);
                }
                match node {
                    PanelNode::Leaf { path, bounds, .. } => (path.clone(), bounds.extent_along(
                        axis,
                    )),
                    PanelNode::Split { state, first, .. } => {
                        let p = leftmost_path(first);
                        (p, state.bounds().extent_along(axis))
                    },
                }
            },
            None => (fallback_path, 0),
        };
        let split_id = self.next_panel_id;
        self.next_panel_id = self.next_panel_id + 1;
        let new_leaf_id = self.next_panel_id;
        self.next_panel_id = self.next_panel_id + 1;
        let initial_size = ((extent as u64) / 2) as i64;
        let found = self.panel_tree.split_panel(
            active,
            axis,
            split_id,
            new_leaf_id,
            path.clone(),
            initial_size,
        );
        proof {
            lemma_split_preserves(
                old(self).panel_tree@,
                active,
                axis,
                split_id,
                new_leaf_id,
                path@,
                initial_size,
            );
            assert forall|i: PanelId|
                model_contains_id(self.panel_tree@, i) implies i < self.next_panel_id by {
                assert(model_contains_id(old(self).panel_tree@, i) || i == split_id || i
                    == new_leaf_id);
            }
        }
        if found {
            self.load_directory_for_panel(new_leaf_id, path.clone());
            Some((new_leaf_id, path))
        } else {
            None
        }
    }

    /// Splits the active pane side by side: the new pane appears to the
    /// right, seeded with half the pane's width.
    pub fn split_panel_horizontal(&mut self, fallback_path: String) -> (r: Option<
        (PanelId, String),
    >)
        requires
            old(self).wf(),
            old(self).active_panel_id is Some ==> old(self).next_panel_id + 2 <= u64::MAX,
        ensures
            final(self).wf(),
            final(self).roots == old(self).roots,
            final(self).selected_sidebar_path == old(self).selected_sidebar_path,
            final(self).active_panel_id == old(self).active_panel_id,
            old(self).active_panel_id is None ==> *final(self) == *old(self) && r is None,
            old(self).active_panel_id matches Some(a) ==> ({
                let m = old(self).panel_tree@;
                let sid = old(self).next_panel_id;
                let lid = (old(self).next_panel_id + 1) as PanelId;
                let path = split_source_path(m, a, fallback_path@);
                let init = (split_source_extent(m, a, Axis::Horizontal) / 2) as i64;
                &&& final(self).next_panel_id == old(self).next_panel_id + 2
                &&& (if model_has_leaf(m, a) {
                    &&& (match r {
                        Some(p) => p.0 == lid && p.1@ == path,
                        None => false,
                    })
                    &&& final(self).panel_tree@ == model_update_data(
                        model_split(m, a, Axis::Horizontal, sid, lid, path, init),
                        lid,
                        path,
                        Seq::<FileItem>::empty(),
                        true,
                        None,
                    )
                    &&& final(self).selected_items@ == Seq::<String>::empty()
                    &&& final(self).last_selected_index is None
                } else {
                    &&& r is None
                    &&& final(self).panel_tree@ == m
                    &&& final(self).selected_items == old(self).selected_items
                    &&& final(self).last_selected_index == old(self).last_selected_index
                })
            }),
    {
        self.split_active(Axis::Horizontal, fallback_path)
    }

    /// Splits the active pane top and bottom: the new pane appears below,
    /// seeded with half the pane's height.
    pub fn split_panel_vertical(&mut self, fallback_path: String) -> (r: Option<
        (PanelId, String),
    >)
        requires
            old(self).wf(),
            old(self).active_panel_id is Some ==> old(self).next_panel_id + 2 <= u64::MAX,
        ensures
            final(self).wf(),
            final(self).roots == old(self).roots,
            final(self).selected_sidebar_path == old(self).selected_sidebar_path,
            final(self).active_panel_id == old(self).active_panel_id,
            old(self).active_panel_id is None ==> *final(self) == *old(self) && r is None,
            old(self).active_panel_id matches Some(a) ==> ({
                let m = old(self).panel_tree@;
                let sid = old(self).next_panel_id;
                let lid = (old(self).next_panel_id + 1) as PanelId;
                let path = split_source_path(m, a, fallback_path@);
                let init = (split_source_extent(m, a, Axis::Vertical) / 2) as i64;
                &&& final(self).next_panel_id == old(self).next_panel_id + 2
                &&& (if model_has_leaf(m, a) {
                    &&& (match r {
                        Some(p) => p.0 == lid && p.1@ == path,
                        None => false,
                    })
                    &&& final(self).panel_tree@ == model_update_data(
                        model_split(m, a, Axis::Vertical, sid, lid, path, init),
                        lid,
                        path,
                        Seq::<FileItem>::empty(),
                        true,
                        None,
                    )
                    &&& final(self).selected_items@ == Seq::<String>::empty()
                    &&& final(self).last_selected_index is None
                } else {
                    &&& r is None
                    &&& final(self).panel_tree@ == m
                    &&& final(self).selected_items == old(self).selected_items
                    &&& final(self).last_selected_index == old(self).last_selected_index
                })
            }),
    {
        self.split_active(Axis::Vertical, fallback_path)
    }

    /// Where the very first load should go: the active pane (or pane 0)
    /// and its path, or the fallback when that pane cannot be resolved.
    pub fn initial_load_target(&self, fallback_path: String) -> (r: (PanelId, String))
        ensures
            ({
                let pid = match self.active_panel_id {
                    Some(a) => a,
                    None => 0,
                };
                &&& r.0 == pid
                &&& r.1@ == (match model_find(self.panel_tree@, pid) {
                    Some(PanelModel::Leaf { path, .. }) => path,
                    _ => fallback_path@,
                })
            }),
    {
        let pid = match self.active_panel_id {
            Some(a) => a,
            None => 0,
        };
        let path = match self.panel_tree.find_panel(pid) {
            Some(node) => match node {
                PanelNode::Leaf { path, .. } => path.clone(),
                _ => fallback_path,
            },
            None => fallback_path,
        };
        (pid, path)
    }

    /// Applies the outcome of the initial load: the storage roots for the
    /// sidebar together with the first pane's entries, or a failure that
    /// becomes that pane's error.
    pub fn apply_init_result(
        &mut self,
        panel_id: PanelId,
        path: String,
        result: Result<(Vec<RootItem>, Vec<FileItem>), String>,
    )
        requires
            old(self).wf(),
        ensures
            final(self).wf(),
            final(self).selected_sidebar_path == old(self).selected_sidebar_path,
            final(self).active_panel_id == old(self).active_panel_id,
            final(self).next_panel_id == old(self).next_panel_id,
            final(self).selected_items == old(self).selected_items,
            final(self).last_selected_index == old(self).last_selected_index,
            match result {
                Ok(p) => {
                    &&& final(self).roots == p.0
                    &&& exists|es: Seq<FileItem>|
                        {
                            &&& #[trigger] sorted_for_display(es)
                            &&& es.to_multiset() == p.1@.to_multiset()
                            &&& final(self).panel_tree@ == model_update_data(
                                old(self).panel_tree@,
                                panel_id,
                                path@,
                                es,
                                false,
                                None,
                            )
                        }
                },
                Err(msg) => {
                    &&& final(self).roots == old(self).roots
                    &&& final(self).panel_tree@ == model_update_data(
                        old(self).panel_tree@,
                        panel_id,
                        path@,
                        Seq::<FileItem>::empty(),
                        false,
                        Some(load_error_message(msg@)),
                    )
                },
            },
    {
        match result {
            Ok(pair) => {
                let (roots, entries) = pair;
                self.roots = roots;
                let sorted = sort_entries_for_display(entries);
                let ghost es = sorted@;
                let _ = self.panel_tree.update_panel_data(panel_id, path, sorted, false, None);
                proof {
                    lemma_update_data_preserves(
                        old(self).panel_tree@,
                        panel_id,
                        path@,
                        es,
                        false,
                        None,
                    );
                    assert forall|i: PanelId|
                        model_contains_id(self.panel_tree@, i) implies i < self.next_panel_id by {
                        assert(model_contains_id(old(self).panel_tree@, i));
                    }
                }
            },
            Err(msg) => {
                let mut text = "加载失败: ".to_owned();
                text.append(msg.as_str());
                let _ = self.panel_tree.update_panel_data(
                    panel_id,
                    path,
                    Vec::new(),
                    false,
                    Some(text),
                );
                proof {
                    lemma_update_data_preserves(
                        old(self).panel_tree@,
                        panel_id,
                        path@,
                        Seq::<FileItem>::empty(),
                        false,
                        Some(load_error_message(msg@)),
                    );
                    assert forall|i: PanelId|
                        model_contains_id(self.panel_tree@, i) implies i < self.next_panel_id by {
                        assert(model_contains_id(old(self).panel_tree@, i));
                    }
                }
            },
        }
    }

    /// Refuses to close the last pane; otherwise removes the pane from
    /// the tree (its sibling inherits the freed space) and, when the
    /// closed pane was active, picks a new active pane: the first other
    /// pane of the old tree, or failing that, of the new one.
    pub fn close_panel(&mut self, panel_id: PanelId)
        requires
            old(self).wf(),
        ensures
            final(self).wf(),
            final(self).roots == old(self).roots,
            final(self).selected_sidebar_path == old(self).selected_sidebar_path,
            final(self).next_panel_id == old(self).next_panel_id,
            final(self).selected_items == old(self).selected_items,
            final(self).last_selected_index == old(self).last_selected_index,
            model_count_leaves(old(self).panel_tree@) <= 1 ==> *final(self) == *old(self),
            model_count_leaves(old(self).panel_tree@) >= 2 ==> ({
                let m = old(self).panel_tree@;
                &&& model_remove(m, panel_id) is Some
                &&& final(self).panel_tree@ == model_remove(m, panel_id)->Some_0
                &&& final(self).active_panel_id == (if old(self).active_panel_id == Some(
                    panel_id,
                ) {
                    match model_next_leaf_id(m, panel_id) {
                        Some(n) => Some(n),
                        None => model_next_leaf_id(
                            model_remove(m, panel_id)->Some_0,
                            panel_id,
                        ),
                    }
                } else {
                    old(self).active_panel_id
                })
            }),
    {
        let count = self.panel_tree.count_leaves();
        if count <= 1 {
            return ;
        }
        let need_new_active = match self.active_panel_id {
            Some(a) => a == panel_id,
            None => false,
        };
        let new_active_id = if need_new_active {
            self.panel_tree.find_next_panel_id(panel_id)
        } else {
            None
        };
        let mut tree = PanelNode::new_leaf(0, String::new());
        core::mem::swap(&mut self.panel_tree, &mut tree);
        proof {
            lemma_remove_some(tree@, panel_id);
            lemma_remove_preserves(tree@, panel_id);
        }
        match tree.remove_panel(panel_id) {
            Some(new_tree) => {
                self.panel_tree = new_tree;
                if need_new_active {
                    match new_active_id {
                        Some(nid) => {
                            self.active_panel_id = Some(nid);
                        },
                        None => {
                            self.active_panel_id = self.panel_tree.find_next_panel_id(panel_id);
                        },
                    }
                }
                proof {
                    assert forall|i: PanelId|
                        model_contains_id(self.panel_tree@, i) implies i
                        < self.next_panel_id by {
                        assert(model_contains_id(old(self).panel_tree@, i));
                    }
                }
            },
            None => {
                proof {
                    assert(false);
                }
            },
        }
    }
}

} // verus!
