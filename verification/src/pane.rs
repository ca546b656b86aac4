//! Panes, and the manifest in which the host reports them.

use std::collections::HashMap;
use vstd::prelude::*;

verus! {

broadcast use vstd::std_specs::hash::group_hash_axioms;

/// The identity of a pane.
///
/// Terminals and plugins are numbered apart, so the number alone does not tell panes apart.
#[derive(Debug, Clone, Copy, PartialEq, Eq, Structural)]
pub enum PaneId {
    Terminal(u32),
    Plugin(u32),
}

/// What is known of an open pane: its number, its kind and its current title.
#[derive(Debug, PartialEq, Eq)]
pub struct PaneInfo {
    /// The number of the pane among the panes of its kind.
    pub id: u32,
    /// Whether the pane runs a plugin rather than a terminal.
    pub is_plugin: bool,
    /// The title as it is shown at the moment; the program in the pane may change it.
    pub title: String,
}

/// The open panes of each tab, by the position of the tab.
#[derive(Debug)]
pub struct PaneManifest {
    pub panes: HashMap<usize, Vec<PaneInfo>>,
}

/// The mathematical content of a [`PaneInfo`].
pub struct PaneView {
    pub id: u32,
    pub is_plugin: bool,
    pub title: Seq<char>,
}

impl PaneView {
    /// The identity of the pane.
    pub open spec fn pane_id(self) -> PaneId {
        if self.is_plugin {
            PaneId::Plugin(self.id)
        } else {
            PaneId::Terminal(self.id)
        }
    }
}

impl View for PaneInfo {
    type V = PaneView;

    open spec fn view(&self) -> PaneView {
        PaneView { id: self.id, is_plugin: self.is_plugin, title: self.title@ }
    }
}

impl Clone for PaneInfo {
    fn clone(&self) -> (copy: Self)
        ensures
            copy@ == self@,
    {
        PaneInfo { id: self.id, is_plugin: self.is_plugin, title: self.title.clone() }
    }
}

/// The mathematical content of a list of panes.
pub open spec fn pane_views(panes: Seq<PaneInfo>) -> Seq<PaneView> {
    panes.map_values(|pane: PaneInfo| pane@)
}

impl View for PaneManifest {
    type V = Map<usize, Seq<PaneView>>;

    open spec fn view(&self) -> Map<usize, Seq<PaneView>> {
        Map::new(
            |tab: usize| self.panes@.contains_key(tab),
            |tab: usize| pane_views(self.panes@[tab]@),
        )
    }
}

/// Whether the pane `id` is among `panes`.
pub open spec fn is_open(panes: Seq<PaneView>, id: PaneId) -> bool {
    exists|i: int| 0 <= i < panes.len() && (#[trigger] panes[i]).pane_id() == id
}

/// Whether some pane of `panes` bears the title `name`.
pub open spec fn is_titled(panes: Seq<PaneView>, name: Seq<char>) -> bool {
    exists|i: int| 0 <= i < panes.len() && (#[trigger] panes[i]).title == name
}

/// Whether the pane at position `i` is the first of `panes` with the title `name`.
pub open spec fn is_first_titled(panes: Seq<PaneView>, name: Seq<char>, i: int) -> bool {
    &&& 0 <= i < panes.len()
    &&& panes[i].title == name
    &&& forall|j: int| 0 <= j < i ==> (#[trigger] panes[j]).title != name
}

/// The identity of the first of `panes` with the title `name`, if there is one.
pub open spec fn first_titled(panes: Seq<PaneView>, name: Seq<char>) -> Option<PaneId> {
    if is_titled(panes, name) {
        Some(panes[choose|i: int| is_first_titled(panes, name, i)].pane_id())
    } else {
        None
    }
}

/// The pane at the first position with the title `name` is the one that [`first_titled`] gives.
pub proof fn lemma_first_titled(panes: Seq<PaneView>, name: Seq<char>, i: int)
    requires
        is_first_titled(panes, name, i),
    ensures
        first_titled(panes, name) == Some(panes[i].pane_id()),
{
    let k = choose|k: int| is_first_titled(panes, name, k);
    assert(is_first_titled(panes, name, k));
    assert(k == i) by {
        if k < i {
            assert(panes[k].title != name);
        } else if i < k {
            assert(panes[i].title != name);
        }
    }
}

/// If a title occurs at all, there is a first pane that bears it.
pub proof fn lemma_first_titled_exists(panes: Seq<PaneView>, name: Seq<char>) -> (i: int)
    requires
        is_titled(panes, name),
    ensures
        is_first_titled(panes, name, i),
        first_titled(panes, name) == Some(panes[i].pane_id()),
{
    let k = choose|k: int| 0 <= k < panes.len() && (#[trigger] panes[k]).title == name;
    let i = lemma_first_up_to(panes, name, k);
    lemma_first_titled(panes, name, i);
    i
}

proof fn lemma_first_up_to(panes: Seq<PaneView>, name: Seq<char>, k: int) -> (i: int)
    requires
        0 <= k < panes.len(),
        panes[k].title == name,
    ensures
        is_first_titled(panes, name, i),
    decreases k,
{
    if exists|j: int| 0 <= j < k && (#[trigger] panes[j]).title == name {
        let j = choose|j: int| 0 <= j < k && (#[trigger] panes[j]).title == name;
        lemma_first_up_to(panes, name, j)
    } else {
        k
    }
}

/// The panes of the tabs in `order`, one tab after the other.
pub open spec fn joined(manifest: Map<usize, Seq<PaneView>>, order: Seq<usize>) -> Seq<PaneView>
    decreases order.len(),
{
    if order.len() == 0 {
        Seq::empty()
    } else {
        joined(manifest, order.drop_last()) + manifest[order.last()]
    }
}

/// Whether `order` lists every tab of the manifest once.
pub open spec fn lists_tabs(manifest: Map<usize, Seq<PaneView>>, order: Seq<usize>) -> bool {
    &&& order.no_duplicates()
    &&& forall|tab: usize| #[trigger] order.contains(tab) <==> manifest.contains_key(tab)
}

/// Whether `panes` are the panes to look at when the plugin lives in `own_tab`: those of that
/// tab, or, as long as the tab is not known, those of all tabs, tab by tab in some order.
pub open spec fn in_scope(
    manifest: Map<usize, Seq<PaneView>>,
    own_tab: Option<usize>,
    panes: Seq<PaneView>,
) -> bool {
    match own_tab {
        Some(tab) => panes == if manifest.contains_key(tab) {
            manifest[tab]
        } else {
            Seq::empty()
        },
        None => exists|order: Seq<usize>| #[trigger]
            lists_tabs(manifest, order) && panes == joined(manifest, order),
    }
}

/// Whether `after` may be the tab in which the plugin `plugin_id` takes itself to live, once it
/// has seen the manifest: a tab that holds it, or, if none does, the tab known `before`.
pub open spec fn is_own_tab(
    manifest: Map<usize, Seq<PaneView>>,
    plugin_id: u32,
    before: Option<usize>,
    after: Option<usize>,
) -> bool {
    if exists|tab: usize|
        #[trigger] manifest.contains_key(tab) && is_open(manifest[tab], PaneId::Plugin(plugin_id)) {
        &&& after is Some
        &&& manifest.contains_key(after->0)
        &&& is_open(manifest[after->0], PaneId::Plugin(plugin_id))
    } else {
        after == before
    }
}

/// The identity of a pane.
pub fn make_pane_id(pane: &PaneInfo) -> (id: PaneId)
    ensures
        id == pane@.pane_id(),
{
    if pane.is_plugin {
        PaneId::Plugin(pane.id)
    } else {
        PaneId::Terminal(pane.id)
    }
}

/// Whether the pane `id` is among `panes`.
pub fn contains_pane(panes: &Vec<PaneInfo>, id: PaneId) -> (found: bool)
    ensures
        found == is_open(pane_views(panes@), id),
{
    let mut i: usize = 0;
    while i < panes.len()
        invariant
            i <= panes@.len(),
            forall|j: int|
                0 <= j < i ==> (#[trigger] pane_views(panes@)[j]).pane_id() != id,
        decreases panes@.len() - i,
    {
        assert(pane_views(panes@)[i as int] == panes@[i as int]@);
        if make_pane_id(&panes[i]) == id {
            return true;
        }
        i += 1;
    }
    false
}

/// The identity of the first of `panes` with the title `name`, if there is one.
pub fn find_titled(panes: &Vec<PaneInfo>, name: &String) -> (id: Option<PaneId>)
    ensures
        id == first_titled(pane_views(panes@), name@),
{
    let ghost views = pane_views(panes@);
    let mut i: usize = 0;
    while i < panes.len()
        invariant
            i <= panes@.len(),
            views == pane_views(panes@),
            forall|j: int| 0 <= j < i ==> (#[trigger] views[j]).title != name@,
        decreases panes@.len() - i,
    {
        assert(views[i as int] == panes@[i as int]@);
        if panes[i].title == *name {
            proof {
                lemma_first_titled(views, name@, i as int);
            }
            return Some(make_pane_id(&panes[i]));
        }
        i += 1;
    }
    None
}

/// Puts copies of `more` behind `panes`.
fn append_panes(panes: &mut Vec<PaneInfo>, more: &Vec<PaneInfo>)
    ensures
        pane_views(final(panes)@) == pane_views(old(panes)@) + pane_views(more@),
{
    let mut i: usize = 0;
    while i < more.len()
        invariant
            i <= more@.len(),
            pane_views(panes@) =~= pane_views(old(panes)@) + pane_views(more@).take(i as int),
        decreases more@.len() - i,
    {
        let ghost before = panes@;
        panes.push(more[i].clone());
        assert(pane_views(panes@) =~= pane_views(before).push(more@[i as int]@));
        i += 1;
    }
}

/// The tabs met on a walk over the entries of a manifest, in order.
spec fn walked_tabs(walk: Seq<(&usize, &Vec<PaneInfo>)>) -> Seq<usize> {
    walk.map_values(|entry: (&usize, &Vec<PaneInfo>)| *entry.0)
}

/// A walk over all entries of a manifest meets every tab once.
proof fn lemma_walk_lists_tabs(
    panes: &HashMap<usize, Vec<PaneInfo>>,
    walk: Seq<(&usize, &Vec<PaneInfo>)>,
)
    requires
        walk.no_duplicates(),
        forall|i: int|
            0 <= i < walk.len() ==> panes@.contains_key(*(#[trigger] walk[i]).0)
                && panes@[*walk[i].0] == *walk[i].1,
        forall|tab: usize| #[trigger]
            panes@.contains_key(tab) ==> walk.contains((&tab, &panes@[tab])),
    ensures
        walked_tabs(walk).no_duplicates(),
        forall|tab: usize| #[trigger]
            walked_tabs(walk).contains(tab) <==> panes@.contains_key(tab),
{
    let order = walked_tabs(walk);
    assert forall|i: int, j: int|
        0 <= i < order.len() && 0 <= j < order.len() && i != j implies order[i] != order[j] by {
        if order[i] == order[j] {
            assert(walk[i] == walk[j]);
        }
    }
    assert forall|tab: usize| #[trigger] order.contains(tab) <==> panes@.contains_key(tab) by {
        if panes@.contains_key(tab) {
            let i = walk.index_of((&tab, &panes@[tab]));
            assert(order[i] == tab);
        }
        if order.contains(tab) {
            let i = order.index_of(tab);
            assert(*walk[i].0 == tab);
        }
    }
}

impl PaneManifest {
    /// A tab that holds the plugin pane `plugin_id`, if any does.
    ///
    /// If several tabs hold it, the result is one of them.
    pub fn find_plugin(&self, plugin_id: u32) -> (tab: Option<usize>)
        ensures
            match tab {
                Some(t) => self@.contains_key(t) && is_open(self@[t], PaneId::Plugin(plugin_id)),
                None => forall|t: usize| #[trigger]
                    self@.contains_key(t) ==> !is_open(self@[t], PaneId::Plugin(plugin_id)),
            },
    {
        for entry in it: self.panes.iter()
            invariant
                forall|j: int|
                    0 <= j < it.index() ==> !is_open(
                        pane_views((#[trigger] it.seq()[j]).1@),
                        PaneId::Plugin(plugin_id),
                    ),
        {
            if contains_pane(entry.1, PaneId::Plugin(plugin_id)) {
                return Some(*entry.0);
            }
        }
        None
    }

    /// The panes to look at when the plugin lives in `own_tab`: those of that tab, or, as long
    /// as the tab is not known, those of all tabs, tab by tab in no particular order.
    pub fn panes_in_scope(&self, own_tab: Option<usize>) -> (panes: Vec<PaneInfo>)
        ensures
            in_scope(self@, own_tab, pane_views(panes@)),
    {
        let mut panes: Vec<PaneInfo> = Vec::new();
        assert(pane_views(panes@) =~= Seq::empty());
        match own_tab {
            Some(tab) => {
                if let Some(own) = self.panes.get(&tab) {
                    append_panes(&mut panes, own);
                    assert(pane_views(panes@) =~= self@[tab]);
                }
                panes
            },
            None => {
                let ghost walk = vstd::std_specs::iter::IteratorSpec::remaining(
                    &vstd::std_specs::hash::spec_hash_map_iter(&self.panes),
                );
                for entry in it: self.panes.iter()
                    invariant
                        it.seq() == walk,
                        pane_views(panes@) == joined(
                            self@,
                            walked_tabs(it.seq()).take(it.index()),
                        ),
                        forall|j: int|
                            0 <= j < it.seq().len() ==> self.panes@.contains_key(
                                *(#[trigger] it.seq()[j]).0,
                            ) && self.panes@[*it.seq()[j].0] == *it.seq()[j].1,
                {
                    append_panes(&mut panes, entry.1);
                    proof {
                        let order = walked_tabs(it.seq());
                        let next = order.take(it.index() + 1);
                        assert(next.drop_last() =~= order.take(it.index()));
                        assert(next.last() == *entry.0);
                        assert(self@[*entry.0] == pane_views(entry.1@));
                    }
                }
                proof {
                    let order = walked_tabs(walk);
                    assert(order.take(walk.len() as int) =~= order);
                    lemma_walk_lists_tabs(&self.panes, walk);
                    assert(lists_tabs(self@, order));
                }
                panes
            },
        }
    }
}

} // verus!
