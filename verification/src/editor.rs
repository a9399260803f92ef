//! Which drawing each tab of the editor shows: the drawings by id, the tab of each, and the
//! drawing the selected tab shows.

use vstd::prelude::*;
use std::collections::HashMap;

verus! {

broadcast use vstd::std_specs::hash::group_hash_axioms;

/// The drawings `D` of the editor, by id, the drawing each tab shows, the id of the drawing
/// the selected tab shows, and the last id given out.
pub struct DocumentTabs<D> {
    pub last_document_id: usize,
    pub selected_document_id: usize,
    pub documents: HashMap<usize, D>,
    pub tab_to_document: HashMap<usize, usize>,
}

impl<D> DocumentTabs<D> {
    /// No drawing and no tab; the first drawing will get the id 1, which is selected.
    pub fn new() -> (r: Self)
        ensures
            r.last_document_id == 0,
            r.selected_document_id == 1,
            r.documents@ == Map::<usize, D>::empty(),
            r.tab_to_document@ == Map::<usize, usize>::empty(),
    {
        DocumentTabs {
            last_document_id: 0,
            selected_document_id: 1,
            documents: HashMap::new(),
            tab_to_document: HashMap::new(),
        }
    }

    /// A new id for a drawing: the one after the last given out.
    pub fn next_id(&mut self) -> (r: usize)
        requires
            old(self).last_document_id < usize::MAX,
        ensures
            r == old(self).last_document_id + 1,
            final(self).last_document_id == r,
            final(self).selected_document_id == old(self).selected_document_id,
            final(self).documents@ == old(self).documents@,
            final(self).tab_to_document@ == old(self).tab_to_document@,
    {
        self.last_document_id = self.last_document_id + 1;
        self.last_document_id
    }

    /// Keeps `document` under a new id, which it gives.
    pub fn add_document(&mut self, document: D) -> (r: usize)
        requires
            old(self).last_document_id < usize::MAX,
        ensures
            r == old(self).last_document_id + 1,
            final(self).last_document_id == r,
            final(self).selected_document_id == old(self).selected_document_id,
            final(self).documents@ == old(self).documents@.insert(r, document),
            final(self).tab_to_document@ == old(self).tab_to_document@,
    {
        let id = self.next_id();
        self.documents.insert(id, document);
        id
    }

    /// Records that the tab `tab_id` shows the drawing `document_id`, if there is such a
    /// drawing; whether there is.
    pub fn bind_tab(&mut self, tab_id: usize, document_id: usize) -> (r: bool)
        ensures
            r == old(self).documents@.contains_key(document_id),
            r ==> final(self).tab_to_document@ == old(self).tab_to_document@.insert(tab_id, document_id),
            !r ==> final(self).tab_to_document@ == old(self).tab_to_document@,
            final(self).documents@ == old(self).documents@,
            final(self).last_document_id == old(self).last_document_id,
            final(self).selected_document_id == old(self).selected_document_id,
    {
        if self.documents.contains_key(&document_id) {
            self.tab_to_document.insert(tab_id, document_id);
            true
        } else {
            false
        }
    }

    /// The tab `tab_id` was selected: the drawing it shows, if it shows one, becomes the
    /// selected drawing.
    pub fn tab_selected(&mut self, tab_id: usize)
        ensures
            final(self).selected_document_id == if old(self).tab_to_document@.contains_key(tab_id) {
                old(self).tab_to_document@[tab_id]
            } else {
                old(self).selected_document_id
            },
            final(self).documents@ == old(self).documents@,
            final(self).tab_to_document@ == old(self).tab_to_document@,
            final(self).last_document_id == old(self).last_document_id,
    {
        match self.tab_to_document.get(&tab_id) {
            Some(d) => {
                self.selected_document_id = *d;
            },
            None => {},
        }
    }

    /// The tab `tab_id` was closed: the drawing it showed, if any, is dropped, and so is the
    /// tab.
    pub fn tab_closed(&mut self, tab_id: usize)
        ensures
            final(self).documents@ == if old(self).tab_to_document@.contains_key(tab_id) {
                old(self).documents@.remove(old(self).tab_to_document@[tab_id])
            } else {
                old(self).documents@
            },
            final(self).tab_to_document@ == old(self).tab_to_document@.remove(tab_id),
            final(self).selected_document_id == old(self).selected_document_id,
            final(self).last_document_id == old(self).last_document_id,
    {
        match self.tab_to_document.get(&tab_id) {
            Some(d) => {
                let d = *d;
                self.documents.remove(&d);
            },
            None => {},
        }
        self.tab_to_document.remove(&tab_id);
    }

    /// The drawing the selected tab shows, if it is kept.
    pub fn active_document(&self) -> (r: Option<&D>)
        ensures
            match r {
                Some(d) => self.documents@.contains_key(self.selected_document_id) && *d
                    == self.documents@[self.selected_document_id],
                None => !self.documents@.contains_key(self.selected_document_id),
            },
    {
        self.documents.get(&self.selected_document_id)
    }

    /// Whether a tab added for the drawing `document_id` is to be selected: when no drawing
    /// is to be, or when it is that one.
    pub fn selects(force_selected_document_id: Option<usize>, document_id: usize) -> (r: bool)
        ensures
            r == match force_selected_document_id {
                Some(f) => f == document_id,
                None => true,
            },
    {
        match force_selected_document_id {
            Some(f) => f == document_id,
            None => true,
        }
    }
}

/// Closing the tab of a drawing drops that drawing: afterwards no drawing is kept under its
/// id and the tab shows none.
pub proof fn law_close_drops_document<D>(
    documents: Map<usize, D>,
    tabs: Map<usize, usize>,
    tab_id: usize,
)
    requires
        tabs.contains_key(tab_id),
    ensures
        !documents.remove(tabs[tab_id]).contains_key(tabs[tab_id]),
        !tabs.remove(tab_id).contains_key(tab_id),
{
}

/// Selecting a tab bound to a drawing makes that drawing the active one.
pub proof fn law_bind_then_select(tabs: Map<usize, usize>, tab_id: usize, document_id: usize)
    ensures
        tabs.insert(tab_id, document_id).contains_key(tab_id),
        tabs.insert(tab_id, document_id)[tab_id] == document_id,
{
}

} // verus!
