//! What the editor keeps per document from its server: the last
//! diagnostics, the result id to send with the next diagnostics request, and
//! the folding ranges. Disabling LSP for a buffer forgets all three.

use crate::table::KeyedTable;
use vstd::prelude::*;

verus! {

/// The cache as maps from document URI to the server's JSON text.
pub struct CacheView {
    pub diagnostics: Map<Seq<char>, String>,
    pub result_ids: Map<Seq<char>, String>,
    pub folding_ranges: Map<Seq<char>, String>,
}

pub struct UriCache {
    diagnostics: KeyedTable<String>,
    result_ids: KeyedTable<String>,
    folding_ranges: KeyedTable<String>,
}

impl View for UriCache {
    type V = CacheView;

    closed spec fn view(&self) -> CacheView {
        CacheView {
            diagnostics: self.diagnostics@,
            result_ids: self.result_ids@,
            folding_ranges: self.folding_ranges@,
        }
    }
}

impl UriCache {
    pub closed spec fn wf(&self) -> bool {
        self.diagnostics.wf() && self.result_ids.wf() && self.folding_ranges.wf()
    }

    pub fn new() -> (r: Self)
        ensures
            r.wf(),
            r@.diagnostics == Map::<Seq<char>, String>::empty(),
            r@.result_ids == Map::<Seq<char>, String>::empty(),
            r@.folding_ranges == Map::<Seq<char>, String>::empty(),
    {
        UriCache {
            diagnostics: KeyedTable::new(),
            result_ids: KeyedTable::new(),
            folding_ranges: KeyedTable::new(),
        }
    }

    pub fn set_diagnostics(&mut self, uri: String, json: String)
        requires
            old(self).wf(),
        ensures
            final(self).wf(),
            final(self)@.diagnostics == old(self)@.diagnostics.insert(uri@, json),
            final(self)@.result_ids == old(self)@.result_ids,
            final(self)@.folding_ranges == old(self)@.folding_ranges,
    {
        self.diagnostics.insert(uri, json);
    }

    /// Records the result id of a diagnostics report, for the next request.
    pub fn set_result_id(&mut self, uri: String, id: String)
        requires
            old(self).wf(),
        ensures
            final(self).wf(),
            final(self)@.result_ids == old(self)@.result_ids.insert(uri@, id),
            final(self)@.diagnostics == old(self)@.diagnostics,
            final(self)@.folding_ranges == old(self)@.folding_ranges,
    {
        self.result_ids.insert(uri, id);
    }

    pub fn set_folding_ranges(&mut self, uri: String, json: String)
        requires
            old(self).wf(),
        ensures
            final(self).wf(),
            final(self)@.folding_ranges == old(self)@.folding_ranges.insert(uri@, json),
            final(self)@.diagnostics == old(self)@.diagnostics,
            final(self)@.result_ids == old(self)@.result_ids,
    {
        self.folding_ranges.insert(uri, json);
    }

    /// The result id to send with the next diagnostics request for `uri`.
    pub fn previous_result_id(&self, uri: &String) -> (r: Option<String>)
        requires
            self.wf(),
        ensures
            r == self@.result_ids.get(uri@),
    {
        match self.result_ids.get(uri) {
            Some(id) => Some(id.clone()),
            None => None,
        }
    }

    pub fn diagnostics(&self, uri: &String) -> (r: Option<&String>)
        requires
            self.wf(),
        ensures
            match r {
                Some(d) => self@.diagnostics.contains_key(uri@) && self@.diagnostics[uri@] == *d,
                None => !self@.diagnostics.contains_key(uri@),
            },
    {
        self.diagnostics.get(uri)
    }

    /// Forgets everything cached for `uri`.
    pub fn forget(&mut self, uri: &String)
        requires
            old(self).wf(),
        ensures
            final(self).wf(),
            final(self)@.diagnostics == old(self)@.diagnostics.remove(uri@),
            final(self)@.result_ids == old(self)@.result_ids.remove(uri@),
            final(self)@.folding_ranges == old(self)@.folding_ranges.remove(uri@),
    {
        let _ = self.diagnostics.remove(uri);
        let _ = self.result_ids.remove(uri);
        let _ = self.folding_ranges.remove(uri);
    }
}

} // verus!
