//! The multi-document session: an ordered list of open documents plus at
//! most one live selection, with edits threaded back through the
//! selection's commit context.

use crate::model::{val_view, Document, Value};
use crate::zipper::{
    copy_path, doc_lookup, doc_update, lemma_commit_at, locate, path_view, EditError,
    EditableValue, PathStep,
};
use vstd::prelude::*;

verus! {

/// The active selection: which document it belongs to, and the located
/// value with its commit context.
pub struct CurrentSelection {
    pub doc_index: usize,
    pub editable: EditableValue,
}

/// An ordered collection of open documents (insertion order is tab order)
/// plus at most one live selection shared by the whole session.
pub struct Session {
    pub documents: Vec<Document>,
    pub selection: Option<CurrentSelection>,
}

impl Session {
    /// Well-formed: a selection, if any, points inside the document list,
    /// resolves inside its snapshot, and its snapshot is the selected
    /// document.
    pub open spec fn wf(self) -> bool {
        match self.selection {
            Some(sel) => {
                &&& sel.doc_index < self.documents@.len()
                &&& sel.editable.valid()
                &&& sel.editable.snapshot@ == self.documents@[sel.doc_index as int]@
            },
            None => true,
        }
    }

    /// A fresh session: no documents, no selection.
    pub fn new() -> (s: Session)
        ensures
            s.wf(),
            s.documents@.len() == 0,
            s.selection is None,
    {
        Session { documents: Vec::new(), selection: None }
    }

    /// Appends a loaded document and returns its stable index.
    pub fn add_document(&mut self, d: Document) -> (idx: usize)
        requires
            old(self).wf(),
        ensures
            final(self).wf(),
            idx == old(self).documents@.len(),
            final(self).documents@ == old(self).documents@.push(d),
            final(self).selection == old(self).selection,
    {
        let idx = self.documents.len();
        self.documents.push(d);
        idx
    }

    /// How many documents are open.
    pub fn document_count(&self) -> (n: usize)
        ensures
            n == self.documents@.len(),
    {
        self.documents.len()
    }

    /// The document at index `i`, if any; the codec boundary reads it to
    /// produce bytes.
    pub fn document_at(&self, i: usize) -> (r: Option<&Document>)
        ensures
            match r {
                Some(d) => i < self.documents@.len() && *d == self.documents@[i as int],
                None => i >= self.documents@.len(),
            },
    {
        if i < self.documents.len() {
            Some(&self.documents[i])
        } else {
            None
        }
    }

    /// Resolves `path` inside document `doc_index` and makes the result
    /// the current selection. On any failure the previous selection is
    /// left intact and the documents are untouched.
    pub fn select(&mut self, doc_index: usize, path: &Vec<PathStep>) -> (r: Result<(), EditError>)
        requires
            old(self).wf(),
        ensures
            final(self).wf(),
            final(self).documents == old(self).documents,
            match r {
                Ok(()) => {
                    &&& doc_index < final(self).documents@.len()
                    &&& final(self).selection is Some
                    &&& {
                        let sel = final(self).selection->Some_0;
                        &&& sel.doc_index == doc_index
                        &&& path_view(sel.editable.path@) == path_view(path@)
                        &&& Some(sel.editable.value@) == doc_lookup(
                            final(self).documents@[doc_index as int]@,
                            path_view(path@),
                        )
                    }
                },
                Err(e) => {
                    &&& e == EditError::PathNotFound
                    &&& doc_index < final(self).documents@.len() ==> doc_lookup(
                        final(self).documents@[doc_index as int]@,
                        path_view(path@),
                    ) is None
                    &&& final(self).selection == old(self).selection
                },
            },
    {
        if doc_index >= self.documents.len() {
            return Err(EditError::PathNotFound);
        }
        match locate(&self.documents[doc_index], path) {
            Ok(ev) => {
                self.selection = Some(CurrentSelection { doc_index, editable: ev });
                Ok(())
            },
            Err(e) => Err(e),
        }
    }

    /// Commits `nv` through the active selection: the selected document
    /// is replaced by its path-updated copy, every other document is
    /// untouched, and the selection stays active on the same path with
    /// `nv` as its snapshot value. With no active selection, nothing
    /// changes and the edit is rejected.
    pub fn apply_edit(&mut self, nv: Value) -> (r: Result<(), EditError>)
        requires
            old(self).wf(),
        ensures
            final(self).wf(),
            match r {
                Ok(()) => {
                    &&& old(self).selection is Some
                    &&& {
                        let sel = old(self).selection->Some_0;
                        let idx = sel.doc_index as int;
                        &&& final(self).documents@.len() == old(self).documents@.len()
                        &&& final(self).documents@[idx]@ == doc_update(
                            old(self).documents@[idx]@,
                            path_view(sel.editable.path@),
                            val_view(nv),
                        )
                        &&& forall|j: int|
                            0 <= j < final(self).documents@.len() && j != idx
                                ==> final(self).documents@[j] == old(self).documents@[j]
                        &&& final(self).selection is Some
                        &&& final(self).selection->Some_0.doc_index == sel.doc_index
                        &&& path_view(final(self).selection->Some_0.editable.path@) == path_view(
                            sel.editable.path@,
                        )
                        &&& final(self).selection->Some_0.editable.value@ == val_view(nv)
                    }
                },
                Err(e) => {
                    &&& e == EditError::NoActiveSelection
                    &&& old(self).selection is None
                    &&& final(self).documents == old(self).documents
                    &&& final(self).selection == old(self).selection
                },
            },
    {
        let (idx, newpath, nv2, newdoc) = match &self.selection {
            None => {
                return Err(EditError::NoActiveSelection);
            },
            Some(sel) => {
                let idx = sel.doc_index;
                let newpath = copy_path(&sel.editable.path);
                let nv2 = nv.deep_copy();
                let newdoc = sel.editable.commit(nv);
                (idx, newpath, nv2, newdoc)
            },
        };
        let ghost oldsel = old(self).selection->Some_0;
        let ghost olddocs = self.documents@;
        let newdoc2 = newdoc.deep_copy();
        self.documents.remove(idx);
        self.documents.insert(idx, newdoc);
        self.selection = Some(
            CurrentSelection {
                doc_index: idx,
                editable: EditableValue { value: nv2, path: newpath, snapshot: newdoc2 },
            },
        );
        proof {
            assert(self.documents@ =~= olddocs.update(idx as int, newdoc));
            lemma_commit_at(
                oldsel.editable.snapshot@,
                path_view(oldsel.editable.path@),
                val_view(nv),
            );
        }
        Ok(())
    }
}

} // verus!
