use vstd::prelude::*;
use crate::brush::{brush_with_label, BrushKind, Tool};
use crate::document::{DocumentState, DocumentView, LayerFill};
use crate::stroke::StrokePlan;
use crate::text::{decimal, decimal_string, lemma_decimal_injective};

verus! {

/// The width of a new document, in pixels.
pub const NEW_DOCUMENT_WIDTH: i32 = 700;

/// The height of a new document, in pixels.
pub const NEW_DOCUMENT_HEIGHT: i32 = 500;

/// The title of the `n`-th document opened.
pub open spec fn document_title(n: nat) -> Seq<char> {
    "Image_"@ + decimal(n) + ".png"@
}

/// The mathematical value of the open documents.
pub struct WorkspaceView {
    pub doc_count: nat,
    pub documents: Seq<DocumentView>,
}

impl WorkspaceView {
    /// Every open document is well formed.
    pub open spec fn wf(self) -> bool {
        forall|i: int| 0 <= i < self.documents.len() ==> (#[trigger] self.documents[i]).wf()
    }

    /// Document `i` replaced by `d`; nothing changes when `i` names no
    /// document.
    pub open spec fn with_document(self, i: int, d: DocumentView) -> WorkspaceView {
        if 0 <= i < self.documents.len() {
            WorkspaceView { documents: self.documents.update(i, d), ..self }
        } else {
            self
        }
    }

    /// `ids` numbers the open documents: each is titled after its number,
    /// no number exceeds the count of documents opened, and the numbers grow
    /// along the documents.
    pub open spec fn numbered_by(self, ids: Seq<nat>) -> bool {
        &&& ids.len() == self.documents.len()
        &&& forall|i: int| 0 <= i < ids.len() ==> 1 <= #[trigger] ids[i] <= self.doc_count
            && self.documents[i].title == document_title(ids[i])
        &&& forall|i: int, j: int| 0 <= i < j < ids.len() ==> #[trigger] ids[i] < #[trigger] ids[j]
    }

    /// The open documents are titled "Image_n.png" with n growing along
    /// them and never above the count of documents opened.
    pub open spec fn titles_numbered(self) -> bool {
        exists|ids: Seq<nat>| self.numbered_by(ids)
    }

    /// Document `i` closed; the count of documents opened stays.
    pub open spec fn with_document_closed(self, i: int) -> WorkspaceView {
        if 0 <= i < self.documents.len() {
            WorkspaceView { documents: self.documents.remove(i), ..self }
        } else {
            self
        }
    }

    /// A new document opened after the others, titled after the count of
    /// documents opened so far.
    pub open spec fn with_tab_added(self) -> WorkspaceView {
        WorkspaceView {
            doc_count: self.doc_count + 1,
            documents: self.documents.push(
                DocumentView::fresh(
                    document_title(self.doc_count + 1),
                    NEW_DOCUMENT_WIDTH as int,
                    NEW_DOCUMENT_HEIGHT as int,
                ),
            ),
        }
    }
}

/// The documents the painting program has open, in tab order of opening,
/// and the number of documents opened so far.
pub struct AppState {
    pub doc_count: usize,
    pub documents: Vec<DocumentState>,
}

impl View for AppState {
    type V = WorkspaceView;

    open spec fn view(&self) -> WorkspaceView {
        WorkspaceView {
            doc_count: self.doc_count as nat,
            documents: self.documents@.map_values(|d: DocumentState| d@),
        }
    }
}

impl AppState {
    /// No document open, none opened yet.
    pub fn new() -> (s: AppState)
        ensures
            s@ == (WorkspaceView { doc_count: 0, documents: Seq::empty() }),
            s@.wf(),
            s@.titles_numbered(),
    {
        proof {
            lemma_empty_numbered();
        }
        let s = AppState { doc_count: 0, documents: Vec::new() };
        assert(s@.documents =~= Seq::<DocumentView>::empty());
        s
    }

    /// Opens a new document titled "Image_n.png", where n counts the
    /// documents opened so far, and returns its index.
    pub fn add_tab(&mut self) -> (idx: usize)
        requires
            old(self).doc_count < usize::MAX,
        ensures
            final(self)@ == old(self)@.with_tab_added(),
            idx == old(self)@.documents.len(),
            final(self)@.doc_count == old(self)@.doc_count + 1,
            old(self)@.wf() ==> final(self)@.wf(),
            old(self)@.titles_numbered() ==> final(self)@.titles_numbered(),
    {
        self.doc_count = self.doc_count + 1;
        let mut title = String::from_str("Image_");
        title.append(decimal_string(self.doc_count).as_str());
        title.append(".png");
        let doc = DocumentState::new(title.as_str(), NEW_DOCUMENT_WIDTH, NEW_DOCUMENT_HEIGHT);
        let idx = self.documents.len();
        self.documents.push(doc);
        assert(self@.documents =~= old(self)@.with_tab_added().documents);
        proof {
            lemma_tab_keeps_numbering(old(self)@);
        }
        idx
    }

    /// Selects the tool of document `page_idx`, if there is one.
    pub fn set_tool(&mut self, page_idx: usize, tool: Tool)
        ensures
            final(self)@ == old(self)@.with_document(
                page_idx as int,
                DocumentView { tool, ..old(self)@.documents[page_idx as int] },
            ),
            old(self)@.wf() ==> final(self)@.wf(),
            final(self)@.doc_count == old(self)@.doc_count,
            old(self)@.titles_numbered() ==> final(self)@.titles_numbered(),
    {
        if page_idx < self.documents.len() {
            self.documents[page_idx].set_tool(tool);
            assert(self@.documents =~= old(self)@.documents.update(
                page_idx as int,
                DocumentView { tool, ..old(self)@.documents[page_idx as int] },
            ));
        }
        proof {
            lemma_same_titles_keep_numbering(old(self)@, self@);
        }
    }

    /// Selects the brush of document `page_idx`, if there is one.
    pub fn set_brush_kind(&mut self, page_idx: usize, kind: BrushKind)
        ensures
            final(self)@ == old(self)@.with_document(
                page_idx as int,
                DocumentView { brush_kind: kind, ..old(self)@.documents[page_idx as int] },
            ),
            old(self)@.wf() ==> final(self)@.wf(),
            final(self)@.doc_count == old(self)@.doc_count,
            old(self)@.titles_numbered() ==> final(self)@.titles_numbered(),
    {
        if page_idx < self.documents.len() {
            self.documents[page_idx].set_brush_kind(kind);
            assert(self@.documents =~= old(self)@.documents.update(
                page_idx as int,
                DocumentView { brush_kind: kind, ..old(self)@.documents[page_idx as int] },
            ));
        }
        proof {
            lemma_same_titles_keep_numbering(old(self)@, self@);
        }
    }

    /// Selects, on document `page_idx`, the brush listed under `label`;
    /// nothing changes when no brush has that label or no such document is
    /// open.
    pub fn select_brush_label(&mut self, page_idx: usize, label: &str)
        ensures
            match brush_with_label(label@) {
                Some(k) => final(self)@ == old(self)@.with_document(
                    page_idx as int,
                    DocumentView { brush_kind: k, ..old(self)@.documents[page_idx as int] },
                ),
                None => final(self)@ == old(self)@,
            },
            old(self)@.wf() ==> final(self)@.wf(),
            final(self)@.doc_count == old(self)@.doc_count,
            old(self)@.titles_numbered() ==> final(self)@.titles_numbered(),
    {
        match BrushKind::from_label(label) {
            Some(kind) => self.set_brush_kind(page_idx, kind),
            None => {},
        }
    }

    /// The name the next layer of document `page_idx` gets, `chosen` or the
    /// default one; `None` when no such document is open.
    pub fn new_layer_name(&self, page_idx: usize, chosen: Option<&str>) -> (s: Option<String>)
        requires
            page_idx < self.documents@.len() ==> self.documents@[page_idx as int].layers@.len()
                < usize::MAX,
        ensures
            match s {
                Some(t) => page_idx < self@.documents.len() && t@
                    == self@.documents[page_idx as int].new_layer_name(
                    match chosen {
                        Some(c) => Some(c@),
                        None => None,
                    },
                ),
                None => page_idx >= self@.documents.len(),
            },
    {
        if page_idx < self.documents.len() {
            Some(self.documents[page_idx].layer_name(chosen))
        } else {
            None
        }
    }

    /// Puts a layer named `name` on top of document `page_idx` and makes it
    /// active, if that document is open.
    pub fn add_layer(&mut self, page_idx: usize, name: String)
        ensures
            final(self)@ == old(self)@.with_document(
                page_idx as int,
                old(self)@.documents[page_idx as int].with_layer_added(name@),
            ),
            old(self)@.wf() ==> final(self)@.wf(),
            final(self)@.doc_count == old(self)@.doc_count,
            old(self)@.titles_numbered() ==> final(self)@.titles_numbered(),
    {
        if page_idx < self.documents.len() {
            self.documents[page_idx].add_layer(name);
            assert(self@.documents =~= old(self)@.documents.update(
                page_idx as int,
                old(self)@.documents[page_idx as int].with_layer_added(name@),
            ));
        }
        proof {
            lemma_same_titles_keep_numbering(old(self)@, self@);
        }
    }

    /// Takes the active layer out of document `page_idx` when that document
    /// has more than one layer; returns the index of the layer taken out.
    pub fn remove_active_layer(&mut self, page_idx: usize) -> (removed: Option<usize>)
        requires
            page_idx < old(self)@.documents.len() && old(self)@.documents[page_idx as int].layers.len()
                > 1 ==> old(self)@.documents[page_idx as int].active
                < old(self)@.documents[page_idx as int].layers.len(),
        ensures
            final(self)@ == old(self)@.with_document(
                page_idx as int,
                old(self)@.documents[page_idx as int].with_active_removed(),
            ),
            removed == (if page_idx < old(self)@.documents.len()
                && old(self)@.documents[page_idx as int].layers.len() > 1 {
                Some(old(self).documents@[page_idx as int].active_layer_idx)
            } else {
                None
            }),
            old(self)@.wf() ==> final(self)@.wf(),
            final(self)@.doc_count == old(self)@.doc_count,
            old(self)@.titles_numbered() ==> final(self)@.titles_numbered(),
    {
        if page_idx < self.documents.len() {
            let removed = self.documents[page_idx].remove_active_layer();
            assert(self@.documents =~= old(self)@.documents.update(
                page_idx as int,
                old(self)@.documents[page_idx as int].with_active_removed(),
            ));
            proof {
                lemma_same_titles_keep_numbering(old(self)@, self@);
            }
            removed
        } else {
            None
        }
    }

    /// How clearing leaves the active layer of document `page_idx`; `None`
    /// when nothing is cleared.
    pub fn clear_active_layer(&self, page_idx: usize) -> (fill: Option<LayerFill>)
        ensures
            fill == (if page_idx < self@.documents.len() {
                self@.documents[page_idx as int].clear_fill()
            } else {
                None
            }),
    {
        if page_idx < self.documents.len() {
            self.documents[page_idx].clear_active_layer()
        } else {
            None
        }
    }

    /// The stroke that document `doc_idx` makes on its active layer; `None`
    /// when nothing is drawn.
    pub fn stroke_plan(&self, doc_idx: usize) -> (p: Option<StrokePlan>)
        ensures
            p == (if doc_idx < self@.documents.len() {
                self@.documents[doc_idx as int].stroke()
            } else {
                None
            }),
    {
        if doc_idx < self.documents.len() {
            self.documents[doc_idx].stroke_plan()
        } else {
            None
        }
    }

    /// The description of the active layer of document `page_idx`, or
    /// `None` when there is nothing to describe.
    pub fn layer_info(&self, page_idx: usize) -> (s: Option<String>)
        ensures
            match s {
                Some(t) => page_idx < self@.documents.len()
                    && self@.documents[page_idx as int].layer_info() == Some(t@),
                None => page_idx >= self@.documents.len()
                    || self@.documents[page_idx as int].layer_info() is None,
            },
    {
        if page_idx < self.documents.len() {
            self.documents[page_idx].layer_info_text()
        } else {
            None
        }
    }

    /// Closes document `page_idx`, if it is open; the count of documents
    /// opened stays, so later documents still get new titles.
    pub fn close_document(&mut self, page_idx: usize)
        ensures
            final(self)@ == old(self)@.with_document_closed(page_idx as int),
            final(self)@.doc_count == old(self)@.doc_count,
            old(self)@.wf() ==> final(self)@.wf(),
            old(self)@.titles_numbered() ==> final(self)@.titles_numbered(),
    {
        if page_idx < self.documents.len() {
            self.documents.remove(page_idx);
            assert(self@.documents =~= old(self)@.documents.remove(page_idx as int));
            proof {
                lemma_close_keeps_numbering(old(self)@, page_idx as int);
            }
        }
    }

    /// The title of document `page_idx`, if it is open.
    pub fn document_title(&self, page_idx: usize) -> (s: Option<String>)
        ensures
            match s {
                Some(t) => page_idx < self@.documents.len()
                    && t@ == self@.documents[page_idx as int].title,
                None => page_idx >= self@.documents.len(),
            },
    {
        if page_idx < self.documents.len() {
            Some(self.documents[page_idx].title.clone())
        } else {
            None
        }
    }
}

/// Different numbers give different titles.
pub proof fn lemma_document_title_injective(n: nat, m: nat)
    ensures
        document_title(n) == document_title(m) ==> n == m,
{
    reveal_strlit("Image_");
    reveal_strlit(".png");
    if document_title(n) == document_title(m) {
        let a = "Image_"@;
        let b = ".png"@;
        let tn = document_title(n);
        let tm = document_title(m);
        assert(tn.len() == a.len() + decimal(n).len() + b.len());
        assert(tm.len() == a.len() + decimal(m).len() + b.len());
        assert(tn.subrange(a.len() as int, tn.len() - b.len()) =~= decimal(n));
        assert(tm.subrange(a.len() as int, tm.len() - b.len()) =~= decimal(m));
        lemma_decimal_injective(n, m);
    }
}

/// Under a numbering, the open documents have pairwise different titles.
pub proof fn lemma_numbered_titles_distinct(w: WorkspaceView)
    requires
        w.titles_numbered(),
    ensures
        forall|i: int, j: int|
            0 <= i < j < w.documents.len() ==> #[trigger] w.documents[i].title
                != #[trigger] w.documents[j].title,
{
    let ids = choose|ids: Seq<nat>| w.numbered_by(ids);
    assert forall|i: int, j: int| 0 <= i < j < w.documents.len() implies #[trigger] w.documents[i].title
        != #[trigger] w.documents[j].title by {
        assert(ids[i] < ids[j]);
        lemma_document_title_injective(ids[i], ids[j]);
    }
}

/// No documents, none opened: numbered by the empty numbering.
pub proof fn lemma_empty_numbered()
    ensures
        (WorkspaceView { doc_count: 0, documents: Seq::empty() }).titles_numbered(),
{
    let w = WorkspaceView { doc_count: 0, documents: Seq::empty() };
    assert(w.numbered_by(Seq::<nat>::empty()));
}

/// Opening a tab keeps the documents numbered: the new one takes the next
/// number.
pub proof fn lemma_tab_keeps_numbering(w: WorkspaceView)
    ensures
        w.titles_numbered() ==> w.with_tab_added().titles_numbered(),
{
    if w.titles_numbered() {
        let ids = choose|ids: Seq<nat>| w.numbered_by(ids);
        let v = w.with_tab_added();
        let nids = ids.push(w.doc_count + 1);
        assert forall|i: int| 0 <= i < nids.len() implies 1 <= #[trigger] nids[i] <= v.doc_count
            && v.documents[i].title == document_title(nids[i]) by {
            if i < ids.len() {
                assert(nids[i] == ids[i]);
            }
        }
        assert forall|i: int, j: int| 0 <= i < j < nids.len() implies #[trigger] nids[i]
            < #[trigger] nids[j] by {
            if j < ids.len() {
                assert(nids[i] == ids[i] && nids[j] == ids[j]);
            } else {
                assert(nids[i] == ids[i]);
                assert(ids[i] <= w.doc_count);
            }
        }
        assert(v.numbered_by(nids));
    }
}

/// Closing a document keeps the others numbered.
pub proof fn lemma_close_keeps_numbering(w: WorkspaceView, k: int)
    ensures
        w.titles_numbered() ==> w.with_document_closed(k).titles_numbered(),
{
    if w.titles_numbered() && 0 <= k < w.documents.len() {
        let ids = choose|ids: Seq<nat>| w.numbered_by(ids);
        let v = w.with_document_closed(k);
        let nids = ids.remove(k);
        assert forall|i: int| 0 <= i < nids.len() implies 1 <= #[trigger] nids[i] <= v.doc_count
            && v.documents[i].title == document_title(nids[i]) by {
            if i < k {
                assert(nids[i] == ids[i]);
            } else {
                assert(nids[i] == ids[i + 1]);
            }
        }
        assert forall|i: int, j: int| 0 <= i < j < nids.len() implies #[trigger] nids[i]
            < #[trigger] nids[j] by {
            let i2 = if i < k { i } else { i + 1 };
            let j2 = if j < k { j } else { j + 1 };
            assert(nids[i] == ids[i2]);
            assert(nids[j] == ids[j2]);
        }
        assert(v.numbered_by(nids));
    }
}

/// A change that leaves the count and every title alone keeps the
/// documents numbered.
pub proof fn lemma_same_titles_keep_numbering(w: WorkspaceView, v: WorkspaceView)
    requires
        v.doc_count == w.doc_count,
        v.documents.len() == w.documents.len(),
        forall|i: int| 0 <= i < w.documents.len() ==> #[trigger] v.documents[i].title
            == w.documents[i].title,
    ensures
        w.titles_numbered() ==> v.titles_numbered(),
{
    if w.titles_numbered() {
        let ids = choose|ids: Seq<nat>| w.numbered_by(ids);
        assert(v.numbered_by(ids));
    }
}

/// A tab opened by `add_tab` holds a new 700 by 500 document titled after
/// the count of documents opened: one visible background layer
/// "Arrière-plan", created white and active, with the round brush; clearing
/// it makes it white again.
pub proof fn lemma_new_tab_is_fresh_document(w: WorkspaceView)
    ensures
        ({
            let d = w.with_tab_added().documents[w.documents.len() as int];
            &&& d.title == "Image_"@ + decimal(w.doc_count + 1) + ".png"@
            &&& d.width == 700 && d.height == 500
            &&& d.layers.len() == 1
            &&& d.layers[0].name == "Arrière-plan"@
            &&& d.layers[0].visible
            &&& d.layers[0].fill_white
            &&& d.active == 0
            &&& d.tool == Tool::Brush
            &&& d.brush_kind == BrushKind::Round
            &&& d.clear_fill() == Some(LayerFill::White)
        }),
{
}

/// A page action touches only its own page: the other documents, their
/// order and number, and the count of documents opened stay as they were;
/// an index that names no document changes nothing.
pub proof fn lemma_page_action_is_local(w: WorkspaceView, i: int, d: DocumentView)
    ensures
        ({
            let v = w.with_document(i, d);
            &&& v.doc_count == w.doc_count
            &&& v.documents.len() == w.documents.len()
            &&& forall|j: int| 0 <= j < w.documents.len() && j != i ==> #[trigger] v.documents[j]
                == w.documents[j]
            &&& 0 <= i < w.documents.len() ==> v.documents[i] == d
            &&& !(0 <= i < w.documents.len()) ==> v == w
        }),
{
}

/// Closing a document drops exactly that one: the documents before it stay,
/// those after it move down by one, and the count of documents opened stays.
pub proof fn lemma_close_drops_one(w: WorkspaceView, i: int)
    ensures
        ({
            let v = w.with_document_closed(i);
            &&& v.doc_count == w.doc_count
            &&& 0 <= i < w.documents.len() ==> v.documents.len() == w.documents.len() - 1
            &&& 0 <= i < w.documents.len() ==> forall|j: int| 0 <= j < i ==> #[trigger] v.documents[j]
                == w.documents[j]
            &&& 0 <= i < w.documents.len() ==> forall|j: int|
                i <= j < v.documents.len() ==> #[trigger] v.documents[j] == w.documents[j + 1]
            &&& !(0 <= i < w.documents.len()) ==> v == w
        }),
{
}

/// The `n`-th tab opened is titled "Image_n.png", and opening one more tab
/// never changes the documents already open.
pub proof fn lemma_tab_titles(w: WorkspaceView)
    ensures
        w.with_tab_added().documents.len() == w.documents.len() + 1,
        w.with_tab_added().documents[w.documents.len() as int].title
            == document_title(w.doc_count + 1),
        w.with_tab_added().documents.take(w.documents.len() as int) == w.documents,
        w.with_tab_added().doc_count == w.doc_count + 1,
{
    assert(w.with_tab_added().documents.take(w.documents.len() as int) =~= w.documents);
}

} // verus!
