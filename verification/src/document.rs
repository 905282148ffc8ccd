use vstd::prelude::*;
use crate::brush::{BrushKind, Tool};
use crate::layer::{Layer, LayerView};
use crate::stroke::{plan_of, stroke_plan_for, StrokePlan};
use crate::text::{decimal, decimal_string, is_digit, lemma_decimal_then_separator};

verus! {

/// How a cleared layer is left.
#[derive(Clone, Copy, PartialEq, Eq, Structural, Debug)]
pub enum LayerFill {
    /// Every pixel fully transparent.
    Transparent,
    /// Every pixel opaque white.
    White,
}

/// The name of the background layer every document starts with.
pub open spec fn background_name() -> Seq<char> {
    "Arrière-plan"@
}

/// The name given to the `n`-th layer when none is chosen.
pub open spec fn default_layer_name(n: nat) -> Seq<char> {
    "Calque "@ + decimal(n)
}

/// The mathematical value of a document.
pub struct DocumentView {
    pub title: Seq<char>,
    pub width: int,
    pub height: int,
    pub layers: Seq<LayerView>,
    pub active: int,
    pub tool: Tool,
    pub brush_kind: BrushKind,
}

impl DocumentView {
    /// A document always has a layer, and its active index names one.
    pub open spec fn wf(self) -> bool {
        &&& self.layers.len() >= 1
        &&& 0 <= self.active < self.layers.len()
    }

    /// A new document: only a visible background layer, which is active, and
    /// the round brush.
    pub open spec fn fresh(title: Seq<char>, width: int, height: int) -> DocumentView {
        DocumentView {
            title,
            width,
            height,
            layers: seq![LayerView { name: background_name(), visible: true, fill_white: true }],
            active: 0,
            tool: Tool::Brush,
            brush_kind: BrushKind::Round,
        }
    }

    /// The name a new layer gets: the chosen one, or the default for the
    /// position it will take.
    pub open spec fn new_layer_name(self, chosen: Option<Seq<char>>) -> Seq<char> {
        match chosen {
            Some(n) => n,
            None => default_layer_name(self.layers.len() + 1),
        }
    }

    /// A visible layer named `name` put on top of the stack, and made active.
    pub open spec fn with_layer_added(self, name: Seq<char>) -> DocumentView {
        DocumentView {
            layers: self.layers.push(LayerView { name, visible: true, fill_white: false }),
            active: self.layers.len() as int,
            ..self
        }
    }

    /// The active layer taken out, unless it is the only one; the active
    /// index then stays where it was, or falls back to the new top layer.
    pub open spec fn with_active_removed(self) -> DocumentView {
        if self.layers.len() > 1 {
            let layers = self.layers.remove(self.active);
            DocumentView {
                layers,
                active: if self.active >= layers.len() { layers.len() - 1 } else { self.active },
                ..self
            }
        } else {
            self
        }
    }

    /// How clearing leaves the active layer: as it was created, white for
    /// the background layer and transparent for a layer added later.
    pub open spec fn clear_fill(self) -> Option<LayerFill> {
        if 0 <= self.active < self.layers.len() {
            if self.layers[self.active].fill_white {
                Some(LayerFill::White)
            } else {
                Some(LayerFill::Transparent)
            }
        } else {
            None
        }
    }

    /// The stroke made on the active layer; none when that layer is hidden.
    pub open spec fn stroke(self) -> Option<StrokePlan> {
        if 0 <= self.active < self.layers.len() && self.layers[self.active].visible {
            Some(plan_of(self.tool, self.brush_kind))
        } else {
            None
        }
    }

    /// The text that describes the active layer: its position counted from
    /// one, the number of layers and its name.
    pub open spec fn layer_info(self) -> Option<Seq<char>> {
        if 0 <= self.active < self.layers.len() {
            Some("Calque actif ("@ + decimal((self.active + 1) as nat) + "/"@
                + decimal(self.layers.len()) + ") : "@ + self.layers[self.active].name)
        } else {
            None
        }
    }

    /// The indices of the visible layers, bottom first: the layers that
    /// compositing paints, in the order it paints them.
    pub open spec fn visible_layers(self) -> Seq<int> {
        Seq::new(self.layers.len(), |i: int| i).filter(|i: int| self.layers[i].visible)
    }
}

/// Adding a layer and then removing the active layer gives back the layers
/// the document had, with the top one of them active.
pub proof fn lemma_remove_undoes_add(d: DocumentView, name: Seq<char>)
    requires
        d.wf(),
    ensures
        d.with_layer_added(name).with_active_removed() == (DocumentView {
            active: d.layers.len() - 1,
            ..d
        }),
{
    let a = d.with_layer_added(name);
    assert(a.layers.remove(a.active) =~= d.layers);
}

/// Adding a layer makes one more; removing the active layer makes one fewer
/// unless it is the only one, which stays.
pub proof fn lemma_layer_count(d: DocumentView, name: Seq<char>)
    requires
        d.wf(),
    ensures
        d.with_layer_added(name).layers.len() == d.layers.len() + 1,
        d.layers.len() > 1 ==> d.with_active_removed().layers.len() == d.layers.len() - 1,
        d.layers.len() == 1 ==> d.with_active_removed().layers == d.layers,
{
}

/// Both layer operations keep a document well formed, and the new layer is
/// the active one.
pub proof fn lemma_layer_operations_keep_wf(d: DocumentView, name: Seq<char>)
    requires
        d.wf(),
    ensures
        d.with_layer_added(name).wf(),
        d.with_layer_added(name).layers[d.with_layer_added(name).active].name == name,
        d.with_active_removed().wf(),
{
}

/// Adding a layer keeps every existing layer where it was and puts the new
/// one, visible and transparent, on top, where it becomes active; nothing
/// else of the document changes.
pub proof fn lemma_add_puts_layer_on_top(d: DocumentView, name: Seq<char>)
    ensures
        ({
            let a = d.with_layer_added(name);
            &&& a.layers.len() == d.layers.len() + 1
            &&& forall|i: int| 0 <= i < d.layers.len() ==> #[trigger] a.layers[i] == d.layers[i]
            &&& a.layers[d.layers.len() as int].name == name
            &&& a.layers[d.layers.len() as int].visible
            &&& !a.layers[d.layers.len() as int].fill_white
            &&& a.active == d.layers.len()
            &&& a.title == d.title && a.width == d.width && a.height == d.height
            &&& a.tool == d.tool && a.brush_kind == d.brush_kind
        }),
{
}

/// A new document holds one visible background layer "Arrière-plan",
/// created white and active, with the brush tool and the round brush, under
/// the title and size it was made with.
pub proof fn lemma_fresh_document(title: Seq<char>, width: int, height: int)
    ensures
        ({
            let d = DocumentView::fresh(title, width, height);
            &&& d.title == title && d.width == width && d.height == height
            &&& d.layers.len() == 1
            &&& d.layers[0].name == "Arrière-plan"@
            &&& d.layers[0].visible
            &&& d.layers[0].fill_white
            &&& d.active == 0
            &&& d.tool == Tool::Brush
            &&& d.brush_kind == BrushKind::Round
            &&& d.wf()
        }),
{
}

/// The default names of layers at different positions differ, and each
/// starts with "Calque ".
pub proof fn lemma_default_layer_names(n: nat, m: nat)
    ensures
        default_layer_name(n).take(7) == "Calque "@,
        n != m ==> default_layer_name(n) != default_layer_name(m),
{
    reveal_strlit("Calque ");
    assert(default_layer_name(n).take(7) =~= "Calque "@);
    if default_layer_name(n) == default_layer_name(m) {
        assert(default_layer_name(n).skip(7) =~= decimal(n));
        assert(default_layer_name(m).skip(7) =~= decimal(m));
        crate::text::lemma_decimal_injective(n, m);
    }
}

/// A stroke is drawn exactly when the active layer is visible, and it is
/// the one the tool and brush make.
pub proof fn lemma_stroke_needs_visible_layer(d: DocumentView)
    requires
        d.wf(),
    ensures
        d.stroke() is None <==> !d.layers[d.active].visible,
        d.stroke() is Some ==> d.stroke()->0 == plan_of(d.tool, d.brush_kind),
{
}

/// Clearing gives a layer back the fill it was created with: the background
/// of a new document turns white, a layer added later turns transparent,
/// wherever it stands in the stack.
pub proof fn lemma_clear_restores_creation_fill(
    d: DocumentView,
    name: Seq<char>,
    title: Seq<char>,
    width: int,
    height: int,
)
    requires
        d.wf(),
    ensures
        DocumentView::fresh(title, width, height).clear_fill() == Some(LayerFill::White),
        d.with_layer_added(name).clear_fill() == Some(LayerFill::Transparent),
        d.clear_fill() == Some(
            if d.layers[d.active].fill_white { LayerFill::White } else { LayerFill::Transparent },
        ),
{
}

/// Removing the active layer of a document with more than one layer drops
/// exactly that layer, keeping the others in order; the active index stays
/// where it was when it still names a layer, and moves to the new top only
/// when the top layer was removed. Nothing else of the document changes.
pub proof fn lemma_remove_keeps_position(d: DocumentView)
    requires
        d.wf(),
        d.layers.len() > 1,
    ensures
        ({
            let r = d.with_active_removed();
            &&& r.layers.len() == d.layers.len() - 1
            &&& forall|i: int| 0 <= i < d.active ==> #[trigger] r.layers[i] == d.layers[i]
            &&& forall|i: int| d.active <= i < r.layers.len() ==> #[trigger] r.layers[i]
                == d.layers[i + 1]
            &&& d.active < d.layers.len() - 1 ==> r.active == d.active
            &&& d.active == d.layers.len() - 1 ==> r.active == d.layers.len() - 2
            &&& r.title == d.title && r.width == d.width && r.height == d.height
            &&& r.tool == d.tool && r.brush_kind == d.brush_kind
        }),
{
}

/// A filter keeps elements of the sequence, and keeps an increasing
/// sequence increasing.
proof fn lemma_filter_increasing(s: Seq<int>, pred: spec_fn(int) -> bool)
    requires
        forall|j: int, k: int| 0 <= j < k < s.len() ==> s[j] < s[k],
    ensures
        forall|a: int| 0 <= a < s.filter(pred).len() ==> s.contains(#[trigger] s.filter(pred)[a]),
        forall|a: int, b: int|
            0 <= a < b < s.filter(pred).len() ==> #[trigger] s.filter(pred)[a] < #[trigger] s.filter(
                pred,
            )[b],
    decreases s.len(),
{
    reveal_with_fuel(Seq::<_>::filter, 1);
    if s.len() > 0 {
        let t = s.drop_last();
        lemma_filter_increasing(t, pred);
        let f = s.filter(pred);
        let g = t.filter(pred);
        assert forall|a: int| 0 <= a < g.len() implies s.contains(#[trigger] g[a]) && g[a]
            < s.last() by {
            let j = choose|j: int| 0 <= j < t.len() && t[j] == g[a];
            assert(s[j] == g[a]);
            assert(s[j] < s[s.len() - 1]);
        }
        if pred(s.last()) {
            assert(f == g.push(s.last()));
            assert forall|a: int| 0 <= a < f.len() implies s.contains(#[trigger] f[a]) by {
                if a < g.len() {
                    assert(f[a] == g[a]);
                } else {
                    assert(s[s.len() - 1] == f[a]);
                }
            }
            assert forall|a: int, b: int| 0 <= a < b < f.len() implies #[trigger] f[a]
                < #[trigger] f[b] by {
                assert(f[a] == g[a]);
                if b < g.len() {
                    assert(f[b] == g[b]);
                }
            }
        } else {
            assert(f == g);
        }
    }
}

/// Compositing paints every visible layer and nothing else, each once,
/// bottom first: the indices it takes are visible layers in increasing
/// order, and every visible layer is among them.
pub proof fn lemma_visible_layers_exact(d: DocumentView)
    ensures
        forall|j: int| 0 <= j < d.visible_layers().len() ==> 0 <= #[trigger] d.visible_layers()[j]
            < d.layers.len() && d.layers[d.visible_layers()[j]].visible,
        forall|j: int, k: int|
            0 <= j < k < d.visible_layers().len() ==> #[trigger] d.visible_layers()[j]
                < #[trigger] d.visible_layers()[k],
        forall|i: int| 0 <= i < d.layers.len() && #[trigger] d.layers[i].visible ==> d.visible_layers().contains(i),
{
    broadcast use vstd::seq_lib::group_filter_ensures;

    let s = Seq::new(d.layers.len(), |i: int| i);
    let pred = |i: int| d.layers[i].visible;
    lemma_filter_increasing(s, pred);
    assert(d.visible_layers() == s.filter(pred));
    assert forall|i: int| 0 <= i < d.layers.len() && #[trigger] d.layers[i].visible implies d.visible_layers().contains(i) by {
        assert(s[i] == i);
        assert(pred(s[i]));
    }
    assert forall|j: int| 0 <= j < d.visible_layers().len() implies 0 <= #[trigger] d.visible_layers()[j]
        < d.layers.len() && d.layers[d.visible_layers()[j]].visible by {
        assert(s.contains(s.filter(pred)[j]));
        assert(pred(s.filter(pred)[j]));
    }
}

/// For a well formed document the description exists, starts with
/// "Calque actif (" and ends with the active layer's name.
pub proof fn lemma_layer_info_frame(d: DocumentView)
    requires
        d.wf(),
    ensures
        d.layer_info() is Some,
        ({
            let t = d.layer_info()->0;
            let name = d.layers[d.active].name;
            &&& t.len() >= 14 + name.len()
            &&& t.take(14) == "Calque actif ("@
            &&& t.skip(t.len() - name.len()) == name
        }),
{
    reveal_strlit("Calque actif (");
    let t = d.layer_info()->0;
    let name = d.layers[d.active].name;
    assert(t.take(14) =~= "Calque actif ("@);
    assert(t.skip(t.len() - name.len()) =~= name);
}

/// The description tells the active position and the number of layers
/// apart: two well formed documents whose descriptions agree have the same
/// active index and the same number of layers.
pub proof fn lemma_layer_info_tells_position_and_count(d: DocumentView, e: DocumentView)
    requires
        d.wf(),
        e.wf(),
        d.layer_info() == e.layer_info(),
    ensures
        d.active == e.active,
        d.layers.len() == e.layers.len(),
{
    reveal_strlit("Calque actif (");
    reveal_strlit("/");
    reveal_strlit(") : ");
    let p = "Calque actif ("@;
    let td = d.layer_info()->0;
    let te = e.layer_info()->0;
    let xd = "/"@ + decimal(d.layers.len()) + ") : "@ + d.layers[d.active].name;
    let xe = "/"@ + decimal(e.layers.len()) + ") : "@ + e.layers[e.active].name;
    assert(td =~= p + (decimal((d.active + 1) as nat) + xd));
    assert(te =~= p + (decimal((e.active + 1) as nat) + xe));
    assert(td.skip(14) =~= decimal((d.active + 1) as nat) + xd);
    assert(te.skip(14) =~= decimal((e.active + 1) as nat) + xe);
    assert(!is_digit(xd[0]));
    assert(!is_digit(xe[0]));
    lemma_decimal_then_separator((d.active + 1) as nat, (e.active + 1) as nat, xd, xe);
    let yd = ") : "@ + d.layers[d.active].name;
    let ye = ") : "@ + e.layers[e.active].name;
    assert(xd.skip(1) =~= decimal(d.layers.len()) + yd);
    assert(xe.skip(1) =~= decimal(e.layers.len()) + ye);
    assert(!is_digit(yd[0]));
    assert(!is_digit(ye[0]));
    lemma_decimal_then_separator(d.layers.len(), e.layers.len(), yd, ye);
}

/// A document: its title and canvas size, its stack of layers (bottom
/// first), the active layer, and the tool and brush that strokes use.
pub struct DocumentState {
    pub title: String,
    pub width: i32,
    pub height: i32,
    pub layers: Vec<Layer>,
    pub active_layer_idx: usize,
    pub tool: Tool,
    pub brush_kind: BrushKind,
}

impl View for DocumentState {
    type V = DocumentView;

    open spec fn view(&self) -> DocumentView {
        DocumentView {
            title: self.title@,
            width: self.width as int,
            height: self.height as int,
            layers: self.layers@.map_values(|l: Layer| l@),
            active: self.active_layer_idx as int,
            tool: self.tool,
            brush_kind: self.brush_kind,
        }
    }
}

impl DocumentState {
    /// A new document titled `title`, of `width` by `height` pixels.
    pub fn new(title: &str, width: i32, height: i32) -> (d: DocumentState)
        ensures
            d@ == DocumentView::fresh(title@, width as int, height as int),
            d@.wf(),
    {
        let mut layers: Vec<Layer> = Vec::new();
        layers.push(Layer::new("Arrière-plan", true));
        let d = DocumentState {
            title: String::from_str(title),
            width,
            height,
            layers,
            active_layer_idx: 0,
            tool: Tool::Brush,
            brush_kind: BrushKind::Round,
        };
        assert(d@.layers =~= DocumentView::fresh(title@, width as int, height as int).layers);
        d
    }

    /// The name a new layer gets: `chosen` if given, else "Calque " and the
    /// position the layer will take, counted from one.
    pub fn layer_name(&self, chosen: Option<&str>) -> (s: String)
        requires
            self.layers@.len() < usize::MAX,
        ensures
            s@ == self@.new_layer_name(match chosen { Some(c) => Some(c@), None => None }),
    {
        match chosen {
            Some(c) => String::from_str(c),
            None => {
                let n = self.layers.len() + 1;
                let mut s = String::from_str("Calque ");
                s.append(decimal_string(n).as_str());
                s
            },
        }
    }

    /// Puts a visible, transparent layer named `name` on top of the stack
    /// and makes it the active one.
    pub fn add_layer(&mut self, name: String)
        ensures
            final(self)@ == old(self)@.with_layer_added(name@),
            final(self)@.wf(),
    {
        self.layers.push(Layer { name, visible: true, fill_white: false });
        self.active_layer_idx = self.layers.len() - 1;
        assert(self@.layers =~= old(self)@.with_layer_added(name@).layers);
    }

    /// Takes the active layer out when more than one layer is left, and
    /// keeps the active index on a layer. Returns the index of the layer
    /// taken out.
    pub fn remove_active_layer(&mut self) -> (removed: Option<usize>)
        requires
            old(self).layers@.len() > 1 ==> old(self).active_layer_idx < old(self).layers@.len(),
        ensures
            final(self)@ == old(self)@.with_active_removed(),
            removed == (if old(self)@.layers.len() > 1 {
                Some(old(self).active_layer_idx)
            } else {
                None
            }),
            old(self)@.layers.len() <= 1 ==> final(self)@ == old(self)@,
            old(self)@.wf() ==> final(self)@.wf(),
    {
        if self.layers.len() > 1 {
            let active_idx = self.active_layer_idx;
            self.layers.remove(active_idx);
            if self.active_layer_idx >= self.layers.len() {
                self.active_layer_idx = self.layers.len() - 1;
            }
            assert(self@.layers =~= old(self)@.with_active_removed().layers);
            Some(active_idx)
        } else {
            None
        }
    }

    /// How clearing leaves the active layer, or `None` when the active index
    /// names no layer and nothing is cleared.
    pub fn clear_active_layer(&self) -> (fill: Option<LayerFill>)
        ensures
            fill == self@.clear_fill(),
    {
        let active_idx = self.active_layer_idx;
        if active_idx < self.layers.len() {
            if self.layers[active_idx].fill_white {
                Some(LayerFill::White)
            } else {
                Some(LayerFill::Transparent)
            }
        } else {
            None
        }
    }

    /// The stroke the current tool and brush make on the active layer, or
    /// `None` when the active layer is hidden (or missing) and nothing is
    /// drawn.
    pub fn stroke_plan(&self) -> (p: Option<StrokePlan>)
        ensures
            p == self@.stroke(),
    {
        if self.active_layer_idx >= self.layers.len() {
            return None;
        }
        if !self.layers[self.active_layer_idx].visible {
            return None;
        }
        Some(stroke_plan_for(self.tool, self.brush_kind))
    }

    /// The description of the active layer, as "Calque actif (i/n) : name".
    pub fn layer_info_text(&self) -> (s: Option<String>)
        ensures
            match s {
                Some(t) => self@.layer_info() == Some(t@),
                None => self@.layer_info() is None,
            },
    {
        if self.active_layer_idx < self.layers.len() {
            let mut s = String::from_str("Calque actif (");
            s.append(decimal_string(self.active_layer_idx + 1).as_str());
            s.append("/");
            s.append(decimal_string(self.layers.len()).as_str());
            s.append(") : ");
            s.append(self.layers[self.active_layer_idx].name.as_str());
            Some(s)
        } else {
            None
        }
    }

    /// The indices of the visible layers, bottom first.
    pub fn visible_layers(&self) -> (v: Vec<usize>)
        ensures
            v@.map_values(|i: usize| i as int) == self@.visible_layers(),
    {
        let mut v: Vec<usize> = Vec::new();
        let mut i: usize = 0;
        let ghost all = Seq::new(self@.layers.len(), |j: int| j);
        let ghost pred = |j: int| self@.layers[j].visible;
        while i < self.layers.len()
            invariant
                i <= self.layers@.len(),
                all == Seq::new(self@.layers.len(), |j: int| j),
                pred == (|j: int| self@.layers[j].visible),
                v@.map_values(|k: usize| k as int) == all.take(i as int).filter(pred),
            decreases self.layers@.len() - i,
        {
            proof {
                assert(all.take(i as int + 1).drop_last() =~= all.take(i as int));
                reveal_with_fuel(Seq::<_>::filter, 1);
            }
            if self.layers[i].visible {
                v.push(i);
            }
            assert(v@.map_values(|k: usize| k as int) =~= all.take(i as int + 1).filter(pred));
            i = i + 1;
        }
        assert(all.take(i as int) =~= all);
        v
    }

    /// Selects the tool that later strokes use.
    pub fn set_tool(&mut self, tool: Tool)
        ensures
            final(self)@ == (DocumentView { tool, ..old(self)@ }),
    {
        self.tool = tool;
    }

    /// Selects the brush that later strokes use.
    pub fn set_brush_kind(&mut self, kind: BrushKind)
        ensures
            final(self)@ == (DocumentView { brush_kind: kind, ..old(self)@ }),
    {
        self.brush_kind = kind;
    }
}

} // verus!
