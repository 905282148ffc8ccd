use vstd::prelude::*;
use crate::text::str_equal;

verus! {

/// What a stroke does to the active layer: lay down paint or wipe it away.
#[derive(Clone, Copy, PartialEq, Eq, Structural, Debug)]
pub enum Tool {
    Brush,
    Eraser,
}

/// The brush shapes the painting program offers.
#[derive(Clone, Copy, PartialEq, Eq, Structural, Debug)]
pub enum BrushKind {
    Round,
    Pencil,
    Ink,
    Marker,
    Airbrush,
    Spray,
    Calligraphy,
    Chalk,
}

/// The brushes in the order in which the brush list shows them.
pub open spec fn brush_order() -> Seq<BrushKind> {
    seq![
        BrushKind::Round,
        BrushKind::Pencil,
        BrushKind::Ink,
        BrushKind::Marker,
        BrushKind::Airbrush,
        BrushKind::Spray,
        BrushKind::Calligraphy,
        BrushKind::Chalk,
    ]
}

/// The label under which a brush is listed.
pub open spec fn brush_label(k: BrushKind) -> Seq<char> {
    match k {
        BrushKind::Round => "Pinceau rond"@,
        BrushKind::Pencil => "Crayon"@,
        BrushKind::Ink => "Encre"@,
        BrushKind::Marker => "Marqueur"@,
        BrushKind::Airbrush => "Aérographe"@,
        BrushKind::Spray => "Spray"@,
        BrushKind::Calligraphy => "Calligraphie"@,
        BrushKind::Chalk => "Craie"@,
    }
}

/// The brush whose label is `label`, if any.
pub open spec fn brush_with_label(label: Seq<char>) -> Option<BrushKind> {
    if exists|k: BrushKind| brush_label(k) == label {
        Some(choose|k: BrushKind| brush_label(k) == label)
    } else {
        None
    }
}

proof fn reveal_brush_labels()
    ensures
        "Pinceau rond"@ =~= seq!['P', 'i', 'n', 'c', 'e', 'a', 'u', ' ', 'r', 'o', 'n', 'd'],
        "Crayon"@ =~= seq!['C', 'r', 'a', 'y', 'o', 'n'],
        "Encre"@ =~= seq!['E', 'n', 'c', 'r', 'e'],
        "Marqueur"@ =~= seq!['M', 'a', 'r', 'q', 'u', 'e', 'u', 'r'],
        "Aérographe"@ =~= seq!['A', 'é', 'r', 'o', 'g', 'r', 'a', 'p', 'h', 'e'],
        "Spray"@ =~= seq!['S', 'p', 'r', 'a', 'y'],
        "Calligraphie"@ =~= seq!['C', 'a', 'l', 'l', 'i', 'g', 'r', 'a', 'p', 'h', 'i', 'e'],
        "Craie"@ =~= seq!['C', 'r', 'a', 'i', 'e'],
{
    reveal_strlit("Pinceau rond");
    reveal_strlit("Crayon");
    reveal_strlit("Encre");
    reveal_strlit("Marqueur");
    reveal_strlit("Aérographe");
    reveal_strlit("Spray");
    reveal_strlit("Calligraphie");
    reveal_strlit("Craie");
}

/// No two brushes share a label.
pub proof fn lemma_brush_labels_distinct(a: BrushKind, b: BrushKind)
    ensures
        brush_label(a) == brush_label(b) ==> a == b,
{
    reveal_brush_labels();
    if brush_label(a) == brush_label(b) && a != b {
        let la = brush_label(a);
        let lb = brush_label(b);
        assert(la.len() == lb.len());
        assert(la[0] == lb[0]);
        assert(la[1] == lb[1]);
        assert(la[2] == lb[2]);
        assert(la[3] == lb[3]);
    }
}

/// Looking a brush up by its own label gives that brush back.
pub proof fn lemma_label_lookup_roundtrip(k: BrushKind)
    ensures
        brush_with_label(brush_label(k)) == Some(k),
{
    let l = brush_label(k);
    assert(brush_label(k) == l);
    let c = choose|j: BrushKind| brush_label(j) == l;
    lemma_brush_labels_distinct(c, k);
}

impl BrushKind {
    /// The label under which this brush is listed.
    pub fn label(self) -> (s: &'static str)
        ensures
            s@ == brush_label(self),
    {
        match self {
            BrushKind::Round => "Pinceau rond",
            BrushKind::Pencil => "Crayon",
            BrushKind::Ink => "Encre",
            BrushKind::Marker => "Marqueur",
            BrushKind::Airbrush => "Aérographe",
            BrushKind::Spray => "Spray",
            BrushKind::Calligraphy => "Calligraphie",
            BrushKind::Chalk => "Craie",
        }
    }

    /// Every brush with its label, in list order.
    pub fn all() -> (v: Vec<(BrushKind, &'static str)>)
        ensures
            v@.len() == brush_order().len(),
            forall|i: int| 0 <= i < v@.len() ==> (#[trigger] v@[i]).0 == brush_order()[i]
                && v@[i].1@ == brush_label(brush_order()[i]),
    {
        let mut v: Vec<(BrushKind, &'static str)> = Vec::new();
        v.push((BrushKind::Round, BrushKind::Round.label()));
        v.push((BrushKind::Pencil, BrushKind::Pencil.label()));
        v.push((BrushKind::Ink, BrushKind::Ink.label()));
        v.push((BrushKind::Marker, BrushKind::Marker.label()));
        v.push((BrushKind::Airbrush, BrushKind::Airbrush.label()));
        v.push((BrushKind::Spray, BrushKind::Spray.label()));
        v.push((BrushKind::Calligraphy, BrushKind::Calligraphy.label()));
        v.push((BrushKind::Chalk, BrushKind::Chalk.label()));
        v
    }

    /// The first brush in list order whose label is `label`.
    pub fn from_label(label: &str) -> (r: Option<BrushKind>)
        ensures
            r == brush_with_label(label@),
    {
        let all = BrushKind::all();
        let mut i: usize = 0;
        while i < all.len()
            invariant
                all@.len() == brush_order().len(),
                forall|j: int| 0 <= j < all@.len() ==> (#[trigger] all@[j]).0 == brush_order()[j]
                    && all@[j].1@ == brush_label(brush_order()[j]),
                i <= all@.len(),
                forall|j: int| 0 <= j < i ==> brush_label(brush_order()[j]) != label@,
            decreases all@.len() - i,
        {
            let (k, l) = all[i];
            if str_equal(l, label) {
                proof {
                    lemma_label_lookup_roundtrip(k);
                }
                return Some(k);
            }
            i = i + 1;
        }
        proof {
            assert forall|k: BrushKind| brush_label(k) != label@ by {
                match k {
                    BrushKind::Round => assert(brush_order()[0] == k),
                    BrushKind::Pencil => assert(brush_order()[1] == k),
                    BrushKind::Ink => assert(brush_order()[2] == k),
                    BrushKind::Marker => assert(brush_order()[3] == k),
                    BrushKind::Airbrush => assert(brush_order()[4] == k),
                    BrushKind::Spray => assert(brush_order()[5] == k),
                    BrushKind::Calligraphy => assert(brush_order()[6] == k),
                    BrushKind::Chalk => assert(brush_order()[7] == k),
                }
            }
        }
        None
    }
}

} // verus!
