use vstd::prelude::*;

verus! {

/// A layer of a document, as the document's logic sees it: its name, whether
/// it takes part in drawing and compositing, and whether it was created
/// filled with opaque white (the background) rather than transparent. Its
/// pixels live with the program that renders them.
pub struct Layer {
    pub name: String,
    pub visible: bool,
    pub fill_white: bool,
}

/// The mathematical value of a layer.
pub struct LayerView {
    pub name: Seq<char>,
    pub visible: bool,
    pub fill_white: bool,
}

impl View for Layer {
    type V = LayerView;

    open spec fn view(&self) -> LayerView {
        LayerView { name: self.name@, visible: self.visible, fill_white: self.fill_white }
    }
}

impl Layer {
    /// A visible layer named `name`, created white when `fill_white` holds
    /// and transparent otherwise.
    pub fn new(name: &str, fill_white: bool) -> (l: Layer)
        ensures
            l@ == (LayerView { name: name@, visible: true, fill_white }),
    {
        Layer { name: String::from_str(name), visible: true, fill_white }
    }
}

} // verus!
