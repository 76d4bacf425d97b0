use vstd::prelude::*;

use crate::dimension::Dimen;

verus! {

/// A font: the name of its metric file, and the size it is used at.
#[derive(Clone, PartialEq, Eq, Hash, Debug)]
pub struct Font {
    pub font_name: String,
    pub scale: Dimen,
}

pub struct FontView {
    pub font_name: Seq<char>,
    pub scale: Dimen,
}

impl View for Font {
    type V = FontView;

    open spec fn view(&self) -> FontView {
        FontView { font_name: self.font_name@, scale: self.scale }
    }
}

impl Font {
    /// A font equal to this one.
    pub fn duplicate(&self) -> (f: Font)
        ensures
            f@ == self@,
    {
        Font { font_name: self.font_name.clone(), scale: self.scale }
    }
}

} // verus!
