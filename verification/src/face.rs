//! Faces: which cuts a sheet needs, how a run is split between the primary
//! and the fallback face, sfnt name parsing, and shaped-run metrics.

pub mod fallback;
pub mod parse;
pub mod shape;
pub mod shaper;

use vstd::prelude::*;

verus! {

/// Named text voice. The sheet writes these; the face table says what they are.
/// Display voices are [`DisplayCut`]: a Light paragraph or a Mono masthead is
/// unrepresentable.
#[derive(Debug, Clone, Copy, PartialEq, Eq, Structural)]
pub enum Cut {
    Roman,
    Italic,
    Bold,
    BoldItalic,
    Mono,
}

/// Named display voice. Only a mark speaks at display size.
#[derive(Debug, Clone, Copy, PartialEq, Eq, Structural)]
pub enum DisplayCut {
    Roman,
    Light,
}

/// Optical slot a PostScript name fills. One name may fill text and display
/// (Helvetica Regular is both Roman voices).
#[derive(Debug, Clone, Copy, PartialEq, Eq, Structural)]
pub enum Voice {
    Text(Cut),
    Display(DisplayCut),
    Both(Cut, DisplayCut),
}

/// Position of a text cut in [`Cut::ALL`].
pub open spec fn cut_index(cut: Cut) -> int {
    match cut {
        Cut::Roman => 0,
        Cut::Italic => 1,
        Cut::Bold => 2,
        Cut::BoldItalic => 3,
        Cut::Mono => 4,
    }
}

/// Position of a display cut in [`DisplayCut::ALL`].
pub open spec fn display_cut_index(cut: DisplayCut) -> int {
    match cut {
        DisplayCut::Roman => 0,
        DisplayCut::Light => 1,
    }
}

/// The name a text cut prints as.
pub open spec fn cut_name(cut: Cut) -> Seq<char> {
    match cut {
        Cut::Roman => "Roman"@,
        Cut::Italic => "Italic"@,
        Cut::Bold => "Bold"@,
        Cut::BoldItalic => "BoldItalic"@,
        Cut::Mono => "Mono"@,
    }
}

/// The name a display cut prints as.
pub open spec fn display_cut_name(cut: DisplayCut) -> Seq<char> {
    match cut {
        DisplayCut::Roman => "Roman"@,
        DisplayCut::Light => "Light"@,
    }
}

impl Cut {
    pub const COUNT: usize = 5;

    pub const ALL: [Cut; 5] = [Cut::Roman, Cut::Italic, Cut::Bold, Cut::BoldItalic, Cut::Mono];

    /// Position in [`Cut::ALL`].
    pub fn index(self) -> (r: usize)
        ensures
            r == cut_index(self),
    {
        match self {
            Cut::Roman => 0,
            Cut::Italic => 1,
            Cut::Bold => 2,
            Cut::BoldItalic => 3,
            Cut::Mono => 4,
        }
    }

    /// The name the cut prints as.
    pub fn name(self) -> (r: &'static str)
        ensures
            r@ == cut_name(self),
    {
        match self {
            Cut::Roman => "Roman",
            Cut::Italic => "Italic",
            Cut::Bold => "Bold",
            Cut::BoldItalic => "BoldItalic",
            Cut::Mono => "Mono",
        }
    }
}

impl DisplayCut {
    pub const COUNT: usize = 2;

    pub const ALL: [DisplayCut; 2] = [DisplayCut::Roman, DisplayCut::Light];

    /// Position in [`DisplayCut::ALL`].
    pub fn index(self) -> (r: usize)
        ensures
            r == display_cut_index(self),
    {
        match self {
            DisplayCut::Roman => 0,
            DisplayCut::Light => 1,
        }
    }

    /// The name the cut prints as.
    pub fn name(self) -> (r: &'static str)
        ensures
            r@ == display_cut_name(self),
    {
        match self {
            DisplayCut::Roman => "Roman",
            DisplayCut::Light => "Light",
        }
    }
}

/// Required cuts collected from a checked sheet before faces are resolved.
#[derive(Debug, Clone, Copy, PartialEq, Eq)]
pub struct FaceRequirements {
    pub text: [bool; 5],
    pub display: [bool; 2],
}

impl Default for FaceRequirements {
    /// Nothing required.
    fn default() -> (r: FaceRequirements)
        ensures
            forall|i: int| 0 <= i < 5 ==> !r.text@[i],
            forall|i: int| 0 <= i < 2 ==> !r.display@[i],
    {
        FaceRequirements { text: [false, false, false, false, false], display: [false, false] }
    }
}

impl FaceRequirements {
    /// Records that `cut` is required; nothing else changes.
    pub fn need_text(&mut self, cut: Cut)
        ensures
            final(self).text@ == old(self).text@.update(cut_index(cut), true),
            final(self).display@ == old(self).display@,
    {
        self.text[cut.index()] = true;
    }

    /// Records that `cut` is required; nothing else changes.
    pub fn need_display(&mut self, cut: DisplayCut)
        ensures
            final(self).display@ == old(self).display@.update(display_cut_index(cut), true),
            final(self).text@ == old(self).text@,
    {
        self.display[cut.index()] = true;
    }

    /// Whether `cut` is required.
    pub fn needs_text(&self, cut: Cut) -> (r: bool)
        ensures
            r == self.text@[cut_index(cut)],
    {
        self.text[cut.index()]
    }

    /// Whether `cut` is required.
    pub fn needs_display(&self, cut: DisplayCut) -> (r: bool)
        ensures
            r == self.display@[display_cut_index(cut)],
    {
        self.display[cut.index()]
    }
}

/// A text requirement once recorded is reported, and recording one cut
/// leaves every other cut as it was.
pub proof fn lemma_need_then_needs(before: FaceRequirements, after: FaceRequirements, cut: Cut, other: Cut)
    requires
        after.text@ == before.text@.update(cut_index(cut), true),
    ensures
        after.text@[cut_index(cut)],
        other != cut ==> after.text@[cut_index(other)] == before.text@[cut_index(other)],
{
}

/// A display requirement once recorded is reported, and recording one cut
/// leaves every other cut as it was.
pub proof fn lemma_need_then_needs_display(
    before: FaceRequirements,
    after: FaceRequirements,
    cut: DisplayCut,
    other: DisplayCut,
)
    requires
        after.display@ == before.display@.update(display_cut_index(cut), true),
    ensures
        after.display@[display_cut_index(cut)],
        other != cut ==> after.display@[display_cut_index(other)] == before.display@[display_cut_index(other)],
{
}

/// The PostScript name of house entry `i`.
pub open spec fn house_name(i: int) -> Seq<char> {
    if i == 0 {
        "Helvetica"@
    } else if i == 1 {
        "Helvetica-Bold"@
    } else if i == 2 {
        "Helvetica-Oblique"@
    } else if i == 3 {
        "Helvetica-BoldOblique"@
    } else if i == 4 {
        "Helvetica-Light"@
    } else {
        "Menlo-Regular"@
    }
}

/// The voice house entry `i` fills.
pub open spec fn house_voice(i: int) -> Voice {
    if i == 0 {
        Voice::Both(Cut::Roman, DisplayCut::Roman)
    } else if i == 1 {
        Voice::Text(Cut::Bold)
    } else if i == 2 {
        Voice::Text(Cut::Italic)
    } else if i == 3 {
        Voice::Text(Cut::BoldItalic)
    } else if i == 4 {
        Voice::Display(DisplayCut::Light)
    } else {
        Voice::Text(Cut::Mono)
    }
}

/// House names: the parse from a collection face's PostScript name onto its
/// voice. Paths stay with the program that reads the files.
pub fn house() -> (r: Vec<(&'static str, Voice)>)
    ensures
        r@.len() == 6,
        forall|i: int| 0 <= i < 6 ==> #[trigger] r@[i].0@ == house_name(i) && r@[i].1 == house_voice(i),
{
    let mut v: Vec<(&'static str, Voice)> = Vec::new();
    v.push(("Helvetica", Voice::Both(Cut::Roman, DisplayCut::Roman)));
    v.push(("Helvetica-Bold", Voice::Text(Cut::Bold)));
    v.push(("Helvetica-Oblique", Voice::Text(Cut::Italic)));
    v.push(("Helvetica-BoldOblique", Voice::Text(Cut::BoldItalic)));
    v.push(("Helvetica-Light", Voice::Display(DisplayCut::Light)));
    v.push(("Menlo-Regular", Voice::Text(Cut::Mono)));
    v
}

/// No PostScript name stands twice in the house table.
pub proof fn lemma_house_names_unique()
    ensures
        forall|i: int, j: int| 0 <= i < j < 6 ==> #[trigger] house_name(i) != #[trigger] house_name(j),
{
    reveal_strlit("Helvetica");
    reveal_strlit("Helvetica-Bold");
    reveal_strlit("Helvetica-Oblique");
    reveal_strlit("Helvetica-BoldOblique");
    reveal_strlit("Helvetica-Light");
    reveal_strlit("Menlo-Regular");
    assert forall|i: int, j: int| 0 <= i < j < 6 implies #[trigger] house_name(i) != #[trigger] house_name(j) by {
        assert(house_name(i).len() != house_name(j).len());
    }
}

} // verus!
