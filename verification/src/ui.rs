use vstd::prelude::*;

verus! {

/// The two fonts the game draws text with.
#[derive(PartialEq, Eq, Structural, Clone, Copy, Debug)]
pub enum Font {
    Ui,
    Title,
}

impl Font {
    pub open spec fn id_spec(self) -> usize {
        match self {
            Font::Ui => 0,
            Font::Title => 1,
        }
    }

    /// Index of the font in the list the text renderer was built with.
    pub fn id(self) -> (id: usize)
        ensures
            id == self.id_spec(),
    {
        match self {
            Font::Ui => 0,
            Font::Title => 1,
        }
    }
}

#[derive(PartialEq, Eq, Structural, Clone, Copy, Debug)]
pub enum TextAlignment {
    Default,
    Center,
    HorizontalRight,
}

/// The pictures in the user interface texture.
#[derive(PartialEq, Eq, Structural, Clone, Copy, Debug)]
pub enum Image {
    BuildPump,
    BuildArmoury,
    RecruitEngineer,
    RecruitMouseMarine,
    SetRecruitmentWaypoint,
    CheeseCoins,
}

/// The buttons of the ability bar.
#[derive(PartialEq, Eq, Structural, Clone, Copy, Debug)]
pub enum Button {
    BuildPump,
    BuildArmoury,
    RecruitEngineer,
    RecruitMouseMarine,
    SetRecruitmentWaypoint,
}

} // verus!
