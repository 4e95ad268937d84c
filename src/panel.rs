//! The picker's control panel and the names it shows.
use vstd::prelude::*;
use crate::geometry::TextDirection;

verus! {

/// The side panel of the picker: confirm and cancel, the selection
/// switch, the label's direction and colour, and the colour variation.
#[derive(Clone, Copy, Debug, PartialEq, Eq, Structural)]
pub struct ControlPanel;

impl ControlPanel {
    pub fn new() -> (r: ControlPanel)
        ensures
            r == ControlPanel,
    {
        ControlPanel
    }
}

impl TextDirection {
    pub open spec fn spec_name(self) -> Seq<char> {
        match self {
            TextDirection::Up => seq!['U', 'p'],
            TextDirection::Down => seq!['D', 'o', 'w', 'n'],
            TextDirection::Left => seq!['L', 'e', 'f', 't'],
            TextDirection::Right => seq!['R', 'i', 'g', 'h', 't'],
        }
    }

    /// The direction's name as the panel shows it.
    pub fn as_str(&self) -> (r: &'static str)
        ensures
            r@ == self.spec_name(),
    {
        proof {
            reveal_strlit("Up");
            reveal_strlit("Down");
            reveal_strlit("Left");
            reveal_strlit("Right");
        }
        let r = match self {
            TextDirection::Up => "Up",
            TextDirection::Down => "Down",
            TextDirection::Left => "Left",
            TextDirection::Right => "Right",
        };
        assert(r@ =~= self.spec_name());
        r
    }
}

} // verus!
