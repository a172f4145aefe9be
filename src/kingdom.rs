use vstd::prelude::*;

verus! {

/// One of the two opposing sides of the arena.
///
/// Elven units advance toward larger lane positions, monster units toward
/// smaller ones.
#[derive(Clone, Copy, Debug, PartialEq, Eq, Structural)]
pub enum Kingdom {
    Elven,
    Monster,
}

impl Kingdom {
    pub open spec fn spec_opponent(self) -> Kingdom {
        match self {
            Kingdom::Elven => Kingdom::Monster,
            Kingdom::Monster => Kingdom::Elven,
        }
    }

    /// The opposing kingdom.
    pub fn opponent(self) -> (r: Kingdom)
        ensures
            r == self.spec_opponent(),
            r != self,
    {
        match self {
            Kingdom::Elven => Kingdom::Monster,
            Kingdom::Monster => Kingdom::Elven,
        }
    }
}

} // verus!
