//! Liquids that can stain a tile, and per-tile stain sets.

use vstd::prelude::*;

verus! {

/// A liquid that an action can spread onto a tile.
#[derive(Clone, Copy, PartialEq, Eq, Structural, Debug)]
pub enum Liquid {
    WATER,
    BLOOD,
    OIL,
}

impl Liquid {
    /// The liquid's display name.
    pub fn name(self) -> (r: String)
        ensures
            self is WATER ==> r@ == "water"@,
            self is BLOOD ==> r@ == "blood"@,
            self is OIL ==> r@ == "oil"@,
    {
        match self {
            Liquid::WATER => String::from_str("water"),
            Liquid::BLOOD => String::from_str("blood"),
            Liquid::OIL => String::from_str("oil"),
        }
    }
}

/// The set of liquids staining one tile, one flag per liquid.
#[derive(Clone, Copy, PartialEq, Eq, Structural, Debug)]
pub struct StainSet {
    pub water: bool,
    pub blood: bool,
    pub oil: bool,
}

impl StainSet {
    /// The stain set with no liquid present.
    pub open spec fn none() -> StainSet {
        StainSet { water: false, blood: false, oil: false }
    }

    /// Whether a given liquid is present.
    pub open spec fn spec_has(self, liquid: Liquid) -> bool {
        match liquid {
            Liquid::WATER => self.water,
            Liquid::BLOOD => self.blood,
            Liquid::OIL => self.oil,
        }
    }

    /// The set with one more liquid present.
    pub open spec fn with(self, liquid: Liquid) -> StainSet {
        match liquid {
            Liquid::WATER => StainSet { water: true, ..self },
            Liquid::BLOOD => StainSet { blood: true, ..self },
            Liquid::OIL => StainSet { oil: true, ..self },
        }
    }

    /// How many liquids are present.
    pub open spec fn spec_count(self) -> int {
        (if self.water {
            1int
        } else {
            0int
        }) + (if self.blood {
            1int
        } else {
            0int
        }) + (if self.oil {
            1int
        } else {
            0int
        })
    }

    /// An empty stain set.
    pub fn empty() -> (r: StainSet)
        ensures
            r == StainSet::none(),
    {
        StainSet { water: false, blood: false, oil: false }
    }

    /// Tests for one liquid.
    pub fn has(&self, liquid: Liquid) -> (r: bool)
        ensures
            r == self.spec_has(liquid),
    {
        match liquid {
            Liquid::WATER => self.water,
            Liquid::BLOOD => self.blood,
            Liquid::OIL => self.oil,
        }
    }

    /// Adds one liquid.
    pub fn with_liquid(&self, liquid: Liquid) -> (r: StainSet)
        ensures
            r == self.with(liquid),
    {
        match liquid {
            Liquid::WATER => StainSet { water: true, blood: self.blood, oil: self.oil },
            Liquid::BLOOD => StainSet { water: self.water, blood: true, oil: self.oil },
            Liquid::OIL => StainSet { water: self.water, blood: self.blood, oil: true },
        }
    }

    /// How many liquids are present.
    pub fn count(&self) -> (r: u32)
        ensures
            r == self.spec_count(),
    {
        let mut c: u32 = 0;
        if self.water {
            c = c + 1;
        }
        if self.blood {
            c = c + 1;
        }
        if self.oil {
            c = c + 1;
        }
        c
    }

    /// The liquids present, in a fixed order.
    pub fn list(&self) -> (r: Vec<Liquid>)
        ensures
            r.len() == self.spec_count(),
            forall|i: int| 0 <= i < r.len() ==> self.spec_has(#[trigger] r[i]),
    {
        let mut out: Vec<Liquid> = Vec::new();
        if self.water {
            out.push(Liquid::WATER);
        }
        if self.blood {
            out.push(Liquid::BLOOD);
        }
        if self.oil {
            out.push(Liquid::OIL);
        }
        out
    }
}

} // verus!
