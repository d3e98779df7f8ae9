//! A competitor's six skill values.

use crate::ir::Skill;
use vstd::prelude::*;

verus! {

/// One value for each skill: a stat block, or a block of changes to one.
#[derive(Debug, Clone, Copy, PartialEq, Eq, Structural)]
pub struct Skills {
    pub power: i64,
    pub agility: i64,
    pub technique: i64,
    pub submission: i64,
    pub grapple: i64,
    pub strike: i64,
}

impl Skills {
    /// The value of one skill.
    pub open spec fn at(self, skill: Skill) -> i64 {
        match skill {
            Skill::Power => self.power,
            Skill::Agility => self.agility,
            Skill::Technique => self.technique,
            Skill::Submission => self.submission,
            Skill::Grapple => self.grapple,
            Skill::Strike => self.strike,
        }
    }

    /// Every skill is at zero.
    pub open spec fn is_zero(self) -> bool {
        forall|s: Skill| #[trigger] self.at(s) == 0
    }

    /// The value of one skill.
    pub fn get(&self, skill: Skill) -> (value: i64)
        ensures
            value == self.at(skill),
            skill is Power ==> value == self.power,
            skill is Agility ==> value == self.agility,
            skill is Technique ==> value == self.technique,
            skill is Submission ==> value == self.submission,
            skill is Grapple ==> value == self.grapple,
            skill is Strike ==> value == self.strike,
    {
        match skill {
            Skill::Power => self.power,
            Skill::Agility => self.agility,
            Skill::Technique => self.technique,
            Skill::Submission => self.submission,
            Skill::Grapple => self.grapple,
            Skill::Strike => self.strike,
        }
    }

    /// The same block with one skill's value replaced.
    pub fn with(self, skill: Skill, value: i64) -> (block: Skills)
        ensures
            forall|s: Skill| #[trigger]
                block.at(s) == (if s == skill {
                    value
                } else {
                    self.at(s)
                }),
            skill is Power ==> block == (Skills { power: value, ..self }),
            skill is Agility ==> block == (Skills { agility: value, ..self }),
            skill is Technique ==> block == (Skills { technique: value, ..self }),
            skill is Submission ==> block == (Skills { submission: value, ..self }),
            skill is Grapple ==> block == (Skills { grapple: value, ..self }),
            skill is Strike ==> block == (Skills { strike: value, ..self }),
    {
        match skill {
            Skill::Power => Skills { power: value, ..self },
            Skill::Agility => Skills { agility: value, ..self },
            Skill::Technique => Skills { technique: value, ..self },
            Skill::Submission => Skills { submission: value, ..self },
            Skill::Grapple => Skills { grapple: value, ..self },
            Skill::Strike => Skills { strike: value, ..self },
        }
    }
}

impl Default for Skills {
    /// Every skill at zero.
    fn default() -> (block: Skills)
        ensures
            block.is_zero(),
            block == (Skills {
                power: 0,
                agility: 0,
                technique: 0,
                submission: 0,
                grapple: 0,
                strike: 0,
            }),
    {
        Skills { power: 0, agility: 0, technique: 0, submission: 0, grapple: 0, strike: 0 }
    }
}

/// A skill has the value of its own field.
pub proof fn law_each_skill_has_its_field(block: Skills)
    ensures
        block.at(Skill::Power) == block.power,
        block.at(Skill::Agility) == block.agility,
        block.at(Skill::Technique) == block.technique,
        block.at(Skill::Submission) == block.submission,
        block.at(Skill::Grapple) == block.grapple,
        block.at(Skill::Strike) == block.strike,
        block.is_zero() <==> block.power == 0 && block.agility == 0 && block.technique == 0
            && block.submission == 0 && block.grapple == 0 && block.strike == 0,
{
    if block.is_zero() {
        assert(block.at(Skill::Power) == 0 && block.at(Skill::Agility) == 0);
        assert(block.at(Skill::Technique) == 0 && block.at(Skill::Submission) == 0);
        assert(block.at(Skill::Grapple) == 0 && block.at(Skill::Strike) == 0);
    }
}

} // verus!
