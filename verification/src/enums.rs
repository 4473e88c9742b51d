use vstd::prelude::*;

verus! {

/// A gameplay role a user selects for their slot.
#[derive(Clone, Copy, PartialEq, Eq, Structural, Debug)]
pub enum Archetypes {
    Leader,
    Spiker,
    Healer,
    Assassin,
}

impl Archetypes {
    /// The wire name of the archetype, as it appears in outbound payloads.
    pub open spec fn spec_name(self) -> Seq<char> {
        match self {
            Archetypes::Leader => "Leader"@,
            Archetypes::Spiker => "Spiker"@,
            Archetypes::Healer => "Healer"@,
            Archetypes::Assassin => "Assassin"@,
        }
    }

    pub fn name(&self) -> (r: String)
        ensures
            r@ == self.spec_name(),
    {
        match self {
            Archetypes::Leader => String::from_str("Leader"),
            Archetypes::Spiker => String::from_str("Spiker"),
            Archetypes::Healer => String::from_str("Healer"),
            Archetypes::Assassin => String::from_str("Assassin"),
        }
    }

    pub fn from_u32(value: u32) -> (r: Option<Archetypes>)
        ensures
            r == match value {
                0u32 => Some(Archetypes::Leader),
                1u32 => Some(Archetypes::Spiker),
                2u32 => Some(Archetypes::Healer),
                3u32 => Some(Archetypes::Assassin),
                _ => None::<Archetypes>,
            },
    {
        match value {
            0 => Some(Archetypes::Leader),
            1 => Some(Archetypes::Spiker),
            2 => Some(Archetypes::Healer),
            3 => Some(Archetypes::Assassin),
            _ => None,
        }
    }

    pub fn to_u32(&self) -> (r: u32)
        ensures
            r == match self {
                Archetypes::Leader => 0u32,
                Archetypes::Spiker => 1u32,
                Archetypes::Healer => 2u32,
                Archetypes::Assassin => 3u32,
            },
    {
        match self {
            Archetypes::Leader => 0,
            Archetypes::Spiker => 1,
            Archetypes::Healer => 2,
            Archetypes::Assassin => 3,
        }
    }
}

/// The rule set a room is configured to play.
#[derive(Clone, Copy, PartialEq, Eq, Structural, Debug)]
pub enum GameModes {
    Deathmatch,
    KingOfTheHill,
}

impl GameModes {
    pub open spec fn spec_name(self) -> Seq<char> {
        match self {
            GameModes::Deathmatch => "Deathmatch"@,
            GameModes::KingOfTheHill => "KingOfTheHill"@,
        }
    }

    pub fn name(&self) -> (r: String)
        ensures
            r@ == self.spec_name(),
    {
        match self {
            GameModes::Deathmatch => String::from_str("Deathmatch"),
            GameModes::KingOfTheHill => String::from_str("KingOfTheHill"),
        }
    }
}

/// The map a room is configured to play on.
#[derive(Clone, Copy, PartialEq, Eq, Structural, Debug)]
pub enum Maps {
    Heaven,
    Ascent,
    Inferno,
    Colosseum,
    PlayGround,
}

impl Maps {
    pub open spec fn spec_name(self) -> Seq<char> {
        match self {
            Maps::Heaven => "Heaven"@,
            Maps::Ascent => "Ascent"@,
            Maps::Inferno => "Inferno"@,
            Maps::Colosseum => "Colosseum"@,
            Maps::PlayGround => "PlayGround"@,
        }
    }

    pub fn name(&self) -> (r: String)
        ensures
            r@ == self.spec_name(),
    {
        match self {
            Maps::Heaven => String::from_str("Heaven"),
            Maps::Ascent => String::from_str("Ascent"),
            Maps::Inferno => String::from_str("Inferno"),
            Maps::Colosseum => String::from_str("Colosseum"),
            Maps::PlayGround => String::from_str("PlayGround"),
        }
    }
}

} // verus!
