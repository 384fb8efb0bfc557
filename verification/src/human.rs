//! The human race: which scene shows an actor of which sex.

use vstd::prelude::*;

verus! {

/// The sex of an actor.
#[derive(Clone, Copy, Debug, PartialEq, Eq, Structural)]
pub enum Sex {
    Male,
    Female,
}

/// The scenes that show a human.
#[derive(Clone, Copy, Debug, PartialEq, Eq, Structural)]
pub enum HumanScene {
    Male,
    Female,
}

impl Default for HumanScene {
    fn default() -> (scene: HumanScene)
        ensures
            scene == HumanScene::Male,
    {
        HumanScene::Male
    }
}

impl HumanScene {
    /// The path of the scene's asset.
    pub open spec fn spec_asset_path(self) -> Seq<char> {
        match self {
            HumanScene::Male => "base/actors/bot/y_bot/y_bot.gltf#Scene0"@,
            HumanScene::Female => "base/actors/bot/x_bot/x_bot.gltf#Scene0"@,
        }
    }

    /// The path of the scene's asset.
    pub fn asset_path(&self) -> (path: &'static str)
        ensures
            path@ == self.spec_asset_path(),
    {
        match self {
            HumanScene::Male => "base/actors/bot/y_bot/y_bot.gltf#Scene0",
            HumanScene::Female => "base/actors/bot/x_bot/x_bot.gltf#Scene0",
        }
    }
}

impl From<Sex> for HumanScene {
    fn from(value: Sex) -> (scene: HumanScene) {
        match value {
            Sex::Male => HumanScene::Male,
            Sex::Female => HumanScene::Female,
        }
    }
}

impl vstd::std_specs::convert::FromSpecImpl<Sex> for HumanScene {
    open spec fn obeys_from_spec() -> bool {
        true
    }

    open spec fn from_spec(value: Sex) -> HumanScene {
        match value {
            Sex::Male => HumanScene::Male,
            Sex::Female => HumanScene::Female,
        }
    }
}

} // verus!
