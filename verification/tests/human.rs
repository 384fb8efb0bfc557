use netsync::human::{HumanScene, Sex};

#[test]
fn scenes_have_their_asset_paths() {
    assert_eq!(HumanScene::Male.asset_path(), "base/actors/bot/y_bot/y_bot.gltf#Scene0");
    assert_eq!(HumanScene::Female.asset_path(), "base/actors/bot/x_bot/x_bot.gltf#Scene0");
}

#[test]
fn scene_follows_sex() {
    assert_eq!(HumanScene::from(Sex::Male), HumanScene::Male);
    assert_eq!(HumanScene::from(Sex::Female), HumanScene::Female);
}

#[test]
fn default_scene_is_male() {
    assert_eq!(HumanScene::default(), HumanScene::Male);
}
