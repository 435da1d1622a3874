use frame_loop::sprite::{SpriteAttributes, SpriteStage};

#[test]
fn new_sprite_is_hidden_at_the_origin() {
    let mut stage = SpriteStage::new(2);
    assert_eq!(stage.add_sprite(3), Some(0));
    assert_eq!(
        stage.staged_at(0),
        Some(SpriteAttributes { x: 0, y: 0, hflip: false, visible: false, frame: 3 })
    );
    assert_eq!(stage.len(), 1);
    assert_eq!(stage.capacity(), 2);
}

#[test]
fn updates_chain_on_one_handle() {
    let mut stage = SpriteStage::new(2);
    stage.add_sprite(0);
    stage.sprite(0).unwrap().set_position(128, 24).set_flip(true).set_frame(5).show();
    assert_eq!(
        stage.staged_at(0),
        Some(SpriteAttributes { x: 128, y: 24, hflip: true, visible: true, frame: 5 })
    );
    let handle = stage.sprite(0).unwrap();
    let attributes = handle.conceal().set_flip(false).attributes();
    assert_eq!(
        attributes,
        SpriteAttributes { x: 128, y: 24, hflip: false, visible: false, frame: 5 }
    );
}

#[test]
fn each_update_changes_its_attribute_only() {
    let mut stage = SpriteStage::new(1);
    stage.add_sprite(9);
    let start = stage.staged_at(0).unwrap();
    stage.sprite(0).unwrap().set_position(7, 8);
    assert_eq!(stage.staged_at(0), Some(SpriteAttributes { x: 7, y: 8, ..start }));
    stage.sprite(0).unwrap().show();
    assert_eq!(stage.staged_at(0), Some(SpriteAttributes { x: 7, y: 8, visible: true, ..start }));
    stage.sprite(0).unwrap().set_flip(true);
    assert_eq!(
        stage.staged_at(0),
        Some(SpriteAttributes { x: 7, y: 8, visible: true, hflip: true, ..start })
    );
    stage.sprite(0).unwrap().conceal();
    assert_eq!(stage.staged_at(0), Some(SpriteAttributes { x: 7, y: 8, hflip: true, ..start }));
}

#[test]
fn stage_takes_positions_off_the_display() {
    let mut stage = SpriteStage::new(1);
    stage.add_sprite(0);
    stage.sprite(0).unwrap().set_position(100_000, u32::MAX);
    let staged = stage.staged_at(0).unwrap();
    assert_eq!((staged.x, staged.y), (100_000, u32::MAX));
    stage.commit();
    let shown = stage.shown_at(0).unwrap();
    assert_eq!((shown.x, shown.y), (100_000, u32::MAX));
}

#[test]
fn nothing_is_shown_before_a_commit() {
    let mut stage = SpriteStage::new(2);
    stage.add_sprite(0);
    stage.sprite(0).unwrap().set_position(1, 2).show();
    assert_eq!(stage.shown_at(0), None);
    stage.commit();
    assert_eq!(
        stage.shown_at(0),
        Some(SpriteAttributes { x: 1, y: 2, hflip: false, visible: true, frame: 0 })
    );
    stage.sprite(0).unwrap().set_position(3, 4);
    assert_eq!(stage.shown_at(0).unwrap().x, 1);
    assert_eq!(stage.staged_at(0).unwrap().x, 3);
}

#[test]
fn commit_flushes_every_slot() {
    let mut stage = SpriteStage::new(3);
    for frame in 0..3 {
        assert_eq!(stage.add_sprite(frame), Some(frame));
    }
    stage.sprite(0).unwrap().set_position(10, 0).show();
    stage.sprite(1).unwrap().set_position(20, 0);
    stage.sprite(2).unwrap().set_position(30, 0).set_flip(true).show();
    stage.commit();
    for slot in 0..3 {
        assert_eq!(stage.shown_at(slot), stage.staged_at(slot));
    }
    assert_eq!(
        stage.shown_at(2),
        Some(SpriteAttributes { x: 30, y: 0, hflip: true, visible: true, frame: 2 })
    );
    assert_eq!(stage.shown_at(3), None);
}

#[test]
fn full_stage_takes_no_more_sprites() {
    let mut stage = SpriteStage::new(2);
    assert_eq!(stage.add_sprite(0), Some(0));
    assert_eq!(stage.add_sprite(1), Some(1));
    assert_eq!(stage.add_sprite(2), None);
    assert_eq!(stage.len(), 2);
    assert_eq!(stage.staged_at(1).unwrap().frame, 1);
    let mut none = SpriteStage::new(0);
    assert_eq!(none.add_sprite(0), None);
}

#[test]
fn slots_that_are_not_in_use_have_no_handle() {
    let mut stage = SpriteStage::new(4);
    stage.add_sprite(0);
    assert!(stage.sprite(0).is_some());
    assert!(stage.sprite(1).is_none());
    assert!(stage.sprite(usize::MAX).is_none());
    assert_eq!(stage.staged_at(1), None);
}
