use ghostly_core::collision::CollBox;
use ghostly_core::fx::Vec2Fx;
use ghostly_core::staticobj::{
    GhostBlockEffect, GhostBlocks, Trigger, TriggerType, TRAP_ANIM_TIME,
};

fn bx(x: i64, y: i64, h: i64) -> CollBox {
    CollBox { pos: Vec2Fx { x, y }, half_dim: Vec2Fx { x: h, y: h } }
}

#[test]
fn trap_rearm_is_one_shot_until_decayed() {
    let mut ts = vec![Trigger::new(bx(0, 0, 7000), TriggerType::Trap(0))];
    let player = bx(1000, 0, 4000);
    // a touch at countdown zero re-arms to the full duration
    let scan = Trigger::coll_check(&mut ts, &player);
    assert!(scan.trap);
    assert_eq!(ts[0].trigger_type, TriggerType::Trap(TRAP_ANIM_TIME));
    // touched again before the countdown decays: no reset
    Trigger::update(&mut ts, 100);
    assert_eq!(ts[0].trigger_type, TriggerType::Trap(TRAP_ANIM_TIME - 100));
    let scan2 = Trigger::coll_check(&mut ts, &player);
    assert!(scan2.trap);
    assert_eq!(ts[0].trigger_type, TriggerType::Trap(TRAP_ANIM_TIME - 100));
    // once fully decayed it can trip again
    Trigger::update(&mut ts, TRAP_ANIM_TIME);
    assert_eq!(ts[0].trigger_type, TriggerType::Trap(0));
    let scan3 = Trigger::coll_check(&mut ts, &player);
    assert!(scan3.trap);
    assert_eq!(ts[0].trigger_type, TriggerType::Trap(TRAP_ANIM_TIME));
}

#[test]
fn scan_reports_each_kind() {
    let mut ts = vec![
        Trigger::new(bx(0, 0, 7000), TriggerType::FlyBox),
        Trigger::new(bx(0, 0, 7000), TriggerType::Spikes),
        Trigger::new(bx(100000, 0, 7000), TriggerType::Trap(0)),
    ];
    let player = bx(1000, 0, 4000);
    let scan = Trigger::coll_check(&mut ts, &player);
    assert!(scan.fly);
    assert!(scan.spikes);
    assert!(!scan.trap);
}

#[test]
fn ghost_block_phases_cycle() {
    let mut gb = GhostBlocks::new(Vec2Fx { x: 8000, y: 8000 });
    gb.add(Vec2Fx { x: 0, y: 0 });
    // fresh group: mid-fade, fading in
    assert_eq!(gb.get_block_effect(), GhostBlockEffect::PassThrough);
    // fade all the way in: solid
    gb.update(false, 1000);
    assert_eq!(gb.get_block_effect(), GhostBlockEffect::Collide);
    // a trap trip fades the blocks out
    gb.update(true, 1000);
    assert_eq!(gb.get_block_effect(), GhostBlockEffect::PassThrough);
    // the hit timer holds them faded
    gb.update(false, 100);
    assert_eq!(gb.get_block_effect(), GhostBlockEffect::PassThrough);
    // once it runs out they fade back in, lethal just before solid
    gb.update(false, 1000);
    gb.update(false, 250);
    assert_eq!(gb.get_block_effect(), GhostBlockEffect::Kill);
    gb.update(false, 100);
    assert_eq!(gb.get_block_effect(), GhostBlockEffect::Collide);
}
