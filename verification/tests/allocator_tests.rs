use pong::ball;
use pong::componentmanager::{ComponentManager, IDAllocator};
use pong::components::{CMovement2D, CPosition2D};
use pong::geometry::Point;

#[test]
fn allocator_issues_sequential_ids() {
    let mut alloc = IDAllocator::new();
    assert_eq!(alloc.get_number(), 0);
    assert_eq!(alloc.get_number(), 1);
    assert_eq!(alloc.get_number(), 2);
}

#[test]
fn allocator_reuses_most_recently_freed_id() {
    let mut alloc = IDAllocator::new();
    alloc.get_number();
    alloc.get_number();
    alloc.get_number();
    alloc.free_number(1);
    assert_eq!(alloc.get_number(), 1);
    assert_eq!(alloc.get_allocated_ids(), vec![0, 2, 1]);
}

#[test]
fn allocator_never_reports_a_freed_id() {
    let mut alloc = IDAllocator::new();
    alloc.get_number();
    alloc.get_number();
    alloc.free_number(0);
    let ids = alloc.get_allocated_ids();
    assert!(!ids.contains(&0));
    assert_eq!(ids, vec![1]);
}

#[test]
fn allocator_freeing_twice_is_idempotent() {
    let mut alloc = IDAllocator::new();
    alloc.get_number();
    alloc.get_number();
    alloc.get_number();
    alloc.free_number(1);
    alloc.free_number(1);
    assert_eq!(alloc.get_number(), 1);
    assert_eq!(alloc.get_number(), 3);
}

#[test]
fn free_entity_clears_every_table_and_recycles_the_id() {
    let mut cm = ComponentManager::new();
    ball::create(&mut cm);
    assert!(cm.cposition_2d.get(&0).is_some());
    assert!(cm.cmovement_2d.get(&0).is_some());
    assert!(cm.ccollision_2d.get(&0).is_some());
    assert!(cm.ctexture.get(&0).is_some());

    cm.free_entity(0);

    assert!(cm.ccollision_2d.get(&0).is_none());
    assert!(cm.cmovement_2d.get(&0).is_none());
    assert!(cm.cpaddle_info.get(&0).is_none());
    assert!(cm.cposition_2d.get(&0).is_none());
    assert!(cm.ctexture.get(&0).is_none());
    assert!(cm.cbutton_info.get(&0).is_none());
    assert!(cm.ctext.get(&0).is_none());
    assert_eq!(cm.id_allocator.get_number(), 0);
}

#[test]
fn components_table_insert_get_remove() {
    let mut cm = ComponentManager::new();
    cm.cposition_2d.insert(
        7,
        CPosition2D { id: 7, name: String::from("thing"), pos: Point::new(1, 2) },
    );
    assert_eq!(cm.cposition_2d.get(&7).unwrap().pos, Point::new(1, 2));
    assert!(cm.cposition_2d.get(&8).is_none());

    cm.cposition_2d.insert(
        7,
        CPosition2D { id: 7, name: String::from("thing"), pos: Point::new(3, 4) },
    );
    assert_eq!(cm.cposition_2d.get(&7).unwrap().pos, Point::new(3, 4));

    let removed = cm.cposition_2d.remove(&7);
    assert!(removed.is_some());
    assert!(cm.cposition_2d.get(&7).is_none());
    assert!(cm.cposition_2d.remove(&7).is_none());
}

#[test]
fn components_table_keys_cover_each_id_once() {
    let mut cm = ComponentManager::new();
    for id in [4usize, 9, 2] {
        cm.cmovement_2d.insert(
            id,
            CMovement2D { id, name: String::from("m"), speed: 1, x: 0, y: 0 },
        );
    }
    let mut keys = cm.cmovement_2d.keys();
    keys.sort();
    assert_eq!(keys, vec![2, 4, 9]);
}

#[test]
fn ball_factory_fills_its_component_bundle() {
    let mut cm = ComponentManager::new();
    ball::create(&mut cm);
    let pos = cm.cposition_2d.get(&0).unwrap();
    assert_eq!(pos.pos, Point::new(640, 360));
    assert_eq!(pos.name, "ball");
    let mov = cm.cmovement_2d.get(&0).unwrap();
    assert_eq!(mov.speed, 540);
    assert!(mov.x == 1 || mov.x == -1);
    assert!(mov.y == 1 || mov.y == -1);
    assert_eq!(cm.ccollision_2d.get(&0).unwrap().size, (10, 10));
    assert_eq!(ball::get_ball_id(&cm), Some(0));
}

#[test]
fn ball_lookup_is_case_insensitive_and_total() {
    let mut cm = ComponentManager::new();
    assert_eq!(ball::get_ball_id(&cm), None);
    let id = cm.id_allocator.get_number();
    cm.cposition_2d.insert(
        id,
        CPosition2D { id, name: String::from("BaLL"), pos: Point::new(5, 6) },
    );
    assert_eq!(ball::get_ball_id(&cm), Some(id));
    assert!(ball::eq_ignore_ascii_case_str("BaLL", "ball"));
    assert!(!ball::eq_ignore_ascii_case_str("balls", "ball"));
    assert!(!ball::eq_ignore_ascii_case_str("bell", "ball"));
}
