use mooncore::factions::Faction;
use mooncore::grid::Point;
use mooncore::noise::{can_hear, note_noise, MonsterAINoiseRecord, Noise};

fn noise_at(x: i32, y: i32, volume: u32, surprising: bool, faction: Option<Faction>) -> Noise {
    Noise {
        location: Point { x, y },
        volume,
        faction,
        surprising,
        description: String::from("something"),
    }
}

#[test]
fn audibility_is_squared_distance_versus_squared_volume() {
    let n = noise_at(0, 0, 5, false, None);
    // Distance squared 16 < 25: audible.
    assert!(can_hear(&Point { x: 4, y: 0 }, &n));
    // Distance squared 24 < 25: audible.
    assert!(can_hear(&Point { x: 2, y: 2 }, &n) == (2 * 2 + 2 * 2 < 25));
    // Distance squared 25 == 25: inaudible at the boundary.
    assert!(!can_hear(&Point { x: 3, y: 4 }, &n));
    assert!(!can_hear(&Point { x: 5, y: 0 }, &n));
    // Distance squared 26 > 25: inaudible.
    assert!(!can_hear(&Point { x: 5, y: 1 }, &n));
}

#[test]
fn zero_volume_is_never_heard() {
    let n = noise_at(3, 3, 0, true, None);
    assert!(!can_hear(&Point { x: 3, y: 3 }, &n));
}

#[test]
fn audible_noise_is_remembered() {
    let mut memory: Option<MonsterAINoiseRecord> = None;
    let n = noise_at(10, 10, 8, false, None);
    note_noise(&mut memory, &Point { x: 12, y: 10 }, Faction::ENEMIES, &n, 4);
    let record = memory.expect("the noise should have been recorded");
    assert_eq!(record.location, Point { x: 10, y: 10 });
    assert_eq!(record.volume, 8);
    assert_eq!(record.turn, 4);
    assert!(!record.surprising);
}

#[test]
fn inaudible_noise_is_not_remembered() {
    let mut memory: Option<MonsterAINoiseRecord> = None;
    let n = noise_at(10, 10, 2, false, None);
    note_noise(&mut memory, &Point { x: 15, y: 10 }, Faction::ENEMIES, &n, 4);
    assert!(memory.is_none());
}

#[test]
fn faction_filter_excludes_other_listeners() {
    let mut memory: Option<MonsterAINoiseRecord> = None;
    let n = noise_at(10, 10, 8, false, Some(Faction::PLAYER));
    note_noise(&mut memory, &Point { x: 11, y: 10 }, Faction::ENEMIES, &n, 4);
    assert!(memory.is_none());
    note_noise(&mut memory, &Point { x: 11, y: 10 }, Faction::PLAYER, &n, 4);
    assert!(memory.is_some());
}

#[test]
fn surprising_memory_blocks_ordinary_noise_through_cooldown() {
    let surprising = MonsterAINoiseRecord {
        turn: 10,
        volume: 8,
        surprising: true,
        location: Point { x: 2, y: 2 },
    };
    let ordinary = noise_at(4, 4, 8, false, None);

    // Inside the ten-turn window the ordinary sound is ignored.
    let mut memory = Some(surprising);
    note_noise(&mut memory, &Point { x: 4, y: 5 }, Faction::ENEMIES, &ordinary, 19);
    assert_eq!(memory.unwrap().location, Point { x: 2, y: 2 });

    // Once the window has elapsed it displaces the memory.
    let mut memory = Some(surprising);
    note_noise(&mut memory, &Point { x: 4, y: 5 }, Faction::ENEMIES, &ordinary, 20);
    assert_eq!(memory.unwrap().location, Point { x: 4, y: 4 });
}

#[test]
fn surprising_noise_always_displaces() {
    let surprising_memory = MonsterAINoiseRecord {
        turn: 10,
        volume: 8,
        surprising: true,
        location: Point { x: 2, y: 2 },
    };
    let newer = noise_at(6, 6, 8, true, None);
    let mut memory = Some(surprising_memory);
    note_noise(&mut memory, &Point { x: 6, y: 7 }, Faction::ENEMIES, &newer, 11);
    assert_eq!(memory.unwrap().location, Point { x: 6, y: 6 });
}
