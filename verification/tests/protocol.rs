use sonetto::progression::DestinyState;
use sonetto::protocol::{apply_committed_destiny_snapshot, CommittedDestinyChange, HeroDestinyFields};

#[test]
fn committed_destiny_snapshot_overrides_stale_hero_fields() {
    let stale = HeroDestinyFields {
        uid: 7,
        hero_id: 3098,
        destiny_rank: Some(1),
        destiny_level: Some(1),
        destiny_stone: Some(0),
        destiny_stone_unlock: vec![309801],
    };
    let change = CommittedDestinyChange {
        hero_id: 3098,
        state: DestinyState {
            rank: 2,
            level: 1,
            stone: 309801,
        },
        unlocked_stones: vec![309801, 309802],
        changed: true,
    };

    let merged = apply_committed_destiny_snapshot(stale, &change);

    assert_eq!(merged.destiny_rank, Some(2));
    assert_eq!(merged.destiny_level, Some(1));
    assert_eq!(merged.destiny_stone, Some(309801));
    assert_eq!(merged.destiny_stone_unlock, vec![309801, 309802]);
}

#[test]
fn snapshot_keeps_the_hero_identity() {
    let stale = HeroDestinyFields {
        uid: 7,
        hero_id: 3098,
        destiny_rank: None,
        destiny_level: None,
        destiny_stone: None,
        destiny_stone_unlock: vec![],
    };
    let change = CommittedDestinyChange {
        hero_id: 3098,
        state: DestinyState {
            rank: 0,
            level: 0,
            stone: 0,
        },
        unlocked_stones: vec![],
        changed: false,
    };
    let merged = apply_committed_destiny_snapshot(stale, &change);
    assert_eq!((merged.uid, merged.hero_id), (7, 3098));
    assert_eq!(merged.destiny_rank, Some(0));
    assert!(merged.destiny_stone_unlock.is_empty());
}
