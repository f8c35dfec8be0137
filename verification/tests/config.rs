use sonetto::config::{
    CharacterAttribute, CharacterDestiny, CharacterDestinySlots, ConfigIndexError, ConfigTable,
    DestinyConfigIndex, GameDB,
};

fn slot(slots_id: i32, stage: i32, node: i32) -> CharacterDestinySlots {
    CharacterDestinySlots {
        slots_id,
        stage,
        node,
        consume: String::new(),
        effect: String::new(),
    }
}

fn attribute(id: i32) -> CharacterAttribute {
    CharacterAttribute {
        id,
        attr_type: "hp".to_string(),
        show_type: 0,
    }
}

fn hero(hero_id: i32, facets_id: &str) -> CharacterDestiny {
    CharacterDestiny {
        hero_id,
        slots_id: 1,
        facets_id: facets_id.to_string(),
    }
}

fn index_error(game: &GameDB) -> ConfigIndexError {
    match DestinyConfigIndex::try_from_game_db(game) {
        Ok(_) => panic!("expected the index to be refused"),
        Err(e) => e,
    }
}

#[test]
fn the_first_repeated_key_of_the_first_bad_table_is_reported() {
    let game = GameDB {
        character_destiny_slots: vec![slot(1, 1, 1), slot(1, 1, 2), slot(1, 1, 2), slot(1, 1, 1)],
        character_attribute: vec![attribute(5), attribute(5)],
        ..Default::default()
    };
    let error = index_error(&game);
    match &error {
        ConfigIndexError::DuplicateKey { table, key } => {
            assert_eq!(*table, ConfigTable::CharacterDestinySlots);
            assert_eq!(key, &vec![1, 1, 2]);
        }
        other => panic!("unexpected error {other:?}"),
    }
    assert_eq!(error.message(), "duplicate character_destiny_slots key (1, 1, 2)");
}

#[test]
fn heroes_are_checked_before_other_tables() {
    let game = GameDB {
        character_destiny: vec![hero(3001, "300111"), hero(3002, "x")],
        character_attribute: vec![attribute(5), attribute(5)],
        ..Default::default()
    };
    assert_eq!(
        index_error(&game).message(),
        "invalid character_destiny facets_id \"x\" for hero 3002"
    );
    let repeated = GameDB {
        character_destiny: vec![hero(3001, "300111"), hero(3001, "300112")],
        ..Default::default()
    };
    assert_eq!(
        index_error(&repeated).message(),
        "duplicate character_destiny key 3001"
    );
}

#[test]
fn tables_without_repeats_index() {
    let game = GameDB {
        character_destiny: vec![hero(3001, "300111#300112")],
        character_destiny_slots: vec![slot(1, 1, 1), slot(1, 1, 2)],
        character_attribute: vec![attribute(5), attribute(6)],
        ..Default::default()
    };
    let index = match DestinyConfigIndex::try_from_game_db(&game) {
        Ok(index) => index,
        Err(e) => panic!("unexpected error {}", e.message()),
    };
    assert!(index.hero(3001).is_some());
    assert!(index.slot(1, 1, 2).is_some());
    assert!(index.attribute(6).is_some());
    assert!(index.attribute(7).is_none());
}
