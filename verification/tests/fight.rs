use sonetto::battle::fight::{
    attacker_substitute_uid, enemy_entity_uid, parse_monster_skill_group,
    try_attacker_substitute_uid, UidError,
};

#[test]
fn substitute_uids_start_after_trial_uids() {
    assert_eq!(attacker_substitute_uid(0, 0), -1);
    assert_eq!(attacker_substitute_uid(1, 0), -2);
    assert_eq!(attacker_substitute_uid(2, 1), -4);
    assert_ne!(attacker_substitute_uid(1, 0), -1);
}

#[test]
fn attacker_uid_allocator_accepts_the_last_attacker_ordinal_only() {
    assert_eq!(try_attacker_substitute_uid(999, 0).unwrap(), -1_000);
    assert!(try_attacker_substitute_uid(1_000, 0).is_err());
}

#[test]
fn defender_uids_start_below_the_attacker_namespace() {
    assert_eq!(enemy_entity_uid(0), -1001);
    assert_eq!(enemy_entity_uid(4), -1005);
    assert_eq!(
        try_attacker_substitute_uid(1_000, 0),
        Err(UidError::CrossesDefenders { ordinal: 1_001 })
    );
    assert_eq!(
        try_attacker_substitute_uid(usize::MAX, 0),
        Err(UidError::OrdinalOverflow)
    );
}

#[test]
fn monster_skill_groups_keep_parseable_ids_of_the_first_matching_block() {
    let skills = "1#40212511#40212512|2#40212521#40212522";
    assert_eq!(parse_monster_skill_group(skills, 1), vec![40212511, 40212512]);
    assert_eq!(parse_monster_skill_group(skills, 2), vec![40212521, 40212522]);
    assert_eq!(parse_monster_skill_group(skills, 3), Vec::<i32>::new());
    assert_eq!(parse_monster_skill_group("x#1|1#5#y#6", 1), vec![5, 6]);
    assert_eq!(parse_monster_skill_group("", 1), Vec::<i32>::new());
}
