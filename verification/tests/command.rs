use sonetto::command::{raw_command_policy, CompatibilityCommand, RawCommandPolicy};

#[test]
fn compatibility_policies_have_exact_static_success_bodies() {
    for (raw_id, expected_body) in [
        (20144, &[][..]),
        (13540, &[0x0A, 0x00][..]),
        (-16527, &[][..]),
    ] {
        let RawCommandPolicy::StaticSuccessReply { command, body } =
            raw_command_policy(raw_id).expect("missing compatibility policy");

        assert_eq!(command.raw_id(), raw_id);
        assert_eq!(body.as_slice(), expected_body);
    }
}

#[test]
fn compatibility_command_mapping_is_exact() {
    let currency_exchange = CompatibilityCommand::from_raw_id(20144).unwrap();
    let tower_compose = CompatibilityCommand::from_raw_id(13540).unwrap();
    let party_server_list = CompatibilityCommand::from_raw_id(-16527)
        .expect("missing PartyMatch.PartyServerListRequest compatibility command");

    assert_eq!(currency_exchange.raw_id(), 20144);
    assert_eq!(
        currency_exchange.name(),
        "Currency.ExchangeSameCurrencyRequest"
    );
    assert_eq!(tower_compose.raw_id(), 13540);
    assert_eq!(
        tower_compose.name(),
        "TowerCompose.TowerComposeGetInfoRequest"
    );
    assert_eq!(party_server_list.raw_id(), -16527);
    assert_eq!(
        party_server_list.name(),
        "PartyMatch.PartyServerListRequest"
    );
    assert_eq!(party_server_list.success_body().as_slice(), &[] as &[u8]);
    assert!(CompatibilityCommand::from_raw_id(13539).is_none());
    assert!(CompatibilityCommand::from_raw_id(13541).is_none());
    assert!(CompatibilityCommand::from_raw_id(20143).is_none());
    assert!(CompatibilityCommand::from_raw_id(20145).is_none());
    assert!(CompatibilityCommand::from_raw_id(-16528).is_none());
    assert!(CompatibilityCommand::from_raw_id(-16526).is_none());
}

#[test]
fn unregistered_raw_ids_have_no_policy() {
    assert!(raw_command_policy(0).is_none());
    assert!(raw_command_policy(1).is_none());
}

#[test]
fn compatibility_replies_succeed_on_the_next_down_tag() {
    let tower = sonetto::command::CompatibilityCommand::from_raw_id(13540).unwrap();
    let reply = sonetto::command::compatibility_reply(tower, 9, 4);
    assert_eq!(reply.cmd_id, 13540);
    assert_eq!(reply.result_code, 0);
    assert_eq!(reply.up_tag, 9);
    assert_eq!(reply.down_tag, 5);
    assert_eq!(reply.data, vec![0x0A, 0x00]);
    let exchange = sonetto::command::CompatibilityCommand::from_raw_id(20144).unwrap();
    let wrapped = sonetto::command::compatibility_reply(exchange, 1, 255);
    assert_eq!(wrapped.down_tag, 0);
    assert!(wrapped.data.is_empty());
}
