use sonetto::battle::kit::{parse_skill_exchanges, SkillExchange};
use sonetto::battle::types::DestinyResolveError;

#[test]
fn facet_exchange_preserves_declared_chain_order() {
    let exchanges = parse_skill_exchanges("1#2|2#3|1#4").unwrap();
    assert_eq!(
        exchanges,
        vec![
            SkillExchange {
                source: 1,
                target: 2
            },
            SkillExchange {
                source: 2,
                target: 3
            },
            SkillExchange {
                source: 1,
                target: 4
            },
        ]
    );
}

#[test]
fn exchange_parser_ignores_trailing_empty_segment() {
    assert_eq!(
        parse_skill_exchanges("1#2|").unwrap(),
        vec![SkillExchange {
            source: 1,
            target: 2,
        }]
    );
}

#[test]
fn exchange_parser_rejects_unconfirmed_empty_segments() {
    let malformed = ["|1#2", "1#2||3#4", "1#2||"];
    let accepted = malformed
        .into_iter()
        .filter(|value| parse_skill_exchanges(value).is_ok())
        .collect::<Vec<_>>();
    assert!(accepted.is_empty(), "unexpectedly accepted {accepted:?}");
}

#[test]
fn exchange_parser_rejects_non_positive_skill_ids() {
    let invalid = ["-1#5", "0#5", "1#0", "1#-5"];
    let accepted = invalid
        .into_iter()
        .filter(|value| parse_skill_exchanges(value).is_ok())
        .collect::<Vec<_>>();
    assert!(accepted.is_empty(), "unexpectedly accepted {accepted:?}");
}

#[test]
fn empty_exchange_value_lists_nothing() {
    assert_eq!(parse_skill_exchanges("").unwrap(), vec![]);
    assert!(parse_skill_exchanges("1#2#3").is_err());
    assert!(parse_skill_exchanges("1").is_err());
}

fn exchange_error(value: &str) -> String {
    match parse_skill_exchanges(value) {
        Err(DestinyResolveError::InvalidConfig(m)) => m,
        other => panic!("expected a configuration error, got {other:?}"),
    }
}

#[test]
fn exchange_errors_name_the_first_failed_check() {
    assert_eq!(exchange_error("x#2"), "invalid exchange source in \"x#2\"");
    assert_eq!(exchange_error("1"), "invalid exchange target in \"1\"");
    assert_eq!(
        exchange_error("1#2#3"),
        "invalid skill exchange \"1#2#3\" in \"1#2#3\""
    );
    assert_eq!(
        exchange_error("2#3|0#5"),
        "skill exchange ids must be positive in \"0#5\" from \"2#3|0#5\""
    );
    assert_eq!(exchange_error("1#2||"), "invalid exchange source in \"1#2||\"");
}

#[test]
fn written_exchanges_read_back_in_order() {
    let xs = vec![
        SkillExchange { source: 5, target: 6 },
        SkillExchange { source: 5, target: 6 },
        SkillExchange { source: 7, target: 1 },
    ];
    let text = xs
        .iter()
        .map(|x| format!("{}#{}", x.source, x.target))
        .collect::<Vec<_>>()
        .join("|");
    assert_eq!(parse_skill_exchanges(&text).unwrap(), xs);
    assert_eq!(parse_skill_exchanges(&format!("{text}|")).unwrap(), xs);
}
