//! The attributes that reached Destiny nodes add to a hero.
use crate::battle::types::{
    DestinyResolveError, DestinyState, DestinyTrace, FixedTenths, HeroBaseAttributes, percent_of,
};
use crate::battle::combat::{unset_ex, unset_sp, HeroExAttribute, HeroSpAttribute};
use crate::config::{DestinyConfigIndex, HeroDestinyConfig};
use crate::text::{
    chars_to_string, debug_quoted, int_text, message_with_quoted, parse_i32, parse_i64,
    parse_i32_spec, parse_i64_spec, pieces_view, push_int, push_str, split, split_chars, str_chars,
};
use std::collections::BTreeMap;
use vstd::prelude::*;

verus! {

/// The attributes that Destiny nodes add, with the summed raw values per
/// attribute id and one trace entry per included node.
pub struct ResolvedDestinyAttributes {
    pub hp: i32,
    pub attack: i32,
    pub defense: i32,
    pub mdefense: i32,
    pub raw_tenths: BTreeMap<i32, i64>,
    pub ex_attr: HeroExAttribute,
    pub sp_attr: HeroSpAttribute,
    pub real_hurt_rate: i32,
    pub poison_add_rate: i32,
    pub trace: Vec<DestinyTrace>,
}

/// The attribute ids that a Destiny node may name.
pub open spec fn supported_attribute(id: i32) -> bool {
    id == 201 || id == 203 || id == 205 || id == 211 || id == 212 || id == 214 || id == 217
        || id == 218 || id == 219 || id == 220 || id == 301 || (601 <= id <= 608)
}

/// Whether a Destiny node may name attribute `attribute_id`.
pub fn is_supported_destiny_attribute(attribute_id: i32) -> (b: bool)
    ensures
        b == supported_attribute(attribute_id),
{
    attribute_id == 201 || attribute_id == 203 || attribute_id == 205 || attribute_id == 211
        || attribute_id == 212 || attribute_id == 214 || attribute_id == 217 || attribute_id
        == 218 || attribute_id == 219 || attribute_id == 220 || attribute_id == 301 || (601
        <= attribute_id && attribute_id <= 608)
}

/// The show type an attribute must have: `0` for the four direct attributes
/// (601–604), `1` (tenths of a percent) for the rest.
pub open spec fn expected_show_type(id: i32) -> i32 {
    if 601 <= id <= 604 {
        0
    } else {
        1
    }
}

/// The `id#raw` pair that one effect entry states.
pub open spec fn effect_entry(entry: Seq<char>) -> Option<(i32, i64)> {
    let parts = split(entry, '#');
    if parts.len() != 2 {
        None
    } else {
        match (parse_i32_spec(parts[0]), parse_i64_spec(parts[1])) {
            (Some(id), Some(raw)) => Some((id, raw)),
            _ => None,
        }
    }
}

/// Why attribute resolution stops, with the message that it reports.
pub enum AttributeFault {
    InvalidState(Seq<char>),
    InvalidConfig(Seq<char>),
    Overflow,
}

/// The running raw value of attribute `id`.
pub open spec fn tenths_of(m: Map<i32, i64>, id: i32) -> int {
    if m.contains_key(id) {
        m[id] as int
    } else {
        0
    }
}

/// Adds one effect entry of the node with trace key `key` to the running
/// totals. Empty entries are skipped; an entry must be a well-formed pair
/// naming a supported attribute whose configured show type matches, and the
/// total must stay within `i64`.
pub open spec fn add_entry(
    index: &DestinyConfigIndex,
    key: Seq<char>,
    acc: Map<i32, i64>,
    entry: Seq<char>,
) -> Result<Map<i32, i64>, AttributeFault> {
    if entry.len() == 0 {
        Ok(acc)
    } else {
        match effect_entry(entry) {
            None => Err(AttributeFault::InvalidConfig("invalid effect "@ + debug_quoted(entry))),
            Some((id, raw)) => if !supported_attribute(id) {
                Err(
                    AttributeFault::InvalidConfig(
                        "unsupported Destiny attribute "@ + int_text(id as int) + " at "@ + key,
                    ),
                )
            } else {
                match index.spec_attribute(id) {
                    None => Err(
                        AttributeFault::InvalidConfig(
                            "missing character_attribute "@ + int_text(id as int) + " for "@ + key,
                        ),
                    ),
                    Some(attribute) => if attribute.show_type != expected_show_type(id) {
                        Err(
                            AttributeFault::InvalidConfig(
                                "attribute "@ + int_text(id as int) + " has show_type "@ + int_text(
                                    attribute.show_type as int,
                                ) + ", expected "@ + int_text(expected_show_type(id) as int),
                            ),
                        )
                    } else if i64::MIN <= tenths_of(acc, id) + raw <= i64::MAX {
                        Ok(acc.insert(id, (tenths_of(acc, id) + raw) as i64))
                    } else {
                        Err(AttributeFault::Overflow)
                    },
                }
            },
        }
    }
}

/// Adds the entries in order, stopping at the first fault.
pub open spec fn add_entries(
    index: &DestinyConfigIndex,
    key: Seq<char>,
    acc: Map<i32, i64>,
    entries: Seq<Seq<char>>,
) -> Result<Map<i32, i64>, AttributeFault>
    decreases entries.len(),
{
    if entries.len() == 0 {
        Ok(acc)
    } else {
        match add_entries(index, key, acc, entries.drop_last()) {
            Err(f) => Err(f),
            Ok(m) => add_entry(index, key, m, entries.last()),
        }
    }
}

/// One node to include, or a missing node that stops resolution with `text`.
pub enum AttributeStep {
    Slot { slots_id: i32, stage: i32, node: i32, effect: Seq<char> },
    Missing { text: Seq<char> },
}

/// The consecutive configured nodes of `stage` from `node` on.
pub open spec fn stage_run(index: &DestinyConfigIndex, slots_id: i32, stage: i32, node: int) -> Seq<
    AttributeStep,
>
    decreases i32::MAX + 1 - node,
{
    if node < 1 || node > i32::MAX {
        Seq::empty()
    } else {
        match index.spec_slot(slots_id, stage, node as i32) {
            None => Seq::empty(),
            Some(slot) => seq![
                AttributeStep::Slot { slots_id, stage, node: node as i32, effect: slot.effect },
            ] + stage_run(index, slots_id, stage, node + 1),
        }
    }
}

/// A completed stage contributes every node it configures; a stage without
/// node 1 stops resolution.
pub open spec fn completed_stage_steps(index: &DestinyConfigIndex, slots_id: i32, stage: i32) -> Seq<
    AttributeStep,
> {
    let run = stage_run(index, slots_id, stage, 1);
    if run.len() == 0 {
        seq![AttributeStep::Missing { text: missing_stage_text(slots_id, stage) }]
    } else {
        run
    }
}

/// The steps of the completed stages before `stage`.
pub open spec fn prior_steps(index: &DestinyConfigIndex, slots_id: i32, stage: int) -> Seq<
    AttributeStep,
>
    decreases stage,
{
    if stage <= 1 {
        Seq::empty()
    } else {
        prior_steps(index, slots_id, stage - 1) + completed_stage_steps(
            index,
            slots_id,
            (stage - 1) as i32,
        )
    }
}

/// The steps of nodes 1 through `level` of the current stage.
pub open spec fn current_steps(index: &DestinyConfigIndex, slots_id: i32, stage: i32, level: int) -> Seq<
    AttributeStep,
>
    decreases level,
{
    if level <= 0 {
        Seq::empty()
    } else {
        current_steps(index, slots_id, stage, level - 1).push(
            match index.spec_slot(slots_id, stage, level as i32) {
                Some(slot) => AttributeStep::Slot {
                    slots_id,
                    stage,
                    node: level as i32,
                    effect: slot.effect,
                },
                None => AttributeStep::Missing { text: missing_slot_text(slots_id, stage, level as i32) },
            },
        )
    }
}

/// Every node that a state has reached: all nodes of the earlier stages, then
/// the current stage up to the current level.
pub open spec fn attribute_steps(index: &DestinyConfigIndex, slots_id: i32, state: DestinyState) -> Seq<
    AttributeStep,
> {
    prior_steps(index, slots_id, state.rank as int) + current_steps(
        index,
        slots_id,
        state.rank,
        state.level as int,
    )
}

/// Applies the steps in order, stopping at the first fault.
pub open spec fn apply_steps(index: &DestinyConfigIndex, steps: Seq<AttributeStep>) -> Result<
    Map<i32, i64>,
    AttributeFault,
>
    decreases steps.len(),
{
    if steps.len() == 0 {
        Ok(Map::empty())
    } else {
        match apply_steps(index, steps.drop_last()) {
            Err(f) => Err(f),
            Ok(m) => match steps.last() {
                AttributeStep::Missing { text } => Err(AttributeFault::InvalidState(text)),
                AttributeStep::Slot { slots_id, stage, node, effect } => add_entries(
                    index,
                    slot_trace_key(slots_id, stage, node),
                    m,
                    split(effect, '|'),
                ),
            },
        }
    }
}

/// The summed raw values that `state` reaches for hero `hero_id`: nothing for
/// the zero state, a refusal for a partial state or an unconfigured hero.
pub open spec fn resolved_totals(index: &DestinyConfigIndex, hero_id: i32, state: DestinyState) -> Result<
    Map<i32, i64>,
    AttributeFault,
> {
    if state.rank == 0 && state.level == 0 {
        Ok(Map::empty())
    } else if state.rank <= 0 || state.level <= 0 {
        Err(
            AttributeFault::InvalidState(
                "rank "@ + int_text(state.rank as int) + " level "@ + int_text(state.level as int),
            ),
        )
    } else {
        match index.spec_hero(hero_id) {
            None => Err(AttributeFault::InvalidConfig("missing hero "@ + int_text(hero_id as int))),
            Some(hero) => apply_steps(index, attribute_steps(index, hero.slots_id, state)),
        }
    }
}

/// One attribute's bonus: the direct raw value plus the percentage share of the
/// base, each within `i32`, and the sum within `i32`.
pub open spec fn attribute_bonus(m: Map<i32, i64>, direct: i32, percent: i32, base: i32) -> Option<int> {
    let d = tenths_of(m, direct);
    let scaled = base * tenths_of(m, percent);
    let p = percent_of(tenths_of(m, percent), base as int);
    if i32::MIN <= d <= i32::MAX && i64::MIN <= scaled <= i64::MAX && i32::MIN <= p <= i32::MAX
        && i32::MIN <= d + p <= i32::MAX {
        Some(d + p)
    } else {
        None
    }
}

/// The message for a completed stage without nodes.
pub open spec fn missing_stage_text(slots_id: i32, stage: i32) -> Seq<char> {
    "missing completed Destiny stage "@ + int_text(stage as int) + " for slot group "@ + int_text(
        slots_id as int,
    )
}

/// The message for a reached node that is not configured.
pub open spec fn missing_slot_text(slots_id: i32, stage: i32, node: i32) -> Seq<char> {
    "missing Destiny slot ("@ + int_text(slots_id as int) + ", "@ + int_text(stage as int) + ", "@
        + int_text(node as int) + ")"@
}

/// The trace key of a node: `character_destiny_slots:{slots}:{stage}:{node}`.
pub open spec fn slot_trace_key(slots_id: i32, stage: i32, node: i32) -> Seq<char> {
    "character_destiny_slots:"@ + int_text(slots_id as int) + ":"@ + int_text(stage as int) + ":"@
        + int_text(node as int)
}

/// The trace records the steps in order: each node's key and its effect text.
pub open spec fn trace_matches(trace: Seq<DestinyTrace>, slots_id: i32, steps: Seq<AttributeStep>) -> bool {
    &&& trace.len() == steps.len()
    &&& forall|i: int|
        0 <= i < steps.len() ==> match #[trigger] steps[i] {
            AttributeStep::Slot { stage, node, effect, .. } => trace[i].source_key@ == slot_trace_key(
                slots_id,
                stage,
                node,
            ) && trace[i].detail@ == effect,
            AttributeStep::Missing { .. } => false,
        }
}

/// `e` is the error that `f` describes, message included.
pub open spec fn fault_matches(e: &DestinyResolveError, f: AttributeFault) -> bool {
    match f {
        AttributeFault::InvalidState(t) => *e matches DestinyResolveError::InvalidState(m) && m@ == t,
        AttributeFault::InvalidConfig(t) => *e matches DestinyResolveError::InvalidConfig(m) && m@
            == t,
        AttributeFault::Overflow => *e is Overflow,
    }
}

/// Reads one `id#raw` effect entry.
fn parse_effect_entry(entry: &[char]) -> (r: Option<(i32, i64)>)
    ensures
        r == effect_entry(entry@),
{
    let parts = split_chars(entry, '#');
    if parts.len() != 2 {
        return None;
    }
    assert(parts@[0]@ == pieces_view(parts@)[0]);
    assert(parts@[1]@ == pieces_view(parts@)[1]);
    match (parse_i32(parts[0].as_slice()), parse_i64(parts[1].as_slice())) {
        (Some(id), Some(raw)) => Some((id, raw)),
        _ => None,
    }
}

/// A message made of a fixed text, an attribute id, a joining text and a key.
fn id_message(text: &str, id: i32, join: &str, key: &str) -> (m: String)
    ensures
        m@ == text@ + int_text(id as int) + join@ + key@,
{
    let mut m = String::from_str(text);
    push_int(&mut m, id as i64);
    push_str(&mut m, join);
    push_str(&mut m, key);
    m
}

/// Adds the effect entries of the node with trace key `key` to the running
/// totals.
fn include_slot(
    index: &DestinyConfigIndex,
    key: &str,
    effect: &str,
    raw_tenths: &mut BTreeMap<i32, i64>,
) -> (r: Result<(), DestinyResolveError>)
    ensures
        match add_entries(index, key@, old(raw_tenths)@, split(effect@, '|')) {
            Ok(m) => r is Ok && final(raw_tenths)@ == m,
            Err(f) => r matches Err(e) && fault_matches(&e, f),
        },
{
    let chars = str_chars(effect);
    let entries = split_chars(chars.as_slice(), '|');
    let ghost ev = split(effect@, '|');
    let ghost start = raw_tenths@;
    assert(pieces_view(entries@) == ev);
    let mut i: usize = 0;
    while i < entries.len()
        invariant
            i <= entries@.len(),
            ev == split(effect@, '|'),
            pieces_view(entries@) == ev,
            start == old(raw_tenths)@,
            add_entries(index, key@, start, ev.take(i as int)) == Ok::<
                Map<i32, i64>,
                AttributeFault,
            >(raw_tenths@),
        decreases entries@.len() - i,
    {
        assert(entries@[i as int]@ == ev[i as int]);
        assert(ev.take(i as int + 1).drop_last() =~= ev.take(i as int));
        assert(ev.take(i as int + 1).last() == ev[i as int]);
        let entry = &entries[i];
        if entry.len() > 0 {
            let (id, raw) = match parse_effect_entry(entry.as_slice()) {
                Some(p) => p,
                None => {
                    proof {
                        lemma_add_entries_stops(index, key@, start, ev, i as int + 1);
                    }
                    let text = chars_to_string(entry.as_slice());
                    return Err(
                        DestinyResolveError::InvalidConfig(
                            message_with_quoted("invalid effect ", text.as_str()),
                        ),
                    );
                },
            };
            if !is_supported_destiny_attribute(id) {
                proof {
                    lemma_add_entries_stops(index, key@, start, ev, i as int + 1);
                }
                return Err(
                    DestinyResolveError::InvalidConfig(
                        id_message("unsupported Destiny attribute ", id, " at ", key),
                    ),
                );
            }
            let attribute = match index.attribute(id) {
                Some(a) => a,
                None => {
                    proof {
                        lemma_add_entries_stops(index, key@, start, ev, i as int + 1);
                    }
                    return Err(
                        DestinyResolveError::InvalidConfig(
                            id_message("missing character_attribute ", id, " for ", key),
                        ),
                    );
                },
            };
            let expected: i32 = if 601 <= id && id <= 604 {
                0
            } else {
                1
            };
            if attribute.show_type != expected {
                proof {
                    lemma_add_entries_stops(index, key@, start, ev, i as int + 1);
                }
                let mut m = String::from_str("attribute ");
                push_int(&mut m, id as i64);
                push_str(&mut m, " has show_type ");
                push_int(&mut m, attribute.show_type as i64);
                push_str(&mut m, ", expected ");
                push_int(&mut m, expected as i64);
                return Err(DestinyResolveError::InvalidConfig(m));
            }
            let current: i64 = match raw_tenths.get(&id) {
                Some(v) => *v,
                None => 0,
            };
            assert(current == tenths_of(raw_tenths@, id));
            let total = match current.checked_add(raw) {
                Some(t) => t,
                None => {
                    proof {
                        lemma_add_entries_stops(index, key@, start, ev, i as int + 1);
                    }
                    return Err(DestinyResolveError::Overflow);
                },
            };
            raw_tenths.insert(id, total);
        }
        i = i + 1;
    }
    assert(ev.take(entries@.len() as int) =~= ev);
    Ok(())
}

/// Once a prefix of the entries faults, all of them fault the same way.
proof fn lemma_add_entries_stops(
    index: &DestinyConfigIndex,
    key: Seq<char>,
    acc: Map<i32, i64>,
    entries: Seq<Seq<char>>,
    n: int,
)
    requires
        0 <= n <= entries.len(),
        add_entries(index, key, acc, entries.take(n)) is Err,
    ensures
        add_entries(index, key, acc, entries) == add_entries(index, key, acc, entries.take(n)),
    decreases entries.len() - n,
{
    if n < entries.len() {
        assert(entries.take(n + 1).drop_last() =~= entries.take(n));
        lemma_add_entries_stops(index, key, acc, entries, n + 1);
    } else {
        assert(entries.take(n) =~= entries);
    }
}

/// Once a prefix of the steps faults, all of them fault the same way.
proof fn lemma_apply_steps_stops(index: &DestinyConfigIndex, steps: Seq<AttributeStep>, n: int)
    requires
        0 <= n <= steps.len(),
        apply_steps(index, steps.take(n)) is Err,
    ensures
        apply_steps(index, steps) == apply_steps(index, steps.take(n)),
    decreases steps.len() - n,
{
    if n < steps.len() {
        assert(steps.take(n + 1).drop_last() =~= steps.take(n));
        lemma_apply_steps_stops(index, steps, n + 1);
    } else {
        assert(steps.take(n) =~= steps);
    }
}

proof fn lemma_apply_steps_push(index: &DestinyConfigIndex, steps: Seq<AttributeStep>, s: AttributeStep)
    ensures
        apply_steps(index, steps.push(s)) == match apply_steps(index, steps) {
            Err(f) => Err(f),
            Ok(m) => match s {
                AttributeStep::Missing { text } => Err(AttributeFault::InvalidState(text)),
                AttributeStep::Slot { slots_id, stage, node, effect } => add_entries(
                    index,
                    slot_trace_key(slots_id, stage, node),
                    m,
                    split(effect, '|'),
                ),
            },
        },
{
    assert(steps.push(s).drop_last() =~= steps);
}

/// Once a prefix of the steps faults, any extension of it faults the same way.
proof fn lemma_apply_prefix_fault(index: &DestinyConfigIndex, a: Seq<AttributeStep>, b: Seq<AttributeStep>)
    requires
        a.is_prefix_of(b),
        apply_steps(index, a) is Err,
    ensures
        apply_steps(index, b) == apply_steps(index, a),
{
    assert(b.take(a.len() as int) =~= a);
    lemma_apply_steps_stops(index, b, a.len() as int);
}

proof fn lemma_prefix_trans(a: Seq<AttributeStep>, b: Seq<AttributeStep>, c: Seq<AttributeStep>)
    requires
        a.is_prefix_of(b),
        b.is_prefix_of(c),
    ensures
        a.is_prefix_of(c),
{
    assert forall|i: int| 0 <= i < a.len() implies a[i] == c[i] by {
        assert(a[i] == b[i]);
    }
    assert(a =~= c.subrange(0, a.len() as int));
}

proof fn lemma_prefix_append(a: Seq<AttributeStep>, b: Seq<AttributeStep>)
    ensures
        a.is_prefix_of(a + b),
{
    assert(a =~= (a + b).subrange(0, a.len() as int));
}

/// The completed stages before `s` lead the completed stages before `t`.
proof fn lemma_prior_prefix(index: &DestinyConfigIndex, slots_id: i32, s: int, t: int)
    requires
        s <= t,
    ensures
        prior_steps(index, slots_id, s).is_prefix_of(prior_steps(index, slots_id, t)),
    decreases t - s,
{
    if s < t {
        lemma_prior_prefix(index, slots_id, s, t - 1);
        if t > 1 {
            lemma_prefix_append(
                prior_steps(index, slots_id, t - 1),
                completed_stage_steps(index, slots_id, (t - 1) as i32),
            );
            lemma_prefix_trans(
                prior_steps(index, slots_id, s),
                prior_steps(index, slots_id, t - 1),
                prior_steps(index, slots_id, t),
            );
        } else {
            assert(prior_steps(index, slots_id, s) =~= Seq::<AttributeStep>::empty());
            assert(prior_steps(index, slots_id, s).is_prefix_of(prior_steps(index, slots_id, t)));
        }
    } else {
        assert(prior_steps(index, slots_id, s) =~= prior_steps(index, slots_id, t).subrange(
            0,
            prior_steps(index, slots_id, s).len() as int,
        ));
    }
}

/// The first nodes of the current stage lead all of its reached nodes.
proof fn lemma_current_prefix(index: &DestinyConfigIndex, slots_id: i32, stage: i32, k: int, level: int)
    requires
        k <= level,
    ensures
        current_steps(index, slots_id, stage, k).is_prefix_of(
            current_steps(index, slots_id, stage, level),
        ),
    decreases level - k,
{
    if k < level {
        lemma_current_prefix(index, slots_id, stage, k, level - 1);
        if level > 0 {
            let prev = current_steps(index, slots_id, stage, level - 1);
            assert(prev.is_prefix_of(current_steps(index, slots_id, stage, level))) by {
                assert(prev =~= current_steps(index, slots_id, stage, level).subrange(
                    0,
                    prev.len() as int,
                ));
            }
            lemma_prefix_trans(current_steps(index, slots_id, stage, k), prev, current_steps(
                index,
                slots_id,
                stage,
                level,
            ));
        } else {
            assert(current_steps(index, slots_id, stage, k) =~= Seq::<AttributeStep>::empty());
            assert(current_steps(index, slots_id, stage, k).is_prefix_of(
                current_steps(index, slots_id, stage, level),
            ));
        }
    } else {
        let c = current_steps(index, slots_id, stage, k);
        assert(c =~= current_steps(index, slots_id, stage, level).subrange(0, c.len() as int));
    }
}

proof fn lemma_stage_run_step(index: &DestinyConfigIndex, slots_id: i32, stage: i32, node: int)
    requires
        1 <= node <= i32::MAX,
        index.spec_slot(slots_id, stage, node as i32) is Some,
    ensures
        stage_run(index, slots_id, stage, node) == seq![
            AttributeStep::Slot {
                slots_id,
                stage,
                node: node as i32,
                effect: index.spec_slot(slots_id, stage, node as i32).unwrap().effect,
            },
        ] + stage_run(index, slots_id, stage, node + 1),
{
}

/// No totals give no bonus.
proof fn lemma_no_bonus(base: i32, direct: i32, percent: i32)
    ensures
        attribute_bonus(Map::<i32, i64>::empty(), direct, percent, base) == Some(0int),
{
    assert(base * 0int == 0);
    assert(percent_of(0, base as int) == 0);
}

/// Builds `character_destiny_slots:{slots}:{stage}:{node}`.
fn slot_key(slots_id: i32, stage: i32, node: i32) -> (key: String)
    ensures
        key@ == slot_trace_key(slots_id, stage, node),
{
    let mut key = String::from_str("character_destiny_slots:");
    push_int(&mut key, slots_id as i64);
    push_str(&mut key, ":");
    push_int(&mut key, stage as i64);
    push_str(&mut key, ":");
    push_int(&mut key, node as i64);
    key
}

proof fn lemma_trace_push(
    trace: Seq<DestinyTrace>,
    slots_id: i32,
    steps: Seq<AttributeStep>,
    t: DestinyTrace,
    s: AttributeStep,
)
    requires
        trace_matches(trace, slots_id, steps),
        match s {
            AttributeStep::Slot { stage, node, effect, .. } => t.source_key@ == slot_trace_key(
                slots_id,
                stage,
                node,
            ) && t.detail@ == effect,
            AttributeStep::Missing { .. } => false,
        },
    ensures
        trace_matches(trace.push(t), slots_id, steps.push(s)),
{
    assert forall|i: int| 0 <= i < steps.push(s).len() implies match #[trigger] steps.push(s)[i] {
        AttributeStep::Slot { stage, node, effect, .. } => trace.push(t)[i].source_key@ == slot_trace_key(
            slots_id,
            stage,
            node,
        ) && trace.push(t)[i].detail@ == effect,
        AttributeStep::Missing { .. } => false,
    } by {
        if i < steps.len() {
            assert(steps.push(s)[i] == steps[i]);
            assert(trace.push(t)[i] == trace[i]);
        }
    }
}

/// One attribute's bonus from the totals.
fn attribute_bonus_of(raw_tenths: &BTreeMap<i32, i64>, direct: i32, percent: i32, base: i32) -> (r:
    Result<i32, DestinyResolveError>)
    ensures
        match attribute_bonus(raw_tenths@, direct, percent, base) {
            Some(v) => r == Ok::<i32, DestinyResolveError>(v as i32),
            None => r matches Err(e) && e is Overflow,
        },
{
    let d: i64 = match raw_tenths.get(&direct) {
        Some(v) => *v,
        None => 0,
    };
    assert(d == tenths_of(raw_tenths@, direct));
    let p: i64 = match raw_tenths.get(&percent) {
        Some(v) => *v,
        None => 0,
    };
    assert(p == tenths_of(raw_tenths@, percent));
    if !(i32::MIN as i64 <= d && d <= i32::MAX as i64) {
        return Err(DestinyResolveError::Overflow);
    }
    let share = match FixedTenths(p).floor_percent_of(base) {
        Ok(v) => v,
        Err(e) => return Err(e),
    };
    match (d as i32).checked_add(share) {
        Some(v) => Ok(v),
        None => Err(DestinyResolveError::Overflow),
    }
}

/// What resolving the Destiny attributes of `state` for hero `hero_id` over
/// `base` gives: the summed raw values, the four base attribute bonuses and
/// one trace entry per included node, or the fault of the first failing step.
pub open spec fn destiny_attributes_result(
    index: &DestinyConfigIndex,
    hero_id: i32,
    state: DestinyState,
    base: HeroBaseAttributes,
    r: &Result<ResolvedDestinyAttributes, DestinyResolveError>,
) -> bool {
    match r {
        Ok(a) => {
            &&& resolved_totals(index, hero_id, state) == Ok::<Map<i32, i64>, AttributeFault>(
                a.raw_tenths@,
            )
            &&& attribute_bonus(a.raw_tenths@, 601, 605, base.hp) == Some(a.hp as int)
            &&& attribute_bonus(a.raw_tenths@, 602, 606, base.attack) == Some(a.attack as int)
            &&& attribute_bonus(a.raw_tenths@, 603, 607, base.defense) == Some(
                a.defense as int,
            )
            &&& attribute_bonus(a.raw_tenths@, 604, 608, base.mdefense) == Some(
                a.mdefense as int,
            )
            &&& a.real_hurt_rate == 0 && a.poison_add_rate == 0
            &&& a.ex_attr == unset_ex() && a.sp_attr == unset_sp()
            &&& state.rank == 0 && state.level == 0 ==> a.trace@.len() == 0
            &&& !(state.rank == 0 && state.level == 0) ==> match index.spec_hero(hero_id) {
                Some(hero) => trace_matches(
                    a.trace@,
                    hero.slots_id,
                    attribute_steps(index, hero.slots_id, state),
                ),
                None => false,
            }
        },
        Err(e) => match resolved_totals(index, hero_id, state) {
            Err(f) => fault_matches(&e, f),
            Ok(m) => e is Overflow && (attribute_bonus(m, 601, 605, base.hp) is None
                || attribute_bonus(m, 602, 606, base.attack) is None || attribute_bonus(
                m,
                603,
                607,
                base.defense,
            ) is None || attribute_bonus(m, 604, 608, base.mdefense) is None),
        },
    }
}

/// Sums the effects of every node that `state` has reached for hero
/// `hero_id`: all nodes of each earlier stage, then nodes 1 through the
/// current level of the current stage. The four base attributes gain their
/// direct raw value plus their percentage share of `base`. The zero state
/// adds nothing; a partial state, a missing stage or node is `InvalidState`;
/// an unconfigured hero or malformed or unsupported effect is `InvalidConfig`;
/// arithmetic beyond the integer ranges is `Overflow`.
pub fn resolve_destiny_attributes(
    index: &DestinyConfigIndex,
    hero_id: i32,
    state: DestinyState,
    base: HeroBaseAttributes,
) -> (r: Result<ResolvedDestinyAttributes, DestinyResolveError>)
    ensures
        destiny_attributes_result(index, hero_id, state, base, &r),
{
    let mut raw_tenths: BTreeMap<i32, i64> = BTreeMap::new();
    let mut trace: Vec<DestinyTrace> = Vec::new();
    if state.rank == 0 && state.level == 0 {
        assert(raw_tenths@ =~= Map::<i32, i64>::empty());
        proof {
            lemma_no_bonus(base.hp, 601, 605);
            lemma_no_bonus(base.attack, 602, 606);
            lemma_no_bonus(base.defense, 603, 607);
            lemma_no_bonus(base.mdefense, 604, 608);
        }
        return Ok(ResolvedDestinyAttributes {
            hp: 0,
            attack: 0,
            defense: 0,
            mdefense: 0,
            raw_tenths,
            ex_attr: HeroExAttribute::unset(),
            sp_attr: HeroSpAttribute::unset(),
            real_hurt_rate: 0,
            poison_add_rate: 0,
            trace,
        });
    }
    if state.rank <= 0 || state.level <= 0 {
        let mut m = String::from_str("rank ");
        push_int(&mut m, state.rank as i64);
        push_str(&mut m, " level ");
        push_int(&mut m, state.level as i64);
        return Err(DestinyResolveError::InvalidState(m));
    }
    let hero = match index.hero(hero_id) {
        Some(h) => h,
        None => {
            let mut m = String::from_str("missing hero ");
            push_int(&mut m, hero_id as i64);
            return Err(DestinyResolveError::InvalidConfig(m));
        },
    };
    let slots_id = hero.slots_id;
    let ghost all = attribute_steps(index, slots_id, state);
    assert(resolved_totals(index, hero_id, state) == apply_steps(index, all));
    proof {
        lemma_prefix_append(prior_steps(index, slots_id, state.rank as int), current_steps(
            index,
            slots_id,
            state.rank,
            state.level as int,
        ));
    }
    assert(raw_tenths@ =~= Map::<i32, i64>::empty());
    let ghost mut done: Seq<AttributeStep> = Seq::empty();
    let mut stage: i32 = 1;
    while stage < state.rank
        invariant
            1 <= stage <= state.rank,
            all == attribute_steps(index, slots_id, state),
            resolved_totals(index, hero_id, state) == apply_steps(index, all),
            !(state.rank == 0 && state.level == 0),
            index.spec_hero(hero_id) matches Some(h) && h.slots_id == slots_id,
            prior_steps(index, slots_id, state.rank as int).is_prefix_of(all),
            done == prior_steps(index, slots_id, stage as int),
            apply_steps(index, done) == Ok::<Map<i32, i64>, AttributeFault>(raw_tenths@),
            trace_matches(trace@, slots_id, done),
        decreases state.rank - stage,
    {
        proof {
            lemma_prior_prefix(index, slots_id, stage as int + 1, state.rank as int);
            lemma_prefix_trans(
                prior_steps(index, slots_id, stage as int + 1),
                prior_steps(index, slots_id, state.rank as int),
                all,
            );
        }
        let ghost full_run = stage_run(index, slots_id, stage, 1);
        let ghost mut run: Seq<AttributeStep> = Seq::empty();
        let mut node: i64 = 1;
        let mut finished = false;
        while !finished
            invariant
                1 <= stage < state.rank,
                1 <= node <= i32::MAX as i64 + 1,
                full_run == stage_run(index, slots_id, stage, 1),
                resolved_totals(index, hero_id, state) == apply_steps(index, all),
                full_run == run + stage_run(index, slots_id, stage, node as int),
                run.len() == node - 1,
                finished ==> stage_run(index, slots_id, stage, node as int).len() == 0,
                done == prior_steps(index, slots_id, stage as int),
                prior_steps(index, slots_id, stage as int + 1).is_prefix_of(all),
                apply_steps(index, done + run) == Ok::<Map<i32, i64>, AttributeFault>(raw_tenths@),
                trace_matches(trace@, slots_id, done + run),
            decreases i32::MAX as i64 + 2 - node - if finished { 1int } else { 0int },
        {
            if node > i32::MAX as i64 {
                finished = true;
            } else {
                match index.slot(slots_id, stage, node as i32) {
                    None => {
                        finished = true;
                    },
                    Some(slot) => {
                        proof {
                            lemma_stage_run_step(index, slots_id, stage, node as int);
                        }
                        let ghost step = AttributeStep::Slot {
                            slots_id,
                            stage,
                            node: node as i32,
                            effect: slot.effect@,
                        };
                        proof {
                            lemma_apply_steps_push(index, done + run, step);
                            assert((done + run).push(step) =~= done + run.push(step));
                            assert(full_run =~= run.push(step) + stage_run(
                                index,
                                slots_id,
                                stage,
                                node as int + 1,
                            ));
                        }
                        let key = slot_key(slots_id, stage, node as i32);
                        match include_slot(index, key.as_str(), slot.effect.as_str(), &mut raw_tenths) {
                            Ok(()) => {},
                            Err(e) => {
                                proof {
                                    let next = done + run.push(step);
                                    assert(next.is_prefix_of(prior_steps(index, slots_id, stage as int + 1))) by {
                                        assert(completed_stage_steps(index, slots_id, stage) == full_run);
                                        assert(next =~= prior_steps(index, slots_id, stage as int + 1).subrange(0, next.len() as int));
                                    }
                                    lemma_prefix_trans(next, prior_steps(index, slots_id, stage as int + 1), all);
                                    lemma_apply_prefix_fault(index, next, all);
                                }
                                return Err(e);
                            },
                        }
                        let t = DestinyTrace { source_key: key, detail: slot.effect.clone() };
                        proof {
                            lemma_trace_push(trace@, slots_id, done + run, t, step);
                        }
                        trace.push(t);
                        proof {
                            run = run.push(step);
                        }
                        node = node + 1;
                    },
                }
            }
        }
        assert(full_run =~= run);
        if node == 1 {
            proof {
                let missing = AttributeStep::Missing { text: missing_stage_text(slots_id, stage) };
                let next = done.push(missing);
                assert(completed_stage_steps(index, slots_id, stage) =~= seq![missing]);
                assert(prior_steps(index, slots_id, stage as int + 1) =~= next);
                lemma_apply_steps_push(index, done, missing);
                lemma_apply_prefix_fault(index, next, all);
            }
            let mut m = String::from_str("missing completed Destiny stage ");
            push_int(&mut m, stage as i64);
            push_str(&mut m, " for slot group ");
            push_int(&mut m, slots_id as i64);
            return Err(DestinyResolveError::InvalidState(m));
        }
        proof {
            assert(completed_stage_steps(index, slots_id, stage) == run);
            done = done + run;
        }
        stage = stage + 1;
    }
    proof {
        lemma_prefix_append(prior_steps(index, slots_id, state.rank as int), current_steps(
            index,
            slots_id,
            state.rank,
            state.level as int,
        ));
    }
    let ghost prior = done;
    let mut node: i64 = 1;
    while node <= state.level as i64
        invariant
            1 <= node <= state.level as int + 1,
            1 <= state.level,
            all == attribute_steps(index, slots_id, state),
            all == prior + current_steps(index, slots_id, state.rank, state.level as int),
            resolved_totals(index, hero_id, state) == apply_steps(index, all),
            !(state.rank == 0 && state.level == 0),
            index.spec_hero(hero_id) matches Some(h) && h.slots_id == slots_id,
            done == prior + current_steps(index, slots_id, state.rank, node - 1),
            apply_steps(index, done) == Ok::<Map<i32, i64>, AttributeFault>(raw_tenths@),
            trace_matches(trace@, slots_id, done),
        decreases state.level as int + 1 - node,
    {
        proof {
            lemma_current_prefix(index, slots_id, state.rank, node as int, state.level as int);
            assert((prior + current_steps(index, slots_id, state.rank, node as int)).is_prefix_of(all)) by {
                let c = current_steps(index, slots_id, state.rank, node as int);
                let cl = current_steps(index, slots_id, state.rank, state.level as int);
                assert(prior + c =~= (prior + cl).subrange(0, (prior + c).len() as int)) by {
                    assert forall|i: int| 0 <= i < (prior + c).len() implies (prior + c)[i]
                        == (prior + cl)[i] by {
                        if i >= prior.len() {
                            assert(c[i - prior.len()] == cl[i - prior.len()]);
                        }
                    }
                }
            }
            assert(current_steps(index, slots_id, state.rank, node as int) =~= current_steps(
                index,
                slots_id,
                state.rank,
                node - 1,
            ).push(
                match index.spec_slot(slots_id, state.rank, node as i32) {
                    Some(slot) => AttributeStep::Slot {
                        slots_id,
                        stage: state.rank,
                        node: node as i32,
                        effect: slot.effect,
                    },
                    None => AttributeStep::Missing {
                        text: missing_slot_text(slots_id, state.rank, node as i32),
                    },
                },
            ));
        }
        let ghost next = prior + current_steps(index, slots_id, state.rank, node as int);
        let slot = match index.slot(slots_id, state.rank, node as i32) {
            Some(s) => s,
            None => {
                proof {
                    let missing = AttributeStep::Missing {
                        text: missing_slot_text(slots_id, state.rank, node as i32),
                    };
                    assert(next =~= done.push(missing));
                    lemma_apply_steps_push(index, done, missing);
                    lemma_apply_prefix_fault(index, next, all);
                }
                let mut m = String::from_str("missing Destiny slot (");
                push_int(&mut m, slots_id as i64);
                push_str(&mut m, ", ");
                push_int(&mut m, state.rank as i64);
                push_str(&mut m, ", ");
                push_int(&mut m, node as i64);
                push_str(&mut m, ")");
                return Err(DestinyResolveError::InvalidState(m));
            },
        };
        let ghost step = AttributeStep::Slot {
            slots_id,
            stage: state.rank,
            node: node as i32,
            effect: slot.effect@,
        };
        proof {
            assert(next =~= done.push(step));
            lemma_apply_steps_push(index, done, step);
        }
        let key = slot_key(slots_id, state.rank, node as i32);
        match include_slot(index, key.as_str(), slot.effect.as_str(), &mut raw_tenths) {
            Ok(()) => {},
            Err(e) => {
                proof {
                    lemma_apply_prefix_fault(index, next, all);
                }
                return Err(e);
            },
        }
        let t = DestinyTrace { source_key: key, detail: slot.effect.clone() };
        proof {
            lemma_trace_push(trace@, slots_id, done, t, step);
            done = next;
        }
        trace.push(t);
        node = node + 1;
    }
    assert(done =~= all);
    let hp = match attribute_bonus_of(&raw_tenths, 601, 605, base.hp) {
        Ok(v) => v,
        Err(e) => return Err(e),
    };
    let attack = match attribute_bonus_of(&raw_tenths, 602, 606, base.attack) {
        Ok(v) => v,
        Err(e) => return Err(e),
    };
    let defense = match attribute_bonus_of(&raw_tenths, 603, 607, base.defense) {
        Ok(v) => v,
        Err(e) => return Err(e),
    };
    let mdefense = match attribute_bonus_of(&raw_tenths, 604, 608, base.mdefense) {
        Ok(v) => v,
        Err(e) => return Err(e),
    };
    Ok(ResolvedDestinyAttributes {
        hp,
        attack,
        defense,
        mdefense,
        raw_tenths,
        ex_attr: HeroExAttribute::unset(),
        sp_attr: HeroSpAttribute::unset(),
        real_hurt_rate: 0,
        poison_add_rate: 0,
        trace,
    })
}

} // verus!
