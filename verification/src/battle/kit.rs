//! The combat kit of a battle hero: skill groups, ultimate, passives and power
//! meters, after rank replacement, ex skill levels and the active Destiny facet.
use crate::battle::types::{DestinyResolveError, DestinyState, DestinyTrace, HeroBuildContext};
use crate::config::{
    parse_id_list, Character, CharacterDestinyFacets, CharacterDestinyFacetsView, CharacterRankReplace,
    CharacterRankReplaceView, CharacterView, DestinyConfigIndex, GameDB, SkillPassiveLevel,
};
use crate::table::contains_id;
use crate::text::{
    chars_to_string, debug_quoted, debug_str, int_text, joined_ids, message_with_quoted,
    push_joined_ids, parse_i32,
    parse_i32_spec, pieces_view, push_int, push_str, split, split_chars, str_chars, nat_text,
    is_digit, lemma_nat_text_value,
};
use vstd::prelude::*;

verus! {

/// One `source#target` skill exchange.
#[derive(Clone, Copy, Debug, PartialEq, Eq, Structural)]
pub struct SkillExchange {
    pub source: i32,
    pub target: i32,
}

/// One `source#target` entry as an exchange: both ids positive `i32`s and no
/// third field.
pub open spec fn exchange_entry(entry: Seq<char>) -> Option<SkillExchange> {
    let parts = split(entry, '#');
    if parts.len() != 2 {
        None
    } else {
        match (parse_i32_spec(parts[0]), parse_i32_spec(parts[1])) {
            (Some(source), Some(target)) => if source > 0 && target > 0 {
                Some(SkillExchange { source, target })
            } else {
                None
            },
            _ => None,
        }
    }
}

/// Why an entry is not an exchange, in the order it is checked: the source
/// id, the target id, a third field, then the ids' signs.
#[derive(Clone, Copy, Debug, PartialEq, Eq)]
pub enum ExchangeFault {
    Source,
    Target,
    ExtraField,
    NonPositive,
}

/// The first check an entry fails.
pub open spec fn exchange_fault(entry: Seq<char>) -> ExchangeFault {
    let parts = split(entry, '#');
    if parse_i32_spec(parts[0]) is None {
        ExchangeFault::Source
    } else if parts.len() < 2 || parse_i32_spec(parts[1]) is None {
        ExchangeFault::Target
    } else if parts.len() > 2 {
        ExchangeFault::ExtraField
    } else {
        ExchangeFault::NonPositive
    }
}

/// The message of an entry of `value` that is not an exchange.
pub open spec fn exchange_fault_text(entry: Seq<char>, value: Seq<char>) -> Seq<char> {
    match exchange_fault(entry) {
        ExchangeFault::Source => "invalid exchange source in "@ + debug_quoted(value),
        ExchangeFault::Target => "invalid exchange target in "@ + debug_quoted(value),
        ExchangeFault::ExtraField => "invalid skill exchange "@ + debug_quoted(entry) + " in "@
            + debug_quoted(value),
        ExchangeFault::NonPositive => "skill exchange ids must be positive in "@ + debug_quoted(
            entry,
        ) + " from "@ + debug_quoted(value),
    }
}

/// The message for the first entry from `i` on that is not an exchange.
pub open spec fn first_fault_text(entries: Seq<Seq<char>>, i: int, value: Seq<char>) -> Seq<char>
    decreases entries.len() - i,
{
    if i < 0 || i >= entries.len() {
        Seq::empty()
    } else if exchange_entry(entries[i]) is None {
        exchange_fault_text(entries[i], value)
    } else {
        first_fault_text(entries, i + 1, value)
    }
}

/// The message of an invalid exchange value: that of its first entry that
/// is not an exchange.
pub open spec fn exchanges_fault_text(value: Seq<char>) -> Seq<char> {
    let body = if value.len() > 0 && value.last() == '|' {
        value.drop_last()
    } else {
        value
    };
    first_fault_text(split(body, '|'), 0, value)
}

/// The exchanges of a list of entries, if each one is an exchange.
pub open spec fn exchange_list(entries: Seq<Seq<char>>) -> Option<Seq<SkillExchange>>
    decreases entries.len(),
{
    if entries.len() == 0 {
        Some(Seq::empty())
    } else {
        match (exchange_list(entries.drop_last()), exchange_entry(entries.last())) {
            (Some(list), Some(x)) => Some(list.push(x)),
            _ => None,
        }
    }
}

/// The exchanges that a `|`-separated value lists, in declared order. An empty
/// value lists none; one trailing `|` is ignored; any other empty entry, a
/// malformed entry or a non-positive id makes the value invalid.
pub open spec fn exchanges_of(value: Seq<char>) -> Option<Seq<SkillExchange>> {
    if value.len() == 0 {
        Some(Seq::empty())
    } else {
        let body = if value.last() == '|' {
            value.drop_last()
        } else {
            value
        };
        exchange_list(split(body, '|'))
    }
}

// ---------------------------------------------------------------------------
// Writing exchanges
// ---------------------------------------------------------------------------

/// The text of one exchange: `source#target`.
pub open spec fn exchange_text(x: SkillExchange) -> Seq<char> {
    nat_text(x.source as nat) + seq!['#'] + nat_text(x.target as nat)
}

/// The exchanges written one after another, `|`-separated.
pub open spec fn exchanges_text(xs: Seq<SkillExchange>) -> Seq<char>
    decreases xs.len(),
{
    if xs.len() <= 1 {
        if xs.len() == 0 {
            Seq::empty()
        } else {
            exchange_text(xs[0])
        }
    } else {
        exchanges_text(xs.drop_last()) + seq!['|'] + exchange_text(xs.last())
    }
}

/// Splitting at a separator placed between two texts splits each of them.
proof fn lemma_split_join(s: Seq<char>, t: Seq<char>, sep: char)
    ensures
        split(s + seq![sep] + t, sep) == split(s, sep) + split(t, sep),
    decreases t.len(),
{
    let u = s + seq![sep] + t;
    if t.len() == 0 {
        assert(u.drop_last() =~= s);
        assert(split(t, sep) =~= seq![Seq::<char>::empty()]);
    } else {
        lemma_split_join(s, t.drop_last(), sep);
        assert(u.drop_last() =~= s + seq![sep] + t.drop_last());
        assert(u.last() == t.last());
        let ps = split(s, sep);
        let pt = split(t.drop_last(), sep);
        crate::text::lemma_split_nonempty(t.drop_last(), sep);
        if t.last() == sep {
            assert((ps + pt).push(Seq::<char>::empty()) =~= ps + pt.push(Seq::<char>::empty()));
        } else {
            assert((ps + pt).update((ps + pt).len() - 1, (ps + pt).last().push(t.last())) =~= ps
                + pt.update(pt.len() - 1, pt.last().push(t.last())));
        }
    }
}

/// A decimal text has no separator in it and reads back as its number.
proof fn lemma_number_text(n: nat, sep: char)
    requires
        !is_digit(sep),
        n <= i32::MAX,
    ensures
        !nat_text(n).contains(sep),
        split(nat_text(n), sep) == seq![nat_text(n)],
        parse_i32_spec(nat_text(n)) == Some(n as i32),
        nat_text(n).len() > 0 && is_digit(nat_text(n).last()),
{
    lemma_nat_text_value(n);
    let s = nat_text(n);
    if s.contains(sep) {
        let j = choose|j: int| 0 <= j < s.len() && s[j] == sep;
        assert(is_digit(s[j]));
    }
    crate::text::lemma_split_no_sep(s, sep);
    assert(is_digit(s[s.len() - 1]));
    assert(!(s[0] == '+' || s[0] == '-')) by {
        assert(is_digit(s[0]));
    }
}

/// One written exchange reads back as itself.
proof fn lemma_exchange_text(x: SkillExchange)
    requires
        x.source > 0 && x.target > 0,
    ensures
        exchange_entry(exchange_text(x)) == Some(x),
        !exchange_text(x).contains('|'),
        split(exchange_text(x), '|') == seq![exchange_text(x)],
        exchange_text(x).len() > 0 && exchange_text(x).last() != '|',
{
    let a = nat_text(x.source as nat);
    let b = nat_text(x.target as nat);
    lemma_number_text(x.source as nat, '#');
    lemma_number_text(x.target as nat, '#');
    lemma_number_text(x.source as nat, '|');
    lemma_number_text(x.target as nat, '|');
    lemma_split_join(a, b, '#');
    assert(split(exchange_text(x), '#') =~= seq![a, b]);
    let e = exchange_text(x);
    if e.contains('|') {
        let j = choose|j: int| 0 <= j < e.len() && e[j] == '|';
        if j < a.len() {
            assert(a[j] == '|');
        } else if j == a.len() {
        } else {
            assert(b[j - a.len() - 1] == '|');
        }
    }
    crate::text::lemma_split_no_sep(e, '|');
    assert(e.last() == b.last());
}

/// The pieces of written exchanges are the written exchanges, and they read
/// back as the list.
proof fn lemma_exchanges_text(xs: Seq<SkillExchange>)
    requires
        xs.len() >= 1,
        forall|i: int| 0 <= i < xs.len() ==> (#[trigger] xs[i]).source > 0 && xs[i].target > 0,
    ensures
        exchange_list(split(exchanges_text(xs), '|')) == Some(xs),
        exchanges_text(xs).len() > 0 && exchanges_text(xs).last() != '|',
    decreases xs.len(),
{
    if xs.len() == 1 {
        lemma_exchange_text(xs[0]);
        let p = split(exchange_text(xs[0]), '|');
        assert(p.drop_last() =~= Seq::<Seq<char>>::empty());
        assert(exchange_list(p.drop_last()) == Some(Seq::<SkillExchange>::empty()));
        assert(seq![xs[0]] =~= xs);
    } else {
        let d = xs.drop_last();
        assert forall|i: int| 0 <= i < d.len() implies (#[trigger] d[i]).source > 0 && d[i].target > 0 by {
            assert(d[i] == xs[i]);
        }
        lemma_exchanges_text(d);
        lemma_exchange_text(xs.last());
        assert(xs.last() == xs[xs.len() - 1]);
        lemma_split_join(exchanges_text(d), exchange_text(xs.last()), '|');
        let p = split(exchanges_text(xs), '|');
        assert(p =~= split(exchanges_text(d), '|').push(exchange_text(xs.last())));
        assert(p.drop_last() =~= split(exchanges_text(d), '|'));
        assert(d.push(xs.last()) =~= xs);
    }
}

/// Writing positive exchanges `source#target`, `|`-separated, and reading
/// them back gives the same exchanges in the same order, with or without one
/// trailing `|`; the empty text reads as no exchanges.
pub proof fn exchanges_text_round_trips(xs: Seq<SkillExchange>)
    requires
        forall|i: int| 0 <= i < xs.len() ==> (#[trigger] xs[i]).source > 0 && xs[i].target > 0,
    ensures
        exchanges_of(exchanges_text(xs)) == Some(xs),
        xs.len() > 0 ==> exchanges_of(exchanges_text(xs) + seq!['|']) == Some(xs),
{
    if xs.len() == 0 {
        assert(exchanges_text(xs) =~= Seq::<char>::empty());
        assert(xs =~= Seq::<SkillExchange>::empty());
    } else {
        lemma_exchanges_text(xs);
        let t = exchanges_text(xs);
        assert((t + seq!['|']).drop_last() =~= t);
        assert((t + seq!['|']).last() == '|');
    }
}

proof fn lemma_exchange_list_prefix(entries: Seq<Seq<char>>, n: int)
    requires
        0 <= n <= entries.len(),
        exchange_list(entries.take(n)) is None,
    ensures
        exchange_list(entries) is None,
    decreases entries.len() - n,
{
    if n < entries.len() {
        assert(entries.take(n + 1).drop_last() =~= entries.take(n));
        lemma_exchange_list_prefix(entries, n + 1);
    } else {
        assert(entries.take(n) =~= entries);
    }
}

fn parse_exchange(entry: &[char]) -> (r: Result<SkillExchange, ExchangeFault>)
    ensures
        match r {
            Ok(x) => exchange_entry(entry@) == Some(x),
            Err(f) => exchange_entry(entry@) is None && f == exchange_fault(entry@),
        },
{
    let parts = split_chars(entry, '#');
    proof {
        crate::text::lemma_split_nonempty(entry@, '#');
    }
    assert(parts@[0]@ == pieces_view(parts@)[0]);
    let source = match parse_i32(parts[0].as_slice()) {
        Some(v) => v,
        None => return Err(ExchangeFault::Source),
    };
    if parts.len() < 2 {
        return Err(ExchangeFault::Target);
    }
    assert(parts@[1]@ == pieces_view(parts@)[1]);
    let target = match parse_i32(parts[1].as_slice()) {
        Some(v) => v,
        None => return Err(ExchangeFault::Target),
    };
    if parts.len() > 2 {
        return Err(ExchangeFault::ExtraField);
    }
    if source > 0 && target > 0 {
        Ok(SkillExchange { source, target })
    } else {
        Err(ExchangeFault::NonPositive)
    }
}

/// The message of an entry of `value` that is not an exchange.
fn exchange_fault_message(fault: ExchangeFault, entry: &[char], value: &str) -> (m: String)
    ensures
        fault == exchange_fault(entry@) ==> m@ == exchange_fault_text(entry@, value@),
{
    let quoted_value = debug_str(value);
    let text = chars_to_string(entry);
    let quoted_entry = debug_str(text.as_str());
    match fault {
        ExchangeFault::Source => {
            let mut m = String::from_str("invalid exchange source in ");
            push_str(&mut m, quoted_value.as_str());
            m
        },
        ExchangeFault::Target => {
            let mut m = String::from_str("invalid exchange target in ");
            push_str(&mut m, quoted_value.as_str());
            m
        },
        ExchangeFault::ExtraField => {
            let mut m = String::from_str("invalid skill exchange ");
            push_str(&mut m, quoted_entry.as_str());
            push_str(&mut m, " in ");
            push_str(&mut m, quoted_value.as_str());
            m
        },
        ExchangeFault::NonPositive => {
            let mut m = String::from_str("skill exchange ids must be positive in ");
            push_str(&mut m, quoted_entry.as_str());
            push_str(&mut m, " from ");
            push_str(&mut m, quoted_value.as_str());
            m
        },
    }
}

/// Reads the skill exchanges of a configuration value, in declared order.
pub fn parse_skill_exchanges(value: &str) -> (r: Result<Vec<SkillExchange>, DestinyResolveError>)
    ensures
        match r {
            Ok(list) => exchanges_of(value@) == Some(list@),
            Err(e) => exchanges_of(value@) is None && (e matches DestinyResolveError::InvalidConfig(m)
                && m@ == exchanges_fault_text(value@)),
        },
{
    let mut chars = str_chars(value);
    if chars.len() == 0 {
        return Ok(Vec::new());
    }
    if chars[chars.len() - 1] == '|' {
        chars.pop();
    }
    let ghost body = chars@;
    let entries = split_chars(chars.as_slice(), '|');
    let ghost ev = split(body, '|');
    assert(pieces_view(entries@) == ev);
    let mut list: Vec<SkillExchange> = Vec::new();
    let mut i: usize = 0;
    while i < entries.len()
        invariant
            i <= entries@.len(),
            ev == split(body, '|'),
            exchanges_of(value@) == exchange_list(ev),
            pieces_view(entries@) == ev,
            exchange_list(ev.take(i as int)) == Some(list@),
            exchanges_fault_text(value@) == first_fault_text(ev, i as int, value@),
        decreases entries@.len() - i,
    {
        assert(entries@[i as int]@ == ev[i as int]);
        assert(ev.take(i as int + 1).drop_last() =~= ev.take(i as int));
        assert(ev.take(i as int + 1).last() == ev[i as int]);
        match parse_exchange(entries[i].as_slice()) {
            Ok(x) => list.push(x),
            Err(fault) => {
                proof {
                    lemma_exchange_list_prefix(ev, i as int + 1);
                }
                let m = exchange_fault_message(fault, entries[i].as_slice(), value);
                return Err(DestinyResolveError::InvalidConfig(m));
            },
        }
        i = i + 1;
    }
    assert(ev.take(entries@.len() as int) =~= ev);
    Ok(list)
}

// ---------------------------------------------------------------------------
// Traces and transitions
// ---------------------------------------------------------------------------

/// The key and detail text of each trace entry.
pub open spec fn trace_view(t: Seq<DestinyTrace>) -> Seq<(Seq<char>, Seq<char>)> {
    Seq::new(t.len(), |i: int| (t[i].source_key@, t[i].detail@))
}

/// `{label} {from} -> {to}`.
pub open spec fn step_text(label: Seq<char>, from: int, to: int) -> Seq<char> {
    label + " "@ + int_text(from) + " -> "@ + int_text(to)
}

/// Appends one trace entry.
fn push_trace(trace: &mut Vec<DestinyTrace>, key: &str, detail: String)
    ensures
        trace_view(final(trace)@) == trace_view(old(trace)@).push((key@, detail@)),
{
    let ghost before = trace_view(trace@);
    trace.push(DestinyTrace { source_key: String::from_str(key), detail });
    assert(trace_view(trace@) =~= before.push((key@, detail@)));
}

/// Builds `{label} {from} -> {to}`.
fn step_message(label: &str, from: i32, to: i32) -> (m: String)
    ensures
        m@ == step_text(label@, from as int, to as int),
{
    let mut m = String::from_str(label);
    push_str(&mut m, " ");
    push_int(&mut m, from as i64);
    push_str(&mut m, " -> ");
    push_int(&mut m, to as i64);
    m
}

/// The position of the first `x` in `v`, or `-1`.
pub open spec fn first_position(v: Seq<i32>, x: i32) -> int
    decreases v.len(),
{
    if v.len() == 0 {
        -1
    } else {
        let p = first_position(v.drop_last(), x);
        if p >= 0 {
            p
        } else if v.last() == x {
            v.len() - 1
        } else {
            -1
        }
    }
}

proof fn lemma_first_position(v: Seq<i32>, x: i32)
    ensures
        -1 <= first_position(v, x) < v.len(),
        first_position(v, x) >= 0 ==> v[first_position(v, x)] == x,
        forall|j: int| 0 <= j < v.len() && (first_position(v, x) < 0 || j < first_position(v, x))
            ==> v[j] != x,
    decreases v.len(),
{
    if v.len() > 0 {
        lemma_first_position(v.drop_last(), x);
        assert forall|j: int| 0 <= j < v.drop_last().len() implies v.drop_last()[j] == v[j] by {}
    }
}

/// The values after applying each exchange in order to the first value equal
/// to its source; later exchanges see the result of earlier ones.
pub open spec fn ordered_apply(values: Seq<i32>, exchanges: Seq<SkillExchange>) -> Seq<i32>
    decreases exchanges.len(),
{
    if exchanges.len() == 0 {
        values
    } else {
        let v = ordered_apply(values, exchanges.drop_last());
        let x = exchanges.last();
        let p = first_position(v, x.source);
        if p >= 0 {
            v.update(p, x.target)
        } else {
            v
        }
    }
}

/// The trace of `ordered_apply`: one entry per exchange that found a value.
pub open spec fn ordered_trace(
    values: Seq<i32>,
    exchanges: Seq<SkillExchange>,
    label: Seq<char>,
    key: Seq<char>,
) -> Seq<(Seq<char>, Seq<char>)>
    decreases exchanges.len(),
{
    if exchanges.len() == 0 {
        Seq::empty()
    } else {
        let v = ordered_apply(values, exchanges.drop_last());
        let x = exchanges.last();
        ordered_trace(values, exchanges.drop_last(), label, key) + if first_position(v, x.source)
            >= 0 {
            seq![(key, step_text(label, x.source as int, x.target as int))]
        } else {
            Seq::empty()
        }
    }
}

/// Applies each exchange in declared order to the first value equal to its
/// source, tracing each change.
fn apply_ordered_transitions(
    values: &mut Vec<i32>,
    exchanges: &[SkillExchange],
    label: &str,
    source_key: &str,
    trace: &mut Vec<DestinyTrace>,
)
    ensures
        final(values)@ == ordered_apply(old(values)@, exchanges@),
        trace_view(final(trace)@) == trace_view(old(trace)@) + ordered_trace(
            old(values)@,
            exchanges@,
            label@,
            source_key@,
        ),
{
    let ghost start = values@;
    let ghost tstart = trace_view(trace@);
    let mut k: usize = 0;
    while k < exchanges.len()
        invariant
            k <= exchanges@.len(),
            values@ == ordered_apply(start, exchanges@.take(k as int)),
            trace_view(trace@) == tstart + ordered_trace(start, exchanges@.take(k as int), label@, source_key@),
        decreases exchanges@.len() - k,
    {
        let x = exchanges[k];
        let ghost ex = exchanges@.take(k as int + 1);
        assert(ex.drop_last() =~= exchanges@.take(k as int));
        assert(ex.last() == x);
        proof {
            lemma_first_position(values@, x.source);
        }
        let mut i: usize = 0;
        while i < values.len() && values[i] != x.source
            invariant
                i <= values@.len(),
                forall|j: int| 0 <= j < i ==> values@[j] != x.source,
            decreases values@.len() - i,
        {
            i = i + 1;
        }
        if i < values.len() && values[i] == x.source {
            assert(first_position(values@, x.source) == i);
            values.set(i, x.target);
            let m = step_message(label, x.source, x.target);
            push_trace(trace, source_key, m);
            assert(trace_view(trace@) =~= tstart + ordered_trace(start, ex, label@, source_key@));
        } else {
            assert(first_position(values@, x.source) < 0) by {
                let p = first_position(values@, x.source);
                if p >= 0 {
                    assert(values@[p] == x.source);
                }
            }
            assert(trace_view(trace@) =~= tstart + ordered_trace(start, ex, label@, source_key@));
        }
        k = k + 1;
    }
    assert(exchanges@.take(exchanges@.len() as int) =~= exchanges@);
}

/// The target of the last exchange whose source is `v`, or `v` itself.
pub open spec fn facet_target(v: i32, exchanges: Seq<SkillExchange>) -> i32
    decreases exchanges.len(),
{
    if exchanges.len() == 0 {
        v
    } else if exchanges.last().source == v {
        exchanges.last().target
    } else {
        facet_target(v, exchanges.drop_last())
    }
}

/// One trace entry for each exchange whose source is `v`, in declared order.
pub open spec fn value_trace(
    v: i32,
    exchanges: Seq<SkillExchange>,
    label: Seq<char>,
    key: Seq<char>,
) -> Seq<(Seq<char>, Seq<char>)>
    decreases exchanges.len(),
{
    if exchanges.len() == 0 {
        Seq::empty()
    } else {
        let x = exchanges.last();
        value_trace(v, exchanges.drop_last(), label, key) + if x.source == v {
            seq![(key, step_text(label, x.source as int, x.target as int))]
        } else {
            Seq::empty()
        }
    }
}

/// The trace entries of the values in order.
pub open spec fn values_trace(
    values: Seq<i32>,
    exchanges: Seq<SkillExchange>,
    label: Seq<char>,
    key: Seq<char>,
) -> Seq<(Seq<char>, Seq<char>)>
    decreases values.len(),
{
    if values.len() == 0 {
        Seq::empty()
    } else {
        values_trace(values.drop_last(), exchanges, label, key) + value_trace(
            values.last(),
            exchanges,
            label,
            key,
        )
    }
}

/// Replaces `value` by the last target whose exchange source is its original
/// value, tracing every matching exchange; exchanges never chain.
fn transition_value(
    value: i32,
    exchanges: &[SkillExchange],
    label: &str,
    source_key: &str,
    trace: &mut Vec<DestinyTrace>,
) -> (r: i32)
    ensures
        r == facet_target(value, exchanges@),
        trace_view(final(trace)@) == trace_view(old(trace)@) + value_trace(
            value,
            exchanges@,
            label@,
            source_key@,
        ),
{
    let ghost tstart = trace_view(trace@);
    let mut result = value;
    let mut k: usize = 0;
    while k < exchanges.len()
        invariant
            k <= exchanges@.len(),
            result == facet_target(value, exchanges@.take(k as int)),
            trace_view(trace@) == tstart + value_trace(value, exchanges@.take(k as int), label@, source_key@),
        decreases exchanges@.len() - k,
    {
        let x = exchanges[k];
        let ghost ex = exchanges@.take(k as int + 1);
        assert(ex.drop_last() =~= exchanges@.take(k as int));
        assert(ex.last() == x);
        if x.source == value {
            result = x.target;
            let m = step_message(label, x.source, x.target);
            push_trace(trace, source_key, m);
        }
        assert(trace_view(trace@) =~= tstart + value_trace(value, ex, label@, source_key@));
        k = k + 1;
    }
    assert(exchanges@.take(exchanges@.len() as int) =~= exchanges@);
    result
}

/// Replaces each value by the last target whose exchange source is that
/// original value; a value changed by one exchange is not matched again.
fn apply_facet_transitions(
    values: &mut Vec<i32>,
    exchanges: &[SkillExchange],
    label: &str,
    source_key: &str,
    trace: &mut Vec<DestinyTrace>,
)
    ensures
        final(values)@.len() == old(values)@.len(),
        forall|i: int|
            0 <= i < old(values)@.len() ==> #[trigger] final(values)@[i] == facet_target(
                old(values)@[i],
                exchanges@,
            ),
        trace_view(final(trace)@) == trace_view(old(trace)@) + values_trace(
            old(values)@,
            exchanges@,
            label@,
            source_key@,
        ),
{
    let ghost start = values@;
    let ghost tstart = trace_view(trace@);
    let mut i: usize = 0;
    while i < values.len()
        invariant
            i <= values@.len(),
            values@.len() == start.len(),
            forall|j: int| 0 <= j < i ==> #[trigger] values@[j] == facet_target(start[j], exchanges@),
            forall|j: int| i <= j < values@.len() ==> #[trigger] values@[j] == start[j],
            trace_view(trace@) == tstart + values_trace(start.take(i as int), exchanges@, label@, source_key@),
        decreases values@.len() - i,
    {
        let v = values[i];
        let t = transition_value(v, exchanges, label, source_key, trace);
        values.set(i, t);
        assert(start.take(i as int + 1).drop_last() =~= start.take(i as int));
        assert(start.take(i as int + 1).last() == v);
        assert(trace_view(trace@) =~= tstart + values_trace(
            start.take(i as int + 1),
            exchanges@,
            label@,
            source_key@,
        ));
        i = i + 1;
    }
    assert(start.take(start.len() as int) =~= start);
}

// ---------------------------------------------------------------------------
// Skill groups
// ---------------------------------------------------------------------------

/// The variant a hero type selects among `count` variants: variant
/// `hero_type - 1` when it exists, otherwise the first.
pub open spec fn variant_index(hero_type: i32, count: int) -> int {
    if 0 <= hero_type - 1 < count {
        hero_type - 1
    } else {
        0
    }
}

fn variant_index_of(hero_type: i32, count: usize) -> (r: usize)
    requires
        count > 0,
    ensures
        r == variant_index(hero_type, count as int),
        r < count,
{
    let t = hero_type as i64 - 1;
    if 0 <= t && (t as u64) < (count as u64) {
        t as usize
    } else {
        0
    }
}

/// Reads a list of decimal pieces as ids.
fn parse_ids(pieces: &[Vec<char>]) -> (r: Option<Vec<i32>>)
    ensures
        match r {
            Some(ids) => parse_id_list(pieces_view(pieces@)) == Some(ids@),
            None => parse_id_list(pieces_view(pieces@)) is None,
        },
{
    let ghost pv = pieces_view(pieces@);
    let mut ids: Vec<i32> = Vec::new();
    let mut i: usize = 0;
    while i < pieces.len()
        invariant
            i <= pieces@.len(),
            pv == pieces_view(pieces@),
            parse_id_list(pv.take(i as int)) == Some(ids@),
        decreases pieces@.len() - i,
    {
        assert(pv.take(i as int + 1).drop_last() =~= pv.take(i as int));
        assert(pv.take(i as int + 1).last() == pieces@[i as int]@);
        match parse_i32(pieces[i].as_slice()) {
            Some(id) => ids.push(id),
            None => {
                proof {
                    lemma_id_list_prefix(pv, i as int + 1);
                }
                return None;
            },
        }
        i = i + 1;
    }
    assert(pv.take(pieces@.len() as int) =~= pv);
    Some(ids)
}

proof fn lemma_id_list_prefix(pieces: Seq<Seq<char>>, n: int)
    requires
        0 <= n <= pieces.len(),
        parse_id_list(pieces.take(n)) is None,
    ensures
        parse_id_list(pieces) is None,
    decreases pieces.len() - n,
{
    if n < pieces.len() {
        assert(pieces.take(n + 1).drop_last() =~= pieces.take(n));
        lemma_id_list_prefix(pieces, n + 1);
    } else {
        assert(pieces.take(n) =~= pieces);
    }
}

/// The ids of the selected variant of a `group` block: its `#`-separated
/// pieces, without a leading piece equal to the group number.
pub open spec fn block_group_ids(block: Seq<char>, target_group: i32, hero_type: i32) -> Option<Seq<i32>> {
    let variants = split(block, ',');
    let selected = variants[variant_index(hero_type, variants.len() as int)];
    let parts = split(selected, '#');
    let rest = if parse_i32_spec(parts[0]) == Some(target_group) {
        parts.drop_first()
    } else {
        parts
    };
    parse_id_list(rest)
}

/// The group number a block starts with.
pub open spec fn block_group(block: Seq<char>) -> Option<i32> {
    parse_i32_spec(split(split(block, ',')[0], '#')[0])
}

/// The skill ids of group `target_group` among `blocks[i..]`: the first block
/// whose group is the target gives them; no such block gives none; a block
/// whose group number does not parse, before the target's, makes the value invalid.
pub open spec fn group_from_blocks(
    blocks: Seq<Seq<char>>,
    i: int,
    target_group: i32,
    hero_type: i32,
) -> Option<Seq<i32>>
    decreases blocks.len() - i,
{
    if i >= blocks.len() || i < 0 {
        Some(Seq::empty())
    } else {
        match block_group(blocks[i]) {
            None => None,
            Some(g) => if g != target_group {
                group_from_blocks(blocks, i + 1, target_group, hero_type)
            } else {
                block_group_ids(blocks[i], target_group, hero_type)
            },
        }
    }
}

/// The skill ids of group `target_group` in a character `skill` value:
/// `|`-separated blocks, each `group#id#id…`, optionally with `,`-separated
/// variants per hero type.
pub open spec fn character_group(value: Seq<char>, target_group: i32, hero_type: i32) -> Option<
    Seq<i32>,
> {
    if value.len() == 0 {
        Some(Seq::empty())
    } else {
        group_from_blocks(split(value, '|'), 0, target_group, hero_type)
    }
}

/// The ids of a skill group value: the hero type's `,`-separated variant,
/// `|`-separated.
pub open spec fn group_value(value: Seq<char>, hero_type: i32) -> Option<Seq<i32>> {
    if value.len() == 0 {
        Some(Seq::empty())
    } else {
        let variants = split(value, ',');
        parse_id_list(split(variants[variant_index(hero_type, variants.len() as int)], '|'))
    }
}

/// The message of a character `skill` value without a readable group
/// `target_group`, from block `i` on: a block whose group number does not
/// parse, before the target's block, names the group; otherwise the target's
/// ids do not parse.
pub open spec fn group_fault_from_blocks(
    blocks: Seq<Seq<char>>,
    i: int,
    target_group: i32,
    value: Seq<char>,
) -> Seq<char>
    decreases blocks.len() - i,
{
    if i >= blocks.len() || i < 0 {
        Seq::empty()
    } else {
        match block_group(blocks[i]) {
            None => "invalid skill group in "@ + debug_quoted(value),
            Some(g) => if g != target_group {
                group_fault_from_blocks(blocks, i + 1, target_group, value)
            } else {
                "invalid skill id in "@ + debug_quoted(value)
            },
        }
    }
}

/// The message of a character `skill` value without a readable group
/// `target_group`.
pub open spec fn character_group_fault(value: Seq<char>, target_group: i32) -> Seq<char> {
    group_fault_from_blocks(split(value, '|'), 0, target_group, value)
}

/// The message of a skill group value that does not parse.
pub open spec fn group_value_fault(value: Seq<char>) -> Seq<char> {
    "invalid skill id in "@ + debug_quoted(value)
}

/// `r` is the configuration error with message `t`.
pub open spec fn config_error_is<T>(r: Result<T, DestinyResolveError>, t: Seq<char>) -> bool {
    r matches Err(DestinyResolveError::InvalidConfig(m)) && m@ == t
}

fn parse_block_ids(block: &[char], target_group: i32, hero_type: i32) -> (r: Option<Vec<i32>>)
    ensures
        match r {
            Some(ids) => block_group_ids(block@, target_group, hero_type) == Some(ids@),
            None => block_group_ids(block@, target_group, hero_type) is None,
        },
{
    let variants = split_chars(block, ',');
    proof {
        crate::text::lemma_split_nonempty(block@, ',');
    }
    let vi = variant_index_of(hero_type, variants.len());
    assert(variants@[vi as int]@ == pieces_view(variants@)[vi as int]);
    let mut parts = split_chars(variants[vi].as_slice(), '#');
    proof {
        crate::text::lemma_split_nonempty(variants@[vi as int]@, '#');
    }
    assert(parts@[0]@ == pieces_view(parts@)[0]);
    let ghost pv = pieces_view(parts@);
    if parse_i32(parts[0].as_slice()) == Some(target_group) {
        parts.remove(0);
        assert(pieces_view(parts@) =~= pv.drop_first());
    }
    parse_ids(parts.as_slice())
}

/// Reads group `target_group` of a character `skill` value.
fn parse_character_skill_group(value: &str, target_group: i32, hero_type: i32) -> (r: Result<
    Vec<i32>,
    DestinyResolveError,
>)
    ensures
        match r {
            Ok(ids) => character_group(value@, target_group, hero_type) == Some(ids@),
            Err(e) => character_group(value@, target_group, hero_type) is None && (e matches DestinyResolveError::InvalidConfig(m)
                && m@ == character_group_fault(value@, target_group)),
        },
{
    let chars = str_chars(value);
    if chars.len() == 0 {
        return Ok(Vec::new());
    }
    let blocks = split_chars(chars.as_slice(), '|');
    let ghost bv = split(value@, '|');
    assert(pieces_view(blocks@) == bv);
    let mut i: usize = 0;
    while i < blocks.len()
        invariant
            i <= blocks@.len(),
            bv == split(value@, '|'),
            value@.len() > 0,
            pieces_view(blocks@) == bv,
            character_group(value@, target_group, hero_type) == group_from_blocks(bv, i as int, target_group, hero_type),
            character_group_fault(value@, target_group) == group_fault_from_blocks(bv, i as int, target_group, value@),
        decreases blocks@.len() - i,
    {
        let block = &blocks[i];
        assert(block@ == bv[i as int]);
        let variants = split_chars(block.as_slice(), ',');
        proof {
            crate::text::lemma_split_nonempty(block@, ',');
        }
        assert(variants@[0]@ == pieces_view(variants@)[0]);
        let heads = split_chars(variants[0].as_slice(), '#');
        proof {
            crate::text::lemma_split_nonempty(variants@[0]@, '#');
        }
        assert(heads@[0]@ == pieces_view(heads@)[0]);
        let group = match parse_i32(heads[0].as_slice()) {
            Some(g) => g,
            None => {
                return Err(
                    DestinyResolveError::InvalidConfig(
                        message_with_quoted("invalid skill group in ", value),
                    ),
                )
            },
        };
        if group == target_group {
            return match parse_block_ids(block.as_slice(), target_group, hero_type) {
                Some(ids) => Ok(ids),
                None => Err(
                    DestinyResolveError::InvalidConfig(
                        message_with_quoted("invalid skill id in ", value),
                    ),
                ),
            };
        }
        i = i + 1;
    }
    Ok(Vec::new())
}

/// Reads a skill group value for a hero type.
fn parse_skill_group_value(value: &str, hero_type: i32) -> (r: Result<Vec<i32>, DestinyResolveError>)
    ensures
        match r {
            Ok(ids) => group_value(value@, hero_type) == Some(ids@),
            Err(e) => group_value(value@, hero_type) is None && (e matches DestinyResolveError::InvalidConfig(m)
                && m@ == group_value_fault(value@)),
        },
{
    let chars = str_chars(value);
    if chars.len() == 0 {
        return Ok(Vec::new());
    }
    let variants = split_chars(chars.as_slice(), ',');
    proof {
        crate::text::lemma_split_nonempty(value@, ',');
    }
    let vi = variant_index_of(hero_type, variants.len());
    assert(variants@[vi as int]@ == pieces_view(variants@)[vi as int]);
    let parts = split_chars(variants[vi].as_slice(), '|');
    match parse_ids(parts.as_slice()) {
        Some(ids) => Ok(ids),
        None => Err(
            DestinyResolveError::InvalidConfig(message_with_quoted("invalid skill id in ", value)),
        ),
    }
}

/// A list of ids as `Debug` writes it: `[1, 2, 3]`.
pub open spec fn list_text(v: Seq<i32>) -> Seq<char> {
    "["@ + joined_ids(v) + "]"@
}

fn list_message(v: &[i32]) -> (m: String)
    ensures
        m@ == list_text(v@),
{
    let mut m = String::from_str("[");
    push_joined_ids(&mut m, v);
    push_str(&mut m, "]");
    m
}

/// The trace of replacing `current` by `replacement` position by position
/// over the first `n` positions: one entry per changed id.
pub open spec fn zip_trace(
    current: Seq<i32>,
    replacement: Seq<i32>,
    n: int,
    label: Seq<char>,
    key: Seq<char>,
) -> Seq<(Seq<char>, Seq<char>)>
    decreases n,
{
    if n <= 0 {
        Seq::empty()
    } else {
        zip_trace(current, replacement, n - 1, label, key) + if current[n - 1] != replacement[n
            - 1] {
            seq![(key, step_text(label, current[n - 1] as int, replacement[n - 1] as int))]
        } else {
            Seq::empty()
        }
    }
}

/// The trace of replacing a skill group: each changed position, then the
/// whole lists when the lengths differ.
pub open spec fn replace_trace(
    current: Seq<i32>,
    replacement: Seq<i32>,
    label: Seq<char>,
    key: Seq<char>,
) -> Seq<(Seq<char>, Seq<char>)> {
    let n = if current.len() < replacement.len() {
        current.len()
    } else {
        replacement.len()
    };
    zip_trace(current, replacement, n as int, label, key) + if current.len() != replacement.len() {
        seq![(key, label + " "@ + list_text(current) + " -> "@ + list_text(replacement))]
    } else {
        Seq::empty()
    }
}

/// Replaces a skill group by a non-empty group value, tracing the change.
fn replace_group_from_value(
    current: &mut Vec<i32>,
    value: &str,
    hero_type: i32,
    label: &str,
    source_key: &str,
    trace: &mut Vec<DestinyTrace>,
) -> (r: Result<(), DestinyResolveError>)
    ensures
        value@.len() == 0 ==> r is Ok && final(current)@ == old(current)@ && final(trace)@ == old(
            trace,
        )@,
        value@.len() > 0 ==> match group_value(value@, hero_type) {
            Some(rep) => r is Ok && final(current)@ == rep && trace_view(final(trace)@)
                == trace_view(old(trace)@) + replace_trace(old(current)@, rep, label@, source_key@),
            None => config_error_is(r, group_value_fault(value@)),
        },
{
    if value.is_empty() {
        return Ok(());
    }
    let replacement = match parse_skill_group_value(value, hero_type) {
        Ok(v) => v,
        Err(e) => return Err(e),
    };
    let ghost tstart = trace_view(trace@);
    let n = if current.len() < replacement.len() {
        current.len()
    } else {
        replacement.len()
    };
    let mut i: usize = 0;
    while i < n
        invariant
            i <= n,
            n <= current@.len(),
            n <= replacement@.len(),
            trace_view(trace@) == tstart + zip_trace(current@, replacement@, i as int, label@, source_key@),
        decreases n - i,
    {
        if current[i] != replacement[i] {
            let m = step_message(label, current[i], replacement[i]);
            push_trace(trace, source_key, m);
        }
        assert(trace_view(trace@) =~= tstart + zip_trace(
            current@,
            replacement@,
            i as int + 1,
            label@,
            source_key@,
        ));
        i = i + 1;
    }
    if current.len() != replacement.len() {
        let mut m = String::from_str(label);
        push_str(&mut m, " ");
        let a = list_message(current.as_slice());
        push_str(&mut m, a.as_str());
        push_str(&mut m, " -> ");
        let b = list_message(replacement.as_slice());
        push_str(&mut m, b.as_str());
        push_trace(trace, source_key, m);
    }
    assert(trace_view(trace@) =~= tstart + replace_trace(current@, replacement@, label@, source_key@));
    *current = replacement;
    Ok(())
}

/// Replaces the ultimate by a non-zero replacement, tracing a change.
fn replace_ultimate(
    current: &mut i32,
    replacement: i32,
    source_key: &str,
    trace: &mut Vec<DestinyTrace>,
)
    ensures
        *final(current) == if replacement == 0 {
            *old(current)
        } else {
            replacement
        },
        trace_view(final(trace)@) == trace_view(old(trace)@) + if replacement != 0 && *old(current)
            != replacement {
            seq![(source_key@, step_text("ultimate"@, *old(current) as int, replacement as int))]
        } else {
            Seq::empty()
        },
{
    let ghost tstart = trace_view(trace@);
    if replacement == 0 {
        assert(trace_view(trace@) =~= tstart + Seq::<(Seq<char>, Seq<char>)>::empty());
        return;
    }
    if *current != replacement {
        let m = step_message("ultimate", *current, replacement);
        push_trace(trace, source_key, m);
    } else {
        assert(trace_view(trace@) =~= tstart + Seq::<(Seq<char>, Seq<char>)>::empty());
    }
    *current = replacement;
}

// ---------------------------------------------------------------------------
// Base passives
// ---------------------------------------------------------------------------

/// The order key of a passive's unlock level: level 0 sorts last.
pub open spec fn passive_key(level: i32) -> i32 {
    if level == 0 {
        i32::MAX
    } else {
        level
    }
}

/// `s` with `x` inserted after every trailing entry whose key is not greater:
/// one step of a stable sort by key.
pub open spec fn insert_by_key(s: Seq<(i32, i32)>, x: (i32, i32)) -> Seq<(i32, i32)>
    decreases s.len(),
{
    if s.len() == 0 {
        seq![x]
    } else if s.last().0 <= x.0 {
        s.push(x)
    } else {
        insert_by_key(s.drop_last(), x).push(s.last())
    }
}

/// The `(key, passive)` entries of a hero's non-zero passives, stably sorted
/// by unlock level with level 0 last.
pub open spec fn passive_entries(rows: Seq<SkillPassiveLevel>, hero_id: i32) -> Seq<(i32, i32)>
    decreases rows.len(),
{
    if rows.len() == 0 {
        Seq::empty()
    } else {
        let prev = passive_entries(rows.drop_last(), hero_id);
        let r = rows.last();
        if r.hero_id == hero_id && r.skill_passive != 0 {
            insert_by_key(prev, (passive_key(r.skill_level), r.skill_passive))
        } else {
            prev
        }
    }
}

/// A hero's base passives: its non-zero `skill_passive_level` entries in
/// unlock-level order, level 0 last, rows of one level in table order.
pub open spec fn base_passives_of(rows: Seq<SkillPassiveLevel>, hero_id: i32) -> Seq<i32> {
    let e = passive_entries(rows, hero_id);
    Seq::new(e.len(), |i: int| e[i].1)
}

proof fn lemma_insert_by_key_tail(s: Seq<(i32, i32)>, x: (i32, i32), j: int)
    requires
        0 <= j <= s.len(),
        forall|k: int| j <= k < s.len() ==> s[k].0 > x.0,
    ensures
        insert_by_key(s, x) == insert_by_key(s.take(j), x) + s.skip(j),
    decreases s.len() - j,
{
    if j == s.len() {
        assert(s.take(j) =~= s);
        assert(s.skip(j) =~= Seq::<(i32, i32)>::empty());
        assert(insert_by_key(s, x) + s.skip(j) =~= insert_by_key(s, x));
    } else {
        let d = s.drop_last();
        assert forall|k: int| j <= k < d.len() implies d[k].0 > x.0 by {
            assert(d[k] == s[k]);
        }
        lemma_insert_by_key_tail(d, x, j);
        assert(d.take(j) =~= s.take(j));
        assert(d.skip(j).push(s.last()) =~= s.skip(j));
        assert(insert_by_key(s.take(j), x) + d.skip(j).push(s.last()) =~= (insert_by_key(
            s.take(j),
            x,
        ) + d.skip(j)).push(s.last()));
    }
}

/// Inserts `x` after every trailing entry whose key is not greater.
fn insert_passive(v: &mut Vec<(i32, i32)>, x: (i32, i32))
    ensures
        final(v)@ == insert_by_key(old(v)@, x),
{
    let ghost s = v@;
    let mut j: usize = v.len();
    while j > 0 && v[j - 1].0 > x.0
        invariant
            j <= s.len(),
            v@ == s,
            forall|k: int| j <= k < s.len() ==> s[k].0 > x.0,
        decreases j,
    {
        j = j - 1;
    }
    proof {
        lemma_insert_by_key_tail(s, x, j as int);
        if j > 0 {
            assert(s.take(j as int).last() == s[j - 1]);
            assert(s.take(j as int).drop_last() =~= s.take(j - 1));
        } else {
            assert(s.take(0) =~= Seq::<(i32, i32)>::empty());
        }
    }
    v.insert(j, x);
    proof {
        if j > 0 {
            assert(insert_by_key(s.take(j as int), x) == s.take(j as int).push(x));
        }
        assert(v@ =~= insert_by_key(s.take(j as int), x) + s.skip(j as int));
    }
}

/// A hero's base passives, in unlock-level order with level 0 last.
fn base_passives(game: &GameDB, hero_id: i32) -> (r: Vec<i32>)
    ensures
        r@ == base_passives_of(game.skill_passive_level@, hero_id),
{
    let rows = &game.skill_passive_level;
    let mut entries: Vec<(i32, i32)> = Vec::new();
    let mut i: usize = 0;
    while i < rows.len()
        invariant
            i <= rows@.len(),
            rows == &game.skill_passive_level,
            entries@ == passive_entries(rows@.take(i as int), hero_id),
        decreases rows@.len() - i,
    {
        let row = rows[i];
        assert(rows@.take(i as int + 1).drop_last() =~= rows@.take(i as int));
        assert(rows@.take(i as int + 1).last() == row);
        if row.hero_id == hero_id && row.skill_passive != 0 {
            let key = if row.skill_level == 0 {
                i32::MAX
            } else {
                row.skill_level
            };
            insert_passive(&mut entries, (key, row.skill_passive));
        }
        i = i + 1;
    }
    assert(rows@.take(rows@.len() as int) =~= rows@);
    let ghost e = entries@;
    let mut out: Vec<i32> = Vec::new();
    let mut k: usize = 0;
    while k < entries.len()
        invariant
            k <= entries@.len(),
            entries@ == e,
            out@.len() == k,
            forall|m: int| 0 <= m < k ==> out@[m] == e[m].1,
        decreases entries@.len() - k,
    {
        out.push(entries[k].1);
        k = k + 1;
    }
    assert(out@ =~= base_passives_of(game.skill_passive_level@, hero_id));
    out
}

// ---------------------------------------------------------------------------
// The resolved kit
// ---------------------------------------------------------------------------

/// A power meter a facet grants: its id, current value and maximum.
#[derive(Clone, Copy, Debug, PartialEq, Eq)]
pub struct PowerInfo {
    pub power_id: Option<i32>,
    pub num: Option<i32>,
    pub max: Option<i32>,
}

/// A battle hero's combat kit and the trace of how it was reached.
pub struct ResolvedHeroKit {
    pub skill_group_1: Vec<i32>,
    pub skill_group_2: Vec<i32>,
    pub ultimate: i32,
    pub passives: Vec<i32>,
    pub power_infos: Vec<PowerInfo>,
    pub trace: Vec<DestinyTrace>,
}

/// The contents of a [`ResolvedHeroKit`].
pub struct KitView {
    pub skill_group_1: Seq<i32>,
    pub skill_group_2: Seq<i32>,
    pub ultimate: i32,
    pub passives: Seq<i32>,
    pub power_infos: Seq<PowerInfo>,
    pub trace: Seq<(Seq<char>, Seq<char>)>,
}

impl View for ResolvedHeroKit {
    type V = KitView;

    open spec fn view(&self) -> KitView {
        KitView {
            skill_group_1: self.skill_group_1@,
            skill_group_2: self.skill_group_2@,
            ultimate: self.ultimate,
            passives: self.passives@,
            power_infos: self.power_infos@,
            trace: trace_view(self.trace@),
        }
    }
}

/// `{prefix}{a}:{b}`.
pub open spec fn row_key(prefix: Seq<char>, a: int, b: int) -> Seq<char> {
    prefix + int_text(a) + ":"@ + int_text(b)
}

/// The trace key of a `skill_ex_level` row.
pub open spec fn ex_key(hero_id: i32, level: int) -> Seq<char> {
    row_key("skill_ex_level:"@, hero_id as int, level)
}

/// The trace key of a `destiny_facets_ex_level` row.
pub open spec fn reshape_key(facets_id: i32, level: int) -> Seq<char> {
    row_key("destiny_facets_ex_level:"@, facets_id as int, level)
}

/// The trace key of a `character_destiny_facets` row.
pub open spec fn facet_key(facets_id: int, level: int) -> Seq<char> {
    row_key("character_destiny_facets:"@, facets_id, level)
}

/// Builds `{prefix}{a}:{b}`.
fn make_row_key(prefix: &str, a: i32, b: i32) -> (k: String)
    ensures
        k@ == row_key(prefix@, a as int, b as int),
{
    let mut k = String::from_str(prefix);
    push_int(&mut k, a as i64);
    push_str(&mut k, ":");
    push_int(&mut k, b as i64);
    k
}

/// Replaces a skill group by a group value; an empty value leaves it.
pub open spec fn replace_group_spec(
    current: Seq<i32>,
    trace: Seq<(Seq<char>, Seq<char>)>,
    value: Seq<char>,
    hero_type: i32,
    label: Seq<char>,
    key: Seq<char>,
) -> Result<(Seq<i32>, Seq<(Seq<char>, Seq<char>)>), Seq<char>> {
    if value.len() == 0 {
        Ok((current, trace))
    } else {
        match group_value(value, hero_type) {
            Some(rep) => Ok((rep, trace + replace_trace(current, rep, label, key))),
            None => Err(group_value_fault(value)),
        }
    }
}

/// Replaces the ultimate by a non-zero id.
pub open spec fn replace_ultimate_spec(
    current: i32,
    trace: Seq<(Seq<char>, Seq<char>)>,
    replacement: i32,
    key: Seq<char>,
) -> (i32, Seq<(Seq<char>, Seq<char>)>) {
    if replacement == 0 {
        (current, trace)
    } else if current != replacement {
        (replacement, trace.push((key, step_text("ultimate"@, current as int, replacement as int))))
    } else {
        (replacement, trace)
    }
}

/// Applies a row's two skill group values and its ultimate to a kit.
#[verifier::opaque]
pub open spec fn apply_ex_row(
    k: KitView,
    group1: Seq<char>,
    group2: Seq<char>,
    skill_ex: i32,
    hero_type: i32,
    key: Seq<char>,
) -> Result<KitView, Seq<char>> {
    match replace_group_spec(k.skill_group_1, k.trace, group1, hero_type, "skill_group_1"@, key) {
        Err(t) => Err(t),
        Ok((a, t1)) => match replace_group_spec(
            k.skill_group_2,
            t1,
            group2,
            hero_type,
            "skill_group_2"@,
            key,
        ) {
            Err(t) => Err(t),
            Ok((b, t2)) => {
                let (u, t3) = replace_ultimate_spec(k.ultimate, t2, skill_ex, key);
                Ok(
                    KitView {
                        skill_group_1: a,
                        skill_group_2: b,
                        ultimate: u,
                        passives: k.passives,
                        power_infos: k.power_infos,
                        trace: t3,
                    },
                )
            },
        },
    }
}

/// Applies a row's group values and ultimate to a kit.
fn apply_ex_row_to(
    kit: &mut ResolvedHeroKit,
    group1: &str,
    group2: &str,
    skill_ex: i32,
    hero_type: i32,
    key: &str,
) -> (r: Result<(), DestinyResolveError>)
    ensures
        match apply_ex_row(old(kit)@, group1@, group2@, skill_ex, hero_type, key@) {
            Ok(k) => r is Ok && final(kit)@ == k,
            Err(t) => config_error_is(r, t),
        },
{
    let ghost k0 = kit@;
    proof {
        reveal(apply_ex_row);
    }
    let r1 = replace_group_from_value(
        &mut kit.skill_group_1,
        group1,
        hero_type,
        "skill_group_1",
        key,
        &mut kit.trace,
    );
    if r1.is_err() {
        return r1;
    }
    let r2 = replace_group_from_value(
        &mut kit.skill_group_2,
        group2,
        hero_type,
        "skill_group_2",
        key,
        &mut kit.trace,
    );
    if r2.is_err() {
        return r2;
    }
    replace_ultimate(&mut kit.ultimate, skill_ex, key, &mut kit.trace);
    proof {
        let k = apply_ex_row(k0, group1@, group2@, skill_ex, hero_type, key@);
        assert(k is Ok);
        assert(kit@.trace =~= k->Ok_0.trace);
    }
    Ok(())
}

/// What ex skill level `level` of a hero does to a kit: a level with a
/// `skill_ex_level` row replaces the skill groups and the ultimate it names.
#[verifier::opaque]
pub open spec fn normal_ex_step(
    game: &GameDB,
    hero_id: i32,
    hero_type: i32,
    k: KitView,
    level: int,
) -> Result<KitView, Seq<char>> {
    match game.spec_skill_ex_level(hero_id, level as i32) {
        None => Ok(k),
        Some(row) => apply_ex_row(
            k,
            row.skill_group1,
            row.skill_group2,
            row.skill_ex,
            hero_type,
            ex_key(hero_id, level),
        ),
    }
}

/// The kits reached by applying ex skill levels `level..=top` of a hero
/// in order.
pub open spec fn normal_ex_pass(
    game: &GameDB,
    hero_id: i32,
    hero_type: i32,
    k: KitView,
    level: int,
    top: int,
) -> Result<KitView, Seq<char>>
    decreases top - level + 1,
{
    if level > top {
        Ok(k)
    } else {
        match normal_ex_step(game, hero_id, hero_type, k, level) {
            Err(t) => Err(t),
            Ok(k2) => normal_ex_pass(game, hero_id, hero_type, k2, level + 1, top),
        }
    }
}

/// Applies ex skill level `level` of a hero.
fn apply_normal_ex_level(
    game: &GameDB,
    hero_id: i32,
    hero_type: i32,
    kit: &mut ResolvedHeroKit,
    level: i32,
) -> (r: Result<(), DestinyResolveError>)
    ensures
        match normal_ex_step(game, hero_id, hero_type, old(kit)@, level as int) {
            Ok(k) => r is Ok && final(kit)@ == k,
            Err(t) => config_error_is(r, t),
        },
{
    proof {
        reveal(normal_ex_step);
    }
    match game.skill_ex_level_row(hero_id, level) {
        None => Ok(()),
        Some(row) => {
            let key = make_row_key("skill_ex_level:", hero_id, level);
            apply_ex_row_to(
                kit,
                row.skill_group1.as_str(),
                row.skill_group2.as_str(),
                row.skill_ex,
                hero_type,
                key.as_str(),
            )
        },
    }
}

/// Applies ex skill levels `1..=top` of a hero in order.
fn apply_normal_ex_levels(
    game: &GameDB,
    hero_id: i32,
    hero_type: i32,
    kit: &mut ResolvedHeroKit,
    top: i32,
) -> (r: Result<(), DestinyResolveError>)
    ensures
        match normal_ex_pass(game, hero_id, hero_type, old(kit)@, 1, top as int) {
            Ok(k) => r is Ok && final(kit)@ == k,
            Err(t) => config_error_is(r, t),
        },
{
    let ghost goal = normal_ex_pass(game, hero_id, hero_type, kit@, 1, top as int);
    let mut level: i64 = 1;
    while level <= top as i64
        invariant
            1 <= level,
            level <= top + 1 || top < 1,
            goal == normal_ex_pass(game, hero_id, hero_type, old(kit)@, 1, top as int),
            goal == normal_ex_pass(game, hero_id, hero_type, kit@, level as int, top as int),
        decreases top - level + 1,
    {
        let ghost before = kit@;
        let r = apply_normal_ex_level(game, hero_id, hero_type, kit, level as i32);
        if r.is_err() {
            assert(normal_ex_pass(game, hero_id, hero_type, before, level as int, top as int)
                == normal_ex_step(game, hero_id, hero_type, before, level as int));
            return r;
        }
        level = level + 1;
    }
    Ok(())
}

/// Applies a list of exchanges to the passives in declared order.
#[verifier::opaque]
pub open spec fn passive_step(k: KitView, xs: Seq<SkillExchange>, key: Seq<char>) -> KitView {
    KitView {
        skill_group_1: k.skill_group_1,
        skill_group_2: k.skill_group_2,
        ultimate: k.ultimate,
        passives: ordered_apply(k.passives, xs),
        power_infos: k.power_infos,
        trace: k.trace + ordered_trace(k.passives, xs, "passive"@, key),
    }
}

/// What the passive exchanges of ex skill level `level` of a hero do to a kit.
#[verifier::opaque]
pub open spec fn passive_ex_step(game: &GameDB, hero_id: i32, k: KitView, level: int) -> Result<
    KitView,
    Seq<char>,
> {
    match game.spec_skill_ex_level(hero_id, level as i32) {
        None => Ok(k),
        Some(row) => match exchanges_of(row.passive_skill) {
            None => Err(exchanges_fault_text(row.passive_skill)),
            Some(xs) => Ok(passive_step(k, xs, ex_key(hero_id, level))),
        },
    }
}

/// The kits reached by applying the passive exchanges of ex skill levels
/// `level` down to 1 of a hero.
pub open spec fn passive_ex_pass(game: &GameDB, hero_id: i32, k: KitView, level: int) -> Result<
    KitView,
    Seq<char>,
>
    decreases level,
{
    if level < 1 {
        Ok(k)
    } else {
        match passive_ex_step(game, hero_id, k, level) {
            Err(t) => Err(t),
            Ok(k2) => passive_ex_pass(game, hero_id, k2, level - 1),
        }
    }
}

/// Applies a list of exchanges to the passives, tracing each change.
fn apply_passive_step(kit: &mut ResolvedHeroKit, xs: &[SkillExchange], key: &str)
    ensures
        final(kit)@ == passive_step(old(kit)@, xs@, key@),
{
    proof {
        reveal(passive_step);
    }
    apply_ordered_transitions(&mut kit.passives, xs, "passive", key, &mut kit.trace);
}

/// Applies the passive exchanges of ex skill level `level` of a hero.
fn apply_passive_ex_level(game: &GameDB, hero_id: i32, kit: &mut ResolvedHeroKit, level: i32) -> (r:
    Result<(), DestinyResolveError>)
    ensures
        match passive_ex_step(game, hero_id, old(kit)@, level as int) {
            Ok(k) => r is Ok && final(kit)@ == k,
            Err(t) => config_error_is(r, t),
        },
{
    proof {
        reveal(passive_ex_step);
    }
    match game.skill_ex_level_row(hero_id, level) {
        None => Ok(()),
        Some(row) => {
            let xs = match parse_skill_exchanges(row.passive_skill.as_str()) {
                Ok(xs) => xs,
                Err(e) => return Err(e),
            };
            let key = make_row_key("skill_ex_level:", hero_id, level);
            apply_passive_step(kit, xs.as_slice(), key.as_str());
            Ok(())
        },
    }
}

/// Applies the passive exchanges of ex skill levels `top` down to 1.
fn apply_passive_ex_levels(game: &GameDB, hero_id: i32, kit: &mut ResolvedHeroKit, top: i32) -> (r:
    Result<(), DestinyResolveError>)
    ensures
        match passive_ex_pass(game, hero_id, old(kit)@, top as int) {
            Ok(k) => r is Ok && final(kit)@ == k,
            Err(t) => config_error_is(r, t),
        },
{
    let ghost goal = passive_ex_pass(game, hero_id, kit@, top as int);
    let mut level: i32 = top;
    while level >= 1
        invariant
            level <= top,
            goal == passive_ex_pass(game, hero_id, old(kit)@, top as int),
            goal == passive_ex_pass(game, hero_id, kit@, level as int),
        decreases level,
    {
        let ghost before = kit@;
        let r = apply_passive_ex_level(game, hero_id, kit, level);
        if r.is_err() {
            assert(passive_ex_pass(game, hero_id, before, level as int) == passive_ex_step(
                game,
                hero_id,
                before,
                level as int,
            ));
            return r;
        }
        level = level - 1;
    }
    Ok(())
}

/// Each value replaced by its facet exchange target.
pub open spec fn facet_targets(values: Seq<i32>, xs: Seq<SkillExchange>) -> Seq<i32> {
    Seq::new(values.len(), |i: int| facet_target(values[i], xs))
}

/// The power meter an exchange grants: id `source`, empty, maximum `target`.
pub open spec fn power_of(x: SkillExchange) -> PowerInfo {
    PowerInfo { power_id: Some(x.source), num: Some(0), max: Some(x.target) }
}

/// One `power {id} max {max}` trace entry per granted meter.
pub open spec fn power_trace(ps: Seq<SkillExchange>, key: Seq<char>) -> Seq<(Seq<char>, Seq<char>)> {
    Seq::new(
        ps.len(),
        |i: int| (key, "power "@ + int_text(ps[i].source as int) + " max "@ + int_text(ps[i].target as int)),
    )
}

/// Applies an active facet row: its exchanges to each skill group, the
/// ultimate and the passives (never chaining), then the power meters it grants.
pub open spec fn apply_facet(k: KitView, f: CharacterDestinyFacetsView) -> Result<
    KitView,
    Seq<char>,
> {
    let key = facet_key(f.facets_id as int, f.level as int);
    match (exchanges_of(f.exchange_skills), exchanges_of(f.power_add)) {
        (Some(xs), Some(ps)) => Ok(
            KitView {
                skill_group_1: facet_targets(k.skill_group_1, xs),
                skill_group_2: facet_targets(k.skill_group_2, xs),
                ultimate: facet_target(k.ultimate, xs),
                passives: facet_targets(k.passives, xs),
                power_infos: k.power_infos + Seq::new(ps.len(), |i: int| power_of(ps[i])),
                trace: k.trace + values_trace(k.skill_group_1, xs, "skill_group_1"@, key)
                    + values_trace(k.skill_group_2, xs, "skill_group_2"@, key) + value_trace(
                    k.ultimate,
                    xs,
                    "ultimate"@,
                    key,
                ) + values_trace(k.passives, xs, "passive"@, key) + power_trace(ps, key),
            },
        ),
        (None, _) => Err(exchanges_fault_text(f.exchange_skills)),
        (Some(_), None) => Err(exchanges_fault_text(f.power_add)),
    }
}

/// Applies an active facet row to a kit.
fn apply_active_facet(kit: &mut ResolvedHeroKit, facet: &CharacterDestinyFacets) -> (r: Result<
    (),
    DestinyResolveError,
>)
    ensures
        match apply_facet(old(kit)@, facet@) {
            Ok(k) => r is Ok && final(kit)@ == k,
            Err(t) => config_error_is(r, t),
        },
{
    let ghost k0 = kit@;
    let key = make_row_key("character_destiny_facets:", facet.facets_id, facet.level);
    let xs = match parse_skill_exchanges(facet.exchange_skills.as_str()) {
        Ok(xs) => xs,
        Err(e) => return Err(e),
    };
    let ghost t0 = trace_view(kit.trace@);
    apply_facet_transitions(&mut kit.skill_group_1, xs.as_slice(), "skill_group_1", key.as_str(), &mut kit.trace);
    let ghost t1 = trace_view(kit.trace@);
    apply_facet_transitions(&mut kit.skill_group_2, xs.as_slice(), "skill_group_2", key.as_str(), &mut kit.trace);
    let ghost t2 = trace_view(kit.trace@);
    let u = kit.ultimate;
    kit.ultimate = transition_value(u, xs.as_slice(), "ultimate", key.as_str(), &mut kit.trace);
    let ghost t3 = trace_view(kit.trace@);
    apply_facet_transitions(&mut kit.passives, xs.as_slice(), "passive", key.as_str(), &mut kit.trace);
    let ghost t4 = trace_view(kit.trace@);
    let ps = match parse_skill_exchanges(facet.power_add.as_str()) {
        Ok(ps) => ps,
        Err(e) => return Err(e),
    };
    let ghost p0 = kit.power_infos@;
    let mut i: usize = 0;
    while i < ps.len()
        invariant
            i <= ps@.len(),
            kit.power_infos@ == p0 + Seq::new(i as nat, |j: int| power_of(ps@[j])),
            trace_view(kit.trace@) == t4 + power_trace(ps@.take(i as int), key@),
            kit.skill_group_1@ == facet_targets(k0.skill_group_1, xs@),
            kit.skill_group_2@ == facet_targets(k0.skill_group_2, xs@),
            kit.ultimate == facet_target(k0.ultimate, xs@),
            kit.passives@ == facet_targets(k0.passives, xs@),
        decreases ps@.len() - i,
    {
        let x = ps[i];
        kit.power_infos.push(PowerInfo { power_id: Some(x.source), num: Some(0), max: Some(x.target) });
        let mut m = String::from_str("power ");
        push_int(&mut m, x.source as i64);
        push_str(&mut m, " max ");
        push_int(&mut m, x.target as i64);
        push_trace(&mut kit.trace, key.as_str(), m);
        assert(kit.power_infos@ =~= p0 + Seq::new((i + 1) as nat, |j: int| power_of(ps@[j])));
        assert(power_trace(ps@.take(i as int + 1), key@) =~= power_trace(ps@.take(i as int), key@).push(
            (key@, "power "@ + int_text(x.source as int) + " max "@ + int_text(x.target as int)),
        ));
        assert(trace_view(kit.trace@) =~= t4 + power_trace(ps@.take(i as int + 1), key@));
        i = i + 1;
    }
    proof {
        assert(ps@.take(ps@.len() as int) =~= ps@);
        assert(kit.skill_group_1@ =~= facet_targets(k0.skill_group_1, xs@));
        assert(kit.skill_group_2@ =~= facet_targets(k0.skill_group_2, xs@));
        assert(kit.passives@ =~= facet_targets(k0.passives, xs@));
        assert(kit@.trace =~= apply_facet(k0, facet@)->Ok_0.trace);
    }
    Ok(())
}

/// What ex skill level `level` of a reshaping facet does to the passives.
#[verifier::opaque]
pub open spec fn facet_reshape_step(
    index: &DestinyConfigIndex,
    facets_id: i32,
    k: KitView,
    level: int,
) -> Result<KitView, Seq<char>> {
    match index.spec_reshape(facets_id, level as i32) {
        None => Err(missing_reshape_text(facets_id, level)),
        Some(row) => match exchanges_of(row.exchange_skill) {
            None => Err(exchanges_fault_text(row.exchange_skill)),
            Some(xs) => Ok(passive_step(k, xs, reshape_key(facets_id, level))),
        },
    }
}

/// The message for a reshaping facet without a row at an ex skill level.
pub open spec fn missing_reshape_text(facets_id: i32, level: int) -> Seq<char> {
    "missing destiny_facets_ex_level ("@ + int_text(facets_id as int) + ", "@ + int_text(level)
        + ")"@
}

/// The kits reached by applying the passive exchanges of a reshaping facet's
/// ex skill levels `level..=top` in order; each level must have its row.
pub open spec fn facet_reshape_pass(
    index: &DestinyConfigIndex,
    facets_id: i32,
    k: KitView,
    level: int,
    top: int,
) -> Result<KitView, Seq<char>>
    decreases top - level + 1,
{
    if level > top {
        Ok(k)
    } else {
        match facet_reshape_step(index, facets_id, k, level) {
            Err(t) => Err(t),
            Ok(k2) => facet_reshape_pass(index, facets_id, k2, level + 1, top),
        }
    }
}

fn apply_facet_reshape_level(
    index: &DestinyConfigIndex,
    facets_id: i32,
    kit: &mut ResolvedHeroKit,
    level: i32,
) -> (r: Result<(), DestinyResolveError>)
    ensures
        match facet_reshape_step(index, facets_id, old(kit)@, level as int) {
            Ok(k) => r is Ok && final(kit)@ == k,
            Err(t) => config_error_is(r, t),
        },
{
    proof {
        reveal(facet_reshape_step);
    }
    match index.reshape(facets_id, level) {
        None => {
            let mut m = String::from_str("missing destiny_facets_ex_level (");
            push_int(&mut m, facets_id as i64);
            push_str(&mut m, ", ");
            push_int(&mut m, level as i64);
            push_str(&mut m, ")");
            Err(DestinyResolveError::InvalidConfig(m))
        },
        Some(row) => {
            let xs = match parse_skill_exchanges(row.exchange_skill.as_str()) {
                Ok(xs) => xs,
                Err(e) => return Err(e),
            };
            let key = make_row_key("destiny_facets_ex_level:", facets_id, level);
            apply_passive_step(kit, xs.as_slice(), key.as_str());
            Ok(())
        },
    }
}

/// Applies the passive exchanges of a reshaping facet's ex skill levels
/// `1..=top` in order.
fn apply_facet_reshape_levels(
    index: &DestinyConfigIndex,
    facets_id: i32,
    kit: &mut ResolvedHeroKit,
    top: i32,
) -> (r: Result<(), DestinyResolveError>)
    ensures
        match facet_reshape_pass(index, facets_id, old(kit)@, 1, top as int) {
            Ok(k) => r is Ok && final(kit)@ == k,
            Err(t) => config_error_is(r, t),
        },
{
    let ghost goal = facet_reshape_pass(index, facets_id, kit@, 1, top as int);
    let mut level: i64 = 1;
    while level <= top as i64
        invariant
            1 <= level,
            level <= top + 1 || top < 1,
            goal == facet_reshape_pass(index, facets_id, old(kit)@, 1, top as int),
            goal == facet_reshape_pass(index, facets_id, kit@, level as int, top as int),
        decreases top - level + 1,
    {
        let ghost before = kit@;
        let r = apply_facet_reshape_level(index, facets_id, kit, level as i32);
        if r.is_err() {
            assert(facet_reshape_pass(index, facets_id, before, level as int, top as int)
                == facet_reshape_step(index, facets_id, before, level as int));
            return r;
        }
        level = level + 1;
    }
    Ok(())
}

// ---------------------------------------------------------------------------
// Rank replacement and the active facet
// ---------------------------------------------------------------------------

/// The rank replacement a hero uses: only from rank 3, with a positive skin
/// that is the character's base or motion skin.
pub open spec fn rank_replacement(game: &GameDB, ch: CharacterView, ctx: HeroBuildContext) -> Option<
    CharacterRankReplaceView,
> {
    if ctx.rank < 3 || ctx.skin <= 0 || (ctx.skin != ch.skin_id && ctx.skin != ch.mvskin_id) {
        None
    } else {
        game.spec_rank_replace(ctx.hero_id)
    }
}

/// Finds the rank replacement a hero uses.
fn active_rank_replacement<'a>(
    game: &'a GameDB,
    character: &Character,
    context: &HeroBuildContext,
) -> (r: Option<&'a CharacterRankReplace>)
    ensures
        match rank_replacement(game, character@, *context) {
            Some(v) => r matches Some(x) && x@ == v,
            None => r is None,
        },
{
    if context.rank < 3 || context.skin <= 0 || (context.skin != character.skin_id && context.skin
        != character.mvskin_id) {
        return None;
    }
    game.rank_replace_row(context.hero_id)
}

/// Whether a facet is active for a hero, and which row it uses.
pub enum FacetStatus {
    /// No facet, rank 0, or a facet the hero does not own.
    Inactive,
    /// The facet row at the hero's Destiny rank.
    Active(CharacterDestinyFacetsView),
    /// An owned facet without a row at the hero's Destiny rank.
    Missing,
}

/// Whether hero `hero_id` owns facet `facet_id`.
pub open spec fn facet_owned(index: &DestinyConfigIndex, hero_id: i32, facet_id: i32) -> bool {
    match index.spec_hero(hero_id) {
        Some(h) => h.facet_ids.contains(facet_id),
        None => false,
    }
}

/// The status of a hero's Destiny facet.
pub open spec fn facet_status(index: &DestinyConfigIndex, ctx: HeroBuildContext) -> FacetStatus {
    let f = ctx.destiny.facet_id;
    let rank = ctx.destiny.rank;
    if f == 0 || rank == 0 || !facet_owned(index, ctx.hero_id, f) {
        FacetStatus::Inactive
    } else {
        match index.spec_facet(f, rank) {
            Some(row) => FacetStatus::Active(row),
            None => FacetStatus::Missing,
        }
    }
}

/// The trace entry that records a facet's status.
pub open spec fn facet_entry(index: &DestinyConfigIndex, ctx: HeroBuildContext) -> (Seq<char>, Seq<char>) {
    let f = ctx.destiny.facet_id;
    let rank = ctx.destiny.rank;
    if f == 0 {
        (facet_key(0, rank as int), "facet 0 inactive"@)
    } else if rank == 0 {
        (facet_key(f as int, 0), "facet "@ + int_text(f as int) + " inactive at rank 0"@)
    } else if !facet_owned(index, ctx.hero_id, f) {
        (
            "character_destiny:"@ + int_text(ctx.hero_id as int),
            "foreign facet "@ + int_text(f as int) + " inactive"@,
        )
    } else {
        (
            facet_key(f as int, rank as int),
            "facet "@ + int_text(f as int) + " active at rank "@ + int_text(rank as int),
        )
    }
}

/// The message for an owned facet without a row at the hero's Destiny rank.
pub open spec fn missing_facet_text(ctx: HeroBuildContext) -> Seq<char> {
    "missing character_destiny_facets ("@ + int_text(ctx.destiny.facet_id as int) + ", "@
        + int_text(ctx.destiny.rank as int) + ")"@
}

/// Finds the active facet row, tracing the facet's status.
fn active_facet<'a>(
    index: &'a DestinyConfigIndex,
    context: &HeroBuildContext,
    trace: &mut Vec<DestinyTrace>,
) -> (r: Result<Option<&'a CharacterDestinyFacets>, DestinyResolveError>)
    ensures
        match facet_status(index, *context) {
            FacetStatus::Inactive => r matches Ok(None) && trace_view(final(trace)@) == trace_view(
                old(trace)@,
            ).push(facet_entry(index, *context)),
            FacetStatus::Active(row) => r matches Ok(Some(x)) && x@ == row && trace_view(
                final(trace)@,
            ) == trace_view(old(trace)@).push(facet_entry(index, *context)),
            FacetStatus::Missing => config_error_is(r, missing_facet_text(*context)),
        },
{
    let facet_id = context.destiny.facet_id;
    let rank = context.destiny.rank;
    if facet_id == 0 {
        let key = make_row_key("character_destiny_facets:", 0, rank);
        push_trace(trace, key.as_str(), String::from_str("facet 0 inactive"));
        return Ok(None);
    }
    if rank == 0 {
        let key = make_row_key("character_destiny_facets:", facet_id, 0);
        let mut m = String::from_str("facet ");
        push_int(&mut m, facet_id as i64);
        push_str(&mut m, " inactive at rank 0");
        push_trace(trace, key.as_str(), m);
        return Ok(None);
    }
    let owned = match index.hero(context.hero_id) {
        Some(h) => contains_id(h.facet_ids.as_slice(), facet_id),
        None => false,
    };
    if !owned {
        let mut key = String::from_str("character_destiny:");
        push_int(&mut key, context.hero_id as i64);
        let mut m = String::from_str("foreign facet ");
        push_int(&mut m, facet_id as i64);
        push_str(&mut m, " inactive");
        push_trace(trace, key.as_str(), m);
        return Ok(None);
    }
    match index.facet(facet_id, rank) {
        None => {
            let mut m = String::from_str("missing character_destiny_facets (");
            push_int(&mut m, facet_id as i64);
            push_str(&mut m, ", ");
            push_int(&mut m, rank as i64);
            push_str(&mut m, ")");
            Err(DestinyResolveError::InvalidConfig(m))
        },
        Some(row) => {
            let key = make_row_key("character_destiny_facets:", facet_id, rank);
            let mut m = String::from_str("facet ");
            push_int(&mut m, facet_id as i64);
            push_str(&mut m, " active at rank ");
            push_int(&mut m, rank as i64);
            push_trace(trace, key.as_str(), m);
            Ok(Some(row))
        },
    }
}

// ---------------------------------------------------------------------------
// The whole kit
// ---------------------------------------------------------------------------

/// The trace entry of an active rank replacement.
pub open spec fn replacement_entry(r: CharacterRankReplaceView, ctx: HeroBuildContext) -> (
    Seq<char>,
    Seq<char>,
) {
    (
        "character_rank_replace:"@ + int_text(r.id as int),
        "rank replacement active at rank "@ + int_text(ctx.rank as int) + " skin "@ + int_text(
            ctx.skin as int,
        ) + " hero type "@ + int_text(r.hero_type as int),
    )
}

/// The kit a hero starts from, with the hero type its skill values are read
/// for: the character's (or its active rank replacement's) skill groups and
/// ultimate, its base passives, and the trace of the replacement and the facet.
#[verifier::opaque]
pub open spec fn initial_kit(index: &DestinyConfigIndex, game: &GameDB, ctx: HeroBuildContext) -> Result<
    (KitView, i32),
    Seq<char>,
> {
    match game.spec_character(ctx.hero_id) {
        None => Err("missing character "@ + int_text(ctx.hero_id as int)),
        Some(ch) => {
            let rep = rank_replacement(game, ch, ctx);
            let skill = match rep {
                Some(r) => r.skill,
                None => ch.skill,
            };
            let ultimate = match rep {
                Some(r) => r.ex_skill,
                None => ch.ex_skill,
            };
            let ty = match rep {
                Some(r) => r.hero_type,
                None => ctx.hero_type,
            };
            let t0 = match rep {
                Some(r) => seq![replacement_entry(r, ctx)],
                None => Seq::empty(),
            };
            match (character_group(skill, 1, ty), character_group(skill, 2, ty)) {
                (Some(g1), Some(g2)) => if facet_status(index, ctx) is Missing {
                    Err(missing_facet_text(ctx))
                } else {
                    Ok(
                        (
                            KitView {
                                skill_group_1: g1,
                                skill_group_2: g2,
                                ultimate,
                                passives: base_passives_of(game.skill_passive_level@, ctx.hero_id),
                                power_infos: Seq::empty(),
                                trace: t0.push(facet_entry(index, ctx)),
                            },
                            ty,
                        ),
                    )
                },
                (None, _) => Err(character_group_fault(skill, 1)),
                (Some(_), None) => Err(character_group_fault(skill, 2)),
            }
        },
    }
}

/// The kit after the ex skill levels: a reshaping active facet replaces the
/// groups and ultimate from its own row at the hero's ex skill level;
/// otherwise each level's `skill_ex_level` row applies in order.
#[verifier::opaque]
pub open spec fn ex_levels_kit(
    index: &DestinyConfigIndex,
    game: &GameDB,
    ctx: HeroBuildContext,
    k0: KitView,
    ty: i32,
) -> Result<KitView, Seq<char>> {
    let ex = ctx.ex_skill_level as int;
    if facet_status(index, ctx) matches FacetStatus::Active(f) && f.ex_level_exchange {
        if ex > 0 {
            match index.spec_reshape(ctx.destiny.facet_id, ctx.ex_skill_level) {
                None => Err(missing_reshape_text(ctx.destiny.facet_id, ex)),
                Some(row) => apply_ex_row(
                    k0,
                    row.skill_group1,
                    row.skill_group2,
                    row.skill_ex,
                    ty,
                    reshape_key(ctx.destiny.facet_id, ex),
                ),
            }
        } else {
            Ok(k0)
        }
    } else {
        normal_ex_pass(game, ctx.hero_id, ty, k0, 1, ex)
    }
}

/// The kit after the active facet: its exchanges and power meters, then, for
/// a reshaping facet, the passive exchanges of its ex skill levels.
#[verifier::opaque]
pub open spec fn facet_kit(index: &DestinyConfigIndex, ctx: HeroBuildContext, k: KitView) -> Result<
    KitView,
    Seq<char>,
> {
    match facet_status(index, ctx) {
        FacetStatus::Active(f) => match apply_facet(k, f) {
            Err(t) => Err(t),
            Ok(k2) => if f.ex_level_exchange {
                facet_reshape_pass(index, f.facets_id, k2, 1, ctx.ex_skill_level as int)
            } else {
                Ok(k2)
            },
        },
        _ => Ok(k),
    }
}

/// A hero's combat kit: the starting kit, the ex skill levels, the passive
/// exchanges of the ex skill levels from the highest down, and the active
/// facet. An error, with the message it reports, when the configuration
/// lacks a row it needs or holds a value that does not parse.
pub open spec fn hero_kit(index: &DestinyConfigIndex, game: &GameDB, ctx: HeroBuildContext) -> Result<
    KitView,
    Seq<char>,
> {
    match initial_kit(index, game, ctx) {
        Err(t) => Err(t),
        Ok((k0, ty)) => match ex_levels_kit(index, game, ctx, k0, ty) {
            Err(t) => Err(t),
            Ok(k1) => match passive_ex_pass(game, ctx.hero_id, k1, ctx.ex_skill_level as int) {
                Err(t) => Err(t),
                Ok(k2) => facet_kit(index, ctx, k2),
            },
        },
    }
}

/// The message of a negative ex skill level.
pub open spec fn negative_ex_message(ctx: HeroBuildContext) -> Seq<char> {
    "negative ex skill level "@ + int_text(ctx.ex_skill_level as int) + " for hero "@ + int_text(
        ctx.hero_id as int,
    )
}

/// The message of a negative Destiny rank or facet.
pub open spec fn negative_destiny_message(ctx: HeroBuildContext) -> Seq<char> {
    "rank "@ + int_text(ctx.destiny.rank as int) + " facet "@ + int_text(
        ctx.destiny.facet_id as int,
    ) + " for hero "@ + int_text(ctx.hero_id as int)
}

/// The active facet row that a status names.
pub open spec fn status_row(status: FacetStatus, f: Option<CharacterDestinyFacetsView>) -> bool {
    match status {
        FacetStatus::Active(row) => f == Some(row),
        _ => f is None,
    }
}

/// Builds the kit a hero starts from, and finds its active facet row.
fn start_kit<'a>(
    index: &'a DestinyConfigIndex,
    game: &GameDB,
    context: &HeroBuildContext,
) -> (r: Result<(ResolvedHeroKit, i32, Option<&'a CharacterDestinyFacets>), DestinyResolveError>)
    ensures
        match initial_kit(index, game, *context) {
            Ok((k0, ty)) => r matches Ok((kit, t, f)) && kit@ == k0 && t == ty && status_row(
                facet_status(index, *context),
                match f {
                    Some(x) => Some(x@),
                    None => None,
                },
            ),
            Err(t) => config_error_is(r, t),
        },
{
    proof {
        reveal(initial_kit);
    }
    let hero_id = context.hero_id;
    let character = match game.character_row(hero_id) {
        Some(c) => c,
        None => {
            let mut m = String::from_str("missing character ");
            push_int(&mut m, hero_id as i64);
            return Err(DestinyResolveError::InvalidConfig(m));
        },
    };
    let replacement = active_rank_replacement(game, character, context);
    let (skill, ultimate, hero_type) = match replacement {
        Some(rep) => (rep.skill.as_str(), rep.ex_skill, rep.hero_type),
        None => (character.skill.as_str(), character.ex_skill, context.hero_type),
    };
    let group1 = match parse_character_skill_group(skill, 1, hero_type) {
        Ok(g) => g,
        Err(e) => return Err(e),
    };
    let group2 = match parse_character_skill_group(skill, 2, hero_type) {
        Ok(g) => g,
        Err(e) => return Err(e),
    };
    let mut kit = ResolvedHeroKit {
        skill_group_1: group1,
        skill_group_2: group2,
        ultimate,
        passives: base_passives(game, hero_id),
        power_infos: Vec::new(),
        trace: Vec::new(),
    };
    if let Some(rep) = replacement {
        let mut key = String::from_str("character_rank_replace:");
        push_int(&mut key, rep.id as i64);
        let mut m = String::from_str("rank replacement active at rank ");
        push_int(&mut m, context.rank as i64);
        push_str(&mut m, " skin ");
        push_int(&mut m, context.skin as i64);
        push_str(&mut m, " hero type ");
        push_int(&mut m, hero_type as i64);
        push_trace(&mut kit.trace, key.as_str(), m);
    }
    let facet = match active_facet(index, context, &mut kit.trace) {
        Ok(f) => f,
        Err(e) => return Err(e),
    };
    proof {
        let init = initial_kit(index, game, *context);
        assert(init is Ok);
        assert(kit@.trace =~= (init->Ok_0).0.trace);
    }
    Ok((kit, hero_type, facet))
}

/// Applies the ex skill levels to a starting kit.
fn apply_ex_levels(
    index: &DestinyConfigIndex,
    game: &GameDB,
    context: &HeroBuildContext,
    kit: &mut ResolvedHeroKit,
    hero_type: i32,
    facet: Option<&CharacterDestinyFacets>,
) -> (r: Result<(), DestinyResolveError>)
    requires
        context.ex_skill_level >= 0,
        status_row(
            facet_status(index, *context),
            match facet {
                Some(x) => Some(x@),
                None => None,
            },
        ),
    ensures
        match ex_levels_kit(index, game, *context, old(kit)@, hero_type) {
            Ok(k) => r is Ok && final(kit)@ == k,
            Err(t) => config_error_is(r, t),
        },
{
    proof {
        reveal(ex_levels_kit);
    }
    let ex = context.ex_skill_level;
    let reshape_active = match facet {
        Some(f) => f.ex_level_exchange,
        None => false,
    };
    if reshape_active {
        if ex > 0 {
            let facet_id = context.destiny.facet_id;
            let row = match index.reshape(facet_id, ex) {
                Some(row) => row,
                None => {
                    let mut m = String::from_str("missing destiny_facets_ex_level (");
                    push_int(&mut m, facet_id as i64);
                    push_str(&mut m, ", ");
                    push_int(&mut m, ex as i64);
                    push_str(&mut m, ")");
                    return Err(DestinyResolveError::InvalidConfig(m));
                },
            };
            let key = make_row_key("destiny_facets_ex_level:", facet_id, ex);
            apply_ex_row_to(
                kit,
                row.skill_group1.as_str(),
                row.skill_group2.as_str(),
                row.skill_ex,
                hero_type,
                key.as_str(),
            )
        } else {
            Ok(())
        }
    } else {
        apply_normal_ex_levels(game, context.hero_id, hero_type, kit, ex)
    }
}

/// Applies the active facet to a kit.
fn apply_facet_stage(
    index: &DestinyConfigIndex,
    context: &HeroBuildContext,
    kit: &mut ResolvedHeroKit,
    facet: Option<&CharacterDestinyFacets>,
) -> (r: Result<(), DestinyResolveError>)
    requires
        status_row(
            facet_status(index, *context),
            match facet {
                Some(x) => Some(x@),
                None => None,
            },
        ),
    ensures
        match facet_kit(index, *context, old(kit)@) {
            Ok(k) => r is Ok && final(kit)@ == k,
            Err(t) => config_error_is(r, t),
        },
{
    proof {
        reveal(facet_kit);
    }
    match facet {
        None => Ok(()),
        Some(f) => {
            let r = apply_active_facet(kit, f);
            if r.is_err() {
                return r;
            }
            if f.ex_level_exchange {
                apply_facet_reshape_levels(index, f.facets_id, kit, context.ex_skill_level)
            } else {
                Ok(())
            }
        },
    }
}

/// Resolves a battle hero's combat kit.
pub fn resolve_hero_kit(
    index: &DestinyConfigIndex,
    game: &GameDB,
    context: &HeroBuildContext,
) -> (r: Result<ResolvedHeroKit, DestinyResolveError>)
    ensures
        context.ex_skill_level < 0 ==> (r matches Err(DestinyResolveError::InvalidState(m)) && m@
            == negative_ex_message(*context)),
        context.ex_skill_level >= 0 && (context.destiny.rank < 0 || context.destiny.facet_id < 0)
            ==> (r matches Err(DestinyResolveError::InvalidState(m)) && m@
            == negative_destiny_message(*context)),
        context.ex_skill_level >= 0 && context.destiny.rank >= 0 && context.destiny.facet_id >= 0
            ==> match hero_kit(index, game, *context) {
            Ok(k) => r matches Ok(kit) && kit@ == k,
            Err(t) => config_error_is(r, t),
        },
{
    let hero_id = context.hero_id;
    if context.ex_skill_level < 0 {
        let mut m = String::from_str("negative ex skill level ");
        push_int(&mut m, context.ex_skill_level as i64);
        push_str(&mut m, " for hero ");
        push_int(&mut m, hero_id as i64);
        return Err(DestinyResolveError::InvalidState(m));
    }
    if context.destiny.rank < 0 || context.destiny.facet_id < 0 {
        let mut m = String::from_str("rank ");
        push_int(&mut m, context.destiny.rank as i64);
        push_str(&mut m, " facet ");
        push_int(&mut m, context.destiny.facet_id as i64);
        push_str(&mut m, " for hero ");
        push_int(&mut m, hero_id as i64);
        return Err(DestinyResolveError::InvalidState(m));
    }
    let (mut kit, hero_type, facet) = match start_kit(index, game, context) {
        Ok(x) => x,
        Err(e) => return Err(e),
    };
    let r = apply_ex_levels(index, game, context, &mut kit, hero_type, facet);
    if r.is_err() {
        return Err(r.unwrap_err());
    }
    let r = apply_passive_ex_levels(game, hero_id, &mut kit, context.ex_skill_level);
    if r.is_err() {
        return Err(r.unwrap_err());
    }
    let r = apply_facet_stage(index, context, &mut kit, facet);
    if r.is_err() {
        return Err(r.unwrap_err());
    }
    Ok(kit)
}

// ---------------------------------------------------------------------------
// Foreign facets
// ---------------------------------------------------------------------------

/// Two kits agree in everything but their traces.
pub open spec fn same_but_trace(a: KitView, b: KitView) -> bool {
    &&& a.skill_group_1 == b.skill_group_1
    &&& a.skill_group_2 == b.skill_group_2
    &&& a.ultimate == b.ultimate
    &&& a.passives == b.passives
    &&& a.power_infos == b.power_infos
}

/// Two kit results agree: the same error, or kits that agree but for traces.
pub open spec fn results_agree(a: Result<KitView, Seq<char>>, b: Result<KitView, Seq<char>>) -> bool {
    match (a, b) {
        (Ok(x), Ok(y)) => same_but_trace(x, y),
        (Err(x), Err(y)) => x == y,
        _ => false,
    }
}

proof fn lemma_ex_row_agrees(
    k: KitView,
    l: KitView,
    g1: Seq<char>,
    g2: Seq<char>,
    ex: i32,
    ty: i32,
    key: Seq<char>,
)
    requires
        same_but_trace(k, l),
    ensures
        results_agree(apply_ex_row(k, g1, g2, ex, ty, key), apply_ex_row(l, g1, g2, ex, ty, key)),
{
    reveal(apply_ex_row);
}

proof fn lemma_normal_pass_agrees(
    game: &GameDB,
    hero_id: i32,
    ty: i32,
    k: KitView,
    l: KitView,
    level: int,
    top: int,
)
    requires
        same_but_trace(k, l),
    ensures
        results_agree(
            normal_ex_pass(game, hero_id, ty, k, level, top),
            normal_ex_pass(game, hero_id, ty, l, level, top),
        ),
    decreases top - level + 1,
{
    if level <= top {
        reveal(normal_ex_step);
        match game.spec_skill_ex_level(hero_id, level as i32) {
            None => {},
            Some(row) => {
                lemma_ex_row_agrees(k, l, row.skill_group1, row.skill_group2, row.skill_ex, ty, ex_key(hero_id, level));
            },
        }
        match (normal_ex_step(game, hero_id, ty, k, level), normal_ex_step(game, hero_id, ty, l, level)) {
            (Ok(k2), Ok(l2)) => lemma_normal_pass_agrees(game, hero_id, ty, k2, l2, level + 1, top),
            _ => {},
        }
    }
}

proof fn lemma_passive_pass_agrees(game: &GameDB, hero_id: i32, k: KitView, l: KitView, level: int)
    requires
        same_but_trace(k, l),
    ensures
        results_agree(passive_ex_pass(game, hero_id, k, level), passive_ex_pass(game, hero_id, l, level)),
    decreases level,
{
    if level >= 1 {
        reveal(passive_ex_step);
        reveal(passive_step);
        match (passive_ex_step(game, hero_id, k, level), passive_ex_step(game, hero_id, l, level)) {
            (Ok(k2), Ok(l2)) => lemma_passive_pass_agrees(game, hero_id, k2, l2, level - 1),
            _ => {},
        }
    }
}

/// `b` starts with the entries of `a`.
pub open spec fn trace_grows(a: Seq<(Seq<char>, Seq<char>)>, b: Seq<(Seq<char>, Seq<char>)>) -> bool {
    a.len() <= b.len() && forall|i: int| 0 <= i < a.len() ==> #[trigger] b[i] == a[i]
}

proof fn lemma_ex_row_grows(k: KitView, g1: Seq<char>, g2: Seq<char>, ex: i32, ty: i32, key: Seq<char>)
    ensures
        apply_ex_row(k, g1, g2, ex, ty, key) matches Ok(k2) ==> trace_grows(k.trace, k2.trace),
{
    reveal(apply_ex_row);
    if let Ok((a, t1)) = replace_group_spec(k.skill_group_1, k.trace, g1, ty, "skill_group_1"@, key) {
        assert(trace_grows(k.trace, t1));
        if let Ok((b, t2)) = replace_group_spec(k.skill_group_2, t1, g2, ty, "skill_group_2"@, key) {
            assert(trace_grows(t1, t2));
            let (u, t3) = replace_ultimate_spec(k.ultimate, t2, ex, key);
            assert(trace_grows(t2, t3));
        }
    }
}

proof fn lemma_normal_pass_grows(game: &GameDB, hero_id: i32, ty: i32, k: KitView, level: int, top: int)
    ensures
        normal_ex_pass(game, hero_id, ty, k, level, top) matches Ok(k2) ==> trace_grows(
            k.trace,
            k2.trace,
        ),
    decreases top - level + 1,
{
    if level <= top {
        reveal(normal_ex_step);
        match game.spec_skill_ex_level(hero_id, level as i32) {
            None => {},
            Some(row) => {
                lemma_ex_row_grows(k, row.skill_group1, row.skill_group2, row.skill_ex, ty, ex_key(hero_id, level));
            },
        }
        if let Ok(k2) = normal_ex_step(game, hero_id, ty, k, level) {
            lemma_normal_pass_grows(game, hero_id, ty, k2, level + 1, top);
        }
    }
}

proof fn lemma_passive_pass_grows(game: &GameDB, hero_id: i32, k: KitView, level: int)
    ensures
        passive_ex_pass(game, hero_id, k, level) matches Ok(k2) ==> trace_grows(k.trace, k2.trace),
    decreases level,
{
    if level >= 1 {
        reveal(passive_ex_step);
        reveal(passive_step);
        if let Ok(k2) = passive_ex_step(game, hero_id, k, level) {
            lemma_passive_pass_grows(game, hero_id, k2, level - 1);
        }
    }
}

/// A facet that the hero does not own changes nothing of its kit: the kit
/// is the one it has with no facet (facet 0), but for the trace entry that
/// records the facet, and any refusal is the same. At a Destiny rank, the
/// trace records the foreign facet as inactive.
pub proof fn foreign_facet_leaves_the_kit_as_at_facet_zero(
    index: &DestinyConfigIndex,
    game: &GameDB,
    ctx: HeroBuildContext,
)
    requires
        ctx.destiny.facet_id != 0,
        !facet_owned(index, ctx.hero_id, ctx.destiny.facet_id),
    ensures
        results_agree(
            hero_kit(index, game, ctx),
            hero_kit(
                index,
                game,
                HeroBuildContext {
                    destiny: DestinyState { facet_id: 0, ..ctx.destiny },
                    ..ctx
                },
            ),
        ),
        ctx.destiny.rank != 0 ==> (hero_kit(index, game, ctx) matches Ok(k) ==> k.trace.contains(
            (
                "character_destiny:"@ + int_text(ctx.hero_id as int),
                "foreign facet "@ + int_text(ctx.destiny.facet_id as int) + " inactive"@,
            ),
        )),
{
    let ctx0 = HeroBuildContext { destiny: DestinyState { facet_id: 0, ..ctx.destiny }, ..ctx };
    reveal(initial_kit);
    reveal(ex_levels_kit);
    reveal(facet_kit);
    assert(facet_status(index, ctx) is Inactive);
    assert(facet_status(index, ctx0) is Inactive);
    match (initial_kit(index, game, ctx), initial_kit(index, game, ctx0)) {
        (Ok((k0, ty)), Ok((l0, ty0))) => {
            assert(ty == ty0);
            assert(same_but_trace(k0, l0));
            lemma_normal_pass_agrees(game, ctx.hero_id, ty, k0, l0, 1, ctx.ex_skill_level as int);
            lemma_normal_pass_grows(game, ctx.hero_id, ty, k0, 1, ctx.ex_skill_level as int);
            let at = k0.trace.len() - 1;
            assert(k0.trace[at] == facet_entry(index, ctx));
            match (ex_levels_kit(index, game, ctx, k0, ty), ex_levels_kit(index, game, ctx0, l0, ty)) {
                (Ok(k1), Ok(l1)) => {
                    lemma_passive_pass_agrees(game, ctx.hero_id, k1, l1, ctx.ex_skill_level as int);
                    lemma_passive_pass_grows(game, ctx.hero_id, k1, ctx.ex_skill_level as int);
                    if let Ok(k2) = passive_ex_pass(game, ctx.hero_id, k1, ctx.ex_skill_level as int) {
                        assert(k1.trace[at] == k0.trace[at]);
                        assert(k2.trace[at] == k1.trace[at]);
                        assert(hero_kit(index, game, ctx) == Ok::<KitView, Seq<char>>(k2));
                    }
                },
                _ => {},
            }
        },
        _ => {},
    }
}

// ---------------------------------------------------------------------------
// Variants and power meters
// ---------------------------------------------------------------------------

/// A skill block with `,`-separated variants is read at the variant of the
/// hero type: variant `hero_type - 1` (counting from 0) when the block has
/// that many variants, the first variant otherwise.
pub proof fn block_reads_the_hero_type_variant(block: Seq<char>, target_group: i32, hero_type: i32)
    ensures
        ({
            let variants = split(block, ',');
            let chosen = if 1 <= hero_type <= variants.len() {
                variants[hero_type - 1]
            } else {
                variants[0]
            };
            let parts = split(chosen, '#');
            block_group_ids(block, target_group, hero_type) == parse_id_list(
                if parse_i32_spec(parts[0]) == Some(target_group) {
                    parts.drop_first()
                } else {
                    parts
                },
            )
        }),
{
}

/// A skill group value with `,`-separated variants is read at the variant
/// of the hero type: variant `hero_type - 1` (counting from 0) when the value
/// has that many variants, the first variant otherwise.
pub proof fn group_value_reads_the_hero_type_variant(value: Seq<char>, hero_type: i32)
    requires
        value.len() > 0,
    ensures
        ({
            let variants = split(value, ',');
            let chosen = if 1 <= hero_type <= variants.len() {
                variants[hero_type - 1]
            } else {
                variants[0]
            };
            group_value(value, hero_type) == parse_id_list(split(chosen, '|'))
        }),
{
}

/// Every power meter that an active facet grants starts empty: meter `i`
/// after the kit's own meters has the id of the facet's `i`-th `power_add`
/// exchange, current value 0 and that exchange's target as its maximum; the
/// meters the kit had stay first and unchanged.
pub proof fn granted_power_meters_start_empty(k: KitView, f: CharacterDestinyFacetsView)
    ensures
        apply_facet(k, f) matches Ok(k2) ==> exchanges_of(f.power_add) matches Some(ps) && k2.power_infos.len()
            == k.power_infos.len() + ps.len() && (forall|i: int|
            0 <= i < k.power_infos.len() ==> #[trigger] k2.power_infos[i] == k.power_infos[i]) && (
        forall|i: int|
            0 <= i < ps.len() ==> (#[trigger] k2.power_infos[k.power_infos.len() + i]).num == Some(0i32)
                && k2.power_infos[k.power_infos.len() + i].power_id == Some(ps[i].source)
                && k2.power_infos[k.power_infos.len() + i].max == Some(ps[i].target)),
{
}

} // verus!
