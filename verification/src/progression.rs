//! Destiny progression: material costs and the plan that a Destiny command
//! asks of the stored hero state.
use crate::config::DestinyConfigIndex;
use crate::table::contains_id;
use crate::text::{
    push_int, push_str, chars_to_string, debug_quoted, int_text, message_with_quoted, parse_i32,
    parse_i32_spec, parse_i64, parse_i64_spec, pieces_view, split, split_chars, str_chars,
};
use vstd::prelude::*;

verus! {

/// A hero's stored Destiny progress.
#[derive(Clone, Copy, Debug, PartialEq, Eq, Structural)]
pub struct DestinyState {
    pub rank: i32,
    pub level: i32,
    pub stone: i32,
}

/// The two kinds of material a cost can name; items order before currencies.
#[derive(Clone, Copy, Debug, PartialEq, Eq, Structural, PartialOrd, Ord)]
pub enum MaterialKind {
    Item,
    Currency,
}

impl MaterialKind {
    /// The kind's number in configuration data (`1` item, `2` currency).
    pub fn code(self) -> (c: i32)
        ensures
            c == kind_code(self),
    {
        match self {
            MaterialKind::Item => 1,
            MaterialKind::Currency => 2,
        }
    }
}

/// The number of a material kind.
pub open spec fn kind_code(k: MaterialKind) -> int {
    match k {
        MaterialKind::Item => 1,
        MaterialKind::Currency => 2,
    }
}

/// An amount of one item or currency.
#[derive(Clone, Copy, Debug, PartialEq, Eq, Structural, PartialOrd, Ord)]
pub struct MaterialCost {
    pub kind: MaterialKind,
    pub id: i32,
    pub amount: i32,
}

/// A Destiny command as the client sends it.
#[derive(Clone, Copy, Debug, PartialEq, Eq, Structural)]
pub enum DestinyCommand {
    RankUp { hero_id: i32 },
    LevelUp { hero_id: i32, target_level: i32 },
    UnlockStone { hero_id: i32, stone_id: i32 },
    UseStone { hero_id: i32, stone_id: i32 },
}

/// The change a command asks for.
#[derive(Clone, Copy, Debug, PartialEq, Eq, Structural)]
pub enum MutationKind {
    Progress { target_rank: i32, target_level: i32 },
    UnlockStone { stone_id: i32 },
    UseStone { stone_id: i32 },
    NoChange,
}

/// Why a Destiny command was not carried out.
#[derive(Debug)]
pub enum ProgressionError {
    /// The command does not apply to the stored state or the configuration.
    Invalid(String),
    /// The player lacks the named material.
    Insufficient(MaterialCost),
    /// The stored state changed while the command ran.
    Conflict,
    /// The store failed; the text describes the failure.
    Database(String),
}

// ---------------------------------------------------------------------------
// Material costs
// ---------------------------------------------------------------------------

/// `a` orders strictly before `b` by kind, then id.
pub open spec fn key_lt(a: MaterialCost, b: MaterialCost) -> bool {
    kind_code(a.kind) < kind_code(b.kind) || (a.kind == b.kind && a.id < b.id)
}

/// `a` and `b` name the same material.
pub open spec fn same_key(a: MaterialCost, b: MaterialCost) -> bool {
    a.kind == b.kind && a.id == b.id
}

/// The summed amount of the material that `key` names over `costs`.
pub open spec fn total_amount(costs: Seq<MaterialCost>, key: MaterialCost) -> int
    decreases costs.len(),
{
    if costs.len() == 0 {
        0
    } else {
        total_amount(costs.drop_last(), key) + if same_key(costs.last(), key) {
            costs.last().amount as int
        } else {
            0
        }
    }
}

/// The kind that a configuration number names.
pub open spec fn kind_of_code(v: i32) -> Option<MaterialKind> {
    if v == 1 {
        Some(MaterialKind::Item)
    } else if v == 2 {
        Some(MaterialKind::Currency)
    } else {
        None
    }
}

/// The cost that one `kind#id#amount` entry states: the kind is `1` or `2`,
/// the id a positive `i32`, the amount an integer from 1 to `i32::MAX`, and
/// there is no fourth field.
pub open spec fn entry_cost(entry: Seq<char>) -> Option<MaterialCost> {
    let fields = split(entry, '#');
    if fields.len() != 3 {
        None
    } else {
        match (parse_i32_spec(fields[0]), parse_i32_spec(fields[1]), parse_i64_spec(fields[2])) {
            (Some(k), Some(id), Some(amount)) => match kind_of_code(k) {
                Some(kind) => if id > 0 && 1 <= amount <= i32::MAX {
                    Some(MaterialCost { kind, id, amount: amount as i32 })
                } else {
                    None
                },
                None => None,
            },
            _ => None,
        }
    }
}

/// The `|`-separated entries of the cost strings; an empty string has none.
pub open spec fn raw_entries(raws: Seq<Seq<char>>) -> Seq<Seq<char>>
    decreases raws.len(),
{
    if raws.len() == 0 {
        Seq::empty()
    } else {
        raw_entries(raws.drop_last()) + if raws.last().len() == 0 {
            Seq::<Seq<char>>::empty()
        } else {
            split(raws.last(), '|')
        }
    }
}

/// Every entry states a cost.
pub open spec fn entries_valid(entries: Seq<Seq<char>>) -> bool {
    forall|i: int| 0 <= i < entries.len() ==> (#[trigger] entry_cost(entries[i])) is Some
}

/// The costs that the entries state.
pub open spec fn entry_costs(entries: Seq<Seq<char>>) -> Seq<MaterialCost> {
    Seq::new(entries.len(), |i: int| entry_cost(entries[i]).unwrap())
}

/// The cost strings parse: each entry is well formed and no material's total
/// exceeds `i32::MAX`.
pub open spec fn costs_parse(raws: Seq<Seq<char>>) -> bool {
    let entries = raw_entries(raws);
    &&& entries_valid(entries)
    &&& forall|i: int|
        0 <= i < entries.len() ==> total_amount(entry_costs(entries), #[trigger] entry_costs(
            entries,
        )[i]) <= i32::MAX
}

/// Why an entry is not a cost, in the order its fields are checked: the
/// kind, the id, the id's sign, the amount, the amount's range, a fourth field.
#[derive(Clone, Copy, Debug, PartialEq, Eq)]
pub enum CostFault {
    Kind,
    Id,
    IdSign,
    Amount,
    AmountRange,
    ExtraField,
}

/// The kind that a kind field names.
pub open spec fn kind_field(field: Seq<char>) -> Option<MaterialKind> {
    match parse_i32_spec(field) {
        Some(k) => kind_of_code(k),
        None => None,
    }
}

/// The first check that an entry which is not a cost fails.
pub open spec fn cost_fault(entry: Seq<char>) -> CostFault {
    let f = split(entry, '#');
    if kind_field(f[0]) is None {
        CostFault::Kind
    } else if f.len() < 2 || parse_i32_spec(f[1]) is None {
        CostFault::Id
    } else if parse_i32_spec(f[1])->0 <= 0 {
        CostFault::IdSign
    } else if f.len() < 3 || parse_i64_spec(f[2]) is None {
        CostFault::Amount
    } else if !(1 <= parse_i64_spec(f[2])->0 <= i32::MAX) {
        CostFault::AmountRange
    } else {
        CostFault::ExtraField
    }
}

/// The message of an entry that is not a cost.
pub open spec fn cost_fault_text(entry: Seq<char>) -> Seq<char> {
    match cost_fault(entry) {
        CostFault::Kind => "unknown material type in "@ + debug_quoted(entry),
        CostFault::Id => "invalid material id in "@ + debug_quoted(entry),
        CostFault::IdSign => "material id must be positive in "@ + debug_quoted(entry),
        CostFault::Amount => "invalid material amount in "@ + debug_quoted(entry),
        CostFault::AmountRange => "material amount is out of range in "@ + debug_quoted(entry),
        CostFault::ExtraField => "malformed material cost "@ + debug_quoted(entry),
    }
}

/// The first fault met while reading the entries in order: an entry that is
/// not a cost, or a running total that leaves `i64`.
pub open spec fn entries_fault(entries: Seq<Seq<char>>) -> Option<Seq<char>>
    decreases entries.len(),
{
    if entries.len() == 0 {
        None
    } else {
        match entries_fault(entries.drop_last()) {
            Some(t) => Some(t),
            None => match entry_cost(entries.last()) {
                None => Some(cost_fault_text(entries.last())),
                Some(c) => if total_amount(entry_costs(entries.drop_last()), c) + c.amount
                    > i64::MAX {
                    Some("material total overflow"@)
                } else {
                    None
                },
            },
        }
    }
}

/// `c` names the material that comes first, in kind-then-id order, among
/// those of `costs` whose total exceeds `i32::MAX`.
pub open spec fn first_excess(costs: Seq<MaterialCost>, c: MaterialCost) -> bool {
    &&& costs.contains(c)
    &&& total_amount(costs, c) > i32::MAX
    &&& forall|i: int|
        0 <= i < costs.len() && total_amount(costs, #[trigger] costs[i]) > i32::MAX ==> !key_lt(
            costs[i],
            c,
        )
}

/// How `Debug` writes a material kind.
pub open spec fn kind_name(k: MaterialKind) -> Seq<char> {
    match k {
        MaterialKind::Item => "Item"@,
        MaterialKind::Currency => "Currency"@,
    }
}

/// The message of a material whose total exceeds `i32::MAX`.
pub open spec fn excess_text(c: MaterialCost) -> Seq<char> {
    "material total for "@ + kind_name(c.kind) + " "@ + int_text(c.id as int) + " exceeds i32"@
}

/// Why the cost strings do not parse: the first fault met reading the
/// entries, otherwise the first material, in kind-then-id order, whose total
/// exceeds `i32::MAX`.
pub open spec fn costs_fault_text(raws: Seq<Seq<char>>) -> Seq<char> {
    let entries = raw_entries(raws);
    match entries_fault(entries) {
        Some(t) => t,
        None => excess_text(choose|c: MaterialCost| first_excess(entry_costs(entries), c)),
    }
}

/// `listed` names each material of `costs` once, in kind-then-id order, with
/// its total amount.
pub open spec fn aggregated_costs(costs: Seq<MaterialCost>, listed: Seq<MaterialCost>) -> bool {
    &&& forall|i: int, j: int|
        0 <= i < j < listed.len() ==> key_lt(#[trigger] listed[i], #[trigger] listed[j])
    &&& forall|i: int|
        0 <= i < listed.len() ==> (#[trigger] listed[i]).amount == total_amount(costs, listed[i])
    &&& forall|i: int| 0 <= i < listed.len() ==> total_amount(costs, #[trigger] listed[i]) > 0
    &&& forall|i: int|
        0 <= i < costs.len() ==> exists|j: int|
            0 <= j < listed.len() && same_key(#[trigger] costs[i], #[trigger] listed[j])
}

/// The views of the cost strings.
pub open spec fn raw_views(raws: Seq<&str>) -> Seq<Seq<char>> {
    Seq::new(raws.len(), |i: int| raws[i]@)
}

proof fn lemma_total_push(costs: Seq<MaterialCost>, c: MaterialCost, key: MaterialCost)
    ensures
        total_amount(costs.push(c), key) == total_amount(costs, key) + if same_key(c, key) {
            c.amount as int
        } else {
            0
        },
{
    assert(costs.push(c).drop_last() =~= costs);
}

proof fn lemma_total_nonneg(costs: Seq<MaterialCost>, key: MaterialCost)
    requires
        forall|i: int| 0 <= i < costs.len() ==> (#[trigger] costs[i]).amount >= 0,
    ensures
        total_amount(costs, key) >= 0,
    decreases costs.len(),
{
    if costs.len() > 0 {
        lemma_total_nonneg(costs.drop_last(), key);
    }
}

/// A non-zero total comes from some cost that names the material.
proof fn lemma_total_witness(costs: Seq<MaterialCost>, key: MaterialCost)
    requires
        total_amount(costs, key) != 0,
    ensures
        exists|i: int| 0 <= i < costs.len() && same_key(#[trigger] costs[i], key),
    decreases costs.len(),
{
    if costs.len() > 0 {
        if same_key(costs.last(), key) {
            assert(same_key(costs[costs.len() - 1], key));
        } else {
            lemma_total_witness(costs.drop_last(), key);
            let i = choose|i: int| 0 <= i < costs.drop_last().len() && same_key(
                #[trigger] costs.drop_last()[i],
                key,
            );
            assert(costs[i] == costs.drop_last()[i]);
        }
    }
}

/// The total over a prefix is at most the total over the whole.
proof fn lemma_total_prefix(costs: Seq<MaterialCost>, n: int, key: MaterialCost)
    requires
        0 <= n <= costs.len(),
        forall|i: int| 0 <= i < costs.len() ==> (#[trigger] costs[i]).amount >= 0,
    ensures
        total_amount(costs.take(n), key) <= total_amount(costs, key),
    decreases costs.len() - n,
{
    if n < costs.len() {
        assert(costs.take(n + 1).drop_last() =~= costs.take(n));
        assert(costs.take(n + 1).last() == costs[n]);
        lemma_total_prefix(costs, n + 1, key);
    } else {
        assert(costs.take(n) =~= costs);
    }
}

proof fn lemma_raw_entries_step(raws: Seq<Seq<char>>, n: int)
    requires
        0 <= n < raws.len(),
    ensures
        raw_entries(raws.take(n + 1)) == raw_entries(raws.take(n)) + if raws[n].len() == 0 {
            Seq::<Seq<char>>::empty()
        } else {
            split(raws[n], '|')
        },
{
    assert(raws.take(n + 1).drop_last() =~= raws.take(n));
    assert(raws.take(n + 1).last() == raws[n]);
}

/// The entries of a prefix of the strings are a prefix of all the entries.
proof fn lemma_raw_entries_prefix(raws: Seq<Seq<char>>, n: int)
    requires
        0 <= n <= raws.len(),
    ensures
        raw_entries(raws.take(n)).len() <= raw_entries(raws).len(),
        forall|i: int|
            0 <= i < raw_entries(raws.take(n)).len() ==> #[trigger] raw_entries(raws.take(n))[i]
                == raw_entries(raws)[i],
    decreases raws.len() - n,
{
    if n < raws.len() {
        lemma_raw_entries_step(raws, n);
        lemma_raw_entries_prefix(raws, n + 1);
        assert forall|i: int| 0 <= i < raw_entries(raws.take(n)).len() implies #[trigger] raw_entries(
            raws.take(n),
        )[i] == raw_entries(raws)[i] by {
            assert(raw_entries(raws.take(n + 1))[i] == raw_entries(raws.take(n))[i]);
        }
    } else {
        assert(raws.take(n) =~= raws);
    }
}

/// Reads one `kind#id#amount` entry.
fn parse_entry(entry: &[char]) -> (r: Option<MaterialCost>)
    ensures
        r == entry_cost(entry@),
{
    let fields = split_chars(entry, '#');
    assert(pieces_view(fields@)[0] == fields@[0]@);
    if fields.len() != 3 {
        return None;
    }
    assert(fields@[1]@ == pieces_view(fields@)[1]);
    assert(fields@[2]@ == pieces_view(fields@)[2]);
    let k = parse_i32(fields[0].as_slice());
    let id = parse_i32(fields[1].as_slice());
    let amount = parse_i64(fields[2].as_slice());
    match (k, id, amount) {
        (Some(k), Some(id), Some(amount)) => {
            let kind = if k == 1 {
                MaterialKind::Item
            } else if k == 2 {
                MaterialKind::Currency
            } else {
                return None;
            };
            if id > 0 && 1 <= amount && amount <= i32::MAX as i64 {
                Some(MaterialCost { kind, id, amount: amount as i32 })
            } else {
                None
            }
        },
        _ => None,
    }
}

/// A running total of one material.
#[derive(Clone, Copy)]
struct MaterialTotal {
    kind: MaterialKind,
    id: i32,
    total: i64,
}

spec fn total_key(t: MaterialTotal) -> MaterialCost {
    MaterialCost { kind: t.kind, id: t.id, amount: 0 }
}

/// The running totals list each material of `costs` once, in order, with its
/// total so far.
spec fn totals_inv(costs: Seq<MaterialCost>, totals: Seq<MaterialTotal>) -> bool {
    &&& forall|i: int, j: int|
        0 <= i < j < totals.len() ==> key_lt(
            total_key(#[trigger] totals[i]),
            total_key(#[trigger] totals[j]),
        )
    &&& forall|i: int|
        0 <= i < totals.len() ==> (#[trigger] totals[i]).total == total_amount(
            costs,
            total_key(totals[i]),
        )
    &&& forall|i: int|
        0 <= i < totals.len() ==> total_amount(costs, total_key(#[trigger] totals[i])) > 0
    &&& forall|i: int|
        0 <= i < costs.len() ==> exists|j: int|
            0 <= j < totals.len() && same_key(#[trigger] costs[i], total_key(#[trigger] totals[j]))
}

fn cost_key_lt(a: &MaterialTotal, b: &MaterialCost) -> (r: bool)
    ensures
        r == key_lt(total_key(*a), *b),
{
    let ka = a.kind.code();
    let kb = b.kind.code();
    ka < kb || (ka == kb && a.id < b.id)
}

/// Adds one cost to the running totals; `None` when the total leaves `i64`.
fn add_to_totals(totals: &mut Vec<MaterialTotal>, c: MaterialCost, Ghost(costs): Ghost<
    Seq<MaterialCost>,
>) -> (ok: bool)
    requires
        totals_inv(costs, old(totals)@),
        c.amount >= 1,
        forall|i: int| 0 <= i < costs.len() ==> (#[trigger] costs[i]).amount >= 1,
    ensures
        ok ==> totals_inv(costs.push(c), final(totals)@),
        !ok ==> total_amount(costs.push(c), c) > i64::MAX,
{
    let ghost next = costs.push(c);
    let ghost old_totals = totals@;
    let mut p: usize = 0;
    while p < totals.len() && cost_key_lt(&totals[p], &c)
        invariant
            p <= totals@.len(),
            totals@ == old_totals,
            forall|i: int| 0 <= i < p ==> key_lt(total_key(#[trigger] totals@[i]), c),
        decreases totals@.len() - p,
    {
        p = p + 1;
    }
    proof {
        assert forall|key: MaterialCost| #[trigger] total_amount(next, key) == total_amount(costs, key)
            + if same_key(c, key) { c.amount as int } else { 0 } by {
            lemma_total_push(costs, c, key);
        }
        assert(next.last() == c);
        assert forall|i: int| 0 <= i < costs.len() implies #[trigger] next[i] == costs[i] by {}
    }
    if p < totals.len() && totals[p].kind == c.kind && totals[p].id == c.id {
        let t = totals[p];
        let sum = match t.total.checked_add(c.amount as i64) {
            Some(s) => s,
            None => {
                proof {
                    assert(t == old_totals[p as int]);
                    lemma_total_same_key(costs, total_key(t), c);
                    assert(total_amount(next, c) == total_amount(costs, c) + c.amount);
                }
                return false;
            },
        };
        totals.set(p, MaterialTotal { kind: t.kind, id: t.id, total: sum });
        proof {
            let tv = totals@;
            assert forall|i: int, j: int| 0 <= i < j < tv.len() implies key_lt(
                total_key(#[trigger] tv[i]),
                total_key(#[trigger] tv[j]),
            ) by {
                assert(total_key(tv[i]) == total_key(old_totals[i]));
                assert(total_key(tv[j]) == total_key(old_totals[j]));
            }
            assert forall|i: int| 0 <= i < tv.len() implies (#[trigger] tv[i]).total == total_amount(
                next,
                total_key(tv[i]),
            ) by {
                assert(total_amount(next, total_key(tv[i])) == total_amount(costs, total_key(tv[i]))
                    + if same_key(c, total_key(tv[i])) { c.amount as int } else { 0 });
                if i != p {
                    assert(!same_key(c, total_key(tv[i]))) by {
                        if i < p {
                            assert(key_lt(total_key(old_totals[i]), total_key(old_totals[p as int])));
                        } else {
                            assert(key_lt(total_key(old_totals[p as int]), total_key(old_totals[i])));
                        }
                    }
                }
            }
            assert forall|i: int| 0 <= i < tv.len() implies total_amount(
                next,
                total_key(#[trigger] tv[i]),
            ) > 0 by {
                assert(total_amount(next, total_key(tv[i])) == total_amount(costs, total_key(tv[i]))
                    + if same_key(c, total_key(tv[i])) { c.amount as int } else { 0 });
                assert(total_key(tv[i]) == total_key(old_totals[i]));
                assert(total_amount(costs, total_key(old_totals[i])) > 0);
            }
            assert forall|i: int| 0 <= i < next.len() implies exists|j: int|
                0 <= j < tv.len() && same_key(#[trigger] next[i], total_key(#[trigger] tv[j])) by {
                if i < costs.len() {
                    let j = choose|j: int|
                        0 <= j < old_totals.len() && same_key(
                            #[trigger] costs[i],
                            total_key(#[trigger] old_totals[j]),
                        );
                    assert(total_key(tv[j]) == total_key(old_totals[j]));
                    assert(same_key(next[i], total_key(tv[j])));
                } else {
                    assert(same_key(next[i], total_key(tv[p as int])));
                }
            }
        }
        true
    } else {
        let ghost absent = forall|j: int|
            0 <= j < old_totals.len() ==> !same_key(c, total_key(#[trigger] old_totals[j]));
        proof {
            assert forall|j: int| 0 <= j < old_totals.len() implies !same_key(
                c,
                total_key(#[trigger] old_totals[j]),
            ) by {
                if j < p {
                    assert(key_lt(total_key(old_totals[j]), c));
                } else if j > p {
                    assert(key_lt(total_key(old_totals[p as int]), total_key(old_totals[j])));
                    assert(!key_lt(total_key(old_totals[p as int]), c));
                }
            }
            if total_amount(costs, c) != 0 {
                lemma_total_witness(costs, c);
                let i = choose|i: int| 0 <= i < costs.len() && same_key(#[trigger] costs[i], c);
                let j = choose|j: int|
                    0 <= j < old_totals.len() && same_key(
                        #[trigger] costs[i],
                        total_key(#[trigger] old_totals[j]),
                    );
                assert(same_key(c, total_key(old_totals[j])));
            }
            assert(total_amount(costs, c) == 0);
        }
        totals.insert(p, MaterialTotal { kind: c.kind, id: c.id, total: c.amount as i64 });
        proof {
            let tv = totals@;
            let nt = MaterialTotal { kind: c.kind, id: c.id, total: c.amount as i64 };
            assert(tv == old_totals.insert(p as int, nt));
            assert(total_key(nt) == MaterialCost { kind: c.kind, id: c.id, amount: 0 });
            assert forall|i: int| 0 <= i < tv.len() implies (#[trigger] tv[i]) == if i < p {
                old_totals[i]
            } else if i == p {
                nt
            } else {
                old_totals[i - 1]
            } by {}
            assert forall|i: int, j: int| 0 <= i < j < tv.len() implies key_lt(
                total_key(#[trigger] tv[i]),
                total_key(#[trigger] tv[j]),
            ) by {
                if j < p {
                    assert(key_lt(total_key(old_totals[i]), total_key(old_totals[j])));
                } else if j == p {
                    assert(key_lt(total_key(old_totals[i]), c));
                } else if i < p {
                    assert(key_lt(total_key(old_totals[i]), c));
                    assert(!key_lt(total_key(old_totals[p as int]), c));
                    if j - 1 > p {
                        assert(key_lt(total_key(old_totals[p as int]), total_key(old_totals[j - 1])));
                    }
                } else if i == p {
                    assert(!key_lt(total_key(old_totals[p as int]), c));
                    assert(!same_key(c, total_key(old_totals[p as int])));
                    if j - 1 > p {
                        assert(key_lt(total_key(old_totals[p as int]), total_key(old_totals[j - 1])));
                    }
                } else {
                    assert(key_lt(total_key(old_totals[i - 1]), total_key(old_totals[j - 1])));
                }
            }
            assert forall|i: int| 0 <= i < tv.len() implies (#[trigger] tv[i]).total == total_amount(
                next,
                total_key(tv[i]),
            ) && total_amount(next, total_key(tv[i])) > 0 by {
                assert(total_amount(next, total_key(tv[i])) == total_amount(costs, total_key(tv[i]))
                    + if same_key(c, total_key(tv[i])) { c.amount as int } else { 0 });
                if i < p {
                    assert(!same_key(c, total_key(old_totals[i])));
                    assert(total_amount(costs, total_key(old_totals[i])) > 0);
                } else if i > p {
                    assert(!same_key(c, total_key(old_totals[i - 1])));
                    assert(total_amount(costs, total_key(old_totals[i - 1])) > 0);
                } else {
                    assert(total_amount(costs, total_key(nt)) == total_amount(costs, c)) by {
                        lemma_total_same_key(costs, total_key(nt), c);
                    }
                }
            }
            assert forall|i: int| 0 <= i < next.len() implies exists|j: int|
                0 <= j < tv.len() && same_key(#[trigger] next[i], total_key(#[trigger] tv[j])) by {
                if i < costs.len() {
                    let j = choose|j: int|
                        0 <= j < old_totals.len() && same_key(
                            #[trigger] costs[i],
                            total_key(#[trigger] old_totals[j]),
                        );
                    if j < p {
                        assert(same_key(next[i], total_key(tv[j])));
                    } else {
                        assert(same_key(next[i], total_key(tv[j + 1])));
                    }
                } else {
                    assert(same_key(next[i], total_key(tv[p as int])));
                }
            }
        }
        true
    }
}

/// Materials with the same key have the same total.
proof fn lemma_total_same_key(costs: Seq<MaterialCost>, a: MaterialCost, b: MaterialCost)
    requires
        same_key(a, b),
    ensures
        total_amount(costs, a) == total_amount(costs, b),
    decreases costs.len(),
{
    if costs.len() > 0 {
        lemma_total_same_key(costs.drop_last(), a, b);
    }
}

/// The message of an entry that is not a cost.
fn cost_fault_message(entry: &[char]) -> (m: String)
    ensures
        m@ == cost_fault_text(entry@),
{
    let fields = split_chars(entry, '#');
    proof {
        crate::text::lemma_split_nonempty(entry@, '#');
    }
    assert(fields@[0]@ == pieces_view(fields@)[0]);
    let kind_ok = match parse_i32(fields[0].as_slice()) {
        Some(k) => k == 1 || k == 2,
        None => false,
    };
    let prefix: &str = if !kind_ok {
        "unknown material type in "
    } else if fields.len() < 2 {
        "invalid material id in "
    } else {
        assert(fields@[1]@ == pieces_view(fields@)[1]);
        match parse_i32(fields[1].as_slice()) {
            None => "invalid material id in ",
            Some(id) => if id <= 0 {
                "material id must be positive in "
            } else if fields.len() < 3 {
                "invalid material amount in "
            } else {
                assert(fields@[2]@ == pieces_view(fields@)[2]);
                match parse_i64(fields[2].as_slice()) {
                    None => "invalid material amount in ",
                    Some(a) => if !(1 <= a && a <= i32::MAX as i64) {
                        "material amount is out of range in "
                    } else {
                        "malformed material cost "
                    },
                }
            },
        }
    };
    let text = chars_to_string(entry);
    message_with_quoted(prefix, text.as_str())
}

/// How `Debug` writes a material kind.
fn kind_debug(k: MaterialKind) -> (s: &'static str)
    ensures
        s@ == kind_name(k),
{
    match k {
        MaterialKind::Item => "Item",
        MaterialKind::Currency => "Currency",
    }
}

/// Once a prefix of the entries meets a fault, reading all of them meets it.
proof fn lemma_entries_fault_prefix(entries: Seq<Seq<char>>, n: int)
    requires
        0 <= n <= entries.len(),
        entries_fault(entries.take(n)) is Some,
    ensures
        entries_fault(entries) == entries_fault(entries.take(n)),
    decreases entries.len() - n,
{
    if n < entries.len() {
        assert(entries.take(n + 1).drop_last() =~= entries.take(n));
        lemma_entries_fault_prefix(entries, n + 1);
    } else {
        assert(entries.take(n) =~= entries);
    }
}

/// Entries read without a fault all state costs.
proof fn lemma_no_fault_valid(entries: Seq<Seq<char>>)
    requires
        entries_fault(entries) is None,
    ensures
        entries_valid(entries),
    decreases entries.len(),
{
    if entries.len() > 0 {
        lemma_no_fault_valid(entries.drop_last());
        assert forall|i: int| 0 <= i < entries.len() implies (#[trigger] entry_cost(entries[i])) is Some by {
            if i < entries.len() - 1 {
                assert(entries[i] == entries.drop_last()[i]);
            }
        }
    }
}

/// Sums the `kind#id#amount` entries of the `|`-separated cost strings per
/// material and lists the totals in kind-then-id order. Empty strings add
/// nothing. A malformed entry, or a total beyond `i32::MAX`, is `Invalid`.
pub fn parse_material_costs(raw_values: &[&str]) -> (r: Result<Vec<MaterialCost>, ProgressionError>)
    ensures
        r is Ok <==> costs_parse(raw_views(raw_values@)),
        match r {
            Ok(costs) => aggregated_costs(
                entry_costs(raw_entries(raw_views(raw_values@))),
                costs@,
            ),
            Err(e) => e matches ProgressionError::Invalid(m) && m@ == costs_fault_text(
                raw_views(raw_values@),
            ),
        },
{
    let ghost raws = raw_views(raw_values@);
    let ghost all = raw_entries(raws);
    let mut totals: Vec<MaterialTotal> = Vec::new();
    let ghost mut es: Seq<Seq<char>> = Seq::empty();
    assert(raws.take(0) =~= Seq::<Seq<char>>::empty());
    let mut r: usize = 0;
    while r < raw_values.len()
        invariant
            r <= raw_values@.len(),
            raws == raw_views(raw_values@),
            all == raw_entries(raws),
            es == raw_entries(raws.take(r as int)),
            entries_valid(es),
            entries_fault(es) is None,
            totals_inv(entry_costs(es), totals@),
        decreases raw_values@.len() - r,
    {
        let raw: &str = raw_values[r];
        assert(raws[r as int] == raw@);
        proof {
            lemma_raw_entries_step(raws, r as int);
        }
        if raw.is_empty() {
            r = r + 1;
            assert(es =~= raw_entries(raws.take(r as int)));
            continue;
        }
        let chars = str_chars(raw);
        let pieces = split_chars(chars.as_slice(), '|');
        let ghost pv = split(raw@, '|');
        let ghost base = es;
        assert(pieces_view(pieces@) == pv);
        let mut k: usize = 0;
        while k < pieces.len()
            invariant
                r < raw_values@.len(),
                raws == raw_views(raw_values@),
                all == raw_entries(raws),
                raws[r as int] == raw@,
                raw@.len() > 0,
                pv == split(raw@, '|'),
                base == raw_entries(raws.take(r as int)),
                raw_entries(raws.take(r as int + 1)) == base + pv,
                k <= pieces@.len(),
                pieces_view(pieces@) == pv,
                es == base + pv.take(k as int),
                entries_valid(es),
                entries_fault(es) is None,
                totals_inv(entry_costs(es), totals@),
            decreases pieces@.len() - k,
        {
            assert(pieces@[k as int]@ == pieces_view(pieces@)[k as int]);
            let ghost e = pv[k as int];
            let ghost at: int = es.len() as int;
            proof {
                lemma_raw_entries_prefix(raws, r as int + 1);
                assert(raw_entries(raws.take(r as int + 1))[at] == e);
                assert(all[at] == e);
                assert(es.push(e) =~= all.take(at + 1)) by {
                    assert forall|i: int| 0 <= i < at + 1 implies #[trigger] es.push(e)[i] == all[i] by {
                        if i < at {
                            assert(raw_entries(raws.take(r as int + 1))[i] == es[i]);
                        }
                    }
                }
                assert(es.push(e).drop_last() =~= es);
            }
            match parse_entry(pieces[k].as_slice()) {
                None => {
                    assert(!entries_valid(all)) by {
                        assert(entry_cost(all[at]) is None);
                    }
                    proof {
                        lemma_entries_fault_prefix(all, at + 1);
                    }
                    return Err(ProgressionError::Invalid(cost_fault_message(pieces[k].as_slice())));
                },
                Some(c) => {
                    proof {
                        assert forall|i: int| 0 <= i < entry_costs(es).len() implies (
                        #[trigger] entry_costs(es)[i]).amount >= 1 by {
                            assert(entry_cost(es[i]) is Some);
                        }
                    }
                    let ok = add_to_totals(&mut totals, c, Ghost(entry_costs(es)));
                    let ghost next = es.push(e);
                    assert(entry_costs(next) =~= entry_costs(es).push(c));
                    proof {
                        lemma_total_push(entry_costs(es), c, c);
                    }
                    if !ok {
                        proof {
                            lemma_entries_fault_prefix(all, at + 1);
                            if entries_valid(all) {
                                let ac = entry_costs(all);
                                assert forall|i: int| 0 <= i < ac.len() implies (
                                #[trigger] ac[i]).amount >= 0 by {
                                    assert(entry_cost(all[i]) is Some);
                                }
                                assert(ac.take(next.len() as int) =~= entry_costs(next)) by {
                                    assert forall|i: int| 0 <= i < next.len() implies #[trigger] next[i]
                                        == all[i] by {
                                        if i < at {
                                            assert(raw_entries(raws.take(r as int + 1))[i] == es[i]);
                                        }
                                    }
                                }
                                lemma_total_prefix(ac, next.len() as int, c);
                                assert(ac[at] == c);
                            }
                        }
                        return Err(ProgressionError::Invalid(
                            String::from_str("material total overflow"),
                        ));
                    }
                    proof {
                        let nc = entry_costs(next);
                        let tv = totals@;
                        let j = choose|j: int|
                            0 <= j < tv.len() && same_key(#[trigger] nc[at], total_key(#[trigger] tv[j]));
                        lemma_total_same_key(nc, c, total_key(tv[j]));
                        assert(entries_fault(next) is None);
                        es = next;
                    }
                    assert(es =~= base + pv.take(k as int + 1));
                },
            }
            k = k + 1;
        }
        assert(pv.take(pieces@.len() as int) =~= pv);
        r = r + 1;
    }
    assert(raws.take(raw_values@.len() as int) =~= raws);
    let ghost costs = entry_costs(all);
    let mut out: Vec<MaterialCost> = Vec::new();
    let mut i: usize = 0;
    while i < totals.len()
        invariant
            i <= totals@.len(),
            costs == entry_costs(all),
            all == raw_entries(raws),
            raws == raw_views(raw_values@),
            entries_valid(all),
            entries_fault(all) is None,
            totals_inv(costs, totals@),
            out@.len() == i,
            forall|j: int|
                0 <= j < i ==> #[trigger] out@[j] == (MaterialCost {
                    kind: totals@[j].kind,
                    id: totals@[j].id,
                    amount: totals@[j].total as i32,
                }),
            forall|j: int| 0 <= j < i ==> totals@[j].total <= i32::MAX,
        decreases totals@.len() - i,
    {
        let t = totals[i];
        if t.total > i32::MAX as i64 {
            proof {
                let tv = totals@;
                lemma_total_witness(costs, total_key(t));
                let w = choose|w: int| 0 <= w < costs.len() && same_key(#[trigger] costs[w], total_key(t));
                lemma_total_same_key(costs, costs[w], total_key(t));
                assert forall|x: int|
                    0 <= x < costs.len() && total_amount(costs, #[trigger] costs[x]) > i32::MAX implies !key_lt(
                    costs[x],
                    costs[w],
                ) by {
                    let m = choose|m: int|
                        0 <= m < tv.len() && same_key(#[trigger] costs[x], total_key(#[trigger] tv[m]));
                    lemma_total_same_key(costs, costs[x], total_key(tv[m]));
                    if m < i {
                        assert(tv[m].total <= i32::MAX);
                    } else if m > i {
                        assert(key_lt(total_key(tv[i as int]), total_key(tv[m])));
                    }
                }
                assert(costs.contains(costs[w]));
                assert(first_excess(costs, costs[w]));
                let ch = choose|ch: MaterialCost| first_excess(costs, ch);
                assert(first_excess(costs, ch));
                let y = choose|y: int| 0 <= y < costs.len() && costs[y] == ch;
                assert(total_amount(costs, costs[y]) > i32::MAX);
                assert(!key_lt(ch, costs[w]));
                assert(!key_lt(costs[w], ch));
                assert(same_key(ch, total_key(t)));
                assert(excess_text(ch) == excess_text(total_key(t)));
            }
            let mut m = String::from_str("material total for ");
            push_str(&mut m, kind_debug(t.kind));
            push_str(&mut m, " ");
            push_int(&mut m, t.id as i64);
            push_str(&mut m, " exceeds i32");
            return Err(ProgressionError::Invalid(m));
        }
        out.push(MaterialCost { kind: t.kind, id: t.id, amount: t.total as i32 });
        i = i + 1;
    }
    proof {
        let tv = totals@;
        assert forall|j: int| 0 <= j < out@.len() implies same_key(#[trigger] out@[j], total_key(tv[j]))
            by {}
        assert forall|j: int, m: int| 0 <= j < m < out@.len() implies key_lt(
            #[trigger] out@[j],
            #[trigger] out@[m],
        ) by {
            assert(key_lt(total_key(tv[j]), total_key(tv[m])));
        }
        assert forall|j: int| 0 <= j < out@.len() implies (#[trigger] out@[j]).amount
            == total_amount(costs, out@[j]) && total_amount(costs, out@[j]) > 0 by {
            lemma_total_same_key(costs, out@[j], total_key(tv[j]));
        }
        assert forall|j: int| 0 <= j < costs.len() implies exists|m: int|
            0 <= m < out@.len() && same_key(#[trigger] costs[j], #[trigger] out@[m]) by {
            let m = choose|m: int|
                0 <= m < tv.len() && same_key(#[trigger] costs[j], total_key(#[trigger] tv[m]));
            assert(same_key(costs[j], out@[m]));
        }
        assert forall|j: int| 0 <= j < all.len() implies total_amount(
            costs,
            #[trigger] costs[j],
        ) <= i32::MAX by {
            let m = choose|m: int|
                0 <= m < tv.len() && same_key(#[trigger] costs[j], total_key(#[trigger] tv[m]));
            lemma_total_same_key(costs, costs[j], total_key(tv[m]));
        }
    }
    Ok(out)
}

// ---------------------------------------------------------------------------
// Planning a command
// ---------------------------------------------------------------------------

/// The stored Destiny record of an owned hero.
pub struct OwnedDestinyHero {
    pub hero_uid: i64,
    pub user_id: i64,
    pub hero_id: i32,
    pub state: DestinyState,
    pub unlocked_stones: Vec<i32>,
}

/// What a command will change, the state it expects to find, and what it costs.
pub struct MutationPlan {
    pub expected: DestinyState,
    pub kind: MutationKind,
    pub costs: Vec<MaterialCost>,
}

/// What planning a command comes to: refused, with the reason it reports, or
/// a change together with the cost strings that price it.
pub enum PlanOutcome {
    Refused { reason: Seq<char> },
    Planned { kind: MutationKind, consumes: Seq<Seq<char>> },
}

/// The hero a command names.
pub open spec fn command_hero_id(command: DestinyCommand) -> i32 {
    match command {
        DestinyCommand::RankUp { hero_id } => hero_id,
        DestinyCommand::LevelUp { hero_id, .. } => hero_id,
        DestinyCommand::UnlockStone { hero_id, .. } => hero_id,
        DestinyCommand::UseStone { hero_id, .. } => hero_id,
    }
}

/// A reached node: positive rank and level, configured for the slot group.
pub open spec fn progress_state_valid(
    catalog: &DestinyConfigIndex,
    slots_id: i32,
    state: DestinyState,
) -> bool {
    state.rank > 0 && state.level > 0 && catalog.spec_slot(slots_id, state.rank, state.level) is Some
}

/// Why a stored state is not a reached, configured node.
pub open spec fn state_fault_text(slots_id: i32, state: DestinyState) -> Seq<char> {
    if state.rank <= 0 || state.level <= 0 {
        "invalid Destiny state ("@ + int_text(state.rank as int) + ", "@ + int_text(
            state.level as int,
        ) + ")"@
    } else {
        "Destiny state ("@ + int_text(state.rank as int) + ", "@ + int_text(state.level as int)
            + ") is not configured for slot group "@ + int_text(slots_id as int)
    }
}

/// The message for a node that the configuration lacks.
pub open spec fn missing_node_text(slots_id: i32, stage: i32, node: i32) -> Seq<char> {
    "missing Destiny slot ("@ + int_text(slots_id as int) + ", "@ + int_text(stage as int) + ", "@
        + int_text(node as int) + ")"@
}

/// The first node from `from` through `target` of a stage that the
/// configuration lacks.
pub open spec fn first_missing_node(
    catalog: &DestinyConfigIndex,
    slots_id: i32,
    stage: i32,
    from: int,
    target: int,
) -> int
    decreases target - from + 1,
{
    if from > target || catalog.spec_slot(slots_id, stage, from as i32) is None {
        from
    } else {
        first_missing_node(catalog, slots_id, stage, from + 1, target)
    }
}

/// The message for a stone that the hero's facets do not include.
pub open spec fn not_owned_text(stone_id: i32, hero_id: i32) -> Seq<char> {
    "stone "@ + int_text(stone_id as int) + " is not owned by hero "@ + int_text(hero_id as int)
}

/// Entering the next stage: from the zero state to stage 1, otherwise from the
/// last node of a complete stage to node 1 of the next, paying that node.
pub open spec fn rank_up_outcome(
    catalog: &DestinyConfigIndex,
    slots_id: i32,
    state: DestinyState,
) -> PlanOutcome {
    let target: Result<i32, Seq<char>> = if state.rank == 0 && state.level == 0 {
        Ok(1i32)
    } else if !progress_state_valid(catalog, slots_id, state) {
        Err(state_fault_text(slots_id, state))
    } else if state.level == i32::MAX {
        Err("Destiny level overflow"@)
    } else if catalog.spec_slot(slots_id, state.rank, (state.level + 1) as i32) is Some {
        Err("current Destiny stage is not complete"@)
    } else if state.rank == i32::MAX {
        Err("Destiny rank overflow"@)
    } else {
        Ok((state.rank + 1) as i32)
    };
    match target {
        Err(reason) => PlanOutcome::Refused { reason },
        Ok(t) => match catalog.spec_slot(slots_id, t, 1) {
            None => PlanOutcome::Refused { reason: missing_node_text(slots_id, t, 1) },
            Some(slot) => PlanOutcome::Planned {
                kind: MutationKind::Progress { target_rank: t, target_level: 1 },
                consumes: seq![slot.consume],
            },
        },
    }
}

/// Every node after the current one up to `target` is configured in the
/// current stage.
pub open spec fn level_nodes_configured(
    catalog: &DestinyConfigIndex,
    slots_id: i32,
    state: DestinyState,
    target: i32,
) -> bool {
    forall|node: i32|
        state.level < node <= target ==> (#[trigger] catalog.spec_slot(slots_id, state.rank, node))
            is Some
}

/// The cost strings of the nodes after the current one up to `target`.
pub open spec fn level_consumes(
    catalog: &DestinyConfigIndex,
    slots_id: i32,
    state: DestinyState,
    target: i32,
) -> Seq<Seq<char>> {
    Seq::new(
        (target - state.level) as nat,
        |i: int| catalog.spec_slot(slots_id, state.rank, (state.level + 1 + i) as i32).unwrap().consume,
    )
}

/// Advancing within the current stage to `target`, paying every node passed;
/// the current level is a no-op and a lower one is refused.
pub open spec fn level_up_outcome(
    catalog: &DestinyConfigIndex,
    slots_id: i32,
    state: DestinyState,
    target: i32,
) -> PlanOutcome {
    if !progress_state_valid(catalog, slots_id, state) {
        PlanOutcome::Refused { reason: state_fault_text(slots_id, state) }
    } else if target < state.level {
        PlanOutcome::Refused {
            reason: "target level "@ + int_text(target as int) + " is below current level "@
                + int_text(state.level as int),
        }
    } else if target == state.level {
        PlanOutcome::Planned { kind: MutationKind::NoChange, consumes: Seq::empty() }
    } else if !level_nodes_configured(catalog, slots_id, state, target) {
        PlanOutcome::Refused {
            reason: missing_node_text(
                slots_id,
                state.rank,
                first_missing_node(catalog, slots_id, state.rank, state.level + 1, target as int) as i32,
            ),
        }
    } else {
        PlanOutcome::Planned {
            kind: MutationKind::Progress { target_rank: state.rank, target_level: target },
            consumes: level_consumes(catalog, slots_id, state, target),
        }
    }
}

/// Unlocking an owned stone once a rank is reached; an unlocked stone is a no-op.
pub open spec fn unlock_outcome(
    catalog: &DestinyConfigIndex,
    hero_id: i32,
    facet_ids: Seq<i32>,
    state: DestinyState,
    unlocked: Seq<i32>,
    stone_id: i32,
) -> PlanOutcome {
    if state.rank <= 0 {
        PlanOutcome::Refused { reason: "a Destiny rank is required before unlocking a stone"@ }
    } else if !facet_ids.contains(stone_id) {
        PlanOutcome::Refused { reason: not_owned_text(stone_id, hero_id) }
    } else {
        match catalog.spec_facet_consume(stone_id) {
            None => PlanOutcome::Refused {
                reason: "missing consume configuration for stone "@ + int_text(stone_id as int),
            },
            Some(consume) => if unlocked.contains(stone_id) {
                PlanOutcome::Planned { kind: MutationKind::NoChange, consumes: Seq::empty() }
            } else {
                PlanOutcome::Planned {
                    kind: MutationKind::UnlockStone { stone_id },
                    consumes: seq![consume.consume],
                }
            },
        }
    }
}

/// Equipping an owned, unlocked stone, or `0` to unequip; the current stone is
/// a no-op. Equipping is free.
pub open spec fn use_outcome(
    hero_id: i32,
    facet_ids: Seq<i32>,
    state: DestinyState,
    unlocked: Seq<i32>,
    stone_id: i32,
) -> PlanOutcome {
    if stone_id != 0 && !facet_ids.contains(stone_id) {
        PlanOutcome::Refused { reason: not_owned_text(stone_id, hero_id) }
    } else if stone_id != 0 && !unlocked.contains(stone_id) {
        PlanOutcome::Refused { reason: "stone "@ + int_text(stone_id as int) + " is locked"@ }
    } else if state.stone == stone_id {
        PlanOutcome::Planned { kind: MutationKind::NoChange, consumes: Seq::empty() }
    } else {
        PlanOutcome::Planned { kind: MutationKind::UseStone { stone_id }, consumes: Seq::empty() }
    }
}

/// What `command` comes to for the hero `hero_id` in `state` with the stones
/// `unlocked`.
pub open spec fn plan_outcome(
    catalog: &DestinyConfigIndex,
    hero_id: i32,
    state: DestinyState,
    unlocked: Seq<i32>,
    command: DestinyCommand,
) -> PlanOutcome {
    match catalog.spec_hero(hero_id) {
        None => PlanOutcome::Refused {
            reason: "hero "@ + int_text(hero_id as int) + " has no Destiny configuration"@,
        },
        Some(hero) => if command_hero_id(command) != hero_id {
            PlanOutcome::Refused {
                reason: "command hero "@ + int_text(command_hero_id(command) as int)
                    + " does not match owned hero "@ + int_text(hero_id as int),
            }
        } else {
            match command {
                DestinyCommand::RankUp { .. } => rank_up_outcome(catalog, hero.slots_id, state),
                DestinyCommand::LevelUp { target_level, .. } => level_up_outcome(
                    catalog,
                    hero.slots_id,
                    state,
                    target_level,
                ),
                DestinyCommand::UnlockStone { stone_id, .. } => unlock_outcome(
                    catalog,
                    hero_id,
                    hero.facet_ids,
                    state,
                    unlocked,
                    stone_id,
                ),
                DestinyCommand::UseStone { stone_id, .. } => use_outcome(
                    hero_id,
                    hero.facet_ids,
                    state,
                    unlocked,
                    stone_id,
                ),
            }
        },
    }
}

/// `plan` is what `outcome` asks for from `state`: the planned change,
/// expecting `state`, priced by the aggregated cost strings.
pub open spec fn plan_matches(outcome: PlanOutcome, state: DestinyState, plan: &MutationPlan) -> bool {
    match outcome {
        PlanOutcome::Refused { .. } => false,
        PlanOutcome::Planned { kind, consumes } => {
            &&& plan.kind == kind
            &&& plan.expected == state
            &&& costs_parse(consumes)
            &&& aggregated_costs(entry_costs(raw_entries(consumes)), plan.costs@)
        },
    }
}

/// `outcome` cannot be carried out: refused, or priced by malformed costs.
pub open spec fn plan_refused(outcome: PlanOutcome) -> bool {
    match outcome {
        PlanOutcome::Refused { .. } => true,
        PlanOutcome::Planned { consumes, .. } => !costs_parse(consumes),
    }
}

/// The message of a refused outcome: its reason, or why its costs do not parse.
pub open spec fn plan_refusal(outcome: PlanOutcome) -> Seq<char> {
    match outcome {
        PlanOutcome::Refused { reason } => reason,
        PlanOutcome::Planned { consumes, .. } => costs_fault_text(consumes),
    }
}

/// `e` is the refusal that `outcome` reports.
pub open spec fn refused_with(e: &ProgressionError, outcome: PlanOutcome) -> bool {
    plan_refused(outcome) && (*e matches ProgressionError::Invalid(m) && m@ == plan_refusal(outcome))
}

fn text_error(message: &str) -> (e: ProgressionError)
    ensures
        e matches ProgressionError::Invalid(m) && m@ == message@,
{
    ProgressionError::Invalid(String::from_str(message))
}

fn not_owned_error(stone_id: i32, hero_id: i32) -> (e: ProgressionError)
    ensures
        e matches ProgressionError::Invalid(m) && m@ == not_owned_text(stone_id, hero_id),
{
    let mut m = String::from_str("stone ");
    push_int(&mut m, stone_id as i64);
    push_str(&mut m, " is not owned by hero ");
    push_int(&mut m, hero_id as i64);
    ProgressionError::Invalid(m)
}

fn missing_slot_error(slots_id: i32, stage: i32, node: i32) -> (e: ProgressionError)
    ensures
        e matches ProgressionError::Invalid(m) && m@ == missing_node_text(slots_id, stage, node),
{
    let mut m = String::from_str("missing Destiny slot (");
    push_int(&mut m, slots_id as i64);
    push_str(&mut m, ", ");
    push_int(&mut m, stage as i64);
    push_str(&mut m, ", ");
    push_int(&mut m, node as i64);
    push_str(&mut m, ")");
    ProgressionError::Invalid(m)
}

fn no_change(expected: DestinyState) -> (p: MutationPlan)
    ensures
        p.expected == expected,
        p.kind == MutationKind::NoChange,
        p.costs@.len() == 0,
{
    MutationPlan { expected, kind: MutationKind::NoChange, costs: Vec::new() }
}

proof fn lemma_no_costs(costs: Seq<MaterialCost>)
    requires
        costs.len() == 0,
    ensures
        costs_parse(Seq::<Seq<char>>::empty()),
        aggregated_costs(entry_costs(raw_entries(Seq::<Seq<char>>::empty())), costs),
{
    assert(raw_entries(Seq::<Seq<char>>::empty()) =~= Seq::<Seq<char>>::empty());
}

/// Checks that `state` is a reached, configured node.
fn validate_progress_state(
    catalog: &DestinyConfigIndex,
    slots_id: i32,
    state: DestinyState,
) -> (r: Result<(), ProgressionError>)
    ensures
        r is Ok <==> progress_state_valid(catalog, slots_id, state),
        r matches Err(e) ==> (e matches ProgressionError::Invalid(m) && m@ == state_fault_text(
            slots_id,
            state,
        )),
{
    if state.rank <= 0 || state.level <= 0 {
        let mut m = String::from_str("invalid Destiny state (");
        push_int(&mut m, state.rank as i64);
        push_str(&mut m, ", ");
        push_int(&mut m, state.level as i64);
        push_str(&mut m, ")");
        return Err(ProgressionError::Invalid(m));
    }
    if catalog.slot(slots_id, state.rank, state.level).is_none() {
        let mut m = String::from_str("Destiny state (");
        push_int(&mut m, state.rank as i64);
        push_str(&mut m, ", ");
        push_int(&mut m, state.level as i64);
        push_str(&mut m, ") is not configured for slot group ");
        push_int(&mut m, slots_id as i64);
        return Err(ProgressionError::Invalid(m));
    }
    Ok(())
}

/// Prices a plan with the cost strings of one configuration row.
fn priced(expected: DestinyState, kind: MutationKind, consume: &str) -> (r: Result<
    MutationPlan,
    ProgressionError,
>)
    ensures
        match r {
            Ok(p) => plan_matches(
                PlanOutcome::Planned { kind, consumes: seq![consume@] },
                expected,
                &p,
            ),
            Err(e) => !costs_parse(seq![consume@]) && (e matches ProgressionError::Invalid(m) && m@
                == costs_fault_text(seq![consume@])),
        },
{
    let raws = [consume];
    assert(raw_views(raws@) =~= seq![consume@]);
    match parse_material_costs(&raws) {
        Ok(costs) => Ok(MutationPlan { expected, kind, costs }),
        Err(e) => Err(e),
    }
}

fn plan_rank_up(catalog: &DestinyConfigIndex, slots_id: i32, current: &OwnedDestinyHero) -> (r:
    Result<MutationPlan, ProgressionError>)
    ensures
        match r {
            Ok(p) => plan_matches(rank_up_outcome(catalog, slots_id, current.state), current.state, &p),
            Err(e) => refused_with(&e, rank_up_outcome(catalog, slots_id, current.state)),
        },
{
    let state = current.state;
    let target_rank: i32 = if state.rank == 0 && state.level == 0 {
        1
    } else {
        match validate_progress_state(catalog, slots_id, state) {
            Ok(()) => {},
            Err(e) => return Err(e),
        }
        if state.level == i32::MAX {
            return Err(text_error("Destiny level overflow"));
        }
        let next_level = state.level + 1;
        if catalog.slot(slots_id, state.rank, next_level).is_some() {
            return Err(text_error("current Destiny stage is not complete"));
        }
        if state.rank == i32::MAX {
            return Err(text_error("Destiny rank overflow"));
        }
        state.rank + 1
    };
    let slot = match catalog.slot(slots_id, target_rank, 1) {
        Some(s) => s,
        None => return Err(missing_slot_error(slots_id, target_rank, 1)),
    };
    priced(state, MutationKind::Progress { target_rank, target_level: 1 }, slot.consume.as_str())
}

#[verifier::rlimit(80)]
fn plan_level_up(
    catalog: &DestinyConfigIndex,
    slots_id: i32,
    current: &OwnedDestinyHero,
    target_level: i32,
) -> (r: Result<MutationPlan, ProgressionError>)
    ensures
        match r {
            Ok(p) => plan_matches(
                level_up_outcome(catalog, slots_id, current.state, target_level),
                current.state,
                &p,
            ),
            Err(e) => refused_with(&e, level_up_outcome(catalog, slots_id, current.state, target_level)),
        },
{
    let state = current.state;
    match validate_progress_state(catalog, slots_id, state) {
        Ok(()) => {},
        Err(e) => return Err(e),
    }
    if target_level < state.level {
        let mut m = String::from_str("target level ");
        push_int(&mut m, target_level as i64);
        push_str(&mut m, " is below current level ");
        push_int(&mut m, state.level as i64);
        return Err(ProgressionError::Invalid(m));
    }
    if target_level == state.level {
        let p = no_change(state);
        proof {
            lemma_no_costs(p.costs@);
        }
        return Ok(p);
    }
    let ghost consumes = level_consumes(catalog, slots_id, state, target_level);
    let span: i32 = target_level - state.level;
    let mut raw_costs: Vec<&str> = Vec::new();
    let mut k: i32 = 0;
    while k < span
        invariant
            span == target_level - state.level,
            0 < span,
            state == current.state,
            progress_state_valid(catalog, slots_id, state),
            0 <= k <= span,
            state.level > 0,
            consumes == level_consumes(catalog, slots_id, state, target_level),
            consumes.len() == span,
            raw_views(raw_costs@) == consumes.take(k as int),
            forall|n: i32| state.level < n <= state.level + k ==> (#[trigger] catalog.spec_slot(
                slots_id,
                state.rank,
                n,
            )) is Some,
            first_missing_node(catalog, slots_id, state.rank, state.level + 1, target_level as int)
                == first_missing_node(
                catalog,
                slots_id,
                state.rank,
                state.level + 1 + k,
                target_level as int,
            ),
        decreases span - k,
    {
        let node = state.level + 1 + k;
        let slot = match catalog.slot(slots_id, state.rank, node) {
            Some(s) => s,
            None => {
                assert(!level_nodes_configured(catalog, slots_id, state, target_level)) by {
                    assert(catalog.spec_slot(slots_id, state.rank, node) is None);
                }
                return Err(missing_slot_error(slots_id, state.rank, node));
            },
        };
        let ghost before = raw_views(raw_costs@);
        assert(before.len() == k);
        let text = slot.consume.as_str();
        raw_costs.push(text);
        assert(raw_costs@.len() == k + 1);
        assert(raw_views(raw_costs@).len() == k + 1);
        assert(consumes[k as int] == slot.consume@);
        assert forall|i: int| 0 <= i < k + 1 implies #[trigger] raw_views(raw_costs@)[i] == consumes.take(
            k as int + 1,
        )[i] by {
            if i < k {
                assert(raw_views(raw_costs@)[i] == before[i]);
            } else {
                assert(raw_views(raw_costs@)[i] == text@);
            }
        }
        assert(raw_views(raw_costs@) =~= consumes.take(k as int + 1));
        k = k + 1;
    }
    assert(consumes.take(span as int) =~= consumes);
    assert(raw_views(raw_costs@) =~= consumes);
    match parse_material_costs(raw_costs.as_slice()) {
        Ok(costs) => Ok(MutationPlan {
            expected: state,
            kind: MutationKind::Progress { target_rank: state.rank, target_level },
            costs,
        }),
        Err(e) => Err(e),
    }
}

fn plan_stone_unlock(
    catalog: &DestinyConfigIndex,
    facet_ids: &[i32],
    current: &OwnedDestinyHero,
    stone_id: i32,
) -> (r: Result<MutationPlan, ProgressionError>)
    ensures
        match r {
            Ok(p) => plan_matches(
                unlock_outcome(
                    catalog,
                    current.hero_id,
                    facet_ids@,
                    current.state,
                    current.unlocked_stones@,
                    stone_id,
                ),
                current.state,
                &p,
            ),
            Err(e) => refused_with(
                &e,
                unlock_outcome(
                    catalog,
                    current.hero_id,
                    facet_ids@,
                    current.state,
                    current.unlocked_stones@,
                    stone_id,
                ),
            ),
        },
{
    if current.state.rank <= 0 {
        return Err(text_error("a Destiny rank is required before unlocking a stone"));
    }
    if !contains_id(facet_ids, stone_id) {
        return Err(not_owned_error(stone_id, current.hero_id));
    }
    let consume = match catalog.facet_consume(stone_id) {
        Some(c) => c,
        None => {
            let mut m = String::from_str("missing consume configuration for stone ");
            push_int(&mut m, stone_id as i64);
            return Err(ProgressionError::Invalid(m));
        },
    };
    if contains_id(current.unlocked_stones.as_slice(), stone_id) {
        let p = no_change(current.state);
        proof {
            lemma_no_costs(p.costs@);
        }
        return Ok(p);
    }
    priced(current.state, MutationKind::UnlockStone { stone_id }, consume.consume.as_str())
}

fn plan_stone_use(facet_ids: &[i32], current: &OwnedDestinyHero, stone_id: i32) -> (r: Result<
    MutationPlan,
    ProgressionError,
>)
    ensures
        match r {
            Ok(p) => plan_matches(
                use_outcome(current.hero_id, facet_ids@, current.state, current.unlocked_stones@, stone_id),
                current.state,
                &p,
            ),
            Err(e) => refused_with(
                &e,
                use_outcome(current.hero_id, facet_ids@, current.state, current.unlocked_stones@, stone_id),
            ),
        },
{
    if stone_id != 0 {
        if !contains_id(facet_ids, stone_id) {
            return Err(not_owned_error(stone_id, current.hero_id));
        }
        if !contains_id(current.unlocked_stones.as_slice(), stone_id) {
            let mut m = String::from_str("stone ");
            push_int(&mut m, stone_id as i64);
            push_str(&mut m, " is locked");
            return Err(ProgressionError::Invalid(m));
        }
    }
    let p = if current.state.stone == stone_id {
        no_change(current.state)
    } else {
        MutationPlan {
            expected: current.state,
            kind: MutationKind::UseStone { stone_id },
            costs: Vec::new(),
        }
    };
    proof {
        lemma_no_costs(p.costs@);
    }
    Ok(p)
}

/// Plans `command` against the stored hero: refuses what the configuration
/// or the stored state does not allow, and otherwise states the change, the
/// state it expects, and its aggregated cost. All refusals are `Invalid`, with
/// the message of the first check that fails.
pub fn plan_transition(
    catalog: &DestinyConfigIndex,
    current: &OwnedDestinyHero,
    command: DestinyCommand,
) -> (r: Result<MutationPlan, ProgressionError>)
    ensures
        match r {
            Ok(p) => plan_matches(
                plan_outcome(catalog, current.hero_id, current.state, current.unlocked_stones@, command),
                current.state,
                &p,
            ),
            Err(e) => refused_with(
                &e,
                plan_outcome(catalog, current.hero_id, current.state, current.unlocked_stones@, command),
            ),
        },
{
    let hero = match catalog.hero(current.hero_id) {
        Some(h) => h,
        None => {
            let mut m = String::from_str("hero ");
            push_int(&mut m, current.hero_id as i64);
            push_str(&mut m, " has no Destiny configuration");
            return Err(ProgressionError::Invalid(m));
        },
    };
    let command_hero = match command {
        DestinyCommand::RankUp { hero_id } => hero_id,
        DestinyCommand::LevelUp { hero_id, .. } => hero_id,
        DestinyCommand::UnlockStone { hero_id, .. } => hero_id,
        DestinyCommand::UseStone { hero_id, .. } => hero_id,
    };
    if command_hero != current.hero_id {
        let mut m = String::from_str("command hero ");
        push_int(&mut m, command_hero as i64);
        push_str(&mut m, " does not match owned hero ");
        push_int(&mut m, current.hero_id as i64);
        return Err(ProgressionError::Invalid(m));
    }
    match command {
        DestinyCommand::RankUp { .. } => plan_rank_up(catalog, hero.slots_id, current),
        DestinyCommand::LevelUp { target_level, .. } => plan_level_up(
            catalog,
            hero.slots_id,
            current,
            target_level,
        ),
        DestinyCommand::UnlockStone { stone_id, .. } => plan_stone_unlock(
            catalog,
            hero.facet_ids.as_slice(),
            current,
            stone_id,
        ),
        DestinyCommand::UseStone { stone_id, .. } => plan_stone_use(
            hero.facet_ids.as_slice(),
            current,
            stone_id,
        ),
    }
}

// ---------------------------------------------------------------------------
// Laws
// ---------------------------------------------------------------------------

/// The stored state and unlocked stones once a planned change is written.
pub open spec fn applied(state: DestinyState, unlocked: Seq<i32>, kind: MutationKind) -> (
    DestinyState,
    Seq<i32>,
) {
    match kind {
        MutationKind::Progress { target_rank, target_level } => (
            DestinyState { rank: target_rank, level: target_level, stone: state.stone },
            unlocked,
        ),
        MutationKind::UnlockStone { stone_id } => (state, unlocked.push(stone_id)),
        MutationKind::UseStone { stone_id } => (
            DestinyState { rank: state.rank, level: state.level, stone: stone_id },
            unlocked,
        ),
        MutationKind::NoChange => (state, unlocked),
    }
}

/// A level-up, once written, is a no-op when sent again: the hero stands on
/// the target node, which asks nothing more.
pub proof fn level_up_is_idempotent(
    catalog: &DestinyConfigIndex,
    hero_id: i32,
    state: DestinyState,
    unlocked: Seq<i32>,
    target_level: i32,
)
    requires
        plan_outcome(
            catalog,
            hero_id,
            state,
            unlocked,
            DestinyCommand::LevelUp { hero_id, target_level },
        ) matches PlanOutcome::Planned { kind, .. } && kind !is NoChange,
    ensures
        ({
            let k = plan_outcome(
                catalog,
                hero_id,
                state,
                unlocked,
                DestinyCommand::LevelUp { hero_id, target_level },
            )->kind;
            let (s2, u2) = applied(state, unlocked, k);
            plan_outcome(catalog, hero_id, s2, u2, DestinyCommand::LevelUp { hero_id, target_level })
                == PlanOutcome::Planned { kind: MutationKind::NoChange, consumes: Seq::empty() }
        }),
{
    let hero = catalog.spec_hero(hero_id)->0;
    assert(catalog.spec_slot(hero.slots_id, state.rank, target_level) is Some);
}

/// Unlocking a stone, once written, is a no-op when sent again.
pub proof fn unlock_is_idempotent(
    catalog: &DestinyConfigIndex,
    hero_id: i32,
    state: DestinyState,
    unlocked: Seq<i32>,
    stone_id: i32,
)
    requires
        plan_outcome(
            catalog,
            hero_id,
            state,
            unlocked,
            DestinyCommand::UnlockStone { hero_id, stone_id },
        ) matches PlanOutcome::Planned { kind, .. } && kind !is NoChange,
    ensures
        ({
            let k = plan_outcome(
                catalog,
                hero_id,
                state,
                unlocked,
                DestinyCommand::UnlockStone { hero_id, stone_id },
            )->kind;
            let (s2, u2) = applied(state, unlocked, k);
            plan_outcome(catalog, hero_id, s2, u2, DestinyCommand::UnlockStone { hero_id, stone_id })
                == PlanOutcome::Planned { kind: MutationKind::NoChange, consumes: Seq::empty() }
        }),
{
    assert(unlocked.push(stone_id)[unlocked.len() as int] == stone_id);
}

/// Equipping a stone, once written, is a no-op when sent again.
pub proof fn use_is_idempotent(
    catalog: &DestinyConfigIndex,
    hero_id: i32,
    state: DestinyState,
    unlocked: Seq<i32>,
    stone_id: i32,
)
    requires
        plan_outcome(
            catalog,
            hero_id,
            state,
            unlocked,
            DestinyCommand::UseStone { hero_id, stone_id },
        ) matches PlanOutcome::Planned { kind, .. } && kind !is NoChange,
    ensures
        ({
            let k = plan_outcome(
                catalog,
                hero_id,
                state,
                unlocked,
                DestinyCommand::UseStone { hero_id, stone_id },
            )->kind;
            let (s2, u2) = applied(state, unlocked, k);
            plan_outcome(catalog, hero_id, s2, u2, DestinyCommand::UseStone { hero_id, stone_id })
                == PlanOutcome::Planned { kind: MutationKind::NoChange, consumes: Seq::empty() }
        }),
{
}

/// A rank-up lands on node 1 of a stage that the configuration holds, and
/// the hero can then level up within that stage from there.
pub proof fn rank_up_lands_on_a_configured_first_node(
    catalog: &DestinyConfigIndex,
    hero_id: i32,
    state: DestinyState,
    unlocked: Seq<i32>,
)
    requires
        plan_outcome(catalog, hero_id, state, unlocked, DestinyCommand::RankUp { hero_id }) is Planned,
    ensures
        ({
            let k = plan_outcome(catalog, hero_id, state, unlocked, DestinyCommand::RankUp { hero_id })->kind;
            let (s2, u2) = applied(state, unlocked, k);
            &&& k matches MutationKind::Progress { target_rank, target_level } && target_level == 1
                && target_rank > state.rank
            &&& plan_outcome(
                catalog,
                hero_id,
                s2,
                u2,
                DestinyCommand::LevelUp { hero_id, target_level: 1 },
            ) == PlanOutcome::Planned { kind: MutationKind::NoChange, consumes: Seq::empty() }
        }),
{
}

/// A level-up, stone unlock or stone change that was planned and written
/// asks nothing more when the same command comes again for the same hero:
/// the second plan changes nothing and costs nothing, so a repeated command
/// is never charged twice.
pub proof fn repeated_command_changes_nothing(
    catalog: &DestinyConfigIndex,
    state: DestinyState,
    unlocked: Seq<i32>,
    command: DestinyCommand,
)
    requires
        !(command is RankUp),
        plan_outcome(catalog, command_hero_id(command), state, unlocked, command) matches PlanOutcome::Planned {
            kind,
            ..
        } && kind !is NoChange,
    ensures
        ({
            let hero_id = command_hero_id(command);
            let k = plan_outcome(catalog, hero_id, state, unlocked, command)->kind;
            let (s2, u2) = applied(state, unlocked, k);
            plan_outcome(catalog, hero_id, s2, u2, command) == PlanOutcome::Planned {
                kind: MutationKind::NoChange,
                consumes: Seq::empty(),
            }
        }),
{
    match command {
        DestinyCommand::LevelUp { hero_id, target_level } => {
            level_up_is_idempotent(catalog, hero_id, state, unlocked, target_level);
        },
        DestinyCommand::UnlockStone { hero_id, stone_id } => {
            unlock_is_idempotent(catalog, hero_id, state, unlocked, stone_id);
        },
        DestinyCommand::UseStone { hero_id, stone_id } => {
            use_is_idempotent(catalog, hero_id, state, unlocked, stone_id);
        },
        DestinyCommand::RankUp { .. } => {},
    }
}

/// A planned rank-up enters node 1 of its target stage and is priced by that
/// node: its costs are the aggregated costs of the node's consume string.
pub proof fn rank_up_pays_the_first_node_of_its_stage(
    catalog: &DestinyConfigIndex,
    hero_id: i32,
    state: DestinyState,
    unlocked: Seq<i32>,
    p: &MutationPlan,
)
    requires
        plan_matches(
            plan_outcome(catalog, hero_id, state, unlocked, DestinyCommand::RankUp { hero_id }),
            state,
            p,
        ),
    ensures
        p.kind matches MutationKind::Progress { target_rank, target_level } && target_level == 1
            && (catalog.spec_hero(hero_id) matches Some(h) && (catalog.spec_slot(
            h.slots_id,
            target_rank,
            1,
        ) matches Some(slot) && costs_parse(seq![slot.consume]) && aggregated_costs(
            entry_costs(raw_entries(seq![slot.consume])),
            p.costs@,
        ))),
{
}

/// A planned unlock of a stone that is not yet unlocked is priced by the
/// stone's consume configuration: its costs are the aggregated costs of the
/// stone's `character_destiny_facets_consume` string.
pub proof fn stone_unlock_pays_its_consume(
    catalog: &DestinyConfigIndex,
    hero_id: i32,
    state: DestinyState,
    unlocked: Seq<i32>,
    stone_id: i32,
    p: &MutationPlan,
)
    requires
        plan_matches(
            plan_outcome(
                catalog,
                hero_id,
                state,
                unlocked,
                DestinyCommand::UnlockStone { hero_id, stone_id },
            ),
            state,
            p,
        ),
        !unlocked.contains(stone_id),
    ensures
        p.kind == (MutationKind::UnlockStone { stone_id }),
        catalog.spec_facet_consume(stone_id) matches Some(c) && costs_parse(seq![c.consume])
            && aggregated_costs(entry_costs(raw_entries(seq![c.consume])), p.costs@),
{
}

} // verus!
