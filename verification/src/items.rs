//! Expired power items: each one whose item is configured turns into its
//! stamina effect times its quantity, and the total is added to the
//! player's stamina.
use vstd::prelude::*;

verus! {

/// A power item of the player that has expired.
#[derive(Clone, Copy, Debug, PartialEq, Eq)]
pub struct ExpiredPowerItem {
    pub uid: i64,
    pub item_id: i32,
    pub quantity: i32,
    pub expire_time: i64,
}

/// A row of the `power_item` table: the stamina one item gives.
#[derive(Clone, Copy, Debug, PartialEq, Eq)]
pub struct PowerItem {
    pub id: i32,
    pub effect: i32,
}

/// The effect of the first `power_item` row of `item_id`, if any.
pub open spec fn power_effect(table: Seq<PowerItem>, item_id: i32) -> Option<i32>
    decreases table.len(),
{
    if table.len() == 0 {
        None
    } else if table[0].id == item_id {
        Some(table[0].effect)
    } else {
        power_effect(table.drop_first(), item_id)
    }
}

/// The stamina an expired item gives: its effect times its quantity, or
/// nothing when its item is not configured.
pub open spec fn item_stamina(table: Seq<PowerItem>, item: ExpiredPowerItem) -> int {
    match power_effect(table, item.item_id) {
        Some(effect) => effect * item.quantity,
        None => 0,
    }
}

/// The stamina of the expired items.
pub open spec fn total_stamina(items: Seq<ExpiredPowerItem>, table: Seq<PowerItem>) -> int
    decreases items.len(),
{
    if items.len() == 0 {
        0
    } else {
        total_stamina(items.drop_last(), table) + item_stamina(table, items.last())
    }
}

/// The row ids of the expired items that are converted, in order.
pub open spec fn converted_uids(items: Seq<ExpiredPowerItem>, table: Seq<PowerItem>) -> Seq<i64>
    decreases items.len(),
{
    if items.len() == 0 {
        Seq::empty()
    } else {
        let rest = converted_uids(items.drop_last(), table);
        if power_effect(table, items.last().item_id) is Some {
            rest.push(items.last().uid)
        } else {
            rest
        }
    }
}

/// Every item's stamina and every running total fit `i32`.
pub open spec fn conversion_fits(items: Seq<ExpiredPowerItem>, table: Seq<PowerItem>) -> bool {
    forall|n: int|
        0 <= n <= items.len() ==> i32::MIN <= #[trigger] total_stamina(items.take(n), table)
            <= i32::MAX && (n < items.len() ==> i32::MIN <= item_stamina(table, items[n])
            <= i32::MAX)
}

/// What converting the expired items comes to.
#[derive(Debug)]
pub struct PowerConversion {
    /// The row ids of the items converted (and deleted), in order.
    pub consumed: Vec<i64>,
    /// The stamina they give.
    pub total_stamina: i32,
    /// Whether any item had expired.
    pub used: bool,
}

/// Looks up an item's effect.
pub fn find_power_effect(table: &[PowerItem], item_id: i32) -> (r: Option<i32>)
    ensures
        r == power_effect(table@, item_id),
{
    let mut i: usize = 0;
    assert(table@.skip(0) =~= table@);
    while i < table.len()
        invariant
            i <= table@.len(),
            power_effect(table@, item_id) == power_effect(table@.skip(i as int), item_id),
        decreases table@.len() - i,
    {
        assert(table@.skip(i as int)[0] == table@[i as int]);
        if table[i].id == item_id {
            return Some(table[i].effect);
        }
        assert(table@.skip(i as int).drop_first() =~= table@.skip(i as int + 1));
        i = i + 1;
    }
    None
}

/// Whether converting the items stays within `i32`.
pub fn power_conversion_fits(items: &[ExpiredPowerItem], table: &[PowerItem]) -> (b: bool)
    ensures
        b == conversion_fits(items@, table@),
{
    let mut total: i64 = 0;
    let mut i: usize = 0;
    assert(items@.take(0) =~= Seq::<ExpiredPowerItem>::empty());
    while i < items.len()
        invariant
            i <= items@.len(),
            total == total_stamina(items@.take(i as int), table@),
            forall|n: int|
                0 <= n <= i ==> i32::MIN <= #[trigger] total_stamina(items@.take(n), table@)
                    <= i32::MAX && (n < i ==> i32::MIN <= item_stamina(table@, items@[n])
                    <= i32::MAX),
        decreases items@.len() - i,
    {
        let item = items[i];
        assert(items@.take(i as int + 1).drop_last() =~= items@.take(i as int));
        assert(items@.take(i as int + 1).last() == item);
        let gain: i64 = match find_power_effect(table, item.item_id) {
            Some(effect) => {
                assert(-4611686018427387904 <= (effect as int) * (item.quantity as int)
                    <= 4611686018427387904) by (nonlinear_arith)
                    requires
                        i32::MIN <= effect <= i32::MAX,
                        i32::MIN <= item.quantity <= i32::MAX,
                ;
                effect as i64 * item.quantity as i64
            },
            None => 0,
        };
        if gain < i32::MIN as i64 || gain > i32::MAX as i64 {
            return false;
        }
        let next = total + gain;
        if next < i32::MIN as i64 || next > i32::MAX as i64 {
            assert(!(i32::MIN <= total_stamina(items@.take(i as int + 1), table@) <= i32::MAX));
            return false;
        }
        total = next;
        i = i + 1;
    }
    assert(items@.take(items@.len() as int) =~= items@);
    true
}

/// Converts the expired items: those whose item is configured are consumed
/// for their effect times their quantity.
pub fn convert_expired_power_items(items: &[ExpiredPowerItem], table: &[PowerItem]) -> (c: PowerConversion)
    requires
        conversion_fits(items@, table@),
    ensures
        c.consumed@ == converted_uids(items@, table@),
        c.total_stamina == total_stamina(items@, table@),
        c.used == (items@.len() > 0),
{
    let mut consumed: Vec<i64> = Vec::new();
    let mut total: i32 = 0;
    let mut i: usize = 0;
    assert(items@.take(0) =~= Seq::<ExpiredPowerItem>::empty());
    while i < items.len()
        invariant
            i <= items@.len(),
            conversion_fits(items@, table@),
            total == total_stamina(items@.take(i as int), table@),
            consumed@ == converted_uids(items@.take(i as int), table@),
        decreases items@.len() - i,
    {
        let item = items[i];
        assert(items@.take(i as int + 1).drop_last() =~= items@.take(i as int));
        assert(items@.take(i as int + 1).last() == item);
        assert(i32::MIN <= total_stamina(items@.take(i as int + 1), table@) <= i32::MAX);
        assert(i32::MIN <= item_stamina(table@, items@[i as int]) <= i32::MAX);
        match find_power_effect(table, item.item_id) {
            Some(effect) => {
                let gain = effect * item.quantity;
                total = total + gain;
                consumed.push(item.uid);
            },
            None => {},
        }
        i = i + 1;
    }
    assert(items@.take(items@.len() as int) =~= items@);
    PowerConversion { consumed, total_stamina: total, used: items.len() > 0 }
}

/// The stamina after the conversion: the current stamina plus the total,
/// written only when the total is positive.
pub fn stamina_after_conversion(current: i32, total: i32) -> (r: Option<i32>)
    requires
        total > 0 ==> i32::MIN <= current + total <= i32::MAX,
    ensures
        r == (if total > 0 {
            Some((current + total) as i32)
        } else {
            None::<i32>
        }),
{
    if total > 0 {
        Some(current + total)
    } else {
        None
    }
}

} // verus!
