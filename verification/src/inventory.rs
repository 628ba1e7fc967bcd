//! Inventory costing: first-in first-out, last-in first-out and weighted
//! average cost of goods sold.

use vstd::prelude::*;

use crate::date::Date;
use crate::decimal::{decimal_add, decimal_div, decimal_mul, decimal_sub, int_model, zero_model, Decimal, DecimalModel};
use crate::error::{
    fold_steps, lemma_fold_error_stays, ok_or_div_zero, ok_or_overflow, or_div_zero, or_overflow, overflow_model,
    result_view, then, CasifinError, ErrorModel,
};
use crate::money::Money;

verus! {

broadcast use vstd::string::group_string_axioms;

/// The content of an [`InventoryLot`].
pub struct LotModel {
    pub units: u32,
    pub unit_cost: DecimalModel,
    pub date: int,
}

/// A lot of identical units bought on one date at one unit cost.
#[derive(Debug, Clone, Copy, PartialEq)]
pub struct InventoryLot {
    /// Number of units in the lot.
    pub units: u32,
    /// Cost of one unit.
    pub unit_cost: Money,
    /// Date the lot was bought.
    pub date: Date,
}

impl View for InventoryLot {
    type V = LotModel;

    open spec fn view(&self) -> LotModel {
        LotModel { units: self.units, unit_cost: self.unit_cost@, date: self.date@ }
    }
}

/// The lots' views, in order.
pub open spec fn lots_view(lots: &[InventoryLot]) -> Seq<LotModel> {
    lots@.map_values(|l: InventoryLot| l@)
}

/// The value of a lot: `unit_cost * units`.
pub open spec fn lot_value_model(lot: LotModel) -> Option<DecimalModel> {
    decimal_mul(lot.unit_cost, int_model(lot.units as int))
}

impl InventoryLot {
    /// A lot of `units` units at `unit_cost` each, bought on `date`.
    pub fn new(units: u32, unit_cost: Money, date: Date) -> (l: InventoryLot)
        ensures
            l.units == units,
            l.unit_cost == unit_cost,
            l.date == date,
    {
        InventoryLot { units, unit_cost, date }
    }

    /// The value of the lot, `unit_cost * units`; `None` when it cannot be held.
    pub fn checked_total_value(&self) -> (v: Option<Money>)
        ensures
            crate::money::opt_money_view(v) == lot_value_model(self@),
    {
        self.unit_cost.checked_mul(Money::from_decimal(Decimal::from_u32(self.units)))
    }

    /// The value of the lot, `unit_cost * units`; the caller guarantees that
    /// it can be held, which [`InventoryLot::checked_total_value`] tests and
    /// reports as `None`.
    pub fn total_value(&self) -> (v: Money)
        requires
            lot_value_model(self@) is Some,
        ensures
            v@ == lot_value_model(self@)->0,
    {
        self.checked_total_value().unwrap()
    }
}

// ---------------------------------------------------------------------------
// Totals
// ---------------------------------------------------------------------------

/// The number of units in all lots, as a `u32` count.
pub open spec fn units_total_model(lots: Seq<LotModel>) -> Result<int, ErrorModel> {
    fold_steps(
        0,
        lots.len(),
        |t: int, total: int|
            if total + lots[t].units > u32::MAX {
                Err(overflow_model("inventory: unit count overflow"))
            } else {
                Ok(total + lots[t].units)
            },
    )
}

/// The value of all lots.
pub open spec fn value_total_model(lots: Seq<LotModel>) -> Result<DecimalModel, ErrorModel> {
    fold_steps(
        zero_model(),
        lots.len(),
        |t: int, total: DecimalModel|
            then(
                or_overflow(lot_value_model(lots[t]), "inventory: value overflow"),
                |v: DecimalModel| or_overflow(decimal_add(total, v), "inventory: value overflow"),
            ),
    )
}

fn units_total(lots: &[InventoryLot]) -> (res: Result<u32, CasifinError>)
    ensures
        match (res, units_total_model(lots_view(lots))) {
            (Ok(n), Ok(m)) => n == m,
            (Err(e), Err(f)) => e@ == f,
            _ => false,
        },
{
    let ghost view = lots_view(lots);
    let ghost step = |t: int, total: int|
        if total + view[t].units > u32::MAX {
            Err(overflow_model("inventory: unit count overflow"))
        } else {
            Ok(total + view[t].units)
        };
    let mut total: u32 = 0;
    let mut t: usize = 0;
    while t < lots.len()
        invariant
            view == lots_view(lots),
            step == (|t: int, total: int|
                if total + view[t].units > u32::MAX {
                    Err(overflow_model("inventory: unit count overflow"))
                } else {
                    Ok(total + view[t].units)
                }),
            0 <= t <= lots.len(),
            fold_steps(0, t as nat, step) == Ok::<int, ErrorModel>(total as int),
        decreases lots.len() - t,
    {
        assert(view[t as int] == lots@[t as int]@);
        assert(fold_steps(0, (t + 1) as nat, step) == step(t as int, total as int));
        match total.checked_add(lots[t].units) {
            Some(x) => {
                total = x;
            },
            None => {
                proof {
                    lemma_fold_error_stays(0, (t + 1) as nat, lots.len() as nat, step);
                }
                return Err(CasifinError::overflow("inventory: unit count overflow"));
            },
        }
        t = t + 1;
    }
    Ok(total)
}

fn value_total(lots: &[InventoryLot]) -> (res: Result<Money, CasifinError>)
    ensures
        result_view(res) == value_total_model(lots_view(lots)),
{
    let ghost view = lots_view(lots);
    let ghost step = |t: int, total: DecimalModel|
        then(
            or_overflow(lot_value_model(view[t]), "inventory: value overflow"),
            |v: DecimalModel| or_overflow(decimal_add(total, v), "inventory: value overflow"),
        );
    let mut total = Money::zero();
    let mut t: usize = 0;
    while t < lots.len()
        invariant
            view == lots_view(lots),
            step == (|t: int, total: DecimalModel|
                then(
                    or_overflow(lot_value_model(view[t]), "inventory: value overflow"),
                    |v: DecimalModel| or_overflow(decimal_add(total, v), "inventory: value overflow"),
                )),
            0 <= t <= lots.len(),
            fold_steps(zero_model(), t as nat, step) == Ok::<DecimalModel, ErrorModel>(total@),
        decreases lots.len() - t,
    {
        assert(view[t as int] == lots@[t as int]@);
        assert(fold_steps(zero_model(), (t + 1) as nat, step) == step(t as int, total@));
        let next = match lots[t].checked_total_value() {
            Some(v) => total.checked_add(v),
            None => None,
        };
        match next {
            Some(x) => {
                total = x;
            },
            None => {
                proof {
                    lemma_fold_error_stays(zero_model(), (t + 1) as nat, lots.len() as nat, step);
                }
                return Err(CasifinError::overflow("inventory: value overflow"));
            },
        }
        t = t + 1;
    }
    Ok(total)
}

} // verus!

verus! {

// ---------------------------------------------------------------------------
// Order of consumption
// ---------------------------------------------------------------------------

/// Lot `i` comes before lot `j` by date, and by position between lots of
/// the same date; with `newest_first` the other way round.
pub open spec fn lot_before(lots: Seq<LotModel>, i: int, j: int, newest_first: bool) -> bool {
    if newest_first {
        lots[j].date < lots[i].date || (lots[j].date == lots[i].date && j < i)
    } else {
        lots[i].date < lots[j].date || (lots[i].date == lots[j].date && i < j)
    }
}

/// `i` occurs in `order`.
pub open spec fn listed(order: Seq<int>, i: int) -> bool {
    exists|a: int| 0 <= a < order.len() && order[a] == i
}

/// `order` lists every lot once, oldest first (or newest first), lots of the
/// same date in their order in `lots` (or in reverse): the order of a stable
/// sort by date, reversed for `newest_first`.
pub open spec fn is_date_order(lots: Seq<LotModel>, order: Seq<int>, newest_first: bool) -> bool {
    &&& forall|a: int| 0 <= a < order.len() ==> 0 <= #[trigger] order[a] < lots.len()
    &&& forall|i: int| 0 <= i < lots.len() ==> #[trigger] listed(order, i)
    &&& forall|a: int, b: int|
        0 <= a < b < order.len() ==> lot_before(lots, #[trigger] order[a], #[trigger] order[b], newest_first)
}

/// The number of lots not yet taken.
pub open spec fn count_unused(used: Seq<bool>) -> nat
    decreases used.len(),
{
    if used.len() == 0 {
        0
    } else {
        count_unused(used.drop_last()) + if used.last() {
            0nat
        } else {
            1nat
        }
    }
}

proof fn lemma_count_unused_take(used: Seq<bool>, j: int)
    requires
        0 <= j < used.len(),
        !used[j],
    ensures
        count_unused(used.update(j, true)) + 1 == count_unused(used),
    decreases used.len(),
{
    if j < used.len() - 1 {
        lemma_count_unused_take(used.drop_last(), j);
        assert(used.update(j, true).drop_last() =~= used.drop_last().update(j, true));
    } else {
        assert(used.update(j, true).drop_last() =~= used.drop_last());
    }
}

fn date_before(lots: &[InventoryLot], i: usize, j: usize, newest_first: bool) -> (b: bool)
    requires
        i < lots.len(),
        j < lots.len(),
    ensures
        b == lot_before(lots_view(lots), i as int, j as int, newest_first),
{
    let di = lots[i].date.num_days_from_ce();
    let dj = lots[j].date.num_days_from_ce();
    if newest_first {
        dj < di || (dj == di && j < i)
    } else {
        di < dj || (di == dj && i < j)
    }
}

/// The positions of the lots in the order they are consumed: by date,
/// oldest first, or newest first.
fn date_order(lots: &[InventoryLot], newest_first: bool) -> (order: Vec<usize>)
    ensures
        is_date_order(lots_view(lots), order@.map_values(|i: usize| i as int), newest_first),
{
    let ghost view = lots_view(lots);
    let n = lots.len();
    let mut used: Vec<bool> = Vec::new();
    let mut i: usize = 0;
    while i < n
        invariant
            0 <= i <= n,
            n == lots.len(),
            used@.len() == i,
            forall|k: int| 0 <= k < i ==> !used@[k],
        decreases n - i,
    {
        used.push(false);
        i = i + 1;
    }
    let mut order: Vec<usize> = Vec::new();
    loop
        invariant
            n == lots.len(),
            view == lots_view(lots),
            used@.len() == n,
            forall|a: int| 0 <= a < order@.len() ==> (#[trigger] order@[a]) < n && used@[order@[a] as int],
            forall|k: int| 0 <= k < n && #[trigger] used@[k] ==> exists|a: int| 0 <= a < order@.len() && order@[a] == k,
            forall|a: int, k: int|
                0 <= a < order@.len() && 0 <= k < n && !used@[k] ==> lot_before(
                    view,
                    #[trigger] order@[a] as int,
                    k,
                    newest_first,
                ) && #[trigger] used@[k] == false,
            forall|a: int, b: int|
                0 <= a < b < order@.len() ==> lot_before(view, #[trigger] order@[a] as int, #[trigger] order@[b] as int, newest_first),
        ensures
            forall|k: int| 0 <= k < n ==> used@[k],
            forall|a: int| 0 <= a < order@.len() ==> (#[trigger] order@[a]) < n,
            forall|k: int| 0 <= k < n && #[trigger] used@[k] ==> exists|a: int| 0 <= a < order@.len() && order@[a] == k,
            forall|a: int, b: int|
                0 <= a < b < order@.len() ==> lot_before(view, #[trigger] order@[a] as int, #[trigger] order@[b] as int, newest_first),
        decreases count_unused(used@),
    {
        let mut best: usize = n;
        let mut j: usize = 0;
        while j < n
            invariant
                n == lots.len(),
                view == lots_view(lots),
                used@.len() == n,
                0 <= j <= n,
                best == n || (best < j && !used@[best as int]),
                best == n ==> forall|k: int| 0 <= k < j ==> used@[k],
                best < n ==> forall|k: int|
                    0 <= k < j && !used@[k] && k != best ==> lot_before(view, best as int, k, newest_first),
            decreases n - j,
        {
            if !used[j] {
                if best == n || date_before(lots, j, best, newest_first) {
                    proof {
                        if best < n {
                            assert forall|k: int| 0 <= k < j + 1 && !used@[k] && k != j implies lot_before(
                                view,
                                j as int,
                                k,
                                newest_first,
                            ) by {
                                if k != best {
                                    assert(lot_before(view, best as int, k, newest_first));
                                }
                            }
                        }
                    }
                    best = j;
                } else {
                    proof {
                        assert(!lot_before(view, j as int, best as int, newest_first));
                        assert(lot_before(view, best as int, j as int, newest_first));
                    }
                }
            }
            j = j + 1;
        }
        if best == n {
            break;
        }
        let ghost old_used = used@;
        let ghost old_order = order@;
        proof {
            lemma_count_unused_take(used@, best as int);
        }
        used.set(best, true);
        order.push(best);
        proof {
            assert forall|k: int| 0 <= k < n && #[trigger] used@[k] implies exists|a: int|
                0 <= a < order@.len() && order@[a] == k by {
                if k == best {
                    assert(order@[old_order.len() as int] == k);
                } else {
                    assert(old_used[k]);
                    let a = choose|a: int| 0 <= a < old_order.len() && old_order[a] == k;
                    assert(order@[a] == k);
                }
            }
            assert forall|a: int, b: int| 0 <= a < b < order@.len() implies lot_before(
                view,
                #[trigger] order@[a] as int,
                #[trigger] order@[b] as int,
                newest_first,
            ) by {
                if b < old_order.len() {
                    assert(old_order[a] == order@[a] && old_order[b] == order@[b]);
                } else {
                    assert(old_order[a] == order@[a]);
                    assert(!old_used[best as int]);
                }
            }
        }
    }
    proof {
        let o = order@.map_values(|i: usize| i as int);
        assert forall|i: int| 0 <= i < view.len() implies #[trigger] listed(o, i) by {
            assert(used@[i]);
            let a = choose|a: int| 0 <= a < order@.len() && order@[a] == i;
            assert(o[a] == i);
        }
    }
    order
}

} // verus!

verus! {

// ---------------------------------------------------------------------------
// Cost of goods sold
// ---------------------------------------------------------------------------

/// Step `k` of consuming lots in `order`: while units are still to be sold,
/// take `min(remaining, units)` from the `k`-th lot at its unit cost.
pub open spec fn consume_step(lots: Seq<LotModel>, order: Seq<int>) -> spec_fn(int, (int, DecimalModel)) -> Result<
    (int, DecimalModel),
    ErrorModel,
> {
    |k: int, st: (int, DecimalModel)|
        if st.0 == 0 {
            Ok(st)
        } else {
            let lot = lots[order[k]];
            let take = if st.0 < lot.units {
                st.0
            } else {
                lot.units as int
            };
            then(
                or_overflow(decimal_mul(lot.unit_cost, int_model(take)), "inventory: cost overflow"),
                |cost: DecimalModel|
                    then(
                        or_overflow(decimal_add(st.1, cost), "inventory: cost overflow"),
                        |total: DecimalModel| Ok((st.0 - take, total)),
                    ),
            )
        }
}

/// The cost of selling `units_sold` units taken from the lots in `order`.
pub open spec fn consume_model(lots: Seq<LotModel>, order: Seq<int>, units_sold: u32) -> Result<
    DecimalModel,
    ErrorModel,
> {
    then(
        fold_steps((units_sold as int, zero_model()), order.len(), consume_step(lots, order)),
        |st: (int, DecimalModel)| Ok(st.1),
    )
}

/// The error for selling more units than the lots hold.
pub open spec fn exceeds_model(units_sold: u32, total: int) -> ErrorModel {
    ErrorModel::InventoryError(
        "units_sold ("@ + crate::text::u32_text(units_sold) + ") exceeds available inventory ("@
            + crate::text::u32_text(total as u32) + ")"@,
    )
}

/// The checks before costing: some lot must exist and the lots must hold
/// at least `units_sold` units; `Ok` carries the number of units held.
pub open spec fn cogs_checks_model(lots: Seq<LotModel>, units_sold: u32) -> Result<int, ErrorModel> {
    if lots.len() == 0 {
        Err(ErrorModel::InventoryError("no inventory lots available"@))
    } else {
        then(
            units_total_model(lots),
            |total: int|
                if units_sold > total {
                    Err(exceeds_model(units_sold, total))
                } else {
                    Ok(total)
                },
        )
    }
}

fn exceeds(units_sold: u32, total: u32) -> (e: CasifinError)
    ensures
        e@ == exceeds_model(units_sold, total as int),
{
    let mut s = crate::text::concat("units_sold (".to_string(), crate::text::u32_to_text(units_sold).as_str());
    s = crate::text::concat(s, ") exceeds available inventory (");
    s = crate::text::concat(s, crate::text::u32_to_text(total).as_str());
    s = crate::text::concat(s, ")");
    CasifinError::InventoryError(s)
}

fn cogs_checks(lots: &[InventoryLot], units_sold: u32) -> (res: Result<u32, CasifinError>)
    ensures
        match (res, cogs_checks_model(lots_view(lots), units_sold)) {
            (Ok(n), Ok(m)) => n == m,
            (Err(e), Err(f)) => e@ == f,
            _ => false,
        },
{
    if lots.len() == 0 {
        return Err(CasifinError::InventoryError("no inventory lots available".to_string()));
    }
    let total = units_total(lots)?;
    if units_sold > total {
        return Err(exceeds(units_sold, total));
    }
    Ok(total)
}

/// Once every unit is accounted for, later lots change nothing.
proof fn lemma_consume_done(lots: Seq<LotModel>, order: Seq<int>, units_sold: u32, k: nat, m: nat)
    requires
        k <= m,
        fold_steps((units_sold as int, zero_model()), k, consume_step(lots, order)) matches Ok(st) && st.0 == 0,
    ensures
        fold_steps((units_sold as int, zero_model()), m, consume_step(lots, order)) == fold_steps(
            (units_sold as int, zero_model()),
            k,
            consume_step(lots, order),
        ),
    decreases m - k,
{
    if k < m {
        lemma_consume_done(lots, order, units_sold, k, (m - 1) as nat);
    }
}

/// Takes `units_sold` units from the lots in `order`.
fn consume(lots: &[InventoryLot], order: &Vec<usize>, units_sold: u32) -> (res: Result<Money, CasifinError>)
    requires
        forall|a: int| 0 <= a < order@.len() ==> (#[trigger] order@[a]) < lots.len(),
    ensures
        result_view(res) == consume_model(lots_view(lots), order@.map_values(|i: usize| i as int), units_sold),
{
    let ghost view = lots_view(lots);
    let ghost o = order@.map_values(|i: usize| i as int);
    let ghost step = consume_step(view, o);
    let ghost init = (units_sold as int, zero_model());
    let mut remaining = units_sold;
    let mut cogs = Money::zero();
    let mut k: usize = 0;
    while k < order.len()
        invariant
            view == lots_view(lots),
            o == order@.map_values(|i: usize| i as int),
            step == consume_step(view, o),
            init == (units_sold as int, zero_model()),
            forall|a: int| 0 <= a < order@.len() ==> (#[trigger] order@[a]) < lots.len(),
            0 <= k <= order.len(),
            fold_steps(init, k as nat, step) == Ok::<(int, DecimalModel), ErrorModel>((remaining as int, cogs@)),
        decreases order.len() - k,
    {
        if remaining == 0 {
            proof {
                lemma_consume_done(view, o, units_sold, k as nat, order.len() as nat);
            }
            return Ok(cogs);
        }
        let lot = lots[order[k]];
        assert(view[o[k as int]] == lot@);
        assert(fold_steps(init, (k + 1) as nat, step) == step(k as int, (remaining as int, cogs@)));
        let take = if remaining < lot.units {
            remaining
        } else {
            lot.units
        };
        let cost = match lot.unit_cost.checked_mul(Money::from_decimal(Decimal::from_u32(take))) {
            Some(c) => c,
            None => {
                proof {
                    lemma_fold_error_stays(init, (k + 1) as nat, order.len() as nat, step);
                }
                return Err(CasifinError::overflow("inventory: cost overflow"));
            },
        };
        cogs = match cogs.checked_add(cost) {
            Some(c) => c,
            None => {
                proof {
                    lemma_fold_error_stays(init, (k + 1) as nat, order.len() as nat, step);
                }
                return Err(CasifinError::overflow("inventory: cost overflow"));
            },
        };
        remaining = remaining - take;
        k = k + 1;
    }
    Ok(cogs)
}

/// The checks, then the cost of taking `units_sold` units from the lots in `order`.
pub open spec fn ordered_cogs_model(lots: Seq<LotModel>, order: Seq<int>, units_sold: u32) -> Result<
    DecimalModel,
    ErrorModel,
> {
    then(cogs_checks_model(lots, units_sold), |total: int| consume_model(lots, order, units_sold))
}

/// The cost of selling `units_sold` units drawn from the lots in date order
/// (newest first for `newest_first`).
fn ordered_cogs(lots: &[InventoryLot], units_sold: u32, newest_first: bool) -> (res: Result<Money, CasifinError>)
    ensures
        exists|order: Seq<int>|
            is_date_order(lots_view(lots), order, newest_first) && result_view(res) == #[trigger] ordered_cogs_model(
                lots_view(lots),
                order,
                units_sold,
            ),
{
    let order = date_order(lots, newest_first);
    let ghost o = order@.map_values(|i: usize| i as int);
    match cogs_checks(lots, units_sold) {
        Ok(_) => {},
        Err(e) => {
            assert(result_view(Err::<Money, CasifinError>(e)) == ordered_cogs_model(lots_view(lots), o, units_sold));
            return Err(e);
        },
    }
    proof {
        assert forall|a: int| 0 <= a < order@.len() implies (#[trigger] order@[a]) < lots.len() by {
            assert(o[a] == order@[a] as int);
        }
    }
    let r = consume(lots, &order, units_sold);
    assert(result_view(r) == ordered_cogs_model(lots_view(lots), o, units_sold));
    r
}

} // verus!

verus! {

/// The checks before an ending inventory: the unit count and the value of
/// all lots, and no more units sold than held; `Ok` carries the value.
pub open spec fn ending_checks_model(lots: Seq<LotModel>, units_sold: u32) -> Result<DecimalModel, ErrorModel> {
    then(
        units_total_model(lots),
        |total: int|
            then(
                value_total_model(lots),
                |value: DecimalModel|
                    if units_sold > total {
                        Err(exceeds_model(units_sold, total))
                    } else {
                        Ok(value)
                    },
            ),
    )
}

/// The ending inventory for a cost of goods sold `cogs`: the value of all
/// lots less `cogs`.
pub open spec fn ending_model(value: DecimalModel, cogs: Result<DecimalModel, ErrorModel>) -> Result<
    DecimalModel,
    ErrorModel,
> {
    then(cogs, |c: DecimalModel| or_overflow(decimal_sub(value, c), "inventory: ending value overflow"))
}

/// An inventory costing method.
pub trait InventoryMethod: Sized {
    /// `result` is what [`InventoryMethod::cogs`] may return.
    spec fn cogs_relation(&self, lots: Seq<LotModel>, units_sold: u32, result: Result<DecimalModel, ErrorModel>) -> bool;

    /// The cost of goods sold when `units_sold` units leave the `lots`.
    fn cogs(&self, lots: &[InventoryLot], units_sold: u32) -> (res: Result<Money, CasifinError>)
        ensures
            self.cogs_relation(lots_view(lots), units_sold, result_view(res)),
    ;

    /// The value of what is left once `units_sold` units leave the `lots`:
    /// the value of all lots less the cost of goods sold.  When that
    /// subtraction is exact, ending inventory plus cost of goods sold is the
    /// value of all lots.
    fn ending_inventory(&self, lots: &[InventoryLot], units_sold: u32) -> (res: Result<Money, CasifinError>)
        ensures
            match ending_checks_model(lots_view(lots), units_sold) {
                Err(e) => result_view(res) == Err::<DecimalModel, ErrorModel>(e),
                Ok(value) => exists|cogs: Result<DecimalModel, ErrorModel>|
                    #[trigger] self.cogs_relation(lots_view(lots), units_sold, cogs) && result_view(res)
                        == ending_model(value, cogs) && (cogs matches Ok(c) ==> (crate::decimal::sum_fits(
                        value,
                        c,
                        value.units() - c.units(),
                    ) ==> (res matches Ok(e) && e@.units() + c.units() == value.units()))),
            },
    {
        let total_units = match units_total(lots) {
            Ok(n) => n,
            Err(e) => {
                return Err(e);
            },
        };
        let total_value = value_total(lots)?;
        if units_sold > total_units {
            return Err(exceeds(units_sold, total_units));
        }
        let cogs = self.cogs(lots, units_sold);
        let c = match cogs {
            Ok(c) => c,
            Err(e) => {
                assert(self.cogs_relation(lots_view(lots), units_sold, result_view(cogs)));
                return Err(e);
            },
        };
        assert(self.cogs_relation(lots_view(lots), units_sold, result_view(cogs)));
        match total_value.checked_sub(c) {
            Some(e) => Ok(e),
            None => Err(CasifinError::overflow("inventory: ending value overflow")),
        }
    }
}

/// First in, first out: units are drawn from the oldest lots first.
#[derive(Debug, Clone, Copy, Default)]
pub struct Fifo;

/// Last in, first out: units are drawn from the newest lots first.
#[derive(Debug, Clone, Copy, Default)]
pub struct Lifo;

/// Weighted average: every unit costs the average cost of all units held.
#[derive(Debug, Clone, Copy, Default)]
pub struct WeightedAverage;

impl InventoryMethod for Fifo {
    /// Some lots must exist and hold the units sold; then
    /// `sum of min(remaining, units_i) * cost_i` over the lots by date,
    /// oldest first, lots of one date in their given order.
    open spec fn cogs_relation(&self, lots: Seq<LotModel>, units_sold: u32, result: Result<DecimalModel, ErrorModel>) -> bool {
        exists|order: Seq<int>|
            is_date_order(lots, order, false) && result == #[trigger] ordered_cogs_model(lots, order, units_sold)
    }

    fn cogs(&self, lots: &[InventoryLot], units_sold: u32) -> (res: Result<Money, CasifinError>) {
        ordered_cogs(lots, units_sold, false)
    }
}

impl InventoryMethod for Lifo {
    /// Some lots must exist and hold the units sold; then
    /// `sum of min(remaining, units_i) * cost_i` over the lots by date,
    /// newest first, lots of one date in reverse of their given order.
    open spec fn cogs_relation(&self, lots: Seq<LotModel>, units_sold: u32, result: Result<DecimalModel, ErrorModel>) -> bool {
        exists|order: Seq<int>|
            is_date_order(lots, order, true) && result == #[trigger] ordered_cogs_model(lots, order, units_sold)
    }

    fn cogs(&self, lots: &[InventoryLot], units_sold: u32) -> (res: Result<Money, CasifinError>) {
        ordered_cogs(lots, units_sold, true)
    }
}

/// Every unit held is sold, the value of all lots divided by the units is an
/// exact average, and the average's mantissa times the units fits, so no
/// step of weighted-average costing rounds.
pub open spec fn sells_all_exactly(lots: Seq<LotModel>, units_sold: u32) -> bool {
    &&& lots.len() > 0
    &&& units_total_model(lots) == Ok::<int, ErrorModel>(units_sold as int)
    &&& value_total_model(lots) matches Ok(v) && crate::decimal::quotient_is_exact(v, int_model(units_sold as int))
        && (decimal_div(v, int_model(units_sold as int)) matches Some(avg) && -crate::decimal::max_mantissa()
        <= avg.mantissa * units_sold <= crate::decimal::max_mantissa())
}

/// An exact average times the count gives back the total.
proof fn lemma_exact_average_times_count(v: DecimalModel, avg: DecimalModel, n: int)
    requires
        crate::decimal::quotient_is_exact(v, int_model(n)),
        avg.units() == crate::decimal::exact_quotient(v, int_model(n)),
    ensures
        avg.units() * n == v.units(),
{
    let p = crate::decimal::pow10(crate::decimal::max_scale());
    crate::decimal::lemma_pow10_pos(crate::decimal::max_scale());
    let b = int_model(n).units();
    assert(b == n * p);
    let q = (v.units() * p) / b;
    assert(q * b == v.units() * p) by (nonlinear_arith)
        requires
            (v.units() * p) % b == 0,
            b != 0,
            q == (v.units() * p) / b,
    ;
    assert(q * n == v.units()) by (nonlinear_arith)
        requires
            q * b == v.units() * p,
            b == n * p,
            p > 0,
    ;
}

/// What weighted-average costing returns: the checks, then
/// `(value of all lots / units held) * units_sold`.
pub open spec fn weighted_average_model(lots: Seq<LotModel>, units_sold: u32) -> Result<DecimalModel, ErrorModel> {
    then(
        cogs_checks_model(lots, units_sold),
        |total: int|
            then(
                value_total_model(lots),
                |value: DecimalModel|
                    then(
                        or_div_zero(decimal_div(value, int_model(total)), "weighted_average_cost"),
                        |avg: DecimalModel|
                            or_overflow(
                                decimal_mul(avg, int_model(units_sold as int)),
                                "weighted_average: cogs overflow",
                            ),
                    ),
            ),
    )
}

impl InventoryMethod for WeightedAverage {
    open spec fn cogs_relation(&self, lots: Seq<LotModel>, units_sold: u32, result: Result<DecimalModel, ErrorModel>) -> bool {
        result == weighted_average_model(lots, units_sold)
    }

    /// When every unit held is sold, the average cost divides the value of
    /// all lots exactly and the average times the units fits without
    /// rounding, the cost of goods sold is the value of all lots.
    fn cogs(&self, lots: &[InventoryLot], units_sold: u32) -> (res: Result<Money, CasifinError>)
        ensures
            sells_all_exactly(lots_view(lots), units_sold) ==> (res matches Ok(c) && c@.units()
                == value_total_model(lots_view(lots))->Ok_0.units()),
    {
        let total_units = match cogs_checks(lots, units_sold) {
            Ok(n) => n,
            Err(e) => {
                return Err(e);
            },
        };
        let total_value = value_total(lots)?;
        let avg = ok_or_div_zero(
            total_value.inner().checked_div(Decimal::from_u32(total_units)),
            "weighted_average_cost",
        )?;
        let count = Decimal::from_u32(units_sold);
        proof {
            use_type_invariant(&avg);
            if sells_all_exactly(lots_view(lots), units_sold) {
                assert(units_sold as int == total_units as int);
                assert(int_model(units_sold as int).units() != 0);
                assert(units_sold != 0);
                assert(count@ == int_model(units_sold as int));
            }
        }
        let cogs = ok_or_overflow(avg.checked_mul(count), "weighted_average: cogs overflow")?;
        proof {
            if sells_all_exactly(lots_view(lots), units_sold) {
                let v = total_value@;
                let n = units_sold as int;
                assert(v == value_total_model(lots_view(lots))->Ok_0);
                crate::decimal::lemma_units_sign(avg@);
                assert(avg@.units() == crate::decimal::exact_quotient(v, int_model(n)));
                lemma_exact_average_times_count(v, avg@, n);
                assert(avg@.units() * n == v.units());
                if avg@.mantissa == 0 {
                    assert(cogs@ == zero_model());
                    crate::decimal::lemma_units_sign(cogs@);
                    assert(avg@.units() == 0);
                    assert(0 * n == 0);
                    assert(cogs@.units() == v.units());
                } else {
                    let q = crate::decimal::pow10((crate::decimal::max_scale() - avg@.scale) as nat);
                    assert(cogs@ == (DecimalModel { mantissa: avg@.mantissa * n, scale: avg@.scale }));
                    assert(cogs@.units() == (avg@.mantissa * n) * q);
                    assert((avg@.mantissa * n) * q == (avg@.mantissa * q) * n) by (nonlinear_arith);
                    assert(avg@.units() == avg@.mantissa * q);
                    assert(cogs@.units() == avg@.units() * n);
                }
                assert(cogs@.units() == v.units());
            }
        }
        Ok(Money::from_decimal(cogs))
    }
}


/// Weighted-average cost of goods sold is the average cost of all units held
/// times the units sold: when it returns `c`, the value of all lots
/// `sum of units_i * unit_cost_i` divided by the units held
/// `sum of units_i`, times `units_sold`, is `c` (as `rust_decimal` divides
/// and multiplies).
pub proof fn law_weighted_average_cost(lots: Seq<LotModel>, units_sold: u32, c: DecimalModel)
    requires
        WeightedAverage.cogs_relation(lots, units_sold, Ok(c)),
    ensures
        units_total_model(lots) matches Ok(held) && value_total_model(lots) matches Ok(value) && (decimal_div(
            value,
            int_model(held),
        ) matches Some(average) && decimal_mul(average, int_model(units_sold as int)) == Some(c)),
{
}

/// Selling every unit at the weighted average costs the value of all lots:
/// when the units sold are all the units held and no step rounds, the cost
/// of goods sold equals the sum of `units_i * unit_cost_i` over the lots.
pub proof fn law_weighted_average_sells_everything_at_total_value(
    lots: &[InventoryLot],
    units_sold: u32,
    res: Result<Money, CasifinError>,
)
    requires
        call_ensures(<WeightedAverage as InventoryMethod>::cogs, (&WeightedAverage, lots, units_sold), res),
        sells_all_exactly(lots_view(lots), units_sold),
    ensures
        res matches Ok(c) && c@.units() == value_total_model(lots_view(lots))->Ok_0.units(),
{
}

} // verus!
