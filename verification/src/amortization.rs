//! Amortization schedules for fixed-rate loans, and the parameters of an
//! adjustable-rate schedule.

use vstd::prelude::*;

use crate::config::{is_default_config, Config};
use crate::decimal::{
    abs_model, decimal_add, decimal_div, decimal_mul, decimal_sub, int_model, zero_model, Decimal, DecimalModel,
};
use crate::error::{
    fold_steps, lemma_fold_error_stays, ok_or_div_zero, ok_or_overflow, or_div_zero, or_overflow, result_view,
    then, CasifinError, ErrorModel,
};
use crate::money::{sum_models, Money};
use crate::rate::{PaymentDue, Rate};
use crate::tvm::pmt_model;

verus! {

broadcast use vstd::string::group_string_axioms;

/// The content of an [`AmortizationEntry`].
pub struct EntryModel {
    pub period: u32,
    pub payment: DecimalModel,
    pub principal: DecimalModel,
    pub interest: DecimalModel,
    pub balance: DecimalModel,
}

/// A single period of an amortization schedule.
#[derive(Debug, Clone, Copy, PartialEq)]
pub struct AmortizationEntry {
    /// The period number, from 1.
    pub period: u32,
    /// The total payment of the period.
    pub payment: Money,
    /// The principal part of the payment.
    pub principal: Money,
    /// The interest part of the payment.
    pub interest: Money,
    /// The balance left after the payment.
    pub balance: Money,
}

impl View for AmortizationEntry {
    type V = EntryModel;

    open spec fn view(&self) -> EntryModel {
        EntryModel {
            period: self.period,
            payment: self.payment@,
            principal: self.principal@,
            interest: self.interest@,
            balance: self.balance@,
        }
    }
}

/// The content of an [`AmortizationSchedule`].
pub struct ScheduleModel {
    pub entries: Seq<EntryModel>,
    pub total_payments: DecimalModel,
    pub total_interest: DecimalModel,
    pub total_principal: DecimalModel,
}

/// An amortization schedule: its entries and their totals.
#[derive(Debug, Clone, PartialEq)]
pub struct AmortizationSchedule {
    /// The entries, one per period paid.
    pub entries: Vec<AmortizationEntry>,
    /// The sum of the payments.
    pub total_payments: Money,
    /// The sum of the interest parts.
    pub total_interest: Money,
    /// The sum of the principal parts.
    pub total_principal: Money,
}

impl View for AmortizationSchedule {
    type V = ScheduleModel;

    open spec fn view(&self) -> ScheduleModel {
        ScheduleModel {
            entries: self.entries@.map_values(|e: AmortizationEntry| e@),
            total_payments: self.total_payments@,
            total_interest: self.total_interest@,
            total_principal: self.total_principal@,
        }
    }
}

/// A schedule without entries and with zero totals.
pub open spec fn empty_schedule() -> ScheduleModel {
    ScheduleModel {
        entries: Seq::empty(),
        total_payments: zero_model(),
        total_interest: zero_model(),
        total_principal: zero_model(),
    }
}

impl AmortizationSchedule {
    /// An empty schedule.
    pub fn new() -> (s: AmortizationSchedule)
        ensures
            s@ == empty_schedule(),
    {
        let s = AmortizationSchedule {
            entries: Vec::new(),
            total_payments: Money::zero(),
            total_interest: Money::zero(),
            total_principal: Money::zero(),
        };
        assert(s@.entries =~= Seq::<EntryModel>::empty());
        s
    }
}

impl Default for AmortizationSchedule {
    fn default() -> (s: AmortizationSchedule)
        ensures
            s@ == empty_schedule(),
    {
        AmortizationSchedule::new()
    }
}

// ---------------------------------------------------------------------------
// Generation
// ---------------------------------------------------------------------------

/// The state of a schedule being generated: the balance still owed and the
/// schedule so far.
pub struct GenState {
    pub balance: DecimalModel,
    pub schedule: ScheduleModel,
}

/// Period `t + 1` of a schedule with monthly rate `monthly_rate` over `term`
/// periods, paying `payments[t]`: nothing once the balance is paid off;
/// otherwise interest `balance * monthly_rate`, principal `payment - interest`;
/// in the last period, or once the balance would drop to zero or below, the
/// payment becomes what clears the balance exactly.
pub open spec fn gen_step(monthly_rate: DecimalModel, term: u32, payments: Seq<DecimalModel>) -> spec_fn(
    int,
    GenState,
) -> Result<GenState, ErrorModel> {
    |t: int, st: GenState|
        if st.balance.units() <= 0 {
            Ok(st)
        } else {
            then(
                or_overflow(decimal_mul(st.balance, monthly_rate), "amortization: interest overflow"),
                |interest: DecimalModel|
                    then(
                        or_overflow(decimal_sub(payments[t], interest), "amortization: principal overflow"),
                        |principal_payment: DecimalModel|
                            then(
                                or_overflow(decimal_sub(st.balance, principal_payment), "amortization: balance overflow"),
                                |remaining: DecimalModel|
                                    gen_close(st, term, t, payments[t], interest, principal_payment, remaining),
                            ),
                    ),
            )
        }
}

/// The end of a generation step: the entry and the new totals.
pub open spec fn gen_close(
    st: GenState,
    term: u32,
    t: int,
    payment: DecimalModel,
    interest: DecimalModel,
    principal_payment: DecimalModel,
    remaining: DecimalModel,
) -> Result<GenState, ErrorModel> {
    let last = remaining.units() <= 0 || t + 1 == term;
    then(
        if last {
            or_overflow(decimal_add(payment, remaining), "amortization: payment overflow")
        } else {
            Ok(payment)
        },
        |actual_payment: DecimalModel|
            {
                let actual_principal = if last {
                    st.balance
                } else {
                    principal_payment
                };
                let new_balance = if last {
                    zero_model()
                } else {
                    remaining
                };
                then(
                    or_overflow(
                        decimal_add(st.schedule.total_payments, actual_payment),
                        "amortization: total overflow",
                    ),
                    |total_payments: DecimalModel|
                        then(
                            or_overflow(
                                decimal_add(st.schedule.total_interest, interest),
                                "amortization: total overflow",
                            ),
                            |total_interest: DecimalModel|
                                then(
                                    or_overflow(
                                        decimal_add(st.schedule.total_principal, actual_principal),
                                        "amortization: total overflow",
                                    ),
                                    |total_principal: DecimalModel|
                                        Ok(
                                            GenState {
                                                balance: new_balance,
                                                schedule: ScheduleModel {
                                                    entries: st.schedule.entries.push(
                                                        EntryModel {
                                                            period: (t + 1) as u32,
                                                            payment: actual_payment,
                                                            principal: actual_principal,
                                                            interest,
                                                            balance: new_balance,
                                                        },
                                                    ),
                                                    total_payments,
                                                    total_interest,
                                                    total_principal,
                                                },
                                            },
                                        ),
                                ),
                        ),
                )
            },
    )
}

/// The first state: the whole principal owed, nothing scheduled.
pub open spec fn gen_init(principal: DecimalModel) -> GenState {
    GenState { balance: principal, schedule: empty_schedule() }
}

/// The monthly rate `annual_rate / 12`.
pub open spec fn monthly_rate_model(rate: Rate) -> Result<DecimalModel, ErrorModel> {
    or_div_zero(decimal_div(rate.annual_rate@, int_model(12)), "monthly rate")
}

/// The base payment: the absolute value of the annuity payment that repays
/// `principal` over `term` periods.
pub open spec fn base_payment_model(principal: DecimalModel, rate: Rate, term: u32) -> Result<
    DecimalModel,
    ErrorModel,
> {
    then(
        pmt_model(
            rate,
            term,
            DecimalModel { mantissa: -principal.mantissa, scale: principal.scale },
            zero_model(),
            PaymentDue::End,
        ),
        |p: DecimalModel| Ok(abs_model(p)),
    )
}

/// The schedule generated when period `t + 1` pays `payments[t]`.
pub open spec fn generate_model(principal: DecimalModel, rate: Rate, term: u32, payments: Seq<DecimalModel>) -> Result<
    ScheduleModel,
    ErrorModel,
> {
    then(
        monthly_rate_model(rate),
        |monthly_rate: DecimalModel|
            then(
                base_payment_model(principal, rate, term),
                |base: DecimalModel|
                    then(
                        fold_steps(gen_init(principal), term as nat, gen_step(monthly_rate, term, payments)),
                        |st: GenState| Ok(st.schedule),
                    ),
            ),
    )
}

/// Period `t + 1` reads its payment: the schedule so far succeeded, a
/// balance is still owed and its interest could be computed.
pub open spec fn payment_read(
    principal: DecimalModel,
    monthly_rate: DecimalModel,
    term: u32,
    payments: Seq<DecimalModel>,
    t: int,
) -> bool {
    match fold_steps(gen_init(principal), t as nat, gen_step(monthly_rate, term, payments)) {
        Ok(st) => st.balance.units() > 0 && decimal_mul(st.balance, monthly_rate) is Some,
        Err(_) => false,
    }
}

/// Once the balance is paid off, later periods change nothing.
proof fn lemma_gen_paid_off_stays(
    principal: DecimalModel,
    monthly_rate: DecimalModel,
    term: u32,
    payments: Seq<DecimalModel>,
    k: nat,
    m: nat,
)
    requires
        k <= m,
        fold_steps(gen_init(principal), k, gen_step(monthly_rate, term, payments)) matches Ok(st)
            && st.balance.units() <= 0,
    ensures
        fold_steps(gen_init(principal), m, gen_step(monthly_rate, term, payments)) == fold_steps(
            gen_init(principal),
            k,
            gen_step(monthly_rate, term, payments),
        ),
    decreases m - k,
{
    if k < m {
        lemma_gen_paid_off_stays(principal, monthly_rate, term, payments, k, (m - 1) as nat);
    }
}

/// Two payment plans that agree on every payment that is read give the same run.
proof fn lemma_gen_same_reads(
    principal: DecimalModel,
    monthly_rate: DecimalModel,
    term: u32,
    p1: Seq<DecimalModel>,
    p2: Seq<DecimalModel>,
    k: nat,
)
    requires
        forall|t: int| 0 <= t < k && payment_read(principal, monthly_rate, term, p1, t) ==> p1[t] == p2[t],
    ensures
        fold_steps(gen_init(principal), k, gen_step(monthly_rate, term, p1)) == fold_steps(
            gen_init(principal),
            k,
            gen_step(monthly_rate, term, p2),
        ),
    decreases k,
{
    if k > 0 {
        lemma_gen_same_reads(principal, monthly_rate, term, p1, p2, (k - 1) as nat);
        let t = k - 1;
        if payment_read(principal, monthly_rate, term, p1, t) {
            assert(p1[t] == p2[t]);
        }
    }
}

} // verus!

verus! {

/// Every payment that a run reads is one that `modifier` can return for its
/// period and the base payment.
pub open spec fn payments_from<F: Fn(u32, Money) -> Money>(
    modifier: F,
    principal: DecimalModel,
    rate: Rate,
    term: u32,
    payments: Seq<DecimalModel>,
) -> bool {
    match (monthly_rate_model(rate), base_payment_model(principal, rate, term)) {
        (Ok(monthly_rate), Ok(base)) => forall|t: int|
            0 <= t < term && #[trigger] payment_read(principal, monthly_rate, term, payments, t) ==> exists|
                b: Money,
                r: Money,
            | b@ == base && r@ == payments[t] && #[trigger] call_ensures(modifier, ((t + 1) as u32, b), r),
        _ => true,
    }
}

/// The content of an [`AmortizationBuilder`].
pub struct BuilderModel {
    pub principal: DecimalModel,
    pub rate: Rate,
    pub term_months: u32,
    pub config: Config,
}

/// Builds the amortization schedule of a fixed-rate loan.
#[derive(Debug, Clone, Copy)]
pub struct AmortizationBuilder {
    principal: Money,
    rate: Rate,
    term_months: u32,
    config: Config,
}

impl View for AmortizationBuilder {
    type V = BuilderModel;

    closed spec fn view(&self) -> BuilderModel {
        BuilderModel {
            principal: self.principal@,
            rate: self.rate,
            term_months: self.term_months,
            config: self.config,
        }
    }
}

/// The payment of every period when no modifier is set: the base payment.
fn keep_payment(period: u32, base: Money) -> (r: Money)
    ensures
        r == base,
{
    base
}

/// One period of the schedule, after its interest is known.
fn gen_close_exec(
    balance: Money,
    term: u32,
    t: u32,
    payment: Money,
    interest: Money,
    principal_payment: Money,
    remaining: Money,
    schedule: &mut AmortizationSchedule,
) -> (res: Result<Money, CasifinError>)
    requires
        t < term,
    ensures
        match gen_close(
            GenState { balance: balance@, schedule: old(schedule)@ },
            term,
            t as int,
            payment@,
            interest@,
            principal_payment@,
            remaining@,
        ) {
            Ok(st) => res matches Ok(b) && b@ == st.balance && final(schedule)@ == st.schedule,
            Err(e) => res matches Err(e2) && e2@ == e,
        },
{
    let last = remaining.is_negative() || remaining.is_zero() || t + 1 == term;
    let actual_payment = if last {
        match payment.checked_add(remaining) {
            Some(p) => p,
            None => {
                return Err(CasifinError::overflow("amortization: payment overflow"));
            },
        }
    } else {
        payment
    };
    let actual_principal = if last {
        balance
    } else {
        principal_payment
    };
    let new_balance = if last {
        Money::zero()
    } else {
        remaining
    };
    let total_payments = match schedule.total_payments.checked_add(actual_payment) {
        Some(v) => v,
        None => {
            return Err(CasifinError::overflow("amortization: total overflow"));
        },
    };
    let total_interest = match schedule.total_interest.checked_add(interest) {
        Some(v) => v,
        None => {
            return Err(CasifinError::overflow("amortization: total overflow"));
        },
    };
    let total_principal = match schedule.total_principal.checked_add(actual_principal) {
        Some(v) => v,
        None => {
            return Err(CasifinError::overflow("amortization: total overflow"));
        },
    };
    let entry = AmortizationEntry {
        period: t + 1,
        payment: actual_payment,
        principal: actual_principal,
        interest,
        balance: new_balance,
    };
    schedule.entries.push(entry);
    schedule.total_payments = total_payments;
    schedule.total_interest = total_interest;
    schedule.total_principal = total_principal;
    proof {
        assert(final(schedule)@.entries =~= old(schedule)@.entries.push(entry@));
    }
    Ok(new_balance)
}

/// After a failed run, no later period reads its payment.
proof fn lemma_reads_after_error(
    principal: DecimalModel,
    monthly_rate: DecimalModel,
    term: u32,
    payments: Seq<DecimalModel>,
    j: nat,
)
    requires
        fold_steps(gen_init(principal), j, gen_step(monthly_rate, term, payments)) is Err,
    ensures
        forall|k: int| j <= k ==> !#[trigger] payment_read(principal, monthly_rate, term, payments, k),
{
    assert forall|k: int| j <= k implies !#[trigger] payment_read(principal, monthly_rate, term, payments, k) by {
        lemma_fold_error_stays(gen_init(principal), j, k as nat, gen_step(monthly_rate, term, payments));
    }
}

/// One period with a balance still owed: principal `payment - interest`,
/// then the entry.
fn gen_one(
    balance: Money,
    payment: Money,
    interest: Money,
    term: u32,
    t: u32,
    schedule: &mut AmortizationSchedule,
) -> (res: Result<Money, CasifinError>)
    requires
        t < term,
    ensures
        match then(
            or_overflow(decimal_sub(payment@, interest@), "amortization: principal overflow"),
            |principal_payment: DecimalModel|
                then(
                    or_overflow(decimal_sub(balance@, principal_payment), "amortization: balance overflow"),
                    |remaining: DecimalModel|
                        gen_close(
                            GenState { balance: balance@, schedule: old(schedule)@ },
                            term,
                            t as int,
                            payment@,
                            interest@,
                            principal_payment,
                            remaining,
                        ),
                ),
        ) {
            Ok(st) => res matches Ok(b) && b@ == st.balance && final(schedule)@ == st.schedule,
            Err(e) => res matches Err(e2) && e2@ == e,
        },
{
    let principal_payment = match payment.checked_sub(interest) {
        Some(p) => p,
        None => {
            return Err(CasifinError::overflow("amortization: principal overflow"));
        },
    };
    let remaining = match balance.checked_sub(principal_payment) {
        Some(r) => r,
        None => {
            return Err(CasifinError::overflow("amortization: balance overflow"));
        },
    };
    gen_close_exec(balance, term, t, payment, interest, principal_payment, remaining, schedule)
}

impl AmortizationBuilder {
    /// A builder for a loan of `principal` at `rate` over `term_months`
    /// periods, with the default settings.
    pub fn new(principal: Money, rate: Rate, term_months: u32) -> (b: AmortizationBuilder)
        ensures
            b@.principal == principal@,
            b@.rate == rate,
            b@.term_months == term_months,
            is_default_config(b@.config),
    {
        AmortizationBuilder { principal, rate, term_months, config: Config::default() }
    }

    /// The builder with the solver settings `config`.
    pub fn with_config(self, config: Config) -> (b: AmortizationBuilder)
        ensures
            b@ == (BuilderModel { config, ..self@ }),
    {
        AmortizationBuilder { config, ..self }
    }

    /// The builder with a payment modifier: it receives the period number
    /// and the base payment and returns the payment of that period.
    pub fn with_payment_modifier<F: Fn(u32, Money) -> Money>(self, modifier: F) -> (b: ModifiedAmortizationBuilder<F>)
        ensures
            b.builder@ == self@,
            b.modifier == modifier,
    {
        ModifiedAmortizationBuilder { builder: self, modifier }
    }

    /// The monthly rate: the annual rate divided by 12.
    fn monthly_rate(&self) -> (res: Result<Decimal, CasifinError>)
        ensures
            result_view(res) == monthly_rate_model(self@.rate),
    {
        ok_or_div_zero(self.rate.annual_rate.checked_div(Decimal::from_u32(12)), "monthly rate")
    }

    /// Generates the schedule, asking `modifier` for the payment of each period.
    fn generate_schedule<F: Fn(u32, Money) -> Money>(&self, modifier: &F) -> (res: (
        Result<AmortizationSchedule, CasifinError>,
        Ghost<Seq<DecimalModel>>,
    ))
        requires
            forall|p: u32, m: Money| call_requires(*modifier, (p, m)),
        ensures
            res.1@.len() == self@.term_months,
            result_view(res.0) == generate_model(self@.principal, self@.rate, self@.term_months, res.1@),
            payments_from(*modifier, self@.principal, self@.rate, self@.term_months, res.1@),
    {
        let ghost principal = self@.principal;
        let ghost rate = self@.rate;
        let term = self.term_months;
        let monthly_rate = match self.monthly_rate() {
            Ok(r) => r,
            Err(e) => {
                return (Err(e), Ghost(Seq::new(term as nat, |i: int| zero_model())));
            },
        };
        let base_payment = match crate::tvm::pmt(self.rate, term, self.principal.neg(), Money::zero(), PaymentDue::End) {
            Ok(p) => p.abs(),
            Err(e) => {
                return (Err(e), Ghost(Seq::new(term as nat, |i: int| zero_model())));
            },
        };
        let ghost mr = monthly_rate@;
        let ghost base = base_payment@;
        let ghost mut payments: Seq<DecimalModel> = Seq::new(term as nat, |i: int| base);
        let mut schedule = AmortizationSchedule::new();
        let mut balance = self.principal;
        let mut t: u32 = 0;
        while t < term
            invariant
                term == self@.term_months,
                principal == self@.principal,
                rate == self@.rate,
                monthly_rate_model(rate) == Ok::<DecimalModel, ErrorModel>(mr),
                base_payment_model(principal, rate, term) == Ok::<DecimalModel, ErrorModel>(base),
                monthly_rate@ == mr,
                base_payment@ == base,
                forall|p: u32, m: Money| call_requires(*modifier, (p, m)),
                payments.len() == term,
                0 <= t <= term,
                fold_steps(gen_init(principal), t as nat, gen_step(mr, term, payments)) == Ok::<
                    GenState,
                    ErrorModel,
                >(GenState { balance: balance@, schedule: schedule@ }),
                forall|k: int|
                    0 <= k < t && #[trigger] payment_read(principal, mr, term, payments, k) ==> exists|
                        b: Money,
                        r: Money,
                    | b@ == base && r@ == payments[k] && #[trigger] call_ensures(*modifier, ((k + 1) as u32, b), r),
            ensures
                payments.len() == term,
                fold_steps(gen_init(principal), term as nat, gen_step(mr, term, payments)) == Ok::<
                    GenState,
                    ErrorModel,
                >(GenState { balance: balance@, schedule: schedule@ }),
                forall|k: int|
                    0 <= k < term && #[trigger] payment_read(principal, mr, term, payments, k) ==> exists|
                        b: Money,
                        r: Money,
                    | b@ == base && r@ == payments[k] && #[trigger] call_ensures(*modifier, ((k + 1) as u32, b), r),
            decreases term - t,
        {
            let ghost before = GenState { balance: balance@, schedule: schedule@ };
            if balance.is_negative() || balance.is_zero() {
                proof {
                    lemma_gen_paid_off_stays(principal, mr, term, payments, t as nat, term as nat);
                    assert forall|k: int|
                        0 <= k < term && #[trigger] payment_read(principal, mr, term, payments, k) implies exists|
                            b: Money,
                            r: Money,
                        | b@ == base && r@ == payments[k] && #[trigger] call_ensures(*modifier, ((k + 1) as u32, b), r) by {
                        if k >= t {
                            lemma_gen_paid_off_stays(principal, mr, term, payments, t as nat, k as nat);
                        }
                    }
                }
                break;
            }
            let interest = match balance.inner().checked_mul(monthly_rate) {
                Some(i) => Money::from_decimal(i),
                None => {
                    proof {
                        assert(fold_steps(gen_init(principal), (t + 1) as nat, gen_step(mr, term, payments)) == gen_step(
                            mr,
                            term,
                            payments,
                        )(t as int, before));
                        lemma_reads_after_error(principal, mr, term, payments, (t + 1) as nat);
                        lemma_fold_error_stays(gen_init(principal), (t + 1) as nat, term as nat, gen_step(mr, term, payments));
                    }
                    return (Err(CasifinError::overflow("amortization: interest overflow")), Ghost(payments));
                },
            };
            let payment = modifier(t + 1, base_payment);
            let ghost old_payments = payments;
            proof {
                payments = payments.update(t as int, payment@);
                assert forall|k: int| 0 <= k <= t implies #[trigger] fold_steps(gen_init(principal), k as nat, gen_step(mr, term, payments))
                    == fold_steps(gen_init(principal), k as nat, gen_step(mr, term, old_payments)) by {
                    lemma_gen_same_reads(principal, mr, term, payments, old_payments, k as nat);
                }
                assert forall|k: int|
                    0 <= k < t + 1 && #[trigger] payment_read(principal, mr, term, payments, k) implies exists|
                        b: Money,
                        r: Money,
                    | b@ == base && r@ == payments[k] && #[trigger] call_ensures(*modifier, ((k + 1) as u32, b), r) by {
                    if k < t {
                        assert(payment_read(principal, mr, term, old_payments, k));
                    } else {
                        assert(call_ensures(*modifier, ((k + 1) as u32, base_payment), payment));
                    }
                }
                assert(payment_read(principal, mr, term, payments, t as int));
            }
            let step = gen_one(balance, payment, interest, term, t, &mut schedule);
            proof {
                assert(fold_steps(gen_init(principal), (t + 1) as nat, gen_step(mr, term, payments)) == gen_step(
                    mr,
                    term,
                    payments,
                )(t as int, before));
            }
            match step {
                Ok(b) => {
                    balance = b;
                },
                Err(e) => {
                    proof {
                        lemma_reads_after_error(principal, mr, term, payments, (t + 1) as nat);
                        lemma_fold_error_stays(gen_init(principal), (t + 1) as nat, term as nat, gen_step(mr, term, payments));
                    }
                    return (Err(e), Ghost(payments));
                },
            }
            t = t + 1;
        }
        (Ok(schedule), Ghost(payments))
    }
}

/// An [`AmortizationBuilder`] with a payment modifier.
pub struct ModifiedAmortizationBuilder<F> {
    pub builder: AmortizationBuilder,
    pub modifier: F,
}

} // verus!

verus! {

// ---------------------------------------------------------------------------
// Consistency checks
// ---------------------------------------------------------------------------

/// How an amount is written in a message: `$` and two decimal places.
pub open spec fn money_text(m: DecimalModel) -> Seq<char> {
    "$"@ + crate::decimal::decimal_text_2dp(m)
}

/// The balance after the last entry, or zero for an empty schedule.
pub open spec fn final_balance_model(s: ScheduleModel) -> DecimalModel {
    if s.entries.len() == 0 {
        zero_model()
    } else {
        s.entries.last().balance
    }
}

/// `a - (b + c)`, with the overflow error of the checks.
pub open spec fn identity_gap(a: DecimalModel, b: DecimalModel, c: DecimalModel) -> Result<DecimalModel, ErrorModel> {
    then(
        or_overflow(decimal_add(b, c), "amortization: verification overflow"),
        |bc: DecimalModel| or_overflow(decimal_sub(a, bc), "amortization: verification overflow"),
    )
}

/// Check of entry `i`: `|payment - (principal + interest)| <= eps`.
pub open spec fn entry_check_step(eps: DecimalModel, entries: Seq<EntryModel>) -> spec_fn(int, ()) -> Result<
    (),
    ErrorModel,
> {
    |i: int, u: ()|
        then(
            identity_gap(entries[i].payment, entries[i].principal, entries[i].interest),
            |gap: DecimalModel|
                if abs_model(gap).units() > eps.units() {
                    Err(
                        ErrorModel::ScheduleOverflow {
                            detail: "entry "@ + crate::text::u32_text(entries[i].period)
                                + " payment identity violated: payment="@ + money_text(entries[i].payment)
                                + ", principal+interest="@ + money_text(
                                match decimal_add(entries[i].principal, entries[i].interest) {
                                    Some(x) => x,
                                    None => zero_model(),
                                },
                            ),
                        },
                    )
                } else {
                    Ok(())
                },
        )
}

/// What the consistency checks of a built schedule return: the final
/// balance, the total principal against the loan, the totals identity and
/// each entry's identity must each be within `eps`.
pub open spec fn verify_model(principal: DecimalModel, eps: DecimalModel, s: ScheduleModel) -> Result<(), ErrorModel> {
    let final_balance = final_balance_model(s);
    if abs_model(final_balance).units() > eps.units() {
        Err(
            ErrorModel::ScheduleOverflow {
                detail: "amortization did not fully pay off: balance="@ + money_text(final_balance),
            },
        )
    } else {
        then(
            or_overflow(decimal_sub(s.total_principal, principal), "amortization: verification overflow"),
            |principal_diff: DecimalModel|
                if abs_model(principal_diff).units() > eps.units() {
                    Err(
                        ErrorModel::ScheduleOverflow {
                            detail: "total principal "@ + money_text(s.total_principal)
                                + " does not match original principal "@ + money_text(principal),
                        },
                    )
                } else {
                    then(
                        identity_gap(s.total_payments, s.total_principal, s.total_interest),
                        |payments_diff: DecimalModel|
                            if abs_model(payments_diff).units() > eps.units() {
                                Err(
                                    ErrorModel::ScheduleOverflow {
                                        detail: "payment/principal/interest identity violated"@,
                                    },
                                )
                            } else {
                                fold_steps((), s.entries.len(), entry_check_step(eps, s.entries))
                            },
                    )
                },
        )
    }
}

/// `|a - (b + c)|` is computed and at most `eps`.
pub open spec fn gap_within(a: DecimalModel, b: DecimalModel, c: DecimalModel, eps: DecimalModel) -> bool {
    identity_gap(a, b, c) matches Ok(gap) && abs_model(gap).units() <= eps.units()
}

/// A schedule that passes its checks: it pays off to within `eps`, its
/// principal parts add up to the loan to within `eps`, and every payment,
/// and the total of the payments, is its principal plus its interest to
/// within `eps`.
pub open spec fn schedule_consistent(principal: DecimalModel, eps: DecimalModel, s: ScheduleModel) -> bool {
    &&& abs_model(final_balance_model(s)).units() <= eps.units()
    &&& decimal_sub(s.total_principal, principal) matches Some(d) && abs_model(d).units() <= eps.units()
    &&& gap_within(s.total_payments, s.total_principal, s.total_interest, eps)
    &&& forall|i: int|
        0 <= i < s.entries.len() ==> gap_within(
            (#[trigger] s.entries[i]).payment,
            s.entries[i].principal,
            s.entries[i].interest,
            eps,
        )
}

proof fn lemma_entry_checks(eps: DecimalModel, entries: Seq<EntryModel>, k: nat)
    requires
        k <= entries.len(),
        fold_steps((), k, entry_check_step(eps, entries)) is Ok,
    ensures
        forall|i: int|
            0 <= i < k ==> gap_within(
                (#[trigger] entries[i]).payment,
                entries[i].principal,
                entries[i].interest,
                eps,
            ),
    decreases k,
{
    if k > 0 {
        let prev = fold_steps((), (k - 1) as nat, entry_check_step(eps, entries));
        if prev is Err {
            lemma_fold_error_stays((), (k - 1) as nat, k, entry_check_step(eps, entries));
        }
        lemma_entry_checks(eps, entries, (k - 1) as nat);
    }
}

/// A schedule that passes the checks is consistent.
proof fn lemma_verified_is_consistent(principal: DecimalModel, eps: DecimalModel, s: ScheduleModel)
    requires
        verify_model(principal, eps, s) is Ok,
    ensures
        schedule_consistent(principal, eps, s),
{
    lemma_entry_checks(eps, s.entries, s.entries.len());
}

fn abs_above(x: Decimal, eps: Decimal) -> (b: bool)
    ensures
        b == (abs_model(x@).units() > eps@.units()),
{
    let a = x.abs();
    a.gt(&eps)
}

fn gap(a: Money, b: Money, c: Money) -> (res: Result<Decimal, CasifinError>)
    ensures
        result_view(res) == identity_gap(a@, b@, c@),
{
    let bc = ok_or_overflow(b.inner().checked_add(c.inner()), "amortization: verification overflow")?;
    ok_or_overflow(a.inner().checked_sub(bc), "amortization: verification overflow")
}

fn entry_check(eps: Decimal, entry: &AmortizationEntry) -> (res: Result<(), CasifinError>)
    ensures
        result_view(res) == entry_check_step(eps@, seq![entry@])(0, ()),
{
    let g = gap(entry.payment, entry.principal, entry.interest)?;
    if abs_above(g, eps) {
        let sum = match entry.principal.checked_add(entry.interest) {
            Some(x) => x,
            None => Money::zero(),
        };
        let mut detail = crate::text::concat("entry ".to_string(), crate::text::u32_to_text(entry.period).as_str());
        detail = crate::text::concat(detail, " payment identity violated: payment=");
        detail = crate::text::concat(detail, entry.payment.to_display_string().as_str());
        detail = crate::text::concat(detail, ", principal+interest=");
        detail = crate::text::concat(detail, sum.to_display_string().as_str());
        return Err(CasifinError::ScheduleOverflow { detail });
    }
    Ok(())
}

impl AmortizationBuilder {
    /// Checks a generated schedule: see [`verify_model`].
    fn verify_invariants(&self, schedule: &AmortizationSchedule) -> (res: Result<(), CasifinError>)
        ensures
            result_view(res) == verify_model(self@.principal, self@.config.eps@, schedule@),
    {
        let eps = self.config.eps;
        let n = schedule.entries.len();
        let final_balance = if n == 0 {
            Money::zero()
        } else {
            schedule.entries[n - 1].balance
        };
        assert(final_balance@ == final_balance_model(schedule@));
        if abs_above(final_balance.inner(), eps) {
            let detail = crate::text::concat(
                "amortization did not fully pay off: balance=".to_string(),
                final_balance.to_display_string().as_str(),
            );
            return Err(CasifinError::ScheduleOverflow { detail });
        }
        let principal_diff = ok_or_overflow(
            schedule.total_principal.inner().checked_sub(self.principal.inner()),
            "amortization: verification overflow",
        )?;
        if abs_above(principal_diff, eps) {
            let mut detail = crate::text::concat(
                "total principal ".to_string(),
                schedule.total_principal.to_display_string().as_str(),
            );
            detail = crate::text::concat(detail, " does not match original principal ");
            detail = crate::text::concat(detail, self.principal.to_display_string().as_str());
            return Err(CasifinError::ScheduleOverflow { detail });
        }
        let payments_diff = gap(schedule.total_payments, schedule.total_principal, schedule.total_interest)?;
        if abs_above(payments_diff, eps) {
            return Err(CasifinError::overflow("payment/principal/interest identity violated"));
        }
        let ghost entries = schedule@.entries;
        assert(verify_model(self@.principal, eps@, schedule@) == fold_steps(
            (),
            n as nat,
            entry_check_step(eps@, entries),
        ));
        let mut i: usize = 0;
        while i < n
            invariant
                verify_model(self@.principal, eps@, schedule@) == fold_steps(
                    (),
                    n as nat,
                    entry_check_step(eps@, entries),
                ),
                n == schedule.entries@.len(),
                entries == schedule@.entries,
                eps == self.config.eps,
                0 <= i <= n,
                fold_steps((), i as nat, entry_check_step(eps@, entries)) == Ok::<(), ErrorModel>(()),
            decreases n - i,
        {
            let r = entry_check(eps, &schedule.entries[i]);
            proof {
                assert(entries[i as int] == schedule.entries@[i as int]@);
                assert(entry_check_step(eps@, seq![schedule.entries@[i as int]@])(0, ()) == entry_check_step(
                    eps@,
                    entries,
                )(i as int, ()));
                assert(fold_steps((), (i + 1) as nat, entry_check_step(eps@, entries)) == entry_check_step(
                    eps@,
                    entries,
                )(i as int, ()));
            }
            match r {
                Ok(_) => {},
                Err(e) => {
                    proof {
                        lemma_fold_error_stays((), (i + 1) as nat, n as nat, entry_check_step(eps@, entries));
                    }
                    return Err(e);
                },
            }
            i = i + 1;
        }
        Ok(())
    }
}

} // verus!

verus! {

// ---------------------------------------------------------------------------
// Building
// ---------------------------------------------------------------------------

/// What building returns when period `t + 1` pays `payments[t]`: a loan
/// that is not positive and a term of zero are refused; otherwise the
/// generated schedule, if it passes its checks.
pub open spec fn build_model(b: BuilderModel, payments: Seq<DecimalModel>) -> Result<ScheduleModel, ErrorModel> {
    if b.principal.units() <= 0 {
        Err(ErrorModel::InvalidAmount(b.principal))
    } else if b.term_months == 0 {
        Err(ErrorModel::InvalidPeriod(0))
    } else {
        then(
            generate_model(b.principal, b.rate, b.term_months, payments),
            |s: ScheduleModel| then(verify_model(b.principal, b.config.eps@, s), |u: ()| Ok(s)),
        )
    }
}

/// Every period pays the base payment.
pub open spec fn base_payments(b: BuilderModel) -> Seq<DecimalModel> {
    Seq::new(
        b.term_months as nat,
        |i: int|
            match base_payment_model(b.principal, b.rate, b.term_months) {
                Ok(x) => x,
                Err(_) => zero_model(),
            },
    )
}

impl AmortizationBuilder {
    /// Builds the schedule: every period pays the base payment, the last
    /// (or the one that would overpay) pays exactly what is owed.  A loan
    /// that is not positive, a term of zero and a schedule that fails its
    /// checks are refused.
    pub fn build(self) -> (res: Result<AmortizationSchedule, CasifinError>)
        ensures
            result_view(res) == build_model(self@, base_payments(self@)),
            res matches Ok(s) ==> schedule_consistent(self@.principal, self@.config.eps@, s@),
    {
        if self.principal.is_negative() || self.principal.is_zero() {
            return Err(CasifinError::InvalidAmount(self.principal));
        }
        if self.term_months == 0 {
            return Err(CasifinError::InvalidPeriod(0));
        }
        let (generated, Ghost(payments)) = self.generate_schedule(&keep_payment);
        proof {
            let b = self@;
            match (monthly_rate_model(b.rate), base_payment_model(b.principal, b.rate, b.term_months)) {
                (Ok(mr), Ok(base)) => {
                    assert forall|t: int|
                        0 <= t < b.term_months && payment_read(b.principal, mr, b.term_months, payments, t) implies payments[t]
                        == base_payments(b)[t] by {
                        assert(payment_read(b.principal, mr, b.term_months, payments, t));
                        let (bm, rm) = choose|bm: Money, rm: Money|
                            bm@ == base && rm@ == payments[t] && #[trigger] call_ensures(
                                keep_payment,
                                ((t + 1) as u32, bm),
                                rm,
                            );
                        assert(rm == bm);
                    }
                    lemma_gen_same_reads(b.principal, mr, b.term_months, payments, base_payments(b), b.term_months as nat);
                },
                _ => {},
            }
        }
        let schedule = generated?;
        let checked = self.verify_invariants(&schedule);
        proof {
            if checked is Ok {
                lemma_verified_is_consistent(self@.principal, self@.config.eps@, schedule@);
            }
        }
        checked?;
        Ok(schedule)
    }
}

impl<F: Fn(u32, Money) -> Money> ModifiedAmortizationBuilder<F> {
    /// The builder with the solver settings `config`.
    pub fn with_config(self, config: Config) -> (b: ModifiedAmortizationBuilder<F>)
        ensures
            b.builder@ == (BuilderModel { config, ..self.builder@ }),
            b.modifier == self.modifier,
    {
        ModifiedAmortizationBuilder { builder: self.builder.with_config(config), modifier: self.modifier }
    }

    /// Builds the schedule as [`AmortizationBuilder::build`] does, except
    /// that each period pays what the modifier returns for its period and
    /// the base payment.
    pub fn build(self) -> (res: Result<AmortizationSchedule, CasifinError>)
        requires
            forall|p: u32, m: Money| call_requires(self.modifier, (p, m)),
        ensures
            exists|payments: Seq<DecimalModel>|
                result_view(res) == #[trigger] build_model(self.builder@, payments) && (self.builder@.principal.units()
                    > 0 && self.builder@.term_months > 0 ==> payments_from(
                    self.modifier,
                    self.builder@.principal,
                    self.builder@.rate,
                    self.builder@.term_months,
                    payments,
                )),
            res matches Ok(s) ==> schedule_consistent(self.builder@.principal, self.builder@.config.eps@, s@),
    {
        let b = self.builder;
        if b.principal.is_negative() || b.principal.is_zero() {
            assert(result_view(Err::<AmortizationSchedule, CasifinError>(CasifinError::InvalidAmount(b.principal)))
                == build_model(self.builder@, Seq::empty()));
            return Err(CasifinError::InvalidAmount(b.principal));
        }
        if b.term_months == 0 {
            assert(result_view(Err::<AmortizationSchedule, CasifinError>(CasifinError::InvalidPeriod(0)))
                == build_model(self.builder@, Seq::empty()));
            return Err(CasifinError::InvalidPeriod(0));
        }
        let (generated, Ghost(payments)) = b.generate_schedule(&self.modifier);
        let schedule = match generated {
            Ok(s) => s,
            Err(e) => {
                assert(result_view(Err::<AmortizationSchedule, CasifinError>(e)) == build_model(self.builder@, payments));
                return Err(e);
            },
        };
        let checked = b.verify_invariants(&schedule);
        proof {
            if checked is Ok {
                lemma_verified_is_consistent(b@.principal, b@.config.eps@, schedule@);
            }
        }
        match checked {
            Ok(_) => {
                assert(result_view(Ok::<AmortizationSchedule, CasifinError>(schedule)) == build_model(self.builder@, payments));
                Ok(schedule)
            },
            Err(e) => {
                assert(result_view(Err::<AmortizationSchedule, CasifinError>(e)) == build_model(self.builder@, payments));
                Err(e)
            },
        }
    }
}


/// The principal parts of the entries, in order.
pub open spec fn principal_parts(s: ScheduleModel) -> Seq<DecimalModel> {
    s.entries.map_values(|e: EntryModel| e.principal)
}

/// The interest parts of the entries, in order.
pub open spec fn interest_parts(s: ScheduleModel) -> Seq<DecimalModel> {
    s.entries.map_values(|e: EntryModel| e.interest)
}

/// The payments of the entries, in order.
pub open spec fn payment_parts(s: ScheduleModel) -> Seq<DecimalModel> {
    s.entries.map_values(|e: EntryModel| e.payment)
}

/// Each total of the schedule is the running sum of its entries' parts.
pub open spec fn totals_are_sums(s: ScheduleModel) -> bool {
    &&& sum_models(payment_parts(s)) == Some(s.total_payments)
    &&& sum_models(interest_parts(s)) == Some(s.total_interest)
    &&& sum_models(principal_parts(s)) == Some(s.total_principal)
}

proof fn lemma_gen_totals(
    principal: DecimalModel,
    monthly_rate: DecimalModel,
    term: u32,
    payments: Seq<DecimalModel>,
    k: nat,
)
    ensures
        fold_steps(gen_init(principal), k, gen_step(monthly_rate, term, payments)) matches Ok(st)
            ==> totals_are_sums(st.schedule),
    decreases k,
{
    let step = gen_step(monthly_rate, term, payments);
    if k == 0 {
        assert(principal_parts(empty_schedule()) =~= Seq::<DecimalModel>::empty());
        assert(interest_parts(empty_schedule()) =~= Seq::<DecimalModel>::empty());
        assert(payment_parts(empty_schedule()) =~= Seq::<DecimalModel>::empty());
    } else {
        lemma_gen_totals(principal, monthly_rate, term, payments, (k - 1) as nat);
        let prev = fold_steps(gen_init(principal), (k - 1) as nat, step);
        if let Ok(st0) = prev {
            let t = k - 1;
            if st0.balance.units() > 0 {
                if let Some(interest) = decimal_mul(st0.balance, monthly_rate) {
                    if let Some(pp) = decimal_sub(payments[t], interest) {
                        if let Some(remaining) = decimal_sub(st0.balance, pp) {
                            let r = gen_close(st0, term, t, payments[t], interest, pp, remaining);
                            assert(step(t, st0) == r);
                            if let Ok(st) = r {
                                let e = st.schedule.entries.last();
                                assert(st.schedule.entries == st0.schedule.entries.push(e));
                                assert(principal_parts(st.schedule).drop_last() =~= principal_parts(st0.schedule));
                                assert(interest_parts(st.schedule).drop_last() =~= interest_parts(st0.schedule));
                                assert(payment_parts(st.schedule).drop_last() =~= payment_parts(st0.schedule));
                            }
                        }
                    }
                }
            }
        }
    }
}

/// Each total of a schedule that a builder produces is the running sum of
/// its entries' parts, as `rust_decimal` adds them: the total payments sum
/// the payments, the total interest sums the interest parts and the total
/// principal sums the principal parts.
pub proof fn law_schedule_totals_are_sums(b: BuilderModel, payments: Seq<DecimalModel>)
    requires
        build_model(b, payments) is Ok,
    ensures
        totals_are_sums(build_model(b, payments)->Ok_0),
{
    let mr = monthly_rate_model(b.rate)->Ok_0;
    lemma_gen_totals(b.principal, mr, b.term_months, payments, b.term_months as nat);
}

/// The balance owed before entry `i`: the principal before the first entry,
/// otherwise the balance the entry before left.
pub open spec fn balance_before(principal: DecimalModel, entries: Seq<EntryModel>, i: int) -> DecimalModel {
    if i == 0 {
        principal
    } else {
        entries[i - 1].balance
    }
}

/// Entry `i` follows from the balance before it: it is period `i + 1`, its
/// interest is that balance times the monthly rate, and either a balance
/// is still owed after it, in which case it paid `payments[i]`, its
/// principal part is that payment less the interest and the new balance is
/// the old one less the principal part, all before the last period; or it
/// is the last entry, which pays off the whole balance and leaves zero.
pub open spec fn entry_follows(
    principal: DecimalModel,
    monthly_rate: DecimalModel,
    term: u32,
    payments: Seq<DecimalModel>,
    entries: Seq<EntryModel>,
    i: int,
) -> bool {
    let b = balance_before(principal, entries, i);
    let e = entries[i];
    &&& e.period == i + 1
    &&& b.units() > 0
    &&& decimal_mul(b, monthly_rate) == Some(e.interest)
    &&& if e.balance.units() > 0 {
        &&& e.period < term
        &&& e.payment == payments[i]
        &&& decimal_sub(e.payment, e.interest) == Some(e.principal)
        &&& decimal_sub(b, e.principal) == Some(e.balance)
    } else {
        &&& e.balance == zero_model()
        &&& e.principal == b
    }
}

/// Every entry follows from the one before, every entry but the last leaves
/// a balance owed, and the last leaves none.
pub open spec fn schedule_follows(
    principal: DecimalModel,
    monthly_rate: DecimalModel,
    term: u32,
    payments: Seq<DecimalModel>,
    entries: Seq<EntryModel>,
) -> bool {
    &&& forall|i: int|
        0 <= i < entries.len() ==> #[trigger] entry_follows(principal, monthly_rate, term, payments, entries, i)
    &&& forall|i: int| 0 <= i < entries.len() - 1 ==> (#[trigger] entries[i]).balance.units() > 0
}

proof fn lemma_gen_follows(
    principal: DecimalModel,
    monthly_rate: DecimalModel,
    term: u32,
    payments: Seq<DecimalModel>,
    k: nat,
)
    requires
        principal.units() > 0,
        k <= term,
    ensures
        fold_steps(gen_init(principal), k, gen_step(monthly_rate, term, payments)) matches Ok(st) ==> {
            let entries = st.schedule.entries;
            &&& entries.len() <= k
            &&& schedule_follows(principal, monthly_rate, term, payments, entries)
            &&& st.balance == balance_before(principal, entries, entries.len() as int)
            &&& st.balance.units() > 0 ==> entries.len() == k
        },
    decreases k,
{
    let step = gen_step(monthly_rate, term, payments);
    if k > 0 {
        lemma_gen_follows(principal, monthly_rate, term, payments, (k - 1) as nat);
        let prev = fold_steps(gen_init(principal), (k - 1) as nat, step);
        if let Ok(st0) = prev {
            let t = k - 1;
            let entries0 = st0.schedule.entries;
            if st0.balance.units() > 0 {
                if let Some(interest) = decimal_mul(st0.balance, monthly_rate) {
                    if let Some(pp) = decimal_sub(payments[t], interest) {
                        if let Some(remaining) = decimal_sub(st0.balance, pp) {
                            let r = gen_close(st0, term, t, payments[t], interest, pp, remaining);
                            assert(step(t, st0) == r);
                            if let Ok(st) = r {
                                let entries = st.schedule.entries;
                                let e = entries.last();
                                assert(entries == entries0.push(e));
                                assert forall|i: int| 0 <= i < entries.len() implies #[trigger] entry_follows(
                                    principal,
                                    monthly_rate,
                                    term,
                                    payments,
                                    entries,
                                    i,
                                ) by {
                                    if i < entries0.len() {
                                        assert(entry_follows(principal, monthly_rate, term, payments, entries0, i));
                                        assert(entries[i] == entries0[i]);
                                        if i > 0 {
                                            assert(entries[i - 1] == entries0[i - 1]);
                                        }
                                    } else {
                                        assert(entries0.len() == t);
                                        assert(balance_before(principal, entries, i) == st0.balance) by {
                                            if i > 0 {
                                                assert(entries[i - 1] == entries0[i - 1]);
                                            }
                                        }
                                        let last = remaining.units() <= 0 || t + 1 == term;
                                        if last {
                                            assert(e.balance == zero_model());
                                            assert(e.principal == st0.balance);
                                            assert(e.period == i + 1);
                                            assert(entries[i] == e);
                                            crate::decimal::lemma_units_sign(zero_model());
                                        } else {
                                            assert(e.balance == remaining);
                                            assert(e.payment == payments[t]);
                                            assert(e.principal == pp);
                                            assert(e.period == i + 1);
                                            assert(entries[i] == e);
                                            assert(e.period < term);
                                        }
                                    }
                                }
                                assert forall|i: int| 0 <= i < entries.len() - 1 implies (
                                #[trigger] entries[i]).balance.units() > 0 by {
                                    if i < entries0.len() - 1 {
                                        assert(entries[i] == entries0[i]);
                                    } else {
                                        assert(i == entries0.len() - 1);
                                        assert(entries[i] == entries0[i]);
                                    }
                                }
                            }
                        }
                    }
                }
            }
        }
    }
}

/// The schedule a builder produces follows the amortization recurrence:
/// it has between one and `term_months` entries; entry `i` is period
/// `i + 1`, charges the balance before it times the monthly rate as
/// interest and, until the last, pays the period's payment, of which the
/// part above the interest reduces the balance; the last entry pays off
/// what is left, and only it leaves no balance.
pub proof fn law_schedule_follows_recurrence(b: BuilderModel, payments: Seq<DecimalModel>)
    requires
        build_model(b, payments) is Ok,
    ensures
        monthly_rate_model(b.rate) matches Ok(mr) && {
            let entries = build_model(b, payments)->Ok_0.entries;
            &&& 1 <= entries.len() <= b.term_months
            &&& schedule_follows(b.principal, mr, b.term_months, payments, entries)
            &&& entries.last().balance == zero_model()
        },
{
    let mr = monthly_rate_model(b.rate)->Ok_0;
    let term = b.term_months;
    lemma_gen_follows(b.principal, mr, term, payments, term as nat);
    let st = fold_steps(gen_init(b.principal), term as nat, gen_step(mr, term, payments))->Ok_0;
    let entries = st.schedule.entries;
    if entries.len() == 0 {
        assert(st.balance == b.principal);
    } else {
        let n = entries.len() as int;
        assert(entry_follows(b.principal, mr, term, payments, entries, n - 1));
        if st.balance.units() > 0 {
            assert(entries.len() == term);
        }
    }
}

} // verus!

verus! {

// ---------------------------------------------------------------------------
// Adjustable-rate parameters
// ---------------------------------------------------------------------------

/// The content of an [`ArmSchedule`].
pub struct ArmModel {
    pub adjustments: Seq<(u32, Rate)>,
    pub periodic_cap: Option<DecimalModel>,
    pub lifetime_cap: Option<DecimalModel>,
    pub lifetime_floor: Option<DecimalModel>,
}

/// The parameters of an adjustable-rate mortgage: the rate changes and the
/// caps and floor that bound them.
#[derive(Debug, Clone)]
pub struct ArmSchedule {
    /// The periods at which the rate changes, with the new rate.
    pub adjustments: Vec<(u32, Rate)>,
    /// The largest change of one adjustment.
    pub periodic_cap: Option<Decimal>,
    /// The highest rate over the life of the loan.
    pub lifetime_cap: Option<Decimal>,
    /// The lowest rate over the life of the loan.
    pub lifetime_floor: Option<Decimal>,
}

impl View for ArmSchedule {
    type V = ArmModel;

    open spec fn view(&self) -> ArmModel {
        ArmModel {
            adjustments: self.adjustments@,
            periodic_cap: crate::decimal::opt_view(self.periodic_cap),
            lifetime_cap: crate::decimal::opt_view(self.lifetime_cap),
            lifetime_floor: crate::decimal::opt_view(self.lifetime_floor),
        }
    }
}

impl ArmSchedule {
    /// Parameters without adjustments, caps or floor.
    pub fn new() -> (a: ArmSchedule)
        ensures
            a@.adjustments.len() == 0,
            a@.periodic_cap is None,
            a@.lifetime_cap is None,
            a@.lifetime_floor is None,
    {
        ArmSchedule { adjustments: Vec::new(), periodic_cap: None, lifetime_cap: None, lifetime_floor: None }
    }

    /// Adds a change to `rate` at `period`, after the earlier ones.
    pub fn with_adjustment(self, period: u32, rate: Rate) -> (a: ArmSchedule)
        ensures
            a@ == (ArmModel { adjustments: self@.adjustments.push((period, rate)), ..self@ }),
    {
        let mut a = self;
        a.adjustments.push((period, rate));
        a
    }

    /// Sets the largest change of one adjustment.
    pub fn with_periodic_cap(self, cap: Decimal) -> (a: ArmSchedule)
        ensures
            a@ == (ArmModel { periodic_cap: Some(cap@), ..self@ }),
    {
        ArmSchedule { periodic_cap: Some(cap), ..self }
    }

    /// Sets the highest rate over the life of the loan.
    pub fn with_lifetime_cap(self, cap: Decimal) -> (a: ArmSchedule)
        ensures
            a@ == (ArmModel { lifetime_cap: Some(cap@), ..self@ }),
    {
        ArmSchedule { lifetime_cap: Some(cap), ..self }
    }

    /// Sets the lowest rate over the life of the loan.
    pub fn with_lifetime_floor(self, floor: Decimal) -> (a: ArmSchedule)
        ensures
            a@ == (ArmModel { lifetime_floor: Some(floor@), ..self@ }),
    {
        ArmSchedule { lifetime_floor: Some(floor), ..self }
    }
}

impl Default for ArmSchedule {
    fn default() -> (a: ArmSchedule)
        ensures
            a@.adjustments.len() == 0,
            a@.periodic_cap is None,
            a@.lifetime_cap is None,
            a@.lifetime_floor is None,
    {
        ArmSchedule::new()
    }
}

} // verus!
