//! A single entry point that carries the solver settings.

use vstd::prelude::*;

use crate::amortization::{AmortizationBuilder, BuilderModel};
use crate::cashflow::{irr, irr_model, npv, npv_model, xirr, xirr_model, xnpv, xnpv_model, CashFlowStream};
use crate::config::{is_default_config, Config};
use crate::decimal::Decimal;
use crate::error::{result_view, CasifinError};
use crate::money::Money;
use crate::rate::{PaymentDue, Rate};
use crate::tvm::{fv, fv_model, nper, nper_model, pmt, pmt_model, pv, pv_model, rate, rate_model};

verus! {

/// The calculations of the library under one set of solver settings.
#[derive(Debug, Clone, Copy)]
pub struct Casifin {
    config: Config,
}

impl View for Casifin {
    type V = Config;

    closed spec fn view(&self) -> Config {
        self.config
    }
}

impl Casifin {
    /// The calculations under `config`.
    pub fn new(config: Config) -> (c: Casifin)
        ensures
            c@ == config,
    {
        Casifin { config }
    }

    /// The calculations under the default settings.
    pub fn with_defaults() -> (c: Casifin)
        ensures
            is_default_config(c@),
    {
        Casifin::new(Config::default())
    }

    /// The calculations under the default settings.
    pub fn with_default_config() -> (c: Casifin)
        ensures
            is_default_config(c@),
    {
        Casifin::new(Config::default())
    }

    /// The settings.
    pub fn config(&self) -> (c: Config)
        ensures
            c == self@,
    {
        self.config
    }

    /// A mortgage schedule builder under these settings.
    pub fn mortgage(&self, principal: Money, rate: Rate, term_months: u32) -> (b: AmortizationBuilder)
        ensures
            b@ == (BuilderModel { principal: principal@, rate, term_months, config: self@ }),
    {
        AmortizationBuilder::new(principal, rate, term_months).with_config(self.config)
    }

    /// [`crate::cashflow::npv`].
    pub fn npv(&self, rate: Decimal, flows: &CashFlowStream) -> (res: Result<Money, CasifinError>)
        requires
            flows@.len() <= i64::MAX,
        ensures
            result_view(res) == npv_model(rate@, flows@),
    {
        npv(rate, flows)
    }

    /// [`crate::cashflow::irr`] under these settings.
    pub fn irr(&self, flows: &CashFlowStream) -> (res: Result<Decimal, CasifinError>)
        requires
            flows@.len() <= i64::MAX,
        ensures
            result_view(res) == irr_model(flows@, self@),
    {
        irr(flows, self.config)
    }

    /// [`crate::cashflow::xnpv`].
    pub fn xnpv(&self, rate: Decimal, flows: &CashFlowStream) -> (res: Result<Money, CasifinError>)
        ensures
            result_view(res) == xnpv_model(rate@, flows@),
    {
        xnpv(rate, flows)
    }

    /// [`crate::cashflow::xirr`] under these settings.
    pub fn xirr(&self, flows: &CashFlowStream) -> (res: Result<Decimal, CasifinError>)
        ensures
            result_view(res) == xirr_model(flows@, self@),
    {
        xirr(flows, self.config)
    }

    /// [`crate::tvm::pv`].
    pub fn pv(&self, rate: Rate, nper: u32, pmt: Money, fv: Money, due: PaymentDue) -> (res: Result<
        Money,
        CasifinError,
    >)
        ensures
            result_view(res) == pv_model(rate, nper, pmt@, fv@, due),
    {
        pv(rate, nper, pmt, fv, due)
    }

    /// [`crate::tvm::fv`].
    pub fn fv(&self, rate: Rate, nper: u32, pmt: Money, pv: Money, due: PaymentDue) -> (res: Result<
        Money,
        CasifinError,
    >)
        ensures
            result_view(res) == fv_model(rate, nper, pmt@, pv@, due),
    {
        fv(rate, nper, pmt, pv, due)
    }

    /// [`crate::tvm::pmt`].
    pub fn pmt(&self, rate: Rate, nper: u32, pv: Money, fv: Money, due: PaymentDue) -> (res: Result<
        Money,
        CasifinError,
    >)
        ensures
            result_view(res) == pmt_model(rate, nper, pv@, fv@, due),
    {
        pmt(rate, nper, pv, fv, due)
    }

    /// [`crate::tvm::nper`].
    pub fn nper(&self, rate: Rate, pmt: Money, pv: Money, fv: Money, due: PaymentDue) -> (res: Result<
        Decimal,
        CasifinError,
    >)
        ensures
            result_view(res) == nper_model(rate, pmt@, pv@, fv@, due),
    {
        nper(rate, pmt, pv, fv, due)
    }

    /// [`crate::tvm::rate`] under these settings, from the configured guess.
    pub fn rate(&self, nper: u32, pmt: Money, pv: Money, fv: Money, due: PaymentDue) -> (res: Result<
        Decimal,
        CasifinError,
    >)
        ensures
            result_view(res) == rate_model(nper, pmt@, pv@, fv@, due, None, self@),
    {
        rate(nper, pmt, pv, fv, due, None, self.config)
    }
}

impl Default for Casifin {
    fn default() -> (c: Casifin)
        ensures
            is_default_config(c@),
    {
        Casifin::with_defaults()
    }
}

} // verus!
