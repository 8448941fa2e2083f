//! Order risk evaluation: decides whether an order may be actioned and
//! may amend it to fit the risk strategy.

use vstd::prelude::*;

verus! {

/// How an order is to be executed.
#[derive(Clone, Copy, PartialEq, Eq, Structural, Debug)]
pub enum OrderType {
    Market,
    Limit,
}

/// An order awaiting evaluation: its execution type and its size in
/// fixed-point ticks.
#[derive(Clone, Copy, PartialEq, Eq, Structural, Debug)]
pub struct OrderEvent {
    pub order_type: OrderType,
    pub quantity: u64,
}

/// An error raised while evaluating an order.
#[derive(Clone, Copy, PartialEq, Eq, Structural, Debug)]
pub enum PortfolioError {
    EvaluationFailed,
}

/// Evaluates the risk associated with an order to determine whether it
/// should be actioned. It may amend the order (e.g. its type) to better
/// fit the risk strategy; it answers nothing when the risk is too high.
pub trait OrderEvaluator {
    /// The evaluation this evaluator performs.
    spec fn spec_evaluate(&self, order: OrderEvent) -> Result<Option<OrderEvent>, PortfolioError>;

    /// The order type this evaluator amends orders to.
    spec fn spec_default_order_type(&self) -> OrderType;

    fn default_order_type(&self) -> (r: OrderType)
        ensures
            r == self.spec_default_order_type(),
    ;

    fn evaluate_order(&self, order: OrderEvent) -> (r: Result<Option<OrderEvent>, PortfolioError>)
        ensures
            r == self.spec_evaluate(order),
    ;
}

/// The default risk manager: it deems no order too risky and amends
/// every order to a market order.
#[derive(Clone, Copy, PartialEq, Eq, Structural, Debug)]
pub struct DefaultRisk {}

impl DefaultRisk {
    /// Whether the order's risk bars it from being actioned; the default
    /// manager never bars one.
    pub fn risk_too_high(&self, order: &OrderEvent) -> (r: bool)
        ensures
            r == false,
    {
        let _ = order;
        false
    }
}

impl OrderEvaluator for DefaultRisk {
    open spec fn spec_evaluate(&self, order: OrderEvent) -> Result<
        Option<OrderEvent>,
        PortfolioError,
    > {
        Ok(Some(OrderEvent { order_type: OrderType::Market, ..order }))
    }

    open spec fn spec_default_order_type(&self) -> OrderType {
        OrderType::Market
    }

    fn default_order_type(&self) -> (r: OrderType) {
        OrderType::Market
    }

    fn evaluate_order(&self, order: OrderEvent) -> (r: Result<
        Option<OrderEvent>,
        PortfolioError,
    >) {
        if self.risk_too_high(&order) {
            return Ok(None);
        }
        let mut order = order;
        order.order_type = self.default_order_type();
        Ok(Some(order))
    }
}

} // verus!
