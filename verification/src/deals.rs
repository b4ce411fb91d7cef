use vstd::prelude::*;
use crate::clients::clone_opt_string;
use crate::date::Date;

verus! {

/// The closed set of deal states. A deal whose create request names no
/// status starts as `Draft`.
#[derive(Clone, Copy, PartialEq, Eq, Structural, Debug)]
pub enum DealStatus {
    Draft,
    Active,
    Paid,
    Cancelled,
    Completed,
}

/// A stored deal row. The three decimal quantities are fixed-point
/// values in hundredths of a unit (two decimal places), kept as
/// integers so the commission rule is exact. The server assigns `id`,
/// `commission_amount`, `status` (when absent) and the timestamps.
#[derive(Debug, PartialEq)]
pub struct Deal {
    pub id: i32,
    pub client_id: i32,
    pub deal_amount: i64,
    pub commission_percent: i64,
    pub commission_amount: i64,
    pub tour_operator: String,
    pub deal_date: Date,
    pub payment_due_date: Date,
    pub status: DealStatus,
    pub description: Option<String>,
    pub created_at: Option<i64>,
    pub updated_at: Option<i64>,
}

/// The caller-supplied fields for creating a deal. There is no
/// `commission_amount` here: the server computes it and never trusts
/// the caller for it.
#[derive(Debug)]
pub struct CreateDeal {
    pub client_id: i32,
    pub deal_amount: i64,
    pub commission_percent: i64,
    pub tour_operator: String,
    pub deal_date: Date,
    pub payment_due_date: Date,
    pub status: Option<DealStatus>,
    pub description: Option<String>,
}

/// `a / b` for positive `b`, truncated toward zero.
pub open spec fn truncated_div(a: int, b: int) -> int {
    if a >= 0 {
        a / b
    } else {
        -((-a) / b)
    }
}

/// The commission owed on a deal: `deal_amount * commission_percent / 100`.
/// Both operands carry two decimal places, so on the fixed-point scale
/// the product is divided by `100 * 100 * 100 / 100 = 10000`, truncated
/// toward zero.
pub open spec fn spec_commission(amount: int, percent: int) -> int {
    truncated_div(amount * percent, 10000)
}

/// The commission fits the fixed-point type.
pub open spec fn commission_in_range(amount: int, percent: int) -> bool {
    i64::MIN <= spec_commission(amount, percent) <= i64::MAX
}

/// The row that a create request persists: the input's fields, the
/// server-assigned id, the computed commission, `Draft` in place of an
/// absent status, and both timestamps set to creation time.
pub open spec fn deal_of_input(input: CreateDeal, id: i32, now: i64) -> Deal {
    Deal {
        id,
        client_id: input.client_id,
        deal_amount: input.deal_amount,
        commission_percent: input.commission_percent,
        commission_amount: spec_commission(
            input.deal_amount as int,
            input.commission_percent as int,
        ) as i64,
        tour_operator: input.tour_operator,
        deal_date: input.deal_date,
        payment_due_date: input.payment_due_date,
        status: match input.status {
            Some(s) => s,
            None => DealStatus::Draft,
        },
        description: input.description,
        created_at: Some(now),
        updated_at: Some(now),
    }
}

fn abs_i64(x: i64) -> (r: u64)
    ensures
        r as int == (if x as int >= 0 {
            x as int
        } else {
            -(x as int)
        }),
{
    if x >= 0 {
        x as u64
    } else {
        (-(x as i128)) as u64
    }
}

proof fn lemma_product_sign_and_abs(a: int, b: int, aa: int, ab: int)
    by (nonlinear_arith)
    requires
        aa == (if a >= 0 {
            a
        } else {
            -a
        }),
        ab == (if b >= 0 {
            b
        } else {
            -b
        }),
    ensures
        a * b >= 0 ==> aa * ab == a * b,
        a * b < 0 ==> aa * ab == -(a * b),
        ((a < 0) != (b < 0)) ==> a * b <= 0,
        !((a < 0) != (b < 0)) ==> a * b >= 0,
{
}

/// The commission on the given fixed-point amount and percent, or
/// `None` exactly when it does not fit the fixed-point type.
pub fn checked_commission(amount: i64, percent: i64) -> (r: Option<i64>)
    ensures
        match r {
            Some(c) => commission_in_range(amount as int, percent as int) && c as int
                == spec_commission(amount as int, percent as int),
            None => !commission_in_range(amount as int, percent as int),
        },
{
    let neg: bool = (amount < 0) != (percent < 0);
    let am: u128 = abs_i64(amount) as u128;
    let pm: u128 = abs_i64(percent) as u128;
    proof {
        lemma_product_sign_and_abs(amount as int, percent as int, am as int, pm as int);
        vstd::arithmetic::mul::lemma_mul_upper_bound(
            am as int,
            0x8000_0000_0000_0000,
            pm as int,
            0x8000_0000_0000_0000,
        );
    }
    let prod: u128 = am * pm;
    let q: u128 = prod / 10000;
    if neg {
        if q <= i64::MAX as u128 {
            Some(-(q as i64))
        } else if q == (i64::MAX as u128) + 1 {
            Some(i64::MIN)
        } else {
            None
        }
    } else {
        if q <= i64::MAX as u128 {
            Some(q as i64)
        } else {
            None
        }
    }
}

impl CreateDeal {
    /// The commission owed on this deal: `deal_amount * commission_percent / 100`
    /// on the fixed-point scale, truncated toward zero.
    pub fn calculate_commission(&self) -> (r: i64)
        requires
            commission_in_range(self.deal_amount as int, self.commission_percent as int),
        ensures
            r as int == spec_commission(self.deal_amount as int, self.commission_percent as int),
    {
        checked_commission(self.deal_amount, self.commission_percent).unwrap()
    }
}

impl Clone for Deal {
    fn clone(&self) -> (r: Self)
        ensures
            r == *self,
    {
        Deal {
            id: self.id,
            client_id: self.client_id,
            deal_amount: self.deal_amount,
            commission_percent: self.commission_percent,
            commission_amount: self.commission_amount,
            tour_operator: self.tour_operator.clone(),
            deal_date: self.deal_date,
            payment_due_date: self.payment_due_date,
            status: self.status,
            description: clone_opt_string(&self.description),
            created_at: self.created_at,
            updated_at: self.updated_at,
        }
    }
}

} // verus!
