//! The four native arithmetic operations and the numeric helpers they
//! share. Sums and products fold left over the arguments; every step
//! saturates at the 64-bit signed bounds, and division truncates toward
//! zero and fails on a zero divisor.

use crate::errors::{ErrorModel, RispError};
use crate::expr::{expr_list_model, expr_model, BuiltinOp, Expr, ExprModel};
use vstd::prelude::*;
use vstd::string::StringExecFns;

verus! {

/// `x` clamped to the 64-bit signed range.
pub open spec fn clamp_i64(x: int) -> int {
    if x > i64::MAX {
        i64::MAX as int
    } else if x < i64::MIN {
        i64::MIN as int
    } else {
        x
    }
}

/// Division truncated toward zero, as the machine division does.
pub open spec fn trunc_div(a: int, d: int) -> int
    recommends
        d != 0,
{
    if a == 0 {
        0
    } else if a > 0 && d > 0 {
        a / d
    } else if a < 0 && d < 0 {
        (a * -1) / (d * -1)
    } else if a < 0 {
        ((a * -1) / d) * -1
    } else {
        (a / (d * -1)) * -1
    }
}

/// The left fold of `+` over `nums`, starting from 0, each step clamped.
pub open spec fn sat_sum(nums: Seq<int>) -> int
    decreases nums.len(),
{
    if nums.len() == 0 {
        0
    } else {
        clamp_i64(sat_sum(nums.drop_last()) + nums.last())
    }
}

/// The left fold of `*` over `nums`, starting from 1, each step clamped.
pub open spec fn sat_prod(nums: Seq<int>) -> int
    decreases nums.len(),
{
    if nums.len() == 0 {
        1
    } else {
        clamp_i64(sat_prod(nums.drop_last()) * nums.last())
    }
}

/// The numeric contents of an argument list: the arguments' values if every
/// one is a number, and the error every built-in raises otherwise.
pub open spec fn numbers_of(args: Seq<ExprModel>) -> Result<Seq<int>, ErrorModel> {
    if forall|i: int| 0 <= i < args.len() ==> args[i] is Number {
        Ok(Seq::new(args.len(), |i: int| args[i]->Number_0))
    } else {
        Err(ErrorModel::Reason("expected a number"@))
    }
}

/// What applying a built-in to fully evaluated arguments returns:
/// - every argument must be a number;
/// - `+` and `*` fold over all arguments and cannot fail further;
/// - `-` and `/` need at least one argument; `-` subtracts the sum of the
///   rest from the first, `/` divides the first by the product of the rest
///   and fails if that product is zero.
pub open spec fn apply_spec(op: BuiltinOp, args: Seq<ExprModel>) -> Result<ExprModel, ErrorModel> {
    match numbers_of(args) {
        Err(e) => Err(e),
        Ok(nums) => match op {
            BuiltinOp::Add => Ok(ExprModel::Number(sat_sum(nums))),
            BuiltinOp::Sub => if nums.len() == 0 {
                Err(ErrorModel::Reason("expected at least one number"@))
            } else {
                Ok(ExprModel::Number(clamp_i64(nums[0] - sat_sum(nums.drop_first()))))
            },
            BuiltinOp::Mul => Ok(ExprModel::Number(sat_prod(nums))),
            BuiltinOp::Div => if nums.len() == 0 {
                Err(ErrorModel::Reason("expected at least one number"@))
            } else if sat_prod(nums.drop_first()) == 0 {
                Err(ErrorModel::Reason("division by zero"@))
            } else {
                Ok(ExprModel::Number(clamp_i64(trunc_div(nums[0], sat_prod(nums.drop_first())))))
            },
        },
    }
}

/// Saturating add on the machine integers.
fn sat_add_i64(a: i64, b: i64) -> (r: i64)
    ensures
        r as int == clamp_i64(a + b),
{
    match a.checked_add(b) {
        Some(v) => v,
        None => if b >= 0 {
            i64::MAX
        } else {
            i64::MIN
        },
    }
}

/// Saturating subtract on the machine integers.
fn sat_sub_i64(a: i64, b: i64) -> (r: i64)
    ensures
        r as int == clamp_i64(a - b),
{
    match a.checked_sub(b) {
        Some(v) => v,
        None => if b < 0 {
            i64::MAX
        } else {
            i64::MIN
        },
    }
}

/// Saturating multiply on the machine integers.
fn sat_mul_i64(a: i64, b: i64) -> (r: i64)
    ensures
        r as int == clamp_i64(a * b),
{
    match a.checked_mul(b) {
        Some(v) => v,
        None => {
            proof {
                assert((a < 0 <==> b < 0) ==> a * b > 0) by (nonlinear_arith)
                    requires
                        a * b > i64::MAX || a * b < i64::MIN,
                ;
                assert(!(a < 0 <==> b < 0) ==> a * b < 0) by (nonlinear_arith)
                    requires
                        a * b > i64::MAX || a * b < i64::MIN,
                ;
            }
            if (a < 0) == (b < 0) {
                i64::MAX
            } else {
                i64::MIN
            }
        },
    }
}

/// Truncating division, clamped; the one overflowing case is the most
/// negative value divided by -1.
fn div_i64(a: i64, d: i64) -> (r: i64)
    requires
        d != 0,
    ensures
        r as int == clamp_i64(trunc_div(a as int, d as int)),
{
    match a.checked_div(d) {
        Some(v) => v,
        None => i64::MAX,
    }
}

/// The value of a single numeric argument, or the error every built-in
/// raises on a non-number.
fn parse_single_number(expr: &Expr) -> (r: Result<i64, RispError>)
    ensures
        match r {
            Ok(n) => expr_model(*expr) == ExprModel::Number(n as int),
            Err(e) => !(expr_model(*expr) is Number) && e@ == ErrorModel::Reason(
                "expected a number"@,
            ),
        },
{
    match expr {
        Expr::Number(n) => Ok(*n),
        _ => Err(RispError::Reason(String::from_str("expected a number"))),
    }
}

/// The values of an argument list, or the first error.
fn parse_list_of_numbers(args: &Vec<Expr>) -> (r: Result<Vec<i64>, RispError>)
    ensures
        match r {
            Ok(nums) => numbers_of(expr_list_model(args@)) == Ok::<Seq<int>, ErrorModel>(
                nums@.map_values(|n: i64| n as int),
            ),
            Err(e) => numbers_of(expr_list_model(args@)) == Err::<Seq<int>, ErrorModel>(e@),
        },
{
    proof {
        crate::expr::lemma_expr_list_model(args@);
    }
    let ghost margs = expr_list_model(args@);
    let mut nums: Vec<i64> = Vec::new();
    let mut i: usize = 0;
    while i < args.len()
        invariant
            margs == expr_list_model(args@),
            margs.len() == args@.len(),
            forall|j: int|
                0 <= j < args@.len() ==> margs[j] == #[trigger] expr_model(args@[j]),
            i <= args.len(),
            nums@.len() == i as int,
            forall|j: int| 0 <= j < i ==> margs[j] == ExprModel::Number(#[trigger] nums@[j] as int),
        decreases args.len() - i,
    {
        match parse_single_number(&args[i]) {
            Ok(n) => nums.push(n),
            Err(e) => {
                return Err(e);
            }
        }
        i += 1;
    }
    proof {
        assert forall|j: int| 0 <= j < margs.len() implies margs[j] is Number by {
            assert(margs[j] == ExprModel::Number(nums@[j] as int));
        }
        assert(nums@.map_values(|n: i64| n as int) =~= Seq::new(
            margs.len(),
            |j: int| margs[j]->Number_0,
        ));
    }
    Ok(nums)
}

impl BuiltinOp {
    /// Apply this operation to fully evaluated arguments, per `apply_spec`.
    pub fn apply(&self, args: &Vec<Expr>) -> (r: Result<Expr, RispError>)
        ensures
            match r {
                Ok(v) => apply_spec(*self, expr_list_model(args@)) == Ok::<ExprModel, ErrorModel>(
                    v@,
                ),
                Err(e) => apply_spec(*self, expr_list_model(args@)) == Err::<ExprModel, ErrorModel>(
                    e@,
                ),
            },
    {
        let nums = match parse_list_of_numbers(args) {
            Ok(nums) => nums,
            Err(e) => {
                return Err(e);
            }
        };
        let ghost ns = nums@.map_values(|n: i64| n as int);
        proof {
            assert(ns.skip(0) =~= ns);
        }
        match self {
            BuiltinOp::Add => Ok(Expr::Number(sum_all(&nums, 0))),
            BuiltinOp::Mul => Ok(Expr::Number(prod_all(&nums, 0))),
            BuiltinOp::Sub => {
                if nums.len() == 0 {
                    Err(RispError::Reason(String::from_str("expected at least one number")))
                } else {
                    let rest_sum = sum_all(&nums, 1);
                    proof {
                        assert(nums@.map_values(|n: i64| n as int).skip(1) =~= ns.drop_first());
                    }
                    Ok(Expr::Number(sat_sub_i64(nums[0], rest_sum)))
                }
            }
            BuiltinOp::Div => {
                if nums.len() == 0 {
                    Err(RispError::Reason(String::from_str("expected at least one number")))
                } else {
                    let rest_prod = prod_all(&nums, 1);
                    proof {
                        assert(nums@.map_values(|n: i64| n as int).skip(1) =~= ns.drop_first());
                    }
                    if rest_prod == 0 {
                        Err(RispError::Reason(String::from_str("division by zero")))
                    } else {
                        Ok(Expr::Number(div_i64(nums[0], rest_prod)))
                    }
                }
            }
        }
    }
}

/// The saturating sum of `nums[from..]`.
fn sum_all(nums: &Vec<i64>, from: usize) -> (r: i64)
    requires
        from <= nums.len(),
    ensures
        r as int == sat_sum(nums@.map_values(|n: i64| n as int).skip(from as int)),
{
    let ghost ns = nums@.map_values(|n: i64| n as int).skip(from as int);
    let mut acc: i64 = 0;
    let mut i: usize = from;
    while i < nums.len()
        invariant
            from <= i <= nums.len(),
            ns == nums@.map_values(|n: i64| n as int).skip(from as int),
            acc as int == sat_sum(ns.take(i - from)),
        decreases nums.len() - i,
    {
        proof {
            assert(ns.take(i - from + 1).drop_last() =~= ns.take(i - from));
            assert(ns.take(i - from + 1).last() == nums@[i as int] as int);
        }
        acc = sat_add_i64(acc, nums[i]);
        i += 1;
    }
    proof {
        assert(ns.take(nums@.len() - from) =~= ns);
    }
    acc
}

/// The saturating product of `nums[from..]`.
fn prod_all(nums: &Vec<i64>, from: usize) -> (r: i64)
    requires
        from <= nums.len(),
    ensures
        r as int == sat_prod(nums@.map_values(|n: i64| n as int).skip(from as int)),
{
    let ghost ns = nums@.map_values(|n: i64| n as int).skip(from as int);
    let mut acc: i64 = 1;
    let mut i: usize = from;
    while i < nums.len()
        invariant
            from <= i <= nums.len(),
            ns == nums@.map_values(|n: i64| n as int).skip(from as int),
            acc as int == sat_prod(ns.take(i - from)),
        decreases nums.len() - i,
    {
        proof {
            assert(ns.take(i - from + 1).drop_last() =~= ns.take(i - from));
            assert(ns.take(i - from + 1).last() == nums@[i as int] as int);
        }
        acc = sat_mul_i64(acc, nums[i]);
        i += 1;
    }
    proof {
        assert(ns.take(nums@.len() - from) =~= ns);
    }
    acc
}

} // verus!
