//! The tree-walking evaluator: resolves symbols against the environment and
//! applies callables to evaluated arguments.

use crate::builtins::apply_spec;
use crate::env::RispEnv;
use crate::errors::{ErrorModel, RispError};
use crate::expr::{expr_list_model, expr_model, lemma_expr_list_model, Expr, ExprModel};
use vstd::prelude::*;
use vstd::string::StringExecFns;

verus! {

/// What evaluating an expression against an environment returns:
/// - numbers and booleans evaluate to themselves;
/// - a symbol evaluates to the value bound to it, and fails when unbound;
/// - a non-empty list evaluates its head; when the head evaluates to a
///   callable, the remaining elements are evaluated left to right (the
///   first failure propagates) and the callable is applied to the results;
/// - an empty list, a list headed by a non-callable, and a bare callable
///   literal fail.
pub open spec fn eval_spec(e: ExprModel, env: Map<Seq<char>, ExprModel>) -> Result<
    ExprModel,
    ErrorModel,
>
    decreases e,
{
    match e {
        ExprModel::Number(_) => Ok(e),
        ExprModel::Boolean(_) => Ok(e),
        ExprModel::Symbol(name) => if env.contains_key(name) {
            Ok(env[name])
        } else {
            Err(ErrorModel::Reason("unexpected symbol: "@ + name))
        },
        ExprModel::List(items) => if items.len() == 0 {
            Err(ErrorModel::Reason("expected a non-empty list"@))
        } else {
            match eval_spec(items[0], env) {
                Err(err) => Err(err),
                Ok(first) => if first is Func {
                    match eval_args_spec(items.drop_first(), env) {
                        Err(err) => Err(err),
                        Ok(vals) => apply_spec(first->Func_0, vals),
                    }
                } else {
                    Err(ErrorModel::Reason("first form must be a function"@))
                },
            }
        },
        ExprModel::Func(_) => Err(ErrorModel::Reason("unexpected expression"@)),
    }
}

/// The values of a sequence of expressions evaluated left to right, or the
/// first failure.
pub open spec fn eval_args_spec(items: Seq<ExprModel>, env: Map<Seq<char>, ExprModel>) -> Result<
    Seq<ExprModel>,
    ErrorModel,
>
    decreases items,
{
    if items.len() == 0 {
        Ok(Seq::empty())
    } else {
        match eval_spec(items[0], env) {
            Err(err) => Err(err),
            Ok(v) => match eval_args_spec(items.drop_first(), env) {
                Err(err) => Err(err),
                Ok(rest) => Ok(seq![v] + rest),
            },
        }
    }
}

/// Left-to-right argument evaluation splits at any point `k` before which
/// every element evaluates successfully.
proof fn lemma_eval_args_split(items: Seq<ExprModel>, env: Map<Seq<char>, ExprModel>, k: int)
    requires
        0 <= k <= items.len(),
        forall|j: int| 0 <= j < k ==> #[trigger] eval_spec(items[j], env) is Ok,
    ensures
        eval_args_spec(items, env) == match eval_args_spec(items.skip(k), env) {
            Ok(rest) => Ok::<Seq<ExprModel>, ErrorModel>(
                Seq::new(k as nat, |j: int| eval_spec(items[j], env)->Ok_0) + rest,
            ),
            Err(err) => Err::<Seq<ExprModel>, ErrorModel>(err),
        },
    decreases k,
{
    if k == 0 {
        assert(items.skip(0) =~= items);
        match eval_args_spec(items, env) {
            Ok(rest) => {
                assert(Seq::new(0, |j: int| eval_spec(items[j], env)->Ok_0) + rest =~= rest);
            }
            Err(_) => {}
        }
    } else {
        let tail = items.drop_first();
        lemma_eval_args_split(tail, env, k - 1);
        assert(tail.skip(k - 1) =~= items.skip(k));
        match eval_args_spec(items.skip(k), env) {
            Ok(rest) => {
                let v0 = eval_spec(items[0], env)->Ok_0;
                assert(seq![v0] + (Seq::new((k - 1) as nat, |j: int| eval_spec(tail[j], env)->Ok_0)
                    + rest) =~= Seq::new(k as nat, |j: int| eval_spec(items[j], env)->Ok_0) + rest);
            }
            Err(_) => {}
        }
    }
}

/// Evaluate an expression against the environment, per `eval_spec`.
/// Evaluation reads the environment and never changes it.
pub fn eval(exp: &Expr, env: &mut RispEnv) -> (r: Result<Expr, RispError>)
    ensures
        *final(env) == *old(env),
        match r {
            Ok(v) => eval_spec(exp@, old(env)@) == Ok::<ExprModel, ErrorModel>(v@),
            Err(err) => eval_spec(exp@, old(env)@) == Err::<ExprModel, ErrorModel>(err@),
        },
    decreases exp,
{
    match exp {
        Expr::Number(_) => Ok(exp.clone()),
        Expr::Boolean(_) => Ok(exp.clone()),
        Expr::Symbol(k) => match env.get(k) {
            Some(v) => Ok(v.clone()),
            None => Err(
                RispError::Reason(String::from_str("unexpected symbol: ").concat(k.as_str())),
            ),
        },
        Expr::List(items) => {
            if items.len() == 0 {
                return Err(RispError::Reason(String::from_str("expected a non-empty list")));
            }
            let ghost m_items: Seq<ExprModel> = expr_list_model(items@);
            proof {
                lemma_expr_list_model(items@);
                assert(decreases_to!(*exp => exp->List_0));
                assert(decreases_to!(exp->List_0 => exp->List_0[0]));
            }
            let first_eval = match eval(&items[0], env) {
                Ok(v) => v,
                Err(err) => {
                    return Err(err);
                }
            };
            match first_eval {
                Expr::Func(op) => {
                    let mut vals: Vec<Expr> = Vec::new();
                    let mut i: usize = 1;
                    while i < items.len()
                        invariant
                            *exp == Expr::List(*items),
                            *env == *old(env),
                            1 <= i <= items.len(),
                            m_items == expr_list_model(items@),
                            m_items.len() == items@.len(),
                            eval_spec(m_items[0], old(env)@) == Ok::<ExprModel, ErrorModel>(
                                ExprModel::Func(op),
                            ),
                            forall|j: int|
                                0 <= j < items@.len() ==> m_items[j] == #[trigger] expr_model(
                                    items@[j],
                                ),
                            vals@.len() == i - 1,
                            forall|j: int|
                                0 <= j < i - 1 ==> eval_spec(m_items[j + 1], old(env)@) == Ok::<
                                    ExprModel,
                                    ErrorModel,
                                >(expr_model(#[trigger] vals@[j])),
                        decreases items.len() - i,
                    {
                        proof {
                            assert(decreases_to!(*exp => exp->List_0));
                            assert(decreases_to!(exp->List_0 => exp->List_0[i as int]));
                        }
                        match eval(&items[i], env) {
                            Ok(v) => vals.push(v),
                            Err(err) => {
                                proof {
                                    let rest = m_items.drop_first();
                                    assert forall|j: int| 0 <= j < i - 1 implies #[trigger] eval_spec(
                                        rest[j],
                                        old(env)@,
                                    ) is Ok by {
                                        assert(rest[j] == m_items[j + 1]);
                                        assert(eval_spec(m_items[j + 1], old(env)@) == Ok::<
                                            ExprModel,
                                            ErrorModel,
                                        >(expr_model(vals@[j])));
                                    }
                                    lemma_eval_args_split(rest, old(env)@, i - 1);
                                    assert(rest.skip(i - 1)[0] == m_items[i as int]);
                                }
                                return Err(err);
                            }
                        }
                        i += 1;
                    }
                    proof {
                        let rest = m_items.drop_first();
                        let k = rest.len() as int;
                        assert forall|j: int| 0 <= j < k implies #[trigger] eval_spec(
                            rest[j],
                            old(env)@,
                        ) is Ok by {
                            assert(rest[j] == m_items[j + 1]);
                            assert(eval_spec(m_items[j + 1], old(env)@) == Ok::<
                                ExprModel,
                                ErrorModel,
                            >(expr_model(vals@[j])));
                        }
                        lemma_eval_args_split(rest, old(env)@, k);
                        assert(rest.skip(k).len() == 0);
                        lemma_expr_list_model(vals@);
                        assert forall|j: int| 0 <= j < k implies Seq::new(
                            k as nat,
                            |j: int| eval_spec(rest[j], old(env)@)->Ok_0,
                        )[j] == expr_list_model(vals@)[j] by {
                            assert(rest[j] == m_items[j + 1]);
                            assert(eval_spec(m_items[j + 1], old(env)@) == Ok::<
                                ExprModel,
                                ErrorModel,
                            >(expr_model(vals@[j])));
                        }
                        assert(Seq::new(k as nat, |j: int| eval_spec(rest[j], old(env)@)->Ok_0)
                            + Seq::<ExprModel>::empty() =~= expr_list_model(vals@));
                    }
                    op.apply(&vals)
                }
                _ => Err(RispError::Reason(String::from_str("first form must be a function"))),
            }
        }
        Expr::Func(_) => Err(RispError::Reason(String::from_str("unexpected expression"))),
    }
}

/// Law: evaluating a bare symbol that the environment does not bind fails
/// with a `Reason` error naming the symbol.
pub proof fn lemma_unbound_symbol_error(name: Seq<char>, env: Map<Seq<char>, ExprModel>)
    requires
        !env.contains_key(name),
    ensures
        eval_spec(ExprModel::Symbol(name), env) == Err::<ExprModel, ErrorModel>(
            ErrorModel::Reason("unexpected symbol: "@ + name),
        ),
{
}

} // verus!
