//! The tagged union of runtime values, shared by the parser (as the
//! expression tree) and the evaluator (as the result type).

use vstd::prelude::*;
use vstd::string::StringExecFns;

verus! {

/// The native operations a `Expr::Func` value can stand for. Callables are
/// stateless and carry no captured environment, so a closed tag set is the
/// whole representation: applying one is a plain function of its arguments.
#[derive(Debug, Clone, Copy, PartialEq, Eq, Structural)]
pub enum BuiltinOp {
    /// Sum of the arguments; the empty sum is 0.
    Add,
    /// First argument minus the sum of the rest.
    Sub,
    /// Product of the arguments; the empty product is 1.
    Mul,
    /// First argument divided by the product of the rest.
    Div,
}

/// A runtime value: a leaf atom, an ordered list of values, or a native
/// callable. A `List` owns its elements, so the tree built by the parser
/// has no sharing between sibling nodes.
#[derive(Debug, PartialEq)]
pub enum Expr {
    /// A 64-bit signed integer scalar.
    Number(i64),
    /// An immutable text identifier, used for lookup and as literal data.
    Symbol(String),
    /// An ordered, possibly-empty sequence of values.
    List(Vec<Expr>),
    /// A two-valued flag.
    Boolean(bool),
    /// A native callable.
    Func(BuiltinOp),
}

/// The mathematical model of an `Expr`: numbers as unbounded integers,
/// symbols as character sequences, lists as sequences of models.
pub enum ExprModel {
    Number(int),
    Symbol(Seq<char>),
    List(Seq<ExprModel>),
    Boolean(bool),
    Func(BuiltinOp),
}

/// The model of a value, element by element for lists.
pub open spec fn expr_model(e: Expr) -> ExprModel
    decreases e,
{
    match e {
        Expr::Number(n) => ExprModel::Number(n as int),
        Expr::Symbol(s) => ExprModel::Symbol(s@),
        Expr::List(items) => ExprModel::List(expr_list_model(items@)),
        Expr::Boolean(b) => ExprModel::Boolean(b),
        Expr::Func(op) => ExprModel::Func(op),
    }
}

/// The models of a sequence of values, in order.
pub open spec fn expr_list_model(items: Seq<Expr>) -> Seq<ExprModel>
    decreases items,
{
    if items.len() == 0 {
        Seq::empty()
    } else {
        seq![expr_model(items[0])] + expr_list_model(items.drop_first())
    }
}

impl Clone for Expr {
    /// A clone has the same model as the value cloned, elements of a list
    /// included.
    fn clone(&self) -> (r: Self)
        ensures
            r@ == self@,
        decreases self,
    {
        match self {
            Expr::Number(n) => Expr::Number(*n),
            Expr::Symbol(s) => Expr::Symbol(s.clone()),
            Expr::List(items) => {
                let mut out: Vec<Expr> = Vec::new();
                let mut i: usize = 0;
                while i < items.len()
                    invariant
                        *self == Expr::List(*items),
                        i <= items.len(),
                        out@.len() == i as int,
                        forall|j: int|
                            0 <= j < i ==> #[trigger] expr_model(out@[j]) == expr_model(items@[j]),
                    decreases items.len() - i,
                {
                    proof {
                        assert(decreases_to!(*self => self->List_0));
                        assert(decreases_to!(self->List_0 => self->List_0[i as int]));
                    }
                    out.push(items[i].clone());
                    i += 1;
                }
                proof {
                    lemma_expr_list_model(out@);
                    lemma_expr_list_model(items@);
                    assert forall|k: int| 0 <= k < out@.len() implies expr_list_model(out@)[k]
                        == expr_list_model(items@)[k] by {
                        assert(expr_model(out@[k]) == expr_model(items@[k]));
                    }
                    assert(expr_list_model(out@) =~= expr_list_model(items@));
                }
                Expr::List(out)
            }
            Expr::Boolean(b) => Expr::Boolean(*b),
            Expr::Func(op) => Expr::Func(*op),
        }
    }
}

impl View for Expr {
    type V = ExprModel;

    open spec fn view(&self) -> ExprModel {
        expr_model(*self)
    }
}

/// The model of a list has one entry per element: the element's own model.
pub proof fn lemma_expr_list_model(items: Seq<Expr>)
    ensures
        expr_list_model(items).len() == items.len(),
        forall|i: int|
            0 <= i < items.len() ==> expr_list_model(items)[i] == #[trigger] expr_model(items[i]),
    decreases items,
{
    if items.len() > 0 {
        lemma_expr_list_model(items.drop_first());
        assert forall|i: int| 0 <= i < items.len() implies expr_list_model(items)[i]
            == #[trigger] expr_model(items[i]) by {
            if i > 0 {
                assert(items.drop_first()[i - 1] == items[i]);
            }
        }
    }
}

/// The digit character for a value below ten.
pub open spec fn digit_char(d: nat) -> char {
    if d == 0 {
        '0'
    } else if d == 1 {
        '1'
    } else if d == 2 {
        '2'
    } else if d == 3 {
        '3'
    } else if d == 4 {
        '4'
    } else if d == 5 {
        '5'
    } else if d == 6 {
        '6'
    } else if d == 7 {
        '7'
    } else if d == 8 {
        '8'
    } else {
        '9'
    }
}

/// The decimal digits of `m`, most significant first.
pub open spec fn dec_rep(m: nat) -> Seq<char>
    decreases m,
{
    if m < 10 {
        seq![digit_char(m)]
    } else {
        dec_rep(m / 10) + seq![digit_char(m % 10)]
    }
}

/// The decimal rendering of an integer: a leading minus sign for a negative
/// value, then its digits.
pub open spec fn num_text(n: int) -> Seq<char> {
    if n < 0 {
        seq!['-'] + dec_rep((-n) as nat)
    } else {
        dec_rep(n as nat)
    }
}

/// The display rendering of a value:
/// - a symbol renders as its text, a boolean as `true` or `false`, a number
///   in decimal;
/// - a list renders as its elements' renderings joined by a comma and a
///   space, between parentheses;
/// - a callable renders as an opaque placeholder.
pub open spec fn display_of(e: ExprModel) -> Seq<char>
    decreases e,
{
    match e {
        ExprModel::Number(n) => num_text(n),
        ExprModel::Symbol(s) => s,
        ExprModel::Boolean(b) => if b {
            "true"@
        } else {
            "false"@
        },
        ExprModel::List(items) => if items.len() == 0 {
            seq!['('] + seq![')']
        } else {
            seq!['('] + display_of(items[0]) + rest_items_text(items.drop_first()) + seq![')']
        },
        ExprModel::Func(_) => "function {}"@,
    }
}

/// The renderings of the elements after the first, each preceded by a comma
/// and a space.
pub open spec fn rest_items_text(items: Seq<ExprModel>) -> Seq<char>
    decreases items,
{
    if items.len() == 0 {
        Seq::empty()
    } else {
        ", "@ + display_of(items[0]) + rest_items_text(items.drop_first())
    }
}

/// Extending the rendered prefix by one element appends one separated
/// rendering.
proof fn lemma_rest_items_text_snoc(items: Seq<ExprModel>, k: int)
    requires
        0 <= k < items.len(),
    ensures
        rest_items_text(items.take(k + 1)) == rest_items_text(items.take(k)) + ", "@ + display_of(
            items[k],
        ),
    decreases k,
{
    if k == 0 {
        assert(items.take(0).len() == 0);
        assert(items.take(1).drop_first().len() == 0);
        assert(items.take(1)[0] == items[0]);
        assert(rest_items_text(items.take(1).drop_first()) =~= Seq::<char>::empty());
        assert(rest_items_text(items.take(1)) == ", "@ + display_of(items[0]) + rest_items_text(
            items.take(1).drop_first(),
        ));
        assert(rest_items_text(items.take(0)) + ", "@ + display_of(items[0]) =~= ", "@ + display_of(
            items[0],
        ) + Seq::empty());
    } else {
        let tail = items.drop_first();
        lemma_rest_items_text_snoc(tail, k - 1);
        assert(items.take(k + 1).drop_first() =~= tail.take(k));
        assert(items.take(k).drop_first() =~= tail.take(k - 1));
        assert(items.take(k + 1)[0] == items[0]);
        assert(items.take(k)[0] == items[0]);
        assert(tail[k - 1] == items[k]);
        assert(", "@ + display_of(items[0]) + (rest_items_text(tail.take(k - 1)) + ", "@
            + display_of(items[k])) =~= (", "@ + display_of(items[0]) + rest_items_text(
            tail.take(k - 1),
        )) + ", "@ + display_of(items[k]));
    }
}

/// The character for one digit, as borrowed text.
fn digit_str(d: u64) -> (r: &'static str)
    requires
        d < 10,
    ensures
        r@ == seq![digit_char(d as nat)],
{
    let s: &'static str = if d == 0 {
        "0"
    } else if d == 1 {
        "1"
    } else if d == 2 {
        "2"
    } else if d == 3 {
        "3"
    } else if d == 4 {
        "4"
    } else if d == 5 {
        "5"
    } else if d == 6 {
        "6"
    } else if d == 7 {
        "7"
    } else if d == 8 {
        "8"
    } else {
        "9"
    };
    proof {
        reveal_strlit("0");
        reveal_strlit("1");
        reveal_strlit("2");
        reveal_strlit("3");
        reveal_strlit("4");
        reveal_strlit("5");
        reveal_strlit("6");
        reveal_strlit("7");
        reveal_strlit("8");
        reveal_strlit("9");
        assert(s@ =~= seq![digit_char(d as nat)]);
    }
    s
}

/// Append the decimal digits of `m`, most significant first.
fn push_digits(m: u64, out: &mut String)
    ensures
        final(out)@ == old(out)@ + dec_rep(m as nat),
    decreases m,
{
    if m >= 10 {
        push_digits(m / 10, out);
        out.append(digit_str(m % 10));
        proof {
            assert(out@ =~= old(out)@ + dec_rep(m as nat));
        }
    } else {
        out.append(digit_str(m));
        proof {
            assert(out@ =~= old(out)@ + dec_rep(m as nat));
        }
    }
}

/// The decimal rendering of a machine integer.
fn number_text(n: i64) -> (r: String)
    ensures
        r@ == num_text(n as int),
{
    let mut out = String::new();
    if n < 0 {
        out.append("-");
        proof {
            reveal_strlit("-");
            assert(("-")@ =~= seq!['-']);
        }
        let wide: i128 = -(n as i128);
        let m: u64 = wide as u64;
        proof {
            assert(m as nat == (-(n as int)) as nat);
        }
        push_digits(m, &mut out);
        proof {
            assert(out@ =~= num_text(n as int));
        }
    } else {
        let m: u64 = n as u64;
        push_digits(m, &mut out);
        proof {
            assert(out@ =~= num_text(n as int));
        }
    }
    out
}

impl Expr {
    /// The display rendering of this value, per `display_of`.
    pub fn to_text(&self) -> (r: String)
        ensures
            r@ == display_of(self@),
        decreases self,
    {
        match self {
            Expr::Number(n) => number_text(*n),
            Expr::Symbol(s) => s.clone(),
            Expr::Boolean(b) => if *b {
                String::from_str("true")
            } else {
                String::from_str("false")
            },
            Expr::Func(_) => String::from_str("function {}"),
            Expr::List(items) => {
                let ghost m = expr_list_model(items@);
                proof {
                    lemma_expr_list_model(items@);
                    reveal_strlit("(");
                    reveal_strlit(")");
                    reveal_strlit(", ");
                }
                let mut out = String::from_str("(");
                proof {
                    assert(out@ =~= seq!['(']);
                }
                let mut i: usize = 0;
                while i < items.len()
                    invariant
                        *self == Expr::List(*items),
                        i <= items.len(),
                        m == expr_list_model(items@),
                        m.len() == items@.len(),
                        forall|j: int|
                            0 <= j < items@.len() ==> m[j] == #[trigger] expr_model(items@[j]),
                        ("(")@ == seq!['('],
                        (", ")@ == seq![',', ' '],
                        (if i == 0 {
                            out@ == seq!['(']
                        } else {
                            out@ == seq!['('] + display_of(m[0]) + rest_items_text(
                                m.drop_first().take(i - 1),
                            )
                        }),
                    decreases items.len() - i,
                {
                    if i > 0 {
                        out.append(", ");
                        proof {
                            let rest = m.drop_first();
                            lemma_rest_items_text_snoc(rest, i - 1);
                        }
                    }
                    proof {
                        assert(decreases_to!(*self => self->List_0));
                        assert(decreases_to!(self->List_0 => self->List_0[i as int]));
                    }
                    let t = items[i].to_text();
                    out.append(t.as_str());
                    proof {
                        if i > 0 {
                            let rest = m.drop_first();
                            assert(rest[i - 1] == m[i as int]);
                            assert(out@ =~= seq!['('] + display_of(m[0]) + rest_items_text(
                                rest.take(i as int),
                            ));
                        } else {
                            assert(out@ =~= seq!['('] + display_of(m[0]));
                            assert(rest_items_text(m.drop_first().take(0)).len() == 0);
                            assert(out@ =~= seq!['('] + display_of(m[0]) + rest_items_text(
                                m.drop_first().take(0),
                            ));
                        }
                    }
                    i += 1;
                }
                out.append(")");
                proof {
                    assert((")")@ =~= seq![')']);
                    if items@.len() == 0 {
                        assert(out@ =~= seq!['('] + seq![')']);
                    } else {
                        assert(m.drop_first().take(items@.len() - 1) =~= m.drop_first());
                        assert(out@ =~= seq!['('] + display_of(m[0]) + rest_items_text(
                            m.drop_first(),
                        ) + seq![')']);
                    }
                }
                out
            }
        }
    }
}

/// Appending one element appends its model.
pub proof fn lemma_expr_list_model_push(items: Seq<Expr>, e: Expr)
    ensures
        expr_list_model(items.push(e)) == expr_list_model(items) + seq![expr_model(e)],
{
    lemma_expr_list_model(items);
    lemma_expr_list_model(items.push(e));
    assert forall|k: int| 0 <= k < items.len() + 1 implies expr_list_model(items.push(e))[k] == (
    expr_list_model(items) + seq![expr_model(e)])[k] by {
        assert(expr_list_model(items.push(e))[k] == expr_model(items.push(e)[k]));
        if k < items.len() {
            assert(items.push(e)[k] == items[k]);
            assert(expr_list_model(items)[k] == expr_model(items[k]));
        } else {
            assert(items.push(e)[k] == e);
        }
    }
    assert(expr_list_model(items.push(e)) =~= expr_list_model(items) + seq![expr_model(e)]);
}

} // verus!
