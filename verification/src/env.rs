//! The binding environment: a mapping from symbol name to bound value,
//! pre-populated with the four built-in operators at construction.

use crate::expr::{expr_model, BuiltinOp, Expr, ExprModel};
use vstd::prelude::*;
use vstd::string::StringExecFns;

verus! {

/// The mapping from symbol name to bound value. Entries are held in
/// insertion order; on lookup the earliest entry for a name wins.
pub struct RispEnv {
    pub data: Vec<(String, Expr)>,
}

/// The model of a binding list: a map in which an earlier entry shadows a
/// later one with the same name.
pub open spec fn bindings_map(entries: Seq<(String, Expr)>) -> Map<Seq<char>, ExprModel>
    decreases entries.len(),
{
    if entries.len() == 0 {
        Map::empty()
    } else {
        bindings_map(entries.drop_first()).insert(entries[0].0@, expr_model(entries[0].1))
    }
}

/// The first entry for `name`, scanning from the front.
spec fn lookup_entries(entries: Seq<(String, Expr)>, name: Seq<char>) -> Option<Expr>
    decreases entries.len(),
{
    if entries.len() == 0 {
        None
    } else if entries[0].0@ == name {
        Some(entries[0].1)
    } else {
        lookup_entries(entries.drop_first(), name)
    }
}

/// The front-to-back scan agrees with the shadowing map: it finds a value
/// exactly when the map has the name, and then finds the value the map holds.
proof fn lemma_lookup_matches_map(entries: Seq<(String, Expr)>, name: Seq<char>)
    ensures
        match lookup_entries(entries, name) {
            Some(e) => bindings_map(entries).contains_key(name) && bindings_map(entries)[name]
                == expr_model(e),
            None => !bindings_map(entries).contains_key(name),
        },
    decreases entries.len(),
{
    if entries.len() > 0 {
        lemma_lookup_matches_map(entries.drop_first(), name);
    }
}

/// Scanning past a prefix without the name does not change what is found.
proof fn lemma_lookup_skip(entries: Seq<(String, Expr)>, name: Seq<char>, i: int)
    requires
        0 <= i <= entries.len(),
        forall|j: int| 0 <= j < i ==> #[trigger] entries[j].0@ != name,
    ensures
        lookup_entries(entries, name) == lookup_entries(entries.skip(i), name),
    decreases i,
{
    if i > 0 {
        lemma_lookup_skip(entries.drop_first(), name, i - 1);
        assert(entries.drop_first().skip(i - 1) =~= entries.skip(i));
    } else {
        assert(entries.skip(0) =~= entries);
    }
}

impl RispEnv {
    /// The value bound to `name`, if any.
    pub fn get(&self, name: &String) -> (r: Option<&Expr>)
        ensures
            match r {
                Some(e) => self@.contains_key(name@) && self@[name@] == expr_model(*e),
                None => !self@.contains_key(name@),
            },
    {
        let n = self.data.len();
        let mut i: usize = 0;
        while i < n
            invariant
                n == self.data.len(),
                i <= n,
                forall|j: int| 0 <= j < i ==> #[trigger] self.data@[j].0@ != name@,
            decreases n - i,
        {
            if self.data[i].0 == *name {
                proof {
                    lemma_lookup_skip(self.data@, name@, i as int);
                    assert(self.data@.skip(i as int)[0] == self.data@[i as int]);
                    lemma_lookup_matches_map(self.data@, name@);
                }
                return Some(&self.data[i].1);
            }
            i += 1;
        }
        proof {
            lemma_lookup_skip(self.data@, name@, n as int);
            assert(self.data@.skip(n as int).len() == 0);
            lemma_lookup_matches_map(self.data@, name@);
        }
        None
    }
}

impl View for RispEnv {
    type V = Map<Seq<char>, ExprModel>;

    open spec fn view(&self) -> Map<Seq<char>, ExprModel> {
        bindings_map(self.data@)
    }
}

/// What the default environment binds: the four arithmetic built-ins and
/// nothing else.
pub open spec fn default_bindings() -> Map<Seq<char>, ExprModel> {
    Map::empty().insert("/"@, ExprModel::Func(BuiltinOp::Div)).insert(
        "*"@,
        ExprModel::Func(BuiltinOp::Mul),
    ).insert("-"@, ExprModel::Func(BuiltinOp::Sub)).insert("+"@, ExprModel::Func(BuiltinOp::Add))
}

/// The environment a session starts from: `+`, `-`, `*` and `/` bound to
/// their native operations.
pub fn default_env() -> (r: RispEnv)
    ensures
        r@ == default_bindings(),
{
    let mut data: Vec<(String, Expr)> = Vec::new();
    data.push((String::from_str("+"), Expr::Func(BuiltinOp::Add)));
    data.push((String::from_str("-"), Expr::Func(BuiltinOp::Sub)));
    data.push((String::from_str("*"), Expr::Func(BuiltinOp::Mul)));
    data.push((String::from_str("/"), Expr::Func(BuiltinOp::Div)));
    let env = RispEnv { data };
    proof {
        reveal_with_fuel(bindings_map, 5);
        let s = env.data@;
        assert(s.drop_first().drop_first().drop_first().drop_first().len() == 0);
        assert(s.drop_first().drop_first().drop_first()[0] == s[3]);
        assert(s.drop_first().drop_first()[0] == s[2]);
        assert(s.drop_first()[0] == s[1]);
        assert(env@ == default_bindings());
    }
    env
}

} // verus!
