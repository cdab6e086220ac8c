//! The conditional expression evaluator: a boolean expression evaluated
//! against named string variables, with a defined fallback when a
//! referenced variable is absent.

use vstd::prelude::*;
use vstd::string::StringExecFns;

use crate::settings::env_view;

use evalexpr::ContextWithMutableVariables;

verus! {

/// What evaluating an expression produced, reduced to the cases the
/// success rule distinguishes: a boolean, an integer, a value of any
/// other kind, a lookup of an unbound variable, or any other evaluation
/// error with its text.
pub enum EvalOutcome {
    Bool(bool),
    Int(i64),
    OtherValue,
    UnboundVariable,
    EvalError { message: String },
}

/// The outcome of evaluating an expression under the given variable
/// bindings (name and string value, in binding order).
pub uninterp spec fn eval_outcome_of(expr: Seq<char>, vars: Seq<(Seq<char>, Seq<char>)>)
    -> EvalOutcome;

/// Relies on `evalexpr::eval_with_context` over a `HashMapContext`
/// holding the given variables as string values: with no optional
/// feature enabled, evaluation is a pure function of the expression and
/// the bindings.
#[verifier::external_body]
fn eval_expression(input: &str, vars: &Vec<(String, String)>) -> (r: EvalOutcome)
    ensures
        r == eval_outcome_of(input@, env_view(vars@)),
{
    let mut ctx = evalexpr::HashMapContext::default();
    for (key, value) in vars.iter() {
        if let Err(e) = ctx.set_value(key.clone(), evalexpr::Value::String(value.clone())) {
            return EvalOutcome::EvalError { message: format!("{}", e) };
        }
    }
    match evalexpr::eval_with_context(input, &ctx) {
        Ok(evalexpr::Value::Boolean(b)) => EvalOutcome::Bool(b),
        Ok(evalexpr::Value::Int(i)) => EvalOutcome::Int(i),
        Ok(_) => EvalOutcome::OtherValue,
        Err(evalexpr::EvalexprError::VariableIdentifierNotFound(_)) => {
            EvalOutcome::UnboundVariable
        },
        Err(e) => EvalOutcome::EvalError { message: format!("{}", e) },
    }
}

/// The same pairs with every name prefixed by `$`, the form variables
/// take inside the expression language.
pub open spec fn dollar_prefixed(vars: Seq<(Seq<char>, Seq<char>)>) -> Seq<(Seq<char>, Seq<char>)> {
    vars.map_values(|p: (Seq<char>, Seq<char>)| (seq!['$'] + p.0, p.1))
}

/// Prefixes every variable name with `$`.
fn prefix_vars(vars: &Vec<(String, String)>) -> (r: Vec<(String, String)>)
    ensures
        env_view(r@) == dollar_prefixed(env_view(vars@)),
{
    let ghost target = dollar_prefixed(env_view(vars@));
    let mut r: Vec<(String, String)> = Vec::new();
    proof {
        assert(env_view(r@) =~= dollar_prefixed(env_view(vars@)).take(0));
    }
    let n = vars.len();
    for i in 0..n
        invariant
            n == vars@.len(),
            env_view(r@) == dollar_prefixed(env_view(vars@)).take(i as int),
    {
        let mut key = String::from_str("$");
        key.append(vars[i].0.as_str());
        let value = vars[i].1.clone();
        let ghost pre = r@;
        r.push((key, value));
        proof {
            reveal_strlit("$");
            assert("$"@ =~= seq!['$']);
            let all = env_view(vars@);
            let pall = dollar_prefixed(all);
            assert(all.len() == vars@.len());
            assert(pall.len() == all.len());
            assert(env_view(pre).len() == pre.len());
            assert(pall.take(i as int).len() == i as int);
            assert(pre.len() == i as int);
            assert(r@.len() == i + 1);
            assert(all[i as int] == (vars@[i as int].0@, vars@[i as int].1@));
            assert(pall[i as int] == (seq!['$'] + all[i as int].0, all[i as int].1));
            assert(key@ == seq!['$'] + vars@[i as int].0@);
            assert forall|t: int| 0 <= t < r@.len() implies env_view(r@)[t] == pall.take(i + 1)[t]
                by {
                assert(pall.take(i + 1)[t] == pall[t]);
                if t < pre.len() {
                    assert(r@[t] == pre[t]);
                    assert(env_view(pre)[t] == pall.take(i as int)[t]);
                    assert(pall.take(i as int)[t] == pall[t]);
                } else {
                    assert(r@[t] == (key, value));
                }
            }
            assert(env_view(r@) =~= pall.take(i + 1));
        }
    }
    proof {
        assert(dollar_prefixed(env_view(vars@)).take(n as int) =~= dollar_prefixed(
            env_view(vars@),
        ));
    }
    r
}

/// The boolean a raw evaluation outcome is interpreted as: an unbound
/// variable is false rather than an error; a boolean is itself; the
/// integer zero is true (the shell's success convention) and any other
/// integer false; any other value kind is false; any other evaluation
/// error propagates.
pub open spec fn success_of(res: EvalOutcome) -> Result<bool, Seq<char>> {
    match res {
        EvalOutcome::UnboundVariable => Ok(false),
        EvalOutcome::EvalError { message } => Err(message@),
        EvalOutcome::Bool(b) => Ok(b),
        EvalOutcome::Int(i) => Ok(i == 0),
        EvalOutcome::OtherValue => Ok(false),
    }
}

/// The view of an interpretation result.
pub open spec fn result_view(r: Result<bool, String>) -> Result<bool, Seq<char>> {
    match r {
        Ok(b) => Ok(b),
        Err(m) => Err(m@),
    }
}

/// Interprets a raw evaluation outcome as a boolean, as `success_of`
/// states.
pub fn is_success(res: EvalOutcome) -> (r: Result<bool, String>)
    ensures
        result_view(r) == success_of(res),
{
    match res {
        EvalOutcome::UnboundVariable => Ok(false),
        EvalOutcome::EvalError { message } => Err(message),
        EvalOutcome::Bool(b) => Ok(b),
        EvalOutcome::Int(i) => Ok(i == 0),
        EvalOutcome::OtherValue => Ok(false),
    }
}

/// Evaluates a boolean expression against named string variables.  Each
/// name is bound under a `$` prefix; the outcome is interpreted by the
/// `success_of` rule, so a reference to an absent variable makes the
/// whole expression false instead of an error.
pub fn run_expression(input: &str, vars: Vec<(String, String)>) -> (r: Result<bool, String>)
    ensures
        result_view(r) == success_of(
            eval_outcome_of(input@, dollar_prefixed(env_view(vars@))),
        ),
{
    let prefixed = prefix_vars(&vars);
    let outcome = eval_expression(input, &prefixed);
    is_success(outcome)
}

} // verus!
