use fasteval::Evaler;
use std::collections::BTreeMap;
use taurus_bridge::eval::{EvalOutcome, EvalRepl, EvalStep, EvalUser};
use taurus_bridge::scope::Scope;

fn namespace(user: &EvalUser) -> Vec<BTreeMap<String, f64>> {
    let mut layers = Vec::new();
    for i in 0..user.depth() {
        let scope = user.scope(i).unwrap();
        let mut layer = BTreeMap::new();
        for j in 0..scope.len() {
            let (name, bits) = scope.entry(j).unwrap();
            layer.insert(name.to_string(), f64::from_bits(bits));
        }
        layers.push(layer);
    }
    layers
}

fn key(name: &str, args: &[f64]) -> String {
    let mut key = name.to_string();
    for arg in args {
        key.push_str(" , ");
        key.push_str(&arg.to_string());
    }
    key
}

fn evaluate(user: &EvalUser, expr: &str) -> EvalOutcome {
    let parser = fasteval::Parser::new();
    let mut slab = fasteval::Slab::new();
    let mut ns = |name: &str, args: Vec<f64>| -> Option<f64> {
        user.lookup(&key(name, &args)).map(f64::from_bits)
    };
    let parsed = match parser.parse(expr, &mut slab.ps) {
        Ok(i) => i,
        Err(_) => return EvalOutcome::ParseError,
    };
    match parsed.from(&slab.ps).eval(&slab, &mut ns) {
        Ok(value) => EvalOutcome::Value { bits: value.to_bits(), text: format!("{}", value) },
        Err(_) => EvalOutcome::EvalError,
    }
}

fn say(user: &mut EvalUser, line: &str) -> String {
    match user.begin(line) {
        EvalStep::Reply(reply) => reply,
        EvalStep::Evaluate { expr, bind } => {
            let outcome = evaluate(user, &expr);
            user.finish(&bind, outcome)
        }
    }
}

fn number(user: &EvalUser, name: &str) -> Option<f64> {
    user.lookup(name).map(f64::from_bits)
}

#[test]
fn fresh_user_has_one_empty_scope() {
    let user = EvalUser::new();
    assert_eq!(user.depth(), 1);
    assert_eq!(user.scope(0).unwrap().len(), 0);
    assert!(user.scope(1).is_none());
    assert_eq!(user.lookup("x"), None);
}

#[test]
fn session_binds_and_scopes_variables() {
    let mut user = EvalUser::new();
    assert_eq!(say(&mut user, "let x = 2+2"), "4");
    assert_eq!(say(&mut user, "x*2"), "8");
    assert_eq!(say(&mut user, "push"), "Entered scope[2]");
    assert_eq!(user.depth(), 2);
    assert_eq!(say(&mut user, "let y = 1"), "1");
    assert_eq!(say(&mut user, "x + y"), "5");
    assert_eq!(say(&mut user, "pop"), "Exited scope[1]");
    assert_eq!(user.depth(), 1);
    assert_eq!(say(&mut user, "y"), "evaluation error");
    assert_eq!(number(&user, "y"), None);
    assert_eq!(number(&user, "x"), Some(4.0));
}

#[test]
fn underscore_holds_the_last_result() {
    let mut user = EvalUser::new();
    assert_eq!(say(&mut user, "1.5 * 2"), "3");
    assert_eq!(number(&user, "_"), Some(3.0));
    assert_eq!(say(&mut user, "_ + 1"), "4");
    assert_eq!(say(&mut user, "let z = 10 / 4"), "2.5");
    assert_eq!(number(&user, "_"), Some(2.5));
    assert_eq!(number(&user, "z"), Some(2.5));
    assert_eq!(user.scope(0).unwrap().len(), 2);
    assert_eq!(say(&mut user, "let _ = 7"), "7");
    assert_eq!(number(&user, "_"), Some(7.0));
    assert_eq!(user.scope(0).unwrap().len(), 2);
}

#[test]
fn inner_scope_shadows_outer() {
    let mut user = EvalUser::new();
    say(&mut user, "let x = 1");
    say(&mut user, "push");
    assert_eq!(say(&mut user, "x"), "1");
    say(&mut user, "let x = 2");
    assert_eq!(say(&mut user, "x"), "2");
    assert_eq!(number(&user, "x"), Some(2.0));
    assert_eq!(user.scope(0).unwrap().get("x").map(f64::from_bits), Some(1.0));
    assert_eq!(user.scope(1).unwrap().get("x").map(f64::from_bits), Some(2.0));
    say(&mut user, "pop");
    assert_eq!(say(&mut user, "x"), "1");
}

#[test]
fn blank_line_is_a_no_op() {
    let mut user = EvalUser::new();
    assert_eq!(say(&mut user, ""), "");
    assert_eq!(say(&mut user, "   \t "), "");
    assert_eq!(user.depth(), 1);
    assert_eq!(user.scope(0).unwrap().len(), 0);
}

#[test]
fn malformed_let_replies_the_usage() {
    let usage = "incorrect 'let' syntax. Should be: let x = ...";
    let mut user = EvalUser::new();
    assert_eq!(say(&mut user, "let"), usage);
    assert_eq!(say(&mut user, "let x"), usage);
    assert_eq!(say(&mut user, "let x ="), usage);
    assert_eq!(say(&mut user, "let x 3 4"), usage);
    assert_eq!(say(&mut user, "let x == 4"), usage);
    assert_eq!(user.scope(0).unwrap().len(), 0);
}

#[test]
fn let_joins_the_words_of_its_expression() {
    let mut user = EvalUser::new();
    assert_eq!(
        user.begin("  let  total   =  1   +   2 "),
        EvalStep::Evaluate { expr: "1 + 2".to_string(), bind: "total".to_string() }
    );
    assert_eq!(
        user.begin("  1   +   2 "),
        EvalStep::Evaluate { expr: "1   +   2".to_string(), bind: "_".to_string() }
    );
}

#[test]
fn errors_leave_the_scopes_alone() {
    let mut user = EvalUser::new();
    say(&mut user, "let x = 3");
    assert_eq!(say(&mut user, "1 +"), "parse error");
    assert_eq!(say(&mut user, "nothere + 1"), "evaluation error");
    assert_eq!(say(&mut user, "let q = nothere"), "evaluation error");
    assert_eq!(number(&user, "_"), Some(3.0));
    assert_eq!(number(&user, "q"), None);
    assert_eq!(user.scope(0).unwrap().len(), 2);
}

#[test]
fn clear_leaves_exactly_one_empty_scope() {
    let mut user = EvalUser::new();
    say(&mut user, "let x = 1");
    say(&mut user, "push");
    say(&mut user, "let y = 2");
    say(&mut user, "push");
    assert_eq!(user.depth(), 3);
    assert_eq!(say(&mut user, "clear"), "Cleared all variables");
    assert_eq!(user.depth(), 1);
    assert_eq!(user.scope(0).unwrap().len(), 0);
    assert_eq!(say(&mut user, "x"), "evaluation error");
}

#[test]
fn pop_on_a_single_scope_leaves_one_empty_scope() {
    let mut user = EvalUser::new();
    say(&mut user, "let x = 1");
    assert_eq!(say(&mut user, "pop"), "Exited scope[1]");
    assert_eq!(user.depth(), 1);
    assert_eq!(user.scope(0).unwrap().len(), 0);
    assert_eq!(say(&mut user, "clear"), "Cleared all variables");
    assert_eq!(say(&mut user, "pop"), "Exited scope[1]");
    assert_eq!(user.depth(), 1);
}

#[test]
fn push_and_pop_state_the_new_depth() {
    let mut user = EvalUser::new();
    for depth in 2..=12 {
        assert_eq!(say(&mut user, "push"), format!("Entered scope[{}]", depth));
        assert_eq!(user.depth(), depth);
    }
    assert_eq!(say(&mut user, "pop now"), "Exited scope[11]");
    assert_eq!(user.depth(), 11);
}

#[test]
fn keywords_lead_only_as_whole_words() {
    let mut user = EvalUser::new();
    assert_eq!(
        user.begin("pushed"),
        EvalStep::Evaluate { expr: "pushed".to_string(), bind: "_".to_string() }
    );
    assert_eq!(user.depth(), 1);
    assert_eq!(user.begin("clear everything"), EvalStep::Reply("Cleared all variables".to_string()));
}

#[test]
fn finish_binds_the_value_in_the_top_scope() {
    let mut user = EvalUser::new();
    say(&mut user, "push");
    let reply = user.finish(
        "speed",
        EvalOutcome::Value { bits: 2.5f64.to_bits(), text: "2.5".to_string() },
    );
    assert_eq!(reply, "2.5");
    assert_eq!(user.scope(0).unwrap().len(), 0);
    assert_eq!(user.scope(1).unwrap().get("speed"), Some(2.5f64.to_bits()));
    assert_eq!(user.scope(1).unwrap().get("_"), Some(2.5f64.to_bits()));
    assert_eq!(user.finish("speed", EvalOutcome::ParseError), "parse error");
    assert_eq!(user.finish("speed", EvalOutcome::EvalError), "evaluation error");
    assert_eq!(user.scope(1).unwrap().get("speed"), Some(2.5f64.to_bits()));
}

#[test]
fn scope_binds_each_name_once() {
    let mut scope = Scope::new();
    assert_eq!(scope.len(), 0);
    assert_eq!(scope.get("a"), None);
    assert_eq!(scope.entry(0), None);
    scope.set("a", 1);
    scope.set("b", 2);
    scope.set("a", 3);
    assert_eq!(scope.len(), 2);
    assert_eq!(scope.get("a"), Some(3));
    assert_eq!(scope.get("b"), Some(2));
    assert_eq!(scope.get("A"), None);
    assert_eq!(scope.entry(0), Some(("a", 3)));
    assert_eq!(scope.entry(1), Some(("b", 2)));
    assert_eq!(scope.entry(2), None);
}

fn tell(repl: &mut EvalRepl, username: &str, line: &str) -> String {
    match repl.begin(username, line) {
        EvalStep::Reply(reply) => reply,
        EvalStep::Evaluate { expr, bind } => {
            let outcome = evaluate(repl.user(username).unwrap(), &expr);
            repl.finish(username, &bind, outcome)
        }
    }
}

#[test]
fn each_user_has_a_calculator_of_their_own() {
    let mut repl = EvalRepl::new();
    assert!(repl.user("Steve").is_none());
    assert_eq!(tell(&mut repl, "Steve", "let x = 2+2"), "4");
    assert_eq!(tell(&mut repl, "Alex", "x"), "evaluation error");
    assert_eq!(tell(&mut repl, "Alex", "let x = 10"), "10");
    assert_eq!(tell(&mut repl, "Alex", "push"), "Entered scope[2]");
    assert_eq!(tell(&mut repl, "Steve", "x*2"), "8");
    assert_eq!(tell(&mut repl, "Alex", "x*2"), "20");
    assert_eq!(repl.user("Steve").unwrap().depth(), 1);
    assert_eq!(repl.user("Alex").unwrap().depth(), 2);
    assert!(repl.user("steve").is_none());
}

#[test]
fn a_calculator_is_made_at_the_first_line() {
    let mut repl = EvalRepl::new();
    assert_eq!(repl.begin("Steve", ""), EvalStep::Reply(String::new()));
    let user = repl.user("Steve").unwrap();
    assert_eq!(user.depth(), 1);
    assert_eq!(user.scope(0).unwrap().len(), 0);
    assert_eq!(tell(&mut repl, "Steve", "pop"), "Exited scope[1]");
    assert_eq!(repl.finish("Bob", "y", EvalOutcome::ParseError), "parse error");
    assert_eq!(repl.user("Bob").unwrap().depth(), 1);
}

#[test]
fn lookup_finds_what_the_layered_maps_find() {
    let mut user = EvalUser::new();
    for line in ["let a = 1", "let b = 2", "push", "let a = 3", "let c = 4", "push", "let b = 5"] {
        say(&mut user, line);
    }
    let layers = namespace(&user);
    assert_eq!(layers.len(), 3);
    for name in ["a", "b", "c", "_", "d", ""] {
        let layered = layers.iter().rev().find_map(|layer| layer.get(name).copied());
        assert_eq!(number(&user, name), layered, "{name}");
    }
    assert_eq!(number(&user, "a"), Some(3.0));
    assert_eq!(number(&user, "b"), Some(5.0));
    assert_eq!(number(&user, "c"), Some(4.0));
    assert_eq!(say(&mut user, "a + b + c"), "12");
    assert_eq!(say(&mut user, "a(1)"), "evaluation error");
}
