use lux::clock::Clock;
use lux::dict::Dict;
use lux::environment::Environment;
use lux::function::{Function, LuxFunction};
use lux::literal::{Float, Literal};
use lux::token::Token;
use lux::token_type::Types;
use std::rc::Rc;

fn number(value: f64) -> Literal {
    Literal::Number(Float(value.to_bits()))
}

fn name(text: &str) -> Token {
    Token::new(Types::IDENTIFIER, text.to_string(), Literal::Nil, 4)
}

/// Three environments: 0 holds `a` and `b`, 1 within 0 holds `b`, 2 within 1
/// holds `c`.
fn store() -> Vec<Environment> {
    let mut outer = Environment::new();
    outer.define("a".to_string(), number(1.0));
    outer.define("b".to_string(), number(2.0));
    let mut middle = Environment::new_with(0);
    middle.define("b".to_string(), number(20.0));
    let mut inner = Environment::new_with(1);
    inner.define("c".to_string(), number(300.0));
    vec![outer, middle, inner]
}

#[test]
fn dictionary_holds_the_last_value_of_a_name() {
    let mut dict: Dict<u32> = Dict::new();
    assert_eq!(dict.get(&"a".to_string()), None);
    assert!(!dict.contains_key(&"a".to_string()));
    dict.insert("a".to_string(), 1);
    dict.insert("b".to_string(), 2);
    dict.insert("a".to_string(), 3);
    assert_eq!(dict.get(&"a".to_string()), Some(&3));
    assert_eq!(dict.get(&"b".to_string()), Some(&2));
    assert_eq!(dict.get(&"c".to_string()), None);
    assert!(dict.contains_key(&"b".to_string()));
    assert_eq!(dict.entries.len(), 2);
}

#[test]
fn define_sets_and_replaces() {
    let mut environment = Environment::new();
    assert!(environment.enclosing.is_none());
    assert!(environment.lookup(&"a".to_string()).is_none());
    environment.define("a".to_string(), number(1.0));
    assert!(environment.lookup(&"a".to_string()).unwrap().equals(&number(1.0)));
    environment.define("a".to_string(), Literal::Nil);
    assert!(environment.lookup(&"a".to_string()).unwrap().equals(&Literal::Nil));
    assert_eq!(Environment::new_with(7).enclosing, Some(7));
}

#[test]
fn ancestor_walks_outwards() {
    let environments = store();
    assert_eq!(Environment::ancestor(&environments, 2, 0), Some(2));
    assert_eq!(Environment::ancestor(&environments, 2, 1), Some(1));
    assert_eq!(Environment::ancestor(&environments, 2, 2), Some(0));
    assert_eq!(Environment::ancestor(&environments, 2, 3), None);
    assert_eq!(Environment::ancestor(&environments, 0, 0), Some(0));
    assert_eq!(Environment::ancestor(&environments, 0, 1), None);
    assert_eq!(Environment::ancestor(&environments, 3, 0), None);
}

#[test]
fn get_at_reads_the_environment_at_the_distance() {
    let environments = store();
    assert!(Environment::get_at(&environments, 2, 0, &name("c")).unwrap().equals(&number(300.0)));
    assert!(Environment::get_at(&environments, 2, 1, &name("b")).unwrap().equals(&number(20.0)));
    assert!(Environment::get_at(&environments, 2, 2, &name("b")).unwrap().equals(&number(2.0)));
    assert!(Environment::get_at(&environments, 2, 2, &name("a")).unwrap().equals(&number(1.0)));
    let error = Environment::get_at(&environments, 2, 0, &name("a")).unwrap_err();
    assert_eq!(error.message, "Undefined variable 'a'.");
    assert_eq!(error.token.lexeme, "a");
    assert_eq!(error.token.line, 4);
    assert!(Environment::get_at(&environments, 2, 3, &name("a")).is_err());
    assert!(Environment::get_at(&environments, 9, 0, &name("a")).is_err());
}

#[test]
fn assign_at_writes_the_environment_at_the_distance() {
    let mut environments = store();
    Environment::assign_at(&mut environments, 2, 2, &name("b"), number(5.0)).unwrap();
    assert!(environments[0].lookup(&"b".to_string()).unwrap().equals(&number(5.0)));
    assert!(environments[1].lookup(&"b".to_string()).unwrap().equals(&number(20.0)));
    let error = Environment::assign_at(&mut environments, 2, 0, &name("b"), number(6.0)).unwrap_err();
    assert_eq!(error.message, "Undefined variable 'b'.");
    assert!(environments[2].lookup(&"b".to_string()).is_none());
    assert!(Environment::assign_at(&mut environments, 2, 5, &name("b"), number(6.0)).is_err());
    assert_eq!(environments.len(), 3);
}

#[test]
fn get_finds_the_nearest_value() {
    let environments = store();
    assert!(Environment::get(&environments, 2, &name("c")).unwrap().equals(&number(300.0)));
    assert!(Environment::get(&environments, 2, &name("b")).unwrap().equals(&number(20.0)));
    assert!(Environment::get(&environments, 2, &name("a")).unwrap().equals(&number(1.0)));
    assert!(Environment::get(&environments, 0, &name("b")).unwrap().equals(&number(2.0)));
    let error = Environment::get(&environments, 1, &name("c")).unwrap_err();
    assert_eq!(error.message, "Undefined variable 'c'.");
    assert!(Environment::get(&environments, 5, &name("a")).is_err());
}

#[test]
fn assign_writes_the_nearest_value() {
    let mut environments = store();
    Environment::assign(&mut environments, 2, &name("b"), number(7.0)).unwrap();
    assert!(environments[1].lookup(&"b".to_string()).unwrap().equals(&number(7.0)));
    assert!(environments[0].lookup(&"b".to_string()).unwrap().equals(&number(2.0)));
    Environment::assign(&mut environments, 2, &name("a"), number(8.0)).unwrap();
    assert!(environments[0].lookup(&"a".to_string()).unwrap().equals(&number(8.0)));
    let error = Environment::assign(&mut environments, 2, &name("z"), number(9.0)).unwrap_err();
    assert_eq!(error.message, "Undefined variable 'z'.");
}

#[test]
fn a_chain_that_never_ends_is_given_up() {
    let mut first = Environment::new_with(1);
    first.define("x".to_string(), number(1.0));
    let second = Environment::new_with(0);
    let environments = vec![first, second];
    assert!(Environment::get(&environments, 1, &name("x")).unwrap().equals(&number(1.0)));
    assert!(Environment::get(&environments, 1, &name("missing")).is_err());
    assert_eq!(Environment::ancestor(&environments, 0, 5), Some(1));
}

#[test]
fn clock_values() {
    let clock = Clock::with_id(17);
    assert_eq!(clock.arity(), 0);
    assert_eq!(clock.id(), 17);
    assert_eq!(clock.to_str(), "<native fn>");
    assert_eq!(Clock::new().arity, 0);
    assert!(Literal::Clock(Clock::with_id(1)).equals(&Literal::Clock(Clock::with_id(1))));
    assert!(!Literal::Clock(Clock::with_id(1)).equals(&Literal::Clock(Clock::with_id(2))));
}

#[test]
fn function_values() {
    let declaration = Rc::new(Function {
        name: name("area"),
        param: vec![name("w"), name("h")],
        body: Vec::new(),
    });
    let function = LuxFunction::with_id(declaration.clone(), 3, 42);
    assert_eq!(function.arity(), 2);
    assert_eq!(function.id(), 42);
    assert_eq!(function.closure, 3);
    assert_eq!(function.to_str(), "<fn area>");
    let copy = function.duplicate();
    assert_eq!(copy.id, 42);
    assert_eq!(copy.closure, 3);
    assert!(Rc::ptr_eq(&copy.declaration, &function.declaration));
    let drawn = LuxFunction::new(declaration.clone(), 5);
    assert_eq!(drawn.closure, 5);
    assert!(Rc::ptr_eq(&drawn.declaration, &declaration));
    let value = Literal::Function(Box::new(function));
    let same = value.clone();
    assert!(value.equals(&same));
    assert!(!value.equals(&Literal::Function(Box::new(LuxFunction::with_id(declaration, 3, 43)))));
    assert_eq!(value.to_str(), "<fn area>");
    assert!(value.is_truthy());
}

#[test]
fn literal_values() {
    assert!(!Literal::Nil.is_truthy());
    assert!(!Literal::Bool(false).is_truthy());
    assert!(Literal::Bool(true).is_truthy());
    assert!(number(0.0).is_truthy());
    assert!(Literal::String(String::new()).is_truthy());
    assert_eq!(Literal::Nil.to_str(), "nil");
    assert_eq!(Literal::Bool(true).to_str(), "true");
    assert_eq!(Literal::Bool(false).to_str(), "false");
    assert_eq!(Literal::String("as is".to_string()).to_str(), "as is");
    assert_eq!(number(2.5).to_str(), "2.5");
    assert!(Literal::String("a".to_string()).clone().equals(&Literal::String("a".to_string())));
    assert!(!Literal::Nil.equals(&Literal::Bool(false)));
    assert!(!number(1.0).equals(&Literal::String("1".to_string())));
    assert_eq!(number(1.0), number(1.0));
    assert_eq!(Literal::String("a".to_string()), Literal::String("a".to_string()));
    assert_ne!(Literal::Nil, Literal::Bool(false));
    assert_ne!(number(0.0), number(-0.0));
    assert!(Literal::Clock(Clock::default()).is_truthy());
}
