use typecore::module::{
    binding_groups, Constructor, DataDefinition, encode_binding_identifier, int_to_string, Binding, Expr, Literal, Location,
    Match, Pattern, TypeDeclaration, TypedExpr,
};
use typecore::types::{function_type_, int_type, qualified, Kind, Type};

fn binding(name: &str) -> Binding<String> {
    Binding {
        name: name.to_string(),
        arguments: vec![Pattern::WildCardPattern],
        matches: Match::Simple(TypedExpr::new(Expr::Identifier(name.to_string()))),
        typ: qualified(Vec::new(), Type::new_var("a".to_string())),
    }
}

#[test]
fn groups_of_equations() {
    let bs = vec![binding("not"), binding("not"), binding("undefined")];
    assert_eq!(binding_groups(&bs), vec![(0, 2), (2, 3)]);
    assert_eq!(binding_groups(&Vec::new()), Vec::<(usize, usize)>::new());
    let alternating = vec![binding("f"), binding("g"), binding("f")];
    assert_eq!(binding_groups(&alternating), vec![(0, 1), (1, 2), (2, 3)]);
}

#[test]
fn typed_expression_defaults() {
    let e: TypedExpr<String> = TypedExpr::new(Expr::Identifier("x".to_string()));
    assert_eq!(e.location, Location { column: -1, row: -1, absolute: -1 });
    assert_eq!(e.typ.var().id, "a");
    assert_eq!(*e.typ.kind(), Kind::StarKind);
    let loc = Location { column: 3, row: 4, absolute: 20 };
    let f: TypedExpr<String> = TypedExpr::with_location(Expr::Identifier("y".to_string()), loc);
    assert_eq!(f.location, loc);
}

#[test]
fn binding_identifiers_combine_type_and_method() {
    assert_eq!(encode_binding_identifier(&"Pair".to_string(), "=="), "#Pair==");
    assert_eq!(encode_binding_identifier(&"Shape".to_string(), "compare"), "#Shapecompare");
}

#[test]
fn patterns_render() {
    let p: Pattern<String> = Pattern::ConstructorPattern(
        "Just".to_string(),
        vec![Pattern::IdentifierPattern("x".to_string()), Pattern::NumberPattern(-12), Pattern::WildCardPattern],
    );
    assert_eq!(p.to_string(), "(Just  x -12 _)");
    let nested: Pattern<String> = Pattern::ConstructorPattern("Nil".to_string(), Vec::new());
    assert_eq!(nested.to_string(), "(Nil )");
    assert_eq!(Pattern::<String>::NumberPattern(0).to_string(), "0");
}

#[test]
fn literals_render() {
    assert_eq!(Literal::Integral(1234).to_string(), "1234");
    assert_eq!(Literal::Fractional("3.5".to_string()).to_string(), "3.5");
    assert_eq!(Literal::String("hi".to_string()).to_string(), "\"hi\"");
    assert_eq!(Literal::Char('c').to_string(), "'c'");
    assert_eq!(int_to_string(i64::MIN), "-9223372036854775808");
    assert_eq!(int_to_string(i64::MAX), "9223372036854775807");
    assert_eq!(int_to_string(-7), "-7");
}

#[test]
fn type_declarations_render() {
    let d = TypeDeclaration {
        typ: qualified(Vec::new(), function_type_(int_type(), int_type())),
        name: "succ".to_string(),
    };
    assert_eq!(d.to_string(), "succ :: [] => Int -> Int");
}

#[test]
fn data_definition_well_formedness() {
    let ctor = |name: &str, tag: i64| Constructor {
        name: name.to_string(),
        typ: qualified(Vec::new(), Type::new_var("a".to_string())),
        tag,
        arity: 0,
    };
    let mut d = DataDefinition {
        constructors: vec![ctor("A", 0), ctor("B", 1)],
        typ: qualified(Vec::new(), Type::new_var("a".to_string())),
        parameters: vec![("a".to_string(), 0), ("b".to_string(), 1)],
        deriving: Vec::new(),
    };
    assert!(d.is_well_formed());
    d.parameters.push(("a".to_string(), 2));
    assert!(!d.is_well_formed());
    d.parameters.pop();
    d.constructors[1].tag = 5;
    assert!(!d.is_well_formed());
}
