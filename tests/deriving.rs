use typecore::core_syntax::{Binding, Expr, Name, NameSupply, Pattern};
use typecore::deriving::{generate_deriving, DerivingError};
use typecore::module::{Constructor, DataDefinition};
use typecore::types::{function_type_, int_type, qualified, Constraint, Kind, Type, TypeVariable};

#[derive(Clone, Debug, PartialEq)]
enum Val {
    Int(i64),
    Bool(bool),
    Order(i64),
    Data(String, u64, i64, Vec<i64>),
}

type Env = Vec<((String, u64), Val)>;

fn lookup(env: &Env, name: &Name) -> Val {
    for (k, v) in env.iter().rev() {
        if k.0 == name.name && k.1 == name.uid {
            return v.clone();
        }
    }
    panic!("unbound {}#{}", name.name, name.uid)
}

fn cmp(a: i64, b: i64) -> i64 {
    if a < b {
        -1
    } else if a > b {
        1
    } else {
        0
    }
}

fn matches(p: &Pattern, v: &Val) -> bool {
    match p {
        Pattern::WildCardPattern | Pattern::IdentifierPattern(_) => true,
        Pattern::ConstructorPattern(c, args) => match v {
            Val::Data(n, u, _, fs) => c.name.name == *n && c.name.uid == *u && args.len() == fs.len(),
            Val::Order(o) => c.name.name == "EQ" && *o == 0,
            _ => false,
        },
    }
}

fn bind(env: &mut Env, p: &Pattern, v: &Val) {
    match p {
        Pattern::IdentifierPattern(m) => env.push(((m.name.name.clone(), m.name.uid), v.clone())),
        Pattern::ConstructorPattern(_, args) => {
            if let Val::Data(_, _, _, fs) = v {
                for (a, f) in args.iter().zip(fs.iter()) {
                    env.push(((a.name.name.clone(), a.name.uid), Val::Int(*f)));
                }
            }
        }
        Pattern::WildCardPattern => {}
    }
}

fn eval(e: &Expr, env: &Env) -> Val {
    match e {
        Expr::Identifier(id) if id.name.uid == 0 => match id.name.name.as_str() {
            "True" => Val::Bool(true),
            "False" => Val::Bool(false),
            "EQ" => Val::Order(0),
            other => panic!("unknown global {}", other),
        },
        Expr::Identifier(id) => lookup(env, &id.name),
        Expr::Apply(f1, b) => match &**f1 {
            Expr::Apply(f0, a) => match &**f0 {
                Expr::Identifier(op) => {
                    let x = eval(a, env);
                    let y = eval(b, env);
                    match (op.name.name.as_str(), x, y) {
                        ("==", Val::Int(p), Val::Int(q)) => Val::Bool(p == q),
                        ("&&", Val::Bool(p), Val::Bool(q)) => Val::Bool(p && q),
                        ("compare", Val::Int(p), Val::Int(q)) => Val::Order(cmp(p, q)),
                        ("#compare_tags", Val::Data(_, _, t1, _), Val::Data(_, _, t2, _)) => {
                            Val::Order(cmp(t1, t2))
                        }
                        (o, _, _) => panic!("bad operator {}", o),
                    }
                }
                _ => panic!("bad application"),
            },
            _ => panic!("bad application"),
        },
        Expr::Lambda(_, _) => panic!("lambda in body"),
        Expr::Case(s, alts) => {
            let v = eval(s, env);
            for alt in alts.iter() {
                if matches(&alt.pattern, &v) {
                    let mut inner = env.clone();
                    bind(&mut inner, &alt.pattern, &v);
                    return eval(&alt.expression, &inner);
                }
            }
            panic!("no alternative matched")
        }
    }
}

fn call(b: &Binding, x: &Val, y: &Val) -> Val {
    match &b.expression {
        Expr::Lambda(l, body1) => match &**body1 {
            Expr::Lambda(r, body) => {
                let env = vec![
                    ((l.name.name.clone(), l.name.uid), x.clone()),
                    ((r.name.name.clone(), r.name.uid), y.clone()),
                ];
                eval(body, &env)
            }
            _ => panic!("not a binary function"),
        },
        _ => panic!("not a binary function"),
    }
}

fn ctor(name: &str, uid: u64, tag: i64, result: &str, fields: usize) -> Constructor<Name> {
    let mut typ = Type::new_op(result.to_string(), Vec::new());
    for _ in 0..fields {
        typ = function_type_(int_type(), typ);
    }
    Constructor {
        name: Name { name: name.to_string(), uid },
        typ: qualified(Vec::new(), typ),
        tag,
        arity: fields as i64,
    }
}

fn data(name: &str, ctors: Vec<Constructor<Name>>, deriving: &[&str]) -> DataDefinition<Name> {
    DataDefinition {
        constructors: ctors,
        typ: qualified(Vec::new(), Type::new_op(name.to_string(), Vec::new())),
        parameters: Vec::new(),
        deriving: deriving.iter().map(|s| s.to_string()).collect(),
    }
}

fn pair_data() -> DataDefinition<Name> {
    data("Pair", vec![ctor("Pair", 100, 0, "Pair", 2)], &["Eq", "Ord"])
}

fn pair(a: i64, b: i64) -> Val {
    Val::Data("Pair".to_string(), 100, 0, vec![a, b])
}

fn shape_data() -> DataDefinition<Name> {
    data(
        "Shape",
        vec![ctor("Circle", 200, 0, "Shape", 1), ctor("Square", 201, 1, "Shape", 2)],
        &["Eq", "Ord"],
    )
}

fn circle(r: i64) -> Val {
    Val::Data("Circle".to_string(), 200, 0, vec![r])
}

fn square(a: i64, b: i64) -> Val {
    Val::Data("Square".to_string(), 201, 1, vec![a, b])
}

fn derive(d: &DataDefinition<Name>) -> Vec<Binding> {
    let mut out = Vec::new();
    let mut supply = NameSupply::new();
    generate_deriving(&mut out, d, &mut supply).unwrap();
    out
}

#[test]
fn derived_names_and_types() {
    let out = derive(&pair_data());
    assert_eq!(out.len(), 2);
    assert_eq!(out[0].name.name.name, "#Pair==");
    assert_eq!(out[0].name.name.uid, 0);
    assert_eq!(out[0].name.typ.value.to_string(), "Pair -> Pair -> Bool");
    assert_eq!(out[1].name.name.name, "#Paircompare");
    assert_eq!(out[1].name.typ.value.to_string(), "Pair -> Pair -> Ordering");
}

#[test]
fn pair_equality() {
    let out = derive(&pair_data());
    assert_eq!(call(&out[0], &pair(1, 2), &pair(1, 2)), Val::Bool(true));
    assert_eq!(call(&out[0], &pair(1, 2), &pair(2, 1)), Val::Bool(false));
    assert_eq!(call(&out[0], &pair(1, 2), &pair(1, 3)), Val::Bool(false));
}

#[test]
fn pair_ordering_is_lexicographic() {
    let out = derive(&pair_data());
    assert_eq!(call(&out[1], &pair(1, 2), &pair(1, 5)), Val::Order(-1));
    assert_eq!(call(&out[1], &pair(2, 0), &pair(1, 99)), Val::Order(1));
    assert_eq!(call(&out[1], &pair(3, 3), &pair(3, 3)), Val::Order(0));
}

#[test]
fn compare_is_eq_exactly_when_equal() {
    let out = derive(&shape_data());
    let values = vec![circle(1), circle(2), square(1, 2), square(1, 3), square(2, 2)];
    for x in values.iter() {
        for y in values.iter() {
            let eq = call(&out[0], x, y) == Val::Bool(true);
            let ord_eq = call(&out[1], x, y) == Val::Order(0);
            assert_eq!(eq, ord_eq);
            assert_eq!(eq, x == y);
        }
    }
}

#[test]
fn earlier_constructor_is_less() {
    let out = derive(&shape_data());
    assert_eq!(call(&out[1], &circle(100), &square(0, 0)), Val::Order(-1));
    assert_eq!(call(&out[1], &square(0, 0), &circle(100)), Val::Order(1));
    assert_eq!(call(&out[0], &circle(1), &square(1, 1)), Val::Bool(false));
}

#[test]
fn zero_arity_constructor() {
    let d = data("Unit", vec![ctor("MkUnit", 300, 0, "Unit", 0)], &["Eq", "Ord"]);
    let out = derive(&d);
    let mk = Val::Data("MkUnit".to_string(), 300, 0, Vec::new());
    assert_eq!(call(&out[0], &mk, &mk), Val::Bool(true));
    assert_eq!(call(&out[1], &mk, &mk), Val::Order(0));
}

#[test]
fn three_fields_first_most_significant() {
    let d = data("T", vec![ctor("T", 400, 0, "T", 3)], &["Ord", "Eq"]);
    let out = derive(&d);
    let t = |a, b, c| Val::Data("T".to_string(), 400, 0, vec![a, b, c]);
    assert_eq!(out[0].name.name.name, "#Tcompare");
    assert_eq!(out[1].name.name.name, "#T==");
    assert_eq!(call(&out[0], &t(1, 9, 9), &t(2, 0, 0)), Val::Order(-1));
    assert_eq!(call(&out[0], &t(1, 2, 9), &t(1, 3, 0)), Val::Order(-1));
    assert_eq!(call(&out[0], &t(1, 2, 3), &t(1, 2, 1)), Val::Order(1));
    assert_eq!(call(&out[1], &t(1, 2, 3), &t(1, 2, 3)), Val::Bool(true));
    assert_eq!(call(&out[1], &t(1, 2, 3), &t(1, 2, 4)), Val::Bool(false));
}

#[test]
fn unsupported_class_is_reported() {
    let d = data("Pair", vec![ctor("Pair", 100, 0, "Pair", 2)], &["Eq", "Show", "Read"]);
    let mut out = derive(&pair_data());
    let before = out.len();
    let mut supply = NameSupply { unique_id: 40 };
    match generate_deriving(&mut out, &d, &mut supply) {
        Err(DerivingError::UnsupportedDerivation(name)) => assert_eq!(name, "Show"),
        other => panic!("unexpected {:?}", other.is_ok()),
    }
    assert_eq!(out.len(), before);
    assert_eq!(supply.unique_id, 40);
}

#[test]
fn malformed_data_type_is_reported() {
    let mut d = pair_data();
    d.typ = qualified(Vec::new(), Type::new_var("p".to_string()));
    let mut out = Vec::new();
    match generate_deriving(&mut out, &d, &mut NameSupply::new()) {
        Err(DerivingError::MalformedType(text)) => assert_eq!(text, "p"),
        other => panic!("unexpected {:?}", other.is_ok()),
    }
    assert!(out.is_empty());
}

#[test]
fn nothing_requested_gives_nothing() {
    let d = data("Pair", vec![ctor("Pair", 100, 0, "Pair", 2)], &[]);
    let mut out = Vec::new();
    assert!(generate_deriving(&mut out, &d, &mut NameSupply::new()).is_ok());
    assert!(out.is_empty());
}

#[test]
fn constraints_reach_the_parameters() {
    let a = TypeVariable { id: "a".to_string(), kind: Kind::StarKind, age: 0 };
    let eq_a = Constraint { class: "Eq".to_string(), variables: vec![a] };
    let box_type = Type::new_op("Box".to_string(), vec![Type::new_var("a".to_string())]);
    let mk = Constructor {
        name: Name { name: "MkBox".to_string(), uid: 500 },
        typ: qualified(Vec::new(), function_type_(Type::new_var("a".to_string()), box_type.clone())),
        tag: 0,
        arity: 1,
    };
    let d = DataDefinition {
        constructors: vec![mk],
        typ: qualified(vec![eq_a], box_type),
        parameters: vec![("a".to_string(), 0)],
        deriving: vec!["Eq".to_string()],
    };
    let out = derive(&d);
    assert_eq!(out[0].name.name.name, "#Box==");
    assert_eq!(out[0].name.typ.constraints.len(), 1);
    match &out[0].expression {
        Expr::Lambda(l, _) => {
            assert_eq!(l.typ.constraints.len(), 1);
            assert_eq!(l.typ.constraints[0].class, "Eq");
            assert_eq!(l.typ.value.to_string(), "Box a");
            assert!(l.name.uid > 0);
        }
        _ => panic!("not a lambda"),
    }
}

#[test]
fn fresh_names_count_up() {
    let mut supply = NameSupply::new();
    let a = supply.anonymous();
    let b = supply.anonymous();
    assert_eq!(a.uid, 1);
    assert_eq!(b.uid, 2);
    assert_eq!(a.name, "_a");
}

fn binder_ids(e: &Expr, ids: &mut Vec<u64>) {
    match e {
        Expr::Identifier(_) => {}
        Expr::Apply(f, a) => {
            binder_ids(f, ids);
            binder_ids(a, ids);
        }
        Expr::Lambda(l, body) => {
            ids.push(l.name.uid);
            binder_ids(body, ids);
        }
        Expr::Case(s, alts) => {
            binder_ids(s, ids);
            for alt in alts.iter() {
                match &alt.pattern {
                    Pattern::IdentifierPattern(m) => ids.push(m.name.uid),
                    Pattern::ConstructorPattern(_, args) => {
                        for a in args.iter() {
                            ids.push(a.name.uid);
                        }
                    }
                    Pattern::WildCardPattern => {}
                }
                binder_ids(&alt.expression, ids);
            }
        }
    }
}

#[test]
fn fresh_names_are_never_reused() {
    let mut supply = NameSupply::new();
    let mut out = Vec::new();
    generate_deriving(&mut out, &shape_data(), &mut supply).unwrap();
    generate_deriving(&mut out, &pair_data(), &mut supply).unwrap();
    assert_eq!(out.len(), 4);
    let mut ids = Vec::new();
    for b in out.iter() {
        binder_ids(&b.expression, &mut ids);
    }
    let mut sorted = ids.clone();
    sorted.sort();
    sorted.dedup();
    assert_eq!(sorted.len(), ids.len());
    assert_eq!(*sorted.first().unwrap(), 1);
    assert_eq!(*sorted.last().unwrap(), supply.unique_id);
    assert_eq!(sorted.len() as u64, supply.unique_id);
}
