use typecore::types::{
    bool_type, char_type, double_type, function_arguments, function_type, function_type_, int_type,
    io, list_type, try_get_function, tuple_name, tuple_type, unit, Kind, Type, TypeVariable,
};

fn var(s: &str) -> Type {
    Type::new_var(s.to_string())
}

fn op(s: &str, args: Vec<Type>) -> Type {
    Type::new_op(s.to_string(), args)
}

#[test]
fn kind_new_builds_arrows_from_arity() {
    assert_eq!(Kind::new(1), Kind::StarKind);
    assert_eq!(Kind::new(0), Kind::StarKind);
    assert_eq!(
        Kind::new(2),
        Kind::KindFunction(Box::new(Kind::StarKind), Box::new(Kind::StarKind))
    );
    assert_eq!(Kind::new(3).to_string(), "(* -> (* -> *))");
    assert_eq!(Kind::default(), Kind::StarKind);
}

#[test]
fn tuple_names() {
    assert_eq!(tuple_name(0), "()");
    assert_eq!(tuple_name(1), "()");
    assert_eq!(tuple_name(2), "(,)");
    assert_eq!(tuple_name(3), "(,,)");
}

#[test]
fn tuple_type_of_pair() {
    let (name, typ) = tuple_type(2);
    assert_eq!(name, "(,)");
    assert_eq!(typ.to_string(), "#a -> #b -> (,) #a #b");
    let (name0, typ0) = tuple_type(0);
    assert_eq!(name0, "()");
    assert_eq!(typ0.to_string(), "()");
}

#[test]
fn builtin_types_render() {
    assert_eq!(int_type().to_string(), "Int");
    assert_eq!(char_type().to_string(), "Char");
    assert_eq!(bool_type().to_string(), "Bool");
    assert_eq!(double_type().to_string(), "Double");
    assert_eq!(unit().to_string(), "()");
    assert_eq!(io(int_type()).to_string(), "IO Int");
    assert_eq!(list_type(char_type()).to_string(), "[Char]");
}

#[test]
fn arrows_associate_to_the_right() {
    let a = var("a");
    let b = var("b");
    let f = function_type(&a, &b);
    let g = function_type_(list_type(var("a")), list_type(var("b")));
    let map = function_type_(f, g);
    assert_eq!(map.to_string(), "(a -> b) -> [a] -> [b]");
}

#[test]
fn applications_bracket_nested_arguments() {
    let t = op("Either", vec![var("a"), op("Maybe", vec![var("b")])]);
    assert_eq!(t.to_string(), "Either a (Maybe b)");
    let in_list = list_type(function_type_(var("a"), var("b")));
    assert_eq!(in_list.to_string(), "[a -> b]");
}

#[test]
fn kind_of_applied_constructor() {
    let t = op("Either", vec![var("a"), var("b")]);
    assert_eq!(*t.kind(), Kind::StarKind);
    let partial = Type::new_op_kind("Either".to_string(), vec![var("a")], Kind::new(3));
    assert_eq!(*partial.kind(), Kind::new(2));
    assert_eq!(*var("a").kind(), Kind::StarKind);
}

#[test]
fn unwrapping_variants() {
    let t = op("Maybe", vec![var("a")]);
    assert_eq!(t.appl().ctor().name, "Maybe");
    assert_eq!(t.appr().var().id, "a");
    assert_eq!(Type::default().var().id, "a");
}

#[test]
fn function_parts_and_arguments() {
    let t = function_type_(int_type(), function_type_(char_type(), bool_type()));
    let (arg, rest) = try_get_function(&t).unwrap();
    assert!(*arg == int_type());
    assert_eq!(rest.to_string(), "Char -> Bool");
    let args = function_arguments(&t);
    assert_eq!(args.len(), 2);
    assert!(args[0] == int_type());
    assert!(args[1] == char_type());
    assert!(try_get_function(&int_type()).is_none());
    assert_eq!(function_arguments(&int_type()).len(), 0);
}

#[test]
fn variables_equal_up_to_renaming() {
    let l = function_type_(var("a"), var("b"));
    let r = function_type_(var("c"), var("d"));
    assert!(l == r);
    let same = function_type_(var("c"), var("c"));
    assert!(l != same);
}

#[test]
fn renamed_type_is_equal() {
    let t = function_type_(
        op("Either", vec![var("a"), var("b")]),
        function_type_(list_type(var("a")), var("b")),
    );
    let renamed = function_type_(
        op("Either", vec![var("x"), var("y")]),
        function_type_(list_type(var("x")), var("y")),
    );
    assert!(t == renamed);
    assert!(t == t.clone());
}

#[test]
fn two_right_variables_may_meet_one_left_variable() {
    let l = function_type_(var("a"), var("a"));
    let r = function_type_(var("b"), var("c"));
    assert!(l == r);
}

#[test]
fn constructors_compare_by_name() {
    assert!(int_type() == int_type());
    assert!(int_type() != bool_type());
    assert!(var("a") != int_type());
    assert!(list_type(int_type()) != list_type(char_type()));
}

#[test]
fn generic_variables_equal_up_to_renaming() {
    let g = Type::Generic(TypeVariable { id: "a".to_string(), kind: Kind::StarKind, age: 0 });
    assert!(g == g.clone());
    let h = Type::Generic(TypeVariable { id: "z".to_string(), kind: Kind::StarKind, age: 0 });
    assert!(g == h);
    assert!(g != var("a"));
    let (_, pair) = tuple_type(2);
    let (_, pair2) = tuple_type(2);
    assert!(pair == pair2);
    let (_, triple) = tuple_type(3);
    assert!(pair != triple);
}

#[test]
fn constraints_and_qualified_types_render() {
    let a = TypeVariable { id: "a".to_string(), kind: Kind::StarKind, age: 0 };
    let b = TypeVariable { id: "b".to_string(), kind: Kind::StarKind, age: 3 };
    let eq_a = typecore::types::Constraint { class: "Eq".to_string(), variables: vec![a.clone()] };
    let conv = typecore::types::Constraint { class: "Convert".to_string(), variables: vec![a, b] };
    assert_eq!(eq_a.to_string(), "Eq a");
    assert_eq!(conv.to_string(), "Convert a b");
    let q = typecore::types::qualified(vec![eq_a, conv], list_type(var("a")));
    assert_eq!(q.to_string(), "[Eq a, Convert a b] => [a]");
    let plain = typecore::types::qualified(Vec::new(), int_type());
    assert_eq!(plain.to_string(), "[] => Int");
}

#[test]
fn type_variables_are_equal_by_name() {
    let a1 = TypeVariable { id: "a".to_string(), kind: Kind::StarKind, age: 1 };
    let a2 = TypeVariable { id: "a".to_string(), kind: Kind::StarKind, age: 7 };
    let b = TypeVariable { id: "b".to_string(), kind: Kind::StarKind, age: 1 };
    assert!(a1 == a2);
    assert!(a1 != b);
    assert_eq!(a1.to_string(), "a");
}

#[test]
fn setting_the_kind_of_an_application() {
    let mut t = Type::new_op_kind("T".to_string(), vec![var("a")], Kind::new(2));
    assert_eq!(*t.kind(), Kind::StarKind);
    t.set_kind(Kind::new(2));
    assert_eq!(*t.kind(), Kind::new(2));
    assert_eq!(*t.appl().kind(), Kind::new(3));
    assert_eq!(t.to_string(), "T a");
    let mut v = var("f");
    v.set_kind(Kind::new(2));
    assert_eq!(*v.kind(), Kind::new(2));
}

#[test]
fn checked_kind_reports_ill_kinded_types() {
    let ok = op("Maybe", vec![var("a")]);
    assert_eq!(ok.try_kind(), Some(&Kind::StarKind));
    let bad = Type::TypeApplication(Box::new(int_type()), Box::new(var("a")));
    assert_eq!(bad.try_kind(), None);
    assert_eq!(var("a").try_kind(), Some(&Kind::StarKind));
}
