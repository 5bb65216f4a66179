use vstd::prelude::*;
use vstd::string::*;

verus! {

/// The kind of a type: `*` or a function from one kind to another.
#[derive(Debug)]
pub enum Kind {
    KindFunction(Box<Kind>, Box<Kind>),
    StarKind,
}

/// The kind of a type constructor that takes `n - 1` arguments:
/// `*` for `n <= 1`, else `* -> kind_of_arity(n - 1)`.
pub open spec fn kind_of_arity(n: int) -> Kind
    decreases n,
{
    if n <= 1 {
        Kind::StarKind
    } else {
        Kind::KindFunction(Box::new(Kind::StarKind), Box::new(kind_of_arity(n - 1)))
    }
}

impl Kind {
    /// Builds the kind of a constructor of arity `v`: `v - 1` arrows ending in `*`.
    pub fn new(v: i64) -> (r: Kind)
        ensures
            r == kind_of_arity(v as int),
    {
        let mut kind = Kind::StarKind;
        let mut i: i64 = 1;
        while i < v
            invariant
                1 <= i,
                i <= v || v < 1,
                v < 1 ==> i == 1,
                kind == kind_of_arity(i as int),
            decreases v - i,
        {
            kind = Kind::KindFunction(Box::new(Kind::StarKind), Box::new(kind));
            i = i + 1;
        }
        kind
    }

    /// The kind `*`.
    pub fn default() -> (r: Kind)
        ensures
            r == Kind::StarKind,
    {
        Kind::StarKind
    }
}

impl PartialEq for Kind {
    fn eq(&self, other: &Kind) -> (r: bool)
        decreases self,
    {
        match (self, other) {
            (Kind::StarKind, Kind::StarKind) => true,
            (Kind::KindFunction(l1, r1), Kind::KindFunction(l2, r2)) => {
                let a = (**l1).eq(&**l2);
                if a {
                    (**r1).eq(&**r2)
                } else {
                    false
                }
            },
            _ => false,
        }
    }
}

impl vstd::std_specs::cmp::PartialEqSpecImpl for Kind {
    open spec fn obeys_eq_spec() -> bool {
        true
    }

    open spec fn eq_spec(&self, other: &Kind) -> bool {
        *self == *other
    }
}

impl Eq for Kind {
}

impl Clone for Kind {
    fn clone(&self) -> (r: Kind)
        ensures
            r == *self,
        decreases self,
    {
        match self {
            Kind::StarKind => Kind::StarKind,
            Kind::KindFunction(l, r) => {
                let l2 = (**l).clone();
                let r2 = (**r).clone();
                Kind::KindFunction(Box::new(l2), Box::new(r2))
            },
        }
    }
}

/// A type variable. Two variables are the same variable when their
/// identifiers are equal; the kind is assumed consistent and the age is
/// only bookkeeping for freshness.
#[derive(Debug)]
pub struct TypeVariable {
    pub id: String,
    pub kind: Kind,
    pub age: i64,
}

impl Clone for TypeVariable {
    fn clone(&self) -> (r: TypeVariable)
        ensures
            r == *self,
    {
        TypeVariable { id: self.id.clone(), kind: self.kind.clone(), age: self.age }
    }
}

/// A named type constructor with its kind (`Int :: *`, `[] :: * -> *`).
#[derive(Debug)]
pub struct TypeConstructor {
    pub name: String,
    pub kind: Kind,
}

impl Clone for TypeConstructor {
    fn clone(&self) -> (r: TypeConstructor)
        ensures
            r == *self,
    {
        TypeConstructor { name: self.name.clone(), kind: self.kind.clone() }
    }
}

/// A type: a variable, a constructor, an application of one type to
/// another (left-associative), or a universally quantified variable.
#[derive(Debug)]
pub enum Type {
    TypeVariable(TypeVariable),
    TypeConstructor(TypeConstructor),
    TypeApplication(Box<Type>, Box<Type>),
    Generic(TypeVariable),
}

/// The mathematical value of a `Type`: names as character sequences,
/// variables without their age.
pub enum TypeModel {
    Var(Seq<char>, Kind),
    Con(Seq<char>, Kind),
    App(Box<TypeModel>, Box<TypeModel>),
    Gen(Seq<char>, Kind),
}

pub open spec fn type_view(t: Type) -> TypeModel
    decreases t,
{
    match t {
        Type::TypeVariable(v) => TypeModel::Var(v.id@, v.kind),
        Type::TypeConstructor(c) => TypeModel::Con(c.name@, c.kind),
        Type::TypeApplication(l, r) => TypeModel::App(
            Box::new(type_view(*l)),
            Box::new(type_view(*r)),
        ),
        Type::Generic(v) => TypeModel::Gen(v.id@, v.kind),
    }
}

impl View for Type {
    type V = TypeModel;

    open spec fn view(&self) -> TypeModel {
        type_view(*self)
    }
}

impl Clone for Type {
    fn clone(&self) -> (r: Type)
        ensures
            r == *self,
        decreases self,
    {
        match self {
            Type::TypeVariable(v) => Type::TypeVariable(v.clone()),
            Type::TypeConstructor(c) => Type::TypeConstructor(c.clone()),
            Type::TypeApplication(l, r) => {
                let l2 = (**l).clone();
                let r2 = (**r).clone();
                Type::TypeApplication(Box::new(l2), Box::new(r2))
            },
            Type::Generic(v) => Type::Generic(v.clone()),
        }
    }
}

} // verus!

verus! {

/// A class constraint on type variables, as in `Eq a`.
#[derive(Debug)]
pub struct Constraint {
    pub class: String,
    pub variables: Vec<TypeVariable>,
}

fn clone_variables(vs: &Vec<TypeVariable>) -> (r: Vec<TypeVariable>)
    ensures
        r@ == vs@,
{
    let mut r: Vec<TypeVariable> = Vec::new();
    let mut i: usize = 0;
    while i < vs.len()
        invariant
            i <= vs.len(),
            r@ == vs@.take(i as int),
        decreases vs.len() - i,
    {
        r.push(vs[i].clone());
        i = i + 1;
        assert(r@ =~= vs@.take(i as int));
    }
    assert(vs@.take(vs.len() as int) =~= vs@);
    r
}

impl View for Constraint {
    type V = (Seq<char>, Seq<TypeVariable>);

    open spec fn view(&self) -> (Seq<char>, Seq<TypeVariable>) {
        (self.class@, self.variables@)
    }
}

/// The models of a sequence of constraints.
pub open spec fn constraint_models(cs: Seq<Constraint>) -> Seq<(Seq<char>, Seq<TypeVariable>)> {
    cs.map_values(|c: Constraint| c@)
}

impl Clone for Constraint {
    fn clone(&self) -> (r: Constraint)
        ensures
            r@ == self@,
    {
        Constraint { class: self.class.clone(), variables: clone_variables(&self.variables) }
    }
}

/// Copies a list of constraints element for element.
pub fn clone_constraints(cs: &Vec<Constraint>) -> (r: Vec<Constraint>)
    ensures
        constraint_models(r@) == constraint_models(cs@),
{
    let mut r: Vec<Constraint> = Vec::new();
    let mut i: usize = 0;
    while i < cs.len()
        invariant
            i <= cs.len(),
            r@.len() == i,
            forall|j: int| 0 <= j < i ==> #[trigger] r@[j]@ == cs@[j]@,
        decreases cs.len() - i,
    {
        r.push(cs[i].clone());
        i = i + 1;
    }
    assert(constraint_models(r@) =~= constraint_models(cs@));
    r
}

/// A value qualified by class constraints, as in `Eq a => [a]`.
#[derive(Debug)]
pub struct Qualified<T> {
    pub constraints: Vec<Constraint>,
    pub value: T,
}

impl View for Qualified<Type> {
    type V = (Seq<(Seq<char>, Seq<TypeVariable>)>, TypeModel);

    open spec fn view(&self) -> (Seq<(Seq<char>, Seq<TypeVariable>)>, TypeModel) {
        (constraint_models(self.constraints@), self.value@)
    }
}

impl Clone for Qualified<Type> {
    fn clone(&self) -> (r: Qualified<Type>)
        ensures
            r@ == self@,
    {
        Qualified { constraints: clone_constraints(&self.constraints), value: self.value.clone() }
    }
}

/// Pairs a type with the constraints on its variables.
pub fn qualified(constraints: Vec<Constraint>, typ: Type) -> (r: Qualified<Type>)
    ensures
        r.constraints == constraints,
        r.value == typ,
{
    Qualified { constraints, value: typ }
}

/// The models of a sequence of types.
pub open spec fn models(ts: Seq<Type>) -> Seq<TypeModel> {
    ts.map_values(|t: Type| t@)
}

/// `head` applied to each of `args` in turn, left-associatively.
pub open spec fn applied(head: TypeModel, args: Seq<TypeModel>) -> TypeModel
    decreases args.len(),
{
    if args.len() == 0 {
        head
    } else {
        TypeModel::App(Box::new(applied(head, args.drop_last())), Box::new(args.last()))
    }
}

/// The constructor `name`, with the kind of its arity, applied to `args`.
pub open spec fn op_model(name: Seq<char>, args: Seq<TypeModel>) -> TypeModel {
    applied(TypeModel::Con(name, kind_of_arity(args.len() as int + 1)), args)
}

/// The function type `arg -> result`.
pub open spec fn fn_model(arg: TypeModel, result: TypeModel) -> TypeModel {
    op_model("->"@, seq![arg, result])
}

/// The kind of a type, where it has one: an application takes the result
/// kind of its left operand, which must be an arrow kind.
pub open spec fn kind_of(t: TypeModel) -> Option<Kind>
    decreases t,
{
    match t {
        TypeModel::Var(_, k) => Some(k),
        TypeModel::Con(_, k) => Some(k),
        TypeModel::Gen(_, k) => Some(k),
        TypeModel::App(l, _) => match kind_of(*l) {
            Some(Kind::KindFunction(_, k)) => Some(*k),
            _ => None,
        },
    }
}

/// Whether `t` is the constructor named `n`.
pub open spec fn is_con_named(t: TypeModel, n: Seq<char>) -> bool {
    t matches TypeModel::Con(m, _) && m == n
}

/// The argument and result of a function type `a -> r`, if `t` is one.
pub open spec fn fn_parts(t: TypeModel) -> Option<(TypeModel, TypeModel)> {
    match t {
        TypeModel::App(f, res) => match *f {
            TypeModel::App(c, arg) => if is_con_named(*c, "->"@) {
                Some((*arg, *res))
            } else {
                None
            },
            _ => None,
        },
        _ => None,
    }
}

/// The argument types of a curried function type, left to right, up to the
/// first part that is not a function type.
pub open spec fn fn_args(t: TypeModel) -> Seq<TypeModel>
    decreases t,
{
    match t {
        TypeModel::App(f, res) => match *f {
            TypeModel::App(c, arg) => if is_con_named(*c, "->"@) {
                seq![*arg] + fn_args(*res)
            } else {
                Seq::empty()
            },
            _ => Seq::empty(),
        },
        _ => Seq::empty(),
    }
}

/// The head of a chain of applications.
pub open spec fn applied_head(t: TypeModel) -> TypeModel
    decreases t,
{
    match t {
        TypeModel::App(l, _) => applied_head(*l),
        _ => t,
    }
}

fn apply_all(head: Type, types: &Vec<Type>) -> (r: Type)
    ensures
        r@ == applied(head@, models(types@)),
{
    let mut result = head;
    let mut i: usize = 0;
    while i < types.len()
        invariant
            i <= types.len(),
            result@ == applied(head@, models(types@.take(i as int))),
        decreases types.len() - i,
    {
        let arg = types[i].clone();
        proof {
            assert(models(types@.take(i as int + 1)).drop_last() =~= models(types@.take(i as int)));
        }
        result = Type::TypeApplication(Box::new(result), Box::new(arg));
        i = i + 1;
    }
    assert(types@.take(types.len() as int) =~= types@);
    result
}

impl Type {
    /// A type variable of kind `*`.
    pub fn new_var(id: String) -> (r: Type)
        ensures
            r@ == TypeModel::Var(id@, Kind::StarKind),
    {
        Type::new_var_kind(id, Kind::StarKind)
    }

    /// A type variable applied to `types`, given the kind of that arity.
    pub fn new_var_args(id: String, types: Vec<Type>) -> (r: Type)
        requires
            types.len() < i64::MAX,
        ensures
            r@ == applied(
                TypeModel::Var(id@, kind_of_arity(types.len() as int + 1)),
                models(types@),
            ),
    {
        let kind = Kind::new(types.len() as i64 + 1);
        let head = Type::TypeVariable(TypeVariable { id, kind, age: 0 });
        apply_all(head, &types)
    }

    /// A type variable of the given kind.
    pub fn new_var_kind(id: String, kind: Kind) -> (r: Type)
        ensures
            r@ == TypeModel::Var(id@, kind),
    {
        Type::TypeVariable(TypeVariable { id, kind, age: 0 })
    }

    /// The constructor `name` applied to `types`, with the kind of that arity.
    pub fn new_op(name: String, types: Vec<Type>) -> (r: Type)
        requires
            types.len() < i64::MAX,
        ensures
            r@ == op_model(name@, models(types@)),
    {
        let kind = Kind::new(types.len() as i64 + 1);
        Type::new_op_kind(name, types, kind)
    }

    /// The constructor `name` of the given kind applied to `types`.
    pub fn new_op_kind(name: String, types: Vec<Type>, kind: Kind) -> (r: Type)
        ensures
            r@ == applied(TypeModel::Con(name@, kind), models(types@)),
    {
        let head = Type::TypeConstructor(TypeConstructor { name, kind });
        apply_all(head, &types)
    }

    /// The variable of a `TypeVariable` type.
    pub fn var(&self) -> (r: &TypeVariable)
        requires
            self is TypeVariable,
        ensures
            *self == Type::TypeVariable(*r),
    {
        match self {
            Type::TypeVariable(v) => v,
            _ => vstd::pervasive::unreached(),
        }
    }

    /// The constructor of a `TypeConstructor` type.
    pub fn ctor(&self) -> (r: &TypeConstructor)
        requires
            self is TypeConstructor,
        ensures
            *self == Type::TypeConstructor(*r),
    {
        match self {
            Type::TypeConstructor(c) => c,
            _ => vstd::pervasive::unreached(),
        }
    }

    /// The function part of an application.
    pub fn appl(&self) -> (r: &Type)
        requires
            self is TypeApplication,
        ensures
            *r == *self->TypeApplication_0,
    {
        match self {
            Type::TypeApplication(l, _) => &**l,
            _ => vstd::pervasive::unreached(),
        }
    }

    /// The argument part of an application.
    pub fn appr(&self) -> (r: &Type)
        requires
            self is TypeApplication,
        ensures
            *r == *self->TypeApplication_1,
    {
        match self {
            Type::TypeApplication(_, r) => &**r,
            _ => vstd::pervasive::unreached(),
        }
    }

    /// The kind of the type; the type must be well kinded.
    pub fn kind(&self) -> (r: &Kind)
        requires
            kind_of(self@) is Some,
        ensures
            kind_of(self@) == Some(*r),
        decreases self,
    {
        match self {
            Type::TypeVariable(v) => &v.kind,
            Type::TypeConstructor(c) => &c.kind,
            Type::Generic(v) => &v.kind,
            Type::TypeApplication(lhs, _) => {
                let k = (**lhs).kind();
                match k {
                    Kind::KindFunction(_, res) => &**res,
                    Kind::StarKind => vstd::pervasive::unreached(),
                }
            },
        }
    }

    /// The type variable `a` of kind `*`.
    pub fn default() -> (r: Type)
        ensures
            r@ == TypeModel::Var("a"@, Kind::StarKind),
    {
        Type::new_var(String::from_str("a"))
    }
}

/// The argument and the result of a function type, or `None` when `typ`
/// is not of the form `a -> r`.
pub fn try_get_function(typ: &Type) -> (r: Option<(&Type, &Type)>)
    ensures
        match r {
            Some((a, b)) => fn_parts(typ@) == Some((a@, b@)),
            None => fn_parts(typ@) is None,
        },
{
    match typ {
        Type::TypeApplication(f, result) => match &**f {
            Type::TypeApplication(c, arg) => match &**c {
                Type::TypeConstructor(op) => {
                    assert(typ@ == TypeModel::App(Box::new(f@), Box::new(result@)));
                    assert(f@ == TypeModel::App(Box::new(c@), Box::new(arg@)));
                    if op.name == String::from_str("->") {
                        Some((&**arg, &**result))
                    } else {
                        None
                    }
                },
                _ => None,
            },
            _ => None,
        },
        _ => None,
    }
}

fn push_fn_args(typ: &Type, out: &mut Vec<Type>)
    ensures
        final(out)@.len() == old(out)@.len() + fn_args(typ@).len(),
        models(final(out)@) == models(old(out)@) + fn_args(typ@),
    decreases typ,
{
    match typ {
        Type::TypeApplication(f, result) => match &**f {
            Type::TypeApplication(c, arg) => match &**c {
                Type::TypeConstructor(op) => {
                    assert(typ@ == TypeModel::App(Box::new(f@), Box::new(result@)));
                    assert(f@ == TypeModel::App(Box::new(c@), Box::new(arg@)));
                    if op.name == String::from_str("->") {
                        let ghost before = models(out@);
                        out.push((**arg).clone());
                        assert(models(out@) =~= before + seq![arg@]);
                        push_fn_args(&**result, out);
                        assert(fn_args(typ@) == seq![arg@] + fn_args(result@));
                        assert(models(out@) =~= before + fn_args(typ@));
                    }
                },
                _ => {},
            },
            _ => {},
        },
        _ => {},
    }
}

/// The argument types of a curried function type, left to right.
pub fn function_arguments(typ: &Type) -> (r: Vec<Type>)
    ensures
        models(r@) == fn_args(typ@),
{
    let mut r: Vec<Type> = Vec::new();
    push_fn_args(typ, &mut r);
    assert(models(r@) =~= fn_args(typ@));
    r
}

/// The head of a chain of type applications.
pub fn extract_applied_type(typ: &Type) -> (r: &Type)
    ensures
        r@ == applied_head(typ@),
        !(r is TypeApplication),
    decreases typ,
{
    match typ {
        Type::TypeApplication(lhs, _) => extract_applied_type(&**lhs),
        _ => typ,
    }
}

} // verus!

verus! {

/// `k` commas.
pub open spec fn commas(k: nat) -> Seq<char>
    decreases k,
{
    if k == 0 {
        Seq::empty()
    } else {
        commas((k - 1) as nat) + ","@
    }
}

/// The name of the `n`-tuple constructor: `n - 1` commas in parentheses.
pub open spec fn tuple_name_of(n: nat) -> Seq<char> {
    "("@ + commas(if n >= 1 { (n - 1) as nat } else { 0 }) + ")"@
}

/// The name of the `n`-tuple constructor: `()` for `n` of 0 or 1, then
/// `(,)`, `(,,)`, ...
pub fn tuple_name(n: usize) -> (r: String)
    ensures
        r@ == tuple_name_of(n as nat),
{
    let mut ident = String::from_str("(");
    let mut i: usize = 1;
    while i < n
        invariant
            1 <= i,
            i <= n || n < 1,
            n < 1 ==> i == 1,
            ident@ == "("@ + commas((i - 1) as nat),
        decreases n - i,
    {
        ident.append(",");
        i = i + 1;
        assert(ident@ =~= "("@ + commas((i - 1) as nat));
    }
    ident.append(")");
    ident
}

/// The one-letter name of the `i`-th schematic variable.
pub open spec fn letter_name(i: int) -> Seq<char> {
    "abcdefghijklmnopqrstuvwxyz"@.subrange(i, i + 1)
}

/// The schematic variables `a`, `b`, ... of an `n`-tuple.
pub open spec fn tuple_vars(n: nat) -> Seq<TypeModel> {
    Seq::new(n, |i: int| TypeModel::Gen(letter_name(i), Kind::StarKind))
}

/// `vs[i] -> vs[i + 1] -> ... -> result`.
pub open spec fn curried_from(vs: Seq<TypeModel>, i: int, result: TypeModel) -> TypeModel
    decreases vs.len() - i,
{
    if i < 0 || i >= vs.len() {
        result
    } else {
        fn_model(vs[i], curried_from(vs, i + 1, result))
    }
}

/// The type of the `n`-tuple constructor, `a -> b -> ... -> (,..) a b ...`.
pub open spec fn tuple_type_of(n: nat) -> TypeModel {
    curried_from(tuple_vars(n), 0, op_model(tuple_name_of(n), tuple_vars(n)))
}

fn letter(i: usize) -> (r: String)
    requires
        i < 26,
    ensures
        r@ == letter_name(i as int),
{
    let letters = "abcdefghijklmnopqrstuvwxyz";
    proof {
        reveal_strlit("abcdefghijklmnopqrstuvwxyz");
    }
    String::from_str(letters.substring_char(i, i + 1))
}

/// The constructor function type of an `n`-tuple and the tuple's name.
pub fn tuple_type(n: usize) -> (r: (String, Type))
    requires
        n < 26,
    ensures
        r.0@ == tuple_name_of(n as nat),
        r.1@ == tuple_type_of(n as nat),
{
    let mut var_list: Vec<Type> = Vec::new();
    let mut i: usize = 0;
    while i < n
        invariant
            i <= n,
            n < 26,
            models(var_list@) == tuple_vars(n as nat).take(i as int),
        decreases n - i,
    {
        let v = Type::Generic(TypeVariable { id: letter(i), kind: Kind::StarKind, age: 0 });
        assert(v@ == TypeModel::Gen(letter_name(i as int), Kind::StarKind));
        let ghost before = models(var_list@);
        var_list.push(v);
        assert(models(var_list@) =~= before.push(v@));
        i = i + 1;
        assert(models(var_list@) =~= tuple_vars(n as nat).take(i as int));
    }
    assert(tuple_vars(n as nat).take(n as int) =~= tuple_vars(n as nat));
    let ident = tuple_name(n);
    let mut typ = Type::new_op(ident.clone(), var_list);
    let ghost base = typ@;
    let mut k: usize = n;
    while k > 0
        invariant
            k <= n,
            n < 26,
            typ@ == curried_from(tuple_vars(n as nat), k as int, base),
        decreases k,
    {
        k = k - 1;
        let v = Type::Generic(TypeVariable { id: letter(k), kind: Kind::StarKind, age: 0 });
        typ = function_type_(v, typ);
    }
    (ident, typ)
}

/// The list type `[typ]`.
pub fn list_type(typ: Type) -> (r: Type)
    ensures
        r@ == op_model("[]"@, seq![typ@]),
{
    let v = vec![typ];
    let r = Type::new_op(String::from_str("[]"), v);
    assert(models(v@) =~= seq![typ@]);
    r
}

/// The type `Char`.
pub fn char_type() -> (r: Type)
    ensures
        r@ == op_model("Char"@, Seq::empty()),
{
    let r = Type::new_op(String::from_str("Char"), Vec::new());
    assert(models(Seq::<Type>::empty()) =~= Seq::empty());
    r
}

/// The type `Int`.
pub fn int_type() -> (r: Type)
    ensures
        r@ == op_model("Int"@, Seq::empty()),
{
    let r = Type::new_op(String::from_str("Int"), Vec::new());
    assert(models(Seq::<Type>::empty()) =~= Seq::empty());
    r
}

/// The type `Bool`.
pub fn bool_type() -> (r: Type)
    ensures
        r@ == op_model("Bool"@, Seq::empty()),
{
    let r = Type::new_op(String::from_str("Bool"), Vec::new());
    assert(models(Seq::<Type>::empty()) =~= Seq::empty());
    r
}

/// The type `Double`.
pub fn double_type() -> (r: Type)
    ensures
        r@ == op_model("Double"@, Seq::empty()),
{
    let r = Type::new_op(String::from_str("Double"), Vec::new());
    assert(models(Seq::<Type>::empty()) =~= Seq::empty());
    r
}

/// The type `Ordering`.
pub fn ordering_type() -> (r: Type)
    ensures
        r@ == op_model("Ordering"@, Seq::empty()),
{
    let r = Type::new_op(String::from_str("Ordering"), Vec::new());
    assert(models(Seq::<Type>::empty()) =~= Seq::empty());
    r
}

/// The function type `arg -> result`, from borrowed parts.
pub fn function_type(arg: &Type, result: &Type) -> (r: Type)
    ensures
        r@ == fn_model(arg@, result@),
{
    function_type_(arg.clone(), result.clone())
}

/// The function type `func -> arg`.
pub fn function_type_(func: Type, arg: Type) -> (r: Type)
    ensures
        r@ == fn_model(func@, arg@),
{
    let ghost (a, b) = (func@, arg@);
    let v = vec![func, arg];
    let r = Type::new_op(String::from_str("->"), v);
    assert(models(v@) =~= seq![a, b]);
    r
}

/// The type `IO typ`.
pub fn io(typ: Type) -> (r: Type)
    ensures
        r@ == op_model("IO"@, seq![typ@]),
{
    let v = vec![typ];
    let r = Type::new_op(String::from_str("IO"), v);
    assert(models(v@) =~= seq![typ@]);
    r
}

/// The unit type `()`.
pub fn unit() -> (r: Type)
    ensures
        r@ == op_model("()"@, Seq::empty()),
{
    let r = Type::new_op(String::from_str("()"), Vec::new());
    assert(models(Seq::<Type>::empty()) =~= Seq::empty());
    r
}

} // verus!

verus! {

/// Walks two types in lock-step under a correspondence from right-hand
/// variable names to left-hand variable names. Constructors match by name,
/// applications component-wise; a right-hand variable (plain or quantified,
/// each against its own kind) seen before must map to
/// the left-hand name, and an unseen one is recorded. The check is one-way:
/// two right-hand variables may map to the same left-hand one.
pub open spec fn alpha_eq(
    m: Map<Seq<char>, Seq<char>>,
    lhs: TypeModel,
    rhs: TypeModel,
) -> (bool, Map<Seq<char>, Seq<char>>)
    decreases lhs,
{
    match lhs {
        TypeModel::Con(ln, _) => match rhs {
            TypeModel::Con(rn, _) => (ln == rn, m),
            _ => (false, m),
        },
        TypeModel::Var(ln, _) => match rhs {
            TypeModel::Var(rn, _) => if m.contains_key(rn) {
                (m[rn] == ln, m)
            } else {
                (true, m.insert(rn, ln))
            },
            _ => (false, m),
        },
        TypeModel::App(l1, r1) => match rhs {
            TypeModel::App(l2, r2) => {
                let (b, m1) = alpha_eq(m, *l1, *l2);
                if b {
                    alpha_eq(m1, *r1, *r2)
                } else {
                    (false, m1)
                }
            },
            _ => (false, m),
        },
        TypeModel::Gen(ln, _) => match rhs {
            TypeModel::Gen(rn, _) => if m.contains_key(rn) {
                (m[rn] == ln, m)
            } else {
                (true, m.insert(rn, ln))
            },
            _ => (false, m),
        },
    }
}

/// Equality of types: `alpha_eq` from an empty correspondence.
pub open spec fn types_equal(lhs: TypeModel, rhs: TypeModel) -> bool {
    alpha_eq(Map::empty(), lhs, rhs).0
}

/// The correspondence held by a list of pairs; a later pair wins.
pub open spec fn pairs_map(s: Seq<(String, String)>) -> Map<Seq<char>, Seq<char>>
    decreases s.len(),
{
    if s.len() == 0 {
        Map::empty()
    } else {
        pairs_map(s.drop_last()).insert(s.last().0@, s.last().1@)
    }
}

proof fn lemma_pairs_map_prefix(s: Seq<(String, String)>, i: int, k: Seq<char>)
    requires
        0 <= i <= s.len(),
        forall|j: int| i <= j < s.len() ==> (#[trigger] s[j]).0@ != k,
    ensures
        pairs_map(s).contains_key(k) == pairs_map(s.take(i)).contains_key(k),
        pairs_map(s).contains_key(k) ==> pairs_map(s)[k] == pairs_map(s.take(i))[k],
    decreases s.len(),
{
    if i == s.len() {
        assert(s.take(i) =~= s);
    } else {
        let t = s.drop_last();
        assert(t.take(i) =~= s.take(i));
        assert(s[s.len() - 1].0@ != k);
        lemma_pairs_map_prefix(t, i, k);
    }
}

fn find_var<'a>(mapping: &'a Vec<(String, String)>, key: &String) -> (r: Option<&'a String>)
    ensures
        r is Some <==> pairs_map(mapping@).contains_key(key@),
        r is Some ==> r->0@ == pairs_map(mapping@)[key@],
{
    let mut i: usize = mapping.len();
    while i > 0
        invariant
            i <= mapping.len(),
            forall|j: int| i <= j < mapping.len() ==> (#[trigger] mapping@[j]).0@ != key@,
        decreases i,
    {
        i = i - 1;
        if mapping[i].0 == *key {
            proof {
                lemma_pairs_map_prefix(mapping@, i + 1, key@);
                assert(mapping@.take(i + 1).drop_last() =~= mapping@.take(i as int));
            }
            return Some(&mapping[i].1);
        }
    }
    proof {
        lemma_pairs_map_prefix(mapping@, 0, key@);
    }
    None
}

fn type_eq(mapping: &mut Vec<(String, String)>, lhs: &Type, rhs: &Type) -> (r: bool)
    ensures
        (r, pairs_map(final(mapping)@)) == alpha_eq(pairs_map(old(mapping)@), lhs@, rhs@),
    decreases lhs,
{
    match (lhs, rhs) {
        (Type::TypeConstructor(l), Type::TypeConstructor(r)) => l.name == r.name,
        (Type::TypeVariable(r), Type::TypeVariable(l)) => {
            match find_var(mapping, &l.id) {
                Some(x) => {
                    return *x == r.id;
                },
                None => {},
            }
            let ghost before = mapping@;
            mapping.push((l.id.clone(), r.id.clone()));
            assert(mapping@.drop_last() =~= before);
            true
        },
        (Type::Generic(r), Type::Generic(l)) => {
            match find_var(mapping, &l.id) {
                Some(x) => {
                    return *x == r.id;
                },
                None => {},
            }
            let ghost before = mapping@;
            mapping.push((l.id.clone(), r.id.clone()));
            assert(mapping@.drop_last() =~= before);
            true
        },
        (Type::TypeApplication(lhs1, rhs1), Type::TypeApplication(lhs2, rhs2)) => {
            let b = type_eq(mapping, &**lhs1, &**lhs2);
            if b {
                type_eq(mapping, &**rhs1, &**rhs2)
            } else {
                false
            }
        },
        _ => {
            assert(alpha_eq(pairs_map(mapping@), lhs@, rhs@).0 == false) by {
                match lhs {
                    Type::Generic(_) => {},
                    _ => {},
                }
            };
            false
        },
    }
}

impl PartialEq for Type {
    /// Compares two types, treating variables as equal when each right-hand
    /// variable always meets the same left-hand one: `a -> b == c -> d`,
    /// `a -> b != c -> c`.
    fn eq(&self, other: &Type) -> (r: bool) {
        let mut mapping: Vec<(String, String)> = Vec::new();
        assert(pairs_map(mapping@) =~= Map::empty());
        type_eq(&mut mapping, self, other)
    }
}

impl vstd::std_specs::cmp::PartialEqSpecImpl for Type {
    open spec fn obeys_eq_spec() -> bool {
        true
    }

    open spec fn eq_spec(&self, other: &Type) -> bool {
        types_equal(self@, other@)
    }
}

} // verus!

verus! {

/// `t` with each variable name `n` replaced by `f(n)`.
pub open spec fn rename(t: TypeModel, f: spec_fn(Seq<char>) -> Seq<char>) -> TypeModel
    decreases t,
{
    match t {
        TypeModel::Var(n, k) => TypeModel::Var(f(n), k),
        TypeModel::Con(n, k) => TypeModel::Con(n, k),
        TypeModel::App(l, r) => TypeModel::App(Box::new(rename(*l, f)), Box::new(rename(*r, f))),
        TypeModel::Gen(n, k) => TypeModel::Gen(f(n), k),
    }
}

pub open spec fn is_injective(f: spec_fn(Seq<char>) -> Seq<char>) -> bool {
    forall|a: Seq<char>, b: Seq<char>| #[trigger] f(a) == #[trigger] f(b) ==> a == b
}

/// Every recorded right-hand name is the image under `f` of its left-hand name.
pub open spec fn inverts(m: Map<Seq<char>, Seq<char>>, f: spec_fn(Seq<char>) -> Seq<char>) -> bool {
    forall|k: Seq<char>| #[trigger] m.contains_key(k) ==> f(m[k]) == k
}

proof fn lemma_alpha_eq_rename(
    m: Map<Seq<char>, Seq<char>>,
    t: TypeModel,
    f: spec_fn(Seq<char>) -> Seq<char>,
)
    requires
        is_injective(f),
        inverts(m, f),
    ensures
        alpha_eq(m, t, rename(t, f)).0,
        inverts(alpha_eq(m, t, rename(t, f)).1, f),
    decreases t,
{
    match t {
        TypeModel::Var(n, k) | TypeModel::Gen(n, k) => {
            if m.contains_key(f(n)) {
                assert(f(m[f(n)]) == f(n));
            } else {
                let m2 = m.insert(f(n), n);
                assert forall|k2: Seq<char>| #[trigger] m2.contains_key(k2) implies f(m2[k2]) == k2 by {
                    if k2 != f(n) {
                        assert(m.contains_key(k2));
                    }
                }
            }
        },
        TypeModel::App(l, r) => {
            lemma_alpha_eq_rename(m, *l, f);
            let m1 = alpha_eq(m, *l, rename(*l, f)).1;
            lemma_alpha_eq_rename(m1, *r, f);
        },
        _ => {},
    }
}

/// Renaming the variables of any type by an injective function gives an
/// equal type; the identity renaming shows every type equals itself.
pub proof fn renaming_keeps_equality(t: TypeModel, f: spec_fn(Seq<char>) -> Seq<char>)
    requires
        is_injective(f),
    ensures
        types_equal(t, rename(t, f)),
{
    lemma_alpha_eq_rename(Map::empty(), t, f);
}

/// Every type equals itself.
pub proof fn equality_is_reflexive(t: TypeModel)
    ensures
        types_equal(t, t),
{
    let id = |n: Seq<char>| n;
    renaming_keeps_equality(t, id);
    lemma_rename_identity(t, id);
}

proof fn lemma_rename_identity(t: TypeModel, f: spec_fn(Seq<char>) -> Seq<char>)
    requires
        forall|n: Seq<char>| #[trigger] f(n) == n,
    ensures
        rename(t, f) == t,
    decreases t,
{
    match t {
        TypeModel::App(l, r) => {
            lemma_rename_identity(*l, f);
            lemma_rename_identity(*r, f);
        },
        _ => {},
    }
}

/// The correspondence is checked one way only: `x -> x` equals `y -> z` for
/// any names, since both right-hand names may map to `x`; while `a -> b`
/// with `a != b` does not equal `c -> c`.
pub proof fn correspondence_is_one_way(
    x: Seq<char>,
    y: Seq<char>,
    z: Seq<char>,
    a: Seq<char>,
    b: Seq<char>,
    c: Seq<char>,
    k: Kind,
)
    requires
        a != b,
    ensures
        types_equal(
            fn_model(TypeModel::Var(x, k), TypeModel::Var(x, k)),
            fn_model(TypeModel::Var(y, k), TypeModel::Var(z, k)),
        ),
        !types_equal(
            fn_model(TypeModel::Var(a, k), TypeModel::Var(b, k)),
            fn_model(TypeModel::Var(c, k), TypeModel::Var(c, k)),
        ),
{
    let arrow = TypeModel::Con("->"@, kind_of_arity(3));
    assert forall|p: TypeModel, q: TypeModel|
        fn_model(p, q) == TypeModel::App(
            Box::new(TypeModel::App(Box::new(arrow), Box::new(p))),
            Box::new(q),
        ) by {
        let s = seq![p, q];
        reveal_with_fuel(applied, 3);
        assert(s.drop_last() =~= seq![p]);
        assert(s.drop_last().drop_last() =~= Seq::<TypeModel>::empty());
    }
    let m0 = Map::<Seq<char>, Seq<char>>::empty();
    let m1 = m0.insert(y, x);
    assert(alpha_eq(m0, arrow, arrow) == (true, m0));
    let vx = TypeModel::Var(x, k);
    let ax = TypeModel::App(Box::new(arrow), Box::new(vx));
    let ay = TypeModel::App(Box::new(arrow), Box::new(TypeModel::Var(y, k)));
    assert(alpha_eq(m0, vx, TypeModel::Var(y, k)) == (true, m1));
    assert(alpha_eq(m0, ax, ay) == (true, m1));
    if y == z {
        assert(m1.contains_key(z));
        assert(alpha_eq(m1, vx, TypeModel::Var(z, k)).0);
    } else {
        assert(alpha_eq(m1, vx, TypeModel::Var(z, k)).0);
    }
    let n1 = m0.insert(c, a);
    let va = TypeModel::Var(a, k);
    let aa = TypeModel::App(Box::new(arrow), Box::new(va));
    let ac = TypeModel::App(Box::new(arrow), Box::new(TypeModel::Var(c, k)));
    assert(alpha_eq(m0, va, TypeModel::Var(c, k)) == (true, n1));
    assert(alpha_eq(m0, aa, ac) == (true, n1));
    assert(n1.contains_key(c));
    assert(!alpha_eq(n1, TypeModel::Var(b, k), TypeModel::Var(c, k)).0);
}

} // verus!

verus! {

/// The rendering of a kind: `*`, or `(k1 -> k2)`.
pub open spec fn kind_text(k: Kind) -> Seq<char>
    decreases k,
{
    match k {
        Kind::StarKind => "*"@,
        Kind::KindFunction(l, r) => "("@ + kind_text(*l) + " -> "@ + kind_text(*r) + ")"@,
    }
}

impl Kind {
    /// Renders the kind as text.
    pub fn to_string(&self) -> (r: String)
        ensures
            r@ == kind_text(*self),
        decreases self,
    {
        match self {
            Kind::StarKind => String::from_str("*"),
            Kind::KindFunction(l, r) => {
                let mut s = String::from_str("(");
                s.append((**l).to_string().as_str());
                s.append(" -> ");
                s.append((**r).to_string().as_str());
                s.append(")");
                s
            },
        }
    }
}

/// Precedence levels of the type printer.
pub open spec fn prec_top() -> nat {
    0
}

pub open spec fn prec_function() -> nat {
    1
}

pub open spec fn prec_constructor() -> nat {
    2
}

/// `text` in parentheses when `wrap` holds.
pub open spec fn parens_if(wrap: bool, text: Seq<char>) -> Seq<char> {
    if wrap {
        "("@ + text + ")"@
    } else {
        text
    }
}

/// The rendering of a type at precedence `p`: an arrow is bracketed at
/// function precedence or above, a list type is `[t]`, and an application
/// is juxtaposition, bracketed at constructor precedence.
pub open spec fn type_text(p: nat, t: TypeModel) -> Seq<char>
    decreases t,
{
    match t {
        TypeModel::Var(n, _) => n,
        TypeModel::Con(n, _) => n,
        TypeModel::Gen(n, _) => "#"@ + n,
        TypeModel::App(f, x) => {
            let plain = parens_if(
                p >= prec_constructor(),
                type_text(prec_function(), *f) + " "@ + type_text(prec_constructor(), *x),
            );
            match *f {
                TypeModel::App(c, a) => if is_con_named(*c, "->"@) {
                    if p >= prec_function() {
                        "("@ + type_text(prec_top(), *a) + " -> "@ + type_text(prec_top(), *x) + ")"@
                    } else {
                        type_text(prec_function(), *a) + " -> "@ + type_text(prec_top(), *x)
                    }
                } else {
                    plain
                },
                TypeModel::Con(n, _) => if n == "[]"@ {
                    "["@ + type_text(prec_top(), *x) + "]"@
                } else {
                    plain
                },
                _ => plain,
            }
        },
    }
}

fn render_type(p: u8, t: &Type) -> (r: String)
    requires
        p <= 2,
    ensures
        r@ == type_text(p as nat, t@),
    decreases t,
{
    match t {
        Type::TypeVariable(v) => v.id.clone(),
        Type::TypeConstructor(c) => c.name.clone(),
        Type::Generic(v) => {
            let mut s = String::from_str("#");
            s.append(v.id.as_str());
            s
        },
        Type::TypeApplication(f, x) => {
            assert(t@ == TypeModel::App(Box::new(f@), Box::new(x@)));
            let mut arrow_arg: Option<&Type> = None;
            let mut is_list = false;
            match &**f {
                Type::TypeApplication(c, a) => {
                    assert(f@ == TypeModel::App(Box::new(c@), Box::new(a@)));
                    match &**c {
                        Type::TypeConstructor(op) => {
                            if op.name == String::from_str("->") {
                                arrow_arg = Some(&**a);
                            }
                        },
                        _ => {},
                    }
                },
                Type::TypeConstructor(op) => {
                    is_list = op.name == String::from_str("[]");
                },
                _ => {},
            }
            match arrow_arg {
                Some(a) => {
                    let mut s = String::new();
                    if p >= 1 {
                        s.append("(");
                        s.append(render_type(0, a).as_str());
                        s.append(" -> ");
                        s.append(render_type(0, &**x).as_str());
                        s.append(")");
                    } else {
                        s.append(render_type(1, a).as_str());
                        s.append(" -> ");
                        s.append(render_type(0, &**x).as_str());
                    }
                    s
                },
                None => {
                    let mut s = String::new();
                    if is_list {
                        s.append("[");
                        s.append(render_type(0, &**x).as_str());
                        s.append("]");
                    } else {
                        if p >= 2 {
                            s.append("(");
                        }
                        s.append(render_type(1, &**f).as_str());
                        s.append(" ");
                        s.append(render_type(2, &**x).as_str());
                        if p >= 2 {
                            s.append(")");
                        }
                    }
                    s
                },
            }
        },
    }
}

impl Type {
    /// Renders the type as text, arrows associating to the right.
    pub fn to_string(&self) -> (r: String)
        ensures
            r@ == type_text(prec_top(), self@),
    {
        render_type(0, self)
    }
}

} // verus!

verus! {

impl TypeVariable {
    /// Renders the variable as its name.
    pub fn to_string(&self) -> (r: String)
        ensures
            r@ == self.id@,
    {
        self.id.clone()
    }
}

impl PartialEq for TypeVariable {
    /// Two variables are the same variable when their names are equal.
    fn eq(&self, other: &TypeVariable) -> (r: bool) {
        self.id == other.id
    }
}

impl vstd::std_specs::cmp::PartialEqSpecImpl for TypeVariable {
    open spec fn obeys_eq_spec() -> bool {
        true
    }

    open spec fn eq_spec(&self, other: &TypeVariable) -> bool {
        self.id@ == other.id@
    }
}

impl TypeConstructor {
    /// Renders the constructor as its name.
    pub fn to_string(&self) -> (r: String)
        ensures
            r@ == self.name@,
    {
        self.name.clone()
    }
}

/// ` v1 v2 ...`: each variable's name after a space.
pub open spec fn vars_text(vs: Seq<TypeVariable>) -> Seq<char>
    decreases vs.len(),
{
    if vs.len() == 0 {
        Seq::empty()
    } else {
        vars_text(vs.drop_last()) + " "@ + vs.last().id@
    }
}

/// The rendering of a constraint: `Eq a`.
pub open spec fn constraint_text(c: (Seq<char>, Seq<TypeVariable>)) -> Seq<char> {
    c.0 + vars_text(c.1)
}

/// Constraints rendered and separated by `, `.
pub open spec fn constraints_text(cs: Seq<(Seq<char>, Seq<TypeVariable>)>) -> Seq<char>
    decreases cs.len(),
{
    if cs.len() == 0 {
        Seq::empty()
    } else if cs.len() == 1 {
        constraint_text(cs[0])
    } else {
        constraints_text(cs.drop_last()) + ", "@ + constraint_text(cs.last())
    }
}

impl Constraint {
    /// Renders the constraint as its class followed by its variables.
    pub fn to_string(&self) -> (r: String)
        ensures
            r@ == constraint_text(self@),
    {
        let mut s = self.class.clone();
        let mut i: usize = 0;
        while i < self.variables.len()
            invariant
                i <= self.variables.len(),
                s@ == self.class@ + vars_text(self.variables@.take(i as int)),
            decreases self.variables.len() - i,
        {
            s.append(" ");
            s.append(self.variables[i].id.as_str());
            proof {
                assert(self.variables@.take(i + 1).drop_last() =~= self.variables@.take(i as int));
            }
            i = i + 1;
        }
        assert(self.variables@.take(self.variables.len() as int) =~= self.variables@);
        s
    }
}

/// The rendering of a qualified type: `[Eq a, Ord b] => t`.
pub open spec fn qualified_text(q: (Seq<(Seq<char>, Seq<TypeVariable>)>, TypeModel)) -> Seq<char> {
    "["@ + constraints_text(q.0) + "] => "@ + type_text(prec_top(), q.1)
}

impl Qualified<Type> {
    /// Renders the constraints in brackets, then the type.
    pub fn to_string(&self) -> (r: String)
        ensures
            r@ == qualified_text(self@),
    {
        let ghost cs = constraint_models(self.constraints@);
        let mut s = String::from_str("[");
        let mut i: usize = 0;
        while i < self.constraints.len()
            invariant
                i <= self.constraints.len(),
                cs == constraint_models(self.constraints@),
                s@ == "["@ + constraints_text(cs.take(i as int)),
            decreases self.constraints.len() - i,
        {
            if i > 0 {
                s.append(", ");
            }
            s.append(self.constraints[i].to_string().as_str());
            proof {
                assert(cs.take(i + 1).drop_last() =~= cs.take(i as int));
                assert(cs.take(i + 1).last() == self.constraints@[i as int]@);
                if i == 0 {
                    assert(cs.take(0) =~= Seq::empty());
                    assert(cs.take(1)[0] == self.constraints@[0]@);
                }
            }
            i = i + 1;
        }
        assert(cs.take(self.constraints.len() as int) =~= cs);
        s.append("] => ");
        s.append(self.value.to_string().as_str());
        s
    }
}

} // verus!

verus! {

/// `t` with the kind it reports set to `k`: for an application, the result
/// kind of its left operand's arrow kind.
pub open spec fn with_kind(t: Type, k: Kind) -> Type
    decreases t,
{
    match t {
        Type::TypeVariable(v) => Type::TypeVariable(TypeVariable { id: v.id, kind: k, age: v.age }),
        Type::TypeConstructor(c) => Type::TypeConstructor(TypeConstructor { name: c.name, kind: k }),
        Type::Generic(v) => Type::Generic(TypeVariable { id: v.id, kind: k, age: v.age }),
        Type::TypeApplication(l, r) => match kind_of(l@) {
            Some(Kind::KindFunction(a, _)) => Type::TypeApplication(
                Box::new(with_kind(*l, Kind::KindFunction(a, Box::new(k)))),
                r,
            ),
            _ => t,
        },
    }
}

fn rebuilt_with_kind(t: &Type, kind: Kind) -> (r: Type)
    requires
        kind_of(t@) is Some,
    ensures
        r == with_kind(*t, kind),
        kind_of(r@) == Some(kind),
    decreases t,
{
    match t {
        Type::TypeVariable(v) => Type::TypeVariable(TypeVariable { id: v.id.clone(), kind, age: v.age }),
        Type::TypeConstructor(c) => Type::TypeConstructor(TypeConstructor { name: c.name.clone(), kind }),
        Type::Generic(v) => Type::Generic(TypeVariable { id: v.id.clone(), kind, age: v.age }),
        Type::TypeApplication(lhs, rhs) => {
            let arg = match (**lhs).kind() {
                Kind::KindFunction(a, _) => (**a).clone(),
                Kind::StarKind => vstd::pervasive::unreached(),
            };
            let l2 = rebuilt_with_kind(&**lhs, Kind::KindFunction(Box::new(arg), Box::new(kind)));
            Type::TypeApplication(Box::new(l2), Box::new((**rhs).clone()))
        },
    }
}

impl Type {
    /// Sets the kind the type reports; the type must be well kinded. For an
    /// application this is the result kind of its left operand's arrow kind.
    pub fn set_kind(&mut self, kind: Kind)
        requires
            kind_of(old(self)@) is Some,
        ensures
            *final(self) == with_kind(*old(self), kind),
            kind_of(final(self)@) == Some(kind),
    {
        let r = rebuilt_with_kind(self, kind);
        *self = r;
    }
}

} // verus!

verus! {

impl Type {
    /// The kind of the type, or `None` when an application's left operand
    /// does not have an arrow kind (a type that is not well kinded).
    pub fn try_kind(&self) -> (r: Option<&Kind>)
        ensures
            match r {
                Some(k) => kind_of(self@) == Some(*k),
                None => kind_of(self@) is None,
            },
        decreases self,
    {
        match self {
            Type::TypeVariable(v) => Some(&v.kind),
            Type::TypeConstructor(c) => Some(&c.kind),
            Type::Generic(v) => Some(&v.kind),
            Type::TypeApplication(lhs, _) => match (**lhs).try_kind() {
                Some(Kind::KindFunction(_, res)) => Some(&**res),
                _ => None,
            },
        }
    }
}

} // verus!
