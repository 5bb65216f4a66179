use vstd::prelude::*;
use vstd::string::*;
use crate::types::{Constraint, Kind, Qualified, Type, TypeModel, TypeVariable, qualified_text};

verus! {

/// A data constructor: its name, its curried qualified type, its tag (the
/// zero-based declaration position) and its number of fields.
#[derive(Debug)]
pub struct Constructor<Ident> {
    pub name: Ident,
    pub typ: Qualified<Type>,
    pub tag: i64,
    pub arity: i64,
}

/// An algebraic data type: its constructors in declaration order, its own
/// qualified type, the position of each type parameter (a map from name to
/// position, held as pairs with distinct names), and the classes whose
/// instances are to be derived.
#[derive(Debug)]
pub struct DataDefinition<Ident> {
    pub constructors: Vec<Constructor<Ident>>,
    pub typ: Qualified<Type>,
    pub parameters: Vec<(String, i64)>,
    pub deriving: Vec<String>,
}

} // verus!

verus! {

/// Whether the type parameters have distinct names and each constructor's
/// tag is its zero-based declaration position.
pub open spec fn data_well_formed<Ident>(d: DataDefinition<Ident>) -> bool {
    &&& forall|i: int, j: int|
        0 <= i < j < d.parameters@.len() ==> (#[trigger] d.parameters@[i]).0@ != (
        #[trigger] d.parameters@[j]).0@
    &&& forall|i: int| 0 <= i < d.constructors@.len() ==> (#[trigger] d.constructors@[i]).tag == i
}

impl<Ident> DataDefinition<Ident> {
    /// Checks `data_well_formed`.
    pub fn is_well_formed(&self) -> (r: bool)
        ensures
            r == data_well_formed(*self),
    {
        let n = self.parameters.len();
        let mut i: usize = 0;
        while i < n
            invariant
                i <= n,
                n == self.parameters@.len(),
                forall|a: int, b: int|
                    0 <= a < i && a < b < n ==> (#[trigger] self.parameters@[a]).0@ != (
                    #[trigger] self.parameters@[b]).0@,
            decreases n - i,
        {
            let mut j: usize = i + 1;
            while j < n
                invariant
                    i < n,
                    i < j <= n,
                    n == self.parameters@.len(),
                    forall|a: int, b: int|
                        0 <= a < i && a < b < n ==> (#[trigger] self.parameters@[a]).0@ != (
                        #[trigger] self.parameters@[b]).0@,
                    forall|b: int| i < b < j ==> self.parameters@[i as int].0@ != (
                    #[trigger] self.parameters@[b]).0@,
                decreases n - j,
            {
                if self.parameters[i].0 == self.parameters[j].0 {
                    return false;
                }
                j = j + 1;
            }
            i = i + 1;
        }
        let mut k: usize = 0;
        while k < self.constructors.len()
            invariant
                k <= self.constructors@.len(),
                forall|a: int| 0 <= a < k ==> (#[trigger] self.constructors@[a]).tag == a,
            decreases self.constructors@.len() - k,
        {
            let t = self.constructors[k].tag;
            if t < 0 || t as u64 != k as u64 {
                return false;
            }
            k = k + 1;
        }
        true
    }
}

/// The unique name of a method binding of an instance: `#` followed by the
/// instance's type name and the method name.
pub open spec fn binding_identifier(instance: Seq<char>, method: Seq<char>) -> Seq<char> {
    "#"@ + instance + method
}

/// Encodes an instance's type name and a method name into one identifier.
pub fn encode_binding_identifier(instancename: &String, bindingname: &str) -> (r: String)
    ensures
        r@ == binding_identifier(instancename@, bindingname@),
{
    let mut buffer = String::from_str("#");
    buffer.append(instancename.as_str());
    buffer.append(bindingname);
    buffer
}

} // verus!

verus! {

/// A position in the source text.
#[derive(Debug, Clone, Copy, PartialEq, Eq, Structural)]
pub struct Location {
    pub column: i64,
    pub row: i64,
    pub absolute: i64,
}

/// A syntax node with its position.
#[derive(Debug)]
pub struct Located<T> {
    pub location: Location,
    pub node: T,
}

/// A module: its name, imports, bindings, declarations, classes,
/// instances and data types.
#[derive(Debug)]
pub struct Module<Ident> {
    pub name: Ident,
    pub imports: Vec<Import>,
    pub bindings: Vec<Binding<Ident>>,
    pub type_declarations: Vec<TypeDeclaration>,
    pub classes: Vec<Class<Ident>>,
    pub instances: Vec<Instance<Ident>>,
    pub data_definitions: Vec<DataDefinition<Ident>>,
}

/// An imported module.
#[derive(Debug)]
pub struct Import {
    pub module: String,
}

/// A class declaration over one type variable.
#[derive(Debug)]
pub struct Class<Ident> {
    pub name: Ident,
    pub variable: TypeVariable,
    pub declarations: Vec<TypeDeclaration>,
}

/// An instance of a class for a type.
#[derive(Debug)]
pub struct Instance<Ident> {
    pub bindings: Vec<Binding<Ident>>,
    pub constraints: Vec<Constraint>,
    pub typ: Type,
    pub classname: String,
}

/// One equation of a function: its name, argument patterns, right-hand
/// side and declared type.
#[derive(Debug)]
pub struct Binding<Ident> {
    pub name: Ident,
    pub arguments: Vec<Pattern<Ident>>,
    pub matches: Match<Ident>,
    pub typ: Qualified<Type>,
}

/// A type signature `name :: typ`.
#[derive(Debug)]
pub struct TypeDeclaration {
    pub typ: Qualified<Type>,
    pub name: String,
}

/// An expression with its type and position.
#[derive(Debug)]
pub struct TypedExpr<Ident> {
    pub expr: Expr<Ident>,
    pub typ: Type,
    pub location: Location,
}

/// One alternative of a case expression.
#[derive(Debug)]
pub struct Alternative<Ident> {
    pub pattern: Located<Pattern<Ident>>,
    pub matches: Match<Ident>,
}

/// A pattern.
#[derive(Debug)]
pub enum Pattern<Ident> {
    NumberPattern(i64),
    IdentifierPattern(Ident),
    ConstructorPattern(Ident, Vec<Pattern<Ident>>),
    WildCardPattern,
}

/// A right-hand side: guarded alternatives or one expression.
#[derive(Debug)]
pub enum Match<Ident> {
    Guards(Vec<Guard<Ident>>),
    Simple(TypedExpr<Ident>),
}

/// `| predicate -> expression`.
#[derive(Debug)]
pub struct Guard<Ident> {
    pub predicate: TypedExpr<Ident>,
    pub expression: TypedExpr<Ident>,
}

/// A statement of a `do` block.
#[derive(Debug)]
pub enum DoBinding<Ident> {
    DoLet(Vec<Binding<Ident>>),
    DoBind(Located<Pattern<Ident>>, TypedExpr<Ident>),
    DoExpr(TypedExpr<Ident>),
}

/// A literal; a fractional literal is kept as its source text.
#[derive(Debug)]
pub enum Literal {
    Integral(i64),
    Fractional(String),
    String(String),
    Char(char),
}

/// An expression of the surface language.
#[derive(Debug)]
pub enum Expr<Ident> {
    Identifier(Ident),
    Apply(Box<TypedExpr<Ident>>, Box<TypedExpr<Ident>>),
    Literal(Literal),
    Lambda(Pattern<Ident>, Box<TypedExpr<Ident>>),
    Let(Vec<Binding<Ident>>, Box<TypedExpr<Ident>>),
    Case(Box<TypedExpr<Ident>>, Vec<Alternative<Ident>>),
    Do(Vec<DoBinding<Ident>>, Box<TypedExpr<Ident>>),
    TypeSig(Box<TypedExpr<Ident>>, Qualified<Type>),
}

/// The position given to nodes that were not read from source text.
pub open spec fn no_location() -> Location {
    Location { column: -1i64, row: -1i64, absolute: -1i64 }
}

impl<Ident> TypedExpr<Ident> {
    /// `expr` with the placeholder type `a` and no position.
    pub fn new(expr: Expr<Ident>) -> (r: TypedExpr<Ident>)
        ensures
            r.expr == expr,
            r.typ@ == TypeModel::Var("a"@, Kind::StarKind),
            r.location == no_location(),
    {
        TypedExpr { expr, typ: Type::new_var(String::from_str("a")), location: Location { column: -1, row: -1, absolute: -1 } }
    }

    /// `expr` with the placeholder type `a` at `loc`.
    pub fn with_location(expr: Expr<Ident>, loc: Location) -> (r: TypedExpr<Ident>)
        ensures
            r.expr == expr,
            r.typ@ == TypeModel::Var("a"@, Kind::StarKind),
            r.location == loc,
    {
        TypedExpr { expr, typ: Type::new_var(String::from_str("a")), location: loc }
    }
}

/// Whether `groups` splits `names` into maximal runs of equal names, in
/// order: each group is a non-empty range `[start, end)`, the ranges follow
/// one another from 0 to the end, each holds one name throughout, and the
/// name changes at each boundary.
pub open spec fn is_grouping(names: Seq<Seq<char>>, groups: Seq<(usize, usize)>) -> bool {
    &&& (groups.len() == 0) == (names.len() == 0)
    &&& groups.len() > 0 ==> groups[0].0 == 0 && groups.last().1 == names.len()
    &&& forall|k: int| 0 <= k < groups.len() ==> (#[trigger] groups[k]).0 < groups[k].1
    &&& forall|k: int| 0 <= k < groups.len() - 1 ==> (#[trigger] groups[k]).1 == groups[k + 1].0
    &&& forall|k: int, m: int|
        0 <= k < groups.len() && (#[trigger] groups[k]).0 <= m < groups[k].1 ==> #[trigger] names[m]
            == names[groups[k].0 as int]
    &&& forall|k: int|
        0 <= k < groups.len() - 1 ==> names[(#[trigger] groups[k]).1 as int] != names[groups[k].0 as int]
}

/// The names of a list of bindings.
pub open spec fn binding_names(bs: Seq<Binding<String>>) -> Seq<Seq<char>> {
    bs.map_values(|b: Binding<String>| b.name@)
}

/// Splits `bindings` into the runs of neighbouring bindings that share a
/// name (the equations of one function), as `[start, end)` index ranges:
/// `not True = ..; not False = ..; undefined = ..` gives `[0, 2)`, `[2, 3)`.
pub fn binding_groups(bindings: &Vec<Binding<String>>) -> (r: Vec<(usize, usize)>)
    ensures
        is_grouping(binding_names(bindings@), r@),
{
    let ghost names = binding_names(bindings@);
    let n = bindings.len();
    let mut groups: Vec<(usize, usize)> = Vec::new();
    let mut i: usize = 0;
    while i < n
        invariant
            i <= n,
            n == bindings.len(),
            names == binding_names(bindings@),
            (groups.len() == 0) == (i == 0),
            groups.len() > 0 ==> groups@[0].0 == 0 && groups@.last().1 == i,
            forall|k: int| 0 <= k < groups.len() ==> (#[trigger] groups@[k]).0 < groups@[k].1,
            forall|k: int| 0 <= k < groups.len() - 1 ==> (#[trigger] groups@[k]).1 == groups@[k + 1].0,
            forall|k: int, m: int|
                0 <= k < groups.len() && (#[trigger] groups@[k]).0 <= m < groups@[k].1 ==> #[trigger] names[m]
                    == names[groups@[k].0 as int],
            forall|k: int|
                0 <= k < groups.len() - 1 ==> names[(#[trigger] groups@[k]).1 as int] != names[groups@[k].0 as int],
            groups.len() > 0 && i < n ==> names[i as int] != names[groups@.last().0 as int],
        decreases n - i,
    {
        let start = i;
        i = i + 1;
        while i < n && bindings[i].name == bindings[start].name
            invariant
                start < i <= n,
                n == bindings.len(),
                names == binding_names(bindings@),
                forall|m: int| start <= m < i ==> #[trigger] names[m] == names[start as int],
            decreases n - i,
        {
            assert(names[i as int] == bindings@[i as int].name@);
            assert(names[start as int] == bindings@[start as int].name@);
            i = i + 1;
        }
        proof {
            if i < n {
                assert(names[i as int] == bindings@[i as int].name@);
                assert(names[start as int] == bindings@[start as int].name@);
            }
        }
        let ghost prev = groups@;
        groups.push((start, i));
        proof {
            if prev.len() > 0 {
                assert(groups@[prev.len() - 1] == prev.last());
                assert(prev.last().1 == start);
            }
            assert forall|k: int| 0 <= k < groups.len() - 1 implies names[(#[trigger] groups@[k]).1 as int]
                != names[groups@[k].0 as int] by {
                if k < prev.len() - 1 {
                    assert(groups@[k] == prev[k]);
                } else {
                    assert(groups@[k] == prev.last());
                }
            }
        }
    }
    groups
}

} // verus!

verus! {

impl TypeDeclaration {
    /// Renders the declaration as `name :: type`.
    pub fn to_string(&self) -> (r: String)
        ensures
            r@ == self.name@ + " :: "@ + qualified_text(self.typ@),
    {
        let mut s = self.name.clone();
        s.append(" :: ");
        s.append(self.typ.to_string().as_str());
        s
    }
}

/// The decimal digits of `n`.
pub open spec fn digits(n: nat) -> Seq<char>
    decreases n,
{
    if n < 10 {
        "0123456789"@.subrange(n as int, n as int + 1)
    } else {
        digits(n / 10) + "0123456789"@.subrange((n % 10) as int, (n % 10) as int + 1)
    }
}

/// The decimal rendering of an integer, with a leading `-` when negative.
pub open spec fn int_text(i: int) -> Seq<char> {
    if i < 0 {
        "-"@ + digits((-i) as nat)
    } else {
        digits(i as nat)
    }
}

fn digits_of(n: u64) -> (r: String)
    ensures
        r@ == digits(n as nat),
    decreases n,
{
    let table = "0123456789";
    proof {
        reveal_strlit("0123456789");
    }
    if n < 10 {
        String::from_str(table.substring_char(n as usize, n as usize + 1))
    } else {
        let mut s = digits_of(n / 10);
        let d = (n % 10) as usize;
        s.append(table.substring_char(d, d + 1));
        s
    }
}

/// Renders an integer in decimal.
pub fn int_to_string(i: i64) -> (r: String)
    ensures
        r@ == int_text(i as int),
{
    if i < 0 {
        let m: u64 = (0i128 - (i as i128)) as u64;
        let mut s = String::from_str("-");
        s.append(digits_of(m).as_str());
        s
    } else {
        digits_of(i as u64)
    }
}

/// The rendering of a pattern: a name, a number, `_`, or a constructor
/// pattern `(C  p1 p2)` (a space after the name, then one before each
/// sub-pattern).
pub open spec fn pattern_text(p: Pattern<String>) -> Seq<char>
    decreases p, 0nat,
{
    match p {
        Pattern::IdentifierPattern(s) => s@,
        Pattern::NumberPattern(i) => int_text(i as int),
        Pattern::WildCardPattern => "_"@,
        Pattern::ConstructorPattern(name, ps) => "("@ + name@ + " "@ + patterns_text(ps, ps@.len() as int)
            + ")"@,
    }
}

/// The first `k` patterns of `ps`, each after a space.
pub open spec fn patterns_text(ps: Vec<Pattern<String>>, k: int) -> Seq<char>
    decreases ps, k,
{
    if k <= 0 || k > ps@.len() {
        Seq::empty()
    } else {
        patterns_text(ps, k - 1) + " "@ + pattern_text(ps@[k - 1])
    }
}

fn render_patterns(ps: &Vec<Pattern<String>>, k: usize) -> (r: String)
    requires
        k <= ps@.len(),
    ensures
        r@ == patterns_text(*ps, k as int),
    decreases *ps, k,
{
    if k == 0 {
        String::new()
    } else {
        let mut s = render_patterns(ps, k - 1);
        s.append(" ");
        s.append(ps[k - 1].to_string().as_str());
        s
    }
}

impl Pattern<String> {
    /// Renders the pattern as source text.
    pub fn to_string(&self) -> (r: String)
        ensures
            r@ == pattern_text(*self),
        decreases *self, 0nat,
    {
        match self {
            Pattern::IdentifierPattern(s) => s.clone(),
            Pattern::NumberPattern(i) => int_to_string(*i),
            Pattern::WildCardPattern => String::from_str("_"),
            Pattern::ConstructorPattern(name, ps) => {
                let mut s = String::from_str("(");
                s.append(name.as_str());
                s.append(" ");
                s.append(render_patterns(ps, ps.len()).as_str());
                s.append(")");
                s
            },
        }
    }
}

/// The rendering of a literal: a number, a fractional literal's text, a
/// string in double quotes, a character in single quotes.
pub open spec fn literal_text(l: Literal) -> Seq<char> {
    match l {
        Literal::Integral(i) => int_text(i as int),
        Literal::Fractional(t) => t@,
        Literal::String(s) => "\""@ + s@ + "\""@,
        Literal::Char(c) => "'"@ + seq![c] + "'"@,
    }
}

} // verus!

verus! {

/// Relies on `char::to_string` (through `Display`): the string of that one
/// character.
#[verifier::external_body]
fn char_string(c: char) -> (r: String)
    ensures
        r@ == seq![c],
{
    c.to_string()
}

impl Literal {
    /// Renders the literal as source text.
    pub fn to_string(&self) -> (r: String)
        ensures
            r@ == literal_text(*self),
    {
        match self {
            Literal::Integral(i) => int_to_string(*i),
            Literal::Fractional(t) => t.clone(),
            Literal::String(s) => {
                let mut r = String::from_str("\"");
                r.append(s.as_str());
                r.append("\"");
                r
            },
            Literal::Char(c) => {
                let mut r = String::from_str("'");
                r.append(char_string(*c).as_str());
                r.append("'");
                r
            },
        }
    }
}

} // verus!
