use vstd::prelude::*;
use vstd::string::*;
use crate::types::{Constraint, Qualified, Type, TypeModel, TypeVariable, constraint_models};

verus! {

/// A resolved name: its text and a unique id; id 0 marks a global name.
#[derive(Debug)]
pub struct Name {
    pub name: String,
    pub uid: u64,
}

impl View for Name {
    type V = (Seq<char>, u64);

    open spec fn view(&self) -> (Seq<char>, u64) {
        (self.name@, self.uid)
    }
}

impl Clone for Name {
    fn clone(&self) -> (r: Name)
        ensures
            r@ == self@,
    {
        Name { name: self.name.clone(), uid: self.uid }
    }
}

/// The text given to every fresh name.
pub open spec fn fresh_text() -> Seq<char> {
    "_a"@
}

/// A supply of fresh names, numbered by a counter that only grows.
#[derive(Debug)]
pub struct NameSupply {
    pub unique_id: u64,
}

impl NameSupply {
    /// A supply whose first fresh name has id 1.
    pub fn new() -> (r: NameSupply)
        ensures
            r.unique_id == 0,
    {
        NameSupply { unique_id: 0 }
    }

    /// A name never handed out before by this supply.
    pub fn anonymous(&mut self) -> (r: Name)
        requires
            old(self).unique_id < u64::MAX,
        ensures
            final(self).unique_id == old(self).unique_id + 1,
            r@ == (fresh_text(), final(self).unique_id),
    {
        self.unique_id = self.unique_id + 1;
        Name { name: String::from_str("_a"), uid: self.unique_id }
    }
}

/// The model of a typed identifier.
pub struct IdModel {
    pub name: Seq<char>,
    pub uid: u64,
    pub typ: TypeModel,
    pub constraints: Seq<(Seq<char>, Seq<TypeVariable>)>,
}

/// An identifier with its qualified type.
#[derive(Debug)]
pub struct Id {
    pub name: Name,
    pub typ: Qualified<Type>,
}

impl View for Id {
    type V = IdModel;

    open spec fn view(&self) -> IdModel {
        IdModel {
            name: self.name.name@,
            uid: self.name.uid,
            typ: self.typ.value@,
            constraints: constraint_models(self.typ.constraints@),
        }
    }
}

impl Id {
    /// An identifier of the given name, type and constraints.
    pub fn new(name: Name, typ: Type, constraints: Vec<Constraint>) -> (r: Id)
        ensures
            r@ == (IdModel {
                name: name@.0,
                uid: name@.1,
                typ: typ@,
                constraints: constraint_models(constraints@),
            }),
    {
        Id { name, typ: Qualified { constraints, value: typ } }
    }
}

impl Clone for Id {
    fn clone(&self) -> (r: Id)
        ensures
            r@ == self@,
    {
        Id { name: self.name.clone(), typ: self.typ.clone() }
    }
}

/// An expression of the core language that derived code is written in.
#[derive(Debug)]
pub enum Expr {
    Identifier(Id),
    Apply(Box<Expr>, Box<Expr>),
    Lambda(Id, Box<Expr>),
    Case(Box<Expr>, Vec<Alternative>),
}

/// A pattern of a case alternative.
#[derive(Debug)]
pub enum Pattern {
    IdentifierPattern(Id),
    ConstructorPattern(Id, Vec<Id>),
    WildCardPattern,
}

/// One alternative of a case expression.
#[derive(Debug)]
pub struct Alternative {
    pub pattern: Pattern,
    pub expression: Expr,
}

/// A top-level binding of a name to an expression.
#[derive(Debug)]
pub struct Binding {
    pub name: Id,
    pub expression: Expr,
}

/// The models of a sequence of identifiers.
pub open spec fn id_models(ids: Seq<Id>) -> Seq<IdModel> {
    ids.map_values(|i: Id| i@)
}

/// The model of a global (id 0) name with the given type and no constraints.
pub open spec fn global_id(name: Seq<char>, typ: TypeModel) -> IdModel {
    IdModel { name, uid: 0, typ, constraints: Seq::empty() }
}

/// Whether `e` is exactly the identifier `id`.
pub open spec fn is_ident(e: Expr, id: IdModel) -> bool {
    e matches Expr::Identifier(i) && i@ == id
}

/// The operator and operands of `op l r`, if `e` has that form.
pub open spec fn binop_parts(e: Expr) -> Option<(Expr, Expr, Expr)> {
    match e {
        Expr::Apply(f1, r) => match *f1 {
            Expr::Apply(f0, l) => Some((*f0, *l, *r)),
            _ => None,
        },
        _ => None,
    }
}

} // verus!
