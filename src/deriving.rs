use vstd::prelude::*;
use vstd::string::*;
use crate::core_syntax::{
    Alternative, Binding, Expr, Id, IdModel, Name, NameSupply, Pattern, binop_parts, fresh_text,
    global_id, id_models, is_ident,
};
use crate::module::{Constructor, DataDefinition};
use crate::types::{
    Type, TypeModel, Kind, applied_head, bool_type, clone_constraints, constraint_models,
    extract_applied_type, fn_args, fn_model, function_arguments, function_type_, models, op_model,
    ordering_type, type_text, prec_top,
};

verus! {

/// `Bool`.
pub open spec fn bool_model() -> TypeModel {
    op_model("Bool"@, Seq::empty())
}

/// `Ordering`.
pub open spec fn ordering_model() -> TypeModel {
    op_model("Ordering"@, Seq::empty())
}

/// `a -> b -> c`.
pub open spec fn fn2(a: TypeModel, b: TypeModel, c: TypeModel) -> TypeModel {
    fn_model(a, fn_model(b, c))
}

/// Whether `e` is `op l r` for the global operator `op` of type
/// `l.typ -> r.typ -> ret` applied to the identifiers `l` and `r`.
pub open spec fn is_field_op(e: Expr, op: Seq<char>, l: IdModel, r: IdModel, ret: TypeModel) -> bool {
    binop_parts(e) matches Some((f, a, b)) && is_ident(f, global_id(op, fn2(l.typ, r.typ, ret)))
        && is_ident(a, l) && is_ident(b, r)
}

/// The shape of field-wise equality: `True` for no fields, else the
/// left fold `(l0 == r0) && (l1 == r1) && ...`.
pub open spec fn eq_fields_shape(e: Expr, ls: Seq<IdModel>, rs: Seq<IdModel>) -> bool
    decreases ls.len(),
{
    if ls.len() == 0 {
        is_ident(e, global_id("True"@, bool_model()))
    } else if ls.len() == 1 {
        is_field_op(e, "=="@, ls[0], rs[0], bool_model())
    } else {
        binop_parts(e) matches Some((f, acc, test)) && is_ident(
            f,
            global_id("&&"@, fn2(bool_model(), bool_model(), bool_model())),
        ) && eq_fields_shape(acc, ls.drop_last(), rs.drop_last()) && is_field_op(
            test,
            "=="@,
            ls.last(),
            rs.last(),
            bool_model(),
        )
    }
}

/// The comparison and the default of `case cmp of { EQ -> def; m -> m }`,
/// where `m` is a fresh identifier of type `Ordering`.
pub open spec fn eq_or_default_parts(e: Expr) -> Option<(Expr, Expr)> {
    match e {
        Expr::Case(s, alts) => if alts@.len() == 2 && (alts@[0].pattern matches Pattern::ConstructorPattern(
            c,
            args,
        ) && c@ == global_id("EQ"@, ordering_model()) && args@.len() == 0) && (
        alts@[1].pattern matches Pattern::IdentifierPattern(m) && m@.name == fresh_text() && m@.uid > 0 && m@.typ
            == ordering_model() && m@.constraints.len() == 0 && is_ident(
            alts@[1].expression,
            m@,
        )) {
            Some((*s, alts@[0].expression))
        } else {
            None
        },
        _ => None,
    }
}

/// The shape of field-wise comparison: `EQ` for no fields, else
/// `compare l0 r0` consulted first, each later field only where the earlier
/// ones compare `EQ`.
pub open spec fn ord_fields_shape(e: Expr, ls: Seq<IdModel>, rs: Seq<IdModel>) -> bool
    decreases ls.len(),
{
    if ls.len() == 0 {
        is_ident(e, global_id("EQ"@, ordering_model()))
    } else if ls.len() == 1 {
        is_field_op(e, "compare"@, ls[0], rs[0], ordering_model())
    } else {
        eq_or_default_parts(e) matches Some((cmp, def)) && is_field_op(
            cmp,
            "compare"@,
            ls[0],
            rs[0],
            ordering_model(),
        ) && ord_fields_shape(def, ls.drop_first(), rs.drop_first())
    }
}

/// The id of the fresh binder of `case cmp of { EQ -> def; m -> m }`.
pub open spec fn eq_or_default_binder(e: Expr) -> u64 {
    e->Case_1@[1].pattern->IdentifierPattern_0.name.uid
}

/// The fresh binders of a field-wise comparison of `n` fields: the
/// outermost one (first field) has id `base + n - 1`, each inner one the
/// next lower id, down to `base + 1`.
pub open spec fn ord_binders(e: Expr, n: nat, base: int) -> bool
    decreases n,
{
    if n <= 1 {
        true
    } else {
        &&& eq_or_default_binder(e) == base + n - 1
        &&& match eq_or_default_parts(e) {
            Some((_, def)) => ord_binders(def, (n - 1) as nat, base),
            None => false,
        }
    }
}

fn global(name: &str, typ: Type) -> (r: Id)
    ensures
        r@ == global_id(name@, typ@),
{
    let r = Id::new(Name { name: String::from_str(name), uid: 0 }, typ, Vec::new());
    assert(constraint_models(Seq::<crate::types::Constraint>::empty()) =~= Seq::empty());
    r
}

fn true_expr() -> (r: Expr)
    ensures
        is_ident(r, global_id("True"@, bool_model())),
{
    Expr::Identifier(global("True", bool_type()))
}

/// `op lhs rhs`, the operator typed `lt -> rt -> ret`.
fn binop(op: &str, lhs: Expr, lt: Type, rhs: Expr, rt: Type, ret: Type) -> (r: Expr)
    ensures
        binop_parts(r) matches Some((f, a, b)) && is_ident(f, global_id(op@, fn2(lt@, rt@, ret@)))
            && a == lhs && b == rhs,
{
    let typ = function_type_(lt, function_type_(rt, ret));
    let f = Expr::Identifier(global(op, typ));
    Expr::Apply(Box::new(Expr::Apply(Box::new(f), Box::new(lhs))), Box::new(rhs))
}

/// `op l r` over two identifiers.
fn field_op(op: &str, l: &Id, r: &Id, ret: Type) -> (e: Expr)
    ensures
        is_field_op(e, op@, l@, r@, ret@),
{
    binop(
        op,
        Expr::Identifier(l.clone()),
        l.typ.value.clone(),
        Expr::Identifier(r.clone()),
        r.typ.value.clone(),
        ret,
    )
}

/// Field-wise equality of two equally long lists of field identifiers.
pub fn eq_fields(args_l: &Vec<Id>, args_r: &Vec<Id>) -> (e: Expr)
    requires
        args_l.len() == args_r.len(),
    ensures
        eq_fields_shape(e, id_models(args_l@), id_models(args_r@)),
{
    let ghost ls = id_models(args_l@);
    let ghost rs = id_models(args_r@);
    if args_l.len() >= 1 {
        let mut acc = field_op("==", &args_l[0], &args_r[0], bool_type());
        assert(ls.take(1).len() == 1 && ls.take(1)[0] == ls[0] && rs.take(1)[0] == rs[0]);
        let mut i: usize = 1;
        while i < args_l.len()
            invariant
                1 <= i <= args_l.len(),
                args_l.len() == args_r.len(),
                ls == id_models(args_l@),
                rs == id_models(args_r@),
                eq_fields_shape(acc, ls.take(i as int), rs.take(i as int)),
            decreases args_l.len() - i,
        {
            let test = field_op("==", &args_l[i], &args_r[i], bool_type());
            acc = binop("&&", acc, bool_type(), test, bool_type(), bool_type());
            proof {
                assert(ls.take(i + 1).drop_last() =~= ls.take(i as int));
                assert(rs.take(i + 1).drop_last() =~= rs.take(i as int));
            }
            i = i + 1;
        }
        assert(ls.take(args_l.len() as int) =~= ls);
        assert(rs.take(args_l.len() as int) =~= rs);
        acc
    } else {
        true_expr()
    }
}

} // verus!

verus! {

/// The generator's state: the supply of fresh names.
pub struct DerivingGen {
    pub name_supply: NameSupply,
}

impl DerivingGen {
    /// `case cmp of { EQ -> def; m -> m }` for a fresh `m`.
    pub fn eq_or_default(&mut self, cmp: Expr, def: Expr) -> (e: Expr)
        requires
            old(self).name_supply.unique_id < u64::MAX,
        ensures
            final(self).name_supply.unique_id == old(self).name_supply.unique_id + 1,
            eq_or_default_parts(e) == Some((cmp, def)),
            eq_or_default_binder(e) == final(self).name_supply.unique_id,
    {
        let match_id = Id::new(self.name_supply.anonymous(), ordering_type(), Vec::new());
        assert(constraint_models(Seq::<crate::types::Constraint>::empty()) =~= Seq::empty());
        let eq_pattern = Pattern::ConstructorPattern(global("EQ", ordering_type()), Vec::new());
        let bind_pattern = Pattern::IdentifierPattern(match_id.clone());
        let alts = vec![
            Alternative { pattern: eq_pattern, expression: def },
            Alternative { pattern: bind_pattern, expression: Expr::Identifier(match_id) },
        ];
        Expr::Case(Box::new(cmp), alts)
    }

    /// Field-wise comparison of two equally long lists of field identifiers,
    /// the first field the most significant.
    pub fn ord_fields(&mut self, args_l: &Vec<Id>, args_r: &Vec<Id>) -> (e: Expr)
        requires
            args_l.len() == args_r.len(),
            old(self).name_supply.unique_id + args_l.len() <= u64::MAX,
        ensures
            ord_fields_shape(e, id_models(args_l@), id_models(args_r@)),
            ord_binders(e, args_l.len() as nat, old(self).name_supply.unique_id as int),
            final(self).name_supply.unique_id == old(self).name_supply.unique_id + if args_l.len()
                >= 1 {
                args_l.len() - 1
            } else {
                0
            },
    {
        let ghost ls = id_models(args_l@);
        let ghost rs = id_models(args_r@);
        let n = args_l.len();
        if n >= 1 {
            let mut acc = field_op("compare", &args_l[n - 1], &args_r[n - 1], ordering_type());
            assert(ls.subrange(n - 1, n as int).len() == 1);
            assert(ls.subrange(n - 1, n as int)[0] == ls[n - 1]);
            assert(rs.subrange(n - 1, n as int)[0] == rs[n - 1]);
            let mut j: usize = n - 1;
            while j > 0
                invariant
                    j < n,
                    n == args_l.len(),
                    args_l.len() == args_r.len(),
                    ls == id_models(args_l@),
                    rs == id_models(args_r@),
                    ord_fields_shape(acc, ls.subrange(j as int, n as int), rs.subrange(j as int, n as int)),
                    self.name_supply.unique_id + j + 1 == old(self).name_supply.unique_id + n,
                    old(self).name_supply.unique_id + n <= u64::MAX,
                    ord_binders(acc, (n - j) as nat, old(self).name_supply.unique_id as int),
                decreases j,
            {
                j = j - 1;
                let test = field_op("compare", &args_l[j], &args_r[j], ordering_type());
                acc = self.eq_or_default(test, acc);
                proof {
                    assert(ls.subrange(j as int, n as int).drop_first() =~= ls.subrange(j + 1, n as int));
                    assert(rs.subrange(j as int, n as int).drop_first() =~= rs.subrange(j + 1, n as int));
                    assert(ls.subrange(j as int, n as int)[0] == ls[j as int]);
                    assert(rs.subrange(j as int, n as int)[0] == rs[j as int]);
                }
            }
            assert(ls.subrange(0, n as int) =~= ls);
            assert(rs.subrange(0, n as int) =~= rs);
            acc
        } else {
            Expr::Identifier(global("EQ", ordering_type()))
        }
    }
}

} // verus!

verus! {

/// Total number of fields over a list of constructors.
pub open spec fn total_fields(cs: Seq<Constructor<Name>>) -> nat
    decreases cs.len(),
{
    if cs.len() == 0 {
        0
    } else {
        total_fields(cs.drop_last()) + fn_args(cs.last().typ.value@).len()
    }
}

proof fn lemma_total_fields_prefix(cs: Seq<Constructor<Name>>, i: int)
    requires
        0 <= i <= cs.len(),
    ensures
        total_fields(cs.take(i)) <= total_fields(cs),
    decreases cs.len(),
{
    if i < cs.len() {
        assert(cs.drop_last().take(i) =~= cs.take(i));
        lemma_total_fields_prefix(cs.drop_last(), i);
    } else {
        assert(cs.take(i) =~= cs);
    }
}

/// The model of the identifier of a constructor.
pub open spec fn ctor_id_model(c: Constructor<Name>) -> IdModel {
    IdModel {
        name: c.name@.0,
        uid: c.name@.1,
        typ: c.typ.value@,
        constraints: constraint_models(c.typ.constraints@),
    }
}

/// Fresh identifiers, one for each field of `c`, typed by the field types
/// and carrying the constructor's constraints.
pub open spec fn fields_of(ids: Seq<IdModel>, c: Constructor<Name>) -> bool {
    &&& ids.len() == fn_args(c.typ.value@).len()
    &&& forall|j: int|
        0 <= j < ids.len() ==> (#[trigger] ids[j]).name == fresh_text() && ids[j].typ == fn_args(
            c.typ.value@,
        )[j] && ids[j].constraints == constraint_models(c.typ.constraints@)
}

/// Ids strictly increasing and all above `lo`.
pub open spec fn fresh_above(ids: Seq<IdModel>, lo: u64) -> bool {
    &&& forall|j: int| 0 <= j < ids.len() ==> (#[trigger] ids[j]).uid > lo
    &&& forall|j: int, k: int| 0 <= j < k < ids.len() ==> (#[trigger] ids[j]).uid < (#[trigger] ids[k]).uid
}

/// The alternative for constructor `c`: it binds fresh fields of the left
/// value, then matches the right value `r` against the same constructor,
/// binding fresh fields again; there it combines the fields, and on any
/// other constructor it gives `False`.
pub open spec fn same_ctor_alt(a: Alternative, c: Constructor<Name>, r: IdModel, ord: bool) -> bool {
    match a.pattern {
        Pattern::ConstructorPattern(cl, ls) => match a.expression {
            Expr::Case(s, inner) => {
                &&& cl@ == ctor_id_model(c)
                &&& fields_of(id_models(ls@), c)
                &&& is_ident(*s, r)
                &&& inner@.len() == 2
                &&& inner@[1].pattern is WildCardPattern
                &&& is_ident(inner@[1].expression, global_id("False"@, bool_model()))
                &&& match inner@[0].pattern {
                    Pattern::ConstructorPattern(cr, rs) => {
                        &&& cr@ == ctor_id_model(c)
                        &&& fields_of(id_models(rs@), c)
                        &&& fresh_above(id_models(ls@) + id_models(rs@), r.uid)
                        &&& if ord {
                            ord_fields_shape(inner@[0].expression, id_models(ls@), id_models(rs@))
                        } else {
                            eq_fields_shape(inner@[0].expression, id_models(ls@), id_models(rs@))
                        }
                    },
                    _ => false,
                }
            },
            _ => false,
        },
        _ => false,
    }
}

/// One alternative per constructor, in declaration order.
pub open spec fn same_ctor_alts(
    alts: Seq<Alternative>,
    cs: Seq<Constructor<Name>>,
    r: IdModel,
    ord: bool,
) -> bool {
    &&& alts.len() == cs.len()
    &&& forall|i: int| 0 <= i < alts.len() ==> #[trigger] same_ctor_alt(alts[i], cs[i], r, ord)
}

/// How many fresh names the alternative for `c` takes: two per field, and
/// for comparison one more per field after the first.
pub open spec fn ctor_uses(c: Constructor<Name>, ord: bool) -> nat {
    let n = fn_args(c.typ.value@).len();
    if !ord {
        2 * n
    } else if n >= 1 {
        (3 * n - 1) as nat
    } else {
        0
    }
}

/// How many fresh names the alternatives for the first `k` constructors take.
pub open spec fn uses_before(cs: Seq<Constructor<Name>>, k: int, ord: bool) -> nat
    decreases k,
{
    if k <= 0 {
        0
    } else {
        uses_before(cs, k - 1, ord) + ctor_uses(cs[k - 1], ord)
    }
}

proof fn lemma_uses_before_bound(cs: Seq<Constructor<Name>>, k: int, ord: bool)
    requires
        0 <= k <= cs.len(),
    ensures
        uses_before(cs, k, ord) <= 3 * total_fields(cs.take(k)),
    decreases k,
{
    if k > 0 {
        lemma_uses_before_bound(cs, k - 1, ord);
        assert(cs.take(k).drop_last() =~= cs.take(k - 1));
    }
}

/// The fresh names of the alternative for `c`, taking the ids after `lo`:
/// the left fields `lo + 1 ..`, then the right fields, then (for
/// comparison) the binders of the field-wise comparison.
pub open spec fn alt_ids(a: Alternative, c: Constructor<Name>, lo: int, ord: bool) -> bool {
    match a.pattern {
        Pattern::ConstructorPattern(_, ls) => match a.expression {
            Expr::Case(_, inner) => {
                &&& inner@.len() == 2
                &&& match inner@[0].pattern {
                    Pattern::ConstructorPattern(_, rs) => {
                        &&& forall|j: int|
                            0 <= j < ls@.len() ==> (#[trigger] ls@[j]).name.uid == lo + 1 + j
                        &&& forall|j: int|
                            0 <= j < rs@.len() ==> (#[trigger] rs@[j]).name.uid == lo + 1 + ls@.len()
                                + j
                        &&& ord ==> ord_binders(
                            inner@[0].expression,
                            ls@.len(),
                            lo + 2 * ls@.len(),
                        )
                    },
                    _ => false,
                }
            },
            _ => false,
        },
        _ => false,
    }
}

/// The alternatives take consecutive blocks of fresh ids after `start`, one
/// block per constructor in order.
pub open spec fn alts_ids(alts: Seq<Alternative>, cs: Seq<Constructor<Name>>, start: int, ord: bool) -> bool {
    forall|k: int|
        0 <= k < alts.len() ==> #[trigger] alt_ids(alts[k], cs[k], start + uses_before(cs, k, ord), ord)
}

impl DerivingGen {
    fn fresh_fields(&mut self, c: &Constructor<Name>) -> (ids: Vec<Id>)
        requires
            old(self).name_supply.unique_id + fn_args(c.typ.value@).len() <= u64::MAX,
        ensures
            fields_of(id_models(ids@), *c),
            final(self).name_supply.unique_id == old(self).name_supply.unique_id + ids.len(),
            forall|j: int|
                0 <= j < ids.len() ==> (#[trigger] ids@[j]).name.uid == old(
                    self,
                ).name_supply.unique_id + 1 + j,
    {
        let args = function_arguments(&c.typ.value);
        let ghost fa = fn_args(c.typ.value@);
        assert(models(args@).len() == fa.len());
        let mut ids: Vec<Id> = Vec::new();
        let mut j: usize = 0;
        while j < args.len()
            invariant
                j <= args.len(),
                models(args@) == fa,
                fa == fn_args(c.typ.value@),
                ids.len() == j,
                self.name_supply.unique_id == old(self).name_supply.unique_id + j,
                old(self).name_supply.unique_id + fa.len() <= u64::MAX,
                forall|k: int|
                    0 <= k < j ==> (#[trigger] ids@[k])@.name == fresh_text() && ids@[k]@.typ == fa[k]
                        && ids@[k]@.constraints == constraint_models(c.typ.constraints@)
                        && ids@[k].name.uid == old(self).name_supply.unique_id + 1 + k,
            decreases args.len() - j,
        {
            let name = self.name_supply.anonymous();
            let id = Id::new(name, args[j].clone(), clone_constraints(&c.typ.constraints));
            assert(models(args@)[j as int] == args@[j as int]@);
            ids.push(id);
            j = j + 1;
        }
        ids
    }

    fn constructor_id(c: &Constructor<Name>) -> (r: Id)
        ensures
            r@ == ctor_id_model(*c),
    {
        Id::new(c.name.clone(), c.typ.value.clone(), clone_constraints(&c.typ.constraints))
    }

    /// One alternative per constructor that matches both values against that
    /// constructor and combines their fields, by equality or by comparison.
    pub fn match_same_constructors(&mut self, data: &DataDefinition<Name>, id_r: &Id, ord: bool) -> (r:
        Vec<Alternative>)
        requires
            id_r@.uid <= old(self).name_supply.unique_id,
            old(self).name_supply.unique_id + 3 * total_fields(data.constructors@) <= u64::MAX,
        ensures
            same_ctor_alts(r@, data.constructors@, id_r@, ord),
            alts_ids(r@, data.constructors@, old(self).name_supply.unique_id as int, ord),
            final(self).name_supply.unique_id == old(self).name_supply.unique_id + uses_before(
                data.constructors@,
                data.constructors@.len() as int,
                ord,
            ),
            final(self).name_supply.unique_id <= old(self).name_supply.unique_id + 3 * total_fields(
                data.constructors@,
            ),
    {
        let ghost cs = data.constructors@;
        let ghost start = self.name_supply.unique_id;
        let mut alts: Vec<Alternative> = Vec::new();
        let mut i: usize = 0;
        while i < data.constructors.len()
            invariant
                i <= cs.len(),
                cs == data.constructors@,
                start == old(self).name_supply.unique_id,
                id_r@.uid <= start,
                start + 3 * total_fields(cs) <= u64::MAX,
                self.name_supply.unique_id == start + uses_before(cs, i as int, ord),
                alts.len() == i,
                forall|k: int| 0 <= k < i ==> #[trigger] same_ctor_alt(alts@[k], cs[k], id_r@, ord),
                forall|k: int|
                    0 <= k < i ==> #[trigger] alt_ids(alts@[k], cs[k], start + uses_before(cs, k, ord), ord),
            decreases cs.len() - i,
        {
            let c = &data.constructors[i];
            proof {
                assert(cs.take(i + 1).drop_last() =~= cs.take(i as int));
                lemma_total_fields_prefix(cs, i + 1);
                lemma_uses_before_bound(cs, i as int, ord);
                assert(total_fields(cs.take(i + 1)) == total_fields(cs.take(i as int)) + fn_args(
                    cs[i as int].typ.value@,
                ).len());
            }
            let ghost s0 = self.name_supply.unique_id;
            let args_l = self.fresh_fields(c);
            let args_r = self.fresh_fields(c);
            let expr = if ord {
                self.ord_fields(&args_l, &args_r)
            } else {
                eq_fields(&args_l, &args_r)
            };
            let ghost both = id_models(args_l@) + id_models(args_r@);
            assert(fresh_above(both, id_r@.uid)) by {
                assert forall|j: int| 0 <= j < both.len() implies (#[trigger] both[j]).uid == s0 + 1 + j by {
                    if j < args_l.len() {
                        assert(args_l@[j].name.uid == s0 + 1 + j);
                    } else {
                        assert(args_r@[j - args_l.len()].name.uid == s0 + args_l.len() + 1 + (j
                            - args_l.len()));
                    }
                }
            }
            let inner = vec![
                Alternative {
                    pattern: Pattern::ConstructorPattern(Self::constructor_id(c), args_r),
                    expression: expr,
                },
                Alternative {
                    pattern: Pattern::WildCardPattern,
                    expression: Expr::Identifier(global("False", bool_type())),
                },
            ];
            let alt = Alternative {
                pattern: Pattern::ConstructorPattern(Self::constructor_id(c), args_l),
                expression: Expr::Case(Box::new(Expr::Identifier(id_r.clone())), inner),
            };
            assert(same_ctor_alt(alt, cs[i as int], id_r@, ord));
            assert(alt_ids(alt, cs[i as int], s0 as int, ord));
            alts.push(alt);
            i = i + 1;
        }
        assert(cs.take(cs.len() as int) =~= cs);
        proof {
            lemma_uses_before_bound(cs, cs.len() as int, ord);
        }
        alts
    }
}

} // verus!

verus! {

/// Why a derivation could not be generated.
#[derive(Debug)]
pub enum DerivingError {
    /// A class other than `Eq` and `Ord` was requested; holds its name.
    UnsupportedDerivation(String),
    /// The data type's own type is not headed by a type constructor; holds
    /// its rendering.
    MalformedType(String),
}

/// The classes that can be derived.
pub open spec fn derivable(class: Seq<char>) -> bool {
    class == "Eq"@ || class == "Ord"@
}

/// The first requested class that cannot be derived, if any.
pub open spec fn first_unsupported(ds: Seq<String>) -> Option<Seq<char>>
    decreases ds.len(),
{
    if ds.len() == 0 {
        None
    } else if derivable(ds[0]@) {
        first_unsupported(ds.drop_first())
    } else {
        Some(ds[0]@)
    }
}

/// The name of the type constructor that heads the data type's type.
pub open spec fn data_type_name(data: DataDefinition<Name>) -> Option<Seq<char>> {
    match applied_head(data.typ.value@) {
        TypeModel::Con(n, _) => Some(n),
        _ => None,
    }
}

/// `a -> a -> Ordering`, the type of the builtin tag comparison.
pub open spec fn compare_tags_type() -> TypeModel {
    fn2(TypeModel::Var("a"@, Kind::StarKind), TypeModel::Var("a"@, Kind::StarKind), ordering_model())
}

/// The body of derived equality: a case on the left value with one
/// alternative per constructor.
pub open spec fn eq_body_shape(e: Expr, l: IdModel, r: IdModel, data: DataDefinition<Name>) -> bool {
    match e {
        Expr::Case(s, alts) => is_ident(*s, l) && same_ctor_alts(alts@, data.constructors@, r, false),
        _ => false,
    }
}

/// The body of derived comparison: the tags of the two values compared
/// first, and only where they are equal a case on the left value with one
/// alternative per constructor.
pub open spec fn ord_body_shape(e: Expr, l: IdModel, r: IdModel, data: DataDefinition<Name>) -> bool {
    match eq_or_default_parts(e) {
        Some((cmp, def)) => {
            &&& binop_parts(cmp) matches Some((f, a, b))
            &&& is_ident(f, global_id("#compare_tags"@, compare_tags_type()))
            &&& is_ident(a, l)
            &&& is_ident(b, r)
            &&& match def {
                Expr::Case(s, alts) => is_ident(*s, l) && same_ctor_alts(
                    alts@,
                    data.constructors@,
                    r,
                    true,
                ),
                _ => false,
            }
        },
        None => false,
    }
}

/// A derived binary method of `data`: a global binding named after the
/// type and the method, typed `T -> T -> ret` under the type's
/// constraints, bound to `\l -> \r -> body` for fresh `l` and `r` of the
/// data type's qualified type.
pub open spec fn derived_binding(b: Binding, data: DataDefinition<Name>, ord: bool) -> bool {
    let t = data.typ.value@;
    let cs = constraint_models(data.typ.constraints@);
    let ret = if ord {
        ordering_model()
    } else {
        bool_model()
    };
    let method = if ord {
        "compare"@
    } else {
        "=="@
    };
    match b.expression {
        Expr::Lambda(l, body1) => match *body1 {
            Expr::Lambda(r, body) => {
                &&& data_type_name(data) is Some
                &&& b.name@ == IdModel {
                    name: crate::module::binding_identifier(data_type_name(data)->0, method),
                    uid: 0,
                    typ: fn2(t, t, ret),
                    constraints: cs,
                }
                &&& l@.name == fresh_text() && l@.typ == t && l@.constraints == cs
                &&& r@.name == fresh_text() && r@.typ == t && r@.constraints == cs
                &&& 0 < l@.uid < r@.uid
                &&& if ord {
                    ord_body_shape(*body, l@, r@, data)
                } else {
                    eq_body_shape(*body, l@, r@, data)
                }
            },
            _ => false,
        },
        _ => false,
    }
}

/// How many fresh names a derived method takes: its two parameters, the
/// alternatives' blocks, and for comparison the binder of the tag test.
pub open spec fn binding_uses(data: DataDefinition<Name>, ord: bool) -> nat {
    2 + uses_before(data.constructors@, data.constructors@.len() as int, ord) + if ord {
        1nat
    } else {
        0nat
    }
}

/// The fresh names of a derived method take the ids after `start`, each
/// once: the parameters `start + 1` and `start + 2`, then one block per
/// alternative in order, then (for comparison) the binder of the tag test,
/// `start + binding_uses(data, true)`.
pub open spec fn binding_ids(b: Binding, data: DataDefinition<Name>, ord: bool, start: int) -> bool {
    match b.expression {
        Expr::Lambda(l, body1) => match *body1 {
            Expr::Lambda(r, body) => {
                &&& l.name.uid == start + 1
                &&& r.name.uid == start + 2
                &&& if ord {
                    &&& eq_or_default_binder(*body) == start + binding_uses(data, true)
                    &&& match eq_or_default_parts(*body) {
                        Some((_, def)) => match def {
                            Expr::Case(_, alts) => alts_ids(alts@, data.constructors@, start + 2, true),
                            _ => false,
                        },
                        None => false,
                    }
                } else {
                    match *body {
                        Expr::Case(_, alts) => alts_ids(alts@, data.constructors@, start + 2, false),
                        _ => false,
                    }
                }
            },
            _ => false,
        },
        _ => false,
    }
}

/// `#compare_tags lhs rhs`.
fn compare_tags(lhs: Expr, rhs: Expr) -> (e: Expr)
    ensures
        binop_parts(e) matches Some((f, a, b)) && is_ident(
            f,
            global_id("#compare_tags"@, compare_tags_type()),
        ) && a == lhs && b == rhs,
{
    let var = Type::new_var(String::from_str("a"));
    let typ = function_type_(var.clone(), function_type_(var.clone(), ordering_type()));
    let id = global("#compare_tags", typ);
    Expr::Apply(Box::new(Expr::Apply(Box::new(Expr::Identifier(id)), Box::new(lhs))), Box::new(rhs))
}

impl DerivingGen {
    /// A binary method binding of `data` (`==` when `ord` is false,
    /// `compare` when it is true).
    pub fn make_binop(&mut self, data: &DataDefinition<Name>, ord: bool) -> (b: Binding)
        requires
            data_type_name(*data) is Some,
            old(self).name_supply.unique_id + 3 + 3 * total_fields(data.constructors@) <= u64::MAX,
        ensures
            derived_binding(b, *data, ord),
            binding_ids(b, *data, ord, old(self).name_supply.unique_id as int),
            final(self).name_supply.unique_id == old(self).name_supply.unique_id + binding_uses(
                *data,
                ord,
            ),
            binding_uses(*data, ord) <= 3 + 3 * total_fields(data.constructors@),
    {
        let arg_l = self.name_supply.anonymous();
        let arg_r = self.name_supply.anonymous();
        let id_r = Id::new(arg_r, data.typ.value.clone(), clone_constraints(&data.typ.constraints));
        let id_l = Id::new(arg_l, data.typ.value.clone(), clone_constraints(&data.typ.constraints));
        let body = if ord {
            let alts = self.match_same_constructors(data, &id_r, true);
            let when_eq = Expr::Case(Box::new(Expr::Identifier(id_l.clone())), alts);
            let cmp = compare_tags(Expr::Identifier(id_l.clone()), Expr::Identifier(id_r.clone()));
            self.eq_or_default(cmp, when_eq)
        } else {
            let alts = self.match_same_constructors(data, &id_r, false);
            Expr::Case(Box::new(Expr::Identifier(id_l.clone())), alts)
        };
        let ret = if ord {
            ordering_type()
        } else {
            bool_type()
        };
        let t = &data.typ.value;
        let typ = function_type_(t.clone(), function_type_(t.clone(), ret));
        let head = extract_applied_type(t);
        let data_name = &head.ctor().name;
        let name = if ord {
            crate::module::encode_binding_identifier(data_name, "compare")
        } else {
            crate::module::encode_binding_identifier(data_name, "==")
        };
        let lambda_expr = Expr::Lambda(id_l, Box::new(Expr::Lambda(id_r, Box::new(body))));
        let b = Binding {
            name: Id::new(Name { name, uid: 0 }, typ, clone_constraints(&data.typ.constraints)),
            expression: lambda_expr,
        };
        b
    }

    /// The derived `==` of `data`.
    pub fn generate_eq(&mut self, data: &DataDefinition<Name>) -> (b: Binding)
        requires
            data_type_name(*data) is Some,
            old(self).name_supply.unique_id + 3 + 3 * total_fields(data.constructors@) <= u64::MAX,
        ensures
            derived_binding(b, *data, false),
            binding_ids(b, *data, false, old(self).name_supply.unique_id as int),
            final(self).name_supply.unique_id == old(self).name_supply.unique_id + binding_uses(
                *data,
                false,
            ),
            binding_uses(*data, false) <= 3 + 3 * total_fields(data.constructors@),
    {
        self.make_binop(data, false)
    }

    /// The derived `compare` of `data`.
    pub fn generate_ord(&mut self, data: &DataDefinition<Name>) -> (b: Binding)
        requires
            data_type_name(*data) is Some,
            old(self).name_supply.unique_id + 3 + 3 * total_fields(data.constructors@) <= u64::MAX,
        ensures
            derived_binding(b, *data, true),
            binding_ids(b, *data, true, old(self).name_supply.unique_id as int),
            final(self).name_supply.unique_id == old(self).name_supply.unique_id + binding_uses(
                *data,
                true,
            ),
            binding_uses(*data, true) <= 3 + 3 * total_fields(data.constructors@),
    {
        self.make_binop(data, true)
    }
}

} // verus!

verus! {

/// How many fresh names the bindings for the first `k` requested classes
/// of `ds` take.
pub open spec fn uses_upto(data: DataDefinition<Name>, ds: Seq<String>, k: int) -> nat
    decreases k,
{
    if k <= 0 {
        0
    } else {
        uses_upto(data, ds, k - 1) + binding_uses(data, ds[k - 1]@ == "Ord"@)
    }
}

/// Whether the first `n` requested classes of `ds` have their bindings, in
/// order, at `out[start..]`, the `k`-th taking the fresh ids after
/// `first_id + uses_upto(data, ds, k)`; so no fresh name is given twice.
pub open spec fn bindings_derived(
    out: Seq<Binding>,
    start: int,
    ds: Seq<String>,
    n: int,
    data: DataDefinition<Name>,
    first_id: int,
) -> bool {
    &&& out.len() == start + n
    &&& forall|k: int|
        0 <= k < n ==> #[trigger] derived_for(
            out[start + k],
            data,
            ds[k]@,
            first_id + uses_upto(data, ds, k),
        )
}

/// The binding derived for `class` (`compare` for `Ord`, `==` otherwise),
/// its fresh names taking the ids after `start`.
pub open spec fn derived_for(b: Binding, data: DataDefinition<Name>, class: Seq<char>, start: int) -> bool {
    &&& derived_binding(b, data, class == "Ord"@)
    &&& binding_ids(b, data, class == "Ord"@, start)
}

fn is_derivable(class: &String) -> (r: bool)
    ensures
        r == derivable(class@),
{
    *class == String::from_str("Eq") || *class == String::from_str("Ord")
}

/// Appends to `bindings` one derived binding for each class that `data`
/// asks for, in order. Fails, appending nothing, when a class other than
/// `Eq` and `Ord` is asked for (naming the first such class), or when the
/// data type's type is not headed by a type constructor. Every fresh name
/// comes from `name_supply`, which the caller shares across the compilation
/// run, so no fresh name is ever given twice.
pub fn generate_deriving(
    bindings: &mut Vec<Binding>,
    data: &DataDefinition<Name>,
    name_supply: &mut NameSupply,
) -> (r: Result<(), DerivingError>)
    requires
        first_unsupported(data.deriving@) is None ==> old(name_supply).unique_id + data.deriving.len()
            * (3 + 3 * total_fields(data.constructors@)) <= u64::MAX,
    ensures
        match r {
            Ok(()) => {
                &&& first_unsupported(data.deriving@) is None
                &&& final(bindings)@.subrange(0, old(bindings)@.len() as int) == old(bindings)@
                &&& bindings_derived(
                    final(bindings)@,
                    old(bindings)@.len() as int,
                    data.deriving@,
                    data.deriving@.len() as int,
                    *data,
                    old(name_supply).unique_id as int,
                )
                &&& final(name_supply).unique_id == old(name_supply).unique_id + uses_upto(
                    *data,
                    data.deriving@,
                    data.deriving@.len() as int,
                )
                &&& data.deriving.len() > 0 ==> data_type_name(*data) is Some
            },
            Err(DerivingError::UnsupportedDerivation(name)) => {
                &&& first_unsupported(data.deriving@) == Some(name@)
                &&& final(bindings)@ == old(bindings)@
                &&& *final(name_supply) == *old(name_supply)
            },
            Err(DerivingError::MalformedType(text)) => {
                &&& first_unsupported(data.deriving@) is None
                &&& data.deriving.len() > 0
                &&& data_type_name(*data) is None
                &&& text@ == type_text(prec_top(), data.typ.value@)
                &&& final(bindings)@ == old(bindings)@
                &&& *final(name_supply) == *old(name_supply)
            },
        },
{
    let ghost ds = data.deriving@;
    assert(ds.subrange(0, ds.len() as int) =~= ds);
    let mut i: usize = 0;
    while i < data.deriving.len()
        invariant
            i <= ds.len(),
            ds == data.deriving@,
            first_unsupported(ds) == first_unsupported(ds.subrange(i as int, ds.len() as int)),
        decreases ds.len() - i,
    {
        assert(ds.subrange(i as int, ds.len() as int).drop_first() =~= ds.subrange(
            i + 1,
            ds.len() as int,
        ));
        if !is_derivable(&data.deriving[i]) {
            return Err(DerivingError::UnsupportedDerivation(data.deriving[i].clone()));
        }
        i = i + 1;
    }
    if data.deriving.len() > 0 {
        let head = extract_applied_type(&data.typ.value);
        match head {
            Type::TypeConstructor(_) => {},
            _ => {
                return Err(DerivingError::MalformedType(data.typ.value.to_string()));
            },
        }
    }
    let ghost old_out = bindings@;
    let ghost per = 3 + 3 * total_fields(data.constructors@);
    let ghost first = name_supply.unique_id as int;
    let mut gen = DerivingGen { name_supply: NameSupply { unique_id: name_supply.unique_id } };
    let mut k: usize = 0;
    while k < data.deriving.len()
        invariant
            k <= ds.len(),
            ds == data.deriving@,
            ds.len() > 0 ==> data_type_name(*data) is Some,
            first + ds.len() * per <= u64::MAX,
            per == 3 + 3 * total_fields(data.constructors@),
            gen.name_supply.unique_id == first + uses_upto(*data, ds, k as int),
            uses_upto(*data, ds, k as int) <= k * per,
            bindings@.subrange(0, old_out.len() as int) == old_out,
            bindings_derived(bindings@, old_out.len() as int, ds, k as int, *data, first),
        decreases ds.len() - k,
    {
        proof {
            assert((k + 1) * per <= ds.len() * per) by (nonlinear_arith)
                requires
                    k + 1 <= ds.len(),
                    per >= 0,
            ;
            assert((k + 1) * per == k * per + per) by (nonlinear_arith);
        }
        let b = if data.deriving[k] == String::from_str("Ord") {
            gen.generate_ord(data)
        } else {
            gen.generate_eq(data)
        };
        let ghost before = bindings@;
        bindings.push(b);
        proof {
            assert(bindings@.subrange(0, old_out.len() as int) =~= before.subrange(
                0,
                old_out.len() as int,
            ));
            assert forall|j: int| 0 <= j < k + 1 implies #[trigger] derived_for(
                bindings@[old_out.len() + j],
                *data,
                ds[j]@,
                first + uses_upto(*data, ds, j),
            ) by {
                if j < k {
                    assert(derived_for(
                        before[old_out.len() + j],
                        *data,
                        ds[j]@,
                        first + uses_upto(*data, ds, j),
                    ));
                }
            }
        }
        k = k + 1;
    }
    name_supply.unique_id = gen.name_supply.unique_id;
    Ok(())
}

} // verus!
