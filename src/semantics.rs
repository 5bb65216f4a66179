//! The meaning of derived code: an evaluator for the core expressions that
//! the deriving engine builds, over values whose fields are integers, and
//! the laws that derived equality and comparison obey under it.
use vstd::prelude::*;
use crate::core_syntax::{
    Alternative, Binding, Expr, IdModel, Name, Pattern, binop_parts, id_models, is_ident,
};
use crate::deriving::{
    bool_model, derived_binding, eq_fields_shape, eq_or_default_parts, is_field_op,
    ord_fields_shape, ordering_model, same_ctor_alt, same_ctor_alts,
};
use crate::module::{Constructor, DataDefinition};
use crate::types::{TypeModel, fn_args};

verus! {

/// A runtime value: an integer, a boolean, an ordering (-1, 0, 1), or a
/// constructed value with its constructor's name and id, its tag, and its
/// integer fields.
pub enum Value {
    Int(int),
    Bool(bool),
    Order(int),
    Data(Seq<char>, u64, int, Seq<int>),
}

/// Local variables, keyed by name text and id.
pub type Env = Map<(Seq<char>, u64), Value>;

pub open spec fn key(id: IdModel) -> (Seq<char>, u64) {
    (id.name, id.uid)
}

/// Three-way comparison of integers.
pub open spec fn cmp_int(a: int, b: int) -> int {
    if a < b {
        -1
    } else if a > b {
        1
    } else {
        0
    }
}

/// The values of the global names derived code mentions.
pub open spec fn global_value(name: Seq<char>) -> Option<Value> {
    if name == "True"@ {
        Some(Value::Bool(true))
    } else if name == "False"@ {
        Some(Value::Bool(false))
    } else if name == "EQ"@ {
        Some(Value::Order(0))
    } else {
        None
    }
}

/// The builtin binary operators derived code applies.
pub open spec fn apply_builtin(op: Seq<char>, x: Value, y: Value) -> Option<Value> {
    if op == "=="@ {
        match (x, y) {
            (Value::Int(a), Value::Int(b)) => Some(Value::Bool(a == b)),
            _ => None,
        }
    } else if op == "&&"@ {
        match (x, y) {
            (Value::Bool(a), Value::Bool(b)) => Some(Value::Bool(a && b)),
            _ => None,
        }
    } else if op == "compare"@ {
        match (x, y) {
            (Value::Int(a), Value::Int(b)) => Some(Value::Order(cmp_int(a, b))),
            _ => None,
        }
    } else if op == "#compare_tags"@ {
        match (x, y) {
            (Value::Data(_, _, t1, _), Value::Data(_, _, t2, _)) => Some(Value::Order(cmp_int(t1, t2))),
            _ => None,
        }
    } else {
        None
    }
}

/// Whether pattern `p` matches `v`.
pub open spec fn pattern_matches(p: Pattern, v: Value) -> bool {
    match p {
        Pattern::WildCardPattern => true,
        Pattern::IdentifierPattern(_) => true,
        Pattern::ConstructorPattern(c, args) => match v {
            Value::Data(n, u, _, fs) => c@.name == n && c@.uid == u && args@.len() == fs.len(),
            Value::Order(o) => c@.name == "EQ"@ && c@.uid == 0 && o == 0 && args@.len() == 0,
            _ => false,
        },
    }
}

/// `env` with each of `ids` bound to the matching integer of `fs`.
pub open spec fn bind_fields(env: Env, ids: Seq<IdModel>, fs: Seq<int>) -> Env
    decreases ids.len(),
{
    if ids.len() == 0 || fs.len() == 0 {
        env
    } else {
        bind_fields(env, ids.drop_last(), fs.drop_last()).insert(key(ids.last()), Value::Int(fs.last()))
    }
}

/// `env` with the variables of `p` bound to the parts of `v`.
pub open spec fn bind(env: Env, p: Pattern, v: Value) -> Env {
    match p {
        Pattern::IdentifierPattern(m) => env.insert(key(m@), v),
        Pattern::ConstructorPattern(_, args) => match v {
            Value::Data(_, _, _, fs) => bind_fields(env, id_models(args@), fs),
            _ => env,
        },
        Pattern::WildCardPattern => env,
    }
}

/// The index of the first alternative whose pattern matches `v`, or -1.
pub open spec fn first_match(alts: Seq<Alternative>, v: Value) -> int
    decreases alts.len(),
{
    if alts.len() == 0 {
        -1
    } else if pattern_matches(alts[0].pattern, v) {
        0
    } else {
        let k = first_match(alts.drop_first(), v);
        if k < 0 {
            -1
        } else {
            k + 1
        }
    }
}

/// The value of `e` in `env`: global names (id 0) by `global_value`, local
/// ones by `env`; a builtin operator applied to two operands; a case by
/// its first matching alternative.
pub open spec fn eval(e: Expr, env: Env) -> Option<Value>
    decreases e,
{
    match e {
        Expr::Identifier(id) => if id.name.uid == 0 {
            global_value(id.name.name@)
        } else if env.contains_key((id.name.name@, id.name.uid)) {
            Some(env[(id.name.name@, id.name.uid)])
        } else {
            None
        },
        Expr::Apply(f1, b) => match *f1 {
            Expr::Apply(f0, a) => match *f0 {
                Expr::Identifier(op) => match eval(*a, env) {
                    Some(x) => match eval(*b, env) {
                        Some(y) => apply_builtin(op.name.name@, x, y),
                        None => None,
                    },
                    None => None,
                },
                _ => None,
            },
            _ => None,
        },
        Expr::Lambda(_, _) => None,
        Expr::Case(s, alts) => match eval(*s, env) {
            Some(v) => {
                let i = first_match(alts@, v);
                if 0 <= i < alts@.len() {
                    eval(alts@[i].expression, bind(env, alts@[i].pattern, v))
                } else {
                    None
                }
            },
            None => None,
        },
    }
}

/// A two-parameter binding `\l -> \r -> body` applied to `x` and `y`.
pub open spec fn apply_binding(b: Binding, x: Value, y: Value) -> Option<Value> {
    match b.expression {
        Expr::Lambda(l, body1) => match *body1 {
            Expr::Lambda(r, body) => eval(*body, Map::empty().insert(key(l@), x).insert(key(r@), y)),
            _ => None,
        },
        _ => None,
    }
}

} // verus!

verus! {

/// Ids with strictly increasing numbers.
pub open spec fn increasing(ids: Seq<IdModel>) -> bool {
    forall|a: int, b: int| 0 <= a < b < ids.len() ==> (#[trigger] ids[a]).uid < (#[trigger] ids[b]).uid
}

proof fn lemma_bind_fields_other(env: Env, ids: Seq<IdModel>, fs: Seq<int>, k: (Seq<char>, u64))
    requires
        ids.len() == fs.len(),
        forall|a: int| 0 <= a < ids.len() ==> key(#[trigger] ids[a]) != k,
    ensures
        bind_fields(env, ids, fs).contains_key(k) == env.contains_key(k),
        env.contains_key(k) ==> bind_fields(env, ids, fs)[k] == env[k],
    decreases ids.len(),
{
    if ids.len() > 0 {
        assert(key(ids[ids.len() - 1]) != k);
        lemma_bind_fields_other(env, ids.drop_last(), fs.drop_last(), k);
    }
}

proof fn lemma_bind_fields_get(env: Env, ids: Seq<IdModel>, fs: Seq<int>, j: int)
    requires
        ids.len() == fs.len(),
        0 <= j < ids.len(),
        increasing(ids),
    ensures
        bind_fields(env, ids, fs).contains_key(key(ids[j])),
        bind_fields(env, ids, fs)[key(ids[j])] == Value::Int(fs[j]),
    decreases ids.len(),
{
    if j < ids.len() - 1 {
        assert(ids[j].uid < ids[ids.len() - 1].uid);
        let t = ids.drop_last();
        assert(increasing(t)) by {
            assert forall|a: int, b: int| 0 <= a < b < t.len() implies (#[trigger] t[a]).uid < (
            #[trigger] t[b]).uid by {
                assert(ids[a] == t[a] && ids[b] == t[b]);
            }
        }
        lemma_bind_fields_get(env, t, fs.drop_last(), j);
    }
}

/// Lexicographic three-way comparison: the first differing position decides.
pub open spec fn lex_compare(xs: Seq<int>, ys: Seq<int>) -> int
    decreases xs.len(),
{
    if xs.len() == 0 || ys.len() == 0 {
        0
    } else if xs[0] != ys[0] {
        cmp_int(xs[0], ys[0])
    } else {
        lex_compare(xs.drop_first(), ys.drop_first())
    }
}

/// Whether `env` binds each of `ls` to the matching integer of `xs`, and
/// likewise `rs` to `ys`.
pub open spec fn binds_fields(env: Env, ls: Seq<IdModel>, xs: Seq<int>, rs: Seq<IdModel>, ys: Seq<int>) -> bool {
    &&& ls.len() == xs.len() && rs.len() == ys.len() && ls.len() == rs.len()
    &&& forall|j: int|
        0 <= j < ls.len() ==> (#[trigger] ls[j]).uid != 0 && env.contains_key(key(ls[j]))
            && env[key(ls[j])] == Value::Int(xs[j])
    &&& forall|j: int|
        0 <= j < rs.len() ==> (#[trigger] rs[j]).uid != 0 && env.contains_key(key(rs[j]))
            && env[key(rs[j])] == Value::Int(ys[j])
}

proof fn lemma_binds_fields_drop_last(
    env: Env,
    ls: Seq<IdModel>,
    xs: Seq<int>,
    rs: Seq<IdModel>,
    ys: Seq<int>,
)
    requires
        binds_fields(env, ls, xs, rs, ys),
        ls.len() > 0,
    ensures
        binds_fields(env, ls.drop_last(), xs.drop_last(), rs.drop_last(), ys.drop_last()),
{
    assert forall|j: int| 0 <= j < ls.len() - 1 implies (#[trigger] ls.drop_last()[j]).uid != 0 by {
        assert(ls[j] == ls.drop_last()[j]);
    }
    assert forall|j: int| 0 <= j < rs.len() - 1 implies (#[trigger] rs.drop_last()[j]).uid != 0 by {
        assert(rs[j] == rs.drop_last()[j]);
    }
}

proof fn lemma_binds_fields_drop_first(
    env: Env,
    ls: Seq<IdModel>,
    xs: Seq<int>,
    rs: Seq<IdModel>,
    ys: Seq<int>,
)
    requires
        binds_fields(env, ls, xs, rs, ys),
        ls.len() > 0,
    ensures
        binds_fields(env, ls.drop_first(), xs.drop_first(), rs.drop_first(), ys.drop_first()),
{
    assert forall|j: int| 0 <= j < ls.len() - 1 implies (#[trigger] ls.drop_first()[j]).uid != 0 by {
        assert(ls[j + 1] == ls.drop_first()[j]);
    }
    assert forall|j: int| 0 <= j < rs.len() - 1 implies (#[trigger] rs.drop_first()[j]).uid != 0 by {
        assert(rs[j + 1] == rs.drop_first()[j]);
    }
}

proof fn lemma_builtin_names()
    ensures
        "=="@ != "&&"@,
        "compare"@ != "=="@,
        "compare"@ != "&&"@,
        "#compare_tags"@ != "=="@,
        "#compare_tags"@ != "&&"@,
        "#compare_tags"@ != "compare"@,
        "True"@ != "False"@,
        "EQ"@ != "True"@,
        "EQ"@ != "False"@,
{
    reveal_strlit("==");
    reveal_strlit("&&");
    reveal_strlit("compare");
    reveal_strlit("#compare_tags");
    reveal_strlit("True");
    reveal_strlit("False");
    reveal_strlit("EQ");
    assert("=="@[0] != "&&"@[0]);
    assert("compare"@.len() != "=="@.len());
    assert("compare"@.len() != "&&"@.len());
    assert("#compare_tags"@.len() != "=="@.len());
    assert("#compare_tags"@.len() != "&&"@.len());
    assert("#compare_tags"@.len() != "compare"@.len());
    assert("True"@.len() != "False"@.len());
    assert("EQ"@.len() != "True"@.len());
    assert("EQ"@.len() != "False"@.len());
}

proof fn lemma_eval_field_op(e: Expr, op: Seq<char>, l: IdModel, r: IdModel, ret: TypeModel, env: Env)
    requires
        is_field_op(e, op, l, r, ret),
        l.uid != 0,
        r.uid != 0,
        env.contains_key(key(l)),
        env.contains_key(key(r)),
    ensures
        eval(e, env) == apply_builtin(op, env[key(l)], env[key(r)]),
{
    let (f, a, b) = binop_parts(e)->0;
    assert(eval(a, env) == Some(env[key(l)]));
    assert(eval(b, env) == Some(env[key(r)]));
    assert(e == Expr::Apply(Box::new(Expr::Apply(Box::new(f), Box::new(a))), Box::new(b)));
}

proof fn lemma_eval_eq_fields(e: Expr, ls: Seq<IdModel>, rs: Seq<IdModel>, xs: Seq<int>, ys: Seq<int>, env: Env)
    requires
        eq_fields_shape(e, ls, rs),
        binds_fields(env, ls, xs, rs, ys),
    ensures
        eval(e, env) == Some(Value::Bool(xs == ys)),
    decreases ls.len(),
{
    if ls.len() == 0 {
        assert(xs =~= ys);
    } else if ls.len() == 1 {
        lemma_builtin_names();
        lemma_eval_field_op(e, "=="@, ls[0], rs[0], bool_model(), env);
        if xs[0] == ys[0] {
            assert(xs =~= ys);
        }
    } else {
        let (f, acc, test) = binop_parts(e)->0;
        lemma_builtin_names();
        assert(e == Expr::Apply(Box::new(Expr::Apply(Box::new(f), Box::new(acc))), Box::new(test)));
        lemma_binds_fields_drop_last(env, ls, xs, rs, ys);
        lemma_eval_eq_fields(acc, ls.drop_last(), rs.drop_last(), xs.drop_last(), ys.drop_last(), env);
        let n = ls.len() - 1;
        lemma_eval_field_op(test, "=="@, ls[n], rs[n], bool_model(), env);
        if xs.drop_last() == ys.drop_last() && xs[n] == ys[n] {
            assert forall|j: int| 0 <= j < xs.len() implies xs[j] == ys[j] by {
                if j < n {
                    assert(xs[j] == xs.drop_last()[j]);
                    assert(ys[j] == ys.drop_last()[j]);
                }
            }
            assert(xs =~= ys);
        }
        if xs == ys {
            assert(xs.drop_last() =~= ys.drop_last());
        }
    }
}

proof fn lemma_eval_ord_fields(e: Expr, ls: Seq<IdModel>, rs: Seq<IdModel>, xs: Seq<int>, ys: Seq<int>, env: Env)
    requires
        ord_fields_shape(e, ls, rs),
        binds_fields(env, ls, xs, rs, ys),
    ensures
        eval(e, env) == Some(Value::Order(lex_compare(xs, ys))),
    decreases ls.len(),
{
    if ls.len() == 0 {
        lemma_builtin_names();
    } else if ls.len() == 1 {
        lemma_builtin_names();
        lemma_eval_field_op(e, "compare"@, ls[0], rs[0], ordering_model(), env);
        assert(xs.drop_first().len() == 0);
        assert(eval(e, env) == Some(Value::Order(cmp_int(xs[0], ys[0]))));
        assert(lex_compare(xs.drop_first(), ys.drop_first()) == 0);
    } else {
        let (cmp, def) = eq_or_default_parts(e)->0;
        lemma_builtin_names();
        lemma_eval_field_op(cmp, "compare"@, ls[0], rs[0], ordering_model(), env);
        let c = cmp_int(xs[0], ys[0]);
        assert(eval(cmp, env) == Some(Value::Order(c)));
        let alts = e->Case_1@;
        assert(e == Expr::Case(Box::new(cmp), e->Case_1));
        if c == 0 {
            assert(first_match(alts, Value::Order(0)) == 0);
            assert(bind(env, alts[0].pattern, Value::Order(0)) == env);
            lemma_binds_fields_drop_first(env, ls, xs, rs, ys);
            lemma_eval_ord_fields(def, ls.drop_first(), rs.drop_first(), xs.drop_first(), ys.drop_first(), env);
            assert(eval(e, env) == eval(def, env));
            assert(lex_compare(xs, ys) == lex_compare(xs.drop_first(), ys.drop_first()));
        } else {
            assert(!pattern_matches(alts[0].pattern, Value::Order(c)));
            assert(alts.drop_first()[0] == alts[1]);
            assert(first_match(alts.drop_first(), Value::Order(c)) == 0);
            assert(first_match(alts, Value::Order(c)) == 1);
            let m = alts[1].pattern->IdentifierPattern_0;
            let env1 = env.insert(key(m@), Value::Order(c));
            assert(bind(env, alts[1].pattern, Value::Order(c)) == env1);
            assert(eval(alts[1].expression, env1) == Some(Value::Order(c)));
            assert(eval(e, env) == eval(alts[1].expression, env1));
            assert(lex_compare(xs, ys) == c);
        }
    }
}

} // verus!

verus! {

/// No two constructors share a name and id.
pub open spec fn distinct_constructors(cs: Seq<Constructor<Name>>) -> bool {
    forall|a: int, b: int| 0 <= a < b < cs.len() ==> (#[trigger] cs[a]).name@ != (#[trigger] cs[b]).name@
}

/// The number of fields of a constructor: the arguments of its type.
pub open spec fn arity(c: Constructor<Name>) -> nat {
    fn_args(c.typ.value@).len()
}

/// The value built by constructor `i` of `cs` from the fields `fs`; its tag
/// is its declaration position.
pub open spec fn con_value(cs: Seq<Constructor<Name>>, i: int, fs: Seq<int>) -> Value {
    Value::Data(cs[i].name@.0, cs[i].name@.1, i, fs)
}

proof fn lemma_first_match_at(alts: Seq<Alternative>, v: Value, i: int)
    requires
        0 <= i < alts.len(),
        pattern_matches(alts[i].pattern, v),
        forall|k: int| 0 <= k < i ==> !pattern_matches(#[trigger] alts[k].pattern, v),
    ensures
        first_match(alts, v) == i,
    decreases i,
{
    if i > 0 {
        let t = alts.drop_first();
        assert forall|k: int| 0 <= k < i - 1 implies !pattern_matches(#[trigger] t[k].pattern, v) by {
            assert(t[k] == alts[k + 1]);
        }
        assert(!pattern_matches(alts[0].pattern, v));
        lemma_first_match_at(t, v, i - 1);
    }
}

proof fn lemma_first_match_ctor(
    alts: Seq<Alternative>,
    cs: Seq<Constructor<Name>>,
    r: IdModel,
    ord: bool,
    i: int,
    fs: Seq<int>,
)
    requires
        same_ctor_alts(alts, cs, r, ord),
        distinct_constructors(cs),
        0 <= i < cs.len(),
        fs.len() == arity(cs[i]),
    ensures
        first_match(alts, con_value(cs, i, fs)) == i,
{
    let v = con_value(cs, i, fs);
    assert(same_ctor_alt(alts[i], cs[i], r, ord));
    assert forall|k: int| 0 <= k < i implies !pattern_matches(#[trigger] alts[k].pattern, v) by {
        assert(same_ctor_alt(alts[k], cs[k], r, ord));
        assert(cs[k].name@ != cs[i].name@);
    }
    lemma_first_match_at(alts, v, i);
}

proof fn lemma_eval_same_ctor_alt(
    a: Alternative,
    cs: Seq<Constructor<Name>>,
    r: IdModel,
    ord: bool,
    env0: Env,
    i: int,
    xs: Seq<int>,
    j: int,
    ys: Seq<int>,
)
    requires
        same_ctor_alt(a, cs[i], r, ord),
        distinct_constructors(cs),
        0 <= i < cs.len(),
        0 <= j < cs.len(),
        xs.len() == arity(cs[i]),
        ys.len() == arity(cs[j]),
        r.uid != 0,
        env0.contains_key(key(r)),
        env0[key(r)] == con_value(cs, j, ys),
    ensures
        eval(a.expression, bind(env0, a.pattern, con_value(cs, i, xs))) == if i != j {
            Some(Value::Bool(false))
        } else if ord {
            Some(Value::Order(lex_compare(xs, ys)))
        } else {
            Some(Value::Bool(xs == ys))
        },
{
    lemma_builtin_names();
    let x = con_value(cs, i, xs);
    let y = con_value(cs, j, ys);
    let ls = id_models(a.pattern->ConstructorPattern_1@);
    let inner = a.expression->Case_1@;
    let rs = id_models(inner[0].pattern->ConstructorPattern_1@);
    let both = ls + rs;
    let env1 = bind_fields(env0, ls, xs);
    assert(bind(env0, a.pattern, x) == env1);
    assert forall|k: int| 0 <= k < ls.len() implies key(#[trigger] ls[k]) != key(r) by {
        assert(both[k] == ls[k]);
    }
    lemma_bind_fields_other(env0, ls, xs, key(r));
    let s = *a.expression->Case_0;
    assert(eval(s, env1) == Some(y));
    assert(a.expression == Expr::Case(Box::new(s), a.expression->Case_1));
    if i != j {
        assert(cs[i].name@ != cs[j].name@) by {
            if i < j {
                assert(cs[i].name@ != cs[j].name@);
            } else {
                assert(cs[j].name@ != cs[i].name@);
            }
        }
        assert(!pattern_matches(inner[0].pattern, y));
        assert(inner.drop_first()[0] == inner[1]);
        assert(first_match(inner.drop_first(), y) == 0);
        assert(first_match(inner, y) == 1);
        assert(bind(env1, inner[1].pattern, y) == env1);
        assert(eval(inner[1].expression, env1) == Some(Value::Bool(false)));
        assert(eval(a.expression, env1) == eval(inner[1].expression, env1));
    } else {
        assert(first_match(inner, y) == 0);
        let env2 = bind_fields(env1, rs, ys);
        assert(bind(env1, inner[0].pattern, y) == env2);
        assert(increasing(ls)) by {
            assert forall|p: int, q: int| 0 <= p < q < ls.len() implies (#[trigger] ls[p]).uid < (
            #[trigger] ls[q]).uid by {
                assert(both[p] == ls[p] && both[q] == ls[q]);
            }
        }
        assert(increasing(rs)) by {
            assert forall|p: int, q: int| 0 <= p < q < rs.len() implies (#[trigger] rs[p]).uid < (
            #[trigger] rs[q]).uid by {
                assert(both[ls.len() + p] == rs[p] && both[ls.len() + q] == rs[q]);
            }
        }
        assert forall|k: int| 0 <= k < ls.len() implies (#[trigger] ls[k]).uid != 0 && env2.contains_key(
            key(ls[k]),
        ) && env2[key(ls[k])] == Value::Int(xs[k]) by {
            assert(both[k] == ls[k]);
            assert forall|m: int| 0 <= m < rs.len() implies key(#[trigger] rs[m]) != key(ls[k]) by {
                assert(both[ls.len() + m] == rs[m]);
            }
            lemma_bind_fields_other(env1, rs, ys, key(ls[k]));
            lemma_bind_fields_get(env0, ls, xs, k);
        }
        assert forall|k: int| 0 <= k < rs.len() implies (#[trigger] rs[k]).uid != 0 && env2.contains_key(
            key(rs[k]),
        ) && env2[key(rs[k])] == Value::Int(ys[k]) by {
            assert(both[ls.len() + k] == rs[k]);
            lemma_bind_fields_get(env1, rs, ys, k);
        }
        assert(eval(a.expression, env1) == eval(inner[0].expression, env2));
        if ord {
            lemma_eval_ord_fields(inner[0].expression, ls, rs, xs, ys, env2);
        } else {
            lemma_eval_eq_fields(inner[0].expression, ls, rs, xs, ys, env2);
        }
    }
}

} // verus!

verus! {

proof fn lemma_eval_dispatch(
    body: Expr,
    l: IdModel,
    r: IdModel,
    data: DataDefinition<Name>,
    ord: bool,
    env0: Env,
    i: int,
    xs: Seq<int>,
    j: int,
    ys: Seq<int>,
)
    requires
        body matches Expr::Case(s, alts) && is_ident(*s, l) && same_ctor_alts(
            alts@,
            data.constructors@,
            r,
            ord,
        ),
        distinct_constructors(data.constructors@),
        0 <= i < data.constructors@.len(),
        0 <= j < data.constructors@.len(),
        xs.len() == arity(data.constructors@[i]),
        ys.len() == arity(data.constructors@[j]),
        0 < l.uid,
        0 < r.uid,
        env0.contains_key(key(l)),
        env0[key(l)] == con_value(data.constructors@, i, xs),
        env0.contains_key(key(r)),
        env0[key(r)] == con_value(data.constructors@, j, ys),
    ensures
        eval(body, env0) == if i != j {
            Some(Value::Bool(false))
        } else if ord {
            Some(Value::Order(lex_compare(xs, ys)))
        } else {
            Some(Value::Bool(xs == ys))
        },
{
    let cs = data.constructors@;
    let alts = body->Case_1@;
    let x = con_value(cs, i, xs);
    assert(eval(*body->Case_0, env0) == Some(x));
    lemma_first_match_ctor(alts, cs, r, ord, i, xs);
    assert(same_ctor_alt(alts[i], cs[i], r, ord));
    lemma_eval_same_ctor_alt(alts[i], cs, r, ord, env0, i, xs, j, ys);
}

proof fn lemma_lex_zero(xs: Seq<int>, ys: Seq<int>)
    requires
        xs.len() == ys.len(),
    ensures
        (lex_compare(xs, ys) == 0) == (xs == ys),
    decreases xs.len(),
{
    if xs.len() > 0 {
        lemma_lex_zero(xs.drop_first(), ys.drop_first());
        if xs[0] == ys[0] && xs.drop_first() == ys.drop_first() {
            assert forall|k: int| 0 <= k < xs.len() implies xs[k] == ys[k] by {
                if k > 0 {
                    assert(xs[k] == xs.drop_first()[k - 1]);
                    assert(ys[k] == ys.drop_first()[k - 1]);
                }
            }
            assert(xs =~= ys);
        }
    } else {
        assert(xs =~= ys);
    }
}

/// Derived equality holds exactly between values built by the same
/// constructor from pairwise equal fields.
pub proof fn derived_eq_decides(
    b: Binding,
    data: DataDefinition<Name>,
    i: int,
    xs: Seq<int>,
    j: int,
    ys: Seq<int>,
)
    requires
        derived_binding(b, data, false),
        distinct_constructors(data.constructors@),
        0 <= i < data.constructors@.len(),
        0 <= j < data.constructors@.len(),
        xs.len() == arity(data.constructors@[i]),
        ys.len() == arity(data.constructors@[j]),
    ensures
        apply_binding(b, con_value(data.constructors@, i, xs), con_value(data.constructors@, j, ys))
            == Some(Value::Bool(i == j && xs == ys)),
{
    let l = b.expression->Lambda_0;
    let r = (*b.expression->Lambda_1)->Lambda_0;
    let body = *(*b.expression->Lambda_1)->Lambda_1;
    let x = con_value(data.constructors@, i, xs);
    let y = con_value(data.constructors@, j, ys);
    let env0 = Map::empty().insert(key(l@), x).insert(key(r@), y);
    lemma_eval_dispatch(body, l@, r@, data, false, env0, i, xs, j, ys);
}

/// Derived comparison orders values first by constructor position, and
/// values of one constructor lexicographically by their fields, the first
/// field the most significant.
pub proof fn derived_compare_orders(
    b: Binding,
    data: DataDefinition<Name>,
    i: int,
    xs: Seq<int>,
    j: int,
    ys: Seq<int>,
)
    requires
        derived_binding(b, data, true),
        distinct_constructors(data.constructors@),
        0 <= i < data.constructors@.len(),
        0 <= j < data.constructors@.len(),
        xs.len() == arity(data.constructors@[i]),
        ys.len() == arity(data.constructors@[j]),
    ensures
        apply_binding(b, con_value(data.constructors@, i, xs), con_value(data.constructors@, j, ys))
            == Some(Value::Order(if i != j { cmp_int(i, j) } else { lex_compare(xs, ys) })),
{
    lemma_builtin_names();
    let l = b.expression->Lambda_0;
    let r = (*b.expression->Lambda_1)->Lambda_0;
    let body = *(*b.expression->Lambda_1)->Lambda_1;
    let x = con_value(data.constructors@, i, xs);
    let y = con_value(data.constructors@, j, ys);
    let env0 = Map::empty().insert(key(l@), x).insert(key(r@), y);
    let (cmp, def) = eq_or_default_parts(body)->0;
    let (f, a, bb) = binop_parts(cmp)->0;
    assert(cmp == Expr::Apply(Box::new(Expr::Apply(Box::new(f), Box::new(a))), Box::new(bb)));
    assert(eval(a, env0) == Some(x));
    assert(eval(bb, env0) == Some(y));
    let c = cmp_int(i, j);
    assert(eval(cmp, env0) == Some(Value::Order(c)));
    let alts = body->Case_1@;
    assert(body == Expr::Case(Box::new(cmp), body->Case_1));
    if c == 0 {
        assert(first_match(alts, Value::Order(0)) == 0);
        assert(bind(env0, alts[0].pattern, Value::Order(0)) == env0);
        lemma_eval_dispatch(def, l@, r@, data, true, env0, i, xs, j, ys);
        assert(eval(body, env0) == eval(def, env0));
    } else {
        assert(!pattern_matches(alts[0].pattern, Value::Order(c)));
        assert(alts.drop_first()[0] == alts[1]);
        assert(first_match(alts.drop_first(), Value::Order(c)) == 0);
        assert(first_match(alts, Value::Order(c)) == 1);
        let m = alts[1].pattern->IdentifierPattern_0;
        let env1 = env0.insert(key(m@), Value::Order(c));
        assert(bind(env0, alts[1].pattern, Value::Order(c)) == env1);
        assert(eval(alts[1].expression, env1) == Some(Value::Order(c)));
        assert(eval(body, env0) == eval(alts[1].expression, env1));
    }
}

/// Derived comparison gives `EQ` exactly where derived equality gives
/// `True`.
pub proof fn compare_agrees_with_eq(
    beq: Binding,
    bord: Binding,
    data: DataDefinition<Name>,
    i: int,
    xs: Seq<int>,
    j: int,
    ys: Seq<int>,
)
    requires
        derived_binding(beq, data, false),
        derived_binding(bord, data, true),
        distinct_constructors(data.constructors@),
        0 <= i < data.constructors@.len(),
        0 <= j < data.constructors@.len(),
        xs.len() == arity(data.constructors@[i]),
        ys.len() == arity(data.constructors@[j]),
    ensures
        (apply_binding(bord, con_value(data.constructors@, i, xs), con_value(data.constructors@, j, ys))
            == Some(Value::Order(0))) == (apply_binding(
            beq,
            con_value(data.constructors@, i, xs),
            con_value(data.constructors@, j, ys),
        ) == Some(Value::Bool(true))),
{
    derived_eq_decides(beq, data, i, xs, j, ys);
    derived_compare_orders(bord, data, i, xs, j, ys);
    if i == j {
        lemma_lex_zero(xs, ys);
    }
}

/// Of two values of one constructor, a difference in the first field
/// decides the comparison; equal first fields leave it to the rest.
pub proof fn first_field_decides(
    b: Binding,
    data: DataDefinition<Name>,
    i: int,
    xs: Seq<int>,
    ys: Seq<int>,
)
    requires
        derived_binding(b, data, true),
        distinct_constructors(data.constructors@),
        0 <= i < data.constructors@.len(),
        xs.len() == arity(data.constructors@[i]),
        ys.len() == arity(data.constructors@[i]),
        xs.len() > 0,
    ensures
        xs[0] != ys[0] ==> apply_binding(
            b,
            con_value(data.constructors@, i, xs),
            con_value(data.constructors@, i, ys),
        ) == Some(Value::Order(cmp_int(xs[0], ys[0]))),
        xs[0] == ys[0] ==> apply_binding(
            b,
            con_value(data.constructors@, i, xs),
            con_value(data.constructors@, i, ys),
        ) == Some(Value::Order(lex_compare(xs.drop_first(), ys.drop_first()))),
{
    derived_compare_orders(b, data, i, xs, i, ys);
}

/// A value of an earlier-declared constructor compares less than any value
/// of a later one, whatever the fields.
pub proof fn tag_dominance(
    b: Binding,
    data: DataDefinition<Name>,
    i: int,
    xs: Seq<int>,
    j: int,
    ys: Seq<int>,
)
    requires
        derived_binding(b, data, true),
        distinct_constructors(data.constructors@),
        0 <= i < j < data.constructors@.len(),
        xs.len() == arity(data.constructors@[i]),
        ys.len() == arity(data.constructors@[j]),
    ensures
        apply_binding(b, con_value(data.constructors@, i, xs), con_value(data.constructors@, j, ys))
            == Some(Value::Order(-1)),
        apply_binding(b, con_value(data.constructors@, j, ys), con_value(data.constructors@, i, xs))
            == Some(Value::Order(1)),
{
    derived_compare_orders(b, data, i, xs, j, ys);
    derived_compare_orders(b, data, j, ys, i, xs);
}

/// A constructor without fields equals itself and compares `EQ` to itself.
pub proof fn zero_arity_constructors(
    beq: Binding,
    bord: Binding,
    data: DataDefinition<Name>,
    i: int,
)
    requires
        derived_binding(beq, data, false),
        derived_binding(bord, data, true),
        distinct_constructors(data.constructors@),
        0 <= i < data.constructors@.len(),
        arity(data.constructors@[i]) == 0,
    ensures
        apply_binding(
            beq,
            con_value(data.constructors@, i, Seq::empty()),
            con_value(data.constructors@, i, Seq::empty()),
        ) == Some(Value::Bool(true)),
        apply_binding(
            bord,
            con_value(data.constructors@, i, Seq::empty()),
            con_value(data.constructors@, i, Seq::empty()),
        ) == Some(Value::Order(0)),
{
    derived_eq_decides(beq, data, i, Seq::empty(), i, Seq::empty());
    derived_compare_orders(bord, data, i, Seq::empty(), i, Seq::empty());
}

} // verus!
