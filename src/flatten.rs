//! Flattening of a typed value into staged locals and literal assignments.
//!
//! A value is rebuilt in a replay function from its primitive leaves. A
//! pointer is rebuilt by pointing at a fresh local that holds the pointee,
//! since the address seen while recording means nothing in a replay.

use vstd::prelude::*;
use vstd::string::*;
use crate::ctype::{CType, Field, LiteralKind, TypeKind};
use crate::error::Error;

verus! {

/// A local that the replay function declares: its name and the C spelling
/// of its type.
pub struct Var {
    pub name: String,
    pub display: String,
}

impl View for Var {
    type V = (Seq<char>, Seq<char>);

    open spec fn view(&self) -> (Seq<char>, Seq<char>) {
        (self.name@, self.display@)
    }
}

/// A statement `lhs = <literal>;` of the replay function, where the literal
/// is the value of the C expression `rhs` at the recorded call, printed with
/// the format for `kind`.
pub struct Assignment {
    pub lhs: String,
    pub kind: LiteralKind,
    pub rhs: String,
}

impl View for Assignment {
    type V = (Seq<char>, LiteralKind, Seq<char>);

    open spec fn view(&self) -> (Seq<char>, LiteralKind, Seq<char>) {
        (self.lhs@, self.kind, self.rhs@)
    }
}

pub open spec fn vars_view(s: Seq<Var>) -> Seq<(Seq<char>, Seq<char>)> {
    s.map_values(|v: Var| v@)
}

pub open spec fn assignments_view(s: Seq<Assignment>) -> Seq<(Seq<char>, LiteralKind, Seq<char>)> {
    s.map_values(|a: Assignment| a@)
}

/// What flattening one value yields: locals in order of declaration and
/// assignments in order of execution.
pub struct Plan {
    pub locals: Seq<(Seq<char>, Seq<char>)>,
    pub assignments: Seq<(Seq<char>, LiteralKind, Seq<char>)>,
}

pub open spec fn empty_plan() -> Plan {
    Plan { locals: Seq::empty(), assignments: Seq::empty() }
}

pub open spec fn concat_plans(a: Plan, b: Plan) -> Plan {
    Plan { locals: a.locals + b.locals, assignments: a.assignments + b.assignments }
}

/// The local for a value named `name` of type `t`, where one is needed.
pub open spec fn own_local(name: Seq<char>, t: CType, need_local: bool) -> Seq<(Seq<char>, Seq<char>)> {
    if need_local {
        seq![(name, t.display@)]
    } else {
        Seq::empty()
    }
}

/// The name of the local that holds what the pointer `name` points at.
pub open spec fn pointee_name(name: Seq<char>) -> Seq<char> {
    name + "_val"@
}

/// The expression that reads what the pointer expression `expr` points at.
pub open spec fn deref_expr(expr: Seq<char>) -> Seq<char> {
    "(*"@ + expr + ")"@
}

/// The C string literal, printed in place of a pointer, that takes the
/// address of the local `v`.
pub open spec fn address_text(v: Seq<char>) -> Seq<char> {
    "\"(&"@ + v + ")\""@
}

/// `parent.field`, for a name and for an expression alike.
pub open spec fn member(parent: Seq<char>, field: Seq<char>) -> Seq<char> {
    parent + "."@ + field
}

/// Flattening of the value read by `expr`, of type `t`, and rebuilt under
/// the name `name`; `need_local` says whether the value is staged in a local
/// of its own. `None` where a field has no name or no type.
pub open spec fn flatten(name: Seq<char>, expr: Seq<char>, t: CType, need_local: bool) -> Option<Plan>
    decreases t,
{
    match t.kind {
        TypeKind::Typedef(u) => flatten(name, expr, *u, need_local),
        TypeKind::Elaborated(u) => flatten(name, expr, *u, need_local),
        TypeKind::Pointer(p) => match flatten(pointee_name(name), deref_expr(expr), *p, true) {
            Some(inner) => Some(
                Plan {
                    locals: own_local(name, t, need_local) + inner.locals,
                    assignments: inner.assignments.push(
                        (name, LiteralKind::Address, address_text(pointee_name(name))),
                    ),
                },
            ),
            None => None,
        },
        TypeKind::Record(fields) => match flatten_fields(name, expr, fields@) {
            Some(inner) => Some(
                Plan {
                    locals: own_local(name, t, need_local) + inner.locals,
                    assignments: inner.assignments,
                },
            ),
            None => None,
        },
        TypeKind::Primitive(p) => Some(
            Plan {
                locals: own_local(name, t, need_local),
                assignments: seq![(name, LiteralKind::Number(p), expr)],
            },
        ),
    }
}

/// Flattening of the fields `fields` of the record `name` read by `expr`, in
/// order, none of them staged in a local of its own.
pub open spec fn flatten_fields(name: Seq<char>, expr: Seq<char>, fields: Seq<Field>) -> Option<Plan>
    decreases fields,
{
    if fields.len() == 0 {
        Some(empty_plan())
    } else {
        let last = fields[fields.len() - 1];
        match flatten_fields(name, expr, fields.subrange(0, fields.len() - 1)) {
            Some(front) => match (last.name, last.ty) {
                (Some(n), Some(ty)) => match flatten(member(name, n@), member(expr, n@), ty, false) {
                    Some(back) => Some(concat_plans(front, back)),
                    None => None,
                },
                _ => None,
            },
            None => None,
        }
    }
}


/// The text `a` followed by `b` and `c`.
pub(crate) fn concat3(a: &str, b: &str, c: &str) -> (r: String)
    ensures
        r@ == a@ + b@ + c@,
{
    let mut r = String::new();
    r.append(a);
    r.append(b);
    r.append(c);
    r
}

proof fn lemma_fields_none_extends(name: Seq<char>, expr: Seq<char>, fields: Seq<Field>, i: int)
    requires
        0 <= i <= fields.len(),
        flatten_fields(name, expr, fields.subrange(0, i)) is None,
    ensures
        flatten_fields(name, expr, fields) is None,
    decreases fields.len() - i,
{
    if i < fields.len() {
        let next = fields.subrange(0, i + 1);
        assert(next.subrange(0, next.len() - 1) =~= fields.subrange(0, i));
        lemma_fields_none_extends(name, expr, fields, i + 1);
    } else {
        assert(fields.subrange(0, i) =~= fields);
    }
}

fn push_local(locals: &mut Vec<Var>, name: &str, t: &CType)
    ensures
        vars_view(final(locals)@) == vars_view(old(locals)@) + seq![(name@, t.display@)],
{
    let v = Var { name: concat3(name, "", ""), display: t.display.clone() };
    proof {
        reveal_strlit("");
    }
    locals.push(v);
    assert(vars_view(final(locals)@) =~= vars_view(old(locals)@) + seq![(name@, t.display@)]);
}

fn push_assignment(assignments: &mut Vec<Assignment>, lhs: String, kind: LiteralKind, rhs: String)
    ensures
        assignments_view(final(assignments)@) == assignments_view(old(assignments)@).push(
            (lhs@, kind, rhs@),
        ),
{
    let a = Assignment { lhs, kind, rhs };
    assignments.push(a);
    assert(assignments_view(final(assignments)@) =~= assignments_view(old(assignments)@).push(
        (lhs@, kind, rhs@),
    ));
}

/// Appends to `locals` and `assignments` the flattening of the value read by
/// `arg_val`, of type `arg_type`, rebuilt under the name `arg_name`.
pub fn handle_arg(
    locals: &mut Vec<Var>,
    assignments: &mut Vec<Assignment>,
    arg_type: &CType,
    arg_name: &str,
    arg_val: &str,
    need_local: bool,
) -> (r: Result<(), Error>)
    ensures
        match flatten(arg_name@, arg_val@, *arg_type, need_local) {
            Some(p) => {
                &&& r is Ok
                &&& vars_view(final(locals)@) == vars_view(old(locals)@) + p.locals
                &&& assignments_view(final(assignments)@) == assignments_view(old(assignments)@)
                    + p.assignments
            },
            None => r matches Err(Error::String(_)),
        },
    decreases arg_type,
{
    match &arg_type.kind {
        TypeKind::Typedef(u) => handle_arg(locals, assignments, u, arg_name, arg_val, need_local),
        TypeKind::Elaborated(u) => handle_arg(locals, assignments, u, arg_name, arg_val, need_local),
        TypeKind::Pointer(p) => {
            if need_local {
                push_local(locals, arg_name, arg_type);
            }
            let ghost mid_l = vars_view(locals@);
            let ghost mid_a = assignments_view(assignments@);
            let val_name = concat3(arg_name, "_val", "");
            let val = concat3("(*", arg_val, ")");
            proof {
                reveal_strlit("");
                assert(val_name@ =~= pointee_name(arg_name@));
                assert(val@ =~= deref_expr(arg_val@));
            }
            let r = handle_arg(locals, assignments, p, val_name.as_str(), val.as_str(), true);
            if r.is_err() {
                return r;
            }
            let lhs = concat3(arg_name, "", "");
            let rhs = concat3("\"(&", val_name.as_str(), ")\"");
            push_assignment(assignments, lhs, LiteralKind::Address, rhs);
            proof {
                assert(own_local(arg_name@, *arg_type, need_local) =~= if need_local {
                    seq![(arg_name@, arg_type.display@)]
                } else {
                    Seq::empty()
                });
                assert(vars_view(old(locals)@) + own_local(arg_name@, *arg_type, need_local) =~= mid_l);
                assert(lhs@ =~= arg_name@);
                let inner = flatten(pointee_name(arg_name@), deref_expr(arg_val@), **p, true)->Some_0;
                assert(vars_view(locals@) =~= vars_view(old(locals)@) + (own_local(
                    arg_name@,
                    *arg_type,
                    need_local,
                ) + inner.locals));
                assert(assignments_view(assignments@) =~= assignments_view(old(assignments)@)
                    + inner.assignments.push(
                    (arg_name@, LiteralKind::Address, address_text(pointee_name(arg_name@))),
                ));
            }
            Ok(())
        },
        TypeKind::Record(fields) => {
            if need_local {
                push_local(locals, arg_name, arg_type);
            }
            let ghost base_l = vars_view(locals@);
            let ghost base_a = assignments_view(assignments@);
            proof {
                assert(vars_view(old(locals)@) + own_local(arg_name@, *arg_type, need_local) =~= base_l);
                assert(fields@.subrange(0, 0) =~= Seq::<Field>::empty());
                assert(base_l + empty_plan().locals =~= base_l);
                assert(base_a + empty_plan().assignments =~= base_a);
            }
            let mut i: usize = 0;
            while i < fields.len()
                invariant
                    i <= fields.len(),
                    arg_type.kind == TypeKind::Record(*fields),
                    base_a == assignments_view(old(assignments)@),
                    base_l == vars_view(old(locals)@) + own_local(arg_name@, *arg_type, need_local),
                    flatten_fields(arg_name@, arg_val@, fields@.subrange(0, i as int)) matches Some(q)
                        && vars_view(locals@) == base_l + q.locals
                        && assignments_view(assignments@) == base_a + q.assignments,
                decreases fields.len() - i,
            {
                let field = &fields[i];
                let ghost prev_l = vars_view(locals@);
                let ghost prev_a = assignments_view(assignments@);
                let ghost front = flatten_fields(arg_name@, arg_val@, fields@.subrange(0, i as int))->Some_0;
                let ghost next = fields@.subrange(0, i + 1);
                proof {
                    assert(next.subrange(0, next.len() - 1) =~= fields@.subrange(0, i as int));
                    assert(next[next.len() - 1] == fields@[i as int]);
                }
                match (&field.name, &field.ty) {
                    (Some(n), Some(ft)) => {
                        let field_expr = concat3(arg_name, ".", n.as_str());
                        let field_val = concat3(arg_val, ".", n.as_str());
                        proof {
                            assert(decreases_to!(fields => fields[i as int]));
                        }
                        let r = handle_arg(locals, assignments, ft, field_expr.as_str(), field_val.as_str(), false);
                        if r.is_err() {
                            proof {
                                assert(flatten(member(arg_name@, n@), member(arg_val@, n@), *ft, false) is None);
                                assert(flatten_fields(arg_name@, arg_val@, next) is None);
                                lemma_fields_none_extends(arg_name@, arg_val@, fields@, i + 1);
                            }
                            return r;
                        }
                        proof {
                            let back = flatten(member(arg_name@, n@), member(arg_val@, n@), *ft, false)->Some_0;
                            assert(vars_view(locals@) =~= base_l + concat_plans(front, back).locals);
                            assert(assignments_view(assignments@) =~= base_a + concat_plans(front, back).assignments);
                        }
                    },
                    _ => {
                        proof {
                            lemma_fields_none_extends(arg_name@, arg_val@, fields@, i + 1);
                        }
                        return Err(Error::String(concat3("Field without a name or a type", "", "")));
                    },
                }
                i += 1;
            }
            proof {
                assert(fields@.subrange(0, fields.len() as int) =~= fields@);
                let q = flatten_fields(arg_name@, arg_val@, fields@)->Some_0;
                assert(vars_view(locals@) =~= vars_view(old(locals)@) + (own_local(arg_name@, *arg_type, need_local) + q.locals));
            }
            Ok(())
        },
        TypeKind::Primitive(p) => {
            if need_local {
                push_local(locals, arg_name, arg_type);
            }
            let lhs = concat3(arg_name, "", "");
            let rhs = concat3(arg_val, "", "");
            proof {
                reveal_strlit("");
                assert(lhs@ =~= arg_name@);
                assert(rhs@ =~= arg_val@);
            }
            push_assignment(assignments, lhs, LiteralKind::Number(*p), rhs);
            proof {
                assert(vars_view(locals@) =~= vars_view(old(locals)@) + own_local(arg_name@, *arg_type, need_local));
                assert(assignments_view(assignments@) =~= assignments_view(old(assignments)@) + seq![(arg_name@, LiteralKind::Number(*p), arg_val@)]);
            }
            Ok(())
        },
    }
}

} // verus!
