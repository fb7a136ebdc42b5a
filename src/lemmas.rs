//! Properties of flattening, of the collection of globals and of
//! generation as a whole, proved over the specifications of the modules.

use vstd::prelude::*;
use crate::ctype::{literal_kind_of, CType, Field, LiteralKind, TypeKind};
use crate::entity::{flatten_params, global_reads, is_global_spec, Entity, EntityKind};
use crate::flatten::{address_text, flatten, flatten_fields, member, pointee_name};
use crate::error::Error;
use crate::walker::generated;

verus! {

/// A type that reaches a primitive through aliases and tags alone.
pub open spec fn is_primitive_leaf(t: CType) -> bool {
    literal_kind_of(t) is Number
}

proof fn lemma_leaf(name: Seq<char>, expr: Seq<char>, t: CType, need_local: bool)
    requires
        is_primitive_leaf(t),
    ensures
        flatten(name, expr, t, need_local) matches Some(p) && p.assignments == seq![
            (name, literal_kind_of(t), expr),
        ] && p.locals.len() == (if need_local { 1int } else { 0int }) && (need_local
            ==> p.locals[0].0 == name),
    decreases t,
{
    match t.kind {
        TypeKind::Typedef(u) => lemma_leaf(name, expr, *u, need_local),
        TypeKind::Elaborated(u) => lemma_leaf(name, expr, *u, need_local),
        _ => {},
    }
}

/// Each parameter has a name and a primitive type.
pub open spec fn primitive_params(args: Seq<Entity>) -> bool {
    forall|i: int|
        0 <= i < args.len() ==> (#[trigger] args[i]).name is Some && args[i].ty is Some
            && is_primitive_leaf(args[i].ty->Some_0)
}

/// Where every parameter is primitive, flattening the parameters gives one
/// local and one assignment per parameter, in order: the assignment sets the
/// parameter from its own value.
pub proof fn law_primitive_params(args: Seq<Entity>)
    requires
        primitive_params(args),
    ensures
        flatten_params(args) is Some,
        flatten_params(args)->Some_0.locals.len() == args.len(),
        flatten_params(args)->Some_0.assignments.len() == args.len(),
        forall|i: int|
            #![trigger flatten_params(args)->Some_0.assignments[i]]
            0 <= i < args.len() ==> flatten_params(args)->Some_0.assignments[i] == (
                args[i].name->Some_0@,
                literal_kind_of(args[i].ty->Some_0),
                args[i].name->Some_0@,
            ),
        forall|i: int|
            #![trigger flatten_params(args)->Some_0.locals[i]]
            0 <= i < args.len() ==> flatten_params(args)->Some_0.locals[i].0 == args[i].name->Some_0@,
    decreases args.len(),
{
    if args.len() > 0 {
        let front = args.subrange(0, args.len() - 1);
        let last = args[args.len() - 1];
        assert forall|i: int| 0 <= i < front.len() implies (#[trigger] front[i]).name is Some
            && front[i].ty is Some && is_primitive_leaf(front[i].ty->Some_0) by {
            assert(front[i] == args[i]);
        }
        law_primitive_params(front);
        let n = last.name->Some_0;
        let t = last.ty->Some_0;
        lemma_leaf(n@, n@, t, true);
        let q = flatten_params(front)->Some_0;
        let b = flatten(n@, n@, t, true)->Some_0;
        assert(flatten_params(args) == Some(crate::flatten::concat_plans(q, b)));
        let p = flatten_params(args)->Some_0;
        assert(p.assignments == q.assignments + b.assignments);
        assert(p.locals == q.locals + b.locals);
        assert forall|i: int|
            #![trigger p.assignments[i]]
            0 <= i < args.len() implies p.assignments[i] == (
            args[i].name->Some_0@,
            literal_kind_of(args[i].ty->Some_0),
            args[i].name->Some_0@,
        ) && p.locals[i].0 == args[i].name->Some_0@ by {
            if i < front.len() {
                assert(front[i] == args[i]);
                assert(p.assignments[i] == q.assignments[i]);
                assert(p.locals[i] == q.locals[i]);
            } else {
                assert(args[i] == last);
                assert(p.assignments[i] == b.assignments[0]);
                assert(p.locals[i] == b.locals[0]);
            }
        }
        assert(b.locals.len() == 1);
        assert(q.locals.len() == front.len());
        assert(p.locals.len() == args.len());
        assert(p.assignments.len() == args.len());
    } else {
        assert(flatten_params(args) == Some(crate::flatten::empty_plan()));
    }
}

proof fn lemma_staged(name: Seq<char>, expr: Seq<char>, t: CType)
    requires
        flatten(name, expr, t, true) is Some,
    ensures
        flatten(name, expr, t, true)->Some_0.locals.len() >= 1,
        flatten(name, expr, t, true)->Some_0.locals[0].0 == name,
    decreases t,
{
    match t.kind {
        TypeKind::Typedef(u) => lemma_staged(name, expr, *u),
        TypeKind::Elaborated(u) => lemma_staged(name, expr, *u),
        _ => {},
    }
}

/// A pointer parameter `name` of type `t` is rebuilt from two locals, first
/// one for the pointer, then one for what it points at, named
/// `<name>_val`; the last assignment sets the pointer to the address of the
/// latter, never to the address seen in the recorded call.
pub proof fn law_pointer_param(name: Seq<char>, t: CType)
    requires
        t.kind is Pointer,
        flatten(name, name, t, true) is Some,
    ensures
        ({
            let p = flatten(name, name, t, true)->Some_0;
            &&& p.locals.len() >= 2
            &&& p.locals[0] == (name, t.display@)
            &&& p.locals[1].0 == pointee_name(name)
            &&& p.assignments.len() >= 1
            &&& p.assignments.last() == (name, LiteralKind::Address, address_text(pointee_name(name)))
        }),
{
    if let TypeKind::Pointer(q) = t.kind {
        lemma_staged(pointee_name(name), crate::flatten::deref_expr(name), *q);
    }
}


/// A type built of primitives, aliases, tags and records alone, each field
/// with a name and a type.
pub open spec fn plain(t: CType) -> bool
    decreases t,
{
    match t.kind {
        TypeKind::Typedef(u) => plain(*u),
        TypeKind::Elaborated(u) => plain(*u),
        TypeKind::Primitive(_) => true,
        TypeKind::Pointer(_) => false,
        TypeKind::Record(fields) => plain_fields(fields@),
    }
}

/// Fields of a record that [`plain`] accepts.
pub open spec fn plain_fields(fields: Seq<Field>) -> bool
    decreases fields,
{
    if fields.len() == 0 {
        true
    } else {
        let last = fields[fields.len() - 1];
        plain_fields(fields.subrange(0, fields.len() - 1)) && match (last.name, last.ty) {
            (Some(_), Some(ty)) => plain(ty),
            _ => false,
        }
    }
}

/// The primitive leaves of the value `name` of type `t`, reached through
/// records and their fields in declaration order: the path of each and the
/// kind of its value.
pub open spec fn leaves(name: Seq<char>, t: CType) -> Seq<(Seq<char>, LiteralKind)>
    decreases t,
{
    match t.kind {
        TypeKind::Typedef(u) => leaves(name, *u),
        TypeKind::Elaborated(u) => leaves(name, *u),
        TypeKind::Primitive(p) => seq![(name, LiteralKind::Number(p))],
        TypeKind::Pointer(_) => Seq::empty(),
        TypeKind::Record(fields) => leaves_fields(name, fields@),
    }
}

/// The primitive leaves of the fields `fields` of the record `name`.
pub open spec fn leaves_fields(name: Seq<char>, fields: Seq<Field>) -> Seq<(Seq<char>, LiteralKind)>
    decreases fields,
{
    if fields.len() == 0 {
        Seq::empty()
    } else {
        let last = fields[fields.len() - 1];
        leaves_fields(name, fields.subrange(0, fields.len() - 1)) + match (last.name, last.ty) {
            (Some(n), Some(ty)) => leaves(member(name, n@), ty),
            _ => Seq::empty(),
        }
    }
}

/// The left-hand sides of `assignments` with their kinds.
pub open spec fn targets(assignments: Seq<(Seq<char>, LiteralKind, Seq<char>)>) -> Seq<(Seq<char>, LiteralKind)> {
    assignments.map_values(|a: (Seq<char>, LiteralKind, Seq<char>)| (a.0, a.1))
}

proof fn lemma_plain(name: Seq<char>, expr: Seq<char>, t: CType, need_local: bool)
    requires
        plain(t),
    ensures
        flatten(name, expr, t, need_local) matches Some(p) && p.locals.len() == (if need_local {
            1int
        } else {
            0int
        }) && (need_local ==> p.locals[0].0 == name) && targets(p.assignments) == leaves(name, t),
    decreases t,
{
    match t.kind {
        TypeKind::Typedef(u) => lemma_plain(name, expr, *u, need_local),
        TypeKind::Elaborated(u) => lemma_plain(name, expr, *u, need_local),
        TypeKind::Record(fields) => {
            lemma_plain_fields(name, expr, fields@);
            let p = flatten(name, expr, t, need_local)->Some_0;
            let q = flatten_fields(name, expr, fields@)->Some_0;
            assert(p.assignments == q.assignments);
        },
        TypeKind::Primitive(k) => {
            let p = flatten(name, expr, t, need_local)->Some_0;
            assert(targets(p.assignments) =~= seq![(name, LiteralKind::Number(k))]);
        },
        TypeKind::Pointer(_) => {},
    }
}

proof fn lemma_plain_fields(name: Seq<char>, expr: Seq<char>, fields: Seq<Field>)
    requires
        plain_fields(fields),
    ensures
        flatten_fields(name, expr, fields) matches Some(p) && p.locals.len() == 0 && targets(
            p.assignments,
        ) == leaves_fields(name, fields),
    decreases fields,
{
    if fields.len() > 0 {
        let front = fields.subrange(0, fields.len() - 1);
        let last = fields[fields.len() - 1];
        lemma_plain_fields(name, expr, front);
        let n = last.name->Some_0;
        let ty = last.ty->Some_0;
        lemma_plain(member(name, n@), member(expr, n@), ty, false);
        let a = flatten_fields(name, expr, front)->Some_0;
        let b = flatten(member(name, n@), member(expr, n@), ty, false)->Some_0;
        assert(targets(a.assignments + b.assignments) =~= targets(a.assignments) + targets(
            b.assignments,
        ));
    }
}

/// A record parameter `name` of plain type `t` is staged in one local, its
/// own, and rebuilt by one assignment for each of its primitive leaves, in
/// the order of the fields' declarations.
pub proof fn law_record_param(name: Seq<char>, t: CType)
    requires
        plain(t),
    ensures
        flatten(name, name, t, true) matches Some(p) && p.locals.len() == 1 && p.locals[0].0
            == name && targets(p.assignments) == leaves(name, t),
{
    lemma_plain(name, name, t, true);
}


/// Whether the node `e` reads a global.
pub open spec fn reads_global(e: Entity) -> bool {
    &&& e.kind == EntityKind::DeclRefExpr
    &&& e.reference matches Some(d) && is_global_spec(*d)
}

/// The number of reads of globals in the trees `nodes`, counting each
/// occurrence.
pub open spec fn global_read_count(nodes: Seq<Entity>) -> nat
    decreases nodes,
{
    if nodes.len() == 0 {
        0
    } else {
        let last = nodes[nodes.len() - 1];
        global_read_count(nodes.subrange(0, nodes.len() - 1)) + (if reads_global(last) {
            1nat
        } else {
            0nat
        }) + global_read_count(last.children@)
    }
}

/// The globals read in a function body give one assignment per read, and
/// each assignment sets a global from its own name.
pub proof fn law_global_reads(nodes: Seq<Entity>)
    requires
        global_reads(nodes) is Some,
    ensures
        ({
            let g = global_reads(nodes)->Some_0;
            &&& g.len() == global_read_count(nodes)
            &&& forall|i: int| 0 <= i < g.len() ==> (#[trigger] g[i]).0 == g[i].2
        }),
    decreases nodes,
{
    if nodes.len() > 0 {
        let front = nodes.subrange(0, nodes.len() - 1);
        let last = nodes[nodes.len() - 1];
        law_global_reads(front);
        law_global_reads(last.children@);
        let a = global_reads(front)->Some_0;
        let own = crate::entity::node_reads(last)->Some_0;
        let b = global_reads(last.children@)->Some_0;
        let g = global_reads(nodes)->Some_0;
        assert(g == a + own + b);
        assert forall|i: int| 0 <= i < g.len() implies (#[trigger] g[i]).0 == g[i].2 by {
            if i < a.len() {
                assert(g[i] == a[i]);
            } else if i < a.len() + own.len() {
                assert(g[i] == own[i - a.len()]);
            } else {
                assert(g[i] == b[i - a.len() - own.len()]);
            }
        }
    }
}

/// Generation is repeatable: two runs on the same translation unit with
/// the same filter both succeed with the same text, or both fail.
pub proof fn law_deterministic(
    unit: Entity,
    filter: Option<Seq<char>>,
    first: Result<String, Error>,
    second: Result<String, Error>,
)
    requires
        generated(unit, filter, first),
        generated(unit, filter, second),
    ensures
        first is Ok <==> second is Ok,
        first is Ok ==> first->Ok_0@ == second->Ok_0@,
{
}

} // verus!
