//! The declaration tree handed over by the C front end, and what the
//! generator collects from it: the flattened parameters of a function and
//! the globals that its body reads.

use vstd::prelude::*;
use vstd::string::*;
use crate::ctype::{literal_kind, literal_kind_of, CType};
use crate::error::Error;
use crate::flatten::{
    assignments_view, concat3, concat_plans, empty_plan, flatten, handle_arg, vars_view, Assignment,
    Plan, Var,
};

verus! {

/// The kinds of declaration and expression that the generator tells apart.
#[derive(Debug, Clone, Copy, PartialEq, Eq, Structural)]
pub enum EntityKind {
    FunctionDecl,
    VarDecl,
    ParmDecl,
    DeclRefExpr,
    Other,
}

/// The linkage of a declaration.
#[derive(Debug, Clone, Copy, PartialEq, Eq, Structural)]
pub enum Linkage {
    Automatic,
    Internal,
    UniqueExternal,
    External,
}

/// A node of the declaration tree.
///
/// `children` are the node's children in source order. `reference` is the
/// declaration that an expression reads, without its children. For a
/// function, `arguments` are its parameters, `result_type` its result type,
/// and `is_definition` tells a definition from a mere declaration.
#[derive(Debug)]
pub struct Entity {
    pub kind: EntityKind,
    pub name: Option<String>,
    pub ty: Option<CType>,
    pub result_type: Option<CType>,
    pub arguments: Option<Vec<Entity>>,
    pub linkage: Option<Linkage>,
    pub is_definition: bool,
    pub reference: Option<Box<Entity>>,
    pub children: Vec<Entity>,
}

/// A variable with external linkage.
pub open spec fn is_global_spec(e: Entity) -> bool {
    e.kind == EntityKind::VarDecl && e.linkage == Some(Linkage::External)
}

/// Whether `entity` declares a variable with external linkage.
pub fn is_global(entity: &Entity) -> (r: bool)
    ensures
        r == is_global_spec(*entity),
{
    entity.kind == EntityKind::VarDecl && entity.linkage == Some(Linkage::External)
}

/// The flattening of the parameters `args`, each staged in a local of its
/// own under its own name; `None` where one lacks a name or a type, or
/// where flattening fails.
pub open spec fn flatten_params(args: Seq<Entity>) -> Option<Plan>
    decreases args.len(),
{
    if args.len() == 0 {
        Some(empty_plan())
    } else {
        let last = args[args.len() - 1];
        match flatten_params(args.subrange(0, args.len() - 1)) {
            Some(front) => match (last.name, last.ty) {
                (Some(n), Some(t)) => match flatten(n@, n@, t, true) {
                    Some(back) => Some(concat_plans(front, back)),
                    None => None,
                },
                _ => None,
            },
            None => None,
        }
    }
}

proof fn lemma_params_none_extends(args: Seq<Entity>, i: int)
    requires
        0 <= i <= args.len(),
        flatten_params(args.subrange(0, i)) is None,
    ensures
        flatten_params(args) is None,
    decreases args.len() - i,
{
    if i < args.len() {
        let next = args.subrange(0, i + 1);
        assert(next.subrange(0, next.len() - 1) =~= args.subrange(0, i));
        lemma_params_none_extends(args, i + 1);
    } else {
        assert(args.subrange(0, i) =~= args);
    }
}

/// Appends to `locals` and `assignments` the flattening of the parameters
/// `args`.
pub fn handle_args(locals: &mut Vec<Var>, assignments: &mut Vec<Assignment>, args: &Vec<Entity>) -> (r:
    Result<(), Error>)
    ensures
        match flatten_params(args@) {
            Some(p) => {
                &&& r is Ok
                &&& vars_view(final(locals)@) == vars_view(old(locals)@) + p.locals
                &&& assignments_view(final(assignments)@) == assignments_view(old(assignments)@)
                    + p.assignments
            },
            None => r matches Err(Error::String(_)),
        },
{
    let ghost base_l = vars_view(locals@);
    let ghost base_a = assignments_view(assignments@);
    proof {
        assert(args@.subrange(0, 0) =~= Seq::<Entity>::empty());
        assert(base_l + empty_plan().locals =~= base_l);
        assert(base_a + empty_plan().assignments =~= base_a);
    }
    let mut i: usize = 0;
    while i < args.len()
        invariant
            i <= args.len(),
            base_l == vars_view(old(locals)@),
            base_a == assignments_view(old(assignments)@),
            flatten_params(args@.subrange(0, i as int)) matches Some(q) && vars_view(locals@) == base_l
                + q.locals && assignments_view(assignments@) == base_a + q.assignments,
        decreases args.len() - i,
    {
        let arg = &args[i];
        let ghost front = flatten_params(args@.subrange(0, i as int))->Some_0;
        let ghost next = args@.subrange(0, i + 1);
        proof {
            assert(next.subrange(0, next.len() - 1) =~= args@.subrange(0, i as int));
            assert(next[next.len() - 1] == args@[i as int]);
        }
        match (&arg.name, &arg.ty) {
            (Some(n), Some(t)) => {
                let r = handle_arg(locals, assignments, t, n.as_str(), n.as_str(), true);
                if r.is_err() {
                    proof {
                        assert(flatten_params(next) is None);
                        lemma_params_none_extends(args@, i + 1);
                    }
                    return r;
                }
                proof {
                    let back = flatten(n@, n@, *t, true)->Some_0;
                    assert(vars_view(locals@) =~= base_l + concat_plans(front, back).locals);
                    assert(assignments_view(assignments@) =~= base_a + concat_plans(
                        front,
                        back,
                    ).assignments);
                }
            },
            _ => {
                proof {
                    lemma_params_none_extends(args@, i + 1);
                }
                return Err(Error::String(concat3("Argument without a name or a type", "", "")));
            },
        }
        i += 1;
    }
    proof {
        assert(args@.subrange(0, args.len() as int) =~= args@);
    }
    Ok(())
}

/// The assignment that a read of the declaration `d` asks for: one where
/// `d` is a global, none otherwise; `None` for a global without a name or a
/// type.
pub open spec fn global_assignment(d: Entity) -> Option<Seq<(Seq<char>, crate::ctype::LiteralKind, Seq<char>)>> {
    if is_global_spec(d) {
        match (d.name, d.ty) {
            (Some(n), Some(t)) => Some(seq![(n@, literal_kind_of(t), n@)]),
            _ => None,
        }
    } else {
        Some(Seq::empty())
    }
}

/// The assignments that the node `e` itself asks for: those of the
/// declaration that it reads, where it is a reference to one.
pub open spec fn node_reads(e: Entity) -> Option<Seq<(Seq<char>, crate::ctype::LiteralKind, Seq<char>)>> {
    match e.reference {
        Some(d) if e.kind == EntityKind::DeclRefExpr => global_assignment(*d),
        _ => Some(Seq::empty()),
    }
}

/// The assignments for the globals read in the trees `nodes`, one for each
/// read, in pre-order: a node before its children, the children in order.
pub open spec fn global_reads(nodes: Seq<Entity>) -> Option<Seq<(Seq<char>, crate::ctype::LiteralKind, Seq<char>)>>
    decreases nodes,
{
    if nodes.len() == 0 {
        Some(Seq::empty())
    } else {
        let last = nodes[nodes.len() - 1];
        match global_reads(nodes.subrange(0, nodes.len() - 1)) {
            Some(front) => match node_reads(last) {
                Some(own) => match global_reads(last.children@) {
                    Some(below) => Some(front + own + below),
                    None => None,
                },
                None => None,
            },
            None => None,
        }
    }
}


proof fn lemma_reads_none_extends(nodes: Seq<Entity>, i: int)
    requires
        0 <= i <= nodes.len(),
        global_reads(nodes.subrange(0, i)) is None,
    ensures
        global_reads(nodes) is None,
    decreases nodes.len() - i,
{
    if i < nodes.len() {
        let next = nodes.subrange(0, i + 1);
        assert(next.subrange(0, next.len() - 1) =~= nodes.subrange(0, i));
        lemma_reads_none_extends(nodes, i + 1);
    } else {
        assert(nodes.subrange(0, i) =~= nodes);
    }
}

fn node_assignment(assignments: &mut Vec<Assignment>, e: &Entity) -> (r: Result<(), Error>)
    ensures
        match node_reads(*e) {
            Some(own) => r is Ok && assignments_view(final(assignments)@) == assignments_view(
                old(assignments)@,
            ) + own,
            None => r matches Err(Error::String(_)),
        },
{
    proof {
        assert(assignments_view(assignments@) + Seq::empty() =~= assignments_view(assignments@));
    }
    if e.kind == EntityKind::DeclRefExpr {
        if let Some(d) = &e.reference {
            if is_global(d) {
                match (&d.name, &d.ty) {
                    (Some(n), Some(t)) => {
                        let a = Assignment {
                            lhs: n.clone(),
                            kind: literal_kind(t),
                            rhs: n.clone(),
                        };
                        assignments.push(a);
                        assert(assignments_view(assignments@) =~= assignments_view(old(assignments)@)
                            + seq![(n@, literal_kind_of(*t), n@)]);
                    },
                    _ => {
                        return Err(Error::String(concat3("Global without a name or a type", "", "")));
                    },
                }
            }
        }
    }
    Ok(())
}

/// Appends to `assignments` one assignment for each read of a global in the
/// trees `nodes`, in pre-order.
pub fn collect_globals(assignments: &mut Vec<Assignment>, nodes: &Vec<Entity>) -> (r: Result<(), Error>)
    ensures
        match global_reads(nodes@) {
            Some(g) => r is Ok && assignments_view(final(assignments)@) == assignments_view(
                old(assignments)@,
            ) + g,
            None => r matches Err(Error::String(_)),
        },
    decreases nodes,
{
    let ghost base = assignments_view(assignments@);
    proof {
        assert(nodes@.subrange(0, 0) =~= Seq::<Entity>::empty());
        assert(base + Seq::empty() =~= base);
    }
    let mut i: usize = 0;
    while i < nodes.len()
        invariant
            i <= nodes.len(),
            base == assignments_view(old(assignments)@),
            global_reads(nodes@.subrange(0, i as int)) matches Some(q) && assignments_view(
                assignments@,
            ) == base + q,
        decreases nodes.len() - i,
    {
        let node = &nodes[i];
        let ghost front = global_reads(nodes@.subrange(0, i as int))->Some_0;
        let ghost next = nodes@.subrange(0, i + 1);
        proof {
            assert(next.subrange(0, next.len() - 1) =~= nodes@.subrange(0, i as int));
            assert(next[next.len() - 1] == nodes@[i as int]);
            assert(decreases_to!(nodes => nodes[i as int]));
        }
        let r = node_assignment(assignments, node);
        if r.is_err() {
            proof {
                lemma_reads_none_extends(nodes@, i + 1);
            }
            return r;
        }
        let r = collect_globals(assignments, &node.children);
        if r.is_err() {
            proof {
                lemma_reads_none_extends(nodes@, i + 1);
            }
            return r;
        }
        proof {
            let own = node_reads(*node)->Some_0;
            let below = global_reads(node.children@)->Some_0;
            assert(assignments_view(assignments@) =~= base + (front + own + below));
        }
        i += 1;
    }
    proof {
        assert(nodes@.subrange(0, nodes.len() as int) =~= nodes@);
    }
    Ok(())
}

/// Appends to `assignments` one assignment for each read of a global
/// anywhere under `function`, in pre-order.
pub fn handle_globals(assignments: &mut Vec<Assignment>, function: &Entity) -> (r: Result<(), Error>)
    ensures
        match global_reads(function.children@) {
            Some(g) => r is Ok && assignments_view(final(assignments)@) == assignments_view(
                old(assignments)@,
            ) + g,
            None => r matches Err(Error::String(_)),
        },
{
    collect_globals(assignments, &function.children)
}

} // verus!
