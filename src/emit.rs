//! The C text of a snapshot function.
//!
//! A snapshot function `snapshot_<name>` takes an output stream and the
//! parameters of `<name>`. Each call prints the source of a replay function
//! `replay_<name>_<n>`, numbered by a counter of its own: the replay declares
//! the staged locals, assigns every primitive leaf and every read global the
//! literal value it had, and then makes the recorded call.

use vstd::prelude::*;
use vstd::string::*;
use crate::ctype::{format_of, literal_kind, literal_kind_of, printf_format, CType, LiteralKind, Primitive};
use crate::entity::{flatten_params, global_reads, handle_args, handle_globals, Entity};
use crate::error::Error;
use crate::flatten::{assignments_view, concat3, vars_view, Assignment, Var};

verus! {

/// The statement that prints the declaration of the local `l`.
pub open spec fn local_line(l: (Seq<char>, Seq<char>)) -> Seq<char> {
    "    fprintf(stream, \"    "@ + l.1 + " "@ + l.0 + ";\\n\");\n"@
}

/// The statements that print the declarations of `locals`, in order.
pub open spec fn locals_text(locals: Seq<(Seq<char>, Seq<char>)>) -> Seq<char>
    decreases locals.len(),
{
    if locals.len() == 0 {
        Seq::empty()
    } else {
        locals_text(locals.subrange(0, locals.len() - 1)) + local_line(locals[locals.len() - 1])
    }
}

/// The statement that prints the assignment `a`, with the literal format of
/// its kind; `None` where the kind has none.
pub open spec fn assignment_line(a: (Seq<char>, LiteralKind, Seq<char>)) -> Option<Seq<char>> {
    match format_of(a.1) {
        Some(f) => Some("    fprintf(stream, \"    "@ + a.0 + " = "@ + f + ";\\n\", "@ + a.2 + ");\n"@),
        None => None,
    }
}

/// The statements that print `assignments`, in order; `None` where one of
/// them has no literal format.
pub open spec fn assignments_text(assignments: Seq<(Seq<char>, LiteralKind, Seq<char>)>) -> Option<Seq<char>>
    decreases assignments.len(),
{
    if assignments.len() == 0 {
        Some(Seq::empty())
    } else {
        match assignments_text(assignments.subrange(0, assignments.len() - 1)) {
            Some(front) => match assignment_line(assignments[assignments.len() - 1]) {
                Some(line) => Some(front + line),
                None => None,
            },
            None => None,
        }
    }
}

/// `names` separated by `", "`.
pub open spec fn comma_list(names: Seq<Seq<char>>) -> Seq<char>
    decreases names.len(),
{
    if names.len() == 0 {
        Seq::empty()
    } else if names.len() == 1 {
        names[0]
    } else {
        comma_list(names.subrange(0, names.len() - 1)) + ", "@ + names[names.len() - 1]
    }
}

/// The statement that prints the recorded call of `name` on `args`, as a
/// `return` statement where the function returns a value.
pub open spec fn call_text(name: Seq<char>, args: Seq<Seq<char>>, returns_value: bool) -> Seq<char> {
    "    fprintf(stream, \"    "@ + (if returns_value {
        "return "@
    } else {
        Seq::empty()
    }) + name + "("@ + comma_list(args) + ");\\n\");\n"@
}

/// Whether a function with result type `t` returns a value.
pub open spec fn returns_value(t: CType) -> bool {
    literal_kind_of(t) != LiteralKind::Number(Primitive::Void)
}

/// Every parameter has a name and a type.
pub open spec fn params_complete(args: Seq<Entity>) -> bool {
    forall|i: int| 0 <= i < args.len() ==> (#[trigger] args[i]).name is Some && args[i].ty is Some
}

/// The names of the parameters `args`.
pub open spec fn param_names(args: Seq<Entity>) -> Seq<Seq<char>> {
    args.map_values(|a: Entity| a.name->Some_0@)
}

/// `", <type> <name>"` for each parameter, in order.
pub open spec fn params_text(args: Seq<Entity>) -> Seq<char>
    decreases args.len(),
{
    if args.len() == 0 {
        Seq::empty()
    } else {
        let last = args[args.len() - 1];
        params_text(args.subrange(0, args.len() - 1)) + ", "@ + last.ty->Some_0.display@ + " "@
            + last.name->Some_0@
    }
}

/// The head of the snapshot function of `name`: its signature, its counter,
/// and the statement that prints the head of the replay function.
pub open spec fn header_text(name: Seq<char>, args: Seq<Entity>, result: CType) -> Seq<char> {
    "static inline void snapshot_"@ + name + "(FILE *stream"@ + params_text(args) + ") {\n"@
        + "    static int counter = 0;\n"@ + "    fprintf(stream, \"static inline "@
        + result.display@ + " replay_"@ + name + "_%d(void) {\\n\", ++counter);\n"@
}

/// The end of the snapshot function: it prints the end of the replay.
pub open spec fn footer_text() -> Seq<char> {
    "    fprintf(stream, \"}\\n\");\n"@ + "}\n"@
}

/// The snapshot function of the function definition `f`; `None` where `f`
/// lacks a name, parameters or a result type, where flattening fails, or
/// where a value has no literal format.
pub open spec fn function_text(f: Entity) -> Option<Seq<char>> {
    match (f.name, f.arguments, f.result_type) {
        (Some(name), Some(args), Some(result)) => match flatten_params(args@) {
            Some(plan) => match global_reads(f.children@) {
                Some(globals) => match assignments_text(plan.assignments + globals) {
                    Some(assigned) => Some(
                        header_text(name@, args@, result) + locals_text(plan.locals) + assigned
                            + call_text(name@, param_names(args@), returns_value(result))
                            + footer_text(),
                    ),
                    None => None,
                },
                None => None,
            },
            None => None,
        },
        _ => None,
    }
}


/// Appends to `out` the statements that print the declarations of `locals`.
pub fn declare_locals(out: &mut String, locals: &Vec<Var>)
    ensures
        final(out)@ == old(out)@ + locals_text(vars_view(locals@)),
{
    let ghost base = out@;
    let ghost all = vars_view(locals@);
    proof {
        assert(all.subrange(0, 0).len() == 0);
        assert(base + locals_text(all.subrange(0, 0)) =~= base);
    }
    let mut i: usize = 0;
    while i < locals.len()
        invariant
            i <= locals.len(),
            all == vars_view(locals@),
            base == old(out)@,
            out@ == base + locals_text(all.subrange(0, i as int)),
        decreases locals.len() - i,
    {
        let local = &locals[i];
        out.append("    fprintf(stream, \"    ");
        out.append(local.display.as_str());
        out.append(" ");
        out.append(local.name.as_str());
        out.append(";\\n\");\n");
        proof {
            let next = all.subrange(0, i + 1);
            assert(next.subrange(0, next.len() - 1) =~= all.subrange(0, i as int));
            assert(next[next.len() - 1] == local@);
            assert(out@ =~= base + locals_text(next));
        }
        i += 1;
    }
    proof {
        assert(all.subrange(0, locals.len() as int) =~= all);
    }
}

proof fn lemma_assignments_none_extends(s: Seq<(Seq<char>, LiteralKind, Seq<char>)>, i: int)
    requires
        0 <= i <= s.len(),
        assignments_text(s.subrange(0, i)) is None,
    ensures
        assignments_text(s) is None,
    decreases s.len() - i,
{
    if i < s.len() {
        let next = s.subrange(0, i + 1);
        assert(next.subrange(0, next.len() - 1) =~= s.subrange(0, i));
        lemma_assignments_none_extends(s, i + 1);
    } else {
        assert(s.subrange(0, i) =~= s);
    }
}

/// Appends to `out` the statements that print `assignments`. Fails, with
/// `out` as it was up to the failing statement, where an assignment has no
/// literal format.
pub fn assign_all(out: &mut String, assignments: &Vec<Assignment>) -> (r: Result<(), Error>)
    ensures
        match assignments_text(assignments_view(assignments@)) {
            Some(t) => r is Ok && final(out)@ == old(out)@ + t,
            None => r matches Err(Error::String(_)),
        },
{
    let ghost base = out@;
    let ghost all = assignments_view(assignments@);
    proof {
        assert(all.subrange(0, 0).len() == 0);
        assert(base + Seq::<char>::empty() =~= base);
    }
    let mut i: usize = 0;
    while i < assignments.len()
        invariant
            i <= assignments.len(),
            all == assignments_view(assignments@),
            base == old(out)@,
            assignments_text(all.subrange(0, i as int)) matches Some(t) && out@ == base + t,
        decreases assignments.len() - i,
    {
        let a = &assignments[i];
        let ghost next = all.subrange(0, i + 1);
        proof {
            assert(next.subrange(0, next.len() - 1) =~= all.subrange(0, i as int));
            assert(next[next.len() - 1] == a@);
        }
        match printf_format(a.kind) {
            Some(f) => {
                out.append("    fprintf(stream, \"    ");
                out.append(a.lhs.as_str());
                out.append(" = ");
                out.append(f);
                out.append(";\\n\", ");
                out.append(a.rhs.as_str());
                out.append(");\n");
                proof {
                    assert(out@ =~= base + assignments_text(next)->Some_0);
                }
            },
            None => {
                proof {
                    lemma_assignments_none_extends(all, i + 1);
                }
                return Err(Error::String(concat3("Unsupported type of a value", "", "")));
            },
        }
        i += 1;
    }
    proof {
        assert(all.subrange(0, assignments.len() as int) =~= all);
    }
    Ok(())
}

/// Appends to `out` the statement that prints the call of `function_name`
/// on the parameters `args`, returning its result where `returns_value`.
fn generate_call(out: &mut String, function_name: &str, args: &Vec<Entity>, returns_value: bool)
    requires
        params_complete(args@),
    ensures
        final(out)@ == old(out)@ + call_text(function_name@, param_names(args@), returns_value),
{
    let ghost base = out@;
    let ghost names = param_names(args@);
    out.append("    fprintf(stream, \"    ");
    if returns_value {
        out.append("return ");
    }
    out.append(function_name);
    out.append("(");
    let ghost head = out@;
    proof {
        assert(names.subrange(0, 0).len() == 0);
        assert(head + comma_list(names.subrange(0, 0)) =~= head);
    }
    let mut i: usize = 0;
    while i < args.len()
        invariant
            i <= args.len(),
            params_complete(args@),
            names == param_names(args@),
            out@ == head + comma_list(names.subrange(0, i as int)),
        decreases args.len() - i,
    {
        let arg = &args[i];
        proof {
            assert(args@[i as int].name is Some);
        }
        if let Some(n) = &arg.name {
            let ghost next = names.subrange(0, i + 1);
            proof {
                assert(next.subrange(0, next.len() - 1) =~= names.subrange(0, i as int));
                assert(next[next.len() - 1] == n@);
            }
            if i > 0 {
                out.append(", ");
            } else {
                assert(next.len() == 1);
            }
            out.append(n.as_str());
            proof {
                assert(out@ =~= head + comma_list(next));
            }
        }
        i += 1;
    }
    out.append(");\\n\");\n");
    proof {
        assert(names.subrange(0, args.len() as int) =~= names);
        assert(out@ =~= base + call_text(function_name@, names, returns_value));
    }
}

/// Appends to `out` the parameter list `", <type> <name>"...` of `args`.
fn write_params(out: &mut String, args: &Vec<Entity>)
    requires
        params_complete(args@),
    ensures
        final(out)@ == old(out)@ + params_text(args@),
{
    let ghost base = out@;
    proof {
        assert(args@.subrange(0, 0).len() == 0);
        assert(base + params_text(args@.subrange(0, 0)) =~= base);
    }
    let mut i: usize = 0;
    while i < args.len()
        invariant
            i <= args.len(),
            params_complete(args@),
            base == old(out)@,
            out@ == base + params_text(args@.subrange(0, i as int)),
        decreases args.len() - i,
    {
        let arg = &args[i];
        proof {
            assert(args@[i as int].name is Some);
        }
        if let (Some(n), Some(t)) = (&arg.name, &arg.ty) {
            let ghost next = args@.subrange(0, i + 1);
            proof {
                assert(next.subrange(0, next.len() - 1) =~= args@.subrange(0, i as int));
                assert(next[next.len() - 1] == args@[i as int]);
            }
            out.append(", ");
            out.append(t.display.as_str());
            out.append(" ");
            out.append(n.as_str());
            proof {
                assert(out@ =~= base + params_text(next));
            }
        }
        i += 1;
    }
    proof {
        assert(args@.subrange(0, args.len() as int) =~= args@);
    }
}

proof fn lemma_params_complete(args: Seq<Entity>)
    requires
        flatten_params(args) is Some,
    ensures
        params_complete(args),
    decreases args.len(),
{
    if args.len() > 0 {
        let front = args.subrange(0, args.len() - 1);
        lemma_params_complete(front);
        assert forall|i: int| 0 <= i < args.len() implies (#[trigger] args[i]).name is Some
            && args[i].ty is Some by {
            if i < args.len() - 1 {
                assert(args[i] == front[i]);
            }
        }
    }
}


/// Appends to `out` the snapshot function of the function definition
/// `function`. On failure `out` is left as it was.
pub fn generate_function(out: &mut String, function: &Entity) -> (r: Result<(), Error>)
    ensures
        match function_text(*function) {
            Some(t) => r is Ok && final(out)@ == old(out)@ + t,
            None => r matches Err(Error::String(_)) && final(out)@ == old(out)@,
        },
{
    let function_name = match &function.name {
        Some(n) => n,
        None => {
            return Err(Error::String(concat3("Function without a name", "", "")));
        },
    };
    let args = match &function.arguments {
        Some(a) => a,
        None => {
            return Err(Error::String(concat3("Function without arguments", "", "")));
        },
    };
    let ret = match &function.result_type {
        Some(t) => t,
        None => {
            return Err(Error::String(concat3("Function without result type", "", "")));
        },
    };
    let mut locals: Vec<Var> = Vec::new();
    let mut assignments: Vec<Assignment> = Vec::new();
    proof {
        assert(vars_view(locals@) =~= Seq::empty());
        assert(assignments_view(assignments@) =~= Seq::empty());
    }
    let r = handle_args(&mut locals, &mut assignments, args);
    if r.is_err() {
        return r;
    }
    let ghost plan = flatten_params(args@)->Some_0;
    proof {
        assert(vars_view(locals@) =~= plan.locals);
        assert(assignments_view(assignments@) =~= plan.assignments);
        lemma_params_complete(args@);
    }
    let r = handle_globals(&mut assignments, function);
    if r.is_err() {
        return r;
    }
    let mut text = String::new();
    text.append("static inline void snapshot_");
    text.append(function_name.as_str());
    text.append("(FILE *stream");
    write_params(&mut text, args);
    text.append(") {\n");
    text.append("    static int counter = 0;\n");
    text.append("    fprintf(stream, \"static inline ");
    text.append(ret.display.as_str());
    text.append(" replay_");
    text.append(function_name.as_str());
    text.append("_%d(void) {\\n\", ++counter);\n");
    declare_locals(&mut text, &locals);
    let r = assign_all(&mut text, &assignments);
    if r.is_err() {
        return r;
    }
    let gives_value = literal_kind(ret) != LiteralKind::Number(Primitive::Void);
    generate_call(&mut text, function_name.as_str(), args, gives_value);
    text.append("    fprintf(stream, \"}\\n\");\n");
    text.append("}\n");
    proof {
        let globals = global_reads(function.children@)->Some_0;
        let assigned = assignments_text(plan.assignments + globals)->Some_0;
        assert(text@ =~= header_text(function_name@, args@, *ret) + locals_text(plan.locals)
            + assigned + call_text(function_name@, param_names(args@), returns_value(*ret))
            + footer_text());
    }
    out.append(text.as_str());
    Ok(())
}

} // verus!
