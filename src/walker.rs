//! Selection of the function definitions of a translation unit, and the
//! generated text for the whole unit.

use vstd::prelude::*;
use vstd::string::*;
use crate::emit::{function_text, generate_function};
use crate::entity::{Entity, EntityKind};
use crate::error::Error;

verus! {

/// Whether the top-level declaration `e` is a function definition that the
/// name filter `filter` lets through.
pub open spec fn selected(e: Entity, filter: Option<Seq<char>>) -> bool {
    &&& e.kind == EntityKind::FunctionDecl
    &&& e.is_definition
    &&& match filter {
        Some(f) => e.name matches Some(n) && n@ == f,
        None => true,
    }
}

/// The snapshot functions of the selected declarations among `decls`, in
/// order; `None` where one of them cannot be generated.
pub open spec fn functions_text(decls: Seq<Entity>, filter: Option<Seq<char>>) -> Option<Seq<char>>
    decreases decls.len(),
{
    if decls.len() == 0 {
        Some(Seq::empty())
    } else {
        let last = decls[decls.len() - 1];
        match functions_text(decls.subrange(0, decls.len() - 1), filter) {
            Some(front) => if selected(last, filter) {
                match function_text(last) {
                    Some(t) => Some(front + t),
                    None => None,
                }
            } else {
                Some(front)
            },
            None => None,
        }
    }
}

/// The generated text for the translation unit whose root is `unit`.
pub open spec fn unit_text(unit: Entity, filter: Option<Seq<char>>) -> Option<Seq<char>> {
    match functions_text(unit.children@, filter) {
        Some(t) => Some("#include <stdio.h>\n\n"@ + t),
        None => None,
    }
}

/// What a call of [`generate`] on `unit` and `filter` returns: the text of
/// the unit, or an error where one of its selected functions cannot be
/// generated.
pub open spec fn generated(unit: Entity, filter: Option<Seq<char>>, r: Result<String, Error>) -> bool {
    match unit_text(unit, filter) {
        Some(t) => r matches Ok(s) && s@ == t,
        None => r matches Err(Error::String(_)),
    }
}

/// The view of an optional name filter.
pub open spec fn filter_view(filter: Option<&str>) -> Option<Seq<char>> {
    match filter {
        Some(f) => Some(f@),
        None => None,
    }
}

/// Whether `a` and `b` hold the same text.
pub fn same_text(a: &str, b: &str) -> (r: bool)
    ensures
        r == (a@ == b@),
{
    let n = a.unicode_len();
    if n != b.unicode_len() {
        return false;
    }
    let mut i: usize = 0;
    while i < n
        invariant
            n == a@.len(),
            n == b@.len(),
            i <= n,
            a@.subrange(0, i as int) == b@.subrange(0, i as int),
        decreases n - i,
    {
        if a.get_char(i) != b.get_char(i) {
            return false;
        }
        proof {
            assert(a@.subrange(0, i + 1) =~= a@.subrange(0, i as int).push(a@[i as int]));
            assert(b@.subrange(0, i + 1) =~= b@.subrange(0, i as int).push(b@[i as int]));
        }
        i += 1;
    }
    proof {
        assert(a@ =~= a@.subrange(0, n as int));
        assert(b@ =~= b@.subrange(0, n as int));
    }
    true
}

fn is_selected(e: &Entity, filter: Option<&str>) -> (r: bool)
    ensures
        r == selected(*e, filter_view(filter)),
{
    if e.kind != EntityKind::FunctionDecl || !e.is_definition {
        return false;
    }
    match filter {
        Some(f) => match &e.name {
            Some(n) => same_text(n.as_str(), f),
            None => false,
        },
        None => true,
    }
}

proof fn lemma_functions_none_extends(decls: Seq<Entity>, filter: Option<Seq<char>>, i: int)
    requires
        0 <= i <= decls.len(),
        functions_text(decls.subrange(0, i), filter) is None,
    ensures
        functions_text(decls, filter) is None,
    decreases decls.len() - i,
{
    if i < decls.len() {
        let next = decls.subrange(0, i + 1);
        assert(next.subrange(0, next.len() - 1) =~= decls.subrange(0, i));
        lemma_functions_none_extends(decls, filter, i + 1);
    } else {
        assert(decls.subrange(0, i) =~= decls);
    }
}

/// The C text that instruments the translation unit whose root is `unit`:
/// an include of `stdio.h`, then the snapshot function of each top-level
/// function definition whose name is `filter` (of each one, without a
/// filter), in source order. Nothing is produced where one of them fails.
pub fn generate(unit: &Entity, filter: Option<&str>) -> (r: Result<String, Error>)
    ensures
        generated(*unit, filter_view(filter), r),
{
    let ghost fv = filter_view(filter);
    let decls = &unit.children;
    let mut out = String::new();
    out.append("#include <stdio.h>\n\n");
    let ghost head = out@;
    proof {
        assert(decls@.subrange(0, 0).len() == 0);
        assert(head + Seq::<char>::empty() =~= head);
    }
    let mut i: usize = 0;
    while i < decls.len()
        invariant
            i <= decls.len(),
            fv == filter_view(filter),
            decls@ == unit.children@,
            head == "#include <stdio.h>\n\n"@,
            functions_text(decls@.subrange(0, i as int), fv) matches Some(t) && out@ == head + t,
        decreases decls.len() - i,
    {
        let decl = &decls[i];
        let ghost next = decls@.subrange(0, i + 1);
        proof {
            assert(next.subrange(0, next.len() - 1) =~= decls@.subrange(0, i as int));
            assert(next[next.len() - 1] == decls@[i as int]);
        }
        if is_selected(decl, filter) {
            let r = generate_function(&mut out, decl);
            match r {
                Ok(()) => {},
                Err(e) => {
                    proof {
                        assert(function_text(*decl) is None);
                        assert(functions_text(next, fv) is None);
                        lemma_functions_none_extends(decls@, fv, i + 1);
                    }
                    return Err(e);
                },
            }
        }
        proof {
            assert(out@ =~= head + functions_text(next, fv)->Some_0);
        }
        i += 1;
    }
    proof {
        assert(decls@.subrange(0, decls.len() as int) =~= decls@);
    }
    Ok(out)
}

} // verus!
