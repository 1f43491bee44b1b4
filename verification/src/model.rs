//! The compositor's view of workspaces and windows, and how a workspace
//! reference given on the command line is resolved against it.

use vstd::prelude::*;

use crate::lists::{
    first_where, keep_where, lemma_first_where_at, lemma_first_where_found,
    lemma_first_where_prefix, lemma_first_where_step, lemma_keep_where_none, lemma_keep_where_single,
    lemma_keep_where_sound, lemma_keep_where_step, lemma_keep_where_twice,
};
use crate::text::{
    bounded_decimal, debug_quoted, lemma_decimal_roundtrip, debug_text, decimal_string, decimal_text, opt_str_eq,
    opt_str_view, opt_view, parse_u8, push_all,
};

verus! {

/// A workspace as niri reports it.
#[derive(Debug, PartialEq, Eq)]
pub struct Workspace {
    pub id: u64,
    pub idx: u8,
    pub name: Option<String>,
    pub output: Option<String>,
    pub is_focused: bool,
}

impl Clone for Workspace {
    fn clone(&self) -> (r: Self)
        ensures
            r == *self,
    {
        Workspace {
            id: self.id,
            idx: self.idx,
            name: clone_opt_exact(&self.name),
            output: clone_opt_exact(&self.output),
            is_focused: self.is_focused,
        }
    }
}

/// A window as niri reports it.
#[derive(Debug, PartialEq, Eq)]
pub struct Window {
    pub id: u64,
    pub app_id: Option<String>,
    pub pid: Option<i32>,
    pub workspace_id: Option<u64>,
    pub is_focused: bool,
}

impl Clone for Window {
    fn clone(&self) -> (r: Self)
        ensures
            r == *self,
    {
        Window {
            id: self.id,
            app_id: clone_opt_exact(&self.app_id),
            pid: self.pid,
            workspace_id: self.workspace_id,
            is_focused: self.is_focused,
        }
    }
}

/// An identical copy of an optional string.
pub fn clone_opt_exact(s: &Option<String>) -> (r: Option<String>)
    ensures
        r == *s,
{
    match s {
        Some(x) => Some(x.clone()),
        None => None,
    }
}

/// Why a workspace reference could not be resolved.
#[derive(Debug)]
pub enum ResolveError {
    /// No workspace has the requested ID.
    IdNotFound(u64),
    /// No workspace has the requested index (on the requested output).
    IndexNotFound { index: u8, output: Option<String> },
    /// Several workspaces on different outputs have the requested index.
    IndexAmbiguous(u8),
    /// No workspace has the requested name.
    NameNotFound(String),
}

/// The mathematical content of a [`ResolveError`].
pub enum ResolveFailure {
    IdNotFound(u64),
    IndexNotFound { index: u8, output: Option<Seq<char>> },
    IndexAmbiguous(u8),
    NameNotFound(Seq<char>),
}

impl View for ResolveError {
    type V = ResolveFailure;

    open spec fn view(&self) -> ResolveFailure {
        match self {
            ResolveError::IdNotFound(id) => ResolveFailure::IdNotFound(*id),
            ResolveError::IndexNotFound { index, output } => ResolveFailure::IndexNotFound {
                index: *index,
                output: opt_view(*output),
            },
            ResolveError::IndexAmbiguous(index) => ResolveFailure::IndexAmbiguous(*index),
            ResolveError::NameNotFound(name) => ResolveFailure::NameNotFound(name@),
        }
    }
}

/// The message shown for a resolution failure.
pub open spec fn resolve_failure_text(f: ResolveFailure) -> Seq<char> {
    match f {
        ResolveFailure::IdNotFound(id) => "workspace ID "@ + decimal_text(id as nat)
            + " does not exist"@,
        ResolveFailure::IndexNotFound { index, output } => "workspace index "@ + decimal_text(
            index as nat,
        ) + " does not exist"@ + match output {
            Some(name) => " on output "@ + name,
            None => Seq::empty(),
        },
        ResolveFailure::IndexAmbiguous(index) => "workspace index "@ + decimal_text(index as nat)
            + " exists on multiple outputs; pass --output or --workspace-id"@,
        ResolveFailure::NameNotFound(name) => "named workspace "@ + debug_text(name)
            + " does not exist"@,
    }
}

impl ResolveError {
    /// The message shown to the user for this failure.
    pub fn message(&self) -> (m: String)
        ensures
            m@ == resolve_failure_text(self@),
    {
        match self {
            ResolveError::IdNotFound(id) => {
                let mut m = String::from_str("workspace ID ");
                push_all(&mut m, decimal_string(*id).as_str());
                push_all(&mut m, " does not exist");
                m
            },
            ResolveError::IndexNotFound { index, output } => {
                let mut m = String::from_str("workspace index ");
                push_all(&mut m, decimal_string(*index as u64).as_str());
                push_all(&mut m, " does not exist");
                match output {
                    Some(name) => {
                        push_all(&mut m, " on output ");
                        push_all(&mut m, name.as_str());
                    },
                    None => {
                        assert(m@ + Seq::<char>::empty() =~= m@);
                    },
                }
                m
            },
            ResolveError::IndexAmbiguous(index) => {
                let mut m = String::from_str("workspace index ");
                push_all(&mut m, decimal_string(*index as u64).as_str());
                push_all(&mut m, " exists on multiple outputs; pass --output or --workspace-id");
                m
            },
            ResolveError::NameNotFound(name) => {
                let mut m = String::from_str("named workspace ");
                push_all(&mut m, debug_quoted(name.as_str()).as_str());
                push_all(&mut m, " does not exist");
                m
            },
        }
    }
}

// ---------------------------------------------------------------------------
// What resolution means
// ---------------------------------------------------------------------------

/// The workspace has the given ID.
pub open spec fn has_id(id: u64) -> spec_fn(Workspace) -> bool {
    |w: Workspace| w.id == id
}

/// The workspace has the given name.
pub open spec fn has_name(name: Seq<char>) -> spec_fn(Workspace) -> bool {
    |w: Workspace| opt_view(w.name) == Some(name)
}

/// The workspace is focused.
pub open spec fn is_focused_ws() -> spec_fn(Workspace) -> bool {
    |w: Workspace| w.is_focused
}

/// The workspace has the given index and, where an output is given, lies
/// on that output.
pub open spec fn index_on(index: u8, output: Option<Seq<char>>) -> spec_fn(Workspace) -> bool {
    |w: Workspace| w.idx == index && (output is None || opt_view(w.output) == output)
}

/// The workspace lies on the given output.
pub open spec fn on_output(output: Seq<char>) -> spec_fn(Workspace) -> bool {
    |w: Workspace| opt_view(w.output) == Some(output)
}

/// The output of the first focused workspace, where it has one.
pub open spec fn focused_output(ws: Seq<Workspace>) -> Option<Seq<char>> {
    match first_where(ws, is_focused_ws()) {
        Some(w) => opt_view(w.output),
        None => None,
    }
}

/// The workspaces that a numeric reference selects: those with the index
/// (on the output, where one is given); where that leaves several and no
/// output was given, those on the focused output, if that leaves exactly one.
pub open spec fn index_candidates(ws: Seq<Workspace>, index: u8, output: Option<Seq<char>>) -> Seq<
    Workspace,
> {
    let candidates = keep_where(ws, index_on(index, output));
    if candidates.len() > 1 && output is None {
        match focused_output(ws) {
            Some(fo) => {
                let on_focused = keep_where(candidates, on_output(fo));
                if on_focused.len() == 1 {
                    on_focused
                } else {
                    candidates
                }
            },
            None => candidates,
        }
    } else {
        candidates
    }
}

/// The outcome of resolving a workspace reference: a workspace ID wins over
/// a reference; a reference that reads as a `u8` is a workspace index,
/// any other reference is a workspace name; no ID and no reference resolve
/// to no workspace.
pub open spec fn resolve_spec(
    ws: Seq<Workspace>,
    reference: Option<Seq<char>>,
    id: Option<u64>,
    output: Option<Seq<char>>,
) -> Result<Option<Workspace>, ResolveFailure> {
    match id {
        Some(id) => match first_where(ws, has_id(id)) {
            Some(w) => Ok(Some(w)),
            None => Err(ResolveFailure::IdNotFound(id)),
        },
        None => match reference {
            None => Ok(None),
            Some(r) => match bounded_decimal(r, 255) {
                Some(n) => {
                    let index = n as u8;
                    let candidates = index_candidates(ws, index, output);
                    if candidates.len() == 1 {
                        Ok(Some(candidates[0]))
                    } else if candidates.len() == 0 {
                        Err(ResolveFailure::IndexNotFound { index, output })
                    } else {
                        Err(ResolveFailure::IndexAmbiguous(index))
                    }
                },
                None => match first_where(ws, has_name(r)) {
                    Some(w) => Ok(Some(w)),
                    None => Err(ResolveFailure::NameNotFound(r)),
                },
            },
        },
    }
}

/// The view of a resolution result.
pub open spec fn resolve_result_view(r: Result<Option<Workspace>, ResolveError>) -> Result<
    Option<Workspace>,
    ResolveFailure,
> {
    match r {
        Ok(o) => Ok(o),
        Err(e) => Err(e@),
    }
}

// ---------------------------------------------------------------------------
// Resolution
// ---------------------------------------------------------------------------

fn find_by_id(ws: &[Workspace], id: u64) -> (r: Option<Workspace>)
    ensures
        r == first_where(ws@, has_id(id)),
{
    let mut i: usize = 0;
    while i < ws.len()
        invariant
            i <= ws.len(),
            first_where(ws@.take(i as int), has_id(id)) is None,
        decreases ws.len() - i,
    {
        proof {
            lemma_first_where_step(ws@, has_id(id), i as int);
        }
        if ws[i].id == id {
            proof {
                lemma_first_where_prefix(ws@, has_id(id), i + 1);
            }
            return Some(ws[i].clone());
        }
        i = i + 1;
    }
    assert(ws@.take(ws.len() as int) =~= ws@);
    None
}

fn find_by_name(ws: &[Workspace], name: &str) -> (r: Option<Workspace>)
    ensures
        r == first_where(ws@, has_name(name@)),
{
    let mut i: usize = 0;
    while i < ws.len()
        invariant
            i <= ws.len(),
            first_where(ws@.take(i as int), has_name(name@)) is None,
        decreases ws.len() - i,
    {
        proof {
            lemma_first_where_step(ws@, has_name(name@), i as int);
        }
        if opt_str_eq(&ws[i].name, name) {
            proof {
                lemma_first_where_prefix(ws@, has_name(name@), i + 1);
            }
            return Some(ws[i].clone());
        }
        i = i + 1;
    }
    assert(ws@.take(ws.len() as int) =~= ws@);
    None
}

fn find_focused_output(ws: &[Workspace]) -> (r: Option<String>)
    ensures
        opt_view(r) == focused_output(ws@),
{
    let mut i: usize = 0;
    while i < ws.len()
        invariant
            i <= ws.len(),
            first_where(ws@.take(i as int), is_focused_ws()) is None,
        decreases ws.len() - i,
    {
        proof {
            lemma_first_where_step(ws@, is_focused_ws(), i as int);
        }
        if ws[i].is_focused {
            proof {
                lemma_first_where_prefix(ws@, is_focused_ws(), i + 1);
            }
            return clone_opt_exact(&ws[i].output);
        }
        i = i + 1;
    }
    assert(ws@.take(ws.len() as int) =~= ws@);
    None
}

fn with_index(ws: &[Workspace], index: u8, output: Option<&str>) -> (r: Vec<Workspace>)
    ensures
        r@ == keep_where(ws@, index_on(index, opt_str_view(output))),
{
    let ghost p = index_on(index, opt_str_view(output));
    let mut r: Vec<Workspace> = Vec::new();
    let mut i: usize = 0;
    while i < ws.len()
        invariant
            i <= ws.len(),
            p == index_on(index, opt_str_view(output)),
            r@ == keep_where(ws@.take(i as int), p),
        decreases ws.len() - i,
    {
        proof {
            lemma_keep_where_step(ws@, p, i as int);
        }
        let keep = ws[i].idx == index && match output {
            None => true,
            Some(o) => opt_str_eq(&ws[i].output, o),
        };
        if keep {
            r.push(ws[i].clone());
        }
        i = i + 1;
    }
    assert(ws@.take(ws.len() as int) =~= ws@);
    r
}

fn with_output(ws: &Vec<Workspace>, output: &str) -> (r: Vec<Workspace>)
    ensures
        r@ == keep_where(ws@, on_output(output@)),
{
    let ghost p = on_output(output@);
    let mut r: Vec<Workspace> = Vec::new();
    let mut i: usize = 0;
    while i < ws.len()
        invariant
            i <= ws.len(),
            p == on_output(output@),
            r@ == keep_where(ws@.take(i as int), p),
        decreases ws.len() - i,
    {
        proof {
            lemma_keep_where_step(ws@, p, i as int);
        }
        if opt_str_eq(&ws[i].output, output) {
            r.push(ws[i].clone());
        }
        i = i + 1;
    }
    assert(ws@.take(ws.len() as int) =~= ws@);
    r
}

/// Resolves a workspace from an ID, or from a reference that is a numeric
/// index (optionally restricted to an output) or a name.
pub fn resolve_workspace(
    workspaces: &[Workspace],
    reference: Option<&str>,
    id: Option<u64>,
    output: Option<&str>,
) -> (r: Result<Option<Workspace>, ResolveError>)
    ensures
        resolve_result_view(r) == resolve_spec(
            workspaces@,
            opt_str_view(reference),
            id,
            opt_str_view(output),
        ),
{
    if let Some(id) = id {
        return match find_by_id(workspaces, id) {
            Some(w) => Ok(Some(w)),
            None => Err(ResolveError::IdNotFound(id)),
        };
    }
    let reference = match reference {
        Some(r) => r,
        None => {
            return Ok(None);
        },
    };
    match parse_u8(reference) {
        Some(index) => {
            let candidates = with_index(workspaces, index, output);
            let chosen = if candidates.len() > 1 && output.is_none() {
                match find_focused_output(workspaces) {
                    Some(focused) => {
                        let on_focused = with_output(&candidates, focused.as_str());
                        if on_focused.len() == 1 {
                            on_focused
                        } else {
                            candidates
                        }
                    },
                    None => candidates,
                }
            } else {
                candidates
            };
            assert(chosen@ == index_candidates(workspaces@, index, opt_str_view(output)));
            if chosen.len() == 1 {
                Ok(Some(chosen[0].clone()))
            } else if chosen.len() == 0 {
                let out = match output {
                    Some(o) => Some(String::from_str(o)),
                    None => None,
                };
                Err(ResolveError::IndexNotFound { index, output: out })
            } else {
                Err(ResolveError::IndexAmbiguous(index))
            }
        },
        None => match find_by_name(workspaces, reference) {
            Some(w) => Ok(Some(w)),
            None => Err(ResolveError::NameNotFound(String::from_str(reference))),
        },
    }
}

// ---------------------------------------------------------------------------
// Laws
// ---------------------------------------------------------------------------

/// A workspace ID decides alone: with an ID given, the reference and the
/// output make no difference.
pub proof fn law_id_wins(
    ws: Seq<Workspace>,
    id: u64,
    reference1: Option<Seq<char>>,
    output1: Option<Seq<char>>,
    reference2: Option<Seq<char>>,
    output2: Option<Seq<char>>,
)
    ensures
        resolve_spec(ws, reference1, Some(id), output1) == resolve_spec(
            ws,
            reference2,
            Some(id),
            output2,
        ),
{
}

/// The workspace a reference resolves to is one of the workspaces, and it
/// fits the request: it has the ID asked for; or the index asked for, on
/// the output asked for where one is; or the name asked for.
pub proof fn law_resolved_workspace_fits(
    ws: Seq<Workspace>,
    reference: Option<Seq<char>>,
    id: Option<u64>,
    output: Option<Seq<char>>,
)
    ensures
        resolve_spec(ws, reference, id, output) matches Ok(Some(w)) ==> {
            &&& ws.contains(w)
            &&& match id {
                Some(i) => w.id == i,
                None => match bounded_decimal(reference->0, 255) {
                    Some(n) => w.idx == n && (output matches Some(o) ==> opt_view(w.output)
                        == Some(o)),
                    None => opt_view(w.name) == reference,
                },
            }
        },
{
    if let Ok(Some(w)) = resolve_spec(ws, reference, id, output) {
        match id {
            Some(i) => {
                lemma_first_where_found(ws, has_id(i));
            },
            None => {
                let r = reference->0;
                match bounded_decimal(r, 255) {
                    Some(n) => {
                        let index = n as u8;
                        let candidates = keep_where(ws, index_on(index, output));
                        lemma_keep_where_sound(ws, index_on(index, output));
                        let chosen = index_candidates(ws, index, output);
                        assert(chosen.len() == 1 && w == chosen[0]);
                        if candidates.len() > 1 && output is None && focused_output(ws) is Some {
                            let fo = focused_output(ws)->0;
                            lemma_keep_where_sound(candidates, on_output(fo));
                            let on = keep_where(candidates, on_output(fo));
                            if on.len() == 1 {
                                assert(candidates.contains(on[0]));
                            }
                        }
                        assert(candidates.contains(w));
                        let j = choose|j: int| 0 <= j < candidates.len() && candidates[j] == w;
                        assert(index_on(index, output)(candidates[j]));
                        let k = choose|k: int| 0 <= k < ws.len() && ws[k] == candidates[j];
                        assert(ws[k] == w);
                    },
                    None => {
                        lemma_first_where_found(ws, has_name(r));
                    },
                }
            },
        }
    }
}

/// A numeric reference, with no ID and no output given, resolves to the
/// workspace with that index on the output of the focused workspace (the
/// first focused one of the whole list, whether or not it has the index),
/// where exactly one workspace has that index on that output.
pub proof fn law_index_prefers_focused_output(ws: Seq<Workspace>, n: u8, f: int, k: int)
    requires
        0 <= f < ws.len(),
        ws[f].is_focused,
        forall|j: int| 0 <= j < f ==> !(#[trigger] ws[j]).is_focused,
        ws[f].output is Some,
        0 <= k < ws.len(),
        ws[k].idx == n,
        opt_view(ws[k].output) == opt_view(ws[f].output),
        forall|j: int|
            0 <= j < ws.len() && j != k && (#[trigger] ws[j]).idx == n ==> opt_view(ws[j].output)
                != opt_view(ws[f].output),
    ensures
        resolve_spec(ws, Some(decimal_text(n as nat)), None, None) == Ok::<
            Option<Workspace>,
            ResolveFailure,
        >(Some(ws[k])),
{
    lemma_decimal_roundtrip(n as nat);
    lemma_first_where_at(ws, is_focused_ws(), f);
    let fo = opt_view(ws[f].output)->0;
    assert(focused_output(ws) == Some(fo));
    let p = index_on(n, None);
    let q = on_output(fo);
    let both = |x: Workspace| p(x) && q(x);
    let candidates = keep_where(ws, p);
    lemma_keep_where_twice(ws, p, q);
    assert forall|j: int| 0 <= j < ws.len() && j != k implies !both(#[trigger] ws[j]) by {
        if ws[j].idx == n {
            assert(opt_view(ws[j].output) != opt_view(ws[f].output));
        }
    }
    lemma_keep_where_single(ws, both, k);
    let on_focused = keep_where(candidates, q);
    assert(on_focused == seq![ws[k]]);
    if candidates.len() == 1 {
        assert(candidates.drop_last().len() == 0);
        assert(keep_where(candidates.drop_last(), q) == Seq::<Workspace>::empty());
        assert(candidates[0] == candidates.last());
        assert(candidates =~= seq![ws[k]]);
    } else if candidates.len() == 0 {
        assert(on_focused.len() == 0);
    }
    assert(index_candidates(ws, n, None) == seq![ws[k]]);
    assert(bounded_decimal(decimal_text(n as nat), 255) == Some(n as nat));
    assert((n as nat) as u8 == n);
}

/// A numeric reference with no ID resolves to the one workspace with that
/// index (on the output, where one is given), where exactly one has it.
pub proof fn law_unique_index_resolves(ws: Seq<Workspace>, n: u8, output: Option<Seq<char>>, k: int)
    requires
        0 <= k < ws.len(),
        ws[k].idx == n,
        output is None || opt_view(ws[k].output) == output,
        forall|j: int|
            0 <= j < ws.len() && j != k && (#[trigger] ws[j]).idx == n ==> output is Some
                && opt_view(ws[j].output) != output,
    ensures
        resolve_spec(ws, Some(decimal_text(n as nat)), None, output) == Ok::<
            Option<Workspace>,
            ResolveFailure,
        >(Some(ws[k])),
{
    lemma_decimal_roundtrip(n as nat);
    let p = index_on(n, output);
    assert forall|j: int| 0 <= j < ws.len() && j != k implies !p(#[trigger] ws[j]) by {}
    lemma_keep_where_single(ws, p, k);
    assert(index_candidates(ws, n, output) == seq![ws[k]]);
    assert(bounded_decimal(decimal_text(n as nat), 255) == Some(n as nat));
    assert((n as nat) as u8 == n);
}

/// A numeric reference with no ID to an index that no workspace has (on the
/// output, where one is given) is reported as not found.
pub proof fn law_missing_index_not_found(ws: Seq<Workspace>, n: u8, output: Option<Seq<char>>)
    requires
        forall|j: int|
            0 <= j < ws.len() && (#[trigger] ws[j]).idx == n ==> output is Some && opt_view(
                ws[j].output,
            ) != output,
    ensures
        resolve_spec(ws, Some(decimal_text(n as nat)), None, output) == Err::<
            Option<Workspace>,
            ResolveFailure,
        >(ResolveFailure::IndexNotFound { index: n, output }),
{
    lemma_decimal_roundtrip(n as nat);
    let p = index_on(n, output);
    assert forall|j: int| 0 <= j < ws.len() implies !p(#[trigger] ws[j]) by {}
    lemma_keep_where_none(ws, p);
    assert(index_candidates(ws, n, output).len() == 0);
    assert(bounded_decimal(decimal_text(n as nat), 255) == Some(n as nat));
    assert((n as nat) as u8 == n);
}

} // verus!
