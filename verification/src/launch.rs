//! The decisions of a launch: which workspace the new window goes to, which
//! window is the new one, and what niri is asked to do with it.
//!
//! Reading niri's events, spawning the process and reading `/proc` happen
//! around these functions; each of them decides from plain values.

use std::collections::{HashMap, HashSet};

use vstd::prelude::*;

use crate::cli::LaunchArgs;
use crate::ipc::{Action, Event, InitialState};
use crate::lists::{first_where, lemma_first_where_prefix, lemma_first_where_step};
use crate::model::{
    resolve_spec, resolve_workspace, ResolveError, ResolveFailure, Window, Workspace,
};
use crate::profile::Position;
use crate::text::{
    after_last_dot, chars_after_last_dot, chars_eq_ignore_ascii_case, chars_of,
    eq_ignore_ascii_case_spec, opt_str_view, opt_view, parse_i32, signed_decimal, strings_view,
};

verus! {

broadcast use vstd::std_specs::hash::group_hash_axioms;

// ---------------------------------------------------------------------------
// Matching the launched window
// ---------------------------------------------------------------------------

/// Whether `window` is certainly the launched application's window.
///
/// With an explicit app ID, only that exact app ID matches. Otherwise a
/// window matches when its process descends from the launched process
/// (`descends`, consulted only for a window with a PID), or when its app ID
/// equals the command name without regard to ASCII case, or ends in
/// `.` and the command name (reverse-domain app IDs).
pub open spec fn strong_match(
    window: Window,
    descends: bool,
    command_app_id: Seq<char>,
    explicit_app_id: Option<Seq<char>>,
) -> bool {
    match explicit_app_id {
        Some(expected) => opt_view(window.app_id) == Some(expected),
        None => {
            ||| (window.pid is Some && descends)
            ||| (window.app_id matches Some(app_id) && (eq_ignore_ascii_case_spec(
                app_id@,
                command_app_id,
            ) || eq_ignore_ascii_case_spec(after_last_dot(app_id@), command_app_id)))
        },
    }
}

/// The process whose ancestry decides whether `window` matches, where it
/// has to be looked up: with no explicit app ID, the window's process.
pub fn lineage_query(window: &Window, explicit_app_id: Option<&str>) -> (r: Option<i32>)
    ensures
        r == (if explicit_app_id is None {
            window.pid
        } else {
            None
        }),
{
    match explicit_app_id {
        Some(_) => None,
        None => window.pid,
    }
}

/// Decides whether `window` is the launched application's window; see
/// [`strong_match`]. `descends` tells whether the window's process descends
/// from the launched one.
pub fn is_strong_match(
    window: &Window,
    descends: bool,
    command_app_id: &str,
    explicit_app_id: Option<&str>,
) -> (r: bool)
    ensures
        r == strong_match(*window, descends, command_app_id@, opt_str_view(explicit_app_id)),
{
    if let Some(expected) = explicit_app_id {
        return match &window.app_id {
            Some(a) => crate::text::str_eq(a.as_str(), expected),
            None => false,
        };
    }
    if window.pid.is_some() && descends {
        return true;
    }
    match &window.app_id {
        Some(app_id) => {
            let a = chars_of(app_id.as_str());
            let c = chars_of(command_app_id);
            if chars_eq_ignore_ascii_case(&a, &c) {
                true
            } else {
                let tail = chars_after_last_dot(&a);
                chars_eq_ignore_ascii_case(&tail, &c)
            }
        },
        None => false,
    }
}

// ---------------------------------------------------------------------------
// Process ancestry
// ---------------------------------------------------------------------------

/// What the ancestry walk knows after looking at a process.
#[derive(Debug, Clone, Copy, PartialEq, Eq, Structural)]
pub enum Lineage {
    /// The process descends from the ancestor.
    Descends,
    /// The process does not descend from the ancestor, or that cannot be told.
    Unrelated,
    /// The parent of this process is needed to go on.
    NeedParent(i32),
}

/// The verdict on process `pid`, given the processes already looked at:
/// process IDs 1 and below, and processes seen before, end the walk without
/// the ancestor; the ancestor itself ends it with it.
pub open spec fn lineage_at(pid: i32, ancestor: i32, seen: Seq<i32>) -> Lineage {
    if pid > 1 && !seen.contains(pid) {
        if pid == ancestor {
            Lineage::Descends
        } else {
            Lineage::NeedParent(pid)
        }
    } else {
        Lineage::Unrelated
    }
}

/// The processes a walk has looked up the parent of: all above 1, none the
/// ancestor, none twice.
pub open spec fn valid_chain(chain: Seq<i32>, ancestor: i32) -> bool {
    &&& chain.no_duplicates()
    &&& forall|i: int| 0 <= i < chain.len() ==> 1 < #[trigger] chain[i] && chain[i] != ancestor
}

/// A chain of distinct process IDs above 1 is shorter than the number of
/// such IDs, so a walk asks for at most that many parents.
pub proof fn lemma_chain_bounded(chain: Seq<i32>, ancestor: i32)
    requires
        valid_chain(chain, ancestor),
    ensures
        chain.len() <= i32::MAX - 1,
{
    let ints = chain.map_values(|p: i32| p as int);
    assert(ints.no_duplicates()) by {
        assert forall|i: int, j: int| 0 <= i < ints.len() && 0 <= j < ints.len() && i != j implies ints[i]
            != ints[j] by {
            assert(chain[i] != chain[j]);
        }
    }
    ints.unique_seq_to_set();
    let range = vstd::set_lib::set_int_range(2, i32::MAX as int + 1);
    vstd::set_lib::lemma_int_range(2, i32::MAX as int + 1);
    assert(ints.to_set().subset_of(range)) by {
        assert forall|x: int| ints.to_set().contains(x) implies range.contains(x) by {
            let i = choose|i: int| 0 <= i < ints.len() && ints[i] == x;
            assert(1 < chain[i]);
        }
    }
    vstd::set_lib::lemma_len_subset(ints.to_set(), range);
}

/// The walk up the process tree that decides whether a process descends
/// from another; the caller looks up each parent it asks for.
#[derive(Debug)]
pub struct AncestryWalk {
    ancestor: i32,
    chain: Vec<i32>,
}

impl AncestryWalk {
    #[verifier::type_invariant]
    spec fn well_formed(self) -> bool {
        valid_chain(self.chain@, self.ancestor)
    }

    /// The process whose ancestry is asked about.
    pub closed spec fn ancestor(self) -> i32 {
        self.ancestor
    }

    /// The processes whose parents the walk has asked for, in order.
    pub closed spec fn chain(self) -> Seq<i32> {
        self.chain@
    }

    /// Starts the walk at `pid`.
    pub fn start(pid: i32, ancestor: i32) -> (r: (AncestryWalk, Lineage))
        ensures
            r.0.ancestor() == ancestor,
            r.1 == lineage_at(pid, ancestor, Seq::empty()),
            r.0.chain() == (if r.1 is NeedParent {
                seq![pid]
            } else {
                Seq::<i32>::empty()
            }),
    {
        let mut chain: Vec<i32> = Vec::new();
        if pid > 1 {
            if pid == ancestor {
                let w = AncestryWalk { ancestor, chain };
                (w, Lineage::Descends)
            } else {
                chain.push(pid);
                assert(chain@ =~= seq![pid]);
                let w = AncestryWalk { ancestor, chain };
                (w, Lineage::NeedParent(pid))
            }
        } else {
            let w = AncestryWalk { ancestor, chain };
            (w, Lineage::Unrelated)
        }
    }

    /// Goes on with the parent of the last process asked about (`None` where
    /// it could not be found).
    pub fn step(&mut self, parent: Option<i32>) -> (r: Lineage)
        ensures
            final(self).ancestor() == old(self).ancestor(),
            r == (match parent {
                None => Lineage::Unrelated,
                Some(p) => lineage_at(p, old(self).ancestor(), old(self).chain()),
            }),
            final(self).chain() == (if r is NeedParent {
                old(self).chain().push(r->NeedParent_0)
            } else {
                old(self).chain()
            }),
            final(self).chain().len() <= i32::MAX - 1,
    {
        proof {
            use_type_invariant(&*self);
            lemma_chain_bounded(self.chain@, self.ancestor);
        }
        let p = match parent {
            None => {
                return Lineage::Unrelated;
            },
            Some(p) => p,
        };
        if p <= 1 {
            return Lineage::Unrelated;
        }
        let mut k: usize = 0;
        while k < self.chain.len()
            invariant
                k <= self.chain.len(),
                forall|j: int| 0 <= j < k ==> self.chain@[j] != p,
                parent == Some(p),
                p > 1,
                self.chain@.len() <= i32::MAX - 1,
                self.chain@ == old(self).chain@,
                self.ancestor == old(self).ancestor,
            decreases self.chain.len() - k,
        {
            if self.chain[k] == p {
                assert(self.chain@.contains(p)) by {
                    assert(self.chain@[k as int] == p);
                }
                return Lineage::Unrelated;
            }
            k = k + 1;
        }
        if p == self.ancestor {
            return Lineage::Descends;
        }
        let mut chain: Vec<i32> = Vec::new();
        std::mem::swap(&mut chain, &mut self.chain);
        let ghost before = chain@;
        chain.push(p);
        proof {
            assert(valid_chain(chain@, self.ancestor)) by {
                assert forall|i: int, j: int|
                    0 <= i < chain@.len() && 0 <= j < chain@.len() && i != j implies chain@[i]
                    != chain@[j] by {
                    if i < before.len() && j < before.len() {
                    } else if i == before.len() {
                        assert(chain@[j] == before[j]);
                    } else {
                        assert(chain@[i] == before[i]);
                    }
                }
            }
            lemma_chain_bounded(chain@, self.ancestor);
        }
        self.chain = chain;
        Lineage::NeedParent(p)
    }
}

// ---------------------------------------------------------------------------
// The whole walk
// ---------------------------------------------------------------------------

/// Whether the walk that starts at `pid`, having looked up the parents of
/// the processes in `seen`, ends with "descends" when each parent is looked
/// up with `parent` (`None` where a parent cannot be found).
pub open spec fn walk_outcome(
    pid: i32,
    ancestor: i32,
    parent: spec_fn(i32) -> Option<i32>,
    seen: Seq<i32>,
) -> bool
    decreases i32::MAX - seen.len(),
{
    if seen.len() >= i32::MAX {
        false
    } else {
        match lineage_at(pid, ancestor, seen) {
            Lineage::Descends => true,
            Lineage::Unrelated => false,
            Lineage::NeedParent(p) => match parent(p) {
                None => false,
                Some(q) => walk_outcome(q, ancestor, parent, seen.push(p)),
            },
        }
    }
}

/// How a walk in the state `(verdict, chain)` ends when each parent is looked
/// up with `parent`.
pub open spec fn walk_state_outcome(
    verdict: Lineage,
    chain: Seq<i32>,
    ancestor: i32,
    parent: spec_fn(i32) -> Option<i32>,
) -> bool {
    match verdict {
        Lineage::Descends => true,
        Lineage::Unrelated => false,
        Lineage::NeedParent(p) => match parent(p) {
            None => false,
            Some(q) => walk_outcome(q, ancestor, parent, chain),
        },
    }
}

/// `c` leads from `pid` up to `ancestor`: distinct processes above 1, each
/// after the first being the parent of the one before it.
pub open spec fn lineage_path(
    c: Seq<i32>,
    pid: i32,
    ancestor: i32,
    parent: spec_fn(i32) -> Option<i32>,
) -> bool {
    &&& c.len() > 0
    &&& c[0] == pid
    &&& c.last() == ancestor
    &&& c.no_duplicates()
    &&& forall|i: int| 0 <= i < c.len() ==> 1 < #[trigger] c[i]
    &&& forall|i: int| 0 <= i < c.len() - 1 ==> parent(#[trigger] c[i]) == Some(c[i + 1])
}

/// The walk's state as `AncestryWalk::start` leaves it has the outcome of
/// the walk from `pid`.
pub proof fn law_walk_start(pid: i32, ancestor: i32, parent: spec_fn(i32) -> Option<i32>)
    ensures
        walk_state_outcome(
            lineage_at(pid, ancestor, Seq::empty()),
            if lineage_at(pid, ancestor, Seq::empty()) is NeedParent {
                seq![pid]
            } else {
                Seq::<i32>::empty()
            },
            ancestor,
            parent,
        ) == walk_outcome(pid, ancestor, parent, Seq::empty()),
{
    assert(Seq::<i32>::empty().push(pid) =~= seq![pid]);
}

/// A step of `AncestryWalk::step`, given the parent that `parent` names,
/// keeps the outcome of the walk: so repeating the steps until the verdict
/// is "descends" or "unrelated" gives `walk_outcome`, and the chain grows by
/// one distinct process above 1 at each step that asks again, so the steps
/// end.
pub proof fn law_walk_step(
    p: i32,
    chain: Seq<i32>,
    ancestor: i32,
    parent: spec_fn(i32) -> Option<i32>,
)
    requires
        valid_chain(chain, ancestor),
        chain.len() > 0,
        chain.last() == p,
    ensures
        ({
            let next = match parent(p) {
                None => Lineage::Unrelated,
                Some(q) => lineage_at(q, ancestor, chain),
            };
            let next_chain = if next is NeedParent {
                chain.push(next->NeedParent_0)
            } else {
                chain
            };
            walk_state_outcome(next, next_chain, ancestor, parent) == walk_state_outcome(
                Lineage::NeedParent(p),
                chain,
                ancestor,
                parent,
            )
        }),
{
    lemma_chain_bounded(chain, ancestor);
}

/// The walk from `pid` among processes already seen in `seen` ends with
/// "descends" when a path leads from `pid` to `ancestor` that avoids `seen`.
proof fn lemma_path_gives_descends(
    c: Seq<i32>,
    k: int,
    ancestor: i32,
    parent: spec_fn(i32) -> Option<i32>,
)
    requires
        lineage_path(c, c[0], ancestor, parent),
        0 <= k < c.len(),
    ensures
        walk_outcome(c[k], ancestor, parent, c.take(k)),
    decreases c.len() - k,
{
    let seen = c.take(k);
    assert(valid_chain(seen, ancestor)) by {
        assert forall|i: int| 0 <= i < seen.len() implies 1 < #[trigger] seen[i] && seen[i]
            != ancestor by {
            assert(seen[i] == c[i]);
            assert(c[c.len() - 1] == ancestor);
        }
        assert(seen.no_duplicates()) by {
            assert forall|i: int, j: int| 0 <= i < seen.len() && 0 <= j < seen.len() && i != j implies seen[i] != seen[j] by {
                assert(seen[i] == c[i] && seen[j] == c[j]);
            }
        }
    }
    lemma_chain_bounded(seen, ancestor);
    assert(!seen.contains(c[k])) by {
        if seen.contains(c[k]) {
            let j = choose|j: int| 0 <= j < seen.len() && seen[j] == c[k];
            assert(c[j] == c[k]);
        }
    }
    if k == c.len() - 1 {
    } else {
        assert(c[k] != ancestor) by {
            assert(c[c.len() - 1] == ancestor);
        }
        assert(parent(c[k]) == Some(c[k + 1]));
        assert(c.take(k + 1) =~= seen.push(c[k]));
        lemma_path_gives_descends(c, k + 1, ancestor, parent);
    }
}

/// Where the walk from `pid` among the processes in `seen` ends with
/// "descends", a path leads from `pid` to `ancestor` that avoids `seen`.
proof fn lemma_descends_gives_path(
    pid: i32,
    ancestor: i32,
    parent: spec_fn(i32) -> Option<i32>,
    seen: Seq<i32>,
) -> (c: Seq<i32>)
    requires
        walk_outcome(pid, ancestor, parent, seen),
        seen.no_duplicates(),
    ensures
        lineage_path(c, pid, ancestor, parent),
        forall|i: int| 0 <= i < c.len() ==> !seen.contains(#[trigger] c[i]),
    decreases i32::MAX - seen.len(),
{
    match lineage_at(pid, ancestor, seen) {
        Lineage::Descends => {
            let c = seq![pid];
            assert(c.no_duplicates());
            c
        },
        Lineage::NeedParent(p) => {
            let q = parent(p)->0;
            let seen2 = seen.push(p);
            assert(seen2.no_duplicates()) by {
                assert forall|i: int, j: int|
                    0 <= i < seen2.len() && 0 <= j < seen2.len() && i != j implies seen2[i]
                    != seen2[j] by {
                    if i < seen.len() && j < seen.len() {
                        assert(seen2[i] == seen[i] && seen2[j] == seen[j]);
                    } else if i < seen.len() {
                        assert(seen2[i] == seen[i]);
                    } else {
                        assert(seen2[j] == seen[j]);
                    }
                }
            }
            let rest = lemma_descends_gives_path(q, ancestor, parent, seen2);
            let c = seq![p] + rest;
            assert(!rest.contains(p)) by {
                if rest.contains(p) {
                    let i = choose|i: int| 0 <= i < rest.len() && rest[i] == p;
                    assert(seen2[seen.len() as int] == p);
                    assert(seen2.contains(rest[i]));
                }
            }
            assert forall|i: int| 0 <= i < c.len() implies !seen.contains(#[trigger] c[i]) by {
                if i > 0 {
                    assert(c[i] == rest[i - 1]);
                    if seen.contains(c[i]) {
                        let j = choose|j: int| 0 <= j < seen.len() && seen[j] == c[i];
                        assert(seen2[j] == c[i]);
                    }
                }
            }
            assert(c.no_duplicates()) by {
                assert forall|i: int, j: int| 0 <= i < c.len() && 0 <= j < c.len() && i != j implies c[i] != c[j] by {
                    if i > 0 && j > 0 {
                        assert(c[i] == rest[i - 1] && c[j] == rest[j - 1]);
                    } else if i == 0 {
                        assert(c[j] == rest[j - 1]);
                    } else {
                        assert(c[i] == rest[i - 1]);
                    }
                }
            }
            assert forall|i: int| 0 <= i < c.len() implies 1 < #[trigger] c[i] by {
                if i > 0 {
                    assert(c[i] == rest[i - 1]);
                }
            }
            assert forall|i: int| 0 <= i < c.len() - 1 implies parent(#[trigger] c[i]) == Some(
                c[i + 1],
            ) by {
                if i > 0 {
                    assert(c[i] == rest[i - 1]);
                    assert(c[i + 1] == rest[i]);
                } else {
                    assert(c[1] == rest[0]);
                }
            }
            assert(c.last() == rest.last());
            c
        },
        Lineage::Unrelated => {
            assert(false);
            Seq::empty()
        },
    }
}

/// The ancestry walk from `pid` ends with "descends" exactly when a path of
/// distinct processes above 1, each the parent of the one before, leads
/// from `pid` to `ancestor`.
pub proof fn law_walk_descends_iff_path(
    pid: i32,
    ancestor: i32,
    parent: spec_fn(i32) -> Option<i32>,
)
    ensures
        walk_outcome(pid, ancestor, parent, Seq::empty()) <==> exists|c: Seq<i32>|
            lineage_path(c, pid, ancestor, parent),
{
    if walk_outcome(pid, ancestor, parent, Seq::empty()) {
        let c = lemma_descends_gives_path(pid, ancestor, parent, Seq::empty());
        assert(lineage_path(c, pid, ancestor, parent));
    }
    if exists|c: Seq<i32>| lineage_path(c, pid, ancestor, parent) {
        let c = choose|c: Seq<i32>| lineage_path(c, pid, ancestor, parent);
        lemma_path_gives_descends(c, 0, ancestor, parent);
        assert(c.take(0) =~= Seq::<i32>::empty());
    }
}

// ---------------------------------------------------------------------------
// The parent of a process, from /proc/PID/stat
// ---------------------------------------------------------------------------

/// Whether `c` is white space in Unicode's sense, as `char::is_whitespace`
/// decides.
pub open spec fn is_white(c: char) -> bool {
    ||| c == ' '
    ||| ('\t' <= c <= '\r')
    ||| c == '\u{85}'
    ||| c == '\u{a0}'
    ||| c == '\u{1680}'
    ||| ('\u{2000}' <= c <= '\u{200a}')
    ||| c == '\u{2028}'
    ||| c == '\u{2029}'
    ||| c == '\u{202f}'
    ||| c == '\u{205f}'
    ||| c == '\u{3000}'
}

fn white(c: char) -> (r: bool)
    ensures
        r == is_white(c),
{
    c == ' ' || ('\t' <= c && c <= '\r') || c == '\u{85}' || c == '\u{a0}' || c == '\u{1680}'
        || ('\u{2000}' <= c && c <= '\u{200a}') || c == '\u{2028}' || c == '\u{2029}' || c
        == '\u{202f}' || c == '\u{205f}' || c == '\u{3000}'
}

/// The text after the last `") "` of a stat line, if it holds one.
pub open spec fn after_command_name(stat: Seq<char>) -> Option<Seq<char>>
    decreases stat.len(),
{
    if stat.len() < 2 {
        None
    } else if stat[stat.len() - 2] == ')' && stat[stat.len() - 1] == ' ' {
        Some(Seq::empty())
    } else {
        match after_command_name(stat.drop_last()) {
            Some(rest) => Some(rest.push(stat.last())),
            None => None,
        }
    }
}

/// The white-space separated words of a text, in order.
pub open spec fn words(s: Seq<char>) -> Seq<Seq<char>>
    decreases s.len(),
{
    if s.len() == 0 {
        Seq::empty()
    } else {
        let ws = words(s.drop_last());
        if is_white(s.last()) {
            ws
        } else if s.len() >= 2 && !is_white(s[s.len() - 2]) && ws.len() > 0 {
            ws.drop_last().push(ws.last().push(s.last()))
        } else {
            ws.push(seq![s.last()])
        }
    }
}

/// The parent process ID in the text of `/proc/PID/stat`: the second word
/// after the command name (which ends at the last `") "`), read as an `i32`.
pub open spec fn stat_parent(stat: Seq<char>) -> Option<i32> {
    match after_command_name(stat) {
        Some(rest) => {
            let ws = words(rest);
            if ws.len() >= 2 {
                match signed_decimal(ws[1]) {
                    Some(v) => if i32::MIN <= v <= i32::MAX {
                        Some(v as i32)
                    } else {
                        None
                    },
                    None => None,
                }
            } else {
                None
            }
        },
        None => None,
    }
}

/// The words of `cs[from..]`, computed left to right.
fn split_words(cs: &Vec<char>, from: usize) -> (r: Vec<Vec<char>>)
    requires
        from <= cs.len(),
    ensures
        r@.len() == words(cs@.skip(from as int)).len(),
        forall|i: int| 0 <= i < r@.len() ==> (#[trigger] r@[i])@ == words(cs@.skip(from as int))[i],
{
    let ghost s = cs@.skip(from as int);
    let mut out: Vec<Vec<char>> = Vec::new();
    let mut i: usize = from;
    assert(s.take(0) =~= Seq::<char>::empty());
    while i < cs.len()
        invariant
            from <= i <= cs.len(),
            s == cs@.skip(from as int),
            out@.len() == words(s.take(i - from)).len(),
            forall|k: int| 0 <= k < out@.len() ==> (#[trigger] out@[k])@ == words(s.take(i - from))[k],
        decreases cs.len() - i,
    {
        let c = cs[i];
        let ghost t = s.take(i + 1 - from);
        assert(t.drop_last() =~= s.take(i - from));
        assert(t.last() == c);
        if white(c) {
        } else if i > from && !white(cs[i - 1]) && out.len() > 0 {
            assert(t[t.len() - 2] == cs@[i - 1]);
            let mut last = out.pop().unwrap();
            last.push(c);
            out.push(last);
        } else {
            if i > from {
                assert(t[t.len() - 2] == cs@[i - 1]);
            }
            let mut w: Vec<char> = Vec::new();
            w.push(c);
            assert(w@ =~= seq![c]);
            out.push(w);
        }
        i = i + 1;
        proof {
            let ws = words(s.take(i - from));
            assert forall|k: int| 0 <= k < out@.len() implies (#[trigger] out@[k])@ == ws[k] by {}
        }
    }
    assert(s.take(i - from) =~= s);
    out
}

/// Reads the parent process ID from the text of `/proc/PID/stat`.
pub fn parse_parent_pid(stat: &str) -> (r: Option<i32>)
    ensures
        r == stat_parent(stat@),
{
    let cs = chars_of(stat);
    // find the last ") "
    let mut end: usize = cs.len();
    let mut found = false;
    assert(cs@.take(end as int) =~= cs@);
    assert(cs@ + cs@.skip(end as int) =~= cs@);
    proof {
        match after_command_name(cs@) {
            Some(rest) => {
                assert(rest + cs@.skip(end as int) =~= rest);
            },
            None => {},
        }
    }
    while end >= 2 && !found
        invariant
            end <= cs.len(),
            found ==> end >= 2 && cs@[end - 2] == ')' && cs@[end - 1] == ' ',
            !found ==> after_command_name(cs@) == match after_command_name(cs@.take(end as int)) {
                Some(rest) => Some(rest + cs@.skip(end as int)),
                None => None,
            },
            found ==> after_command_name(cs@) == Some(cs@.skip(end as int)),
        decreases end + (if found { 0int } else { 1int }),
    {
        let ghost t = cs@.take(end as int);
        if cs[end - 2] == ')' && cs[end - 1] == ' ' {
            assert(after_command_name(t) == Some(Seq::<char>::empty()));
            assert(Seq::<char>::empty() + cs@.skip(end as int) =~= cs@.skip(end as int));
            found = true;
        } else {
            assert(t.drop_last() =~= cs@.take(end - 1));
            assert(cs@.skip(end - 1) =~= seq![t.last()] + cs@.skip(end as int));
            proof {
                match after_command_name(t.drop_last()) {
                    Some(rest) => {
                        assert(rest.push(t.last()) + cs@.skip(end as int) =~= rest + cs@.skip(
                            end - 1,
                        ));
                    },
                    None => {},
                }
            }
            end = end - 1;
        }
    }
    if !found {
        assert(after_command_name(cs@.take(end as int)) is None);
        return None;
    }
    let ws = split_words(&cs, end);
    if ws.len() < 2 {
        return None;
    }
    let second = crate::text::string_of(&ws[1]);
    parse_i32(second.as_str())
}

// ---------------------------------------------------------------------------
// Waiting for the new window
// ---------------------------------------------------------------------------

/// How long a lone unmatched new window waits before it is taken, in
/// nanoseconds.
pub const FALLBACK_MATCH_DELAY_NS: u64 = 300_000_000;

/// Pending windows after a window is seen at `now`: where `refresh` holds,
/// the window replaces any entry with its ID (and is seen anew); otherwise
/// an existing entry is kept.
pub open spec fn note_window(
    pending: Map<u64, (Window, u64)>,
    w: Window,
    now: u64,
    refresh: bool,
) -> Map<u64, (Window, u64)> {
    if pending.contains_key(w.id) && !refresh {
        pending
    } else {
        pending.insert(w.id, (w, now))
    }
}

/// What the wait knows and decides with.
pub struct WaitRules {
    /// The IDs of the windows that existed before the launch.
    pub baseline: Set<u64>,
    /// The command name, matched against app IDs.
    pub command_app_id: Seq<char>,
    /// The app ID to match exactly, where one was given.
    pub explicit_app_id: Option<Seq<char>>,
}

/// The outcome of seeing one window: the pending windows after it, and the
/// window where it is the launched one.
pub open spec fn see_window(
    rules: WaitRules,
    pending: Map<u64, (Window, u64)>,
    w: Window,
    descends: bool,
    now: u64,
    refresh: bool,
) -> (Map<u64, (Window, u64)>, Option<Window>) {
    if rules.baseline.contains(w.id) {
        (pending, None)
    } else if strong_match(w, descends, rules.command_app_id, rules.explicit_app_id) {
        (pending, Some(w))
    } else {
        (note_window(pending, w, now, refresh), None)
    }
}

/// The lineage answer given for the `i`-th window of an event (none given
/// counts as no).
pub open spec fn flag(ds: Seq<bool>, i: int) -> bool {
    0 <= i < ds.len() && ds[i]
}

/// The outcome of seeing the windows `ws[i..]` in order, stopping at the
/// first launched one.
pub open spec fn see_windows(
    rules: WaitRules,
    pending: Map<u64, (Window, u64)>,
    ws: Seq<Window>,
    ds: Seq<bool>,
    now: u64,
    i: int,
) -> (Map<u64, (Window, u64)>, Option<Window>)
    decreases ws.len() - i,
{
    if i >= ws.len() || i < 0 {
        (pending, None)
    } else {
        let (next, found) = see_window(rules, pending, ws[i], flag(ds, i), now, false);
        if found is Some {
            (next, found)
        } else {
            see_windows(rules, next, ws, ds, now, i + 1)
        }
    }
}

/// The outcome of an event: opened or changed windows are seen (a single
/// changed window refreshes its entry), a closed window leaves the pending
/// ones, and other events change nothing.
pub open spec fn see_event(
    rules: WaitRules,
    pending: Map<u64, (Window, u64)>,
    event: Event,
    ds: Seq<bool>,
    now: u64,
) -> (Map<u64, (Window, u64)>, Option<Window>) {
    match event {
        Event::WindowOpenedOrChanged(w) => see_window(rules, pending, w, flag(ds, 0), now, true),
        Event::WindowsChanged(ws) => see_windows(rules, pending, ws@, ds, now, 0),
        Event::WindowClosed(id) => (pending.remove(id), None),
        _ => (pending, None),
    }
}

/// The windows of an event that are seen.
pub open spec fn event_windows(event: Event) -> Seq<Window> {
    match event {
        Event::WindowOpenedOrChanged(w) => seq![w],
        Event::WindowsChanged(ws) => ws@,
        _ => Seq::empty(),
    }
}

/// Each pending window is held under its own ID, and none is of the
/// baseline.
pub open spec fn pending_ok(pending: Map<u64, (Window, u64)>, baseline: Set<u64>) -> bool {
    forall|id: u64|
        #[trigger] pending.contains_key(id) ==> pending[id].0.id == id && !baseline.contains(id)
}

/// The only pending entry, where exactly one window is pending.
pub open spec fn lone_entry(pending: Map<u64, (Window, u64)>) -> Option<(Window, u64)> {
    if pending.dom().len() == 1 {
        Some(pending[pending.dom().choose()])
    } else {
        None
    }
}

/// The window taken without a certain match: the only pending window, once
/// it has waited for the fallback delay.
pub open spec fn fallback_window(pending: Map<u64, (Window, u64)>, now: u64) -> Option<Window> {
    match lone_entry(pending) {
        Some(e) => if now >= e.1 && now - e.1 >= FALLBACK_MATCH_DELAY_NS {
            Some(e.0)
        } else {
            None
        },
        None => None,
    }
}

/// The state of the wait for the launched application's window.
pub struct WindowWait {
    baseline: HashSet<u64>,
    command_app_id: String,
    explicit_app_id: Option<String>,
    deadline: u64,
    pending: HashMap<u64, (Window, u64)>,
}

impl WindowWait {
    #[verifier::type_invariant]
    spec fn well_formed(self) -> bool {
        pending_ok(self.pending@, self.baseline@)
    }

    /// The rules the wait decides by.
    pub closed spec fn rules(self) -> WaitRules {
        WaitRules {
            baseline: self.baseline@,
            command_app_id: self.command_app_id@,
            explicit_app_id: opt_view(self.explicit_app_id),
        }
    }

    /// The windows seen that are neither old nor certainly the launched one,
    /// by ID, each with the time it was last seen anew.
    pub closed spec fn pending(self) -> Map<u64, (Window, u64)> {
        self.pending@
    }

    /// When the wait gives up, in nanoseconds from its start.
    pub closed spec fn deadline(self) -> u64 {
        self.deadline
    }

    /// Starts waiting, at time 0, for a window that is not in `baseline`.
    pub fn new(
        baseline: Vec<u64>,
        command_app_id: String,
        explicit_app_id: Option<String>,
        timeout_ns: u64,
    ) -> (w: Self)
        ensures
            w.rules() == (WaitRules {
                baseline: baseline@.to_set(),
                command_app_id: command_app_id@,
                explicit_app_id: opt_view(explicit_app_id),
            }),
            w.pending() == Map::<u64, (Window, u64)>::empty(),
            w.deadline() == timeout_ns,
    {
        let mut ids: HashSet<u64> = HashSet::new();
        let mut i: usize = 0;
        while i < baseline.len()
            invariant
                i <= baseline.len(),
                ids@ == baseline@.take(i as int).to_set(),
            decreases baseline.len() - i,
        {
            ids.insert(baseline[i]);
            assert(baseline@.take(i + 1) == baseline@.take(i as int).push(baseline@[i as int]));
            assert(ids@ =~= baseline@.take(i + 1).to_set()) by {
                vstd::seq_lib::lemma_seq_contains_after_push(
                    baseline@.take(i as int),
                    baseline@[i as int],
                    baseline@[i as int],
                );
                assert forall|x: u64| ids@.contains(x) <==> baseline@.take(i + 1).contains(x) by {
                    vstd::seq_lib::lemma_seq_contains_after_push(
                        baseline@.take(i as int),
                        baseline@[i as int],
                        x,
                    );
                }
            }
            i = i + 1;
        }
        assert(baseline@.take(baseline.len() as int) =~= baseline@);
        let pending: HashMap<u64, (Window, u64)> = HashMap::new();
        WindowWait {
            baseline: ids,
            command_app_id,
            explicit_app_id,
            deadline: timeout_ns,
            pending,
        }
    }

    /// The only pending entry, where exactly one window is pending.
    fn lone(&self) -> (r: Option<(Window, u64)>)
        ensures
            r == lone_entry(self.pending()),
    {
        if self.pending.len() != 1 {
            return None;
        }
        let mut out: Option<(Window, u64)> = None;
        proof {
            Set::<u64>::lemma_is_singleton(self.pending@.dom());
        }
        for e in it: self.pending.values()
            invariant
                self.pending@.dom().len() == 1,
                self.pending@.dom().is_singleton(),
                it.seq().len() == 1,
                it.seq().unref().to_set() == self.pending@.values(),
                out == (if it.index() == 0 {
                    None
                } else {
                    Some(*it.seq()[0])
                }),
                out is Some ==> self.pending@.values().contains(out->0),
        {
            if out.is_none() {
                out = Some((e.0.clone(), e.1));
                proof {
                    assert(it.seq().unref()[0] == *e);
                }
            }
        }
        out
    }

    /// The window to take at `now` without a certain match, if any; never a
    /// window that existed before the launch.
    pub fn fallback(&self, now: u64) -> (r: Option<Window>)
        ensures
            r == fallback_window(self.pending(), now),
            r matches Some(w) ==> !self.rules().baseline.contains(w.id),
    {
        proof {
            use_type_invariant(self);
        }
        match self.lone() {
            Some((w, seen)) => {
                proof {
                    let k = self.pending@.dom().choose();
                    assert(self.pending@.contains_key(k));
                }
                if now >= seen && now - seen >= FALLBACK_MATCH_DELAY_NS {
                    Some(w)
                } else {
                    None
                }
            },
            None => None,
        }
    }

    /// When to stop waiting for the next event: the deadline, or earlier
    /// when a lone pending window will be taken before it.
    pub fn poll_deadline(&self) -> (r: u64)
        ensures
            r == (match lone_entry(self.pending()) {
                Some(e) => {
                    let fallback = if e.1 + FALLBACK_MATCH_DELAY_NS > u64::MAX {
                        u64::MAX as int
                    } else {
                        e.1 + FALLBACK_MATCH_DELAY_NS
                    };
                    if fallback < self.deadline() {
                        fallback
                    } else {
                        self.deadline() as int
                    }
                },
                None => self.deadline() as int,
            }),
    {
        match self.lone() {
            Some((_, seen)) => {
                let fallback = if seen > u64::MAX - FALLBACK_MATCH_DELAY_NS {
                    u64::MAX
                } else {
                    seen + FALLBACK_MATCH_DELAY_NS
                };
                if fallback < self.deadline {
                    fallback
                } else {
                    self.deadline
                }
            },
            None => self.deadline,
        }
    }

    /// Whether the wait has run out at `now`.
    pub fn expired(&self, now: u64) -> (r: bool)
        ensures
            r == (now >= self.deadline()),
    {
        now >= self.deadline
    }

    /// For each window of `event`, the process whose ancestry has to be
    /// looked up to decide on it, if any.
    pub fn lineage_queries(&self, event: &Event) -> (r: Vec<Option<i32>>)
        ensures
            r@.len() == event_windows(*event).len(),
            forall|i: int|
                0 <= i < r@.len() ==> #[trigger] r@[i] == (if !self.rules().baseline.contains(
                    event_windows(*event)[i].id,
                ) && self.rules().explicit_app_id is None {
                    event_windows(*event)[i].pid
                } else {
                    None
                }),
    {
        let mut r: Vec<Option<i32>> = Vec::new();
        match event {
            Event::WindowOpenedOrChanged(w) => {
                r.push(self.query_for(w));
            },
            Event::WindowsChanged(ws) => {
                let mut i: usize = 0;
                while i < ws.len()
                    invariant
                        i <= ws.len(),
                        r@.len() == i,
                        forall|k: int|
                            0 <= k < i ==> #[trigger] r@[k] == (if !self.rules().baseline.contains(
                                ws@[k].id,
                            ) && self.rules().explicit_app_id is None {
                                ws@[k].pid
                            } else {
                                None
                            }),
                    decreases ws.len() - i,
                {
                    r.push(self.query_for(&ws[i]));
                    i = i + 1;
                }
            },
            _ => {},
        }
        r
    }

    fn query_for(&self, w: &Window) -> (r: Option<i32>)
        ensures
            r == (if !self.rules().baseline.contains(w.id) && self.rules().explicit_app_id
                is None {
                w.pid
            } else {
                None
            }),
    {
        if self.in_baseline(w.id) {
            None
        } else {
            match &self.explicit_app_id {
                Some(_) => None,
                None => w.pid,
            }
        }
    }

    fn in_baseline(&self, id: u64) -> (r: bool)
        ensures
            r == self.rules().baseline.contains(id),
    {
        self.baseline.contains(&id)
    }

    fn matches(&self, w: &Window, descends: bool) -> (r: bool)
        ensures
            r == strong_match(
                *w,
                descends,
                self.rules().command_app_id,
                self.rules().explicit_app_id,
            ),
    {
        let explicit = match &self.explicit_app_id {
            Some(s) => Some(s.as_str()),
            None => None,
        };
        is_strong_match(w, descends, self.command_app_id.as_str(), explicit)
    }

    fn see(&mut self, w: Window, descends: bool, now: u64, refresh: bool) -> (r: Option<Window>)
        ensures
            final(self).rules() == old(self).rules(),
            final(self).deadline() == old(self).deadline(),
            (final(self).pending(), r) == see_window(
                old(self).rules(),
                old(self).pending(),
                w,
                descends,
                now,
                refresh,
            ),
    {
        if self.in_baseline(w.id) {
            return None;
        }
        if self.matches(&w, descends) {
            return Some(w);
        }
        self.note(w, now, refresh);
        None
    }

    fn forget(&mut self, id: u64)
        ensures
            final(self).rules() == old(self).rules(),
            final(self).deadline() == old(self).deadline(),
            final(self).pending() == old(self).pending().remove(id),
    {
        proof {
            use_type_invariant(&*self);
        }
        let mut pending: HashMap<u64, (Window, u64)> = HashMap::new();
        std::mem::swap(&mut pending, &mut self.pending);
        pending.remove(&id);
        self.pending = pending;
    }

    /// Takes in an event seen at `now`; `descends[i]` tells whether the
    /// process of the event's `i`-th window descends from the launched one
    /// (see [`WindowWait::lineage_queries`]). Gives the launched window where
    /// the event shows it.
    pub fn handle(&mut self, event: Event, descends: &Vec<bool>, now: u64) -> (r: Option<Window>)
        ensures
            final(self).rules() == old(self).rules(),
            final(self).deadline() == old(self).deadline(),
            (final(self).pending(), r) == see_event(
                old(self).rules(),
                old(self).pending(),
                event,
                descends@,
                now,
            ),
    {
        match event {
            Event::WindowOpenedOrChanged(w) => {
                let d = descends.len() > 0 && descends[0];
                self.see(w, d, now, true)
            },
            Event::WindowsChanged(ws) => {
                let ghost rules = self.rules();
                let ghost start = self.pending();
                let ghost all = ws@;
                let ghost goal = see_event(rules, start, event, descends@, now);
                assert(goal == see_windows(rules, start, all, descends@, now, 0));
                let n = ws.len();
                let mut rest = ws;
                let mut i: usize = 0;
                while i < n
                    invariant
                        i <= n,
                        n == all.len(),
                        rest@ == all.skip(i as int),
                        self.rules() == rules,
                        rules == old(self).rules(),
                        start == old(self).pending(),
                        goal == see_event(old(self).rules(), old(self).pending(), event, descends@, now),
                        self.deadline() == old(self).deadline(),
                        goal == see_windows(
                            rules,
                            self.pending(),
                            all,
                            descends@,
                            now,
                            i as int,
                        ),
                    decreases n - i,
                {
                    let w = rest.remove(0);
                    assert(w == all[i as int]);
                    assert(rest@ =~= all.skip(i + 1));
                    let d = i < descends.len() && descends[i];
                    let found = self.see(w, d, now, false);
                    if found.is_some() {
                        return found;
                    }
                    i = i + 1;
                }
                None
            },
            Event::WindowClosed(id) => {
                self.forget(id);
                None
            },
            _ => None,
        }
    }

    fn note(&mut self, w: Window, now: u64, refresh: bool)
        requires
            !old(self).rules().baseline.contains(w.id),
        ensures
            final(self).rules() == old(self).rules(),
            final(self).deadline() == old(self).deadline(),
            final(self).pending() == note_window(old(self).pending(), w, now, refresh),
    {
        proof {
            use_type_invariant(&*self);
        }
        let id = w.id;
        if refresh || !self.pending.contains_key(&id) {
            let mut pending: HashMap<u64, (Window, u64)> = HashMap::new();
            std::mem::swap(&mut pending, &mut self.pending);
            pending.insert(id, (w, now));
            self.pending = pending;
        }
    }
}

// ---------------------------------------------------------------------------
// Planning a launch
// ---------------------------------------------------------------------------

/// A path's text without what ends it and names no component: trailing
/// separators, and a `.` that follows a separator.
pub open spec fn trim_path_end(p: Seq<char>) -> Seq<char>
    decreases p.len(),
{
    if p.len() > 0 && p.last() == '/' {
        trim_path_end(p.drop_last())
    } else if p.len() >= 2 && p.last() == '.' && p[p.len() - 2] == '/' {
        trim_path_end(p.drop_last())
    } else {
        p
    }
}

/// The text after the last `/`, or all of it where there is none.
pub open spec fn after_last_slash(p: Seq<char>) -> Seq<char>
    decreases p.len(),
{
    if p.len() == 0 {
        p
    } else if p.last() == '/' {
        Seq::empty()
    } else {
        after_last_slash(p.drop_last()).push(p.last())
    }
}

/// The file name of a path given as text: its last component, where that is
/// a name rather than the root, `.` or `..`. Components are separated by
/// `/`; repeated separators, a trailing separator and a `.` after a
/// separator are normalized away.
pub open spec fn path_file_name(path: Seq<char>) -> Option<Seq<char>> {
    let last = after_last_slash(trim_path_end(path));
    if last.len() == 0 || last == "."@ || last == ".."@ {
        None
    } else {
        Some(last)
    }
}

/// `Path::file_name` of std, on a path given as text. Its documentation, with
/// that of `Path::components`, gives the result as `path_file_name` states
/// it, for the `/` separator of Unix; a `&str` always reads back as text.
#[verifier::external_body]
fn file_name(path: &str) -> (r: Option<String>)
    ensures
        opt_view(r) == path_file_name(path@),
{
    match std::path::Path::new(path).file_name() {
        Some(name) => match name.to_str() {
            Some(s) => Some(s.to_owned()),
            None => None,
        },
        None => None,
    }
}

/// The app ID expected of a command's windows: the file name of the
/// executable, or the executable as given where it has none.
pub open spec fn command_app_id_of(executable: Seq<char>) -> Seq<char> {
    match path_file_name(executable) {
        Some(name) => name,
        None => executable,
    }
}

/// The workspace is focused.
pub open spec fn focused_workspace() -> spec_fn(Workspace) -> bool {
    |w: Workspace| w.is_focused
}

/// The window is focused.
pub open spec fn focused_window() -> spec_fn(Window) -> bool {
    |w: Window| w.is_focused
}

/// The ID of the first focused window, if any.
pub open spec fn focused_window_id(windows: Seq<Window>) -> Option<u64> {
    match first_where(windows, focused_window()) {
        Some(w) => Some(w.id),
        None => None,
    }
}

/// The workspace to keep the window on when tracking is asked for and no
/// target is given: the one focused at launch.
pub open spec fn tracked_workspace_of(args: LaunchArgs, workspaces: Seq<Workspace>) -> Option<u64> {
    if args.track_workspace && args.workspace is None && args.workspace_id is None {
        match first_where(workspaces, focused_workspace()) {
            Some(w) => Some(w.id),
            None => None,
        }
    } else {
        None
    }
}

/// What a launch is set to do before the process starts.
#[derive(Debug)]
pub struct LaunchPlan {
    /// The workspace focused at launch, where it is to be tracked.
    pub tracked_workspace: Option<u64>,
    /// The workspace the arguments name, if any.
    pub target: Option<Workspace>,
    /// The window focused at launch, if any.
    pub original_focus: Option<u64>,
    /// The IDs of the windows that existed at launch.
    pub baseline: Vec<u64>,
    /// The program to run.
    pub executable: String,
    /// Its arguments.
    pub arguments: Vec<String>,
    /// The app ID its windows are expected to have.
    pub command_app_id: String,
}

/// Why a launch cannot start.
#[derive(Debug)]
pub enum LaunchError {
    /// The target workspace could not be resolved.
    Resolve(ResolveError),
    /// No command was given.
    NoCommand,
}

/// The plan for a launch with `args` in state `initial`; resolving the
/// target workspace is checked before the command.
pub open spec fn plan_matches(p: LaunchPlan, args: LaunchArgs, initial: InitialState) -> bool {
    &&& p.tracked_workspace == tracked_workspace_of(args, initial.workspaces@)
    &&& resolve_spec(
        initial.workspaces@,
        opt_view(args.workspace),
        args.workspace_id,
        opt_view(args.output),
    ) == Ok::<Option<Workspace>, ResolveFailure>(p.target)
    &&& p.original_focus == focused_window_id(initial.windows@)
    &&& p.baseline@ == initial.windows@.map_values(|w: Window| w.id)
    &&& p.executable@ == args.command@[0]@
    &&& strings_view(p.arguments) == strings_view(args.command).drop_first()
    &&& p.command_app_id@ == command_app_id_of(args.command@[0]@)
}

fn first_focused_workspace(ws: &Vec<Workspace>) -> (r: Option<u64>)
    ensures
        r == (match first_where(ws@, focused_workspace()) {
            Some(w) => Some(w.id),
            None => None,
        }),
{
    let mut i: usize = 0;
    while i < ws.len()
        invariant
            i <= ws.len(),
            first_where(ws@.take(i as int), focused_workspace()) is None,
        decreases ws.len() - i,
    {
        proof {
            lemma_first_where_step(ws@, focused_workspace(), i as int);
        }
        if ws[i].is_focused {
            proof {
                lemma_first_where_prefix(ws@, focused_workspace(), i + 1);
            }
            return Some(ws[i].id);
        }
        i = i + 1;
    }
    assert(ws@.take(ws.len() as int) =~= ws@);
    None
}

fn first_focused_window(ws: &[Window]) -> (r: Option<u64>)
    ensures
        r == focused_window_id(ws@),
{
    let mut i: usize = 0;
    while i < ws.len()
        invariant
            i <= ws.len(),
            first_where(ws@.take(i as int), focused_window()) is None,
        decreases ws.len() - i,
    {
        proof {
            lemma_first_where_step(ws@, focused_window(), i as int);
        }
        if ws[i].is_focused {
            proof {
                lemma_first_where_prefix(ws@, focused_window(), i + 1);
            }
            return Some(ws[i].id);
        }
        i = i + 1;
    }
    assert(ws@.take(ws.len() as int) =~= ws@);
    None
}

/// Decides what a launch will do before it starts: the workspace to track,
/// the target workspace, the window to return focus to, the windows that
/// already exist, and what to run.
pub fn plan_launch(args: &LaunchArgs, initial: &InitialState) -> (r: Result<LaunchPlan, LaunchError>)
    ensures
        match resolve_spec(
            initial.workspaces@,
            opt_view(args.workspace),
            args.workspace_id,
            opt_view(args.output),
        ) {
            Err(f) => r matches Err(LaunchError::Resolve(e)) && e@ == f,
            Ok(_) => if args.command@.len() == 0 {
                r matches Err(LaunchError::NoCommand)
            } else {
                r matches Ok(p) && plan_matches(p, *args, *initial)
            },
        },
{
    let tracked_workspace = if args.track_workspace && args.workspace.is_none()
        && args.workspace_id.is_none() {
        first_focused_workspace(&initial.workspaces)
    } else {
        None
    };
    let workspace = match &args.workspace {
        Some(s) => Some(s.as_str()),
        None => None,
    };
    let output = match &args.output {
        Some(s) => Some(s.as_str()),
        None => None,
    };
    let target = match resolve_workspace(
        initial.workspaces.as_slice(),
        workspace,
        args.workspace_id,
        output,
    ) {
        Ok(t) => t,
        Err(e) => {
            return Err(LaunchError::Resolve(e));
        },
    };
    let original_focus = first_focused_window(initial.windows.as_slice());
    let mut baseline: Vec<u64> = Vec::new();
    let mut i: usize = 0;
    while i < initial.windows.len()
        invariant
            i <= initial.windows.len(),
            baseline@ == initial.windows@.take(i as int).map_values(|w: Window| w.id),
        decreases initial.windows.len() - i,
    {
        baseline.push(initial.windows[i].id);
        i = i + 1;
        assert(baseline@ =~= initial.windows@.take(i as int).map_values(|w: Window| w.id));
    }
    assert(initial.windows@.take(i as int) =~= initial.windows@);
    if args.command.len() == 0 {
        return Err(LaunchError::NoCommand);
    }
    let executable = args.command[0].clone();
    let mut arguments: Vec<String> = Vec::new();
    let mut k: usize = 1;
    while k < args.command.len()
        invariant
            1 <= k <= args.command.len(),
            strings_view(arguments) == strings_view(args.command).subrange(1, k as int),
        decreases args.command.len() - k,
    {
        let ghost before = strings_view(arguments);
        arguments.push(args.command[k].clone());
        assert(strings_view(arguments) =~= before.push(args.command@[k as int]@));
        k = k + 1;
        assert(strings_view(args.command).subrange(1, k as int) =~= before.push(
            args.command@[k - 1]@,
        ));
    }
    assert(strings_view(args.command).subrange(1, k as int) =~= strings_view(
        args.command,
    ).drop_first());
    let command_app_id = match file_name(executable.as_str()) {
        Some(name) => name,
        None => executable.clone(),
    };
    Ok(
        LaunchPlan {
            tracked_workspace,
            target,
            original_focus,
            baseline,
            executable,
            arguments,
            command_app_id,
        },
    )
}

/// The message shown for a failure to start a launch.
pub open spec fn launch_failure_text(e: LaunchError) -> Seq<char> {
    match e {
        LaunchError::Resolve(r) => crate::model::resolve_failure_text(r@),
        LaunchError::NoCommand => "no launch command provided"@,
    }
}

impl LaunchError {
    /// The message shown for this failure.
    pub fn message(&self) -> (m: String)
        ensures
            m@ == launch_failure_text(*self),
    {
        match self {
            LaunchError::Resolve(e) => e.message(),
            LaunchError::NoCommand => crate::text::owned("no launch command provided"),
        }
    }
}

// ---------------------------------------------------------------------------
// Placing the new window
// ---------------------------------------------------------------------------

/// The workspace the window is to end up on: the target, else the tracked one.
pub open spec fn effective_target(target: Option<Workspace>, tracked_id: Option<u64>) -> Option<u64> {
    match target {
        Some(w) => Some(w.id),
        None => tracked_id,
    }
}

/// The action that moves the focused column as `position` says.
pub open spec fn column_action(position: Position) -> Action {
    match position {
        Position::First => Action::MoveColumnToFirst,
        Position::Last => Action::MoveColumnToLast,
        Position::Index(i) => Action::MoveColumnToIndex { index: i },
    }
}

/// The actions that place the launched window, in order: move it to the
/// effective target unless it is already there (following it with the focus
/// unless `no_focus`); focus it and move its column where a position is
/// given; and, without `no_focus`, focus it where neither a move nor a
/// placement did.
pub open spec fn placement_actions(
    window: Window,
    target: Option<u64>,
    position: Option<Position>,
    no_focus: bool,
) -> Seq<Action> {
    let moves = match target {
        Some(t) => if window.workspace_id != Some(t) {
            seq![Action::MoveWindowToWorkspace { window_id: window.id, workspace_id: t, focus: !no_focus }]
        } else {
            Seq::empty()
        },
        None => Seq::empty(),
    };
    let places = match position {
        Some(p) => seq![Action::FocusWindow { id: window.id }, column_action(p)],
        None => Seq::empty(),
    };
    let focuses = if !no_focus && target is None && position is None {
        seq![Action::FocusWindow { id: window.id }]
    } else {
        Seq::empty()
    };
    moves + places + focuses
}

/// What remains to do once the window has appeared.
#[derive(Debug)]
pub struct LaunchFinish {
    /// The actions to ask niri for, in order.
    pub actions: Vec<Action>,
    /// The window to give the focus back to, where `--no-focus` asks for it.
    pub restore_focus_to: Option<u64>,
}

/// Decides what to ask niri once the launched window has appeared.
pub fn finish_launch(plan: &LaunchPlan, args: &LaunchArgs, window: &Window) -> (r: LaunchFinish)
    ensures
        r.actions@ == placement_actions(
            *window,
            effective_target(plan.target, plan.tracked_workspace),
            args.position,
            args.no_focus,
        ),
        r.restore_focus_to == (if args.no_focus {
            plan.original_focus
        } else {
            None
        }),
{
    let target = match &plan.target {
        Some(w) => Some(w.id),
        None => plan.tracked_workspace,
    };
    let ghost expected = placement_actions(*window, target, args.position, args.no_focus);
    let mut actions: Vec<Action> = Vec::new();
    if let Some(t) = target {
        let on_target = match window.workspace_id {
            Some(w) => w == t,
            None => false,
        };
        if !on_target {
            actions.push(
                Action::MoveWindowToWorkspace { window_id: window.id, workspace_id: t, focus: !args.no_focus },
            );
        }
    }
    if let Some(p) = args.position {
        actions.push(Action::FocusWindow { id: window.id });
        let column = match p {
            Position::First => Action::MoveColumnToFirst,
            Position::Last => Action::MoveColumnToLast,
            Position::Index(i) => Action::MoveColumnToIndex { index: i },
        };
        actions.push(column);
    }
    if !args.no_focus && target.is_none() && args.position.is_none() {
        actions.push(Action::FocusWindow { id: window.id });
    }
    assert(actions@ =~= expected);
    LaunchFinish { actions, restore_focus_to: if args.no_focus { plan.original_focus } else { None } }
}

/// Whether the focus goes back to `original_focus` once the window has
/// been placed: where the launched window, or the original one, holds the
/// focus (focusing the original again also scrolls it back into view).
pub open spec fn restores_focus(original_focus: u64, windows: Seq<Window>, launched_id: u64) -> bool {
    let current = focused_window_id(windows);
    current == Some(launched_id) || current == Some(original_focus)
}

/// Decides whether to give the focus back to `original_focus`, given the
/// windows as niri reports them after the placement.
pub fn restore_focus_needed(original_focus: u64, windows: &[Window], launched_id: u64) -> (r: bool)
    ensures
        r == restores_focus(original_focus, windows@, launched_id),
{
    match first_focused_window(windows) {
        Some(id) => id == launched_id || id == original_focus,
        None => false,
    }
}

// ---------------------------------------------------------------------------
// Laws
// ---------------------------------------------------------------------------

/// Seeing windows in order never yields a window that existed before the
/// launch, nor one that is not among the windows seen.
pub proof fn law_seen_windows_are_new(
    rules: WaitRules,
    pending: Map<u64, (Window, u64)>,
    ws: Seq<Window>,
    ds: Seq<bool>,
    now: u64,
    i: int,
)
    ensures
        see_windows(rules, pending, ws, ds, now, i).1 matches Some(w) ==> !rules.baseline.contains(
            w.id,
        ) && ws.contains(w),
    decreases ws.len() - i,
{
    if 0 <= i < ws.len() {
        let (next, found) = see_window(rules, pending, ws[i], flag(ds, i), now, false);
        if found is None {
            law_seen_windows_are_new(rules, next, ws, ds, now, i + 1);
        }
    }
}

/// The window an event yields is one of the event's windows, and not one
/// that existed before the launch.
pub proof fn law_event_window_is_new(
    rules: WaitRules,
    pending: Map<u64, (Window, u64)>,
    event: Event,
    ds: Seq<bool>,
    now: u64,
)
    ensures
        see_event(rules, pending, event, ds, now).1 matches Some(w) ==> !rules.baseline.contains(
            w.id,
        ) && event_windows(event).contains(w),
{
    match event {
        Event::WindowsChanged(ws) => {
            law_seen_windows_are_new(rules, pending, ws@, ds, now, 0);
        },
        Event::WindowOpenedOrChanged(w) => {
            assert(event_windows(event)[0] == w);
        },
        _ => {},
    }
}

/// Without a position, `--no-focus` never asks niri to focus the new window,
/// and a move to another workspace does not take the focus along.
pub proof fn law_no_focus_leaves_focus(window: Window, target: Option<u64>)
    ensures
        forall|i: int|
            0 <= i < placement_actions(window, target, None, true).len() ==> match #[trigger] placement_actions(
                window,
                target,
                None,
                true,
            )[i] {
                Action::FocusWindow { .. } => false,
                Action::MoveWindowToWorkspace { focus, .. } => !focus,
                _ => true,
            },
{
    let a = placement_actions(window, target, None, true);
    assert forall|i: int| 0 <= i < a.len() implies match #[trigger] a[i] {
        Action::FocusWindow { .. } => false,
        Action::MoveWindowToWorkspace { focus, .. } => !focus,
        _ => true,
    } by {
        match target {
            Some(t) => {
                if window.workspace_id != Some(t) {
                    assert(a =~= seq![Action::MoveWindowToWorkspace { window_id: window.id, workspace_id: t, focus: false }]);
                } else {
                    assert(a =~= Seq::<Action>::empty());
                }
            },
            None => {
                assert(a =~= Seq::<Action>::empty());
            },
        }
    }
}

/// With `--track-workspace` and no target given, a new window that opens
/// elsewhere is moved back to the workspace that was focused at launch, as
/// the first action.
pub proof fn law_tracked_workspace_keeps_window(
    plan: LaunchPlan,
    args: LaunchArgs,
    initial: InitialState,
    window: Window,
)
    requires
        plan_matches(plan, args, initial),
        args.track_workspace,
        args.workspace is None,
        args.workspace_id is None,
        first_where(initial.workspaces@, focused_workspace()) is Some,
        window.workspace_id != Some(first_where(initial.workspaces@, focused_workspace())->0.id),
    ensures
        ({
            let focused = first_where(initial.workspaces@, focused_workspace())->0;
            let actions = placement_actions(
                window,
                effective_target(plan.target, plan.tracked_workspace),
                args.position,
                args.no_focus,
            );
            actions.len() > 0 && actions[0] == Action::MoveWindowToWorkspace {
                window_id: window.id,
                workspace_id: focused.id,
                focus: !args.no_focus,
            }
        }),
{
}

/// With a position, the placement focuses the launched window and then
/// moves its column to the position asked for: the first column, the last
/// one, or the column index given.
pub proof fn law_position_moves_column_there(
    window: Window,
    target: Option<u64>,
    position: Position,
    no_focus: bool,
)
    ensures
        ({
            let a = placement_actions(window, target, Some(position), no_focus);
            &&& a.len() >= 2
            &&& a[a.len() - 2] == Action::FocusWindow { id: window.id }
            &&& position is First ==> a.last() == Action::MoveColumnToFirst
            &&& position is Last ==> a.last() == Action::MoveColumnToLast
            &&& position matches Position::Index(i) ==> a.last() == Action::MoveColumnToIndex {
                index: i,
            }
        }),
{
    let a = placement_actions(window, target, Some(position), no_focus);
    assert(a.len() >= 2);
    assert(a[a.len() - 2] == Action::FocusWindow { id: window.id });
}

/// Without a position, no column is moved.
pub proof fn law_no_position_moves_no_column(
    window: Window,
    target: Option<u64>,
    no_focus: bool,
)
    ensures
        forall|i: int|
            0 <= i < placement_actions(window, target, None, no_focus).len() ==> {
                let x = #[trigger] placement_actions(window, target, None, no_focus)[i];
                &&& !(x is MoveColumnToFirst)
                &&& !(x is MoveColumnToLast)
                &&& !(x is MoveColumnToIndex)
            },
{
    let a = placement_actions(window, target, None, no_focus);
    assert forall|i: int| 0 <= i < a.len() implies {
        let x = #[trigger] a[i];
        &&& !(x is MoveColumnToFirst)
        &&& !(x is MoveColumnToLast)
        &&& !(x is MoveColumnToIndex)
    } by {
        if a.len() > 1 {
            assert(a[1] == Action::FocusWindow { id: window.id });
        }
    }
}

} // verus!
