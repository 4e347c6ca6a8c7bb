//! Capability check for a proposed file write: granted only if the
//! proposed path, once fully resolved (symlinks and `..` included), stays
//! within the workspace root.
//!
//! Resolving a path reads the filesystem, so callers resolve both paths
//! first and hand the outcomes in as a [`Resolved`]; what this module
//! decides is containment, compared component by component the way
//! `std::path::Path::starts_with` compares Unix paths.
use vstd::prelude::*;

use crate::decision::{CapabilityDecision, DecisionView};
use crate::text::{chars_of, push_str, string_of};

verus! {

/// The outcomes of resolving the workspace root and the proposed path to
/// their canonical, symlink-free forms (or the resolution error's text).
#[derive(Debug, PartialEq, Eq)]
pub struct Resolved {
    pub root: Result<String, String>,
    pub proposed: Result<String, String>,
}

/// A path piece between separators is kept as a component unless it is
/// empty or the current-directory marker.
pub open spec fn kept_piece(p: Seq<char>) -> bool {
    p.len() > 0 && p != seq!['.']
}

/// Adds the finished piece `cur` to `parts` if it is kept.
pub open spec fn flush(parts: Seq<Seq<char>>, cur: Seq<char>) -> Seq<Seq<char>> {
    if kept_piece(cur) {
        parts.push(cur)
    } else {
        parts
    }
}

/// The kept pieces finished within the first `n` characters of `s`, and
/// the piece still being read.
pub open spec fn pieces_upto(s: Seq<char>, n: int) -> (Seq<Seq<char>>, Seq<char>)
    decreases n,
{
    if n <= 0 {
        (Seq::empty(), Seq::empty())
    } else {
        let (parts, cur) = pieces_upto(s, n - 1);
        if s[n - 1] == '/' {
            (flush(parts, cur), Seq::empty())
        } else {
            (parts, cur.push(s[n - 1]))
        }
    }
}

/// The non-empty pieces of `s` between `/` separators, without `.`.
pub open spec fn kept_pieces(s: Seq<char>) -> Seq<Seq<char>> {
    let (parts, cur) = pieces_upto(s, s.len() as int);
    flush(parts, cur)
}

/// The components of a Unix path, each written as its text: `/` for the
/// root, `.` for a leading current-directory marker of a relative path,
/// `..` for a parent marker, and the name itself for a normal component.
/// Repeated separators, trailing separators and inner `.` pieces are not
/// components.
pub open spec fn components(s: Seq<char>) -> Seq<Seq<char>> {
    let rooted = s.len() > 0 && s[0] == '/';
    let cur_dir = !rooted && s.len() > 0 && s[0] == '.' && (s.len() == 1 || s[1] == '/');
    (if rooted {
        seq![seq!['/']]
    } else {
        Seq::empty()
    }) + (if cur_dir {
        seq![seq!['.']]
    } else {
        Seq::empty()
    }) + kept_pieces(s)
}

/// A sequence of character vectors as character sequences.
pub open spec fn seqs_view(v: Seq<Vec<char>>) -> Seq<Seq<char>> {
    v.map_values(|x: Vec<char>| x@)
}

/// The components of `base` are a prefix of those of `path`.
pub open spec fn path_starts_with(path: Seq<char>, base: Seq<char>) -> bool {
    let p = components(path);
    let b = components(base);
    b.len() <= p.len() && p.subrange(0, b.len() as int) == b
}

fn flush_exec(parts: &mut Vec<Vec<char>>, cur: Vec<char>)
    ensures
        seqs_view(final(parts)@) == flush(
            seqs_view(old(parts)@),
            cur@,
        ),
{
    let ghost before = seqs_view(parts@);
    let keep = cur.len() > 0 && !(cur.len() == 1 && cur[0] == '.');
    assert(keep == kept_piece(cur@)) by {
        if cur@ == seq!['.'] {
            assert(cur@.len() == 1 && cur@[0] == '.');
        }
        if cur@.len() == 1 && cur@[0] == '.' {
            assert(cur@ =~= seq!['.']);
        }
    }
    if keep {
        parts.push(cur);
        assert(seqs_view(parts@) =~= before.push(cur@));
    }
}

/// The components of the path `s` (see [`components`]).
pub fn components_exec(s: &str) -> (out: Vec<Vec<char>>)
    ensures
        seqs_view(out@) == components(s@),
{
    let cs = chars_of(s);
    let n = cs.len();
    let rooted = n > 0 && cs[0] == '/';
    let cur_dir = !rooted && n > 0 && cs[0] == '.' && (n == 1 || cs[1] == '/');
    let mut out: Vec<Vec<char>> = Vec::new();
    if rooted {
        let mut r: Vec<char> = Vec::new();
        r.push('/');
        out.push(r);
    }
    if cur_dir {
        let mut d: Vec<char> = Vec::new();
        d.push('.');
        out.push(d);
    }
    let ghost head = seqs_view(out@);
    assert(head =~= (if rooted {
        seq![seq!['/']]
    } else {
        Seq::<Seq<char>>::empty()
    }) + (if cur_dir {
        seq![seq!['.']]
    } else {
        Seq::<Seq<char>>::empty()
    }));
    let mut cur: Vec<char> = Vec::new();
    let mut i: usize = 0;
    assert(seqs_view(out@) =~= head + pieces_upto(cs@, 0).0);
    while i < n
        invariant
            n == cs.len(),
            i <= n,
            seqs_view(out@) == head + pieces_upto(cs@, i as int).0,
            cur@ == pieces_upto(cs@, i as int).1,
        decreases n - i,
    {
        let c = cs[i];
        if c == '/' {
            let ghost before = seqs_view(out@);
            let finished = cur;
            cur = Vec::new();
            flush_exec(&mut out, finished);
            assert(seqs_view(out@) =~= head + pieces_upto(cs@, i + 1).0);
        } else {
            cur.push(c);
        }
        i += 1;
    }
    flush_exec(&mut out, cur);
    assert(seqs_view(out@) =~= head + kept_pieces(cs@));
    out
}

fn same_chars(a: &Vec<char>, b: &Vec<char>) -> (r: bool)
    ensures
        r == (a@ == b@),
{
    if a.len() != b.len() {
        return false;
    }
    let mut i: usize = 0;
    while i < a.len()
        invariant
            a.len() == b.len(),
            i <= a.len(),
            forall|j: int| 0 <= j < i ==> a@[j] == b@[j],
        decreases a.len() - i,
    {
        if a[i] != b[i] {
            assert(a@[i as int] != b@[i as int]);
            return false;
        }
        i += 1;
    }
    assert(a@ =~= b@);
    true
}

/// Whether `path` lies at or under `base`, component by component.
pub fn path_starts_with_exec(path: &str, base: &str) -> (r: bool)
    ensures
        r == path_starts_with(path@, base@),
{
    let p = components_exec(path);
    let b = components_exec(base);
    let ghost pv = seqs_view(p@);
    let ghost bv = seqs_view(b@);
    assert(pv.len() == p@.len() && bv.len() == b@.len());
    if b.len() > p.len() {
        return false;
    }
    let mut i: usize = 0;
    while i < b.len()
        invariant
            b.len() <= p.len(),
            i <= b.len(),
            pv == seqs_view(p@),
            bv == seqs_view(b@),
            pv == components(path@),
            bv == components(base@),
            forall|j: int| 0 <= j < i ==> pv[j] == bv[j],
        decreases b.len() - i,
    {
        if !same_chars(&p[i], &b[i]) {
            assert(pv.subrange(0, bv.len() as int)[i as int] != bv[i as int]);
            return false;
        }
        i += 1;
    }
    assert(pv.subrange(0, bv.len() as int) =~= bv);
    true
}

/// The decision for a proposed file write: denied if either path could not
/// be resolved, granted if the resolved proposed path lies at or under the
/// resolved workspace root, denied otherwise.
pub open spec fn file_write_decision(
    workspace_root: Seq<char>,
    proposed_path: Seq<char>,
    root: Result<Seq<char>, Seq<char>>,
    proposed: Result<Seq<char>, Seq<char>>,
) -> DecisionView {
    match root {
        Err(e) => DecisionView::Denied(
            "workspace root "@ + workspace_root + " could not be resolved: "@ + e,
        ),
        Ok(r) => match proposed {
            Err(e) => DecisionView::Denied(
                "proposed path "@ + proposed_path + " could not be resolved: "@ + e,
            ),
            Ok(p) => if path_starts_with(p, r) {
                DecisionView::Granted
            } else {
                DecisionView::Denied(
                    "proposed path resolves to "@ + p + " which is outside the workspace root "@ + r
                        + " (path traversal, symlink escape, or an absolute path outside the workspace)"@,
                )
            },
        },
    }
}

/// A resolution outcome with its texts as characters.
pub open spec fn outcome_view(r: Result<String, String>) -> Result<Seq<char>, Seq<char>> {
    match r {
        Ok(s) => Ok(s@),
        Err(e) => Err(e@),
    }
}

/// Deterministic capability check for a proposed file write, from the
/// resolved forms of the workspace root and the proposed path.
pub fn evaluate_file_write(workspace_root: &str, proposed_path: &str, resolved: &Resolved) -> (d:
    CapabilityDecision)
    ensures
        d@ == file_write_decision(
            workspace_root@,
            proposed_path@,
            outcome_view(resolved.root),
            outcome_view(resolved.proposed),
        ),
{
    let mut out: Vec<char> = Vec::new();
    match &resolved.root {
        Err(e) => {
            push_str(&mut out, "workspace root ");
            push_str(&mut out, workspace_root);
            push_str(&mut out, " could not be resolved: ");
            push_str(&mut out, e.as_str());
            CapabilityDecision::Denied { reason: string_of(&out) }
        },
        Ok(root) => match &resolved.proposed {
            Err(e) => {
                push_str(&mut out, "proposed path ");
                push_str(&mut out, proposed_path);
                push_str(&mut out, " could not be resolved: ");
                push_str(&mut out, e.as_str());
                CapabilityDecision::Denied { reason: string_of(&out) }
            },
            Ok(p) => {
                if path_starts_with_exec(p.as_str(), root.as_str()) {
                    CapabilityDecision::Granted
                } else {
                    push_str(&mut out, "proposed path resolves to ");
                    push_str(&mut out, p.as_str());
                    push_str(&mut out, " which is outside the workspace root ");
                    push_str(&mut out, root.as_str());
                    push_str(
                        &mut out,
                        " (path traversal, symlink escape, or an absolute path outside the workspace)",
                    );
                    CapabilityDecision::Denied { reason: string_of(&out) }
                }
            },
        },
    }
}

/// Containment is component by component: a path lies at or under a base
/// exactly when the base has no more components than the path and every
/// component of the base equals the path's component at the same index;
/// a path whose components differ from the base's at any index is
/// outside it.
pub proof fn law_containment_is_componentwise(path: Seq<char>, base: Seq<char>)
    ensures
        path_starts_with(path, base) <==> {
            &&& components(base).len() <= components(path).len()
            &&& forall|i: int| 0 <= i < components(base).len() ==> #[trigger] components(path)[i] == components(base)[i]
        },
        forall|i: int|
            0 <= i < components(base).len() && i < components(path).len() && #[trigger] components(path)[i]
                != components(base)[i] ==> !path_starts_with(path, base),
{
    let p = components(path);
    let b = components(base);
    if b.len() <= p.len() {
        if forall|i: int| 0 <= i < b.len() ==> #[trigger] p[i] == b[i] {
            assert(p.subrange(0, b.len() as int) =~= b);
        }
        if p.subrange(0, b.len() as int) == b {
            assert forall|i: int| 0 <= i < b.len() implies #[trigger] p[i] == b[i] by {
                assert(p.subrange(0, b.len() as int)[i] == p[i]);
            }
        }
    }
    assert forall|i: int|
        0 <= i < b.len() && i < p.len() && #[trigger] p[i] != b[i] implies !path_starts_with(path, base) by {
        if path_starts_with(path, base) {
            assert(p.subrange(0, b.len() as int)[i] == p[i]);
        }
    }
}

/// A write is granted only when both paths resolved and the resolved
/// proposed path has every component of the resolved root at the same
/// index; a resolved path that leaves the root at any component is
/// denied.
pub proof fn law_write_granted_only_inside_root(
    workspace_root: Seq<char>,
    proposed_path: Seq<char>,
    root: Result<Seq<char>, Seq<char>>,
    proposed: Result<Seq<char>, Seq<char>>,
)
    ensures
        file_write_decision(workspace_root, proposed_path, root, proposed) is Granted <==> (root matches Ok(r)
            && proposed matches Ok(p) && components(r).len() <= components(p).len() && forall|i: int|
            0 <= i < components(r).len() ==> #[trigger] components(p)[i] == components(r)[i]),
{
    if let (Ok(r), Ok(p)) = (root, proposed) {
        law_containment_is_componentwise(p, r);
    }
}

} // verus!
