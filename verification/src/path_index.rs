//! PathIndex: the cached map from executable base-name to absolute path.
//!
//! The index is built once from the `(base-name, absolute path)` entries
//! found by listing every directory of `PATH`, in order. A name that is
//! seen twice keeps its first path (directories earlier on `PATH` shadow
//! later ones), and a name of a built-in command never enters the index.

use vstd::prelude::*;
use itertools::Itertools;
use crate::text::str_eq;

verus! {

/// The names of the built-in commands.
pub open spec fn builtin_names() -> Seq<Seq<char>> {
    seq!["echo"@, "type"@, "exit"@, "pwd"@, "cd"@]
}

/// Whether a name is the name of a built-in command.
pub open spec fn is_builtin_name(n: Seq<char>) -> bool {
    builtin_names().contains(n)
}

/// Whether a name is the name of a built-in command.
pub fn is_builtin(name: &str) -> (r: bool)
    ensures
        r == is_builtin_name(name@),
{
    let r = str_eq(name, "echo") || str_eq(name, "type") || str_eq(name, "exit") || str_eq(
        name,
        "pwd",
    ) || str_eq(name, "cd");
    proof {
        if r {
            assert(builtin_names().contains(name@));
        } else if builtin_names().contains(name@) {
            let i = choose|i: int| 0 <= i < builtin_names().len() && builtin_names()[i] == name@;
            assert(i == 0 || i == 1 || i == 2 || i == 3 || i == 4);
        }
    }
    r
}

/// The view of a list of `(name, path)` entries.
pub open spec fn pairs_view(s: Seq<(String, String)>) -> Seq<(Seq<char>, Seq<char>)> {
    Seq::new(s.len(), |i: int| (s[i].0@, s[i].1@))
}

/// The entries whose names are not built-in names, in order.
pub open spec fn spec_drop_builtins(es: Seq<(Seq<char>, Seq<char>)>) -> Seq<
    (Seq<char>, Seq<char>),
>
    decreases es.len(),
{
    if es.len() == 0 {
        Seq::empty()
    } else if is_builtin_name(es[0].0) {
        spec_drop_builtins(es.skip(1))
    } else {
        seq![es[0]] + spec_drop_builtins(es.skip(1))
    }
}

/// The entries whose name was not seen before (`seen` holds the names
/// already taken), in order: the first entry of each name wins.
pub open spec fn spec_unique_first(
    es: Seq<(Seq<char>, Seq<char>)>,
    seen: Set<Seq<char>>,
) -> Seq<(Seq<char>, Seq<char>)>
    decreases es.len(),
{
    if es.len() == 0 {
        Seq::empty()
    } else if seen.contains(es[0].0) {
        spec_unique_first(es.skip(1), seen)
    } else {
        seq![es[0]] + spec_unique_first(es.skip(1), seen.insert(es[0].0))
    }
}

/// The index a list of entries denotes: built-in names are dropped, and of
/// entries with equal names the first wins.
pub open spec fn spec_index_of(es: Seq<(Seq<char>, Seq<char>)>) -> Seq<(Seq<char>, Seq<char>)> {
    spec_unique_first(spec_drop_builtins(es), Set::empty())
}

/// Keeps the first entry of each name.
///
/// Relies on itertools' `unique_by`: the adaptor yields exactly those
/// elements whose key was not yielded before, in order, keeping the first
/// occurrence of each key.
#[verifier::external_body]
fn dedup_by_name(entries: Vec<(String, String)>) -> (r: Vec<(String, String)>)
    ensures
        pairs_view(r@) == spec_unique_first(pairs_view(entries@), Set::empty()),
{
    entries.into_iter().unique_by(|e: &(String, String)| e.0.clone()).collect()
}

/// The first path registered under a name, if any.
pub open spec fn spec_lookup(es: Seq<(Seq<char>, Seq<char>)>, n: Seq<char>) -> Option<Seq<char>>
    decreases es.len(),
{
    if es.len() == 0 {
        None
    } else if es[0].0 == n {
        Some(es[0].1)
    } else {
        spec_lookup(es.skip(1), n)
    }
}

/// The cached map from executable base-name to absolute path.
pub struct PathIndex {
    entries: Vec<(String, String)>,
}

impl View for PathIndex {
    type V = Seq<(Seq<char>, Seq<char>)>;

    closed spec fn view(&self) -> Seq<(Seq<char>, Seq<char>)> {
        pairs_view(self.entries@)
    }
}

impl PathIndex {
    /// Builds the index from `(base-name, absolute path)` entries listed
    /// from the `PATH` directories in order: entries named like a built-in
    /// are dropped, and of entries with equal names the first wins.
    pub fn build(entries: Vec<(String, String)>) -> (r: PathIndex)
        ensures
            r@ == spec_index_of(pairs_view(entries@)),
    {
        let ghost all = pairs_view(entries@);
        let mut kept: Vec<(String, String)> = Vec::new();
        let mut i: usize = 0;
        proof {
            assert(all.skip(0) =~= all);
            assert(pairs_view(kept@) =~= Seq::<(Seq<char>, Seq<char>)>::empty());
            assert(Seq::<(Seq<char>, Seq<char>)>::empty() + spec_drop_builtins(all)
                =~= spec_drop_builtins(all));
        }
        while i < entries.len()
            invariant
                i <= entries.len(),
                all == pairs_view(entries@),
                all.len() == entries@.len(),
                spec_drop_builtins(all) == pairs_view(kept@) + spec_drop_builtins(
                    all.skip(i as int),
                ),
            decreases entries.len() - i,
        {
            proof {
                assert(all.skip(i as int).len() == all.len() - i);
                assert(all.skip(i as int)[0] == all[i as int]);
                assert(all.skip(i as int).skip(1) =~= all.skip(i + 1));
            }
            let ghost prev = pairs_view(kept@);
            if !is_builtin(entries[i].0.as_str()) {
                let name = entries[i].0.clone();
                let path = entries[i].1.clone();
                kept.push((name, path));
                proof {
                    assert(pairs_view(kept@) =~= prev.push(all[i as int]));
                    assert(prev + (seq![all[i as int]] + spec_drop_builtins(all.skip(i + 1)))
                        =~= pairs_view(kept@) + spec_drop_builtins(all.skip(i + 1)));
                }
            }
            i = i + 1;
        }
        proof {
            assert(all.skip(all.len() as int) =~= Seq::<(Seq<char>, Seq<char>)>::empty());
            assert(pairs_view(kept@) + Seq::<(Seq<char>, Seq<char>)>::empty() =~= pairs_view(
                kept@,
            ));
        }
        let deduped = dedup_by_name(kept);
        PathIndex { entries: deduped }
    }

    /// The absolute path registered under a name, if any.
    pub fn lookup(&self, name: &str) -> (r: Option<String>)
        ensures
            match r {
                Some(p) => spec_lookup(self@, name@) == Some(p@),
                None => spec_lookup(self@, name@) is None,
            },
    {
        let ghost es = self@;
        let mut i: usize = 0;
        proof {
            assert(es.skip(0) =~= es);
        }
        while i < self.entries.len()
            invariant
                i <= self.entries.len(),
                es == self@,
                es.len() == self.entries@.len(),
                spec_lookup(es, name@) == spec_lookup(es.skip(i as int), name@),
            decreases self.entries.len() - i,
        {
            proof {
                assert(es.skip(i as int).len() == es.len() - i);
                assert(es.skip(i as int)[0] == es[i as int]);
                assert(es.skip(i as int).skip(1) =~= es.skip(i + 1));
            }
            if str_eq(self.entries[i].0.as_str(), name) {
                return Some(self.entries[i].1.clone());
            }
            i = i + 1;
        }
        proof {
            assert(es.skip(es.len() as int) =~= Seq::<(Seq<char>, Seq<char>)>::empty());
        }
        None
    }

    /// Whether a name is registered in the index.
    pub fn contains(&self, name: &str) -> (r: bool)
        ensures
            r == (spec_lookup(self@, name@) is Some),
    {
        match self.lookup(name) {
            Some(_) => true,
            None => false,
        }
    }

    /// The registered names, in index order.
    pub fn keys(&self) -> (r: Vec<String>)
        ensures
            r.deep_view() == Seq::new(self@.len(), |i: int| self@[i].0),
    {
        let mut out: Vec<String> = Vec::new();
        let mut i: usize = 0;
        while i < self.entries.len()
            invariant
                i <= self.entries.len(),
                self@.len() == self.entries@.len(),
                out.deep_view() =~= Seq::new(i as nat, |k: int| self@[k].0),
            decreases self.entries.len() - i,
        {
            let ghost prev = out.deep_view();
            out.push(self.entries[i].0.clone());
            proof {
                assert(out.deep_view() =~= prev.push(self@[i as int].0));
                assert(out.deep_view() =~= Seq::new((i + 1) as nat, |k: int| self@[k].0));
            }
            i = i + 1;
        }
        proof {
            assert(out.deep_view() =~= Seq::new(self@.len(), |i: int| self@[i].0));
        }
        out
    }

    /// The number of registered names.
    pub fn len(&self) -> (r: usize)
        ensures
            r == self@.len(),
    {
        self.entries.len()
    }
}

proof fn lemma_unique_first_keys(es: Seq<(Seq<char>, Seq<char>)>, seen: Set<Seq<char>>)
    ensures
        forall|i: int|
            0 <= i < spec_unique_first(es, seen).len() ==> !seen.contains(
                #[trigger] spec_unique_first(es, seen)[i].0,
            ),
        forall|i: int, j: int|
            0 <= i < j < spec_unique_first(es, seen).len() ==> spec_unique_first(es, seen)[i].0
                != spec_unique_first(es, seen)[j].0,
        forall|i: int|
            0 <= i < spec_unique_first(es, seen).len() ==> es.contains(
                #[trigger] spec_unique_first(es, seen)[i],
            ),
    decreases es.len(),
{
    if es.len() == 0 {
    } else {
        let rest = es.skip(1);
        if seen.contains(es[0].0) {
            lemma_unique_first_keys(rest, seen);
            let r2 = spec_unique_first(rest, seen);
            assert(spec_unique_first(es, seen) == r2);
            assert forall|i: int| 0 <= i < r2.len() implies es.contains(#[trigger] r2[i]) by {
                assert(rest.contains(r2[i]));
                let k = choose|k: int| 0 <= k < rest.len() && rest[k] == r2[i];
                assert(es[k + 1] == r2[i]);
            }
        } else {
            lemma_unique_first_keys(rest, seen.insert(es[0].0));
            let r = spec_unique_first(es, seen);
            let r2 = spec_unique_first(rest, seen.insert(es[0].0));
            assert(r == seq![es[0]] + r2);
            assert forall|i: int| 0 <= i < r.len() implies !seen.contains(
                #[trigger] r[i].0,
            ) by {
                if i > 0 {
                    assert(r[i] == r2[i - 1]);
                    assert(!seen.insert(es[0].0).contains(r2[i - 1].0));
                }
            }
            assert forall|i: int, j: int| 0 <= i < j < r.len() implies r[i].0 != r[j].0 by {
                assert(r[j] == r2[j - 1]);
                assert(!seen.insert(es[0].0).contains(r2[j - 1].0));
                if i == 0 {
                    assert(seen.insert(es[0].0).contains(es[0].0));
                } else {
                    assert(r[i] == r2[i - 1]);
                }
            }
            assert forall|i: int| 0 <= i < r.len() implies es.contains(#[trigger] r[i]) by {
                if i == 0 {
                    assert(es[0] == r[0]);
                } else {
                    assert(r[i] == r2[i - 1]);
                    assert(rest.contains(r2[i - 1]));
                    let k = choose|k: int| 0 <= k < rest.len() && rest[k] == r2[i - 1];
                    assert(es[k + 1] == r2[i - 1]);
                }
            }
        }
    }
}

proof fn lemma_drop_builtins_members(es: Seq<(Seq<char>, Seq<char>)>)
    ensures
        forall|i: int|
            0 <= i < spec_drop_builtins(es).len() ==> !is_builtin_name(
                #[trigger] spec_drop_builtins(es)[i].0,
            ),
    decreases es.len(),
{
    if es.len() == 0 {
    } else {
        lemma_drop_builtins_members(es.skip(1));
        let r = spec_drop_builtins(es);
        let r2 = spec_drop_builtins(es.skip(1));
        if !is_builtin_name(es[0].0) {
            assert(r == seq![es[0]] + r2);
            assert forall|i: int| 0 <= i < r.len() implies !is_builtin_name(
                #[trigger] r[i].0,
            ) by {
                if i > 0 {
                    assert(r[i] == r2[i - 1]);
                }
            }
        }
    }
}

/// The index's two invariants: its names are pairwise distinct, and none of
/// them is the name of a built-in command.
pub proof fn lemma_index_well_formed(es: Seq<(Seq<char>, Seq<char>)>)
    ensures
        forall|i: int, j: int|
            0 <= i < j < spec_index_of(es).len() ==> spec_index_of(es)[i].0 != spec_index_of(
                es,
            )[j].0,
        forall|i: int|
            0 <= i < spec_index_of(es).len() ==> !is_builtin_name(
                #[trigger] spec_index_of(es)[i].0,
            ),
{
    let dropped = spec_drop_builtins(es);
    lemma_unique_first_keys(dropped, Set::empty());
    lemma_drop_builtins_members(es);
    assert(forall|i: int|
        0 <= i < spec_index_of(es).len() ==> dropped.contains(#[trigger] spec_index_of(es)[i]));
    assert(forall|i: int|
        0 <= i < spec_index_of(es).len() ==> !is_builtin_name(
            #[trigger] spec_index_of(es)[i].0,
        )) by {
        assert(forall|i: int|
            0 <= i < spec_index_of(es).len() ==> dropped.contains(
                #[trigger] spec_index_of(es)[i],
            ));
    }
}

} // verus!
