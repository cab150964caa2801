use vstd::prelude::*;

use crate::env_file::entry::{Entry, EntryModel};
use crate::env_file::diff::var_of;
use crate::env_file::var::{Var, VarModel};
use crate::env_file::{Env, EnvModel};

verus! {

/// Index of the first variable of `es` at or after `i` (`es.len()` if none).
pub open spec fn next_var_index(es: Seq<EntryModel>, i: int) -> int
    decreases es.len() - i,
{
    if i >= es.len() {
        es.len() as int
    } else if es[i] is Var {
        i
    } else {
        next_var_index(es, i + 1)
    }
}

/// The variables among `es`, in order.
pub open spec fn env_vars_of(es: Seq<EntryModel>) -> Seq<VarModel>
    decreases es.len(),
{
    if es.len() == 0 {
        seq![]
    } else {
        match es[0] {
            EntryModel::Var(v) => seq![v] + env_vars_of(es.skip(1)),
            _ => env_vars_of(es.skip(1)),
        }
    }
}

/// The variables from the `i`-th entry on: that entry's variable, if it is
/// one, then the variables after it.
pub proof fn lemma_env_vars_of_step(es: Seq<EntryModel>, i: int)
    requires
        0 <= i < es.len(),
    ensures
        env_vars_of(es.skip(i)) == match es[i] {
            EntryModel::Var(v) => seq![v] + env_vars_of(es.skip(i + 1)),
            _ => env_vars_of(es.skip(i + 1)),
        },
{
    assert(es.skip(i).skip(1) =~= es.skip(i + 1));
    assert(es.skip(i)[0] == es[i]);
}

/// Walking an env yields its variables in order: from any position, the
/// next variable that [`EnvIterator::next`] finds is the first of the
/// variables that remain, and the walk goes on with the others.
pub proof fn lemma_iter_walks_vars(es: Seq<EntryModel>, i: int)
    requires
        0 <= i <= es.len(),
    ensures
        ({
            let j = next_var_index(es, i);
            if j < es.len() {
                es[j] matches EntryModel::Var(v) && env_vars_of(es.skip(i)) == seq![v] + env_vars_of(
                    es.skip(j + 1),
                )
            } else {
                env_vars_of(es.skip(i)) == Seq::<VarModel>::empty()
            }
        }),
    decreases es.len() - i,
{
    if i < es.len() {
        lemma_env_vars_of_step(es, i);
        if !(es[i] is Var) {
            lemma_iter_walks_vars(es, i + 1);
        }
    } else {
        assert(es.skip(i) =~= Seq::<EntryModel>::empty());
    }
}

/// What `n` calls of [`EnvIterator::next`] give when the walk of the entries
/// `es` stands at position `p`: the variables they return, in order, and
/// the position they leave the walk at.
pub open spec fn walk(es: Seq<EntryModel>, p: int, n: nat) -> (Seq<VarModel>, int)
    decreases n,
{
    if n == 0 {
        (seq![], p)
    } else {
        let j = next_var_index(es, p);
        if j < es.len() {
            let rest = walk(es, j + 1, (n - 1) as nat);
            (seq![var_of(es[j])] + rest.0, rest.1)
        } else {
            (seq![], es.len() as int)
        }
    }
}

/// The whole walk of an env from position `p`: as many calls of
/// [`EnvIterator::next`] as there are variables from `p` on return exactly
/// those variables, in order, each once; the walk then stands where no
/// variable is left, so every further call returns `None` (and further
/// calls add nothing).
pub proof fn lemma_whole_walk(es: Seq<EntryModel>, p: int)
    requires
        0 <= p <= es.len(),
    ensures
        ({
            let n = env_vars_of(es.skip(p)).len();
            &&& walk(es, p, n).1 <= es.len()
            &&& next_var_index(es, walk(es, p, n).1) == es.len()
            &&& forall|m: nat| m >= n ==> (#[trigger] walk(es, p, m)).0 == env_vars_of(es.skip(p))
        }),
    decreases es.len() - p,
{
    lemma_iter_walks_vars(es, p);
    lemma_next_var_index_bounds(es, p);
    let j = next_var_index(es, p);
    if j < es.len() {
        lemma_whole_walk(es, j + 1);
        assert forall|m: nat| m >= env_vars_of(es.skip(p)).len() implies (#[trigger] walk(
            es,
            p,
            m,
        )).0 == env_vars_of(es.skip(p)) by {
            assert(walk(es, j + 1, (m - 1) as nat).0 == env_vars_of(es.skip(j + 1)));
        }
    } else {
        assert forall|m: nat| m >= env_vars_of(es.skip(p)).len() implies (#[trigger] walk(
            es,
            p,
            m,
        )).0 == env_vars_of(es.skip(p)) by {}
    }
}

proof fn lemma_next_var_index_bounds(es: Seq<EntryModel>, p: int)
    requires
        0 <= p <= es.len(),
    ensures
        p <= next_var_index(es, p) <= es.len(),
        next_var_index(es, p) < es.len() ==> es[next_var_index(es, p)] is Var,
    decreases es.len() - p,
{
    if p < es.len() && !(es[p] is Var) {
        lemma_next_var_index_bounds(es, p + 1);
    }
}

/// Walks the variables of an env, in order, skipping its other entries.
#[derive(Debug)]
pub struct EnvIterator<'a> {
    env: &'a Env,
    index: usize,
}

impl<'a> EnvIterator<'a> {
    #[verifier::type_invariant]
    spec fn position_in_bounds(&self) -> bool {
        self.index <= self.env@.entries.len()
    }

    /// The env that is walked.
    pub closed spec fn env_model(&self) -> EnvModel {
        self.env@
    }

    /// Index of the next entry to look at.
    pub closed spec fn position(&self) -> int {
        self.index as int
    }

    /// Starts at the first entry of `env`.
    pub fn new(env: &'a Env) -> (r: Self)
        ensures
            r.env_model() == env@,
            r.position() == 0,
    {
        EnvIterator { env, index: 0 }
    }

    /// The next variable, if there is one.
    pub fn next(&mut self) -> (r: Option<&'a Var>)
        ensures
            final(self).env_model() == old(self).env_model(),
            ({
                let es = old(self).env_model().entries;
                let j = next_var_index(es, old(self).position());
                if j < es.len() {
                    &&& r matches Some(v) && es[j] == EntryModel::Var(v@)
                    &&& final(self).position() == j + 1
                } else {
                    &&& r is None
                    &&& final(self).position() == es.len()
                }
            }),
    {
        proof {
            use_type_invariant(&*self);
        }
        let env: &'a Env = self.env;
        let entries = env.entries();
        let ghost es = env@.entries;
        let start = self.index;
        assert(es.len() == entries@.len());
        let mut i = start;
        while i < entries.len()
            invariant
                start <= i <= entries@.len() == es.len(),
                *self == *old(self),
                self.env == env,
                self.index == start,
                es == env@.entries,
                crate::env_file::entries_model(entries@) == es,
                next_var_index(es, start as int) == next_var_index(es, i as int),
            decreases entries@.len() - i,
        {
            assert(es[i as int] == entries@[i as int]@);
            if let Entry::Var(var) = &entries[i] {
                self.index = i + 1;
                return Some(var);
            }
            i = i + 1;
        }
        self.index = i;
        None
    }
}

impl Env {
    /// Walks the variables of the env.
    pub fn iter(&self) -> (r: EnvIterator)
        ensures
            r.env_model() == self@,
            r.position() == 0,
    {
        EnvIterator::new(self)
    }
}

} // verus!
