//! Bringing an env in line with another one, entry by entry, under the
//! control of two callbacks: one decides whether a variable that the source
//! lacks is deleted, the other gives the value of a variable that the
//! target lacks.
use vstd::prelude::*;

use crate::env_file::entry::{same_entry, Entry, EntryModel};
use crate::env_file::var::{Var, VarModel};
use crate::env_file::{clone_entries, entries_model, Env};

verus! {

/// The variable of an entry that is a variable.
pub open spec fn var_of(e: EntryModel) -> VarModel {
    match e {
        EntryModel::Var(v) => v,
        _ => arbitrary(),
    }
}

/// Some entry of `s` stands for the same line as `e`.
pub open spec fn contains_same(s: Seq<EntryModel>, e: EntryModel) -> bool {
    exists|i: int| 0 <= i < s.len() && #[trigger] same_entry(s[i], e)
}

/// `s[i]` is the first entry of `s` that stands for the same line as `e`.
pub open spec fn is_first_same(s: Seq<EntryModel>, e: EntryModel, i: int) -> bool {
    &&& 0 <= i < s.len()
    &&& same_entry(s[i], e)
    &&& forall|j: int| 0 <= j < i ==> !#[trigger] same_entry(s[j], e)
}

/// The first entry of `s` that stands for the same line as `e`.
pub open spec fn first_same(s: Seq<EntryModel>, e: EntryModel) -> EntryModel {
    s[choose|i: int| is_first_same(s, e, i)]
}

proof fn lemma_first_same(s: Seq<EntryModel>, e: EntryModel, i: int)
    requires
        is_first_same(s, e, i),
    ensures
        first_same(s, e) == s[i],
{
    let c = choose|c: int| is_first_same(s, e, c);
    assert(is_first_same(s, e, c));
    if c < i {
        assert(!same_entry(s[c], e));
    }
    if i < c {
        assert(!same_entry(s[i], e));
    }
}

/// The `i`-th entry of the target is a variable that the source lacks (no
/// variable of its name): the delete callback is asked about it.
pub open spec fn is_candidate(target: Seq<EntryModel>, source: Seq<EntryModel>, i: int) -> bool {
    target[i] is Var && !contains_same(source, target[i])
}

/// Where an entry kept at index `i` of the target goes in a list of length
/// `len`: at its own index, or at the end when that index is past the end.
pub open spec fn insert_index(i: int, len: int) -> int {
    if i <= len {
        i
    } else {
        len
    }
}

/// The source entries once each kept target entry among the first `n` has
/// been inserted, in order, at its own index (or at the end of the list when
/// that index is past it).
pub open spec fn with_kept(
    source: Seq<EntryModel>,
    target: Seq<EntryModel>,
    keep: Seq<bool>,
    n: int,
) -> Seq<EntryModel>
    decreases n,
{
    if n <= 0 {
        source
    } else {
        let prev = with_kept(source, target, keep, n - 1);
        if keep[n - 1] {
            prev.insert(insert_index(n - 1, prev.len() as int), target[n - 1])
        } else {
            prev
        }
    }
}

/// The delete callback `d` may answer `r` for a variable of model `m`.
pub open spec fn deletes_to<D: Fn(&Var) -> Result<bool, String>>(
    d: D,
    m: VarModel,
    r: Result<bool, String>,
) -> bool {
    exists|v: Var| v@ == m && #[trigger] call_ensures(d, (&v,), r)
}

/// The update callback `u` may turn a variable of model `m` into one of model `out`.
pub open spec fn updates_to<U: Fn(Var) -> Var>(u: U, m: VarModel, out: VarModel) -> bool {
    exists|v: Var, w: Var| v@ == m && w@ == out && #[trigger] call_ensures(u, (v,), w)
}

/// The flags `keep` record answers that `d` may give for the first `n`
/// target entries: a candidate is kept when `d` answers `Ok(false)`, it is
/// deleted when `d` answers `Ok(true)`; other entries are never kept.
pub open spec fn kept_consistent<D: Fn(&Var) -> Result<bool, String>>(
    d: D,
    target: Seq<EntryModel>,
    source: Seq<EntryModel>,
    keep: Seq<bool>,
    n: int,
) -> bool {
    &&& keep.len() == n
    &&& forall|i: int|
        0 <= i < n ==> if is_candidate(target, source, i) {
            deletes_to(d, var_of(target[i]), Ok(!#[trigger] keep[i]))
        } else {
            !keep[i]
        }
}

/// An entry of the merged list that the target lacks and that is a variable
/// goes through the update callback.
pub open spec fn needs_update(target: Seq<EntryModel>, e: EntryModel) -> bool {
    e is Var && !contains_same(target, e)
}

/// What the entry `e` of the merged list becomes: `e` itself when the
/// target holds that very entry; else the target's first entry for the same
/// line (a variable of the same name) when it has one; else the update
/// `update` when it is a variable; else `e` itself.
pub open spec fn merged_entry(target: Seq<EntryModel>, e: EntryModel, update: VarModel) -> EntryModel {
    if target.contains(e) {
        e
    } else if contains_same(target, e) {
        first_same(target, e)
    } else if e is Var {
        EntryModel::Var(update)
    } else {
        e
    }
}

/// The merged list: each entry of `merged_source` as [`merged_entry`] makes it.
pub open spec fn merged(
    merged_source: Seq<EntryModel>,
    target: Seq<EntryModel>,
    updates: Seq<VarModel>,
) -> Seq<EntryModel> {
    Seq::new(merged_source.len(), |k: int| merged_entry(target, merged_source[k], updates[k]))
}

/// The first `n` entries of the merged list.
pub open spec fn merged_prefix(
    merged_source: Seq<EntryModel>,
    target: Seq<EntryModel>,
    updates: Seq<VarModel>,
    n: nat,
) -> Seq<EntryModel> {
    Seq::new(n, |k: int| merged_entry(target, merged_source[k], updates[k]))
}

pub proof fn lemma_merged_prefix_push(
    merged_source: Seq<EntryModel>,
    target: Seq<EntryModel>,
    updates: Seq<VarModel>,
    x: VarModel,
)
    requires
        updates.len() < merged_source.len(),
    ensures
        ({
            let k = updates.len();
            merged_prefix(merged_source, target, updates.push(x), k + 1) == merged_prefix(
                merged_source,
                target,
                updates,
                k,
            ).push(merged_entry(target, merged_source[k as int], x))
        }),
{
    let k = updates.len();
    assert(merged_prefix(merged_source, target, updates.push(x), k + 1) =~= merged_prefix(
        merged_source,
        target,
        updates,
        k,
    ).push(merged_entry(target, merged_source[k as int], x)));
}

/// The updates `updates` are answers that `u` may give, for each entry of
/// `merged_source` that needs one.
pub open spec fn updates_consistent<U: Fn(Var) -> Var>(
    u: U,
    merged_source: Seq<EntryModel>,
    target: Seq<EntryModel>,
    updates: Seq<VarModel>,
) -> bool {
    &&& updates.len() == merged_source.len()
    &&& forall|k: int|
        0 <= k < merged_source.len() && needs_update(target, merged_source[k]) ==> updates_to(
            u,
            var_of(merged_source[k]),
            #[trigger] updates[k],
        )
}

pub proof fn lemma_with_kept_prefix(
    source: Seq<EntryModel>,
    target: Seq<EntryModel>,
    a: Seq<bool>,
    b: Seq<bool>,
    n: int,
)
    requires
        0 <= n <= a.len(),
        n <= b.len(),
        forall|i: int| 0 <= i < n ==> a[i] == b[i],
    ensures
        with_kept(source, target, a, n) == with_kept(source, target, b, n),
    decreases n,
{
    if n > 0 {
        lemma_with_kept_prefix(source, target, a, b, n - 1);
    }
}

/// The two callbacks that drive [`Env::update_by_diff`].
pub struct EnvDiffController<U, D> {
    update_var_fn: U,
    delete_var_fn: D,
}

impl<U, D> EnvDiffController<U, D> where U: Fn(Var) -> Var, D: Fn(&Var) -> Result<bool, String> {
    /// The update callback.
    pub closed spec fn updater(&self) -> U {
        self.update_var_fn
    }

    /// The delete callback.
    pub closed spec fn deleter(&self) -> D {
        self.delete_var_fn
    }

    /// A controller made of the update callback `update_var` (which gives the
    /// value of a variable added to the target) and the delete callback
    /// `delete_var` (which answers whether a variable missing from the source
    /// is deleted: `Ok(true)` deletes it, `Ok(false)` keeps it, an error
    /// stops the update).
    pub fn new(update_var: U, delete_var: D) -> (r: Self)
        ensures
            r.updater() == update_var,
            r.deleter() == delete_var,
    {
        EnvDiffController { update_var_fn: update_var, delete_var_fn: delete_var }
    }

    /// Asks the update callback for the value of `var`.
    fn update_var(&self, var: Var) -> (r: Var)
        requires
            call_requires(self.updater(), (var,)),
        ensures
            call_ensures(self.updater(), (var,), r),
    {
        (self.update_var_fn)(var)
    }

    /// Asks the delete callback whether `var` is deleted.
    fn delete_var(&self, var: &Var) -> (r: Result<bool, String>)
        requires
            call_requires(self.deleter(), (var,)),
        ensures
            call_ensures(self.deleter(), (var,), r),
    {
        (self.delete_var_fn)(var)
    }
}

/// Whether `v` holds the very entry `e` (same kind, same texts).
pub(crate) fn entries_contain(v: &Vec<Entry>, e: &Entry) -> (r: bool)
    ensures
        r == entries_model(v@).contains(e@),
{
    let ghost es = entries_model(v@);
    let mut i: usize = 0;
    while i < v.len()
        invariant
            i <= v@.len() == es.len(),
            es == entries_model(v@),
            forall|k: int| 0 <= k < i ==> es[k] != e@,
        decreases v@.len() - i,
    {
        assert(es[i as int] == v@[i as int]@);
        if v[i].equals(e) {
            return true;
        }
        i = i + 1;
    }
    false
}

/// The index of the first entry of `v` that stands for the same line as `e`.
pub(crate) fn entries_find(v: &Vec<Entry>, e: &Entry) -> (r: Option<usize>)
    ensures
        match r {
            Some(i) => is_first_same(entries_model(v@), e@, i as int),
            None => !contains_same(entries_model(v@), e@),
        },
{
    let ghost es = entries_model(v@);
    let mut i: usize = 0;
    while i < v.len()
        invariant
            i <= v@.len() == es.len(),
            es == entries_model(v@),
            forall|k: int| 0 <= k < i ==> !#[trigger] same_entry(es[k], e@),
        decreases v@.len() - i,
    {
        assert(es[i as int] == v@[i as int]@);
        if v[i].same(e) {
            return Some(i);
        }
        i = i + 1;
    }
    None
}

/// The result of an update: `keep` and `updates` are answers the callbacks
/// may give, and `result` is the list they lead to.
pub open spec fn diff_outcome<U: Fn(Var) -> Var, D: Fn(&Var) -> Result<bool, String>>(
    u: U,
    d: D,
    target: Seq<EntryModel>,
    source: Seq<EntryModel>,
    keep: Seq<bool>,
    updates: Seq<VarModel>,
    result: Seq<EntryModel>,
) -> bool {
    let merged_source = with_kept(source, target, keep, target.len() as int);
    &&& kept_consistent(d, target, source, keep, target.len() as int)
    &&& updates_consistent(u, merged_source, target, updates)
    &&& result == merged(merged_source, target, updates)
}

/// The update stops on the answer `Err(err)`: `keep` records the answers
/// given for the candidates before the `i`-th target entry.
pub open spec fn diff_failure<D: Fn(&Var) -> Result<bool, String>>(
    d: D,
    target: Seq<EntryModel>,
    source: Seq<EntryModel>,
    keep: Seq<bool>,
    i: int,
    err: String,
) -> bool {
    &&& 0 <= i < target.len()
    &&& kept_consistent(d, target, source, keep, i)
    &&& is_candidate(target, source, i)
    &&& deletes_to(d, var_of(target[i]), Err(err))
}

/// Some answers of `d` lead the update to stop on `Err(err)`.
pub open spec fn update_failed<D: Fn(&Var) -> Result<bool, String>>(
    d: D,
    target: Seq<EntryModel>,
    source: Seq<EntryModel>,
    err: String,
) -> bool {
    exists|keep: Seq<bool>, i: int| #[trigger] diff_failure(d, target, source, keep, i, err)
}

impl Env {
    /// Brings the entries of this env (the target) in line with those of
    /// `source_env`. Two variables stand for the same line when they have the
    /// same name, whatever their values.
    /// - Each variable of the target that the source lacks is submitted to
    ///   the delete callback; when it answers `Ok(false)` the variable is
    ///   kept, inserted at its own index among the source entries (or at
    ///   their end when that index is past it); an error
    ///   stops the update and leaves the env unchanged.
    /// - Then each of these entries stays as it is when the target holds the
    ///   very same entry; else it is replaced by the target's first entry for
    ///   the same line when there is one (so the target's value stays); each
    ///   other variable goes through the update callback, and the other
    ///   entries are taken from the source.
    pub fn update_by_diff<U, D>(
        &mut self,
        source_env: &Env,
        env_diff: &EnvDiffController<U, D>,
    ) -> (r: Result<(), String>) where U: Fn(Var) -> Var, D: Fn(&Var) -> Result<bool, String>
        requires
            forall|v: Var| call_requires(env_diff.deleter(), (&v,)),
            forall|v: Var| call_requires(env_diff.updater(), (v,)),
        ensures
            r is Ok ==> final(self)@.file == old(self)@.file && exists|
                keep: Seq<bool>,
                updates: Seq<VarModel>,
            |
                #[trigger] diff_outcome(
                    env_diff.updater(),
                    env_diff.deleter(),
                    old(self)@.entries,
                    source_env@.entries,
                    keep,
                    updates,
                    final(self)@.entries,
                ),
            r matches Err(err) ==> final(self)@ == old(self)@ && update_failed(
                env_diff.deleter(),
                old(self)@.entries,
                source_env@.entries,
                err,
            ),
    {
        let ghost target = self@.entries;
        let ghost source = source_env@.entries;
        let ghost d = env_diff.deleter();
        let ghost u = env_diff.updater();
        let mut source_entries = clone_entries(&source_env.entries);
        let ghost mut keep: Seq<bool> = seq![];
        let n = self.entries.len();
        let mut index: usize = 0;
        let mut failure: Option<String> = None;
        while index < n && failure.is_none()
            invariant
                failure matches Some(err) ==> index < n && diff_failure(
                    d,
                    target,
                    source,
                    keep,
                    index as int,
                    err,
                ),
                n == self.entries@.len() == target.len(),
                index <= n,
                *self == *old(self),
                target == self@.entries,
                source == source_env@.entries,
                d == env_diff.deleter(),
                forall|v: Var| call_requires(d, (&v,)),
                kept_consistent(d, target, source, keep, index as int),
                entries_model(source_entries@) == with_kept(source, target, keep, index as int),
            decreases (n - index) * 2 + if failure is None {
                1int
            } else {
                0int
            },
        {
            let target_entry = &self.entries[index];
            assert(target[index as int] == target_entry@);
            let found = entries_find(&source_env.entries, target_entry).is_some();
            let mut kept = false;
            if !found {
                if let Entry::Var(var) = target_entry {
                    let answer = env_diff.delete_var(var);
                    assert(call_ensures(d, (var,), answer));
                    match answer {
                        Err(err) => {
                            proof {
                                assert(deletes_to(d, var_of(target[index as int]), Err(err)));
                                assert(diff_failure(d, target, source, keep, index as int, err));
                            }
                            failure = Some(err);
                        },
                        Ok(deleted) => {
                            proof {
                                assert(deletes_to(d, var_of(target[index as int]), Ok(deleted)));
                            }
                            if !deleted {
                                let len = source_entries.len();
                                let at = if index <= len {
                                    index
                                } else {
                                    len
                                };
                                source_entries.insert(at, target_entry.clone());
                                kept = true;
                            }
                        },
                    }
                }
            }
            if failure.is_none() {
            proof {
                let old_keep = keep;
                keep = keep.push(kept);
                assert forall|i: int| 0 <= i < index implies old_keep[i] == keep[i] by {}
                lemma_with_kept_prefix(source, target, old_keep, keep, index as int);
            }
            index = index + 1;
            }
        }
        if let Some(err) = failure {
            assert(update_failed(d, target, source, err));
            assert(self@ == old(self)@);
            assert(update_failed(env_diff.deleter(), old(self)@.entries, source_env@.entries, err));
            return Err(err);
        }
        let ghost merged_source = entries_model(source_entries@);
        let ghost mut updates: Seq<VarModel> = seq![];
        let mut new_entries: Vec<Entry> = Vec::new();
        let m = source_entries.len();
        let mut k: usize = 0;
        while k < m
            invariant
                m == source_entries@.len() == merged_source.len(),
                k <= m,
                *self == *old(self),
                target == self@.entries,
                u == env_diff.updater(),
                forall|v: Var| call_requires(u, (v,)),
                merged_source == entries_model(source_entries@),
                updates.len() == k,
                forall|j: int|
                    0 <= j < k && needs_update(target, merged_source[j]) ==> updates_to(
                        u,
                        var_of(merged_source[j]),
                        #[trigger] updates[j],
                    ),
                entries_model(new_entries@) == merged_prefix(merged_source, target, updates, k as nat),
            decreases m - k,
        {
            let source_entry = &source_entries[k];
            assert(merged_source[k as int] == source_entry@);
            let ghost before = entries_model(new_entries@);
            let ghost old_updates = updates;
            let ghost old_new = new_entries@;
            if entries_contain(&self.entries, source_entry) {
                new_entries.push(source_entry.clone());
                proof {
                    let i = choose|i: int| 0 <= i < target.len() && target[i] == source_entry@;
                    lemma_same_entry_refl(source_entry@);
                    assert(same_entry(target[i], source_entry@));
                    updates = updates.push(var_of(merged_source[k as int]));
                }
            } else if let Some(j) = entries_find(&self.entries, source_entry) {
                new_entries.push(self.entries[j].clone());
                proof {
                    lemma_first_same(target, source_entry@, j as int);
                    updates = updates.push(var_of(merged_source[k as int]));
                }
            } else {
                match source_entry {
                    Entry::Var(var) => {
                        let arg = var.clone();
                        let ghost arg_copy = arg;
                        let updated = env_diff.update_var(arg);
                        proof {
                            assert(call_ensures(u, (arg_copy,), updated));
                            assert(updates_to(u, var_of(merged_source[k as int]), updated@));
                            updates = updates.push(updated@);
                        }
                        new_entries.push(Entry::Var(updated));
                    },
                    _ => {
                        new_entries.push(source_entry.clone());
                        proof {
                            updates = updates.push(var_of(merged_source[k as int]));
                        }
                    },
                }
            }
            proof {
                lemma_merged_prefix_push(merged_source, target, old_updates, updates.last());
                assert(updates == old_updates.push(updates.last()));
                assert(new_entries@ == old_new.push(new_entries@.last()));
                assert(entries_model(new_entries@) =~= entries_model(old_new).push(
                    new_entries@.last()@,
                ));
            }
            k = k + 1;
        }
        self.entries = new_entries;
        proof {
            assert(merged_prefix(merged_source, target, updates, m as nat) =~= merged(
                merged_source,
                target,
                updates,
            ));
            assert(diff_outcome(u, d, target, source, keep, updates, self@.entries));
        }
        Ok(())
    }
}

/// The update callback `u` never renames the variable it is given.
pub open spec fn keeps_names<U: Fn(Var) -> Var>(u: U) -> bool {
    forall|v: Var, w: Var| #[trigger] call_ensures(u, (v,), w) ==> w@.name == v@.name
}

proof fn lemma_same_entry_refl(e: EntryModel)
    ensures
        same_entry(e, e),
{
}

/// When some entry of `s` stands for the same line as `e`, a first one does.
proof fn lemma_first_same_exists(s: Seq<EntryModel>, e: EntryModel)
    requires
        contains_same(s, e),
    ensures
        exists|i: int| is_first_same(s, e, i),
        same_entry(first_same(s, e), e),
    decreases s.len(),
{
    if same_entry(s[0], e) {
        assert(is_first_same(s, e, 0));
    } else {
        let i = choose|i: int| 0 <= i < s.len() && #[trigger] same_entry(s[i], e);
        assert(same_entry(s.skip(1)[i - 1], e));
        lemma_first_same_exists(s.skip(1), e);
        let k = choose|k: int| is_first_same(s.skip(1), e, k);
        assert forall|j: int| 0 <= j < k + 1 implies !#[trigger] same_entry(s[j], e) by {
            if j > 0 {
                assert(s[j] == s.skip(1)[j - 1]);
            }
        }
        assert(s[k + 1] == s.skip(1)[k]);
        assert(is_first_same(s, e, k + 1));
    }
    let c = choose|c: int| is_first_same(s, e, c);
    assert(is_first_same(s, e, c));
}

/// Each entry of `source` is still in the source list once the kept target
/// entries were inserted.
proof fn lemma_with_kept_contains(
    source: Seq<EntryModel>,
    target: Seq<EntryModel>,
    keep: Seq<bool>,
    n: int,
)
    requires
        0 <= n <= keep.len(),
        n <= target.len(),
    ensures
        forall|j: int|
            0 <= j < source.len() ==> #[trigger] with_kept(source, target, keep, n).contains(source[j]),
    decreases n,
{
    if n > 0 {
        lemma_with_kept_contains(source, target, keep, n - 1);
        if keep[n - 1] {
            let prev = with_kept(source, target, keep, n - 1);
            let at = insert_index(n - 1, prev.len() as int);
            assert forall|j: int| 0 <= j < source.len() implies #[trigger] with_kept(
                source,
                target,
                keep,
                n,
            ).contains(source[j]) by {
                assert(prev.contains(source[j]));
                let p = choose|p: int| 0 <= p < prev.len() && prev[p] == source[j];
                let cur = prev.insert(at, target[n - 1]);
                if p < at {
                    assert(cur[p] == prev[p]);
                } else {
                    assert(cur[p + 1] == prev[p]);
                }
            }
        } else {
            assert forall|j: int| 0 <= j < source.len() implies #[trigger] with_kept(
                source,
                target,
                keep,
                n,
            ).contains(source[j]) by {
                assert(with_kept(source, target, keep, n) == with_kept(source, target, keep, n - 1));
            }
        }
    } else {
        assert forall|j: int| 0 <= j < source.len() implies #[trigger] with_kept(
            source,
            target,
            keep,
            n,
        ).contains(source[j]) by {
            assert(with_kept(source, target, keep, n)[j] == source[j]);
        }
    }
}

/// Synchronising keeps every line of the source: after a successful
/// [`Env::update_by_diff`], each entry of the source stands for the same
/// line as some entry of the result (a variable of the same name, the same
/// comment, an empty line), whatever the callbacks answered, provided the
/// update callback does not rename variables.
pub proof fn lemma_sync_keeps_source_lines<U: Fn(Var) -> Var, D: Fn(&Var) -> Result<bool, String>>(
    u: U,
    d: D,
    target: Seq<EntryModel>,
    source: Seq<EntryModel>,
    keep: Seq<bool>,
    updates: Seq<VarModel>,
    result: Seq<EntryModel>,
)
    requires
        keeps_names(u),
        diff_outcome(u, d, target, source, keep, updates, result),
    ensures
        forall|j: int| 0 <= j < source.len() ==> contains_same(result, #[trigger] source[j]),
{
    let n = target.len() as int;
    let ms = with_kept(source, target, keep, n);
    lemma_with_kept_contains(source, target, keep, n);
    assert forall|j: int| 0 <= j < source.len() implies contains_same(result, #[trigger] source[j]) by {
        assert(ms.contains(source[j]));
        let p = choose|p: int| 0 <= p < ms.len() && ms[p] == source[j];
        let e = ms[p];
        assert(result[p] == merged_entry(target, e, updates[p]));
        if contains_same(target, e) {
            lemma_first_same_exists(target, e);
        } else if e is Var {
            assert(needs_update(target, e));
            assert(updates_to(u, var_of(e), updates[p]));
            let (v, w) = choose|v: Var, w: Var|
                v@ == var_of(e) && w@ == updates[p] && #[trigger] call_ensures(u, (v,), w);
            assert(call_ensures(u, (v,), w));
        } else {
            lemma_same_entry_refl(e);
        }
        assert(same_entry(result[p], source[j]));
    }
}

/// Synchronising an env with a copy of itself changes nothing, whatever the
/// callbacks would answer: no variable is submitted to either callback, and
/// every entry stays as it is (and it cannot fail, see
/// [`lemma_sync_with_itself_succeeds`]).
pub proof fn lemma_sync_with_itself<U: Fn(Var) -> Var, D: Fn(&Var) -> Result<bool, String>>(
    u: U,
    d: D,
    es: Seq<EntryModel>,
    keep: Seq<bool>,
    updates: Seq<VarModel>,
    result: Seq<EntryModel>,
)
    requires
        diff_outcome(u, d, es, es, keep, updates, result),
    ensures
        result == es,
        forall|i: int| 0 <= i < es.len() ==> !is_candidate(es, es, i),
        forall|k: int| 0 <= k < es.len() ==> !needs_update(es, #[trigger] es[k]),
{
    let n = es.len() as int;
    assert forall|i: int| 0 <= i < n implies !is_candidate(es, es, i) && !#[trigger] keep[i] by {
        lemma_same_entry_refl(es[i]);
        assert(same_entry(es[i], es[i]));
    }
    assert forall|m: int| 0 <= m <= n implies #[trigger] with_kept(es, es, keep, m) == es by {
        lemma_with_kept_unchanged(es, keep, m);
    }
    assert forall|k: int| 0 <= k < n implies #[trigger] result[k] == es[k] && !needs_update(
        es,
        es[k],
    ) by {
        lemma_same_entry_refl(es[k]);
        assert(same_entry(es[k], es[k]));
        assert(es.contains(es[k]));
    }
    assert(result =~= es);
}

/// Synchronising an env with a copy of itself never fails: no variable of
/// the target lacks in the source, so the delete callback is never asked,
/// and [`Env::update_by_diff`] returns `Ok`.
pub proof fn lemma_sync_with_itself_succeeds<D: Fn(&Var) -> Result<bool, String>>(
    d: D,
    es: Seq<EntryModel>,
)
    ensures
        forall|err: String| !#[trigger] update_failed(d, es, es, err),
{
    assert forall|err: String| !#[trigger] update_failed(d, es, es, err) by {
        if update_failed(d, es, es, err) {
            let (k, i) = choose|k: Seq<bool>, i: int| #[trigger] diff_failure(d, es, es, k, i, err);
            lemma_same_entry_refl(es[i]);
            assert(same_entry(es[i], es[i]));
        }
    }
}

/// The delete callback `d` keeps every variable it is asked about: it can
/// only answer `Ok(false)`.
pub open spec fn keeps_all<D: Fn(&Var) -> Result<bool, String>>(d: D) -> bool {
    forall|v: Var, r: Result<bool, String>| #[trigger] call_ensures(d, (&v,), r) ==> r == Ok::<
        bool,
        String,
    >(false)
}

/// The entry `e` stays in `source` whatever is decided: it is not a variable
/// that `source` lacks.
pub open spec fn stays(source: Seq<EntryModel>) -> spec_fn(EntryModel) -> bool {
    |e: EntryModel| !(e is Var && !contains_same(source, e))
}

/// A kept variable goes back to its own place: when the source is the target
/// without the variables that the source lacks (such as source `A=1`, `B=2`
/// and target `A=1`, `C=3`, `B=2`), and the delete callback keeps every
/// variable, the result is the target itself, each kept variable at the
/// index it had there (`C=3` between `A=1` and `B=2`).
pub proof fn lemma_sync_keeps_kept_in_place<U: Fn(Var) -> Var, D: Fn(&Var) -> Result<bool, String>>(
    u: U,
    d: D,
    target: Seq<EntryModel>,
    source: Seq<EntryModel>,
    keep: Seq<bool>,
    updates: Seq<VarModel>,
    result: Seq<EntryModel>,
)
    requires
        keeps_all(d),
        source == target.filter(stays(source)),
        diff_outcome(u, d, target, source, keep, updates, result),
    ensures
        result == target,
{
    let n = target.len() as int;
    assert forall|i: int| 0 <= i < n implies #[trigger] keep[i] == is_candidate(target, source, i) by {
        if is_candidate(target, source, i) {
            let answer = Ok::<bool, String>(!keep[i]);
            assert(deletes_to(d, var_of(target[i]), answer));
            let v = choose|v: Var| v@ == var_of(target[i]) && #[trigger] call_ensures(d, (&v,), answer);
            assert(call_ensures(d, (&v,), answer));
        }
    }
    lemma_with_kept_in_place(source, target, keep, n);
    assert(target.take(n) =~= target);
    assert(target.skip(n) =~= Seq::<EntryModel>::empty());
    let ms = with_kept(source, target, keep, n);
    assert(ms =~= target);
    assert forall|k: int| 0 <= k < n implies #[trigger] result[k] == target[k] by {
        assert(target.contains(target[k]));
    }
    assert(result =~= target);
}

/// A kept variable whose index is past the end of the source list goes at
/// its end: when the target is `t1` followed by `t2`, where `t1` is at least
/// as long as the source and holds no variable that the source lacks, and
/// `t2` holds only such variables, all kept by the delete callback (such as
/// source `A=1`, target `A=1`, `# note`, `C=3`, `D=4`), the result is as long
/// as the source and `t2` together and ends with `t2`, in its order
/// (`A=1`, `C=3`, `D=4`).
pub proof fn lemma_sync_appends_kept_past_end<U: Fn(Var) -> Var, D: Fn(&Var) -> Result<bool, String>>(
    u: U,
    d: D,
    target: Seq<EntryModel>,
    source: Seq<EntryModel>,
    t1: Seq<EntryModel>,
    t2: Seq<EntryModel>,
    keep: Seq<bool>,
    updates: Seq<VarModel>,
    result: Seq<EntryModel>,
)
    requires
        keeps_all(d),
        target == t1 + t2,
        source.len() <= t1.len(),
        forall|i: int| 0 <= i < t1.len() ==> !is_candidate(target, source, i),
        forall|i: int| t1.len() <= i < target.len() ==> is_candidate(target, source, i),
        diff_outcome(u, d, target, source, keep, updates, result),
    ensures
        result.len() == source.len() + t2.len(),
        result.skip(source.len() as int) == t2,
{
    let n = target.len() as int;
    assert forall|i: int| 0 <= i < n implies #[trigger] keep[i] == is_candidate(target, source, i) by {
        if is_candidate(target, source, i) {
            let answer = Ok::<bool, String>(!keep[i]);
            assert(deletes_to(d, var_of(target[i]), answer));
            let v = choose|v: Var| v@ == var_of(target[i]) && #[trigger] call_ensures(d, (&v,), answer);
            assert(call_ensures(d, (&v,), answer));
        }
    }
    lemma_with_kept_past_end(source, target, t1.len() as int, keep, n);
    let ms = with_kept(source, target, keep, n);
    assert(target.skip(t1.len() as int) =~= t2);
    assert forall|k: int| 0 <= k < t2.len() implies #[trigger] result.skip(source.len() as int)[k]
        == t2[k] by {
        assert(ms[source.len() + k] == t2[k]);
        assert(target[t1.len() + k] == t2[k]);
        assert(target.contains(t2[k]));
    }
    assert(result.skip(source.len() as int) =~= t2);
}

/// When no target entry before `b` is kept and each one from `b` on is,
/// with `b` at least the length of the source, the kept entries follow the
/// source entries, in their order.
proof fn lemma_with_kept_past_end(
    source: Seq<EntryModel>,
    target: Seq<EntryModel>,
    b: int,
    keep: Seq<bool>,
    m: int,
)
    requires
        source.len() <= b <= target.len(),
        0 <= m <= target.len(),
        forall|i: int| 0 <= i < m ==> #[trigger] keep[i] == (b <= i),
    ensures
        with_kept(source, target, keep, m) == source + target.subrange(
            b,
            if m < b {
                b
            } else {
                m
            },
        ),
    decreases m,
{
    if m == 0 {
        assert(source + target.subrange(b, b) =~= source);
    } else {
        lemma_with_kept_past_end(source, target, b, keep, m - 1);
        let prev = with_kept(source, target, keep, m - 1);
        if keep[m - 1] {
            assert(insert_index(m - 1, prev.len() as int) == prev.len());
            assert(prev.insert(prev.len() as int, target[m - 1]) =~= source + target.subrange(
                b,
                m,
            ));
        }
    }
}

/// When each target entry is kept exactly when the source lacks it, the
/// first `m` target entries stand in place, followed by the source entries
/// that the rest of the target holds.
proof fn lemma_with_kept_in_place(
    source: Seq<EntryModel>,
    target: Seq<EntryModel>,
    keep: Seq<bool>,
    m: int,
)
    requires
        0 <= m <= target.len(),
        source == target.filter(stays(source)),
        forall|i: int| 0 <= i < m ==> #[trigger] keep[i] == is_candidate(target, source, i),
    ensures
        with_kept(source, target, keep, m) == target.take(m) + target.skip(m).filter(stays(source)),
    decreases m,
{
    let p = stays(source);
    if m == 0 {
        assert(target.take(0) =~= Seq::<EntryModel>::empty());
        assert(target.skip(0) =~= target);
        assert(target.take(0) + target.skip(0).filter(p) =~= target.filter(p));
    } else {
        lemma_with_kept_in_place(source, target, keep, m - 1);
        let prev = with_kept(source, target, keep, m - 1);
        let x = target[m - 1];
        let rest = target.skip(m).filter(p);
        assert(target.skip(m - 1) =~= seq![x] + target.skip(m));
        target.skip(m).lemma_filter_prepend(x, p);
        assert(target.take(m) =~= target.take(m - 1).push(x));
        if keep[m - 1] {
            assert(!p(x));
            assert(prev =~= target.take(m - 1) + rest);
            assert(insert_index(m - 1, prev.len() as int) == m - 1);
            assert(prev.insert(m - 1, x) =~= target.take(m) + rest);
        } else {
            assert(p(x));
            assert(prev =~= target.take(m) + rest);
        }
    }
}

proof fn lemma_with_kept_unchanged(es: Seq<EntryModel>, keep: Seq<bool>, m: int)
    requires
        0 <= m,
        forall|i: int| 0 <= i < m ==> !#[trigger] keep[i],
    ensures
        with_kept(es, es, keep, m) == es,
    decreases m,
{
    if m > 0 {
        lemma_with_kept_unchanged(es, keep, m - 1);
    }
}

} // verus!
