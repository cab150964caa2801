use vstd::prelude::*;

use crate::env_file::Env;

verus! {

/// The last modification time of a file, as `filetime::FileTime` holds it:
/// seconds and nanoseconds, ordered by seconds first.
#[derive(Debug, Clone, Copy)]
pub struct ModificationTime {
    pub seconds: i64,
    pub nanos: u32,
}

/// `a` is strictly earlier than `b`.
pub open spec fn earlier(a: ModificationTime, b: ModificationTime) -> bool {
    a.seconds < b.seconds || (a.seconds == b.seconds && a.nanos < b.nanos)
}

/// Index of the most recent of the first `n` times: the first one that no
/// later one is more recent than, as a left-to-right scan keeps it.
pub open spec fn most_recent_index(times: Seq<ModificationTime>, n: int) -> int
    decreases n,
{
    if n <= 1 {
        0
    } else {
        let prev = most_recent_index(times, n - 1);
        if earlier(times[prev], times[n - 1]) {
            n - 1
        } else {
            prev
        }
    }
}

pub proof fn lemma_most_recent_index_bounds(times: Seq<ModificationTime>, n: int)
    requires
        1 <= n,
    ensures
        0 <= most_recent_index(times, n) < n,
    decreases n,
{
    if n > 1 {
        lemma_most_recent_index_bounds(times, n - 1);
    }
}

/// No time is more recent than the one [`most_recent_index`] picks, and
/// every earlier one is strictly older than it: of equally recent times, the
/// first is picked.
pub proof fn lemma_most_recent_is_latest(times: Seq<ModificationTime>, n: int)
    requires
        1 <= n <= times.len(),
    ensures
        forall|j: int| 0 <= j < n ==> !earlier(times[most_recent_index(times, n)], #[trigger] times[j]),
        forall|j: int|
            0 <= j < most_recent_index(times, n) ==> earlier(#[trigger] times[j], times[most_recent_index(times, n)]),
    decreases n,
{
    lemma_most_recent_index_bounds(times, n);
    if n > 1 {
        lemma_most_recent_is_latest(times, n - 1);
        lemma_most_recent_index_bounds(times, n - 1);
    }
}

impl Env {
    /// The most recently modified env among `envs`, where
    /// `modification_times[i]` is the modification time of the file of
    /// `envs[i]`; of equally recent ones, the first. Fails when `envs` is
    /// empty.
    pub fn recent(envs: &Vec<Env>, modification_times: &Vec<ModificationTime>) -> (r: Result<
        Env,
        String,
    >)
        requires
            envs@.len() == modification_times@.len(),
        ensures
            match r {
                Ok(env) => envs@.len() > 0 && env@ == envs@[most_recent_index(
                    modification_times@,
                    envs@.len() as int,
                )]@,
                Err(message) => envs@.len() == 0 && message@
                    == "fail to found the most recent env file"@,
            },
    {
        if envs.len() == 0 {
            return Err("fail to found the most recent env file".to_owned());
        }
        let mut best: usize = 0;
        let mut i: usize = 1;
        while i < envs.len()
            invariant
                1 <= i <= envs@.len() == modification_times@.len(),
                best == most_recent_index(modification_times@, i as int),
                best < i,
            decreases envs@.len() - i,
        {
            let last = modification_times[best];
            let next = modification_times[i];
            if last.seconds < next.seconds || (last.seconds == next.seconds && last.nanos
                < next.nanos) {
                best = i;
            }
            i = i + 1;
        }
        Ok(envs[best].clone())
    }
}

} // verus!
