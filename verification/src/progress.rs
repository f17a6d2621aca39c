use vstd::prelude::*;

verus! {

/// A level's entry in the player's progress.
#[derive(Clone, Debug)]
pub struct LevelState {
    pub level_iid: String,
    pub locked: bool,
    pub complete: bool,
}

/// The first level of `levels` whose id is `current`.
pub open spec fn is_first_match(levels: Seq<LevelState>, current: Seq<char>, k: int) -> bool {
    &&& 0 <= k < levels.len()
    &&& levels[k].level_iid@ == current
    &&& forall|j: int| 0 <= j < k ==> (#[trigger] levels[j]).level_iid@ != current
}

/// The progress of the levels after level `k` is completed: it is complete, and the level after
/// it, if any, is unlocked.
pub open spec fn completed_at(levels: Seq<LevelState>, k: int) -> Seq<LevelState> {
    let done = levels.update(k, LevelState { complete: true, ..levels[k] });
    if k + 1 < levels.len() {
        done.update(k + 1, LevelState { locked: false, ..levels[k + 1] })
    } else {
        done
    }
}

/// Remembers the level whose start marker the player touched.
pub fn on_start_marker(in_progress: &mut String, current: &String)
    ensures
        final(in_progress)@ == current@,
{
    *in_progress = current.clone();
}

/// Handles the player touching a level's end marker. When the level in progress is the current
/// one, the first level with the current id is marked complete and the level after it unlocked;
/// gives whether a level was unlocked, which is when the progress is saved.
pub fn on_end_marker(in_progress: &String, current: &String, levels: &mut Vec<LevelState>) -> (saved: bool)
    ensures
        in_progress@ != current@ ==> final(levels)@ == old(levels)@ && !saved,
        in_progress@ == current@ && (forall|j: int| 0 <= j < old(levels).len() ==> (#[trigger] old(levels)@[j]).level_iid@ != current@)
            ==> final(levels)@ == old(levels)@ && !saved,
        forall|k: int| in_progress@ == current@ && #[trigger] is_first_match(old(levels)@, current@, k) ==> {
            &&& final(levels)@ == completed_at(old(levels)@, k)
            &&& saved == (k + 1 < old(levels).len())
        },
{
    if !(*in_progress == *current) {
        return false;
    }
    let mut i: usize = 0;
    while i < levels.len()
        invariant
            0 <= i <= levels.len(),
            levels@ == old(levels)@,
            in_progress@ == current@,
            forall|j: int| 0 <= j < i ==> (#[trigger] levels@[j]).level_iid@ != current@,
        decreases levels.len() - i,
    {
        if levels[i].level_iid == *current {
            assert(is_first_match(old(levels)@, current@, i as int));
            let mut done = levels.remove(i);
            done.complete = true;
            levels.insert(i, done);
            let saved = i + 1 < levels.len();
            if saved {
                let mut next = levels.remove(i + 1);
                next.locked = false;
                levels.insert(i + 1, next);
            }
            assert(levels@ =~= completed_at(old(levels)@, i as int));
            assert forall|k: int| #[trigger] is_first_match(old(levels)@, current@, k) implies k == i by {
                if k < i {
                } else if k > i {
                    assert(old(levels)@[i as int].level_iid@ == current@);
                }
            }
            return saved;
        }
        i = i + 1;
    }
    false
}

/// Completing a level never undoes progress: no level loses its completion, and no level gets
/// locked again.
pub proof fn lemma_completion_keeps_progress(levels: Seq<LevelState>, k: int)
    requires
        0 <= k < levels.len(),
    ensures
        completed_at(levels, k).len() == levels.len(),
        forall|j: int| 0 <= j < levels.len() ==> (levels[j].complete ==> (#[trigger] completed_at(levels, k)[j]).complete),
        forall|j: int| 0 <= j < levels.len() ==> (!levels[j].locked ==> !(#[trigger] completed_at(levels, k)[j]).locked),
        forall|j: int| 0 <= j < levels.len() ==> (#[trigger] completed_at(levels, k)[j]).level_iid == levels[j].level_iid,
        completed_at(levels, k)[k].complete,
        k + 1 < levels.len() ==> !completed_at(levels, k)[k + 1].locked,
{
}

} // verus!
