//! Inheritance along a chain of presets: a job takes what it lacks from the
//! preset it names, then from the preset that one names, and so on.

use crate::scheme::{
    lemma_complement_absorbs, lemma_complement_associative, lemma_complement_from_empty,
    lemma_complement_idempotent, Scheme, SchemeView,
};
use vstd::hash_map::StringHashMap;
use vstd::prelude::*;

verus! {

/// How many presets one chain may reach. A chain that is longer, or that
/// runs in a circle, is cut off here without complaint.
pub const DEPTH_CAP: i32 = 64;

/// The presets by name.
pub type Presets = Map<Seq<char>, SchemeView>;

/// The preset table as a map from each name to its preset's view.
pub open spec fn presets_view(table: StringHashMap<Scheme>) -> Presets {
    table@.map_values(|preset: Scheme| preset@)
}

/// The job after inheriting from the preset called `name`, which is number
/// `depth` in its chain, and from the presets after it. A name that no
/// preset has ends the chain, and so does the depth cap.
pub open spec fn inherit(job: SchemeView, name: Seq<char>, presets: Presets, depth: int) -> SchemeView
    decreases DEPTH_CAP + 1 - depth,
{
    if depth > DEPTH_CAP || !presets.contains_key(name) {
        job
    } else {
        let preset = presets[name];
        let filled = job.complement(preset);
        match preset.preset_name {
            Some(parent) => inherit(filled, parent, presets, depth + 1),
            None => filled,
        }
    }
}

/// All that the chain of presets from the one called `name` holds, as one
/// record: for each attribute the value of the first preset of the chain
/// that has it.
pub open spec fn chain(name: Seq<char>, presets: Presets, depth: int) -> SchemeView
    decreases DEPTH_CAP + 1 - depth,
{
    if depth > DEPTH_CAP || !presets.contains_key(name) {
        SchemeView::empty()
    } else {
        let preset = presets[name];
        match preset.preset_name {
            Some(parent) => preset.complement(chain(parent, presets, depth + 1)),
            None => preset,
        }
    }
}

/// Fills what `order` lacks from the preset called `current_preset_name`,
/// then from that preset's parent, and so on to the end of the chain or to
/// the depth cap. `stack_deep` counts the presets of the chain from 1.
pub fn inherit_fill(
    order: &mut Scheme,
    current_preset_name: &str,
    presets: &StringHashMap<Scheme>,
    stack_deep: i32,
)
    ensures
        final(order)@ == inherit(
            old(order)@,
            current_preset_name@,
            presets_view(*presets),
            stack_deep as int,
        ),
    decreases DEPTH_CAP + 1 - stack_deep,
{
    if stack_deep > DEPTH_CAP {
        return;
    }
    if let Some(preset) = presets.get(current_preset_name) {
        order.complement(preset);
        if let Some(next_preset_name) = &preset.preset_name {
            inherit_fill(order, next_preset_name.as_str(), presets, stack_deep + 1);
        }
    }
}

/// Beyond the depth cap nothing is inherited, whatever the presets hold.
pub proof fn lemma_inherit_stops_at_cap(
    job: SchemeView,
    name: Seq<char>,
    presets: Presets,
    depth: int,
)
    requires
        depth > DEPTH_CAP,
    ensures
        inherit(job, name, presets, depth) == job,
{
}

/// Inheritance never overwrites: every attribute that the job has before
/// it inherits has the same value afterwards.
pub proof fn lemma_inherit_keeps(job: SchemeView, name: Seq<char>, presets: Presets, depth: int)
    ensures
        inherit(job, name, presets, depth).keeps(job),
    decreases DEPTH_CAP + 1 - depth,
{
    if depth <= DEPTH_CAP && presets.contains_key(name) {
        let preset = presets[name];
        let filled = job.complement(preset);
        if let Some(parent) = preset.preset_name {
            lemma_inherit_keeps(filled, parent, presets, depth + 1);
        }
    }
}

/// To inherit along a chain is to merge in once what the whole chain
/// holds.
pub proof fn lemma_inherit_is_one_merge(
    job: SchemeView,
    name: Seq<char>,
    presets: Presets,
    depth: int,
)
    ensures
        inherit(job, name, presets, depth) == job.complement(chain(name, presets, depth)),
    decreases DEPTH_CAP + 1 - depth,
{
    if depth <= DEPTH_CAP && presets.contains_key(name) {
        let preset = presets[name];
        if let Some(parent) = preset.preset_name {
            lemma_inherit_is_one_merge(job.complement(preset), parent, presets, depth + 1);
            lemma_complement_associative(job, preset, chain(parent, presets, depth + 1));
        }
    } else {
        lemma_complement_from_empty(job);
    }
}

/// The nearest preset wins: below the depth cap, what the job lacks and the
/// preset called `name` has keeps that preset's value, whatever the presets
/// after it in the chain hold.
pub proof fn lemma_inherit_nearest_wins(
    job: SchemeView,
    name: Seq<char>,
    presets: Presets,
    depth: int,
)
    requires
        depth <= DEPTH_CAP,
        presets.contains_key(name),
    ensures
        inherit(job, name, presets, depth).keeps(job.complement(presets[name])),
{
    let preset = presets[name];
    if let Some(parent) = preset.preset_name {
        lemma_inherit_keeps(job.complement(preset), parent, presets, depth + 1);
    }
}

/// A job that already has all that two presets hold, each of which names
/// the other as its parent, inherits nothing more from either, however far
/// the chain is followed.
pub proof fn lemma_inherit_saturated(
    job: SchemeView,
    first: Seq<char>,
    second: Seq<char>,
    presets: Presets,
    depth: int,
)
    requires
        presets.contains_key(first),
        presets.contains_key(second),
        presets[first].preset_name == Some(second),
        presets[second].preset_name == Some(first),
        job.complement(presets[first]) == job,
        job.complement(presets[second]) == job,
    ensures
        inherit(job, first, presets, depth) == job,
    decreases DEPTH_CAP + 1 - depth,
{
    if depth <= DEPTH_CAP {
        lemma_inherit_saturated(job, second, first, presets, depth + 1);
    }
}

/// A circle of presets is harmless: where the preset called `first` names
/// `second` as its parent and that one names `first` again, a job that
/// inherits from `first` ends with what one round gives, the values of
/// `first` before those of `second`.
pub proof fn lemma_inherit_circle(
    job: SchemeView,
    first: Seq<char>,
    second: Seq<char>,
    presets: Presets,
)
    requires
        presets.contains_key(first),
        presets.contains_key(second),
        presets[first].preset_name == Some(second),
        presets[second].preset_name == Some(first),
    ensures
        inherit(job, first, presets, 1) == job.complement(presets[first]).complement(
            presets[second],
        ),
{
    let one = job.complement(presets[first]);
    let round = one.complement(presets[second]);
    assert(round.complement(presets[first]) == round) by {
        lemma_complement_absorbs(job, presets[first], presets[second]);
    }
    assert(round.complement(presets[second]) == round) by {
        lemma_complement_idempotent(one, presets[second]);
    }
    lemma_inherit_saturated(round, first, second, presets, 3);
    assert(inherit(one, second, presets, 2) == inherit(round, first, presets, 3));
    assert(inherit(job, first, presets, 1) == inherit(one, second, presets, 2));
}

/// A chain of three: where the job lacks an attribute, the first preset of
/// the chain that has it gives its value.
pub proof fn lemma_inherit_chain_order(
    job: SchemeView,
    first: Seq<char>,
    second: Seq<char>,
    third: Seq<char>,
    presets: Presets,
)
    requires
        presets.contains_key(first),
        presets.contains_key(second),
        presets.contains_key(third),
        presets[first].preset_name == Some(second),
        presets[second].preset_name == Some(third),
    ensures
        inherit(job, first, presets, 1).keeps(
            job.complement(presets[first]).complement(presets[second]).complement(
                presets[third],
            ),
        ),
{
    let one = job.complement(presets[first]);
    let two = one.complement(presets[second]);
    lemma_inherit_nearest_wins(two, third, presets, 3);
    assert(inherit(one, second, presets, 2) == inherit(two, third, presets, 3));
}

/// Where neither the job nor any preset has a thread count, the job has
/// none after inheriting.
pub proof fn lemma_inherit_no_thread_count(
    job: SchemeView,
    name: Seq<char>,
    presets: Presets,
    depth: int,
)
    requires
        job.threads_count is None,
        forall|other: Seq<char>|
            presets.contains_key(other) ==> (#[trigger] presets[other]).threads_count is None,
    ensures
        inherit(job, name, presets, depth).threads_count is None,
    decreases DEPTH_CAP + 1 - depth,
{
    if depth <= DEPTH_CAP && presets.contains_key(name) {
        let preset = presets[name];
        if let Some(parent) = preset.preset_name {
            lemma_inherit_no_thread_count(job.complement(preset), parent, presets, depth + 1);
        }
    }
}

} // verus!
