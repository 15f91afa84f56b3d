//! Running a pipeline over one file, and deciding whether a path reported
//! by the watcher is a file to run it over.

use vstd::prelude::*;

use crate::clock::{local_offset_at, UtcTime};
use crate::job::{carries_out, error_view, job_outcome, op_views, FileOp, OpSpec, Outcome, Plan};
use crate::paths::{file_name, file_name_of, find_last, last_index_of, lemma_last_index_bounds, text_of};
use crate::pattern::{first_fields, parse_screenshot_name, sources_of};
use crate::state::{Config, State};

verus! {

/// `o` after operations `done` have been performed.
pub open spec fn after(done: Seq<OpSpec>, o: Outcome) -> Outcome {
    Outcome { ops: done + o.ops, error: o.error, paths: o.paths }
}

/// What the jobs `jobs` do, in order, to a file with the paths `paths`,
/// stopping at the first job that fails.
pub open spec fn pipeline_outcome(
    jobs: Seq<crate::job::Job>,
    dir: Seq<char>,
    temp_dir: Seq<char>,
    t: UtcTime,
    local_offset: Option<i32>,
    paths: Seq<Seq<char>>,
) -> Outcome
    decreases jobs.len(),
{
    if jobs.len() == 0 {
        Outcome { ops: Seq::empty(), error: None, paths }
    } else {
        let first = job_outcome(jobs[0], dir, temp_dir, t, local_offset, paths);
        if first.error is Some {
            first
        } else {
            after(
                first.ops,
                pipeline_outcome(jobs.drop_first(), dir, temp_dir, t, local_offset, first.paths),
            )
        }
    }
}

/// Plans every job of the pipeline in order for the file in `state`, up to
/// and including the first that fails.
pub fn run(config: &Config, state: &mut State, local_offset: Option<i32>) -> (r: Plan)
    ensures
        carries_out(
            r,
            *final(state),
            pipeline_outcome(
                config.pipeline@,
                config.options.screenshots_dir@,
                old(state).temp_dir@,
                old(state).datetime,
                local_offset,
                old(state).paths(),
            ),
        ),
        final(state).datetime == old(state).datetime,
        final(state).temp_dir == old(state).temp_dir,
{
    let ghost jobs = config.pipeline@;
    let ghost dir = config.options.screenshots_dir@;
    let ghost temp = state.temp_dir@;
    let ghost t = state.datetime;
    let ghost whole = pipeline_outcome(jobs, dir, temp, t, local_offset, old(state).paths());
    let mut ops: Vec<FileOp> = Vec::new();
    let mut i: usize = 0;
    proof {
        assert(jobs.subrange(0, jobs.len() as int) =~= jobs);
        assert(op_views(ops@) + whole.ops =~= whole.ops);
    }
    while i < config.pipeline.len()
        invariant
            i <= jobs.len(),
            jobs == config.pipeline@,
            dir == config.options.screenshots_dir@,
            temp == state.temp_dir@,
            t == state.datetime,
            state.datetime == old(state).datetime,
            state.temp_dir == old(state).temp_dir,
            whole == pipeline_outcome(jobs, dir, temp, t, local_offset, old(state).paths()),
            whole == after(
                op_views(ops@),
                pipeline_outcome(
                    jobs.subrange(i as int, jobs.len() as int),
                    dir,
                    temp,
                    t,
                    local_offset,
                    state.paths(),
                ),
            ),
        decreases jobs.len() - i,
    {
        let ghost rest = jobs.subrange(i as int, jobs.len() as int);
        let ghost before = state.paths();
        assert(rest[0] == jobs[i as int]);
        assert(rest.drop_first() =~= jobs.subrange(i + 1, jobs.len() as int));
        let ghost first = job_outcome(jobs[i as int], dir, temp, t, local_offset, before);
        assert(pipeline_outcome(rest, dir, temp, t, local_offset, before) == if first.error is Some {
            first
        } else {
            after(
                first.ops,
                pipeline_outcome(rest.drop_first(), dir, temp, t, local_offset, first.paths),
            )
        });
        let mut plan = config.pipeline[i].execute(config, state, local_offset);
        let ghost done = op_views(ops@);
        let ghost step = op_views(plan.ops@);
        ops.append(&mut plan.ops);
        assert(op_views(ops@) =~= done + step);
        if plan.error.is_some() {
            return Plan { ops, error: plan.error };
        }
        proof {
            let tail = pipeline_outcome(
                jobs.subrange(i + 1, jobs.len() as int),
                dir,
                temp,
                t,
                local_offset,
                state.paths(),
            );
            assert(done + (step + tail.ops) =~= (done + step) + tail.ops);
        }
        i = i + 1;
    }
    proof {
        assert(op_views(ops@) + Seq::<OpSpec>::empty() =~= op_views(ops@));
    }
    Plan { ops, error: None }
}

/// `dir` ending in a '/'.
pub open spec fn dir_prefix(dir: Seq<char>) -> Seq<char> {
    if dir.len() > 0 && dir.last() == '/' {
        dir
    } else {
        dir + seq!['/']
    }
}

/// The name of the file that `path` names directly inside `dir`: `path` is
/// `dir`, a '/', and one more segment.
pub open spec fn child_name_of(dir: Seq<char>, path: Seq<char>) -> Option<Seq<char>> {
    let base = dir_prefix(dir);
    if base.len() <= path.len() && path.subrange(0, base.len() as int) == base {
        let rest = path.subrange(base.len() as int, path.len() as int);
        if last_index_of(rest, '/') == -1 {
            file_name_of(rest)
        } else {
            None
        }
    } else {
        None
    }
}

/// The name of the file that `path` names directly inside `dir`, if it
/// names one there.
pub fn child_name(dir: &str, path: &str) -> (r: Option<String>)
    ensures
        text_of(r) == child_name_of(dir@, path@),
{
    let n = dir.unicode_len();
    let mut base = String::from_str(dir);
    if !(n > 0 && dir.get_char(n - 1) == '/') {
        base.append("/");
        proof {
            reveal_strlit("/");
        }
    }
    let ghost spec_base = dir_prefix(dir@);
    assert(base@ == spec_base);
    let b = base.as_str();
    let bn = b.unicode_len();
    let pn = path.unicode_len();
    if bn > pn {
        return None;
    }
    let mut i: usize = 0;
    while i < bn
        invariant
            i <= bn,
            bn == b@.len(),
            bn <= pn,
            pn == path@.len(),
            forall|j: int| 0 <= j < i ==> path@[j] == b@[j],
            b@ == spec_base,
            spec_base == dir_prefix(dir@),
        decreases bn - i,
    {
        if path.get_char(i) != b.get_char(i) {
            assert(path@.subrange(0, bn as int)[i as int] != b@[i as int]);
            return None;
        }
        i = i + 1;
    }
    assert(path@.subrange(0, bn as int) =~= b@);
    let rest = path.substring_char(bn, pn);
    match find_last(rest, '/') {
        Some(_) => {
            proof {
                lemma_last_index_bounds(rest@, '/');
            }
            None
        },
        None => file_name(rest),
    }
}

/// The state of the file at `path`, if it is one to process: it still
/// exists, it lies directly inside `watched_dir`, and a pattern reads a
/// time from its name that exists in the local time zone.
pub fn intake(config: &Config, watched_dir: &str, path: &str, exists: bool, temp_dir: &str) -> (r:
    Option<State>)
    ensures
        !exists ==> r is None,
        child_name_of(watched_dir@, path@) is None ==> r is None,
        child_name_of(watched_dir@, path@) matches Some(name) && first_fields(
            sources_of(config.options.patterns@),
            name,
        ) is None ==> r is None,
        r matches Some(s) ==> s.paths() == seq![path@] && s.temp_dir@ == temp_dir@,
{
    if !exists {
        return None;
    }
    let name = match child_name(watched_dir, path) {
        Some(name) => name,
        None => return None,
    };
    let time = match parse_screenshot_name(&config.options.patterns, name.as_str()) {
        Some(time) => time,
        None => return None,
    };
    Some(State::new(String::from_str(path), time, String::from_str(temp_dir)))
}

/// The operations and the error of `plan` are those of `o`.
pub open spec fn plans(plan: Plan, o: Outcome) -> bool {
    op_views(plan.ops@) == o.ops && error_view(plan.error) == o.error
}

/// Handles a path reported by the watcher or found at startup: `None` where
/// it is not a file to process, and otherwise the plan of the whole pipeline
/// for it. `exists` is whether the path is still on disk.
pub fn handle(config: &Config, watched_dir: &str, path: &str, exists: bool, temp_dir: &str) -> (r:
    Option<Plan>)
    ensures
        !exists ==> r is None,
        child_name_of(watched_dir@, path@) is None ==> r is None,
        child_name_of(watched_dir@, path@) matches Some(name) && first_fields(
            sources_of(config.options.patterns@),
            name,
        ) is None ==> r is None,
        r matches Some(plan) ==> exists|t: UtcTime, offset: Option<i32>|
            plans(
                plan,
                #[trigger] pipeline_outcome(
                    config.pipeline@,
                    config.options.screenshots_dir@,
                    temp_dir@,
                    t,
                    offset,
                    seq![path@],
                ),
            ),
{
    let mut state = match intake(config, watched_dir, path, exists, temp_dir) {
        Some(state) => state,
        None => return None,
    };
    let ghost t = state.datetime;
    let offset = local_offset_at(state.datetime);
    let plan = run(config, &mut state, offset);
    assert(plans(
        plan,
        pipeline_outcome(
            config.pipeline@,
            config.options.screenshots_dir@,
            temp_dir@,
            t,
            offset,
            seq![path@],
        ),
    ));
    Some(plan)
}

/// A pipeline without jobs performs nothing, fails with nothing, and leaves
/// the paths as they were.
pub proof fn lemma_empty_pipeline(
    dir: Seq<char>,
    temp_dir: Seq<char>,
    t: UtcTime,
    local_offset: Option<i32>,
    paths: Seq<Seq<char>>,
)
    ensures
        pipeline_outcome(Seq::empty(), dir, temp_dir, t, local_offset, paths) == (Outcome {
            ops: Seq::empty(),
            error: None,
            paths,
        }),
{
}

} // verus!
