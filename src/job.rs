//! The jobs of a pipeline and the filesystem work each one plans for a file.
//!
//! A job does not touch the disk itself: it works out the operations to
//! perform, in order, and the paths the file will have once they are done.
//! A Move copies: the file stays where it was, and a copy is placed at the
//! destination.

use vstd::prelude::*;

use crate::clock::{offset_rendering, render_at_offset, render_utc, utc_rendering, UtcTime};
use crate::paths::{
    text_of,
    extension, file_name, file_name_of, join, joined, path_extension_of, with_extension,
    with_extension_of,
};
use crate::state::{paths_of, Config, State};

verus! {

/// The formats a file can be converted to.
#[derive(Clone, Copy, Debug, PartialEq, Eq, Structural)]
pub enum FileType {
    Png,
    Jpg { quality: u8 },
    Gif,
    Bmp,
    Ico,
    /// A negative quality asks for lossless encoding.
    WebP { quality: i8 },
}

/// How converted bytes are encoded.
#[derive(Clone, Copy, Debug, PartialEq, Eq, Structural)]
pub enum Encoding {
    Png,
    Jpeg { quality: u8 },
    Gif,
    Bmp,
    Ico,
    WebPLossless,
    /// Quality from 0 to 100.
    WebPLossy { quality: u8 },
}

pub open spec fn extension_text(t: FileType) -> Seq<char> {
    match t {
        FileType::Png => "png"@,
        FileType::Jpg { .. } => "jpg"@,
        FileType::Gif => "gif"@,
        FileType::Bmp => "bmp"@,
        FileType::Ico => "ico"@,
        FileType::WebP { .. } => "webp"@,
    }
}

pub open spec fn encoding_of(t: FileType) -> Encoding {
    match t {
        FileType::Png => Encoding::Png,
        FileType::Jpg { quality } => Encoding::Jpeg { quality },
        FileType::Gif => Encoding::Gif,
        FileType::Bmp => Encoding::Bmp,
        FileType::Ico => Encoding::Ico,
        FileType::WebP { quality } => if quality < 0 {
            Encoding::WebPLossless
        } else if quality > 100 {
            Encoding::WebPLossy { quality: 100 }
        } else {
            Encoding::WebPLossy { quality: quality as u8 }
        },
    }
}

impl FileType {
    /// The file extension of the format.
    pub fn extension(self) -> (r: &'static str)
        ensures
            r@ == extension_text(self),
    {
        match self {
            FileType::Png => "png",
            FileType::Jpg { .. } => "jpg",
            FileType::Gif => "gif",
            FileType::Bmp => "bmp",
            FileType::Ico => "ico",
            FileType::WebP { .. } => "webp",
        }
    }

    /// The encoding to write: WebP is lossless for a negative quality, and
    /// otherwise lossy with the quality capped at 100.
    pub fn encoding(self) -> (r: Encoding)
        ensures
            r == encoding_of(self),
    {
        match self {
            FileType::Png => Encoding::Png,
            FileType::Jpg { quality } => Encoding::Jpeg { quality },
            FileType::Gif => Encoding::Gif,
            FileType::Bmp => Encoding::Bmp,
            FileType::Ico => Encoding::Ico,
            FileType::WebP { quality } => {
                if quality < 0 {
                    Encoding::WebPLossless
                } else if quality > 100 {
                    Encoding::WebPLossy { quality: 100 }
                } else {
                    Encoding::WebPLossy { quality: quality as u8 }
                }
            },
        }
    }
}

/// One step of a pipeline.
#[derive(Clone, Debug)]
pub enum Job {
    /// Converts every copy into the scratch directory. With `keep_original`
    /// the last original stays on disk and on the list of paths; without it
    /// each original is removed.
    Convert { to: FileType, keep_original: bool },
    /// Copies every copy to `to`, rendered against the file's time, plus
    /// the copy's extension, under the screenshots directory. The time is
    /// shown in local time unless `local` is `Some(false)`.
    Move { to: String, local: Option<bool> },
}

/// One filesystem operation.
#[derive(Clone, Debug, PartialEq, Eq)]
pub enum FileOp {
    /// Decode the image at `source`, encode it to `dest`, and then remove
    /// `source` if `remove_source` is set.
    Convert { source: String, dest: String, encoding: Encoding, remove_source: bool },
    /// Create the missing parent directories of `dest` and copy `source` to it.
    Copy { source: String, dest: String },
}

/// Why a job could not plan its work.
#[derive(Clone, Debug, PartialEq, Eq)]
pub enum JobError {
    /// A Convert met a path without a file name.
    MissingFileName { path: String },
    /// A Move met a path without an extension.
    MissingExtension { path: String },
    /// A Move's template could not be rendered at the file's time.
    BadTemplate { template: String },
}

/// What a filesystem operation does, over the texts of its paths.
pub enum OpSpec {
    Convert { source: Seq<char>, dest: Seq<char>, encoding: Encoding, remove_source: bool },
    Copy { source: Seq<char>, dest: Seq<char> },
}

pub enum ErrorSpec {
    MissingFileName(Seq<char>),
    MissingExtension(Seq<char>),
    BadTemplate(Seq<char>),
}

impl View for FileOp {
    type V = OpSpec;

    open spec fn view(&self) -> OpSpec {
        match self {
            FileOp::Convert { source, dest, encoding, remove_source } => OpSpec::Convert {
                source: source@,
                dest: dest@,
                encoding: *encoding,
                remove_source: *remove_source,
            },
            FileOp::Copy { source, dest } => OpSpec::Copy { source: source@, dest: dest@ },
        }
    }
}

impl View for JobError {
    type V = ErrorSpec;

    open spec fn view(&self) -> ErrorSpec {
        match self {
            JobError::MissingFileName { path } => ErrorSpec::MissingFileName(path@),
            JobError::MissingExtension { path } => ErrorSpec::MissingExtension(path@),
            JobError::BadTemplate { template } => ErrorSpec::BadTemplate(template@),
        }
    }
}

/// The operations to perform, in order, and the error to report once they
/// are done, if any.
#[derive(Clone, Debug, PartialEq, Eq)]
pub struct Plan {
    pub ops: Vec<FileOp>,
    pub error: Option<JobError>,
}

/// What a job or a pipeline does to a file: its operations, its error, and
/// the paths it leaves in the state.
pub struct Outcome {
    pub ops: Seq<OpSpec>,
    pub error: Option<ErrorSpec>,
    pub paths: Seq<Seq<char>>,
}

pub open spec fn op_views(ops: Seq<FileOp>) -> Seq<OpSpec> {
    ops.map_values(|o: FileOp| o@)
}

pub open spec fn error_view(e: Option<JobError>) -> Option<ErrorSpec> {
    match e {
        Some(e) => Some(e@),
        None => None,
    }
}

/// `plan` and the paths left in `state` are `o`.
pub open spec fn carries_out(plan: Plan, state: State, o: Outcome) -> bool {
    &&& op_views(plan.ops@) == o.ops
    &&& error_view(plan.error) == o.error
    &&& state.paths() == o.paths
}

/// The number of leading entries of `s` that pass the test of a Convert
/// (`convert`) or of a Move.
pub open spec fn leading(s: Seq<Seq<char>>, convert: bool) -> nat
    decreases s.len(),
{
    if s.len() == 0 || !passes(s[0], convert) {
        0
    } else {
        1 + leading(s.drop_first(), convert)
    }
}

proof fn lemma_leading(s: Seq<Seq<char>>, ok: bool, i: int)
    requires
        0 <= i <= s.len(),
        forall|j: int| 0 <= j < i ==> passes(#[trigger] s[j], ok),
        i == s.len() || !passes(s[i], ok),
    ensures
        leading(s, ok) == i,
    decreases i,
{
    if i > 0 {
        let d = s.drop_first();
        assert(passes(s[0], ok));
        assert forall|j: int| 0 <= j < i - 1 implies passes(#[trigger] d[j], ok) by {
            assert(d[j] == s[j + 1]);
        }
        if i < s.len() {
            assert(d[i - 1] == s[i]);
        }
        lemma_leading(d, ok, i - 1);
    }
}

pub open spec fn has_file_name(p: Seq<char>) -> bool {
    file_name_of(p) is Some
}

pub open spec fn has_extension(p: Seq<char>) -> bool {
    path_extension_of(p) is Some
}

/// The test a job makes of each path before it plans work for it: a file
/// name for a Convert, an extension for a Move.
pub open spec fn passes(p: Seq<char>, convert: bool) -> bool {
    if convert {
        has_file_name(p)
    } else {
        has_extension(p)
    }
}

/// Where a Convert to `to` puts the copy at `p`.
pub open spec fn converted_path(temp_dir: Seq<char>, p: Seq<char>, to: FileType) -> Seq<char> {
    joined(temp_dir, with_extension_of(file_name_of(p)->0, extension_text(to)))
}

pub open spec fn convert_outcome(
    paths: Seq<Seq<char>>,
    temp_dir: Seq<char>,
    to: FileType,
    keep: bool,
) -> Outcome {
    let k = leading(paths, true);
    let ops = Seq::new(
        k,
        |i: int|
            OpSpec::Convert {
                source: paths[i],
                dest: converted_path(temp_dir, paths[i], to),
                encoding: encoding_of(to),
                remove_source: !keep,
            },
    );
    if k < paths.len() {
        Outcome { ops, error: Some(ErrorSpec::MissingFileName(paths[k as int])), paths }
    } else {
        let converted = Seq::new(paths.len(), |i: int| converted_path(temp_dir, paths[i], to));
        let kept = if keep && paths.len() > 0 {
            seq![paths.last()]
        } else {
            Seq::empty()
        };
        Outcome { ops, error: None, paths: converted + kept }
    }
}

/// Where a Move with the rendered name `rendered` puts the copy at `p`.
pub open spec fn moved_path(dir: Seq<char>, rendered: Seq<char>, p: Seq<char>) -> Seq<char> {
    joined(dir, rendered + seq!['.'] + path_extension_of(p)->0)
}

pub open spec fn move_outcome(
    paths: Seq<Seq<char>>,
    dir: Seq<char>,
    template: Seq<char>,
    rendered: Option<Seq<char>>,
) -> Outcome {
    match rendered {
        None => Outcome { ops: Seq::empty(), error: Some(ErrorSpec::BadTemplate(template)), paths },
        Some(r) => {
            let k = leading(paths, false);
            let ops = Seq::new(
                k,
                |i: int| OpSpec::Copy { source: paths[i], dest: moved_path(dir, r, paths[i]) },
            );
            if k < paths.len() {
                Outcome { ops, error: Some(ErrorSpec::MissingExtension(paths[k as int])), paths }
            } else {
                Outcome {
                    ops,
                    error: None,
                    paths: Seq::new(paths.len(), |i: int| moved_path(dir, r, paths[i])),
                }
            }
        },
    }
}

/// The name a Move renders: in UTC where `local` is `Some(false)`, and
/// otherwise at the local offset, which must be known.
pub open spec fn move_rendering(
    template: Seq<char>,
    local: Option<bool>,
    t: UtcTime,
    local_offset: Option<i32>,
) -> Option<Seq<char>> {
    if local == Some(false) {
        utc_rendering(template, t.seconds as int)
    } else {
        match local_offset {
            Some(o) => offset_rendering(template, t.seconds as int, o as int),
            None => None,
        }
    }
}

/// What `job` does to a file with the paths `paths` and the time `t`.
pub open spec fn job_outcome(
    job: Job,
    dir: Seq<char>,
    temp_dir: Seq<char>,
    t: UtcTime,
    local_offset: Option<i32>,
    paths: Seq<Seq<char>>,
) -> Outcome {
    match job {
        Job::Convert { to, keep_original } => convert_outcome(paths, temp_dir, to, keep_original),
        Job::Move { to, local } => move_outcome(
            paths,
            dir,
            to@,
            move_rendering(to@, local, t, local_offset),
        ),
    }
}

impl Job {
    /// Plans this job for the file in `state` and updates its paths. On an
    /// error the paths are left as they were. `local_offset` is the local
    /// time zone's offset, in seconds, at the file's time.
    pub fn execute(&self, config: &Config, state: &mut State, local_offset: Option<i32>) -> (r:
        Plan)
        ensures
            carries_out(
                r,
                *final(state),
                job_outcome(
                    *self,
                    config.options.screenshots_dir@,
                    old(state).temp_dir@,
                    old(state).datetime,
                    local_offset,
                    old(state).paths(),
                ),
            ),
            final(state).datetime == old(state).datetime,
            final(state).temp_dir == old(state).temp_dir,
    {
        match self {
            Job::Convert { to, keep_original } => Job::convert(state, *to, *keep_original),
            Job::Move { to, local } => {
                let rendered = if matches!(local, Some(false)) {
                    render_utc(to.as_str(), state.datetime)
                } else {
                    match local_offset {
                        Some(o) => render_at_offset(to.as_str(), state.datetime, o),
                        None => None,
                    }
                };
                Job::move_(config, state, to, rendered)
            },
        }
    }

    fn convert(state: &mut State, to: FileType, keep: bool) -> (r: Plan)
        ensures
            carries_out(
                r,
                *final(state),
                convert_outcome(old(state).paths(), old(state).temp_dir@, to, keep),
            ),
            final(state).datetime == old(state).datetime,
            final(state).temp_dir == old(state).temp_dir,
    {
        let ghost paths = old(state).paths();
        let ghost temp = state.temp_dir@;
        let ext = to.extension();
        let encoding = to.encoding();
        let mut ops: Vec<FileOp> = Vec::new();
        let mut moved: Vec<String> = Vec::new();
        let n = state.file_paths.len();
        let mut i: usize = 0;
        while i < n
            invariant
                n == state.file_paths@.len(),
                paths == state.paths(),
                temp == state.temp_dir@,
                ext@ == extension_text(to),
                encoding == encoding_of(to),
                state.datetime == old(state).datetime,
                state.temp_dir == old(state).temp_dir,
                state.file_paths == old(state).file_paths,
                i <= n,
                ops@.len() == i,
                moved@.len() == i,
                forall|j: int| 0 <= j < i ==> passes(#[trigger] paths[j], true),
                forall|j: int|
                    0 <= j < i ==> #[trigger] ops@[j]@ == (OpSpec::Convert {
                        source: paths[j],
                        dest: converted_path(temp, paths[j], to),
                        encoding: encoding_of(to),
                        remove_source: !keep,
                    }),
                forall|j: int|
                    0 <= j < i ==> #[trigger] moved@[j]@ == converted_path(temp, paths[j], to),
            decreases n - i,
        {
            let p = &state.file_paths[i];
            assert(p@ == paths[i as int]);
            match file_name(p.as_str()) {
                None => {
                    proof {
                        assert(!passes(paths[i as int], true));
                        lemma_leading(paths, true, i as int);
                        assert(op_views(ops@) =~= convert_outcome(paths, temp, to, keep).ops);
                    }
                    return Plan { ops, error: Some(JobError::MissingFileName { path: p.clone() }) };
                },
                Some(name) => {
                    let dest = join(state.temp_dir.as_str(), with_extension(name.as_str(), ext).as_str());
                    ops.push(
                        FileOp::Convert {
                            source: p.clone(),
                            dest: dest.clone(),
                            encoding,
                            remove_source: !keep,
                        },
                    );
                    assert(dest@ == converted_path(temp, paths[i as int], to));
                    moved.push(dest);
                },
            }
            i = i + 1;
        }
        proof {
            lemma_leading(paths, true, n as int);
        }
        let ghost converted = moved@;
        if keep && n > 0 {
            moved.push(state.file_paths[n - 1].clone());
        }
        state.file_paths = moved;
        proof {
            let o = convert_outcome(paths, temp, to, keep);
            assert(op_views(ops@) =~= o.ops);
            assert(paths_of(converted) =~= Seq::new(paths.len(), |j: int| converted_path(temp, paths[j], to)));
            if keep && n > 0 {
                assert(state.paths() =~= paths_of(converted) + seq![paths.last()]);
            } else {
                assert(state.paths() =~= paths_of(converted) + Seq::<Seq<char>>::empty());
            }
        }
        Plan { ops, error: None }
    }

    fn move_(config: &Config, state: &mut State, to: &String, rendered: Option<String>) -> (r: Plan)
        ensures
            carries_out(
                r,
                *final(state),
                move_outcome(
                    old(state).paths(),
                    config.options.screenshots_dir@,
                    to@,
                    text_of(rendered),
                ),
            ),
            final(state).datetime == old(state).datetime,
            final(state).temp_dir == old(state).temp_dir,
    {
        let ghost paths = old(state).paths();
        let ghost dir = config.options.screenshots_dir@;
        let base: &String = match &rendered {
            Some(r) => r,
            None => {
                let ops: Vec<FileOp> = Vec::new();
                assert(op_views(ops@) =~= Seq::<OpSpec>::empty());
                return Plan { ops, error: Some(JobError::BadTemplate { template: to.clone() }) };
            },
        };
        let ghost r = base@;
        let mut ops: Vec<FileOp> = Vec::new();
        let mut moved: Vec<String> = Vec::new();
        let n = state.file_paths.len();
        let mut i: usize = 0;
        while i < n
            invariant
                n == state.file_paths@.len(),
                paths == state.paths(),
                dir == config.options.screenshots_dir@,
                r == base@,
                text_of(rendered) == Some(r),
                state.datetime == old(state).datetime,
                state.temp_dir == old(state).temp_dir,
                state.file_paths == old(state).file_paths,
                i <= n,
                ops@.len() == i,
                moved@.len() == i,
                forall|j: int| 0 <= j < i ==> passes(#[trigger] paths[j], false),
                forall|j: int|
                    0 <= j < i ==> #[trigger] ops@[j]@ == (OpSpec::Copy {
                        source: paths[j],
                        dest: moved_path(dir, r, paths[j]),
                    }),
                forall|j: int| 0 <= j < i ==> #[trigger] moved@[j]@ == moved_path(dir, r, paths[j]),
            decreases n - i,
        {
            let p = &state.file_paths[i];
            assert(p@ == paths[i as int]);
            let ext = match file_name(p.as_str()) {
                Some(name) => extension(name.as_str()),
                None => None,
            };
            match ext {
                None => {
                    proof {
                        assert(!passes(paths[i as int], false));
                        lemma_leading(paths, false, i as int);
                        assert(op_views(ops@) =~= move_outcome(paths, dir, to@, Some(r)).ops);
                    }
                    return Plan { ops, error: Some(JobError::MissingExtension { path: p.clone() }) };
                },
                Some(ext) => {
                    let mut name = base.clone();
                    name.append(".");
                    name.append(ext.as_str());
                    proof {
                        reveal_strlit(".");
                    }
                    let dest = join(config.options.screenshots_dir.as_str(), name.as_str());
                    assert(dest@ == moved_path(dir, r, paths[i as int]));
                    ops.push(FileOp::Copy { source: p.clone(), dest: dest.clone() });
                    moved.push(dest);
                },
            }
            i = i + 1;
        }
        proof {
            lemma_leading(paths, false, n as int);
        }
        state.file_paths = moved;
        proof {
            let o = move_outcome(paths, dir, to@, Some(r));
            assert(op_views(ops@) =~= o.ops);
            assert(state.paths() =~= o.paths);
        }
        Plan { ops, error: None }
    }
}

/// A Convert that keeps originals, on paths that all have file names, ends
/// with every converted copy and the last original on the list of paths,
/// and removes no original from disk.
pub proof fn lemma_convert_keeps_original(paths: Seq<Seq<char>>, temp_dir: Seq<char>, to: FileType)
    requires
        paths.len() > 0,
        forall|i: int| 0 <= i < paths.len() ==> has_file_name(#[trigger] paths[i]),
    ensures
        ({
            let o = convert_outcome(paths, temp_dir, to, true);
            &&& o.error is None
            &&& o.paths.contains(paths.last())
            &&& forall|i: int|
                0 <= i < paths.len() ==> o.paths.contains(
                    #[trigger] converted_path(temp_dir, paths[i], to),
                )
            &&& forall|i: int|
                0 <= i < o.ops.len() ==> (#[trigger] o.ops[i] matches OpSpec::Convert {
                    remove_source,
                    ..
                } && !remove_source)
        }),
{
    lemma_leading(paths, true, paths.len() as int);
    let o = convert_outcome(paths, temp_dir, to, true);
    assert(o.paths[paths.len() as int] == paths.last());
    assert forall|i: int| 0 <= i < paths.len() implies o.paths.contains(
        #[trigger] converted_path(temp_dir, paths[i], to),
    ) by {
        assert(o.paths[i] == converted_path(temp_dir, paths[i], to));
    }
}

/// A Convert that drops originals, on paths that all have file names, where
/// no converted copy lands on an original path, removes every original and
/// leaves none of them on the list of paths.
pub proof fn lemma_convert_drops_original(paths: Seq<Seq<char>>, temp_dir: Seq<char>, to: FileType)
    requires
        forall|i: int| 0 <= i < paths.len() ==> has_file_name(#[trigger] paths[i]),
        forall|i: int, j: int|
            0 <= i < paths.len() && 0 <= j < paths.len() ==> converted_path(
                temp_dir,
                #[trigger] paths[j],
                to,
            ) != #[trigger] paths[i],
    ensures
        ({
            let o = convert_outcome(paths, temp_dir, to, false);
            &&& o.error is None
            &&& o.ops.len() == paths.len()
            &&& forall|i: int| 0 <= i < paths.len() ==> !o.paths.contains(#[trigger] paths[i])
            &&& forall|i: int|
                0 <= i < paths.len() ==> (#[trigger] o.ops[i] matches OpSpec::Convert {
                    source,
                    remove_source,
                    ..
                } && source == paths[i] && remove_source)
        }),
{
    lemma_leading(paths, true, paths.len() as int);
    let o = convert_outcome(paths, temp_dir, to, false);
    let converted = Seq::new(paths.len(), |i: int| converted_path(temp_dir, paths[i], to));
    assert(o.paths =~= converted);
    assert forall|i: int| 0 <= i < paths.len() implies !o.paths.contains(#[trigger] paths[i]) by {
        if o.paths.contains(paths[i]) {
            let j = choose|j: int| 0 <= j < o.paths.len() && o.paths[j] == paths[i];
            assert(converted[j] == converted_path(temp_dir, paths[j], to));
        }
    }
}

/// A Move on paths that all have extensions, with a template that renders,
/// copies each path to the rendered name plus its extension under the
/// screenshots directory, keeps each source, and leaves the copies on the
/// list of paths.
pub proof fn lemma_move_destination(
    paths: Seq<Seq<char>>,
    dir: Seq<char>,
    template: Seq<char>,
    rendered: Seq<char>,
)
    requires
        forall|i: int| 0 <= i < paths.len() ==> has_extension(#[trigger] paths[i]),
    ensures
        ({
            let o = move_outcome(paths, dir, template, Some(rendered));
            &&& o.error is None
            &&& o.ops.len() == paths.len()
            &&& o.paths.len() == paths.len()
            &&& forall|i: int|
                0 <= i < paths.len() ==> #[trigger] o.paths[i] == joined(
                    dir,
                    rendered + seq!['.'] + path_extension_of(paths[i])->0,
                ) && o.ops[i] == OpSpec::Copy { source: paths[i], dest: o.paths[i] }
        }),
{
    lemma_leading(paths, false, paths.len() as int);
}

} // verus!
