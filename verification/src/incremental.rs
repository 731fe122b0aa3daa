//! The build coordinator: one run's phases, from discovery through event
//! collection and application to compilation, rendering and the static
//! copy, with failure reachable from every phase. All I/O — walking the
//! tree, reading and writing files, the IPC listener, the subprocesses,
//! the toolchain — happens in the shell around the library; this state
//! machine decides what is registered, what is compiled, where outputs
//! go, and when the run aborts.

use vstd::prelude::*;
use crate::BuildError;
use crate::breadbox::ImportMap;
use crate::cache::{Cache, Target, init};
use crate::internal_api::{ModuleSpec, SetDataForSlug, spec_normal_slug, spec_normal_data,
    spec_slug_relative_filepath};
use crate::json::{JsonValue, json_text, to_json_string, is_null};
use crate::node::SubprocessOutcome;
use crate::paths::{spec_starts_with, spec_join_path, spec_with_extension, str_starts_with,
    str_ends_with, spec_ends_with, join_path, with_extension};
use crate::sources::{Source, SourceKind};

verus! {

pub struct IncrementalOpts {
    pub debug: bool,
    pub project_root_dir: String,
    pub output_dir: String,
    pub npm_bin_dir: String,
    pub toast_module_path: Option<String>,
    pub import_map: ImportMap,
}

/// One file the build owes: a registered source and the relative path its
/// outputs are written to.
#[derive(Debug)]
pub struct OutputFile {
    pub source_id: String,
    pub dest: String,
}

#[derive(Debug, Clone, Copy, PartialEq, Eq, Structural)]
pub enum Phase {
    Discover,
    CollectEvents,
    ApplyEvents,
    Compile,
    Render,
    CopyStatic,
    Done,
    Failed,
}

pub struct BuildRun {
    pub phase: Phase,
    pub cache: Cache,
    pub output_files: Vec<OutputFile>,
    pub events: Vec<SetDataForSlug>,
    /// How many of `events` have been applied.
    pub applied: usize,
    /// The error the run failed with, exactly when `phase` is `Failed`.
    pub error: Option<BuildError>,
}

/// A file the shell must write for an applied event.
#[derive(Debug)]
pub struct FileWrite {
    pub path: String,
    pub contents: String,
}

/// What applying one event asks of the shell: compile a dynamic page,
/// write a data document — either, both or neither.
#[derive(Debug)]
pub struct EventPlan {
    pub compile: Option<OutputFile>,
    pub data_write: Option<FileWrite>,
}

impl BuildRun {
    pub open spec fn wf(self) -> bool {
        &&& self.cache.wf()
        &&& self.applied <= self.events@.len()
        &&& (self.error is Some <==> self.phase == Phase::Failed)
    }

    /// A fresh run: everything empty, ready to discover sources.
    pub fn start() -> (r: BuildRun)
        ensures
            r.wf(),
            r.phase == Phase::Discover,
            forall|id: Seq<char>| r.cache.source_of(id) is None,
            forall|id: Seq<char>, t: Target| r.cache.entry_of(id, t) is None,
            forall|id: Seq<char>, t: Target| !r.cache.in_flight(id, t),
            forall|p: Seq<char>| r.cache.read_of(p) is None,
            r.cache.invocations == 0,
            r.output_files@.len() == 0,
            r.events@.len() == 0,
            r.applied == 0,
            r.error is None,
    {
        BuildRun {
            phase: Phase::Discover,
            cache: init(),
            output_files: Vec::new(),
            events: Vec::new(),
            applied: 0,
            error: None,
        }
    }

    /// Fails the run: any phase can reach `Failed`, and the error is kept
    /// for reporting.
    pub fn fail(&mut self, e: BuildError)
        requires
            old(self).wf(),
        ensures
            final(self).wf(),
            final(self).phase == Phase::Failed,
            final(self).error == Some(e),
            final(self).cache == old(self).cache,
            final(self).output_files == old(self).output_files,
            final(self).events == old(self).events,
            final(self).applied == old(self).applied,
    {
        self.phase = Phase::Failed;
        self.error = Some(e);
    }

    /// Registers one discovered on-disk source and, the first time the id
    /// is seen, adds its 1:1 output file.
    pub fn register_source_file(&mut self, id: &str, relative_path: &str, content: &str)
        requires
            old(self).wf(),
            old(self).phase == Phase::Discover,
        ensures
            final(self).wf(),
            final(self).phase == Phase::Discover,
            match final(self).cache.source_of(id@) {
                Some(src) => {
                    &&& src.source@ == content@
                    &&& src.kind matches SourceKind::File { relative_path: p } && p@
                        == relative_path@
                },
                None => false,
            },
            forall|other: Seq<char>| other != id@ ==> final(self).cache.source_of(other) == old(
                self,
            ).cache.source_of(other),
            final(self).cache.invocations == old(self).cache.invocations,
            if has_output_for(old(self).output_files@, id@) {
                final(self).output_files@ == old(self).output_files@
            } else {
                final(self).output_files@.len() == old(self).output_files@.len() + 1
                    && final(self).output_files@.subrange(
                    0,
                    old(self).output_files@.len() as int,
                ) == old(self).output_files@ && final(self).output_files@.last().source_id@ == id@
                    && final(self).output_files@.last().dest@ == id@
            },
            final(self).events == old(self).events,
            final(self).applied == old(self).applied,
            final(self).error == old(self).error,
    {
        self.cache.set_source(
            id,
            Source { source: content.to_owned(), kind: SourceKind::File {
                relative_path: relative_path.to_owned(),
            } },
        );
        if !has_output(&self.output_files, id) {
            self.output_files.push(OutputFile { source_id: id.to_owned(), dest: id.to_owned() });
            proof {
                assert(self.output_files@.subrange(0, old(self).output_files@.len() as int)
                    =~= old(self).output_files@);
            }
        }
    }

    /// Discovery is complete; the run starts collecting events.
    pub fn finish_discovery(&mut self)
        requires
            old(self).wf(),
            old(self).phase == Phase::Discover,
        ensures
            final(self).wf(),
            *final(self) == (BuildRun { phase: Phase::CollectEvents, ..*old(self) }),
    {
        self.phase = Phase::CollectEvents;
    }

    /// The data-sourcing subprocess was skipped because the project has no
    /// toast configuration file; collecting ends with zero events owed.
    pub fn data_source_skipped(&mut self)
        requires
            old(self).wf(),
            old(self).phase == Phase::CollectEvents,
        ensures
            final(self).wf(),
            *final(self) == *old(self),
    {
    }

    /// How the data-sourcing subprocess ended. A zero exit is required to
    /// proceed, even with zero events collected; any other exit, and a
    /// failure to start at all, abort the run before any event is
    /// applied.
    pub fn data_source_exited(&mut self, outcome: &SubprocessOutcome)
        requires
            old(self).wf(),
            old(self).phase == Phase::CollectEvents,
        ensures
            final(self).wf(),
            final(self).cache == old(self).cache,
            final(self).output_files == old(self).output_files,
            final(self).events == old(self).events,
            final(self).applied == old(self).applied,
            match *outcome {
                SubprocessOutcome::Exited { code } => if code == 0 {
                    *final(self) == *old(self)
                } else {
                    &&& final(self).phase == Phase::Failed
                    &&& match final(self).error {
                        Some(BuildError::SubprocessFailure { name, code: c }) => name@
                            == "sourceData"@ && c == code,
                        _ => false,
                    }
                },
                SubprocessOutcome::SpawnFailed => {
                    &&& final(self).phase == Phase::Failed
                    &&& match final(self).error {
                        Some(BuildError::SubprocessSpawnFailure { name }) => name@
                            == "sourceData"@,
                        _ => false,
                    }
                },
            },
    {
        match crate::node::subprocess_outcome("sourceData", outcome) {
            Ok(()) => {},
            Err(e) => {
                self.phase = Phase::Failed;
                self.error = Some(e);
            },
        }
    }

    /// Takes the events drained from the listener's queue, in arrival
    /// order, normalizes each, and moves the run to applying them. Events
    /// are applied in this order and only ever once.
    pub fn drain_events(&mut self, drained: Vec<SetDataForSlug>)
        requires
            old(self).wf(),
            old(self).phase == Phase::CollectEvents,
        ensures
            final(self).wf(),
            final(self).phase == Phase::ApplyEvents,
            final(self).cache == old(self).cache,
            final(self).output_files == old(self).output_files,
            final(self).applied == 0,
            final(self).error is None,
            final(self).events@.len() == drained@.len(),
            forall|i: int| 0 <= i < drained@.len() ==> {
                &&& #[trigger] final(self).events@[i].slug@ == spec_normal_slug(
                    drained@[i].slug@,
                )
                &&& final(self).events@[i].data == spec_normal_data(drained@[i].data)
                &&& final(self).events@[i].component == drained@[i].component
                &&& final(self).events@[i].wrapper == drained@[i].wrapper
            },
    {
        let ghost orig = drained@;
        let mut drained = drained;
        let mut out: Vec<SetDataForSlug> = Vec::new();
        let n = drained.len();
        let mut i: usize = 0;
        while i < n
            invariant
                n == orig.len(),
                i <= n,
                drained@ == orig.skip(i as int),
                out@.len() == i,
                forall|j: int| 0 <= j < i ==> {
                    &&& #[trigger] out@[j].slug@ == spec_normal_slug(orig[j].slug@)
                    &&& out@[j].data == spec_normal_data(orig[j].data)
                    &&& out@[j].component == orig[j].component
                    &&& out@[j].wrapper == orig[j].wrapper
                },
            decreases n - i,
        {
            proof {
                assert(orig.skip(i as int)[0] == orig[i as int]);
            }
            let mut ev = drained.remove(0);
            ev.normalize();
            out.push(ev);
            proof {
                assert(drained@ =~= orig.skip(i + 1));
            }
            i = i + 1;
        }
        self.events = out;
        self.applied = 0;
        self.phase = Phase::ApplyEvents;
    }

    /// Applies the next collected event, in collection order. An inline
    /// component is registered as a dynamic source under the slug and
    /// handed back as a compile job; the other component kinds, and any
    /// wrapper, are not implemented and abort the run rather than produce
    /// wrong output. Present, non-null, non-empty data becomes a write of
    /// its exact serialization at `<output_dir>/<slug path>.json`.
    pub fn apply_next_event(&mut self, output_dir: &str) -> (r: Result<EventPlan, BuildError>)
        requires
            old(self).wf(),
            old(self).phase == Phase::ApplyEvents,
            old(self).applied < old(self).events@.len(),
        ensures
            final(self).wf(),
            final(self).output_files == old(self).output_files,
            final(self).events == old(self).events,
            final(self).cache.invocations == old(self).cache.invocations,
            ({
                let ev = old(self).events@[old(self).applied as int];
                match r {
                    Err(e) => {
                        &&& e matches BuildError::UnimplementedSpec { .. }
                        &&& (match ev.component {
                            Some(ModuleSpec::NoModule) => true,
                            Some(ModuleSpec::File { .. }) => true,
                            _ => ev.wrapper is Some,
                        })
                        &&& final(self).phase == Phase::Failed
                        &&& final(self).error == Some(e)
                        &&& final(self).applied == old(self).applied
                        &&& final(self).cache == old(self).cache
                    },
                    Ok(plan) => {
                        &&& (ev.component matches Some(ModuleSpec::NoModule)) == false
                        &&& (ev.component matches Some(ModuleSpec::File { .. })) == false
                        &&& ev.wrapper is None
                        &&& final(self).phase == Phase::ApplyEvents
                        &&& final(self).error is None
                        &&& final(self).applied == old(self).applied + 1
                        &&& (match ev.component {
                            Some(ModuleSpec::Source { code }) => {
                                &&& (match final(self).cache.source_of(ev.slug@) {
                                    Some(src) => src.source@ == code@ && src.kind matches
                                        SourceKind::Raw,
                                    None => false,
                                })
                                &&& forall|other: Seq<char>| other != ev.slug@
                                    ==> final(self).cache.source_of(other) == old(
                                    self,
                                ).cache.source_of(other)
                                &&& (match plan.compile {
                                    Some(of) => of.source_id@ == ev.slug@ && of.dest@
                                        == spec_with_extension(
                                        spec_slug_relative_filepath(ev.slug@),
                                        "js"@,
                                    ),
                                    None => false,
                                })
                            },
                            _ => final(self).cache == old(self).cache && plan.compile is None,
                        })
                        &&& (match ev.data {
                            Some(JsonValue::Null) => plan.data_write is None,
                            Some(d) => {
                                match plan.data_write {
                                    Some(w) => w.path@ == spec_with_extension(
                                        spec_join_path(
                                            output_dir@,
                                            spec_slug_relative_filepath(ev.slug@),
                                        ),
                                        "json"@,
                                    ) && w.contents@ == json_text(d),
                                    None => false,
                                }
                            },
                            None => plan.data_write is None,
                        })
                    },
                }
            }),
    {
        let idx = self.applied;
        let n = self.events.len();
        let bad_component = match &self.events[idx].component {
            Some(ModuleSpec::NoModule) => true,
            Some(ModuleSpec::File { .. }) => true,
            _ => false,
        };
        if bad_component {
            let what = String::from_str("only inline source components are implemented");
            self.phase = Phase::Failed;
            self.error = Some(BuildError::UnimplementedSpec { what: what.clone() });
            return Err(BuildError::UnimplementedSpec { what });
        }
        if self.events[idx].wrapper.is_some() {
            let what = String::from_str("wrappers are not implemented");
            self.phase = Phase::Failed;
            self.error = Some(BuildError::UnimplementedSpec { what: what.clone() });
            return Err(BuildError::UnimplementedSpec { what });
        }
        let slug_path = self.events[idx].slug_as_relative_filepath();
        let compile: Option<OutputFile> = match &self.events[idx].component {
            Some(ModuleSpec::Source { code }) => {
                let slug = self.events[idx].slug.clone();
                let code = code.clone();
                self.cache.set_source(
                    slug.as_str(),
                    Source { source: code, kind: SourceKind::Raw },
                );
                Some(OutputFile {
                    source_id: slug,
                    dest: with_extension(slug_path.as_str(), "js"),
                })
            },
            _ => None,
        };
        let data_write: Option<FileWrite> = match &self.events[idx].data {
            Some(d) => {
                if is_null(d) {
                    None
                } else {
                    let joined = join_path(output_dir, slug_path.as_str());
                    Some(FileWrite {
                        path: with_extension(joined.as_str(), "json"),
                        contents: to_json_string(d),
                    })
                }
            },
            None => None,
        };
        self.applied = idx + 1;
        Ok(EventPlan { compile, data_write })
    }

    /// Every event is applied; the run compiles the discovered sources.
    pub fn finish_apply(&mut self)
        requires
            old(self).wf(),
            old(self).phase == Phase::ApplyEvents,
            old(self).applied == old(self).events@.len(),
        ensures
            final(self).wf(),
            *final(self) == (BuildRun { phase: Phase::Compile, ..*old(self) }),
    {
        self.phase = Phase::Compile;
    }

    /// Compilation of the discovered sources is complete; render next.
    pub fn finish_compile(&mut self)
        requires
            old(self).wf(),
            old(self).phase == Phase::Compile,
        ensures
            final(self).wf(),
            *final(self) == (BuildRun { phase: Phase::Render, ..*old(self) }),
    {
        self.phase = Phase::Render;
    }

    /// The file list the renderer is invoked with: the page-like
    /// discovered outputs — those under `src/pages` — in discovery order,
    /// then every dynamically declared page, in event order.
    pub fn render_file_list(&self) -> (r: Vec<String>)
        ensures
            strings_view(r@) == spec_page_dests(self.output_files@) + spec_remote_dests(
                self.events@,
            ),
    {
        let mut out: Vec<String> = Vec::new();
        let n = self.output_files.len();
        let mut i: usize = 0;
        while i < n
            invariant
                n == self.output_files@.len(),
                i <= n,
                strings_view(out@) == spec_page_dests(self.output_files@.subrange(0, i as int)),
            decreases n - i,
        {
            if is_page_path(self.output_files[i].dest.as_str()) {
                out.push(self.output_files[i].dest.clone());
            }
            proof {
                assert(self.output_files@.subrange(0, i + 1) =~= self.output_files@.subrange(
                    0,
                    i as int,
                ).push(self.output_files@[i as int]));
                lemma_page_dests_snoc(
                    self.output_files@.subrange(0, i as int),
                    self.output_files@[i as int],
                );
                assert(strings_view(out@) =~= spec_page_dests(
                    self.output_files@.subrange(0, i + 1),
                ));
            }
            i = i + 1;
        }
        proof {
            assert(self.output_files@.subrange(0, n as int) =~= self.output_files@);
        }
        let m = self.events.len();
        let mut j: usize = 0;
        while j < m
            invariant
                m == self.events@.len(),
                j <= m,
                strings_view(out@) == spec_page_dests(self.output_files@) + spec_remote_dests(
                    self.events@.subrange(0, j as int),
                ),
            decreases m - j,
        {
            let ghost before = strings_view(out@);
            let ghost x = self.events@[j as int];
            if self.events[j].component.is_some() {
                let p = self.events[j].slug_as_relative_filepath();
                let d = with_extension(p.as_str(), "js");
                proof {
                    assert(d@ == spec_with_extension(spec_slug_relative_filepath(x.slug@), "js"@));
                }
                out.push(d);
                proof {
                    assert(strings_view(out@) =~= before.push(
                        spec_with_extension(spec_slug_relative_filepath(x.slug@), "js"@),
                    ));
                }
            }
            proof {
                assert(self.events@.subrange(0, j + 1) =~= self.events@.subrange(0, j as int).push(
                    x,
                ));
                lemma_remote_dests_snoc(self.events@.subrange(0, j as int), x);
                if x.component is Some {
                    assert(before.push(
                        spec_with_extension(spec_slug_relative_filepath(x.slug@), "js"@),
                    ) =~= spec_page_dests(self.output_files@) + spec_remote_dests(
                        self.events@.subrange(0, j + 1),
                    ));
                } else {
                    assert(strings_view(out@) =~= spec_page_dests(self.output_files@)
                        + spec_remote_dests(self.events@.subrange(0, j + 1)));
                }
            }
            j = j + 1;
        }
        proof {
            assert(self.events@.subrange(0, m as int) =~= self.events@);
        }
        out
    }

    /// How the renderer ended: success moves on to the static copy,
    /// anything else aborts the run with the observed code.
    pub fn renderer_exited(&mut self, outcome: &SubprocessOutcome)
        requires
            old(self).wf(),
            old(self).phase == Phase::Render,
        ensures
            final(self).wf(),
            final(self).cache == old(self).cache,
            final(self).output_files == old(self).output_files,
            final(self).events == old(self).events,
            final(self).applied == old(self).applied,
            match *outcome {
                SubprocessOutcome::Exited { code } => if code == 0 {
                    final(self).phase == Phase::CopyStatic && final(self).error is None
                } else {
                    &&& final(self).phase == Phase::Failed
                    &&& match final(self).error {
                        Some(BuildError::SubprocessFailure { name, code: c }) => name@
                            == "renderHTML"@ && c == code,
                        _ => false,
                    }
                },
                SubprocessOutcome::SpawnFailed => {
                    &&& final(self).phase == Phase::Failed
                    &&& match final(self).error {
                        Some(BuildError::SubprocessSpawnFailure { name }) => name@
                            == "renderHTML"@,
                        _ => false,
                    }
                },
            },
    {
        match crate::node::subprocess_outcome("renderHTML", outcome) {
            Ok(()) => {
                self.phase = Phase::CopyStatic;
            },
            Err(e) => {
                self.phase = Phase::Failed;
                self.error = Some(e);
            },
        }
    }

    /// The static copy — performed only when both directories exist, and
    /// skipped otherwise — is behind us; the run is done.
    pub fn finish_static(&mut self)
        requires
            old(self).wf(),
            old(self).phase == Phase::CopyStatic,
        ensures
            final(self).wf(),
            *final(self) == (BuildRun { phase: Phase::Done, ..*old(self) }),
    {
        self.phase = Phase::Done;
    }
}

/// The static copy runs exactly when both the static source directory and
/// the output directory exist.
pub fn should_copy_static(static_dir_exists: bool, output_dir_exists: bool) -> (r: bool)
    ensures
        r == (static_dir_exists && output_dir_exists),
{
    static_dir_exists && output_dir_exists
}

/// Whether an output-file list already owes an output for this id.
pub open spec fn has_output_for(s: Seq<OutputFile>, id: Seq<char>) -> bool {
    exists|i: int| 0 <= i < s.len() && s[i].source_id@ == id
}

fn has_output(files: &Vec<OutputFile>, id: &str) -> (r: bool)
    ensures
        r == has_output_for(files@, id@),
{
    let owned = id.to_owned();
    let n = files.len();
    for i in 0..n
        invariant
            n == files@.len(),
            owned@ == id@,
            forall|j: int| 0 <= j < i ==> files@[j].source_id@ != id@,
    {
        if files[i].source_id == owned {
            return true;
        }
    }
    false
}

/// The project-root prefix that discovered paths are relative to.
pub open spec fn spec_root_prefix(root: Seq<char>) -> Seq<char> {
    if root.len() > 0 && root[root.len() - 1] == '/' {
        root
    } else {
        root + seq!['/']
    }
}

/// The registry id of a walked path: only `.js` files under the project
/// root count, keyed by their path relative to the root.
pub open spec fn spec_discovered_id(root: Seq<char>, path: Seq<char>) -> Option<Seq<char>> {
    let prefix = spec_root_prefix(root);
    if spec_ends_with(path, ".js"@) && spec_starts_with(path, prefix) {
        Some(path.subrange(prefix.len() as int, path.len() as int))
    } else {
        None
    }
}

pub fn discovered_source_id(project_root_dir: &str, path: &str) -> (r: Option<String>)
    ensures
        match r {
            Some(id) => spec_discovered_id(project_root_dir@, path@) == Some(id@),
            None => spec_discovered_id(project_root_dir@, path@) is None,
        },
{
    let n = project_root_dir.unicode_len();
    let prefix: String = if n > 0 && project_root_dir.get_char(n - 1) == '/' {
        project_root_dir.to_owned()
    } else {
        proof {
            reveal_strlit("/");
        }
        let mut p = project_root_dir.to_owned();
        p.append("/");
        proof {
            assert(p@ =~= project_root_dir@ + seq!['/']);
        }
        p
    };
    if str_ends_with(path, ".js") && str_starts_with(path, prefix.as_str()) {
        let m = path.unicode_len();
        let k = prefix.as_str().unicode_len();
        Some(path.substring_char(k, m).to_owned())
    } else {
        None
    }
}

/// Where a compiled file's two outputs are written: browser output under
/// the output directory, server output under the temporary directory.
pub fn compile_paths(output_dir: &str, tmp_dir: &str, dest: &str) -> (r: (String, String))
    ensures
        r.0@ == spec_join_path(output_dir@, dest@),
        r.1@ == spec_join_path(tmp_dir@, dest@),
{
    (join_path(output_dir, dest), join_path(tmp_dir, dest))
}

/// The temporary directory of a run: `.tmp` under the project root.
pub fn tmp_dir_of(project_root_dir: &str) -> (r: String)
    ensures
        r@ == spec_join_path(project_root_dir@, ".tmp"@),
{
    join_path(project_root_dir, ".tmp")
}

/// A destination counts as a page when it lies under `src/pages`, with
/// either separator.
pub open spec fn spec_is_page_path(p: Seq<char>) -> bool {
    spec_starts_with(p, "src/pages"@) || spec_starts_with(p, "src\\pages"@)
}

fn is_page_path(p: &str) -> (r: bool)
    ensures
        r == spec_is_page_path(p@),
{
    str_starts_with(p, "src/pages") || str_starts_with(p, "src\\pages")
}

pub open spec fn strings_view(s: Seq<String>) -> Seq<Seq<char>> {
    s.map_values(|x: String| x@)
}

/// The page-like destinations of the discovered outputs, in order.
pub open spec fn spec_page_dests(s: Seq<OutputFile>) -> Seq<Seq<char>>
    decreases s.len(),
{
    if s.len() == 0 {
        Seq::empty()
    } else {
        let rest = spec_page_dests(s.drop_first());
        if spec_is_page_path(s[0].dest@) {
            seq![s[0].dest@] + rest
        } else {
            rest
        }
    }
}

/// The output paths of the dynamically declared pages — events carrying a
/// component — in event order.
pub open spec fn spec_remote_dests(s: Seq<SetDataForSlug>) -> Seq<Seq<char>>
    decreases s.len(),
{
    if s.len() == 0 {
        Seq::empty()
    } else {
        let rest = spec_remote_dests(s.drop_first());
        if s[0].component is Some {
            seq![spec_with_extension(spec_slug_relative_filepath(s[0].slug@), "js"@)] + rest
        } else {
            rest
        }
    }
}

proof fn lemma_page_dests_snoc(s: Seq<OutputFile>, x: OutputFile)
    ensures
        spec_page_dests(s.push(x)) == spec_page_dests(s) + if spec_is_page_path(x.dest@) {
            seq![x.dest@]
        } else {
            Seq::<Seq<char>>::empty()
        },
    decreases s.len(),
{
    let t = s.push(x);
    if s.len() == 0 {
        assert(t[0] == x);
        assert(t.drop_first() =~= Seq::<OutputFile>::empty());
        assert(spec_page_dests(Seq::<OutputFile>::empty()) == Seq::<Seq<char>>::empty());
        assert(spec_page_dests(t) =~= spec_page_dests(s) + if spec_is_page_path(x.dest@) {
            seq![x.dest@]
        } else {
            Seq::<Seq<char>>::empty()
        });
    } else {
        assert(t[0] == s[0]);
        assert(t.drop_first() =~= s.drop_first().push(x));
        lemma_page_dests_snoc(s.drop_first(), x);
        assert(spec_page_dests(t) =~= spec_page_dests(s) + if spec_is_page_path(x.dest@) {
            seq![x.dest@]
        } else {
            Seq::<Seq<char>>::empty()
        });
    }
}

proof fn lemma_remote_dests_snoc(s: Seq<SetDataForSlug>, x: SetDataForSlug)
    ensures
        spec_remote_dests(s.push(x)) == spec_remote_dests(s) + if x.component is Some {
            seq![spec_with_extension(spec_slug_relative_filepath(x.slug@), "js"@)]
        } else {
            Seq::<Seq<char>>::empty()
        },
    decreases s.len(),
{
    let t = s.push(x);
    if s.len() == 0 {
        assert(t[0] == x);
        assert(t.drop_first() =~= Seq::<SetDataForSlug>::empty());
        assert(spec_remote_dests(Seq::<SetDataForSlug>::empty()) == Seq::<Seq<char>>::empty());
        assert(spec_remote_dests(t) =~= spec_remote_dests(s) + if x.component is Some {
            seq![spec_with_extension(spec_slug_relative_filepath(x.slug@), "js"@)]
        } else {
            Seq::<Seq<char>>::empty()
        });
    } else {
        assert(t[0] == s[0]);
        assert(t.drop_first() =~= s.drop_first().push(x));
        lemma_remote_dests_snoc(s.drop_first(), x);
        assert(spec_remote_dests(t) =~= spec_remote_dests(s) + if x.component is Some {
            seq![spec_with_extension(spec_slug_relative_filepath(x.slug@), "js"@)]
        } else {
            Seq::<Seq<char>>::empty()
        });
    }
}

} // verus!
