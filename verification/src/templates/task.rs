//! The installation task.
//!
//! One task is bound to one project root, one template root and one
//! template definition, and runs its stages in a fixed order: creating
//! the directories the definition declares, creating the directories its
//! copy records target, copying files, and generating files from content
//! templates. The engine plans each stage as a list of concrete
//! operations on plain paths and text; the surrounding application
//! performs the filesystem writes in plan order and reports progress.

use vstd::prelude::*;

use crate::context::{Context, ContextView, merged};
use crate::templates::config::{
    Config, JsonConfig, SourceEntry, SourceRecord, record_to, resolved_from, resolved_to,
    sources_ok,
};
use crate::templates::renderer::{TemplateRenreder, rendered};
use crate::templates::utils::{
    combos, ctxs_view, dims_of, generate_subcontexts, get_template_variables, merge_contexts,
    variables_list,
};

verus! {

/// The stages of one installation task, in running order.
#[derive(Clone, Copy, PartialEq, Eq, Structural, Debug)]
pub enum InstallStage {
    Started,
    CreatingTemplateDirectories,
    CreatingTargetDirectories,
    CopyingFiles,
    GeneratingFilesFromTemplates,
    Finished,
}

/// The position of a stage in the fixed running order.
pub open spec fn stage_index(s: InstallStage) -> int {
    match s {
        InstallStage::Started => 0,
        InstallStage::CreatingTemplateDirectories => 1,
        InstallStage::CreatingTargetDirectories => 2,
        InstallStage::CopyingFiles => 3,
        InstallStage::GeneratingFilesFromTemplates => 4,
        InstallStage::Finished => 5,
    }
}

/// The stage that follows `s`, if any: the order is strict, with no
/// branching back, and `Finished` is terminal.
pub open spec fn next_stage_spec(s: InstallStage) -> Option<InstallStage> {
    match s {
        InstallStage::Started => Some(InstallStage::CreatingTemplateDirectories),
        InstallStage::CreatingTemplateDirectories => Some(
            InstallStage::CreatingTargetDirectories,
        ),
        InstallStage::CreatingTargetDirectories => Some(InstallStage::CopyingFiles),
        InstallStage::CopyingFiles => Some(InstallStage::GeneratingFilesFromTemplates),
        InstallStage::GeneratingFilesFromTemplates => Some(InstallStage::Finished),
        InstallStage::Finished => None,
    }
}

/// The stage that follows `s`; `None` exactly at the terminal stage.
/// Every successor stands one position later in the running order.
pub fn next_stage(s: InstallStage) -> (r: Option<InstallStage>)
    ensures
        r == next_stage_spec(s),
        r matches Some(n) ==> stage_index(n) == stage_index(s) + 1,
        r is None <==> s is Finished,
{
    match s {
        InstallStage::Started => Some(InstallStage::CreatingTemplateDirectories),
        InstallStage::CreatingTemplateDirectories => Some(
            InstallStage::CreatingTargetDirectories,
        ),
        InstallStage::CreatingTargetDirectories => Some(InstallStage::CopyingFiles),
        InstallStage::CopyingFiles => Some(InstallStage::GeneratingFilesFromTemplates),
        InstallStage::GeneratingFilesFromTemplates => Some(InstallStage::Finished),
        InstallStage::Finished => None,
    }
}

/// `rel` under the directory `base`.
pub open spec fn path_join(base: Seq<char>, rel: Seq<char>) -> Seq<char> {
    base + "/"@ + rel
}

/// Joins `rel` under the directory `base`.
pub fn join_path(base: &String, rel: &String) -> (r: String)
    ensures
        r@ == path_join(base@, rel@),
{
    let mut out = base.clone();
    out.append("/");
    out.append(rel.as_str());
    out
}

/// The directory patterns a definition declares.
pub open spec fn directory_patterns(config: JsonConfig) -> Seq<Seq<char>> {
    match config.files.directories {
        Some(d) => d.deep_view(),
        None => Seq::empty(),
    }
}

/// The output paths a definition declares.
pub open spec fn generated_patterns(config: JsonConfig) -> Seq<Seq<char>> {
    match config.files.generated {
        Some(g) => g.deep_view(),
        None => Seq::empty(),
    }
}

/// The directories one pattern requires under the project root: the
/// pattern itself when it holds no placeholder, one rendering per
/// subcontext of its variables' expansion otherwise.
pub open spec fn pattern_directories(
    project: Seq<char>,
    ctx: ContextView,
    pattern: Seq<char>,
) -> Seq<Seq<char>> {
    let vars = variables_list(pattern);
    if vars.len() == 0 {
        seq![path_join(project, pattern)]
    } else {
        combos(dims_of(ctx, vars)).map_values(
            |sub: ContextView| path_join(project, rendered(pattern, sub)),
        )
    }
}

/// The directories the declared patterns require, in declaration order.
pub open spec fn template_directories_spec(
    project: Seq<char>,
    ctx: ContextView,
    patterns: Seq<Seq<char>>,
) -> Seq<Seq<char>>
    decreases patterns.len(),
{
    if patterns.len() == 0 {
        seq![]
    } else {
        template_directories_spec(project, ctx, patterns.drop_last()) + pattern_directories(
            project,
            ctx,
            patterns.last(),
        )
    }
}

/// The directories the copy records target, in record order: one per
/// record whose target is not the project root itself.
pub open spec fn target_directories_spec(
    project: Seq<char>,
    sources: Seq<SourceRecord>,
) -> Seq<Seq<char>>
    decreases sources.len(),
{
    if sources.len() == 0 {
        seq![]
    } else {
        let front = target_directories_spec(project, sources.drop_last());
        let to = resolved_to(record_to(sources.last()));
        if to != "."@ {
            front.push(path_join(project, to))
        } else {
            front
        }
    }
}

/// The copy operations of the task, in record order: the resolved source
/// path, and the target directory resolved against the project root.
pub open spec fn copy_operations_spec(
    project: Seq<char>,
    template: Seq<char>,
    sources: Seq<SourceRecord>,
) -> Seq<(Seq<char>, Seq<char>)>
    decreases sources.len(),
{
    if sources.len() == 0 {
        seq![]
    } else {
        let front = copy_operations_spec(project, template, sources.drop_last());
        let record = sources.last();
        let from = resolved_from(template, record.from->Some_0@);
        let to = resolved_to(record_to(record));
        let target = if to == "."@ {
            project
        } else {
            path_join(project, to)
        };
        front.push((from, target))
    }
}

/// One file to generate: its concrete path and its rendered contents.
pub struct GeneratedFile {
    pub path: String,
    pub content: String,
}

impl View for GeneratedFile {
    type V = (Seq<char>, Seq<char>);

    open spec fn view(&self) -> (Seq<char>, Seq<char>) {
        (self.path@, self.content@)
    }
}

/// The views of a list of generated files.
pub open spec fn files_view(fs: Seq<GeneratedFile>) -> Seq<(Seq<char>, Seq<char>)> {
    fs.map_values(|f: GeneratedFile| f@)
}

/// The files one output pattern requires: rendered once against the full
/// context when the pattern holds no placeholder; otherwise one file per
/// subcontext, its path rendered from the subcontext and its contents
/// rendered from the subcontext merged into the full context with the
/// pattern's own variables protected.
pub open spec fn pattern_generated_files(
    project: Seq<char>,
    ctx: ContextView,
    template_data: Seq<char>,
    pattern: Seq<char>,
) -> Seq<(Seq<char>, Seq<char>)> {
    let pvars = variables_list(pattern);
    if pvars.len() == 0 {
        seq![(path_join(project, pattern), rendered(template_data, ctx))]
    } else {
        combos(dims_of(ctx, pvars)).map_values(
            |sub: ContextView|
                (
                    path_join(project, rendered(pattern, sub)),
                    rendered(template_data, merged(sub, ctx, pvars)),
                ),
        )
    }
}

/// The files one content template requires: those of every declared
/// output pattern that ends in the template's logical name, in order.
pub open spec fn generated_files_spec(
    project: Seq<char>,
    ctx: ContextView,
    template_data: Seq<char>,
    template_name: Seq<char>,
    patterns: Seq<Seq<char>>,
) -> Seq<(Seq<char>, Seq<char>)>
    decreases patterns.len(),
{
    if patterns.len() == 0 {
        seq![]
    } else {
        let front = generated_files_spec(
            project,
            ctx,
            template_data,
            template_name,
            patterns.drop_last(),
        );
        if crate::text::ends_with(patterns.last(), template_name) {
            front + pattern_generated_files(project, ctx, template_data, patterns.last())
        } else {
            front
        }
    }
}

/// An installation task: one project root, one template root, one
/// definition.
pub struct Task {
    pub project_directory_path: String,
    pub template_directory_path: String,
    pub config: Config,
}

impl Task {
    /// A task bound to the given roots and definition.
    pub fn new(
        project_directory_path: &String,
        template_directory_path: &String,
        config: Config,
    ) -> (r: Self)
        ensures
            r.project_directory_path@ == project_directory_path@,
            r.template_directory_path@ == template_directory_path@,
            r.config == config,
    {
        Task {
            project_directory_path: project_directory_path.clone(),
            template_directory_path: template_directory_path.clone(),
            config,
        }
    }

    /// The progress message of a stage. The terminal message names the
    /// template the task installed.
    pub fn stage_message(&self, stage: InstallStage) -> (r: String)
        requires
            stage is Finished ==> self.config.template_name is Some,
        ensures
            stage is Started ==> r@ == "Preparing contexts for the task..."@,
            stage is CreatingTemplateDirectories ==> r@
                == "[1/4] Creating directories based on template definitions..."@,
            stage is CreatingTargetDirectories ==> r@
                == "[2/4] Creating directories for the sources..."@,
            stage is CopyingFiles ==> r@ == "[3/4] Copying files into the target directory..."@,
            stage is GeneratingFilesFromTemplates ==> r@
                == "[4/4] Generating files from the templates..."@,
            stage is Finished ==> r@ == "Installation of the `"@
                + self.config.template_name->Some_0@ + "` template has been completed."@,
    {
        match stage {
            InstallStage::Started => String::from_str("Preparing contexts for the task..."),
            InstallStage::CreatingTemplateDirectories => String::from_str(
                "[1/4] Creating directories based on template definitions...",
            ),
            InstallStage::CreatingTargetDirectories => String::from_str(
                "[2/4] Creating directories for the sources...",
            ),
            InstallStage::CopyingFiles => String::from_str(
                "[3/4] Copying files into the target directory...",
            ),
            InstallStage::GeneratingFilesFromTemplates => String::from_str(
                "[4/4] Generating files from the templates...",
            ),
            InstallStage::Finished => {
                let name = match &self.config.template_name {
                    Some(n) => n,
                    None => unreached(),
                };
                let mut out = String::from_str("Installation of the `");
                out.append(name.as_str());
                out.append("` template has been completed.");
                out
            },
        }
    }

    /// Plans the directory-creation stage: one concrete directory path
    /// per declared pattern, multiplied over the subcontext expansion of
    /// the placeholders a pattern carries.
    pub fn create_template_directories(&self, context: &Context) -> (r: Vec<String>)
        requires
            context.wf(),
        ensures
            r.deep_view() == template_directories_spec(
                self.project_directory_path@,
                context@,
                directory_patterns(self.config.json_config),
            ),
    {
        let renderer = TemplateRenreder::new();
        let ghost project = self.project_directory_path@;
        let ghost patterns = directory_patterns(self.config.json_config);
        let mut out: Vec<String> = Vec::new();
        match &self.config.json_config.files.directories {
            Some(directories) => {
                let n = directories.len();
                let mut i: usize = 0;
                while i < n
                    invariant
                        0 <= i <= n,
                        n == directories@.len(),
                        directories.deep_view() == patterns,
                        project == self.project_directory_path@,
                        context.wf(),
                        out.deep_view() == template_directories_spec(
                            project,
                            context@,
                            patterns.subrange(0, i as int),
                        ),
                    decreases n - i,
                {
                    let ghost sub1 = patterns.subrange(0, i + 1);
                    proof {
                        assert(sub1.drop_last() =~= patterns.subrange(0, i as int));
                        assert(sub1.last() == patterns[i as int]);
                    }
                    let directory = &directories[i];
                    let ghost pre = out.deep_view();
                    let path_variables = get_template_variables(directory);
                    if path_variables.len() == 0 {
                        let joined = join_path(&self.project_directory_path, directory);
                        out.push(joined);
                        proof {
                            assert(out.deep_view() =~= pre.push(
                                path_join(project, directory@),
                            ));
                            assert(pattern_directories(project, context@, directory@) =~= seq![
                                path_join(project, directory@),
                            ]);
                            assert(out.deep_view() =~= template_directories_spec(
                                project,
                                context@,
                                sub1,
                            ));
                        }
                    } else {
                        let ghost dims = dims_of(context@, variables_list(directory@));
                        let subcontexts = generate_subcontexts(context, &path_variables);
                        let m = subcontexts.len();
                        let mut batch: Vec<String> = Vec::new();
                        let mut k: usize = 0;
                        while k < m
                            invariant
                                0 <= k <= m,
                                m == subcontexts@.len(),
                                context.wf(),
                                project == self.project_directory_path@,
                                ctxs_view(subcontexts@) == combos(dims),
                                forall|p: int|
                                    0 <= p < m ==> (#[trigger] subcontexts@[p]).wf(),
                                batch@.len() == k,
                                forall|p: int|
                                    0 <= p < k ==> #[trigger] batch.deep_view()[p] == path_join(
                                        project,
                                        rendered(directory@, combos(dims)[p]),
                                    ),
                            decreases m - k,
                        {
                            let ghost bpre = batch.deep_view();
                            let rendered_path = renderer.render_template(
                                directory,
                                &subcontexts[k],
                            );
                            let joined = join_path(&self.project_directory_path, &rendered_path);
                            batch.push(joined);
                            proof {
                                assert(subcontexts@[k as int]@ == ctxs_view(subcontexts@)[
                                k as int]);
                                assert(batch.deep_view() =~= bpre.push(
                                    path_join(
                                        project,
                                        rendered(directory@, combos(dims)[k as int]),
                                    ),
                                ));
                            }
                            k += 1;
                        }
                        let mut batch2 = batch;
                        let ghost batchv = batch2.deep_view();
                        out.append(&mut batch2);
                        proof {
                            assert(batchv =~= pattern_directories(
                                project,
                                context@,
                                directory@,
                            ));
                            assert(out.deep_view() =~= pre + batchv);
                            assert(out.deep_view() =~= template_directories_spec(
                                project,
                                context@,
                                sub1,
                            ));
                        }
                    }
                    i += 1;
                }
                proof {
                    assert(patterns.subrange(0, n as int) =~= patterns);
                }
            },
            None => {
                proof {
                    assert(out.deep_view() =~= template_directories_spec(
                        project,
                        context@,
                        patterns,
                    ));
                }
            },
        }
        out
    }

    /// Plans the source-directory stage: the target directory of every
    /// copy record other than the project root itself.
    pub fn create_target_directories(&self) -> (r: Vec<String>)
        requires
            sources_ok(self.config.json_config.files.sources@),
        ensures
            r.deep_view() == target_directories_spec(
                self.project_directory_path@,
                self.config.json_config.files.sources@,
            ),
    {
        let ghost project = self.project_directory_path@;
        let ghost sources = self.config.json_config.files.sources@;
        let entries = self.config.get_source_entries(&self.template_directory_path);
        let dot = String::from_str(".");
        let n = entries.len();
        let mut out: Vec<String> = Vec::new();
        let mut i: usize = 0;
        while i < n
            invariant
                0 <= i <= n,
                n == entries@.len(),
                n == sources.len(),
                project == self.project_directory_path@,
                sources == self.config.json_config.files.sources@,
                dot@ == "."@,
                forall|k: int|
                    0 <= k < n ==> (#[trigger] entries@[k]).to@ == resolved_to(
                        record_to(sources[k]),
                    ),
                out.deep_view() == target_directories_spec(project, sources.subrange(0, i as int)),
            decreases n - i,
        {
            let ghost sub1 = sources.subrange(0, i + 1);
            proof {
                assert(sub1.drop_last() =~= sources.subrange(0, i as int));
                assert(sub1.last() == sources[i as int]);
            }
            let ghost pre = out.deep_view();
            if !(entries[i].to == dot) {
                let joined = join_path(&self.project_directory_path, &entries[i].to);
                out.push(joined);
                proof {
                    assert(out.deep_view() =~= pre.push(
                        path_join(project, resolved_to(record_to(sources[i as int]))),
                    ));
                    assert(out.deep_view() == target_directories_spec(project, sub1));
                }
            } else {
                proof {
                    assert(out.deep_view() == target_directories_spec(project, sub1));
                }
            }
            i += 1;
        }
        proof {
            assert(sources.subrange(0, n as int) =~= sources);
        }
        out
    }

    /// Plans the copy stage: for every copy record, the resolved source
    /// path and the concrete target directory, the project root when the
    /// record targets it.
    pub fn copy_files(&self) -> (r: Vec<SourceEntry>)
        requires
            sources_ok(self.config.json_config.files.sources@),
        ensures
            r@.map_values(|e: SourceEntry| (e.from@, e.to@)) == copy_operations_spec(
                self.project_directory_path@,
                self.template_directory_path@,
                self.config.json_config.files.sources@,
            ),
    {
        let ghost project = self.project_directory_path@;
        let ghost template = self.template_directory_path@;
        let ghost sources = self.config.json_config.files.sources@;
        let entries = self.config.get_source_entries(&self.template_directory_path);
        let dot = String::from_str(".");
        let n = entries.len();
        let mut out: Vec<SourceEntry> = Vec::new();
        let mut i: usize = 0;
        while i < n
            invariant
                0 <= i <= n,
                n == entries@.len(),
                n == sources.len(),
                project == self.project_directory_path@,
                template == self.template_directory_path@,
                sources == self.config.json_config.files.sources@,
                dot@ == "."@,
                forall|k: int|
                    0 <= k < n ==> (#[trigger] entries@[k]).to@ == resolved_to(
                        record_to(sources[k]),
                    ),
                forall|k: int|
                    0 <= k < n ==> (#[trigger] entries@[k]).from@ == resolved_from(
                        template,
                        sources[k].from->Some_0@,
                    ),
                out@.map_values(|e: SourceEntry| (e.from@, e.to@)) == copy_operations_spec(
                    project,
                    template,
                    sources.subrange(0, i as int),
                ),
            decreases n - i,
        {
            let ghost sub1 = sources.subrange(0, i + 1);
            proof {
                assert(sub1.drop_last() =~= sources.subrange(0, i as int));
                assert(sub1.last() == sources[i as int]);
            }
            let ghost pre = out@.map_values(|e: SourceEntry| (e.from@, e.to@));
            let from = entries[i].from.clone();
            let to = if entries[i].to == dot {
                self.project_directory_path.clone()
            } else {
                join_path(&self.project_directory_path, &entries[i].to)
            };
            out.push(SourceEntry { from, to });
            proof {
                let tov = resolved_to(record_to(sources[i as int]));
                let target = if tov == "."@ {
                    project
                } else {
                    path_join(project, tov)
                };
                assert(out@.map_values(|e: SourceEntry| (e.from@, e.to@)) =~= pre.push(
                    (resolved_from(template, sources[i as int].from->Some_0@), target),
                ));
                assert(out@.map_values(|e: SourceEntry| (e.from@, e.to@))
                    == copy_operations_spec(project, template, sub1));
            }
            i += 1;
        }
        proof {
            assert(sources.subrange(0, n as int) =~= sources);
        }
        out
    }

    /// Plans the generation stage for one content template: for every
    /// declared output pattern ending in the template's logical name, the
    /// concrete output paths and their rendered contents. A pattern
    /// without placeholders is rendered once against the full context;
    /// one with placeholders yields one file per subcontext, the
    /// subcontext merged into the full context with the pattern's own
    /// variables protected.
    pub fn create_files_from_templates(
        &self,
        template_name: &String,
        template_data: &String,
        context: &Context,
    ) -> (r: Vec<GeneratedFile>)
        requires
            context.wf(),
        ensures
            files_view(r@) == generated_files_spec(
                self.project_directory_path@,
                context@,
                template_data@,
                template_name@,
                generated_patterns(self.config.json_config),
            ),
    {
        let renderer = TemplateRenreder::new();
        let ghost project = self.project_directory_path@;
        let ghost patterns = generated_patterns(self.config.json_config);
        let mut out: Vec<GeneratedFile> = Vec::new();
        match &self.config.json_config.files.generated {
            Some(generated) => {
                let n = generated.len();
                let mut i: usize = 0;
                while i < n
                    invariant
                        0 <= i <= n,
                        n == generated@.len(),
                        generated.deep_view() == patterns,
                        project == self.project_directory_path@,
                        context.wf(),
                        files_view(out@) == generated_files_spec(
                            project,
                            context@,
                            template_data@,
                            template_name@,
                            patterns.subrange(0, i as int),
                        ),
                    decreases n - i,
                {
                    let ghost sub1 = patterns.subrange(0, i + 1);
                    proof {
                        assert(sub1.drop_last() =~= patterns.subrange(0, i as int));
                        assert(sub1.last() == patterns[i as int]);
                    }
                    let pattern = &generated[i];
                    let ghost pre = files_view(out@);
                    if crate::text::ends_with_str(pattern.as_str(), template_name.as_str()) {
                        let path_variables = get_template_variables(pattern);
                        if path_variables.len() == 0 {
                            let content = renderer.render_template(template_data, context);
                            let joined = join_path(&self.project_directory_path, pattern);
                            out.push(GeneratedFile { path: joined, content });
                            proof {
                                assert(files_view(out@) =~= pre.push(
                                    (
                                        path_join(project, pattern@),
                                        rendered(template_data@, context@),
                                    ),
                                ));
                                assert(pattern_generated_files(
                                    project,
                                    context@,
                                    template_data@,
                                    pattern@,
                                ) =~= seq![
                                    (
                                        path_join(project, pattern@),
                                        rendered(template_data@, context@),
                                    ),
                                ]);
                                assert(files_view(out@) =~= generated_files_spec(
                                    project,
                                    context@,
                                    template_data@,
                                    template_name@,
                                    sub1,
                                ));
                            }
                        } else {
                            let ghost pvars = variables_list(pattern@);
                            let ghost dims = dims_of(context@, pvars);
                            let subcontexts = generate_subcontexts(context, &path_variables);
                            let m = subcontexts.len();
                            let mut batch: Vec<GeneratedFile> = Vec::new();
                            let mut k: usize = 0;
                            while k < m
                                invariant
                                    0 <= k <= m,
                                    m == subcontexts@.len(),
                                    context.wf(),
                                    project == self.project_directory_path@,
                                    pvars == variables_list(pattern@),
                                    path_variables.deep_view() == pvars,
                                    ctxs_view(subcontexts@) == combos(dims),
                                    dims == dims_of(context@, pvars),
                                    forall|p: int|
                                        0 <= p < m ==> (#[trigger] subcontexts@[p]).wf(),
                                    batch@.len() == k,
                                    forall|p: int|
                                        0 <= p < k ==> #[trigger] files_view(batch@)[p] == (
                                            path_join(
                                                project,
                                                rendered(pattern@, combos(dims)[p]),
                                            ),
                                            rendered(
                                                template_data@,
                                                merged(combos(dims)[p], context@, pvars),
                                            ),
                                        ),
                                decreases m - k,
                            {
                                let ghost bpre = files_view(batch@);
                                let rendered_path = renderer.render_template(
                                    pattern,
                                    &subcontexts[k],
                                );
                                let joined = join_path(
                                    &self.project_directory_path,
                                    &rendered_path,
                                );
                                let mut used_context = subcontexts[k].clone();
                                merge_contexts(&mut used_context, context, &path_variables);
                                let content = renderer.render_template(
                                    template_data,
                                    &used_context,
                                );
                                batch.push(GeneratedFile { path: joined, content });
                                proof {
                                    assert(subcontexts@[k as int]@ == ctxs_view(subcontexts@)[
                                    k as int]);
                                    assert(files_view(batch@) =~= bpre.push(
                                        (
                                            path_join(
                                                project,
                                                rendered(pattern@, combos(dims)[k as int]),
                                            ),
                                            rendered(
                                                template_data@,
                                                merged(combos(dims)[k as int], context@, pvars),
                                            ),
                                        ),
                                    ));
                                }
                                k += 1;
                            }
                            let mut batch2 = batch;
                            let ghost batchv = files_view(batch2@);
                            out.append(&mut batch2);
                            proof {
                                assert(batchv =~= pattern_generated_files(
                                    project,
                                    context@,
                                    template_data@,
                                    pattern@,
                                ));
                                assert(files_view(out@) =~= pre + batchv);
                                assert(files_view(out@) =~= generated_files_spec(
                                    project,
                                    context@,
                                    template_data@,
                                    template_name@,
                                    sub1,
                                ));
                            }
                        }
                    } else {
                        proof {
                            assert(files_view(out@) == generated_files_spec(
                                project,
                                context@,
                                template_data@,
                                template_name@,
                                sub1,
                            ));
                        }
                    }
                    i += 1;
                }
                proof {
                    assert(patterns.subrange(0, n as int) =~= patterns);
                }
            },
            None => {
                proof {
                    assert(files_view(out@) =~= generated_files_spec(
                        project,
                        context@,
                        template_data@,
                        template_name@,
                        patterns,
                    ));
                }
            },
        }
        out
    }
}

/// The set of directories present after the creation stage ran over
/// `existing`: directory creation is modelled as set union, because
/// creating a directory that already exists is not an error.
pub open spec fn dirs_after(existing: Set<Seq<char>>, dirs: Seq<Seq<char>>) -> Set<Seq<char>>
    decreases dirs.len(),
{
    if dirs.len() == 0 {
        existing
    } else {
        dirs_after(existing, dirs.drop_last()).insert(dirs.last())
    }
}

proof fn lemma_dirs_after_superset(existing: Set<Seq<char>>, dirs: Seq<Seq<char>>)
    ensures
        forall|d: Seq<char>| existing.contains(d) ==> #[trigger] dirs_after(
            existing,
            dirs,
        ).contains(d),
        forall|k: int| 0 <= k < dirs.len() ==> dirs_after(existing, dirs).contains(
            #[trigger] dirs[k],
        ),
    decreases dirs.len(),
{
    if dirs.len() > 0 {
        lemma_dirs_after_superset(existing, dirs.drop_last());
        assert forall|d: Seq<char>| existing.contains(d) implies #[trigger] dirs_after(
            existing,
            dirs,
        ).contains(d) by {
            assert(dirs_after(existing, dirs.drop_last()).contains(d));
        }
        assert forall|k: int| 0 <= k < dirs.len() implies dirs_after(existing, dirs).contains(
            #[trigger] dirs[k],
        ) by {
            if k < dirs.len() - 1 {
                assert(dirs.drop_last()[k] == dirs[k]);
            }
        }
    }
}

proof fn lemma_dirs_after_absorbed(base: Set<Seq<char>>, dirs: Seq<Seq<char>>)
    requires
        forall|k: int| 0 <= k < dirs.len() ==> base.contains(#[trigger] dirs[k]),
    ensures
        dirs_after(base, dirs) =~= base,
    decreases dirs.len(),
{
    if dirs.len() > 0 {
        lemma_dirs_after_absorbed(base, dirs.drop_last());
    }
}

/// Running the directory-creation stage twice with the same directory
/// list leaves exactly the state one run leaves: directory creation is
/// idempotent, and a directory that already exists is never an error.
pub proof fn lemma_directory_creation_idempotent(
    existing: Set<Seq<char>>,
    dirs: Seq<Seq<char>>,
)
    ensures
        dirs_after(dirs_after(existing, dirs), dirs) == dirs_after(existing, dirs),
{
    lemma_dirs_after_superset(existing, dirs);
    lemma_dirs_after_absorbed(dirs_after(existing, dirs), dirs);
    assert(dirs_after(dirs_after(existing, dirs), dirs) =~= dirs_after(existing, dirs));
}

} // verus!
