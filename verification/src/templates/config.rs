//! The template definition: the declarative configuration one template
//! carries, its validation, and the rendering context built from it.

use vstd::prelude::*;

use crate::catalog::NamedPath;
use crate::context::{
    Context, ContextEntry, ContextView, ctx_insert, ctx_wf, merged, merged_from,
};
use crate::error::Error;
use crate::text::{starts_with, starts_with_str};
use crate::value::{VarValue, VarValueView, supported_value};

verus! {

/// One copy record of a template definition, as read from the
/// configuration: either field may still be missing until validation.
pub struct SourceRecord {
    pub from: Option<String>,
    pub to: Option<String>,
}

/// One resolved copy operation: where to copy from, and the directory
/// under the project root to copy into.
pub struct SourceEntry {
    pub from: String,
    pub to: String,
}

/// The file-related sections of a template definition.
pub struct FilesConfig {
    /// Copy records, applied in order.
    pub sources: Vec<SourceRecord>,
    /// Output paths to generate, each ending in a content template name.
    pub generated: Option<Vec<String>>,
    /// Directory patterns to create under the project root.
    pub directories: Option<Vec<String>>,
    /// Content templates: logical name and path relative to the template
    /// root.
    pub templates: Option<Vec<NamedPath>>,
}

/// The hook section of a template definition.
pub struct ScriptsConfig {
    /// Command lines run after generation, in order.
    pub after_init: Option<Vec<String>>,
}

impl Default for ScriptsConfig {
    /// An empty hook list.
    fn default() -> (r: Self)
        ensures
            r.after_init matches Some(v) && v@.len() == 0,
    {
        ScriptsConfig { after_init: Some(Vec::new()) }
    }
}

/// A template definition as the configuration loader hands it over.
pub struct JsonConfig {
    pub files: FilesConfig,
    pub variables: Option<Vec<ContextEntry>>,
    pub scripts: Option<ScriptsConfig>,
}

/// Whether every copy record carries both of its fields.
pub open spec fn sources_ok(sources: Seq<SourceRecord>) -> bool {
    forall|i: int|
        0 <= i < sources.len() ==> (#[trigger] sources[i]).from is Some && sources[i].to is Some
}

/// Whether every declared variable value is a string or a list.
pub open spec fn vars_ok(vars: Seq<ContextEntry>) -> bool {
    forall|i: int| 0 <= i < vars.len() ==> supported_value((#[trigger] vars[i]).value@)
}

/// The position of the first declared variable whose value has an
/// unsupported shape.
pub open spec fn first_bad_var(vars: Seq<ContextEntry>) -> int
    decreases vars.len(),
{
    if vars.len() == 0 {
        0
    } else if !supported_value(vars[0].value@) {
        0
    } else {
        1 + first_bad_var(vars.drop_first())
    }
}

proof fn lemma_first_bad_var(vars: Seq<ContextEntry>, i: int)
    requires
        0 <= i < vars.len(),
        !supported_value(vars[i].value@),
        forall|k: int| 0 <= k < i ==> supported_value((#[trigger] vars[k]).value@),
    ensures
        first_bad_var(vars) == i,
    decreases vars.len(),
{
    if i > 0 {
        lemma_first_bad_var(vars.drop_first(), i - 1);
    }
}

/// The declared variables of a definition, or none.
pub open spec fn variables_of(config: JsonConfig) -> Seq<ContextEntry> {
    match config.variables {
        Some(vars) => vars@,
        None => Seq::empty(),
    }
}

impl JsonConfig {
    /// Replaces every absent optional section by its empty default, and
    /// leaves present sections as they are.
    pub fn init_missing_fields(&mut self)
        ensures
            old(self).files.generated is Some ==> final(self).files.generated == old(
                self,
            ).files.generated,
            old(self).files.generated is None ==> (final(self).files.generated matches Some(g)
                && g@.len() == 0),
            old(self).files.directories is Some ==> final(self).files.directories == old(
                self,
            ).files.directories,
            old(self).files.directories is None ==> (final(self).files.directories matches Some(d)
                && d@.len() == 0),
            old(self).files.templates is Some ==> final(self).files.templates == old(
                self,
            ).files.templates,
            old(self).files.templates is None ==> (final(self).files.templates matches Some(t)
                && t@.len() == 0),
            old(self).variables is Some ==> final(self).variables == old(self).variables,
            old(self).variables is None ==> (final(self).variables matches Some(v) && v@.len()
                == 0),
            old(self).scripts is Some ==> final(self).scripts == old(self).scripts,
            old(self).scripts is None ==> (final(self).scripts matches Some(s) && (
            s.after_init matches Some(a) && a@.len() == 0)),
            final(self).files.sources == old(self).files.sources,
    {
        if self.files.generated.is_none() {
            self.files.generated = Some(Vec::new());
        }
        if self.files.directories.is_none() {
            self.files.directories = Some(Vec::new());
        }
        if self.files.templates.is_none() {
            self.files.templates = Some(Vec::new());
        }
        if self.variables.is_none() {
            self.variables = Some(Vec::new());
        }
        if self.scripts.is_none() {
            self.scripts = Some(ScriptsConfig::default());
        }
    }

    /// Validates the definition: every copy record must carry `from` and
    /// `to`, and every declared variable must hold a string or a list of
    /// strings. The first offence is reported with `config_path` in the
    /// message.
    pub fn validate(&self, config_path: &String) -> (r: Result<(), Error>)
        ensures
            r is Ok <==> (sources_ok(self.files.sources@) && vars_ok(variables_of(*self))),
            !sources_ok(self.files.sources@) ==> (r matches Err(e) && (e matches Error::Other(m)
                && m@ == config_path@
                + " -> Each record in sources must have specified `from` and `to` keys. Please, check for correctness the config.json file."@)),
            sources_ok(self.files.sources@) && !vars_ok(variables_of(*self)) ==> (r matches Err(e)
                && (e matches Error::Other(m) && m@ == config_path@ + ": The variables."@
                + variables_of(*self)[first_bad_var(variables_of(*self))].key@
                + " key has unsupported value type. The configuration supports only string and array of strings types."@)),
    {
        let ns = self.files.sources.len();
        let mut i: usize = 0;
        while i < ns
            invariant
                0 <= i <= ns,
                ns == self.files.sources@.len(),
                forall|k: int|
                    0 <= k < i ==> (#[trigger] self.files.sources@[k]).from is Some
                        && self.files.sources@[k].to is Some,
            decreases ns - i,
        {
            let record = &self.files.sources[i];
            if record.from.is_none() || record.to.is_none() {
                let mut message = config_path.clone();
                message.append(
                    " -> Each record in sources must have specified `from` and `to` keys. Please, check for correctness the config.json file.",
                );
                return Err(Error::Other(message));
            }
            i += 1;
        }
        match &self.variables {
            Some(vars) => {
                let nv = vars.len();
                let mut j: usize = 0;
                while j < nv
                    invariant
                        0 <= j <= nv,
                        nv == vars@.len(),
                        vars@ == variables_of(*self),
                        sources_ok(self.files.sources@),
                        forall|k: int|
                            0 <= k < j ==> supported_value((#[trigger] vars@[k]).value@),
                    decreases nv - j,
                {
                    if !vars[j].value.is_supported() {
                        proof {
                            lemma_first_bad_var(vars@, j as int);
                        }
                        let mut message = config_path.clone();
                        message.append(": The variables.");
                        message.append(vars[j].key.as_str());
                        message.append(
                            " key has unsupported value type. The configuration supports only string and array of strings types.",
                        );
                        return Err(Error::Other(message));
                    }
                    j += 1;
                }
            },
            None => {},
        }
        Ok(())
    }
}

/// The source path of a copy record resolved against the template root:
/// the root itself when `from` starts with the current-directory marker,
/// the root extended by `from` otherwise.
pub open spec fn resolved_from(template_path: Seq<char>, from: Seq<char>) -> Seq<char> {
    if starts_with(from, "."@) {
        template_path
    } else {
        template_path + "/"@ + from
    }
}

/// The target directory of a copy record: a leading `./` is removed, and
/// a missing `to` means the project root.
pub open spec fn resolved_to(to: Option<Seq<char>>) -> Seq<char> {
    match to {
        Some(t) => if starts_with(t, "./"@) {
            t.subrange(2, t.len() as int)
        } else {
            t
        },
        None => "."@,
    }
}

/// The `to` field of a record, if present.
pub open spec fn record_to(record: SourceRecord) -> Option<Seq<char>> {
    match record.to {
        Some(t) => Some(t@),
        None => None,
    }
}

/// The view of a list of declared variables as context bindings.
pub open spec fn entries_view(entries: Seq<ContextEntry>) -> ContextView {
    entries.map_values(|e: ContextEntry| e@)
}

/// Applies user-supplied overrides to declared variables: an override
/// replaces the default of the variable it names, keeping its position,
/// and an override naming no declared variable is appended. User values
/// take precedence over declared defaults.
pub fn override_variables(variables: Vec<ContextEntry>, overrides: &Vec<ContextEntry>) -> (r: Vec<
    ContextEntry,
>)
    requires
        ctx_wf(entries_view(variables@)),
    ensures
        ctx_wf(entries_view(r@)),
        entries_view(r@) == merged(entries_view(variables@), entries_view(overrides@), seq![]),
{
    let ghost vars0 = entries_view(variables@);
    let ghost over = entries_view(overrides@);
    let mut ctx = Context { entries: variables };
    proof {
        assert(ctx@ =~= vars0);
    }
    let n = overrides.len();
    let mut i: usize = 0;
    while i < n
        invariant
            0 <= i <= n,
            n == overrides@.len(),
            over == entries_view(overrides@),
            ctx.wf(),
            merged(vars0, over, seq![]) == merged_from(ctx@, over, seq![], i as int),
        decreases n - i,
    {
        let entry = &overrides[i];
        let ghost pre = ctx@;
        ctx.insert(entry.key.clone(), entry.value.clone());
        proof {
            assert(ctx@ == ctx_insert(pre, over[i as int].0, over[i as int].1));
            assert(!crate::context::name_in(seq![], over[i as int].0));
            assert(merged_from(pre, over, seq![], i as int) == merged_from(
                ctx@,
                over,
                seq![],
                i + 1,
            ));
        }
        i += 1;
    }
    let r = ctx.entries;
    proof {
        assert(entries_view(r@) =~= merged(vars0, over, seq![]));
    }
    r
}

/// A template definition bound to the names of one installation.
pub struct Config {
    pub project_name: Option<String>,
    pub template_name: Option<String>,
    pub json_config: JsonConfig,
}

/// The key under which every context carries the project name.
pub open spec fn project_name_key() -> Seq<char> {
    "project_name"@
}

/// The key under which every context carries the template name.
pub open spec fn template_name_key() -> Seq<char> {
    "template_name"@
}

/// The name a reserved key falls back to when none was bound.
pub open spec fn unknown_name() -> Seq<char> {
    "unknown"@
}

/// Whether a declared variable takes part in the rendering context: its
/// value must be supported and its name must not shadow a reserved key.
pub open spec fn keeps_entry(e: ContextEntry) -> bool {
    supported_value(e.value@) && e.key@ != project_name_key() && e.key@ != template_name_key()
}

/// The declared variables that the rendering context keeps, in order.
pub open spec fn kept_vars(vars: Seq<ContextEntry>) -> Seq<ContextEntry>
    decreases vars.len(),
{
    if vars.len() == 0 {
        seq![]
    } else {
        let front = kept_vars(vars.drop_last());
        if keeps_entry(vars.last()) {
            front.push(vars.last())
        } else {
            front
        }
    }
}

proof fn lemma_kept_vars_distinct(vars: Seq<ContextEntry>)
    requires
        forall|i: int, j: int| 0 <= i < j < vars.len() ==> vars[i].key@ != vars[j].key@,
    ensures
        forall|p: int|
            0 <= p < kept_vars(vars).len() ==> keeps_entry(#[trigger] kept_vars(vars)[p])
                && exists|q: int| 0 <= q < vars.len() && kept_vars(vars)[p].key@ == vars[q].key@,
        forall|p1: int, p2: int|
            0 <= p1 < p2 < kept_vars(vars).len() ==> kept_vars(vars)[p1].key@ != kept_vars(
                vars,
            )[p2].key@,
    decreases vars.len(),
{
    if vars.len() > 0 {
        let front_vars = vars.drop_last();
        lemma_kept_vars_distinct(front_vars);
        let front = kept_vars(front_vars);
        let kept = kept_vars(vars);
        assert forall|p: int| 0 <= p < kept.len() implies keeps_entry(#[trigger] kept[p])
            && exists|q: int| 0 <= q < vars.len() && kept[p].key@ == vars[q].key@ by {
            if p < front.len() {
                let q = choose|q: int|
                    0 <= q < front_vars.len() && (#[trigger] front[p].key@) == front_vars[q].key@;
                assert(0 <= q < vars.len() && kept[p].key@ == vars[q].key@);
            } else {
                assert(kept[p] == vars.last());
                assert(0 <= vars.len() - 1 < vars.len() && kept[p].key@ == vars[vars.len()
                    - 1].key@);
            }
        }
        assert forall|p1: int, p2: int| 0 <= p1 < p2 < kept.len() implies kept[p1].key@
            != kept[p2].key@ by {
            if p2 < front.len() {
            } else if kept.len() == front.len() {
            } else {
                assert(p2 == front.len());
                assert(kept[p2] == vars.last());
                let q = choose|q: int|
                    0 <= q < front_vars.len() && (#[trigger] front[p1].key@) == front_vars[q].key@;
                assert(vars[q].key@ != vars[vars.len() - 1].key@);
            }
        }
    }
}

/// The string a reserved key is bound to.
pub open spec fn reserved_value(name: Option<String>) -> Seq<char> {
    match name {
        Some(n) => n@,
        None => unknown_name(),
    }
}

impl Config {
    /// A definition not yet bound to a project or template name.
    pub fn new(json_config: JsonConfig) -> (r: Self)
        ensures
            r.project_name is None,
            r.template_name is None,
            r.json_config == json_config,
    {
        Config { project_name: None, template_name: None, json_config }
    }

    /// Binds the project name.
    pub fn with_project_name(self, project_name: &String) -> (r: Self)
        ensures
            r.project_name matches Some(p) && p@ == project_name@,
            r.template_name == self.template_name,
            r.json_config == self.json_config,
    {
        Config {
            project_name: Some(project_name.clone()),
            template_name: self.template_name,
            json_config: self.json_config,
        }
    }

    /// Binds the template name.
    pub fn with_template_name(self, template_name: &String) -> (r: Self)
        ensures
            r.template_name matches Some(t) && t@ == template_name@,
            r.project_name == self.project_name,
            r.json_config == self.json_config,
    {
        Config {
            project_name: self.project_name,
            template_name: Some(template_name.clone()),
            json_config: self.json_config,
        }
    }

    /// The copy records resolved against the template root: `from` paths
    /// become absolute against it, a leading `./` of a `to` path is
    /// removed, and a missing `to` means the project root.
    pub fn get_source_entries(&self, template_path: &String) -> (r: Vec<SourceEntry>)
        requires
            forall|i: int|
                0 <= i < self.json_config.files.sources@.len() ==> (
                #[trigger] self.json_config.files.sources@[i]).from is Some,
        ensures
            r@.len() == self.json_config.files.sources@.len(),
            forall|i: int|
                0 <= i < r@.len() ==> (#[trigger] r@[i]).from@ == resolved_from(
                    template_path@,
                    self.json_config.files.sources@[i].from->Some_0@,
                ),
            forall|i: int|
                0 <= i < r@.len() ==> (#[trigger] r@[i]).to@ == resolved_to(
                    record_to(self.json_config.files.sources@[i]),
                ),
    {
        let n = self.json_config.files.sources.len();
        let mut out: Vec<SourceEntry> = Vec::new();
        let mut i: usize = 0;
        while i < n
            invariant
                0 <= i <= n,
                n == self.json_config.files.sources@.len(),
                forall|k: int|
                    0 <= k < n ==> (#[trigger] self.json_config.files.sources@[k]).from is Some,
                out@.len() == i,
                forall|k: int|
                    0 <= k < i ==> (#[trigger] out@[k]).from@ == resolved_from(
                        template_path@,
                        self.json_config.files.sources@[k].from->Some_0@,
                    ),
                forall|k: int|
                    0 <= k < i ==> (#[trigger] out@[k]).to@ == resolved_to(
                        record_to(self.json_config.files.sources@[k]),
                    ),
            decreases n - i,
        {
            let record = &self.json_config.files.sources[i];
            let from_path = match &record.from {
                Some(f) => f,
                None => unreached(),
            };
            let updated_from = if starts_with_str(from_path.as_str(), ".") {
                template_path.clone()
            } else {
                let mut joined = template_path.clone();
                joined.append("/");
                joined.append(from_path.as_str());
                joined
            };
            let updated_to = match &record.to {
                Some(t) => {
                    if starts_with_str(t.as_str(), "./") {
                        proof {
                            reveal_strlit("./");
                        }
                        let m = t.as_str().unicode_len();
                        t.as_str().substring_char(2, m).to_owned()
                    } else {
                        t.clone()
                    }
                },
                None => String::from_str("."),
            };
            out.push(SourceEntry { from: updated_from, to: updated_to });
            i += 1;
        }
        out
    }

    /// The rendering context of this installation: the reserved keys
    /// first, bound to the project and template names (or to a fallback
    /// when unbound), then every declared variable whose value is
    /// supported, in declaration order. A declared variable cannot shadow
    /// a reserved key.
    pub fn get_template_context(&self) -> (r: Context)
        requires
            forall|i: int, j: int|
                0 <= i < j < variables_of(self.json_config).len() ==> variables_of(
                    self.json_config,
                )[i].key@ != variables_of(self.json_config)[j].key@,
        ensures
            r.wf(),
            r@.len() == 2 + kept_vars(variables_of(self.json_config)).len(),
            r@[0] == (project_name_key(), VarValueView::Single(
                reserved_value(self.project_name),
            )),
            r@[1] == (template_name_key(), VarValueView::Single(
                reserved_value(self.template_name),
            )),
            forall|k: int|
                0 <= k < kept_vars(variables_of(self.json_config)).len() ==> r@[2 + k] == (
                (#[trigger] kept_vars(variables_of(self.json_config))[k]).key@,
                kept_vars(variables_of(self.json_config))[k].value@,
            ),
    {
        let ghost vars_view = variables_of(self.json_config);
        let mut entries: Vec<ContextEntry> = Vec::new();
        let project = match &self.project_name {
            Some(p) => p.clone(),
            None => String::from_str("unknown"),
        };
        let template = match &self.template_name {
            Some(t) => t.clone(),
            None => String::from_str("unknown"),
        };
        entries.push(
            ContextEntry { key: String::from_str("project_name"), value: VarValue::Single(project) },
        );
        entries.push(
            ContextEntry {
                key: String::from_str("template_name"),
                value: VarValue::Single(template),
            },
        );
        match &self.json_config.variables {
            Some(vars) => {
                let nv = vars.len();
                let mut j: usize = 0;
                while j < nv
                    invariant
                        0 <= j <= nv,
                        nv == vars@.len(),
                        vars@ == vars_view,
                        entries@.len() == 2 + kept_vars(vars_view.subrange(0, j as int)).len(),
                        entries@[0]@ == (
                            project_name_key(),
                            VarValueView::Single(reserved_value(self.project_name)),
                        ),
                        entries@[1]@ == (
                            template_name_key(),
                            VarValueView::Single(reserved_value(self.template_name)),
                        ),
                        forall|k: int|
                            0 <= k < kept_vars(vars_view.subrange(0, j as int)).len() ==> entries@[
                            2 + k]@ == ((#[trigger] kept_vars(
                                vars_view.subrange(0, j as int),
                            )[k]).key@, kept_vars(vars_view.subrange(0, j as int))[k].value@),
                    decreases nv - j,
                {
                    let ghost sub1 = vars_view.subrange(0, j + 1);
                    proof {
                        assert(sub1.drop_last() =~= vars_view.subrange(0, j as int));
                        assert(sub1.last() == vars_view[j as int]);
                    }
                    let entry = &vars[j];
                    let keep = entry.value.is_supported() && !(entry.key
                        == String::from_str("project_name")) && !(entry.key == String::from_str(
                        "template_name",
                    ));
                    if keep {
                        entries.push(
                            ContextEntry { key: entry.key.clone(), value: entry.value.clone() },
                        );
                        proof {
                            assert(keeps_entry(vars_view[j as int]));
                            assert(kept_vars(sub1) == kept_vars(
                                vars_view.subrange(0, j as int),
                            ).push(vars_view[j as int]));
                        }
                    } else {
                        proof {
                            assert(!keeps_entry(vars_view[j as int]));
                            assert(kept_vars(sub1) == kept_vars(vars_view.subrange(0, j as int)));
                        }
                    }
                    j += 1;
                }
                proof {
                    assert(vars_view.subrange(0, nv as int) =~= vars_view);
                }
            },
            None => {
                proof {
                    assert(kept_vars(vars_view) =~= Seq::<ContextEntry>::empty());
                }
            },
        }
        let r = Context { entries };
        proof {
            lemma_kept_vars_distinct(vars_view);
            reveal_strlit("project_name");
            reveal_strlit("template_name");
            assert(project_name_key().len() == 12);
            assert(template_name_key().len() == 13);
            assert(project_name_key() != template_name_key());
            assert forall|a: int, b: int| 0 <= a < b < r@.len() implies r@[a].0 != r@[b].0 by {
                if a >= 2 && b >= 2 {
                    assert(r@[a].0 == kept_vars(vars_view)[a - 2].key@);
                    assert(r@[b].0 == kept_vars(vars_view)[b - 2].key@);
                } else if b >= 2 {
                    assert(keeps_entry(kept_vars(vars_view)[b - 2]));
                    assert(r@[b].0 == kept_vars(vars_view)[b - 2].key@);
                }
            }
        }
        r
    }
}

/// The bindings the rendering context keeps, as a context view: those
/// whose value is supported and whose name does not shadow a reserved
/// key.
pub open spec fn kept_bindings(v: ContextView) -> ContextView
    decreases v.len(),
{
    if v.len() == 0 {
        seq![]
    } else {
        let front = kept_bindings(v.drop_last());
        if supported_value(v.last().1) && v.last().0 != project_name_key() && v.last().0
            != template_name_key() {
            front.push(v.last())
        } else {
            front
        }
    }
}

proof fn lemma_kept_vars_view(entries: Seq<ContextEntry>)
    ensures
        entries_view(kept_vars(entries)) == kept_bindings(entries_view(entries)),
    decreases entries.len(),
{
    if entries.len() > 0 {
        lemma_kept_vars_view(entries.drop_last());
        assert(entries_view(entries).drop_last() =~= entries_view(entries.drop_last()));
        if keeps_entry(entries.last()) {
            assert(entries_view(kept_vars(entries)) =~= entries_view(
                kept_vars(entries.drop_last()),
            ).push(entries.last()@));
        } else {
            assert(entries_view(kept_vars(entries)) =~= entries_view(
                kept_vars(entries.drop_last()),
            ));
        }
    }
}

/// Builds the rendering context of one installation in a single step:
/// user overrides take precedence over declared defaults, the reserved
/// keys are always bound to the given names, and no declared variable can
/// shadow them. The kept bindings follow in merged declaration order.
pub fn build_context(
    project_name: &String,
    template_name: &String,
    declared_variables: Vec<ContextEntry>,
    user_overrides: &Vec<ContextEntry>,
) -> (r: Context)
    requires
        ctx_wf(entries_view(declared_variables@)),
    ensures
        r.wf(),
        r@.len() == 2 + kept_bindings(
            merged(entries_view(declared_variables@), entries_view(user_overrides@), seq![]),
        ).len(),
        r@[0] == (project_name_key(), VarValueView::Single(project_name@)),
        r@[1] == (template_name_key(), VarValueView::Single(template_name@)),
        forall|k: int|
            0 <= k < kept_bindings(
                merged(
                    entries_view(declared_variables@),
                    entries_view(user_overrides@),
                    seq![],
                ),
            ).len() ==> r@[2 + k] == #[trigger] kept_bindings(
                merged(
                    entries_view(declared_variables@),
                    entries_view(user_overrides@),
                    seq![],
                ),
            )[k],
{
    let ghost merged_view = merged(
        entries_view(declared_variables@),
        entries_view(user_overrides@),
        seq![],
    );
    let merged_variables = override_variables(declared_variables, user_overrides);
    proof {
        assert forall|i: int, j: int|
            0 <= i < j < merged_variables@.len() implies merged_variables@[i].key@
            != merged_variables@[j].key@ by {
            assert(entries_view(merged_variables@)[i].0 != entries_view(merged_variables@)[j].0);
        }
        lemma_kept_vars_view(merged_variables@);
    }
    let config = Config {
        project_name: Some(project_name.clone()),
        template_name: Some(template_name.clone()),
        json_config: JsonConfig {
            files: FilesConfig {
                sources: Vec::new(),
                generated: None,
                directories: None,
                templates: None,
            },
            variables: Some(merged_variables),
            scripts: None,
        },
    };
    let r = config.get_template_context();
    proof {
        assert forall|k: int| 0 <= k < kept_bindings(merged_view).len() implies r@[2 + k]
            == #[trigger] kept_bindings(merged_view)[k] by {
            assert(r@[2 + k] == (
                kept_vars(variables_of(config.json_config))[k].key@,
                kept_vars(variables_of(config.json_config))[k].value@,
            ));
            assert(entries_view(kept_vars(variables_of(config.json_config)))[k]
                == kept_bindings(merged_view)[k]);
        }
    }
    r
}

} // verus!
