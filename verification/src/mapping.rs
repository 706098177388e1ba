//! Mappings from component to path

use crate::components::ComponentModel;
use crate::config::{config_lines, MentalConfig};
use crate::text::{join, join_lines};
use vstd::prelude::*;
use vstd::string::StringExecFns;

verus! {

/// Mapping from components to path
///
/// * `path`: target path the variables are mapped into
/// * `components`: the components that should be mapped
#[derive(Debug, Clone, PartialEq, Eq)]
pub struct Mapping {
    path: String,
    components: Vec<String>,
}

/// What a [`Mapping`] stands for.
pub struct MappingModel {
    pub path: Seq<char>,
    pub components: Seq<Seq<char>>,
}

impl View for Mapping {
    type V = MappingModel;

    closed spec fn view(&self) -> MappingModel {
        MappingModel { path: self.path@, components: self.components.deep_view() }
    }
}

/// Collection of mappings
///
/// * `mappings`: collection of mappings
#[derive(Debug, Clone, PartialEq, Eq)]
pub struct MentalMapping {
    pub mappings: Vec<Mapping>,
}

impl View for MentalMapping {
    type V = Seq<MappingModel>;

    open spec fn view(&self) -> Seq<MappingModel> {
        self.mappings@.map_values(|m: Mapping| m@)
    }
}

/// What applying a mapping does with the lines of a folder.
#[derive(Debug, Clone, Copy, PartialEq, Eq, Structural)]
pub enum ApplyMode {
    /// Write them to the file `.env` in the folder.
    WriteFile,
    /// Print them and touch no file.
    PrintOnly,
}

/// One output of applying a mapping, ready to be carried out.
#[derive(Debug, Clone, PartialEq, Eq)]
pub enum EnvOutput {
    /// Lines to print, one after the other.
    Print { lines: Vec<String> },
    /// A file to create or overwrite, with its whole content.
    Write { file: String, content: String },
}

/// What an [`EnvOutput`] stands for.
pub enum OutputModel {
    Print { lines: Seq<Seq<char>> },
    Write { file: Seq<char>, content: Seq<char> },
}

impl View for EnvOutput {
    type V = OutputModel;

    open spec fn view(&self) -> OutputModel {
        match self {
            EnvOutput::Print { lines } => OutputModel::Print { lines: lines.deep_view() },
            EnvOutput::Write { file, content } => OutputModel::Write {
                file: file@,
                content: content@,
            },
        }
    }
}

/// Whether the standard library takes the paths written `a` and `b` for
/// equal: it compares them component by component, so that a repeated or
/// trailing separator makes no difference.
pub uninterp spec fn same_path(a: Seq<char>, b: Seq<char>) -> bool;

/// Compares two paths with `==` on `std::path::Path`. The contract only
/// gives the result its name, [`same_path`]: how the standard library splits
/// a path into components is not restated here.
#[verifier::external_body]
fn paths_equal(a: &str, b: &str) -> (same: bool)
    ensures
        same == same_path(a@, b@),
{
    std::path::Path::new(a) == std::path::Path::new(b)
}

/// Whether `path` is one of `targets`, by [`same_path`].
pub open spec fn is_target(targets: Seq<Seq<char>>, path: Seq<char>) -> bool {
    exists|i: int| 0 <= i < targets.len() && same_path(#[trigger] targets[i], path)
}

/// The file that holds the environment of the folder `path`.
pub open spec fn env_file(path: Seq<char>) -> Seq<char> {
    path + "/.env"@
}

/// Each of `lines` behind two spaces.
pub open spec fn indented(lines: Seq<Seq<char>>) -> Seq<Seq<char>> {
    lines.map_values(|line: Seq<char>| "  "@ + line)
}

/// The output for one mapping: the lines of its components in `config`,
/// indented for printing, or joined as the content of the folder's file.
pub open spec fn entry_output(
    mapping: MappingModel,
    config: Seq<ComponentModel>,
    mode: ApplyMode,
) -> OutputModel {
    let lines = config_lines(config, mapping.components);
    match mode {
        ApplyMode::PrintOnly => OutputModel::Print { lines: indented(lines) },
        ApplyMode::WriteFile => OutputModel::Write {
            file: env_file(mapping.path),
            content: join_lines(lines),
        },
    }
}

/// Those of `mappings` whose path is one of `targets`, in their order.
pub open spec fn targeted(mappings: Seq<MappingModel>, targets: Seq<Seq<char>>) -> Seq<
    MappingModel,
> {
    mappings.filter(|m: MappingModel| is_target(targets, m.path))
}

/// The outputs of applying `mappings`: one for each mapping whose path is one
/// of `targets`, in the order of the mappings.
pub open spec fn apply_plan(
    mappings: Seq<MappingModel>,
    config: Seq<ComponentModel>,
    targets: Seq<Seq<char>>,
    mode: ApplyMode,
) -> Seq<OutputModel> {
    targeted(mappings, targets).map_values(|m: MappingModel| entry_output(m, config, mode))
}

/// The mappings that pairs of folder and chosen component names make.
pub open spec fn mappings_of(selections: Seq<(Seq<char>, Seq<Seq<char>>)>) -> Seq<MappingModel> {
    selections.map_values(
        |s: (Seq<char>, Seq<Seq<char>>)| MappingModel { path: s.0, components: s.1 },
    )
}

/// The paths of `mappings`, in their order.
pub open spec fn paths_of(mappings: Seq<MappingModel>) -> Seq<Seq<char>> {
    mappings.map_values(|m: MappingModel| m.path)
}

/// What each of `outputs` stands for, in their order.
pub open spec fn outputs_of(outputs: Seq<EnvOutput>) -> Seq<OutputModel> {
    outputs.map_values(|o: EnvOutput| o@)
}

/// Where no mapping is for one of the targets, applying gives no output:
/// nothing is printed and no file is written.
pub proof fn lemma_no_target_no_output(
    mappings: Seq<MappingModel>,
    config: Seq<ComponentModel>,
    targets: Seq<Seq<char>>,
    mode: ApplyMode,
)
    requires
        forall|i: int|
            0 <= i < mappings.len() ==> !is_target(targets, (#[trigger] mappings[i]).path),
    ensures
        apply_plan(mappings, config, targets, mode) == Seq::<OutputModel>::empty(),
{
    mappings.lemma_all_neg_filter_empty(|m: MappingModel| is_target(targets, m.path));
}

/// Applying goes by the order of the mappings and leaves none out: the plan
/// for one more mapping at the end is the plan so far, followed by the
/// output of that mapping if its path is one of the targets.
pub proof fn lemma_apply_plan_push(
    mappings: Seq<MappingModel>,
    last: MappingModel,
    config: Seq<ComponentModel>,
    targets: Seq<Seq<char>>,
    mode: ApplyMode,
)
    ensures
        apply_plan(mappings.push(last), config, targets, mode) == if is_target(
            targets,
            last.path,
        ) {
            apply_plan(mappings, config, targets, mode).push(entry_output(last, config, mode))
        } else {
            apply_plan(mappings, config, targets, mode)
        },
{
    mappings.lemma_filter_push(last, |m: MappingModel| is_target(targets, m.path));
}

/// Whether `path` is one of `targets`, as paths compare.
pub fn targets_contain(targets: &[String], path: &String) -> (found: bool)
    ensures
        found == is_target(targets.deep_view(), path@),
{
    let mut i: usize = 0;
    while i < targets.len()
        invariant
            i <= targets.len(),
            forall|k: int| 0 <= k < i ==> !same_path(#[trigger] targets.deep_view()[k], path@),
        decreases targets.len() - i,
    {
        if paths_equal(targets[i].as_str(), path.as_str()) {
            assert(same_path(targets.deep_view()[i as int], path@));
            return true;
        }
        i = i + 1;
    }
    false
}

/// Puts two spaces in front of each line.
fn indent(lines: &Vec<String>) -> (out: Vec<String>)
    ensures
        out.deep_view() == indented(lines.deep_view()),
{
    let mut out: Vec<String> = Vec::new();
    let mut i: usize = 0;
    while i < lines.len()
        invariant
            i <= lines.len(),
            out.len() == i,
            forall|k: int| 0 <= k < i ==> (#[trigger] out[k])@ == "  "@ + lines[k]@,
        decreases lines.len() - i,
    {
        let mut line = String::from_str("  ");
        line.append(lines[i].as_str());
        out.push(line);
        i = i + 1;
    }
    out
}

impl Mapping {
    /// Binds the component names `components` to the folder `path`.
    pub fn new(path: String, components: Vec<String>) -> (mapping: Mapping)
        ensures
            mapping@ == (MappingModel { path: path@, components: components.deep_view() }),
    {
        Mapping { path, components }
    }

    /// The folder that the mapping is for.
    pub fn path(&self) -> (path: &String)
        ensures
            path@ == self@.path,
    {
        &self.path
    }

    /// The names of the components that the folder gets, in their order.
    pub fn components(&self) -> (components: &Vec<String>)
        ensures
            components.deep_view() == self@.components,
    {
        &self.components
    }

    /// The output that applying this mapping to `config` gives.
    pub fn output(&self, config: &MentalConfig, mode: ApplyMode) -> (output: EnvOutput)
        ensures
            output@ == entry_output(self@, config@, mode),
    {
        let target_config_env = config.to_env(self.components.as_slice());
        match mode {
            ApplyMode::PrintOnly => EnvOutput::Print { lines: indent(&target_config_env) },
            ApplyMode::WriteFile => {
                let mut formatted_path = self.path.clone();
                formatted_path.append("/.env");
                EnvOutput::Write { file: formatted_path, content: join(&target_config_env) }
            },
        }
    }
}

impl MentalMapping {
    /// Create a new mapping from the folders that were selected and, for
    /// each, the components that were selected for it.
    ///
    /// * `selections`: folders with their component names, in the order of selection
    pub fn new(selections: Vec<(String, Vec<String>)>) -> (mapping: MentalMapping)
        ensures
            mapping@ == mappings_of(selections.deep_view()),
    {
        let ghost chosen = selections.deep_view();
        let mut mappings: Vec<Mapping> = Vec::new();
        for selection in it: selections
            invariant
                it.seq() == selections@,
                chosen == selections.deep_view(),
                mappings.len() == it.index(),
                forall|k: int|
                    0 <= k < mappings.len() ==> (#[trigger] mappings[k])@ == mappings_of(chosen)[k],
        {
            let (path, components) = selection;
            mappings.push(Mapping { path, components });
        }
        MentalMapping { mappings }
    }

    /// Apply previous generated mapping
    ///
    /// * `config`: deserialized config
    /// * `targets`: targets to apply the env mapping to
    /// * `mode`: whether to write the files or only print
    pub fn apply(&self, config: &MentalConfig, targets: Vec<String>, mode: ApplyMode) -> (plan:
        Vec<EnvOutput>)
        ensures
            outputs_of(plan@) == apply_plan(self@, config@, targets.deep_view(), mode),
    {
        let ghost wanted = targets.deep_view();
        let mut plan: Vec<EnvOutput> = Vec::new();
        let mut i: usize = 0;
        proof {
            lemma_no_target_no_output(self@.take(0), config@, wanted, mode);
        }
        while i < self.mappings.len()
            invariant
                i <= self.mappings.len(),
                wanted == targets.deep_view(),
                outputs_of(plan@) == apply_plan(self@.take(i as int), config@, wanted, mode),
            decreases self.mappings.len() - i,
        {
            let m = &self.mappings[i];
            proof {
                assert(self@.take(i + 1) =~= self@.take(i as int).push(m@));
                lemma_apply_plan_push(self@.take(i as int), m@, config@, wanted, mode);
            }
            if targets_contain(targets.as_slice(), &m.path) {
                plan.push(m.output(config, mode));
            }
            i = i + 1;
        }
        assert(self@.take(self.mappings.len() as int) =~= self@);
        plan
    }

    /// List the targets for a mapping
    pub fn list_targets(&self) -> (targets: Vec<String>)
        ensures
            targets.deep_view() == paths_of(self@),
    {
        let mut res: Vec<String> = Vec::new();
        let mut i: usize = 0;
        while i < self.mappings.len()
            invariant
                i <= self.mappings.len(),
                res.len() == i,
                forall|k: int| 0 <= k < i ==> (#[trigger] res[k])@ == self@[k].path,
            decreases self.mappings.len() - i,
        {
            res.push(self.mappings[i].path.clone());
            i = i + 1;
        }
        res
    }
}

} // verus!
