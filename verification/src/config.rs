//! The configuration: the components that a user has defined, by name.

use crate::components::{component_lines, component_of, Component, ComponentModel};
use crate::text::contains_text;
use vstd::prelude::*;
use vstd::string::StringExecFns;

verus! {

/// Why an operation on a configuration was refused.
#[derive(Debug, Clone, Copy, PartialEq, Eq, Structural)]
pub enum ConfigError {
    /// A component of that name is already there.
    NameConflict,
    /// The numbers of keys and of values differ.
    ArityMismatch,
    /// Neither keys nor values were given.
    EmptyInput,
}

/// The words that [`ConfigError::message`] gives for an error.
pub open spec fn error_text(error: ConfigError) -> Seq<char> {
    match error {
        ConfigError::NameConflict => "Invalid config option: Name already exists"@,
        ConfigError::ArityMismatch =>
            "Invalid config option: Number of keys and values is not equal"@,
        ConfigError::EmptyInput => "Invalid config option: No keys and values given"@,
    }
}

impl ConfigError {
    /// The error in words, for a diagnostic.
    pub fn message(&self) -> (text: String)
        ensures
            text@ == error_text(*self),
    {
        match self {
            ConfigError::NameConflict => String::from_str(
                "Invalid config option: Name already exists",
            ),
            ConfigError::ArityMismatch => String::from_str(
                "Invalid config option: Number of keys and values is not equal",
            ),
            ConfigError::EmptyInput => String::from_str(
                "Invalid config option: No keys and values given",
            ),
        }
    }
}

/// Config Struct
///
/// * `components`: collection of components
#[derive(Debug, Clone, PartialEq, Eq)]
pub struct MentalConfig {
    components: Vec<Component>,
}

impl View for MentalConfig {
    type V = Seq<ComponentModel>;

    closed spec fn view(&self) -> Seq<ComponentModel> {
        self.components@.map_values(|c: Component| c@)
    }
}

/// Whether one of `components` is called `name`.
pub open spec fn has_name(components: Seq<ComponentModel>, name: Seq<char>) -> bool {
    exists|i: int| 0 <= i < components.len() && (#[trigger] components[i]).name == name
}

/// Whether no two of `components` share a name.
pub open spec fn names_distinct(components: Seq<ComponentModel>) -> bool {
    forall|i: int, j: int|
        0 <= i < j < components.len() ==> (#[trigger] components[i]).name
            != (#[trigger] components[j]).name
}

/// The names of `components`, in their order.
pub open spec fn names_of(components: Seq<ComponentModel>) -> Seq<Seq<char>> {
    components.map_values(|c: ComponentModel| c.name)
}

/// Those of `components` whose name is one of `wanted`, in the order of
/// `components`.
pub open spec fn selected(components: Seq<ComponentModel>, wanted: Seq<Seq<char>>) -> Seq<
    ComponentModel,
> {
    components.filter(|c: ComponentModel| wanted.contains(c.name))
}

/// The `.env` lines of the components whose name is one of `wanted`: the
/// lines of each, one component after the other, in the order of `components`.
pub open spec fn config_lines(components: Seq<ComponentModel>, wanted: Seq<Seq<char>>) -> Seq<
    Seq<char>,
> {
    selected(components, wanted).map_values(|c: ComponentModel| component_lines(c)).flatten()
}

/// The lines of a configuration with one more component at its end: those of
/// the configuration, then those of the component if its name is wanted.
pub proof fn lemma_config_lines_push(
    components: Seq<ComponentModel>,
    last: ComponentModel,
    wanted: Seq<Seq<char>>,
)
    ensures
        config_lines(components.push(last), wanted) == config_lines(components, wanted) + (
        if wanted.contains(last.name) {
            component_lines(last)
        } else {
            Seq::empty()
        }),
{
    let keep = |c: ComponentModel| wanted.contains(c.name);
    let render = |c: ComponentModel| component_lines(c);
    components.lemma_filter_push(last, keep);
    let before = components.filter(keep);
    if wanted.contains(last.name) {
        assert(before.push(last).map_values(render) =~= before.map_values(render).push(
            component_lines(last),
        ));
        before.map_values(render).lemma_flatten_push(component_lines(last));
    }
}

/// What each of `components` stands for, in their order.
pub open spec fn models_of(components: Seq<Component>) -> Seq<ComponentModel> {
    components.map_values(|c: Component| c@)
}

/// Two filters that agree on every item of a sequence keep the same items.
proof fn lemma_filter_agree<A>(items: Seq<A>, p: spec_fn(A) -> bool, q: spec_fn(A) -> bool)
    requires
        forall|i: int| 0 <= i < items.len() ==> p(#[trigger] items[i]) == q(items[i]),
    ensures
        items.filter(p) == items.filter(q),
    decreases items.len(),
{
    reveal(Seq::filter);
    if items.len() > 0 {
        lemma_filter_agree(items.drop_last(), p, q);
    }
}

/// The lines depend on the wanted names by membership alone: two lists that
/// hold the same names of components, in whatever order and however often,
/// give the same lines.
pub proof fn lemma_lines_follow_membership(
    components: Seq<ComponentModel>,
    first: Seq<Seq<char>>,
    second: Seq<Seq<char>>,
)
    requires
        forall|i: int|
            0 <= i < components.len() ==> first.contains((#[trigger] components[i]).name)
                == second.contains(components[i].name),
    ensures
        config_lines(components, first) == config_lines(components, second),
{
    lemma_filter_agree(
        components,
        |c: ComponentModel| first.contains(c.name),
        |c: ComponentModel| second.contains(c.name),
    );
}

/// Names that no component bears are ignored: adding them to the wanted
/// names changes no line.
pub proof fn lemma_unknown_names_add_nothing(
    components: Seq<ComponentModel>,
    wanted: Seq<Seq<char>>,
    unknown: Seq<Seq<char>>,
)
    requires
        forall|i: int|
            0 <= i < components.len() ==> !unknown.contains((#[trigger] components[i]).name),
    ensures
        config_lines(components, wanted + unknown) == config_lines(components, wanted),
{
    assert forall|i: int| 0 <= i < components.len() implies (wanted + unknown).contains(
        (#[trigger] components[i]).name,
    ) == wanted.contains(components[i].name) by {
        let name = components[i].name;
        if wanted.contains(name) {
            let k = choose|k: int| 0 <= k < wanted.len() && wanted[k] == name;
            assert((wanted + unknown)[k] == name);
        }
    }
    lemma_lines_follow_membership(components, wanted + unknown, wanted);
}

/// Where exactly one component bears a wanted name, the lines are the lines
/// of that component and nothing else.
pub proof fn lemma_single_match(
    components: Seq<ComponentModel>,
    at: int,
    wanted: Seq<Seq<char>>,
)
    requires
        0 <= at < components.len(),
        wanted.contains(components[at].name),
        forall|i: int|
            0 <= i < components.len() && i != at ==> !wanted.contains(
                (#[trigger] components[i]).name,
            ),
    ensures
        config_lines(components, wanted) == component_lines(components[at]),
    decreases components.len(),
{
    let rest = components.drop_last();
    let last = components.last();
    assert(components =~= rest.push(last));
    lemma_config_lines_push(rest, last, wanted);
    if at == components.len() - 1 {
        lemma_no_match(rest, wanted);
    } else {
        lemma_single_match(rest, at, wanted);
    }
}

/// Where no component bears a wanted name, there are no lines.
pub proof fn lemma_no_match(components: Seq<ComponentModel>, wanted: Seq<Seq<char>>)
    requires
        forall|i: int|
            0 <= i < components.len() ==> !wanted.contains((#[trigger] components[i]).name),
    ensures
        config_lines(components, wanted) == Seq::<Seq<char>>::empty(),
    decreases components.len(),
{
    if components.len() == 0 {
        reveal(Seq::filter);
    } else {
        let rest = components.drop_last();
        let last = components.last();
        assert(components =~= rest.push(last));
        lemma_config_lines_push(rest, last, wanted);
        lemma_no_match(rest, wanted);
    }
}

/// Rendering is repeatable: the lines are a function of the configuration
/// and the wanted names, so two renderings of the same configuration for the
/// same names are equal.
pub proof fn lemma_lines_repeatable(
    components: Seq<ComponentModel>,
    wanted: Seq<Seq<char>>,
    first: Seq<Seq<char>>,
    second: Seq<Seq<char>>,
)
    requires
        first == config_lines(components, wanted),
        second == config_lines(components, wanted),
    ensures
        first == second,
{
}

/// A name that was free belongs, after its component was added, to exactly
/// the new last component.
pub proof fn lemma_added_name_exists(
    components: Seq<ComponentModel>,
    added: ComponentModel,
)
    ensures
        has_name(components.push(added), added.name),
        names_distinct(components) && !has_name(components, added.name) ==> names_distinct(
            components.push(added),
        ),
{
    let after = components.push(added);
    assert(after[components.len() as int].name == added.name);
    if names_distinct(components) && !has_name(components, added.name) {
        assert forall|i: int, j: int| 0 <= i < j < after.len() implies (#[trigger] after[i]).name
            != (#[trigger] after[j]).name by {}
    }
}

impl MentalConfig {
    /// A configuration without components.
    pub fn new() -> (config: MentalConfig)
        ensures
            config@ == Seq::<ComponentModel>::empty(),
            config.well_formed(),
    {
        MentalConfig { components: Vec::new() }
    }

    /// The invariant of a configuration: no two components share a name.
    pub open spec fn well_formed(&self) -> bool {
        names_distinct(self@)
    }

    /// The configuration that holds `components`, in their order. It is
    /// refused where two of them share a name.
    pub fn from_components(components: Vec<Component>) -> (result: Result<
        MentalConfig,
        ConfigError,
    >)
        ensures
            names_distinct(models_of(components@)) ==> result is Ok && result->Ok_0@ == models_of(
                components@,
            ) && result->Ok_0.well_formed(),
            !names_distinct(models_of(components@)) ==> result is Err && result->Err_0
                == ConfigError::NameConflict,
    {
        let ghost models = models_of(components@);
        let mut j: usize = 0;
        while j < components.len()
            invariant
                j <= components.len(),
                models == models_of(components@),
                forall|a: int, b: int|
                    0 <= a < b < j ==> (#[trigger] models[a]).name != (#[trigger] models[b]).name,
            decreases components.len() - j,
        {
            let mut i: usize = 0;
            while i < j
                invariant
                    i <= j < components.len(),
                    models == models_of(components@),
                    forall|a: int|
                        0 <= a < i ==> (#[trigger] models[a]).name != models[j as int].name,
                decreases j - i,
            {
                if *components[i].name() == *components[j].name() {
                    assert(models[i as int].name == models[j as int].name);
                    return Err(ConfigError::NameConflict);
                }
                i = i + 1;
            }
            j = j + 1;
        }
        Ok(MentalConfig { components })
    }

    /// The components, in their order.
    pub fn components(&self) -> (components: &Vec<Component>)
        ensures
            models_of(components@) == self@,
    {
        &self.components
    }

    /// Check if a component with a given name exists
    ///
    /// * `name`: name to search for
    pub fn name_exists(&self, name: &String) -> (found: bool)
        ensures
            found == has_name(self@, name@),
    {
        let mut i: usize = 0;
        while i < self.components.len()
            invariant
                i <= self.components.len(),
                forall|k: int| 0 <= k < i ==> (#[trigger] self@[k]).name != name@,
            decreases self.components.len() - i,
        {
            if *name == *self.components[i].name() {
                assert(self@[i as int].name == name@);
                return true;
            }
            i = i + 1;
        }
        false
    }

    /// List names of all defined components
    pub fn list_components(&self) -> (names: Vec<String>)
        ensures
            names.deep_view() == names_of(self@),
    {
        let mut res: Vec<String> = Vec::new();
        let mut i: usize = 0;
        while i < self.components.len()
            invariant
                i <= self.components.len(),
                res.len() == i,
                forall|k: int| 0 <= k < i ==> (#[trigger] res[k])@ == self@[k].name,
            decreases self.components.len() - i,
        {
            res.push(self.components[i].name().clone());
            i = i + 1;
        }
        res
    }

    /// Serialize data into .env format
    ///
    /// * `component_keys`: slice of component keys
    pub fn to_env(&self, component_keys: &[String]) -> (lines: Vec<String>)
        ensures
            lines.deep_view() == config_lines(self@, component_keys.deep_view()),
    {
        let ghost wanted = component_keys.deep_view();
        let mut combined_values: Vec<String> = Vec::new();
        let mut i: usize = 0;
        assert(config_lines(self@.take(0), wanted) =~= Seq::<Seq<char>>::empty()) by {
            reveal(Seq::filter);
        }
        while i < self.components.len()
            invariant
                i <= self.components.len(),
                wanted == component_keys.deep_view(),
                combined_values.deep_view() == config_lines(self@.take(i as int), wanted),
            decreases self.components.len() - i,
        {
            let c = &self.components[i];
            proof {
                assert(self@.take(i + 1) =~= self@.take(i as int).push(c@));
                lemma_config_lines_push(self@.take(i as int), c@, wanted);
            }
            if contains_text(component_keys, c.name()) {
                let mut component_output = c.to_env();
                combined_values.append(&mut component_output);
            }
            i = i + 1;
        }
        assert(self@.take(self.components.len() as int) =~= self@);
        combined_values
    }

    /// Create a new component
    ///
    /// * `name`: name of the component
    /// * `values`: values of the component
    pub fn create_component(&mut self, name: String, values: Vec<(String, String)>) -> (result:
        Result<(), ConfigError>)
        ensures
            has_name(old(self)@, name@) ==> result == Err::<(), ConfigError>(
                ConfigError::NameConflict,
            ) && *final(self) == *old(self),
            !has_name(old(self)@, name@) ==> result is Ok && final(self)@ == old(self)@.push(
                component_of(name@, None, values.deep_view()),
            ),
            has_name(final(self)@, name@),
            old(self).well_formed() ==> final(self).well_formed(),
    {
        self.add_component(name, None, values)
    }

    /// Create a new component
    ///
    /// * `name`: name of the component
    /// * `prefix`: prefix to prefix the variables with
    /// * `values`: values of the component
    pub fn create_component_with_prefix(
        &mut self,
        name: String,
        prefix: String,
        values: Vec<(String, String)>,
    ) -> (result: Result<(), ConfigError>)
        ensures
            has_name(old(self)@, name@) ==> result == Err::<(), ConfigError>(
                ConfigError::NameConflict,
            ) && *final(self) == *old(self),
            !has_name(old(self)@, name@) ==> result is Ok && final(self)@ == old(self)@.push(
                component_of(name@, Some(prefix@), values.deep_view()),
            ),
            has_name(final(self)@, name@),
            old(self).well_formed() ==> final(self).well_formed(),
    {
        self.add_component(name, Some(prefix), values)
    }

    /// Appends the component that the arguments make, unless its name is
    /// already taken.
    fn add_component(
        &mut self,
        name: String,
        prefix: Option<String>,
        values: Vec<(String, String)>,
    ) -> (result: Result<(), ConfigError>)
        ensures
            has_name(old(self)@, name@) ==> result == Err::<(), ConfigError>(
                ConfigError::NameConflict,
            ) && *final(self) == *old(self),
            !has_name(old(self)@, name@) ==> result is Ok && final(self)@ == old(self)@.push(
                component_of(name@, prefix.deep_view(), values.deep_view()),
            ),
            has_name(final(self)@, name@),
            old(self).well_formed() ==> final(self).well_formed(),
    {
        if self.name_exists(&name) {
            Err(ConfigError::NameConflict)
        } else {
            let ghost before = self@;
            let component = Component::new(name, prefix, values);
            self.components.push(component);
            proof {
                lemma_added_name_exists(before, component@);
            }
            Ok(())
        }
    }
}

} // verus!
