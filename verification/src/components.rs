//! Components: named, ordered sets of key/value pairs and their `.env` lines.

use crate::text::{decimal, decimal_string, parse_u32, parse_unsigned, to_uppercase, uppercase};
use vstd::prelude::*;
use vstd::string::StringExecFns;

verus! {

/// A value of an entry: a number, written without quotes, or a text, written
/// between double quotes.
#[derive(Debug, Clone, PartialEq, Eq)]
pub enum StringOrInt {
    Integer(u32),
    String(String),
}

/// What a [`StringOrInt`] stands for.
pub enum ValueModel {
    Integer(u32),
    Text(Seq<char>),
}

impl View for StringOrInt {
    type V = ValueModel;

    open spec fn view(&self) -> ValueModel {
        match self {
            StringOrInt::Integer(n) => ValueModel::Integer(*n),
            StringOrInt::String(t) => ValueModel::Text(t@),
        }
    }
}

/// One entry of a component: a key and its value.
#[derive(Debug, Clone, PartialEq, Eq)]
pub struct KeyValue {
    pub name: String,
    pub value: StringOrInt,
}

/// What a [`KeyValue`] stands for.
pub struct EntryModel {
    pub name: Seq<char>,
    pub value: ValueModel,
}

impl View for KeyValue {
    type V = EntryModel;

    open spec fn view(&self) -> EntryModel {
        EntryModel { name: self.name@, value: self.value@ }
    }
}

/// The text of a value in an environment line.
pub open spec fn value_text(value: ValueModel) -> Seq<char> {
    match value {
        ValueModel::Integer(n) => decimal(n as nat),
        ValueModel::Text(t) => seq!['"'] + t + seq!['"'],
    }
}

/// The environment line of an entry, before any prefix: `KEY=VALUE`.
pub open spec fn entry_line(entry: EntryModel) -> Seq<char> {
    entry.name + seq!['='] + value_text(entry.value)
}

/// The value that a raw text stands for: a number where the text is an
/// unsigned integer literal, the text itself where it is not.
pub open spec fn value_of(raw: Seq<char>) -> ValueModel {
    match parse_u32(raw) {
        Some(n) => ValueModel::Integer(n),
        None => ValueModel::Text(raw),
    }
}

impl StringOrInt {
    /// Reads `raw` as a number if it is an unsigned integer literal, and as
    /// text otherwise.
    pub fn parse(raw: String) -> (value: StringOrInt)
        ensures
            value@ == value_of(raw@),
    {
        match parse_unsigned(raw.as_str()) {
            Some(n) => StringOrInt::Integer(n),
            None => StringOrInt::String(raw),
        }
    }
}

impl KeyValue {
    /// Format the key value to .env format
    pub fn to_env(&self) -> (line: String)
        ensures
            line@ == entry_line(self@),
    {
        proof {
            reveal_strlit("=");
            reveal_strlit("=\"");
            reveal_strlit("\"");
        }
        let mut line = self.name.clone();
        match &self.value {
            StringOrInt::String(v) => {
                line.append("=\"");
                line.append(v.as_str());
                line.append("\"");
            },
            StringOrInt::Integer(v) => {
                let digits = decimal_string(*v);
                line.append("=");
                line.append(digits.as_str());
            },
        }
        line
    }
}

/// Component struct
///
/// * `name`: name of the component
/// * `prefix`: optional prefix put in front of the variable
/// * `values`: values under the component
#[derive(Debug, Clone, PartialEq, Eq)]
pub struct Component {
    name: String,
    prefix: Option<String>,
    values: Vec<KeyValue>,
}

/// What a [`Component`] stands for.
pub struct ComponentModel {
    pub name: Seq<char>,
    pub prefix: Option<Seq<char>>,
    pub values: Seq<EntryModel>,
}

impl View for Component {
    type V = ComponentModel;

    closed spec fn view(&self) -> ComponentModel {
        ComponentModel {
            name: self.name@,
            prefix: self.prefix.deep_view(),
            values: self.values@.map_values(|entry: KeyValue| entry@),
        }
    }
}

/// The comment line that opens the lines of the component called `name`.
pub open spec fn heading(name: Seq<char>) -> Seq<char> {
    "# component "@ + name
}

/// What stands in front of every key: the upper-case prefix and `_`, or
/// nothing for a component without prefix.
pub open spec fn lead_text(upper: Option<Seq<char>>) -> Seq<char> {
    match upper {
        Some(p) => p + seq!['_'],
        None => Seq::empty(),
    }
}

/// The lines of a component whose prefix, already in upper case, is `upper`:
/// the heading, then one line for each entry, in the order of the entries.
pub open spec fn lines_with_prefix(c: ComponentModel, upper: Option<Seq<char>>) -> Seq<
    Seq<char>,
> {
    seq![heading(c.name)] + c.values.map_values(
        |entry: EntryModel| lead_text(upper) + entry_line(entry),
    )
}

/// The prefix of a component in upper case.
pub open spec fn upper_prefix(prefix: Option<Seq<char>>) -> Option<Seq<char>> {
    match prefix {
        Some(p) => Some(uppercase(p)),
        None => None,
    }
}

/// The lines of a component in `.env` format.
pub open spec fn component_lines(c: ComponentModel) -> Seq<Seq<char>> {
    lines_with_prefix(c, upper_prefix(c.prefix))
}

/// The entries that a component gets from pairs of key and raw value.
pub open spec fn entries_of(pairs: Seq<(Seq<char>, Seq<char>)>) -> Seq<EntryModel> {
    pairs.map_values(
        |pair: (Seq<char>, Seq<char>)| EntryModel { name: pair.0, value: value_of(pair.1) },
    )
}

/// The component that `name`, `prefix` and pairs of key and raw value make.
pub open spec fn component_of(
    name: Seq<char>,
    prefix: Option<Seq<char>>,
    pairs: Seq<(Seq<char>, Seq<char>)>,
) -> ComponentModel {
    ComponentModel { name, prefix, values: entries_of(pairs) }
}

impl Component {
    /// Create a component
    ///
    /// * `name`: name of the component
    /// * `prefix`: prefix of the component
    /// * `values`: collection of values
    pub fn new(name: String, prefix: Option<String>, values: Vec<(String, String)>) -> (c:
        Component)
        ensures
            c@ == component_of(name@, prefix.deep_view(), values.deep_view()),
    {
        let ghost pairs = values.deep_view();
        let mut given_key_values: Vec<KeyValue> = Vec::new();
        for pair in it: values
            invariant
                it.seq() == values@,
                pairs == values.deep_view(),
                given_key_values.len() == it.index(),
                forall|k: int|
                    0 <= k < given_key_values.len() ==> (#[trigger] given_key_values[k])@
                        == entries_of(pairs)[k],
        {
            let (key, value) = pair;
            given_key_values.push(KeyValue { name: key, value: StringOrInt::parse(value) });
        }
        assert(given_key_values@.map_values(|entry: KeyValue| entry@) =~= entries_of(pairs));
        Component { name, prefix, values: given_key_values }
    }

    /// Builds a component from entries whose values are already typed.
    pub fn from_parts(name: String, prefix: Option<String>, values: Vec<KeyValue>) -> (c:
        Component)
        ensures
            c@.name == name@,
            c@.prefix == prefix.deep_view(),
            c@.values == values@.map_values(|entry: KeyValue| entry@),
    {
        Component { name, prefix, values }
    }

    /// The name of the component.
    pub fn name(&self) -> (name: &String)
        ensures
            name@ == self@.name,
    {
        &self.name
    }

    /// The prefix of the component, as it was given.
    pub fn prefix(&self) -> (prefix: &Option<String>)
        ensures
            prefix.deep_view() == self@.prefix,
    {
        &self.prefix
    }

    /// The entries of the component, in their order.
    pub fn values(&self) -> (values: &Vec<KeyValue>)
        ensures
            values@.map_values(|entry: KeyValue| entry@) == self@.values,
    {
        &self.values
    }

    /// The lines of the component for a prefix that is already in upper case.
    pub fn to_env_with(&self, upper: Option<String>) -> (lines: Vec<String>)
        ensures
            lines.deep_view() == lines_with_prefix(self@, upper.deep_view()),
    {
        proof {
            reveal_strlit("_");
        }
        let lead = match upper {
            Some(p) => {
                let mut lead = p;
                lead.append("_");
                lead
            },
            None => String::new(),
        };
        let mut component_comment = String::from_str("# component ");
        component_comment.append(self.name.as_str());
        let mut formatted_values: Vec<String> = Vec::new();
        formatted_values.push(component_comment);
        let ghost entries = self@.values;
        let mut i: usize = 0;
        while i < self.values.len()
            invariant
                i <= self.values.len(),
                entries == self@.values,
                lead@ == lead_text(upper.deep_view()),
                formatted_values.len() == i + 1,
                formatted_values[0]@ == heading(self@.name),
                forall|k: int|
                    0 <= k < i ==> (#[trigger] formatted_values[k + 1])@ == lead@ + entry_line(
                        entries[k],
                    ),
            decreases self.values.len() - i,
        {
            let mut value_with_prefix = lead.clone();
            let line = self.values[i].to_env();
            value_with_prefix.append(line.as_str());
            formatted_values.push(value_with_prefix);
            i = i + 1;
        }
        proof {
            let expected = lines_with_prefix(self@, upper.deep_view());
            assert forall|k: int| 0 <= k < expected.len() implies formatted_values.deep_view()[k]
                == expected[k] by {
                if k > 0 {
                    assert(formatted_values[k - 1 + 1]@ == lead@ + entry_line(entries[k - 1]));
                }
            }
        }
        formatted_values
    }

    /// Format the component into the .env format
    pub fn to_env(&self) -> (lines: Vec<String>)
        ensures
            lines.deep_view() == component_lines(self@),
    {
        let prefix_upper = match &self.prefix {
            Some(x) => Some(to_uppercase(x.as_str())),
            None => None,
        };
        self.to_env_with(prefix_upper)
    }
}

} // verus!
