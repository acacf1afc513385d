//! The preset catalog and the choices that a front end shows for it.

use vstd::prelude::*;
use vstd::string::StringExecFns;
use crate::label::{format_label, label_of};

verus! {

/// One preset as the configuration defines it.
#[derive(Debug)]
pub struct PresetDefinition {
    /// Identifier of the target codec.
    pub video_codec: String,
    /// Quality factor.
    pub crf: u32,
    /// The encoder's tag for its trade-off between speed and quality.
    pub preset: String,
    /// What the preset is for, in words.
    pub description: String,
}

/// A `PresetDefinition` as a mathematical value.
pub struct PresetDefinitionView {
    pub video_codec: Seq<char>,
    pub crf: u32,
    pub preset: Seq<char>,
    pub description: Seq<char>,
}

impl View for PresetDefinition {
    type V = PresetDefinitionView;

    open spec fn view(&self) -> PresetDefinitionView {
        PresetDefinitionView {
            video_codec: self.video_codec@,
            crf: self.crf,
            preset: self.preset@,
            description: self.description@,
        }
    }
}

/// A preset together with the name it is known by.
pub struct NamedPreset {
    pub name: Seq<char>,
    pub definition: PresetDefinitionView,
}

/// Whether no name occurs twice among `entries`.
pub open spec fn names_distinct(entries: Seq<NamedPreset>) -> bool {
    forall|i: int, j: int|
        0 <= i < j < entries.len() ==> (#[trigger] entries[i]).name != (#[trigger] entries[j]).name
}

/// Where `name` stands among `entries`, if it does.
pub open spec fn position(entries: Seq<NamedPreset>, name: Seq<char>) -> Option<int>
    decreases entries.len(),
{
    if entries.len() == 0 {
        None
    } else if entries.last().name == name {
        Some(entries.len() - 1)
    } else {
        position(entries.drop_last(), name)
    }
}

/// The definition that `entries` holds under `name`, if any.
pub open spec fn lookup(entries: Seq<NamedPreset>, name: Seq<char>) -> Option<
    PresetDefinitionView,
> {
    match position(entries, name) {
        Some(i) => Some(entries[i].definition),
        None => None,
    }
}

/// `entries` with `definition` under `name`: in the place of the definition
/// that stood under that name, or else at the end.
pub open spec fn put(
    entries: Seq<NamedPreset>,
    name: Seq<char>,
    definition: PresetDefinitionView,
) -> Seq<NamedPreset> {
    let entry = NamedPreset { name, definition };
    match position(entries, name) {
        Some(i) => entries.update(i, entry),
        None => entries.push(entry),
    }
}

/// `position` finds a name exactly where it stands.
pub proof fn lemma_position(entries: Seq<NamedPreset>, name: Seq<char>)
    ensures
        match position(entries, name) {
            Some(i) => 0 <= i < entries.len() && entries[i].name == name,
            None => forall|i: int| 0 <= i < entries.len() ==> (#[trigger] entries[i]).name != name,
        },
    decreases entries.len(),
{
    if entries.len() > 0 {
        let init = entries.drop_last();
        lemma_position(init, name);
        if position(entries, name) is None {
            assert forall|i: int| 0 <= i < entries.len() implies (#[trigger] entries[i]).name
                != name by {
                if i < init.len() {
                    assert(init[i].name != name);
                }
            }
        }
    }
}

/// Among distinct names, a name is found at the one place where it stands.
pub proof fn lemma_position_unique(entries: Seq<NamedPreset>, i: int)
    requires
        names_distinct(entries),
        0 <= i < entries.len(),
    ensures
        position(entries, entries[i].name) == Some(i),
{
    lemma_position(entries, entries[i].name);
}

/// `put` keeps the names distinct. Afterwards the name leads to the new
/// definition, and every other name leads to what it led to before.
pub proof fn lemma_put(
    entries: Seq<NamedPreset>,
    name: Seq<char>,
    definition: PresetDefinitionView,
    other: Seq<char>,
)
    requires
        names_distinct(entries),
    ensures
        names_distinct(put(entries, name, definition)),
        lookup(put(entries, name, definition), name) == Some(definition),
        other != name ==> lookup(put(entries, name, definition), other) == lookup(entries, other),
{
    let after = put(entries, name, definition);
    lemma_position(entries, name);
    let at = match position(entries, name) {
        Some(i) => i,
        None => entries.len() as int,
    };
    assert(names_distinct(after));
    lemma_position_unique(after, at);
    if other != name {
        lemma_position(entries, other);
        lemma_position(after, other);
        if let Some(i) = position(entries, other) {
            lemma_position_unique(after, i);
        }
    }
}

/// One choice as a front end shows it.
#[derive(Debug)]
pub struct PresetDisplayEntry {
    /// The preset's name, as the configuration has it.
    pub value: String,
    /// The name in the form meant for people.
    pub label: String,
    /// The preset's description.
    pub description: String,
}

/// A `PresetDisplayEntry` as a mathematical value.
pub struct PresetDisplayEntryView {
    pub value: Seq<char>,
    pub label: Seq<char>,
    pub description: Seq<char>,
}

impl View for PresetDisplayEntry {
    type V = PresetDisplayEntryView;

    open spec fn view(&self) -> PresetDisplayEntryView {
        PresetDisplayEntryView {
            value: self.value@,
            label: self.label@,
            description: self.description@,
        }
    }
}

/// The choice that stands for a preset: its name unchanged, the label of that
/// name, and its description.
pub open spec fn display_of(preset: NamedPreset) -> PresetDisplayEntryView {
    PresetDisplayEntryView {
        value: preset.name,
        label: label_of(preset.name),
        description: preset.definition.description,
    }
}

/// The choices that stand for `entries`, one for each, in the same order.
pub open spec fn display_list(entries: Seq<NamedPreset>) -> Seq<PresetDisplayEntryView> {
    entries.map_values(|preset: NamedPreset| display_of(preset))
}

/// The mathematical values of a list of choices.
pub open spec fn views(list: Seq<PresetDisplayEntry>) -> Seq<PresetDisplayEntryView> {
    list.map_values(|entry: PresetDisplayEntry| entry@)
}

/// Whether no value occurs twice in `list`.
pub open spec fn values_distinct(list: Seq<PresetDisplayEntryView>) -> bool {
    forall|i: int, j: int|
        0 <= i < j < list.len() ==> (#[trigger] list[i]).value != (#[trigger] list[j]).value
}

/// The choices for a catalog are as many as its presets, each carries the name
/// of its preset as its value, and no value occurs twice.
pub proof fn lemma_display_list(entries: Seq<NamedPreset>)
    requires
        names_distinct(entries),
    ensures
        display_list(entries).len() == entries.len(),
        forall|i: int|
            0 <= i < entries.len() ==> (#[trigger] display_list(entries)[i]).value
                == entries[i].name,
        values_distinct(display_list(entries)),
{
}

impl PresetDisplayEntry {
    /// The choice that stands for the preset `definition` known as `name`.
    pub fn new(name: &str, definition: &PresetDefinition) -> (entry: PresetDisplayEntry)
        ensures
            entry@ == display_of((NamedPreset { name: name@, definition: definition@ })),
    {
        PresetDisplayEntry {
            value: String::from_str(name),
            label: format_label(name),
            description: definition.description.clone(),
        }
    }
}

#[derive(Debug)]
struct CatalogEntry {
    name: String,
    definition: PresetDefinition,
}

impl View for CatalogEntry {
    type V = NamedPreset;

    closed spec fn view(&self) -> NamedPreset {
        NamedPreset { name: self.name@, definition: self.definition@ }
    }
}

/// The place of `name` among `entries`, if it is there.
fn find(entries: &Vec<CatalogEntry>, name: &String) -> (at: Option<usize>)
    ensures
        match at {
            Some(i) => i < entries.len() && entries[i as int]@.name == name@,
            None => forall|k: int| 0 <= k < entries.len() ==> (#[trigger] entries[k])@.name != name@,
        },
{
    let mut i: usize = 0;
    while i < entries.len()
        invariant
            i <= entries.len(),
            forall|k: int| 0 <= k < i ==> (#[trigger] entries[k])@.name != name@,
        decreases entries.len() - i,
    {
        if entries[i].name == *name {
            return Some(i);
        }
        i += 1;
    }
    None
}

/// The presets of one configuration, each under a name of its own. Its view
/// lists them in the order in which their names first came in.
#[derive(Debug)]
pub struct PresetCatalog {
    entries: Vec<CatalogEntry>,
}

impl View for PresetCatalog {
    type V = Seq<NamedPreset>;

    closed spec fn view(&self) -> Seq<NamedPreset> {
        self.entries@.map_values(|entry: CatalogEntry| entry@)
    }
}

impl PresetCatalog {
    #[verifier::type_invariant]
    spec fn well_formed(self) -> bool {
        names_distinct(self@)
    }

    /// A catalog without presets.
    pub fn new() -> (catalog: PresetCatalog)
        ensures
            catalog@ == Seq::<NamedPreset>::empty(),
            names_distinct(catalog@),
    {
        PresetCatalog { entries: Vec::new() }
    }

    /// The number of presets.
    pub fn len(&self) -> (n: usize)
        ensures
            n == self@.len(),
    {
        self.entries.len()
    }

    /// Puts `definition` under `name`. A definition that stood under this name
    /// is replaced and keeps its place; a new name goes to the end.
    pub fn insert(&mut self, name: String, definition: PresetDefinition)
        ensures
            final(self)@ == put(old(self)@, name@, definition@),
            names_distinct(final(self)@),
    {
        proof {
            use_type_invariant(&*self);
            lemma_position(self@, name@);
        }
        let entry = CatalogEntry { name, definition };
        let mut entries: Vec<CatalogEntry> = Vec::new();
        std::mem::swap(&mut entries, &mut self.entries);
        let ghost placed = entry@;
        match find(&entries, &entry.name) {
            Some(i) => {
                proof {
                    lemma_position_unique(old(self)@, i as int);
                }
                entries.set(i, entry);
            },
            None => {
                entries.push(entry);
            },
        }
        assert(entries@.map_values(|entry: CatalogEntry| entry@) =~= put(
            old(self)@,
            placed.name,
            placed.definition,
        ));
        self.entries = entries;
    }

    /// The choices for this catalog: one for each preset, in the catalog's
    /// order. No value occurs twice among them.
    pub fn display_entries(&self) -> (list: Vec<PresetDisplayEntry>)
        ensures
            list.len() == self@.len(),
            views(list@) == display_list(self@),
            values_distinct(views(list@)),
    {
        proof {
            use_type_invariant(self);
        }
        let mut list: Vec<PresetDisplayEntry> = Vec::new();
        let mut i: usize = 0;
        while i < self.entries.len()
            invariant
                i <= self.entries.len(),
                self@.len() == self.entries.len(),
                list.len() == i,
                views(list@) == display_list(self@.take(i as int)),
            decreases self.entries.len() - i,
        {
            let entry = &self.entries[i];
            let ghost before = list@;
            list.push(PresetDisplayEntry::new(entry.name.as_str(), &entry.definition));
            proof {
                let longer = self@.take(i + 1);
                assert forall|k: int| 0 <= k < i + 1 implies views(list@)[k] == display_list(
                    longer,
                )[k] by {
                    if k < i {
                        assert(views(before)[k] == display_list(self@.take(i as int))[k]);
                    }
                }
            }
            i += 1;
        }
        list
    }
}

/// What came of loading the configuration.
#[derive(Debug)]
pub enum ConfigLoad {
    /// The configuration could not be read; the text says why.
    Unreadable(String),
    /// The configuration was read, but it is not well-formed or lacks the table
    /// of presets; the text says why.
    Malformed(String),
    /// The configuration was read and its presets are these.
    Parsed(PresetCatalog),
}

/// Why the presets could not be listed.
#[derive(Debug)]
pub enum CatalogError {
    /// The configuration could not be read.
    ConfigReadError(String),
    /// The configuration is not well-formed or lacks the table of presets.
    ConfigParseError(String),
}

impl CatalogError {
    /// The message for this error: what went wrong, then the detail.
    pub open spec fn message_text(self) -> Seq<char> {
        match self {
            CatalogError::ConfigReadError(detail) => "Failed to read config file: "@ + detail@,
            CatalogError::ConfigParseError(detail) => "Failed to parse YAML: "@ + detail@,
        }
    }

    /// The message for this error.
    pub fn message(&self) -> (text: String)
        ensures
            text@ == self.message_text(),
    {
        match self {
            CatalogError::ConfigReadError(detail) => {
                let mut text = String::from_str("Failed to read config file: ");
                text.append(detail.as_str());
                text
            },
            CatalogError::ConfigParseError(detail) => {
                let mut text = String::from_str("Failed to parse YAML: ");
                text.append(detail.as_str());
                text
            },
        }
    }
}

/// The choices for a loaded configuration, or the reason why there are none.
///
/// A configuration that was read and parsed gives one choice for each of its
/// presets, none where it has no preset. One that could not be read gives a
/// `ConfigReadError`, one that is malformed a `ConfigParseError`, each with the
/// detail that came with it; no choice is ever listed beside an error.
pub fn resolve(load: ConfigLoad) -> (outcome: Result<Vec<PresetDisplayEntry>, CatalogError>)
    ensures
        match load {
            ConfigLoad::Unreadable(detail) => outcome == Err::<Vec<PresetDisplayEntry>, CatalogError>(
                CatalogError::ConfigReadError(detail),
            ),
            ConfigLoad::Malformed(detail) => outcome == Err::<Vec<PresetDisplayEntry>, CatalogError>(
                CatalogError::ConfigParseError(detail),
            ),
            ConfigLoad::Parsed(catalog) => {
                &&& outcome matches Ok(list)
                &&& list.len() == catalog@.len()
                &&& views(list@) == display_list(catalog@)
                &&& values_distinct(views(list@))
            },
        },
{
    match load {
        ConfigLoad::Unreadable(detail) => Err(CatalogError::ConfigReadError(detail)),
        ConfigLoad::Malformed(detail) => Err(CatalogError::ConfigParseError(detail)),
        ConfigLoad::Parsed(catalog) => Ok(catalog.display_entries()),
    }
}

/// The choices for a loaded configuration, or a message that says why there
/// are none.
pub fn get_presets(load: ConfigLoad) -> (outcome: Result<Vec<PresetDisplayEntry>, String>)
    ensures
        match load {
            ConfigLoad::Unreadable(detail) => {
                &&& outcome matches Err(text)
                &&& text@ == CatalogError::ConfigReadError(detail).message_text()
            },
            ConfigLoad::Malformed(detail) => {
                &&& outcome matches Err(text)
                &&& text@ == CatalogError::ConfigParseError(detail).message_text()
            },
            ConfigLoad::Parsed(catalog) => {
                &&& outcome matches Ok(list)
                &&& list.len() == catalog@.len()
                &&& views(list@) == display_list(catalog@)
                &&& values_distinct(views(list@))
            },
        },
{
    match resolve(load) {
        Ok(list) => Ok(list),
        Err(error) => Err(error.message()),
    }
}

} // verus!
