//! Dependencies of a traced project: what kind each is, how they are
//! written to a manifest and taken out of it, and the tally of what was
//! done.

use crate::config::strings_view;
use crate::json::{append_decimal_wide, decimal};
use crate::paths::path_is_absolute;
use crate::text::{chars_of, string_of};
use vstd::string::StringExecFns;
use vstd::prelude::*;

verus! {

/// Where a dependency comes from.
#[derive(Debug, Clone, Copy)]
pub enum DependencyType<'a> {
    /// A crate in a directory.
    Path(&'a str),
    /// A crate of a registry, by version.
    Version(&'a str),
}

/// The tally of an operation on dependencies: the names it dealt with and
/// the names it passed over, each in the order in which they came.
#[derive(Debug)]
pub struct DependencyStats {
    pub added: Vec<String>,
    pub skipped: Vec<String>,
}

/// The mathematical value of a [`DependencyStats`].
pub ghost struct StatsView {
    pub added: Seq<Seq<char>>,
    pub skipped: Seq<Seq<char>>,
}

impl View for DependencyStats {
    type V = StatsView;

    open spec fn view(&self) -> StatsView {
        StatsView { added: strings_view(self.added@), skipped: strings_view(self.skipped@) }
    }
}

impl Default for DependencyStats {
    fn default() -> (stats: DependencyStats)
        ensures
            stats@ == (StatsView { added: Seq::empty(), skipped: Seq::empty() }),
    {
        let stats = DependencyStats { added: Vec::new(), skipped: Vec::new() };
        assert(stats@.added =~= Seq::empty());
        assert(stats@.skipped =~= Seq::empty());
        stats
    }
}

impl DependencyStats {
    /// An empty tally.
    pub fn new() -> (stats: DependencyStats)
        ensures
            stats@ == (StatsView { added: Seq::empty(), skipped: Seq::empty() }),
    {
        DependencyStats::default()
    }

    /// Notes a name that was dealt with.
    pub fn add_added(&mut self, name: String)
        ensures
            final(self)@ == (StatsView { added: old(self)@.added.push(name@), ..old(self)@ }),
    {
        self.added.push(name);
        assert(self@.added =~= old(self)@.added.push(name@));
    }

    /// Notes a name that was passed over.
    pub fn add_skipped(&mut self, name: String)
        ensures
            final(self)@ == (StatsView { skipped: old(self)@.skipped.push(name@), ..old(self)@ }),
    {
        self.skipped.push(name);
        assert(self@.skipped =~= old(self)@.skipped.push(name@));
    }

    /// Whether a summary of added dependencies is worth showing: something
    /// was added or passed over.
    pub fn has_changes(&self) -> (b: bool)
        ensures
            b == (self@.added.len() > 0 || self@.skipped.len() > 0),
    {
        self.added.len() > 0 || self.skipped.len() > 0
    }
}

/// Whether a dependency is written to a manifest: always, unless the
/// manifest has it and is not to be overwritten.
pub open spec fn is_written(present: bool, force: bool) -> bool {
    !present || force
}

/// Decides on one dependency of a manifest and takes note: it is written,
/// and counts as added, unless the manifest has it already and is not to
/// be overwritten; then it counts as skipped.
pub fn record_dependency(stats: &mut DependencyStats, name: &str, present: bool, force: bool) -> (write:
    bool)
    ensures
        write == is_written(present, force),
        final(stats)@ == (if is_written(present, force) {
            StatsView { added: old(stats)@.added.push(name@), ..old(stats)@ }
        } else {
            StatsView { skipped: old(stats)@.skipped.push(name@), ..old(stats)@ }
        }),
{
    if present && !force {
        stats.add_skipped(name.to_owned());
        false
    } else {
        stats.add_added(name.to_owned());
        true
    }
}

/// Takes note of the removal of one dependency: one that was there counts
/// as removed, under `added`; one that was not counts as skipped.
pub fn record_removal(stats: &mut DependencyStats, name: &str, removed: bool)
    ensures
        final(stats)@ == (if removed {
            StatsView { added: old(stats)@.added.push(name@), ..old(stats)@ }
        } else {
            StatsView { skipped: old(stats)@.skipped.push(name@), ..old(stats)@ }
        }),
{
    if removed {
        stats.add_added(name.to_owned());
    } else {
        stats.add_skipped(name.to_owned());
    }
}

/// A text with each backslash turned into a slash.
pub open spec fn with_slashes(s: Seq<char>) -> Seq<char> {
    Seq::new(
        s.len(),
        |i: int|
            if s[i] == '\\' {
                '/'
            } else {
                s[i]
            },
    )
}

/// The path of a dependency as the manifest holds it: an absolute path as
/// it is, a relative one with slashes for backslashes.
pub fn dependency_path_text(path: &str, is_absolute: bool) -> (text: String)
    ensures
        text@ == (if is_absolute {
            path@
        } else {
            with_slashes(path@)
        }),
{
    if is_absolute {
        return path.to_owned();
    }
    let letters = chars_of(path);
    let mut out: Vec<char> = Vec::new();
    let mut i: usize = 0;
    while i < letters.len()
        invariant
            i <= letters.len(),
            out.len() == i,
            forall|k: int|
                0 <= k < i ==> out@[k] == (if letters@[k] == '\\' {
                    '/'
                } else {
                    letters@[k]
                }),
        decreases letters.len() - i,
    {
        if letters[i] == '\\' {
            out.push('/');
        } else {
            out.push(letters[i]);
        }
        i += 1;
    }
    assert(out@ =~= with_slashes(letters@));
    string_of(&out)
}

/// The summary of dependencies added; nothing where nothing was done.
pub open spec fn dependency_summary(stats: StatsView) -> Option<Seq<char>> {
    if stats.added.len() == 0 && stats.skipped.len() == 0 {
        None
    } else {
        Some(
            "dependency summary:\n  added: "@ + decimal(stats.added.len()) + "\n  skipped: "@
                + decimal(stats.skipped.len()) + "\n"@,
        )
    }
}

/// The summary of dependencies added.
pub fn display_dependency_summary(stats: &DependencyStats) -> (text: Option<String>)
    ensures
        crate::text::text_view(text) == dependency_summary(stats@),
{
    if stats.added.len() == 0 && stats.skipped.len() == 0 {
        return None;
    }
    let mut text = "dependency summary:\n  added: ".to_owned();
    append_decimal_wide(&mut text, stats.added.len() as u128);
    text.append("\n  skipped: ");
    append_decimal_wide(&mut text, stats.skipped.len() as u128);
    text.append("\n");
    Some(text)
}

/// The summary of dependencies removed.
pub fn display_removal_summary(stats: &DependencyStats) -> (text: String)
    ensures
        text@ == "dependency removal summary:\n  removed: "@ + decimal(stats@.added.len())
            + "\n  not found: "@ + decimal(stats@.skipped.len()) + "\n"@,
{
    let mut text = "dependency removal summary:\n  removed: ".to_owned();
    append_decimal_wide(&mut text, stats.added.len() as u128);
    text.append("\n  not found: ");
    append_decimal_wide(&mut text, stats.skipped.len() as u128);
    text.append("\n");
    text
}

/// `toml_edit::Document`: a manifest that keeps its layout when it is
/// changed.
#[verifier::external_type_specification]
#[verifier::external_body]
pub struct ExTomlDocument(toml_edit::Document);

/// `toml_edit::TomlError`: what the parser gives for a text that is no
/// TOML.
#[verifier::external_type_specification]
#[verifier::external_body]
pub struct ExTomlError(toml_edit::TomlError);

/// What stands under `dependencies` in a manifest.
#[derive(Debug, Clone, Copy, PartialEq, Eq, Structural)]
pub enum SectionForm {
    /// Nothing.
    Absent,
    /// A table of its own, under a header in brackets.
    Table,
    /// A table written in one line, between braces.
    Inline,
    /// Anything else.
    Other,
}

/// The name of the section that holds a manifest's dependencies.
pub open spec fn section_name() -> Seq<char> {
    "dependencies"@
}

/// What stands under `dependencies` in a document.
pub uninterp spec fn dependencies_form(doc: toml_edit::Document) -> SectionForm;

/// The keys of the table of its own that stands under `dependencies` in a
/// document; none where no such table stands there.
pub uninterp spec fn dependency_keys(doc: toml_edit::Document) -> Set<Seq<char>>;

/// Why a manifest could not be changed.
#[derive(Debug)]
pub enum ManifestError {
    /// The manifest is no TOML; the parser's message.
    Parse(String),
    /// What stands under `dependencies` takes no keys.
    DependenciesNotATable,
}

impl ManifestError {
    /// The error as a line of text.
    pub fn message(&self) -> (text: String)
        ensures
            text@ == match self {
                ManifestError::Parse(m) => "Failed to parse Cargo.toml: "@ + m@,
                ManifestError::DependenciesNotATable => "The dependencies of Cargo.toml are not a table"@,
            },
    {
        match self {
            ManifestError::Parse(m) => {
                let mut text = "Failed to parse Cargo.toml: ".to_owned();
                text.append(m.as_str());
                text
            },
            ManifestError::DependenciesNotATable => "The dependencies of Cargo.toml are not a table".to_owned(),
        }
    }
}

/// What the parser makes of a text: the document that the text stands for,
/// or the parser's error where the text is no TOML.
pub uninterp spec fn parsed_manifest(content: Seq<char>) -> Result<
    toml_edit::Document,
    toml_edit::TomlError,
>;

/// The message of a parser's error.
pub uninterp spec fn parse_error_message(e: toml_edit::TomlError) -> Seq<char>;

/// The text of a document, with the layout that it keeps.
pub uninterp spec fn document_text(doc: toml_edit::Document) -> Seq<char>;

/// Parses a manifest: `str::parse` for `toml_edit::Document`. What comes
/// back goes by the text alone.
#[verifier::external_body]
fn parse_manifest(content: &str) -> (r: Result<toml_edit::Document, toml_edit::TomlError>)
    ensures
        r == parsed_manifest(content@),
{
    content.parse::<toml_edit::Document>()
}

/// The message of a `toml_edit::TomlError`, as its `Display` impl writes
/// it.
#[verifier::external_body]
fn parse_error_text(e: &toml_edit::TomlError) -> (message: String)
    ensures
        message@ == parse_error_message(*e),
{
    e.to_string()
}

/// The text of a document, as the `Display` impl of
/// `toml_edit::Document` writes it.
#[verifier::external_body]
fn manifest_text(doc: &toml_edit::Document) -> (text: String)
    ensures
        text@ == document_text(*doc),
{
    doc.to_string()
}

/// Tells what stands under `dependencies`, by `Table::get` on the
/// document's root and the variant of the item found. Only a table of its
/// own has keys that count. `section` is the name `dependencies`, here and
/// in the calls below.
#[verifier::external_body]
fn section_form(doc: &toml_edit::Document, section: &str) -> (form: SectionForm)
    requires
        section@ == section_name(),
    ensures
        form == dependencies_form(*doc),
        form != SectionForm::Table ==> dependency_keys(*doc) == Set::<Seq<char>>::empty(),
{
    match doc.get(section) {
        None => SectionForm::Absent,
        Some(toml_edit::Item::Table(_)) => SectionForm::Table,
        Some(toml_edit::Item::Value(toml_edit::Value::InlineTable(_))) => SectionForm::Inline,
        Some(_) => SectionForm::Other,
    }
}

/// What stands under a name under `dependencies`, as far as this library
/// writes it.
pub ghost enum EntryView {
    /// A string.
    Text(Seq<char>),
    /// A table in one line that holds one string under one key.
    Keyed { key: Seq<char>, text: Seq<char> },
    /// Anything else.
    Other,
}

/// What stands under a name in what stands under `dependencies` in a
/// document, be that a table of its own or one in a line; nothing where
/// the name is not there.
pub uninterp spec fn dependency_entry(doc: toml_edit::Document, name: Seq<char>) -> Option<
    EntryView,
>;

/// Asks the table of its own under `dependencies` whether it has a key, by
/// `Table::contains_key`; no answer where no such table stands there.
#[verifier::external_body]
fn table_has_key(doc: &toml_edit::Document, section: &str, name: &str) -> (present: Option<bool>)
    requires
        section@ == section_name(),
    ensures
        present == (if dependencies_form(*doc) == SectionForm::Table {
            Some(dependency_keys(*doc).contains(name@))
        } else {
            None
        }),
        present is None ==> dependency_keys(*doc) == Set::<Seq<char>>::empty(),
{
    doc.get(section).and_then(|deps| deps.as_table()).map(|table| table.contains_key(name))
}

/// Whether a manifest has a dependency: whether the table of its own
/// under `dependencies` has the key; `false` where there is no such table.
pub fn dependency_exists(doc: &toml_edit::Document, dep_name: &str) -> (present: bool)
    ensures
        present == dependency_keys(*doc).contains(dep_name@),
{
    match table_has_key(doc, "dependencies", dep_name) {
        Some(present) => present,
        None => false,
    }
}

/// Puts an empty table of its own, made by `toml_edit::table`, under
/// `dependencies` in a document where nothing stands there: a table
/// without a key, and so with nothing under any name.
#[verifier::external_body]
fn put_empty_dependencies_table(doc: &mut toml_edit::Document, section: &str)
    requires
        section@ == section_name(),
        dependencies_form(*old(doc)) == SectionForm::Absent,
    ensures
        dependencies_form(*final(doc)) == SectionForm::Table,
        dependency_keys(*final(doc)) == Set::<Seq<char>>::empty(),
        forall|name: Seq<char>| #[trigger] dependency_entry(*final(doc), name) is None,
{
    doc[section] = toml_edit::table();
}

/// Makes sure that something stands under `dependencies`: where nothing
/// does, an empty table of its own is put there. What stands there already
/// is left alone.
pub fn ensure_dependencies_section(doc: &mut toml_edit::Document)
    ensures
        dependencies_form(*final(doc)) == (if dependencies_form(*old(doc)) == SectionForm::Absent {
            SectionForm::Table
        } else {
            dependencies_form(*old(doc))
        }),
        dependency_keys(*final(doc)) == dependency_keys(*old(doc)),
        dependencies_form(*old(doc)) != SectionForm::Absent ==> *final(doc) == *old(doc),
        dependencies_form(*old(doc)) == SectionForm::Absent ==> forall|name: Seq<char>| #[trigger]
            dependency_entry(*final(doc), name) is None,
{
    match section_form(doc, "dependencies") {
        SectionForm::Absent => put_empty_dependencies_table(doc, "dependencies"),
        _ => {},
    }
}

/// What a write under a name does to `dependencies` besides the entry
/// under that name: the table, of its own or in a line, gets or keeps the
/// name, and only the keys of a table of its own count; where nothing
/// stood there, a table in a line was made for the name; what stands
/// under other names stays.
pub open spec fn is_written_to(
    before: toml_edit::Document,
    after: toml_edit::Document,
    name: Seq<char>,
) -> bool {
    &&& dependencies_form(after) == (if dependencies_form(before) == SectionForm::Absent {
        SectionForm::Inline
    } else {
        dependencies_form(before)
    })
    &&& dependency_keys(after) == (if dependencies_form(before) == SectionForm::Table {
        dependency_keys(before).insert(name)
    } else {
        dependency_keys(before)
    })
    &&& forall|other: Seq<char>|
        other != name ==> #[trigger] dependency_entry(after, other) == dependency_entry(
            before,
            other,
        )
}

/// Writes a string under a name under `dependencies`, by indexing the
/// document with the two keys and assigning `toml_edit::value` of the
/// string. What [`is_written_to`] says holds: for a table of its own by
/// `Table::entry`, for a table in a line, also the one made where nothing
/// stood there, by the entry of its items. The call does not return where
/// anything else stands under `dependencies`.
#[verifier::external_body]
fn put_text(doc: &mut toml_edit::Document, section: &str, name: &str, text: &str)
    requires
        section@ == section_name(),
        dependencies_form(*old(doc)) != SectionForm::Other,
    ensures
        is_written_to(*old(doc), *final(doc), name@),
        dependency_entry(*final(doc), name@) == Some(EntryView::Text(text@)),
{
    doc[section][name] = toml_edit::value(text);
}

/// Writes a table in a line that holds one string under one key, made by
/// `InlineTable::new` and `InlineTable::insert`, under a name under
/// `dependencies`, by indexing the document with the two keys. What
/// [`is_written_to`] says holds, as for [`put_text`]. The call does not
/// return where anything else stands under `dependencies`.
#[verifier::external_body]
fn put_keyed_text(
    doc: &mut toml_edit::Document,
    section: &str,
    name: &str,
    key: &str,
    text: &str,
)
    requires
        section@ == section_name(),
        dependencies_form(*old(doc)) != SectionForm::Other,
    ensures
        is_written_to(*old(doc), *final(doc), name@),
        dependency_entry(*final(doc), name@) == Some(
            EntryView::Keyed { key: key@, text: text@ },
        ),
{
    let mut dep_table = toml_edit::InlineTable::new();
    dep_table.insert(key, text.into());
    doc[section][name] = toml_edit::value(dep_table);
}

/// Takes a key that the table of its own under `dependencies` has out of
/// it, by `Table::remove`.
#[verifier::external_body]
fn remove_key(doc: &mut toml_edit::Document, section: &str, name: &str)
    requires
        section@ == section_name(),
        dependencies_form(*old(doc)) == SectionForm::Table,
        dependency_keys(*old(doc)).contains(name@),
    ensures
        dependency_keys(*final(doc)) == dependency_keys(*old(doc)).remove(name@),
        dependencies_form(*final(doc)) == dependencies_form(*old(doc)),
{
    doc.get_mut(section).and_then(|deps| deps.as_table_mut()).and_then(|table| table.remove(name));
}

/// Takes a dependency out of the table of its own under `dependencies`,
/// where the table has it. Returns whether it had; a document without it
/// is left as it is.
pub fn remove_dependency(doc: &mut toml_edit::Document, name: &str) -> (removed: bool)
    ensures
        removed == dependency_keys(*old(doc)).contains(name@),
        dependency_keys(*final(doc)) == dependency_keys(*old(doc)).remove(name@),
        dependencies_form(*final(doc)) == dependencies_form(*old(doc)),
        !removed ==> *final(doc) == *old(doc),
{
    match table_has_key(doc, "dependencies", name) {
        Some(true) => {
            remove_key(doc, "dependencies", name);
            true
        },
        _ => {
            assert(dependency_keys(*doc).remove(name@) =~= dependency_keys(*doc));
            false
        },
    }
}

/// What a dependency is written as: a version as a string; a path under
/// the key `path` in a table in a line, as it is where it is absolute,
/// else with slashes for backslashes.
pub open spec fn entry_of(dep_type: DependencyType, is_absolute: bool) -> EntryView {
    match dep_type {
        DependencyType::Path(path) => EntryView::Keyed {
            key: "path"@,
            text: if is_absolute {
                path@
            } else {
                with_slashes(path@)
            },
        },
        DependencyType::Version(version) => EntryView::Text(version@),
    }
}

/// Writes a dependency to a manifest, given whether its path is absolute:
/// what [`entry_of`] says, under its name. What stands under
/// `dependencies`, if anything, must take keys.
pub fn write_dependency(
    doc: &mut toml_edit::Document,
    name: &str,
    dep_type: DependencyType,
    is_absolute: bool,
)
    requires
        dependencies_form(*old(doc)) != SectionForm::Other,
    ensures
        is_written_to(*old(doc), *final(doc), name@),
        dependency_entry(*final(doc), name@) == Some(entry_of(dep_type, is_absolute)),
{
    match dep_type {
        DependencyType::Path(path) => {
            let text = dependency_path_text(path, is_absolute);
            put_keyed_text(doc, "dependencies", name, "path", text.as_str());
        },
        DependencyType::Version(version) => {
            put_text(doc, "dependencies", name, version);
        },
    }
}

/// Writes a dependency to a manifest: a version as it is, a path as it is
/// where the platform takes it for absolute, else with slashes for
/// backslashes. What stands under `dependencies`, if anything, must take
/// keys.
pub fn add_dependency(doc: &mut toml_edit::Document, name: &str, dep_type: DependencyType)
    requires
        dependencies_form(*old(doc)) != SectionForm::Other,
    ensures
        is_written_to(*old(doc), *final(doc), name@),
        dependency_entry(*final(doc), name@) == Some(entry_of(dep_type, true))
            || dependency_entry(*final(doc), name@) == Some(entry_of(dep_type, false)),
{
    let is_absolute = match dep_type {
        DependencyType::Path(path) => path_is_absolute(path),
        DependencyType::Version(_) => false,
    };
    write_dependency(doc, name, dep_type, is_absolute);
}

/// A dependency to write: its name and where it comes from.
#[derive(Debug, Clone, Copy)]
pub struct Dependency<'a> {
    pub name: &'a str,
    pub source: DependencyType<'a>,
}

/// The names of a row of dependencies.
pub open spec fn dependency_names(dependencies: Seq<Dependency>) -> Seq<Seq<char>> {
    Seq::new(dependencies.len(), |i: int| dependencies[i].name@)
}

/// The keys of a table after the first `count` names were dealt with: the
/// keys it had and each name that was written.
pub open spec fn keys_after(keys: Set<Seq<char>>, names: Seq<Seq<char>>, force: bool, count: int) -> Set<
    Seq<char>,
>
    decreases count,
{
    if count <= 0 || count > names.len() {
        keys
    } else {
        keys_after(keys, names, force, count - 1).insert(names[count - 1])
    }
}

/// The tally after the first `count` names were dealt with, for a table
/// that had the keys given: a name counts as skipped where the table has
/// it by then and is not to be overwritten, else as added.
pub open spec fn stats_after(keys: Set<Seq<char>>, names: Seq<Seq<char>>, force: bool, count: int) -> StatsView
    decreases count,
{
    if count <= 0 || count > names.len() {
        StatsView { added: Seq::empty(), skipped: Seq::empty() }
    } else {
        let earlier = stats_after(keys, names, force, count - 1);
        let present = keys_after(keys, names, force, count - 1).contains(names[count - 1]);
        if is_written(present, force) {
            StatsView { added: earlier.added.push(names[count - 1]), ..earlier }
        } else {
            StatsView { skipped: earlier.skipped.push(names[count - 1]), ..earlier }
        }
    }
}

/// What stands under a name after the first `count` dependencies were
/// dealt with, in a table that had the keys given and `start` under the
/// name: what the last of them that has the name and was written left
/// there. `absolute` tells of each dependency whether its path counts as
/// absolute.
pub open spec fn entry_after(
    start: Option<EntryView>,
    keys: Set<Seq<char>>,
    dependencies: Seq<Dependency>,
    absolute: Seq<bool>,
    force: bool,
    count: int,
    name: Seq<char>,
) -> Option<EntryView>
    decreases count,
{
    if count <= 0 || count > dependencies.len() || count > absolute.len() {
        start
    } else {
        let dep = dependencies[count - 1];
        let present = keys_after(keys, dependency_names(dependencies), force, count - 1).contains(
            dep.name@,
        );
        if dep.name@ == name && is_written(present, force) {
            Some(entry_of(dep.source, absolute[count - 1]))
        } else {
            entry_after(start, keys, dependencies, absolute, force, count - 1, name)
        }
    }
}

/// What stands under a name before anything is written: nothing, where
/// the manifest has nothing under `dependencies`.
pub open spec fn entry_before(doc: toml_edit::Document, name: Seq<char>) -> Option<EntryView> {
    if dependencies_form(doc) == SectionForm::Absent {
        None
    } else {
        dependency_entry(doc, name)
    }
}

/// Whether under every name a document holds what [`entry_after`] says
/// for another document and the first `count` of a row of dependencies.
pub open spec fn holds_entries(
    before: toml_edit::Document,
    after: toml_edit::Document,
    dependencies: Seq<Dependency>,
    absolute: Seq<bool>,
    force: bool,
    count: int,
) -> bool {
    forall|name: Seq<char>| #[trigger]
        dependency_entry(after, name) == entry_after(
            entry_before(before, name),
            dependency_keys(before),
            dependencies,
            absolute,
            force,
            count,
            name,
        )
}

/// What was decided of later dependencies changes nothing about earlier
/// ones.
proof fn lemma_entry_after_push(
    start: Option<EntryView>,
    keys: Set<Seq<char>>,
    dependencies: Seq<Dependency>,
    absolute: Seq<bool>,
    last: bool,
    force: bool,
    count: int,
    name: Seq<char>,
)
    requires
        0 <= count <= absolute.len(),
        count <= dependencies.len(),
    ensures
        entry_after(start, keys, dependencies, absolute.push(last), force, count, name)
            == entry_after(start, keys, dependencies, absolute, force, count, name),
    decreases count,
{
    if count > 0 {
        lemma_entry_after_push(start, keys, dependencies, absolute, last, force, count - 1, name);
        assert(absolute.push(last)[count - 1] == absolute[count - 1]);
    }
}

/// Writes dependencies to a manifest, each unless the manifest has it
/// already and is not to be overwritten, and tells what was done. An
/// empty table is made for them where the manifest has none. Where
/// something stands under `dependencies` that takes no keys, nothing is
/// written and the first dependency fails.
pub fn update_document(doc: &mut toml_edit::Document, dependencies: &Vec<Dependency>, force: bool) -> (r:
    Result<DependencyStats, ManifestError>)
    ensures
        match r {
            Ok(stats) => {
                &&& dependencies_form(*old(doc)) != SectionForm::Other || dependencies.len() == 0
                &&& dependencies_form(*old(doc)) == SectionForm::Absent || dependencies_form(
                    *old(doc),
                ) == SectionForm::Table ==> {
                    &&& stats@ == stats_after(
                        dependency_keys(*old(doc)),
                        dependency_names(dependencies@),
                        force,
                        dependencies.len() as int,
                    )
                    &&& dependency_keys(*final(doc)) == keys_after(
                        dependency_keys(*old(doc)),
                        dependency_names(dependencies@),
                        force,
                        dependencies.len() as int,
                    )
                    &&& dependencies_form(*final(doc)) == SectionForm::Table
                    &&& exists|absolute: Seq<bool>|
                        absolute.len() == dependencies.len() && #[trigger] holds_entries(
                            *old(doc),
                            *final(doc),
                            dependencies@,
                            absolute,
                            force,
                            dependencies.len() as int,
                        )
                }
                &&& dependencies_form(*old(doc)) == SectionForm::Inline || dependencies_form(
                    *old(doc),
                ) == SectionForm::Other ==> stats@ == (StatsView {
                    added: dependency_names(dependencies@),
                    skipped: Seq::empty(),
                })
            },
            Err(e) => {
                &&& e is DependenciesNotATable
                &&& dependencies_form(*old(doc)) == SectionForm::Other
                &&& dependencies.len() > 0
                &&& *final(doc) == *old(doc)
            },
        },
{
    let ghost old_form = dependencies_form(*doc);
    ensure_dependencies_section(doc);
    let form = section_form(doc, "dependencies");
    let ghost keys = dependency_keys(*old(doc));
    let ghost names = dependency_names(dependencies@);
    let mut stats = DependencyStats::new();
    let mut i: usize = 0;
    let ghost mut absolute: Seq<bool> = Seq::empty();
    assert(names.take(0) =~= Seq::<Seq<char>>::empty());
    while i < dependencies.len()
        invariant
            i <= dependencies.len(),
            absolute.len() == i,
            form == SectionForm::Table ==> holds_entries(
                *old(doc),
                *doc,
                dependencies@,
                absolute,
                force,
                i as int,
            ),
            form == SectionForm::Other ==> *doc == *old(doc),
            keys == dependency_keys(*old(doc)),
            names == dependency_names(dependencies@),
            form == dependencies_form(*doc),
            form != SectionForm::Absent,
            old_form == dependencies_form(*old(doc)),
            form == (if old_form == SectionForm::Absent {
                SectionForm::Table
            } else {
                old_form
            }),
            form != SectionForm::Table ==> keys == Set::<Seq<char>>::empty(),
            form != SectionForm::Table ==> dependency_keys(*doc) == Set::<Seq<char>>::empty(),
            form == SectionForm::Table ==> stats@ == stats_after(keys, names, force, i as int),
            form == SectionForm::Table ==> dependency_keys(*doc) == keys_after(
                keys,
                names,
                force,
                i as int,
            ),
            form != SectionForm::Table ==> stats@ == (StatsView {
                added: names.take(i as int),
                skipped: Seq::empty(),
            }),
            form == SectionForm::Other ==> i == 0,
        decreases dependencies.len() - i,
    {
        let dep = &dependencies[i];
        assert(names[i as int] == dep.name@);
        let present = dependency_exists(doc, dep.name);
        let written = record_dependency(&mut stats, dep.name, present, force);
        let ghost earlier = *doc;
        if written {
            if form == SectionForm::Other {
                return Err(ManifestError::DependenciesNotATable);
            }
            add_dependency(doc, dep.name, dep.source);
        } else {
            proof {
                assert(dependency_keys(*doc).insert(dep.name@) =~= dependency_keys(*doc));
            }
        }
        proof {
            assert(names.take(i + 1) =~= names.take(i as int).push(names[i as int]));
            let last = dependency_entry(*doc, dep.name@) == Some(entry_of(dep.source, true));
            if form == SectionForm::Table {
                assert forall|name: Seq<char>| #[trigger]
                    dependency_entry(*doc, name) == entry_after(
                        entry_before(*old(doc), name),
                        keys,
                        dependencies@,
                        absolute.push(last),
                        force,
                        i + 1,
                        name,
                    ) by {
                    lemma_entry_after_push(
                        entry_before(*old(doc), name),
                        keys,
                        dependencies@,
                        absolute,
                        last,
                        force,
                        i as int,
                        name,
                    );
                    assert(dependency_entry(earlier, name) == entry_after(
                        entry_before(*old(doc), name),
                        keys,
                        dependencies@,
                        absolute,
                        force,
                        i as int,
                        name,
                    ));
                    assert(absolute.push(last)[i as int] == last);
                }
            }
            absolute = absolute.push(last);
        }
        i += 1;
    }
    assert(names.take(dependencies.len() as int) =~= names);
    Ok(stats)
}

/// The tally of an update of a document: what [`stats_after`] says for the
/// keys of its table of dependencies, where it has such a table or gets
/// one; every name as added, where its dependencies stand in one line.
pub open spec fn update_stats(doc: toml_edit::Document, names: Seq<Seq<char>>, force: bool) -> StatsView {
    if dependencies_form(doc) == SectionForm::Absent || dependencies_form(doc)
        == SectionForm::Table {
        stats_after(dependency_keys(doc), names, force, names.len() as int)
    } else {
        StatsView { added: names, skipped: Seq::empty() }
    }
}

/// Whether a document is what an update makes of another: where that has
/// a table of dependencies or none at all, this has the table, with the
/// keys it had and the names written, and under each name what the last
/// dependency written under it is written as, with the platform's word on
/// which paths are absolute.
pub open spec fn is_updated(
    before: toml_edit::Document,
    after: toml_edit::Document,
    dependencies: Seq<Dependency>,
    force: bool,
) -> bool {
    dependencies_form(before) == SectionForm::Absent || dependencies_form(before)
        == SectionForm::Table ==> {
        &&& dependencies_form(after) == SectionForm::Table
        &&& dependency_keys(after) == keys_after(
            dependency_keys(before),
            dependency_names(dependencies),
            force,
            dependencies.len() as int,
        )
        &&& exists|absolute: Seq<bool>|
            absolute.len() == dependencies.len() && #[trigger] holds_entries(
                before,
                after,
                dependencies,
                absolute,
                force,
                dependencies.len() as int,
            )
    }
}

/// Writes dependencies to the text of a manifest and gives the new text
/// with the tally. A text that is no TOML is refused with the parser's
/// message. A manifest with something under `dependencies` that takes no
/// keys is refused too, unless there is nothing to write. Any other
/// manifest is updated as [`update_document`] says: the text that comes
/// back is that of the updated document, and each dependency is counted
/// once.
pub fn update_cargo_toml_with_deps(content: &str, dependencies: &Vec<Dependency>, force: bool) -> (r:
    Result<(String, DependencyStats), ManifestError>)
    ensures
        match parsed_manifest(content@) {
            Err(e) => r matches Err(ManifestError::Parse(m)) && m@ == parse_error_message(e),
            Ok(doc) => if dependencies_form(doc) == SectionForm::Other && dependencies.len()
                > 0 {
                r matches Err(ManifestError::DependenciesNotATable)
            } else {
                r matches Ok(pair) && pair.1@ == update_stats(
                    doc,
                    dependency_names(dependencies@),
                    force,
                ) && (exists|after: toml_edit::Document|
                    #[trigger] document_text(after) == pair.0@ && is_updated(
                        doc,
                        after,
                        dependencies@,
                        force,
                    ))
            },
        },
        r matches Ok(pair) ==> pair.1@.added.len() + pair.1@.skipped.len()
            == dependencies.len(),
{
    let mut doc = match parse_manifest(content) {
        Ok(doc) => doc,
        Err(e) => { return Err(ManifestError::Parse(parse_error_text(&e))); },
    };
    let ghost before = doc;
    let ghost names = dependency_names(dependencies@);
    match update_document(&mut doc, dependencies, force) {
        Ok(stats) => {
            proof {
                lemma_stats_count(dependency_keys(before), names, force, names.len() as int);
            }
            let text = manifest_text(&doc);
            assert(document_text(doc) == text@ && is_updated(before, doc, dependencies@, force));
            Ok((text, stats))
        },
        Err(e) => Err(e),
    }
}

/// Each name that was dealt with counts once, as added or as skipped.
pub proof fn lemma_stats_count(keys: Set<Seq<char>>, names: Seq<Seq<char>>, force: bool, count: int)
    requires
        0 <= count <= names.len(),
    ensures
        stats_after(keys, names, force, count).added.len() + stats_after(
            keys,
            names,
            force,
            count,
        ).skipped.len() == count,
    decreases count,
{
    if count > 0 {
        lemma_stats_count(keys, names, force, count - 1);
    }
}

/// The dependencies that tracing brings into a manifest.
pub open spec fn trace_dependencies() -> Seq<Seq<char>> {
    seq!["trace_runtime"@, "trace_common"@, "serde_json"@]
}

/// The tally after the first `count` names were taken out of a table that
/// had the keys given: a name counts as removed, under `added`, where the
/// table has it by then, else as skipped.
pub open spec fn removal_stats(keys: Set<Seq<char>>, names: Seq<Seq<char>>, count: int) -> StatsView
    decreases count,
{
    if count <= 0 || count > names.len() {
        StatsView { added: Seq::empty(), skipped: Seq::empty() }
    } else {
        let earlier = removal_stats(keys, names, count - 1);
        if keys_without(keys, names, count - 1).contains(names[count - 1]) {
            StatsView { added: earlier.added.push(names[count - 1]), ..earlier }
        } else {
            StatsView { skipped: earlier.skipped.push(names[count - 1]), ..earlier }
        }
    }
}

/// The keys of a table without the first `count` names.
pub open spec fn keys_without(keys: Set<Seq<char>>, names: Seq<Seq<char>>, count: int) -> Set<
    Seq<char>,
>
    decreases count,
{
    if count <= 0 || count > names.len() {
        keys
    } else {
        keys_without(keys, names, count - 1).remove(names[count - 1])
    }
}

/// Each name that was to be taken out counts once, as removed or as
/// skipped.
pub proof fn lemma_removal_count(keys: Set<Seq<char>>, names: Seq<Seq<char>>, count: int)
    requires
        0 <= count <= names.len(),
    ensures
        removal_stats(keys, names, count).added.len() + removal_stats(
            keys,
            names,
            count,
        ).skipped.len() == count,
    decreases count,
{
    if count > 0 {
        lemma_removal_count(keys, names, count - 1);
    }
}

/// Takes the dependencies that tracing brought out of a manifest, and
/// tells which were there. A manifest that has none of them is left as it
/// is.
pub fn remove_dependencies_from_document(doc: &mut toml_edit::Document) -> (stats: DependencyStats)
    ensures
        stats@ == removal_stats(dependency_keys(*old(doc)), trace_dependencies(), 3),
        dependency_keys(*final(doc)) == keys_without(
            dependency_keys(*old(doc)),
            trace_dependencies(),
            3,
        ),
        dependencies_form(*final(doc)) == dependencies_form(*old(doc)),
        stats@.added.len() == 0 ==> *final(doc) == *old(doc),
{
    let ghost keys = dependency_keys(*doc);
    let ghost names = trace_dependencies();
    let mut stats = DependencyStats::new();
    assert(names[0] == "trace_runtime"@ && names[1] == "trace_common"@ && names[2]
        == "serde_json"@);
    assert(names.len() == 3);
    assert(removal_stats(keys, names, 0) == (StatsView {
        added: Seq::empty(),
        skipped: Seq::empty(),
    }));
    assert(keys_without(keys, names, 0) == keys);
    let removed = remove_dependency(doc, "trace_runtime");
    record_removal(&mut stats, "trace_runtime", removed);
    assert(stats@ == removal_stats(keys, names, 1));
    assert(dependency_keys(*doc) == keys_without(keys, names, 1));
    let removed = remove_dependency(doc, "trace_common");
    record_removal(&mut stats, "trace_common", removed);
    assert(stats@ == removal_stats(keys, names, 2));
    assert(dependency_keys(*doc) == keys_without(keys, names, 2));
    let removed = remove_dependency(doc, "serde_json");
    record_removal(&mut stats, "serde_json", removed);
    stats
}

/// Whether a document is what is left of another once the dependencies
/// that tracing brought are out: what stands under `dependencies` has the
/// form it had, and its table the keys it had but for the three; a
/// document that had none of them is the same.
pub open spec fn is_cleared(before: toml_edit::Document, after: toml_edit::Document) -> bool {
    &&& dependencies_form(after) == dependencies_form(before)
    &&& dependency_keys(after) == keys_without(dependency_keys(before), trace_dependencies(), 3)
    &&& removal_stats(dependency_keys(before), trace_dependencies(), 3).added.len() == 0
        ==> after == before
}

/// Takes the dependencies that tracing brought out of the text of a
/// manifest and gives the new text with the tally. A text that is no TOML
/// is refused with the parser's message. Any other manifest is cleared as
/// [`remove_dependencies_from_document`] says: the text that comes back is
/// that of the cleared document, and of the three dependencies each is
/// counted once.
pub fn remove_dependencies_from_cargo_toml(content: &str) -> (r: Result<
    (String, DependencyStats),
    ManifestError,
>)
    ensures
        match parsed_manifest(content@) {
            Err(e) => r matches Err(ManifestError::Parse(m)) && m@ == parse_error_message(e),
            Ok(doc) => r matches Ok(pair) && pair.1@ == removal_stats(
                dependency_keys(doc),
                trace_dependencies(),
                3,
            ) && (exists|after: toml_edit::Document|
                #[trigger] document_text(after) == pair.0@ && is_cleared(doc, after)),
        },
        r matches Ok(pair) ==> pair.1@.added.len() + pair.1@.skipped.len() == 3,
{
    let mut doc = match parse_manifest(content) {
        Ok(doc) => doc,
        Err(e) => { return Err(ManifestError::Parse(parse_error_text(&e))); },
    };
    let ghost before = doc;
    let stats = remove_dependencies_from_document(&mut doc);
    proof {
        lemma_removal_count(dependency_keys(before), trace_dependencies(), 3);
    }
    let text = manifest_text(&doc);
    assert(document_text(doc) == text@ && is_cleared(before, doc));
    Ok((text, stats))
}

/// Reads the text of a manifest: the document that the text stands for;
/// for a text that is no TOML, the parser's message.
pub fn parse_document(content: &str) -> (r: Result<toml_edit::Document, ManifestError>)
    ensures
        match parsed_manifest(content@) {
            Ok(doc) => r matches Ok(read) && read == doc,
            Err(e) => r matches Err(ManifestError::Parse(m)) && m@ == parse_error_message(e),
        },
{
    match parse_manifest(content) {
        Ok(doc) => Ok(doc),
        Err(e) => Err(ManifestError::Parse(parse_error_text(&e))),
    }
}

} // verus!
