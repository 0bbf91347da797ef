//! Choosing the functions to trace: how a function is named on the command
//! line, which functions of a file a name stands for, and which are traced
//! when all are asked for.

use crate::config::{strings_view, PropagationConfig};
use crate::text::{
    chars_of, contains, last_match, lemma_last_match, rfind_text, same_text, slice_of,
    string_of,
};
use vstd::prelude::*;

verus! {

/// A function as the command line names it: `name` for a free function,
/// `Type::name` for a method.
#[derive(Debug)]
pub struct FunctionSpec {
    /// What stands before the last `::`, where there is one.
    pub type_path: Option<String>,
    /// What stands behind the last `::`; the whole name where there is none.
    pub method_name: String,
    /// The name as it was given.
    pub original_input: String,
}

/// The mathematical value of a [`FunctionSpec`].
pub ghost struct FunctionSpecView {
    pub type_path: Option<Seq<char>>,
    pub method_name: Seq<char>,
    pub original_input: Seq<char>,
}

impl View for FunctionSpec {
    type V = FunctionSpecView;

    open spec fn view(&self) -> FunctionSpecView {
        FunctionSpecView {
            type_path: crate::text::text_view(self.type_path),
            method_name: self.method_name@,
            original_input: self.original_input@,
        }
    }
}

/// What a name on the command line says.
pub open spec fn parsed_function(input: Seq<char>) -> FunctionSpecView {
    if contains(input, "::"@) {
        let at = last_match(input, "::"@);
        FunctionSpecView {
            type_path: Some(input.take(at)),
            method_name: input.skip(at + 2),
            original_input: input,
        }
    } else {
        FunctionSpecView { type_path: None, method_name: input, original_input: input }
    }
}

/// Whether a name on the command line stands for the method `method` of
/// type `impl_type`: the method's name is the one given, and so is the
/// type's, where one was given.
pub open spec fn spec_matches_method(
    spec: FunctionSpecView,
    impl_type: Seq<char>,
    method: Seq<char>,
) -> bool {
    method == spec.method_name && match spec.type_path {
        Some(expected) => impl_type == expected,
        None => true,
    }
}

/// Whether a name on the command line stands for the free function `name`:
/// the name is the one given, and no type was given.
pub open spec fn spec_matches_function(spec: FunctionSpecView, name: Seq<char>) -> bool {
    spec.type_path is None && name == spec.method_name
}

impl FunctionSpec {
    /// Reads a name from the command line.
    pub fn parse(input: &str) -> (spec: FunctionSpec)
        ensures
            spec@ == parsed_function(input@),
    {
        let letters = chars_of(input);
        proof {
            reveal_strlit("::");
        }
        match rfind_text(&letters, "::") {
            Some(at) => {
                proof {
                    lemma_last_match(letters@, "::"@, at as int);
                    assert("::"@.len() == 2);
                    assert(crate::text::matches_at(letters@, "::"@, at as int));
                }
                let n = letters.len();
                assert(at + 2 <= n);
                let type_path = slice_of(&letters, 0, at);
                let method_name = slice_of(&letters, at + 2, n);
                assert(letters@.subrange(0, at as int) =~= letters@.take(at as int));
                assert(letters@.subrange(at + 2, letters@.len() as int) =~= letters@.skip(at + 2));
                FunctionSpec {
                    type_path: Some(string_of(&type_path)),
                    method_name: string_of(&method_name),
                    original_input: input.to_owned(),
                }
            },
            None => FunctionSpec {
                type_path: None,
                method_name: input.to_owned(),
                original_input: input.to_owned(),
            },
        }
    }

    /// Whether the function's name is the one given.
    pub fn matches_function_name(&self, name: &str) -> (b: bool)
        ensures
            b == (name@ == self@.method_name),
    {
        same_text(name, self.method_name.as_str())
    }

    /// Whether this stands for the method `method_name` of the type named
    /// `impl_type`.
    pub fn matches_impl_method(&self, impl_type: &str, method_name: &str) -> (b: bool)
        ensures
            b == spec_matches_method(self@, impl_type@, method_name@),
    {
        if !same_text(method_name, self.method_name.as_str()) {
            return false;
        }
        match &self.type_path {
            Some(expected) => same_text(impl_type, expected.as_str()),
            None => true,
        }
    }

    /// A copy.
    pub fn duplicate(&self) -> (copy: FunctionSpec)
        ensures
            copy@ == self@,
    {
        FunctionSpec {
            type_path: match &self.type_path {
                Some(t) => Some(t.clone()),
                None => None,
            },
            method_name: self.method_name.clone(),
            original_input: self.original_input.clone(),
        }
    }
}

/// Picks out one function of a file.
#[derive(Debug)]
pub struct FunctionInstrumenter {
    pub target_spec: FunctionSpec,
    pub found_function: bool,
    pub propagation_config: Option<PropagationConfig>,
}

impl FunctionInstrumenter {
    /// For the function named; nothing found yet.
    pub fn new(target_function: &str, propagation_config: Option<PropagationConfig>) -> (r:
        FunctionInstrumenter)
        ensures
            r.target_spec@ == parsed_function(target_function@),
            !r.found_function,
            r.propagation_config == propagation_config,
    {
        FunctionInstrumenter {
            target_spec: FunctionSpec::parse(target_function),
            found_function: false,
            propagation_config,
        }
    }

    /// Whether a free function is the one looked for.
    pub fn is_target_function(&self, name: &str) -> (b: bool)
        ensures
            b == spec_matches_function(self.target_spec@, name@),
    {
        self.target_spec.type_path.is_none() && self.target_spec.matches_function_name(name)
    }

    /// Whether a method is the one looked for.
    pub fn is_target_impl_method(&self, impl_type: &str, method_name: &str) -> (b: bool)
        ensures
            b == spec_matches_method(self.target_spec@, impl_type@, method_name@),
    {
        self.target_spec.matches_impl_method(impl_type, method_name)
    }
}

/// Whether one of the attributes of an item has the given name.
pub open spec fn has_attribute(attrs: Seq<Seq<char>>, name: Seq<char>) -> bool {
    exists|i: int| 0 <= i < attrs.len() && #[trigger] attrs[i] == name
}

/// Whether an attribute marks a traced function.
pub open spec fn is_trace_attribute_name(name: Seq<char>) -> bool {
    name == "rustforger_trace"@ || name == "trace"@
}

/// Whether an item is traced already: one of its attributes says so.
pub open spec fn has_trace_attribute(attrs: Seq<Seq<char>>) -> bool {
    has_attribute(attrs, "rustforger_trace"@) || has_attribute(attrs, "trace"@)
}

/// Whether a name starts with an underscore.
pub open spec fn is_underscored(name: Seq<char>) -> bool {
    name.len() > 0 && name[0] == '_'
}

/// Whether a free function is traced when all are asked for: not a test,
/// not traced already, not `main`, not underscored.
pub open spec fn is_instrumentable_function(name: Seq<char>, attrs: Seq<Seq<char>>) -> bool {
    &&& !has_attribute(attrs, "test"@)
    &&& !has_trace_attribute(attrs)
    &&& name != "main"@
    &&& !is_underscored(name)
}

/// Whether a method is traced when all are asked for: not a test, not
/// traced already, not underscored.
pub open spec fn is_instrumentable_method(name: Seq<char>, attrs: Seq<Seq<char>>) -> bool {
    &&& !has_attribute(attrs, "test"@)
    &&& !has_trace_attribute(attrs)
    &&& !is_underscored(name)
}

/// Whether one of the attributes has the given name.
pub fn attribute_present(attrs: &Vec<String>, name: &str) -> (b: bool)
    ensures
        b == has_attribute(strings_view(attrs@), name@),
{
    let ghost all = strings_view(attrs@);
    let mut i: usize = 0;
    while i < attrs.len()
        invariant
            i <= attrs.len(),
            all == strings_view(attrs@),
            forall|k: int| 0 <= k < i ==> #[trigger] all[k] != name@,
        decreases attrs.len() - i,
    {
        if same_text(attrs[i].as_str(), name) {
            assert(all[i as int] == name@);
            return true;
        }
        i += 1;
    }
    false
}

/// Whether an attribute marks a traced function.
pub fn is_trace_attribute(name: &str) -> (b: bool)
    ensures
        b == is_trace_attribute_name(name@),
{
    same_text(name, "rustforger_trace") || same_text(name, "trace")
}

fn starts_with_underscore(name: &str) -> (b: bool)
    ensures
        b == is_underscored(name@),
{
    let letters = chars_of(name);
    letters.len() > 0 && letters[0] == '_'
}

/// The attribute that marks a function as traced.
#[derive(Debug, Clone, Copy, PartialEq, Eq, Structural)]
pub enum TraceAttribute {
    /// `#[rustforger_trace]`.
    Plain,
    /// `#[rustforger_trace(propagate = true)]`.
    Propagating,
}

impl TraceAttribute {
    /// The attribute as source text.
    pub fn source(&self) -> (text: String)
        ensures
            text@ == match self {
                TraceAttribute::Plain => "#[rustforger_trace]"@,
                TraceAttribute::Propagating => "#[rustforger_trace(propagate = true)]"@,
            },
    {
        match self {
            TraceAttribute::Plain => "#[rustforger_trace]".to_owned(),
            TraceAttribute::Propagating => "#[rustforger_trace(propagate = true)]".to_owned(),
        }
    }
}

/// The attribute to put on a function with the given attributes: none
/// where it is traced already; else the propagating one where propagation
/// is switched on, the plain one where it is not.
pub fn add_trace_attribute(attrs: &Vec<String>, propagation_config: Option<&PropagationConfig>) -> (r:
    Option<TraceAttribute>)
    ensures
        r == (if has_trace_attribute(strings_view(attrs@)) {
            None
        } else {
            Some(
                match propagation_config {
                    Some(c) => if c.enabled {
                        TraceAttribute::Propagating
                    } else {
                        TraceAttribute::Plain
                    },
                    None => TraceAttribute::Plain,
                },
            )
        }),
{
    if attribute_present(attrs, "rustforger_trace") || attribute_present(attrs, "trace") {
        return None;
    }
    match propagation_config {
        Some(config) => {
            if config.enabled {
                Some(TraceAttribute::Propagating)
            } else {
                Some(TraceAttribute::Plain)
            }
        },
        None => Some(TraceAttribute::Plain),
    }
}

/// Picks out every function of a file that is worth tracing.
#[derive(Debug)]
pub struct AllFunctionInstrumenter {
    pub propagation_config: Option<PropagationConfig>,
    pub instrumented_count: usize,
}

impl AllFunctionInstrumenter {
    /// Nothing traced yet.
    pub fn new(propagation_config: Option<PropagationConfig>) -> (r: AllFunctionInstrumenter)
        ensures
            r.propagation_config == propagation_config,
            r.instrumented_count == 0,
    {
        AllFunctionInstrumenter { propagation_config, instrumented_count: 0 }
    }

    /// Whether a free function with the given attributes is traced.
    pub fn should_instrument_function(&self, name: &str, attrs: &Vec<String>) -> (b: bool)
        ensures
            b == is_instrumentable_function(name@, strings_view(attrs@)),
    {
        if attribute_present(attrs, "test") {
            return false;
        }
        if attribute_present(attrs, "rustforger_trace") || attribute_present(attrs, "trace") {
            return false;
        }
        if same_text(name, "main") {
            return false;
        }
        if starts_with_underscore(name) {
            return false;
        }
        true
    }

    /// Whether a method with the given attributes is traced.
    pub fn should_instrument_method(&self, name: &str, attrs: &Vec<String>) -> (b: bool)
        ensures
            b == is_instrumentable_method(name@, strings_view(attrs@)),
    {
        if attribute_present(attrs, "test") {
            return false;
        }
        if attribute_present(attrs, "rustforger_trace") || attribute_present(attrs, "trace") {
            return false;
        }
        if starts_with_underscore(name) {
            return false;
        }
        true
    }

    /// Counts one more traced function.
    pub fn count_instrumented(&mut self)
        requires
            old(self).instrumented_count < usize::MAX,
        ensures
            final(self).instrumented_count == old(self).instrumented_count + 1,
            final(self).propagation_config == old(self).propagation_config,
    {
        self.instrumented_count = self.instrumented_count + 1;
    }
}

/// Whether a `use` declaration, as text, brings in the tracing: it names
/// the runtime.
pub fn is_trace_import(use_text: &str) -> (b: bool)
    ensures
        b == contains(use_text@, "trace_runtime"@),
{
    let letters = chars_of(use_text);
    crate::text::contains_text(&letters, "trace_runtime")
}

/// Whether a `use` declaration, as text, is taken out when the tracing is
/// taken out: it names the runtime or the attribute.
pub fn is_revertible_import(use_text: &str) -> (b: bool)
    ensures
        b == (contains(use_text@, "trace_runtime"@) || contains(use_text@, "rustforger_trace"@)),
{
    let letters = chars_of(use_text);
    crate::text::contains_text(&letters, "trace_runtime") || crate::text::contains_text(
        &letters,
        "rustforger_trace",
    )
}

/// The values of a row of names from the command line.
pub open spec fn specs_view(specs: Seq<FunctionSpec>) -> Seq<FunctionSpecView> {
    Seq::new(specs.len(), |i: int| specs[i]@)
}

/// The first name at or behind `from` that stands for the free function
/// `name`; the number of names where none does.
pub open spec fn first_function_target(
    targets: Seq<FunctionSpecView>,
    name: Seq<char>,
    from: int,
) -> int
    decreases targets.len() - from,
{
    if from < 0 || from >= targets.len() {
        targets.len() as int
    } else if spec_matches_function(targets[from], name) {
        from
    } else {
        first_function_target(targets, name, from + 1)
    }
}

/// The first name at or behind `from` that stands for the method `method`
/// of the type `impl_type`; the number of names where none does.
pub open spec fn first_method_target(
    targets: Seq<FunctionSpecView>,
    impl_type: Seq<char>,
    method: Seq<char>,
    from: int,
) -> int
    decreases targets.len() - from,
{
    if from < 0 || from >= targets.len() {
        targets.len() as int
    } else if spec_matches_method(targets[from], impl_type, method) {
        from
    } else {
        first_method_target(targets, impl_type, method, from + 1)
    }
}

/// A row of names with one more, unless the row holds it already.
pub open spec fn with_name(names: Seq<Seq<char>>, name: Seq<char>) -> Seq<Seq<char>> {
    if names.contains(name) {
        names
    } else {
        names.push(name)
    }
}

/// The names, as given, of the first `count` targets that were not found,
/// in the order in which they were given.
pub open spec fn missing_names(
    targets: Seq<FunctionSpecView>,
    found: Seq<Seq<char>>,
    count: int,
) -> Seq<Seq<char>>
    decreases count,
{
    if count <= 0 || count > targets.len() {
        Seq::empty()
    } else {
        let earlier = missing_names(targets, found, count - 1);
        let name = targets[count - 1].original_input;
        if found.contains(name) {
            earlier
        } else {
            earlier.push(name)
        }
    }
}

/// Picks out several functions of a file, and keeps track of which of
/// them it has met.
#[derive(Debug)]
pub struct MultipleFunctionInstrumenter {
    target_specs: Vec<FunctionSpec>,
    found_functions: Vec<String>,
    propagation_config: Option<PropagationConfig>,
    instrumented_count: usize,
}

pub(crate) fn holds_name(names: &Vec<String>, name: &str) -> (b: bool)
    ensures
        b == strings_view(names@).contains(name@),
{
    let ghost all = strings_view(names@);
    let mut i: usize = 0;
    while i < names.len()
        invariant
            i <= names.len(),
            all == strings_view(names@),
            forall|k: int| 0 <= k < i ==> all[k] != name@,
        decreases names.len() - i,
    {
        if same_text(names[i].as_str(), name) {
            assert(all[i as int] == name@);
            return true;
        }
        i += 1;
    }
    false
}

impl MultipleFunctionInstrumenter {
    /// The functions looked for, as the command line names them.
    pub closed spec fn targets(&self) -> Seq<FunctionSpecView> {
        specs_view(self.target_specs@)
    }

    /// The names, as given, of the functions met so far, in the order in
    /// which they were first met.
    pub closed spec fn found(&self) -> Seq<Seq<char>> {
        strings_view(self.found_functions@)
    }

    /// The propagation that the traced functions get.
    pub closed spec fn propagation(&self) -> Option<PropagationConfig> {
        self.propagation_config
    }

    /// How many functions were traced, each met function counted as often
    /// as it was met.
    pub closed spec fn count(&self) -> nat {
        self.instrumented_count as nat
    }

    /// Whether no name stands twice among those met.
    pub open spec fn wf(&self) -> bool {
        self.found().no_duplicates()
    }

    /// For the functions named; none met yet.
    pub fn new(target_functions: &Vec<String>, propagation_config: Option<PropagationConfig>) -> (r:
        MultipleFunctionInstrumenter)
        ensures
            r.wf(),
            r.targets().len() == target_functions.len(),
            forall|i: int|
                0 <= i < target_functions.len() ==> #[trigger] r.targets()[i] == parsed_function(
                    target_functions[i]@,
                ),
            r.found() == Seq::<Seq<char>>::empty(),
            r.propagation() == propagation_config,
            r.count() == 0,
    {
        let mut target_specs: Vec<FunctionSpec> = Vec::new();
        let mut i: usize = 0;
        while i < target_functions.len()
            invariant
                i <= target_functions.len(),
                target_specs.len() == i,
                forall|k: int|
                    0 <= k < i ==> #[trigger] target_specs[k]@ == parsed_function(
                        target_functions[k]@,
                    ),
            decreases target_functions.len() - i,
        {
            target_specs.push(FunctionSpec::parse(target_functions[i].as_str()));
            i += 1;
        }
        let r = MultipleFunctionInstrumenter {
            target_specs,
            found_functions: Vec::new(),
            propagation_config,
            instrumented_count: 0,
        };
        assert(r.found() =~= Seq::<Seq<char>>::empty());
        assert forall|i: int| 0 <= i < target_functions.len() implies #[trigger] r.targets()[i]
            == parsed_function(target_functions[i]@) by {
            assert(r.target_specs[i]@ == parsed_function(target_functions[i]@));
        }
        r
    }

    /// How many functions were traced.
    pub fn instrumented_count(&self) -> (count: usize)
        ensures
            count == self.count(),
    {
        self.instrumented_count
    }

    /// The propagation that the traced functions get.
    pub fn propagation_config(&self) -> (config: &Option<PropagationConfig>)
        ensures
            *config == self.propagation(),
    {
        &self.propagation_config
    }

    fn find_function_target(&self, name: &str) -> (at: usize)
        ensures
            at == first_function_target(self.targets(), name@, 0),
            at <= self.targets().len(),
            at == self.target_specs.len() || at < self.target_specs.len(),
    {
        let ghost targets = self.targets();
        let mut i: usize = 0;
        while i < self.target_specs.len()
            invariant
                i <= self.target_specs.len(),
                targets == specs_view(self.target_specs@),
                first_function_target(targets, name@, 0) == first_function_target(
                    targets,
                    name@,
                    i as int,
                ),
            decreases self.target_specs.len() - i,
        {
            let spec = &self.target_specs[i];
            if spec.type_path.is_none() && spec.matches_function_name(name) {
                return i;
            }
            i += 1;
        }
        i
    }

    fn find_method_target(&self, impl_type: &str, method_name: &str) -> (at: usize)
        ensures
            at == first_method_target(self.targets(), impl_type@, method_name@, 0),
            at <= self.targets().len(),
            at == self.target_specs.len() || at < self.target_specs.len(),
    {
        let ghost targets = self.targets();
        let mut i: usize = 0;
        while i < self.target_specs.len()
            invariant
                i <= self.target_specs.len(),
                targets == specs_view(self.target_specs@),
                first_method_target(targets, impl_type@, method_name@, 0) == first_method_target(
                    targets,
                    impl_type@,
                    method_name@,
                    i as int,
                ),
            decreases self.target_specs.len() - i,
        {
            if self.target_specs[i].matches_impl_method(impl_type, method_name) {
                return i;
            }
            i += 1;
        }
        i
    }

    /// Whether a free function is among those looked for.
    pub fn is_target_function(&self, name: &str) -> (b: bool)
        ensures
            b == (first_function_target(self.targets(), name@, 0) < self.targets().len()),
    {
        self.find_function_target(name) < self.target_specs.len()
    }

    /// Whether a method is among those looked for.
    pub fn is_target_impl_method(&self, impl_type: &str, method_name: &str) -> (b: bool)
        ensures
            b == (first_method_target(self.targets(), impl_type@, method_name@, 0)
                < self.targets().len()),
    {
        self.find_method_target(impl_type, method_name) < self.target_specs.len()
    }

    fn note_found(&mut self, at: usize)
        requires
            old(self).wf(),
            at < old(self).targets().len(),
            old(self).count() < usize::MAX,
        ensures
            final(self).wf(),
            final(self).targets() == old(self).targets(),
            final(self).propagation() == old(self).propagation(),
            final(self).found() == with_name(
                old(self).found(),
                old(self).targets()[at as int].original_input,
            ),
            final(self).count() == old(self).count() + 1,
    {
        let name = self.target_specs[at].original_input.clone();
        if !holds_name(&self.found_functions, name.as_str()) {
            self.found_functions.push(name);
            assert(self.found() =~= old(self).found().push(name@));
        }
        self.instrumented_count = self.instrumented_count + 1;
    }

    /// Takes note that a free function was met: the first name that stands
    /// for it counts as found, and one more function as traced. A function
    /// that no name stands for changes nothing.
    pub fn mark_function_found(&mut self, name: &str)
        requires
            old(self).wf(),
            old(self).count() < usize::MAX,
        ensures
            final(self).wf(),
            final(self).targets() == old(self).targets(),
            final(self).propagation() == old(self).propagation(),
            ({
                let at = first_function_target(old(self).targets(), name@, 0);
                if at < old(self).targets().len() {
                    &&& final(self).found() == with_name(
                        old(self).found(),
                        old(self).targets()[at].original_input,
                    )
                    &&& final(self).count() == old(self).count() + 1
                } else {
                    &&& final(self).found() == old(self).found()
                    &&& final(self).count() == old(self).count()
                }
            }),
    {
        let at = self.find_function_target(name);
        if at < self.target_specs.len() {
            self.note_found(at);
        }
    }

    /// Takes note that a method was met: the first name that stands for it
    /// counts as found, and one more function as traced. A method that no
    /// name stands for changes nothing.
    pub fn mark_impl_method_found(&mut self, impl_type: &str, method_name: &str)
        requires
            old(self).wf(),
            old(self).count() < usize::MAX,
        ensures
            final(self).wf(),
            final(self).targets() == old(self).targets(),
            final(self).propagation() == old(self).propagation(),
            ({
                let at = first_method_target(old(self).targets(), impl_type@, method_name@, 0);
                if at < old(self).targets().len() {
                    &&& final(self).found() == with_name(
                        old(self).found(),
                        old(self).targets()[at].original_input,
                    )
                    &&& final(self).count() == old(self).count() + 1
                } else {
                    &&& final(self).found() == old(self).found()
                    &&& final(self).count() == old(self).count()
                }
            }),
    {
        let at = self.find_method_target(impl_type, method_name);
        if at < self.target_specs.len() {
            self.note_found(at);
        }
    }

    /// The names, as given, of the functions that were not met, in the
    /// order in which they were given.
    pub fn missing_functions(&self) -> (missing: Vec<String>)
        ensures
            strings_view(missing@) == missing_names(
                self.targets(),
                self.found(),
                self.targets().len() as int,
            ),
    {
        let ghost targets = self.targets();
        let ghost found = self.found();
        let mut missing: Vec<String> = Vec::new();
        let mut i: usize = 0;
        assert(strings_view(missing@) =~= missing_names(targets, found, 0));
        while i < self.target_specs.len()
            invariant
                i <= self.target_specs.len(),
                targets == specs_view(self.target_specs@),
                found == strings_view(self.found_functions@),
                strings_view(missing@) == missing_names(targets, found, i as int),
            decreases self.target_specs.len() - i,
        {
            let name = &self.target_specs[i].original_input;
            if !holds_name(&self.found_functions, name.as_str()) {
                let ghost before = strings_view(missing@);
                missing.push(name.clone());
                assert(strings_view(missing@) =~= before.push(name@));
            }
            i += 1;
        }
        missing
    }

    /// The names, as given, of the functions that were met, each once.
    pub fn instrumented_functions(&self) -> (names: Vec<String>)
        ensures
            strings_view(names@) == self.found(),
    {
        crate::config::copy_strings(&self.found_functions)
    }
}

/// Whether a character parts the tokens of a type written as text.
pub open spec fn is_type_separator(c: char) -> bool {
    c == ' ' || c == '<' || c == '>' || c == ':'
}

/// Whether a token is a name: not empty, and made of letters, numbers and
/// underscores only.
pub open spec fn is_name_token(token: Seq<char>) -> bool {
    token.len() > 0 && forall|i: int|
        0 <= i < token.len() ==> crate::text::is_alphanumeric(#[trigger] token[i]) || token[i]
            == '_'
}

/// A type read up to its end: the last name among the tokens that a
/// separator has closed, and the token that is still open.
pub open spec fn name_scan(s: Seq<char>) -> (Seq<char>, Seq<char>)
    decreases s.len(),
{
    if s.len() == 0 {
        (Seq::empty(), Seq::empty())
    } else {
        let (last, open) = name_scan(s.drop_last());
        if is_type_separator(s.last()) {
            (if is_name_token(open) {
                open
            } else {
                last
            }, Seq::empty())
        } else {
            (last, open.push(s.last()))
        }
    }
}

/// The last name in a type written as text, the text parted at spaces,
/// angle brackets and colons; empty where it holds no name.
pub open spec fn last_name(s: Seq<char>) -> Seq<char> {
    let (last, open) = name_scan(s);
    if is_name_token(open) {
        open
    } else {
        last
    }
}

fn name_token(token: &Vec<char>) -> (b: bool)
    ensures
        b == is_name_token(token@),
{
    if token.len() == 0 {
        return false;
    }
    let mut i: usize = 0;
    while i < token.len()
        invariant
            i <= token.len(),
            forall|k: int|
                0 <= k < i ==> crate::text::is_alphanumeric(#[trigger] token@[k]) || token@[k]
                    == '_',
        decreases token.len() - i,
    {
        if !(crate::text::is_alphanumeric_char(token[i]) || token[i] == '_') {
            return false;
        }
        i += 1;
    }
    true
}

/// The name of a type that is neither a path nor a reference nor a
/// pointer, from its tokens as text: the last name in it.
pub fn last_identifier(type_text: &str) -> (name: String)
    ensures
        name@ == last_name(type_text@),
{
    let letters = chars_of(type_text);
    let mut last: Vec<char> = Vec::new();
    let mut open: Vec<char> = Vec::new();
    let mut i: usize = 0;
    assert(letters@.take(0) =~= Seq::<char>::empty());
    while i < letters.len()
        invariant
            i <= letters.len(),
            last@ == name_scan(letters@.take(i as int)).0,
            open@ == name_scan(letters@.take(i as int)).1,
        decreases letters.len() - i,
    {
        let c = letters[i];
        proof {
            assert(letters@.take(i + 1).drop_last() =~= letters@.take(i as int));
            assert(letters@.take(i + 1).last() == c);
        }
        if c == ' ' || c == '<' || c == '>' || c == ':' {
            if name_token(&open) {
                last = open;
            }
            open = Vec::new();
        } else {
            open.push(c);
        }
        i += 1;
    }
    assert(letters@.take(letters.len() as int) =~= letters@);
    if name_token(&open) {
        string_of(&open)
    } else {
        string_of(&last)
    }
}

} // verus!
