//! What the tracing attribute reads from its arguments, and which types it
//! takes for values that can be written as they are.

use crate::config::strings_view;
use crate::text::{
    chars_of, contains, contains_text, ends_with, equals_text, find_text, first_index_of,
    first_match, has_prefix, has_suffix, index_of_char, lemma_first_match,
    number_of, parse_number, slice_of, starts_with, string_of, trim, trimmed,
};
use vstd::prelude::*;

verus! {

/// How the tracing attribute spreads into the calls of the function it
/// stands on.
#[derive(Debug)]
pub struct PropagateConfig {
    pub enabled: bool,
    pub exclude_patterns: Vec<String>,
    pub user_code_only: bool,
    pub max_depth: Option<usize>,
}

/// The mathematical value of a [`PropagateConfig`].
pub ghost struct PropagateView {
    pub enabled: bool,
    pub exclude_patterns: Seq<Seq<char>>,
    pub user_code_only: bool,
    pub max_depth: Option<usize>,
}

impl View for PropagateConfig {
    type V = PropagateView;

    open spec fn view(&self) -> PropagateView {
        PropagateView {
            enabled: self.enabled,
            exclude_patterns: strings_view(self.exclude_patterns@),
            user_code_only: self.user_code_only,
            max_depth: self.max_depth,
        }
    }
}

/// The patterns that the attribute leaves out in any case.
pub open spec fn attribute_excludes() -> Seq<Seq<char>> {
    seq!["std::"@, "core::"@, "__rust_"@]
}

impl Default for PropagateConfig {
    /// No propagation, the standard library and the compiler's own
    /// functions left out, user code only, no limit on the depth.
    fn default() -> (config: PropagateConfig)
        ensures
            config@ == (PropagateView {
                enabled: false,
                exclude_patterns: attribute_excludes(),
                user_code_only: true,
                max_depth: None,
            }),
    {
        let mut exclude_patterns: Vec<String> = Vec::new();
        exclude_patterns.push("std::".to_owned());
        exclude_patterns.push("core::".to_owned());
        exclude_patterns.push("__rust_".to_owned());
        assert(strings_view(exclude_patterns@) =~= attribute_excludes());
        PropagateConfig { enabled: false, exclude_patterns, user_code_only: true, max_depth: None }
    }
}

/// The depth that the arguments of an attribute give: the number between
/// the first `=` behind the first `max_depth` and the next comma, white
/// space aside. `None` where `max_depth` or the `=` is missing, or what
/// follows is no number.
pub open spec fn depth_of(attr: Seq<char>) -> Option<nat> {
    if !contains(attr, "max_depth"@) {
        None
    } else {
        let rest = attr.skip(first_match(attr, "max_depth"@));
        let eq = first_index_of(rest, '=');
        if eq >= rest.len() {
            None
        } else {
            let after = rest.skip(eq + 1);
            number_of(trimmed(after.take(first_index_of(after, ','))), usize::MAX as nat)
        }
    }
}

/// The patterns that an attribute leaves out: `std::` once more where the
/// arguments name both `exclude` and `std::`.
pub open spec fn excludes_of(attr: Seq<char>) -> Seq<Seq<char>> {
    if contains(attr, "exclude"@) && contains(attr, "std::"@) {
        attribute_excludes().push("std::"@)
    } else {
        attribute_excludes()
    }
}

/// What the arguments of a tracing attribute say.
pub open spec fn attributes_of(attr: Seq<char>) -> PropagateView {
    PropagateView {
        enabled: contains(attr, "propagate"@),
        exclude_patterns: excludes_of(attr),
        user_code_only: true,
        max_depth: match depth_of(attr) {
            Some(d) => Some(d as usize),
            None => None,
        },
    }
}

fn parse_depth(attr: &Vec<char>) -> (depth: Option<usize>)
    ensures
        match depth {
            Some(d) => depth_of(attr@) == Some(d as nat),
            None => depth_of(attr@) is None,
        },
{
    let at = match find_text(attr, "max_depth") {
        Some(at) => at,
        None => { return None; },
    };
    proof {
        lemma_first_match(attr@, "max_depth"@, at as int);
    }
    let rest = slice_of(attr, at, attr.len());
    assert(attr@.subrange(at as int, attr@.len() as int) =~= attr@.skip(at as int));
    let eq = index_of_char(&rest, '=');
    if eq >= rest.len() {
        return None;
    }
    let after = slice_of(&rest, eq + 1, rest.len());
    assert(rest@.subrange(eq + 1, rest@.len() as int) =~= rest@.skip(eq + 1));
    let comma = index_of_char(&after, ',');
    let value = slice_of(&after, 0, comma);
    assert(after@.subrange(0, comma as int) =~= after@.take(comma as int));
    let number = trim(&value);
    match parse_number(&number, usize::MAX as u64) {
        Some(n) => Some(n as usize),
        None => None,
    }
}

/// Reads the arguments of a tracing attribute, given as text.
pub fn parse_attributes(attr: &str) -> (config: PropagateConfig)
    ensures
        config@ == attributes_of(attr@),
{
    let letters = chars_of(attr);
    let mut config = PropagateConfig::default();
    if contains_text(&letters, "propagate") {
        config.enabled = true;
    }
    config.max_depth = parse_depth(&letters);
    if contains_text(&letters, "exclude") {
        if contains_text(&letters, "std::") {
            let ghost before = strings_view(config.exclude_patterns@);
            config.exclude_patterns.push("std::".to_owned());
            assert(strings_view(config.exclude_patterns@) =~= before.push("std::"@));
        }
    }
    config
}

/// Whether a text names a primitive type other than `String`.
pub open spec fn is_plain_primitive(s: Seq<char>) -> bool {
    ||| s == "i8"@
    ||| s == "i16"@
    ||| s == "i32"@
    ||| s == "i64"@
    ||| s == "i128"@
    ||| s == "isize"@
    ||| s == "u8"@
    ||| s == "u16"@
    ||| s == "u32"@
    ||| s == "u64"@
    ||| s == "u128"@
    ||| s == "usize"@
    ||| s == "f32"@
    ||| s == "f64"@
    ||| s == "bool"@
    ||| s == "char"@
}

/// Whether a text names a primitive type or `String`.
pub open spec fn is_primitive(s: Seq<char>) -> bool {
    is_plain_primitive(s) || s == "String"@
}

fn names_plain_primitive(v: &Vec<char>) -> (b: bool)
    ensures
        b == is_plain_primitive(v@),
{
    equals_text(v, "i8") || equals_text(v, "i16") || equals_text(v, "i32") || equals_text(
        v,
        "i64",
    ) || equals_text(v, "i128") || equals_text(v, "isize") || equals_text(v, "u8") || equals_text(
        v,
        "u16",
    ) || equals_text(v, "u32") || equals_text(v, "u64") || equals_text(v, "u128") || equals_text(
        v,
        "usize",
    ) || equals_text(v, "f32") || equals_text(v, "f64") || equals_text(v, "bool") || equals_text(
        v,
        "char",
    )
}

fn names_primitive(v: &Vec<char>) -> (b: bool)
    ensures
        b == is_primitive(v@),
{
    names_plain_primitive(v) || equals_text(v, "String")
}

/// Whether a type, as text, is an array or a slice of primitives: between
/// square brackets, what stands before the first semicolon names one,
/// white space aside.
pub open spec fn is_primitive_array(s: Seq<char>) -> bool {
    &&& s.len() >= 2
    &&& s[0] == '['
    &&& s.last() == ']'
    &&& ({
        let inner = s.subrange(1, s.len() - 1);
        is_plain_primitive(trimmed(inner.take(first_index_of(inner, ';'))))
    })
}

/// Whether a type, as text, is an array or a slice of primitives.
pub fn is_array_of_primitives(type_str: &str) -> (b: bool)
    ensures
        b == is_primitive_array(type_str@),
{
    let v = chars_of(type_str);
    let n = v.len();
    if n < 2 || v[0] != '[' || v[n - 1] != ']' {
        return false;
    }
    let inner = slice_of(&v, 1, n - 1);
    let semicolon = index_of_char(&inner, ';');
    let element = slice_of(&inner, 0, semicolon);
    assert(inner@.subrange(0, semicolon as int) =~= inner@.take(semicolon as int));
    names_plain_primitive(&trim(&element))
}

/// What stands between the angle brackets of a generic type written as
/// the wrapper, a space, `<`, the argument and `>`. `None` for a text of
/// another form.
pub open spec fn generic_inner(s: Seq<char>, wrapper: Seq<char>) -> Option<Seq<char>> {
    let prefix = wrapper + " <"@;
    if starts_with(s, prefix) && ends_with(s, ">"@) && prefix.len() < s.len() {
        Some(s.subrange(prefix.len() as int, s.len() - 1))
    } else {
        None
    }
}

fn generic_inner_of(v: &Vec<char>, wrapper: &str) -> (inner: Option<Vec<char>>)
    ensures
        match inner {
            Some(t) => generic_inner(v@, wrapper@) == Some(t@),
            None => generic_inner(v@, wrapper@) is None,
        },
{
    let mut prefix = wrapper.to_owned();
    vstd::string::StringExecFns::append(&mut prefix, " <");
    let p = chars_of(prefix.as_str());
    if crate::text::has_match_at(v, &p, 0) && has_suffix(v, ">") && p.len() < v.len() {
        Some(slice_of(v, p.len(), v.len() - 1))
    } else {
        None
    }
}

/// What stands between the angle brackets of a generic type.
pub fn extract_generic_inner(type_str: &str, wrapper: &str) -> (inner: Option<String>)
    ensures
        crate::text::text_view(inner) == generic_inner(type_str@, wrapper@),
{
    let v = chars_of(type_str);
    match generic_inner_of(&v, wrapper) {
        Some(t) => Some(string_of(&t)),
        None => None,
    }
}

/// Whether a type, as text, is a `Vec` of primitives or of `String`.
pub open spec fn is_primitive_vec(s: Seq<char>) -> bool {
    match generic_inner(s, "Vec"@) {
        Some(inner) => is_primitive(trimmed(inner)),
        None => false,
    }
}

/// Whether a type, as text, is a `Vec` of primitives or of `String`.
pub fn is_vec_of_primitives(type_str: &str) -> (b: bool)
    ensures
        b == is_primitive_vec(type_str@),
{
    let v = chars_of(type_str);
    match generic_inner_of(&v, "Vec") {
        Some(inner) => names_primitive(&trim(&inner)),
        None => false,
    }
}

/// Whether a type, as text, is one of the plain names that are known to
/// be written as they are: no path, no generics, no reference, and a name
/// from the list or one that starts with `Test` or `My` and holds
/// `Serializable`.
pub open spec fn is_known_serializable(s: Seq<char>) -> bool {
    &&& !contains(s, "::"@)
    &&& !contains(s, "<"@)
    &&& !contains(s, "&"@)
    &&& ({
        ||| s == "Person"@
        ||| s == "TestData"@
        ||| s == "MySerializableType"@
        ||| s == "SerializableStruct"@
        ||| s == "SimpleStruct"@
        ||| (starts_with(s, "Test"@) && contains(s, "Serializable"@))
        ||| (starts_with(s, "My"@) && contains(s, "Serializable"@))
    })
}

fn known_serializable(v: &Vec<char>) -> (b: bool)
    ensures
        b == is_known_serializable(v@),
{
    if contains_text(v, "::") || contains_text(v, "<") || contains_text(v, "&") {
        return false;
    }
    equals_text(v, "Person") || equals_text(v, "TestData") || equals_text(
        v,
        "MySerializableType",
    ) || equals_text(v, "SerializableStruct") || equals_text(v, "SimpleStruct") || (has_prefix(
        v,
        "Test",
    ) && contains_text(v, "Serializable")) || (has_prefix(v, "My") && contains_text(
        v,
        "Serializable",
    ))
}

/// Whether a type, as text, is one of the plain names that are known to
/// be written as they are.
pub fn is_known_serializable_test_type(type_str: &str) -> (b: bool)
    ensures
        b == is_known_serializable(type_str@),
{
    let v = chars_of(type_str);
    known_serializable(&v)
}

/// Whether a value of a type, given as text, is written as it is rather
/// than by a placeholder: a primitive or `String`, a reference to one, a
/// string slice, an array, a `Vec` or an `Option` of primitives, or one of
/// the known names.
pub open spec fn is_serializable_type(s: Seq<char>) -> bool {
    ||| is_primitive(s)
    ||| s == "&str"@
    ||| s == "& str"@
    ||| s == "&String"@
    ||| s == "& String"@
    ||| (s.len() > 0 && s[0] == '&' && is_primitive(trimmed(s.drop_first())))
    ||| is_primitive_array(s)
    ||| is_primitive_vec(s)
    ||| (match generic_inner(s, "Option"@) {
        Some(inner) => is_primitive(trimmed(inner)),
        None => false,
    })
    ||| is_known_serializable(s)
}

/// Whether a value of a type, given as text, is written as it is.
pub fn might_be_serializable(type_str: &str) -> (b: bool)
    ensures
        b == is_serializable_type(type_str@),
{
    let v = chars_of(type_str);
    if names_primitive(&v) {
        return true;
    }
    if equals_text(&v, "&str") || equals_text(&v, "& str") || equals_text(&v, "&String")
        || equals_text(&v, "& String") {
        return true;
    }
    if v.len() > 0 && v[0] == '&' {
        let rest = slice_of(&v, 1, v.len());
        assert(v@.subrange(1, v@.len() as int) =~= v@.drop_first());
        if names_primitive(&trim(&rest)) {
            return true;
        }
    }
    if is_array_of_primitives(type_str) || is_vec_of_primitives(type_str) {
        return true;
    }
    match generic_inner_of(&v, "Option") {
        Some(inner) => {
            if names_primitive(&trim(&inner)) {
                return true;
            }
        },
        None => {},
    }
    known_serializable(&v)
}

/// A text without its spaces.
pub open spec fn without_spaces(s: Seq<char>) -> Seq<char>
    decreases s.len(),
{
    if s.len() == 0 {
        s
    } else if s.last() == ' ' {
        without_spaces(s.drop_last())
    } else {
        without_spaces(s.drop_last()).push(s.last())
    }
}

/// The name of the function that a call names, from the path as tokens
/// write it: the path without the spaces between its parts.
pub fn call_name(path_tokens: &str) -> (name: String)
    ensures
        name@ == without_spaces(path_tokens@),
{
    let letters = chars_of(path_tokens);
    let mut name: Vec<char> = Vec::new();
    let mut i: usize = 0;
    assert(letters@.take(0) =~= Seq::<char>::empty());
    while i < letters.len()
        invariant
            i <= letters.len(),
            name@ == without_spaces(letters@.take(i as int)),
        decreases letters.len() - i,
    {
        assert(letters@.take(i + 1).drop_last() =~= letters@.take(i as int));
        if letters[i] != ' ' {
            name.push(letters[i]);
        }
        i += 1;
    }
    assert(letters@.take(letters.len() as int) =~= letters@);
    string_of(&name)
}

/// Whether a name is made of letters, numbers and underscores only.
pub open spec fn is_identifier_like(s: Seq<char>) -> bool {
    forall|i: int| 0 <= i < s.len() ==> crate::text::is_alphanumeric(#[trigger] s[i]) || s[i] == '_'
}

/// Whether one of the patterns stands in a name.
pub open spec fn is_excluded(name: Seq<char>, patterns: Seq<Seq<char>>) -> bool {
    exists|i: int| 0 <= i < patterns.len() && contains(name, #[trigger] patterns[i])
}

/// Whether a name is one of the constructors that every program uses.
pub open spec fn is_common_constructor(name: Seq<char>) -> bool {
    name == "Ok"@ || name == "Err"@ || name == "Some"@ || name == "None"@
}

/// Whether a call to the function named is traced along with the function
/// it stands in: propagation is on, the name is known and no pattern
/// leaves it out, it is not of the standard library, no printing and no
/// common constructor, and it is a plain name of three bytes or more that
/// does not start with an underscore.
pub open spec fn is_instrumented_call(name: Option<Seq<char>>, config: PropagateView) -> bool {
    &&& config.enabled
    &&& name is Some
    &&& ({
        let n = name->Some_0;
        &&& !is_excluded(n, config.exclude_patterns)
        &&& !starts_with(n, "std::"@)
        &&& !starts_with(n, "core::"@)
        &&& !contains(n, "println!"@)
        &&& !contains(n, "format!"@)
        &&& !is_common_constructor(n)
        &&& is_identifier_like(n)
        &&& !(n.len() > 0 && n[0] == '_')
        &&& vstd::utf8::encode_utf8(n).len() >= 3
    })
}

fn excluded(name: &Vec<char>, patterns: &Vec<String>) -> (b: bool)
    ensures
        b == is_excluded(name@, strings_view(patterns@)),
{
    let ghost all = strings_view(patterns@);
    let mut i: usize = 0;
    while i < patterns.len()
        invariant
            i <= patterns.len(),
            all == strings_view(patterns@),
            forall|k: int| 0 <= k < i ==> !contains(name@, #[trigger] all[k]),
        decreases patterns.len() - i,
    {
        assert(all[i as int] == patterns@[i as int]@);
        if contains_text(name, patterns[i].as_str()) {
            return true;
        }
        i += 1;
    }
    false
}

fn identifier_like(name: &Vec<char>) -> (b: bool)
    ensures
        b == is_identifier_like(name@),
{
    let mut i: usize = 0;
    while i < name.len()
        invariant
            i <= name.len(),
            forall|k: int|
                0 <= k < i ==> crate::text::is_alphanumeric(#[trigger] name@[k]) || name@[k]
                    == '_',
        decreases name.len() - i,
    {
        if !(crate::text::is_alphanumeric_char(name[i]) || name[i] == '_') {
            return false;
        }
        i += 1;
    }
    true
}

/// Whether a call to the function named is traced along with the function
/// it stands in.
pub fn should_instrument_call(name: Option<&str>, config: &PropagateConfig) -> (b: bool)
    ensures
        b == is_instrumented_call(
            match name {
                Some(n) => Some(n@),
                None => None,
            },
            config@,
        ),
{
    if !config.enabled {
        return false;
    }
    let text = match name {
        Some(n) => n,
        None => { return false; },
    };
    let letters = chars_of(text);
    if excluded(&letters, &config.exclude_patterns) {
        return false;
    }
    if has_prefix(&letters, "std::") || has_prefix(&letters, "core::") || contains_text(
        &letters,
        "println!",
    ) || contains_text(&letters, "format!") || equals_text(&letters, "Ok") || equals_text(
        &letters,
        "Err",
    ) || equals_text(&letters, "Some") || equals_text(&letters, "None") {
        return false;
    }
    let plain = identifier_like(&letters);
    let underscored = letters.len() > 0 && letters[0] == '_';
    let bytes = text.as_bytes().len();
    plain && !underscored && bytes >= 3
}

} // verus!
