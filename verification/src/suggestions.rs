//! Helping with a function name that no function of a file has: how far
//! two names are apart, and the list of the functions that there are.

use crate::text::chars_of;
use vstd::prelude::*;

verus! {

/// The least of three numbers.
pub open spec fn min3(a: int, b: int, c: int) -> int {
    if a <= b && a <= c {
        a
    } else if b <= c {
        b
    } else {
        c
    }
}

/// The edit distance of two texts: the least number of characters to
/// insert, to delete or to replace that turns one into the other.
pub open spec fn edit_distance(a: Seq<char>, b: Seq<char>) -> int
    decreases a.len() + b.len(),
{
    if a.len() == 0 {
        b.len() as int
    } else if b.len() == 0 {
        a.len() as int
    } else {
        min3(
            edit_distance(a.drop_last(), b) + 1,
            edit_distance(a, b.drop_last()) + 1,
            edit_distance(a.drop_last(), b.drop_last()) + (if a.last() == b.last() {
                0int
            } else {
                1int
            }),
        )
    }
}

/// Two texts are never further apart than the longer of them is long, and
/// never nearer than nothing.
pub proof fn lemma_edit_distance_bounds(a: Seq<char>, b: Seq<char>)
    ensures
        0 <= edit_distance(a, b),
        edit_distance(a, b) <= a.len() || edit_distance(a, b) <= b.len(),
    decreases a.len() + b.len(),
{
    if a.len() > 0 && b.len() > 0 {
        lemma_edit_distance_bounds(a.drop_last(), b);
        lemma_edit_distance_bounds(a, b.drop_last());
        lemma_edit_distance_bounds(a.drop_last(), b.drop_last());
    }
}

/// A text is at distance nothing from itself.
pub proof fn lemma_edit_distance_same(a: Seq<char>)
    ensures
        edit_distance(a, a) == 0,
    decreases a.len(),
{
    if a.len() > 0 {
        lemma_edit_distance_same(a.drop_last());
        lemma_edit_distance_bounds(a.drop_last(), a);
        lemma_edit_distance_bounds(a, a.drop_last());
    }
}

fn least_of(a: u128, b: u128, c: u128) -> (m: u128)
    ensures
        m == min3(a as int, b as int, c as int),
{
    if a <= b && a <= c {
        a
    } else if b <= c {
        b
    } else {
        c
    }
}

/// The edit distance of two texts.
pub fn levenshtein_distance(s1: &str, s2: &str) -> (distance: usize)
    ensures
        distance == edit_distance(s1@, s2@),
{
    let a = chars_of(s1);
    let b = chars_of(s2);
    let n = a.len();
    let m = b.len();
    if n == 0 {
        return m;
    }
    if m == 0 {
        return n;
    }
    let mut prev: Vec<usize> = Vec::new();
    prev.push(0);
    let mut j: usize = 0;
    while j < m
        invariant
            j <= m,
            m == b.len(),
            prev.len() == j + 1,
            forall|k: int| 0 <= k <= j ==> prev[k] == k,
        decreases m - j,
    {
        prev.push(j + 1);
        j += 1;
    }
    assert forall|k: int| 0 <= k <= m implies prev[k] == edit_distance(
        a@.take(0),
        #[trigger] b@.take(k),
    ) by {
        assert(a@.take(0).len() == 0);
    }
    let mut i: usize = 0;
    while i < n
        invariant
            i <= n,
            n == a.len(),
            m == b.len(),
            prev.len() == m + 1,
            forall|k: int|
                0 <= k <= m ==> prev[k] == edit_distance(a@.take(i as int), #[trigger] b@.take(k)),
        decreases n - i,
    {
        let mut cur: Vec<usize> = Vec::new();
        cur.push(i + 1);
        proof {
            assert(b@.take(0).len() == 0);
            assert(a@.take(i + 1).len() == i + 1);
        }
        let mut j: usize = 0;
        while j < m
            invariant
                j <= m,
                i < n,
                n == a.len(),
                m == b.len(),
                prev.len() == m + 1,
                cur.len() == j + 1,
                forall|k: int|
                    0 <= k <= m ==> prev[k] == edit_distance(
                        a@.take(i as int),
                        #[trigger] b@.take(k),
                    ),
                forall|k: int|
                    0 <= k <= j ==> cur[k] == edit_distance(
                        a@.take(i + 1),
                        #[trigger] b@.take(k),
                    ),
            decreases m - j,
        {
            let cost: u128 = if a[i] == b[j] {
                0
            } else {
                1
            };
            let up = prev[j + 1];
            let left = cur[j];
            let diagonal = prev[j];
            let best = least_of(up as u128 + 1, left as u128 + 1, diagonal as u128 + cost);
            proof {
                let x = a@.take(i + 1);
                let y = b@.take(j + 1);
                assert(x.drop_last() =~= a@.take(i as int));
                assert(y.drop_last() =~= b@.take(j as int));
                assert(x.last() == a@[i as int]);
                assert(y.last() == b@[j as int]);
                assert(up == edit_distance(a@.take(i as int), b@.take(j + 1)));
                assert(left == edit_distance(a@.take(i + 1), b@.take(j as int)));
                assert(diagonal == edit_distance(a@.take(i as int), b@.take(j as int)));
                assert(best == edit_distance(x, y));
                lemma_edit_distance_bounds(x, y);
            }
            cur.push(best as usize);
            j += 1;
        }
        prev = cur;
        i += 1;
    }
    assert(a@.take(n as int) =~= a@);
    assert(b@.take(m as int) =~= b@);
    prev[m]
}

/// Whether a text comes before another in the order of a dictionary that
/// goes by the characters' numbers: the order of strings.
pub open spec fn text_before(a: Seq<char>, b: Seq<char>) -> bool
    decreases a.len(),
{
    if b.len() == 0 {
        false
    } else if a.len() == 0 {
        true
    } else if a[0] != b[0] {
        (a[0] as int) < (b[0] as int)
    } else {
        text_before(a.drop_first(), b.drop_first())
    }
}

/// No text comes before itself.
pub proof fn lemma_text_before_irreflexive(a: Seq<char>)
    ensures
        !text_before(a, a),
    decreases a.len(),
{
    if a.len() > 0 {
        lemma_text_before_irreflexive(a.drop_first());
    }
}

/// What comes before a text comes before all that the text comes before.
pub proof fn lemma_text_before_transitive(a: Seq<char>, b: Seq<char>, c: Seq<char>)
    requires
        text_before(a, b),
        text_before(b, c),
    ensures
        text_before(a, c),
    decreases a.len(),
{
    if a.len() > 0 && a[0] == b[0] && b[0] == c[0] {
        lemma_text_before_transitive(a.drop_first(), b.drop_first(), c.drop_first());
    }
}

/// Of two different texts one comes before the other.
pub proof fn lemma_text_before_total(a: Seq<char>, b: Seq<char>)
    ensures
        a == b || text_before(a, b) || text_before(b, a),
    decreases a.len(),
{
    if a.len() > 0 && b.len() > 0 && a[0] == b[0] {
        lemma_text_before_total(a.drop_first(), b.drop_first());
        if a.drop_first() == b.drop_first() {
            assert(a =~= seq![a[0]] + a.drop_first());
            assert(b =~= seq![b[0]] + b.drop_first());
        }
    } else if a.len() == 0 && b.len() == 0 {
        assert(a =~= b);
    }
}

/// Whether a text comes before another in the order of strings.
pub fn precedes(a: &Vec<char>, b: &Vec<char>) -> (r: bool)
    ensures
        r == text_before(a@, b@),
{
    let n = a.len();
    let m = b.len();
    let mut i: usize = 0;
    assert(a@.skip(0) =~= a@);
    assert(b@.skip(0) =~= b@);
    while i < n && i < m
        invariant
            i <= n,
            i <= m,
            n == a.len(),
            m == b.len(),
            text_before(a@, b@) == text_before(a@.skip(i as int), b@.skip(i as int)),
        decreases n - i,
    {
        if a[i] != b[i] {
            assert(a@.skip(i as int)[0] == a@[i as int]);
            assert(b@.skip(i as int)[0] == b@[i as int]);
            return a[i] < b[i];
        }
        assert(a@.skip(i as int).drop_first() =~= a@.skip(i + 1));
        assert(b@.skip(i as int).drop_first() =~= b@.skip(i + 1));
        i += 1;
    }
    i < m
}

/// What kind of function a function is.
#[derive(Debug)]
pub enum FunctionCategory {
    /// A function of its own.
    Standalone,
    /// A method of the type named.
    ImplMethod { type_path: String },
}

/// A function that a file offers.
#[derive(Debug)]
pub struct AvailableFunction {
    /// The name to give on the command line: `name` or `Type::name`.
    pub full_name: String,
    pub function_type: FunctionCategory,
}

/// The mathematical value of an [`AvailableFunction`]: its name, and the
/// name of its type where it is a method.
pub ghost struct FunctionView {
    pub full_name: Seq<char>,
    pub type_path: Option<Seq<char>>,
}

impl View for AvailableFunction {
    type V = FunctionView;

    open spec fn view(&self) -> FunctionView {
        FunctionView {
            full_name: self.full_name@,
            type_path: match self.function_type {
                FunctionCategory::Standalone => None,
                FunctionCategory::ImplMethod { type_path } => Some(type_path@),
            },
        }
    }
}

/// The values of a row of functions.
pub open spec fn functions_view(functions: Seq<AvailableFunction>) -> Seq<FunctionView> {
    Seq::new(functions.len(), |i: int| functions[i]@)
}

/// Whether a function comes before another in a list: functions of their
/// own before methods, methods by their types, and by name within each.
pub open spec fn function_before(x: FunctionView, y: FunctionView) -> bool {
    match (x.type_path, y.type_path) {
        (None, Some(_)) => true,
        (Some(_), None) => false,
        (None, None) => text_before(x.full_name, y.full_name),
        (Some(a), Some(b)) => if a == b {
            text_before(x.full_name, y.full_name)
        } else {
            text_before(a, b)
        },
    }
}

/// What comes before a function comes before all that the function comes
/// before.
pub proof fn lemma_function_before_transitive(x: FunctionView, y: FunctionView, z: FunctionView)
    requires
        function_before(x, y),
        function_before(y, z),
    ensures
        function_before(x, z),
{
    match (x.type_path, y.type_path, z.type_path) {
        (None, None, None) => {
            lemma_text_before_transitive(x.full_name, y.full_name, z.full_name);
        },
        (Some(a), Some(b), Some(c)) => {
            if a == b && b == c {
                lemma_text_before_transitive(x.full_name, y.full_name, z.full_name);
            } else if a == b {
            } else if b == c {
            } else {
                lemma_text_before_transitive(a, b, c);
                lemma_text_before_irreflexive(a);
            }
        },
        _ => {},
    }
}

/// Whether a row of functions is in order.
pub open spec fn functions_sorted(row: Seq<FunctionView>) -> bool {
    forall|i: int, j: int| 0 <= i < j < row.len() ==> !function_before(row[j], row[i])
}

/// The place of a function in a row that is in order: before the first
/// function that it comes before; behind functions that are its like.
pub open spec fn sorted_place(row: Seq<FunctionView>, x: FunctionView, from: int) -> int
    decreases row.len() - from,
{
    if from < 0 || from >= row.len() {
        row.len() as int
    } else if function_before(x, row[from]) {
        from
    } else {
        sorted_place(row, x, from + 1)
    }
}

/// The first `count` functions of a row, put in order one after the other.
pub open spec fn sorted_upto(row: Seq<FunctionView>, count: int) -> Seq<FunctionView>
    decreases count,
{
    if count <= 0 || count > row.len() {
        Seq::empty()
    } else {
        let earlier = sorted_upto(row, count - 1);
        earlier.insert(sorted_place(earlier, row[count - 1], 0), row[count - 1])
    }
}

/// A row of functions in order: functions of their own first, by name;
/// then methods, by type and by name.
pub open spec fn sorted_functions(row: Seq<FunctionView>) -> Seq<FunctionView> {
    sorted_upto(row, row.len() as int)
}

proof fn lemma_sorted_place(row: Seq<FunctionView>, x: FunctionView, from: int)
    requires
        0 <= from <= row.len(),
    ensures
        from <= sorted_place(row, x, from) <= row.len(),
        forall|k: int| from <= k < sorted_place(row, x, from) ==> !function_before(x, row[k]),
        sorted_place(row, x, from) < row.len() ==> function_before(
            x,
            row[sorted_place(row, x, from)],
        ),
    decreases row.len() - from,
{
    if from < row.len() && !function_before(x, row[from]) {
        lemma_sorted_place(row, x, from + 1);
    }
}

/// A row put in order is in order, and holds what the row held, each
/// function as often as the row held it.
pub proof fn lemma_sorted_upto(row: Seq<FunctionView>, count: int)
    requires
        0 <= count <= row.len(),
    ensures
        functions_sorted(sorted_upto(row, count)),
        sorted_upto(row, count).len() == count,
        sorted_upto(row, count).to_multiset() == row.take(count).to_multiset(),
    decreases count,
{
    broadcast use vstd::seq_lib::group_to_multiset_ensures;

    if count == 0 {
        assert(row.take(0) =~= Seq::<FunctionView>::empty());
        assert(sorted_upto(row, 0) =~= Seq::<FunctionView>::empty());
    } else {
        lemma_sorted_upto(row, count - 1);
        let earlier = sorted_upto(row, count - 1);
        let x = row[count - 1];
        let at = sorted_place(earlier, x, 0);
        lemma_sorted_place(earlier, x, 0);
        let later = earlier.insert(at, x);
        assert forall|i: int, j: int| 0 <= i < j < later.len() implies !function_before(
            later[j],
            later[i],
        ) by {
            if j < at {
                assert(later[i] == earlier[i] && later[j] == earlier[j]);
            } else if j == at {
                assert(later[i] == earlier[i]);
            } else if i < at {
                assert(later[i] == earlier[i] && later[j] == earlier[j - 1]);
            } else if i == at {
                assert(later[j] == earlier[j - 1]);
                if function_before(earlier[j - 1], x) {
                    lemma_function_before_transitive(earlier[j - 1], x, earlier[at]);
                    lemma_text_before_irreflexive(earlier[at].full_name);
                    if earlier[at].type_path is Some {
                        lemma_text_before_irreflexive(earlier[at].type_path->Some_0);
                    }
                }
            } else {
                assert(later[i] == earlier[i - 1] && later[j] == earlier[j - 1]);
            }
        }
        assert(row.take(count) =~= row.take(count - 1).push(x));
    }
}

/// The functions of a file, gathered as the file is read.
#[derive(Debug)]
pub struct FunctionCollector {
    pub functions: Vec<AvailableFunction>,
}

/// Whether a function with the given attributes is left out of the list:
/// a test, a benchmark, or one that is compiled on a condition.
pub open spec fn is_listed_out(attrs: Seq<Seq<char>>) -> bool {
    ||| crate::instrument::has_attribute(attrs, "test"@)
    ||| crate::instrument::has_attribute(attrs, "bench"@)
    ||| crate::instrument::has_attribute(attrs, "cfg"@)
}

fn listed_out(attrs: &Vec<String>) -> (b: bool)
    ensures
        b == is_listed_out(crate::config::strings_view(attrs@)),
{
    crate::instrument::attribute_present(attrs, "test") || crate::instrument::attribute_present(
        attrs,
        "bench",
    ) || crate::instrument::attribute_present(attrs, "cfg")
}

impl FunctionCollector {
    /// Nothing gathered yet.
    pub fn new() -> (collector: FunctionCollector)
        ensures
            functions_view(collector.functions@) == Seq::<FunctionView>::empty(),
    {
        let collector = FunctionCollector { functions: Vec::new() };
        assert(functions_view(collector.functions@) =~= Seq::<FunctionView>::empty());
        collector
    }

    /// Takes in a function of its own, unless its attributes leave it out.
    pub fn collect_function(&mut self, name: &str, attrs: &Vec<String>)
        ensures
            functions_view(final(self).functions@) == (if is_listed_out(
                crate::config::strings_view(attrs@),
            ) {
                functions_view(old(self).functions@)
            } else {
                functions_view(old(self).functions@).push(
                    FunctionView { full_name: name@, type_path: None },
                )
            }),
    {
        if !listed_out(attrs) {
            self.functions.push(
                AvailableFunction {
                    full_name: name.to_owned(),
                    function_type: FunctionCategory::Standalone,
                },
            );
            assert(functions_view(self.functions@) =~= functions_view(old(self).functions@).push(
                FunctionView { full_name: name@, type_path: None },
            ));
        }
    }

    /// Takes in a method of the type named, under the name `Type::method`,
    /// unless its attributes leave it out, it is underscored, or the type
    /// has no name.
    pub fn collect_method(&mut self, impl_type: &str, method_name: &str, attrs: &Vec<String>)
        ensures
            functions_view(final(self).functions@) == (if impl_type@.len() == 0 || is_listed_out(
                crate::config::strings_view(attrs@),
            ) || crate::instrument::is_underscored(method_name@) {
                functions_view(old(self).functions@)
            } else {
                functions_view(old(self).functions@).push(
                    FunctionView {
                        full_name: impl_type@ + "::"@ + method_name@,
                        type_path: Some(impl_type@),
                    },
                )
            }),
    {
        let type_letters = chars_of(impl_type);
        let method_letters = chars_of(method_name);
        if type_letters.len() == 0 {
            return ;
        }
        if listed_out(attrs) {
            return ;
        }
        if method_letters.len() > 0 && method_letters[0] == '_' {
            return ;
        }
        let mut full_name = impl_type.to_owned();
        vstd::string::StringExecFns::append(&mut full_name, "::");
        vstd::string::StringExecFns::append(&mut full_name, method_name);
        self.functions.push(
            AvailableFunction {
                full_name,
                function_type: FunctionCategory::ImplMethod { type_path: impl_type.to_owned() },
            },
        );
        assert(functions_view(self.functions@) =~= functions_view(old(self).functions@).push(
            FunctionView {
                full_name: impl_type@ + "::"@ + method_name@,
                type_path: Some(impl_type@),
            },
        ));
    }

    /// The functions gathered, in order: functions of their own first, by
    /// name; then methods, by type and by name.
    pub fn into_sorted_functions(self) -> (sorted: Vec<AvailableFunction>)
        ensures
            functions_view(sorted@) == sorted_functions(functions_view(self.functions@)),
            functions_sorted(functions_view(sorted@)),
            functions_view(sorted@).to_multiset() == functions_view(self.functions@).to_multiset(),
    {
        let ghost row = functions_view(self.functions@);
        let mut rest = self.functions;
        let n = rest.len();
        let mut sorted: Vec<AvailableFunction> = Vec::new();
        // Taken from the end of `rest`, turned round first.
        let mut turned: Vec<AvailableFunction> = Vec::new();
        while rest.len() > 0
            invariant
                rest.len() + turned.len() == n,
                n == row.len(),
                forall|k: int| 0 <= k < rest.len() ==> rest[k]@ == row[k],
                forall|k: int| 0 <= k < turned.len() ==> turned[k]@ == row[n - 1 - k],
            decreases rest.len(),
        {
            let last = rest.pop().unwrap();
            turned.push(last);
        }
        assert(functions_view(sorted@) =~= sorted_upto(row, 0));
        while turned.len() > 0
            invariant
                sorted.len() + turned.len() == n,
                n == row.len(),
                forall|k: int| 0 <= k < turned.len() ==> turned[k]@ == row[n - 1 - k],
                functions_view(sorted@) == sorted_upto(row, sorted.len() as int),
            decreases turned.len(),
        {
            let x = turned.pop().unwrap();
            let ghost earlier = functions_view(sorted@);
            let ghost count = sorted.len() as int;
            assert(x@ == row[count]);
            let at = place_of(&sorted, &x);
            sorted.insert(at, x);
            assert(functions_view(sorted@) =~= earlier.insert(at as int, row[count]));
        }
        proof {
            lemma_sorted_upto(row, n as int);
            assert(row.take(n as int) =~= row);
        }
        sorted
    }
}

fn comes_before(x: &AvailableFunction, y: &AvailableFunction) -> (b: bool)
    ensures
        b == function_before(x@, y@),
{
    match (&x.function_type, &y.function_type) {
        (FunctionCategory::Standalone, FunctionCategory::ImplMethod { .. }) => true,
        (FunctionCategory::ImplMethod { .. }, FunctionCategory::Standalone) => false,
        (FunctionCategory::Standalone, FunctionCategory::Standalone) => precedes(
            &chars_of(x.full_name.as_str()),
            &chars_of(y.full_name.as_str()),
        ),
        (
            FunctionCategory::ImplMethod { type_path: a },
            FunctionCategory::ImplMethod { type_path: b },
        ) => {
            if crate::text::same_text(a.as_str(), b.as_str()) {
                precedes(&chars_of(x.full_name.as_str()), &chars_of(y.full_name.as_str()))
            } else {
                precedes(&chars_of(a.as_str()), &chars_of(b.as_str()))
            }
        },
    }
}

fn place_of(sorted: &Vec<AvailableFunction>, x: &AvailableFunction) -> (at: usize)
    ensures
        at == sorted_place(functions_view(sorted@), x@, 0),
        at <= sorted.len(),
{
    let ghost row = functions_view(sorted@);
    let mut i: usize = 0;
    while i < sorted.len()
        invariant
            i <= sorted.len(),
            row == functions_view(sorted@),
            sorted_place(row, x@, 0) == sorted_place(row, x@, i as int),
        decreases sorted.len() - i,
    {
        if comes_before(x, &sorted[i]) {
            return i;
        }
        i += 1;
    }
    i
}

/// The names of the functions of their own among the first `count`
/// functions of a row, in the row's order.
pub open spec fn standalone_names(row: Seq<FunctionView>, count: int) -> Seq<Seq<char>>
    decreases count,
{
    if count <= 0 || count > row.len() {
        Seq::empty()
    } else if row[count - 1].type_path is None {
        standalone_names(row, count - 1).push(row[count - 1].full_name)
    } else {
        standalone_names(row, count - 1)
    }
}

/// The names of the methods of a type among the first `count` functions
/// of a row, in the row's order.
pub open spec fn method_names(row: Seq<FunctionView>, owner: Seq<char>, count: int) -> Seq<
    Seq<char>,
>
    decreases count,
{
    if count <= 0 || count > row.len() {
        Seq::empty()
    } else if row[count - 1].type_path == Some(owner) {
        method_names(row, owner, count - 1).push(row[count - 1].full_name)
    } else {
        method_names(row, owner, count - 1)
    }
}

/// The place of a name in a row of names that is in order: before the
/// first name that it comes before.
pub open spec fn name_place(names: Seq<Seq<char>>, name: Seq<char>, from: int) -> int
    decreases names.len() - from,
{
    if from < 0 || from >= names.len() {
        names.len() as int
    } else if text_before(name, names[from]) {
        from
    } else {
        name_place(names, name, from + 1)
    }
}

/// A row of names, in order, with one more at its place, unless the row
/// holds it already.
pub open spec fn with_type(names: Seq<Seq<char>>, name: Seq<char>) -> Seq<Seq<char>> {
    if names.contains(name) {
        names
    } else {
        names.insert(name_place(names, name, 0), name)
    }
}

/// The types that the first `count` functions of a row are methods of,
/// each once, in the order of strings.
pub open spec fn type_names(row: Seq<FunctionView>, count: int) -> Seq<Seq<char>>
    decreases count,
{
    if count <= 0 || count > row.len() {
        Seq::empty()
    } else {
        match row[count - 1].type_path {
            Some(owner) => with_type(type_names(row, count - 1), owner),
            None => type_names(row, count - 1),
        }
    }
}

/// The first `count` names of a row as items of a list, each on a line of
/// its own.
pub open spec fn name_lines(names: Seq<Seq<char>>, count: int) -> Seq<char>
    decreases count,
{
    if count <= 0 || count > names.len() {
        Seq::empty()
    } else {
        name_lines(names, count - 1) + "  - "@ + names[count - 1] + "\n"@
    }
}

/// The sections of a list for the first `count` types of a row: for each
/// its heading, its methods and a blank line.
pub open spec fn type_sections(row: Seq<FunctionView>, owners: Seq<Seq<char>>, count: int) -> Seq<
    char,
>
    decreases count,
{
    if count <= 0 || count > owners.len() {
        Seq::empty()
    } else {
        let methods = method_names(row, owners[count - 1], row.len() as int);
        type_sections(row, owners, count - 1) + "Methods in "@ + owners[count - 1] + ":\n"@
            + name_lines(methods, methods.len() as int) + "\n"@
    }
}

/// The section of a list for the functions of their own; empty where there
/// is none.
pub open spec fn standalone_section(row: Seq<FunctionView>) -> Seq<char> {
    let names = standalone_names(row, row.len() as int);
    if names.len() == 0 {
        Seq::empty()
    } else {
        "Standalone functions:\n"@ + name_lines(names, names.len() as int) + "\n"@
    }
}

/// What stands at the end of every list.
pub open spec fn list_hint() -> Seq<char> {
    "Use the exact function name from above with --function parameter.\nFor methods, use the full qualified name like 'TypeName::method_name'."@
}

/// The list of the functions of a file: the functions of their own in the
/// order given, then the methods type by type, the types in the order of
/// strings and the methods of each in the order given, then a hint.
pub open spec fn function_list(row: Seq<FunctionView>) -> Seq<char> {
    let owners = type_names(row, row.len() as int);
    "Available functions in this file:\n\n"@ + standalone_section(row) + type_sections(
        row,
        owners,
        owners.len() as int,
    ) + list_hint()
}

fn append_name_lines(out: &mut String, names: &Vec<String>)
    ensures
        final(out)@ == old(out)@ + name_lines(
            crate::config::strings_view(names@),
            names.len() as int,
        ),
{
    let ghost all = crate::config::strings_view(names@);
    let mut i: usize = 0;
    assert(out@ =~= old(out)@ + name_lines(all, 0));
    while i < names.len()
        invariant
            i <= names.len(),
            all == crate::config::strings_view(names@),
            out@ == old(out)@ + name_lines(all, i as int),
        decreases names.len() - i,
    {
        vstd::string::StringExecFns::append(out, "  - ");
        vstd::string::StringExecFns::append(out, names[i].as_str());
        vstd::string::StringExecFns::append(out, "\n");
        i += 1;
        assert(out@ =~= old(out)@ + name_lines(all, i as int));
    }
}

fn standalone_of(functions: &Vec<AvailableFunction>) -> (names: Vec<String>)
    ensures
        crate::config::strings_view(names@) == standalone_names(
            functions_view(functions@),
            functions.len() as int,
        ),
{
    let ghost row = functions_view(functions@);
    let mut names: Vec<String> = Vec::new();
    let mut i: usize = 0;
    assert(crate::config::strings_view(names@) =~= standalone_names(row, 0));
    while i < functions.len()
        invariant
            i <= functions.len(),
            row == functions_view(functions@),
            crate::config::strings_view(names@) == standalone_names(row, i as int),
        decreases functions.len() - i,
    {
        match &functions[i].function_type {
            FunctionCategory::Standalone => {
                let ghost before = crate::config::strings_view(names@);
                names.push(functions[i].full_name.clone());
                assert(crate::config::strings_view(names@) =~= before.push(
                    functions[i as int].full_name@,
                ));
            },
            FunctionCategory::ImplMethod { .. } => {},
        }
        i += 1;
    }
    names
}

fn methods_of(functions: &Vec<AvailableFunction>, owner: &str) -> (names: Vec<String>)
    ensures
        crate::config::strings_view(names@) == method_names(
            functions_view(functions@),
            owner@,
            functions.len() as int,
        ),
{
    let ghost row = functions_view(functions@);
    let mut names: Vec<String> = Vec::new();
    let mut i: usize = 0;
    assert(crate::config::strings_view(names@) =~= method_names(row, owner@, 0));
    while i < functions.len()
        invariant
            i <= functions.len(),
            row == functions_view(functions@),
            crate::config::strings_view(names@) == method_names(row, owner@, i as int),
        decreases functions.len() - i,
    {
        match &functions[i].function_type {
            FunctionCategory::Standalone => {},
            FunctionCategory::ImplMethod { type_path } => {
                if crate::text::same_text(type_path.as_str(), owner) {
                    let ghost before = crate::config::strings_view(names@);
                    names.push(functions[i].full_name.clone());
                    assert(crate::config::strings_view(names@) =~= before.push(
                        functions[i as int].full_name@,
                    ));
                }
            },
        }
        i += 1;
    }
    names
}

fn type_place_of(owners: &Vec<String>, letters: &Vec<char>) -> (at: usize)
    ensures
        at == name_place(crate::config::strings_view(owners@), letters@, 0),
        at <= owners.len(),
{
    let ghost names = crate::config::strings_view(owners@);
    let n = owners.len();
    let mut at: usize = 0;
    while at < n
        invariant
            at <= n,
            n == owners.len(),
            names == crate::config::strings_view(owners@),
            name_place(names, letters@, 0) == name_place(names, letters@, at as int),
        decreases n - at,
    {
        assert(names[at as int] == owners@[at as int]@);
        if precedes(letters, &chars_of(owners[at].as_str())) {
            return at;
        }
        at += 1;
    }
    at
}

pub(crate) fn add_type(owners: &mut Vec<String>, owner: &str)
    ensures
        crate::config::strings_view(final(owners)@) == with_type(
            crate::config::strings_view(old(owners)@),
            owner@,
        ),
{
    let ghost names = crate::config::strings_view(owners@);
    let letters = chars_of(owner);
    let n = owners.len();
    let mut i: usize = 0;
    while i < n
        invariant
            i <= n,
            n == owners.len(),
            *owners == *old(owners),
            names == crate::config::strings_view(owners@),
            forall|k: int| 0 <= k < i ==> names[k] != owner@,
        decreases n - i,
    {
        if crate::text::same_text(owners[i].as_str(), owner) {
            assert(names[i as int] == owner@);
            return ;
        }
        i += 1;
    }
    assert(!names.contains(owner@));
    let at = type_place_of(owners, &letters);
    owners.insert(at, owner.to_owned());
    assert(crate::config::strings_view(owners@) =~= names.insert(at as int, owner@));
}

fn types_of(functions: &Vec<AvailableFunction>) -> (owners: Vec<String>)
    ensures
        crate::config::strings_view(owners@) == type_names(
            functions_view(functions@),
            functions.len() as int,
        ),
{
    let ghost row = functions_view(functions@);
    let mut owners: Vec<String> = Vec::new();
    let mut i: usize = 0;
    assert(crate::config::strings_view(owners@) =~= type_names(row, 0));
    while i < functions.len()
        invariant
            i <= functions.len(),
            row == functions_view(functions@),
            crate::config::strings_view(owners@) == type_names(row, i as int),
        decreases functions.len() - i,
    {
        match &functions[i].function_type {
            FunctionCategory::Standalone => {},
            FunctionCategory::ImplMethod { type_path } => {
                add_type(&mut owners, type_path.as_str());
            },
        }
        i += 1;
    }
    owners
}

/// The list of the functions of a file.
pub fn format_function_list(functions: &Vec<AvailableFunction>) -> (text: String)
    ensures
        text@ == function_list(functions_view(functions@)),
{
    let ghost row = functions_view(functions@);
    let mut text = "Available functions in this file:\n\n".to_owned();
    let ghost head = text@;
    let standalone = standalone_of(functions);
    if standalone.len() > 0 {
        vstd::string::StringExecFns::append(&mut text, "Standalone functions:\n");
        append_name_lines(&mut text, &standalone);
        vstd::string::StringExecFns::append(&mut text, "\n");
    }
    assert(text@ =~= head + standalone_section(row));
    let ghost base = text@;
    let owners = types_of(functions);
    let ghost names = crate::config::strings_view(owners@);
    let mut i: usize = 0;
    assert(text@ =~= base + type_sections(row, names, 0));
    while i < owners.len()
        invariant
            i <= owners.len(),
            row == functions_view(functions@),
            names == crate::config::strings_view(owners@),
            text@ == base + type_sections(row, names, i as int),
        decreases owners.len() - i,
    {
        let methods = methods_of(functions, owners[i].as_str());
        vstd::string::StringExecFns::append(&mut text, "Methods in ");
        vstd::string::StringExecFns::append(&mut text, owners[i].as_str());
        vstd::string::StringExecFns::append(&mut text, ":\n");
        append_name_lines(&mut text, &methods);
        vstd::string::StringExecFns::append(&mut text, "\n");
        i += 1;
        assert(text@ =~= base + type_sections(row, names, i as int));
    }
    vstd::string::StringExecFns::append(
        &mut text,
        "Use the exact function name from above with --function parameter.\nFor methods, use the full qualified name like 'TypeName::method_name'.",
    );
    assert(text@ =~= function_list(row));
    text
}

/// What is said of a file without functions.
pub open spec fn no_functions_text() -> Seq<char> {
    "No public functions found in this file."@
}

/// What to say when a function was not found: the list of the functions
/// gathered, in order; a note where none was gathered.
pub fn generate_function_suggestions(collector: FunctionCollector) -> (text: String)
    ensures
        text@ == (if collector.functions.len() == 0 {
            no_functions_text()
        } else {
            function_list(sorted_functions(functions_view(collector.functions@)))
        }),
{
    if collector.functions.len() == 0 {
        return "No public functions found in this file.".to_owned();
    }
    let functions = collector.into_sorted_functions();
    format_function_list(&functions)
}

/// What to say when a function was not found in a file with many: the
/// functions picked as the nearest to what was asked for, listed under a
/// note that says how many they are and what was asked for.
pub fn format_nearest_functions(functions: &Vec<AvailableFunction>, user_input: &str) -> (text:
    String)
    ensures
        text@ == "Found "@ + crate::json::decimal(functions.len() as nat)
            + " functions, showing top 20 most similar to '"@ + user_input@ + "':\n\n"@
            + function_list(functions_view(functions@)),
{
    let mut text = "Found ".to_owned();
    crate::json::append_decimal(&mut text, functions.len() as u64);
    vstd::string::StringExecFns::append(&mut text, " functions, showing top 20 most similar to '");
    vstd::string::StringExecFns::append(&mut text, user_input);
    vstd::string::StringExecFns::append(&mut text, "':\n\n");
    let list = format_function_list(functions);
    vstd::string::StringExecFns::append(&mut text, list.as_str());
    text
}

} // verus!
