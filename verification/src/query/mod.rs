//! Query templates: lexing, and compilation against the predicates that the
//! host pushed down.

pub mod lexer;

use crate::error::{Error, ErrorView};
use crate::query::lexer::{parts_view, tokenize, Part, QueryLexer, QueryPart};
use crate::utils::Timestamp;
use vstd::prelude::*;
use vstd::string::{StrSliceExecFns, StringExecFns};

verus! {

/// One value of a predicate. The compiler reads its textual form; the text of
/// a string stands between single quotes.
#[derive(Debug)]
pub enum Scalar {
    /// A value that is no timestamp, by its textual form.
    Text(String),
    /// A timestamp of the host, by its textual form and its parts.
    Timestamp(String, Timestamp),
}

/// The mathematical value of a [`Scalar`].
pub struct ScalarView {
    pub text: Seq<char>,
    pub timestamp: Option<Timestamp>,
}

impl View for Scalar {
    type V = ScalarView;

    open spec fn view(&self) -> ScalarView {
        match self {
            Scalar::Text(text) => ScalarView { text: text@, timestamp: None },
            Scalar::Timestamp(text, ts) => ScalarView { text: text@, timestamp: Some(*ts) },
        }
    }
}

impl Scalar {
    /// The textual form.
    pub fn text(&self) -> (text: &String)
        ensures
            text@ == self@.text,
    {
        match self {
            Scalar::Text(text) => text,
            Scalar::Timestamp(text, _) => text,
        }
    }
}

/// What a predicate compares its field with.
#[derive(Debug)]
pub enum Value {
    Cell(Scalar),
    Array(Vec<Scalar>),
}

/// The mathematical value of a [`Value`].
pub enum ValueView {
    Cell(ScalarView),
    Array(Seq<ScalarView>),
}

impl View for Value {
    type V = ValueView;

    open spec fn view(&self) -> ValueView {
        match self {
            Value::Cell(cell) => ValueView::Cell(cell@),
            Value::Array(cells) => ValueView::Array(cells@.map_values(|cell: Scalar| cell@)),
        }
    }
}

/// A predicate of the host's query: a field, an operator and a value.
#[derive(Debug)]
pub struct Qual {
    pub field: String,
    pub operator: String,
    pub value: Value,
}

/// The mathematical value of a [`Qual`].
pub struct QualView {
    pub field: Seq<char>,
    pub operator: Seq<char>,
    pub value: ValueView,
}

impl View for Qual {
    type V = QualView;

    open spec fn view(&self) -> QualView {
        QualView { field: self.field@, operator: self.operator@, value: self.value@ }
    }
}

/// The predicates of a list, each by its view.
pub open spec fn quals_view(quals: Seq<Qual>) -> Seq<QualView> {
    quals.map_values(|qual: Qual| qual@)
}

/// The predicate can bind the placeholder `name`: it is an equality or a
/// membership, on the field of that name.
pub open spec fn binds(qual: QualView, name: Seq<char>) -> bool {
    (qual.operator == "in"@ || qual.operator == "="@) && qual.field == name
}

/// The value of the first predicate that can bind `name`.
pub open spec fn binding(quals: Seq<QualView>, name: Seq<char>) -> Option<ValueView>
    decreases quals.len(),
{
    if quals.len() == 0 {
        None
    } else if binds(quals[0], name) {
        Some(quals[0].value)
    } else {
        binding(quals.skip(1), name)
    }
}

/// `text` without the pair of single quotes that encloses it, if one does.
pub open spec fn strip_quotes(text: Seq<char>) -> Seq<char> {
    if text.len() >= 2 && text.first() == '\'' && text.last() == '\'' {
        text.subrange(1, text.len() - 1)
    } else {
        text
    }
}

/// The items in order, with `sep` between each two.
pub open spec fn join(items: Seq<Seq<char>>, sep: Seq<char>) -> Seq<char>
    decreases items.len(),
{
    if items.len() == 0 {
        Seq::empty()
    } else if items.len() == 1 {
        items[0]
    } else {
        join(items.drop_last(), sep) + sep + items.last()
    }
}

/// What a bound placeholder is replaced with: the unquoted text of a single
/// value, or the unquoted texts of a list joined by `|`.
pub open spec fn value_text(value: ValueView) -> Seq<char> {
    match value {
        ValueView::Cell(cell) => strip_quotes(cell.text),
        ValueView::Array(cells) => join(
            cells.map_values(|cell: ScalarView| strip_quotes(cell.text)),
            "|"@,
        ),
    }
}

/// The compiled query: constant text as it stands and each placeholder
/// replaced with its binding, or the first placeholder without one.
pub open spec fn compile_spec(parts: Seq<Part>, quals: Seq<QualView>) -> Result<
    Seq<char>,
    ErrorView,
>
    decreases parts.len(),
{
    if parts.len() == 0 {
        Ok(Seq::empty())
    } else {
        match compile_spec(parts.drop_last(), quals) {
            Err(error) => Err(error),
            Ok(text) => match parts.last() {
                Part::Const(piece) => Ok(text + piece),
                Part::Var(name) => match binding(quals, name) {
                    Some(value) => Ok(text + value_text(value)),
                    None => Err(ErrorView::VariableNotFound(name)),
                },
            },
        }
    }
}

/// A result of `compile`, by the views of its text or its error.
pub open spec fn compiled_view(result: Result<String, Error>) -> Result<Seq<char>, ErrorView> {
    match result {
        Ok(text) => Ok(text@),
        Err(error) => Err(error@),
    }
}

/// Once a prefix of the parts fails, the whole fails in the same way.
proof fn lemma_failure_stays(parts: Seq<Part>, quals: Seq<QualView>, n: int)
    requires
        0 <= n <= parts.len(),
        compile_spec(parts.take(n), quals) is Err,
    ensures
        compile_spec(parts, quals) == compile_spec(parts.take(n), quals),
    decreases parts.len() - n,
{
    if n == parts.len() {
        assert(parts.take(n) =~= parts);
    } else {
        assert(parts.take(n + 1).drop_last() =~= parts.take(n));
        lemma_failure_stays(parts, quals, n + 1);
    }
}

/// The first predicate wins: a binding is the value of a predicate that can
/// bind the name and that no such predicate precedes, and there is none
/// exactly when no predicate can bind the name.
pub proof fn lemma_binding_is_first(quals: Seq<QualView>, name: Seq<char>)
    ensures
        binding(quals, name) is None <==> forall|i: int|
            0 <= i < quals.len() ==> !binds(#[trigger] quals[i], name),
        binding(quals, name) is Some ==> exists|k: int|
            {
                &&& 0 <= k < quals.len()
                &&& binds(#[trigger] quals[k], name)
                &&& binding(quals, name) == Some(quals[k].value)
                &&& forall|j: int| 0 <= j < k ==> !binds(#[trigger] quals[j], name)
            },
    decreases quals.len(),
{
    if quals.len() > 0 && !binds(quals[0], name) {
        let rest = quals.skip(1);
        lemma_binding_is_first(rest, name);
        if binding(rest, name) is None {
            assert forall|i: int| 0 <= i < quals.len() implies !binds(#[trigger] quals[i], name) by {
                if i > 0 {
                    assert(rest[i - 1] == quals[i]);
                }
            }
        } else {
            let k = choose|k: int|
                {
                    &&& 0 <= k < rest.len()
                    &&& binds(#[trigger] rest[k], name)
                    &&& binding(rest, name) == Some(rest[k].value)
                    &&& forall|j: int| 0 <= j < k ==> !binds(#[trigger] rest[j], name)
                };
            assert forall|j: int| 0 <= j < k + 1 implies !binds(#[trigger] quals[j], name) by {
                if j > 0 {
                    assert(rest[j - 1] == quals[j]);
                }
            }
        }
    }
}

/// Every placeholder among the first `n` parts has a binding.
pub open spec fn bound_up_to(parts: Seq<Part>, quals: Seq<QualView>, n: int) -> bool {
    forall|i: int|
        0 <= i < n && i < parts.len() ==> ((#[trigger] parts[i]) matches Part::Var(name)
            ==> binding(quals, name) is Some)
}

/// The compilation succeeds exactly when every placeholder has a binding.
pub proof fn lemma_compile_succeeds_when_bound(parts: Seq<Part>, quals: Seq<QualView>)
    ensures
        compile_spec(parts, quals) is Ok <==> bound_up_to(parts, quals, parts.len() as int),
    decreases parts.len(),
{
    if parts.len() > 0 {
        let front = parts.drop_last();
        lemma_compile_succeeds_when_bound(front, quals);
        if compile_spec(parts, quals) is Ok {
            assert forall|i: int| 0 <= i < parts.len() implies ((#[trigger] parts[i]) matches Part::Var(
                name,
            ) ==> binding(quals, name) is Some) by {
                if i < front.len() {
                    assert(front[i] == parts[i]);
                }
            }
        }
    }
}

/// A template with a placeholder that no predicate binds does not compile:
/// the compilation fails with `VariableNotFound` for the first such
/// placeholder, whatever else the predicates bind.
pub proof fn lemma_unbound_variable_fails(parts: Seq<Part>, quals: Seq<QualView>, k: int)
    requires
        0 <= k < parts.len(),
        parts[k] is Var,
        binding(quals, parts[k]->Var_0) is None,
        bound_up_to(parts, quals, k),
    ensures
        compile_spec(parts, quals) == Err::<Seq<char>, ErrorView>(
            ErrorView::VariableNotFound(parts[k]->Var_0),
        ),
{
    let front = parts.take(k);
    lemma_compile_succeeds_when_bound(front, quals);
    assert(parts.take(k + 1).drop_last() =~= front);
    lemma_failure_stays(parts, quals, k + 1);
}

/// A template with a placeholder that no predicate binds never compiles: it
/// fails with `VariableNotFound` for a placeholder without a binding, that
/// one or one before it.
pub proof fn lemma_unbound_variable_never_compiles(
    parts: Seq<Part>,
    quals: Seq<QualView>,
    k: int,
)
    requires
        0 <= k < parts.len(),
        parts[k] is Var,
        binding(quals, parts[k]->Var_0) is None,
    ensures
        compile_spec(parts, quals) matches Err(ErrorView::VariableNotFound(name)) && binding(
            quals,
            name,
        ) is None && exists|j: int| 0 <= j <= k && #[trigger] parts[j] == Part::Var(name),
    decreases k,
{
    if bound_up_to(parts, quals, k) {
        lemma_unbound_variable_fails(parts, quals, k);
    } else {
        let i = choose|i: int|
            0 <= i < k && i < parts.len() && !((#[trigger] parts[i]) matches Part::Var(name)
                ==> binding(quals, name) is Some);
        lemma_unbound_variable_never_compiles(parts, quals, i);
    }
}

/// Two results of compiling the same parts against the same predicates are
/// the same text or the same error.
pub proof fn lemma_compile_deterministic(
    first: Result<String, Error>,
    second: Result<String, Error>,
    parts: Seq<Part>,
    quals: Seq<QualView>,
)
    requires
        compiled_view(first) == compile_spec(parts, quals),
        compiled_view(second) == compile_spec(parts, quals),
    ensures
        match (first, second) {
            (Ok(a), Ok(b)) => a@ == b@,
            (Err(a), Err(b)) => a@ == b@,
            _ => false,
        },
{
}

fn format_str(string: String) -> (text: String)
    ensures
        text@ == strip_quotes(string@),
{
    let len: usize = string.as_str().unicode_len();
    if len >= 2 && string.as_str().get_char(0) == '\'' && string.as_str().get_char(len - 1)
        == '\'' {
        string.as_str().substring_char(1, len - 1).to_owned()
    } else {
        string
    }
}

/// The index of the first predicate that can bind `name`.
fn find_binding(quals: &[Qual], name: &str) -> (found: Option<usize>)
    ensures
        match found {
            Some(k) => k < quals@.len() && binding(quals_view(quals@), name@) == Some(
                quals@[k as int]@.value,
            ),
            None => binding(quals_view(quals@), name@) is None,
        },
{
    let ghost all = quals_view(quals@);
    let mut i: usize = 0;
    assert(all.skip(0) =~= all);
    while i < quals.len()
        invariant
            i <= quals@.len(),
            all == quals_view(quals@),
            binding(all.skip(i as int), name@) == binding(all, name@),
        decreases quals@.len() - i,
    {
        let qual = &quals[i];
        if (qual.operator.as_str().eq("in") || qual.operator.as_str().eq("=")) && qual.field.as_str().eq(
            name,
        ) {
            return Some(i);
        }
        assert(all.skip(i as int).skip(1) =~= all.skip(i + 1));
        i += 1;
    }
    None
}

/// The text that replaces a placeholder bound to `value`.
fn bound_text(value: &Value) -> (text: String)
    ensures
        text@ == value_text(value@),
{
    match value {
        Value::Cell(cell) => format_str(cell.text().clone()),
        Value::Array(cells) => {
            let ghost items = cells@.map_values(|cell: Scalar| cell@).map_values(
                |cell: ScalarView| strip_quotes(cell.text),
            );
            let mut text = String::new();
            let mut i: usize = 0;
            while i < cells.len()
                invariant
                    i <= cells@.len(),
                    items == cells@.map_values(|cell: Scalar| cell@).map_values(
                        |cell: ScalarView| strip_quotes(cell.text),
                    ),
                    text@ == join(items.take(i as int), "|"@),
                decreases cells@.len() - i,
            {
                let item = format_str(cells[i].text().clone());
                assert(items.take(i + 1).drop_last() =~= items.take(i as int));
                if i > 0 {
                    text.append("|");
                }
                text.append(item.as_str());
                i += 1;
            }
            assert(items.take(cells@.len() as int) =~= items);
            text
        },
    }
}

/// A query template, lexed.
pub struct PromQuery {
    parts: Vec<QueryPart>,
}

impl View for PromQuery {
    type V = Seq<Part>;

    closed spec fn view(&self) -> Seq<Part> {
        parts_view(self.parts@)
    }
}

impl PromQuery {
    /// Lexes a template.
    pub fn parse(str: &str) -> (query: PromQuery)
        ensures
            query@ == tokenize(str@),
    {
        let parts = QueryLexer::new().consume(str).compile();
        PromQuery { parts }
    }

    /// The parts of the template.
    pub fn parts(&self) -> (parts: &Vec<QueryPart>)
        ensures
            parts_view(parts@) == self@,
    {
        &self.parts
    }

    /// Binds the placeholders to `quals` and writes the query out.
    ///
    /// Each placeholder takes the first predicate on its name that is an
    /// equality or a membership. The first placeholder that finds none ends
    /// the compilation with `VariableNotFound`.
    pub fn compile(&self, quals: &[Qual]) -> (result: Result<String, Error>)
        ensures
            compiled_view(result) == compile_spec(self@, quals_view(quals@)),
    {
        let ghost bound = quals_view(quals@);
        let mut req = String::new();
        let mut i: usize = 0;
        while i < self.parts.len()
            invariant
                i <= self.parts@.len(),
                self@.len() == self.parts@.len(),
                bound == quals_view(quals@),
                compile_spec(self@.take(i as int), bound) == Ok::<Seq<char>, ErrorView>(req@),
            decreases self.parts@.len() - i,
        {
            assert(self@.take(i + 1).drop_last() =~= self@.take(i as int));
            match &self.parts[i] {
                QueryPart::Const(piece) => {
                    req.append(piece.as_str());
                },
                QueryPart::Var(name) => {
                    match find_binding(quals, name.as_str()) {
                        Some(k) => {
                            let text = bound_text(&quals[k].value);
                            req.append(text.as_str());
                        },
                        None => {
                            proof {
                                lemma_failure_stays(self@, bound, i + 1);
                            }
                            return Err(Error::VariableNotFound(name.clone()));
                        },
                    }
                },
            }
            i += 1;
        }
        assert(self@.take(self.parts@.len() as int) =~= self@);
        Ok(req)
    }
}

} // verus!
