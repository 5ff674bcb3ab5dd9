//! The template lexer: a three-mode state machine that reads one character at
//! a time and splits a template into constant text and `${name}` placeholders.

use vstd::prelude::*;

verus! {

/// One piece of a lexed query template.
#[derive(Eq, PartialEq, Debug)]
pub enum QueryPart {
    /// Literal text, copied into the compiled query as it stands.
    Const(String),
    /// A placeholder, by its name.
    Var(String),
}

/// The mathematical value of a [`QueryPart`].
pub enum Part {
    Const(Seq<char>),
    Var(Seq<char>),
}

impl View for QueryPart {
    type V = Part;

    open spec fn view(&self) -> Part {
        match self {
            QueryPart::Const(text) => Part::Const(text@),
            QueryPart::Var(name) => Part::Var(name@),
        }
    }
}

/// The parts of a vector, each by its view.
pub open spec fn parts_view(parts: Seq<QueryPart>) -> Seq<Part> {
    parts.map_values(|part: QueryPart| part@)
}

/// What the lexer is in the middle of.
#[derive(Eq, PartialEq, Structural)]
pub enum QueryLexerMode {
    /// Reading constant text.
    Const,
    /// A `$` was read; a `{` is expected.
    VarStart,
    /// Reading the name of a placeholder, up to `}`.
    VarName,
}

/// The mathematical value of a [`QueryLexer`].
pub struct LexerState {
    /// Characters read since the last flush.
    pub buf: Seq<char>,
    pub mode: QueryLexerMode,
    /// Parts emitted so far.
    pub parts: Seq<Part>,
}

/// The state before any character is read.
pub open spec fn lex_start() -> LexerState {
    LexerState { buf: Seq::empty(), mode: QueryLexerMode::Const, parts: Seq::empty() }
}

/// The text of a part: what a constant says, or what a placeholder is called.
pub open spec fn part_text(part: Part) -> Seq<char> {
    match part {
        Part::Const(text) => text,
        Part::Var(name) => name,
    }
}

/// `parts`, followed by `part` unless its text is empty.
pub open spec fn emit(parts: Seq<Part>, part: Part) -> Seq<Part> {
    if part_text(part).len() > 0 {
        parts.push(part)
    } else {
        parts
    }
}

/// The transition on one character.
///
/// A `$` read in constant text flushes the text and is swallowed; the `{`
/// after it opens a name; a `}` closes the name and flushes it. Every other
/// character, in every mode, joins the buffer.
pub open spec fn lex_step(st: LexerState, c: char) -> LexerState {
    if c == '$' && st.mode == QueryLexerMode::Const {
        LexerState {
            buf: Seq::empty(),
            mode: QueryLexerMode::VarStart,
            parts: emit(st.parts, Part::Const(st.buf)),
        }
    } else if c == '{' && st.mode == QueryLexerMode::VarStart {
        LexerState { mode: QueryLexerMode::VarName, ..st }
    } else if c == '}' && st.mode == QueryLexerMode::VarName {
        LexerState {
            buf: Seq::empty(),
            mode: QueryLexerMode::Const,
            parts: emit(st.parts, Part::Var(st.buf)),
        }
    } else {
        LexerState { buf: st.buf.push(c), ..st }
    }
}

/// The state after reading all of `s`, starting from `st`.
pub open spec fn lex_run(st: LexerState, s: Seq<char>) -> LexerState
    decreases s.len(),
{
    if s.len() == 0 {
        st
    } else {
        lex_run(lex_step(st, s[0]), s.skip(1))
    }
}

/// The parts once the input has ended: what is left in the buffer becomes
/// constant text or an unterminated placeholder's name; after a `$` that no
/// `{` followed it is dropped.
pub open spec fn lex_finish(st: LexerState) -> Seq<Part> {
    match st.mode {
        QueryLexerMode::Const => emit(st.parts, Part::Const(st.buf)),
        QueryLexerMode::VarName => emit(st.parts, Part::Var(st.buf)),
        QueryLexerMode::VarStart => st.parts,
    }
}

/// The parts of a whole template.
pub open spec fn tokenize(template: Seq<char>) -> Seq<Part> {
    lex_finish(lex_run(lex_start(), template))
}

/// A part as a template writes it: constant text as it stands, a placeholder
/// as `${name}`.
pub open spec fn render_part(part: Part) -> Seq<char> {
    match part {
        Part::Const(text) => text,
        Part::Var(name) => seq!['$', '{'] + name + seq!['}'],
    }
}

/// The template that writes out `parts`, one after the other.
pub open spec fn render(parts: Seq<Part>) -> Seq<char>
    decreases parts.len(),
{
    if parts.len() == 0 {
        Seq::empty()
    } else {
        render(parts.drop_last()) + render_part(parts.last())
    }
}

/// Where a reader of a template stands: in constant text, behind a `$`,
/// behind `${`, or inside a name.
pub enum Place {
    Text,
    Dollar,
    Open,
    Name,
}

/// `rest` completes a balanced template for a reader who stands at `place`:
/// every `$` in constant text is followed by `{`, every name has at least one
/// character and is closed by `}`, and the end comes in constant text.
pub open spec fn balanced_from(place: Place, rest: Seq<char>) -> bool
    decreases rest.len(),
{
    if rest.len() == 0 {
        place is Text
    } else {
        let c = rest[0];
        match place {
            Place::Text => balanced_from(
                if c == '$' {
                    Place::Dollar
                } else {
                    Place::Text
                },
                rest.skip(1),
            ),
            Place::Dollar => c == '{' && balanced_from(Place::Open, rest.skip(1)),
            Place::Open => c != '}' && balanced_from(Place::Name, rest.skip(1)),
            Place::Name => balanced_from(
                if c == '}' {
                    Place::Text
                } else {
                    Place::Name
                },
                rest.skip(1),
            ),
        }
    }
}

/// The template is balanced: constant text without `$`, and placeholders
/// `${name}` with a name of at least one character and without `}`.
pub open spec fn balanced(template: Seq<char>) -> bool {
    balanced_from(Place::Text, template)
}

/// No part has an empty text.
pub open spec fn no_empty_part(parts: Seq<Part>) -> bool {
    forall|i: int| 0 <= i < parts.len() ==> (#[trigger] part_text(parts[i])).len() > 0
}

proof fn lemma_render_push(parts: Seq<Part>, part: Part)
    ensures
        render(parts.push(part)) == render(parts) + render_part(part),
{
    assert(parts.push(part).drop_last() =~= parts);
}

/// The lexer in state `st` has read `consumed` of a balanced template and
/// stands at `place`.
spec fn agrees(st: LexerState, place: Place, consumed: Seq<char>) -> bool {
    match place {
        Place::Text => st.mode == QueryLexerMode::Const && render(st.parts) + st.buf == consumed,
        Place::Dollar => st.mode == QueryLexerMode::VarStart && st.buf.len() == 0 && render(
            st.parts,
        ) + seq!['$'] == consumed,
        Place::Open => st.mode == QueryLexerMode::VarName && st.buf.len() == 0 && render(st.parts)
            + seq!['$', '{'] == consumed,
        Place::Name => st.mode == QueryLexerMode::VarName && st.buf.len() > 0 && render(st.parts)
            + seq!['$', '{'] + st.buf == consumed,
    }
}

proof fn lemma_round_trip_from(st: LexerState, place: Place, consumed: Seq<char>, rest: Seq<char>)
    requires
        agrees(st, place, consumed),
        balanced_from(place, rest),
    ensures
        render(lex_finish(lex_run(st, rest))) == consumed + rest,
    decreases rest.len(),
{
    if rest.len() == 0 {
        lemma_render_push(st.parts, Part::Const(st.buf));
    } else {
        let c = rest[0];
        let next = lex_step(st, c);
        let seen = consumed.push(c);
        match place {
            Place::Text => {
                if c == '$' {
                    lemma_render_push(st.parts, Part::Const(st.buf));
                    assert(render(next.parts) + seq!['$'] =~= seen);
                    lemma_round_trip_from(next, Place::Dollar, seen, rest.skip(1));
                } else {
                    lemma_round_trip_from(next, Place::Text, seen, rest.skip(1));
                }
            },
            Place::Dollar => {
                assert(render(next.parts) + seq!['$', '{'] =~= seen);
                lemma_round_trip_from(next, Place::Open, seen, rest.skip(1));
            },
            Place::Open => {
                assert(render(next.parts) + seq!['$', '{'] + next.buf =~= seen);
                lemma_round_trip_from(next, Place::Name, seen, rest.skip(1));
            },
            Place::Name => {
                if c == '}' {
                    lemma_render_push(st.parts, Part::Var(st.buf));
                    assert(render(next.parts) + next.buf =~= seen);
                    lemma_round_trip_from(next, Place::Text, seen, rest.skip(1));
                } else {
                    lemma_round_trip_from(next, Place::Name, seen, rest.skip(1));
                }
            },
        }
    }
}

/// Writing out the parts of a balanced template gives the template back.
pub proof fn lemma_tokenize_round_trip(template: Seq<char>)
    requires
        balanced(template),
    ensures
        render(tokenize(template)) == template,
{
    lemma_round_trip_from(lex_start(), Place::Text, Seq::empty(), template);
}

/// Reading a text in two pieces comes to the same as reading it in one.
pub proof fn lemma_run_in_pieces(st: LexerState, first: Seq<char>, second: Seq<char>)
    ensures
        lex_run(st, first + second) == lex_run(lex_run(st, first), second),
    decreases first.len(),
{
    if first.len() > 0 {
        assert((first + second).skip(1) =~= first.skip(1) + second);
        lemma_run_in_pieces(lex_step(st, first[0]), first.skip(1), second);
    }
}

/// Parts as a balanced template gives them: none is empty, constant text
/// holds no `$`, a name holds no `}`, and no constant follows a constant.
pub open spec fn canonical(parts: Seq<Part>) -> bool {
    &&& no_empty_part(parts)
    &&& forall|i: int|
        0 <= i < parts.len() ==> match #[trigger] parts[i] {
            Part::Const(text) => !text.contains('$'),
            Part::Var(name) => !name.contains('}'),
        }
    &&& forall|i: int|
        0 < i < parts.len() ==> !((#[trigger] parts[i]) is Const && parts[i - 1] is Const)
}

/// A text that holds no `c` does not start with one, and holds none behind
/// its first character.
proof fn lemma_tail_without(text: Seq<char>, c: char)
    requires
        text.len() > 0,
        !text.contains(c),
    ensures
        text[0] != c,
        !text.skip(1).contains(c),
{
    let tail = text.skip(1);
    assert forall|i: int| 0 <= i < tail.len() implies tail[i] != c by {
        assert(tail[i] == text[i + 1]);
    }
}

/// Constant text without `$` joins the buffer of a lexer that reads constant
/// text.
proof fn lemma_run_text(st: LexerState, text: Seq<char>)
    requires
        st.mode == QueryLexerMode::Const,
        !text.contains('$'),
    ensures
        lex_run(st, text) == (LexerState { buf: st.buf + text, ..st }),
    decreases text.len(),
{
    if text.len() > 0 {
        let rest = text.skip(1);
        lemma_tail_without(text, '$');
        lemma_run_text(lex_step(st, text[0]), rest);
        assert(st.buf.push(text[0]) + rest =~= st.buf + text);
    }
}

/// Characters other than `}` join the buffer of a lexer that reads a name.
proof fn lemma_run_name(st: LexerState, name: Seq<char>)
    requires
        st.mode == QueryLexerMode::VarName,
        !name.contains('}'),
    ensures
        lex_run(st, name) == (LexerState { buf: st.buf + name, ..st }),
    decreases name.len(),
{
    if name.len() > 0 {
        let rest = name.skip(1);
        lemma_tail_without(name, '}');
        lemma_run_name(lex_step(st, name[0]), rest);
        assert(st.buf.push(name[0]) + rest =~= st.buf + name);
    }
}

/// A lexer that reads constant text and meets `${name}` flushes the text
/// and emits the placeholder.
proof fn lemma_run_placeholder(st: LexerState, name: Seq<char>)
    requires
        st.mode == QueryLexerMode::Const,
        name.len() > 0,
        !name.contains('}'),
    ensures
        lex_run(st, render_part(Part::Var(name))) == (LexerState {
            buf: Seq::empty(),
            mode: QueryLexerMode::Const,
            parts: emit(st.parts, Part::Const(st.buf)).push(Part::Var(name)),
        }),
{
    let opened = lex_step(lex_step(st, '$'), '{');
    let named = LexerState { buf: name, ..opened };
    lemma_run_in_pieces(st, seq!['$', '{'], name + seq!['}']);
    assert(seq!['$', '{'] + (name + seq!['}']) =~= render_part(Part::Var(name)));
    assert(lex_run(st, seq!['$', '{']) == opened) by {
        reveal_with_fuel(lex_run, 3);
    }
    lemma_run_in_pieces(opened, name, seq!['}']);
    lemma_run_name(opened, name);
    assert(lex_run(named, seq!['}']) == lex_step(named, '}')) by {
        reveal_with_fuel(lex_run, 2);
    }
}

/// The state of a lexer that has read the template of canonical parts: the
/// last part, if it is constant text, is still in the buffer.
spec fn state_behind(parts: Seq<Part>) -> LexerState {
    if parts.len() > 0 && parts.last() is Const {
        LexerState {
            buf: part_text(parts.last()),
            mode: QueryLexerMode::Const,
            parts: parts.drop_last(),
        }
    } else {
        LexerState { buf: Seq::empty(), mode: QueryLexerMode::Const, parts }
    }
}

proof fn lemma_run_rendered(parts: Seq<Part>)
    requires
        canonical(parts),
    ensures
        lex_run(lex_start(), render(parts)) == state_behind(parts),
    decreases parts.len(),
{
    if parts.len() == 0 {
        assert(parts =~= Seq::empty());
    } else {
        let front = parts.drop_last();
        let last = parts.last();
        lemma_run_rendered(front);
        lemma_run_in_pieces(lex_start(), render(front), render_part(last));
        let behind = state_behind(front);
        match last {
            Part::Const(text) => {
                lemma_run_text(behind, text);
            },
            Part::Var(name) => {
                lemma_run_placeholder(behind, name);
                assert(emit(behind.parts, Part::Const(behind.buf)) == front);
                assert(front.push(last) =~= parts);
            },
        }
    }
}

/// Canonical parts are the parts of the template that writes them out.
pub proof fn lemma_render_round_trip(parts: Seq<Part>)
    requires
        canonical(parts),
    ensures
        tokenize(render(parts)) == parts,
{
    lemma_run_rendered(parts);
}

/// Canonical parts stay canonical when a part is added that is not empty,
/// keeps its delimiter out of its text, and is no constant behind a
/// constant.
proof fn lemma_canonical_push(parts: Seq<Part>, part: Part)
    requires
        canonical(parts),
        part_text(part).len() > 0,
        match part {
            Part::Const(text) => !text.contains('$') && (parts.len() == 0 || parts.last() is Var),
            Part::Var(name) => !name.contains('}'),
        },
    ensures
        canonical(parts.push(part)),
{
    let longer = parts.push(part);
    assert forall|i: int| 0 <= i < longer.len() implies (#[trigger] part_text(longer[i])).len()
        > 0 by {
        assert(i < parts.len() ==> longer[i] == parts[i]);
    }
    assert forall|i: int| 0 < i < longer.len() implies !((#[trigger] longer[i]) is Const
        && longer[i - 1] is Const) by {
        assert(i < parts.len() ==> longer[i] == parts[i]);
        assert(longer[i - 1] == parts[i - 1]);
    }
}

/// The lexer in state `st` stands at `place` of a balanced template, and
/// what it has emitted and gathered so far is in order.
spec fn tidy(st: LexerState, place: Place) -> bool {
    &&& canonical(st.parts)
    &&& match place {
        Place::Text => {
            &&& st.mode == QueryLexerMode::Const
            &&& !st.buf.contains('$')
            &&& st.parts.len() == 0 || st.parts.last() is Var
        },
        Place::Dollar => st.mode == QueryLexerMode::VarStart && st.buf.len() == 0,
        Place::Open => st.mode == QueryLexerMode::VarName && st.buf.len() == 0,
        Place::Name => {
            &&& st.mode == QueryLexerMode::VarName
            &&& st.buf.len() > 0
            &&& !st.buf.contains('}')
        },
    }
}

proof fn lemma_canonical_from(st: LexerState, place: Place, rest: Seq<char>)
    requires
        tidy(st, place),
        balanced_from(place, rest),
    ensures
        canonical(lex_finish(lex_run(st, rest))),
    decreases rest.len(),
{
    if rest.len() == 0 {
        if st.buf.len() > 0 {
            lemma_canonical_push(st.parts, Part::Const(st.buf));
        }
    } else {
        let c = rest[0];
        let next = lex_step(st, c);
        match place {
            Place::Text => {
                if c == '$' {
                    if st.buf.len() > 0 {
                        lemma_canonical_push(st.parts, Part::Const(st.buf));
                    }
                    lemma_canonical_from(next, Place::Dollar, rest.skip(1));
                } else {
                    lemma_canonical_from(next, Place::Text, rest.skip(1));
                }
            },
            Place::Dollar => {
                lemma_canonical_from(next, Place::Open, rest.skip(1));
            },
            Place::Open => {
                lemma_canonical_from(next, Place::Name, rest.skip(1));
            },
            Place::Name => {
                if c == '}' {
                    lemma_canonical_push(st.parts, Part::Var(st.buf));
                    lemma_canonical_from(next, Place::Text, rest.skip(1));
                } else {
                    lemma_canonical_from(next, Place::Name, rest.skip(1));
                }
            },
        }
    }
}

/// The parts of a balanced template are canonical. With the two round
/// trips, they are the one canonical list of parts that writes the template
/// out.
pub proof fn lemma_tokenize_is_canonical(template: Seq<char>)
    requires
        balanced(template),
    ensures
        canonical(tokenize(template)),
{
    lemma_canonical_from(lex_start(), Place::Text, template);
}

/// A reader in constant text who meets text without `$` stays where it is.
proof fn lemma_balanced_behind_text(text: Seq<char>, rest: Seq<char>)
    requires
        !text.contains('$'),
    ensures
        balanced_from(Place::Text, text + rest) == balanced_from(Place::Text, rest),
    decreases text.len(),
{
    if text.len() > 0 {
        let tail = text.skip(1);
        lemma_tail_without(text, '$');
        assert((text + rest).skip(1) =~= tail + rest);
        lemma_balanced_behind_text(tail, rest);
    }
}

/// A reader inside a name who meets characters other than `}` stays inside.
proof fn lemma_balanced_behind_name(name: Seq<char>, rest: Seq<char>)
    requires
        !name.contains('}'),
    ensures
        balanced_from(Place::Name, name + rest) == balanced_from(Place::Name, rest),
    decreases name.len(),
{
    if name.len() > 0 {
        let tail = name.skip(1);
        lemma_tail_without(name, '}');
        assert((name + rest).skip(1) =~= tail + rest);
        lemma_balanced_behind_name(tail, rest);
    }
}

/// A reader in constant text who meets a part of a canonical list is in
/// constant text again behind it.
proof fn lemma_balanced_behind_part(part: Part, rest: Seq<char>)
    requires
        part_text(part).len() > 0,
        match part {
            Part::Const(text) => !text.contains('$'),
            Part::Var(name) => !name.contains('}'),
        },
    ensures
        balanced_from(Place::Text, render_part(part) + rest) == balanced_from(Place::Text, rest),
{
    match part {
        Part::Const(text) => {
            lemma_balanced_behind_text(text, rest);
        },
        Part::Var(name) => {
            let whole = render_part(part) + rest;
            let tail = name.skip(1);
            let closed = seq!['}'] + rest;
            assert(whole.skip(1).skip(1).skip(1) =~= tail + closed);
            lemma_tail_without(name, '}');
            lemma_balanced_behind_name(tail, closed);
            assert(closed.skip(1) =~= rest);
            reveal_with_fuel(balanced_from, 4);
        },
    }
}

proof fn lemma_balanced_behind_parts(parts: Seq<Part>, rest: Seq<char>)
    requires
        canonical(parts),
    ensures
        balanced_from(Place::Text, render(parts) + rest) == balanced_from(Place::Text, rest),
    decreases parts.len(),
{
    if parts.len() > 0 {
        let front = parts.drop_last();
        let last = parts.last();
        assert(render(parts) + rest =~= render(front) + (render_part(last) + rest));
        lemma_balanced_behind_parts(front, render_part(last) + rest);
        lemma_balanced_behind_part(last, rest);
    }
}

/// The template that writes out canonical parts is balanced.
pub proof fn lemma_render_is_balanced(parts: Seq<Part>)
    requires
        canonical(parts),
    ensures
        balanced(render(parts)),
{
    lemma_balanced_behind_parts(parts, Seq::empty());
}

proof fn lemma_run_keeps_parts_filled(st: LexerState, s: Seq<char>)
    requires
        no_empty_part(st.parts),
    ensures
        no_empty_part(lex_run(st, s).parts),
    decreases s.len(),
{
    if s.len() > 0 {
        lemma_run_keeps_parts_filled(lex_step(st, s[0]), s.skip(1));
    }
}

/// Whatever the template, none of its parts is empty: neither a constant
/// without text nor a placeholder without a name is ever emitted.
pub proof fn lemma_tokenize_no_empty_part(template: Seq<char>)
    ensures
        no_empty_part(tokenize(template)),
{
    lemma_run_keeps_parts_filled(lex_start(), template);
}

pub struct QueryLexer {
    buf: String,
    mode: QueryLexerMode,
    parts: Vec<QueryPart>,
}

impl View for QueryLexer {
    type V = LexerState;

    closed spec fn view(&self) -> LexerState {
        LexerState { buf: self.buf@, mode: self.mode, parts: parts_view(self.parts@) }
    }
}

impl QueryLexer {
    pub fn new() -> (lexer: Self)
        ensures
            lexer@ == lex_start(),
    {
        let lexer = Self { buf: String::new(), mode: QueryLexerMode::Const, parts: Vec::new() };
        assert(parts_view(lexer.parts@) =~= Seq::empty());
        lexer
    }

    /// Moves the buffer out as a part, unless it is empty, and leaves it empty.
    fn flush(&mut self, var: bool)
        ensures
            final(self).buf@ == Seq::<char>::empty(),
            final(self).mode == old(self).mode,
            parts_view(final(self).parts@) == emit(
                parts_view(old(self).parts@),
                if var {
                    Part::Var(old(self).buf@)
                } else {
                    Part::Const(old(self).buf@)
                },
            ),
    {
        if !self.buf.as_str().is_empty() {
            let text = self.buf.clone();
            let part = if var {
                QueryPart::Var(text)
            } else {
                QueryPart::Const(text)
            };
            self.parts.push(part);
            self.buf = String::new();
        }
    }

    /// Reads one character.
    pub fn step(&mut self, c: char)
        ensures
            final(self)@ == lex_step(old(self)@, c),
    {
        if c == '$' && self.mode == QueryLexerMode::Const {
            self.flush(false);
            self.mode = QueryLexerMode::VarStart;
        } else if c == '{' && self.mode == QueryLexerMode::VarStart {
            self.mode = QueryLexerMode::VarName;
        } else if c == '}' && self.mode == QueryLexerMode::VarName {
            self.flush(true);
            self.mode = QueryLexerMode::Const;
        } else {
            self.buf.push(c);
        }
    }

    /// Reads every character of `str`, in order.
    pub fn consume(self, str: &str) -> (lexer: QueryLexer)
        ensures
            lexer@ == lex_run(self@, str@),
    {
        let mut lexer = self;
        assert(str@.skip(0) =~= str@);
        for c in it: str.chars()
            invariant
                it.seq() == str@,
                lex_run(lexer@, str@.skip(it.index())) == lex_run(self@, str@),
        {
            assert(str@.skip(it.index()).skip(1) =~= str@.skip(it.index() + 1));
            lexer.step(c);
        }
        lexer
    }

    /// Ends the input and hands out the parts.
    pub fn compile(self) -> (parts: Vec<QueryPart>)
        ensures
            parts_view(parts@) == lex_finish(self@),
    {
        let mut lexer = self;
        match lexer.mode {
            QueryLexerMode::Const => lexer.flush(false),
            QueryLexerMode::VarName => lexer.flush(true),
            QueryLexerMode::VarStart => {},
        }
        lexer.parts
    }
}

} // verus!
