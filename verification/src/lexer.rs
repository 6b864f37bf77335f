//! The tokenizer: source text to a stream of tokens.
//!
//! One classifier per token kind reads the text in parallel. A lexeme is the
//! longest run of characters that some classifier accepts as a whole; its kind
//! is the first kind, in the fixed order of [`kind_at`], whose classifier
//! accepts it. Whitespace lexemes are dropped.

use crate::text::{
    append_decimal, begins_with, char_is_alphanumeric, char_is_control, char_is_numeric,
    char_is_whitespace, characters, decimal, is_alphanumeric, is_control, is_numeric,
    is_whitespace, joined, same_text, text_between,
};
use vstd::prelude::*;
use vstd::utf8::encode_utf8;

verus! {

/// The kinds of token.
#[derive(Copy, PartialEq, Eq, Clone, Debug, Structural)]
pub enum TokenName {
    Whitespace,
    Word,
    Number,
    Operator,
    Comma,
    Bracket,
    String,
}

/// A lexeme with its kind and its offset in the source.
#[derive(Debug, PartialEq)]
pub struct Token {
    pub name: TokenName,
    pub at: usize,
    pub value: String,
}

/// What a token is, mathematically.
pub struct TokenView {
    pub name: TokenName,
    pub at: usize,
    pub value: Seq<char>,
}

impl View for Token {
    type V = TokenView;

    open spec fn view(&self) -> TokenView {
        TokenView { name: self.name, at: self.at, value: self.value@ }
    }
}

/// A character that can begin no token.
#[derive(Copy, PartialEq, Eq, Clone, Debug, Structural)]
pub struct LexError {
    /// The index of the character in the source.
    pub at: usize,
    pub character: char,
}

/// The classifier of one token kind: whether it still accepts the lexeme
/// read so far.
#[derive(Copy, PartialEq, Eq, Clone, Debug, Structural)]
pub struct Spec {
    pub token_name: TokenName,
    pub accepted: bool,
}

/// The classifiers of all kinds, in the order of their priority.
pub struct Specs(pub Vec<Spec>);

/// The tokens of a source text.
pub struct TokenStream {
    pub tokens: Vec<Token>,
}

/// Whether the classifier of a kind takes the character `c` after the
/// characters of `buffer`.
pub open spec fn admits(kind: TokenName, c: char, buffer: Seq<char>) -> bool {
    match kind {
        TokenName::Whitespace => char_is_whitespace(c) || char_is_control(c),
        TokenName::Number => char_is_numeric(c) || (c == '.' && !buffer.contains('.')) || (c == '-'
            && buffer.len() == 0),
        TokenName::Word => char_is_alphanumeric(c) || c == '#' || c == '$' || c == '_',
        TokenName::Operator => buffer.len() == 0 && (c == '+' || c == '-' || c == '*' || c == '/'
            || c == '<' || c == '>' || c == '^' || c == '=' || c == '&' || c == '|'),
        TokenName::Bracket => buffer.len() == 0 && (c == '[' || c == ']' || c == '(' || c == ')'),
        TokenName::Comma => buffer.len() == 0 && c == ',',
        TokenName::String => !(buffer.len() > 1 && buffer.first() == '"' && buffer.last() == '"')
            && (buffer.len() != 0 || c == '"'),
    }
}

/// Whether the classifier of a kind accepts the whole of `buffer`: it takes
/// each character after those before it.
pub open spec fn accepts(kind: TokenName, buffer: Seq<char>) -> bool
    decreases buffer.len(),
{
    buffer.len() == 0 || (accepts(kind, buffer.drop_last()) && admits(
        kind,
        buffer.last(),
        buffer.drop_last(),
    ))
}

/// The kinds in the order of their priority.
pub open spec fn kind_at(i: int) -> TokenName {
    if i == 0 {
        TokenName::Whitespace
    } else if i == 1 {
        TokenName::Number
    } else if i == 2 {
        TokenName::Word
    } else if i == 3 {
        TokenName::Operator
    } else if i == 4 {
        TokenName::Bracket
    } else if i == 5 {
        TokenName::Comma
    } else {
        TokenName::String
    }
}

/// The state of the classifiers after they have read `buffer`.
pub open spec fn classifiers(buffer: Seq<char>) -> Seq<Spec> {
    Seq::new(7, |i: int| Spec { token_name: kind_at(i), accepted: accepts(kind_at(i), buffer) })
}

/// The kind of the first classifier, from index `i` on, that still accepts.
pub open spec fn first_accepted_from(specs: Seq<Spec>, i: int) -> Option<TokenName>
    decreases specs.len() - i,
{
    if i < 0 || i >= specs.len() {
        None
    } else if specs[i].accepted {
        Some(specs[i].token_name)
    } else {
        first_accepted_from(specs, i + 1)
    }
}

/// The kind of the first classifier that still accepts.
pub open spec fn first_accepted(specs: Seq<Spec>) -> Option<TokenName> {
    first_accepted_from(specs, 0)
}

/// Whether the classifier still accepts once it has seen `c` after `buffer`.
pub open spec fn survives(spec: Spec, c: char, buffer: Seq<char>) -> bool {
    spec.accepted && admits(spec.token_name, c, buffer)
}

/// Whether any classifier still accepts once it has seen `c` after `buffer`.
pub open spec fn any_survivor(specs: Seq<Spec>, c: char, buffer: Seq<char>) -> bool {
    exists|i: int| 0 <= i < specs.len() && survives(#[trigger] specs[i], c, buffer)
}

/// The classifiers after each has seen `c` after `buffer`.
pub open spec fn decided(specs: Seq<Spec>, c: char, buffer: Seq<char>) -> Seq<Spec> {
    Seq::new(
        specs.len(),
        |i: int| Spec { token_name: specs[i].token_name, accepted: survives(specs[i], c, buffer) },
    )
}

/// Whether some classifier accepts the whole of `buffer`.
pub open spec fn viable(buffer: Seq<char>) -> bool {
    first_accepted(classifiers(buffer)) is Some
}

/// Where the lexeme that begins at `start` ends, given that it reaches `end`:
/// it grows while the longer run is still viable.
pub open spec fn lexeme_end(input: Seq<char>, start: int, end: int) -> int
    decreases input.len() - end,
{
    if start <= end < input.len() && viable(input.subrange(start, end + 1)) {
        lexeme_end(input, start, end + 1)
    } else {
        end
    }
}

/// The offset recorded for a lexeme that ends before index `end`: `end` less
/// the length of the lexeme in bytes, and zero where that would be negative.
pub open spec fn offset_of(end: int, lexeme: Seq<char>) -> int {
    let length = encode_utf8(lexeme).len() as usize;
    if end >= length {
        end - length
    } else {
        0
    }
}

/// The token for the characters `input[start..end]`.
pub open spec fn token_at(input: Seq<char>, start: int, end: int) -> TokenView {
    let lexeme = input.subrange(start, end);
    TokenView {
        name: first_accepted(classifiers(lexeme)).unwrap(),
        at: offset_of(end, lexeme) as usize,
        value: lexeme,
    }
}

/// The tokens of `input[start..]`, or the first character that begins no
/// token.
pub open spec fn tokens_from(input: Seq<char>, start: int) -> Result<Seq<TokenView>, LexError>
    decreases input.len() - start,
{
    if start < 0 || start >= input.len() {
        Ok(Seq::empty())
    } else {
        let end = lexeme_end(input, start, start);
        if !(start < end <= input.len()) {
            Err(LexError { at: start as usize, character: input[start] })
        } else {
            let token = token_at(input, start, end);
            match tokens_from(input, end) {
                Err(error) => Err(error),
                Ok(rest) => if token.name == TokenName::Whitespace {
                    Ok(rest)
                } else {
                    Ok(seq![token] + rest)
                },
            }
        }
    }
}

/// The tokens of a source text.
pub open spec fn tokenize(input: Seq<char>) -> Result<Seq<TokenView>, LexError> {
    tokens_from(input, 0)
}

/// The views of a sequence of tokens.
pub open spec fn token_views(tokens: Seq<Token>) -> Seq<TokenView> {
    Seq::new(tokens.len(), |i: int| tokens[i]@)
}

/// Tokens already found, followed by what the rest of the text gives.
pub open spec fn after(done: Seq<TokenView>, rest: Result<Seq<TokenView>, LexError>) -> Result<
    Seq<TokenView>,
    LexError,
> {
    match rest {
        Ok(tokens) => Ok(done + tokens),
        Err(error) => Err(error),
    }
}

/// Some classifier still accepts exactly when a first one does.
pub proof fn lemma_first_accepted(specs: Seq<Spec>, i: int)
    requires
        0 <= i <= specs.len(),
    ensures
        first_accepted_from(specs, i) is Some <==> exists|k: int|
            i <= k < specs.len() && (#[trigger] specs[k]).accepted,
        first_accepted_from(specs, i) is Some ==> exists|k: int|
            i <= k < specs.len() && (#[trigger] specs[k]).accepted && specs[k].token_name
                == first_accepted_from(specs, i).unwrap(),
    decreases specs.len() - i,
{
    if i < specs.len() {
        if !specs[i].accepted {
            lemma_first_accepted(specs, i + 1);
        }
    }
}

/// Reading one more character takes the classifiers of a buffer to those of
/// the longer buffer, and the longer buffer is viable exactly when a
/// classifier survives.
pub proof fn lemma_classifiers_step(buffer: Seq<char>, c: char)
    ensures
        decided(classifiers(buffer), c, buffer) == classifiers(buffer.push(c)),
        any_survivor(classifiers(buffer), c, buffer) <==> viable(buffer.push(c)),
{
    let longer = buffer.push(c);
    assert(longer.drop_last() =~= buffer);
    assert(longer.last() == c);
    assert(decided(classifiers(buffer), c, buffer) =~= classifiers(longer));
    lemma_first_accepted(classifiers(longer), 0);
    if any_survivor(classifiers(buffer), c, buffer) {
        let k = choose|k: int|
            0 <= k < classifiers(buffer).len() && survives(
                #[trigger] classifiers(buffer)[k],
                c,
                buffer,
            );
        assert(classifiers(longer)[k].accepted);
    }
    if viable(longer) {
        let k = choose|k: int| 0 <= k < 7 && (#[trigger] classifiers(longer)[k]).accepted;
        assert(survives(classifiers(buffer)[k], c, buffer));
    }
}

impl Clone for Token {
    fn clone(&self) -> (copy: Self)
        ensures
            copy@ == self@,
    {
        Token { name: self.name, at: self.at, value: self.value.clone() }
    }
}

fn kind_text(name: TokenName) -> (text: &'static str)
    ensures
        text@ == kind_name(name),
{
    match name {
        TokenName::Whitespace => "Whitespace",
        TokenName::Word => "Word",
        TokenName::Number => "Number",
        TokenName::Operator => "Operator",
        TokenName::Comma => "Comma",
        TokenName::Bracket => "Bracket",
        TokenName::String => "String",
    }
}

/// The name of a token kind, as a text.
pub open spec fn kind_name(name: TokenName) -> Seq<char> {
    match name {
        TokenName::Whitespace => "Whitespace"@,
        TokenName::Word => "Word"@,
        TokenName::Number => "Number"@,
        TokenName::Operator => "Operator"@,
        TokenName::Comma => "Comma"@,
        TokenName::Bracket => "Bracket"@,
        TokenName::String => "String"@,
    }
}

impl Token {
    /// The token for a lexeme that ends before the character of index `pos`.
    pub fn new(name: TokenName, value: String, pos: usize) -> (token: Token)
        ensures
            token@ == (TokenView { name, at: offset_of(pos as int, value@) as usize, value: value@ }),
    {
        let length = value.as_str().len();
        let at = if pos >= length {
            pos - length
        } else {
            0
        };
        Token { name, at, value }
    }

    /// The offset, the kind and the lexeme, separated by single spaces.
    pub fn to_string(&self) -> (text: String)
        ensures
            text@ == decimal(self.at as nat) + " "@ + kind_name(self.name) + " "@ + self.value@,
    {
        let mut text = String::new();
        append_decimal(&mut text, self.at as u64);
        let text = joined(text.as_str(), " ");
        let text = joined(text.as_str(), kind_text(self.name));
        let text = joined(text.as_str(), " ");
        let text = joined(text.as_str(), self.value.as_str());
        assert(text@ =~= decimal(self.at as nat) + " "@ + kind_name(self.name) + " "@
            + self.value@);
        text
    }

    /// Whether the lexeme begins with the given text.
    pub fn starts_with(&self, s: &str) -> (begins: bool)
        ensures
            begins == s@.is_prefix_of(self.value@),
    {
        begins_with(self.value.as_str(), s)
    }
}

/// Decides [`admits`] for the buffer `chars[start..end]`.
fn admits_char(kind: TokenName, c: char, chars: &Vec<char>, start: usize, end: usize) -> (answer:
    bool)
    requires
        start <= end <= chars.len(),
    ensures
        answer == admits(kind, c, chars@.subrange(start as int, end as int)),
{
    let ghost buffer = chars@.subrange(start as int, end as int);
    match kind {
        TokenName::Whitespace => is_whitespace(c) || is_control(c),
        TokenName::Number => {
            if is_numeric(c) {
                return true;
            }
            if c == '-' {
                return start == end;
            }
            if c != '.' {
                return false;
            }
            let mut i: usize = start;
            while i < end
                invariant
                    start <= i <= end <= chars.len(),
                    buffer == chars@.subrange(start as int, end as int),
                    kind == TokenName::Number,
                    c == '.',
                    !char_is_numeric(c),
                    forall|k: int| 0 <= k < i - start ==> buffer[k] != '.',
                decreases end - i,
            {
                if chars[i] == '.' {
                    assert(buffer[i - start] == '.');
                    return false;
                }
                i += 1;
            }
            true
        },
        TokenName::Word => is_alphanumeric(c) || c == '#' || c == '$' || c == '_',
        TokenName::Operator => start == end && (c == '+' || c == '-' || c == '*' || c == '/' || c
            == '<' || c == '>' || c == '^' || c == '=' || c == '&' || c == '|'),
        TokenName::Bracket => start == end && (c == '[' || c == ']' || c == '(' || c == ')'),
        TokenName::Comma => start == end && c == ',',
        TokenName::String => {
            if start == end {
                c == '"'
            } else {
                !(end - start > 1 && chars[start] == '"' && chars[end - 1] == '"')
            }
        },
    }
}

impl Spec {
    /// A classifier that has read nothing yet, and so accepts.
    pub fn new(name: TokenName) -> (spec: Spec)
        ensures
            spec == (Spec { token_name: name, accepted: true }),
    {
        Spec { token_name: name, accepted: true }
    }

    /// Shows the classifier the character `c`, which follows the text `b`.
    pub fn decide(&mut self, c: char, b: &str)
        ensures
            *final(self) == (Spec {
                token_name: old(self).token_name,
                accepted: survives(*old(self), c, b@),
            }),
    {
        let chars = characters(b);
        assert(chars@.subrange(0, chars.len() as int) =~= b@);
        self.decide_on(c, &chars, 0, chars.len());
    }

    fn decide_on(&mut self, c: char, chars: &Vec<char>, start: usize, end: usize)
        requires
            start <= end <= chars.len(),
        ensures
            *final(self) == (Spec {
                token_name: old(self).token_name,
                accepted: survives(*old(self), c, chars@.subrange(start as int, end as int)),
            }),
    {
        if !self.accepted {
            return ;
        }
        self.accepted = admits_char(self.token_name, c, chars, start, end);
    }

    /// Makes the classifier accept again, for the next lexeme.
    pub fn reset(&mut self)
        ensures
            *final(self) == (Spec { token_name: old(self).token_name, accepted: true }),
    {
        self.accepted = true;
    }
}

impl Specs {
    /// Whether these are the seven classifiers in the order of their
    /// priority.
    pub open spec fn well_formed(&self) -> bool {
        &&& self.0@.len() == 7
        &&& forall|i: int| 0 <= i < 7 ==> (#[trigger] self.0@[i]).token_name == kind_at(i)
    }

    /// The seven classifiers, each accepting.
    pub fn new() -> (specs: Specs)
        ensures
            specs.well_formed(),
            specs.0@ == classifiers(Seq::empty()),
    {
        let mut list: Vec<Spec> = Vec::new();
        list.push(Spec::new(TokenName::Whitespace));
        list.push(Spec::new(TokenName::Number));
        list.push(Spec::new(TokenName::Word));
        list.push(Spec::new(TokenName::Operator));
        list.push(Spec::new(TokenName::Bracket));
        list.push(Spec::new(TokenName::Comma));
        list.push(Spec::new(TokenName::String));
        assert(list@ =~= classifiers(Seq::empty()));
        Specs(list)
    }

    /// Shows every classifier the character `c`, which follows the text `b`.
    ///
    /// While some classifier still accepts, the character belongs to the
    /// lexeme and the answer is `Ok(None)`. Once none does, the lexeme `b` is
    /// complete: the answer is the first classifier that accepted `b`. A
    /// character that no classifier takes at the start of a lexeme is an
    /// error.
    pub fn decide(&mut self, c: char, b: &str) -> (decision: Result<Option<Spec>, char>)
        ensures
            final(self).0@ == decided(old(self).0@, c, b@),
            decision == decision_of(old(self).0@, c, b@),
    {
        let chars = characters(b);
        assert(chars@.subrange(0, chars.len() as int) =~= b@);
        self.decide_on(c, &chars, 0, chars.len())
    }

    fn decide_on(&mut self, c: char, chars: &Vec<char>, start: usize, end: usize) -> (decision:
        Result<Option<Spec>, char>)
        requires
            start <= end <= chars.len(),
        ensures
            final(self).0@ == decided(old(self).0@, c, chars@.subrange(start as int, end as int)),
            decision == decision_of(old(self).0@, c, chars@.subrange(start as int, end as int)),
    {
        let ghost buffer = chars@.subrange(start as int, end as int);
        let ghost before = self.0@;
        let mut candidate: Option<Spec> = None;
        let mut count: usize = 0;
        let mut i: usize = 0;
        let n = self.0.len();
        while i < n
            invariant
                i <= n == before.len(),
                start <= end <= chars.len(),
                buffer == chars@.subrange(start as int, end as int),
                self.0@.len() == n,
                forall|k: int| 0 <= k < i ==> #[trigger] self.0@[k] == decided(before, c, buffer)[k],
                forall|k: int| i <= k < n ==> #[trigger] self.0@[k] == before[k],
                count <= i,
                count > 0 <==> exists|k: int| 0 <= k < i && survives(#[trigger] before[k], c, buffer),
                first_accepted(before) == (match candidate {
                    Some(spec) => Some(spec.token_name),
                    None => first_accepted_from(before, i as int),
                }),
                candidate matches Some(spec) ==> spec.accepted,
            decreases n - i,
        {
            let mut spec = self.0[i];
            if candidate.is_none() && spec.accepted {
                candidate = Some(spec);
            }
            spec.decide_on(c, chars, start, end);
            self.0.set(i, spec);
            if spec.accepted {
                count += 1;
            }
            i += 1;
        }
        assert(self.0@ =~= decided(before, c, buffer));
        if count > 0 {
            return Ok(None);
        }
        match candidate {
            None => Err(c),
            Some(spec) => {
                if start == end {
                    Err(c)
                } else {
                    Ok(Some(spec))
                }
            },
        }
    }

    /// The kind of the first classifier that still accepts.
    pub fn candidate(&self) -> (kind: Option<TokenName>)
        ensures
            kind == first_accepted(self.0@),
    {
        let mut i: usize = 0;
        while i < self.0.len()
            invariant
                i <= self.0.len(),
                first_accepted(self.0@) == first_accepted_from(self.0@, i as int),
            decreases self.0.len() - i,
        {
            if self.0[i].accepted {
                return Some(self.0[i].token_name);
            }
            i += 1;
        }
        None
    }

    /// Makes every classifier accept again, for the next lexeme.
    pub fn reset(&mut self)
        ensures
            final(self).0@ == Seq::new(
                old(self).0@.len(),
                |i: int| Spec { token_name: old(self).0@[i].token_name, accepted: true },
            ),
    {
        let ghost before = self.0@;
        let mut i: usize = 0;
        let n = self.0.len();
        while i < n
            invariant
                i <= n == before.len(),
                self.0@.len() == n,
                forall|k: int|
                    0 <= k < i ==> #[trigger] self.0@[k] == (Spec {
                        token_name: before[k].token_name,
                        accepted: true,
                    }),
                forall|k: int| i <= k < n ==> #[trigger] self.0@[k] == before[k],
            decreases n - i,
        {
            let mut spec = self.0[i];
            spec.reset();
            self.0.set(i, spec);
            i += 1;
        }
        assert(self.0@ =~= Seq::new(
            before.len(),
            |i: int| Spec { token_name: before[i].token_name, accepted: true },
        ));
    }
}

/// What the classifiers decide on the character `c`, which follows `buffer`.
pub open spec fn decision_of(specs: Seq<Spec>, c: char, buffer: Seq<char>) -> Result<
    Option<Spec>,
    char,
> {
    if any_survivor(specs, c, buffer) {
        Ok(None)
    } else if buffer.len() == 0 || first_accepted(specs) is None {
        Err(c)
    } else {
        Ok(Some(Spec { token_name: first_accepted(specs).unwrap(), accepted: true }))
    }
}

impl View for TokenStream {
    type V = Seq<TokenView>;

    open spec fn view(&self) -> Seq<TokenView> {
        token_views(self.tokens@)
    }
}

impl Clone for TokenStream {
    fn clone(&self) -> (copy: Self)
        ensures
            copy@ == self@,
    {
        let mut tokens: Vec<Token> = Vec::new();
        let mut i: usize = 0;
        while i < self.tokens.len()
            invariant
                i <= self.tokens.len(),
                tokens@.len() == i,
                forall|k: int| 0 <= k < i ==> tokens@[k]@ == self.tokens@[k]@,
            decreases self.tokens.len() - i,
        {
            tokens.push(self.tokens[i].clone());
            i += 1;
        }
        assert(token_views(tokens@) =~= token_views(self.tokens@));
        TokenStream { tokens }
    }
}

/// The change of the bracket depth that a lexeme makes: one up for `(`, one
/// down for `)`, none for anything else.
pub open spec fn depth_change(lexeme: Seq<char>) -> int {
    if lexeme == "("@ {
        1
    } else if lexeme == ")"@ {
        -1
    } else {
        0
    }
}

/// The bracket depth after the tokens `tokens[from..=to]`, from depth zero.
pub open spec fn depth(tokens: Seq<TokenView>, from: int, to: int) -> int
    decreases to - from + 1,
{
    if to < from {
        0
    } else {
        depth(tokens, from, to - 1) + depth_change(tokens[to].value)
    }
}

/// The first index, from `j` on, at which the bracket depth counted from
/// `from` is zero.
pub open spec fn closing_from(tokens: Seq<TokenView>, from: int, j: int) -> Option<int>
    decreases tokens.len() - j,
{
    if j < from || j >= tokens.len() {
        None
    } else if depth(tokens, from, j) == 0 {
        Some(j)
    } else {
        closing_from(tokens, from, j + 1)
    }
}

/// The index of the first token, from `from` on, after which the bracket
/// depth is back at zero.
pub open spec fn closing_index(tokens: Seq<TokenView>, from: int) -> Option<int> {
    closing_from(tokens, from, from)
}

/// A closing index found from `j` on lies at or after `j`, on a token.
pub proof fn lemma_closing_from(tokens: Seq<TokenView>, from: int, j: int)
    requires
        from <= j,
    ensures
        closing_from(tokens, from, j) is Some ==> j <= closing_from(tokens, from, j).unwrap()
            < tokens.len(),
    decreases tokens.len() - j,
{
    if j < tokens.len() && depth(tokens, from, j) != 0 {
        lemma_closing_from(tokens, from, j + 1);
    }
}

/// A tokenizer that hands out the tokens of a text one by one.
pub struct Lexer {
    chars: Vec<char>,
    pos: usize,
    specs: Specs,
}

/// The next token of `input` that is no whitespace, from index `start` on,
/// with the index after it; or the first character that begins no token.
pub open spec fn next_from(input: Seq<char>, start: int) -> (
    Result<Option<TokenView>, LexError>,
    int,
)
    decreases input.len() - start,
{
    if start < 0 || start >= input.len() {
        (Ok(None), start)
    } else {
        let end = lexeme_end(input, start, start);
        if !(start < end <= input.len()) {
            (Err(LexError { at: start as usize, character: input[start] }), start)
        } else {
            let token = token_at(input, start, end);
            if token.name == TokenName::Whitespace {
                next_from(input, end)
            } else {
                (Ok(Some(token)), end)
            }
        }
    }
}

/// The tokens of a text are its next token and the tokens after it.
pub proof fn lemma_tokens_from_next(input: Seq<char>, start: int)
    requires
        0 <= start <= input.len(),
    ensures
        tokens_from(input, start) == (match next_from(input, start) {
            (Err(error), _) => Err(error),
            (Ok(None), _) => Ok(Seq::empty()),
            (Ok(Some(token)), end) => after(seq![token], tokens_from(input, end)),
        }),
        next_from(input, start).0 matches Ok(Some(_)) ==> start < next_from(input, start).1
            <= input.len(),
    decreases input.len() - start,
{
    if start < input.len() {
        let end = lexeme_end(input, start, start);
        if start < end <= input.len() {
            let token = token_at(input, start, end);
            if token.name == TokenName::Whitespace {
                lemma_tokens_from_next(input, end);
            }
        }
    }
}

impl Lexer {
    /// The text that the tokenizer reads.
    pub closed spec fn text(&self) -> Seq<char> {
        self.chars@
    }

    /// The index of the character that the next token begins at or after.
    pub closed spec fn position(&self) -> int {
        self.pos as int
    }

    /// Whether the tokenizer stands between two lexemes, within its text.
    pub closed spec fn ready(&self) -> bool {
        &&& self.pos <= self.chars.len()
        &&& self.specs.well_formed()
        &&& self.specs.0@ == classifiers(Seq::empty())
    }

    /// A tokenizer at the start of a text.
    pub fn new(input: String) -> (lexer: Lexer)
        ensures
            lexer.ready(),
            lexer.text() == input@,
            lexer.position() == 0,
    {
        Lexer { chars: characters(input.as_str()), pos: 0, specs: Specs::new() }
    }

    /// The next token that is no whitespace; `None` at the end of the text.
    /// After an error the tokenizer stands at the character that begins no
    /// token.
    pub fn next(&mut self) -> (token: Result<Option<Token>, LexError>)
        requires
            old(self).ready(),
        ensures
            final(self).ready(),
            final(self).text() == old(self).text(),
            final(self).position() == next_from(old(self).text(), old(self).position()).1,
            match next_from(old(self).text(), old(self).position()).0 {
                Ok(Some(expected)) => token is Ok && token.unwrap() is Some
                    && token.unwrap().unwrap()@ == expected,
                Ok(None) => token is Ok && token.unwrap() is None,
                Err(error) => token == Err::<Option<Token>, LexError>(error),
            },
    {
        let n = self.chars.len();
        let mut start: usize = self.pos;
        assert(self.chars@.subrange(start as int, start as int) =~= Seq::<char>::empty());
        loop
            invariant
                start <= self.pos <= n == self.chars.len(),
                self.chars == old(self).chars,
                self.specs.well_formed(),
                self.specs.0@ == classifiers(self.chars@.subrange(start as int, self.pos as int)),
                self.pos > start ==> viable(self.chars@.subrange(start as int, self.pos as int)),
                lexeme_end(self.chars@, start as int, start as int) == lexeme_end(
                    self.chars@,
                    start as int,
                    self.pos as int,
                ),
                next_from(old(self).chars@, old(self).pos as int) == next_from(
                    self.chars@,
                    start as int,
                ),
            decreases 2 * (n - start) + (n - self.pos),
        {
            let pos = self.pos;
            let ghost buffer = self.chars@.subrange(start as int, pos as int);
            if pos == n {
                if start < pos {
                    let kind = self.specs.candidate().unwrap();
                    let token = Token::new(kind, text_between(&self.chars, start, pos), pos);
                    assert(lexeme_end(self.chars@, start as int, pos as int) == pos);
                    assert(token@ == token_at(self.chars@, start as int, pos as int));
                    self.specs.reset();
                    assert(self.specs.0@ =~= classifiers(Seq::empty()));
                    if kind != TokenName::Whitespace {
                        return Ok(Some(token));
                    }
                    assert(next_from(self.chars@, start as int) == next_from(
                        self.chars@,
                        pos as int,
                    ));
                } else {
                    assert(buffer =~= Seq::<char>::empty());
                }
                assert(next_from(self.chars@, pos as int) == (
                    Ok::<Option<TokenView>, LexError>(None),
                    pos as int,
                ));
                return Ok(None);
            }
            let c = self.chars[pos];
            proof {
                lemma_classifiers_step(buffer, c);
                assert(buffer.push(c) =~= self.chars@.subrange(start as int, pos + 1));
            }
            match self.specs.decide_on(c, &self.chars, start, pos) {
                Err(_) => {
                    proof {
                        lemma_first_accepted(classifiers(buffer), 0);
                        assert(start == pos);
                    }
                    self.specs.reset();
                    assert(self.specs.0@ =~= classifiers(Seq::empty()));
                    return Err(LexError { at: start, character: c });
                },
                Ok(None) => {
                    self.pos = pos + 1;
                },
                Ok(Some(spec)) => {
                    let kind = spec.token_name;
                    let token = Token::new(kind, text_between(&self.chars, start, pos), pos);
                    assert(lexeme_end(self.chars@, start as int, pos as int) == pos);
                    assert(token@ == token_at(self.chars@, start as int, pos as int));
                    self.specs.reset();
                    assert(self.specs.0@ =~= classifiers(Seq::empty()));
                    if kind != TokenName::Whitespace {
                        return Ok(Some(token));
                    }
                    start = pos;
                    assert(self.chars@.subrange(start as int, pos as int) =~= Seq::<char>::empty());
                },
            }
        }
    }
}

impl TokenStream {
    /// Tokenizes a source text.
    pub fn new(input: String) -> (stream: Result<TokenStream, LexError>)
        ensures
            match tokenize(input@) {
                Ok(tokens) => stream is Ok && stream.unwrap()@ == tokens,
                Err(error) => stream == Err::<TokenStream, LexError>(error),
            },
    {
        let mut lexer = Lexer::new(input);
        let mut tokens: Vec<Token> = Vec::new();
        assert(token_views(tokens@) =~= Seq::<TokenView>::empty());
        assert(after(token_views(tokens@), tokens_from(input@, 0)) =~= tokens_from(input@, 0)) by {
            match tokens_from(input@, 0) {
                Ok(rest) => {
                    assert(Seq::<TokenView>::empty() + rest =~= rest);
                },
                Err(_) => {},
            }
        }
        loop
            invariant_except_break
                lexer.ready(),
                lexer.text() == input@,
                0 <= lexer.position() <= input@.len(),
                tokenize(input@) == after(
                    token_views(tokens@),
                    tokens_from(input@, lexer.position()),
                ),
            ensures
                tokenize(input@) == Ok::<Seq<TokenView>, LexError>(token_views(tokens@)),
            decreases input@.len() - lexer.position(),
        {
            let ghost done = token_views(tokens@);
            let ghost start = lexer.position();
            proof {
                lemma_tokens_from_next(input@, start);
            }
            match lexer.next() {
                Err(error) => {
                    return Err(error);
                },
                Ok(None) => {
                    assert(done + Seq::<TokenView>::empty() =~= done);
                    break ;
                },
                Ok(Some(token)) => {
                    proof {
                        match tokens_from(input@, lexer.position()) {
                            Ok(more) => {
                                assert(done + (seq![token@] + more) =~= (done + seq![token@])
                                    + more);
                            },
                            Err(_) => {},
                        }
                    }
                    tokens.push(token);
                    assert(token_views(tokens@) =~= done + seq![token@]);
                },
            }
        }
        Ok(TokenStream { tokens })
    }

    /// A copy of the token of index `i`, if there is one.
    pub fn get(&self, i: usize) -> (token: Option<Token>)
        ensures
            match token {
                Some(token) => i < self@.len() && token@ == self@[i as int],
                None => i >= self@.len(),
            },
    {
        if i < self.tokens.len() {
            Some(self.tokens[i].clone())
        } else {
            None
        }
    }

    /// The number of tokens.
    pub fn len(&self) -> (n: usize)
        ensures
            n == self@.len(),
    {
        self.tokens.len()
    }

    /// Looks for the bracket that closes the one at `current_position`: the
    /// first token from there on after which as many `)` as `(` have been
    /// seen. Brackets of other shapes are not counted.
    pub fn search_idx_of_closed_bracer(&self, current_position: usize) -> (found: Option<usize>)
        ensures
            match found {
                Some(j) => {
                    &&& current_position <= j < self@.len()
                    &&& depth(self@, current_position as int, j as int) == 0
                    &&& forall|k: int|
                        current_position <= k < j ==> depth(self@, current_position as int, k) != 0
                    &&& closing_index(self@, current_position as int) == Some(j as int)
                },
                None => {
                    &&& forall|k: int|
                        current_position <= k < self@.len() ==> depth(
                            self@,
                            current_position as int,
                            k,
                        ) != 0
                    &&& closing_index(self@, current_position as int) is None
                },
            },
    {
        let mut counts: i128 = 0;
        let mut position: usize = current_position;
        while position < self.tokens.len()
            invariant
                current_position <= position,
                counts == depth(self@, current_position as int, position - 1),
                -(position - current_position) <= counts <= position - current_position,
                forall|k: int|
                    current_position <= k < position ==> depth(self@, current_position as int, k)
                        != 0,
                closing_index(self@, current_position as int) == closing_from(
                    self@,
                    current_position as int,
                    position as int,
                ),
            decreases self.tokens.len() - position,
        {
            let token = &self.tokens[position];
            assert(self@[position as int] == token@);
            if same_text(token.value.as_str(), "(") {
                counts += 1;
            } else if same_text(token.value.as_str(), ")") {
                counts -= 1;
            }
            if counts == 0 {
                return Some(position);
            }
            position += 1;
        }
        None
    }
}

} // verus!
