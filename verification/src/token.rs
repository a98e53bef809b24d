//! Lexical scanning: character classes, words, numbers and keywords.
//!
//! Every recogniser works at a position of the input and, where it matches,
//! also takes the whitespace that follows, so that the next one starts at the
//! first character of the next token.

use vstd::prelude::*;
use vstd::string::StrSliceExecFns;

verus! {

/// Why no value came out of a piece of text.
#[derive(Debug, Clone, Copy, PartialEq, Eq, Structural)]
pub enum ParseError {
    /// The text does not have the shape asked for.
    NoMatch,
    /// A run of digits and `.` was read as a number and is none, such as
    /// `1.2.3` or a lone `.`. This is fatal: no other reading is tried.
    MalformedNumber,
}

/// What a recogniser makes of the input at one position.
pub enum Parsed<T> {
    /// It matched `len` characters, trailing whitespace included.
    Match { value: T, len: nat },
    /// The input has another shape here.
    NoMatch,
    /// A malformed number was met on the way.
    Malformed,
}

/// The verdict of an executable recogniser that started at `pos`, held
/// against what the grammar says of that position.
pub open spec fn agrees<T: View>(
    got: Result<(T, usize), ParseError>,
    pos: usize,
    expected: Parsed<T::V>,
) -> bool {
    match expected {
        Parsed::Match { value, len } => got matches Ok((v, next)) && v@ == value && next == pos
            + len,
        Parsed::NoMatch => got == Err::<(T, usize), ParseError>(ParseError::NoMatch),
        Parsed::Malformed => got == Err::<(T, usize), ParseError>(ParseError::MalformedNumber),
    }
}

/// The token kinds.
#[derive(Debug, PartialEq)]
pub enum Token {
    EOF,
    Def,
    Extern,
    Identifier(String),
    /// A number, as the decimal literal it was written as.
    Number(String),
}

/// Mathematical value of a [`Token`].
pub enum TokenView {
    EOF,
    Def,
    Extern,
    Identifier(Seq<char>),
    Number(Seq<char>),
}

impl View for Token {
    type V = TokenView;

    open spec fn view(&self) -> TokenView {
        match self {
            Token::EOF => TokenView::EOF,
            Token::Def => TokenView::Def,
            Token::Extern => TokenView::Extern,
            Token::Identifier(name) => TokenView::Identifier(name@),
            Token::Number(literal) => TokenView::Number(literal@),
        }
    }
}

/// Whitespace: the space, and the control characters from tab to carriage
/// return (tab, line feed, vertical tab, form feed, carriage return).
pub open spec fn is_space(c: char) -> bool {
    c == ' ' || ('\t' <= c && c <= '\r')
}

/// A letter: `a` to `z` and `A` to `Z`.
pub open spec fn is_letter(c: char) -> bool {
    ('a' <= c && c <= 'z') || ('A' <= c && c <= 'Z')
}

/// A decimal digit: `0` to `9`.
pub open spec fn is_digit(c: char) -> bool {
    '0' <= c && c <= '9'
}

/// A letter or `_`: what an identifier starts with.
pub open spec fn is_ident_start(c: char) -> bool {
    is_letter(c) || c == '_'
}

/// A character class that a run is made of.
#[derive(Debug, Clone, Copy, PartialEq, Eq, Structural)]
pub enum Class {
    /// Whitespace.
    Space,
    /// Letters, digits and `_`.
    IdentPart,
    /// Digits and `.`.
    NumberPart,
}

impl Class {
    /// Whether `c` is of this class.
    pub open spec fn holds(self, c: char) -> bool {
        match self {
            Class::Space => is_space(c),
            Class::IdentPart => is_letter(c) || is_digit(c) || c == '_',
            Class::NumberPart => is_digit(c) || c == '.',
        }
    }

    /// Whether `c` is of this class.
    pub fn has(self, c: char) -> (b: bool)
        ensures
            b == self.holds(c),
    {
        match self {
            Class::Space => c == ' ' || ('\t' <= c && c <= '\r'),
            Class::IdentPart => ('a' <= c && c <= 'z') || ('A' <= c && c <= 'Z') || ('0' <= c && c
                <= '9') || c == '_',
            Class::NumberPart => ('0' <= c && c <= '9') || c == '.',
        }
    }
}

/// How many characters from `pos` on are of `class`, up to the first that is
/// not.
pub open spec fn run_len(s: Seq<char>, pos: nat, class: Class) -> nat
    decreases s.len() - pos,
{
    if pos < s.len() && class.holds(s[pos as int]) {
        1 + run_len(s, pos + 1, class)
    } else {
        0
    }
}

/// A run ends inside the input.
pub proof fn lemma_run_len_bound(s: Seq<char>, pos: nat, class: Class)
    requires
        pos <= s.len(),
    ensures
        pos + run_len(s, pos, class) <= s.len(),
    decreases s.len() - pos,
{
    if pos < s.len() && class.holds(s[pos as int]) {
        lemma_run_len_bound(s, pos + 1, class);
    }
}

/// A run is made of its class, and stops at the first character that is not.
pub proof fn lemma_run_len_chars(s: Seq<char>, pos: nat, class: Class)
    requires
        pos <= s.len(),
    ensures
        forall|i: int| pos <= i < pos + run_len(s, pos, class) ==> class.holds(#[trigger] s[i]),
        pos + run_len(s, pos, class) < s.len() ==> !class.holds(
            s[pos + run_len(s, pos, class) as int],
        ),
    decreases s.len() - pos,
{
    if pos < s.len() && class.holds(s[pos as int]) {
        lemma_run_len_chars(s, pos + 1, class);
    }
}

/// How many of the first `n` characters are `.`.
pub open spec fn dots(s: Seq<char>, n: int) -> nat
    decreases n,
{
    if n <= 0 || n > s.len() {
        0
    } else {
        dots(s, n - 1) + if s[n - 1] == '.' {
            1nat
        } else {
            0nat
        }
    }
}

/// How many of the first `n` characters are digits.
pub open spec fn digits(s: Seq<char>, n: int) -> nat
    decreases n,
{
    if n <= 0 || n > s.len() {
        0
    } else {
        digits(s, n - 1) + if is_digit(s[n - 1]) {
            1nat
        } else {
            0nat
        }
    }
}

/// A decimal literal: digits and `.` only, at most one `.`, at least one
/// digit. These are the runs of digits and `.` that denote a number.
pub open spec fn is_number_literal(s: Seq<char>) -> bool {
    &&& forall|i: int| 0 <= i < s.len() ==> Class::NumberPart.holds(#[trigger] s[i])
    &&& dots(s, s.len() as int) <= 1
    &&& digits(s, s.len() as int) >= 1
}

/// The input of a recogniser: a text, and its characters for access by
/// position.
pub struct Source<'a> {
    text: &'a str,
    chars: Vec<char>,
}

impl<'a> View for Source<'a> {
    type V = Seq<char>;

    closed spec fn view(&self) -> Seq<char> {
        self.chars@
    }
}

impl<'a> Source<'a> {
    #[verifier::type_invariant]
    spec fn well_formed(&self) -> bool {
        self.chars@ == self.text@
    }

    /// The input that holds the characters of `text`.
    pub fn new(text: &'a str) -> (src: Source<'a>)
        ensures
            src@ == text@,
    {
        let mut chars: Vec<char> = Vec::new();
        for c in it: text.chars()
            invariant
                chars@ == it.seq().take(it.index() as int),
        {
            chars.push(c);
        }
        assert(chars@ == text@);
        Source { text, chars }
    }

    /// Number of characters.
    pub fn len(&self) -> (n: usize)
        ensures
            n == self@.len(),
    {
        self.chars.len()
    }

    /// The character at `pos`.
    pub fn at(&self, pos: usize) -> (c: char)
        requires
            pos < self@.len(),
        ensures
            c == self@[pos as int],
    {
        self.chars[pos]
    }

    /// The characters from `from` up to `to`, as a string.
    pub fn slice(&self, from: usize, to: usize) -> (s: String)
        requires
            from <= to <= self@.len(),
        ensures
            s@ == self@.subrange(from as int, to as int),
    {
        proof {
            use_type_invariant(self);
        }
        self.text.substring_char(from, to).to_owned()
    }

    /// What is left of the text from `from` on.
    pub fn rest(&self, from: usize) -> (s: &'a str)
        requires
            from <= self@.len(),
        ensures
            s@ == self@.subrange(from as int, self@.len() as int),
    {
        proof {
            use_type_invariant(self);
        }
        self.text.substring_char(from, self.chars.len())
    }

    /// The end of the run of `class` that starts at `pos`: every character
    /// from `pos` up to it is of the class, and the one at it, if there is
    /// one, is not.
    pub fn scan(&self, pos: usize, class: Class) -> (end: usize)
        requires
            pos <= self@.len(),
        ensures
            end == pos + run_len(self@, pos as nat, class),
            pos <= end <= self@.len(),
            forall|i: int| pos <= i < end ==> class.holds(#[trigger] self@[i]),
            end < self@.len() ==> !class.holds(self@[end as int]),
    {
        proof {
            lemma_run_len_bound(self@, pos as nat, class);
            lemma_run_len_chars(self@, pos as nat, class);
        }
        let n = self.chars.len();
        let mut end = pos;
        while end < n && class.has(self.chars[end])
            invariant
                n == self@.len(),
                pos <= end <= n,
                pos + run_len(self@, pos as nat, class) == end + run_len(self@, end as nat, class),
            decreases n - end,
        {
            end += 1;
        }
        end
    }
}

/// Whether `text` is a decimal literal.
pub fn number_literal(text: &str) -> (b: bool)
    ensures
        b == is_number_literal(text@),
{
    let src = Source::new(text);
    let n = src.len();
    let mut i: usize = 0;
    let mut seen_dot = false;
    let mut seen_digit = false;
    while i < n
        invariant
            src@ == text@,
            n == src@.len(),
            i <= n,
            forall|j: int| 0 <= j < i ==> Class::NumberPart.holds(#[trigger] src@[j]),
            dots(src@, i as int) <= 1,
            seen_dot == (dots(src@, i as int) == 1),
            seen_digit == (digits(src@, i as int) >= 1),
        decreases n - i,
    {
        let c = src.at(i);
        if c == '.' {
            if seen_dot {
                proof {
                    assert(dots(src@, i as int + 1) == 2);
                    lemma_dots_grow(src@, i as int + 1, n as int);
                }
                return false;
            }
            seen_dot = true;
        } else if '0' <= c && c <= '9' {
            seen_digit = true;
        } else {
            assert(!Class::NumberPart.holds(src@[i as int]));
            return false;
        }
        i += 1;
    }
    seen_digit
}

/// Counting more characters finds no fewer dots.
pub proof fn lemma_dots_grow(s: Seq<char>, n: int, m: int)
    requires
        0 <= n <= m <= s.len(),
    ensures
        dots(s, n) <= dots(s, m),
    decreases m - n,
{
    if n < m {
        lemma_dots_grow(s, n, m - 1);
    }
}

/// How much of the input is left at `pos`: what the recognisers go down on.
pub open spec fn left(s: Seq<char>, pos: nat) -> nat {
    if pos < s.len() {
        (s.len() - pos) as nat
    } else {
        0
    }
}

/// `p` with `by` more characters taken before it.
pub open spec fn shifted<T>(p: Parsed<T>, by: nat) -> Parsed<T> {
    match p {
        Parsed::Match { value, len } => Parsed::Match { value, len: by + len },
        other => other,
    }
}

/// The whitespace at `pos`.
pub open spec fn spaces(s: Seq<char>, pos: nat) -> nat {
    run_len(s, pos, Class::Space)
}

/// The length of the word at `pos`: a letter or `_`, and the letters, digits
/// and `_` that follow it. It is 0 where no word starts.
pub open spec fn word_len(s: Seq<char>, pos: nat) -> nat {
    if pos < s.len() && is_ident_start(s[pos as int]) {
        1 + run_len(s, pos + 1, Class::IdentPart)
    } else {
        0
    }
}

/// The word at `pos`.
pub open spec fn word(s: Seq<char>, pos: nat) -> Seq<char> {
    s.subrange(pos as int, pos + word_len(s, pos) as int)
}

/// The reserved word that opens a function definition.
pub open spec fn kw_def() -> Seq<char> {
    seq!['d', 'e', 'f']
}

/// The reserved word that opens a forward declaration.
pub open spec fn kw_extern() -> Seq<char> {
    seq!['e', 'x', 't', 'e', 'r', 'n']
}

/// The word at `pos` is `keyword`: the characters taken, whitespace included.
pub open spec fn spec_keyword(s: Seq<char>, pos: nat, keyword: Seq<char>) -> Option<nat> {
    let n = word_len(s, pos);
    if n > 0 && word(s, pos) == keyword {
        Some(n + spaces(s, pos + n))
    } else {
        None
    }
}

/// An identifier at `pos`: a word that is not reserved.
pub open spec fn spec_ident(s: Seq<char>, pos: nat) -> Parsed<Seq<char>> {
    let n = word_len(s, pos);
    if n == 0 || word(s, pos) == kw_def() || word(s, pos) == kw_extern() {
        Parsed::NoMatch
    } else {
        Parsed::Match { value: word(s, pos), len: n + spaces(s, pos + n) }
    }
}

/// A number at `pos`: the whole run of digits and `.` that starts there,
/// which has to be a decimal literal.
pub open spec fn spec_number(s: Seq<char>, pos: nat) -> Parsed<Seq<char>> {
    let n = run_len(s, pos, Class::NumberPart);
    let literal = s.subrange(pos as int, pos + n as int);
    if n == 0 {
        Parsed::NoMatch
    } else if !is_number_literal(literal) {
        Parsed::Malformed
    } else {
        Parsed::Match { value: literal, len: n + spaces(s, pos + n) }
    }
}

/// The character `c` at `pos`: the characters taken, whitespace included.
pub open spec fn spec_symbol(s: Seq<char>, pos: nat, c: char) -> Option<nat> {
    if pos < s.len() && s[pos as int] == c {
        Some(1 + spaces(s, pos + 1))
    } else {
        None
    }
}

/// A word at `pos`, as a token: one of the two keywords, else an identifier.
pub open spec fn spec_words(s: Seq<char>, pos: nat) -> Parsed<TokenView> {
    match spec_keyword(s, pos, kw_def()) {
        Some(len) => Parsed::Match { value: TokenView::Def, len },
        None => match spec_keyword(s, pos, kw_extern()) {
            Some(len) => Parsed::Match { value: TokenView::Extern, len },
            None => match spec_ident(s, pos) {
                Parsed::Match { value, len } => Parsed::Match {
                    value: TokenView::Identifier(value),
                    len,
                },
                Parsed::NoMatch => Parsed::NoMatch,
                Parsed::Malformed => Parsed::Malformed,
            },
        },
    }
}

/// A number at `pos`, as a token.
pub open spec fn spec_number_token(s: Seq<char>, pos: nat) -> Parsed<TokenView> {
    match spec_number(s, pos) {
        Parsed::Match { value, len } => Parsed::Match { value: TokenView::Number(value), len },
        Parsed::NoMatch => Parsed::NoMatch,
        Parsed::Malformed => Parsed::Malformed,
    }
}

/// An identifier at `pos`, as a token.
pub open spec fn spec_ident_token(s: Seq<char>, pos: nat) -> Parsed<TokenView> {
    match spec_ident(s, pos) {
        Parsed::Match { value, len } => Parsed::Match { value: TokenView::Identifier(value), len },
        Parsed::NoMatch => Parsed::NoMatch,
        Parsed::Malformed => Parsed::Malformed,
    }
}

/// `tokens` in front of what `rest` holds.
pub open spec fn preceded(
    tokens: Seq<TokenView>,
    rest: Result<Seq<TokenView>, ParseError>,
) -> Result<Seq<TokenView>, ParseError> {
    match rest {
        Ok(more) => Ok(tokens + more),
        Err(e) => Err(e),
    }
}

/// The tokens from `pos` on, where a token starts or the input ends, with
/// `EOF` after the last. Numbers are tried before words. A character that
/// starts no token gives `NoMatch`.
pub open spec fn spec_tokens(s: Seq<char>, pos: nat) -> Result<Seq<TokenView>, ParseError>
    decreases left(s, pos),
{
    if pos >= s.len() {
        Ok(seq![TokenView::EOF])
    } else {
        match spec_number_token(s, pos) {
            Parsed::Match { value, len } => preceded(seq![value], spec_tokens(s, pos + len)),
            Parsed::Malformed => Err(ParseError::MalformedNumber),
            Parsed::NoMatch => match spec_words(s, pos) {
                Parsed::Match { value, len } => preceded(seq![value], spec_tokens(s, pos + len)),
                _ => Err(ParseError::NoMatch),
            },
        }
    }
}

/// Where an executable recogniser that started at `pos` says the next token
/// starts, held against the number of characters the grammar takes there.
pub open spec fn reached(next: Option<usize>, pos: usize, expected: Option<nat>) -> bool {
    match expected {
        Some(len) => next matches Some(p) && p == pos + len,
        None => next is None,
    }
}

/// What the text-level form of a recogniser returns, held against what the
/// grammar says of the start of `text`: the value, and the text after it.
pub open spec fn told<T: View>(
    got: Result<(T, &str), ParseError>,
    text: Seq<char>,
    expected: Parsed<T::V>,
) -> bool {
    match expected {
        Parsed::Match { value, len } => got matches Ok((v, rest)) && v@ == value && len
            <= text.len() && rest@ == text.subrange(len as int, text.len() as int),
        Parsed::NoMatch => got == Err::<(T, &str), ParseError>(ParseError::NoMatch),
        Parsed::Malformed => got == Err::<(T, &str), ParseError>(ParseError::MalformedNumber),
    }
}

impl<'a> Source<'a> {
    /// The end of the whitespace at `pos`.
    pub fn skip_spaces(&self, pos: usize) -> (end: usize)
        requires
            pos <= self@.len(),
        ensures
            end == pos + spaces(self@, pos as nat),
            end <= self@.len(),
    {
        self.scan(pos, Class::Space)
    }

    /// The end of the word at `pos`; `pos` itself where no word starts.
    pub fn word_end(&self, pos: usize) -> (end: usize)
        requires
            pos <= self@.len(),
        ensures
            end == pos + word_len(self@, pos as nat),
            end <= self@.len(),
    {
        if pos < self.len() {
            let c = self.at(pos);
            if ('a' <= c && c <= 'z') || ('A' <= c && c <= 'Z') || c == '_' {
                return self.scan(pos + 1, Class::IdentPart);
            }
        }
        pos
    }

    /// Whether the characters from `from` up to `to` are those of `word`.
    pub fn matches_word(&self, from: usize, to: usize, word: &str) -> (b: bool)
        requires
            from <= to <= self@.len(),
        ensures
            b == (self@.subrange(from as int, to as int) == word@),
    {
        let w = Source::new(word);
        if w.len() != to - from {
            return false;
        }
        let n = w.len();
        let mut i: usize = 0;
        while i < n
            invariant
                n == w@.len(),
                w@ == word@,
                n == to - from,
                from <= to <= self@.len(),
                i <= n,
                forall|j: int| 0 <= j < i ==> self@[from + j] == w@[j],
            decreases n - i,
        {
            if self.at(from + i) != w.at(i) {
                assert(self@.subrange(from as int, to as int)[i as int] != word@[i as int]);
                return false;
            }
            i += 1;
        }
        assert(self@.subrange(from as int, to as int) =~= word@);
        true
    }

    /// The keyword `keyword` at `pos`: where the next token starts.
    pub fn keyword(&self, pos: usize, keyword: &str) -> (next: Option<usize>)
        requires
            pos <= self@.len(),
        ensures
            next matches Some(p) ==> pos < p <= self@.len(),
            reached(next, pos, spec_keyword(self@, pos as nat, keyword@)),
    {
        let end = self.word_end(pos);
        if end > pos && self.matches_word(pos, end, keyword) {
            Some(self.skip_spaces(end))
        } else {
            None
        }
    }

    /// The identifier at `pos`, and where the next token starts.
    pub fn ident(&self, pos: usize) -> (r: Result<(String, usize), ParseError>)
        requires
            pos <= self@.len(),
        ensures
            agrees(r, pos, spec_ident(self@, pos as nat)),
            r matches Ok((_, next)) ==> pos < next <= self@.len(),
    {
        let end = self.word_end(pos);
        proof {
            reveal_strlit("def");
            reveal_strlit("extern");
            assert("def"@ =~= kw_def());
            assert("extern"@ =~= kw_extern());
        }
        if end == pos || self.matches_word(pos, end, "def") || self.matches_word(
            pos,
            end,
            "extern",
        ) {
            Err(ParseError::NoMatch)
        } else {
            Ok((self.slice(pos, end), self.skip_spaces(end)))
        }
    }

    /// The number at `pos`, as its literal, and where the next token starts.
    pub fn number(&self, pos: usize) -> (r: Result<(String, usize), ParseError>)
        requires
            pos <= self@.len(),
        ensures
            agrees(r, pos, spec_number(self@, pos as nat)),
            r matches Ok((literal, next)) ==> pos < next <= self@.len() && is_number_literal(
                literal@,
            ),
    {
        let end = self.scan(pos, Class::NumberPart);
        if end == pos {
            return Err(ParseError::NoMatch);
        }
        let literal = self.slice(pos, end);
        if !number_literal(literal.as_str()) {
            return Err(ParseError::MalformedNumber);
        }
        Ok((literal, self.skip_spaces(end)))
    }

    /// The character `c` at `pos`: where the next token starts.
    pub fn symbol(&self, pos: usize, c: char) -> (next: Option<usize>)
        requires
            pos <= self@.len(),
        ensures
            next matches Some(p) ==> pos < p <= self@.len(),
            reached(next, pos, spec_symbol(self@, pos as nat, c)),
    {
        if pos < self.len() && self.at(pos) == c {
            Some(self.skip_spaces(pos + 1))
        } else {
            None
        }
    }

    /// The word at `pos` as a token, and where the next token starts.
    pub fn words(&self, pos: usize) -> (r: Result<(Token, usize), ParseError>)
        requires
            pos <= self@.len(),
        ensures
            agrees(r, pos, spec_words(self@, pos as nat)),
            r matches Ok((_, next)) ==> pos < next <= self@.len(),
    {
        proof {
            reveal_strlit("def");
            reveal_strlit("extern");
            assert("def"@ =~= kw_def());
            assert("extern"@ =~= kw_extern());
        }
        if let Some(next) = self.keyword(pos, "def") {
            return Ok((Token::Def, next));
        }
        if let Some(next) = self.keyword(pos, "extern") {
            return Ok((Token::Extern, next));
        }
        match self.ident(pos) {
            Ok((name, next)) => Ok((Token::Identifier(name), next)),
            Err(e) => Err(e),
        }
    }

    /// What `r` says, with the position given as the text that is left.
    pub fn told<T: View>(&self, r: Result<(T, usize), ParseError>) -> (t: Result<
        (T, &'a str),
        ParseError,
    >)
        requires
            r matches Ok((_, next)) ==> next <= self@.len(),
        ensures
            match r {
                Ok((v, next)) => t matches Ok((w, rest)) && w == v && rest@ == self@.subrange(
                    next as int,
                    self@.len() as int,
                ),
                Err(e) => t == Err::<(T, &str), ParseError>(e),
            },
    {
        match r {
            Ok((v, next)) => Ok((v, self.rest(next))),
            Err(e) => Err(e),
        }
    }
}

/// The number at the start of `text`, and the text after it and the
/// whitespace that follows it.
pub fn number(text: &str) -> (r: Result<(Token, &str), ParseError>)
    ensures
        told(r, text@, spec_number_token(text@, 0)),
{
    let src = Source::new(text);
    let r = match src.number(0) {
        Ok((literal, next)) => Ok((Token::Number(literal), next)),
        Err(e) => Err(e),
    };
    src.told(r)
}

/// The identifier at the start of `text`, and the text after it and the
/// whitespace that follows it. `def` and `extern` are no identifiers.
pub fn identifier(text: &str) -> (r: Result<(Token, &str), ParseError>)
    ensures
        told(r, text@, spec_ident_token(text@, 0)),
{
    let src = Source::new(text);
    let r = match src.ident(0) {
        Ok((name, next)) => Ok((Token::Identifier(name), next)),
        Err(e) => Err(e),
    };
    src.told(r)
}

/// The same as [`identifier`].
pub fn ident(text: &str) -> (r: Result<(Token, &str), ParseError>)
    ensures
        told(r, text@, spec_ident_token(text@, 0)),
{
    identifier(text)
}

/// The keyword `def` at the start of `text`.
pub fn def(text: &str) -> (r: Result<(Token, &str), ParseError>)
    ensures
        told(
            r,
            text@,
            match spec_keyword(text@, 0, kw_def()) {
                Some(len) => Parsed::Match { value: TokenView::Def, len },
                None => Parsed::NoMatch,
            },
        ),
{
    proof {
        reveal_strlit("def");
        assert("def"@ =~= kw_def());
    }
    let src = Source::new(text);
    let r = match src.keyword(0, "def") {
        Some(next) => Ok((Token::Def, next)),
        None => Err(ParseError::NoMatch),
    };
    src.told(r)
}

/// The keyword `extern` at the start of `text`.
pub fn extern_(text: &str) -> (r: Result<(Token, &str), ParseError>)
    ensures
        told(
            r,
            text@,
            match spec_keyword(text@, 0, kw_extern()) {
                Some(len) => Parsed::Match { value: TokenView::Extern, len },
                None => Parsed::NoMatch,
            },
        ),
{
    proof {
        reveal_strlit("extern");
        assert("extern"@ =~= kw_extern());
    }
    let src = Source::new(text);
    let r = match src.keyword(0, "extern") {
        Some(next) => Ok((Token::Extern, next)),
        None => Err(ParseError::NoMatch),
    };
    src.told(r)
}

/// The word at the start of `text`, as a token.
pub fn words(text: &str) -> (r: Result<(Token, &str), ParseError>)
    ensures
        told(r, text@, spec_words(text@, 0)),
{
    let src = Source::new(text);
    let r = src.words(0);
    src.told(r)
}

/// The values of a list of tokens.
pub open spec fn tokens_view(tokens: Seq<Token>) -> Seq<TokenView> {
    Seq::new(tokens.len(), |i: int| tokens[i]@)
}

/// The tokens of `text`, with `EOF` after the last. Whitespace between
/// tokens, before the first and after the last is skipped.
pub fn parse(text: &str) -> (r: Result<Vec<Token>, ParseError>)
    ensures
        match spec_tokens(text@, spaces(text@, 0)) {
            Ok(tokens) => r matches Ok(v) && tokens_view(v@) == tokens,
            Err(e) => r == Err::<Vec<Token>, ParseError>(e),
        },
{
    let src = Source::new(text);
    let n = src.len();
    let mut tokens: Vec<Token> = Vec::new();
    let mut cur = src.skip_spaces(0);
    let ghost start = cur as nat;
    assert(tokens_view(tokens@) =~= Seq::<TokenView>::empty());
    assert(preceded(tokens_view(tokens@), spec_tokens(src@, cur as nat)) == spec_tokens(
        src@,
        start,
    )) by {
        match spec_tokens(src@, start) {
            Ok(more) => {
                assert(Seq::<TokenView>::empty() + more =~= more);
            },
            Err(_) => {},
        }
    }
    while cur < n
        invariant
            src@ == text@,
            n == src@.len(),
            cur <= n,
            start == spaces(text@, 0),
            preceded(tokens_view(tokens@), spec_tokens(src@, cur as nat)) == spec_tokens(
                src@,
                start,
            ),
        decreases n - cur,
    {
        let ghost before = tokens_view(tokens@);
        let (token, next) = match src.number(cur) {
            Ok((literal, next)) => (Token::Number(literal), next),
            Err(ParseError::MalformedNumber) => {
                return Err(ParseError::MalformedNumber);
            },
            Err(ParseError::NoMatch) => match src.words(cur) {
                Ok(found) => found,
                Err(_) => {
                    return Err(ParseError::NoMatch);
                },
            },
        };
        tokens.push(token);
        proof {
            assert(tokens_view(tokens@) =~= before.push(token@));
            match spec_tokens(src@, next as nat) {
                Ok(more) => {
                    assert(before + (seq![token@] + more) =~= before.push(token@) + more);
                },
                Err(_) => {},
            }
        }
        cur = next;
    }
    tokens.push(Token::EOF);
    proof {
        let before = tokens_view(tokens@).drop_last();
        assert(tokens_view(tokens@) =~= before + seq![TokenView::EOF]);
    }
    Ok(tokens)
}

} // verus!
