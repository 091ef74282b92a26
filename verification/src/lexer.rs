use vstd::prelude::*;
use vstd::std_specs::iter::IteratorSpec;

verus! {

/// A lexical unit. A number holds the decimal digits of its literal, most
/// significant first, each between 0 and 9, with the grouping separators left
/// out.
#[derive(Debug, PartialEq, Clone)]
pub enum Token {
    VariableKeyword,
    IfKeyword,
    ElseKeyword,
    ThenKeyword,
    True,
    False,
    Identifier(String),
    Number(Vec<u8>),
    String(String),
    Plus,
    Minus,
    Multiply,
    Divide,
    LT,
    GT,
    LTE,
    GTE,
    EQ,
    NEQ,
    LeftParen,
    RightParen,
    Equals,
    Dot,
}

/// The mathematical model of a token.
pub enum Lexeme {
    VariableKeyword,
    IfKeyword,
    ElseKeyword,
    ThenKeyword,
    True,
    False,
    Identifier(Seq<char>),
    Number(Seq<u8>),
    String(Seq<char>),
    Plus,
    Minus,
    Multiply,
    Divide,
    LT,
    GT,
    LTE,
    GTE,
    EQ,
    NEQ,
    LeftParen,
    RightParen,
    Equals,
    Dot,
}

impl View for Token {
    type V = Lexeme;

    open spec fn view(&self) -> Lexeme {
        match self {
            Token::VariableKeyword => Lexeme::VariableKeyword,
            Token::IfKeyword => Lexeme::IfKeyword,
            Token::ElseKeyword => Lexeme::ElseKeyword,
            Token::ThenKeyword => Lexeme::ThenKeyword,
            Token::True => Lexeme::True,
            Token::False => Lexeme::False,
            Token::Identifier(name) => Lexeme::Identifier(name@),
            Token::Number(digits) => Lexeme::Number(digits@),
            Token::String(text) => Lexeme::String(text@),
            Token::Plus => Lexeme::Plus,
            Token::Minus => Lexeme::Minus,
            Token::Multiply => Lexeme::Multiply,
            Token::Divide => Lexeme::Divide,
            Token::LT => Lexeme::LT,
            Token::GT => Lexeme::GT,
            Token::LTE => Lexeme::LTE,
            Token::GTE => Lexeme::GTE,
            Token::EQ => Lexeme::EQ,
            Token::NEQ => Lexeme::NEQ,
            Token::LeftParen => Lexeme::LeftParen,
            Token::RightParen => Lexeme::RightParen,
            Token::Equals => Lexeme::Equals,
            Token::Dot => Lexeme::Dot,
        }
    }
}

/// The models of a sequence of tokens, in order.
pub open spec fn lexemes(tokens: Seq<Token>) -> Seq<Lexeme> {
    Seq::new(tokens.len(), |i: int| tokens[i]@)
}

/// Whether a character has Unicode's White_Space property.
pub uninterp spec fn white_space(c: char) -> bool;

/// `char::is_whitespace` of the standard library: whether the character has
/// the White_Space property. The answer depends on the character alone.
#[verifier::external_body]
fn is_whitespace(c: char) -> (blank: bool)
    ensures
        blank == white_space(c),
{
    c.is_whitespace()
}

/// `String::push` of the standard library: the character is appended to the
/// text, which is otherwise unchanged.
#[verifier::external_body]
fn push_char(text: &mut String, c: char)
    ensures
        final(text)@ == old(text)@.push(c),
{
    text.push(c)
}

/// A digit of the numeral alphabet, U+0660 to U+0669.
pub open spec fn is_digit(c: char) -> bool {
    0x660 <= c as u32 <= 0x669
}

/// The number that a digit of the numeral alphabet stands for.
pub open spec fn digit_value(c: char) -> u8 {
    (c as u32 - 0x660) as u8
}

/// A character of a number literal: a digit or the grouping separator.
pub open spec fn in_numeral(c: char) -> bool {
    is_digit(c) || c == ','
}

/// A letter of the alphabet, U+0627 to U+064A, or one of the three
/// additional forms U+0622, U+0623 and U+0625.
pub open spec fn is_letter(c: char) -> bool {
    0x627 <= c as u32 <= 0x64A || c as u32 == 0x622 || c as u32 == 0x623 || c as u32 == 0x625
}

/// The token that a single character stands for, if it does.
pub open spec fn punctuation(c: char) -> Option<Lexeme> {
    if c == '+' {
        Some(Lexeme::Plus)
    } else if c == '-' {
        Some(Lexeme::Minus)
    } else if c == '*' {
        Some(Lexeme::Multiply)
    } else if c == '/' {
        Some(Lexeme::Divide)
    } else if c == '<' || c == '>' {
        Some(Lexeme::LT)
    } else if c == '(' {
        Some(Lexeme::LeftParen)
    } else if c == ')' {
        Some(Lexeme::RightParen)
    } else if c == '=' {
        Some(Lexeme::Equals)
    } else if c == '.' {
        Some(Lexeme::Dot)
    } else {
        None
    }
}

/// The digits of a number literal, in order, without the separators.
pub open spec fn digits_in(text: Seq<char>) -> Seq<u8>
    decreases text.len(),
{
    if text.len() == 0 {
        Seq::empty()
    } else if is_digit(text.last()) {
        digits_in(text.drop_last()).push(digit_value(text.last()))
    } else {
        digits_in(text.drop_last())
    }
}

/// The number that a literal's text denotes: each digit counts ten times as
/// much as the digit behind it, and a separator counts for nothing.
pub open spec fn numeral_value(text: Seq<char>) -> nat
    decreases text.len(),
{
    if text.len() == 0 {
        0
    } else if is_digit(text.last()) {
        10 * numeral_value(text.drop_last()) + digit_value(text.last()) as nat
    } else {
        numeral_value(text.drop_last())
    }
}

/// The number that a sequence of digits denotes, most significant first.
pub open spec fn place_value(digits: Seq<u8>) -> nat
    decreases digits.len(),
{
    if digits.len() == 0 {
        0
    } else {
        10 * place_value(digits.drop_last()) + digits.last() as nat
    }
}

/// The digits that the lexer keeps of a number literal denote the
/// place-value sum of the literal's digits, whatever separators stand among
/// them, and each of them is at most 9.
pub proof fn numeral_value_ignores_separators(text: Seq<char>)
    ensures
        place_value(digits_in(text)) == numeral_value(text),
        forall|i: int| 0 <= i < digits_in(text).len() ==> digits_in(text)[i] <= 9,
    decreases text.len(),
{
    if text.len() > 0 {
        numeral_value_ignores_separators(text.drop_last());
        if is_digit(text.last()) {
            assert(digits_in(text).drop_last() =~= digits_in(text.drop_last()));
        }
    }
}

/// The first position from `pos` on that holds no whitespace.
pub open spec fn after_whitespace(chars: Seq<char>, pos: int) -> int
    decreases chars.len() - pos,
{
    if 0 <= pos < chars.len() && white_space(chars[pos]) {
        after_whitespace(chars, pos + 1)
    } else {
        pos
    }
}

/// The first position from `pos` on that holds no character of a number.
pub open spec fn numeral_end(chars: Seq<char>, pos: int) -> int
    decreases chars.len() - pos,
{
    if 0 <= pos < chars.len() && in_numeral(chars[pos]) {
        numeral_end(chars, pos + 1)
    } else {
        pos
    }
}

/// The first position from `pos` on that holds no letter.
pub open spec fn word_end(chars: Seq<char>, pos: int) -> int
    decreases chars.len() - pos,
{
    if 0 <= pos < chars.len() && is_letter(chars[pos]) {
        word_end(chars, pos + 1)
    } else {
        pos
    }
}

/// The text of a string literal whose opening quote stands before `pos`, and
/// the position behind it. A backslash makes the next character part of the
/// text, whatever it is; the literal ends at the first quote that no
/// backslash precedes, or at the end of the input.
pub open spec fn string_scan(chars: Seq<char>, pos: int, escaped: bool, text: Seq<char>) -> (Seq<char>, int)
    decreases chars.len() - pos,
{
    if !(0 <= pos < chars.len()) {
        (text, pos)
    } else if escaped {
        string_scan(chars, pos + 1, false, text.push(chars[pos]))
    } else if chars[pos] == '"' {
        (text, pos + 1)
    } else if chars[pos] == '\\' {
        string_scan(chars, pos + 1, true, text)
    } else {
        string_scan(chars, pos + 1, false, text.push(chars[pos]))
    }
}

/// The keyword that opens a declaration.
pub open spec fn variable_keyword() -> Seq<char> {
    seq!['\u{645}', '\u{62A}', '\u{63A}', '\u{64A}', '\u{631}']
}

/// The keyword that opens an if-statement.
pub open spec fn if_keyword() -> Seq<char> {
    seq!['\u{644}', '\u{648}']
}

/// The keyword between a condition and its then-branch.
pub open spec fn then_keyword() -> Seq<char> {
    seq!['\u{641}']
}

/// The keyword that opens an else-branch.
pub open spec fn else_keyword() -> Seq<char> {
    seq!['\u{648}', '\u{625}', '\u{644}', '\u{627}']
}

/// The literal for truth.
pub open spec fn true_keyword() -> Seq<char> {
    seq!['\u{646}', '\u{639}', '\u{645}']
}

/// The literal for falsehood.
pub open spec fn false_keyword() -> Seq<char> {
    seq!['\u{644}', '\u{627}']
}

/// The token that a run of letters stands for: a keyword, or else an
/// identifier of that name.
pub open spec fn word_lexeme(word: Seq<char>) -> Lexeme {
    if word == variable_keyword() {
        Lexeme::VariableKeyword
    } else if word == if_keyword() {
        Lexeme::IfKeyword
    } else if word == then_keyword() {
        Lexeme::ThenKeyword
    } else if word == else_keyword() {
        Lexeme::ElseKeyword
    } else if word == true_keyword() {
        Lexeme::True
    } else if word == false_keyword() {
        Lexeme::False
    } else {
        Lexeme::Identifier(word)
    }
}

/// The first token from `pos` on and the position behind it, or `None` where
/// none is left. Whitespace is skipped, and so is any character with which no
/// token starts.
pub open spec fn next_lexeme(chars: Seq<char>, pos: int) -> Option<(Lexeme, int)>
    decreases chars.len() - pos,
{
    let start = after_whitespace(chars, pos);
    if !(0 <= pos <= start < chars.len()) {
        None
    } else {
        let c = chars[start];
        if punctuation(c) is Some {
            Some((punctuation(c)->0, start + 1))
        } else if c == '"' {
            Some(
                (
                    Lexeme::String(string_scan(chars, start + 1, false, Seq::empty()).0),
                    string_scan(chars, start + 1, false, Seq::empty()).1,
                ),
            )
        } else if is_digit(c) {
            let end = numeral_end(chars, start + 1);
            Some((Lexeme::Number(digits_in(chars.subrange(start, end))), end))
        } else if is_letter(c) {
            let end = word_end(chars, start + 1);
            Some((word_lexeme(chars.subrange(start, end)), end))
        } else {
            next_lexeme(chars, start + 1)
        }
    }
}

/// The tokens from `pos` on, behind those in `done`.
pub open spec fn scan(chars: Seq<char>, done: Seq<Lexeme>, pos: int) -> Seq<Lexeme>
    decreases chars.len() - pos,
{
    match next_lexeme(chars, pos) {
        None => done,
        Some((lexeme, end)) => if pos < end <= chars.len() {
            scan(chars, done.push(lexeme), end)
        } else {
            done
        },
    }
}

/// The tokens of a source text.
pub open spec fn tokens_of(source: Seq<char>) -> Seq<Lexeme> {
    scan(source, Seq::empty(), 0)
}

proof fn lemma_numeral_end(chars: Seq<char>, pos: int)
    requires
        0 <= pos <= chars.len(),
    ensures
        pos <= numeral_end(chars, pos) <= chars.len(),
    decreases chars.len() - pos,
{
    if pos < chars.len() && in_numeral(chars[pos]) {
        lemma_numeral_end(chars, pos + 1);
    }
}

proof fn lemma_word_end(chars: Seq<char>, pos: int)
    requires
        0 <= pos <= chars.len(),
    ensures
        pos <= word_end(chars, pos) <= chars.len(),
    decreases chars.len() - pos,
{
    if pos < chars.len() && is_letter(chars[pos]) {
        lemma_word_end(chars, pos + 1);
    }
}

proof fn lemma_string_end(chars: Seq<char>, pos: int, escaped: bool, text: Seq<char>)
    requires
        0 <= pos <= chars.len(),
    ensures
        pos <= string_scan(chars, pos, escaped, text).1 <= chars.len(),
    decreases chars.len() - pos,
{
    if pos < chars.len() {
        if escaped {
            lemma_string_end(chars, pos + 1, false, text.push(chars[pos]));
        } else if chars[pos] == '"' {
        } else if chars[pos] == '\\' {
            lemma_string_end(chars, pos + 1, true, text);
        } else {
            lemma_string_end(chars, pos + 1, false, text.push(chars[pos]));
        }
    }
}

/// A token takes at least one character and ends within the text. So the
/// tokens of a text are all of its tokens, up to its end.
pub proof fn token_advances(chars: Seq<char>, pos: int)
    ensures
        match next_lexeme(chars, pos) {
            Some((_, end)) => pos < end <= chars.len(),
            None => true,
        },
    decreases chars.len() - pos,
{
    let start = after_whitespace(chars, pos);
    if 0 <= pos <= start < chars.len() {
        let c = chars[start];
        if punctuation(c) is Some {
        } else if c == '"' {
            lemma_string_end(chars, start + 1, false, Seq::empty());
        } else if is_digit(c) {
            lemma_numeral_end(chars, start + 1);
        } else if is_letter(c) {
            lemma_word_end(chars, start + 1);
        } else {
            token_advances(chars, start + 1);
        }
    }
}

/// Whether two words are the same.
fn same_word(word: &Vec<char>, other: Vec<char>) -> (same: bool)
    ensures
        same == (word@ == other@),
{
    if word.len() != other.len() {
        return false;
    }
    let mut i: usize = 0;
    while i < word.len()
        invariant
            word.len() == other.len(),
            i <= word.len(),
            word@.take(i as int) == other@.take(i as int),
        decreases word.len() - i,
    {
        if word[i] != other[i] {
            return false;
        }
        proof {
            assert(word@.take(i + 1) =~= word@.take(i as int).push(word@[i as int]));
            assert(other@.take(i + 1) =~= other@.take(i as int).push(other@[i as int]));
        }
        i += 1;
    }
    proof {
        assert(word@.take(i as int) =~= word@);
        assert(other@.take(i as int) =~= other@);
    }
    true
}

/// A scanner over the characters of a source text.
pub struct Lexer {
    pub chars: Vec<char>,
    pub pos: usize,
}

impl Lexer {
    /// The next character, if any, lies within the text.
    pub open spec fn wf(&self) -> bool {
        self.pos <= self.chars.len()
    }

    /// A scanner at the first character of the input.
    pub fn new(input: &str) -> (lexer: Lexer)
        ensures
            lexer.chars@ == input@,
            lexer.pos == 0,
            lexer.wf(),
    {
        let mut rest = input.chars();
        let mut chars: Vec<char> = Vec::new();
        loop
            invariant
                rest.obeys_prophetic_iter_laws(),
                rest.decrease() is Some,
                chars@ + rest.remaining() =~= input@,
            ensures
                chars@ == input@,
            decreases rest.decrease()->0,
        {
            match rest.next() {
                Some(c) => {
                    chars.push(c);
                },
                None => {
                    proof {
                        assert(chars@ =~= input@);
                    }
                    break ;
                },
            }
        }
        Lexer { chars, pos: 0 }
    }

    /// The next token, or `None` at the end of the input.
    pub fn next_token(&mut self) -> (token: Option<Token>)
        requires
            old(self).wf(),
        ensures
            final(self).wf(),
            final(self).chars == old(self).chars,
            final(self).pos >= old(self).pos,
            match next_lexeme(old(self).chars@, old(self).pos as int) {
                None => token is None,
                Some((lexeme, end)) => token is Some && token->0@ == lexeme && final(self).pos == end && old(
                    self,
                ).pos < end,
            },
    {
        loop
            invariant
                self.wf(),
                self.chars == old(self).chars,
                self.pos >= old(self).pos,
                next_lexeme(self.chars@, self.pos as int) == next_lexeme(old(self).chars@, old(self).pos as int),
            decreases self.chars.len() - self.pos,
        {
            self.skip_whitespace();
            if self.pos >= self.chars.len() {
                return None;
            }
            let ghost start = self.pos as int;
            let ch = self.chars[self.pos];
            self.pos += 1;
            if ch == '+' {
                return Some(Token::Plus);
            } else if ch == '-' {
                return Some(Token::Minus);
            } else if ch == '*' {
                return Some(Token::Multiply);
            } else if ch == '/' {
                return Some(Token::Divide);
            } else if ch == '<' || ch == '>' {
                return Some(Token::LT);
            } else if ch == '(' {
                return Some(Token::LeftParen);
            } else if ch == ')' {
                return Some(Token::RightParen);
            } else if ch == '=' {
                return Some(Token::Equals);
            } else if ch == '.' {
                return Some(Token::Dot);
            } else if ch == '"' {
                return Some(self.read_string());
            } else if digit(ch) {
                let token = self.read_number(ch);
                proof {
                    assert(seq![ch] + self.chars@.subrange(start + 1, self.pos as int) =~= self.chars@.subrange(
                        start,
                        self.pos as int,
                    ));
                }
                return Some(token);
            } else if letter(ch) {
                let token = self.read_identifier_or_keyword(ch);
                proof {
                    assert(seq![ch] + self.chars@.subrange(start + 1, self.pos as int) =~= self.chars@.subrange(
                        start,
                        self.pos as int,
                    ));
                }
                return Some(token);
            }
        }
    }

    /// Moves to the first character that is no whitespace.
    pub fn skip_whitespace(&mut self)
        requires
            old(self).wf(),
        ensures
            final(self).wf(),
            final(self).chars == old(self).chars,
            final(self).pos >= old(self).pos,
            final(self).pos == after_whitespace(old(self).chars@, old(self).pos as int),
    {
        while self.pos < self.chars.len() && is_whitespace(self.chars[self.pos])
            invariant
                self.wf(),
                self.chars == old(self).chars,
                self.pos >= old(self).pos,
                after_whitespace(self.chars@, self.pos as int) == after_whitespace(
                    old(self).chars@,
                    old(self).pos as int,
                ),
            decreases self.chars.len() - self.pos,
        {
            self.pos += 1;
        }
    }

    /// Reads the rest of a number literal whose first digit was taken: the
    /// digits and separators that follow.
    pub fn read_number(&mut self, first_digit: char) -> (token: Token)
        requires
            old(self).wf(),
            is_digit(first_digit),
        ensures
            final(self).wf(),
            final(self).chars == old(self).chars,
            final(self).pos == numeral_end(old(self).chars@, old(self).pos as int),
            final(self).pos >= old(self).pos,
            token@ == Lexeme::Number(
                digits_in(seq![first_digit] + old(self).chars@.subrange(old(self).pos as int, final(self).pos as int)),
            ),
    {
        let mut digits: Vec<u8> = Vec::new();
        digits.push(digit_of(first_digit));
        proof {
            let first = seq![first_digit] + self.chars@.subrange(self.pos as int, self.pos as int);
            assert(first.drop_last() =~= Seq::<char>::empty());
            assert(digits_in(first.drop_last()) =~= Seq::<u8>::empty());
            assert(digits@ =~= digits_in(first));
        }
        while self.pos < self.chars.len() && (digit(self.chars[self.pos]) || self.chars[self.pos] == ',')
            invariant
                self.wf(),
                self.chars == old(self).chars,
                self.pos >= old(self).pos,
                numeral_end(self.chars@, self.pos as int) == numeral_end(old(self).chars@, old(self).pos as int),
                digits@ == digits_in(
                    seq![first_digit] + self.chars@.subrange(old(self).pos as int, self.pos as int),
                ),
            decreases self.chars.len() - self.pos,
        {
            let ch = self.chars[self.pos];
            proof {
                let longer = seq![first_digit] + self.chars@.subrange(old(self).pos as int, self.pos + 1);
                assert(longer.drop_last() =~= seq![first_digit] + self.chars@.subrange(
                    old(self).pos as int,
                    self.pos as int,
                ));
                assert(longer.last() == ch);
            }
            if digit(ch) {
                digits.push(digit_of(ch));
            }
            self.pos += 1;
        }
        Token::Number(digits)
    }

    /// Reads a string literal whose opening quote was taken.
    pub fn read_string(&mut self) -> (token: Token)
        requires
            old(self).wf(),
        ensures
            final(self).wf(),
            final(self).chars == old(self).chars,
            final(self).pos >= old(self).pos,
            token@ == Lexeme::String(string_scan(old(self).chars@, old(self).pos as int, false, Seq::empty()).0),
            final(self).pos == string_scan(old(self).chars@, old(self).pos as int, false, Seq::empty()).1,
    {
        let mut string = String::new();
        let mut escaped = false;
        while self.pos < self.chars.len()
            invariant
                self.wf(),
                self.chars == old(self).chars,
                self.pos >= old(self).pos,
                string_scan(self.chars@, self.pos as int, escaped, string@) == string_scan(
                    old(self).chars@,
                    old(self).pos as int,
                    false,
                    Seq::empty(),
                ),
            decreases self.chars.len() - self.pos,
        {
            let ch = self.chars[self.pos];
            self.pos += 1;
            if escaped {
                push_char(&mut string, ch);
                escaped = false;
            } else if ch == '"' {
                return Token::String(string);
            } else if ch == '\\' {
                escaped = true;
            } else {
                push_char(&mut string, ch);
            }
        }
        Token::String(string)
    }

    /// Reads the rest of a word whose first letter was taken, and tells a
    /// keyword from an identifier.
    pub fn read_identifier_or_keyword(&mut self, first_char: char) -> (token: Token)
        requires
            old(self).wf(),
        ensures
            final(self).wf(),
            final(self).chars == old(self).chars,
            final(self).pos == word_end(old(self).chars@, old(self).pos as int),
            final(self).pos >= old(self).pos,
            token@ == word_lexeme(
                seq![first_char] + old(self).chars@.subrange(old(self).pos as int, final(self).pos as int),
            ),
    {
        let mut word: Vec<char> = Vec::new();
        let mut identifier = String::new();
        word.push(first_char);
        push_char(&mut identifier, first_char);
        proof {
            assert(word@ =~= seq![first_char] + self.chars@.subrange(self.pos as int, self.pos as int));
        }
        while self.pos < self.chars.len() && letter(self.chars[self.pos])
            invariant
                self.wf(),
                self.chars == old(self).chars,
                self.pos >= old(self).pos,
                word_end(self.chars@, self.pos as int) == word_end(old(self).chars@, old(self).pos as int),
                word@ == seq![first_char] + self.chars@.subrange(old(self).pos as int, self.pos as int),
                identifier@ == word@,
            decreases self.chars.len() - self.pos,
        {
            let ch = self.chars[self.pos];
            word.push(ch);
            push_char(&mut identifier, ch);
            proof {
                assert(word@ =~= seq![first_char] + self.chars@.subrange(old(self).pos as int, self.pos + 1));
            }
            self.pos += 1;
        }
        let variable = vec!['\u{645}', '\u{62A}', '\u{63A}', '\u{64A}', '\u{631}'];
        let conditional = vec!['\u{644}', '\u{648}'];
        let consequence = vec!['\u{641}'];
        let otherwise = vec!['\u{648}', '\u{625}', '\u{644}', '\u{627}'];
        let yes = vec!['\u{646}', '\u{639}', '\u{645}'];
        let no = vec!['\u{644}', '\u{627}'];
        proof {
            assert(variable@ =~= variable_keyword());
            assert(conditional@ =~= if_keyword());
            assert(consequence@ =~= then_keyword());
            assert(otherwise@ =~= else_keyword());
            assert(yes@ =~= true_keyword());
            assert(no@ =~= false_keyword());
        }
        if same_word(&word, variable) {
            Token::VariableKeyword
        } else if same_word(&word, conditional) {
            Token::IfKeyword
        } else if same_word(&word, consequence) {
            Token::ThenKeyword
        } else if same_word(&word, otherwise) {
            Token::ElseKeyword
        } else if same_word(&word, yes) {
            Token::True
        } else if same_word(&word, no) {
            Token::False
        } else {
            Token::Identifier(identifier)
        }
    }
}

/// Whether a character is a digit of the numeral alphabet.
pub fn digit(c: char) -> (yes: bool)
    ensures
        yes == is_digit(c),
{
    let code: u32 = c as u32;
    0x660 <= code && code <= 0x669
}

/// The number that a digit stands for.
pub fn digit_of(c: char) -> (value: u8)
    requires
        is_digit(c),
    ensures
        value == digit_value(c),
        value <= 9,
{
    let code: u32 = c as u32;
    (code - 0x660) as u8
}

/// Whether a character is a letter of the alphabet.
pub fn letter(c: char) -> (yes: bool)
    ensures
        yes == is_letter(c),
{
    let code: u32 = c as u32;
    (0x627 <= code && code <= 0x64A) || code == 0x622 || code == 0x623 || code == 0x625
}

/// The tokens of a source text, in order.
pub fn run(input: &str) -> (tokens: Vec<Token>)
    ensures
        lexemes(tokens@) == tokens_of(input@),
{
    let mut lexer = Lexer::new(input);
    let mut res: Vec<Token> = Vec::new();
    proof {
        assert(lexemes(res@) =~= Seq::<Lexeme>::empty());
    }
    let ghost mut from: int = 0;
    let mut next = lexer.next_token();
    while next.is_some()
        invariant
            lexer.wf(),
            lexer.chars@ == input@,
            0 <= from <= lexer.pos,
            scan(input@, lexemes(res@), from) == tokens_of(input@),
            match next_lexeme(input@, from) {
                None => next is None,
                Some((lexeme, end)) => next is Some && next->0@ == lexeme && lexer.pos == end && from < end,
            },
        decreases input@.len() - from,
    {
        let token = next.unwrap();
        let ghost before = lexemes(res@);
        res.push(token);
        proof {
            assert(lexemes(res@) =~= before.push(token@));
            from = lexer.pos as int;
        }
        next = lexer.next_token();
    }
    res
}

} // verus!
