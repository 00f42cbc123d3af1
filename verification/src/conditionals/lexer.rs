//! Splitting the text of a conditional into symbols.

use vstd::prelude::*;
use vstd::string::*;

verus! {

/// One lexical element of a conditional, as a mathematical value.
pub enum Symbol {
    Open,
    Close,
    And,
    Or,
    Name(Seq<char>),
}

/// One lexical element of a conditional.
#[derive(Debug)]
pub enum Token {
    Open,
    Close,
    And,
    Or,
    Name(String),
}

impl View for Token {
    type V = Symbol;

    open spec fn view(&self) -> Symbol {
        match self {
            Token::Open => Symbol::Open,
            Token::Close => Symbol::Close,
            Token::And => Symbol::And,
            Token::Or => Symbol::Or,
            Token::Name(name) => Symbol::Name(name@),
        }
    }
}

impl Token {
    /// Whether the token is the connective `and`.
    pub fn is_and(&self) -> (b: bool)
        ensures
            b == (self@ is And),
    {
        match self {
            Token::And => true,
            _ => false,
        }
    }

    /// Whether the token is the connective `or`.
    pub fn is_or(&self) -> (b: bool)
        ensures
            b == (self@ is Or),
    {
        match self {
            Token::Or => true,
            _ => false,
        }
    }

    /// Whether the token is a closing parenthesis.
    pub fn is_close(&self) -> (b: bool)
        ensures
            b == (self@ is Close),
    {
        match self {
            Token::Close => true,
            _ => false,
        }
    }
}

/// The symbols that a sequence of tokens stands for.
pub open spec fn symbols(tokens: Seq<Token>) -> Seq<Symbol> {
    tokens.map_values(|t: Token| t@)
}

/// Blank characters separate symbols and are otherwise ignored.
pub open spec fn is_space(c: char) -> bool {
    c == ' ' || c == '\t' || c == '\n' || c == '\r'
}

/// The characters that words are made of: ASCII letters, digits, underscore.
pub open spec fn is_word_char(c: char) -> bool {
    ('a' <= c && c <= 'z') || ('A' <= c && c <= 'Z') || ('0' <= c && c <= '9') || c == '_'
}

/// The keyword `and`, in any mix of upper and lower case.
pub open spec fn is_and(word: Seq<char>) -> bool {
    &&& word.len() == 3
    &&& (word[0] == 'a' || word[0] == 'A')
    &&& (word[1] == 'n' || word[1] == 'N')
    &&& (word[2] == 'd' || word[2] == 'D')
}

/// The keyword `or`, in any mix of upper and lower case.
pub open spec fn is_or(word: Seq<char>) -> bool {
    &&& word.len() == 2
    &&& (word[0] == 'o' || word[0] == 'O')
    &&& (word[1] == 'r' || word[1] == 'R')
}

/// A variable name: one or more word characters that spell no keyword.
pub open spec fn is_name(word: Seq<char>) -> bool {
    &&& word.len() > 0
    &&& forall|k: int| 0 <= k < word.len() ==> is_word_char(#[trigger] word[k])
    &&& !is_and(word)
    &&& !is_or(word)
}

/// A word is a keyword or, failing that, a variable name.
pub open spec fn word_symbol(word: Seq<char>) -> Symbol {
    if is_and(word) {
        Symbol::And
    } else if is_or(word) {
        Symbol::Or
    } else {
        Symbol::Name(word)
    }
}

/// The end of the longest run of word characters that starts at `from`.
pub open spec fn word_end(text: Seq<char>, from: int) -> int
    decreases text.len() - from,
{
    if 0 <= from < text.len() && is_word_char(text[from]) {
        word_end(text, from + 1)
    } else {
        from
    }
}

/// `symbol` in front of the symbols of the rest, if the rest has any.
pub open spec fn prepend(symbol: Symbol, rest: Option<Seq<Symbol>>) -> Option<Seq<Symbol>> {
    match rest {
        Some(tail) => Some(seq![symbol] + tail),
        None => None,
    }
}

/// The symbols of `text` from position `from` on, or `None` where a
/// character occurs that belongs to no symbol. Words are taken as long as
/// they go.
pub open spec fn scan(text: Seq<char>, from: int) -> Option<Seq<Symbol>>
    decreases text.len() - from,
{
    if from < 0 || from >= text.len() {
        Some(Seq::empty())
    } else if is_space(text[from]) {
        scan(text, from + 1)
    } else if text[from] == '(' {
        prepend(Symbol::Open, scan(text, from + 1))
    } else if text[from] == ')' {
        prepend(Symbol::Close, scan(text, from + 1))
    } else if is_word_char(text[from]) {
        proof {
            lemma_word_end(text, from);
        }
        prepend(
            word_symbol(text.subrange(from, word_end(text, from))),
            scan(text, word_end(text, from)),
        )
    } else {
        None
    }
}

/// The symbols of a whole text.
pub open spec fn symbols_of(text: Seq<char>) -> Option<Seq<Symbol>> {
    scan(text, 0)
}

/// A run of word characters ends inside the text, holds word characters
/// only, and cannot be made longer.
pub proof fn lemma_word_end(text: Seq<char>, from: int)
    requires
        0 <= from <= text.len(),
    ensures
        from <= word_end(text, from) <= text.len(),
        from < text.len() && is_word_char(text[from]) ==> from < word_end(text, from),
        forall|k: int| from <= k < word_end(text, from) ==> is_word_char(#[trigger] text[k]),
        word_end(text, from) < text.len() ==> !is_word_char(text[word_end(text, from)]),
    decreases text.len() - from,
{
    if from < text.len() && is_word_char(text[from]) {
        lemma_word_end(text, from + 1);
    }
}

/// Every name among the symbols of a text is a variable name.
pub proof fn lemma_scanned_names(text: Seq<char>, from: int)
    requires
        0 <= from <= text.len(),
        scan(text, from) is Some,
    ensures
        forall|k: int|
            0 <= k < scan(text, from)->0.len() && (#[trigger] scan(text, from)->0[k]) is Name
                ==> is_name(scan(text, from)->0[k]->Name_0),
    decreases text.len() - from,
{
    if from < text.len() {
        if is_space(text[from]) || text[from] == '(' || text[from] == ')' {
            lemma_scanned_names(text, from + 1);
        } else {
            lemma_word_end(text, from);
            lemma_scanned_names(text, word_end(text, from));
        }
    }
}

/// A text with a character outside ASCII has no symbols: such a character
/// is neither blank, nor a parenthesis, nor part of a word.
pub proof fn lemma_scan_needs_ascii(text: Seq<char>, from: int, at: int)
    requires
        0 <= from <= at < text.len(),
        !('\0' <= text[at] <= '\u{7f}'),
    ensures
        scan(text, from) is None,
    decreases text.len() - from,
{
    if is_space(text[from]) || text[from] == '(' || text[from] == ')' {
        lemma_scan_needs_ascii(text, from + 1, at);
    } else if is_word_char(text[from]) {
        lemma_word_end(text, from);
        lemma_scan_needs_ascii(text, word_end(text, from), at);
    }
}

fn is_space_byte(b: u8) -> (r: bool)
    ensures
        r == is_space(b as char),
{
    let c = b as char;
    c == ' ' || c == '\t' || c == '\n' || c == '\r'
}

fn is_word_byte(b: u8) -> (r: bool)
    ensures
        r == is_word_char(b as char),
{
    let c = b as char;
    ('a' <= c && c <= 'z') || ('A' <= c && c <= 'Z') || ('0' <= c && c <= '9') || c == '_'
}

/// A byte of an ASCII text is the character that it stands for.
proof fn lemma_ascii_byte(c: char, b: u8)
    requires
        c <= '\u{7f}',
        b == c as u8,
    ensures
        b as char == c,
{
}

/// The bytes of an ASCII text are its characters, one for one.
proof fn lemma_ascii_text(text: &str)
    requires
        is_ascii(text),
    ensures
        text.spec_bytes().len() == text@.len(),
        forall|k: int|
            0 <= k < text@.len() ==> (#[trigger] text@[k]) <= '\u{7f}' && text.spec_bytes()[k]
                == text@[k] as u8,
{
    is_ascii_spec_bytes(text);
}

/// The end of the word that starts at `from` in an ASCII text.
fn word_stop(text: &str, from: usize) -> (end: usize)
    requires
        is_ascii(text),
        from <= text@.len(),
    ensures
        end == word_end(text@, from as int),
{
    let bytes = text.as_bytes();
    let n = bytes.len();
    proof {
        lemma_ascii_text(text);
    }
    let mut j = from;
    while j < n
        invariant
            from <= j <= n,
            n == text@.len(),
            is_ascii(text),
            bytes@ == text.spec_bytes(),
            word_end(text@, from as int) == word_end(text@, j as int),
        decreases n - j,
    {
        proof {
            lemma_ascii_text(text);
            lemma_ascii_byte(text@[j as int], bytes@[j as int]);
        }
        if !is_word_byte(bytes[j]) {
            return j;
        }
        j += 1;
    }
    j
}

/// The token for one word of an ASCII text.
fn word_token(word: &str) -> (token: Token)
    requires
        is_ascii(word),
    ensures
        token@ == word_symbol(word@),
{
    let bytes = word.as_bytes();
    let n = bytes.len();
    proof {
        lemma_ascii_text(word);
    }
    if n == 3 {
        proof {
            lemma_ascii_byte(word@[0], bytes@[0]);
            lemma_ascii_byte(word@[1], bytes@[1]);
            lemma_ascii_byte(word@[2], bytes@[2]);
        }
        let (a, n, d) = (bytes[0] as char, bytes[1] as char, bytes[2] as char);
        if (a == 'a' || a == 'A') && (n == 'n' || n == 'N') && (d == 'd' || d == 'D') {
            return Token::And;
        }
    } else if n == 2 {
        proof {
            lemma_ascii_byte(word@[0], bytes@[0]);
            lemma_ascii_byte(word@[1], bytes@[1]);
        }
        let (o, r) = (bytes[0] as char, bytes[1] as char);
        if (o == 'o' || o == 'O') && (r == 'r' || r == 'R') {
            return Token::Or;
        }
    }
    Token::Name(word.to_owned())
}

/// Splits a conditional into tokens. Returns `None` exactly when the text
/// holds a character that belongs to no symbol.
pub fn tokenize(text: &str) -> (tokens: Option<Vec<Token>>)
    ensures
        match tokens {
            Some(ts) => symbols_of(text@) == Some(symbols(ts@)),
            None => symbols_of(text@) is None,
        },
{
    if !text.is_ascii() {
        proof {
            let at = choose|at: int|
                0 <= at < text@.len() && !('\0' <= #[trigger] text@[at] <= '\u{7f}');
            lemma_scan_needs_ascii(text@, 0, at);
        }
        return None;
    }
    let bytes = text.as_bytes();
    let n = bytes.len();
    proof {
        lemma_ascii_text(text);
    }
    let mut tokens: Vec<Token> = Vec::new();
    let mut i: usize = 0;
    assert(symbols(tokens@) =~= Seq::<Symbol>::empty());
    assert(Seq::<Symbol>::empty() + scan(text@, 0)->0 =~= scan(text@, 0)->0);
    while i < n
        invariant
            i <= n,
            n == text@.len(),
            is_ascii(text),
            bytes@ == text.spec_bytes(),
            symbols_of(text@) == join(symbols(tokens@), scan(text@, i as int)),
        decreases n - i,
    {
        proof {
            lemma_ascii_text(text);
            lemma_ascii_byte(text@[i as int], bytes@[i as int]);
        }
        let b = bytes[i];
        let c = b as char;
        let ghost before = symbols(tokens@);
        if is_space_byte(b) {
            i += 1;
        } else if c == '(' {
            tokens.push(Token::Open);
            i += 1;
            proof {
                lemma_join_step(before, Symbol::Open, scan(text@, i as int));
                assert(symbols(tokens@) =~= before.push(Symbol::Open));
            }
        } else if c == ')' {
            tokens.push(Token::Close);
            i += 1;
            proof {
                lemma_join_step(before, Symbol::Close, scan(text@, i as int));
                assert(symbols(tokens@) =~= before.push(Symbol::Close));
            }
        } else if is_word_byte(b) {
            let start = i;
            let j = word_stop(text, start);
            proof {
                lemma_word_end(text@, start as int);
            }
            let word = text.substring_ascii(start, j);
            let token = word_token(word);
            let ghost symbol = token@;
            tokens.push(token);
            i = j;
            proof {
                lemma_join_step(before, symbol, scan(text@, i as int));
                assert(symbols(tokens@) =~= before.push(symbol));
            }
        } else {
            return None;
        }
    }
    proof {
        assert(symbols(tokens@) + Seq::<Symbol>::empty() =~= symbols(tokens@));
    }
    Some(tokens)
}

/// The symbols read so far, followed by those of the rest of the text.
spec fn join(read: Seq<Symbol>, rest: Option<Seq<Symbol>>) -> Option<Seq<Symbol>> {
    match rest {
        Some(tail) => Some(read + tail),
        None => None,
    }
}

proof fn lemma_join_step(read: Seq<Symbol>, symbol: Symbol, rest: Option<Seq<Symbol>>)
    ensures
        join(read, prepend(symbol, rest)) == join(read.push(symbol), rest),
{
    if let Some(tail) = rest {
        assert(read + (seq![symbol] + tail) =~= read.push(symbol) + tail);
    }
}

} // verus!
