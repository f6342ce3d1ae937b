use crate::error::{CompileError, ErrorV};
use crate::text::{chars_equal, remove_first_char, string_of_chars};
use vstd::prelude::*;

verus! {

/// A source of characters, read one at a time from the front.
pub trait ReadChar {
    /// The characters that have not been read yet.
    spec fn unread(&self) -> Seq<char>;

    /// Takes the next character, or gives `None` once all are read.
    fn read(&mut self) -> (r: Option<char>)
        ensures
            match r {
                Some(c) => {
                    &&& old(self).unread().len() > 0
                    &&& c == old(self).unread()[0]
                    &&& final(self).unread() == old(self).unread().drop_first()
                },
                None => old(self).unread().len() == 0 && final(self).unread() == old(self).unread(),
            };
}

impl ReadChar for String {
    open spec fn unread(&self) -> Seq<char> {
        self@
    }

    fn read(&mut self) -> (r: Option<char>) {
        if self.as_str().is_empty() {
            None
        } else {
            Some(remove_first_char(self))
        }
    }
}

/// One token of the declaration language.
#[derive(Debug, PartialEq, Clone)]
pub enum Token {
    Ident(String),
    Struct,
    Union,
    DWORD,
    WORD,
    BYTE,
    SemiColon,
    Comma,
    LeftBrace,
    RightBrace,
    Typedef,
    Pointer,
}

/// The mathematical model of a `Token`.
pub enum TokenV {
    Ident(Seq<char>),
    Struct,
    Union,
    Dword,
    Word,
    Byte,
    SemiColon,
    Comma,
    LeftBrace,
    RightBrace,
    Typedef,
    Pointer,
}

impl View for Token {
    type V = TokenV;

    open spec fn view(&self) -> TokenV {
        match self {
            Token::Ident(s) => TokenV::Ident(s@),
            Token::Struct => TokenV::Struct,
            Token::Union => TokenV::Union,
            Token::DWORD => TokenV::Dword,
            Token::WORD => TokenV::Word,
            Token::BYTE => TokenV::Byte,
            Token::SemiColon => TokenV::SemiColon,
            Token::Comma => TokenV::Comma,
            Token::LeftBrace => TokenV::LeftBrace,
            Token::RightBrace => TokenV::RightBrace,
            Token::Typedef => TokenV::Typedef,
            Token::Pointer => TokenV::Pointer,
        }
    }
}

/// The models of a sequence of tokens.
pub open spec fn tokens_view(ts: Seq<Token>) -> Seq<TokenV> {
    ts.map_values(|t: Token| t@)
}

pub open spec fn is_blank(c: char) -> bool {
    c == ' ' || c == '\t' || c == '\r' || c == '\n'
}

pub open spec fn is_digit(c: char) -> bool {
    '0' <= c && c <= '9'
}

/// Letters, digits and the underscore make up words.
pub open spec fn is_word_char(c: char) -> bool {
    c == '_' || is_digit(c) || ('a' <= c && c <= 'z') || ('A' <= c && c <= 'Z')
}

/// The token that a punctuation character stands for by itself.
pub open spec fn punct(c: char) -> Option<TokenV> {
    if c == '*' {
        Some(TokenV::Pointer)
    } else if c == ';' {
        Some(TokenV::SemiColon)
    } else if c == ',' {
        Some(TokenV::Comma)
    } else if c == '{' {
        Some(TokenV::LeftBrace)
    } else if c == '}' {
        Some(TokenV::RightBrace)
    } else {
        None
    }
}

/// The token that a complete word stands for: a keyword, or else an identifier.
pub open spec fn word_token(w: Seq<char>) -> TokenV {
    if w == seq!['s', 't', 'r', 'u', 'c', 't'] {
        TokenV::Struct
    } else if w == seq!['u', 'n', 'i', 'o', 'n'] {
        TokenV::Union
    } else if w == seq!['t', 'y', 'p', 'e', 'd', 'e', 'f'] {
        TokenV::Typedef
    } else if w == seq!['D', 'W', 'O', 'R', 'D'] {
        TokenV::Dword
    } else if w == seq!['W', 'O', 'R', 'D'] {
        TokenV::Word
    } else if w == seq!['B', 'Y', 'T', 'E'] {
        TokenV::Byte
    } else {
        TokenV::Ident(w)
    }
}

/// Ends the pending word: nothing to add when it is empty, an error when it
/// starts with a digit, else its token is appended.
pub open spec fn flush_word(acc: Seq<TokenV>, word: Seq<char>) -> Result<Seq<TokenV>, ErrorV> {
    if word.len() == 0 {
        Ok(acc)
    } else if is_digit(word[0]) {
        Err(ErrorV::UnexpectedCharacter(word[0]))
    } else {
        Ok(acc.push(word_token(word)))
    }
}

/// Tokenizes `chars`, given the tokens `acc` found so far and the pending
/// word `word`.
pub open spec fn lex_from(acc: Seq<TokenV>, word: Seq<char>, chars: Seq<char>) -> Result<
    Seq<TokenV>,
    ErrorV,
>
    decreases chars.len(),
{
    if chars.len() == 0 {
        flush_word(acc, word)
    } else {
        let c = chars[0];
        let rest = chars.drop_first();
        if is_blank(c) || punct(c) is Some {
            match flush_word(acc, word) {
                Ok(a) => lex_from(
                    if punct(c) is Some {
                        a.push(punct(c)->Some_0)
                    } else {
                        a
                    },
                    seq![],
                    rest,
                ),
                Err(e) => Err(e),
            }
        } else if is_word_char(c) {
            lex_from(acc, word.push(c), rest)
        } else {
            Err(ErrorV::UnexpectedCharacter(c))
        }
    }
}

/// The tokens of a text, or the error that stops tokenizing it.
pub open spec fn lex(chars: Seq<char>) -> Result<Seq<TokenV>, ErrorV> {
    lex_from(seq![], seq![], chars)
}

/// Tokenizing never gives more tokens than there are characters.
pub proof fn lemma_lex_len(acc: Seq<TokenV>, word: Seq<char>, chars: Seq<char>)
    ensures
        match lex_from(acc, word, chars) {
            Ok(ts) => ts.len() <= acc.len() + word.len() + chars.len(),
            Err(_) => true,
        },
    decreases chars.len(),
{
    if chars.len() > 0 {
        let c = chars[0];
        let rest = chars.drop_first();
        if is_blank(c) || punct(c) is Some {
            match flush_word(acc, word) {
                Ok(a) => {
                    let next = if punct(c) is Some {
                        a.push(punct(c)->Some_0)
                    } else {
                        a
                    };
                    lemma_lex_len(next, seq![], rest);
                },
                Err(_) => {},
            }
        } else if is_word_char(c) {
            lemma_lex_len(acc, word.push(c), rest);
        }
    }
}

/// The model of a tokenizer result.
pub open spec fn lex_result_view(r: Result<Vec<Token>, CompileError>) -> Result<
    Seq<TokenV>,
    ErrorV,
> {
    match r {
        Ok(v) => Ok(tokens_view(v@)),
        Err(e) => Err(e@),
    }
}

fn word_to_token(w: &Vec<char>) -> (t: Token)
    ensures
        t@ == word_token(w@),
{
    let kw_struct = vec!['s', 't', 'r', 'u', 'c', 't'];
    let kw_union = vec!['u', 'n', 'i', 'o', 'n'];
    let kw_typedef = vec!['t', 'y', 'p', 'e', 'd', 'e', 'f'];
    let kw_dword = vec!['D', 'W', 'O', 'R', 'D'];
    let kw_word = vec!['W', 'O', 'R', 'D'];
    let kw_byte = vec!['B', 'Y', 'T', 'E'];
    assert(kw_struct@ =~= seq!['s', 't', 'r', 'u', 'c', 't']);
    assert(kw_union@ =~= seq!['u', 'n', 'i', 'o', 'n']);
    assert(kw_typedef@ =~= seq!['t', 'y', 'p', 'e', 'd', 'e', 'f']);
    assert(kw_dword@ =~= seq!['D', 'W', 'O', 'R', 'D']);
    assert(kw_word@ =~= seq!['W', 'O', 'R', 'D']);
    assert(kw_byte@ =~= seq!['B', 'Y', 'T', 'E']);
    if chars_equal(w, &kw_struct) {
        Token::Struct
    } else if chars_equal(w, &kw_union) {
        Token::Union
    } else if chars_equal(w, &kw_typedef) {
        Token::Typedef
    } else if chars_equal(w, &kw_dword) {
        Token::DWORD
    } else if chars_equal(w, &kw_word) {
        Token::WORD
    } else if chars_equal(w, &kw_byte) {
        Token::BYTE
    } else {
        Token::Ident(string_of_chars(w))
    }
}

fn flush(ret: &mut Vec<Token>, word: &mut Vec<char>) -> (r: Result<(), CompileError>)
    ensures
        match flush_word(tokens_view(old(ret)@), old(word)@) {
            Ok(a) => r is Ok && tokens_view(final(ret)@) == a && final(word)@.len() == 0,
            Err(e) => r is Err && r->Err_0@ == e,
        },
{
    if word.len() == 0 {
        return Ok(());
    }
    let first = word[0];
    if '0' <= first && first <= '9' {
        return Err(CompileError::UnexpectedCharacter(first));
    }
    let t = word_to_token(word);
    ret.push(t);
    word.clear();
    assert(tokens_view(ret@) =~= tokens_view(old(ret)@).push(word_token(old(word)@)));
    Ok(())
}

fn punct_token(c: char) -> (r: Option<Token>)
    ensures
        match punct(c) {
            Some(t) => r is Some && r->Some_0@ == t,
            None => r is None,
        },
{
    match c {
        '*' => Some(Token::Pointer),
        ';' => Some(Token::SemiColon),
        ',' => Some(Token::Comma),
        '{' => Some(Token::LeftBrace),
        '}' => Some(Token::RightBrace),
        _ => None,
    }
}

impl Token {
    /// Splits the characters of `reader` into tokens.
    pub fn parse<R: ReadChar>(reader: &mut R) -> (r: Result<Vec<Token>, CompileError>)
        ensures
            lex_result_view(r) == lex(old(reader).unread()),
    {
        let mut ret: Vec<Token> = Vec::new();
        let mut word: Vec<char> = Vec::new();
        assert(tokens_view(ret@) =~= seq![]);
        loop
            invariant
                lex(old(reader).unread()) == lex_from(tokens_view(ret@), word@, reader.unread()),
            ensures
                lex(old(reader).unread()) == flush_word(tokens_view(ret@), word@),
            decreases reader.unread().len(),
        {
            match reader.read() {
                None => break,
                Some(c) => {
                    let p = punct_token(c);
                    if c == ' ' || c == '\t' || c == '\r' || c == '\n' || p.is_some() {
                        match flush(&mut ret, &mut word) {
                            Ok(()) => {},
                            Err(e) => return Err(e),
                        }
                        assert(word@ =~= seq![]);
                        match p {
                            Some(t) => {
                                let ghost mid = tokens_view(ret@);
                                ret.push(t);
                                assert(tokens_view(ret@) =~= mid.push(punct(c)->Some_0));
                            },
                            None => {},
                        }
                    } else if c == '_' || ('0' <= c && c <= '9') || ('a' <= c && c <= 'z') || (
                    'A' <= c && c <= 'Z') {
                        word.push(c);
                    } else {
                        return Err(CompileError::UnexpectedCharacter(c));
                    }
                },
            }
        }
        match flush(&mut ret, &mut word) {
            Ok(()) => Ok(ret),
            Err(e) => Err(e),
        }
    }
}

} // verus!

verus! {

impl Token {
    /// A copy of this token.
    pub fn copy(&self) -> (r: Token)
        ensures
            r@ == self@,
    {
        match self {
            Token::Ident(s) => Token::Ident(s.clone()),
            Token::Struct => Token::Struct,
            Token::Union => Token::Union,
            Token::DWORD => Token::DWORD,
            Token::WORD => Token::WORD,
            Token::BYTE => Token::BYTE,
            Token::SemiColon => Token::SemiColon,
            Token::Comma => Token::Comma,
            Token::LeftBrace => Token::LeftBrace,
            Token::RightBrace => Token::RightBrace,
            Token::Typedef => Token::Typedef,
            Token::Pointer => Token::Pointer,
        }
    }

    /// Whether two tokens are the same.
    pub fn same(&self, o: &Token) -> (r: bool)
        ensures
            r == (self@ == o@),
    {
        match (self, o) {
            (Token::Ident(a), Token::Ident(b)) => *a == *b,
            (Token::Struct, Token::Struct) => true,
            (Token::Union, Token::Union) => true,
            (Token::DWORD, Token::DWORD) => true,
            (Token::WORD, Token::WORD) => true,
            (Token::BYTE, Token::BYTE) => true,
            (Token::SemiColon, Token::SemiColon) => true,
            (Token::Comma, Token::Comma) => true,
            (Token::LeftBrace, Token::LeftBrace) => true,
            (Token::RightBrace, Token::RightBrace) => true,
            (Token::Typedef, Token::Typedef) => true,
            (Token::Pointer, Token::Pointer) => true,
            _ => false,
        }
    }
}

/// What is left of `toks` after the token `t`, which must come first.
pub open spec fn expect_token(toks: Seq<TokenV>, t: TokenV) -> Result<Seq<TokenV>, ErrorV> {
    if toks.len() == 0 {
        Err(ErrorV::UnexpectedEof)
    } else if toks[0] == t {
        Ok(toks.drop_first())
    } else {
        Err(ErrorV::UnexpectedToken(toks[0]))
    }
}

/// A cursor over a sequence of tokens, read front to back.
#[derive(Clone, Debug)]
pub struct TokenStream {
    tokens: Vec<Token>,
    pos: usize,
}

impl View for TokenStream {
    type V = Seq<TokenV>;

    /// The tokens not read yet.
    closed spec fn view(&self) -> Seq<TokenV> {
        tokens_view(self.tokens@).skip(self.pos as int)
    }
}

impl TokenStream {
    pub closed spec fn wf(&self) -> bool {
        self.pos <= self.tokens@.len()
    }

    /// The next token, left in place.
    pub fn peek(&mut self) -> (r: Option<Token>)
        requires
            old(self).wf(),
        ensures
            *final(self) == *old(self),
            match r {
                Some(t) => old(self)@.len() > 0 && t@ == old(self)@[0],
                None => old(self)@.len() == 0,
            },
    {
        if self.pos < self.tokens.len() {
            Some(self.tokens[self.pos].copy())
        } else {
            None
        }
    }

    /// Takes the next token.
    pub fn read(&mut self) -> (r: Option<Token>)
        requires
            old(self).wf(),
        ensures
            final(self).wf(),
            match r {
                Some(t) => old(self)@.len() > 0 && t@ == old(self)@[0] && final(self)@ == old(
                    self,
                )@.drop_first(),
                None => old(self)@.len() == 0 && final(self)@ == old(self)@,
            },
    {
        if self.pos < self.tokens.len() {
            let t = self.tokens[self.pos].copy();
            self.pos = self.pos + 1;
            assert(self@ =~= old(self)@.drop_first());
            Some(t)
        } else {
            None
        }
    }

    /// A cursor at the start of `v`.
    pub fn new(v: Vec<Token>) -> (r: TokenStream)
        ensures
            r.wf(),
            r@ == tokens_view(v@),
    {
        let r = TokenStream { tokens: v, pos: 0 };
        assert(r@ =~= tokens_view(r.tokens@));
        r
    }

    /// Takes the next token, which must be `tok`.
    pub fn eat(&mut self, tok: Token) -> (r: Result<(), CompileError>)
        requires
            old(self).wf(),
        ensures
            final(self).wf(),
            match expect_token(old(self)@, tok@) {
                Ok(rest) => r is Ok && final(self)@ == rest,
                Err(e) => r is Err && r->Err_0@ == e,
            },
    {
        match self.read() {
            None => Err(CompileError::UnexpectedEof),
            Some(x) => {
                if tok.same(&x) {
                    Ok(())
                } else {
                    Err(CompileError::UnexpectedToken(x))
                }
            },
        }
    }
}

} // verus!
