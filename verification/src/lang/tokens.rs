//! The tokens that the scanner produces.

use vstd::prelude::*;
use vstd::string::StringExecFns;
use vstd::std_specs::slice::spec_slice_iter;
use crate::lang::source::{SourceRef, SourceText};
use crate::lang::spec::Node;

verus! {

/// The kinds of tokens.
#[derive(Clone, Copy, Debug, PartialEq, Eq, Structural)]
pub enum TokenKind {
    Action,
    Protocol,
    Identifier,
    Port,
    Aterisk,
    String,
    UInt,
    SInt,
    Bool,
    SettingsSection,
    RulesSection,
    Arrow,
    LSquare,
    RSquare,
    LCurly,
    RCurly,
    Colon,
    Slash,
    Dot,
    Comma,
}

/// A token, with the source `T` that it was read from, if that is known.
#[derive(Clone, Debug, Eq)]
pub enum Token<T> {
    /// An action (`!name`), by its name.
    Action(String, Option<T>),
    /// A protocol (`http://`), by its name.
    Protocol(String, Option<T>),
    /// An identifier: a word, an element of a path, and the like.
    Identifier(String, Option<T>),
    /// A port number, by its digits.
    Port(String, Option<T>),
    /// An asterisk, with the name that it may bear.
    Aterisk(Option<String>, Option<T>),
    /// A string literal, by its value.
    String(String, Option<T>),
    /// An unsigned integer, as it was written.
    UInt(String, Option<T>),
    /// A signed integer, as it was written.
    SInt(String, Option<T>),
    /// A boolean value, as it was written.
    Bool(String, Option<T>),
    /// The section header `[settings]`.
    SettingsSection(Option<T>),
    /// The section header `[rules]`.
    RulesSection(Option<T>),
    /// The arrow `->`.
    Arrow(Option<T>),
    /// The bracket `[`.
    LSquare(Option<T>),
    /// The bracket `]`.
    RSquare(Option<T>),
    /// The brace `{`.
    LCurly(Option<T>),
    /// The brace `}`.
    RCurly(Option<T>),
    /// The colon `:`.
    Colon(Option<T>),
    /// The slash `/`.
    Slash(Option<T>),
    /// The dot `.`.
    Dot(Option<T>),
    /// The comma `,`.
    Comma(Option<T>),
}

impl<T> Token<T> {
    /// The kind of the token.
    pub open spec fn kind_of(&self) -> TokenKind {
        match *self {
            Token::Action(..) => TokenKind::Action,
            Token::Protocol(..) => TokenKind::Protocol,
            Token::Identifier(..) => TokenKind::Identifier,
            Token::Port(..) => TokenKind::Port,
            Token::Aterisk(..) => TokenKind::Aterisk,
            Token::String(..) => TokenKind::String,
            Token::UInt(..) => TokenKind::UInt,
            Token::SInt(..) => TokenKind::SInt,
            Token::Bool(..) => TokenKind::Bool,
            Token::SettingsSection(..) => TokenKind::SettingsSection,
            Token::RulesSection(..) => TokenKind::RulesSection,
            Token::Arrow(..) => TokenKind::Arrow,
            Token::LSquare(..) => TokenKind::LSquare,
            Token::RSquare(..) => TokenKind::RSquare,
            Token::LCurly(..) => TokenKind::LCurly,
            Token::RCurly(..) => TokenKind::RCurly,
            Token::Colon(..) => TokenKind::Colon,
            Token::Slash(..) => TokenKind::Slash,
            Token::Dot(..) => TokenKind::Dot,
            Token::Comma(..) => TokenKind::Comma,
        }
    }

    /// What the token carries: the name, the digits or the value, where its kind carries
    /// one.
    pub open spec fn value_of(&self) -> Option<Seq<char>> {
        match *self {
            Token::Action(value, _) => Some(value@),
            Token::Protocol(value, _) => Some(value@),
            Token::Identifier(value, _) => Some(value@),
            Token::Port(value, _) => Some(value@),
            Token::Aterisk(Some(value), _) => Some(value@),
            Token::String(value, _) => Some(value@),
            Token::UInt(value, _) => Some(value@),
            Token::SInt(value, _) => Some(value@),
            Token::Bool(value, _) => Some(value@),
            _ => None,
        }
    }

    /// The source of the token, if it has one.
    pub open spec fn origin(&self) -> Option<T> {
        match *self {
            Token::Action(_, source) => source,
            Token::Protocol(_, source) => source,
            Token::Identifier(_, source) => source,
            Token::Port(_, source) => source,
            Token::Aterisk(_, source) => source,
            Token::String(_, source) => source,
            Token::UInt(_, source) => source,
            Token::SInt(_, source) => source,
            Token::Bool(_, source) => source,
            Token::SettingsSection(source) => source,
            Token::RulesSection(source) => source,
            Token::Arrow(source) => source,
            Token::LSquare(source) => source,
            Token::RSquare(source) => source,
            Token::LCurly(source) => source,
            Token::RCurly(source) => source,
            Token::Colon(source) => source,
            Token::Slash(source) => source,
            Token::Dot(source) => source,
            Token::Comma(source) => source,
        }
    }

    /// Tells the kind of the token.
    pub fn kind(&self) -> (r: TokenKind)
        ensures
            r == self.kind_of(),
    {
        match self {
            Token::Action(..) => TokenKind::Action,
            Token::Protocol(..) => TokenKind::Protocol,
            Token::Identifier(..) => TokenKind::Identifier,
            Token::Port(..) => TokenKind::Port,
            Token::Aterisk(..) => TokenKind::Aterisk,
            Token::String(..) => TokenKind::String,
            Token::UInt(..) => TokenKind::UInt,
            Token::SInt(..) => TokenKind::SInt,
            Token::Bool(..) => TokenKind::Bool,
            Token::SettingsSection(..) => TokenKind::SettingsSection,
            Token::RulesSection(..) => TokenKind::RulesSection,
            Token::Arrow(..) => TokenKind::Arrow,
            Token::LSquare(..) => TokenKind::LSquare,
            Token::RSquare(..) => TokenKind::RSquare,
            Token::LCurly(..) => TokenKind::LCurly,
            Token::RCurly(..) => TokenKind::RCurly,
            Token::Colon(..) => TokenKind::Colon,
            Token::Slash(..) => TokenKind::Slash,
            Token::Dot(..) => TokenKind::Dot,
            Token::Comma(..) => TokenKind::Comma,
        }
    }

    /// What the token is shown as: the name of its kind in capitals, and what it carries
    /// in angle brackets, a string literal in quotes.
    pub fn text(&self) -> (r: String)
        ensures
            r@ == shown(self.kind_of(), self.value_of()),
    {
        match self {
            Token::Action(value, _) => labelled("ACTION<", value.as_str(), ">"),
            Token::Protocol(value, _) => labelled("PROTOCOL<", value.as_str(), ">"),
            Token::Identifier(value, _) => labelled("IDENTIFIER<", value.as_str(), ">"),
            Token::Port(value, _) => labelled("PORT<", value.as_str(), ">"),
            Token::Aterisk(Some(value), _) => labelled("ATERISK<", value.as_str(), ">"),
            Token::Aterisk(None, _) => String::from_str("ATERISK"),
            Token::String(value, _) => labelled("STRING<\"", value.as_str(), "\">"),
            Token::UInt(value, _) => labelled("UINT<", value.as_str(), ">"),
            Token::SInt(value, _) => labelled("SINT<", value.as_str(), ">"),
            Token::Bool(value, _) => labelled("BOOL<", value.as_str(), ">"),
            Token::SettingsSection(_) => String::from_str("SETTINGS_SECTION"),
            Token::RulesSection(_) => String::from_str("RULES_SECTION"),
            Token::Arrow(_) => String::from_str("ARROW"),
            Token::LSquare(_) => String::from_str("LSQUARE"),
            Token::RSquare(_) => String::from_str("RSQUARE"),
            Token::LCurly(_) => String::from_str("LCURLY"),
            Token::RCurly(_) => String::from_str("RCURLY"),
            Token::Colon(_) => String::from_str("COLON"),
            Token::Slash(_) => String::from_str("SLASH"),
            Token::Dot(_) => String::from_str("DOT"),
            Token::Comma(_) => String::from_str("COMMA"),
        }
    }
}

/// The name of a kind of token, in capitals.
pub open spec fn kind_name(kind: TokenKind) -> Seq<char> {
    match kind {
        TokenKind::Action => "ACTION"@,
        TokenKind::Protocol => "PROTOCOL"@,
        TokenKind::Identifier => "IDENTIFIER"@,
        TokenKind::Port => "PORT"@,
        TokenKind::Aterisk => "ATERISK"@,
        TokenKind::String => "STRING"@,
        TokenKind::UInt => "UINT"@,
        TokenKind::SInt => "SINT"@,
        TokenKind::Bool => "BOOL"@,
        TokenKind::SettingsSection => "SETTINGS_SECTION"@,
        TokenKind::RulesSection => "RULES_SECTION"@,
        TokenKind::Arrow => "ARROW"@,
        TokenKind::LSquare => "LSQUARE"@,
        TokenKind::RSquare => "RSQUARE"@,
        TokenKind::LCurly => "LCURLY"@,
        TokenKind::RCurly => "RCURLY"@,
        TokenKind::Colon => "COLON"@,
        TokenKind::Slash => "SLASH"@,
        TokenKind::Dot => "DOT"@,
        TokenKind::Comma => "COMMA"@,
    }
}

/// What a token of `kind` is shown with before what it carries.
pub open spec fn opening(kind: TokenKind) -> Seq<char> {
    match kind {
        TokenKind::Action => "ACTION<"@,
        TokenKind::Protocol => "PROTOCOL<"@,
        TokenKind::Identifier => "IDENTIFIER<"@,
        TokenKind::Port => "PORT<"@,
        TokenKind::Aterisk => "ATERISK<"@,
        TokenKind::String => "STRING<\""@,
        TokenKind::UInt => "UINT<"@,
        TokenKind::SInt => "SINT<"@,
        TokenKind::Bool => "BOOL<"@,
        _ => kind_name(kind),
    }
}

/// What a token of `kind` is shown with behind what it carries.
pub open spec fn closing(kind: TokenKind) -> Seq<char> {
    if kind == TokenKind::String {
        "\">"@
    } else {
        ">"@
    }
}

/// What a token of `kind` that carries `value` is shown as.
pub open spec fn shown(kind: TokenKind, value: Option<Seq<char>>) -> Seq<char> {
    match value {
        Some(value) => opening(kind) + value + closing(kind),
        None => kind_name(kind),
    }
}

/// The text `open`, `value` and `close`.
fn labelled(open: &str, value: &str, close: &str) -> (r: String)
    ensures
        r@ == open@ + value@ + close@,
{
    let mut text = String::from_str(open);
    text.append(value);
    text.append(close);
    text
}

impl<T> PartialEq for Token<T> {
    fn eq(&self, other: &Self) -> (r: bool)
    {
        self.kind() == other.kind()
    }
}

impl<T> vstd::std_specs::cmp::PartialEqSpecImpl for Token<T> {
    open spec fn obeys_eq_spec() -> bool {
        true
    }

    /// Two tokens are equal where they are of the same kind, whatever they carry.
    open spec fn eq_spec(&self, other: &Self) -> bool {
        self.kind_of() == other.kind_of()
    }
}

impl<T> Node<T> for Token<T> {
    open spec fn source_of(&self) -> Option<T> {
        self.origin()
    }

    fn source(&self) -> (r: &Option<T>)
    {
        match self {
            Token::Action(_, source) => source,
            Token::Protocol(_, source) => source,
            Token::Identifier(_, source) => source,
            Token::Port(_, source) => source,
            Token::Aterisk(_, source) => source,
            Token::String(_, source) => source,
            Token::UInt(_, source) => source,
            Token::SInt(_, source) => source,
            Token::Bool(_, source) => source,
            Token::SettingsSection(source) => source,
            Token::RulesSection(source) => source,
            Token::Arrow(source) => source,
            Token::LSquare(source) => source,
            Token::RSquare(source) => source,
            Token::LCurly(source) => source,
            Token::RCurly(source) => source,
            Token::Colon(source) => source,
            Token::Slash(source) => source,
            Token::Dot(source) => source,
            Token::Comma(source) => source,
        }
    }
}

/// Whether `text` is the source `source` by itself, where there is one.
pub open spec fn is_text_of(source: Option<SourceRef<'_>>, text: Option<SourceText>) -> bool {
    match (source, text) {
        (Some(piece), Some(text)) => piece.is_text(text),
        (None, None) => true,
        _ => false,
    }
}

/// Makes the source of a token a text by itself, where there is one.
pub fn owned_source(source: Option<SourceRef<'_>>) -> (r: Option<SourceText>)
    requires
        source matches Some(piece) ==> piece.locatable(),
    ensures
        is_text_of(source, r),
{
    match source {
        Some(piece) => Some(piece.to_source_text()),
        None => None,
    }
}

impl Token<SourceText> {
    /// The token `value` with its source as a text by itself: the same kind, and what it
    /// carries.
    pub fn from_ref(value: Token<SourceRef<'_>>) -> (r: Token<SourceText>)
        requires
            value.origin() matches Some(piece) ==> piece.locatable(),
        ensures
            r.kind_of() == value.kind_of(),
            r.value_of() == value.value_of(),
            is_text_of(value.origin(), r.origin()),
    {
        match value {
            Token::Action(act, source) => Token::Action(act, owned_source(source)),
            Token::Protocol(prot, source) => Token::Protocol(prot, owned_source(source)),
            Token::Identifier(id, source) => Token::Identifier(id, owned_source(source)),
            Token::Port(port, source) => Token::Port(port, owned_source(source)),
            Token::Aterisk(name, source) => Token::Aterisk(name, owned_source(source)),
            Token::String(val, source) => Token::String(val, owned_source(source)),
            Token::UInt(val, source) => Token::UInt(val, owned_source(source)),
            Token::SInt(val, source) => Token::SInt(val, owned_source(source)),
            Token::Bool(val, source) => Token::Bool(val, owned_source(source)),
            Token::SettingsSection(source) => Token::SettingsSection(owned_source(source)),
            Token::RulesSection(source) => Token::RulesSection(owned_source(source)),
            Token::Arrow(source) => Token::Arrow(owned_source(source)),
            Token::LSquare(source) => Token::LSquare(owned_source(source)),
            Token::RSquare(source) => Token::RSquare(owned_source(source)),
            Token::LCurly(source) => Token::LCurly(owned_source(source)),
            Token::RCurly(source) => Token::RCurly(owned_source(source)),
            Token::Colon(source) => Token::Colon(owned_source(source)),
            Token::Slash(source) => Token::Slash(owned_source(source)),
            Token::Dot(source) => Token::Dot(owned_source(source)),
            Token::Comma(source) => Token::Comma(owned_source(source)),
        }
    }
}

/// A list of tokens, as the input of the parser.
#[derive(Clone, Copy, Debug)]
pub struct TokenList<'a> {
    /// The tokens.
    pub tokens: &'a [Token<SourceRef<'a>>],
}

impl<'a> View for TokenList<'a> {
    type V = Seq<Token<SourceRef<'a>>>;

    open spec fn view(&self) -> Self::V {
        self.tokens@
    }
}

impl<'a> TokenList<'a> {
    /// The list of the tokens `tokens`.
    pub fn new(tokens: &'a [Token<SourceRef<'a>>]) -> (r: Self)
        ensures
            r@ == tokens@,
    {
        Self { tokens }
    }

    /// Whether the list holds no token.
    pub fn is_empty(&self) -> (r: bool)
        ensures
            r == (self@.len() == 0),
    {
        self.tokens.len() == 0
    }

    /// The number of tokens in the list.
    pub fn len(&self) -> (r: usize)
        ensures
            r == self@.len(),
    {
        self.tokens.len()
    }

    /// An iterator over the tokens of the list, from the first to the last.
    pub fn iter(&self) -> (r: std::slice::Iter<'a, Token<SourceRef<'a>>>)
        ensures
            r == spec_slice_iter(self.tokens),
    {
        self.tokens.iter()
    }

    /// The length of the list, as the input of a parser.
    pub fn input_len(&self) -> (r: usize)
        ensures
            r == self@.len(),
    {
        self.tokens.len()
    }

    /// The first `count` tokens of the list.
    pub fn take(&self, count: usize) -> (r: Self)
        requires
            count <= self@.len(),
        ensures
            r@ == self@.take(count as int),
    {
        TokenList::new(&self.tokens[0..count])
    }

    /// The first `count` tokens of the list, and the others.
    pub fn take_split(&self, count: usize) -> (r: (Self, Self))
        requires
            count <= self@.len(),
        ensures
            r.0@ == self@.take(count as int),
            r.1@ == self@.skip(count as int),
    {
        let len: usize = self.tokens.len();
        (TokenList::new(&self.tokens[0..count]), TokenList::new(&self.tokens[count..len]))
    }

    /// Where the list is cut to take `count` tokens from it: behind them, or how many
    /// tokens it lacks.
    pub fn slice_index(&self, count: usize) -> (r: Result<usize, usize>)
        ensures
            r == if count > self@.len() {
                Err::<usize, usize>((count - self@.len()) as usize)
            } else {
                Ok::<usize, usize>(count)
            },
    {
        if count > self.tokens.len() {
            return Err(count - self.tokens.len());
        }
        Ok(count)
    }

    /// The token at `index`.
    pub fn index(&self, index: usize) -> (r: &'a Token<SourceRef<'a>>)
        requires
            index < self@.len(),
        ensures
            *r == self@[index as int],
    {
        &self.tokens[index]
    }

    /// The index of the first token that `predicate` holds of.
    pub fn position<P: Fn(&Token<SourceRef<'a>>) -> bool>(&self, predicate: P) -> (r: Option<usize>)
        requires
            forall|j: int| 0 <= j < self@.len() ==> call_requires(predicate, (&#[trigger] self@[j],)),
        ensures
            match r {
                Some(at) => at < self@.len() && call_ensures(predicate, (&self@[at as int],), true)
                    && forall|j: int|
                    0 <= j < at ==> call_ensures(predicate, (&#[trigger] self@[j],), false),
                None => forall|j: int|
                    0 <= j < self@.len() ==> call_ensures(
                        predicate,
                        (&#[trigger] self@[j],),
                        false,
                    ),
            },
    {
        let mut i: usize = 0;
        while i < self.tokens.len()
            invariant
                i <= self@.len(),
                forall|j: int|
                    0 <= j < self@.len() ==> call_requires(predicate, (&#[trigger] self@[j],)),
                forall|j: int| 0 <= j < i ==> call_ensures(predicate, (&#[trigger] self@[j],), false),
            decreases self@.len() - i,
        {
            if predicate(&self.tokens[i]) {
                return Some(i);
            }
            i += 1;
        }
        None
    }
}

} // verus!
