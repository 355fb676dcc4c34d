use vstd::prelude::*;

pub use self::display::Display;

mod display;

verus! {

/// The kinds of tokens of Lox.
#[derive(Debug, Clone, Copy, PartialEq, Eq, Structural, PartialOrd, Ord, Hash)]
pub enum TokenType {
    LeftParen,
    RightParen,
    LeftBrace,
    RightBrace,
    Comma,
    Dot,
    Minus,
    Plus,
    Semicolon,
    Slash,
    Star,
    Bang,
    BangEqual,
    Equal,
    EqualEqual,
    Greater,
    GreaterEqual,
    Less,
    LessEqual,
    Ident,
    String,
    Num,
    And,
    Class,
    Else,
    False,
    Fun,
    For,
    If,
    Nil,
    Or,
    Print,
    Return,
    Super,
    This,
    True,
    Var,
    While,
    Eof,
}

/// The token type of a token made of the single byte `byte`, if there is one.
pub open spec fn single_type(byte: u8) -> Option<TokenType> {
    if byte == 40 {
        Some(TokenType::LeftParen)
    } else if byte == 41 {
        Some(TokenType::RightParen)
    } else if byte == 123 {
        Some(TokenType::LeftBrace)
    } else if byte == 125 {
        Some(TokenType::RightBrace)
    } else if byte == 44 {
        Some(TokenType::Comma)
    } else if byte == 46 {
        Some(TokenType::Dot)
    } else if byte == 45 {
        Some(TokenType::Minus)
    } else if byte == 43 {
        Some(TokenType::Plus)
    } else if byte == 59 {
        Some(TokenType::Semicolon)
    } else if byte == 42 {
        Some(TokenType::Star)
    } else if byte == 33 {
        Some(TokenType::Bang)
    } else if byte == 61 {
        Some(TokenType::Equal)
    } else if byte == 62 {
        Some(TokenType::Greater)
    } else if byte == 60 {
        Some(TokenType::Less)
    } else {
        None
    }
}

/// The token type of a token made of the two bytes `bytes`, if there is one.
pub open spec fn compound_type(bytes: Seq<u8>) -> Option<TokenType> {
    if bytes == seq![33u8, 61u8] {
        Some(TokenType::BangEqual)
    } else if bytes == seq![61u8, 61u8] {
        Some(TokenType::EqualEqual)
    } else if bytes == seq![62u8, 61u8] {
        Some(TokenType::GreaterEqual)
    } else if bytes == seq![60u8, 61u8] {
        Some(TokenType::LessEqual)
    } else {
        None
    }
}

/// The text by which a token type is displayed.  Identifiers, strings and
/// numbers have a placeholder in braces; every other type is displayed as
/// its source text.
pub open spec fn type_text(t: TokenType) -> Seq<char> {
    match t {
        TokenType::LeftParen => "("@,
        TokenType::RightParen => ")"@,
        TokenType::LeftBrace => "{"@,
        TokenType::RightBrace => "}"@,
        TokenType::Comma => ","@,
        TokenType::Dot => "."@,
        TokenType::Minus => "-"@,
        TokenType::Plus => "+"@,
        TokenType::Semicolon => ";"@,
        TokenType::Slash => "/"@,
        TokenType::Star => "*"@,
        TokenType::Bang => "!"@,
        TokenType::BangEqual => "!="@,
        TokenType::Equal => "="@,
        TokenType::EqualEqual => "=="@,
        TokenType::Greater => ">"@,
        TokenType::GreaterEqual => ">="@,
        TokenType::Less => "<"@,
        TokenType::LessEqual => "<="@,
        TokenType::Ident => "{ident}"@,
        TokenType::String => "{string}"@,
        TokenType::Num => "{num}"@,
        TokenType::And => "and"@,
        TokenType::Class => "class"@,
        TokenType::Else => "else"@,
        TokenType::False => "false"@,
        TokenType::Fun => "fun"@,
        TokenType::For => "for"@,
        TokenType::If => "if"@,
        TokenType::Nil => "nil"@,
        TokenType::Or => "or"@,
        TokenType::Print => "print"@,
        TokenType::Return => "return"@,
        TokenType::Super => "super"@,
        TokenType::This => "this"@,
        TokenType::True => "true"@,
        TokenType::Var => "var"@,
        TokenType::While => "while"@,
        TokenType::Eof => "{eof}"@,
    }
}

/// The position of a token type in the declaration of `TokenType`, which
/// orders token types.
pub open spec fn type_rank(t: TokenType) -> nat {
    match t {
        TokenType::LeftParen => 0,
        TokenType::RightParen => 1,
        TokenType::LeftBrace => 2,
        TokenType::RightBrace => 3,
        TokenType::Comma => 4,
        TokenType::Dot => 5,
        TokenType::Minus => 6,
        TokenType::Plus => 7,
        TokenType::Semicolon => 8,
        TokenType::Slash => 9,
        TokenType::Star => 10,
        TokenType::Bang => 11,
        TokenType::BangEqual => 12,
        TokenType::Equal => 13,
        TokenType::EqualEqual => 14,
        TokenType::Greater => 15,
        TokenType::GreaterEqual => 16,
        TokenType::Less => 17,
        TokenType::LessEqual => 18,
        TokenType::Ident => 19,
        TokenType::String => 20,
        TokenType::Num => 21,
        TokenType::And => 22,
        TokenType::Class => 23,
        TokenType::Else => 24,
        TokenType::False => 25,
        TokenType::Fun => 26,
        TokenType::For => 27,
        TokenType::If => 28,
        TokenType::Nil => 29,
        TokenType::Or => 30,
        TokenType::Print => 31,
        TokenType::Return => 32,
        TokenType::Super => 33,
        TokenType::This => 34,
        TokenType::True => 35,
        TokenType::Var => 36,
        TokenType::While => 37,
        TokenType::Eof => 38,
    }
}

/// A token type made of one byte is displayed as that byte, as it stands in
/// the source.
pub proof fn law_single_type_text(byte: u8)
    requires
        single_type(byte) is Some,
    ensures
        type_text(single_type(byte).unwrap()) == seq![byte as char],
{
    reveal_strlit("(");
    reveal_strlit(")");
    reveal_strlit("{");
    reveal_strlit("}");
    reveal_strlit(",");
    reveal_strlit(".");
    reveal_strlit("-");
    reveal_strlit("+");
    reveal_strlit(";");
    reveal_strlit("*");
    reveal_strlit("!");
    reveal_strlit("=");
    reveal_strlit(">");
    reveal_strlit("<");
}

/// A token type made of two bytes is displayed as those bytes, as they stand
/// in the source.
pub proof fn law_compound_type_text(bytes: Seq<u8>)
    requires
        compound_type(bytes) is Some,
    ensures
        type_text(compound_type(bytes).unwrap()) == seq![bytes[0] as char, bytes[1] as char],
{
    reveal_strlit("!=");
    reveal_strlit("==");
    reveal_strlit(">=");
    reveal_strlit("<=");
}

/// Every token type is displayed as its Lox source text, character by
/// character: the operators and keywords as written, and identifiers, strings,
/// numbers and the end of input as a placeholder in braces.
pub proof fn law_type_texts()
    ensures
        type_text(TokenType::LeftParen) == seq!['('],
        type_text(TokenType::RightParen) == seq![')'],
        type_text(TokenType::LeftBrace) == seq!['{'],
        type_text(TokenType::RightBrace) == seq!['}'],
        type_text(TokenType::Comma) == seq![','],
        type_text(TokenType::Dot) == seq!['.'],
        type_text(TokenType::Minus) == seq!['-'],
        type_text(TokenType::Plus) == seq!['+'],
        type_text(TokenType::Semicolon) == seq![';'],
        type_text(TokenType::Slash) == seq!['/'],
        type_text(TokenType::Star) == seq!['*'],
        type_text(TokenType::Bang) == seq!['!'],
        type_text(TokenType::BangEqual) == seq!['!', '='],
        type_text(TokenType::Equal) == seq!['='],
        type_text(TokenType::EqualEqual) == seq!['=', '='],
        type_text(TokenType::Greater) == seq!['>'],
        type_text(TokenType::GreaterEqual) == seq!['>', '='],
        type_text(TokenType::Less) == seq!['<'],
        type_text(TokenType::LessEqual) == seq!['<', '='],
        type_text(TokenType::Ident) == seq!['{', 'i', 'd', 'e', 'n', 't', '}'],
        type_text(TokenType::String) == seq!['{', 's', 't', 'r', 'i', 'n', 'g', '}'],
        type_text(TokenType::Num) == seq!['{', 'n', 'u', 'm', '}'],
        type_text(TokenType::And) == seq!['a', 'n', 'd'],
        type_text(TokenType::Class) == seq!['c', 'l', 'a', 's', 's'],
        type_text(TokenType::Else) == seq!['e', 'l', 's', 'e'],
        type_text(TokenType::False) == seq!['f', 'a', 'l', 's', 'e'],
        type_text(TokenType::Fun) == seq!['f', 'u', 'n'],
        type_text(TokenType::For) == seq!['f', 'o', 'r'],
        type_text(TokenType::If) == seq!['i', 'f'],
        type_text(TokenType::Nil) == seq!['n', 'i', 'l'],
        type_text(TokenType::Or) == seq!['o', 'r'],
        type_text(TokenType::Print) == seq!['p', 'r', 'i', 'n', 't'],
        type_text(TokenType::Return) == seq!['r', 'e', 't', 'u', 'r', 'n'],
        type_text(TokenType::Super) == seq!['s', 'u', 'p', 'e', 'r'],
        type_text(TokenType::This) == seq!['t', 'h', 'i', 's'],
        type_text(TokenType::True) == seq!['t', 'r', 'u', 'e'],
        type_text(TokenType::Var) == seq!['v', 'a', 'r'],
        type_text(TokenType::While) == seq!['w', 'h', 'i', 'l', 'e'],
        type_text(TokenType::Eof) == seq!['{', 'e', 'o', 'f', '}'],
{
    reveal_strlit("(");
    reveal_strlit(")");
    reveal_strlit("{");
    reveal_strlit("}");
    reveal_strlit(",");
    reveal_strlit(".");
    reveal_strlit("-");
    reveal_strlit("+");
    reveal_strlit(";");
    reveal_strlit("/");
    reveal_strlit("*");
    reveal_strlit("!");
    reveal_strlit("!=");
    reveal_strlit("=");
    reveal_strlit("==");
    reveal_strlit(">");
    reveal_strlit(">=");
    reveal_strlit("<");
    reveal_strlit("<=");
    reveal_strlit("{ident}");
    reveal_strlit("{string}");
    reveal_strlit("{num}");
    reveal_strlit("and");
    reveal_strlit("class");
    reveal_strlit("else");
    reveal_strlit("false");
    reveal_strlit("fun");
    reveal_strlit("for");
    reveal_strlit("if");
    reveal_strlit("nil");
    reveal_strlit("or");
    reveal_strlit("print");
    reveal_strlit("return");
    reveal_strlit("super");
    reveal_strlit("this");
    reveal_strlit("true");
    reveal_strlit("var");
    reveal_strlit("while");
    reveal_strlit("{eof}");
}

/// No two token types are displayed alike, so the display text of a token type
/// tells which type it is.
pub proof fn law_type_text_injective(a: TokenType, b: TokenType)
    requires
        type_text(a) == type_text(b),
    ensures
        a == b,
{
    law_type_texts();
    let t = type_text(a);
    assert(t.len() == type_text(b).len());
    if t.len() > 0 {
        assert(t[0] == type_text(b)[0]);
    }
    if t.len() > 1 {
        assert(t[1] == type_text(b)[1]);
    }
    match a {
        TokenType::LeftParen => {
            assert(b == TokenType::LeftParen);
        },
        TokenType::RightParen => {
            assert(b == TokenType::RightParen);
        },
        TokenType::LeftBrace => {
            assert(b == TokenType::LeftBrace);
        },
        TokenType::RightBrace => {
            assert(b == TokenType::RightBrace);
        },
        TokenType::Comma => {
            assert(b == TokenType::Comma);
        },
        TokenType::Dot => {
            assert(b == TokenType::Dot);
        },
        TokenType::Minus => {
            assert(b == TokenType::Minus);
        },
        TokenType::Plus => {
            assert(b == TokenType::Plus);
        },
        TokenType::Semicolon => {
            assert(b == TokenType::Semicolon);
        },
        TokenType::Slash => {
            assert(b == TokenType::Slash);
        },
        TokenType::Star => {
            assert(b == TokenType::Star);
        },
        TokenType::Bang => {
            assert(b == TokenType::Bang);
        },
        TokenType::BangEqual => {
            assert(b == TokenType::BangEqual);
        },
        TokenType::Equal => {
            assert(b == TokenType::Equal);
        },
        TokenType::EqualEqual => {
            assert(b == TokenType::EqualEqual);
        },
        TokenType::Greater => {
            assert(b == TokenType::Greater);
        },
        TokenType::GreaterEqual => {
            assert(b == TokenType::GreaterEqual);
        },
        TokenType::Less => {
            assert(b == TokenType::Less);
        },
        TokenType::LessEqual => {
            assert(b == TokenType::LessEqual);
        },
        TokenType::Ident => {
            assert(b == TokenType::Ident);
        },
        TokenType::String => {
            assert(b == TokenType::String);
        },
        TokenType::Num => {
            assert(b == TokenType::Num);
        },
        TokenType::And => {
            assert(b == TokenType::And);
        },
        TokenType::Class => {
            assert(b == TokenType::Class);
        },
        TokenType::Else => {
            assert(b == TokenType::Else);
        },
        TokenType::False => {
            assert(b == TokenType::False);
        },
        TokenType::Fun => {
            assert(b == TokenType::Fun);
        },
        TokenType::For => {
            assert(b == TokenType::For);
        },
        TokenType::If => {
            assert(b == TokenType::If);
        },
        TokenType::Nil => {
            assert(b == TokenType::Nil);
        },
        TokenType::Or => {
            assert(b == TokenType::Or);
        },
        TokenType::Print => {
            assert(b == TokenType::Print);
        },
        TokenType::Return => {
            assert(b == TokenType::Return);
        },
        TokenType::Super => {
            assert(b == TokenType::Super);
        },
        TokenType::This => {
            assert(b == TokenType::This);
        },
        TokenType::True => {
            assert(b == TokenType::True);
        },
        TokenType::Var => {
            assert(b == TokenType::Var);
        },
        TokenType::While => {
            assert(b == TokenType::While);
        },
        TokenType::Eof => {
            assert(b == TokenType::Eof);
        },
    }
}

/// The one-byte tokens are exactly the operators `(){},.-+;*!=><`.
pub proof fn law_single_type_domain(byte: u8)
    ensures
        single_type(byte) is Some <==> (byte == '(' as u8 || byte == ')' as u8 || byte == '{' as u8 || byte == '}' as u8 || byte == ',' as u8 || byte == '.' as u8 || byte == '-' as u8 || byte == '+' as u8 || byte == ';' as u8 || byte == '*' as u8 || byte == '!' as u8 || byte == '=' as u8 || byte == '>' as u8 || byte == '<' as u8),
{
}

/// The two-byte tokens are exactly the operators `!=`, `==`, `>=` and `<=`.
pub proof fn law_compound_type_domain(bytes: Seq<u8>)
    ensures
        compound_type(bytes) is Some <==> (bytes == seq!['!' as u8, '=' as u8] || bytes == seq!['=' as u8, '=' as u8]
            || bytes == seq!['>' as u8, '=' as u8] || bytes == seq!['<' as u8, '=' as u8]),
{
}

/// Ranks follow the order in which `TokenType` declares its variants: the
/// first is ranked 0 and each next one is ranked one higher.
pub proof fn law_rank_declaration_order()
    ensures
        type_rank(TokenType::LeftParen) == 0,
        type_rank(TokenType::LeftParen) + 1 == type_rank(TokenType::RightParen),
        type_rank(TokenType::RightParen) + 1 == type_rank(TokenType::LeftBrace),
        type_rank(TokenType::LeftBrace) + 1 == type_rank(TokenType::RightBrace),
        type_rank(TokenType::RightBrace) + 1 == type_rank(TokenType::Comma),
        type_rank(TokenType::Comma) + 1 == type_rank(TokenType::Dot),
        type_rank(TokenType::Dot) + 1 == type_rank(TokenType::Minus),
        type_rank(TokenType::Minus) + 1 == type_rank(TokenType::Plus),
        type_rank(TokenType::Plus) + 1 == type_rank(TokenType::Semicolon),
        type_rank(TokenType::Semicolon) + 1 == type_rank(TokenType::Slash),
        type_rank(TokenType::Slash) + 1 == type_rank(TokenType::Star),
        type_rank(TokenType::Star) + 1 == type_rank(TokenType::Bang),
        type_rank(TokenType::Bang) + 1 == type_rank(TokenType::BangEqual),
        type_rank(TokenType::BangEqual) + 1 == type_rank(TokenType::Equal),
        type_rank(TokenType::Equal) + 1 == type_rank(TokenType::EqualEqual),
        type_rank(TokenType::EqualEqual) + 1 == type_rank(TokenType::Greater),
        type_rank(TokenType::Greater) + 1 == type_rank(TokenType::GreaterEqual),
        type_rank(TokenType::GreaterEqual) + 1 == type_rank(TokenType::Less),
        type_rank(TokenType::Less) + 1 == type_rank(TokenType::LessEqual),
        type_rank(TokenType::LessEqual) + 1 == type_rank(TokenType::Ident),
        type_rank(TokenType::Ident) + 1 == type_rank(TokenType::String),
        type_rank(TokenType::String) + 1 == type_rank(TokenType::Num),
        type_rank(TokenType::Num) + 1 == type_rank(TokenType::And),
        type_rank(TokenType::And) + 1 == type_rank(TokenType::Class),
        type_rank(TokenType::Class) + 1 == type_rank(TokenType::Else),
        type_rank(TokenType::Else) + 1 == type_rank(TokenType::False),
        type_rank(TokenType::False) + 1 == type_rank(TokenType::Fun),
        type_rank(TokenType::Fun) + 1 == type_rank(TokenType::For),
        type_rank(TokenType::For) + 1 == type_rank(TokenType::If),
        type_rank(TokenType::If) + 1 == type_rank(TokenType::Nil),
        type_rank(TokenType::Nil) + 1 == type_rank(TokenType::Or),
        type_rank(TokenType::Or) + 1 == type_rank(TokenType::Print),
        type_rank(TokenType::Print) + 1 == type_rank(TokenType::Return),
        type_rank(TokenType::Return) + 1 == type_rank(TokenType::Super),
        type_rank(TokenType::Super) + 1 == type_rank(TokenType::This),
        type_rank(TokenType::This) + 1 == type_rank(TokenType::True),
        type_rank(TokenType::True) + 1 == type_rank(TokenType::Var),
        type_rank(TokenType::Var) + 1 == type_rank(TokenType::While),
        type_rank(TokenType::While) + 1 == type_rank(TokenType::Eof),
{
}

/// The token types whose tokens display their own text are exactly those of
/// identifiers, strings and numbers.
pub proof fn law_rich_types(t: TokenType)
    ensures
        t.is_rich() <==> (t == TokenType::Ident || t == TokenType::String || t == TokenType::Num),
{
}

impl TokenType {
    /// The token type of a two-byte operator.
    pub fn compound(bytes: &[u8]) -> (t: Self)
        requires
            compound_type(bytes@) is Some,
        ensures
            Some(t) == compound_type(bytes@),
    {
        let (a, b) = (bytes[0], bytes[1]);
        if a == 33 && b == 61 {
            assert(bytes@ == seq![33u8, 61u8]);
            TokenType::BangEqual
        } else if a == 61 && b == 61 {
            assert(bytes@ == seq![61u8, 61u8]);
            TokenType::EqualEqual
        } else if a == 62 && b == 61 {
            assert(bytes@ == seq![62u8, 61u8]);
            TokenType::GreaterEqual
        } else if a == 60 && b == 61 {
            assert(bytes@ == seq![60u8, 61u8]);
            TokenType::LessEqual
        } else {
            proof {
                assert(bytes@ == seq![a, b]);
                assert(false);
            }
            TokenType::Eof
        }
    }

    /// The token type of a one-byte token.
    pub fn single(byte: u8) -> (t: Self)
        requires
            single_type(byte) is Some,
        ensures
            Some(t) == single_type(byte),
    {
        match byte {
            40 => TokenType::LeftParen,
            41 => TokenType::RightParen,
            123 => TokenType::LeftBrace,
            125 => TokenType::RightBrace,
            44 => TokenType::Comma,
            46 => TokenType::Dot,
            45 => TokenType::Minus,
            43 => TokenType::Plus,
            59 => TokenType::Semicolon,
            42 => TokenType::Star,
            33 => TokenType::Bang,
            61 => TokenType::Equal,
            62 => TokenType::Greater,
            60 => TokenType::Less,
            _ => {
                proof {
                    assert(false);
                }
                TokenType::Eof
            },
        }
    }

    /// The position of this token type in the declaration of `TokenType`.
    pub fn rank(self) -> (r: u8)
        ensures
            r == type_rank(self),
    {
        match self {
            TokenType::LeftParen => 0,
            TokenType::RightParen => 1,
            TokenType::LeftBrace => 2,
            TokenType::RightBrace => 3,
            TokenType::Comma => 4,
            TokenType::Dot => 5,
            TokenType::Minus => 6,
            TokenType::Plus => 7,
            TokenType::Semicolon => 8,
            TokenType::Slash => 9,
            TokenType::Star => 10,
            TokenType::Bang => 11,
            TokenType::BangEqual => 12,
            TokenType::Equal => 13,
            TokenType::EqualEqual => 14,
            TokenType::Greater => 15,
            TokenType::GreaterEqual => 16,
            TokenType::Less => 17,
            TokenType::LessEqual => 18,
            TokenType::Ident => 19,
            TokenType::String => 20,
            TokenType::Num => 21,
            TokenType::And => 22,
            TokenType::Class => 23,
            TokenType::Else => 24,
            TokenType::False => 25,
            TokenType::Fun => 26,
            TokenType::For => 27,
            TokenType::If => 28,
            TokenType::Nil => 29,
            TokenType::Or => 30,
            TokenType::Print => 31,
            TokenType::Return => 32,
            TokenType::Super => 33,
            TokenType::This => 34,
            TokenType::True => 35,
            TokenType::Var => 36,
            TokenType::While => 37,
            TokenType::Eof => 38,
        }
    }

    /// The text by which this token type is displayed.
    pub fn as_str(self) -> (s: &'static str)
        ensures
            s@ == type_text(self),
    {
        match self {
            TokenType::LeftParen => "(",
            TokenType::RightParen => ")",
            TokenType::LeftBrace => "{",
            TokenType::RightBrace => "}",
            TokenType::Comma => ",",
            TokenType::Dot => ".",
            TokenType::Minus => "-",
            TokenType::Plus => "+",
            TokenType::Semicolon => ";",
            TokenType::Slash => "/",
            TokenType::Star => "*",
            TokenType::Bang => "!",
            TokenType::BangEqual => "!=",
            TokenType::Equal => "=",
            TokenType::EqualEqual => "==",
            TokenType::Greater => ">",
            TokenType::GreaterEqual => ">=",
            TokenType::Less => "<",
            TokenType::LessEqual => "<=",
            TokenType::Ident => "{ident}",
            TokenType::String => "{string}",
            TokenType::Num => "{num}",
            TokenType::And => "and",
            TokenType::Class => "class",
            TokenType::Else => "else",
            TokenType::False => "false",
            TokenType::Fun => "fun",
            TokenType::For => "for",
            TokenType::If => "if",
            TokenType::Nil => "nil",
            TokenType::Or => "or",
            TokenType::Print => "print",
            TokenType::Return => "return",
            TokenType::Super => "super",
            TokenType::This => "this",
            TokenType::True => "true",
            TokenType::Var => "var",
            TokenType::While => "while",
            TokenType::Eof => "{eof}",
        }
    }

    /// A display adapter that shows `token`, the text of a token of this type,
    /// where the type is that of identifiers, strings or numbers, and the text
    /// of the type otherwise.
    pub fn display_with(self, token: &str) -> (d: Display<'_>)
        ensures
            d.token_type() == self,
            d.displayable()@ == token@,
    {
        Display::new(self, token)
    }

    /// Whether tokens of this type display their own text rather than the
    /// text of their type: identifiers, strings and numbers.
    pub open spec fn is_rich(self) -> bool {
        self is Ident || self is String || self is Num
    }
}

} // verus!
