use crate::span::Span;
use vstd::prelude::*;

verus! {

/// Whether a digit literal carried a decimal point.
#[derive(PartialEq, Eq, Structural, Debug, Clone, Copy, Hash)]
pub enum DigitType {
    Float,
    Int,
}

/// One lexical token. Identifier, string and digit tokens carry spans into
/// the source bytes they were lexed from.
#[derive(PartialEq, Eq, Structural, Debug, Clone, Copy)]
pub enum Token {
    /// ==
    EqualTo,
    /// !=
    NotEqualTo,
    /// >=
    GreaterThanAndEqual,
    /// <=
    LessThanAndEqual,
    /// &&
    And,
    /// ||
    Or,
    /// ->
    ThinArrow,
    /// =>
    FatArrow,
    /// @
    AtSign,
    /// =
    EqualSign,
    /// ;
    Semicolon,
    /// :
    Colon,
    /// ::
    DoubleColon,
    /// ,
    Comma,
    /// .
    Dot,
    /// +
    Plus,
    /// -
    Minus,
    /// /
    Slash,
    /// \
    Backslash,
    /// *
    Asterisk,
    /// &
    Ampersand,
    /// %
    Modulo,
    /// +=
    PlusEqual,
    /// -=
    MinusEqual,
    /// *=
    AsteriskEqual,
    /// /=
    SlashEqual,
    /// %=
    ModEqual,
    /// !
    ExclamationMark,
    /// ?
    QuestionMark,
    /// ~
    Tilde,
    /// ^
    Caret,
    /// |
    Pipe,
    /// (
    LeftParenthesis,
    /// )
    RightParenthesis,
    /// [
    LeftSquare,
    /// ]
    RightSquare,
    /// {
    LeftCurly,
    /// }
    RightCurly,
    /// <
    LeftAngle,
    /// >
    RightAngle,
    /// #
    Hash,
    /// A run of ASCII whitespace, collapsed into one token.
    Whitespace,
    UsingKeyword,
    LetKeyword,
    MutKeyword,
    ModKeyword,
    MainKeyword,
    ViewportKeyword,
    ComponentKeyword,
    FinalKeyword,
    RenderKeyword,
    VerticesKeyword,
    FragmentsKeyword,
    ExportKeyword,
    PublicKeyword,
    RequiredKeyword,
    ModuleKeyword,
    MutableKeyword,
    ImmutableKeyword,
    FunctionKeyword,
    TypeKeyword,
    TraitKeyword,
    ImplementKeyword,
    ForKeyword,
    SwitchKeyword,
    Digit { val: Span, digittype: DigitType },
    Ident(Span),
    String(Span),
    EOF,
}

/// A lexing failure, with the byte offset it was noticed at.
#[derive(PartialEq, Eq, Structural, Debug, Clone, Copy)]
pub enum LexError {
    UnexpectedCharacter { at: usize },
    UnterminatedString { at: usize },
}

/// Outcome of lexing one token: the token and the position after it, or a
/// failure. Positions are unbounded integers; this type lives in
/// specifications only.
pub enum SLex {
    Tok(Token, int),
    Fail(LexError),
}

/// Outcome of lexing a whole input: every token before the end of input, or
/// the first failure.
pub enum STokens {
    Toks(Seq<Token>),
    Fail(LexError),
}

pub open spec fn is_ws(b: u8) -> bool {
    b == 32 || b == 9 || b == 10 || b == 12 || b == 13
}

pub open spec fn is_alpha(b: u8) -> bool {
    (65 <= b <= 90) || (97 <= b <= 122)
}

pub open spec fn is_digit(b: u8) -> bool {
    48 <= b <= 57
}

pub open spec fn is_ident_byte(b: u8) -> bool {
    is_alpha(b) || is_digit(b) || b == 95
}

/// End of the whitespace run that starts at `i`.
pub open spec fn ws_end(s: Seq<u8>, i: int) -> int
    decreases s.len() - i,
{
    if 0 <= i < s.len() && is_ws(s[i]) {
        ws_end(s, i + 1)
    } else {
        i
    }
}

/// End of the identifier run that starts at `i`.
pub open spec fn ident_end(s: Seq<u8>, i: int) -> int
    decreases s.len() - i,
{
    if 0 <= i < s.len() && is_ident_byte(s[i]) {
        ident_end(s, i + 1)
    } else {
        i
    }
}

/// End of the digit run that starts at `i`.
pub open spec fn digits_end(s: Seq<u8>, i: int) -> int
    decreases s.len() - i,
{
    if 0 <= i < s.len() && is_digit(s[i]) {
        digits_end(s, i + 1)
    } else {
        i
    }
}

/// Position just after the line feed that ends a line comment scanned from
/// `i`, or the end of input.
pub open spec fn line_comment_end(s: Seq<u8>, i: int) -> int
    decreases s.len() - i,
{
    if !(0 <= i < s.len()) {
        s.len() as int
    } else if s[i] == 10 {
        i + 1
    } else {
        line_comment_end(s, i + 1)
    }
}

/// Position just after the `*/` that closes a block comment scanned from `i`,
/// or the end of input when the comment never closes.
pub open spec fn block_comment_end(s: Seq<u8>, i: int) -> int
    decreases s.len() - i,
{
    if !(0 <= i && i + 1 < s.len()) {
        s.len() as int
    } else if s[i] == 42 && s[i + 1] == 47 {
        i + 2
    } else {
        block_comment_end(s, i + 1)
    }
}

/// Index of the `"` that closes a string literal scanned from `i`, or the end
/// of input when the literal never closes.
pub open spec fn string_end(s: Seq<u8>, i: int) -> int
    decreases s.len() - i,
{
    if !(0 <= i < s.len()) {
        s.len() as int
    } else if s[i] == 34 {
        i
    } else {
        string_end(s, i + 1)
    }
}

/// Position after every comment that starts directly at `i`: both comment
/// forms are discarded, emitting no token.
pub open spec fn skip_trivia(s: Seq<u8>, i: int) -> int
    decreases s.len() - i,
{
    if 0 <= i && i + 1 < s.len() && s[i] == 47 && s[i + 1] == 47 {
        let e = line_comment_end(s, i + 2);
        if i < e <= s.len() {
            skip_trivia(s, e)
        } else {
            e
        }
    } else if 0 <= i && i + 1 < s.len() && s[i] == 47 && s[i + 1] == 42 {
        let e = block_comment_end(s, i + 2);
        if i < e <= s.len() {
            skip_trivia(s, e)
        } else {
            e
        }
    } else {
        i
    }
}

pub open spec fn kw_using() -> Seq<u8> {
    seq!['u' as u8, 's' as u8, 'i' as u8, 'n' as u8, 'g' as u8]
}

pub open spec fn kw_let() -> Seq<u8> {
    seq!['l' as u8, 'e' as u8, 't' as u8]
}

pub open spec fn kw_mut() -> Seq<u8> {
    seq!['m' as u8, 'u' as u8, 't' as u8]
}

pub open spec fn kw_mod() -> Seq<u8> {
    seq!['m' as u8, 'o' as u8, 'd' as u8]
}

pub open spec fn kw_main() -> Seq<u8> {
    seq!['m' as u8, 'a' as u8, 'i' as u8, 'n' as u8]
}

pub open spec fn kw_viewport() -> Seq<u8> {
    seq!['v' as u8, 'i' as u8, 'e' as u8, 'w' as u8, 'p' as u8, 'o' as u8, 'r' as u8, 't' as u8]
}

pub open spec fn kw_component() -> Seq<u8> {
    seq![
        'c' as u8,
        'o' as u8,
        'm' as u8,
        'p' as u8,
        'o' as u8,
        'n' as u8,
        'e' as u8,
        'n' as u8,
        't' as u8,
    ]
}

pub open spec fn kw_final() -> Seq<u8> {
    seq!['f' as u8, 'i' as u8, 'n' as u8, 'a' as u8, 'l' as u8]
}

pub open spec fn kw_render() -> Seq<u8> {
    seq!['r' as u8, 'e' as u8, 'n' as u8, 'd' as u8, 'e' as u8, 'r' as u8]
}

pub open spec fn kw_vertices() -> Seq<u8> {
    seq!['v' as u8, 'e' as u8, 'r' as u8, 't' as u8, 'i' as u8, 'c' as u8, 'e' as u8, 's' as u8]
}

pub open spec fn kw_fragments() -> Seq<u8> {
    seq![
        'f' as u8,
        'r' as u8,
        'a' as u8,
        'g' as u8,
        'm' as u8,
        'e' as u8,
        'n' as u8,
        't' as u8,
        's' as u8,
    ]
}

pub open spec fn kw_export() -> Seq<u8> {
    seq!['e' as u8, 'x' as u8, 'p' as u8, 'o' as u8, 'r' as u8, 't' as u8]
}

pub open spec fn kw_public() -> Seq<u8> {
    seq!['p' as u8, 'u' as u8, 'b' as u8, 'l' as u8, 'i' as u8, 'c' as u8]
}

pub open spec fn kw_required() -> Seq<u8> {
    seq!['r' as u8, 'e' as u8, 'q' as u8, 'u' as u8, 'i' as u8, 'r' as u8, 'e' as u8, 'd' as u8]
}

pub open spec fn kw_module() -> Seq<u8> {
    seq!['m' as u8, 'o' as u8, 'd' as u8, 'u' as u8, 'l' as u8, 'e' as u8]
}

pub open spec fn kw_mutable() -> Seq<u8> {
    seq!['m' as u8, 'u' as u8, 't' as u8, 'a' as u8, 'b' as u8, 'l' as u8, 'e' as u8]
}

pub open spec fn kw_immutable() -> Seq<u8> {
    seq![
        'i' as u8,
        'm' as u8,
        'm' as u8,
        'u' as u8,
        't' as u8,
        'a' as u8,
        'b' as u8,
        'l' as u8,
        'e' as u8,
    ]
}

pub open spec fn kw_function() -> Seq<u8> {
    seq!['f' as u8, 'u' as u8, 'n' as u8, 'c' as u8, 't' as u8, 'i' as u8, 'o' as u8, 'n' as u8]
}

pub open spec fn kw_type() -> Seq<u8> {
    seq!['t' as u8, 'y' as u8, 'p' as u8, 'e' as u8]
}

pub open spec fn kw_trait() -> Seq<u8> {
    seq!['t' as u8, 'r' as u8, 'a' as u8, 'i' as u8, 't' as u8]
}

pub open spec fn kw_implement() -> Seq<u8> {
    seq![
        'i' as u8,
        'm' as u8,
        'p' as u8,
        'l' as u8,
        'e' as u8,
        'm' as u8,
        'e' as u8,
        'n' as u8,
        't' as u8,
    ]
}

pub open spec fn kw_for() -> Seq<u8> {
    seq!['f' as u8, 'o' as u8, 'r' as u8]
}

pub open spec fn kw_switch() -> Seq<u8> {
    seq!['s' as u8, 'w' as u8, 'i' as u8, 't' as u8, 'c' as u8, 'h' as u8]
}

/// The keyword token an identifier run spells, if any.
pub open spec fn spec_keyword(w: Seq<u8>) -> Option<Token> {
    if w == kw_using() {
        Some(Token::UsingKeyword)
    } else if w == kw_let() {
        Some(Token::LetKeyword)
    } else if w == kw_mut() {
        Some(Token::MutKeyword)
    } else if w == kw_mod() {
        Some(Token::ModKeyword)
    } else if w == kw_main() {
        Some(Token::MainKeyword)
    } else if w == kw_viewport() {
        Some(Token::ViewportKeyword)
    } else if w == kw_component() {
        Some(Token::ComponentKeyword)
    } else if w == kw_final() {
        Some(Token::FinalKeyword)
    } else if w == kw_render() {
        Some(Token::RenderKeyword)
    } else if w == kw_vertices() {
        Some(Token::VerticesKeyword)
    } else if w == kw_fragments() {
        Some(Token::FragmentsKeyword)
    } else if w == kw_export() {
        Some(Token::ExportKeyword)
    } else if w == kw_public() {
        Some(Token::PublicKeyword)
    } else if w == kw_required() {
        Some(Token::RequiredKeyword)
    } else if w == kw_module() {
        Some(Token::ModuleKeyword)
    } else if w == kw_mutable() {
        Some(Token::MutableKeyword)
    } else if w == kw_immutable() {
        Some(Token::ImmutableKeyword)
    } else if w == kw_function() {
        Some(Token::FunctionKeyword)
    } else if w == kw_type() {
        Some(Token::TypeKeyword)
    } else if w == kw_trait() {
        Some(Token::TraitKeyword)
    } else if w == kw_implement() {
        Some(Token::ImplementKeyword)
    } else if w == kw_for() {
        Some(Token::ForKeyword)
    } else if w == kw_switch() {
        Some(Token::SwitchKeyword)
    } else {
        None
    }
}

/// The token that starts exactly at `i`, comments already skipped.
pub open spec fn s_lex_raw(s: Seq<u8>, i: int) -> SLex {
    if !(0 <= i < s.len()) {
        SLex::Tok(Token::EOF, i)
    } else {
        let b = s[i];
        if b == '(' as u8 {
            SLex::Tok(Token::LeftParenthesis, i + 1)
        } else if b == ')' as u8 {
            SLex::Tok(Token::RightParenthesis, i + 1)
        } else if b == '{' as u8 {
            SLex::Tok(Token::LeftCurly, i + 1)
        } else if b == '}' as u8 {
            SLex::Tok(Token::RightCurly, i + 1)
        } else if b == '[' as u8 {
            SLex::Tok(Token::LeftSquare, i + 1)
        } else if b == ']' as u8 {
            SLex::Tok(Token::RightSquare, i + 1)
        } else if b == '@' as u8 {
            SLex::Tok(Token::AtSign, i + 1)
        } else if b == ';' as u8 {
            SLex::Tok(Token::Semicolon, i + 1)
        } else if b == ',' as u8 {
            SLex::Tok(Token::Comma, i + 1)
        } else if b == '.' as u8 {
            SLex::Tok(Token::Dot, i + 1)
        } else if b == '~' as u8 {
            SLex::Tok(Token::Tilde, i + 1)
        } else if b == '^' as u8 {
            SLex::Tok(Token::Caret, i + 1)
        } else if b == '?' as u8 {
            SLex::Tok(Token::QuestionMark, i + 1)
        } else if b == '#' as u8 {
            SLex::Tok(Token::Hash, i + 1)
        } else if b == '\\' as u8 {
            SLex::Tok(Token::Backslash, i + 1)
        } else if b == '-' as u8 {
            if i + 1 < s.len() && s[i + 1] == '>' as u8 {
                SLex::Tok(Token::ThinArrow, i + 2)
            } else if i + 1 < s.len() && s[i + 1] == '=' as u8 {
                SLex::Tok(Token::MinusEqual, i + 2)
            } else {
                SLex::Tok(Token::Minus, i + 1)
            }
        } else if b == '+' as u8 {
            if i + 1 < s.len() && s[i + 1] == '=' as u8 {
                SLex::Tok(Token::PlusEqual, i + 2)
            } else {
                SLex::Tok(Token::Plus, i + 1)
            }
        } else if b == '*' as u8 {
            if i + 1 < s.len() && s[i + 1] == '=' as u8 {
                SLex::Tok(Token::AsteriskEqual, i + 2)
            } else {
                SLex::Tok(Token::Asterisk, i + 1)
            }
        } else if b == '/' as u8 {
            if i + 1 < s.len() && s[i + 1] == '=' as u8 {
                SLex::Tok(Token::SlashEqual, i + 2)
            } else {
                SLex::Tok(Token::Slash, i + 1)
            }
        } else if b == '%' as u8 {
            if i + 1 < s.len() && s[i + 1] == '=' as u8 {
                SLex::Tok(Token::ModEqual, i + 2)
            } else {
                SLex::Tok(Token::Modulo, i + 1)
            }
        } else if b == '=' as u8 {
            if i + 1 < s.len() && s[i + 1] == '=' as u8 {
                SLex::Tok(Token::EqualTo, i + 2)
            } else if i + 1 < s.len() && s[i + 1] == '>' as u8 {
                SLex::Tok(Token::FatArrow, i + 2)
            } else {
                SLex::Tok(Token::EqualSign, i + 1)
            }
        } else if b == '!' as u8 {
            if i + 1 < s.len() && s[i + 1] == '=' as u8 {
                SLex::Tok(Token::NotEqualTo, i + 2)
            } else {
                SLex::Tok(Token::ExclamationMark, i + 1)
            }
        } else if b == '<' as u8 {
            if i + 1 < s.len() && s[i + 1] == '=' as u8 {
                SLex::Tok(Token::LessThanAndEqual, i + 2)
            } else {
                SLex::Tok(Token::LeftAngle, i + 1)
            }
        } else if b == '>' as u8 {
            if i + 1 < s.len() && s[i + 1] == '=' as u8 {
                SLex::Tok(Token::GreaterThanAndEqual, i + 2)
            } else {
                SLex::Tok(Token::RightAngle, i + 1)
            }
        } else if b == '&' as u8 {
            if i + 1 < s.len() && s[i + 1] == '&' as u8 {
                SLex::Tok(Token::And, i + 2)
            } else {
                SLex::Tok(Token::Ampersand, i + 1)
            }
        } else if b == '|' as u8 {
            if i + 1 < s.len() && s[i + 1] == '|' as u8 {
                SLex::Tok(Token::Or, i + 2)
            } else {
                SLex::Tok(Token::Pipe, i + 1)
            }
        } else if b == ':' as u8 {
            if i + 1 < s.len() && s[i + 1] == ':' as u8 {
                SLex::Tok(Token::DoubleColon, i + 2)
            } else {
                SLex::Tok(Token::Colon, i + 1)
            }
        } else if b == '"' as u8 {
            let e = string_end(s, i + 1);
            if e < s.len() {
                SLex::Tok(
                    Token::String(Span { begin: (i + 1) as usize, end: e as usize }),
                    e + 1,
                )
            } else {
                SLex::Fail(LexError::UnterminatedString { at: i as usize })
            }
        } else if is_ws(b) {
            SLex::Tok(Token::Whitespace, ws_end(s, i))
        } else if is_alpha(b) {
            let e = ident_end(s, i);
            match spec_keyword(s.subrange(i, e)) {
                Some(k) => SLex::Tok(k, e),
                None => SLex::Tok(Token::Ident(Span { begin: i as usize, end: e as usize }), e),
            }
        } else if is_digit(b) {
            let e = digits_end(s, i);
            if e < s.len() && s[e] == '.' as u8 {
                let e2 = digits_end(s, e + 1);
                SLex::Tok(
                    Token::Digit {
                        val: Span { begin: i as usize, end: e2 as usize },
                        digittype: DigitType::Float,
                    },
                    e2,
                )
            } else {
                SLex::Tok(
                    Token::Digit {
                        val: Span { begin: i as usize, end: e as usize },
                        digittype: DigitType::Int,
                    },
                    e,
                )
            }
        } else {
            SLex::Fail(LexError::UnexpectedCharacter { at: i as usize })
        }
    }
}

/// The next token from position `pos`: comments are discarded first, then one
/// token is read.
pub open spec fn s_lex_next(s: Seq<u8>, pos: int) -> SLex {
    s_lex_raw(s, skip_trivia(s, pos))
}

/// Every token from `pos` to the end of input, or the first lexing failure.
/// The end-of-input token itself is not part of the stream.
pub open spec fn s_tokens(s: Seq<u8>, pos: int) -> STokens
    decreases s.len() - pos, 1int,
{
    match s_lex_next(s, pos) {
        SLex::Fail(e) => STokens::Fail(e),
        SLex::Tok(t, n) => {
            if t == Token::EOF {
                STokens::Toks(Seq::empty())
            } else if pos < n <= s.len() {
                match s_tokens(s, n) {
                    STokens::Toks(rest) => STokens::Toks(seq![t] + rest),
                    STokens::Fail(e) => STokens::Fail(e),
                }
            } else {
                STokens::Fail(LexError::UnexpectedCharacter { at: 0 })
            }
        },
    }
}


fn kw_vec_using() -> (v: Vec<u8>)
    ensures
        v@ == kw_using(),
{
    let mut v: Vec<u8> = Vec::new();
    v.push('u' as u8);
    v.push('s' as u8);
    v.push('i' as u8);
    v.push('n' as u8);
    v.push('g' as u8);
    proof {
        assert(v@ =~= kw_using());
    }
    v
}
fn kw_vec_let() -> (v: Vec<u8>)
    ensures
        v@ == kw_let(),
{
    let mut v: Vec<u8> = Vec::new();
    v.push('l' as u8);
    v.push('e' as u8);
    v.push('t' as u8);
    proof {
        assert(v@ =~= kw_let());
    }
    v
}
fn kw_vec_mut() -> (v: Vec<u8>)
    ensures
        v@ == kw_mut(),
{
    let mut v: Vec<u8> = Vec::new();
    v.push('m' as u8);
    v.push('u' as u8);
    v.push('t' as u8);
    proof {
        assert(v@ =~= kw_mut());
    }
    v
}
fn kw_vec_mod() -> (v: Vec<u8>)
    ensures
        v@ == kw_mod(),
{
    let mut v: Vec<u8> = Vec::new();
    v.push('m' as u8);
    v.push('o' as u8);
    v.push('d' as u8);
    proof {
        assert(v@ =~= kw_mod());
    }
    v
}
fn kw_vec_main() -> (v: Vec<u8>)
    ensures
        v@ == kw_main(),
{
    let mut v: Vec<u8> = Vec::new();
    v.push('m' as u8);
    v.push('a' as u8);
    v.push('i' as u8);
    v.push('n' as u8);
    proof {
        assert(v@ =~= kw_main());
    }
    v
}
fn kw_vec_viewport() -> (v: Vec<u8>)
    ensures
        v@ == kw_viewport(),
{
    let mut v: Vec<u8> = Vec::new();
    v.push('v' as u8);
    v.push('i' as u8);
    v.push('e' as u8);
    v.push('w' as u8);
    v.push('p' as u8);
    v.push('o' as u8);
    v.push('r' as u8);
    v.push('t' as u8);
    proof {
        assert(v@ =~= kw_viewport());
    }
    v
}
fn kw_vec_component() -> (v: Vec<u8>)
    ensures
        v@ == kw_component(),
{
    let mut v: Vec<u8> = Vec::new();
    v.push('c' as u8);
    v.push('o' as u8);
    v.push('m' as u8);
    v.push('p' as u8);
    v.push('o' as u8);
    v.push('n' as u8);
    v.push('e' as u8);
    v.push('n' as u8);
    v.push('t' as u8);
    proof {
        assert(v@ =~= kw_component());
    }
    v
}
fn kw_vec_final() -> (v: Vec<u8>)
    ensures
        v@ == kw_final(),
{
    let mut v: Vec<u8> = Vec::new();
    v.push('f' as u8);
    v.push('i' as u8);
    v.push('n' as u8);
    v.push('a' as u8);
    v.push('l' as u8);
    proof {
        assert(v@ =~= kw_final());
    }
    v
}
fn kw_vec_render() -> (v: Vec<u8>)
    ensures
        v@ == kw_render(),
{
    let mut v: Vec<u8> = Vec::new();
    v.push('r' as u8);
    v.push('e' as u8);
    v.push('n' as u8);
    v.push('d' as u8);
    v.push('e' as u8);
    v.push('r' as u8);
    proof {
        assert(v@ =~= kw_render());
    }
    v
}
fn kw_vec_vertices() -> (v: Vec<u8>)
    ensures
        v@ == kw_vertices(),
{
    let mut v: Vec<u8> = Vec::new();
    v.push('v' as u8);
    v.push('e' as u8);
    v.push('r' as u8);
    v.push('t' as u8);
    v.push('i' as u8);
    v.push('c' as u8);
    v.push('e' as u8);
    v.push('s' as u8);
    proof {
        assert(v@ =~= kw_vertices());
    }
    v
}
fn kw_vec_fragments() -> (v: Vec<u8>)
    ensures
        v@ == kw_fragments(),
{
    let mut v: Vec<u8> = Vec::new();
    v.push('f' as u8);
    v.push('r' as u8);
    v.push('a' as u8);
    v.push('g' as u8);
    v.push('m' as u8);
    v.push('e' as u8);
    v.push('n' as u8);
    v.push('t' as u8);
    v.push('s' as u8);
    proof {
        assert(v@ =~= kw_fragments());
    }
    v
}
fn kw_vec_export() -> (v: Vec<u8>)
    ensures
        v@ == kw_export(),
{
    let mut v: Vec<u8> = Vec::new();
    v.push('e' as u8);
    v.push('x' as u8);
    v.push('p' as u8);
    v.push('o' as u8);
    v.push('r' as u8);
    v.push('t' as u8);
    proof {
        assert(v@ =~= kw_export());
    }
    v
}
fn kw_vec_public() -> (v: Vec<u8>)
    ensures
        v@ == kw_public(),
{
    let mut v: Vec<u8> = Vec::new();
    v.push('p' as u8);
    v.push('u' as u8);
    v.push('b' as u8);
    v.push('l' as u8);
    v.push('i' as u8);
    v.push('c' as u8);
    proof {
        assert(v@ =~= kw_public());
    }
    v
}
fn kw_vec_required() -> (v: Vec<u8>)
    ensures
        v@ == kw_required(),
{
    let mut v: Vec<u8> = Vec::new();
    v.push('r' as u8);
    v.push('e' as u8);
    v.push('q' as u8);
    v.push('u' as u8);
    v.push('i' as u8);
    v.push('r' as u8);
    v.push('e' as u8);
    v.push('d' as u8);
    proof {
        assert(v@ =~= kw_required());
    }
    v
}
fn kw_vec_module() -> (v: Vec<u8>)
    ensures
        v@ == kw_module(),
{
    let mut v: Vec<u8> = Vec::new();
    v.push('m' as u8);
    v.push('o' as u8);
    v.push('d' as u8);
    v.push('u' as u8);
    v.push('l' as u8);
    v.push('e' as u8);
    proof {
        assert(v@ =~= kw_module());
    }
    v
}
fn kw_vec_mutable() -> (v: Vec<u8>)
    ensures
        v@ == kw_mutable(),
{
    let mut v: Vec<u8> = Vec::new();
    v.push('m' as u8);
    v.push('u' as u8);
    v.push('t' as u8);
    v.push('a' as u8);
    v.push('b' as u8);
    v.push('l' as u8);
    v.push('e' as u8);
    proof {
        assert(v@ =~= kw_mutable());
    }
    v
}
fn kw_vec_immutable() -> (v: Vec<u8>)
    ensures
        v@ == kw_immutable(),
{
    let mut v: Vec<u8> = Vec::new();
    v.push('i' as u8);
    v.push('m' as u8);
    v.push('m' as u8);
    v.push('u' as u8);
    v.push('t' as u8);
    v.push('a' as u8);
    v.push('b' as u8);
    v.push('l' as u8);
    v.push('e' as u8);
    proof {
        assert(v@ =~= kw_immutable());
    }
    v
}
fn kw_vec_function() -> (v: Vec<u8>)
    ensures
        v@ == kw_function(),
{
    let mut v: Vec<u8> = Vec::new();
    v.push('f' as u8);
    v.push('u' as u8);
    v.push('n' as u8);
    v.push('c' as u8);
    v.push('t' as u8);
    v.push('i' as u8);
    v.push('o' as u8);
    v.push('n' as u8);
    proof {
        assert(v@ =~= kw_function());
    }
    v
}
fn kw_vec_type() -> (v: Vec<u8>)
    ensures
        v@ == kw_type(),
{
    let mut v: Vec<u8> = Vec::new();
    v.push('t' as u8);
    v.push('y' as u8);
    v.push('p' as u8);
    v.push('e' as u8);
    proof {
        assert(v@ =~= kw_type());
    }
    v
}
fn kw_vec_trait() -> (v: Vec<u8>)
    ensures
        v@ == kw_trait(),
{
    let mut v: Vec<u8> = Vec::new();
    v.push('t' as u8);
    v.push('r' as u8);
    v.push('a' as u8);
    v.push('i' as u8);
    v.push('t' as u8);
    proof {
        assert(v@ =~= kw_trait());
    }
    v
}
fn kw_vec_implement() -> (v: Vec<u8>)
    ensures
        v@ == kw_implement(),
{
    let mut v: Vec<u8> = Vec::new();
    v.push('i' as u8);
    v.push('m' as u8);
    v.push('p' as u8);
    v.push('l' as u8);
    v.push('e' as u8);
    v.push('m' as u8);
    v.push('e' as u8);
    v.push('n' as u8);
    v.push('t' as u8);
    proof {
        assert(v@ =~= kw_implement());
    }
    v
}
fn kw_vec_for() -> (v: Vec<u8>)
    ensures
        v@ == kw_for(),
{
    let mut v: Vec<u8> = Vec::new();
    v.push('f' as u8);
    v.push('o' as u8);
    v.push('r' as u8);
    proof {
        assert(v@ =~= kw_for());
    }
    v
}
fn kw_vec_switch() -> (v: Vec<u8>)
    ensures
        v@ == kw_switch(),
{
    let mut v: Vec<u8> = Vec::new();
    v.push('s' as u8);
    v.push('w' as u8);
    v.push('i' as u8);
    v.push('t' as u8);
    v.push('c' as u8);
    v.push('h' as u8);
    proof {
        assert(v@ =~= kw_switch());
    }
    v
}

/// Byte-for-byte equality of `src[b..e]` with `kw`.
fn range_eq(src: &Vec<u8>, b: usize, e: usize, kw: &Vec<u8>) -> (r: bool)
    requires
        b <= e <= src@.len(),
    ensures
        r == (src@.subrange(b as int, e as int) == kw@),
{
    let ghost w = src@.subrange(b as int, e as int);
    if e - b != kw.len() {
        return false;
    }
    let mut i: usize = 0;
    while i < kw.len()
        invariant
            b <= e <= src@.len(),
            e - b == kw@.len(),
            0 <= i <= kw@.len(),
            w == src@.subrange(b as int, e as int),
            forall|j: int| 0 <= j < i ==> w[j] == kw@[j],
        decreases kw@.len() - i,
    {
        if src[b + i] != kw[i] {
            proof {
                assert(w[i as int] == src@[b + i]);
            }
            return false;
        }
        i = i + 1;
    }
    proof {
        assert(w =~= kw@);
    }
    true
}

impl Tokenizer {
    /// Checks an identifier run against the reserved-word table: a match
    /// yields the keyword token, a miss yields `Ident`.
    #[inline]
    pub(crate) fn match_for_keywords(&self, input: Span) -> (t: Token)
        requires
            input.begin <= input.end <= self.src@.len(),
        ensures
            t == (match spec_keyword(self.src@.subrange(input.begin as int, input.end as int)) {
                Some(k) => k,
                None => Token::Ident(input),
            }),
    {
        if range_eq(&self.src, input.begin, input.end, &kw_vec_using()) {
            Token::UsingKeyword
        } else if range_eq(&self.src, input.begin, input.end, &kw_vec_let()) {
            Token::LetKeyword
        } else if range_eq(&self.src, input.begin, input.end, &kw_vec_mut()) {
            Token::MutKeyword
        } else if range_eq(&self.src, input.begin, input.end, &kw_vec_mod()) {
            Token::ModKeyword
        } else if range_eq(&self.src, input.begin, input.end, &kw_vec_main()) {
            Token::MainKeyword
        } else if range_eq(&self.src, input.begin, input.end, &kw_vec_viewport()) {
            Token::ViewportKeyword
        } else if range_eq(&self.src, input.begin, input.end, &kw_vec_component()) {
            Token::ComponentKeyword
        } else if range_eq(&self.src, input.begin, input.end, &kw_vec_final()) {
            Token::FinalKeyword
        } else if range_eq(&self.src, input.begin, input.end, &kw_vec_render()) {
            Token::RenderKeyword
        } else if range_eq(&self.src, input.begin, input.end, &kw_vec_vertices()) {
            Token::VerticesKeyword
        } else if range_eq(&self.src, input.begin, input.end, &kw_vec_fragments()) {
            Token::FragmentsKeyword
        } else if range_eq(&self.src, input.begin, input.end, &kw_vec_export()) {
            Token::ExportKeyword
        } else if range_eq(&self.src, input.begin, input.end, &kw_vec_public()) {
            Token::PublicKeyword
        } else if range_eq(&self.src, input.begin, input.end, &kw_vec_required()) {
            Token::RequiredKeyword
        } else if range_eq(&self.src, input.begin, input.end, &kw_vec_module()) {
            Token::ModuleKeyword
        } else if range_eq(&self.src, input.begin, input.end, &kw_vec_mutable()) {
            Token::MutableKeyword
        } else if range_eq(&self.src, input.begin, input.end, &kw_vec_immutable()) {
            Token::ImmutableKeyword
        } else if range_eq(&self.src, input.begin, input.end, &kw_vec_function()) {
            Token::FunctionKeyword
        } else if range_eq(&self.src, input.begin, input.end, &kw_vec_type()) {
            Token::TypeKeyword
        } else if range_eq(&self.src, input.begin, input.end, &kw_vec_trait()) {
            Token::TraitKeyword
        } else if range_eq(&self.src, input.begin, input.end, &kw_vec_implement()) {
            Token::ImplementKeyword
        } else if range_eq(&self.src, input.begin, input.end, &kw_vec_for()) {
            Token::ForKeyword
        } else if range_eq(&self.src, input.begin, input.end, &kw_vec_switch()) {
            Token::SwitchKeyword
        } else {
            Token::Ident(input)
        }
    }
}


proof fn lemma_ws_end_bounds(s: Seq<u8>, i: int)
    requires
        0 <= i <= s.len(),
    ensures
        i <= ws_end(s, i) <= s.len(),
    decreases s.len() - i,
{
    if i < s.len() && is_ws(s[i]) {
        lemma_ws_end_bounds(s, i + 1);
    }
}

proof fn lemma_ident_end_bounds(s: Seq<u8>, i: int)
    requires
        0 <= i <= s.len(),
    ensures
        i <= ident_end(s, i) <= s.len(),
    decreases s.len() - i,
{
    if i < s.len() && is_ident_byte(s[i]) {
        lemma_ident_end_bounds(s, i + 1);
    }
}

proof fn lemma_digits_end_bounds(s: Seq<u8>, i: int)
    requires
        0 <= i <= s.len(),
    ensures
        i <= digits_end(s, i) <= s.len(),
    decreases s.len() - i,
{
    if i < s.len() && is_digit(s[i]) {
        lemma_digits_end_bounds(s, i + 1);
    }
}

proof fn lemma_string_end_bounds(s: Seq<u8>, i: int)
    requires
        0 <= i <= s.len(),
    ensures
        i <= string_end(s, i) <= s.len(),
    decreases s.len() - i,
{
    if 0 <= i < s.len() && s[i] != 34 {
        lemma_string_end_bounds(s, i + 1);
    }
}

proof fn lemma_line_comment_end_bounds(s: Seq<u8>, i: int)
    requires
        0 <= i <= s.len(),
    ensures
        i <= line_comment_end(s, i) <= s.len(),
    decreases s.len() - i,
{
    if 0 <= i < s.len() && s[i] != 10 {
        lemma_line_comment_end_bounds(s, i + 1);
    }
}

proof fn lemma_block_comment_end_bounds(s: Seq<u8>, i: int)
    requires
        0 <= i <= s.len(),
    ensures
        i <= block_comment_end(s, i) <= s.len(),
    decreases s.len() - i,
{
    if 0 <= i && i + 1 < s.len() && !(s[i] == 42 && s[i + 1] == 47) {
        lemma_block_comment_end_bounds(s, i + 1);
    }
}

proof fn lemma_skip_trivia_bounds(s: Seq<u8>, i: int)
    requires
        0 <= i <= s.len(),
    ensures
        i <= skip_trivia(s, i) <= s.len(),
    decreases s.len() - i,
{
    if 0 <= i && i + 1 < s.len() && s[i] == 47 && s[i + 1] == 47 {
        lemma_line_comment_end_bounds(s, i + 2);
        let e = line_comment_end(s, i + 2);
        if i < e <= s.len() {
            lemma_skip_trivia_bounds(s, e);
        }
    } else if 0 <= i && i + 1 < s.len() && s[i] == 47 && s[i + 1] == 42 {
        lemma_block_comment_end_bounds(s, i + 2);
        let e = block_comment_end(s, i + 2);
        if i < e <= s.len() {
            lemma_skip_trivia_bounds(s, e);
        }
    }
}

/// After trivia, a successful lexing step never moves backwards, stays inside
/// the input, and consumes at least one byte unless it reports end of input.
pub proof fn lemma_lex_progress(s: Seq<u8>, pos: int)
    requires
        0 <= pos <= s.len(),
    ensures
        (match s_lex_next(s, pos) {
            SLex::Tok(t, n) => pos <= n <= s.len() && (t != Token::EOF ==> pos < n),
            SLex::Fail(e) => true,
        }),
{
    lemma_skip_trivia_bounds(s, pos);
    let i = skip_trivia(s, pos);
    if 0 <= i < s.len() {
        let b = s[i];
        if b == 34 {
            lemma_string_end_bounds(s, i + 1);
        } else if is_ws(b) {
            lemma_ws_end_bounds(s, i + 1);
        } else if is_alpha(b) {
            lemma_ident_end_bounds(s, i + 1);
        } else if is_digit(b) {
            lemma_digits_end_bounds(s, i + 1);
            let e = digits_end(s, i);
            if e < s.len() && s[e] == '.' as u8 {
                lemma_digits_end_bounds(s, e + 1);
            }
        }
    }
}

fn is_ws_byte(b: u8) -> (r: bool)
    ensures
        r == is_ws(b),
{
    b == 32 || b == 9 || b == 10 || b == 12 || b == 13
}

fn is_alpha_byte(b: u8) -> (r: bool)
    ensures
        r == is_alpha(b),
{
    (65 <= b && b <= 90) || (97 <= b && b <= 122)
}

fn is_digit_byte(b: u8) -> (r: bool)
    ensures
        r == is_digit(b),
{
    48 <= b && b <= 57
}

fn is_ident_byte_exec(b: u8) -> (r: bool)
    ensures
        r == is_ident_byte(b),
{
    is_alpha_byte(b) || is_digit_byte(b) || b == 95
}

/// The lexer: a cursor over a file's bytes that hands out one token at a
/// time, exactly as the specification-level lexing function describes.
pub struct Tokenizer {
    pub src: Vec<u8>,
    pub pos: usize,
}

impl Tokenizer {
    pub open spec fn wf(self) -> bool {
        self.pos <= self.src.len() && self.src.len() == self.src@.len()
    }

    pub fn new(input: Vec<u8>) -> (r: Tokenizer)
        ensures
            r.src@ == input@,
            r.pos == 0,
    {
        Tokenizer { src: input, pos: 0 }
    }

    #[inline]
    pub(crate) fn consume_single_line_comment(&mut self)
        requires
            old(self).wf(),
        ensures
            final(self).src@ == old(self).src@,
            final(self).pos == line_comment_end(old(self).src@, old(self).pos as int),
            final(self).wf(),
    {
        let ghost s = self.src@;
        let ghost start = self.pos as int;
        while self.pos < self.src.len() && self.src[self.pos] != 10
            invariant
                self.src@ == s,
                self.wf(),
                start <= self.pos as int <= s.len(),
                line_comment_end(s, start) == line_comment_end(s, self.pos as int),
            decreases s.len() - self.pos,
        {
            self.pos = self.pos + 1;
        }
        if self.pos < self.src.len() {
            self.pos = self.pos + 1;
        }
    }

    #[inline]
    pub(crate) fn consume_multi_line_comment(&mut self)
        requires
            old(self).wf(),
            old(self).pos + 2 <= old(self).src@.len(),
        ensures
            final(self).src@ == old(self).src@,
            final(self).pos == block_comment_end(old(self).src@, old(self).pos + 2),
            final(self).wf(),
    {
        let ghost s = self.src@;
        self.pos = self.pos + 2;
        let ghost start = self.pos as int;
        loop
            invariant
                self.src@ == s,
                self.wf(),
                s == old(self).src@,
                start == old(self).pos + 2,
                start <= self.pos as int <= s.len(),
                block_comment_end(s, start) == block_comment_end(s, self.pos as int),
            decreases s.len() - self.pos,
        {
            if self.pos < self.src.len() && self.pos + 1 < self.src.len() {
                if self.src[self.pos] == 42 && self.src[self.pos + 1] == 47 {
                    self.pos = self.pos + 2;
                    return;
                }
                self.pos = self.pos + 1;
            } else {
                let end = self.src.len();
                self.pos = end;
                return;
            }
        }
    }

    /// Discards every comment that starts at the cursor; comments lex to
    /// nothing.
    #[inline]
    pub(crate) fn consume_comment(&mut self)
        requires
            old(self).wf(),
        ensures
            final(self).src@ == old(self).src@,
            final(self).pos == skip_trivia(old(self).src@, old(self).pos as int),
            final(self).wf(),
    {
        let ghost s = self.src@;
        let ghost start = self.pos as int;
        loop
            invariant
                self.src@ == s,
                self.wf(),
                s == old(self).src@,
                start == old(self).pos as int,
                start <= self.pos as int <= s.len(),
                skip_trivia(s, start) == skip_trivia(s, self.pos as int),
            decreases s.len() - self.pos,
        {
            let ghost cur = self.pos as int;
            if self.pos < self.src.len() && self.pos + 1 < self.src.len() && self.src[self.pos] == 47
                && self.src[self.pos + 1] == 47 {
                proof {
                    lemma_line_comment_end_bounds(s, cur + 2);
                    assert(line_comment_end(s, cur) == line_comment_end(s, cur + 1));
                    assert(line_comment_end(s, cur + 1) == line_comment_end(s, cur + 2));
                }
                self.consume_single_line_comment();
            } else if self.pos < self.src.len() && self.pos + 1 < self.src.len() && self.src[self.pos]
                == 47 && self.src[self.pos + 1] == 42 {
                proof {
                    lemma_block_comment_end_bounds(s, cur + 2);
                }
                self.consume_multi_line_comment();
            } else {
                return;
            }
        }
    }

    #[inline]
    pub(crate) fn consume_whitespace(&mut self) -> (t: Token)
        requires
            old(self).wf(),
        ensures
            final(self).src@ == old(self).src@,
            final(self).pos == ws_end(old(self).src@, old(self).pos as int),
            final(self).wf(),
            t == Token::Whitespace,
    {
        let ghost s = self.src@;
        let ghost start = self.pos as int;
        while self.pos < self.src.len() && is_ws_byte(self.src[self.pos])
            invariant
                self.src@ == s,
                self.wf(),
                start <= self.pos as int <= s.len(),
                ws_end(s, start) == ws_end(s, self.pos as int),
            decreases s.len() - self.pos,
        {
            self.pos = self.pos + 1;
        }
        Token::Whitespace
    }

    #[inline]
    pub(crate) fn consume_ident_token(&mut self) -> (t: Token)
        requires
            old(self).wf(),
            old(self).pos < old(self).src@.len(),
        ensures
            final(self).src@ == old(self).src@,
            final(self).pos == ident_end(old(self).src@, old(self).pos as int),
            final(self).wf(),
            t == ({
                let s = old(self).src@;
                let i = old(self).pos as int;
                let e = ident_end(s, i);
                match spec_keyword(s.subrange(i, e)) {
                    Some(k) => k,
                    None => Token::Ident(Span { begin: i as usize, end: e as usize }),
                }
            }),
    {
        let ghost s = self.src@;
        let start = self.pos;
        while self.pos < self.src.len() && is_ident_byte_exec(self.src[self.pos])
            invariant
                self.src@ == s,
                self.wf(),
                start as int <= self.pos as int <= s.len(),
                ident_end(s, start as int) == ident_end(s, self.pos as int),
            decreases s.len() - self.pos,
        {
            self.pos = self.pos + 1;
        }
        self.match_for_keywords(Span { begin: start, end: self.pos })
    }

    #[inline]
    pub(crate) fn consume_digit_token(&mut self) -> (t: Token)
        requires
            old(self).wf(),
            old(self).pos < old(self).src@.len(),
        ensures
            final(self).src@ == old(self).src@,
            final(self).wf(),
            ({
                let s = old(self).src@;
                let i = old(self).pos as int;
                let e = digits_end(s, i);
                if e < s.len() && s[e] == '.' as u8 {
                    let e2 = digits_end(s, e + 1);
                    final(self).pos == e2 && t == Token::Digit {
                        val: Span { begin: i as usize, end: e2 as usize },
                        digittype: DigitType::Float,
                    }
                } else {
                    final(self).pos == e && t == Token::Digit {
                        val: Span { begin: i as usize, end: e as usize },
                        digittype: DigitType::Int,
                    }
                }
            }),
    {
        let ghost s = self.src@;
        let start = self.pos;
        while self.pos < self.src.len() && is_digit_byte(self.src[self.pos])
            invariant
                self.src@ == s,
                self.wf(),
                start as int <= self.pos as int <= s.len(),
                digits_end(s, start as int) == digits_end(s, self.pos as int),
            decreases s.len() - self.pos,
        {
            self.pos = self.pos + 1;
        }
        if self.pos < self.src.len() && self.src[self.pos] == '.' as u8 {
            self.pos = self.pos + 1;
            let ghost mid = self.pos as int;
            while self.pos < self.src.len() && is_digit_byte(self.src[self.pos])
                invariant
                    self.src@ == s,
                self.wf(),
                    mid <= self.pos as int <= s.len(),
                    digits_end(s, mid) == digits_end(s, self.pos as int),
                decreases s.len() - self.pos,
            {
                self.pos = self.pos + 1;
            }
            Token::Digit {
                val: Span { begin: start, end: self.pos },
                digittype: DigitType::Float,
            }
        } else {
            Token::Digit { val: Span { begin: start, end: self.pos }, digittype: DigitType::Int }
        }
    }

    #[inline]
    pub(crate) fn consume_string(&mut self) -> (r: Result<Token, LexError>)
        requires
            old(self).wf(),
            old(self).pos < old(self).src@.len(),
            old(self).src@[old(self).pos as int] == 34,
        ensures
            final(self).src@ == old(self).src@,
            final(self).wf(),
            old(self).pos <= final(self).pos,
            ({
                let s = old(self).src@;
                let i = old(self).pos as int;
                let e = string_end(s, i + 1);
                if e < s.len() {
                    r == Ok::<Token, LexError>(
                        Token::String(Span { begin: (i + 1) as usize, end: e as usize }),
                    ) && final(self).pos == e + 1
                } else {
                    r == Err::<Token, LexError>(LexError::UnterminatedString { at: i as usize })
                }
            }),
    {
        let ghost s = self.src@;
        let at = self.pos;
        self.pos = self.pos + 1;
        let start = self.pos;
        while self.pos < self.src.len() && self.src[self.pos] != 34
            invariant
                self.src@ == s,
                self.wf(),
                start as int <= self.pos as int <= s.len(),
                string_end(s, start as int) == string_end(s, self.pos as int),
            decreases s.len() - self.pos,
        {
            self.pos = self.pos + 1;
        }
        if self.pos < self.src.len() {
            let sp = Span { begin: start, end: self.pos };
            self.pos = self.pos + 1;
            Ok(Token::String(sp))
        } else {
            Err(LexError::UnterminatedString { at })
        }
    }

    #[inline]
    pub(crate) fn consume_minus(&mut self) -> (t: Token)
        requires
            old(self).wf(),
            old(self).pos < old(self).src@.len(),
            old(self).src@[old(self).pos as int] == '-' as u8,
        ensures
            final(self).src@ == old(self).src@,
            final(self).wf(),
            ({
                let s = old(self).src@;
                let i = old(self).pos as int;
                if i + 1 < s.len() && s[i + 1] == '>' as u8 {
                    t == Token::ThinArrow && final(self).pos == i + 2
                } else if i + 1 < s.len() && s[i + 1] == '=' as u8 {
                    t == Token::MinusEqual && final(self).pos == i + 2
                } else {
                    t == Token::Minus && final(self).pos == i + 1
                }
            }),
    {
        self.pos = self.pos + 1;
        if self.pos < self.src.len() && self.src[self.pos] == '>' as u8 {
            self.pos = self.pos + 1;
            Token::ThinArrow
        } else if self.pos < self.src.len() && self.src[self.pos] == '=' as u8 {
            self.pos = self.pos + 1;
            Token::MinusEqual
        } else {
            Token::Minus
        }
    }

    #[inline]
    pub(crate) fn consume_plus(&mut self) -> (t: Token)
        requires
            old(self).wf(),
            old(self).pos < old(self).src@.len(),
            old(self).src@[old(self).pos as int] == '+' as u8,
        ensures
            final(self).src@ == old(self).src@,
            final(self).wf(),
            ({
                let s = old(self).src@;
                let i = old(self).pos as int;
                if i + 1 < s.len() && s[i + 1] == '=' as u8 {
                    t == Token::PlusEqual && final(self).pos == i + 2
                } else {
                    t == Token::Plus && final(self).pos == i + 1
                }
            }),
    {
        self.pos = self.pos + 1;
        if self.pos < self.src.len() && self.src[self.pos] == '=' as u8 {
            self.pos = self.pos + 1;
            Token::PlusEqual
        } else {
            Token::Plus
        }
    }

    #[inline]
    pub(crate) fn consume_asterisk(&mut self) -> (t: Token)
        requires
            old(self).wf(),
            old(self).pos < old(self).src@.len(),
            old(self).src@[old(self).pos as int] == '*' as u8,
        ensures
            final(self).src@ == old(self).src@,
            final(self).wf(),
            ({
                let s = old(self).src@;
                let i = old(self).pos as int;
                if i + 1 < s.len() && s[i + 1] == '=' as u8 {
                    t == Token::AsteriskEqual && final(self).pos == i + 2
                } else {
                    t == Token::Asterisk && final(self).pos == i + 1
                }
            }),
    {
        self.pos = self.pos + 1;
        if self.pos < self.src.len() && self.src[self.pos] == '=' as u8 {
            self.pos = self.pos + 1;
            Token::AsteriskEqual
        } else {
            Token::Asterisk
        }
    }

    #[inline]
    pub(crate) fn consume_slash(&mut self) -> (t: Token)
        requires
            old(self).wf(),
            old(self).pos < old(self).src@.len(),
            old(self).src@[old(self).pos as int] == '/' as u8,
        ensures
            final(self).src@ == old(self).src@,
            final(self).wf(),
            ({
                let s = old(self).src@;
                let i = old(self).pos as int;
                if i + 1 < s.len() && s[i + 1] == '=' as u8 {
                    t == Token::SlashEqual && final(self).pos == i + 2
                } else {
                    t == Token::Slash && final(self).pos == i + 1
                }
            }),
    {
        self.pos = self.pos + 1;
        if self.pos < self.src.len() && self.src[self.pos] == '=' as u8 {
            self.pos = self.pos + 1;
            Token::SlashEqual
        } else {
            Token::Slash
        }
    }

    #[inline]
    pub(crate) fn consume_modulo(&mut self) -> (t: Token)
        requires
            old(self).wf(),
            old(self).pos < old(self).src@.len(),
            old(self).src@[old(self).pos as int] == '%' as u8,
        ensures
            final(self).src@ == old(self).src@,
            final(self).wf(),
            ({
                let s = old(self).src@;
                let i = old(self).pos as int;
                if i + 1 < s.len() && s[i + 1] == '=' as u8 {
                    t == Token::ModEqual && final(self).pos == i + 2
                } else {
                    t == Token::Modulo && final(self).pos == i + 1
                }
            }),
    {
        self.pos = self.pos + 1;
        if self.pos < self.src.len() && self.src[self.pos] == '=' as u8 {
            self.pos = self.pos + 1;
            Token::ModEqual
        } else {
            Token::Modulo
        }
    }

    #[inline]
    pub(crate) fn consume_equal_sign(&mut self) -> (t: Token)
        requires
            old(self).wf(),
            old(self).pos < old(self).src@.len(),
            old(self).src@[old(self).pos as int] == '=' as u8,
        ensures
            final(self).src@ == old(self).src@,
            final(self).wf(),
            ({
                let s = old(self).src@;
                let i = old(self).pos as int;
                if i + 1 < s.len() && s[i + 1] == '=' as u8 {
                    t == Token::EqualTo && final(self).pos == i + 2
                } else if i + 1 < s.len() && s[i + 1] == '>' as u8 {
                    t == Token::FatArrow && final(self).pos == i + 2
                } else {
                    t == Token::EqualSign && final(self).pos == i + 1
                }
            }),
    {
        self.pos = self.pos + 1;
        if self.pos < self.src.len() && self.src[self.pos] == '=' as u8 {
            self.pos = self.pos + 1;
            Token::EqualTo
        } else if self.pos < self.src.len() && self.src[self.pos] == '>' as u8 {
            self.pos = self.pos + 1;
            Token::FatArrow
        } else {
            Token::EqualSign
        }
    }

    #[inline]
    pub(crate) fn consume_exclamation_mark(&mut self) -> (t: Token)
        requires
            old(self).wf(),
            old(self).pos < old(self).src@.len(),
            old(self).src@[old(self).pos as int] == '!' as u8,
        ensures
            final(self).src@ == old(self).src@,
            final(self).wf(),
            ({
                let s = old(self).src@;
                let i = old(self).pos as int;
                if i + 1 < s.len() && s[i + 1] == '=' as u8 {
                    t == Token::NotEqualTo && final(self).pos == i + 2
                } else {
                    t == Token::ExclamationMark && final(self).pos == i + 1
                }
            }),
    {
        self.pos = self.pos + 1;
        if self.pos < self.src.len() && self.src[self.pos] == '=' as u8 {
            self.pos = self.pos + 1;
            Token::NotEqualTo
        } else {
            Token::ExclamationMark
        }
    }

    #[inline]
    pub(crate) fn consume_left_angle(&mut self) -> (t: Token)
        requires
            old(self).wf(),
            old(self).pos < old(self).src@.len(),
            old(self).src@[old(self).pos as int] == '<' as u8,
        ensures
            final(self).src@ == old(self).src@,
            final(self).wf(),
            ({
                let s = old(self).src@;
                let i = old(self).pos as int;
                if i + 1 < s.len() && s[i + 1] == '=' as u8 {
                    t == Token::LessThanAndEqual && final(self).pos == i + 2
                } else {
                    t == Token::LeftAngle && final(self).pos == i + 1
                }
            }),
    {
        self.pos = self.pos + 1;
        if self.pos < self.src.len() && self.src[self.pos] == '=' as u8 {
            self.pos = self.pos + 1;
            Token::LessThanAndEqual
        } else {
            Token::LeftAngle
        }
    }

    #[inline]
    pub(crate) fn consume_right_angle(&mut self) -> (t: Token)
        requires
            old(self).wf(),
            old(self).pos < old(self).src@.len(),
            old(self).src@[old(self).pos as int] == '>' as u8,
        ensures
            final(self).src@ == old(self).src@,
            final(self).wf(),
            ({
                let s = old(self).src@;
                let i = old(self).pos as int;
                if i + 1 < s.len() && s[i + 1] == '=' as u8 {
                    t == Token::GreaterThanAndEqual && final(self).pos == i + 2
                } else {
                    t == Token::RightAngle && final(self).pos == i + 1
                }
            }),
    {
        self.pos = self.pos + 1;
        if self.pos < self.src.len() && self.src[self.pos] == '=' as u8 {
            self.pos = self.pos + 1;
            Token::GreaterThanAndEqual
        } else {
            Token::RightAngle
        }
    }

    #[inline]
    pub(crate) fn consume_ampersand(&mut self) -> (t: Token)
        requires
            old(self).wf(),
            old(self).pos < old(self).src@.len(),
            old(self).src@[old(self).pos as int] == '&' as u8,
        ensures
            final(self).src@ == old(self).src@,
            final(self).wf(),
            ({
                let s = old(self).src@;
                let i = old(self).pos as int;
                if i + 1 < s.len() && s[i + 1] == '&' as u8 {
                    t == Token::And && final(self).pos == i + 2
                } else {
                    t == Token::Ampersand && final(self).pos == i + 1
                }
            }),
    {
        self.pos = self.pos + 1;
        if self.pos < self.src.len() && self.src[self.pos] == '&' as u8 {
            self.pos = self.pos + 1;
            Token::And
        } else {
            Token::Ampersand
        }
    }

    #[inline]
    pub(crate) fn consume_pipe(&mut self) -> (t: Token)
        requires
            old(self).wf(),
            old(self).pos < old(self).src@.len(),
            old(self).src@[old(self).pos as int] == '|' as u8,
        ensures
            final(self).src@ == old(self).src@,
            final(self).wf(),
            ({
                let s = old(self).src@;
                let i = old(self).pos as int;
                if i + 1 < s.len() && s[i + 1] == '|' as u8 {
                    t == Token::Or && final(self).pos == i + 2
                } else {
                    t == Token::Pipe && final(self).pos == i + 1
                }
            }),
    {
        self.pos = self.pos + 1;
        if self.pos < self.src.len() && self.src[self.pos] == '|' as u8 {
            self.pos = self.pos + 1;
            Token::Or
        } else {
            Token::Pipe
        }
    }

    #[inline]
    pub(crate) fn consume_colon(&mut self) -> (t: Token)
        requires
            old(self).wf(),
            old(self).pos < old(self).src@.len(),
            old(self).src@[old(self).pos as int] == ':' as u8,
        ensures
            final(self).src@ == old(self).src@,
            final(self).wf(),
            ({
                let s = old(self).src@;
                let i = old(self).pos as int;
                if i + 1 < s.len() && s[i + 1] == ':' as u8 {
                    t == Token::DoubleColon && final(self).pos == i + 2
                } else {
                    t == Token::Colon && final(self).pos == i + 1
                }
            }),
    {
        self.pos = self.pos + 1;
        if self.pos < self.src.len() && self.src[self.pos] == ':' as u8 {
            self.pos = self.pos + 1;
            Token::DoubleColon
        } else {
            Token::Colon
        }
    }

    /// One token, as the specification-level lexer gives it: comments are
    /// discarded first, then the byte at the cursor decides the production.
    pub fn consume_next_token(&mut self) -> (r: Result<Token, LexError>)
        requires
            old(self).wf(),
        ensures
            final(self).src@ == old(self).src@,
            final(self).wf(),
            old(self).pos <= final(self).pos,
            (match s_lex_next(old(self).src@, old(self).pos as int) {
                SLex::Tok(t, n) => r == Ok::<Token, LexError>(t) && final(self).pos == n,
                SLex::Fail(e) => r == Err::<Token, LexError>(e),
            }),
    {
        proof {
            lemma_lex_progress(self.src@, self.pos as int);
            lemma_skip_trivia_bounds(self.src@, self.pos as int);
        }
        self.consume_comment();
        if self.pos >= self.src.len() {
            return Ok(Token::EOF);
        }
        let b = self.src[self.pos];
        if b == '(' as u8 {
            self.pos = self.pos + 1;
            Ok(Token::LeftParenthesis)
        } else if b == ')' as u8 {
            self.pos = self.pos + 1;
            Ok(Token::RightParenthesis)
        } else if b == '{' as u8 {
            self.pos = self.pos + 1;
            Ok(Token::LeftCurly)
        } else if b == '}' as u8 {
            self.pos = self.pos + 1;
            Ok(Token::RightCurly)
        } else if b == '[' as u8 {
            self.pos = self.pos + 1;
            Ok(Token::LeftSquare)
        } else if b == ']' as u8 {
            self.pos = self.pos + 1;
            Ok(Token::RightSquare)
        } else if b == '@' as u8 {
            self.pos = self.pos + 1;
            Ok(Token::AtSign)
        } else if b == ';' as u8 {
            self.pos = self.pos + 1;
            Ok(Token::Semicolon)
        } else if b == ',' as u8 {
            self.pos = self.pos + 1;
            Ok(Token::Comma)
        } else if b == '.' as u8 {
            self.pos = self.pos + 1;
            Ok(Token::Dot)
        } else if b == '~' as u8 {
            self.pos = self.pos + 1;
            Ok(Token::Tilde)
        } else if b == '^' as u8 {
            self.pos = self.pos + 1;
            Ok(Token::Caret)
        } else if b == '?' as u8 {
            self.pos = self.pos + 1;
            Ok(Token::QuestionMark)
        } else if b == '#' as u8 {
            self.pos = self.pos + 1;
            Ok(Token::Hash)
        } else if b == '\\' as u8 {
            self.pos = self.pos + 1;
            Ok(Token::Backslash)
        } else if b == '-' as u8 {
            Ok(self.consume_minus())
        } else if b == '+' as u8 {
            Ok(self.consume_plus())
        } else if b == '*' as u8 {
            Ok(self.consume_asterisk())
        } else if b == '/' as u8 {
            Ok(self.consume_slash())
        } else if b == '%' as u8 {
            Ok(self.consume_modulo())
        } else if b == '=' as u8 {
            Ok(self.consume_equal_sign())
        } else if b == '!' as u8 {
            Ok(self.consume_exclamation_mark())
        } else if b == '<' as u8 {
            Ok(self.consume_left_angle())
        } else if b == '>' as u8 {
            Ok(self.consume_right_angle())
        } else if b == '&' as u8 {
            Ok(self.consume_ampersand())
        } else if b == '|' as u8 {
            Ok(self.consume_pipe())
        } else if b == ':' as u8 {
            Ok(self.consume_colon())
        } else if b == 34 {
            self.consume_string()
        } else if is_ws_byte(b) {
            Ok(self.consume_whitespace())
        } else if is_alpha_byte(b) {
            Ok(self.consume_ident_token())
        } else if is_digit_byte(b) {
            Ok(self.consume_digit_token())
        } else {
            Err(LexError::UnexpectedCharacter { at: self.pos })
        }
    }
}


/// A lexed token stream with a cursor, as the parser consumes it.
pub struct TokenTree {
    pub stream: Vec<Token>,
    pub pos: usize,
}

impl TokenTree {
    pub open spec fn wf(self) -> bool {
        self.pos <= self.stream.len() && self.stream.len() == self.stream@.len()
    }

    pub fn new(stream: Vec<Token>) -> (r: TokenTree)
        ensures
            r.stream@ == stream@,
            r.pos == 0,
            r.wf(),
    {
        let ghost n = stream.len();
        TokenTree { stream, pos: 0 }
    }

    pub fn current_token(&self) -> (r: Option<Token>)
        requires
            self.wf(),
        ensures
            r == (if self.pos < self.stream@.len() {
                Some(self.stream@[self.pos as int])
            } else {
                None::<Token>
            }),
    {
        if self.pos < self.stream.len() {
            Some(self.stream[self.pos])
        } else {
            None
        }
    }

    pub fn peek(&self) -> (r: Option<Token>)
        requires
            self.wf(),
        ensures
            r == (if self.pos < self.stream@.len() {
                Some(self.stream@[self.pos as int])
            } else {
                None::<Token>
            }),
    {
        self.current_token()
    }

    pub fn next_token(&mut self) -> (r: Option<Token>)
        requires
            old(self).wf(),
        ensures
            final(self).stream@ == old(self).stream@,
            final(self).wf(),
            (if old(self).pos < old(self).stream@.len() {
                r == Some(old(self).stream@[old(self).pos as int]) && final(self).pos == old(
                    self,
                ).pos + 1
            } else {
                r == None::<Token> && final(self).pos == old(self).pos
            }),
    {
        if self.pos < self.stream.len() {
            let t = self.stream[self.pos];
            self.pos = self.pos + 1;
            Some(t)
        } else {
            None
        }
    }
}

/// Lexes everything from the cursor to the end of input, appending the tokens
/// to `acc`; the end-of-input token is not stored.
fn lex_all(tz: Tokenizer, acc: &mut Vec<Token>) -> (r: Option<LexError>)
    requires
        tz.wf(),
    ensures
        (match s_tokens(tz.src@, tz.pos as int) {
            STokens::Toks(ts) => r is None && final(acc)@ == old(acc)@ + ts,
            STokens::Fail(e) => r == Some(e),
        }),
    decreases tz.src@.len() - tz.pos,
{
    let mut t = tz;
    proof {
        lemma_lex_progress(t.src@, t.pos as int);
    }
    let ghost s0 = t.src@;
    let ghost p0 = t.pos as int;
    match t.consume_next_token() {
        Err(e) => Some(e),
        Ok(tok) => {
            match tok {
                Token::EOF => {
                    proof {
                        assert(old(acc)@ + Seq::<Token>::empty() =~= old(acc)@);
                    }
                    None
                },
                _ => {
                    acc.push(tok);
                    let ghost mid = acc@;
                    let r = lex_all(t, acc);
                    proof {
                        if let STokens::Toks(rest) = s_tokens(s0, t.pos as int) {
                            assert(acc@ =~= old(acc)@ + (seq![tok] + rest));
                        }
                    }
                    r
                },
            }
        },
    }
}

impl Tokenizer {
    /// Lexes the whole input into a token stream for the parser.
    pub fn tree(self) -> (r: Result<TokenTree, LexError>)
        requires
            self.wf(),
        ensures
            (match s_tokens(self.src@, self.pos as int) {
                STokens::Toks(ts) => r matches Ok(tt) && tt.stream@ == ts && tt.pos == 0 && tt.wf(),
                STokens::Fail(e) => r == Err::<TokenTree, LexError>(e),
            }),
    {
        let mut acc: Vec<Token> = Vec::new();
        match lex_all(self, &mut acc) {
            Some(e) => Err(e),
            None => {
                proof {
                    if let STokens::Toks(ts) = s_tokens(self.src@, self.pos as int) {
                        assert(acc@ =~= ts);
                    }
                }
                Ok(TokenTree::new(acc))
            },
        }
    }
}

/// The fixed spelling of a token that carries no span: punctuation, operators
/// and keywords.
pub open spec fn token_spelling(t: Token) -> Option<Seq<u8>> {
    match t {
        Token::EqualTo => Some(seq!['=' as u8, '=' as u8]),
        Token::NotEqualTo => Some(seq!['!' as u8, '=' as u8]),
        Token::GreaterThanAndEqual => Some(seq!['>' as u8, '=' as u8]),
        Token::LessThanAndEqual => Some(seq!['<' as u8, '=' as u8]),
        Token::And => Some(seq!['&' as u8, '&' as u8]),
        Token::Or => Some(seq!['|' as u8, '|' as u8]),
        Token::ThinArrow => Some(seq!['-' as u8, '>' as u8]),
        Token::FatArrow => Some(seq!['=' as u8, '>' as u8]),
        Token::AtSign => Some(seq!['@' as u8]),
        Token::EqualSign => Some(seq!['=' as u8]),
        Token::Semicolon => Some(seq![';' as u8]),
        Token::Colon => Some(seq![':' as u8]),
        Token::DoubleColon => Some(seq![':' as u8, ':' as u8]),
        Token::Comma => Some(seq![',' as u8]),
        Token::Dot => Some(seq!['.' as u8]),
        Token::Plus => Some(seq!['+' as u8]),
        Token::Minus => Some(seq!['-' as u8]),
        Token::Slash => Some(seq!['/' as u8]),
        Token::Backslash => Some(seq!['\\' as u8]),
        Token::Asterisk => Some(seq!['*' as u8]),
        Token::Ampersand => Some(seq!['&' as u8]),
        Token::Modulo => Some(seq!['%' as u8]),
        Token::PlusEqual => Some(seq!['+' as u8, '=' as u8]),
        Token::MinusEqual => Some(seq!['-' as u8, '=' as u8]),
        Token::AsteriskEqual => Some(seq!['*' as u8, '=' as u8]),
        Token::SlashEqual => Some(seq!['/' as u8, '=' as u8]),
        Token::ModEqual => Some(seq!['%' as u8, '=' as u8]),
        Token::ExclamationMark => Some(seq!['!' as u8]),
        Token::QuestionMark => Some(seq!['?' as u8]),
        Token::Tilde => Some(seq!['~' as u8]),
        Token::Caret => Some(seq!['^' as u8]),
        Token::Pipe => Some(seq!['|' as u8]),
        Token::LeftParenthesis => Some(seq!['(' as u8]),
        Token::RightParenthesis => Some(seq![')' as u8]),
        Token::LeftSquare => Some(seq!['[' as u8]),
        Token::RightSquare => Some(seq![']' as u8]),
        Token::LeftCurly => Some(seq!['{' as u8]),
        Token::RightCurly => Some(seq!['}' as u8]),
        Token::LeftAngle => Some(seq!['<' as u8]),
        Token::RightAngle => Some(seq!['>' as u8]),
        Token::Hash => Some(seq!['#' as u8]),
        Token::UsingKeyword => Some(kw_using()),
        Token::LetKeyword => Some(kw_let()),
        Token::MutKeyword => Some(kw_mut()),
        Token::ModKeyword => Some(kw_mod()),
        Token::MainKeyword => Some(kw_main()),
        Token::ViewportKeyword => Some(kw_viewport()),
        Token::ComponentKeyword => Some(kw_component()),
        Token::FinalKeyword => Some(kw_final()),
        Token::RenderKeyword => Some(kw_render()),
        Token::VerticesKeyword => Some(kw_vertices()),
        Token::FragmentsKeyword => Some(kw_fragments()),
        Token::ExportKeyword => Some(kw_export()),
        Token::PublicKeyword => Some(kw_public()),
        Token::RequiredKeyword => Some(kw_required()),
        Token::ModuleKeyword => Some(kw_module()),
        Token::MutableKeyword => Some(kw_mutable()),
        Token::ImmutableKeyword => Some(kw_immutable()),
        Token::FunctionKeyword => Some(kw_function()),
        Token::TypeKeyword => Some(kw_type()),
        Token::TraitKeyword => Some(kw_trait()),
        Token::ImplementKeyword => Some(kw_implement()),
        Token::ForKeyword => Some(kw_for()),
        Token::SwitchKeyword => Some(kw_switch()),
        _ => None,
    }
}

/// What it means for a token lexed over `[start, n)` of `s` to stand for
/// exactly those bytes: spans point back at the very run they were read from,
/// fixed tokens spell the bytes they consumed.
pub open spec fn token_represents(s: Seq<u8>, t: Token, start: int, n: int) -> bool {
    match t {
        Token::Ident(sp) => {
            &&& sp.begin == start
            &&& sp.end == n
            &&& start < n <= s.len()
            &&& is_alpha(s[start])
            &&& forall|j: int| start <= j < n ==> is_ident_byte(s[j])
            &&& (n == s.len() || !is_ident_byte(s[n]))
            &&& spec_keyword(s.subrange(start, n)) is None
        },
        Token::String(sp) => {
            &&& sp.begin == start + 1
            &&& sp.end == n - 1
            &&& start + 2 <= n <= s.len()
            &&& s[start] == '"' as u8
            &&& s[n - 1] == '"' as u8
            &&& forall|j: int| start + 1 <= j < n - 1 ==> s[j] != '"' as u8
        },
        Token::Digit { val, digittype } => {
            &&& val.begin == start
            &&& val.end == n
            &&& start < n <= s.len()
            &&& is_digit(s[start])
            &&& (match digittype {
                DigitType::Int => forall|j: int| start <= j < n ==> is_digit(s[j]),
                DigitType::Float => exists|k: int|
                    start < k < n && s[k] == '.' as u8 && (forall|j: int|
                        start <= j < k ==> is_digit(s[j])) && (forall|j: int|
                        k < j < n ==> is_digit(s[j])),
            })
        },
        Token::Whitespace => {
            &&& start < n <= s.len()
            &&& forall|j: int| start <= j < n ==> is_ws(s[j])
        },
        Token::EOF => true,
        _ => {
            match token_spelling(t) {
                Some(w) => start <= n <= s.len() && s.subrange(start, n) == w,
                None => false,
            }
        },
    }
}

proof fn lemma_ws_run(s: Seq<u8>, i: int)
    requires
        0 <= i <= s.len(),
    ensures
        forall|j: int| i <= j < ws_end(s, i) ==> is_ws(s[j]),
        ws_end(s, i) == s.len() || (0 <= ws_end(s, i) < s.len() && !is_ws(s[ws_end(s, i)])),
    decreases s.len() - i,
{
    lemma_ws_end_bounds(s, i);
    if i < s.len() && is_ws(s[i]) {
        lemma_ws_run(s, i + 1);
    }
}

proof fn lemma_ident_run(s: Seq<u8>, i: int)
    requires
        0 <= i <= s.len(),
    ensures
        forall|j: int| i <= j < ident_end(s, i) ==> is_ident_byte(s[j]),
        ident_end(s, i) == s.len() || (0 <= ident_end(s, i) < s.len() && !is_ident_byte(
            s[ident_end(s, i)],
        )),
    decreases s.len() - i,
{
    lemma_ident_end_bounds(s, i);
    if i < s.len() && is_ident_byte(s[i]) {
        lemma_ident_run(s, i + 1);
    }
}

proof fn lemma_digits_run(s: Seq<u8>, i: int)
    requires
        0 <= i <= s.len(),
    ensures
        forall|j: int| i <= j < digits_end(s, i) ==> is_digit(s[j]),
        digits_end(s, i) == s.len() || (0 <= digits_end(s, i) < s.len() && !is_digit(
            s[digits_end(s, i)],
        )),
    decreases s.len() - i,
{
    lemma_digits_end_bounds(s, i);
    if i < s.len() && is_digit(s[i]) {
        lemma_digits_run(s, i + 1);
    }
}

proof fn lemma_string_run(s: Seq<u8>, i: int)
    requires
        0 <= i <= s.len(),
    ensures
        forall|j: int| i <= j < string_end(s, i) ==> s[j] != '"' as u8,
        string_end(s, i) == s.len() || (0 <= string_end(s, i) < s.len() && s[string_end(s, i)]
            == '"' as u8),
    decreases s.len() - i,
{
    lemma_string_end_bounds(s, i);
    if 0 <= i < s.len() && s[i] != 34 {
        lemma_string_run(s, i + 1);
    }
}

/// Span fidelity: every token the lexer yields stands for exactly the bytes
/// it was read from. A span token's `begin`/`end` point back at the run that
/// produced it, a keyword or punctuation token's extent spells the token, a
/// whitespace token covers a whitespace run.
pub proof fn lemma_span_fidelity(s: Seq<u8>, pos: int)
    requires
        0 <= pos <= s.len() <= usize::MAX,
    ensures
        (match s_lex_next(s, pos) {
            SLex::Tok(t, n) => t != Token::EOF ==> token_represents(s, t, skip_trivia(s, pos), n),
            SLex::Fail(e) => true,
        }),
{
    lemma_skip_trivia_bounds(s, pos);
    let i = skip_trivia(s, pos);
    if 0 <= i < s.len() {
        let b = s[i];
        assert(s.subrange(i, i + 1) =~= seq![s[i]]);
        if i + 1 < s.len() {
            assert(s.subrange(i, i + 2) =~= seq![s[i], s[i + 1]]);
        }
        if b == '"' as u8 {
            lemma_string_run(s, i + 1);
            lemma_string_end_bounds(s, i + 1);
        } else if is_ws(b) {
            lemma_ws_run(s, i);
            lemma_ws_end_bounds(s, i + 1);
            assert(ws_end(s, i) == ws_end(s, i + 1));
        } else if is_alpha(b) {
            lemma_ident_run(s, i);
            lemma_ident_end_bounds(s, i);
            let e = ident_end(s, i);
            if spec_keyword(s.subrange(i, e)) is Some {
                lemma_keyword_spelling(s, i, e);
            }
        } else if is_digit(b) {
            lemma_digits_run(s, i);
            lemma_digits_end_bounds(s, i + 1);
            let e = digits_end(s, i);
            assert(e == digits_end(s, i + 1));
            if e < s.len() && s[e] == '.' as u8 {
                lemma_digits_run(s, e + 1);
                lemma_digits_end_bounds(s, e + 1);
                let e2 = digits_end(s, e + 1);
                if let SLex::Tok(t, n) = s_lex_next(s, pos) {
                    assert(i < e < e2 && s[e] == '.' as u8);
                }
            }
        }
    }
}

proof fn lemma_keyword_spelling(s: Seq<u8>, i: int, e: int)
    requires
        0 <= i <= e <= s.len(),
        spec_keyword(s.subrange(i, e)) is Some,
    ensures
        token_spelling(spec_keyword(s.subrange(i, e)).unwrap()) == Some(s.subrange(i, e)),
{
}

/// Outcome of lexing a whole input while keeping each token's extent:
/// `(token, start, end)` where the extent `[start, end)` covers the token and
/// any comments directly before it.
pub enum SRun {
    Steps(Seq<(Token, int, int)>),
    Fail(LexError),
}

/// Every token from `pos` with its extent.
pub open spec fn s_lex_run(s: Seq<u8>, pos: int) -> SRun
    decreases s.len() - pos, 1int,
{
    match s_lex_next(s, pos) {
        SLex::Fail(e) => SRun::Fail(e),
        SLex::Tok(t, n) => {
            if t == Token::EOF {
                SRun::Steps(Seq::empty())
            } else if pos < n <= s.len() {
                match s_lex_run(s, n) {
                    SRun::Steps(rest) => SRun::Steps(seq![(t, pos, n)] + rest),
                    SRun::Fail(e) => SRun::Fail(e),
                }
            } else {
                SRun::Fail(LexError::UnexpectedCharacter { at: 0 })
            }
        },
    }
}

/// The bytes of every extent in `st`, concatenated.
pub open spec fn concat_steps(s: Seq<u8>, st: Seq<(Token, int, int)>) -> Seq<u8>
    decreases st.len(),
{
    if st.len() == 0 {
        Seq::empty()
    } else {
        s.subrange(st[0].1, st[0].2) + concat_steps(s, st.drop_first())
    }
}

/// Identifier round trip: over a whole run, token extents tile the input with
/// no gaps, so concatenating each token's bytes (identifier spans included)
/// and the trivia between them reproduces the input byte-for-byte up to the
/// last token; only trailing comments and end of input follow. Together with
/// span fidelity this pins each emitted `Ident` span to its exact source run.
#[verifier::rlimit(60)]
pub proof fn lemma_round_trip(s: Seq<u8>, pos: int)
    requires
        0 <= pos <= s.len() <= usize::MAX,
    ensures
        (match s_lex_run(s, pos) {
            SRun::Steps(st) => {
                &&& (st.len() > 0 ==> st[0].1 == pos)
                &&& (forall|i: int| 0 <= i < st.len() - 1 ==> st[i + 1].1 == st[i].2)
                &&& concat_steps(s, st) == s.subrange(
                    pos,
                    if st.len() == 0 {
                        pos
                    } else {
                        st[st.len() - 1].2
                    },
                )
                &&& (forall|i: int|
                    0 <= i < st.len() ==> pos <= #[trigger] st[i].1 && st[i].1 < st[i].2 <= s.len())
                &&& (forall|i: int|
                    0 <= i < st.len() ==> #[trigger] token_represents(
                        s,
                        st[i].0,
                        skip_trivia(s, st[i].1),
                        st[i].2,
                    ))
            },
            SRun::Fail(e) => true,
        }),
    decreases s.len() - pos,
{
    lemma_span_fidelity(s, pos);
    lemma_lex_progress(s, pos);
    match s_lex_next(s, pos) {
        SLex::Fail(e) => {},
        SLex::Tok(t, n) => {
            if t == Token::EOF {
                assert(concat_steps(s, Seq::empty()) =~= s.subrange(pos, pos));
            } else if pos < n <= s.len() {
                lemma_round_trip(s, n);
                if let SRun::Steps(rest) = s_lex_run(s, n) {
                    let st = seq![(t, pos, n)] + rest;
                    assert(st.drop_first() =~= rest);
                    assert(concat_steps(s, st) == s.subrange(pos, n) + concat_steps(s, rest));
                    if rest.len() == 0 {
                        assert(concat_steps(s, st) =~= s.subrange(pos, n));
                    } else {
                        let last2 = rest[rest.len() - 1].2;
                        assert(n <= rest[rest.len() - 1].1 < last2 <= s.len());
                        assert(s.subrange(pos, n) + s.subrange(n, last2) =~= s.subrange(
                            pos,
                            last2,
                        ));
                        assert(st[st.len() - 1].2 == last2);
                    }
                    assert forall|i: int|
                        0 <= i < st.len() implies pos <= #[trigger] st[i].1 && st[i].1 < st[i].2
                        <= s.len() by {
                        if i > 0 {
                            assert(st[i] == rest[i - 1]);
                        }
                    }
                    assert forall|i: int|
                        0 <= i < st.len() implies #[trigger] token_represents(
                        s,
                        st[i].0,
                        skip_trivia(s, st[i].1),
                        st[i].2,
                    ) by {
                        if i > 0 {
                            assert(st[i] == rest[i - 1]);
                        }
                    }
                }
            }
        },
    }
}

} // verus!
