//! Tokens and source locations. The tokenizer turns the source text of the
//! supported subset into a token sequence, tracking line and column itself.

use vstd::prelude::*;

verus! {

/// A position in the source text: 1-based line, 0-based column.
#[derive(Clone, Copy, Debug, PartialEq, Eq, Structural)]
pub struct SourceLocation {
    pub line: usize,
    pub col: usize,
}

/// One token of the supported subset. A number keeps its digit text; the
/// tag says whether a decimal point occurred.
#[derive(Clone, Debug)]
pub enum Token {
    Number { value: String, is_float: bool, loc: SourceLocation },
    Symbol { value: String, loc: SourceLocation },
    String { value: String, loc: SourceLocation },
    Identifier { value: String, loc: SourceLocation },
    Keyword { value: String, loc: SourceLocation },
    EOF { loc: SourceLocation },
}

/// Mathematical view of `Token`.
pub enum TokenV {
    Number { value: Seq<char>, is_float: bool, loc: SourceLocation },
    Symbol { value: Seq<char>, loc: SourceLocation },
    String { value: Seq<char>, loc: SourceLocation },
    Identifier { value: Seq<char>, loc: SourceLocation },
    Keyword { value: Seq<char>, loc: SourceLocation },
    EOF { loc: SourceLocation },
}

impl View for Token {
    type V = TokenV;

    open spec fn view(&self) -> TokenV {
        match self {
            Token::Number { value, is_float, loc } => TokenV::Number {
                value: value@,
                is_float: *is_float,
                loc: *loc,
            },
            Token::Symbol { value, loc } => TokenV::Symbol { value: value@, loc: *loc },
            Token::String { value, loc } => TokenV::String { value: value@, loc: *loc },
            Token::Identifier { value, loc } => TokenV::Identifier { value: value@, loc: *loc },
            Token::Keyword { value, loc } => TokenV::Keyword { value: value@, loc: *loc },
            Token::EOF { loc } => TokenV::EOF { loc: *loc },
        }
    }
}

/// The text a token carries, independent of its kind.
pub open spec fn token_text(t: TokenV) -> Seq<char> {
    match t {
        TokenV::Number { value, .. } => value,
        TokenV::Symbol { value, .. } => value,
        TokenV::String { value, .. } => value,
        TokenV::Identifier { value, .. } => value,
        TokenV::Keyword { value, .. } => value,
        TokenV::EOF { .. } => Seq::empty(),
    }
}

/// The location a token carries.
pub open spec fn token_loc(t: TokenV) -> SourceLocation {
    match t {
        TokenV::Number { loc, .. } => loc,
        TokenV::Symbol { loc, .. } => loc,
        TokenV::String { loc, .. } => loc,
        TokenV::Identifier { loc, .. } => loc,
        TokenV::Keyword { loc, .. } => loc,
        TokenV::EOF { loc } => loc,
    }
}

impl Token {
    /// Whether this token marks the end of input.
    pub fn is_eof(&self) -> (r: bool)
        ensures
            r == (self@ is EOF),
    {
        match self {
            Token::EOF { .. } => true,
            _ => false,
        }
    }

    /// The token's text.
    pub fn str(&self) -> (r: String)
        ensures
            r@ == token_text(self@),
    {
        match self {
            Token::Symbol { value, .. } => value.clone(),
            Token::Keyword { value, .. } => value.clone(),
            Token::Number { value, .. } => value.clone(),
            Token::String { value, .. } => value.clone(),
            Token::Identifier { value, .. } => value.clone(),
            Token::EOF { .. } => String::new(),
        }
    }

    /// The identifier's text, for identifier tokens only.
    pub fn as_identifier(&self) -> (r: Option<&String>)
        ensures
            match r {
                Option::Some(s) => self@ is Identifier && s@ == token_text(self@),
                Option::None => !(self@ is Identifier),
            },
    {
        match self {
            Token::Identifier { value, .. } => Some(value),
            _ => None,
        }
    }

    /// The token's source location.
    pub fn loc(&self) -> (r: &SourceLocation)
        ensures
            *r == token_loc(self@),
    {
        match self {
            Token::Number { value: _, is_float: _, loc } => loc,
            Token::Symbol { value: _, loc } => loc,
            Token::String { value: _, loc } => loc,
            Token::Identifier { value: _, loc } => loc,
            Token::Keyword { value: _, loc } => loc,
            Token::EOF { loc } => loc,
        }
    }
}


/// Whether `c` can start an identifier.
pub open spec fn sp_ident_start(c: char) -> bool {
    ('a' <= c && c <= 'z') || ('A' <= c && c <= 'Z') || c == '_'
}

/// Whether `c` can continue an identifier.
pub open spec fn sp_ident_cont(c: char) -> bool {
    sp_ident_start(c) || sp_digit(c)
}

/// Whether `c` is a decimal digit.
pub open spec fn sp_digit(c: char) -> bool {
    '0' <= c && c <= '9'
}

/// Whether `c` is horizontal or vertical whitespace.
pub open spec fn sp_space(c: char) -> bool {
    c == ' ' || c == '\t' || c == '\r' || c == '\n'
}

/// The source location of position `i`: 1-based line, 0-based column.
pub open spec fn sp_loc_at(s: Seq<char>, i: int) -> SourceLocation
    decreases i,
{
    if i <= 0 {
        SourceLocation { line: 1, col: 0 }
    } else {
        let prev = sp_loc_at(s, i - 1);
        if 0 < i <= s.len() && s[i - 1] == '\n' {
            SourceLocation {
                line: if prev.line < usize::MAX {
                    (prev.line + 1) as usize
                } else {
                    prev.line
                },
                col: 0,
            }
        } else {
            SourceLocation {
                line: prev.line,
                col: if prev.col < usize::MAX {
                    (prev.col + 1) as usize
                } else {
                    prev.col
                },
            }
        }
    }
}

/// The first position at or after `i` that is not whitespace and not part
/// of a line comment.
pub open spec fn sp_skip(s: Seq<char>, i: int) -> int
    decreases s.len() - i, 0int,
{
    if i < 0 || i >= s.len() {
        i
    } else if sp_space(s[i]) {
        sp_skip(s, i + 1)
    } else if s[i] == '/' && i + 1 < s.len() && s[i + 1] == '/' {
        sp_skip_line(s, i + 2)
    } else {
        i
    }
}

/// Skips to just after the next newline.
pub open spec fn sp_skip_line(s: Seq<char>, i: int) -> int
    decreases s.len() - i, 1int,
{
    if i < 0 || i >= s.len() {
        i
    } else if s[i] == '\n' {
        sp_skip(s, i + 1)
    } else {
        sp_skip_line(s, i + 1)
    }
}

/// The end of the identifier/number run starting at `i`.
pub open spec fn sp_scan(s: Seq<char>, i: int, digits_only: bool) -> int
    decreases s.len() - i,
{
    if i < 0 || i >= s.len() {
        i
    } else if (digits_only && sp_digit(s[i])) || (!digits_only && sp_ident_cont(s[i])) {
        sp_scan(s, i + 1, digits_only)
    } else {
        i
    }
}


/// The end of a string literal's body: the position of the closing quote.
pub open spec fn sp_scan_str(s: Seq<char>, i: int) -> int
    decreases s.len() - i,
{
    if i < 0 || i >= s.len() {
        i
    } else if s[i] == '"' {
        i
    } else {
        sp_scan_str(s, i + 1)
    }
}

/// The keywords of the supported subset.
pub open spec fn sp_keyword(w: Seq<char>) -> bool {
    w == "fn"@ || w == "let"@ || w == "if"@ || w == "else"@ || w == "true"@ || w == "false"@ || w
        == "mut"@
}

/// Whether the two characters form one two-character symbol.
pub open spec fn sp_two_sym(c: char, d: char) -> bool {
    (c == ':' && d == ':') || (c == '-' && d == '>') || (c == '=' && d == '=') || (c == '!' && d
        == '=') || (c == '<' && d == '=') || (c == '>' && d == '=') || (c == '&' && d == '&') || (c
        == '|' && d == '|') || (c == '<' && d == '<') || (c == '>' && d == '>') || (c == '+' && d
        == '=') || (c == '-' && d == '=') || (c == '*' && d == '=') || (c == '/' && d == '=') || (c
        == '%' && d == '=') || (c == '^' && d == '=') || (c == '&' && d == '=') || (c == '|' && d
        == '=')
}

/// Whether the character is a one-character symbol.
pub open spec fn sp_one_sym(c: char) -> bool {
    c == '+' || c == '-' || c == '*' || c == '/' || c == '%' || c == '=' || c == '<' || c == '>'
        || c == '!' || c == '&' || c == '|' || c == '^' || c == '.' || c == ',' || c == ':' || c
        == ';' || c == '(' || c == ')' || c == '{' || c == '}'
}

/// The next token at or after `i`, and the position just past it.
pub open spec fn sp_next_token(s: Seq<char>, i: int) -> Result<(TokenV, int), crate::error::CompileErrorV> {
    let j = sp_skip(s, i);
    if j >= s.len() {
        Ok((TokenV::EOF { loc: sp_loc_at(s, s.len() as int) }, s.len() as int))
    } else {
        let c = s[j];
        let loc = sp_loc_at(s, j);
        if sp_ident_start(c) {
            let k = sp_scan(s, j, false);
            let w = s.subrange(j, k);
            if sp_keyword(w) {
                Ok((TokenV::Keyword { value: w, loc }, k))
            } else {
                Ok((TokenV::Identifier { value: w, loc }, k))
            }
        } else if sp_digit(c) {
            let k = sp_scan(s, j, true);
            if k < s.len() && s[k] == '.' {
                let k2 = sp_scan(s, k + 1, true);
                Ok((TokenV::Number { value: s.subrange(j, k2), is_float: true, loc }, k2))
            } else {
                Ok((TokenV::Number { value: s.subrange(j, k), is_float: false, loc }, k))
            }
        } else if c == '"' {
            let k = sp_scan_str(s, j + 1);
            if k >= s.len() {
                Err(crate::error::CompileErrorV::SyntaxError(loc))
            } else {
                Ok((TokenV::String { value: s.subrange(j + 1, k), loc }, k + 1))
            }
        } else if j + 1 < s.len() && sp_two_sym(c, s[j + 1]) {
            Ok((TokenV::Symbol { value: s.subrange(j, j + 2), loc }, j + 2))
        } else if sp_one_sym(c) {
            Ok((TokenV::Symbol { value: s.subrange(j, j + 1), loc }, j + 1))
        } else {
            Err(crate::error::CompileErrorV::SyntaxError(loc))
        }
    }
}

/// The whole token sequence from `i` on, ending with the end-of-input token.
pub open spec fn sp_tokens(s: Seq<char>, i: int) -> Result<Seq<TokenV>, crate::error::CompileErrorV>
    decreases s.len() - i,
{
    match sp_next_token(s, i) {
        Err(e) => Err(e),
        Ok((t, k)) => if t is EOF {
            Ok(seq![t])
        } else if k <= i || k > s.len() {
            Err(crate::error::CompileErrorV::SyntaxError(sp_loc_at(s, i)))
        } else {
            match sp_tokens(s, k) {
                Err(e) => Err(e),
                Ok(rest) => Ok(seq![t] + rest),
            }
        },
    }
}

/// Scanning never moves backward.
proof fn lemma_scan_ge(s: Seq<char>, i: int, digits_only: bool)
    ensures
        sp_scan(s, i, digits_only) >= i,
    decreases s.len() - i,
{
    if 0 <= i < s.len() {
        if (digits_only && sp_digit(s[i])) || (!digits_only && sp_ident_cont(s[i])) {
            lemma_scan_ge(s, i + 1, digits_only);
        }
    }
}

/// The views of a token vector.
pub open spec fn tokens_view(v: Vec<Token>) -> Seq<TokenV> {
    v@.map_values(|t: Token| t@)
}

/// The source location of position `i` (see `sp_loc_at`).
fn loc_at(s: &str, i: usize) -> (r: SourceLocation)
    requires
        i <= s@.len(),
    ensures
        r == sp_loc_at(s@, i as int),
{
    let mut line: usize = 1;
    let mut col: usize = 0;
    let mut k: usize = 0;
    while k < i
        invariant
            k <= i,
            i <= s@.len(),
            (SourceLocation { line, col }) == sp_loc_at(s@, k as int),
        decreases i - k,
    {
        let c = s.get_char(k);
        if c == '\n' {
            if line < usize::MAX {
                line = line + 1;
            }
            col = 0;
        } else {
            if col < usize::MAX {
                col = col + 1;
            }
        }
        k = k + 1;
    }
    SourceLocation { line, col }
}

fn skip_line(s: &str, i: usize) -> (r: usize)
    requires
        i <= s@.len(),
    ensures
        r as int == sp_skip_line(s@, i as int),
        i <= r <= s@.len(),
    decreases s@.len() - i, 1int,
{
    if i >= s.unicode_len() {
        i
    } else if s.get_char(i) == '\n' {
        skip_ws(s, i + 1)
    } else {
        skip_line(s, i + 1)
    }
}

/// Skips whitespace and line comments (see `sp_skip`).
fn skip_ws(s: &str, i: usize) -> (r: usize)
    requires
        i <= s@.len(),
    ensures
        r as int == sp_skip(s@, i as int),
        i <= r <= s@.len(),
    decreases s@.len() - i, 0int,
{
    let n = s.unicode_len();
    if i >= n {
        i
    } else {
        let c = s.get_char(i);
        if c == ' ' || c == '\t' || c == '\r' || c == '\n' {
            skip_ws(s, i + 1)
        } else if c == '/' && i + 1 < n && s.get_char(i + 1) == '/' {
            skip_line(s, i + 2)
        } else {
            i
        }
    }
}

/// The end of an identifier or digit run (see `sp_scan`).
fn scan_end(s: &str, i: usize, digits_only: bool) -> (r: usize)
    requires
        i <= s@.len(),
    ensures
        r as int == sp_scan(s@, i as int, digits_only),
        i <= r <= s@.len(),
    decreases s@.len() - i,
{
    let n = s.unicode_len();
    if i >= n {
        i
    } else {
        let c = s.get_char(i);
        let cont = if digits_only {
            '0' <= c && c <= '9'
        } else {
            ('a' <= c && c <= 'z') || ('A' <= c && c <= 'Z') || c == '_' || ('0' <= c && c <= '9')
        };
        if cont {
            scan_end(s, i + 1, digits_only)
        } else {
            i
        }
    }
}

/// The closing quote of a string body (see `sp_scan_str`).
fn scan_str_end(s: &str, i: usize) -> (r: usize)
    requires
        i <= s@.len(),
    ensures
        r as int == sp_scan_str(s@, i as int),
        i <= r <= s@.len(),
    decreases s@.len() - i,
{
    let n = s.unicode_len();
    if i >= n {
        i
    } else if s.get_char(i) == '"' {
        i
    } else {
        scan_str_end(s, i + 1)
    }
}

fn word_of(s: &str, from: usize, to: usize) -> (r: String)
    requires
        from <= to <= s@.len(),
    ensures
        r@ == s@.subrange(from as int, to as int),
{
    let sub = s.substring_char(from, to);
    String::from_str(sub)
}

/// The next token at or after `i` (see `sp_next_token`).
fn next_token(s: &str, i: usize) -> (r: Result<(Token, usize), crate::error::CompileError>)
    requires
        i <= s@.len(),
    ensures
        match r {
            Ok(p) => sp_next_token(s@, i as int) == Ok::<_, crate::error::CompileErrorV>(
                (p.0@, p.1 as int),
            ) && i <= p.1 <= s@.len() && (!(p.0@ is EOF) ==> i < p.1),
            Err(e) => sp_next_token(s@, i as int) == Err::<(TokenV, int), _>(e@),
        },
{
    let n = s.unicode_len();
    let j = skip_ws(s, i);
    if j >= n {
        let loc = loc_at(s, n);
        return Ok((Token::EOF { loc }, n));
    }
    let c = s.get_char(j);
    let loc = loc_at(s, j);
    if ('a' <= c && c <= 'z') || ('A' <= c && c <= 'Z') || c == '_' {
        let k = scan_end(s, j, false);
        proof {
            assert(sp_scan(s@, j as int, false) == sp_scan(s@, j as int + 1, false));
            lemma_scan_ge(s@, j as int + 1, false);
        }
        let w = word_of(s, j, k);
        let kw = crate::text::str_eq(w.as_str(), "fn") || crate::text::str_eq(w.as_str(), "let")
            || crate::text::str_eq(w.as_str(), "if") || crate::text::str_eq(w.as_str(), "else")
            || crate::text::str_eq(w.as_str(), "true") || crate::text::str_eq(w.as_str(), "false")
            || crate::text::str_eq(w.as_str(), "mut");
        if kw {
            Ok((Token::Keyword { value: w, loc }, k))
        } else {
            Ok((Token::Identifier { value: w, loc }, k))
        }
    } else if '0' <= c && c <= '9' {
        let k = scan_end(s, j, true);
        proof {
            assert(sp_scan(s@, j as int, true) == sp_scan(s@, j as int + 1, true));
            lemma_scan_ge(s@, j as int + 1, true);
        }
        if k < n && s.get_char(k) == '.' {
            let k2 = scan_end(s, k + 1, true);
            proof {
                lemma_scan_ge(s@, k as int + 1, true);
            }
            let w = word_of(s, j, k2);
            Ok((Token::Number { value: w, is_float: true, loc }, k2))
        } else {
            let w = word_of(s, j, k);
            Ok((Token::Number { value: w, is_float: false, loc }, k))
        }
    } else if c == '"' {
        let k = scan_str_end(s, j + 1);
        if k >= n {
            Err(crate::error::CompileError::SyntaxError(loc))
        } else {
            let w = word_of(s, j + 1, k);
            Ok((Token::String { value: w, loc }, k + 1))
        }
    } else {
        let two = if j + 1 < n {
            let d = s.get_char(j + 1);
            (c == ':' && d == ':') || (c == '-' && d == '>') || (c == '=' && d == '=') || (c == '!'
                && d == '=') || (c == '<' && d == '=') || (c == '>' && d == '=') || (c == '&' && d
                == '&') || (c == '|' && d == '|') || (c == '<' && d == '<') || (c == '>' && d
                == '>') || (c == '+' && d == '=') || (c == '-' && d == '=') || (c == '*' && d
                == '=') || (c == '/' && d == '=') || (c == '%' && d == '=') || (c == '^' && d
                == '=') || (c == '&' && d == '=') || (c == '|' && d == '=')
        } else {
            false
        };
        if two {
            let w = word_of(s, j, j + 2);
            Ok((Token::Symbol { value: w, loc }, j + 2))
        } else if c == '+' || c == '-' || c == '*' || c == '/' || c == '%' || c == '=' || c == '<'
            || c == '>' || c == '!' || c == '&' || c == '|' || c == '^' || c == '.' || c == ','
            || c == ':' || c == ';' || c == '(' || c == ')' || c == '{' || c == '}' {
            let w = word_of(s, j, j + 1);
            Ok((Token::Symbol { value: w, loc }, j + 1))
        } else {
            Err(crate::error::CompileError::SyntaxError(loc))
        }
    }
}

/// Tokenizes the whole input (see `sp_tokens`): the result ends with the
/// end-of-input token.
pub fn tokenize(s: &str) -> (r: Result<Vec<Token>, crate::error::CompileError>)
    ensures
        match r {
            Ok(v) => sp_tokens(s@, 0) == Ok::<_, crate::error::CompileErrorV>(tokens_view(v)),
            Err(e) => sp_tokens(s@, 0) == Err::<Seq<TokenV>, _>(e@),
        },
{
    let mut out: Vec<Token> = Vec::new();
    let mut i: usize = 0;
    let mut done = false;
    proof {
        assert(tokens_view(out) =~= Seq::<TokenV>::empty());
    }
    while !done
        invariant
            i <= s@.len(),
            !done ==> sp_tokens(s@, 0) == (match sp_tokens(s@, i as int) {
                Ok(rest) => Ok::<Seq<TokenV>, crate::error::CompileErrorV>(tokens_view(out) + rest),
                Err(e) => Err(e),
            }),
            done ==> sp_tokens(s@, 0) == Ok::<Seq<TokenV>, crate::error::CompileErrorV>(
                tokens_view(out),
            ),
        decreases s@.len() - i, (if done { 0int } else { 1int }),
    {
        let ghost acc0 = tokens_view(out);
        match next_token(s, i) {
            Err(e) => {
                return Err(e);
            },
            Ok((t, k)) => {
                let eof = t.is_eof();
                let ghost tv = t@;
                out.push(t);
                proof {
                    assert(tokens_view(out) =~= acc0.push(tv));
                }
                if eof {
                    proof {
                        assert(sp_tokens(s@, i as int) == Ok::<_, crate::error::CompileErrorV>(
                            seq![tv],
                        ));
                        assert(acc0 + seq![tv] =~= tokens_view(out));
                    }
                    done = true;
                } else {
                    proof {
                        if sp_tokens(s@, k as int) is Ok {
                            let rest = sp_tokens(s@, k as int)->Ok_0;
                            assert(acc0 + (seq![tv] + rest) =~= tokens_view(out) + rest);
                        }
                    }
                    i = k;
                }
            },
        }
    }
    Ok(out)
}

} // verus!


