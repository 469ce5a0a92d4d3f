//! The lexer: turns source text into a stream of tokens by maximal munch.
//! A token is a keyword, an identifier, a 32-bit integer constant, one of
//! the single-character punctuation marks, or the reserved `--`. The stream
//! is drawn lazily; the first invalid token stops it with an error.

use vstd::prelude::*;
use vstd::string::StrSliceExecFns;
use vstd::string::StringExecFns;

use crate::numerals::{all_digits, dec_str, dec_value, is_digit_char};

verus! {

/// The keywords of the language.
#[derive(Debug, Clone, Copy, PartialEq, Eq, Structural)]
pub enum Keyword {
    CInt,
    CVoid,
    CReturn,
}

/// A lexical token. Identifiers own their text; constants are 32-bit
/// values. `Decrement` is the reserved `--`, which no grammar rule accepts.
#[derive(Debug, PartialEq, Eq)]
pub enum Token {
    Keyword(Keyword),
    Identifier(String),
    Constant(u32),
    Semicolon,
    OpenParenthesis,
    CloseParenthesis,
    OpenBrace,
    CloseBrace,
    Complement,
    Negate,
    Decrement,
}

/// Mathematical model of a token; an identifier is modelled by its text.
pub ghost enum TokenView {
    Keyword(Keyword),
    Identifier(Seq<char>),
    Constant(u32),
    Semicolon,
    OpenParenthesis,
    CloseParenthesis,
    OpenBrace,
    CloseBrace,
    Complement,
    Negate,
    Decrement,
}

impl View for Token {
    type V = TokenView;

    open spec fn view(&self) -> TokenView {
        match self {
            Token::Keyword(k) => TokenView::Keyword(*k),
            Token::Identifier(s) => TokenView::Identifier(s@),
            Token::Constant(n) => TokenView::Constant(*n),
            Token::Semicolon => TokenView::Semicolon,
            Token::OpenParenthesis => TokenView::OpenParenthesis,
            Token::CloseParenthesis => TokenView::CloseParenthesis,
            Token::OpenBrace => TokenView::OpenBrace,
            Token::CloseBrace => TokenView::CloseBrace,
            Token::Complement => TokenView::Complement,
            Token::Negate => TokenView::Negate,
            Token::Decrement => TokenView::Decrement,
        }
    }
}

/// Whether a character is ASCII whitespace, as the lexer skips it.
pub open spec fn is_ws_char(c: char) -> bool {
    c == ' ' || c == '\t' || c == '\n' || c == '\r' || c == '\x0C'
}

/// Whether a character may start an identifier: an ASCII letter or `_`.
pub open spec fn is_ident_start_char(c: char) -> bool {
    (65 <= c as u32 && c as u32 <= 90) || (97 <= c as u32 && c as u32 <= 122) || c == '_'
}

/// Whether a character may continue an identifier: alphanumeric or `_`.
pub open spec fn is_ident_char(c: char) -> bool {
    is_ident_start_char(c) || is_digit_char(c)
}

/// Whether a character is one of the punctuation marks that always stand
/// alone: `( ) { } ; ~`.
pub open spec fn is_single_symbol_char(c: char) -> bool {
    c == '(' || c == ')' || c == '{' || c == '}' || c == ';' || c == '~'
}

/// The input with its leading whitespace removed.
pub open spec fn trim_start(s: Seq<char>) -> Seq<char>
    decreases s.len(),
{
    if s.len() > 0 && is_ws_char(s[0]) {
        trim_start(s.drop_first())
    } else {
        s
    }
}

/// The length of the longest prefix of `s` whose characters all satisfy
/// `p`.
pub open spec fn run_len(s: Seq<char>, p: spec_fn(char) -> bool) -> int
    decreases s.len(),
{
    if s.len() > 0 && p(s[0]) {
        1 + run_len(s.drop_first(), p)
    } else {
        0
    }
}

/// The digit predicate, as a value, for talking about digit runs.
pub open spec fn digit_pred() -> spec_fn(char) -> bool {
    |ch: char| is_digit_char(ch)
}

/// The identifier-character predicate, as a value.
pub open spec fn ident_pred() -> spec_fn(char) -> bool {
    |ch: char| is_ident_char(ch)
}

/// The length of the maximal-munch token at the head of `s` (which must be
/// non-empty with no leading whitespace), or `None` if no token starts
/// there: an unknown character, or an integer run directly followed by an
/// identifier character.
pub open spec fn token_len(s: Seq<char>) -> Option<int>
    recommends
        s.len() > 0,
        !is_ws_char(s[0]),
{
    let c = s[0];
    if is_single_symbol_char(c) {
        Some(1int)
    } else if c == '-' {
        if s.len() >= 2 && s[1] == '-' {
            Some(2int)
        } else {
            Some(1int)
        }
    } else if is_digit_char(c) {
        let n = run_len(s, digit_pred());
        if n < s.len() && is_ident_char(s[n]) {
            None
        } else {
            Some(n)
        }
    } else if is_ident_start_char(c) {
        Some(run_len(s, ident_pred()))
    } else {
        None
    }
}

/// The token denoted by a lexeme: punctuation by its character, an all-digit
/// lexeme by its 32-bit value (`None` when it does not fit), and a word by
/// keyword lookup, falling back to an identifier.
pub open spec fn classify(lexeme: Seq<char>) -> Option<TokenView>
    recommends
        lexeme.len() > 0,
{
    let c = lexeme[0];
    if c == '(' {
        Some(TokenView::OpenParenthesis)
    } else if c == ')' {
        Some(TokenView::CloseParenthesis)
    } else if c == '{' {
        Some(TokenView::OpenBrace)
    } else if c == '}' {
        Some(TokenView::CloseBrace)
    } else if c == ';' {
        Some(TokenView::Semicolon)
    } else if c == '~' {
        Some(TokenView::Complement)
    } else if c == '-' {
        if lexeme.len() == 2 {
            Some(TokenView::Decrement)
        } else {
            Some(TokenView::Negate)
        }
    } else if is_digit_char(c) {
        if dec_value(lexeme) <= u32::MAX {
            Some(TokenView::Constant(dec_value(lexeme) as u32))
        } else {
            None
        }
    } else if lexeme == "int"@ {
        Some(TokenView::Keyword(Keyword::CInt))
    } else if lexeme == "void"@ {
        Some(TokenView::Keyword(Keyword::CVoid))
    } else if lexeme == "return"@ {
        Some(TokenView::Keyword(Keyword::CReturn))
    } else {
        Some(TokenView::Identifier(lexeme))
    }
}

/// One step of lexing: the input is exhausted (after whitespace), or a
/// token and the remaining input, or a failure.
pub ghost enum LexStep {
    Done,
    Tok(TokenView, Seq<char>),
    Fail,
}

/// The first step of lexing `s`: skip whitespace, find the maximal-munch
/// token length, classify the lexeme.
pub open spec fn lex_step(s: Seq<char>) -> LexStep {
    let t = trim_start(s);
    if t.len() == 0 {
        LexStep::Done
    } else {
        match token_len(t) {
            Option::None => LexStep::Fail,
            Option::Some(len) => match classify(t.take(len)) {
                Option::None => LexStep::Fail,
                Option::Some(tok) => LexStep::Tok(tok, t.skip(len)),
            },
        }
    }
}

/// The token sequence of `s`, or `None` if lexing fails anywhere.
pub open spec fn lex_spec(s: Seq<char>) -> Option<Seq<TokenView>>
    decreases s.len(),
{
    match lex_step(s) {
        LexStep::Done => Some(Seq::<TokenView>::empty()),
        LexStep::Fail => None,
        LexStep::Tok(tok, rest) => {
            if rest.len() < s.len() {
                match lex_spec(rest) {
                    Option::None => None,
                    Option::Some(toks) => Some(seq![tok] + toks),
                }
            } else {
                None
            }
        },
    }
}

/// Trimming removes a prefix of whitespace: if the first `i` characters are
/// whitespace and the next one (if any) is not, the trimmed input is the
/// input from `i` on.
pub proof fn lemma_trim_start_at(s: Seq<char>, i: int)
    requires
        0 <= i <= s.len(),
        forall|j: int| 0 <= j < i ==> is_ws_char(#[trigger] s[j]),
        i < s.len() ==> !is_ws_char(s[i]),
    ensures
        trim_start(s) == s.skip(i),
    decreases i,
{
    if i == 0 {
        assert(trim_start(s) =~= s.skip(0));
    } else {
        assert(is_ws_char(s[0]));
        lemma_trim_start_at(s.drop_first(), i - 1);
        assert(s.drop_first().skip(i - 1) =~= s.skip(i));
    }
}

/// The trimmed input never starts with whitespace, and is a suffix.
pub proof fn lemma_trim_start_shape(s: Seq<char>)
    ensures
        trim_start(s).len() <= s.len(),
        trim_start(s).len() > 0 ==> !is_ws_char(trim_start(s)[0]),
        trim_start(s) == s.skip(s.len() - trim_start(s).len()),
    decreases s.len(),
{
    if s.len() > 0 && is_ws_char(s[0]) {
        lemma_trim_start_shape(s.drop_first());
        assert(s.drop_first().skip(
            s.drop_first().len() - trim_start(s.drop_first()).len(),
        ) =~= s.skip(s.len() - trim_start(s).len()));
    } else {
        assert(trim_start(s) =~= s.skip(0));
    }
}

/// If the first `j` characters of `s` satisfy `p` and the next one (if any)
/// does not, the run length of `p` at the head of `s` is `j`.
pub proof fn lemma_run_len_at(s: Seq<char>, p: spec_fn(char) -> bool, j: int)
    requires
        0 <= j <= s.len(),
        forall|k: int| 0 <= k < j ==> p(#[trigger] s[k]),
        j < s.len() ==> !p(s[j]),
    ensures
        run_len(s, p) == j,
    decreases j,
{
    if j > 0 {
        assert(p(s[0]));
        lemma_run_len_at(s.drop_first(), p, j - 1);
    }
}

/// A run is a prefix of the input whose characters satisfy `p`.
pub proof fn lemma_run_len_shape(s: Seq<char>, p: spec_fn(char) -> bool)
    ensures
        0 <= run_len(s, p) <= s.len(),
        forall|k: int| 0 <= k < run_len(s, p) ==> p(#[trigger] s[k]),
        run_len(s, p) < s.len() ==> !p(s[run_len(s, p)]),
    decreases s.len(),
{
    if s.len() > 0 && p(s[0]) {
        lemma_run_len_shape(s.drop_first(), p);
        assert forall|k: int| 0 <= k < run_len(s, p) implies p(s[k]) by {
            if k > 0 {
                assert(s.drop_first()[k - 1] == s[k]);
            }
        }
        if run_len(s, p) < s.len() {
            assert(s.drop_first()[run_len(s.drop_first(), p)] == s[run_len(s, p)]);
        }
    }
}

/// A token found at the head of the trimmed input has length at least one
/// and at most the input's length.
pub proof fn lemma_token_len_bounds(s: Seq<char>)
    requires
        s.len() > 0,
        !is_ws_char(s[0]),
        token_len(s) is Some,
    ensures
        1 <= token_len(s)->0 <= s.len(),
{
    let c = s[0];
    if is_single_symbol_char(c) {
    } else if c == '-' {
    } else if is_digit_char(c) {
        let p = digit_pred();
        lemma_run_len_shape(s, p);
        assert(p(s[0]));
        assert(run_len(s, p) >= 1) by {
            if run_len(s, p) == 0 {
                assert(!p(s[0]));
            }
        }
    } else {
        let p = ident_pred();
        lemma_run_len_shape(s, p);
        assert(p(s[0]));
        assert(run_len(s, p) >= 1) by {
            if run_len(s, p) == 0 {
                assert(!p(s[0]));
            }
        }
    }
}

/// A successful lexing step consumes at least one character.
pub proof fn lemma_lex_step_shrinks(s: Seq<char>)
    ensures
        lex_step(s) matches LexStep::Tok(_, rest) ==> rest.len() < s.len(),
{
    lemma_trim_start_shape(s);
    let t = trim_start(s);
    if t.len() > 0 && token_len(t) is Some {
        lemma_token_len_bounds(t);
    }
}

/// The text of a token, as the lexer would read it back.
pub open spec fn token_text(t: TokenView) -> Seq<char> {
    match t {
        TokenView::Keyword(Keyword::CInt) => "int"@,
        TokenView::Keyword(Keyword::CVoid) => "void"@,
        TokenView::Keyword(Keyword::CReturn) => "return"@,
        TokenView::Identifier(name) => name,
        TokenView::Constant(n) => dec_str(n as int),
        TokenView::Semicolon => ";"@,
        TokenView::OpenParenthesis => "("@,
        TokenView::CloseParenthesis => ")"@,
        TokenView::OpenBrace => "{"@,
        TokenView::CloseBrace => "}"@,
        TokenView::Complement => "~"@,
        TokenView::Negate => "-"@,
        TokenView::Decrement => "--"@,
    }
}

/// The shape of every token the lexer can produce: an identifier is a
/// non-empty run of identifier characters, starts with a letter or `_`,
/// and is not a keyword.
pub open spec fn wf_token(t: TokenView) -> bool {
    match t {
        TokenView::Identifier(name) => name.len() > 0 && is_ident_start_char(name[0]) && (forall|
            i: int,
        |
            0 <= i < name.len() ==> is_ident_char(#[trigger] name[i])) && name != "int"@ && name
            != "void"@ && name != "return"@,
        _ => true,
    }
}

/// The textual forms of the tokens, joined by single spaces.
pub open spec fn render_tokens(toks: Seq<TokenView>) -> Seq<char>
    decreases toks.len(),
{
    if toks.len() == 0 {
        Seq::<char>::empty()
    } else if toks.len() == 1 {
        token_text(toks[0])
    } else {
        token_text(toks[0]) + " "@ + render_tokens(toks.drop_first())
    }
}

/// The text of a well-formed token is non-empty and does not start with
/// whitespace.
pub proof fn lemma_token_text_head(t: TokenView)
    requires
        wf_token(t),
    ensures
        token_text(t).len() > 0,
        !is_ws_char(token_text(t)[0]),
{
    reveal_strlit("int");
    reveal_strlit("void");
    reveal_strlit("return");
    reveal_strlit(";");
    reveal_strlit("(");
    reveal_strlit(")");
    reveal_strlit("{");
    reveal_strlit("}");
    reveal_strlit("~");
    reveal_strlit("-");
    reveal_strlit("--");
    match t {
        TokenView::Constant(n) => {
            crate::numerals::lemma_dec_str_shape(n as int);
            assert(is_digit_char(dec_str(n as int)[0]));
        },
        _ => {},
    }
}

/// Reading one token from its own text followed by whitespace (or the end
/// of input) recovers exactly that token, with the tail untouched.
pub proof fn lemma_lex_step_of_rendered(t: TokenView, u: Seq<char>)
    requires
        wf_token(t),
        u.len() == 0 || is_ws_char(u[0]),
    ensures
        lex_step(token_text(t) + u) == LexStep::Tok(t, u),
{
    reveal_strlit("int");
    reveal_strlit("void");
    reveal_strlit("return");
    reveal_strlit(";");
    reveal_strlit("(");
    reveal_strlit(")");
    reveal_strlit("{");
    reveal_strlit("}");
    reveal_strlit("~");
    reveal_strlit("-");
    reveal_strlit("--");
    lemma_token_text_head(t);
    let text = token_text(t);
    let s = text + u;
    let len = text.len() as int;
    assert(s[0] == text[0]);
    assert(trim_start(s) == s);
    assert(s.take(len) =~= text);
    assert(s.skip(len) =~= u);
    assert(forall|k: int| 0 <= k < len ==> s[k] == text[k]);
    assert(len < s.len() ==> s[len] == u[0]);
    match t {
        TokenView::Constant(n) => {
            crate::numerals::lemma_dec_str_shape(n as int);
            crate::numerals::lemma_dec_value_dec_str(n as int);
            let c = s[0];
            assert(is_digit_char(c));
            assert(!is_single_symbol_char(c));
            assert(c != '-');
            assert forall|k: int| 0 <= k < len implies digit_pred()(s[k]) by {
                assert(is_digit_char(text[k]));
            }
            assert(len < s.len() ==> !digit_pred()(s[len]));
            lemma_run_len_at(s, digit_pred(), len);
            assert(len < s.len() ==> !is_ident_char(s[len]));
            assert(token_len(s) == Some(len));
            assert(dec_value(s.take(len)) == n as int);
            assert(classify(s.take(len)) == Some(t));
        },
        TokenView::Identifier(name) => {
            let c = s[0];
            assert(c == name[0]);
            assert(is_ident_start_char(c));
            assert(!is_single_symbol_char(c));
            assert(c != '-');
            assert(!is_digit_char(c));
            assert forall|k: int| 0 <= k < len implies ident_pred()(s[k]) by {
                assert(is_ident_char(name[k]));
            }
            assert(len < s.len() ==> !ident_pred()(s[len]));
            lemma_run_len_at(s, ident_pred(), len);
            assert(token_len(s) == Some(len));
            assert(classify(s.take(len)) == Some(t));
        },
        TokenView::Keyword(k) => {
            let c = s[0];
            assert(is_ident_start_char(c));
            assert(!is_single_symbol_char(c));
            assert(c != '-');
            assert(!is_digit_char(c));
            assert forall|j: int| 0 <= j < len implies ident_pred()(s[j]) by {
                assert(is_ident_char(text[j]));
            }
            assert(len < s.len() ==> !ident_pred()(s[len]));
            lemma_run_len_at(s, ident_pred(), len);
            assert(token_len(s) == Some(len));
            assert(classify(s.take(len)) == Some(t));
        },
        TokenView::Negate => {
            assert(s[0] == '-');
            assert(s.len() >= 2 ==> s[1] == u[0]);
            assert(token_len(s) == Some(1int));
            assert(classify(s.take(1)) == Some(t));
        },
        TokenView::Decrement => {
            assert(s[0] == '-');
            assert(s[1] == '-');
            assert(token_len(s) == Some(2int));
            assert(classify(s.take(2)) == Some(t));
        },
        _ => {
            assert(is_single_symbol_char(s[0]));
            assert(token_len(s) == Some(1int));
            assert(classify(s.take(1)) == Some(t));
        },
    }
}

/// Every token a successful lexing step yields is well-formed.
pub proof fn lemma_lex_step_produces_wf(s: Seq<char>)
    ensures
        lex_step(s) matches LexStep::Tok(t, _) ==> wf_token(t),
{
    let t = trim_start(s);
    lemma_trim_start_shape(s);
    if t.len() > 0 && token_len(t) is Some {
        lemma_token_len_bounds(t);
        let len = token_len(t)->0;
        let lexeme = t.take(len);
        let c = t[0];
        assert(lexeme[0] == c);
        match classify(lexeme) {
            Option::Some(tok) => match tok {
                TokenView::Identifier(name) => {
                    assert(!is_single_symbol_char(c) && c != '-' && !is_digit_char(c));
                    assert(is_ident_start_char(c));
                    assert(len == run_len(t, ident_pred()));
                    lemma_run_len_shape(t, ident_pred());
                    assert forall|i: int| 0 <= i < lexeme.len() implies is_ident_char(
                        #[trigger] lexeme[i],
                    ) by {
                        assert(ident_pred()(t[i]));
                    }
                    assert(wf_token(tok));
                },
                _ => {},
            },
            Option::None => {},
        }
    }
}

/// Every token of a successful lexing is well-formed.
pub proof fn lemma_lex_spec_all_wf(s: Seq<char>, toks: Seq<TokenView>)
    requires
        lex_spec(s) == Some(toks),
    ensures
        forall|i: int| 0 <= i < toks.len() ==> wf_token(#[trigger] toks[i]),
    decreases s.len(),
{
    lemma_lex_step_produces_wf(s);
    lemma_lex_step_shrinks(s);
    match lex_step(s) {
        LexStep::Done => {},
        LexStep::Fail => {},
        LexStep::Tok(tok, rest) => {
            let rest_toks = lex_spec(rest)->0;
            lemma_lex_spec_all_wf(rest, rest_toks);
            assert forall|i: int| 0 <= i < toks.len() implies wf_token(#[trigger] toks[i]) by {
                if i == 0 {
                    assert(toks[0] == tok);
                } else {
                    assert(toks[i] == rest_toks[i - 1]);
                }
            }
        },
    }
}

/// Two inputs that agree after whitespace lex to the same tokens.
pub proof fn lemma_lex_spec_same_trimmed(a: Seq<char>, b: Seq<char>)
    requires
        trim_start(a) == trim_start(b),
    ensures
        lex_spec(a) == lex_spec(b),
{
    lemma_lex_step_shrinks(a);
    lemma_lex_step_shrinks(b);
    assert(lex_step(a) == lex_step(b));
}

/// Rendering well-formed tokens and lexing the result recovers exactly
/// those tokens.
pub proof fn lemma_render_lexes(toks: Seq<TokenView>)
    requires
        forall|i: int| 0 <= i < toks.len() ==> wf_token(#[trigger] toks[i]),
    ensures
        lex_spec(render_tokens(toks)) == Some(toks),
    decreases toks.len(),
{
    reveal_strlit(" ");
    if toks.len() == 0 {
        assert(trim_start(render_tokens(toks)).len() == 0);
        assert(lex_spec(render_tokens(toks)) == Some(Seq::<TokenView>::empty()));
        assert(Seq::<TokenView>::empty() =~= toks);
    } else {
        let t = toks[0];
        let u: Seq<char> = if toks.len() == 1 {
            Seq::<char>::empty()
        } else {
            " "@ + render_tokens(toks.drop_first())
        };
        assert(render_tokens(toks) =~= token_text(t) + u);
        if toks.len() > 1 {
            assert(u[0] == ' ');
            assert(is_ws_char(u[0]));
        }
        lemma_lex_step_of_rendered(t, u);
        lemma_token_text_head(t);
        let s = token_text(t) + u;
        assert(lex_step(s) == LexStep::Tok(t, u));
        assert(u.len() < s.len());
        lemma_render_lexes(toks.drop_first());
        if toks.len() == 1 {
            assert(trim_start(u).len() == 0);
            assert(lex_spec(u) == Some(Seq::<TokenView>::empty()));
        } else {
            let x = render_tokens(toks.drop_first());
            assert(u.drop_first() =~= x);
            assert(trim_start(u) == trim_start(x));
            lemma_lex_spec_same_trimmed(u, x);
            assert(lex_spec(u) == Some(toks.drop_first()));
        }
        assert(seq![t] + lex_spec(u)->0 =~= toks);
        assert(lex_spec(s) == Some(toks));
    }
}

/// Concatenating the textual forms of a successful lexing, with single
/// spaces between them, gives a source that lexes to the same tokens.
pub proof fn lemma_lex_round_trip(s: Seq<char>, toks: Seq<TokenView>)
    requires
        lex_spec(s) == Some(toks),
    ensures
        lex_spec(render_tokens(toks)) == Some(toks),
{
    lemma_lex_spec_all_wf(s, toks);
    lemma_render_lexes(toks);
}

/// A source of nothing but whitespace lexes to the empty token sequence.
pub proof fn lemma_whitespace_lexes_empty(s: Seq<char>)
    requires
        forall|i: int| 0 <= i < s.len() ==> is_ws_char(#[trigger] s[i]),
    ensures
        lex_spec(s) == Some(Seq::<TokenView>::empty()),
{
    lemma_trim_start_at(s, s.len() as int);
    assert(s.skip(s.len() as int) =~= Seq::<char>::empty());
}

fn is_whitespace_char(c: char) -> (r: bool)
    ensures
        r == is_ws_char(c),
{
    c == ' ' || c == '\t' || c == '\n' || c == '\r' || c == '\x0C'
}

fn is_digit(c: char) -> (r: bool)
    ensures
        r == is_digit_char(c),
{
    let u = c as u32;
    48 <= u && u <= 57
}

fn is_identifier_start(c: char) -> (r: bool)
    ensures
        r == is_ident_start_char(c),
{
    let u = c as u32;
    (65 <= u && u <= 90) || (97 <= u && u <= 122) || c == '_'
}

fn is_identifier_char(c: char) -> (r: bool)
    ensures
        r == is_ident_char(c),
{
    is_identifier_start(c) || is_digit(c)
}

fn is_single_symbol(c: char) -> (r: bool)
    ensures
        r == is_single_symbol_char(c),
{
    c == '(' || c == ')' || c == '{' || c == '}' || c == ';' || c == '~'
}

/// Character-for-character string comparison.
fn str_equal(a: &str, b: &str) -> (r: bool)
    ensures
        r == (a@ == b@),
{
    let n = a.unicode_len();
    let m = b.unicode_len();
    if n != m {
        return false;
    }
    let mut i: usize = 0;
    while i < n
        invariant
            n == a@.len(),
            n == b@.len(),
            0 <= i <= n,
            forall|j: int| 0 <= j < i ==> a@[j] == b@[j],
        decreases n - i,
    {
        if a.get_char(i) != b.get_char(i) {
            return false;
        }
        i = i + 1;
    }
    proof {
        assert(a@ =~= b@);
    }
    true
}

/// Returns the input with its leading ASCII whitespace removed.
fn trim_whitespace_start<'a>(s: &'a str) -> (r: &'a str)
    ensures
        r@ == trim_start(s@),
{
    let n = s.unicode_len();
    let mut i: usize = 0;
    while i < n
        invariant
            n == s@.len(),
            0 <= i <= n,
            forall|j: int| 0 <= j < i ==> is_ws_char(#[trigger] s@[j]),
        decreases n - i,
    {
        let c = s.get_char(i);
        if !is_whitespace_char(c) {
            proof {
                lemma_trim_start_at(s@, i as int);
                assert(s@.subrange(i as int, n as int) =~= s@.skip(i as int));
            }
            return s.substring_char(i, n);
        }
        i = i + 1;
    }
    proof {
        lemma_trim_start_at(s@, n as int);
        assert(s@.subrange(n as int, n as int) =~= s@.skip(n as int));
    }
    s.substring_char(n, n)
}

/// Builds the token a lexeme denotes; `None` exactly when the lexeme is an
/// integer that does not fit in 32 bits.
fn token_from_lexeme(lexeme: &str) -> (r: Option<Token>)
    requires
        lexeme@.len() > 0,
        is_digit_char(lexeme@[0]) ==> all_digits(lexeme@),
    ensures
        match r {
            Some(token) => classify(lexeme@) == Some(token@),
            None => classify(lexeme@) is None,
        },
{
    let c = lexeme.get_char(0);
    if c == '(' {
        Some(Token::OpenParenthesis)
    } else if c == ')' {
        Some(Token::CloseParenthesis)
    } else if c == '{' {
        Some(Token::OpenBrace)
    } else if c == '}' {
        Some(Token::CloseBrace)
    } else if c == ';' {
        Some(Token::Semicolon)
    } else if c == '~' {
        Some(Token::Complement)
    } else if c == '-' {
        if lexeme.unicode_len() == 2 {
            Some(Token::Decrement)
        } else {
            Some(Token::Negate)
        }
    } else if is_digit(c) {
        match crate::numerals::parse_u32_digits(lexeme) {
            Some(value) => Some(Token::Constant(value)),
            None => None,
        }
    } else if str_equal(lexeme, "int") {
        Some(Token::Keyword(Keyword::CInt))
    } else if str_equal(lexeme, "void") {
        Some(Token::Keyword(Keyword::CVoid))
    } else if str_equal(lexeme, "return") {
        Some(Token::Keyword(Keyword::CReturn))
    } else {
        Some(Token::Identifier(String::from_str(lexeme)))
    }
}

impl Token {
    /// The textual form of the token, exactly as the lexer would read it
    /// back.
    pub fn to_text(&self) -> (r: String)
        ensures
            r@ == token_text(self@),
    {
        match self {
            Token::Keyword(Keyword::CInt) => String::from_str("int"),
            Token::Keyword(Keyword::CVoid) => String::from_str("void"),
            Token::Keyword(Keyword::CReturn) => String::from_str("return"),
            Token::Identifier(name) => name.clone(),
            Token::Constant(n) => crate::numerals::u64_to_string(*n as u64),
            Token::Semicolon => String::from_str(";"),
            Token::OpenParenthesis => String::from_str("("),
            Token::CloseParenthesis => String::from_str(")"),
            Token::OpenBrace => String::from_str("{"),
            Token::CloseBrace => String::from_str("}"),
            Token::Complement => String::from_str("~"),
            Token::Negate => String::from_str("-"),
            Token::Decrement => String::from_str("--"),
        }
    }
}

/// Holds the source text and hands out token streams over it.
pub struct Lexer {
    src: String,
}

impl View for Lexer {
    type V = Seq<char>;

    closed spec fn view(&self) -> Seq<char> {
        self.src@
    }
}

impl Default for Lexer {
    fn default() -> (r: Lexer)
        ensures
            r@ == Seq::<char>::empty(),
    {
        Lexer { src: String::new() }
    }
}

impl Lexer {
    /// Replaces the held source text. The source must be ASCII; other
    /// input is unsupported.
    pub fn set_src(&mut self, src: String)
        ensures
            final(self)@ == src@,
    {
        self.src = src;
    }

    /// Exposes the held source text for filling.
    pub fn get_src_mut(&mut self) -> (r: &mut String)
        ensures
            r@ == old(self)@,
            final(self)@ == final(r)@,
    {
        &mut self.src
    }

    /// A token stream over the held source. The source must be ASCII;
    /// other input is unsupported.
    pub fn tokens<'a>(&'a self) -> (r: Tokens<'a>)
        requires
            vstd::utf8::is_ascii_chars(self@),
        ensures
            r@ == self@,
    {
        Tokens::from_src(self.src.as_str())
    }
}

/// A lazy, single-pass token stream over a borrowed source.
pub struct Tokens<'a> {
    src: &'a str,
}

impl<'a> View for Tokens<'a> {
    type V = Seq<char>;

    closed spec fn view(&self) -> Seq<char> {
        self.src@
    }
}

impl<'a> Tokens<'a> {
    fn from_src(src: &'a str) -> (r: Tokens<'a>)
        ensures
            r@ == src@,
    {
        Tokens { src }
    }

    fn next_token_len(&self) -> (r: Result<usize, usize>)
        requires
            self@.len() > 0,
            !is_ws_char(self@[0]),
        ensures
            match r {
                Ok(len) => token_len(self@) == Some(len as int),
                Err(len) => token_len(self@) is None && (len as int) < self@.len(),
            },
{
        let s = self.src;
        let n = s.unicode_len();
        let c = s.get_char(0);
        if is_single_symbol(c) {
            return Ok(1);
        }
        if c == '-' {
            if n >= 2 && s.get_char(1) == '-' {
                return Ok(2);
            }
            return Ok(1);
        }
        if is_digit(c) {
            let mut j: usize = 1;
            while j < n
                invariant
                    s@ == self@,
                    n == s@.len(),
                    1 <= j <= n,
                    is_digit_char(s@[0]),
                    !is_ws_char(s@[0]),
                    forall|k: int| 0 <= k < j ==> is_digit_char(#[trigger] s@[k]),
                decreases n - j,
            {
                let cj = s.get_char(j);
                if is_digit(cj) {
                    j = j + 1;
                } else if is_identifier_start(cj) {
                    proof {
                        assert forall|k: int| 0 <= k < j implies digit_pred()(s@[k]) by {
                            assert(is_digit_char(s@[k]));
                        }
                        assert(!digit_pred()(s@[j as int]));
                        lemma_run_len_at(s@, digit_pred(), j as int);
                        assert(is_ident_char(s@[j as int]));
                        assert(token_len(s@) is None);
                    }
                    return Err(j);
                } else {
                    proof {
                        assert forall|k: int| 0 <= k < j implies digit_pred()(s@[k]) by {
                            assert(is_digit_char(s@[k]));
                        }
                        assert(!digit_pred()(s@[j as int]));
                        lemma_run_len_at(s@, digit_pred(), j as int);
                        assert(!is_ident_char(s@[j as int]));
                        assert(token_len(s@) == Some(j as int));
                    }
                    return Ok(j);
                }
            }
            proof {
                assert forall|k: int| 0 <= k < n implies digit_pred()(s@[k]) by {
                    assert(is_digit_char(s@[k]));
                }
                lemma_run_len_at(s@, digit_pred(), n as int);
                assert(token_len(s@) == Some(n as int));
            }
            return Ok(j);
        }
        if is_identifier_start(c) {
            let mut j: usize = 1;
            while j < n
                invariant
                    s@ == self@,
                    n == s@.len(),
                    1 <= j <= n,
                    is_ident_start_char(s@[0]),
                    !is_ws_char(s@[0]),
                    forall|k: int| 0 <= k < j ==> is_ident_char(#[trigger] s@[k]),
                decreases n - j,
            {
                let cj = s.get_char(j);
                if is_identifier_char(cj) {
                    j = j + 1;
                } else {
                    proof {
                        assert forall|k: int| 0 <= k < j implies ident_pred()(s@[k]) by {
                            assert(is_ident_char(s@[k]));
                        }
                        assert(!ident_pred()(s@[j as int]));
                        lemma_run_len_at(s@, ident_pred(), j as int);
                        assert(token_len(s@) == Some(j as int));
                    }
                    return Ok(j);
                }
            }
            proof {
                assert forall|k: int| 0 <= k < n implies ident_pred()(s@[k]) by {
                    assert(is_ident_char(s@[k]));
                }
                lemma_run_len_at(s@, ident_pred(), n as int);
                assert(token_len(s@) == Some(n as int));
            }
            return Ok(j);
        }
        Err(0)
    }

    /// Draws the next token. `None` at the end of the input; an error on
    /// the first invalid token, where the stream stops making progress.
    pub fn next(&mut self) -> (r: Option<Result<Token, String>>)
        ensures
            match lex_step(old(self)@) {
                LexStep::Done => r is None,
                LexStep::Fail => r matches Some(res) && res is Err,
                LexStep::Tok(tok, rest) => r matches Some(res) && (res matches Ok(token)
                    && token@ == tok) && final(self)@ == rest && rest.len() < old(self)@.len(),
            },
    {
        proof {
            lemma_lex_step_shrinks(old(self)@);
        }
        let trimmed = trim_whitespace_start(self.src);
        self.src = trimmed;
        let n = self.src.unicode_len();
        if n == 0 {
            return None;
        }
        proof {
            lemma_trim_start_shape(old(self)@);
        }
        match self.next_token_len() {
            Ok(len) => {
                proof {
                    lemma_token_len_bounds(self@);
                }
                let token_str = self.src.substring_char(0, len);
                let rest = self.src.substring_char(len, n);
                proof {
                    assert(token_str@ =~= self@.take(len as int));
                    assert(rest@ =~= self@.skip(len as int));
                    if is_digit_char(self@[0]) {
                        lemma_run_len_shape(self@, digit_pred());
                        assert(run_len(self@, digit_pred()) == len as int);
                        assert(all_digits(token_str@));
                    }
                    assert(token_str@[0] == self@[0]);
                }
                match token_from_lexeme(token_str) {
                    Some(token) => {
                        self.src = rest;
                        Some(Ok(token))
                    },
                    None => {
                        let mut message = String::from_str("Invalid token: `");
                        message.append(token_str);
                        message.append("`");
                        Some(Err(message))
                    },
                }
            },
            Err(len) => {
                let prefix = self.src.substring_char(0, len + 1);
                let mut message = String::from_str("Invalid token: `");
                message.append(prefix);
                message.append("`");
                Some(Err(message))
            },
        }
    }
}

} // verus!
