//! The canonical text of a token, and that lexing it gives the token back.

use vstd::prelude::*;
use vstd::string::*;
use crate::text::{
    CharClass, all_digits, char_is_word_start, chars_of, decimal_value, in_class, is_digit,
    is_space, is_word_char, is_word_start, lemma_run_end, lemma_run_end_is, run_end, scan_run,
};
use crate::tokenizer::{
    LexFailure, Token, TokenView, char_at, classify_word, keyword_or_ident,
    lemma_scan_token_advances, lex, lex_from, scan_token,
};

verus! {

/// The character of a decimal digit.
pub open spec fn digit_char(d: nat) -> char {
    if d == 0 {
        '0'
    } else if d == 1 {
        '1'
    } else if d == 2 {
        '2'
    } else if d == 3 {
        '3'
    } else if d == 4 {
        '4'
    } else if d == 5 {
        '5'
    } else if d == 6 {
        '6'
    } else if d == 7 {
        '7'
    } else if d == 8 {
        '8'
    } else {
        '9'
    }
}

/// The decimal numeral of a number, without leading zeros.
pub open spec fn decimal_text(n: nat) -> Seq<char>
    decreases n,
{
    if n < 10 {
        seq![digit_char(n)]
    } else {
        decimal_text(n / 10).push(digit_char(n % 10))
    }
}

/// The numeral of a number is made of digits and writes that number.
pub proof fn lemma_decimal_text(n: nat)
    ensures
        decimal_text(n).len() > 0,
        all_digits(decimal_text(n)),
        decimal_value(decimal_text(n)) == n,
    decreases n,
{
    if n < 10 {
        let s = seq![digit_char(n)];
        assert(s.drop_last() =~= Seq::<char>::empty());
        assert(decimal_value(s.drop_last()) == 0);
        assert(s.last() == digit_char(n));
    } else {
        lemma_decimal_text(n / 10);
        let front = decimal_text(n / 10);
        let s = front.push(digit_char(n % 10));
        assert(s.drop_last() =~= front);
        assert(s.last() == digit_char(n % 10));
        assert forall|j: int| 0 <= j < s.len() implies is_digit(#[trigger] s[j]) by {}
    }
}

/// The text of a float literal: digits, a dot, and digits again.
pub open spec fn float_text(x: Seq<char>) -> bool {
    let d = run_end(x, 0, CharClass::Digit);
    &&& 0 < d < x.len()
    &&& x[d] == '.'
    &&& d + 1 < x.len()
    &&& run_end(x, d + 1, CharClass::Digit) == x.len()
}

/// No character of the text is a double quote.
pub open spec fn no_quote(s: Seq<char>) -> bool {
    forall|j: int| 0 <= j < s.len() ==> (#[trigger] s[j]) != '"'
}

/// The text is a word: it starts with a letter or an underscore and goes
/// on with letters, digits and underscores.
pub open spec fn is_word(s: Seq<char>) -> bool {
    &&& s.len() > 0
    &&& is_word_start(s[0])
    &&& forall|j: int| 0 <= j < s.len() ==> is_word_char(#[trigger] s[j])
}

/// A token as the lexer gives it: a string holds no quote, a float has the
/// text of a float literal, an integer is not negative, and an identifier
/// is a word that is no keyword.
pub open spec fn well_formed(t: TokenView) -> bool {
    match t {
        TokenView::String(s) => no_quote(s),
        TokenView::Float64(x) => float_text(x),
        TokenView::Float32(x) => float_text(x),
        TokenView::DefaultFloat(x) => float_text(x),
        TokenView::Integer64(n) => n >= 0,
        TokenView::Integer(n) => n >= 0,
        TokenView::Ident(s) => is_word(s) && keyword_or_ident(s) == TokenView::Ident(s),
        _ => true,
    }
}

/// The canonical text of a token.
pub open spec fn canonical_text(t: TokenView) -> Seq<char> {
    match t {
        TokenView::String(s) => seq!['"'] + s + seq!['"'],
        TokenView::Float64(x) => x + seq!['f', '6', '4'],
        TokenView::Float32(x) => x + seq!['f', '3', '2'],
        TokenView::DefaultFloat(x) => x,
        TokenView::Integer64(n) => decimal_text(n as nat) + seq!['i', '6', '4'],
        TokenView::Integer(n) => decimal_text(n as nat),
        TokenView::Bool(b) => if b {
            "true"@
        } else {
            "false"@
        },
        TokenView::Func => "fn"@,
        TokenView::Return => "return"@,
        TokenView::Let => "let"@,
        TokenView::Use => "use"@,
        TokenView::Void => "void"@,
        TokenView::If => "if"@,
        TokenView::Else => "else"@,
        TokenView::Elif => "elif"@,
        TokenView::Greater => seq!['>'],
        TokenView::Less => seq!['<'],
        TokenView::NotEq => seq!['!', '='],
        TokenView::LessEq => seq!['<', '='],
        TokenView::GreaterEq => seq!['>', '='],
        TokenView::EqEq => seq!['=', '='],
        TokenView::I32Type => "i32"@,
        TokenView::I64Type => "i64"@,
        TokenView::F32Type => "f32"@,
        TokenView::F64Type => "f64"@,
        TokenView::StringType => "string"@,
        TokenView::BoolType => "bool"@,
        TokenView::LParen => seq!['('],
        TokenView::RParen => seq![')'],
        TokenView::LBrace => seq!['{'],
        TokenView::RBrace => seq!['}'],
        TokenView::Semicolon => seq![';'],
        TokenView::Colon => seq![':'],
        TokenView::Eq => seq!['='],
        TokenView::Comma => seq![','],
        TokenView::Dot => seq!['.'],
        TokenView::Ident(s) => s,
    }
}

/// The characters of the keywords.
pub proof fn lemma_keywords()
    ensures
        "true"@ =~= seq!['t', 'r', 'u', 'e'],
        "false"@ =~= seq!['f', 'a', 'l', 's', 'e'],
        "fn"@ =~= seq!['f', 'n'],
        "func"@ =~= seq!['f', 'u', 'n', 'c'],
        "Fn"@ =~= seq!['F', 'n'],
        "Func"@ =~= seq!['F', 'u', 'n', 'c'],
        "return"@ =~= seq!['r', 'e', 't', 'u', 'r', 'n'],
        "Return"@ =~= seq!['R', 'e', 't', 'u', 'r', 'n'],
        "let"@ =~= seq!['l', 'e', 't'],
        "use"@ =~= seq!['u', 's', 'e'],
        "void"@ =~= seq!['v', 'o', 'i', 'd'],
        "Void"@ =~= seq!['V', 'o', 'i', 'd'],
        "if"@ =~= seq!['i', 'f'],
        "else"@ =~= seq!['e', 'l', 's', 'e'],
        "elif"@ =~= seq!['e', 'l', 'i', 'f'],
        "i32"@ =~= seq!['i', '3', '2'],
        "i64"@ =~= seq!['i', '6', '4'],
        "f32"@ =~= seq!['f', '3', '2'],
        "f64"@ =~= seq!['f', '6', '4'],
        "String"@ =~= seq!['S', 't', 'r', 'i', 'n', 'g'],
        "string"@ =~= seq!['s', 't', 'r', 'i', 'n', 'g'],
        "bool"@ =~= seq!['b', 'o', 'o', 'l'],
        "Bool"@ =~= seq!['B', 'o', 'o', 'l'],
{
    reveal_strlit("true");
    reveal_strlit("false");
    reveal_strlit("fn");
    reveal_strlit("func");
    reveal_strlit("Fn");
    reveal_strlit("Func");
    reveal_strlit("return");
    reveal_strlit("Return");
    reveal_strlit("let");
    reveal_strlit("use");
    reveal_strlit("void");
    reveal_strlit("Void");
    reveal_strlit("if");
    reveal_strlit("else");
    reveal_strlit("elif");
    reveal_strlit("i32");
    reveal_strlit("i64");
    reveal_strlit("f32");
    reveal_strlit("f64");
    reveal_strlit("String");
    reveal_strlit("string");
    reveal_strlit("bool");
    reveal_strlit("Bool");
}

/// The canonical text of a keyword, a type name or a boolean literal is a
/// word that stands for that token.
pub proof fn lemma_keyword_text(t: TokenView)
    requires
        t is Bool || t is Func || t is Return || t is Let || t is Use || t is Void || t is If
            || t is Else || t is Elif || t is I32Type || t is I64Type || t is F32Type
            || t is F64Type || t is StringType || t is BoolType,
    ensures
        canonical_text(t).len() > 0,
        is_word_start(canonical_text(t)[0]),
        forall|j: int|
            0 <= j < canonical_text(t).len() ==> is_word_char(#[trigger] canonical_text(t)[j]),
        keyword_or_ident(canonical_text(t)) == t,
{
    lemma_keywords();
    assert("else"@[0] == 'e' && "elif"@[0] == 'e' && "i32"@[0] == 'i' && "i64"@[0] == 'i'
        && "f32"@[0] == 'f' && "f64"@[0] == 'f' && "fn"@[0] == 'f' && "func"@[0] == 'f'
        && "if"@[0] == 'i');
}

/// The text `text` stands at position `i` of `s` and is followed by white
/// space or by the end of `s`.
pub open spec fn stands_at(s: Seq<char>, i: int, text: Seq<char>) -> bool {
    &&& 0 <= i
    &&& i + text.len() <= s.len()
    &&& s.subrange(i, i + text.len()) == text
    &&& (i + text.len() < s.len() ==> is_space(s[i + text.len()]))
}

/// The characters of a text that stands at position `i` are those of `s`
/// from `i` on.
pub proof fn lemma_stands_at(s: Seq<char>, i: int, text: Seq<char>)
    requires
        stands_at(s, i, text),
    ensures
        forall|j: int| 0 <= j < text.len() ==> (#[trigger] s[i + j]) == text[j],
{
    assert forall|j: int| 0 <= j < text.len() implies (#[trigger] s[i + j]) == text[j] by {
        assert(s.subrange(i, i + text.len())[j] == s[i + j]);
    }
}

/// A run of word characters that stands at position `i` is scanned as the
/// token that `keyword_or_ident` takes it for.
pub proof fn lemma_scan_word(s: Seq<char>, i: int, word: Seq<char>, t: TokenView)
    requires
        stands_at(s, i, word),
        word.len() > 0,
        is_word_start(word[0]),
        forall|j: int| 0 <= j < word.len() ==> is_word_char(#[trigger] word[j]),
        keyword_or_ident(word) == t,
    ensures
        scan_token(s, i) == Ok::<_, LexFailure>((t, i + word.len())),
        !is_space(s[i]),
{
    let n = word.len() as int;
    lemma_stands_at(s, i, word);
    assert forall|j: int| i <= j < i + n implies in_class(CharClass::Word, #[trigger] s[j]) by {
        assert(s[i + (j - i)] == word[j - i]);
    }
    lemma_run_end_is(s, i, i + n, CharClass::Word);
}

/// Digits that stand at position `i` are scanned as the 32-bit integer
/// that they write, where it fits.
pub proof fn lemma_scan_integer(s: Seq<char>, i: int, digits: Seq<char>)
    requires
        stands_at(s, i, digits),
        digits.len() > 0,
        all_digits(digits),
        decimal_value(digits) <= i32::MAX,
    ensures
        scan_token(s, i) == Ok::<_, LexFailure>(
            (TokenView::Integer(decimal_value(digits) as i32), i + digits.len()),
        ),
        !is_space(s[i]),
{
    let n = digits.len() as int;
    lemma_stands_at(s, i, digits);
    assert(s[i + 0] == digits[0]);
    assert forall|j: int| i <= j < i + n implies in_class(CharClass::Digit, #[trigger] s[j]) by {
        assert(s[i + (j - i)] == digits[j - i]);
    }
    lemma_run_end_is(s, i, i + n, CharClass::Digit);
}

/// Digits with the suffix `i64` that stand at position `i` are scanned as
/// the 64-bit integer that the digits write, where it fits.
pub proof fn lemma_scan_integer64(s: Seq<char>, i: int, digits: Seq<char>)
    requires
        stands_at(s, i, digits + seq!['i', '6', '4']),
        digits.len() > 0,
        all_digits(digits),
        decimal_value(digits) <= i64::MAX,
    ensures
        scan_token(s, i) == Ok::<_, LexFailure>(
            (TokenView::Integer64(decimal_value(digits) as i64), i + digits.len() + 3),
        ),
        !is_space(s[i]),
{
    let text = digits + seq!['i', '6', '4'];
    let n = digits.len() as int;
    lemma_stands_at(s, i, text);
    assert(s[i + 0] == text[0]);
    assert forall|j: int| i <= j < i + n implies in_class(CharClass::Digit, #[trigger] s[j]) by {
        assert(s[i + (j - i)] == text[j - i]);
    }
    assert(s[i + n] == text[n] && s[i + (n + 1)] == text[n + 1] && s[i + (n + 2)] == text[n + 2]);
    lemma_run_end_is(s, i, i + n, CharClass::Digit);
    assert(s.subrange(i, i + n) =~= digits);
}

/// The text of a float literal followed by `suffix`, which starts with no
/// digit, stands at position `i`: then the digits before the dot end at
/// the dot, and the digits after it end where the suffix starts.
pub proof fn lemma_scan_float(s: Seq<char>, i: int, x: Seq<char>, suffix: Seq<char>)
    requires
        float_text(x),
        suffix.len() > 0 ==> !is_digit(suffix[0]),
        stands_at(s, i, x + suffix),
    ensures
        ({
            let d = i + run_end(x, 0, CharClass::Digit);
            &&& is_digit(s[i])
            &&& run_end(s, i, CharClass::Digit) == d
            &&& char_at(s, d, '.')
            &&& d + 1 < s.len()
            &&& is_digit(s[d + 1])
            &&& run_end(s, d + 1, CharClass::Digit) == i + x.len()
            &&& s.subrange(i, i + x.len()) == x
        }),
{
    let text = x + suffix;
    let dx = run_end(x, 0, CharClass::Digit);
    let d = i + dx;
    let n = x.len() as int;
    lemma_stands_at(s, i, text);
    lemma_run_end(x, 0, CharClass::Digit);
    lemma_run_end(x, dx + 1, CharClass::Digit);
    assert forall|j: int| i <= j < d implies in_class(CharClass::Digit, #[trigger] s[j]) by {
        assert(text[j - i] == x[j - i]);
    }
    assert(s[i + dx] == text[dx] && text[dx] == x[dx]);
    lemma_run_end_is(s, i, d, CharClass::Digit);
    assert forall|j: int| d + 1 <= j < i + n implies in_class(CharClass::Digit, #[trigger] s[j]) by {
        assert(s[i + (j - i)] == text[j - i]);
    }
    assert(suffix.len() > 0 ==> s[i + n] == suffix[0]);
    lemma_run_end_is(s, d + 1, i + n, CharClass::Digit);
}

/// The canonical text of a token, standing at position `i`, is scanned as
/// the token.
pub proof fn lemma_scan_canonical(s: Seq<char>, i: int, t: TokenView)
    requires
        well_formed(t),
        stands_at(s, i, canonical_text(t)),
    ensures
        canonical_text(t).len() > 0,
        !is_space(s[i]),
        scan_token(s, i) == Ok::<_, LexFailure>((t, i + canonical_text(t).len())),
{
    let text = canonical_text(t);
    lemma_stands_at(s, i, text);
    match t {
        TokenView::String(body) => {
            let m = body.len() as int;
            assert(text.len() == m + 2);
            assert(s[i + 0] == text[0] && text[0] == '"');
            assert(s[i + (m + 1)] == text[m + 1] && text[m + 1] == '"');
            assert forall|j: int| i + 1 <= j < i + 1 + m implies in_class(
                CharClass::Quoted,
                #[trigger] s[j],
            ) by {
                assert(s[i + (j - i)] == text[j - i]);
                assert(text[j - i] == body[j - i - 1]);
            }
            lemma_run_end_is(s, i + 1, i + 1 + m, CharClass::Quoted);
            assert(s.subrange(i + 1, i + 1 + m) =~= body) by {
                assert forall|j: int| 0 <= j < m implies s.subrange(i + 1, i + 1 + m)[j]
                    == body[j] by {
                    assert(s[i + (j + 1)] == text[j + 1]);
                }
            }
        },
        TokenView::Float64(x) => {
            lemma_scan_float(s, i, x, seq!['f', '6', '4']);
            let e = x.len() as int;
            assert(s[i + e] == text[e] && s[i + (e + 1)] == text[e + 1] && s[i + (e + 2)]
                == text[e + 2]);
        },
        TokenView::Float32(x) => {
            lemma_scan_float(s, i, x, seq!['f', '3', '2']);
            let e = x.len() as int;
            assert(s[i + e] == text[e] && s[i + (e + 1)] == text[e + 1] && s[i + (e + 2)]
                == text[e + 2]);
        },
        TokenView::DefaultFloat(x) => {
            lemma_scan_float(s, i, x, Seq::empty());
        },
        TokenView::Integer64(v) => {
            lemma_decimal_text(v as nat);
            lemma_scan_integer64(s, i, decimal_text(v as nat));
        },
        TokenView::Integer(v) => {
            lemma_decimal_text(v as nat);
            lemma_scan_integer(s, i, decimal_text(v as nat));
        },
        TokenView::Ident(word) => {
            lemma_scan_word(s, i, word, t);
        },
        TokenView::Greater | TokenView::Less | TokenView::LParen | TokenView::RParen
        | TokenView::LBrace | TokenView::RBrace | TokenView::Semicolon | TokenView::Colon
        | TokenView::Eq | TokenView::Comma | TokenView::Dot => {
            assert(s[i + 0] == text[0]);
        },
        TokenView::NotEq | TokenView::LessEq | TokenView::GreaterEq | TokenView::EqEq => {},
        _ => {
            lemma_keyword_text(t);
            lemma_scan_word(s, i, text, t);
        },
    }
}

/// A text that starts with no white space and whose longest token at the
/// start is all of it holds exactly that token.
pub proof fn lemma_lex_single(s: Seq<char>, t: TokenView)
    requires
        s.len() > 0,
        !is_space(s[0]),
        scan_token(s, 0) == Ok::<_, LexFailure>((t, s.len() as int)),
    ensures
        lex(s) == Ok::<_, LexFailure>(seq![t]),
{
    let empty = Seq::<TokenView>::empty();
    assert(lex_from(s, s.len() as int, empty.push(t)) == Ok::<_, LexFailure>(empty.push(t)));
}

/// Lexing the canonical text of a token gives the token back.
pub proof fn lemma_relex(t: TokenView)
    requires
        well_formed(t),
    ensures
        lex(canonical_text(t)) == Ok::<_, LexFailure>(seq![t]),
{
    let s = canonical_text(t);
    assert(s.subrange(0, s.len() as int) =~= s);
    lemma_scan_canonical(s, 0, t);
    lemma_lex_single(s, t);
}

/// Digits without a suffix, where the number they write fits 32 bits, lex
/// to the 32-bit integer token of that number.
pub proof fn lemma_lex_integer(digits: Seq<char>)
    requires
        digits.len() > 0,
        all_digits(digits),
        decimal_value(digits) <= i32::MAX,
    ensures
        lex(digits) == Ok::<_, LexFailure>(
            seq![TokenView::Integer(decimal_value(digits) as i32)],
        ),
{
    assert(digits.subrange(0, digits.len() as int) =~= digits);
    lemma_scan_integer(digits, 0, digits);
    lemma_lex_single(digits, TokenView::Integer(decimal_value(digits) as i32));
}

/// Digits with the suffix `i64`, where the number they write fits 64 bits,
/// lex to the 64-bit integer token of that number: the suffix is no part of
/// the number.
pub proof fn lemma_lex_integer64(digits: Seq<char>)
    requires
        digits.len() > 0,
        all_digits(digits),
        decimal_value(digits) <= i64::MAX,
    ensures
        lex(digits + seq!['i', '6', '4']) == Ok::<_, LexFailure>(
            seq![TokenView::Integer64(decimal_value(digits) as i64)],
        ),
{
    let s = digits + seq!['i', '6', '4'];
    assert(s.subrange(0, s.len() as int) =~= s);
    lemma_scan_integer64(s, 0, digits);
    lemma_lex_single(s, TokenView::Integer64(decimal_value(digits) as i64));
}

/// Every token from the `k`-th on is as the lexer gives it.
pub open spec fn all_well_formed(ts: Seq<TokenView>) -> bool {
    forall|k: int| 0 <= k < ts.len() ==> well_formed(#[trigger] ts[k])
}

/// From position `i` on, the text `s` is the canonical texts of the tokens
/// of `ts` from the `k`-th on, in order, each followed by white space or by
/// the end of the text, with any white space before and between them and
/// nothing else.
pub open spec fn laid_out(s: Seq<char>, i: int, ts: Seq<TokenView>, k: int) -> bool
    decreases ts.len() - k,
{
    let j = run_end(s, i, CharClass::Space);
    if 0 <= k < ts.len() {
        let text = canonical_text(ts[k]);
        &&& stands_at(s, j, text)
        &&& laid_out(s, j + text.len(), ts, k + 1)
    } else {
        j >= s.len()
    }
}

/// A text that lays out the canonical texts of well-formed tokens lexes,
/// from any token of the layout on, to the tokens that follow.
pub proof fn lemma_lex_laid_out(
    s: Seq<char>,
    i: int,
    ts: Seq<TokenView>,
    k: int,
    acc: Seq<TokenView>,
)
    requires
        0 <= i <= s.len(),
        0 <= k <= ts.len(),
        all_well_formed(ts),
        laid_out(s, i, ts, k),
    ensures
        lex_from(s, i, acc) == Ok::<_, LexFailure>(acc + ts.subrange(k, ts.len() as int)),
    decreases ts.len() - k,
{
    let j = run_end(s, i, CharClass::Space);
    if k < ts.len() {
        let text = canonical_text(ts[k]);
        lemma_scan_canonical(s, j, ts[k]);
        let e = j + text.len();
        lemma_lex_laid_out(s, e, ts, k + 1, acc.push(ts[k]));
        assert(acc.push(ts[k]) + ts.subrange(k + 1, ts.len() as int) =~= acc + ts.subrange(
            k,
            ts.len() as int,
        ));
    } else {
    }
}

/// Lexing is total on canonical text and gives the tokens back: a text
/// that lays out the canonical texts of well-formed tokens, with white
/// space between them, lexes to exactly those tokens.
pub proof fn lemma_lex_layout(s: Seq<char>, ts: Seq<TokenView>)
    requires
        all_well_formed(ts),
        laid_out(s, 0, ts, 0),
    ensures
        lex(s) == Ok::<_, LexFailure>(ts),
{
    lemma_lex_laid_out(s, 0, ts, 0, Seq::empty());
    assert(Seq::<TokenView>::empty() + ts.subrange(0, ts.len() as int) =~= ts);
}

/// The digits of a run are a float text where a dot and a digit follow the
/// first run and the second run ends the text.
proof fn lemma_float_text(s: Seq<char>, i: int)
    requires
        0 <= i < s.len(),
        is_digit(s[i]),
        char_at(s, run_end(s, i, CharClass::Digit), '.'),
        run_end(s, i, CharClass::Digit) + 1 < s.len(),
        is_digit(s[run_end(s, i, CharClass::Digit) + 1]),
    ensures
        float_text(
            s.subrange(i, run_end(s, run_end(s, i, CharClass::Digit) + 1, CharClass::Digit)),
        ),
{
    let d = run_end(s, i, CharClass::Digit);
    lemma_run_end(s, i, CharClass::Digit);
    let f = run_end(s, d + 1, CharClass::Digit);
    lemma_run_end(s, d + 1, CharClass::Digit);
    let x = s.subrange(i, f);
    lemma_run_end_is(x, 0, d - i, CharClass::Digit);
    lemma_run_end_is(x, d - i + 1, f - i, CharClass::Digit);
}

/// Every token that the scanner gives is well formed.
pub proof fn lemma_scanned_well_formed(s: Seq<char>, i: int)
    requires
        0 <= i < s.len(),
    ensures
        scan_token(s, i) matches Ok((t, _)) ==> well_formed(t),
{
    let c = s[i];
    if c == '"' {
        lemma_run_end(s, i + 1, CharClass::Quoted);
    } else if is_digit(c) {
        let d = run_end(s, i, CharClass::Digit);
        if char_at(s, d, '.') && d + 1 < s.len() && is_digit(s[d + 1]) {
            lemma_float_text(s, i);
        }
    } else if is_word_start(c) {
        lemma_run_end(s, i, CharClass::Word);
    } else {
    }
}

/// Every token that lexing adds to well-formed tokens is well formed.
pub proof fn lemma_lexed_well_formed(s: Seq<char>, i: int, acc: Seq<TokenView>)
    requires
        0 <= i <= s.len(),
        all_well_formed(acc),
    ensures
        lex_from(s, i, acc) matches Ok(ts) ==> all_well_formed(ts),
    decreases s.len() - i,
{
    let j = run_end(s, i, CharClass::Space);
    lemma_run_end(s, i, CharClass::Space);
    if j < s.len() {
        lemma_scanned_well_formed(s, j);
        lemma_scan_token_advances(s, j);
        match scan_token(s, j) {
            Ok((t, next)) => {
                let acc1 = acc.push(t);
                lemma_lexed_well_formed(s, next, acc1);
            },
            Err(_) => {},
        }
    }
}

/// Lexing is idempotent: the tokens of a text are well formed, and any
/// text that lays out their canonical texts lexes to the same tokens.
pub proof fn lemma_lex_idempotent(s: Seq<char>, again: Seq<char>)
    requires
        lex(s) is Ok,
        laid_out(again, 0, lex(s)->Ok_0, 0),
    ensures
        all_well_formed(lex(s)->Ok_0),
        lex(again) == lex(s),
{
    lemma_lexed_well_formed(s, 0, Seq::empty());
    lemma_lex_layout(again, lex(s)->Ok_0);
}

/// The canonical text of a well-formed token is not empty and starts with
/// no white space.
pub proof fn lemma_canonical_start(t: TokenView)
    requires
        well_formed(t),
    ensures
        canonical_text(t).len() > 0,
        !is_space(canonical_text(t)[0]),
{
    match t {
        TokenView::Float64(x) => {},
        TokenView::Float32(x) => {},
        TokenView::DefaultFloat(x) => {},
        TokenView::Integer64(v) => {
            lemma_decimal_text(v as nat);
        },
        TokenView::Integer(v) => {
            lemma_decimal_text(v as nat);
        },
        TokenView::String(_) | TokenView::Ident(_) | TokenView::Greater | TokenView::Less
        | TokenView::NotEq | TokenView::LessEq | TokenView::GreaterEq | TokenView::EqEq
        | TokenView::LParen | TokenView::RParen | TokenView::LBrace | TokenView::RBrace
        | TokenView::Semicolon | TokenView::Colon | TokenView::Eq | TokenView::Comma
        | TokenView::Dot => {},
        _ => {
            lemma_keyword_text(t);
        },
    }
}

/// The canonical texts of the tokens from the `k`-th on, each followed by
/// one space.
pub open spec fn spaced(ts: Seq<TokenView>, k: int) -> Seq<char>
    decreases ts.len() - k,
{
    if 0 <= k < ts.len() {
        canonical_text(ts[k]) + seq![' '] + spaced(ts, k + 1)
    } else {
        Seq::empty()
    }
}

/// The spaced texts of well-formed tokens, after any text, lay the tokens
/// out.
pub proof fn lemma_spaced_laid_out(before: Seq<char>, ts: Seq<TokenView>, k: int)
    requires
        0 <= k <= ts.len(),
        all_well_formed(ts),
    ensures
        laid_out(before + spaced(ts, k), before.len() as int, ts, k),
    decreases ts.len() - k,
{
    let s = before + spaced(ts, k);
    let i = before.len() as int;
    if k < ts.len() {
        let text = canonical_text(ts[k]);
        let rest = spaced(ts, k + 1);
        let n = text.len() as int;
        lemma_canonical_start(ts[k]);
        assert(s.subrange(i, i + n) =~= text);
        let next = before + text + seq![' '];
        lemma_spaced_laid_out(next, ts, k + 1);
        assert(next + rest =~= s);
        assert(laid_out(s, i + n, ts, k + 1) == laid_out(s, i + n + 1, ts, k + 1));
    } else {
    }
}

/// Lexing the concatenation of the canonical texts of well-formed tokens,
/// each followed by a space, gives the tokens back.
pub proof fn lemma_lex_spaced(ts: Seq<TokenView>)
    requires
        all_well_formed(ts),
    ensures
        lex(spaced(ts, 0)) == Ok::<_, LexFailure>(ts),
{
    lemma_spaced_laid_out(Seq::empty(), ts, 0);
    lemma_lex_layout(spaced(ts, 0), ts);
}

/// Lexing is idempotent: the tokens of a text, written out in their
/// canonical texts, lex to the same tokens.
pub proof fn lemma_relex_text(s: Seq<char>)
    requires
        lex(s) is Ok,
    ensures
        lex(spaced(lex(s)->Ok_0, 0)) == lex(s),
{
    lemma_lexed_well_formed(s, 0, Seq::empty());
    lemma_lex_spaced(lex(s)->Ok_0);
}

/// The text of one decimal digit.
fn digit_text(d: u64) -> (r: &'static str)
    requires
        d < 10,
    ensures
        r@ == seq![digit_char(d as nat)],
{
    proof {
        reveal_strlit("0");
        reveal_strlit("1");
        reveal_strlit("2");
        reveal_strlit("3");
        reveal_strlit("4");
        reveal_strlit("5");
        reveal_strlit("6");
        reveal_strlit("7");
        reveal_strlit("8");
        reveal_strlit("9");
    }
    let r = if d == 0 {
        "0"
    } else if d == 1 {
        "1"
    } else if d == 2 {
        "2"
    } else if d == 3 {
        "3"
    } else if d == 4 {
        "4"
    } else if d == 5 {
        "5"
    } else if d == 6 {
        "6"
    } else if d == 7 {
        "7"
    } else if d == 8 {
        "8"
    } else {
        "9"
    };
    r
}

/// The decimal numeral of a number.
pub fn decimal_string(n: u64) -> (r: String)
    ensures
        r@ == decimal_text(n as nat),
    decreases n,
{
    if n < 10 {
        String::from_str(digit_text(n))
    } else {
        let front = decimal_string(n / 10);
        let r = front.concat(digit_text(n % 10));
        r
    }
}

/// Whether the text is that of a float literal.
fn is_float_text(x: &String) -> (r: bool)
    ensures
        r == float_text(x@),
{
    let chars = chars_of(x.as_str());
    let d = scan_run(&chars, 0, CharClass::Digit);
    0 < d && d < chars.len() && chars[d] == '.' && d + 1 < chars.len() && scan_run(
        &chars,
        d + 1,
        CharClass::Digit,
    ) == chars.len()
}

/// Whether the token is as the lexer gives it.
pub fn is_well_formed(t: &Token) -> (r: bool)
    ensures
        r == well_formed(t@),
{
    match t {
        Token::String(s) => {
            let chars = chars_of(s.as_str());
            let e = scan_run(&chars, 0, CharClass::Quoted);
            proof {
                lemma_run_end(chars@, 0, CharClass::Quoted);
            }
            let r = e == chars.len();
            r
        },
        Token::Float64(x) => is_float_text(x),
        Token::Float32(x) => is_float_text(x),
        Token::DefaultFloat(x) => is_float_text(x),
        Token::Integer64(n) => *n >= 0,
        Token::Integer(n) => *n >= 0,
        Token::Ident(s) => {
            let chars = chars_of(s.as_str());
            if chars.len() == 0 || !char_is_word_start(chars[0]) {
                return false;
            }
            let e = scan_run(&chars, 0, CharClass::Word);
            proof {
                lemma_run_end(chars@, 0, CharClass::Word);
            }
            if e != chars.len() {
                return false;
            }
            let word = classify_word(s.as_str());
            let r = matches!(word, Token::Ident(_));
            r
        },
        _ => true,
    }
}

/// The canonical text of a token that is as the lexer gives it, and `None`
/// for any other token.
pub fn canonical(t: &Token) -> (r: Option<String>)
    ensures
        match r {
            Some(text) => well_formed(t@) && text@ == canonical_text(t@),
            None => !well_formed(t@),
        },
{
    if !is_well_formed(t) {
        return None;
    }
    proof {
        reveal_strlit("\"");
        reveal_strlit("f64");
        reveal_strlit("f32");
        reveal_strlit("i64");
        reveal_strlit(">");
        reveal_strlit("<");
        reveal_strlit("!=");
        reveal_strlit("<=");
        reveal_strlit(">=");
        reveal_strlit("==");
        reveal_strlit("(");
        reveal_strlit(")");
        reveal_strlit("{");
        reveal_strlit("}");
        reveal_strlit(";");
        reveal_strlit(":");
        reveal_strlit("=");
        reveal_strlit(",");
        reveal_strlit(".");
    }
    let text = match t {
        Token::String(s) => {
            let r = String::from_str("\"").concat(s.as_str()).concat("\"");
            r
        },
        Token::Float64(x) => {
            let r = x.clone().concat("f64");
            r
        },
        Token::Float32(x) => {
            let r = x.clone().concat("f32");
            r
        },
        Token::DefaultFloat(x) => x.clone(),
        Token::Integer64(n) => {
            let r = decimal_string(*n as u64).concat("i64");
            r
        },
        Token::Integer(n) => decimal_string(*n as u64),
        Token::Bool(b) => if *b {
            String::from_str("true")
        } else {
            String::from_str("false")
        },
        Token::Func => String::from_str("fn"),
        Token::Return => String::from_str("return"),
        Token::Let => String::from_str("let"),
        Token::Use => String::from_str("use"),
        Token::Void => String::from_str("void"),
        Token::If => String::from_str("if"),
        Token::Else => String::from_str("else"),
        Token::Elif => String::from_str("elif"),
        Token::Greater => {
            let r = String::from_str(">");
            r
        },
        Token::Less => {
            let r = String::from_str("<");
            r
        },
        Token::NotEq => {
            let r = String::from_str("!=");
            r
        },
        Token::LessEq => {
            let r = String::from_str("<=");
            r
        },
        Token::GreaterEq => {
            let r = String::from_str(">=");
            r
        },
        Token::EqEq => {
            let r = String::from_str("==");
            r
        },
        Token::I32Type => String::from_str("i32"),
        Token::I64Type => String::from_str("i64"),
        Token::F32Type => String::from_str("f32"),
        Token::F64Type => String::from_str("f64"),
        Token::StringType => String::from_str("string"),
        Token::BoolType => String::from_str("bool"),
        Token::LParen => {
            let r = String::from_str("(");
            r
        },
        Token::RParen => {
            let r = String::from_str(")");
            r
        },
        Token::LBrace => {
            let r = String::from_str("{");
            r
        },
        Token::RBrace => {
            let r = String::from_str("}");
            r
        },
        Token::Semicolon => {
            let r = String::from_str(";");
            r
        },
        Token::Colon => {
            let r = String::from_str(":");
            r
        },
        Token::Eq => {
            let r = String::from_str("=");
            r
        },
        Token::Comma => {
            let r = String::from_str(",");
            r
        },
        Token::Dot => {
            let r = String::from_str(".");
            r
        },
        Token::Ident(s) => s.clone(),
    };
    Some(text)
}

} // verus!
