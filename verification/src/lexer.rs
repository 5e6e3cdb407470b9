//! The lexer: raw text to an ordered token stream.
//!
//! Space characters are skipped outright.  A run of word characters
//! (letters, digits, underscores, decimal points) is buffered; when the
//! run ends the buffer either names a function — if an opening parenthesis
//! interrupts it, which the lexer consumes — or is split into implicit
//! tokens: maximal digit runs with at most one decimal point become
//! `Number` tokens and each letter becomes its own one-character
//! `Variable` token, so `2x` lexes as `Number(2), Variable(x)` and the
//! parser supplies the implicit multiplication.  Structural characters map
//! straight to their tokens, and anything unrecognized is silently
//! dropped.  Lexing never fails; an empty input yields an empty stream.

use vstd::prelude::*;
use vstd::string::StrSliceExecFns;

use crate::chars::alpha_char;
use crate::chars::digit_char;
use crate::chars::is_alpha_char;
use crate::chars::is_digit_char;
use crate::chars::is_word_char;
use crate::chars::push_char;
use crate::chars::word_char;
use crate::tokens::Operator;
use crate::tokens::Token;
use crate::tokens::TokenList;
use crate::tokens::TokenView;
use crate::tokens::token_views;

verus! {

/// The token a single structural character stands for, if any.
pub open spec fn structural_token(c: char) -> Option<TokenView> {
    if c == '+' {
        Option::Some(TokenView::Operator(Operator::Add))
    } else if c == '-' {
        Option::Some(TokenView::Operator(Operator::Subtract))
    } else if c == '*' {
        Option::Some(TokenView::Operator(Operator::Multiply))
    } else if c == '/' {
        Option::Some(TokenView::Operator(Operator::Divide))
    } else if c == '^' {
        Option::Some(TokenView::Operator(Operator::Exponentiate))
    } else if c == '(' {
        Option::Some(TokenView::LeftParenthesis)
    } else if c == ')' {
        Option::Some(TokenView::RightParenthesis)
    } else if c == ',' {
        Option::Some(TokenView::Comma)
    } else {
        Option::None
    }
}

/// The pending digit run flushed as a token, or nothing if no digits are
/// pending.
pub open spec fn flush_number(num: Seq<char>) -> Seq<TokenView> {
    if num.len() == 0 {
        Seq::empty()
    } else {
        seq![TokenView::Number(num)]
    }
}

/// Whether `c` may extend the pending digit run `num`: digits always may,
/// a decimal point only if the run has begun and holds no point yet.
pub open spec fn extends_number(num: Seq<char>, c: char) -> bool {
    is_digit_char(c) || (c == '.' && num.len() > 0 && !num.contains('.'))
}

/// Splits a buffered word into implicit tokens: `num` is the digit run
/// pending so far.  Letters become one-character variables; an underscore
/// or a point that cannot extend the run only ends it.
pub open spec fn spec_split_implicit(s: Seq<char>, num: Seq<char>) -> Seq<TokenView>
    decreases s.len(),
{
    if s.len() == 0 {
        flush_number(num)
    } else if extends_number(num, s[0]) {
        spec_split_implicit(s.skip(1), num.push(s[0]))
    } else {
        flush_number(num) + (if is_alpha_char(s[0]) {
            seq![TokenView::Variable(seq![s[0]])]
        } else {
            Seq::empty()
        }) + spec_split_implicit(s.skip(1), Seq::empty())
    }
}

/// The token stream of the remaining input `s`, with the word run `buf`
/// pending.
pub open spec fn spec_lex(s: Seq<char>, buf: Seq<char>) -> Seq<TokenView>
    decreases s.len(),
{
    if s.len() == 0 {
        spec_split_implicit(buf, Seq::empty())
    } else if s[0] == ' ' {
        spec_lex(s.skip(1), buf)
    } else if is_word_char(s[0]) {
        spec_lex(s.skip(1), buf.push(s[0]))
    } else if s[0] == '(' && buf.len() > 0 {
        seq![TokenView::Function(buf)] + spec_lex(s.skip(1), Seq::empty())
    } else {
        spec_split_implicit(buf, Seq::empty()) + (match structural_token(s[0]) {
            Option::Some(t) => seq![t],
            Option::None => Seq::empty(),
        }) + spec_lex(s.skip(1), Seq::empty())
    }
}

/// The entire token stream of an input text.
pub open spec fn spec_tokenize(s: Seq<char>) -> Seq<TokenView> {
    spec_lex(s, Seq::empty())
}

/// The token a single structural character maps to.
pub(crate) fn get_token(ch: char) -> (r: Option<Token>)
    ensures
        match r {
            Option::Some(t) => structural_token(ch) == Option::Some(t@),
            Option::None => structural_token(ch) is None,
        },
{
    match ch {
        '+' => Some(Token::Operator(Operator::Add)),
        '-' => Some(Token::Operator(Operator::Subtract)),
        '*' => Some(Token::Operator(Operator::Multiply)),
        '/' => Some(Token::Operator(Operator::Divide)),
        '^' => Some(Token::Operator(Operator::Exponentiate)),
        '(' => Some(Token::LeftParenthesis),
        ')' => Some(Token::RightParenthesis),
        ',' => Some(Token::Comma),
        _ => None,
    }
}

/// Splits one buffered word into its implicit `Number` and `Variable`
/// tokens.
pub(crate) fn parse_implicit(expr: &str) -> (r: TokenList)
    ensures
        token_views(r@) == spec_split_implicit(expr@, Seq::empty()),
{
    let n = expr.unicode_len();
    let mut tokens: TokenList = Vec::new();
    let mut num = String::new();
    let mut has_dot = false;
    let mut num_len: usize = 0;
    let mut i: usize = 0;
    proof {
        assert(expr@.skip(0) =~~= expr@);
        assert(token_views(tokens@) =~~= Seq::<TokenView>::empty());
    }
    while i < n
        invariant
            i <= n,
            n == expr@.len(),
            num_len == num@.len(),
            num_len <= i,
            has_dot == num@.contains('.'),
            spec_split_implicit(expr@, Seq::empty()) =~~= token_views(tokens@)
                + spec_split_implicit(expr@.skip(i as int), num@),
        decreases n - i,
    {
        let ghost rest = expr@.skip(i as int);
        let ghost done = token_views(tokens@);
        let ghost pending = num@;
        proof {
            assert(rest.len() == n - i);
            assert(rest[0] == expr@[i as int]);
            assert(rest.skip(1) =~~= expr@.skip(i as int + 1));
        }
        let c = expr.get_char(i);
        if digit_char(c) {
            push_char(&mut num, c);
            num_len += 1;
            proof {
                assert(num@ == pending.push(c));
                assert(c != '.');
                assert(num@.contains('.') == pending.contains('.')) by {
                    if num@.contains('.') {
                        let k = choose|k: int| 0 <= k < num@.len() && num@[k] == '.';
                        assert(num@.last() == c);
                        assert(k < num@.len() - 1);
                        assert(pending[k] == '.');
                    }
                    if pending.contains('.') {
                        let k = choose|k: int| 0 <= k < pending.len() && pending[k] == '.';
                        assert(num@[k] == '.');
                    }
                }
                assert(extends_number(pending, c));
                assert(spec_split_implicit(rest, pending) == spec_split_implicit(
                    rest.skip(1),
                    pending.push(c),
                ));
            }
        } else if c == '.' && num_len > 0 && !has_dot {
            push_char(&mut num, c);
            num_len += 1;
            has_dot = true;
            proof {
                assert(num@ == pending.push(c));
                assert(num@.contains('.')) by {
                    assert(num@.last() == '.');
                }
                assert(extends_number(pending, c));
                assert(spec_split_implicit(rest, pending) == spec_split_implicit(
                    rest.skip(1),
                    pending.push(c),
                ));
            }
        } else {
            let ghost flushed = flush_number(pending);
            let ghost varpart = (if is_alpha_char(c) {
                seq![TokenView::Variable(seq![c])]
            } else {
                Seq::<TokenView>::empty()
            });
            let ghost tail = spec_split_implicit(rest.skip(1), Seq::<char>::empty());
            proof {
                assert(!extends_number(num@, c));
                assert(spec_split_implicit(rest, pending) == flushed + varpart + tail);
            }
            if num_len > 0 {
                let lit = crate::ast::NumericLiteral::from_text(num);
                tokens.push(Token::Number(lit));
                num = String::new();
                num_len = 0;
                has_dot = false;
                proof {
                    assert(token_views(tokens@) =~~= done + flushed);
                }
            } else {
                proof {
                    assert(token_views(tokens@) =~~= done + flushed);
                }
            }
            let ghost done_num = token_views(tokens@);
            if alpha_char(c) {
                let mut name = String::new();
                push_char(&mut name, c);
                proof {
                    assert(name@ =~~= seq![c]);
                }
                tokens.push(Token::Variable(name));
                proof {
                    assert(token_views(tokens@) =~~= done_num + varpart);
                }
            } else {
                proof {
                    assert(varpart =~~= Seq::<TokenView>::empty());
                    assert(token_views(tokens@) =~~= done_num + varpart);
                }
            }
            proof {
                assert(num@ =~~= Seq::<char>::empty());
                assert(!num@.contains('.')) by {
                    assert(num@.len() == 0);
                }
                assert(token_views(tokens@) =~~= done + flushed + varpart);
                assert(done + (flushed + varpart + tail) =~~= (done + flushed + varpart) + tail);
                assert(spec_split_implicit(expr@, Seq::empty()) =~~= token_views(tokens@)
                    + tail);
            }
        }
        i += 1;
        proof {
            assert(expr@.skip(i as int) == rest.skip(1));
            assert(spec_split_implicit(expr@, Seq::empty()) =~~= token_views(tokens@)
                + spec_split_implicit(expr@.skip(i as int), num@));
        }
    }
    proof {
        assert(expr@.skip(n as int) =~~= Seq::<char>::empty());
    }
    if num_len > 0 {
        let lit = crate::ast::NumericLiteral::from_text(num);
        tokens.push(Token::Number(lit));
    }
    proof {
        assert(token_views(tokens@) =~~= spec_split_implicit(expr@, Seq::empty()));
    }
    tokens
}

/// Turns an expression text into its token stream.  This never fails:
/// spaces are skipped and unrecognized characters are dropped.
pub fn tokenize(expr: &str) -> (r: TokenList)
    ensures
        token_views(r@) == spec_tokenize(expr@),
{
    let n = expr.unicode_len();
    let mut tokens: TokenList = Vec::new();
    let mut buf = String::new();
    let mut buf_len: usize = 0;
    let mut i: usize = 0;
    proof {
        assert(expr@.skip(0) =~~= expr@);
        assert(token_views(tokens@) =~~= Seq::<TokenView>::empty());
    }
    while i < n
        invariant
            i <= n,
            n == expr@.len(),
            buf_len == buf@.len(),
            buf_len <= i,
            spec_tokenize(expr@) =~~= token_views(tokens@) + spec_lex(expr@.skip(i as int), buf@),
        decreases n - i,
    {
        let ghost rest = expr@.skip(i as int);
        let ghost done = token_views(tokens@);
        let ghost pending = buf@;
        proof {
            assert(rest.len() == n - i);
            assert(rest[0] == expr@[i as int]);
            assert(rest.skip(1) =~~= expr@.skip(i as int + 1));
        }
        let c = expr.get_char(i);
        if c == ' ' {
            proof {
                assert(spec_lex(rest, pending) == spec_lex(rest.skip(1), pending));
            }
        } else if word_char(c) {
            push_char(&mut buf, c);
            buf_len += 1;
            proof {
                assert(spec_lex(rest, pending) == spec_lex(rest.skip(1), pending.push(c)));
            }
        } else if c == '(' && buf_len > 0 {
            let ghost tail = spec_lex(rest.skip(1), Seq::<char>::empty());
            tokens.push(Token::Function(buf));
            buf = String::new();
            buf_len = 0;
            proof {
                assert(spec_lex(rest, pending) == seq![TokenView::Function(pending)] + tail);
                assert(token_views(tokens@) =~~= done + seq![TokenView::Function(pending)]);
                assert(done + (seq![TokenView::Function(pending)] + tail) =~~= (done
                    + seq![TokenView::Function(pending)]) + tail);
                assert(spec_tokenize(expr@) =~~= token_views(tokens@) + tail);
            }
        } else {
            let ghost flushed = spec_split_implicit(pending, Seq::<char>::empty());
            let ghost structpart = (match structural_token(c) {
                Option::Some(t) => seq![t],
                Option::None => Seq::<TokenView>::empty(),
            });
            let ghost tail = spec_lex(rest.skip(1), Seq::<char>::empty());
            proof {
                assert(spec_lex(rest, pending) == flushed + structpart + tail);
            }
            if buf_len > 0 {
                let mut implicit = parse_implicit(buf.as_str());
                proof {
                    assert(token_views(implicit@) == flushed);
                }
                tokens.append(&mut implicit);
                buf = String::new();
                buf_len = 0;
                proof {
                    assert(token_views(tokens@) =~~= done + flushed);
                }
            } else {
                proof {
                    assert(flushed =~~= Seq::<TokenView>::empty());
                    assert(token_views(tokens@) =~~= done + flushed);
                }
            }
            let ghost done_words = token_views(tokens@);
            match get_token(c) {
                Some(recognized) => {
                    tokens.push(recognized);
                    proof {
                        assert(seq![recognized@] =~~= structpart);
                        assert(token_views(tokens@) =~~= done_words + structpart);
                    }
                },
                None => {
                    proof {
                        assert(structpart =~~= Seq::<TokenView>::empty());
                        assert(token_views(tokens@) =~~= done_words + structpart);
                    }
                },
            }
            proof {
                assert(buf@ =~~= Seq::<char>::empty());
                assert(token_views(tokens@) =~~= done + flushed + structpart);
                assert(done + (flushed + structpart + tail) =~~= (done + flushed + structpart)
                    + tail);
                assert(spec_tokenize(expr@) =~~= token_views(tokens@) + tail);
            }
        }
        i += 1;
        proof {
            assert(spec_tokenize(expr@) =~~= token_views(tokens@) + spec_lex(
                expr@.skip(i as int),
                buf@,
            ));
        }
    }
    proof {
        assert(expr@.skip(n as int) =~~= Seq::<char>::empty());
    }
    if buf_len > 0 {
        let mut implicit = parse_implicit(buf.as_str());
        proof {
            assert(token_views(tokens@ + implicit@) =~~= token_views(tokens@) + token_views(
                implicit@,
            ));
        }
        tokens.append(&mut implicit);
    }
    proof {
        assert(token_views(tokens@) =~~= spec_tokenize(expr@));
    }
    tokens
}

/// Every number token in a split word carries a well-formed decimal text,
/// provided the pending run is empty or itself well-formed.
proof fn lemma_split_implicit_literals(s: Seq<char>, num: Seq<char>)
    requires
        num.len() == 0 || crate::ast::wf_numeric_text(num),
    ensures
        forall|k: int|
            0 <= k < spec_split_implicit(s, num).len() ==> (match #[trigger] spec_split_implicit(
                s,
                num,
            )[k] {
                TokenView::Number(txt) => crate::ast::wf_numeric_text(txt),
                _ => true,
            }),
    decreases s.len(),
{
    if s.len() == 0 {
    } else if extends_number(num, s[0]) {
        let c = s[0];
        let grown = num.push(c);
        assert(crate::ast::wf_numeric_text(grown)) by {
            assert(grown.len() > 0);
            if num.len() == 0 {
                assert(grown[0] == c);
                assert(is_digit_char(c));
            } else {
                assert(grown[0] == num[0]);
            }
            assert forall|i: int| 0 <= i < grown.len() implies is_digit_char(#[trigger] grown[i])
                || grown[i] == '.' by {
                if i < num.len() {
                    assert(grown[i] == num[i]);
                } else {
                    assert(grown[i] == c);
                }
            }
            assert forall|i: int, j: int|
                0 <= i < grown.len() && 0 <= j < grown.len() && #[trigger] grown[i] == '.'
                    && #[trigger] grown[j] == '.' implies i == j by {
                if is_digit_char(c) {
                    assert(c != '.');
                    assert(i < num.len() && j < num.len());
                    assert(num[i] == '.' && num[j] == '.');
                } else {
                    if i < num.len() {
                        assert(num[i] == '.');
                        assert(num.contains('.'));
                    }
                    if j < num.len() {
                        assert(num[j] == '.');
                        assert(num.contains('.'));
                    }
                }
            }
        }
        lemma_split_implicit_literals(s.skip(1), grown);
    } else {
        lemma_split_implicit_literals(s.skip(1), Seq::empty());
        let flushed = flush_number(num);
        let varpart = (if is_alpha_char(s[0]) {
            seq![TokenView::Variable(seq![s[0]])]
        } else {
            Seq::<TokenView>::empty()
        });
        let tail = spec_split_implicit(s.skip(1), Seq::empty());
        assert forall|k: int| 0 <= k < spec_split_implicit(s, num).len() implies (
        match #[trigger] spec_split_implicit(s, num)[k] {
            TokenView::Number(txt) => crate::ast::wf_numeric_text(txt),
            _ => true,
        }) by {
            let out = spec_split_implicit(s, num);
            assert(out == flushed + varpart + tail);
            if k >= flushed.len() + varpart.len() {
                assert(out[k] == tail[k - flushed.len() - varpart.len()]);
            } else if k >= flushed.len() {
                assert(out[k] == varpart[k - flushed.len()]);
            } else {
                assert(out[k] == flushed[k]);
            }
        }
    }
}

/// The same, over the whole lexer run.
proof fn lemma_lex_literals(s: Seq<char>, buf: Seq<char>)
    ensures
        forall|k: int|
            0 <= k < spec_lex(s, buf).len() ==> (match #[trigger] spec_lex(s, buf)[k] {
                TokenView::Number(txt) => crate::ast::wf_numeric_text(txt),
                _ => true,
            }),
    decreases s.len(),
{
    if s.len() == 0 {
        lemma_split_implicit_literals(buf, Seq::empty());
    } else if s[0] == ' ' {
        lemma_lex_literals(s.skip(1), buf);
    } else if is_word_char(s[0]) {
        lemma_lex_literals(s.skip(1), buf.push(s[0]));
    } else if s[0] == '(' && buf.len() > 0 {
        lemma_lex_literals(s.skip(1), Seq::empty());
        assert forall|k: int| 0 <= k < spec_lex(s, buf).len() implies (
        match #[trigger] spec_lex(s, buf)[k] {
            TokenView::Number(txt) => crate::ast::wf_numeric_text(txt),
            _ => true,
        }) by {
            let out = spec_lex(s, buf);
            if k >= 1 {
                assert(out[k] == spec_lex(s.skip(1), Seq::empty())[k - 1]);
            }
        }
    } else {
        lemma_split_implicit_literals(buf, Seq::empty());
        lemma_lex_literals(s.skip(1), Seq::empty());
        let flushed = spec_split_implicit(buf, Seq::empty());
        let structpart = (match structural_token(s[0]) {
            Option::Some(t) => seq![t],
            Option::None => Seq::<TokenView>::empty(),
        });
        let tail = spec_lex(s.skip(1), Seq::empty());
        assert forall|k: int| 0 <= k < spec_lex(s, buf).len() implies (
        match #[trigger] spec_lex(s, buf)[k] {
            TokenView::Number(txt) => crate::ast::wf_numeric_text(txt),
            _ => true,
        }) by {
            let out = spec_lex(s, buf);
            assert(out == flushed + structpart + tail);
            if k >= flushed.len() + structpart.len() {
                assert(out[k] == tail[k - flushed.len() - structpart.len()]);
            } else if k >= flushed.len() {
                assert(out[k] == structpart[k - flushed.len()]);
            } else {
                assert(out[k] == flushed[k]);
            }
        }
    }
}

/// Every `Number` token the lexer emits carries a well-formed decimal
/// text: digits with at most one decimal point, starting with a digit.
/// A caller reading a literal as a number can therefore never be handed
/// an unreadable text.
pub proof fn lemma_lexer_literals_wellformed(s: Seq<char>)
    ensures
        forall|k: int|
            0 <= k < spec_tokenize(s).len() ==> (match #[trigger] spec_tokenize(s)[k] {
                TokenView::Number(txt) => crate::ast::wf_numeric_text(txt),
                _ => true,
            }),
{
    lemma_lex_literals(s, Seq::empty());
}

} // verus!
