//! The reader: turns source text into a syntax tree.
//!
//! The grammar, with whitespace (space, tab, carriage return, line feed)
//! skipped before and after every expression:
//!
//! ```text
//! expr   = number / symbol / list
//! number = '-'? digit+ ('.' digit*)?
//! symbol = start rest*
//! list   = '(' expr* ')'
//! ```
//!
//! Choices are tried in this order and every repetition takes as much as it
//! can.  A symbol starts with a letter or one of ``-_+*/?!@#$%&|<>=:"`` and
//! goes on with these, digits and `.`.  The text must hold one expression
//! and nothing after it.

use vstd::prelude::*;
use crate::expr::{views_of, Expr, SyntaxNode};

verus! {

/// Why a text could not be read.
#[derive(Clone, Copy, Debug, PartialEq, Eq, Structural)]
pub enum ParseError {
    /// The text holds nothing but whitespace.
    Empty,
    /// No expression stands at the start of the text, and its parentheses do
    /// not balance.
    Unbalanced,
    /// No expression stands at the start of the text, though its parentheses
    /// balance.
    Malformed,
    /// The text goes on after its first expression.
    Trailing,
}

/// The classes of characters that the grammar repeats.
#[derive(Clone, Copy, Debug, PartialEq, Eq, Structural)]
pub enum Class {
    Space,
    Digit,
    SymbolRest,
}

pub open spec fn is_space(c: char) -> bool {
    c == ' ' || c == '\t' || c == '\r' || c == '\n'
}

pub open spec fn is_digit(c: char) -> bool {
    '0' <= c <= '9'
}

/// Whether a symbol may start with `c`.
pub open spec fn is_symbol_start(c: char) -> bool {
    ('a' <= c <= 'z') || ('A' <= c <= 'Z') || c == '-' || c == '_' || c == '+' || c == '*' || c
        == '/' || c == '?' || c == '!' || c == '@' || c == '#' || c == '$' || c == '%' || c == '&'
        || c == '|' || c == '<' || c == '>' || c == '=' || c == ':' || c == '"'
}

/// Whether a symbol may go on with `c`.
pub open spec fn is_symbol_rest(c: char) -> bool {
    is_symbol_start(c) || is_digit(c) || c == '.'
}

pub open spec fn in_class(class: Class, c: char) -> bool {
    match class {
        Class::Space => is_space(c),
        Class::Digit => is_digit(c),
        Class::SymbolRest => is_symbol_rest(c),
    }
}

/// Where the longest run of characters of `class` that starts at `pos` ends.
pub open spec fn run_end(s: Seq<char>, pos: int, class: Class) -> int
    decreases s.len() - pos,
{
    if 0 <= pos < s.len() && in_class(class, s[pos]) {
        run_end(s, pos + 1, class)
    } else {
        pos
    }
}

/// A run ends at or after its start, and within the text where it starts
/// there.
pub proof fn lemma_run_bounds(s: Seq<char>, pos: int, class: Class)
    ensures
        pos <= run_end(s, pos, class),
        pos <= s.len() ==> run_end(s, pos, class) <= s.len(),
    decreases s.len() - pos,
{
    if 0 <= pos < s.len() && in_class(class, s[pos]) {
        lemma_run_bounds(s, pos + 1, class);
    }
}

/// Where the number that starts at `pos` ends, if one starts there.
pub open spec fn number_end(s: Seq<char>, pos: int) -> Option<int> {
    let digits = if 0 <= pos < s.len() && s[pos] == '-' {
        pos + 1
    } else {
        pos
    };
    let whole = run_end(s, digits, Class::Digit);
    if whole == digits {
        None
    } else if whole < s.len() && s[whole] == '.' {
        Some(run_end(s, whole + 1, Class::Digit))
    } else {
        Some(whole)
    }
}

/// Where the symbol that starts at `pos` ends, if one starts there.
pub open spec fn symbol_end(s: Seq<char>, pos: int) -> Option<int> {
    if 0 <= pos < s.len() && is_symbol_start(s[pos]) {
        Some(run_end(s, pos + 1, Class::SymbolRest))
    } else {
        None
    }
}

/// The number that a digit stands for.
pub open spec fn digit_value(c: char) -> int {
    c as int - '0' as int
}

/// The number that a run of digits stands for, read in base ten.
pub open spec fn digits_value(digits: Seq<char>) -> int
    decreases digits.len(),
{
    if digits.len() == 0 {
        0
    } else {
        digits_value(digits.drop_last()) * 10 + digit_value(digits.last())
    }
}

/// Whether the token has the shape of a number: an optional `-`, one digit
/// or more, and optionally a `.` followed by any number of digits.
pub open spec fn is_number_token(token: Seq<char>) -> bool {
    number_end(token, 0) == Some(token.len() as int)
}

/// The number written by a token without a `.`: its digits read in base
/// ten, negated after a `-`.
pub open spec fn integer_value(token: Seq<char>) -> int {
    if token.len() > 0 && token[0] == '-' {
        -digits_value(token.skip(1))
    } else {
        digits_value(token)
    }
}

/// The node that a number token stands for: an integer where the token has
/// no `.` and its value fits 64 bits with a sign, a decimal with the text of
/// the token otherwise.
pub open spec fn number_node(token: Seq<char>) -> SyntaxNode {
    if !token.contains('.') && i64::MIN <= integer_value(token) <= i64::MAX {
        SyntaxNode::Integer(integer_value(token) as i64)
    } else {
        SyntaxNode::Float(token)
    }
}

/// The expression that stands at `pos`, after whitespace, and the position
/// after it and the whitespace that follows.
pub open spec fn parse_expr_spec(s: Seq<char>, pos: int) -> Option<(SyntaxNode, int)>
    decreases s.len() - pos, 1nat,
{
    let start = run_end(s, pos, Class::Space);
    if pos < 0 || start >= s.len() {
        None
    } else if number_end(s, start) is Some {
        let end = number_end(s, start)->Some_0;
        Some((number_node(s.subrange(start, end)), run_end(s, end, Class::Space)))
    } else if symbol_end(s, start) is Some {
        let end = symbol_end(s, start)->Some_0;
        Some((SyntaxNode::Symbol(s.subrange(start, end)), run_end(s, end, Class::Space)))
    } else if s[start] == '(' {
        proof {
            lemma_run_bounds(s, pos, Class::Space);
        }
        let (items, after) = parse_items_spec(s, start + 1, Seq::empty());
        let close = run_end(s, after, Class::Space);
        if 0 <= close < s.len() && s[close] == ')' {
            Some((SyntaxNode::List(items), run_end(s, close + 1, Class::Space)))
        } else {
            None
        }
    } else {
        None
    }
}

/// `items` followed by the expressions that stand at `pos`, one after the
/// other, and the position where no further one stands.
pub open spec fn parse_items_spec(s: Seq<char>, pos: int, items: Seq<SyntaxNode>) -> (
    Seq<SyntaxNode>,
    int,
)
    decreases s.len() - pos, 2nat,
{
    match parse_expr_spec(s, pos) {
        Some((node, after)) => if pos < after <= s.len() {
            parse_items_spec(s, after, items.push(node))
        } else {
            (items, pos)
        },
        None => (items, pos),
    }
}

/// By how much the `(` outnumber the `)` among the first `n` characters.
pub open spec fn depth(s: Seq<char>, n: int) -> int
    decreases n,
{
    if n <= 0 || n > s.len() {
        0
    } else if s[n - 1] == '(' {
        depth(s, n - 1) + 1
    } else if s[n - 1] == ')' {
        depth(s, n - 1) - 1
    } else {
        depth(s, n - 1)
    }
}

/// Whether the parentheses of the text balance: no `)` comes before its `(`,
/// and none is left open at the end.
pub open spec fn balanced(s: Seq<char>) -> bool {
    &&& forall|n: int| 0 <= n <= s.len() ==> depth(s, n) >= 0
    &&& depth(s, s.len() as int) == 0
}

/// What reading a text gives.
pub open spec fn read_spec(s: Seq<char>) -> Result<SyntaxNode, ParseError> {
    if run_end(s, 0, Class::Space) >= s.len() {
        Err(ParseError::Empty)
    } else {
        match parse_expr_spec(s, 0) {
            None => if balanced(s) {
                Err(ParseError::Malformed)
            } else {
                Err(ParseError::Unbalanced)
            },
            Some((node, end)) => if end == s.len() {
                Ok(node)
            } else {
                Err(ParseError::Trailing)
            },
        }
    }
}

/// The characters of a text.
pub fn chars_of(text: &str) -> (chars: Vec<char>)
    ensures
        chars@ == text@,
{
    let mut chars: Vec<char> = Vec::new();
    for c in it: text.chars()
        invariant
            chars@ == it.seq().take(it.index() as int),
    {
        chars.push(c);
    }
    chars
}

/// Whether `c` belongs to `class`.
fn belongs(class: Class, c: char) -> (r: bool)
    ensures
        r == in_class(class, c),
{
    match class {
        Class::Space => c == ' ' || c == '\t' || c == '\r' || c == '\n',
        Class::Digit => '0' <= c && c <= '9',
        Class::SymbolRest => starts_symbol(c) || ('0' <= c && c <= '9') || c == '.',
    }
}

/// Whether a symbol may start with `c`.
fn starts_symbol(c: char) -> (r: bool)
    ensures
        r == is_symbol_start(c),
{
    ('a' <= c && c <= 'z') || ('A' <= c && c <= 'Z') || c == '-' || c == '_' || c == '+' || c
        == '*' || c == '/' || c == '?' || c == '!' || c == '@' || c == '#' || c == '$' || c == '%'
        || c == '&' || c == '|' || c == '<' || c == '>' || c == '=' || c == ':' || c == '"'
}

/// Where the longest run of characters of `class` that starts at `pos` ends.
fn scan(chars: &Vec<char>, pos: usize, class: Class) -> (end: usize)
    requires
        pos <= chars.len(),
    ensures
        end == run_end(chars@, pos as int, class),
        pos <= end <= chars.len(),
{
    let mut end = pos;
    while end < chars.len() && belongs(class, chars[end])
        invariant
            pos <= end <= chars.len(),
            run_end(chars@, pos as int, class) == run_end(chars@, end as int, class),
        decreases chars.len() - end,
    {
        end = end + 1;
    }
    end
}

/// Whether the parentheses of the text balance, so that an interactive
/// front end can tell a finished input from one that goes on.
pub fn is_complete_expression(input: &str) -> (r: bool)
    ensures
        r == balanced(input@),
{
    let chars = chars_of(input);
    let mut open_parens: usize = 0;
    let mut i: usize = 0;
    while i < chars.len()
        invariant
            i <= chars.len(),
            chars@ == input@,
            open_parens == depth(chars@, i as int),
            open_parens <= i,
            forall|n: int| 0 <= n <= i ==> depth(chars@, n) >= 0,
        decreases chars.len() - i,
    {
        let ch = chars[i];
        if ch == '(' {
            open_parens = open_parens + 1;
        } else if ch == ')' {
            if open_parens > 0 {
                open_parens = open_parens - 1;
            } else {
                assert(depth(chars@, i + 1) < 0);
                return false;
            }
        }
        i = i + 1;
    }
    open_parens == 0
}

/// Every character of a run belongs to its class, and the character after
/// the run, if there is one, does not.
pub proof fn lemma_run_members(s: Seq<char>, pos: int, class: Class)
    requires
        0 <= pos <= s.len(),
    ensures
        forall|i: int| pos <= i < run_end(s, pos, class) ==> in_class(class, #[trigger] s[i]),
        run_end(s, pos, class) < s.len() ==> !in_class(class, s[run_end(s, pos, class)]),
    decreases s.len() - pos,
{
    if pos < s.len() && in_class(class, s[pos]) {
        lemma_run_members(s, pos + 1, class);
    }
}

/// A run seen through the window `[from, to)` of a text ends where the run
/// in the text ends, or at the end of the window.
pub proof fn lemma_run_in_window(s: Seq<char>, from: int, to: int, pos: int, class: Class)
    requires
        0 <= from <= pos <= to <= s.len(),
    ensures
        run_end(s.subrange(from, to), pos - from, class) == (if run_end(s, pos, class) <= to {
            run_end(s, pos, class)
        } else {
            to
        }) - from,
    decreases to - pos,
{
    lemma_run_bounds(s, pos, class);
    if pos < to {
        if in_class(class, s[pos]) {
            lemma_run_in_window(s, from, to, pos + 1, class);
            lemma_run_bounds(s, pos + 1, class);
        }
    }
}

/// The text of a number that stands in a larger text is a number token.
pub proof fn lemma_number_in_window(s: Seq<char>, start: int)
    requires
        0 <= start < s.len(),
        number_end(s, start) is Some,
    ensures
        start < number_end(s, start)->Some_0 <= s.len(),
        is_number_token(s.subrange(start, number_end(s, start)->Some_0)),
{
    let end = number_end(s, start)->Some_0;
    let digits = if s[start] == '-' {
        start + 1
    } else {
        start
    };
    let whole = run_end(s, digits, Class::Digit);
    lemma_run_bounds(s, digits, Class::Digit);
    lemma_run_members(s, digits, Class::Digit);
    if whole < s.len() && s[whole] == '.' {
        lemma_run_bounds(s, whole + 1, Class::Digit);
        lemma_run_members(s, whole + 1, Class::Digit);
    }
    lemma_run_in_window(s, start, end, digits, Class::Digit);
    if whole < end {
        lemma_run_in_window(s, start, end, whole + 1, Class::Digit);
    }
}

/// Digits that follow make the number that a run of digits stands for no
/// smaller.
pub proof fn lemma_digits_grow(digits: Seq<char>, n: int)
    requires
        0 <= n <= digits.len(),
        forall|i: int| 0 <= i < digits.len() ==> is_digit(#[trigger] digits[i]),
    ensures
        0 <= digits_value(digits.take(n)) <= digits_value(digits),
    decreases digits.len() - n,
{
    if n == digits.len() {
        assert(digits.take(n) =~= digits);
        lemma_digits_nonnegative(digits);
    } else {
        lemma_digits_grow(digits, n + 1);
        assert(digits.take(n + 1).drop_last() =~= digits.take(n));
        lemma_digits_nonnegative(digits.take(n));
    }
}

/// A run of digits stands for no negative number.
pub proof fn lemma_digits_nonnegative(digits: Seq<char>)
    requires
        forall|i: int| 0 <= i < digits.len() ==> is_digit(#[trigger] digits[i]),
    ensures
        0 <= digits_value(digits),
    decreases digits.len(),
{
    if digits.len() > 0 {
        lemma_digits_nonnegative(digits.drop_last());
    }
}

/// The node that a number token stands for: an integer where that fits,
/// else a decimal that keeps the text.
fn parse_number(num_str: &str) -> (node: Expr)
    requires
        is_number_token(num_str@),
    ensures
        node@ == number_node(num_str@),
{
    let ghost token = num_str@;
    let chars = chars_of(num_str);
    proof {
        lemma_run_bounds(token, 0, Class::Digit);
        lemma_run_bounds(token, 1, Class::Digit);
    }
    let negative = chars.len() > 0 && chars[0] == '-';
    let first: usize = if negative {
        1
    } else {
        0
    };
    let whole = scan(&chars, first, Class::Digit);
    if whole < chars.len() {
        return Expr::Float(num_str.to_owned());
    }
    let ghost digits = token.subrange(first as int, token.len() as int);
    proof {
        lemma_run_members(token, first as int, Class::Digit);
        assert(digits =~= if negative {
            token.skip(1)
        } else {
            token
        });
    }
    let limit: u64 = if negative {
        0x8000_0000_0000_0000
    } else {
        0x7fff_ffff_ffff_ffff
    };
    let mut magnitude: u64 = 0;
    let mut i: usize = first;
    while i < chars.len()
        invariant
            first <= i <= chars.len(),
            chars@ == token,
            num_str@ == token,
            digits == token.subrange(first as int, token.len() as int),
            forall|k: int| 0 <= k < digits.len() ==> is_digit(#[trigger] digits[k]),
            magnitude == digits_value(digits.take(i - first)),
            magnitude <= limit,
            limit <= 0x8000_0000_0000_0000,
            !token.contains('.'),
            integer_value(token) == (if negative {
                -digits_value(digits)
            } else {
                digits_value(digits)
            }),
            limit == (if negative {
                0x8000_0000_0000_0000u64
            } else {
                0x7fff_ffff_ffff_ffffu64
            }),
        decreases chars.len() - i,
    {
        let c = chars[i];
        assert(c == digits[i - first]);
        let digit: u64 = (c as u64) - ('0' as u64);
        proof {
            assert(digits.take(i - first + 1).drop_last() =~= digits.take(i - first));
        }
        if magnitude > (limit - digit) / 10 {
            proof {
                lemma_digits_grow(digits, i - first + 1);
            }
            return Expr::Float(num_str.to_owned());
        }
        magnitude = magnitude * 10 + digit;
        i = i + 1;
    }
    assert(digits.take(i - first) =~= digits);
    if negative {
        if magnitude == 0x8000_0000_0000_0000 {
            Expr::Integer(i64::MIN)
        } else {
            Expr::Integer(-(magnitude as i64))
        }
    } else {
        Expr::Integer(magnitude as i64)
    }
}

/// Where the number that starts at `pos` ends, if one starts there.
fn number_token_end(chars: &Vec<char>, pos: usize) -> (end: Option<usize>)
    requires
        pos < chars.len(),
    ensures
        match number_end(chars@, pos as int) {
            Some(e) => end == Some(e as usize) && pos < e <= chars.len(),
            None => end is None,
        },
{
    let digits = if chars[pos] == '-' {
        pos + 1
    } else {
        pos
    };
    let whole = scan(chars, digits, Class::Digit);
    if whole == digits {
        None
    } else if whole < chars.len() && chars[whole] == '.' {
        Some(scan(chars, whole + 1, Class::Digit))
    } else {
        Some(whole)
    }
}

/// The symbol that starts at `pos`, if one starts there, and where it ends.
fn parse_symbol(text: &str, chars: &Vec<char>, pos: usize) -> (r: Option<(Expr, usize)>)
    requires
        chars@ == text@,
        pos < chars.len(),
    ensures
        match symbol_end(chars@, pos as int) {
            Some(e) => r matches Some((node, end)) && end == e && pos < e <= chars.len() && node@
                == SyntaxNode::Symbol(chars@.subrange(pos as int, e)),
            None => r is None,
        },
{
    if starts_symbol(chars[pos]) {
        let end = scan(chars, pos + 1, Class::SymbolRest);
        Some((Expr::Symbol(text.substring_char(pos, end).to_owned()), end))
    } else {
        None
    }
}

/// The items of a list whose `(` stands just before `pos`, up to its `)`,
/// and the position after the list and the whitespace that follows.
fn parse_list(text: &str, chars: &Vec<char>, pos: usize) -> (r: Option<(Expr, usize)>)
    requires
        chars@ == text@,
        pos <= chars.len(),
    ensures
        ({
            let (items, after) = parse_items_spec(chars@, pos as int, Seq::empty());
            let close = run_end(chars@, after, Class::Space);
            if 0 <= close < chars.len() && chars[close] == ')' {
                r matches Some((node, end)) && node@ == SyntaxNode::List(items) && end == run_end(
                    chars@,
                    close + 1,
                    Class::Space,
                ) && pos < end <= chars.len()
            } else {
                r is None
            }
        }),
    decreases chars.len() - pos, 2nat,
{
    let mut items: Vec<Expr> = Vec::new();
    let mut at: usize = pos;
    assert(views_of(items@) =~= Seq::<SyntaxNode>::empty());
    loop
        invariant
            chars@ == text@,
            pos <= at <= chars.len(),
            parse_items_spec(chars@, pos as int, Seq::empty()) == parse_items_spec(
                chars@,
                at as int,
                views_of(items@),
            ),
        ensures
            pos <= at <= chars.len(),
            parse_items_spec(chars@, pos as int, Seq::empty()) == (views_of(items@), at as int),
        decreases chars.len() - at,
    {
        let ghost before = views_of(items@);
        match parse_expr(text, chars, at) {
            Some((node, after)) => {
                items.push(node);
                assert(views_of(items@) =~= before.push(node@));
                at = after;
            },
            None => {
                break ;
            },
        }
    }
    let close = scan(chars, at, Class::Space);
    if close < chars.len() && chars[close] == ')' {
        Some((Expr::List(items), scan(chars, close + 1, Class::Space)))
    } else {
        None
    }
}

/// The expression that stands at `pos`, after whitespace, and the position
/// after it and the whitespace that follows.
fn parse_expr(text: &str, chars: &Vec<char>, pos: usize) -> (r: Option<(Expr, usize)>)
    requires
        chars@ == text@,
        pos <= chars.len(),
    ensures
        match parse_expr_spec(chars@, pos as int) {
            Some((node, end)) => r matches Some((e, after)) && e@ == node && after == end && pos
                < after <= chars.len(),
            None => r is None,
        },
    decreases chars.len() - pos, 1nat,
{
    let start = scan(chars, pos, Class::Space);
    if start >= chars.len() {
        return None;
    }
    match number_token_end(chars, start) {
        Some(end) => {
            proof {
                lemma_number_in_window(chars@, start as int);
            }
            let node = parse_number(text.substring_char(start, end));
            return Some((node, scan(chars, end, Class::Space)));
        },
        None => {},
    }
    match parse_symbol(text, chars, start) {
        Some((node, end)) => {
            return Some((node, scan(chars, end, Class::Space)));
        },
        None => {},
    }
    if chars[start] == '(' {
        parse_list(text, chars, start + 1)
    } else {
        None
    }
}

/// The outcome of reading, by its value.
pub open spec fn read_view(outcome: Result<Expr, ParseError>) -> Result<SyntaxNode, ParseError> {
    match outcome {
        Ok(expr) => Ok(expr@),
        Err(error) => Err(error),
    }
}

/// Reads the one expression that a text holds.  Whitespace around it is
/// skipped; anything else after it is an error.
pub fn read(input: &str) -> (outcome: Result<Expr, ParseError>)
    ensures
        read_view(outcome) == read_spec(input@),
{
    let chars = chars_of(input);
    if scan(&chars, 0, Class::Space) >= chars.len() {
        return Err(ParseError::Empty);
    }
    match parse_expr(input, &chars, 0) {
        None => {
            if is_complete_expression(input) {
                Err(ParseError::Malformed)
            } else {
                Err(ParseError::Unbalanced)
            }
        },
        Some((expr, end)) => {
            if end == chars.len() {
                Ok(expr)
            } else {
                Err(ParseError::Trailing)
            }
        },
    }
}

/// A token with a `.` stands for a decimal, also where it has digits only
/// besides.
pub proof fn lemma_point_makes_decimal(token: Seq<char>)
    requires
        token.contains('.'),
    ensures
        number_node(token) == SyntaxNode::Float(token),
{
}

/// A text that is one number token reads as the node that the token stands
/// for: as a decimal where it has a `.`, else as an integer where its value
/// fits, else as a decimal again.
pub proof fn lemma_number_token_reads(text: Seq<char>)
    requires
        is_number_token(text),
    ensures
        read_spec(text) == Ok::<SyntaxNode, ParseError>(number_node(text)),
        text.contains('.') ==> read_spec(text) == Ok::<SyntaxNode, ParseError>(
            SyntaxNode::Float(text),
        ),
{
    lemma_run_bounds(text, 0, Class::Digit);
    lemma_run_bounds(text, 1, Class::Digit);
    lemma_run_members(text, 0, Class::Digit);
    if text.len() > 1 {
        lemma_run_members(text, 1, Class::Digit);
    }
    assert(text.subrange(0, text.len() as int) =~= text);
}

} // verus!
