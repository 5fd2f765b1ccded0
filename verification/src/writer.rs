//! Syntax as text: the text of a syntax node, which the reader reads back as
//! that node, and the decimal text of an integer.

use vstd::prelude::*;
use vstd::string::StringExecFns;
use crate::expr::{views_of, Expr, SyntaxNode};
use crate::reader::{
    digits_value, in_class, integer_value, is_digit, is_number_token, is_space,
    lemma_number_in_window, lemma_number_token_reads, lemma_run_bounds, lemma_run_in_window,
    lemma_run_members,
    number_end, number_node, parse_expr_spec, parse_items_spec, read_spec, run_end, symbol_end,
    Class, ParseError,
};

verus! {

broadcast use vstd::std_specs::vec::axiom_vec_index_decreases;

/// The digit that stands for a number below ten.
pub open spec fn digit_char(d: int) -> char {
    ('0' as int + d) as char
}

/// The digits of a natural number in base ten, the most significant first
/// and without leading zeros.
pub open spec fn digits_of(m: nat) -> Seq<char>
    decreases m,
{
    if m < 10 {
        seq![digit_char(m as int)]
    } else {
        digits_of(m / 10).push(digit_char((m % 10) as int))
    }
}

/// The decimal text of an integer: its digits, after a `-` where it is
/// negative.
pub open spec fn decimal(n: int) -> Seq<char> {
    if n < 0 {
        seq!['-'] + digits_of((-n) as nat)
    } else {
        digits_of(n as nat)
    }
}

/// The digits of a number are digits, at least one, and stand for the
/// number.
pub proof fn lemma_digits_of(m: nat)
    ensures
        digits_of(m).len() >= 1,
        forall|i: int| 0 <= i < digits_of(m).len() ==> is_digit(#[trigger] digits_of(m)[i]),
        digits_value(digits_of(m)) == m,
    decreases m,
{
    if m < 10 {
        assert(digits_value(digits_of(m).drop_last()) == 0);
    } else {
        lemma_digits_of(m / 10);
        assert(digits_of(m).drop_last() =~= digits_of(m / 10));
    }
}

/// A run over characters that all belong to the class goes to the end of
/// the text.
pub proof fn lemma_run_to_end(s: Seq<char>, pos: int, class: Class)
    requires
        0 <= pos <= s.len(),
        forall|i: int| pos <= i < s.len() ==> in_class(class, #[trigger] s[i]),
    ensures
        run_end(s, pos, class) == s.len(),
    decreases s.len() - pos,
{
    if pos < s.len() {
        lemma_run_to_end(s, pos + 1, class);
    }
}

/// The decimal text of an integer is a number token without a `.`, and it
/// stands for the integer.
pub proof fn lemma_decimal(n: int)
    ensures
        is_number_token(decimal(n)),
        !decimal(n).contains('.'),
        integer_value(decimal(n)) == n,
{
    let text = decimal(n);
    if n < 0 {
        let digits = digits_of((-n) as nat);
        lemma_digits_of((-n) as nat);
        assert(text.skip(1) =~= digits);
        lemma_run_to_end(text, 1, Class::Digit);
    } else {
        lemma_digits_of(n as nat);
        lemma_run_to_end(text, 0, Class::Digit);
    }
}

/// The decimal text of an integer of 64 bits reads as that integer.
pub proof fn lemma_decimal_reads_back(n: i64)
    ensures
        read_spec(decimal(n as int)) == Ok::<SyntaxNode, ParseError>(SyntaxNode::Integer(n)),
{
    lemma_decimal(n as int);
    lemma_number_token_reads(decimal(n as int));
}

/// The text of one digit.
fn digit_text(d: u64) -> (text: &'static str)
    requires
        d < 10,
    ensures
        text@ == seq![digit_char(d as int)],
{
    proof {
        reveal_strlit("0");
        reveal_strlit("1");
        reveal_strlit("2");
        reveal_strlit("3");
        reveal_strlit("4");
        reveal_strlit("5");
        reveal_strlit("6");
        reveal_strlit("7");
        reveal_strlit("8");
        reveal_strlit("9");
    }
    if d == 0 {
        "0"
    } else if d == 1 {
        "1"
    } else if d == 2 {
        "2"
    } else if d == 3 {
        "3"
    } else if d == 4 {
        "4"
    } else if d == 5 {
        "5"
    } else if d == 6 {
        "6"
    } else if d == 7 {
        "7"
    } else if d == 8 {
        "8"
    } else {
        "9"
    }
}

/// Appends the digits of a number to a text.
fn push_digits(text: &mut String, m: u64)
    ensures
        final(text)@ == old(text)@ + digits_of(m as nat),
    decreases m,
{
    if m >= 10 {
        push_digits(text, m / 10);
    }
    text.append(digit_text(m % 10));
}

/// The decimal text of an integer: its digits, after a `-` where it is
/// negative.  The reader reads the text back as the integer.
pub fn decimal_text(n: i64) -> (text: String)
    ensures
        text@ == decimal(n as int),
{
    let mut text = String::new();
    if n < 0 {
        proof {
            reveal_strlit("-");
        }
        text.append("-");
        let magnitude: u64 = if n == i64::MIN {
            0x8000_0000_0000_0000
        } else {
            (-n) as u64
        };
        push_digits(&mut text, magnitude);
    } else {
        push_digits(&mut text, n as u64);
    }
    text
}

/// Whether the text is one symbol token: a symbol from its start to its
/// end that does not start like a number.
pub open spec fn is_symbol_token(name: Seq<char>) -> bool {
    symbol_end(name, 0) == Some(name.len() as int) && number_end(name, 0) is None
}

/// Whether the reader can give the node: its symbols are symbol tokens and
/// its decimals are number tokens that stand for a decimal.
pub open spec fn readable(node: SyntaxNode) -> bool
    decreases node,
{
    match node {
        SyntaxNode::Symbol(name) => is_symbol_token(name),
        SyntaxNode::Integer(_) => true,
        SyntaxNode::Float(text) => is_number_token(text) && number_node(text) == node,
        SyntaxNode::List(items) => forall|i: int|
            0 <= i < items.len() ==> readable(#[trigger] items[i]),
    }
}

/// The text of a node: a symbol and a decimal as they are, an integer in
/// decimal, a list in parentheses with one space between its items.
pub open spec fn render(node: SyntaxNode) -> Seq<char>
    decreases node, 0nat,
{
    match node {
        SyntaxNode::Symbol(name) => name,
        SyntaxNode::Integer(n) => decimal(n as int),
        SyntaxNode::Float(text) => text,
        SyntaxNode::List(items) => seq!['('] + render_items(items, 0) + seq![')'],
    }
}

/// The text of `items[from..]`, with one space between them.
pub open spec fn render_items(items: Seq<SyntaxNode>, from: int) -> Seq<char>
    decreases items, items.len() - from,
{
    if from < 0 || from >= items.len() {
        Seq::empty()
    } else if from + 1 == items.len() {
        render(items[from])
    } else {
        render(items[from]) + seq![' '] + render_items(items, from + 1)
    }
}

/// Whether the text ends at `pos` or goes on with a character that ends
/// every token: whitespace or a parenthesis.
pub open spec fn token_ends(s: Seq<char>, pos: int) -> bool {
    pos == s.len() || (0 <= pos < s.len() && (is_space(s[pos]) || s[pos] == '(' || s[pos] == ')'))
}

/// A run that starts inside a window of the text ends where it ends in the
/// window alone, if the text ends after the window or goes on with a
/// character outside the class.
proof fn lemma_run_of_window(s: Seq<char>, from: int, to: int, pos: int, class: Class)
    requires
        0 <= from <= pos <= to <= s.len(),
        to == s.len() || !in_class(class, s[to]),
    ensures
        run_end(s, pos, class) == from + run_end(s.subrange(from, to), pos - from, class),
{
    lemma_run_in_window(s, from, to, pos, class);
    lemma_run_bounds(s, pos, class);
    lemma_run_members(s, pos, class);
}

/// A number token that stands in a text and is followed by the end of a
/// token is the number that starts there.
proof fn lemma_number_at(s: Seq<char>, pos: int, len: int)
    requires
        0 <= pos,
        0 <= len,
        pos + len <= s.len(),
        is_number_token(s.subrange(pos, pos + len)),
        token_ends(s, pos + len),
    ensures
        len > 0,
        !is_space(s[pos]),
        number_end(s, pos) == Some(pos + len),
{
    let token = s.subrange(pos, pos + len);
    lemma_run_bounds(token, 0, Class::Digit);
    lemma_run_bounds(token, 1, Class::Digit);
    lemma_run_members(token, 0, Class::Digit);
    let first: int = if token[0] == '-' {
        1
    } else {
        0
    };
    if first == 1 {
        lemma_run_members(token, 1, Class::Digit);
    }
    let whole = run_end(token, first, Class::Digit);
    lemma_run_of_window(s, pos, pos + len, pos + first, Class::Digit);
    if whole < len && token[whole] == '.' {
        lemma_run_bounds(token, whole + 1, Class::Digit);
        lemma_run_of_window(s, pos, pos + len, pos + whole + 1, Class::Digit);
    }
}

/// A symbol token that stands in a text and is followed by the end of a
/// token is the symbol that starts there, and no number starts there.
proof fn lemma_symbol_at(s: Seq<char>, pos: int, len: int)
    requires
        0 <= pos,
        0 <= len,
        pos + len <= s.len(),
        is_symbol_token(s.subrange(pos, pos + len)),
        token_ends(s, pos + len),
    ensures
        len > 0,
        !is_space(s[pos]),
        number_end(s, pos) is None,
        symbol_end(s, pos) == Some(pos + len),
{
    let token = s.subrange(pos, pos + len);
    let first: int = if token[0] == '-' {
        1
    } else {
        0
    };
    lemma_run_bounds(token, first, Class::Digit);
    lemma_run_of_window(s, pos, pos + len, pos + first, Class::Digit);
    lemma_run_bounds(token, 1, Class::SymbolRest);
    lemma_run_of_window(s, pos, pos + len, pos + 1, Class::SymbolRest);
}

/// The text of a readable node is not empty, and starts with a character
/// that is neither whitespace nor a `)`.
pub proof fn lemma_render_head(node: SyntaxNode)
    requires
        readable(node),
    ensures
        render(node).len() > 0,
        !is_space(render(node)[0]),
        render(node)[0] != ')',
{
    match node {
        SyntaxNode::Symbol(name) => {},
        SyntaxNode::Integer(n) => {
            lemma_decimal(n as int);
            lemma_number_head(decimal(n as int));
        },
        SyntaxNode::Float(text) => {
            lemma_number_head(text);
        },
        SyntaxNode::List(items) => {
            assert(render(node)[0] == '(');
        },
    }
}

/// A number token starts with a `-` or a digit.
proof fn lemma_number_head(token: Seq<char>)
    requires
        is_number_token(token),
    ensures
        token.len() > 0,
        token[0] == '-' || is_digit(token[0]),
{
    lemma_run_bounds(token, 0, Class::Digit);
    lemma_run_bounds(token, 1, Class::Digit);
    lemma_run_members(token, 0, Class::Digit);
}

/// No expression starts at a `)`.
proof fn lemma_no_expression_at_close(s: Seq<char>, pos: int)
    requires
        0 <= pos < s.len(),
        s[pos] == ')',
    ensures
        parse_expr_spec(s, pos) is None,
{
}

/// The text of a readable node, standing in a text and followed by the end
/// of a token, reads as the node.
pub proof fn lemma_parse_rendered(s: Seq<char>, pos: int, node: SyntaxNode)
    requires
        readable(node),
        0 <= pos,
        pos + render(node).len() <= s.len(),
        s.subrange(pos, pos + render(node).len()) == render(node),
        token_ends(s, pos + render(node).len()),
    ensures
        parse_expr_spec(s, pos) == Some(
            (node, run_end(s, pos + render(node).len(), Class::Space)),
        ),
    decreases node, 1nat,
{
    let text = render(node);
    let len = text.len() as int;
    lemma_render_head(node);
    match node {
        SyntaxNode::Symbol(name) => {
            lemma_symbol_at(s, pos, len);
        },
        SyntaxNode::Integer(n) => {
            lemma_decimal(n as int);
            lemma_number_at(s, pos, len);
        },
        SyntaxNode::Float(_) => {
            lemma_number_at(s, pos, len);
        },
        SyntaxNode::List(items) => {
            let inner = render_items(items, 0);
            let width = inner.len() as int;
            assert(s[pos] == '(');
            assert(s.subrange(pos + 1, pos + 1 + width) =~= inner) by {
                assert forall|i: int| 0 <= i < width implies s[pos + 1 + i] == inner[i] by {
                    assert(text[1 + i] == inner[i]);
                }
            }
            assert(s[pos + 1 + width] == ')') by {
                assert(text[1 + width] == ')');
            }
            lemma_parse_items_rendered(s, pos + 1, items, 0, Seq::empty());
            assert(Seq::<SyntaxNode>::empty() + items.subrange(0, items.len() as int) =~= items);
        },
    }
}

/// The texts of readable items, standing in a text one after the other
/// with a space between them and followed by a `)`, read as the items.
pub proof fn lemma_parse_items_rendered(
    s: Seq<char>,
    pos: int,
    items: Seq<SyntaxNode>,
    from: int,
    read: Seq<SyntaxNode>,
)
    requires
        forall|i: int| 0 <= i < items.len() ==> readable(#[trigger] items[i]),
        0 <= from <= items.len(),
        0 <= pos,
        pos + render_items(items, from).len() < s.len(),
        s.subrange(pos, pos + render_items(items, from).len()) == render_items(items, from),
        s[pos + render_items(items, from).len()] == ')',
    ensures
        parse_items_spec(s, pos, read) == (
            read + items.subrange(from, items.len() as int),
            pos + render_items(items, from).len(),
        ),
    decreases items, items.len() - from,
{
    let rest = render_items(items, from);
    if from == items.len() {
        lemma_no_expression_at_close(s, pos);
    } else {
        let item = items[from];
        let text = render(item);
        let len = text.len() as int;
        lemma_render_head(item);
        assert(s.subrange(pos, pos + len) =~= text);
        if from + 1 == items.len() {
            lemma_parse_rendered(s, pos, item);
            assert(s.subrange(pos + len, pos + len) =~= render_items(items, from + 1));
            lemma_parse_items_rendered(s, pos + len, items, from + 1, read.push(item));
        } else {
            let tail = render_items(items, from + 1);
            let width = tail.len() as int;
            let next = items[from + 1];
            lemma_render_head(next);
            assert(tail.len() > 0 && tail[0] == render(next)[0]);
            assert(s[pos + len] == ' ') by {
                assert(rest[len] == ' ');
            }
            assert(s.subrange(pos + len + 1, pos + len + 1 + width) =~= tail) by {
                assert forall|i: int| 0 <= i < width implies s[pos + len + 1 + i]
                    == tail[i] by {
                    assert(rest[len + 1 + i] == tail[i]);
                }
            }
            lemma_parse_rendered(s, pos, item);
            assert(run_end(s, pos + len + 1, Class::Space) == pos + len + 1);
            lemma_parse_items_rendered(s, pos + len + 1, items, from + 1, read.push(item));
        }
    }
}

/// Reading is total over the grammar: the text of every node that the
/// reader can give reads as that node.
pub proof fn lemma_rendering_reads_back(node: SyntaxNode)
    requires
        readable(node),
    ensures
        read_spec(render(node)) == Ok::<SyntaxNode, ParseError>(node),
{
    let text = render(node);
    lemma_render_head(node);
    assert(text.subrange(0, text.len() as int) =~= text);
    lemma_parse_rendered(text, 0, node);
}

/// The text of a symbol that stands in a larger text, where no number
/// starts, is a symbol token.
proof fn lemma_symbol_in_window(s: Seq<char>, start: int)
    requires
        0 <= start < s.len(),
        number_end(s, start) is None,
        symbol_end(s, start) is Some,
    ensures
        start < symbol_end(s, start)->Some_0 <= s.len(),
        is_symbol_token(s.subrange(start, symbol_end(s, start)->Some_0)),
{
    let end = symbol_end(s, start)->Some_0;
    lemma_run_bounds(s, start + 1, Class::SymbolRest);
    let first: int = if s[start] == '-' {
        1
    } else {
        0
    };
    lemma_run_in_window(s, start, end, start + first, Class::Digit);
    lemma_run_in_window(s, start, end, start + 1, Class::SymbolRest);
}

/// What stands at a position of a text is a node that the reader can give.
pub proof fn lemma_parsed_is_readable(s: Seq<char>, pos: int)
    requires
        parse_expr_spec(s, pos) is Some,
    ensures
        readable(parse_expr_spec(s, pos)->Some_0.0),
    decreases s.len() - pos, 1nat,
{
    let start = run_end(s, pos, Class::Space);
    lemma_run_bounds(s, pos, Class::Space);
    if number_end(s, start) is Some {
        lemma_number_in_window(s, start);
    } else if symbol_end(s, start) is Some {
        lemma_symbol_in_window(s, start);
    } else {
        lemma_parsed_items_are_readable(s, start + 1, Seq::empty());
        assert(readable(SyntaxNode::List(parse_items_spec(s, start + 1, Seq::empty()).0)));
    }
}

/// What stands at a position of a text, one after the other, are nodes that
/// the reader can give.
pub proof fn lemma_parsed_items_are_readable(s: Seq<char>, pos: int, read: Seq<SyntaxNode>)
    requires
        forall|i: int| 0 <= i < read.len() ==> readable(#[trigger] read[i]),
    ensures
        forall|i: int|
            0 <= i < parse_items_spec(s, pos, read).0.len() ==> readable(
                #[trigger] parse_items_spec(s, pos, read).0[i],
            ),
    decreases s.len() - pos, 2nat,
{
    let parsed = parse_expr_spec(s, pos);
    if parsed is Some && pos < parsed->Some_0.1 <= s.len() {
        let (node, after) = parsed->Some_0;
        lemma_parsed_is_readable(s, pos);
        lemma_parsed_items_are_readable(s, after, read.push(node));
        assert(parse_items_spec(s, pos, read) == parse_items_spec(s, after, read.push(node)));
    }
}

/// What reading gives is a node that the reader can give: one whose text
/// reads as the node again.
pub proof fn lemma_read_gives_readable(s: Seq<char>)
    requires
        read_spec(s) is Ok,
    ensures
        readable(read_spec(s)->Ok_0),
        read_spec(render(read_spec(s)->Ok_0)) == read_spec(s),
{
    lemma_parsed_is_readable(s, 0);
    lemma_rendering_reads_back(read_spec(s)->Ok_0);
}

impl Expr {
    /// The text of the node: a symbol and a decimal as they are, an integer
    /// in decimal, a list in parentheses with one space between its items.
    /// Where the reader can give the node, it reads the text as the node.
    pub fn to_text(&self) -> (text: String)
        ensures
            text@ == render(self@),
        decreases self,
    {
        match self {
            Expr::Symbol(name) => name.clone(),
            Expr::Integer(n) => decimal_text(*n),
            Expr::Float(literal) => literal.clone(),
            Expr::List(items) => {
                let ghost nodes = views_of(items@);
                let mut text = String::new();
                proof {
                    reveal_strlit("(");
                    reveal_strlit(")");
                    reveal_strlit(" ");
                }
                text.append("(");
                assert(text@ =~= seq!['(']);
                let mut i: usize = 0;
                while i < items.len()
                    invariant
                        i <= items.len(),
                        self matches Expr::List(own) && own == items,
                        nodes == views_of(items@),
                        " "@ == seq![' '],
                        seq!['('] + render_items(nodes, 0) == text@ + (if 0 < i < items.len() {
                            seq![' ']
                        } else {
                            Seq::<char>::empty()
                        }) + render_items(nodes, i as int),
                    decreases items.len() - i,
                {
                    if i > 0 {
                        text.append(" ");
                    }
                    let item = items[i].to_text();
                    text.append(item.as_str());
                    i = i + 1;
                }
                assert(text@ =~= seq!['('] + render_items(nodes, 0));
                text.append(")");
                text
            },
        }
    }
}

} // verus!
