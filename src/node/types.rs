use vstd::prelude::*;

use crate::util::DocStr;

verus! {

/// A comment: a block of text, one line or several.
pub struct CommentNode(pub DocStr);

impl CommentNode {
    pub fn new(text: DocStr) -> (r: Self)
        ensures
            r.0@ == text@,
    {
        CommentNode(text)
    }
}

/// What a node holds.
pub enum NodeType {
    Comment(CommentNode),
    Empty,
    EmptyMultiline(usize),
    Number(NumberNode),
}

/// A number, with the name that it is bound to in the example, if any.
pub struct NumberNode {
    pub ty: NumberType,
    pub name: Option<String>,
}

/// An integer, or a floating-point number held as its canonical decimal text.
pub enum NumberType {
    Integer(i64),
    Float(String),
}

/// The decimal digits.
pub open spec fn digit_chars() -> Seq<char> {
    seq!['0', '1', '2', '3', '4', '5', '6', '7', '8', '9']
}

/// The decimal form of a natural number, without leading zeros.
pub open spec fn nat_decimal(n: nat) -> Seq<char>
    decreases n,
{
    if n < 10 {
        seq![digit_chars()[n as int]]
    } else {
        nat_decimal(n / 10).push(digit_chars()[(n % 10) as int])
    }
}

/// The decimal form of an integer, with a minus sign when it is negative.
pub open spec fn int_decimal(i: int) -> Seq<char> {
    if i < 0 {
        seq!['-'] + nat_decimal((-i) as nat)
    } else {
        nat_decimal(i as nat)
    }
}

/// The text of a number.
pub open spec fn number_text(ty: NumberType) -> Seq<char> {
    match ty {
        NumberType::Integer(i) => int_decimal(i as int),
        NumberType::Float(t) => t@,
    }
}

impl NumberNode {
    pub fn new(ty: NumberType) -> (r: Self)
        ensures
            r.ty == ty,
            r.name is None,
    {
        NumberNode { ty, name: None }
    }

    pub fn integer(value: i64) -> (r: Self)
        ensures
            r.ty == NumberType::Integer(value),
            r.name is None,
    {
        NumberNode::new(NumberType::integer(value))
    }

    pub fn with_name(self, name: &str) -> (r: Self)
        ensures
            r.ty == self.ty,
            r.name matches Some(n) && n@ == name@,
    {
        NumberNode { ty: self.ty, name: Some(String::from_str(name)) }
    }
}

impl NumberType {
    pub fn integer(value: i64) -> (r: Self)
        ensures
            r == NumberType::Integer(value),
    {
        NumberType::Integer(value)
    }

    /// The canonical decimal text of the number.
    pub fn to_string(&self) -> (r: String)
        ensures
            r@ == number_text(*self),
    {
        match self {
            NumberType::Integer(i) => {
                let mut out = String::new();
                if *i < 0 {
                    proof {
                        reveal_strlit("-");
                    }
                    out.append("-");
                    let m: u64 = ((-(*i + 1)) as u64) + 1;
                    push_decimal(m, &mut out);
                } else {
                    push_decimal(*i as u64, &mut out);
                }
                out
            },
            NumberType::Float(t) => t.clone(),
        }
    }
}

/// The one-character text of a decimal digit.
fn digit_str(d: u64) -> (r: &'static str)
    requires
        d < 10,
    ensures
        r@ == seq![digit_chars()[d as int]],
{
    proof {
        reveal_strlit("0");
        reveal_strlit("1");
        reveal_strlit("2");
        reveal_strlit("3");
        reveal_strlit("4");
        reveal_strlit("5");
        reveal_strlit("6");
        reveal_strlit("7");
        reveal_strlit("8");
        reveal_strlit("9");
    }
    match d {
        0 => "0",
        1 => "1",
        2 => "2",
        3 => "3",
        4 => "4",
        5 => "5",
        6 => "6",
        7 => "7",
        8 => "8",
        _ => "9",
    }
}

/// Appends the decimal form of `n`.
fn push_decimal(n: u64, out: &mut String)
    ensures
        final(out)@ == old(out)@ + nat_decimal(n as nat),
    decreases n,
{
    if n >= 10 {
        push_decimal(n / 10, out);
    }
    out.append(digit_str(n % 10));
    assert(final(out)@ =~= old(out)@ + nat_decimal(n as nat));
}

} // verus!
