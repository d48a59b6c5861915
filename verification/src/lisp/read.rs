//! The reader: a recursive-descent parser over a stream of characters. It
//! looks one character ahead and never further, and every function here
//! does to the stream and returns what the grammar says.

use vstd::prelude::*;
use vstd::string::StringExecFns;
use crate::lisp::expr::{Add, Call, Expr, Func, If, Literal, terms_of};
use crate::lisp::semantics::Term;
use crate::lisp::grammar::{
    Fault, Item, Scan, digits_value, function_named, invalid_input_text, is_digit,
    lemma_digits_value_grows, lemma_expr_consumes, lemma_name_consumes, lemma_number_consumes,
    number_shaped, number_value, parse_expr, parse_function_name, parse_number, parse_params,
    scan_name, scan_number, stands,
};
use crate::lisp::stream::{CharStream, StreamError};
use crate::lisp::text::text_with;

verus! {

/// Why a text is not an integer of 64 bits.
#[derive(Debug, Clone, Copy, PartialEq, Eq, Structural)]
pub enum NumberError {
    /// The text is empty.
    Empty,
    /// The text is a sign without digits.
    InvalidDigit,
    /// The number is greater than the greatest value.
    PosOverflow,
    /// The number is less than the least value.
    NegOverflow,
}

/// Why a read failed.
#[derive(Debug)]
pub enum ReadError {
    /// The stream failed.
    Io(StreamError),
    /// A character that the grammar has no place for, with a message.
    Invalid(String),
    /// A token in the shape of a number that is not an integer of 64 bits.
    Parse(NumberError),
    /// The stream ended inside an expression, or before one.
    Eof,
}

impl NumberError {
    /// The text that describes the error.
    pub open spec fn text(self) -> Seq<char> {
        match self {
            NumberError::Empty => "cannot parse integer from empty string"@,
            NumberError::InvalidDigit => "invalid digit found in string"@,
            NumberError::PosOverflow => "number too large to fit in target type"@,
            NumberError::NegOverflow => "number too small to fit in target type"@,
        }
    }

    /// The error as text for the user.
    pub fn message(&self) -> (text: String)
        ensures
            text@ == self.text(),
    {
        match self {
            NumberError::Empty => String::from_str("cannot parse integer from empty string"),
            NumberError::InvalidDigit => String::from_str("invalid digit found in string"),
            NumberError::PosOverflow => String::from_str("number too large to fit in target type"),
            NumberError::NegOverflow => String::from_str("number too small to fit in target type"),
        }
    }
}

impl ReadError {
    /// The error as a line of text for the user: what kind it is, then what
    /// it carries.
    pub fn message(&self) -> (text: String)
        ensures
            text@ == match self@ {
                Fault::Io(cause) => "IO error: "@ + cause,
                Fault::Invalid(what) => "Invalid input: "@ + what,
                Fault::Parse(kind) => "Parse error: "@ + kind.text(),
                Fault::Eof => "End of file"@,
            },
    {
        match self {
            ReadError::Io(e) => {
                let mut text = String::from_str("IO error: ");
                text.append(e.message.as_str());
                text
            },
            ReadError::Invalid(what) => {
                let mut text = String::from_str("Invalid input: ");
                text.append(what.as_str());
                text
            },
            ReadError::Parse(kind) => {
                let mut text = String::from_str("Parse error: ");
                let cause = kind.message();
                text.append(cause.as_str());
                text
            },
            ReadError::Eof => String::from_str("End of file"),
        }
    }
}

impl From<StreamError> for ReadError {
    /// A failure of the stream as the error of a read.
    fn from(err: StreamError) -> (e: ReadError) {
        ReadError::Io(err)
    }
}

impl vstd::std_specs::convert::FromSpecImpl<StreamError> for ReadError {
    open spec fn obeys_from_spec() -> bool {
        true
    }

    open spec fn from_spec(err: StreamError) -> ReadError {
        ReadError::Io(err)
    }
}

impl From<NumberError> for ReadError {
    /// A text that is no integer as the error of a read.
    fn from(err: NumberError) -> (e: ReadError) {
        ReadError::Parse(err)
    }
}

impl vstd::std_specs::convert::FromSpecImpl<NumberError> for ReadError {
    open spec fn obeys_from_spec() -> bool {
        true
    }

    open spec fn from_spec(err: NumberError) -> ReadError {
        ReadError::Parse(err)
    }
}

impl View for ReadError {
    type V = Fault;

    open spec fn view(&self) -> Fault {
        match self {
            ReadError::Io(e) => Fault::Io(e.message@),
            ReadError::Invalid(text) => Fault::Invalid(text@),
            ReadError::Parse(kind) => Fault::Parse(*kind),
            ReadError::Eof => Fault::Eof,
        }
    }
}

/// The scan that an executable result and the stream after it stand for.
pub open spec fn number_scan_of(r: Result<i64, ReadError>, rest: Seq<Item>) -> Scan<i64> {
    Scan {
        result: match r {
            Ok(v) => Ok(v),
            Err(e) => Err(e@),
        },
        rest,
    }
}

fn invalid_input(c: char) -> (e: ReadError)
    ensures
        e@ == Fault::Invalid(invalid_input_text(c)),
{
    let mut body: Vec<char> = Vec::new();
    body.push(c);
    assert(body@ =~= seq![c]);
    let mut text = text_with("Invalid input '", &body);
    text.append("'");
    ReadError::Invalid(text)
}

/// Looks at the next character without taking it. A failure of the stream is
/// taken out and returned; at the end of the stream there is no character.
fn peek_char(input: &mut CharStream) -> (r: Result<Option<char>, ReadError>)
    ensures
        match r {
            Ok(None) => old(input)@.len() == 0 && final(input)@ == old(input)@,
            Ok(Some(c)) => old(input)@.len() > 0 && old(input)@[0] == Ok::<char, Seq<char>>(c)
                && final(input)@ == old(input)@,
            Err(e) => old(input)@.len() > 0 && old(input)@[0] is Err
                && e@ == Fault::Io(old(input)@[0]->Err_0)
                && final(input)@ == old(input)@.skip(1),
        },
{
    match input.peek() {
        None => Ok(None),
        Some(Ok(c)) => Ok(Some(c)),
        Some(Err(_)) => match input.next() {
            Some(Err(e)) => Err(ReadError::Io(e)),
            _ => Ok(None),
        },
    }
}

/// The integer that a number-shaped text writes.
fn number_from(buf: &Vec<char>) -> (r: Result<i64, NumberError>)
    requires
        number_shaped(buf@),
    ensures
        r == number_value(buf@),
{
    if buf.len() == 0 {
        return Err(NumberError::Empty);
    }
    let negative = buf[0] == '-';
    if negative && buf.len() == 1 {
        return Err(NumberError::InvalidDigit);
    }
    let start: usize = if negative { 1 } else { 0 };
    let limit: u128 = if negative { 9223372036854775808 } else { 9223372036854775807 };
    let ghost digits = buf@.skip(start as int);
    assert(forall|i: int| 0 <= i < digits.len() ==> is_digit(#[trigger] digits[i]));
    let mut acc: u128 = 0;
    let mut i: usize = start;
    while i < buf.len()
        invariant
            start <= i <= buf.len(),
            buf.len() > 0,
            negative == (buf@[0] == '-'),
            start == if negative { 1usize } else { 0usize },
            limit == if negative { 9223372036854775808u128 } else { 9223372036854775807u128 },
            digits == buf@.skip(start as int),
            forall|j: int| 0 <= j < digits.len() ==> is_digit(#[trigger] digits[j]),
            acc == digits_value(digits.take(i - start)),
            acc <= limit,
            limit <= 9223372036854775808,
        decreases buf.len() - i,
    {
        let c = buf[i];
        assert(c == digits[i - start]);
        let d: u128 = (c as u32 - '0' as u32) as u128;
        let next: u128 = acc * 10 + d;
        proof {
            let upto = digits.take(i - start + 1);
            assert(upto.drop_last() =~= digits.take(i - start));
            assert(upto.last() == c);
            assert(next == digits_value(upto));
            lemma_digits_value_grows(digits, i - start + 1);
            assert(buf@.skip(0) =~= buf@);
        }
        if next > limit {
            if negative {
                return Err(NumberError::NegOverflow);
            } else {
                return Err(NumberError::PosOverflow);
            }
        }
        acc = next;
        i += 1;
    }
    assert(digits.take(i - start) =~= digits);
    if negative {
        let v: i128 = 0 - (acc as i128);
        Ok(v as i64)
    } else {
        assert(digits =~= buf@);
        Ok(acc as i64)
    }
}

/// Reads an integer: an optional `-` and digits, up to a space or a `)`,
/// which stays in the stream.
///
/// The stream ending before that is `Eof`; a second `-` and any character
/// that is neither digit nor terminator are `Invalid`, and are taken out of
/// the stream; digits that write no integer of 64 bits, and a text without
/// digits, are `Parse`.
pub fn read_number(input: &mut CharStream) -> (r: Result<i64, ReadError>)
    ensures
        number_scan_of(r, final(input)@) == parse_number(old(input)@),
{
    let mut buf: Vec<char> = Vec::new();
    loop
        invariant
            number_shaped(buf@),
            scan_number(input@, buf@) == scan_number(old(input)@, Seq::empty()),
        decreases input@.len(),
    {
        match peek_char(input) {
            Err(e) => {
                return Err(e);
            },
            Ok(None) => {
                return Err(ReadError::Eof);
            },
            Ok(Some(c)) => {
                if c == '-' {
                    buf.push(c);
                    input.next();
                    if buf.len() > 1 {
                        return Err(ReadError::Invalid(text_with("invalid number ", &buf)));
                    }
                } else if c >= '0' && c <= '9' {
                    buf.push(c);
                    input.next();
                } else if c == ' ' || c == ')' {
                    return match number_from(&buf) {
                        Ok(v) => Ok(v),
                        Err(kind) => Err(ReadError::Parse(kind)),
                    };
                } else {
                    input.next();
                    return Err(invalid_input(c));
                }
            },
        }
    }
}

/// The scan that an executable result and the stream after it stand for.
pub open spec fn func_scan_of(r: Result<Func, ReadError>, rest: Seq<Item>) -> Scan<Func> {
    Scan {
        result: match r {
            Ok(f) => Ok(f),
            Err(e) => Err(e@),
        },
        rest,
    }
}

/// The scan that an executable result and the stream after it stand for.
pub open spec fn params_scan_of(r: Result<Vec<Expr>, ReadError>, rest: Seq<Item>) -> Scan<Seq<Term>> {
    Scan {
        result: match r {
            Ok(params) => Ok(terms_of(params@)),
            Err(e) => Err(e@),
        },
        rest,
    }
}

/// The scan that an executable result and the stream after it stand for.
pub open spec fn expr_scan_of(r: Result<Expr, ReadError>, rest: Seq<Item>) -> Scan<Term> {
    Scan {
        result: match r {
            Ok(e) => Ok(e@),
            Err(e) => Err(e@),
        },
        rest,
    }
}

/// The function that `name` spells, or `Invalid` with the name in its message.
fn function_from(name: &Vec<char>) -> (r: Result<Func, ReadError>)
    ensures
        func_scan_of(r, Seq::empty()).result == function_named(name@),
{
    if name.len() == 1 && name[0] == '+' {
        assert(name@ =~= seq!['+']);
        Ok(Func::Add(Add::new()))
    } else if name.len() == 2 && name[0] == 'i' && name[1] == 'f' {
        assert(name@ =~= seq!['i', 'f']);
        Ok(Func::If(If::new()))
    } else {
        assert(name@ != seq!['+']) by {
            if name@ == seq!['+'] {
                assert(seq!['+'].len() == 1 && seq!['+'][0] == '+');
            }
        }
        assert(name@ != seq!['i', 'f']) by {
            if name@ == seq!['i', 'f'] {
                assert(seq!['i', 'f'].len() == 2 && seq!['i', 'f'][0] == 'i' && seq!['i', 'f'][1] == 'f');
            }
        }
        let mut text = text_with("Unknown function '", name);
        text.append("'");
        Err(ReadError::Invalid(text))
    }
}

/// Reads a function's name: every character up to the first space, which is
/// taken too, or up to the end of the stream. `+` gives `Add` and `if` gives
/// `If`; any other name is `Invalid`.
pub fn read_function_name(input: &mut CharStream) -> (r: Result<Func, ReadError>)
    ensures
        func_scan_of(r, final(input)@) == parse_function_name(old(input)@),
{
    let mut name: Vec<char> = Vec::new();
    loop
        invariant
            scan_name(input@, name@) == scan_name(old(input)@, Seq::empty()),
        decreases input@.len(),
    {
        match input.next() {
            None => {
                return function_from(&name);
            },
            Some(Err(e)) => {
                return Err(ReadError::Io(e));
            },
            Some(Ok(c)) => {
                if c == ' ' {
                    return function_from(&name);
                }
                name.push(c);
            },
        }
    }
}

/// Reads the parameters of a call, up to its closing `)`, which is taken.
///
/// A digit or `-` opens a number, a `(` opens a call, spaces are skipped. Any
/// other character is taken and is `Invalid`; the stream ending before the
/// `)` is `Eof`; the first failure inside a parameter ends the read.
pub fn read_function_params(input: &mut CharStream) -> (r: Result<Vec<Expr>, ReadError>)
    ensures
        params_scan_of(r, final(input)@) == parse_params(old(input)@, Seq::empty()),
    decreases old(input)@.len(), 1nat,
{
    let mut params: Vec<Expr> = Vec::new();
    assert(terms_of(params@) =~= Seq::empty());
    loop
        invariant
            input@.len() <= old(input)@.len(),
            parse_params(input@, terms_of(params@)) == parse_params(old(input)@, Seq::empty()),
        decreases input@.len(),
    {
        let ghost before = input@;
        let ghost sofar = terms_of(params@);
        let c = match peek_char(input) {
            Err(e) => {
                return Err(e);
            },
            Ok(None) => {
                return Err(ReadError::Eof);
            },
            Ok(Some(c)) => c,
        };
        if (c >= '0' && c <= '9') || c == '-' {
            proof {
                lemma_number_consumes(before, Seq::empty());
            }
            match read_number(input) {
                Err(e) => {
                    return Err(e);
                },
                Ok(v) => {
                    params.push(Expr::Literal(Literal::new(v)));
                    assert(terms_of(params@) =~= sofar.push(Term::Literal(v)));
                },
            }
        } else if c == '(' {
            proof {
                lemma_expr_consumes(before);
            }
            match read_expr(input) {
                Err(e) => {
                    return Err(e);
                },
                Ok(e) => {
                    let ghost term = e@;
                    params.push(e);
                    assert(terms_of(params@) =~= sofar.push(term));
                },
            }
        } else if c == ' ' {
            input.next();
        } else if c == ')' {
            input.next();
            return Ok(params);
        } else {
            input.next();
            return Err(invalid_input(c));
        }
    }
}

/// Reads one expression.
///
/// Spaces and line ends before it are skipped. A `(` opens a call: the
/// function's name, then its parameters up to the closing `)`. A digit or a
/// sign opens a number, which becomes a literal. Any other character is
/// taken and is `Invalid`. The stream ending before or inside the expression
/// is `Eof`, and a failure of the stream is `Io`.
pub fn read_expr(input: &mut CharStream) -> (r: Result<Expr, ReadError>)
    ensures
        expr_scan_of(r, final(input)@) == parse_expr(old(input)@),
    decreases old(input)@.len(), 0nat,
{
    let ghost before = input@;
    let c = match peek_char(input) {
        Err(e) => {
            return Err(e);
        },
        Ok(None) => {
            return Err(ReadError::Eof);
        },
        Ok(Some(c)) => c,
    };
    if c == '(' {
        input.next();
        proof {
            lemma_name_consumes(before.skip(1), Seq::empty());
        }
        let function = match read_function_name(input) {
            Err(e) => {
                return Err(e);
            },
            Ok(function) => function,
        };
        match read_function_params(input) {
            Err(e) => Err(e),
            Ok(args) => Ok(Expr::Call(Call::new(function, args))),
        }
    } else if (c >= '0' && c <= '9') || c == '+' || c == '-' {
        match read_number(input) {
            Err(e) => Err(e),
            Ok(v) => Ok(Expr::Literal(Literal::new(v))),
        }
    } else if c == ' ' || c == '\n' || c == '\r' {
        input.next();
        read_expr(input)
    } else {
        input.next();
        Err(invalid_input(c))
    }
}

/// Whether a read that gave `r` and left `input` stands whatever the stream
/// goes on with ([`lemma_expr_stands`]). A read that does not may have run
/// into the end of what the stream held, and is to be made again once the
/// stream holds more.
pub fn read_stands(r: &Result<Expr, ReadError>, input: &CharStream) -> (b: bool)
    ensures
        b == stands(expr_scan_of(*r, input@)),
{
    r.is_ok() || input.remaining() > 0
}

} // verus!
