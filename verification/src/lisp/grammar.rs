//! The grammar, as functions on the sequence of items that a stream still
//! holds. Each gives the result of one production together with what the
//! stream holds afterwards, so that the place at which a failed production
//! stopped is part of what is stated; and what holds of the grammar.

use vstd::prelude::*;
use crate::lisp::expr::{Add, Func, If};
use crate::lisp::semantics::Term;
use crate::lisp::read::NumberError;
use crate::lisp::text::{decimal_digits, decimal_text, digit_char};

verus! {

/// The model of one item of a stream: a character, or the text of a failure.
pub type Item = Result<char, Seq<char>>;

/// The model of a `ReadError`.
pub enum Fault {
    Io(Seq<char>),
    Invalid(Seq<char>),
    Parse(NumberError),
    Eof,
}

/// What one production yields: its result and what the stream still holds.
pub struct Scan<T> {
    pub result: Result<T, Fault>,
    pub rest: Seq<Item>,
}

pub open spec fn is_digit(c: char) -> bool {
    '0' <= c && c <= '9'
}

/// The message for a character that the grammar has no place for.
pub open spec fn invalid_input_text(c: char) -> Seq<char> {
    "Invalid input '"@ + seq![c] + "'"@
}

/// The message for a number with a second sign, after the text read so far.
pub open spec fn invalid_number_text(buf: Seq<char>) -> Seq<char> {
    "invalid number "@ + buf
}

/// The message for a function name that the reader does not know.
pub open spec fn unknown_function_text(name: Seq<char>) -> Seq<char> {
    "Unknown function '"@ + name + "'"@
}

/// The number that a sequence of decimal digits writes.
pub open spec fn digits_value(digits: Seq<char>) -> nat
    decreases digits.len(),
{
    if digits.len() == 0 {
        0
    } else {
        (digits_value(digits.drop_last()) * 10 + (digits.last() as int - '0' as int)) as nat
    }
}

/// Whether a text is an optional `-` followed by digits only.
pub open spec fn number_shaped(buf: Seq<char>) -> bool {
    forall|i: int| 0 <= i < buf.len() ==> is_digit(#[trigger] buf[i]) || (i == 0 && buf[i] == '-')
}

/// The integer that a number-shaped text writes, or why it writes none.
pub open spec fn number_value(buf: Seq<char>) -> Result<i64, NumberError> {
    if buf.len() == 0 {
        Err(NumberError::Empty)
    } else if buf[0] == '-' {
        if buf.len() == 1 {
            Err(NumberError::InvalidDigit)
        } else if -digits_value(buf.skip(1)) < i64::MIN {
            Err(NumberError::NegOverflow)
        } else {
            Ok((-digits_value(buf.skip(1))) as i64)
        }
    } else {
        if digits_value(buf) > i64::MAX {
            Err(NumberError::PosOverflow)
        } else {
            Ok(digits_value(buf) as i64)
        }
    }
}

/// Collects the text of a number after `buf`: a `-` and digits are taken, a
/// second character after a `-` that is again `-` is an error, a space or `)`
/// ends the number and stays in the stream, any other character is taken
/// and is an error.
pub open spec fn scan_number(s: Seq<Item>, buf: Seq<char>) -> Scan<Seq<char>>
    decreases s.len(),
{
    if s.len() == 0 {
        Scan { result: Err(Fault::Eof), rest: s }
    } else {
        match s[0] {
            Err(e) => Scan { result: Err(Fault::Io(e)), rest: s.skip(1) },
            Ok(c) => if c == '-' {
                if buf.len() > 0 {
                    Scan { result: Err(Fault::Invalid(invalid_number_text(buf.push(c)))), rest: s.skip(1) }
                } else {
                    scan_number(s.skip(1), buf.push(c))
                }
            } else if is_digit(c) {
                scan_number(s.skip(1), buf.push(c))
            } else if c == ' ' || c == ')' {
                Scan { result: Ok(buf), rest: s }
            } else {
                Scan { result: Err(Fault::Invalid(invalid_input_text(c))), rest: s.skip(1) }
            },
        }
    }
}

/// What reading a number from `s` yields.
pub open spec fn parse_number(s: Seq<Item>) -> Scan<i64> {
    let text = scan_number(s, Seq::empty());
    match text.result {
        Err(fault) => Scan { result: Err(fault), rest: text.rest },
        Ok(buf) => match number_value(buf) {
            Ok(v) => Scan { result: Ok(v), rest: text.rest },
            Err(kind) => Scan { result: Err(Fault::Parse(kind)), rest: text.rest },
        },
    }
}

/// The value of the first digits of a sequence is at most the value of all.
pub proof fn lemma_digits_value_grows(digits: Seq<char>, k: int)
    requires
        0 <= k <= digits.len(),
        forall|i: int| 0 <= i < digits.len() ==> is_digit(#[trigger] digits[i]),
    ensures
        digits_value(digits.take(k)) <= digits_value(digits),
    decreases digits.len(),
{
    if k < digits.len() {
        let shorter = digits.drop_last();
        lemma_digits_value_grows(shorter, k);
        assert(shorter.take(k) =~= digits.take(k));
    } else {
        assert(digits.take(k) =~= digits);
    }
}

/// Collects a function's name after `acc`: every character up to the first
/// space, which is taken too, or up to the end of the stream.
pub open spec fn scan_name(s: Seq<Item>, acc: Seq<char>) -> Scan<Seq<char>>
    decreases s.len(),
{
    if s.len() == 0 {
        Scan { result: Ok(acc), rest: s }
    } else {
        match s[0] {
            Err(e) => Scan { result: Err(Fault::Io(e)), rest: s.skip(1) },
            Ok(c) => if c == ' ' {
                Scan { result: Ok(acc), rest: s.skip(1) }
            } else {
                scan_name(s.skip(1), acc.push(c))
            },
        }
    }
}

/// The function that a name spells: `+` is `Add` and `if` is `If`.
pub open spec fn function_named(name: Seq<char>) -> Result<Func, Fault> {
    if name == seq!['+'] {
        Ok(Func::Add(Add))
    } else if name == seq!['i', 'f'] {
        Ok(Func::If(If))
    } else {
        Err(Fault::Invalid(unknown_function_text(name)))
    }
}

/// What reading a function's name from `s` yields.
pub open spec fn parse_function_name(s: Seq<Item>) -> Scan<Func> {
    let name = scan_name(s, Seq::empty());
    match name.result {
        Err(fault) => Scan { result: Err(fault), rest: name.rest },
        Ok(text) => Scan { result: function_named(text), rest: name.rest },
    }
}

/// What reading the parameters of a call from `s` yields, after the
/// parameters `acc`: numbers and calls in parentheses, separated by spaces,
/// up to the closing `)`, which is taken.
///
/// A production that is read inside this one always takes at least one item
/// ([`lemma_expr_consumes`]), so the test on the lengths never fails.
pub open spec fn parse_params(s: Seq<Item>, acc: Seq<Term>) -> Scan<Seq<Term>>
    decreases s.len(), 1nat,
{
    if s.len() == 0 {
        Scan { result: Err(Fault::Eof), rest: s }
    } else {
        match s[0] {
            Err(e) => Scan { result: Err(Fault::Io(e)), rest: s.skip(1) },
            Ok(c) => if is_digit(c) || c == '-' {
                let number = parse_number(s);
                match number.result {
                    Err(fault) => Scan { result: Err(fault), rest: number.rest },
                    Ok(v) => if number.rest.len() < s.len() {
                        parse_params(number.rest, acc.push(Term::Literal(v)))
                    } else {
                        arbitrary()
                    },
                }
            } else if c == '(' {
                let inner = parse_expr(s);
                match inner.result {
                    Err(fault) => Scan { result: Err(fault), rest: inner.rest },
                    Ok(term) => if inner.rest.len() < s.len() {
                        parse_params(inner.rest, acc.push(term))
                    } else {
                        arbitrary()
                    },
                }
            } else if c == ' ' {
                parse_params(s.skip(1), acc)
            } else if c == ')' {
                Scan { result: Ok(acc), rest: s.skip(1) }
            } else {
                Scan { result: Err(Fault::Invalid(invalid_input_text(c))), rest: s.skip(1) }
            },
        }
    }
}

/// What reading one expression from `s` yields.
///
/// Spaces and line ends before it are skipped. A `(` opens a call: the
/// function's name, then its parameters. A digit or a sign opens a number,
/// which becomes a literal. Any other character is taken and is an error.
pub open spec fn parse_expr(s: Seq<Item>) -> Scan<Term>
    decreases s.len(), 0nat,
{
    if s.len() == 0 {
        Scan { result: Err(Fault::Eof), rest: s }
    } else {
        match s[0] {
            Err(e) => Scan { result: Err(Fault::Io(e)), rest: s.skip(1) },
            Ok(c) => if c == '(' {
                let name = parse_function_name(s.skip(1));
                match name.result {
                    Err(fault) => Scan { result: Err(fault), rest: name.rest },
                    Ok(function) => if name.rest.len() < s.len() {
                        let params = parse_params(name.rest, Seq::empty());
                        match params.result {
                            Err(fault) => Scan { result: Err(fault), rest: params.rest },
                            Ok(args) => Scan { result: Ok(Term::Call(function, args)), rest: params.rest },
                        }
                    } else {
                        arbitrary()
                    },
                }
            } else if is_digit(c) || c == '+' || c == '-' {
                let number = parse_number(s);
                match number.result {
                    Err(fault) => Scan { result: Err(fault), rest: number.rest },
                    Ok(v) => Scan { result: Ok(Term::Literal(v)), rest: number.rest },
                }
            } else if c == ' ' || c == '\n' || c == '\r' {
                parse_expr(s.skip(1))
            } else {
                Scan { result: Err(Fault::Invalid(invalid_input_text(c))), rest: s.skip(1) }
            },
        }
    }
}

/// Collecting a number's text never adds to the stream, and takes at least
/// one item unless the stream is empty or starts with a terminator.
pub proof fn lemma_number_consumes(s: Seq<Item>, buf: Seq<char>)
    ensures
        scan_number(s, buf).rest.len() <= s.len(),
        s.len() > 0 && s[0] != Ok::<char, Seq<char>>(' ') && s[0] != Ok::<char, Seq<char>>(')')
            ==> scan_number(s, buf).rest.len() < s.len(),
    decreases s.len(),
{
    if s.len() > 0 {
        match s[0] {
            Err(_) => {},
            Ok(c) => {
                if (c == '-' && buf.len() == 0) || is_digit(c) {
                    lemma_number_consumes(s.skip(1), buf.push(c));
                }
            },
        }
    }
}

/// Collecting a function's name never adds to the stream.
pub proof fn lemma_name_consumes(s: Seq<Item>, acc: Seq<char>)
    ensures
        scan_name(s, acc).rest.len() <= s.len(),
    decreases s.len(),
{
    if s.len() > 0 {
        match s[0] {
            Err(_) => {},
            Ok(c) => {
                if c != ' ' {
                    lemma_name_consumes(s.skip(1), acc.push(c));
                }
            },
        }
    }
}

/// Reading an expression takes at least one item from a stream that has one.
pub proof fn lemma_expr_consumes(s: Seq<Item>)
    requires
        s.len() > 0,
    ensures
        parse_expr(s).rest.len() < s.len(),
    decreases s.len(), 0nat,
{
    lemma_number_consumes(s, Seq::empty());
    lemma_name_consumes(s.skip(1), Seq::empty());
    match s[0] {
        Err(_) => {},
        Ok(c) => {
            if c == '(' {
                let name = parse_function_name(s.skip(1));
                if name.result is Ok {
                    lemma_params_consume(name.rest, Seq::empty());
                }
            } else if is_digit(c) || c == '+' || c == '-' {
            } else if c == ' ' || c == '\n' || c == '\r' {
                if s.len() > 1 {
                    lemma_expr_consumes(s.skip(1));
                }
            }
        },
    }
}

/// Reading parameters never adds to the stream.
pub proof fn lemma_params_consume(s: Seq<Item>, acc: Seq<Term>)
    ensures
        parse_params(s, acc).rest.len() <= s.len(),
    decreases s.len(), 1nat,
{
    if s.len() > 0 {
        lemma_number_consumes(s, Seq::empty());
        match s[0] {
            Err(_) => {},
            Ok(c) => {
                if is_digit(c) || c == '-' {
                    let number = parse_number(s);
                    if let Ok(v) = number.result {
                        lemma_params_consume(number.rest, acc.push(Term::Literal(v)));
                    }
                } else if c == '(' {
                    lemma_expr_consumes(s);
                    let inner = parse_expr(s);
                    if let Ok(term) = inner.result {
                        lemma_params_consume(inner.rest, acc.push(term));
                    }
                } else if c == ' ' {
                    lemma_params_consume(s.skip(1), acc);
                }
            },
        }
    }
}

/// A text as the items of a stream that does not fail.
pub open spec fn items_of(text: Seq<char>) -> Seq<Item> {
    Seq::new(text.len(), |i: int| Ok::<char, Seq<char>>(text[i]))
}

/// Whether a stream starts with a character that ends a number.
pub open spec fn starts_with_terminator(s: Seq<Item>) -> bool {
    s.len() > 0 && (s[0] == Ok::<char, Seq<char>>(' ') || s[0] == Ok::<char, Seq<char>>(')'))
}

/// The decimal digits of a number are digits, at least one, and write that
/// number.
pub proof fn lemma_decimal_digits_write_the_number(n: nat)
    ensures
        decimal_digits(n).len() > 0,
        forall|i: int| 0 <= i < decimal_digits(n).len() ==> is_digit(#[trigger] decimal_digits(n)[i]),
        digits_value(decimal_digits(n)) == n,
    decreases n,
{
    let text = decimal_digits(n);
    if n < 10 {
        assert(text.drop_last() =~= Seq::<char>::empty());
        assert(digits_value(text.drop_last()) == 0);
        assert(text.last() == digit_char(n));
        assert(digit_char(n) as int == 48 + n);
    } else {
        lemma_decimal_digits_write_the_number(n / 10);
        assert(text.drop_last() =~= decimal_digits(n / 10));
        assert(text.last() == digit_char(n % 10));
        assert(digit_char(n % 10) as int == 48 + n % 10);
    }
}

/// Digits in front of a terminator are collected up to it.
pub proof fn lemma_scan_collects_digits(text: Seq<char>, buf: Seq<char>, rest: Seq<Item>)
    requires
        forall|i: int| 0 <= i < text.len() ==> is_digit(#[trigger] text[i]),
        starts_with_terminator(rest),
    ensures
        scan_number(items_of(text) + rest, buf) == (Scan { result: Ok(buf + text), rest }),
    decreases text.len(),
{
    let s = items_of(text) + rest;
    if text.len() == 0 {
        assert(s =~= rest);
        assert(buf + text =~= buf);
    } else {
        assert(s[0] == Ok::<char, Seq<char>>(text[0]));
        assert(is_digit(text[0]));
        assert(s.skip(1) =~= items_of(text.skip(1)) + rest);
        lemma_scan_collects_digits(text.skip(1), buf.push(text[0]), rest);
        assert(buf.push(text[0]) + text.skip(1) =~= buf + text);
    }
}

/// Every integer of 64 bits is read back from its decimal text: in front of
/// a terminator the text yields the integer, and the terminator stays.
pub proof fn lemma_number_round_trip(v: i64, rest: Seq<Item>)
    requires
        starts_with_terminator(rest),
    ensures
        parse_number(items_of(decimal_text(v as int)) + rest) == (Scan { result: Ok(v), rest }),
        parse_expr(items_of(decimal_text(v as int)) + rest) == (Scan { result: Ok(Term::Literal(v)), rest }),
{
    let text = decimal_text(v as int);
    let s = items_of(text) + rest;
    if v < 0 {
        let digits = decimal_digits((-v) as nat);
        lemma_decimal_digits_write_the_number((-v) as nat);
        let sign = Seq::<char>::empty().push('-');
        assert(sign =~= seq!['-']);
        assert(s[0] == Ok::<char, Seq<char>>('-'));
        assert(s.skip(1) =~= items_of(digits) + rest);
        lemma_scan_collects_digits(digits, sign, rest);
        assert((sign + digits).skip(1) =~= digits);
        assert((sign + digits)[0] == '-');
    } else {
        let digits = decimal_digits(v as nat);
        lemma_decimal_digits_write_the_number(v as nat);
        lemma_scan_collects_digits(digits, Seq::empty(), rest);
        assert(Seq::<char>::empty() + digits =~= digits);
        assert(is_digit(digits[0]));
        assert(s[0] == Ok::<char, Seq<char>>(digits[0]));
    }
}

/// Whether a production ended without running into the end of the stream:
/// it succeeded, or it failed with something left over.
pub open spec fn stands<T>(scan: Scan<T>) -> bool {
    scan.result is Ok || scan.rest.len() > 0
}

/// The same scan on a stream that goes on with `more`.
pub open spec fn followed_by<T>(scan: Scan<T>, more: Seq<Item>) -> Scan<T> {
    Scan { result: scan.result, rest: scan.rest + more }
}

/// A number's text that was collected without running into the end of the
/// stream is collected in the same way whatever follows.
pub proof fn lemma_scan_number_stands(s: Seq<Item>, buf: Seq<char>, more: Seq<Item>)
    requires
        stands(scan_number(s, buf)),
    ensures
        scan_number(s + more, buf) == followed_by(scan_number(s, buf), more),
    decreases s.len(),
{
    if s.len() > 0 {
        assert((s + more)[0] == s[0]);
        assert((s + more).skip(1) =~= s.skip(1) + more);
        match s[0] {
            Err(_) => {},
            Ok(c) => {
                if (c == '-' && buf.len() == 0) || is_digit(c) {
                    lemma_scan_number_stands(s.skip(1), buf.push(c), more);
                }
            },
        }
    }
}

/// A number that was read without running into the end of the stream is read
/// in the same way whatever follows.
pub proof fn lemma_number_stands(s: Seq<Item>, more: Seq<Item>)
    requires
        stands(parse_number(s)),
    ensures
        parse_number(s + more) == followed_by(parse_number(s), more),
{
    lemma_scan_number_stands(s, Seq::empty(), more);
}

/// A function's name that left something in the stream is read in the same
/// way whatever follows.
pub proof fn lemma_scan_name_stands(s: Seq<Item>, acc: Seq<char>, more: Seq<Item>)
    requires
        scan_name(s, acc).rest.len() > 0,
    ensures
        scan_name(s + more, acc) == followed_by(scan_name(s, acc), more),
    decreases s.len(),
{
    if s.len() > 0 {
        assert((s + more)[0] == s[0]);
        assert((s + more).skip(1) =~= s.skip(1) + more);
        match s[0] {
            Err(_) => {},
            Ok(c) => {
                if c != ' ' {
                    lemma_scan_name_stands(s.skip(1), acc.push(c), more);
                }
            },
        }
    }
}

/// Parameters that were read without running into the end of the stream are
/// read in the same way whatever follows.
pub proof fn lemma_params_stand(s: Seq<Item>, acc: Seq<Term>, more: Seq<Item>)
    requires
        stands(parse_params(s, acc)),
    ensures
        parse_params(s + more, acc) == followed_by(parse_params(s, acc), more),
    decreases s.len(), 1nat,
{
    if s.len() > 0 {
        assert((s + more)[0] == s[0]);
        assert((s + more).skip(1) =~= s.skip(1) + more);
        match s[0] {
            Err(_) => {},
            Ok(c) => {
                if is_digit(c) || c == '-' {
                    let number = parse_number(s);
                    lemma_number_consumes(s, Seq::empty());
                    lemma_number_consumes(s + more, Seq::empty());
                    if let Ok(v) = number.result {
                        lemma_number_stands(s, more);
                        lemma_params_stand(number.rest, acc.push(Term::Literal(v)), more);
                    } else {
                        lemma_number_stands(s, more);
                    }
                } else if c == '(' {
                    let inner = parse_expr(s);
                    lemma_expr_consumes(s);
                    lemma_expr_consumes(s + more);
                    if let Ok(term) = inner.result {
                        lemma_expr_stands(s, more);
                        lemma_params_stand(inner.rest, acc.push(term), more);
                    } else {
                        lemma_expr_stands(s, more);
                    }
                } else if c == ' ' {
                    lemma_params_stand(s.skip(1), acc, more);
                }
            },
        }
    }
}

/// An expression that was read without running into the end of the stream
/// is read in the same way whatever follows: the reader looks no further
/// ahead than it has to, so a read on the part of a stream that has arrived
/// stands for the whole stream.
pub proof fn lemma_expr_stands(s: Seq<Item>, more: Seq<Item>)
    requires
        stands(parse_expr(s)),
    ensures
        parse_expr(s + more) == followed_by(parse_expr(s), more),
    decreases s.len(), 0nat,
{
    if s.len() > 0 {
        assert((s + more)[0] == s[0]);
        assert((s + more).skip(1) =~= s.skip(1) + more);
        match s[0] {
            Err(_) => {},
            Ok(c) => {
                if c == '(' {
                    let name = parse_function_name(s.skip(1));
                    lemma_name_consumes(s.skip(1), Seq::empty());
                    lemma_name_consumes(s.skip(1) + more, Seq::empty());
                    if name.rest.len() > 0 {
                        lemma_scan_name_stands(s.skip(1), Seq::empty(), more);
                        if name.result is Ok {
                            lemma_params_stand(name.rest, Seq::empty(), more);
                        }
                    }
                } else if is_digit(c) || c == '+' || c == '-' {
                    lemma_number_stands(s, more);
                } else if c == ' ' || c == '\n' || c == '\r' {
                    lemma_expr_stands(s.skip(1), more);
                }
            },
        }
    }
}

} // verus!
