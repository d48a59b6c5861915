//! Expressions as text: integers in decimal, and the description of an
//! expression that an error carries where the expression is no target of
//! assignment.

use vstd::prelude::*;
use vstd::string::StringExecFns;
use crate::lisp::expr::{Expr, Func, terms_of};
use crate::lisp::semantics::Term;

verus! {

/// The character that writes the digit `d`.
pub open spec fn digit_char(d: nat) -> char {
    ((48 + d) as u8) as char
}

/// The decimal digits of `n`, without leading zeros.
pub open spec fn decimal_digits(n: nat) -> Seq<char>
    decreases n,
{
    if n < 10 {
        seq![digit_char(n)]
    } else {
        decimal_digits(n / 10).push(digit_char(n % 10))
    }
}

/// The integer `v` in decimal, with a `-` in front where it is negative.
pub open spec fn decimal_text(v: int) -> Seq<char> {
    if v < 0 {
        seq!['-'] + decimal_digits((-v) as nat)
    } else {
        decimal_digits(v as nat)
    }
}

/// A name between double quotes, with the characters escaped that a string
/// literal cannot hold as they are.
pub uninterp spec fn quoted(name: Seq<char>) -> Seq<char>;

/// The name under which a function is described.
pub open spec fn func_text(f: Func) -> Seq<char> {
    match f {
        Func::Add(_) => "Add"@,
        Func::If(_) => "If"@,
        Func::Assign(_) => "Set"@,
    }
}

/// The description of a reference whose name, quoted, is `quoted_name`.
pub open spec fn reference_text(quoted_name: Seq<char>) -> Seq<char> {
    "Reference { name: "@ + quoted_name + " }"@
}

/// The description of an expression: its kind, then its parts by name
/// between braces.
pub open spec fn describe(t: Term) -> Seq<char>
    decreases t, 0nat, 0nat,
{
    match t {
        Term::Literal(val) => "Literal { val: "@ + decimal_text(val as int) + " }"@,
        Term::Reference(name) => reference_text(quoted(name)),
        Term::Call(f, args) => "Call { function: "@ + func_text(f) + ", args: "@ + describe_list(args)
            + " }"@,
    }
}

/// The descriptions of `args` between square brackets.
pub open spec fn describe_list(args: Seq<Term>) -> Seq<char>
    decreases args, 2nat, 0nat,
{
    "["@ + describe_items(args, args.len()) + "]"@
}

/// The descriptions of the first `n` of `args`, with `, ` between them.
pub open spec fn describe_items(args: Seq<Term>, n: nat) -> Seq<char>
    decreases args, 1nat, n,
{
    if n == 0 || n > args.len() {
        Seq::empty()
    } else if n == 1 {
        describe(args[0])
    } else {
        describe_items(args, (n - 1) as nat) + ", "@ + describe(args[n - 1])
    }
}

/// Specifies `String::push` of std: the character is appended at the end and
/// nothing else changes.
pub assume_specification[ String::push ](s: &mut String, c: char)
    ensures
        final(s)@ == old(s)@.push(c),
;

/// Appends the decimal digits of `n`.
pub(crate) fn push_digits(text: &mut String, n: u64)
    ensures
        final(text)@ == old(text)@ + decimal_digits(n as nat),
    decreases n,
{
    if n >= 10 {
        push_digits(text, n / 10);
    }
    let d: u8 = (n % 10) as u8;
    text.push((48 + d) as char);
    assert(final(text)@ =~= old(text)@ + decimal_digits(n as nat));
}

/// Appends `val` in decimal.
pub(crate) fn push_decimal(text: &mut String, val: i64)
    ensures
        final(text)@ == old(text)@ + decimal_text(val as int),
{
    if val < 0 {
        text.push('-');
        let magnitude: i128 = 0 - (val as i128);
        push_digits(text, magnitude as u64);
        assert(final(text)@ =~= old(text)@ + decimal_text(val as int));
    } else {
        push_digits(text, val as u64);
    }
}

/// Calls std's `Debug` formatting of a string, which puts the text between
/// double quotes and escapes what a string literal cannot hold as it is.
/// The contract only names the result: it depends on the text alone.
#[verifier::external_body]
fn quote(name: &str) -> (text: String)
    ensures
        text@ == quoted(name@),
{
    format!("{:?}", name)
}

/// Appends the description of a reference whose name, quoted, is
/// `quoted_name`.
pub fn push_reference(text: &mut String, quoted_name: &str)
    ensures
        final(text)@ == old(text)@ + reference_text(quoted_name@),
{
    text.append("Reference { name: ");
    text.append(quoted_name);
    text.append(" }");
    assert(final(text)@ =~= old(text)@ + reference_text(quoted_name@));
}

/// Appends the name under which a function is described.
pub(crate) fn push_func(text: &mut String, f: &Func)
    ensures
        final(text)@ == old(text)@ + func_text(*f),
{
    match f {
        Func::Add(_) => text.append("Add"),
        Func::If(_) => text.append("If"),
        Func::Assign(_) => text.append("Set"),
    }
}

/// Appends the description of an expression.
pub(crate) fn push_description(text: &mut String, e: &Expr)
    ensures
        final(text)@ == old(text)@ + describe(e@),
    decreases *e, 0nat,
{
    match e {
        Expr::Literal(l) => {
            text.append("Literal { val: ");
            push_decimal(text, l.val);
            text.append(" }");
            assert(final(text)@ =~= old(text)@ + describe(e@));
        },
        Expr::Reference(r) => {
            let name = quote(r.name.as_str());
            push_reference(text, name.as_str());
        },
        Expr::Call(c) => {
            text.append("Call { function: ");
            push_func(text, &c.function);
            text.append(", args: ");
            push_list(text, &c.args);
            text.append(" }");
            assert(final(text)@ =~= old(text)@ + describe(e@));
        },
    }
}

/// Appends the descriptions of `args` between square brackets.
pub(crate) fn push_list(text: &mut String, args: &Vec<Expr>)
    ensures
        final(text)@ == old(text)@ + describe_list(terms_of(args@)),
    decreases *args, 1nat,
{
    let ghost terms = terms_of(args@);
    text.append("[");
    let ghost opened = text@;
    let mut i: usize = 0;
    while i < args.len()
        invariant
            i <= args.len(),
            terms == terms_of(args@),
            opened == old(text)@ + "["@,
            text@ == opened + describe_items(terms, i as nat),
        decreases args.len() - i,
    {
        if i > 0 {
            text.append(", ");
        }
        push_description(text, &args[i]);
        assert(text@ =~= opened + describe_items(terms, (i + 1) as nat));
        i += 1;
    }
    text.append("]");
    assert(text@ =~= old(text)@ + describe_list(terms));
}

/// The text `prefix` followed by the characters of `body`.
pub(crate) fn text_with(prefix: &str, body: &Vec<char>) -> (text: String)
    ensures
        text@ == prefix@ + body@,
{
    let mut text = String::from_str(prefix);
    let mut i: usize = 0;
    while i < body.len()
        invariant
            i <= body.len(),
            text@ == prefix@ + body@.take(i as int),
        decreases body.len() - i,
    {
        text.push(body[i]);
        assert(body@.take(i + 1) =~= body@.take(i as int).push(body[i as int]));
        assert(prefix@ + body@.take(i + 1) =~= (prefix@ + body@.take(i as int)).push(body[i as int]));
        i += 1;
    }
    assert(body@.take(i as int) =~= body@);
    text
}

} // verus!
