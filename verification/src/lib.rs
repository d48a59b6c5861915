//! A minimal interpreter for a parenthesised expression language over 64-bit
//! integers: an expression tree with its evaluation rules, and a reader that
//! turns a stream of characters into such trees.

pub mod lisp;
