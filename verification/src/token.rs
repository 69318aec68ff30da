//! Token trees, and the reading of a string literal out of one.

use vstd::prelude::*;
use vstd::string::*;

verus! {

/// One tree of a token stream, reduced to what the derive reads.
#[derive(Debug, PartialEq, Eq)]
pub enum TokenTree {
    /// A delimited group, with the stream between its delimiters.
    Group(Vec<TokenTree>),
    /// A word.
    Ident(String),
    /// A single punctuation character.
    Punct(char),
    /// A literal, as it is written in the source.
    Literal(String),
}

/// The token is no literal between double quotes.
#[derive(Debug, Clone, Copy, PartialEq, Eq)]
pub struct NotAStringLiteral;

/// Whether `source` is written between a leading and a trailing double quote.
pub open spec fn is_quoted(source: Seq<char>) -> bool {
    source.len() >= 2 && source.first() == '"' && source.last() == '"'
}

/// What stands between the first and the last character of `source`.
pub open spec fn unquoted(source: Seq<char>) -> Seq<char> {
    source.subrange(1, source.len() - 1)
}

/// The content of the string literal that `token` is, if it is one. Nothing
/// between the quotes is decoded.
pub open spec fn literal_content(token: TokenTree) -> Option<Seq<char>> {
    match token {
        TokenTree::Literal(source) => if is_quoted(source@) {
            Some(unquoted(source@))
        } else {
            None
        },
        _ => None,
    }
}

/// The content of the string literal that opens `tokens`, if one does.
pub open spec fn leading_literal_content(tokens: Seq<TokenTree>) -> Option<Seq<char>> {
    if tokens.len() > 0 {
        literal_content(tokens[0])
    } else {
        None
    }
}

/// Reads a string literal: the token has to be a literal that starts and ends
/// with a double quote, and what stands between the two is handed out as it is.
pub fn string_literal_token(token: &TokenTree) -> (content: Result<String, NotAStringLiteral>)
    ensures
        match content {
            Ok(text) => literal_content(*token) == Some(text@),
            Err(_) => literal_content(*token) is None,
        },
{
    match token {
        TokenTree::Literal(source) => {
            let source = source.as_str();
            let count: usize = source.unicode_len();
            if count >= 2 && source.get_char(0) == '"' && source.get_char(count - 1) == '"' {
                Ok(source.substring_char(1, count - 1).to_owned())
            } else {
                Err(NotAStringLiteral)
            }
        },
        _ => Err(NotAStringLiteral),
    }
}

/// Reads the string literal that opens a token stream. What follows the first
/// token is not looked at.
pub fn string_literal(tokens: &Vec<TokenTree>) -> (content: Result<String, NotAStringLiteral>)
    ensures
        match content {
            Ok(text) => leading_literal_content(tokens@) == Some(text@),
            Err(_) => leading_literal_content(tokens@) is None,
        },
{
    if tokens.len() > 0 {
        string_literal_token(&tokens[0])
    } else {
        Err(NotAStringLiteral)
    }
}

} // verus!
