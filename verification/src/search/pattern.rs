//! Regular expressions, compiled and applied by the `regex` crate.
//!
//! Nothing here is proved of the engine. What it gives is named: the texts
//! that a compiled expression matches, and what compiling a pattern gives.
//! The searches state their results over these names.

use vstd::prelude::*;

verus! {

/// `regex::Regex`, a compiled regular expression; nothing is seen inside it.
#[verifier::external_type_specification]
#[verifier::external_body]
pub struct ExRegex(regex::Regex);

/// `regex::Error`, the error of compiling a pattern; nothing is seen inside it.
#[verifier::external_type_specification]
#[verifier::external_body]
pub struct ExRegexError(regex::Error);

/// The texts in which a compiled expression finds a match.
pub uninterp spec fn language(re: regex::Regex) -> Set<Seq<char>>;

/// The message of an error of the engine, as the engine words it.
pub uninterp spec fn diagnostic(e: regex::Error) -> Seq<char>;

/// What compiling `pattern` gives: the texts in which the compiled expression
/// finds a match, or the message of the error where the engine rejects the
/// pattern. The engine limits the size of a compiled expression in bytes of
/// memory, so what it gives is what it gives on the machine that the library
/// is built for.
pub uninterp spec fn compiled(pattern: Seq<char>, case_insensitive: bool) -> Result<
    Set<Seq<char>>,
    Seq<char>,
>;

/// `RegexBuilder::new`, `RegexBuilder::case_insensitive` and
/// `RegexBuilder::build`: compiles `pattern` with the engine's default
/// configuration but for case sensitivity. The contract claims only that the
/// outcome depends on the pattern and the flag alone: it relates the compiled
/// expression, or the error, to the name of what compiling gives.
#[verifier::external_body]
pub(crate) fn compile(pattern: &str, case_insensitive: bool) -> (res: Result<
    regex::Regex,
    regex::Error,
>)
    ensures
        match res {
            Ok(re) => compiled(pattern@, case_insensitive) == Ok::<Set<Seq<char>>, Seq<char>>(
                language(re),
            ),
            Err(e) => compiled(pattern@, case_insensitive) == Err::<Set<Seq<char>>, Seq<char>>(
                diagnostic(e),
            ),
        },
{
    regex::RegexBuilder::new(pattern).case_insensitive(case_insensitive).build()
}

/// `Regex::is_match`: whether the expression finds a match anywhere in
/// `text`. The contract claims only that the answer depends on the
/// expression and the text alone.
#[verifier::external_body]
pub(crate) fn is_match(re: &regex::Regex, text: &str) -> (found: bool)
    ensures
        found == language(*re).contains(text@),
{
    re.is_match(text)
}

/// `Display` of `regex::Error`, through `to_string`: the message of the
/// error. The contract claims only that the message depends on the error
/// alone.
#[verifier::external_body]
pub(crate) fn describe(e: &regex::Error) -> (message: String)
    ensures
        message@ == diagnostic(*e),
{
    e.to_string()
}

} // verus!
