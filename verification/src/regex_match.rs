use vstd::prelude::*;

verus! {

#[verifier::external_type_specification]
#[verifier::external_body]
pub struct ExRegex(regex::Regex);

#[verifier::external_type_specification]
#[verifier::external_body]
pub struct ExRegexError(regex::Error);

/// Whether `regex::Regex::new` accepts `pattern`.
pub uninterp spec fn regex_compiles(pattern: Seq<char>) -> bool;

/// Whether the regex compiled from `pattern` finds a match anywhere in
/// `haystack` (`regex::Regex::find` returns `Some`).
pub uninterp spec fn regex_finds(pattern: Seq<char>, haystack: Seq<char>) -> bool;

/// Compiles `pattern` with `regex::Regex::new`.
///
/// Trusted: `regex::Regex::new` is a function of the pattern alone (it fails
/// on a syntax error or when the compiled program exceeds the default size
/// limit), and the contract says no more than that its success is that function.
#[verifier::external_body]
fn compile_regex(pattern: &str) -> (compiled: Result<regex::Regex, regex::Error>)
    ensures
        compiled is Ok == regex_compiles(pattern@),
{
    regex::Regex::new(pattern)
}

/// A compiled regex together with the source text it was compiled from.
///
/// Its fields are private to this module, and the only place that builds one
/// is `CompiledRegex::compile`, which records the text it compiled.
pub struct CompiledRegex {
    regex: regex::Regex,
    source: Ghost<Seq<char>>,
}

impl View for CompiledRegex {
    type V = Seq<char>;

    /// The source text the regex was compiled from.
    closed spec fn view(&self) -> Seq<char> {
        self.source@
    }
}

/// Whether `compiled` finds a match anywhere in `haystack`, by
/// `regex::Regex::find(..).is_some()`.
///
/// Trusted: the regex inside a `CompiledRegex` was built by `regex::Regex::new`
/// from the text its view gives (see `CompiledRegex::compile`), so the result is
/// the named result for that text; the contract claims no more.
#[verifier::external_body]
fn regex_find_is_some(compiled: &CompiledRegex, haystack: &str) -> (found: bool)
    ensures
        found == regex_finds(compiled@, haystack@),
{
    compiled.regex.find(haystack).is_some()
}

impl CompiledRegex {
    /// Compiles `pattern`; gives `None` exactly when `regex` refuses it.
    pub fn compile(pattern: &str) -> (compiled: Option<CompiledRegex>)
        ensures
            compiled is Some == regex_compiles(pattern@),
            compiled matches Some(c) ==> c@ == pattern@,
    {
        match compile_regex(pattern) {
            Ok(regex) => Some(CompiledRegex { regex, source: Ghost(pattern@) }),
            Err(_) => None,
        }
    }

    /// Whether the regex finds a match anywhere in `haystack`.
    pub fn find_is_some(&self, haystack: &str) -> (found: bool)
        ensures
            found == regex_finds(self@, haystack@),
    {
        regex_find_is_some(self, haystack)
    }
}

} // verus!
