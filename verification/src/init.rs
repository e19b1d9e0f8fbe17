//! Decision rules of the template generator: which languages are known and
//! which file each language's starter template is written to.

use vstd::prelude::*;

verus! {

/// A language the template generator knows.
#[derive(Clone, Copy, PartialEq, Eq, Structural, Debug)]
pub enum InitLanguage {
    Rust,
    Python,
}

/// Map a language argument to the template to generate; anything but
/// "rust" or "python" is unknown and refused.
pub fn parse_language(lang: &str) -> (r: Option<InitLanguage>)
    ensures
        lang@ == "rust"@ ==> r == Some(InitLanguage::Rust),
        lang@ == "python"@ ==> r == Some(InitLanguage::Python),
        lang@ != "rust"@ && lang@ != "python"@ ==> r is None,
{
    proof {
        reveal_strlit("rust");
        reveal_strlit("python");
        assert(("rust"@).len() != ("python"@).len());
    }
    let l = String::from_str(lang);
    if l == String::from_str("rust") {
        Some(InitLanguage::Rust)
    } else if l == String::from_str("python") {
        Some(InitLanguage::Python)
    } else {
        None
    }
}

/// The path the starter template of a language is written to.
pub fn template_target(lang: InitLanguage) -> (r: &'static str)
    ensures
        lang == InitLanguage::Rust ==> r@ == "src/guardrails.rs"@,
        lang == InitLanguage::Python ==> r@ == "secure_requirements.txt"@,
{
    match lang {
        InitLanguage::Rust => "src/guardrails.rs",
        InitLanguage::Python => "secure_requirements.txt",
    }
}

} // verus!
