//! Pure decision rules of the vulnerability scanner: which directory
//! entries are skipped, which file extensions are scanned, and which lines
//! of a file look like hard-coded secrets.

use vstd::prelude::*;

verus! {

/// What `regex::Regex::is_match` yields for a pattern and a text: a pure
/// function of both; an unparsable pattern matches nothing.
pub uninterp spec fn regex_match_of(pattern: Seq<char>, text: Seq<char>) -> bool;

/// Relies on `regex::Regex::new` and `Regex::is_match`: whether the
/// pattern matches anywhere in the text, false when the pattern does not
/// compile.
#[verifier::external_body]
fn regex_is_match(pattern: &str, text: &str) -> (r: bool)
    ensures
        r == regex_match_of(pattern@, text@),
{
    match regex::Regex::new(pattern) {
        Ok(re) => re.is_match(text),
        Err(_) => false,
    }
}

/// The secret-detection pattern: an assignment of a long literal to a
/// credential-like name, case-insensitively.
pub open spec fn secret_pattern() -> Seq<char> {
    "(?i)(api_key|password|secret|token|private_key).*=.*['\"\"][a-zA-Z0-9]{8,}['\"\"]"@
}

/// The indices, in order, of the lines that the secret scan flags.
pub fn find_secret_lines(lines: &Vec<String>) -> (r: Vec<usize>)
    ensures
        forall|j: int| 0 <= j < r@.len() ==> r@[j] < lines@.len() && regex_match_of(
            secret_pattern(),
            lines@[r@[j] as int]@,
        ),
        forall|i: int|
            0 <= i < lines@.len() && regex_match_of(secret_pattern(), lines@[i]@)
                ==> exists|j: int| 0 <= j < r@.len() && r@[j] == i,
        forall|j1: int, j2: int| 0 <= j1 < j2 < r@.len() ==> r@[j1] < r@[j2],
{
    let pattern: &str =
        "(?i)(api_key|password|secret|token|private_key).*=.*['\"\"][a-zA-Z0-9]{8,}['\"\"]";
    let mut out: Vec<usize> = Vec::new();
    let mut i: usize = 0;
    while i < lines.len()
        invariant
            i <= lines@.len(),
            pattern@ == secret_pattern(),
            forall|j: int| 0 <= j < out@.len() ==> out@[j] < i && regex_match_of(
                secret_pattern(),
                lines@[out@[j] as int]@,
            ),
            forall|t: int|
                0 <= t < i && regex_match_of(secret_pattern(), lines@[t]@)
                    ==> exists|j: int| 0 <= j < out@.len() && out@[j] == t,
            forall|j1: int, j2: int| 0 <= j1 < j2 < out@.len() ==> out@[j1] < out@[j2],
        decreases lines@.len() - i,
    {
        let matched = regex_is_match(pattern, lines[i].as_str());
        let ghost prev = out@;
        if matched {
            out.push(i);
        }
        proof {
            assert forall|t: int|
                0 <= t < i + 1 && regex_match_of(secret_pattern(), lines@[t]@)
            implies exists|j: int| 0 <= j < out@.len() && out@[j] == t by {
                if t < i as int {
                    let j0 = choose|j: int| 0 <= j < prev.len() && prev[j] == t;
                    assert(out@[j0] == t);
                } else {
                    assert(matched);
                    assert(out@[out@.len() - 1] == t);
                }
            }
        }
        i = i + 1;
    }
    out
}

/// Whether a directory entry of this name is left out of the scan: hidden
/// entries and the usual build or environment directories.
pub open spec fn spec_hidden(s: Seq<char>) -> bool {
    ||| (s.len() > 0 && s[0] == '.')
    ||| s == "target"@
    ||| s == "node_modules"@
    ||| s == "venv"@
    ||| s == ".venv"@
}

/// Whether the scan skips a directory entry of this name.
pub fn is_hidden_name(name: &str) -> (r: bool)
    ensures
        r == spec_hidden(name@),
{
    let m: usize = name.unicode_len();
    if m > 0 && name.get_char(0) == '.' {
        return true;
    }
    let n = String::from_str(name);
    if n == String::from_str("target") || n == String::from_str("node_modules") || n
        == String::from_str("venv") {
        return true;
    }
    proof {
        assert(name@ != ".venv"@) by {
            reveal_strlit(".venv");
            if name@ == ".venv"@ {
                assert(name@[0] == '.');
            }
        }
    }
    false
}

/// Whether files with this extension are searched for secrets.
pub open spec fn spec_scannable(s: Seq<char>) -> bool {
    ||| s == "rs"@
    ||| s == "py"@
    ||| s == "js"@
    ||| s == "ts"@
    ||| s == "env"@
    ||| s == "json"@
    ||| s == "toml"@
    ||| s == "yaml"@
    ||| s == "yml"@
}

/// Whether the secret scan reads files with this extension.
pub fn is_scannable_extension(ext: &str) -> (r: bool)
    ensures
        r == spec_scannable(ext@),
{
    let e = String::from_str(ext);
    e == String::from_str("rs") || e == String::from_str("py") || e == String::from_str("js") || e
        == String::from_str("ts") || e == String::from_str("env") || e == String::from_str("json")
        || e == String::from_str("toml") || e == String::from_str("yaml") || e == String::from_str(
        "yml",
    )
}

} // verus!
