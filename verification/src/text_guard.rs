//! Filename/text sanitizer: bounds the input's byte length, normalizes it,
//! removes control, bidirectional-override and path-hostile characters,
//! masks reserved device names, and renames the two dot path components.

use vstd::prelude::*;

use unicode_normalization::UnicodeNormalization;

verus! {

/// How many bytes one character occupies in UTF-8.
pub open spec fn char_width(c: char) -> nat {
    if (c as u32) < 0x80 {
        1
    } else if (c as u32) < 0x800 {
        2
    } else if (c as u32) < 0x10000 {
        3
    } else {
        4
    }
}

/// The UTF-8 byte length of a character sequence.
pub open spec fn text_bytes(s: Seq<char>) -> nat
    decreases s.len(),
{
    if s.len() == 0 {
        0
    } else {
        text_bytes(s.drop_last()) + char_width(s.last())
    }
}

/// Whether a byte budget of `n` falls on a character boundary of `s`, so
/// that cutting `s` down to `n` bytes is possible. Inputs whose budget
/// falls inside a character are excluded, as cutting them is undefined.
pub open spec fn can_cut(s: Seq<char>, n: nat) -> bool {
    text_bytes(s) > n ==> exists|k: int| 0 <= k <= s.len() && text_bytes(s.take(k)) == n
}

/// The character index at which a cut to `n` bytes lands.
pub open spec fn cut_point(s: Seq<char>, n: nat) -> int {
    choose|k: int| 0 <= k <= s.len() && text_bytes(s.take(k)) == n
}

/// `s` cut down to at most `n` bytes: unchanged when it already fits,
/// otherwise the prefix of exactly `n` bytes.
pub open spec fn cut(s: Seq<char>, n: nat) -> Seq<char> {
    if text_bytes(s) <= n {
        s
    } else {
        s.take(cut_point(s, n))
    }
}

/// The characters the sanitizer removes: control characters, the
/// bidirectional control characters, and characters with path or shell
/// meaning.
pub open spec fn forbidden(c: char) -> bool {
    ||| (c as u32) < 0x20
    ||| (0x7F <= (c as u32) && (c as u32) <= 0x9F)
    ||| (c as u32) == 0x200E
    ||| (c as u32) == 0x200F
    ||| (0x202A <= (c as u32) && (c as u32) <= 0x202E)
    ||| (0x2066 <= (c as u32) && (c as u32) <= 0x2069)
    ||| c == '/'
    ||| c == '\\'
    ||| c == ':'
    ||| c == '*'
    ||| c == '?'
    ||| c == '"'
    ||| c == '<'
    ||| c == '>'
    ||| c == '|'
}

/// `s` with every forbidden character removed, order kept.
pub open spec fn strip(s: Seq<char>) -> Seq<char>
    decreases s.len(),
{
    if s.len() == 0 {
        Seq::empty()
    } else if forbidden(s.last()) {
        strip(s.drop_last())
    } else {
        strip(s.drop_last()).push(s.last())
    }
}

/// ASCII upper-casing of one character; every character that can spell a
/// reserved device name is ASCII.
pub open spec fn upper_char(c: char) -> char {
    if 97 <= (c as u32) && (c as u32) <= 122 {
        (((c as u8) - 32) as char)
    } else {
        c
    }
}

/// Whether `s` is, case-insensitively, one of the reserved device names
/// CON, PRN, AUX, NUL, COM1-COM9 or LPT1-LPT9.
pub open spec fn is_reserved(s: Seq<char>) -> bool {
    ||| (s.len() == 3 && ((upper_char(s[0]) == 'C' && upper_char(s[1]) == 'O' && upper_char(s[2])
        == 'N') || (upper_char(s[0]) == 'P' && upper_char(s[1]) == 'R' && upper_char(s[2]) == 'N')
        || (upper_char(s[0]) == 'A' && upper_char(s[1]) == 'U' && upper_char(s[2]) == 'X') || (
    upper_char(s[0]) == 'N' && upper_char(s[1]) == 'U' && upper_char(s[2]) == 'L')))
    ||| (s.len() == 4 && ((upper_char(s[0]) == 'C' && upper_char(s[1]) == 'O' && upper_char(s[2])
        == 'M') || (upper_char(s[0]) == 'L' && upper_char(s[1]) == 'P' && upper_char(s[2]) == 'T'))
        && 49 <= (s[3] as u32) && (s[3] as u32) <= 57)
}

/// A reserved device name gets an underscore prefix; anything else passes.
pub open spec fn mask_reserved(s: Seq<char>) -> Seq<char> {
    if is_reserved(s) {
        seq!['_'] + s
    } else {
        s
    }
}

/// What NFC normalization (canonical decomposition then canonical
/// composition) of a character sequence yields.
pub uninterp spec fn nfc_of(s: Seq<char>) -> Seq<char>;

/// Relies on `unicode_normalization::UnicodeNormalization::nfc`: the
/// normalized form is a pure function of the characters alone, and an
/// empty input stays empty.
#[verifier::external_body]
fn normalize_nfc(s: &str) -> (r: String)
    ensures
        r@ == nfc_of(s@),
        s@.len() == 0 ==> r@.len() == 0,
{
    s.nfc().collect()
}

/// The whole sanitizer pipeline: cut to the byte budget, normalize, strip
/// forbidden characters, mask reserved device names, and rename the two
/// dot path components.
pub open spec fn sanitize_spec(n: nat, s: Seq<char>) -> Seq<char> {
    let kept = mask_reserved(strip(nfc_of(cut(s, n))));
    if kept == seq!['.'] {
        "file_dot"@
    } else if kept == seq!['.', '.'] {
        "file_dot_dot"@
    } else {
        kept
    }
}

/// Text sanitizer with a byte budget; immutable once built.
pub struct Sanitizer {
    pub max_len: usize,
}

impl Default for Sanitizer {
    /// The default budget of 4096 bytes.
    fn default() -> (r: Self)
        ensures
            r.max_len == 4096,
    {
        Sanitizer { max_len: 4096 }
    }
}

impl Sanitizer {
    /// A sanitizer with the default byte budget.
    pub fn new() -> (r: Self)
        ensures
            r.max_len == 4096,
    {
        Self::default()
    }

    /// Replace the byte budget.
    pub fn max_len(self, len: usize) -> (r: Self)
        ensures
            r.max_len == len,
    {
        Sanitizer { max_len: len }
    }

    /// Whether the sanitizer removes this character.
    pub fn is_forbidden_char(&self, c: char) -> (r: bool)
        ensures
            r == forbidden(c),
    {
        let x = c as u32;
        x < 0x20 || (0x7F <= x && x <= 0x9F) || x == 0x200E || x == 0x200F || (0x202A <= x && x
            <= 0x202E) || (0x2066 <= x && x <= 0x2069) || c == '/' || c == '\\' || c == ':' || c
            == '*' || c == '?' || c == '"' || c == '<' || c == '>' || c == '|'
    }

    /// Prefix a reserved device name with an underscore; leave every other
    /// name unchanged.
    pub fn mask_windows_reserved(&self, name: &str) -> (r: String)
        ensures
            r@ == mask_reserved(name@),
    {
        if is_reserved_name(name) {
            let mut out = String::from_str("_");
            out.append(name);
            proof {
                reveal_strlit("_");
                assert(out@ =~= seq!['_'] + name@);
            }
            out
        } else {
            String::from_str(name)
        }
    }

    /// Sanitize: cut to the byte budget, NFC-normalize, strip forbidden
    /// characters, mask reserved device names, rename `.` and `..`.
    pub fn sanitize(&self, input: &str) -> (r: String)
        requires
            can_cut(input@, self.max_len as nat),
        ensures
            r@ == sanitize_spec(self.max_len as nat, input@),
    {
        let t: &str = cut_text(input, self.max_len);
        let u: String = normalize_nfc(t);
        let f: Vec<char> = self.strip_forbidden_chars(u.as_str());
        let fs: String = crate::chars::chars_to_string(&f);
        let w: String = self.mask_windows_reserved(fs.as_str());
        let wl: usize = w.as_str().unicode_len();
        if wl == 1 && w.as_str().get_char(0) == '.' {
            proof {
                assert(w@ =~= seq!['.']);
            }
            return String::from_str("file_dot");
        }
        if wl == 2 && w.as_str().get_char(0) == '.' && w.as_str().get_char(1) == '.' {
            proof {
                assert(w@ =~= seq!['.', '.']);
            }
            return String::from_str("file_dot_dot");
        }
        proof {
            assert(w@ != seq!['.']) by {
                if w@ == seq!['.'] {
                    assert(w@.len() == 1 && w@[0] == '.');
                }
            }
            assert(w@ != seq!['.', '.']) by {
                if w@ == seq!['.', '.'] {
                    assert(w@.len() == 2 && w@[0] == '.' && w@[1] == '.');
                }
            }
        }
        w
    }

    /// Keep only the characters the sanitizer does not remove.
    fn strip_forbidden_chars(&self, s: &str) -> (v: Vec<char>)
        ensures
            v@ == strip(s@),
    {
        let m: usize = s.unicode_len();
        let mut v: Vec<char> = Vec::new();
        let mut i: usize = 0;
        while i < m
            invariant
                m == s@.len(),
                i <= m,
                v@ == strip(s@.take(i as int)),
            decreases m - i,
        {
            let c = s.get_char(i);
            proof {
                assert(s@.take(i + 1 as int).drop_last() =~= s@.take(i as int));
                assert(s@.take(i + 1 as int).last() == s@[i as int]);
            }
            if !self.is_forbidden_char(c) {
                v.push(c);
            }
            i = i + 1;
        }
        proof {
            assert(s@.take(m as int) =~= s@);
        }
        v
    }
}

/// Whether the name is, case-insensitively, a reserved device name.
fn is_reserved_name(name: &str) -> (r: bool)
    ensures
        r == is_reserved(name@),
{
    let m: usize = name.unicode_len();
    if m == 3 {
        let c0 = upper_char_exec(name.get_char(0));
        let c1 = upper_char_exec(name.get_char(1));
        let c2 = upper_char_exec(name.get_char(2));
        (c0 == 'C' && c1 == 'O' && c2 == 'N') || (c0 == 'P' && c1 == 'R' && c2 == 'N') || (c0
            == 'A' && c1 == 'U' && c2 == 'X') || (c0 == 'N' && c1 == 'U' && c2 == 'L')
    } else if m == 4 {
        let c0 = upper_char_exec(name.get_char(0));
        let c1 = upper_char_exec(name.get_char(1));
        let c2 = upper_char_exec(name.get_char(2));
        let x = name.get_char(3) as u32;
        ((c0 == 'C' && c1 == 'O' && c2 == 'M') || (c0 == 'L' && c1 == 'P' && c2 == 'T')) && 49
            <= x && x <= 57
    } else {
        false
    }
}

/// ASCII upper-casing of one character.
fn upper_char_exec(c: char) -> (r: char)
    ensures
        r == upper_char(c),
{
    let x = c as u32;
    if 97 <= x && x <= 122 {
        (((c as u8) - 32) as char)
    } else {
        c
    }
}

/// How many bytes one character occupies in UTF-8.
fn char_width_exec(c: char) -> (w: usize)
    ensures
        w == char_width(c),
{
    let x = c as u32;
    if x < 0x80 {
        1
    } else if x < 0x800 {
        2
    } else if x < 0x10000 {
        3
    } else {
        4
    }
}

/// One step of the byte count: extending a prefix by one character adds
/// that character's width.
proof fn lemma_text_bytes_step(s: Seq<char>, k: int)
    requires
        0 <= k < s.len(),
    ensures
        text_bytes(s.take(k + 1)) == text_bytes(s.take(k)) + char_width(s[k]),
{
    assert(s.take(k + 1).drop_last() =~= s.take(k));
    assert(s.take(k + 1).last() == s[k]);
}

/// The byte count of a prefix grows strictly with its length.
proof fn lemma_text_bytes_mono(s: Seq<char>, k1: int, k2: int)
    requires
        0 <= k1 <= k2 <= s.len(),
    ensures
        text_bytes(s.take(k1)) <= text_bytes(s.take(k2)),
        k1 < k2 ==> text_bytes(s.take(k1)) < text_bytes(s.take(k2)),
    decreases k2 - k1,
{
    if k1 < k2 {
        lemma_text_bytes_step(s, k2 - 1);
        lemma_text_bytes_mono(s, k1, k2 - 1);
        assert(char_width(s[k2 - 1]) >= 1);
    }
}

/// Cut the text down to at most `n` bytes, exactly as the byte budget of
/// the sanitizer demands.
fn cut_text(s: &str, n: usize) -> (t: &str)
    requires
        can_cut(s@, n as nat),
    ensures
        t@ == cut(s@, n as nat),
{
    let m: usize = s.unicode_len();
    let mut k: usize = 0;
    let mut sum: usize = 0;
    loop
        invariant
            m == s@.len(),
            k <= m,
            sum == text_bytes(s@.take(k as int)),
            sum <= n,
        ensures
            k <= m,
            sum == text_bytes(s@.take(k as int)),
            sum <= n,
            k < m ==> sum + char_width(s@[k as int]) > n,
        decreases m - k,
    {
        if k >= m {
            break;
        }
        let c = s.get_char(k);
        let w = char_width_exec(c);
        if w > n - sum {
            break;
        }
        proof {
            lemma_text_bytes_step(s@, k as int);
        }
        sum = sum + w;
        k = k + 1;
    }
    proof {
        assert(s@.take(m as int) =~= s@);
        if text_bytes(s@) <= n as nat {
            if k < m {
                lemma_text_bytes_step(s@, k as int);
                lemma_text_bytes_mono(s@, k + 1, m as int);
                assert(false);
            }
        } else {
            assert(k < m) by {
                if k == m {
                    assert(sum == text_bytes(s@));
                }
            }
            assert(sum == n) by {
                if sum < n {
                    let k0 = choose|k0: int|
                        0 <= k0 <= s@.len() && text_bytes(s@.take(k0)) == n as nat;
                    if k0 <= k as int {
                        lemma_text_bytes_mono(s@, k0, k as int);
                    } else {
                        lemma_text_bytes_mono(s@, k + 1, k0);
                        lemma_text_bytes_step(s@, k as int);
                    }
                }
            }
            let kp = cut_point(s@, n as nat);
            assert(0 <= kp <= s@.len() && text_bytes(s@.take(kp)) == n as nat) by {
                assert(0 <= k as int <= s@.len() && text_bytes(s@.take(k as int)) == n as nat);
            }
            assert(kp == k as int) by {
                if kp < k as int {
                    lemma_text_bytes_mono(s@, kp, k as int);
                } else if kp > k as int {
                    lemma_text_bytes_mono(s@, k as int, kp);
                }
            }
        }
    }
    let t = s.substring_char(0, k);
    proof {
        assert(t@ =~= s@.take(k as int));
    }
    t
}

} // verus!
