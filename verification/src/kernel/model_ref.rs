//! Names a model the way a user does: `hf:owner/repo`, `./file.gguf`,
//! `ollama:llama3.2`. Validated on construction so that a ref can go into a
//! URL, a file name or a log line without a second check.
use vstd::prelude::*;
use vstd::string::*;

use crate::kernel::error::{Error, Result};
use crate::text::{chars_of, debug_quoted, debug_str, string_from_chars};

verus! {

/// A token id.
pub type TokenId = u32;

/// Unicode `White_Space`, which is what `char::is_whitespace` and
/// `str::trim` test.
pub open spec fn is_white_space(c: char) -> bool {
    let u = c as u32;
    ||| 0x9 <= u <= 0xD
    ||| u == 0x20
    ||| u == 0x85
    ||| u == 0xA0
    ||| u == 0x1680
    ||| 0x2000 <= u <= 0x200A
    ||| u == 0x2028
    ||| u == 0x2029
    ||| u == 0x202F
    ||| u == 0x205F
    ||| u == 0x3000
}

/// The Unicode general category `Cc`, which is what `char::is_control` tests.
pub open spec fn is_control_char(c: char) -> bool {
    let u = c as u32;
    u <= 0x1F || (0x7F <= u <= 0x9F)
}

pub fn white_space(c: char) -> (b: bool)
    ensures
        b == is_white_space(c),
{
    let u = c as u32;
    (0x9 <= u && u <= 0xD) || u == 0x20 || u == 0x85 || u == 0xA0 || u == 0x1680 || (0x2000 <= u
        && u <= 0x200A) || u == 0x2028 || u == 0x2029 || u == 0x202F || u == 0x205F || u == 0x3000
}

pub fn control_char(c: char) -> (b: bool)
    ensures
        b == is_control_char(c),
{
    let u = c as u32;
    u <= 0x1F || (0x7F <= u && u <= 0x9F)
}

/// The number of white-space characters `s` starts with.
pub open spec fn leading_ws(s: Seq<char>) -> nat
    decreases s.len(),
{
    if s.len() > 0 && is_white_space(s[0]) {
        1 + leading_ws(s.drop_first())
    } else {
        0
    }
}

/// The number of white-space characters `s` ends with.
pub open spec fn trailing_ws(s: Seq<char>) -> nat
    decreases s.len(),
{
    if s.len() > 0 && is_white_space(s.last()) {
        1 + trailing_ws(s.drop_last())
    } else {
        0
    }
}

/// `str::trim`: `s` without its leading and trailing white space.
pub open spec fn trimmed(s: Seq<char>) -> Seq<char> {
    if leading_ws(s) == s.len() {
        Seq::empty()
    } else {
        s.subrange(leading_ws(s) as int, s.len() - trailing_ws(s))
    }
}

proof fn lemma_leading(s: Seq<char>, i: int)
    requires
        0 <= i <= s.len(),
        forall|j: int| 0 <= j < i ==> is_white_space(#[trigger] s[j]),
        i == s.len() || !is_white_space(s[i]),
    ensures
        leading_ws(s) == i,
    decreases i,
{
    if i > 0 {
        lemma_leading(s.drop_first(), i - 1);
    }
}

proof fn lemma_trailing(s: Seq<char>, k: int)
    requires
        0 <= k <= s.len(),
        forall|j: int| s.len() - k <= j < s.len() ==> is_white_space(#[trigger] s[j]),
        k == s.len() || !is_white_space(s[s.len() - k - 1]),
    ensures
        trailing_ws(s) == k,
    decreases k,
{
    if k > 0 {
        lemma_trailing(s.drop_last(), k - 1);
    }
}

proof fn lemma_leading_bound(s: Seq<char>)
    ensures
        leading_ws(s) <= s.len(),
        forall|j: int| 0 <= j < leading_ws(s) ==> is_white_space(#[trigger] s[j]),
        leading_ws(s) < s.len() ==> !is_white_space(s[leading_ws(s) as int]),
    decreases s.len(),
{
    if s.len() > 0 && is_white_space(s[0]) {
        lemma_leading_bound(s.drop_first());
        assert forall|j: int| 0 <= j < leading_ws(s) implies is_white_space(#[trigger] s[j]) by {
            if j > 0 {
                assert(s[j] == s.drop_first()[j - 1]);
            }
        }
    }
}

proof fn lemma_trailing_bound(s: Seq<char>)
    ensures
        trailing_ws(s) <= s.len(),
        leading_ws(s) < s.len() ==> leading_ws(s) + trailing_ws(s) < s.len(),
    decreases s.len(),
{
    lemma_leading_bound(s);
    if s.len() > 0 && is_white_space(s.last()) {
        lemma_trailing_bound(s.drop_last());
        if leading_ws(s) < s.len() {
            let l = leading_ws(s) as int;
            assert(s.drop_last().len() == s.len() - 1);
            assert(!is_white_space(s[l]));
            assert(l != s.len() - 1);
            assert(s.drop_last()[l] == s[l]);
            assert(forall|j: int| 0 <= j < l ==> s.drop_last()[j] == s[j]);
            lemma_leading(s.drop_last(), l);
        }
    }
}

/// `s.trim()`: `s` without leading and trailing white space.
pub fn trim_text(s: &str) -> (r: String)
    ensures
        r@ == trimmed(s@),
{
    let v = chars_of(s);
    let n = v.len();
    let mut start: usize = 0;
    while start < n && white_space(v[start])
        invariant
            n == v@.len(),
            start <= n,
            forall|j: int| 0 <= j < start ==> is_white_space(#[trigger] v@[j]),
        decreases n - start,
    {
        start += 1;
    }
    proof {
        lemma_leading(v@, start as int);
    }
    if start == n {
        assert(trimmed(s@) =~= Seq::<char>::empty());
        return String::new();
    }
    let mut end: usize = n;
    while end > start && white_space(v[end - 1])
        invariant
            n == v@.len(),
            start < n,
            start <= end <= n,
            forall|j: int| end <= j < n ==> is_white_space(#[trigger] v@[j]),
        decreases end,
    {
        end -= 1;
    }
    proof {
        lemma_leading_bound(v@);
        if end == start {
            assert(is_white_space(v@[start as int]));
            assert(false);
        }
        lemma_trailing(v@, (n - end) as int);
    }
    string_from_chars(&v, start, end)
}

/// A model ref: the trimmed text a user typed, non-empty and free of white
/// space and control characters.
#[derive(Debug, Clone, PartialEq, Eq, Hash)]
pub struct ModelRef(String);

impl View for ModelRef {
    type V = Seq<char>;

    closed spec fn view(&self) -> Seq<char> {
        self.0@
    }
}

/// Whether `t` may be a model ref as it stands.
pub open spec fn acceptable_ref(t: Seq<char>) -> bool {
    t.len() > 0 && forall|i: int|
        0 <= i < t.len() ==> !is_white_space(#[trigger] t[i]) && !is_control_char(t[i])
}

impl ModelRef {
    /// Trim `s`, then reject it if nothing is left or if white space or a
    /// control character remains inside.
    pub fn new(s: &str) -> (r: Result<Self>)
        ensures
            r is Ok <==> acceptable_ref(trimmed(s@)),
            r matches Ok(m) ==> m@ == trimmed(s@),
            r matches Err(e) ==> e matches Error::Invalid(m) && (if trimmed(s@).len() == 0 {
                m@ == "model ref is empty"@
            } else {
                m@ == "model ref "@ + debug_quoted(trimmed(s@))
                    + " contains whitespace or control characters"@
            }),
    {
        let t = trim_text(s);
        if t.as_str().is_empty() {
            return Err(Error::invalid("model ref is empty"));
        }
        let v = chars_of(t.as_str());
        let mut i: usize = 0;
        while i < v.len()
            invariant
                i <= v@.len(),
                v@ == t@,
                t@ == trimmed(s@),
                forall|j: int|
                    0 <= j < i ==> !is_white_space(#[trigger] v@[j]) && !is_control_char(v@[j]),
            decreases v@.len() - i,
        {
            if white_space(v[i]) || control_char(v[i]) {
                let mut m = "model ref ".to_owned();
                let q = debug_str(t.as_str());
                m.append(q.as_str());
                m.append(" contains whitespace or control characters");
                return Err(Error::Invalid(m));
            }
            i += 1;
        }
        Ok(ModelRef(t))
    }

    pub fn as_str(&self) -> (s: &str)
        ensures
            s@ == self@,
    {
        self.0.as_str()
    }
}

} // verus!
