//! Tags and their files.
//!
//! A tag names one recurring task ("evry 2 weeks -scrapesite": the tag is
//! "scrapesite") and maps to a single file under the user's data
//! directory holding the epoch milliseconds of the task's last
//! successful run.  This module owns the pure part of that mapping:
//! computing a tag's file path from the data directory, and reading a
//! millisecond value out of a tag file's text.  The caller owns the
//! filesystem itself — existence checks, reads and writes.

use vstd::prelude::*;
use crate::text;

verus! {

/// The user data directory that tag files live in.  Resolving it on a
/// concrete platform is the caller's job; the library only concatenates
/// paths under it.
#[derive(Debug)]
pub struct LocalDir {
    pub data_dir: String,
}

/// The file path of the tag named `name` under `data_dir`.
pub open spec fn spec_tag_path(data_dir: Seq<char>, name: Seq<char>) -> Seq<char> {
    data_dir + "/"@ + name
}

/// A 'tag' names one recurring task, and differentiates runs of
/// different tasks from each other.  It holds the tag's name and the
/// computed location of its file.
#[derive(Debug)]
pub struct Tag {
    pub name: String,
    pub path: String,
}

impl Tag {
    /// Creates a new tag, resolving its `path` under the data directory.
    pub fn new(name: String, local_dir: &LocalDir) -> (t: Tag)
        ensures
            t.name@ == name@,
            t.path@ == spec_tag_path(local_dir.data_dir@, name@),
    {
        let mut path = local_dir.data_dir.clone();
        path.append("/");
        path.append(name.as_str());
        Tag { name, path }
    }
}

pub open spec fn spec_skip_spaces(s: Seq<char>, i: int) -> int
    decreases s.len() - i,
{
    if i < s.len() && text::spec_is_space(s[i]) {
        spec_skip_spaces(s, i + 1)
    } else {
        i
    }
}

pub open spec fn spec_rskip_spaces(s: Seq<char>, j: int) -> int
    decreases j,
{
    if 0 < j <= s.len() && text::spec_is_space(s[j - 1]) {
        spec_rskip_spaces(s, j - 1)
    } else {
        j
    }
}

/// `s` with leading and trailing ASCII whitespace removed.
pub open spec fn spec_trimmed(s: Seq<char>) -> Seq<char> {
    let a = spec_skip_spaces(s, 0);
    let b = spec_rskip_spaces(s, s.len() as int);
    if a < b {
        s.subrange(a, b)
    } else {
        Seq::empty()
    }
}

/// What a well-formed tag file holds: a decimal millisecond count,
/// surrounded by optional whitespace.  `None` for anything else —
/// no value is ever guessed at.
pub open spec fn spec_parse_millis_text(s: Seq<char>) -> Option<u128> {
    let t = spec_trimmed(s);
    if t.len() > 0 && (forall|k: int| 0 <= k < t.len() ==> text::spec_is_digit(#[trigger] t[k]))
        && text::spec_digits_value(t) <= u128::MAX {
        Some(text::spec_digits_value(t) as u128)
    } else {
        None
    }
}

proof fn lemma_rskip_spaces_bounds(s: Seq<char>, j: int)
    ensures
        spec_rskip_spaces(s, j) <= j,
        0 <= j ==> 0 <= spec_rskip_spaces(s, j),
    decreases j,
{
    if 0 < j <= s.len() && text::spec_is_space(s[j - 1]) {
        lemma_rskip_spaces_bounds(s, j - 1);
    }
}

/// Parses the text read from a tag file: the persisted epoch-millisecond
/// value when the (whitespace-trimmed) text is a plain decimal number in
/// range, `None` otherwise.
pub fn parse_epoch_millis(contents: &str) -> (r: Option<u128>)
    ensures
        r == spec_parse_millis_text(contents@),
{
    let ghost s = contents@;
    let v = text::str_to_chars(contents);
    let n = v.len();
    let mut a: usize = 0;
    while a < n
        invariant
            v@ == s,
            n == s.len(),
            a <= n,
            spec_skip_spaces(s, 0) == spec_skip_spaces(s, a as int),
        ensures
            v@ == s,
            n == s.len(),
            a <= n,
            spec_skip_spaces(s, 0) == a as int,
            a == n || !text::spec_is_space(s[a as int]),
        decreases n - a,
    {
        if !text::is_space_char(v[a]) {
            break ;
        }
        a += 1;
    }
    if a == n {
        // blank: the trim leaves nothing
        proof {
            lemma_rskip_spaces_bounds(s, s.len() as int);
        }
        return None;
    }
    let mut b: usize = n;
    while b > a
        invariant
            v@ == s,
            n == s.len(),
            a < n,
            !text::spec_is_space(s[a as int]),
            a < b <= n,
            spec_rskip_spaces(s, n as int) == spec_rskip_spaces(s, b as int),
        ensures
            v@ == s,
            n == s.len(),
            a < b <= n,
            spec_rskip_spaces(s, n as int) == b as int,
        decreases b,
    {
        if !text::is_space_char(v[b - 1]) {
            break ;
        }
        proof {
            assert(b - 1 > a || !text::spec_is_space(s[b - 1]));
        }
        b -= 1;
    }
    let ghost t = spec_trimmed(s);
    proof {
        assert(t =~= s.subrange(a as int, b as int));
    }
    let mut value: u128 = 0;
    let mut over: bool = false;
    let mut k: usize = a;
    while k < b
        invariant
            s == contents@,
            v@ == s,
            n == s.len(),
            a < b <= n,
            a <= k <= b,
            t == s.subrange(a as int, b as int),
            t == spec_trimmed(s),
            forall|j: int| 0 <= j < k - a ==> text::spec_is_digit(#[trigger] t[j]),
            !over ==> value == text::spec_digits_value(t.take(k - a)),
            over ==> text::spec_digits_value(t.take(k - a)) > u128::MAX,
        decreases b - k,
    {
        let c = v[k];
        if !text::is_digit_char(c) {
            proof {
                assert(t[k - a] == s[k as int]);
            }
            return None;
        }
        let d = text::digit_val(c);
        proof {
            assert(t.take(k - a + 1).drop_last() =~= t.take(k - a));
            assert(t.take(k - a + 1).last() == s[k as int]);
        }
        if !over {
            match value.checked_mul(10) {
                Some(v10) => match v10.checked_add(d) {
                    Some(w) => {
                        value = w;
                    },
                    None => {
                        over = true;
                    },
                },
                None => {
                    over = true;
                },
            }
        }
        k += 1;
    }
    proof {
        assert(t.take(b - a) =~= t);
    }
    if over {
        None
    } else {
        Some(value)
    }
}

} // verus!
