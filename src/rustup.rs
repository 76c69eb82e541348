//! Reading the output of `rustup target list`.

use vstd::prelude::*;
use crate::text::{chars_of, contains, contains_spec};

verus! {

/// `[a, b)` is a line of `s`: it starts the text or follows a `'\n'`, holds no
/// `'\n'`, and ends the text or stops at one.
pub open spec fn line_at(s: Seq<char>, a: int, b: int) -> bool {
    &&& 0 <= a <= b <= s.len()
    &&& a == 0 || s[a - 1] == '\n'
    &&& b == s.len() || s[b] == '\n'
    &&& forall|k: int| a <= k < b ==> s[k] != '\n'
}

/// The text of the line `[a, b)`, without the `'\r'` of a `"\r\n"` ending.
pub open spec fn line_text(s: Seq<char>, a: int, b: int) -> Seq<char> {
    if b < s.len() && b > a && s[b - 1] == '\r' {
        s.subrange(a, b - 1)
    } else {
        s.subrange(a, b)
    }
}

/// The line names `target` and marks it installed.
pub open spec fn marks_installed(s: Seq<char>, a: int, b: int, target: Seq<char>) -> bool {
    contains_spec(line_text(s, a, b), target) && contains_spec(line_text(s, a, b), "(installed)"@)
}

/// Some line of the listing names `target` and marks it installed.
pub open spec fn target_installed_spec(list: Seq<char>, target: Seq<char>) -> bool {
    exists|a: int, b: int| line_at(list, a, b) && marks_installed(list, a, b, target)
}

fn copy_range(s: &Vec<char>, a: usize, b: usize) -> (r: Vec<char>)
    requires
        a <= b <= s@.len(),
    ensures
        r@ == s@.subrange(a as int, b as int),
{
    let mut out: Vec<char> = Vec::new();
    let mut k: usize = a;
    while k < b
        invariant
            a <= k <= b <= s@.len(),
            out@ == s@.subrange(a as int, k as int),
        decreases b - k,
    {
        out.push(s[k]);
        k = k + 1;
        proof {
            assert(out@ =~= s@.subrange(a as int, k as int));
        }
    }
    out
}

/// Whether the listing that `rustup target list` printed has a line that holds
/// `target` and `(installed)`.
pub fn is_target_installed(target: &str, target_list: &str) -> (r: bool)
    ensures
        r == target_installed_spec(target_list@, target@),
{
    let s = chars_of(target_list);
    let t = chars_of(target);
    let installed = chars_of("(installed)");
    let n = s.len();
    let mut a: usize = 0;
    loop
        invariant
            n == s@.len(),
            s@ == target_list@,
            t@ == target@,
            installed@ == "(installed)"@,
            a <= n,
            a == 0 || s@[a - 1] == '\n',
            forall|a2: int, b2: int|
                #![trigger line_at(s@, a2, b2)]
                line_at(s@, a2, b2) && a2 < a ==> !marks_installed(s@, a2, b2, t@),
        decreases n - a,
    {
        let mut b: usize = a;
        while b < n && s[b] != '\n'
            invariant
                n == s@.len(),
                a <= b <= n,
                forall|k: int| a <= k < b ==> s@[k] != '\n',
            decreases n - b,
        {
            b = b + 1;
        }
        proof {
            assert(line_at(s@, a as int, b as int));
        }
        let end = if b < n && b > a && s[b - 1] == '\r' {
            b - 1
        } else {
            b
        };
        let text = copy_range(&s, a, end);
        proof {
            assert(text@ == line_text(s@, a as int, b as int));
        }
        if contains(&text, &t) && contains(&text, &installed) {
            proof {
                assert(line_at(target_list@, a as int, b as int));
            }
            return true;
        }
        proof {
            assert forall|a2: int, b2: int|
                #![trigger line_at(s@, a2, b2)]
                line_at(s@, a2, b2) && a2 < b + 1 implies !marks_installed(s@, a2, b2, t@) by {
                if a2 >= a {
                    if a2 > a {
                        assert(s@[a2 - 1] != '\n');
                    }
                    if b2 < b {
                        assert(s@[b2] != '\n');
                    }
                    if b2 > b {
                        assert(s@[b as int] != '\n');
                    }
                }
            }
        }
        if b == n {
            proof {
                assert forall|a2: int, b2: int| line_at(s@, a2, b2) implies !marks_installed(
                    s@,
                    a2,
                    b2,
                    t@,
                ) by {
                    assert(line_at(s@, a2, b2));
                }
            }
            return false;
        }
        a = b + 1;
    }
}

} // verus!
