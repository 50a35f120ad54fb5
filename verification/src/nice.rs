//! A standalone string validator used by one of the service's
//! request/response endpoints: a "nice" string has at least three vowels, a
//! doubled ASCII letter, and none of the forbidden letter pairs.

use vstd::prelude::*;
use vstd::string::StrSliceExecFns;

verus! {

/// The vowels, `y` counted among them.
pub open spec fn is_vowel(c: char) -> bool {
    c == 'a' || c == 'e' || c == 'i' || c == 'o' || c == 'u' || c == 'y'
}

/// An ASCII letter, of either case.
pub open spec fn is_ascii_alpha(c: char) -> bool {
    (97 <= c as u32 && c as u32 <= 122) || (65 <= c as u32 && c as u32 <= 90)
}

/// How many vowels a string holds.
pub open spec fn count_vowels(s: Seq<char>) -> nat
    decreases s.len(),
{
    if s.len() == 0 {
        0
    } else {
        count_vowels(s.drop_last()) + if is_vowel(s.last()) {
            1nat
        } else {
            0nat
        }
    }
}

/// Some ASCII letter appears twice in a row.
pub open spec fn has_double(s: Seq<char>) -> bool {
    exists|j: int|
        #![trigger s[j], s[j + 1]]
        0 <= j && j + 1 < s.len() && s[j] == s[j + 1] && is_ascii_alpha(s[j])
}

/// The characters `a` and `b` appear adjacently, in that order.
pub open spec fn has_pair(s: Seq<char>, a: char, b: char) -> bool {
    exists|j: int|
        #![trigger s[j], s[j + 1]]
        0 <= j && j + 1 < s.len() && s[j] == a && s[j + 1] == b
}

/// A nice string: at least three vowels, a doubled ASCII letter, and none of
/// the substrings `ab`, `cd`, `pq` or `xy`.
pub open spec fn is_nice(s: Seq<char>) -> bool {
    &&& count_vowels(s) >= 3
    &&& has_double(s)
    &&& !has_pair(s, 'a', 'b')
    &&& !has_pair(s, 'c', 'd')
    &&& !has_pair(s, 'p', 'q')
    &&& !has_pair(s, 'x', 'y')
}

/// Counting one more character adds its vowel count.
proof fn lemma_count_vowels_step(s: Seq<char>, i: int)
    requires
        0 <= i < s.len(),
    ensures
        count_vowels(s.take(i + 1)) == count_vowels(s.take(i)) + if is_vowel(s[i]) {
            1int
        } else {
            0int
        },
{
    assert(s.take(i + 1).drop_last() =~= s.take(i));
    assert(s.take(i + 1).last() == s[i]);
}

fn is_vowel_exec(c: char) -> (r: bool)
    ensures
        r == is_vowel(c),
{
    c == 'a' || c == 'e' || c == 'i' || c == 'o' || c == 'u' || c == 'y'
}

fn is_ascii_alpha_exec(c: char) -> (r: bool)
    ensures
        r == is_ascii_alpha(c),
{
    let x = c as u32;
    (97 <= x && x <= 122) || (65 <= x && x <= 90)
}

/// Decide whether `s` is nice, exactly as [`is_nice`] states it.
pub fn is_nice_string(s: &str) -> (r: bool)
    ensures
        r == is_nice(s@),
{
    let n = s.unicode_len();
    let mut vowels: usize = 0;
    let mut i: usize = 0;
    while i < n
        invariant
            n == s@.len(),
            i <= n,
            vowels <= i,
            vowels == count_vowels(s@.take(i as int)),
        decreases n - i,
    {
        let c = s.get_char(i);
        proof {
            lemma_count_vowels_step(s@, i as int);
        }
        if is_vowel_exec(c) {
            vowels = vowels + 1;
        }
        i = i + 1;
    }
    proof {
        assert(s@.take(n as int) =~= s@);
    }
    let mut double = false;
    let mut bad = false;
    let mut k: usize = 1;
    while k < n
        invariant
            n == s@.len(),
            1 <= k,
            n > 0 ==> k <= n,
            double == (exists|j: int|
                #![trigger s@[j], s@[j + 1]]
                0 <= j && j + 1 < k && s@[j] == s@[j + 1] && is_ascii_alpha(s@[j])),
            bad == {
                ||| (exists|j: int|
                    #![trigger s@[j], s@[j + 1]]
                    0 <= j && j + 1 < k && s@[j] == 'a' && s@[j + 1] == 'b')
                ||| (exists|j: int|
                    #![trigger s@[j], s@[j + 1]]
                    0 <= j && j + 1 < k && s@[j] == 'c' && s@[j + 1] == 'd')
                ||| (exists|j: int|
                    #![trigger s@[j], s@[j + 1]]
                    0 <= j && j + 1 < k && s@[j] == 'p' && s@[j + 1] == 'q')
                ||| (exists|j: int|
                    #![trigger s@[j], s@[j + 1]]
                    0 <= j && j + 1 < k && s@[j] == 'x' && s@[j + 1] == 'y')
            },
        decreases n - k,
    {
        let c = s.get_char(k - 1);
        let d = s.get_char(k);
        proof {
            let j = k as int - 1;
            assert(s@[j] == c);
            assert(s@[j + 1] == d);
        }
        if c == d && is_ascii_alpha_exec(c) {
            double = true;
        }
        if (c == 'a' && d == 'b') || (c == 'c' && d == 'd') || (c == 'p' && d == 'q') || (c == 'x'
            && d == 'y') {
            bad = true;
        }
        k = k + 1;
    }
    vowels >= 3 && double && !bad
}

} // verus!
