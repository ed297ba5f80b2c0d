//! Character classes and trimming over Unicode scalar values.

use vstd::prelude::*;
use vstd::std_specs::iter::IteratorSpec;
use vstd::string::{StrSliceExecFns, StringExecFns};

verus! {

/// The Unicode `White_Space` property.
pub open spec fn is_white_space_spec(c: char) -> bool {
    let u = c as u32;
    ||| 0x09 <= u <= 0x0d
    ||| u == 0x20
    ||| u == 0x85
    ||| u == 0xa0
    ||| u == 0x1680
    ||| 0x2000 <= u <= 0x200a
    ||| u == 0x2028
    ||| u == 0x2029
    ||| u == 0x202f
    ||| u == 0x205f
    ||| u == 0x3000
}

/// Whether `c` has the Unicode `White_Space` property.
pub fn is_white_space(c: char) -> (res: bool)
    ensures
        res == is_white_space_spec(c),
{
    let u = c as u32;
    (0x09 <= u && u <= 0x0d) || u == 0x20 || u == 0x85 || u == 0xa0 || u == 0x1680 || (0x2000
        <= u && u <= 0x200a) || u == 0x2028 || u == 0x2029 || u == 0x202f || u == 0x205f || u
        == 0x3000
}


/// The Unicode general category `Cc` (control codes).
pub open spec fn is_control_spec(c: char) -> bool {
    let u = c as u32;
    u <= 0x1f || (0x7f <= u && u <= 0x9f)
}

/// Whether `c` is a control code (general category `Cc`).
pub fn is_control(c: char) -> (res: bool)
    ensures
        res == is_control_spec(c),
{
    let u = c as u32;
    u <= 0x1f || (0x7f <= u && u <= 0x9f)
}

/// Whether some character of `s` is a control code.
pub open spec fn has_control(s: Seq<char>) -> bool {
    exists|i: int| 0 <= i < s.len() && is_control_spec(#[trigger] s[i])
}

/// `s` without its leading white space.
pub open spec fn trim_start(s: Seq<char>) -> Seq<char>
    decreases s.len(),
{
    if s.len() > 0 && is_white_space_spec(s[0]) {
        trim_start(s.drop_first())
    } else {
        s
    }
}

/// `s` without its trailing white space.
pub open spec fn trim_end(s: Seq<char>) -> Seq<char>
    decreases s.len(),
{
    if s.len() > 0 && is_white_space_spec(s.last()) {
        trim_end(s.drop_last())
    } else {
        s
    }
}

/// `s` without its leading and trailing white space.
pub open spec fn trimmed(s: Seq<char>) -> Seq<char> {
    trim_end(trim_start(s))
}

proof fn lemma_trim_start_skip(s: Seq<char>, k: int)
    requires
        0 <= k <= s.len(),
        forall|j: int| 0 <= j < k ==> is_white_space_spec(#[trigger] s[j]),
    ensures
        trim_start(s) == trim_start(s.subrange(k, s.len() as int)),
    decreases k,
{
    if k > 0 {
        let rest = s.drop_first();
        assert forall|j: int| 0 <= j < k - 1 implies is_white_space_spec(#[trigger] rest[j]) by {
            assert(rest[j] == s[j + 1]);
        }
        lemma_trim_start_skip(rest, k - 1);
        assert(rest.subrange(k - 1, rest.len() as int) =~= s.subrange(k, s.len() as int));
        assert(is_white_space_spec(s[0]));
    } else {
        assert(s.subrange(0, s.len() as int) =~= s);
    }
}

proof fn lemma_trim_end_skip(s: Seq<char>, k: int)
    requires
        0 <= k <= s.len(),
        forall|j: int| k <= j < s.len() ==> is_white_space_spec(#[trigger] s[j]),
    ensures
        trim_end(s) == trim_end(s.subrange(0, k)),
    decreases s.len() - k,
{
    if k < s.len() {
        let init = s.drop_last();
        assert forall|j: int| k <= j < init.len() implies is_white_space_spec(#[trigger] init[j]) by {
            assert(init[j] == s[j]);
        }
        lemma_trim_end_skip(init, k);
        assert(init.subrange(0, k) =~= s.subrange(0, k));
        assert(is_white_space_spec(s[s.len() - 1]));
    } else {
        assert(s.subrange(0, s.len() as int) =~= s);
    }
}

/// The slice of `s` left when leading and trailing white space is removed.
pub fn trim<'a>(s: &'a str) -> (res: &'a str)
    ensures
        res@ == trimmed(s@),
{
    broadcast use vstd::string::group_string_axioms;

    let n = s.unicode_len();
    let mut chars = s.chars();
    let mut i: usize = 0;
    let mut found = false;
    let mut start: usize = 0;
    let mut end: usize = 0;
    loop
        invariant
            i <= n,
            n == s@.len(),
            chars.remaining() == s@.subrange(i as int, n as int),
            !found ==> start == 0 && end == 0,
            !found ==> forall|j: int| 0 <= j < i ==> is_white_space_spec(#[trigger] s@[j]),
            found ==> start < end <= i,
            found ==> !is_white_space_spec(s@[start as int]),
            found ==> !is_white_space_spec(s@[end - 1]),
            found ==> forall|j: int| 0 <= j < start ==> is_white_space_spec(#[trigger] s@[j]),
            found ==> forall|j: int| end <= j < i ==> is_white_space_spec(#[trigger] s@[j]),
        ensures
            i == n,
            !found ==> start == 0 && end == 0,
            !found ==> forall|j: int| 0 <= j < n ==> is_white_space_spec(#[trigger] s@[j]),
            found ==> start < end <= n,
            found ==> !is_white_space_spec(s@[start as int]),
            found ==> !is_white_space_spec(s@[end - 1]),
            found ==> forall|j: int| 0 <= j < start ==> is_white_space_spec(#[trigger] s@[j]),
            found ==> forall|j: int| end <= j < n ==> is_white_space_spec(#[trigger] s@[j]),
        decreases n - i,
    {
        match chars.next() {
            None => {
                break ;
            },
            Some(c) => {
                assert(c == s@[i as int]);
                if !is_white_space(c) {
                    if !found {
                        found = true;
                        start = i;
                    }
                    end = i + 1;
                }
                i = i + 1;
            },
        }
    }
    proof {
        if found {
            lemma_trim_start_skip(s@, start as int);
            let rest = s@.subrange(start as int, n as int);
            assert(rest[0] == s@[start as int]);
            assert(trim_start(rest) == rest);
            assert forall|j: int| end - start <= j < rest.len() implies is_white_space_spec(
                #[trigger] rest[j],
            ) by {
                assert(rest[j] == s@[start + j]);
            }
            lemma_trim_end_skip(rest, end - start);
            let kept = s@.subrange(start as int, end as int);
            assert(rest.subrange(0, end - start) =~= kept);
            assert(kept.last() == s@[end - 1]);
            assert(trim_end(kept) == kept);
        } else {
            lemma_trim_start_skip(s@, n as int);
            let none = s@.subrange(n as int, n as int);
            assert(trim_start(none) == none);
            assert(trim_end(none) == none);
            assert(s@.subrange(0, 0) =~= none);
        }
    }
    s.substring_char(start, end)
}

/// Whether some character of `s` is a control code.
pub fn contains_control(s: &str) -> (res: bool)
    ensures
        res == has_control(s@),
{
    broadcast use vstd::string::group_string_axioms;

    let mut chars = s.chars();
    let ghost mut i: int = 0;
    loop
        invariant
            0 <= i <= s@.len(),
            chars.remaining() == s@.subrange(i, s@.len() as int),
            forall|j: int| 0 <= j < i ==> !is_control_spec(#[trigger] s@[j]),
        decreases s@.len() - i,
    {
        match chars.next() {
            None => {
                return false;
            },
            Some(c) => {
                if is_control(c) {
                    assert(s@[i] == c);
                    return true;
                }
                proof {
                    i = i + 1;
                }
            },
        }
    }
}

/// The decimal digit that stands for `d`, where `d < 10`.
pub open spec fn digit_char(d: nat) -> char {
    if d == 0 {
        '0'
    } else if d == 1 {
        '1'
    } else if d == 2 {
        '2'
    } else if d == 3 {
        '3'
    } else if d == 4 {
        '4'
    } else if d == 5 {
        '5'
    } else if d == 6 {
        '6'
    } else if d == 7 {
        '7'
    } else if d == 8 {
        '8'
    } else {
        '9'
    }
}

/// The decimal notation of `n`, most significant digit first, without leading zeros.
pub open spec fn decimal(n: nat) -> Seq<char>
    decreases n,
{
    if n < 10 {
        seq![digit_char(n)]
    } else {
        decimal(n / 10) + seq![digit_char(n % 10)]
    }
}

fn digit_str(d: usize) -> (res: &'static str)
    requires
        d < 10,
    ensures
        res@ == seq![digit_char(d as nat)],
{
    if d == 0 {
        proof {
            reveal_strlit("0");
        }
        "0"
    } else if d == 1 {
        proof {
            reveal_strlit("1");
        }
        "1"
    } else if d == 2 {
        proof {
            reveal_strlit("2");
        }
        "2"
    } else if d == 3 {
        proof {
            reveal_strlit("3");
        }
        "3"
    } else if d == 4 {
        proof {
            reveal_strlit("4");
        }
        "4"
    } else if d == 5 {
        proof {
            reveal_strlit("5");
        }
        "5"
    } else if d == 6 {
        proof {
            reveal_strlit("6");
        }
        "6"
    } else if d == 7 {
        proof {
            reveal_strlit("7");
        }
        "7"
    } else if d == 8 {
        proof {
            reveal_strlit("8");
        }
        "8"
    } else {
        proof {
            reveal_strlit("9");
        }
        "9"
    }
}

/// The decimal notation of `n`.
pub fn decimal_string(n: usize) -> (res: String)
    ensures
        res@ == decimal(n as nat),
    decreases n,
{
    if n < 10 {
        digit_str(n).to_owned()
    } else {
        let mut res = decimal_string(n / 10);
        res.append(digit_str(n % 10));
        res
    }
}

} // verus!
