//! Character-level text helpers: substring search, description truncation and
//! decimal rendering, all counted in characters so that multi-byte characters
//! are never split.
use vstd::prelude::*;

verus! {

/// `needle` occurs in `hay` starting at position `at`.
pub open spec fn occurs_at(hay: Seq<char>, needle: Seq<char>, at: int) -> bool {
    &&& 0 <= at
    &&& at + needle.len() <= hay.len()
    &&& hay.subrange(at, at + needle.len() as int) == needle
}

/// `needle` occurs somewhere in `hay`.
pub open spec fn contains_seq(hay: Seq<char>, needle: Seq<char>) -> bool {
    exists|at: int| occurs_at(hay, needle, at)
}

/// Whether `needle` occurs in `hay`, counted over characters.
pub fn contains_str(hay: &str, needle: &str) -> (r: bool)
    ensures
        r == contains_seq(hay@, needle@),
{
    let hay_len = hay.unicode_len();
    let needle_len = needle.unicode_len();
    if needle_len > hay_len {
        proof {
            assert forall|at: int| !occurs_at(hay@, needle@, at) by {}
        }
        return false;
    }
    if needle_len == 0 {
        proof {
            assert(hay@.subrange(0, 0) =~= needle@);
            assert(occurs_at(hay@, needle@, 0));
        }
        return true;
    }
    let mut at: usize = 0;
    while at <= hay_len - needle_len
        invariant
            needle_len == needle@.len(),
            hay_len == hay@.len(),
            0 < needle_len <= hay_len,
            at <= hay_len - needle_len + 1,
            forall|p: int| 0 <= p < at ==> !occurs_at(hay@, needle@, p),
        decreases hay_len - needle_len - at + 1,
    {
        let mut j: usize = 0;
        let mut all_match = true;
        while j < needle_len && all_match
            invariant
                needle_len == needle@.len(),
                hay_len == hay@.len(),
                needle_len <= hay_len,
                at <= hay_len - needle_len,
                j <= needle_len,
                all_match ==> forall|q: int| 0 <= q < j ==> hay@[at + q] == needle@[q],
                !all_match ==> !occurs_at(hay@, needle@, at as int),
            decreases needle_len - j + (if all_match { 1int } else { 0int }),
        {
            if hay.get_char(at + j) == needle.get_char(j) {
                j += 1;
            } else {
                proof {
                    if occurs_at(hay@, needle@, at as int) {
                        assert(hay@.subrange(at as int, at + needle@.len() as int)[j as int]
                            == needle@[j as int]);
                    }
                }
                all_match = false;
            }
        }
        if all_match {
            proof {
                assert(hay@.subrange(at as int, at + needle@.len() as int) =~= needle@);
                assert(occurs_at(hay@, needle@, at as int));
            }
            return true;
        }
        at += 1;
    }
    proof {
        assert forall|p: int| !occurs_at(hay@, needle@, p) by {
            if 0 <= p <= hay@.len() - needle@.len() {
                assert(!occurs_at(hay@, needle@, p));
            }
        }
    }
    false
}

/// The longest description rendered verbatim, in characters.
pub const DESCRIPTION_LIMIT: usize = 23;

/// How many characters of a long description are kept before the two periods.
pub const TRUNCATED_KEEP: usize = 21;

/// The two-period continuation mark appended to a truncated description.
pub open spec fn ellipsis() -> Seq<char> {
    seq!['.', '.']
}

/// A description of at most `DESCRIPTION_LIMIT` characters stays as it is; a
/// longer one is cut to its first `TRUNCATED_KEEP` characters plus two periods.
pub open spec fn truncated(s: Seq<char>) -> Seq<char> {
    if s.len() <= DESCRIPTION_LIMIT {
        s
    } else {
        s.subrange(0, TRUNCATED_KEEP as int) + ellipsis()
    }
}

/// A description within the limit is kept verbatim; a longer one keeps
/// exactly its first characters and two periods, and the cut, counted in
/// characters, never splits a character.
pub proof fn lemma_truncation(s: Seq<char>)
    ensures
        s.len() <= DESCRIPTION_LIMIT ==> truncated(s) == s,
        s.len() > DESCRIPTION_LIMIT ==> truncated(s) == s.subrange(0, TRUNCATED_KEEP as int)
            + ellipsis(),
        truncated(s).len() <= DESCRIPTION_LIMIT,
{
}

/// Render a description within the label's column width, cutting over-long
/// text at a character boundary.
pub fn truncate_description(s: &str) -> (r: String)
    ensures
        r@ == truncated(s@),
{
    let n = s.unicode_len();
    if n <= DESCRIPTION_LIMIT {
        s.to_owned()
    } else {
        let head = s.substring_char(0, TRUNCATED_KEEP);
        let r = String::from_str(head).concat("..");
        proof {
            reveal_strlit("..");
            assert(r@ =~= truncated(s@));
        }
        r
    }
}

/// The decimal digit character for a value below ten.
pub open spec fn digit_char(d: int) -> char {
    if d == 0 {
        '0'
    } else if d == 1 {
        '1'
    } else if d == 2 {
        '2'
    } else if d == 3 {
        '3'
    } else if d == 4 {
        '4'
    } else if d == 5 {
        '5'
    } else if d == 6 {
        '6'
    } else if d == 7 {
        '7'
    } else if d == 8 {
        '8'
    } else {
        '9'
    }
}

/// The decimal representation of `n`, most significant digit first, with no
/// leading zero except for zero itself.
pub open spec fn decimal(n: nat) -> Seq<char>
    decreases n,
{
    if n < 10 {
        seq![digit_char(n as int)]
    } else {
        decimal(n / 10) + seq![digit_char((n % 10) as int)]
    }
}

fn digit_str(d: u32) -> (r: &'static str)
    requires
        d < 10,
    ensures
        r@ =~= seq![digit_char(d as int)],
{
    proof {
        reveal_strlit("0");
        reveal_strlit("1");
        reveal_strlit("2");
        reveal_strlit("3");
        reveal_strlit("4");
        reveal_strlit("5");
        reveal_strlit("6");
        reveal_strlit("7");
        reveal_strlit("8");
        reveal_strlit("9");
    }
    if d == 0 {
        "0"
    } else if d == 1 {
        "1"
    } else if d == 2 {
        "2"
    } else if d == 3 {
        "3"
    } else if d == 4 {
        "4"
    } else if d == 5 {
        "5"
    } else if d == 6 {
        "6"
    } else if d == 7 {
        "7"
    } else if d == 8 {
        "8"
    } else {
        "9"
    }
}

/// Render `n` in decimal.
pub fn u32_to_string(n: u32) -> (r: String)
    ensures
        r@ == decimal(n as nat),
    decreases n,
{
    if n < 10 {
        String::from_str(digit_str(n))
    } else {
        let prefix = u32_to_string(n / 10);
        let r = prefix.concat(digit_str(n % 10));
        proof {
            assert(r@ =~= decimal(n as nat));
        }
        r
    }
}

} // verus!
