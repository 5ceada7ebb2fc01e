//! Character and string helpers: ASCII case folding, case-insensitive
//! substring search, and the fallback display-name formatting.

use vstd::prelude::*;
use vstd::string::*;

verus! {

/// ASCII lowercase of one character; any other character is unchanged.
pub open spec fn lower_char(c: char) -> char {
    if 'A' <= c && c <= 'Z' {
        (((c as u8) + 32) as char)
    } else {
        c
    }
}

/// ASCII uppercase of one character; any other character is unchanged.
pub open spec fn upper_char(c: char) -> char {
    if 'a' <= c && c <= 'z' {
        (((c as u8) - 32) as char)
    } else {
        c
    }
}

pub open spec fn underscore_to_space(c: char) -> char {
    if c == '_' {
        ' '
    } else {
        c
    }
}

pub open spec fn lower_seq(s: Seq<char>) -> Seq<char> {
    s.map_values(|c: char| lower_char(c))
}

/// The query occurs at offset `off` of `s`, ignoring ASCII case.
pub open spec fn matches_at(s: Seq<char>, q: Seq<char>, off: int) -> bool {
    &&& 0 <= off
    &&& off + q.len() <= s.len()
    &&& lower_seq(s.subrange(off, off + q.len())) == lower_seq(q)
}

/// Case-insensitive substring containment.
pub open spec fn contains_ci(s: Seq<char>, q: Seq<char>) -> bool {
    exists|off: int| matches_at(s, q, off)
}

/// The display name derived from a raw identifier when the schema gives no
/// explicit one: first character uppercased, underscores become spaces.
pub open spec fn fallback_display(id: Seq<char>) -> Seq<char>
    recommends
        id.len() > 0,
{
    seq![upper_char(id[0])] + id.subrange(1, id.len() as int).map_values(
        |c: char| underscore_to_space(c),
    )
}

fn lowered(c: char) -> (r: char)
    ensures
        r == lower_char(c),
{
    if 'A' <= c && c <= 'Z' {
        ((c as u8) + 32) as char
    } else {
        c
    }
}

fn uppered(c: char) -> (r: char)
    ensures
        r == upper_char(c),
{
    if 'a' <= c && c <= 'z' {
        ((c as u8) - 32) as char
    } else {
        c
    }
}

/// Case-insensitive substring test over the characters of the two strings.
pub fn str_contains_ci(s: &str, q: &str) -> (r: bool)
    ensures
        r == contains_ci(s@, q@),
{
    let n = s.unicode_len();
    let m = q.unicode_len();
    if m > n {
        proof {
            assert(forall|off: int| !matches_at(s@, q@, off));
        }
        return false;
    }
    if m == 0 {
        proof {
            assert(lower_seq(s@.subrange(0, 0)) =~= lower_seq(q@));
            assert(matches_at(s@, q@, 0));
        }
        return true;
    }
    let mut off: usize = 0;
    while off <= n - m
        invariant
            m >= 1,
            n == s@.len(),
            m == q@.len(),
            m <= n,
            off <= n - m + 1,
            forall|o: int| 0 <= o < off ==> !matches_at(s@, q@, o),
        decreases n - m + 1 - off,
    {
        let mut j: usize = 0;
        let mut hit = true;
        while j < m
            invariant
                n == s@.len(),
                m == q@.len(),
                m <= n,
                off <= n - m,
                j <= m,
                hit ==> forall|t: int|
                    0 <= t < j ==> lower_char(s@[off + t]) == lower_char(q@[t]),
                !hit ==> !matches_at(s@, q@, off as int),
            decreases m - j,
        {
            if hit {
                let a = lowered(s.get_char(off + j));
                let b = lowered(q.get_char(j));
                if a != b {
                    proof {
                        if matches_at(s@, q@, off as int) {
                            assert(lower_seq(s@.subrange(off as int, off + m))[j as int]
                                == lower_seq(q@)[j as int]);
                            assert(lower_char(s@[off + j]) == lower_char(q@[j as int]));
                        }
                    }
                    hit = false;
                }
            }
            j += 1;
        }
        if hit {
            proof {
                assert(lower_seq(s@.subrange(off as int, off + m)) =~= lower_seq(q@));
                assert(matches_at(s@, q@, off as int));
            }
            return true;
        }
        off += 1;
    }
    proof {
        assert(forall|o: int| #[trigger] matches_at(s@, q@, o) ==> 0 <= o <= n - m);
    }
    false
}

/// Builds the fallback display name of a raw identifier.
pub fn make_fallback_display(id: &str) -> (r: String)
    requires
        id@.len() > 0,
    ensures
        r@ == fallback_display(id@),
{
    let n = id.unicode_len();
    let mut out = String::new();
    let c0 = uppered(id.get_char(0));
    push_char(&mut out, c0);
    let mut i: usize = 1;
    proof {
        assert(out@ =~= seq![upper_char(id@[0])] + id@.subrange(1, 1).map_values(
            |c: char| underscore_to_space(c),
        ));
    }
    while i < n
        invariant
            1 <= i <= n,
            n == id@.len(),
            out@ == seq![upper_char(id@[0])] + id@.subrange(1, i as int).map_values(
                |c: char| underscore_to_space(c),
            ),
        decreases n - i,
    {
        let c = id.get_char(i);
        if c == '_' {
            push_char(&mut out, ' ');
        } else {
            push_char(&mut out, c);
        }
        proof {
            assert(id@.subrange(1, i + 1).map_values(|c: char| underscore_to_space(c))
                =~= id@.subrange(1, i as int).map_values(|c: char| underscore_to_space(c)).push(
                underscore_to_space(id@[i as int]),
            ));
            assert(out@ =~= seq![upper_char(id@[0])] + id@.subrange(1, i + 1).map_values(
                |c: char| underscore_to_space(c),
            ));
        }
        i += 1;
    }
    proof {
        assert(id@.subrange(1, n as int) =~= id@.subrange(1, id@.len() as int));
    }
    out
}

/// Relies on String::push: it appends exactly the one character at the end.
#[verifier::external_body]
pub fn push_char(s: &mut String, c: char)
    ensures
        final(s)@ == old(s)@.push(c),
{
    s.push(c);
}

pub open spec fn digit_char(d: nat) -> char {
    if d == 0 {
        '0'
    } else if d == 1 {
        '1'
    } else if d == 2 {
        '2'
    } else if d == 3 {
        '3'
    } else if d == 4 {
        '4'
    } else if d == 5 {
        '5'
    } else if d == 6 {
        '6'
    } else if d == 7 {
        '7'
    } else if d == 8 {
        '8'
    } else {
        '9'
    }
}

/// The decimal digits of a number, most significant first.
pub open spec fn dec_str(n: nat) -> Seq<char>
    decreases n,
{
    if n < 10 {
        seq![digit_char(n)]
    } else {
        dec_str(n / 10).push(digit_char(n % 10))
    }
}

/// Relies on the standard decimal formatter for usize: the digits of the
/// value, most significant first, with no sign and no padding.
#[verifier::external_body]
pub fn usize_to_string(n: usize) -> (r: String)
    ensures
        r@ == dec_str(n as nat),
{
    format!("{}", n)
}


/// The query occurs verbatim at offset `off` of `s`.
pub open spec fn substr_at(s: Seq<char>, q: Seq<char>, off: int) -> bool {
    &&& 0 <= off
    &&& off + q.len() <= s.len()
    &&& s.subrange(off, off + q.len()) == q
}

/// Verbatim substring containment.
pub open spec fn contains_sub(s: Seq<char>, q: Seq<char>) -> bool {
    exists|off: int| substr_at(s, q, off)
}

/// Verbatim substring test over the characters of the two strings.
pub fn str_contains(s: &str, q: &str) -> (r: bool)
    ensures
        r == contains_sub(s@, q@),
{
    let n = s.unicode_len();
    let m = q.unicode_len();
    if m > n {
        proof {
            assert(forall|off: int| !substr_at(s@, q@, off));
        }
        return false;
    }
    if m == 0 {
        proof {
            assert(s@.subrange(0, 0) =~= q@);
            assert(substr_at(s@, q@, 0));
        }
        return true;
    }
    let mut off: usize = 0;
    while off <= n - m
        invariant
            m >= 1,
            n == s@.len(),
            m == q@.len(),
            m <= n,
            off <= n - m + 1,
            forall|o: int| 0 <= o < off ==> !substr_at(s@, q@, o),
        decreases n - m + 1 - off,
    {
        let mut j: usize = 0;
        let mut hit = true;
        while j < m
            invariant
                n == s@.len(),
                m == q@.len(),
                m <= n,
                off <= n - m,
                j <= m,
                hit ==> forall|t: int| 0 <= t < j ==> s@[off + t] == q@[t],
                !hit ==> !substr_at(s@, q@, off as int),
            decreases m - j,
        {
            if hit {
                let a = s.get_char(off + j);
                let b = q.get_char(j);
                if a != b {
                    proof {
                        if substr_at(s@, q@, off as int) {
                            assert(s@.subrange(off as int, off + m)[j as int] == q@[j as int]);
                        }
                    }
                    hit = false;
                }
            }
            j += 1;
        }
        if hit {
            proof {
                assert(s@.subrange(off as int, off + m) =~= q@);
                assert(substr_at(s@, q@, off as int));
            }
            return true;
        }
        off += 1;
    }
    proof {
        assert(forall|o: int| #[trigger] substr_at(s@, q@, o) ==> 0 <= o <= n - m);
    }
    false
}

} // verus!
