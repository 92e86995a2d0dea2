//! Searching and rewriting text, character by character.

use vstd::prelude::*;

verus! {

/// `String::push`: the text with `c` appended.
#[verifier::external_body]
fn push_char(text: &mut String, c: char)
    ensures
        final(text)@ == old(text)@.push(c),
{
    text.push(c)
}

/// The characters of a text, in order.
pub fn chars_of(s: &str) -> (res: Vec<char>)
    ensures
        res@ == s@,
{
    broadcast use vstd::string::group_string_axioms;

    let mut out: Vec<char> = Vec::new();
    for c in it: s.chars()
        invariant
            it.seq() == s@,
            out@ == it.seq().take(it.index() as int),
    {
        proof {
            assert(it.seq().take(it.index() + 1) == it.seq().take(it.index() as int).push(c));
        }
        out.push(c);
    }
    proof {
        assert(s@.take(s@.len() as int) == s@);
    }
    out
}

/// The text that a sequence of characters spells.
pub fn string_of(chars: &Vec<char>) -> (res: String)
    ensures
        res@ == chars@,
{
    let mut out = String::new();
    let mut i: usize = 0;
    while i < chars.len()
        invariant
            i <= chars.len(),
            out@ == chars@.take(i as int),
        decreases chars.len() - i,
    {
        push_char(&mut out, chars[i]);
        proof {
            assert(chars@.take(i + 1) == chars@.take(i as int).push(chars@[i as int]));
        }
        i += 1;
    }
    proof {
        assert(chars@.take(i as int) == chars@);
    }
    out
}

/// `p` stands in `s` at position `at`.
pub open spec fn starts_at(s: Seq<char>, at: int, p: Seq<char>) -> bool {
    0 <= at && at + p.len() <= s.len() && s.subrange(at, at + p.len()) == p
}

/// `p` stands somewhere in `s`.
pub open spec fn holds(s: Seq<char>, p: Seq<char>) -> bool {
    exists|at: int| starts_at(s, at, p)
}

/// `s` without every copy of `p` at its start, one after the other.
pub open spec fn trimmed(s: Seq<char>, p: Seq<char>) -> Seq<char>
    decreases s.len(),
{
    if p.len() > 0 && starts_at(s, 0, p) {
        trimmed(s.skip(p.len() as int), p)
    } else {
        s
    }
}

/// `to`, then each character of `s` followed by `to`.
pub open spec fn spread(s: Seq<char>, to: Seq<char>) -> Seq<char>
    decreases s.len(),
{
    if s.len() == 0 {
        to
    } else {
        to + seq![s[0]] + spread(s.skip(1), to)
    }
}

/// `s` with every copy of `from` replaced by `to`, the copies found from
/// left to right and never overlapping. An empty `from` is found before
/// every character and at the end.
pub open spec fn replaced(s: Seq<char>, from: Seq<char>, to: Seq<char>) -> Seq<char>
    decreases s.len(),
{
    if from.len() == 0 {
        spread(s, to)
    } else if s.len() == 0 {
        s
    } else if starts_at(s, 0, from) {
        to + replaced(s.skip(from.len() as int), from, to)
    } else {
        seq![s[0]] + replaced(s.skip(1), from, to)
    }
}

/// Whether `p` stands in `s` at position `at`.
fn begins_at(s: &Vec<char>, at: usize, p: &Vec<char>) -> (res: bool)
    ensures
        res == starts_at(s@, at as int, p@),
{
    if p.len() > s.len() || at > s.len() - p.len() {
        return false;
    }
    let mut i: usize = 0;
    while i < p.len()
        invariant
            at + p.len() <= s.len(),
            i <= p.len(),
            forall|k: int| 0 <= k < i ==> s@[at + k] == p@[k],
        decreases p.len() - i,
    {
        if s[at + i] != p[i] {
            proof {
                assert(s@.subrange(at as int, at + p.len())[i as int] == s@[at + i]);
            }
            return false;
        }
        i += 1;
    }
    proof {
        assert(s@.subrange(at as int, at + p.len()) =~= p@);
    }
    true
}

/// Appends the characters of `more` to `out`.
fn extend(out: &mut Vec<char>, more: &Vec<char>)
    ensures
        final(out)@ == old(out)@ + more@,
{
    let mut i: usize = 0;
    while i < more.len()
        invariant
            i <= more.len(),
            out@ == old(out)@ + more@.take(i as int),
        decreases more.len() - i,
    {
        out.push(more[i]);
        proof {
            assert(more@.take(i + 1) == more@.take(i as int).push(more@[i as int]));
        }
        i += 1;
    }
    proof {
        assert(more@.take(i as int) == more@);
    }
}

/// Whether `p` stands somewhere in `s`.
pub fn contains(s: &str, p: &str) -> (res: bool)
    ensures
        res == holds(s@, p@),
{
    let sv = chars_of(s);
    let pv = chars_of(p);
    if pv.len() > sv.len() {
        proof {
            assert forall|k: int| !starts_at(sv@, k, pv@) by {}
        }
        return false;
    }
    let last = sv.len() - pv.len();
    let mut at: usize = 0;
    while at < last
        invariant
            sv@ == s@,
            pv@ == p@,
            last == sv.len() - pv.len(),
            at <= last,
            forall|k: int| 0 <= k < at ==> !starts_at(sv@, k, pv@),
        decreases last - at,
    {
        if begins_at(&sv, at, &pv) {
            assert(holds(sv@, pv@)) by {
                assert(starts_at(sv@, at as int, pv@));
            }
            return true;
        }
        at += 1;
    }
    let found = begins_at(&sv, at, &pv);
    proof {
        if found {
            assert(starts_at(sv@, at as int, pv@));
        } else {
            assert forall|k: int| !starts_at(sv@, k, pv@) by {}
        }
    }
    found
}

/// Cuts every copy of `p` off the start of `s`, one after the other.
pub fn trim_start_matches(s: &str, p: &str) -> (res: String)
    ensures
        res@ == trimmed(s@, p@),
{
    let sv = chars_of(s);
    let pv = chars_of(p);
    let mut start: usize = 0;
    if pv.len() > 0 {
        proof {
            assert(sv@.skip(0) == sv@);
        }
        while begins_at(&sv, start, &pv)
            invariant
                start <= sv.len(),
                pv.len() > 0,
                trimmed(sv@, pv@) == trimmed(sv@.skip(start as int), pv@),
            decreases sv.len() - start,
        {
            proof {
                let rest = sv@.skip(start as int);
                assert(rest.subrange(0, pv@.len() as int) == sv@.subrange(
                    start as int,
                    start + pv@.len(),
                ));
                assert(rest.skip(pv@.len() as int) == sv@.skip(start + pv@.len()));
            }
            start += pv.len();
        }
        proof {
            let rest = sv@.skip(start as int);
            if start + pv@.len() <= sv@.len() {
                assert(rest.subrange(0, pv@.len() as int) == sv@.subrange(
                    start as int,
                    start + pv@.len(),
                ));
            }
        }
    }
    let mut out: Vec<char> = Vec::new();
    let mut i: usize = start;
    while i < sv.len()
        invariant
            start <= i <= sv.len(),
            out@ == sv@.subrange(start as int, i as int),
        decreases sv.len() - i,
    {
        out.push(sv[i]);
        proof {
            assert(sv@.subrange(start as int, i + 1) == sv@.subrange(start as int, i as int).push(
                sv@[i as int],
            ));
        }
        i += 1;
    }
    proof {
        assert(sv@.subrange(start as int, sv@.len() as int) == sv@.skip(start as int));
    }
    string_of(&out)
}

/// Replaces every copy of `from` in `s` by `to`, the copies found from left
/// to right and never overlapping.
pub fn replace(s: &str, from: &str, to: &str) -> (res: String)
    ensures
        res@ == replaced(s@, from@, to@),
{
    let sv = chars_of(s);
    let fv = chars_of(from);
    let tv = chars_of(to);
    let mut out: Vec<char> = Vec::new();
    let mut i: usize = 0;
    proof {
        assert(sv@.skip(0) == sv@);
    }
    if fv.len() == 0 {
        while i < sv.len()
            invariant
                i <= sv.len(),
                spread(sv@, tv@) == out@ + spread(sv@.skip(i as int), tv@),
            decreases sv.len() - i,
        {
            proof {
                let rest = sv@.skip(i as int);
                assert(rest[0] == sv@[i as int]);
                assert(rest.skip(1) == sv@.skip(i + 1));
                assert(out@ + (tv@ + seq![rest[0]] + spread(rest.skip(1), tv@)) == (out@ + tv@).push(
                    sv@[i as int],
                ) + spread(sv@.skip(i + 1), tv@));
            }
            extend(&mut out, &tv);
            out.push(sv[i]);
            i += 1;
        }
        extend(&mut out, &tv);
    } else {
        while i < sv.len()
            invariant
                i <= sv.len(),
                fv.len() > 0,
                replaced(sv@, fv@, tv@) == out@ + replaced(sv@.skip(i as int), fv@, tv@),
            decreases sv.len() - i,
        {
            proof {
                let rest = sv@.skip(i as int);
                assert(rest[0] == sv@[i as int]);
                assert(rest.skip(1) == sv@.skip(i + 1));
                if i + fv@.len() <= sv@.len() {
                    assert(rest.subrange(0, fv@.len() as int) == sv@.subrange(
                        i as int,
                        i + fv@.len(),
                    ));
                    assert(rest.skip(fv@.len() as int) == sv@.skip(i + fv@.len()));
                }
            }
            if begins_at(&sv, i, &fv) {
                proof {
                    assert(out@ + (tv@ + replaced(sv@.skip(i + fv@.len()), fv@, tv@)) == (out@
                        + tv@) + replaced(sv@.skip(i + fv@.len()), fv@, tv@));
                }
                extend(&mut out, &tv);
                i += fv.len();
            } else {
                proof {
                    assert(out@ + (seq![sv@[i as int]] + replaced(sv@.skip(i + 1), fv@, tv@))
                        == out@.push(sv@[i as int]) + replaced(sv@.skip(i + 1), fv@, tv@));
                }
                out.push(sv[i]);
                i += 1;
            }
        }
    }
    proof {
        assert(sv@.skip(i as int).len() == 0);
        assert(out@ + Seq::<char>::empty() == out@);
    }
    string_of(&out)
}

} // verus!
