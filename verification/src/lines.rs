//! Line splitting (`str::lines`) and `splitn(3, ' ')`, as used by the HTTP/1.1 head parser.
use vstd::prelude::*;
use crate::text::{find_char_from, first_from, is_first_from};
use crate::message::rest_chars;

verus! {

/// Removes the line terminator of one `split_inclusive('\n')` piece, as `str::lines` does:
/// a trailing `\n`, and then a `\r` before it.
pub open spec fn strip_line_end(p: Seq<char>) -> Seq<char> {
    if p.len() > 0 && p.last() == '\n' {
        let q = p.drop_last();
        if q.len() > 0 && q.last() == '\r' {
            q.drop_last()
        } else {
            q
        }
    } else {
        p
    }
}

/// `str::lines`.
pub open spec fn lines(s: Seq<char>) -> Seq<Seq<char>>
    decreases s.len(),
{
    if s.len() == 0 {
        Seq::empty()
    } else {
        match first_from(s, 0, '\n') {
            None => seq![strip_line_end(s)],
            Some(k) => {
                if 0 <= k < s.len() {
                    seq![strip_line_end(s.take(k + 1))] + lines(s.skip(k + 1))
                } else {
                    Seq::empty()
                }
            },
        }
    }
}

/// Pieces of `str::splitn(3, ' ')`.
pub open spec fn splitn3(l: Seq<char>) -> Seq<Seq<char>> {
    match first_from(l, 0, ' ') {
        None => seq![l],
        Some(i) => match first_from(l, i + 1, ' ') {
            None => seq![l.take(i), l.skip(i + 1)],
            Some(j) => seq![l.take(i), l.subrange(i + 1, j), l.skip(j + 1)],
        },
    }
}

pub fn strip_line_end_exec(v: &Vec<char>, from: usize, to: usize) -> (r: Vec<char>)
    requires
        from <= to <= v.len(),
    ensures
        r@ == strip_line_end(v@.subrange(from as int, to as int)),
{
    let ghost p = v@.subrange(from as int, to as int);
    let mut end = to;
    if end > from && v[end - 1] == '\n' {
        end -= 1;
        if end > from && v[end - 1] == '\r' {
            end -= 1;
        }
    }
    let mut r: Vec<char> = Vec::new();
    let mut i = from;
    while i < end
        invariant
            from <= i <= end <= to <= v.len(),
            r@ == v@.subrange(from as int, i as int),
        decreases end - i,
    {
        r.push(v[i]);
        i += 1;
        assert(r@ =~= v@.subrange(from as int, i as int));
    }
    proof {
        if to > from && v@[to - 1] == '\n' {
            let q = p.drop_last();
            assert(q =~= v@.subrange(from as int, to - 1));
            if to - 1 > from && v@[to - 2] == '\r' {
                assert(q.last() == '\r');
                assert(q.drop_last() =~= v@.subrange(from as int, to - 2));
            } else {
                assert(!(q.len() > 0 && q.last() == '\r'));
            }
        } else {
            assert(!(p.len() > 0 && p.last() == '\n'));
        }
    }
    assert(r@ =~= strip_line_end(p));
    r
}

/// `str::lines` on a character vector.
pub fn split_lines(v: &Vec<char>) -> (r: Vec<Vec<char>>)
    ensures
        r@.len() == lines(v@).len(),
        forall|i: int| 0 <= i < r@.len() ==> (#[trigger] r@[i])@ == lines(v@)[i],
{
    let mut out: Vec<Vec<char>> = Vec::new();
    let mut start: usize = 0;
    proof {
        assert(v@.skip(0) =~= v@);
        assert(Seq::new(out@.len(), |i: int| out@[i]@) + lines(v@) =~= lines(v@));
    }
    while start < v.len()
        invariant
            start <= v.len(),
            lines(v@) == Seq::new(out@.len(), |i: int| out@[i]@) + lines(v@.skip(start as int)),
        decreases v.len() - start,
    {
        let ghost s = v@.skip(start as int);
        let ghost before = Seq::new(out@.len(), |i: int| out@[i]@);
        match find_char_from(v, start, '\n') {
            Some(k) => {
                let line = strip_line_end_exec(v, start, k + 1);
                proof {
                    assert(is_first_from(s, 0, '\n', k - start)) by {
                        assert(s[k - start] == v@[k as int]);
                        assert forall|j: int| 0 <= j < k - start implies s[j] != '\n' by {
                            assert(s[j] == v@[start + j]);
                        }
                    }
                    let kk = choose|kk: int| #[trigger] is_first_from(s, 0, '\n', kk);
                    assert(kk == k - start);
                    assert(s.take(k - start + 1) =~= v@.subrange(start as int, k + 1));
                    assert(s.skip(k - start + 1) =~= v@.skip(k + 1));
                }
                out.push(line);
                proof {
                    assert(Seq::new(out@.len(), |i: int| out@[i]@) =~= before.push(
                        strip_line_end(s.take(k - start + 1)),
                    ));
                }
                start = k + 1;
            },
            None => {
                let line = strip_line_end_exec(v, start, v.len());
                proof {
                    assert(!exists|kk: int| #[trigger] is_first_from(s, 0, '\n', kk)) by {
                        assert forall|kk: int| !is_first_from(s, 0, '\n', kk) by {
                            if 0 <= kk < s.len() {
                                assert(s[kk] == v@[start + kk]);
                            }
                        }
                    }
                    assert(s =~= v@.subrange(start as int, v.len() as int));
                }
                out.push(line);
                proof {
                    assert(Seq::new(out@.len(), |i: int| out@[i]@) =~= before.push(
                        strip_line_end(s),
                    ));
                    assert(v@.skip(v.len() as int) =~= Seq::<char>::empty());
                }
                start = v.len();
            },
        }
    }
    proof {
        assert(v@.skip(start as int) =~= Seq::<char>::empty());
        assert(lines(v@) =~= Seq::new(out@.len(), |i: int| out@[i]@));
    }
    out
}

/// Pieces of `splitn(3, ' ')` on a character vector.
pub fn splitn3_exec(l: &Vec<char>) -> (r: Vec<Vec<char>>)
    ensures
        r@.len() == splitn3(l@).len(),
        forall|i: int| 0 <= i < r@.len() ==> (#[trigger] r@[i])@ == splitn3(l@)[i],
{
    let mut out: Vec<Vec<char>> = Vec::new();
    match find_char_from(l, 0, ' ') {
        None => {
            let whole = rest_chars(l, 0);
            assert(l@.skip(0) =~= l@);
            out.push(whole);
        },
        Some(i) => {
            let first = crate::message::prefix_chars(l, i);
            match find_char_from(l, i + 1, ' ') {
                None => {
                    let second = rest_chars(l, i + 1);
                    out.push(first);
                    out.push(second);
                },
                Some(j) => {
                    let mut second: Vec<char> = Vec::new();
                    let mut k = i + 1;
                    while k < j
                        invariant
                            i + 1 <= k <= j < l.len(),
                            second@ == l@.subrange(i + 1, k as int),
                        decreases j - k,
                    {
                        second.push(l[k]);
                        k += 1;
                        assert(second@ =~= l@.subrange(i + 1, k as int));
                    }
                    let third = rest_chars(l, j + 1);
                    out.push(first);
                    out.push(second);
                    out.push(third);
                },
            }
        },
    }
    out
}

} // verus!
