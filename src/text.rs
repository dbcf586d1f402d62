//! Text helpers: joining lists of lines, and splitting a command into lines
//! the way `str::lines` does.
use vstd::prelude::*;

verus! {

/// The items of `s`, with a newline between each two.
pub open spec fn join_lines(s: Seq<Seq<char>>) -> Seq<char>
    decreases s.len(),
{
    if s.len() == 0 {
        seq![]
    } else if s.len() == 1 {
        s[0]
    } else {
        join_lines(s.drop_last()) + seq!['\n'] + s.last()
    }
}

/// Joins strings with newlines between them.
pub fn join_with_newlines(items: &Vec<String>) -> (r: String)
    ensures
        r@ == join_lines(crate::order::views(items@)),
{
    let nl = "\n";
    proof {
        reveal_strlit("\n");
    }
    let mut r = String::new();
    let mut i: usize = 0;
    proof {
        assert(crate::order::views(items@).subrange(0, 0) =~= Seq::<Seq<char>>::empty());
    }
    while i < items.len()
        invariant
            i <= items.len(),
            nl@ == seq!['\n'],
            r@ == join_lines(crate::order::views(items@).subrange(0, i as int)),
        decreases items.len() - i,
    {
        if i > 0 {
            r.append(nl);
        }
        r.append(items[i].as_str());
        proof {
            let next = crate::order::views(items@).subrange(0, i + 1);
            assert(next.drop_last() =~= crate::order::views(items@).subrange(0, i as int));
            if i == 0 {
                assert(r@ =~= next[0]);
            } else {
                assert(r@ =~= join_lines(next));
            }
        }
        i = i + 1;
    }
    proof {
        assert(crate::order::views(items@).subrange(0, items@.len() as int) =~= crate::order::views(
            items@,
        ));
    }
    r
}

/// The character sequences of a list of string slices.
pub open spec fn str_views(s: Seq<&str>) -> Seq<Seq<char>> {
    s.map_values(|l: &str| l@)
}

/// The pieces of `s` between newlines; there is always at least one.
pub open spec fn split_newlines(s: Seq<char>) -> Seq<Seq<char>>
    decreases s.len(),
{
    if s.len() == 0 {
        seq![seq![]]
    } else if s.last() == '\n' {
        split_newlines(s.drop_last()).push(seq![])
    } else {
        let p = split_newlines(s.drop_last());
        p.update(p.len() - 1, p.last().push(s.last()))
    }
}

/// A line without the carriage return that ends it, if any.
pub open spec fn strip_cr(l: Seq<char>) -> Seq<char> {
    if l.len() > 0 && l.last() == '\r' {
        l.drop_last()
    } else {
        l
    }
}

/// The lines of `s`: the pieces between newlines, each without a trailing
/// carriage return, and no empty last piece after a final newline.
pub open spec fn lines_of(s: Seq<char>) -> Seq<Seq<char>> {
    let p = split_newlines(s);
    let kept = if p.last().len() == 0 {
        p.drop_last()
    } else {
        p
    };
    kept.map_values(|l: Seq<char>| strip_cr(l))
}

/// The piece `s[from..to]` without a trailing carriage return.
fn line_at(s: &str, from: usize, to: usize) -> (r: &str)
    requires
        from <= to <= s@.len(),
    ensures
        r@ == strip_cr(s@.subrange(from as int, to as int)),
{
    if to > from && s.get_char(to - 1) == '\r' {
        let r = s.substring_char(from, to - 1);
        proof {
            assert(r@ =~= s@.subrange(from as int, to as int).drop_last());
        }
        r
    } else {
        s.substring_char(from, to)
    }
}

/// Splits text into lines as `lines_of` says.
pub fn lines(s: &str) -> (r: Vec<&str>)
    ensures
        str_views(r@) == lines_of(s@),
{
    let n = s.unicode_len();
    let mut r: Vec<&str> = Vec::new();
    let mut start: usize = 0;
    let mut i: usize = 0;
    let ghost done: Seq<Seq<char>> = seq![];
    proof {
        assert(s@.subrange(0, 0) =~= Seq::<char>::empty());
        assert(s@.subrange(0, 0) =~= s@.subrange(0, 0));
    }
    while i < n
        invariant
            n == s@.len(),
            start <= i <= n,
            done.len() == r@.len(),
            forall|j: int| 0 <= j < done.len() ==> #[trigger] r@[j]@ == strip_cr(done[j]),
            split_newlines(s@.subrange(0, i as int)) == done.push(
                s@.subrange(start as int, i as int),
            ),
        decreases n - i,
    {
        let c = s.get_char(i);
        proof {
            let next = s@.subrange(0, i + 1);
            assert(next.drop_last() =~= s@.subrange(0, i as int));
            assert(next.last() == c);
        }
        if c == '\n' {
            r.push(line_at(s, start, i));
            proof {
                done = done.push(s@.subrange(start as int, i as int));
                assert(s@.subrange((i + 1) as int, (i + 1) as int) =~= Seq::<char>::empty());
            }
            start = i + 1;
        } else {
            proof {
                assert(s@.subrange(start as int, i + 1) =~= s@.subrange(
                    start as int,
                    i as int,
                ).push(c));
            }
        }
        i = i + 1;
    }
    if start < n {
        r.push(line_at(s, start, n));
        proof {
            done = done.push(s@.subrange(start as int, n as int));
        }
    }
    proof {
        assert(s@.subrange(0, n as int) =~= s@);
        let p = split_newlines(s@);
        let kept = if p.last().len() == 0 {
            p.drop_last()
        } else {
            p
        };
        assert(kept =~= done);
        assert(str_views(r@) =~= lines_of(s@));
    }
    r
}

} // verus!
