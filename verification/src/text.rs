use vstd::prelude::*;

verus! {

use vstd::string::StrSliceExecFns;

/// The segments of `s` between occurrences of `sep`.
///
/// Splitting the empty sequence yields one empty segment; every separator
/// ends the current segment and begins the next one, so a sequence with
/// `k` separators always splits into `k + 1` segments.
pub open spec fn split_on(s: Seq<char>, sep: char) -> Seq<Seq<char>>
    decreases s.len(),
{
    if s.len() == 0 {
        seq![Seq::<char>::empty()]
    } else if s[0] == sep {
        seq![Seq::<char>::empty()] + split_on(s.skip(1), sep)
    } else {
        let rest = split_on(s.skip(1), sep);
        seq![seq![s[0]] + rest[0]] + rest.skip(1)
    }
}

pub proof fn lemma_split_on_len(s: Seq<char>, sep: char)
    ensures
        split_on(s, sep).len() >= 1,
    decreases s.len(),
{
    if s.len() != 0 {
        lemma_split_on_len(s.skip(1), sep);
    }
}

/// Splits `s` at every occurrence of `sep`, returning the segments in order.
pub fn split_str(s: &str, sep: char) -> (parts: Vec<String>)
    ensures
        parts.deep_view() == split_on(s@, sep),
{
    let n = s.unicode_len();
    let mut parts: Vec<String> = Vec::new();
    let mut start: usize = 0;
    let mut j: usize = 0;
    proof {
        lemma_split_on_len(s@, sep);
        assert(s@.skip(0) =~= s@);
        assert(s@.subrange(0, 0) + split_on(s@, sep)[0] =~= split_on(s@, sep)[0]);
        assert(parts.deep_view() + seq![split_on(s@, sep)[0]] + split_on(s@, sep).skip(1)
            =~= split_on(s@, sep));
    }
    while j < n
        invariant
            start <= j <= n,
            n == s@.len(),
            split_on(s@, sep) == parts.deep_view() + seq![
                s@.subrange(start as int, j as int) + split_on(s@.skip(j as int), sep)[0],
            ] + split_on(s@.skip(j as int), sep).skip(1),
        decreases n - j,
    {
        let ghost pre = parts.deep_view();
        let ghost suffix = s@.skip(j as int);
        proof {
            lemma_split_on_len(s@.skip(j as int + 1), sep);
            assert(suffix[0] == s@[j as int]);
            assert(suffix.skip(1) =~= s@.skip(j as int + 1));
        }
        let c = s.get_char(j);
        if c == sep {
            let seg = s.substring_char(start, j).to_owned();
            proof {
                assert(split_on(suffix, sep) == seq![Seq::<char>::empty()] + split_on(
                    s@.skip(j as int + 1),
                    sep,
                ));
                assert(split_on(suffix, sep)[0] =~= Seq::<char>::empty());
                assert(s@.subrange(start as int, j as int) + split_on(suffix, sep)[0]
                    =~= s@.subrange(start as int, j as int));
                assert(split_on(suffix, sep).skip(1) =~= split_on(s@.skip(j as int + 1), sep));
            }
            parts.push(seg);
            proof {
                let rest = split_on(s@.skip(j as int + 1), sep);
                assert(parts.deep_view() =~= pre.push(s@.subrange(start as int, j as int)));
                assert(s@.subrange(j as int + 1, j as int + 1) + rest[0] =~= rest[0]);
                assert(seq![rest[0]] + rest.skip(1) =~= rest);
                assert(pre + seq![s@.subrange(start as int, j as int)] + rest
                    =~= parts.deep_view() + seq![
                    s@.subrange(j as int + 1, j as int + 1) + rest[0],
                ] + rest.skip(1));
            }
            start = j + 1;
        } else {
            proof {
                let rest = split_on(s@.skip(j as int + 1), sep);
                assert(split_on(suffix, sep) == seq![seq![suffix[0]] + rest[0]] + rest.skip(1));
                assert(split_on(suffix, sep)[0] =~= seq![s@[j as int]] + rest[0]);
                assert(split_on(suffix, sep).skip(1) =~= rest.skip(1));
                assert(s@.subrange(start as int, j as int) + (seq![s@[j as int]] + rest[0])
                    =~= s@.subrange(start as int, j as int + 1) + rest[0]);
            }
        }
        j += 1;
    }
    let seg = s.substring_char(start, n).to_owned();
    let ghost pre = parts.deep_view();
    parts.push(seg);
    proof {
        assert(s@.skip(n as int) =~= Seq::<char>::empty());
        assert(split_on(s@.skip(n as int), sep) == seq![Seq::<char>::empty()]);
        assert(s@.subrange(start as int, n as int) + split_on(s@.skip(n as int), sep)[0]
            =~= s@.subrange(start as int, n as int));
        assert(parts.deep_view() =~= pre.push(s@.subrange(start as int, n as int)));
        assert(split_on(s@.skip(n as int), sep).skip(1) =~= Seq::<Seq<char>>::empty());
        assert(parts.deep_view() =~= pre + seq![
            s@.subrange(start as int, n as int) + split_on(s@.skip(n as int), sep)[0],
        ] + split_on(s@.skip(n as int), sep).skip(1));
    }
    parts
}

} // verus!
