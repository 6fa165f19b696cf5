//! Comma-delimited fields: splitting a record line into its fields, joining
//! fields into a line, and the round trip between the two.

use vstd::prelude::*;

verus! {

/// Index of the first occurrence of `c` in `s`, or `s.len()` when `c` is
/// absent.
pub open spec fn first_at(s: Seq<char>, c: char) -> nat
    decreases s.len(),
{
    if s.len() == 0 {
        0
    } else if s[0] == c {
        0
    } else {
        (1 + first_at(s.drop_first(), c)) as nat
    }
}

pub proof fn lemma_first_at(s: Seq<char>, c: char)
    ensures
        first_at(s, c) <= s.len(),
        forall|j: int| 0 <= j < first_at(s, c) ==> s[j] != c,
        first_at(s, c) < s.len() ==> s[first_at(s, c) as int] == c,
    decreases s.len(),
{
    if s.len() != 0 && s[0] != c {
        lemma_first_at(s.drop_first(), c);
        assert forall|j: int| 0 <= j < first_at(s, c) implies s[j] != c by {
            if j > 0 {
                assert(s.drop_first()[j - 1] == s[j]);
            }
        }
        if first_at(s, c) < s.len() {
            assert(s.drop_first()[first_at(s.drop_first(), c) as int]
                == s[first_at(s, c) as int]);
        }
    }
}

/// A position before which `c` never occurs, and at which it occurs (or which
/// is the end), is the first occurrence.
pub proof fn lemma_first_at_is(s: Seq<char>, c: char, k: int)
    requires
        0 <= k <= s.len(),
        forall|j: int| 0 <= j < k ==> s[j] != c,
        k < s.len() ==> s[k] == c,
    ensures
        first_at(s, c) == k,
    decreases s.len(),
{
    if s.len() == 0 {
    } else if s[0] == c {
        assert(k == 0);
    } else {
        assert(k >= 1);
        let t = s.drop_first();
        assert forall|j: int| 0 <= j < k - 1 implies t[j] != c by {
            assert(t[j] == s[j + 1]);
        }
        if k - 1 < t.len() {
            assert(t[k - 1] == s[k]);
        }
        lemma_first_at_is(t, c, k - 1);
    }
}

/// The fields of `s`, split on commas. Splitting never yields an empty field
/// list: a line without commas is one field.
pub open spec fn split_commas(s: Seq<char>) -> Seq<Seq<char>>
    decreases s.len(),
{
    let i = first_at(s, ',');
    if i < s.len() {
        seq![s.take(i as int)] + split_commas(s.skip(i + 1 as int))
    } else {
        seq![s]
    }
}

/// The fields joined into one line with comma delimiters.
pub open spec fn join_commas(fields: Seq<Seq<char>>) -> Seq<char>
    decreases fields.len(),
{
    if fields.len() == 0 {
        Seq::empty()
    } else if fields.len() == 1 {
        fields[0]
    } else {
        fields[0] + seq![','] + join_commas(fields.drop_first())
    }
}

pub open spec fn comma_free(f: Seq<char>) -> bool {
    forall|i: int| 0 <= i < f.len() ==> #[trigger] f[i] != ','
}

/// Splitting the joined line of comma-free fields gives back the fields.
pub proof fn lemma_split_join(fields: Seq<Seq<char>>)
    requires
        fields.len() >= 1,
        forall|i: int| 0 <= i < fields.len() ==> comma_free(#[trigger] fields[i]),
    ensures
        split_commas(join_commas(fields)) == fields,
    decreases fields.len(),
{
    let s = join_commas(fields);
    if fields.len() == 1 {
        assert(s == fields[0]);
        lemma_first_at_is(s, ',', s.len() as int);
        assert(split_commas(s) =~~= fields);
    } else {
        let f0 = fields[0];
        let rest = join_commas(fields.drop_first());
        assert(s == f0 + seq![','] + rest);
        assert forall|j: int| 0 <= j < f0.len() implies s[j] != ',' by {
            assert(s[j] == f0[j]);
        }
        assert(s[f0.len() as int] == ',');
        lemma_first_at_is(s, ',', f0.len() as int);
        assert(s.take(f0.len() as int) =~= f0);
        assert(s.skip(f0.len() + 1 as int) =~= rest);
        lemma_split_join(fields.drop_first());
        assert(split_commas(s) == seq![f0] + fields.drop_first());
        assert(seq![f0] + fields.drop_first() =~~= fields);
    }
}

pub proof fn lemma_comma_free_concat(a: Seq<char>, b: Seq<char>)
    requires
        comma_free(a),
        comma_free(b),
    ensures
        comma_free(a + b),
{
    assert forall|i: int| 0 <= i < (a + b).len() implies #[trigger] (a + b)[i] != ',' by {
        if i < a.len() {
            assert((a + b)[i] == a[i]);
        } else {
            assert((a + b)[i] == b[i - a.len()]);
        }
    }
}

/// The views of a vector of field strings.
pub open spec fn views_of(v: Seq<String>) -> Seq<Seq<char>> {
    v.map_values(|x: String| x@)
}

/// Splits a line into its comma-delimited fields.
pub fn split_line(s: &str) -> (fields: Vec<String>)
    ensures
        views_of(fields@) == split_commas(s@),
{
    let n: usize = s.unicode_len();
    let mut fields: Vec<String> = Vec::new();
    let mut cur: String = String::new();
    let mut start: usize = 0;
    let mut i: usize = 0;
    proof {
        assert(views_of(fields@) =~~= Seq::<Seq<char>>::empty());
        assert(s@.skip(0) =~= s@);
        assert(views_of(fields@) + split_commas(s@) =~~= split_commas(s@));
        assert(cur@ =~= s@.subrange(0, 0));
    }
    while i < n
        invariant
            n == s@.len(),
            start <= i <= n,
            cur@ == s@.subrange(start as int, i as int),
            forall|j: int| start <= j < i ==> s@[j] != ',',
            views_of(fields@) + split_commas(s@.skip(start as int)) == split_commas(s@),
        decreases n - i,
    {
        let c = s.get_char(i);
        if c == ',' {
            proof {
                let t = s@.skip(start as int);
                assert forall|j: int| 0 <= j < i - start implies t[j] != ',' by {
                    assert(t[j] == s@[start + j]);
                }
                assert(t[i - start] == s@[i as int]);
                lemma_first_at_is(t, ',', i - start);
                assert(t.take(i - start) =~= s@.subrange(start as int, i as int));
                assert(t.skip(i - start + 1) =~= s@.skip(i as int + 1));
                assert(split_commas(t)
                    == seq![cur@] + split_commas(s@.skip(i as int + 1)));
                assert(views_of(fields@.push(cur)) =~~= views_of(fields@).push(cur@));
                assert(views_of(fields@).push(cur@) + split_commas(s@.skip(i as int + 1))
                    =~~= views_of(fields@) + split_commas(t));
                assert(s@.subrange(i as int + 1, i as int + 1)
                    =~= s@.subrange(start as int, i as int).subrange(0, 0));
            }
            fields.push(cur);
            cur = String::new();
            start = i + 1;
            proof {
                assert(cur@ =~= s@.subrange(start as int, start as int));
            }
        } else {
            cur.push(c);
            proof {
                assert(s@.subrange(start as int, i as int + 1)
                    =~= s@.subrange(start as int, i as int).push(s@[i as int]));
            }
        }
        i += 1;
    }
    proof {
        let t = s@.skip(start as int);
        assert forall|j: int| 0 <= j < t.len() implies t[j] != ',' by {
            assert(t[j] == s@[start + j]);
        }
        lemma_first_at_is(t, ',', t.len() as int);
        assert(t =~= cur@);
        assert(split_commas(t) == seq![t]);
        assert(views_of(fields@.push(cur)) =~~= views_of(fields@).push(cur@));
        assert(views_of(fields@).push(cur@) =~~= views_of(fields@) + seq![t]);
    }
    fields.push(cur);
    fields
}

} // verus!
