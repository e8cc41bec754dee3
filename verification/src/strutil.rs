//! Character-sequence utilities: substring tests, splitting, joining and
//! trimming, each with an exact specification over `Seq<char>`.

use vstd::prelude::*;

verus! {

/// `pat` occurs in `s` starting at index `i`.
pub open spec fn occurs_at(s: Seq<char>, pat: Seq<char>, i: int) -> bool {
    0 <= i && i + pat.len() <= s.len() && s.subrange(i, i + pat.len()) == pat
}

/// `pat` occurs somewhere in `s`.
pub open spec fn contains_seq(s: Seq<char>, pat: Seq<char>) -> bool {
    exists|i: int| occurs_at(s, pat, i)
}

/// `s` begins with `pat`.
pub open spec fn starts_with(s: Seq<char>, pat: Seq<char>) -> bool {
    pat.len() <= s.len() && s.subrange(0, pat.len() as int) == pat
}

/// `s` ends with `pat`.
pub open spec fn ends_with(s: Seq<char>, pat: Seq<char>) -> bool {
    pat.len() <= s.len() && s.subrange(s.len() - pat.len(), s.len() as int) == pat
}

pub proof fn lemma_starts_with_index(s: Seq<char>, pat: Seq<char>, i: int)
    requires
        starts_with(s, pat),
        0 <= i < pat.len(),
    ensures
        s[i] == pat[i],
{
    assert(s.subrange(0, pat.len() as int)[i] == s[i]);
}

pub proof fn lemma_starts_with_differs(s: Seq<char>, pat: Seq<char>, i: int)
    requires
        0 <= i < pat.len(),
        i < s.len(),
        s[i] != pat[i],
    ensures
        !starts_with(s, pat),
{
    if starts_with(s, pat) {
        lemma_starts_with_index(s, pat, i);
    }
}

/// Starting with a concatenation's first operand is definitional.
pub proof fn lemma_concat_starts_with(a: Seq<char>, b: Seq<char>)
    ensures
        starts_with(a + b, a),
{
    assert((a + b).subrange(0, a.len() as int) =~= a);
}

/// Splits `s` on the separator `sep`, keeping empty pieces; never empty.
pub open spec fn split_on(s: Seq<char>, sep: char) -> Seq<Seq<char>>
    decreases s.len(),
{
    if s.len() == 0 {
        seq![Seq::<char>::empty()]
    } else if s[0] == sep {
        seq![Seq::<char>::empty()] + split_on(s.drop_first(), sep)
    } else {
        let r = split_on(s.drop_first(), sep);
        r.update(0, seq![s[0]] + r[0])
    }
}

pub proof fn lemma_split_on_len(s: Seq<char>, sep: char)
    ensures
        split_on(s, sep).len() >= 1,
    decreases s.len(),
{
    if s.len() > 0 {
        lemma_split_on_len(s.drop_first(), sep);
    }
}

/// Appending one character either extends the last piece or opens a new one.
pub proof fn lemma_split_on_push(s: Seq<char>, c: char, sep: char)
    ensures
        c == sep ==> split_on(s.push(c), sep) == split_on(s, sep).push(Seq::<char>::empty()),
        c != sep ==> split_on(s.push(c), sep) == split_on(s, sep).update(
            split_on(s, sep).len() - 1,
            split_on(s, sep).last().push(c),
        ),
    decreases s.len(),
{
    lemma_split_on_len(s, sep);
    let p = s.push(c);
    if s.len() == 0 {
        assert(p[0] == c);
        assert(p.drop_first() =~= s);
        if c == sep {
            assert(split_on(p, sep) == seq![Seq::<char>::empty()] + split_on(p.drop_first(), sep));
            assert(split_on(p, sep) =~~= split_on(s, sep).push(Seq::<char>::empty()));
        } else {
            let r = split_on(p.drop_first(), sep);
            assert(r == split_on(s, sep));
            assert(split_on(p, sep) == r.update(0, seq![p[0]] + r[0]));
            assert(split_on(p, sep) =~~= split_on(s, sep).update(
                split_on(s, sep).len() - 1,
                split_on(s, sep).last().push(c),
            ));
        }
    } else {
        lemma_split_on_len(s.drop_first(), sep);
        assert(p[0] == s[0]);
        assert(p.drop_first() =~= s.drop_first().push(c));
        lemma_split_on_push(s.drop_first(), c, sep);
        let rs = split_on(s.drop_first(), sep);
        let rp = split_on(p.drop_first(), sep);
        if s[0] == sep {
            assert(split_on(s, sep) == seq![Seq::<char>::empty()] + rs);
            assert(split_on(p, sep) == seq![Seq::<char>::empty()] + rp);
            if c == sep {
                assert(split_on(p, sep) =~~= split_on(s, sep).push(Seq::<char>::empty()));
            } else {
                assert(split_on(s, sep).last() == rs.last());
                assert(split_on(p, sep) =~~= split_on(s, sep).update(
                    split_on(s, sep).len() - 1,
                    split_on(s, sep).last().push(c),
                ));
            }
        } else {
            assert(split_on(s, sep) == rs.update(0, seq![s[0]] + rs[0]));
            assert(split_on(p, sep) == rp.update(0, seq![p[0]] + rp[0]));
            if c == sep {
                assert(rp[0] == rs[0]);
                assert(split_on(p, sep) =~~= split_on(s, sep).push(Seq::<char>::empty()));
            } else {
                if rs.len() == 1 {
                    assert(rp[0] == rs[0].push(c));
                    assert(seq![p[0]] + rp[0] =~= (seq![s[0]] + rs[0]).push(c));
                    assert(split_on(s, sep).last() == seq![s[0]] + rs[0]);
                    assert(split_on(p, sep) =~~= split_on(s, sep).update(
                        split_on(s, sep).len() - 1,
                        split_on(s, sep).last().push(c),
                    ));
                } else {
                    assert(rp[0] == rs[0]);
                    assert(split_on(s, sep).last() == rs.last());
                    assert(split_on(p, sep).last() == rp.last());
                    assert(split_on(p, sep) =~~= split_on(s, sep).update(
                        split_on(s, sep).len() - 1,
                        split_on(s, sep).last().push(c),
                    ));
                }
            }
        }
    }
}

/// Drops the empty pieces of a split.
pub open spec fn keep_nonempty(parts: Seq<Seq<char>>) -> Seq<Seq<char>>
    decreases parts.len(),
{
    if parts.len() == 0 {
        Seq::empty()
    } else if parts.first().len() == 0 {
        keep_nonempty(parts.drop_first())
    } else {
        seq![parts.first()] + keep_nonempty(parts.drop_first())
    }
}

pub proof fn lemma_keep_nonempty_push(parts: Seq<Seq<char>>, t: Seq<char>)
    ensures
        t.len() == 0 ==> keep_nonempty(parts.push(t)) == keep_nonempty(parts),
        t.len() > 0 ==> keep_nonempty(parts.push(t)) == keep_nonempty(parts).push(t),
    decreases parts.len(),
{
    if parts.len() == 0 {
        assert(parts.push(t).first() == t);
        assert(parts.push(t).drop_first() =~= Seq::<Seq<char>>::empty());
        if t.len() == 0 {
            assert(keep_nonempty(parts.push(t)) == keep_nonempty(Seq::<Seq<char>>::empty()));
        } else {
            assert(keep_nonempty(parts.push(t)) == seq![t] + keep_nonempty(
                Seq::<Seq<char>>::empty(),
            ));
            assert(seq![t] + keep_nonempty(Seq::<Seq<char>>::empty()) =~= keep_nonempty(
                parts,
            ).push(t));
        }
    } else {
        assert(parts.push(t).first() == parts.first());
        assert(parts.push(t).drop_first() =~= parts.drop_first().push(t));
        lemma_keep_nonempty_push(parts.drop_first(), t);
        if parts.first().len() == 0 {
            assert(keep_nonempty(parts.push(t)) == keep_nonempty(parts.drop_first().push(t)));
            assert(keep_nonempty(parts) == keep_nonempty(parts.drop_first()));
        } else {
            assert(keep_nonempty(parts.push(t)) == seq![parts.first()] + keep_nonempty(
                parts.drop_first().push(t),
            ));
            assert(keep_nonempty(parts) == seq![parts.first()] + keep_nonempty(
                parts.drop_first(),
            ));
            if t.len() > 0 {
                assert(seq![parts.first()] + keep_nonempty(parts.drop_first()).push(t) =~= (
                seq![parts.first()] + keep_nonempty(parts.drop_first())).push(t));
            }
        }
    }
}

/// Whether this library counts `c` as blank space when trimming.
pub open spec fn is_space_char(c: char) -> bool {
    c == ' ' || c == '\t' || c == '\r' || c == '\n'
}

pub open spec fn trim_start_spec(s: Seq<char>) -> Seq<char>
    decreases s.len(),
{
    if s.len() > 0 && is_space_char(s.first()) {
        trim_start_spec(s.drop_first())
    } else {
        s
    }
}

pub open spec fn trim_end_spec(s: Seq<char>) -> Seq<char>
    decreases s.len(),
{
    if s.len() > 0 && is_space_char(s.last()) {
        trim_end_spec(s.drop_last())
    } else {
        s
    }
}

pub open spec fn trim_spec(s: Seq<char>) -> Seq<char> {
    trim_end_spec(trim_start_spec(s))
}

/// Interleaves `sep` between the pieces.
pub open spec fn join_on(parts: Seq<Seq<char>>, sep: char) -> Seq<char>
    decreases parts.len(),
{
    if parts.len() == 0 {
        Seq::empty()
    } else if parts.len() == 1 {
        parts.first()
    } else {
        parts.first() + seq![sep] + join_on(parts.drop_first(), sep)
    }
}

/// Splitting a join restores the pieces when none of them holds the separator.
pub proof fn lemma_split_on_join(parts: Seq<Seq<char>>, sep: char)
    requires
        parts.len() >= 1,
        forall|i: int, j: int|
            0 <= i < parts.len() && 0 <= j < parts[i].len() ==> parts[i][j] != sep,
    ensures
        split_on(join_on(parts, sep), sep) == parts,
    decreases parts.len(),
{
    if parts.len() == 1 {
        lemma_split_on_sep_free(parts.first(), sep);
        assert(split_on(join_on(parts, sep), sep) =~= parts);
    } else {
        lemma_split_on_join(parts.drop_first(), sep);
        lemma_split_prepend_piece(parts.first(), join_on(parts.drop_first(), sep), sep);
        assert(seq![parts.first()] + parts.drop_first() =~= parts);
    }
}

/// A separator-free sequence splits into itself alone.
pub proof fn lemma_split_on_sep_free(s: Seq<char>, sep: char)
    requires
        forall|j: int| 0 <= j < s.len() ==> s[j] != sep,
    ensures
        split_on(s, sep) == seq![s],
    decreases s.len(),
{
    if s.len() == 0 {
        assert(s =~= Seq::<char>::empty());
        assert(split_on(s, sep) =~~= seq![s]);
    } else {
        lemma_split_on_sep_free(s.drop_first(), sep);
        lemma_split_on_len(s.drop_first(), sep);
        let r = split_on(s.drop_first(), sep);
        assert(r == seq![s.drop_first()]);
        assert(s[0] != sep);
        assert(split_on(s, sep) == r.update(0, seq![s[0]] + r[0]));
        assert(seq![s[0]] + s.drop_first() =~= s);
        assert(split_on(s, sep) =~~= seq![s]);
    }
}

/// Splitting `a . rest` with separator-free `a` yields `a` then the split of `rest`.
pub proof fn lemma_split_prepend_piece(a: Seq<char>, rest: Seq<char>, sep: char)
    requires
        forall|j: int| 0 <= j < a.len() ==> a[j] != sep,
    ensures
        split_on(a + seq![sep] + rest, sep) == seq![a] + split_on(rest, sep),
    decreases a.len(),
{
    if a.len() == 0 {
        let s = a + seq![sep] + rest;
        assert(s[0] == sep);
        assert(s.drop_first() =~= rest);
        assert(split_on(s, sep) == seq![Seq::<char>::empty()] + split_on(s.drop_first(), sep));
        assert(a =~= Seq::<char>::empty());
        assert(split_on(s, sep) =~~= seq![a] + split_on(rest, sep));
    } else {
        let s = a + seq![sep] + rest;
        assert(s[0] == a[0]);
        assert(s[0] != sep);
        assert(s.drop_first() =~= a.drop_first() + seq![sep] + rest);
        lemma_split_prepend_piece(a.drop_first(), rest, sep);
        lemma_split_on_len(rest, sep);
        let r = split_on(s.drop_first(), sep);
        assert(r == seq![a.drop_first()] + split_on(rest, sep));
        assert(r[0] == a.drop_first());
        assert(split_on(s, sep) == r.update(0, seq![s[0]] + r[0]));
        assert(seq![s[0]] + r[0] =~= a);
        assert(split_on(s, sep) =~~= seq![a] + split_on(rest, sep));
    }
}

/// Keeping the non-empty pieces of an all-non-empty family changes nothing.
pub proof fn lemma_keep_nonempty_id(parts: Seq<Seq<char>>)
    requires
        forall|i: int| 0 <= i < parts.len() ==> parts[i].len() > 0,
    ensures
        keep_nonempty(parts) == parts,
    decreases parts.len(),
{
    if parts.len() > 0 {
        lemma_keep_nonempty_id(parts.drop_first());
        assert(keep_nonempty(parts) =~= parts);
    }
}

/// True iff `pat` occurs at position `i` of `s`.
pub fn match_at(s: &str, i: usize, pat: &str) -> (r: bool)
    ensures
        r == occurs_at(s@, pat@, i as int),
{
    let n: usize = s.unicode_len();
    let m: usize = pat.unicode_len();
    if i > n || m > n - i {
        assert(!occurs_at(s@, pat@, i as int));
        return false;
    }
    let mut j: usize = 0;
    while j < m
        invariant
            i + m <= n,
            n == s@.len(),
            m == pat@.len(),
            j <= m,
            forall|k: int| 0 <= k < j ==> s@[i + k] == pat@[k],
        decreases m - j,
    {
        if s.get_char(i + j) != pat.get_char(j) {
            assert(s@.subrange(i as int, i + m) != pat@) by {
                assert(s@.subrange(i as int, i + m)[j as int] != pat@[j as int]);
            }
            return false;
        }
        j += 1;
    }
    assert(s@.subrange(i as int, i + m) =~= pat@);
    true
}

/// True iff `s` begins with `pat`.
pub fn starts_with_str(s: &str, pat: &str) -> (r: bool)
    ensures
        r == starts_with(s@, pat@),
{
    let r = match_at(s, 0, pat);
    proof {
        if occurs_at(s@, pat@, 0) {
            assert(starts_with(s@, pat@));
        }
    }
    r
}

/// True iff `s` ends with `pat`.
pub fn ends_with_str(s: &str, pat: &str) -> (r: bool)
    ensures
        r == ends_with(s@, pat@),
{
    let n: usize = s.unicode_len();
    let m: usize = pat.unicode_len();
    if m > n {
        return false;
    }
    let r = match_at(s, n - m, pat);
    proof {
        assert(r == ends_with(s@, pat@));
    }
    r
}

/// True iff `pat` occurs anywhere in `s`.
pub fn contains_str(s: &str, pat: &str) -> (r: bool)
    ensures
        r == contains_seq(s@, pat@),
{
    let n: usize = s.unicode_len();
    let m: usize = pat.unicode_len();
    if m > n {
        assert(!contains_seq(s@, pat@));
        return false;
    }
    let last: usize = n - m;
    let mut i: usize = 0;
    loop
        invariant
            m <= n,
            n == s@.len(),
            m == pat@.len(),
            last == n - m,
            i <= last,
            forall|k: int| 0 <= k < i ==> !occurs_at(s@, pat@, k),
        decreases last - i,
    {
        if match_at(s, i, pat) {
            return true;
        }
        if i == last {
            proof {
                assert forall|k: int| !occurs_at(s@, pat@, k) by {
                    if occurs_at(s@, pat@, k) {
                        assert(0 <= k <= last);
                    }
                }
            }
            return false;
        }
        i += 1;
    }
}

/// True iff the two slices hold the same characters.
pub fn str_eq(a: &str, b: &str) -> (r: bool)
    ensures
        r == (a@ == b@),
{
    let n: usize = a.unicode_len();
    if n != b.unicode_len() {
        return false;
    }
    let r = match_at(a, 0, b);
    proof {
        if occurs_at(a@, b@, 0) {
            assert(a@.subrange(0, n as int) =~= a@);
        }
        if a@ == b@ {
            assert(a@.subrange(0, n as int) =~= b@);
        }
    }
    r
}

/// Splits `s` on `sep`, keeping empty pieces.
pub fn split_str(s: &str, sep: char) -> (r: Vec<String>)
    ensures
        r@.map_values(|t: String| t@) == split_on(s@, sep),
{
    let n: usize = s.unicode_len();
    let mut done: Vec<String> = Vec::new();
    let mut start: usize = 0;
    let mut i: usize = 0;
    proof {
        assert(s@.subrange(0, 0) =~= Seq::<char>::empty());
        assert(split_on(s@.subrange(0, 0), sep) == seq![Seq::<char>::empty()]);
        assert(done@.map_values(|t: String| t@).push(s@.subrange(0, 0)) =~= seq![
            Seq::<char>::empty(),
        ]);
    }
    while i < n
        invariant
            n == s@.len(),
            start <= i <= n,
            done@.map_values(|t: String| t@).push(s@.subrange(start as int, i as int)) == split_on(
                s@.subrange(0, i as int),
                sep,
            ),
        decreases n - i,
    {
        let ghost prefix = s@.subrange(0, i as int);
        let c = s.get_char(i);
        proof {
            lemma_split_on_push(prefix, c, sep);
            assert(prefix.push(c) =~= s@.subrange(0, i + 1));
            lemma_split_on_len(prefix, sep);
        }
        if c == sep {
            done.push(String::from_str(s.substring_char(start, i)));
            start = i + 1;
            proof {
                assert(s@.subrange(start as int, i + 1) =~= Seq::<char>::empty());
                assert(done@.map_values(|t: String| t@).push(s@.subrange(start as int, i + 1))
                    =~= split_on(s@.subrange(0, i + 1), sep));
            }
        } else {
            proof {
                let parts = split_on(prefix, sep);
                assert(s@.subrange(start as int, i + 1) =~= s@.subrange(start as int, i as int).push(c));
                assert(done@.map_values(|t: String| t@).push(s@.subrange(start as int, i + 1))
                    =~= parts.update(parts.len() - 1, parts.last().push(c)));
            }
        }
        i += 1;
    }
    proof {
        assert(s@.subrange(0, n as int) =~= s@);
    }
    done.push(String::from_str(s.substring_char(start, n)));
    proof {
        assert(done@.map_values(|t: String| t@) =~= split_on(s@, sep));
    }
    done
}

/// Drops the empty strings of a family.
pub fn filter_nonempty(parts: Vec<String>) -> (r: Vec<String>)
    ensures
        r@.map_values(|t: String| t@) == keep_nonempty(parts@.map_values(|t: String| t@)),
{
    let mut r: Vec<String> = Vec::new();
    let mut i: usize = 0;
    while i < parts.len()
        invariant
            i <= parts@.len(),
            r@.map_values(|t: String| t@) == keep_nonempty(
                parts@.subrange(0, i as int).map_values(|t: String| t@),
            ),
        decreases parts@.len() - i,
    {
        let ghost prefix = parts@.subrange(0, i as int).map_values(|t: String| t@);
        let t = &parts[i];
        proof {
            lemma_keep_nonempty_push(prefix, t@);
            assert(parts@.subrange(0, i + 1).map_values(|tt: String| tt@) =~= prefix.push(t@));
        }
        if t.as_str().unicode_len() > 0 {
            r.push(t.clone());
            proof {
                assert(r@.map_values(|tt: String| tt@) =~= keep_nonempty(prefix).push(t@));
            }
        }
        i += 1;
    }
    proof {
        assert(parts@.subrange(0, parts@.len() as int) =~= parts@);
    }
    r
}

/// The characters of `s` with every trailing `c` removed.
pub open spec fn trim_trailing_spec(s: Seq<char>, c: char) -> Seq<char>
    decreases s.len(),
{
    if s.len() > 0 && s.last() == c {
        trim_trailing_spec(s.drop_last(), c)
    } else {
        s
    }
}

/// Removes every trailing occurrence of `c`.
pub fn trim_trailing<'a>(s: &'a str, c: char) -> (r: &'a str)
    ensures
        r@ == trim_trailing_spec(s@, c),
{
    let n: usize = s.unicode_len();
    let mut end: usize = n;
    proof {
        assert(s@.subrange(0, n as int) =~= s@);
    }
    while end > 0 && s.get_char(end - 1) == c
        invariant
            n == s@.len(),
            end <= n,
            trim_trailing_spec(s@, c) == trim_trailing_spec(s@.subrange(0, end as int), c),
        decreases end,
    {
        proof {
            let t = s@.subrange(0, end as int);
            assert(t.last() == c);
            assert(t.drop_last() =~= s@.subrange(0, end - 1));
        }
        end -= 1;
    }
    proof {
        if end == 0 {
            assert(s@.subrange(0, 0) =~= Seq::<char>::empty());
        } else {
            let t = s@.subrange(0, end as int);
            assert(t.last() != c);
        }
        assert(trim_trailing_spec(s@, c) == s@.subrange(0, end as int));
    }
    let r = s.substring_char(0, end);
    proof {
        assert(s@.subrange(0, n as int) =~= s@);
    }
    r
}

/// Removes leading and trailing blank space.
pub fn trim_str<'a>(s: &'a str) -> (r: &'a str)
    ensures
        r@ == trim_spec(s@),
{
    let n: usize = s.unicode_len();
    let mut start: usize = 0;
    proof {
        assert(s@.subrange(0, n as int) =~= s@);
    }
    while start < n && is_space(s.get_char(start))
        invariant
            n == s@.len(),
            start <= n,
            trim_start_spec(s@) == trim_start_spec(s@.subrange(start as int, n as int)),
        decreases n - start,
    {
        proof {
            let t = s@.subrange(start as int, n as int);
            assert(t.first() == s@[start as int]);
            assert(t.drop_first() =~= s@.subrange(start + 1, n as int));
        }
        start += 1;
    }
    proof {
        let t = s@.subrange(start as int, n as int);
        if start < n {
            assert(t.first() == s@[start as int]);
        }
        assert(trim_start_spec(s@) == t);
        assert(s@.subrange(0, n as int) =~= s@);
    }
    let mut end: usize = n;
    while end > start && is_space(s.get_char(end - 1))
        invariant
            n == s@.len(),
            start <= end <= n,
            trim_start_spec(s@) == s@.subrange(start as int, n as int),
            trim_end_spec(s@.subrange(start as int, n as int)) == trim_end_spec(
                s@.subrange(start as int, end as int),
            ),
        decreases end,
    {
        proof {
            let t = s@.subrange(start as int, end as int);
            assert(t.last() == s@[end - 1]);
            assert(t.drop_last() =~= s@.subrange(start as int, end - 1));
        }
        end -= 1;
    }
    proof {
        let t = s@.subrange(start as int, end as int);
        if end > start {
            assert(t.last() == s@[end - 1]);
        } else {
            assert(t =~= Seq::<char>::empty());
        }
        assert(trim_spec(s@) == s@.subrange(start as int, end as int));
    }
    s.substring_char(start, end)
}

/// Interleaves a separator string between the pieces.
pub open spec fn join_with(parts: Seq<Seq<char>>, sep: Seq<char>) -> Seq<char>
    decreases parts.len(),
{
    if parts.len() == 0 {
        Seq::empty()
    } else if parts.len() == 1 {
        parts.first()
    } else {
        parts.first() + sep + join_with(parts.drop_first(), sep)
    }
}

pub proof fn lemma_join_with_push(parts: Seq<Seq<char>>, t: Seq<char>, sep: Seq<char>)
    ensures
        parts.len() == 0 ==> join_with(parts.push(t), sep) == t,
        parts.len() > 0 ==> join_with(parts.push(t), sep) == join_with(parts, sep) + sep + t,
    decreases parts.len(),
{
    let p = parts.push(t);
    if parts.len() == 0 {
        assert(p.first() == t);
    } else if parts.len() == 1 {
        assert(p.first() == parts.first());
        assert(p.drop_first() =~= seq![t]);
        assert(join_with(p.drop_first(), sep) == t);
        assert(join_with(parts, sep) == parts.first());
    } else {
        assert(p.first() == parts.first());
        assert(p.drop_first() =~= parts.drop_first().push(t));
        lemma_join_with_push(parts.drop_first(), t, sep);
        assert(parts.first() + sep + (join_with(parts.drop_first(), sep) + sep + t) =~= (
        parts.first() + sep + join_with(parts.drop_first(), sep)) + sep + t);
    }
}

/// Joins strings with a separator string.
pub fn join_all(parts: &Vec<String>, sep: &str) -> (r: String)
    ensures
        r@ == join_with(parts@.map_values(|l: String| l@), sep@),
{
    let ghost pv = parts@.map_values(|l: String| l@);
    let mut r = String::new();
    let mut i: usize = 0;
    while i < parts.len()
        invariant
            i <= parts@.len(),
            pv == parts@.map_values(|l: String| l@),
            r@ == join_with(pv.subrange(0, i as int), sep@),
        decreases parts@.len() - i,
    {
        proof {
            lemma_join_with_push(pv.subrange(0, i as int), pv[i as int], sep@);
            assert(pv.subrange(0, i + 1) =~= pv.subrange(0, i as int).push(pv[i as int]));
        }
        if i > 0 {
            r.append(sep);
        }
        r.append(parts[i].as_str());
        i += 1;
    }
    proof {
        assert(pv.subrange(0, pv.len() as int) =~= pv);
    }
    r
}

/// True iff this library counts `c` as blank space.
pub fn is_space(c: char) -> (r: bool)
    ensures
        r == is_space_char(c),
{
    c == ' ' || c == '\t' || c == '\r' || c == '\n'
}



} // verus!
