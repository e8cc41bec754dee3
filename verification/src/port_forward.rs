//! The port-forward launch: the exact argument list handed to the
//! orchestrator, and the reading of its announcement line to learn the
//! assigned local port.

use vstd::prelude::*;
use crate::strutil::{
    contains_seq, contains_str, filter_nonempty, is_space, is_space_char, keep_nonempty,
    occurs_at,
};
use crate::numfmt::{parse_u16, spec_parse_u16, dec_str};

verus! {

/// Splits on blank space, keeping empty pieces; never empty.
pub open spec fn split_space(s: Seq<char>) -> Seq<Seq<char>>
    decreases s.len(),
{
    if s.len() == 0 {
        seq![Seq::<char>::empty()]
    } else if is_space_char(s[0]) {
        seq![Seq::<char>::empty()] + split_space(s.drop_first())
    } else {
        let r = split_space(s.drop_first());
        r.update(0, seq![s[0]] + r[0])
    }
}

proof fn lemma_split_space_len(s: Seq<char>)
    ensures
        split_space(s).len() >= 1,
    decreases s.len(),
{
    if s.len() > 0 {
        lemma_split_space_len(s.drop_first());
    }
}

proof fn lemma_split_space_push(s: Seq<char>, c: char)
    ensures
        is_space_char(c) ==> split_space(s.push(c)) == split_space(s).push(Seq::<char>::empty()),
        !is_space_char(c) ==> split_space(s.push(c)) == split_space(s).update(
            split_space(s).len() - 1,
            split_space(s).last().push(c),
        ),
    decreases s.len(),
{
    lemma_split_space_len(s);
    let p = s.push(c);
    if s.len() == 0 {
        assert(p[0] == c);
        assert(p.drop_first() =~= s);
        if is_space_char(c) {
            assert(split_space(p) == seq![Seq::<char>::empty()] + split_space(p.drop_first()));
            assert(split_space(p) =~~= split_space(s).push(Seq::<char>::empty()));
        } else {
            let r = split_space(p.drop_first());
            assert(r == split_space(s));
            assert(split_space(p) == r.update(0, seq![p[0]] + r[0]));
            assert(split_space(p) =~~= split_space(s).update(
                split_space(s).len() - 1,
                split_space(s).last().push(c),
            ));
        }
    } else {
        lemma_split_space_len(s.drop_first());
        assert(p[0] == s[0]);
        assert(p.drop_first() =~= s.drop_first().push(c));
        lemma_split_space_push(s.drop_first(), c);
        let rs = split_space(s.drop_first());
        let rp = split_space(p.drop_first());
        if is_space_char(s[0]) {
            assert(split_space(s) == seq![Seq::<char>::empty()] + rs);
            assert(split_space(p) == seq![Seq::<char>::empty()] + rp);
            if is_space_char(c) {
                assert(split_space(p) =~~= split_space(s).push(Seq::<char>::empty()));
            } else {
                assert(split_space(s).last() == rs.last());
                assert(split_space(p) =~~= split_space(s).update(
                    split_space(s).len() - 1,
                    split_space(s).last().push(c),
                ));
            }
        } else {
            assert(split_space(s) == rs.update(0, seq![s[0]] + rs[0]));
            assert(split_space(p) == rp.update(0, seq![p[0]] + rp[0]));
            if is_space_char(c) {
                assert(rp[0] == rs[0]);
                assert(split_space(p) =~~= split_space(s).push(Seq::<char>::empty()));
            } else {
                if rs.len() == 1 {
                    assert(rp[0] == rs[0].push(c));
                    assert(seq![p[0]] + rp[0] =~= (seq![s[0]] + rs[0]).push(c));
                    assert(split_space(s).last() == seq![s[0]] + rs[0]);
                    assert(split_space(p) =~~= split_space(s).update(
                        split_space(s).len() - 1,
                        split_space(s).last().push(c),
                    ));
                } else {
                    assert(rp[0] == rs[0]);
                    assert(split_space(s).last() == rs.last());
                    assert(split_space(p).last() == rp.last());
                    assert(split_space(p) =~~= split_space(s).update(
                        split_space(s).len() - 1,
                        split_space(s).last().push(c),
                    ));
                }
            }
        }
    }
}

/// Splits on blank space, keeping empty pieces.
pub fn split_space_str(s: &str) -> (r: Vec<String>)
    ensures
        r@.map_values(|t: String| t@) == split_space(s@),
{
    let n: usize = s.unicode_len();
    let mut done: Vec<String> = Vec::new();
    let mut start: usize = 0;
    let mut i: usize = 0;
    proof {
        assert(s@.subrange(0, 0) =~= Seq::<char>::empty());
        assert(split_space(s@.subrange(0, 0)) == seq![Seq::<char>::empty()]);
        assert(done@.map_values(|t: String| t@).push(s@.subrange(0, 0)) =~= seq![
            Seq::<char>::empty(),
        ]);
    }
    while i < n
        invariant
            n == s@.len(),
            start <= i <= n,
            done@.map_values(|t: String| t@).push(s@.subrange(start as int, i as int))
                == split_space(s@.subrange(0, i as int)),
        decreases n - i,
    {
        let ghost prefix = s@.subrange(0, i as int);
        let c = s.get_char(i);
        proof {
            lemma_split_space_push(prefix, c);
            assert(prefix.push(c) =~= s@.subrange(0, i + 1));
            lemma_split_space_len(prefix);
        }
        if is_space(c) {
            done.push(String::from_str(s.substring_char(start, i)));
            start = i + 1;
            proof {
                assert(s@.subrange(start as int, i + 1) =~= Seq::<char>::empty());
                assert(done@.map_values(|t: String| t@).push(s@.subrange(start as int, i + 1))
                    =~= split_space(s@.subrange(0, i + 1)));
            }
        } else {
            proof {
                let parts = split_space(prefix);
                assert(s@.subrange(start as int, i + 1) =~= s@.subrange(
                    start as int,
                    i as int,
                ).push(c));
                assert(done@.map_values(|t: String| t@).push(s@.subrange(start as int, i + 1))
                    =~= parts.update(parts.len() - 1, parts.last().push(c)));
            }
        }
        i += 1;
    }
    proof {
        assert(s@.subrange(0, n as int) =~= s@);
    }
    done.push(String::from_str(s.substring_char(start, n)));
    proof {
        assert(done@.map_values(|t: String| t@) =~= split_space(s@));
    }
    done
}

/// The first piece holding a colon, if any.
pub open spec fn first_colon_tok(toks: Seq<Seq<char>>) -> Option<Seq<char>>
    decreases toks.len(),
{
    if toks.len() == 0 {
        Option::None
    } else if contains_seq(toks.first(), ":"@) {
        Option::Some(toks.first())
    } else {
        first_colon_tok(toks.drop_first())
    }
}

/// What follows the last occurrence of `c`, if `c` occurs at all.
pub open spec fn after_last(t: Seq<char>, c: char) -> Option<Seq<char>>
    decreases t.len(),
{
    if t.len() == 0 {
        Option::None
    } else if t.last() == c {
        Option::Some(Seq::empty())
    } else {
        match after_last(t.drop_last(), c) {
            Option::Some(r) => Option::Some(r.push(t.last())),
            Option::None => Option::None,
        }
    }
}

/// What the announcement line yields: a line holding "Forwarding from"
/// whose first whitespace token with a colon names the port after its
/// last colon.
pub open spec fn spec_parse_port(line: Seq<char>) -> Option<u16> {
    if !contains_seq(line, "Forwarding from"@) {
        Option::None
    } else {
        match first_colon_tok(keep_nonempty(split_space(line))) {
            Option::None => Option::None,
            Option::Some(t) => match after_last(t, ':') {
                Option::None => Option::None,
                Option::Some(p) => spec_parse_u16(p),
            },
        }
    }
}

proof fn lemma_after_last_at(t: Seq<char>, c: char, k: int)
    requires
        0 <= k < t.len(),
        t[k] == c,
        forall|m: int| k < m < t.len() ==> t[m] != c,
    ensures
        after_last(t, c) == Option::Some(t.subrange(k + 1, t.len() as int)),
    decreases t.len(),
{
    if k == t.len() - 1 {
        assert(t.last() == c);
        assert(t.subrange(k + 1, t.len() as int) =~= Seq::<char>::empty());
    } else {
        assert(t.last() != c);
        assert(t.drop_last()[k] == c);
        assert(forall|m: int| k < m < t.drop_last().len() ==> t.drop_last()[m] != c);
        lemma_after_last_at(t.drop_last(), c, k);
        assert(t.drop_last().subrange(k + 1, t.len() - 1).push(t.last()) =~= t.subrange(
            k + 1,
            t.len() as int,
        ));
    }
}

proof fn lemma_after_last_none(t: Seq<char>, c: char)
    requires
        forall|m: int| 0 <= m < t.len() ==> t[m] != c,
    ensures
        after_last(t, c) is None,
    decreases t.len(),
{
    if t.len() > 0 {
        assert(t.last() != c);
        assert(forall|m: int| 0 <= m < t.drop_last().len() ==> t.drop_last()[m] != c);
        lemma_after_last_none(t.drop_last(), c);
    }
}

/// Reads the local port from a port-forward announcement line, as
/// `spec_parse_port` says.
#[verifier::loop_isolation(false)]
pub fn parse_port(line: &str) -> (r: Option<u16>)
    ensures
        r == spec_parse_port(line@),
{
    if !contains_str(line, "Forwarding from") {
        return None;
    }
    let toks: Vec<String> = filter_nonempty(split_space_str(line));
    let ghost tv = toks@.map_values(|t: String| t@);
    let mut i: usize = 0;
    proof {
        assert(tv.skip(0) =~= tv);
    }
    while i < toks.len()
        invariant
            i <= tv.len(),
            tv == toks@.map_values(|t: String| t@),
            first_colon_tok(tv) == first_colon_tok(tv.skip(i as int)),
        decreases tv.len() - i,
    {
        proof {
            assert(tv.skip(i as int).first() == tv[i as int]);
            assert(tv.skip(i as int).drop_first() =~= tv.skip(i + 1));
        }
        let t: &String = &toks[i];
        if contains_str(t.as_str(), ":") {
            // scan for the last colon of this token
            let m: usize = t.as_str().unicode_len();
            let mut j: usize = m;
            while j > 0 && t.as_str().get_char(j - 1) != ':'
                invariant
                    m == t@.len(),
                    j <= m,
                    forall|k: int| j <= k < m ==> t@[k] != ':',
                decreases j,
            {
                j -= 1;
            }
            if j == 0 {
                proof {
                    reveal_strlit(":");
                    lemma_after_last_none(t@, ':');
                    if contains_seq(t@, ":"@) {
                        let k = choose|k: int| occurs_at(t@, ":"@, k);
                        assert(t@.subrange(k, k + 1)[0] == ':');
                        assert(t@[k] == ':');
                    }
                }
                return None;
            }
            proof {
                lemma_after_last_at(t@, ':', j - 1);
            }
            let piece: &str = t.as_str().substring_char(j, m);
            let r = parse_u16(piece);
            proof {
                assert(t@.subrange(j as int, m as int) == after_last(t@, ':').unwrap());
            }
            return r;
        }
        i += 1;
    }
    proof {
        assert(tv.skip(tv.len() as int) =~= Seq::<Seq<char>>::empty());
    }
    None
}

/// The argument list of the port-forward subcommand: loopback only, the
/// namespace, the pod, and a remote port with the local port left to
/// the orchestrator.
pub fn port_forward_args(context: &Option<String>, namespace: &str, pod: &str, remote_port: u16)
    -> (r: Vec<String>)
    ensures
        r@.map_values(|a: String| a@) == (match context {
            Option::Some(c) => seq!["--context"@, c@],
            Option::None => Seq::<Seq<char>>::empty(),
        }) + seq![
            "port-forward"@,
            "--address"@,
            "localhost"@,
            "-n"@,
            namespace@,
            "pod/"@ + pod@,
            ":"@ + dec_str(remote_port as nat),
        ],
{
    let mut r: Vec<String> = Vec::new();
    match context {
        Some(c) => {
            r.push(String::from_str("--context"));
            r.push(c.clone());
        },
        None => {},
    }
    r.push(String::from_str("port-forward"));
    r.push(String::from_str("--address"));
    r.push(String::from_str("localhost"));
    r.push(String::from_str("-n"));
    r.push(String::from_str(namespace));
    let mut podarg = String::from_str("pod/");
    podarg.append(pod);
    r.push(podarg);
    let mut portarg = String::from_str(":");
    portarg.append(crate::numfmt::u16_to_string(remote_port).as_str());
    r.push(portarg);
    proof {
        match context {
            Option::Some(c) => {
                assert(r@.map_values(|a: String| a@) =~= seq!["--context"@, c@] + seq![
                    "port-forward"@,
                    "--address"@,
                    "localhost"@,
                    "-n"@,
                    namespace@,
                    "pod/"@ + pod@,
                    ":"@ + dec_str(remote_port as nat),
                ]);
            },
            Option::None => {
                assert(r@.map_values(|a: String| a@) =~= Seq::<Seq<char>>::empty() + seq![
                    "port-forward"@,
                    "--address"@,
                    "localhost"@,
                    "-n"@,
                    namespace@,
                    "pod/"@ + pod@,
                    ":"@ + dec_str(remote_port as nat),
                ]);
            },
        }
    }
    r
}

} // verus!
