//! The SSH-configuration block this helper owns, and the merge that
//! installs it: strip any previous marker-delimited block, trim trailing
//! blank lines, and append the fresh block.

use vstd::prelude::*;
use crate::strutil::{
    is_space, is_space_char, join_on, split_on, split_str, str_eq, trim_end_spec, trim_spec,
    trim_start_spec, trim_str,
};

verus! {

pub open spec fn start_marker() -> Seq<char> {
    "# >>> sshpod start"@
}

pub open spec fn end_marker() -> Seq<char> {
    "# <<< sshpod end"@
}

/// One trailing carriage return removed, as a line ending may carry one.
pub open spec fn strip_cr(l: Seq<char>) -> Seq<char> {
    if l.len() > 0 && l.last() == '\r' {
        l.drop_last()
    } else {
        l
    }
}

/// The lines of a text: newline-separated, a final newline optional,
/// one trailing carriage return per line dropped.
pub open spec fn spec_lines(s: Seq<char>) -> Seq<Seq<char>> {
    if s.len() == 0 {
        Seq::empty()
    } else {
        let t = if s.last() == '\n' {
            s.drop_last()
        } else {
            s
        };
        split_on(t, '\n').map_values(|l: Seq<char>| strip_cr(l))
    }
}

/// The lines kept by the merge: a line trimming to the start marker opens
/// a skipped region that the next line trimming to the end marker closes.
pub open spec fn keep_lines(ls: Seq<Seq<char>>, skipping: bool) -> Seq<Seq<char>>
    decreases ls.len(),
{
    if ls.len() == 0 {
        Seq::empty()
    } else if skipping {
        if trim_spec(ls.first()) == end_marker() {
            keep_lines(ls.drop_first(), false)
        } else {
            keep_lines(ls.drop_first(), true)
        }
    } else {
        if trim_spec(ls.first()) == start_marker() {
            keep_lines(ls.drop_first(), true)
        } else {
            seq![ls.first()] + keep_lines(ls.drop_first(), false)
        }
    }
}

/// Trailing lines that trim to nothing, removed.
pub open spec fn drop_trailing_blank(ls: Seq<Seq<char>>) -> Seq<Seq<char>>
    decreases ls.len(),
{
    if ls.len() > 0 && trim_spec(ls.last()).len() == 0 {
        drop_trailing_blank(ls.drop_last())
    } else {
        ls
    }
}

/// What the merge returns: the kept lines, a blank separator when any
/// were kept, then the block with its trailing space trimmed, and a
/// final newline.
pub open spec fn spec_merge(current: Seq<char>, block: Seq<char>) -> Seq<char> {
    let kept = drop_trailing_blank(keep_lines(spec_lines(current), false));
    let tail = trim_end_spec(block) + seq!['\n'];
    if kept.len() == 0 {
        tail
    } else {
        join_on(kept, '\n') + seq!['\n', '\n'] + tail
    }
}

/// The lines of the configuration block, the markers included.
pub open spec fn spec_block_lines() -> Seq<Seq<char>> {
    seq![
        "# >>> sshpod start"@,
        "Host *.sshpod"@,
        "  ProxyCommand ~/.local/bin/sshpod proxy --host %h --user %r --port %p"@,
        "  StrictHostKeyChecking no"@,
        "  UserKnownHostsFile /dev/null"@,
        "  GlobalKnownHostsFile /dev/null"@,
        "  CheckHostIP no"@,
        "  IdentityFile ~/.cache/sshpod/id_ed25519"@,
        "  IdentitiesOnly yes"@,
        "  BatchMode yes"@,
        "  ForwardAgent yes"@,
        "# <<< sshpod end"@,
    ]
}

/// The configuration block, between its two markers: its lines joined
/// by newlines, with a final newline.
pub open spec fn spec_render_block() -> Seq<char> {
    join_on(spec_block_lines(), '\n') + seq!['\n']
}

/// The configuration block this helper installs.
pub fn render_block() -> (r: String)
    ensures
        r@ == spec_render_block(),
{
    let mut lines: Vec<String> = Vec::new();
    lines.push(String::from_str("# >>> sshpod start"));
    lines.push(String::from_str("Host *.sshpod"));
    lines.push(String::from_str(
        "  ProxyCommand ~/.local/bin/sshpod proxy --host %h --user %r --port %p",
    ));
    lines.push(String::from_str("  StrictHostKeyChecking no"));
    lines.push(String::from_str("  UserKnownHostsFile /dev/null"));
    lines.push(String::from_str("  GlobalKnownHostsFile /dev/null"));
    lines.push(String::from_str("  CheckHostIP no"));
    lines.push(String::from_str("  IdentityFile ~/.cache/sshpod/id_ed25519"));
    lines.push(String::from_str("  IdentitiesOnly yes"));
    lines.push(String::from_str("  BatchMode yes"));
    lines.push(String::from_str("  ForwardAgent yes"));
    lines.push(String::from_str("# <<< sshpod end"));
    proof {
        reveal_strlit("\n");
        assert("\n"@ =~= seq!['\n']);
        assert(lines@.map_values(|l: String| l@) =~= spec_block_lines());
    }
    let mut r = join_lines(&lines, '\n', "\n");
    r.append("\n");
    r
}

/// One trailing carriage return removed.
fn chop_cr(l: &String) -> (r: String)
    ensures
        r@ == strip_cr(l@),
{
    let m: usize = l.as_str().unicode_len();
    if m > 0 && l.as_str().get_char(m - 1) == '\r' {
        let r = String::from_str(l.as_str().substring_char(0, m - 1));
        proof {
            assert(l@.subrange(0, m - 1) =~= l@.drop_last());
        }
        r
    } else {
        l.clone()
    }
}

/// The lines of a text, as `spec_lines` says.
pub fn lines_of(s: &str) -> (r: Vec<String>)
    ensures
        r@.map_values(|l: String| l@) == spec_lines(s@),
{
    let n: usize = s.unicode_len();
    if n == 0 {
        let r: Vec<String> = Vec::new();
        proof {
            assert(r@.map_values(|l: String| l@) =~= spec_lines(s@));
        }
        return r;
    }
    let t: &str = if s.get_char(n - 1) == '\n' {
        let u = s.substring_char(0, n - 1);
        proof {
            assert(s@.subrange(0, n - 1) =~= s@.drop_last());
        }
        u
    } else {
        proof {
            assert(s@.subrange(0, n as int) =~= s@);
        }
        s.substring_char(0, n)
    };
    let raw: Vec<String> = split_str(t, '\n');
    let ghost rawv = raw@.map_values(|l: String| l@);
    let mut r: Vec<String> = Vec::new();
    let mut i: usize = 0;
    while i < raw.len()
        invariant
            i <= raw@.len(),
            rawv == raw@.map_values(|l: String| l@),
            r@.map_values(|l: String| l@) == rawv.subrange(0, i as int).map_values(
                |l: Seq<char>| strip_cr(l),
            ),
        decreases raw@.len() - i,
    {
        r.push(chop_cr(&raw[i]));
        proof {
            assert(rawv.subrange(0, i + 1) =~= rawv.subrange(0, i as int).push(rawv[i as int]));
            assert(rawv.subrange(0, i + 1).map_values(|l: Seq<char>| strip_cr(l)) =~= rawv.subrange(
                0,
                i as int,
            ).map_values(|l: Seq<char>| strip_cr(l)).push(strip_cr(rawv[i as int])));
            assert(r@.map_values(|l: String| l@) =~= rawv.subrange(0, i as int).map_values(
                |l: Seq<char>| strip_cr(l),
            ).push(strip_cr(rawv[i as int])));
        }
        i += 1;
    }
    proof {
        assert(rawv.subrange(0, rawv.len() as int) =~= rawv);
        assert(r@.map_values(|l: String| l@) == spec_lines(s@));
    }
    r
}

/// Joins lines with the given separator character.
fn join_lines(parts: &Vec<String>, sep: char, sep_str: &str) -> (r: String)
    requires
        sep_str@ == seq![sep],
    ensures
        r@ == join_on(parts@.map_values(|l: String| l@), sep),
{
    let ghost pv = parts@.map_values(|l: String| l@);
    let mut r = String::new();
    let mut i: usize = 0;
    while i < parts.len()
        invariant
            i <= parts@.len(),
            pv == parts@.map_values(|l: String| l@),
            sep_str@ == seq![sep],
            r@ == join_on(pv.subrange(0, i as int), sep),
        decreases parts@.len() - i,
    {
        proof {
            lemma_join_on_push(pv.subrange(0, i as int), pv[i as int], sep);
            assert(pv.subrange(0, i + 1) =~= pv.subrange(0, i as int).push(pv[i as int]));
        }
        if i > 0 {
            r.append(sep_str);
        }
        r.append(parts[i].as_str());
        i += 1;
    }
    proof {
        assert(pv.subrange(0, pv.len() as int) =~= pv);
    }
    r
}

proof fn lemma_join_on_push(parts: Seq<Seq<char>>, t: Seq<char>, sep: char)
    ensures
        parts.len() == 0 ==> join_on(parts.push(t), sep) == t,
        parts.len() > 0 ==> join_on(parts.push(t), sep) == join_on(parts, sep) + seq![sep] + t,
    decreases parts.len(),
{
    let p = parts.push(t);
    if parts.len() == 0 {
        assert(p.first() == t);
    } else if parts.len() == 1 {
        assert(p.first() == parts.first());
        assert(p.drop_first() =~= seq![t]);
        assert(join_on(p.drop_first(), sep) == t);
        assert(join_on(parts, sep) == parts.first());
    } else {
        assert(p.first() == parts.first());
        assert(p.drop_first() =~= parts.drop_first().push(t));
        lemma_join_on_push(parts.drop_first(), t, sep);
        assert(parts.first() + seq![sep] + (join_on(parts.drop_first(), sep) + seq![sep] + t) =~= (
        parts.first() + seq![sep] + join_on(parts.drop_first(), sep)) + seq![sep] + t);
    }
}

/// Merges the block into a configuration text, as `spec_merge` says.
pub fn merge_config(current: &str, block: &str) -> (r: String)
    ensures
        r@ == spec_merge(current@, block@),
{
    let ls: Vec<String> = lines_of(current);
    let ghost lsv = ls@.map_values(|l: String| l@);

    let mut kept: Vec<String> = Vec::new();
    let mut skipping: bool = false;
    let mut i: usize = 0;
    proof {
        assert(lsv.skip(0) =~= lsv);
    }
    while i < ls.len()
        invariant
            i <= ls@.len(),
            lsv == ls@.map_values(|l: String| l@),
            keep_lines(lsv, false) == kept@.map_values(|l: String| l@) + keep_lines(
                lsv.skip(i as int),
                skipping,
            ),
        decreases ls@.len() - i,
    {
        proof {
            assert(lsv.skip(i as int).first() == lsv[i as int]);
            assert(lsv.skip(i as int).drop_first() =~= lsv.skip(i + 1));
        }
        let line: &String = &ls[i];
        let trimmed: &str = trim_str(line.as_str());
        if skipping {
            if str_eq(trimmed, "# <<< sshpod end") {
                skipping = false;
            }
        } else {
            if str_eq(trimmed, "# >>> sshpod start") {
                skipping = true;
            } else {
                let ghost kv0 = kept@.map_values(|l: String| l@);
                kept.push(line.clone());
                proof {
                    assert(kept@.map_values(|l: String| l@) =~= kv0.push(lsv[i as int]));
                    assert(kv0 + (seq![lsv[i as int]] + keep_lines(lsv.skip(i + 1), false)) =~= kv0
                        .push(lsv[i as int]) + keep_lines(lsv.skip(i + 1), false));
                }
            }
        }
        i += 1;
    }
    proof {
        assert(lsv.skip(lsv.len() as int) =~= Seq::<Seq<char>>::empty());
        assert(keep_lines(lsv, false) =~= kept@.map_values(|l: String| l@));
    }

    while kept.len() > 0 && trim_str(kept[kept.len() - 1].as_str()).unicode_len() == 0
        invariant
            drop_trailing_blank(keep_lines(lsv, false)) == drop_trailing_blank(
                kept@.map_values(|l: String| l@),
            ),
        decreases kept@.len(),
    {
        let ghost kv0 = kept@.map_values(|l: String| l@);
        proof {
            assert(kv0.last() == kept@[kept@.len() - 1]@);
        }
        kept.pop();
        proof {
            assert(kept@.map_values(|l: String| l@) =~= kv0.drop_last());
        }
    }
    proof {
        let kv = kept@.map_values(|l: String| l@);
        if kv.len() > 0 {
            assert(kv.last() == kept@[kept@.len() - 1]@);
        }
        assert(drop_trailing_blank(keep_lines(lsv, false)) == kv);
    }

    let tail: &str = trim_end_of(block);
    proof {
        reveal_strlit("\n");
        assert("\n"@ =~= seq!['\n']);
        reveal_strlit("\n\n");
        assert("\n\n"@ =~= seq!['\n', '\n']);
    }
    if kept.len() == 0 {
        let mut r = String::from_str(tail);
        r.append("\n");
        proof {
            assert(r@ =~= spec_merge(current@, block@));
        }
        r
    } else {
        let mut r = join_lines(&kept, '\n', "\n");
        r.append("\n\n");
        r.append(tail);
        r.append("\n");
        proof {
            assert(r@ =~= spec_merge(current@, block@));
        }
        r
    }
}

/// Splitting around one separator splits each side on its own.
proof fn lemma_split_concat(x: Seq<char>, y: Seq<char>, sep: char)
    ensures
        split_on(x + seq![sep] + y, sep) == split_on(x, sep) + split_on(y, sep),
    decreases x.len(),
{
    let s = x + seq![sep] + y;
    if x.len() == 0 {
        assert(s[0] == sep);
        assert(s.drop_first() =~= y);
        assert(split_on(s, sep) == seq![Seq::<char>::empty()] + split_on(y, sep));
        assert(split_on(x, sep) == seq![Seq::<char>::empty()]);
        assert(split_on(s, sep) =~~= split_on(x, sep) + split_on(y, sep));
    } else {
        assert(s[0] == x[0]);
        assert(s.drop_first() =~= x.drop_first() + seq![sep] + y);
        lemma_split_concat(x.drop_first(), y, sep);
        crate::strutil::lemma_split_on_len(x.drop_first(), sep);
        crate::strutil::lemma_split_on_len(y, sep);
        if x[0] == sep {
            assert(split_on(s, sep) == seq![Seq::<char>::empty()] + (split_on(x.drop_first(), sep)
                + split_on(y, sep)));
            assert(split_on(x, sep) == seq![Seq::<char>::empty()] + split_on(x.drop_first(), sep));
            assert(split_on(s, sep) =~~= split_on(x, sep) + split_on(y, sep));
        } else {
            let r = split_on(s.drop_first(), sep);
            let rx = split_on(x.drop_first(), sep);
            assert(r == rx + split_on(y, sep));
            assert(r[0] == rx[0]);
            assert(split_on(s, sep) == r.update(0, seq![s[0]] + r[0]));
            assert(split_on(x, sep) == rx.update(0, seq![x[0]] + rx[0]));
            assert(split_on(s, sep) =~~= split_on(x, sep) + split_on(y, sep));
        }
    }
}

/// No piece of a split holds the separator.
proof fn lemma_split_pieces_sep_free(s: Seq<char>, sep: char)
    ensures
        forall|i: int, j: int|
            0 <= i < split_on(s, sep).len() && 0 <= j < split_on(s, sep)[i].len()
                ==> split_on(s, sep)[i][j] != sep,
    decreases s.len(),
{
    if s.len() == 0 {
    } else {
        lemma_split_pieces_sep_free(s.drop_first(), sep);
        crate::strutil::lemma_split_on_len(s.drop_first(), sep);
        let r = split_on(s.drop_first(), sep);
        if s[0] == sep {
            assert(split_on(s, sep) == seq![Seq::<char>::empty()] + r);
            assert forall|i: int, j: int|
                0 <= i < split_on(s, sep).len() && 0 <= j < split_on(s, sep)[i].len()
                    implies split_on(s, sep)[i][j] != sep by {
                if i > 0 {
                    assert(split_on(s, sep)[i] == r[i - 1]);
                }
            }
        } else {
            assert(split_on(s, sep) == r.update(0, seq![s[0]] + r[0]));
            assert forall|i: int, j: int|
                0 <= i < split_on(s, sep).len() && 0 <= j < split_on(s, sep)[i].len()
                    implies split_on(s, sep)[i][j] != sep by {
                if i == 0 {
                    assert(split_on(s, sep)[0] == seq![s[0]] + r[0]);
                    if j > 0 {
                        assert((seq![s[0]] + r[0])[j] == r[0][j - 1]);
                    }
                } else {
                    assert(split_on(s, sep)[i] == r[i]);
                }
            }
        }
    }
}

/// Every line of a text is free of newlines.
proof fn lemma_lines_newline_free(s: Seq<char>)
    ensures
        forall|i: int, j: int|
            0 <= i < spec_lines(s).len() && 0 <= j < spec_lines(s)[i].len()
                ==> spec_lines(s)[i][j] != '\n',
{
    if s.len() > 0 {
        let t = if s.last() == '\n' {
            s.drop_last()
        } else {
            s
        };
        lemma_split_pieces_sep_free(t, '\n');
        assert forall|i: int, j: int|
            0 <= i < spec_lines(s).len() && 0 <= j < spec_lines(s)[i].len()
                implies spec_lines(s)[i][j] != '\n' by {
            let raw = split_on(t, '\n')[i];
            assert(spec_lines(s)[i] == strip_cr(raw));
            if raw.len() > 0 && raw.last() == '\r' {
                assert(spec_lines(s)[i][j] == raw[j]);
            }
        }
    }
}

/// The kept lines all satisfy whatever every input line satisfies.
proof fn lemma_keep_all(ls: Seq<Seq<char>>, sk: bool, p: spec_fn(Seq<char>) -> bool)
    requires
        forall|i: int| 0 <= i < ls.len() ==> p(ls[i]),
    ensures
        forall|i: int| 0 <= i < keep_lines(ls, sk).len() ==> p(keep_lines(ls, sk)[i]),
    decreases ls.len(),
{
    if ls.len() > 0 {
        assert(forall|i: int| 0 <= i < ls.drop_first().len() ==> p(ls.drop_first()[i]));
        lemma_keep_all(ls.drop_first(), true, p);
        lemma_keep_all(ls.drop_first(), false, p);
        if !sk && trim_spec(ls.first()) != start_marker() {
            assert forall|i: int| 0 <= i < keep_lines(ls, sk).len() implies p(
                keep_lines(ls, sk)[i],
            ) by {
                if i > 0 {
                    assert(keep_lines(ls, sk)[i] == keep_lines(ls.drop_first(), false)[i - 1]);
                    assert(p(keep_lines(ls.drop_first(), false)[i - 1]));
                } else {
                    assert(keep_lines(ls, sk)[0] == ls.first());
                    assert(p(ls[0]));
                }
            }
        } else {
            let b = sk && trim_spec(ls.first()) != end_marker() || !sk && trim_spec(ls.first())
                == start_marker();
            assert(keep_lines(ls, sk) == keep_lines(ls.drop_first(), b));
            assert forall|i: int| 0 <= i < keep_lines(ls, sk).len() implies p(
                keep_lines(ls, sk)[i],
            ) by {
                assert(p(keep_lines(ls.drop_first(), b)[i]));
            }
        }
    }
}

/// No kept line trims to the start marker.
proof fn lemma_keep_no_start(ls: Seq<Seq<char>>, sk: bool)
    ensures
        forall|i: int|
            0 <= i < keep_lines(ls, sk).len() ==> trim_spec(keep_lines(ls, sk)[i])
                != start_marker(),
    decreases ls.len(),
{
    if ls.len() > 0 {
        lemma_keep_no_start(ls.drop_first(), true);
        lemma_keep_no_start(ls.drop_first(), false);
        if !sk && trim_spec(ls.first()) != start_marker() {
            assert forall|i: int| 0 <= i < keep_lines(ls, sk).len() implies trim_spec(
                keep_lines(ls, sk)[i],
            ) != start_marker() by {
                if i > 0 {
                    assert(keep_lines(ls, sk)[i] == keep_lines(ls.drop_first(), false)[i - 1]);
                    assert(trim_spec(keep_lines(ls.drop_first(), false)[i - 1]) != start_marker());
                } else {
                    assert(keep_lines(ls, sk)[0] == ls.first());
                }
            }
        } else {
            let b = sk && trim_spec(ls.first()) != end_marker() || !sk && trim_spec(ls.first())
                == start_marker();
            assert(keep_lines(ls, sk) == keep_lines(ls.drop_first(), b));
            assert forall|i: int| 0 <= i < keep_lines(ls, sk).len() implies trim_spec(
                keep_lines(ls, sk)[i],
            ) != start_marker() by {
                assert(trim_spec(keep_lines(ls.drop_first(), b)[i]) != start_marker());
            }
        }
    }
}

/// What dropping trailing blank lines leaves: a prefix whose last line,
/// if any, does not trim to nothing.
proof fn lemma_drop_trailing_props(ls: Seq<Seq<char>>)
    ensures
        drop_trailing_blank(ls).len() <= ls.len(),
        drop_trailing_blank(ls) == ls.subrange(0, drop_trailing_blank(ls).len() as int),
        drop_trailing_blank(ls).len() > 0 ==> trim_spec(drop_trailing_blank(ls).last()).len() > 0,
    decreases ls.len(),
{
    if ls.len() > 0 && trim_spec(ls.last()).len() == 0 {
        lemma_drop_trailing_props(ls.drop_last());
        let d = drop_trailing_blank(ls);
        assert(ls.drop_last().subrange(0, d.len() as int) =~= ls.subrange(0, d.len() as int));
    } else {
        assert(drop_trailing_blank(ls) == ls);
        assert(ls.subrange(0, ls.len() as int) =~= ls);
    }
}

/// Lines that never trim to the start marker all survive the merge filter.
proof fn lemma_keep_append_nostart(ls1: Seq<Seq<char>>, ls2: Seq<Seq<char>>)
    requires
        forall|i: int| 0 <= i < ls1.len() ==> trim_spec(ls1[i]) != start_marker(),
    ensures
        keep_lines(ls1 + ls2, false) == ls1 + keep_lines(ls2, false),
    decreases ls1.len(),
{
    if ls1.len() == 0 {
        assert(ls1 + ls2 =~= ls2);
        assert(keep_lines(ls1 + ls2, false) =~= ls1 + keep_lines(ls2, false));
    } else {
        let s = ls1 + ls2;
        assert(s.first() == ls1.first());
        assert(s.drop_first() =~= ls1.drop_first() + ls2);
        assert(forall|i: int|
            0 <= i < ls1.drop_first().len() ==> trim_spec(ls1.drop_first()[i]) != start_marker());
        lemma_keep_append_nostart(ls1.drop_first(), ls2);
        assert(keep_lines(s, false) == seq![ls1.first()] + (ls1.drop_first() + keep_lines(
            ls2,
            false,
        )));
        assert(keep_lines(s, false) =~= ls1 + keep_lines(ls2, false));
    }
}

/// A skipped region runs to the line trimming to the end marker, and
/// nothing of it is kept.
proof fn lemma_keep_skipped_region(ms: Seq<Seq<char>>, le: Seq<char>)
    requires
        forall|i: int| 0 <= i < ms.len() ==> trim_spec(ms[i]) != end_marker(),
        trim_spec(le) == end_marker(),
    ensures
        keep_lines(ms + seq![le], true) == Seq::<Seq<char>>::empty(),
    decreases ms.len(),
{
    let s = ms + seq![le];
    if ms.len() == 0 {
        assert(s.first() == le);
        assert(s.drop_first() =~= Seq::<Seq<char>>::empty());
        assert(keep_lines(Seq::<Seq<char>>::empty(), false) == Seq::<Seq<char>>::empty());
        assert(keep_lines(s, true) == keep_lines(s.drop_first(), false));
    } else {
        assert(s.first() == ms.first());
        assert(trim_spec(ms[0]) != end_marker());
        assert(s.drop_first() =~= ms.drop_first() + seq![le]);
        assert(forall|i: int|
            0 <= i < ms.drop_first().len() ==> trim_spec(ms.drop_first()[i]) != end_marker());
        lemma_keep_skipped_region(ms.drop_first(), le);
        assert(keep_lines(s, true) == keep_lines(ms.drop_first() + seq![le], true));
    }
}

/// A block the merge can manage: trimmed, it opens with a line trimming
/// to the start marker, closes with one trimming to the end marker,
/// keeps both markers out of its middle lines, and no line of it ends
/// with a carriage return.
pub open spec fn wf_block(block: Seq<char>) -> bool {
    let bl = spec_lines(trim_end_spec(block));
    &&& bl.len() >= 2
    &&& trim_spec(bl.first()) == start_marker()
    &&& trim_spec(bl.last()) == end_marker()
    &&& forall|i: int|
        0 < i < bl.len() - 1 ==> trim_spec(bl[i]) != start_marker() && trim_spec(bl[i])
            != end_marker()
    &&& forall|i: int| 0 <= i < bl.len() ==> strip_cr(bl[i]) == bl[i]
}

/// A text whose lines carry no trailing carriage return, so that its
/// lines re-read unchanged after being written back.
pub open spec fn crlf_clean(s: Seq<char>) -> bool {
    forall|i: int| 0 <= i < spec_lines(s).len() ==> strip_cr(spec_lines(s)[i]) == spec_lines(s)[i]
}

/// The last character left by trimming is never blank space.
proof fn lemma_trim_end_last(s: Seq<char>)
    ensures
        trim_end_spec(s).len() > 0 ==> !crate::strutil::is_space_char(trim_end_spec(s).last()),
    decreases s.len(),
{
    if s.len() > 0 && crate::strutil::is_space_char(s.last()) {
        lemma_trim_end_last(s.drop_last());
    }
}

/// The lines of a merged configuration: the kept lines, one blank line,
/// then the block's lines; or just the block's lines when nothing was
/// kept.
proof fn lemma_merge_lines(current: Seq<char>, block: Seq<char>)
    requires
        wf_block(block),
        crlf_clean(current),
    ensures
        ({
            let kept = drop_trailing_blank(keep_lines(spec_lines(current), false));
            let bl = spec_lines(trim_end_spec(block));
            spec_lines(spec_merge(current, block)) == if kept.len() == 0 {
                bl
            } else {
                kept + seq![Seq::<char>::empty()] + bl
            }
        }),
{
    let kept = drop_trailing_blank(keep_lines(spec_lines(current), false));
    let bl = spec_lines(trim_end_spec(block));
    let tb = trim_end_spec(block);
    let m = spec_merge(current, block);

    assert(bl.len() >= 2);
    assert(tb.len() > 0);
    lemma_trim_end_last(block);
    assert(tb.last() != '\n');
    assert(bl == split_on(tb, '\n').map_values(|l: Seq<char>| strip_cr(l)));

    if kept.len() == 0 {
        assert(m == tb + seq!['\n']);
        assert(m.last() == '\n');
        assert(m.drop_last() =~= tb);
        assert(spec_lines(m) == bl);
    } else {
        let j = join_on(kept, '\n');
        assert(m == j + seq!['\n', '\n'] + tb + seq!['\n']);
        assert(m.last() == '\n');
        let t = m.drop_last();
        assert(t =~= j + seq!['\n'] + (seq!['\n'] + tb));

        // The kept lines hold no newline, so the join splits back to them.
        lemma_lines_newline_free(current);
        lemma_keep_all(
            spec_lines(current),
            false,
            |l: Seq<char>| forall|jj: int| 0 <= jj < l.len() ==> l[jj] != '\n',
        );
        lemma_drop_trailing_props(keep_lines(spec_lines(current), false));
        assert forall|a: int, b: int|
            0 <= a < kept.len() && 0 <= b < kept[a].len() implies kept[a][b] != '\n' by {
            let all = keep_lines(spec_lines(current), false);
            assert(kept[a] == all[a]);
            assert((|l: Seq<char>| forall|jj: int| 0 <= jj < l.len() ==> l[jj] != '\n')(all[a]));
        }
        crate::strutil::lemma_split_on_join(kept, '\n');

        assert((seq!['\n'] + tb)[0] == '\n');
        assert((seq!['\n'] + tb).drop_first() =~= tb);
        assert(split_on(seq!['\n'] + tb, '\n') == seq![Seq::<char>::empty()] + split_on(tb, '\n'));
        lemma_split_concat(j, seq!['\n'] + tb, '\n');
        assert(split_on(t, '\n') == kept + (seq![Seq::<char>::empty()] + split_on(tb, '\n')));

        // Each kept line re-reads unchanged.
        lemma_keep_all(spec_lines(current), false, |l: Seq<char>| strip_cr(l) == l);
        assert forall|a: int| 0 <= a < kept.len() implies strip_cr(kept[a]) == kept[a] by {
            let all = keep_lines(spec_lines(current), false);
            assert(kept[a] == all[a]);
            assert((|l: Seq<char>| strip_cr(l) == l)(all[a]));
        }

        assert(spec_lines(m) == split_on(t, '\n').map_values(|l: Seq<char>| strip_cr(l)));
        assert(spec_lines(m) =~~= kept + seq![Seq::<char>::empty()] + bl);
    }
}

/// The last character of a join is the last character of its last
/// piece, when that piece is not empty.
proof fn lemma_join_on_last(parts: Seq<Seq<char>>, sep: char)
    requires
        parts.len() >= 1,
        parts.last().len() > 0,
    ensures
        join_on(parts, sep).len() > 0,
        join_on(parts, sep).last() == parts.last().last(),
    decreases parts.len(),
{
    if parts.len() == 1 {
        assert(join_on(parts, sep) == parts.first());
        assert(parts.first() == parts.last());
    } else {
        assert(parts.drop_first().last() == parts.last());
        lemma_join_on_last(parts.drop_first(), sep);
        let rest = join_on(parts.drop_first(), sep);
        assert((parts.first() + seq![sep] + rest).last() == rest.last());
    }
}

/// A line with no leading or trailing blank space trims to itself.
proof fn lemma_trim_clean(l: Seq<char>)
    requires
        l.len() > 0,
        !is_space_char(l.first()),
        !is_space_char(l.last()),
    ensures
        trim_spec(l) == l,
{
    assert(trim_start_spec(l) == l);
    assert(trim_end_spec(l) == l);
}

/// A line indented by exactly two spaces trims to its body.
proof fn lemma_trim_indent2(l: Seq<char>)
    requires
        l.len() > 3,
        l[0] == ' ',
        l[1] == ' ',
        !is_space_char(l[2]),
        !is_space_char(l.last()),
    ensures
        trim_spec(l) == l.subrange(2, l.len() as int),
        trim_spec(l).len() > 0,
        trim_spec(l)[0] == l[2],
{
    let d1 = l.drop_first();
    let d2 = d1.drop_first();
    assert(l.first() == l[0]);
    assert(trim_start_spec(l) == trim_start_spec(d1));
    assert(d1.first() == l[1]);
    assert(trim_start_spec(d1) == trim_start_spec(d2));
    assert(d2.first() == l[2]);
    assert(trim_start_spec(d2) == d2);
    assert(d2.last() == l.last());
    assert(trim_end_spec(d2) == d2);
    assert(d2 =~= l.subrange(2, l.len() as int));
}

/// The block this helper renders is one the merge can manage.
#[verifier::rlimit(100)]
pub proof fn lemma_render_block_wf()
    ensures
        wf_block(spec_render_block()),
{
    reveal_strlit("# >>> sshpod start");
    reveal_strlit("Host *.sshpod");
    reveal_strlit("  ProxyCommand ~/.local/bin/sshpod proxy --host %h --user %r --port %p");
    reveal_strlit("  StrictHostKeyChecking no");
    reveal_strlit("  UserKnownHostsFile /dev/null");
    reveal_strlit("  GlobalKnownHostsFile /dev/null");
    reveal_strlit("  CheckHostIP no");
    reveal_strlit("  IdentityFile ~/.cache/sshpod/id_ed25519");
    reveal_strlit("  IdentitiesOnly yes");
    reveal_strlit("  BatchMode yes");
    reveal_strlit("  ForwardAgent yes");
    reveal_strlit("# <<< sshpod end");
    let ls = spec_block_lines();
    let j = join_on(ls, '\n');
    let b = spec_render_block();

    // No line holds a newline, so the join splits back into the lines.
    assert forall|i: int, k: int|
        0 <= i < ls.len() && 0 <= k < ls[i].len() implies ls[i][k] != '\n' by {
        if i == 0 {
            assert(ls[i][k] != '\n');
        } else if i == 1 {
            assert(ls[i][k] != '\n');
        } else if i == 2 {
            assert(ls[i][k] != '\n');
        } else if i == 3 {
            assert(ls[i][k] != '\n');
        } else if i == 4 {
            assert(ls[i][k] != '\n');
        } else if i == 5 {
            assert(ls[i][k] != '\n');
        } else if i == 6 {
            assert(ls[i][k] != '\n');
        } else if i == 7 {
            assert(ls[i][k] != '\n');
        } else if i == 8 {
            assert(ls[i][k] != '\n');
        } else if i == 9 {
            assert(ls[i][k] != '\n');
        } else if i == 10 {
            assert(ls[i][k] != '\n');
        } else {
            assert(ls[i][k] != '\n');
        }
    }
    crate::strutil::lemma_split_on_join(ls, '\n');

    // Trimming the final newline leaves the joined lines.
    lemma_join_on_last(ls, '\n');
    assert((j + seq!['\n']).last() == '\n');
    assert(b.drop_last() =~= j);
    assert(trim_end_spec(b) == trim_end_spec(j));
    assert(!is_space_char(j.last()));
    assert(trim_end_spec(j) == j);

    // No line ends in a carriage return, so each re-reads unchanged.
    assert forall|i: int| 0 <= i < ls.len() implies strip_cr(#[trigger] ls[i]) == ls[i] by {
        if i == 0 {
            assert(ls[i].last() != '\r');
        } else if i == 1 {
            assert(ls[i].last() != '\r');
        } else if i == 2 {
            assert(ls[i].last() != '\r');
        } else if i == 3 {
            assert(ls[i].last() != '\r');
        } else if i == 4 {
            assert(ls[i].last() != '\r');
        } else if i == 5 {
            assert(ls[i].last() != '\r');
        } else if i == 6 {
            assert(ls[i].last() != '\r');
        } else if i == 7 {
            assert(ls[i].last() != '\r');
        } else if i == 8 {
            assert(ls[i].last() != '\r');
        } else if i == 9 {
            assert(ls[i].last() != '\r');
        } else if i == 10 {
            assert(ls[i].last() != '\r');
        } else {
            assert(ls[i].last() != '\r');
        }
    }
    assert(j.last() != '\n');
    assert(spec_lines(j) == split_on(j, '\n').map_values(|l: Seq<char>| strip_cr(l)));
    assert(spec_lines(j) =~~= ls);
    let bl = spec_lines(trim_end_spec(b));
    assert(bl == ls);

    // The first and last lines are the markers, unindented.
    assert(bl.first() == start_marker());
    lemma_trim_clean(bl.first());
    assert(bl.last() == end_marker());
    lemma_trim_clean(bl.last());

    // Every middle line trims to text that does not begin with '#',
    // while both markers do.
    assert(start_marker()[0] == '#');
    assert(end_marker()[0] == '#');
    assert forall|i: int|
        0 < i < bl.len() - 1 implies trim_spec(#[trigger] bl[i]) != start_marker() && trim_spec(
        bl[i],
    ) != end_marker() by {
        if i == 1 {
            lemma_trim_clean(ls[i]);
            assert(trim_spec(ls[i])[0] == 'H');
        } else if i == 2 {
            lemma_trim_indent2(ls[i]);
            assert(trim_spec(ls[i])[0] == 'P');
        } else if i == 3 {
            lemma_trim_indent2(ls[i]);
            assert(trim_spec(ls[i])[0] == 'S');
        } else if i == 4 {
            lemma_trim_indent2(ls[i]);
            assert(trim_spec(ls[i])[0] == 'U');
        } else if i == 5 {
            lemma_trim_indent2(ls[i]);
            assert(trim_spec(ls[i])[0] == 'G');
        } else if i == 6 {
            lemma_trim_indent2(ls[i]);
            assert(trim_spec(ls[i])[0] == 'C');
        } else if i == 7 {
            lemma_trim_indent2(ls[i]);
            assert(trim_spec(ls[i])[0] == 'I');
        } else if i == 8 {
            lemma_trim_indent2(ls[i]);
            assert(trim_spec(ls[i])[0] == 'I');
        } else if i == 9 {
            lemma_trim_indent2(ls[i]);
            assert(trim_spec(ls[i])[0] == 'B');
        } else {
            lemma_trim_indent2(ls[i]);
            assert(trim_spec(ls[i])[0] == 'F');
        }
        assert(trim_spec(bl[i]).len() > 0);
        assert(trim_spec(bl[i])[0] != '#');
    }
}

/// Merging this helper's own block is idempotent: installing it twice
/// writes the same configuration as installing it once.
pub proof fn lemma_render_block_merge_idempotent(current: Seq<char>)
    requires
        crlf_clean(current),
    ensures
        spec_merge(spec_merge(current, spec_render_block()), spec_render_block()) == spec_merge(
            current,
            spec_render_block(),
        ),
{
    lemma_render_block_wf();
    lemma_merge_idempotent(current, spec_render_block());
}

/// Merging is idempotent: merging the block into an already-merged
/// configuration changes nothing.
pub proof fn lemma_merge_idempotent(current: Seq<char>, block: Seq<char>)
    requires
        wf_block(block),
        crlf_clean(current),
    ensures
        spec_merge(spec_merge(current, block), block) == spec_merge(current, block),
{
    let kept = drop_trailing_blank(keep_lines(spec_lines(current), false));
    let bl = spec_lines(trim_end_spec(block));
    let m = spec_merge(current, block);
    lemma_merge_lines(current, block);

    // The block's own lines are all filtered out again.
    let ms = bl.drop_first().drop_last();
    assert(ms + seq![bl.last()] =~= bl.drop_first());
    assert forall|i: int| 0 <= i < ms.len() implies trim_spec(ms[i]) != end_marker() by {
        assert(ms[i] == bl[i + 1]);
    }
    lemma_keep_skipped_region(ms, bl.last());
    assert(keep_lines(bl, false) == Seq::<Seq<char>>::empty());

    if kept.len() == 0 {
        assert(spec_lines(m) == bl);
        assert(drop_trailing_blank(keep_lines(spec_lines(m), false))
            == Seq::<Seq<char>>::empty());
        assert(spec_merge(m, block) == m);
    } else {
        assert(spec_lines(m) == kept + seq![Seq::<char>::empty()] + bl);

        // No kept line, and no blank line, trims to the start marker.
        lemma_keep_no_start(spec_lines(current), false);
        lemma_drop_trailing_props(keep_lines(spec_lines(current), false));
        reveal_strlit("# >>> sshpod start");
        assert(start_marker().len() > 0);
        let ls1 = kept + seq![Seq::<char>::empty()];
        assert forall|i: int| 0 <= i < ls1.len() implies trim_spec(ls1[i]) != start_marker() by {
            if i < kept.len() {
                let all = keep_lines(spec_lines(current), false);
                assert(ls1[i] == all[i]);
            } else {
                assert(ls1[i] == Seq::<char>::empty());
                assert(trim_spec(Seq::<char>::empty()).len() == 0);
            }
        }
        assert(ls1 + bl =~= spec_lines(m));
        lemma_keep_append_nostart(ls1, bl);
        assert(keep_lines(spec_lines(m), false) == ls1 + Seq::<Seq<char>>::empty());
        assert(keep_lines(spec_lines(m), false) =~= kept.push(Seq::<char>::empty()));

        // Dropping the blank line restores the kept lines exactly.
        assert(trim_spec(Seq::<char>::empty()).len() == 0);
        assert(kept.push(Seq::<char>::empty()).drop_last() =~= kept);
        assert(drop_trailing_blank(kept.push(Seq::<char>::empty())) == drop_trailing_blank(kept));
        assert(drop_trailing_blank(kept) == kept);
        assert(spec_merge(m, block) == m);
    }
}

/// Merging erases every earlier copy of the block and appends exactly
/// one: the merged lines end with the block's lines, and no line before
/// them trims to the start marker.
pub proof fn lemma_merge_erases(current: Seq<char>, block: Seq<char>)
    requires
        wf_block(block),
        crlf_clean(current),
    ensures
        ({
            let out = spec_lines(spec_merge(current, block));
            let bl = spec_lines(trim_end_spec(block));
            &&& out.len() >= bl.len()
            &&& out.subrange(out.len() - bl.len(), out.len() as int) == bl
            &&& forall|i: int|
                0 <= i < out.len() - bl.len() ==> trim_spec(out[i]) != start_marker()
        }),
{
    let kept = drop_trailing_blank(keep_lines(spec_lines(current), false));
    let bl = spec_lines(trim_end_spec(block));
    let out = spec_lines(spec_merge(current, block));
    lemma_merge_lines(current, block);
    lemma_keep_no_start(spec_lines(current), false);
    lemma_drop_trailing_props(keep_lines(spec_lines(current), false));
    reveal_strlit("# >>> sshpod start");
    assert(start_marker().len() > 0);
    if kept.len() == 0 {
        assert(out.subrange(out.len() - bl.len(), out.len() as int) =~= bl);
    } else {
        assert(out == kept + seq![Seq::<char>::empty()] + bl);
        assert(out.subrange(out.len() - bl.len(), out.len() as int) =~= bl);
        assert forall|i: int|
            0 <= i < out.len() - bl.len() implies trim_spec(out[i]) != start_marker() by {
            if i < kept.len() {
                let all = keep_lines(spec_lines(current), false);
                assert(out[i] == kept[i]);
                assert(kept[i] == all[i]);
            } else {
                assert(out[i] == Seq::<char>::empty());
                assert(trim_spec(Seq::<char>::empty()).len() == 0);
            }
        }
    }
}

/// Removes trailing blank space.
fn trim_end_of<'a>(s: &'a str) -> (r: &'a str)
    ensures
        r@ == trim_end_spec(s@),
{
    let n: usize = s.unicode_len();
    let mut end: usize = n;
    proof {
        assert(s@.subrange(0, n as int) =~= s@);
    }
    while end > 0 && is_space(s.get_char(end - 1))
        invariant
            n == s@.len(),
            end <= n,
            trim_end_spec(s@) == trim_end_spec(s@.subrange(0, end as int)),
        decreases end,
    {
        proof {
            let t = s@.subrange(0, end as int);
            assert(t.last() == s@[end - 1]);
            assert(t.drop_last() =~= s@.subrange(0, end - 1));
        }
        end -= 1;
    }
    proof {
        let t = s@.subrange(0, end as int);
        if end > 0 {
            assert(t.last() == s@[end - 1]);
        } else {
            assert(t =~= Seq::<char>::empty());
        }
        assert(trim_end_spec(s@) == s@.subrange(0, end as int));
    }
    s.substring_char(0, end)
}

} // verus!
