//! Reading the process ids of running Unlim instances out of what the CLI prints.
use vstd::prelude::*;
use crate::text::{
    chars_of, decode_lossy, utf8_lossy, decimal, digit_chars, is_digit, is_ws, lemma_decimal_digits, lemma_parse_decimal,
    lemma_token_prefix_word, lemma_trim_end_keeps_word, lemma_trim_end_prefix,
    lemma_trim_start_skips_ws, token_prefix, trim_end, trim_start, first_token, first_token_bounds, parse_u32, parse_u32_range, trim, trim_bounds,
};

verus! {

/// `line` without one trailing carriage return.
pub open spec fn strip_cr(line: Seq<char>) -> Seq<char> {
    if line.len() > 0 && line.last() == '\r' {
        line.drop_last()
    } else {
        line
    }
}

/// The lines of `rest`, when `cur` is the part of the current line already read:
/// a line ends at `\n`, which is dropped together with a `\r` before it; the text
/// after the last `\n` is a line of its own when it is not empty.
pub open spec fn lines_from(cur: Seq<char>, rest: Seq<char>) -> Seq<Seq<char>>
    decreases rest.len(),
{
    if rest.len() == 0 {
        if cur.len() == 0 {
            Seq::empty()
        } else {
            seq![cur]
        }
    } else if rest[0] == '\n' {
        seq![strip_cr(cur)] + lines_from(Seq::empty(), rest.drop_first())
    } else {
        lines_from(cur.push(rest[0]), rest.drop_first())
    }
}

/// The lines of `text`, as `str::lines` gives them.
pub open spec fn lines(text: Seq<char>) -> Seq<Seq<char>> {
    lines_from(Seq::empty(), text)
}

/// `pid ` as characters.
pub open spec fn pid_marker() -> Seq<char> {
    seq!['p', 'i', 'd', ' ']
}

/// The process id that a line of the instance list announces: the line, trimmed,
/// starts with `pid `, and the first word after it reads as a `u32`.
pub open spec fn line_pid(line: Seq<char>) -> Option<u32> {
    let t = trim(line);
    if t.len() >= 4 && t.take(4) == pid_marker() {
        match first_token(t.skip(4)) {
            Some(word) => parse_u32(word),
            None => None,
        }
    } else {
        None
    }
}

/// The process ids that `ls` announce, in order.
pub open spec fn pids_of_lines(ls: Seq<Seq<char>>) -> Seq<u32>
    decreases ls.len(),
{
    if ls.len() == 0 {
        Seq::empty()
    } else {
        let earlier = pids_of_lines(ls.drop_last());
        match line_pid(ls.last()) {
            Some(p) => earlier.push(p),
            None => earlier,
        }
    }
}

/// The process ids that the lines of `text` announce, in order.
pub open spec fn text_pids(text: Seq<char>) -> Seq<u32> {
    pids_of_lines(lines(text))
}

/// The process id that the line `v@.subrange(start, end)` announces.
fn line_pid_range(v: &Vec<char>, start: usize, end: usize) -> (r: Option<u32>)
    requires
        start <= end <= v.len(),
    ensures
        r == line_pid(v@.subrange(start as int, end as int)),
{
    let (i, j) = trim_bounds(v, start, end);
    let ghost t = v@.subrange(i as int, j as int);
    if j - i >= 4 && v[i] == 'p' && v[i + 1] == 'i' && v[i + 2] == 'd' && v[i + 3] == ' ' {
        assert(t.take(4) =~= pid_marker());
        assert(t.skip(4) =~= v@.subrange(i + 4, j as int));
        match first_token_bounds(v, i + 4, j) {
            Some((a, b)) => parse_u32_range(v, a, b),
            None => None,
        }
    } else {
        proof {
            if t.len() >= 4 && t.take(4) == pid_marker() {
                assert(t.take(4)[0] == 'p' && t.take(4)[1] == 'i');
                assert(t.take(4)[2] == 'd' && t.take(4)[3] == ' ');
            }
        }
        None
    }
}

/// The process ids of the Unlim instances that `text` lists, one per line of the
/// form `pid <number> ...`.
pub fn instance_pids_from_text(text: &str) -> (pids: Vec<u32>)
    ensures
        pids@ == text_pids(text@),
{
    let v = chars_of(text);
    let n = v.len();
    let mut pids: Vec<u32> = Vec::new();
    let mut start: usize = 0;
    let mut i: usize = 0;
    let ghost mut done: Seq<Seq<char>> = Seq::empty();
    assert(v@.skip(0) =~= v@);
    assert(v@.subrange(0, 0) =~= Seq::<char>::empty());
    while i < n
        invariant
            n == v.len(),
            v@ == text@,
            start <= i <= n,
            done + lines_from(v@.subrange(start as int, i as int), v@.skip(i as int)) == lines(
                v@,
            ),
            pids@ == pids_of_lines(done),
        decreases n - i,
    {
        let ghost cur = v@.subrange(start as int, i as int);
        let ghost rest = v@.skip(i as int);
        assert(rest.drop_first() =~= v@.skip(i + 1));
        if v[i] == '\n' {
            let end = if i > start && v[i - 1] == '\r' {
                i - 1
            } else {
                i
            };
            assert(v@.subrange(start as int, end as int) =~= strip_cr(cur));
            let found = line_pid_range(&v, start, end);
            let ghost next = done.push(strip_cr(cur));
            assert(next.drop_last() =~= done);
            if let Some(p) = found {
                pids.push(p);
            }
            proof {
                assert(done + lines_from(cur, rest) =~= next + lines_from(
                    Seq::empty(),
                    v@.skip(i + 1),
                ));
                done = next;
            }
            start = i + 1;
            assert(v@.subrange(start as int, i + 1) =~= Seq::<char>::empty());
        } else {
            assert(cur.push(v@[i as int]) =~= v@.subrange(start as int, i + 1));
        }
        i = i + 1;
    }
    assert(v@.skip(n as int) =~= Seq::<char>::empty());
    if start < n {
        let ghost cur = v@.subrange(start as int, n as int);
        let found = line_pid_range(&v, start, n);
        let ghost next = done.push(cur);
        assert(next.drop_last() =~= done);
        if let Some(p) = found {
            pids.push(p);
        }
        proof {
            assert(done + seq![cur] =~= next);
            done = next;
        }
    } else {
        assert(done + Seq::<Seq<char>>::empty() =~= done);
    }
    pids
}


/// A line announcing the instance `pid`: `indent`, then `pid `, the numeral of
/// `pid`, and `rest`.
pub open spec fn listing_line(indent: Seq<char>, pid: u32, rest: Seq<char>) -> Seq<char> {
    indent + pid_marker() + decimal(pid as nat) + rest
}

/// `indent` is whitespace other than a line break, and `rest` holds no line break
/// and is empty or starts with whitespace.
pub open spec fn listing_entry_ok(indent: Seq<char>, rest: Seq<char>) -> bool {
    &&& forall|i: int| 0 <= i < indent.len() ==> is_ws(#[trigger] indent[i]) && indent[i] != '\n'
    &&& forall|i: int| 0 <= i < rest.len() ==> #[trigger] rest[i] != '\n'
    &&& rest.len() == 0 || is_ws(rest[0])
}

/// The text that lists `entries`, one line each, every line ended by `\n`.
pub open spec fn listing(entries: Seq<(Seq<char>, u32, Seq<char>)>) -> Seq<char>
    decreases entries.len(),
{
    if entries.len() == 0 {
        Seq::empty()
    } else {
        listing_line(entries[0].0, entries[0].1, entries[0].2) + seq!['\n'] + listing(
            entries.drop_first(),
        )
    }
}

proof fn lemma_lines_from_newline(cur: Seq<char>, a: Seq<char>, b: Seq<char>)
    requires
        forall|i: int| 0 <= i < a.len() ==> #[trigger] a[i] != '\n',
    ensures
        lines_from(cur, a + seq!['\n'] + b) == seq![strip_cr(cur + a)] + lines_from(
            Seq::empty(),
            b,
        ),
    decreases a.len(),
{
    let x = a + seq!['\n'] + b;
    if a.len() == 0 {
        assert(x[0] == '\n');
        assert(x.drop_first() =~= b);
        assert(cur + a =~= cur);
    } else {
        assert(x[0] == a[0]);
        assert(x.drop_first() =~= a.drop_first() + seq!['\n'] + b);
        assert(forall|i: int| 0 <= i < a.drop_first().len() ==> #[trigger] a.drop_first()[i] == a[i + 1]);
        lemma_lines_from_newline(cur.push(a[0]), a.drop_first(), b);
        assert(cur.push(a[0]) + a.drop_first() =~= cur + a);
    }
}

proof fn lemma_pids_of_lines_concat(a: Seq<Seq<char>>, b: Seq<Seq<char>>)
    ensures
        pids_of_lines(a + b) == pids_of_lines(a) + pids_of_lines(b),
    decreases b.len(),
{
    if b.len() == 0 {
        assert(a + b =~= a);
        assert(pids_of_lines(a) + Seq::<u32>::empty() =~= pids_of_lines(a));
    } else {
        assert((a + b).drop_last() =~= a + b.drop_last());
        assert((a + b).last() == b.last());
        lemma_pids_of_lines_concat(a, b.drop_last());
        match line_pid(b.last()) {
            Some(p) => {
                assert(pids_of_lines(a) + pids_of_lines(b.drop_last()).push(p) =~= (pids_of_lines(
                    a,
                ) + pids_of_lines(b.drop_last())).push(p));
            },
            None => {},
        }
    }
}

proof fn lemma_line_pid_of_listing_line(indent: Seq<char>, pid: u32, rest: Seq<char>)
    requires
        listing_entry_ok(indent, rest),
    ensures
        line_pid(listing_line(indent, pid, rest)) == Some(pid),
{
    let d = decimal(pid as nat);
    lemma_decimal_digits(pid as nat);
    assert(forall|i: int| 0 <= i < d.len() ==> !is_ws(#[trigger] d[i])) by {
        assert forall|i: int| 0 <= i < d.len() implies !is_ws(#[trigger] d[i]) by {
            assert(is_digit(d[i]));
        }
    }
    let md = pid_marker() + d;
    assert(md.last() == d.last());
    assert(md[0] == 'p');
    let line = listing_line(indent, pid, rest);
    assert(line =~= indent + (md + rest));
    lemma_trim_start_skips_ws(indent, md + rest);
    assert((md + rest)[0] == 'p');
    assert(trim_start(md + rest) == md + rest);
    lemma_trim_end_keeps_word(md, rest);
    let te = trim_end(rest);
    lemma_trim_end_prefix(rest);
    let t = md + te;
    assert(trim(line) == t);
    assert(t.take(4) =~= pid_marker());
    assert(t.skip(4) =~= d + te);
    assert((d + te)[0] == d[0]);
    assert(trim_start(d + te) == d + te);
    assert(te.len() == 0 || te[0] == rest[0]);
    lemma_token_prefix_word(d, te);
    lemma_parse_decimal(pid);
}

/// Lines of the form `pid <number> ...`, each ended by `\n`, give back their
/// numbers in order: whatever whitespace stands before `pid` and whatever follows
/// the number after whitespace.
pub proof fn lemma_listed_pids_read_back(entries: Seq<(Seq<char>, u32, Seq<char>)>)
    requires
        forall|i: int|
            0 <= i < entries.len() ==> listing_entry_ok(#[trigger] entries[i].0, entries[i].2),
    ensures
        text_pids(listing(entries)) == entries.map_values(|e: (Seq<char>, u32, Seq<char>)| e.1),
    decreases entries.len(),
{
    if entries.len() == 0 {
        assert(lines(Seq::<char>::empty()) =~= Seq::<Seq<char>>::empty());
        assert(entries.map_values(|e: (Seq<char>, u32, Seq<char>)| e.1) =~= Seq::<u32>::empty());
    } else {
        let (indent, pid, rest) = entries[0];
        let tail = entries.drop_first();
        assert forall|i: int| 0 <= i < tail.len() implies listing_entry_ok(
            #[trigger] tail[i].0,
            tail[i].2,
        ) by {
            assert(tail[i] == entries[i + 1]);
            assert(listing_entry_ok(entries[i + 1].0, entries[i + 1].2));
        }
        lemma_listed_pids_read_back(tail);
        assert(listing_entry_ok(entries[0].0, entries[0].2));
        let line = listing_line(indent, pid, rest);
        assert forall|i: int| 0 <= i < line.len() implies #[trigger] line[i] != '\n' by {
            let d = decimal(pid as nat);
            lemma_decimal_digits(pid as nat);
            let il = indent.len() as int;
            if i < il {
                assert(line[i] == indent[i]);
            } else if i < il + 4 {
                assert(line[i] == pid_marker()[i - il]);
            } else if i < il + 4 + d.len() {
                assert(line[i] == d[i - il - 4]);
                assert(is_digit(d[i - il - 4]));
            } else {
                assert(line[i] == rest[i - il - 4 - d.len()]);
            }
        }
        assert(listing(entries) == line + seq!['\n'] + listing(tail));
        lemma_lines_from_newline(Seq::empty(), line, listing(tail));
        assert(Seq::<char>::empty() + line =~= line);
        // the line with a final carriage return dropped is of the same shape
        let stripped_rest = if rest.len() > 0 && rest.last() == '\r' {
            rest.drop_last()
        } else {
            rest
        };
        assert(strip_cr(line) == listing_line(indent, pid, stripped_rest)) by {
            lemma_decimal_digits(pid as nat);
            let d = decimal(pid as nat);
            if rest.len() > 0 {
                assert(line.last() == rest.last());
                if rest.last() == '\r' {
                    assert(line.drop_last() =~= listing_line(indent, pid, rest.drop_last()));
                }
            } else {
                assert(line.last() == d.last());
                assert(is_digit(d[d.len() - 1]));
            }
        }
        assert(listing_entry_ok(indent, stripped_rest)) by {
            if rest.len() > 0 && rest.last() == '\r' {
                assert(forall|i: int| 0 <= i < stripped_rest.len() ==> #[trigger] stripped_rest[i] == rest[i]);
            }
        }
        lemma_line_pid_of_listing_line(indent, pid, stripped_rest);
        let ls = seq![strip_cr(line)] + lines(listing(tail));
        lemma_pids_of_lines_concat(seq![strip_cr(line)], lines(listing(tail)));
        assert(seq![strip_cr(line)].drop_last() =~= Seq::<Seq<char>>::empty());
        assert(seq![strip_cr(line)].last() == strip_cr(line));
        assert(line_pid(strip_cr(line)) == Some(pid));
        assert(pids_of_lines(Seq::<Seq<char>>::empty()) == Seq::<u32>::empty());
        assert(Seq::<u32>::empty().push(pid) =~= seq![pid]);
        assert(pids_of_lines(seq![strip_cr(line)]) == seq![pid]);
        assert(entries.map_values(|e: (Seq<char>, u32, Seq<char>)| e.1) =~= seq![pid]
            + tail.map_values(|e: (Seq<char>, u32, Seq<char>)| e.1));
    }
}


/// What the CLI printed, as one text: standard output, a line break, standard error.
pub open spec fn output_text_of(stdout: Seq<u8>, stderr: Seq<u8>) -> Seq<char> {
    utf8_lossy(stdout) + seq!['\n'] + utf8_lossy(stderr)
}

/// Both output streams of a CLI run as one text.
pub fn output_text(stdout: &[u8], stderr: &[u8]) -> (r: String)
    ensures
        r@ == output_text_of(stdout@, stderr@),
{
    let mut r = decode_lossy(stdout);
    let err = decode_lossy(stderr);
    let nl = "\n";
    proof {
        reveal_strlit("\n");
    }
    r.append(nl);
    r.append(err.as_str());
    r
}

/// What a run of the Unlim CLI gave back: whether it exited successfully, and its
/// standard output and standard error.
pub struct CliOutput {
    pub success: bool,
    pub stdout: Vec<u8>,
    pub stderr: Vec<u8>,
}

/// The process ids of the Unlim instances that a CLI run listed on either stream.
pub fn instance_pids_from(output: &CliOutput) -> (pids: Vec<u32>)
    ensures
        pids@ == text_pids(output_text_of(output.stdout@, output.stderr@)),
{
    let text = output_text(output.stdout.as_slice(), output.stderr.as_slice());
    instance_pids_from_text(text.as_str())
}

} // verus!
