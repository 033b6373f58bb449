use vstd::prelude::*;
use crate::text::texts;

verus! {

/// A file of the repository with its content, line by line.
#[derive(Clone, Debug, PartialEq, Eq)]
pub struct SourceFile {
    pub path: String,
    pub lines: Vec<String>,
}

/// The mathematical value of a [`SourceFile`].
pub struct SourceFileView {
    pub path: Seq<char>,
    pub lines: Seq<Seq<char>>,
}

impl View for SourceFile {
    type V = SourceFileView;

    open spec fn view(&self) -> SourceFileView {
        SourceFileView { path: self.path@, lines: texts(self.lines@) }
    }
}

/// The values of a list of files.
pub open spec fn file_views(files: Seq<SourceFile>) -> Seq<SourceFileView> {
    files.map_values(|f: SourceFile| f@)
}

/// The character that stands for a digit.
pub open spec fn digit_char(d: nat) -> char {
    if d == 0 {
        '0'
    } else if d == 1 {
        '1'
    } else if d == 2 {
        '2'
    } else if d == 3 {
        '3'
    } else if d == 4 {
        '4'
    } else if d == 5 {
        '5'
    } else if d == 6 {
        '6'
    } else if d == 7 {
        '7'
    } else if d == 8 {
        '8'
    } else {
        '9'
    }
}

/// A number written in decimal digits, without leading zeros.
pub open spec fn decimal(n: nat) -> Seq<char>
    decreases n,
{
    if n < 10 {
        seq![digit_char(n)]
    } else {
        decimal(n / 10).push(digit_char(n % 10))
    }
}

fn digit_text(d: u64) -> (r: &'static str)
    requires
        d < 10,
    ensures
        r@ == seq![digit_char(d as nat)],
{
    proof {
        reveal_strlit("0");
        reveal_strlit("1");
        reveal_strlit("2");
        reveal_strlit("3");
        reveal_strlit("4");
        reveal_strlit("5");
        reveal_strlit("6");
        reveal_strlit("7");
        reveal_strlit("8");
        reveal_strlit("9");
    }
    let r = if d == 0 {
        "0"
    } else if d == 1 {
        "1"
    } else if d == 2 {
        "2"
    } else if d == 3 {
        "3"
    } else if d == 4 {
        "4"
    } else if d == 5 {
        "5"
    } else if d == 6 {
        "6"
    } else if d == 7 {
        "7"
    } else if d == 8 {
        "8"
    } else {
        "9"
    };
    assert(r@ =~= seq![digit_char(d as nat)]);
    r
}

/// Writes a number in decimal digits.
pub fn to_decimal(n: u64) -> (r: String)
    ensures
        r@ == decimal(n as nat),
    decreases n,
{
    if n < 10 {
        digit_text(n).to_owned()
    } else {
        let mut s = to_decimal(n / 10);
        let ghost before = s@;
        s.append(digit_text(n % 10));
        assert(s@ =~= before.push(digit_char((n % 10) as nat)));
        s
    }
}

/// The lines of a file in chunks of at most `max` lines each, in order.
/// A file of no more than `max` lines is one chunk; a bound of 0 puts no
/// bound on a chunk.
pub open spec fn chunks(lines: Seq<Seq<char>>, max: nat) -> Seq<Seq<Seq<char>>>
    decreases lines.len(),
{
    if max == 0 || lines.len() <= max {
        seq![lines]
    } else {
        seq![lines.take(max as int)] + chunks(lines.skip(max as int), max)
    }
}

/// The number of chunks that a file of `n` lines is cut into.
pub open spec fn chunk_count(n: nat, max: nat) -> nat
    decreases n,
{
    if max == 0 || n <= max {
        1
    } else {
        1 + chunk_count((n - max) as nat, max)
    }
}

/// The number of chunks depends on the number of lines alone.
pub proof fn lemma_chunks_len(lines: Seq<Seq<char>>, max: nat)
    ensures
        chunks(lines, max).len() == chunk_count(lines.len(), max),
    decreases lines.len(),
{
    if !(max == 0 || lines.len() <= max) {
        lemma_chunks_len(lines.skip(max as int), max);
    }
}

/// Under a bound of at least 1 no chunk has more lines than the bound.
pub proof fn lemma_chunks_are_bounded(lines: Seq<Seq<char>>, max: nat)
    requires
        max >= 1,
    ensures
        forall|i: int| 0 <= i < chunks(lines, max).len() ==> (#[trigger] chunks(lines, max)[i]).len() <= max,
    decreases lines.len(),
{
    if !(lines.len() <= max) {
        let rest = chunks(lines.skip(max as int), max);
        lemma_chunks_are_bounded(lines.skip(max as int), max);
        let all = seq![lines.take(max as int)] + rest;
        assert forall|i: int| 0 <= i < all.len() implies (#[trigger] all[i]).len() <= max by {
            if i >= 1 {
                assert(all[i] == rest[i - 1]);
            }
        }
    }
}

/// The chunks of a file, one after the other, are the file: no line is
/// lost, repeated or moved.
pub proof fn lemma_chunks_cover(lines: Seq<Seq<char>>, max: nat)
    ensures
        chunks(lines, max).flatten() == lines,
    decreases lines.len(),
{
    if max == 0 || lines.len() <= max {
        assert(seq![lines].drop_first() =~= Seq::<Seq<Seq<char>>>::empty());
        assert(seq![lines].flatten() =~= lines + Seq::<Seq<Seq<char>>>::empty().flatten());
        assert(chunks(lines, max).flatten() =~= lines);
    } else {
        let rest = chunks(lines.skip(max as int), max);
        lemma_chunks_cover(lines.skip(max as int), max);
        let all = seq![lines.take(max as int)] + rest;
        assert(all.drop_first() =~= rest);
        assert(all.first() == lines.take(max as int));
        assert(all.flatten() =~= lines.take(max as int) + rest.flatten());
        assert(lines.take(max as int) + lines.skip(max as int) =~= lines);
    }
}

/// The heading of a chunk: the path of its file and, where the file has
/// more than one chunk, the number of the chunk and of the chunks.
pub open spec fn heading(path: Seq<char>, part: nat, parts: nat) -> Seq<char> {
    if parts <= 1 {
        "File: "@ + path + "\n"@
    } else {
        "File: "@ + path + " (part "@ + decimal(part) + " of "@ + decimal(parts) + ")\n"@
    }
}

/// Lines written one after the other, each ended by a line feed.
pub open spec fn body(lines: Seq<Seq<char>>) -> Seq<char>
    decreases lines.len(),
{
    if lines.len() == 0 {
        Seq::<char>::empty()
    } else {
        body(lines.drop_last()) + lines.last() + "\n"@
    }
}

/// The first `upto` chunks of a file, each under its heading.
pub open spec fn rendered_chunks(path: Seq<char>, cs: Seq<Seq<Seq<char>>>, upto: nat) -> Seq<char>
    decreases upto,
{
    if upto == 0 {
        Seq::<char>::empty()
    } else {
        rendered_chunks(path, cs, (upto - 1) as nat) + heading(path, upto, cs.len()) + body(
            cs[upto - 1],
        )
    }
}

/// A file as the model is shown it: cut into chunks of at most `max`
/// lines, each under its heading.
pub open spec fn rendered_file(file: SourceFileView, max: nat) -> Seq<char> {
    let cs = chunks(file.lines, max);
    rendered_chunks(file.path, cs, cs.len())
}

/// The files as the model is shown them, one after the other.
pub open spec fn rendered(files: Seq<SourceFileView>, max: nat) -> Seq<char>
    decreases files.len(),
{
    if files.len() == 0 {
        Seq::<char>::empty()
    } else {
        rendered(files.drop_last(), max) + rendered_file(files.last(), max)
    }
}

/// Counts the chunks that a file of `n` lines is cut into.
pub fn count_chunks(n: usize, max: usize) -> (c: usize)
    ensures
        c == chunk_count(n as nat, max as nat),
        c >= 1,
{
    if max == 0 {
        return 1;
    }
    let mut rest: usize = n;
    let mut c: usize = 1;
    while rest > max
        invariant
            max >= 1,
            rest <= n,
            c >= 1,
            c + rest <= n + 1,
            chunk_count(n as nat, max as nat) == (c - 1) + chunk_count(rest as nat, max as nat),
        decreases rest,
    {
        rest -= max;
        c += 1;
    }
    c
}

fn append_heading(out: &mut String, path: &str, part: usize, parts: usize)
    ensures
        final(out)@ == old(out)@ + heading(path@, part as nat, parts as nat),
{
    let ghost before = out@;
    out.append("File: ");
    out.append(path);
    if parts <= 1 {
        out.append("\n");
        assert(out@ =~= before + heading(path@, part as nat, parts as nat));
    } else {
        out.append(" (part ");
        out.append(to_decimal(part as u64).as_str());
        out.append(" of ");
        out.append(to_decimal(parts as u64).as_str());
        out.append(")\n");
        assert(out@ =~= before + heading(path@, part as nat, parts as nat));
    }
}

fn append_body(out: &mut String, lines: &Vec<String>, from: usize, to: usize)
    requires
        from <= to <= lines.len(),
    ensures
        final(out)@ == old(out)@ + body(texts(lines@).subrange(from as int, to as int)),
{
    let ghost before = out@;
    let ghost all = texts(lines@);
    let mut j: usize = from;
    assert(all.subrange(from as int, from as int) =~= Seq::<Seq<char>>::empty());
    assert(out@ =~= before + body(all.subrange(from as int, j as int)));
    while j < to
        invariant
            from <= j <= to <= lines.len(),
            all == texts(lines@),
            out@ == before + body(all.subrange(from as int, j as int)),
        decreases to - j,
    {
        let ghost sofar = out@;
        out.append(lines[j].as_str());
        out.append("\n");
        proof {
            let next = all.subrange(from as int, j as int + 1);
            assert(next.drop_last() =~= all.subrange(from as int, j as int));
            assert(next.last() == lines@[j as int]@);
            assert(out@ =~= before + body(next));
        }
        j += 1;
    }
}

/// Writes one file as the model is shown it.
pub fn render_file(out: &mut String, file: &SourceFile, max_chunk_lines: usize)
    ensures
        final(out)@ == old(out)@ + rendered_file(file@, max_chunk_lines as nat),
{
    let ghost before = out@;
    let ghost all = file@.lines;
    let ghost max = max_chunk_lines as nat;
    let ghost cs = chunks(all, max);
    let n: usize = file.lines.len();
    let parts: usize = count_chunks(n, max_chunk_lines);
    proof {
        lemma_chunks_len(all, max);
        assert(all.skip(0) =~= all);
        assert(cs.skip(0) =~= cs);
    }
    let mut c: usize = 0;
    let mut from: usize = 0;
    assert(out@ =~= before + rendered_chunks(file@.path, cs, 0));
    while c < parts
        invariant
            n == file.lines.len(),
            all == file@.lines,
            max == max_chunk_lines as nat,
            cs == chunks(all, max),
            parts == cs.len(),
            c <= parts,
            from <= n,
            c < parts ==> chunks(all.skip(from as int), max) == cs.skip(c as int),
            out@ == before + rendered_chunks(file@.path, cs, c as nat),
        decreases parts - c,
    {
        let ghost rest = all.skip(from as int);
        let ghost sofar = out@;
        let to: usize = if max_chunk_lines == 0 || n - from <= max_chunk_lines {
            n
        } else {
            from + max_chunk_lines
        };
        proof {
            assert(cs.skip(c as int)[0] == cs[c as int]);
            if max == 0 || rest.len() <= max {
                assert(chunks(rest, max) =~= seq![rest]);
                assert(cs.skip(c as int).len() == 1);
                assert(c + 1 == parts);
                assert(cs[c as int] =~= all.subrange(from as int, to as int));
            } else {
                let tail = chunks(rest.skip(max as int), max);
                assert(chunks(rest, max) == seq![rest.take(max as int)] + tail);
                assert((seq![rest.take(max as int)] + tail)[0] == rest.take(max as int));
                assert(cs[c as int] =~= all.subrange(from as int, to as int));
                assert(rest.skip(max as int) =~= all.skip(to as int));
                assert(cs.skip(c as int + 1) =~= cs.skip(c as int).drop_first());
                assert((seq![rest.take(max as int)] + tail).drop_first() =~= tail);
                assert(c + 1 < parts);
            }
        }
        append_heading(out, file.path.as_str(), c + 1, parts);
        append_body(out, &file.lines, from, to);
        proof {
            assert(out@ =~= before + rendered_chunks(file@.path, cs, (c + 1) as nat));
        }
        from = to;
        c += 1;
    }
}

/// Writes the files as the model is shown them in one request: every
/// file, in order, cut into chunks of at most `max_chunk_lines` lines.
pub fn render(files: &Vec<SourceFile>, max_chunk_lines: usize) -> (r: String)
    ensures
        r@ == rendered(file_views(files@), max_chunk_lines as nat),
{
    let n: usize = files.len();
    let ghost all = file_views(files@);
    let mut out = String::new();
    let mut i: usize = 0;
    assert(all.take(0) =~= Seq::<SourceFileView>::empty());
    while i < n
        invariant
            n == files.len(),
            all == file_views(files@),
            i <= n,
            out@ == rendered(all.take(i as int), max_chunk_lines as nat),
        decreases n - i,
    {
        proof {
            assert(all.take(i as int + 1).drop_last() =~= all.take(i as int));
            assert(all.take(i as int + 1).last() == files@[i as int]@);
        }
        render_file(&mut out, &files[i], max_chunk_lines);
        i += 1;
    }
    assert(all.take(n as int) =~= all);
    out
}

} // verus!
