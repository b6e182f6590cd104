//! Heading-aware chunking of the markdown library for retrieval: a file is
//! cut into sections at `#` headings, each section's text is prefixed with
//! its heading path, and long sections are packed paragraph by paragraph
//! into overlapping pieces.

use vstd::prelude::*;

use crate::text::{
    chars_of, join, join_chars, lit, push_all, push_str, seqs_view, slice_chars, split_char,
    split_chars, string_of, trim, trim_chars, lemma_split_nonempty,
};
use crate::wp_html::{lines_of, lines_spec};

verus! {

/// Chars of a piece at most.
pub const CHUNK_CHARS: usize = 900;

/// Chars a piece repeats of the one before it.
pub const CHUNK_OVERLAP: usize = 120;

/// One retrievable piece of a file.
pub struct TextChunk {
    pub path: String,
    pub title: String,
    pub text: String,
}

// ─── Sections ───────────────────────────────────────────────────────────────

/// The number of leading `#`.
pub open spec fn hash_run(s: Seq<char>) -> nat
    decreases s.len(),
{
    if s.len() > 0 && s[0] == '#' {
        1 + hash_run(s.drop_first())
    } else {
        0
    }
}

pub proof fn lemma_hash_run(s: Seq<char>, i: int)
    requires
        0 <= i <= s.len(),
        forall|j: int| 0 <= j < i ==> s[j] == '#',
    ensures
        hash_run(s) == i + hash_run(s.skip(i)),
    decreases i,
{
    if i > 0 {
        lemma_hash_run(s.drop_first(), i - 1);
        assert(s.drop_first().skip(i - 1) =~= s.skip(i));
    } else {
        assert(s.skip(0) =~= s);
    }
}

/// A section: heading level, heading text, body.
pub type Section = (nat, Seq<char>, Seq<char>);

/// Sections closed so far, and the open one, after reading some lines.
pub open spec fn scan_sections(lines: Seq<Seq<char>>) -> (Seq<Section>, Section)
    decreases lines.len(),
{
    if lines.len() == 0 {
        (seq![], (0, seq![], seq![]))
    } else {
        let (secs, cur) = scan_sections(lines.drop_last());
        let line = lines.last();
        let t = trim(line);
        if t.len() > 0 && t[0] == '#' {
            let rest = t.skip(1);
            let l = hash_run(rest);
            let closed = if cur.1.len() > 0 || cur.2.len() > 0 {
                secs.push(cur)
            } else {
                secs
            };
            (closed, (l, trim(rest.skip(l as int)), seq![]))
        } else {
            (secs, (cur.0, cur.1, cur.2 + line + seq!['\n']))
        }
    }
}

/// The sections of a file: a heading line opens one (its level is the
/// number of `#` after the first); other lines, newline-terminated, make
/// its body. Sections with neither heading nor body are dropped.
pub open spec fn sections_spec(content: Seq<char>) -> Seq<Section> {
    let (secs, cur) = scan_sections(lines_spec(content));
    if cur.1.len() > 0 || cur.2.len() > 0 {
        secs.push(cur)
    } else {
        secs
    }
}

pub struct SectionBuf {
    pub level: usize,
    pub heading: Vec<char>,
    pub body: Vec<char>,
}

pub open spec fn buf_v(s: SectionBuf) -> Section {
    (s.level as nat, s.heading@, s.body@)
}

pub open spec fn bufs_view(v: Seq<SectionBuf>) -> Seq<Section> {
    v.map_values(|s: SectionBuf| buf_v(s))
}

fn sections(content: &str) -> (r: Vec<SectionBuf>)
    ensures
        bufs_view(r@) == sections_spec(content@),
{
    let lines = lines_of(content);
    let ghost lv = seqs_view(lines@);
    let mut secs: Vec<SectionBuf> = Vec::new();
    let mut cur = SectionBuf { level: 0, heading: Vec::new(), body: Vec::new() };
    let mut i: usize = 0;
    assert(bufs_view(secs@) =~= scan_sections(lv.take(0)).0);
    assert(buf_v(cur) =~= scan_sections(lv.take(0)).1);
    while i < lines.len()
        invariant
            i <= lines@.len(),
            lv == seqs_view(lines@),
            (bufs_view(secs@), buf_v(cur)) == scan_sections(lv.take(i as int)),
        decreases lines@.len() - i,
    {
        assert(lv.take(i + 1).drop_last() =~= lv.take(i as int));
        assert(lv.take(i + 1).last() == lines@[i as int]@);
        let line = &lines[i];
        let t = trim_chars(line.as_slice());
        if t.len() > 0 && t[0] == '#' {
            let n = t.len();
            let rest = slice_chars(t.as_slice(), 1, n);
            assert(rest@ =~= t@.skip(1));
            let mut l: usize = 0;
            while l < rest.len() && rest[l] == '#'
                invariant
                    l <= rest@.len(),
                    forall|j: int| 0 <= j < l ==> rest@[j] == '#',
                decreases rest@.len() - l,
            {
                l = l + 1;
            }
            proof {
                lemma_hash_run(rest@, l as int);
                assert(hash_run(rest@.skip(l as int)) == 0);
            }
            let m = rest.len();
            let after = slice_chars(rest.as_slice(), l, m);
            assert(after@ =~= rest@.skip(l as int));
            let heading = trim_chars(after.as_slice());
            let ghost prev = bufs_view(secs@);
            let ghost cv = buf_v(cur);
            if cur.heading.len() > 0 || cur.body.len() > 0 {
                secs.push(cur);
                assert(bufs_view(secs@) =~= prev.push(cv));
            }
            cur = SectionBuf { level: l, heading, body: Vec::new() };
            assert(buf_v(cur) =~= (hash_run(rest@), trim(rest@.skip(hash_run(rest@) as int)), Seq::<char>::empty()));
        } else {
            push_all(&mut cur.body, line.as_slice());
            cur.body.push('\n');
        }
        i = i + 1;
    }
    assert(lv.take(lines@.len() as int) =~= lv);
    let ghost prev = bufs_view(secs@);
    let ghost cv = buf_v(cur);
    if cur.heading.len() > 0 || cur.body.len() > 0 {
        secs.push(cur);
        assert(bufs_view(secs@) =~= prev.push(cv));
    }
    secs
}

// ─── Pieces ─────────────────────────────────────────────────────────────────

/// The ancestor headings kept when a section of `level` opens: those of a
/// lower level.
pub open spec fn keep_below(pend: Seq<(nat, Seq<char>)>, level: nat) -> Seq<(nat, Seq<char>)>
    decreases pend.len(),
{
    if pend.len() == 0 {
        seq![]
    } else {
        let p = keep_below(pend.drop_last(), level);
        if pend.last().0 < level {
            p.push(pend.last())
        } else {
            p
        }
    }
}

/// The heading path shown before a piece: one `# heading` line per level.
pub open spec fn context_of(pend: Seq<(nat, Seq<char>)>) -> Seq<char> {
    join(pend.map_values(|e: (nat, Seq<char>)| "# "@ + e.1), "\n"@)
}

/// The non-blank lines of a body.
pub open spec fn nonblank(ls: Seq<Seq<char>>) -> Seq<Seq<char>>
    decreases ls.len(),
{
    if ls.len() == 0 {
        seq![]
    } else {
        let p = nonblank(ls.drop_last());
        if trim(ls.last()).len() > 0 {
            p.push(ls.last())
        } else {
            p
        }
    }
}

/// The last `n` chars.
pub open spec fn tail_chars(s: Seq<char>, n: nat) -> Seq<char> {
    if s.len() > n {
        s.skip(s.len() - n)
    } else {
        s
    }
}

/// Packing paragraphs into pieces: a piece is emitted when the next
/// paragraph would take it past the limit, and the next piece starts with
/// its last 120 chars.
pub open spec fn pack(ps: Seq<Seq<char>>) -> (Seq<Seq<char>>, Seq<char>)
    decreases ps.len(),
{
    if ps.len() == 0 {
        (seq![], seq![])
    } else {
        let (em, cur) = pack(ps.drop_last());
        let p = ps.last();
        let (em2, cur2) = if cur.len() + p.len() > CHUNK_CHARS && cur.len() > 0 {
            (em.push(cur), tail_chars(cur, CHUNK_OVERLAP as nat))
        } else {
            (em, cur)
        };
        (
            em2,
            if cur2.len() > 0 {
                cur2 + seq!['\n'] + p
            } else {
                p
            },
        )
    }
}

/// The pieces of one section's body: none when blank, the trimmed body when
/// short, else the packed paragraphs.
pub open spec fn section_pieces(body: Seq<char>) -> Seq<Seq<char>> {
    let b = trim(body);
    if b.len() == 0 {
        seq![]
    } else if b.len() <= CHUNK_CHARS {
        seq![b]
    } else {
        let (em, cur) = pack(nonblank(split_char(b, '\n')));
        if trim(cur).len() > 0 {
            em.push(cur)
        } else {
            em
        }
    }
}

/// A piece's text: the heading path, a blank line, the piece.
pub open spec fn chunk_text(ctx: Seq<char>, body: Seq<char>) -> Seq<char> {
    if ctx.len() == 0 {
        body
    } else {
        ctx + "\n\n"@ + body
    }
}

/// The texts of all sections' pieces, and the heading path open after them.
pub open spec fn chunk_fold(secs: Seq<Section>) -> (Seq<Seq<char>>, Seq<(nat, Seq<char>)>)
    decreases secs.len(),
{
    if secs.len() == 0 {
        (seq![], seq![])
    } else {
        let (texts, pend) = chunk_fold(secs.drop_last());
        let (lv, h, body) = secs.last();
        let pend2 = keep_below(pend, lv).push((lv, h));
        let ctx = context_of(pend2);
        (texts + section_pieces(body).map_values(|b: Seq<char>| chunk_text(ctx, b)), pend2)
    }
}

/// The chunk texts of a markdown file.
pub open spec fn chunk_markdown_spec(content: Seq<char>) -> Seq<Seq<char>> {
    chunk_fold(sections_spec(content)).0
}

pub open spec fn pend_view(v: Seq<(usize, Vec<char>)>) -> Seq<(nat, Seq<char>)> {
    v.map_values(|e: (usize, Vec<char>)| (e.0 as nat, e.1@))
}

fn keep_below_exec(pend: Vec<(usize, Vec<char>)>, level: usize) -> (r: Vec<(usize, Vec<char>)>)
    ensures
        pend_view(r@) == keep_below(pend_view(pend@), level as nat),
{
    let ghost pv = pend_view(pend@);
    let mut out: Vec<(usize, Vec<char>)> = Vec::new();
    let mut src = pend;
    let mut i: usize = 0;
    let n = src.len();
    assert(pend_view(out@) =~= keep_below(pv.take(0), level as nat));
    while i < n
        invariant
            i <= n,
            n == src@.len(),
            pv == pend_view(src@),
            pend_view(out@) == keep_below(pv.take(i as int), level as nat),
        decreases n - i,
    {
        assert(pv.take(i + 1).drop_last() =~= pv.take(i as int));
        assert(pv.take(i + 1).last() == pv[i as int]);
        let lv = src[i].0;
        if lv < level {
            let h = slice_chars(src[i].1.as_slice(), 0, src[i].1.len());
            assert(h@ =~= src@[i as int].1@);
            let ghost prev = pend_view(out@);
            out.push((lv, h));
            assert(pend_view(out@) =~= prev.push(pv[i as int]));
        }
        i = i + 1;
    }
    assert(pv.take(n as int) =~= pv);
    out
}

fn context_exec(pend: &Vec<(usize, Vec<char>)>) -> (r: Vec<char>)
    ensures
        r@ == context_of(pend_view(pend@)),
{
    let ghost pv = pend_view(pend@);
    let mut lines: Vec<Vec<char>> = Vec::new();
    let mut i: usize = 0;
    while i < pend.len()
        invariant
            i <= pend@.len(),
            pv == pend_view(pend@),
            seqs_view(lines@) =~= pv.take(i as int).map_values(|e: (nat, Seq<char>)| "# "@ + e.1),
        decreases pend@.len() - i,
    {
        let mut l = chars_of("# ");
        push_all(&mut l, pend[i].1.as_slice());
        let ghost prev = seqs_view(lines@);
        lines.push(l);
        assert(seqs_view(lines@) =~= prev.push("# "@ + pv[i as int].1));
        assert(pv.take(i + 1).map_values(|e: (nat, Seq<char>)| "# "@ + e.1) =~= pv.take(
            i as int,
        ).map_values(|e: (nat, Seq<char>)| "# "@ + e.1).push("# "@ + pv[i as int].1));
        i = i + 1;
    }
    assert(pv.take(pend@.len() as int) =~= pv);
    join_chars(&lines, "\n")
}

fn nonblank_exec(ls: &Vec<Vec<char>>) -> (r: Vec<Vec<char>>)
    ensures
        seqs_view(r@) == nonblank(seqs_view(ls@)),
{
    let ghost lv = seqs_view(ls@);
    let mut out: Vec<Vec<char>> = Vec::new();
    let mut i: usize = 0;
    while i < ls.len()
        invariant
            i <= ls@.len(),
            lv == seqs_view(ls@),
            seqs_view(out@) == nonblank(lv.take(i as int)),
        decreases ls@.len() - i,
    {
        assert(lv.take(i + 1).drop_last() =~= lv.take(i as int));
        assert(lv.take(i + 1).last() == ls@[i as int]@);
        if trim_chars(ls[i].as_slice()).len() > 0 {
            let p = slice_chars(ls[i].as_slice(), 0, ls[i].len());
            assert(p@ =~= ls@[i as int]@);
            let ghost prev = seqs_view(out@);
            out.push(p);
            assert(seqs_view(out@) =~= prev.push(ls@[i as int]@));
        }
        i = i + 1;
    }
    assert(lv.take(ls@.len() as int) =~= lv);
    out
}

fn pieces_exec(body: &[char]) -> (r: Vec<Vec<char>>)
    ensures
        seqs_view(r@) == section_pieces(body@),
{
    let b = trim_chars(body);
    let mut out: Vec<Vec<char>> = Vec::new();
    if b.len() == 0 {
        assert(seqs_view(out@) =~= section_pieces(body@));
        return out;
    }
    if b.len() <= CHUNK_CHARS {
        out.push(b);
        assert(seqs_view(out@) =~= section_pieces(body@));
        return out;
    }
    let parts = split_chars(b.as_slice(), '\n');
    let ps = nonblank_exec(&parts);
    let ghost pv = seqs_view(ps@);
    let mut cur: Vec<char> = Vec::new();
    let mut i: usize = 0;
    assert((seqs_view(out@), cur@) =~= pack(pv.take(0)));
    while i < ps.len()
        invariant
            i <= ps@.len(),
            pv == seqs_view(ps@),
            (seqs_view(out@), cur@) == pack(pv.take(i as int)),
        decreases ps@.len() - i,
    {
        assert(pv.take(i + 1).drop_last() =~= pv.take(i as int));
        assert(pv.take(i + 1).last() == ps@[i as int]@);
        let p = &ps[i];
        let over = p.len() > CHUNK_CHARS || cur.len() > CHUNK_CHARS - p.len();
        if over && cur.len() > 0 {
            let n = cur.len();
            let start: usize = if n > CHUNK_OVERLAP {
                n - CHUNK_OVERLAP
            } else {
                0
            };
            let tail = slice_chars(cur.as_slice(), start, n);
            assert(tail@ =~= tail_chars(cur@, CHUNK_OVERLAP as nat));
            let ghost prev = seqs_view(out@);
            let ghost cv = cur@;
            out.push(cur);
            assert(seqs_view(out@) =~= prev.push(cv));
            cur = tail;
        }
        if cur.len() > 0 {
            cur.push('\n');
        }
        push_all(&mut cur, p.as_slice());
        i = i + 1;
    }
    assert(pv.take(ps@.len() as int) =~= pv);
    if trim_chars(cur.as_slice()).len() > 0 {
        let ghost prev = seqs_view(out@);
        let ghost cv = cur@;
        out.push(cur);
        assert(seqs_view(out@) =~= prev.push(cv));
    }
    out
}

pub open spec fn chunks_text(v: Seq<TextChunk>) -> Seq<Seq<char>> {
    v.map_values(|c: TextChunk| c.text@)
}

/// Cuts a markdown file into retrievable pieces, each tagged with the
/// file's path and title.
pub fn chunk_markdown(content: &str, path: &str, title: &str) -> (r: Vec<TextChunk>)
    ensures
        chunks_text(r@) == chunk_markdown_spec(content@),
        forall|i: int| 0 <= i < r@.len() ==> (#[trigger] r@[i]).path@ == path@ && r@[i].title@ == title@,
{
    let secs = sections(content);
    let ghost sv = bufs_view(secs@);
    let mut out: Vec<TextChunk> = Vec::new();
    let mut pend: Vec<(usize, Vec<char>)> = Vec::new();
    let mut k: usize = 0;
    assert((chunks_text(out@), pend_view(pend@)) =~= chunk_fold(sv.take(0)));
    while k < secs.len()
        invariant
            k <= secs@.len(),
            sv == bufs_view(secs@),
            (chunks_text(out@), pend_view(pend@)) == chunk_fold(sv.take(k as int)),
            forall|i: int| 0 <= i < out@.len() ==> (#[trigger] out@[i]).path@ == path@ && out@[i].title@
                == title@,
        decreases secs@.len() - k,
    {
        assert(sv.take(k + 1).drop_last() =~= sv.take(k as int));
        assert(sv.take(k + 1).last() == buf_v(secs@[k as int]));
        let sec = &secs[k];
        let mut p2 = keep_below_exec(pend, sec.level);
        let h = slice_chars(sec.heading.as_slice(), 0, sec.heading.len());
        assert(h@ =~= sec.heading@);
        let ghost kb = pend_view(p2@);
        p2.push((sec.level, h));
        assert(pend_view(p2@) =~= kb.push((sec.level as nat, sec.heading@)));
        pend = p2;
        let ctx = context_exec(&pend);
        let pieces = pieces_exec(sec.body.as_slice());
        let ghost pcs = seqs_view(pieces@);
        let ghost before = chunks_text(out@);
        let mut j: usize = 0;
        while j < pieces.len()
            invariant
                j <= pieces@.len(),
                pcs == seqs_view(pieces@),
                chunks_text(out@) == before + pcs.take(j as int).map_values(
                    |b: Seq<char>| chunk_text(ctx@, b),
                ),
                forall|i: int| 0 <= i < out@.len() ==> (#[trigger] out@[i]).path@ == path@
                    && out@[i].title@ == title@,
            decreases pieces@.len() - j,
        {
            let mut text: Vec<char> = Vec::new();
            if ctx.len() > 0 {
                push_all(&mut text, ctx.as_slice());
                push_str(&mut text, "\n\n");
            }
            push_all(&mut text, pieces[j].as_slice());
            assert(text@ =~= chunk_text(ctx@, pieces@[j as int]@));
            let ghost prev = chunks_text(out@);
            let c = TextChunk { path: lit(path), title: lit(title), text: string_of(text.as_slice()) };
            out.push(c);
            assert(chunks_text(out@) =~= prev.push(chunk_text(ctx@, pcs[j as int])));
            assert(pcs.take(j + 1).map_values(|b: Seq<char>| chunk_text(ctx@, b)) =~= pcs.take(
                j as int,
            ).map_values(|b: Seq<char>| chunk_text(ctx@, b)).push(chunk_text(ctx@, pcs[j as int])));
            j = j + 1;
        }
        assert(pcs.take(pieces@.len() as int) =~= pcs);
        k = k + 1;
    }
    assert(sv.take(secs@.len() as int) =~= sv);
    out
}

/// When a section of level `level` opens, the heading path kept before it
/// holds exactly the earlier headings of a strictly lower level, in their
/// order: a sibling (same level) or a deeper heading is dropped.
pub proof fn kept_headings_are_ancestors(pend: Seq<(nat, Seq<char>)>, level: nat)
    ensures
        forall|i: int| 0 <= i < keep_below(pend, level).len() ==> (#[trigger] keep_below(pend, level)[i]).0 < level,
        forall|e: (nat, Seq<char>)| #[trigger] keep_below(pend, level).contains(e) <==> (pend.contains(e) && e.0 < level),
        keep_below(pend, level) == pend.filter(|e: (nat, Seq<char>)| e.0 < level),
    decreases pend.len(),
{
    reveal(Seq::filter);
    if pend.len() > 0 {
        let init = pend.drop_last();
        let x = pend.last();
        kept_headings_are_ancestors(init, level);
        let p = keep_below(init, level);
        let r = keep_below(pend, level);
        assert forall|e: (nat, Seq<char>)| #[trigger] r.contains(e) <==> (pend.contains(e) && e.0 < level) by {
            if r.contains(e) {
                let w = choose|w: int| 0 <= w < r.len() && r[w] == e;
                if w < p.len() {
                    assert(r[w] == p[w]);
                    assert(p.contains(e));
                    let m = choose|m: int| 0 <= m < init.len() && init[m] == e;
                    assert(pend[m] == e);
                } else {
                    assert(pend[pend.len() - 1] == e);
                }
            }
            if pend.contains(e) && e.0 < level {
                let m = choose|m: int| 0 <= m < pend.len() && pend[m] == e;
                if m < pend.len() - 1 {
                    assert(init[m] == e);
                    assert(init.contains(e));
                    assert(keep_below(init, level).contains(e));
                    assert(p.contains(e));
                    let w = choose|w: int| 0 <= w < p.len() && p[w] == e;
                    assert(r[w] == p[w]);
                } else {
                    assert(r[r.len() - 1] == e);
                }
            }
        }
        assert forall|i: int| 0 <= i < r.len() implies (#[trigger] r[i]).0 < level by {
            if i < p.len() {
                assert(r[i] == p[i]);
            }
        }
    } else {
        assert(pend.filter(|e: (nat, Seq<char>)| e.0 < level) =~= Seq::<(nat, Seq<char>)>::empty());
    }
}

/// Heading levels strictly rising along a path.
pub open spec fn rising(p: Seq<(nat, Seq<char>)>) -> bool {
    forall|i: int, j: int| 0 <= i < j < p.len() ==> (#[trigger] p[i]).0 < (#[trigger] p[j]).0
}

proof fn keep_below_rising(p: Seq<(nat, Seq<char>)>, level: nat)
    requires
        rising(p),
    ensures
        rising(keep_below(p, level)),
    decreases p.len(),
{
    if p.len() > 0 {
        let init = p.drop_last();
        assert forall|i: int, j: int| 0 <= i < j < init.len() implies (#[trigger] init[i]).0 < (#[trigger] init[j]).0 by {
            assert(init[i] == p[i] && init[j] == p[j]);
        }
        keep_below_rising(init, level);
        kept_headings_are_ancestors(init, level);
        let k = keep_below(init, level);
        let r = keep_below(p, level);
        if p.last().0 < level {
            assert forall|i: int, j: int| 0 <= i < j < r.len() implies (#[trigger] r[i]).0 < (#[trigger] r[j]).0 by {
                if j == r.len() - 1 {
                    assert(r[i] == k[i]);
                    assert(k.contains(k[i]));
                    assert(init.contains(k[i]));
                    let m = choose|m: int| 0 <= m < init.len() && init[m] == k[i];
                    assert(p[m] == k[i]);
                    assert(p[p.len() - 1] == p.last());
                } else {
                    assert(r[i] == k[i] && r[j] == k[j]);
                }
            }
        }
    }
}

/// The heading path open after any run of sections is a chain of
/// ancestors: levels strictly rising, ending at the last section's heading.
pub proof fn heading_path_is_chain(secs: Seq<Section>)
    ensures
        rising(chunk_fold(secs).1),
        secs.len() > 0 ==> chunk_fold(secs).1.last() == (secs.last().0, secs.last().1),
    decreases secs.len(),
{
    if secs.len() > 0 {
        heading_path_is_chain(secs.drop_last());
        let pend = chunk_fold(secs.drop_last()).1;
        let lv = secs.last().0;
        keep_below_rising(pend, lv);
        kept_headings_are_ancestors(pend, lv);
        let k = keep_below(pend, lv);
        let r = k.push((lv, secs.last().1));
        assert(chunk_fold(secs).1 == r);
        assert forall|i: int, j: int| 0 <= i < j < r.len() implies (#[trigger] r[i]).0 < (#[trigger] r[j]).0 by {
            if j == r.len() - 1 {
                assert(r[i] == k[i]);
            } else {
                assert(r[i] == k[i] && r[j] == k[j]);
            }
        }
    }
}

} // verus!
