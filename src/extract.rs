use vstd::prelude::*;
use vstd::string::StrSliceExecFns;

verus! {

/// A line with one trailing carriage return taken off, if it has one.
pub open spec fn strip_cr(line: Seq<char>) -> Seq<char> {
    if line.len() > 0 && line.last() == '\r' {
        line.drop_last()
    } else {
        line
    }
}

/// Splitting `s` into lines, one character at a time: the lines that a newline
/// has ended (without their `\n` or `\r\n`), and the line still open.
pub open spec fn split_state(s: Seq<char>) -> (Seq<Seq<char>>, Seq<char>)
    decreases s.len(),
{
    if s.len() == 0 {
        (seq![], seq![])
    } else {
        let (done, open) = split_state(s.drop_last());
        if s.last() == '\n' {
            (done.push(strip_cr(open)), seq![])
        } else {
            (done, open.push(s.last()))
        }
    }
}

/// The lines of `s`: split at `\n` or `\r\n`; a final line ending is optional,
/// so text that ends with a newline has no empty last line.
pub open spec fn lines_of(s: Seq<char>) -> Seq<Seq<char>> {
    let (done, open) = split_state(s);
    if open.len() > 0 {
        done.push(open)
    } else {
        done
    }
}

/// A fence marker: a line that begins with three backticks.
pub open spec fn is_fence_line(line: Seq<char>) -> bool {
    line.len() >= 3 && line[0] == '`' && line[1] == '`' && line[2] == '`'
}

/// The two states of the scanner.
#[derive(PartialEq, Eq, Structural, Clone, Copy)]
pub enum Fence {
    Outside,
    Inside,
}

/// What the scanner holds between lines: its state, the text of the block
/// being read, and the blocks closed so far.
pub struct ScanModel {
    pub fence: Fence,
    pub current: Seq<char>,
    pub blocks: Seq<Seq<char>>,
}

/// One line read by the scanner. A marker opens a block outside a fence and
/// closes it inside one; inside a fence any other line is kept with a newline;
/// outside one it is dropped.
pub open spec fn scan_step(st: ScanModel, line: Seq<char>) -> ScanModel {
    if is_fence_line(line) {
        match st.fence {
            Fence::Outside => ScanModel { fence: Fence::Inside, current: seq![], ..st },
            Fence::Inside => ScanModel {
                fence: Fence::Outside,
                current: seq![],
                blocks: st.blocks.push(st.current),
            },
        }
    } else {
        match st.fence {
            Fence::Inside => ScanModel { current: st.current + line.push('\n'), ..st },
            Fence::Outside => st,
        }
    }
}

/// The scanner after reading `lines` from the start.
pub open spec fn scan_lines(lines: Seq<Seq<char>>) -> ScanModel
    decreases lines.len(),
{
    if lines.len() == 0 {
        ScanModel { fence: Fence::Outside, current: seq![], blocks: seq![] }
    } else {
        scan_step(scan_lines(lines.drop_last()), lines.last())
    }
}

/// The text between each pair of fence markers of `content`, in order, before
/// trimming. A block that no marker closes is not among them.
pub open spec fn fenced_bodies(content: Seq<char>) -> Seq<Seq<char>> {
    scan_lines(lines_of(content)).blocks
}

/// The number of fence markers among `lines`.
pub open spec fn fence_count(lines: Seq<Seq<char>>) -> nat
    decreases lines.len(),
{
    if lines.len() == 0 {
        0
    } else {
        fence_count(lines.drop_last()) + if is_fence_line(lines.last()) {
            1nat
        } else {
            0nat
        }
    }
}

/// The line scanner: its state, the text of the block being read, and the
/// blocks closed so far.
pub struct Scanner {
    pub fence: Fence,
    pub current: String,
    pub blocks: Vec<String>,
}

impl View for Scanner {
    type V = ScanModel;

    open spec fn view(&self) -> ScanModel {
        ScanModel {
            fence: self.fence,
            current: self.current@,
            blocks: self.blocks@.map_values(|b: String| b@),
        }
    }
}

impl Scanner {
    /// A scanner outside any fence that has read nothing.
    pub fn new() -> (r: Scanner)
        ensures
            r@ == scan_lines(seq![]),
    {
        let r = Scanner { fence: Fence::Outside, current: String::new(), blocks: Vec::new() };
        assert(r@.blocks =~= seq![]);
        r
    }

    /// Reads one line (without its line ending).
    pub fn feed(&mut self, line: &str)
        ensures
            final(self)@ == scan_step(old(self)@, line@),
    {
        let n = line.unicode_len();
        let marker = n >= 3 && line.get_char(0) == '`' && line.get_char(1) == '`'
            && line.get_char(2) == '`';
        if marker {
            match self.fence {
                Fence::Outside => {
                    self.fence = Fence::Inside;
                    self.current = String::new();
                },
                Fence::Inside => {
                    let body = self.current.clone();
                    self.blocks.push(body);
                    self.fence = Fence::Outside;
                    self.current = String::new();
                    assert(final(self)@.blocks =~= old(self)@.blocks.push(old(self)@.current));
                },
            }
        } else {
            match self.fence {
                Fence::Inside => {
                    self.current.append(line);
                    self.current.append("\n");
                    assert("\n"@ =~= seq!['\n']) by {
                        reveal_strlit("\n");
                    }
                    assert(final(self)@.current =~= old(self)@.current + line@.push('\n'));
                },
                Fence::Outside => {},
            }
        }
    }
}

/// The untrimmed text of each fenced block of `content`, in order.
pub fn fence_bodies(content: &str) -> (r: Vec<String>)
    ensures
        r@.map_values(|b: String| b@) == fenced_bodies(content@),
{
    let n = content.unicode_len();
    let mut sc = Scanner::new();
    let mut start: usize = 0;
    let mut i: usize = 0;
    assert(content@.take(0) =~= seq![]);
    while i < n
        invariant
            n == content@.len(),
            start <= i <= n,
            sc@ == scan_lines(split_state(content@.take(i as int)).0),
            split_state(content@.take(i as int)).1 == content@.subrange(start as int, i as int),
        decreases n - i,
    {
        let c = content.get_char(i);
        let ghost before = split_state(content@.take(i as int));
        assert(content@.take(i + 1).drop_last() =~= content@.take(i as int));
        assert(content@.take(i + 1).last() == c);
        if c == '\n' {
            let mut end = i;
            if end > start && content.get_char(end - 1) == '\r' {
                end = end - 1;
                assert(content@.subrange(start as int, end as int) =~= before.1.drop_last());
            }
            let line = content.substring_char(start, end);
            assert(line@ == strip_cr(before.1));
            sc.feed(line);
            assert(before.0.push(strip_cr(before.1)).drop_last() =~= before.0);
            start = i + 1;
            assert(content@.subrange(start as int, i + 1) =~= seq![]);
        } else {
            assert(content@.subrange(start as int, i + 1) =~= before.1.push(c));
        }
        i = i + 1;
    }
    assert(content@.take(i as int) =~= content@);
    let ghost done = split_state(content@).0;
    if start < n {
        let line = content.substring_char(start, n);
        sc.feed(line);
        assert(done.push(line@).drop_last() =~= done);
    }
    sc.blocks
}

/// A character of the Unicode `White_Space` property, as `char::is_whitespace`
/// lists them.
pub open spec fn is_white_space(c: char) -> bool {
    ('\u{9}' <= c && c <= '\u{d}') || c == ' ' || c == '\u{85}' || c == '\u{a0}'
        || c == '\u{1680}' || ('\u{2000}' <= c && c <= '\u{200a}') || c == '\u{2028}'
        || c == '\u{2029}' || c == '\u{202f}' || c == '\u{205f}' || c == '\u{3000}'
}

/// `s` without its leading white space.
pub open spec fn trim_start_spec(s: Seq<char>) -> Seq<char>
    decreases s.len(),
{
    if s.len() > 0 && is_white_space(s[0]) {
        trim_start_spec(s.drop_first())
    } else {
        s
    }
}

/// `s` without its trailing white space.
pub open spec fn trim_end_spec(s: Seq<char>) -> Seq<char>
    decreases s.len(),
{
    if s.len() > 0 && is_white_space(s.last()) {
        trim_end_spec(s.drop_last())
    } else {
        s
    }
}

/// `s` without its leading and trailing white space.
pub open spec fn trimmed(s: Seq<char>) -> Seq<char> {
    trim_end_spec(trim_start_spec(s))
}

/// Relies on str::trim: the text without its leading and trailing characters
/// of the Unicode `White_Space` property.
#[verifier::external_body]
pub(crate) fn trim_text(s: &str) -> (r: &str)
    ensures
        r@ == trimmed(s@),
{
    s.trim()
}

/// The code blocks of `content`: each fenced body, trimmed, in order.
pub open spec fn extracted(content: Seq<char>) -> Seq<Seq<char>> {
    fenced_bodies(content).map_values(|b: Seq<char>| trimmed(b))
}

/// The code blocks of `content`, in the order in which their closing markers
/// come. Markers are never part of a block; an unterminated last block is
/// dropped.
pub fn extract(content: &str) -> (r: Vec<String>)
    ensures
        r@.map_values(|b: String| b@) == extracted(content@),
{
    let bodies = fence_bodies(content);
    let ghost spec_bodies = fenced_bodies(content@);
    assert(bodies@.len() == spec_bodies.len() && forall|k: int|
        0 <= k < bodies@.len() ==> #[trigger] bodies@[k]@ == spec_bodies[k]) by {
        assert forall|k: int| 0 <= k < bodies@.len() implies #[trigger] bodies@[k]@
            == spec_bodies[k] by {
            assert(bodies@.map_values(|b: String| b@)[k] == bodies@[k]@);
        }
    }
    let mut r: Vec<String> = Vec::new();
    let mut i: usize = 0;
    while i < bodies.len()
        invariant
            i <= bodies@.len(),
            bodies@.len() == spec_bodies.len(),
            forall|k: int| 0 <= k < bodies@.len() ==> #[trigger] bodies@[k]@ == spec_bodies[k],
            spec_bodies == fenced_bodies(content@),
            r@.map_values(|b: String| b@) == spec_bodies.take(i as int).map_values(
                |b: Seq<char>| trimmed(b),
            ),
        decreases bodies@.len() - i,
    {
        let t = trim_text(bodies[i].as_str()).to_owned();
        assert(t@ == trimmed(spec_bodies[i as int]));
        let ghost prev = r@;
        r.push(t);
        assert(r@.map_values(|b: String| b@) =~= prev.map_values(|b: String| b@).push(t@));
        assert(spec_bodies.take(i + 1).map_values(|b: Seq<char>| trimmed(b)) =~= spec_bodies.take(
            i as int,
        ).map_values(|b: Seq<char>| trimmed(b)).push(trimmed(spec_bodies[i as int])));
        i = i + 1;
        assert(r@.map_values(|b: String| b@) =~= spec_bodies.take(i as int).map_values(
            |b: Seq<char>| trimmed(b),
        ));
    }
    assert(spec_bodies.take(i as int) =~= spec_bodies);
    r
}

/// Scanning `lines` closes one block for every two markers, and leaves the
/// scanner inside a fence exactly when it has read an odd number of them.
pub proof fn lemma_scan_counts(lines: Seq<Seq<char>>)
    ensures
        scan_lines(lines).blocks.len() == fence_count(lines) / 2,
        (scan_lines(lines).fence == Fence::Inside) == (fence_count(lines) % 2 == 1),
    decreases lines.len(),
{
    if lines.len() > 0 {
        lemma_scan_counts(lines.drop_last());
    }
}

/// With an even number of fence markers, every marker is paired, and the
/// number of blocks is half the number of markers.
pub proof fn lemma_balanced_block_count(content: Seq<char>)
    requires
        fence_count(lines_of(content)) % 2 == 0,
    ensures
        extracted(content).len() == fence_count(lines_of(content)) / 2,
{
    lemma_scan_counts(lines_of(content));
}

/// With an odd number of fence markers, the last block is never closed and
/// is dropped: the number of blocks is half of one fewer than the markers.
pub proof fn lemma_unterminated_block_count(content: Seq<char>)
    requires
        fence_count(lines_of(content)) % 2 == 1,
    ensures
        extracted(content).len() == (fence_count(lines_of(content)) - 1) / 2,
        scan_lines(lines_of(content)).fence == Fence::Inside,
{
    lemma_scan_counts(lines_of(content));
}

/// Extraction keeps no state between calls: two calls on the same text give
/// the same blocks.
pub proof fn lemma_extract_restartable(content: Seq<char>, first: Seq<String>, second: Seq<String>)
    requires
        first.map_values(|b: String| b@) == extracted(content),
        second.map_values(|b: String| b@) == extracted(content),
    ensures
        first.len() == second.len(),
        forall|k: int| 0 <= k < first.len() ==> #[trigger] first[k]@ == second[k]@,
{
    assert(first.map_values(|b: String| b@).len() == first.len());
    assert(second.map_values(|b: String| b@).len() == second.len());
    assert forall|k: int| 0 <= k < first.len() implies #[trigger] first[k]@ == second[k]@ by {
        assert(first.map_values(|b: String| b@)[k] == first[k]@);
        assert(second.map_values(|b: String| b@)[k] == second[k]@);
    }
}

/// Reading the lines after a marker `k` that no later marker follows: the
/// count of markers grows by that one, and when the scanner was outside a
/// fence before `k`, it stays inside one and closes no block.
proof fn lemma_after_last_marker(lines: Seq<Seq<char>>, k: int, j: int)
    requires
        0 <= k < j <= lines.len(),
        is_fence_line(lines[k]),
        forall|m: int| k < m < lines.len() ==> !is_fence_line(#[trigger] lines[m]),
    ensures
        fence_count(lines.take(j)) == fence_count(lines.take(k)) + 1,
        fence_count(lines.take(k)) % 2 == 0 ==> scan_lines(lines.take(j)).blocks == scan_lines(
            lines.take(k),
        ).blocks && scan_lines(lines.take(j)).fence == Fence::Inside,
    decreases j - k,
{
    assert(lines.take(j).drop_last() =~= lines.take(j - 1));
    assert(lines.take(j).last() == lines[j - 1]);
    if j == k + 1 {
        lemma_scan_counts(lines.take(k));
    } else {
        lemma_after_last_marker(lines, k, j - 1);
    }
}

/// An unterminated trailing fence leaves no trace: with an odd number of
/// markers, where `k` is the last one, the blocks of `content` are those of
/// its lines before `k`; neither that marker nor any line after it reaches
/// the output.
pub proof fn lemma_unterminated_tail_dropped(content: Seq<char>, k: int)
    requires
        0 <= k < lines_of(content).len(),
        is_fence_line(lines_of(content)[k]),
        forall|m: int|
            k < m < lines_of(content).len() ==> !is_fence_line(#[trigger] lines_of(content)[m]),
        fence_count(lines_of(content)) % 2 == 1,
    ensures
        extracted(content) == scan_lines(lines_of(content).take(k)).blocks.map_values(
            |b: Seq<char>| trimmed(b),
        ),
{
    let lines = lines_of(content);
    lemma_after_last_marker(lines, k, lines.len() as int);
    assert(lines.take(lines.len() as int) =~= lines);
}

} // verus!
