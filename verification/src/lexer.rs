//! The text of a program as lines and words: runs of characters of one
//! kind, white space at the ends of a line, the words of a line and the text
//! between quotes.

use vstd::prelude::*;
use vstd::string::StrSliceExecFns;

verus! {

/// The kinds of character runs that the grammar is made of.
#[derive(Debug, Clone, Copy, PartialEq, Eq, Structural)]
pub enum Run {
    /// White space.
    Spaces,
    /// Anything but white space.
    Word,
    /// Anything but a line feed.
    Line,
    /// Anything but a double quote.
    Unquoted,
}

/// White space: the characters U+0009 to U+000D, U+0020, U+0085, U+00A0,
/// U+1680, U+2000 to U+200A, U+2028, U+2029, U+202F, U+205F and U+3000.
pub open spec fn is_space(c: char) -> bool {
    let u = c as u32;
    u == 0x20 || (0x09 <= u <= 0x0d) || u == 0x85 || u == 0xa0 || u == 0x1680 || (0x2000 <= u
        <= 0x200a) || u == 0x2028 || u == 0x2029 || u == 0x202f || u == 0x205f || u == 0x3000
}

pub open spec fn belongs(c: char, kind: Run) -> bool {
    match kind {
        Run::Spaces => is_space(c),
        Run::Word => !is_space(c),
        Run::Line => c != '\n',
        Run::Unquoted => c != '"',
    }
}

/// The length of the longest prefix of `s` whose characters all belong to
/// `kind`.
pub open spec fn run_len(s: Seq<char>, kind: Run) -> nat
    decreases s.len(),
{
    if s.len() == 0 || !belongs(s[0], kind) {
        0
    } else {
        1 + run_len(s.skip(1), kind)
    }
}

/// The number of white space characters at the end of `s`.
pub open spec fn trailing(s: Seq<char>) -> nat
    decreases s.len(),
{
    if s.len() == 0 || !is_space(s.last()) {
        0
    } else {
        1 + trailing(s.drop_last())
    }
}

/// `s` without the white space at its ends.
pub open spec fn trim(s: Seq<char>) -> Seq<char> {
    let a = run_len(s, Run::Spaces);
    let z = trailing(s);
    if a + z >= s.len() {
        Seq::empty()
    } else {
        s.subrange(a as int, s.len() - z)
    }
}

/// The line holds nothing but white space.
pub open spec fn is_blank(s: Seq<char>) -> bool {
    trim(s).len() == 0
}

/// Without its white space the line is the single character `c`.
pub open spec fn is_just(s: Seq<char>, c: char) -> bool {
    trim(s) == seq![c]
}

/// The last character of the line that is not white space is `{`.
pub open spec fn ends_with_brace(s: Seq<char>) -> bool {
    trailing(s) < s.len() && s[s.len() - trailing(s) - 1] == '{'
}

/// Where the first word of `s` begins and ends.
pub open spec fn first_word(s: Seq<char>) -> Option<(int, int)> {
    let a = run_len(s, Run::Spaces) as int;
    if a >= s.len() {
        None
    } else {
        Some((a, a + run_len(s.skip(a), Run::Word)))
    }
}

/// The word of `s` at position `k`, counted from 0. Words are separated by
/// white space.
pub open spec fn word_at(s: Seq<char>, k: nat) -> Option<Seq<char>>
    decreases k,
{
    match first_word(s) {
        None => None,
        Some((a, b)) => if k == 0 {
            Some(s.subrange(a, b))
        } else {
            word_at(s.skip(b), (k - 1) as nat)
        },
    }
}

/// The text between the first double quote of `s` and the next one, or the
/// end of `s` where there is no other.
pub open spec fn quoted(s: Seq<char>) -> Option<Seq<char>> {
    let a = run_len(s, Run::Unquoted) as int;
    if a >= s.len() {
        None
    } else {
        let rest = s.skip(a + 1);
        Some(rest.take(run_len(rest, Run::Unquoted) as int))
    }
}

/// A line without the carriage return that ended it, if one did.
pub open spec fn strip_cr(s: Seq<char>) -> Seq<char> {
    if s.len() > 0 && s.last() == '\r' {
        s.drop_last()
    } else {
        s
    }
}

/// The lines of a text. A line ends at a line feed, or at a carriage return
/// before a line feed, or where the text ends; a text that ends in a line
/// feed has no empty line after it.
pub open spec fn lines_of(s: Seq<char>) -> Seq<Seq<char>>
    decreases s.len(),
{
    if s.len() == 0 {
        Seq::empty()
    } else {
        let n = run_len(s, Run::Line) as int;
        if n >= s.len() {
            seq![s]
        } else {
            seq![strip_cr(s.take(n))] + lines_of(s.skip(n + 1))
        }
    }
}

pub proof fn lemma_trailing_bound(s: Seq<char>)
    ensures
        trailing(s) <= s.len(),
        forall|i: int| 0 <= i < s.len() && !is_space(#[trigger] s[i]) ==> trailing(s) < s.len() - i,
    decreases s.len(),
{
    if s.len() > 0 && is_space(s.last()) {
        lemma_trailing_bound(s.drop_last());
        assert forall|i: int| 0 <= i < s.len() && !is_space(#[trigger] s[i]) implies trailing(s)
            < s.len() - i by {
            assert(s.drop_last()[i] == s[i]);
        }
    }
}

/// Whether `c` is white space.
pub fn space(c: char) -> (r: bool)
    ensures
        r == is_space(c),
{
    let u = c as u32;
    u == 0x20 || (0x09 <= u && u <= 0x0d) || u == 0x85 || u == 0xa0 || u == 0x1680 || (0x2000 <= u
        && u <= 0x200a) || u == 0x2028 || u == 0x2029 || u == 0x202f || u == 0x205f || u == 0x3000
}

fn in_run(c: char, kind: Run) -> (r: bool)
    ensures
        r == belongs(c, kind),
{
    match kind {
        Run::Spaces => space(c),
        Run::Word => !space(c),
        Run::Line => c != '\n',
        Run::Unquoted => c != '"',
    }
}

/// Where the run of `kind` that begins at `from` ends.
pub fn scan(chars: &Vec<char>, from: usize, kind: Run) -> (to: usize)
    requires
        from <= chars@.len(),
    ensures
        from <= to <= chars@.len(),
        to - from == run_len(chars@.skip(from as int), kind),
        to < chars@.len() ==> !belongs(chars@[to as int], kind),
{
    let mut to: usize = from;
    while to < chars.len() && in_run(chars[to], kind)
        invariant
            from <= to <= chars@.len(),
            run_len(chars@.skip(from as int), kind) == (to - from) + run_len(
                chars@.skip(to as int),
                kind,
            ),
        decreases chars@.len() - to,
    {
        assert(chars@.skip(to as int).skip(1) =~= chars@.skip(to + 1));
        to += 1;
    }
    to
}

/// Where the white space at the end of the first `to` characters begins.
pub fn scan_back(chars: &Vec<char>, to: usize) -> (from: usize)
    requires
        to <= chars@.len(),
    ensures
        from <= to,
        to - from == trailing(chars@.take(to as int)),
{
    let mut from: usize = to;
    while from > 0 && space(chars[from - 1])
        invariant
            from <= to <= chars@.len(),
            trailing(chars@.take(to as int)) == (to - from) + trailing(chars@.take(from as int)),
        decreases from,
    {
        assert(chars@.take(from as int).drop_last() =~= chars@.take(from - 1));
        from -= 1;
    }
    from
}

/// The characters of a text.
pub fn to_chars(s: &str) -> (v: Vec<char>)
    ensures
        v@ == s@,
{
    let mut v: Vec<char> = Vec::new();
    for c in it: s.chars()
        invariant
            v@ == it.seq().take(it.index() as int),
            it.seq() == s@,
    {
        v.push(c);
    }
    v
}

/// One line of the source, as text and as characters.
pub struct Line {
    pub text: String,
    pub chars: Vec<char>,
}

impl View for Line {
    type V = Seq<char>;

    open spec fn view(&self) -> Seq<char> {
        self.chars@
    }
}

impl Line {
    /// The text and the characters are the same.
    pub open spec fn wf(&self) -> bool {
        self.text@ == self.chars@
    }

    /// The line that `text` holds.
    pub fn new(text: String) -> (line: Line)
        ensures
            line.wf(),
            line@ == text@,
    {
        let chars = to_chars(text.as_str());
        Line { text, chars }
    }

    /// Whether the line holds nothing but white space.
    pub fn blank(&self) -> (r: bool)
        ensures
            r == is_blank(self@),
    {
        let a = scan(&self.chars, 0, Run::Spaces);
        proof {
            assert(self.chars@.skip(0) =~= self.chars@);
            lemma_trailing_bound(self@);
        }
        a == self.chars.len()
    }

    /// Whether the line, without its white space, is the character `c`.
    pub fn just(&self, c: char) -> (r: bool)
        ensures
            r == is_just(self@, c),
    {
        let n = self.chars.len();
        let a = scan(&self.chars, 0, Run::Spaces);
        let e = scan_back(&self.chars, n);
        proof {
            assert(self.chars@.skip(0) =~= self.chars@);
            assert(self.chars@.take(n as int) =~= self.chars@);
            lemma_trailing_bound(self@);
        }
        if a < n && e == a + 1 {
            let found = self.chars[a] == c;
            proof {
                assert(trim(self@) =~= seq![self.chars@[a as int]]);
                if found {
                    assert(trim(self@) =~= seq![c]);
                } else {
                    assert(trim(self@)[0] != seq![c][0]);
                }
            }
            found
        } else {
            proof {
                assert(trim(self@).len() != seq![c].len());
            }
            false
        }
    }

    /// Whether the last character of the line that is not white space is
    /// `{`.
    pub fn brace_at_end(&self) -> (r: bool)
        ensures
            r == ends_with_brace(self@),
    {
        let n = self.chars.len();
        let e = scan_back(&self.chars, n);
        proof {
            assert(self.chars@.take(n as int) =~= self.chars@);
        }
        e > 0 && self.chars[e - 1] == '{'
    }

    /// The word at position `k`, counted from 0.
    pub fn word(&self, k: usize) -> (r: Option<String>)
        requires
            self.wf(),
        ensures
            match r {
                Some(w) => word_at(self@, k as nat) == Some(w@),
                None => word_at(self@, k as nat) is None,
            },
    {
        let n = self.chars.len();
        let mut from: usize = 0;
        let mut j: usize = 0;
        proof {
            assert(self.chars@.skip(0) =~= self.chars@);
        }
        loop
            invariant
                self.wf(),
                n == self.chars@.len(),
                from <= n,
                j <= k,
                word_at(self@, k as nat) == word_at(self@.skip(from as int), (k - j) as nat),
            decreases k - j,
        {
            let ghost rest = self@.skip(from as int);
            let a = scan(&self.chars, from, Run::Spaces);
            if a == n {
                return None;
            }
            let b = scan(&self.chars, a, Run::Word);
            proof {
                assert(rest.skip(a - from) =~= self@.skip(a as int));
                assert(first_word(rest) == Some((a - from, b - from)));
                assert(rest.subrange(a - from, b - from) =~= self@.subrange(a as int, b as int));
                assert(rest.skip(b - from) =~= self@.skip(b as int));
            }
            if j == k {
                let w = self.text.as_str().substring_char(a, b).to_owned();
                return Some(w);
            }
            from = b;
            j += 1;
        }
    }

    /// The text between the first double quote and the next one, or the end
    /// of the line.
    pub fn quoted_text(&self) -> (r: Option<String>)
        requires
            self.wf(),
        ensures
            match r {
                Some(t) => quoted(self@) == Some(t@),
                None => quoted(self@) is None,
            },
    {
        let n = self.chars.len();
        let a = scan(&self.chars, 0, Run::Unquoted);
        proof {
            assert(self.chars@.skip(0) =~= self.chars@);
        }
        if a == n {
            return None;
        }
        let b = scan(&self.chars, a + 1, Run::Unquoted);
        proof {
            let rest = self@.skip(a + 1);
            assert(rest.take(b - (a + 1)) =~= self@.subrange(a + 1, b as int));
        }
        Some(self.text.as_str().substring_char(a + 1, b).to_owned())
    }
}

/// The views of the lines.
pub open spec fn texts_of(lines: Seq<Line>) -> Seq<Seq<char>> {
    Seq::new(lines.len(), |i: int| lines[i]@)
}

/// The lines of `source`.
pub fn split_lines(source: &str) -> (lines: Vec<Line>)
    ensures
        texts_of(lines@) == lines_of(source@),
        forall|i: int| 0 <= i < lines@.len() ==> (#[trigger] lines@[i]).wf(),
{
    let chars = to_chars(source);
    let n = chars.len();
    let mut lines: Vec<Line> = Vec::new();
    let mut pos: usize = 0;
    proof {
        assert(source@.skip(0) =~= source@);
        assert(texts_of(lines@) =~= Seq::empty());
    }
    while pos < n
        invariant
            chars@ == source@,
            n == chars@.len(),
            pos <= n,
            lines_of(source@) == texts_of(lines@) + lines_of(source@.skip(pos as int)),
            forall|i: int| 0 <= i < lines@.len() ==> (#[trigger] lines@[i]).wf(),
        decreases n - pos,
    {
        let ghost rest = source@.skip(pos as int);
        let ghost before = lines@;
        let e = scan(&chars, pos, Run::Line);
        if e == n {
            let line = Line::new(source.substring_char(pos, e).to_owned());
            lines.push(line);
            proof {
                assert(rest =~= source@.subrange(pos as int, e as int));
                assert(source@.skip(e as int) =~= Seq::<char>::empty());
                assert(texts_of(lines@) =~= texts_of(before) + seq![rest]);
            }
            pos = e;
        } else {
            let end = if e > pos && chars[e - 1] == '\r' {
                e - 1
            } else {
                e
            };
            let line = Line::new(source.substring_char(pos, end).to_owned());
            lines.push(line);
            proof {
                let first = rest.take(e - pos);
                assert(first =~= source@.subrange(pos as int, e as int));
                assert(strip_cr(first) =~= source@.subrange(pos as int, end as int));
                assert(rest.skip(e - pos + 1) =~= source@.skip(e + 1));
                assert(texts_of(lines@) =~= texts_of(before) + seq![strip_cr(first)]);
                assert(texts_of(before) + (seq![strip_cr(first)] + lines_of(source@.skip(e + 1)))
                    =~= texts_of(lines@) + lines_of(source@.skip(e + 1)));
            }
            pos = e + 1;
        }
    }
    proof {
        assert(texts_of(lines@) + Seq::<Seq<char>>::empty() =~= texts_of(lines@));
    }
    lines
}

/// Whether `word` reads `text`.
pub fn reads(word: &String, text: &str) -> (r: bool)
    ensures
        r == (word@ == text@),
{
    let owned = text.to_owned();
    *word == owned
}

} // verus!
