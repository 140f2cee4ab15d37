//! Greedy word wrap against a text measurer.
//!
//! How wide a text is depends on the font, which only the renderer knows.
//! So wrapping is a conversation: the wrapper asks for the width of one
//! text at a time (`request`), is told it (`feed`), and decides; once done
//! it hands out the lines.

use vstd::prelude::*;

use crate::fmt::{owned, push_str, string_push};
use crate::sysinfo::{split_words, str_views, words, words_acc};
use crate::text::is_ws;

verus! {

/// The pieces of `s[i..]` between the separators `c`, `cur` being the
/// piece in progress (as `str::split(c)` gives them, empty pieces kept).
pub open spec fn pieces_acc(s: Seq<char>, i: int, cur: Seq<char>, c: char) -> Seq<Seq<char>>
    decreases s.len() - i,
{
    if i >= s.len() {
        seq![cur]
    } else if s[i] == c {
        seq![cur] + pieces_acc(s, i + 1, Seq::empty(), c)
    } else {
        pieces_acc(s, i + 1, cur.push(s[i]), c)
    }
}

/// The pieces of `s` between the separators `c`.
pub open spec fn pieces(s: Seq<char>, c: char) -> Seq<Seq<char>> {
    pieces_acc(s, 0, Seq::empty(), c)
}

/// Split `s` at every `c` (`str::split` with a character).
pub fn split_on(s: &str, c: char) -> (r: Vec<String>)
    ensures
        r@.map_values(|p: String| p@) == pieces(s@, c),
{
    let n = s.unicode_len();
    let mut out: Vec<String> = Vec::new();
    let mut start: usize = 0;
    let mut i: usize = 0;
    assert(s@.subrange(0, 0) =~= Seq::<char>::empty());
    assert(out@.map_values(|p: String| p@) + pieces(s@, c) =~= pieces(s@, c));
    while i < n
        invariant
            n == s@.len(),
            start <= i <= n,
            pieces(s@, c) == out@.map_values(|p: String| p@) + pieces_acc(s@, i as int, s@.subrange(start as int, i as int), c),
        decreases n - i,
    {
        let ch = s.get_char(i);
        let ghost cur = s@.subrange(start as int, i as int);
        let ghost before = out@.map_values(|p: String| p@);
        if ch == c {
            let piece = owned(s.substring_char(start, i));
            out.push(piece);
            assert(out@.map_values(|p: String| p@) =~= before.push(cur));
            assert(before.push(cur) + pieces_acc(s@, i + 1, Seq::empty(), c) =~= before + (seq![cur]
                + pieces_acc(s@, i + 1, Seq::empty(), c)));
            start = i + 1;
            assert(s@.subrange(start as int, i + 1) =~= Seq::<char>::empty());
        } else {
            assert(s@.subrange(start as int, i + 1) =~= cur.push(ch));
        }
        i += 1;
    }
    let ghost cur = s@.subrange(start as int, n as int);
    let ghost before = out@.map_values(|p: String| p@);
    out.push(owned(s.substring_char(start, n)));
    assert(out@.map_values(|p: String| p@) =~= before.push(cur));
    assert(before + seq![cur] =~= before.push(cur));
    out
}

/// A chunk takes more than one byte in UTF-8: more than one character, or
/// one outside ASCII.
pub open spec fn wider_than_byte(c: Seq<char>) -> bool {
    c.len() > 1 || (c.len() == 1 && (c[0] as u32) >= 0x80)
}

/// What the wrapper is waiting for.
pub enum WrapPhase {
    /// The width of the current line with the next word added.
    Fit,
    /// The width of the next word on a line of its own.
    WordAlone,
    /// The width of `chunk`, a prefix of `remaining`, the rest of a word
    /// too wide for a line.
    Chunk { remaining: String, chunk: String },
    /// Nothing: the lines are complete.
    Done,
}

pub enum PhaseModel {
    Fit,
    WordAlone,
    Chunk { remaining: Seq<char>, chunk: Seq<char> },
    Done,
}

pub struct WordWrap {
    words: Vec<String>,
    next: usize,
    lines: Vec<String>,
    current: String,
    phase: WrapPhase,
    max_width: i32,
}

pub struct WrapModel {
    pub words: Seq<Seq<char>>,
    /// Index of the word being placed.
    pub next: int,
    pub lines: Seq<Seq<char>>,
    pub current: Seq<char>,
    pub phase: PhaseModel,
    pub max_width: int,
}

pub open spec fn string_views(v: Seq<String>) -> Seq<Seq<char>> {
    v.map_values(|s: String| s@)
}

impl View for WordWrap {
    type V = WrapModel;

    closed spec fn view(&self) -> WrapModel {
        WrapModel {
            words: string_views(self.words@),
            next: self.next as int,
            lines: string_views(self.lines@),
            current: self.current@,
            phase: match self.phase {
                WrapPhase::Fit => PhaseModel::Fit,
                WrapPhase::WordAlone => PhaseModel::WordAlone,
                WrapPhase::Chunk { remaining, chunk } => PhaseModel::Chunk { remaining: remaining@, chunk: chunk@ },
                WrapPhase::Done => PhaseModel::Done,
            },
            max_width: self.max_width as int,
        }
    }
}

impl WrapModel {
    /// Words are being placed, one at a time.
    pub open spec fn wf(self) -> bool {
        &&& self.phase !is Done ==> 0 <= self.next < self.words.len()
        &&& self.phase matches PhaseModel::Chunk { remaining, chunk } ==> chunk.len() <= remaining.len()
            && remaining.len() > 0 && chunk == remaining.take(chunk.len() as int)
    }

    /// The current line with the next word added.
    pub open spec fn candidate(self) -> Seq<char> {
        let w = self.words[self.next];
        if self.current.len() == 0 { w } else { self.current + seq![' '] + w }
    }

    /// The text whose width is wanted next, if any.
    pub open spec fn asked(self) -> Option<Seq<char>> {
        match self.phase {
            PhaseModel::Fit => Some(self.candidate()),
            PhaseModel::WordAlone => Some(self.words[self.next]),
            PhaseModel::Chunk { remaining, chunk } => Some(chunk),
            PhaseModel::Done => None,
        }
    }

    /// The lines are complete: the current line closes them (when it is
    /// not empty), and a text without lines gives one empty line.
    pub open spec fn finish(self) -> WrapModel {
        let l = if self.current.len() > 0 { self.lines.push(self.current) } else { self.lines };
        WrapModel {
            lines: if l.len() == 0 { seq![Seq::empty()] } else { l },
            current: Seq::empty(),
            phase: PhaseModel::Done,
            ..self
        }
    }

    /// On to the next word, or done after the last.
    pub open spec fn advance(self) -> WrapModel {
        if self.next + 1 < self.words.len() {
            WrapModel { next: self.next + 1, phase: PhaseModel::Fit, ..self }
        } else {
            WrapModel { next: self.next + 1, ..self }.finish()
        }
    }

    /// The state after being told that the asked text is `w` pixels wide.
    pub open spec fn step(self, w: int) -> WrapModel {
        match self.phase {
            PhaseModel::Fit => if w <= self.max_width {
                WrapModel { current: self.candidate(), ..self }.advance()
            } else {
                WrapModel {
                    lines: if self.current.len() > 0 { self.lines.push(self.current) } else { self.lines },
                    phase: PhaseModel::WordAlone,
                    ..self
                }
            },
            PhaseModel::WordAlone => {
                let word = self.words[self.next];
                if w > self.max_width {
                    if word.len() > 0 {
                        WrapModel { phase: PhaseModel::Chunk { remaining: word, chunk: word }, ..self }
                    } else {
                        WrapModel { current: Seq::empty(), ..self }.advance()
                    }
                } else {
                    WrapModel { current: word, ..self }.advance()
                }
            },
            PhaseModel::Chunk { remaining, chunk } => if w > self.max_width && wider_than_byte(chunk) {
                WrapModel { phase: PhaseModel::Chunk { remaining, chunk: chunk.drop_last() }, ..self }
            } else {
                let rest = remaining.skip(chunk.len() as int);
                let m = WrapModel { lines: self.lines.push(chunk), ..self };
                if rest.len() == 0 {
                    WrapModel { current: Seq::empty(), ..m }.advance()
                } else {
                    WrapModel { phase: PhaseModel::Chunk { remaining: rest, chunk: rest }, ..m }
                }
            },
            PhaseModel::Done => self,
        }
    }
}

impl WordWrap {
    /// Start wrapping `text` (split at spaces) to `max_width` pixels. An
    /// empty text is one empty line.
    pub fn new(text: &str, max_width: i32) -> (r: Self)
        ensures
            r@.wf(),
            r@.max_width == max_width,
            r@.lines.len() == 0 || text@.len() == 0,
            text@.len() == 0 ==> r@.phase is Done && r@.lines == seq![Seq::<char>::empty()],
            text@.len() > 0 ==> {
                &&& r@.words == pieces(text@, ' ')
                &&& r@.next == 0
                &&& r@.current.len() == 0
                &&& r@.phase is Fit
            },
    {
        if text.unicode_len() == 0 {
            let mut lines: Vec<String> = Vec::new();
            lines.push(String::new());
            let r = WordWrap {
                words: Vec::new(),
                next: 0,
                lines,
                current: String::new(),
                phase: WrapPhase::Done,
                max_width,
            };
            assert(r@.lines =~= seq![Seq::<char>::empty()]);
            return r;
        }
        let words = split_on(text, ' ');
        proof {
            lemma_pieces_nonempty(text@, 0, Seq::empty(), ' ');
        }
        WordWrap { words, next: 0, lines: Vec::new(), current: String::new(), phase: WrapPhase::Fit, max_width }
    }
}

/// Splitting gives at least one piece.
proof fn lemma_pieces_nonempty(s: Seq<char>, i: int, cur: Seq<char>, c: char)
    ensures
        pieces_acc(s, i, cur, c).len() >= 1,
    decreases s.len() - i,
{
    if i < s.len() {
        if s[i] == c {
            lemma_pieces_nonempty(s, i + 1, Seq::empty(), c);
        } else {
            lemma_pieces_nonempty(s, i + 1, cur.push(s[i]), c);
        }
    }
}

impl WordWrap {
    /// The text whose width is wanted next; `None` once the lines are
    /// complete.
    pub fn request(&self) -> (r: Option<String>)
        requires
            self@.wf(),
        ensures
            match r {
                Some(t) => self@.asked() == Some(t@),
                None => self@.asked() is None,
            },
    {
        match &self.phase {
            WrapPhase::Fit => Some(self.candidate()),
            WrapPhase::WordAlone => Some(self.words[self.next].clone()),
            WrapPhase::Chunk { remaining, chunk } => Some(chunk.clone()),
            WrapPhase::Done => None,
        }
    }

    fn candidate(&self) -> (r: String)
        requires
            self@.phase !is Done,
            self@.wf(),
        ensures
            r@ == self@.candidate(),
    {
        let w = &self.words[self.next];
        assert(self@.words[self.next as int] == w@);
        if self.current.unicode_len() == 0 {
            w.clone()
        } else {
            let mut r = self.current.clone();
            string_push(&mut r, ' ');
            push_str(&mut r, w.as_str());
            r
        }
    }

    fn finish(&mut self)
        ensures
            final(self)@ == old(self)@.finish(),
    {
        if self.current.unicode_len() > 0 {
            let c = self.current.clone();
            self.lines.push(c);
            assert(self@.lines =~= old(self)@.lines.push(old(self)@.current));
        }
        if self.lines.len() == 0 {
            self.lines.push(String::new());
        }
        self.current = String::new();
        self.phase = WrapPhase::Done;
        proof {
            let o = old(self)@;
            let l = if o.current.len() > 0 { o.lines.push(o.current) } else { o.lines };
            assert(self@.lines =~= (if l.len() == 0 { seq![Seq::<char>::empty()] } else { l }));
        }
    }

    fn advance(&mut self)
        requires
            old(self)@.wf(),
            old(self)@.phase !is Done,
        ensures
            final(self)@ == old(self)@.advance(),
            final(self)@.wf(),
    {
        if self.next < self.words.len() - 1 {
            self.next += 1;
            self.phase = WrapPhase::Fit;
        } else {
            self.next += 1;
            self.finish();
        }
    }

    /// Take the width of the text asked for, and decide: the word fits on
    /// the line; or the line is closed and the word tried alone; a word too
    /// wide even alone is cut into chunks, each as long as fits (one
    /// character at least).
    pub fn feed(&mut self, width: i32)
        requires
            old(self)@.wf(),
        ensures
            final(self)@ == old(self)@.step(width as int),
            final(self)@.wf(),
    {
        let phase = self.phase_copy();
        match phase {
            WrapPhase::Fit => {
                self.phase = WrapPhase::Fit;
                if width <= self.max_width {
                    self.current = self.candidate();
                    self.advance();
                } else {
                    if self.current.unicode_len() > 0 {
                        let c = self.current.clone();
                        self.lines.push(c);
                        assert(self@.lines =~= old(self)@.lines.push(old(self)@.current));
                    }
                    self.phase = WrapPhase::WordAlone;
                }
            },
            WrapPhase::WordAlone => {
                self.phase = WrapPhase::WordAlone;
                let word = self.words[self.next].clone();
                assert(word@ == old(self)@.words[old(self)@.next]);
                if width > self.max_width {
                    if word.unicode_len() > 0 {
                        let chunk = word.clone();
                        self.phase = WrapPhase::Chunk { remaining: word, chunk };
                        assert(chunk@ =~= word@.take(chunk@.len() as int));
                    } else {
                        self.current = String::new();
                        self.advance();
                    }
                } else {
                    self.current = word;
                    self.advance();
                }
            },
            WrapPhase::Chunk { remaining, chunk } => {
                let n = chunk.unicode_len();
                let wide = n > 1 || (n == 1 && chunk.as_str().get_char(0) as u32 >= 0x80);
                if width > self.max_width && wide {
                    let smaller = owned(chunk.as_str().substring_char(0, n - 1));
                    assert(smaller@ =~= chunk@.drop_last());
                    assert(smaller@ =~= remaining@.take(smaller@.len() as int));
                    self.phase = WrapPhase::Chunk { remaining, chunk: smaller };
                } else {
                    let total = remaining.unicode_len();
                    let rest = owned(remaining.as_str().substring_char(n, total));
                    assert(rest@ =~= remaining@.skip(n as int));
                    let ghost before = self@.lines;
                    self.lines.push(chunk);
                    assert(self@.lines =~= before.push(chunk@));
                    if rest.unicode_len() == 0 {
                        self.phase = WrapPhase::Fit;
                        self.current = String::new();
                        self.advance();
                    } else {
                        let again = rest.clone();
                        assert(again@ =~= rest@.take(again@.len() as int));
                        self.phase = WrapPhase::Chunk { remaining: rest, chunk: again };
                    }
                }
            },
            WrapPhase::Done => {},
        }
    }

    fn phase_copy(&self) -> (p: WrapPhase)
        ensures
            match (p, self@.phase) {
                (WrapPhase::Fit, PhaseModel::Fit) => true,
                (WrapPhase::WordAlone, PhaseModel::WordAlone) => true,
                (WrapPhase::Chunk { remaining, chunk }, PhaseModel::Chunk { remaining: r, chunk: c }) => remaining@
                    == r && chunk@ == c,
                (WrapPhase::Done, PhaseModel::Done) => true,
                _ => false,
            },
    {
        match &self.phase {
            WrapPhase::Fit => WrapPhase::Fit,
            WrapPhase::WordAlone => WrapPhase::WordAlone,
            WrapPhase::Chunk { remaining, chunk } => WrapPhase::Chunk { remaining: remaining.clone(), chunk: chunk.clone() },
            WrapPhase::Done => WrapPhase::Done,
        }
    }

    /// The lines are complete.
    pub fn is_done(&self) -> (b: bool)
        ensures
            b == self@.phase is Done,
    {
        matches!(self.phase, WrapPhase::Done)
    }

    /// The lines so far (all of them once done).
    pub fn lines(&self) -> (l: &Vec<String>)
        ensures
            string_views(l@) == self@.lines,
    {
        &self.lines
    }
}

/// What a [`LineFit`] is waiting for.
#[derive(Debug, Clone, Copy, PartialEq, Eq, Structural)]
pub enum FitPhase {
    /// The width of the line with the next word added.
    Fit,
    /// The width of the last line with `..` added.
    Trim,
    Done,
}

/// Greedy wrap of the whitespace-separated words of a text into at most
/// `max_lines` lines of `max_w` pixels; when words are left over, the last
/// line is shortened until it fits with `..` after it.
pub struct LineFit {
    words: Vec<String>,
    next: usize,
    lines: Vec<String>,
    line: String,
    phase: FitPhase,
    max_w: u32,
    max_lines: usize,
}

pub struct LineFitModel {
    pub words: Seq<Seq<char>>,
    pub next: int,
    pub lines: Seq<Seq<char>>,
    pub line: Seq<char>,
    pub phase: FitPhase,
    pub max_w: int,
    pub max_lines: int,
}

impl View for LineFit {
    type V = LineFitModel;

    closed spec fn view(&self) -> LineFitModel {
        LineFitModel {
            words: string_views(self.words@),
            next: self.next as int,
            lines: string_views(self.lines@),
            line: self.line@,
            phase: self.phase,
            max_w: self.max_w as int,
            max_lines: self.max_lines as int,
        }
    }
}

impl LineFitModel {
    pub open spec fn wf(self) -> bool {
        &&& 0 <= self.next <= self.words.len()
        &&& self.phase == FitPhase::Fit ==> self.next < self.words.len()
        &&& self.phase == FitPhase::Trim ==> self.lines.len() > 0 && self.lines.last().len() > 0
    }

    pub open spec fn candidate(self) -> Seq<char> {
        let w = self.words[self.next];
        if self.line.len() == 0 { w } else { self.line + seq![' '] + w }
    }

    /// The text whose width is wanted next, if any.
    pub open spec fn asked(self) -> Option<Seq<char>> {
        match self.phase {
            FitPhase::Fit => Some(self.candidate()),
            FitPhase::Trim => Some(self.lines.last() + ".."@),
            FitPhase::Done => None,
        }
    }

    /// The last line with `..` after it; done.
    pub open spec fn mark_continued(self) -> LineFitModel {
        LineFitModel {
            lines: self.lines.update(self.lines.len() - 1, self.lines.last() + ".."@),
            phase: FitPhase::Done,
            ..self
        }
    }

    /// No more words to place (or no more lines): the open line is closed
    /// when there is room, or the last line is marked as continued when
    /// words are left.
    pub open spec fn finish(self) -> LineFitModel {
        if self.lines.len() < self.max_lines && self.line.len() > 0 {
            LineFitModel { lines: self.lines.push(self.line), phase: FitPhase::Done, ..self }
        } else if self.lines.len() == self.max_lines && self.next < self.words.len() && self.lines.len() > 0 {
            if self.lines.last().len() == 0 {
                self.mark_continued()
            } else {
                LineFitModel { phase: FitPhase::Trim, ..self }
            }
        } else {
            LineFitModel { phase: FitPhase::Done, ..self }
        }
    }

    /// The state after being told that the asked text is `w` pixels wide.
    pub open spec fn step(self, w: int) -> LineFitModel {
        match self.phase {
            FitPhase::Fit => if w <= self.max_w || self.line.len() == 0 {
                let m = LineFitModel { line: self.candidate(), next: self.next + 1, ..self };
                if m.next < m.words.len() { m } else { m.finish() }
            } else {
                let m = LineFitModel { lines: self.lines.push(self.line), line: Seq::empty(), ..self };
                if m.lines.len() == m.max_lines { m.finish() } else { m }
            },
            FitPhase::Trim => if w > self.max_w {
                let shorter = self.lines.last().drop_last();
                let m = LineFitModel { lines: self.lines.update(self.lines.len() - 1, shorter), ..self };
                if shorter.len() == 0 { m.mark_continued() } else { m }
            } else {
                self.mark_continued()
            },
            FitPhase::Done => self,
        }
    }
}

impl LineFit {
    /// Start fitting the words of `text`.
    pub fn new(text: &str, max_w: u32, max_lines: usize) -> (r: Self)
        ensures
            r@.wf(),
            r@.words == words(text@),
            r@.max_w == max_w,
            r@.max_lines == max_lines,
            ({
                let m0 = LineFitModel {
                    words: words(text@),
                    next: 0,
                    lines: Seq::empty(),
                    line: Seq::empty(),
                    phase: FitPhase::Fit,
                    max_w: max_w as int,
                    max_lines: max_lines as int,
                };
                r@ == if words(text@).len() == 0 { m0.finish() } else { m0 }
            }),
    {
        let ws = split_words(text);
        let mut words: Vec<String> = Vec::new();
        let mut i: usize = 0;
        while i < ws.len()
            invariant
                i <= ws@.len(),
                string_views(words@) == str_views(ws@).take(i as int),
            decreases ws@.len() - i,
        {
            let ghost before = string_views(words@);
            words.push(owned(ws[i]));
            assert(string_views(words@) =~= before.push(str_views(ws@)[i as int]));
            assert(str_views(ws@).take(i as int + 1) =~= str_views(ws@).take(i as int).push(str_views(ws@)[i as int]));
            i += 1;
        }
        assert(str_views(ws@).take(ws@.len() as int) =~= str_views(ws@));
        let r = LineFit {
            words,
            next: 0,
            lines: Vec::new(),
            line: String::new(),
            phase: FitPhase::Fit,
            max_w,
            max_lines,
        };
        assert(r@.lines =~= Seq::<Seq<char>>::empty());
        if r.words.len() == 0 {
            let mut r = r;
            r.finish();
            return r;
        }
        r
    }

    fn finish(&mut self)
        requires
            0 <= old(self)@.next <= old(self)@.words.len(),
        ensures
            final(self)@ == old(self)@.finish(),
            final(self)@.wf(),
    {
        let n = self.lines.len();
        if n < self.max_lines && self.line.unicode_len() > 0 {
            let l = self.line.clone();
            self.lines.push(l);
            assert(self@.lines =~= old(self)@.lines.push(old(self)@.line));
            self.phase = FitPhase::Done;
        } else if n == self.max_lines && self.next < self.words.len() && n > 0 {
            if self.lines[n - 1].unicode_len() == 0 {
                self.phase = FitPhase::Trim;
                self.mark_continued();
            } else {
                self.phase = FitPhase::Trim;
            }
        } else {
            self.phase = FitPhase::Done;
        }
    }

    fn mark_continued(&mut self)
        requires
            old(self)@.lines.len() > 0,
        ensures
            final(self)@ == old(self)@.mark_continued(),
    {
        let n = self.lines.len();
        let mut last = self.lines[n - 1].clone();
        push_str(&mut last, "..");
        self.lines.set(n - 1, last);
        self.phase = FitPhase::Done;
        assert(self@.lines =~= old(self)@.lines.update(n - 1, old(self)@.lines.last() + ".."@));
    }

    /// The text whose width is wanted next; `None` once done.
    pub fn request(&self) -> (r: Option<String>)
        requires
            self@.wf(),
        ensures
            match r {
                Some(t) => self@.asked() == Some(t@),
                None => self@.asked() is None,
            },
    {
        match self.phase {
            FitPhase::Fit => {
                let w = &self.words[self.next];
                assert(self@.words[self.next as int] == w@);
                if self.line.unicode_len() == 0 {
                    Some(w.clone())
                } else {
                    let mut r = self.line.clone();
                    string_push(&mut r, ' ');
                    push_str(&mut r, w.as_str());
                    Some(r)
                }
            },
            FitPhase::Trim => {
                let mut r = self.lines[self.lines.len() - 1].clone();
                push_str(&mut r, "..");
                Some(r)
            },
            FitPhase::Done => None,
        }
    }

    /// Take the width of the text asked for: a word joins the line when it
    /// fits (or the line is empty), else the line is closed; a last line
    /// that does not fit with `..` loses its last character.
    pub fn feed(&mut self, width: u32)
        requires
            old(self)@.wf(),
        ensures
            final(self)@ == old(self)@.step(width as int),
            final(self)@.wf(),
    {
        match self.phase {
            FitPhase::Fit => {
                assert(self@.phase == FitPhase::Fit);
                assert(self.next < self.words.len());
                if width <= self.max_w || self.line.unicode_len() == 0 {
                    let c = self.request();
                    match c {
                        Some(c) => {
                            self.line = c;
                        },
                        None => {},
                    }
                    assert(self.words@.len() == self@.words.len());
                    self.next += 1;
                    if self.next >= self.words.len() {
                        self.finish();
                    }
                } else {
                    let l = self.line.clone();
                    self.lines.push(l);
                    assert(self@.lines =~= old(self)@.lines.push(old(self)@.line));
                    self.line = String::new();
                    if self.lines.len() == self.max_lines {
                        self.finish();
                    }
                }
            },
            FitPhase::Trim => {
                let n = self.lines.len();
                if width > self.max_w {
                    let last = &self.lines[n - 1];
                    let k = last.unicode_len();
                    let shorter = if k > 0 { owned(last.as_str().substring_char(0, k - 1)) } else { String::new() };
                    assert(shorter@ =~= old(self)@.lines.last().drop_last());
                    let empty = shorter.unicode_len() == 0;
                    self.lines.set(n - 1, shorter);
                    assert(self@.lines =~= old(self)@.lines.update(n - 1, old(self)@.lines.last().drop_last()));
                    if empty {
                        self.mark_continued();
                    }
                } else {
                    self.mark_continued();
                }
            },
            FitPhase::Done => {},
        }
    }

    /// The lines are complete.
    pub fn is_done(&self) -> (b: bool)
        ensures
            b == (self@.phase == FitPhase::Done),
    {
        self.phase == FitPhase::Done
    }

    /// The lines so far (all of them once done).
    pub fn lines(&self) -> (l: &Vec<String>)
        ensures
            string_views(l@) == self@.lines,
    {
        &self.lines
    }
}

/// A line holds no space.
pub open spec fn no_space(l: Seq<char>) -> bool {
    forall|k: int| 0 <= k < l.len() ==> l[k] != ' '
}

/// A line fits `max_w` by the measure `width`, or is a single word.
pub open spec fn fits_or_word(l: Seq<char>, width: spec_fn(Seq<char>) -> int, max_w: int) -> bool {
    width(l) <= max_w || no_space(l)
}

/// `l` ends with `..`.
pub open spec fn continued(l: Seq<char>) -> bool {
    l.len() >= 2 && l[l.len() - 2] == '.' && l[l.len() - 1] == '.'
}

impl LineFitModel {
    /// What fitting keeps true when every width it is told is `width` of
    /// the text it asked about: no more than `max_lines` lines (at least
    /// one allowed); every line fits or is a single word (the last one may
    /// be in the middle of being shortened); and once done with words left
    /// over, the last line ends with `..`.
    pub open spec fn good(self, width: spec_fn(Seq<char>) -> int) -> bool {
        &&& self.wf()
        &&& self.max_lines >= 1
        &&& forall|k: int| 0 <= k < self.words.len() ==> no_space(#[trigger] self.words[k])
        &&& self.lines.len() <= self.max_lines
        &&& self.phase == FitPhase::Fit ==> self.lines.len() < self.max_lines
        &&& forall|k: int|
            0 <= k < self.lines.len() && !(self.phase == FitPhase::Trim && k == self.lines.len() - 1)
                ==> fits_or_word(#[trigger] self.lines[k], width, self.max_w)
        &&& fits_or_word(self.line, width, self.max_w)
        &&& self.phase == FitPhase::Trim ==> self.next < self.words.len()
        &&& (self.phase == FitPhase::Done && self.next < self.words.len()) ==> self.lines.len() > 0
            && continued(self.lines.last())
    }
}

proof fn lemma_join_no_space(a: Seq<char>, b: Seq<char>)
    requires
        no_space(a),
        no_space(b),
    ensures
        no_space(a + b),
{
    assert forall|k: int| 0 <= k < (a + b).len() implies (a + b)[k] != ' ' by {
        if k < a.len() {
            assert((a + b)[k] == a[k]);
        } else {
            assert((a + b)[k] == b[k - a.len()]);
        }
    }
}

proof fn lemma_mark_keeps(m: LineFitModel, width: spec_fn(Seq<char>) -> int)
    requires
        m.lines.len() > 0,
        0 <= m.next <= m.words.len(),
        m.max_lines >= 1,
        forall|k: int| 0 <= k < m.words.len() ==> no_space(#[trigger] m.words[k]),
        m.lines.len() <= m.max_lines,
        forall|k: int| 0 <= k < m.lines.len() - 1 ==> fits_or_word(#[trigger] m.lines[k], width, m.max_w),
        fits_or_word(m.line, width, m.max_w),
        width(m.lines.last() + ".."@) <= m.max_w || m.lines.last().len() == 0,
    ensures
        m.mark_continued().good(width),
{
    let n = m.mark_continued();
    let last = m.lines.last() + ".."@;
    reveal_strlit("..");
    if m.lines.last().len() == 0 {
        assert(last =~= ".."@);
        assert(no_space(last));
    }
    assert(n.lines.last() == last);
    assert(continued(last));
    assert forall|k: int| 0 <= k < n.lines.len() implies fits_or_word(#[trigger] n.lines[k], width, n.max_w) by {
        if k < n.lines.len() - 1 {
            assert(n.lines[k] == m.lines[k]);
        }
    }
}

proof fn lemma_finish_keeps(m: LineFitModel, width: spec_fn(Seq<char>) -> int)
    requires
        0 <= m.next <= m.words.len(),
        m.phase == FitPhase::Fit,
        m.max_lines >= 1,
        forall|k: int| 0 <= k < m.words.len() ==> no_space(#[trigger] m.words[k]),
        m.lines.len() <= m.max_lines,
        m.lines.len() == m.max_lines || m.next == m.words.len(),
        forall|k: int| 0 <= k < m.lines.len() ==> fits_or_word(#[trigger] m.lines[k], width, m.max_w),
        fits_or_word(m.line, width, m.max_w),
        m.lines.len() == m.max_lines ==> m.line.len() == 0,
    ensures
        m.finish().good(width),
{
    let n = m.finish();
    if m.lines.len() < m.max_lines && m.line.len() > 0 {
        assert forall|k: int| 0 <= k < n.lines.len() implies fits_or_word(#[trigger] n.lines[k], width, n.max_w) by {
            if k < m.lines.len() {
                assert(n.lines[k] == m.lines[k]);
            }
        }
    } else if m.lines.len() == m.max_lines && m.next < m.words.len() && m.lines.len() > 0 {
        if m.lines.last().len() == 0 {
            lemma_mark_keeps(LineFitModel { phase: FitPhase::Trim, ..m }, width);
            assert(LineFitModel { phase: FitPhase::Trim, ..m }.mark_continued() == m.mark_continued());
        }
    }
}

/// Fitting keeps [`LineFitModel::good`] from step to step when each width
/// it is told is `width` of the text it asked about.
pub proof fn lemma_line_fit_step(m: LineFitModel, width: spec_fn(Seq<char>) -> int)
    requires
        m.good(width),
        m.asked() is Some,
    ensures
        m.step(width(m.asked()->0)).good(width),
{
    let w = width(m.asked()->0);
    match m.phase {
        FitPhase::Fit => {
            let c = m.candidate();
            if w <= m.max_w || m.line.len() == 0 {
                if m.line.len() == 0 {
                    assert(c == m.words[m.next]);
                }
                let n = LineFitModel { line: c, next: m.next + 1, ..m };
                if n.next >= n.words.len() {
                    lemma_finish_keeps(n, width);
                }
            } else {
                let n = LineFitModel { lines: m.lines.push(m.line), line: Seq::empty(), ..m };
                assert forall|k: int| 0 <= k < n.lines.len() implies fits_or_word(#[trigger] n.lines[k], width, n.max_w) by {
                    if k < m.lines.len() {
                        assert(n.lines[k] == m.lines[k]);
                    }
                }
                assert(no_space(Seq::<char>::empty()));
                if n.lines.len() == n.max_lines {
                    lemma_finish_keeps(n, width);
                }
            }
        },
        FitPhase::Trim => {
            let last = m.lines.last();
            if w > m.max_w {
                let shorter = last.drop_last();
                let n = LineFitModel { lines: m.lines.update(m.lines.len() - 1, shorter), ..m };
                assert forall|k: int| 0 <= k < n.lines.len() - 1 implies fits_or_word(#[trigger] n.lines[k], width, n.max_w) by {
                    assert(n.lines[k] == m.lines[k]);
                }
                if shorter.len() == 0 {
                    lemma_mark_keeps(n, width);
                }
            } else {
                lemma_mark_keeps(m, width);
            }
        },
        FitPhase::Done => {},
    }
}

/// Fitting starts out [`LineFitModel::good`] for any measure, given room
/// for one line at least.
pub proof fn lemma_line_fit_start(text: Seq<char>, max_w: int, max_lines: int, width: spec_fn(Seq<char>) -> int)
    requires
        max_lines >= 1,
    ensures
        ({
            let m0 = LineFitModel {
                words: words(text),
                next: 0,
                lines: Seq::empty(),
                line: Seq::empty(),
                phase: FitPhase::Fit,
                max_w,
                max_lines,
            };
            (if words(text).len() == 0 { m0.finish() } else { m0 }).good(width)
        }),
{
    lemma_words_no_space(text, 0, Seq::empty());
    assert(no_space(Seq::<char>::empty()));
}

/// The words of a text hold no space.
proof fn lemma_words_no_space(s: Seq<char>, i: int, cur: Seq<char>)
    requires
        0 <= i,
        no_space(cur),
    ensures
        forall|k: int| 0 <= k < words_acc(s, i, cur).len() ==> no_space(#[trigger] words_acc(s, i, cur)[k]),
    decreases s.len() - i,
{
    if i >= s.len() {
        if cur.len() > 0 {
            assert(words_acc(s, i, cur) == seq![cur]);
        }
    } else if is_ws(s[i]) {
        lemma_words_no_space(s, i + 1, Seq::empty());
        let head: Seq<Seq<char>> = if cur.len() > 0 { seq![cur] } else { Seq::empty() };
        let rest = words_acc(s, i + 1, Seq::empty());
        assert(words_acc(s, i, cur) == head + rest);
        assert forall|k: int| 0 <= k < (head + rest).len() implies no_space(#[trigger] (head + rest)[k]) by {
            if k < head.len() {
                assert((head + rest)[k] == cur);
            } else {
                assert((head + rest)[k] == rest[k - head.len()]);
            }
        }
    } else {
        assert(s[i] != ' ');
        lemma_join_no_space(cur, seq![s[i]]);
        assert(cur.push(s[i]) =~= cur + seq![s[i]]);
        lemma_words_no_space(s, i + 1, cur.push(s[i]));
        assert(words_acc(s, i, cur) == words_acc(s, i + 1, cur.push(s[i])));
    }
}

/// Lines read in order with one space between them.
pub open spec fn joined(ls: Seq<Seq<char>>) -> Seq<char>
    decreases ls.len(),
{
    if ls.len() == 0 {
        Seq::empty()
    } else if ls.len() == 1 {
        ls[0]
    } else {
        joined(ls.drop_last()) + seq![' '] + ls.last()
    }
}

proof fn lemma_joined_push(ls: Seq<Seq<char>>, x: Seq<char>)
    ensures
        joined(ls.push(x)) == (if ls.len() == 0 { x } else { joined(ls) + seq![' '] + x }),
{
    assert(ls.push(x).drop_last() =~= ls);
    if ls.len() == 0 {
        assert(ls.push(x)[0] == x);
    }
}

proof fn lemma_joined_empty(ls: Seq<Seq<char>>)
    requires
        forall|k: int| 0 <= k < ls.len() ==> (#[trigger] ls[k]).len() > 0,
    ensures
        joined(ls).len() == 0 <==> ls.len() == 0,
    decreases ls.len(),
{
    if ls.len() > 1 {
        assert(ls.last() == ls[ls.len() - 1]);
    } else if ls.len() == 1 {
        assert(ls[0].len() > 0);
    }
}

impl LineFitModel {
    /// The line being filled and the closed lines.
    pub open spec fn open_lines(self) -> Seq<Seq<char>> {
        if self.line.len() > 0 { self.lines.push(self.line) } else { self.lines }
    }

    /// The words keep their order: while words are being placed, the lines
    /// read with a space between them are the words placed so far; once
    /// done with every word placed, they are all the words.
    pub open spec fn in_order(self) -> bool {
        &&& self.phase == FitPhase::Fit ==> {
            &&& joined(self.open_lines()) == joined(self.words.take(self.next))
            &&& forall|k: int| 0 <= k < self.lines.len() ==> (#[trigger] self.lines[k]).len() > 0
        }
        &&& (self.phase == FitPhase::Done && self.next >= self.words.len()) ==> joined(self.lines)
            == joined(self.words)
    }
}

/// Fitting keeps the words in order, whatever widths it is told.
pub proof fn lemma_line_fit_order(m: LineFitModel, w: int)
    requires
        m.wf(),
        m.max_lines >= 1,
        m.phase == FitPhase::Fit ==> m.lines.len() < m.max_lines,
        m.phase == FitPhase::Trim ==> m.next < m.words.len(),
        forall|k: int| 0 <= k < m.words.len() ==> (#[trigger] m.words[k]).len() > 0,
        m.in_order(),
    ensures
        m.step(w).in_order(),
{
    if m.phase == FitPhase::Fit {
        let wd = m.words[m.next];
        let take = m.words.take(m.next);
        let take1 = m.words.take(m.next + 1);
        assert(take1 =~= take.push(wd));
        lemma_joined_push(take, wd);
        assert forall|k: int| 0 <= k < take.len() implies (#[trigger] take[k]).len() > 0 by {
            assert(take[k] == m.words[k]);
        }
        lemma_joined_empty(take);
        assert forall|k: int| 0 <= k < m.open_lines().len() implies (#[trigger] m.open_lines()[k]).len() > 0 by {
            if k < m.lines.len() {
                assert(m.open_lines()[k] == m.lines[k]);
            }
        }
        lemma_joined_empty(m.open_lines());
        if w <= m.max_w || m.line.len() == 0 {
            let c = m.candidate();
            let n = LineFitModel { line: c, next: m.next + 1, ..m };
            assert(c.len() > 0);
            assert(n.open_lines() == m.lines.push(c));
            lemma_joined_push(m.lines, c);
            if m.line.len() > 0 {
                lemma_joined_push(m.lines, m.line);
                assert(c == m.line + seq![' '] + wd);
                if m.lines.len() > 0 {
                    assert(joined(m.lines) + seq![' '] + (m.line + seq![' '] + wd) =~= (joined(m.lines) + seq![' ']
                        + m.line) + seq![' '] + wd);
                }
            } else {
                assert(c == wd);
            }
            assert(joined(n.open_lines()) == joined(n.words.take(n.next)));
            if n.next >= n.words.len() {
                assert(n.words.take(n.next) =~= n.words);
                let f = n.finish();
                assert(f.lines == n.lines.push(c));
            }
        } else {
            let n = LineFitModel { lines: m.lines.push(m.line), line: Seq::empty(), ..m };
            assert(n.open_lines() == m.open_lines());
            assert forall|k: int| 0 <= k < n.lines.len() implies (#[trigger] n.lines[k]).len() > 0 by {
                if k < m.lines.len() {
                    assert(n.lines[k] == m.lines[k]);
                }
            }
        }
    }
}

/// The words of a text are not empty.
proof fn lemma_words_nonempty(s: Seq<char>, i: int, cur: Seq<char>)
    requires
        0 <= i,
    ensures
        forall|k: int| 0 <= k < words_acc(s, i, cur).len() ==> (#[trigger] words_acc(s, i, cur)[k]).len() > 0,
    decreases s.len() - i,
{
    if i >= s.len() {
        if cur.len() > 0 {
            assert(words_acc(s, i, cur) == seq![cur]);
        }
    } else if is_ws(s[i]) {
        lemma_words_nonempty(s, i + 1, Seq::empty());
        let head: Seq<Seq<char>> = if cur.len() > 0 { seq![cur] } else { Seq::empty() };
        let rest = words_acc(s, i + 1, Seq::empty());
        assert(words_acc(s, i, cur) == head + rest);
        assert forall|k: int| 0 <= k < (head + rest).len() implies (#[trigger] (head + rest)[k]).len() > 0 by {
            if k < head.len() {
                assert((head + rest)[k] == cur);
            } else {
                assert((head + rest)[k] == rest[k - head.len()]);
            }
        }
    } else {
        lemma_words_nonempty(s, i + 1, cur.push(s[i]));
        assert(words_acc(s, i, cur) == words_acc(s, i + 1, cur.push(s[i])));
    }
}

/// Fitting starts out with its words in order.
pub proof fn lemma_line_fit_order_start(text: Seq<char>, max_w: int, max_lines: int)
    requires
        max_lines >= 1,
    ensures
        forall|k: int| 0 <= k < words(text).len() ==> (#[trigger] words(text)[k]).len() > 0,
        ({
            let m0 = LineFitModel {
                words: words(text),
                next: 0,
                lines: Seq::empty(),
                line: Seq::empty(),
                phase: FitPhase::Fit,
                max_w,
                max_lines,
            };
            (if words(text).len() == 0 { m0.finish() } else { m0 }).in_order()
        }),
{
    lemma_words_nonempty(text, 0, Seq::empty());
    assert(words(text).take(0) =~= Seq::<Seq<char>>::empty());
    if words(text).len() == 0 {
        assert(words(text) =~= Seq::<Seq<char>>::empty());
    }
}

/// Greedy filling: whenever the text asked about (the line with the next
/// word, or the word alone on a fresh line) fits, no line is closed and the
/// following word is tried on that same line; after the last word the line
/// closes the text.
pub proof fn lemma_wrap_fitting_text_stays_on_line(m: WrapModel, w: int)
    requires
        m.wf(),
        m.phase is Fit || m.phase is WordAlone,
        w <= m.max_width,
    ensures
        ({
            let t = m.asked()->0;
            let n = m.step(w);
            if m.next + 1 < m.words.len() {
                &&& n.lines == m.lines
                &&& n.asked() == Some(
                    if t.len() == 0 { m.words[m.next + 1] } else { t + seq![' '] + m.words[m.next + 1] },
                )
            } else {
                &&& n.phase is Done
                &&& n.lines == (if t.len() > 0 {
                    m.lines.push(t)
                } else if m.lines.len() == 0 {
                    seq![Seq::<char>::empty()]
                } else {
                    m.lines
                })
            }
        }),
{
}

/// A line is closed only when the next word did not fit on it: when the
/// line with the next word is wider than allowed, the line (if any) is
/// closed as it was and that word is tried alone.
pub proof fn lemma_wrap_closes_line_when_word_overflows(m: WrapModel, w: int)
    requires
        m.wf(),
        m.phase is Fit,
        w > m.max_width,
    ensures
        m.step(w).lines == (if m.current.len() > 0 { m.lines.push(m.current) } else { m.lines }),
        m.step(w).asked() == Some(m.words[m.next]),
{
}

/// A word too wide for a line of its own is cut into chunks from its
/// start: a chunk that fits (or is one character) is closed as a line and
/// the rest of the word is tried next; one that does not fit loses its
/// last character.
pub proof fn lemma_wrap_chunks_long_words(m: WrapModel, w: int, remaining: Seq<char>, chunk: Seq<char>)
    requires
        m.wf(),
        m.phase == (PhaseModel::Chunk { remaining, chunk }),
    ensures
        ({
            let n = m.step(w);
            if w > m.max_width && wider_than_byte(chunk) {
                n.lines == m.lines && n.asked() == Some(chunk.drop_last())
            } else {
                &&& n.lines.take(m.lines.len() as int + 1) == m.lines.push(chunk)
                &&& remaining.len() > chunk.len() ==> n.lines == m.lines.push(chunk) && n.asked() == Some(
                    remaining.skip(chunk.len() as int),
                )
            }
        }),
{
    let n = m.step(w);
    if !(w > m.max_width && wider_than_byte(chunk)) {
        let rest = remaining.skip(chunk.len() as int);
        let m1 = WrapModel { lines: m.lines.push(chunk), ..m };
        if rest.len() == 0 {
            let m2 = WrapModel { current: Seq::empty(), ..m1 };
            if m2.next + 1 >= m2.words.len() {
                let m3 = WrapModel { next: m2.next + 1, ..m2 };
                assert(m3.finish().lines.take(m.lines.len() as int + 1) =~= m.lines.push(chunk));
            } else {
                assert(n.lines.take(m.lines.len() as int + 1) =~= m.lines.push(chunk));
            }
        } else {
            assert(n.lines.take(m.lines.len() as int + 1) =~= m.lines.push(chunk));
        }
    }
}

} // verus!
