//! Scrollable word-wrapped text view with D-pad scrolling.

use vstd::prelude::*;

use crate::fmt::owned;
use crate::input::{Button, InputAction, InputEvent};
use crate::text::{is_blank, is_blank_str};
use crate::wrap::{pieces, split_on};

verus! {

/// Scrollable text content with word wrap. D-pad Up/Down scrolls line by
/// line, L1/R1 page by ten lines.
pub struct DetailView {
    pub title: String,
    pub body: String,
    scroll: i32,
    needs_wrap: bool,
    last_width: i32,
}

/// Abstract state of a [`DetailView`].
pub struct DetailViewModel {
    pub title: Seq<char>,
    pub body: Seq<char>,
    /// First wrapped line shown.
    pub scroll: int,
    /// The content changed since the text was last wrapped.
    pub needs_wrap: bool,
    /// Width the text was last wrapped to.
    pub last_width: int,
}

/// Scroll offset after a press or repeat of `button`, or `None` when the
/// button does not scroll.
pub open spec fn scrolled(scroll: int, button: Button) -> Option<int> {
    match button {
        Button::DpadUp => Some(if scroll - 1 > 0 { scroll - 1 } else { 0 }),
        Button::DpadDown => Some(scroll + 1),
        Button::L1 => Some(if scroll - 10 > 0 { scroll - 10 } else { 0 }),
        Button::R1 => Some(scroll + 10),
        _ => None,
    }
}

impl View for DetailView {
    type V = DetailViewModel;

    closed spec fn view(&self) -> DetailViewModel {
        DetailViewModel {
            title: self.title@,
            body: self.body@,
            scroll: self.scroll as int,
            needs_wrap: self.needs_wrap,
            last_width: self.last_width as int,
        }
    }
}

impl DetailView {
    /// `title`, as the view holds it.
    pub fn title(&self) -> (r: &String)
        ensures
            r@ == self@.title,
    {
        &self.title
    }

    /// `body`, as the view holds it.
    pub fn body(&self) -> (r: &String)
        ensures
            r@ == self@.body,
    {
        &self.body
    }

    pub fn new(title: &str, body: &str) -> (v: Self)
        ensures
            v@ == (DetailViewModel {
                title: title@,
                body: body@,
                scroll: 0,
                needs_wrap: true,
                last_width: 0,
            }),
    {
        Self {
            title: title.to_owned(),
            body: body.to_owned(),
            scroll: 0,
            needs_wrap: true,
            last_width: 0,
        }
    }

    /// Replace content and reset scroll position.
    pub fn set_content(&mut self, title: &str, body: &str)
        ensures
            final(self)@ == (DetailViewModel {
                title: title@,
                body: body@,
                scroll: 0,
                needs_wrap: true,
                ..old(self)@
            }),
    {
        self.title = title.to_owned();
        self.body = body.to_owned();
        self.scroll = 0;
        self.needs_wrap = true;
    }

    /// Handle D-pad scroll input. Returns `true` if consumed.
    pub fn handle_input(&mut self, event: &InputEvent) -> (consumed: bool)
        requires
            event.action != InputAction::Release && event.button == Button::DpadUp
                ==> old(self)@.scroll > i32::MIN,
            event.action != InputAction::Release && event.button == Button::DpadDown
                ==> old(self)@.scroll < i32::MAX,
            event.action != InputAction::Release && event.button == Button::L1
                ==> old(self)@.scroll >= i32::MIN + 10,
            event.action != InputAction::Release && event.button == Button::R1
                ==> old(self)@.scroll <= i32::MAX - 10,
        ensures
            event.action == InputAction::Release ==> !consumed && final(self)@ == old(self)@,
            event.action != InputAction::Release ==> match scrolled(old(self)@.scroll, event.button) {
                Some(s) => consumed && final(self)@ == (DetailViewModel { scroll: s, ..old(self)@ }),
                None => !consumed && final(self)@ == old(self)@,
            },
    {
        if event.action == InputAction::Release {
            return false;
        }
        match event.button {
            Button::DpadUp => {
                self.scroll = if self.scroll - 1 > 0 { self.scroll - 1 } else { 0 };
                true
            }
            Button::DpadDown => {
                self.scroll += 1;
                true
            }
            Button::L1 => {
                self.scroll = if self.scroll - 10 > 0 { self.scroll - 10 } else { 0 };
                true
            }
            Button::R1 => {
                self.scroll += 10;
                true
            }
            _ => false,
        }
    }

    /// First step of drawing at `content_width` pixels: returns whether the
    /// text has to be wrapped again (new content or a new width) and records
    /// the width as wrapped.
    pub fn begin_layout(&mut self, content_width: i32) -> (rewrap: bool)
        ensures
            rewrap == (old(self)@.needs_wrap || content_width != old(self)@.last_width),
            rewrap ==> final(self)@ == (DetailViewModel {
                needs_wrap: false,
                last_width: content_width as int,
                ..old(self)@
            }),
            !rewrap ==> final(self)@ == old(self)@,
    {
        if self.needs_wrap || content_width != self.last_width {
            self.last_width = content_width;
            self.needs_wrap = false;
            true
        } else {
            false
        }
    }

    /// Second step of drawing: with `total_lines` wrapped lines of which
    /// `visible_lines` fit, clamps the scroll so the view never runs past the
    /// last line and returns the half-open range of lines to draw.
    pub fn clamp_scroll(&mut self, total_lines: i32, visible_lines: i32) -> (range: (i32, i32))
        requires
            0 <= total_lines,
            1 <= visible_lines,
        ensures
            ({
                let max_scroll = if total_lines - visible_lines > 0 {
                    total_lines - visible_lines
                } else {
                    0
                };
                let s = if old(self)@.scroll < max_scroll { old(self)@.scroll } else { max_scroll };
                &&& final(self)@ == (DetailViewModel { scroll: s, ..old(self)@ })
                &&& range.0 == s
                &&& range.1 == (if s + visible_lines < total_lines { s + visible_lines } else { total_lines as int })
            }),
    {
        let max_scroll = if total_lines - visible_lines > 0 { total_lines - visible_lines } else { 0 };
        if self.scroll > max_scroll {
            self.scroll = max_scroll;
        }
        let s = self.scroll as i64;
        let end = if s + (visible_lines as i64) < total_lines as i64 { s as i32 + visible_lines } else { total_lines };
        (self.scroll, end)
    }
}

/// Style of a wrapped line.
#[derive(Clone, Copy, Debug, PartialEq, Eq, Structural)]
pub enum LineStyle {
    /// The title, in the bold face.
    Title,
    Normal,
    /// Secondary text: a paragraph written between `~` marks.
    Dim,
}

/// A body paragraph as wrapped: a blank one is an empty line; one between
/// `~` marks (more than the two marks) is dim without them; any other is
/// normal text.
pub open spec fn paragraph_of(p: Seq<char>) -> (Seq<char>, LineStyle) {
    if is_blank(p) {
        (Seq::empty(), LineStyle::Normal)
    } else if p.len() > 2 && p[0] == '~' && p.last() == '~' {
        (p.subrange(1, p.len() - 1), LineStyle::Dim)
    } else {
        (p, LineStyle::Normal)
    }
}

pub open spec fn paragraph_views(v: Seq<(String, LineStyle)>) -> Seq<(Seq<char>, LineStyle)> {
    v.map_values(|p: (String, LineStyle)| (p.0@, p.1))
}

/// The paragraphs of a body (split at newlines) with their styles, to be
/// wrapped one by one.
pub fn body_paragraphs(body: &str) -> (r: Vec<(String, LineStyle)>)
    ensures
        paragraph_views(r@) == pieces(body@, '\n').map_values(|p: Seq<char>| paragraph_of(p)),
{
    let ps = split_on(body, '\n');
    let ghost all = ps@.map_values(|p: String| p@);
    let mut out: Vec<(String, LineStyle)> = Vec::new();
    let mut i: usize = 0;
    while i < ps.len()
        invariant
            i <= ps@.len(),
            all == ps@.map_values(|p: String| p@),
            paragraph_views(out@) == all.take(i as int).map_values(|p: Seq<char>| paragraph_of(p)),
        decreases ps@.len() - i,
    {
        let p = ps[i].as_str();
        assert(p@ == all[i as int]);
        let n = p.unicode_len();
        let item = if is_blank_str(p) {
            (String::new(), LineStyle::Normal)
        } else if n > 2 && p.get_char(0) == '~' && p.get_char(n - 1) == '~' {
            (owned(p.substring_char(1, n - 1)), LineStyle::Dim)
        } else {
            (owned(p), LineStyle::Normal)
        };
        assert((item.0@, item.1) == paragraph_of(all[i as int]));
        let ghost before = paragraph_views(out@);
        out.push(item);
        assert(paragraph_views(out@) =~= before.push(paragraph_of(all[i as int])));
        assert(all.take(i as int + 1) =~= all.take(i as int).push(all[i as int]));
        assert(all.take(i as int + 1).map_values(|p: Seq<char>| paragraph_of(p)) =~= all.take(i as int).map_values(
            |p: Seq<char>| paragraph_of(p),
        ).push(paragraph_of(all[i as int])));
        i += 1;
    }
    assert(all.take(ps@.len() as int) =~= all);
    out
}

} // verus!
