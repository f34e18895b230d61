//! Rendering of the terminal panels: the color palette, styled text, lines
//! that track their visible width, word wrapping, and the progress counter
//! of the header panel.
use vstd::prelude::*;

use owo_colors::OwoColorize;

use crate::text::{decimal, decimal_string, join, to_chars, views};

verus! {

/// The colors of a theme.
#[derive(Clone, Copy)]
pub struct Palette {
    pub border: (u8, u8, u8),
    pub text: (u8, u8, u8),
    pub muted: (u8, u8, u8),
    pub success: (u8, u8, u8),
    pub warning: (u8, u8, u8),
    pub danger: (u8, u8, u8),
    pub info: (u8, u8, u8),
    pub accent: (u8, u8, u8),
    pub gradient: [(u8, u8, u8); 20],
}

/// The palette for dark terminal backgrounds.
pub open spec fn is_dark(p: Palette) -> bool {
    &&& p.border == (38u8, 50u8, 68u8)
    &&& p.text == (229u8, 231u8, 235u8)
    &&& p.muted == (124u8, 132u8, 151u8)
    &&& p.success == (126u8, 231u8, 135u8)
    &&& p.warning == (242u8, 204u8, 96u8)
    &&& p.danger == (239u8, 83u8, 80u8)
    &&& p.info == (138u8, 180u8, 255u8)
    &&& p.accent == (192u8, 132u8, 252u8)
    &&& p.gradient@ == seq![
        (239u8, 83u8, 80u8),
        (239u8, 96u8, 82u8),
        (240u8, 110u8, 84u8),
        (240u8, 123u8, 85u8),
        (240u8, 137u8, 87u8),
        (241u8, 150u8, 89u8),
        (241u8, 164u8, 91u8),
        (241u8, 177u8, 92u8),
        (242u8, 191u8, 94u8),
        (242u8, 204u8, 96u8),
        (229u8, 207u8, 100u8),
        (216u8, 210u8, 105u8),
        (203u8, 213u8, 109u8),
        (190u8, 216u8, 113u8),
        (177u8, 219u8, 118u8),
        (164u8, 222u8, 122u8),
        (152u8, 225u8, 126u8),
        (139u8, 228u8, 130u8),
        (132u8, 230u8, 133u8),
        (126u8, 231u8, 135u8),
    ]
}

/// The palette for light terminal backgrounds.
pub open spec fn is_light(p: Palette) -> bool {
    &&& p.border == (148u8, 163u8, 184u8)
    &&& p.text == (15u8, 23u8, 42u8)
    &&& p.muted == (71u8, 85u8, 105u8)
    &&& p.success == (21u8, 128u8, 61u8)
    &&& p.warning == (180u8, 83u8, 9u8)
    &&& p.danger == (185u8, 28u8, 28u8)
    &&& p.info == (29u8, 78u8, 216u8)
    &&& p.accent == (126u8, 34u8, 206u8)
    &&& p.gradient@ == seq![
        (185u8, 28u8, 28u8),
        (188u8, 41u8, 24u8),
        (190u8, 55u8, 21u8),
        (193u8, 68u8, 17u8),
        (195u8, 82u8, 14u8),
        (198u8, 95u8, 10u8),
        (200u8, 109u8, 7u8),
        (203u8, 122u8, 3u8),
        (205u8, 136u8, 0u8),
        (180u8, 130u8, 5u8),
        (155u8, 132u8, 12u8),
        (130u8, 134u8, 19u8),
        (105u8, 137u8, 27u8),
        (80u8, 139u8, 34u8),
        (60u8, 138u8, 40u8),
        (45u8, 134u8, 47u8),
        (33u8, 130u8, 54u8),
        (24u8, 127u8, 58u8),
        (21u8, 128u8, 61u8),
        (20u8, 110u8, 53u8),
    ]
}

pub fn dark_palette() -> (p: Palette)
    ensures
        is_dark(p),
{
    let p = Palette {
        border: (38, 50, 68),
        text: (229, 231, 235),
        muted: (124, 132, 151),
        success: (126, 231, 135),
        warning: (242, 204, 96),
        danger: (239, 83, 80),
        info: (138, 180, 255),
        accent: (192, 132, 252),
        gradient: [
            (239, 83, 80),
            (239, 96, 82),
            (240, 110, 84),
            (240, 123, 85),
            (240, 137, 87),
            (241, 150, 89),
            (241, 164, 91),
            (241, 177, 92),
            (242, 191, 94),
            (242, 204, 96),
            (229, 207, 100),
            (216, 210, 105),
            (203, 213, 109),
            (190, 216, 113),
            (177, 219, 118),
            (164, 222, 122),
            (152, 225, 126),
            (139, 228, 130),
            (132, 230, 133),
            (126, 231, 135),
        ],
    };
    assert(p.gradient@ =~= seq![
        (239u8, 83u8, 80u8),
        (239u8, 96u8, 82u8),
        (240u8, 110u8, 84u8),
        (240u8, 123u8, 85u8),
        (240u8, 137u8, 87u8),
        (241u8, 150u8, 89u8),
        (241u8, 164u8, 91u8),
        (241u8, 177u8, 92u8),
        (242u8, 191u8, 94u8),
        (242u8, 204u8, 96u8),
        (229u8, 207u8, 100u8),
        (216u8, 210u8, 105u8),
        (203u8, 213u8, 109u8),
        (190u8, 216u8, 113u8),
        (177u8, 219u8, 118u8),
        (164u8, 222u8, 122u8),
        (152u8, 225u8, 126u8),
        (139u8, 228u8, 130u8),
        (132u8, 230u8, 133u8),
        (126u8, 231u8, 135u8),
    ]);
    p
}


pub fn light_palette() -> (p: Palette)
    ensures
        is_light(p),
{
    let p = Palette {
        border: (148, 163, 184),
        text: (15, 23, 42),
        muted: (71, 85, 105),
        success: (21, 128, 61),
        warning: (180, 83, 9),
        danger: (185, 28, 28),
        info: (29, 78, 216),
        accent: (126, 34, 206),
        gradient: [
            (185, 28, 28),
            (188, 41, 24),
            (190, 55, 21),
            (193, 68, 17),
            (195, 82, 14),
            (198, 95, 10),
            (200, 109, 7),
            (203, 122, 3),
            (205, 136, 0),
            (180, 130, 5),
            (155, 132, 12),
            (130, 134, 19),
            (105, 137, 27),
            (80, 139, 34),
            (60, 138, 40),
            (45, 134, 47),
            (33, 130, 54),
            (24, 127, 58),
            (21, 128, 61),
            (20, 110, 53),
        ],
    };
    assert(p.gradient@ =~= seq![
        (185u8, 28u8, 28u8),
        (188u8, 41u8, 24u8),
        (190u8, 55u8, 21u8),
        (193u8, 68u8, 17u8),
        (195u8, 82u8, 14u8),
        (198u8, 95u8, 10u8),
        (200u8, 109u8, 7u8),
        (203u8, 122u8, 3u8),
        (205u8, 136u8, 0u8),
        (180u8, 130u8, 5u8),
        (155u8, 132u8, 12u8),
        (130u8, 134u8, 19u8),
        (105u8, 137u8, 27u8),
        (80u8, 139u8, 34u8),
        (60u8, 138u8, 40u8),
        (45u8, 134u8, 47u8),
        (33u8, 130u8, 54u8),
        (24u8, 127u8, 58u8),
        (21u8, 128u8, 61u8),
        (20u8, 110u8, 53u8),
    ]);
    p
}

/// Which palette to use.
#[derive(Clone, Copy, Debug, PartialEq, Eq, Structural)]
pub enum ThemeChoice {
    Auto,
    Dark,
    Light,
}

impl Default for ThemeChoice {
    fn default() -> (t: Self)
        ensures
            t == ThemeChoice::Auto,
    {
        ThemeChoice::Auto
    }
}

/// Is `p` the palette that `choice` selects, given whether the terminal
/// background was detected as light (which only matters for `Auto`)?
pub open spec fn chosen(choice: ThemeChoice, light_background: bool, p: Palette) -> bool {
    match choice {
        ThemeChoice::Dark => is_dark(p),
        ThemeChoice::Light => is_light(p),
        ThemeChoice::Auto => if light_background {
            is_light(p)
        } else {
            is_dark(p)
        },
    }
}

/// The palette of the chosen theme. `light_background` is the result of
/// probing the terminal, consulted only for `ThemeChoice::Auto`.
pub fn init_theme(choice: ThemeChoice, light_background: bool) -> (p: Palette)
    ensures
        chosen(choice, light_background, p),
{
    match choice {
        ThemeChoice::Dark => dark_palette(),
        ThemeChoice::Light => light_palette(),
        ThemeChoice::Auto => if light_background {
            light_palette()
        } else {
            dark_palette()
        },
    }
}

/// `s` in the 24-bit foreground color `c`, as owo-colors renders it:
/// `ESC[38;2;R;G;Bm`, the text, `ESC[39m`.
pub open spec fn fg(c: (u8, u8, u8), s: Seq<char>) -> Seq<char> {
    "\x1b[38;2;"@ + decimal(c.0 as nat) + ";"@ + decimal(c.1 as nat) + ";"@ + decimal(
        c.2 as nat,
    ) + "m"@ + s + "\x1b[39m"@
}

/// `s` in bold: `ESC[1m`, the text, `ESC[0m`.
pub open spec fn bold(s: Seq<char>) -> Seq<char> {
    "\x1b[1m"@ + s + "\x1b[0m"@
}

/// `s` underlined: `ESC[4m`, the text, `ESC[0m`.
pub open spec fn underlined(s: Seq<char>) -> Seq<char> {
    "\x1b[4m"@ + s + "\x1b[0m"@
}

/// `OwoColorize::truecolor` on `s`, rendered with `to_string`. Its `Display`
/// writes `ESC[38;2;{r};{g};{b}m` (each component in decimal), the text,
/// and `ESC[39m`; that is the whole of what is claimed.
#[verifier::external_body]
fn paint(s: &str, c: (u8, u8, u8)) -> (out: String)
    ensures
        out@ == fg(c, s@),
{
    s.truecolor(c.0, c.1, c.2).to_string()
}

/// `OwoColorize::bold` on `s`, rendered with `to_string`: its `Display`
/// writes `ESC[1m`, the text, and `ESC[0m`.
#[verifier::external_body]
fn embolden(s: &str) -> (out: String)
    ensures
        out@ == bold(s@),
{
    s.bold().to_string()
}

/// `OwoColorize::underline` on `s`, rendered with `to_string`: its `Display`
/// writes `ESC[4m`, the text, and `ESC[0m`.
#[verifier::external_body]
fn underline_str(s: &str) -> (out: String)
    ensures
        out@ == underlined(s@),
{
    s.underline().to_string()
}

/// `s` painted in `c`, then made bold.
fn paint_bold(s: &str, c: (u8, u8, u8)) -> (out: String)
    ensures
        out@ == bold(fg(c, s@)),
{
    let painted = paint(s, c);
    embolden(painted.as_str())
}

pub fn border(p: &Palette, s: &str) -> (out: String)
    ensures
        out@ == fg(p.border, s@),
{
    paint(s, p.border)
}

pub fn text(p: &Palette, s: &str) -> (out: String)
    ensures
        out@ == fg(p.text, s@),
{
    paint(s, p.text)
}

pub fn text_bold(p: &Palette, s: &str) -> (out: String)
    ensures
        out@ == bold(fg(p.text, s@)),
{
    paint_bold(s, p.text)
}

pub fn muted(p: &Palette, s: &str) -> (out: String)
    ensures
        out@ == fg(p.muted, s@),
{
    paint(s, p.muted)
}

pub fn success(p: &Palette, s: &str) -> (out: String)
    ensures
        out@ == fg(p.success, s@),
{
    paint(s, p.success)
}

pub fn success_bold(p: &Palette, s: &str) -> (out: String)
    ensures
        out@ == bold(fg(p.success, s@)),
{
    paint_bold(s, p.success)
}

pub fn warning(p: &Palette, s: &str) -> (out: String)
    ensures
        out@ == fg(p.warning, s@),
{
    paint(s, p.warning)
}

pub fn warning_bold(p: &Palette, s: &str) -> (out: String)
    ensures
        out@ == bold(fg(p.warning, s@)),
{
    paint_bold(s, p.warning)
}

pub fn danger(p: &Palette, s: &str) -> (out: String)
    ensures
        out@ == fg(p.danger, s@),
{
    paint(s, p.danger)
}

pub fn danger_bold(p: &Palette, s: &str) -> (out: String)
    ensures
        out@ == bold(fg(p.danger, s@)),
{
    paint_bold(s, p.danger)
}

pub fn info(p: &Palette, s: &str) -> (out: String)
    ensures
        out@ == fg(p.info, s@),
{
    paint(s, p.info)
}

pub fn info_underline(p: &Palette, s: &str) -> (out: String)
    ensures
        out@ == underlined(fg(p.info, s@)),
{
    let painted = paint(s, p.info);
    underline_str(painted.as_str())
}

pub fn accent(p: &Palette, s: &str) -> (out: String)
    ensures
        out@ == fg(p.accent, s@),
{
    paint(s, p.accent)
}

pub fn accent_bold(p: &Palette, s: &str) -> (out: String)
    ensures
        out@ == bold(fg(p.accent, s@)),
{
    paint_bold(s, p.accent)
}

/// The gradient stop for position `idx` out of `total`: the positions are
/// spread evenly over the twenty stops, the last stop taking any overflow.
pub open spec fn gradient_stop(idx: int, total: int) -> int {
    let n = if total < 1 {
        1
    } else {
        total
    };
    let bucket = (idx * 20) / n;
    if bucket < 19 {
        bucket
    } else {
        19
    }
}

fn gradient_rgb(p: &Palette, idx: usize, total: usize) -> (c: (u8, u8, u8))
    requires
        idx * 20 <= usize::MAX,
    ensures
        c == p.gradient@[gradient_stop(idx as int, total as int)],
{
    let n: usize = if total < 1 {
        1
    } else {
        total
    };
    let bucket: usize = (idx * 20) / n;
    let stop: usize = if bucket < 19 {
        bucket
    } else {
        19
    };
    p.gradient[stop]
}

/// `s` in the gradient color for position `idx` out of `total`.
pub fn gradient(p: &Palette, s: &str, idx: usize, total: usize) -> (out: String)
    requires
        idx * 20 <= usize::MAX,
    ensures
        out@ == fg(p.gradient@[gradient_stop(idx as int, total as int)], s@),
{
    let c = gradient_rgb(p, idx, total);
    paint(s, c)
}


/// `n` copies of `s`, one after the other.
pub open spec fn repeat(s: Seq<char>, n: nat) -> Seq<char>
    decreases n,
{
    if n == 0 {
        Seq::empty()
    } else {
        repeat(s, (n - 1) as nat) + s
    }
}

proof fn lemma_repeat_single_len(s: Seq<char>, n: nat)
    requires
        s.len() == 1,
    ensures
        repeat(s, n).len() == n,
    decreases n,
{
    if n > 0 {
        lemma_repeat_single_len(s, (n - 1) as nat);
    }
}

/// `s.repeat(n)`.
pub fn repeat_str(s: &str, n: usize) -> (out: String)
    ensures
        out@ == repeat(s@, n as nat),
{
    let mut out = String::new();
    let mut i: usize = 0;
    while i < n
        invariant
            i <= n,
            out@ == repeat(s@, i as nat),
        decreases n - i,
    {
        out.append(s);
        i += 1;
    }
    out
}

/// A panel line: what it renders to, and how many columns it takes on screen
/// (escape sequences take none).
pub struct Line {
    pub visible: usize,
    pub rendered: String,
}

impl Default for Line {
    fn default() -> (l: Self)
        ensures
            l.visible == 0,
            l.rendered@ == Seq::<char>::empty(),
    {
        Line { visible: 0, rendered: String::new() }
    }
}

impl Line {
    pub fn new() -> (l: Self)
        ensures
            l.visible == 0,
            l.rendered@ == Seq::<char>::empty(),
    {
        Line { visible: 0, rendered: String::new() }
    }

    /// Appends `rendered`, counting the characters of `vis` as its width.
    pub fn raw(self, vis: &str, rendered: &str) -> (l: Self)
        requires
            self.visible + vis@.len() <= usize::MAX,
        ensures
            l.visible == self.visible + vis@.len(),
            l.rendered@ == self.rendered@ + rendered@,
    {
        let n = vis.unicode_len();
        let mut r = self.rendered;
        r.append(rendered);
        Line { visible: self.visible + n, rendered: r }
    }

    /// Appends `n` spaces.
    pub fn space(self, n: usize) -> (l: Self)
        requires
            self.visible + n <= usize::MAX,
        ensures
            l.visible == self.visible + n,
            l.rendered@ == self.rendered@ + repeat(" "@, n as nat),
    {
        let s = repeat_str(" ", n);
        proof {
            reveal_strlit(" ");
            lemma_repeat_single_len(" "@, n as nat);
        }
        let v = s.clone();
        self.raw(v.as_str(), s.as_str())
    }

    /// Appends unstyled text.
    pub fn plain(self, s: &str) -> (l: Self)
        requires
            self.visible + s@.len() <= usize::MAX,
        ensures
            l.visible == self.visible + s@.len(),
            l.rendered@ == self.rendered@ + s@,
    {
        self.raw(s, s)
    }

    /// Appends `s` as `f` renders it; its width is that of `s` itself.
    pub fn styled<F: FnOnce(&str) -> String>(self, s: &str, f: F) -> (l: Self)
        requires
            self.visible + s@.len() <= usize::MAX,
            call_requires(f, (s,)),
        ensures
            l.visible == self.visible + s@.len(),
            exists|r: String| call_ensures(f, (s,), r) && l.rendered@ == self.rendered@ + r@,
    {
        let r = f(s);
        self.raw(s, r.as_str())
    }
}

/// `char::is_whitespace`: the Unicode `White_Space` characters.
pub open spec fn is_white(c: char) -> bool {
    let n = c as u32;
    ||| 9 <= n <= 13
    ||| n == 32
    ||| n == 0x85
    ||| n == 0xa0
    ||| n == 0x1680
    ||| 0x2000 <= n <= 0x200a
    ||| n == 0x2028
    ||| n == 0x2029
    ||| n == 0x202f
    ||| n == 0x205f
    ||| n == 0x3000
}

pub fn is_whitespace(c: char) -> (b: bool)
    ensures
        b == is_white(c),
{
    let n = c as u32;
    (9 <= n && n <= 13) || n == 32 || n == 0x85 || n == 0xa0 || n == 0x1680 || (0x2000 <= n && n
        <= 0x200a) || n == 0x2028 || n == 0x2029 || n == 0x202f || n == 0x205f || n == 0x3000
}

/// Reading `s` from the left: the words completed so far and the word in
/// progress (empty between words).
pub open spec fn scan(s: Seq<char>) -> (Seq<Seq<char>>, Seq<char>)
    decreases s.len(),
{
    if s.len() == 0 {
        (Seq::empty(), Seq::empty())
    } else {
        let (ws, cur) = scan(s.drop_last());
        let c = s.last();
        if is_white(c) {
            if cur.len() == 0 {
                (ws, cur)
            } else {
                (ws.push(cur), Seq::empty())
            }
        } else {
            (ws, cur.push(c))
        }
    }
}

/// The maximal runs of non-whitespace characters of `s`, in order
/// (`str::split_whitespace`).
pub open spec fn words(s: Seq<char>) -> Seq<Seq<char>> {
    let (ws, cur) = scan(s);
    if cur.len() == 0 {
        ws
    } else {
        ws.push(cur)
    }
}

/// Greedy filling of `ws` into lines of at most `width` columns, words
/// separated by one space: the finished lines and the line being filled.
pub open spec fn fill(ws: Seq<Seq<char>>, width: nat) -> (Seq<Seq<char>>, Seq<char>)
    decreases ws.len(),
{
    if ws.len() == 0 {
        (Seq::empty(), Seq::empty())
    } else {
        let (lines, cur) = fill(ws.drop_last(), width);
        let w = ws.last();
        if cur.len() == 0 {
            (lines, w)
        } else if cur.len() + 1 + w.len() <= width {
            (lines, cur + seq![' '] + w)
        } else {
            (lines.push(cur), w)
        }
    }
}

/// The lines `wrap` breaks `text` into.
pub open spec fn wrapped(text: Seq<char>, width: nat) -> Seq<Seq<char>> {
    let (lines, cur) = fill(words(text), width);
    if cur.len() == 0 {
        lines
    } else {
        lines.push(cur)
    }
}

fn split_words(text: &str) -> (ws: Vec<String>)
    ensures
        views(ws@) == words(text@),
{
    let chars = to_chars(text);
    let n = chars.len();
    let mut ws: Vec<String> = Vec::new();
    let mut start: usize = 0;
    let mut in_word = false;
    let mut i: usize = 0;
    while i < n
        invariant
            chars@ == text@,
            n == text@.len(),
            start <= i <= n,
            views(ws@) == scan(text@.take(i as int)).0,
            in_word ==> start < i && scan(text@.take(i as int)).1 == text@.subrange(
                start as int,
                i as int,
            ),
            !in_word ==> scan(text@.take(i as int)).1 == Seq::<char>::empty(),
        decreases n - i,
    {
        let c = chars[i];
        let ghost prev = scan(text@.take(i as int));
        assert(text@.take(i + 1).drop_last() =~= text@.take(i as int));
        assert(text@.take(i + 1).last() == c);
        assert(scan(text@.take(i + 1)) == (if is_white(c) {
            if prev.1.len() == 0 {
                prev
            } else {
                (prev.0.push(prev.1), Seq::<char>::empty())
            }
        } else {
            (prev.0, prev.1.push(c))
        }));
        if is_whitespace(c) {
            if in_word {
                let w = text.substring_char(start, i).to_owned();
                let ghost before = ws@;
                ws.push(w);
                assert(views(ws@) =~= views(before).push(text@.subrange(start as int, i as int)));
                in_word = false;
            }
        } else {
            if !in_word {
                start = i;
                in_word = true;
            }
            assert(text@.subrange(start as int, i + 1) =~= text@.subrange(start as int, i as int).push(c));
        }
        i += 1;
    }
    assert(text@.take(n as int) =~= text@);
    if in_word {
        let w = text.substring_char(start, n).to_owned();
        let ghost before = ws@;
        ws.push(w);
        assert(views(ws@) =~= views(before).push(text@.subrange(start as int, n as int)));
    }
    ws
}

/// The finished lines of a fill, followed by the line being filled if it
/// holds anything.
pub open spec fn flush(state: (Seq<Seq<char>>, Seq<char>)) -> Seq<Seq<char>> {
    if state.1.len() == 0 {
        state.0
    } else {
        state.0.push(state.1)
    }
}

/// `text` broken into lines of at most `width` columns at whitespace, words
/// separated by single spaces; a word longer than `width` gets a line of its
/// own.
pub fn wrap(text: &str, width: usize) -> (lines: Vec<String>)
    ensures
        views(lines@) == wrapped(text@, width as nat),
{
    let ws = split_words(text);
    let mut lines: Vec<String> = Vec::new();
    let mut cur = String::new();
    let mut cur_len: usize = 0;
    let mut i: usize = 0;
    proof {
        reveal_strlit(" ");
    }
    while i < ws.len()
        invariant
            views(ws@) == words(text@),
            i <= ws@.len(),
            (views(lines@), cur@) == fill(views(ws@).take(i as int), width as nat),
            cur_len == cur@.len(),
            " "@ == seq![' '],
        decreases ws@.len() - i,
    {
        let w = &ws[i];
        let w_len = w.as_str().unicode_len();
        assert(views(ws@).take(i + 1).drop_last() =~= views(ws@).take(i as int));
        assert(views(ws@).take(i + 1).last() == w@);
        let ghost before = lines@;
        if cur_len == 0 {
            cur = w.clone();
            cur_len = w_len;
        } else if cur_len < width && w_len <= width - 1 - cur_len {
            cur.append(" ");
            cur.append(w.as_str());
            cur_len = cur_len + 1 + w_len;
        } else {
            let ghost full = cur@;
            lines.push(cur);
            assert(views(lines@) =~= views(before).push(full));
            cur = w.clone();
            cur_len = w_len;
        }
        i += 1;
    }
    assert(views(ws@).take(ws@.len() as int) =~= views(ws@));
    if cur_len != 0 {
        let ghost full = cur@;
        let ghost before = lines@;
        lines.push(cur);
        assert(views(lines@) =~= views(before).push(full));
    }
    lines
}

proof fn lemma_join_push(list: Seq<Seq<char>>, x: Seq<char>, sep: Seq<char>)
    ensures
        join(list.push(x), sep) == if list.len() == 0 {
            x
        } else {
            join(list, sep) + sep + x
        },
{
    assert(list.push(x).drop_last() =~= list);
}

proof fn lemma_scan_words(s: Seq<char>)
    ensures
        forall|k: int| 0 <= k < scan(s).0.len() ==> #[trigger] scan(s).0[k].len() > 0,
        forall|k: int, j: int|
            0 <= k < scan(s).0.len() && 0 <= j < scan(s).0[k].len() ==> !is_white(
                #[trigger] scan(s).0[k][j],
            ),
        forall|j: int| 0 <= j < scan(s).1.len() ==> !is_white(#[trigger] scan(s).1[j]),
    decreases s.len(),
{
    if s.len() > 0 {
        lemma_scan_words(s.drop_last());
        let (ws, cur) = scan(s.drop_last());
        let c = s.last();
        if is_white(c) {
            if cur.len() > 0 {
                let nws = ws.push(cur);
                assert forall|k: int| 0 <= k < nws.len() implies #[trigger] nws[k].len() > 0 by {
                    if k < ws.len() {
                        assert(nws[k] == ws[k]);
                    }
                }
                assert forall|k: int, j: int|
                    0 <= k < nws.len() && 0 <= j < nws[k].len() implies !is_white(
                    #[trigger] nws[k][j],
                ) by {
                    if k < ws.len() {
                        assert(nws[k] == ws[k]);
                    } else {
                        assert(nws[k] == cur);
                    }
                }
            }
        } else {
            let ncur = cur.push(c);
            assert forall|j: int| 0 <= j < ncur.len() implies !is_white(#[trigger] ncur[j]) by {
                if j < cur.len() {
                    assert(ncur[j] == cur[j]);
                }
            }
        }
    }
}

/// Every word of `s` is non-empty and holds no whitespace.
pub proof fn words_are_nonblank(s: Seq<char>)
    ensures
        forall|k: int| 0 <= k < words(s).len() ==> #[trigger] words(s)[k].len() > 0,
        forall|k: int, j: int|
            0 <= k < words(s).len() && 0 <= j < words(s)[k].len() ==> !is_white(
                #[trigger] words(s)[k][j],
            ),
{
    lemma_scan_words(s);
}

proof fn lemma_fill(ws: Seq<Seq<char>>, width: nat)
    requires
        forall|k: int| 0 <= k < ws.len() ==> #[trigger] ws[k].len() > 0,
    ensures
        ws.len() > 0 <==> fill(ws, width).1.len() > 0,
        ws.len() == 0 ==> fill(ws, width).0.len() == 0,
        join(flush(fill(ws, width)), seq![' ']) == join(ws, seq![' ']),
        forall|k: int|
            0 <= k < fill(ws, width).0.len() ==> #[trigger] fill(ws, width).0[k].len() <= width
                || ws.contains(fill(ws, width).0[k]),
        fill(ws, width).1.len() <= width || ws.contains(fill(ws, width).1),
    decreases ws.len(),
{
    if ws.len() > 0 {
        let p = ws.drop_last();
        let w = ws.last();
        assert forall|k: int| 0 <= k < p.len() implies #[trigger] p[k].len() > 0 by {
            assert(p[k] == ws[k]);
        }
        lemma_fill(p, width);
        let (lines, cur) = fill(p, width);
        assert forall|x: Seq<char>| p.contains(x) implies ws.contains(x) by {
            let k = choose|k: int| 0 <= k < p.len() && p[k] == x;
            assert(ws[k] == x);
        }
        assert(ws[ws.len() - 1] == w);
        assert(ws.contains(w));
        assert(p.push(w) =~= ws);
        lemma_join_push(p, w, seq![' ']);
        if cur.len() == 0 {
            assert(p.len() == 0);
            assert(flush(fill(ws, width)) =~= seq![w]);
            lemma_join_push(Seq::<Seq<char>>::empty(), w, seq![' ']);
            assert(Seq::<Seq<char>>::empty().push(w) =~= seq![w]);
        } else if cur.len() + 1 + w.len() <= width {
            lemma_join_push(lines, cur, seq![' ']);
            lemma_join_push(lines, cur + seq![' '] + w, seq![' ']);
            if lines.len() > 0 {
                assert(join(lines, seq![' ']) + seq![' '] + (cur + seq![' '] + w) =~= join(
                    lines,
                    seq![' '],
                ) + seq![' '] + cur + seq![' '] + w);
            } else {
                assert(cur + seq![' '] + w =~= cur + seq![' '] + w);
            }
        } else {
            lemma_join_push(lines, cur, seq![' ']);
            lemma_join_push(lines.push(cur), w, seq![' ']);
            let nl = lines.push(cur);
            assert forall|k: int| 0 <= k < nl.len() implies #[trigger] nl[k].len() <= width
                || ws.contains(nl[k]) by {
                if k < lines.len() {
                    assert(nl[k] == lines[k]);
                } else {
                    assert(nl[k] == cur);
                }
            }
        }
    }
}

/// Wrapping neither loses nor reorders words: joined with single spaces,
/// the lines give back the words of `text` joined with single spaces.
pub proof fn wrap_keeps_words(text: Seq<char>, width: nat)
    ensures
        join(wrapped(text, width), seq![' ']) == join(words(text), seq![' ']),
{
    words_are_nonblank(text);
    lemma_fill(words(text), width);
}

/// Every line of a wrap fits in `width` columns, unless it is a single word
/// of `text` that is wider than that on its own.
pub proof fn wrap_lines_fit(text: Seq<char>, width: nat)
    ensures
        forall|k: int|
            0 <= k < wrapped(text, width).len() ==> #[trigger] wrapped(text, width)[k].len()
                <= width || words(text).contains(wrapped(text, width)[k]),
{
    words_are_nonblank(text);
    let ws = words(text);
    lemma_fill(ws, width);
    let (lines, cur) = fill(ws, width);
    assert forall|k: int| 0 <= k < wrapped(text, width).len() implies #[trigger] wrapped(
        text,
        width,
    )[k].len() <= width || words(text).contains(wrapped(text, width)[k]) by {
        if k < lines.len() {
            assert(wrapped(text, width)[k] == lines[k]);
        } else {
            assert(wrapped(text, width)[k] == cur);
        }
    }
}

/// The panel width for a terminal of `cols` columns (80 when unknown),
/// kept between 60 and 120.
pub open spec fn clamped_width(cols: Option<usize>) -> int {
    let c = match cols {
        Some(c) => c as int,
        None => 80,
    };
    if c < 60 {
        60
    } else if c > 120 {
        120
    } else {
        c
    }
}

pub fn width_from_columns(cols: Option<usize>) -> (w: usize)
    ensures
        w == clamped_width(cols),
{
    let c: usize = match cols {
        Some(c) => c,
        None => 80,
    };
    if c < 60 {
        60
    } else if c > 120 {
        120
    } else {
        c
    }
}

/// `a - b`, or zero when `b` is larger.
pub open spec fn minus_or_zero(a: int, b: int) -> nat {
    if a > b {
        (a - b) as nat
    } else {
        0
    }
}

/// The view of an optional string slice.
pub open spec fn opt_view(o: Option<&str>) -> Option<Seq<char>> {
    match o {
        Some(s) => Some(s@),
        None => None,
    }
}

/// The view of an optional owned string.
pub open spec fn opt_string_view(o: Option<String>) -> Option<Seq<char>> {
    match o {
        Some(s) => Some(s@),
        None => None,
    }
}

/// "check" for one, "checks" otherwise.
pub open spec fn check_word(n: int) -> Seq<char> {
    if n == 1 {
        "check"@
    } else {
        "checks"@
    }
}

/// `done/total checks`, with `done` capped at `total`.
pub open spec fn ratio_text(done: nat, total: nat) -> Seq<char> {
    let shown = if done < total {
        done
    } else {
        total
    };
    decimal(shown) + "/"@ + decimal(total) + " "@ + check_word(total as int)
}

/// The counter at the right of the header while checks run: the ratio once
/// a total is known, else the bare count.
pub open spec fn progress_text(done: nat, total: nat) -> Seq<char> {
    if total > 0 {
        ratio_text(done, total)
    } else {
        decimal(done) + " "@ + check_word(done as int)
    }
}

fn ratio_label(done: usize, total: usize) -> (out: String)
    ensures
        out@ == ratio_text(done as nat, total as nat),
{
    let shown = if done < total {
        done
    } else {
        total
    };
    let mut out = decimal_string(shown);
    out.append("/");
    let t = decimal_string(total);
    out.append(t.as_str());
    out.append(" ");
    if total == 1 {
        out.append("check");
    } else {
        out.append("checks");
    }
    out
}

fn progress_label(done: usize, total: usize) -> (out: String)
    ensures
        out@ == progress_text(done as nat, total as nat),
{
    if total > 0 {
        ratio_label(done, total)
    } else {
        let mut out = decimal_string(done);
        out.append(" ");
        if done == 1 {
            out.append("check");
        } else {
            out.append("checks");
        }
        out
    }
}

/// Columns taken by the fixed parts of the header row and its texts.
pub open spec fn row_used(
    badge: Seq<char>,
    brand: Seq<char>,
    note: Option<Seq<char>>,
    left: Seq<char>,
    right: Seq<char>,
) -> int {
    let note_visible: int = match note {
        Some(n) => 1 + n.len() as int,
        None => 0,
    };
    2int + badge.len() + 1 + brand.len() + note_visible + 3 + left.len() + right.len() + 2
}

/// The brand in bold text color, followed by its note in the warning color.
pub open spec fn brand_view(p: Palette, brand: Seq<char>, note: Option<Seq<char>>) -> Seq<char> {
    match note {
        Some(n) => bold(fg(p.text, brand)) + " "@ + fg(p.warning, n),
        None => bold(fg(p.text, brand)),
    }
}

/// The inside of the header row: badge, brand, a dot, the left text, and the
/// right text pushed to the right edge of a `width`-column panel.
pub open spec fn header_row_view(
    p: Palette,
    width: nat,
    badge: Seq<char>,
    brand: Seq<char>,
    note: Option<Seq<char>>,
    left: Seq<char>,
    right: Seq<char>,
) -> Seq<char> {
    "  "@ + bold(fg(p.accent, badge)) + " "@ + brand_view(p, brand, note) + " "@ + fg(
        p.muted,
        "·"@,
    ) + " "@ + bold(fg(p.text, left)) + repeat(
        " "@,
        minus_or_zero(width - 2, row_used(badge, brand, note, left, right)),
    ) + fg(p.muted, right) + "  "@
}

pub fn header_row(
    p: &Palette,
    width: usize,
    badge: &str,
    brand: &str,
    brand_note: Option<&str>,
    left: &str,
    right: &str,
) -> (out: String)
    requires
        width >= 2,
        row_used(badge@, brand@, opt_view(brand_note), left@, right@) <= usize::MAX,
    ensures
        out@ == header_row_view(
            *p,
            width as nat,
            badge@,
            brand@,
            opt_view(brand_note),
            left@,
            right@,
        ),
{
    let inner = width - 2;
    let note_visible: usize = match brand_note {
        Some(n) => 1 + n.unicode_len(),
        None => 0,
    };
    let used = 2 + badge.unicode_len() + 1 + brand.unicode_len() + note_visible + 3
        + left.unicode_len() + right.unicode_len() + 2;
    let pad: usize = if inner > used {
        inner - used
    } else {
        0
    };
    let mut out = String::new();
    out.append("  ");
    let b = accent_bold(p, badge);
    out.append(b.as_str());
    out.append(" ");
    let tb = text_bold(p, brand);
    out.append(tb.as_str());
    match brand_note {
        Some(n) => {
            out.append(" ");
            let w = warning(p, n);
            out.append(w.as_str());
        },
        None => {},
    }
    out.append(" ");
    let dot = muted(p, "·");
    out.append(dot.as_str());
    out.append(" ");
    let l = text_bold(p, left);
    out.append(l.as_str());
    let spaces = repeat_str(" ", pad);
    out.append(spaces.as_str());
    let r = muted(p, right);
    out.append(r.as_str());
    out.append("  ");
    assert(out@ =~= header_row_view(
        *p,
        width as nat,
        badge@,
        brand@,
        opt_view(brand_note),
        left@,
        right@,
    ));
    out
}

/// What the header panel keeps in order to redraw its counter.
pub struct ProgressState {
    pub badge: String,
    pub brand: String,
    pub brand_note: Option<String>,
    pub left: String,
    pub tty: bool,
    pub done: usize,
    pub total: usize,
}

impl ProgressState {
    /// The state of a freshly drawn header: nothing done, no total yet.
    pub fn new(badge: &str, brand: &str, brand_note: Option<&str>, left: &str, tty: bool) -> (s:
        Self)
        ensures
            s.badge@ == badge@,
            s.brand@ == brand@,
            opt_string_view(s.brand_note) == opt_view(brand_note),
            s.left@ == left@,
            s.tty == tty,
            s.done == 0,
            s.total == 0,
    {
        let note = match brand_note {
            Some(n) => Some(n.to_owned()),
            None => None,
        };
        ProgressState {
            badge: badge.to_owned(),
            brand: brand.to_owned(),
            brand_note: note,
            left: left.to_owned(),
            tty,
            done: 0,
            total: 0,
        }
    }
}

/// The columns the header row of `s` takes with `right` at its end.
pub open spec fn state_used(s: ProgressState, right: Seq<char>) -> int {
    row_used(s.badge@, s.brand@, opt_string_view(s.brand_note), s.left@, right)
}

/// The escape sequence that moves up to the header row, redraws it with
/// `right` at its end, and moves back down.
pub open spec fn rewrite_view(p: Palette, width: nat, s: ProgressState, right: Seq<char>) -> Seq<
    char,
> {
    "\x1b[3A\r\x1b[2K"@ + fg(p.border, "│"@) + header_row_view(
        p,
        width,
        s.badge@,
        s.brand@,
        opt_string_view(s.brand_note),
        s.left@,
        right,
    ) + fg(p.border, "│"@) + "\x1b[3B\r"@
}

fn rewrite_header_right(p: &Palette, width: usize, s: &ProgressState, right: &str) -> (out: String)
    requires
        width >= 2,
        state_used(*s, right@) <= usize::MAX,
    ensures
        out@ == rewrite_view(*p, width as nat, *s, right@),
{
    let note: Option<&str> = match &s.brand_note {
        Some(n) => Some(n.as_str()),
        None => None,
    };
    assert(opt_view(note) == opt_string_view(s.brand_note));
    let row = header_row(p, width, s.badge.as_str(), s.brand.as_str(), note, s.left.as_str(), right);
    let mut out = String::new();
    out.append("\x1b[3A\r\x1b[2K");
    let edge = border(p, "│");
    out.append(edge.as_str());
    out.append(row.as_str());
    out.append(edge.as_str());
    out.append("\x1b[3B\r");
    assert(out@ =~= rewrite_view(*p, width as nat, *s, right@));
    out
}

/// `s` with its count of finished checks set to `done` and its total to `total`.
pub open spec fn with_counts(s: ProgressState, done: usize, total: usize) -> ProgressState {
    ProgressState {
        badge: s.badge,
        brand: s.brand,
        brand_note: s.brand_note,
        left: s.left,
        tty: s.tty,
        done,
        total,
    }
}

/// `a + b` as the counters hold it: wrapping around past `usize::MAX`.
pub open spec fn wrapping_sum(a: usize, b: usize) -> usize {
    if a + b <= usize::MAX {
        (a + b) as usize
    } else {
        (a + b - usize::MAX - 1) as usize
    }
}

fn add_wrapping(a: usize, b: usize) -> (r: usize)
    ensures
        r == wrapping_sum(a, b),
{
    if b <= usize::MAX - a {
        a + b
    } else {
        b - (usize::MAX - a) - 1
    }
}

/// Counts one finished check (the count wraps around past `usize::MAX`, as
/// an atomic counter does). On a terminal, returns the escape sequence
/// that redraws the header with the new count; `msg` is not shown.
pub fn progress(state: &mut Option<ProgressState>, msg: &str, p: &Palette, width: usize) -> (out:
    Option<String>)
    requires
        width >= 2,
        *old(state) matches Some(s) ==> (s.tty ==> state_used(
            s,
            progress_text(wrapping_sum(s.done, 1) as nat, s.total as nat),
        ) <= usize::MAX),
    ensures
        match *old(state) {
            None => *final(state) == None::<ProgressState> && out == None::<String>,
            Some(s) => {
                &&& *final(state) == Some(with_counts(s, wrapping_sum(s.done, 1), s.total))
                &&& (out is Some <==> s.tty)
                &&& out matches Some(o) ==> o@ == rewrite_view(
                    *p,
                    width as nat,
                    with_counts(s, wrapping_sum(s.done, 1), s.total),
                    progress_text(wrapping_sum(s.done, 1) as nat, s.total as nat),
                )
            },
        },
{
    match state.take() {
        None => None,
        Some(s) => {
            let ns = ProgressState {
                badge: s.badge,
                brand: s.brand,
                brand_note: s.brand_note,
                left: s.left,
                tty: s.tty,
                done: add_wrapping(s.done, 1),
                total: s.total,
            };
            let out = if ns.tty {
                let right = progress_label(ns.done, ns.total);
                Some(rewrite_header_right(p, width, &ns, right.as_str()))
            } else {
                None
            };
            *state = Some(ns);
            out
        },
    }
}

/// Raises the expected number of checks by `extra` (wrapping around past
/// `usize::MAX`). On a terminal, returns
/// the escape sequence that redraws the header's `done/total` counter.
pub fn bump_progress_total(state: &mut Option<ProgressState>, extra: usize, p: &Palette, width: usize) -> (out:
    Option<String>)
    requires
        width >= 2,
        *old(state) matches Some(s) ==> (s.tty ==> state_used(
            s,
            ratio_text(s.done as nat, wrapping_sum(s.total, extra) as nat),
        ) <= usize::MAX),
    ensures
        match *old(state) {
            None => *final(state) == None::<ProgressState> && out == None::<String>,
            Some(s) => {
                &&& *final(state) == Some(with_counts(s, s.done, wrapping_sum(s.total, extra)))
                &&& (out is Some <==> s.tty)
                &&& out matches Some(o) ==> o@ == rewrite_view(
                    *p,
                    width as nat,
                    with_counts(s, s.done, wrapping_sum(s.total, extra)),
                    ratio_text(s.done as nat, wrapping_sum(s.total, extra) as nat),
                )
            },
        },
{
    match state.take() {
        None => None,
        Some(s) => {
            let ns = ProgressState {
                badge: s.badge,
                brand: s.brand,
                brand_note: s.brand_note,
                left: s.left,
                tty: s.tty,
                done: s.done,
                total: add_wrapping(s.total, extra),
            };
            let out = if ns.tty {
                let right = ratio_label(ns.done, ns.total);
                Some(rewrite_header_right(p, width, &ns, right.as_str()))
            } else {
                None
            };
            *state = Some(ns);
            out
        },
    }
}

/// Ends the progress display: on a terminal, returns the escape sequence that
/// redraws the header with `final_right`; the state is cleared either way.
pub fn finish_progress(state: &mut Option<ProgressState>, final_right: &str, p: &Palette, width: usize) -> (out:
    Option<String>)
    requires
        width >= 2,
        *old(state) matches Some(s) ==> (s.tty ==> state_used(s, final_right@) <= usize::MAX),
    ensures
        *final(state) == None::<ProgressState>,
        match *old(state) {
            None => out == None::<String>,
            Some(s) => {
                &&& (out is Some <==> s.tty)
                &&& out matches Some(o) ==> o@ == rewrite_view(*p, width as nat, s, final_right@)
            },
        },
{
    match state.take() {
        None => None,
        Some(s) => {
            if s.tty {
                Some(rewrite_header_right(p, width, &s, final_right))
            } else {
                None
            }
        },
    }
}

/// The bottom edge of a `width`-column panel.
pub fn bottom(p: &Palette, width: usize) -> (out: String)
    requires
        width >= 2,
    ensures
        out@ == fg(p.border, "╰"@ + repeat("─"@, (width - 2) as nat) + "╯"@),
{
    let mut s = String::new();
    s.append("╰");
    let dashes = repeat_str("─", width - 2);
    s.append(dashes.as_str());
    s.append("╯");
    border(p, s.as_str())
}

/// An empty row of a `width`-column panel.
pub fn blank(p: &Palette, width: usize) -> (out: String)
    requires
        width >= 2,
    ensures
        out@ == fg(p.border, "│"@) + repeat(" "@, (width - 2) as nat) + fg(p.border, "│"@),
{
    let edge = border(p, "│");
    let mut out = edge.clone();
    let spaces = repeat_str(" ", width - 2);
    out.append(spaces.as_str());
    out.append(edge.as_str());
    out
}

/// A row of a `width`-column panel holding `line`, padded to the right edge.
pub fn row(p: &Palette, width: usize, line: Line) -> (out: String)
    requires
        width >= 2,
    ensures
        out@ == fg(p.border, "│"@) + line.rendered@ + repeat(
            " "@,
            minus_or_zero(width - 2, line.visible as int),
        ) + fg(p.border, "│"@),
{
    let inner = width - 2;
    let pad: usize = if inner > line.visible {
        inner - line.visible
    } else {
        0
    };
    let edge = border(p, "│");
    let mut out = edge.clone();
    out.append(line.rendered.as_str());
    let spaces = repeat_str(" ", pad);
    out.append(spaces.as_str());
    out.append(edge.as_str());
    out
}

/// A line printed as it is, outside any panel frame.
pub fn raw_line(line: Line) -> (out: String)
    ensures
        out@ == line.rendered@,
{
    line.rendered
}

/// A horizontal rule inside a `width`-column panel.
pub fn divider(p: &Palette, width: usize) -> (out: String)
    requires
        width >= 4,
    ensures
        out@ == fg(p.border, "│"@) + fg(p.border, " "@ + repeat("─"@, (width - 4) as nat) + " "@)
            + fg(p.border, "│"@),
{
    let edge = border(p, "│");
    let mut rule = String::new();
    rule.append(" ");
    let dashes = repeat_str("─", width - 4);
    rule.append(dashes.as_str());
    rule.append(" ");
    let painted = border(p, rule.as_str());
    let mut out = edge.clone();
    out.append(painted.as_str());
    out.append(edge.as_str());
    out
}

/// The top edge of a panel with a badge and a title: `╭─ `, the badge, the
/// title, then dashes up to the corner of a `width`-column panel.
pub fn top_titled(p: &Palette, width: usize, title: &str, badge: &str) -> (out: String)
    requires
        badge@.len() + title@.len() + 6 <= usize::MAX,
    ensures
        out@ == fg(p.border, "╭─ "@) + bold(fg(p.accent, badge@)) + " "@ + bold(
            fg(p.text, title@),
        ) + " "@ + fg(
            p.border,
            repeat("─"@, minus_or_zero(width as int, badge@.len() + title@.len() + 6int)) + "─╮"@,
        ),
{
    let used = 3 + badge.unicode_len() + 1 + title.unicode_len() + 1;
    let dashes: usize = if width > used + 1 {
        width - (used + 1)
    } else {
        0
    };
    let mut out = border(p, "╭─ ");
    let b = accent_bold(p, badge);
    out.append(b.as_str());
    out.append(" ");
    let t = text_bold(p, title);
    out.append(t.as_str());
    out.append(" ");
    let mut rule = repeat_str("─", dashes);
    rule.append("─╮");
    let r = border(p, rule.as_str());
    out.append(r.as_str());
    out
}

/// The top edge of a panel whose title is `label` as `style` renders it.
pub fn top_section_styled<F: FnOnce(&str) -> String>(
    p: &Palette,
    width: usize,
    label: &str,
    style: F,
) -> (out: String)
    requires
        label@.len() + 5 <= usize::MAX,
        call_requires(style, (label,)),
    ensures
        exists|r: String|
            call_ensures(style, (label,), r) && out@ == fg(p.border, "╭─ "@) + r@ + fg(
                p.border,
                " "@ + repeat("─"@, minus_or_zero(width as int, label@.len() + 5int)) + "╮"@,
            ),
{
    let used = 3 + label.unicode_len() + 1;
    let dashes: usize = if width > used + 1 {
        width - (used + 1)
    } else {
        0
    };
    let mut out = border(p, "╭─ ");
    let styled = style(label);
    out.append(styled.as_str());
    let mut rule = String::new();
    rule.append(" ");
    let d = repeat_str("─", dashes);
    rule.append(d.as_str());
    rule.append("╮");
    let r = border(p, rule.as_str());
    out.append(r.as_str());
    out
}

/// The top edge of a panel titled `label` in bold text color.
pub fn top_section(p: &Palette, width: usize, label: &str) -> (out: String)
    requires
        label@.len() + 5 <= usize::MAX,
    ensures
        out@ == fg(p.border, "╭─ "@) + bold(fg(p.text, label@)) + fg(
            p.border,
            " "@ + repeat("─"@, minus_or_zero(width as int, label@.len() + 5int)) + "╮"@,
        ),
{
    let pal = *p;
    let style = |s: &str| -> (r: String)
        ensures
            r@ == bold(fg(pal.text, s@)),
        { text_bold(&pal, s) };
    top_section_styled(p, width, label, style)
}

/// The header panel: a blank line, the top edge, the header row, the bottom
/// edge and another blank line; and the progress state that later redraws
/// the row's right end.
pub fn header_panel(
    p: &Palette,
    width: usize,
    badge: &str,
    brand: &str,
    brand_note: Option<&str>,
    left: &str,
    right: &str,
    tty: bool,
) -> (res: (Vec<String>, ProgressState))
    requires
        width >= 2,
        row_used(badge@, brand@, opt_view(brand_note), left@, right@) <= usize::MAX,
    ensures
        views(res.0@) == seq![
            Seq::<char>::empty(),
            fg(p.border, "╭"@ + repeat("─"@, (width - 2) as nat) + "╮"@),
            fg(p.border, "│"@) + header_row_view(
                *p,
                width as nat,
                badge@,
                brand@,
                opt_view(brand_note),
                left@,
                right@,
            ) + fg(p.border, "│"@),
            fg(p.border, "╰"@ + repeat("─"@, (width - 2) as nat) + "╯"@),
            Seq::<char>::empty(),
        ],
        res.1.badge@ == badge@,
        res.1.brand@ == brand@,
        opt_string_view(res.1.brand_note) == opt_view(brand_note),
        res.1.left@ == left@,
        res.1.tty == tty,
        res.1.done == 0,
        res.1.total == 0,
{
    let mut top = String::new();
    top.append("╭");
    let dashes = repeat_str("─", width - 2);
    top.append(dashes.as_str());
    top.append("╮");
    let top_line = border(p, top.as_str());
    let header = header_row(p, width, badge, brand, brand_note, left, right);
    let edge = border(p, "│");
    let mut mid = edge.clone();
    mid.append(header.as_str());
    mid.append(edge.as_str());
    let mut lines: Vec<String> = Vec::new();
    lines.push(String::new());
    lines.push(top_line);
    lines.push(mid);
    lines.push(bottom(p, width));
    lines.push(String::new());
    let state = ProgressState::new(badge, brand, brand_note, left, tty);
    (lines, state)
}

/// The gradient moves forward with the position: a later position never
/// takes an earlier stop, the first position takes the first stop, and every
/// position takes one of the twenty stops.
pub proof fn gradient_advances(i: int, j: int, total: int)
    requires
        0 <= i <= j,
    ensures
        gradient_stop(i, total) <= gradient_stop(j, total),
        gradient_stop(0, total) == 0,
        0 <= gradient_stop(i, total) < 20,
{
    let n = if total < 1 {
        1
    } else {
        total
    };
    assert(i * 20 <= j * 20);
    vstd::arithmetic::div_mod::lemma_div_is_ordered(i * 20, j * 20, n);
    vstd::arithmetic::div_mod::lemma_div_pos_is_pos(i * 20, n);
    assert(0int / n == 0) by {
        vstd::arithmetic::div_mod::lemma_div_basics(n);
    }
}

/// The first word of a line: what comes before its first space.
pub open spec fn first_word(l: Seq<char>) -> Seq<char>
    decreases l.len(),
{
    if l.len() == 0 || l[0] == ' ' {
        Seq::empty()
    } else {
        seq![l[0]] + first_word(l.drop_first())
    }
}

proof fn lemma_first_word_append(x: Seq<char>, y: Seq<char>)
    requires
        y.len() > 0,
        y[0] == ' ',
    ensures
        first_word(x + y) == first_word(x),
    decreases x.len(),
{
    if x.len() > 0 {
        assert((x + y)[0] == x[0]);
        assert((x + y).drop_first() =~= x.drop_first() + y);
        lemma_first_word_append(x.drop_first(), y);
    } else {
        assert(x + y =~= y);
    }
}

proof fn lemma_first_word_whole(w: Seq<char>)
    requires
        forall|j: int| 0 <= j < w.len() ==> w[j] != ' ',
    ensures
        first_word(w) == w,
    decreases w.len(),
{
    if w.len() > 0 {
        assert forall|j: int| 0 <= j < w.drop_first().len() implies w.drop_first()[j] != ' ' by {
            assert(w.drop_first()[j] == w[j + 1]);
        }
        lemma_first_word_whole(w.drop_first());
        assert(w =~= seq![w[0]] + w.drop_first());
    }
}

/// Of every two consecutive lines, the first word of the later one does not
/// fit (after a space) at the end of the earlier one.
pub open spec fn greedy_pairs(lines: Seq<Seq<char>>, width: nat) -> bool {
    forall|k: int|
        #![trigger lines[k]]
        0 <= k < lines.len() - 1 ==> lines[k].len() + 1 + first_word(lines[k + 1]).len() > width
}

proof fn lemma_fill_greedy(ws: Seq<Seq<char>>, width: nat)
    requires
        forall|k: int| 0 <= k < ws.len() ==> #[trigger] ws[k].len() > 0,
        forall|k: int, j: int| 0 <= k < ws.len() && 0 <= j < ws[k].len() ==> #[trigger] ws[k][j] != ' ',
    ensures
        greedy_pairs(flush(fill(ws, width)), width),
        ws.len() > 0 <==> fill(ws, width).1.len() > 0,
        ws.len() == 0 ==> fill(ws, width).0.len() == 0,
    decreases ws.len(),
{
    if ws.len() > 0 {
        let p = ws.drop_last();
        let w = ws.last();
        assert forall|k: int| 0 <= k < p.len() implies #[trigger] p[k].len() > 0 by {
            assert(p[k] == ws[k]);
        }
        assert forall|k: int, j: int| 0 <= k < p.len() && 0 <= j < p[k].len() implies #[trigger] p[k][j] != ' ' by {
            assert(p[k] == ws[k]);
        }
        lemma_fill_greedy(p, width);
        let (lines, cur) = fill(p, width);
        let old_all = flush(fill(p, width));
        assert forall|j: int| 0 <= j < w.len() implies w[j] != ' ' by {
            assert(ws[ws.len() - 1] == w);
        }
        lemma_first_word_whole(w);
        if cur.len() == 0 {
            assert(flush(fill(ws, width)) =~= seq![w]);
        } else if cur.len() + 1 + w.len() <= width {
            let ncur = cur + seq![' '] + w;
            lemma_first_word_append(cur, seq![' '] + w);
            assert(ncur =~= cur + (seq![' '] + w));
            let na = lines.push(ncur);
            assert(old_all == lines.push(cur));
            assert forall|k: int| #![trigger na[k]] 0 <= k < na.len() - 1 implies na[k].len() + 1
                + first_word(na[k + 1]).len() > width by {
                assert(na[k] == old_all[k]);
                if k + 1 < lines.len() {
                    assert(na[k + 1] == old_all[k + 1]);
                } else {
                    assert(old_all[k + 1] == cur);
                }
            }
        } else {
            let nl = lines.push(cur);
            let na = nl.push(w);
            assert(old_all == nl);
            assert forall|k: int| #![trigger na[k]] 0 <= k < na.len() - 1 implies na[k].len() + 1
                + first_word(na[k + 1]).len() > width by {
                assert(na[k] == nl[k]);
                if k + 1 < nl.len() {
                    assert(na[k + 1] == nl[k + 1]);
                }
            }
        }
    }
}

/// A wrap is greedy: the first word of each line would not have fitted at
/// the end of the line before it.
pub proof fn wrap_is_greedy(text: Seq<char>, width: nat)
    ensures
        greedy_pairs(wrapped(text, width), width),
{
    words_are_nonblank(text);
    let ws = words(text);
    assert forall|k: int, j: int| 0 <= k < ws.len() && 0 <= j < ws[k].len() implies #[trigger] ws[k][j] != ' ' by {
        assert(!is_white(ws[k][j]));
    }
    lemma_fill_greedy(ws, width);
}

} // verus!
