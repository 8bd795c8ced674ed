//! The transcript renderer: role labels, `###` headers and fenced code
//! blocks, turned into styled lines.
use vstd::prelude::*;
use vstd::string::StringExecFns;

use crate::text::chars_of;
use crate::text::is_word_char;
use crate::text::string_from_chars;
use crate::text::word_char;

verus! {

/// The application banner shown above the conversation.
pub const BANNER: &'static str = r#"
| |    __ _  ______  __| |    | | __ _ _ __ ___   __ _
| |   / _` ||_  /\ \/ /| |    | |/ _` | '_ ` _ \ / _` |
| |__| (_| | / /  \  / | |___ | | (_| | | | | | | (_| |
|_____\__,_|/___| /_/  |_____||_|\__,_|_| |_| |_|\__,_|
"#;

/// Foreground colours used by the renderer.
#[derive(Clone, Copy, Debug, PartialEq, Eq)]
pub enum Color {
    Yellow,
    White,
    Magenta,
    Cyan,
}

/// How a span is drawn: an optional foreground colour, bold or not.
#[derive(Clone, Copy, Debug, PartialEq, Eq, Default)]
pub struct Style {
    pub fg: Option<Color>,
    pub bold: bool,
}

pub open spec fn plain_style() -> Style {
    Style { fg: None, bold: false }
}

pub open spec fn header_style() -> Style {
    Style { fg: Some(Color::White), bold: true }
}

pub open spec fn user_style() -> Style {
    Style { fg: Some(Color::Magenta), bold: true }
}

pub open spec fn ai_style() -> Style {
    Style { fg: Some(Color::Cyan), bold: true }
}

pub open spec fn frame_style() -> Style {
    Style { fg: Some(Color::Yellow), bold: false }
}

/// A span as plain values.
pub struct SpanView {
    pub content: Seq<char>,
    pub style: Style,
}

/// A run of text drawn in one style.
pub struct Span {
    pub content: String,
    pub style: Style,
}

impl View for Span {
    type V = SpanView;

    open spec fn view(&self) -> SpanView {
        SpanView { content: self.content@, style: self.style }
    }
}

/// One rendered line.
pub struct Line {
    pub spans: Vec<Span>,
}

impl View for Line {
    type V = Seq<SpanView>;

    open spec fn view(&self) -> Seq<SpanView> {
        self.spans@.map_values(|s: Span| s@)
    }
}

/// Rendered lines, top to bottom.
pub struct Text {
    pub lines: Vec<Line>,
}

/// The views of a sequence of lines.
pub open spec fn lines_view(v: Seq<Line>) -> Seq<Seq<SpanView>> {
    v.map_values(|l: Line| l@)
}

impl View for Text {
    type V = Seq<Seq<SpanView>>;

    open spec fn view(&self) -> Seq<Seq<SpanView>> {
        lines_view(self.lines@)
    }
}

impl Text {
    /// No lines.
    pub fn new() -> (r: Text)
        ensures
            r@ == Seq::<Seq<SpanView>>::empty(),
    {
        Text { lines: Vec::new() }
    }

    /// Number of rendered lines.
    pub fn height(&self) -> (r: usize)
        ensures
            r == self@.len(),
    {
        self.lines.len()
    }
}

/// The characters with the Unicode `White_Space` property.
pub open spec fn whitespace(c: char) -> bool {
    let u = c as u32;
    (0x09 <= u && u <= 0x0d) || u == 0x20 || u == 0x85 || u == 0xa0 || u == 0x1680 || (0x2000
        <= u && u <= 0x200a) || u == 0x2028 || u == 0x2029 || u == 0x202f || u == 0x205f || u
        == 0x3000
}

/// Whether `c` has the Unicode `White_Space` property.
fn char_is_whitespace(c: char) -> (r: bool)
    ensures
        r == whitespace(c),
{
    let u = c as u32;
    (0x09 <= u && u <= 0x0d) || u == 0x20 || u == 0x85 || u == 0xa0 || u == 0x1680 || (0x2000
        <= u && u <= 0x200a) || u == 0x2028 || u == 0x2029 || u == 0x202f || u == 0x205f || u
        == 0x3000
}

/// `s` without its leading whitespace.
pub open spec fn trim_start(s: Seq<char>) -> Seq<char>
    decreases s.len(),
{
    if s.len() > 0 && whitespace(s[0]) {
        trim_start(s.drop_first())
    } else {
        s
    }
}

/// `s` without its trailing whitespace.
pub open spec fn trim_end(s: Seq<char>) -> Seq<char>
    decreases s.len(),
{
    if s.len() > 0 && whitespace(s.last()) {
        trim_end(s.drop_last())
    } else {
        s
    }
}

/// `s` without leading and trailing whitespace.
pub open spec fn trim(s: Seq<char>) -> Seq<char> {
    trim_end(trim_start(s))
}

/// `s` without its leading `#` characters.
pub open spec fn trim_hashes(s: Seq<char>) -> Seq<char>
    decreases s.len(),
{
    if s.len() > 0 && s[0] == '#' {
        trim_hashes(s.drop_first())
    } else {
        s
    }
}

pub open spec fn starts_with(s: Seq<char>, p: Seq<char>) -> bool {
    p.len() <= s.len() && s.take(p.len() as int) == p
}

pub open spec fn plain_span(s: Seq<char>) -> SpanView {
    SpanView { content: s, style: plain_style() }
}

/// The spans of one line of ordinary text: a `###` header becomes a bullet
/// line, `YOU:` and `AI:` get a label span, anything else is one plain span.
pub open spec fn styled_line(l: Seq<char>) -> Seq<SpanView> {
    if starts_with(trim(l), "###"@) {
        seq![SpanView { content: "● "@ + trim(trim_hashes(trim(l))), style: header_style() }]
    } else if starts_with(l, "YOU:"@) {
        seq![SpanView { content: "YOU:"@, style: user_style() }, plain_span(l.skip(4))]
    } else if starts_with(l, "AI:"@) {
        seq![SpanView { content: "AI: "@, style: ai_style() }, plain_span(l.skip(3))]
    } else {
        seq![plain_span(l)]
    }
}

/// The spans of one line inside a code block: the frame bar, then the code.
pub open spec fn code_line(l: Seq<char>) -> Seq<SpanView> {
    seq![SpanView { content: " │ "@, style: frame_style() }, plain_span(l)]
}

/// A line as it came, without the `\r` of a `\r\n` ending.
pub open spec fn strip_cr(l: Seq<char>) -> Seq<char> {
    if l.len() > 0 && l.last() == '\r' {
        l.drop_last()
    } else {
        l
    }
}

/// The lines of `s` from index `i` on, `cur` being the part of the current
/// line already read: lines end at `\n` (a `\r` before it is dropped), and a
/// last line is only there when it holds something.
pub open spec fn lines_from(s: Seq<char>, i: nat, cur: Seq<char>) -> Seq<Seq<char>>
    decreases s.len() - i,
{
    if i >= s.len() {
        if cur.len() == 0 {
            seq![]
        } else {
            seq![cur]
        }
    } else if s[i as int] == '\n' {
        seq![strip_cr(cur)] + lines_from(s, i + 1, Seq::empty())
    } else {
        lines_from(s, i + 1, cur.push(s[i as int]))
    }
}

/// The lines of `s`, as `str::lines` splits them.
pub open spec fn text_lines(s: Seq<char>) -> Seq<Seq<char>> {
    lines_from(s, 0, Seq::empty())
}

/// One line, drawn as ordinary text or as code.
pub open spec fn render_line(l: Seq<char>, code: bool) -> Seq<SpanView> {
    if code {
        code_line(l)
    } else {
        styled_line(l)
    }
}

/// The rendered lines of `s`, as ordinary text or as code.
pub open spec fn render_lines(s: Seq<char>, code: bool) -> Seq<Seq<SpanView>> {
    text_lines(s).map_values(|l: Seq<char>| render_line(l, code))
}

/// The rendered lines of ordinary text.
pub open spec fn styled_text(s: Seq<char>) -> Seq<Seq<SpanView>> {
    render_lines(s, false)
}

/// The characters `v[from..to]`.
pub(crate) fn slice_chars(v: &Vec<char>, from: usize, to: usize) -> (r: Vec<char>)
    requires
        from <= to <= v@.len(),
    ensures
        r@ == v@.subrange(from as int, to as int),
{
    let mut out: Vec<char> = Vec::new();
    let mut i: usize = from;
    while i < to
        invariant
            from <= i <= to <= v@.len(),
            out@ == v@.subrange(from as int, i as int),
        decreases to - i,
    {
        out.push(v[i]);
        proof {
            assert(v@.subrange(from as int, i + 1) =~= v@.subrange(from as int, i as int).push(
                v@[i as int],
            ));
        }
        i = i + 1;
    }
    out
}

/// `v` without leading and trailing whitespace.
fn trim_chars(v: &Vec<char>) -> (r: Vec<char>)
    ensures
        r@ == trim(v@),
{
    let n = v.len();
    let mut a: usize = 0;
    proof {
        assert(v@.subrange(0, n as int) =~= v@);
    }
    while a < n && char_is_whitespace(v[a])
        invariant
            a <= n == v@.len(),
            trim_start(v@.subrange(a as int, n as int)) == trim_start(v@),
        decreases n - a,
    {
        proof {
            assert(v@.subrange(a as int, n as int).drop_first() =~= v@.subrange(a + 1, n as int));
        }
        a = a + 1;
    }
    proof {
        if a == 0 {
            assert(v@.subrange(0, n as int) =~= v@);
        }
    }
    let mut b: usize = n;
    while b > a && char_is_whitespace(v[b - 1])
        invariant
            a <= b <= n == v@.len(),
            trim_start(v@) == v@.subrange(a as int, n as int),
            trim_end(v@.subrange(a as int, b as int)) == trim(v@),
        decreases b,
    {
        proof {
            assert(v@.subrange(a as int, b as int).drop_last() =~= v@.subrange(a as int, b - 1));
        }
        b = b - 1;
    }
    slice_chars(v, a, b)
}

/// `v` without its leading `#` characters.
fn trim_hash_chars(v: &Vec<char>) -> (r: Vec<char>)
    ensures
        r@ == trim_hashes(v@),
{
    let n = v.len();
    let mut a: usize = 0;
    proof {
        assert(v@.subrange(0, n as int) =~= v@);
    }
    while a < n && v[a] == '#'
        invariant
            a <= n == v@.len(),
            trim_hashes(v@.subrange(a as int, n as int)) == trim_hashes(v@),
        decreases n - a,
    {
        proof {
            assert(v@.subrange(a as int, n as int).drop_first() =~= v@.subrange(a + 1, n as int));
        }
        a = a + 1;
    }
    proof {
        if a == 0 {
            assert(v@.subrange(0, n as int) =~= v@);
        }
    }
    slice_chars(v, a, n)
}

fn span(content: String, style: Style) -> (r: Span)
    ensures
        r@ == (SpanView { content: content@, style: style }),
{
    Span { content, style }
}

fn label_line(label: &str, style: Style, rest: Vec<char>) -> (r: Line)
    ensures
        r@ == seq![SpanView { content: label@, style: style }, plain_span(rest@)],
{
    let mut spans: Vec<Span> = Vec::new();
    spans.push(span(label.to_owned(), style));
    spans.push(span(string_from_chars(&rest), Style { fg: None, bold: false }));
    let r = Line { spans };
    proof {
        assert(r@ =~= seq![SpanView { content: label@, style: style }, plain_span(rest@)]);
    }
    r
}

fn single_line(content: String, style: Style) -> (r: Line)
    ensures
        r@ == seq![SpanView { content: content@, style: style }],
{
    let mut spans: Vec<Span> = Vec::new();
    spans.push(span(content, style));
    let r = Line { spans };
    proof {
        assert(r@ =~= seq![SpanView { content: content@, style: style }]);
    }
    r
}

fn has_prefix(v: &Vec<char>, p: &str) -> (r: bool)
    ensures
        r == starts_with(v@, p@),
{
    let pv = chars_of(p);
    if pv.len() > v.len() {
        return false;
    }
    let mut i: usize = 0;
    while i < pv.len()
        invariant
            pv@ == p@,
            pv@.len() <= v@.len(),
            i <= pv@.len(),
            forall|j: int| 0 <= j < i ==> v@[j] == pv@[j],
        decreases pv@.len() - i,
    {
        if v[i] != pv[i] {
            proof {
                assert(v@.take(p@.len() as int)[i as int] != p@[i as int]);
            }
            return false;
        }
        i = i + 1;
    }
    proof {
        assert(v@.take(p@.len() as int) =~= p@);
    }
    true
}

/// The rendered spans of one line of ordinary text.
fn style_line(l: &Vec<char>) -> (r: Line)
    ensures
        r@ == styled_line(l@),
{
    let t = trim_chars(l);
    if has_prefix(&t, "###") {
        let h = trim_hash_chars(&t);
        let body = trim_chars(&h);
        let mut content = "● ".to_owned();
        let body_str = string_from_chars(&body);
        content.append(body_str.as_str());
        single_line(content, Style { fg: Some(Color::White), bold: true })
    } else if has_prefix(l, "YOU:") {
        proof {
            reveal_strlit("YOU:");
        }
        let rest = slice_chars(l, 4, l.len());
        proof {
            assert(rest@ =~= l@.skip(4));
        }
        label_line("YOU:", Style { fg: Some(Color::Magenta), bold: true }, rest)
    } else if has_prefix(l, "AI:") {
        proof {
            reveal_strlit("AI:");
        }
        let rest = slice_chars(l, 3, l.len());
        proof {
            assert(rest@ =~= l@.skip(3));
        }
        label_line("AI: ", Style { fg: Some(Color::Cyan), bold: true }, rest)
    } else {
        single_line(string_from_chars(l), Style { fg: None, bold: false })
    }
}

/// The rendered spans of one line of code.
fn code_line_of(l: &Vec<char>) -> (r: Line)
    ensures
        r@ == code_line(l@),
{
    let whole = slice_chars(l, 0, l.len());
    proof {
        assert(whole@ =~= l@);
    }
    label_line(" │ ", Style { fg: Some(Color::Yellow), bold: false }, whole)
}

/// Appends the rendered lines of `v[from..to]` to `out`.
fn emit_lines(v: &Vec<char>, from: usize, to: usize, code: bool, out: &mut Vec<Line>)
    requires
        from <= to <= v@.len(),
    ensures
        lines_view(final(out)@) == lines_view(old(out)@) + render_lines(
            v@.subrange(from as int, to as int),
            code,
        ),
{
    let ghost t = v@.subrange(from as int, to as int);
    let ghost f = |l: Seq<char>| render_line(l, code);
    let mut cur: Vec<char> = Vec::new();
    let ghost mut done: Seq<Seq<char>> = Seq::empty();
    let mut i: usize = from;
    while i < to
        invariant
            from <= i <= to <= v@.len(),
            t == v@.subrange(from as int, to as int),
            f == (|l: Seq<char>| render_line(l, code)),
            text_lines(t) == done + lines_from(t, (i - from) as nat, cur@),
            lines_view(out@) == lines_view(old(out)@) + done.map_values(f),
        decreases to - i,
    {
        let c = v[i];
        proof {
            assert(t[i - from] == c);
        }
        if c == '\n' {
            let mut line = cur;
            if line.len() > 0 && line[line.len() - 1] == '\r' {
                line.pop();
            }
            proof {
                assert(line@ =~= strip_cr(cur@));
            }
            let rendered = if code {
                code_line_of(&line)
            } else {
                style_line(&line)
            };
            let ghost before = out@;
            out.push(rendered);
            proof {
                assert(lines_from(t, (i - from) as nat, cur@) == seq![strip_cr(cur@)] + lines_from(
                    t,
                    (i - from + 1) as nat,
                    Seq::empty(),
                ));
                assert(done + (seq![strip_cr(cur@)] + lines_from(
                    t,
                    (i - from + 1) as nat,
                    Seq::empty(),
                )) =~= done.push(strip_cr(cur@)) + lines_from(
                    t,
                    (i - from + 1) as nat,
                    Seq::empty(),
                ));
                assert(lines_view(out@) =~= lines_view(before).push(rendered@));
                assert(done.push(line@).map_values(f) =~= done.map_values(f).push(f(line@)));
                done = done.push(line@);
            }
            cur = Vec::new();
            proof {
                assert(cur@ =~= Seq::<char>::empty());
            }
        } else {
            cur.push(c);
        }
        i = i + 1;
    }
    if cur.len() > 0 {
        let rendered = if code {
            code_line_of(&cur)
        } else {
            style_line(&cur)
        };
        let ghost before = out@;
        out.push(rendered);
        proof {
            assert(lines_view(out@) =~= lines_view(before).push(rendered@));
            assert(done.push(cur@).map_values(f) =~= done.map_values(f).push(f(cur@)));
            assert(text_lines(t) =~= done.push(cur@));
        }
    } else {
        proof {
            assert(text_lines(t) =~= done);
        }
    }
}

/// Appends the styled lines of `text` to `target`, line by line.
pub fn process_styled_text(text: &str, target: &mut Text)
    ensures
        final(target)@ == old(target)@ + styled_text(text@),
{
    let v = chars_of(text);
    emit_lines(&v, 0, v.len(), false, &mut target.lines);
    proof {
        assert(v@.subrange(0, v@.len() as int) =~= v@);
    }
}

/// A character of a code block's language tag. Backticks and newlines are
/// never word characters; saying so here lets the scanner's bounds be proved.
pub open spec fn lang_char(c: char) -> bool {
    word_char(c) && c != '`' && c != '\n'
}

/// The end of the language tag that starts at `i`.
pub open spec fn lang_end(s: Seq<char>, i: nat) -> nat
    decreases s.len() - i,
{
    if i < s.len() && lang_char(s[i as int]) {
        lang_end(s, i + 1)
    } else {
        i
    }
}

/// Three backticks start at `q`.
pub open spec fn is_fence(s: Seq<char>, q: int) -> bool {
    0 <= q && q + 3 <= s.len() && s[q] == '`' && s[q + 1] == '`' && s[q + 2] == '`'
}

/// The first fence at or after `i`.
pub open spec fn next_fence(s: Seq<char>, i: nat) -> Option<nat>
    decreases s.len() - i,
{
    if i + 3 > s.len() {
        None
    } else if is_fence(s, i as int) {
        Some(i)
    } else {
        next_fence(s, i + 1)
    }
}

/// A fence at `p`, then a possibly empty language tag, then a newline.
pub open spec fn opens_at(s: Seq<char>, p: nat) -> bool {
    is_fence(s, p as int) && lang_end(s, p + 3) < s.len() && s[lang_end(s, p + 3) as int] == '\n'
}

/// Where the code of a block opened at `p` starts.
pub open spec fn body_start(s: Seq<char>, p: nat) -> nat {
    lang_end(s, p + 3) + 1
}

/// A complete code block starts at `p`: it opens there and a fence closes it.
pub open spec fn block_at(s: Seq<char>, p: nat) -> bool {
    opens_at(s, p) && next_fence(s, body_start(s, p)) is Some
}

/// The leftmost complete code block at or after `p`.
pub open spec fn first_block(s: Seq<char>, p: nat) -> Option<nat>
    decreases s.len() - p,
{
    if p >= s.len() {
        None
    } else if block_at(s, p) {
        Some(p)
    } else {
        first_block(s, p + 1)
    }
}

/// Where the closing fence of the block at `p` starts.
pub open spec fn block_close(s: Seq<char>, p: nat) -> nat {
    next_fence(s, body_start(s, p))->0
}

/// The header line of a block, tagged with its language or with `code`.
pub open spec fn header_line(lang: Seq<char>) -> Seq<SpanView> {
    seq![
        SpanView {
            content: " ┌── "@ + (if lang.len() == 0 {
                "code"@
            } else {
                lang
            }) + " ──"@,
            style: frame_style(),
        },
    ]
}

/// The footer line of a block.
pub open spec fn footer_line() -> Seq<SpanView> {
    seq![SpanView { content: " └──────────"@, style: frame_style() }]
}

/// The framed lines of the block at `p`: header, one line per code line, footer.
pub open spec fn block_lines(s: Seq<char>, p: nat) -> Seq<Seq<SpanView>> {
    seq![header_line(s.subrange(p + 3 as int, lang_end(s, p + 3) as int))] + render_lines(
        s.subrange(body_start(s, p) as int, block_close(s, p) as int),
        true,
    ) + seq![footer_line()]
}

/// The rendered lines of `s` from `pos` on: ordinary text up to the next
/// complete code block, the framed block, and the rest after its closing
/// fence. The block always ends after `pos`; the test only makes the
/// recursion evidently finite.
pub open spec fn render_from(s: Seq<char>, pos: nat) -> Seq<Seq<SpanView>>
    decreases s.len() - pos,
{
    if pos >= s.len() {
        seq![]
    } else {
        match first_block(s, pos) {
            Some(p) => if pos < block_close(s, p) + 3 <= s.len() {
                styled_text(s.subrange(pos as int, p as int)) + block_lines(s, p) + render_from(
                    s,
                    block_close(s, p) + 3,
                )
            } else {
                seq![]
            },
            None => styled_text(s.subrange(pos as int, s.len() as int)),
        }
    }
}

/// The rendered lines of a whole transcript.
pub open spec fn render_history(s: Seq<char>) -> Seq<Seq<SpanView>> {
    render_from(s, 0)
}

proof fn lemma_lang_end(s: Seq<char>, i: nat)
    requires
        i <= s.len(),
    ensures
        i <= lang_end(s, i) <= s.len(),
        forall|j: int| i <= j < lang_end(s, i) ==> lang_char(#[trigger] s[j]),
    decreases s.len() - i,
{
    if i < s.len() && lang_char(s[i as int]) {
        lemma_lang_end(s, i + 1);
    }
}

proof fn lemma_next_fence(s: Seq<char>, i: nat)
    ensures
        next_fence(s, i) matches Some(q) ==> i <= q && is_fence(s, q as int),
        next_fence(s, i) is None ==> forall|q: int| i <= q ==> !is_fence(s, q),
    decreases s.len() - i,
{
    if i + 3 <= s.len() && !is_fence(s, i as int) {
        lemma_next_fence(s, i + 1);
        assert forall|q: int| i <= q && next_fence(s, i) is None implies !is_fence(s, q) by {
            if q > i {
            }
        }
    }
}

proof fn lemma_first_block(s: Seq<char>, p: nat)
    ensures
        first_block(s, p) matches Some(b) ==> p <= b && block_at(s, b),
    decreases s.len() - p,
{
    if p < s.len() && !block_at(s, p) {
        lemma_first_block(s, p + 1);
    }
}

proof fn lemma_first_block_none(s: Seq<char>, p: nat)
    requires
        forall|q: nat| p <= q < s.len() ==> !block_at(s, q),
    ensures
        first_block(s, p) is None,
    decreases s.len() - p,
{
    if p < s.len() {
        lemma_first_block_none(s, p + 1);
    }
}

/// An opening fence that nothing closes: no complete block starts there or later.
proof fn lemma_unclosed(s: Seq<char>, p: nat)
    requires
        opens_at(s, p),
        next_fence(s, body_start(s, p)) is None,
    ensures
        first_block(s, p) is None,
{
    let le = lang_end(s, p + 3);
    lemma_lang_end(s, p + 3);
    lemma_next_fence(s, body_start(s, p));
    assert forall|q: nat| p <= q < s.len() implies !block_at(s, q) by {
        if q > p && q <= le {
            if q == p + 1 {
                assert(!is_fence(s, q as int)) by {
                    if p + 3 < le {
                        assert(lang_char(s[p + 3 as int]));
                    }
                }
            } else if q == p + 2 {
                assert(!is_fence(s, q as int)) by {
                    if p + 3 < le {
                        assert(lang_char(s[p + 3 as int]));
                    }
                }
            } else if q < le {
                assert(lang_char(s[q as int]));
            }
        }
    }
    lemma_first_block_none(s, p);
}

/// The end of the language tag of `v` that starts at `i`.
fn lang_end_index(v: &Vec<char>, i: usize) -> (r: usize)
    requires
        i <= v@.len(),
    ensures
        r == lang_end(v@, i as nat),
{
    let mut j: usize = i;
    while j < v.len() && v[j] != '`' && v[j] != '\n' && is_word_char(v[j])
        invariant
            i <= j <= v@.len(),
            lang_end(v@, j as nat) == lang_end(v@, i as nat),
        decreases v@.len() - j,
    {
        j = j + 1;
    }
    j
}

/// The first fence of `v` at or after `i`.
fn find_fence(v: &Vec<char>, i: usize) -> (r: Option<usize>)
    ensures
        match r {
            Some(q) => next_fence(v@, i as nat) == Some(q as nat),
            None => next_fence(v@, i as nat) is None,
        },
{
    let n = v.len();
    let mut q: usize = i;
    while q < n && n - q >= 3
        invariant
            i <= q,
            n == v@.len(),
            next_fence(v@, q as nat) == next_fence(v@, i as nat),
        decreases n - q,
    {
        if v[q] == '`' && v[q + 1] == '`' && v[q + 2] == '`' {
            return Some(q);
        }
        q = q + 1;
    }
    None
}

/// The leftmost complete code block at or after `pos`: where it starts,
/// where its language tag ends, and where its closing fence starts.
fn find_block(v: &Vec<char>, pos: usize) -> (r: Option<(usize, usize, usize)>)
    requires
        pos <= v@.len(),
    ensures
        match first_block(v@, pos as nat) {
            Some(p) => r == Some(
                (p as usize, lang_end(v@, p + 3) as usize, block_close(v@, p) as usize),
            ),
            None => r is None,
        },
{
    let ghost s = v@;
    let n = v.len();
    let mut p: usize = pos;
    while p < n && n - p >= 3
        invariant
            pos <= p <= n,
            n == s.len(),
            s == v@,
            first_block(s, pos as nat) == first_block(s, p as nat),
        decreases n - p,
    {
        if v[p] == '`' && v[p + 1] == '`' && v[p + 2] == '`' {
            let le = lang_end_index(v, p + 3);
            proof {
                lemma_lang_end(s, (p + 3) as nat);
            }
            if le < n && v[le] == '\n' {
                match find_fence(v, le + 1) {
                    Some(c) => {
                        return Some((p, le, c));
                    },
                    None => {
                        proof {
                            lemma_unclosed(s, p as nat);
                        }
                        return None;
                    },
                }
            }
        }
        p = p + 1;
    }
    proof {
        assert forall|q: nat| p <= q < s.len() implies !block_at(s, q) by {
        }
        lemma_first_block_none(s, p as nat);
    }
    None
}

/// Parses a transcript into styled lines: complete fenced code blocks are
/// framed, everything around them is styled line by line. An opening fence
/// that nothing closes stays ordinary text.
pub fn parse_history(history: &str) -> (r: Text)
    ensures
        r@ == render_history(history@),
{
    let v = chars_of(history);
    let ghost s = v@;
    let n = v.len();
    let mut out: Vec<Line> = Vec::new();
    let mut pos: usize = 0;
    while pos < n
        invariant
            pos <= n == s.len(),
            s == v@,
            render_history(s) == lines_view(out@) + render_from(s, pos as nat),
        decreases n - pos,
    {
        match find_block(&v, pos) {
            None => {
                emit_lines(&v, pos, n, false, &mut out);
                proof {
                    assert(render_from(s, n as nat) =~= Seq::<Seq<SpanView>>::empty());
                    assert(lines_view(out@) + render_from(s, n as nat) =~= lines_view(out@));
                }
                pos = n;
            },
            Some((p, le, c)) => {
                proof {
                    lemma_first_block(s, pos as nat);
                    lemma_lang_end(s, (p + 3) as nat);
                    lemma_next_fence(s, body_start(s, p as nat));
                }
                let ghost out0 = lines_view(out@);
                emit_lines(&v, pos, p, false, &mut out);
                let lang = slice_chars(&v, p + 3, le);
                let mut head = " ┌── ".to_owned();
                if lang.len() == 0 {
                    head.append("code");
                } else {
                    let lang_str = string_from_chars(&lang);
                    head.append(lang_str.as_str());
                }
                head.append(" ──");
                let ghost before_head = out@;
                out.push(single_line(head, Style { fg: Some(Color::Yellow), bold: false }));
                proof {
                    assert(lines_view(out@) =~= lines_view(before_head).push(
                        header_line(s.subrange(p + 3, le as int)),
                    ));
                }
                emit_lines(&v, le + 1, c, true, &mut out);
                let ghost before_foot = out@;
                out.push(
                    single_line(" └──────────".to_owned(), Style { fg: Some(Color::Yellow), bold: false }),
                );
                proof {
                    assert(lines_view(out@) =~= lines_view(before_foot).push(footer_line()));
                    assert(lines_view(out@) =~= out0 + styled_text(s.subrange(pos as int, p as int))
                        + block_lines(s, p as nat));
                }
                pos = c + 3;
            },
        }
    }
    Text { lines: out }
}

/// Parsing keeps no state between calls: two parses of the same transcript
/// give the same lines.
pub proof fn law_parse_repeatable(history: &str, first: Text, second: Text)
    requires
        first@ == render_history(history@),
        second@ == render_history(history@),
    ensures
        first@ == second@,
{
}

/// The marker a model gets in the list: none without a transcript, a note
/// for a transcript of more than a thousand bytes, a page otherwise.
pub open spec fn model_label_spec(name: Seq<char>, history_bytes: nat) -> Seq<char> {
    if history_bytes == 0 {
        name
    } else if history_bytes > 1000 {
        name + " [📝]"@
    } else {
        name + " [📄]"@
    }
}

/// The list entry of a model whose transcript takes `history_bytes` bytes.
pub fn model_label(name: &str, history_bytes: usize) -> (r: String)
    ensures
        r@ == model_label_spec(name@, history_bytes as nat),
{
    let mut r = name.to_owned();
    if history_bytes > 1000 {
        r.append(" [📝]");
    } else if history_bytes > 0 {
        r.append(" [📄]");
    }
    r
}

} // verus!
