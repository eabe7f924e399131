//! Styled terminal text: spans of characters carrying an opaque style, and
//! the display widths that the Unicode width tables give them.

use vstd::prelude::*;

verus! {

/// A run of text drawn in one style.
pub struct StyledSpan<S> {
    pub content: String,
    pub style: S,
}

/// The abstract value of a span: its characters and its style.
pub struct SpanView<S> {
    pub text: Seq<char>,
    pub style: S,
}

impl<S> View for StyledSpan<S> {
    type V = SpanView<S>;

    open spec fn view(&self) -> SpanView<S> {
        SpanView { text: self.content@, style: self.style }
    }
}

/// One terminal row: a sequence of spans.
pub struct StyledLine<S> {
    pub spans: Vec<StyledSpan<S>>,
}

impl<S> View for StyledLine<S> {
    type V = Seq<SpanView<S>>;

    open spec fn view(&self) -> Seq<SpanView<S>> {
        spans_view(self.spans@)
    }
}

pub open spec fn spans_view<S>(spans: Seq<StyledSpan<S>>) -> Seq<SpanView<S>> {
    spans.map_values(|s: StyledSpan<S>| s@)
}

pub open spec fn lines_view<S>(lines: Seq<StyledLine<S>>) -> Seq<Seq<SpanView<S>>> {
    lines.map_values(|l: StyledLine<S>| l@)
}

/// The characters of all spans, in order.
pub open spec fn spans_text<S>(spans: Seq<SpanView<S>>) -> Seq<char>
    decreases spans.len(),
{
    if spans.len() == 0 {
        Seq::empty()
    } else {
        spans_text(spans.drop_last()) + spans.last().text
    }
}

/// Copies a span; the copy has the same characters and style.
pub fn copy_span<S: Copy>(span: &StyledSpan<S>) -> (r: StyledSpan<S>)
    ensures
        r@ == span@,
{
    StyledSpan { content: span.content.clone(), style: span.style }
}

/// Copies spans one by one.
pub fn copy_spans<S: Copy>(spans: &Vec<StyledSpan<S>>) -> (r: Vec<StyledSpan<S>>)
    ensures
        spans_view(r@) == spans_view(spans@),
{
    let mut out: Vec<StyledSpan<S>> = Vec::new();
    for i in 0..spans.len()
        invariant
            out@.len() == i,
            forall|j: int| 0 <= j < i ==> #[trigger] out@[j]@ == spans@[j]@,
    {
        out.push(copy_span(&spans[i]));
    }
    assert(spans_view(out@) =~= spans_view(spans@));
    out
}

/// Copies a line span by span.
pub fn copy_line<S: Copy>(line: &StyledLine<S>) -> (r: StyledLine<S>)
    ensures
        r@ == line@,
{
    StyledLine { spans: copy_spans(&line.spans) }
}

/// Collects the characters of a string into a vector.
pub fn chars_of(s: &str) -> (r: Vec<char>)
    ensures
        r@ == s@,
{
    let mut out: Vec<char> = Vec::new();
    for c in it: s.chars()
        invariant
            out@ == it.seq().take(it.index() as int),
            it.seq() == s@,
    {
        out.push(c);
    }
    out
}

/// The display width that the Unicode width tables give one character,
/// `None` for a control character.
pub uninterp spec fn unicode_char_width(c: char) -> Option<usize>;

/// The display width that the Unicode width tables give a string, which
/// accounts for ligatures and emoji sequences and so is not always the sum
/// of the widths of its characters.
pub uninterp spec fn unicode_str_width(s: Seq<char>) -> usize;

/// Calls `unicode_width::UnicodeWidthChar::width`. Its result is the table
/// value named [`unicode_char_width`]; the source shows that it is `None`
/// exactly for the C0 and C1 control codes, one column for printable ASCII,
/// and never more than three columns.
#[verifier::external_body]
pub(crate) fn char_width(c: char) -> (r: Option<usize>)
    ensures
        r == unicode_char_width(c),
        r is None <==> ((c as u32) < 0x20 || (0x7F <= (c as u32) && (c as u32) < 0xA0)),
        (0x20 <= (c as u32) && (c as u32) < 0x7F) ==> r == Some(1usize),
        r matches Some(w) ==> w <= 3,
{
    unicode_width::UnicodeWidthChar::width(c)
}

/// Calls `unicode_width::UnicodeWidthStr::width`. Its result is the value
/// named [`unicode_str_width`]; the source shows that a string of printable
/// ASCII characters is as wide as it is long.
#[verifier::external_body]
pub(crate) fn str_width(s: &str) -> (r: usize)
    ensures
        r == unicode_str_width(s@),
        (forall|i: int| 0 <= i < s@.len() ==> 0x20 <= (#[trigger] s@[i] as u32) && (s@[i] as u32) < 0x7F)
            ==> r == s@.len(),
{
    unicode_width::UnicodeWidthStr::width(s)
}

/// The columns a character occupies when a row is filled one character at
/// a time: its table width, or nothing for a control character.
pub open spec fn column_width(c: char) -> nat {
    match unicode_char_width(c) {
        Some(w) => w as nat,
        None => 0,
    }
}

/// The sum of the display widths of the spans.
pub open spec fn spans_width<S>(spans: Seq<SpanView<S>>) -> nat
    decreases spans.len(),
{
    if spans.len() == 0 {
        0
    } else {
        spans_width(spans.drop_last()) + unicode_str_width(spans.last().text) as nat
    }
}

/// Whether the spans together are at most `limit` columns wide.
pub fn spans_fit_within<S>(spans: &Vec<StyledSpan<S>>, limit: usize) -> (r: bool)
    ensures
        r == (spans_width(spans_view(spans@)) <= limit),
{
    let mut total: usize = 0;
    let mut i: usize = 0;
    while i < spans.len()
        invariant
            i <= spans.len(),
            total == spans_width(spans_view(spans@).take(i as int)),
            total <= limit,
        decreases spans.len() - i,
    {
        let w = str_width(spans[i].content.as_str());
        proof {
            assert(spans_view(spans@).take(i + 1).drop_last() =~= spans_view(spans@).take(i as int));
        }
        if w > limit - total {
            proof {
                lemma_spans_width_prefix_monotone(spans_view(spans@), i + 1);
            }
            return false;
        }
        total = total + w;
        i = i + 1;
    }
    proof {
        assert(spans_view(spans@).take(i as int) =~= spans_view(spans@));
    }
    true
}

/// The width of a prefix of the spans never exceeds the width of all of them.
pub proof fn lemma_spans_width_prefix_monotone<S>(spans: Seq<SpanView<S>>, k: int)
    requires
        0 <= k <= spans.len(),
    ensures
        spans_width(spans.take(k)) <= spans_width(spans),
    decreases spans.len() - k,
{
    if k < spans.len() {
        lemma_spans_width_prefix_monotone(spans, k + 1);
        assert(spans.take(k + 1).drop_last() =~= spans.take(k));
    } else {
        assert(spans.take(k) =~= spans);
    }
}

/// The decimal digit for `d < 10`.
pub open spec fn digit_char(d: nat) -> char {
    if d == 0 { '0' } else if d == 1 { '1' } else if d == 2 { '2' } else if d == 3 { '3' }
    else if d == 4 { '4' } else if d == 5 { '5' } else if d == 6 { '6' } else if d == 7 { '7' }
    else if d == 8 { '8' } else { '9' }
}

/// The decimal notation of `n`, without leading zeros.
pub open spec fn decimal(n: nat) -> Seq<char>
    decreases n,
{
    if n < 10 {
        seq![digit_char(n)]
    } else {
        decimal(n / 10).push(digit_char(n % 10))
    }
}

fn digit_of(d: u64) -> (c: char)
    requires
        d < 10,
    ensures
        c == digit_char(d as nat),
{
    if d == 0 { '0' } else if d == 1 { '1' } else if d == 2 { '2' } else if d == 3 { '3' }
    else if d == 4 { '4' } else if d == 5 { '5' } else if d == 6 { '6' } else if d == 7 { '7' }
    else if d == 8 { '8' } else { '9' }
}

/// The number that a string of decimal digits denotes.
pub open spec fn digits_value(s: Seq<char>) -> int
    decreases s.len(),
{
    if s.len() == 0 {
        0
    } else {
        digits_value(s.drop_last()) * 10 + (s.last() as int - '0' as int)
    }
}

proof fn lemma_digit_value(d: nat)
    requires
        d < 10,
    ensures
        digit_char(d) as int - '0' as int == d,
        '0' <= digit_char(d) <= '9',
        d > 0 ==> digit_char(d) != '0',
{
    assert('1' as int == '0' as int + 1 && '2' as int == '0' as int + 2 && '3' as int == '0' as int + 3
        && '4' as int == '0' as int + 4 && '5' as int == '0' as int + 5 && '6' as int == '0' as int + 6
        && '7' as int == '0' as int + 7 && '8' as int == '0' as int + 8 && '9' as int == '0' as int + 9);
}

/// The decimal notation of a number denotes that number, consists of
/// digits only, and starts with a nonzero digit unless the number is 0.
pub proof fn law_decimal_denotes_the_number(n: nat)
    ensures
        digits_value(decimal(n)) == n,
        forall|i: int| 0 <= i < decimal(n).len() ==> '0' <= #[trigger] decimal(n)[i] <= '9',
        n > 0 ==> decimal(n)[0] != '0',
        decimal(n).len() >= 1,
    decreases n,
{
    if n >= 10 {
        law_decimal_denotes_the_number(n / 10);
        let d = decimal(n);
        lemma_digit_value(n % 10);
        assert(d.drop_last() =~= decimal(n / 10));
        assert((n / 10) * 10 + n % 10 == n) by (nonlinear_arith);
        assert(d.last() == digit_char(n % 10));
        assert(digits_value(d) == digits_value(d.drop_last()) * 10 + (d.last() as int - '0' as int));
        assert(digits_value(d.drop_last()) == (n / 10) as int);
        assert forall|i: int| 0 <= i < d.len() implies '0' <= #[trigger] d[i] <= '9' by {
            if i < d.len() - 1 {
                assert(d[i] == decimal(n / 10)[i]);
            }
        }
        assert(d[0] == decimal(n / 10)[0]);
    } else {
        lemma_digit_value(n);
        assert(decimal(n).drop_last() =~= Seq::<char>::empty());
        assert(digits_value(decimal(n)) == digits_value(decimal(n).drop_last()) * 10 + (decimal(n).last() as int
            - '0' as int));
    }
}

/// Appends the decimal notation of `n` to `out`.
pub fn push_decimal(out: &mut String, n: u64)
    ensures
        final(out)@ == old(out)@ + decimal(n as nat),
    decreases n,
{
    if n < 10 {
        out.push(digit_of(n));
        proof {
            assert(old(out)@.push(digit_char(n as nat)) =~= old(out)@ + decimal(n as nat));
        }
    } else {
        push_decimal(out, n / 10);
        out.push(digit_of(n % 10));
        proof {
            assert(old(out)@ + decimal((n / 10) as nat).push(digit_char((n % 10) as nat))
                =~= (old(out)@ + decimal((n / 10) as nat)).push(digit_char((n % 10) as nat)));
        }
    }
}

/// The characters of `s` up to each line feed, with a carriage return
/// before the line feed removed, as `str::lines` documents them: a final
/// line feed ends the last line rather than starting an empty one, and a
/// carriage return at the very end is kept.
pub open spec fn text_lines(s: Seq<char>) -> Seq<Seq<char>> {
    lines_from(s, Seq::empty())
}

/// The lines of `s` when `pending` holds the characters of the line in
/// progress before it.
pub open spec fn lines_from(s: Seq<char>, pending: Seq<char>) -> Seq<Seq<char>>
    decreases s.len(),
{
    if s.len() == 0 {
        if pending.len() == 0 {
            Seq::empty()
        } else {
            seq![pending]
        }
    } else if s[0] == '\n' {
        seq![strip_carriage_return(pending)] + lines_from(s.drop_first(), Seq::empty())
    } else {
        lines_from(s.drop_first(), pending.push(s[0]))
    }
}

pub open spec fn strip_carriage_return(line: Seq<char>) -> Seq<char> {
    if line.len() > 0 && line.last() == '\r' {
        line.drop_last()
    } else {
        line
    }
}

proof fn lemma_lines_from_plain(a: Seq<char>, rest: Seq<char>, pending: Seq<char>)
    requires
        forall|i: int| 0 <= i < a.len() ==> a[i] != '\n',
    ensures
        lines_from(a + rest, pending) == lines_from(rest, pending + a),
    decreases a.len(),
{
    if a.len() > 0 {
        assert((a + rest)[0] == a[0]);
        assert((a + rest).drop_first() =~= a.drop_first() + rest);
        lemma_lines_from_plain(a.drop_first(), rest, pending.push(a[0]));
        assert(pending.push(a[0]) + a.drop_first() =~= pending + a);
    } else {
        assert(a + rest =~= rest);
        assert(pending + a =~= pending);
    }
}

/// Text splits into lines at its line feeds: text without a line feed is
/// one line (none when empty), and a line feed ends the line before it,
/// whose trailing carriage return is dropped, the rest being split the same
/// way.
pub proof fn law_lines_split_at_line_feeds(a: Seq<char>, b: Seq<char>)
    requires
        forall|i: int| 0 <= i < a.len() ==> a[i] != '\n',
    ensures
        text_lines(a + seq!['\n'] + b) == seq![strip_carriage_return(a)] + text_lines(b),
        a.len() > 0 ==> text_lines(a) == seq![a],
        a.len() == 0 ==> text_lines(a).len() == 0,
{
    lemma_lines_from_plain(a, seq!['\n'] + b, Seq::empty());
    assert(a + seq!['\n'] + b =~= a + (seq!['\n'] + b));
    assert(Seq::<char>::empty() + a =~= a);
    assert((seq!['\n'] + b)[0] == '\n');
    assert((seq!['\n'] + b).drop_first() =~= b);
    lemma_lines_from_plain(a, Seq::empty(), Seq::empty());
    assert(a + Seq::<char>::empty() =~= a);
}

/// Splits `s` into its lines as `str::lines` does.
pub fn split_lines(s: &str) -> (r: Vec<String>)
    ensures
        r@.map_values(|l: String| l@) == text_lines(s@),
{
    let chars = chars_of(s);
    let mut out: Vec<String> = Vec::new();
    let mut pending = String::new();
    let ghost mut done: Seq<Seq<char>> = Seq::empty();
    let mut i: usize = 0;
    proof {
        assert(s@.skip(0) =~= s@);
        assert(out@.map_values(|l: String| l@) =~= done);
    }
    while i < chars.len()
        invariant
            chars@ == s@,
            i <= chars@.len(),
            out@.map_values(|l: String| l@) == done,
            done + lines_from(s@.skip(i as int), pending@) == text_lines(s@),
        decreases chars@.len() - i,
    {
        let c = chars[i];
        proof {
            assert(s@.skip(i as int)[0] == c);
            assert(s@.skip(i as int).drop_first() =~= s@.skip(i + 1));
        }
        if c == '\n' {
            let line = if pending.as_str().unicode_len() > 0 && pending.as_str().get_char(
                pending.as_str().unicode_len() - 1,
            ) == '\r' {
                let n = pending.as_str().unicode_len();
                String::from_str(pending.as_str().substring_char(0, n - 1))
            } else {
                pending
            };
            proof {
                assert(line@ =~= strip_carriage_return(pending@));
                let rest = lines_from(s@.skip(i + 1), Seq::empty());
                assert(done.push(line@) + rest =~= done + (seq![line@] + rest));
            }
            let ghost before = out@;
            out.push(line);
            proof {
                assert(out@.map_values(|l: String| l@) =~= before.map_values(|l: String| l@).push(line@));
                done = done.push(line@);
            }
            pending = String::new();
        } else {
            pending.push(c);
        }
        i = i + 1;
    }
    proof {
        assert(s@.skip(i as int) =~= Seq::<char>::empty());
    }
    if pending.as_str().unicode_len() > 0 {
        let ghost before = out@;
        let ghost p = pending@;
        out.push(pending);
        proof {
            assert(out@.map_values(|l: String| l@) =~= before.map_values(|l: String| l@).push(p));
            assert(done.push(p) =~= done + seq![p]);
        }
    } else {
        proof {
            assert(done + Seq::<Seq<char>>::empty() =~= done);
        }
    }
    out
}

pub assume_specification[ String::push ](s: &mut String, ch: char)
    ensures
        final(s)@ == old(s)@.push(ch),
;

} // verus!
