use vstd::prelude::*;
use crate::config::{Design, StyleElement, TableConfig};

verus! {

/// The width, in columns, at which cell text is wrapped.
pub const WRAP_WIDTH: usize = 30;

/// A colour as red, green and blue.
#[derive(Debug, Clone, Copy, PartialEq, Eq, Structural)]
pub struct Rgb {
    pub r: u8,
    pub g: u8,
    pub b: u8,
}

/// The part of a table that a style applies to.
#[derive(Debug, Clone, Copy, PartialEq, Eq, Structural)]
pub enum DesignPart {
    Border,
    Header,
    Column,
    Cell,
}

/// The lines that textwrap makes of one line at the given width.
pub uninterp spec fn wrapped(line: Seq<char>, width: nat) -> Seq<Seq<char>>;

/// Relies on `textwrap::wrap`: the line broken into lines of at most
/// `width` columns.
#[verifier::external_body]
fn wrap_line(line: &str, width: usize) -> (r: Vec<String>)
    ensures
        r.deep_view() == wrapped(line@, width as nat),
{
    textwrap::wrap(line, width).into_iter().map(|w| w.into_owned()).collect()
}

/// The text cut at each newline; the last piece is what follows the last
/// newline, possibly empty.
pub open spec fn pieces(s: Seq<char>) -> Seq<Seq<char>>
    decreases s.len(),
{
    if s.len() == 0 {
        seq![Seq::empty()]
    } else if s.last() == '\n' {
        pieces(s.drop_last()).push(Seq::empty())
    } else {
        let p = pieces(s.drop_last());
        p.update(p.len() - 1, p.last().push(s.last()))
    }
}

/// A line without the carriage return of a `\r\n` ending.
pub open spec fn strip_cr(line: Seq<char>) -> Seq<char> {
    if line.len() > 0 && line.last() == '\r' {
        line.drop_last()
    } else {
        line
    }
}

/// The lines of a text: split at `\n` or `\r\n`, without the endings; a
/// final line ending adds no empty line, and a lone `\r` at the very end
/// stays.
pub open spec fn lines_of(s: Seq<char>) -> Seq<Seq<char>> {
    let p = pieces(s);
    let ended = Seq::new((p.len() - 1) as nat, |i: int| strip_cr(p[i]));
    if p.last().len() == 0 {
        ended
    } else {
        ended.push(p.last())
    }
}

proof fn lemma_pieces_nonempty(s: Seq<char>)
    ensures
        pieces(s).len() >= 1,
    decreases s.len(),
{
    if s.len() > 0 {
        lemma_pieces_nonempty(s.drop_last());
    }
}

fn without_cr(line: &str) -> (r: String)
    ensures
        r@ == strip_cr(line@),
{
    let n = line.unicode_len();
    if n > 0 && line.get_char(n - 1) == '\r' {
        let r = String::from_str(line.substring_char(0, n - 1));
        assert(r@ =~= line@.drop_last());
        r
    } else {
        String::from_str(line)
    }
}

/// The lines of a text, as `str::lines` gives them.
fn split_lines(s: &str) -> (r: Vec<String>)
    ensures
        r.deep_view() == lines_of(s@),
{
    let n = s.unicode_len();
    let mut done: Vec<String> = Vec::new();
    let mut start: usize = 0;
    let mut k: usize = 0;
    assert(s@.take(0) =~= Seq::<char>::empty());
    while k < n
        invariant
            n == s@.len(),
            start <= k <= n,
            pieces(s@.take(k as int)).len() == done@.len() + 1,
            forall|i: int| 0 <= i < done@.len() ==> #[trigger] done@[i]@ == strip_cr(pieces(s@.take(k as int))[i]),
            pieces(s@.take(k as int)).last() == s@.subrange(start as int, k as int),
        decreases n - k,
    {
        let ghost before = pieces(s@.take(k as int));
        assert(s@.take(k + 1).drop_last() =~= s@.take(k as int));
        assert(s@.take(k + 1).last() == s@[k as int]);
        if s.get_char(k) == '\n' {
            let line = without_cr(s.substring_char(start, k));
            done.push(line);
            start = k + 1;
            assert(pieces(s@.take(k + 1)) == before.push(Seq::empty()));
            assert(s@.subrange(start as int, k + 1) =~= Seq::<char>::empty());
        } else {
            assert(s@.subrange(start as int, k + 1) =~= s@.subrange(start as int, k as int).push(s@[k as int]));
        }
        k += 1;
    }
    assert(s@.take(n as int) =~= s@);
    let ghost p = pieces(s@);
    if start < n {
        let last = String::from_str(s.substring_char(start, n));
        done.push(last);
    }
    assert(done.deep_view() =~= lines_of(s@));
    done
}

pub open spec fn hex_digit(c: char) -> Option<nat> {
    if '0' <= c && c <= '9' {
        Some((c as nat - '0' as nat) as nat)
    } else if 'a' <= c && c <= 'f' {
        Some((c as nat - 'a' as nat + 10) as nat)
    } else if 'A' <= c && c <= 'F' {
        Some((c as nat - 'A' as nat + 10) as nat)
    } else {
        None
    }
}

/// The number that a run of hex digits spells, if they are all digits.
pub open spec fn hex_value(s: Seq<char>) -> Option<nat>
    decreases s.len(),
{
    if s.len() == 0 {
        Some(0)
    } else {
        match (hex_value(s.drop_last()), hex_digit(s.last())) {
            (Some(v), Some(d)) => Some(v * 16 + d),
            _ => None,
        }
    }
}

/// The text without its leading `#` signs.
pub open spec fn trim_hashes(s: Seq<char>) -> Seq<char>
    decreases s.len(),
{
    if s.len() > 0 && s[0] == '#' {
        trim_hashes(s.drop_first())
    } else {
        s
    }
}

/// A colour written as six hex digits after any number of `#`; as with an
/// unsigned integer's radix parse, a leading `+` may stand for the first digit.
pub open spec fn parse_hex_spec(s: Seq<char>) -> Option<Rgb> {
    let t = trim_hashes(s);
    let digits = if t.len() > 0 && t[0] == '+' { t.drop_first() } else { t };
    if t.len() != 6 {
        None
    } else {
        rgb_of(hex_value(digits))
    }
}

pub open spec fn rgb_of(v: Option<nat>) -> Option<Rgb> {
    match v {
        Some(v) => Some(Rgb { r: (v / 65536 % 256) as u8, g: (v / 256 % 256) as u8, b: (v % 256) as u8 }),
        None => None,
    }
}

proof fn lemma_hex_value_bound(s: Seq<char>)
    requires
        hex_value(s) is Some,
    ensures
        hex_value(s)->0 < vstd::arithmetic::power::pow(16, s.len()),
    decreases s.len(),
{
    reveal(vstd::arithmetic::power::pow);
    if s.len() > 0 {
        lemma_hex_value_bound(s.drop_last());
        let v = hex_value(s.drop_last())->0;
        let p = vstd::arithmetic::power::pow(16, (s.len() - 1) as nat);
        assert(v * 16 + 15 < p * 16) by (nonlinear_arith)
            requires v < p;
    }
}

fn digit_of(c: char) -> (r: Option<u32>)
    ensures
        r matches Some(d) ==> hex_digit(c) == Some(d as nat),
        r is None ==> hex_digit(c) is None,
{
    if '0' <= c && c <= '9' {
        Some((c as u32) - ('0' as u32))
    } else if 'a' <= c && c <= 'f' {
        Some((c as u32) - ('a' as u32) + 10)
    } else if 'A' <= c && c <= 'F' {
        Some((c as u32) - ('A' as u32) + 10)
    } else {
        None
    }
}

/// Parses a colour such as `#ff8800`.
pub fn parse_hex_color(hex: &str) -> (r: Result<Rgb, ()>)
    ensures
        r matches Ok(c) ==> parse_hex_spec(hex@) == Some(c),
        r is Err ==> parse_hex_spec(hex@) is None,
{
    let n = hex.unicode_len();
    let mut start: usize = 0;
    assert(hex@.subrange(0, n as int) =~= hex@);
    while start < n && hex.get_char(start) == '#'
        invariant
            n == hex@.len(),
            start <= n,
            trim_hashes(hex@) == trim_hashes(hex@.subrange(start as int, n as int)),
        decreases n - start,
    {
        assert(hex@.subrange(start as int, n as int).drop_first() =~= hex@.subrange(start + 1, n as int));
        start += 1;
    }
    let ghost t = hex@.subrange(start as int, n as int);
    assert(trim_hashes(t) == t);
    if n - start != 6 {
        return Err(());
    }
    let mut first = start;
    if hex.get_char(start) == '+' {
        first = start + 1;
    }
    let ghost digits = hex@.subrange(first as int, n as int);
    assert(digits =~= if t.len() > 0 && t[0] == '+' { t.drop_first() } else { t });
    assert(parse_hex_spec(hex@) == rgb_of(hex_value(digits)));
    let mut v: u32 = 0;
    let mut k: usize = first;
    while k < n
        invariant
            n == hex@.len(),
            first <= k <= n,
            n - first <= 6,
            hex_value(hex@.subrange(first as int, k as int)) == Some(v as nat),
            parse_hex_spec(hex@) == rgb_of(hex_value(hex@.subrange(first as int, n as int))),
        decreases n - k,
    {
        let ghost pre = hex@.subrange(first as int, k as int);
        let ghost next = hex@.subrange(first as int, k + 1);
        assert(next.drop_last() =~= pre);
        proof {
            lemma_hex_value_bound(pre);
            vstd::arithmetic::power::lemma_pow_increases(16, pre.len(), 5);
            reveal_with_fuel(vstd::arithmetic::power::pow, 6);
        }
        match digit_of(hex.get_char(k)) {
            None => {
                proof {
                    lemma_hex_value_none(hex@.subrange(first as int, n as int), (k - first) as nat);
                }
                return Err(());
            },
            Some(d) => {
                assert(v < 1048576);
                v = v * 16 + d;
            },
        }
        k += 1;
    }
    assert(hex@.subrange(first as int, n as int) =~= digits);
    Ok(Rgb { r: (v / 65536 % 256) as u8, g: (v / 256 % 256) as u8, b: (v % 256) as u8 })
}

proof fn lemma_hex_value_none(s: Seq<char>, i: nat)
    requires
        i < s.len(),
        hex_digit(s[i as int]) is None,
    ensures
        hex_value(s) is None,
    decreases s.len(),
{
    if i + 1 < s.len() {
        lemma_hex_value_none(s.drop_last(), i);
    }
}

/// The style given for a part of the table, if any.
pub open spec fn style_for(design: Option<Design>, part: DesignPart) -> Option<StyleElement> {
    match design {
        None => None,
        Some(d) => match part {
            DesignPart::Border => d.border,
            DesignPart::Header => d.header,
            DesignPart::Column => d.column,
            DesignPart::Cell => d.cell,
        },
    }
}

/// The colour of a part of the table: the style's colour where it is given
/// and parses, else none (the terminal's default).
pub open spec fn color_spec(design: Option<Design>, part: DesignPart) -> Option<Rgb> {
    match style_for(design, part) {
        Some(StyleElement { color: Some(hex) }) => parse_hex_spec(hex@),
        _ => None,
    }
}

pub fn color_from_design(config: &TableConfig, part: DesignPart) -> (r: Option<Rgb>)
    ensures
        r == color_spec(config.design, part),
{
    let style = match &config.design {
        None => return None,
        Some(d) => match part {
            DesignPart::Border => &d.border,
            DesignPart::Header => &d.header,
            DesignPart::Column => &d.column,
            DesignPart::Cell => &d.cell,
        },
    };
    match style {
        Some(StyleElement { color: Some(hex) }) => match parse_hex_color(hex.as_str()) {
            Ok(c) => Some(c),
            Err(_) => None,
        },
        _ => None,
    }
}

/// The lines that wrapping each line at `width` gives, in order.
pub open spec fn wrapped_all(lines: Seq<Seq<char>>, width: nat) -> Seq<Seq<char>>
    decreases lines.len(),
{
    if lines.len() == 0 {
        Seq::empty()
    } else {
        wrapped_all(lines.drop_last(), width) + wrapped(lines.last(), width)
    }
}

/// The text without its trailing dots.
pub open spec fn trim_dots(s: Seq<char>) -> Seq<char>
    decreases s.len(),
{
    if s.len() > 0 && s.last() == '.' {
        trim_dots(s.drop_last())
    } else {
        s
    }
}

pub open spec fn ellipsis() -> Seq<char> {
    seq!['.', '.', '.']
}

/// At most `max` lines; where some were cut, the last kept line ends in an
/// ellipsis instead of its own dots.
pub open spec fn truncated(lines: Seq<Seq<char>>, max: nat) -> Seq<Seq<char>> {
    if lines.len() <= max {
        lines
    } else if max == 0 {
        Seq::empty()
    } else {
        lines.take(max as int).update(max - 1, trim_dots(lines[max - 1]) + ellipsis())
    }
}

/// The lines joined by newlines.
pub open spec fn joined(lines: Seq<Seq<char>>) -> Seq<char>
    decreases lines.len(),
{
    if lines.len() == 0 {
        Seq::empty()
    } else if lines.len() == 1 {
        lines[0]
    } else {
        joined(lines.drop_last()) + seq!['\n'] + lines.last()
    }
}

fn trim_trailing_dots(s: &String) -> (r: String)
    ensures
        r@ == trim_dots(s@),
{
    let mut end = s.as_str().unicode_len();
    assert(s@.subrange(0, end as int) =~= s@);
    while end > 0 && s.as_str().get_char(end - 1) == '.'
        invariant
            end <= s@.len(),
            trim_dots(s@) == trim_dots(s@.subrange(0, end as int)),
        decreases end,
    {
        assert(s@.subrange(0, end as int).drop_last() =~= s@.subrange(0, end - 1));
        end -= 1;
    }
    String::from_str(s.as_str().substring_char(0, end))
}

fn join_lines(lines: &Vec<String>, count: usize) -> (r: String)
    requires
        count <= lines@.len(),
    ensures
        r@ == joined(lines.deep_view().take(count as int)),
{
    let mut out = String::new();
    let mut i: usize = 0;
    assert(lines.deep_view().take(0) =~= Seq::<Seq<char>>::empty());
    while i < count
        invariant
            i <= count <= lines@.len(),
            out@ == joined(lines.deep_view().take(i as int)),
        decreases count - i,
    {
        let ghost prev = lines.deep_view().take(i as int);
        let ghost next = lines.deep_view().take(i + 1);
        assert(next.drop_last() =~= prev);
        if i > 0 {
            out.append("\n");
            proof {
                reveal_strlit("\n");
            }
        }
        out.append(lines[i].as_str());
        assert(out@ =~= joined(next));
        i += 1;
    }
    out
}

/// Keeps at most `max_lines` lines, ending the last kept one in `...` where
/// lines were cut, and joins them with newlines.
pub fn truncate_lines(lines: &Vec<String>, max_lines: usize) -> (r: String)
    ensures
        r@ == joined(truncated(lines.deep_view(), max_lines as nat)),
{
    if lines.len() <= max_lines {
        assert(lines.deep_view().take(lines@.len() as int) =~= lines.deep_view());
        return join_lines(lines, lines.len());
    }
    if max_lines == 0 {
        return String::new();
    }
    let mut kept: Vec<String> = Vec::new();
    let mut i: usize = 0;
    while i < max_lines - 1
        invariant
            max_lines < lines@.len(),
            i <= max_lines - 1,
            kept@.len() == i,
            forall|k: int| 0 <= k < i ==> #[trigger] kept@[k]@ == lines@[k]@,
        decreases max_lines - 1 - i,
    {
        kept.push(lines[i].clone());
        i += 1;
    }
    let mut last = trim_trailing_dots(&lines[max_lines - 1]);
    last.append("...");
    proof {
        reveal_strlit("...");
    }
    assert(last@ =~= trim_dots(lines@[max_lines - 1]@) + ellipsis());
    kept.push(last);
    assert(kept@[max_lines - 1]@ == trim_dots(lines.deep_view()[max_lines - 1]) + ellipsis());
    assert(kept.deep_view() =~= truncated(lines.deep_view(), max_lines as nat));
    assert(kept.deep_view().take(kept@.len() as int) =~= kept.deep_view());
    join_lines(&kept, kept.len())
}

/// All the wrapped lines of a text.
fn wrap_text(text: &str) -> (r: Vec<String>)
    ensures
        r.deep_view() == wrapped_all(lines_of(text@), WRAP_WIDTH as nat),
{
    let lines = split_lines(text);
    let mut out: Vec<String> = Vec::new();
    let mut i: usize = 0;
    assert(lines.deep_view().take(0) =~= Seq::<Seq<char>>::empty());
    while i < lines.len()
        invariant
            i <= lines@.len(),
            out.deep_view() == wrapped_all(lines.deep_view().take(i as int), WRAP_WIDTH as nat),
        decreases lines.len() - i,
    {
        let pieces = wrap_line(lines[i].as_str(), WRAP_WIDTH);
        let ghost before = out.deep_view();
        let mut k: usize = 0;
        while k < pieces.len()
            invariant
                k <= pieces@.len(),
                out.deep_view() =~= before + pieces.deep_view().take(k as int),
            decreases pieces.len() - k,
        {
            let ghost prev = out.deep_view();
            out.push(pieces[k].clone());
            assert(out.deep_view() =~= prev.push(pieces@[k as int]@));
            assert(pieces.deep_view().take(k + 1) =~= pieces.deep_view().take(k as int).push(pieces@[k as int]@));
            assert(out.deep_view() =~= before + pieces.deep_view().take(k + 1));
            k += 1;
        }
        assert(pieces.deep_view().take(k as int) =~= pieces.deep_view());
        assert(lines.deep_view().take(i + 1).drop_last() =~= lines.deep_view().take(i as int));
        i += 1;
    }
    assert(lines.deep_view().take(i as int) =~= lines.deep_view());
    out
}

/// A cell's text wrapped at the fixed width and cut to `max_lines` lines.
pub fn wrap_and_truncate(text: &str, max_lines: usize) -> (r: String)
    ensures
        r@ == joined(truncated(wrapped_all(lines_of(text@), WRAP_WIDTH as nat), max_lines as nat)),
{
    let lines = wrap_text(text);
    truncate_lines(&lines, max_lines)
}

/// The display text of every cell of a table.
pub fn display_cells(rows: &Vec<Vec<String>>, max_lines: usize) -> (r: Vec<Vec<String>>)
    ensures
        r@.len() == rows@.len(),
        forall|i: int| 0 <= i < rows@.len() ==> #[trigger] r@[i]@.len() == rows@[i]@.len(),
        forall|i: int, j: int| 0 <= i < rows@.len() && 0 <= j < rows@[i]@.len() ==>
            #[trigger] r@[i]@[j]@ == joined(truncated(wrapped_all(lines_of(rows@[i]@[j]@), WRAP_WIDTH as nat), max_lines as nat)),
{
    let mut out: Vec<Vec<String>> = Vec::new();
    let mut i: usize = 0;
    while i < rows.len()
        invariant
            i <= rows@.len(),
            out@.len() == i,
            forall|a: int| 0 <= a < i ==> #[trigger] out@[a]@.len() == rows@[a]@.len(),
            forall|a: int, b: int| 0 <= a < i && 0 <= b < rows@[a]@.len() ==>
                #[trigger] out@[a]@[b]@ == joined(truncated(wrapped_all(lines_of(rows@[a]@[b]@), WRAP_WIDTH as nat), max_lines as nat)),
        decreases rows.len() - i,
    {
        let mut row: Vec<String> = Vec::new();
        let mut j: usize = 0;
        while j < rows[i].len()
            invariant
                i < rows@.len(),
                j <= rows@[i as int]@.len(),
                row@.len() == j,
                forall|b: int| 0 <= b < j ==>
                    #[trigger] row@[b]@ == joined(truncated(wrapped_all(lines_of(rows@[i as int]@[b]@), WRAP_WIDTH as nat), max_lines as nat)),
            decreases rows@[i as int]@.len() - j,
        {
            row.push(wrap_and_truncate(rows[i][j].as_str(), max_lines));
            j += 1;
        }
        out.push(row);
        i += 1;
    }
    out
}

/// The percentage of the space that each of `count` equal parts gets.
pub fn even_share(count: usize) -> (r: u16)
    requires
        0 < count <= u16::MAX,
    ensures
        r as int == 100int / (count as int),
{
    100 / (count as u16)
}

} // verus!
