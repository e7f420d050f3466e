use vstd::prelude::*;
use crate::text::{decimal, digit_char};
use crate::textscan::{
    find_from, occurs_at, parse_u32, digits_from, is_digit, digit_value, trim, ws_run, ws_run_back, is_ws,
    is_float_literal, lines_from, line_end, line_at, lemma_line_end_bounds,
};
use crate::labelplus::{marker_of, marker_sep, is_marker_header, index_text, coord_text, comma_positions,
    char_run, char_run_back, lemma_dash_run, lemma_comma_positions};
use crate::labelplus_export::{marker_block, page_section, crlf_lines, ExportMarker, style_name, type_names_for,
    type_of_style, first_index};
use crate::labelplus::{cfg, default_type_mappings, type_block_end, type_list};
use crate::labelplus_export::export_head;
use crate::language::{Language, language_name};
use crate::labelplus_import::first_style_from;
use crate::labelplus::{is_image_header, header_name};
use crate::labelplus_laws::lemma_line_end_at;

verus! {

/// Every char of a decimal text is a digit.
proof fn lemma_decimal_digits(n: nat)
    ensures
        decimal(n).len() >= 1,
        forall|i: int| 0 <= i < decimal(n).len() ==> is_digit(#[trigger] decimal(n)[i]),
    decreases n,
{
    if n >= 10 {
        lemma_decimal_digits(n / 10);
        let d = decimal(n / 10);
        assert forall|i: int| 0 <= i < decimal(n).len() implies is_digit(#[trigger] decimal(n)[i]) by {
            if i < d.len() {
                assert(decimal(n)[i] == d[i]);
            } else {
                assert(digit_char((n % 10) as int) as int == 48 + n % 10);
            }
        }
    } else {
        assert(digit_char(n as int) as int == 48 + n);
    }
}

/// Reading digits with one more digit at the end: the value so far, times
/// ten, plus that digit (unless that overflows).
proof fn lemma_digits_push(s: Seq<char>, c: char, i: int, acc: int)
    requires
        0 <= i <= s.len(),
        0 <= acc <= u32::MAX,
        is_digit(c),
    ensures
        digits_from(s.push(c), i, acc) == (match digits_from(s, i, acc) {
            Ok(v) => if v * 10 + digit_value(c) > u32::MAX {
                Err(crate::textscan::IntError::PosOverflow)
            } else {
                Ok((v * 10 + digit_value(c)) as u32)
            },
            Err(e) => Err(e),
        }),
    decreases s.len() - i,
{
    let t = s.push(c);
    if i < s.len() {
        assert(t[i] == s[i]);
        if is_digit(s[i]) && acc * 10 + digit_value(s[i]) <= u32::MAX {
            lemma_digits_push(s, c, i + 1, acc * 10 + digit_value(s[i]));
        }
    } else {
        assert(t[i] == c);
        if acc * 10 + digit_value(c) <= u32::MAX {
            assert(digits_from(t, i + 1, acc * 10 + digit_value(c)) == Ok::<u32, crate::textscan::IntError>(
                (acc * 10 + digit_value(c)) as u32,
            ));
        }
    }
}

/// A number's decimal text reads back as the number.
proof fn lemma_parse_decimal(n: nat)
    requires
        n <= u32::MAX,
    ensures
        digits_from(decimal(n), 0, 0) == Ok::<u32, crate::textscan::IntError>(n as u32),
        parse_u32(decimal(n)) == Ok::<u32, crate::textscan::IntError>(n as u32),
    decreases n,
{
    lemma_decimal_digits(n);
    let d = decimal(n);
    if n < 10 {
        assert(digit_value(d[0]) == n) by {
            assert(digit_char(n as int) as int == 48 + n);
        }
        assert(digits_from(d, 1, n as int) == Ok::<u32, crate::textscan::IntError>(n as u32));
    } else {
        lemma_parse_decimal(n / 10);
        let c = digit_char((n % 10) as int);
        assert(c as int == 48 + n % 10);
        assert(is_digit(c));
        lemma_digits_push(decimal(n / 10), c, 0, 0);
        assert((n / 10) * 10 + n % 10 == n);
    }
    assert(is_digit(d[0]));
}

/// Digits have no white space around them.
proof fn lemma_trim_digits(t: Seq<char>)
    requires
        t.len() >= 1,
        forall|i: int| 0 <= i < t.len() ==> is_digit(#[trigger] t[i]),
    ensures
        trim(t) == t,
{
    assert(!is_ws(t[0]));
    assert(ws_run(t, 0) == 0);
    assert(!is_ws(t[t.len() - 1]));
    assert(ws_run_back(t, t.len() as int, 0) == t.len());
    assert(t.subrange(0, t.len() as int) =~= t);
}

/// The first occurrence of `pat` at or after `i` is at `p`.
proof fn lemma_find_at(s: Seq<char>, pat: Seq<char>, i: int, p: int)
    requires
        0 <= i <= p,
        p + pat.len() <= s.len(),
        forall|j: int| i <= j < p ==> !occurs_at(s, pat, j),
        occurs_at(s, pat, p),
    ensures
        find_from(s, pat, i) == Some(p),
    decreases p - i,
{
    if i < p {
        lemma_find_at(s, pat, i + 1, p);
    }
}

/// No occurrence of `pat` at or after `i`.
proof fn lemma_find_none(s: Seq<char>, pat: Seq<char>, i: int)
    requires
        0 <= i,
        forall|j: int| i <= j ==> !occurs_at(s, pat, j),
    ensures
        find_from(s, pat, i) is None,
    decreases s.len() - i,
{
    if i + pat.len() <= s.len() && i < s.len() {
        lemma_find_none(s, pat, i + 1);
    }
}

/// All chars of `t` are digits, and there is one at least.
spec fn all_digits(t: Seq<char>) -> bool {
    t.len() >= 1 && forall|i: int| 0 <= i < t.len() ==> is_digit(#[trigger] t[i])
}

/// A coordinate text holds no comma, closing bracket or line break.
spec fn plain_coord(x: Seq<char>) -> bool {
    forall|i: int| 0 <= i < x.len() ==> #[trigger] x[i] != ',' && x[i] != ']' && x[i] != '\n'
}

/// The coordinate part of a marker header: `x,y,t`.
spec fn coord_part(x: Seq<char>, y: Seq<char>, tt: Seq<char>) -> Seq<char> {
    x + seq![','] + y + seq![','] + tt
}

/// A marker header with number text `dd`, coordinates `x`, `y` and type
/// text `tt`.
spec fn header_of(dd: Seq<char>, x: Seq<char>, y: Seq<char>, tt: Seq<char>) -> Seq<char> {
    "----------------["@ + dd + "]----------------["@ + coord_part(x, y, tt) + seq![']']
}

/// Where each char of a marker header comes from.
proof fn lemma_header_layout(dd: Seq<char>, x: Seq<char>, y: Seq<char>, tt: Seq<char>)
    requires
        all_digits(dd),
        all_digits(tt),
    ensures
        ({
            let h = header_of(dd, x, y, tt);
            let c = coord_part(x, y, tt);
            let p: int = 17 + dd.len() as int;
            let q: int = p + 18;
            &&& h.len() == q + c.len() + 1
            &&& forall|i: int| 0 <= i < 16 ==> #[trigger] h[i] == '-'
            &&& h[16] == '['
            &&& forall|i: int| 17 <= i < p ==> #[trigger] h[i] == dd[i - 17]
            &&& h.subrange(p, q) == marker_sep()
            &&& forall|i: int| q <= i < q + c.len() ==> #[trigger] h[i] == c[i - q]
            &&& h[h.len() - 1] == ']'
            &&& h.subrange(0, 17) == "----------------["@
        }),
{
    reveal_strlit("----------------[");
    reveal_strlit("]----------------[");
    let pre = "----------------["@;
    let sep = "]----------------["@;
    let h = header_of(dd, x, y, tt);
    let c = coord_part(x, y, tt);
    let p: int = 17 + dd.len() as int;
    assert(h =~= pre + dd + sep + c + seq![']']);
    assert forall|i: int| 0 <= i < 16 implies #[trigger] h[i] == '-' by {
        assert(h[i] == pre[i]);
    }
    assert(h.subrange(p, p + 18) =~= sep);
    assert(h.subrange(0, 17) =~= pre);
}

/// The chars of the coordinate part: commas only between the parts, no
/// closing bracket or line break.
proof fn lemma_coord_chars(x: Seq<char>, y: Seq<char>, tt: Seq<char>)
    requires
        plain_coord(x),
        plain_coord(y),
        all_digits(tt),
    ensures
        ({
            let c = coord_part(x, y, tt);
            let a = x.len() as int;
            let b: int = a + 1 + y.len() as int;
            &&& c.len() == b + 1 + tt.len()
            &&& forall|i: int|
                0 <= i < c.len() ==> (#[trigger] c[i] == ',' <==> (i == a || i == b)) && c[i] != ']' && c[i] != '\n'
            &&& c.subrange(0, a) == x
            &&& c.subrange(a + 1, b) == y
            &&& c.subrange(b + 1, c.len() as int) == tt
        }),
{
    let c = coord_part(x, y, tt);
    let a = x.len() as int;
    let b: int = a + 1 + y.len() as int;
    assert forall|i: int| 0 <= i < c.len() implies (#[trigger] c[i] == ',' <==> (i == a || i == b)) && c[i] != ']'
        && c[i] != '\n' by {
        if i < a {
            assert(c[i] == x[i]);
        } else if i == a {
        } else if i < b {
            assert(c[i] == y[i - a - 1]);
        } else if i == b {
        } else {
            assert(c[i] == tt[i - b - 1]);
            assert(is_digit(tt[i - b - 1]));
        }
    }
    assert(c.subrange(0, a) =~= x);
    assert(c.subrange(a + 1, b) =~= y);
    assert(c.subrange(b + 1, c.len() as int) =~= tt);
}

/// The coordinate part has exactly its two commas.
proof fn lemma_coord_commas(x: Seq<char>, y: Seq<char>, tt: Seq<char>)
    requires
        plain_coord(x),
        plain_coord(y),
        all_digits(tt),
    ensures
        comma_positions(coord_part(x, y, tt)) == seq![x.len() as int, x.len() as int + 1 + y.len() as int],
{
    broadcast use vstd::seq_lib::group_filter_ensures;

    lemma_coord_chars(x, y, tt);
    let c = coord_part(x, y, tt);
    let a = x.len() as int;
    let b: int = a + 1 + y.len() as int;
    let cp = comma_positions(c);
    lemma_comma_positions(c);
    let v = Seq::new(c.len(), |i: int| i);
    let f = |i: int| c[i] == ',';
    assert(v.filter(f) == cp);
    assert(v[a] == a && f(a));
    assert(v[b] == b && f(b));
    assert(v.contains(v[a]));
    assert(cp.contains(a));
    assert(cp.contains(b));
    assert forall|i: int| 0 <= i < cp.len() implies #[trigger] cp[i] == a || cp[i] == b by {}
    if cp.len() > 2 {
        assert(cp[0] < cp[1] && cp[1] < cp[2]);
    }
    let ia = choose|i: int| 0 <= i < cp.len() && cp[i] == a;
    let ib = choose|i: int| 0 <= i < cp.len() && cp[i] == b;
    assert(ia != ib);
    assert(cp.len() == 2);
    assert(cp[0] < cp[1]);
    assert(cp =~= seq![a, b]);
}

/// In a marker header, the separator is met right after the number, and
/// not again after it.
proof fn lemma_header_separator(dd: Seq<char>, x: Seq<char>, y: Seq<char>, tt: Seq<char>)
    requires
        all_digits(dd),
        all_digits(tt),
        plain_coord(x),
        plain_coord(y),
    ensures
        find_from(header_of(dd, x, y, tt), marker_sep(), 0) == Some(17 + dd.len() as int),
        find_from(header_of(dd, x, y, tt), marker_sep(), 17 + dd.len() as int + 18) is None,
{
    reveal_strlit("]----------------[");
    lemma_header_layout(dd, x, y, tt);
    lemma_coord_chars(x, y, tt);
    let h = header_of(dd, x, y, tt);
    let c = coord_part(x, y, tt);
    let sep = marker_sep();
    let p: int = 17 + dd.len() as int;
    let q: int = p + 18;
    assert(sep[0] == ']');
    assert forall|j: int| 0 <= j < p implies !occurs_at(h, sep, j) by {
        if occurs_at(h, sep, j) {
            assert(h.subrange(j, j + 18)[0] == h[j]);
            if 17 <= j {
                assert(is_digit(dd[j - 17]));
            }
        }
    }
    lemma_find_at(h, sep, 0, p);
    assert forall|j: int| q <= j implies !occurs_at(h, sep, j) by {
        if occurs_at(h, sep, j) {
            assert(h.subrange(j, j + 18)[0] == h[j]);
            assert(h[j] == c[j - q]);
        }
    }
    lemma_find_none(h, sep, q);
}

/// The number text and the coordinate text that reading takes from a
/// marker header.
proof fn lemma_header_parts(dd: Seq<char>, x: Seq<char>, y: Seq<char>, tt: Seq<char>)
    requires
        all_digits(dd),
        all_digits(tt),
    ensures
        index_text(header_of(dd, x, y, tt), 17 + dd.len() as int) == dd,
        coord_text(header_of(dd, x, y, tt), 17 + dd.len() as int) == coord_part(x, y, tt),
{
    lemma_header_layout(dd, x, y, tt);
    let h = header_of(dd, x, y, tt);
    let c = coord_part(x, y, tt);
    let p: int = 17 + dd.len() as int;
    let q: int = p + 18;
    lemma_dash_run(h);
    let hp = h.subrange(0, p);
    assert(hp[16] == '[');
    assert(hp[17] == dd[0]);
    assert(is_digit(dd[0]));
    assert(char_run(hp, 17, '[') == 17);
    assert(char_run(hp, 16, '[') == 17);
    assert(index_text(h, p) =~= dd);
    let r = h.subrange(q, h.len() as int);
    assert(r =~= c + seq![']']);
    assert(r[r.len() - 2] == tt[tt.len() - 1]);
    assert(is_digit(tt[tt.len() - 1]));
    assert(char_run_back(r, r.len() - 1, 0, ']') == r.len() - 1);
    assert(char_run_back(r, r.len() as int, 0, ']') == r.len() - 1);
    assert(coord_text(h, p) =~= c);
}

/// The first line of an exported marker's block is its header.
proof fn lemma_block_first_line(k: int, m: ExportMarker)
    requires
        0 <= k,
        plain_coord(m.0),
        plain_coord(m.1),
    ensures
        lines_from(marker_block(k, m), 0)[0] == header_of(decimal((k + 1) as nat), m.0, m.1, decimal(m.2 as nat)),
{
    reveal_strlit("----------------[");
    reveal_strlit("]----------------[");
    reveal_strlit(",");
    reveal_strlit("]\r\n");
    let dd = decimal((k + 1) as nat);
    let tt = decimal(m.2 as nat);
    lemma_decimal_digits((k + 1) as nat);
    lemma_decimal_digits(m.2 as nat);
    lemma_header_layout(dd, m.0, m.1, tt);
    lemma_coord_chars(m.0, m.1, tt);
    let h = header_of(dd, m.0, m.1, tt);
    let c = coord_part(m.0, m.1, tt);
    let p: int = 17 + dd.len() as int;
    let q: int = p + 18;
    let block = marker_block(k, m);
    let rest = crate::labelplus_export::crlf_lines(lines_from(m.3, 0));
    assert(block =~= h + seq!['\r', '\n'] + rest);
    assert forall|j: int| 0 <= j < h.len() + 1 implies block[j] != '\n' by {
        if j < h.len() {
            assert(block[j] == h[j]);
            if 17 <= j < p {
                assert(is_digit(dd[j - 17]));
            } else if q <= j < q + c.len() {
                assert(h[j] == c[j - q]);
            }
        }
    }
    lemma_line_end_at(block, 0, h.len() as int + 1);
    assert(line_at(block, 0, h.len() as int + 1) =~= h);
}

/// Exporting a marker and reading back the header line of its block gives
/// the marker's number, its x coordinate text as x and its y coordinate text
/// as y (each trimmed, as reading trims), and its type: the header names the
/// x coordinate first. The coordinate texts are those of numbers, holding no
/// comma, closing bracket or line break.
pub proof fn law_exported_marker_header_reads_back(k: int, m: ExportMarker, ntypes: nat)
    requires
        0 <= k < u32::MAX,
        1 <= m.2 <= ntypes,
        forall|i: int| 0 <= i < m.0.len() ==> #[trigger] m.0[i] != ',' && m.0[i] != ']' && m.0[i] != '\n',
        forall|i: int| 0 <= i < m.1.len() ==> #[trigger] m.1[i] != ',' && m.1[i] != ']' && m.1[i] != '\n',
        is_float_literal(trim(m.0)),
        is_float_literal(trim(m.1)),
    ensures
        ({
            let l = lines_from(marker_block(k, m), 0)[0];
            &&& is_marker_header(l)
            &&& marker_of(l, ntypes) == Ok::<(u32, Seq<char>, Seq<char>, u32), (Seq<char>, Seq<char>)>(
                ((k + 1) as u32, trim(m.0), trim(m.1), m.2),
            )
        }),
{
    let n = (k + 1) as nat;
    let dd = decimal(n);
    let tt = decimal(m.2 as nat);
    assert(plain_coord(m.0));
    assert(plain_coord(m.1));
    lemma_decimal_digits(n);
    lemma_decimal_digits(m.2 as nat);
    lemma_parse_decimal(n);
    lemma_parse_decimal(m.2 as nat);
    lemma_block_first_line(k, m);
    lemma_header_layout(dd, m.0, m.1, tt);
    lemma_header_separator(dd, m.0, m.1, tt);
    lemma_header_parts(dd, m.0, m.1, tt);
    lemma_coord_commas(m.0, m.1, tt);
    lemma_coord_chars(m.0, m.1, tt);
    lemma_trim_digits(tt);
    let h = header_of(dd, m.0, m.1, tt);
    let c = coord_part(m.0, m.1, tt);
    assert(crate::textscan::starts_with(h, "----------------["@));
    assert(comma_positions(c).len() == 2);
}

/// Exporting a page and reading back the first line of its section gives a
/// page header naming that page (a name holding no line break).
pub proof fn law_exported_page_header_reads_back(name: Seq<char>, mm: Map<Seq<char>, Seq<ExportMarker>>)
    requires
        forall|i: int| 0 <= i < name.len() ==> #[trigger] name[i] != '\n',
    ensures
        ({
            let l = lines_from(page_section(name, mm), 0)[0];
            is_image_header(l) && header_name(l) == name
        }),
{
    reveal_strlit(">>>>>>>>[");
    reveal_strlit("]<<<<<<<<");
    reveal_strlit("]<<<<<<<<\r\n");
    let h = ">>>>>>>>["@ + name + "]<<<<<<<<"@;
    let sec = page_section(name, mm);
    let rest = sec.subrange(h.len() as int + 2, sec.len() as int);
    assert(sec =~= h + seq!['\r', '\n'] + rest);
    assert forall|j: int| 0 <= j < h.len() + 1 implies sec[j] != '\n' by {
        if j < h.len() {
            assert(sec[j] == h[j]);
            if 9 <= j < 9 + name.len() {
                assert(h[j] == name[j - 9]);
            }
        }
    }
    lemma_line_end_at(sec, 0, h.len() as int + 1);
    assert(line_at(sec, 0, h.len() as int + 1) =~= h);
    assert(h.subrange(0, 9) =~= ">>>>>>>>["@);
    assert(h.subrange(h.len() - 9, h.len() as int) =~= "]<<<<<<<<"@);
    assert(h.subrange(9, h.len() - 9) =~= name);
}

/// A line ends inside a text that ends with a line break, whatever follows.
proof fn lemma_line_end_prefix(a: Seq<char>, b: Seq<char>, i: int)
    requires
        0 <= i < a.len(),
        a[a.len() - 1] == '\n',
    ensures
        line_end(a + b, i) == line_end(a, i),
        line_end(a, i) < a.len(),
    decreases a.len() - i,
{
    let s = a + b;
    assert(s[i] == a[i]);
    if a[i] != '\n' {
        lemma_line_end_prefix(a, b, i + 1);
    }
}

/// The lines of a text that ends with a line break (or is empty), followed
/// by more text: its lines, then the lines of what follows.
proof fn lemma_lines_from_concat(a: Seq<char>, b: Seq<char>, i: int)
    requires
        0 <= i <= a.len(),
        a.len() == 0 || a[a.len() - 1] == '\n',
    ensures
        lines_from(a + b, i) == lines_from(a, i) + lines_from(b, 0),
    decreases a.len() - i,
{
    let s = a + b;
    if i == a.len() {
        crate::labelplus_laws::lemma_lines_from_shift(a, b, 0);
        assert(lines_from(a, i) =~= Seq::<Seq<char>>::empty());
        assert(lines_from(a, i) + lines_from(b, 0) =~= lines_from(b, 0));
    } else {
        lemma_line_end_prefix(a, b, i);
        lemma_line_end_bounds(a, i);
        let j = line_end(a, i);
        assert(line_at(s, i, j) =~= line_at(a, i, j)) by {
            if j > i {
                assert(s[j - 1] == a[j - 1]);
            }
        }
        lemma_lines_from_concat(a, b, j + 1);
        assert(lines_from(s, i) =~= seq![line_at(a, i, j)] + lines_from(s, j + 1));
        assert(lines_from(a, i) =~= seq![line_at(a, i, j)] + lines_from(a, j + 1));
    }
}

/// Lines written one per CRLF-ended line read back as the same lines, when
/// none holds a line break: this is how an exported file's type names and
/// each marker's translation lines come back.
pub proof fn law_crlf_lines_read_back(ls: Seq<Seq<char>>)
    requires
        forall|k: int, j: int| 0 <= k < ls.len() && 0 <= j < ls[k].len() ==> #[trigger] ls[k][j] != '\n',
    ensures
        lines_from(crlf_lines(ls), 0) == ls,
        crlf_lines(ls).len() == 0 || crlf_lines(ls)[crlf_lines(ls).len() - 1] == '\n',
    decreases ls.len(),
{
    reveal_strlit("\r\n");
    if ls.len() == 0 {
        assert(lines_from(crlf_lines(ls), 0) =~= ls);
    } else {
        let p = ls.drop_last();
        assert forall|k: int, j: int| 0 <= k < p.len() && 0 <= j < p[k].len() implies #[trigger] p[k][j] != '\n' by {
            assert(p[k] == ls[k]);
        }
        law_crlf_lines_read_back(p);
        let a = crlf_lines(p);
        let l = ls.last();
        let t = l + seq!['\r', '\n'];
        assert(crlf_lines(ls) =~= a + t);
        lemma_lines_from_concat(a, t, 0);
        assert forall|j: int| 0 <= j < l.len() + 1 implies t[j] != '\n' by {
            if j < l.len() {
                assert(t[j] == l[j]);
                assert(ls[ls.len() - 1][j] != '\n');
            }
        }
        lemma_line_end_at(t, 0, l.len() as int + 1);
        assert(line_at(t, 0, l.len() as int + 1) =~= l);
        assert(lines_from(t, l.len() as int + 2) =~= Seq::<Seq<char>>::empty());
        assert(lines_from(t, 0) =~= seq![l]);
        assert(ls =~= p + seq![l]);
        assert((a + t)[(a + t).len() - 1] == '\n');
    }
}

/// A layout's type name, as exported, is read back as that layout on
/// import.
pub proof fn law_layout_name_reads_back(key: (bool, bool))
    ensures
        first_style_from(default_type_mappings(), style_name(key), 0) == Some(cfg(key.0, key.1)),
{
    reveal_strlit("inside+vertical");
    reveal_strlit("overlay+vertical");
    reveal_strlit("inside+horizontal");
    reveal_strlit("overlay+horizontal");
    let ms = default_type_mappings();
    let n0 = "inside+vertical"@;
    let n1 = "overlay+vertical"@;
    let n2 = "inside+horizontal"@;
    let n3 = "overlay+horizontal"@;
    assert(n0 != n1) by {
        assert(n0[0] != n1[0]);
    }
    assert(n0 != n2) by {
        assert(n0.len() != n2.len());
    }
    assert(n0 != n3) by {
        assert(n0.len() != n3.len());
    }
    assert(n1 != n2) by {
        assert(n1[0] != n2[0]);
    }
    assert(n1 != n3) by {
        assert(n1.len() != n3.len());
    }
    assert(n2 != n3) by {
        assert(n2[0] != n3[0]);
    }
    assert(ms[0] == (n0, cfg(false, false)));
    assert(ms[1] == (n1, cfg(true, false)));
    assert(ms[2] == (n2, cfg(false, true)));
    assert(ms[3] == (n3, cfg(true, true)));
    if key == (false, false) {
        assert(style_name(key) == n0);
    } else if key == (true, false) {
        assert(crate::labelplus_export::name_for_style_from(ms, key, 1) == Some(n1));
        assert(crate::labelplus_export::name_for_style_from(ms, key, 0) == Some(n1));
        assert(style_name(key) == n1);
        assert(first_style_from(ms, n1, 1) == Some(cfg(true, false)));
    } else if key == (false, true) {
        assert(crate::labelplus_export::name_for_style_from(ms, key, 2) == Some(n2));
        assert(crate::labelplus_export::name_for_style_from(ms, key, 1) == Some(n2));
        assert(crate::labelplus_export::name_for_style_from(ms, key, 0) == Some(n2));
        assert(style_name(key) == n2);
        assert(first_style_from(ms, n2, 2) == Some(cfg(false, true)));
        assert(first_style_from(ms, n2, 1) == Some(cfg(false, true)));
    } else {
        assert(key == (true, true));
        assert(crate::labelplus_export::name_for_style_from(ms, key, 3) == Some(n3));
        assert(crate::labelplus_export::name_for_style_from(ms, key, 2) == Some(n3));
        assert(crate::labelplus_export::name_for_style_from(ms, key, 1) == Some(n3));
        assert(crate::labelplus_export::name_for_style_from(ms, key, 0) == Some(n3));
        assert(style_name(key) == n3);
        assert(first_style_from(ms, n3, 3) == Some(cfg(true, true)));
        assert(first_style_from(ms, n3, 2) == Some(cfg(true, true)));
        assert(first_style_from(ms, n3, 1) == Some(cfg(true, true)));
    }
}

/// Where a layout first occurs in a list that holds it.
proof fn lemma_first_index(s: Seq<(bool, bool)>, x: (bool, bool))
    requires
        s.contains(x),
    ensures
        0 <= first_index(s, x) < s.len(),
        s[first_index(s, x)] == x,
        forall|j: int| 0 <= j < first_index(s, x) ==> s[j] != x,
    decreases s.len(),
{
    if s[0] != x {
        let t = s.drop_first();
        let i = choose|i: int| 0 <= i < s.len() && s[i] == x;
        assert(t[i - 1] == x);
        lemma_first_index(t, x);
        assert forall|j: int| 0 <= j < first_index(s, x) implies s[j] != x by {
            if j > 0 {
                assert(s[j] == t[j - 1]);
            }
        }
    }
}

/// The type number an exported marker is written with names its layout:
/// the number is that of a written type, and the type written under that
/// number is the layout's name (unless the layout is past the eighth met
/// and there are more than nine, which all share the ninth type `others`);
/// a layout never met is written as type 1. Different layouts among the
/// first nine met get different numbers.
pub proof fn law_type_number_names_layout(styles: Seq<(bool, bool)>, key: (bool, bool), other: (bool, bool))
    requires
        styles.no_duplicates(),
    ensures
        !styles.contains(key) ==> type_of_style(styles, key) == 1,
        styles.contains(key) ==> 1 <= type_of_style(styles, key) <= type_names_for(styles).len(),
        styles.contains(key) && (styles.len() <= 9 || first_index(styles, key) < 8) ==> type_names_for(
            styles,
        )[type_of_style(styles, key) - 1] == style_name(key),
        styles.contains(key) && styles.contains(other) && key != other && first_index(styles, key) < 8
            && first_index(styles, other) < 8 ==> type_of_style(styles, key) != type_of_style(styles, other),
{
    if styles.contains(key) {
        lemma_first_index(styles, key);
    }
    if styles.contains(other) {
        lemma_first_index(styles, other);
    }
}

/// Writing two lists of lines one after the other.
proof fn lemma_crlf_concat(a: Seq<Seq<char>>, b: Seq<Seq<char>>)
    ensures
        crlf_lines(a + b) == crlf_lines(a) + crlf_lines(b),
    decreases b.len(),
{
    if b.len() == 0 {
        assert(a + b =~= a);
        assert(crlf_lines(a) + crlf_lines(b) =~= crlf_lines(a));
    } else {
        lemma_crlf_concat(a, b.drop_last());
        assert((a + b).drop_last() =~= a + b.drop_last());
        assert((a + b).last() == b.last());
        assert(crlf_lines(a + b) =~= crlf_lines(a) + crlf_lines(b));
    }
}

/// A text that neither starts nor ends with white space is its own trim.
proof fn lemma_trim_plain(t: Seq<char>)
    requires
        t.len() >= 1,
        !is_ws(t[0]),
        !is_ws(t[t.len() - 1]),
    ensures
        trim(t) == t,
{
    assert(ws_run(t, 0) == 0);
    assert(ws_run_back(t, t.len() as int, 0) == t.len());
    assert(t.subrange(0, t.len() as int) =~= t);
}

/// A type name as exported: no line break, not blank-padded, never `-`.
spec fn plain_name(n: Seq<char>) -> bool {
    &&& forall|j: int| 0 <= j < n.len() ==> #[trigger] n[j] != '\n'
    &&& trim(n) == n
    &&& n != "-"@
}

/// A literal name of two chars or more, of letters and `+`.
proof fn lemma_plain_literal(n: Seq<char>)
    requires
        n.len() >= 2,
        forall|j: int| 0 <= j < n.len() ==> ('a' <= #[trigger] n[j] <= 'z') || n[j] == '+',
    ensures
        plain_name(n),
{
    reveal_strlit("-");
    assert(!is_ws(n[0]));
    assert(!is_ws(n[n.len() - 1]));
    lemma_trim_plain(n);
    assert(n.len() != "-"@.len());
}

/// Every exported type name is plain.
proof fn lemma_type_names_plain(styles: Seq<(bool, bool)>)
    ensures
        forall|k: int| 0 <= k < type_names_for(styles).len() ==> plain_name(#[trigger] type_names_for(styles)[k]),
{
    reveal_strlit("inside+vertical");
    reveal_strlit("overlay+vertical");
    reveal_strlit("inside+horizontal");
    reveal_strlit("overlay+horizontal");
    reveal_strlit("fallback");
    reveal_strlit("others");
    lemma_plain_literal("inside+vertical"@);
    lemma_plain_literal("overlay+vertical"@);
    lemma_plain_literal("inside+horizontal"@);
    lemma_plain_literal("overlay+horizontal"@);
    lemma_plain_literal("fallback"@);
    lemma_plain_literal("others"@);
    assert forall|key: (bool, bool)| plain_name(#[trigger] style_name(key)) by {
        lemma_style_name_is_builtin(key);
    }
}

/// A layout's name is one of the four built-in layout names.
proof fn lemma_style_name_is_builtin(key: (bool, bool))
    ensures
        style_name(key) == "inside+vertical"@ || style_name(key) == "overlay+vertical"@ || style_name(key)
            == "inside+horizontal"@ || style_name(key) == "overlay+horizontal"@,
{
    let ms = default_type_mappings();
    assert(ms[0].1 == cfg(false, false));
    assert(ms[1].1 == cfg(true, false));
    assert(ms[2].1 == cfg(false, true));
    assert(ms[3].1 == cfg(true, true));
    if key == (false, false) {
    } else if key == (true, false) {
        assert(crate::labelplus_export::name_for_style_from(ms, key, 1) == Some(ms[1].0));
    } else if key == (false, true) {
        assert(crate::labelplus_export::name_for_style_from(ms, key, 2) == Some(ms[2].0));
        assert(crate::labelplus_export::name_for_style_from(ms, key, 1) == Some(ms[2].0));
    } else {
        assert(crate::labelplus_export::name_for_style_from(ms, key, 3) == Some(ms[3].0));
        assert(crate::labelplus_export::name_for_style_from(ms, key, 2) == Some(ms[3].0));
        assert(crate::labelplus_export::name_for_style_from(ms, key, 1) == Some(ms[3].0));
    }
}

/// The comment line of an exported head holds no line break.
proof fn lemma_comment_plain(a: Language, b: Language)
    ensures
        ({
            let c = "Exported from Bubblefish | Source: "@ + language_name(a) + " | Target: "@ + language_name(b);
            forall|j: int| 0 <= j < c.len() ==> #[trigger] c[j] != '\n'
        }),
{
    reveal_strlit("Exported from Bubblefish | Source: ");
    reveal_strlit(" | Target: ");
    reveal_strlit("Japanese");
    reveal_strlit("English");
    reveal_strlit("SimplifiedChinese");
    reveal_strlit("TraditionalChinese");
    let p1 = "Exported from Bubblefish | Source: "@;
    let p2 = " | Target: "@;
    assert forall|l: Language, j: int| 0 <= j < language_name(l).len() implies #[trigger] language_name(l)[j]
        != '\n' by {}
    let c = p1 + language_name(a) + p2 + language_name(b);
    assert forall|j: int| 0 <= j < c.len() implies #[trigger] c[j] != '\n' by {
        let la = language_name(a).len();
        if j < p1.len() {
            assert(c[j] == p1[j]);
        } else if j < p1.len() + la {
            assert(c[j] == language_name(a)[j - p1.len()]);
        } else if j < p1.len() + la + p2.len() {
            assert(c[j] == p2[j - p1.len() - la]);
        } else {
            assert(c[j] == language_name(b)[j - p1.len() - la - p2.len()]);
        }
    }
}

/// The end of the type names is the first `-` line.
proof fn lemma_type_block_end_at(ls: Seq<Seq<char>>, i: int, e: int)
    requires
        2 <= i <= e < ls.len(),
        forall|j: int| i <= j < e ==> trim(#[trigger] ls[j]) != "-"@,
        trim(ls[e]) == "-"@,
    ensures
        type_block_end(ls, i) == e,
    decreases e - i,
{
    if i < e {
        lemma_type_block_end_at(ls, i + 1, e);
    }
}

/// An exported file's head reads back as its types: reading the file finds
/// the header `1,0`, the separator, and then exactly the exported type
/// names, numbered 1, 2, 3, ... in the order written.
pub proof fn law_exported_types_read_back(styles: Seq<(bool, bool)>, a: Language, b: Language, rest: Seq<char>)
    ensures
        ({
            let names = type_names_for(styles);
            let ls = lines_from(export_head(names, a, b) + rest, 0);
            &&& ls.len() > 3 + names.len()
            &&& trim(ls[0]) == "1,0"@
            &&& trim(ls[1]) == "-"@
            &&& type_block_end(ls, 2) == 2 + names.len() as int
            &&& type_list(ls, 2 + names.len() as int) == Seq::new(names.len(), |k: int| ((k + 1) as u32, names[k]))
        }),
{
    reveal_strlit("1,0");
    reveal_strlit("-");
    reveal_strlit("1,0\r\n-\r\n");
    reveal_strlit("-\r\n");
    reveal_strlit("\r\n");
    let names = type_names_for(styles);
    let c = "Exported from Bubblefish | Source: "@ + language_name(a) + " | Target: "@ + language_name(b);
    let hl = seq!["1,0"@, "-"@] + names + seq!["-"@, c];
    lemma_crlf_concat(seq!["1,0"@, "-"@], names);
    lemma_crlf_concat(seq!["1,0"@, "-"@] + names, seq!["-"@, c]);
    let two = seq!["1,0"@, "-"@];
    assert(two.drop_last() =~= seq!["1,0"@]);
    assert(seq!["1,0"@].drop_last() =~= Seq::<Seq<char>>::empty());
    assert(crlf_lines(Seq::<Seq<char>>::empty()) == Seq::<char>::empty());
    assert(crlf_lines(seq!["1,0"@]) =~= "1,0"@ + "\r\n"@);
    assert(two.last() == "-"@);
    assert(crlf_lines(two) == crlf_lines(seq!["1,0"@]) + "-"@ + "\r\n"@);
    assert(crlf_lines(two) =~= "1,0\r\n-\r\n"@);
    let tail = seq!["-"@, c];
    assert(tail.drop_last() =~= seq!["-"@]);
    assert(seq!["-"@].drop_last() =~= Seq::<Seq<char>>::empty());
    assert(crlf_lines(seq!["-"@]) =~= "-"@ + "\r\n"@);
    assert(tail.last() == c);
    assert(crlf_lines(tail) == crlf_lines(seq!["-"@]) + c + "\r\n"@);
    assert(crlf_lines(tail) =~= "-\r\n"@ + c + "\r\n"@);
    assert(export_head(names, a, b) =~= crlf_lines(hl));
    lemma_type_names_plain(styles);
    lemma_comment_plain(a, b);
    assert forall|k: int, j: int| 0 <= k < hl.len() && 0 <= j < hl[k].len() implies #[trigger] hl[k][j] != '\n' by {
        if k == 0 {
        } else if k == 1 {
        } else if k < 2 + names.len() {
            assert(hl[k] == names[k - 2]);
            assert(plain_name(names[k - 2]));
        } else if k == 2 + names.len() {
        } else {
            assert(hl[k] == c);
        }
    }
    law_crlf_lines_read_back(hl);
    lemma_lines_from_concat(crlf_lines(hl), rest, 0);
    let ls = lines_from(export_head(names, a, b) + rest, 0);
    assert(ls == hl + lines_from(rest, 0));
    assert(ls[0] == "1,0"@);
    assert(ls[1] == "-"@);
    assert(!is_ws('1') && !is_ws('0'));
    lemma_trim_plain("1,0"@);
    lemma_trim_plain("-"@);
    let e: int = 2 + names.len() as int;
    assert(ls[e] == "-"@);
    assert forall|j: int| 2 <= j < e implies trim(#[trigger] ls[j]) != "-"@ by {
        assert(ls[j] == names[j - 2]);
        assert(plain_name(names[j - 2]));
    }
    lemma_type_block_end_at(ls, 2, e);
    assert(names.len() <= 9);
    assert(type_list(ls, e) =~= Seq::new(names.len(), |k: int| ((k + 1) as u32, names[k]))) by {
        assert forall|k: int| 0 <= k < names.len() implies ls[2 + k] == names[k] by {}
    }
}

} // verus!
