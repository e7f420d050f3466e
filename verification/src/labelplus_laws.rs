use vstd::prelude::*;
use crate::labelplus::{
    LabelplusData, LpMarkerView, LpParse, body, describes, is_image_header, is_marker_header, header_name,
    lemma_text_end_bounds, marker_of, name_views, parse_labelplus, sections_map, text_end, type_block_end,
    type_list, type_views, join_lines, kept_end,
};
use crate::textscan::{lines_from, line_end, line_at};

verus! {

/// Every marker names a type between 1 and `ntypes`.
pub open spec fn types_in_range(ms: Seq<LpMarkerView>, ntypes: nat) -> bool {
    forall|j: int| 0 <= j < ms.len() ==> 1 <= #[trigger] ms[j].type_id <= ntypes
}

/// Every page's markers name types between 1 and `ntypes`.
pub open spec fn pages_in_range(pages: Map<Seq<char>, Seq<LpMarkerView>>, ntypes: nat) -> bool {
    forall|n: Seq<char>| #[trigger] pages.contains_key(n) ==> types_in_range(pages[n], ntypes)
}

/// The name of the page being read, as a set.
pub open spec fn open_page(cur: Option<Seq<char>>) -> Set<Seq<char>> {
    match cur {
        Some(n) => Set::empty().insert(n),
        None => Set::empty(),
    }
}

proof fn lemma_type_block_end_from(ls: Seq<Seq<char>>, i: int)
    requires
        0 <= i,
    ensures
        type_block_end(ls, i) >= i,
    decreases ls.len() - i,
{
    if 0 <= i < ls.len() && crate::textscan::trim(ls[i]) != "-"@ {
        lemma_type_block_end_from(ls, i + 1);
    }
}

/// Reading the page sections keeps every marker's type in range, and the
/// pages read are exactly the page names met.
proof fn lemma_body_sound(
    ls: Seq<Seq<char>>,
    i: int,
    ntypes: nat,
    cur: Option<Seq<char>>,
    cur_ms: Seq<LpMarkerView>,
    secs: Seq<(Seq<char>, Seq<LpMarkerView>)>,
    order: Seq<Seq<char>>,
)
    requires
        types_in_range(cur_ms, ntypes),
        pages_in_range(sections_map(secs), ntypes),
        sections_map(secs).dom() + open_page(cur) == order.to_set(),
    ensures
        body(ls, i, ntypes, cur, cur_ms, secs, order) matches Ok((s2, o2)) ==> {
            &&& pages_in_range(sections_map(s2), ntypes)
            &&& sections_map(s2).dom() == o2.to_set()
        },
    decreases ls.len() - i,
{
    if i < 0 || i >= ls.len() {
        match cur {
            Some(n) => {
                let s2 = secs.push((n, cur_ms));
                assert(s2.drop_last() =~= secs);
                assert(sections_map(s2).dom() =~= order.to_set());
            },
            None => {
                assert(sections_map(secs).dom() =~= order.to_set());
            },
        }
    } else if is_image_header(ls[i]) {
        let name = header_name(ls[i]);
        let o2 = order.push(name);
        assert(o2.to_set() =~= order.to_set().insert(name)) by {
            assert forall|x: Seq<char>| o2.to_set().contains(x) <==> order.to_set().insert(name).contains(x) by {
                if o2.to_set().contains(x) {
                    let j = choose|j: int| 0 <= j < o2.len() && o2[j] == x;
                    if j < order.len() {
                        assert(order[j] == x);
                    }
                }
                if order.to_set().contains(x) {
                    let j = choose|j: int| 0 <= j < order.len() && order[j] == x;
                    assert(o2[j] == x);
                }
                if x == name {
                    assert(o2[order.len() as int] == x);
                }
            }
        }
        match cur {
            Some(n) => {
                let s2 = secs.push((n, cur_ms));
                assert(s2.drop_last() =~= secs);
                assert(types_in_range(Seq::<LpMarkerView>::empty(), ntypes));
                assert(sections_map(s2).dom() + open_page(Some(name)) =~= o2.to_set());
                lemma_body_sound(ls, i + 1, ntypes, Some(name), Seq::empty(), s2, o2);
            },
            None => {
                assert(sections_map(secs).dom() + open_page(Some(name)) =~= o2.to_set());
                lemma_body_sound(ls, i + 1, ntypes, Some(name), cur_ms, secs, o2);
            },
        }
    } else if is_marker_header(ls[i]) {
        match marker_of(ls[i], ntypes) {
            Err(e) => {},
            Ok((idx, x, y, t)) => {
                let j = text_end(ls, i + 1);
                lemma_text_end_bounds(ls, i + 1);
                let text = crate::labelplus::join_lines(
                    ls.subrange(i + 1, crate::labelplus::kept_end(ls, j, i + 1)),
                );
                let m = LpMarkerView { image_index: idx, x, y, type_id: t, translation: text, px: 0, py: 0 };
                let ms2 = cur_ms.push(m);
                assert(types_in_range(ms2, ntypes)) by {
                    assert forall|k: int| 0 <= k < ms2.len() implies 1 <= #[trigger] ms2[k].type_id <= ntypes by {
                        if k < cur_ms.len() {
                            assert(ms2[k] == cur_ms[k]);
                        }
                    }
                }
                lemma_body_sound(ls, j, ntypes, cur, ms2, secs, order);
            },
        }
    } else {
        lemma_body_sound(ls, i + 1, ntypes, cur, cur_ms, secs, order);
    }
}

/// What a LabelPlus file read gives: at most nine marker types, numbered 1,
/// 2, 3, ... in order; every marker names one of them; and the pages with
/// markers are exactly the page names listed in the page order.
pub proof fn law_parsed_file_is_consistent(content: Seq<char>, d: LabelplusData)
    requires
        parse_labelplus(content) is Ok,
        describes(d, parse_labelplus(content)->Ok_0),
    ensures
        d.marker_types@.len() <= 9,
        forall|k: int| 0 <= k < d.marker_types@.len() ==> #[trigger] d.marker_types@[k].id == k + 1,
        pages_in_range(d.markers_by_image.map(), d.marker_types@.len()),
        d.markers_by_image.map().dom() == name_views(d.image_order@).to_set(),
{
    let p: LpParse = parse_labelplus(content)->Ok_0;
    let ls = crate::textscan::lines_from(crate::labelplus::without_bom(content), 0);
    let e = type_block_end(ls, 2);
    lemma_type_block_end_from(ls, 2);
    let types = type_list(ls, e);
    assert(types.len() <= 9);
    assert(type_views(d.marker_types@) == types);
    assert forall|k: int| 0 <= k < d.marker_types@.len() implies #[trigger] d.marker_types@[k].id == k + 1 by {
        assert(type_views(d.marker_types@)[k] == types[k]);
    }
    assert(sections_map(Seq::<(Seq<char>, Seq<LpMarkerView>)>::empty()).dom() + open_page(None)
        =~= Seq::<Seq<char>>::empty().to_set());
    assert(types_in_range(Seq::<LpMarkerView>::empty(), types.len()));
    lemma_body_sound(
        ls,
        crate::labelplus::comments_end(ls, e + 1),
        types.len(),
        None,
        Seq::empty(),
        Seq::empty(),
        Seq::empty(),
    );
}

/// The first line break at or after `i` is at `k` when none comes between.
pub proof fn lemma_line_end_at(s: Seq<char>, i: int, k: int)
    requires
        0 <= i <= k <= s.len(),
        forall|j: int| i <= j < k ==> s[j] != '\n',
        k == s.len() || s[k] == '\n',
    ensures
        line_end(s, i) == k,
    decreases k - i,
{
    if i < k {
        lemma_line_end_at(s, i + 1, k);
    }
}

/// Line ends in a text after a prefix are those of the text, shifted.
proof fn lemma_line_end_shift(p: Seq<char>, t: Seq<char>, i: int)
    requires
        0 <= i <= t.len(),
    ensures
        line_end(p + t, p.len() + i) == p.len() + line_end(t, i),
    decreases t.len() - i,
{
    let s = p + t;
    assert(i < t.len() ==> s[p.len() + i] == t[i]);
    if i < t.len() && t[i] != '\n' {
        lemma_line_end_shift(p, t, i + 1);
    }
}

/// The lines of a text after a prefix are the lines of the text.
pub proof fn lemma_lines_from_shift(p: Seq<char>, t: Seq<char>, i: int)
    requires
        0 <= i,
    ensures
        lines_from(p + t, p.len() + i) == lines_from(t, i),
    decreases t.len() - i,
{
    let s = p + t;
    if i < t.len() {
        lemma_line_end_shift(p, t, i);
        crate::textscan::lemma_line_end_bounds(t, i);
        let j = line_end(t, i);
        assert(line_at(s, p.len() + i, p.len() + j) =~= line_at(t, i, j)) by {
            if j < t.len() && j > i {
                assert(s[p.len() + j - 1] == t[j - 1]);
            }
            assert(s.subrange(p.len() + i, p.len() + j) =~= t.subrange(i, j));
            if j > i {
                assert(s.subrange(p.len() + i, p.len() + j - 1) =~= t.subrange(i, j - 1));
            }
        }
        if j < t.len() {
            lemma_lines_from_shift(p, t, j + 1);
        }
    }
}

/// Joining lines, from the front: the first line, a line break, the rest.
proof fn lemma_join_front(ls: Seq<Seq<char>>)
    requires
        ls.len() >= 2,
    ensures
        join_lines(ls) == ls[0] + seq!['\n'] + join_lines(ls.drop_first()),
    decreases ls.len(),
{
    if ls.len() > 2 {
        lemma_join_front(ls.drop_last());
        assert(ls.drop_last().drop_first() =~= ls.drop_first().drop_last());
        assert(ls.drop_last()[0] == ls[0]);
        assert(ls.drop_first().last() == ls.last());
        assert(join_lines(ls) =~= ls[0] + seq!['\n'] + join_lines(ls.drop_first()));
    } else {
        assert(ls.drop_last() =~= seq![ls[0]]);
        assert(ls.drop_first() =~= seq![ls[1]]);
        assert(join_lines(ls.drop_first()) == ls[1]);
        assert(join_lines(ls.drop_last()) == ls[0]);
        assert(ls.last() == ls[1]);
        assert(join_lines(ls) =~= ls[0] + seq!['\n'] + join_lines(ls.drop_first()));
    }
}

/// Joined lines end with the last line.
proof fn lemma_join_len(ls: Seq<Seq<char>>)
    requires
        ls.len() >= 1,
    ensures
        join_lines(ls).len() >= ls.last().len(),
{
}

/// Lines that hold no line break, none but the last ending in a carriage
/// return, and a last line that is not empty.
pub open spec fn plain_lines(ls: Seq<Seq<char>>) -> bool {
    &&& ls.len() > 0
    &&& ls.last().len() > 0
    &&& forall|k: int, j: int| 0 <= k < ls.len() && 0 <= j < ls[k].len() ==> #[trigger] ls[k][j] != '\n'
    &&& forall|k: int| 0 <= k < ls.len() - 1 && ls[k].len() > 0 ==> #[trigger] ls[k].last() != '\r'
}

/// A marker's translation is its text lines joined with line breaks:
/// splitting the translation into lines gives back exactly those lines
/// (in particular, two lines `a` and `b` become `a`, a line break, `b`).
pub proof fn law_translation_splits_into_its_lines(ls: Seq<Seq<char>>)
    requires
        plain_lines(ls),
    ensures
        lines_from(join_lines(ls), 0) == ls,
        ls.len() >= 2 ==> join_lines(ls) == ls[0] + seq!['\n'] + join_lines(ls.drop_first()),
    decreases ls.len(),
{
    let s = join_lines(ls);
    if ls.len() == 1 {
        assert(s == ls[0]);
        lemma_line_end_at(s, 0, s.len() as int);
        assert(line_at(s, 0, s.len() as int) =~= s);
        assert(lines_from(s, 0) =~= seq![s]);
        assert(ls =~= seq![ls[0]]);
    } else {
        lemma_join_front(ls);
        let a = ls[0];
        let rest = ls.drop_first();
        assert(plain_lines(rest)) by {
            assert forall|k: int, j: int| 0 <= k < rest.len() && 0 <= j < rest[k].len() implies #[trigger] rest[k][j]
                != '\n' by {
                assert(rest[k] == ls[k + 1]);
            }
            assert forall|k: int| 0 <= k < rest.len() - 1 && rest[k].len() > 0 implies #[trigger] rest[k].last()
                != '\r' by {
                assert(rest[k] == ls[k + 1]);
            }
        }
        law_translation_splits_into_its_lines(rest);
        let r = join_lines(rest);
        lemma_join_len(rest);
        assert(s == a + seq!['\n'] + r);
        assert forall|j: int| 0 <= j < a.len() implies s[j] != '\n' by {
            assert(s[j] == a[j]);
            assert(ls[0][j] != '\n');
        }
        assert(s[a.len() as int] == '\n');
        lemma_line_end_at(s, 0, a.len() as int);
        assert(line_at(s, 0, a.len() as int) =~= a) by {
            if a.len() > 0 {
                assert(s[a.len() - 1] == a.last());
                assert(ls[0].last() != '\r');
            }
        }
        let p = a + seq!['\n'];
        assert(s =~= p + r);
        lemma_lines_from_shift(p, r, 0);
        assert(lines_from(s, 0) =~= seq![a] + lines_from(s, a.len() as int + 1));
        assert(ls =~= seq![a] + rest);
    }
}

/// Trailing blank lines of a marker's text are dropped, and only those:
/// the kept lines `lo..e` end with a line that is not blank (unless none is
/// kept), and every dropped line `e..j` is blank.
pub proof fn law_trailing_blank_lines_dropped(ls: Seq<Seq<char>>, j: int, lo: int)
    requires
        0 <= lo <= j <= ls.len(),
    ensures
        lo <= kept_end(ls, j, lo) <= j,
        kept_end(ls, j, lo) > lo ==> crate::textscan::trim(ls[kept_end(ls, j, lo) - 1]).len() > 0,
        forall|i: int| kept_end(ls, j, lo) <= i < j ==> crate::textscan::trim(#[trigger] ls[i]).len() == 0,
    decreases j - lo,
{
    if lo < j && crate::textscan::trim(ls[j - 1]).len() == 0 {
        law_trailing_blank_lines_dropped(ls, j - 1, lo);
    }
}

/// Joining the lines of a text with line breaks gives the text back, when
/// it holds no carriage return and does not end with a line break: a
/// translation written line by line reads back whole.
pub proof fn law_lines_rejoin(t: Seq<char>, i: int)
    requires
        0 <= i < t.len(),
        t[t.len() - 1] != '\n',
        forall|j: int| 0 <= j < t.len() ==> #[trigger] t[j] != '\r',
    ensures
        lines_from(t, i).len() >= 1,
        join_lines(lines_from(t, i)) == t.subrange(i, t.len() as int),
    decreases t.len() - i,
{
    crate::textscan::lemma_line_end_bounds(t, i);
    let j = line_end(t, i);
    let line = line_at(t, i, j);
    assert(line == t.subrange(i, j)) by {
        if j < t.len() && j > i {
            assert(t[j - 1] != '\r');
        }
    }
    if j >= t.len() {
        assert(lines_from(t, i) =~= seq![line]);
    } else {
        assert(t[j] == '\n');
        assert(j + 1 < t.len());
        law_lines_rejoin(t, j + 1);
        let rest = lines_from(t, j + 1);
        let all = lines_from(t, i);
        assert(all =~= seq![line] + rest);
        lemma_join_front(all);
        assert(all.drop_first() =~= rest);
        assert(t.subrange(i, t.len() as int) =~= t.subrange(i, j) + seq!['\n'] + t.subrange(j + 1, t.len() as int));
    }
}

} // verus!
