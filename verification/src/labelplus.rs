use vstd::prelude::*;
use crate::error::{CoreError, CoreResult};
use crate::strmap::StrMap;
use crate::text::{chars_of, chars_equal, decimal, push_decimal, push_str, string_from_chars, string_of};
use crate::textscan::{
    trim, trim_bounds, lines_from, split_lines, starts_with, ends_with, starts_with_lit, ends_with_lit, find_from,
    find_exec, occurs_at, slice_chars, parse_u32, parse_u32_exec, IntError, int_error_text, int_error_message,
    is_float_literal, is_float_literal_exec, float_error_text, lemma_ws_bounds,
};

verus! {

/// A marker type of a LabelPlus file: its number (1 to 9) and its name.
#[derive(Debug)]
pub struct LabelplusMarkerType {
    pub id: u32,
    pub name: String,
}

/// A marker read from a LabelPlus file. The coordinates are kept as the
/// text of the file (a valid `f64` literal, a fraction of the page size);
/// `px` and `py` hold the point in percent of the page as `f64` bit
/// patterns, which the caller computes from that text before an import
/// (they are 0 after a parse).
#[derive(Debug)]
pub struct LabelplusMarker {
    pub image_index: u32,
    pub x: String,
    pub y: String,
    pub type_id: u32,
    pub translation: String,
    pub px: u64,
    pub py: u64,
}

/// The abstract value of a LabelPlus marker.
pub struct LpMarkerView {
    pub image_index: u32,
    pub x: Seq<char>,
    pub y: Seq<char>,
    pub type_id: u32,
    pub translation: Seq<char>,
    pub px: u64,
    pub py: u64,
}

impl View for LabelplusMarker {
    type V = LpMarkerView;

    open spec fn view(&self) -> LpMarkerView {
        LpMarkerView {
            image_index: self.image_index,
            x: self.x@,
            y: self.y@,
            type_id: self.type_id,
            translation: self.translation@,
            px: self.px,
            py: self.py,
        }
    }
}

/// The markers of one page of a LabelPlus file, in file order.
#[derive(Debug)]
pub struct LabelplusPage {
    pub markers: Vec<LabelplusMarker>,
}

/// The views of some LabelPlus markers.
pub open spec fn lp_views(v: Seq<LabelplusMarker>) -> Seq<LpMarkerView> {
    v.map_values(|m: LabelplusMarker| m@)
}

impl View for LabelplusPage {
    type V = Seq<LpMarkerView>;

    open spec fn view(&self) -> Seq<LpMarkerView> {
        lp_views(self.markers@)
    }
}

/// A parsed LabelPlus file: its marker types, the markers of each page
/// (by page name) and the page names in file order.
pub struct LabelplusData {
    pub marker_types: Vec<LabelplusMarkerType>,
    pub markers_by_image: StrMap<LabelplusPage>,
    pub image_order: Vec<String>,
}

/// The marker types as `(number, name)` pairs.
pub open spec fn type_views(v: Seq<LabelplusMarkerType>) -> Seq<(u32, Seq<char>)> {
    v.map_values(|t: LabelplusMarkerType| (t.id, t.name@))
}

/// The page names.
pub open spec fn name_views(v: Seq<String>) -> Seq<Seq<char>> {
    v.map_values(|s: String| s@)
}

/// The abstract value of a parse: the types, each page section in file
/// order (a later section of the same name replaces an earlier one in the
/// map), and the page names in order.
pub struct LpParse {
    pub types: Seq<(u32, Seq<char>)>,
    pub sections: Seq<(Seq<char>, Seq<LpMarkerView>)>,
    pub order: Seq<Seq<char>>,
}

/// The map from page names to markers that the sections give, later
/// sections replacing earlier ones.
pub open spec fn sections_map(secs: Seq<(Seq<char>, Seq<LpMarkerView>)>) -> Map<Seq<char>, Seq<LpMarkerView>>
    decreases secs.len(),
{
    if secs.len() == 0 {
        Map::empty()
    } else {
        sections_map(secs.drop_last()).insert(secs.last().0, secs.last().1)
    }
}

/// Whether `d` is the value that a parse describes.
pub open spec fn describes(d: LabelplusData, p: LpParse) -> bool {
    &&& type_views(d.marker_types@) == p.types
    &&& d.markers_by_image.wf()
    &&& d.markers_by_image.map() == sections_map(p.sections)
    &&& name_views(d.image_order@) == p.order
}

/// A format error: the field at fault and why.
pub type LpError = (Seq<char>, Seq<char>);

/// Whether `e` is the validation error `(field, reason)`.
pub open spec fn is_validation_error(e: CoreError, err: LpError) -> bool {
    e matches CoreError::ValidationFailed { field, reason } && field@ == err.0 && reason@ == err.1
}

/// The separator between a marker's number and its coordinates.
pub open spec fn marker_sep() -> Seq<char> {
    "]----------------["@
}

/// A page header: `>>>>>>>>[name]<<<<<<<<`.
pub open spec fn is_image_header(l: Seq<char>) -> bool {
    starts_with(l, ">>>>>>>>["@) && ends_with(l, "]<<<<<<<<"@)
}

/// The page name in a page header.
pub open spec fn header_name(l: Seq<char>) -> Seq<char> {
    l.subrange(9, l.len() - 9)
}

/// A marker header: `----------------[n]----------------[x,y,t]`.
pub open spec fn is_marker_header(l: Seq<char>) -> bool {
    starts_with(l, "----------------["@) && find_from(l, marker_sep(), 0) is Some
}

/// Whether a line ends a marker's text: the next marker or page.
pub open spec fn ends_text(l: Seq<char>) -> bool {
    starts_with(l, "----------------["@) || starts_with(l, ">>>>>>>>"@)
}

/// The first position at or after `i` whose char is not `c`.
pub open spec fn char_run(s: Seq<char>, i: int, c: char) -> int
    decreases s.len() - i,
{
    if 0 <= i < s.len() && s[i] == c {
        char_run(s, i + 1, c)
    } else {
        i
    }
}

/// The end of `s[lo..j]` once trailing chars `c` are dropped.
pub open spec fn char_run_back(s: Seq<char>, j: int, lo: int, c: char) -> int
    decreases j - lo,
{
    if lo < j && j <= s.len() && s[j - 1] == c {
        char_run_back(s, j - 1, lo, c)
    } else {
        j
    }
}

/// The positions of the commas of `s`.
pub open spec fn comma_positions(s: Seq<char>) -> Seq<int> {
    Seq::new(s.len(), |i: int| i).filter(|i: int| s[i] == ',')
}

/// The number text of a marker header: before the separator, without the
/// leading dashes and then the leading brackets.
pub open spec fn index_text(l: Seq<char>, p: int) -> Seq<char> {
    let a = char_run(l, 0, '-');
    l.subrange(char_run(l.subrange(0, p), a, '['), p)
}

/// The coordinate text of a marker header: after the separator, without
/// the trailing brackets.
pub open spec fn coord_text(l: Seq<char>, p: int) -> Seq<char> {
    let rest = l.subrange(p + 18, l.len() as int);
    rest.subrange(0, char_run_back(rest, rest.len() as int, 0, ']'))
}

/// A marker header read: its number, coordinate texts and type, or the
/// error for the first part that is wrong.
pub open spec fn marker_of(l: Seq<char>, ntypes: nat) -> Result<(u32, Seq<char>, Seq<char>, u32), LpError> {
    let p = find_from(l, marker_sep(), 0)->0;
    if find_from(l, marker_sep(), p + 18) is Some {
        Err(("marker_format"@, "无效的标记格式"@))
    } else {
        match parse_u32(index_text(l, p)) {
            Err(e) => Err(("image_index"@, "无效的标记序号: "@ + int_error_text(e))),
            Ok(idx) => {
                let c = coord_text(l, p);
                let commas = comma_positions(c);
                if commas.len() != 2 {
                    Err(("coordinates"@, "坐标格式错误"@))
                } else {
                    let x = trim(c.subrange(0, commas[0]));
                    let y = trim(c.subrange(commas[0] + 1, commas[1]));
                    let t = trim(c.subrange(commas[1] + 1, c.len() as int));
                    if !is_float_literal(x) {
                        Err(("x_coordinate"@, "无效的X坐标: "@ + float_error_text(x)))
                    } else if !is_float_literal(y) {
                        Err(("y_coordinate"@, "无效的Y坐标: "@ + float_error_text(y)))
                    } else {
                        match parse_u32(t) {
                            Err(e) => Err(("marker_type_id"@, "无效的类型ID: "@ + int_error_text(e))),
                            Ok(tid) => if tid < 1 || tid > ntypes {
                                Err(
                                    (
                                        "type_id"@,
                                        "未定义的类型ID: "@ + decimal(tid as nat) + "，应在1-"@ + decimal(ntypes)
                                            + "范围内"@,
                                    ),
                                )
                            } else {
                                Ok((idx, x, y, tid))
                            },
                        }
                    }
                }
            },
        }
    }
}

/// The first line at or after `i` that ends a marker's text.
pub open spec fn text_end(ls: Seq<Seq<char>>, i: int) -> int
    decreases ls.len() - i,
{
    if 0 <= i < ls.len() && !ends_text(ls[i]) {
        text_end(ls, i + 1)
    } else {
        i
    }
}

/// The end of a marker's text lines `lo..j` once trailing blank lines are
/// dropped.
pub open spec fn kept_end(ls: Seq<Seq<char>>, j: int, lo: int) -> int
    decreases j - lo,
{
    if lo < j && j <= ls.len() && trim(ls[j - 1]).len() == 0 {
        kept_end(ls, j - 1, lo)
    } else {
        j
    }
}

/// Lines joined with `'\n'`.
pub open spec fn join_lines(ls: Seq<Seq<char>>) -> Seq<char>
    decreases ls.len(),
{
    if ls.len() == 0 {
        Seq::empty()
    } else if ls.len() == 1 {
        ls[0]
    } else {
        join_lines(ls.drop_last()) + seq!['\n'] + ls.last()
    }
}

/// The page sections from line `i` on, given the page being read, its
/// markers so far, the finished sections and the page order.
pub open spec fn body(
    ls: Seq<Seq<char>>,
    i: int,
    ntypes: nat,
    cur: Option<Seq<char>>,
    cur_ms: Seq<LpMarkerView>,
    secs: Seq<(Seq<char>, Seq<LpMarkerView>)>,
    order: Seq<Seq<char>>,
) -> Result<(Seq<(Seq<char>, Seq<LpMarkerView>)>, Seq<Seq<char>>), LpError>
    decreases ls.len() - i,
{
    if i < 0 || i >= ls.len() {
        Ok(
            (
                match cur {
                    Some(n) => secs.push((n, cur_ms)),
                    None => secs,
                },
                order,
            ),
        )
    } else if is_image_header(ls[i]) {
        let name = header_name(ls[i]);
        match cur {
            Some(n) => body(ls, i + 1, ntypes, Some(name), Seq::empty(), secs.push((n, cur_ms)), order.push(name)),
            None => body(ls, i + 1, ntypes, Some(name), cur_ms, secs, order.push(name)),
        }
    } else if is_marker_header(ls[i]) {
        match marker_of(ls[i], ntypes) {
            Err(e) => Err(e),
            Ok((idx, x, y, t)) => {
                let j = text_end(ls, i + 1);
                proof {
                    lemma_text_end_bounds(ls, i + 1);
                }
                let text = join_lines(ls.subrange(i + 1, kept_end(ls, j, i + 1)));
                body(
                    ls,
                    j,
                    ntypes,
                    cur,
                    cur_ms.push(LpMarkerView { image_index: idx, x, y, type_id: t, translation: text, px: 0, py: 0 }),
                    secs,
                    order,
                )
            },
        }
    } else {
        body(ls, i + 1, ntypes, cur, cur_ms, secs, order)
    }
}

/// Lemma: a marker's text ends within the lines.
pub proof fn lemma_text_end_bounds(ls: Seq<Seq<char>>, i: int)
    requires
        0 <= i <= ls.len(),
    ensures
        i <= text_end(ls, i) <= ls.len(),
    decreases ls.len() - i,
{
    if i < ls.len() && !ends_text(ls[i]) {
        lemma_text_end_bounds(ls, i + 1);
    }
}

/// The end of the type names: the first line at or after `i` that is `-`
/// once trimmed.
pub open spec fn type_block_end(ls: Seq<Seq<char>>, i: int) -> int
    decreases ls.len() - i,
{
    if 0 <= i < ls.len() && trim(ls[i]) != "-"@ {
        type_block_end(ls, i + 1)
    } else {
        i
    }
}

/// The first nine type names of lines `2..e`, numbered from 1.
pub open spec fn type_list(ls: Seq<Seq<char>>, e: int) -> Seq<(u32, Seq<char>)> {
    let n = if e - 2 < 9 {
        e - 2
    } else {
        9
    };
    Seq::new(n as nat, |k: int| ((k + 1) as u32, ls[2 + k]))
}

/// The first page header line at or after `i` (comments are skipped).
pub open spec fn comments_end(ls: Seq<Seq<char>>, i: int) -> int
    decreases ls.len() - i,
{
    if 0 <= i < ls.len() && !starts_with(ls[i], ">>>>>>>>"@) {
        comments_end(ls, i + 1)
    } else {
        i
    }
}

/// The text a LabelPlus file holds once a leading byte-order mark is
/// dropped.
pub open spec fn without_bom(content: Seq<char>) -> Seq<char> {
    if content.len() > 0 && content[0] == '\u{feff}' {
        content.drop_first()
    } else {
        content
    }
}

/// A LabelPlus file read: the header `1,0`, `-`, the type names, `-`,
/// comments, then page sections with their markers; or the error for the
/// first thing that is wrong.
pub open spec fn parse_labelplus(content: Seq<char>) -> Result<LpParse, LpError> {
    let ls = lines_from(without_bom(content), 0);
    if ls.len() == 0 {
        Err(("content"@, "空文件"@))
    } else if trim(ls[0]) != "1,0"@ {
        Err(("magic_number"@, "无效的魔法数字，期望 '1,0'，实际为 '"@ + trim(ls[0]) + "'"@))
    } else if ls.len() < 2 || trim(ls[1]) != "-"@ {
        Err(("separator"@, "缺少分隔符'-'"@))
    } else {
        let e = type_block_end(ls, 2);
        if e >= ls.len() {
            Err(("separator"@, "缺少第二个分隔符'-'"@))
        } else {
            let types = type_list(ls, e);
            match body(ls, comments_end(ls, e + 1), types.len(), None, Seq::empty(), Seq::empty(), Seq::empty()) {
                Err(err) => Err(err),
                Ok((secs, order)) => Ok(LpParse { types, sections: secs, order }),
            }
        }
    }
}

/// A validation error with a field name and a reason.
fn validation_error(field: &str, reason: &Vec<char>) -> (e: CoreError)
    ensures
        is_validation_error(e, (field@, reason@)),
{
    CoreError::ValidationFailed { field: string_of(field), reason: string_from_chars(reason) }
}

/// A literal followed by a message.
fn message(prefix: &str, rest: &str) -> (r: Vec<char>)
    ensures
        r@ == prefix@ + rest@,
{
    let mut out: Vec<char> = Vec::new();
    push_str(&mut out, prefix);
    push_str(&mut out, rest);
    assert(out@ =~= prefix@ + rest@);
    out
}

/// The first position at or after `i`, below `hi`, whose char is not `c`.
fn char_run_exec(s: &Vec<char>, i: usize, hi: usize, c: char) -> (r: usize)
    requires
        i <= hi <= s@.len(),
    ensures
        i <= r <= hi,
        r as int == char_run(s@.subrange(0, hi as int), i as int, c),
{
    let ghost t = s@.subrange(0, hi as int);
    let mut k = i;
    while k < hi && s[k] == c
        invariant
            i <= k <= hi <= s@.len(),
            t == s@.subrange(0, hi as int),
            char_run(t, k as int, c) == char_run(t, i as int, c),
        decreases hi - k,
    {
        k = k + 1;
    }
    k
}

/// The end of `s` once trailing chars `c` are dropped.
fn char_run_back_exec(s: &Vec<char>, c: char) -> (r: usize)
    ensures
        r <= s@.len(),
        r as int == char_run_back(s@, s@.len() as int, 0, c),
{
    let mut k = s.len();
    while k > 0 && s[k - 1] == c
        invariant
            k <= s@.len(),
            char_run_back(s@, k as int, 0, c) == char_run_back(s@, s@.len() as int, 0, c),
        decreases k,
    {
        k = k - 1;
    }
    k
}

/// The positions of the commas of `s`.
fn comma_positions_exec(s: &Vec<char>) -> (r: Vec<usize>)
    ensures
        r@.map_values(|k: usize| k as int) == comma_positions(s@),
{
    let mut out: Vec<usize> = Vec::new();
    let mut i: usize = 0;
    while i < s.len()
        invariant
            i <= s@.len(),
            out@.map_values(|k: usize| k as int) == Seq::new(i as nat, |k: int| k).filter(|k: int| s@[k] == ','),
        decreases s@.len() - i,
    {
        proof {
            assert(Seq::new((i + 1) as nat, |k: int| k) =~= Seq::new(i as nat, |k: int| k).push(i as int));
            Seq::new(i as nat, |k: int| k).lemma_filter_push(i as int, |k: int| s@[k] == ',');
        }
        if s[i] == ',' {
            out.push(i);
        }
        i = i + 1;
        assert(out@.map_values(|k: usize| k as int) =~= Seq::new(i as nat, |k: int| k).filter(|k: int| s@[k] == ','));
    }
    out
}

/// Reads a marker header line: its number, coordinate texts and type, or
/// the error for the first part that is wrong.
fn parse_marker_header(l: &Vec<char>, ntypes: usize) -> (r: Result<(u32, Vec<char>, Vec<char>, u32), CoreError>)
    requires
        is_marker_header(l@),
        ntypes <= 9,
    ensures
        match r {
            Ok((idx, x, y, t)) => marker_of(l@, ntypes as nat) == Ok::<_, LpError>((idx, x@, y@, t)),
            Err(e) => marker_of(l@, ntypes as nat) matches Err(err) && is_validation_error(e, err),
        },
{
    let sep = chars_of("]----------------[");
    proof {
        reveal_strlit("]----------------[");
        reveal_strlit("----------------[");
    }
    assert(sep@.len() == 18);
    let p = match find_exec(l, &sep, 0) {
        Some(p) => p,
        None => {
            return Err(validation_error("marker_format", &Vec::new()));
        },
    };
    proof {
        lemma_find_bounds(l@, marker_sep(), 0);
    }
    assert(p + 18 <= l@.len());
    assert(p + 18 <= l.len());
    if find_exec(l, &sep, p + 18).is_some() {
        let m = chars_of("无效的标记格式");
        return Err(validation_error("marker_format", &m));
    }
    let a = char_run_exec(l, 0, l.len(), '-');
    proof {
        lemma_dash_run(l@);
        assert(l@.subrange(0, l@.len() as int) =~= l@);
    }
    assert(a == 16);
    proof {
        lemma_find_first(l@, marker_sep(), 0, p as int);
        assert(l@.subrange(p as int, p + 18)[0] == l@[p as int]);
        assert(marker_sep()[0] == ']');
        assert(l@[p as int] == ']');
    }
    assert(p > 16);
    let b = char_run_exec(l, a, p, '[');
    let idx = match parse_u32_exec(l, b, p) {
        Ok(v) => v,
        Err(e) => {
            let m = message("无效的标记序号: ", int_error_message(e));
            return Err(validation_error("image_index", &m));
        },
    };
    let rest = slice_chars(l, p + 18, l.len());
    let end = char_run_back_exec(&rest, ']');
    let c = slice_chars(&rest, 0, end);
    let commas = comma_positions_exec(&c);
    if commas.len() != 2 {
        let m = chars_of("坐标格式错误");
        return Err(validation_error("coordinates", &m));
    }
    let c1 = commas[0];
    let c2 = commas[1];
    proof {
        lemma_comma_positions(c@);
        assert(comma_positions(c@)[0] == c1 as int);
        assert(comma_positions(c@)[1] == c2 as int);
    }
    let (xa, xb) = trim_bounds(&c, 0, c1);
    if !is_float_literal_exec(&c, xa, xb) {
        let x = slice_chars(&c, xa, xb);
        let m = if x.len() == 0 {
            message("无效的X坐标: ", "cannot parse float from empty string")
        } else {
            message("无效的X坐标: ", "invalid float literal")
        };
        return Err(validation_error("x_coordinate", &m));
    }
    let (ya, yb) = trim_bounds(&c, c1 + 1, c2);
    if !is_float_literal_exec(&c, ya, yb) {
        let y = slice_chars(&c, ya, yb);
        let m = if y.len() == 0 {
            message("无效的Y坐标: ", "cannot parse float from empty string")
        } else {
            message("无效的Y坐标: ", "invalid float literal")
        };
        return Err(validation_error("y_coordinate", &m));
    }
    let (ta, tb) = trim_bounds(&c, c2 + 1, c.len());
    let tid = match parse_u32_exec(&c, ta, tb) {
        Ok(v) => v,
        Err(e) => {
            let m = message("无效的类型ID: ", int_error_message(e));
            return Err(validation_error("marker_type_id", &m));
        },
    };
    if tid < 1 || tid as usize > ntypes {
        let mut m: Vec<char> = Vec::new();
        push_str(&mut m, "未定义的类型ID: ");
        push_decimal(&mut m, tid as u64);
        push_str(&mut m, "，应在1-");
        push_decimal(&mut m, ntypes as u64);
        push_str(&mut m, "范围内");
        return Err(validation_error("type_id", &m));
    }
    let x = slice_chars(&c, xa, xb);
    let y = slice_chars(&c, ya, yb);
    Ok((idx, x, y, tid))
}

/// Lemma: a found occurrence lies within the text.
pub proof fn lemma_find_bounds(s: Seq<char>, p: Seq<char>, i: int)
    requires
        find_from(s, p, i) is Some,
    ensures
        i <= find_from(s, p, i)->0,
        occurs_at(s, p, find_from(s, p, i)->0),
    decreases s.len() - i,
{
    if i < 0 || i + p.len() > s.len() {
    } else if occurs_at(s, p, i) {
    } else if i >= s.len() {
    } else {
        lemma_find_bounds(s, p, i + 1);
    }
}

/// Lemma: no occurrence lies before the first one found.
pub proof fn lemma_find_first(s: Seq<char>, p: Seq<char>, i: int, k: int)
    requires
        0 <= i,
        find_from(s, p, i) == Some(k),
    ensures
        forall|j: int| i <= j < k ==> !occurs_at(s, p, j),
        occurs_at(s, p, k),
    decreases s.len() - i,
{
    if occurs_at(s, p, i) {
    } else {
        lemma_find_first(s, p, i + 1, k);
    }
}

/// Lemma: a marker header begins with sixteen dashes and a bracket.
pub proof fn lemma_dash_run(l: Seq<char>)
    requires
        starts_with(l, "----------------["@),
    ensures
        char_run(l, 0, '-') == 16,
{
    reveal_strlit("----------------[");
    assert(l.subrange(0, 17) == "----------------["@);
    assert forall|k: int| 0 <= k < 16 implies l[k] == '-' by {
        assert(l.subrange(0, 17)[k] == l[k]);
    }
    assert(l.subrange(0, 17)[16] == l[16]);
    assert(char_run(l, 16, '-') == 16);
    assert(char_run(l, 15, '-') == 16);
    assert(char_run(l, 14, '-') == 16);
    assert(char_run(l, 13, '-') == 16);
    assert(char_run(l, 12, '-') == 16);
    assert(char_run(l, 11, '-') == 16);
    assert(char_run(l, 10, '-') == 16);
    assert(char_run(l, 9, '-') == 16);
    assert(char_run(l, 8, '-') == 16);
    assert(char_run(l, 7, '-') == 16);
    assert(char_run(l, 6, '-') == 16);
    assert(char_run(l, 5, '-') == 16);
    assert(char_run(l, 4, '-') == 16);
    assert(char_run(l, 3, '-') == 16);
    assert(char_run(l, 2, '-') == 16);
    assert(char_run(l, 1, '-') == 16);
}

/// Lemma: comma positions are increasing positions of commas.
pub proof fn lemma_comma_positions(s: Seq<char>)
    ensures
        forall|k: int|
            0 <= k < comma_positions(s).len() ==> 0 <= #[trigger] comma_positions(s)[k] < s.len() && s[comma_positions(
                s,
            )[k]] == ',',
        forall|a: int, b: int|
            0 <= a < b < comma_positions(s).len() ==> #[trigger] comma_positions(s)[a] < #[trigger] comma_positions(
                s,
            )[b],
{
    let idx = Seq::new(s.len(), |i: int| i);
    let f = |i: int| s[i] == ',';
    lemma_filter_increasing(idx, f);
}

/// Lemma: filtering an increasing sequence of positions keeps it
/// increasing and keeps only positions that pass.
pub proof fn lemma_filter_increasing(v: Seq<int>, f: spec_fn(int) -> bool)
    requires
        forall|a: int, b: int| 0 <= a < b < v.len() ==> v[a] < v[b],
    ensures
        forall|k: int| 0 <= k < v.filter(f).len() ==> f(#[trigger] v.filter(f)[k]) && v.contains(v.filter(f)[k]),
        forall|a: int, b: int| 0 <= a < b < v.filter(f).len() ==> #[trigger] v.filter(f)[a] < #[trigger] v.filter(f)[b],
    decreases v.len(),
{
    reveal(Seq::filter);
    if v.len() > 0 {
        let w = v.drop_last();
        lemma_filter_increasing(w, f);
        assert forall|k: int| 0 <= k < w.filter(f).len() implies #[trigger] w.filter(f)[k] < v.last() by {
            let j = choose|j: int| 0 <= j < w.len() && w[j] == w.filter(f)[k];
        }
        assert forall|k: int| 0 <= k < v.filter(f).len() implies f(#[trigger] v.filter(f)[k]) && v.contains(
            v.filter(f)[k],
        ) by {
            if k < w.filter(f).len() {
                let j = choose|j: int| 0 <= j < w.len() && w[j] == w.filter(f)[k];
                assert(v[j] == w[j]);
            } else {
                assert(v[v.len() - 1] == v.last());
            }
        }
    }
}

/// Whether a line, trimmed, equals a literal.
fn trimmed_equals(l: &Vec<char>, lit: &str) -> (r: bool)
    ensures
        r == (trim(l@) == lit@),
{
    let (a, b) = trim_bounds(l, 0, l.len());
    assert(l@.subrange(0, l@.len() as int) =~= l@);
    let t = slice_chars(l, a, b);
    let c = chars_of(lit);
    chars_equal(&t, &c)
}

/// Whether a line is empty once trimmed.
fn is_blank(l: &Vec<char>) -> (r: bool)
    ensures
        r == (trim(l@).len() == 0),
{
    let (a, b) = trim_bounds(l, 0, l.len());
    assert(l@.subrange(0, l@.len() as int) =~= l@);
    a == b
}

/// Whether a line ends a marker's text.
fn ends_text_exec(l: &Vec<char>) -> (r: bool)
    ensures
        r == ends_text(l@),
{
    starts_with_lit(l, "----------------[") || starts_with_lit(l, ">>>>>>>>")
}

/// The views of some lines.
pub open spec fn line_views(v: Seq<Vec<char>>) -> Seq<Seq<char>> {
    v.map_values(|l: Vec<char>| l@)
}

/// Lines `lo..hi` joined with `'\n'`.
fn join_exec(ls: &Vec<Vec<char>>, lo: usize, hi: usize) -> (r: Vec<char>)
    requires
        lo <= hi <= ls@.len(),
    ensures
        r@ == join_lines(line_views(ls@).subrange(lo as int, hi as int)),
{
    let ghost v = line_views(ls@);
    let mut out: Vec<char> = Vec::new();
    if lo == hi {
        assert(v.subrange(lo as int, hi as int) =~= Seq::<Seq<char>>::empty());
        return out;
    }
    let mut m = lo;
    while m < hi
        invariant
            lo <= m <= hi <= ls@.len(),
            v == line_views(ls@),
            m == lo ==> out@.len() == 0,
            m > lo ==> out@ == join_lines(v.subrange(lo as int, m as int)),
        decreases hi - m,
    {
        let ghost prev = out@;
        if m > lo {
            out.push('\n');
        }
        let l = &ls[m];
        let mut k: usize = 0;
        while k < l.len()
            invariant
                k <= l@.len(),
                out@ == (if m > lo {
                    prev + seq!['\n']
                } else {
                    prev
                }) + l@.subrange(0, k as int),
            decreases l@.len() - k,
        {
            out.push(l[k]);
            k = k + 1;
            assert(out@ =~= (if m > lo {
                prev + seq!['\n']
            } else {
                prev
            }) + l@.subrange(0, k as int));
        }
        assert(l@.subrange(0, l@.len() as int) =~= l@);
        assert(v.subrange(lo as int, m + 1).drop_last() =~= v.subrange(lo as int, m as int));
        assert(v[m as int] == l@);
        if m == lo {
            assert(out@ =~= join_lines(v.subrange(lo as int, m + 1)));
        } else {
            assert(out@ =~= join_lines(v.subrange(lo as int, m + 1)));
        }
        m = m + 1;
    }
    out
}

/// Reads a LabelPlus file (see `parse_labelplus`).
pub fn parse_labelplus_file(content: &str) -> (r: CoreResult<LabelplusData>)
    ensures
        match r {
            Ok(d) => parse_labelplus(content@) matches Ok(p) && describes(d, p),
            Err(e) => parse_labelplus(content@) matches Err(err) && is_validation_error(e, err),
        },
{
    let all = chars_of(content);
    let text = if all.len() > 0 && all[0] == '\u{feff}' {
        slice_chars(&all, 1, all.len())
    } else {
        all
    };
    assert(text@ == without_bom(content@));
    let lines = split_lines(&text);
    let ghost ls = line_views(lines@);
    assert(ls == lines_from(without_bom(content@), 0));
    let n = lines.len();
    if n == 0 {
        let m = chars_of("空文件");
        return Err(validation_error("content", &m));
    }
    if !trimmed_equals(&lines[0], "1,0") {
        let (a, b) = trim_bounds(&lines[0], 0, lines[0].len());
        assert(lines[0]@.subrange(0, lines[0]@.len() as int) =~= lines[0]@);
        let magic = slice_chars(&lines[0], a, b);
        let mut m: Vec<char> = Vec::new();
        push_str(&mut m, "无效的魔法数字，期望 '1,0'，实际为 '");
        let mut k: usize = 0;
        while k < magic.len()
            invariant
                k <= magic@.len(),
                m@ == "无效的魔法数字，期望 '1,0'，实际为 '"@ + magic@.subrange(0, k as int),
            decreases magic@.len() - k,
        {
            m.push(magic[k]);
            k = k + 1;
            assert(m@ =~= "无效的魔法数字，期望 '1,0'，实际为 '"@ + magic@.subrange(0, k as int));
        }
        push_str(&mut m, "'");
        assert(magic@.subrange(0, magic@.len() as int) =~= magic@);
        assert(m@ =~= "无效的魔法数字，期望 '1,0'，实际为 '"@ + trim(ls[0]) + "'"@);
        return Err(validation_error("magic_number", &m));
    }
    if n < 2 || !trimmed_equals(&lines[1], "-") {
        let m = chars_of("缺少分隔符'-'");
        return Err(validation_error("separator", &m));
    }
    let mut idx: usize = 2;
    let mut marker_types: Vec<LabelplusMarkerType> = Vec::new();
    let mut type_id: u32 = 1;
    while idx < n && !trimmed_equals(&lines[idx], "-")
        invariant
            2 <= idx <= n,
            n == lines@.len(),
            ls == line_views(lines@),
            type_block_end(ls, idx as int) == type_block_end(ls, 2),
            type_id as int == (if idx - 2 < 9 {
                idx - 2
            } else {
                9
            }) + 1,
            type_views(marker_types@) == type_list(ls, idx as int),
        decreases n - idx,
    {
        let ghost prev = type_views(marker_types@);
        assert(ls[idx as int] == lines@[idx as int]@);
        if type_id <= 9 {
            marker_types.push(LabelplusMarkerType { id: type_id, name: string_from_chars(&lines[idx]) });
            type_id = type_id + 1;
            assert(type_views(marker_types@) =~= prev.push(((idx - 1) as u32, ls[idx as int])));
        }
        idx = idx + 1;
        assert(type_views(marker_types@) =~= type_list(ls, idx as int));
    }
    if idx >= n {
        let m = chars_of("缺少第二个分隔符'-'");
        return Err(validation_error("separator", &m));
    }
    let ghost e = idx as int;
    assert(e == type_block_end(ls, 2));
    idx = idx + 1;
    while idx < n && !starts_with_lit(&lines[idx], ">>>>>>>>")
        invariant
            e + 1 <= idx <= n,
            n == lines@.len(),
            ls == line_views(lines@),
            comments_end(ls, idx as int) == comments_end(ls, e + 1),
        decreases n - idx,
    {
        idx = idx + 1;
    }
    let ntypes = marker_types.len();
    assert(ntypes == type_list(ls, e).len());
    assert(idx as int == comments_end(ls, e + 1));
    let ghost start = idx as int;
    let sep = chars_of("]----------------[");
    let mut markers_by_image: StrMap<LabelplusPage> = StrMap::new();
    let mut image_order: Vec<String> = Vec::new();
    let mut cur: Option<Vec<char>> = None;
    let mut cur_ms: Vec<LabelplusMarker> = Vec::new();
    let ghost mut secs: Seq<(Seq<char>, Seq<LpMarkerView>)> = Seq::empty();
    assert(markers_by_image.map() =~= sections_map(secs));
    assert(name_views(image_order@) =~= Seq::<Seq<char>>::empty());
    assert(lp_views(cur_ms@) =~= Seq::<LpMarkerView>::empty());
    assert(body(ls, start, ntypes as nat, None, Seq::empty(), Seq::empty(), Seq::empty()) is Err ==> parse_labelplus(
        content@,
    ) == Err::<LpParse, LpError>(body(ls, start, ntypes as nat, None, Seq::empty(), Seq::empty(), Seq::empty())->Err_0));
    while idx < n
        invariant
            body(ls, start, ntypes as nat, None, Seq::empty(), Seq::empty(), Seq::empty()) is Err ==> parse_labelplus(
                content@,
            ) == Err::<LpParse, LpError>(
                body(ls, start, ntypes as nat, None, Seq::empty(), Seq::empty(), Seq::empty())->Err_0,
            ),
            start <= idx <= n,
            n == lines@.len(),
            ls == line_views(lines@),
            ntypes <= 9,
            sep@ == marker_sep(),
            markers_by_image.wf(),
            markers_by_image.map() == sections_map(secs),
            body(
                ls,
                idx as int,
                ntypes as nat,
                match cur {
                    Some(c) => Some(c@),
                    None => None,
                },
                lp_views(cur_ms@),
                secs,
                name_views(image_order@),
            ) == body(ls, start, ntypes as nat, None, Seq::empty(), Seq::empty(), Seq::empty()),
        decreases n - idx,
    {
        let line = &lines[idx];
        if starts_with_lit(line, ">>>>>>>>[") && ends_with_lit(line, "]<<<<<<<<") {
            proof {
                reveal_strlit(">>>>>>>>[");
                reveal_strlit("]<<<<<<<<");
                lemma_header_length(line@);
            }
            match cur.take() {
                Some(name) => {
                    let ghost nv = name@;
                    let ghost msv = lp_views(cur_ms@);
                    let mut page_ms: Vec<LabelplusMarker> = Vec::new();
                    std::mem::swap(&mut page_ms, &mut cur_ms);
                    markers_by_image.insert(string_from_chars(&name), LabelplusPage { markers: page_ms });
                    proof {
                        let old_secs = secs;
                        secs = secs.push((nv, msv));
                        assert(secs.drop_last() =~= old_secs);
                    }
                    assert(lp_views(cur_ms@) =~= Seq::<LpMarkerView>::empty());
                },
                None => {},
            }
            let name = slice_chars(line, 9, line.len() - 9);
            let ghost prev_order = name_views(image_order@);
            image_order.push(string_from_chars(&name));
            assert(name_views(image_order@) =~= prev_order.push(name@));
            cur = Some(name);
            idx = idx + 1;
        } else if starts_with_lit(line, "----------------[") && find_exec(line, &sep, 0).is_some() {
            proof {
                reveal_strlit(">>>>>>>>[");
                reveal_strlit("]<<<<<<<<");
                assert(!is_image_header(ls[idx as int]));
                assert(is_marker_header(ls[idx as int]));
            }
            let (image_index, x, y, t) = match parse_marker_header(line, ntypes) {
                Ok(v) => v,
                Err(err) => {
                    proof {
                        let errv = marker_of(ls[idx as int], ntypes as nat)->Err_0;
                        assert(body(ls, start, ntypes as nat, None, Seq::empty(), Seq::empty(), Seq::empty()) == Err::<
                            (Seq<(Seq<char>, Seq<LpMarkerView>)>, Seq<Seq<char>>),
                            LpError,
                        >(errv));
                        assert(parse_labelplus(content@) == Err::<LpParse, LpError>(errv));
                        assert(is_validation_error(err, errv));
                    }
                    return Err(err);
                },
            };
            let mut j = idx + 1;
            while j < n && !ends_text_exec(&lines[j])
                invariant
                    idx + 1 <= j <= n,
                    n == lines@.len(),
                    ls == line_views(lines@),
                    text_end(ls, j as int) == text_end(ls, idx + 1),
                decreases n - j,
            {
                j = j + 1;
            }
            let mut k = j;
            while k > idx + 1 && is_blank(&lines[k - 1])
                invariant
                    idx + 1 <= k <= j <= n,
                    n == lines@.len(),
                    ls == line_views(lines@),
                    kept_end(ls, k as int, idx + 1) == kept_end(ls, j as int, idx + 1),
                decreases k,
            {
                k = k - 1;
            }
            let text = join_exec(&lines, idx + 1, k);
            let ghost prev_ms = lp_views(cur_ms@);
            cur_ms.push(
                LabelplusMarker {
                    image_index,
                    x: string_from_chars(&x),
                    y: string_from_chars(&y),
                    type_id: t,
                    translation: string_from_chars(&text),
                    px: 0,
                    py: 0,
                },
            );
            assert(lp_views(cur_ms@) =~= prev_ms.push(
                LpMarkerView { image_index, x: x@, y: y@, type_id: t, translation: text@, px: 0, py: 0 },
            ));
            idx = j;
        } else {
            idx = idx + 1;
        }
    }
    match cur {
        Some(name) => {
            let ghost nv = name@;
            let ghost msv = lp_views(cur_ms@);
            markers_by_image.insert(string_from_chars(&name), LabelplusPage { markers: cur_ms });
            proof {
                let old_secs = secs;
                secs = secs.push((nv, msv));
                assert(secs.drop_last() =~= old_secs);
            }
        },
        None => {},
    }
    Ok(LabelplusData { marker_types, markers_by_image, image_order })
}

/// Lemma: a page header is long enough to hold both its marks.
pub proof fn lemma_header_length(l: Seq<char>)
    requires
        starts_with(l, ">>>>>>>>["@),
        ends_with(l, "]<<<<<<<<"@),
        (">>>>>>>>["@).len() == 9,
        (">>>>>>>>["@)[8] == '[',
        ("]<<<<<<<<"@).len() == 9,
        ("]<<<<<<<<"@)[0] == ']',
        forall|k: int| 0 <= k < 8 ==> (">>>>>>>>["@)[k] == '>',
    ensures
        l.len() >= 18,
{
    if l.len() < 18 {
        assert(l.subrange(0, 9)[8] == l[8]);
        assert(l.subrange(l.len() - 9, l.len() as int)[0] == l[l.len() - 9]);
        if l.len() - 9 == 8 {
        } else {
            assert(l.subrange(0, 9)[l.len() - 9] == l[l.len() - 9]);
        }
    }
}

/// Checks a LabelPlus file without importing it (the same as reading it).
pub fn validate_labelplus_file(content: &str) -> (r: CoreResult<LabelplusData>)
    ensures
        match r {
            Ok(d) => parse_labelplus(content@) matches Ok(p) && describes(d, p),
            Err(e) => parse_labelplus(content@) matches Err(err) && is_validation_error(e, err),
        },
{
    parse_labelplus_file(content)
}

/// The layout a marker type stands for.
#[derive(Debug, Clone, Copy, PartialEq, Eq, Structural)]
pub struct MarkerTypeStyleConfig {
    pub overlay_text: bool,
    pub horizontal: bool,
}

impl Default for MarkerTypeStyleConfig {
    fn default() -> (s: Self)
        ensures
            s == (MarkerTypeStyleConfig { overlay_text: false, horizontal: false }),
    {
        MarkerTypeStyleConfig { overlay_text: false, horizontal: false }
    }
}

/// A marker type name with the layout it stands for.
#[derive(Debug)]
pub struct MarkerTypeMapping {
    pub name: String,
    pub style: MarkerTypeStyleConfig,
}

/// Marker type names with their layouts (the first match wins), and the
/// layout for names not listed.
#[derive(Debug)]
pub struct MarkerTypeStyleMapping {
    pub type_mappings: Vec<MarkerTypeMapping>,
    pub fallback_style: MarkerTypeStyleConfig,
}

/// The names and layouts of a mapping.
pub open spec fn mapping_views(v: Seq<MarkerTypeMapping>) -> Seq<(Seq<char>, MarkerTypeStyleConfig)> {
    v.map_values(|m: MarkerTypeMapping| (m.name@, m.style))
}

impl Default for MarkerTypeStyleMapping {
    fn default() -> (s: Self)
        ensures
            s.type_mappings@.len() == 0,
            s.fallback_style == (MarkerTypeStyleConfig { overlay_text: false, horizontal: false }),
    {
        MarkerTypeStyleMapping { type_mappings: Vec::new(), fallback_style: MarkerTypeStyleConfig::default() }
    }
}

/// A layout.
pub open spec fn cfg(overlay_text: bool, horizontal: bool) -> MarkerTypeStyleConfig {
    MarkerTypeStyleConfig { overlay_text, horizontal }
}

/// The built-in marker type names, in matching order: the four layouts,
/// then two older names kept for reading old files.
pub open spec fn default_type_mappings() -> Seq<(Seq<char>, MarkerTypeStyleConfig)> {
    seq![
        ("inside+vertical"@, cfg(false, false)),
        ("overlay+vertical"@, cfg(true, false)),
        ("inside+horizontal"@, cfg(false, true)),
        ("overlay+horizontal"@, cfg(true, true)),
        ("框外"@, cfg(true, false)),
        ("框内"@, cfg(false, false)),
    ]
}

fn mapping(name: &str, overlay_text: bool, horizontal: bool) -> (m: MarkerTypeMapping)
    ensures
        m.name@ == name@,
        m.style == cfg(overlay_text, horizontal),
{
    MarkerTypeMapping { name: string_of(name), style: MarkerTypeStyleConfig { overlay_text, horizontal } }
}

/// The built-in mapping of marker type names to layouts.
pub fn get_default_style_mapping() -> (m: MarkerTypeStyleMapping)
    ensures
        mapping_views(m.type_mappings@) == default_type_mappings(),
        m.fallback_style == cfg(false, false),
{
    let mut type_mappings: Vec<MarkerTypeMapping> = Vec::new();
    type_mappings.push(mapping("inside+vertical", false, false));
    type_mappings.push(mapping("overlay+vertical", true, false));
    type_mappings.push(mapping("inside+horizontal", false, true));
    type_mappings.push(mapping("overlay+horizontal", true, true));
    type_mappings.push(mapping("框外", true, false));
    type_mappings.push(mapping("框内", false, false));
    assert(mapping_views(type_mappings@) =~= default_type_mappings());
    MarkerTypeStyleMapping { type_mappings, fallback_style: MarkerTypeStyleConfig { overlay_text: false, horizontal: false } }
}

} // verus!
