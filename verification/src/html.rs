//! Turning the HTML body of a feed entry into plain text for the reader
//! view: tags are dropped, a few character entities are decoded, lines are
//! trimmed and runs of blank lines are collapsed into one.

use vstd::prelude::*;
use crate::text::{
    chars_to_string, is_trimmed, lemma_trim_end_shape, lemma_trim_is_trimmed, lemma_trim_start_shape,
    is_white_space, str_to_chars, trim, trim_chars, trim_end, trim_start,
};

verus! {

/// Whether the scanner is inside a tag after reading `s`: the last of
/// `<` and `>` seen in `s` was `<`.
pub open spec fn inside_tag_after(s: Seq<char>) -> bool
    decreases s.len(),
{
    if s.len() == 0 {
        false
    } else if s.last() == '<' {
        true
    } else if s.last() == '>' {
        false
    } else {
        inside_tag_after(s.drop_last())
    }
}

/// `s` with every `<` and `>` removed, and every character read while inside
/// a tag removed.
pub open spec fn strip_tags(s: Seq<char>) -> Seq<char>
    decreases s.len(),
{
    if s.len() == 0 {
        Seq::empty()
    } else {
        let p = s.drop_last();
        let c = s.last();
        if c == '<' || c == '>' || inside_tag_after(p) {
            strip_tags(p)
        } else {
            strip_tags(p).push(c)
        }
    }
}

/// Whether `s` begins with `pat`.
pub open spec fn starts_with(s: Seq<char>, pat: Seq<char>) -> bool {
    pat.len() <= s.len() && s.take(pat.len() as int) == pat
}

/// `str::replace`: every non-overlapping occurrence of `pat`, found from the
/// left, replaced by `rep`.
pub open spec fn replace_all(s: Seq<char>, pat: Seq<char>, rep: Seq<char>) -> Seq<char>
    decreases s.len(),
{
    if s.len() == 0 {
        Seq::empty()
    } else if pat.len() > 0 && starts_with(s, pat) {
        rep + replace_all(s.skip(pat.len() as int), pat, rep)
    } else {
        seq![s[0]] + replace_all(s.drop_first(), pat, rep)
    }
}

pub open spec fn nbsp_entity() -> Seq<char> {
    seq!['&', 'n', 'b', 's', 'p', ';']
}

pub open spec fn amp_entity() -> Seq<char> {
    seq!['&', 'a', 'm', 'p', ';']
}

pub open spec fn lt_entity() -> Seq<char> {
    seq!['&', 'l', 't', ';']
}

pub open spec fn gt_entity() -> Seq<char> {
    seq!['&', 'g', 't', ';']
}

pub open spec fn quot_entity() -> Seq<char> {
    seq!['&', 'q', 'u', 'o', 't', ';']
}

pub open spec fn apos_entity() -> Seq<char> {
    seq!['&', '#', '3', '9', ';']
}

/// The six entities decoded one after another, in this order, each over the
/// whole text: `&nbsp;`, `&amp;`, `&lt;`, `&gt;`, `&quot;`, `&#39;`.
pub open spec fn decode_entities(s: Seq<char>) -> Seq<char> {
    let s1 = replace_all(s, nbsp_entity(), seq![' ']);
    let s2 = replace_all(s1, amp_entity(), seq!['&']);
    let s3 = replace_all(s2, lt_entity(), seq!['<']);
    let s4 = replace_all(s3, gt_entity(), seq!['>']);
    let s5 = replace_all(s4, quot_entity(), seq!['"']);
    replace_all(s5, apos_entity(), seq!['\''])
}

/// The finished lines and the unfinished last line after reading `s`.
pub open spec fn line_scan(s: Seq<char>) -> (Seq<Seq<char>>, Seq<char>)
    decreases s.len(),
{
    if s.len() == 0 {
        (Seq::empty(), Seq::empty())
    } else {
        let (done, cur) = line_scan(s.drop_last());
        if s.last() == '\n' {
            (done.push(cur), Seq::empty())
        } else {
            (done, cur.push(s.last()))
        }
    }
}

/// `str::lines` before trimming: `s` cut at each `\n`, where a final empty
/// piece (after a closing `\n`, or of an empty text) is not a line.
pub open spec fn text_lines(s: Seq<char>) -> Seq<Seq<char>> {
    let (done, cur) = line_scan(s);
    if cur.len() == 0 {
        done
    } else {
        done.push(cur)
    }
}

/// Each line trimmed.
pub open spec fn trim_all(ls: Seq<Seq<char>>) -> Seq<Seq<char>> {
    ls.map_values(|l: Seq<char>| trim(l))
}

/// Keeps every non-empty line; an empty line is kept only when the kept
/// lines so far end in a non-empty line.
pub open spec fn collapse_blank_lines(ls: Seq<Seq<char>>) -> Seq<Seq<char>>
    decreases ls.len(),
{
    if ls.len() == 0 {
        Seq::empty()
    } else {
        let acc = collapse_blank_lines(ls.drop_last());
        let l = ls.last();
        if l.len() > 0 {
            acc.push(l)
        } else if acc.len() > 0 && acc.last().len() > 0 {
            acc.push(Seq::empty())
        } else {
            acc
        }
    }
}

/// The lines joined with `\n` between them.
pub open spec fn join_lines(ls: Seq<Seq<char>>) -> Seq<char>
    decreases ls.len(),
{
    if ls.len() == 0 {
        Seq::empty()
    } else if ls.len() == 1 {
        ls[0]
    } else {
        join_lines(ls.drop_last()) + seq!['\n'] + ls.last()
    }
}

/// The lines of the cleaned text.
pub open spec fn clean_html_lines(html: Seq<char>) -> Seq<Seq<char>> {
    collapse_blank_lines(trim_all(text_lines(decode_entities(strip_tags(html)))))
}

/// The cleaned text of an HTML fragment.
pub open spec fn clean_html_text(html: Seq<char>) -> Seq<char> {
    join_lines(clean_html_lines(html))
}

/// The views of a vector of character vectors.
pub open spec fn char_vec_views(v: Seq<Vec<char>>) -> Seq<Seq<char>> {
    v.map_values(|l: Vec<char>| l@)
}

fn strip_tags_chars(s: &Vec<char>) -> (r: Vec<char>)
    ensures
        r@ == strip_tags(s@),
{
    let mut r: Vec<char> = Vec::new();
    let mut inside = false;
    let mut i: usize = 0;
    while i < s.len()
        invariant
            i <= s.len(),
            r@ == strip_tags(s@.take(i as int)),
            inside == inside_tag_after(s@.take(i as int)),
        decreases s.len() - i,
    {
        let c = s[i];
        proof {
            assert(s@.take(i + 1).drop_last() =~= s@.take(i as int));
        }
        if c == '<' {
            inside = true;
        } else if c == '>' {
            inside = false;
        } else if !inside {
            r.push(c);
        }
        i = i + 1;
    }
    proof {
        assert(s@.take(s@.len() as int) =~= s@);
    }
    r
}

fn starts_with_at(s: &Vec<char>, i: usize, pat: &Vec<char>) -> (b: bool)
    requires
        i <= s.len(),
    ensures
        b == starts_with(s@.skip(i as int), pat@),
{
    if pat.len() > s.len() - i {
        return false;
    }
    let mut k: usize = 0;
    while k < pat.len()
        invariant
            k <= pat.len() <= s.len() - i,
            forall|j: int| 0 <= j < k ==> s@[i + j] == pat@[j],
        decreases pat.len() - k,
    {
        if s[i + k] != pat[k] {
            assert(s@.skip(i as int).take(pat.len() as int)[k as int] != pat@[k as int]);
            return false;
        }
        k = k + 1;
    }
    assert(s@.skip(i as int).take(pat.len() as int) =~= pat@);
    true
}

fn append_chars(dst: &mut Vec<char>, src: &Vec<char>)
    ensures
        final(dst)@ == old(dst)@ + src@,
{
    let mut k: usize = 0;
    while k < src.len()
        invariant
            k <= src.len(),
            dst@ == old(dst)@ + src@.take(k as int),
        decreases src.len() - k,
    {
        dst.push(src[k]);
        proof {
            assert(src@.take(k + 1) =~= src@.take(k as int).push(src@[k as int]));
        }
        k = k + 1;
    }
    proof {
        assert(src@.take(src@.len() as int) =~= src@);
    }
}

fn replace_all_chars(s: &Vec<char>, pat: &Vec<char>, rep: &Vec<char>) -> (r: Vec<char>)
    requires
        pat.len() > 0,
    ensures
        r@ == replace_all(s@, pat@, rep@),
{
    let mut r: Vec<char> = Vec::new();
    let mut i: usize = 0;
    assert(s@.skip(0) =~= s@);
    while i < s.len()
        invariant
            i <= s.len(),
            pat.len() > 0,
            r@ + replace_all(s@.skip(i as int), pat@, rep@) == replace_all(s@, pat@, rep@),
        decreases s.len() - i,
    {
        let ghost rest = s@.skip(i as int);
        if starts_with_at(s, i, pat) {
            proof {
                assert(rest.skip(pat@.len() as int) =~= s@.skip(i + pat@.len()));
                assert(r@ + rep@ + replace_all(rest.skip(pat@.len() as int), pat@, rep@) =~= r@
                    + (rep@ + replace_all(rest.skip(pat@.len() as int), pat@, rep@)));
            }
            append_chars(&mut r, rep);
            i = i + pat.len();
        } else {
            proof {
                assert(rest.drop_first() =~= s@.skip(i + 1));
                assert(r@.push(s@[i as int]) + replace_all(rest.drop_first(), pat@, rep@) =~= r@
                    + (seq![rest[0]] + replace_all(rest.drop_first(), pat@, rep@)));
            }
            r.push(s[i]);
            i = i + 1;
        }
    }
    proof {
        assert(r@ + replace_all(s@.skip(i as int), pat@, rep@) =~= r@);
    }
    r
}


fn split_lines(s: &Vec<char>) -> (ls: Vec<Vec<char>>)
    ensures
        char_vec_views(ls@) == text_lines(s@),
{
    let mut done: Vec<Vec<char>> = Vec::new();
    let mut cur: Vec<char> = Vec::new();
    let mut i: usize = 0;
    while i < s.len()
        invariant
            i <= s.len(),
            (char_vec_views(done@), cur@) == line_scan(s@.take(i as int)),
        decreases s.len() - i,
    {
        let c = s[i];
        proof {
            assert(s@.take(i + 1).drop_last() =~= s@.take(i as int));
        }
        if c == '\n' {
            let finished = cur;
            cur = Vec::new();
            done.push(finished);
            proof {
                assert(char_vec_views(done@) =~= line_scan(s@.take(i as int)).0.push(
                    finished@,
                ));
            }
        } else {
            cur.push(c);
        }
        i = i + 1;
    }
    proof {
        assert(s@.take(s@.len() as int) =~= s@);
    }
    if cur.len() > 0 {
        let ghost before = done@;
        done.push(cur);
        proof {
            assert(char_vec_views(done@) =~= char_vec_views(before).push(cur@));
        }
    }
    done
}

fn trim_and_collapse(ls: &Vec<Vec<char>>) -> (out: Vec<Vec<char>>)
    ensures
        char_vec_views(out@) == collapse_blank_lines(trim_all(char_vec_views(ls@))),
{
    let ghost trimmed = trim_all(char_vec_views(ls@));
    let mut out: Vec<Vec<char>> = Vec::new();
    let mut i: usize = 0;
    while i < ls.len()
        invariant
            i <= ls.len(),
            trimmed == trim_all(char_vec_views(ls@)),
            char_vec_views(out@) == collapse_blank_lines(trimmed.take(i as int)),
        decreases ls.len() - i,
    {
        let t = trim_chars(&ls[i]);
        let ghost before = out@;
        proof {
            assert(trimmed.take(i + 1).drop_last() =~= trimmed.take(i as int));
            assert(trimmed.take(i + 1).last() == t@);
        }
        if t.len() > 0 {
            out.push(t);
            proof {
                assert(char_vec_views(out@) =~= char_vec_views(before).push(t@));
            }
        } else if out.len() > 0 && out[out.len() - 1].len() > 0 {
            out.push(Vec::new());
            proof {
                assert(char_vec_views(out@) =~= char_vec_views(before).push(Seq::empty()));
            }
        }
        i = i + 1;
    }
    proof {
        assert(trimmed.take(ls@.len() as int) =~= trimmed);
    }
    out
}

fn join_with_newlines(ls: &Vec<Vec<char>>) -> (r: Vec<char>)
    ensures
        r@ == join_lines(char_vec_views(ls@)),
{
    let ghost vs = char_vec_views(ls@);
    let mut r: Vec<char> = Vec::new();
    let mut i: usize = 0;
    while i < ls.len()
        invariant
            i <= ls.len(),
            vs == char_vec_views(ls@),
            r@ == join_lines(vs.take(i as int)),
        decreases ls.len() - i,
    {
        proof {
            assert(vs.take(i + 1).drop_last() =~= vs.take(i as int));
        }
        if i > 0 {
            r.push('\n');
        }
        append_chars(&mut r, &ls[i]);
        proof {
            if i == 0 {
                assert(r@ =~= vs.take(1)[0]);
            }
        }
        i = i + 1;
    }
    proof {
        assert(vs.take(ls@.len() as int) =~= vs);
    }
    r
}

/// Plain text of an HTML fragment, as the reader view shows it.
pub fn clean_html(html: &str) -> (res: String)
    ensures
        res@ == clean_html_text(html@),
{
    let chars = str_to_chars(html);
    let stripped = strip_tags_chars(&chars);
    let nbsp = vec!['&', 'n', 'b', 's', 'p', ';'];
    let amp = vec!['&', 'a', 'm', 'p', ';'];
    let lt = vec!['&', 'l', 't', ';'];
    let gt = vec!['&', 'g', 't', ';'];
    let quot = vec!['&', 'q', 'u', 'o', 't', ';'];
    let apos = vec!['&', '#', '3', '9', ';'];
    let space = vec![' '];
    let ampersand = vec!['&'];
    let less = vec!['<'];
    let greater = vec!['>'];
    let double_quote = vec!['"'];
    let single_quote = vec!['\''];
    proof {
        assert(nbsp@ =~= nbsp_entity());
        assert(amp@ =~= amp_entity());
        assert(lt@ =~= lt_entity());
        assert(gt@ =~= gt_entity());
        assert(quot@ =~= quot_entity());
        assert(apos@ =~= apos_entity());
        assert(space@ =~= seq![' ']);
        assert(ampersand@ =~= seq!['&']);
        assert(less@ =~= seq!['<']);
        assert(greater@ =~= seq!['>']);
        assert(double_quote@ =~= seq!['"']);
        assert(single_quote@ =~= seq!['\'']);
    }
    let s1 = replace_all_chars(&stripped, &nbsp, &space);
    let s2 = replace_all_chars(&s1, &amp, &ampersand);
    let s3 = replace_all_chars(&s2, &lt, &less);
    let s4 = replace_all_chars(&s3, &gt, &greater);
    let s5 = replace_all_chars(&s4, &quot, &double_quote);
    let s6 = replace_all_chars(&s5, &apos, &single_quote);
    let lines = split_lines(&s6);
    let kept = trim_and_collapse(&lines);
    let joined = join_with_newlines(&kept);
    chars_to_string(&joined)
}


/// A line of cleaned text: no white space at either end, no `\n` inside.
pub open spec fn is_clean_line(l: Seq<char>) -> bool {
    is_trimmed(l) && forall|k: int| 0 <= k < l.len() ==> #[trigger] l[k] != '\n'
}

proof fn lemma_line_scan_no_newline(s: Seq<char>)
    ensures
        forall|k: int| 0 <= k < line_scan(s).1.len() ==> #[trigger] line_scan(s).1[k] != '\n',
        forall|i: int, k: int|
            0 <= i < line_scan(s).0.len() && 0 <= k < line_scan(s).0[i].len()
                ==> #[trigger] line_scan(s).0[i][k] != '\n',
    decreases s.len(),
{
    if s.len() > 0 {
        let p = s.drop_last();
        lemma_line_scan_no_newline(p);
        let done = line_scan(p).0;
        let cur = line_scan(p).1;
        if s.last() == '\n' {
            assert(line_scan(s).0 == done.push(cur));
            assert forall|i: int, k: int|
                0 <= i < line_scan(s).0.len() && 0 <= k < line_scan(s).0[i].len() implies #[trigger] line_scan(s).0[i][k]
                != '\n' by {
                if i < done.len() {
                    assert(line_scan(s).0[i] == done[i]);
                } else {
                    assert(line_scan(s).0[i] == cur);
                }
            }
        } else {
            assert(line_scan(s).1 == cur.push(s.last()));
            assert forall|k: int| 0 <= k < line_scan(s).1.len() implies #[trigger] line_scan(s).1[k]
                != '\n' by {
                if k < cur.len() {
                    assert(line_scan(s).1[k] == cur[k]);
                }
            }
        }
    }
}

proof fn lemma_trim_keeps_chars(l: Seq<char>, k: int)
    requires
        0 <= k < trim(l).len(),
    ensures
        exists|j: int| 0 <= j < l.len() && l[j] == #[trigger] trim(l)[k],
{
    lemma_trim_start_shape(l);
    let t = trim_start(l);
    lemma_trim_end_shape(t);
    let off = l.len() - t.len();
    assert(trim(l)[k] == t[k]);
    assert(t[k] == l[off + k]);
}

proof fn lemma_trimmed_lines_clean(ls: Seq<Seq<char>>)
    requires
        forall|i: int, k: int| 0 <= i < ls.len() && 0 <= k < ls[i].len() ==> #[trigger] ls[i][k]
            != '\n',
    ensures
        forall|i: int| 0 <= i < trim_all(ls).len() ==> is_clean_line(#[trigger] trim_all(ls)[i]),
{
    assert forall|i: int| 0 <= i < trim_all(ls).len() implies is_clean_line(
        #[trigger] trim_all(ls)[i],
    ) by {
        let l = ls[i];
        assert(trim_all(ls)[i] == trim(l));
        lemma_trim_is_trimmed(l);
        assert forall|k: int| 0 <= k < trim(l).len() implies #[trigger] trim(l)[k] != '\n' by {
            lemma_trim_keeps_chars(l, k);
            let j = choose|j: int| 0 <= j < l.len() && l[j] == trim(l)[k];
            assert(ls[i][j] != '\n');
        }
    }
}

proof fn lemma_collapse_shape(ls: Seq<Seq<char>>)
    requires
        forall|i: int| 0 <= i < ls.len() ==> is_clean_line(#[trigger] ls[i]),
    ensures
        forall|i: int|
            0 <= i < collapse_blank_lines(ls).len() ==> is_clean_line(
                #[trigger] collapse_blank_lines(ls)[i],
            ),
        collapse_blank_lines(ls).len() > 0 ==> collapse_blank_lines(ls)[0].len() > 0,
        forall|i: int|
            0 < i < collapse_blank_lines(ls).len() ==> !(collapse_blank_lines(ls)[i - 1].len()
                == 0 && #[trigger] collapse_blank_lines(ls)[i].len() == 0),
    decreases ls.len(),
{
    if ls.len() > 0 {
        lemma_collapse_shape(ls.drop_last());
        assert(is_clean_line(ls[ls.len() - 1]));
        let e: Seq<char> = Seq::empty();
        assert(is_clean_line(e));
    }
}

/// Law: the cleaned text is a sequence of lines, each without white space
/// at its ends and without a line break inside; it never starts with an
/// empty line and never holds two empty lines in a row.
pub proof fn lemma_clean_html_lines_shape(html: Seq<char>)
    ensures
        forall|i: int|
            0 <= i < clean_html_lines(html).len() ==> is_clean_line(
                #[trigger] clean_html_lines(html)[i],
            ),
        clean_html_lines(html).len() > 0 ==> clean_html_lines(html)[0].len() > 0,
        forall|i: int|
            0 < i < clean_html_lines(html).len() ==> !(clean_html_lines(html)[i - 1].len() == 0
                && #[trigger] clean_html_lines(html)[i].len() == 0),
        clean_html_text(html) == join_lines(clean_html_lines(html)),
{
    let s = decode_entities(strip_tags(html));
    lemma_line_scan_no_newline(s);
    let ls = text_lines(s);
    assert forall|i: int, k: int| 0 <= i < ls.len() && 0 <= k < ls[i].len() implies #[trigger] ls[i][k]
        != '\n' by {
        if i < line_scan(s).0.len() {
            assert(ls[i] == line_scan(s).0[i]);
        } else {
            assert(ls[i] == line_scan(s).1);
        }
    }
    lemma_trimmed_lines_clean(ls);
    lemma_collapse_shape(trim_all(ls));
}

/// Text with no markup characters (`<`, `>`, `&`) and no line breaks.
pub open spec fn is_plain_line(s: Seq<char>) -> bool {
    forall|k: int|
        0 <= k < s.len() ==> #[trigger] s[k] != '<' && s[k] != '>' && s[k] != '&' && s[k] != '\n'
}

proof fn lemma_strip_plain(s: Seq<char>)
    requires
        is_plain_line(s),
    ensures
        strip_tags(s) == s,
        !inside_tag_after(s),
    decreases s.len(),
{
    if s.len() > 0 {
        assert(is_plain_line(s.drop_last()));
        lemma_strip_plain(s.drop_last());
        assert(s.drop_last().push(s.last()) =~= s);
    }
}

proof fn lemma_line_scan_plain(s: Seq<char>)
    requires
        is_plain_line(s),
    ensures
        line_scan(s) == (Seq::<Seq<char>>::empty(), s),
    decreases s.len(),
{
    if s.len() > 0 {
        assert(is_plain_line(s.drop_last()));
        lemma_line_scan_plain(s.drop_last());
        assert(s.drop_last().push(s.last()) =~= s);
    }
}

/// Law: a non-empty line of plain text (no `<`, `>`, `&` or line break, and
/// no white space at its ends) comes out of the cleaning unchanged.
pub proof fn lemma_clean_html_plain_line(s: Seq<char>)
    requires
        s.len() > 0,
        is_plain_line(s),
        is_trimmed(s),
    ensures
        clean_html_text(s) == s,
{
    lemma_strip_plain(s);
    assert forall|k: int| 0 <= k < s.len() implies #[trigger] s[k] != '&' by {}
    lemma_replace_without_amp(s, nbsp_entity(), seq![' ']);
    lemma_replace_without_amp(s, amp_entity(), seq!['&']);
    lemma_replace_without_amp(s, lt_entity(), seq!['<']);
    lemma_replace_without_amp(s, gt_entity(), seq!['>']);
    lemma_replace_without_amp(s, quot_entity(), seq!['"']);
    lemma_replace_without_amp(s, apos_entity(), seq!['\'']);
    assert(decode_entities(strip_tags(s)) == s);
    lemma_line_scan_plain(s);
    assert(text_lines(s) =~= seq![s]);
    assert(trim_start(s) == s);
    assert(trim_end(s) == s);
    assert(trim_all(seq![s]) =~= seq![s]);
    let one = seq![s];
    assert(one.drop_last() =~= Seq::<Seq<char>>::empty());
    assert(collapse_blank_lines(one.drop_last()) =~= Seq::<Seq<char>>::empty());
    assert(collapse_blank_lines(one) =~= one);
}

/// Every character of `s` satisfies `p`.
pub open spec fn all_chars(s: Seq<char>, p: spec_fn(char) -> bool) -> bool {
    forall|k: int| 0 <= k < s.len() ==> p(#[trigger] s[k])
}

/// Neither `<` nor `>`.
pub open spec fn not_angle(c: char) -> bool {
    c != '<' && c != '>'
}

proof fn lemma_strip_chars(s: Seq<char>, p: spec_fn(char) -> bool)
    ensures
        all_chars(s, p) ==> all_chars(strip_tags(s), p),
        all_chars(strip_tags(s), |c: char| not_angle(c)),
        strip_tags(s).len() <= s.len(),
    decreases s.len(),
{
    if s.len() > 0 {
        let q = s.drop_last();
        lemma_strip_chars(q, p);
        if all_chars(s, p) {
            assert(all_chars(q, p)) by {
                assert forall|k: int| 0 <= k < q.len() implies p(#[trigger] q[k]) by {
                    assert(q[k] == s[k]);
                }
            }
            assert(p(s[s.len() - 1]));
        }
    }
}

proof fn lemma_replace_without_amp(s: Seq<char>, pat: Seq<char>, rep: Seq<char>)
    requires
        forall|k: int| 0 <= k < s.len() ==> #[trigger] s[k] != '&',
        pat.len() > 0,
        pat[0] == '&',
    ensures
        replace_all(s, pat, rep) == s,
    decreases s.len(),
{
    if s.len() > 0 {
        if pat.len() <= s.len() {
            assert(s.take(pat.len() as int)[0] == s[0]);
        }
        let t = s.drop_first();
        assert forall|k: int| 0 <= k < t.len() implies #[trigger] t[k] != '&' by {
            assert(t[k] == s[k + 1]);
        }
        lemma_replace_without_amp(t, pat, rep);
        assert(seq![s[0]] + t =~= s);
    }
}

proof fn lemma_replace_not_longer(s: Seq<char>, pat: Seq<char>, rep: Seq<char>)
    requires
        pat.len() > 0,
        rep.len() <= pat.len(),
    ensures
        replace_all(s, pat, rep).len() <= s.len(),
    decreases s.len(),
{
    if s.len() > 0 {
        if starts_with(s, pat) {
            lemma_replace_not_longer(s.skip(pat.len() as int), pat, rep);
        } else {
            lemma_replace_not_longer(s.drop_first(), pat, rep);
        }
    }
}

proof fn lemma_decode_not_longer(s: Seq<char>)
    ensures
        decode_entities(s).len() <= s.len(),
{
    let s1 = replace_all(s, nbsp_entity(), seq![' ']);
    let s2 = replace_all(s1, amp_entity(), seq!['&']);
    let s3 = replace_all(s2, lt_entity(), seq!['<']);
    let s4 = replace_all(s3, gt_entity(), seq!['>']);
    let s5 = replace_all(s4, quot_entity(), seq!['"']);
    lemma_replace_not_longer(s, nbsp_entity(), seq![' ']);
    lemma_replace_not_longer(s1, amp_entity(), seq!['&']);
    lemma_replace_not_longer(s2, lt_entity(), seq!['<']);
    lemma_replace_not_longer(s3, gt_entity(), seq!['>']);
    lemma_replace_not_longer(s4, quot_entity(), seq!['"']);
    lemma_replace_not_longer(s5, apos_entity(), seq!['\'']);
}

proof fn lemma_line_scan_chars(s: Seq<char>, p: spec_fn(char) -> bool)
    requires
        all_chars(s, p),
    ensures
        all_chars(line_scan(s).1, p),
        forall|i: int| 0 <= i < line_scan(s).0.len() ==> all_chars(#[trigger] line_scan(s).0[i], p),
    decreases s.len(),
{
    if s.len() > 0 {
        let q = s.drop_last();
        assert forall|k: int| 0 <= k < q.len() implies p(#[trigger] q[k]) by {
            assert(q[k] == s[k]);
        }
        lemma_line_scan_chars(q, p);
        let done = line_scan(q).0;
        let cur = line_scan(q).1;
        assert(p(s[s.len() - 1]));
        if s.last() == '\n' {
            assert forall|i: int| 0 <= i < line_scan(s).0.len() implies all_chars(
                #[trigger] line_scan(s).0[i],
                p,
            ) by {
                if i < done.len() {
                    assert(line_scan(s).0[i] == done[i]);
                } else {
                    assert(line_scan(s).0[i] == cur);
                }
            }
        } else {
            assert forall|k: int| 0 <= k < line_scan(s).1.len() implies p(
                #[trigger] line_scan(s).1[k],
            ) by {
                if k < cur.len() {
                    assert(line_scan(s).1[k] == cur[k]);
                }
            }
        }
    }
}

proof fn lemma_lines_chars(s: Seq<char>, p: spec_fn(char) -> bool)
    requires
        all_chars(s, p),
    ensures
        forall|i: int| 0 <= i < collapse_blank_lines(trim_all(text_lines(s))).len() ==> all_chars(
            #[trigger] collapse_blank_lines(trim_all(text_lines(s)))[i],
            p,
        ),
{
    lemma_line_scan_chars(s, p);
    let ls = text_lines(s);
    assert forall|i: int| 0 <= i < ls.len() implies all_chars(#[trigger] ls[i], p) by {
        if i < line_scan(s).0.len() {
            assert(ls[i] == line_scan(s).0[i]);
        } else {
            assert(ls[i] == line_scan(s).1);
        }
    }
    let ts = trim_all(ls);
    assert forall|i: int| 0 <= i < ts.len() implies all_chars(#[trigger] ts[i], p) by {
        assert(ts[i] == trim(ls[i]));
        assert forall|k: int| 0 <= k < trim(ls[i]).len() implies p(#[trigger] trim(ls[i])[k]) by {
            lemma_trim_keeps_chars(ls[i], k);
            let j = choose|j: int| 0 <= j < ls[i].len() && ls[i][j] == trim(ls[i])[k];
            assert(p(ls[i][j]));
        }
    }
    lemma_collapse_chars(ts, p);
}

proof fn lemma_collapse_chars(ls: Seq<Seq<char>>, p: spec_fn(char) -> bool)
    requires
        forall|i: int| 0 <= i < ls.len() ==> all_chars(#[trigger] ls[i], p),
    ensures
        forall|i: int| 0 <= i < collapse_blank_lines(ls).len() ==> all_chars(
            #[trigger] collapse_blank_lines(ls)[i],
            p,
        ),
    decreases ls.len(),
{
    if ls.len() > 0 {
        let q = ls.drop_last();
        assert forall|i: int| 0 <= i < q.len() implies all_chars(#[trigger] q[i], p) by {
            assert(q[i] == ls[i]);
        }
        lemma_collapse_chars(q, p);
        let acc = collapse_blank_lines(q);
        let l = ls.last();
        assert(all_chars(l, p));
        let e: Seq<char> = Seq::empty();
        assert(all_chars(e, p));
        let r = collapse_blank_lines(ls);
        assert forall|i: int| 0 <= i < r.len() implies all_chars(#[trigger] r[i], p) by {
            if i < acc.len() {
                assert(r[i] == acc[i]);
            } else if l.len() > 0 {
                assert(r[i] == l);
            } else {
                assert(r[i] == e);
            }
        }
    }
}

proof fn lemma_join_chars(ls: Seq<Seq<char>>, p: spec_fn(char) -> bool)
    requires
        p('\n'),
        forall|i: int| 0 <= i < ls.len() ==> all_chars(#[trigger] ls[i], p),
    ensures
        all_chars(join_lines(ls), p),
    decreases ls.len(),
{
    if ls.len() == 1 {
        assert(all_chars(ls[0], p));
    } else if ls.len() > 1 {
        let q = ls.drop_last();
        assert forall|i: int| 0 <= i < q.len() implies all_chars(#[trigger] q[i], p) by {
            assert(q[i] == ls[i]);
        }
        lemma_join_chars(q, p);
        let a = join_lines(q);
        let l = ls.last();
        assert(all_chars(l, p));
        assert forall|k: int| 0 <= k < join_lines(ls).len() implies p(#[trigger] join_lines(ls)[k]) by {
            if k < a.len() {
                assert(join_lines(ls)[k] == a[k]);
            } else if k == a.len() {
                assert(join_lines(ls)[k] == '\n');
            } else {
                assert(join_lines(ls)[k] == l[k - a.len() - 1]);
            }
        }
    }
}

/// Law: text without `&` cleans to text without `<` or `>`: tags and stray
/// angle brackets are dropped, and only an entity can bring them back.
pub proof fn lemma_clean_html_no_angles(html: Seq<char>)
    requires
        forall|k: int| 0 <= k < html.len() ==> #[trigger] html[k] != '&',
    ensures
        forall|k: int|
            0 <= k < clean_html_text(html).len() ==> #[trigger] clean_html_text(html)[k] != '<'
                && clean_html_text(html)[k] != '>',
{
    let no_amp = |c: char| c != '&';
    let p = |c: char| not_angle(c);
    assert(all_chars(html, no_amp));
    lemma_strip_chars(html, no_amp);
    let st = strip_tags(html);
    assert forall|k: int| 0 <= k < st.len() implies #[trigger] st[k] != '&' by {
        assert(no_amp(st[k]));
    }
    lemma_replace_without_amp(st, nbsp_entity(), seq![' ']);
    lemma_replace_without_amp(st, amp_entity(), seq!['&']);
    lemma_replace_without_amp(st, lt_entity(), seq!['<']);
    lemma_replace_without_amp(st, gt_entity(), seq!['>']);
    lemma_replace_without_amp(st, quot_entity(), seq!['"']);
    lemma_replace_without_amp(st, apos_entity(), seq!['\'']);
    assert(decode_entities(st) == st);
    lemma_lines_chars(st, p);
    lemma_join_chars(collapse_blank_lines(trim_all(text_lines(st))), p);
    assert forall|k: int| 0 <= k < clean_html_text(html).len() implies #[trigger] clean_html_text(
        html,
    )[k] != '<' && clean_html_text(html)[k] != '>' by {
        assert(p(clean_html_text(html)[k]));
    }
}

/// The characters of the lines with one line break after each.
pub open spec fn lines_size(ls: Seq<Seq<char>>) -> int
    decreases ls.len(),
{
    if ls.len() == 0 {
        0
    } else {
        lines_size(ls.drop_last()) + ls.last().len() + 1
    }
}

proof fn lemma_line_scan_size(s: Seq<char>)
    ensures
        lines_size(line_scan(s).0) + line_scan(s).1.len() == s.len(),
    decreases s.len(),
{
    if s.len() > 0 {
        lemma_line_scan_size(s.drop_last());
        let done = line_scan(s.drop_last()).0;
        let cur = line_scan(s.drop_last()).1;
        if s.last() == '\n' {
            assert(done.push(cur).drop_last() =~= done);
        }
    }
}

proof fn lemma_trim_all_size(ls: Seq<Seq<char>>)
    ensures
        lines_size(trim_all(ls)) <= lines_size(ls),
    decreases ls.len(),
{
    if ls.len() > 0 {
        let q = ls.drop_last();
        lemma_trim_all_size(q);
        assert(trim_all(ls).drop_last() =~= trim_all(q));
        let l = ls.last();
        lemma_trim_start_shape(l);
        lemma_trim_end_shape(trim_start(l));
        assert(trim_all(ls).last() == trim(l));
    }
}

proof fn lemma_collapse_size(ls: Seq<Seq<char>>)
    ensures
        lines_size(collapse_blank_lines(ls)) <= lines_size(ls),
    decreases ls.len(),
{
    if ls.len() > 0 {
        let q = ls.drop_last();
        lemma_collapse_size(q);
        let acc = collapse_blank_lines(q);
        let l = ls.last();
        let e: Seq<char> = Seq::empty();
        assert(acc.push(l).drop_last() =~= acc);
        assert(acc.push(e).drop_last() =~= acc);
    }
}

proof fn lemma_join_size(ls: Seq<Seq<char>>)
    requires
        ls.len() > 0,
    ensures
        join_lines(ls).len() + 1 == lines_size(ls),
    decreases ls.len(),
{
    if ls.len() == 1 {
        assert(ls.drop_last() =~= Seq::<Seq<char>>::empty());
        assert(lines_size(ls.drop_last()) == 0);
        assert(ls.last() == ls[0]);
    } else {
        lemma_join_size(ls.drop_last());
        assert(join_lines(ls).len() == join_lines(ls.drop_last()).len() + 1 + ls.last().len());
    }
}

/// Law: the cleaned text is never longer than its input (counted in
/// characters): tags and entities only shrink, trimming only removes, and
/// no line break is added.
pub proof fn lemma_clean_html_not_longer(html: Seq<char>)
    ensures
        clean_html_text(html).len() <= html.len(),
{
    let st = strip_tags(html);
    lemma_strip_chars(html, |c: char| true);
    let d = decode_entities(st);
    lemma_decode_not_longer(st);
    lemma_line_scan_size(d);
    let done = line_scan(d).0;
    let cur = line_scan(d).1;
    let tl = text_lines(d);
    if cur.len() > 0 {
        assert(done.push(cur).drop_last() =~= done);
    }
    assert(lines_size(tl) <= d.len() + 1);
    assert(cur.len() == 0 ==> lines_size(tl) <= d.len());
    let ts = trim_all(tl);
    lemma_trim_all_size(tl);
    let c = collapse_blank_lines(ts);
    lemma_collapse_size(ts);
    if c.len() > 0 {
        lemma_join_size(c);
    }
}

proof fn lemma_inside_tag_after_concat(x: Seq<char>, y: Seq<char>)
    requires
        !inside_tag_after(x),
    ensures
        inside_tag_after(x + y) == inside_tag_after(y),
    decreases y.len(),
{
    if y.len() == 0 {
        assert(x + y =~= x);
    } else {
        lemma_inside_tag_after_concat(x, y.drop_last());
        assert((x + y).drop_last() =~= x + y.drop_last());
    }
}

proof fn lemma_strip_concat(x: Seq<char>, y: Seq<char>)
    requires
        !inside_tag_after(x),
    ensures
        strip_tags(x + y) == strip_tags(x) + strip_tags(y),
    decreases y.len(),
{
    if y.len() == 0 {
        assert(x + y =~= x);
        assert(strip_tags(x) + strip_tags(y) =~= strip_tags(x));
    } else {
        let p = y.drop_last();
        lemma_strip_concat(x, p);
        lemma_inside_tag_after_concat(x, p);
        assert((x + y).drop_last() =~= x + p);
        assert((x + y).last() == y.last());
        if !(y.last() == '<' || y.last() == '>' || inside_tag_after(p)) {
            assert(strip_tags(x) + strip_tags(p).push(y.last()) =~= (strip_tags(x) + strip_tags(p)).push(
                y.last(),
            ));
        }
    }
}

proof fn lemma_open_tag(u: Seq<char>)
    requires
        forall|k: int| 0 <= k < u.len() ==> not_angle(#[trigger] u[k]),
    ensures
        strip_tags(seq!['<'] + u).len() == 0,
        inside_tag_after(seq!['<'] + u),
    decreases u.len(),
{
    if u.len() == 0 {
        let one = seq!['<'];
        assert(seq!['<'] + u =~= one);
        assert(one.drop_last() =~= Seq::<char>::empty());
        assert(one.last() == '<');
        assert(strip_tags(one) == strip_tags(one.drop_last()));
    } else {
        let p = u.drop_last();
        assert forall|k: int| 0 <= k < p.len() implies not_angle(#[trigger] p[k]) by {
            assert(p[k] == u[k]);
        }
        lemma_open_tag(p);
        let w = seq!['<'] + u;
        assert(w.drop_last() =~= seq!['<'] + p);
        assert(not_angle(u[u.len() - 1]));
        assert(w.last() == u[u.len() - 1]);
        assert(strip_tags(w) == strip_tags(w.drop_last()));
    }
}

/// Law: a whole tag (`<`, characters other than `<` and `>`, then `>`)
/// that starts outside any tag is dropped without a trace: the text cleans
/// as if it were not there.
pub proof fn lemma_clean_html_drops_tag(s: Seq<char>, u: Seq<char>, t: Seq<char>)
    requires
        !inside_tag_after(s),
        forall|k: int| 0 <= k < u.len() ==> #[trigger] u[k] != '<' && u[k] != '>',
    ensures
        clean_html_text(s + (seq!['<'] + u + seq!['>']) + t) == clean_html_text(s + t),
{
    let tag = seq!['<'] + u + seq!['>'];
    assert forall|k: int| 0 <= k < u.len() implies not_angle(#[trigger] u[k]) by {}
    lemma_open_tag(u);
    assert(tag.drop_last() =~= seq!['<'] + u);
    assert(strip_tags(tag).len() == 0);
    assert(!inside_tag_after(tag));
    lemma_strip_concat(s, tag);
    lemma_inside_tag_after_concat(s, tag);
    lemma_strip_concat(s + tag, t);
    lemma_strip_concat(s, t);
    assert(strip_tags(s) + strip_tags(tag) =~= strip_tags(s));
    assert(strip_tags(s + tag + t) == strip_tags(s + t));
}

/// The six entities that the cleaning decodes, each with its character, in
/// the order they are decoded.
pub open spec fn entity_pairs() -> Seq<(Seq<char>, char)> {
    seq![
        (nbsp_entity(), ' '),
        (amp_entity(), '&'),
        (lt_entity(), '<'),
        (gt_entity(), '>'),
        (quot_entity(), '"'),
        (apos_entity(), '\''),
    ]
}

pub open spec fn no_amp(x: Seq<char>) -> bool {
    forall|k: int| 0 <= k < x.len() ==> #[trigger] x[k] != '&'
}

proof fn lemma_replace_prefix(a: Seq<char>, b: Seq<char>, pat: Seq<char>, rep: Seq<char>)
    requires
        no_amp(a),
        pat.len() > 0,
        pat[0] == '&',
    ensures
        replace_all(a + b, pat, rep) == a + replace_all(b, pat, rep),
    decreases a.len(),
{
    if a.len() == 0 {
        assert(a + b =~= b);
        assert(a + replace_all(b, pat, rep) =~= replace_all(b, pat, rep));
    } else {
        let x = a + b;
        assert(x[0] == a[0]);
        if pat.len() <= x.len() {
            assert(x.take(pat.len() as int)[0] == x[0]);
        }
        let a1 = a.drop_first();
        assert(no_amp(a1)) by {
            assert forall|k: int| 0 <= k < a1.len() implies #[trigger] a1[k] != '&' by {
                assert(a1[k] == a[k + 1]);
            }
        }
        lemma_replace_prefix(a1, b, pat, rep);
        assert(x.drop_first() =~= a1 + b);
        assert(seq![a[0]] + (a1 + replace_all(b, pat, rep)) =~= a + replace_all(b, pat, rep));
    }
}

proof fn lemma_no_amp_identity(x: Seq<char>, pat: Seq<char>, rep: Seq<char>)
    requires
        no_amp(x),
        pat.len() > 0,
        pat[0] == '&',
    ensures
        replace_all(x, pat, rep) == x,
{
    lemma_replace_without_amp(x, pat, rep);
}

proof fn lemma_decode_step(s: Seq<char>, t: Seq<char>, n: int, j: int)
    requires
        0 <= n < 6,
        0 <= j < 6,
        no_amp(s),
        no_amp(t),
        forall|k: int| 0 <= k < t.len() ==> #[trigger] t[k] != ';',
    ensures
        ({
            let e = entity_pairs()[n].0;
            let r = entity_pairs()[n].1;
            let before = if j <= n { e } else { seq![r] };
            let after = if j < n { e } else { seq![r] };
            replace_all(s + (before + t), entity_pairs()[j].0, seq![entity_pairs()[j].1])
                == s + (after + t)
        }),
{
    let e = entity_pairs()[n].0;
    let r = entity_pairs()[n].1;
    let pat = entity_pairs()[j].0;
    let rep = seq![entity_pairs()[j].1];
    assert(pat.len() >= 4 && pat[0] == '&' && pat[pat.len() - 1] == ';');
    assert(e.len() >= 4 && e[0] == '&');
    assert(forall|k: int| 1 <= k < e.len() ==> #[trigger] e[k] != '&');
    assert(j != n ==> e[1] != pat[1]);
    let before = if j <= n { e } else { seq![r] };
    lemma_replace_prefix(s, before + t, pat, rep);
    let y = before + t;
    if j < n {
        // another entity: no match at the start, and no `&` after it
        assert(y[0] == '&' && y[1] == e[1]);
        assert(!starts_with(y, pat)) by {
            if starts_with(y, pat) {
                assert(y.take(pat.len() as int)[1] == y[1]);
            }
        }
        let y1 = y.drop_first();
        assert(no_amp(y1)) by {
            assert forall|k: int| 0 <= k < y1.len() implies #[trigger] y1[k] != '&' by {
                if k + 1 < e.len() {
                    assert(y1[k] == e[k + 1]);
                } else {
                    assert(y1[k] == t[k + 1 - e.len()]);
                }
            }
        }
        lemma_no_amp_identity(y1, pat, rep);
        assert(seq![y[0]] + y1 =~= y);
    } else if j == n {
        assert(starts_with(y, pat)) by {
            assert(y.take(pat.len() as int) =~= e);
        }
        assert(y.skip(pat.len() as int) =~= t);
        lemma_no_amp_identity(t, pat, rep);
        assert(rep + t =~= seq![r] + t);
    } else if r != '&' {
        assert(no_amp(y)) by {
            assert forall|k: int| 0 <= k < y.len() implies #[trigger] y[k] != '&' by {
                if k > 0 {
                    assert(y[k] == t[k - 1]);
                }
            }
        }
        lemma_no_amp_identity(y, pat, rep);
    } else {
        assert(!starts_with(y, pat)) by {
            if starts_with(y, pat) {
                let m = pat.len() - 1;
                assert(y.take(pat.len() as int)[m] == y[m]);
                assert(y[m] == t[m - 1]);
            }
        }
        let y1 = y.drop_first();
        assert(y1 =~= t);
        lemma_no_amp_identity(t, pat, rep);
        assert(seq![y[0]] + y1 =~= y);
    }
}

proof fn lemma_strip_without_angles(x: Seq<char>)
    requires
        forall|k: int| 0 <= k < x.len() ==> not_angle(#[trigger] x[k]),
    ensures
        strip_tags(x) == x,
        !inside_tag_after(x),
    decreases x.len(),
{
    if x.len() > 0 {
        let p = x.drop_last();
        assert forall|k: int| 0 <= k < p.len() implies not_angle(#[trigger] p[k]) by {
            assert(p[k] == x[k]);
        }
        lemma_strip_without_angles(p);
        assert(not_angle(x[x.len() - 1]));
        assert(p.push(x.last()) =~= x);
    }
}

proof fn lemma_line_scan_single(x: Seq<char>)
    requires
        forall|k: int| 0 <= k < x.len() ==> #[trigger] x[k] != '\n',
    ensures
        line_scan(x) == (Seq::<Seq<char>>::empty(), x),
    decreases x.len(),
{
    if x.len() > 0 {
        let p = x.drop_last();
        assert forall|k: int| 0 <= k < p.len() implies #[trigger] p[k] != '\n' by {
            assert(p[k] == x[k]);
        }
        lemma_line_scan_single(p);
        assert(x[x.len() - 1] != '\n');
        assert(p.push(x.last()) =~= x);
    }
}

proof fn lemma_clean_single_line(x: Seq<char>)
    requires
        x.len() > 0,
        forall|k: int| 0 <= k < x.len() ==> #[trigger] x[k] != '\n',
        !is_white_space(x[0]),
        !is_white_space(x.last()),
    ensures
        join_lines(collapse_blank_lines(trim_all(text_lines(x)))) == x,
{
    lemma_line_scan_single(x);
    assert(text_lines(x) =~= seq![x]);
    assert(trim_start(x) == x);
    assert(trim_end(x) == x);
    assert(trim_all(seq![x]) =~= seq![x]);
    let one = seq![x];
    assert(one.drop_last() =~= Seq::<Seq<char>>::empty());
    assert(collapse_blank_lines(one.drop_last()) =~= Seq::<Seq<char>>::empty());
    assert(collapse_blank_lines(one) =~= one);
}

/// Law: each of the six entities, written between two pieces of plain text
/// (no `<`, `>`, `&` or line break; the second also without `;`, so that no
/// entity is formed after decoding), is replaced by its character and the
/// rest is kept.
pub proof fn lemma_clean_html_decodes_entity(s: Seq<char>, t: Seq<char>, n: int)
    requires
        0 <= n < 6,
        s.len() > 0,
        t.len() > 0,
        is_plain_line(s),
        is_plain_line(t),
        forall|k: int| 0 <= k < t.len() ==> #[trigger] t[k] != ';',
        !is_white_space(s[0]),
        !is_white_space(t.last()),
    ensures
        clean_html_text(s + entity_pairs()[n].0 + t) == s.push(entity_pairs()[n].1) + t,
{
    let e = entity_pairs()[n].0;
    let r = entity_pairs()[n].1;
    assert(no_amp(s));
    assert(no_amp(t));
    let x = s + e + t;
    assert(x =~= s + (e + t));
    assert forall|k: int| 0 <= k < x.len() implies not_angle(#[trigger] x[k]) by {
        if k < s.len() {
            assert(x[k] == s[k]);
        } else if k < s.len() + e.len() {
            assert(x[k] == e[k - s.len()]);
        } else {
            assert(x[k] == t[k - s.len() - e.len()]);
        }
    }
    lemma_strip_without_angles(x);
    assert(entity_pairs()[0].0 == nbsp_entity() && entity_pairs()[0].1 == ' ');
    assert(entity_pairs()[1].0 == amp_entity() && entity_pairs()[1].1 == '&');
    assert(entity_pairs()[2].0 == lt_entity() && entity_pairs()[2].1 == '<');
    assert(entity_pairs()[3].0 == gt_entity() && entity_pairs()[3].1 == '>');
    assert(entity_pairs()[4].0 == quot_entity() && entity_pairs()[4].1 == '"');
    assert(entity_pairs()[5].0 == apos_entity() && entity_pairs()[5].1 == '\'');
    lemma_decode_step(s, t, n, 0);
    lemma_decode_step(s, t, n, 1);
    lemma_decode_step(s, t, n, 2);
    lemma_decode_step(s, t, n, 3);
    lemma_decode_step(s, t, n, 4);
    lemma_decode_step(s, t, n, 5);
    let z = s + (seq![r] + t);
    assert(decode_entities(x) == z);
    assert(z =~= s.push(r) + t);
    assert forall|k: int| 0 <= k < z.len() implies #[trigger] z[k] != '\n' by {
        if k < s.len() {
            assert(z[k] == s[k]);
        } else if k == s.len() {
            assert(z[k] == r);
        } else {
            assert(z[k] == t[k - s.len() - 1]);
        }
    }
    assert(z[0] == s[0]);
    assert(z.last() == t.last());
    lemma_clean_single_line(z);
}

/// `m` line breaks.
pub open spec fn line_breaks(m: nat) -> Seq<char> {
    Seq::new(m, |i: int| '\n')
}

spec fn blank_lines(k: nat) -> Seq<Seq<char>> {
    Seq::new(k, |i: int| Seq::<char>::empty())
}

proof fn lemma_line_scan_breaks(a: Seq<char>, k: nat)
    requires
        k >= 1,
        forall|i: int| 0 <= i < a.len() ==> #[trigger] a[i] != '\n',
    ensures
        line_scan(a + line_breaks(k)) == (seq![a] + blank_lines((k - 1) as nat), Seq::<char>::empty()),
    decreases k,
{
    let x = a + line_breaks(k);
    assert(x.drop_last() =~= a + line_breaks((k - 1) as nat));
    assert(x.last() == '\n');
    if k == 1 {
        assert(a + line_breaks(0) =~= a);
        lemma_line_scan_single(a);
        assert(Seq::<Seq<char>>::empty().push(a) =~= seq![a] + blank_lines(0));
    } else {
        lemma_line_scan_breaks(a, (k - 1) as nat);
        assert((seq![a] + blank_lines((k - 2) as nat)).push(Seq::<char>::empty()) =~= seq![a]
            + blank_lines((k - 1) as nat));
    }
}

proof fn lemma_line_scan_append_line(p: Seq<char>, b: Seq<char>)
    requires
        line_scan(p).1.len() == 0,
        forall|i: int| 0 <= i < b.len() ==> #[trigger] b[i] != '\n',
    ensures
        line_scan(p + b) == (line_scan(p).0, b),
    decreases b.len(),
{
    if b.len() == 0 {
        assert(p + b =~= p);
    } else {
        let q = b.drop_last();
        assert forall|i: int| 0 <= i < q.len() implies #[trigger] q[i] != '\n' by {
            assert(q[i] == b[i]);
        }
        lemma_line_scan_append_line(p, q);
        assert((p + b).drop_last() =~= p + q);
        assert((p + b).last() == b[b.len() - 1]);
        assert(q.push(b.last()) =~= b);
    }
}

proof fn lemma_collapse_blanks(a: Seq<char>, k: nat)
    requires
        a.len() > 0,
    ensures
        k == 0 ==> collapse_blank_lines(seq![a] + blank_lines(k)) == seq![a],
        k > 0 ==> collapse_blank_lines(seq![a] + blank_lines(k)) == seq![a, Seq::<char>::empty()],
    decreases k,
{
    let l = seq![a] + blank_lines(k);
    if k == 0 {
        assert(l =~= seq![a]);
        assert(l.drop_last() =~= Seq::<Seq<char>>::empty());
        assert(l.last() == a);
        assert(collapse_blank_lines(l.drop_last()) =~= Seq::<Seq<char>>::empty());
        assert(Seq::<Seq<char>>::empty().push(a) =~= seq![a]);
    } else {
        lemma_collapse_blanks(a, (k - 1) as nat);
        assert(l.drop_last() =~= seq![a] + blank_lines((k - 1) as nat));
        assert(l.last() == Seq::<char>::empty());
        if k == 1 {
            assert(seq![a].push(Seq::<char>::empty()) =~= seq![a, Seq::<char>::empty()]);
        }
    }
}

/// Law: two lines of plain text separated by line breaks stay two lines:
/// one break stays one break, and any run of two or more becomes a single
/// blank line between them.
pub proof fn lemma_clean_html_paragraphs(a: Seq<char>, b: Seq<char>, m: nat)
    requires
        m >= 1,
        a.len() > 0,
        b.len() > 0,
        is_plain_line(a),
        is_plain_line(b),
        is_trimmed(a),
        is_trimmed(b),
    ensures
        m == 1 ==> clean_html_text(a + line_breaks(m) + b) == a + seq!['\n'] + b,
        m >= 2 ==> clean_html_text(a + line_breaks(m) + b) == a + seq!['\n', '\n'] + b,
{
    let x = a + line_breaks(m) + b;
    assert forall|k: int| 0 <= k < x.len() implies not_angle(#[trigger] x[k]) && x[k] != '&' by {
        if k < a.len() {
            assert(x[k] == a[k]);
        } else if k < a.len() + m {
            assert(x[k] == '\n');
        } else {
            assert(x[k] == b[k - a.len() - m]);
        }
    }
    lemma_strip_without_angles(x);
    assert(no_amp(x));
    lemma_no_amp_identity(x, nbsp_entity(), seq![' ']);
    lemma_no_amp_identity(x, amp_entity(), seq!['&']);
    lemma_no_amp_identity(x, lt_entity(), seq!['<']);
    lemma_no_amp_identity(x, gt_entity(), seq!['>']);
    lemma_no_amp_identity(x, quot_entity(), seq!['"']);
    lemma_no_amp_identity(x, apos_entity(), seq!['\'']);
    assert(decode_entities(strip_tags(x)) == x);
    lemma_line_scan_breaks(a, m);
    lemma_line_scan_append_line(a + line_breaks(m), b);
    let front = seq![a] + blank_lines((m - 1) as nat);
    let ls = front.push(b);
    assert(text_lines(x) == ls);
    assert(trim_start(a) == a && trim_end(a) == a);
    assert(trim_start(b) == b && trim_end(b) == b);
    let e = Seq::<char>::empty();
    assert(trim(e) == e);
    assert(trim_all(ls) =~= ls) by {
        assert forall|i: int| 0 <= i < ls.len() implies #[trigger] trim_all(ls)[i] == ls[i] by {
            if i == 0 {
                assert(ls[i] == a);
            } else if i < ls.len() - 1 {
                assert(ls[i] == e);
            } else {
                assert(ls[i] == b);
            }
        }
    }
    lemma_collapse_blanks(a, (m - 1) as nat);
    assert(ls.drop_last() =~= front);
    assert(ls.last() == b);
    let c = collapse_blank_lines(ls);
    if m == 1 {
        assert(c =~= seq![a, b]);
        assert(seq![a, b].drop_last() =~= seq![a]);
        assert(join_lines(seq![a]) == a);
        assert(join_lines(seq![a, b]) =~= a + seq!['\n'] + b);
    } else {
        assert(c =~= seq![a, e, b]);
        assert(seq![a, e, b].drop_last() =~= seq![a, e]);
        assert(seq![a, e].drop_last() =~= seq![a]);
        assert(join_lines(seq![a]) == a);
        assert(seq![a, e].last() == e);
        assert(seq![a, e, b].last() == b);
        assert(join_lines(seq![a, e]) == join_lines(seq![a]) + seq!['\n'] + e);
        assert(join_lines(seq![a, e, b]) == join_lines(seq![a, e]) + seq!['\n'] + b);
        assert(join_lines(seq![a, e, b]) =~= a + seq!['\n', '\n'] + b);
    }
}

} // verus!
