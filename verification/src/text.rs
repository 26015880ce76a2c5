//! Character-level text utilities: equality, substring search, trimming and
//! line splitting, each stated over the `Seq<char>` view of a string.

use vstd::prelude::*;

verus! {

/// The characters of `s`, in order.
pub fn to_chars(s: &str) -> (v: Vec<char>)
    ensures
        v@ == s@,
{
    let mut v: Vec<char> = Vec::new();
    for c in it: s.chars()
        invariant
            it.seq() == s@,
            v@ == it.seq().take(it.index()),
    {
        v.push(c);
    }
    v
}

/// Whether two character vectors hold the same characters.
pub fn chars_equal(a: &Vec<char>, b: &Vec<char>) -> (r: bool)
    ensures
        r == (a@ == b@),
{
    if a.len() != b.len() {
        return false;
    }
    let mut i: usize = 0;
    while i < a.len()
        invariant
            a.len() == b.len(),
            i <= a.len(),
            forall|j: int| 0 <= j < i ==> a@[j] == b@[j],
        decreases a.len() - i,
    {
        if a[i] != b[i] {
            return false;
        }
        i = i + 1;
    }
    assert(a@ =~= b@);
    true
}

/// Whether two strings hold the same characters.
pub fn str_equal(a: &str, b: &str) -> (r: bool)
    ensures
        r == (a@ == b@),
{
    let ca = to_chars(a);
    let cb = to_chars(b);
    chars_equal(&ca, &cb)
}

/// `needle` occurs in `hay` starting at index `i`.
pub open spec fn occurs_at<T>(hay: Seq<T>, needle: Seq<T>, i: int) -> bool {
    &&& 0 <= i
    &&& i + needle.len() <= hay.len()
    &&& hay.subrange(i, i + needle.len()) == needle
}

/// `needle` occurs somewhere in `hay` (an empty needle occurs in every sequence).
pub open spec fn has_infix<T>(hay: Seq<T>, needle: Seq<T>) -> bool {
    exists|i: int| occurs_at(hay, needle, i)
}

/// `hay` begins with `prefix`.
pub open spec fn has_prefix<T>(hay: Seq<T>, prefix: Seq<T>) -> bool {
    occurs_at(hay, prefix, 0)
}

/// `hay` ends with `suffix`.
pub open spec fn has_suffix<T>(hay: Seq<T>, suffix: Seq<T>) -> bool {
    occurs_at(hay, suffix, hay.len() - suffix.len())
}

/// Whether `pat` occurs in `text` at index `at`.
fn matches_at(text: &Vec<char>, at: usize, pat: &Vec<char>) -> (r: bool)
    requires
        at + pat.len() <= text.len(),
    ensures
        r == occurs_at(text@, pat@, at as int),
{
    let mut j: usize = 0;
    while j < pat.len()
        invariant
            at + pat.len() <= text.len(),
            j <= pat.len(),
            forall|k: int| 0 <= k < j ==> text@[at + k] == pat@[k],
        decreases pat.len() - j,
    {
        if text[at + j] != pat[j] {
            assert(text@.subrange(at as int, at + pat.len())[j as int] != pat@[j as int]);
            return false;
        }
        j = j + 1;
    }
    assert(text@.subrange(at as int, at + pat.len()) =~= pat@);
    true
}

proof fn lemma_occurs_in_range(text: Seq<char>, lo: int, hi: int, pat: Seq<char>, k: int)
    requires
        0 <= lo <= hi <= text.len(),
        0 <= k,
    ensures
        occurs_at(text.subrange(lo, hi), pat, k) <==> (k + pat.len() <= hi - lo && occurs_at(
            text,
            pat,
            lo + k,
        )),
{
    if k + pat.len() <= hi - lo {
        assert(text.subrange(lo, hi).subrange(k, k + pat.len()) =~= text.subrange(
            lo + k,
            lo + k + pat.len(),
        ));
    }
}

/// Whether `pat` occurs within `text[lo..hi]`.
pub fn range_contains(text: &Vec<char>, lo: usize, hi: usize, pat: &Vec<char>) -> (r: bool)
    requires
        lo <= hi <= text.len(),
    ensures
        r == has_infix(text@.subrange(lo as int, hi as int), pat@),
{
    let ghost sub = text@.subrange(lo as int, hi as int);
    if pat.len() > hi - lo {
        assert forall|k: int| !occurs_at(sub, pat@, k) by {
            if 0 <= k {
                lemma_occurs_in_range(text@, lo as int, hi as int, pat@, k);
            }
        }
        return false;
    }
    let last = hi - pat.len();
    let mut at: usize = lo;
    loop
        invariant
            lo <= at <= last,
            last + pat.len() == hi,
            hi <= text.len(),
            sub == text@.subrange(lo as int, hi as int),
            forall|k: int| 0 <= k < at - lo ==> !occurs_at(sub, pat@, k),
        ensures
            forall|k: int| 0 <= k <= last - lo ==> !occurs_at(sub, pat@, k),
        decreases last - at,
    {
        proof {
            lemma_occurs_in_range(text@, lo as int, hi as int, pat@, at - lo);
        }
        if matches_at(text, at, pat) {
            return true;
        }
        if at == last {
            break;
        }
        at = at + 1;
    }
    assert forall|k: int| !occurs_at(sub, pat@, k) by {
        if 0 <= k {
            lemma_occurs_in_range(text@, lo as int, hi as int, pat@, k);
        }
    }
    false
}

/// Whether `pat` occurs within `text`.
pub fn chars_contain(text: &Vec<char>, pat: &Vec<char>) -> (r: bool)
    ensures
        r == has_infix(text@, pat@),
{
    let r = range_contains(text, 0, text.len(), pat);
    assert(text@.subrange(0, text.len() as int) =~= text@);
    r
}

/// Whether `pat` occurs within `s`.
pub fn str_contains(s: &str, pat: &str) -> (r: bool)
    ensures
        r == has_infix(s@, pat@),
{
    let cs = to_chars(s);
    let cp = to_chars(pat);
    chars_contain(&cs, &cp)
}

/// Whether `text[lo..hi]` begins with `pat`.
pub fn range_starts_with(text: &Vec<char>, lo: usize, hi: usize, pat: &Vec<char>) -> (r: bool)
    requires
        lo <= hi <= text.len(),
    ensures
        r == has_prefix(text@.subrange(lo as int, hi as int), pat@),
{
    proof {
        lemma_occurs_in_range(text@, lo as int, hi as int, pat@, 0);
    }
    if pat.len() > hi - lo {
        false
    } else {
        matches_at(text, lo, pat)
    }
}

/// Whether `text[lo..hi]` ends with `pat`.
pub fn range_ends_with(text: &Vec<char>, lo: usize, hi: usize, pat: &Vec<char>) -> (r: bool)
    requires
        lo <= hi <= text.len(),
    ensures
        r == has_suffix(text@.subrange(lo as int, hi as int), pat@),
{
    if pat.len() > hi - lo {
        false
    } else {
        proof {
            lemma_occurs_in_range(text@, lo as int, hi as int, pat@, hi - lo - pat.len());
        }
        matches_at(text, hi - pat.len(), pat)
    }
}


/// A character with the Unicode `White_Space` property, the set that
/// `char::is_whitespace`, and so `str::trim`, uses.
pub open spec fn is_white_space(c: char) -> bool {
    let u = c as u32;
    ||| 0x9 <= u <= 0xd
    ||| u == 0x20
    ||| u == 0x85
    ||| u == 0xa0
    ||| u == 0x1680
    ||| 0x2000 <= u <= 0x200a
    ||| u == 0x2028
    ||| u == 0x2029
    ||| u == 0x202f
    ||| u == 0x205f
    ||| u == 0x3000
}

/// Whether `c` is a Unicode white-space character.
pub fn is_whitespace(c: char) -> (r: bool)
    ensures
        r == is_white_space(c),
{
    let u = c as u32;
    (0x9 <= u && u <= 0xd) || u == 0x20 || u == 0x85 || u == 0xa0 || u == 0x1680 || (0x2000 <= u
        && u <= 0x200a) || u == 0x2028 || u == 0x2029 || u == 0x202f || u == 0x205f || u == 0x3000
}

/// `s` without its leading white space.
pub open spec fn trim_start(s: Seq<char>) -> Seq<char>
    decreases s.len(),
{
    if s.len() > 0 && is_white_space(s[0]) {
        trim_start(s.drop_first())
    } else {
        s
    }
}

/// `s` without its trailing white space.
pub open spec fn trim_end(s: Seq<char>) -> Seq<char>
    decreases s.len(),
{
    if s.len() > 0 && is_white_space(s.last()) {
        trim_end(s.drop_last())
    } else {
        s
    }
}

/// `s` without its leading and trailing white space, as `str::trim` gives it.
pub open spec fn trim(s: Seq<char>) -> Seq<char> {
    trim_end(trim_start(s))
}

/// The bounds of `text[lo..hi]` once its leading and trailing white space is
/// removed.
pub fn trim_range(text: &Vec<char>, lo: usize, hi: usize) -> (r: (usize, usize))
    requires
        lo <= hi <= text.len(),
    ensures
        lo <= r.0 <= r.1 <= hi,
        text@.subrange(r.0 as int, r.1 as int) == trim(text@.subrange(lo as int, hi as int)),
{
    let mut a: usize = lo;
    while a < hi && is_whitespace(text[a])
        invariant
            lo <= a <= hi <= text.len(),
            trim_start(text@.subrange(lo as int, hi as int)) == trim_start(
                text@.subrange(a as int, hi as int),
            ),
        decreases hi - a,
    {
        assert(text@.subrange(a as int, hi as int).drop_first() =~= text@.subrange(
            a + 1,
            hi as int,
        ));
        a = a + 1;
    }
    let mut b: usize = hi;
    while b > a && is_whitespace(text[b - 1])
        invariant
            lo <= a <= b <= hi <= text.len(),
            trim_end(text@.subrange(a as int, hi as int)) == trim_end(
                text@.subrange(a as int, b as int),
            ),
        decreases b - a,
    {
        assert(text@.subrange(a as int, b as int).drop_last() =~= text@.subrange(
            a as int,
            b - 1,
        ));
        b = b - 1;
    }
    (a, b)
}

/// `i` is the index of the first line feed in `s`.
pub open spec fn is_first_newline(s: Seq<char>, i: int) -> bool {
    &&& 0 <= i < s.len()
    &&& s[i] == '\n'
    &&& forall|j: int| 0 <= j < i ==> s[j] != '\n'
}

/// The index of the first line feed in `s`, or its length when it holds none.
pub open spec fn first_newline(s: Seq<char>) -> int {
    if exists|i: int| is_first_newline(s, i) {
        choose|i: int| is_first_newline(s, i)
    } else {
        s.len() as int
    }
}

/// `line` without one trailing carriage return.
pub open spec fn strip_cr(line: Seq<char>) -> Seq<char> {
    if line.len() > 0 && line.last() == '\r' {
        line.drop_last()
    } else {
        line
    }
}

/// The lines of `s` as `str::lines` yields them: split at each `\n`, a `\r`
/// right before a `\n` dropped with it, and no empty line after a final `\n`.
pub open spec fn lines_of(s: Seq<char>) -> Seq<Seq<char>>
    decreases s.len(),
{
    if s.len() == 0 {
        seq![]
    } else {
        let k = first_newline(s);
        if 0 <= k < s.len() {
            seq![strip_cr(s.take(k))] + lines_of(s.skip(k + 1))
        } else {
            seq![s]
        }
    }
}

proof fn lemma_lines_step(s: Seq<char>, start: int, i: int)
    requires
        0 <= start <= i < s.len(),
        s[i] == '\n',
        forall|j: int| start <= j < i ==> s[j] != '\n',
    ensures
        lines_of(s.skip(start)) == seq![strip_cr(s.subrange(start, i))] + lines_of(s.skip(i + 1)),
{
    let t = s.skip(start);
    let k = i - start;
    assert(is_first_newline(t, k));
    assert forall|m: int| is_first_newline(t, m) implies m == k by {
        if m < k {
            assert(t[m] != '\n');
        }
        if k < m {
            assert(t[k] != '\n');
        }
    }
    assert(first_newline(t) == k);
    assert(t.take(k) =~= s.subrange(start, i));
    assert(t.skip(k + 1) =~= s.skip(i + 1));
}

proof fn lemma_lines_last(s: Seq<char>, start: int)
    requires
        0 <= start <= s.len(),
        forall|j: int| start <= j < s.len() ==> s[j] != '\n',
    ensures
        lines_of(s.skip(start)) == (if start < s.len() {
            seq![s.skip(start)]
        } else {
            Seq::<Seq<char>>::empty()
        }),
{
    let t = s.skip(start);
    assert forall|m: int| !is_first_newline(t, m) by {
        if 0 <= m < t.len() {
            assert(s[start + m] != '\n');
        }
    }
}

proof fn lemma_some_first_newline(s: Seq<char>, j: int)
    requires
        0 <= j < s.len(),
        s[j] == '\n',
    ensures
        exists|i: int| is_first_newline(s, i),
    decreases j,
{
    if exists|m: int| 0 <= m < j && s[m] == '\n' {
        let m = choose|m: int| 0 <= m < j && s[m] == '\n';
        lemma_some_first_newline(s, m);
    } else {
        assert(is_first_newline(s, j));
    }
}

/// No line of a text holds a line feed.
pub proof fn law_lines_hold_no_line_feed(s: Seq<char>, i: int)
    requires
        0 <= i < lines_of(s).len(),
    ensures
        !lines_of(s)[i].contains('\n'),
    decreases s.len(),
{
    if s.len() > 0 {
        let k = first_newline(s);
        if 0 <= k < s.len() {
            if !(exists|m: int| is_first_newline(s, m)) {
                assert(k == s.len());
            }
            assert(is_first_newline(s, k));
            if i == 0 {
                let line = strip_cr(s.take(k));
                assert forall|m: int| 0 <= m < line.len() implies line[m] != '\n' by {
                    assert(line[m] == s[m]);
                }
            } else {
                law_lines_hold_no_line_feed(s.skip(k + 1), i - 1);
                assert(lines_of(s)[i] == lines_of(s.skip(k + 1))[i - 1]);
            }
        } else {
            assert forall|m: int| 0 <= m < s.len() implies s[m] != '\n' by {
                if s[m] == '\n' {
                    lemma_some_first_newline(s, m);
                    let f = choose|f: int| is_first_newline(s, f);
                    assert(is_first_newline(s, f));
                }
            }
        }
    }
}

/// The character ranges of the lines of `text`, each without its line ending.
pub fn line_spans(text: &Vec<char>) -> (spans: Vec<(usize, usize)>)
    ensures
        spans.len() == lines_of(text@).len(),
        forall|i: int|
            0 <= i < spans.len() ==> {
                &&& #[trigger] spans@[i].0 <= spans@[i].1 <= text.len()
                &&& text@.subrange(spans@[i].0 as int, spans@[i].1 as int) == lines_of(text@)[i]
            },
{
    let mut spans: Vec<(usize, usize)> = Vec::new();
    let mut start: usize = 0;
    let mut i: usize = 0;
    let ghost all = lines_of(text@);
    assert(text@.skip(0) =~= text@);
    assert(all =~= Seq::new(
        spans.len() as nat,
        |k: int| text@.subrange(spans@[k].0 as int, spans@[k].1 as int),
    ) + lines_of(text@.skip(0)));
    while i < text.len()
        invariant
            start <= i <= text.len(),
            all == lines_of(text@),
            forall|j: int| start <= j < i ==> text@[j] != '\n',
            forall|k: int|
                0 <= k < spans.len() ==> #[trigger] spans@[k].0 <= spans@[k].1 <= text.len(),
            all == Seq::new(
                spans.len() as nat,
                |k: int| text@.subrange(spans@[k].0 as int, spans@[k].1 as int),
            ) + lines_of(text@.skip(start as int)),
        decreases text.len() - i,
    {
        if text[i] == '\n' {
            proof {
                lemma_lines_step(text@, start as int, i as int);
            }
            let mut end = i;
            if end > start && text[end - 1] == '\r' {
                end = end - 1;
            }
            assert(text@.subrange(start as int, end as int) == strip_cr(
                text@.subrange(start as int, i as int),
            )) by {
                if i > start && text@[i - 1] == '\r' {
                    assert(text@.subrange(start as int, i as int).drop_last() =~= text@.subrange(
                        start as int,
                        end as int,
                    ));
                }
            }
            let ghost before = Seq::new(
                spans.len() as nat,
                |k: int| text@.subrange(spans@[k].0 as int, spans@[k].1 as int),
            );
            let ghost old_spans = spans@;
            spans.push((start, end));
            assert forall|k: int| 0 <= k < spans.len() implies #[trigger] spans@[k].0 <= spans@[k].1
                <= text.len() by {
                if k < spans.len() - 1 {
                    assert(spans@[k] == old_spans[k]);
                }
            }
            let ghost after = Seq::new(
                spans.len() as nat,
                |k: int| text@.subrange(spans@[k].0 as int, spans@[k].1 as int),
            );
            assert(after =~= before.push(text@.subrange(start as int, end as int)));
            assert(before + (seq![text@.subrange(start as int, end as int)] + lines_of(
                text@.skip(i + 1),
            )) =~= after + lines_of(text@.skip(i + 1)));
            start = i + 1;
        }
        i = i + 1;
    }
    proof {
        lemma_lines_last(text@, start as int);
    }
    let ghost before = Seq::new(
        spans.len() as nat,
        |k: int| text@.subrange(spans@[k].0 as int, spans@[k].1 as int),
    );
    if start < text.len() {
        spans.push((start, text.len()));
        let ghost after = Seq::new(
            spans.len() as nat,
            |k: int| text@.subrange(spans@[k].0 as int, spans@[k].1 as int),
        );
        assert(text@.skip(start as int) =~= text@.subrange(start as int, text.len() as int));
        assert(after =~= before + seq![text@.skip(start as int)]);
    } else {
        assert(all =~= before);
    }
    assert forall|k: int| 0 <= k < spans.len() implies text@.subrange(
        spans@[k].0 as int,
        spans@[k].1 as int,
    ) == lines_of(text@)[k] by {
        let view = Seq::new(
            spans.len() as nat,
            |k: int| text@.subrange(spans@[k].0 as int, spans@[k].1 as int),
        );
        assert(view[k] == text@.subrange(spans@[k].0 as int, spans@[k].1 as int));
    }
    spans
}

} // verus!
