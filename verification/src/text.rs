//! Character-level string functions with exact specifications.
//!
//! Every function here works on the characters of a string (its view, a
//! `Seq<char>`), so a contract states exactly which characters come out.

use vstd::prelude::*;
use vstd::string::*;

verus! {

broadcast use vstd::string::group_string_axioms;

/// White space as `char::is_whitespace` defines it (the Unicode
/// `White_Space` property).
pub open spec fn is_ws(c: char) -> bool {
    let u = c as u32;
    ||| 0x09 <= u <= 0x0D
    ||| u == 0x20
    ||| u == 0x85
    ||| u == 0xA0
    ||| u == 0x1680
    ||| 0x2000 <= u <= 0x200A
    ||| u == 0x2028
    ||| u == 0x2029
    ||| u == 0x202F
    ||| u == 0x205F
    ||| u == 0x3000
}

/// `s` without its leading white space.
pub open spec fn trim_start(s: Seq<char>) -> Seq<char>
    decreases s.len(),
{
    if s.len() > 0 && is_ws(s[0]) {
        trim_start(s.drop_first())
    } else {
        s
    }
}

/// `s` without its trailing white space.
pub open spec fn trim_end(s: Seq<char>) -> Seq<char>
    decreases s.len(),
{
    if s.len() > 0 && is_ws(s.last()) {
        trim_end(s.drop_last())
    } else {
        s
    }
}

/// `s` without leading and trailing white space, as `str::trim` gives it.
pub open spec fn trim(s: Seq<char>) -> Seq<char> {
    trim_end(trim_start(s))
}

/// Whether the characters of `p` stand in `s` from position `i` on.
pub open spec fn occurs_at(s: Seq<char>, p: Seq<char>, i: int) -> bool {
    0 <= i && i + p.len() <= s.len() && s.subrange(i, i + p.len()) == p
}

/// Whether `p` occurs in `s` (`str::contains`).
pub open spec fn contains(s: Seq<char>, p: Seq<char>) -> bool {
    exists|i: int| occurs_at(s, p, i)
}

/// Whether `s` begins with `p` (`str::starts_with`).
pub open spec fn starts_with(s: Seq<char>, p: Seq<char>) -> bool {
    occurs_at(s, p, 0)
}

/// Whether `s` ends with `p` (`str::ends_with`).
pub open spec fn ends_with(s: Seq<char>, p: Seq<char>) -> bool {
    occurs_at(s, p, s.len() - p.len())
}

/// The characters of an optional string.
pub open spec fn opt_view(o: Option<String>) -> Option<Seq<char>> {
    match o {
        Some(s) => Some(s@),
        None => None,
    }
}

/// The characters of an optional string slice.
pub open spec fn opt_str_view(o: Option<&str>) -> Option<Seq<char>> {
    match o {
        Some(s) => Some(s@),
        None => None,
    }
}

/// The characters of `s`, in order.
pub fn chars_of(s: &str) -> (r: Vec<char>)
    ensures
        r@ == s@,
{
    let mut v: Vec<char> = Vec::new();
    for c in it: s.chars()
        invariant
            v@ == it.seq().take(it.index()),
            it.seq() == s@,
    {
        v.push(c);
    }
    v
}

/// Whether `c` is white space (`char::is_whitespace`).
pub fn is_whitespace(c: char) -> (b: bool)
    ensures
        b == is_ws(c),
{
    let u = c as u32;
    (0x09 <= u && u <= 0x0D) || u == 0x20 || u == 0x85 || u == 0xA0 || u == 0x1680 || (0x2000
        <= u && u <= 0x200A) || u == 0x2028 || u == 0x2029 || u == 0x202F || u == 0x205F || u
        == 0x3000
}

proof fn lemma_trim_start_skip(s: Seq<char>, i: int)
    requires
        0 <= i <= s.len(),
        forall|k: int| 0 <= k < i ==> is_ws(#[trigger] s[k]),
    ensures
        trim_start(s) == trim_start(s.subrange(i, s.len() as int)),
    decreases i,
{
    if i > 0 {
        assert(s.drop_first() =~= s.subrange(1, s.len() as int));
        lemma_trim_start_skip(s.drop_first(), i - 1);
        assert(s.drop_first().subrange(i - 1, s.drop_first().len() as int) =~= s.subrange(
            i,
            s.len() as int,
        ));
    } else {
        assert(s.subrange(0, s.len() as int) =~= s);
    }
}

proof fn lemma_trim_end_skip(s: Seq<char>, j: int)
    requires
        0 <= j <= s.len(),
        forall|k: int| j <= k < s.len() ==> is_ws(#[trigger] s[k]),
    ensures
        trim_end(s) == trim_end(s.subrange(0, j)),
    decreases s.len() - j,
{
    if j < s.len() {
        lemma_trim_end_skip(s.drop_last(), j);
        assert(s.drop_last().subrange(0, j) =~= s.subrange(0, j));
    } else {
        assert(s.subrange(0, j) =~= s);
    }
}

/// `s` without leading and trailing white space (`str::trim`).
pub fn trim_str(s: &str) -> (r: String)
    ensures
        r@ == trim(s@),
{
    let cs = chars_of(s);
    let n = cs.len();
    let mut i: usize = 0;
    while i < n && is_whitespace(cs[i])
        invariant
            cs@ == s@,
            n == cs.len(),
            i <= n,
            forall|k: int| 0 <= k < i ==> is_ws(#[trigger] cs@[k]),
        decreases n - i,
    {
        i = i + 1;
    }
    proof {
        lemma_trim_start_skip(s@, i as int);
    }
    let ghost rest = s@.subrange(i as int, n as int);
    assert(trim_start(rest) == rest);
    let mut j: usize = n;
    while j > i && is_whitespace(cs[j - 1])
        invariant
            cs@ == s@,
            n == cs.len(),
            i <= j <= n,
            forall|k: int| j <= k < n ==> is_ws(#[trigger] cs@[k]),
        decreases j,
    {
        j = j - 1;
    }
    proof {
        lemma_trim_end_skip(rest, j - i);
        assert(rest.subrange(0, j - i) =~= s@.subrange(i as int, j as int));
        let t = s@.subrange(i as int, j as int);
        if t.len() > 0 {
            assert(t.last() == cs@[j - 1]);
        }
    }
    String::from_str(s.substring_char(i, j))
}


/// Whether `p` stands in `s` from position `i` on.
pub fn occurs_at_exec(s: &Vec<char>, p: &Vec<char>, i: usize) -> (b: bool)
    ensures
        b == occurs_at(s@, p@, i as int),
{
    if i > s.len() || p.len() > s.len() - i {
        return false;
    }
    let mut k: usize = 0;
    while k < p.len()
        invariant
            i + p.len() <= s.len(),
            k <= p.len(),
            forall|m: int| 0 <= m < k ==> s@[i + m] == p@[m],
        decreases p.len() - k,
    {
        if s[i + k] != p[k] {
            assert(s@.subrange(i as int, i + p.len())[k as int] != p@[k as int]);
            return false;
        }
        k = k + 1;
    }
    assert(s@.subrange(i as int, i + p.len()) =~= p@);
    true
}

/// Whether `p` occurs in `s`.
pub fn contains_chars(s: &Vec<char>, p: &Vec<char>) -> (b: bool)
    ensures
        b == contains(s@, p@),
{
    if p.len() == 0 {
        assert(s@.subrange(0, 0) =~= p@);
        assert(occurs_at(s@, p@, 0));
        return true;
    }
    let mut i: usize = 0;
    while i < s.len() && p.len() <= s.len() - i
        invariant
            i <= s.len(),
            p.len() > 0,
            forall|m: int| 0 <= m < i ==> !occurs_at(s@, p@, m),
        decreases s.len() - i,
    {
        if occurs_at_exec(s, p, i) {
            return true;
        }
        i = i + 1;
    }
    assert forall|m: int| !occurs_at(s@, p@, m) by {
        if 0 <= m < i {
        }
    }
    false
}

/// Whether `p` occurs in `s` (`str::contains`).
pub fn str_contains(s: &str, p: &str) -> (b: bool)
    ensures
        b == contains(s@, p@),
{
    contains_chars(&chars_of(s), &chars_of(p))
}

/// Whether `s` begins with `p` (`str::starts_with`).
pub fn str_starts_with(s: &str, p: &str) -> (b: bool)
    ensures
        b == starts_with(s@, p@),
{
    occurs_at_exec(&chars_of(s), &chars_of(p), 0)
}

/// The pieces of `s` between its `'\n'` characters: `n` newlines give
/// `n + 1` pieces, the last of which is empty when `s` ends with a newline.
pub open spec fn split_newlines(s: Seq<char>) -> Seq<Seq<char>>
    decreases s.len(),
{
    if s.len() == 0 {
        seq![Seq::<char>::empty()]
    } else {
        let r = split_newlines(s.drop_last());
        if s.last() == '\n' {
            r.push(Seq::<char>::empty())
        } else {
            r.update(r.len() - 1, r.last().push(s.last()))
        }
    }
}

/// `line` without one trailing carriage return.
pub open spec fn strip_cr(line: Seq<char>) -> Seq<char> {
    if line.len() > 0 && line.last() == '\r' {
        line.drop_last()
    } else {
        line
    }
}

/// The lines of `s` as `str::lines` yields them: the text is cut at each
/// `'\n'`, a `'\r'` just before a `'\n'` is dropped, and a final empty piece
/// (after a trailing newline, or of an empty text) is no line.
pub open spec fn lines(s: Seq<char>) -> Seq<Seq<char>> {
    let pieces = split_newlines(s);
    let terminated = pieces.take(pieces.len() - 1).map_values(|p: Seq<char>| strip_cr(p));
    if pieces.last().len() == 0 {
        terminated
    } else {
        terminated.push(pieces.last())
    }
}

/// The lines of `s` (`str::lines`).
pub fn split_lines(s: &str) -> (r: Vec<String>)
    ensures
        r.len() == lines(s@).len(),
        forall|k: int| 0 <= k < r.len() ==> #[trigger] r[k]@ == lines(s@)[k],
{
    let cs = chars_of(s);
    let n = cs.len();
    let mut r: Vec<String> = Vec::new();
    let mut start: usize = 0;
    let mut i: usize = 0;
    let ghost mut done: Seq<Seq<char>> = seq![];
    assert(s@.take(0) =~= Seq::<char>::empty());
    assert(done.push(s@.subrange(0, 0)) =~= seq![Seq::<char>::empty()]);
    while i < n
        invariant
            cs@ == s@,
            n == cs.len(),
            start <= i <= n,
            split_newlines(s@.take(i as int)) == done.push(s@.subrange(start as int, i as int)),
            r.len() == done.len(),
            forall|k: int| 0 <= k < r.len() ==> #[trigger] r[k]@ == strip_cr(done[k]),
        decreases n - i,
    {
        let ghost t = s@.take(i + 1);
        assert(t.drop_last() =~= s@.take(i as int));
        assert(t.last() == cs@[i as int]);
        if cs[i] == '\n' {
            let end = if i > start && cs[i - 1] == '\r' {
                i - 1
            } else {
                i
            };
            let ghost piece = s@.subrange(start as int, i as int);
            proof {
                if i > start && cs@[i - 1] == '\r' {
                    assert(piece.drop_last() =~= s@.subrange(start as int, end as int));
                } else {
                    assert(piece =~= s@.subrange(start as int, end as int));
                }
            }
            r.push(String::from_str(s.substring_char(start, end)));
            proof {
                done = done.push(piece);
                assert(s@.subrange(i + 1, i + 1) =~= Seq::<char>::empty());
            }
            start = i + 1;
        } else {
            proof {
                let d = split_newlines(t.drop_last());
                assert(s@.subrange(start as int, i as int).push(cs@[i as int]) =~= s@.subrange(
                    start as int,
                    i + 1,
                ));
                assert(d.update(d.len() - 1, d.last().push(t.last())) =~= done.push(
                    s@.subrange(start as int, i + 1),
                ));
            }
        }
        i = i + 1;
    }
    assert(s@.take(n as int) =~= s@);
    let ghost pieces = split_newlines(s@);
    assert(pieces.take(pieces.len() - 1) =~= done);
    if start < n {
        r.push(String::from_str(s.substring_char(start, n)));
    }
    r
}

/// The first position from `i` on at which `p` occurs in `s`.
pub open spec fn find_from(s: Seq<char>, p: Seq<char>, i: int) -> Option<int>
    decreases s.len() + 1 - i,
{
    if i < 0 || i > s.len() || i + p.len() > s.len() {
        None
    } else if occurs_at(s, p, i) {
        Some(i)
    } else {
        find_from(s, p, i + 1)
    }
}

/// The first position at which `p` occurs in `s` (`str::find`).
pub open spec fn find(s: Seq<char>, p: Seq<char>) -> Option<int> {
    find_from(s, p, 0)
}

/// The second piece of `s` split at `p` (`s.split(p).nth(1)`), for a
/// non-empty `p`: what follows the first occurrence of `p`, up to the next.
pub open spec fn split_second(s: Seq<char>, p: Seq<char>) -> Option<Seq<char>> {
    match find(s, p) {
        None => None,
        Some(i) => {
            let rest = s.subrange(i + p.len(), s.len() as int);
            Some(
                match find(rest, p) {
                    None => rest,
                    Some(j) => rest.subrange(0, j),
                },
            )
        },
    }
}

/// The leading run of characters of `s` that are not white space.
pub open spec fn take_word(s: Seq<char>) -> Seq<char>
    decreases s.len(),
{
    if s.len() > 0 && !is_ws(s[0]) {
        seq![s[0]] + take_word(s.drop_first())
    } else {
        Seq::<char>::empty()
    }
}

/// The first white-space separated word of `s`
/// (`s.split_whitespace().next()`).
pub open spec fn first_word(s: Seq<char>) -> Option<Seq<char>> {
    let t = trim_start(s);
    if t.len() == 0 {
        None
    } else {
        Some(take_word(t))
    }
}

/// `s` with every trailing copy of `p` removed, one after another
/// (`str::trim_end_matches` with a string pattern).
pub open spec fn strip_suffixes(s: Seq<char>, p: Seq<char>) -> Seq<char>
    decreases s.len(),
{
    if p.len() > 0 && ends_with(s, p) {
        strip_suffixes(s.subrange(0, s.len() - p.len()), p)
    } else {
        s
    }
}

/// The first position at which `p` occurs in `s`.
pub fn find_chars(s: &Vec<char>, p: &Vec<char>) -> (r: Option<usize>)
    ensures
        r matches Some(i) ==> find(s@, p@) == Some(i as int),
        r is None ==> find(s@, p@) is None,
{
    if p.len() == 0 {
        assert(s@.subrange(0, 0) =~= p@);
        return Some(0);
    }
    let mut i: usize = 0;
    while i <= s.len() && p.len() <= s.len() - i
        invariant
            i <= s.len(),
            p.len() > 0,
            find(s@, p@) == find_from(s@, p@, i as int),
        decreases s.len() + 1 - i,
    {
        if occurs_at_exec(s, p, i) {
            return Some(i);
        }
        i = i + 1;
    }
    None
}

proof fn lemma_take_word(s: Seq<char>, j: int)
    requires
        0 <= j <= s.len(),
        forall|k: int| 0 <= k < j ==> !is_ws(#[trigger] s[k]),
        j == s.len() || is_ws(s[j]),
    ensures
        take_word(s) == s.subrange(0, j),
    decreases j,
{
    if j > 0 {
        lemma_take_word(s.drop_first(), j - 1);
        assert(seq![s[0]] + s.drop_first().subrange(0, j - 1) =~= s.subrange(0, j));
    } else {
        assert(s.subrange(0, 0) =~= Seq::<char>::empty());
    }
}

/// The first white-space separated word of `s`
/// (`s.split_whitespace().next()`).
pub fn first_word_of(s: &str) -> (r: Option<String>)
    ensures
        r matches Some(w) ==> first_word(s@) == Some(w@),
        r is None ==> first_word(s@) is None,
{
    let cs = chars_of(s);
    let n = cs.len();
    let mut i: usize = 0;
    while i < n && is_whitespace(cs[i])
        invariant
            cs@ == s@,
            n == cs.len(),
            i <= n,
            forall|k: int| 0 <= k < i ==> is_ws(#[trigger] cs@[k]),
        decreases n - i,
    {
        i = i + 1;
    }
    proof {
        lemma_trim_start_skip(s@, i as int);
    }
    let ghost rest = s@.subrange(i as int, n as int);
    assert(trim_start(rest) == rest);
    if i == n {
        return None;
    }
    let mut j: usize = i;
    while j < n && !is_whitespace(cs[j])
        invariant
            cs@ == s@,
            n == cs.len(),
            i <= j <= n,
            forall|k: int| i <= k < j ==> !is_ws(#[trigger] cs@[k]),
        decreases n - j,
    {
        j = j + 1;
    }
    proof {
        lemma_take_word(rest, j - i);
        assert(rest.subrange(0, j - i) =~= s@.subrange(i as int, j as int));
    }
    Some(String::from_str(s.substring_char(i, j)))
}

/// `s` with every trailing copy of `p` removed (`str::trim_end_matches`).
pub fn trim_end_matches_str(s: &str, p: &str) -> (r: String)
    ensures
        r@ == strip_suffixes(s@, p@),
{
    let cs = chars_of(s);
    let ps = chars_of(p);
    let n = cs.len();
    if ps.len() == 0 {
        return String::from_str(s);
    }
    let mut j: usize = n;
    assert(s@.subrange(0, n as int) =~= s@);
    while j >= ps.len() && occurs_at_exec(&cs, &ps, j - ps.len())
        invariant
            cs@ == s@,
            ps@ == p@,
            ps.len() > 0,
            n == cs.len(),
            j <= n,
            strip_suffixes(s@, p@) == strip_suffixes(s@.subrange(0, j as int), p@),
        decreases j,
    {
        let ghost t = s@.subrange(0, j as int);
        assert(t.subrange(j - ps.len(), j as int) =~= s@.subrange(j - ps.len(), j as int));
        assert(t.subrange(0, t.len() - ps.len()) =~= s@.subrange(0, j - ps.len()));
        j = j - ps.len();
    }
    proof {
        let t = s@.subrange(0, j as int);
        if j >= ps.len() {
            assert(t.subrange(j - ps.len(), j as int) =~= s@.subrange(j - ps.len(), j as int));
        }
    }
    String::from_str(s.substring_char(0, j))
}

/// What `find_from` gives back is an occurrence, and the first one.
pub proof fn lemma_find_from(s: Seq<char>, p: Seq<char>, i: int)
    requires
        0 <= i,
    ensures
        find_from(s, p, i) matches Some(k) ==> i <= k && occurs_at(s, p, k) && forall|m: int|
            i <= m < k ==> !occurs_at(s, p, m),
        find_from(s, p, i) is None ==> forall|m: int| i <= m ==> !occurs_at(s, p, m),
    decreases s.len() + 1 - i,
{
    if i < 0 || i > s.len() || i + p.len() > s.len() {
    } else if occurs_at(s, p, i) {
    } else {
        lemma_find_from(s, p, i + 1);
    }
}

/// A text contains whatever stands in it, wherever it stands: `w` occurs
/// in `pre + w + post` right after `pre`.
pub proof fn lemma_contains_within(pre: Seq<char>, w: Seq<char>, post: Seq<char>)
    ensures
        occurs_at(pre + w + post, w, pre.len() as int),
        contains(pre + w + post, w),
{
    assert((pre + w + post).subrange(pre.len() as int, (pre.len() + w.len()) as int) =~= w);
}

/// The second piece of `s` split at `p` (`s.split(p).nth(1)`).
pub fn split_second_of(s: &str, p: &str) -> (r: Option<String>)
    requires
        p@.len() > 0,
    ensures
        r matches Some(x) ==> split_second(s@, p@) == Some(x@),
        r is None ==> split_second(s@, p@) is None,
{
    let cs = chars_of(s);
    let ps = chars_of(p);
    match find_chars(&cs, &ps) {
        None => None,
        Some(i) => {
            proof {
                lemma_find_from(s@, p@, 0);
                assert(find_from(s@, p@, 0) == Some(i as int));
                assert(occurs_at(s@, p@, i as int));
                assert(cs@ == s@ && ps@ == p@);
                assert(i + ps@.len() <= cs@.len());
                assert(i + ps.len() <= cs.len());
                assert(cs.len() <= usize::MAX);
            }
            let start = i + ps.len();
            let rest = s.substring_char(start, cs.len());
            let rs = chars_of(rest);
            proof {
                lemma_find_from(rest@, p@, 0);
            }
            match find_chars(&rs, &ps) {
                None => Some(String::from_str(rest)),
                Some(j) => Some(String::from_str(rest.substring_char(0, j))),
            }
        },
    }
}

/// The second white-space separated word of `s`
/// (`s.split_whitespace().nth(1)`).
pub open spec fn second_word(s: Seq<char>) -> Option<Seq<char>> {
    match first_word(s) {
        None => None,
        Some(w) => first_word(trim_start(s).skip(w.len() as int)),
    }
}

/// The second white-space separated word of `s`
/// (`s.split_whitespace().nth(1)`).
pub fn second_word_of(s: &str) -> (r: Option<String>)
    ensures
        r matches Some(w) ==> second_word(s@) == Some(w@),
        r is None ==> second_word(s@) is None,
{
    let cs = chars_of(s);
    let n = cs.len();
    let mut i: usize = 0;
    while i < n && is_whitespace(cs[i])
        invariant
            cs@ == s@,
            n == cs.len(),
            i <= n,
            forall|k: int| 0 <= k < i ==> is_ws(#[trigger] cs@[k]),
        decreases n - i,
    {
        i = i + 1;
    }
    proof {
        lemma_trim_start_skip(s@, i as int);
    }
    let ghost rest = s@.subrange(i as int, n as int);
    assert(trim_start(rest) == rest);
    if i == n {
        return None;
    }
    let mut j: usize = i;
    while j < n && !is_whitespace(cs[j])
        invariant
            cs@ == s@,
            n == cs.len(),
            i <= j <= n,
            forall|k: int| i <= k < j ==> !is_ws(#[trigger] cs@[k]),
        decreases n - j,
    {
        j = j + 1;
    }
    proof {
        lemma_take_word(rest, j - i);
        assert(rest.subrange(0, j - i) =~= s@.subrange(i as int, j as int));
        assert(rest.skip(j - i) =~= s@.subrange(j as int, n as int));
    }
    first_word_of(s.substring_char(j, n))
}

/// Whether `a` and `b` hold the same characters (`==` on strings).
pub fn str_eq(a: &str, b: &str) -> (r: bool)
    ensures
        r == (a@ == b@),
{
    let x = chars_of(a);
    let y = chars_of(b);
    if x.len() != y.len() {
        return false;
    }
    let mut i: usize = 0;
    while i < x.len()
        invariant
            x@ == a@,
            y@ == b@,
            x.len() == y.len(),
            i <= x.len(),
            forall|k: int| 0 <= k < i ==> x@[k] == y@[k],
        decreases x.len() - i,
    {
        if x[i] != y[i] {
            assert(x@[i as int] != y@[i as int]);
            return false;
        }
        i = i + 1;
    }
    assert(x@ =~= y@);
    true
}

proof fn lemma_strip_suffixes_done(s: Seq<char>, p: Seq<char>)
    requires
        p.len() > 0,
    ensures
        !ends_with(strip_suffixes(s, p), p),
    decreases s.len(),
{
    if ends_with(s, p) {
        lemma_strip_suffixes_done(s.subrange(0, s.len() - p.len()), p);
    }
}

/// Removing the trailing copies of a non-empty `p` a second time changes
/// nothing.
pub proof fn law_strip_suffixes_idempotent(s: Seq<char>, p: Seq<char>)
    requires
        p.len() > 0,
    ensures
        strip_suffixes(strip_suffixes(s, p), p) == strip_suffixes(s, p),
{
    lemma_strip_suffixes_done(s, p);
}

/// Trimming a second time changes nothing.
pub proof fn law_trim_idempotent(s: Seq<char>)
    ensures
        trim(trim(s)) == trim(s),
{
    lemma_trim_start_fixed(s);
    lemma_trim_start_of_trim_end(trim_start(s));
    lemma_trim_end_fixed(trim_start(s));
}

proof fn lemma_trim_start_fixed(s: Seq<char>)
    ensures
        trim_start(s).len() == 0 || !is_ws(trim_start(s)[0]),
    decreases s.len(),
{
    if s.len() > 0 && is_ws(s[0]) {
        lemma_trim_start_fixed(s.drop_first());
    }
}

proof fn lemma_trim_end_fixed(s: Seq<char>)
    ensures
        trim_end(s).len() == 0 || !is_ws(trim_end(s).last()),
        trim_end(trim_end(s)) == trim_end(s),
    decreases s.len(),
{
    if s.len() > 0 && is_ws(s.last()) {
        lemma_trim_end_fixed(s.drop_last());
    }
}

proof fn lemma_trim_start_of_trim_end(s: Seq<char>)
    requires
        s.len() == 0 || !is_ws(s[0]),
    ensures
        trim_start(trim_end(s)) == trim_end(s),
        trim_end(s).len() == 0 || !is_ws(trim_end(s)[0]),
    decreases s.len(),
{
    if s.len() > 0 && is_ws(s.last()) {
        if s.len() > 1 {
            assert(s.drop_last()[0] == s[0]);
        }
        lemma_trim_start_of_trim_end(s.drop_last());
    }
}

proof fn lemma_split_without_newline(l: Seq<char>)
    requires
        forall|i: int| 0 <= i < l.len() ==> #[trigger] l[i] != '\n',
    ensures
        split_newlines(l) == seq![l],
    decreases l.len(),
{
    if l.len() > 0 {
        lemma_split_without_newline(l.drop_last());
        assert(l.drop_last().push(l.last()) =~= l);
        assert(seq![l.drop_last()].update(0, l) =~= seq![l]);
    } else {
        assert(l =~= Seq::<char>::empty());
    }
}

/// A text without a newline is one line (none when it is empty); followed
/// by a newline, it is still that one line, without a carriage return that
/// ends it.
pub proof fn law_single_line(l: Seq<char>)
    requires
        forall|i: int| 0 <= i < l.len() ==> #[trigger] l[i] != '\n',
    ensures
        l.len() > 0 ==> lines(l) == seq![l],
        l.len() == 0 ==> lines(l).len() == 0,
        lines(l.push('\n')) == seq![strip_cr(l)],
{
    lemma_split_without_newline(l);
    assert(l.push('\n').drop_last() =~= l);
    let pieces = split_newlines(l.push('\n'));
    assert(pieces =~= seq![l, Seq::<char>::empty()]);
    assert(pieces.take(1) =~= seq![l]);
    assert(seq![l].take(0) =~= Seq::<Seq<char>>::empty());
    assert(pieces.take(1).map_values(|p: Seq<char>| strip_cr(p)) =~= seq![strip_cr(l)]);
    if l.len() > 0 {
        assert(seq![l].take(0).map_values(|p: Seq<char>| strip_cr(p)).push(l) =~= seq![l]);
    }
}

} // verus!
