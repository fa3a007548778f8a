//! Character-level text handling: the line, whitespace and word rules that
//! the `brew` output parsers are built from, stated over `Seq<char>` and
//! implemented over `Vec<char>`.
use vstd::prelude::*;

verus! {

/// `String::push` appends the given character to the end of the string;
/// that is all the contract claims of it.
pub assume_specification[ String::push ](s: &mut String, ch: char)
    ensures
        final(s)@ == old(s)@.push(ch),
;

// ---------------------------------------------------------------------
// Specifications
// ---------------------------------------------------------------------

/// The Unicode `White_Space` characters, the set that `char::is_whitespace`
/// accepts.
pub open spec fn is_ws(c: char) -> bool {
    ||| c == '\t'
    ||| c == '\n'
    ||| c == '\u{0B}'
    ||| c == '\u{0C}'
    ||| c == '\r'
    ||| c == ' '
    ||| c == '\u{85}'
    ||| c == '\u{A0}'
    ||| c == '\u{1680}'
    ||| ('\u{2000}' <= c && c <= '\u{200A}')
    ||| c == '\u{2028}'
    ||| c == '\u{2029}'
    ||| c == '\u{202F}'
    ||| c == '\u{205F}'
    ||| c == '\u{3000}'
}

/// Index of the first `c` in `s`, or `s.len()` when there is none.
pub open spec fn find_char(s: Seq<char>, c: char) -> int
    decreases s.len(),
{
    if s.len() == 0 {
        0
    } else if s[0] == c {
        0
    } else {
        1 + find_char(s.drop_first(), c)
    }
}

/// Index of the first whitespace character in `s`, or `s.len()`.
pub open spec fn find_ws(s: Seq<char>) -> int
    decreases s.len(),
{
    if s.len() == 0 {
        0
    } else if is_ws(s[0]) {
        0
    } else {
        1 + find_ws(s.drop_first())
    }
}

/// `l` without one trailing carriage return.
pub open spec fn strip_cr(l: Seq<char>) -> Seq<char> {
    if l.len() > 0 && l.last() == '\r' {
        l.drop_last()
    } else {
        l
    }
}

/// The lines of `s` as `str::lines` yields them: split at each `'\n'`, one
/// `'\r'` before a `'\n'` dropped, and no empty line after a final `'\n'`.
pub open spec fn lines(s: Seq<char>) -> Seq<Seq<char>>
    decreases s.len(),
{
    if s.len() == 0 {
        seq![]
    } else {
        let j = find_char(s, '\n');
        proof {
            lemma_find_char(s, '\n');
        }
        if j < s.len() {
            seq![strip_cr(s.take(j))] + lines(s.skip(j + 1))
        } else {
            seq![s]
        }
    }
}

/// `s` without leading whitespace.
pub open spec fn trim_start(s: Seq<char>) -> Seq<char>
    decreases s.len(),
{
    if s.len() > 0 && is_ws(s[0]) {
        trim_start(s.drop_first())
    } else {
        s
    }
}

/// `s` without trailing whitespace.
pub open spec fn trim_end(s: Seq<char>) -> Seq<char>
    decreases s.len(),
{
    if s.len() > 0 && is_ws(s.last()) {
        trim_end(s.drop_last())
    } else {
        s
    }
}

/// `s` without leading and trailing whitespace.
pub open spec fn trim(s: Seq<char>) -> Seq<char> {
    trim_end(trim_start(s))
}

/// The maximal runs of non-whitespace characters of `s`, in order.
pub open spec fn words(s: Seq<char>) -> Seq<Seq<char>>
    decreases s.len(),
{
    let t = trim_start(s);
    proof {
        lemma_trim_start_len(s);
        lemma_find_ws(t);
    }
    if t.len() == 0 {
        seq![]
    } else {
        let w = find_ws(t);
        seq![t.take(w)] + words(t.skip(w))
    }
}

/// The parts of `ws` with `sep` between each two neighbours.
pub open spec fn join(ws: Seq<Seq<char>>, sep: Seq<char>) -> Seq<char>
    decreases ws.len(),
{
    if ws.len() == 0 {
        seq![]
    } else if ws.len() == 1 {
        ws[0]
    } else {
        join(ws.drop_last(), sep) + sep + ws.last()
    }
}

/// `s` begins with `p`.
pub open spec fn starts_with(s: Seq<char>, p: Seq<char>) -> bool {
    p.len() <= s.len() && s.take(p.len() as int) == p
}

/// `p` occurs somewhere in `s`.
pub open spec fn contains_seq(s: Seq<char>, p: Seq<char>) -> bool {
    exists|i: int| 0 <= i <= s.len() - p.len() && #[trigger] s.subrange(i, i + p.len()) == p
}

/// `s` with every leading copy of the non-empty `p` removed, as
/// `str::trim_start_matches` does.
pub open spec fn strip_prefixes(s: Seq<char>, p: Seq<char>) -> Seq<char>
    decreases s.len(),
{
    if p.len() > 0 && starts_with(s, p) {
        strip_prefixes(s.skip(p.len() as int), p)
    } else {
        s
    }
}

// ---------------------------------------------------------------------
// Lemmas
// ---------------------------------------------------------------------

pub proof fn lemma_find_char(s: Seq<char>, c: char)
    ensures
        0 <= find_char(s, c) <= s.len(),
        forall|k: int| 0 <= k < find_char(s, c) ==> s[k] != c,
        find_char(s, c) < s.len() ==> s[find_char(s, c)] == c,
    decreases s.len(),
{
    if s.len() > 0 && s[0] != c {
        let d = s.drop_first();
        lemma_find_char(d, c);
        assert forall|k: int| 0 <= k < find_char(s, c) implies s[k] != c by {
            if k > 0 {
                assert(s[k] == d[k - 1]);
            }
        }
    }
}

pub proof fn lemma_find_char_unique(s: Seq<char>, c: char, j: int)
    requires
        0 <= j <= s.len(),
        forall|k: int| 0 <= k < j ==> s[k] != c,
        j < s.len() ==> s[j] == c,
    ensures
        find_char(s, c) == j,
{
    lemma_find_char(s, c);
    let r = find_char(s, c);
    if r < j {
        assert(s[r] != c);
    } else if r > j {
        assert(s[j] == c);
    }
}

pub proof fn lemma_find_ws(s: Seq<char>)
    ensures
        0 <= find_ws(s) <= s.len(),
        forall|k: int| 0 <= k < find_ws(s) ==> !is_ws(s[k]),
        find_ws(s) < s.len() ==> is_ws(s[find_ws(s)]),
    decreases s.len(),
{
    if s.len() > 0 && !is_ws(s[0]) {
        let d = s.drop_first();
        lemma_find_ws(d);
        assert forall|k: int| 0 <= k < find_ws(s) implies !is_ws(s[k]) by {
            if k > 0 {
                assert(s[k] == d[k - 1]);
            }
        }
    }
}

pub proof fn lemma_find_ws_unique(s: Seq<char>, j: int)
    requires
        0 <= j <= s.len(),
        forall|k: int| 0 <= k < j ==> !is_ws(s[k]),
        j < s.len() ==> is_ws(s[j]),
    ensures
        find_ws(s) == j,
{
    lemma_find_ws(s);
    let r = find_ws(s);
    if r < j {
        assert(!is_ws(s[r]));
    } else if r > j {
        assert(is_ws(s[j]));
    }
}

pub proof fn lemma_trim_start_len(s: Seq<char>)
    ensures
        trim_start(s).len() <= s.len(),
        trim_start(s).len() > 0 ==> !is_ws(trim_start(s)[0]),
    decreases s.len(),
{
    if s.len() > 0 && is_ws(s[0]) {
        lemma_trim_start_len(s.drop_first());
    }
}

/// Dropping the `a` leading whitespace characters before the first other
/// character is `trim_start`.
pub proof fn lemma_trim_start_skip(s: Seq<char>, a: int)
    requires
        0 <= a <= s.len(),
        forall|k: int| 0 <= k < a ==> is_ws(s[k]),
        a < s.len() ==> !is_ws(s[a]),
    ensures
        trim_start(s) == s.skip(a),
    decreases a,
{
    if a == 0 {
        assert(s.skip(0) =~= s);
    } else {
        let d = s.drop_first();
        assert forall|k: int| 0 <= k < a - 1 implies is_ws(d[k]) by {
            assert(d[k] == s[k + 1]);
        }
        if a - 1 < d.len() {
            assert(d[a - 1] == s[a]);
        }
        lemma_trim_start_skip(d, a - 1);
        assert(d.skip(a - 1) =~= s.skip(a));
    }
}

/// Keeping the first `b` characters, after which only whitespace follows,
/// is `trim_end`.
pub proof fn lemma_trim_end_take(s: Seq<char>, b: int)
    requires
        0 <= b <= s.len(),
        forall|k: int| b <= k < s.len() ==> is_ws(s[k]),
        b > 0 ==> !is_ws(s[b - 1]),
    ensures
        trim_end(s) == s.take(b),
    decreases s.len() - b,
{
    if b == s.len() {
        assert(s.take(b) =~= s);
    } else {
        let d = s.drop_last();
        lemma_trim_end_take(d, b);
        assert(d.take(b) =~= s.take(b));
    }
}

/// `lines` of a non-empty text is its first line followed by the lines of
/// what comes after that line's end.
pub proof fn lemma_lines_step(s: Seq<char>, j: int)
    requires
        0 <= j <= s.len(),
        s.len() > 0,
        forall|k: int| 0 <= k < j ==> s[k] != '\n',
        j < s.len() ==> s[j] == '\n',
    ensures
        j < s.len() ==> lines(s) == seq![strip_cr(s.take(j))] + lines(s.skip(j + 1)),
        j == s.len() ==> lines(s) == seq![s],
{
    lemma_find_char_unique(s, '\n', j);
}

// ---------------------------------------------------------------------
// Executable functions
// ---------------------------------------------------------------------

/// `c` is a Unicode whitespace character.
pub fn is_whitespace(c: char) -> (b: bool)
    ensures
        b == is_ws(c),
{
    c == '\t' || c == '\n' || c == '\u{0B}' || c == '\u{0C}' || c == '\r' || c == ' ' || c
        == '\u{85}' || c == '\u{A0}' || c == '\u{1680}' || ('\u{2000}' <= c && c <= '\u{200A}')
        || c == '\u{2028}' || c == '\u{2029}' || c == '\u{202F}' || c == '\u{205F}' || c
        == '\u{3000}'
}

/// The characters of `t`.
pub fn chars_of(t: &str) -> (v: Vec<char>)
    ensures
        v@ == t@,
{
    let mut v: Vec<char> = Vec::new();
    for c in it: t.chars()
        invariant
            v@ == it.seq().take(it.index() as int),
            it.seq() == t@,
    {
        v.push(c);
    }
    v
}

/// The string made of the characters of `v`.
pub fn string_from_chars(v: &Vec<char>) -> (s: String)
    ensures
        s@ == v@,
{
    let mut s = String::new();
    for i in 0..v.len()
        invariant
            s@ == v@.take(i as int),
    {
        s.push(v[i]);
        assert(v@.take(i + 1) == v@.take(i as int).push(v@[i as int]));
    }
    assert(v@.take(v.len() as int) == v@);
    s
}

/// A copy of `v[from..to]`.
pub fn sub_chars(v: &Vec<char>, from: usize, to: usize) -> (r: Vec<char>)
    requires
        from <= to <= v.len(),
    ensures
        r@ == v@.subrange(from as int, to as int),
{
    let mut r: Vec<char> = Vec::new();
    let mut i = from;
    while i < to
        invariant
            from <= i <= to <= v.len(),
            r@ == v@.subrange(from as int, i as int),
        decreases to - i,
    {
        r.push(v[i]);
        assert(v@.subrange(from as int, i + 1) == v@.subrange(from as int, i as int).push(
            v@[i as int],
        ));
        i += 1;
    }
    r
}

/// Index of the first `c` in `v` at or after `from`, or `v.len()`.
pub fn find_from(v: &Vec<char>, from: usize, c: char) -> (j: usize)
    requires
        from <= v.len(),
    ensures
        from <= j <= v.len(),
        forall|k: int| from <= k < j ==> v@[k] != c,
        j < v.len() ==> v@[j as int] == c,
{
    let mut j = from;
    while j < v.len()
        invariant
            from <= j <= v.len(),
            forall|k: int| from <= k < j ==> v@[k] != c,
        decreases v.len() - j,
    {
        if v[j] == c {
            return j;
        }
        j += 1;
    }
    j
}

/// Index of the first `c` in `v`, if there is one.
pub fn find(v: &Vec<char>, c: char) -> (r: Option<usize>)
    ensures
        r is Some <==> find_char(v@, c) < v@.len(),
        r matches Some(j) ==> j == find_char(v@, c),
{
    let j = find_from(v, 0, c);
    proof {
        lemma_find_char_unique(v@, c, j as int);
    }
    if j < v.len() {
        Some(j)
    } else {
        None
    }
}

/// The first line of `v[pos..]` and the index where the rest begins.
pub fn next_line(v: &Vec<char>, pos: usize) -> (r: (Vec<char>, usize))
    requires
        pos < v.len(),
    ensures
        pos < r.1 <= v.len(),
        lines(v@.skip(pos as int)) == seq![r.0@] + lines(v@.skip(r.1 as int)),
{
    let j = find_from(v, pos, '\n');
    let ghost s = v@.skip(pos as int);
    proof {
        assert forall|k: int| 0 <= k < j - pos implies s[k] != '\n' by {
            assert(s[k] == v@[k + pos]);
        }
        if j < v.len() {
            assert(s[j - pos] == v@[j as int]);
        }
        lemma_lines_step(s, j - pos);
    }
    if j < v.len() {
        let mut line = sub_chars(v, pos, j);
        assert(s.take(j - pos) =~= line@);
        assert(s.skip(j - pos + 1) =~= v@.skip(j + 1));
        let n = line.len();
        if n > 0 && line[n - 1] == '\r' {
            line.pop();
            assert(line@ =~= strip_cr(s.take(j - pos)));
        }
        (line, j + 1)
    } else {
        let line = sub_chars(v, pos, j);
        assert(line@ =~= s);
        assert(v@.skip(j as int) =~= Seq::<char>::empty());
        assert(seq![line@] + Seq::<Seq<char>>::empty() =~= seq![line@]);
        (line, j)
    }
}

/// `v` without leading whitespace.
pub fn trim_start_chars(v: &Vec<char>) -> (r: Vec<char>)
    ensures
        r@ == trim_start(v@),
{
    let mut a: usize = 0;
    while a < v.len() && is_whitespace(v[a])
        invariant
            a <= v.len(),
            forall|k: int| 0 <= k < a ==> is_ws(v@[k]),
        decreases v.len() - a,
    {
        a += 1;
    }
    proof {
        lemma_trim_start_skip(v@, a as int);
    }
    let r = sub_chars(v, a, v.len());
    assert(r@ =~= v@.skip(a as int));
    r
}

/// `v` without leading and trailing whitespace.
pub fn trim_chars(v: &Vec<char>) -> (r: Vec<char>)
    ensures
        r@ == trim(v@),
{
    let t = trim_start_chars(v);
    let mut b: usize = t.len();
    while b > 0 && is_whitespace(t[b - 1])
        invariant
            b <= t.len(),
            forall|k: int| b <= k < t.len() ==> is_ws(t@[k]),
        decreases b,
    {
        b -= 1;
    }
    proof {
        lemma_trim_end_take(t@, b as int);
    }
    let r = sub_chars(&t, 0, b);
    assert(r@ =~= t@.take(b as int));
    r
}

/// `v` begins with `p`.
pub fn starts_with_chars(v: &Vec<char>, p: &Vec<char>) -> (b: bool)
    ensures
        b == starts_with(v@, p@),
{
    if p.len() > v.len() {
        return false;
    }
    let mut i: usize = 0;
    while i < p.len()
        invariant
            p.len() <= v.len(),
            i <= p.len(),
            forall|k: int| 0 <= k < i ==> v@[k] == p@[k],
        decreases p.len() - i,
    {
        if v[i] != p[i] {
            assert(v@.take(p.len() as int)[i as int] != p@[i as int]);
            return false;
        }
        i += 1;
    }
    assert(v@.take(p.len() as int) =~= p@);
    true
}

/// `p` occurs in `v`.
pub fn contains_chars(v: &Vec<char>, p: &Vec<char>) -> (b: bool)
    ensures
        b == contains_seq(v@, p@),
{
    if p.len() > v.len() {
        return false;
    }
    let last = v.len() - p.len();
    let mut i: usize = 0;
    loop
        invariant
            p.len() <= v.len(),
            last == v.len() - p.len(),
            i <= last,
            forall|k: int| 0 <= k < i ==> #[trigger] v@.subrange(k, k + p@.len()) != p@,
        decreases last - i,
    {
        let w = sub_chars(v, i, i + p.len());
        assert(w@.take(p.len() as int) =~= w@);
        if starts_with_chars(&w, p) {
            assert(v@.subrange(i as int, i + p.len()) == p@);
            return true;
        }
        if i == last {
            assert forall|k: int| 0 <= k <= v@.len() - p@.len() implies #[trigger] v@.subrange(
                k,
                k + p@.len(),
            ) != p@ by {
                if k == i {
                    assert(v@.subrange(i as int, i + p.len()) == w@);
                }
            }
            return false;
        }
        i += 1;
    }
}

/// `v` with every leading copy of the non-empty `p` removed.
pub fn strip_prefixes_chars(v: &Vec<char>, p: &Vec<char>) -> (r: Vec<char>)
    requires
        p.len() > 0,
    ensures
        r@ == strip_prefixes(v@, p@),
{
    let mut rest = sub_chars(v, 0, v.len());
    assert(rest@ =~= v@);
    while starts_with_chars(&rest, p)
        invariant
            p.len() > 0,
            strip_prefixes(v@, p@) == strip_prefixes(rest@, p@),
        decreases rest.len(),
    {
        let n = rest.len();
        rest = sub_chars(&rest, p.len(), n);
    }
    rest
}

/// The whitespace-separated words of `v`.
pub fn split_whitespace_chars(v: &Vec<char>) -> (r: Vec<Vec<char>>)
    ensures
        r.len() == words(v@).len(),
        forall|i: int| 0 <= i < r.len() ==> #[trigger] r@[i]@ == words(v@)[i],
{
    let mut r: Vec<Vec<char>> = Vec::new();
    let ghost mut done: Seq<Seq<char>> = seq![];
    let mut pos: usize = 0;
    assert(v@.skip(0) =~= v@);
    loop
        invariant
            pos <= v.len(),
            words(v@) == done + words(v@.skip(pos as int)),
            r.len() == done.len(),
            forall|i: int| 0 <= i < r.len() ==> #[trigger] r@[i]@ == done[i],
        decreases v.len() - pos,
    {
        let ghost s = v@.skip(pos as int);
        let mut a = pos;
        while a < v.len() && is_whitespace(v[a])
            invariant
                pos <= a <= v.len(),
                forall|k: int| pos <= k < a ==> is_ws(v@[k]),
            decreases v.len() - a,
        {
            a += 1;
        }
        proof {
            assert forall|k: int| 0 <= k < a - pos implies is_ws(s[k]) by {
                assert(s[k] == v@[k + pos]);
            }
            if a < v.len() {
                assert(s[a - pos] == v@[a as int]);
            }
            lemma_trim_start_skip(s, a - pos);
            assert(s.skip(a - pos) =~= v@.skip(a as int));
        }
        if a == v.len() {
            assert(words(s) == Seq::<Seq<char>>::empty());
            assert(done + Seq::<Seq<char>>::empty() =~= done);
            return r;
        }
        let mut b = a;
        while b < v.len() && !is_whitespace(v[b])
            invariant
                a <= b <= v.len(),
                forall|k: int| a <= k < b ==> !is_ws(v@[k]),
            decreases v.len() - b,
        {
            b += 1;
        }
        let ghost t = v@.skip(a as int);
        proof {
            assert forall|k: int| 0 <= k < b - a implies !is_ws(t[k]) by {
                assert(t[k] == v@[k + a]);
            }
            if b < v.len() {
                assert(t[b - a] == v@[b as int]);
            }
            lemma_find_ws_unique(t, b - a);
            assert(t.skip(b - a) =~= v@.skip(b as int));
        }
        let w = sub_chars(v, a, b);
        assert(w@ =~= t.take(b - a));
        proof {
            assert(words(s) == seq![w@] + words(v@.skip(b as int)));
            assert(done + (seq![w@] + words(v@.skip(b as int))) =~= done.push(w@) + words(
                v@.skip(b as int),
            ));
            done = done.push(w@);
        }
        r.push(w);
        pos = b;
    }
}

/// The parts of `ws` with `sep` between each two neighbours.
pub fn join_chars(ws: &Vec<Vec<char>>, from: usize, sep: &Vec<char>) -> (r: Vec<char>)
    requires
        from <= ws.len(),
    ensures
        r@ == join(ws@.skip(from as int).map_values(|w: Vec<char>| w@), sep@),
{
    let ghost parts = ws@.skip(from as int).map_values(|w: Vec<char>| w@);
    let mut r: Vec<char> = Vec::new();
    let mut i = from;
    while i < ws.len()
        invariant
            from <= i <= ws.len(),
            parts == ws@.skip(from as int).map_values(|w: Vec<char>| w@),
            r@ == join(parts.take(i - from), sep@),
        decreases ws.len() - i,
    {
        let ghost before = r@;
        if i > from {
            let mut k: usize = 0;
            while k < sep.len()
                invariant
                    k <= sep.len(),
                    r@ == before + sep@.take(k as int),
                decreases sep.len() - k,
            {
                r.push(sep[k]);
                assert(sep@.take(k + 1) == sep@.take(k as int).push(sep@[k as int]));
                k += 1;
            }
            assert(sep@.take(sep.len() as int) =~= sep@);
        }
        let ghost mid = r@;
        let w = &ws[i];
        let mut k: usize = 0;
        while k < w.len()
            invariant
                k <= w.len(),
                r@ == mid + w@.take(k as int),
            decreases w.len() - k,
        {
            r.push(w[k]);
            assert(w@.take(k + 1) == w@.take(k as int).push(w@[k as int]));
            k += 1;
        }
        assert(w@.take(w.len() as int) =~= w@);
        proof {
            let p1 = parts.take(i + 1 - from);
            assert(p1.drop_last() =~= parts.take(i - from));
            assert(p1.last() == w@);
            if i == from {
                assert(p1.len() == 1);
            }
        }
        i += 1;
    }
    assert(parts.take(ws.len() - from) =~= parts);
    r
}

/// `v` followed by the characters of `s`.
pub fn push_str(v: &mut Vec<char>, s: &str)
    ensures
        final(v)@ == old(v)@ + s@,
{
    let mut c = chars_of(s);
    v.append(&mut c);
}

/// The decimal digit `d`.
pub open spec fn digit_char(d: nat) -> char {
    ((d + 48) as u8) as char
}

/// The decimal digits of `n`, most significant first, without leading
/// zeros (`0` is written `"0"`).
pub open spec fn digits(n: nat) -> Seq<char>
    decreases n,
{
    if n < 10 {
        seq![digit_char(n)]
    } else {
        digits(n / 10).push(digit_char(n % 10))
    }
}

/// `n` written in decimal, with a leading `-` when it is negative.
pub open spec fn decimal(n: int) -> Seq<char> {
    if n < 0 {
        seq!['-'] + digits((-n) as nat)
    } else {
        digits(n as nat)
    }
}

fn push_digits(v: &mut Vec<char>, n: u64)
    ensures
        final(v)@ == old(v)@ + digits(n as nat),
    decreases n,
{
    if n >= 10 {
        push_digits(v, n / 10);
    }
    let d: u8 = (n % 10) as u8;
    v.push((d + 48) as char);
    assert(v@ =~= old(v)@ + digits(n as nat));
}

/// `v` followed by `n` written in decimal.
pub fn push_decimal(v: &mut Vec<char>, n: i32)
    ensures
        final(v)@ == old(v)@ + decimal(n as int),
{
    if n < 0 {
        v.push('-');
        let m: u64 = (0 - (n as i64)) as u64;
        push_digits(v, m);
        assert(v@ =~= old(v)@ + decimal(n as int));
    } else {
        push_digits(v, n as u64);
    }
}

/// `"true"` or `"false"`.
pub open spec fn bool_text(b: bool) -> Seq<char> {
    if b {
        "true"@
    } else {
        "false"@
    }
}

/// `v` followed by `"true"` or `"false"`.
pub fn push_bool(v: &mut Vec<char>, b: bool)
    ensures
        final(v)@ == old(v)@ + bool_text(b),
{
    if b {
        push_str(v, "true");
    } else {
        push_str(v, "false");
    }
}

/// What `str::to_lowercase` makes of a text: the Unicode lowercase mapping
/// of its characters (a capital sigma at the end of a word becomes the
/// final form).
pub uninterp spec fn lowercase(s: Seq<char>) -> Seq<char>;

/// Calls `str::to_lowercase`. The contract names the result and states
/// one fact of it that the standard library documents: every character
/// lowercases to one or more characters, so the result is empty exactly
/// when `s` is.
#[verifier::external_body]
pub(crate) fn to_lowercase(s: &str) -> (r: String)
    ensures
        r@ == lowercase(s@),
        r@.len() == 0 <==> s@.len() == 0,
{
    s.to_lowercase()
}

} // verus!
