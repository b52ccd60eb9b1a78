//! The parts of `str` that reading the probe module's text needs, over
//! sequences of characters: whitespace, `trim`, `lines`,
//! `split_ascii_whitespace` and joining.
use vstd::prelude::*;

verus! {

/// The characters that `u8::is_ascii_whitespace` accepts: space, tab, line
/// feed, form feed and carriage return.
pub open spec fn is_ascii_whitespace(c: char) -> bool {
    let code = c as u32;
    code == 32 || code == 9 || code == 10 || code == 12 || code == 13
}

/// The characters with the Unicode `White_Space` property, which
/// `char::is_whitespace` accepts.
pub open spec fn is_whitespace(c: char) -> bool {
    let code = c as u32;
    ||| 9 <= code <= 13
    ||| code == 0x20
    ||| code == 0x85
    ||| code == 0xa0
    ||| code == 0x1680
    ||| 0x2000 <= code <= 0x200a
    ||| code == 0x2028
    ||| code == 0x2029
    ||| code == 0x202f
    ||| code == 0x205f
    ||| code == 0x3000
}

pub fn ascii_whitespace(c: char) -> (r: bool)
    ensures
        r == is_ascii_whitespace(c),
{
    let code: u32 = c as u32;
    code == 32 || code == 9 || code == 10 || code == 12 || code == 13
}

pub fn whitespace(c: char) -> (r: bool)
    ensures
        r == is_whitespace(c),
{
    let code: u32 = c as u32;
    (9 <= code && code <= 13) || code == 0x20 || code == 0x85 || code == 0xa0 || code == 0x1680
        || (0x2000 <= code && code <= 0x200a) || code == 0x2028 || code == 0x2029 || code
        == 0x202f || code == 0x205f || code == 0x3000
}

/// `s` without its leading whitespace.
pub open spec fn trim_start(s: Seq<char>) -> Seq<char>
    decreases s.len(),
{
    if s.len() > 0 && is_whitespace(s[0]) {
        trim_start(s.drop_first())
    } else {
        s
    }
}

/// `s` without its trailing whitespace.
pub open spec fn trim_end(s: Seq<char>) -> Seq<char>
    decreases s.len(),
{
    if s.len() > 0 && is_whitespace(s.last()) {
        trim_end(s.drop_last())
    } else {
        s
    }
}

/// What `str::trim` leaves of `s`.
pub open spec fn trim(s: Seq<char>) -> Seq<char> {
    trim_end(trim_start(s))
}

/// The characters of `s`.
pub fn chars_of(s: &str) -> (chars: Vec<char>)
    ensures
        chars@ == s@,
{
    let n = s.unicode_len();
    let mut chars: Vec<char> = Vec::new();
    let mut i: usize = 0;
    while i < n
        invariant
            n == s@.len(),
            i <= n,
            chars@ == s@.take(i as int),
        decreases n - i,
    {
        let c = s.get_char(i);
        chars.push(c);
        i = i + 1;
        assert(chars@ =~= s@.take(i as int));
    }
    assert(s@.take(n as int) =~= s@);
    chars
}

/// Whether `chars[start..end]` holds exactly the characters of `other`.
pub fn range_equals(chars: &Vec<char>, start: usize, end: usize, other: &Vec<char>) -> (r: bool)
    requires
        start <= end <= chars.len(),
    ensures
        r == (chars@.subrange(start as int, end as int) == other@),
{
    if end - start != other.len() {
        return false;
    }
    let mut i: usize = 0;
    while i < other.len()
        invariant
            start <= end <= chars.len(),
            end - start == other.len(),
            i <= other.len(),
            forall|j: int| 0 <= j < i ==> chars@[start + j] == other@[j],
        decreases other.len() - i,
    {
        if chars[start + i] != other[i] {
            assert(chars@.subrange(start as int, end as int)[i as int] != other@[i as int]);
            return false;
        }
        i = i + 1;
    }
    assert(chars@.subrange(start as int, end as int) =~= other@);
    true
}

/// Whether `a` and `b` hold the same characters.
pub fn same_text(a: &str, b: &str) -> (r: bool)
    ensures
        r == (a@ == b@),
{
    let chars = chars_of(a);
    let other = chars_of(b);
    assert(chars@.subrange(0, chars.len() as int) =~= a@);
    range_equals(&chars, 0, chars.len(), &other)
}

/// The bounds of what `str::trim` leaves of `chars[start..end]`.
pub fn trim_range(chars: &Vec<char>, start: usize, end: usize) -> (r: (usize, usize))
    requires
        start <= end <= chars.len(),
    ensures
        start <= r.0 <= r.1 <= end,
        chars@.subrange(r.0 as int, r.1 as int) == trim(chars@.subrange(start as int, end as int)),
{
    let mut a: usize = start;
    while a < end && whitespace(chars[a])
        invariant
            start <= a <= end <= chars.len(),
            trim_start(chars@.subrange(start as int, end as int)) == trim_start(
                chars@.subrange(a as int, end as int),
            ),
        decreases end - a,
    {
        assert(chars@.subrange(a as int, end as int).drop_first() =~= chars@.subrange(
            a + 1,
            end as int,
        ));
        a = a + 1;
    }
    assert(trim_start(chars@.subrange(a as int, end as int)) == chars@.subrange(a as int, end as int));
    let mut b: usize = end;
    while b > a && whitespace(chars[b - 1])
        invariant
            start <= a <= b <= end <= chars.len(),
            trim_end(chars@.subrange(a as int, end as int)) == trim_end(
                chars@.subrange(a as int, b as int),
            ),
        decreases b - a,
    {
        assert(chars@.subrange(a as int, b as int).drop_last() =~= chars@.subrange(
            a as int,
            b - 1,
        ));
        b = b - 1;
    }
    (a, b)
}

/// How many characters of `s` come before its first line feed (all of them
/// when it has none).
pub open spec fn newline_index(s: Seq<char>) -> nat
    decreases s.len(),
{
    if s.len() == 0 {
        0
    } else if s[0] == '\n' {
        0
    } else {
        1 + newline_index(s.drop_first())
    }
}

/// `line` without one trailing carriage return.
pub open spec fn strip_cr(line: Seq<char>) -> Seq<char> {
    if line.len() > 0 && line.last() == '\r' {
        line.drop_last()
    } else {
        line
    }
}

/// The lines that `str::lines` yields for `s`: the text between line feeds,
/// each without a carriage return just before its line feed; a final line
/// feed ends the last line and starts no new one.
pub open spec fn lines(s: Seq<char>) -> Seq<Seq<char>>
    decreases s.len(),
{
    if s.len() == 0 {
        seq![]
    } else {
        let k = newline_index(s);
        if k >= s.len() {
            seq![s]
        } else {
            seq![strip_cr(s.take(k as int))] + lines(s.skip(k + 1 as int))
        }
    }
}

pub proof fn lemma_newline_index(s: Seq<char>, m: int)
    requires
        0 <= m <= s.len(),
        forall|j: int| 0 <= j < m ==> s[j] != '\n',
        m == s.len() || s[m] == '\n',
    ensures
        newline_index(s) == m,
    decreases m,
{
    if m > 0 {
        lemma_newline_index(s.drop_first(), m - 1);
    }
}

/// The next line of `chars[pos..]`: where it starts and ends, and where the
/// rest of the text starts.
pub fn next_line(chars: &Vec<char>, pos: usize) -> (r: Option<(usize, usize, usize)>)
    requires
        pos <= chars.len(),
    ensures
        r is None <==> pos == chars.len(),
        r is None ==> lines(chars@.subrange(pos as int, chars.len() as int)) =~= Seq::<Seq<char>>::empty(),
        r matches Some((a, b, p)) ==> {
            &&& pos == a <= b <= p <= chars.len()
            &&& a < p
            &&& lines(chars@.subrange(pos as int, chars.len() as int)) == seq![
                chars@.subrange(a as int, b as int),
            ] + lines(chars@.subrange(p as int, chars.len() as int))
        },
{
    let len = chars.len();
    if pos == len {
        return None;
    }
    let ghost s = chars@.subrange(pos as int, len as int);
    let mut q: usize = pos;
    while q < len && chars[q] != '\n'
        invariant
            pos <= q <= len == chars.len(),
            s == chars@.subrange(pos as int, len as int),
            forall|j: int| pos <= j < q ==> chars@[j] != '\n',
        decreases len - q,
    {
        q = q + 1;
    }
    proof {
        lemma_newline_index(s, q - pos);
    }
    if q == len {
        assert(chars@.subrange(len as int, len as int) =~= Seq::<char>::empty());
        assert(lines(Seq::<char>::empty()) =~= Seq::<Seq<char>>::empty());
        assert(lines(s) =~= seq![chars@.subrange(pos as int, len as int)] + lines(
            chars@.subrange(len as int, len as int),
        ));
        return Some((pos, len, len));
    }
    let end = if q > pos && chars[q - 1] == '\r' {
        q - 1
    } else {
        q
    };
    assert(s.take(q - pos) =~= chars@.subrange(pos as int, q as int));
    assert(s.skip(q - pos + 1) =~= chars@.subrange(q + 1, len as int));
    assert(strip_cr(s.take(q - pos)) =~= chars@.subrange(pos as int, end as int));
    Some((pos, end, q + 1))
}

/// How many characters of `s` come before its first ASCII whitespace (all
/// of them when it has none).
pub open spec fn token_length(s: Seq<char>) -> nat
    decreases s.len(),
{
    if s.len() > 0 && !is_ascii_whitespace(s[0]) {
        1 + token_length(s.drop_first())
    } else {
        0
    }
}

pub proof fn lemma_token_length_bounds(s: Seq<char>)
    ensures
        token_length(s) <= s.len(),
        s.len() > 0 && !is_ascii_whitespace(s[0]) ==> token_length(s) >= 1,
    decreases s.len(),
{
    if s.len() > 0 && !is_ascii_whitespace(s[0]) {
        lemma_token_length_bounds(s.drop_first());
    }
}

pub proof fn lemma_token_length(s: Seq<char>, m: int)
    requires
        0 <= m <= s.len(),
        forall|j: int| 0 <= j < m ==> !is_ascii_whitespace(s[j]),
        m == s.len() || is_ascii_whitespace(s[m]),
    ensures
        token_length(s) == m,
    decreases m,
{
    if m > 0 {
        lemma_token_length(s.drop_first(), m - 1);
    }
}

/// The fields that `str::split_ascii_whitespace` yields for `s`: the
/// non-empty runs of characters between ASCII whitespace.
pub open spec fn fields(s: Seq<char>) -> Seq<Seq<char>>
    decreases s.len(),
{
    if s.len() == 0 {
        seq![]
    } else if is_ascii_whitespace(s[0]) {
        fields(s.drop_first())
    } else {
        let k = token_length(s);
        proof {
            lemma_token_length_bounds(s);
        }
        seq![s.take(k as int)] + fields(s.skip(k as int))
    }
}

/// The next field of `chars[pos..end]`, as `split_ascii_whitespace` yields it.
pub fn next_field(chars: &Vec<char>, pos: usize, end: usize) -> (r: Option<(usize, usize)>)
    requires
        pos <= end <= chars.len(),
    ensures
        r is None ==> fields(chars@.subrange(pos as int, end as int)) =~= Seq::<Seq<char>>::empty(),
        r matches Some((a, b)) ==> {
            &&& pos <= a < b <= end
            &&& fields(chars@.subrange(pos as int, end as int)) == seq![
                chars@.subrange(a as int, b as int),
            ] + fields(chars@.subrange(b as int, end as int))
        },
{
    let mut i: usize = pos;
    while i < end && ascii_whitespace(chars[i])
        invariant
            pos <= i <= end <= chars.len(),
            fields(chars@.subrange(pos as int, end as int)) == fields(
                chars@.subrange(i as int, end as int),
            ),
        decreases end - i,
    {
        assert(chars@.subrange(i as int, end as int).drop_first() =~= chars@.subrange(
            i + 1,
            end as int,
        ));
        i = i + 1;
    }
    if i == end {
        assert(chars@.subrange(i as int, end as int) =~= Seq::<char>::empty());
        return None;
    }
    let ghost t = chars@.subrange(i as int, end as int);
    let mut j: usize = i;
    while j < end && !ascii_whitespace(chars[j])
        invariant
            i <= j <= end <= chars.len(),
            t == chars@.subrange(i as int, end as int),
            forall|k: int| i <= k < j ==> !is_ascii_whitespace(chars@[k]),
        decreases end - j,
    {
        j = j + 1;
    }
    proof {
        lemma_token_length(t, j - i);
    }
    assert(t.take(j - i) =~= chars@.subrange(i as int, j as int));
    assert(t.skip(j - i) =~= chars@.subrange(j as int, end as int));
    Some((i, j))
}

/// The lines of `parts` joined with `separator` between neighbours, as
/// `[T]::join` makes them.
pub open spec fn join(parts: Seq<Seq<char>>, separator: Seq<char>) -> Seq<char>
    decreases parts.len(),
{
    if parts.len() == 0 {
        seq![]
    } else if parts.len() == 1 {
        parts[0]
    } else {
        join(parts.drop_last(), separator) + separator + parts.last()
    }
}

/// Joining at least two parts puts the first part, then the separator,
/// then the rest joined.
pub proof fn lemma_join_front(parts: Seq<Seq<char>>, separator: Seq<char>)
    requires
        parts.len() >= 2,
    ensures
        join(parts, separator) == parts[0] + separator + join(parts.drop_first(), separator),
    decreases parts.len(),
{
    if parts.len() == 2 {
        assert(parts.drop_last() =~= seq![parts[0]]);
        assert(parts.drop_first() =~= seq![parts[1]]);
        assert(join(seq![parts[0]], separator) == parts[0]);
        assert(join(seq![parts[1]], separator) == parts[1]);
        assert(join(parts, separator) == join(parts.drop_last(), separator) + separator + parts.last());
    } else {
        let front = parts.drop_last();
        let back = parts.drop_first();
        lemma_join_front(front, separator);
        assert(front.drop_first() =~= back.drop_last());
        assert(back.last() == parts.last());
        assert(front[0] == parts[0]);
        assert(join(parts, separator) == join(front, separator) + separator + parts.last());
        assert(join(back, separator) == join(back.drop_last(), separator) + separator + back.last());
        assert(parts[0] + separator + join(back.drop_last(), separator) + separator
            + parts.last() =~= parts[0] + separator + (join(back.drop_last(), separator)
            + separator + parts.last()));
    }
}

/// A line that `lines` gives back unchanged: not empty, without a line
/// feed, and not ending in a carriage return.
pub open spec fn is_plain_line(line: Seq<char>) -> bool {
    &&& line.len() > 0
    &&& forall|i: int| 0 <= i < line.len() ==> line[i] != '\n'
    &&& line.last() != '\r'
}

/// Splitting plain lines joined with line feeds gives the lines back.
pub proof fn lemma_lines_of_join(parts: Seq<Seq<char>>)
    requires
        forall|i: int| 0 <= i < parts.len() ==> is_plain_line(#[trigger] parts[i]),
    ensures
        lines(join(parts, seq!['\n'])) == parts,
    decreases parts.len(),
{
    if parts.len() == 0 {
        assert(lines(Seq::<char>::empty()) =~= parts);
    } else if parts.len() == 1 {
        let l = parts[0];
        assert(is_plain_line(l));
        lemma_newline_index(l, l.len() as int);
        assert(lines(l) =~= parts);
    } else {
        let l = parts[0];
        assert(is_plain_line(l));
        let rest = parts.drop_first();
        lemma_join_front(parts, seq!['\n']);
        lemma_lines_of_join(rest);
        let s = l + seq!['\n'] + join(rest, seq!['\n']);
        lemma_newline_index(s, l.len() as int);
        assert(s.take(l.len() as int) =~= l);
        assert(s.skip(l.len() + 1 as int) =~= join(rest, seq!['\n']));
        assert(lines(s) =~= seq![l] + rest);
        assert(seq![l] + rest =~= parts);
    }
}

/// A field that `split_ascii_whitespace` gives back whole: not empty and
/// without ASCII whitespace.
pub open spec fn is_field(token: Seq<char>) -> bool {
    &&& token.len() > 0
    &&& forall|i: int| 0 <= i < token.len() ==> !is_ascii_whitespace(#[trigger] token[i])
}

/// A field followed by whitespace or by nothing is the first field.
pub proof fn lemma_fields_front(token: Seq<char>, rest: Seq<char>)
    requires
        is_field(token),
        rest.len() == 0 || is_ascii_whitespace(rest[0]),
    ensures
        fields(token + rest) == seq![token] + fields(rest),
{
    let s = token + rest;
    lemma_token_length(s, token.len() as int);
    assert(s.take(token.len() as int) =~= token);
    assert(s.skip(token.len() as int) =~= rest);
}

/// Fields separated by single spaces are the fields.
pub proof fn lemma_fields_of_three(a: Seq<char>, b: Seq<char>, c: Seq<char>)
    requires
        is_field(a),
        is_field(b),
        is_field(c),
    ensures
        fields(a + seq![' '] + b + seq![' '] + c) == seq![a, b, c],
{
    let tail = seq![' '] + b + seq![' '] + c;
    lemma_fields_front(a, tail);
    assert(a + seq![' '] + b + seq![' '] + c =~= a + tail);
    assert(tail.drop_first() =~= b + (seq![' '] + c));
    lemma_fields_front(b, seq![' '] + c);
    assert((seq![' '] + c).drop_first() =~= c);
    lemma_fields_front(c, Seq::<char>::empty());
    assert(c + Seq::<char>::empty() =~= c);
    assert(fields(Seq::<char>::empty()) =~= Seq::<Seq<char>>::empty());
    assert(seq![a] + (seq![b] + (seq![c] + Seq::<Seq<char>>::empty())) =~= seq![a, b, c]);
}

/// Two fields separated by a single space are the fields.
pub proof fn lemma_fields_of_two(a: Seq<char>, b: Seq<char>)
    requires
        is_field(a),
        is_field(b),
    ensures
        fields(a + seq![' '] + b) == seq![a, b],
{
    lemma_fields_front(a, seq![' '] + b);
    assert(a + seq![' '] + b =~= a + (seq![' '] + b));
    assert((seq![' '] + b).drop_first() =~= b);
    lemma_fields_front(b, Seq::<char>::empty());
    assert(b + Seq::<char>::empty() =~= b);
    assert(fields(Seq::<char>::empty()) =~= Seq::<Seq<char>>::empty());
    assert(seq![a] + (seq![b] + Seq::<Seq<char>>::empty()) =~= seq![a, b]);
}

proof fn lemma_newline_index_facts(s: Seq<char>)
    ensures
        newline_index(s) <= s.len(),
        forall|j: int| 0 <= j < newline_index(s) ==> s[j] != '\n',
        newline_index(s) < s.len() ==> s[newline_index(s) as int] == '\n',
    decreases s.len(),
{
    if s.len() > 0 && s[0] != '\n' {
        lemma_newline_index_facts(s.drop_first());
        assert forall|j: int| 0 <= j < newline_index(s) implies s[j] != '\n' by {
            if j > 0 {
                assert(s[j] == s.drop_first()[j - 1]);
            }
        }
    }
}

/// A line feed between two texts ends the lines of the first: the lines of
/// `a`, a line feed and `b` are those of `a` with its line feed, then those
/// of `b`.
pub proof fn lemma_lines_split(a: Seq<char>, b: Seq<char>)
    ensures
        lines(a + seq!['\n'] + b) == lines(a + seq!['\n']) + lines(b),
    decreases a.len(),
{
    let s = a + seq!['\n'] + b;
    let t = a + seq!['\n'];
    lemma_newline_index_facts(a);
    let k = newline_index(a) as int;
    assert(forall|j: int| 0 <= j < k ==> s[j] != '\n');
    assert(forall|j: int| 0 <= j < k ==> t[j] != '\n');
    lemma_newline_index(s, k);
    lemma_newline_index(t, k);
    assert(s.take(k) =~= t.take(k));
    if k < a.len() {
        let rest = a.skip(k + 1);
        assert(s.skip(k + 1) =~= rest + seq!['\n'] + b);
        assert(t.skip(k + 1) =~= rest + seq!['\n']);
        lemma_lines_split(rest, b);
        assert(lines(s) =~= lines(t) + lines(b));
    } else {
        assert(s.skip(k + 1) =~= b);
        assert(t.skip(k + 1) =~= Seq::<char>::empty());
        assert(lines(Seq::<char>::empty()) =~= Seq::<Seq<char>>::empty());
        assert(lines(s) =~= lines(t) + lines(b));
    }
}

/// Ending a text with a line feed either ends its last line, which then
/// loses a trailing carriage return, or, after a line feed or in an empty
/// text, adds one empty line.
pub proof fn lemma_lines_terminated(a: Seq<char>)
    ensures
        a.len() == 0 || a.last() == '\n' ==> lines(a + seq!['\n']) == lines(a) + seq![Seq::<char>::empty()],
        a.len() > 0 && a.last() != '\n' ==> {
            &&& lines(a).len() > 0
            &&& lines(a + seq!['\n']) == lines(a).drop_last().push(strip_cr(lines(a).last()))
        },
    decreases a.len(),
{
    let t = a + seq!['\n'];
    if a.len() == 0 {
        lemma_newline_index(t, 0);
        assert(t.take(0) =~= Seq::<char>::empty());
        assert(t.skip(1) =~= Seq::<char>::empty());
        assert(lines(Seq::<char>::empty()) =~= Seq::<Seq<char>>::empty());
        assert(lines(t) =~= lines(a) + seq![Seq::<char>::empty()]);
    } else {
        lemma_newline_index_facts(a);
        let k = newline_index(a) as int;
        assert(forall|j: int| 0 <= j < k ==> t[j] != '\n');
        lemma_newline_index(t, k);
        lemma_newline_index(a, k);
        assert(t.take(k) =~= a.take(k));
        if k < a.len() {
            let rest = a.skip(k + 1);
            assert(t.skip(k + 1) =~= rest + seq!['\n']);
            lemma_lines_terminated(rest);
            let first = strip_cr(a.take(k));
            assert(lines(a) == seq![first] + lines(rest));
            assert(lines(t) == seq![first] + lines(rest + seq!['\n']));
            if rest.len() == 0 {
                assert(a.last() == '\n');
                assert(lines(t) =~= lines(a) + seq![Seq::<char>::empty()]);
            } else {
                assert(rest.last() == a.last());
                if a.last() == '\n' {
                    assert(lines(t) =~= lines(a) + seq![Seq::<char>::empty()]);
                } else {
                    assert(lines(t) =~= lines(a).drop_last().push(strip_cr(lines(a).last())));
                }
            }
        } else {
            assert(t.skip(k + 1) =~= Seq::<char>::empty());
            assert(lines(Seq::<char>::empty()) =~= Seq::<Seq<char>>::empty());
            assert(t.take(k) =~= a);
            assert(lines(a) =~= seq![a]);
            assert(lines(t) =~= lines(a).drop_last().push(strip_cr(lines(a).last())));
        }
    }
}

/// A text without line feeds is one line.
pub proof fn lemma_single_line(x: Seq<char>)
    requires
        x.len() > 0,
        forall|i: int| 0 <= i < x.len() ==> x[i] != '\n',
    ensures
        lines(x) == seq![x],
{
    lemma_newline_index(x, x.len() as int);
}

proof fn lemma_token_length_extend(s: Seq<char>, c: char)
    requires
        is_ascii_whitespace(c),
    ensures
        token_length(s.push(c)) == token_length(s),
    decreases s.len(),
{
    if s.len() > 0 && !is_ascii_whitespace(s[0]) {
        assert(s.push(c).drop_first() =~= s.drop_first().push(c));
        lemma_token_length_extend(s.drop_first(), c);
    } else if s.len() == 0 {
        assert(s.push(c)[0] == c);
    } else {
        assert(s.push(c)[0] == s[0]);
    }
}

/// ASCII whitespace at the end of a text adds no field.
pub proof fn lemma_fields_trailing_whitespace(s: Seq<char>, c: char)
    requires
        is_ascii_whitespace(c),
    ensures
        fields(s.push(c)) == fields(s),
    decreases s.len(),
{
    let t = s.push(c);
    if s.len() == 0 {
        assert(t[0] == c);
        assert(t.drop_first() =~= Seq::<char>::empty());
        assert(fields(Seq::<char>::empty()) =~= Seq::<Seq<char>>::empty());
        assert(fields(t) == fields(t.drop_first()));
    } else if is_ascii_whitespace(s[0]) {
        assert(t[0] == s[0]);
        assert(t.drop_first() =~= s.drop_first().push(c));
        lemma_fields_trailing_whitespace(s.drop_first(), c);
    } else {
        assert(t[0] == s[0]);
        lemma_token_length_extend(s, c);
        lemma_token_length_bounds(s);
        let k = token_length(s) as int;
        assert(t.take(k) =~= s.take(k));
        assert(t.skip(k) =~= s.skip(k).push(c));
        lemma_fields_trailing_whitespace(s.skip(k), c);
    }
}

/// Whether every character of `s` is whitespace.
pub open spec fn all_whitespace(s: Seq<char>) -> bool {
    forall|i: int| 0 <= i < s.len() ==> is_whitespace(#[trigger] s[i])
}

proof fn lemma_trim_start_empty(s: Seq<char>)
    ensures
        (trim_start(s).len() == 0) == all_whitespace(s),
        trim_start(s).len() > 0 ==> !is_whitespace(trim_start(s)[0]),
    decreases s.len(),
{
    if s.len() > 0 && is_whitespace(s[0]) {
        lemma_trim_start_empty(s.drop_first());
        if all_whitespace(s.drop_first()) {
            assert forall|i: int| 0 <= i < s.len() implies is_whitespace(#[trigger] s[i]) by {
                if i > 0 {
                    assert(s[i] == s.drop_first()[i - 1]);
                }
            }
        } else {
            let j = choose|j: int| 0 <= j < s.drop_first().len() && !is_whitespace(s.drop_first()[j]);
            assert(s[j + 1] == s.drop_first()[j]);
        }
    } else if s.len() > 0 {
        assert(!is_whitespace(s[0]));
    }
}

proof fn lemma_trim_end_keeps_first(t: Seq<char>)
    requires
        t.len() > 0,
        !is_whitespace(t[0]),
    ensures
        trim_end(t).len() > 0,
    decreases t.len(),
{
    if is_whitespace(t.last()) {
        assert(t.len() > 1);
        assert(t.drop_last()[0] == t[0]);
        lemma_trim_end_keeps_first(t.drop_last());
    }
}

/// `trim` leaves nothing exactly when every character is whitespace.
pub proof fn lemma_trim_empty(s: Seq<char>)
    ensures
        (trim(s).len() == 0) == all_whitespace(s),
{
    lemma_trim_start_empty(s);
    if trim_start(s).len() > 0 {
        lemma_trim_end_keeps_first(trim_start(s));
    } else {
        assert(trim_start(s) =~= Seq::<char>::empty());
    }
}

/// A carriage return at the end of a line adds no field, and leaves the
/// line as blank or not blank as it was.
pub proof fn lemma_strip_cr(line: Seq<char>)
    ensures
        fields(strip_cr(line)) == fields(line),
        (trim(strip_cr(line)).len() == 0) == (trim(line).len() == 0),
{
    lemma_trim_empty(line);
    lemma_trim_empty(strip_cr(line));
    if line.len() > 0 && line.last() == '\r' {
        let m = line.drop_last();
        assert(m.push('\r') =~= line);
        lemma_fields_trailing_whitespace(m, '\r');
        if all_whitespace(m) {
            assert forall|i: int| 0 <= i < line.len() implies is_whitespace(#[trigger] line[i]) by {
                if i < m.len() {
                    assert(line[i] == m[i]);
                }
            }
        }
        if all_whitespace(line) {
            assert forall|i: int| 0 <= i < m.len() implies is_whitespace(#[trigger] m[i]) by {
                assert(line[i] == m[i]);
            }
        }
    }
}

} // verus!
