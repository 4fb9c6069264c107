//! Character and line primitives shared by every layout.

use vstd::prelude::*;

verus! {

/// Whether `c` carries the Unicode `White_Space` property.
pub open spec fn is_whitespace(c: char) -> bool {
    let n = c as u32;
    ||| 0x09 <= n <= 0x0D
    ||| n == 0x20
    ||| n == 0x85
    ||| n == 0xA0
    ||| n == 0x1680
    ||| 0x2000 <= n <= 0x200A
    ||| n == 0x2028
    ||| n == 0x2029
    ||| n == 0x202F
    ||| n == 0x205F
    ||| n == 0x3000
}

/// Tests a character for the Unicode `White_Space` property.
pub fn char_is_whitespace(c: char) -> (b: bool)
    ensures
        b == is_whitespace(c),
{
    let n: u32 = c as u32;
    (0x09 <= n && n <= 0x0D) || n == 0x20 || n == 0x85 || n == 0xA0 || n == 0x1680 || (0x2000 <= n
        && n <= 0x200A) || n == 0x2028 || n == 0x2029 || n == 0x202F || n == 0x205F || n == 0x3000
}

/// Copies the characters of `s` into a vector, so that they can be read by
/// position in constant time.
pub fn to_chars(s: &str) -> (v: Vec<char>)
    ensures
        v@ == s@,
{
    let mut v: Vec<char> = Vec::new();
    for c in it: s.chars()
        invariant
            it.seq() == s@,
            v@ == s@.take(it.index()),
    {
        v.push(c);
    }
    v
}

/// `s` without the whitespace it starts with.
pub open spec fn trimmed_start(s: Seq<char>) -> Seq<char>
    decreases s.len(),
{
    if s.len() > 0 && is_whitespace(s.first()) {
        trimmed_start(s.drop_first())
    } else {
        s
    }
}

/// `s` without the whitespace it ends with.
pub open spec fn trimmed_end(s: Seq<char>) -> Seq<char>
    decreases s.len(),
{
    if s.len() > 0 && is_whitespace(s.last()) {
        trimmed_end(s.drop_last())
    } else {
        s
    }
}

/// `s` without leading and trailing whitespace.
pub open spec fn trimmed(s: Seq<char>) -> Seq<char> {
    trimmed_end(trimmed_start(s))
}

/// Whether every character of `s` is whitespace (true of the empty string).
pub open spec fn is_blank(s: Seq<char>) -> bool {
    forall|i: int| 0 <= i < s.len() ==> is_whitespace(#[trigger] s[i])
}

/// Skipping a whitespace prefix that stops at a non-whitespace character, or
/// at the end, is what `trimmed_start` does.
pub proof fn lemma_trimmed_start_skips(s: Seq<char>, k: int)
    requires
        0 <= k <= s.len(),
        forall|j: int| 0 <= j < k ==> is_whitespace(#[trigger] s[j]),
        k == s.len() || !is_whitespace(s[k]),
    ensures
        trimmed_start(s) == s.skip(k),
    decreases k,
{
    if k == 0 {
        assert(s.skip(0) =~= s);
    } else {
        let rest = s.drop_first();
        assert(is_whitespace(s[0]));
        assert forall|j: int| 0 <= j < k - 1 implies is_whitespace(#[trigger] rest[j]) by {
            assert(rest[j] == s[j + 1]);
        }
        lemma_trimmed_start_skips(rest, k - 1);
        assert(rest.skip(k - 1) =~= s.skip(k));
    }
}

/// Cutting a whitespace suffix that starts after a non-whitespace character,
/// or at the beginning, is what `trimmed_end` does.
pub proof fn lemma_trimmed_end_takes(s: Seq<char>, k: int)
    requires
        0 <= k <= s.len(),
        forall|j: int| k <= j < s.len() ==> is_whitespace(#[trigger] s[j]),
        k == 0 || !is_whitespace(s[k - 1]),
    ensures
        trimmed_end(s) == s.take(k),
    decreases s.len() - k,
{
    if k == s.len() {
        assert(s.take(k) =~= s);
    } else {
        let rest = s.drop_last();
        assert(is_whitespace(s[s.len() - 1]));
        lemma_trimmed_end_takes(rest, k);
        assert(rest.take(k) =~= s.take(k));
    }
}

/// A trimmed string is a slice of its source that neither starts nor ends
/// with whitespace, and it is empty exactly when the source is blank.
pub proof fn lemma_trimmed_bounds(s: Seq<char>)
    ensures
        trimmed(s).len() <= s.len(),
        trimmed(s).len() > 0 ==> !is_whitespace(trimmed(s).first()) && !is_whitespace(
            trimmed(s).last(),
        ),
        trimmed(s).len() == 0 <==> is_blank(s),
{
    lemma_trimmed_start_shape(s);
    let t = trimmed_start(s);
    lemma_trimmed_end_shape(t);
    let k = s.len() - t.len();
    if trimmed_end(t).len() == 0 {
        if t.len() > 0 {
            assert(trimmed_end(t) == t.take(0));
            assert(!is_whitespace(t[0]));
            assert(is_whitespace(t[0]));
        }
        assert(is_blank(s));
    } else {
        assert(trimmed_end(t).first() == t[0]);
        assert(t[0] == s[k]);
        assert(!is_whitespace(s[k]));
    }
}

/// `trimmed_start(s)` is `s` from some position on; everything before that
/// position is whitespace and the character at it, if any, is not.
proof fn lemma_trimmed_start_shape(s: Seq<char>)
    ensures
        trimmed_start(s).len() <= s.len(),
        trimmed_start(s) == s.skip(s.len() - trimmed_start(s).len()),
        forall|j: int|
            0 <= j < s.len() - trimmed_start(s).len() ==> is_whitespace(#[trigger] s[j]),
        trimmed_start(s).len() > 0 ==> !is_whitespace(trimmed_start(s).first()),
    decreases s.len(),
{
    if s.len() > 0 && is_whitespace(s.first()) {
        let rest = s.drop_first();
        lemma_trimmed_start_shape(rest);
        let k = rest.len() - trimmed_start(rest).len();
        assert(rest.skip(k) =~= s.skip(k + 1));
        assert forall|j: int| 0 <= j < k + 1 implies is_whitespace(#[trigger] s[j]) by {
            if j > 0 {
                assert(s[j] == rest[j - 1]);
            }
        }
    } else {
        assert(s.skip(0) =~= s);
    }
}

/// `trimmed_end(s)` is `s` up to some position; everything from that position
/// on is whitespace and the character before it, if any, is not.
proof fn lemma_trimmed_end_shape(s: Seq<char>)
    ensures
        trimmed_end(s).len() <= s.len(),
        trimmed_end(s) == s.take(trimmed_end(s).len() as int),
        forall|j: int| trimmed_end(s).len() <= j < s.len() ==> is_whitespace(#[trigger] s[j]),
        trimmed_end(s).len() > 0 ==> !is_whitespace(trimmed_end(s).last()),
    decreases s.len(),
{
    if s.len() > 0 && is_whitespace(s.last()) {
        let rest = s.drop_last();
        lemma_trimmed_end_shape(rest);
        let k = trimmed_end(rest).len() as int;
        assert(rest.take(k) =~= s.take(k));
        assert forall|j: int| k <= j < s.len() implies is_whitespace(#[trigger] s[j]) by {
            if j < rest.len() {
                assert(s[j] == rest[j]);
            }
        }
    } else {
        assert(s.take(s.len() as int) =~= s);
    }
}

/// Removes leading and trailing whitespace.
pub fn trim<'a>(s: &'a str) -> (r: &'a str)
    ensures
        r@ == trimmed(s@),
{
    let chars = to_chars(s);
    let n: usize = chars.len();
    let mut start: usize = 0;
    while start < n && char_is_whitespace(chars[start])
        invariant
            n == chars.len(),
            start <= n,
            forall|j: int| 0 <= j < start ==> is_whitespace(#[trigger] chars@[j]),
        decreases n - start,
    {
        start += 1;
    }
    let mut end: usize = n;
    while end > start && char_is_whitespace(chars[end - 1])
        invariant
            n == chars.len(),
            start <= end <= n,
            forall|j: int| end <= j < n ==> is_whitespace(#[trigger] chars@[j]),
        decreases end,
    {
        end -= 1;
    }
    proof {
        let tail = s@.skip(start as int);
        lemma_trimmed_start_skips(s@, start as int);
        assert forall|j: int| end - start <= j < tail.len() implies is_whitespace(
            #[trigger] tail[j],
        ) by {
            assert(tail[j] == chars@[j + start]);
        }
        lemma_trimmed_end_takes(tail, end - start);
        assert(tail.take(end - start) =~= s@.subrange(start as int, end as int));
    }
    s.substring_char(start, end)
}

/// `s` without one final line feed, if it ends with one.
pub open spec fn without_final_newline(s: Seq<char>) -> Seq<char> {
    if s.len() > 0 && s.last() == '\n' {
        s.drop_last()
    } else {
        s
    }
}

/// Removes exactly one final line feed, if there is one.
pub fn strip_final_newline(s: String) -> (r: String)
    ensures
        r@ == without_final_newline(s@),
{
    let n: usize = s.as_str().unicode_len();
    if n > 0 && s.as_str().get_char(n - 1) == '\n' {
        let kept = s.as_str().substring_char(0, n - 1);
        assert(kept@ =~= s@.drop_last());
        kept.to_owned()
    } else {
        s
    }
}

/// Position of the first line feed in `s`, or the length of `s` if it has none.
pub open spec fn first_newline(s: Seq<char>) -> nat
    decreases s.len(),
{
    if s.len() == 0 || s.first() == '\n' {
        0
    } else {
        1 + first_newline(s.drop_first())
    }
}

/// `s` without one final carriage return, if it ends with one.
pub open spec fn without_final_cr(s: Seq<char>) -> Seq<char> {
    if s.len() > 0 && s.last() == '\r' {
        s.drop_last()
    } else {
        s
    }
}

/// The lines of `s`. A line ends at a line feed, or at a carriage return
/// directly followed by a line feed; neither belongs to the line. A carriage
/// return elsewhere stays. What follows the last line feed is a line of its
/// own unless it is empty, so the empty string has no lines.
pub open spec fn lines(s: Seq<char>) -> Seq<Seq<char>>
    decreases s.len(),
{
    let i = first_newline(s) as int;
    if s.len() == 0 {
        Seq::empty()
    } else if i >= s.len() {
        seq![s]
    } else {
        seq![without_final_cr(s.take(i))] + lines(s.skip(i + 1))
    }
}

/// The first line feed is where a prefix free of line feeds stops.
pub proof fn lemma_first_newline_at(s: Seq<char>, k: int)
    requires
        0 <= k <= s.len(),
        forall|j: int| 0 <= j < k ==> #[trigger] s[j] != '\n',
        k == s.len() || s[k] == '\n',
    ensures
        first_newline(s) == k,
    decreases k,
{
    if k > 0 {
        let rest = s.drop_first();
        assert(s[0] != '\n');
        assert forall|j: int| 0 <= j < k - 1 implies #[trigger] rest[j] != '\n' by {
            assert(rest[j] == s[j + 1]);
        }
        lemma_first_newline_at(rest, k - 1);
    }
}

/// Nothing before the first line feed is a line feed.
pub proof fn lemma_first_newline_bounds(s: Seq<char>)
    ensures
        first_newline(s) <= s.len(),
        forall|j: int| 0 <= j < first_newline(s) ==> #[trigger] s[j] != '\n',
        first_newline(s) < s.len() ==> s[first_newline(s) as int] == '\n',
    decreases s.len(),
{
    if !(s.len() == 0 || s.first() == '\n') {
        let rest = s.drop_first();
        lemma_first_newline_bounds(rest);
        assert forall|j: int| 0 <= j < first_newline(s) implies #[trigger] s[j] != '\n' by {
            if j > 0 {
                assert(s[j] == rest[j - 1]);
            }
        }
        assert(first_newline(s) < s.len() ==> s[first_newline(s) as int] == rest[first_newline(
            rest,
        ) as int]);
    }
}

/// A non-empty string has at least one line, and no line holds a line feed.
pub proof fn lemma_lines_shape(s: Seq<char>)
    ensures
        s.len() > 0 ==> lines(s).len() > 0,
        forall|k: int, j: int|
            0 <= k < lines(s).len() && 0 <= j < lines(s)[k].len() ==> #[trigger] lines(
                s,
            )[k][j] != '\n',
        s.len() > 0 && s.last() != '\n' ==> lines(s).last().len() > 0 && lines(s).last().last()
            == s.last(),
    decreases s.len(),
{
    lemma_first_newline_bounds(s);
    let i = first_newline(s) as int;
    if s.len() == 0 {
    } else if i >= s.len() {
    } else {
        let head = without_final_cr(s.take(i));
        let rest = s.skip(i + 1);
        lemma_lines_shape(rest);
        assert forall|k: int, j: int|
            0 <= k < lines(s).len() && 0 <= j < lines(s)[k].len() implies #[trigger] lines(
            s,
        )[k][j] != '\n' by {
            if k == 0 {
                assert(lines(s)[0] == head);
                assert(head[j] == s[j]);
            } else {
                assert(lines(s)[k] == lines(rest)[k - 1]);
            }
        }
        if s.last() != '\n' {
            assert(rest.len() > 0);
            assert(rest.last() == s.last());
            assert(lines(s).last() == lines(rest).last());
        }
    }
}

/// The views of a vector of string slices, in order.
pub open spec fn views(v: Seq<&str>) -> Seq<Seq<char>> {
    Seq::new(v.len(), |i: int| v[i]@)
}

/// Splits `s` into its lines.
pub fn split_lines<'a>(s: &'a str) -> (r: Vec<&'a str>)
    ensures
        views(r@) == lines(s@),
{
    let chars = to_chars(s);
    let n: usize = chars.len();
    let mut r: Vec<&'a str> = Vec::new();
    let mut start: usize = 0;
    let mut i: usize = 0;
    assert(s@.skip(0) =~= s@);
    while i < n
        invariant
            n == chars.len(),
            chars@ == s@,
            start <= i <= n,
            forall|j: int| start <= j < i ==> #[trigger] chars@[j] != '\n',
            lines(s@) =~= views(r@) + lines(s@.skip(start as int)),
        decreases n - i,
    {
        if chars[i] == '\n' {
            let end: usize = if i > start && chars[i - 1] == '\r' {
                i - 1
            } else {
                i
            };
            let line = s.substring_char(start, end);
            proof {
                let tail = s@.skip(start as int);
                assert forall|j: int| 0 <= j < i - start implies #[trigger] tail[j] != '\n' by {
                    assert(tail[j] == chars@[j + start]);
                }
                lemma_first_newline_at(tail, i - start);
                assert(tail.take(i - start) =~= s@.subrange(start as int, i as int));
                assert(without_final_cr(tail.take(i - start)) =~= line@);
                assert(tail.skip(i - start + 1) =~= s@.skip(i + 1));
                assert(views(r@.push(line)) =~= views(r@) + seq![line@]);
            }
            r.push(line);
            start = i + 1;
        }
        i += 1;
    }
    if start < n {
        let line = s.substring_char(start, n);
        proof {
            let tail = s@.skip(start as int);
            assert forall|j: int| 0 <= j < n - start implies #[trigger] tail[j] != '\n' by {
                assert(tail[j] == chars@[j + start]);
            }
            lemma_first_newline_at(tail, n - start);
            assert(line@ =~= tail);
            assert(views(r@.push(line)) =~= views(r@) + seq![line@]);
        }
        r.push(line);
    } else {
        assert(s@.skip(start as int) =~= Seq::<char>::empty());
    }
    r
}

/// Whether `s` holds a line feed.
pub fn has_newline(s: &str) -> (b: bool)
    ensures
        b == s@.contains('\n'),
{
    let chars = to_chars(s);
    let mut i: usize = 0;
    while i < chars.len()
        invariant
            i <= chars.len(),
            chars@ == s@,
            forall|j: int| 0 <= j < i ==> #[trigger] chars@[j] != '\n',
        decreases chars.len() - i,
    {
        if chars[i] == '\n' {
            assert(s@[i as int] == '\n');
            return true;
        }
        i += 1;
    }
    false
}

/// Whether `a` and `b` hold the same characters.
pub fn same_text(a: &str, b: &str) -> (same: bool)
    ensures
        same == (a@ == b@),
{
    let left = to_chars(a);
    let right = to_chars(b);
    if left.len() != right.len() {
        return false;
    }
    let mut i: usize = 0;
    while i < left.len()
        invariant
            i <= left.len(),
            left.len() == right.len(),
            left@ == a@,
            right@ == b@,
            forall|j: int| 0 <= j < i ==> left@[j] == right@[j],
        decreases left.len() - i,
    {
        if left[i] != right[i] {
            return false;
        }
        i += 1;
    }
    assert(a@ =~= b@);
    true
}

/// How many line feeds `s` ends with.
pub open spec fn trailing_newlines(s: Seq<char>) -> nat
    decreases s.len(),
{
    if s.len() > 0 && s.last() == '\n' {
        1 + trailing_newlines(s.drop_last())
    } else {
        0
    }
}

/// A string that is more than line feeds ends with as many of them whatever
/// is put in front of it.
pub proof fn lemma_trailing_newlines_append(a: Seq<char>, b: Seq<char>)
    requires
        b.len() > trailing_newlines(b),
    ensures
        trailing_newlines(a + b) == trailing_newlines(b),
    decreases b.len(),
{
    assert((a + b).last() == b.last());
    if b.last() == '\n' {
        assert((a + b).drop_last() =~= a + b.drop_last());
        lemma_trailing_newlines_append(a, b.drop_last());
    }
}

/// Taking the final line feed off a string that ends with `k` of them, and
/// holds more than them, leaves a non-empty string that ends with `k - 1`.
pub proof fn lemma_without_final_newline_counts(s: Seq<char>, k: nat)
    requires
        k >= 1,
        s.len() > k,
        trailing_newlines(s) == k,
    ensures
        without_final_newline(s).len() > 0,
        trailing_newlines(without_final_newline(s)) == k - 1,
{
}

} // verus!
