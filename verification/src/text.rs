//! Text building blocks: everything here works on the characters of a string.
use vstd::prelude::*;

verus! {

/// Appends one character at the end of a string, as `String::push` is documented to do.
pub assume_specification[ String::push ](s: &mut String, c: char)
    ensures
        final(s)@ == old(s)@.push(c),
;

/// What the strings of a list hold.
pub open spec fn texts(list: Seq<String>) -> Seq<Seq<char>> {
    Seq::new(list.len(), |i: int| list[i]@)
}

/// The characters of `s`, in order.
pub fn chars_of(s: &str) -> (r: Vec<char>)
    ensures
        r@ == s@,
{
    let mut out: Vec<char> = Vec::new();
    for c in it: s.chars()
        invariant
            it.seq() == s@,
            out@ == s@.take(it.index() as int),
    {
        out.push(c);
    }
    out
}

/// The string made of the characters of `chars` from `from` up to but not at `to`.
pub fn string_of(chars: &Vec<char>, from: usize, to: usize) -> (r: String)
    requires
        from <= to <= chars@.len(),
    ensures
        r@ == chars@.subrange(from as int, to as int),
{
    let mut out = String::new();
    let mut i: usize = from;
    while i < to
        invariant
            from <= i <= to <= chars@.len(),
            out@ == chars@.subrange(from as int, i as int),
        decreases to - i,
    {
        out.push(chars[i]);
        i = i + 1;
    }
    out
}

/// Whether two strings hold the same characters.
pub fn same_text(a: &str, b: &str) -> (r: bool)
    ensures
        r == (a@ == b@),
{
    let x = chars_of(a);
    let y = chars_of(b);
    if x.len() != y.len() {
        return false;
    }
    let mut i: usize = 0;
    while i < x.len()
        invariant
            i <= x@.len(),
            x@ == a@,
            y@ == b@,
            x@.len() == y@.len(),
            forall|j: int| 0 <= j < i ==> x@[j] == y@[j],
        decreases x@.len() - i,
    {
        if x[i] != y[i] {
            return false;
        }
        i = i + 1;
    }
    assert(x@ =~= y@);
    true
}

/// `a` followed by `b`.
pub fn joined(a: &str, b: &str) -> (r: String)
    ensures
        r@ == a@ + b@,
{
    let mut out = a.to_owned();
    out.append(b);
    out
}

/// What follows the last `c` of `s`: all of `s` where it has none.
pub open spec fn after_last(s: Seq<char>, c: char) -> Seq<char>
    decreases s.len(),
{
    if s.len() == 0 || s.last() == c {
        Seq::empty()
    } else {
        after_last(s.drop_last(), c).push(s.last())
    }
}

/// A tail of `s` without `c`, from the start of `s` or right behind a `c`, is what follows the
/// last `c`.
proof fn lemma_after_last(s: Seq<char>, c: char, from: int)
    requires
        0 <= from <= s.len(),
        forall|i: int| from <= i < s.len() ==> s[i] != c,
        from > 0 ==> s[from - 1] == c,
    ensures
        after_last(s, c) == s.skip(from),
    decreases s.len(),
{
    if from < s.len() {
        lemma_after_last(s.drop_last(), c, from);
        assert(s.drop_last().skip(from).push(s.last()) =~= s.skip(from));
    } else {
        assert(s.skip(from) =~= Seq::<char>::empty());
    }
}

/// The part of `s` behind its last `c`, or all of `s`.
pub fn text_after_last(s: &str, c: char) -> (r: String)
    ensures
        r@ == after_last(s@, c),
{
    let chars = chars_of(s);
    let mut from: usize = chars.len();
    while from > 0 && chars[from - 1] != c
        invariant
            from <= chars@.len(),
            forall|i: int| from <= i < chars@.len() ==> chars@[i] != c,
        decreases from,
    {
        from = from - 1;
    }
    proof {
        lemma_after_last(s@, c, from as int);
        assert(s@.skip(from as int) =~= s@.subrange(from as int, s@.len() as int));
    }
    string_of(&chars, from, chars.len())
}

/// `s` without the run of `c` that it starts with.
pub open spec fn without_leading(s: Seq<char>, c: char) -> Seq<char>
    decreases s.len(),
{
    if s.len() > 0 && s[0] == c {
        without_leading(s.drop_first(), c)
    } else {
        s
    }
}

/// `s` without the run of `c` that it starts with.
pub fn text_without_leading(s: &str, c: char) -> (r: String)
    ensures
        r@ == without_leading(s@, c),
{
    let chars = chars_of(s);
    let mut from: usize = 0;
    assert(s@.skip(0) =~= s@);
    while from < chars.len() && chars[from] == c
        invariant
            from <= chars@.len(),
            chars@ == s@,
            without_leading(s@, c) == without_leading(s@.skip(from as int), c),
        decreases chars@.len() - from,
    {
        assert(s@.skip(from as int).drop_first() =~= s@.skip(from + 1));
        from = from + 1;
    }
    assert(s@.skip(from as int) =~= s@.subrange(from as int, s@.len() as int));
    string_of(&chars, from, chars.len())
}

/// `c` in lower case where it is an ASCII letter, else `c`.
pub open spec fn ascii_lower(c: char) -> char {
    if 'A' <= c && c <= 'Z' {
        (c as u32 + 32) as char
    } else {
        c
    }
}

/// Whether two strings differ at most in the case of ASCII letters.
pub open spec fn same_ignoring_ascii_case(a: Seq<char>, b: Seq<char>) -> bool {
    &&& a.len() == b.len()
    &&& forall|i: int| 0 <= i < a.len() ==> ascii_lower(#[trigger] a[i]) == ascii_lower(b[i])
}

/// The code point of `c` in lower case where it is an ASCII letter, else its code point.
fn lower_code(c: char) -> (r: u32)
    ensures
        r == ascii_lower(c) as u32,
{
    if 'A' <= c && c <= 'Z' {
        c as u32 + 32
    } else {
        c as u32
    }
}

/// Whether two strings differ at most in the case of ASCII letters.
pub fn eq_ignoring_ascii_case(a: &str, b: &str) -> (r: bool)
    ensures
        r == same_ignoring_ascii_case(a@, b@),
{
    let x = chars_of(a);
    let y = chars_of(b);
    if x.len() != y.len() {
        return false;
    }
    let mut i: usize = 0;
    while i < x.len()
        invariant
            i <= x@.len(),
            x@ == a@,
            y@ == b@,
            x@.len() == y@.len(),
            forall|j: int| 0 <= j < i ==> ascii_lower(#[trigger] x@[j]) == ascii_lower(y@[j]),
        decreases x@.len() - i,
    {
        if lower_code(x[i]) != lower_code(y[i]) {
            assert(ascii_lower(a@[i as int]) != ascii_lower(b@[i as int]));
            return false;
        }
        i = i + 1;
    }
    true
}

/// `n` in decimal digits, without leading zeros.
pub open spec fn decimal(n: nat) -> Seq<char>
    decreases n,
{
    if n < 10 {
        seq!["0123456789"@[n as int]]
    } else {
        decimal(n / 10).push("0123456789"@[(n % 10) as int])
    }
}

/// `n` in decimal digits, without leading zeros.
pub fn decimal_text(n: u64) -> (r: String)
    ensures
        r@ == decimal(n as nat),
    decreases n,
{
    proof {
        reveal_strlit("0123456789");
    }
    let mut out = if n < 10 {
        String::new()
    } else {
        decimal_text(n / 10)
    };
    out.push("0123456789".get_char((n % 10) as usize));
    out
}

/// The position of the first line feed in `s`, or the length of `s`.
pub open spec fn line_feed_at(s: Seq<char>) -> int
    decreases s.len(),
{
    if s.len() == 0 || s[0] == '\n' {
        0
    } else {
        1 + line_feed_at(s.drop_first())
    }
}

proof fn lemma_line_feed_at(s: Seq<char>, at: int)
    requires
        0 <= at <= s.len(),
        forall|i: int| 0 <= i < at ==> s[i] != '\n',
        at < s.len() ==> s[at] == '\n',
    ensures
        line_feed_at(s) == at,
    decreases s.len(),
{
    if at > 0 {
        let rest = s.drop_first();
        assert forall|i: int| 0 <= i < at - 1 implies rest[i] != '\n' by {
            assert(rest[i] == s[i + 1]);
        }
        lemma_line_feed_at(rest, at - 1);
    }
}

proof fn lemma_line_feed_range(s: Seq<char>)
    ensures
        0 <= line_feed_at(s) <= s.len(),
    decreases s.len(),
{
    if s.len() > 0 && s[0] != '\n' {
        lemma_line_feed_range(s.drop_first());
    }
}

/// `s` without the carriage return that it may end with.
pub open spec fn without_final_return(s: Seq<char>) -> Seq<char> {
    if s.len() > 0 && s.last() == '\r' {
        s.drop_last()
    } else {
        s
    }
}

/// The lines of `s`, without their endings. A line ends with a line feed, or with a carriage
/// return and a line feed; the last one may also end with the text.
pub open spec fn lines(s: Seq<char>) -> Seq<Seq<char>>
    decreases s.len(),
    via lines_decreases
{
    let at = line_feed_at(s);
    if s.len() == 0 {
        Seq::empty()
    } else if at >= s.len() {
        seq![s]
    } else {
        seq![without_final_return(s.take(at))] + lines(s.skip(at + 1))
    }
}

#[via_fn]
proof fn lines_decreases(s: Seq<char>) {
    lemma_line_feed_range(s);
}

/// The lines of `s`, without their endings.
pub fn lines_of(s: &str) -> (r: Vec<String>)
    ensures
        texts(r@) == lines(s@),
{
    let chars = chars_of(s);
    let mut out: Vec<String> = Vec::new();
    let mut start: usize = 0;
    let mut i: usize = 0;
    assert(s@.skip(0) =~= s@);
    assert(texts(out@) + lines(s@) =~= lines(s@));
    while i < chars.len()
        invariant
            start <= i <= chars@.len(),
            chars@ == s@,
            forall|j: int| start <= j < i ==> s@[j] != '\n',
            lines(s@) == texts(out@) + lines(s@.skip(start as int)),
        decreases chars@.len() - i,
    {
        if chars[i] == '\n' {
            let end: usize = if i > start && chars[i - 1] == '\r' {
                i - 1
            } else {
                i
            };
            let ghost rest = s@.skip(start as int);
            let ghost done = texts(out@);
            let line = string_of(&chars, start, end);
            proof {
                lemma_line_feed_at(rest, i - start);
                assert(rest.take(i - start) =~= s@.subrange(start as int, i as int));
                assert(line@ =~= without_final_return(rest.take(i - start)));
                assert(rest.skip(i - start + 1) =~= s@.skip(i + 1));
            }
            out.push(line);
            assert(texts(out@) =~= done + seq![line@]);
            assert(lines(s@) =~= texts(out@) + lines(s@.skip(i + 1)));
            start = i + 1;
        }
        i = i + 1;
    }
    let ghost rest = s@.skip(start as int);
    if start < chars.len() {
        let ghost done = texts(out@);
        let line = string_of(&chars, start, chars.len());
        proof {
            lemma_line_feed_at(rest, rest.len() as int);
            assert(line@ =~= rest);
        }
        out.push(line);
        assert(texts(out@) =~= done + seq![line@]);
    } else {
        assert(texts(out@) =~= texts(out@) + lines(rest));
    }
    out
}

/// The parts in order, with `separator` between each two.
pub open spec fn separated(parts: Seq<Seq<char>>, separator: Seq<char>) -> Seq<char>
    decreases parts.len(),
{
    if parts.len() == 0 {
        Seq::empty()
    } else {
        let head = separated(parts.drop_last(), separator);
        (if parts.len() == 1 {
            head
        } else {
            head + separator
        }) + parts.last()
    }
}

/// The parts in order, with `separator` between each two.
pub fn separated_text(parts: &Vec<String>, separator: &str) -> (r: String)
    ensures
        r@ == separated(texts(parts@), separator@),
{
    let mut out = String::new();
    let mut i: usize = 0;
    while i < parts.len()
        invariant
            i <= parts@.len(),
            out@ == separated(texts(parts@).take(i as int), separator@),
        decreases parts@.len() - i,
    {
        if i > 0 {
            out.append(separator);
        }
        out.append(parts[i].as_str());
        let ghost taken = texts(parts@).take(i + 1);
        assert(taken.drop_last() =~= texts(parts@).take(i as int));
        assert(out@ =~= separated(taken, separator@));
        i = i + 1;
    }
    assert(texts(parts@).take(i as int) =~= texts(parts@));
    out
}

proof fn lemma_digits(i: int)
    requires
        0 <= i < 10,
    ensures
        "0123456789"@.len() == 10,
        "0123456789"@[i] as int == '0' as int + i,
{
    reveal_strlit("0123456789");
    if i == 0 {
    } else if i == 1 {
    } else if i == 2 {
    } else if i == 3 {
    } else if i == 4 {
    } else if i == 5 {
    } else if i == 6 {
    } else if i == 7 {
    } else if i == 8 {
    } else {
    }
}

/// Different numbers have different decimal digits.
pub proof fn law_decimals_differ(a: nat, b: nat)
    requires
        decimal(a) == decimal(b),
    ensures
        a == b,
    decreases a,
{
    lemma_decimal_is_not_empty(a / 10);
    lemma_decimal_is_not_empty(b / 10);
    lemma_digits((a % 10) as int);
    lemma_digits((b % 10) as int);
    if a < 10 {
        assert(decimal(a).len() == 1);
        assert(decimal(a)[0] == "0123456789"@[a as int]);
    } else if b < 10 {
        assert(decimal(b).len() == 1);
    } else {
        assert(decimal(a).drop_last() =~= decimal(a / 10));
        assert(decimal(b).drop_last() =~= decimal(b / 10));
        assert(decimal(a).last() == "0123456789"@[(a % 10) as int]);
        assert(decimal(b).last() == "0123456789"@[(b % 10) as int]);
        law_decimals_differ(a / 10, b / 10);
    }
}

proof fn lemma_decimal_is_not_empty(n: nat)
    ensures
        decimal(n).len() > 0,
    decreases n,
{
    if n >= 10 {
        lemma_decimal_is_not_empty(n / 10);
    }
}

/// No line holds a line feed.
pub proof fn law_lines_hold_no_line_feed(s: Seq<char>)
    ensures
        forall|i: int, j: int|
            0 <= i < lines(s).len() && 0 <= j < lines(s)[i].len() ==> #[trigger] lines(s)[i][j]
                != '\n',
    decreases s.len(),
{
    let at = line_feed_at(s);
    lemma_line_feed_range(s);
    lemma_no_line_feed_before(s);
    if s.len() > 0 && at < s.len() {
        let rest = s.skip(at + 1);
        law_lines_hold_no_line_feed(rest);
        let first = without_final_return(s.take(at));
        assert forall|i: int, j: int|
            0 <= i < lines(s).len() && 0 <= j < lines(s)[i].len() implies #[trigger] lines(s)[i][j]
            != '\n' by {
            if i == 0 {
                assert(lines(s)[i] == first);
                assert(first[j] == s[j]);
            } else {
                assert(lines(s)[i] == lines(rest)[i - 1]);
                assert(lines(rest)[i - 1][j] != '\n');
            }
        }
    } else if s.len() > 0 {
        assert forall|i: int, j: int|
            0 <= i < lines(s).len() && 0 <= j < lines(s)[i].len() implies #[trigger] lines(s)[i][j]
            != '\n' by {
            assert(lines(s)[i] == s);
        }
    }
}

proof fn lemma_no_line_feed_before(s: Seq<char>)
    ensures
        forall|i: int| 0 <= i < line_feed_at(s) ==> s[i] != '\n',
    decreases s.len(),
{
    if s.len() > 0 && s[0] != '\n' {
        lemma_no_line_feed_before(s.drop_first());
        lemma_line_feed_range(s.drop_first());
        assert forall|i: int| 0 <= i < line_feed_at(s) implies s[i] != '\n' by {
            if i > 0 {
                assert(s[i] == s.drop_first()[i - 1]);
            }
        }
    }
}

/// A list of texts has one text for each string, and it is what that string holds.
pub proof fn law_texts(list: Seq<String>)
    ensures
        texts(list).len() == list.len(),
        forall|i: int| 0 <= i < list.len() ==> #[trigger] texts(list)[i] == list[i]@,
{
}

/// The number that a row of digits stands for.
pub open spec fn digits_value(s: Seq<char>) -> int
    decreases s.len(),
{
    if s.len() == 0 {
        0
    } else {
        digits_value(s.drop_last()) * 10 + (s.last() as int - '0' as int)
    }
}

/// The decimal digits of a number are digits, stand for that number, and start with a zero only
/// where that is all there is.
pub proof fn law_decimal_reads_back(n: nat)
    ensures
        digits_value(decimal(n)) == n,
        decimal(n).len() > 0,
        forall|i: int| 0 <= i < decimal(n).len() ==> '0' <= #[trigger] decimal(n)[i] <= '9',
        decimal(n).len() > 1 ==> decimal(n)[0] != '0',
    decreases n,
{
    let last = (n % 10) as int;
    lemma_digits(last);
    if n < 10 {
        reveal_with_fuel(digits_value, 2);
        assert(decimal(n).drop_last() =~= Seq::empty());
    } else {
        law_decimal_reads_back(n / 10);
        let head = decimal(n / 10);
        assert(decimal(n).drop_last() =~= head);
        assert(decimal(n).last() == "0123456789"@[last]);
        assert(decimal(n)[0] == head[0]);
        if head.len() == 1 && head[0] == '0' {
            reveal_with_fuel(digits_value, 2);
            assert(head.drop_last() =~= Seq::empty());
            assert(digits_value(head) == 0);
        }
        assert forall|i: int| 0 <= i < decimal(n).len() implies '0' <= #[trigger] decimal(n)[i]
            <= '9' by {
            if i < head.len() {
                assert(decimal(n)[i] == head[i]);
            }
        }
    }
}

/// What follows the last `c` is the end of the text; it holds no `c`, and right in front of it stands
/// one, unless it is the whole text.
pub proof fn law_after_last(s: Seq<char>, c: char)
    ensures
        after_last(s, c).len() <= s.len(),
        after_last(s, c) == s.skip(s.len() - after_last(s, c).len()),
        !after_last(s, c).contains(c),
        after_last(s, c).len() < s.len() ==> s[s.len() - after_last(s, c).len() - 1] == c,
    decreases s.len(),
{
    if s.len() > 0 && s.last() != c {
        law_after_last(s.drop_last(), c);
        let shorter = after_last(s.drop_last(), c);
        let whole = after_last(s, c);
        assert(whole == shorter.push(s.last()));
        assert(whole =~= s.skip(s.len() - whole.len()));
        if whole.contains(c) {
            let i = choose|i: int| 0 <= i < whole.len() && whole[i] == c;
            assert(shorter[i] == c);
        }
    } else {
        assert(s.skip(s.len() as int) =~= Seq::empty());
    }
}

/// The run of `c` that a text starts with is cut off whole, and nothing else.
pub proof fn law_without_leading(s: Seq<char>, c: char)
    ensures
        without_leading(s, c).len() <= s.len(),
        without_leading(s, c) == s.skip(s.len() - without_leading(s, c).len()),
        forall|i: int| 0 <= i < s.len() - without_leading(s, c).len() ==> s[i] == c,
        without_leading(s, c).len() > 0 ==> without_leading(s, c)[0] != c,
    decreases s.len(),
{
    if s.len() > 0 && s[0] == c {
        let rest = s.drop_first();
        law_without_leading(rest, c);
        let left = without_leading(s, c);
        assert(left =~= s.skip(s.len() - left.len()));
        assert forall|i: int| 0 <= i < s.len() - left.len() implies s[i] == c by {
            if i > 0 {
                assert(s[i] == rest[i - 1]);
            }
        }
    } else {
        assert(s.skip(0) =~= s);
    }
}

/// Two texts match but for ASCII case exactly where they match character by character, a letter from
/// `A` to `Z` and the one thirty-two behind it being taken for one.
pub proof fn law_only_ascii_case_is_ignored(a: Seq<char>, b: Seq<char>)
    ensures
        same_ignoring_ascii_case(a, b) <==> {
            &&& a.len() == b.len()
            &&& forall|i: int|
                0 <= i < a.len() ==> {
                    ||| #[trigger] a[i] == b[i]
                    ||| 'A' <= a[i] <= 'Z' && b[i] as int == a[i] as int + 32
                    ||| 'A' <= b[i] <= 'Z' && a[i] as int == b[i] as int + 32
                }
        },
{
    if a.len() == b.len() {
        assert forall|i: int| 0 <= i < a.len() implies (ascii_lower(#[trigger] a[i]) == ascii_lower(
            b[i],
        )) == (a[i] == b[i] || ('A' <= a[i] <= 'Z' && b[i] as int == a[i] as int + 32) || ('A'
            <= b[i] <= 'Z' && a[i] as int == b[i] as int + 32)) by {
            let x = a[i];
            let y = b[i];
            assert(ascii_lower(x) as int == if 'A' <= x <= 'Z' {
                x as int + 32
            } else {
                x as int
            });
            assert(ascii_lower(y) as int == if 'A' <= y <= 'Z' {
                y as int + 32
            } else {
                y as int
            });
        }
    }
}

/// Nothing has no lines, and a text without a line feed is one line, as it is.
pub proof fn law_single_lines(s: Seq<char>)
    requires
        !s.contains('\n'),
    ensures
        lines(s) == (if s.len() == 0 {
            Seq::<Seq<char>>::empty()
        } else {
            seq![s]
        }),
{
    lemma_line_feed_at(s, s.len() as int);
}

/// A line feed ends a line, and a carriage return right before it goes with it; what follows has the
/// lines that it has by itself.
pub proof fn law_lines_in_a_row(first: Seq<char>, rest: Seq<char>)
    requires
        !first.contains('\n'),
    ensures
        lines(first.push('\n') + rest) == seq![
            if first.len() > 0 && first.last() == '\r' {
                first.drop_last()
            } else {
                first
            },
        ] + lines(rest),
{
    let s = first.push('\n') + rest;
    assert forall|i: int| 0 <= i < first.len() implies s[i] != '\n' by {
        assert(s[i] == first[i]);
    }
    lemma_line_feed_at(s, first.len() as int);
    assert(s.take(first.len() as int) =~= first);
    assert(s.skip(first.len() as int + 1) =~= rest);
}

/// One part stands as it is, and two rows of parts have the separator between them, once.
pub proof fn law_separated(a: Seq<Seq<char>>, b: Seq<Seq<char>>, separator: Seq<char>)
    requires
        a.len() > 0,
        b.len() > 0,
    ensures
        separated(a + b, separator) == separated(a, separator) + separator + separated(b, separator),
        a.len() == 1 ==> separated(a, separator) == a[0],
    decreases b.len(),
{
    reveal_with_fuel(separated, 2);
    let all = a + b;
    if a.len() == 1 {
        assert(a.drop_last() =~= Seq::empty());
        assert(separated(a, separator) =~= a[0]);
    }
    if b.len() == 1 {
        assert(all.drop_last() =~= a);
        assert(b.drop_last() =~= Seq::empty());
        assert(separated(b, separator) =~= b[0]);
        assert(separated(all, separator) =~= separated(a, separator) + separator + separated(
            b,
            separator,
        ));
    } else {
        law_separated(a, b.drop_last(), separator);
        assert(all.drop_last() =~= a + b.drop_last());
        assert(separated(all, separator) =~= separated(a, separator) + separator + separated(
            b,
            separator,
        ));
    }
}

} // verus!
