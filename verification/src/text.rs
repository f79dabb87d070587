//! Text as a sequence of characters: searching, trimming, splitting,
//! joining, and writing and reading decimal integers.

use vstd::prelude::*;

verus! {

/// `String::push` appends the character.
pub assume_specification[ String::push ](s: &mut String, c: char)
    ensures
        final(s)@ == old(s)@.push(c),
;

/// What `str::to_lowercase` returns: the Unicode lowercase of a text.
pub uninterp spec fn lowercased(s: Seq<char>) -> Seq<char>;

/// `str::to_lowercase` depends on its argument alone.
pub assume_specification[ str::to_lowercase ](s: &str) -> (r: String)
    ensures
        r@ == lowercased(s@),
;

/// What `str::to_uppercase` returns: the Unicode uppercase of a text.
pub uninterp spec fn uppercased(s: Seq<char>) -> Seq<char>;

/// `str::to_uppercase` depends on its argument alone.
pub assume_specification[ str::to_uppercase ](s: &str) -> (r: String)
    ensures
        r@ == uppercased(s@),
;

/// The characters of a text, in order.
pub fn chars_of(s: &str) -> (r: Vec<char>)
    ensures
        r@ == s@,
{
    let mut out: Vec<char> = Vec::new();
    for c in it: s.chars()
        invariant
            out@ == s@.take(it.index()),
            it.seq() == s@,
    {
        out.push(c);
        proof {
            assert(s@.take(it.index() + 1) =~= s@.take(it.index()).push(s@[it.index()]));
        }
    }
    proof {
        assert(s@.take(s@.len() as int) =~= s@);
    }
    out
}

/// The text made of the characters of `v` from `from` up to `to`.
pub fn text_of(v: &Vec<char>, from: usize, to: usize) -> (r: String)
    requires
        from <= to <= v@.len(),
    ensures
        r@ == v@.subrange(from as int, to as int),
{
    let mut out = String::new();
    let mut i: usize = from;
    while i < to
        invariant
            from <= i <= to <= v@.len(),
            out@ == v@.subrange(from as int, i as int),
        decreases to - i,
    {
        out.push(v[i]);
        i = i + 1;
        proof {
            assert(v@.subrange(from as int, i as int) =~= v@.subrange(from as int, i - 1).push(v@[i - 1]));
        }
    }
    out
}

/// Adds a text to a list.
pub fn push_text(list: &mut Vec<String>, s: &str)
    ensures
        final(list).deep_view() == old(list).deep_view().push(s@),
{
    let ghost before = list.deep_view();
    list.push(s.to_owned());
    assert(list.deep_view() =~= before.push(s@));
}

/// Whether two texts are the same.
pub fn same(a: &str, b: &str) -> (r: bool)
    ensures
        r == (a@ == b@),
{
    a.to_owned() == b.to_owned()
}

/// The hexadecimal digit of `n`; `ten` is the letter for ten.
pub open spec fn hex_digit(n: nat, ten: char) -> char {
    if n < 10 {
        (48 + n) as char
    } else {
        (ten as int + n - 10) as char
    }
}

/// The characters with Unicode's White_Space property.
pub open spec fn is_space(c: char) -> bool {
    let n = c as u32;
    ||| 0x09 <= n <= 0x0d
    ||| n == 0x20
    ||| n == 0x85
    ||| n == 0xa0
    ||| n == 0x1680
    ||| 0x2000 <= n <= 0x200a
    ||| n == 0x2028
    ||| n == 0x2029
    ||| n == 0x202f
    ||| n == 0x205f
    ||| n == 0x3000
}

/// Whether `c` is white space.
pub fn space(c: char) -> (r: bool)
    ensures
        r == is_space(c),
{
    let n: u32 = c as u32;
    (0x09 <= n && n <= 0x0d) || n == 0x20 || n == 0x85 || n == 0xa0 || n == 0x1680 || (0x2000 <= n
        && n <= 0x200a) || n == 0x2028 || n == 0x2029 || n == 0x202f || n == 0x205f || n == 0x3000
}

/// `c`, with an ASCII capital made small.
pub open spec fn ascii_small(c: char) -> char {
    if 'A' <= c <= 'Z' {
        (c as u8 + 32) as char
    } else {
        c
    }
}

/// `c`, with an ASCII capital made small.
pub fn small(c: char) -> (r: char)
    ensures
        r == ascii_small(c),
{
    if 'A' <= c && c <= 'Z' {
        let n: u8 = c as u8;
        (n + 32) as char
    } else {
        c
    }
}

/// Whether two texts are the same but for the case of ASCII letters.
pub open spec fn same_ignoring_ascii_case(a: Seq<char>, b: Seq<char>) -> bool {
    a.len() == b.len() && forall|i: int|
        0 <= i < a.len() ==> ascii_small(#[trigger] a[i]) == ascii_small(b[i])
}

/// Whether two texts are the same but for the case of ASCII letters.
pub fn eq_ignore_ascii_case(a: &str, b: &str) -> (r: bool)
    ensures
        r == same_ignoring_ascii_case(a@, b@),
{
    let x = chars_of(a);
    let y = chars_of(b);
    if x.len() != y.len() {
        return false;
    }
    let mut i: usize = 0;
    while i < x.len()
        invariant
            i <= x@.len() == y@.len(),
            x@ == a@,
            y@ == b@,
            forall|j: int| 0 <= j < i ==> ascii_small(#[trigger] a@[j]) == ascii_small(b@[j]),
        decreases x@.len() - i,
    {
        if small(x[i]) != small(y[i]) {
            assert(ascii_small(a@[i as int]) != ascii_small(b@[i as int]));
            return false;
        }
        i = i + 1;
    }
    true
}

/// Whether `needle` stands in `hay` at position `i`.
pub open spec fn stands_at(hay: Seq<char>, needle: Seq<char>, i: int) -> bool {
    0 <= i && i + needle.len() <= hay.len() && hay.subrange(i, i + needle.len()) == needle
}

/// Whether `needle` stands anywhere in `hay`.
pub open spec fn occurs(hay: Seq<char>, needle: Seq<char>) -> bool {
    exists|i: int| stands_at(hay, needle, i)
}

/// The first position at or after `from` at which `needle` stands in `hay`.
pub open spec fn first_at(hay: Seq<char>, needle: Seq<char>, from: int) -> Option<int>
    decreases hay.len() - from + 1,
{
    if from < 0 || from + needle.len() > hay.len() {
        None
    } else if stands_at(hay, needle, from) {
        Some(from)
    } else {
        first_at(hay, needle, from + 1)
    }
}

/// The last position before `end` at which `needle` stands in `hay`.
pub open spec fn last_at(hay: Seq<char>, needle: Seq<char>, end: int) -> Option<int>
    decreases end,
{
    if end <= 0 {
        None
    } else if stands_at(hay, needle, end - 1) {
        Some(end - 1)
    } else {
        last_at(hay, needle, end - 1)
    }
}

/// What `first_at` finds is the first such position, and it finds one where there is one.
pub proof fn first_at_is_first(hay: Seq<char>, needle: Seq<char>, from: int)
    requires
        from >= 0,
    ensures
        match first_at(hay, needle, from) {
            Some(i) => from <= i && stands_at(hay, needle, i) && forall|j: int|
                from <= j < i ==> !#[trigger] stands_at(hay, needle, j),
            None => forall|j: int| from <= j ==> !#[trigger] stands_at(hay, needle, j),
        },
    decreases hay.len() - from + 1,
{
    if from + needle.len() <= hay.len() && !stands_at(hay, needle, from) {
        first_at_is_first(hay, needle, from + 1);
    }
}

/// What `last_at` finds is the last such position, and it finds one where there is one.
pub proof fn last_at_is_last(hay: Seq<char>, needle: Seq<char>, end: int)
    ensures
        match last_at(hay, needle, end) {
            Some(i) => i < end && stands_at(hay, needle, i) && forall|j: int|
                i < j < end ==> !#[trigger] stands_at(hay, needle, j),
            None => forall|j: int| j < end ==> !#[trigger] stands_at(hay, needle, j),
        },
    decreases end,
{
    if end > 0 && !stands_at(hay, needle, end - 1) {
        last_at_is_last(hay, needle, end - 1);
    }
}

/// Whether `needle` stands in `hay` at position `i`.
pub fn standing_at(hay: &Vec<char>, needle: &Vec<char>, i: usize) -> (r: bool)
    ensures
        r == stands_at(hay@, needle@, i as int),
{
    if needle.len() > hay.len() || i > hay.len() - needle.len() {
        return false;
    }
    let mut k: usize = 0;
    while k < needle.len()
        invariant
            k <= needle@.len(),
            i + needle@.len() <= hay.len(),
            forall|j: int| 0 <= j < k ==> hay@[i + j] == #[trigger] needle@[j],
        decreases needle@.len() - k,
    {
        if hay[i + k] != needle[k] {
            assert(hay@.subrange(i as int, i + needle@.len())[k as int] != needle@[k as int]);
            return false;
        }
        k = k + 1;
    }
    assert(hay@.subrange(i as int, i + needle@.len()) =~= needle@);
    true
}

/// The first position at or after `from` at which `needle` stands in `hay`.
pub fn find_from(hay: &Vec<char>, needle: &Vec<char>, from: usize) -> (r: Option<usize>)
    ensures
        match r {
            Some(i) => first_at(hay@, needle@, from as int) == Some(i as int) && i + needle@.len()
                <= hay@.len() && from <= i && stands_at(hay@, needle@, i as int),
            None => first_at(hay@, needle@, from as int) is None,
        },
{
    let mut i: usize = from;
    while i <= hay.len()
        invariant
            from <= i,
            i <= hay@.len() + 1 || i == from,
            first_at(hay@, needle@, from as int) == first_at(hay@, needle@, i as int),
        decreases hay@.len() + 1 - i,
    {
        if standing_at(hay, needle, i) {
            return Some(i);
        }
        if i == hay.len() {
            assert(first_at(hay@, needle@, i + 1) is None);
            return None;
        }
        i = i + 1;
    }
    None
}

/// The last position at which `needle` stands in `hay`.
pub fn rfind(hay: &Vec<char>, needle: &Vec<char>) -> (r: Option<usize>)
    ensures
        match r {
            Some(i) => last_at(hay@, needle@, hay@.len() + 1int) == Some(i as int) && i + needle@.len()
                <= hay@.len() && stands_at(hay@, needle@, i as int),
            None => last_at(hay@, needle@, hay@.len() + 1int) is None,
        },
{
    let mut i: usize = hay.len();
    loop
        invariant
            i <= hay@.len(),
            last_at(hay@, needle@, hay@.len() + 1int) == last_at(hay@, needle@, i + 1),
        decreases i,
    {
        if standing_at(hay, needle, i) {
            return Some(i);
        }
        if i == 0 {
            assert(last_at(hay@, needle@, 0) is None);
            return None;
        }
        i = i - 1;
    }
}

/// Whether `needle` stands anywhere in `hay`.
pub fn contains(hay: &str, needle: &str) -> (r: bool)
    ensures
        r == occurs(hay@, needle@),
{
    let h = chars_of(hay);
    let n = chars_of(needle);
    let found = find_from(&h, &n, 0);
    proof {
        first_at_is_first(hay@, needle@, 0);
    }
    found.is_some()
}

/// Whether `hay` begins with `prefix`.
pub fn starts_with(hay: &str, prefix: &str) -> (r: bool)
    ensures
        r == stands_at(hay@, prefix@, 0),
{
    let h = chars_of(hay);
    let p = chars_of(prefix);
    standing_at(&h, &p, 0)
}

/// `s` without its leading white space.
pub open spec fn without_leading_space(s: Seq<char>) -> Seq<char>
    decreases s.len(),
{
    if s.len() > 0 && is_space(s[0]) {
        without_leading_space(s.drop_first())
    } else {
        s
    }
}

/// `s` without its trailing white space.
pub open spec fn without_trailing_space(s: Seq<char>) -> Seq<char>
    decreases s.len(),
{
    if s.len() > 0 && is_space(s.last()) {
        without_trailing_space(s.drop_last())
    } else {
        s
    }
}

/// `s` without white space at either end.
pub open spec fn trimmed(s: Seq<char>) -> Seq<char> {
    without_trailing_space(without_leading_space(s))
}

/// `s` without white space at either end; none where nothing else is in it.
pub open spec fn trimmed_or_none(s: Seq<char>) -> Option<Seq<char>> {
    if trimmed(s).len() == 0 {
        None
    } else {
        Some(trimmed(s))
    }
}

/// `s` without white space at either end; none where nothing else is in it.
pub fn trim_or_none(s: &str) -> (r: Option<String>)
    ensures
        r.deep_view() == trimmed_or_none(s@),
{
    let t = trim(s);
    if t.as_str().is_empty() {
        None
    } else {
        Some(t)
    }
}

proof fn leading_space_goes(s: Seq<char>)
    ensures
        without_leading_space(s).len() > 0 ==> !is_space(without_leading_space(s)[0]),
    decreases s.len(),
{
    if s.len() > 0 && is_space(s[0]) {
        leading_space_goes(s.drop_first());
    }
}

proof fn trailing_space_goes(s: Seq<char>)
    ensures
        ({
            let t = without_trailing_space(s);
            t.len() > 0 ==> !is_space(t.last()) && t[0] == s[0]
        }),
    decreases s.len(),
{
    if s.len() > 0 && is_space(s.last()) {
        trailing_space_goes(s.drop_last());
    }
}

/// Trimming twice is trimming once.
pub proof fn trimmed_stays(s: Seq<char>)
    ensures
        trimmed(trimmed(s)) == trimmed(s),
{
    let led = without_leading_space(s);
    leading_space_goes(s);
    trailing_space_goes(led);
}

/// `s` without white space at either end.
pub fn trim(s: &str) -> (r: String)
    ensures
        r@ == trimmed(s@),
{
    let v = chars_of(s);
    let mut from: usize = 0;
    assert(v@.skip(0) =~= v@);
    while from < v.len() && space(v[from])
        invariant
            from <= v@.len(),
            without_leading_space(v@) == without_leading_space(v@.skip(from as int)),
        decreases v@.len() - from,
    {
        assert(v@.skip(from as int).drop_first() =~= v@.skip(from + 1));
        from = from + 1;
    }
    let ghost rest = v@.skip(from as int);
    let mut to: usize = v.len();
    assert(v@.subrange(from as int, to as int) =~= rest);
    while to > from && space(v[to - 1])
        invariant
            from <= to <= v@.len(),
            without_trailing_space(rest) == without_trailing_space(
                v@.subrange(from as int, to as int),
            ),
        decreases to,
    {
        assert(v@.subrange(from as int, to as int).drop_last() =~= v@.subrange(
            from as int,
            to - 1,
        ));
        assert(v@.subrange(from as int, to as int).last() == v@[to - 1]);
        to = to - 1;
    }
    if to > from {
        assert(v@.subrange(from as int, to as int).last() == v@[to - 1]);
    }
    text_of(&v, from, to)
}

/// Whether nothing but white space is in `s`.
pub fn blank(s: &str) -> (r: bool)
    ensures
        r == (trimmed(s@).len() == 0),
{
    trim(s).as_str().is_empty()
}

/// How many characters at the front of `s` are no white space.
pub open spec fn word_len(s: Seq<char>) -> nat
    decreases s.len(),
{
    if s.len() == 0 || is_space(s[0]) {
        0
    } else {
        1 + word_len(s.drop_first())
    }
}

/// A front word is no longer than the text.
pub proof fn word_len_fits(s: Seq<char>)
    ensures
        word_len(s) <= s.len(),
    decreases s.len(),
{
    if s.len() > 0 && !is_space(s[0]) {
        word_len_fits(s.drop_first());
    }
}

/// The runs of non-space characters in `s`, in order.
pub open spec fn words(s: Seq<char>) -> Seq<Seq<char>>
    decreases s.len(),
{
    if s.len() == 0 {
        Seq::empty()
    } else if is_space(s[0]) {
        words(s.drop_first())
    } else {
        let n = word_len(s);
        if n <= s.len() {
            seq![s.take(n as int)] + words(s.skip(n as int))
        } else {
            Seq::empty()
        }
    }
}

/// `parts` with `sep` between them.
pub open spec fn joined(parts: Seq<Seq<char>>, sep: Seq<char>) -> Seq<char>
    decreases parts.len(),
{
    if parts.len() == 0 {
        Seq::empty()
    } else if parts.len() == 1 {
        parts[0]
    } else {
        joined(parts.drop_last(), sep) + sep + parts.last()
    }
}

/// The runs of non-space characters in `s`, in order.
pub fn split_whitespace(s: &str) -> (r: Vec<String>)
    ensures
        r.deep_view() == words(s@),
{
    let v = chars_of(s);
    let mut out: Vec<String> = Vec::new();
    let mut i: usize = 0;
    assert(v@.skip(0) =~= v@);
    assert(out.deep_view() =~= Seq::empty());
    assert(out.deep_view() + words(v@) =~= words(v@));
    while i < v.len()
        invariant
            i <= v@.len(),
            out.deep_view() + words(v@.skip(i as int)) == words(v@),
        decreases v@.len() - i,
    {
        let ghost rest = v@.skip(i as int);
        if space(v[i]) {
            assert(rest.drop_first() =~= v@.skip(i + 1));
            i = i + 1;
        } else {
            let start: usize = i;
            proof {
                word_len_fits(rest);
            }
            assert(v@.skip(i as int) =~= rest);
            while i < v.len() && !space(v[i])
                invariant
                    start <= i <= v@.len(),
                    rest == v@.skip(start as int),
                    word_len(rest) == (i - start) + word_len(v@.skip(i as int)),
                decreases v@.len() - i,
            {
                assert(v@.skip(i as int).drop_first() =~= v@.skip(i + 1));
                i = i + 1;
            }
            assert(word_len(v@.skip(i as int)) == 0);
            assert(word_len(rest) > 0);
            let word = text_of(&v, start, i);
            assert(word@ =~= rest.take(i - start));
            assert(rest.skip(i - start) =~= v@.skip(i as int));
            let ghost before = out.deep_view();
            out.push(word);
            assert(out.deep_view() =~= before.push(word@));
            assert(before.push(word@) + words(v@.skip(i as int)) =~= before + (seq![word@] + words(
                v@.skip(i as int),
            )));
        }
    }
    assert(v@.skip(i as int) =~= Seq::empty());
    assert(out.deep_view() + Seq::<Seq<char>>::empty() =~= out.deep_view());
    out
}

/// `parts` with `sep` between them.
pub fn join(parts: &Vec<String>, sep: &str) -> (r: String)
    ensures
        r@ == joined(parts.deep_view(), sep@),
{
    let mut out = String::new();
    let mut i: usize = 0;
    let ghost all = parts.deep_view();
    while i < parts.len()
        invariant
            i <= parts@.len(),
            all == parts.deep_view(),
            out@ == joined(all.take(i as int), sep@),
        decreases parts@.len() - i,
    {
        if i > 0 {
            out.append(sep);
        }
        out.append(parts[i].as_str());
        assert(all.take(i + 1).drop_last() =~= all.take(i as int));
        assert(all.take(i + 1).last() == parts@[i as int]@);
        i = i + 1;
    }
    assert(all.take(all.len() as int) =~= all);
    out
}

/// The first position at or after `from` that holds `c`.
pub open spec fn char_at(s: Seq<char>, c: char, from: int) -> Option<int>
    decreases s.len() - from,
{
    if from < 0 || from >= s.len() {
        None
    } else if s[from] == c {
        Some(from)
    } else {
        char_at(s, c, from + 1)
    }
}

/// The pieces of `s` between the occurrences of `c`; one piece where there is none.
pub open spec fn split_on(s: Seq<char>, c: char) -> Seq<Seq<char>>
    decreases s.len(),
{
    if s.len() == 0 {
        seq![Seq::empty()]
    } else {
        let before = split_on(s.drop_last(), c);
        if s.last() == c {
            before.push(Seq::empty())
        } else {
            before.drop_last().push(before.last().push(s.last()))
        }
    }
}

/// The pieces of `s` between the occurrences of `c`; one piece where there is none.
pub fn split(s: &str, c: char) -> (r: Vec<String>)
    ensures
        r.deep_view() == split_on(s@, c),
{
    let v = chars_of(s);
    let mut done: Vec<String> = Vec::new();
    let mut piece = String::new();
    let mut i: usize = 0;
    assert(v@.take(0) =~= Seq::empty());
    assert(done.deep_view().push(piece@) =~= split_on(v@.take(0), c));
    while i < v.len()
        invariant
            i <= v@.len(),
            done.deep_view().push(piece@) == split_on(v@.take(i as int), c),
        decreases v@.len() - i,
    {
        let ghost before = done.deep_view();
        let ghost part = piece@;
        assert(v@.take(i + 1).drop_last() =~= v@.take(i as int));
        assert(v@.take(i + 1).last() == v@[i as int]);
        assert(before.push(part).drop_last() =~= before);
        if v[i] == c {
            done.push(piece);
            piece = String::new();
            assert(done.deep_view() =~= before.push(part));
        } else {
            piece.push(v[i]);
        }
        i = i + 1;
    }
    assert(v@.take(v@.len() as int) =~= v@);
    let ghost before = done.deep_view();
    done.push(piece);
    assert(done.deep_view() =~= before.push(piece@));
    done
}

/// `s` with each `from` replaced by `to`.
pub open spec fn with_replaced(s: Seq<char>, from: char, to: Seq<char>) -> Seq<char>
    decreases s.len(),
{
    if s.len() == 0 {
        Seq::empty()
    } else {
        with_replaced(s.drop_last(), from, to) + if s.last() == from {
            to
        } else {
            seq![s.last()]
        }
    }
}

/// `s` with each `from` replaced by `to`.
pub fn replace(s: &str, from: char, to: &str) -> (r: String)
    ensures
        r@ == with_replaced(s@, from, to@),
{
    let v = chars_of(s);
    let mut out = String::new();
    let mut i: usize = 0;
    assert(v@.take(0) =~= Seq::empty());
    while i < v.len()
        invariant
            i <= v@.len(),
            out@ == with_replaced(v@.take(i as int), from, to@),
        decreases v@.len() - i,
    {
        assert(v@.take(i + 1).drop_last() =~= v@.take(i as int));
        if v[i] == from {
            out.append(to);
        } else {
            let ghost before = out@;
            out.push(v[i]);
            assert(out@ =~= before + seq![v@[i as int]]);
        }
        i = i + 1;
    }
    assert(v@.take(v@.len() as int) =~= v@);
    out
}

/// The decimal digit of `n`.
pub open spec fn digit(n: nat) -> char {
    (48 + n) as char
}

/// `n` in decimal digits, without leading zeros.
pub open spec fn nat_text(n: nat) -> Seq<char>
    decreases n,
{
    if n < 10 {
        seq![digit(n)]
    } else {
        nat_text(n / 10).push(digit(n % 10))
    }
}

/// `n` in decimal digits, with `-` in front where it is negative.
pub open spec fn int_text(n: int) -> Seq<char> {
    if n < 0 {
        seq!['-'] + nat_text((-n) as nat)
    } else {
        nat_text(n as nat)
    }
}

/// The decimal digit of `n`.
pub fn digit_char(n: u8) -> (r: char)
    requires
        n < 10,
    ensures
        r == digit(n as nat),
{
    (48 + n) as char
}

/// Appends `n` in decimal digits.
pub fn push_u64(out: &mut String, n: u64)
    ensures
        final(out)@ == old(out)@ + nat_text(n as nat),
    decreases n,
{
    if n >= 10 {
        push_u64(out, n / 10);
    }
    let ghost before = out@;
    out.push(digit_char((n % 10) as u8));
    proof {
        if n < 10 {
            assert(out@ =~= old(out)@ + nat_text(n as nat));
        } else {
            assert(out@ =~= old(out)@ + nat_text((n / 10) as nat).push(digit((n % 10) as nat)));
        }
    }
}

/// `n` in decimal digits.
pub fn u64_text(n: u64) -> (r: String)
    ensures
        r@ == nat_text(n as nat),
{
    let mut out = String::new();
    push_u64(&mut out, n);
    assert(out@ =~= nat_text(n as nat));
    out
}

/// The distance of `n` from zero.
pub fn magnitude(n: i64) -> (r: u64)
    ensures
        r == if n < 0 {
            -n
        } else {
            n as int
        },
{
    if n >= 0 {
        n as u64
    } else if n == i64::MIN {
        9223372036854775808
    } else {
        (-n) as u64
    }
}

/// `n` in decimal digits, with `-` in front where it is negative.
pub fn i64_text(n: i64) -> (r: String)
    ensures
        r@ == int_text(n as int),
{
    let mut out = String::new();
    if n < 0 {
        out.push('-');
    }
    push_u64(&mut out, magnitude(n));
    assert(out@ =~= int_text(n as int));
    out
}

/// Whether `c` is one of the ASCII digits.
pub open spec fn is_digit(c: char) -> bool {
    '0' <= c <= '9'
}

/// Whether every character of `s` is an ASCII digit.
pub open spec fn all_digits(s: Seq<char>) -> bool {
    forall|i: int| 0 <= i < s.len() ==> is_digit(#[trigger] s[i])
}

/// The number that the decimal digits `s` write.
pub open spec fn digits_value(s: Seq<char>) -> nat
    decreases s.len(),
{
    if s.len() == 0 {
        0
    } else {
        digits_value(s.drop_last()) * 10 + (s.last() as int - 48) as nat
    }
}

/// The number that `s` writes, where it is made of ASCII digits, at least one, and fits.
pub open spec fn i64_of_digits(s: Seq<char>) -> Option<i64> {
    if s.len() > 0 && all_digits(s) && digits_value(s) <= i64::MAX {
        Some(digits_value(s) as i64)
    } else {
        None
    }
}

/// The number that `s` writes, where it is made of ASCII digits, at least one, and fits.
pub fn parse_digits(s: &str) -> (r: Option<i64>)
    ensures
        r == i64_of_digits(s@),
{
    let v = chars_of(s);
    if v.len() == 0 {
        return None;
    }
    let mut n: i64 = 0;
    let mut fits = true;
    let mut i: usize = 0;
    while i < v.len()
        invariant
            i <= v@.len(),
            v@ == s@,
            all_digits(v@.take(i as int)),
            n >= 0,
            fits ==> n == digits_value(v@.take(i as int)),
            !fits ==> digits_value(v@.take(i as int)) > i64::MAX,
        decreases v@.len() - i,
    {
        let c = v[i];
        if !('0' <= c && c <= '9') {
            assert(!is_digit(s@[i as int]));
            return None;
        }
        assert(v@.take(i + 1).drop_last() =~= v@.take(i as int));
        assert(all_digits(v@.take(i + 1))) by {
            assert forall|j: int| 0 <= j < i + 1 implies is_digit(#[trigger] v@.take(i + 1)[j]) by {
                if j < i {
                    assert(v@.take(i as int)[j] == v@[j]);
                }
            }
        }
        let d: i64 = (c as u8 - 48) as i64;
        if fits {
            if n > (i64::MAX - d) / 10 {
                fits = false;
            } else {
                n = n * 10 + d;
            }
        }
        i = i + 1;
    }
    assert(v@.take(v@.len() as int) =~= v@);
    if fits {
        Some(n)
    } else {
        None
    }
}

/// A text without a comma is one piece.
pub proof fn one_piece(s: Seq<char>)
    requires
        !s.contains(','),
    ensures
        split_on(s, ',') == seq![s],
    decreases s.len(),
{
    if s.len() > 0 {
        let t = s.drop_last();
        assert(!t.contains(',')) by {
            if t.contains(',') {
                let i = choose|i: int| 0 <= i < t.len() && t[i] == ',';
                assert(s[i] == ',');
            }
        }
        one_piece(t);
        assert(s[s.len() - 1] != ',');
        assert(t.push(s.last()) =~= s);
        assert(seq![t].drop_last().push(t.push(s.last())) =~= seq![s]);
    } else {
        assert(s =~= Seq::empty());
    }
}

/// What follows the last comma is the last piece.
pub proof fn pieces_join(a: Seq<char>, b: Seq<char>)
    requires
        !b.contains(','),
    ensures
        split_on(a + seq![','] + b, ',') == split_on(a, ',').push(b),
    decreases b.len(),
{
    let s = a + seq![','] + b;
    if b.len() == 0 {
        assert(s.drop_last() =~= a);
        assert(b =~= Seq::empty());
    } else {
        let c = b.drop_last();
        assert(!c.contains(',')) by {
            if c.contains(',') {
                let i = choose|i: int| 0 <= i < c.len() && c[i] == ',';
                assert(b[i] == ',');
            }
        }
        pieces_join(a, c);
        assert(s.drop_last() =~= a + seq![','] + c);
        assert(b[b.len() - 1] != ',');
        assert(s.last() == b.last());
        let before = split_on(a, ',').push(c);
        assert(before.drop_last() =~= split_on(a, ','));
        assert(c.push(b.last()) =~= b);
    }
}

/// A number is written in ASCII digits that read back as it, with no zero in front but
/// that of zero itself.
pub proof fn digits_read_back(n: nat)
    ensures
        nat_text(n).len() > 0,
        all_digits(nat_text(n)),
        digits_value(nat_text(n)) == n,
        nat_text(n)[0] == '0' ==> n == 0,
    decreases n,
{
    let t = nat_text(n);
    if n < 10 {
        assert(t.drop_last() =~= Seq::empty());
        assert(digits_value(t.drop_last()) == 0);
    } else {
        digits_read_back(n / 10);
        assert(t.drop_last() =~= nat_text(n / 10));
        assert(t.last() == digit(n % 10));
        assert(t[0] == nat_text(n / 10)[0]);
        assert forall|i: int| 0 <= i < t.len() implies is_digit(#[trigger] t[i]) by {
            if i < t.len() - 1 {
                assert(t[i] == nat_text(n / 10)[i]);
            }
        }
    }
}

/// Two numbers never have the same text; only negative ones begin with a minus sign.
pub proof fn int_text_is_unique(a: int, b: int)
    ensures
        int_text(a) == int_text(b) ==> a == b,
        (int_text(a)[0] == '-') == (a < 0),
        a > 0 ==> int_text(-a) == seq!['-'] + int_text(a),
{
    let m = (if a < 0 { -a } else { a }) as nat;
    let n = (if b < 0 { -b } else { b }) as nat;
    digits_read_back(m);
    digits_read_back(n);
    assert(is_digit(nat_text(m)[0]));
    assert(is_digit(nat_text(n)[0]));
    if int_text(a) == int_text(b) {
        assert(int_text(a)[0] == int_text(b)[0]);
        assert((a < 0) == (b < 0));
        if a < 0 {
            assert(int_text(a).skip(1) =~= nat_text(m));
            assert(int_text(b).skip(1) =~= nat_text(n));
        }
    }
}

/// A text of ASCII digits, at least one, that writes no more than 64 bits hold is read as
/// what it writes; any other is not read.
pub proof fn only_digits_are_read(s: Seq<char>)
    ensures
        i64_of_digits(s) is Some <==> s.len() > 0 && (forall|i: int|
            0 <= i < s.len() ==> '0' <= #[trigger] s[i] <= '9') && digits_value(s)
            <= 0x7fff_ffff_ffff_ffff,
        i64_of_digits(s) matches Some(n) ==> n == digits_value(s),
{
    assert(all_digits(s) == (forall|i: int| 0 <= i < s.len() ==> '0' <= #[trigger] s[i] <= '9'));
}

/// Each digit counts ten times as much as the one behind it.
pub proof fn digits_count_tens(s: Seq<char>, c: char)
    requires
        is_digit(c),
    ensures
        digits_value(s.push(c)) == 10 * digits_value(s) + (c as int - '0' as int),
        digits_value(Seq::empty()) == 0,
{
    assert(s.push(c).drop_last() =~= s);
}

/// Parts joined in two runs are joined by the separator once more; one part stands alone.
pub proof fn joins_chain(a: Seq<Seq<char>>, b: Seq<Seq<char>>, sep: Seq<char>)
    ensures
        a.len() == 0 ==> joined(a, sep).len() == 0,
        a.len() == 1 ==> joined(a, sep) == a[0],
        a.len() > 0 && b.len() > 0 ==> joined(a + b, sep) == joined(a, sep) + sep + joined(b, sep),
    decreases b.len(),
{
    if a.len() > 0 && b.len() > 0 {
        let rest = b.drop_last();
        assert((a + b).drop_last() =~= a + rest);
        assert((a + b).last() == b.last());
        if rest.len() == 0 {
            assert(a + rest =~= a);
        } else {
            joins_chain(a, rest, sep);
            assert(joined(a + b, sep) =~= joined(a, sep) + sep + joined(b, sep));
        }
    }
}

/// The pieces of a text hold no separator, and joined by it they are the text again.
pub proof fn pieces_make_the_text(s: Seq<char>, c: char)
    ensures
        split_on(s, c).len() > 0,
        joined(split_on(s, c), seq![c]) == s,
        forall|i: int| 0 <= i < split_on(s, c).len() ==> !(#[trigger] split_on(s, c)[i]).contains(c),
    decreases s.len(),
{
    let all = split_on(s, c);
    if s.len() == 0 {
        assert(!all[0].contains(c));
        assert(joined(all, seq![c]) =~= s);
    } else {
        let rest = s.drop_last();
        let before = split_on(rest, c);
        pieces_make_the_text(rest, c);
        assert(rest.push(s.last()) =~= s);
        if s.last() == c {
            assert(all.drop_last() =~= before);
            assert(joined(all, seq![c]) =~= rest + seq![c] + Seq::empty());
            assert(joined(all, seq![c]) =~= s);
            assert forall|i: int| 0 <= i < all.len() implies !(#[trigger] all[i]).contains(c) by {
                if i < before.len() {
                    assert(all[i] == before[i]);
                }
            }
        } else {
            let piece = before.last().push(s.last());
            assert(all.last() == piece);
            assert(all.drop_last() =~= before.drop_last());
            assert(joined(all, seq![c]) =~= joined(before, seq![c]).push(s.last()));
            assert forall|i: int| 0 <= i < all.len() implies !(#[trigger] all[i]).contains(c) by {
                assert(!before[i].contains(c));
                if i < before.len() - 1 {
                    assert(all[i] == before[i]);
                } else {
                    assert forall|k: int| 0 <= k < piece.len() implies #[trigger] piece[k] != c by {
                        if k < piece.len() - 1 {
                            assert(piece[k] == before.last()[k]);
                            assert(before.last().contains(before.last()[k]));
                        }
                    }
                }
            }
        }
    }
}

/// A replacement works on each character for itself.
pub proof fn replacements_are_local(a: Seq<char>, b: Seq<char>, from: char, to: Seq<char>)
    ensures
        with_replaced(a + b, from, to) == with_replaced(a, from, to) + with_replaced(b, from, to),
        a.len() == 0 ==> with_replaced(a, from, to).len() == 0,
        a.len() == 1 ==> with_replaced(a, from, to) == if a[0] == from {
            to
        } else {
            a
        },
    decreases b.len(),
{
    if b.len() == 0 {
        assert(a + b =~= a);
    } else {
        replacements_are_local(a, b.drop_last(), from, to);
        assert((a + b).drop_last() =~= a + b.drop_last());
    }
    assert(with_replaced(a + b, from, to) =~= with_replaced(a, from, to) + with_replaced(
        b,
        from,
        to,
    ));
    if a.len() == 1 {
        assert(a.drop_last() =~= Seq::empty());
        assert(with_replaced(a.drop_last(), from, to) =~= Seq::empty());
        assert(seq![a.last()] =~= a);
        assert(with_replaced(a, from, to) =~= if a[0] == from {
            to
        } else {
            a
        });
    }
}

/// Leading white space is cut off, and nothing else.
pub proof fn leading_space_is_cut(space: Seq<char>, s: Seq<char>)
    requires
        forall|i: int| 0 <= i < space.len() ==> is_space(#[trigger] space[i]),
        s.len() > 0 ==> !is_space(s[0]),
    ensures
        without_leading_space(space + s) == s,
    decreases space.len(),
{
    if space.len() == 0 {
        assert(space + s =~= s);
    } else {
        let rest = space.drop_first();
        assert forall|i: int| 0 <= i < rest.len() implies is_space(#[trigger] rest[i]) by {
            assert(rest[i] == space[i + 1]);
        }
        leading_space_is_cut(rest, s);
        assert((space + s).drop_first() =~= rest + s);
    }
}

/// Trailing white space is cut off, and nothing else.
pub proof fn trailing_space_is_cut(s: Seq<char>, space: Seq<char>)
    requires
        forall|i: int| 0 <= i < space.len() ==> is_space(#[trigger] space[i]),
        s.len() > 0 ==> !is_space(s.last()),
    ensures
        without_trailing_space(s + space) == s,
    decreases space.len(),
{
    if space.len() == 0 {
        assert(s + space =~= s);
    } else {
        let rest = space.drop_last();
        assert forall|i: int| 0 <= i < rest.len() implies is_space(#[trigger] rest[i]) by {
            assert(rest[i] == space[i]);
        }
        trailing_space_is_cut(s, rest);
        assert((s + space).drop_last() =~= s + rest);
    }
}

/// Trimming takes the white space around a text away, and nothing of the text.
pub proof fn trimming_cuts_the_space_around(front: Seq<char>, s: Seq<char>, back: Seq<char>)
    requires
        forall|i: int| 0 <= i < front.len() ==> is_space(#[trigger] front[i]),
        forall|i: int| 0 <= i < back.len() ==> is_space(#[trigger] back[i]),
        s.len() > 0 ==> !is_space(s[0]) && !is_space(s.last()),
    ensures
        trimmed(front + s + back) == s,
        trimmed_or_none(front + s + back) == if s.len() == 0 {
            None
        } else {
            Some(s)
        },
{
    if s.len() == 0 {
        let all = front + s + back;
        assert forall|i: int| 0 <= i < all.len() implies is_space(#[trigger] all[i]) by {
            if i < front.len() {
                assert(all[i] == front[i]);
            } else {
                assert(all[i] == back[i - front.len()]);
            }
        }
        leading_space_is_cut(all, Seq::empty());
        assert(all + Seq::<char>::empty() =~= all);
        assert(s =~= Seq::empty());
    } else {
        assert(front + s + back =~= front + (s + back));
        leading_space_is_cut(front, s + back);
        trailing_space_is_cut(s, back);
    }
}

/// The characters that count as white space.
pub proof fn white_space_is(c: char)
    ensures
        is_space(c) <==> {
            let n = c as u32;
            9 <= n <= 13 || n == 32 || n == 0x85 || n == 0xa0 || n == 0x1680 || 0x2000 <= n
                <= 0x200a || n == 0x2028 || n == 0x2029 || n == 0x202f || n == 0x205f || n
                == 0x3000
        },
{
}

/// A text stands at the start of another exactly where it is a prefix of it, and occurs
/// in it exactly where the other is made of it and what is around it.
pub proof fn occurrences(front: Seq<char>, needle: Seq<char>, back: Seq<char>, hay: Seq<char>)
    ensures
        stands_at(front + needle + back, needle, front.len() as int),
        occurs(front + needle + back, needle),
        stands_at(hay, needle, 0) == needle.is_prefix_of(hay),
        occurs(hay, needle) ==> exists|i: int|
            0 <= i <= hay.len() - needle.len() && #[trigger] hay.subrange(i, i + needle.len())
                == needle,
{
    let all = front + needle + back;
    let n = front.len() as int;
    assert(all.subrange(n, n + needle.len()) =~= needle);
    assert(stands_at(all, needle, n));
    if occurs(hay, needle) {
        let i = choose|i: int| stands_at(hay, needle, i);
        assert(hay.subrange(i, i + needle.len()) == needle);
    }
}

/// Only the case of the letters from A to Z is ignored.
pub proof fn only_letter_case_is_ignored(a: char, b: char)
    ensures
        ascii_small(a) == ascii_small(b) <==> a == b || ('A' <= a <= 'Z' && b as int == a as int + 32)
            || ('A' <= b <= 'Z' && a as int == b as int + 32),
{
}

/// The position found is the first that holds the character; none is found exactly where
/// no position does.
pub proof fn characters_are_found(s: Seq<char>, c: char, from: int)
    requires
        from >= 0,
    ensures
        match char_at(s, c, from) {
            Some(i) => from <= i < s.len() && s[i] == c && forall|j: int|
                from <= j < i ==> #[trigger] s[j] != c,
            None => forall|j: int| from <= j < s.len() ==> #[trigger] s[j] != c,
        },
    decreases s.len() - from,
{
    if from < s.len() && s[from] != c {
        characters_are_found(s, c, from + 1);
    }
}

} // verus!
