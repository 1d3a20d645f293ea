//! Strings as sequences of characters.
//!
//! Columns, lengths and positions in this library count characters, never
//! bytes: the view of a string is a `Seq<char>` and every function here is
//! stated over that view.

use vstd::prelude::*;
use vstd::string::*;
use vstd::utf8::{
    char_is_scalar, decode_utf8, decode_utf8_split, encode_scalar, encode_utf8,
    encode_utf8_decode_utf8, encode_utf8_first_scalar, encode_utf8_valid_utf8, is_char_boundary,
    is_char_boundary_iff_not_is_continuation_byte, is_char_boundary_start_end_of_seq,
    pop_first_scalar, valid_utf8_split,
};

verus! {

/// `String::push` of the standard library: afterwards the string holds what
/// it held before, and `c` behind it.
#[verifier::external_body]
pub(crate) fn push_char(s: &mut String, c: char)
    ensures
        final(s)@ == old(s)@.push(c),
{
    s.push(c)
}

/// The characters of `s`, in order.
pub fn chars_of(s: &str) -> (r: Vec<char>)
    ensures
        r@ == s@,
{
    let mut v: Vec<char> = Vec::new();
    for c in it: s.chars()
        invariant
            v@ == s@.take(it.index() as int),
            it.seq() == s@,
    {
        v.push(c);
    }
    v
}

/// The string made of the characters `chars[from..to]`.
pub fn string_of(chars: &[char], from: usize, to: usize) -> (r: String)
    requires
        from <= to <= chars@.len(),
    ensures
        r@ == chars@.subrange(from as int, to as int),
{
    let mut s = String::new();
    let mut i: usize = from;
    while i < to
        invariant
            from <= i <= to <= chars@.len(),
            s@ == chars@.subrange(from as int, i as int),
        decreases to - i,
    {
        push_char(&mut s, chars[i]);
        i = i + 1;
    }
    s
}

/// Whether two strings hold the same characters.
pub fn str_eq(a: &str, b: &str) -> (r: bool)
    ensures
        r == (a@ == b@),
{
    let x = a.as_bytes();
    let y = b.as_bytes();
    if x.len() != y.len() {
        return false;
    }
    let mut i: usize = 0;
    while i < x.len()
        invariant
            i <= x.len(),
            x.len() == y.len(),
            x@ == a.spec_bytes(),
            y@ == b.spec_bytes(),
            forall|k: int| 0 <= k < i ==> x@[k] == y@[k],
        decreases x.len() - i,
    {
        if x[i] != y[i] {
            return false;
        }
        i = i + 1;
    }
    proof {
        assert(x@ =~= y@);
        encode_utf8_decode_utf8(a@);
        encode_utf8_decode_utf8(b@);
    }
    true
}

/// The characters that Unicode classes as white space.
pub open spec fn is_space(c: char) -> bool {
    let u = c as u32;
    ||| 0x09 <= u <= 0x0D
    ||| u == 0x20
    ||| u == 0x85
    ||| u == 0xA0
    ||| u == 0x1680
    ||| 0x2000 <= u <= 0x200A
    ||| u == 0x2028
    ||| u == 0x2029
    ||| u == 0x202F
    ||| u == 0x205F
    ||| u == 0x3000
}

/// Whether `c` is white space.
pub fn is_whitespace(c: char) -> (r: bool)
    ensures
        r == is_space(c),
{
    let u: u32 = c as u32;
    (0x09 <= u && u <= 0x0D) || u == 0x20 || u == 0x85 || u == 0xA0 || u == 0x1680 || (0x2000 <= u
        && u <= 0x200A) || u == 0x2028 || u == 0x2029 || u == 0x202F || u == 0x205F || u == 0x3000
}

/// The views of a sequence of string slices.
pub open spec fn views(parts: Seq<&str>) -> Seq<Seq<char>> {
    parts.map_values(|p: &str| p@)
}

/// The views of a sequence of strings.
pub open spec fn string_views(parts: Seq<String>) -> Seq<Seq<char>> {
    parts.map_values(|p: String| p@)
}

/// The pieces of `s` between the occurrences of `sep`: one more piece than
/// there are separators, each free of `sep`, in the order of the text.
pub open spec fn split(s: Seq<char>, sep: char) -> Seq<Seq<char>>
    decreases s.len(),
{
    if s.len() == 0 {
        seq![Seq::<char>::empty()]
    } else {
        let head = split(s.drop_last(), sep);
        if s.last() == sep {
            head.push(Seq::<char>::empty())
        } else {
            head.update(head.len() - 1, head.last().push(s.last()))
        }
    }
}

/// The pieces put together again, with `sep` between each two neighbours.
pub open spec fn join(parts: Seq<Seq<char>>, sep: char) -> Seq<char>
    decreases parts.len(),
{
    if parts.len() == 0 {
        Seq::<char>::empty()
    } else if parts.len() == 1 {
        parts[0]
    } else {
        join(parts.drop_last(), sep).push(sep) + parts.last()
    }
}

/// A split has at least one piece.
pub proof fn lemma_split_nonempty(s: Seq<char>, sep: char)
    ensures
        split(s, sep).len() >= 1,
    decreases s.len(),
{
    if s.len() > 0 {
        lemma_split_nonempty(s.drop_last(), sep);
    }
}

/// No piece of a split holds the separator.
pub proof fn lemma_split_clean(s: Seq<char>, sep: char)
    ensures
        forall|i: int, j: int|
            0 <= i < split(s, sep).len() && 0 <= j < split(s, sep)[i].len() ==> split(
                s,
                sep,
            )[i][j] != sep,
    decreases s.len(),
{
    if s.len() > 0 {
        lemma_split_nonempty(s.drop_last(), sep);
        lemma_split_clean(s.drop_last(), sep);
    }
}

/// Joining the pieces of a split gives the text back.
pub proof fn lemma_join_split(s: Seq<char>, sep: char)
    ensures
        join(split(s, sep), sep) == s,
    decreases s.len(),
{
    if s.len() > 0 {
        let t = s.drop_last();
        let head = split(t, sep);
        lemma_split_nonempty(t, sep);
        lemma_join_split(t, sep);
        if s.last() == sep {
            let all = head.push(Seq::<char>::empty());
            assert(all.drop_last() =~= head);
            assert(join(all, sep) =~= t.push(sep));
            assert(t.push(sep) =~= s);
        } else {
            let last = head.last().push(s.last());
            let all = head.update(head.len() - 1, last);
            lemma_join_last(head, sep);
            lemma_join_last(all, sep);
            assert(all.drop_last() =~= head.drop_last());
            assert(join(all, sep) =~= join(head, sep).push(s.last()));
            assert(t.push(s.last()) =~= s);
        }
    }
}

/// A join ends with its last piece: what stands before it depends on the
/// other pieces alone.
pub proof fn lemma_join_last(parts: Seq<Seq<char>>, sep: char)
    requires
        parts.len() >= 1,
    ensures
        join(parts, sep) == join_front(parts, sep) + parts.last(),
{
    if parts.len() == 1 {
        assert(join(parts, sep) =~= join_front(parts, sep) + parts.last());
    }
}

/// A join without its last piece: the pieces before it, each followed by `sep`.
pub open spec fn join_front(parts: Seq<Seq<char>>, sep: char) -> Seq<char> {
    if parts.len() <= 1 {
        Seq::<char>::empty()
    } else {
        join(parts.drop_last(), sep).push(sep)
    }
}

/// The pieces of two texts put together: those of the first but its last,
/// then the last of the first and the first of the second as one piece, then
/// those of the second but its first.
pub proof fn lemma_split_concat(a: Seq<char>, b: Seq<char>, sep: char)
    ensures
        split(a + b, sep) == split(a, sep).drop_last().push(
            split(a, sep).last() + split(b, sep)[0],
        ) + split(b, sep).drop_first(),
    decreases b.len(),
{
    let pa = split(a, sep);
    let pb = split(b, sep);
    lemma_split_nonempty(a, sep);
    lemma_split_nonempty(b, sep);
    if b.len() == 0 {
        assert(a + b =~= a);
        assert(pa.last() + pb[0] =~= pa.last());
        assert(pa.drop_last().push(pa.last()) + pb.drop_first() =~= pa);
    } else {
        let front = b.drop_last();
        let pb0 = split(front, sep);
        lemma_split_concat(a, front, sep);
        lemma_split_nonempty(front, sep);
        lemma_split_nonempty(a + front, sep);
        assert((a + b).drop_last() =~= a + front);
        assert((a + b).last() == b.last());
        let h = split(a + front, sep);
        let joint = pa.drop_last().push(pa.last() + pb0[0]);
        assert(h == joint + pb0.drop_first());
        if b.last() == sep {
            assert(pb == pb0.push(Seq::<char>::empty()));
            assert(pb[0] == pb0[0]);
            assert(pb.drop_first() =~= pb0.drop_first().push(Seq::<char>::empty()));
            assert(h.push(Seq::<char>::empty()) =~= joint + pb.drop_first());
        } else {
            let c = b.last();
            assert(pb == pb0.update(pb0.len() - 1, pb0.last().push(c)));
            if pb0.len() == 1 {
                assert(h =~= joint);
                assert(h.last() == pa.last() + pb0[0]);
                assert(pb[0] == pb0[0].push(c));
                assert((pa.last() + pb0[0]).push(c) =~= pa.last() + pb[0]);
                assert(pb.drop_first() =~= Seq::<Seq<char>>::empty());
                assert(h.update(h.len() - 1, h.last().push(c)) =~= pa.drop_last().push(
                    pa.last() + pb[0],
                ) + pb.drop_first());
            } else {
                assert(h.last() == pb0.last());
                assert(pb[0] == pb0[0]);
                assert(h.update(h.len() - 1, h.last().push(c)) =~= joint + pb.drop_first());
            }
        }
    }
}

/// A text without the separator is one piece.
pub proof fn lemma_split_whole(s: Seq<char>, sep: char)
    requires
        forall|i: int| 0 <= i < s.len() ==> s[i] != sep,
    ensures
        split(s, sep) == seq![s],
    decreases s.len(),
{
    if s.len() == 0 {
        assert(s =~= Seq::<char>::empty());
    } else {
        let head = split(s.drop_last(), sep);
        lemma_split_whole(s.drop_last(), sep);
        assert(head == seq![s.drop_last()]);
        assert(s.last() == s[s.len() - 1]);
        assert(s.drop_last().push(s.last()) =~= s);
        assert(head.update(head.len() - 1, head.last().push(s.last())) =~= seq![s]);
    }
}

/// Splitting the join of some pieces gives the pieces back, where there is
/// a piece and no piece holds the separator.
pub proof fn lemma_split_join(parts: Seq<Seq<char>>, sep: char)
    requires
        parts.len() >= 1,
        forall|i: int, j: int|
            0 <= i < parts.len() && 0 <= j < parts[i].len() ==> parts[i][j] != sep,
    ensures
        split(join(parts, sep), sep) == parts,
    decreases parts.len(),
{
    if parts.len() == 1 {
        lemma_split_whole(parts[0], sep);
        assert(seq![parts[0]] =~= parts);
    } else {
        let front = parts.drop_last();
        let last = parts.last();
        lemma_split_join(front, sep);
        lemma_split_whole(last, sep);
        let a = join(front, sep).push(sep);
        assert(a.drop_last() =~= join(front, sep));
        assert(split(a, sep) == front.push(Seq::<char>::empty()));
        lemma_split_concat(a, last, sep);
        assert(split(a, sep).drop_last() =~= front);
        assert(Seq::<char>::empty() + last =~= last);
        assert(seq![last].drop_first() =~= Seq::<Seq<char>>::empty());
        assert(front.push(last) + Seq::<Seq<char>>::empty() =~= parts);
    }
}

/// The pieces of `s` between the occurrences of `sep`.
pub fn split_on<'a>(s: &'a str, sep: char) -> (r: Vec<&'a str>)
    ensures
        views(r@) == split(s@, sep),
{
    let total = s.as_bytes().len();
    let mut pieces: Vec<&'a str> = Vec::new();
    // the piece that is being read began at byte `start` and is read up to
    // byte `pos`; in characters, it began at `first` and is read up to `i`
    let mut start: usize = 0;
    let mut pos: usize = 0;
    let ghost mut first: int = 0;
    proof {
        assert(s@.take(0) =~= Seq::<char>::empty());
        assert(s@.subrange(0, 0) =~= Seq::<char>::empty());
        assert(views(pieces@).push(s@.subrange(0, 0)) =~= seq![Seq::<char>::empty()]);
    }
    for c in it: s.chars()
        invariant
            it.seq() == s@,
            total == encode_utf8(s@).len(),
            0 <= first <= it.index(),
            start == encode_utf8(s@.take(first)).len(),
            pos == encode_utf8(s@.take(it.index() as int)).len(),
            split(s@.take(it.index() as int), sep) == views(pieces@).push(
                s@.subrange(first, it.index() as int),
            ),
    {
        let ghost i = it.index() as int;
        let width = utf8_width(c);
        proof {
            let t = s@.take(i + 1);
            assert(t.drop_last() =~= s@.take(i));
            assert(t.last() == c);
            assert(t =~= s@.take(i).push(c));
            lemma_encode_push(s@.take(i), c);
            lemma_encode_prefix(s@, i + 1);
        }
        if c == sep {
            proof {
                lemma_span_of_chars(s@, first, i);
            }
            let piece = byte_part(s, start, pos);
            proof {
                assert(views(pieces@.push(piece)) =~= views(pieces@).push(piece@));
                assert(s@.subrange(i + 1, i + 1) =~= Seq::<char>::empty());
            }
            pieces.push(piece);
            start = pos + width;
            proof {
                first = i + 1;
            }
        } else {
            proof {
                let head = views(pieces@).push(s@.subrange(first, i));
                assert(s@.subrange(first, i).push(c) =~= s@.subrange(first, i + 1));
                assert(head.update(head.len() - 1, head.last().push(c)) =~= views(pieces@).push(
                    s@.subrange(first, i + 1),
                ));
            }
        }
        pos = pos + width;
    }
    proof {
        assert(s@.take(s@.len() as int) =~= s@);
        lemma_span_of_chars(s@, first, s@.len() as int);
    }
    let piece = byte_part(s, start, pos);
    proof {
        assert(views(pieces@.push(piece)) =~= views(pieces@).push(piece@));
    }
    pieces.push(piece);
    pieces
}

/// `s` without the carriage return that it ends with, if it ends with one.
pub open spec fn strip_cr(s: Seq<char>) -> Seq<char> {
    if s.len() > 0 && s.last() == '\r' {
        s.drop_last()
    } else {
        s
    }
}

/// Each of `parts` without the carriage return that it ends with.
pub open spec fn strip_each(parts: Seq<Seq<char>>) -> Seq<Seq<char>> {
    Seq::new(parts.len(), |i: int| strip_cr(parts[i]))
}

/// The lines of a text. A line ends at a line feed, or at a carriage return
/// followed by a line feed; what follows the last line feed is a line of its
/// own unless it is empty.
pub open spec fn lines(s: Seq<char>) -> Seq<Seq<char>> {
    let parts = split(s, '\n');
    let ended = strip_each(parts.drop_last());
    if parts.last().len() == 0 {
        ended
    } else {
        ended.push(parts.last())
    }
}

/// The lines of `text`.
pub fn lines_of(text: &str) -> (r: Vec<String>)
    ensures
        string_views(r@) == lines(text@),
{
    let parts = split_on(text, '\n');
    proof {
        lemma_split_nonempty(text@, '\n');
        assert(views(parts@).len() == parts@.len());
    }
    let ghost all = split(text@, '\n');
    let n = parts.len();
    let mut out: Vec<String> = Vec::new();
    let mut i: usize = 0;
    while i + 1 < n
        invariant
            n >= 1,
            i + 1 <= n,
            n == parts@.len(),
            views(parts@) == all,
            out@.len() == i,
            string_views(out@) == strip_each(all.take(i as int)),
        decreases n - i,
    {
        let chars = chars_of(parts[i]);
        let m = chars.len();
        let line = if m > 0 && chars[m - 1] == '\r' {
            string_of(chars.as_slice(), 0, m - 1)
        } else {
            string_of(chars.as_slice(), 0, m)
        };
        proof {
            assert(views(parts@)[i as int] == parts@[i as int]@);
            assert(chars@.subrange(0, m as int) =~= chars@);
            if m > 0 {
                assert(chars@.subrange(0, m - 1) =~= chars@.drop_last());
            }
            assert(line@ == strip_cr(all[i as int]));
            assert forall|k: int| 0 <= k < i + 1 implies string_views(out@.push(line))[k]
                == strip_each(all.take(i + 1))[k] by {
                if k < i {
                    assert(string_views(out@)[k] == strip_each(all.take(i as int))[k]);
                }
            }
            assert(string_views(out@.push(line)) =~= strip_each(all.take(i + 1)));
        }
        out.push(line);
        i = i + 1;
    }
    let last = parts[n - 1];
    proof {
        assert(views(parts@)[n - 1] == parts@[n - 1]@);
        assert(all.take(n - 1) =~= all.drop_last());
    }
    if last.unicode_len() > 0 {
        let line = String::from_str(last);
        proof {
            assert(string_views(out@.push(line)) =~= string_views(out@).push(line@));
        }
        out.push(line);
    }
    out
}

/// The text made of `lines`, with a line feed between each two neighbours.
pub fn join_lines(lines: &Vec<String>) -> (r: String)
    ensures
        r@ == join(string_views(lines@), '\n'),
{
    let mut out = String::new();
    let n = lines.len();
    let mut i: usize = 0;
    while i < n
        invariant
            i <= n,
            n == lines@.len(),
            out@ == join(string_views(lines@).take(i as int), '\n'),
        decreases n - i,
    {
        proof {
            let now = string_views(lines@).take(i + 1);
            assert(now.drop_last() =~= string_views(lines@).take(i as int));
            assert(now.last() == lines@[i as int]@);
        }
        if i > 0 {
            push_char(&mut out, '\n');
        }
        out.append(lines[i].as_str());
        i = i + 1;
    }
    proof {
        assert(string_views(lines@).take(n as int) =~= string_views(lines@));
    }
    out
}

/// Whether `c` is one of the ten decimal digits.
pub open spec fn is_digit(c: char) -> bool {
    '0' <= c <= '9'
}

/// The number that the digit `c` stands for.
pub open spec fn digit_value(c: char) -> nat
    recommends
        is_digit(c),
{
    (c as u32 - '0' as u32) as nat
}

/// Whether `s` is a decimal numeral: one digit or more, and nothing else.
pub open spec fn is_decimal(s: Seq<char>) -> bool {
    s.len() > 0 && forall|i: int| 0 <= i < s.len() ==> is_digit(#[trigger] s[i])
}

/// The number that the digits of `s` write, the last digit counting least.
pub open spec fn decimal_value(s: Seq<char>) -> nat
    decreases s.len(),
{
    if s.len() == 0 {
        0
    } else {
        decimal_value(s.drop_last()) * 10 + digit_value(s.last())
    }
}

/// A numeral is worth at least as much as any of its beginnings.
pub proof fn lemma_decimal_grows(s: Seq<char>, i: int)
    requires
        0 <= i <= s.len(),
    ensures
        decimal_value(s.take(i)) <= decimal_value(s),
    decreases s.len() - i,
{
    if i < s.len() {
        lemma_decimal_grows(s, i + 1);
        assert(s.take(i + 1).drop_last() =~= s.take(i));
    } else {
        assert(s.take(i) =~= s);
    }
}

/// The number that `s` writes in decimal digits; `None` where `s` is no
/// numeral or the number does not fit.
pub fn parse_decimal(s: &str) -> (r: Option<usize>)
    ensures
        r == if is_decimal(s@) && decimal_value(s@) <= usize::MAX {
            Some(decimal_value(s@) as usize)
        } else {
            None
        },
{
    let chars = chars_of(s);
    let n = chars.len();
    if n == 0 {
        return None;
    }
    let mut acc: usize = 0;
    let mut i: usize = 0;
    while i < n
        invariant
            i <= n,
            n == s@.len(),
            chars@ == s@,
            forall|k: int| 0 <= k < i ==> is_digit(#[trigger] s@[k]),
            acc == decimal_value(s@.take(i as int)),
        decreases n - i,
    {
        let c = chars[i];
        if !('0' <= c && c <= '9') {
            return None;
        }
        let d: usize = (c as u32 - '0' as u32) as usize;
        proof {
            assert(s@.take(i + 1).drop_last() =~= s@.take(i as int));
            lemma_decimal_grows(s@, i + 1);
        }
        let next = match acc.checked_mul(10) {
            Some(v) => v.checked_add(d),
            None => None,
        };
        match next {
            Some(v) => {
                acc = v;
            },
            None => {
                return None;
            },
        }
        i = i + 1;
    }
    proof {
        assert(s@.take(n as int) =~= s@);
    }
    Some(acc)
}

/// The character that writes the digit `d`.
pub open spec fn digit_char(d: nat) -> char
    recommends
        d < 10,
{
    if d == 0 {
        '0'
    } else if d == 1 {
        '1'
    } else if d == 2 {
        '2'
    } else if d == 3 {
        '3'
    } else if d == 4 {
        '4'
    } else if d == 5 {
        '5'
    } else if d == 6 {
        '6'
    } else if d == 7 {
        '7'
    } else if d == 8 {
        '8'
    } else {
        '9'
    }
}

/// The decimal numeral of `n`, without leading zeros.
pub open spec fn digits(n: nat) -> Seq<char>
    decreases n,
{
    if n < 10 {
        seq![digit_char(n)]
    } else {
        digits(n / 10).push(digit_char(n % 10))
    }
}

/// Reading the numeral of a number gives the number back.
pub proof fn lemma_digits_value(n: nat)
    ensures
        is_decimal(digits(n)),
        decimal_value(digits(n)) == n,
    decreases n,
{
    if n < 10 {
        let s = digits(n);
        assert(s.drop_last() =~= Seq::<char>::empty());
        assert(decimal_value(s.drop_last()) == 0);
    } else {
        lemma_digits_value(n / 10);
        let s = digits(n);
        assert(s.drop_last() =~= digits(n / 10));
    }
}

/// The character that writes the digit `d`; see [`digit_char`].
fn digit_of(d: usize) -> (c: char)
    requires
        d < 10,
    ensures
        c == digit_char(d as nat),
{
    if d == 0 {
        '0'
    } else if d == 1 {
        '1'
    } else if d == 2 {
        '2'
    } else if d == 3 {
        '3'
    } else if d == 4 {
        '4'
    } else if d == 5 {
        '5'
    } else if d == 6 {
        '6'
    } else if d == 7 {
        '7'
    } else if d == 8 {
        '8'
    } else {
        '9'
    }
}

/// The decimal numeral of `n`.
pub fn decimal(n: usize) -> (r: String)
    ensures
        r@ == digits(n as nat),
{
    let mut low: Vec<char> = Vec::new();
    let mut m: usize = n;
    while m >= 10
        invariant
            digits(n as nat) == digits(m as nat) + low@.reverse(),
        decreases m,
    {
        let c = digit_of(m % 10);
        proof {
            assert(low@.push(c).reverse() =~= seq![c] + low@.reverse());
            assert(digits(m as nat) == digits((m / 10) as nat).push(c));
            assert(digits((m / 10) as nat).push(c) + low@.reverse() =~= digits((m / 10) as nat)
                + (seq![c] + low@.reverse()));
        }
        low.push(c);
        m = m / 10;
    }
    let c = digit_of(m);
    proof {
        assert(low@.push(c).reverse() =~= seq![c] + low@.reverse());
        assert(digits(m as nat) =~= seq![c]);
    }
    low.push(c);
    let mut out = String::new();
    let mut k: usize = low.len();
    while k > 0
        invariant
            k <= low@.len(),
            out@ == low@.reverse().take(low@.len() - k),
        decreases k,
    {
        k = k - 1;
        proof {
            assert(low@.reverse().take(low@.len() - k) =~= low@.reverse().take(
                low@.len() - k - 1,
            ).push(low@[k as int]));
        }
        push_char(&mut out, low[k]);
    }
    proof {
        assert(low@.reverse().take(low@.len() as int) =~= low@.reverse());
    }
    out
}

/// `n` spaces.
pub open spec fn spaces(n: nat) -> Seq<char> {
    Seq::new(n, |i: int| ' ')
}

/// `s` moved to the right edge of a field of `width` characters: spaces are
/// put before it until it is `width` long. A longer `s` is left as it is.
pub open spec fn right_aligned(s: Seq<char>, width: nat) -> Seq<char> {
    if s.len() >= width {
        s
    } else {
        spaces((width - s.len()) as nat) + s
    }
}

/// A string of `n` spaces.
pub fn blank(n: usize) -> (r: String)
    ensures
        r@ == spaces(n as nat),
{
    let mut out = String::new();
    let mut i: usize = 0;
    while i < n
        invariant
            i <= n,
            out@ == spaces(i as nat),
        decreases n - i,
    {
        proof {
            assert(spaces(i as nat).push(' ') =~= spaces((i + 1) as nat));
        }
        push_char(&mut out, ' ');
        i = i + 1;
    }
    out
}

/// `s`, right-aligned in a field of `width` characters.
pub fn pad_left(s: &str, width: usize) -> (r: String)
    ensures
        r@ == right_aligned(s@, width as nat),
{
    let n = s.unicode_len();
    if n >= width {
        String::from_str(s)
    } else {
        let mut out = blank(width - n);
        out.append(s);
        out
    }
}

/// `s` without the white space that it begins with.
pub open spec fn trim_start(s: Seq<char>) -> Seq<char>
    decreases s.len(),
{
    if s.len() > 0 && is_space(s[0]) {
        trim_start(s.drop_first())
    } else {
        s
    }
}

/// `s` without the white space that it ends with.
pub open spec fn trim_end(s: Seq<char>) -> Seq<char>
    decreases s.len(),
{
    if s.len() > 0 && is_space(s.last()) {
        trim_end(s.drop_last())
    } else {
        s
    }
}

/// `s` without the white space at either end.
pub open spec fn trim(s: Seq<char>) -> Seq<char> {
    trim_end(trim_start(s))
}

/// `s` without the white space at either end.
pub fn trimmed(s: &str) -> (r: String)
    ensures
        r@ == trim(s@),
{
    let chars = chars_of(s);
    let n = chars.len();
    let mut a: usize = 0;
    proof {
        assert(s@.subrange(0, n as int) =~= s@);
    }
    while a < n && is_whitespace(chars[a])
        invariant
            a <= n,
            n == s@.len(),
            chars@ == s@,
            trim_start(s@) == trim_start(s@.subrange(a as int, n as int)),
        decreases n - a,
    {
        proof {
            assert(s@.subrange(a as int, n as int).drop_first() =~= s@.subrange(a + 1, n as int));
        }
        a = a + 1;
    }
    let mut b: usize = n;
    while b > a && is_whitespace(chars[b - 1])
        invariant
            a <= b <= n,
            n == s@.len(),
            chars@ == s@,
            trim_start(s@) == s@.subrange(a as int, n as int),
            trim(s@) == trim_end(s@.subrange(a as int, b as int)),
        decreases b,
    {
        proof {
            assert(s@.subrange(a as int, b as int).drop_last() =~= s@.subrange(a as int, b - 1));
        }
        b = b - 1;
    }
    string_of(chars.as_slice(), a, b)
}

/// `s` with `c` put in before column `col`.
pub fn insert_at(s: &str, col: usize, c: char) -> (r: String)
    requires
        col <= s@.len(),
    ensures
        r@ == s@.insert(col as int, c),
{
    let chars = chars_of(s);
    let mut out = string_of(chars.as_slice(), 0, col);
    push_char(&mut out, c);
    let rest = string_of(chars.as_slice(), col, chars.len());
    out.append(rest.as_str());
    proof {
        assert(out@ =~= s@.insert(col as int, c));
    }
    out
}

/// `s` without the character at column `col`.
pub fn remove_at(s: &str, col: usize) -> (r: String)
    requires
        col < s@.len(),
    ensures
        r@ == s@.remove(col as int),
{
    let chars = chars_of(s);
    let n = chars.len();
    let mut out = string_of(chars.as_slice(), 0, col);
    let rest = string_of(chars.as_slice(), col + 1, n);
    out.append(rest.as_str());
    proof {
        assert(out@ =~= s@.remove(col as int));
    }
    out
}

/// What stands in `s` before column `col`, and what stands from it on.
pub fn cut_at(s: &str, col: usize) -> (r: (String, String))
    requires
        col <= s@.len(),
    ensures
        r.0@ == s@.take(col as int),
        r.1@ == s@.skip(col as int),
{
    let chars = chars_of(s);
    let left = string_of(chars.as_slice(), 0, col);
    let right = string_of(chars.as_slice(), col, chars.len());
    proof {
        assert(s@.subrange(0, col as int) =~= s@.take(col as int));
        assert(s@.subrange(col as int, s@.len() as int) =~= s@.skip(col as int));
    }
    (left, right)
}

/// `a`, then `sep`, then `b`.
pub fn glue(a: &str, sep: char, b: &str) -> (r: String)
    ensures
        r@ == a@.push(sep) + b@,
{
    let mut out = String::from_str(a);
    push_char(&mut out, sep);
    out.append(b);
    out
}

/// The text that stands in the bytes `start..end` of the UTF-8 encoding of
/// `s`; nothing where the two are not in this order, reach beyond the
/// encoding, or fall inside the encoding of a character.
pub open spec fn span(s: Seq<char>, start: int, end: int) -> Option<Seq<char>> {
    let bytes = encode_utf8(s);
    if 0 <= start <= end <= bytes.len() && is_char_boundary(bytes, start) && is_char_boundary(
        bytes,
        end,
    ) {
        Some(decode_utf8(bytes.subrange(start, end)))
    } else {
        None
    }
}

/// The part of `s` that stands in its bytes `start..end`, which are bytes
/// of whole characters of `s`; see [`span`].
pub fn byte_part<'a>(s: &'a str, start: usize, end: usize) -> (r: &'a str)
    requires
        span(s@, start as int, end as int) is Some,
    ensures
        Some(r@) == span(s@, start as int, end as int),
{
    let ghost bytes = s.spec_bytes();
    proof {
        encode_utf8_valid_utf8(s@);
        valid_utf8_split(bytes, end as int);
        let head = bytes.subrange(0, end as int);
        if start < end {
            is_char_boundary_iff_not_is_continuation_byte(bytes, start as int);
            is_char_boundary_iff_not_is_continuation_byte(head, start as int);
        } else {
            is_char_boundary_start_end_of_seq(head);
        }
    }
    let (head, _) = s.split_at(end);
    let (_, piece) = head.split_at(start);
    proof {
        assert(piece.spec_bytes() =~= bytes.subrange(start as int, end as int));
        encode_utf8_decode_utf8(piece@);
    }
    piece
}

/// The part of `s` that stands in its bytes `start..end`; see [`span`].
pub fn byte_slice<'a>(s: &'a str, start: usize, end: usize) -> (r: Option<&'a str>)
    ensures
        match span(s@, start as int, end as int) {
            Some(t) => r matches Some(p) && p@ == t,
            None => r is None,
        },
{
    let len = s.as_bytes().len();
    if start <= end && end <= len && s.is_char_boundary(start) && s.is_char_boundary(end) {
        Some(byte_part(s, start, end))
    } else {
        None
    }
}

/// Two spans of bytes that meet make one span: its text is the text of the
/// first, then the text of the second.
pub proof fn lemma_span_concat(s: Seq<char>, a: int, b: int, c: int)
    requires
        span(s, a, b) is Some,
        span(s, b, c) is Some,
    ensures
        span(s, a, c) == Some(span(s, a, b)->Some_0 + span(s, b, c)->Some_0),
{
    let bytes = encode_utf8(s);
    encode_utf8_valid_utf8(s);
    let head = bytes.subrange(0, c);
    valid_utf8_split(bytes, c);
    if a < c {
        is_char_boundary_iff_not_is_continuation_byte(bytes, a);
        is_char_boundary_iff_not_is_continuation_byte(head, a);
    } else {
        is_char_boundary_start_end_of_seq(head);
    }
    valid_utf8_split(head, a);
    let sub = bytes.subrange(a, c);
    assert(head.subrange(a, head.len() as int) =~= sub);
    if a < b < c {
        is_char_boundary_iff_not_is_continuation_byte(bytes, b);
        is_char_boundary_iff_not_is_continuation_byte(sub, b - a);
    } else {
        is_char_boundary_start_end_of_seq(sub);
    }
    decode_utf8_split(sub, b - a);
    assert(sub.subrange(0, b - a) =~= bytes.subrange(a, b));
    assert(sub.subrange(b - a, sub.len() as int) =~= bytes.subrange(b, c));
}

/// The span of all bytes of a text is the text, and the span of none of
/// them, at its start, is empty.
pub proof fn lemma_span_whole(s: Seq<char>)
    ensures
        span(s, 0, encode_utf8(s).len() as int) == Some(s),
        span(s, 0, 0) == Some(Seq::<char>::empty()),
{
    let bytes = encode_utf8(s);
    encode_utf8_valid_utf8(s);
    is_char_boundary_start_end_of_seq(bytes);
    assert(bytes.subrange(0, bytes.len() as int) =~= bytes);
    encode_utf8_decode_utf8(s);
    assert(bytes.subrange(0, 0) =~= Seq::<u8>::empty());
    assert(decode_utf8(Seq::<u8>::empty()) =~= Seq::<char>::empty());
}

/// The number of bytes that the UTF-8 encoding of `c` has.
pub fn utf8_width(c: char) -> (r: usize)
    ensures
        r == encode_scalar(c as u32).len(),
        1 <= r <= 4,
{
    proof {
        char_is_scalar(c);
    }
    let u: u32 = c as u32;
    if u <= 0x7F {
        1
    } else if u <= 0x7FF {
        2
    } else if u <= 0xFFFF {
        3
    } else {
        4
    }
}

/// The encoding of two texts, one after the other, is the encoding of the
/// one followed by the encoding of the other.
pub proof fn lemma_encode_concat(a: Seq<char>, b: Seq<char>)
    ensures
        encode_utf8(a + b) == encode_utf8(a) + encode_utf8(b),
    decreases a.len(),
{
    if a.len() == 0 {
        assert(a + b =~= b);
        assert(encode_utf8(a) + encode_utf8(b) =~= encode_utf8(b));
    } else {
        lemma_encode_concat(a.drop_first(), b);
        assert((a + b).drop_first() =~= a.drop_first() + b);
        assert(encode_utf8(a + b) =~= encode_utf8(a) + encode_utf8(b));
    }
}

/// The encoding of a text with one more character.
pub proof fn lemma_encode_push(a: Seq<char>, c: char)
    ensures
        encode_utf8(a.push(c)) == encode_utf8(a) + encode_scalar(c as u32),
{
    lemma_encode_concat(a, seq![c]);
    assert(a + seq![c] =~= a.push(c));
    assert(seq![c].drop_first() =~= Seq::<char>::empty());
    assert(encode_utf8(Seq::<char>::empty()) =~= Seq::<u8>::empty());
    assert(encode_utf8(seq![c]) == encode_scalar(seq![c][0] as u32) + encode_utf8(
        seq![c].drop_first(),
    ));
    assert(encode_utf8(seq![c]) =~= encode_scalar(c as u32));
}

/// The encoding of a text begins with the encoding of each of its
/// beginnings, which ends where a character ends.
pub proof fn lemma_encode_prefix(s: Seq<char>, i: int)
    requires
        0 <= i <= s.len(),
    ensures
        encode_utf8(s) == encode_utf8(s.take(i)) + encode_utf8(s.skip(i)),
        encode_utf8(s.take(i)).len() <= encode_utf8(s).len(),
        is_char_boundary(encode_utf8(s), encode_utf8(s.take(i)).len() as int),
    decreases i,
{
    assert(s.take(i) + s.skip(i) =~= s);
    lemma_encode_concat(s.take(i), s.skip(i));
    encode_utf8_valid_utf8(s);
    if i > 0 {
        let rest = s.drop_first();
        encode_utf8_first_scalar(s);
        assert(pop_first_scalar(encode_utf8(s)) =~= encode_utf8(rest));
        lemma_encode_prefix(rest, i - 1);
        assert(s.take(i).drop_first() =~= rest.take(i - 1));
        assert(s.take(i)[0] == s[0]);
    }
}

/// The bytes in which the characters `i..j` of a text stand hold just these
/// characters.
pub proof fn lemma_span_of_chars(s: Seq<char>, i: int, j: int)
    requires
        0 <= i <= j <= s.len(),
    ensures
        span(s, encode_utf8(s.take(i)).len() as int, encode_utf8(s.take(j)).len() as int) == Some(
            s.subrange(i, j),
        ),
{
    let bytes = encode_utf8(s);
    let a = encode_utf8(s.take(i));
    let m = encode_utf8(s.subrange(i, j));
    lemma_encode_prefix(s, i);
    lemma_encode_prefix(s, j);
    assert(s.take(j) =~= s.take(i) + s.subrange(i, j));
    lemma_encode_concat(s.take(i), s.subrange(i, j));
    assert(bytes.subrange(a.len() as int, (a.len() + m.len()) as int) =~= m);
    encode_utf8_decode_utf8(s.subrange(i, j));
}

} // verus!
