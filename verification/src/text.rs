//! Unicode white space, trimming and comparison of text.
//!
//! Text is modelled as a sequence of `char`s. Trimming is defined on that model and computed
//! in a single pass over the characters of a string slice.

use vstd::prelude::*;
use vstd::std_specs::iter::IteratorSpec;
use vstd::utf8::*;

verus! {

/// The code points that carry the Unicode property `White_Space`.
pub open spec fn white_space(c: char) -> bool {
    let u = c as u32;
    ||| 0x09 <= u <= 0x0D
    ||| u == 0x20
    ||| u == 0x85
    ||| u == 0xA0
    ||| u == 0x1680
    ||| 0x2000 <= u <= 0x200A
    ||| u == 0x2028
    ||| u == 0x2029
    ||| u == 0x202F
    ||| u == 0x205F
    ||| u == 0x3000
}

/// Tells whether `c` is white space.
pub fn is_whitespace(c: char) -> (b: bool)
    ensures
        b == white_space(c),
{
    let u: u32 = c as u32;
    (0x09 <= u && u <= 0x0D) || u == 0x20 || u == 0x85 || u == 0xA0 || u == 0x1680 || (0x2000 <= u
        && u <= 0x200A) || u == 0x2028 || u == 0x2029 || u == 0x202F || u == 0x205F || u == 0x3000
}

/// `s` without its leading white space.
pub open spec fn trim_start(s: Seq<char>) -> Seq<char>
    decreases s.len(),
{
    if s.len() > 0 && white_space(s.first()) {
        trim_start(s.drop_first())
    } else {
        s
    }
}

/// `s` without its trailing white space.
pub open spec fn trim_end(s: Seq<char>) -> Seq<char>
    decreases s.len(),
{
    if s.len() > 0 && white_space(s.last()) {
        trim_end(s.drop_last())
    } else {
        s
    }
}

/// `s` without its leading and trailing white space.
pub open spec fn trimmed(s: Seq<char>) -> Seq<char> {
    trim_end(trim_start(s))
}

/// Every character of `s` is white space.
pub open spec fn all_white_space(s: Seq<char>) -> bool {
    forall|i: int| 0 <= i < s.len() ==> white_space(#[trigger] s[i])
}

/// The leading white space that `trim_start` removes: the returned `a` is the number of
/// characters removed; they are all white space, and the character after them, if there is
/// one, is not.
pub proof fn lemma_trim_start_shape(s: Seq<char>) -> (a: int)
    ensures
        0 <= a <= s.len(),
        all_white_space(s.take(a)),
        a < s.len() ==> !white_space(s[a]),
        trim_start(s) == s.skip(a),
    decreases s.len(),
{
    if s.len() > 0 && white_space(s.first()) {
        let rest = s.drop_first();
        let r = lemma_trim_start_shape(rest);
        assert forall|i: int| 0 <= i < s.take(r + 1).len() implies white_space(
            #[trigger] s.take(r + 1)[i],
        ) by {
            if i > 0 {
                assert(rest.take(r)[i - 1] == s[i]);
            }
        }
        assert(rest.skip(r) =~= s.skip(r + 1));
        r + 1
    } else {
        assert(s.skip(0) =~= s);
        0
    }
}

/// The trailing white space that `trim_end` removes: the returned `b` is the number of
/// characters kept; those after them are all white space, and the last one kept, if there is
/// one, is not.
pub proof fn lemma_trim_end_shape(s: Seq<char>) -> (b: int)
    ensures
        0 <= b <= s.len(),
        all_white_space(s.skip(b)),
        0 < b ==> !white_space(s[b - 1]),
        trim_end(s) == s.take(b),
    decreases s.len(),
{
    if s.len() > 0 && white_space(s.last()) {
        let rest = s.drop_last();
        let b = lemma_trim_end_shape(rest);
        assert forall|i: int| 0 <= i < s.skip(b).len() implies white_space(
            #[trigger] s.skip(b)[i],
        ) by {
            if b + i < rest.len() {
                assert(rest.skip(b)[i] == s[b + i]);
            }
        }
        assert(rest.take(b) =~= s.take(b));
        b
    } else {
        assert(s.take(s.len() as int) =~= s);
        s.len() as int
    }
}

/// Trimming cuts a text in three: white space, the trimmed text, white space. The returned
/// pair gives the two cuts; the trimmed text between them is empty or starts and ends with a
/// character that is not white space.
pub proof fn lemma_trimmed_shape(s: Seq<char>) -> (cuts: (int, int))
    ensures
        0 <= cuts.0 <= cuts.1 <= s.len(),
        all_white_space(s.take(cuts.0)),
        all_white_space(s.skip(cuts.1)),
        cuts.0 < cuts.1 ==> !white_space(s[cuts.0]) && !white_space(s[cuts.1 - 1]),
        trimmed(s) == s.subrange(cuts.0, cuts.1),
        s == s.take(cuts.0) + trimmed(s) + s.skip(cuts.1),
{
    let a = lemma_trim_start_shape(s);
    let t = s.skip(a);
    let k = lemma_trim_end_shape(t);
    let b = a + k;
    assert(t.skip(k) =~= s.skip(b));
    assert(t.take(k) =~= s.subrange(a, b));
    if k > 0 {
        assert(t[k - 1] == s[b - 1]);
    }
    assert(s =~= s.take(a) + s.subrange(a, b) + s.skip(b));
    (a, b)
}

/// White space around a text is what trimming removes: where `core` is empty or starts and
/// ends with a character that is not white space, and `before` and `after` are white space,
/// trimming `before + core + after` gives `core`.
pub proof fn lemma_trimmed_of_padded(before: Seq<char>, core: Seq<char>, after: Seq<char>)
    requires
        all_white_space(before),
        all_white_space(after),
        core.len() > 0 ==> !white_space(core.first()) && !white_space(core.last()),
    ensures
        trimmed(before + core + after) == core,
{
    let s = before + core + after;
    let a = before.len() as int;
    let b = a + core.len();
    assert(s.take(a) =~= before);
    assert(s.skip(b) =~= after);
    assert(s.subrange(a, b) =~= core);
    if a < b {
        assert(s[a] == core.first());
        assert(s[b - 1] == core.last());
    }
    lemma_trimmed_is_subrange(s, a, b);
}

/// Dropping `a` leading white-space characters is all that `trim_start` does when the
/// character after them, if there is one, is not white space.
pub proof fn lemma_trim_start(s: Seq<char>, a: int)
    requires
        0 <= a <= s.len(),
        all_white_space(s.take(a)),
        a < s.len() ==> !white_space(s[a]),
    ensures
        trim_start(s) == s.skip(a),
    decreases a,
{
    if a == 0 {
        assert(s.skip(0) =~= s);
    } else {
        assert(s.take(a)[0] == s[0]);
        let rest = s.drop_first();
        assert forall|i: int| 0 <= i < rest.take(a - 1).len() implies white_space(
            #[trigger] rest.take(a - 1)[i],
        ) by {
            assert(rest.take(a - 1)[i] == s.take(a)[i + 1]);
        }
        lemma_trim_start(rest, a - 1);
        assert(rest.skip(a - 1) =~= s.skip(a));
    }
}

/// Keeping the first `b` characters is all that `trim_end` does when the characters after
/// them are white space and the one before them, if there is one, is not.
pub proof fn lemma_trim_end(s: Seq<char>, b: int)
    requires
        0 <= b <= s.len(),
        all_white_space(s.skip(b)),
        0 < b ==> !white_space(s[b - 1]),
    ensures
        trim_end(s) == s.take(b),
    decreases s.len() - b,
{
    if b == s.len() {
        assert(s.take(b) =~= s);
    } else {
        assert(s.skip(b)[s.len() - b - 1] == s.last());
        let rest = s.drop_last();
        assert forall|i: int| 0 <= i < rest.skip(b).len() implies white_space(
            #[trigger] rest.skip(b)[i],
        ) by {
            assert(rest.skip(b)[i] == s.skip(b)[i]);
        }
        lemma_trim_end(rest, b);
        assert(rest.take(b) =~= s.take(b));
    }
}

/// The trimmed text is the stretch between the leading and the trailing white space: where
/// `s[a..b]` is empty or starts and ends with a character that is not white space, and all
/// that surrounds it is white space, `trimmed(s)` is `s[a..b]`.
pub proof fn lemma_trimmed_is_subrange(s: Seq<char>, a: int, b: int)
    requires
        0 <= a <= b <= s.len(),
        all_white_space(s.take(a)),
        all_white_space(s.skip(b)),
        a < b ==> !white_space(s[a]) && !white_space(s[b - 1]),
    ensures
        trimmed(s) == s.subrange(a, b),
{
    if a < b {
        lemma_trim_start(s, a);
        let t = s.skip(a);
        assert forall|i: int| 0 <= i < t.skip(b - a).len() implies white_space(
            #[trigger] t.skip(b - a)[i],
        ) by {
            assert(t.skip(b - a)[i] == s.skip(b)[i]);
        }
        assert(t[b - a - 1] == s[b - 1]);
        lemma_trim_end(t, b - a);
        assert(t.take(b - a) =~= s.subrange(a, b));
    } else {
        assert forall|i: int| 0 <= i < s.len() implies white_space(#[trigger] s[i]) by {
            if i < a {
                assert(s.take(a)[i] == s[i]);
            } else {
                assert(s.skip(b)[i - b] == s[i]);
            }
        }
        assert(s.take(s.len() as int) =~= s);
        lemma_trim_start(s, s.len() as int);
        assert(s.skip(s.len() as int) =~= Seq::<char>::empty());
        assert(s.subrange(a, b) =~= Seq::<char>::empty());
    }
}

/// A text has at most as many characters as its UTF-8 encoding has bytes.
pub proof fn lemma_chars_within_bytes(s: Seq<char>)
    ensures
        s.len() <= encode_utf8(s).len(),
    decreases s.len(),
{
    if s.len() > 0 {
        lemma_chars_within_bytes(s.drop_first());
    }
}

/// The part of `s` that is left when leading and trailing white space is removed.
pub fn trim(s: &str) -> (t: &str)
    ensures
        t@ == trimmed(s@),
{
    // The number of bytes bounds the number of characters, so the counters cannot overflow.
    let byte_len: usize = s.as_bytes().len();
    proof {
        lemma_chars_within_bytes(s@);
    }
    // `at` counts the characters seen. `start..end` runs from the first to the last of them
    // that is not white space; as long as there is none, both stand at `at`.
    let mut chars = s.chars();
    let mut at: usize = 0;
    let mut start: usize = 0;
    let mut end: usize = 0;
    loop
        invariant
            s@.len() <= byte_len,
            at <= s@.len(),
            chars.remaining() == s@.skip(at as int),
            start <= end <= at,
            all_white_space(s@.take(start as int)),
            all_white_space(s@.subrange(end as int, at as int)),
            start < end ==> !white_space(s@[start as int]) && !white_space(s@[end - 1]),
            start == end ==> start == at,
        ensures
            at == s@.len(),
            start <= end <= at,
            all_white_space(s@.take(start as int)),
            all_white_space(s@.subrange(end as int, at as int)),
            start < end ==> !white_space(s@[start as int]) && !white_space(s@[end - 1]),
        decreases s@.len() - at,
    {
        match chars.next() {
            None => {
                break ;
            },
            Some(c) => {
                assert(c == s@[at as int]);
                let ghost before = at;
                let ghost old_start = start;
                let ghost old_end = end;
                if is_whitespace(c) {
                    if start == end {
                        start = at + 1;
                        end = at + 1;
                    }
                } else {
                    if start == end {
                        start = at;
                    }
                    end = at + 1;
                }
                at = at + 1;
                proof {
                    assert(s@.skip(before as int).drop_first() =~= s@.skip(at as int));
                    assert forall|i: int| 0 <= i < s@.take(start as int).len() implies white_space(
                        #[trigger] s@.take(start as int)[i],
                    ) by {
                        if i < old_start {
                            assert(s@.take(old_start as int)[i] == s@[i]);
                        }
                    }
                    assert forall|i: int|
                        0 <= i < s@.subrange(end as int, at as int).len() implies white_space(
                        #[trigger] s@.subrange(end as int, at as int)[i],
                    ) by {
                        if end == old_end && end + i < before {
                            assert(s@.subrange(old_end as int, before as int)[i] == s@[end + i]);
                        }
                    }
                }
            },
        }
    }
    proof {
        assert(s@.subrange(end as int, at as int) =~= s@.skip(end as int));
        lemma_trimmed_is_subrange(s@, start as int, end as int);
    }
    s.substring_char(start, end)
}

/// Two texts are the same exactly when their UTF-8 encodings are.
pub proof fn lemma_same_text_same_bytes(a: Seq<char>, b: Seq<char>)
    ensures
        a == b <==> encode_utf8(a) == encode_utf8(b),
{
    encode_utf8_decode_utf8(a);
    encode_utf8_decode_utf8(b);
}

/// Tells whether two texts hold the same characters.
pub fn same_text(a: &str, b: &str) -> (same: bool)
    ensures
        same == (a@ == b@),
{
    let x = a.as_bytes();
    let y = b.as_bytes();
    proof {
        lemma_same_text_same_bytes(a@, b@);
    }
    if x.len() != y.len() {
        return false;
    }
    let mut i: usize = 0;
    while i < x.len()
        invariant
            i <= x@.len(),
            x@.len() == y@.len(),
            x@.take(i as int) == y@.take(i as int),
            a@ == b@ <==> x@ == y@,
        decreases x@.len() - i,
    {
        if x[i] != y[i] {
            return false;
        }
        proof {
            assert(x@.take(i + 1) =~= x@.take(i as int).push(x@[i as int]));
            assert(y@.take(i + 1) =~= y@.take(i as int).push(y@[i as int]));
        }
        i = i + 1;
    }
    proof {
        assert(x@ =~= x@.take(i as int));
        assert(y@ =~= y@.take(i as int));
    }
    true
}

/// A text ends its line: it is not empty and its last character is a line feed.
pub open spec fn ends_line(s: Seq<char>) -> bool {
    s.len() > 0 && s.last() == '\n'
}

/// The UTF-8 encoding of a text made of two parts is the encoding of the first part followed
/// by the encoding of the second.
pub proof fn lemma_encode_concat(a: Seq<char>, b: Seq<char>)
    ensures
        encode_utf8(a + b) == encode_utf8(a) + encode_utf8(b),
    decreases a.len(),
{
    if a.len() == 0 {
        assert(a + b =~= b);
    } else {
        assert((a + b).drop_first() =~= a.drop_first() + b);
        lemma_encode_concat(a.drop_first(), b);
        assert(encode_utf8(a + b) =~= encode_utf8(a) + encode_utf8(b));
    }
}

/// The last byte of a scalar's UTF-8 encoding is the byte of a line feed only for the line
/// feed itself.
proof fn lemma_scalar_last_byte(c: u32)
    requires
        is_scalar(c),
    ensures
        encode_scalar(c).len() >= 1,
        encode_scalar(c).last() == 0x0Au8 <==> c == 0x0A,
{
    if has_width_1_encoding(c) {
        assert(((c & 0x7F) as u8 == 0x0Au8) <==> c == 0x0A) by (bit_vector)
            requires
                c <= 0x7F,
        ;
    } else {
        assert((0x80u8 | (c & 0x3F) as u8) != 0x0Au8) by (bit_vector);
    }
}

/// A non-empty text ends with a line feed exactly when its UTF-8 encoding ends with the byte
/// of a line feed.
pub proof fn lemma_last_byte_line_feed(s: Seq<char>)
    requires
        s.len() > 0,
    ensures
        encode_utf8(s).len() > 0,
        encode_utf8(s).last() == 0x0Au8 <==> s.last() == '\n',
{
    let c = s.last();
    let one = seq![c];
    assert(s =~= s.drop_last() + one);
    lemma_encode_concat(s.drop_last(), one);
    assert(encode_utf8(one) =~= encode_scalar(c as u32)) by {
        reveal_with_fuel(encode_utf8, 2);
    }
    char_is_scalar(c);
    lemma_scalar_last_byte(c as u32);
    let front = encode_utf8(s.drop_last());
    let back = encode_scalar(c as u32);
    assert(encode_utf8(s) == front + back);
    assert((front + back).last() == back.last());
    assert(c as u32 == 0x0A <==> c == '\n') by {
        char_u32_cast(c, c as u32);
        char_u32_cast('\n', 0x0Au32);
    }
}

/// Tells whether `s` ends with a line feed.
pub fn ends_with_line_feed(s: &str) -> (b: bool)
    ensures
        b == ends_line(s@),
{
    let bytes = s.as_bytes();
    let n: usize = bytes.len();
    proof {
        lemma_chars_within_bytes(s@);
        if s@.len() > 0 {
            lemma_last_byte_line_feed(s@);
        }
    }
    n > 0 && bytes[n - 1] == 0x0A
}

} // verus!
