//! Utilities on strings, seen as sequences of characters.

use vstd::prelude::*;
use vstd::std_specs::iter::IteratorSpec;
use vstd::string::StrSliceExecFns;
use vstd::utf8::encode_scalar;
use vstd::utf8::encode_utf8;
use vstd::utf8::encode_utf8_decode_utf8;
use vstd::utf8::encode_utf8_first_scalar;
use vstd::utf8::encode_utf8_valid_utf8;
use vstd::utf8::is_char_boundary;
use vstd::utf8::pop_first_scalar;

verus! {

/// The character sequences of a list of string slices.
pub open spec fn views(strings: Seq<&str>) -> Seq<Seq<char>> {
    strings.map_values(|s: &str| s@)
}

/// `p` is a prefix of every member of `strings`.
pub open spec fn is_common_prefix(p: Seq<char>, strings: Seq<Seq<char>>) -> bool {
    forall|i: int| 0 <= i < strings.len() ==> p.is_prefix_of(#[trigger] strings[i])
}

/// `p` is a common prefix of `strings`, and no common prefix is longer.
pub open spec fn is_longest_common_prefix(p: Seq<char>, strings: Seq<Seq<char>>) -> bool {
    &&& is_common_prefix(p, strings)
    &&& forall|q: Seq<char>| #[trigger] is_common_prefix(q, strings) ==> q.len() <= p.len()
}

/// The longest common prefix of `strings`; empty for an empty list.
pub open spec fn lcp(strings: Seq<Seq<char>>) -> Seq<char> {
    if strings.len() == 0 {
        Seq::empty()
    } else {
        choose|p: Seq<char>| is_longest_common_prefix(p, strings)
    }
}

/// A non-empty list has exactly one longest common prefix.
pub proof fn lemma_longest_common_prefix_unique(
    p: Seq<char>,
    q: Seq<char>,
    strings: Seq<Seq<char>>,
)
    requires
        strings.len() > 0,
        is_longest_common_prefix(p, strings),
        is_longest_common_prefix(q, strings),
    ensures
        p == q,
{
    assert(p.is_prefix_of(strings[0]));
    assert(q.is_prefix_of(strings[0]));
    assert(p.len() == q.len());
    assert(p =~= q);
}

/// An encoded string has at least as many bytes as it has characters.
pub proof fn lemma_char_count_le_byte_count(s: Seq<char>)
    ensures
        s.len() <= encode_utf8(s).len(),
    decreases s.len(),
{
    if s.len() > 0 {
        lemma_char_count_le_byte_count(s.drop_first());
        assert(encode_scalar(s[0] as u32).len() >= 1);
    }
}

/// The number of bytes that `s` takes in UTF-8.
pub open spec fn byte_len(s: Seq<char>) -> nat {
    encode_utf8(s).len()
}

/// The byte offset at which character `i` of `s` starts; for `i == s.len()`,
/// the offset just past the last byte.
pub open spec fn byte_offset(s: Seq<char>, i: int) -> nat {
    byte_len(s.take(i))
}

/// Encoding distributes over concatenation.
pub proof fn lemma_encode_concat(a: Seq<char>, b: Seq<char>)
    ensures
        encode_utf8(a + b) == encode_utf8(a) + encode_utf8(b),
    decreases a.len(),
{
    if a.len() == 0 {
        assert(a + b =~= b);
        assert(encode_utf8(a) + encode_utf8(b) =~= encode_utf8(b));
    } else {
        lemma_encode_concat(a.drop_first(), b);
        assert((a + b).drop_first() =~= a.drop_first() + b);
        assert(encode_utf8(a + b) =~= encode_utf8(a) + encode_utf8(b));
    }
}

/// Two strings with the same encoding are the same string.
pub proof fn lemma_encode_injective(a: Seq<char>, b: Seq<char>)
    requires
        encode_utf8(a) == encode_utf8(b),
    ensures
        a == b,
{
    encode_utf8_decode_utf8(a);
    encode_utf8_decode_utf8(b);
}

/// Each character moves the byte offset on by the width of its encoding.
pub proof fn lemma_byte_offset_step(s: Seq<char>, i: int)
    requires
        0 <= i < s.len(),
    ensures
        byte_offset(s, i + 1) == byte_offset(s, i) + encode_scalar(s[i] as u32).len(),
        1 <= encode_scalar(s[i] as u32).len() <= 4,
{
    let one = seq![s[i]];
    assert(s.take(i + 1) =~= s.take(i) + one);
    lemma_encode_concat(s.take(i), one);
    assert(one.drop_first() =~= Seq::<char>::empty());
    assert(encode_utf8(one) =~= encode_scalar(s[i] as u32)) by {
        reveal_with_fuel(encode_utf8, 2);
    }
}

/// Byte offsets grow with character indices, and end at the byte length.
pub proof fn lemma_byte_offset_monotone(s: Seq<char>, i: int, j: int)
    requires
        0 <= i <= j <= s.len(),
    ensures
        byte_offset(s, i) <= byte_offset(s, j),
        j - i <= byte_offset(s, j) - byte_offset(s, i),
        byte_offset(s, 0) == 0,
        byte_offset(s, s.len() as int) == byte_len(s),
{
    assert(s.take(j) =~= s.take(i) + s.subrange(i, j));
    lemma_encode_concat(s.take(i), s.subrange(i, j));
    lemma_char_count_le_byte_count(s.subrange(i, j));
    assert(s.take(0) =~= Seq::<char>::empty());
    assert(s.take(s.len() as int) =~= s);
}

/// The bytes between the offsets of two characters encode the characters
/// between them.
pub proof fn lemma_subrange_bytes(s: Seq<char>, i: int, j: int)
    requires
        0 <= i <= j <= s.len(),
    ensures
        encode_utf8(s).subrange(byte_offset(s, i) as int, byte_offset(s, j) as int)
            == encode_utf8(s.subrange(i, j)),
        byte_offset(s, j) <= byte_len(s),
{
    let a = s.take(i);
    let b = s.subrange(i, j);
    let c = s.skip(j);
    assert(s.take(j) =~= a + b);
    assert(s =~= s.take(j) + c);
    lemma_encode_concat(a, b);
    lemma_encode_concat(s.take(j), c);
    assert(encode_utf8(s).subrange(byte_offset(s, i) as int, byte_offset(s, j) as int)
        =~= encode_utf8(b));
}

/// The offset at which a character starts is a character boundary of the
/// encoded string.
pub proof fn lemma_char_boundary(s: Seq<char>, i: int)
    requires
        0 <= i <= s.len(),
    ensures
        is_char_boundary(encode_utf8(s), byte_offset(s, i) as int),
    decreases i,
{
    let bytes = encode_utf8(s);
    encode_utf8_valid_utf8(s);
    if i == 0 {
        assert(s.take(0) =~= Seq::<char>::empty());
    } else {
        let rest = s.drop_first();
        encode_utf8_first_scalar(s);
        assert(pop_first_scalar(bytes) =~= encode_utf8(rest));
        lemma_char_boundary(rest, i - 1);
        assert(s.take(i).drop_first() =~= rest.take(i - 1));
        assert(byte_offset(s, i) == encode_scalar(s[0] as u32).len() + byte_offset(rest, i - 1));
        lemma_byte_offset_monotone(s, i, s.len() as int);
    }
}

/// The number of bytes that `c` takes in UTF-8.
pub fn utf8_width(c: char) -> (w: usize)
    ensures
        w == encode_scalar(c as u32).len(),
        1 <= w <= 4,
{
    let v = c as u32;
    if v < 0x80 {
        1
    } else if v < 0x800 {
        2
    } else if v < 0x10000 {
        3
    } else {
        4
    }
}

/// The part of `text` between two byte offsets at which characters start.
pub(crate) fn slice_between<'a>(
    text: &'a str,
    from: usize,
    to: usize,
    Ghost(i): Ghost<int>,
    Ghost(j): Ghost<int>,
) -> (part: &'a str)
    requires
        0 <= i <= j <= text@.len(),
        from == byte_offset(text@, i),
        to == byte_offset(text@, j),
    ensures
        part@ == text@.subrange(i, j),
{
    proof {
        lemma_char_boundary(text@, j);
        lemma_byte_offset_monotone(text@, i, j);
    }
    let (head, _) = text.split_at(to);
    proof {
        lemma_subrange_bytes(text@, 0, j);
        assert(text@.subrange(0, j) =~= text@.take(j));
        assert(text@.take(0) =~= Seq::<char>::empty());
        lemma_encode_injective(head@, text@.take(j));
        lemma_char_boundary(head@, i);
        assert(head@.take(i) =~= text@.take(i));
    }
    let (_, part) = head.split_at(from);
    proof {
        lemma_subrange_bytes(head@, i, j);
        assert(head@.take(j) =~= head@);
        assert(head@.subrange(i, j) =~= text@.subrange(i, j));
        lemma_encode_injective(part@, text@.subrange(i, j));
    }
    part
}

/// The character sequences of a list of strings.
pub open spec fn string_views(strings: Seq<String>) -> Seq<Seq<char>> {
    strings.map_values(|s: String| s@)
}

/// The test "starts with `prefix`".
pub open spec fn starting_with(prefix: Seq<char>) -> spec_fn(Seq<char>) -> bool {
    |s: Seq<char>| prefix.is_prefix_of(s)
}

/// Filtering a sequence that ends in `x` filters what is before `x`, and
/// keeps `x` if it passes the test.
pub proof fn lemma_filter_push<A>(s: Seq<A>, x: A, pred: spec_fn(A) -> bool)
    ensures
        s.push(x).filter(pred) == if pred(x) {
            s.filter(pred).push(x)
        } else {
            s.filter(pred)
        },
        Seq::<A>::empty().filter(pred) == Seq::<A>::empty(),
{
    reveal_with_fuel(Seq::filter, 2);
    assert(s.push(x).drop_last() =~= s);
}

/// Whether `prefix` is a prefix of `s`, character by character.
pub fn starts_with(s: &str, prefix: &str) -> (r: bool)
    ensures
        r == prefix@.is_prefix_of(s@),
{
    broadcast use vstd::string::group_string_axioms;

    let mut si = s.chars();
    let mut pi = prefix.chars();
    let ghost mut n: int = 0;
    loop
        invariant
            0 <= n <= s@.len(),
            n <= prefix@.len(),
            si.remaining() == s@.skip(n),
            pi.remaining() == prefix@.skip(n),
            s@.take(n) == prefix@.take(n),
        decreases s@.len() - n,
    {
        match pi.next() {
            None => {
                return true;
            },
            Some(p) => {
                match si.next() {
                    None => {
                        return false;
                    },
                    Some(c) => {
                        if c != p {
                            return false;
                        }
                        proof {
                            n = n + 1;
                        }
                    },
                }
            },
        }
    }
}

/// Whether two string slices hold the same characters.
pub fn same_text(a: &str, b: &str) -> (r: bool)
    ensures
        r == (a@ == b@),
{
    broadcast use vstd::string::group_string_axioms;

    let mut ai = a.chars();
    let mut bi = b.chars();
    let ghost mut n: int = 0;
    loop
        invariant
            0 <= n <= a@.len(),
            n <= b@.len(),
            ai.remaining() == a@.skip(n),
            bi.remaining() == b@.skip(n),
            a@.take(n) == b@.take(n),
        decreases a@.len() - n,
    {
        match ai.next() {
            None => {
                let rest = bi.next();
                proof {
                    if rest is None {
                        assert(a@ =~= a@.take(n));
                        assert(b@ =~= b@.take(n));
                    }
                }
                return rest.is_none();
            },
            Some(x) => {
                match bi.next() {
                    None => {
                        return false;
                    },
                    Some(y) => {
                        if x != y {
                            return false;
                        }
                        proof {
                            n = n + 1;
                        }
                    },
                }
            },
        }
    }
}

/// The number of leading characters on which `a` and `b` agree.
pub fn common_prefix_len(a: &str, b: &str) -> (n: usize)
    ensures
        n <= a@.len(),
        n <= b@.len(),
        a@.take(n as int) == b@.take(n as int),
        n == a@.len() || n == b@.len() || a@[n as int] != b@[n as int],
{
    broadcast use vstd::string::group_string_axioms;

    let bound = a.as_bytes().len();
    proof {
        lemma_char_count_le_byte_count(a@);
    }
    let mut ai = a.chars();
    let mut bi = b.chars();
    let mut n: usize = 0;
    loop
        invariant
            n <= a@.len() <= bound,
            n <= b@.len(),
            ai.remaining() == a@.skip(n as int),
            bi.remaining() == b@.skip(n as int),
            a@.take(n as int) == b@.take(n as int),
        decreases a@.len() - n,
    {
        match ai.next() {
            None => {
                return n;
            },
            Some(x) => {
                match bi.next() {
                    None => {
                        return n;
                    },
                    Some(y) => {
                        if x != y {
                            return n;
                        }
                        n = n + 1;
                    },
                }
            },
        }
    }
}

/// The longest string that every member of `strings` starts with.
///
/// The result is a slice of the first member, cut on a character boundary;
/// an empty list gives the empty string.
pub fn longest_common_prefix<'s>(strings: &'s [&'s str]) -> (prefix: &'s str)
    ensures
        strings@.len() == 0 ==> prefix@.len() == 0,
        strings@.len() > 0 ==> is_longest_common_prefix(prefix@, views(strings@)),
        prefix@ == lcp(views(strings@)),
{
    if strings.len() == 0 {
        proof {
            reveal_strlit("");
            assert(""@ =~= Seq::<char>::empty());
        }
        return "";
    }
    let first = strings[0];
    let mut len = first.unicode_len();
    let mut i: usize = 1;
    while i < strings.len()
        invariant
            1 <= i <= strings@.len(),
            first == strings@[0],
            len <= first@.len(),
            forall|j: int| 0 <= j < i ==> first@.take(len as int).is_prefix_of(#[trigger] strings@[j]@),
            len == first@.len() || exists|j: int|
                0 <= j < i && (len == strings@[j]@.len() || first@[len as int] != strings@[j]@[len as int]),
        decreases strings@.len() - i,
    {
        let k = common_prefix_len(first, strings[i]);
        let ghost old_len = len;
        if k < len {
            len = k;
        }
        proof {
            let other = strings@[i as int]@;
            assert forall|j: int| 0 <= j < i + 1 implies first@.take(len as int).is_prefix_of(
                #[trigger] strings@[j]@,
            ) by {
                if j < i {
                    assert(first@.take(old_len as int).is_prefix_of(strings@[j]@));
                    assert(first@.take(len as int) =~= first@.take(old_len as int).take(
                        len as int,
                    ));
                } else {
                    assert(first@.take(len as int) =~= first@.take(k as int).take(len as int));
                    assert(other.take(len as int) =~= other.take(k as int).take(len as int));
                }
            }
        }
        i = i + 1;
    }
    let prefix = first.substring_char(0, len);
    proof {
        let all = views(strings@);
        assert(prefix@ =~= first@.take(len as int));
        assert(is_common_prefix(prefix@, all));
        assert forall|q: Seq<char>| #[trigger] is_common_prefix(q, all) implies q.len()
            <= prefix@.len() by {
            assert(q.is_prefix_of(all[0]));
            if len < first@.len() {
                let j = choose|j: int|
                    0 <= j < i && (len == strings@[j]@.len() || first@[len as int]
                        != strings@[j]@[len as int]);
                assert(q.is_prefix_of(all[j]));
                if q.len() > len {
                    assert(q[len as int] == all[0][len as int]);
                    assert(q[len as int] == all[j][len as int]);
                }
            }
        }
        assert(is_longest_common_prefix(prefix@, all));
        assert(is_longest_common_prefix(lcp(all), all));
        lemma_longest_common_prefix_unique(prefix@, lcp(all), all);
    }
    prefix
}

/// Whether `list` holds a string with the characters of `text`.
pub fn contains_text(list: &Vec<String>, text: &str) -> (r: bool)
    ensures
        r == string_views(list@).contains(text@),
{
    let mut i: usize = 0;
    while i < list.len()
        invariant
            i <= list@.len(),
            forall|j: int| 0 <= j < i ==> string_views(list@)[j] != text@,
        decreases list@.len() - i,
    {
        if same_text(list[i].as_str(), text) {
            assert(string_views(list@)[i as int] == text@);
            return true;
        }
        i = i + 1;
    }
    false
}

} // verus!
