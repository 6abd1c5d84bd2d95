use vstd::prelude::*;

verus! {

/// `needle` occurs in `hay` as a contiguous block of characters.
pub open spec fn is_substring(hay: Seq<char>, needle: Seq<char>) -> bool {
    exists|i: int|
        0 <= i && i + needle.len() <= hay.len() && #[trigger] hay.subrange(
            i,
            i + needle.len(),
        ) == needle
}

/// The characters of an optional string.
pub open spec fn opt_text(o: Option<String>) -> Option<Seq<char>> {
    match o {
        Some(s) => Some(s@),
        None => None,
    }
}

/// The empty text occurs in every text.
pub proof fn lemma_empty_is_substring(hay: Seq<char>)
    ensures
        is_substring(hay, Seq::<char>::empty()),
{
    assert(hay.subrange(0int, 0int + Seq::<char>::empty().len()) =~= Seq::<char>::empty());
}

/// Calls `str::contains` with a string pattern. std documents that it
/// returns true exactly when the pattern matches a sub-slice of the text;
/// both being valid UTF-8, a match of bytes is a match of characters.
#[verifier::external_body]
pub(crate) fn str_contains(hay: &str, needle: &str) -> (r: bool)
    ensures
        r == is_substring(hay@, needle@),
{
    hay.contains(needle)
}

/// Calls `==` of `str`, which std documents as equality of the two texts.
#[verifier::external_body]
pub(crate) fn str_eq(a: &str, b: &str) -> (r: bool)
    ensures
        r == (a@ == b@),
{
    a == b
}

/// The position of the last `.` in `name`, or -1 where it has none.
pub open spec fn last_dot(name: Seq<char>) -> int
    decreases name.len(),
{
    if name.len() == 0 {
        -1
    } else if name.last() == '.' {
        name.len() - 1
    } else {
        last_dot(name.drop_last())
    }
}

/// What follows the last `.` of `name`, where it has one.
pub open spec fn extension_of(name: Seq<char>) -> Option<Seq<char>> {
    if last_dot(name) < 0 {
        None
    } else {
        Some(name.skip(last_dot(name) + 1))
    }
}

/// `last_dot` is -1 exactly where no character is a `.`; otherwise it points
/// at a `.` after which none follows.
pub proof fn lemma_last_dot(name: Seq<char>)
    ensures
        -1 <= last_dot(name) < name.len(),
        last_dot(name) >= 0 ==> name[last_dot(name)] == '.',
        forall|j: int| last_dot(name) < j < name.len() ==> name[j] != '.',
    decreases name.len(),
{
    if name.len() > 0 && name.last() != '.' {
        let front = name.drop_last();
        lemma_last_dot(front);
        assert forall|j: int| last_dot(name) < j < name.len() implies name[j] != '.' by {
            if j < front.len() {
                assert(front[j] == name[j]);
            }
        }
    }
}

/// The extension that a template's name carries.
pub fn infer_extension(name: &str) -> (r: Option<String>)
    ensures
        opt_text(r) == extension_of(name@),
{
    let n: usize = name.unicode_len();
    let mut i: usize = 0;
    let mut dot: Option<usize> = None;
    while i < n
        invariant
            i <= n,
            n == name@.len(),
            match dot {
                Some(d) => d < i && last_dot(name@.take(i as int)) == d,
                None => last_dot(name@.take(i as int)) == -1,
            },
        decreases n - i,
    {
        let c = name.get_char(i);
        proof {
            assert(name@.take(i + 1).drop_last() =~= name@.take(i as int));
            assert(name@.take(i + 1).last() == c);
        }
        if c == '.' {
            dot = Some(i);
        }
        i += 1;
    }
    proof {
        assert(name@.take(n as int) =~= name@);
    }
    match dot {
        None => None,
        Some(d) => {
            let tail = name.substring_char(d + 1, n);
            proof {
                assert(name@.subrange(d + 1, n as int) =~= name@.skip(d + 1));
            }
            Some(String::from_str(tail))
        },
    }
}

/// The length of the first line of `s`, its line feed counted where it has
/// one; 0 for the empty text.
pub open spec fn first_line_len(s: Seq<char>) -> nat
    decreases s.len(),
{
    if s.len() == 0 {
        0
    } else if s[0] == '\n' {
        1
    } else {
        1 + first_line_len(s.skip(1))
    }
}

/// The first line of a text that is not empty is not empty and lies in it.
pub proof fn lemma_first_line_len(s: Seq<char>)
    ensures
        s.len() > 0 ==> 1 <= first_line_len(s) <= s.len(),
        s.len() == 0 ==> first_line_len(s) == 0,
    decreases s.len(),
{
    if s.len() > 0 && s[0] != '\n' {
        lemma_first_line_len(s.skip(1));
    }
}

/// The lines of `s`, each with its line feed: every line but the last ends
/// in one, and the last may or may not.
pub open spec fn split_lines(s: Seq<char>) -> Seq<Seq<char>>
    decreases s.len(),
    via split_lines_decreases
{
    if s.len() == 0 {
        Seq::empty()
    } else {
        seq![s.take(first_line_len(s) as int)] + split_lines(s.skip(first_line_len(s) as int))
    }
}

#[via_fn]
proof fn split_lines_decreases(s: Seq<char>) {
    lemma_first_line_len(s);
}

/// The lines one after another.
pub open spec fn flat(lines: Seq<Seq<char>>) -> Seq<char>
    decreases lines.len(),
{
    if lines.len() == 0 {
        Seq::empty()
    } else {
        flat(lines.drop_last()) + lines.last()
    }
}

/// A line in front of others comes first in what they spell.
pub proof fn lemma_flat_front(first: Seq<char>, rest: Seq<Seq<char>>)
    ensures
        flat(seq![first] + rest) == first + flat(rest),
    decreases rest.len(),
{
    if rest.len() == 0 {
        assert(seq![first] + rest =~= seq![first]);
        assert(seq![first].drop_last() =~= Seq::<Seq<char>>::empty());
        assert(flat(Seq::<Seq<char>>::empty()) =~= Seq::<char>::empty());
        assert(flat(seq![first]) =~= first);
        assert(first + flat(rest) =~= first);
    } else {
        lemma_flat_front(first, rest.drop_last());
        assert((seq![first] + rest).drop_last() =~= seq![first] + rest.drop_last());
        assert((seq![first] + rest).last() == rest.last());
        assert(flat(seq![first] + rest) =~= first + flat(rest));
    }
}

/// Splitting a text into lines loses nothing: the lines spell the text.
pub proof fn lemma_split_lines_flat(s: Seq<char>)
    ensures
        flat(split_lines(s)) == s,
    decreases s.len(),
{
    if s.len() == 0 {
        assert(flat(split_lines(s)) =~= s);
    } else {
        lemma_first_line_len(s);
        let n = first_line_len(s) as int;
        lemma_split_lines_flat(s.skip(n));
        lemma_flat_front(s.take(n), split_lines(s.skip(n)));
        assert(s.take(n) + s.skip(n) =~= s);
    }
}

/// The characters of each piece of text.
pub open spec fn texts_of(v: Seq<&str>) -> Seq<Seq<char>> {
    v.map_values(|s: &str| s@)
}

} // verus!
