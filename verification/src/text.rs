//! Texts as sequences of characters: runs of a character class, the first
//! token, the first line, and the executable scans that find them.

use crate::chars::{spec_is_whitespace, spec_utf8_width, utf8_width, CharClass};
use vstd::prelude::*;
use vstd::utf8::encode_utf8;

verus! {

/// The length of the longest prefix of `s` whose characters all belong to
/// `class`.
pub open spec fn run_length(s: Seq<char>, class: CharClass) -> nat
    decreases s.len(),
{
    if s.len() > 0 && class.spec_contains(s[0]) {
        1 + run_length(s.drop_first(), class)
    } else {
        0
    }
}

/// `s` without its leading white space.
pub open spec fn trim_start(s: Seq<char>) -> Seq<char> {
    s.skip(run_length(s, CharClass::Whitespace) as int)
}

/// The first token of `s`: the longest run of characters that are not white
/// space, after the leading white space. It is empty exactly when `s` holds
/// nothing but white space.
pub open spec fn first_token(s: Seq<char>) -> Seq<char> {
    let rest = trim_start(s);
    rest.take(run_length(rest, CharClass::NonWhitespace) as int)
}

/// The first line of `s`: what stands before the first line feed, or all of
/// `s` when it has none.
pub open spec fn first_line(s: Seq<char>) -> Seq<char> {
    s.take(run_length(s, CharClass::NonNewline) as int)
}

/// The number of bytes that `s` takes in UTF-8.
pub open spec fn utf8_len(s: Seq<char>) -> nat {
    encode_utf8(s).len()
}

/// `s` without the shortest prefix that takes at least `bytes` bytes in UTF-8;
/// empty when all of `s` takes fewer. Where a character boundary of the
/// encoding lies `bytes` bytes in, this is what follows that boundary.
pub open spec fn drop_bytes(s: Seq<char>, bytes: nat) -> Seq<char>
    decreases s.len(),
{
    if bytes == 0 || s.len() == 0 {
        s
    } else {
        let width = spec_utf8_width(s[0]);
        drop_bytes(s.drop_first(), if width < bytes { (bytes - width) as nat } else { 0 })
    }
}

/// Whether `s` holds nothing but white space.
pub open spec fn is_blank(s: Seq<char>) -> bool {
    forall|i: int| 0 <= i < s.len() ==> spec_is_whitespace(#[trigger] s[i])
}

/// A run is a prefix, its characters belong to the class, and the character
/// that follows it, if any, does not.
pub proof fn lemma_run_length(s: Seq<char>, class: CharClass)
    ensures
        run_length(s, class) <= s.len(),
        forall|i: int| 0 <= i < run_length(s, class) ==> class.spec_contains(#[trigger] s[i]),
        run_length(s, class) < s.len() ==> !class.spec_contains(s[run_length(s, class) as int]),
    decreases s.len(),
{
    if s.len() > 0 && class.spec_contains(s[0]) {
        let tail = s.drop_first();
        lemma_run_length(tail, class);
        assert forall|i: int| 0 <= i < run_length(s, class) implies class.spec_contains(
            #[trigger] s[i],
        ) by {
            if i > 0 {
                assert(s[i] == tail[i - 1]);
            }
        }
        if run_length(s, class) < s.len() {
            assert(s[run_length(s, class) as int] == tail[run_length(tail, class) as int]);
        }
    }
}

/// The properties of `lemma_run_length` hold of one length only.
pub proof fn lemma_run_length_unique(s: Seq<char>, class: CharClass, n: int)
    requires
        0 <= n <= s.len(),
        forall|i: int| 0 <= i < n ==> class.spec_contains(#[trigger] s[i]),
        n < s.len() ==> !class.spec_contains(s[n]),
    ensures
        run_length(s, class) == n,
{
    lemma_run_length(s, class);
    let r = run_length(s, class) as int;
    if r < n {
        assert(class.spec_contains(s[r]));
    } else if n < r {
        assert(class.spec_contains(s[n]));
    }
}

/// A text has a first token unless it is blank. The token stands after
/// white space alone, holds no white space, and ends where the text ends or
/// white space follows.
pub proof fn lemma_first_token(s: Seq<char>)
    ensures
        first_token(s).len() == 0 <==> is_blank(s),
        ({
            let start = run_length(s, CharClass::Whitespace) as int;
            let end = start + first_token(s).len();
            &&& end <= s.len()
            &&& first_token(s) == s.subrange(start, end)
            &&& is_blank(s.take(start))
            &&& forall|i: int| start <= i < end ==> !spec_is_whitespace(#[trigger] s[i])
            &&& end < s.len() ==> spec_is_whitespace(s[end])
        }),
{
    let start = run_length(s, CharClass::Whitespace) as int;
    let rest = trim_start(s);
    lemma_run_length(s, CharClass::Whitespace);
    lemma_run_length(rest, CharClass::NonWhitespace);
    let end = start + first_token(s).len();
    assert(first_token(s) == s.subrange(start, end));
    assert forall|i: int| start <= i < end implies !spec_is_whitespace(#[trigger] s[i]) by {
        assert(s[i] == rest[i - start]);
    }
    if end < s.len() {
        assert(s[end] == rest[end - start]);
    }
    if start < s.len() {
        assert(s[start] == rest[0]);
        assert(!is_blank(s));
    }
}

/// The first character of a text takes its own width, and the rest takes
/// what is left.
proof fn lemma_utf8_len_step(s: Seq<char>, k: int)
    requires
        0 < k <= s.len(),
    ensures
        utf8_len(s.take(k)) == spec_utf8_width(s[0]) + utf8_len(s.drop_first().take(k - 1)),
{
    assert(s.take(k).drop_first() == s.drop_first().take(k - 1));
}

/// What `drop_bytes` drops is the shortest prefix that takes `bytes` bytes or
/// more, or the whole text when there is no such prefix.
pub proof fn lemma_drop_bytes(s: Seq<char>, bytes: nat)
    ensures
        drop_bytes(s, bytes).len() <= s.len(),
        ({
            let k = s.len() - drop_bytes(s, bytes).len();
            &&& drop_bytes(s, bytes) == s.skip(k)
            &&& k > 0 ==> utf8_len(s.take(k - 1)) < bytes
            &&& k < s.len() ==> utf8_len(s.take(k)) >= bytes
        }),
    decreases s.len(),
{
    if bytes == 0 || s.len() == 0 {
        assert(s.skip(0) == s);
    } else {
        let tail = s.drop_first();
        let width = spec_utf8_width(s[0]);
        let left: nat = if width < bytes {
            (bytes - width) as nat
        } else {
            0
        };
        lemma_drop_bytes(tail, left);
        let k = s.len() - drop_bytes(s, bytes).len();
        assert(tail.skip(k - 1) == s.skip(k));
        if k > 1 {
            lemma_utf8_len_step(s, k - 1);
        }
        if k < s.len() {
            lemma_utf8_len_step(s, k);
        }
    }
}

/// Where the first `k` characters of `s` take exactly `bytes` bytes, to drop
/// `bytes` bytes is to drop those characters.
pub proof fn lemma_drop_bytes_at_boundary(s: Seq<char>, k: int)
    requires
        0 <= k <= s.len(),
    ensures
        drop_bytes(s, utf8_len(s.take(k))) == s.skip(k),
    decreases k,
{
    if k == 0 {
        assert(s.skip(0) == s);
    } else {
        let tail = s.drop_first();
        lemma_utf8_len_step(s, k);
        lemma_drop_bytes_at_boundary(tail, k - 1);
        assert(tail.skip(k - 1) == s.skip(k));
    }
}

/// A text holds a line feed exactly when its first line ends before the text
/// does; the line feed then stands right behind the line.
pub proof fn lemma_first_line(s: Seq<char>)
    ensures
        first_line(s).len() <= s.len(),
        first_line(s) == s.take(first_line(s).len() as int),
        !first_line(s).contains('\n'),
        s.contains('\n') <==> first_line(s).len() < s.len(),
        s.contains('\n') ==> s[first_line(s).len() as int] == '\n',
{
    lemma_run_length(s, CharClass::NonNewline);
}

/// The characters of `s`, in order.
pub fn chars_of(s: &str) -> (chars: Vec<char>)
    ensures
        chars@ == s@,
{
    let mut chars: Vec<char> = Vec::new();
    for c in it: s.chars()
        invariant
            it.seq() == s@,
            chars@ == it.seq().take(it.index() as int),
    {
        chars.push(c);
    }
    chars
}

/// Tells whether `chars[from..to]` spells `word`.
pub fn spells(chars: &[char], from: usize, to: usize, word: &str) -> (b: bool)
    requires
        from <= to <= chars.len(),
    ensures
        b == (chars@.subrange(from as int, to as int) == word@),
{
    if to - from != word.unicode_len() {
        return false;
    }
    let mut at: usize = from;
    for c in it: word.chars()
        invariant
            it.seq() == word@,
            from <= to <= chars.len(),
            to - from == word@.len(),
            at == from + it.index(),
            chars@.subrange(from as int, at as int) == word@.take(it.index() as int),
    {
        if chars[at] != c {
            assert(chars@.subrange(from as int, to as int)[at - from] != word@[at - from]);
            return false;
        }
        at += 1;
        assert(chars@.subrange(from as int, at as int) == chars@.subrange(
            from as int,
            at - 1,
        ).push(c));
        assert(word@.take(it.index() + 1) == word@.take(it.index() as int).push(c));
    }
    assert(word@.take(word@.len() as int) == word@);
    true
}

/// Scans `chars[from..to]` for the end of the run of `class` that begins at
/// `from`.
pub fn scan(chars: &[char], from: usize, to: usize, class: CharClass) -> (end: usize)
    requires
        from <= to <= chars.len(),
    ensures
        from <= end <= to,
        end - from == run_length(chars@.subrange(from as int, to as int), class),
{
    let mut end: usize = from;
    while end < to && class.contains(chars[end])
        invariant
            from <= end <= to <= chars.len(),
            forall|i: int| from <= i < end ==> class.spec_contains(#[trigger] chars@[i]),
        decreases to - end,
    {
        end += 1;
    }
    proof {
        lemma_run_length_unique(chars@.subrange(from as int, to as int), class, end - from);
    }
    end
}

/// Steps over the characters of `chars[from..to]` that make up the first
/// `bytes` bytes of its UTF-8 encoding.
pub fn skip_bytes(chars: &[char], from: usize, to: usize, bytes: usize) -> (at: usize)
    requires
        from <= to <= chars.len(),
    ensures
        from <= at <= to,
        chars@.subrange(at as int, to as int) == drop_bytes(
            chars@.subrange(from as int, to as int),
            bytes as nat,
        ),
{
    let mut at: usize = from;
    let mut left: usize = bytes;
    while at < to && left > 0
        invariant
            from <= at <= to <= chars.len(),
            drop_bytes(chars@.subrange(at as int, to as int), left as nat) == drop_bytes(
                chars@.subrange(from as int, to as int),
                bytes as nat,
            ),
        decreases to - at,
    {
        let width: usize = utf8_width(chars[at]);
        proof {
            assert(chars@.subrange(at as int, to as int).drop_first() == chars@.subrange(
                at + 1,
                to as int,
            ));
        }
        left = if width < left { left - width } else { 0 };
        at += 1;
    }
    at
}

} // verus!
