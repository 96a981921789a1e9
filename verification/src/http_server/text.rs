//! Working with text: comparing it, cutting ASCII text into the pieces
//! between separators, and taking the blanks around it away.

use vstd::prelude::*;
use vstd::string::{StrSliceExecFns, StringSliceAdditionalSpecFns};

verus! {

/// Pairs of name and value as plain values.
pub open spec fn pairs_view(pairs: Seq<(String, String)>) -> Seq<(Seq<char>, Seq<char>)> {
    Seq::new(pairs.len(), |i: int| (pairs[i].0@, pairs[i].1@))
}

/// The pairs that stay when those with the name `name` leave, in their order.
pub open spec fn without(pairs: Seq<(Seq<char>, Seq<char>)>, name: Seq<char>) -> Seq<
    (Seq<char>, Seq<char>),
>
    decreases pairs.len(),
{
    if pairs.len() == 0 {
        Seq::empty()
    } else if pairs.last().0 == name {
        without(pairs.drop_last(), name)
    } else {
        without(pairs.drop_last(), name).push(pairs.last())
    }
}

/// Calls `str::contains` with the NUL character. Trusted: the answer says
/// whether the text holds one.
#[verifier::external_body]
pub(crate) fn holds_nul(text: &str) -> (b: bool)
    ensures
        b == text@.contains('\0'),
{
    text.contains('\0')
}

/// Whether two texts hold the same bytes.
pub fn same_bytes(a: &[u8], b: &[u8]) -> (same: bool)
    ensures
        same == (a@ == b@),
{
    if a.len() != b.len() {
        return false;
    }
    let mut i: usize = 0;
    while i < a.len()
        invariant
            i <= a@.len(),
            a@.len() == b@.len(),
            a@.take(i as int) == b@.take(i as int),
        decreases a@.len() - i,
    {
        if a[i] != b[i] {
            assert(a@[i as int] != b@[i as int]);
            return false;
        }
        assert(a@.take(i + 1) =~= a@.take(i as int).push(a@[i as int]));
        assert(b@.take(i + 1) =~= b@.take(i as int).push(b@[i as int]));
        i = i + 1;
    }
    assert(a@.take(i as int) =~= a@);
    assert(b@.take(i as int) =~= b@);
    true
}

/// Whether two texts hold the same characters: they do where their bytes
/// are the same.
pub fn same_text(a: &str, b: &str) -> (same: bool)
    ensures
        same == (a@ == b@),
{
    proof {
        vstd::utf8::encode_utf8_decode_utf8(a@);
        vstd::utf8::encode_utf8_decode_utf8(b@);
    }
    same_bytes(a.as_bytes(), b.as_bytes())
}

/// The pieces of a text between the occurrences of a separator, in their
/// order: one more than there are separators, some of them empty.
pub open spec fn split_on(text: Seq<char>, sep: char) -> Seq<Seq<char>>
    decreases text.len(),
{
    if text.len() == 0 {
        seq![Seq::<char>::empty()]
    } else {
        let before = split_on(text.drop_last(), sep);
        if text.last() == sep {
            before.push(Seq::<char>::empty())
        } else {
            before.drop_last().push(before.last().push(text.last()))
        }
    }
}

/// A text has at least one piece.
pub proof fn lemma_split_nonempty(text: Seq<char>, sep: char)
    ensures
        split_on(text, sep).len() >= 1,
    decreases text.len(),
{
    if text.len() > 0 {
        lemma_split_nonempty(text.drop_last(), sep);
    }
}

/// The blanks of ASCII.
pub open spec fn is_blank(c: char) -> bool {
    c == ' ' || c == '\t' || c == '\n' || c == '\r' || c == '\u{b}' || c == '\u{c}'
}

/// A text without the blanks at its start.
pub open spec fn trim_start(text: Seq<char>) -> Seq<char>
    decreases text.len(),
{
    if text.len() > 0 && is_blank(text[0]) {
        trim_start(text.drop_first())
    } else {
        text
    }
}

/// A text without the blanks at its end.
pub open spec fn trim_end(text: Seq<char>) -> Seq<char>
    decreases text.len(),
{
    if text.len() > 0 && is_blank(text.last()) {
        trim_end(text.drop_last())
    } else {
        text
    }
}

/// A text without the blanks around it.
pub open spec fn trimmed(text: Seq<char>) -> Seq<char> {
    trim_end(trim_start(text))
}

/// The texts of a list as plain values.
pub open spec fn slices(list: Seq<&str>) -> Seq<Seq<char>> {
    Seq::new(list.len(), |i: int| list[i]@)
}

/// Whether a text is made of the printable characters of ASCII and
/// tabulators alone.
pub open spec fn visible_ascii(text: Seq<char>) -> bool {
    forall|i: int| 0 <= i < text.len() ==> is_visible(#[trigger] text[i])
}

/// The printable characters of ASCII, and the tabulator.
pub open spec fn is_visible(c: char) -> bool {
    (' ' <= c && c <= '~') || c == '\t'
}

/// Whether a text is made of the printable characters of ASCII and
/// tabulators alone.
pub fn is_visible_ascii(text: &str) -> (ok: bool)
    ensures
        ok == visible_ascii(text@),
        ok ==> text.is_ascii(),
{
    if !text.is_ascii() {
        proof {
            if visible_ascii(text@) {
                assert forall|i: int| 0 <= i < text@.len() implies '\0' <= #[trigger] text@[i]
                    <= '\u{7f}' by {
                    assert(is_visible(text@[i]));
                }
            }
        }
        return false;
    }
    let n = text.unicode_len();
    let mut i: usize = 0;
    while i < n
        invariant
            i <= n,
            n == text@.len(),
            text.is_ascii(),
            forall|k: int| 0 <= k < i ==> is_visible(#[trigger] text@[k]),
        decreases n - i,
    {
        let b = text.get_ascii(i);
        if !((32 <= b && b <= 126) || b == 9) {
            assert(!is_visible(text@[i as int]));
            return false;
        }
        assert(is_visible(text@[i as int]));
        i = i + 1;
    }
    true
}

/// Cuts an ASCII text at each occurrence of an ASCII separator: see
/// `split_on`.
pub fn split<'a>(text: &'a str, sep: u8) -> (parts: Vec<&'a str>)
    requires
        text.is_ascii(),
        sep < 128,
    ensures
        slices(parts@) == split_on(text@, sep as char),
        forall|i: int| 0 <= i < parts@.len() ==> (#[trigger] parts@[i]).is_ascii(),
{
    let n = text.unicode_len();
    let mut parts: Vec<&'a str> = Vec::new();
    let mut start: usize = 0;
    let mut i: usize = 0;
    proof {
        assert(text@.take(0) =~= Seq::<char>::empty());
        assert(split_on(text@.take(0), sep as char) =~= slices(parts@).push(
            text@.subrange(0, 0),
        ));
    }
    while i < n
        invariant
            start <= i <= n,
            n == text@.len(),
            text.is_ascii(),
            sep < 128,
            split_on(text@.take(i as int), sep as char) == slices(parts@).push(
                text@.subrange(start as int, i as int),
            ),
            forall|k: int| 0 <= k < parts@.len() ==> (#[trigger] parts@[k]).is_ascii(),
        decreases n - i,
    {
        let ghost done = slices(parts@);
        let ghost before = split_on(text@.take(i as int), sep as char);
        proof {
            assert(text@.take(i + 1).drop_last() =~= text@.take(i as int));
            assert(text@.take(i + 1).last() == text@[i as int]);
            assert(before.drop_last() =~= done);
            assert(before.last() == text@.subrange(start as int, i as int));
        }
        let b = text.get_ascii(i);
        if b == sep {
            assert(text@[i as int] == sep as char);
            let piece = text.substring_ascii(start, i);
            parts.push(piece);
            start = i + 1;
            proof {
                assert(slices(parts@) =~= done.push(piece@));
                assert(text@.subrange(i + 1, i + 1) =~= Seq::<char>::empty());
            }
        } else {
            assert(text@[i as int] != sep as char);
            proof {
                assert(text@.subrange(start as int, i + 1) =~= text@.subrange(
                    start as int,
                    i as int,
                ).push(text@[i as int]));
            }
        }
        i = i + 1;
    }
    let ghost done = slices(parts@);
    let piece = text.substring_ascii(start, n);
    parts.push(piece);
    proof {
        assert(text@.take(n as int) =~= text@);
        assert(slices(parts@) =~= done.push(piece@));
    }
    parts
}

/// The text without the blanks around it: see `trimmed`.
pub fn trim<'a>(text: &'a str) -> (inner: &'a str)
    requires
        text.is_ascii(),
    ensures
        inner@ == trimmed(text@),
        inner.is_ascii(),
{
    let n = text.unicode_len();
    let mut i: usize = 0;
    proof {
        assert(text@.subrange(0, n as int) =~= text@);
    }
    while i < n && blank(text.get_ascii(i))
        invariant
            i <= n,
            n == text@.len(),
            text.is_ascii(),
            trim_start(text@) == trim_start(text@.subrange(i as int, n as int)),
        decreases n - i,
    {
        proof {
            let rest = text@.subrange(i as int, n as int);
            assert(rest[0] == text@[i as int]);
            assert(rest.drop_first() =~= text@.subrange(i + 1, n as int));
        }
        i = i + 1;
    }
    proof {
        let rest = text@.subrange(i as int, n as int);
        if i < n {
            assert(rest[0] == text@[i as int]);
        }
        assert(trim_start(text@) == rest);
    }
    let mut j: usize = n;
    while j > i && blank(text.get_ascii(j - 1))
        invariant
            i <= j <= n,
            n == text@.len(),
            text.is_ascii(),
            trimmed(text@) == trim_end(text@.subrange(i as int, j as int)),
        decreases j,
    {
        proof {
            let rest = text@.subrange(i as int, j as int);
            assert(rest.last() == text@[j - 1]);
            assert(rest.drop_last() =~= text@.subrange(i as int, j - 1));
        }
        j = j - 1;
    }
    proof {
        let rest = text@.subrange(i as int, j as int);
        if j > i {
            assert(rest.last() == text@[j - 1]);
        }
        assert(trim_end(rest) == rest);
    }
    text.substring_ascii(i, j)
}

/// Whether a byte is a blank of ASCII.
fn blank(b: u8) -> (yes: bool)
    ensures
        b < 128 ==> yes == is_blank(b as char),
{
    b == 32 || b == 9 || b == 10 || b == 13 || b == 11 || b == 12
}

} // verus!
