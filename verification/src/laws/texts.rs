//! Laws of texts.

use vstd::prelude::*;

use crate::text;

verus! {

/// Trimming takes whitespace off the two ends of a text, all of it and nothing
/// else.
pub proof fn trimming_takes_whitespace_only<'a>(s: &'a str, r: &'a str)
    requires
        call_ensures(text::trim, (s,), r),
    ensures
        exists|a: int, b: int|
            {
                &&& 0 <= a <= b <= s@.len()
                &&& r@ == #[trigger] s@.subrange(a, b)
                &&& forall|i: int| 0 <= i < a ==> text::is_blank(#[trigger] s@[i])
                &&& forall|i: int| b <= i < s@.len() ==> text::is_blank(#[trigger] s@[i])
            },
        r@.len() > 0 ==> !text::is_blank(r@[0]) && !text::is_blank(r@.last()),
        r@ == text::trimmed(s@),
{
    trimmed_within(s@);
    text::trimming_is_final(s@);
}

/// The trimmed text is what is left of a text between whitespace at its ends.
pub proof fn trimmed_within(s: Seq<char>)
    ensures
        exists|a: int, b: int|
            {
                &&& 0 <= a <= b <= s.len()
                &&& text::trimmed(s) == #[trigger] s.subrange(a, b)
                &&& forall|i: int| 0 <= i < a ==> text::is_blank(#[trigger] s[i])
                &&& forall|i: int| b <= i < s.len() ==> text::is_blank(#[trigger] s[i])
            },
{
    let a = lemma_start(s);
    let rest = s.skip(a);
    let n = lemma_end(rest);
    assert(rest.take(n) =~= s.subrange(a, a + n));
    assert forall|i: int| a + n <= i < s.len() implies text::is_blank(#[trigger] s[i]) by {
        assert(rest[i - a] == s[i]);
    }
}

proof fn lemma_start(s: Seq<char>) -> (a: int)
    ensures
        0 <= a <= s.len(),
        text::trimmed_start(s) == s.skip(a),
        forall|i: int| 0 <= i < a ==> text::is_blank(#[trigger] s[i]),
    decreases s.len(),
{
    if s.len() > 0 && text::is_blank(s[0]) {
        let t = s.drop_first();
        let a = lemma_start(t);
        assert(t.skip(a) =~= s.skip(a + 1));
        assert forall|i: int| 0 <= i < a + 1 implies text::is_blank(#[trigger] s[i]) by {
            if i > 0 {
                assert(t[i - 1] == s[i]);
            }
        }
        a + 1
    } else {
        assert(s.skip(0) =~= s);
        0
    }
}

proof fn lemma_end(s: Seq<char>) -> (n: int)
    ensures
        0 <= n <= s.len(),
        text::trimmed_end(s) == s.take(n),
        forall|i: int| n <= i < s.len() ==> text::is_blank(#[trigger] s[i]),
    decreases s.len(),
{
    if s.len() > 0 && text::is_blank(s.last()) {
        let t = s.drop_last();
        let n = lemma_end(t);
        assert(t.take(n) =~= s.take(n));
        assert forall|i: int| n <= i < s.len() implies text::is_blank(#[trigger] s[i]) by {
            if i < t.len() {
                assert(t[i] == s[i]);
            }
        }
        n
    } else {
        assert(s.take(s.len() as int) =~= s);
        s.len() as int
    }
}

/// The characters that count as whitespace.
pub open spec fn whitespace() -> Seq<char> {
    seq![
        '\u{9}', '\u{a}', '\u{b}', '\u{c}', '\u{d}', '\u{20}', '\u{85}', '\u{a0}', '\u{1680}',
        '\u{2000}', '\u{2001}', '\u{2002}', '\u{2003}', '\u{2004}', '\u{2005}', '\u{2006}',
        '\u{2007}', '\u{2008}', '\u{2009}', '\u{200a}', '\u{2028}', '\u{2029}', '\u{202f}',
        '\u{205f}', '\u{3000}',
    ]
}

/// A character is whitespace exactly when it is among these.
pub proof fn blank_is_whitespace(c: char, r: bool)
    requires
        call_ensures(text::blank, (c,), r),
    ensures
        r == whitespace().contains(c),
        text::is_blank(c) == whitespace().contains(c),
{
    let all = whitespace();
    let u = c as u32;
    if text::is_blank(c) {
        let i: int = if u <= 0xd {
            u - 0x9
        } else if u == 0x20 {
            5
        } else if u == 0x85 {
            6
        } else if u == 0xa0 {
            7
        } else if u == 0x1680 {
            8
        } else if u <= 0x200a {
            u - 0x2000 + 9
        } else if u == 0x2028 {
            20
        } else if u == 0x2029 {
            21
        } else if u == 0x202f {
            22
        } else if u == 0x205f {
            23
        } else {
            24
        };
        assert(all[i] == c);
    }
    if all.contains(c) {
        let i = all.index_of(c);
        assert(all[i] == c);
    }
}

/// Lowering maps the letters from `A` to `Z` to those from `a` to `z`, 32 places
/// on, and leaves every other character as it is.
pub proof fn lowering_maps_capitals(s: &str, r: String)
    requires
        call_ensures(text::to_lower, (s,), r),
    ensures
        r@.len() == s@.len(),
        forall|i: int|
            0 <= i < s@.len() ==> if 'A' <= s@[i] <= 'Z' {
                (#[trigger] r@[i]) as int == s@[i] as int + 32
            } else {
                r@[i] == s@[i]
            },
        r@ == text::lowered(s@),
{
}

/// A text is split at the first separator: put together again, the parts give
/// the text, and the first part holds no separator. A text without one is not
/// split.
pub proof fn splitting_is_at_the_first<'a>(s: &'a str, c: char, r: Option<(&'a str, &'a str)>)
    requires
        call_ensures(text::split_once, (s, c), r),
    ensures
        match r {
            Some((a, b)) => a@.push(c) + b@ == s@ && !a@.contains(c),
            None => !s@.contains(c),
        },
{
    split_puts_together(s@, c);
}

/// The parts that a text is split into.
pub proof fn split_puts_together(s: Seq<char>, c: char)
    ensures
        match text::split_once_at(s, c) {
            Some((a, b)) => a.push(c) + b == s && !a.contains(c),
            None => !s.contains(c),
        },
{
    lemma_first_position(s, c);
    let i = text::first_position(s, c) as int;
    if i < s.len() {
        assert(s.take(i).push(c) + s.skip(i + 1) =~= s);
    }
}

proof fn lemma_first_position(s: Seq<char>, c: char)
    ensures
        text::first_position(s, c) <= s.len(),
        forall|i: int| 0 <= i < text::first_position(s, c) ==> #[trigger] s[i] != c,
        text::first_position(s, c) < s.len() ==> s[text::first_position(s, c) as int] == c,
    decreases s.len(),
{
    if s.len() > 0 && s[0] != c {
        let t = s.drop_first();
        lemma_first_position(t, c);
        assert forall|i: int| 0 <= i < text::first_position(s, c) implies #[trigger] s[i] != c by {
            if i > 0 {
                assert(t[i - 1] == s[i]);
            }
        }
    }
}

/// A text occurs in another exactly when the other is the text with something
/// before and after it.
pub proof fn occurring_is_being_within(s: &str, part: &str, r: bool)
    requires
        call_ensures(text::contains_text, (s, part), r),
    ensures
        r <==> exists|before: Seq<char>, after: Seq<char>| #[trigger]
            (before + part@ + after) == s@,
        r == text::occurs_in(part@, s@),
{
    if r {
        let i = choose|i: int|
            0 <= i && i + part@.len() <= s@.len() && #[trigger] s@.subrange(i, i + part@.len())
                == part@;
        let before = s@.take(i);
        let after = s@.skip(i + part@.len());
        assert(before + part@ + after =~= s@);
    }
    if exists|before: Seq<char>, after: Seq<char>| #[trigger] (before + part@ + after) == s@ {
        let (before, after) = choose|before: Seq<char>, after: Seq<char>| #[trigger]
            (before + part@ + after) == s@;
        let i = before.len() as int;
        assert(s@.subrange(i, i + part@.len()) =~= part@);
    }
}

/// The number that a list of decimal digits stands for.
pub open spec fn reads_as(digits: Seq<char>) -> int
    decreases digits.len(),
{
    if digits.len() == 0 {
        0
    } else {
        reads_as(digits.drop_last()) * 10 + (digits.last() as int - '0' as int)
    }
}

/// A number in decimal notation reads as the number, is made of digits, and has
/// no zero in front.
pub proof fn decimal_reads_back(n: nat)
    ensures
        reads_as(text::decimal(n)) == n,
        text::decimal(n).len() > 0,
        forall|i: int|
            0 <= i < text::decimal(n).len() ==> '0' <= #[trigger] text::decimal(n)[i] <= '9',
        n > 0 ==> text::decimal(n)[0] != '0',
    decreases n,
{
    let d = text::decimal(n);
    if n < 10 {
        assert(d.drop_last() =~= seq![]);
        assert(reads_as(d.drop_last()) == 0);
        assert(d.last() as int == 48 + n);
    } else {
        decimal_reads_back(n / 10);
        assert(d.drop_last() =~= text::decimal(n / 10));
        assert(d.last() as int == 48 + n % 10);
    }
}

/// A number is written so that it can be read back.
pub proof fn numbers_read_back(n: u64, r: String)
    requires
        call_ensures(text::to_decimal, (n,), r),
    ensures
        reads_as(r@) == n,
        r@ == text::decimal(n as nat),
{
    decimal_reads_back(n as nat);
}

/// Joined texts follow each other with the separator between them: what stands
/// alone is itself, and one more is put behind a separator.
pub proof fn joining_puts_behind(parts: Seq<Seq<char>>, sep: Seq<char>, next: Seq<char>)
    ensures
        text::joined(seq![], sep) == Seq::<char>::empty(),
        text::joined(seq![next], sep) == next,
        parts.len() > 0 ==> text::joined(parts.push(next), sep) == text::joined(parts, sep) + sep
            + next,
{
    assert(parts.push(next).drop_last() =~= parts);
}

/// What a list of texts is joined to.
pub proof fn joining_is_joined(parts: Vec<String>, sep: &str, r: String)
    requires
        call_ensures(text::join, (&parts, sep), r),
    ensures
        r@ == text::joined(parts.deep_view(), sep@),
        forall|i: int| 0 <= i < parts@.len() ==> text::occurs_in(#[trigger] parts@[i]@, r@),
{
    assert forall|i: int| 0 <= i < parts@.len() implies text::occurs_in(
        #[trigger] parts@[i]@,
        r@,
    ) by {
        text::part_occurs_in_joined(parts.deep_view(), sep@, i);
    }
}

/// Texts are ordered by their first difference, the smaller character first, and
/// a text comes before a longer one that it begins.
pub proof fn order_is_by_first_difference(
    front: Seq<char>,
    a: char,
    b: char,
    x: Seq<char>,
    y: Seq<char>,
)
    ensures
        text::text_le(front, front + x),
        x.len() > 0 ==> !text::text_le(front + x, front),
        a < b ==> text::text_le(front.push(a) + x, front.push(b) + y),
        a < b ==> !text::text_le(front.push(b) + y, front.push(a) + x),
    decreases front.len(),
{
    let l = front.push(a) + x;
    let r = front.push(b) + y;
    if front.len() > 0 {
        let f = front.drop_first();
        order_is_by_first_difference(f, a, b, x, y);
        assert(l.drop_first() =~= f.push(a) + x);
        assert(r.drop_first() =~= f.push(b) + y);
        assert((front + x).drop_first() =~= f + x);
    } else {
        assert(l[0] == a && r[0] == b);
    }
}

/// The order of two texts.
pub proof fn comparing_is_the_order(a: &str, b: &str, r: bool)
    requires
        call_ensures(text::no_later, (a, b), r),
    ensures
        r == text::text_le(a@, b@),
{
}

/// A sorted list has the texts of the list, each as often, the smaller first.
pub proof fn sorting_orders(names: Vec<String>, r: Vec<String>)
    requires
        call_ensures(text::sorted, (names,), r),
    ensures
        r@.len() == names@.len(),
        r.deep_view().to_multiset() == names.deep_view().to_multiset(),
        forall|i: int, j: int|
            0 <= i <= j < r@.len() ==> text::text_le(#[trigger] r@[i]@, #[trigger] r@[j]@),
{
    r.deep_view().to_multiset_ensures();
    names.deep_view().to_multiset_ensures();
    assert forall|i: int, j: int| 0 <= i <= j < r@.len() implies text::text_le(
        #[trigger] r@[i]@,
        #[trigger] r@[j]@,
    ) by {
        assert(r.deep_view()[i] == r@[i]@ && r.deep_view()[j] == r@[j]@);
    }
}

/// A copy holds the same texts in the same places.
pub proof fn copies_are_equal(list: Vec<String>, r: Vec<String>)
    requires
        call_ensures(text::copied, (&list,), r),
    ensures
        r@.len() == list@.len(),
        forall|i: int| 0 <= i < list@.len() ==> (#[trigger] r@[i])@ == list@[i]@,
{
    assert(r.deep_view().len() == r@.len());
    assert(list.deep_view().len() == list@.len());
    assert forall|i: int| 0 <= i < list@.len() implies (#[trigger] r@[i])@ == list@[i]@ by {
        assert(r.deep_view()[i] == list.deep_view()[i]);
    }
}

/// A text occurs in what is put together round it.
pub proof fn stands_within(before: Seq<char>, part: Seq<char>, after: Seq<char>)
    ensures
        text::occurs_in(part, before + part + after),
        text::occurs_in(part, before + part),
        text::occurs_in(part, part + after),
{
    let n = before.len() as int;
    assert((before + part + after).subrange(n, n + part.len()) =~= part);
    assert((before + part).subrange(n, n + part.len()) =~= part);
    assert((part + after).subrange(0int, 0int + part.len()) =~= part);
}

/// Nothing is left of a text by trimming exactly when it is all whitespace.
pub proof fn blank_exactly(s: Seq<char>)
    ensures
        text::trimmed(s).len() == 0 <==> forall|i: int|
            0 <= i < s.len() ==> text::is_blank(#[trigger] s[i]),
{
    if forall|i: int| 0 <= i < s.len() ==> text::is_blank(#[trigger] s[i]) {
        text::blank_trims_to_nothing(s);
    }
    if text::trimmed(s).len() == 0 {
        trimmed_within(s);
    }
}

/// A part of a text that neither begins nor ends in whitespace is still there
/// when the text is trimmed.
pub proof fn trimming_keeps_inner(s: Seq<char>, at: int, n: int)
    requires
        0 <= at,
        n > 0,
        at + n <= s.len(),
        !text::is_blank(s[at]),
        !text::is_blank(s[at + n - 1]),
    ensures
        text::occurs_in(s.subrange(at, at + n), text::trimmed(s)),
{
    trimmed_within(s);
    let (a, b) = choose|a: int, b: int|
        {
            &&& 0 <= a <= b <= s.len()
            &&& text::trimmed(s) == #[trigger] s.subrange(a, b)
            &&& forall|i: int| 0 <= i < a ==> text::is_blank(#[trigger] s[i])
            &&& forall|i: int| b <= i < s.len() ==> text::is_blank(#[trigger] s[i])
        };
    assert(a <= at && at + n <= b);
    let k = at - a;
    assert(text::trimmed(s).subrange(k, k + n) =~= s.subrange(at, at + n));
}

/// What may be missing is its text where it is there.
pub proof fn optional_is_the_text(s: String)
    ensures
        text::optional(Some(s)) == Some(s@),
        text::optional(None) is None,
{
}

/// Two texts are the same exactly when they have the same characters.
pub proof fn same_characters_same_text(a: &str, b: &str, r: bool)
    requires
        call_ensures(text::same_text, (a, b), r),
    ensures
        r <==> a@.len() == b@.len() && forall|i: int|
            0 <= i < a@.len() ==> #[trigger] a@[i] == b@[i],
{
    if a@.len() == b@.len() && forall|i: int| 0 <= i < a@.len() ==> #[trigger] a@[i] == b@[i] {
        assert(a@ =~= b@);
    }
}

/// A text is listed exactly when some place of the list holds it.
pub proof fn listing_is_having_a_place(list: Vec<String>, name: &str, r: bool)
    requires
        call_ensures(text::listed, (&list, name), r),
    ensures
        r <==> exists|i: int| 0 <= i < list@.len() && (#[trigger] list@[i])@ == name@,
{
    let all = list.deep_view();
    assert(all.len() == list@.len());
    if r {
        let i = all.index_of(name@);
        assert(list@[i]@ == name@);
    }
    if exists|i: int| 0 <= i < list@.len() && (#[trigger] list@[i])@ == name@ {
        let i = choose|i: int| 0 <= i < list@.len() && (#[trigger] list@[i])@ == name@;
        assert(all[i] == name@);
    }
}

/// The characters of a text are those at its places, and a copy of a text that may
/// be missing is that text.
pub proof fn copies_hold_the_same(s: &str, chars: Vec<char>, t: Option<String>, r: Option<String>)
    requires
        call_ensures(text::chars_of, (s,), chars),
        call_ensures(text::copy_optional, (&t,), r),
    ensures
        chars@ == s@,
        r is Some <==> t is Some,
        r is Some ==> r->0@ == t->0@,
{
}

/// A letter from `A` to `Z` is lowered by 32 places, any other character by none.
pub proof fn lowering_a_character(c: char, r: char)
    requires
        call_ensures(text::to_lower_char, (c,), r),
    ensures
        'A' <= c <= 'Z' ==> r as int == c as int + 32,
        !('A' <= c <= 'Z') ==> r == c,
{
}

} // verus!
