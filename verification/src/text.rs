//! Text: the string operations that configuration handling is made of, each
//! with its exact meaning over the characters of the text.

use vstd::prelude::*;

verus! {

/// `String::push` appends one character.
pub assume_specification[ String::push ](s: &mut String, c: char)
    ensures
        final(s)@ == old(s)@.push(c),
;

/// What `format!("{:?}", text)` writes for a text: the text in double quotes,
/// with the escapes of `char::escape_debug`.
pub uninterp spec fn debug_text(text: Seq<char>) -> Seq<char>;

/// The debug form of a text, written by `format!("{:?}", ..)`. Only that the
/// result is determined by the text is claimed.
#[verifier::external_body]
pub(crate) fn quoted(text: &str) -> (r: String)
    ensures
        r@ == debug_text(text@),
{
    format!("{:?}", text)
}

/// What `format!("{:?}", path)` writes for the path of a text: the text in
/// double quotes, with the escapes of `char::escape_debug`.
pub uninterp spec fn debug_path_text(text: Seq<char>) -> Seq<char>;

/// The debug form of the path of a text, written by `format!("{:?}", ..)` on a
/// `std::path::Path`. Only that the result is determined by the text is
/// claimed.
#[verifier::external_body]
pub(crate) fn quoted_path(text: &str) -> (r: String)
    ensures
        r@ == debug_path_text(text@),
{
    format!("{:?}", std::path::Path::new(text))
}

/// Whether `c` has the Unicode `White_Space` property.
pub open spec fn is_blank(c: char) -> bool {
    let u = c as u32;
    ||| 0x9 <= u <= 0xd
    ||| u == 0x20
    ||| u == 0x85
    ||| u == 0xa0
    ||| u == 0x1680
    ||| 0x2000 <= u <= 0x200a
    ||| u == 0x2028
    ||| u == 0x2029
    ||| u == 0x202f
    ||| u == 0x205f
    ||| u == 0x3000
}

/// `s` without its leading whitespace.
pub open spec fn trimmed_start(s: Seq<char>) -> Seq<char>
    decreases s.len(),
{
    if s.len() > 0 && is_blank(s[0]) {
        trimmed_start(s.drop_first())
    } else {
        s
    }
}

/// `s` without its trailing whitespace.
pub open spec fn trimmed_end(s: Seq<char>) -> Seq<char>
    decreases s.len(),
{
    if s.len() > 0 && is_blank(s.last()) {
        trimmed_end(s.drop_last())
    } else {
        s
    }
}

/// `s` without the whitespace at its two ends.
pub open spec fn trimmed(s: Seq<char>) -> Seq<char> {
    trimmed_end(trimmed_start(s))
}

/// The position of the first `c` in `s`, or the length of `s` where there is none.
pub open spec fn first_position(s: Seq<char>, c: char) -> nat
    decreases s.len(),
{
    if s.len() == 0 || s[0] == c {
        0
    } else {
        1 + first_position(s.drop_first(), c)
    }
}

/// The two parts of `s` around its first `c`.
pub open spec fn split_once_at(s: Seq<char>, c: char) -> Option<(Seq<char>, Seq<char>)> {
    let i = first_position(s, c) as int;
    if i < s.len() {
        Some((s.take(i), s.skip(i + 1)))
    } else {
        None
    }
}

/// Whether `part` occurs in `s`.
pub open spec fn occurs_in(part: Seq<char>, s: Seq<char>) -> bool {
    exists|i: int|
        0 <= i && i + part.len() <= s.len() && #[trigger] s.subrange(i, i + part.len()) == part
}

/// `c` with the upper-case ASCII letters mapped to lower case.
pub open spec fn lower_char(c: char) -> char {
    if 'A' <= c <= 'Z' {
        ((c as u8) + 32) as char
    } else {
        c
    }
}

/// `s` with its upper-case ASCII letters mapped to lower case.
pub open spec fn lowered(s: Seq<char>) -> Seq<char> {
    s.map_values(|c: char| lower_char(c))
}

/// The text of an optional text.
pub open spec fn optional(t: Option<String>) -> Option<Seq<char>> {
    match t {
        Some(s) => Some(s@),
        None => None,
    }
}

/// The decimal digit of `n`.
pub open spec fn digit(n: nat) -> char {
    ((48 + n) as u8) as char
}

/// `n` in decimal notation.
pub open spec fn decimal(n: nat) -> Seq<char>
    decreases n,
{
    if n < 10 {
        seq![digit(n)]
    } else {
        decimal(n / 10).push(digit(n % 10))
    }
}

/// The texts of `parts`, one after the other, with `sep` between neighbours.
pub open spec fn joined(parts: Seq<Seq<char>>, sep: Seq<char>) -> Seq<char>
    decreases parts.len(),
{
    if parts.len() == 0 {
        seq![]
    } else if parts.len() == 1 {
        parts[0]
    } else {
        joined(parts.drop_last(), sep) + sep + parts.last()
    }
}

/// The order of texts by their first differing character, a text coming after
/// its own beginnings.
pub open spec fn text_le(a: Seq<char>, b: Seq<char>) -> bool
    decreases a.len(),
{
    if a.len() == 0 {
        true
    } else if b.len() == 0 {
        false
    } else if a[0] != b[0] {
        a[0] < b[0]
    } else {
        text_le(a.drop_first(), b.drop_first())
    }
}

/// Whether `names` stand in the order of `text_le`.
pub open spec fn in_order(names: Seq<Seq<char>>) -> bool {
    forall|i: int, j: int| 0 <= i <= j < names.len() ==> text_le(#[trigger] names[i], #[trigger] names[j])
}

/// The characters of a text.
pub fn chars_of(s: &str) -> (r: Vec<char>)
    ensures
        r@ == s@,
{
    let mut out: Vec<char> = Vec::new();
    for c in it: s.chars()
        invariant
            out@ == it.seq().take(it.index() as int),
            it.seq() == s@,
    {
        out.push(c);
    }
    out
}

/// Whether two texts are the same.
pub fn same_text(a: &str, b: &str) -> (r: bool)
    ensures
        r == (a@ == b@),
{
    a.to_owned() == b.to_owned()
}

/// Whether a text is one of a list.
pub fn listed(list: &Vec<String>, name: &str) -> (r: bool)
    ensures
        r == list.deep_view().contains(name@),
{
    let mut i: usize = 0;
    while i < list.len()
        invariant
            i <= list.len(),
            forall|j: int| 0 <= j < i ==> list[j]@ != name@,
        decreases list.len() - i,
    {
        if same_text(&list[i], name) {
            assert(list.deep_view()[i as int] == name@);
            return true;
        }
        i += 1;
    }
    assert forall|j: int| 0 <= j < list.deep_view().len() implies list.deep_view()[j] != name@ by {
        assert(list.deep_view()[j] == list[j]@);
    }
    false
}

/// Tests a character for the Unicode `White_Space` property.
pub fn blank(c: char) -> (r: bool)
    ensures
        r == is_blank(c),
{
    let u: u32 = c as u32;
    (0x9 <= u && u <= 0xd) || u == 0x20 || u == 0x85 || u == 0xa0 || u == 0x1680 || (0x2000 <= u
        && u <= 0x200a) || u == 0x2028 || u == 0x2029 || u == 0x202f || u == 0x205f || u == 0x3000
}

proof fn lemma_trimmed_start_skips(s: Seq<char>, n: int)
    requires
        0 <= n <= s.len(),
        forall|i: int| 0 <= i < n ==> is_blank(#[trigger] s[i]),
    ensures
        trimmed_start(s) == trimmed_start(s.skip(n)),
    decreases n,
{
    if n > 0 {
        let t = s.drop_first();
        assert forall|i: int| 0 <= i < n - 1 implies is_blank(#[trigger] t[i]) by {
            assert(t[i] == s[i + 1]);
        }
        lemma_trimmed_start_skips(t, n - 1);
        assert(t.skip(n - 1) =~= s.skip(n));
    } else {
        assert(s.skip(0) =~= s);
    }
}

proof fn lemma_trimmed_end_takes(s: Seq<char>, n: int)
    requires
        0 <= n <= s.len(),
        forall|i: int| n <= i < s.len() ==> is_blank(#[trigger] s[i]),
    ensures
        trimmed_end(s) == trimmed_end(s.take(n)),
    decreases s.len() - n,
{
    if n < s.len() {
        let t = s.drop_last();
        assert(is_blank(s[s.len() - 1]));
        assert forall|i: int| n <= i < t.len() implies is_blank(#[trigger] t[i]) by {
            assert(t[i] == s[i]);
        }
        lemma_trimmed_end_takes(t, n);
        assert(t.take(n) =~= s.take(n));
    } else {
        assert(s.take(n) =~= s);
    }
}

/// A text without the whitespace at its two ends.
pub fn trim<'a>(s: &'a str) -> (r: &'a str)
    ensures
        r@ == trimmed(s@),
{
    let cs = chars_of(s);
    let n: usize = cs.len();
    let mut lo: usize = 0;
    while lo < n && blank(cs[lo])
        invariant
            lo <= n,
            n == cs.len(),
            forall|i: int| 0 <= i < lo ==> is_blank(#[trigger] cs[i]),
        decreases n - lo,
    {
        lo += 1;
    }
    let mut hi: usize = n;
    while lo < hi && blank(cs[hi - 1])
        invariant
            lo <= hi <= n,
            n == cs.len(),
            forall|i: int| hi <= i < n ==> is_blank(#[trigger] cs[i]),
        decreases hi,
    {
        hi -= 1;
    }
    proof {
        let t = s@.skip(lo as int);
        lemma_trimmed_start_skips(s@, lo as int);
        assert(lo < n ==> t[0] == s@[lo as int]);
        assert(trimmed_start(s@) == t);
        assert forall|i: int| hi - lo <= i < t.len() implies is_blank(#[trigger] t[i]) by {
            assert(t[i] == s@[i + lo]);
        }
        lemma_trimmed_end_takes(t, hi - lo);
        assert(t.take(hi - lo) =~= s@.subrange(lo as int, hi as int));
        assert(lo < hi ==> t.take(hi - lo).last() == s@[hi - 1]);
    }
    s.substring_char(lo, hi)
}

/// `c` with the upper-case ASCII letters mapped to lower case.
pub fn to_lower_char(c: char) -> (r: char)
    ensures
        r == lower_char(c),
{
    if 'A' <= c && c <= 'Z' {
        ((c as u8) + 32) as char
    } else {
        c
    }
}

/// A text with its upper-case ASCII letters mapped to lower case.
pub fn to_lower(s: &str) -> (r: String)
    ensures
        r@ == lowered(s@),
{
    let mut out = String::new();
    for c in it: s.chars()
        invariant
            out@ == lowered(s@).take(it.index() as int),
            it.seq() == s@,
    {
        out.push(to_lower_char(c));
    }
    assert(lowered(s@).take(s@.len() as int) =~= lowered(s@));
    out
}

proof fn lemma_first_position(s: Seq<char>, c: char, n: int)
    requires
        0 <= n <= s.len(),
        forall|i: int| 0 <= i < n ==> #[trigger] s[i] != c,
        n < s.len() ==> s[n] == c,
    ensures
        first_position(s, c) == n,
    decreases n,
{
    if n > 0 {
        let t = s.drop_first();
        assert forall|i: int| 0 <= i < n - 1 implies #[trigger] t[i] != c by {
            assert(t[i] == s[i + 1]);
        }
        lemma_first_position(t, c, n - 1);
        assert(s[0] != c);
    }
}

/// The two parts of a text around its first `c`, if there is one.
pub fn split_once<'a>(s: &'a str, c: char) -> (r: Option<(&'a str, &'a str)>)
    ensures
        match r {
            Some((a, b)) => split_once_at(s@, c) == Some((a@, b@)),
            None => split_once_at(s@, c) is None,
        },
{
    let cs = chars_of(s);
    let n: usize = cs.len();
    let mut i: usize = 0;
    while i < n && cs[i] != c
        invariant
            i <= n,
            n == cs.len(),
            forall|j: int| 0 <= j < i ==> #[trigger] cs[j] != c,
        decreases n - i,
    {
        i += 1;
    }
    proof {
        lemma_first_position(s@, c, i as int);
    }
    if i < n {
        assert(s@.subrange(0, i as int) =~= s@.take(i as int));
        assert(s@.subrange(i + 1, n as int) =~= s@.skip(i + 1));
        Some((s.substring_char(0, i), s.substring_char(i + 1, n)))
    } else {
        None
    }
}

/// Whether `part` occurs in `s`.
pub fn contains_text(s: &str, part: &str) -> (r: bool)
    ensures
        r == occurs_in(part@, s@),
{
    let cs = chars_of(s);
    let ps = chars_of(part);
    let n: usize = cs.len();
    let m: usize = ps.len();
    if m > n {
        return false;
    }
    let mut i: usize = 0;
    while i <= n - m
        invariant
            m <= n,
            n == cs.len(),
            m == ps.len(),
            cs@ == s@,
            ps@ == part@,
            i <= n - m + 1,
            forall|k: int| 0 <= k < i ==> #[trigger] s@.subrange(k, k + m) != part@,
        decreases n - m + 1 - i,
    {
        let mut j: usize = 0;
        while j < m && cs[i + j] == ps[j]
            invariant
                j <= m,
                i + m <= n,
                n == cs.len(),
                m == ps.len(),
                forall|k: int| 0 <= k < j ==> #[trigger] cs[i + k] == ps[k],
            decreases m - j,
        {
            j += 1;
        }
        if j == m {
            assert forall|k: int| 0 <= k < m implies s@.subrange(i as int, i + m)[k] == part@[k] by {
                assert(cs[i + k] == ps[k]);
            }
            assert(s@.subrange(i as int, i + m) =~= part@);
            return true;
        }
        assert(s@.subrange(i as int, i + m)[j as int] != part@[j as int]);
        if i == n - m {
            return false;
        }
        i += 1;
    }
    false
}

/// A number in decimal notation.
pub fn to_decimal(n: u64) -> (r: String)
    ensures
        r@ == decimal(n as nat),
    decreases n,
{
    if n < 10 {
        let mut out = String::new();
        out.push((48 + n as u8) as char);
        assert(out@ =~= decimal(n as nat));
        out
    } else {
        let mut out = to_decimal(n / 10);
        out.push((48 + (n % 10) as u8) as char);
        out
    }
}

/// The texts of `parts`, one after the other, with `sep` between neighbours.
pub fn join(parts: &Vec<String>, sep: &str) -> (r: String)
    ensures
        r@ == joined(parts.deep_view(), sep@),
{
    let mut out = String::new();
    let mut i: usize = 0;
    let ghost all = parts.deep_view();
    assert(all.take(0) =~= Seq::<Seq<char>>::empty());
    while i < parts.len()
        invariant
            i <= parts.len(),
            all == parts.deep_view(),
            out@ == joined(all.take(i as int), sep@),
        decreases parts.len() - i,
    {
        if i > 0 {
            out.append(sep);
        }
        out.append(&parts[i]);
        proof {
            let next = all.take(i + 1);
            assert(next.drop_last() =~= all.take(i as int));
            assert(next.last() == parts[i as int]@);
            if i == 0 {
                assert(out@ =~= next[0]);
            }
        }
        i += 1;
    }
    assert(all.take(all.len() as int) =~= all);
    out
}

/// The order of texts is total.
pub proof fn text_le_total(a: Seq<char>, b: Seq<char>)
    ensures
        text_le(a, b) || text_le(b, a),
    decreases a.len(),
{
    if a.len() > 0 && b.len() > 0 && a[0] == b[0] {
        text_le_total(a.drop_first(), b.drop_first());
    }
}

/// The order of texts is transitive.
pub proof fn text_le_transitive(a: Seq<char>, b: Seq<char>, c: Seq<char>)
    requires
        text_le(a, b),
        text_le(b, c),
    ensures
        text_le(a, c),
    decreases a.len(),
{
    if a.len() > 0 && b.len() > 0 && c.len() > 0 && a[0] == b[0] && b[0] == c[0] {
        text_le_transitive(a.drop_first(), b.drop_first(), c.drop_first());
    }
}

/// Two texts that come no later than each other are the same.
pub proof fn text_le_antisymmetric(a: Seq<char>, b: Seq<char>)
    requires
        text_le(a, b),
        text_le(b, a),
    ensures
        a == b,
    decreases a.len(),
{
    if a.len() > 0 && b.len() > 0 {
        text_le_antisymmetric(a.drop_first(), b.drop_first());
        assert(a =~= seq![a[0]] + a.drop_first());
        assert(b =~= seq![b[0]] + b.drop_first());
    } else {
        assert(a =~= b);
    }
}

proof fn lemma_text_le_from(a: Seq<char>, b: Seq<char>, n: int)
    requires
        0 <= n <= a.len(),
        n <= b.len(),
        forall|i: int| 0 <= i < n ==> #[trigger] a[i] == b[i],
    ensures
        text_le(a, b) == text_le(a.skip(n), b.skip(n)),
    decreases n,
{
    if n > 0 {
        let x = a.drop_first();
        let y = b.drop_first();
        assert(a[0] == b[0]);
        assert forall|i: int| 0 <= i < n - 1 implies #[trigger] x[i] == y[i] by {
            assert(x[i] == a[i + 1]);
        }
        lemma_text_le_from(x, y, n - 1);
        assert(x.skip(n - 1) =~= a.skip(n));
        assert(y.skip(n - 1) =~= b.skip(n));
    } else {
        assert(a.skip(0) =~= a);
        assert(b.skip(0) =~= b);
    }
}

/// Whether `a` comes no later than `b`.
pub fn no_later(a: &str, b: &str) -> (r: bool)
    ensures
        r == text_le(a@, b@),
{
    let x = chars_of(a);
    let y = chars_of(b);
    let mut i: usize = 0;
    while i < x.len() && i < y.len() && x[i] == y[i]
        invariant
            i <= x.len(),
            i <= y.len(),
            forall|j: int| 0 <= j < i ==> #[trigger] x[j] == y[j],
        decreases x.len() - i,
    {
        i += 1;
    }
    proof {
        lemma_text_le_from(a@, b@, i as int);
        assert(i < x.len() ==> a@.skip(i as int)[0] == x[i as int]);
        assert(i < y.len() ==> b@.skip(i as int)[0] == y[i as int]);
    }
    if i == x.len() {
        true
    } else if i == y.len() {
        false
    } else {
        x[i] < y[i]
    }
}

/// The same texts, in order.
pub fn sorted(names: Vec<String>) -> (r: Vec<String>)
    ensures
        in_order(r.deep_view()),
        r.deep_view().to_multiset() == names.deep_view().to_multiset(),
{
    let mut rest = names;
    let mut out: Vec<String> = Vec::new();
    assert(out.deep_view().to_multiset() =~= vstd::multiset::Multiset::empty()) by {
        out.deep_view().to_multiset_ensures();
    }
    while rest.len() > 0
        invariant
            in_order(out.deep_view()),
            rest.deep_view().to_multiset().add(out.deep_view().to_multiset())
                == names.deep_view().to_multiset(),
        decreases rest.len(),
    {
        let ghost rest0 = rest.deep_view();
        let ghost texts0 = out.deep_view();
        let name = match rest.pop() {
            Some(n) => n,
            None => String::new(),
        };
        let ghost n0 = name@;
        let mut p: usize = 0;
        while p < out.len() && no_later(&out[p], &name)
            invariant
                p <= out.len(),
                n0 == name@,
                texts0 == out.deep_view(),
                forall|j: int| 0 <= j < p ==> text_le(#[trigger] out.deep_view()[j], name@),
            decreases out.len() - p,
        {
            p += 1;
        }
        out.insert(p, name);
        proof {
            let texts = out.deep_view();
            assert(texts =~= texts0.insert(p as int, n0));
            let left = rest.deep_view();
            assert(rest0 =~= left.push(n0));
            vstd::seq_lib::to_multiset_build(left, n0);
            vstd::seq_lib::to_multiset_insert(texts0, p as int, n0);
            assert(left.to_multiset().add(texts.to_multiset()) =~= rest0.to_multiset().add(
                texts0.to_multiset(),
            ));
            assert forall|i: int, j: int| 0 <= i <= j < texts.len() implies text_le(
                #[trigger] texts[i],
                #[trigger] texts[j],
            ) by {
                if i == j {
                    text_le_total(texts[i], texts[i]);
                } else if j == p {
                    assert(texts[i] == texts0[i]);
                } else if i == p {
                    assert(texts[j] == texts0[j - 1]);
                    text_le_total(texts0[p as int], n0);
                    text_le_transitive(n0, texts0[p as int], texts0[j - 1]);
                } else {
                    let a = if i < p {
                        i
                    } else {
                        i - 1
                    };
                    let b = if j < p {
                        j
                    } else {
                        j - 1
                    };
                    assert(texts[i] == texts0[a]);
                    assert(texts[j] == texts0[b]);
                }
            }
        }
    }
    proof {
        rest.deep_view().to_multiset_ensures();
        assert(rest.deep_view().to_multiset() =~= vstd::multiset::Multiset::empty());
    }
    out
}

/// A text of whitespace alone trims to nothing.
pub proof fn blank_trims_to_nothing(s: Seq<char>)
    requires
        forall|i: int| 0 <= i < s.len() ==> is_blank(#[trigger] s[i]),
    ensures
        trimmed(s).len() == 0,
{
    lemma_trimmed_start_skips(s, s.len() as int);
    assert(s.skip(s.len() as int).len() == 0);
}

proof fn lemma_trimmed_start_is_suffix(s: Seq<char>) -> (n: int)
    ensures
        0 <= n <= s.len(),
        trimmed_start(s) == s.skip(n),
        n < s.len() ==> !is_blank(s[n]),
    decreases s.len(),
{
    if s.len() > 0 && is_blank(s[0]) {
        let n = lemma_trimmed_start_is_suffix(s.drop_first());
        assert(s.drop_first().skip(n) =~= s.skip(n + 1));
        n + 1
    } else {
        assert(s.skip(0) =~= s);
        0
    }
}

proof fn lemma_trimmed_end_is_prefix(s: Seq<char>) -> (n: int)
    ensures
        0 <= n <= s.len(),
        trimmed_end(s) == s.take(n),
        n > 0 ==> !is_blank(s[n - 1]),
    decreases s.len(),
{
    if s.len() > 0 && is_blank(s.last()) {
        let n = lemma_trimmed_end_is_prefix(s.drop_last());
        assert(s.drop_last().take(n) =~= s.take(n));
        n
    } else {
        assert(s.take(s.len() as int) =~= s);
        s.len() as int
    }
}

/// What occurs in a text occurs in every longer one.
pub proof fn occurs_in_longer(part: Seq<char>, s: Seq<char>, before: Seq<char>, after: Seq<char>)
    requires
        occurs_in(part, s),
    ensures
        occurs_in(part, before + s + after),
{
    let i = choose|i: int|
        0 <= i && i + part.len() <= s.len() && #[trigger] s.subrange(i, i + part.len()) == part;
    let whole = before + s + after;
    let at = before.len() + i;
    assert(whole.subrange(at, at + part.len()) =~= s.subrange(i, i + part.len()));
}

/// Every part occurs in the joined text.
pub proof fn part_occurs_in_joined(parts: Seq<Seq<char>>, sep: Seq<char>, i: int)
    requires
        0 <= i < parts.len(),
    ensures
        occurs_in(parts[i], joined(parts, sep)),
    decreases parts.len(),
{
    let part = parts[i];
    assert(part.subrange(0int, 0int + part.len()) =~= part);
    assert(occurs_in(part, part));
    if parts.len() > 1 {
        let front = joined(parts.drop_last(), sep);
        if i == parts.len() - 1 {
            occurs_in_longer(part, part, front + sep, seq![]);
            assert(front + sep + part + seq![] =~= joined(parts, sep));
        } else {
            part_occurs_in_joined(parts.drop_last(), sep, i);
            occurs_in_longer(part, front, seq![], sep + parts.last());
            assert(seq![] + front + (sep + parts.last()) =~= joined(parts, sep));
        }
    }
}

/// A trimmed text neither begins nor ends with whitespace, is a part of the
/// text, and trims to itself.
pub proof fn trimming_is_final(s: Seq<char>)
    ensures
        trimmed(trimmed(s)) == trimmed(s),
        trimmed(s).len() <= s.len(),
        trimmed(s).len() > 0 ==> !is_blank(trimmed(s)[0]) && !is_blank(trimmed(s).last()),
        occurs_in(trimmed(s), s),
{
    let n = lemma_trimmed_start_is_suffix(s);
    let a = s.skip(n);
    let m = lemma_trimmed_end_is_prefix(a);
    let t = a.take(m);
    assert(t =~= s.subrange(n, n + t.len()));
    if m > 0 {
        assert(t[0] == s[n]);
        assert(t.last() == a[m - 1]);
        assert(trimmed_start(t) == t);
    }
}

/// A copy of a list of texts.
pub fn copied(list: &Vec<String>) -> (r: Vec<String>)
    ensures
        r.deep_view() == list.deep_view(),
{
    let mut out: Vec<String> = Vec::new();
    let mut i: usize = 0;
    while i < list.len()
        invariant
            i <= list.len(),
            out.deep_view() == list.deep_view().take(i as int),
        decreases list.len() - i,
    {
        let ghost before = out.deep_view();
        out.push(list[i].clone());
        assert(out.deep_view() =~= before.push(list[i as int]@));
        assert(list.deep_view().take(i + 1) =~= list.deep_view().take(i as int).push(list[i as int]@));
        i += 1;
    }
    assert(list.deep_view().take(list.len() as int) =~= list.deep_view());
    out
}

/// The first of `names` that satisfies `bad`.
pub open spec fn first_match(names: Seq<Seq<char>>, bad: spec_fn(Seq<char>) -> bool) -> Option<
    Seq<char>,
>
    decreases names.len(),
{
    if names.len() == 0 {
        None
    } else if bad(names[0]) {
        Some(names[0])
    } else {
        first_match(names.drop_first(), bad)
    }
}

/// `first_match` finds the name at `n` when no earlier one satisfies `bad`.
pub proof fn first_match_is(names: Seq<Seq<char>>, bad: spec_fn(Seq<char>) -> bool, n: int)
    requires
        0 <= n <= names.len(),
        forall|i: int| 0 <= i < n ==> !bad(#[trigger] names[i]),
        n < names.len() ==> bad(names[n]),
    ensures
        first_match(names, bad) == (if n < names.len() {
            Some(names[n])
        } else {
            None
        }),
    decreases n,
{
    if n > 0 {
        assert(!bad(names[0]));
        let rest = names.drop_first();
        assert forall|i: int| 0 <= i < n - 1 implies !bad(#[trigger] rest[i]) by {
            assert(rest[i] == names[i + 1]);
        }
        first_match_is(rest, bad, n - 1);
    }
}

/// `first_match` finds nothing exactly when no name satisfies `bad`.
pub proof fn first_match_none(names: Seq<Seq<char>>, bad: spec_fn(Seq<char>) -> bool)
    ensures
        first_match(names, bad) is None <==> forall|n: Seq<char>|
            #[trigger] names.contains(n) ==> !bad(n),
        first_match(names, bad) matches Some(n) ==> names.contains(n) && bad(n),
    decreases names.len(),
{
    if names.len() > 0 {
        let rest = names.drop_first();
        first_match_none(rest, bad);
        assert(names.contains(names[0]));
        assert forall|n: Seq<char>| #[trigger] rest.contains(n) implies names.contains(n) by {
            let i = rest.index_of(n);
            assert(names[i + 1] == n);
        }
        assert forall|n: Seq<char>| #[trigger] names.contains(n) implies n == names[0] || rest.contains(
            n,
        ) by {
            let i = names.index_of(n);
            if i > 0 {
                assert(rest[i - 1] == n);
            }
        }
        if first_match(names, bad) is Some {
            let n = first_match(names, bad)->0;
            assert(names.contains(n) && bad(n));
        }
    }
}

/// Some text is in neither of two lists.
pub proof fn some_text_is_unlisted(a: Seq<Seq<char>>, b: Seq<Seq<char>>) -> (r: Seq<char>)
    ensures
        !a.contains(r),
        !b.contains(r),
{
    let n = longest(a) + longest(b) + 1;
    let r = Seq::new(n as nat, |i: int| 'x');
    if a.contains(r) {
        lemma_longest(a, r);
    }
    if b.contains(r) {
        lemma_longest(b, r);
    }
    r
}

spec fn longest(names: Seq<Seq<char>>) -> nat
    decreases names.len(),
{
    if names.len() == 0 {
        0
    } else {
        let rest = longest(names.drop_last());
        if names.last().len() > rest {
            names.last().len()
        } else {
            rest
        }
    }
}

proof fn lemma_longest(names: Seq<Seq<char>>, n: Seq<char>)
    requires
        names.contains(n),
    ensures
        n.len() <= longest(names),
    decreases names.len(),
{
    let i = names.index_of(n);
    if i < names.len() - 1 {
        assert(names.drop_last()[i] == n);
        lemma_longest(names.drop_last(), n);
    }
}

/// A copy of an optional text.
pub fn copy_optional(t: &Option<String>) -> (r: Option<String>)
    ensures
        r == *t,
{
    match t {
        Some(s) => Some(s.clone()),
        None => None,
    }
}

} // verus!
