//! Text as sequences of characters: searching, splitting, joining, ordering and
//! decimal notation.
//!
//! Every executable function here is stated over the views of its strings, so the
//! contracts of the rest of the crate can speak of `Seq<char>` alone.

use vstd::prelude::*;
use vstd::relations::{sorted_by, total_ordering};

verus! {

// ---------------------------------------------------------------------------
// Equality and searching
// ---------------------------------------------------------------------------

/// `s` begins with `p`.
pub open spec fn has_prefix(s: Seq<char>, p: Seq<char>) -> bool {
    p.len() <= s.len() && s.subrange(0, p.len() as int) == p
}

/// `p` stands in `s` starting at `at`.
pub open spec fn occurs_at(s: Seq<char>, p: Seq<char>, at: int) -> bool {
    0 <= at && at + p.len() <= s.len() && s.subrange(at, at + p.len()) == p
}

/// `p` stands somewhere in `s`.
pub open spec fn has_infix(s: Seq<char>, p: Seq<char>) -> bool {
    exists|at: int| occurs_at(s, p, at)
}

/// Whether two strings hold the same characters.
pub fn str_eq(a: &str, b: &str) -> (r: bool)
    ensures
        r == (a@ == b@),
{
    a.to_owned() == b.to_owned()
}

/// The characters of a string, one by one.
pub fn to_chars(s: &str) -> (r: Vec<char>)
    ensures
        r@ == s@,
{
    let mut r: Vec<char> = Vec::new();
    for c in it: s.chars()
        invariant
            it.seq() == s@,
            r@ == s@.subrange(0, it.index() as int),
    {
        r.push(c);
        assert(s@.subrange(0, it.index() + 1) =~= s@.subrange(0, it.index() as int).push(c));
    }
    assert(s@.subrange(0, s@.len() as int) =~= s@);
    r
}

fn chars_match_at(s: &Vec<char>, p: &Vec<char>, at: usize) -> (r: bool)
    requires
        at + p@.len() <= s@.len(),
    ensures
        r == occurs_at(s@, p@, at as int),
{
    let n: usize = s.len();
    let mut i: usize = 0;
    while i < p.len()
        invariant
            i <= p@.len(),
            n == s@.len(),
            at + p@.len() <= n,
            forall|k: int| 0 <= k < i ==> s@[at + k] == p@[k],
        decreases p@.len() - i,
    {
        if s[at + i] != p[i] {
            assert(s@.subrange(at as int, at + p@.len())[i as int] == s@[at + i]);
            return false;
        }
        i += 1;
    }
    assert(s@.subrange(at as int, at + p@.len()) =~= p@);
    true
}

/// Whether `s` begins with `p`.
pub fn starts_with(s: &str, p: &str) -> (r: bool)
    ensures
        r == has_prefix(s@, p@),
{
    let sc = to_chars(s);
    let pc = to_chars(p);
    if pc.len() > sc.len() {
        return false;
    }
    chars_match_at(&sc, &pc, 0)
}

/// Whether `p` stands somewhere in `s`.
pub fn contains(s: &str, p: &str) -> (r: bool)
    ensures
        r == has_infix(s@, p@),
{
    let sc = to_chars(s);
    let pc = to_chars(p);
    if pc.len() > sc.len() {
        return false;
    }
    let last: usize = sc.len() - pc.len();
    let mut at: usize = 0;
    while at <= last
        invariant
            at <= last + 1,
            last == sc@.len() - pc@.len(),
            sc@ == s@,
            pc@ == p@,
            forall|k: int| 0 <= k < at ==> !occurs_at(s@, p@, k),
        decreases last + 1 - at,
    {
        if chars_match_at(&sc, &pc, at) {
            return true;
        }
        if at == last {
            return false;
        }
        at += 1;
    }
    false
}

/// What follows the prefix `p` in `s`, if `s` begins with it.
pub fn strip_prefix(s: &str, p: &str) -> (r: Option<String>)
    ensures
        r is Some <==> has_prefix(s@, p@),
        r matches Some(rest) ==> s@ == p@ + rest@,
{
    if starts_with(s, p) {
        let from: usize = p.unicode_len();
        let to: usize = s.unicode_len();
        let rest = s.substring_char(from, to).to_owned();
        assert(s@ =~= p@ + rest@);
        Some(rest)
    } else {
        None
    }
}

// ---------------------------------------------------------------------------
// Joining
// ---------------------------------------------------------------------------

/// The pieces one after the other, with `sep` between each two of them.
pub open spec fn joined(pieces: Seq<Seq<char>>, sep: Seq<char>) -> Seq<char>
    decreases pieces.len(),
{
    if pieces.len() == 0 {
        Seq::empty()
    } else if pieces.len() == 1 {
        pieces[0]
    } else {
        joined(pieces.drop_last(), sep) + sep + pieces.last()
    }
}

/// The views of a vector of strings.
pub open spec fn views(v: Seq<String>) -> Seq<Seq<char>> {
    Seq::new(v.len(), |i: int| v[i]@)
}

/// `a` followed by `b`.
pub fn concat(a: &str, b: &str) -> (r: String)
    ensures
        r@ == a@ + b@,
{
    let mut r = a.to_owned();
    r.append(b);
    r
}

/// Joins strings with a separator.
pub fn join(pieces: &Vec<String>, sep: &str) -> (r: String)
    ensures
        r@ == joined(views(pieces@), sep@),
{
    let mut r = String::new();
    let mut i: usize = 0;
    while i < pieces.len()
        invariant
            i <= pieces@.len(),
            r@ == joined(views(pieces@).subrange(0, i as int), sep@),
        decreases pieces@.len() - i,
    {
        proof {
            let whole = views(pieces@).subrange(0, i + 1);
            assert(whole.drop_last() =~= views(pieces@).subrange(0, i as int));
            assert(whole.last() == pieces@[i as int]@);
        }
        if i > 0 {
            r.append(sep);
        }
        r.append(pieces[i].as_str());
        proof {
            if i == 0 {
                assert(r@ =~= pieces@[0]@);
            }
        }
        i += 1;
    }
    assert(views(pieces@).subrange(0, pieces@.len() as int) =~= views(pieces@));
    r
}

/// A copy of a vector of strings.
pub fn copy_strings(v: &Vec<String>) -> (r: Vec<String>)
    ensures
        views(r@) == views(v@),
{
    let mut r: Vec<String> = Vec::new();
    let mut i: usize = 0;
    while i < v.len()
        invariant
            i <= v@.len(),
            r@.len() == i,
            forall|k: int| 0 <= k < i ==> r@[k]@ == v@[k]@,
        decreases v@.len() - i,
    {
        r.push(v[i].clone());
        i += 1;
    }
    assert(views(r@) =~= views(v@));
    r
}

/// Whether two vectors hold the same strings in the same order.
pub fn strings_eq(a: &Vec<String>, b: &Vec<String>) -> (r: bool)
    ensures
        r == (views(a@) == views(b@)),
{
    if a.len() != b.len() {
        assert(views(a@).len() != views(b@).len());
        return false;
    }
    let mut i: usize = 0;
    while i < a.len()
        invariant
            i <= a@.len(),
            a@.len() == b@.len(),
            forall|k: int| 0 <= k < i ==> a@[k]@ == b@[k]@,
        decreases a@.len() - i,
    {
        if a[i] != b[i] {
            assert(views(a@)[i as int] != views(b@)[i as int]);
            return false;
        }
        i += 1;
    }
    assert(views(a@) =~= views(b@));
    true
}

// ---------------------------------------------------------------------------
// Lines
// ---------------------------------------------------------------------------

/// A line as it stands before its line feed, without a carriage return at its end.
pub open spec fn without_return(line: Seq<char>) -> Seq<char> {
    if line.len() > 0 && line.last() == '\r' {
        line.drop_last()
    } else {
        line
    }
}

/// The lines of `s`, where `line` is what has been read of the line at hand. A line
/// ends with a line feed or with a carriage return and a line feed; the line end
/// after the last line may be missing.
pub open spec fn lines_from(line: Seq<char>, s: Seq<char>) -> Seq<Seq<char>>
    decreases s.len(),
{
    if s.len() == 0 {
        if line.len() == 0 {
            Seq::empty()
        } else {
            seq![line]
        }
    } else if s[0] == '\n' {
        seq![without_return(line)] + lines_from(Seq::empty(), s.drop_first())
    } else {
        lines_from(line.push(s[0]), s.drop_first())
    }
}

/// The lines of `s`.
pub open spec fn lines_of(s: Seq<char>) -> Seq<Seq<char>> {
    lines_from(Seq::empty(), s)
}

/// Splits a string into its lines.
pub fn lines(s: &str) -> (r: Vec<String>)
    ensures
        views(r@) == lines_of(s@),
{
    let chars = to_chars(s);
    let mut r: Vec<String> = Vec::new();
    let mut start: usize = 0;
    let mut i: usize = 0;
    proof {
        assert(s@.subrange(0, 0) =~= Seq::<char>::empty());
        assert(s@.subrange(0, s@.len() as int) =~= s@);
        assert(views(r@) + lines_of(s@) =~= lines_of(s@));
    }
    while i < chars.len()
        invariant
            chars@ == s@,
            start <= i <= s@.len(),
            lines_of(s@) == views(r@) + lines_from(
                s@.subrange(start as int, i as int),
                s@.subrange(i as int, s@.len() as int),
            ),
        decreases s@.len() - i,
    {
        let ghost line = s@.subrange(start as int, i as int);
        let ghost rest = s@.subrange(i as int, s@.len() as int);
        proof {
            assert(rest[0] == s@[i as int]);
            assert(rest.drop_first() =~= s@.subrange(i + 1, s@.len() as int));
            assert(line.push(rest[0]) =~= s@.subrange(start as int, i + 1));
        }
        if chars[i] == '\n' {
            let ghost before = views(r@);
            let end: usize = if i > start && chars[i - 1] == '\r' {
                i - 1
            } else {
                i
            };
            let piece = s.substring_char(start, end).to_owned();
            proof {
                if i > start {
                    assert(line.last() == s@[i - 1]);
                    assert(line.drop_last() =~= s@.subrange(start as int, i - 1));
                }
                assert(piece@ == without_return(line));
            }
            r.push(piece);
            start = i + 1;
            proof {
                assert(views(r@) =~= before + seq![piece@]);
                assert(s@.subrange(start as int, i + 1) =~= Seq::<char>::empty());
                assert(before + (seq![piece@] + lines_from(Seq::empty(), rest.drop_first()))
                    =~= views(r@) + lines_from(Seq::empty(), rest.drop_first()));
            }
        }
        i += 1;
    }
    assert(s@.subrange(i as int, s@.len() as int) =~= Seq::<char>::empty());
    if start < chars.len() {
        let ghost before = views(r@);
        let piece = s.substring_char(start, chars.len()).to_owned();
        r.push(piece);
        assert(views(r@) =~= before + seq![piece@]);
    } else {
        assert(views(r@) + Seq::<Seq<char>>::empty() =~= views(r@));
    }
    r
}

// ---------------------------------------------------------------------------
// Decimal notation
// ---------------------------------------------------------------------------

/// The character of a decimal digit.
pub open spec fn digit(d: nat) -> char {
    ('0' as u32 + d) as char
}

/// A natural number in decimal notation.
pub open spec fn decimal(n: nat) -> Seq<char>
    decreases n,
{
    if n < 10 {
        seq![digit(n)]
    } else {
        decimal(n / 10).push(digit(n % 10))
    }
}

/// An integer in decimal notation, with a minus sign where it is negative.
pub open spec fn decimal_int(n: int) -> Seq<char> {
    if n < 0 {
        seq!['-'] + decimal((-n) as nat)
    } else {
        decimal(n as nat)
    }
}

fn digit_text(d: u64) -> (r: &'static str)
    requires
        d < 10,
    ensures
        r@ == seq![digit(d as nat)],
{
    proof {
        reveal_strlit("0");
        reveal_strlit("1");
        reveal_strlit("2");
        reveal_strlit("3");
        reveal_strlit("4");
        reveal_strlit("5");
        reveal_strlit("6");
        reveal_strlit("7");
        reveal_strlit("8");
        reveal_strlit("9");
    }
    let r = if d == 0 {
        "0"
    } else if d == 1 {
        "1"
    } else if d == 2 {
        "2"
    } else if d == 3 {
        "3"
    } else if d == 4 {
        "4"
    } else if d == 5 {
        "5"
    } else if d == 6 {
        "6"
    } else if d == 7 {
        "7"
    } else if d == 8 {
        "8"
    } else {
        "9"
    };
    assert(r@ =~= seq![digit(d as nat)]);
    r
}

/// Writes an unsigned number in decimal notation.
pub fn u64_text(n: u64) -> (r: String)
    ensures
        r@ == decimal(n as nat),
    decreases n,
{
    if n < 10 {
        digit_text(n).to_owned()
    } else {
        let mut r = u64_text(n / 10);
        let ghost head = r@;
        r.append(digit_text(n % 10));
        assert(head + seq![digit((n % 10) as nat)] =~= head.push(digit((n % 10) as nat)));
        r
    }
}

/// Writes a signed number in decimal notation.
pub fn i64_text(n: i64) -> (r: String)
    ensures
        r@ == decimal_int(n as int),
{
    if n < 0 {
        proof {
            reveal_strlit("-");
        }
        let magnitude: u64 = if n == i64::MIN {
            0x8000_0000_0000_0000u64
        } else {
            (-n) as u64
        };
        let r = concat("-", u64_text(magnitude).as_str());
        assert("-"@ =~= seq!['-']);
        r
    } else {
        u64_text(n as u64)
    }
}

/// The value of a decimal digit, if the character is one.
pub open spec fn digit_value(c: char) -> Option<nat> {
    if '0' <= c && c <= '9' {
        Some((c as u32 - '0' as u32) as nat)
    } else {
        None
    }
}

/// The value of a sequence of decimal digits, if it holds nothing else.
pub open spec fn digits_value(s: Seq<char>) -> Option<nat>
    decreases s.len(),
{
    if s.len() == 0 {
        Some(0)
    } else {
        match (digits_value(s.drop_last()), digit_value(s.last())) {
            (Some(head), Some(d)) => Some(head * 10 + d),
            _ => None,
        }
    }
}

/// The number that `s` writes: decimal digits, at least one, after an optional plus
/// sign, with a value of at most `max`.
pub open spec fn parsed_unsigned(s: Seq<char>, max: nat) -> Option<nat> {
    let digits = if s.len() > 0 && s[0] == '+' {
        s.drop_first()
    } else {
        s
    };
    if digits.len() == 0 {
        None
    } else {
        match digits_value(digits) {
            Some(n) => if n <= max {
                Some(n)
            } else {
                None
            },
            None => None,
        }
    }
}

/// A prefix of digits is itself made of digits, and its value is no larger.
proof fn lemma_digits_prefix(s: Seq<char>, k: int)
    requires
        0 <= k <= s.len(),
    ensures
        digits_value(s.subrange(0, k)) is None ==> digits_value(s) is None,
        digits_value(s) is Some ==> digits_value(s.subrange(0, k)) is Some && digits_value(
            s.subrange(0, k),
        )->0 <= digits_value(s)->0,
    decreases s.len() - k,
{
    if k == s.len() {
        assert(s.subrange(0, k) =~= s);
    } else {
        lemma_digits_prefix(s, k + 1);
        let next = s.subrange(0, k + 1);
        assert(next.drop_last() =~= s.subrange(0, k));
    }
}

/// Reads an unsigned number of sixteen bits.
pub fn parse_u16(s: &str) -> (r: Option<u16>)
    ensures
        r matches Some(n) ==> parsed_unsigned(s@, u16::MAX as nat) == Some(n as nat),
        r is None ==> parsed_unsigned(s@, u16::MAX as nat) is None,
{
    let chars = to_chars(s);
    let from: usize = if chars.len() > 0 && chars[0] == '+' {
        1
    } else {
        0
    };
    let ghost digits = s@.subrange(from as int, s@.len() as int);
    proof {
        if from == 1 {
            assert(digits =~= s@.drop_first());
        } else {
            assert(digits =~= s@);
        }
    }
    if chars.len() == from {
        return None;
    }
    let mut value: u32 = 0;
    let mut i: usize = from;
    assert(digits.subrange(0, 0) =~= Seq::<char>::empty());
    while i < chars.len()
        invariant
            chars@ == s@,
            from <= i <= s@.len(),
            digits == s@.subrange(from as int, s@.len() as int),
            digits.len() > 0,
            digits == if s@.len() > 0 && s@[0] == '+' {
                s@.drop_first()
            } else {
                s@
            },
            digits_value(digits.subrange(0, i - from)) == Some(value as nat),
            value <= u16::MAX,
        decreases s@.len() - i,
    {
        let c = chars[i];
        proof {
            let k = i - from;
            lemma_digits_prefix(digits, k + 1);
            assert(digits.subrange(0, k + 1).drop_last() =~= digits.subrange(0, k));
            assert(digits.subrange(0, k + 1).last() == c);
        }
        if c < '0' || c > '9' {
            return None;
        }
        let d: u32 = c as u32 - '0' as u32;
        value = value * 10 + d;
        if value > 65535 {
            return None;
        }
        i += 1;
    }
    assert(digits.subrange(0, digits.len() as int) =~= digits);
    Some(value as u16)
}

// ---------------------------------------------------------------------------
// Order
// ---------------------------------------------------------------------------

/// The order of strings: the first character in which they differ decides, by its
/// code point; a string comes before its continuations.
pub open spec fn text_le(a: Seq<char>, b: Seq<char>) -> bool
    decreases a.len(),
{
    if a.len() == 0 {
        true
    } else if b.len() == 0 {
        false
    } else if a[0] != b[0] {
        a[0] < b[0]
    } else {
        text_le(a.drop_first(), b.drop_first())
    }
}

/// `text_le` as a relation.
pub open spec fn text_order() -> spec_fn(Seq<char>, Seq<char>) -> bool {
    |a: Seq<char>, b: Seq<char>| text_le(a, b)
}

/// The texts in ascending order.
pub open spec fn sorted_texts(texts: Seq<Seq<char>>) -> Seq<Seq<char>> {
    texts.sort_by(text_order())
}

proof fn lemma_text_le_reflexive(a: Seq<char>)
    ensures
        text_le(a, a),
    decreases a.len(),
{
    if a.len() > 0 {
        lemma_text_le_reflexive(a.drop_first());
    }
}

proof fn lemma_text_le_antisymmetric(a: Seq<char>, b: Seq<char>)
    requires
        text_le(a, b),
        text_le(b, a),
    ensures
        a == b,
    decreases a.len(),
{
    if a.len() > 0 && b.len() > 0 {
        lemma_text_le_antisymmetric(a.drop_first(), b.drop_first());
        assert(a =~= seq![a[0]] + a.drop_first());
        assert(b =~= seq![b[0]] + b.drop_first());
    } else {
        assert(a =~= b);
    }
}

proof fn lemma_text_le_transitive(a: Seq<char>, b: Seq<char>, c: Seq<char>)
    requires
        text_le(a, b),
        text_le(b, c),
    ensures
        text_le(a, c),
    decreases a.len(),
{
    if a.len() > 0 && b.len() > 0 && c.len() > 0 && a[0] == b[0] && b[0] == c[0] {
        lemma_text_le_transitive(a.drop_first(), b.drop_first(), c.drop_first());
    }
}

proof fn lemma_text_le_total(a: Seq<char>, b: Seq<char>)
    ensures
        text_le(a, b) || text_le(b, a),
    decreases a.len(),
{
    if a.len() > 0 && b.len() > 0 && a[0] == b[0] {
        lemma_text_le_total(a.drop_first(), b.drop_first());
    }
}

/// The order of strings is total.
pub proof fn lemma_text_order_total()
    ensures
        total_ordering(text_order()),
{
    let r = text_order();
    assert forall|x: Seq<char>| #[trigger] r(x, x) by {
        lemma_text_le_reflexive(x);
    }
    assert forall|x: Seq<char>, y: Seq<char>| #[trigger] r(x, y) && #[trigger] r(y, x) implies x
        == y by {
        lemma_text_le_antisymmetric(x, y);
    }
    assert forall|x: Seq<char>, y: Seq<char>, z: Seq<char>| #[trigger] r(x, y) && #[trigger] r(
        y,
        z,
    ) implies r(x, z) by {
        lemma_text_le_transitive(x, y, z);
    }
    assert forall|x: Seq<char>, y: Seq<char>| #[trigger] r(x, y) || #[trigger] r(y, x) by {
        lemma_text_le_total(x, y);
    }
}

/// Sorting keeps the texts and puts them in ascending order; it does not depend on the
/// order in which they were given.
pub proof fn lemma_sorted_texts(a: Seq<Seq<char>>, b: Seq<Seq<char>>)
    ensures
        sorted_texts(a).to_multiset() == a.to_multiset(),
        sorted_texts(a).len() == a.len(),
        sorted_by(sorted_texts(a), text_order()),
        a.to_multiset() == b.to_multiset() ==> sorted_texts(a) == sorted_texts(b),
{
    broadcast use vstd::seq_lib::group_to_multiset_ensures;

    lemma_text_order_total();
    a.lemma_sort_by_ensures(text_order());
    b.lemma_sort_by_ensures(text_order());
    assert(sorted_texts(a).to_multiset().len() == sorted_texts(a).len());
    if a.to_multiset() == b.to_multiset() {
        vstd::seq_lib::lemma_sorted_unique(sorted_texts(a), sorted_texts(b), text_order());
    }
}

/// Whether `a` comes before `b` or is equal to it.
pub fn text_before(a: &str, b: &str) -> (r: bool)
    ensures
        r == text_le(a@, b@),
{
    let ac = to_chars(a);
    let bc = to_chars(b);
    let mut i: usize = 0;
    assert(a@.subrange(0, a@.len() as int) =~= a@);
    assert(b@.subrange(0, b@.len() as int) =~= b@);
    loop
        invariant
            ac@ == a@,
            bc@ == b@,
            i <= a@.len(),
            i <= b@.len(),
            text_le(a@, b@) == text_le(
                a@.subrange(i as int, a@.len() as int),
                b@.subrange(i as int, b@.len() as int),
            ),
        decreases a@.len() - i,
    {
        if i == ac.len() {
            return true;
        }
        if i == bc.len() {
            return false;
        }
        if ac[i] != bc[i] {
            return ac[i] < bc[i];
        }
        proof {
            assert(a@.subrange(i as int, a@.len() as int).drop_first() =~= a@.subrange(
                i + 1,
                a@.len() as int,
            ));
            assert(b@.subrange(i as int, b@.len() as int).drop_first() =~= b@.subrange(
                i + 1,
                b@.len() as int,
            ));
        }
        i += 1;
    }
}

/// Sorts strings in ascending order.
pub fn sort_strings(v: &Vec<String>) -> (r: Vec<String>)
    ensures
        views(r@) == sorted_texts(views(v@)),
{
    let mut r: Vec<String> = Vec::new();
    let mut i: usize = 0;
    proof {
        lemma_text_order_total();
        assert(views(r@) =~= views(v@).subrange(0, 0));
    }
    while i < v.len()
        invariant
            i <= v@.len(),
            r@.len() == i,
            total_ordering(text_order()),
            sorted_by(views(r@), text_order()),
            views(r@).to_multiset() == views(v@).subrange(0, i as int).to_multiset(),
        decreases v@.len() - i,
    {
        let ghost before = views(r@);
        let ghost x = v@[i as int]@;
        let mut at: usize = r.len();
        while at > 0 && !text_before(r[at - 1].as_str(), v[i].as_str())
            invariant
                i < v@.len(),
                x == v@[i as int]@,
                at <= r@.len(),
                before == views(r@),
                total_ordering(text_order()),
                forall|k: int| at <= k < r@.len() ==> !text_le(#[trigger] before[k], x),
            decreases at,
        {
            assert(before[at - 1] == r@[at - 1]@);
            at -= 1;
        }
        r.insert(at, v[i].clone());
        proof {
            let le = text_order();
            assert(views(r@) =~= before.insert(at as int, x));
            assert forall|j: int, k: int| 0 <= j < k < views(r@).len() implies le(
                #[trigger] views(r@)[j],
                #[trigger] views(r@)[k],
            ) by {
                if k < at {
                    assert(le(before[j], before[k]));
                } else if k == at {
                    assert(le(before[at - 1], x));
                    if j < at - 1 {
                        assert(le(before[j], before[at - 1]));
                    }
                } else if j < at {
                    assert(le(before[j], before[k - 1]));
                } else if j == at {
                    assert(!text_le(before[k - 1], x));
                    assert(le(x, before[k - 1]) || le(before[k - 1], x));
                } else {
                    assert(le(before[j - 1], before[k - 1]));
                }
            }
            assert(views(v@).subrange(0, i + 1) =~= views(v@).subrange(0, i as int).push(x));
            vstd::seq_lib::to_multiset_insert(before, at as int, x);
            vstd::seq_lib::to_multiset_build(views(v@).subrange(0, i as int), x);
        }
        i += 1;
    }
    proof {
        assert(views(v@).subrange(0, v@.len() as int) =~= views(v@));
        lemma_sorted_texts(views(v@), views(v@));
        vstd::seq_lib::lemma_sorted_unique(views(r@), sorted_texts(views(v@)), text_order());
    }
    r
}

// ---------------------------------------------------------------------------
// Case
// ---------------------------------------------------------------------------

/// What `str::to_lowercase` makes of a text.
pub uninterp spec fn lowercase_of(s: Seq<char>) -> Seq<char>;

/// What `str::to_uppercase` makes of a text.
pub uninterp spec fn uppercase_of(s: Seq<char>) -> Seq<char>;

/// Calls `str::to_lowercase`. The contract names the result, which depends on the text
/// alone.
#[verifier::external_body]
pub(crate) fn lowercase(s: &str) -> (r: String)
    ensures
        r@ == lowercase_of(s@),
{
    s.to_lowercase()
}

/// Calls `str::to_uppercase`. The contract names the result, which depends on the text
/// alone.
#[verifier::external_body]
pub(crate) fn uppercase(s: &str) -> (r: String)
    ensures
        r@ == uppercase_of(s@),
{
    s.to_uppercase()
}

} // verus!
