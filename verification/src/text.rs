//! Character-level text: equality, order, joining, trimming and numbers.
//!
//! Every string in this crate is modelled by its sequence of characters, and
//! the functions here are the only places that look inside one.

use vstd::prelude::*;

verus! {

/// A value that can be copied without changing what it stands for.
pub trait Dup: DeepView + Sized {
    /// A copy with the same deep view.
    fn dup(&self) -> (out: Self)
        ensures
            out.deep_view() == self.deep_view(),
    ;
}

impl Dup for String {
    fn dup(&self) -> (out: Self) {
        self.clone()
    }
}

impl Dup for bool {
    fn dup(&self) -> (out: Self) {
        *self
    }
}

impl Dup for u32 {
    fn dup(&self) -> (out: Self) {
        *self
    }
}

impl Dup for u64 {
    fn dup(&self) -> (out: Self) {
        *self
    }
}

impl Dup for usize {
    fn dup(&self) -> (out: Self) {
        *self
    }
}

impl<A: Dup, B: Dup> Dup for (A, B) {
    fn dup(&self) -> (out: Self) {
        (self.0.dup(), self.1.dup())
    }
}

impl<T: Dup> Dup for Option<T> {
    fn dup(&self) -> (out: Self) {
        match self {
            Some(inner) => Some(inner.dup()),
            None => None,
        }
    }
}

impl<T: Dup> Dup for Box<T> {
    fn dup(&self) -> (out: Self) {
        Box::new((**self).dup())
    }
}

impl<T: Dup> Dup for Vec<T> {
    fn dup(&self) -> (out: Self) {
        let mut out: Vec<T> = Vec::new();
        for i in 0..self.len()
            invariant
                out.len() == i,
                out.deep_view() == self.deep_view().take(i as int),
        {
            out.push(self[i].dup());
            proof {
                assert(out.deep_view() =~= self.deep_view().take(i + 1));
            }
        }
        proof {
            assert(self.deep_view().take(self.len() as int) =~= self.deep_view());
        }
        out
    }
}

/// What an attempt came to: the value it gave, or why there is none.
pub open spec fn attempt<T: DeepView>(outcome: Result<T, String>) -> Result<T::V, Seq<char>> {
    match outcome {
        Ok(value) => Ok(value.deep_view()),
        Err(reason) => Err(reason@),
    }
}

/// Whether two strings hold the same characters.
pub fn same(a: &str, b: &str) -> (r: bool)
    ensures
        r == (a@ == b@),
{
    a.to_owned() == b.to_owned()
}

/// Whether `needle` is one of `haystack`.
pub fn contains(haystack: &[String], needle: &str) -> (r: bool)
    ensures
        r == haystack.deep_view().contains(needle@),
{
    for i in 0..haystack.len()
        invariant
            forall|j: int| 0 <= j < i ==> haystack.deep_view()[j] != needle@,
    {
        if same(haystack[i].as_str(), needle) {
            proof {
                assert(haystack.deep_view()[i as int] == needle@);
            }
            return true;
        }
    }
    false
}

/// The parts in order, with the separator between each two.
pub open spec fn joined(parts: Seq<Seq<char>>, sep: Seq<char>) -> Seq<char>
    decreases parts.len(),
{
    if parts.len() == 0 {
        seq![]
    } else if parts.len() == 1 {
        parts[0]
    } else {
        joined(parts.drop_last(), sep) + sep + parts.last()
    }
}

/// One string out of the parts, with the separator between each two.
pub fn join(parts: &[String], sep: &str) -> (r: String)
    ensures
        r@ == joined(parts.deep_view(), sep@),
{
    let mut out = String::new();
    for i in 0..parts.len()
        invariant
            out@ == joined(parts.deep_view().take(i as int), sep@),
    {
        let ghost before = parts.deep_view().take(i as int);
        let ghost after = parts.deep_view().take(i + 1);
        if i > 0 {
            out.append(sep);
        }
        out.append(parts[i].as_str());
        proof {
            assert(after.drop_last() =~= before);
            assert(after.last() == parts[i as int]@);
            if i == 0 {
                assert(before =~= seq![]);
                assert(Seq::<char>::empty() + parts[0]@ =~= parts[0]@);
            }
        }
    }
    proof {
        assert(parts.deep_view().take(parts.len() as int) =~= parts.deep_view());
    }
    out
}

/// The decimal digit of a number below ten.
pub open spec fn digit(d: nat) -> char {
    if d == 0 {
        '0'
    } else if d == 1 {
        '1'
    } else if d == 2 {
        '2'
    } else if d == 3 {
        '3'
    } else if d == 4 {
        '4'
    } else if d == 5 {
        '5'
    } else if d == 6 {
        '6'
    } else if d == 7 {
        '7'
    } else if d == 8 {
        '8'
    } else {
        '9'
    }
}

/// A number written in decimal, without leading zeros.
pub open spec fn decimal(n: nat) -> Seq<char>
    decreases n,
{
    if n < 10 {
        seq![digit(n)]
    } else {
        decimal(n / 10).push(digit(n % 10))
    }
}

/// Two numbers that are written the same are the same number.
pub proof fn law_decimal_is_injective(a: nat, b: nat)
    requires
        decimal(a) == decimal(b),
    ensures
        a == b,
    decreases a,
{
    lemma_decimal_length(a);
    lemma_decimal_length(b);
    if a < 10 || b < 10 {
        assert(a < 10 && b < 10);
        assert(decimal(a)[0] == digit(a) && decimal(b)[0] == digit(b));
        lemma_digit_is_injective(a, b);
    } else {
        let x = decimal(a);
        let y = decimal(b);
        assert(x.last() == digit(a % 10) && y.last() == digit(b % 10));
        assert(x.drop_last() =~= decimal(a / 10));
        assert(y.drop_last() =~= decimal(b / 10));
        law_decimal_is_injective(a / 10, b / 10);
        lemma_digit_is_injective(a % 10, b % 10);
        assert(a == 10 * (a / 10) + a % 10 && b == 10 * (b / 10) + b % 10);
    }
}

/// Two digits that are written the same are the same digit.
proof fn lemma_digit_is_injective(a: nat, b: nat)
    requires
        a < 10,
        b < 10,
        digit(a) == digit(b),
    ensures
        a == b,
{
}

/// A number below ten has one digit, any other has more.
proof fn lemma_decimal_length(n: nat)
    ensures
        decimal(n).len() >= 1,
        decimal(n).len() == 1 <==> n < 10,
    decreases n,
{
    if n >= 10 {
        lemma_decimal_length(n / 10);
    }
}

/// The one-character string of a decimal digit.
fn digit_str(d: u64) -> (r: &'static str)
    requires
        d < 10,
    ensures
        r@ == seq![digit(d as nat)],
{
    proof {
        reveal_strlit("0");
        reveal_strlit("1");
        reveal_strlit("2");
        reveal_strlit("3");
        reveal_strlit("4");
        reveal_strlit("5");
        reveal_strlit("6");
        reveal_strlit("7");
        reveal_strlit("8");
        reveal_strlit("9");
    }
    if d == 0 {
        "0"
    } else if d == 1 {
        "1"
    } else if d == 2 {
        "2"
    } else if d == 3 {
        "3"
    } else if d == 4 {
        "4"
    } else if d == 5 {
        "5"
    } else if d == 6 {
        "6"
    } else if d == 7 {
        "7"
    } else if d == 8 {
        "8"
    } else {
        "9"
    }
}

/// A number as decimal text.
pub fn number(n: u64) -> (r: String)
    ensures
        r@ == decimal(n as nat),
    decreases n,
{
    if n < 10 {
        digit_str(n).to_owned()
    } else {
        let mut out = number(n / 10);
        out.append(digit_str(n % 10));
        proof {
            assert(out@ =~= decimal((n / 10) as nat).push(digit((n % 10) as nat)));
        }
        out
    }
}

/// Unicode's `White_Space` property.
pub open spec fn is_white_space(c: char) -> bool {
    let n = c as int;
    ||| 0x9 <= n <= 0xd
    ||| n == 0x20
    ||| n == 0x85
    ||| n == 0xa0
    ||| n == 0x1680
    ||| 0x2000 <= n <= 0x200a
    ||| n == 0x2028
    ||| n == 0x2029
    ||| n == 0x202f
    ||| n == 0x205f
    ||| n == 0x3000
}

/// Whether a character is white space.
pub fn white_space(c: char) -> (r: bool)
    ensures
        r == is_white_space(c),
{
    let n: u32 = c as u32;
    (0x9 <= n && n <= 0xd) || n == 0x20 || n == 0x85 || n == 0xa0 || n == 0x1680 || (0x2000 <= n
        && n <= 0x200a) || n == 0x2028 || n == 0x2029 || n == 0x202f || n == 0x205f || n == 0x3000
}

/// The text without the white space it starts with.
pub open spec fn trimmed_start(s: Seq<char>) -> Seq<char>
    decreases s.len(),
{
    if s.len() > 0 && is_white_space(s[0]) {
        trimmed_start(s.drop_first())
    } else {
        s
    }
}

/// The text without the white space it ends with.
pub open spec fn trimmed_end(s: Seq<char>) -> Seq<char>
    decreases s.len(),
{
    if s.len() > 0 && is_white_space(s.last()) {
        trimmed_end(s.drop_last())
    } else {
        s
    }
}

/// The text without white space at either end.
pub open spec fn trimmed(s: Seq<char>) -> Seq<char> {
    trimmed_end(trimmed_start(s))
}

/// Trimming the start of a text never leaves white space there, and keeps what
/// stands at its end.
proof fn lemma_trimmed_start(s: Seq<char>)
    ensures
        trimmed_start(s).len() == 0 || !is_white_space(trimmed_start(s)[0]),
        trimmed_start(s).len() > 0 ==> trimmed_start(s).last() == s.last(),
    decreases s.len(),
{
    if s.len() > 0 && is_white_space(s[0]) {
        lemma_trimmed_start(s.drop_first());
    }
}

/// Trimming the end of a text never leaves white space there, and keeps what
/// stands at its start.
proof fn lemma_trimmed_end(s: Seq<char>)
    ensures
        trimmed_end(s).len() == 0 || !is_white_space(trimmed_end(s).last()),
        trimmed_end(s).len() > 0 ==> trimmed_end(s)[0] == s[0],
    decreases s.len(),
{
    if s.len() > 0 && is_white_space(s.last()) {
        lemma_trimmed_end(s.drop_last());
    }
}

/// Trimming a trimmed text changes nothing.
pub proof fn law_trimming_twice_is_trimming(s: Seq<char>)
    ensures
        trimmed(trimmed(s)) == trimmed(s),
{
    let a = trimmed_start(s);
    let b = trimmed_end(a);
    lemma_trimmed_start(s);
    lemma_trimmed_end(a);
}

/// The characters of a string.
pub fn chars_of(s: &str) -> (r: Vec<char>)
    ensures
        r@ == s@,
{
    let mut out: Vec<char> = Vec::new();
    for c in it: s.chars()
        invariant
            out@ == it.seq().take(it.index() as int),
    {
        out.push(c);
        proof {
            assert(it.seq().take(it.index() + 1) =~= it.seq().take(it.index() as int).push(c));
        }
    }
    out
}

/// The text without white space at either end.
pub fn trim(s: &str) -> (r: &str)
    ensures
        r@ == trimmed(s@),
{
    let cs = chars_of(s);
    let mut from: usize = 0;
    assert(s@.skip(0) =~= s@);
    while from < cs.len() && white_space(cs[from])
        invariant
            from <= cs.len(),
            cs@ == s@,
            trimmed_start(s@.skip(from as int)) == trimmed_start(s@),
        decreases cs.len() - from,
    {
        proof {
            assert(s@.skip(from as int).drop_first() =~= s@.skip(from + 1));
        }
        from = from + 1;
    }
    let ghost kept = s@.skip(from as int);
    assert(trimmed_start(s@) == kept);
    let mut to: usize = cs.len();
    assert(kept.take(to - from) =~= kept);
    while to > from && white_space(cs[to - 1])
        invariant
            from <= to <= cs.len(),
            cs@ == s@,
            kept == s@.skip(from as int),
            trimmed_end(kept.take(to - from)) == trimmed_end(kept),
        decreases to,
    {
        proof {
            let cut = kept.take(to - from);
            assert(cut.last() == s@[to - 1]);
            assert(cut.drop_last() =~= kept.take(to - 1 - from));
        }
        to = to - 1;
    }
    proof {
        let cut = kept.take(to - from);
        assert(trimmed_end(cut) == cut);
        assert(cut =~= s@.subrange(from as int, to as int));
    }
    s.substring_char(from, to)
}

/// The text behind a prefix, when it begins with it.
pub open spec fn behind(s: Seq<char>, prefix: Seq<char>) -> Option<Seq<char>> {
    if prefix.is_prefix_of(s) {
        Some(s.skip(prefix.len() as int))
    } else {
        None
    }
}

/// Whether the characters from a position on begin with these.
fn begins_at(chars: &[char], at: usize, prefix: &[char]) -> (r: bool)
    requires
        at <= chars@.len(),
    ensures
        r == prefix@.is_prefix_of(chars@.skip(at as int)),
{
    if prefix.len() > chars.len() - at {
        return false;
    }
    for i in 0..prefix.len()
        invariant
            at <= chars@.len(),
            prefix.len() <= chars.len() - at,
            forall|j: int| 0 <= j < i ==> prefix@[j] == chars@.skip(at as int)[j],
    {
        if prefix[i] != chars[at + i] {
            proof {
                assert(prefix@[i as int] != chars@.skip(at as int)[i as int]);
            }
            return false;
        }
        proof {
            assert(prefix@[i as int] == chars@.skip(at as int)[i as int]);
        }
    }
    proof {
        assert(chars@.skip(at as int).subrange(0, prefix@.len() as int) =~= prefix@);
    }
    true
}

/// The text behind a prefix, when it begins with it.
pub fn strip_prefix<'a>(s: &'a str, prefix: &str) -> (r: Option<&'a str>)
    ensures
        match r {
            Some(rest) => behind(s@, prefix@) == Some(rest@),
            None => behind(s@, prefix@) is None,
        },
{
    let chars = chars_of(s);
    let front = chars_of(prefix);
    proof {
        assert(chars@.skip(0) =~= chars@);
    }
    if !begins_at(&chars, 0, &front) {
        return None;
    }
    let rest = s.substring_char(front.len(), chars.len());
    proof {
        assert(rest@ =~= s@.skip(prefix@.len() as int));
    }
    Some(rest)
}

/// What comes before the first occurrence of a marker; everything when there is
/// none.
pub open spec fn up_to(s: Seq<char>, marker: Seq<char>) -> Seq<char>
    decreases s.len(),
{
    if s.len() == 0 || marker.is_prefix_of(s) {
        seq![]
    } else {
        seq![s[0]] + up_to(s.drop_first(), marker)
    }
}

/// Whether a marker occurs in a text.
pub open spec fn occurs(s: Seq<char>, marker: Seq<char>) -> bool {
    exists|i: int| 0 <= i <= s.len() && marker.is_prefix_of(#[trigger] s.skip(i))
}

/// What comes before the first occurrence of a marker, when it occurs.
pub fn text_before<'a>(s: &'a str, marker: &str) -> (r: Option<&'a str>)
    ensures
        match r {
            Some(front) => occurs(s@, marker@) && front@ == up_to(s@, marker@),
            None => !occurs(s@, marker@),
        },
{
    let chars = chars_of(s);
    let mark = chars_of(marker);
    let mut i: usize = 0;
    proof {
        assert(chars@.skip(0) =~= chars@);
        assert(chars@.take(0) + up_to(chars@.skip(0), mark@) =~= up_to(chars@, mark@));
    }
    while i < chars.len() && !begins_at(&chars, i, &mark)
        invariant
            i <= chars.len(),
            chars@.take(i as int) + up_to(chars@.skip(i as int), mark@) == up_to(chars@, mark@),
            forall|j: int| 0 <= j < i ==> !mark@.is_prefix_of(#[trigger] chars@.skip(j)),
        decreases chars.len() - i,
    {
        proof {
            let rest = chars@.skip(i as int);
            assert(rest.drop_first() =~= chars@.skip(i + 1));
            assert(chars@.take(i + 1) + up_to(chars@.skip(i + 1), mark@) =~= chars@.take(i as int)
                + up_to(rest, mark@));
        }
        i = i + 1;
    }
    if !begins_at(&chars, i, &mark) {
        return None;
    }
    proof {
        assert(up_to(chars@.skip(i as int), mark@) =~= seq![]);
        assert(chars@.take(i as int) + seq![] =~= chars@.take(i as int));
    }
    let front = s.substring_char(0, i);
    proof {
        assert(front@ =~= s@.take(i as int));
    }
    Some(front)
}

/// Whether `a` sorts before `b`: character by character, a prefix first.
pub open spec fn before(a: Seq<char>, b: Seq<char>) -> bool
    decreases a.len(),
{
    if b.len() == 0 {
        false
    } else if a.len() == 0 {
        true
    } else if a[0] == b[0] {
        before(a.drop_first(), b.drop_first())
    } else {
        (a[0] as int) < (b[0] as int)
    }
}

/// The order is irreflexive.
pub proof fn lemma_before_irreflexive(a: Seq<char>)
    ensures
        !before(a, a),
    decreases a.len(),
{
    if a.len() > 0 {
        lemma_before_irreflexive(a.drop_first());
    }
}

/// Of two different texts, exactly one sorts before the other.
pub proof fn lemma_before_total(a: Seq<char>, b: Seq<char>)
    ensures
        a != b ==> (before(a, b) <==> !before(b, a)),
        a == b || before(a, b) || before(b, a),
    decreases a.len(),
{
    if a.len() > 0 && b.len() > 0 {
        lemma_before_total(a.drop_first(), b.drop_first());
        assert(a =~= seq![a[0]] + a.drop_first());
        assert(b =~= seq![b[0]] + b.drop_first());
    } else if a.len() == 0 && b.len() == 0 {
        assert(a =~= b);
    }
}

/// The order is transitive.
pub proof fn lemma_before_transitive(a: Seq<char>, b: Seq<char>, c: Seq<char>)
    requires
        before(a, b),
        before(b, c),
    ensures
        before(a, c),
    decreases a.len(),
{
    if a.len() > 0 && a[0] == b[0] && b[0] == c[0] {
        lemma_before_transitive(a.drop_first(), b.drop_first(), c.drop_first());
    }
}

/// Whether `a` sorts before `b`.
pub fn sorts_before(a: &str, b: &str) -> (r: bool)
    ensures
        r == before(a@, b@),
{
    let x = chars_of(a);
    let y = chars_of(b);
    let mut i: usize = 0;
    assert(a@.skip(0) =~= a@ && b@.skip(0) =~= b@);
    while i < x.len() && i < y.len() && x[i] == y[i]
        invariant
            i <= x.len(),
            i <= y.len(),
            x@ == a@,
            y@ == b@,
            before(a@.skip(i as int), b@.skip(i as int)) == before(a@, b@),
        decreases x.len() - i,
    {
        proof {
            assert(a@.skip(i as int).drop_first() =~= a@.skip(i + 1));
            assert(b@.skip(i as int).drop_first() =~= b@.skip(i + 1));
        }
        i = i + 1;
    }
    if i >= y.len() {
        false
    } else if i >= x.len() {
        true
    } else {
        x[i] < y[i]
    }
}

/// Joining goes on where it left off: two lists that both hold something join
/// with one separator between them, a list of one is that one, and a list of
/// none is nothing.
pub proof fn law_joining_goes_on(a: Seq<Seq<char>>, b: Seq<Seq<char>>, sep: Seq<char>)
    ensures
        joined(Seq::empty(), sep) == Seq::<char>::empty(),
        a.len() == 1 ==> joined(a, sep) == a[0],
        a.len() > 0 && b.len() > 0 ==> joined(a + b, sep) == joined(a, sep) + sep + joined(b, sep),
    decreases b.len(),
{
    if a.len() > 0 && b.len() == 1 {
        assert((a + b).drop_last() =~= a);
    } else if a.len() > 0 && b.len() > 1 {
        let c = b.drop_last();
        law_joining_goes_on(a, c, sep);
        assert((a + b).drop_last() =~= a + c);
        assert(joined(a, sep) + sep + joined(b, sep) =~= joined(a, sep) + sep + joined(c, sep) + sep
            + b.last());
    }
}

/// A number is written digit by digit: its last digit is what is left over
/// when tens are taken out, and what stands before it is the number of tens.
pub proof fn law_a_number_is_written_digit_by_digit(n: nat)
    ensures
        n < 10 ==> decimal(n).len() == 1 && decimal(n)[0] as int == '0' as int + n,
        n >= 10 ==> decimal(n).drop_last() == decimal(n / 10) && decimal(n).last() as int
            == '0' as int + n % 10,
{
    if n >= 10 {
        assert(decimal(n).drop_last() =~= decimal(n / 10));
    }
}

/// Trimming takes off white space at both ends and nothing else.
pub proof fn law_trimming_takes_off_white_space_only(s: Seq<char>)
    ensures
        trimmed(s).len() > 0 ==> !is_white_space(trimmed(s)[0]) && !is_white_space(
            trimmed(s).last(),
        ),
        exists|from: int, to: int|
            0 <= from <= to <= s.len() && trimmed(s) == #[trigger] s.subrange(from, to) && (
            forall|i: int| 0 <= i < from || to <= i < s.len() ==> is_white_space(#[trigger] s[i])),
{
    let from = lemma_start_cut(s);
    let a = trimmed_start(s);
    lemma_trimmed_start(s);
    let keep = lemma_end_cut(a);
    lemma_trimmed_end(a);
    assert(trimmed(s) =~= s.subrange(from, from + keep));
    assert forall|i: int| 0 <= i < from || from + keep <= i < s.len() implies is_white_space(
        #[trigger] s[i],
    ) by {
        if i >= from {
            assert(s[i] == a[i - from]);
        }
    }
}

/// Where trimming the start of a text cuts it.
proof fn lemma_start_cut(s: Seq<char>) -> (from: int)
    ensures
        0 <= from <= s.len(),
        trimmed_start(s) == s.skip(from),
        forall|i: int| 0 <= i < from ==> is_white_space(#[trigger] s[i]),
    decreases s.len(),
{
    if s.len() > 0 && is_white_space(s[0]) {
        let rest = s.drop_first();
        let from = lemma_start_cut(rest);
        assert(rest.skip(from) =~= s.skip(from + 1));
        assert forall|i: int| 0 <= i < from + 1 implies is_white_space(#[trigger] s[i]) by {
            if i > 0 {
                assert(s[i] == rest[i - 1]);
            }
        }
        from + 1
    } else {
        assert(s.skip(0) =~= s);
        0
    }
}

/// Where trimming the end of a text cuts it.
proof fn lemma_end_cut(s: Seq<char>) -> (keep: int)
    ensures
        0 <= keep <= s.len(),
        trimmed_end(s) == s.take(keep),
        forall|i: int| keep <= i < s.len() ==> is_white_space(#[trigger] s[i]),
    decreases s.len(),
{
    if s.len() > 0 && is_white_space(s.last()) {
        let rest = s.drop_last();
        let keep = lemma_end_cut(rest);
        assert(rest.take(keep) =~= s.take(keep));
        assert forall|i: int| keep <= i < s.len() implies is_white_space(#[trigger] s[i]) by {
            if i < rest.len() {
                assert(s[i] == rest[i]);
            }
        }
        keep
    } else {
        assert(s.take(s.len() as int) =~= s);
        s.len() as int
    }
}

/// Texts are ordered as in a dictionary: by the first character in which they
/// differ, and a text before any that goes on from it. Of two texts exactly
/// one comes first, unless they are the same.
pub proof fn law_texts_are_ordered_as_in_a_dictionary(
    a: Seq<char>,
    b: Seq<char>,
    common: Seq<char>,
    c: char,
    d: char,
)
    ensures
        before(common, common + seq![c] + b),
        c < d ==> before(common + seq![c] + a, common + seq![d] + b),
        d < c ==> !before(common + seq![c] + a, common + seq![d] + b),
        !before(a, a),
        a != b ==> before(a, b) || before(b, a),
        before(a, b) ==> !before(b, a),
    decreases common.len(),
{
    lemma_before_irreflexive(a);
    lemma_before_total(a, b);
    if common.len() > 0 {
        let rest = common.drop_first();
        law_texts_are_ordered_as_in_a_dictionary(a, b, rest, c, d);
        assert((common + seq![c] + b).drop_first() =~= rest + seq![c] + b);
        assert((common + seq![c] + a).drop_first() =~= rest + seq![c] + a);
        assert((common + seq![d] + b).drop_first() =~= rest + seq![d] + b);
    }
}

/// What stands behind a prefix is the rest of the text; a text that does not
/// begin with it has nothing there.
pub proof fn law_what_stands_behind_a_prefix_is_the_rest(
    s: Seq<char>,
    prefix: Seq<char>,
    rest: Seq<char>,
)
    ensures
        behind(prefix + rest, prefix) == Some(rest),
        behind(s, prefix) matches Some(tail) ==> prefix + tail == s,
        behind(s, prefix) is None ==> !prefix.is_prefix_of(s),
{
    assert((prefix + rest).skip(prefix.len() as int) =~= rest);
    assert(prefix.is_prefix_of(prefix + rest));
    if prefix.is_prefix_of(s) {
        assert(prefix + s.skip(prefix.len() as int) =~= s);
    }
}

/// The space, the tab and the ends of lines are white space; letters, digits
/// and punctuation are not.
pub proof fn law_white_space_is_what_stands_between_words(c: char)
    ensures
        c == ' ' || c == '\t' || c == '\n' || c == '\r' ==> is_white_space(c),
        '!' <= c && c <= '~' ==> !is_white_space(c),
        is_white_space(c) ==> !('0' <= c && c <= '9') && !('a' <= c && c <= 'z') && !('A' <= c && c
            <= 'Z'),
{
}

} // verus!
