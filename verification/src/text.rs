//! Text helpers shared by the other modules: comparison, searching, joining and
//! number formatting over strings.

use vstd::prelude::*;
use vstd::string::*;

verus! {

/// What Unicode lower-casing makes of a text that is not pure ASCII.
pub uninterp spec fn unicode_lowercase(s: Seq<char>) -> Seq<char>;

/// Every character is an ASCII character.
pub open spec fn is_ascii_text(s: Seq<char>) -> bool {
    forall|i: int| 0 <= i < s.len() ==> (#[trigger] s[i] as int) < 128
}

/// The lower-case form of one ASCII character.
pub open spec fn ascii_lower_char(c: char) -> char {
    if 'A' <= c && c <= 'Z' {
        ((c as u32) + 32) as char
    } else {
        c
    }
}

/// The lower-case form of an ASCII text.
pub open spec fn ascii_lower(s: Seq<char>) -> Seq<char> {
    Seq::new(s.len(), |i: int| ascii_lower_char(s[i]))
}

/// The lower-case form of any text; the one in which names are compared.
pub open spec fn lowered(s: Seq<char>) -> Seq<char> {
    if is_ascii_text(s) {
        ascii_lower(s)
    } else {
        unicode_lowercase(s)
    }
}

/// `str::to_lowercase` of the standard library. Claims that ASCII letters are
/// mapped one by one and everything else in an ASCII text is kept, and that the
/// result for other texts depends on the text alone.
#[verifier::external_body]
pub(crate) fn to_lowercase(s: &str) -> (r: String)
    ensures
        r@ == (if is_ascii_text(s@) {
            ascii_lower(s@)
        } else {
            unicode_lowercase(s@)
        }),
{
    s.to_lowercase()
}

/// `String::push` of the standard library appends one character.
pub assume_specification[ String::push ](s: &mut String, c: char)
    ensures
        final(s)@ == old(s)@.push(c),
;

/// The texts held by a list of strings.
pub open spec fn texts(list: Seq<String>) -> Seq<Seq<char>> {
    Seq::new(list.len(), |i: int| list[i]@)
}

/// The texts held by a list of string slices.
pub open spec fn str_texts(list: Seq<&'static str>) -> Seq<Seq<char>> {
    Seq::new(list.len(), |i: int| list[i]@)
}

/// The text held by an optional string.
pub open spec fn opt_text(s: Option<String>) -> Option<Seq<char>> {
    match s {
        Some(s) => Some(s@),
        None => None,
    }
}

/// Lower-casing an ASCII text twice is the same as doing it once.
pub proof fn ascii_lowering_is_idempotent(s: Seq<char>)
    requires
        is_ascii_text(s),
    ensures
        lowered(lowered(s)) == lowered(s),
{
    let lower = ascii_lower(s);
    assert forall|i: int| 0 <= i < lower.len() implies (#[trigger] lower[i] as int) < 128
        && ascii_lower_char(lower[i]) == lower[i] by {
        let c = s[i];
        assert((c as int) < 128);
    }
    assert(ascii_lower(lower) =~= lower);
}

/// The lower-case forms of a list of texts.
pub open spec fn lowered_all(list: Seq<Seq<char>>) -> Seq<Seq<char>> {
    Seq::new(list.len(), |i: int| lowered(list[i]))
}

/// Lower-cases every text of a list.
pub fn lowercase_all(list: &Vec<String>) -> (r: Vec<String>)
    ensures
        texts(r@) == lowered_all(texts(list@)),
{
    let mut r: Vec<String> = Vec::new();
    let mut i: usize = 0;
    while i < list.len()
        invariant
            i <= list@.len(),
            texts(r@) == lowered_all(texts(list@)).take(i as int),
        decreases list@.len() - i,
    {
        let ghost before = r@;
        r.push(to_lowercase(list[i].as_str()));
        assert(texts(r@) =~= texts(before).push(lowered(texts(list@)[i as int])));
        assert(texts(r@) =~= lowered_all(texts(list@)).take(i + 1));
        i = i + 1;
    }
    assert(texts(r@) =~= lowered_all(texts(list@)));
    r
}

/// Whether two texts are the same.
pub fn same_text(a: &str, b: &str) -> (r: bool)
    ensures
        r == (a@ == b@),
{
    a.to_owned() == b.to_owned()
}

/// Whether `text` occurs in `list`.
pub fn list_contains(list: &Vec<String>, text: &str) -> (r: bool)
    ensures
        r == texts(list@).contains(text@),
{
    let mut i: usize = 0;
    while i < list.len()
        invariant
            i <= list@.len(),
            forall|j: int| 0 <= j < i ==> texts(list@)[j] != text@,
        decreases list@.len() - i,
    {
        if same_text(list[i].as_str(), text) {
            assert(texts(list@)[i as int] == text@);
            return true;
        }
        i = i + 1;
    }
    false
}

/// Whether `text` is one of `names`.
pub fn is_one_of(text: &str, names: &Vec<&'static str>) -> (r: bool)
    ensures
        r == str_texts(names@).contains(text@),
{
    let mut i: usize = 0;
    while i < names.len()
        invariant
            i <= names@.len(),
            forall|j: int| 0 <= j < i ==> str_texts(names@)[j] != text@,
        decreases names@.len() - i,
    {
        if same_text(names[i], text) {
            assert(str_texts(names@)[i as int] == text@);
            return true;
        }
        i = i + 1;
    }
    false
}

/// The characters of a text.
pub fn to_chars(s: &str) -> (r: Vec<char>)
    ensures
        r@ == s@,
{
    let mut r: Vec<char> = Vec::new();
    for c in it: s.chars()
        invariant
            r@ == it.seq().take(it.index()),
            it.seq() == s@,
    {
        r.push(c);
    }
    r
}

/// The string made of `chars`.
pub fn from_chars(chars: &Vec<char>) -> (r: String)
    ensures
        r@ == chars@,
{
    let mut r: String = String::new();
    let mut i: usize = 0;
    while i < chars.len()
        invariant
            i <= chars@.len(),
            r@ == chars@.take(i as int),
        decreases chars@.len() - i,
    {
        r.push(chars[i]);
        assert(chars@.take(i + 1) == chars@.take(i as int).push(chars@[i as int]));
        i = i + 1;
    }
    assert(chars@.take(i as int) == chars@);
    r
}

/// Whether `text` begins with `prefix`.
pub fn starts_with(text: &str, prefix: &str) -> (r: bool)
    ensures
        r == prefix@.is_prefix_of(text@),
{
    let t: Vec<char> = to_chars(text);
    let p: Vec<char> = to_chars(prefix);
    occurs_at(&t, &p, 0)
}

/// `part` stands in `text` at position `at`.
pub open spec fn occurs_at_spec(text: Seq<char>, part: Seq<char>, at: int) -> bool {
    0 <= at <= text.len() - part.len() && text.subrange(at, at + part.len()) == part
}

/// `part` stands somewhere in `text`.
pub open spec fn contains_part(text: Seq<char>, part: Seq<char>) -> bool {
    exists|at: int| occurs_at_spec(text, part, at)
}

fn occurs_at(text: &Vec<char>, part: &Vec<char>, at: usize) -> (r: bool)
    requires
        at <= text@.len(),
    ensures
        r == occurs_at_spec(text@, part@, at as int),
        at == 0 ==> r == part@.is_prefix_of(text@),
{
    if part.len() > text.len() - at {
        return false;
    }
    let mut i: usize = 0;
    while i < part.len()
        invariant
            i <= part@.len(),
            at + part@.len() <= text.len(),
            forall|j: int| 0 <= j < i ==> text@[at + j] == part@[j],
        decreases part@.len() - i,
    {
        if text[at + i] != part[i] {
            assert(text@.subrange(at as int, at + part@.len())[i as int] != part@[i as int]);
            return false;
        }
        i = i + 1;
    }
    assert(text@.subrange(at as int, at + part@.len()) =~= part@);
    true
}

/// Whether `part` stands somewhere in `text`.
pub fn contains(text: &str, part: &str) -> (r: bool)
    ensures
        r == contains_part(text@, part@),
{
    let t: Vec<char> = to_chars(text);
    let p: Vec<char> = to_chars(part);
    let mut at: usize = 0;
    while at < t.len()
        invariant
            at <= t@.len(),
            t@ == text@,
            p@ == part@,
            forall|j: int| 0 <= j < at ==> !occurs_at_spec(text@, part@, j),
        decreases t@.len() - at,
    {
        if occurs_at(&t, &p, at) {
            return true;
        }
        at = at + 1;
    }
    occurs_at(&t, &p, at)
}

/// What is left of `s` once every leading `c` is gone.
pub open spec fn without_leading(s: Seq<char>, c: char) -> Seq<char>
    decreases s.len(),
{
    if s.len() > 0 && s[0] == c {
        without_leading(s.drop_first(), c)
    } else {
        s
    }
}

/// Drops every leading `c`.
pub fn trim_leading(s: &str, c: char) -> (r: String)
    ensures
        r@ == without_leading(s@, c),
{
    let chars: Vec<char> = to_chars(s);
    let mut rest: Vec<char> = Vec::new();
    let mut i: usize = 0;
    assert(chars@.skip(0) == chars@);
    while i < chars.len() && chars[i] == c
        invariant
            i <= chars@.len(),
            without_leading(chars@.skip(i as int), c) == without_leading(chars@, c),
        decreases chars@.len() - i,
    {
        assert(chars@.skip(i as int).drop_first() == chars@.skip(i + 1));
        i = i + 1;
    }
    let start: usize = i;
    while i < chars.len()
        invariant
            start <= i <= chars@.len(),
            rest@ == chars@.subrange(start as int, i as int),
        decreases chars@.len() - i,
    {
        rest.push(chars[i]);
        assert(chars@.subrange(start as int, i + 1) == chars@.subrange(start as int, i as int).push(
            chars@[i as int],
        ));
        i = i + 1;
    }
    assert(rest@ == chars@.skip(start as int));
    from_chars(&rest)
}

/// What stands behind the last `c` of `s`; all of `s` where it holds no `c`.
pub open spec fn after_last(s: Seq<char>, c: char) -> Seq<char>
    decreases s.len(),
{
    if s.len() == 0 || s.last() == c {
        Seq::empty()
    } else {
        after_last(s.drop_last(), c).push(s.last())
    }
}

/// Takes what stands behind the last `c`.
pub fn last_component(s: &str, c: char) -> (r: String)
    ensures
        r@ == after_last(s@, c),
{
    let chars: Vec<char> = to_chars(s);
    let mut r: String = String::new();
    let mut i: usize = 0;
    while i < chars.len()
        invariant
            i <= chars@.len(),
            r@ == after_last(chars@.take(i as int), c),
        decreases chars@.len() - i,
    {
        assert(chars@.take(i + 1).drop_last() == chars@.take(i as int));
        if chars[i] == c {
            r = String::new();
        } else {
            r.push(chars[i]);
        }
        i = i + 1;
    }
    assert(chars@.take(i as int) == chars@);
    r
}

/// The character of one decimal or hexadecimal digit.
pub open spec fn digit_char(d: int) -> char {
    if d < 10 {
        (48 + d) as char
    } else {
        (87 + d) as char
    }
}

/// A number written in base `base`, without leading zeros.
pub open spec fn in_base(n: nat, base: nat) -> Seq<char>
    decreases n,
{
    if n < base || base < 2 {
        seq![digit_char(n as int)]
    } else {
        proof {
            assert(n / base < n) by (nonlinear_arith)
                requires
                    n >= base,
                    base >= 2,
            ;
        }
        in_base(n / base, base).push(digit_char((n % base) as int))
    }
}

/// A number written in decimal.
pub open spec fn decimal(n: nat) -> Seq<char> {
    in_base(n, 10)
}

fn digit(d: u64) -> (r: char)
    requires
        d < 16,
    ensures
        r == digit_char(d as int),
{
    if d < 10 {
        (48 + d as u8) as char
    } else {
        (87 + d as u8) as char
    }
}

fn number_text(n: u64, base: u64) -> (r: String)
    requires
        2 <= base <= 16,
    ensures
        r@ == in_base(n as nat, base as nat),
    decreases n,
{
    if n < base {
        let mut r: String = String::new();
        r.push(digit(n));
        assert(r@ == seq![digit_char(n as int)]);
        r
    } else {
        assert(n / base < n) by (nonlinear_arith)
            requires
                n >= base,
                base >= 2,
        ;
        assert(n % base < base) by (nonlinear_arith)
            requires
                base >= 2,
        ;
        let mut r: String = number_text(n / base, base);
        r.push(digit(n % base));
        r
    }
}

/// Writes a number in decimal.
pub fn decimal_text(n: u64) -> (r: String)
    ensures
        r@ == decimal(n as nat),
{
    number_text(n, 10)
}

/// The 32-bit pattern of a signed number, read as unsigned.
pub open spec fn bits_of(n: i32) -> nat {
    if n < 0 {
        (n + 0x1_0000_0000) as nat
    } else {
        n as nat
    }
}

/// A status code in hexadecimal, with its prefix.
pub open spec fn status_code(n: i32) -> Seq<char> {
    seq!['0', 'x'] + in_base(bits_of(n), 16)
}

/// Writes a status code in hexadecimal.
pub fn status_text(n: i32) -> (r: String)
    ensures
        r@ == status_code(n),
{
    let bits: u64 = if n < 0 {
        (n as i64 + 0x1_0000_0000) as u64
    } else {
        n as u64
    };
    let mut r: String = String::new();
    r.push('0');
    r.push('x');
    assert(r@ == seq!['0', 'x']);
    let digits: String = number_text(bits, 16);
    r.append(digits.as_str());
    r
}

/// Texts joined with a separator between neighbours.
pub open spec fn joined(parts: Seq<Seq<char>>, sep: Seq<char>) -> Seq<char>
    decreases parts.len(),
{
    if parts.len() == 0 {
        Seq::empty()
    } else if parts.len() == 1 {
        parts[0]
    } else {
        joined(parts.drop_last(), sep) + sep + parts.last()
    }
}

/// Joins texts with a separator between neighbours.
pub fn join(parts: &Vec<String>, sep: &str) -> (r: String)
    ensures
        r@ == joined(texts(parts@), sep@),
{
    let mut r: String = String::new();
    let mut i: usize = 0;
    while i < parts.len()
        invariant
            i <= parts@.len(),
            r@ == joined(texts(parts@).take(i as int), sep@),
        decreases parts@.len() - i,
    {
        assert(texts(parts@).take(i + 1).drop_last() == texts(parts@).take(i as int));
        if i > 0 {
            r.append(sep);
        }
        r.append(parts[i].as_str());
        i = i + 1;
    }
    assert(texts(parts@).take(i as int) == texts(parts@));
    r
}

/// `a` followed by `b`.
pub fn concat2(a: &str, b: &str) -> (r: String)
    ensures
        r@ == a@ + b@,
{
    let mut r: String = a.to_owned();
    r.append(b);
    r
}

/// `a`, `b` and `c`, one behind the other.
pub fn concat3(a: &str, b: &str, c: &str) -> (r: String)
    ensures
        r@ == a@ + b@ + c@,
{
    let mut r: String = a.to_owned();
    r.append(b);
    r.append(c);
    r
}

/// What stands behind the last `c` holds no `c` itself, and the text is that behind
/// a front that is empty or ends in `c`.
pub proof fn the_last_component_follows_the_last_separator(s: Seq<char>, c: char)
    ensures
        ({
            let rest = after_last(s, c);
            let front = s.take(s.len() - rest.len());
            &&& rest.len() <= s.len()
            &&& s == front + rest
            &&& !rest.contains(c)
            &&& front.len() == 0 || front.last() == c
        }),
    decreases s.len(),
{
    let rest = after_last(s, c);
    if s.len() > 0 && s.last() != c {
        let inner = s.drop_last();
        the_last_component_follows_the_last_separator(inner, c);
        let inner_rest = after_last(inner, c);
        assert(rest == inner_rest.push(s.last()));
        assert forall|i: int| 0 <= i < rest.len() implies rest[i] != c by {
            if i < inner_rest.len() {
                assert(inner_rest.contains(inner_rest[i]));
            }
        }
        let front = inner.take(inner.len() - inner_rest.len());
        assert(s.take(s.len() - rest.len()) =~= front);
        assert(s =~= inner.push(s.last()));
        assert(inner.push(s.last()) =~= front + rest) by {
            assert(inner == front + inner_rest);
        }
    } else {
        assert(s =~= s.take(s.len() - rest.len()) + rest);
    }
}

/// Dropping every leading `c` drops nothing else, and leaves no `c` in front.
pub proof fn only_leading_characters_are_dropped(s: Seq<char>, c: char)
    ensures
        ({
            let rest = without_leading(s, c);
            &&& rest.len() <= s.len()
            &&& s.skip(s.len() - rest.len()) == rest
            &&& forall|i: int| 0 <= i < s.len() - rest.len() ==> #[trigger] s[i] == c
            &&& rest.len() == 0 || rest[0] != c
        }),
    decreases s.len(),
{
    let rest = without_leading(s, c);
    if s.len() > 0 && s[0] == c {
        let inner = s.drop_first();
        only_leading_characters_are_dropped(inner, c);
        assert(s.skip(s.len() - rest.len()) =~= inner.skip(inner.len() - rest.len()));
        assert forall|i: int| 0 <= i < s.len() - rest.len() implies #[trigger] s[i] == c by {
            if i > 0 {
                assert(inner[i - 1] == c);
            }
        }
    } else {
        assert(s.skip(0) =~= s);
    }
}

/// The number that digits stand for, in base `base`.
pub open spec fn read_in_base(digits: Seq<char>, base: nat) -> int
    decreases digits.len(),
{
    if digits.len() == 0 {
        0
    } else {
        let c = digits.last() as int;
        read_in_base(digits.drop_last(), base) * base + (if c < 58 {
            c - 48
        } else {
            c - 87
        })
    }
}

/// A number that was written reads back as that number, in plain digits and without
/// leading zeros.
pub proof fn a_written_number_reads_back(n: nat, base: nat)
    requires
        base == 10 || base == 16,
    ensures
        read_in_base(in_base(n, base), base) == n,
        in_base(n, base).len() > 0,
        n > 0 ==> in_base(n, base)[0] != '0',
        forall|i: int|
            0 <= i < in_base(n, base).len() ==> {
                let c = #[trigger] in_base(n, base)[i];
                '0' <= c && c <= '9' || base == 16 && 'a' <= c && c <= 'f'
            },
    decreases n,
{
    let text = in_base(n, base);
    if n < base {
        assert(text.drop_last() =~= Seq::empty());
        assert(read_in_base(text.drop_last(), base) == 0);
        assert(text.last() == digit_char(n as int));
    } else {
        assert(n / base < n) by (nonlinear_arith)
            requires
                n >= base,
                base >= 2,
        ;
        let front = in_base(n / base, base);
        a_written_number_reads_back(n / base, base);
        assert(text.drop_last() =~= front);
        assert(text.last() == digit_char((n % base) as int));
        assert(n == (n / base) * base + n % base) by (nonlinear_arith)
            requires
                base > 0,
        ;
        assert(n / base > 0) by (nonlinear_arith)
            requires
                n >= base,
                base >= 2,
        ;
        assert(0 <= n % base < base) by (nonlinear_arith)
            requires
                base > 0,
        ;
        assert forall|i: int| 0 <= i < text.len() implies {
            let c = #[trigger] text[i];
            '0' <= c && c <= '9' || base == 16 && 'a' <= c && c <= 'f'
        } by {
            if i < front.len() {
                assert(text[i] == front[i]);
            }
        }
        assert(text[0] == front[0]);
    }
}

/// A status code shows its 32 bits: itself where it is not negative, else two to
/// the 32nd more.
pub proof fn a_status_code_shows_its_bits(n: i32)
    ensures
        status_code(n).len() > 2,
        status_code(n)[0] == '0' && status_code(n)[1] == 'x',
        read_in_base(status_code(n).skip(2), 16) == (if n < 0 {
            n + 0x1_0000_0000
        } else {
            n as int
        }),
{
    a_written_number_reads_back(bits_of(n), 16);
    assert(status_code(n).skip(2) =~= in_base(bits_of(n), 16));
}

/// Joining one text more puts the separator and that text behind the others.
pub proof fn joining_puts_separators_between(
    parts: Seq<Seq<char>>,
    last: Seq<char>,
    sep: Seq<char>,
)
    ensures
        joined(parts.push(last), sep) == (if parts.len() == 0 {
            last
        } else {
            joined(parts, sep) + sep + last
        }),
        joined(Seq::empty(), sep).len() == 0,
{
    assert(parts.push(last).drop_last() =~= parts);
}

} // verus!
