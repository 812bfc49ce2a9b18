//! Text operations over `char` sequences.
use vstd::prelude::*;

verus! {

/// A character with the Unicode `White_Space` property.
pub open spec fn is_space(c: char) -> bool {
    let n = c as int;
    ||| 0x9 <= n <= 0xd
    ||| n == 0x20
    ||| n == 0x85
    ||| n == 0xa0
    ||| n == 0x1680
    ||| 0x2000 <= n <= 0x200a
    ||| n == 0x2028
    ||| n == 0x2029
    ||| n == 0x202f
    ||| n == 0x205f
    ||| n == 0x3000
}

/// `s` without the white space at either end.
#[verifier::opaque]
pub open spec fn trimmed(s: Seq<char>) -> Seq<char>
    decreases s.len(),
{
    if s.len() == 0 {
        s
    } else if is_space(s[0]) {
        trimmed(s.subrange(1, s.len() as int))
    } else if is_space(s.last()) {
        trimmed(s.subrange(0, s.len() - 1))
    } else {
        s
    }
}

proof fn lemma_trim_front(s: Seq<char>)
    requires
        s.len() > 0,
        is_space(s[0]),
    ensures
        trimmed(s) == trimmed(s.subrange(1, s.len() as int)),
{
    reveal(trimmed);
}

proof fn lemma_trim_back(s: Seq<char>)
    requires
        s.len() > 0,
        !is_space(s[0]),
        is_space(s.last()),
    ensures
        trimmed(s) == trimmed(s.subrange(0, s.len() - 1)),
{
    reveal(trimmed);
}

pub proof fn lemma_trim_done(s: Seq<char>)
    requires
        s.len() > 0 ==> !is_space(s[0]) && !is_space(s.last()),
    ensures
        trimmed(s) == s,
{
    reveal(trimmed);
}

/// The code point of `c`.
pub fn code(c: char) -> (r: u32)
    ensures
        r == c as int,
        r <= 0x10ffff,
{
    c as u32
}

pub fn is_space_char(c: char) -> (r: bool)
    ensures
        r == is_space(c),
{
    let n: u32 = c as u32;
    (0x9 <= n && n <= 0xd) || n == 0x20 || n == 0x85 || n == 0xa0 || n == 0x1680 || (0x2000 <= n
        && n <= 0x200a) || n == 0x2028 || n == 0x2029 || n == 0x202f || n == 0x205f || n == 0x3000
}

/// Equality of two texts.
pub fn same(a: &str, b: &str) -> (r: bool)
    ensures
        r == (a@ == b@),
{
    a.to_owned() == b.to_owned()
}

/// The characters of `s`, in order.
pub fn chars_of(s: &str) -> (r: Vec<char>)
    ensures
        r@ == s@,
{
    let mut out: Vec<char> = Vec::new();
    for c in it: s.chars()
        invariant
            out@ == s@.subrange(0, it.index()),
            it.seq() == s@,
    {
        out.push(c);
    }
    assert(out@ =~= s@);
    out
}

/// `s` without the white space at either end.
pub fn trim(s: &str) -> (r: String)
    ensures
        r@ == trimmed(s@),
{
    let cs = chars_of(s);
    let mut from: usize = 0;
    let mut to: usize = cs.len();
    assert(s@.subrange(0, to as int) =~= s@);
    while from < to && is_space_char(cs[from])
        invariant
            from <= to == cs.len(),
            cs@ == s@,
            trimmed(s@) == trimmed(s@.subrange(from as int, to as int)),
        decreases to - from,
    {
        proof {
            let part = s@.subrange(from as int, to as int);
            lemma_trim_front(part);
            assert(part.subrange(1, part.len() as int) =~= s@.subrange(from + 1, to as int));
        }
        from = from + 1;
    }
    while from < to && is_space_char(cs[to - 1])
        invariant
            from <= to <= cs.len(),
            cs@ == s@,
            from < to ==> !is_space(s@[from as int]),
            trimmed(s@) == trimmed(s@.subrange(from as int, to as int)),
        decreases to - from,
    {
        proof {
            let part = s@.subrange(from as int, to as int);
            lemma_trim_back(part);
            assert(part.subrange(0, part.len() - 1) =~= s@.subrange(from as int, to - 1));
        }
        to = to - 1;
    }
    proof {
        lemma_trim_done(s@.subrange(from as int, to as int));
    }
    s.substring_char(from, to).to_owned()
}


/// Where `part` first stands in `s` at or after `from`; -1 where it does not.
pub open spec fn find_from(s: Seq<char>, part: Seq<char>, from: int) -> int
    decreases s.len() + 1 - from,
{
    if from < 0 || from + part.len() > s.len() {
        -1
    } else if s.subrange(from, from + part.len()) == part {
        from
    } else {
        find_from(s, part, from + 1)
    }
}

/// `s` holds `part` as a run of characters.
pub open spec fn has_part(s: Seq<char>, part: Seq<char>) -> bool {
    find_from(s, part, 0) >= 0
}

/// The pieces of `s` between the occurrences of `sep`, read from the left.
pub open spec fn pieces(s: Seq<char>, sep: Seq<char>) -> Seq<Seq<char>>
    decreases s.len(),
{
    let i = find_from(s, sep, 0);
    if i < 0 || sep.len() == 0 || i + sep.len() > s.len() {
        seq![s]
    } else {
        seq![s.subrange(0, i)] + pieces(s.subrange(i + sep.len(), s.len() as int), sep)
    }
}

/// The character does not occur.
pub open spec fn free_of(s: Seq<char>, c: char) -> bool {
    forall|i: int| 0 <= i < s.len() ==> #[trigger] s[i] != c
}

pub proof fn lemma_find_mark(a: Seq<char>, b: Seq<char>, c: char, from: int)
    requires
        free_of(a, c),
        0 <= from <= a.len(),
    ensures
        find_from(a + seq![c] + b, seq![c], from) == a.len(),
    decreases a.len() - from,
{
    let s = a + seq![c] + b;
    if from == a.len() {
        assert(s.subrange(from, from + 1) =~= seq![c]);
    } else {
        assert(s.subrange(from, from + 1)[0] == a[from]);
        assert(s.subrange(from, from + 1) != seq![c]) by {
            assert(seq![c][0] == c);
        }
        lemma_find_mark(a, b, c, from + 1);
    }
}

pub proof fn lemma_pieces_front(a: Seq<char>, b: Seq<char>, c: char)
    requires
        free_of(a, c),
    ensures
        pieces(a + seq![c] + b, seq![c]) == seq![a] + pieces(b, seq![c]),
{
    let s = a + seq![c] + b;
    lemma_find_mark(a, b, c, 0);
    assert(s.subrange(0, a.len() as int) =~= a);
    assert(s.subrange(a.len() as int + 1, s.len() as int) =~= b);
}

/// What the texts of a list hold.
pub open spec fn texts(v: Seq<String>) -> Seq<Seq<char>> {
    Seq::new(v.len(), |i: int| v[i]@)
}

/// The pieces, trimmed, without those that are then empty.
pub open spec fn non_blank(parts: Seq<Seq<char>>) -> Seq<Seq<char>>
    decreases parts.len(),
{
    if parts.len() == 0 {
        parts
    } else {
        let before = non_blank(parts.drop_last());
        let last = trimmed(parts.last());
        if last.len() == 0 {
            before
        } else {
            before.push(last)
        }
    }
}

/// The parts of `parts`, with `sep` between neighbours.
pub open spec fn joined(parts: Seq<Seq<char>>, sep: Seq<char>) -> Seq<char>
    decreases parts.len(),
{
    if parts.len() == 0 {
        Seq::empty()
    } else if parts.len() == 1 {
        parts[0]
    } else {
        joined(parts.drop_last(), sep) + sep + parts.last()
    }
}

/// `a` comes before `b` in dictionary order of code points.
pub open spec fn comes_before(a: Seq<char>, b: Seq<char>) -> bool
    decreases a.len(),
{
    if b.len() == 0 {
        false
    } else if a.len() == 0 {
        true
    } else if a[0] == b[0] {
        comes_before(a.subrange(1, a.len() as int), b.subrange(1, b.len() as int))
    } else {
        (a[0] as int) < (b[0] as int)
    }
}

/// The digit `d` as a character.
pub open spec fn digit(d: int) -> char {
    (0x30 + d) as char
}

/// `n` in decimal.
pub open spec fn digits(n: nat) -> Seq<char>
    decreases n,
{
    if n < 10 {
        seq![digit(n as int)]
    } else {
        digits(n / 10).push(digit((n % 10) as int))
    }
}

/// `n` in decimal, with a minus sign where it is negative.
pub open spec fn decimal(n: int) -> Seq<char> {
    if n < 0 {
        seq!['-'] + digits((-n) as nat)
    } else {
        digits(n as nat)
    }
}

pub open spec fn is_digit(c: char) -> bool {
    0x30 <= c as int <= 0x39
}

pub open spec fn all_digits(s: Seq<char>) -> bool {
    forall|i: int| 0 <= i < s.len() ==> is_digit(#[trigger] s[i])
}

/// The value of a run of decimal digits.
pub open spec fn digits_value(s: Seq<char>) -> nat
    decreases s.len(),
{
    if s.len() == 0 {
        0
    } else {
        digits_value(s.drop_last()) * 10 + ((s.last() as int - 0x30) as nat)
    }
}

/// The integer that `s` writes: an optional sign, then at least one decimal digit.
pub open spec fn parsed_int(s: Seq<char>) -> Option<int> {
    let signed = s.len() > 0 && (s[0] == '-' || s[0] == '+');
    let body = if signed {
        s.subrange(1, s.len() as int)
    } else {
        s
    };
    if body.len() == 0 || !all_digits(body) {
        None
    } else if signed && s[0] == '-' {
        Some(-(digits_value(body) as int))
    } else {
        Some(digits_value(body) as int)
    }
}

/// The digits of a number write it.
proof fn lemma_digits_value(n: nat)
    ensures
        digits(n).len() > 0,
        all_digits(digits(n)),
        digits_value(digits(n)) == n,
    decreases n,
{
    if n < 10 {
        let s = digits(n);
        assert(s.drop_last() =~= Seq::<char>::empty());
        assert(digits_value(s.drop_last()) == 0);
    } else {
        lemma_digits_value(n / 10);
        let s = digits(n);
        assert(s.drop_last() =~= digits(n / 10));
        assert forall|i: int| 0 <= i < s.len() implies is_digit(#[trigger] s[i]) by {
            if i < s.len() - 1 {
                assert(s[i] == digits(n / 10)[i]);
            }
        }
    }
}

/// Two numbers that are written alike are the same.
pub proof fn lemma_decimal_injective(a: int, b: int)
    requires
        decimal(a) == decimal(b),
    ensures
        a == b,
{
    let x = if a < 0 { -a } else { a };
    let y = if b < 0 { -b } else { b };
    lemma_digits_value(x as nat);
    lemma_digits_value(y as nat);
    assert(is_digit(digits(x as nat)[0]));
    assert(is_digit(digits(y as nat)[0]));
    assert(a < 0 ==> decimal(a)[0] == '-');
    assert(b < 0 ==> decimal(b)[0] == '-');
    if a < 0 {
        assert(decimal(a).subrange(1, decimal(a).len() as int) =~= digits(x as nat));
        assert(decimal(b).subrange(1, decimal(b).len() as int) =~= digits(y as nat));
    }
}

/// `s` begins with `part`.
pub open spec fn begins_with(s: Seq<char>, part: Seq<char>) -> bool {
    part.len() <= s.len() && s.subrange(0, part.len() as int) == part
}

/// ASCII capitals as small letters, everything else as it is.
pub open spec fn small(c: char) -> char {
    if 0x41 <= c as int <= 0x5a {
        (c as int + 0x20) as char
    } else {
        c
    }
}

/// Every character as a small letter.
pub open spec fn lowered(s: Seq<char>) -> Seq<char> {
    Seq::new(s.len(), |i: int| small(s[i]))
}

/// Whether `s`, in small letters, is `low`.
pub fn same_small(s: &str, low: &str) -> (r: bool)
    ensures
        r == (lowered(s@) == low@),
{
    let x = chars_of(s);
    let y = chars_of(low);
    if x.len() != y.len() {
        return false;
    }
    let mut i: usize = 0;
    while i < x.len()
        invariant
            i <= x@.len() == y@.len(),
            x@ == s@,
            y@ == low@,
            forall|j: int| 0 <= j < i ==> lowered(s@)[j] == #[trigger] low@[j],
        decreases x@.len() - i,
    {
        let c: u32 = code(x[i]);
        let d: u32 = code(y[i]);
        let c2: u32 = if 0x41 <= c && c <= 0x5a {
            c + 0x20
        } else {
            c
        };
        if c2 != d {
            assert(lowered(s@)[i as int] != low@[i as int]);
            return false;
        }
        i = i + 1;
    }
    assert(lowered(s@) =~= low@);
    true
}

fn part_at(s: &Vec<char>, part: &Vec<char>, from: usize) -> (r: bool)
    requires
        from + part.len() <= s.len(),
    ensures
        r == (s@.subrange(from as int, from + part.len()) == part@),
{
    let mut i: usize = 0;
    while i < part.len()
        invariant
            i <= part.len(),
            from + part.len() <= s.len(),
            forall|j: int| 0 <= j < i ==> s@[from + j] == part@[j],
        decreases part.len() - i,
    {
        if s[from + i] != part[i] {
            assert(s@.subrange(from as int, from + part.len())[i as int] != part@[i as int]);
            return false;
        }
        i = i + 1;
    }
    assert(s@.subrange(from as int, from + part.len()) =~= part@);
    true
}

/// `find_from`, with `None` for -1.
pub fn find(s: &Vec<char>, part: &Vec<char>, from: usize) -> (r: Option<usize>)
    requires
        from <= s.len(),
    ensures
        match r {
            Some(i) => find_from(s@, part@, from as int) == i && from <= i && i + part.len() <= s.len(),
            None => find_from(s@, part@, from as int) == -1,
        },
{
    let mut i: usize = from;
    while part.len() <= s.len() - i
        invariant
            from <= i <= s.len(),
            find_from(s@, part@, from as int) == find_from(s@, part@, i as int),
        decreases s.len() - i,
    {
        if part_at(s, part, i) {
            return Some(i);
        }
        proof {
            if part.len() == 0 {
                assert(s@.subrange(i as int, i as int) =~= part@);
            }
        }
        i = i + 1;
    }
    None
}

pub proof fn lemma_find_shift(s: Seq<char>, part: Seq<char>, from: int, k: int)
    requires
        0 <= k <= from <= s.len(),
    ensures
        find_from(s.subrange(k, s.len() as int), part, from - k) == if find_from(s, part, from) < 0 {
            -1
        } else {
            find_from(s, part, from) - k
        },
    decreases s.len() - from,
{
    let t = s.subrange(k, s.len() as int);
    if from + part.len() <= s.len() {
        assert(t.subrange(from - k, from - k + part.len()) =~= s.subrange(from, from + part.len()));
        if s.subrange(from, from + part.len()) != part {
            if part.len() == 0 {
                assert(s.subrange(from, from) =~= part);
            }
            lemma_find_shift(s, part, from + 1, k);
        }
    }
}

/// Whether `s` holds `part`.
pub fn holds(s: &str, part: &str) -> (r: bool)
    ensures
        r == has_part(s@, part@),
{
    find(&chars_of(s), &chars_of(part), 0).is_some()
}

/// Whether `s` begins with `part`.
pub fn starts(s: &str, part: &str) -> (r: bool)
    ensures
        r == begins_with(s@, part@),
{
    let cs = chars_of(s);
    let ps = chars_of(part);
    ps.len() <= cs.len() && part_at(&cs, &ps, 0)
}

/// The pieces of `s` between the occurrences of `sep`.
pub fn split(s: &str, sep: &str) -> (r: Vec<String>)
    ensures
        texts(r@) == pieces(s@, sep@),
{
    let cs = chars_of(s);
    let ps = chars_of(sep);
    let mut out: Vec<String> = Vec::new();
    let mut from: usize = 0;
    assert(s@.subrange(0, s@.len() as int) =~= s@);
    assert(texts(out@) + pieces(s@, sep@) =~= pieces(s@, sep@));
    while ps.len() > 0
        invariant
            cs@ == s@,
            ps@ == sep@,
            from <= cs.len(),
            texts(out@) + pieces(s@.subrange(from as int, s@.len() as int), sep@) == pieces(s@, sep@),
        ensures
            from <= cs.len(),
            pieces(s@.subrange(from as int, s@.len() as int), sep@) == seq![
                s@.subrange(from as int, s@.len() as int),
            ],
            texts(out@) + pieces(s@.subrange(from as int, s@.len() as int), sep@) == pieces(s@, sep@),
        decreases cs.len() - from,
    {
        let ghost rest = s@.subrange(from as int, s@.len() as int);
        proof {
            lemma_find_shift(s@, sep@, from as int, from as int);
        }
        match find(&cs, &ps, from) {
            None => {
                break;
            },
            Some(i) => {
                let piece = s.substring_char(from, i).to_owned();
                let ghost before = out@;
                assert(rest.subrange(0, i - from) =~= piece@);
                let next: usize = i + ps.len();
                assert(rest.subrange(i - from + sep@.len(), rest.len() as int) =~= s@.subrange(
                    next as int,
                    s@.len() as int,
                ));
                out.push(piece);
                assert(texts(out@) =~= texts(before).push(piece@));
                assert(texts(out@) + pieces(s@.subrange(next as int, s@.len() as int), sep@)
                    =~= texts(before) + pieces(rest, sep@));
                from = next;
            },
        }
    }
    let ghost before = out@;
    let last = s.substring_char(from, cs.len()).to_owned();
    out.push(last);
    assert(texts(out@) =~= texts(before) + seq![last@]);
    out
}

/// The `;`-separated addresses of `s`, trimmed, without blank ones.
pub fn split_addrs(addr: &str) -> (r: Vec<String>)
    ensures
        texts(r@) == non_blank(pieces(addr@, ";"@)),
{
    let parts = split(addr, ";");
    let mut out: Vec<String> = Vec::new();
    let mut i: usize = 0;
    while i < parts.len()
        invariant
            i <= parts.len(),
            texts(out@) == non_blank(texts(parts@).subrange(0, i as int)),
        decreases parts.len() - i,
    {
        let t = trim(parts[i].as_str());
        let ghost before = out@;
        assert(texts(parts@).subrange(0, i + 1).drop_last() =~= texts(parts@).subrange(0, i as int));
        if !t.as_str().is_empty() {
            out.push(t);
            assert(texts(out@) =~= texts(before).push(t@));
        }
        i = i + 1;
    }
    assert(texts(parts@).subrange(0, i as int) =~= texts(parts@));
    out
}

/// The texts of `parts`, with `sep` between neighbours.
pub fn join(parts: &Vec<String>, sep: &str) -> (r: String)
    ensures
        r@ == joined(texts(parts@), sep@),
{
    let mut out = String::new();
    let mut i: usize = 0;
    while i < parts.len()
        invariant
            i <= parts.len(),
            out@ == joined(texts(parts@).subrange(0, i as int), sep@),
        decreases parts.len() - i,
    {
        assert(texts(parts@).subrange(0, i + 1).drop_last() =~= texts(parts@).subrange(0, i as int));
        if i > 0 {
            out.append(sep);
        }
        out.append(parts[i].as_str());
        proof {
            if i == 0 {
                assert(out@ =~= parts@[0]@);
            }
        }
        i = i + 1;
    }
    assert(texts(parts@).subrange(0, i as int) =~= texts(parts@));
    out
}

/// Whether `a` comes before `b`.
pub fn less(a: &str, b: &str) -> (r: bool)
    ensures
        r == comes_before(a@, b@),
{
    let x = chars_of(a);
    let y = chars_of(b);
    let mut i: usize = 0;
    assert(a@.subrange(0, a@.len() as int) =~= a@);
    assert(b@.subrange(0, b@.len() as int) =~= b@);
    while i < x.len() && i < y.len() && x[i] == y[i]
        invariant
            x@ == a@,
            y@ == b@,
            i <= x.len(),
            i <= y.len(),
            comes_before(a@, b@) == comes_before(
                a@.subrange(i as int, a@.len() as int),
                b@.subrange(i as int, b@.len() as int),
            ),
        decreases x.len() - i,
    {
        let ghost p = a@.subrange(i as int, a@.len() as int);
        let ghost q = b@.subrange(i as int, b@.len() as int);
        assert(p.subrange(1, p.len() as int) =~= a@.subrange(i + 1, a@.len() as int));
        assert(q.subrange(1, q.len() as int) =~= b@.subrange(i + 1, b@.len() as int));
        i = i + 1;
    }
    if i == y.len() {
        false
    } else if i == x.len() {
        true
    } else {
        code(x[i]) < code(y[i])
    }
}

/// A text is not before itself.
pub proof fn lemma_before_irreflexive(a: Seq<char>)
    ensures
        !comes_before(a, a),
    decreases a.len(),
{
    if a.len() > 0 {
        lemma_before_irreflexive(a.subrange(1, a.len() as int));
    }
}

/// The order is transitive.
pub proof fn lemma_before_transitive(a: Seq<char>, b: Seq<char>, c: Seq<char>)
    requires
        comes_before(a, b),
        comes_before(b, c),
    ensures
        comes_before(a, c),
    decreases a.len(),
{
    if a.len() > 0 && a[0] == b[0] && b[0] == c[0] {
        lemma_before_transitive(
            a.subrange(1, a.len() as int),
            b.subrange(1, b.len() as int),
            c.subrange(1, c.len() as int),
        );
    }
}

/// Of two different texts, one is before the other.
pub proof fn lemma_before_total(a: Seq<char>, b: Seq<char>)
    ensures
        a == b || comes_before(a, b) || comes_before(b, a),
    decreases a.len(),
{
    if a.len() == 0 && b.len() == 0 {
        assert(a =~= b);
    } else if a.len() > 0 && b.len() > 0 && a[0] == b[0] {
        let x = a.subrange(1, a.len() as int);
        let y = b.subrange(1, b.len() as int);
        lemma_before_total(x, y);
        if x == y {
            assert(a =~= seq![a[0]] + x);
            assert(b =~= seq![b[0]] + y);
        }
    }
}

fn digit_text(d: u64) -> (r: &'static str)
    requires
        d < 10,
    ensures
        r@ == seq![digit(d as int)],
{
    proof {
        reveal_strlit("0");
        reveal_strlit("1");
        reveal_strlit("2");
        reveal_strlit("3");
        reveal_strlit("4");
        reveal_strlit("5");
        reveal_strlit("6");
        reveal_strlit("7");
        reveal_strlit("8");
        reveal_strlit("9");
    }
    let r = match d {
        0 => "0",
        1 => "1",
        2 => "2",
        3 => "3",
        4 => "4",
        5 => "5",
        6 => "6",
        7 => "7",
        8 => "8",
        _ => "9",
    };
    assert(r@ =~= seq![digit(d as int)]);
    r
}

/// `n` in decimal.
pub fn unsigned_text(n: u64) -> (r: String)
    ensures
        r@ == digits(n as nat),
    decreases n,
{
    if n < 10 {
        digit_text(n).to_owned()
    } else {
        let r = unsigned_text(n / 10).concat(digit_text(n % 10));
        assert(r@ =~= digits((n / 10) as nat).push(digit((n % 10) as int)));
        r
    }
}

/// `n` in decimal.
pub fn int_text(n: i64) -> (r: String)
    ensures
        r@ == decimal(n as int),
{
    if n >= 0 {
        unsigned_text(n as u64)
    } else {
        let size: u64 = if n == i64::MIN {
            0x8000_0000_0000_0000u64
        } else {
            (-n) as u64
        };
        proof {
            reveal_strlit("-");
        }
        let sign = "-".to_owned();
        assert(sign@ =~= seq!['-']);
        sign.concat(unsigned_text(size).as_str())
    }
}

/// The integer that `s` writes, where it is in `low..=high`.
fn parse_within(s: &str, low: i64, high: i64) -> (r: Option<i64>)
    requires
        low <= 0 <= high,
    ensures
        r == match parsed_int(s@) {
            Some(v) => if low <= v <= high {
                Some(v as i64)
            } else {
                None
            },
            None => None,
        },
{
    let cs = chars_of(s);
    let signed = cs.len() > 0 && (cs[0] == '-' || cs[0] == '+');
    let start: usize = if signed {
        1
    } else {
        0
    };
    let ghost body = if signed {
        s@.subrange(1, s@.len() as int)
    } else {
        s@
    };
    if cs.len() == start {
        return None;
    }
    assert(body =~= s@.subrange(start as int, s@.len() as int));
    let mut i: usize = start;
    let mut acc: i128 = 0;
    let mut over = false;
    let bound: i128 = 0x8000_0000_0000_0000i128;
    while i < cs.len()
        invariant
            cs@ == s@,
            start <= i <= cs.len(),
            start < cs.len(),
            signed == (s@.len() > 0 && (s@[0] == '-' || s@[0] == '+')),
            start == if signed {
                1int
            } else {
                0int
            },
            body == s@.subrange(start as int, s@.len() as int),
            all_digits(body.subrange(0, i - start)),
            bound == 0x8000_0000_0000_0000i128,
            0 <= acc <= bound,
            !over ==> acc == digits_value(body.subrange(0, i - start)),
            over ==> digits_value(body.subrange(0, i - start)) > bound,
        decreases cs.len() - i,
    {
        let n: u32 = code(cs[i]);
        assert(body[i - start] == s@[i as int]);
        if n < 0x30 || n > 0x39 {
            assert(!is_digit(body[i - start]));
            assert(!signed ==> body =~= s@);
            return None;
        }
        proof {
            let part = body.subrange(0, i + 1 - start);
            assert(part.drop_last() =~= body.subrange(0, i - start));
            assert(part.last() == s@[i as int]);
            assert forall|j: int| 0 <= j < part.len() implies is_digit(#[trigger] part[j]) by {
                if j < i - start {
                    assert(part[j] == body.subrange(0, i - start)[j]);
                }
            }
        }
        let next: i128 = acc * 10 + (n - 0x30) as i128;
        if over || next > bound {
            over = true;
        } else {
            acc = next;
        }
        i = i + 1;
    }
    assert(body.subrange(0, i - start) =~= body);
    if over {
        return None;
    }
    let v: i128 = if signed && cs[0] == '-' {
        -acc
    } else {
        acc
    };
    if (low as i128) <= v && v <= (high as i128) {
        Some(v as i64)
    } else {
        None
    }
}

/// The `i64` that `s` writes.
pub fn parse_i64(s: &str) -> (r: Option<i64>)
    ensures
        r == match parsed_int(s@) {
            Some(v) => if i64::MIN <= v <= i64::MAX {
                Some(v as i64)
            } else {
                None
            },
            None => None,
        },
{
    parse_within(s, i64::MIN, i64::MAX)
}

/// The `i32` that `s` writes.
pub fn parse_i32(s: &str) -> (r: Option<i32>)
    ensures
        r == match parsed_int(s@) {
            Some(v) => if i32::MIN <= v <= i32::MAX {
                Some(v as i32)
            } else {
                None
            },
            None => None,
        },
{
    match parse_within(s, i32::MIN as i64, i32::MAX as i64) {
        Some(v) => Some(v as i32),
        None => None,
    }
}

/// No digit and no sign is another character.
pub proof fn lemma_decimal_free(n: int, c: char)
    requires
        !is_digit(c) && c != '-',
    ensures
        free_of(decimal(n), c),
{
    let m: nat = if n < 0 {
        (-n) as nat
    } else {
        n as nat
    };
    lemma_digits_value(m);
    assert(all_digits(digits(m)));
}

proof fn lemma_find_one(s: Seq<char>, c: char, from: int)
    requires
        0 <= from <= s.len(),
    ensures
        ({
            let i = find_from(s, seq![c], from);
            &&& i < 0 ==> forall|k: int| from <= k < s.len() ==> #[trigger] s[k] != c
            &&& i >= 0 ==> from <= i < s.len() && s[i] == c && forall|k: int| from <= k < i ==> #[trigger] s[k] != c
        }),
    decreases s.len() - from,
{
    if from < s.len() {
        let here = s.subrange(from, from + 1);
        assert(here[0] == s[from]);
        if s[from] == c {
            assert(here =~= seq![c]);
        } else {
            assert(seq![c][0] == c);
            lemma_find_one(s, c, from + 1);
        }
    }
}

proof fn lemma_pieces_back(s: Seq<char>, x: Seq<char>, c: char)
    requires
        free_of(x, c),
    ensures
        pieces(s + seq![c] + x, seq![c]) == pieces(s, seq![c]).push(x),
    decreases s.len(),
{
    let sep = seq![c];
    lemma_find_one(s, c, 0);
    lemma_find_one(x, c, 0);
    let i = find_from(s, sep, 0);
    assert(pieces(x, sep) =~= seq![x]);
    if i < 0 {
        lemma_pieces_front(s, x, c);
        assert(seq![s] + seq![x] =~= seq![s].push(x));
    } else {
        let a = s.subrange(0, i);
        let b = s.subrange(i + 1, s.len() as int);
        lemma_pieces_back(b, x, c);
        lemma_pieces_front(a, b + sep + x, c);
        assert(s + sep + x =~= a + sep + (b + sep + x));
        assert(seq![a] + pieces(b, sep).push(x) =~= (seq![a] + pieces(b, sep)).push(x));
    }
}

/// Parts that were joined by a character are the pieces between its occurrences, where none of
/// them holds it.
pub proof fn lemma_pieces_of_joined(parts: Seq<Seq<char>>, c: char)
    requires
        parts.len() > 0,
        forall|i: int| 0 <= i < parts.len() ==> free_of(#[trigger] parts[i], c),
    ensures
        pieces(joined(parts, seq![c]), seq![c]) == parts,
    decreases parts.len(),
{
    let sep = seq![c];
    if parts.len() == 1 {
        lemma_find_one(parts[0], c, 0);
        assert(parts =~= seq![parts[0]]);
    } else {
        let front = parts.drop_last();
        assert forall|i: int| 0 <= i < front.len() implies free_of(#[trigger] front[i], c) by {
            assert(front[i] == parts[i]);
        }
        lemma_pieces_of_joined(front, c);
        lemma_pieces_back(joined(front, sep), parts.last(), c);
        assert(front.push(parts.last()) =~= parts);
    }
}

/// A number that is written out is read back as it was.
pub proof fn lemma_decimal_reads_back(n: int)
    ensures
        parsed_int(decimal(n)) == Some(n),
{
    let m: nat = if n < 0 {
        (-n) as nat
    } else {
        n as nat
    };
    lemma_digits_value(m);
    let d = digits(m);
    assert(is_digit(d[0]));
    if n < 0 {
        let s = decimal(n);
        assert(s.subrange(1, s.len() as int) =~= d);
    }
}

/// A number that is written as text is read from it again.
pub proof fn law_written_number_reads_back(n: i64, text: String, s: &str, long: Option<i64>, short: Option<i32>)
    requires
        call_ensures(int_text, (n,), text),
        s@ == text@,
        call_ensures(parse_i64, (s,), long),
        call_ensures(parse_i32, (s,), short),
    ensures
        long == Some(n),
        i32::MIN <= n <= i32::MAX ==> short is Some && short->0 == n,
        !(i32::MIN <= n <= i32::MAX) ==> short is None,
{
    lemma_decimal_reads_back(n as int);
}

/// A text is split at each mark, and the pieces, put together with the mark between them, are the
/// text again.
pub proof fn lemma_pieces_join(s: Seq<char>, sep: Seq<char>)
    requires
        sep.len() > 0,
    ensures
        pieces(s, sep).len() > 0,
        joined(pieces(s, sep), sep) == s,
    decreases s.len(),
{
    let i = find_from(s, sep, 0);
    lemma_found_at(s, sep, 0);
    if i < 0 || i + sep.len() > s.len() {
        reveal_with_fuel(joined, 2);
        assert(pieces(s, sep) =~= seq![s]);
    } else {
        let rest = s.subrange(i + sep.len(), s.len() as int);
        lemma_pieces_join(rest, sep);
        let head = s.subrange(0, i);
        lemma_joined_front(head, pieces(rest, sep), sep);
        assert(s =~= head + sep + rest);
    }
}

proof fn lemma_found_at(s: Seq<char>, part: Seq<char>, from: int)
    requires
        0 <= from,
    ensures
        ({
            let i = find_from(s, part, from);
            i >= 0 ==> from <= i && i + part.len() <= s.len() && s.subrange(i, i + part.len()) == part
        }),
    decreases s.len() + 1 - from,
{
    if from + part.len() <= s.len() && s.subrange(from, from + part.len()) != part {
        lemma_found_at(s, part, from + 1);
    }
}

proof fn lemma_joined_front(head: Seq<char>, rest: Seq<Seq<char>>, sep: Seq<char>)
    requires
        rest.len() > 0,
    ensures
        joined(seq![head] + rest, sep) == head + sep + joined(rest, sep),
    decreases rest.len(),
{
    let all = seq![head] + rest;
    if rest.len() == 1 {
        reveal_with_fuel(joined, 3);
        assert(all.drop_last() =~= seq![head]);
        assert(rest.drop_last() =~= Seq::<Seq<char>>::empty());
        assert(joined(all, sep) =~= head + sep + joined(rest, sep));
    } else {
        assert(all.drop_last() =~= seq![head] + rest.drop_last());
        lemma_joined_front(head, rest.drop_last(), sep);
        assert(all.last() == rest.last());
        assert(joined(all, sep) =~= head + sep + joined(rest, sep));
    }
}

/// What is split at a mark and joined by it is what it was; no piece holds a mark of one
/// character.
pub proof fn law_split_and_joined_is_the_same(s: &str, sep: &str, parts: Vec<String>, back: String)
    requires
        sep@.len() > 0,
        call_ensures(split, (s, sep), parts),
        call_ensures(join, (&parts, sep), back),
    ensures
        parts@.len() > 0,
        back@ == s@,
{
    lemma_pieces_join(s@, sep@);
    assert(texts(parts@).len() == parts@.len());
}

/// What was joined by a character is split into what it was, where none of the parts holds it.
pub proof fn law_joined_and_split_is_the_same(parts: &Vec<String>, sep: &str, whole: String, s: &str, back: Vec<String>)
    requires
        parts@.len() > 0 && sep@.len() == 1,
        forall|i: int| 0 <= i < parts@.len() ==> free_of(#[trigger] parts@[i]@, sep@[0]),
        call_ensures(join, (parts, sep), whole),
        s@ == whole@,
        call_ensures(split, (s, sep), back),
    ensures
        texts(back@) == texts(parts@),
{
    let t = texts(parts@);
    assert forall|i: int| 0 <= i < t.len() implies free_of(#[trigger] t[i], sep@[0]) by {
        assert(t[i] == parts@[i]@);
    }
    lemma_pieces_of_joined(t, sep@[0]);
    assert(sep@ =~= seq![sep@[0]]);
}

/// A text that is trimmed has no white space at either end, and nothing but white space was taken
/// off; what has none is left as it is.
pub proof fn law_trimmed_text_has_no_blank_ends(s: &str, r: String)
    requires
        call_ensures(trim, (s,), r),
    ensures
        r@.len() > 0 ==> !is_space(r@[0]) && !is_space(r@.last()),
        exists|i: int, j: int|
            {
                &&& 0 <= i <= j <= s@.len()
                &&& r@ == #[trigger] s@.subrange(i, j)
                &&& forall|k: int| 0 <= k < i ==> is_space(#[trigger] s@[k])
                &&& forall|k: int| j <= k < s@.len() ==> is_space(#[trigger] s@[k])
            },
{
    lemma_trimmed_ends(s@);
}

proof fn lemma_trimmed_ends(s: Seq<char>)
    ensures
        trimmed(s).len() > 0 ==> !is_space(trimmed(s)[0]) && !is_space(trimmed(s).last()),
        exists|i: int, j: int|
            {
                &&& 0 <= i <= j <= s.len()
                &&& trimmed(s) == #[trigger] s.subrange(i, j)
                &&& forall|k: int| 0 <= k < i ==> is_space(#[trigger] s[k])
                &&& forall|k: int| j <= k < s.len() ==> is_space(#[trigger] s[k])
            },
    decreases s.len(),
{
    if s.len() == 0 {
        lemma_trim_done(s);
        assert(s.subrange(0, 0) =~= s);
    } else if is_space(s[0]) {
        lemma_trim_front(s);
        let t = s.subrange(1, s.len() as int);
        lemma_trimmed_ends(t);
        let (i, j) = choose|i: int, j: int|
            {
                &&& 0 <= i <= j <= t.len()
                &&& trimmed(t) == #[trigger] t.subrange(i, j)
                &&& forall|k: int| 0 <= k < i ==> is_space(#[trigger] t[k])
                &&& forall|k: int| j <= k < t.len() ==> is_space(#[trigger] t[k])
            };
        assert(s.subrange(i + 1, j + 1) =~= t.subrange(i, j));
        assert forall|k: int| 0 <= k < i + 1 implies is_space(#[trigger] s[k]) by {
            if k > 0 {
                assert(t[k - 1] == s[k]);
            }
        }
        assert forall|k: int| j + 1 <= k < s.len() implies is_space(#[trigger] s[k]) by {
            assert(t[k - 1] == s[k]);
        }
    } else if is_space(s.last()) {
        lemma_trim_back(s);
        let t = s.subrange(0, s.len() - 1);
        lemma_trimmed_ends(t);
        let (i, j) = choose|i: int, j: int|
            {
                &&& 0 <= i <= j <= t.len()
                &&& trimmed(t) == #[trigger] t.subrange(i, j)
                &&& forall|k: int| 0 <= k < i ==> is_space(#[trigger] t[k])
                &&& forall|k: int| j <= k < t.len() ==> is_space(#[trigger] t[k])
            };
        assert(s.subrange(i, j) =~= t.subrange(i, j));
        assert forall|k: int| 0 <= k < i implies is_space(#[trigger] s[k]) by {
            assert(t[k] == s[k]);
        }
        assert forall|k: int| j <= k < s.len() implies is_space(#[trigger] s[k]) by {
            if k < t.len() {
                assert(t[k] == s[k]);
            }
        }
    } else {
        lemma_trim_done(s);
        assert(s.subrange(0, s.len() as int) =~= s);
    }
}

/// Of two texts exactly one comes before the other, unless they are the same.
pub proof fn law_texts_are_in_one_order(a: &str, b: &str, ab: bool, ba: bool, eq: bool)
    requires
        call_ensures(less, (a, b), ab),
        call_ensures(less, (b, a), ba),
        call_ensures(same, (a, b), eq),
    ensures
        eq <==> a@ == b@,
        eq ==> !ab && !ba,
        !eq ==> ab != ba,
{
    lemma_before_total(a@, b@);
    lemma_before_irreflexive(a@);
    if ab && ba {
        lemma_before_transitive(a@, b@, a@);
    }
}

/// The first mark of a text stands behind what does not hold its first character.
pub proof fn lemma_find_sep(a: Seq<char>, sep: Seq<char>, b: Seq<char>, from: int)
    requires
        sep.len() > 0,
        free_of(a, sep[0]),
        0 <= from <= a.len(),
    ensures
        find_from(a + sep + b, sep, from) == a.len(),
    decreases a.len() - from,
{
    let s = a + sep + b;
    if from == a.len() {
        assert(s.subrange(from, from + sep.len()) =~= sep);
    } else {
        assert(s.subrange(from, from + sep.len())[0] == a[from]);
        lemma_find_sep(a, sep, b, from + 1);
    }
}

proof fn lemma_find_none(a: Seq<char>, sep: Seq<char>, from: int)
    requires
        sep.len() > 0,
        free_of(a, sep[0]),
        0 <= from,
    ensures
        find_from(a, sep, from) == -1,
    decreases a.len() + 1 - from,
{
    if from + sep.len() <= a.len() {
        assert(a.subrange(from, from + sep.len())[0] == a[from]);
        lemma_find_none(a, sep, from + 1);
    }
}

/// Parts that hold nothing of a mark are what a text is split into that has the mark between them.
pub proof fn lemma_pieces_of_parts(parts: Seq<Seq<char>>, sep: Seq<char>)
    requires
        parts.len() > 0 && sep.len() > 0,
        forall|i: int| 0 <= i < parts.len() ==> free_of(#[trigger] parts[i], sep[0]),
    ensures
        pieces(joined(parts, sep), sep) == parts,
    decreases parts.len(),
{
    if parts.len() == 1 {
        assert(free_of(parts[0], sep[0]));
        lemma_find_none(parts[0], sep, 0);
        assert(parts =~= seq![parts[0]]);
    } else {
        let head = parts[0];
        let rest = parts.subrange(1, parts.len() as int);
        assert forall|i: int| 0 <= i < rest.len() implies free_of(#[trigger] rest[i], sep[0]) by {
            assert(rest[i] == parts[i + 1]);
        }
        lemma_pieces_of_parts(rest, sep);
        assert(parts =~= seq![head] + rest);
        lemma_joined_front(head, rest, sep);
        let s = joined(parts, sep);
        let tail = joined(rest, sep);
        assert(s == head + sep + tail);
        lemma_find_sep(head, sep, tail, 0);
        assert(s.subrange(0, head.len() as int) =~= head);
        assert(s.subrange((head.len() + sep.len()) as int, s.len() as int) =~= tail);
    }
}

/// Addresses with semicolons between them, and white space around, are taken one by one, without
/// blank ones.
pub proof fn law_addresses_are_split_at_semicolons(list: Seq<Seq<char>>, addr: &str, r: Vec<String>)
    requires
        list.len() > 0,
        forall|i: int|
            0 <= i < list.len() ==> free_of(#[trigger] list[i], ';') && list[i].len() > 0 && !is_space(list[i][0])
                && !is_space(list[i].last()),
        addr@ == joined(list, ";"@),
        call_ensures(split_addrs, (addr,), r),
    ensures
        texts(r@) == list,
{
    reveal_strlit(";");
    assert(";"@[0] == ';');
    assert forall|i: int| 0 <= i < list.len() implies free_of(#[trigger] list[i], ";"@[0]) by {}
    lemma_pieces_of_parts(list, ";"@);
    lemma_non_blank_all(list);
}

proof fn lemma_non_blank_all(list: Seq<Seq<char>>)
    requires
        forall|i: int|
            0 <= i < list.len() ==> (#[trigger] list[i]).len() > 0 && !is_space(list[i][0]) && !is_space(list[i].last()),
    ensures
        non_blank(list) == list,
    decreases list.len(),
{
    if list.len() > 0 {
        let front = list.drop_last();
        assert forall|i: int| 0 <= i < front.len() implies (#[trigger] front[i]).len() > 0 && !is_space(front[i][0])
            && !is_space(front[i].last()) by {
            assert(front[i] == list[i]);
        }
        lemma_non_blank_all(front);
        let last = list.last();
        assert(list[list.len() - 1] == last);
        lemma_trim_done(last);
        assert(front.push(last) =~= list);
    }
}

} // verus!
