//! Text primitives: ordering, decimal numerals, splitting and number syntax.
use vstd::prelude::*;
use vstd::std_specs::iter::IteratorSpec;

verus! {

/// Lexicographic `a <= b` on code points.
pub open spec fn lex_le(a: Seq<char>, b: Seq<char>) -> bool
    decreases a.len(),
{
    if a.len() == 0 {
        true
    } else if b.len() == 0 {
        false
    } else if a[0] != b[0] {
        a[0] < b[0]
    } else {
        lex_le(a.drop_first(), b.drop_first())
    }
}

/// Reflexivity of the lexicographic order.
pub proof fn lemma_lex_le_reflexive(a: Seq<char>)
    ensures
        lex_le(a, a),
    decreases a.len(),
{
    if a.len() > 0 {
        lemma_lex_le_reflexive(a.drop_first());
    }
}

/// Any two texts are comparable.
pub proof fn lemma_lex_le_total(a: Seq<char>, b: Seq<char>)
    ensures
        lex_le(a, b) || lex_le(b, a),
    decreases a.len(),
{
    if a.len() > 0 && b.len() > 0 && a[0] == b[0] {
        lemma_lex_le_total(a.drop_first(), b.drop_first());
    }
}

/// Two texts that precede each other are the same text.
pub proof fn lemma_lex_le_antisymmetric(a: Seq<char>, b: Seq<char>)
    requires
        lex_le(a, b),
        lex_le(b, a),
    ensures
        a == b,
    decreases a.len(),
{
    if a.len() > 0 && b.len() > 0 {
        lemma_lex_le_antisymmetric(a.drop_first(), b.drop_first());
        assert(a =~= seq![a[0]] + a.drop_first());
        assert(b =~= seq![b[0]] + b.drop_first());
    } else {
        assert(a =~= b);
    }
}

/// Transitivity of the lexicographic order.
pub proof fn lemma_lex_le_transitive(a: Seq<char>, b: Seq<char>, c: Seq<char>)
    requires
        lex_le(a, b),
        lex_le(b, c),
    ensures
        lex_le(a, c),
    decreases a.len(),
{
    if a.len() > 0 && b.len() > 0 && c.len() > 0 && a[0] == b[0] && b[0] == c[0] {
        lemma_lex_le_transitive(a.drop_first(), b.drop_first(), c.drop_first());
    }
}

/// Whether `a` precedes or equals `b` in lexicographic order of code points.
pub fn str_le(a: &str, b: &str) -> (r: bool)
    ensures
        r == lex_le(a@, b@),
{
    let mut ia = a.chars();
    let mut ib = b.chars();
    loop
        invariant
            lex_le(a@, b@) == lex_le(ia.remaining(), ib.remaining()),
            ia.decrease() is Some,
        decreases ia.decrease()->0,
    {
        let ghost ra = ia.remaining();
        let ghost rb = ib.remaining();
        let ca = ia.next();
        let cb = ib.next();
        match ca {
            None => {
                return true;
            },
            Some(x) => {
                match cb {
                    None => {
                        return false;
                    },
                    Some(y) => {
                        assert(x == ra[0] && y == rb[0]);
                        if x != y {
                            return x < y;
                        }
                    },
                }
            },
        }
    }
}

/// Whether two texts hold the same characters.
pub fn str_eq(a: &str, b: &str) -> (r: bool)
    ensures
        r == (a@ == b@),
{
    let mut ia = a.chars();
    let mut ib = b.chars();
    loop
        invariant
            (a@ == b@) == (ia.remaining() == ib.remaining()),
            ia.decrease() is Some,
        decreases ia.decrease()->0,
    {
        let ghost ra = ia.remaining();
        let ghost rb = ib.remaining();
        let ca = ia.next();
        let cb = ib.next();
        match ca {
            None => {
                assert(ra.len() == 0);
                assert(rb.len() == 0 ==> ra =~= rb);
                return cb.is_none();
            },
            Some(x) => {
                match cb {
                    None => {
                        return false;
                    },
                    Some(y) => {
                        assert(x == ra[0] && y == rb[0]);
                        if x != y {
                            return false;
                        }
                        assert(ra =~= seq![x] + ra.drop_first());
                        assert(rb =~= seq![y] + rb.drop_first());
                    },
                }
            },
        }
    }
}

/// The characters of a text, one by one.
pub fn chars_of(s: &str) -> (v: Vec<char>)
    ensures
        v@ == s@,
{
    let mut v: Vec<char> = Vec::new();
    for c in it: s.chars()
        invariant
            it.seq() == s@,
            v@ == s@.take(it.index() as int),
    {
        v.push(c);
        assert(s@.take(it.index() + 1) =~= s@.take(it.index() as int).push(c));
    }
    assert(s@.take(s@.len() as int) =~= s@);
    v
}

/// The character of a decimal digit.
pub open spec fn digit_char(d: int) -> char {
    if d == 0 {
        '0'
    } else if d == 1 {
        '1'
    } else if d == 2 {
        '2'
    } else if d == 3 {
        '3'
    } else if d == 4 {
        '4'
    } else if d == 5 {
        '5'
    } else if d == 6 {
        '6'
    } else if d == 7 {
        '7'
    } else if d == 8 {
        '8'
    } else {
        '9'
    }
}

/// The decimal numeral of a natural number, without leading zeros.
pub open spec fn decimal(n: nat) -> Seq<char>
    decreases n,
{
    if n < 10 {
        seq![digit_char(n as int)]
    } else {
        decimal(n / 10).push(digit_char((n % 10) as int))
    }
}

/// The text of one decimal digit.
fn digit_text(d: usize) -> (r: &'static str)
    requires
        d < 10,
    ensures
        r@ == seq![digit_char(d as int)],
{
    proof {
        reveal_strlit("0");
        reveal_strlit("1");
        reveal_strlit("2");
        reveal_strlit("3");
        reveal_strlit("4");
        reveal_strlit("5");
        reveal_strlit("6");
        reveal_strlit("7");
        reveal_strlit("8");
        reveal_strlit("9");
    }
    let r = if d == 0 {
        "0"
    } else if d == 1 {
        "1"
    } else if d == 2 {
        "2"
    } else if d == 3 {
        "3"
    } else if d == 4 {
        "4"
    } else if d == 5 {
        "5"
    } else if d == 6 {
        "6"
    } else if d == 7 {
        "7"
    } else if d == 8 {
        "8"
    } else {
        "9"
    };
    assert(r@ =~= seq![digit_char(d as int)]);
    r
}

/// Writes a number as its decimal numeral.
pub fn decimal_text(n: usize) -> (r: String)
    ensures
        r@ == decimal(n as nat),
    decreases n,
{
    if n < 10 {
        String::from_str(digit_text(n))
    } else {
        let mut r = decimal_text(n / 10);
        r.append(digit_text(n % 10));
        assert(r@ =~= decimal(n as nat));
        r
    }
}

/// A decimal numeral has one digit or more.
pub proof fn lemma_decimal_nonempty(n: nat)
    ensures
        decimal(n).len() >= 1,
    decreases n,
{
    if n >= 10 {
        lemma_decimal_nonempty(n / 10);
    }
}

/// Different numbers have different decimal numerals.
pub proof fn lemma_decimal_injective(a: nat, b: nat)
    requires
        decimal(a) == decimal(b),
    ensures
        a == b,
    decreases a,
{
    lemma_decimal_nonempty(a / 10);
    lemma_decimal_nonempty(b / 10);
    if a < 10 && b < 10 {
        assert(decimal(a)[0] == digit_char(a as int));
        assert(decimal(b)[0] == digit_char(b as int));
    } else if a >= 10 && b >= 10 {
        let da = decimal(a / 10);
        let db = decimal(b / 10);
        assert(decimal(a).last() == digit_char((a % 10) as int));
        assert(decimal(b).last() == digit_char((b % 10) as int));
        assert(a % 10 == b % 10);
        assert(da =~= decimal(a).drop_last());
        assert(db =~= decimal(b).drop_last());
        lemma_decimal_injective(a / 10, b / 10);
    } else if a < 10 {
        assert(decimal(a).len() == 1);
        assert(decimal(b).len() == decimal(b / 10).len() + 1);
    } else {
        assert(decimal(b).len() == 1);
        assert(decimal(a).len() == decimal(a / 10).len() + 1);
    }
}

/// Whether a character is a decimal digit.
pub open spec fn is_digit(c: char) -> bool {
    '0' <= c && c <= '9'
}

/// The value of a decimal digit.
pub open spec fn digit_value(c: char) -> nat {
    if c == '1' {
        1
    } else if c == '2' {
        2
    } else if c == '3' {
        3
    } else if c == '4' {
        4
    } else if c == '5' {
        5
    } else if c == '6' {
        6
    } else if c == '7' {
        7
    } else if c == '8' {
        8
    } else if c == '9' {
        9
    } else {
        0
    }
}

/// Whether every character of a text is a decimal digit.
pub open spec fn all_digits(s: Seq<char>) -> bool {
    forall|i: int| 0 <= i < s.len() ==> is_digit(#[trigger] s[i])
}

/// The value of a run of decimal digits, most significant first.
pub open spec fn digits_value(s: Seq<char>) -> nat
    decreases s.len(),
{
    if s.len() == 0 {
        0
    } else {
        digits_value(s.drop_last()) * 10 + digit_value(s.last())
    }
}

/// The number that an unsigned decimal numeral denotes: an optional `+`,
/// then one digit or more.
pub open spec fn parse_nat(s: Seq<char>) -> Option<nat> {
    let body = if s.len() > 0 && s[0] == '+' {
        s.drop_first()
    } else {
        s
    };
    if body.len() > 0 && all_digits(body) {
        Some(digits_value(body))
    } else {
        None
    }
}

/// A run of digits denotes at least what any of its prefixes denotes.
pub proof fn lemma_digits_value_prefix(s: Seq<char>, i: int)
    requires
        0 <= i <= s.len(),
    ensures
        digits_value(s.take(i)) <= digits_value(s),
    decreases s.len(),
{
    if i == s.len() {
        assert(s.take(i) =~= s);
    } else {
        lemma_digits_value_prefix(s.drop_last(), i);
        assert(s.drop_last().take(i) =~= s.take(i));
    }
}

/// The value of a character that is a decimal digit.
fn digit_of(c: char) -> (d: Option<usize>)
    ensures
        d is Some <==> is_digit(c),
        d matches Some(v) ==> v == digit_value(c) && v < 10,
{
    if c == '0' {
        Some(0)
    } else if c == '1' {
        Some(1)
    } else if c == '2' {
        Some(2)
    } else if c == '3' {
        Some(3)
    } else if c == '4' {
        Some(4)
    } else if c == '5' {
        Some(5)
    } else if c == '6' {
        Some(6)
    } else if c == '7' {
        Some(7)
    } else if c == '8' {
        Some(8)
    } else if c == '9' {
        Some(9)
    } else {
        None
    }
}

/// Reads an unsigned decimal numeral. `None` where the text is no numeral or
/// the number does not fit.
pub fn parse_usize(s: &str) -> (r: Option<usize>)
    ensures
        r == match parse_nat(s@) {
            Some(n) => if n <= usize::MAX {
                Some(n as usize)
            } else {
                None
            },
            None => None::<usize>,
        },
{
    let v = chars_of(s);
    let start: usize = if v.len() > 0 && v[0] == '+' {
        1
    } else {
        0
    };
    let ghost body = v@.skip(start as int);
    assert(body =~= if s@.len() > 0 && s@[0] == '+' {
        s@.drop_first()
    } else {
        s@
    });
    if start == v.len() {
        return None;
    }
    let mut value: usize = 0;
    let mut i: usize = start;
    while i < v.len()
        invariant
            start <= i <= v.len(),
            body == v@.skip(start as int),
            body.len() > 0,
            body == if s@.len() > 0 && s@[0] == '+' {
                s@.drop_first()
            } else {
                s@
            },
            all_digits(body.take(i - start)),
            value == digits_value(body.take(i - start)),
        decreases v.len() - i,
    {
        let ghost k = i - start;
        assert(body.take(k + 1).drop_last() =~= body.take(k));
        assert(body.take(k + 1).last() == v@[i as int]);
        match digit_of(v[i]) {
            None => {
                assert(!is_digit(body[k]));
                return None;
            },
            Some(d) => {
                assert forall|j: int| 0 <= j < k + 1 implies is_digit(
                    #[trigger] body.take(k + 1)[j],
                ) by {
                    if j < k {
                        assert(body.take(k + 1)[j] == body.take(k)[j]);
                    }
                }
                if value > (usize::MAX - d) / 10 {
                    proof {
                        assert(digits_value(body.take(k + 1)) > usize::MAX);
                        if all_digits(body) {
                            lemma_digits_value_prefix(body, k + 1);
                        }
                    }
                    return None;
                }
                value = value * 10 + d;
            },
        }
        i = i + 1;
    }
    assert(body.take(i - start) =~= body);
    Some(value)
}

/// The pieces of a text between the occurrences of a separator. A text
/// without the separator is one piece; an empty text is one empty piece.
pub open spec fn split(s: Seq<char>, sep: char) -> Seq<Seq<char>>
    decreases s.len(),
{
    if s.len() == 0 {
        seq![Seq::<char>::empty()]
    } else {
        let before = split(s.drop_last(), sep);
        if s.last() == sep {
            before.push(Seq::<char>::empty())
        } else {
            before.drop_last().push(before.last().push(s.last()))
        }
    }
}

/// Cuts a text at every occurrence of a separator.
pub fn split_text(s: &str, sep: char) -> (r: Vec<String>)
    ensures
        r.deep_view() == split(s@, sep),
{
    let v = chars_of(s);
    let mut parts: Vec<String> = Vec::new();
    let mut start: usize = 0;
    let mut i: usize = 0;
    assert(s@.take(0).len() == 0);
    assert(parts.deep_view().push(s@.subrange(0, 0)) =~~= split(s@.take(0), sep));
    while i < v.len()
        invariant
            v@ == s@,
            0 <= start <= i <= v.len(),
            split(s@.take(i as int), sep) == parts.deep_view().push(
                s@.subrange(start as int, i as int),
            ),
        decreases v.len() - i,
    {
        let ghost before = split(s@.take(i as int), sep);
        assert(s@.take(i + 1).drop_last() =~= s@.take(i as int));
        assert(s@.take(i + 1).last() == s@[i as int]);
        if v[i] == sep {
            let piece = String::from_str(s.substring_char(start, i));
            let ghost old_parts = parts.deep_view();
            parts.push(piece);
            assert(parts.deep_view() =~= old_parts.push(s@.subrange(start as int, i as int)));
            start = i + 1;
            assert(s@.subrange(start as int, i + 1) =~= Seq::<char>::empty());
        } else {
            assert(before.drop_last() =~= parts.deep_view());
            assert(s@.subrange(start as int, i + 1) =~= s@.subrange(start as int, i as int).push(
                s@[i as int],
            ));
        }
        i = i + 1;
    }
    assert(s@.take(i as int) =~= s@);
    let piece = String::from_str(s.substring_char(start, i));
    let ghost old_parts = parts.deep_view();
    parts.push(piece);
    assert(parts.deep_view() =~= old_parts.push(s@.subrange(start as int, i as int)));
    parts
}

/// Where the run of digits that starts at `i` ends.
pub open spec fn digits_end(s: Seq<char>, i: int) -> int
    decreases s.len() - i,
{
    if 0 <= i < s.len() && is_digit(s[i]) {
        digits_end(s, i + 1)
    } else {
        i
    }
}

/// Whether a text spells a word, each letter in either case.
pub open spec fn spells(s: Seq<char>, lower: Seq<char>, upper: Seq<char>) -> bool {
    &&& s.len() == lower.len()
    &&& s.len() == upper.len()
    &&& forall|i: int| 0 <= i < s.len() ==> s[i] == lower[i] || s[i] == upper[i]
}

/// Whether the text from `j` on is empty or an exponent: `e` or `E`, an
/// optional sign, then one digit or more up to the end.
pub open spec fn exponent_at(s: Seq<char>, j: int) -> bool {
    j == s.len() || (0 <= j < s.len() && (s[j] == 'e' || s[j] == 'E') && {
        let k = if j + 1 < s.len() && (s[j + 1] == '+' || s[j + 1] == '-') {
            j + 2
        } else {
            j + 1
        };
        k < s.len() && digits_end(s, k) == s.len()
    })
}

/// Whether a text is an unsigned decimal literal: digits with an optional
/// fraction point, one digit at least on either side of it, and an optional
/// exponent.
pub open spec fn is_decimal(s: Seq<char>) -> bool {
    let a = digits_end(s, 0);
    if a < s.len() && s[a] == '.' {
        let b = digits_end(s, a + 1);
        b > 1 && exponent_at(s, b)
    } else {
        a > 0 && exponent_at(s, a)
    }
}

/// Whether a text is a number literal: an optional sign, then `inf`,
/// `infinity` or `nan` in any letter case, or an unsigned decimal literal.
pub open spec fn is_number(s: Seq<char>) -> bool {
    let body = if s.len() > 0 && (s[0] == '+' || s[0] == '-') {
        s.drop_first()
    } else {
        s
    };
    ||| spells(body, seq!['i', 'n', 'f'], seq!['I', 'N', 'F'])
    ||| spells(
        body,
        seq!['i', 'n', 'f', 'i', 'n', 'i', 't', 'y'],
        seq!['I', 'N', 'F', 'I', 'N', 'I', 'T', 'Y'],
    )
    ||| spells(body, seq!['n', 'a', 'n'], seq!['N', 'A', 'N'])
    ||| is_decimal(body)
}

/// Finds where the run of digits that starts at `from` ends.
fn scan_digits(v: &Vec<char>, from: usize) -> (r: usize)
    requires
        from <= v.len(),
    ensures
        r == digits_end(v@, from as int),
        from <= r <= v.len(),
{
    let mut i: usize = from;
    while i < v.len() && digit_of(v[i]).is_some()
        invariant
            from <= i <= v.len(),
            digits_end(v@, from as int) == digits_end(v@, i as int),
        decreases v.len() - i,
    {
        i = i + 1;
    }
    i
}

/// Whether the text from `j` on is empty or an exponent.
fn check_exponent(v: &Vec<char>, j: usize) -> (r: bool)
    requires
        j <= v.len(),
    ensures
        r == exponent_at(v@, j as int),
{
    if j == v.len() {
        return true;
    }
    if v[j] != 'e' && v[j] != 'E' {
        return false;
    }
    let k: usize = if j + 1 < v.len() && (v[j + 1] == '+' || v[j + 1] == '-') {
        j + 2
    } else {
        j + 1
    };
    if k >= v.len() {
        return false;
    }
    scan_digits(v, k) == v.len()
}

/// Whether the text from `from` on spells a word, each letter in either
/// case.
fn check_word(v: &Vec<char>, from: usize, lower: &Vec<char>, upper: &Vec<char>) -> (r: bool)
    requires
        from <= v.len(),
        lower.len() == upper.len(),
    ensures
        r == spells(v@.skip(from as int), lower@, upper@),
{
    if v.len() - from != lower.len() {
        return false;
    }
    let mut i: usize = 0;
    while i < lower.len()
        invariant
            from <= v.len(),
            v.len() - from == lower.len(),
            lower.len() == upper.len(),
            0 <= i <= lower.len(),
            forall|j: int| 0 <= j < i ==> v@[from + j] == lower@[j] || v@[from + j] == upper@[j],
        decreases lower.len() - i,
    {
        if v[from + i] != lower[i] && v[from + i] != upper[i] {
            assert(v@.skip(from as int)[i as int] == v@[from + i]);
            return false;
        }
        i = i + 1;
    }
    assert forall|j: int| 0 <= j < v@.skip(from as int).len() implies v@.skip(from as int)[j]
        == lower@[j] || v@.skip(from as int)[j] == upper@[j] by {
        assert(v@.skip(from as int)[j] == v@[from + j]);
    }
    true
}

/// The run of digits from `i` on ends at the same place in a text and in
/// what is left of it after its first `from` characters, counted from there.
proof fn lemma_digits_end_skip(s: Seq<char>, from: int, i: int)
    requires
        0 <= from <= s.len(),
        0 <= i,
    ensures
        digits_end(s.skip(from), i) + from == digits_end(s, i + from),
    decreases s.len() - from - i,
{
    if i < s.len() - from {
        assert(s.skip(from)[i] == s[i + from]);
        if is_digit(s[i + from]) {
            lemma_digits_end_skip(s, from, i + 1);
        }
    }
}

/// Whether a text is a number literal.
pub fn is_number_text(s: &str) -> (r: bool)
    ensures
        r == is_number(s@),
{
    let v = chars_of(s);
    let from: usize = if v.len() > 0 && (v[0] == '+' || v[0] == '-') {
        1
    } else {
        0
    };
    let ghost body = v@.skip(from as int);
    assert(body =~= if s@.len() > 0 && (s@[0] == '+' || s@[0] == '-') {
        s@.drop_first()
    } else {
        s@
    });
    if check_word(&v, from, &vec!['i', 'n', 'f'], &vec!['I', 'N', 'F']) {
        return true;
    }
    if check_word(
        &v,
        from,
        &vec!['i', 'n', 'f', 'i', 'n', 'i', 't', 'y'],
        &vec!['I', 'N', 'F', 'I', 'N', 'I', 'T', 'Y'],
    ) {
        return true;
    }
    if check_word(&v, from, &vec!['n', 'a', 'n'], &vec!['N', 'A', 'N']) {
        return true;
    }
    let a = scan_digits(&v, from);
    proof {
        lemma_digits_end_skip(v@, from as int, 0);
    }
    if a < v.len() && v[a] == '.' {
        let b = scan_digits(&v, a + 1);
        proof {
            lemma_digits_end_skip(v@, from as int, a + 1 - from);
            lemma_exponent_skip(v@, from as int, b - from);
        }
        b - from > 1 && check_exponent(&v, b)
    } else {
        proof {
            lemma_exponent_skip(v@, from as int, a - from);
        }
        a > from && check_exponent(&v, a)
    }
}

/// An exponent stands at `j` in what is left of a text after its first `from`
/// characters exactly when it stands at `j + from` in the text.
proof fn lemma_exponent_skip(s: Seq<char>, from: int, j: int)
    requires
        0 <= from <= s.len(),
        0 <= j <= s.len() - from,
    ensures
        exponent_at(s.skip(from), j) == exponent_at(s, j + from),
{
    let t = s.skip(from);
    if j < t.len() {
        assert(t[j] == s[j + from]);
        if j + 1 < t.len() {
            assert(t[j + 1] == s[j + 1 + from]);
        }
        let k = if j + 1 < t.len() && (t[j + 1] == '+' || t[j + 1] == '-') {
            j + 2
        } else {
            j + 1
        };
        lemma_digits_end_skip(s, from, k);
    }
}

} // verus!
