//! Decimal numbers and space-separated fields, the text forms in which
//! device-mapper tables, messages and status lines carry their values.
use vstd::prelude::*;

verus! {

/// Whether `c` is one of the ASCII digits `0` to `9`.
pub open spec fn is_digit(c: char) -> bool {
    '0' <= c && c <= '9'
}

/// The number that the digit `c` stands for.
pub open spec fn digit_value(c: char) -> nat {
    (c as int - '0' as int) as nat
}

/// The digit that stands for `d`, for `d` below ten.
pub open spec fn digit_char(d: nat) -> char {
    (d + '0' as int) as char
}

/// The decimal form of `n`: its digits, most significant first, with no
/// leading zero (zero itself is the one digit `0`).
pub open spec fn decimal(n: nat) -> Seq<char>
    decreases n,
{
    if n < 10 {
        seq![digit_char(n)]
    } else {
        decimal(n / 10).push(digit_char(n % 10))
    }
}

/// Whether every element of `s` is a digit.
pub open spec fn all_digits(s: Seq<char>) -> bool {
    forall|i: int| 0 <= i < s.len() ==> is_digit(#[trigger] s[i])
}

/// The number that the digits `s` spell, most significant first.
pub open spec fn digits_value(s: Seq<char>) -> nat
    decreases s.len(),
{
    if s.len() == 0 {
        0
    } else {
        digits_value(s.drop_last()) * 10 + digit_value(s.last())
    }
}

/// The digits of a decimal number text: what follows an optional leading `+`.
pub open spec fn unsigned_digits(s: Seq<char>) -> Seq<char> {
    if s.len() > 0 && s[0] == '+' {
        s.drop_first()
    } else {
        s
    }
}

/// The `u64` that the text `s` denotes, as Rust reads an unsigned integer: an
/// optional `+`, then one digit or more and nothing else, of a value that fits
/// in 64 bits. `None` for every other text.
pub open spec fn parsed_u64(s: Seq<char>) -> Option<u64> {
    let d = unsigned_digits(s);
    if d.len() > 0 && all_digits(d) && digits_value(d) <= u64::MAX {
        Some(digits_value(d) as u64)
    } else {
        None
    }
}

/// The pieces of `s` between occurrences of `sep`, in order: one more piece
/// than there are separators, empty pieces included.
pub open spec fn pieces(s: Seq<char>, sep: char) -> Seq<Seq<char>>
    decreases s.len(),
{
    if s.len() == 0 {
        seq![Seq::<char>::empty()]
    } else {
        let rest = pieces(s.drop_first(), sep);
        if s[0] == sep {
            seq![Seq::<char>::empty()] + rest
        } else {
            rest.update(0, seq![s[0]] + rest[0])
        }
    }
}

proof fn lemma_digit_char(d: nat)
    requires
        d < 10,
    ensures
        is_digit(digit_char(d)),
        digit_value(digit_char(d)) == d,
{
}

/// The decimal form of a number is one digit or more, with no sign, and
/// spells the number.
pub proof fn lemma_decimal_digits(n: nat)
    ensures
        decimal(n).len() > 0,
        all_digits(decimal(n)),
        digits_value(decimal(n)) == n,
        decimal(n)[0] != '+',
    decreases n,
{
    if n < 10 {
        lemma_digit_char(n);
        let d = decimal(n);
        assert(d.drop_last() =~= Seq::<char>::empty());
        assert(digits_value(d.drop_last()) == 0);
        assert(d.last() == digit_char(n));
    } else {
        lemma_decimal_digits(n / 10);
        lemma_digit_char(n % 10);
        let d = decimal(n);
        assert(d.drop_last() =~= decimal(n / 10));
        assert(d.last() == digit_char(n % 10));
        assert(digits_value(d) == digits_value(decimal(n / 10)) * 10 + n % 10);
        assert((n / 10) * 10 + n % 10 == n);
        assert forall|i: int| 0 <= i < d.len() implies is_digit(#[trigger] d[i]) by {
            if i < d.len() - 1 {
                assert(d[i] == decimal(n / 10)[i]);
            }
        }
    }
}

/// Reading back the decimal form of a number gives the number: `parse_u64`
/// undoes `decimal` on every `u64`.
pub proof fn lemma_parse_decimal(n: u64)
    ensures
        parsed_u64(decimal(n as nat)) == Some(n),
{
    lemma_decimal_digits(n as nat);
}

/// Digits hold no character but digits, so no separator that is not a digit.
pub proof fn lemma_digits_lack(s: Seq<char>, c: char)
    requires
        all_digits(s),
        !is_digit(c),
    ensures
        !s.contains(c),
{
    if s.contains(c) {
        let k = choose|k: int| 0 <= k < s.len() && s[k] == c;
        assert(is_digit(s[k]));
    }
}

/// The pieces joined again, with `sep` between each two.
pub open spec fn joined(ps: Seq<Seq<char>>, sep: char) -> Seq<char>
    decreases ps.len(),
{
    if ps.len() <= 1 {
        if ps.len() == 0 {
            Seq::empty()
        } else {
            ps[0]
        }
    } else {
        ps[0] + seq![sep] + joined(ps.drop_first(), sep)
    }
}

proof fn lemma_joined_prepend(ps: Seq<Seq<char>>, c: char, sep: char)
    requires
        ps.len() >= 1,
    ensures
        joined(ps.update(0, seq![c] + ps[0]), sep) == seq![c] + joined(ps, sep),
{
    let qs = ps.update(0, seq![c] + ps[0]);
    if ps.len() > 1 {
        assert(qs.drop_first() =~= ps.drop_first());
        assert(joined(qs, sep) =~= seq![c] + joined(ps, sep));
    } else {
        assert(joined(qs, sep) =~= seq![c] + joined(ps, sep));
    }
}

/// Splitting loses nothing and keeps no separator: the pieces of `s` are one
/// or more, none holds `sep`, and joined with `sep` they give `s` back.
pub proof fn lemma_pieces_join(s: Seq<char>, sep: char)
    ensures
        pieces(s, sep).len() >= 1,
        forall|i: int| 0 <= i < pieces(s, sep).len() ==> !(#[trigger] pieces(s, sep)[i]).contains(sep),
        joined(pieces(s, sep), sep) == s,
    decreases s.len(),
{
    if s.len() == 0 {
        let ps = pieces(s, sep);
        assert forall|i: int| 0 <= i < ps.len() implies !(#[trigger] ps[i]).contains(sep) by {
            assert(ps[i] =~= Seq::<char>::empty());
        }
        assert(joined(ps, sep) =~= s);
    } else {
        let t = s.drop_first();
        lemma_pieces_join(t, sep);
        let rest = pieces(t, sep);
        let ps = pieces(s, sep);
        if s[0] == sep {
            assert(ps =~= seq![Seq::<char>::empty()] + rest);
            assert(ps.drop_first() =~= rest);
            assert forall|i: int| 0 <= i < ps.len() implies !(#[trigger] ps[i]).contains(sep) by {
                if i == 0 {
                    assert(ps[0] =~= Seq::<char>::empty());
                } else {
                    assert(ps[i] == rest[i - 1]);
                }
            }
            assert(joined(ps, sep) =~= seq![sep] + joined(rest, sep));
            assert(s =~= seq![sep] + t);
        } else {
            lemma_joined_prepend(rest, s[0], sep);
            assert forall|i: int| 0 <= i < ps.len() implies !(#[trigger] ps[i]).contains(sep) by {
                if i == 0 {
                    let p = ps[0];
                    assert(p =~= seq![s[0]] + rest[0]);
                    if p.contains(sep) {
                        let k = choose|k: int| 0 <= k < p.len() && p[k] == sep;
                        if k > 0 {
                            assert(rest[0][k - 1] == sep);
                            assert(rest[0].contains(sep));
                        }
                    }
                } else {
                    assert(ps[i] == rest[i]);
                }
            }
            assert(s =~= seq![s[0]] + t);
        }
    }
}

/// A text without the separator is a single piece.
pub proof fn lemma_split_no_sep(s: Seq<char>, sep: char)
    requires
        !s.contains(sep),
    ensures
        pieces(s, sep) == seq![s],
    decreases s.len(),
{
    if s.len() > 0 {
        assert(!s.drop_first().contains(sep)) by {
            if s.drop_first().contains(sep) {
                let k = choose|k: int| 0 <= k < s.drop_first().len() && s.drop_first()[k] == sep;
                assert(s[k + 1] == sep);
            }
        }
        lemma_split_no_sep(s.drop_first(), sep);
        assert(s[0] != sep) by {
            if s[0] == sep {
                assert(s.contains(sep));
            }
        }
        assert(seq![s[0]] + s.drop_first() =~= s);
        assert(pieces(s, sep) =~= seq![s]);
    } else {
        assert(s =~= Seq::<char>::empty());
    }
}

/// The first piece ends at the first separator: splitting `a`, a separator and
/// `b`, where `a` holds no separator, gives `a` and then the pieces of `b`.
pub proof fn lemma_split_first(a: Seq<char>, b: Seq<char>, sep: char)
    requires
        !a.contains(sep),
    ensures
        pieces(a + seq![sep] + b, sep) == seq![a] + pieces(b, sep),
    decreases a.len(),
{
    let s = a + seq![sep] + b;
    if a.len() == 0 {
        assert(s.drop_first() =~= b);
        assert(a =~= Seq::<char>::empty());
    } else {
        let a1 = a.drop_first();
        assert(!a1.contains(sep)) by {
            if a1.contains(sep) {
                let k = choose|k: int| 0 <= k < a1.len() && a1[k] == sep;
                assert(a[k + 1] == sep);
            }
        }
        lemma_split_first(a1, b, sep);
        assert(s.drop_first() =~= a1 + seq![sep] + b);
        assert(a[0] != sep) by {
            if a[0] == sep {
                assert(a.contains(sep));
            }
        }
        assert(s[0] == a[0]);
        assert(seq![a[0]] + a1 =~= a);
        assert(pieces(s, sep) =~= seq![a] + pieces(b, sep));
    }
}

/// Reads `s` as Rust reads a `u64` from text (`s.parse::<u64>()`): `Some`
/// exactly when `parsed_u64` gives a value, and then that value.
pub fn parse_u64(s: &str) -> (r: Option<u64>)
    ensures
        r == parsed_u64(s@),
{
    let len = s.unicode_len();
    let mut start: usize = 0;
    if len > 0 && s.get_char(0) == '+' {
        start = 1;
    }
    let ghost d = unsigned_digits(s@);
    assert(d =~= s@.subrange(start as int, len as int));
    if start == len {
        return None;
    }
    let mut i: usize = start;
    let mut acc: u64 = 0;
    let mut overflow = false;
    while i < len
        invariant
            len == s@.len(),
            start <= i <= len,
            d == unsigned_digits(s@),
            d == s@.subrange(start as int, len as int),
            all_digits(s@.subrange(start as int, i as int)),
            !overflow ==> acc == digits_value(s@.subrange(start as int, i as int)),
            overflow ==> digits_value(s@.subrange(start as int, i as int)) > u64::MAX,
        decreases len - i,
    {
        let c = s.get_char(i);
        if !('0' <= c && c <= '9') {
            assert(d[i - start] == c);
            return None;
        }
        let dv = (c as u32 - 48) as u64;
        let ghost prefix = s@.subrange(start as int, i as int);
        let ghost next = s@.subrange(start as int, i + 1);
        assert(next.drop_last() =~= prefix);
        assert(next.last() == c);
        assert(digits_value(next) == digits_value(prefix) * 10 + dv);
        if !overflow {
            match acc.checked_mul(10) {
                Some(m) => match m.checked_add(dv) {
                    Some(v) => {
                        acc = v;
                    },
                    None => {
                        overflow = true;
                    },
                },
                None => {
                    overflow = true;
                },
            }
        }
        assert forall|k: int| 0 <= k < next.len() implies is_digit(#[trigger] next[k]) by {
            if k < prefix.len() {
                assert(next[k] == prefix[k]);
            }
        }
        i = i + 1;
    }
    assert(s@.subrange(start as int, len as int) =~= d);
    if overflow {
        None
    } else {
        Some(acc)
    }
}

/// Whether `s` begins with `prefix`.
pub fn starts_with(s: &str, prefix: &str) -> (r: bool)
    ensures
        r == prefix@.is_prefix_of(s@),
{
    let n = prefix.unicode_len();
    let len = s.unicode_len();
    if n > len {
        return false;
    }
    let mut i: usize = 0;
    while i < n
        invariant
            n == prefix@.len(),
            len == s@.len(),
            n <= len,
            i <= n,
            forall|k: int| 0 <= k < i ==> prefix@[k] == s@[k],
        decreases n - i,
    {
        if s.get_char(i) != prefix.get_char(i) {
            return false;
        }
        i = i + 1;
    }
    true
}

/// Splits `s` at every `sep`, as `s.split(sep)` does: the pieces are those of
/// `pieces(s@, sep)`, in order.
pub fn split_on(s: &str, sep: char) -> (fields: Vec<String>)
    ensures
        fields@.map_values(|f: String| f@) == pieces(s@, sep),
{
    let len = s.unicode_len();
    let mut fields: Vec<String> = Vec::new();
    let mut start: usize = 0;
    let mut i: usize = 0;
    assert(s@.subrange(0, len as int) =~= s@);
    assert(fields@.map_values(|f: String| f@) + pieces(s@, sep) =~= pieces(s@, sep));
    while i < len
        invariant
            len == s@.len(),
            start <= i <= len,
            !s@.subrange(start as int, i as int).contains(sep),
            fields@.map_values(|f: String| f@) + pieces(s@.subrange(start as int, len as int), sep)
                == pieces(s@, sep),
        decreases len - i,
    {
        let c = s.get_char(i);
        if c == sep {
            let piece = s.substring_char(start, i).to_owned();
            proof {
                let a = s@.subrange(start as int, i as int);
                let b = s@.subrange(i + 1, len as int);
                assert(s@.subrange(start as int, len as int) =~= a + seq![sep] + b);
                lemma_split_first(a, b, sep);
            }
            let ghost old_fields = fields@;
            fields.push(piece);
            assert(fields@.map_values(|f: String| f@) =~= old_fields.map_values(|f: String| f@).push(piece@));
            assert(s@.subrange(i + 1, i + 1) =~= Seq::<char>::empty());
            start = i + 1;
            proof {
                let lhs = fields@.map_values(|f: String| f@) + pieces(s@.subrange(start as int, len as int), sep);
                assert(lhs =~= old_fields.map_values(|f: String| f@) + (seq![piece@] + pieces(s@.subrange(start as int, len as int), sep)));
            }
        } else {
            proof {
                let a = s@.subrange(start as int, i as int);
                let a2 = s@.subrange(start as int, i + 1);
                assert(a2 =~= a.push(c));
                if a2.contains(sep) {
                    let k = choose|k: int| 0 <= k < a2.len() && a2[k] == sep;
                    if k < a.len() {
                        assert(a[k] == sep);
                    }
                }
            }
        }
        i = i + 1;
    }
    let last = s.substring_char(start, len).to_owned();
    proof {
        lemma_split_no_sep(s@.subrange(start as int, len as int), sep);
    }
    let ghost old_fields = fields@;
    fields.push(last);
    assert(fields@.map_values(|f: String| f@) =~= old_fields.map_values(|f: String| f@).push(last@));
    assert(fields@.map_values(|f: String| f@) =~= pieces(s@, sep));
    fields
}

fn digit_str(d: u64) -> (r: &'static str)
    requires
        d < 10,
    ensures
        r@ == seq![digit_char(d as nat)],
{
    if d == 0 {
        proof { reveal_strlit("0"); }
        "0"
    } else if d == 1 {
        proof { reveal_strlit("1"); }
        "1"
    } else if d == 2 {
        proof { reveal_strlit("2"); }
        "2"
    } else if d == 3 {
        proof { reveal_strlit("3"); }
        "3"
    } else if d == 4 {
        proof { reveal_strlit("4"); }
        "4"
    } else if d == 5 {
        proof { reveal_strlit("5"); }
        "5"
    } else if d == 6 {
        proof { reveal_strlit("6"); }
        "6"
    } else if d == 7 {
        proof { reveal_strlit("7"); }
        "7"
    } else if d == 8 {
        proof { reveal_strlit("8"); }
        "8"
    } else {
        proof { reveal_strlit("9"); }
        "9"
    }
}

/// Appends the decimal form of `n` to `out`.
pub fn push_decimal(out: &mut String, n: u64)
    ensures
        final(out)@ == old(out)@ + decimal(n as nat),
    decreases n,
{
    if n >= 10 {
        push_decimal(out, n / 10);
    }
    out.append(digit_str(n % 10));
    assert(out@ =~= old(out)@ + decimal(n as nat));
}

/// The decimal form of `n`, as `n.to_string()` writes it.
pub fn decimal_string(n: u64) -> (s: String)
    ensures
        s@ == decimal(n as nat),
{
    let mut s = String::new();
    push_decimal(&mut s, n);
    assert(s@ =~= decimal(n as nat));
    s
}

} // verus!
