//! Textual form of unhardened derivation paths.
//!
//! A path string is a run of components, each introduced by `/` and holding a
//! non-empty string of decimal digits whose value lies below the hardened
//! boundary. The canonical text of a terminal is `/{keychain}/{index}`.
//!
//! This module holds the character-level model of that grammar (digit values,
//! component values, the component split), the executable helpers that parse
//! and print decimal components, and the canonical round-trip lemmas.

use vstd::prelude::*;

use crate::index::HARDENED_INDEX_BOUNDARY;

verus! {

/// Is `c` a decimal digit?
pub open spec fn is_dec_digit(c: char) -> bool {
    '0' <= c && c <= '9'
}

/// Numeric value of a digit character (0 for non-digits, which keeps the
/// fold below total and monotone).
pub open spec fn digit_val(c: char) -> nat {
    if is_dec_digit(c) {
        (c as nat - 48) as nat
    } else {
        0
    }
}

/// The digit character for a value below ten.
pub open spec fn digit_char(d: nat) -> char {
    (48 + d) as char
}

/// Every character of `s` is a decimal digit.
pub open spec fn all_dec_digits(s: Seq<char>) -> bool {
    forall|i: int| 0 <= i < s.len() ==> is_dec_digit(#[trigger] s[i])
}

/// Value of a digit string read as a decimal number.
pub open spec fn dec_val(s: Seq<char>) -> nat
    decreases s.len(),
{
    if s.len() == 0 {
        0
    } else {
        dec_val(s.drop_last()) * 10 + digit_val(s.last())
    }
}

/// Decimal text of `n`: non-empty, most significant digit first, no leading
/// zero except for `0` itself.
pub open spec fn dec_digits(n: nat) -> Seq<char>
    decreases n,
{
    if n < 10 {
        seq![digit_char(n)]
    } else {
        dec_digits(n / 10) + seq![digit_char(n % 10)]
    }
}

/// Value of one path component: defined exactly when the component is a
/// non-empty digit string below the hardened boundary.
pub open spec fn comp_val(s: Seq<char>) -> Option<nat> {
    if s.len() > 0 && all_dec_digits(s) && dec_val(s) < HARDENED_INDEX_BOUNDARY as nat {
        Some(dec_val(s))
    } else {
        None
    }
}

/// Position of the first `/` in `s`, or `s.len()` when there is none.
pub open spec fn first_slash(s: Seq<char>) -> int
    decreases s.len(),
{
    if s.len() == 0 {
        0
    } else if s[0] == '/' {
        0
    } else {
        1 + first_slash(s.skip(1))
    }
}

/// Component values of a path string, or `None` when the text breaks the
/// grammar (a component missing its `/`, empty, non-numeric, or with a value
/// in the hardened range).
pub open spec fn path_vals(s: Seq<char>) -> Option<Seq<nat>>
    decreases s.len(),
    via path_vals_decreases
{
    if s.len() == 0 {
        Some(seq![])
    } else if s[0] != '/' {
        None
    } else {
        let rest = s.skip(1);
        let j = first_slash(rest);
        match comp_val(rest.take(j)) {
            None => None,
            Some(v) => match path_vals(rest.skip(j)) {
                None => None,
                Some(vs) => Some(seq![v] + vs),
            },
        }
    }
}

#[via_fn]
proof fn path_vals_decreases(s: Seq<char>) {
    if s.len() > 0 && s[0] == '/' {
        lemma_first_slash(s.skip(1));
    }
}

/// `first_slash` finds the least slash position.
pub proof fn lemma_first_slash(s: Seq<char>)
    ensures
        0 <= first_slash(s) <= s.len(),
        forall|k: int| 0 <= k < first_slash(s) ==> s[k] != '/',
        first_slash(s) < s.len() ==> s[first_slash(s)] == '/',
    decreases s.len(),
{
    if s.len() == 0 {
    } else if s[0] == '/' {
    } else {
        lemma_first_slash(s.skip(1));
        assert forall|k: int| 0 <= k < first_slash(s) implies s[k] != '/' by {
            if k > 0 {
                assert(s.skip(1)[k - 1] != '/');
            }
        }
    }
}

/// Any position with the three properties of `lemma_first_slash` is
/// `first_slash(s)`.
pub proof fn lemma_first_slash_unique(s: Seq<char>, j: int)
    requires
        0 <= j <= s.len(),
        forall|k: int| 0 <= k < j ==> s[k] != '/',
        j < s.len() ==> s[j] == '/',
    ensures
        first_slash(s) == j,
    decreases s.len(),
{
    if s.len() == 0 {
    } else if s[0] == '/' {
        assert(j == 0);
    } else {
        assert(j >= 1);
        lemma_first_slash_unique(s.skip(1), j - 1);
    }
}

/// Reading one more digit multiplies the prefix value by ten.
pub proof fn lemma_dec_val_step(s: Seq<char>, k: int)
    requires
        0 <= k < s.len(),
    ensures
        dec_val(s.take(k + 1)) == dec_val(s.take(k)) * 10 + digit_val(s[k]),
{
    assert(s.take(k + 1).drop_last() =~= s.take(k));
    assert(s.take(k + 1).last() == s[k]);
}

/// A prefix never exceeds the whole in decimal value.
pub proof fn lemma_dec_val_prefix(s: Seq<char>, k: int)
    requires
        0 <= k <= s.len(),
    ensures
        dec_val(s.take(k)) <= dec_val(s),
    decreases s.len() - k,
{
    if k == s.len() {
        assert(s.take(k) =~= s);
    } else {
        lemma_dec_val_step(s, k);
        lemma_dec_val_prefix(s, k + 1);
    }
}

/// The decimal text of a number is made of digits, is non-empty, has no
/// leading zero, and reads back to the same number.
pub proof fn lemma_dec_digits_props(n: nat)
    ensures
        all_dec_digits(dec_digits(n)),
        dec_digits(n).len() >= 1,
        dec_val(dec_digits(n)) == n,
        n >= 1 ==> dec_digits(n)[0] != '0',
    decreases n,
{
    if n < 10 {
        assert(dec_val(dec_digits(n)) == dec_val(seq![digit_char(n)].drop_last()) * 10 + digit_val(
            digit_char(n),
        ));
        assert(seq![digit_char(n)].drop_last() =~= Seq::<char>::empty());
    } else {
        lemma_dec_digits_props(n / 10);
        vstd::arithmetic::div_mod::lemma_fundamental_div_mod(n as int, 10);
        let w = dec_digits(n);
        let head = dec_digits(n / 10);
        assert(w == head + seq![digit_char(n % 10)]);
        assert(w.drop_last() =~= head);
        assert(w.last() == digit_char(n % 10));
        assert(dec_val(w) == dec_val(head) * 10 + digit_val(digit_char(n % 10)));
        assert forall|i: int| 0 <= i < w.len() implies is_dec_digit(#[trigger] w[i]) by {
            if i < head.len() {
                assert(w[i] == head[i]);
            }
        }
        assert(w[0] == head[0]);
    }
}

/// A digit string that does not start with `0` has a positive value.
pub proof fn lemma_dec_val_pos(s: Seq<char>)
    requires
        all_dec_digits(s),
        s.len() >= 1,
        s[0] != '0',
    ensures
        dec_val(s) >= 1,
    decreases s.len(),
{
    if s.len() == 1 {
        assert(is_dec_digit(s[0]));
    } else {
        let h = s.drop_last();
        assert(h[0] == s[0]);
        assert forall|i: int| 0 <= i < h.len() implies is_dec_digit(#[trigger] h[i]) by {
            assert(h[i] == s[i]);
        }
        lemma_dec_val_pos(h);
    }
}

/// Decimal text is unique: a canonical digit string is the decimal text of
/// its own value.
pub proof fn lemma_dec_digits_unique(s: Seq<char>)
    requires
        all_dec_digits(s),
        s.len() >= 1,
        s.len() > 1 ==> s[0] != '0',
    ensures
        dec_digits(dec_val(s)) == s,
    decreases s.len(),
{
    let v = dec_val(s);
    if s.len() == 1 {
        assert(is_dec_digit(s[0]));
        assert(s.drop_last() =~= Seq::<char>::empty());
        assert(dec_val(s.drop_last()) == 0);
        assert(s.last() == s[0]);
        assert(v == digit_val(s[0]));
        assert(digit_char(v) == s[0]);
        assert(dec_digits(v) =~= s);
    } else {
        let h = s.drop_last();
        let d = digit_val(s.last());
        assert(h[0] == s[0]);
        assert forall|i: int| 0 <= i < h.len() implies is_dec_digit(#[trigger] h[i]) by {
            assert(h[i] == s[i]);
        }
        lemma_dec_val_pos(h);
        assert(v == dec_val(h) * 10 + d);
        assert(is_dec_digit(s.last()));
        vstd::arithmetic::div_mod::lemma_fundamental_div_mod_converse(
            v as int,
            10,
            dec_val(h) as int,
            d as int,
        );
        assert(v / 10 == dec_val(h) && v % 10 == d);
        assert(v >= 10);
        lemma_dec_digits_unique(h);
        assert(dec_digits(v) == dec_digits(dec_val(h)) + seq![digit_char(d)]);
        assert(digit_char(d) == s.last());
        assert(dec_digits(v) =~= s);
    }
}

/// Digits are never the separator.
pub proof fn lemma_digits_not_slash(s: Seq<char>)
    requires
        all_dec_digits(s),
    ensures
        forall|k: int| 0 <= k < s.len() ==> s[k] != '/',
{
    assert forall|k: int| 0 <= k < s.len() implies s[k] != '/' by {
        assert(is_dec_digit(s[k]));
    }
}

/// A two-component path built from valid components parses to exactly their
/// two values.
pub proof fn lemma_two_component_path(a: Seq<char>, b: Seq<char>)
    requires
        comp_val(a) is Some,
        comp_val(b) is Some,
    ensures
        path_vals(seq!['/'] + a + seq!['/'] + b) matches Some(vs) && vs == seq![
            comp_val(a).unwrap(),
            comp_val(b).unwrap(),
        ],
{
    let va = comp_val(a).unwrap();
    let vb = comp_val(b).unwrap();
    let s = seq!['/'] + a + seq!['/'] + b;
    let rest = s.skip(1);
    assert(rest =~= a + seq!['/'] + b);
    lemma_digits_not_slash(a);
    assert forall|k: int| 0 <= k < a.len() implies rest[k] != '/' by {
        assert(rest[k] == a[k]);
    }
    assert(rest[a.len() as int] == '/');
    lemma_first_slash_unique(rest, a.len() as int);
    assert(rest.take(a.len() as int) =~= a);
    let tail = rest.skip(a.len() as int);
    assert(tail =~= seq!['/'] + b);
    assert(tail.len() == 1 + b.len() && tail[0] == '/');
    let rest2 = tail.skip(1);
    assert(rest2 =~= b);
    lemma_digits_not_slash(b);
    lemma_first_slash_unique(rest2, b.len() as int);
    assert(rest2.take(b.len() as int) =~= b);
    assert(rest2.skip(b.len() as int) =~= Seq::<char>::empty());
    assert(path_vals(rest2.skip(b.len() as int)) matches Some(e) && e.len() == 0);
    assert(path_vals(tail) matches Some(ts) && ts =~= seq![vb]);
    assert(path_vals(s) matches Some(vs) && vs =~= seq![va, vb]);
}

/// Parses `s[from..to]` as one unhardened decimal component.
pub fn parse_component(s: &str, from: usize, to: usize) -> (r: Option<u32>)
    requires
        from <= to <= s@.len(),
    ensures
        match r {
            Some(v) => comp_val(s@.subrange(from as int, to as int)) == Some(v as nat),
            None => comp_val(s@.subrange(from as int, to as int)) is None,
        },
{
    let ghost comp = s@.subrange(from as int, to as int);
    if from == to {
        return None;
    }
    let mut i: usize = from;
    let mut acc: u64 = 0;
    while i < to
        invariant
            from <= i <= to <= s@.len(),
            comp == s@.subrange(from as int, to as int),
            acc < HARDENED_INDEX_BOUNDARY,
            acc as nat == dec_val(comp.take(i - from)),
            forall|k: int| 0 <= k < i - from ==> is_dec_digit(#[trigger] comp[k]),
        decreases to - i,
    {
        let c = s.get_char(i);
        proof {
            assert(comp[i - from] == s@[i as int]);
        }
        if c < '0' || c > '9' {
            proof {
                assert(!is_dec_digit(comp[i - from]));
            }
            return None;
        }
        let d: u32 = c as u32 - 48;
        proof {
            lemma_dec_val_step(comp, i - from);
            assert(digit_val(comp[i - from]) == d as nat);
        }
        let next: u64 = acc * 10 + d as u64;
        if next >= HARDENED_INDEX_BOUNDARY as u64 {
            proof {
                lemma_dec_val_prefix(comp, i - from + 1);
                if comp_val(comp) is Some {
                    assert(dec_val(comp) < HARDENED_INDEX_BOUNDARY as nat);
                    assert(false);
                }
            }
            return None;
        }
        acc = next;
        i = i + 1;
    }
    proof {
        assert(comp.take(to - from) =~= comp);
    }
    Some(acc as u32)
}

/// Finds the first `/` in `s` at or after `from`, or `s.len()`.
pub fn find_slash(s: &str, from: usize, n: usize) -> (j: usize)
    requires
        from <= n,
        n == s@.len(),
    ensures
        from <= j <= n,
        first_slash(s@.skip(from as int)) == j - from,
        j < n ==> s@[j as int] == '/',
{
    let mut i: usize = from;
    while i < n
        invariant
            from <= i <= n,
            n == s@.len(),
            forall|k: int| from <= k < i ==> s@[k] != '/',
        decreases n - i,
    {
        if s.get_char(i) == '/' {
            proof {
                lemma_skip_slash(s@, from as int, i as int);
            }
            return i;
        }
        i = i + 1;
    }
    proof {
        lemma_skip_slash(s@, from as int, n as int);
    }
    n
}

/// Translates a slash-free stretch of `s` into `first_slash` of the suffix.
proof fn lemma_skip_slash(s: Seq<char>, from: int, j: int)
    requires
        0 <= from <= j <= s.len(),
        forall|k: int| from <= k < j ==> s[k] != '/',
        j < s.len() ==> s[j] == '/',
    ensures
        first_slash(s.skip(from)) == j - from,
{
    let t = s.skip(from);
    assert forall|k: int| 0 <= k < j - from implies t[k] != '/' by {
        assert(t[k] == s[k + from]);
    }
    lemma_first_slash_unique(t, j - from);
}

/// Appends the decimal text of `n` to `out`.
pub fn push_decimal(n: u32, out: &mut String)
    ensures
        final(out)@ == old(out)@ + dec_digits(n as nat),
    decreases n,
{
    if n >= 10 {
        push_decimal(n / 10, out);
    }
    let d: u32 = n % 10;
    let ds: &str = match d {
        0 => "0",
        1 => "1",
        2 => "2",
        3 => "3",
        4 => "4",
        5 => "5",
        6 => "6",
        7 => "7",
        8 => "8",
        _ => "9",
    };
    proof {
        reveal_strlit("0");
        reveal_strlit("1");
        reveal_strlit("2");
        reveal_strlit("3");
        reveal_strlit("4");
        reveal_strlit("5");
        reveal_strlit("6");
        reveal_strlit("7");
        reveal_strlit("8");
        reveal_strlit("9");
        assert(ds@ =~= seq![digit_char((n % 10) as nat)]);
        if n >= 10 {
            assert(dec_digits(n as nat) == dec_digits(n as nat / 10) + seq![
                digit_char(n as nat % 10),
            ]);
        } else {
            assert(dec_digits(n as nat) =~= seq![digit_char((n % 10) as nat)]);
        }
    }
    out.append(ds);
    proof {
        assert(out@ =~= old(out)@ + dec_digits(n as nat));
    }
}

} // verus!
