//! Derivation terminals: the last two unhardened components of a path.
//!
//! A [`Terminal`] pairs a keychain index with an address index. Its canonical
//! text is `/{keychain}/{index}`; parsing accepts exactly the two-component
//! unhardened path strings and reports either a path-syntax failure or a
//! wrong component count.

use vstd::prelude::*;

use crate::index::{HARDENED_INDEX_BOUNDARY, NormalIndex};
use crate::path::{
    comp_val, dec_digits, find_slash, first_slash, lemma_dec_digits_props,
    lemma_dec_digits_unique, lemma_first_slash, lemma_two_component_path, parse_component,
    path_vals, push_decimal,
};

verus! {

/// The terminal point of a derivation path: a keychain index and an address
/// index, both unhardened. Ordered lexicographically by (keychain, index).
#[derive(Clone, Copy, PartialEq, Eq, Structural, Ord, Hash, Debug)]
pub struct Terminal {
    pub keychain: NormalIndex,
    pub index: NormalIndex,
}

/// Failure of the underlying unhardened-path parser: the text is not a run
/// of `/`-prefixed decimal components below the hardened boundary. Carries
/// the offending path text.
#[derive(Clone, PartialEq, Eq, Hash, Debug)]
pub struct DerivationParseError {
    pub invalid: String,
}

/// Failure to read a [`Terminal`] from a string.
#[derive(Clone, PartialEq, Eq, Hash, Debug)]
pub enum TerminalParseError {
    /// The path text itself is malformed; surfaced unchanged.
    DerivationPath(DerivationParseError),
    /// A syntactically valid unhardened path whose component count is not
    /// two. Carries the original string.
    InvalidComponents(String),
}

/// Canonical text of a terminal with keychain value `k` and index value `i`.
pub open spec fn terminal_str(k: nat, i: nat) -> Seq<char> {
    seq!['/'] + dec_digits(k) + seq!['/'] + dec_digits(i)
}

impl Terminal {
    /// Pairs a keychain index with an address index.
    pub fn new(keychain: NormalIndex, index: NormalIndex) -> (r: Self)
        ensures
            r.keychain == keychain,
            r.index == index,
    {
        Terminal { keychain, index }
    }

    /// Parses a two-component unhardened path string.
    ///
    /// Returns the terminal exactly when the text parses to two unhardened
    /// components; a malformed path gives the path-syntax error, any other
    /// component count the wrong-count error.
    pub fn parse(s: &str) -> (r: Result<Terminal, TerminalParseError>)
        ensures
            match r {
                Ok(t) => path_vals(s@) matches Some(vs) && vs.len() == 2 && t.keychain@ == vs[0]
                    && t.index@ == vs[1],
                Err(TerminalParseError::DerivationPath(e)) => path_vals(s@) is None && e.invalid@
                    == s@,
                Err(TerminalParseError::InvalidComponents(t)) => path_vals(s@) matches Some(vs)
                    && vs.len() != 2 && t@ == s@,
            },
    {
        let n = s.unicode_len();
        if n == 0 {
            return Err(TerminalParseError::InvalidComponents(s.to_owned()));
        }
        if s.get_char(0) != '/' {
            return Err(
                TerminalParseError::DerivationPath(DerivationParseError { invalid: s.to_owned() }),
            );
        }
        let mut pos: usize = 0;
        let mut count: usize = 0;
        let mut first: u32 = 0;
        let mut second: u32 = 0;
        let ghost mut vals: Seq<nat> = seq![];
        proof {
            assert(s@.skip(0) =~= s@);
            match path_vals(s@) {
                None => {},
                Some(cs) => {
                    assert(vals + cs =~= cs);
                },
            }
        }
        while pos < n
            invariant
                n == s@.len(),
                pos <= n,
                pos < n ==> s@[pos as int] == '/',
                2 * vals.len() <= pos as int,
                count as int == vals.len(),
                match path_vals(s@.skip(pos as int)) {
                    None => path_vals(s@) is None,
                    Some(cs) => path_vals(s@) matches Some(all) && all == vals + cs,
                },
                vals.len() >= 1 ==> first as nat == vals[0] && first < HARDENED_INDEX_BOUNDARY,
                vals.len() >= 2 ==> second as nat == vals[1] && second < HARDENED_INDEX_BOUNDARY,
            decreases n - pos,
        {
            let ghost rem = s@.skip(pos as int);
            let j = find_slash(s, pos + 1, n);
            proof {
                assert(rem.skip(1) =~= s@.skip(pos + 1));
                assert(first_slash(rem.skip(1)) == j - (pos + 1));
                assert(rem.skip(1).take(j - (pos + 1)) =~= s@.subrange(pos + 1, j as int));
                assert(rem.skip(1).skip(j - (pos + 1)) =~= s@.skip(j as int));
            }
            let v = match parse_component(s, pos + 1, j) {
                Some(v) => v,
                None => {
                    proof {
                        assert(path_vals(rem) is None);
                    }
                    return Err(
                        TerminalParseError::DerivationPath(
                            DerivationParseError { invalid: s.to_owned() },
                        ),
                    );
                },
            };
            proof {
                assert(comp_val(s@.subrange(pos + 1, j as int)) == Some(v as nat));
                assert(s@.subrange(pos + 1, j as int).len() > 0);
                assert(j >= pos + 2);
                assert(match path_vals(s@.skip(j as int)) {
                    None => path_vals(rem) is None,
                    Some(cs) => path_vals(rem) matches Some(w) && w == seq![v as nat] + cs,
                });
            }
            if count == 0 {
                first = v;
            } else if count == 1 {
                second = v;
            }
            count = count + 1;
            proof {
                let old_vals = vals;
                vals = vals + seq![v as nat];
                assert(vals.len() >= 1 ==> vals[0] == if old_vals.len() == 0 {
                    v as nat
                } else {
                    old_vals[0]
                });
                assert(match path_vals(s@.skip(j as int)) {
                    None => path_vals(s@) is None,
                    Some(cs) => path_vals(s@) matches Some(all) && all == vals + cs,
                }) by {
                    match path_vals(s@.skip(j as int)) {
                        None => {},
                        Some(cs) => {
                            assert(old_vals + (seq![v as nat] + cs) =~= (old_vals + seq![
                                v as nat,
                            ]) + cs);
                        },
                    }
                }
            }
            pos = j;
        }
        proof {
            assert(s@.skip(n as int) =~= Seq::<char>::empty());
            assert(path_vals(s@.skip(pos as int)) matches Some(e) && e.len() == 0);
            assert(path_vals(s@) matches Some(all) && all =~= vals);
        }
        if count == 2 {
            let keychain = NormalIndex::from_checked(first);
            let index = NormalIndex::from_checked(second);
            return Ok(Terminal { keychain, index });
        }
        Err(TerminalParseError::InvalidComponents(s.to_owned()))
    }

    /// Canonical text of the terminal: `/{keychain}/{index}`.
    pub fn display(&self) -> (r: String)
        ensures
            r@ == terminal_str(self.keychain@, self.index@),
    {
        let mut out = String::new();
        proof {
            reveal_strlit("/");
        }
        out.append("/");
        push_decimal(self.keychain.value(), &mut out);
        out.append("/");
        push_decimal(self.index.value(), &mut out);
        proof {
            assert("/"@ =~= seq!['/']);
            assert(out@ =~= terminal_str(self.keychain@, self.index@));
        }
        out
    }
}

impl core::str::FromStr for Terminal {
    type Err = TerminalParseError;

    fn from_str(s: &str) -> (r: Result<Terminal, TerminalParseError>) {
        Terminal::parse(s)
    }
}

impl PartialOrd for Terminal {
    fn partial_cmp(&self, other: &Self) -> (r: Option<core::cmp::Ordering>) {
        let ka = self.keychain.value();
        let kb = other.keychain.value();
        let r = if ka < kb {
            Some(core::cmp::Ordering::Less)
        } else if ka > kb {
            Some(core::cmp::Ordering::Greater)
        } else {
            let ia = self.index.value();
            let ib = other.index.value();
            if ia < ib {
                Some(core::cmp::Ordering::Less)
            } else if ia > ib {
                Some(core::cmp::Ordering::Greater)
            } else {
                Some(core::cmp::Ordering::Equal)
            }
        };
        proof {
            let s = terminal_cmp_spec(self, other);
            if self.keychain@ < other.keychain@ {
                assert(s == Some(core::cmp::Ordering::Less));
            } else if self.keychain@ > other.keychain@ {
                assert(s == Some(core::cmp::Ordering::Greater));
            } else if self.index@ < other.index@ {
                assert(s == Some(core::cmp::Ordering::Less));
            } else if self.index@ > other.index@ {
                assert(s == Some(core::cmp::Ordering::Greater));
            } else {
                assert(s == Some(core::cmp::Ordering::Equal));
            }
            assert(r == s);
        }
        r
    }
}

/// Lexicographic order of terminals: by keychain, then by index.
pub open spec fn terminal_cmp_spec(t1: &Terminal, t2: &Terminal) -> Option<core::cmp::Ordering> {
    if t1.keychain@ < t2.keychain@ {
        Some(core::cmp::Ordering::Less)
    } else if t1.keychain@ > t2.keychain@ {
        Some(core::cmp::Ordering::Greater)
    } else if t1.index@ < t2.index@ {
        Some(core::cmp::Ordering::Less)
    } else if t1.index@ > t2.index@ {
        Some(core::cmp::Ordering::Greater)
    } else {
        Some(core::cmp::Ordering::Equal)
    }
}

impl vstd::std_specs::cmp::PartialOrdSpecImpl for Terminal {
    open spec fn obeys_partial_cmp_spec() -> bool {
        true
    }

    open spec fn partial_cmp_spec(&self, other: &Self) -> Option<core::cmp::Ordering> {
        terminal_cmp_spec(self, other)
    }
}

/// First component of a two-component path string, by position.
pub open spec fn component_a(s: Seq<char>) -> Seq<char> {
    s.skip(1).take(first_slash(s.skip(1)))
}

/// Second component of a two-component path string, by position.
pub open spec fn component_b(s: Seq<char>) -> Seq<char> {
    let rest = s.skip(1).skip(first_slash(s.skip(1)));
    rest.skip(1).take(first_slash(rest.skip(1)))
}

/// A two-component path string is nothing but its two slash-prefixed
/// components, and they parse to its two values.
pub proof fn lemma_two_component_decomposition(s: Seq<char>)
    requires
        path_vals(s) matches Some(vs) && vs.len() == 2,
    ensures
        s == seq!['/'] + component_a(s) + seq!['/'] + component_b(s),
        path_vals(s) matches Some(vs) && comp_val(component_a(s)) == Some(vs[0]) && comp_val(
            component_b(s),
        ) == Some(vs[1]),
{
    let vs = path_vals(s).unwrap();
    assert(s.len() > 0 && s[0] == '/');
    let rest1 = s.skip(1);
    let j1 = first_slash(rest1);
    lemma_first_slash(rest1);
    let a = component_a(s);
    assert(comp_val(a) matches Some(v) && v == vs[0] && vs == seq![v] + path_vals(
        rest1.skip(j1),
    ).unwrap());
    let rest2 = rest1.skip(j1);
    let vs1 = path_vals(rest2).unwrap();
    assert(vs1.len() == 1);
    assert(rest2.len() > 0 && rest2[0] == '/');
    let rest3 = rest2.skip(1);
    let j2 = first_slash(rest3);
    lemma_first_slash(rest3);
    let b = component_b(s);
    assert(b == rest3.take(j2));
    assert(comp_val(b) matches Some(v) && v == vs1[0] && vs1 == seq![v] + path_vals(
        rest3.skip(j2),
    ).unwrap());
    let tail = rest3.skip(j2);
    assert(path_vals(tail).unwrap().len() == 0);
    if tail.len() > 0 {
        assert(tail[0] == '/');
        assert(path_vals(tail) matches Some(w) && w.len() >= 1);
    }
    assert(tail.len() == 0);
    assert(rest3 =~= b + tail);
    assert(rest3 =~= b);
    assert(rest2 =~= seq!['/'] + rest3);
    assert(rest1 =~= a + rest2);
    assert(s =~= seq!['/'] + rest1);
    assert(s =~= seq!['/'] + a + seq!['/'] + b);
    assert(vs[1] == vs1[0]);
}

/// Canonical round-trip, one way: a two-component unhardened path string
/// whose components carry no leading zero is reproduced, character for
/// character, by formatting the terminal it parses to.
pub proof fn lemma_parse_then_format(s: Seq<char>)
    requires
        path_vals(s) matches Some(vs) && vs.len() == 2,
        component_a(s).len() > 1 ==> component_a(s)[0] != '0',
        component_b(s).len() > 1 ==> component_b(s)[0] != '0',
    ensures
        path_vals(s) matches Some(vs) && terminal_str(vs[0], vs[1]) == s,
{
    lemma_two_component_decomposition(s);
    let a = component_a(s);
    let b = component_b(s);
    lemma_dec_digits_unique(a);
    lemma_dec_digits_unique(b);
    assert(terminal_str(path_vals(s).unwrap()[0], path_vals(s).unwrap()[1]) =~= s);
}

/// Canonical round-trip, the other way: the text of any terminal parses back
/// to exactly its two component values.
pub proof fn lemma_format_then_parse(k: nat, i: nat)
    requires
        k < HARDENED_INDEX_BOUNDARY,
        i < HARDENED_INDEX_BOUNDARY,
    ensures
        path_vals(terminal_str(k, i)) matches Some(vs) && vs == seq![k, i],
{
    lemma_dec_digits_props(k);
    lemma_dec_digits_props(i);
    lemma_two_component_path(dec_digits(k), dec_digits(i));
}

} // verus!
