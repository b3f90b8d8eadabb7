//! Parsing of separator-delimited lists of signed decimal integers, and the
//! construction of a machine from program text (a comma-separated list).
//! The grammar is specified exactly: parsing succeeds if and only if every
//! token is a signed decimal integer whose value fits in 64 bits.
use crate::intcode::{addr_cap, wf, Intcode, MachineState};
use vstd::prelude::*;
use vstd::string::StringSliceAdditionalSpecFns;

verus! {

/// Malformed text.
#[derive(Debug, Clone, Copy, PartialEq, Eq, Structural)]
pub struct ParseError;

pub open spec fn is_digit(b: u8) -> bool {
    48 <= b <= 57
}

/// The value of a string of decimal digits, most significant first.
pub open spec fn digits_val(t: Seq<u8>) -> int
    decreases t.len(),
{
    if t.len() == 0 {
        0
    } else {
        digits_val(t.drop_last()) * 10 + (t.last() - 48)
    }
}

/// The digit part of a token: everything after an optional sign.
pub open spec fn token_digits(t: Seq<u8>) -> Seq<u8> {
    if t.len() > 0 && (t[0] == 45 || t[0] == 43) {
        t.drop_first()
    } else {
        t
    }
}

pub open spec fn token_sign(t: Seq<u8>) -> int {
    if t.len() > 0 && t[0] == 45 {
        -1
    } else {
        1
    }
}

pub open spec fn all_digits(t: Seq<u8>) -> bool {
    forall|k: int| 0 <= k < t.len() ==> is_digit(t[k])
}

/// The signed value a token denotes.
pub open spec fn token_value(t: Seq<u8>) -> int {
    token_sign(t) * digits_val(token_digits(t))
}

/// A token is an optional sign followed by at least one digit, and its value
/// fits in a 64-bit cell.
pub open spec fn token_ok(t: Seq<u8>) -> bool {
    &&& token_digits(t).len() > 0
    &&& all_digits(token_digits(t))
    &&& i64::MIN <= token_value(t) <= i64::MAX
}

/// The `sep`-separated tokens of `s`, in order.  An empty text holds one
/// empty token, as `split` does.
pub open spec fn split_sep(s: Seq<u8>, sep: u8) -> Seq<Seq<u8>>
    decreases s.len(),
{
    if s.len() == 0 {
        seq![Seq::<u8>::empty()]
    } else {
        let rest = split_sep(s.drop_first(), sep);
        if s[0] == sep {
            seq![Seq::<u8>::empty()] + rest
        } else {
            seq![seq![s[0]] + rest[0]] + rest.drop_first()
        }
    }
}

/// The comma-separated tokens of program text.
pub open spec fn split_commas(s: Seq<u8>) -> Seq<Seq<u8>> {
    split_sep(s, 44)
}

/// The tokens that are retained: all of them, or only the non-empty ones.
pub open spec fn kept(toks: Seq<Seq<u8>>, skip_empty: bool) -> Seq<Seq<u8>>
    decreases toks.len(),
{
    if toks.len() == 0 {
        Seq::empty()
    } else {
        let rest = kept(toks.drop_last(), skip_empty);
        if skip_empty && toks.last().len() == 0 {
            rest
        } else {
            rest.push(toks.last())
        }
    }
}

/// A list is valid when every retained token is a well-formed integer.
pub open spec fn list_ok(s: Seq<u8>, sep: u8, skip_empty: bool) -> bool {
    forall|k: int|
        0 <= k < split_sep(s, sep).len() ==> token_ok(#[trigger] split_sep(s, sep)[k]) || (
        skip_empty && split_sep(s, sep)[k].len() == 0)
}

/// The values a valid list denotes, in order.
pub open spec fn list_values(s: Seq<u8>, sep: u8, skip_empty: bool) -> Seq<i64> {
    kept(split_sep(s, sep), skip_empty).map_values(|t: Seq<u8>| token_value(t) as i64)
}

/// Program text is valid when every comma-separated token is well-formed.
pub open spec fn valid_program(s: Seq<u8>) -> bool {
    list_ok(s, 44, false)
}

/// The cell sequence that valid program text denotes.
pub open spec fn parsed_cells(s: Seq<u8>) -> Seq<i64> {
    list_values(s, 44, false)
}

/// Index of the first separator of `s`, or `s.len()` if there is none.
pub open spec fn first_sep(s: Seq<u8>, sep: u8) -> int
    decreases s.len(),
{
    if s.len() == 0 {
        0
    } else if s[0] == sep {
        0
    } else {
        1 + first_sep(s.drop_first(), sep)
    }
}

/// The first token of a split is everything up to the first separator.
pub proof fn lemma_split_first(s: Seq<u8>, sep: u8)
    ensures
        split_sep(s, sep).len() >= 1,
        0 <= first_sep(s, sep) <= s.len(),
        forall|k: int| 0 <= k < first_sep(s, sep) ==> s[k] != sep,
        first_sep(s, sep) < s.len() ==> s[first_sep(s, sep)] == sep,
        split_sep(s, sep)[0] == s.take(first_sep(s, sep)),
    decreases s.len(),
{
    if s.len() == 0 {
        assert(split_sep(s, sep)[0] =~= s.take(0));
    } else if s[0] == sep {
        assert(split_sep(s, sep)[0] =~= s.take(0));
    } else {
        lemma_split_first(s.drop_first(), sep);
        let fcr = first_sep(s.drop_first(), sep);
        assert(split_sep(s, sep)[0] =~= seq![s[0]] + s.drop_first().take(fcr));
        assert(s.take(first_sep(s, sep)) =~= seq![s[0]] + s.drop_first().take(fcr));
        assert forall|k: int| 0 <= k < first_sep(s, sep) implies s[k] != sep by {
            if k > 0 {
                assert(s[k] == s.drop_first()[k - 1]);
            }
        }
        if first_sep(s, sep) < s.len() {
            assert(s[first_sep(s, sep)] == s.drop_first()[fcr]);
        }
    }
}

/// Splitting at the first separator: a separator-free prefix becomes one
/// token and the remainder splits on its own.
pub proof fn lemma_split_at_sep(a: Seq<u8>, sep: u8, tail: Seq<u8>)
    requires
        forall|k: int| 0 <= k < a.len() ==> a[k] != sep,
    ensures
        split_sep(a + seq![sep] + tail, sep) == seq![a] + split_sep(tail, sep),
    decreases a.len(),
{
    let s = a + seq![sep] + tail;
    if a.len() == 0 {
        assert(a =~= Seq::<u8>::empty());
        assert(s =~= seq![sep] + tail);
        assert(s[0] == sep);
        assert(s.drop_first() =~= tail);
        assert(split_sep(s, sep) =~= seq![a] + split_sep(tail, sep));
    } else {
        lemma_split_at_sep(a.drop_first(), sep, tail);
        assert(s[0] == a[0]);
        assert(s[0] != sep);
        assert(s.drop_first() =~= a.drop_first() + seq![sep] + tail);
        let rest = split_sep(s.drop_first(), sep);
        assert(rest == seq![a.drop_first()] + split_sep(tail, sep));
        assert(seq![s[0]] + rest[0] =~= a);
        assert(rest.drop_first() =~= split_sep(tail, sep));
        assert(split_sep(s, sep) =~= seq![a] + split_sep(tail, sep));
    }
}

/// A separator-free text is a single token.
pub proof fn lemma_split_no_sep(a: Seq<u8>, sep: u8)
    requires
        forall|k: int| 0 <= k < a.len() ==> a[k] != sep,
    ensures
        split_sep(a, sep) == seq![a],
    decreases a.len(),
{
    if a.len() == 0 {
        assert(a =~= Seq::<u8>::empty());
        assert(split_sep(a, sep) =~= seq![a]);
    } else {
        lemma_split_no_sep(a.drop_first(), sep);
        assert(seq![a[0]] + a.drop_first() =~= a);
        assert(split_sep(a, sep) =~= seq![a]);
    }
}

/// Digit strings are nonnegative, and longer prefixes never shrink.
pub proof fn lemma_digits_val_bounds(t: Seq<u8>)
    requires
        all_digits(t),
    ensures
        digits_val(t) >= 0,
        forall|k: int| 0 <= k <= t.len() ==> digits_val(#[trigger] t.take(k)) <= digits_val(t),
    decreases t.len(),
{
    if t.len() == 0 {
        assert forall|k: int| 0 <= k <= t.len() implies digits_val(#[trigger] t.take(k))
            <= digits_val(t) by {
            assert(t.take(k) =~= t);
        }
    } else {
        assert(all_digits(t.drop_last()));
        lemma_digits_val_bounds(t.drop_last());
        assert(digits_val(t) >= digits_val(t.drop_last()));
        assert forall|k: int| 0 <= k <= t.len() implies digits_val(#[trigger] t.take(k))
            <= digits_val(t) by {
            if k == t.len() {
                assert(t.take(k) =~= t);
            } else {
                assert(t.take(k) =~= t.drop_last().take(k));
            }
        }
    }
}

/// A split has at least one token and at most one per byte plus one.
pub proof fn lemma_split_count(s: Seq<u8>, sep: u8)
    ensures
        1 <= split_sep(s, sep).len() <= s.len() + 1,
    decreases s.len(),
{
    if s.len() > 0 {
        lemma_split_count(s.drop_first(), sep);
    }
}

/// Appending a token to the raw list extends the retained list by that
/// token, unless it is skipped.
pub proof fn lemma_kept_push(toks: Seq<Seq<u8>>, t: Seq<u8>, skip_empty: bool)
    ensures
        kept(toks.push(t), skip_empty) == (if skip_empty && t.len() == 0 {
            kept(toks, skip_empty)
        } else {
            kept(toks, skip_empty).push(t)
        }),
{
    assert(toks.push(t).drop_last() =~= toks);
    assert(toks.push(t).last() == t);
}

/// With nothing skipped, the retained list is the raw list.
pub proof fn lemma_kept_all(toks: Seq<Seq<u8>>)
    ensures
        kept(toks, false) == toks,
    decreases toks.len(),
{
    if toks.len() == 0 {
        assert(kept(toks, false) =~= toks);
    } else {
        lemma_kept_all(toks.drop_last());
        assert(kept(toks, false) =~= toks);
    }
}

/// Parse a `sep`-separated list of signed decimal integers.  With
/// `skip_empty`, empty tokens (as around a trailing newline) are passed
/// over.  Succeeds exactly when every retained token is well-formed.
pub fn parse_sep_list(b: &[u8], sep: u8, skip_empty: bool) -> (r: Result<Vec<i64>, ParseError>)
    requires
        b@.len() <= usize::MAX - 8,
        !is_digit(sep),
        sep != 45,
        sep != 43,
    ensures
        match r {
            Ok(out) => list_ok(b@, sep, skip_empty) && out@ == list_values(b@, sep, skip_empty),
            Err(_) => !list_ok(b@, sep, skip_empty),
        },
{
    let n = b.len();
    let ghost bs = b@;
    let mut out: Vec<i64> = Vec::new();
    let ghost mut toks: Seq<Seq<u8>> = Seq::empty();
    let mut i: usize = 0;
    proof {
        assert(bs.subrange(0, n as int) =~= bs);
        assert(out@ =~= kept(toks, skip_empty).map_values(|t: Seq<u8>| token_value(t) as i64));
    }
    loop
        invariant
            b@ == bs,
            n == bs.len(),
            n <= usize::MAX - 8,
            !is_digit(sep),
            sep != 45,
            sep != 43,
            0 <= i <= n,
            forall|k: int|
                0 <= k < toks.len() ==> token_ok(#[trigger] toks[k]) || (skip_empty && toks[k].len()
                    == 0),
            out@ == kept(toks, skip_empty).map_values(|t: Seq<u8>| token_value(t) as i64),
            split_sep(bs, sep) == toks + split_sep(bs.subrange(i as int, n as int), sep),
        decreases n - i,
    {
        let ghost rest = bs.subrange(i as int, n as int);
        proof {
            lemma_split_first(rest, sep);
        }
        let ghost fc = first_sep(rest, sep);
        let ghost tok = rest.take(fc);
        let i0 = i;
        let mut neg = false;
        if i < n && (b[i] == 45 || b[i] == 43) {
            neg = b[i] == 45;
            i = i + 1;
        }
        let dstart = i;
        let mut acc: u128 = 0;
        let lim: u128 = i64::MAX as u128 + 1;
        while i < n && b[i] != sep
            invariant
                b@ == bs,
                n == bs.len(),
                !is_digit(sep),
                sep != 45,
                sep != 43,
                i0 <= dstart <= i <= n,
                dstart <= i0 + 1,
                rest == bs.subrange(i0 as int, n as int),
                fc == first_sep(rest, sep),
                tok == rest.take(fc),
                split_sep(rest, sep)[0] == tok,
                split_sep(rest, sep).len() >= 1,
                0 <= fc <= rest.len(),
                forall|k: int| 0 <= k < fc ==> rest[k] != sep,
                fc < rest.len() ==> rest[fc as int] == sep,
                forall|k: int| i0 <= k < i ==> bs[k] != sep,
                forall|k: int| dstart <= k < i ==> is_digit(bs[k]),
                acc == digits_val(bs.subrange(dstart as int, i as int)),
                acc <= i64::MAX as u128 + 1,
                lim == i64::MAX as u128 + 1,
                dstart == i0 + 1 ==> (bs[i0 as int] == 45 || bs[i0 as int] == 43),
                dstart == i0 && i0 < n ==> bs[i0 as int] != 45 && bs[i0 as int] != 43,
                neg == (bs[i0 as int] == 45 && dstart == i0 + 1),
                forall|k: int|
                    0 <= k < toks.len() ==> token_ok(#[trigger] toks[k]) || (skip_empty
                        && toks[k].len() == 0),
                out@ == kept(toks, skip_empty).map_values(|t: Seq<u8>| token_value(t) as i64),
                split_sep(bs, sep) == toks + split_sep(rest, sep),
            decreases n - i,
        {
            let d = b[i];
            if d < 48 || d > 57 {
                // The current token holds a character that is neither a
                // digit nor a sign in first place: the text is invalid.
                proof {
                    if fc <= i - i0 {
                        assert(fc < rest.len());
                        assert(rest[fc as int] == sep);
                        assert(rest[fc as int] == bs[i0 + fc]);
                        assert(false);
                    }
                    assert(tok.len() == fc);
                    assert(tok[i - i0] == rest[i - i0]);
                    assert(rest[i - i0] == bs[i as int]);
                    let td = token_digits(tok);
                    if dstart == i0 {
                        assert(tok[0] == bs[i0 as int]);
                        assert(td == tok);
                        assert(td[i - dstart] == bs[i as int]);
                    } else {
                        assert(td =~= tok.drop_first());
                        assert(td[i - dstart] == tok[i - i0]);
                    }
                    assert(!is_digit(td[i - dstart]));
                    assert(!token_ok(tok));
                    assert(tok.len() > 0);
                    assert((toks + split_sep(rest, sep))[toks.len() as int] == split_sep(
                        rest,
                        sep,
                    )[0]);
                    assert(split_sep(bs, sep)[toks.len() as int] == tok);
                }
                return Err(ParseError);
            }
            proof {
                assert(bs.subrange(dstart as int, i + 1).drop_last() =~= bs.subrange(
                    dstart as int,
                    i as int,
                ));
                assert(bs.subrange(dstart as int, i + 1).last() == bs[i as int]);
            }
            acc = acc * 10 + (d - 48) as u128;
            i = i + 1;
            if acc > lim {
                // Too many significant digits: the value cannot fit a
                // 64-bit cell, whatever follows in this token.
                proof {
                    if fc < i - i0 {
                        assert(fc < rest.len());
                        assert(rest[fc as int] == sep);
                        assert(rest[fc as int] == bs[i0 + fc]);
                        assert(false);
                    }
                    assert(tok.len() == fc);
                    let td = token_digits(tok);
                    if dstart == i0 {
                        assert(tok[0] == bs[i0 as int]);
                        assert(is_digit(tok[0]));
                        assert(td == tok);
                        assert(token_sign(tok) == 1);
                    } else {
                        assert(tok[0] == bs[i0 as int]);
                        assert(td =~= tok.drop_first());
                    }
                    assert(td.len() == fc - (dstart - i0));
                    if all_digits(td) {
                        lemma_digits_val_bounds(td);
                        assert(td.take(i - dstart) =~= bs.subrange(dstart as int, i as int));
                        assert(digits_val(td.take(i - dstart)) == acc);
                        assert(digits_val(td) >= acc);
                        assert(token_value(tok) > i64::MAX || token_value(tok) < i64::MIN);
                        assert(!token_ok(tok));
                    } else {
                        assert(!token_ok(tok));
                    }
                    assert(tok.len() > 0);
                    assert((toks + split_sep(rest, sep))[toks.len() as int] == split_sep(
                        rest,
                        sep,
                    )[0]);
                    assert(split_sep(bs, sep)[toks.len() as int] == tok);
                }
                return Err(ParseError);
            }
        }
        proof {
            if fc < i - i0 {
                assert(fc < rest.len());
                assert(rest[fc as int] == sep);
                assert(rest[fc as int] == bs[i0 + fc]);
                assert(false);
            }
            if fc > i - i0 {
                assert(i < n);
                assert(rest[i - i0] == bs[i as int]);
                assert(rest[i - i0] != sep);
                assert(bs[i as int] == sep);
                assert(false);
            }
            assert(fc == i - i0);
            assert(tok =~= bs.subrange(i0 as int, i as int));
            assert((toks + split_sep(rest, sep))[toks.len() as int] == split_sep(rest, sep)[0]);
            assert(split_sep(bs, sep)[toks.len() as int] == tok);
        }
        if dstart == i {
            // An empty digit part: the token is empty or a bare sign.
            if skip_empty && dstart == i0 {
                // An empty token, passed over.
                proof {
                    assert(tok.len() == 0);
                    lemma_kept_push(toks, tok, skip_empty);
                    toks = toks.push(tok);
                    assert(toks =~= toks.drop_last().push(tok));
                }
            } else {
                proof {
                    assert(token_digits(tok).len() == 0);
                    assert(!token_ok(tok));
                    if skip_empty {
                        assert(tok.len() > 0);
                    }
                }
                return Err(ParseError);
            }
        } else {
            proof {
                if dstart == i0 {
                    assert(tok[0] == bs[i0 as int]);
                    assert(is_digit(tok[0]));
                    assert(token_digits(tok) == tok);
                    assert(token_sign(tok) == 1);
                } else {
                    assert(tok[0] == bs[i0 as int]);
                    assert(token_digits(tok) =~= tok.drop_first());
                    if neg {
                        assert(token_sign(tok) == -1);
                    } else {
                        assert(tok[0] == 43);
                        assert(token_sign(tok) == 1);
                    }
                }
                let td = token_digits(tok);
                assert(td =~= bs.subrange(dstart as int, i as int));
                assert forall|k: int| 0 <= k < td.len() implies is_digit(td[k]) by {
                    assert(td[k] == bs[dstart + k]);
                }
                assert(all_digits(td));
                assert(digits_val(td) == acc);
                lemma_digits_val_bounds(td);
            }
            let v: i64 = if neg {
                if acc == i64::MAX as u128 + 1 {
                    i64::MIN
                } else {
                    -(acc as i64)
                }
            } else {
                if acc > i64::MAX as u128 {
                    proof {
                        assert(token_value(tok) == digits_val(token_digits(tok)));
                        assert(token_value(tok) > i64::MAX);
                        assert(!token_ok(tok));
                    }
                    return Err(ParseError);
                }
                acc as i64
            };
            assert(token_ok(tok) && v == token_value(tok));
            out.push(v);
            proof {
                lemma_kept_push(toks, tok, skip_empty);
                toks = toks.push(tok);
                assert(out@ =~= kept(toks, skip_empty).map_values(
                    |t: Seq<u8>| token_value(t) as i64,
                ));
            }
        }
        if i == n {
            proof {
                lemma_split_no_sep(tok, sep);
                assert(bs.subrange(i0 as int, n as int) =~= tok);
                assert(split_sep(bs, sep) =~= toks);
                assert(out@ =~= list_values(bs, sep, skip_empty));
            }
            return Ok(out);
        }
        i = i + 1;
        proof {
            let tail = bs.subrange(i as int, n as int);
            lemma_split_at_sep(tok, sep, tail);
            assert(bs.subrange(i0 as int, n as int) =~= tok + seq![sep] + tail);
            assert(split_sep(bs, sep) =~= toks + split_sep(tail, sep));
        }
    }
}

impl Intcode {
    /// Parse program text into a fresh machine.  Succeeds exactly on valid
    /// text; any malformed token is reported as a `ParseError`.
    pub fn from_text(s: &str) -> (r: Result<Intcode, ParseError>)
        requires
            s.spec_bytes().len() <= usize::MAX - 8,
        ensures
            match r {
                Ok(m) => valid_program(s.spec_bytes()) && m@ == (MachineState {
                    cells: parsed_cells(s.spec_bytes()),
                    pointer: 0,
                    base: 0,
                    input: Seq::empty(),
                    output: Seq::empty(),
                    halted: false,
                }),
                Err(_) => !valid_program(s.spec_bytes()),
            },
            r is Ok ==> wf(r.unwrap()@),
    {
        let b = s.as_bytes();
        let cells = match parse_sep_list(b, 44, false) {
            Ok(c) => c,
            Err(e) => {
                return Err(e);
            },
        };
        proof {
            lemma_split_count(b@, 44);
            lemma_kept_all(split_sep(b@, 44));
            assert(cells@.len() == split_sep(b@, 44).len());
            assert(cells@.len() <= addr_cap());
        }
        Ok(Intcode::new(cells))
    }
}

} // verus!
