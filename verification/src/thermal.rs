//! Reading the temperature: a decimal parser for the environment-provided
//! thermal value, falling back to a default reading when the value is
//! missing or unparsable.

use vstd::prelude::*;

verus! {

/// The reading assumed when none is provided or the provided text does not
/// parse.
pub const DEFAULT_READING: u32 = 70;

pub open spec fn spec_is_digit(c: char) -> bool {
    48 <= c as u32 && c as u32 <= 57
}

pub open spec fn spec_digit_val(c: char) -> nat {
    (c as u32 - 48) as nat
}

/// The number denoted by a sequence of decimal digits, most significant
/// first.
pub open spec fn spec_dec_val(s: Seq<char>) -> nat
    decreases s.len(),
{
    if s.len() == 0 {
        0
    } else {
        spec_dec_val(s.drop_last()) * 10 + spec_digit_val(s.last())
    }
}

pub open spec fn spec_all_digits(s: Seq<char>) -> bool {
    forall|i: int| 0 <= i < s.len() ==> spec_is_digit(s[i])
}

/// The digits of a candidate unsigned literal: an optional leading plus
/// sign is accepted and skipped.
pub open spec fn spec_u32_body(s: Seq<char>) -> Seq<char> {
    if s.len() > 0 && s[0] == '+' {
        s.skip(1)
    } else {
        s
    }
}

/// Whether a string is a valid `u32` literal: at least one digit after the
/// optional sign, digits only, and a value that fits.
pub open spec fn spec_parses_as_u32(s: Seq<char>) -> bool {
    let body = spec_u32_body(s);
    body.len() > 0 && spec_all_digits(body) && spec_dec_val(body) <= u32::MAX
}

/// The reading taken from an optional raw text: the denoted value when it
/// parses, the default otherwise.
pub open spec fn spec_reading_of(s: Seq<char>) -> u32 {
    if spec_parses_as_u32(s) {
        spec_dec_val(spec_u32_body(s)) as u32
    } else {
        DEFAULT_READING
    }
}

/// A prefix of a digit string never denotes more than the whole string.
proof fn lemma_dec_val_prefix(s: Seq<char>, k: int)
    requires
        0 <= k <= s.len(),
    ensures
        spec_dec_val(s.take(k)) <= spec_dec_val(s),
    decreases s.len() - k,
{
    if k == s.len() {
        assert(s.take(k) =~= s);
    } else {
        assert(s.take(k + 1).drop_last() =~= s.take(k));
        assert(spec_dec_val(s.take(k + 1)) == spec_dec_val(s.take(k)) * 10 + spec_digit_val(
            s.take(k + 1).last(),
        ));
        lemma_dec_val_prefix(s, k + 1);
    }
}

/// Parse an unsigned decimal literal, exactly when the text is one.
pub fn parse_u32(s: &str) -> (r: Option<u32>)
    ensures
        spec_parses_as_u32(s@) ==> r == Some((spec_dec_val(spec_u32_body(s@)) as u32)),
        !spec_parses_as_u32(s@) ==> r is None,
{
    let len = s.unicode_len();
    let start: usize = if len > 0 && s.get_char(0) == '+' {
        1
    } else {
        0
    };
    if start == len {
        return None;
    }
    let ghost body = spec_u32_body(s@);
    proof {
        assert(body =~= s@.subrange(start as int, len as int));
    }
    let mut acc: u32 = 0;
    let mut i: usize = start;
    while i < len
        invariant
            start <= i <= len,
            len == s@.len(),
            body == spec_u32_body(s@),
            body =~= s@.subrange(start as int, len as int),
            spec_all_digits(s@.subrange(start as int, i as int)),
            acc == spec_dec_val(s@.subrange(start as int, i as int)),
        decreases len - i,
    {
        let c = s.get_char(i);
        let code = c as u32;
        if code < 48 || code > 57 {
            proof {
                assert(body[i - start] == s@[i as int]);
                assert(!spec_is_digit(body[i - start]));
            }
            return None;
        }
        let d: u32 = code - 48;
        let ghost prefix = s@.subrange(start as int, i as int);
        let ghost extended = s@.subrange(start as int, i + 1 as int);
        proof {
            assert(extended.drop_last() =~= prefix);
            assert(extended.last() == s@[i as int]);
            assert(spec_dec_val(extended) == acc * 10 + d);
        }
        if acc > (u32::MAX - d) / 10 {
            // The value denoted so far already exceeds the type's range, so
            // no continuation of the digits can fit either.
            proof {
                assert(acc * 10 + d > u32::MAX) by (nonlinear_arith)
                    requires
                        acc > (u32::MAX - d) / 10,
                        d <= 9,
                ;
                if spec_all_digits(body) {
                    assert(body.take(i + 1 - start) =~= extended);
                    lemma_dec_val_prefix(body, i + 1 - start);
                }
            }
            return None;
        }
        proof {
            assert(acc * 10 + d <= u32::MAX) by (nonlinear_arith)
                requires
                    acc <= (u32::MAX - d) / 10,
                    d <= 9,
            ;
            assert(forall|k: int|
                0 <= k < extended.len() ==> extended[k] == #[trigger] s@.subrange(
                    start as int,
                    i + 1 as int,
                )[k]);
        }
        acc = acc * 10 + d;
        i = i + 1;
    }
    proof {
        assert(s@.subrange(start as int, len as int) =~= body);
    }
    Some(acc)
}

/// The temperature reading taken from an optional raw environment value:
/// the parsed value when present and well-formed, the default otherwise.
pub fn thermal_reading(raw: Option<&str>) -> (t: u32)
    ensures
        raw is None ==> t == DEFAULT_READING,
        raw matches Some(s) ==> t == spec_reading_of(s@),
{
    match raw {
        None => 70,
        Some(s) => match parse_u32(s) {
            Some(v) => v,
            None => 70,
        },
    }
}

/// A missing reading is read exactly as the literal default would be.
pub proof fn lemma_default_reading_matches_literal()
    ensures
        spec_reading_of("70"@) == DEFAULT_READING,
{
    reveal_strlit("70");
    let s = "70"@;
    assert(s.len() == 2);
    assert(s[0] == '7' && s[1] == '0');
    let body = spec_u32_body(s);
    assert(body == s);
    assert(body.drop_last() =~= seq!['7']);
    assert(seq!['7'].drop_last() =~= Seq::<char>::empty());
    assert(spec_dec_val(Seq::<char>::empty()) == 0);
    assert(spec_digit_val('7') == 7);
    assert(spec_digit_val('0') == 0);
    assert(seq!['7'].last() == '7');
    assert(spec_dec_val(seq!['7']) == 7);
    assert(body.last() == '0');
    assert(spec_dec_val(body) == spec_dec_val(body.drop_last()) * 10 + spec_digit_val(body.last()));
    assert(spec_dec_val(body) == 70);
}

} // verus!
