//! Identification exchange (RFC 4253 § 4.2): validating the protocol
//! version carried in the client's identification line. The version token
//! stands between the first and second `-`; it must be a decimal number in
//! [2.0, 3.0) — an integer part equal to two, optionally followed by a dot
//! and a fractional part.

use vstd::prelude::*;
use crate::errors::SshError;

verus! {

/// Splits a byte string on `-` (byte 45), exactly as the name-list split
/// does on commas.
pub open spec fn split_dashes(s: Seq<u8>) -> Seq<Seq<u8>>
    decreases s.len(),
{
    if s.len() == 0 {
        seq![Seq::<u8>::empty()]
    } else if s.last() == 45u8 {
        split_dashes(s.drop_last()).push(Seq::<u8>::empty())
    } else {
        let p = split_dashes(s.drop_last());
        p.update(p.len() - 1, p.last().push(s.last()))
    }
}

/// A split always yields at least one piece.
pub proof fn lemma_split_dashes_len(s: Seq<u8>)
    ensures
        split_dashes(s).len() >= 1,
    decreases s.len(),
{
    if s.len() > 0 {
        lemma_split_dashes_len(s.drop_last());
    }
}

/// ASCII decimal digit.
pub open spec fn is_digit(b: u8) -> bool {
    48 <= b <= 57
}

/// Length of the leading run of decimal digits.
pub open spec fn digit_prefix_len(s: Seq<u8>) -> int
    decreases s.len(),
{
    if s.len() == 0 || !is_digit(s[0]) {
        0
    } else {
        1 + digit_prefix_len(s.skip(1))
    }
}

/// The digit prefix ends exactly at the first non-digit position.
pub proof fn lemma_digit_prefix_len(s: Seq<u8>, j: int)
    requires
        0 <= j <= s.len(),
        forall|i: int| 0 <= i < j ==> is_digit(#[trigger] s[i]),
        j == s.len() || !is_digit(s[j]),
    ensures
        digit_prefix_len(s) == j,
    decreases s.len(),
{
    if s.len() == 0 || !is_digit(s[0]) {
    } else {
        lemma_digit_prefix_len(s.skip(1), j - 1);
    }
}

/// The decimal digits read as the number two: a final `2` preceded only by
/// zeros (so `2`, `02`, `002`, … — exactly what a numeric parse calls 2).
pub open spec fn digits_value_is_two(s: Seq<u8>) -> bool {
    s.len() >= 1 && s[s.len() - 1] == 50 && (forall|i: int| 0 <= i < s.len() - 1 ==> s[i] == 48u8)
}

/// A version token in [2.0, 3.0): a nonempty digit run whose value is two,
/// then either nothing or a dot followed only by digits.
pub open spec fn supported_version_token(t: Seq<u8>) -> bool {
    let k = digit_prefix_len(t);
    &&& k >= 1
    &&& (k == t.len() || t[k] == 46)
    &&& (forall|m: int| k < m < t.len() ==> is_digit(#[trigger] t[m]))
    &&& digits_value_is_two(t.take(k))
}

/// An identification line (terminator already stripped) announcing a
/// supported protocol version: it has a version token — the piece between
/// the first and second `-` — and that token is a number in [2.0, 3.0).
pub open spec fn supported_ident(line: Seq<u8>) -> bool {
    split_dashes(line).len() >= 2 && supported_version_token(split_dashes(line)[1])
}

/// One trailing `\n` and then one trailing `\r` removed, as reading one line
/// from the peer leaves them.
pub open spec fn strip_line_ending(s: Seq<u8>) -> Seq<u8> {
    let t = if s.len() >= 1 && s.last() == 10u8 {
        s.drop_last()
    } else {
        s
    };
    if t.len() >= 1 && t.last() == 13u8 {
        t.drop_last()
    } else {
        t
    }
}

/// The byte sequences of a vector of pieces.
pub open spec fn piece_views(vs: Seq<Vec<u8>>) -> Seq<Seq<u8>> {
    vs.map_values(|v: Vec<u8>| v@)
}

/// Validates the protocol version in a raw client identification line (the
/// line terminator may still be attached). Accepts exactly the lines whose
/// version token is a number in [2.0, 3.0); anything else is the
/// version-mismatch error, answered with the protocol-version-not-supported
/// disconnect reason.
#[verifier::loop_isolation(false)]
pub fn validate_client_ident(ident: &Vec<u8>) -> (r: Result<(), SshError>)
    ensures
        r is Ok <==> supported_ident(strip_line_ending(ident@)),
        r is Err ==> r->Err_0 == SshError::UnsupportedVersion,
{
    let mut end: usize = ident.len();
    if end > 0 && ident[end - 1] == 10u8 {
        end = end - 1;
    }
    if end > 0 && ident[end - 1] == 13u8 {
        end = end - 1;
    }
    let ghost line = strip_line_ending(ident@);
    proof {
        assert(line =~= ident@.subrange(0, end as int));
    }
    // Split the line on dashes, as the version token is its second piece.
    let mut pieces: Vec<Vec<u8>> = Vec::new();
    let mut cur: Vec<u8> = Vec::new();
    let mut i: usize = 0;
    while i < end
        invariant
            i <= end,
            end <= ident@.len(),
            piece_views(pieces@).push(cur@) =~= split_dashes(line.take(i as int)),
        decreases end - i,
    {
        let b = ident[i];
        let ghost prev_pieces = pieces@;
        let ghost prev_cur = cur@;
        proof {
            assert(line.take(i + 1).drop_last() =~= line.take(i as int));
            assert(line.take(i + 1).last() == line[i as int]);
        }
        if b == 45u8 {
            pieces.push(cur);
            cur = Vec::new();
            proof {
                assert(piece_views(pieces@) =~= piece_views(prev_pieces).push(prev_cur));
                assert(piece_views(pieces@).push(cur@) =~= split_dashes(line.take(i + 1)));
            }
        } else {
            cur.push(b);
            proof {
                let p = split_dashes(line.take(i as int));
                lemma_split_dashes_len(line.take(i as int));
                assert(p.last() == prev_cur);
                assert(piece_views(pieces@).push(cur@) =~= p.update(p.len() - 1, p.last().push(b)));
            }
        }
        i = i + 1;
    }
    pieces.push(cur);
    proof {
        assert(line.take(end as int) =~= line);
        assert(piece_views(pieces@) =~= split_dashes(line));
    }
    if pieces.len() < 2 {
        return Err(SshError::UnsupportedVersion);
    }
    let token = &pieces[1];
    proof {
        assert(token@ == split_dashes(line)[1]);
    }
    // Measure the leading digit run of the token.
    let mut k: usize = 0;
    while k < token.len() && token[k] >= 48u8 && token[k] <= 57u8
        invariant
            k <= token@.len(),
            forall|m: int| 0 <= m < k ==> is_digit(#[trigger] token@[m]),
        decreases token@.len() - k,
    {
        k = k + 1;
    }
    proof {
        lemma_digit_prefix_len(token@, k as int);
    }
    if k == 0 {
        return Err(SshError::UnsupportedVersion);
    }
    if k < token.len() && token[k] != 46u8 {
        return Err(SshError::UnsupportedVersion);
    }
    // Everything after the dot must be digits.
    if k < token.len() {
        let mut m: usize = k + 1;
        while m < token.len()
            invariant
                k + 1 <= m <= token@.len(),
                forall|q: int| k < q < m ==> is_digit(#[trigger] token@[q]),
            decreases token@.len() - m,
        {
            if token[m] < 48u8 || token[m] > 57u8 {
                return Err(SshError::UnsupportedVersion);
            }
            m = m + 1;
        }
    }
    // The integer part must read as two: a final `2` preceded only by zeros.
    if token[k - 1] != 50u8 {
        proof {
            assert(token@.take(k as int)[k - 1] == token@[k - 1]);
            assert(!digits_value_is_two(token@.take(k as int)));
        }
        return Err(SshError::UnsupportedVersion);
    }
    let mut z: usize = 0;
    while z < k - 1
        invariant
            z <= k - 1,
            k <= token@.len(),
            k >= 1,
            forall|q: int| 0 <= q < z ==> token@[q] == 48u8,
        decreases k - 1 - z,
    {
        if token[z] != 48u8 {
            proof {
                assert(token@.take(k as int)[z as int] == token@[z as int]);
                assert(!digits_value_is_two(token@.take(k as int)));
            }
            return Err(SshError::UnsupportedVersion);
        }
        z = z + 1;
    }
    proof {
        assert(digits_value_is_two(token@.take(k as int)));
        assert(supported_version_token(token@));
    }
    Ok(())
}

} // verus!
